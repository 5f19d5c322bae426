use vstd::prelude::*;
use crate::client::{Client, ClientError};
use crate::wire::{spec_parse_empty_payload, MsgParser, MsgParserError};

verus! {

/// Opcode of the `destroy` request.
pub const DESTROY: u32 = 0;

/// Opcode of the `release` event.
pub const RELEASE: u32 = 0;

/// A pixel format: its code and its bytes per pixel.
#[derive(Clone, Copy, Debug, PartialEq, Eq, Structural)]
pub struct Format {
    pub id: u32,
    pub bpp: u32,
}

/// Why a buffer could not be created or a request to it failed.
#[derive(Clone, Copy, Debug, PartialEq, Eq, Structural)]
pub enum WlBufferError {
    /// Width, height or stride is negative.
    InvalidSize,
    /// The pixels reach beyond the end of the memory.
    OutOfBounds,
    /// A row of pixels does not fit in the stride.
    StrideTooSmall,
    ParseFailed(MsgParserError),
    ClientError(ClientError),
    /// The opcode names no request of the interface.
    UnknownRequest(u32),
}

/// The event telling a client that the compositor no longer reads a buffer.
#[derive(Clone, Copy, Debug, PartialEq, Eq, Structural)]
pub struct Release {
    pub buffer_id: u32,
}

/// A view of a client's shared memory as an image.
pub struct WlBuffer {
    pub id: u32,
    pub client: u64,
    pub offset: usize,
    pub width: i32,
    pub height: i32,
    pub stride: i32,
    pub format: Format,
    /// The surfaces the buffer is attached to.
    pub surfaces: Vec<u32>,
}

/// The number of bytes from the start of the memory to the end of the image.
pub open spec fn required_len(offset: usize, height: i32, stride: i32) -> int {
    stride as int * height as int + offset as int
}

impl WlBuffer {
    /// The image fits in memory and each row in the stride.
    pub open spec fn wf(&self, mem_len: usize) -> bool {
        &&& self.width >= 0
        &&& self.height >= 0
        &&& self.stride >= 0
        &&& required_len(self.offset, self.height, self.stride) <= mem_len
        &&& self.stride as int >= self.width as int * self.format.bpp as int
    }

    /// Creates a buffer of `width` by `height` pixels, rows `stride` bytes
    /// apart, starting at `offset` in a memory of `mem_len` bytes.
    pub fn new(
        id: u32,
        client: u64,
        offset: usize,
        width: i32,
        height: i32,
        stride: i32,
        format: Format,
        mem_len: usize,
    ) -> (r: Result<WlBuffer, WlBufferError>)
        ensures
            width < 0 || height < 0 || stride < 0 ==> r == Err::<WlBuffer, WlBufferError>(
                WlBufferError::InvalidSize,
            ),
            width >= 0 && height >= 0 && stride >= 0 && required_len(offset, height, stride)
                > mem_len ==> r == Err::<WlBuffer, WlBufferError>(WlBufferError::OutOfBounds),
            width >= 0 && height >= 0 && stride >= 0 && required_len(offset, height, stride)
                <= mem_len && (stride as int) < width as int * format.bpp as int ==> r == Err::<
                WlBuffer,
                WlBufferError,
            >(WlBufferError::StrideTooSmall),
            r is Ok <==> width >= 0 && height >= 0 && stride >= 0 && required_len(
                offset,
                height,
                stride,
            ) <= mem_len && stride as int >= width as int * format.bpp as int,
            r is Ok ==> {
                let b = r->Ok_0;
                &&& b.wf(mem_len)
                &&& b.id == id
                &&& b.client == client
                &&& b.offset == offset
                &&& b.width == width
                &&& b.height == height
                &&& b.stride == stride
                &&& b.format == format
                &&& b.surfaces@.len() == 0
            },
    {
        if width < 0 || height < 0 || stride < 0 {
            return Err(WlBufferError::InvalidSize);
        }
        assert(stride as u128 * height as u128 <= 0x4000_0000_0000_0000) by (nonlinear_arith)
            requires
                0 <= stride <= 0x7fff_ffff,
                0 <= height <= 0x7fff_ffff,
        ;
        assert(width as u128 * format.bpp as u128 <= 0x8000_0000_0000_0000) by (nonlinear_arith)
            requires
                0 <= width <= 0x7fff_ffff,
                format.bpp <= 0xffff_ffff,
        ;
        let bytes = stride as u128 * height as u128;
        let required = bytes + offset as u128;
        if required > mem_len as u128 {
            return Err(WlBufferError::OutOfBounds);
        }
        let min_row_size = width as u128 * format.bpp as u128;
        if (stride as u128) < min_row_size {
            return Err(WlBufferError::StrideTooSmall);
        }
        Ok(WlBuffer { id, client, offset, width, height, stride, format, surfaces: Vec::new() })
    }

    /// The buffer's object id.
    pub fn id(&self) -> (r: u32)
        ensures
            r == self.id,
    {
        self.id
    }

    /// The number of requests of the interface.
    pub fn num_requests(&self) -> (r: u32)
        ensures
            r == DESTROY + 1,
    {
        DESTROY + 1
    }

    /// Detaches the buffer from every surface.
    pub fn break_loops(&mut self)
        ensures
            final(self).surfaces@.len() == 0,
            *final(self) == (WlBuffer { surfaces: final(self).surfaces, ..*old(self) }),
    {
        self.surfaces = Vec::new();
    }

    /// Handles the `destroy` request: detaches the buffer from every surface
    /// and removes it from its client's objects.
    pub fn destroy(&mut self, client: &mut Client, parser: &MsgParser) -> (r: Result<(), WlBufferError>)
        requires
            old(client).wf(),
        ensures
            final(client).wf(),
            match spec_parse_empty_payload(parser.buf@, parser.pos as int) {
                Ok(_) => {
                    &&& final(self).surfaces@.len() == 0
                    &&& *final(self) == (WlBuffer { surfaces: final(self).surfaces, ..*old(self) })
                    &&& final(client).object_set() == old(client).object_set().remove(old(self).id)
                    &&& (r is Ok <==> old(client).object_set().contains(old(self).id))
                    &&& r is Err ==> r == Err::<(), WlBufferError>(
                        WlBufferError::ClientError(ClientError::UnknownId(old(self).id)),
                    )
                },
                Err(e) => r == Err::<(), WlBufferError>(WlBufferError::ParseFailed(e))
                    && *final(self) == *old(self) && *final(client) == *old(client),
            },
    {
        if let Err(e) = parser.eof() {
            return Err(WlBufferError::ParseFailed(e));
        }
        self.break_loops();
        match client.remove_obj(self.id) {
            Ok(()) => Ok(()),
            Err(e) => Err(WlBufferError::ClientError(e)),
        }
    }

    /// Dispatches a request by its opcode.
    pub fn handle_request_(&mut self, client: &mut Client, request: u32, parser: &MsgParser) -> (r:
        Result<(), WlBufferError>)
        requires
            old(client).wf(),
        ensures
            final(client).wf(),
            request != DESTROY ==> r == Err::<(), WlBufferError>(
                WlBufferError::UnknownRequest(request),
            ) && *final(self) == *old(self) && *final(client) == *old(client),
            request == DESTROY ==> match spec_parse_empty_payload(parser.buf@, parser.pos as int) {
                Ok(_) => {
                    &&& final(self).surfaces@.len() == 0
                    &&& final(client).object_set() == old(client).object_set().remove(old(self).id)
                    &&& (r is Ok <==> old(client).object_set().contains(old(self).id))
                },
                Err(e) => r == Err::<(), WlBufferError>(WlBufferError::ParseFailed(e))
                    && *final(self) == *old(self) && *final(client) == *old(client),
            },
    {
        if request == DESTROY {
            self.destroy(client, parser)
        } else {
            Err(WlBufferError::UnknownRequest(request))
        }
    }

    /// The event releasing the buffer to its client.
    pub fn release(&self) -> (r: Release)
        ensures
            r.buffer_id == self.id,
    {
        Release { buffer_id: self.id }
    }
}

} // verus!
