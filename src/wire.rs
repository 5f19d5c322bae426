use vstd::prelude::*;
use vstd::utf8::{decode_utf8, encode_utf8, encode_utf8_decode_utf8, encode_utf8_valid_utf8, valid_utf8};
use vstd::string::StringSliceAdditionalSpecFns;
use std::rc::Rc;
use uapi::OwnedFd;

verus! {

/// A file descriptor that is closed when its last owner drops it.
#[verifier::external_type_specification]
#[verifier::external_body]
pub struct ExOwnedFd(uapi::OwnedFd);

/// Why a message's arguments could not be read.
#[derive(Clone, Copy, Debug, PartialEq, Eq, Structural)]
pub enum MsgParserError {
    /// The payload ends before the argument does.
    UnexpectedEof,
    /// An `fd` argument found no file descriptor in the queue.
    MissingFd,
    /// A non-nullable string was sent as null.
    NullString,
    /// A string's last byte is not NUL.
    MissingNul,
    /// A string is not valid UTF-8.
    InvalidUtf8,
    /// Bytes are left over after the last argument.
    TrailingData,
}

/// The type of a message argument.
#[derive(Clone, Copy, Debug, PartialEq, Eq, Structural)]
pub enum ArgKind {
    Uint,
    Int,
    Str,
    OptStr,
    Fd,
}

/// A message argument.
#[derive(Debug)]
pub enum Arg {
    Uint(u32),
    Int(i32),
    Str(String),
    OptStr(Option<String>),
    Fd(Rc<OwnedFd>),
}

/// What a message argument holds.
pub enum ArgValue {
    Uint(u32),
    Int(i32),
    Str(Seq<char>),
    OptStr(Option<Seq<char>>),
    Fd(Rc<OwnedFd>),
}

impl View for Arg {
    type V = ArgValue;

    open spec fn view(&self) -> ArgValue {
        match self {
            Arg::Uint(x) => ArgValue::Uint(*x),
            Arg::Int(x) => ArgValue::Int(*x),
            Arg::Str(s) => ArgValue::Str(s@),
            Arg::OptStr(s) => ArgValue::OptStr(
                match s {
                    Some(s) => Some(s@),
                    None => None,
                },
            ),
            Arg::Fd(f) => ArgValue::Fd(*f),
        }
    }
}

/// The views of `args`.
pub open spec fn arg_views(args: Seq<Arg>) -> Seq<ArgValue> {
    args.map_values(|a: Arg| a@)
}

/// The type of an argument.
pub open spec fn arg_kind(a: ArgValue) -> ArgKind {
    match a {
        ArgValue::Uint(_) => ArgKind::Uint,
        ArgValue::Int(_) => ArgKind::Int,
        ArgValue::Str(_) => ArgKind::Str,
        ArgValue::OptStr(_) => ArgKind::OptStr,
        ArgValue::Fd(_) => ArgKind::Fd,
    }
}

/// The types of `args`.
pub open spec fn arg_kinds(args: Seq<ArgValue>) -> Seq<ArgKind> {
    args.map_values(|a: ArgValue| arg_kind(a))
}

/// An argument can be written: a string's bytes and its length word fit.
pub open spec fn arg_fits(a: ArgValue) -> bool {
    match a {
        ArgValue::Str(s) => encode_utf8(s).len() + 4 <= 0xffff_ffff,
        ArgValue::OptStr(Some(s)) => encode_utf8(s).len() + 4 <= 0xffff_ffff,
        _ => true,
    }
}

/// The payload bytes of an argument; a file descriptor travels beside them.
pub open spec fn arg_bytes(a: ArgValue) -> Seq<u8> {
    match a {
        ArgValue::Uint(x) => u32_bytes(x),
        ArgValue::Int(x) => u32_bytes(x as u32),
        ArgValue::Str(s) => spec_str_bytes(s),
        ArgValue::OptStr(Some(s)) => spec_str_bytes(s),
        ArgValue::OptStr(None) => spec_null_str_bytes(),
        ArgValue::Fd(_) => Seq::empty(),
    }
}

/// The file descriptors an argument sends.
pub open spec fn arg_fds(a: ArgValue) -> Seq<Rc<OwnedFd>> {
    match a {
        ArgValue::Fd(f) => seq![f],
        _ => Seq::empty(),
    }
}

/// The payload bytes of `args`, in order.
pub open spec fn args_bytes(args: Seq<ArgValue>) -> Seq<u8>
    decreases args.len(),
{
    if args.len() == 0 {
        Seq::empty()
    } else {
        arg_bytes(args[0]) + args_bytes(args.drop_first())
    }
}

/// The file descriptors of `args`, in order.
pub open spec fn args_fds(args: Seq<ArgValue>) -> Seq<Rc<OwnedFd>>
    decreases args.len(),
{
    if args.len() == 0 {
        Seq::empty()
    } else {
        arg_fds(args[0]) + args_fds(args.drop_first())
    }
}

/// How one argument of type `kind` reads at byte `pos` of `b` and file
/// descriptor `fd_pos` of `fds`, with the two cursors after it.
pub open spec fn spec_parse_arg(kind: ArgKind, b: Seq<u8>, pos: int, fds: Seq<Rc<OwnedFd>>, fd_pos: int) -> Result<
    (ArgValue, int, int),
    MsgParserError,
> {
    match kind {
        ArgKind::Uint => if pos + 4 > b.len() {
            Err(MsgParserError::UnexpectedEof)
        } else {
            Ok((ArgValue::Uint(word_at(b, pos)), pos + 4, fd_pos))
        },
        ArgKind::Int => if pos + 4 > b.len() {
            Err(MsgParserError::UnexpectedEof)
        } else {
            Ok((ArgValue::Int(word_at(b, pos) as i32), pos + 4, fd_pos))
        },
        ArgKind::Str => match spec_parse_optstr(b, pos) {
            Ok((Some(s), next)) => Ok((ArgValue::Str(s), next, fd_pos)),
            Ok((None, _)) => Err(MsgParserError::NullString),
            Err(e) => Err(e),
        },
        ArgKind::OptStr => match spec_parse_optstr(b, pos) {
            Ok((s, next)) => Ok((ArgValue::OptStr(s), next, fd_pos)),
            Err(e) => Err(e),
        },
        ArgKind::Fd => if fd_pos < fds.len() {
            Ok((ArgValue::Fd(fds[fd_pos]), pos, fd_pos + 1))
        } else {
            Err(MsgParserError::MissingFd)
        },
    }
}

/// How arguments of types `kinds` read, one after the other.
pub open spec fn spec_parse_args(
    kinds: Seq<ArgKind>,
    b: Seq<u8>,
    pos: int,
    fds: Seq<Rc<OwnedFd>>,
    fd_pos: int,
) -> Result<(Seq<ArgValue>, int, int), MsgParserError>
    decreases kinds.len(),
{
    if kinds.len() == 0 {
        Ok((Seq::empty(), pos, fd_pos))
    } else {
        match spec_parse_arg(kinds[0], b, pos, fds, fd_pos) {
            Err(e) => Err(e),
            Ok((a, p, f)) => prepend_arg(a, spec_parse_args(kinds.drop_first(), b, p, fds, f)),
        }
    }
}

/// `r` with `a` put in front of the arguments it read.
pub open spec fn prepend_arg(a: ArgValue, r: Result<(Seq<ArgValue>, int, int), MsgParserError>) -> Result<
    (Seq<ArgValue>, int, int),
    MsgParserError,
> {
    match r {
        Ok((rest, p, f)) => Ok((seq![a] + rest, p, f)),
        Err(e) => Err(e),
    }
}

/// `r` with `front` put in front of the arguments it read.
pub open spec fn prepend_args(front: Seq<ArgValue>, r: Result<(Seq<ArgValue>, int, int), MsgParserError>) -> Result<
    (Seq<ArgValue>, int, int),
    MsgParserError,
> {
    match r {
        Ok((rest, p, f)) => Ok((front + rest, p, f)),
        Err(e) => Err(e),
    }
}

/// The little-endian `u32` stored at `b[i..i + 4]`.
pub open spec fn le_u32(b0: u8, b1: u8, b2: u8, b3: u8) -> u32 {
    (b0 as u32) | ((b1 as u32) << 8u32) | ((b2 as u32) << 16u32) | ((b3 as u32) << 24u32)
}

/// The four little-endian bytes of `x`.
pub open spec fn u32_bytes(x: u32) -> Seq<u8> {
    seq![x as u8, (x >> 8u32) as u8, (x >> 16u32) as u8, (x >> 24u32) as u8]
}

/// The word at byte offset `i` of `b`.
pub open spec fn word_at(b: Seq<u8>, i: int) -> u32 {
    le_u32(b[i], b[i + 1], b[i + 2], b[i + 3])
}

/// `n` rounded up to a multiple of four.
pub open spec fn padded_len(n: int) -> int {
    n + (4 - n % 4) % 4
}

/// How a string argument at byte offset `pos` of `b` reads: `None` for the
/// null string, otherwise its characters; together with the offset after it.
pub open spec fn spec_parse_optstr(b: Seq<u8>, pos: int) -> Result<(Option<Seq<char>>, int), MsgParserError> {
    if pos + 4 > b.len() {
        Err(MsgParserError::UnexpectedEof)
    } else {
        let len = word_at(b, pos) as int;
        let start = pos + 4;
        if len == 0 {
            Ok((None, start))
        } else if start + padded_len(len) > b.len() {
            Err(MsgParserError::UnexpectedEof)
        } else if b[start + len - 1] != 0 {
            Err(MsgParserError::MissingNul)
        } else if !valid_utf8(b.subrange(start, start + len - 1)) {
            Err(MsgParserError::InvalidUtf8)
        } else {
            Ok((Some(decode_utf8(b.subrange(start, start + len - 1))), start + padded_len(len)))
        }
    }
}

/// How a payload of one string argument at `pos` of `b` reads.
pub open spec fn spec_parse_str_payload(b: Seq<u8>, pos: int) -> Result<Seq<char>, MsgParserError> {
    match spec_parse_optstr(b, pos) {
        Ok((Some(m), next)) => if next == b.len() {
            Ok(m)
        } else {
            Err(MsgParserError::TrailingData)
        },
        Ok((None, _)) => Err(MsgParserError::NullString),
        Err(e) => Err(e),
    }
}

/// How a payload of one `u32` argument at `pos` of `b` reads.
pub open spec fn spec_parse_uint_payload(b: Seq<u8>, pos: int) -> Result<u32, MsgParserError> {
    if pos + 4 > b.len() {
        Err(MsgParserError::UnexpectedEof)
    } else if pos + 4 != b.len() {
        Err(MsgParserError::TrailingData)
    } else {
        Ok(word_at(b, pos))
    }
}

/// How a payload without arguments at `pos` of `b` reads.
pub open spec fn spec_parse_empty_payload(b: Seq<u8>, pos: int) -> Result<(), MsgParserError> {
    if pos == b.len() {
        Ok(())
    } else {
        Err(MsgParserError::TrailingData)
    }
}

/// The bytes of a string argument: its length with the NUL, its UTF-8
/// bytes, a NUL and zero padding to a multiple of four.
pub open spec fn spec_str_bytes(s: Seq<char>) -> Seq<u8> {
    let bytes = encode_utf8(s);
    let len = bytes.len() as int + 1;
    u32_bytes(len as u32) + bytes + Seq::new((padded_len(len) - bytes.len()) as nat, |i: int| 0u8)
}

/// The bytes of a null string argument.
pub open spec fn spec_null_str_bytes() -> Seq<u8> {
    u32_bytes(0)
}

/// A `u32` written as four little-endian bytes reads back unchanged.
pub proof fn lemma_u32_round_trip(x: u32)
    ensures
        le_u32(u32_bytes(x)[0], u32_bytes(x)[1], u32_bytes(x)[2], u32_bytes(x)[3]) == x,
{
    assert(((x as u8) as u32) | ((((x >> 8u32) as u8) as u32) << 8u32) | ((((x >> 16u32) as u8) as u32)
        << 16u32) | ((((x >> 24u32) as u8) as u32) << 24u32) == x) by (bit_vector);
}

/// The word read at the start of `u32_bytes(x) + rest`, after any prefix,
/// is `x`.
pub proof fn lemma_word_at_bytes(prefix: Seq<u8>, x: u32, rest: Seq<u8>)
    ensures
        word_at(prefix + u32_bytes(x) + rest, prefix.len() as int) == x,
{
    let b = prefix + u32_bytes(x) + rest;
    let p = prefix.len() as int;
    assert(b[p] == u32_bytes(x)[0]);
    assert(b[p + 1] == u32_bytes(x)[1]);
    assert(b[p + 2] == u32_bytes(x)[2]);
    assert(b[p + 3] == u32_bytes(x)[3]);
    lemma_u32_round_trip(x);
}

/// A string argument written after any prefix reads back as the same
/// characters, and the cursor lands right after it.
pub proof fn lemma_str_round_trip(prefix: Seq<u8>, s: Seq<char>, rest: Seq<u8>)
    requires
        encode_utf8(s).len() + 4 <= 0xffff_ffff,
    ensures
        spec_parse_optstr(prefix + spec_str_bytes(s) + rest, prefix.len() as int) == Ok::<
            (Option<Seq<char>>, int),
            MsgParserError,
        >((Some(s), (prefix.len() + spec_str_bytes(s).len()) as int)),
{
    let bytes = encode_utf8(s);
    let len = bytes.len() as int + 1;
    let zeros = Seq::new((padded_len(len) - bytes.len()) as nat, |i: int| 0u8);
    let b = prefix + spec_str_bytes(s) + rest;
    let p = prefix.len() as int;
    let start = p + 4;
    assert(spec_str_bytes(s) == u32_bytes(len as u32) + (bytes + zeros)) by {
        assert(spec_str_bytes(s) =~= u32_bytes(len as u32) + (bytes + zeros));
    }
    assert(b =~= prefix + u32_bytes(len as u32) + ((bytes + zeros) + rest));
    lemma_word_at_bytes(prefix, len as u32, (bytes + zeros) + rest);
    assert(word_at(b, p) as int == len);
    assert(b[start + len - 1] == zeros[0]);
    assert(b.subrange(start, start + len - 1) =~= bytes);
    encode_utf8_valid_utf8(s);
    encode_utf8_decode_utf8(s);
}

/// One argument written after any prefixes reads back as the same value.
proof fn lemma_arg_round_trip(
    prefix: Seq<u8>,
    a: ArgValue,
    rest: Seq<u8>,
    fd_prefix: Seq<Rc<OwnedFd>>,
    fd_rest: Seq<Rc<OwnedFd>>,
)
    requires
        arg_fits(a),
    ensures
        spec_parse_arg(
            arg_kind(a),
            prefix + arg_bytes(a) + rest,
            prefix.len() as int,
            fd_prefix + arg_fds(a) + fd_rest,
            fd_prefix.len() as int,
        ) == Ok::<(ArgValue, int, int), MsgParserError>(
            (
                a,
                (prefix.len() + arg_bytes(a).len()) as int,
                (fd_prefix.len() + arg_fds(a).len()) as int,
            ),
        ),
{
    match a {
        ArgValue::Uint(x) => {
            lemma_word_at_bytes(prefix, x, rest);
        },
        ArgValue::Int(x) => {
            lemma_word_at_bytes(prefix, x as u32, rest);
            assert((x as u32) as i32 == x) by (bit_vector);
        },
        ArgValue::Str(s) => {
            lemma_str_round_trip(prefix, s, rest);
        },
        ArgValue::OptStr(Some(s)) => {
            lemma_str_round_trip(prefix, s, rest);
        },
        ArgValue::OptStr(None) => {
            lemma_word_at_bytes(prefix, 0, rest);
        },
        ArgValue::Fd(f) => {
            assert((fd_prefix + arg_fds(a) + fd_rest)[fd_prefix.len() as int] == f);
        },
    }
}

/// Arguments written after any prefixes, of bytes and of file
/// descriptors, read back as the same values, with both cursors right after
/// them.
pub proof fn lemma_args_round_trip(
    prefix: Seq<u8>,
    args: Seq<ArgValue>,
    rest: Seq<u8>,
    fd_prefix: Seq<Rc<OwnedFd>>,
    fd_rest: Seq<Rc<OwnedFd>>,
)
    requires
        forall|i: int| 0 <= i < args.len() ==> arg_fits(#[trigger] args[i]),
    ensures
        spec_parse_args(
            arg_kinds(args),
            prefix + args_bytes(args) + rest,
            prefix.len() as int,
            fd_prefix + args_fds(args) + fd_rest,
            fd_prefix.len() as int,
        ) == Ok::<(Seq<ArgValue>, int, int), MsgParserError>(
            (
                args,
                (prefix.len() + args_bytes(args).len()) as int,
                (fd_prefix.len() + args_fds(args).len()) as int,
            ),
        ),
    decreases args.len(),
{
    let kinds = arg_kinds(args);
    let b = prefix + args_bytes(args) + rest;
    let fds = fd_prefix + args_fds(args) + fd_rest;
    if args.len() == 0 {
        assert(args =~= Seq::<ArgValue>::empty());
    } else {
        let a = args[0];
        let tail = args.drop_first();
        let p2 = prefix + arg_bytes(a);
        let f2 = fd_prefix + arg_fds(a);
        assert(b =~= p2 + args_bytes(tail) + rest);
        assert(fds =~= f2 + args_fds(tail) + fd_rest);
        assert(kinds[0] == arg_kind(a));
        assert(kinds.drop_first() =~= arg_kinds(tail));
        assert forall|i: int| 0 <= i < tail.len() implies arg_fits(#[trigger] tail[i]) by {
            assert(tail[i] == args[i + 1]);
        }
        assert(arg_fits(args[0]));
        lemma_arg_round_trip(prefix, a, args_bytes(tail) + rest, fd_prefix, args_fds(tail) + fd_rest);
        assert(b =~= prefix + arg_bytes(a) + (args_bytes(tail) + rest));
        assert(fds =~= fd_prefix + arg_fds(a) + (args_fds(tail) + fd_rest));
        lemma_args_round_trip(p2, tail, rest, f2, fd_rest);
        assert(seq![a] + tail =~= args);
    }
}

proof fn lemma_prepend_empty(r: Result<(Seq<ArgValue>, int, int), MsgParserError>)
    ensures
        prepend_args(Seq::empty(), r) == r,
{
    match r {
        Ok((rest, p, f)) => {
            assert(Seq::<ArgValue>::empty() + rest =~= rest);
        },
        Err(_) => {},
    }
}

proof fn lemma_prepend_push(
    front: Seq<ArgValue>,
    a: ArgValue,
    r: Result<(Seq<ArgValue>, int, int), MsgParserError>,
)
    ensures
        prepend_args(front, prepend_arg(a, r)) == prepend_args(front.push(a), r),
{
    match r {
        Ok((rest, p, f)) => {
            assert(front + (seq![a] + rest) =~= front.push(a) + rest);
        },
        Err(_) => {},
    }
}

/// Reads the arguments of one message: a payload and the file descriptors
/// that arrived with it, each with a cursor.
pub struct MsgParser {
    pub buf: Vec<u8>,
    pub pos: usize,
    pub fds: Vec<Rc<OwnedFd>>,
    pub fd_pos: usize,
}

impl MsgParser {
    /// The cursors lie within their queues.
    pub open spec fn wf(&self) -> bool {
        self.pos <= self.buf@.len() && self.fd_pos <= self.fds@.len()
    }

    /// A parser at the start of `buf` and `fds`.
    pub fn new(buf: Vec<u8>, fds: Vec<Rc<OwnedFd>>) -> (r: MsgParser)
        ensures
            r.wf(),
            r.buf@ == buf@,
            r.fds@ == fds@,
            r.pos == 0,
            r.fd_pos == 0,
    {
        MsgParser { buf, pos: 0, fds, fd_pos: 0 }
    }

    /// Reads an unsigned 32-bit argument.
    pub fn uint(&mut self) -> (r: Result<u32, MsgParserError>)
        requires
            old(self).wf(),
        ensures
            final(self).wf(),
            final(self).buf@ == old(self).buf@,
            final(self).fds@ == old(self).fds@,
            final(self).fd_pos == old(self).fd_pos,
            old(self).pos + 4 <= old(self).buf@.len() ==> r == Ok::<u32, MsgParserError>(
                word_at(old(self).buf@, old(self).pos as int),
            ) && final(self).pos == old(self).pos + 4,
            old(self).pos + 4 > old(self).buf@.len() ==> r == Err::<u32, MsgParserError>(
                MsgParserError::UnexpectedEof,
            ) && final(self).pos == old(self).pos,
    {
        if self.buf.len() - self.pos < 4 {
            return Err(MsgParserError::UnexpectedEof);
        }
        let p = self.pos;
        let w = (self.buf[p] as u32) | ((self.buf[p + 1] as u32) << 8u32) | ((self.buf[p + 2] as u32)
            << 16u32) | ((self.buf[p + 3] as u32) << 24u32);
        self.pos = p + 4;
        Ok(w)
    }

    /// Reads a signed 32-bit argument.
    pub fn sint(&mut self) -> (r: Result<i32, MsgParserError>)
        requires
            old(self).wf(),
        ensures
            final(self).wf(),
            final(self).buf@ == old(self).buf@,
            final(self).fds@ == old(self).fds@,
            final(self).fd_pos == old(self).fd_pos,
            old(self).pos + 4 <= old(self).buf@.len() ==> r == Ok::<i32, MsgParserError>(
                word_at(old(self).buf@, old(self).pos as int) as i32,
            ) && final(self).pos == old(self).pos + 4,
            old(self).pos + 4 > old(self).buf@.len() ==> r == Err::<i32, MsgParserError>(
                MsgParserError::UnexpectedEof,
            ) && final(self).pos == old(self).pos,
    {
        match self.uint() {
            Ok(w) => Ok(w as i32),
            Err(e) => Err(e),
        }
    }

    /// Takes the next file descriptor of the queue.
    pub fn fd(&mut self) -> (r: Result<Rc<OwnedFd>, MsgParserError>)
        requires
            old(self).wf(),
        ensures
            final(self).wf(),
            final(self).buf@ == old(self).buf@,
            final(self).fds@ == old(self).fds@,
            final(self).pos == old(self).pos,
            old(self).fd_pos < old(self).fds@.len() ==> r == Ok::<Rc<OwnedFd>, MsgParserError>(
                old(self).fds@[old(self).fd_pos as int],
            ) && final(self).fd_pos == old(self).fd_pos + 1,
            old(self).fd_pos >= old(self).fds@.len() ==> r == Err::<Rc<OwnedFd>, MsgParserError>(
                MsgParserError::MissingFd,
            ) && final(self).fd_pos == old(self).fd_pos,
    {
        if self.fd_pos >= self.fds.len() {
            return Err(MsgParserError::MissingFd);
        }
        let fd = share_fd(&self.fds[self.fd_pos]);
        self.fd_pos = self.fd_pos + 1;
        Ok(fd)
    }

    /// Reads a nullable string argument.
    pub fn optstr(&mut self) -> (r: Result<Option<String>, MsgParserError>)
        requires
            old(self).wf(),
        ensures
            final(self).wf(),
            final(self).buf@ == old(self).buf@,
            final(self).fds@ == old(self).fds@,
            final(self).fd_pos == old(self).fd_pos,
            match spec_parse_optstr(old(self).buf@, old(self).pos as int) {
                Ok((s, next)) => r is Ok && final(self).pos == next && match s {
                    None => r->Ok_0 is None,
                    Some(chars) => r->Ok_0 is Some && r->Ok_0->Some_0@ == chars,
                },
                Err(e) => r == Err::<Option<String>, MsgParserError>(e) && final(self).pos
                    == old(self).pos,
            },
    {
        let start = self.pos;
        let len = match self.uint() {
            Ok(len) => len as usize,
            Err(e) => return Err(e),
        };
        let after = self.pos;
        if len == 0 {
            return Ok(None);
        }
        let pad = (4 - len % 4) % 4;
        if self.buf.len() - after < len || self.buf.len() - after - len < pad {
            self.pos = start;
            return Err(MsgParserError::UnexpectedEof);
        }
        if self.buf[after + len - 1] != 0 {
            self.pos = start;
            return Err(MsgParserError::MissingNul);
        }
        let mut bytes: Vec<u8> = Vec::new();
        let end = after + len - 1;
        let mut i: usize = after;
        while i < end
            invariant
                after <= i <= end,
                end < self.buf@.len(),
                bytes@ == self.buf@.subrange(after as int, i as int),
            decreases end - i,
        {
            bytes.push(self.buf[i]);
            i = i + 1;
        }
        match string_from_utf8(bytes) {
            Some(s) => {
                self.pos = after + len + pad;
                Ok(Some(s))
            },
            None => {
                self.pos = start;
                Err(MsgParserError::InvalidUtf8)
            },
        }
    }

    /// Reads a string argument that may not be null.
    pub fn str(&mut self) -> (r: Result<String, MsgParserError>)
        requires
            old(self).wf(),
        ensures
            final(self).wf(),
            final(self).buf@ == old(self).buf@,
            final(self).fds@ == old(self).fds@,
            final(self).fd_pos == old(self).fd_pos,
            match spec_parse_optstr(old(self).buf@, old(self).pos as int) {
                Ok((Some(chars), next)) => r is Ok && r->Ok_0@ == chars && final(self).pos == next,
                Ok((None, _)) => r == Err::<String, MsgParserError>(MsgParserError::NullString)
                    && final(self).pos == old(self).pos,
                Err(e) => r == Err::<String, MsgParserError>(e) && final(self).pos
                    == old(self).pos,
            },
    {
        let start = self.pos;
        match self.optstr() {
            Ok(Some(s)) => Ok(s),
            Ok(None) => {
                self.pos = start;
                Err(MsgParserError::NullString)
            },
            Err(e) => Err(e),
        }
    }

    /// Reads one argument of type `kind`.
    pub fn arg(&mut self, kind: ArgKind) -> (r: Result<Arg, MsgParserError>)
        requires
            old(self).wf(),
        ensures
            final(self).wf(),
            final(self).buf@ == old(self).buf@,
            final(self).fds@ == old(self).fds@,
            match spec_parse_arg(
                kind,
                old(self).buf@,
                old(self).pos as int,
                old(self).fds@,
                old(self).fd_pos as int,
            ) {
                Ok((v, p, f)) => r is Ok && r->Ok_0@ == v && final(self).pos == p
                    && final(self).fd_pos == f,
                Err(e) => r == Err::<Arg, MsgParserError>(e),
            },
    {
        match kind {
            ArgKind::Uint => match self.uint() {
                Ok(x) => Ok(Arg::Uint(x)),
                Err(e) => Err(e),
            },
            ArgKind::Int => match self.sint() {
                Ok(x) => Ok(Arg::Int(x)),
                Err(e) => Err(e),
            },
            ArgKind::Str => match self.str() {
                Ok(x) => Ok(Arg::Str(x)),
                Err(e) => Err(e),
            },
            ArgKind::OptStr => match self.optstr() {
                Ok(x) => Ok(Arg::OptStr(x)),
                Err(e) => Err(e),
            },
            ArgKind::Fd => match self.fd() {
                Ok(x) => Ok(Arg::Fd(x)),
                Err(e) => Err(e),
            },
        }
    }

    /// Reads arguments of the types `kinds`, in order.
    pub fn args(&mut self, kinds: &Vec<ArgKind>) -> (r: Result<Vec<Arg>, MsgParserError>)
        requires
            old(self).wf(),
        ensures
            final(self).wf(),
            final(self).buf@ == old(self).buf@,
            final(self).fds@ == old(self).fds@,
            match spec_parse_args(
                kinds@,
                old(self).buf@,
                old(self).pos as int,
                old(self).fds@,
                old(self).fd_pos as int,
            ) {
                Ok((vs, p, f)) => r is Ok && arg_views(r->Ok_0@) == vs && final(self).pos == p
                    && final(self).fd_pos == f,
                Err(e) => r == Err::<Vec<Arg>, MsgParserError>(e),
            },
    {
        let ghost whole = spec_parse_args(
            kinds@,
            self.buf@,
            self.pos as int,
            self.fds@,
            self.fd_pos as int,
        );
        let mut out: Vec<Arg> = Vec::new();
        let mut i: usize = 0;
        proof {
            assert(kinds@.subrange(0, kinds@.len() as int) =~= kinds@);
            lemma_prepend_empty(whole);
            assert(arg_views(out@) =~= Seq::empty());
        }
        while i < kinds.len()
            invariant
                self.wf(),
                self.buf@ == old(self).buf@,
                self.fds@ == old(self).fds@,
                i <= kinds@.len(),
                whole == spec_parse_args(
                    kinds@,
                    old(self).buf@,
                    old(self).pos as int,
                    old(self).fds@,
                    old(self).fd_pos as int,
                ),
                whole == prepend_args(
                    arg_views(out@),
                    spec_parse_args(
                        kinds@.subrange(i as int, kinds@.len() as int),
                        self.buf@,
                        self.pos as int,
                        self.fds@,
                        self.fd_pos as int,
                    ),
                ),
            decreases kinds@.len() - i,
        {
            let ghost k = kinds@.subrange(i as int, kinds@.len() as int);
            let ghost (b, fs) = (self.buf@, self.fds@);
            assert(k[0] == kinds@[i as int]);
            assert(k.drop_first() =~= kinds@.subrange(i + 1, kinds@.len() as int));
            match self.arg(kinds[i]) {
                Ok(a) => {
                    proof {
                        lemma_prepend_push(
                            arg_views(out@),
                            a@,
                            spec_parse_args(k.drop_first(), b, self.pos as int, fs, self.fd_pos as int),
                        );
                    }
                    let ghost before = out@;
                    let ghost av = a@;
                    out.push(a);
                    assert(arg_views(out@) =~= arg_views(before).push(av));
                },
                Err(e) => {
                    return Err(e);
                },
            }
            i = i + 1;
        }
        proof {
            assert(arg_views(out@) + Seq::<ArgValue>::empty() =~= arg_views(out@));
        }
        Ok(out)
    }

    /// Checks that every byte of the payload has been read.
    pub fn eof(&self) -> (r: Result<(), MsgParserError>)
        ensures
            r is Ok <==> self.pos == self.buf@.len(),
            r is Err ==> r == Err::<(), MsgParserError>(MsgParserError::TrailingData),
    {
        if self.pos == self.buf.len() {
            Ok(())
        } else {
            Err(MsgParserError::TrailingData)
        }
    }
}

/// `args_bytes` and `args_fds` grow by one argument at the end.
proof fn lemma_args_push(args: Seq<ArgValue>, a: ArgValue)
    ensures
        args_bytes(args.push(a)) == args_bytes(args) + arg_bytes(a),
        args_fds(args.push(a)) == args_fds(args) + arg_fds(a),
    decreases args.len(),
{
    if args.len() == 0 {
        let t = args.push(a);
        assert(t.drop_first() =~= Seq::<ArgValue>::empty());
        assert(t[0] == a);
        assert(args_bytes(t.drop_first()) == Seq::<u8>::empty());
        assert(args_fds(t.drop_first()) == Seq::<Rc<OwnedFd>>::empty());
        assert(args_bytes(t) =~= args_bytes(args) + arg_bytes(a));
        assert(args_fds(t) =~= args_fds(args) + arg_fds(a));
    } else {
        assert(args.push(a).drop_first() =~= args.drop_first().push(a));
        lemma_args_push(args.drop_first(), a);
        assert(args_bytes(args.push(a)) =~= args_bytes(args) + arg_bytes(a));
        assert(args_fds(args.push(a)) =~= args_fds(args) + arg_fds(a));
    }
}

/// The payload of any arguments is a whole number of words.
pub proof fn lemma_args_aligned(args: Seq<ArgValue>)
    ensures
        args_bytes(args).len() % 4 == 0,
    decreases args.len(),
{
    if args.len() > 0 {
        lemma_args_aligned(args.drop_first());
        match args[0] {
            ArgValue::Str(s) => {
                let n = encode_utf8(s).len() as int + 1;
                assert((n + (4 - n % 4) % 4) % 4 == 0);
            },
            _ => {},
        }
    }
}

/// Why the bytes at the front of a buffer do not frame a message.
#[derive(Clone, Copy, Debug, PartialEq, Eq, Structural)]
pub enum FrameError {
    /// The buffer does not yet hold the whole message.
    Incomplete,
    /// The declared size is below the header's or not a multiple of four.
    InvalidSize,
    /// The message does not fit in the 16-bit size field.
    TooLarge,
}

/// The header word that carries a message's size and opcode.
pub open spec fn size_opcode_word(size: u32, opcode: u32) -> u32 {
    (size << 16u32) | opcode
}

/// How the front of `b` frames a message: object id, opcode and size in
/// bytes, header included.
pub open spec fn spec_frame(b: Seq<u8>) -> Result<(u32, u32, int), FrameError> {
    if b.len() < 8 {
        Err(FrameError::Incomplete)
    } else {
        let w = word_at(b, 4);
        let size = (w >> 16u32) as int;
        if size < 8 || size % 4 != 0 {
            Err(FrameError::InvalidSize)
        } else if size > b.len() {
            Err(FrameError::Incomplete)
        } else {
            Ok((word_at(b, 0), w & 0xffffu32, size))
        }
    }
}

/// The bytes of a message: its header, then its payload.
pub open spec fn message_bytes(object_id: u32, opcode: u32, args: Seq<ArgValue>) -> Seq<u8> {
    let size = 8 + args_bytes(args).len();
    u32_bytes(object_id) + u32_bytes(size_opcode_word(size as u32, opcode)) + args_bytes(args)
}

/// A message written and framed reads back as the same object id, opcode
/// and size, whatever follows it in the buffer; its arguments, read from
/// its payload against the file descriptors sent with it, are the same
/// values.
pub proof fn lemma_message_round_trip(
    object_id: u32,
    opcode: u32,
    args: Seq<ArgValue>,
    rest: Seq<u8>,
    fd_rest: Seq<Rc<OwnedFd>>,
)
    requires
        opcode <= 0xffff,
        8 + args_bytes(args).len() <= 0xffff,
        forall|i: int| 0 <= i < args.len() ==> arg_fits(#[trigger] args[i]),
    ensures
        ({
            let msg = message_bytes(object_id, opcode, args);
            &&& spec_frame(msg + rest) == Ok::<(u32, u32, int), FrameError>(
                (object_id, opcode, msg.len() as int),
            )
            &&& spec_parse_args(arg_kinds(args), msg, 8, args_fds(args) + fd_rest, 0) == Ok::<
                (Seq<ArgValue>, int, int),
                MsgParserError,
            >((args, msg.len() as int, args_fds(args).len() as int))
        }),
{
    let size = (8 + args_bytes(args).len()) as u32;
    let w = size_opcode_word(size, opcode);
    let msg = message_bytes(object_id, opcode, args);
    let b = msg + rest;
    lemma_args_aligned(args);
    lemma_word_at_bytes(Seq::empty(), object_id, u32_bytes(w) + args_bytes(args) + rest);
    assert(b =~= Seq::<u8>::empty() + u32_bytes(object_id) + (u32_bytes(w) + args_bytes(args) + rest));
    lemma_word_at_bytes(u32_bytes(object_id), w, args_bytes(args) + rest);
    assert(b =~= u32_bytes(object_id) + u32_bytes(w) + (args_bytes(args) + rest));
    assert(w >> 16u32 == size && w & 0xffffu32 == opcode) by (bit_vector)
        requires
            w == (size << 16u32) | opcode,
            size <= 0xffff,
            opcode <= 0xffff,
    ;
    let header = u32_bytes(object_id) + u32_bytes(w);
    lemma_args_round_trip(header, args, Seq::empty(), Seq::empty(), fd_rest);
    assert(header + args_bytes(args) + Seq::<u8>::empty() =~= msg);
    assert(Seq::<Rc<OwnedFd>>::empty() + args_fds(args) + fd_rest =~= args_fds(args) + fd_rest);
}

/// Parses the header of the message at the front of `buf`.
pub fn parse_frame(buf: &Vec<u8>) -> (r: Result<(u32, u32, usize), FrameError>)
    ensures
        match spec_frame(buf@) {
            Ok((id, opcode, size)) => r == Ok::<(u32, u32, usize), FrameError>(
                (id, opcode, size as usize),
            ),
            Err(e) => r == Err::<(u32, u32, usize), FrameError>(e),
        },
{
    if buf.len() < 8 {
        return Err(FrameError::Incomplete);
    }
    let id = (buf[0] as u32) | ((buf[1] as u32) << 8u32) | ((buf[2] as u32) << 16u32) | ((
    buf[3] as u32) << 24u32);
    let w = (buf[4] as u32) | ((buf[5] as u32) << 8u32) | ((buf[6] as u32) << 16u32) | ((
    buf[7] as u32) << 24u32);
    let size = (w >> 16u32) as usize;
    if size < 8 || size % 4 != 0 {
        return Err(FrameError::InvalidSize);
    }
    if size > buf.len() {
        return Err(FrameError::Incomplete);
    }
    Ok((id, w & 0xffff, size))
}

/// Writes messages: payload bytes and the file descriptors sent beside them.
pub struct MsgFormatter {
    pub buf: Vec<u8>,
    pub fds: Vec<Rc<OwnedFd>>,
}

impl MsgFormatter {
    /// An empty formatter.
    pub fn new() -> (r: MsgFormatter)
        ensures
            r.buf@.len() == 0,
            r.fds@.len() == 0,
    {
        MsgFormatter { buf: Vec::new(), fds: Vec::new() }
    }

    /// Writes an unsigned 32-bit argument.
    pub fn uint(&mut self, x: u32)
        ensures
            final(self).buf@ == old(self).buf@ + u32_bytes(x),
            final(self).fds@ == old(self).fds@,
    {
        self.buf.push(x as u8);
        self.buf.push((x >> 8u32) as u8);
        self.buf.push((x >> 16u32) as u8);
        self.buf.push((x >> 24u32) as u8);
        assert(self.buf@ =~= old(self).buf@ + u32_bytes(x));
    }

    /// Writes a signed 32-bit argument.
    pub fn sint(&mut self, x: i32)
        ensures
            final(self).buf@ == old(self).buf@ + u32_bytes(x as u32),
            final(self).fds@ == old(self).fds@,
    {
        self.uint(x as u32);
    }

    /// Sends a file descriptor with the message.
    pub fn fd(&mut self, fd: Rc<OwnedFd>)
        ensures
            final(self).buf@ == old(self).buf@,
            final(self).fds@ == old(self).fds@.push(fd),
    {
        self.fds.push(fd);
    }

    /// Writes a string argument.
    pub fn string(&mut self, s: &String)
        requires
            encode_utf8(s@).len() + 4 <= 0xffff_ffff,
        ensures
            final(self).buf@ == old(self).buf@ + spec_str_bytes(s@),
            final(self).fds@ == old(self).fds@,
    {
        let bytes = s.as_str().as_bytes();
        assert(bytes@ == encode_utf8(s@));
        let len = bytes.len() + 1;
        self.uint(len as u32);
        let ghost head = self.buf@;
        let mut i: usize = 0;
        while i < bytes.len()
            invariant
                i <= bytes@.len(),
                self.buf@ == head + bytes@.subrange(0, i as int),
                self.fds@ == old(self).fds@,
            decreases bytes@.len() - i,
        {
            self.buf.push(bytes[i]);
            i = i + 1;
            assert(self.buf@ =~= head + bytes@.subrange(0, i as int));
        }
        let zeros = 1 + (4 - len % 4) % 4;
        let mut j: usize = 0;
        while j < zeros
            invariant
                j <= zeros,
                self.buf@ == head + bytes@ + Seq::new(j as nat, |k: int| 0u8),
                self.fds@ == old(self).fds@,
            decreases zeros - j,
        {
            self.buf.push(0u8);
            j = j + 1;
            assert(self.buf@ =~= head + bytes@ + Seq::new(j as nat, |k: int| 0u8));
        }
        assert(bytes@.subrange(0, bytes@.len() as int) =~= bytes@);
        assert(self.buf@ =~= old(self).buf@ + spec_str_bytes(s@));
    }

    /// Writes one argument.
    pub fn arg(&mut self, a: &Arg)
        requires
            arg_fits(a@),
        ensures
            final(self).buf@ == old(self).buf@ + arg_bytes(a@),
            final(self).fds@ == old(self).fds@ + arg_fds(a@),
    {
        match a {
            Arg::Uint(x) => self.uint(*x),
            Arg::Int(x) => self.sint(*x),
            Arg::Str(s) => self.string(s),
            Arg::OptStr(Some(s)) => self.string(s),
            Arg::OptStr(None) => self.uint(0),
            Arg::Fd(f) => self.fd(share_fd(f)),
        }
        assert(self.buf@ =~= old(self).buf@ + arg_bytes(a@));
        assert(self.fds@ =~= old(self).fds@ + arg_fds(a@));
    }

    /// Writes arguments in order.
    pub fn args(&mut self, args: &Vec<Arg>)
        requires
            forall|i: int| 0 <= i < args@.len() ==> arg_fits(#[trigger] args@[i]@),
        ensures
            final(self).buf@ == old(self).buf@ + args_bytes(arg_views(args@)),
            final(self).fds@ == old(self).fds@ + args_fds(arg_views(args@)),
    {
        let mut i: usize = 0;
        while i < args.len()
            invariant
                i <= args@.len(),
                forall|k: int| 0 <= k < args@.len() ==> arg_fits(#[trigger] args@[k]@),
                self.buf@ == old(self).buf@ + args_bytes(arg_views(args@.subrange(0, i as int))),
                self.fds@ == old(self).fds@ + args_fds(arg_views(args@.subrange(0, i as int))),
            decreases args@.len() - i,
        {
            self.arg(&args[i]);
            proof {
                let done = arg_views(args@.subrange(0, i as int));
                assert(arg_views(args@.subrange(0, i + 1)) =~= done.push(args@[i as int]@));
                lemma_args_push(done, args@[i as int]@);
            }
            i = i + 1;
        }
        proof {
            assert(args@.subrange(0, args@.len() as int) =~= args@);
            assert(arg_views(Seq::<Arg>::empty()) =~= Seq::empty());
        }
    }
}

/// Writes a message to `object_id` with `opcode` and `args`: the bytes and
/// the file descriptors to send. Fails where the message would not fit in
/// the header's size field.
pub fn format_message(object_id: u32, opcode: u16, args: &Vec<Arg>) -> (r: Result<
    MsgFormatter,
    FrameError,
>)
    requires
        forall|i: int| 0 <= i < args@.len() ==> arg_fits(#[trigger] args@[i]@),
    ensures
        r is Ok <==> 8 + args_bytes(arg_views(args@)).len() <= 0xffff,
        r is Err ==> r == Err::<MsgFormatter, FrameError>(FrameError::TooLarge),
        r is Ok ==> r->Ok_0.buf@ == message_bytes(object_id, opcode as u32, arg_views(args@))
            && r->Ok_0.fds@ == args_fds(arg_views(args@)),
{
    let mut payload = MsgFormatter::new();
    payload.args(args);
    if payload.buf.len() > 0xffff - 8 {
        return Err(FrameError::TooLarge);
    }
    let size = (payload.buf.len() + 8) as u32;
    let mut f = MsgFormatter::new();
    f.uint(object_id);
    f.uint((size << 16u32) | opcode as u32);
    let mut i: usize = 0;
    let ghost head = f.buf@;
    while i < payload.buf.len()
        invariant
            i <= payload.buf@.len(),
            f.buf@ == head + payload.buf@.subrange(0, i as int),
            f.fds@.len() == 0,
        decreases payload.buf@.len() - i,
    {
        f.buf.push(payload.buf[i]);
        i = i + 1;
        assert(f.buf@ =~= head + payload.buf@.subrange(0, i as int));
    }
    f.fds = payload.fds;
    proof {
        assert(payload.buf@.subrange(0, payload.buf@.len() as int) =~= payload.buf@);
        assert(Seq::<u8>::empty() + args_bytes(arg_views(args@)) =~= args_bytes(arg_views(args@)));
        assert(Seq::<Rc<OwnedFd>>::empty() + args_fds(arg_views(args@)) =~= args_fds(arg_views(args@)));
        assert(f.buf@ =~= message_bytes(object_id, opcode as u32, arg_views(args@)));
    }
    Ok(f)
}

/// Relies on `Rc::clone`: the new pointer shares the same file descriptor.
#[verifier::external_body]
pub(crate) fn share_fd(fd: &Rc<OwnedFd>) -> (r: Rc<OwnedFd>)
    ensures
        r == *fd,
{
    fd.clone()
}

/// Relies on `String::from_utf8`: it succeeds exactly on valid UTF-8 and the
/// string then holds the characters those bytes encode.
#[verifier::external_body]
fn string_from_utf8(bytes: Vec<u8>) -> (r: Option<String>)
    ensures
        r is Some <==> valid_utf8(bytes@),
        r is Some ==> r->Some_0@ == decode_utf8(bytes@),
{
    String::from_utf8(bytes).ok()
}

} // verus!
