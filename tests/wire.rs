use jay::client::{Client, ClientError, CLIENT_ID_MAX};
use jay::wire::{
    format_message, parse_frame, Arg, ArgKind, FrameError, MsgFormatter, MsgParser,
    MsgParserError,
};
use jay::wl_buffer::{Format, WlBuffer, WlBufferError, DESTROY};
use std::rc::Rc;

fn same(a: &Arg, b: &Arg) -> bool {
    match (a, b) {
        (Arg::Uint(x), Arg::Uint(y)) => x == y,
        (Arg::Int(x), Arg::Int(y)) => x == y,
        (Arg::Str(x), Arg::Str(y)) => x == y,
        (Arg::Fd(x), Arg::Fd(y)) => Rc::ptr_eq(x, y),
        _ => false,
    }
}

#[test]
fn message_round_trip() {
    let (r, w) = uapi::pipe().unwrap();
    let (r, w) = (Rc::new(r), Rc::new(w));
    let args = vec![
        Arg::Uint(0xdead_beef),
        Arg::Str("text/plain".to_string()),
        Arg::Fd(r.clone()),
        Arg::Int(-5),
        Arg::Str("\u{e9}t\u{e9}".to_string()),
        Arg::Fd(w.clone()),
    ];
    let kinds = vec![
        ArgKind::Uint,
        ArgKind::Str,
        ArgKind::Fd,
        ArgKind::Int,
        ArgKind::Str,
        ArgKind::Fd,
    ];
    let msg = format_message(0xff00_0001, 2, &args).unwrap();
    assert_eq!(msg.buf.len() % 4, 0);
    assert_eq!(msg.fds.len(), 2);
    assert!(Rc::ptr_eq(&msg.fds[0], &r));
    assert!(Rc::ptr_eq(&msg.fds[1], &w));
    let (id, opcode, size) = parse_frame(&msg.buf).unwrap();
    assert_eq!((id, opcode, size), (0xff00_0001, 2, msg.buf.len()));
    let mut p = MsgParser::new(msg.buf.clone(), msg.fds.clone());
    p.pos = 8;
    let back = p.args(&kinds).unwrap();
    assert_eq!(back.len(), args.len());
    for (a, b) in args.iter().zip(back.iter()) {
        assert!(same(a, b));
    }
    assert_eq!(p.eof(), Ok(()));
}

#[test]
fn message_header_layout() {
    let msg = format_message(1, 3, &vec![Arg::Uint(5)]).unwrap();
    assert_eq!(msg.buf, vec![1, 0, 0, 0, 3, 0, 12, 0, 5, 0, 0, 0]);
}

#[test]
fn string_encoding_layout() {
    let mut f = MsgFormatter::new();
    f.string(&"abc".to_string());
    assert_eq!(f.buf, vec![4, 0, 0, 0, b'a', b'b', b'c', 0]);
    let mut f = MsgFormatter::new();
    f.string(&"abcd".to_string());
    assert_eq!(f.buf, vec![5, 0, 0, 0, b'a', b'b', b'c', b'd', 0, 0, 0, 0]);
    let mut p = MsgParser::new(f.buf, vec![]);
    assert_eq!(p.str(), Ok("abcd".to_string()));
    assert_eq!(p.pos, 12);
}

#[test]
fn frame_errors() {
    assert_eq!(parse_frame(&vec![1, 0, 0]), Err(FrameError::Incomplete));
    assert_eq!(
        parse_frame(&vec![1, 0, 0, 0, 0, 0, 4, 0]),
        Err(FrameError::InvalidSize)
    );
    assert_eq!(
        parse_frame(&vec![1, 0, 0, 0, 0, 0, 10, 0, 0, 0]),
        Err(FrameError::InvalidSize)
    );
    assert_eq!(
        parse_frame(&vec![1, 0, 0, 0, 0, 0, 12, 0, 0, 0]),
        Err(FrameError::Incomplete)
    );
    let big = vec![Arg::Str("x".repeat(70000))];
    assert!(matches!(format_message(1, 0, &big), Err(FrameError::TooLarge)));
}

#[test]
fn parser_errors() {
    let mut p = MsgParser::new(vec![1, 2], vec![]);
    assert_eq!(p.uint(), Err(MsgParserError::UnexpectedEof));
    assert!(matches!(p.fd(), Err(MsgParserError::MissingFd)));
    let mut p = MsgParser::new(vec![8, 0, 0, 0, b'a', 0, 0, 0], vec![]);
    assert_eq!(p.str(), Err(MsgParserError::UnexpectedEof));
    assert_eq!(p.pos, 0);
    let mut p = MsgParser::new(vec![2, 0, 0, 0, b'a', b'b', 0, 0], vec![]);
    assert_eq!(p.str(), Err(MsgParserError::MissingNul));
    let mut p = MsgParser::new(vec![2, 0, 0, 0, 0xff, 0, 0, 0], vec![]);
    assert_eq!(p.str(), Err(MsgParserError::InvalidUtf8));
    let mut p = MsgParser::new(vec![0, 0, 0, 0], vec![]);
    assert_eq!(p.optstr(), Ok(None));
    let mut p = MsgParser::new(vec![0, 0, 0, 0], vec![]);
    assert_eq!(p.str(), Err(MsgParserError::NullString));
    let p = MsgParser::new(vec![0, 0, 0, 0], vec![]);
    assert_eq!(p.eof(), Err(MsgParserError::TrailingData));
}

#[test]
fn parser_reads_values() {
    let (r, _w) = uapi::pipe().unwrap();
    let raw = r.raw();
    let mut p = MsgParser::new(vec![0xff, 0xff, 0xff, 0xff, 1, 2, 3, 4], vec![Rc::new(r)]);
    assert_eq!(p.sint(), Ok(-1));
    assert_eq!(p.uint(), Ok(0x0403_0201));
    assert_eq!(p.fd().unwrap().raw(), raw);
    assert!(matches!(p.fd(), Err(MsgParserError::MissingFd)));
    assert_eq!(p.eof(), Ok(()));
}

#[test]
fn utf8_string_decodes() {
    let mut p = MsgParser::new(vec![3, 0, 0, 0, 0xc3, 0xa9, 0, 0], vec![]);
    assert_eq!(p.str(), Ok("\u{e9}".to_string()));
}

#[test]
fn server_ids_increase() {
    let mut c = Client::new(1);
    let a = c.alloc_server_id().unwrap();
    let b = c.alloc_server_id().unwrap();
    assert_eq!(a, 0xff00_0001);
    assert!(b > a);
    assert_eq!(c.remove_obj(a), Ok(()));
    let d = c.alloc_server_id().unwrap();
    assert!(d > b);
    assert!(c.contains(d));
    assert!(!c.contains(a));
}

#[test]
fn server_ids_run_out() {
    let mut c = Client::new(1);
    c.next_server_id = 0xffff_ffff;
    assert_eq!(c.alloc_server_id(), Ok(0xffff_ffff));
    assert_eq!(c.alloc_server_id(), Err(ClientError::ServerIdsExhausted));
}

#[test]
fn client_object_table_errors() {
    let mut c = Client::new(1);
    assert_eq!(c.add_client_obj(0), Err(ClientError::NotClientId(0)));
    assert_eq!(
        c.add_client_obj(CLIENT_ID_MAX + 1),
        Err(ClientError::NotClientId(CLIENT_ID_MAX + 1))
    );
    assert_eq!(c.add_client_obj(CLIENT_ID_MAX), Ok(()));
    assert_eq!(c.add_client_obj(5), Ok(()));
    assert_eq!(c.add_client_obj(5), Err(ClientError::IdInUse(5)));
    assert_eq!(c.remove_obj(6), Err(ClientError::UnknownId(6)));
}

const XRGB: Format = Format { id: 1, bpp: 4 };

#[test]
fn buffer_validation() {
    let b = WlBuffer::new(4, 1, 16, 10, 5, 40, XRGB, 216).unwrap();
    assert_eq!(b.id(), 4);
    assert_eq!(b.num_requests(), 1);
    assert!(matches!(
        WlBuffer::new(4, 1, 17, 10, 5, 40, XRGB, 216),
        Err(WlBufferError::OutOfBounds)
    ));
    assert!(matches!(
        WlBuffer::new(4, 1, 0, 10, 5, 39, XRGB, 216),
        Err(WlBufferError::StrideTooSmall)
    ));
    assert!(matches!(
        WlBuffer::new(4, 1, 0, -1, 5, 40, XRGB, 216),
        Err(WlBufferError::InvalidSize)
    ));
    assert!(matches!(
        WlBuffer::new(4, 1, usize::MAX, 1, 1, 4, XRGB, usize::MAX),
        Err(WlBufferError::OutOfBounds)
    ));
}

#[test]
fn buffer_destroy_and_release() {
    let mut c = Client::new(1);
    c.add_client_obj(4).unwrap();
    let mut b = WlBuffer::new(4, 1, 0, 1, 1, 4, XRGB, 4).unwrap();
    b.surfaces.push(9);
    assert_eq!(b.release().buffer_id, 4);
    let bad = MsgParser::new(vec![0, 0, 0, 0], vec![]);
    assert_eq!(
        b.handle_request_(&mut c, DESTROY, &bad),
        Err(WlBufferError::ParseFailed(MsgParserError::TrailingData))
    );
    assert_eq!(b.surfaces, vec![9]);
    assert_eq!(
        b.handle_request_(&mut c, 1, &bad),
        Err(WlBufferError::UnknownRequest(1))
    );
    let p = MsgParser::new(vec![], vec![]);
    assert_eq!(b.handle_request_(&mut c, DESTROY, &p), Ok(()));
    assert!(b.surfaces.is_empty());
    assert!(!c.contains(4));
    b.surfaces.push(3);
    b.break_loops();
    assert!(b.surfaces.is_empty());
}

#[test]
fn optional_string_round_trip() {
    let args = vec![Arg::OptStr(None), Arg::OptStr(Some("a".to_string()))];
    let msg = format_message(2, 0, &args).unwrap();
    let mut p = MsgParser::new(msg.buf, vec![]);
    p.pos = 8;
    let back = p.args(&vec![ArgKind::OptStr, ArgKind::OptStr]).unwrap();
    assert!(matches!(&back[0], Arg::OptStr(None)));
    assert!(matches!(&back[1], Arg::OptStr(Some(s)) if s == "a"));
}
