use zetax::errors::RpcError;
use zetax::protocol::{
    encode_request, frame_chunk, frame_end, frame_err, frame_ok, frame_unknown, parse_request,
    stream_end, stream_item_frame, unary_reply,
};

#[test]
fn request_is_name_newline_payload() {
    assert_eq!(encode_request("echo", b"hello world"), b"echo\nhello world".to_vec());
    assert_eq!(encode_request("ping", &[]), b"ping\n".to_vec());
}

#[test]
fn request_round_trip() {
    let req = encode_request("hello", b"from-binary");
    let parsed = parse_request(&req);
    assert_eq!(parsed.name, "hello");
    assert_eq!(parsed.payload, b"from-binary".to_vec());
}

#[test]
fn request_round_trip_non_ascii_name_and_newlines_in_payload() {
    let req = encode_request("grüße", b"a\nb\n");
    let parsed = parse_request(&req);
    assert_eq!(parsed.name, "grüße");
    assert_eq!(parsed.payload, b"a\nb\n".to_vec());
}

#[test]
fn request_without_newline_is_all_name() {
    let parsed = parse_request(b"ping");
    assert_eq!(parsed.name, "ping");
    assert!(parsed.payload.is_empty());
}

#[test]
fn empty_request() {
    let parsed = parse_request(b"");
    assert_eq!(parsed.name, "");
    assert!(parsed.payload.is_empty());
}

#[test]
fn request_name_that_is_not_utf8_reads_as_empty() {
    let parsed = parse_request(&[0xff, 0xfe, b'\n', 1, 2]);
    assert_eq!(parsed.name, "");
    assert_eq!(parsed.payload, vec![1, 2]);
}

#[test]
fn reply_frames() {
    assert_eq!(frame_ok(b"hello"), b"OK\nhello".to_vec());
    assert_eq!(frame_err("boom"), b"ERR\nboom".to_vec());
    assert_eq!(frame_chunk(b"part"), b"CHUNK\npart".to_vec());
    assert_eq!(frame_end(), b"END\n".to_vec());
    assert_eq!(frame_unknown("nope"), b"ERR\nunknown rpc: nope".to_vec());
    assert_eq!(frame_unknown(""), b"ERR\nunknown rpc: ".to_vec());
}

#[test]
fn unary_replies_finish_the_stream() {
    let parsed = parse_request(b"echo\na\nb");
    let ok = unary_reply(Ok(&parsed.payload));
    assert_eq!(ok.bytes, b"OK\na\nb".to_vec());
    assert!(ok.fin);
    let text = RpcError::Application("boom".to_string()).to_string();
    let err = unary_reply(Err(&text));
    assert_eq!(err.bytes, b"ERR\nApplication error: boom".to_vec());
    assert!(err.fin);
}

#[test]
fn streaming_reply_frames() {
    let a = stream_item_frame(Ok(b"1"));
    assert_eq!(a.bytes, b"CHUNK\n1".to_vec());
    assert!(!a.fin);
    let e = stream_item_frame(Err("bad"));
    assert_eq!(e.bytes, b"ERR\nbad".to_vec());
    assert!(!e.fin);
    let end = stream_end();
    assert_eq!(end.bytes, b"END\n".to_vec());
    assert!(end.fin);
}
