use zetax::client::{
    rpc_deadline_millis, unary_progress, BidiStreamIds, CallProgress, QuicRpcClientBuilder,
    StreamCall, UnaryCall,
};
use zetax::net::{client_local_address, SocketAddress};
use zetax::protocol::encode_request;

fn server() -> SocketAddress {
    SocketAddress::V4 { ip: 0x7f00_0001, port: 4433 }
}

#[test]
fn client_builder_defaults() {
    let b = QuicRpcClientBuilder::new(server());
    assert_eq!(b.connect_to(), server());
    assert_eq!(b.idle_timeout_millis(), 5_000);
    assert!(!b.is_tls_insecure());
    assert_eq!(b.alpn_protocols(), &vec![b"rpc".to_vec()]);
}

#[test]
fn client_builder_setters() {
    let b = QuicRpcClientBuilder::new(server())
        .idle_timeout(1_000)
        .tls_insecure(true)
        .alpn(b"h3");
    assert_eq!(b.idle_timeout_millis(), 1_000);
    assert!(b.is_tls_insecure());
    assert_eq!(b.alpn_protocols(), &vec![b"h3".to_vec()]);
    let b = b.alpn_many(&[b"rpc".as_slice(), b"h3".as_slice()]);
    assert_eq!(b.alpn_protocols(), &vec![b"rpc".to_vec(), b"h3".to_vec()]);
    assert_eq!(b.connect_to(), server());
}

#[test]
fn stream_ids_go_up_by_four_from_zero() {
    let mut ids = BidiStreamIds::new();
    assert_eq!(ids.alloc_bidi_stream_id(), 0);
    assert_eq!(ids.alloc_bidi_stream_id(), 4);
    assert_eq!(ids.alloc_bidi_stream_id(), 8);
}

#[test]
fn unary_call_delivers_all_bytes_on_fin_once() {
    let req = encode_request("echo", b"hi");
    let mut call = UnaryCall::new(req.clone(), 4);
    assert!(call.is_own_stream(4));
    assert!(!call.is_own_stream(0));
    assert_eq!(call.take_request(), req);
    assert!(call.take_request().is_empty());
    assert_eq!(call.on_read(b"OK\n", false), None);
    assert_eq!(call.on_read(b"h", false), None);
    assert_eq!(call.on_read(b"i", true), Some(b"OK\nhi".to_vec()));
    assert_eq!(call.on_read(b"more", true), None);
}

#[test]
fn stream_call_forwards_until_fin() {
    let mut call = StreamCall::new(b"ticks\n".to_vec(), 8);
    assert!(call.is_own_stream(8));
    assert_eq!(call.take_request(), b"ticks\n".to_vec());
    assert!(!call.finished());
    let r = call.on_read(b"CHUNK\n1", false);
    assert_eq!(r.forward, Some(b"CHUNK\n1".to_vec()));
    assert!(r.keep_reading);
    let r = call.on_read(b"END\n", true);
    assert_eq!(r.forward, Some(b"END\n".to_vec()));
    assert!(!r.keep_reading);
    assert!(call.finished());
    let r = call.on_read(b"late", false);
    assert_eq!(r.forward, None);
    assert!(r.keep_reading);
}

#[test]
fn deadline_is_idle_timeout_plus_two_seconds() {
    assert_eq!(rpc_deadline_millis(5_000), 7_000);
    assert_eq!(rpc_deadline_millis(0), 2_000);
}

#[test]
fn progress_of_a_unary_call() {
    assert!(matches!(unary_progress(Some(vec![1]), 10, 5), CallProgress::Done(v) if v == vec![1]));
    assert!(matches!(unary_progress(None, 7_000, 7_000), CallProgress::TimedOut));
    assert!(matches!(unary_progress(None, 6_999, 7_000), CallProgress::Pending));
}

#[test]
fn client_sockets_bind_the_unspecified_address() {
    assert_eq!(client_local_address(true), SocketAddress::V4 { ip: 0, port: 0 });
    assert_eq!(
        client_local_address(false),
        SocketAddress::V6 { ip6: 0, port: 0, flowinfo: 0, scope_id: 0 }
    );
    assert!(server().is_ipv4());
    assert_eq!(server().port(), 4433);
}
