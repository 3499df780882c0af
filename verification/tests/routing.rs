use zetax::handlers::{
    register_rpc, register_stream, same_name, snapshot_rpcs, snapshot_streams, Rpc, RpcContext,
    RpcRegistry, RpcServer, RpcStream,
};
use zetax::server::{Dispatch, ServerHandler};

struct Named {
    name: &'static str,
    tag: u8,
}

impl Rpc for Named {
    type Fut = (u8, Vec<u8>);

    fn name(&self) -> &'static str {
        self.name
    }

    fn call(&self, _ctx: RpcContext, input: Vec<u8>) -> (u8, Vec<u8>) {
        (self.tag, input)
    }
}

impl RpcStream for Named {
    type Fut = (u8, Vec<u8>);

    fn name(&self) -> &'static str {
        self.name
    }

    fn call_stream(&self, _ctx: RpcContext, input: Vec<u8>) -> (u8, Vec<u8>) {
        (self.tag + 100, input)
    }
}

static ECHO: Named = Named { name: "echo", tag: 1 };
static ECHO2: Named = Named { name: "echo", tag: 2 };
static HELLO: Named = Named { name: "hello", tag: 3 };
static TICKS: Named = Named { name: "ticks", tag: 4 };

#[test]
fn names_compare_by_text() {
    assert!(same_name("echo", "echo"));
    assert!(!same_name("echo", "ech"));
    assert!(!same_name("echo", "echO"));
    assert!(same_name("", ""));
}

#[test]
fn signed_handler_is_found_by_name() {
    let mut server: RpcServer<Named, Named> = RpcServer::new();
    server.sign(&ECHO).sign(&HELLO);
    assert_eq!(server.find("echo").map(|h| h.tag), Some(1));
    assert_eq!(server.find("hello").map(|h| h.tag), Some(3));
    assert!(server.find("nope").is_none());
    assert!(server.find_stream("echo").is_none());
    assert_eq!(server.handle("echo", RpcContext::default(), vec![7]), Some((1, vec![7])));
    assert_eq!(server.handle("nope", RpcContext::default(), vec![7]), None);
}

#[test]
fn later_signing_replaces_a_name() {
    let mut server: RpcServer<Named, Named> = RpcServer::new();
    server.sign(&ECHO);
    server.sign(&HELLO);
    server.sign(&ECHO2);
    assert_eq!(server.find("echo").map(|h| h.tag), Some(2));
    assert_eq!(server.find("hello").map(|h| h.tag), Some(3));
}

#[test]
fn signing_under_a_given_name() {
    let mut server: RpcServer<Named, Named> = RpcServer::new();
    server.sign_named("alias", &HELLO);
    server.sign_stream_named("alias", &TICKS);
    assert_eq!(server.find("alias").map(|h| h.tag), Some(3));
    assert!(server.find("hello").is_none());
    assert_eq!(server.find_stream("alias").map(|h| h.tag), Some(4));
}

#[test]
fn streams_have_their_own_table() {
    let mut server: RpcServer<Named, Named> = RpcServer::new();
    server.sign_stream(&TICKS);
    assert!(server.find("ticks").is_none());
    assert_eq!(server.find_stream("ticks").map(|h| h.tag), Some(4));
    assert_eq!(server.handle_stream("ticks", RpcContext::default(), vec![]), Some((104, vec![])));
}

#[test]
fn registering_the_same_handler_twice_keeps_one_entry() {
    let mut reg: RpcRegistry<Named> = RpcRegistry::new();
    register_rpc(&mut reg, 0x1000, &ECHO);
    register_rpc(&mut reg, 0x2000, &HELLO);
    register_rpc(&mut reg, 0x1000, &ECHO);
    let tags: Vec<u8> = snapshot_rpcs(&reg).iter().map(|h| h.tag).collect();
    assert_eq!(tags, vec![1, 3]);
    let names: Vec<&str> = snapshot_rpcs(&reg).iter().map(|h| Rpc::name(*h)).collect();
    assert_eq!(names, vec!["echo", "hello"]);
}

#[test]
fn distinct_handlers_with_one_name_are_both_registered() {
    let mut reg: RpcRegistry<Named> = RpcRegistry::new();
    register_stream(&mut reg, 0x1000, &ECHO);
    register_stream(&mut reg, 0x3000, &ECHO2);
    let tags: Vec<u8> = snapshot_streams(&reg).iter().map(|h| h.tag).collect();
    assert_eq!(tags, vec![1, 2]);
}

#[test]
fn registration_is_by_address() {
    let mut reg: RpcRegistry<Named> = RpcRegistry::new();
    register_rpc(&mut reg, 0x1000, &ECHO);
    register_rpc(&mut reg, 0x1000, &HELLO);
    let tags: Vec<u8> = snapshot_rpcs(&reg).iter().map(|h| h.tag).collect();
    assert_eq!(tags, vec![1]);
}

fn handler() -> ServerHandler<Named, Named> {
    ServerHandler::new(&vec![&ECHO, &HELLO, &ECHO2], &vec![&TICKS, &ECHO])
}

#[test]
fn unary_handler_wins_over_streaming_one() {
    match handler().dispatch(b"echo\npayload") {
        Dispatch::Unary(h, input) => {
            assert_eq!(h.tag, 2);
            assert_eq!(input, b"payload".to_vec());
        }
        _ => panic!("expected a unary dispatch"),
    }
}

#[test]
fn streaming_handler_is_dispatched() {
    match handler().dispatch(b"ticks\n5") {
        Dispatch::Stream(h, input) => {
            assert_eq!(h.tag, 4);
            assert_eq!(input, b"5".to_vec());
        }
        _ => panic!("expected a streaming dispatch"),
    }
}

#[test]
fn echo_request_keeps_newlines_of_the_payload() {
    match handler().dispatch(b"hello\na\nb") {
        Dispatch::Unary(h, input) => {
            assert_eq!(h.tag, 3);
            assert_eq!(input, b"a\nb".to_vec());
        }
        _ => panic!("expected a unary dispatch"),
    }
}

#[test]
fn unknown_method_is_answered_with_its_name() {
    match handler().dispatch(b"nope\nx") {
        Dispatch::Reply(frame) => {
            assert_eq!(frame.bytes, b"ERR\nunknown rpc: nope".to_vec());
            assert!(frame.fin);
        }
        _ => panic!("expected a reply"),
    }
}

#[test]
fn invalid_name_is_answered_as_empty_name() {
    match handler().dispatch(&[0xc3, 0x28, b'\n']) {
        Dispatch::Reply(frame) => assert_eq!(frame.bytes, b"ERR\nunknown rpc: ".to_vec()),
        _ => panic!("expected a reply"),
    }
}

#[test]
fn stream_data_waits_for_fin_and_uses_the_read_bytes() {
    let h = handler();
    let buf = b"hello\nworld-and-more";
    assert!(h.on_stream_data(buf, 11, false).is_none());
    match h.on_stream_data(buf, 11, true) {
        Some(Dispatch::Unary(h, input)) => {
            assert_eq!(h.tag, 3);
            assert_eq!(input, b"world".to_vec());
        }
        _ => panic!("expected a unary dispatch"),
    }
}
