//! Wire format of one RPC exchange on a QUIC stream.
//!
//! A request is the method name in UTF-8, a newline byte, and the payload.
//! A unary reply is `OK\n` followed by the result or `ERR\n` followed by an
//! error text; a streaming reply is a run of `CHUNK\n`/`ERR\n` frames closed
//! by `END\n`.
use vstd::prelude::*;
use vstd::utf8::*;
use vstd::string::*;

verus! {

broadcast use vstd::utf8::group_utf8_lib;

/// The byte that ends the method name in a request.
pub const NEWLINE: u8 = 10;

/// True when `i` is the position of the first newline byte of `s`.
pub open spec fn is_first_newline(s: Seq<u8>, i: int) -> bool {
    &&& 0 <= i < s.len()
    &&& s[i] == NEWLINE
    &&& forall|j: int| 0 <= j < i ==> s[j] != NEWLINE
}

/// Position of the first newline byte of `s` (meaningful when `s` holds one).
pub open spec fn first_newline(s: Seq<u8>) -> int {
    choose|i: int| is_first_newline(s, i)
}

/// The bytes of a request before its first newline (all of it when there is none).
pub open spec fn request_name_bytes(req: Seq<u8>) -> Seq<u8> {
    if req.contains(NEWLINE) {
        req.take(first_newline(req))
    } else {
        req
    }
}

/// The bytes of a request after its first newline (none when there is no newline).
pub open spec fn request_payload(req: Seq<u8>) -> Seq<u8> {
    if req.contains(NEWLINE) {
        req.skip(first_newline(req) + 1)
    } else {
        Seq::empty()
    }
}

/// The method name that a request names: its name bytes read as UTF-8, or
/// the empty name when they are not valid UTF-8.
pub open spec fn request_name(req: Seq<u8>) -> Seq<char> {
    let bytes = request_name_bytes(req);
    if valid_utf8(bytes) {
        decode_utf8(bytes)
    } else {
        Seq::empty()
    }
}

/// The bytes a client sends to call method `name` with `payload`.
pub open spec fn request_frame(name: Seq<char>, payload: Seq<u8>) -> Seq<u8> {
    encode_utf8(name) + seq![NEWLINE] + payload
}

/// `OK\n`: the head of a successful unary reply.
pub open spec fn ok_tag() -> Seq<u8> {
    seq![79u8, 75u8, 10u8]
}

/// `ERR\n`: the head of an error reply.
pub open spec fn err_tag() -> Seq<u8> {
    seq![69u8, 82u8, 82u8, 10u8]
}

/// `CHUNK\n`: the head of one item of a streaming reply.
pub open spec fn chunk_tag() -> Seq<u8> {
    seq![67u8, 72u8, 85u8, 78u8, 75u8, 10u8]
}

/// `END\n`: the frame that closes a streaming reply.
pub open spec fn end_frame() -> Seq<u8> {
    seq![69u8, 78u8, 68u8, 10u8]
}

/// `unknown rpc: `: the text that precedes the name in the reply to an unknown method.
pub open spec fn unknown_rpc_text() -> Seq<u8> {
    seq![117u8, 110u8, 107u8, 110u8, 111u8, 119u8, 110u8, 32u8, 114u8, 112u8, 99u8, 58u8, 32u8]
}

/// The reply that carries a handler's result.
pub open spec fn ok_frame(body: Seq<u8>) -> Seq<u8> {
    ok_tag() + body
}

/// The reply or stream item that carries an error text.
pub open spec fn err_frame(msg: Seq<char>) -> Seq<u8> {
    err_tag() + encode_utf8(msg)
}

/// One item of a streaming reply.
pub open spec fn chunk_frame(body: Seq<u8>) -> Seq<u8> {
    chunk_tag() + body
}

/// The reply to a request whose method no handler serves.
pub open spec fn unknown_rpc_frame(name: Seq<char>) -> Seq<u8> {
    err_tag() + unknown_rpc_text() + encode_utf8(name)
}

/// A request as the server reads it: the method name and the payload.
pub struct RpcRequest {
    pub name: String,
    pub payload: Vec<u8>,
}

/// The first newline of a sequence that holds one is unique and is found by `first_newline`.
pub proof fn lemma_first_newline(s: Seq<u8>)
    requires
        s.contains(NEWLINE),
    ensures
        is_first_newline(s, first_newline(s)),
        forall|i: int| is_first_newline(s, i) ==> i == first_newline(s),
    decreases s.len(),
{
    if s[0] == NEWLINE {
        assert(is_first_newline(s, 0));
    } else {
        let t = s.drop_first();
        let k = choose|k: int| 0 <= k < s.len() && s[k] == NEWLINE;
        assert(t[k - 1] == NEWLINE);
        lemma_first_newline(t);
        let i = first_newline(t);
        assert(is_first_newline(s, i + 1)) by {
            assert forall|j: int| 0 <= j < i + 1 implies s[j] != NEWLINE by {
                if j > 0 {
                    assert(s[j] == t[j - 1]);
                }
            }
        }
    }
    assert forall|i: int, i2: int| is_first_newline(s, i) && is_first_newline(s, i2) implies i == i2 by {
        if i < i2 {
            assert(s[i] != NEWLINE);
        } else if i2 < i {
            assert(s[i2] != NEWLINE);
        }
    }
}

/// UTF-8 text of `bytes` when they are valid UTF-8.
///
/// Calls `std::str::from_utf8`, whose documentation promises `Ok` exactly when
/// the bytes are valid UTF-8, and then a string slice with those very bytes.
#[verifier::external_body]
fn str_from_utf8(bytes: &[u8]) -> (r: Option<&str>)
    ensures
        r is Some <==> valid_utf8(bytes@),
        r matches Some(s) ==> s.spec_bytes() == bytes@,
{
    std::str::from_utf8(bytes).ok()
}

/// Splits a request into its method name and payload, as the server reads it.
///
/// The name is everything before the first newline, read as UTF-8 (an
/// invalid name reads as the empty name); the payload is everything after it.
pub fn parse_request(req: &[u8]) -> (r: RpcRequest)
    ensures
        r.name@ == request_name(req@),
        r.payload@ == request_payload(req@),
{
    let mut i: usize = 0;
    while i < req.len() && req[i] != NEWLINE
        invariant
            i <= req@.len(),
            forall|j: int| 0 <= j < i ==> req@[j] != NEWLINE,
        decreases req@.len() - i,
    {
        i = i + 1;
    }
    let (name_bytes, rest) = req.split_at(i);
    let mut payload: Vec<u8> = Vec::new();
    if i < req.len() {
        proof {
            assert(req@.contains(NEWLINE)) by { assert(req@[i as int] == NEWLINE); }
            lemma_first_newline(req@);
            assert(is_first_newline(req@, i as int));
        }
        let mut k: usize = i + 1;
        while k < req.len()
            invariant
                i < k <= req@.len(),
                payload@ == req@.subrange(i + 1, k as int),
            decreases req@.len() - k,
        {
            payload.push(req[k]);
            k = k + 1;
        }
        assert(payload@ =~= req@.skip(i + 1));
        assert(name_bytes@ =~= req@.take(i as int));
    } else {
        assert(!req@.contains(NEWLINE));
        assert(name_bytes@ =~= req@);
        assert(payload@ =~= Seq::<u8>::empty());
    }
    let name = match str_from_utf8(name_bytes) {
        Some(s) => s.to_owned(),
        None => String::new(),
    };
    RpcRequest { name, payload }
}

/// The UTF-8 encoding of a character other than a newline holds no newline byte.
proof fn lemma_scalar_has_no_newline(c: char)
    requires
        c != '\n',
    ensures
        !encode_scalar(c as u32).contains(NEWLINE),
{
    let v = c as u32;
    assert(v != 10) by {
        char_u32_cast(c, v);
        char_u32_cast('\n', 10u32);
    }
    assert(forall|x: u8| #[trigger] (0xC0u8 | x) != 10u8) by (bit_vector);
    assert(forall|x: u8| #[trigger] (0xE0u8 | x) != 10u8) by (bit_vector);
    assert(forall|x: u8| #[trigger] (0xF0u8 | x) != 10u8) by (bit_vector);
    assert(forall|x: u8| #[trigger] (0x80u8 | x) != 10u8) by (bit_vector);
    if has_width_1_encoding(v) {
        assert(((v & 0x7F) as u8) != 10u8) by (bit_vector)
            requires
                v <= 0x7F,
                v != 10,
        ;
    }
    let e = encode_scalar(v);
    assert forall|i: int| 0 <= i < e.len() implies e[i] != NEWLINE by {}
}

/// The UTF-8 encoding of a text without a newline holds no newline byte.
pub proof fn lemma_encoding_has_no_newline(name: Seq<char>)
    requires
        !name.contains('\n'),
    ensures
        !encode_utf8(name).contains(NEWLINE),
    decreases name.len(),
{
    if name.len() > 0 {
        assert(name[0] != '\n');
        lemma_scalar_has_no_newline(name[0]);
        let rest = name.drop_first();
        assert(!rest.contains('\n')) by {
            assert forall|i: int| 0 <= i < rest.len() implies rest[i] != '\n' by {
                assert(rest[i] == name[i + 1]);
            }
        }
        lemma_encoding_has_no_newline(rest);
        let e = encode_utf8(name);
        let a = encode_scalar(name[0] as u32);
        let b = encode_utf8(rest);
        assert(e == a + b);
        assert forall|i: int| 0 <= i < e.len() implies e[i] != NEWLINE by {
            if i < a.len() {
                assert(e[i] == a[i]);
            } else {
                assert(e[i] == b[i - a.len()]);
            }
        }
    }
}

/// Round trip of the request format: for a method name without a newline,
/// the server reads back from a client's request exactly the name and the
/// payload that the client sent.
pub proof fn lemma_request_roundtrip(name: Seq<char>, payload: Seq<u8>)
    requires
        !name.contains('\n'),
    ensures
        request_name(request_frame(name, payload)) == name,
        request_payload(request_frame(name, payload)) == payload,
{
    let nb = encode_utf8(name);
    let req = request_frame(name, payload);
    lemma_encoding_has_no_newline(name);
    let k = nb.len() as int;
    assert(req[k] == NEWLINE);
    assert(req.contains(NEWLINE));
    assert(is_first_newline(req, k)) by {
        assert forall|j: int| 0 <= j < k implies req[j] != NEWLINE by {
            assert(req[j] == nb[j]);
        }
    }
    lemma_first_newline(req);
    assert(req.take(k) =~= nb);
    assert(req.skip(k + 1) =~= payload);
}

/// Appends `bytes` to `out`.
fn push_all(out: &mut Vec<u8>, bytes: &[u8])
    ensures
        final(out)@ == old(out)@ + bytes@,
{
    let ghost start = out@;
    let mut i: usize = 0;
    while i < bytes.len()
        invariant
            i <= bytes@.len(),
            out@ == start + bytes@.take(i as int),
        decreases bytes@.len() - i,
    {
        out.push(bytes[i]);
        i = i + 1;
        assert(bytes@.take(i as int) =~= bytes@.take(i - 1) + seq![bytes@[i - 1]]);
    }
    assert(bytes@.take(i as int) =~= bytes@);
}

/// The bytes a client writes on a fresh stream to call method `name` with `payload`.
pub fn encode_request(name: &str, payload: &[u8]) -> (r: Vec<u8>)
    ensures
        r@ == request_frame(name@, payload@),
{
    let mut out: Vec<u8> = Vec::new();
    push_all(&mut out, name.as_bytes());
    out.push(NEWLINE);
    push_all(&mut out, payload);
    out
}

/// A successful unary reply is the three bytes `O`, `K`, newline followed by
/// exactly the result, whatever the result is (the empty result too).
pub proof fn lemma_ok_frame_layout(body: Seq<u8>)
    ensures
        ok_frame(body).len() == body.len() + 3,
        ok_frame(body)[0] == 79u8,
        ok_frame(body)[1] == 75u8,
        ok_frame(body)[2] == 10u8,
        ok_frame(body).skip(3) == body,
{
    assert(ok_frame(body).skip(3) =~= body);
}

/// An error reply is the four bytes `E`, `R`, `R`, newline followed by
/// exactly the UTF-8 bytes of the error text.
pub proof fn lemma_err_frame_layout(msg: Seq<char>)
    ensures
        err_frame(msg).len() == encode_utf8(msg).len() + 4,
        err_frame(msg)[0] == 69u8,
        err_frame(msg)[1] == 82u8,
        err_frame(msg)[2] == 82u8,
        err_frame(msg)[3] == 10u8,
        err_frame(msg).skip(4) == encode_utf8(msg),
{
    assert(err_frame(msg).skip(4) =~= encode_utf8(msg));
}

/// A streamed item is the six bytes `CHUNK` and newline followed by exactly
/// the item's bytes, whatever bytes the item ends with.
pub proof fn lemma_chunk_frame_layout(body: Seq<u8>)
    ensures
        chunk_frame(body).len() == body.len() + 6,
        chunk_frame(body)[0] == 67u8,
        chunk_frame(body)[1] == 72u8,
        chunk_frame(body)[2] == 85u8,
        chunk_frame(body)[3] == 78u8,
        chunk_frame(body)[4] == 75u8,
        chunk_frame(body)[5] == 10u8,
        chunk_frame(body).skip(6) == body,
{
    assert(chunk_frame(body).skip(6) =~= body);
}

/// The reply to an unknown method is `ERR`, newline, `unknown rpc: ` (17
/// bytes in all) followed by exactly the UTF-8 bytes of the name.
pub proof fn lemma_unknown_rpc_frame_layout(name: Seq<char>)
    ensures
        unknown_rpc_frame(name).len() == encode_utf8(name).len() + 17,
        unknown_rpc_frame(name).take(17) == seq![
            69u8, 82u8, 82u8, 10u8, 117u8, 110u8, 107u8, 110u8, 111u8, 119u8, 110u8, 32u8,
            114u8, 112u8, 99u8, 58u8, 32u8,
        ],
        unknown_rpc_frame(name).skip(17) == encode_utf8(name),
{
    assert(unknown_rpc_frame(name).skip(17) =~= encode_utf8(name));
    assert(unknown_rpc_frame(name).take(17) =~= seq![
        69u8, 82u8, 82u8, 10u8, 117u8, 110u8, 107u8, 110u8, 111u8, 119u8, 110u8, 32u8,
        114u8, 112u8, 99u8, 58u8, 32u8,
    ]);
}

/// Two different results never get the same successful reply, and a
/// successful reply never looks like an error reply: a client can tell
/// them apart and read the result back.
pub proof fn lemma_replies_distinguishable(a: Seq<u8>, b: Seq<u8>, m: Seq<char>)
    ensures
        ok_frame(a) == ok_frame(b) ==> a == b,
        chunk_frame(a) == chunk_frame(b) ==> a == b,
        ok_frame(a) != err_frame(m),
        chunk_frame(a) != err_frame(m),
{
    lemma_ok_frame_layout(a);
    lemma_ok_frame_layout(b);
    lemma_chunk_frame_layout(a);
    lemma_chunk_frame_layout(b);
    lemma_err_frame_layout(m);
    assert(ok_frame(a)[0] != err_frame(m)[0]);
    assert(chunk_frame(a)[0] != err_frame(m)[0]);
}

/// The reply that carries a unary handler's result: `OK\n` then the result.
pub fn frame_ok(body: &[u8]) -> (r: Vec<u8>)
    ensures
        r@ == ok_frame(body@),
        r@.len() == body@.len() + 3,
        r@.take(3) == seq![79u8, 75u8, 10u8],
        r@.skip(3) == body@,
{
    proof { lemma_ok_frame_layout(body@); }
    assert(ok_frame(body@).take(3) =~= seq![79u8, 75u8, 10u8]);
    let mut out: Vec<u8> = vec![79u8, 75u8, 10u8];
    push_all(&mut out, body);
    out
}

/// The reply or stream item that reports an error: `ERR\n` then the text.
pub fn frame_err(msg: &str) -> (r: Vec<u8>)
    ensures
        r@ == err_frame(msg@),
        r@.len() == msg.spec_bytes().len() + 4,
        r@.take(4) == seq![69u8, 82u8, 82u8, 10u8],
        r@.skip(4) == msg.spec_bytes(),
{
    proof { lemma_err_frame_layout(msg@); }
    assert(err_frame(msg@).take(4) =~= seq![69u8, 82u8, 82u8, 10u8]);
    let mut out: Vec<u8> = vec![69u8, 82u8, 82u8, 10u8];
    push_all(&mut out, msg.as_bytes());
    out
}

/// One item of a streaming reply: `CHUNK\n` then the item.
pub fn frame_chunk(body: &[u8]) -> (r: Vec<u8>)
    ensures
        r@ == chunk_frame(body@),
        r@.len() == body@.len() + 6,
        r@.take(6) == seq![67u8, 72u8, 85u8, 78u8, 75u8, 10u8],
        r@.skip(6) == body@,
{
    proof { lemma_chunk_frame_layout(body@); }
    assert(chunk_frame(body@).take(6) =~= seq![67u8, 72u8, 85u8, 78u8, 75u8, 10u8]);
    let mut out: Vec<u8> = vec![67u8, 72u8, 85u8, 78u8, 75u8, 10u8];
    push_all(&mut out, body);
    out
}

/// The frame that closes a streaming reply: `END\n`.
pub fn frame_end() -> (r: Vec<u8>)
    ensures
        r@ == end_frame(),
        r@ == seq![69u8, 78u8, 68u8, 10u8],
{
    vec![69u8, 78u8, 68u8, 10u8]
}

/// The reply to a request for a method that nobody serves:
/// `ERR\nunknown rpc: ` then the name.
pub fn frame_unknown(name: &str) -> (r: Vec<u8>)
    ensures
        r@ == unknown_rpc_frame(name@),
        r@.len() == name.spec_bytes().len() + 17,
        r@.take(17) == seq![
            69u8, 82u8, 82u8, 10u8, 117u8, 110u8, 107u8, 110u8, 111u8, 119u8, 110u8, 32u8,
            114u8, 112u8, 99u8, 58u8, 32u8,
        ],
        r@.skip(17) == name.spec_bytes(),
{
    proof { lemma_unknown_rpc_frame_layout(name@); }
    let mut out: Vec<u8> = vec![
        69u8, 82u8, 82u8, 10u8, 117u8, 110u8, 107u8, 110u8, 111u8, 119u8, 110u8, 32u8, 114u8,
        112u8, 99u8, 58u8, 32u8,
    ];
    push_all(&mut out, name.as_bytes());
    assert(out@ =~= unknown_rpc_frame(name@));
    out
}

/// One frame the server writes on a request's stream, and whether it
/// finishes the stream.
pub struct ReplyFrame {
    pub bytes: Vec<u8>,
    pub fin: bool,
}

/// The reply to a unary call, from its handler's outcome: the result framed
/// `OK\n`, or the error's text framed `ERR\n`; either finishes the stream.
pub fn unary_reply(outcome: Result<&[u8], &str>) -> (r: ReplyFrame)
    ensures
        r.fin,
        outcome matches Ok(b) ==> r.bytes@ == ok_frame(b@),
        outcome matches Err(m) ==> r.bytes@ == err_frame(m@),
        outcome matches Ok(b) ==> r.bytes@.len() == b@.len() + 3 && r.bytes@.take(3) == seq![
            79u8,
            75u8,
            10u8,
        ] && r.bytes@.skip(3) == b@,
        outcome matches Err(m) ==> r.bytes@.take(4) == seq![69u8, 82u8, 82u8, 10u8]
            && r.bytes@.skip(4) == m.spec_bytes(),
{
    match outcome {
        Ok(b) => ReplyFrame { bytes: frame_ok(b), fin: true },
        Err(m) => ReplyFrame { bytes: frame_err(m), fin: true },
    }
}

/// The frame for one item of a streaming reply: a value framed `CHUNK\n`,
/// or an error's text framed `ERR\n`; the stream stays open.
pub fn stream_item_frame(item: Result<&[u8], &str>) -> (r: ReplyFrame)
    ensures
        !r.fin,
        item matches Ok(b) ==> r.bytes@ == chunk_frame(b@),
        item matches Err(m) ==> r.bytes@ == err_frame(m@),
        item matches Ok(b) ==> r.bytes@.len() == b@.len() + 6 && r.bytes@.take(6) == seq![
            67u8,
            72u8,
            85u8,
            78u8,
            75u8,
            10u8,
        ] && r.bytes@.skip(6) == b@,
        item matches Err(m) ==> r.bytes@.take(4) == seq![69u8, 82u8, 82u8, 10u8]
            && r.bytes@.skip(4) == m.spec_bytes(),
{
    match item {
        Ok(b) => ReplyFrame { bytes: frame_chunk(b), fin: false },
        Err(m) => ReplyFrame { bytes: frame_err(m), fin: false },
    }
}

/// The frame that closes a streaming reply, `END\n`, finishing the stream.
pub fn stream_end() -> (r: ReplyFrame)
    ensures
        r.fin,
        r.bytes@ == end_frame(),
        r.bytes@ == seq![69u8, 78u8, 68u8, 10u8],
{
    ReplyFrame { bytes: frame_end(), fin: true }
}

/// The frames of a streaming reply whose items are `items` (a value, or an
/// error's text): one frame per item, in order, then `END\n`; only the last
/// finishes the stream.
pub open spec fn stream_reply(items: Seq<Result<Seq<u8>, Seq<char>>>) -> Seq<(Seq<u8>, bool)> {
    items.map_values(|item: Result<Seq<u8>, Seq<char>>| match item {
        Ok(b) => (chunk_frame(b), false),
        Err(m) => (err_frame(m), false),
    }).push((end_frame(), true))
}

/// A streaming reply written item by item with `stream_item_frame`, then
/// closed with `stream_end`, is `stream_reply` of its items.
pub proof fn lemma_stream_reply(items: Seq<Result<Seq<u8>, Seq<char>>>, frames: Seq<(Seq<u8>, bool)>)
    requires
        frames.len() == items.len() + 1,
        forall|i: int| 0 <= i < items.len() ==> !(#[trigger] frames[i]).1 && (items[i] matches Ok(b) ==> frames[i].0 == chunk_frame(b)) && (items[i] matches Err(m) ==> frames[i].0 == err_frame(m)),
        frames.last() == (end_frame(), true),
    ensures
        frames == stream_reply(items),
{
    let expected = stream_reply(items);
    assert forall|i: int| 0 <= i < frames.len() implies frames[i] == expected[i] by {
        if i < items.len() {
            assert(frames[i] == (frames[i].0, frames[i].1));
        }
    }
    assert(frames =~= expected);
}

} // verus!
