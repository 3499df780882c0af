//! The client side: its builder, the allocation of stream ids, and the state
//! machines that follow the reply of one call.
use vstd::prelude::*;

use crate::net::SocketAddress;

verus! {

/// What a client builder holds.
pub struct ClientBuilderView {
    pub connect_to: SocketAddress,
    pub idle_timeout: u64,
    pub tls_insecure: bool,
    pub alpn: Seq<Seq<u8>>,
}

/// Builds a client: the server's address, the idle timeout of a call, and
/// the TLS knobs.
pub struct QuicRpcClientBuilder {
    connect_to: SocketAddress,
    idle_timeout: u64,
    tls_insecure: bool,
    alpn: Vec<Vec<u8>>,
}

/// The views of a list of byte strings.
pub open spec fn byte_strings(v: Seq<Vec<u8>>) -> Seq<Seq<u8>> {
    v.map_values(|b: Vec<u8>| b@)
}

/// `rpc`: the application protocol a client offers unless told otherwise.
pub open spec fn default_alpn() -> Seq<u8> {
    seq![114u8, 112u8, 99u8]
}

impl View for QuicRpcClientBuilder {
    type V = ClientBuilderView;

    closed spec fn view(&self) -> ClientBuilderView {
        ClientBuilderView {
            connect_to: self.connect_to,
            idle_timeout: self.idle_timeout,
            tls_insecure: self.tls_insecure,
            alpn: byte_strings(self.alpn@),
        }
    }
}

/// Copies a byte string.
fn copy_bytes(b: &[u8]) -> (r: Vec<u8>)
    ensures
        r@ == b@,
{
    let mut r: Vec<u8> = Vec::new();
    let mut i: usize = 0;
    while i < b.len()
        invariant
            i <= b@.len(),
            r@ == b@.take(i as int),
        decreases b@.len() - i,
    {
        r.push(b[i]);
        i = i + 1;
        assert(b@.take(i as int) =~= b@.take(i - 1).push(b@[i - 1]));
    }
    assert(b@.take(i as int) =~= b@);
    r
}

impl QuicRpcClientBuilder {
    /// A builder for calls to `connect_to`: idle timeout 5000 ms, certificates
    /// checked, and `rpc` as the only application protocol.
    pub fn new(connect_to: SocketAddress) -> (b: Self)
        ensures
            b@ == (ClientBuilderView {
                connect_to,
                idle_timeout: 5_000,
                tls_insecure: false,
                alpn: seq![default_alpn()],
            }),
    {
        let alpn = vec![vec![114u8, 112u8, 99u8]];
        let b = QuicRpcClientBuilder { connect_to, idle_timeout: 5_000, tls_insecure: false, alpn };
        assert(b@.alpn =~= seq![default_alpn()]);
        b
    }

    /// Sets the idle timeout of a call, in milliseconds.
    pub fn idle_timeout(self, millis: u64) -> (b: Self)
        ensures
            b@ == (ClientBuilderView { idle_timeout: millis, ..self@ }),
    {
        QuicRpcClientBuilder { idle_timeout: millis, ..self }
    }

    /// Turns the check of the server's certificate and name off (or on).
    pub fn tls_insecure(self, insecure: bool) -> (b: Self)
        ensures
            b@ == (ClientBuilderView { tls_insecure: insecure, ..self@ }),
    {
        QuicRpcClientBuilder { tls_insecure: insecure, ..self }
    }

    /// Offers `proto` as the only application protocol.
    pub fn alpn(self, proto: &[u8]) -> (b: Self)
        ensures
            b@ == (ClientBuilderView { alpn: seq![proto@], ..self@ }),
    {
        let alpn = vec![copy_bytes(proto)];
        let b = QuicRpcClientBuilder { alpn, ..self };
        assert(b@.alpn =~= seq![proto@]);
        b
    }

    /// Offers the application protocols `protos`, in this order.
    pub fn alpn_many(self, protos: &[&[u8]]) -> (b: Self)
        ensures
            b@ == (ClientBuilderView { alpn: protos@.map_values(|p: &[u8]| p@), ..self@ }),
    {
        let mut alpn: Vec<Vec<u8>> = Vec::new();
        let mut i: usize = 0;
        while i < protos.len()
            invariant
                i <= protos@.len(),
                alpn@.len() == i,
                forall|j: int| 0 <= j < i ==> #[trigger] alpn@[j]@ == protos@[j]@,
            decreases protos@.len() - i,
        {
            alpn.push(copy_bytes(protos[i]));
            i = i + 1;
        }
        assert(byte_strings(alpn@) =~= protos@.map_values(|p: &[u8]| p@));
        QuicRpcClientBuilder { alpn, ..self }
    }

    /// The server's address.
    pub fn connect_to(&self) -> (a: SocketAddress)
        ensures
            a == self@.connect_to,
    {
        self.connect_to
    }

    /// The idle timeout of a call, in milliseconds.
    pub fn idle_timeout_millis(&self) -> (t: u64)
        ensures
            t == self@.idle_timeout,
    {
        self.idle_timeout
    }

    /// Whether the check of the server's certificate is off.
    pub fn is_tls_insecure(&self) -> (r: bool)
        ensures
            r == self@.tls_insecure,
    {
        self.tls_insecure
    }

    /// The application protocols offered, in order.
    pub fn alpn_protocols(&self) -> (r: &Vec<Vec<u8>>)
        ensures
            byte_strings(r@) == self@.alpn,
    {
        &self.alpn
    }
}

/// The id of the `k`-th client-initiated bidirectional stream of a client
/// (counting from 0): `4 * k`, held at `u64::MAX` once that would overflow.
pub open spec fn bidi_stream_id(k: nat) -> u64 {
    if 4 * k <= u64::MAX {
        (4 * k) as u64
    } else {
        u64::MAX
    }
}

/// Hands out the ids of client-initiated bidirectional streams: 0, 4, 8, ...
pub struct BidiStreamIds {
    next_stream_id: u64,
    issued: Ghost<nat>,
}

impl BidiStreamIds {
    #[verifier::type_invariant]
    spec fn wf(self) -> bool {
        self.next_stream_id == bidi_stream_id(self.issued@)
    }

    /// How many ids were handed out.
    pub closed spec fn issued(self) -> nat {
        self.issued@
    }

    /// An allocator that has handed out nothing; its first id is 0.
    pub fn new() -> (a: Self)
        ensures
            a.issued() == 0,
    {
        BidiStreamIds { next_stream_id: 0, issued: Ghost(0) }
    }

    /// The next stream id: the previous one plus 4, saturating at `u64::MAX`.
    pub fn alloc_bidi_stream_id(&mut self) -> (sid: u64)
        ensures
            sid == bidi_stream_id(old(self).issued()),
            final(self).issued() == old(self).issued() + 1,
    {
        proof { use_type_invariant(&*self); }
        let sid = self.next_stream_id;
        let next = self.next_stream_id.saturating_add(4);
        let ghost k = self.issued@;
        assert(next == bidi_stream_id(k + 1));
        *self = BidiStreamIds { next_stream_id: next, issued: Ghost(k + 1) };
        sid
    }
}

/// Distinct calls get distinct streams of the kind a client may open: as
/// long as no id reached the top of the range, the ids handed out are
/// pairwise distinct multiples of 4.
pub proof fn lemma_bidi_stream_ids_distinct(j: nat, k: nat)
    requires
        j < k,
        4 * k <= u64::MAX,
    ensures
        bidi_stream_id(j) != bidi_stream_id(k),
        bidi_stream_id(j) % 4 == 0,
        bidi_stream_id(k) % 4 == 0,
{
}

/// The received bytes and the delivery flag of a unary call after one more
/// read of `data` (`fin` when the server finished the stream), and what the
/// read delivers: on the first finished read, all the bytes received.
pub open spec fn unary_step(received: Seq<u8>, done: bool, data: Seq<u8>, fin: bool) -> (Seq<u8>, bool, Option<Seq<u8>>) {
    if fin && !done {
        (Seq::empty(), true, Some(received + data))
    } else {
        (received + data, done, None)
    }
}

/// The state of a unary call after the reads `reads`, from a fresh call, and
/// everything those reads delivered, in order.
pub open spec fn unary_run(reads: Seq<(Seq<u8>, bool)>) -> (Seq<u8>, bool, Seq<Seq<u8>>)
    decreases reads.len(),
{
    if reads.len() == 0 {
        (Seq::empty(), false, Seq::empty())
    } else {
        let (received, done, delivered) = unary_run(reads.drop_last());
        let (r, d, out) = unary_step(received, done, reads.last().0, reads.last().1);
        (r, d, match out {
            Some(x) => delivered.push(x),
            None => delivered,
        })
    }
}

/// All the bytes of `reads`, in order.
pub open spec fn joined(reads: Seq<(Seq<u8>, bool)>) -> Seq<u8>
    decreases reads.len(),
{
    if reads.len() == 0 {
        Seq::empty()
    } else {
        joined(reads.drop_last()) + reads.last().0
    }
}

/// A unary call delivers at most one reply; when only its last read
/// finishes the stream, the reply is every byte read, in order.
pub proof fn lemma_unary_reply(reads: Seq<(Seq<u8>, bool)>)
    ensures
        unary_run(reads).2.len() <= 1,
        unary_run(reads).2.len() == 1 <==> unary_run(reads).1,
        (forall|i: int| 0 <= i < reads.len() ==> !#[trigger] reads[i].1) ==> (
            unary_run(reads).0 == joined(reads) && !unary_run(reads).1),
        reads.len() > 0 && reads.last().1 && (forall|i: int|
            0 <= i < reads.len() - 1 ==> !#[trigger] reads[i].1) ==> unary_run(reads).2 == seq![
            joined(reads)],
    decreases reads.len(),
{
    if reads.len() > 0 {
        let t = reads.drop_last();
        lemma_unary_reply(t);
        assert forall|i: int| 0 <= i < t.len() implies #[trigger] t[i] == reads[i] by {}
    }
}

/// What a client follows of a unary call: the request to send, the stream it
/// goes on, the reply bytes received so far, and whether the reply was
/// delivered.
pub struct UnaryCall {
    req: Vec<u8>,
    stream_id: u64,
    acc: Vec<u8>,
    done: bool,
}

/// What a unary call holds.
pub struct UnaryCallView {
    pub request: Seq<u8>,
    pub stream_id: u64,
    pub received: Seq<u8>,
    pub done: bool,
}

impl View for UnaryCall {
    type V = UnaryCallView;

    closed spec fn view(&self) -> UnaryCallView {
        UnaryCallView {
            request: self.req@,
            stream_id: self.stream_id,
            received: self.acc@,
            done: self.done,
        }
    }
}

impl UnaryCall {
    /// A call that will send `req` on stream `stream_id`.
    pub fn new(req: Vec<u8>, stream_id: u64) -> (c: Self)
        ensures
            c@ == (UnaryCallView { request: req@, stream_id, received: Seq::empty(), done: false }),
    {
        UnaryCall { req, stream_id, acc: Vec::new(), done: false }
    }

    /// Hands out the request once the connection is up; later calls get nothing.
    pub fn take_request(&mut self) -> (r: Vec<u8>)
        ensures
            r@ == old(self)@.request,
            final(self)@ == (UnaryCallView { request: Seq::empty(), ..old(self)@ }),
    {
        let mut r: Vec<u8> = Vec::new();
        std::mem::swap(&mut r, &mut self.req);
        r
    }

    /// True when `stream_id` is the call's stream; the client reads no other.
    pub fn is_own_stream(&self, stream_id: u64) -> (r: bool)
        ensures
            r == (stream_id == self@.stream_id),
    {
        stream_id == self.stream_id
    }

    /// Takes in one read of the call's stream. On the first read that
    /// finishes the stream, returns the whole reply and forgets it.
    pub fn on_read(&mut self, data: &[u8], fin: bool) -> (r: Option<Vec<u8>>)
        ensures
            ({
                let (received, done, out) = unary_step(old(self)@.received, old(self)@.done, data@, fin);
                &&& final(self)@ == (UnaryCallView { received, done, ..old(self)@ })
                &&& r matches Some(v) ==> out == Some(v@)
                &&& r is None ==> out is None
            }),
    {
        let mut i: usize = 0;
        let ghost start = self.acc@;
        while i < data.len()
            invariant
                i <= data@.len(),
                self.acc@ == start + data@.take(i as int),
                self.req@ == old(self).req@,
                self.stream_id == old(self).stream_id,
                self.done == old(self).done,
                start == old(self).acc@,
            decreases data@.len() - i,
        {
            self.acc.push(data[i]);
            i = i + 1;
            assert(data@.take(i as int) =~= data@.take(i - 1).push(data@[i - 1]));
        }
        assert(data@.take(i as int) =~= data@);
        if fin && !self.done {
            let mut reply: Vec<u8> = Vec::new();
            std::mem::swap(&mut reply, &mut self.acc);
            self.done = true;
            Some(reply)
        } else {
            None
        }
    }
}

/// Whether a streaming call still forwards items, after one more read
/// (`fin` when the server finished the stream), and whether that read's
/// bytes are forwarded.
pub open spec fn stream_step(open: bool, fin: bool) -> (bool, bool) {
    (open && !fin, open)
}

/// What a client follows of a streaming call: the request, its stream, and
/// whether received bytes are still forwarded to the caller.
pub struct StreamCall {
    req: Vec<u8>,
    sid: u64,
    open: bool,
}

/// What a streaming call holds.
pub struct StreamCallView {
    pub request: Seq<u8>,
    pub stream_id: u64,
    pub open: bool,
}

impl View for StreamCall {
    type V = StreamCallView;

    closed spec fn view(&self) -> StreamCallView {
        StreamCallView { request: self.req@, stream_id: self.sid, open: self.open }
    }
}

/// What one read of a streaming call yields.
pub struct StreamRead {
    /// The bytes to hand to the caller, if any.
    pub forward: Option<Vec<u8>>,
    /// Whether to go on reading the stream in this round.
    pub keep_reading: bool,
}

impl StreamCall {
    /// A call that will send `req` on stream `sid` and forward what comes back.
    pub fn new(req: Vec<u8>, sid: u64) -> (c: Self)
        ensures
            c@ == (StreamCallView { request: req@, stream_id: sid, open: true }),
    {
        StreamCall { req, sid, open: true }
    }

    /// Hands out the request once the connection is up; later calls get nothing.
    pub fn take_request(&mut self) -> (r: Vec<u8>)
        ensures
            r@ == old(self)@.request,
            final(self)@ == (StreamCallView { request: Seq::empty(), ..old(self)@ }),
    {
        let mut r: Vec<u8> = Vec::new();
        std::mem::swap(&mut r, &mut self.req);
        r
    }

    /// True when `stream_id` is the call's stream; the client reads no other.
    pub fn is_own_stream(&self, stream_id: u64) -> (r: bool)
        ensures
            r == (stream_id == self@.stream_id),
    {
        stream_id == self.sid
    }

    /// True once the server finished the call's stream: nothing more is
    /// forwarded, and the caller's stream of replies ends.
    pub fn finished(&self) -> (r: bool)
        ensures
            r == !self@.open,
    {
        !self.open
    }

    /// Takes in one read of the call's stream: its bytes are forwarded while
    /// the call is open; a read that finishes the stream closes the call and
    /// ends the round of reading.
    pub fn on_read(&mut self, data: &[u8], fin: bool) -> (r: StreamRead)
        ensures
            final(self)@ == (StreamCallView { open: stream_step(old(self)@.open, fin).0, ..old(self)@ }),
            r.forward is Some <==> stream_step(old(self)@.open, fin).1,
            r.forward matches Some(v) ==> v@ == data@,
            r.keep_reading == !fin,
    {
        let forward = if self.open {
            Some(copy_bytes(data))
        } else {
            None
        };
        if fin {
            self.open = false;
        }
        StreamRead { forward, keep_reading: !fin }
    }
}

/// Whether a fresh streaming call is still open after reads whose `fin`
/// flags are `fins`, and which of those reads it forwarded.
pub open spec fn stream_run(fins: Seq<bool>) -> (bool, Seq<bool>)
    decreases fins.len(),
{
    if fins.len() == 0 {
        (true, Seq::empty())
    } else {
        let (open, forwarded) = stream_run(fins.drop_last());
        let (next, fwd) = stream_step(open, fins.last());
        (next, forwarded.push(fwd))
    }
}

/// A streaming call forwards a read exactly when no earlier read finished
/// the stream: nothing after the end of the stream reaches the caller.
pub proof fn lemma_stream_forwards_until_end(fins: Seq<bool>)
    ensures
        stream_run(fins).1.len() == fins.len(),
        forall|i: int| 0 <= i < fins.len() ==> (#[trigger] stream_run(fins).1[i] <==> forall|j: int|
            0 <= j < i ==> !fins[j]),
        stream_run(fins).0 <==> forall|j: int| 0 <= j < fins.len() ==> !fins[j],
    decreases fins.len(),
{
    if fins.len() > 0 {
        let t = fins.drop_last();
        lemma_stream_forwards_until_end(t);
        assert forall|j: int| 0 <= j < t.len() implies #[trigger] t[j] == fins[j] by {}
        assert forall|i: int| 0 <= i < fins.len() implies (#[trigger] stream_run(fins).1[i] <==> forall|j: int|
            0 <= j < i ==> !fins[j]) by {
            if i < t.len() {
                assert(stream_run(fins).1[i] == stream_run(t).1[i]);
                if stream_run(t).1[i] {
                    assert forall|j: int| 0 <= j < i implies !fins[j] by { assert(!t[j]); }
                } else {
                    let j = choose|j: int| 0 <= j < i && t[j];
                    assert(fins[j]);
                }
            } else {
                if stream_run(t).0 {
                    assert forall|j: int| 0 <= j < i implies !fins[j] by { assert(!t[j]); }
                } else {
                    let j = choose|j: int| 0 <= j < t.len() && t[j];
                    assert(fins[j]);
                }
            }
        }
        if stream_run(t).0 {
            assert forall|j: int| 0 <= j < t.len() implies !fins[j] by { assert(!t[j]); }
        } else {
            let j = choose|j: int| 0 <= j < t.len() && t[j];
            assert(fins[j]);
        }
    }
}

/// Milliseconds after the start of a unary call at which the client gives up:
/// the idle timeout plus two seconds.
pub fn rpc_deadline_millis(idle_timeout: u64) -> (d: u64)
    requires
        idle_timeout <= u64::MAX - 2_000,
    ensures
        d == idle_timeout + 2_000,
{
    idle_timeout + 2_000
}

/// Where a unary call stands after one round of network work.
pub enum CallProgress {
    /// The reply arrived.
    Done(Vec<u8>),
    /// The deadline passed without a reply.
    TimedOut,
    /// Keep going.
    Pending,
}

/// After a round of network work: a delivered reply ends the call; else, at
/// or past the deadline, the call fails; else it goes on.
pub fn unary_progress(delivered: Option<Vec<u8>>, elapsed_millis: u64, deadline_millis: u64) -> (p: CallProgress)
    ensures
        delivered matches Some(v) ==> (p matches CallProgress::Done(w) && w == v),
        delivered is None && elapsed_millis >= deadline_millis ==> p is TimedOut,
        delivered is None && elapsed_millis < deadline_millis ==> p is Pending,
{
    match delivered {
        Some(v) => CallProgress::Done(v),
        None => if elapsed_millis >= deadline_millis {
            CallProgress::TimedOut
        } else {
            CallProgress::Pending
        },
    }
}

} // verus!
