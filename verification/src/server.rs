//! Server settings and the server's handling of one request stream.
use vstd::prelude::*;

use crate::handlers::{Rpc, RpcServer, RpcStream};
use crate::net::SocketAddress;
use crate::protocol::{
    frame_unknown, lemma_request_roundtrip, parse_request, request_frame, request_name,
    request_payload, unknown_rpc_frame, ReplyFrame,
};

verus! {

/// Size of the buffers that receive datagrams and stream data.
pub const MAX_BUF_SIZE: usize = 65_536;

/// Congestion control algorithm of a QUIC connection.
#[derive(Clone, Copy, Debug, PartialEq, Eq, Structural)]
pub enum CongestionControlAlgorithm {
    /// CUBIC window growth.
    Cubic,
    /// BBR, driven by a model of delivery rate and round-trip time.
    Bbr,
    /// BBR version 3.
    Bbr3,
    /// COPA, delay based.
    Copa,
    /// A static congestion window, for tests.
    Dummy,
}

/// Scheduler of packets over the paths of a multipath connection.
#[derive(Clone, Copy, Debug, PartialEq, Eq, Structural)]
pub enum MultipathAlgorithm {
    /// The path with the lowest smoothed round-trip time.
    MinRtt,
    /// Every packet on every path.
    Redundant,
    /// The paths in turn.
    RoundRobin,
}

/// Number of logical CPUs that the process may use.
///
/// Calls `num_cpus::get`, which documents that it always returns at least 1;
/// the count itself depends on the machine and is not stated.
#[verifier::external_body]
fn available_cpus() -> (n: usize)
    ensures
        n >= 1,
{
    num_cpus::get()
}

/// Settings of a server.
#[derive(Clone, Debug)]
pub struct ServerSettings {
    /// Path of the server's certificate file.
    pub cert_file: String,
    /// Path of the server's private key file.
    pub key_file: String,
    /// Address the server listens on.
    pub listen: SocketAddress,
    /// Number of worker threads, each with its own socket.
    pub workers: usize,
    /// Idle timeout of a connection, in milliseconds.
    pub idle_timeout: u64,
    /// Handshake timeout of a connection, in milliseconds.
    pub handshake_timeout: u64,
    /// Most connections served at once.
    pub max_concurrent_conns: u32,
    /// Largest flow-control window of a connection, in bytes.
    pub max_connection_window: u64,
    /// Largest flow-control window of a stream, in bytes.
    pub max_stream_window: u64,
    /// Initial flow-control limit of a connection, in bytes.
    pub initial_max_data: u64,
    /// Initial limit of a locally opened bidirectional stream, in bytes.
    pub initial_max_stream_data_bidi_local: u64,
    /// Initial limit of a peer-opened bidirectional stream, in bytes.
    pub initial_max_stream_data_bidi_remote: u64,
    /// Initial limit of a unidirectional stream, in bytes.
    pub initial_max_stream_data_uni: u64,
    /// Initial number of bidirectional streams a peer may open.
    pub initial_max_streams_bidi: u64,
    /// Initial number of unidirectional streams a peer may open.
    pub initial_max_streams_uni: u64,
    /// Congestion control algorithm.
    pub congestion_control: CongestionControlAlgorithm,
    /// Initial congestion window, in packets.
    pub initial_congestion_window: u64,
    /// Smallest congestion window, in packets.
    pub min_congestion_window: u64,
    /// Slow start threshold, in packets.
    pub slow_start_thresh: u64,
    /// Initial round-trip time estimate, in milliseconds.
    pub initial_rtt: u64,
    /// Whether packets are paced.
    pub enable_pacing: bool,
    /// Whether multipath transport is offered.
    pub enable_multipath: bool,
    /// Scheduler of packets over paths.
    pub multipath_algorithm: MultipathAlgorithm,
    /// Whether address validation by Retry packets is on.
    pub enable_retry: bool,
    /// Whether stateless reset is on.
    pub enable_stateless_reset: bool,
    /// Length of connection ids, in bytes.
    pub cid_len: usize,
    /// Anti-amplification factor for unvalidated addresses.
    pub anti_amplification_factor: usize,
    /// Most packets handed to the socket in one batch.
    pub send_batch_size: usize,
    /// Most 0-RTT packets buffered before the handshake.
    pub zerortt_buffer_size: usize,
    /// Most undecryptable packets buffered.
    pub max_undecryptable_packets: usize,
}

/// The settings a server gets when none is set, apart from the number of
/// workers, which is the number of CPUs of the machine.
pub open spec fn default_settings_except_workers(s: ServerSettings) -> bool {
    &&& s.cert_file@ == "./cert.crt"@
    &&& s.key_file@ == "./cert.key"@
    &&& s.listen == SocketAddress::V4 { ip: 0, port: 4433 }
    &&& s.idle_timeout == 30_000
    &&& s.handshake_timeout == 10_000
    &&& s.max_concurrent_conns == 100_000
    &&& s.max_connection_window == 16 * 1024 * 1024
    &&& s.max_stream_window == 8 * 1024 * 1024
    &&& s.initial_max_data == 10 * 1024 * 1024
    &&& s.initial_max_stream_data_bidi_local == 5 * 1024 * 1024
    &&& s.initial_max_stream_data_bidi_remote == 2 * 1024 * 1024
    &&& s.initial_max_stream_data_uni == 1 * 1024 * 1024
    &&& s.initial_max_streams_bidi == 200
    &&& s.initial_max_streams_uni == 100
    &&& s.congestion_control == CongestionControlAlgorithm::Bbr
    &&& s.initial_congestion_window == 10
    &&& s.min_congestion_window == 2
    &&& s.slow_start_thresh == u64::MAX
    &&& s.initial_rtt == 333
    &&& s.enable_pacing == true
    &&& s.enable_multipath == false
    &&& s.multipath_algorithm == MultipathAlgorithm::MinRtt
    &&& s.enable_retry == false
    &&& s.enable_stateless_reset == true
    &&& s.cid_len == 8
    &&& s.anti_amplification_factor == 3
    &&& s.send_batch_size == 64
    &&& s.zerortt_buffer_size == 1000
    &&& s.max_undecryptable_packets == 10
}

impl Default for ServerSettings {
    fn default() -> (s: Self)
        ensures
            default_settings_except_workers(s),
            s.workers >= 1,
    {
        ServerSettings::with_workers(available_cpus())
    }
}

impl ServerSettings {
    /// The default settings with `workers` worker threads.
    pub fn with_workers(workers: usize) -> (s: Self)
        ensures
            default_settings_except_workers(s),
            s.workers == workers,
    {
        ServerSettings {
            cert_file: String::from_str("./cert.crt"),
            key_file: String::from_str("./cert.key"),
            listen: SocketAddress::V4 { ip: 0, port: 4433 },
            workers,
            idle_timeout: 30_000,
            handshake_timeout: 10_000,
            max_concurrent_conns: 100_000,
            max_connection_window: 16 * 1024 * 1024,
            max_stream_window: 8 * 1024 * 1024,
            initial_max_data: 10 * 1024 * 1024,
            initial_max_stream_data_bidi_local: 5 * 1024 * 1024,
            initial_max_stream_data_bidi_remote: 2 * 1024 * 1024,
            initial_max_stream_data_uni: 1 * 1024 * 1024,
            initial_max_streams_bidi: 200,
            initial_max_streams_uni: 100,
            congestion_control: CongestionControlAlgorithm::Bbr,
            initial_congestion_window: 10,
            min_congestion_window: 2,
            slow_start_thresh: u64::MAX,
            initial_rtt: 333,
            enable_pacing: true,
            enable_multipath: false,
            multipath_algorithm: MultipathAlgorithm::MinRtt,
            enable_retry: false,
            enable_stateless_reset: true,
            cid_len: 8,
            anti_amplification_factor: 3,
            send_batch_size: 64,
            zerortt_buffer_size: 1000,
            max_undecryptable_packets: 10,
        }
    }

    /// A builder that starts from the default settings.
    pub fn builder() -> (b: ServerSettingsBuilder)
        ensures
            default_settings_except_workers(b@),
            b@.workers >= 1,
    {
        ServerSettingsBuilder::new()
    }
}

/// Builds server settings one setting at a time.
#[derive(Clone, Debug)]
pub struct ServerSettingsBuilder {
    inner: ServerSettings,
}

impl View for ServerSettingsBuilder {
    type V = ServerSettings;

    closed spec fn view(&self) -> ServerSettings {
        self.inner
    }
}

impl ServerSettingsBuilder {
    /// A builder that starts from the default settings.
    pub fn new() -> (b: Self)
        ensures
            default_settings_except_workers(b@),
            b@.workers >= 1,
    {
        ServerSettingsBuilder { inner: ServerSettings::default() }
    }

    /// Sets: path of the server's certificate file.
    pub fn cert_file(self, path: &str) -> (b: Self)
        ensures
            b@.cert_file@ == path@,
            b@ == (ServerSettings { cert_file: b@.cert_file, ..self@ }),
    {
        let mut inner = self.inner;
        inner.cert_file = String::from_str(path);
        ServerSettingsBuilder { inner }
    }

    /// Sets: path of the server's private key file.
    pub fn key_file(self, path: &str) -> (b: Self)
        ensures
            b@.key_file@ == path@,
            b@ == (ServerSettings { key_file: b@.key_file, ..self@ }),
    {
        let mut inner = self.inner;
        inner.key_file = String::from_str(path);
        ServerSettingsBuilder { inner }
    }

    /// Sets: address the server listens on.
    pub fn listen(self, addr: SocketAddress) -> (b: Self)
        ensures
            b@ == (ServerSettings { listen: addr, ..self@ }),
    {
        let mut inner = self.inner;
        inner.listen = addr;
        ServerSettingsBuilder { inner }
    }

    /// Sets: number of worker threads, each with its own socket.
    pub fn workers(self, workers: usize) -> (b: Self)
        ensures
            b@ == (ServerSettings { workers: workers, ..self@ }),
    {
        let mut inner = self.inner;
        inner.workers = workers;
        ServerSettingsBuilder { inner }
    }

    /// Sets: idle timeout of a connection, in milliseconds.
    pub fn idle_timeout(self, timeout: u64) -> (b: Self)
        ensures
            b@ == (ServerSettings { idle_timeout: timeout, ..self@ }),
    {
        let mut inner = self.inner;
        inner.idle_timeout = timeout;
        ServerSettingsBuilder { inner }
    }

    /// Sets: handshake timeout of a connection, in milliseconds.
    pub fn handshake_timeout(self, timeout: u64) -> (b: Self)
        ensures
            b@ == (ServerSettings { handshake_timeout: timeout, ..self@ }),
    {
        let mut inner = self.inner;
        inner.handshake_timeout = timeout;
        ServerSettingsBuilder { inner }
    }

    /// Sets: most connections served at once.
    pub fn max_concurrent_conns(self, val: u32) -> (b: Self)
        ensures
            b@ == (ServerSettings { max_concurrent_conns: val, ..self@ }),
    {
        let mut inner = self.inner;
        inner.max_concurrent_conns = val;
        ServerSettingsBuilder { inner }
    }

    /// Sets: largest flow-control window of a connection, in bytes.
    pub fn max_connection_window(self, val: u64) -> (b: Self)
        ensures
            b@ == (ServerSettings { max_connection_window: val, ..self@ }),
    {
        let mut inner = self.inner;
        inner.max_connection_window = val;
        ServerSettingsBuilder { inner }
    }

    /// Sets: largest flow-control window of a stream, in bytes.
    pub fn max_stream_window(self, val: u64) -> (b: Self)
        ensures
            b@ == (ServerSettings { max_stream_window: val, ..self@ }),
    {
        let mut inner = self.inner;
        inner.max_stream_window = val;
        ServerSettingsBuilder { inner }
    }

    /// Sets: initial flow-control limit of a connection, in bytes.
    pub fn initial_max_data(self, val: u64) -> (b: Self)
        ensures
            b@ == (ServerSettings { initial_max_data: val, ..self@ }),
    {
        let mut inner = self.inner;
        inner.initial_max_data = val;
        ServerSettingsBuilder { inner }
    }

    /// Sets: initial limit of a locally opened bidirectional stream, in bytes.
    pub fn initial_max_stream_data_bidi_local(self, val: u64) -> (b: Self)
        ensures
            b@ == (ServerSettings { initial_max_stream_data_bidi_local: val, ..self@ }),
    {
        let mut inner = self.inner;
        inner.initial_max_stream_data_bidi_local = val;
        ServerSettingsBuilder { inner }
    }

    /// Sets: initial limit of a peer-opened bidirectional stream, in bytes.
    pub fn initial_max_stream_data_bidi_remote(self, val: u64) -> (b: Self)
        ensures
            b@ == (ServerSettings { initial_max_stream_data_bidi_remote: val, ..self@ }),
    {
        let mut inner = self.inner;
        inner.initial_max_stream_data_bidi_remote = val;
        ServerSettingsBuilder { inner }
    }

    /// Sets: initial limit of a unidirectional stream, in bytes.
    pub fn initial_max_stream_data_uni(self, val: u64) -> (b: Self)
        ensures
            b@ == (ServerSettings { initial_max_stream_data_uni: val, ..self@ }),
    {
        let mut inner = self.inner;
        inner.initial_max_stream_data_uni = val;
        ServerSettingsBuilder { inner }
    }

    /// Sets: initial number of bidirectional streams a peer may open.
    pub fn initial_max_streams_bidi(self, val: u64) -> (b: Self)
        ensures
            b@ == (ServerSettings { initial_max_streams_bidi: val, ..self@ }),
    {
        let mut inner = self.inner;
        inner.initial_max_streams_bidi = val;
        ServerSettingsBuilder { inner }
    }

    /// Sets: initial number of unidirectional streams a peer may open.
    pub fn initial_max_streams_uni(self, val: u64) -> (b: Self)
        ensures
            b@ == (ServerSettings { initial_max_streams_uni: val, ..self@ }),
    {
        let mut inner = self.inner;
        inner.initial_max_streams_uni = val;
        ServerSettingsBuilder { inner }
    }

    /// Sets: congestion control algorithm.
    pub fn congestion_control(self, algo: CongestionControlAlgorithm) -> (b: Self)
        ensures
            b@ == (ServerSettings { congestion_control: algo, ..self@ }),
    {
        let mut inner = self.inner;
        inner.congestion_control = algo;
        ServerSettingsBuilder { inner }
    }

    /// Sets: initial congestion window, in packets.
    pub fn initial_congestion_window(self, val: u64) -> (b: Self)
        ensures
            b@ == (ServerSettings { initial_congestion_window: val, ..self@ }),
    {
        let mut inner = self.inner;
        inner.initial_congestion_window = val;
        ServerSettingsBuilder { inner }
    }

    /// Sets: smallest congestion window, in packets.
    pub fn min_congestion_window(self, val: u64) -> (b: Self)
        ensures
            b@ == (ServerSettings { min_congestion_window: val, ..self@ }),
    {
        let mut inner = self.inner;
        inner.min_congestion_window = val;
        ServerSettingsBuilder { inner }
    }

    /// Sets: slow start threshold, in packets.
    pub fn slow_start_thresh(self, val: u64) -> (b: Self)
        ensures
            b@ == (ServerSettings { slow_start_thresh: val, ..self@ }),
    {
        let mut inner = self.inner;
        inner.slow_start_thresh = val;
        ServerSettingsBuilder { inner }
    }

    /// Sets: initial round-trip time estimate, in milliseconds.
    pub fn initial_rtt(self, val: u64) -> (b: Self)
        ensures
            b@ == (ServerSettings { initial_rtt: val, ..self@ }),
    {
        let mut inner = self.inner;
        inner.initial_rtt = val;
        ServerSettingsBuilder { inner }
    }

    /// Sets: whether packets are paced.
    pub fn enable_pacing(self, enable: bool) -> (b: Self)
        ensures
            b@ == (ServerSettings { enable_pacing: enable, ..self@ }),
    {
        let mut inner = self.inner;
        inner.enable_pacing = enable;
        ServerSettingsBuilder { inner }
    }

    /// Sets: whether multipath transport is offered.
    pub fn enable_multipath(self, enable: bool) -> (b: Self)
        ensures
            b@ == (ServerSettings { enable_multipath: enable, ..self@ }),
    {
        let mut inner = self.inner;
        inner.enable_multipath = enable;
        ServerSettingsBuilder { inner }
    }

    /// Sets: scheduler of packets over paths.
    pub fn multipath_algorithm(self, algo: MultipathAlgorithm) -> (b: Self)
        ensures
            b@ == (ServerSettings { multipath_algorithm: algo, ..self@ }),
    {
        let mut inner = self.inner;
        inner.multipath_algorithm = algo;
        ServerSettingsBuilder { inner }
    }

    /// Sets: whether address validation by Retry packets is on.
    pub fn enable_retry(self, enable: bool) -> (b: Self)
        ensures
            b@ == (ServerSettings { enable_retry: enable, ..self@ }),
    {
        let mut inner = self.inner;
        inner.enable_retry = enable;
        ServerSettingsBuilder { inner }
    }

    /// Sets: whether stateless reset is on.
    pub fn enable_stateless_reset(self, enable: bool) -> (b: Self)
        ensures
            b@ == (ServerSettings { enable_stateless_reset: enable, ..self@ }),
    {
        let mut inner = self.inner;
        inner.enable_stateless_reset = enable;
        ServerSettingsBuilder { inner }
    }

    /// Sets: length of connection ids, in bytes.
    pub fn cid_len(self, len: usize) -> (b: Self)
        ensures
            b@ == (ServerSettings { cid_len: len, ..self@ }),
    {
        let mut inner = self.inner;
        inner.cid_len = len;
        ServerSettingsBuilder { inner }
    }

    /// Sets: anti-amplification factor for unvalidated addresses.
    pub fn anti_amplification_factor(self, val: usize) -> (b: Self)
        ensures
            b@ == (ServerSettings { anti_amplification_factor: val, ..self@ }),
    {
        let mut inner = self.inner;
        inner.anti_amplification_factor = val;
        ServerSettingsBuilder { inner }
    }

    /// Sets: most packets handed to the socket in one batch.
    pub fn send_batch_size(self, val: usize) -> (b: Self)
        ensures
            b@ == (ServerSettings { send_batch_size: val, ..self@ }),
    {
        let mut inner = self.inner;
        inner.send_batch_size = val;
        ServerSettingsBuilder { inner }
    }

    /// Sets: most 0-RTT packets buffered before the handshake.
    pub fn zerortt_buffer_size(self, val: usize) -> (b: Self)
        ensures
            b@ == (ServerSettings { zerortt_buffer_size: val, ..self@ }),
    {
        let mut inner = self.inner;
        inner.zerortt_buffer_size = val;
        ServerSettingsBuilder { inner }
    }

    /// Sets: most undecryptable packets buffered.
    pub fn max_undecryptable_packets(self, val: usize) -> (b: Self)
        ensures
            b@ == (ServerSettings { max_undecryptable_packets: val, ..self@ }),
    {
        let mut inner = self.inner;
        inner.max_undecryptable_packets = val;
        ServerSettingsBuilder { inner }
    }

    /// The settings built so far.
    pub fn build(self) -> (s: ServerSettings)
        ensures
            s == self@,
    {
        self.inner
    }
}

/// The routes that signing the handlers `hs` in order produces, when the
/// `i`-th reports the name `names[i]`.
pub open spec fn signed_routes<H: ?Sized>(names: Seq<&'static str>, hs: Seq<&'static H>) -> Map<Seq<char>, &'static H>
    decreases hs.len(),
{
    if hs.len() == 0 {
        Map::empty()
    } else {
        signed_routes(names.drop_last(), hs.drop_last()).insert(names.last()@, hs.last())
    }
}

/// True when `names[i]` is a name that the unary handler `hs[i]` reports, for each `i`.
pub open spec fn reported_rpc_names<U: ?Sized + Rpc>(names: Seq<&'static str>, hs: Seq<&'static U>) -> bool {
    &&& names.len() == hs.len()
    &&& forall|i: int| 0 <= i < hs.len() ==> call_ensures(U::name, (hs[i],), #[trigger] names[i])
}

/// True when `names[i]` is a name that the streaming handler `hs[i]` reports, for each `i`.
pub open spec fn reported_stream_names<S: ?Sized + RpcStream>(names: Seq<&'static str>, hs: Seq<&'static S>) -> bool {
    &&& names.len() == hs.len()
    &&& forall|i: int| 0 <= i < hs.len() ==> call_ensures(S::name, (hs[i],), #[trigger] names[i])
}

/// Every handler that a server signs is reached by the name it reported,
/// unless a handler signed later reported the same name; and no other name
/// is routed.
pub proof fn lemma_signed_routes<H: ?Sized>(names: Seq<&'static str>, hs: Seq<&'static H>, i: int)
    requires
        names.len() == hs.len(),
        0 <= i < hs.len(),
        forall|j: int| i < j < hs.len() ==> names[j]@ != names[i]@,
    ensures
        signed_routes(names, hs).contains_key(names[i]@),
        signed_routes(names, hs)[names[i]@] == hs[i],
    decreases hs.len(),
{
    if i < hs.len() - 1 {
        let n2 = names.drop_last();
        let h2 = hs.drop_last();
        assert forall|j: int| i < j < h2.len() implies n2[j]@ != n2[i]@ by {
            assert(n2[j] == names[j]);
        }
        lemma_signed_routes(n2, h2, i);
        assert(names.last()@ != names[i]@);
    }
}

/// The names that signed handlers reach are exactly the names they reported.
pub proof fn lemma_signed_route_names<H: ?Sized>(names: Seq<&'static str>, hs: Seq<&'static H>, k: Seq<char>)
    requires
        names.len() == hs.len(),
    ensures
        signed_routes(names, hs).contains_key(k) <==> exists|i: int| 0 <= i < names.len() && #[trigger] names[i]@ == k,
    decreases hs.len(),
{
    if hs.len() > 0 {
        let n2 = names.drop_last();
        lemma_signed_route_names(n2, hs.drop_last(), k);
        if exists|j: int| 0 <= j < n2.len() && #[trigger] n2[j]@ == k {
            let j = choose|j: int| 0 <= j < n2.len() && #[trigger] n2[j]@ == k;
            assert(names[j]@ == k);
        }
        if (exists|i: int| 0 <= i < names.len() && #[trigger] names[i]@ == k) && names.last()@ != k {
            let j = choose|j: int| 0 <= j < names.len() && #[trigger] names[j]@ == k;
            assert(n2[j]@ == k);
        }
    }
}

/// What the server does with a complete request.
pub enum Dispatch<U: ?Sized + 'static, S: ?Sized + 'static> {
    /// Call this unary handler with this input, await its outcome and answer
    /// with `unary_reply` of it.
    Unary(&'static U, Vec<u8>),
    /// Call this streaming handler with this input, answer each item with
    /// `stream_item_frame` of it, then close with `stream_end`.
    Stream(&'static S, Vec<u8>),
    /// Answer at once with this frame.
    Reply(ReplyFrame),
}

/// True when `d` is what the routing table `routes` makes of the request
/// `req`: the unary handler of the request's method with the request's
/// payload if there is one, else the streaming handler of the method with
/// the payload if there is one, else the reply that names the method as
/// unknown.
pub open spec fn dispatched<U: ?Sized + Rpc + 'static, S: ?Sized + RpcStream + 'static>(
    routes: RpcServer<U, S>,
    req: Seq<u8>,
    d: Dispatch<U, S>,
) -> bool {
    let name = request_name(req);
    if routes.unary_map().contains_key(name) {
        d matches Dispatch::Unary(h, input) && h == routes.unary_map()[name] && input@
            == request_payload(req)
    } else if routes.stream_map().contains_key(name) {
        d matches Dispatch::Stream(h, input) && h == routes.stream_map()[name] && input@
            == request_payload(req)
    } else {
        d matches Dispatch::Reply(f) && f.bytes@ == unknown_rpc_frame(name) && f.fin
    }
}

/// The request handling of a server worker: the routing table built from the
/// registered handlers.
pub struct ServerHandler<U: ?Sized + Rpc + 'static, S: ?Sized + RpcStream + 'static> {
    rpc: RpcServer<U, S>,
}

impl<U: ?Sized + Rpc + 'static, S: ?Sized + RpcStream + 'static> ServerHandler<U, S> {
    /// The routing table.
    pub closed spec fn routes(self) -> RpcServer<U, S> {
        self.rpc
    }

    /// Signs every registered handler into a fresh routing table, in order,
    /// each under the name it reports; of two handlers with one name, the
    /// later wins.
    pub fn new(rpcs: &Vec<&'static U>, streams: &Vec<&'static S>) -> (h: Self)
        ensures
            exists|names: Seq<&'static str>|
                reported_rpc_names(names, rpcs@) && #[trigger] signed_routes(names, rpcs@)
                    == h.routes().unary_map(),
            exists|names: Seq<&'static str>|
                reported_stream_names(names, streams@) && #[trigger] signed_routes(names, streams@)
                    == h.routes().stream_map(),
    {
        let mut rpc: RpcServer<U, S> = RpcServer::new();
        let ghost mut unary_names: Seq<&'static str> = Seq::empty();
        let mut i: usize = 0;
        while i < rpcs.len()
            invariant
                i <= rpcs@.len(),
                reported_rpc_names(unary_names, rpcs@.take(i as int)),
                rpc.unary_map() == signed_routes(unary_names, rpcs@.take(i as int)),
                rpc.stream_map() == Map::<Seq<char>, &'static S>::empty(),
            decreases rpcs@.len() - i,
        {
            let name = rpcs[i].name();
            rpc.sign_named(name, rpcs[i]);
            proof {
                let prev = unary_names;
                unary_names = unary_names.push(name);
                assert(unary_names.drop_last() =~= prev);
                assert(rpcs@.take(i + 1).drop_last() =~= rpcs@.take(i as int));
                assert forall|k: int| 0 <= k < i + 1 implies call_ensures(
                    U::name,
                    (rpcs@.take(i + 1)[k],),
                    #[trigger] unary_names[k],
                ) by {
                    if k < i {
                        assert(rpcs@.take(i + 1)[k] == rpcs@.take(i as int)[k]);
                        assert(unary_names[k] == prev[k]);
                    }
                }
            }
            i = i + 1;
        }
        assert(rpcs@.take(i as int) =~= rpcs@);
        let ghost mut stream_names: Seq<&'static str> = Seq::empty();
        let mut j: usize = 0;
        while j < streams.len()
            invariant
                j <= streams@.len(),
                reported_rpc_names(unary_names, rpcs@),
                rpc.unary_map() == signed_routes(unary_names, rpcs@),
                reported_stream_names(stream_names, streams@.take(j as int)),
                rpc.stream_map() == signed_routes(stream_names, streams@.take(j as int)),
            decreases streams@.len() - j,
        {
            let name = streams[j].name();
            rpc.sign_stream_named(name, streams[j]);
            proof {
                let prev = stream_names;
                stream_names = stream_names.push(name);
                assert(stream_names.drop_last() =~= prev);
                assert(streams@.take(j + 1).drop_last() =~= streams@.take(j as int));
                assert forall|k: int| 0 <= k < j + 1 implies call_ensures(
                    S::name,
                    (streams@.take(j + 1)[k],),
                    #[trigger] stream_names[k],
                ) by {
                    if k < j {
                        assert(streams@.take(j + 1)[k] == streams@.take(j as int)[k]);
                        assert(stream_names[k] == prev[k]);
                    }
                }
            }
            j = j + 1;
        }
        assert(streams@.take(j as int) =~= streams@);
        let h = ServerHandler { rpc };
        assert(signed_routes(unary_names, rpcs@) == h.routes().unary_map());
        assert(signed_routes(stream_names, streams@) == h.routes().stream_map());
        h
    }

    /// Decides what to do with a complete request: a unary handler of its
    /// method comes first, then a streaming one; a method that neither
    /// serves is answered with an error naming it.
    pub fn dispatch(&self, req: &[u8]) -> (d: Dispatch<U, S>)
        ensures
            dispatched(self.routes(), req@, d),
    {
        let request = parse_request(req);
        let name = request.name.as_str();
        if let Some(h) = self.rpc.find(name) {
            return Dispatch::Unary(h, request.payload);
        }
        if let Some(h) = self.rpc.find_stream(name) {
            return Dispatch::Stream(h, request.payload);
        }
        Dispatch::Reply(ReplyFrame { bytes: frame_unknown(name), fin: true })
    }

    /// Handles what one read of a request stream gave: `n` bytes in `buf`,
    /// and whether the peer finished the stream. Until the stream is
    /// finished the server keeps reading; then it dispatches the bytes of
    /// the last read.
    pub fn on_stream_data(&self, buf: &[u8], n: usize, fin: bool) -> (r: Option<Dispatch<U, S>>)
        requires
            n <= buf@.len(),
        ensures
            r is None <==> !fin,
            r matches Some(d) ==> dispatched(self.routes(), buf@.take(n as int), d),
    {
        if !fin {
            return None;
        }
        let (req, _) = buf.split_at(n);
        Some(self.dispatch(req))
    }
}

/// A request that a client frames for a method (a name without a newline)
/// reaches the server as that method and that payload: it goes to the unary
/// handler of the method with the client's payload if there is one, else to
/// the streaming handler of the method with the payload, else it is
/// answered as unknown under the very name the client used.
pub proof fn lemma_framed_request_is_routed<U: ?Sized + Rpc + 'static, S: ?Sized + RpcStream + 'static>(
    routes: RpcServer<U, S>,
    name: Seq<char>,
    payload: Seq<u8>,
    d: Dispatch<U, S>,
)
    requires
        !name.contains('\n'),
        dispatched(routes, request_frame(name, payload), d),
    ensures
        routes.unary_map().contains_key(name) ==> (d matches Dispatch::Unary(h, input) && h
            == routes.unary_map()[name] && input@ == payload),
        !routes.unary_map().contains_key(name) && routes.stream_map().contains_key(name) ==> (
        d matches Dispatch::Stream(h, input) && h == routes.stream_map()[name] && input@
            == payload),
        !routes.unary_map().contains_key(name) && !routes.stream_map().contains_key(name) ==> (
        d matches Dispatch::Reply(f) && f.bytes@ == unknown_rpc_frame(name) && f.fin),
{
    lemma_request_roundtrip(name, payload);
}

/// The end-to-end routing law: when a worker's routes come from signing the
/// registered unary handlers `rpcs` under the names they report, a client's
/// request for the name that `rpcs[i]` reported (a name without a newline,
/// not reported again by a later handler) reaches `rpcs[i]`, with the
/// client's payload.
pub proof fn lemma_registered_handler_serves_its_name<U: ?Sized + Rpc + 'static, S: ?Sized + RpcStream + 'static>(
    routes: RpcServer<U, S>,
    names: Seq<&'static str>,
    rpcs: Seq<&'static U>,
    i: int,
    payload: Seq<u8>,
    d: Dispatch<U, S>,
)
    requires
        reported_rpc_names(names, rpcs),
        routes.unary_map() == signed_routes(names, rpcs),
        0 <= i < rpcs.len(),
        forall|j: int| i < j < rpcs.len() ==> names[j]@ != names[i]@,
        !names[i]@.contains('\n'),
        dispatched(routes, request_frame(names[i]@, payload), d),
    ensures
        call_ensures(U::name, (rpcs[i],), names[i]),
        d matches Dispatch::Unary(h, input) && h == rpcs[i] && input@ == payload,
{
    lemma_signed_routes(names, rpcs, i);
    lemma_framed_request_is_routed(routes, names[i]@, payload, d);
}

} // verus!
