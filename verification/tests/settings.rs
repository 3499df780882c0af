use zetax::net::SocketAddress;
use zetax::server::{CongestionControlAlgorithm, MultipathAlgorithm, ServerSettings};

#[test]
fn default_settings() {
    let s = ServerSettings::builder().build();
    assert_eq!(s.cert_file, "./cert.crt");
    assert_eq!(s.key_file, "./cert.key");
    assert_eq!(s.listen, SocketAddress::V4 { ip: 0, port: 4433 });
    assert!(s.workers >= 1);
    assert_eq!(s.idle_timeout, 30_000);
    assert_eq!(s.handshake_timeout, 10_000);
    assert_eq!(s.max_concurrent_conns, 100_000);
    assert_eq!(s.max_connection_window, 16 * 1024 * 1024);
    assert_eq!(s.max_stream_window, 8 * 1024 * 1024);
    assert_eq!(s.initial_max_data, 10 * 1024 * 1024);
    assert_eq!(s.initial_max_stream_data_bidi_local, 5 * 1024 * 1024);
    assert_eq!(s.initial_max_stream_data_bidi_remote, 2 * 1024 * 1024);
    assert_eq!(s.initial_max_stream_data_uni, 1024 * 1024);
    assert_eq!(s.initial_max_streams_bidi, 200);
    assert_eq!(s.initial_max_streams_uni, 100);
    assert_eq!(s.congestion_control, CongestionControlAlgorithm::Bbr);
    assert_eq!(s.initial_congestion_window, 10);
    assert_eq!(s.min_congestion_window, 2);
    assert_eq!(s.slow_start_thresh, u64::MAX);
    assert_eq!(s.initial_rtt, 333);
    assert!(s.enable_pacing);
    assert!(!s.enable_multipath);
    assert_eq!(s.multipath_algorithm, MultipathAlgorithm::MinRtt);
    assert!(!s.enable_retry);
    assert!(s.enable_stateless_reset);
    assert_eq!(s.cid_len, 8);
    assert_eq!(s.anti_amplification_factor, 3);
    assert_eq!(s.send_batch_size, 64);
    assert_eq!(s.zerortt_buffer_size, 1000);
    assert_eq!(s.max_undecryptable_packets, 10);
}

#[test]
fn builder_sets_what_it_is_told() {
    let s = ServerSettings::builder()
        .workers(4)
        .listen(SocketAddress::V4 { ip: 0x7f00_0001, port: 9000 })
        .cert_file("cert.crt")
        .key_file("cert.key")
        .idle_timeout(1)
        .handshake_timeout(2)
        .max_concurrent_conns(3)
        .max_connection_window(4)
        .max_stream_window(5)
        .initial_max_data(6)
        .initial_max_stream_data_bidi_local(7)
        .initial_max_stream_data_bidi_remote(8)
        .initial_max_stream_data_uni(9)
        .initial_max_streams_bidi(10)
        .initial_max_streams_uni(11)
        .congestion_control(CongestionControlAlgorithm::Copa)
        .initial_congestion_window(12)
        .min_congestion_window(13)
        .slow_start_thresh(14)
        .initial_rtt(15)
        .enable_pacing(false)
        .enable_multipath(true)
        .multipath_algorithm(MultipathAlgorithm::RoundRobin)
        .enable_retry(true)
        .enable_stateless_reset(false)
        .cid_len(16)
        .anti_amplification_factor(17)
        .send_batch_size(18)
        .zerortt_buffer_size(19)
        .max_undecryptable_packets(20)
        .build();
    assert_eq!(s.workers, 4);
    assert_eq!(s.listen, SocketAddress::V4 { ip: 0x7f00_0001, port: 9000 });
    assert_eq!(s.cert_file, "cert.crt");
    assert_eq!(s.key_file, "cert.key");
    assert_eq!(
        (s.idle_timeout, s.handshake_timeout, s.max_concurrent_conns, s.max_connection_window),
        (1, 2, 3, 4)
    );
    assert_eq!(
        (s.max_stream_window, s.initial_max_data, s.initial_max_stream_data_bidi_local),
        (5, 6, 7)
    );
    assert_eq!(
        (s.initial_max_stream_data_bidi_remote, s.initial_max_stream_data_uni),
        (8, 9)
    );
    assert_eq!((s.initial_max_streams_bidi, s.initial_max_streams_uni), (10, 11));
    assert_eq!(s.congestion_control, CongestionControlAlgorithm::Copa);
    assert_eq!(
        (s.initial_congestion_window, s.min_congestion_window, s.slow_start_thresh, s.initial_rtt),
        (12, 13, 14, 15)
    );
    assert!(!s.enable_pacing && s.enable_multipath && s.enable_retry && !s.enable_stateless_reset);
    assert_eq!(s.multipath_algorithm, MultipathAlgorithm::RoundRobin);
    assert_eq!(
        (s.cid_len, s.anti_amplification_factor, s.send_batch_size),
        (16, 17, 18)
    );
    assert_eq!((s.zerortt_buffer_size, s.max_undecryptable_packets), (19, 20));
}

#[test]
fn setting_one_field_leaves_the_others() {
    let a = ServerSettings::builder().workers(2).build();
    let b = ServerSettings::builder().workers(2).initial_rtt(50).build();
    assert_eq!(b.initial_rtt, 50);
    assert_eq!(a.idle_timeout, b.idle_timeout);
    assert_eq!(a.cert_file, b.cert_file);
    assert_eq!(a.workers, b.workers);
}

#[test]
fn settings_with_a_worker_count() {
    let s = ServerSettings::with_workers(3);
    assert_eq!(s.workers, 3);
    assert_eq!(s.idle_timeout, 30_000);
    assert_eq!(s.cert_file, "./cert.crt");
}
