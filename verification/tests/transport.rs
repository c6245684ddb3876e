use statsd_sink::batch::BatchConfig;
use statsd_sink::statsd::{
    default_address, Metric, MetricKind, MetricValue, Mode, StatsdError, StatsdSinkConfig,
    StatsdSvc, SubmitOutcome,
};
use statsd_sink::udp::{
    udp_healthcheck, DnsOutcome, IpRepr, SendDecision, SinkBuildError, SocketAddrRepr, State,
    UdpSink, UdpSinkConfig,
};

fn loopback() -> IpRepr {
    IpRepr { is_v6: false, bits: 0x7F000001 }
}

#[test]
fn config_build_parses_host_and_port() {
    let sink = UdpSinkConfig::new("localhost:8125".to_owned()).build().unwrap();
    assert_eq!(sink.host.as_str(), "localhost");
    assert_eq!(sink.port, 8125);
    assert_eq!(sink.state, State::Initializing);
}

#[test]
fn config_build_reports_each_error() {
    assert_eq!(
        UdpSinkConfig::new("/nohost".to_owned()).build(),
        Err(SinkBuildError::MissingHost)
    );
    assert_eq!(
        UdpSinkConfig::new("localhost".to_owned()).build(),
        Err(SinkBuildError::MissingPort)
    );
    assert_eq!(
        UdpSinkConfig::new("not a uri".to_owned()).build(),
        Err(SinkBuildError::InvalidAddress)
    );
}

#[test]
fn resolution_success_caches_first_address() {
    let mut sink = UdpSink::new("host".to_owned(), 8125);
    sink.begin_resolving();
    assert_eq!(sink.state, State::ResolvingDns);
    let other = IpRepr { is_v6: false, bits: 0x0A000001 };
    sink.dns_completed(DnsOutcome::Resolved(vec![loopback(), other]));
    let addr = SocketAddrRepr { ip: loopback(), port: 8125 };
    assert_eq!(sink.state, State::ResolvedDns(addr));
    assert!(sink.poll_ready());
    assert_eq!(sink.start_send(), SendDecision::Send(addr));
}

#[test]
fn resolution_failure_and_empty_result_back_off_alike() {
    let mut a = UdpSink::new("host".to_owned(), 1);
    a.begin_resolving();
    a.dns_completed(DnsOutcome::Failed);
    let mut b = UdpSink::new("host".to_owned(), 1);
    b.begin_resolving();
    b.dns_completed(DnsOutcome::Resolved(vec![]));
    assert_eq!(a.state, State::Backoff(500));
    assert_eq!(b.state, State::Backoff(500));
}

#[test]
fn not_ready_while_resolving_or_backing_off() {
    let mut sink = UdpSink::new("host".to_owned(), 1);
    assert!(!sink.poll_ready());
    sink.begin_resolving();
    assert!(!sink.poll_ready());
    assert_eq!(sink.start_send(), SendDecision::NotReady);
    sink.dns_completed(DnsOutcome::Failed);
    assert!(!sink.poll_ready());
    assert_eq!(sink.start_send(), SendDecision::NotReady);
    sink.backoff_elapsed();
    assert_eq!(sink.state, State::Initializing);
    assert!(!sink.poll_ready());
}

#[test]
fn failure_delays_grow_and_cap_at_one_minute() {
    let mut sink = UdpSink::new("host".to_owned(), 1);
    let mut last: u64 = 0;
    for _ in 0..20 {
        sink.begin_resolving();
        sink.dns_completed(DnsOutcome::Failed);
        let delay = match sink.state {
            State::Backoff(d) => d,
            other => panic!("expected backoff, found {:?}", other),
        };
        assert!(delay >= last);
        assert!(delay <= 60_000);
        last = delay;
        sink.backoff_elapsed();
    }
    assert_eq!(last, 60_000);
}

#[test]
fn first_delays_follow_the_geometric_schedule() {
    let mut sink = UdpSink::new("host".to_owned(), 1);
    assert_eq!(sink.next_delay(), 500);
    assert_eq!(sink.next_delay(), 1000);
    assert_eq!(sink.next_delay(), 2000);
}

#[test]
fn successful_resolution_resets_the_backoff() {
    let mut sink = UdpSink::new("host".to_owned(), 1);
    sink.begin_resolving();
    sink.dns_completed(DnsOutcome::Failed);
    sink.backoff_elapsed();
    sink.begin_resolving();
    sink.dns_completed(DnsOutcome::Failed);
    assert_eq!(sink.state, State::Backoff(1000));
    sink.backoff_elapsed();
    sink.begin_resolving();
    sink.dns_completed(DnsOutcome::Resolved(vec![loopback()]));
    assert!(sink.poll_ready());
    // after recovery the next unrelated failure starts from the first delay
    sink.state = State::ResolvingDns;
    sink.dns_completed(DnsOutcome::Failed);
    assert_eq!(sink.state, State::Backoff(500));
}

#[test]
fn send_failure_changes_no_state() {
    let mut sink = UdpSink::new("host".to_owned(), 1);
    sink.begin_resolving();
    sink.dns_completed(DnsOutcome::Resolved(vec![loopback()]));
    let before = sink.clone();
    sink.send_failed();
    assert_eq!(sink, before);
}

#[test]
fn healthcheck_is_a_no_op_success() {
    assert_eq!(udp_healthcheck(), Ok(()));
}

#[test]
fn default_address_is_local_statsd() {
    let a = default_address();
    assert_eq!(a.ip, loopback());
    assert_eq!(a.port, 8125);
}

fn test_config() -> StatsdSinkConfig {
    StatsdSinkConfig {
        namespace: String::new(),
        batch: BatchConfig::unset(),
        mode: Mode::Udp(UdpSinkConfig::new("localhost:8125".to_owned())),
    }
}

#[test]
fn statsd_build_applies_defaults() {
    let sink = test_config().build().unwrap();
    assert_eq!(sink.batch.max_bytes, 1300);
    assert_eq!(sink.batch.max_events, 1000);
    assert_eq!(sink.batch.timeout_ms, 1000);
    assert_eq!(sink.transport.host.as_str(), "localhost");
    assert_eq!(sink.transport.port, 8125);
    assert_eq!(sink.acked_events, 0);
}

#[test]
fn statsd_build_rejects_bad_settings() {
    let mut c = test_config();
    c.mode = Mode::Udp(UdpSinkConfig::new("localhost".to_owned()));
    assert_eq!(c.build(), Err(StatsdError::BuildError));
    let mut c2 = test_config();
    c2.batch.max_events = Some(0);
    assert_eq!(c2.build(), Err(StatsdError::BuildError));
}

fn counter(name: &str, value: &str) -> Metric {
    Metric {
        name: name.to_owned(),
        tags: None,
        kind: MetricKind::Incremental,
        value: MetricValue::Counter { value: value.to_owned() },
    }
}

#[test]
fn facade_signals_backpressure_until_resolved() {
    let mut sink = test_config().build().unwrap();
    assert_eq!(sink.submit(counter("c", "1"), 0), SubmitOutcome::NotReady);
    sink.transport.begin_resolving();
    assert_eq!(sink.submit(counter("c", "1"), 0), SubmitOutcome::NotReady);
    sink.transport.dns_completed(DnsOutcome::Failed);
    assert_eq!(sink.submit(counter("c", "1"), 0), SubmitOutcome::NotReady);
    sink.transport.backoff_elapsed();
    sink.transport.begin_resolving();
    sink.transport.dns_completed(DnsOutcome::Resolved(vec![loopback()]));
    assert_eq!(sink.submit(counter("c", "1"), 0), SubmitOutcome::Accepted);
}

#[test]
fn facade_flushes_and_acknowledges_on_the_byte_bound() {
    let mut config = test_config();
    config.batch.max_bytes = Some(8);
    let mut sink = config.build().unwrap();
    sink.transport.begin_resolving();
    sink.transport.dns_completed(DnsOutcome::Resolved(vec![loopback()]));
    // "c:1|c\n" is six bytes; a second event would make twelve
    assert_eq!(sink.submit(counter("c", "1"), 0), SubmitOutcome::Accepted);
    let addr = SocketAddrRepr { ip: loopback(), port: 8125 };
    assert_eq!(
        sink.submit(counter("c", "2"), 0),
        SubmitOutcome::Flush(b"c:1|c\n".to_vec(), addr)
    );
    assert_eq!(sink.acked_events, 1);
    assert_eq!(sink.batch.buf, b"c:2|c\n".to_vec());
}

#[test]
fn facade_flushes_on_the_time_bound() {
    let mut sink = test_config().build().unwrap();
    sink.transport.begin_resolving();
    sink.transport.dns_completed(DnsOutcome::Resolved(vec![loopback()]));
    assert_eq!(sink.submit(counter("c", "1"), 100), SubmitOutcome::Accepted);
    assert_eq!(sink.poll_timeout(1099), None);
    let addr = SocketAddrRepr { ip: loopback(), port: 8125 };
    assert_eq!(
        sink.poll_timeout(1100),
        Some((b"c:1|c\n".to_vec(), addr))
    );
    assert_eq!(sink.acked_events, 1);
}

#[test]
fn unsupported_metric_is_dropped_silently() {
    let mut sink = test_config().build().unwrap();
    sink.transport.begin_resolving();
    sink.transport.dns_completed(DnsOutcome::Resolved(vec![loopback()]));
    let absolute_counter = Metric {
        name: "c".to_owned(),
        tags: None,
        kind: MetricKind::Absolute,
        value: MetricValue::Counter { value: "1".to_owned() },
    };
    assert_eq!(sink.submit(absolute_counter, 0), SubmitOutcome::Accepted);
    assert_eq!(sink.batch.events, 0);
}

#[test]
fn sink_type_is_statsd() {
    assert_eq!(test_config().sink_type(), "statsd");
}

#[test]
fn svc_itself_is_always_ready() {
    let svc = StatsdSvc { mode: Mode::Udp(UdpSinkConfig::new("h:1".to_owned())) };
    assert!(svc.poll_ready());
}
