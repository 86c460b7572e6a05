use anolisa::agentsight::tcp::{
    TcpAggregator, TcpAggregatorConfig, TcpDerivedEvent, TcpDiagOp, TcpEventInput,
};

fn ev(op: TcpDiagOp, cookie: u64, ts_ns: u64) -> TcpEventInput {
    TcpEventInput {
        op,
        timestamp_ns: ts_ns,
        cookie,
        cgroup_id: 1,
        pid: 100,
        comm: "test".into(),
        family: 2,
        sport: 1234,
        dport: 80,
        saddr: [0; 16],
        daddr: [0; 16],
        segs_out: 0,
        total_retrans: 0,
    }
}

#[test]
fn high_retrans_triggers_at_threshold() {
    let mut agg = TcpAggregator::new(TcpAggregatorConfig {
        retrans_window_ms: 10_000,
        retrans_threshold: 3,
        ..Default::default()
    });
    assert!(agg.record(&ev(TcpDiagOp::Retransmit, 1, 1_000_000)).is_none());
    assert!(agg.record(&ev(TcpDiagOp::Retransmit, 1, 2_000_000)).is_none());
    let hit = agg.record(&ev(TcpDiagOp::Retransmit, 1, 3_000_000));
    assert!(matches!(hit, Some(TcpDerivedEvent::HighRetrans { retrans_count: 3, .. })));
}

#[test]
fn high_retrans_dedup_suppresses_repeat() {
    let mut agg = TcpAggregator::new(TcpAggregatorConfig {
        retrans_window_ms: 10_000,
        retrans_threshold: 2,
        dedup_window_ms: 30_000,
        ..Default::default()
    });
    agg.record(&ev(TcpDiagOp::Retransmit, 7, 1_000_000));
    let first = agg.record(&ev(TcpDiagOp::Retransmit, 7, 2_000_000));
    assert!(first.is_some());
    let dup = agg.record(&ev(TcpDiagOp::Retransmit, 7, 3_000_000));
    assert!(dup.is_none(), "dedup should suppress within window");
}

fn agg(window_ms: u64, threshold: usize, dedup_ms: u64) -> TcpAggregator {
    TcpAggregator::new(TcpAggregatorConfig {
        retrans_window_ms: window_ms,
        retrans_threshold: threshold,
        dedup_window_ms: dedup_ms,
    })
}

#[test]
fn defaults_of_the_aggregator() {
    let c = TcpAggregatorConfig::default();
    assert_eq!(c.retrans_window_ms, 10_000);
    assert_eq!(c.retrans_threshold, 5);
    assert_eq!(c.dedup_window_ms, 30_000);
}

#[test]
fn resets_do_not_count() {
    let mut a = agg(10_000, 2, 0);
    assert!(a.record(&ev(TcpDiagOp::Retransmit, 1, 1_000_000)).is_none());
    assert!(a.record(&ev(TcpDiagOp::ResetRecv, 1, 2_000_000)).is_none());
    assert!(a.record(&ev(TcpDiagOp::ResetRecv, 1, 3_000_000)).is_none());
    assert!(a.record(&ev(TcpDiagOp::Retransmit, 1, 4_000_000)).is_some());
}

#[test]
fn sockets_do_not_share_a_window() {
    let mut a = agg(10_000, 2, 0);
    assert!(a.record(&ev(TcpDiagOp::Retransmit, 1, 1_000_000)).is_none());
    assert!(a.record(&ev(TcpDiagOp::Retransmit, 2, 2_000_000)).is_none());
    assert!(a.record(&ev(TcpDiagOp::Retransmit, 1, 3_000_000)).is_some());
}

#[test]
fn old_retransmits_leave_the_window() {
    // The window is 1 ms; the first one is 2 ms old by then.
    let mut a = agg(1, 2, 0);
    assert!(a.record(&ev(TcpDiagOp::Retransmit, 1, 1_000_000)).is_none());
    assert!(a.record(&ev(TcpDiagOp::Retransmit, 1, 3_000_000)).is_none());
    assert!(a.record(&ev(TcpDiagOp::Retransmit, 1, 3_500_000)).is_some());
}

#[test]
fn count_of_a_signal_is_how_many_lie_within_the_window() {
    // The window is 2 ms, and every retransmit signals.
    let mut a = agg(2, 1, 0);
    let times: [u64; 6] = [1_000_000, 2_000_000, 2_000_000, 3_500_000, 4_000_000, 9_000_000];
    for (i, now) in times.iter().enumerate() {
        a.record(&ev(TcpDiagOp::Retransmit, 2, *now));
        a.record(&ev(TcpDiagOp::ResetRecv, 1, *now));
        let within = times[..=i].iter().filter(|t| now - **t <= 2_000_000).count();
        match a.record(&ev(TcpDiagOp::Retransmit, 1, *now)) {
            Some(TcpDerivedEvent::HighRetrans { retrans_count, .. }) => {
                assert_eq!(retrans_count as usize, within);
            }
            None => panic!("threshold of one must trigger at once"),
        }
    }
}

#[test]
fn signal_comes_again_after_the_dedup_window() {
    let mut a = agg(10_000, 1, 2);
    assert!(a.record(&ev(TcpDiagOp::Retransmit, 9, 1_000_000)).is_some());
    assert!(a.record(&ev(TcpDiagOp::Retransmit, 9, 2_000_000)).is_none());
    assert!(a.record(&ev(TcpDiagOp::Retransmit, 9, 3_000_000)).is_some());
}

#[test]
fn derived_event_carries_the_base_event() {
    let mut a = agg(10_000, 1, 0);
    let mut e = ev(TcpDiagOp::Retransmit, 5, 42);
    e.total_retrans = 17;
    let hit = a.record(&e);
    match hit {
        Some(d) => {
            assert_eq!(d.op_name(), "tcp_high_retrans");
            assert_eq!(d.timestamp_ns(), 42);
            let TcpDerivedEvent::HighRetrans {
                cookie, cgroup_id, pid, comm, sport, dport, window_ms, total_retrans, ..
            } = d;
            assert_eq!((cookie, cgroup_id, pid), (5, 1, 100));
            assert_eq!(comm, "test");
            assert_eq!((sport, dport), (1234, 80));
            assert_eq!((window_ms, total_retrans), (10_000, 17));
        }
        None => panic!("threshold of one must trigger at once"),
    }
}

#[test]
fn operations_have_names() {
    assert_eq!(TcpDiagOp::from_raw(1).map(|o| o.as_str()), Some("tcp_retransmit"));
    assert_eq!(TcpDiagOp::from_raw(3).map(|o| o.as_str()), Some("tcp_reset_recv"));
    assert!(TcpDiagOp::from_raw(0).is_none());
    assert!(TcpDiagOp::from_raw(2).is_none());
}
