use anolisa::agentsight::attach::{attach_points, tracer_name, AttachRun, Tracer};
use anolisa::agentsight::open_err::OpenErrAggregator;
use anolisa::agentsight::probes::{
    attach_failure, create_failure, disabled_note, poll_step, CreateStep, FlushPlan, Handled,
    PollResult, PollStep, Probe, ProbeConfig, ProbeEvent, Probes, ProcessStep, RecordLayouts,
    Route,
};
use anolisa::agentsight::procfs::{
    flush_open_agg, OpenAggKey, OpenAggLayout, OpenAggVal, ProcFsEvent, ProcFsLayout,
};
use anolisa::agentsight::procnet::{
    flush_connect_agg, ConnectAggLayout, ProcNetEvent, ProcNetLayout,
};
use anolisa::agentsight::procsig::{flush_fork_agg, ForkAggLayout, ProcSigEvent, ProcSigLayout};
use anolisa::agentsight::record::{
    read_bytes, read_i32, read_text, read_u16, read_u32, read_u64, ByteField, ByteOrder, FlushStep,
};
use anolisa::agentsight::tcp::{TcpAggregator, TcpAggregatorConfig};
use anolisa::agentsight::tcpdiag::{process_event, TcpDiagEvent, TcpDiagLayout};
use anolisa::agentsight::udpdns::{parse_dns_qname, UdpDnsEvent, UdpDnsLayout};

const LE: ByteOrder = ByteOrder::Little;

fn field(offset: usize, len: usize) -> ByteField {
    ByteField { offset, len }
}

fn put(data: &mut [u8], at: usize, bytes: &[u8]) {
    data[at..at + bytes.len()].copy_from_slice(bytes);
}

/// The kernel's clock runs 1000 ns behind.
fn clock(t: u64) -> u64 {
    t + 1000
}

// ── bytes ──

#[test]
fn numbers_are_read_in_both_orders() {
    let data = [0x01u8, 0x02, 0x03, 0x04, 0x05, 0x06, 0x07, 0x88];
    assert_eq!(read_u16(&data, 0, LE), 0x0201);
    assert_eq!(read_u16(&data, 0, ByteOrder::Big), 0x0102);
    assert_eq!(read_u32(&data, 0, LE), 0x0403_0201);
    assert_eq!(read_u32(&data, 0, ByteOrder::Big), 0x0102_0304);
    assert_eq!(read_u64(&data, 0, LE), 0x8807_0605_0403_0201);
    assert_eq!(read_u64(&data, 0, ByteOrder::Big), 0x0102_0304_0506_0788);
    assert_eq!(read_i32(&[0xfe, 0xff, 0xff, 0xff], 0, LE), -2);
    assert_eq!(read_i32(&[0x80, 0, 0, 0], 0, ByteOrder::Big), i32::MIN);
    assert_eq!(read_bytes(&data, field(2, 3)), vec![3, 4, 5]);
}

#[test]
fn texts_end_at_the_first_zero_byte() {
    assert_eq!(read_text(&b"bash\0garbage".to_vec()), "bash");
    assert_eq!(read_text(&b"no zero".to_vec()), "no zero");
    assert_eq!(read_text(&vec![0]), "");
}

#[test]
fn broken_texts_get_replacement_characters() {
    assert_eq!(read_text(&vec![b'a', 0xff, b'b']), "a\u{fffd}b");
    assert_eq!(read_text(&"用户\0".as_bytes().to_vec()), "用户");
}

// ── filesystem ──

fn procfs_layout() -> ProcFsLayout {
    ProcFsLayout {
        order: LE,
        size: 100,
        pid: 4,
        tid: 8,
        uid: 12,
        timestamp_ns: 16,
        cgroup_id: 24,
        op: 32,
        ret: 36,
        count: 40,
        comm: field(44, 16),
        path: field(60, 20),
        new_path: field(80, 20),
    }
}

fn procfs_record(op: u32, ret: i32, ts: u64, path: &str, new_path: &str) -> Vec<u8> {
    let mut d = vec![0u8; 100];
    put(&mut d, 0, &7u32.to_le_bytes());
    put(&mut d, 4, &11u32.to_le_bytes());
    put(&mut d, 8, &12u32.to_le_bytes());
    put(&mut d, 12, &13u32.to_le_bytes());
    put(&mut d, 16, &ts.to_le_bytes());
    put(&mut d, 24, &99u64.to_le_bytes());
    put(&mut d, 32, &op.to_le_bytes());
    put(&mut d, 36, &ret.to_le_bytes());
    put(&mut d, 40, &5u32.to_le_bytes());
    put(&mut d, 44, b"cat");
    put(&mut d, 60, path.as_bytes());
    put(&mut d, 80, new_path.as_bytes());
    d
}

#[test]
fn filesystem_record_becomes_an_event() {
    let d = procfs_record(2, -13, 7, "/a", "/b");
    let e = ProcFsEvent::from_bytes(&d, &procfs_layout(), &clock).unwrap();
    assert_eq!((e.pid, e.tid, e.uid), (11, 12, 13));
    assert_eq!((e.timestamp_ns, e.cgroup_id), (1007, 99));
    assert_eq!((e.op, e.ret, e.count), (2, -13, 5));
    assert_eq!(e.op_name(), "rename");
    assert_eq!((e.comm.as_str(), e.path.as_str(), e.new_path.as_str()), ("cat", "/a", "/b"));
    assert_eq!((e.total_bytes, e.first_ts, e.last_ts), (0, 0, 0));
    assert!(ProcFsEvent::from_bytes(&d[..99], &procfs_layout(), &clock).is_none());
}

#[test]
fn filesystem_operations_have_names() {
    let mut e =
        ProcFsEvent::from_bytes(&procfs_record(0, 0, 0, "", ""), &procfs_layout(), &clock).unwrap();
    let names: Vec<&str> = (0..11)
        .map(|op| {
            e.op = op;
            e.op_name()
        })
        .collect();
    assert_eq!(
        names,
        vec![
            "unknown", "delete", "rename", "mkdir", "truncate", "chdir", "write_error", "write",
            "open", "rmdir", "unknown"
        ]
    );
}

fn open_layout() -> OpenAggLayout {
    OpenAggLayout {
        order: LE,
        key_size: 20,
        pid: 0,
        path: field(4, 16),
        val_size: 48,
        count: 0,
        first_ts: 8,
        last_ts: 16,
        cgroup_id: 24,
        tid: 32,
        uid: 36,
        comm: field(40, 8),
    }
}

fn open_value(count: u32, first: u64, last: u64, cgroup: u64, comm: &str) -> Vec<u8> {
    let mut v = vec![0u8; 48];
    put(&mut v, 0, &count.to_le_bytes());
    put(&mut v, 8, &first.to_le_bytes());
    put(&mut v, 16, &last.to_le_bytes());
    put(&mut v, 24, &cgroup.to_le_bytes());
    put(&mut v, 32, &21u32.to_le_bytes());
    put(&mut v, 36, &22u32.to_le_bytes());
    put(&mut v, 40, comm.as_bytes());
    v
}

fn open_key() -> Vec<u8> {
    let mut k = vec![0u8; 20];
    put(&mut k, 0, &31u32.to_le_bytes());
    put(&mut k, 4, b"/etc/hosts");
    k
}

#[test]
fn opens_of_all_cpus_are_summed() {
    let values = vec![
        open_value(0, 1, 999, 1, "idle"),
        open_value(3, 50, 60, 7, "vim"),
        vec![1, 2, 3],
        open_value(4, 40, 55, 8, "cat"),
    ];
    match flush_open_agg(&open_key(), &Some(values), &open_layout(), &clock) {
        FlushStep::EmitAndDelete(e) => {
            assert_eq!((e.pid, e.path.as_str()), (31, "/etc/hosts"));
            assert_eq!((e.count, e.op_name(), e.ret), (7, "open", 0));
            assert_eq!((e.first_ts, e.last_ts, e.timestamp_ns), (1040, 1060, 1060));
            // The first CPU that counted anything tells who it was.
            assert_eq!((e.cgroup_id, e.tid, e.uid, e.comm.as_str()), (7, 21, 22, "vim"));
        }
        other => panic!("got: {:?}", other),
    }
}

#[test]
fn sum_of_opens_saturates() {
    let values = vec![open_value(u32::MAX, 1, 2, 0, "a"), open_value(2, 1, 2, 0, "a")];
    match flush_open_agg(&open_key(), &Some(values), &open_layout(), &clock) {
        FlushStep::EmitAndDelete(e) => assert_eq!(e.count, u32::MAX as u64),
        other => panic!("got: {:?}", other),
    }
}

#[test]
fn keys_without_counts_are_deleted_and_foreign_keys_skipped() {
    let l = open_layout();
    assert!(matches!(
        flush_open_agg(&open_key(), &Some(vec![open_value(0, 1, 2, 0, "a")]), &l, &clock),
        FlushStep::Delete
    ));
    assert!(matches!(flush_open_agg(&open_key(), &None, &l, &clock), FlushStep::Delete));
    assert!(matches!(flush_open_agg(&vec![0; 19], &None, &l, &clock), FlushStep::Skip));
}

#[test]
fn aggregated_open_takes_its_key_and_value() {
    let e = ProcFsEvent::from_open_agg(
        &OpenAggKey { pid: 3, path: b"/x\0".to_vec() },
        &OpenAggVal {
            count: 9,
            first_ts: 1,
            last_ts: 2,
            cgroup_id: 4,
            tid: 5,
            uid: 6,
            comm: b"sh".to_vec(),
        },
        &clock,
    );
    assert_eq!((e.pid, e.count, e.path.as_str(), e.comm.as_str()), (3, 9, "/x", "sh"));
    assert_eq!((e.first_ts, e.last_ts), (1001, 1002));
}

// ── failed opens ──

fn failed_open(pid: u32, errno: i32, path: &str, ts: u64) -> ProcFsEvent {
    let mut e =
        ProcFsEvent::from_bytes(&procfs_record(8, errno, ts, "", ""), &procfs_layout(), &|t| t)
            .unwrap();
    e.pid = pid;
    e.path = path.to_string();
    e
}

#[test]
fn failed_opens_are_grouped_by_process_error_and_file_name() {
    let mut agg = OpenErrAggregator::new();
    assert!(agg.try_record(&failed_open(1, -2, "/usr/lib/libc.so", 10)));
    assert!(agg.try_record(&failed_open(1, -2, "/lib/libc.so", 30)));
    assert!(agg.try_record(&failed_open(1, -2, "/opt/libc.so", 20)));
    assert!(agg.try_record(&failed_open(1, -13, "/lib/libc.so", 40)));
    assert!(agg.try_record(&failed_open(2, -2, "/lib/libc.so", 50)));
    let mut events = agg.flush();
    events.sort_by_key(|e| (e.pid, -e.ret));
    assert_eq!(events.len(), 3);
    let e = &events[0];
    assert_eq!((e.pid, e.ret, e.count), (1, -2, 3));
    assert_eq!((e.path.as_str(), e.new_path.as_str()), ("libc.so", "/usr/lib/libc.so"));
    assert_eq!((e.first_ts, e.last_ts, e.timestamp_ns), (10, 30, 30));
    assert_eq!((events[1].pid, events[1].ret, events[1].count), (1, -13, 1));
    assert_eq!((events[2].pid, events[2].count), (2, 1));
    assert!(agg.flush().is_empty());
}

#[test]
fn other_events_are_not_held_back() {
    let mut agg = OpenErrAggregator::default();
    let mut fine = failed_open(1, -2, "/a", 1);
    fine.ret = 3;
    assert!(!agg.try_record(&fine));
    let mut other = failed_open(1, -2, "/a", 1);
    other.op = 1;
    assert!(!agg.try_record(&other));
    assert!(agg.flush().is_empty());
}

// ── network ──

fn procnet_layout() -> ProcNetLayout {
    ProcNetLayout {
        order: LE,
        size: 72,
        pid: 4,
        tid: 8,
        uid: 12,
        timestamp_ns: 16,
        cgroup_id: 24,
        op: 32,
        ret: 36,
        comm: field(40, 16),
        port: 56,
        addr: 60,
        family: 64,
    }
}

#[test]
fn network_record_becomes_an_event() {
    let mut d = vec![0u8; 72];
    put(&mut d, 4, &1u32.to_le_bytes());
    put(&mut d, 16, &5u64.to_le_bytes());
    put(&mut d, 32, &3u32.to_le_bytes());
    put(&mut d, 36, &(-111i32).to_le_bytes());
    put(&mut d, 40, b"curl");
    put(&mut d, 56, &443u16.to_le_bytes());
    put(&mut d, 60, &[10, 0, 0, 1]);
    put(&mut d, 64, &2u16.to_le_bytes());
    let e = ProcNetEvent::from_bytes(&d, &procnet_layout(), &clock).unwrap();
    assert_eq!((e.op_name(), e.ret, e.timestamp_ns), ("connect_error", -111, 1005));
    assert_eq!((e.port, e.family, e.comm.as_str()), (443, 2, "curl"));
    assert_eq!(e.addr, u32::from_le_bytes([10, 0, 0, 1]));
    assert!(ProcNetEvent::from_bytes(&d[..71], &procnet_layout(), &clock).is_none());
}

fn connect_value(count: u64, first: u64, last: u64, ret: i32) -> Vec<u8> {
    let mut v = vec![0u8; 56];
    put(&mut v, 0, &count.to_le_bytes());
    put(&mut v, 8, &first.to_le_bytes());
    put(&mut v, 16, &last.to_le_bytes());
    put(&mut v, 24, &ret.to_le_bytes());
    put(&mut v, 32, &77u64.to_le_bytes());
    put(&mut v, 40, b"wget");
    v
}

#[test]
fn connects_of_all_cpus_are_summed() {
    let layout = ConnectAggLayout {
        order: LE,
        key_size: 12,
        pid: 0,
        dst_addr: 4,
        dst_port: 8,
        val_size: 56,
        count: 0,
        first_ts: 8,
        last_ts: 16,
        last_ret: 24,
        cgroup_id: 32,
        comm: field(40, 16),
    };
    let mut key = vec![0u8; 12];
    put(&mut key, 0, &9u32.to_le_bytes());
    put(&mut key, 4, &[1, 2, 3, 4]);
    put(&mut key, 8, &80u16.to_le_bytes());
    let values = vec![connect_value(1, 30, 40, -1), connect_value(2, 10, 90, -2)];
    match flush_connect_agg(&key, &Some(values), &layout, &clock) {
        FlushStep::EmitAndDelete(e) => {
            assert_eq!((e.pid, e.count, e.op_name()), (9, 3, "connect"));
            assert_eq!((e.first_ts, e.last_ts), (1010, 1090));
            // The result of the latest connect.
            assert_eq!(e.last_ret, -2);
            assert_eq!((e.dst_addr, e.dst_port), (u32::from_le_bytes([1, 2, 3, 4]), 80));
            assert_eq!((e.cgroup_id, e.comm.as_str()), (77, "wget"));
        }
        other => panic!("got: {:?}", other),
    }
}

// ── signals ──

#[test]
fn signal_record_becomes_an_event() {
    let layout = ProcSigLayout {
        order: LE,
        size: 64,
        pid: 4,
        tid: 8,
        uid: 12,
        timestamp_ns: 16,
        cgroup_id: 24,
        op: 32,
        ret: 36,
        comm: field(40, 16),
        target_pid: 56,
        signal: 60,
    };
    let mut d = vec![0u8; 64];
    put(&mut d, 4, &1u32.to_le_bytes());
    put(&mut d, 32, &3u32.to_le_bytes());
    put(&mut d, 40, b"kill");
    put(&mut d, 56, &1234u32.to_le_bytes());
    put(&mut d, 60, &9u32.to_le_bytes());
    let e = ProcSigEvent::from_bytes(&d, &layout, &clock).unwrap();
    assert_eq!((e.op_name(), e.target_pid, e.signal), ("kill", 1234, 9));
    assert_eq!((e.timestamp_ns, e.comm.as_str()), (1000, "kill"));
    assert!(ProcSigEvent::from_bytes(&d[..63], &layout, &clock).is_none());
}

#[test]
fn forks_of_all_cpus_are_summed() {
    let layout = ForkAggLayout {
        order: LE,
        key_size: 4,
        parent_pid: 0,
        val_size: 40,
        count: 0,
        first_ts: 8,
        last_ts: 16,
        cgroup_id: 24,
        comm: field(32, 8),
    };
    let value = |count: u64, first: u64, last: u64| {
        let mut v = vec![0u8; 40];
        put(&mut v, 0, &count.to_le_bytes());
        put(&mut v, 8, &first.to_le_bytes());
        put(&mut v, 16, &last.to_le_bytes());
        put(&mut v, 32, b"make");
        v
    };
    let key = 5u32.to_le_bytes().to_vec();
    match flush_fork_agg(&key, &Some(vec![value(2, 8, 9), value(3, 7, 8)]), &layout, &clock) {
        FlushStep::EmitAndDelete(e) => {
            assert_eq!((e.pid, e.count, e.op_name()), (5, 5, "fork"));
            assert_eq!((e.first_ts, e.last_ts, e.comm.as_str()), (1007, 1009, "make"));
        }
        other => panic!("got: {:?}", other),
    }
    assert!(matches!(flush_fork_agg(&key, &None, &layout, &clock), FlushStep::Delete));
}

// ── DNS ──

fn query(labels: &[&str]) -> Vec<u8> {
    let mut p = vec![0u8; 12];
    for l in labels {
        p.push(l.len() as u8);
        p.extend_from_slice(l.as_bytes());
    }
    p.push(0);
    p
}

#[test]
fn query_name_is_read_back() {
    let mut p = query(&["www", "example", "com"]);
    p.extend_from_slice(&[0, 1, 0, 1]);
    let n = p.len();
    assert_eq!(parse_dns_qname(&p, n), Some("www.example.com".to_string()));
    assert_eq!(parse_dns_qname(&query(&["a"]), 15), Some("a".to_string()));
}

#[test]
fn query_without_a_name_is_none() {
    assert_eq!(parse_dns_qname(&vec![0; 13], 13), None);
    assert_eq!(parse_dns_qname(&query(&[]), 13), None);
    // A compression pointer is no label.
    let mut p = vec![0u8; 12];
    p.extend_from_slice(&[0xc0, 0x0c, 0]);
    assert_eq!(parse_dns_qname(&p, 15), None);
    // A label that is cut off ends the name.
    let mut p = query(&["www"]);
    p.pop();
    p.extend_from_slice(&[9, b'x']);
    let n = p.len();
    assert_eq!(parse_dns_qname(&p, n), Some("www".to_string()));
}

#[test]
fn overlong_name_ends_before_the_label_that_would_make_it_so() {
    let long = "x".repeat(63);
    let labels: Vec<&str> = (0..6).map(|_| long.as_str()).collect();
    let p = query(&labels);
    let n = p.len();
    let name = parse_dns_qname(&p, n).unwrap();
    // Three labels are 191 bytes long, four would be 255.
    assert_eq!(name, [long.as_str(); 3].join("."));
}

#[test]
fn name_of_the_greatest_length_is_read_whole() {
    let long = "x".repeat(63);
    let last = "y".repeat(61);
    let p = query(&[&long, &long, &long, &last]);
    let n = p.len();
    assert_eq!(parse_dns_qname(&p, n).unwrap().len(), 253);
    // Bytes beyond ASCII count twice, yet a first label is never left out.
    let mut p = vec![0u8; 12];
    for _ in 0..3 {
        p.push(63);
        p.extend_from_slice(&[0xff; 63]);
    }
    p.push(0);
    let n = p.len();
    let name = parse_dns_qname(&p, n).unwrap();
    assert_eq!((name.len(), name.chars().count()), (253, 127));
}

fn udpdns_layout() -> UdpDnsLayout {
    UdpDnsLayout {
        order: LE,
        size: 120,
        pid: 4,
        tid: 8,
        uid: 12,
        timestamp_ns: 16,
        cgroup_id: 24,
        comm: field(32, 16),
        payload_len: 48,
        payload: field(52, 64),
    }
}

fn udpdns_record(payload: &[u8]) -> Vec<u8> {
    let mut d = vec![0u8; 120];
    put(&mut d, 0, &6u32.to_le_bytes());
    put(&mut d, 4, &3u32.to_le_bytes());
    put(&mut d, 32, b"dig");
    put(&mut d, 48, &(payload.len() as u32).to_le_bytes());
    put(&mut d, 52, payload);
    d
}

#[test]
fn dns_record_becomes_an_event() {
    let d = udpdns_record(&query(&["host", "lan"]));
    let e = UdpDnsEvent::from_bytes(&d, &udpdns_layout(), &clock).unwrap();
    assert_eq!((e.pid, e.comm.as_str(), e.domain.as_str()), (3, "dig", "host.lan"));
    assert_eq!(e.timestamp_ns, 1000);
    assert!(UdpDnsEvent::from_bytes(&udpdns_record(&[]), &udpdns_layout(), &clock).is_none());
}

// ── TCP ──

fn tcp_record(op: u32) -> Vec<u8> {
    let mut d = vec![0u8; 112];
    put(&mut d, 0, &op.to_le_bytes());
    put(&mut d, 8, &5u64.to_le_bytes());
    put(&mut d, 24, &42u64.to_le_bytes());
    put(&mut d, 36, b"nginx");
    put(&mut d, 52, &10u16.to_le_bytes());
    put(&mut d, 54, &8080u16.to_le_bytes());
    put(&mut d, 58, &[0xfe, 0x80]);
    put(&mut d, 96, &7u32.to_le_bytes());
    d
}

fn tcp_layout() -> TcpDiagLayout {
    TcpDiagLayout {
        order: LE,
        size: 112,
        op: 0,
        timestamp_ns: 8,
        cgroup_id: 16,
        sock_cookie: 24,
        pid: 32,
        comm: field(36, 16),
        family: 52,
        sport: 54,
        dport: 56,
        saddr: 58,
        daddr: 74,
        segs_out: 92,
        total_retrans: 96,
    }
}

#[test]
fn tcp_record_becomes_an_event() {
    let e = TcpDiagEvent::from_bytes(&tcp_record(1), &tcp_layout(), &clock).unwrap();
    assert_eq!((e.op_name(), e.family_name()), ("tcp_retransmit", "AF_INET6(IPv6)"));
    assert_eq!((e.sock_cookie, e.sport, e.total_retrans), (42, 8080, 7));
    assert_eq!((e.timestamp_ns, e.comm.as_str()), (1005, "nginx"));
    assert_eq!(e.saddr[..2], [0xfe, 0x80]);
    assert!(TcpDiagEvent::from_bytes(&tcp_record(2), &tcp_layout(), &clock).is_none());
    assert!(TcpDiagEvent::from_bytes(&tcp_record(1)[..111], &tcp_layout(), &clock).is_none());
}

#[test]
fn tcp_events_feed_the_aggregator() {
    let mut agg = TcpAggregator::new(TcpAggregatorConfig {
        retrans_window_ms: 10,
        retrans_threshold: 2,
        dedup_window_ms: 0,
    });
    let e = TcpDiagEvent::from_bytes(&tcp_record(1), &tcp_layout(), &clock).unwrap();
    assert_eq!(e.to_agg_input().cookie, 42);
    assert!(process_event(&mut agg, &e).is_none());
    assert!(process_event(&mut agg, &e).is_some());
    let reset = TcpDiagEvent::from_bytes(&tcp_record(3), &tcp_layout(), &clock).unwrap();
    assert!(process_event(&mut agg, &reset).is_none());
}

// ── attaching ──

#[test]
fn required_program_that_fails_ends_the_run() {
    let mut run = AttachRun::new(Tracer::UdpDns);
    assert_eq!(run.next_program(), Some("trace_udp_sendmsg"));
    assert_eq!(run.report(Some("EPERM")), Err("failed to attach udp_sendmsg fentry"));
    assert_eq!(run.next_program(), None);
}

#[test]
fn legacy_program_that_fails_is_passed_over() {
    let mut run = AttachRun::new(Tracer::ProcSig);
    let points = attach_points(Tracer::ProcSig);
    for p in &points {
        assert_eq!(run.next_program(), Some(p.program));
        let error = if p.required { None } else { Some("ENOENT") };
        assert_eq!(run.report(error), Ok(()));
    }
    assert_eq!(run.next_program(), None);
    assert_eq!(
        run.warnings(),
        &vec![
            "procsig: skipping legacy tracepoint sys_exit_fork (likely unsupported on this arch): \
             ENOENT"
                .to_string()
        ]
    );
    assert_eq!(points.iter().filter(|p| !p.required).count(), 1);
    assert_eq!(tracer_name(Tracer::ProcSig), "procsig");
}

#[test]
fn tracers_attach_their_programs() {
    let count = |t: Tracer| attach_points(t).len();
    assert_eq!(count(Tracer::ProcFs), 24);
    assert_eq!(count(Tracer::ProcNet), 6);
    assert_eq!(count(Tracer::TcpDiag), 3);
    assert_eq!(attach_points(Tracer::ProcFs)[12].program, "trace_open_enter");
}

// ── the set of probes ──

fn config(on: bool) -> ProbeConfig {
    ProbeConfig {
        sslsniff: on,
        procmon: on,
        filewatch: on,
        filewrite: on,
        procfs: on,
        procnet: on,
        procsig: on,
    }
}

fn layouts() -> RecordLayouts {
    RecordLayouts {
        order: LE,
        proctrace_size: 8,
        sslsniff_size: 8,
        procmon_size: 8,
        filewatch_size: 8,
        filewrite_size: 8,
        udpdns: udpdns_layout(),
        procfs: procfs_layout(),
        procnet: procnet_layout(),
        procsig: ProcSigLayout {
            order: LE,
            size: 64,
            pid: 4,
            tid: 8,
            uid: 12,
            timestamp_ns: 16,
            cgroup_id: 24,
            op: 32,
            ret: 36,
            comm: field(40, 16),
            target_pid: 56,
            signal: 60,
        },
    }
}

#[test]
fn probes_are_created_in_order_and_disabled_ones_passed_over() {
    let mut c = config(true);
    c.procmon = false;
    let p = Probes::new_with_cgroup_filter(&[7, 1200], Some(1000), &c, false, true, true);
    let steps = p.creation_steps();
    assert_eq!(steps.len(), 9);
    match &steps[0] {
        CreateStep::Trace { setup, target_pids, target_uid } => {
            assert_eq!(setup.probe, Probe::ProcTrace);
            assert!(!setup.shares_processes && setup.cgroup_filter && !setup.errors_only);
            assert_eq!((target_pids.as_slice(), *target_uid), (&[7u32, 1200][..], Some(1000)));
        }
        other => panic!("process tracing always runs, got: {:?}", other),
    }
    assert_eq!(steps[2], CreateStep::Disabled(Probe::ProcMon));
    assert_eq!(steps[5], CreateStep::Disabled(Probe::UdpDns));
    match &steps[6] {
        CreateStep::Create(s) => {
            assert_eq!(s.probe, Probe::ProcFs);
            assert!(s.shares_processes && s.shares_cgroups && s.cgroup_filter && s.errors_only);
        }
        other => panic!("asked for, got: {:?}", other),
    }
    assert_eq!(
        p.attach(),
        vec![
            Probe::ProcTrace,
            Probe::FileWatch,
            Probe::FileWrite,
            Probe::ProcFs,
            Probe::ProcNet,
            Probe::ProcSig
        ]
    );
    assert!(p.is_running(Probe::SslSniff) && !p.is_running(Probe::ProcMon));
}

#[test]
fn tracer_is_told_what_to_trace() {
    let targets = |p: &Probes| match &p.creation_steps()[0] {
        CreateStep::Trace { target_pids, target_uid, .. } => (target_pids.clone(), *target_uid),
        other => panic!("got: {:?}", other),
    };
    let mut p = Probes::new(&[42], None, config(true), false, false);
    assert_eq!(targets(&p), (vec![42], None));
    p.on_record(&[1, 0, 0], &layouts(), &clock);
    assert!(p.flush_open_errors().is_empty());
    assert_eq!(targets(&p), (vec![42], None));
    let p = Probes::new(&[], Some(0), config(false), false, false);
    assert_eq!(targets(&p), (vec![], Some(0)));
}

#[test]
fn file_watching_and_dns_are_asked_for() {
    let p = Probes::new(&[], None, config(false), true, true);
    assert!(p.is_running(Probe::FileWatch) && p.is_running(Probe::UdpDns));
    assert!(!p.is_running(Probe::ProcFs));
    assert_eq!(p.attach_process(7), vec![ProcessStep::AddTracedPid(7)]);
    let p = Probes::new(&[], None, config(true), false, false);
    assert!(!p.is_running(Probe::FileWatch));
    assert_eq!(
        p.attach_process(7),
        vec![ProcessStep::AttachSsl(7), ProcessStep::AddTracedPid(7)]
    );
}

#[test]
fn records_are_routed_by_their_first_word() {
    let p = Probes::new(&[], None, config(true), true, false);
    let l = layouts();
    let rec = |source: u32, len: usize| {
        let mut d = vec![0u8; len];
        put(&mut d, 0, &source.to_le_bytes());
        d
    };
    assert_eq!(p.route_record(&[1, 0, 0], &l), Route::Drop);
    assert_eq!(p.route_record(&rec(1, 8), &l), Route::Decode(Probe::ProcTrace));
    assert_eq!(p.route_record(&rec(1, 7), &l), Route::Drop);
    assert_eq!(p.route_record(&rec(10, 64), &l), Route::Unknown(10));
    // DNS capture was not asked for.
    assert_eq!(p.route_record(&rec(6, 200), &l), Route::Drop);
    assert_eq!(p.route_record(&rec(9, 64), &l), Route::Decode(Probe::ProcSig));
}

#[test]
fn failed_opens_are_held_back_until_they_are_flushed() {
    let mut p = Probes::new(&[], None, config(true), false, true);
    let l = layouts();
    let failed = procfs_record(8, -2, 7, "/lib/x.so", "");
    assert!(matches!(p.on_record(&failed, &l, &clock), Handled::Nothing));
    assert!(matches!(p.on_record(&failed, &l, &clock), Handled::Nothing));
    match p.on_record(&procfs_record(1, 0, 7, "/a", ""), &l, &clock) {
        Handled::Send(ProbeEvent::ProcFs(e)) => assert_eq!(e.op_name(), "delete"),
        other => panic!("got: {:?}", other),
    }
    let flushed = p.flush_open_errors();
    assert_eq!(flushed.len(), 1);
    assert_eq!((flushed[0].count, flushed[0].path.as_str()), (2, "x.so"));
    assert!(p.flush_open_errors().is_empty());
    match p.on_record(&udpdns_record(&query(&["h"])), &l, &clock) {
        Handled::Send(ProbeEvent::UdpDns(e)) => assert_eq!(e.domain, "h"),
        other => panic!("got: {:?}", other),
    }
    let mut other = vec![0u8; 8];
    other[0] = 4;
    assert!(matches!(p.on_record(&other, &l, &clock), Handled::Nothing));
    other[0] = 5;
    assert!(matches!(p.on_record(&other, &l, &clock), Handled::DecodeAs(Probe::FileWrite)));
    other[0] = 77;
    assert!(matches!(p.on_record(&other, &l, &clock), Handled::Unknown(77)));
}

#[test]
fn only_maps_of_running_probes_are_drained() {
    let p = Probes::new(&[], None, config(true), false, false);
    assert_eq!(
        p.flush_plan(0, true, false, true),
        Some(FlushPlan { interval_ms: 1, connect: true, fork: false, open: true, open_errors: true })
    );
    let none = Probes::new(&[], None, config(false), false, false);
    assert_eq!(none.flush_plan(500, true, true, true), None);
}

#[test]
fn layouts_fit_where_every_field_lies_within_its_record() {
    assert!(layouts().fits() && open_layout().fits() && tcp_layout().fits());
    let mut l = procfs_layout();
    l.size = 99;
    assert!(!l.fits());
    let mut l = procfs_layout();
    l.pid = usize::MAX;
    assert!(!l.fits());
    let mut l = layouts();
    l.udpdns.payload = field(usize::MAX, 2);
    assert!(!l.fits());
}

#[test]
fn polling_stops_when_it_is_told_to_or_fails() {
    assert_eq!(poll_step(false, None), PollStep::Poll);
    assert_eq!(poll_step(false, Some(PollResult::Polled)), PollStep::Poll);
    assert_eq!(poll_step(true, Some(PollResult::Polled)), PollStep::Stop);
    assert_eq!(poll_step(false, Some(PollResult::Interrupted)), PollStep::Stop);
    assert_eq!(poll_step(true, Some(PollResult::Failed)), PollStep::StopFailed);
}

#[test]
fn probes_say_what_went_wrong() {
    assert_eq!(create_failure(Probe::ProcTrace), "failed to create proctrace");
    assert!(attach_failure(Probe::UdpDns).contains("udpdns"));
    assert!(disabled_note(Probe::UdpDns).len() > 0);
}
