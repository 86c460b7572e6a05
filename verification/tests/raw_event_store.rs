use anolisa::agentsight::pid_table::{parse_status_ppid, PidTable};
use anolisa::agentsight::procfs::ProcFsEvent;
use anolisa::agentsight::procnet::ProcNetEvent;
use anolisa::agentsight::procsig::ProcSigEvent;
use anolisa::agentsight::raw_event::{
    format_addr, format_family, header_comm, ns_to_unix_ms, FileWatchEvent, FileWriteEvent,
    ProcEventHeader, RawEvent,
};
use anolisa::agentsight::raw_events::{
    event_to_row, expiry_cutoff_ms, query_by_cgroup, query_since, query_summary, query_tree,
    query_window, remaining_timeout, row_to_event, stats, summarize, BatchWriter, EventRow, Query,
    Received, SqlValue, SummaryRow, DDL, DELETE_EXPIRED, INSERT,
};
use anolisa::agentsight::record::ByteOrder;
use anolisa::agentsight::serve::ServeCommand;
use anolisa::agentsight::tcp::{TcpDerivedEvent, TcpDiagOp};
use anolisa::agentsight::tcpdiag::TcpDiagEvent;
use anolisa::agentsight::udpdns::UdpDnsEvent;

// ── stored forms ──

fn procfs_event(new_path: &str, count: u64) -> ProcFsEvent {
    ProcFsEvent {
        pid: 1,
        tid: 2,
        uid: 3,
        timestamp_ns: 5_999_999,
        cgroup_id: 4,
        op: 2,
        ret: -2,
        comm: "mv".to_string(),
        path: "/a\"b".to_string(),
        new_path: new_path.to_string(),
        count,
        total_bytes: 12,
        first_ts: 0,
        last_ts: 0,
    }
}

#[test]
fn filesystem_event_is_stored() {
    let r = RawEvent::from_procfs(&procfs_event("/c", 0), 9);
    assert_eq!((r.source.as_str(), r.op.as_str(), r.ret), ("procfs", "rename", -2));
    assert_eq!((r.pid, r.ppid, r.tid, r.uid, r.cgroup_id), (1, 9, 2, 3, 4));
    assert_eq!((r.timestamp_ms, r.count, r.comm.as_str()), (5, 1, "mv"));
    assert_eq!(r.id, None);
    assert_eq!(r.data_json, r#"{"new_path":"/c","path":"/a\"b","total_bytes":12}"#);
    let r = RawEvent::from_procfs(&procfs_event("", 7), 9);
    assert_eq!(r.data_json, r#"{"path":"/a\"b","total_bytes":12}"#);
    assert_eq!(r.count, 7);
}

#[test]
fn network_event_is_stored() {
    let e = ProcNetEvent {
        pid: 1,
        tid: 2,
        uid: 3,
        timestamp_ns: 0,
        cgroup_id: 4,
        op: 4,
        ret: 0,
        comm: "curl".to_string(),
        port: 0,
        addr: 0,
        family: 2,
        count: 3,
        first_ts: 0,
        last_ts: 0,
        last_ret: -115,
        dst_addr: u32::from_le_bytes([10, 1, 2, 3]),
        dst_port: 443,
    };
    let r = RawEvent::from_procnet(&e, 8, ByteOrder::Little);
    assert_eq!((r.source.as_str(), r.op.as_str(), r.count), ("procnet", "connect", 3));
    assert_eq!(
        r.data_json,
        r#"{"addr":"0.0.0.0","dst_addr":"10.1.2.3","dst_port":443,"family":"AF_INET(IPv4)","port":0}"#
    );
    let swapped = RawEvent::from_procnet(&e, 8, ByteOrder::Big);
    assert!(swapped.data_json.contains("\"dst_addr\":\"3.2.1.10\""));
}

#[test]
fn signal_event_is_stored() {
    let e = ProcSigEvent {
        pid: 1,
        tid: 2,
        uid: 3,
        timestamp_ns: 0,
        cgroup_id: 4,
        op: 3,
        ret: 0,
        comm: "kill".to_string(),
        target_pid: 77,
        signal: 15,
        count: 0,
        first_ts: 0,
        last_ts: 0,
    };
    let r = RawEvent::from_procsig(&e, 8);
    assert_eq!((r.source.as_str(), r.op.as_str(), r.count), ("procsig", "kill", 1));
    assert_eq!(r.data_json, r#"{"signal":15,"target_pid":77}"#);
}

fn header() -> ProcEventHeader {
    ProcEventHeader {
        pid: 1,
        tid: 2,
        uid: 3,
        timestamp_ns: 2_000_000,
        cgroup_id: 4,
        comm: b"bash\0\0".to_vec(),
    }
}

#[test]
fn process_events_are_stored() {
    assert_eq!(header_comm(&header()), "bash");
    let r = RawEvent::from_proctrace_exec(&header(), "/bin/ls", "ls -l", 8);
    assert_eq!((r.source.as_str(), r.op.as_str(), r.ret), ("proctrace", "exec", 0));
    assert_eq!(r.data_json, r#"{"args":"ls -l","filename":"/bin/ls"}"#);
    assert_eq!((r.comm.as_str(), r.timestamp_ms), ("bash", 2));
    let r = RawEvent::from_proctrace_exec_fail(&header(), -2, 1, "/bin/nope", 8);
    assert_eq!((r.op.as_str(), r.ret), ("execve_fail", -2));
    assert_eq!(r.data_json, r#"{"errno":2,"filename":"/bin/nope","flags":1}"#);
    let r = RawEvent::from_proctrace_exit(&header(), 3, 8);
    assert_eq!((r.op.as_str(), r.count), ("exit", 1));
    assert_eq!(r.data_json, r#"{"exit_code":3}"#);
}

#[test]
fn file_events_are_stored() {
    let w = FileWatchEvent {
        pid: 1,
        tid: 2,
        uid: 3,
        timestamp_ns: 0,
        cgroup_id: 4,
        comm: "vi".to_string(),
        filename: "/x".to_string(),
        flags: -1,
    };
    let r = RawEvent::from_filewatch(&w, 8);
    assert_eq!(r.source, "filewatch");
    assert_eq!(r.data_json, r#"{"filename":"/x","flags":-1}"#);
    let w = FileWriteEvent {
        pid: 1,
        tid: 2,
        uid: 3,
        timestamp_ns: 0,
        cgroup_id: 4,
        comm: "vi".to_string(),
        filename: "/x".to_string(),
        write_size: 10,
    };
    let r = RawEvent::from_filewrite(&w, 8);
    assert_eq!(r.source, "filewrite");
    assert_eq!(r.data_json, r#"{"filename":"/x","write_size":10}"#);
}

#[test]
fn dns_event_is_stored() {
    let e = UdpDnsEvent {
        pid: 1,
        tid: 2,
        uid: 3,
        timestamp_ns: 0,
        cgroup_id: 4,
        comm: "dig".to_string(),
        domain: "host.lan".to_string(),
    };
    let r = RawEvent::from_udpdns(&e, 8);
    assert_eq!(r.source, "udpdns");
    assert_eq!(r.data_json, r#"{"domain":"host.lan"}"#);
}

fn v6(bytes: &[u8]) -> [u8; 16] {
    let mut a = [0u8; 16];
    a[..bytes.len()].copy_from_slice(bytes);
    a
}

#[test]
fn tcp_events_are_stored() {
    let mut saddr = v6(&[0xfe, 0x80]);
    saddr[15] = 1;
    let e = TcpDiagEvent {
        op: TcpDiagOp::ResetRecv,
        timestamp_ns: 0,
        cgroup_id: 4,
        sock_cookie: u64::MAX,
        pid: 1,
        comm: "x".to_string(),
        family: 10,
        sport: 1,
        dport: 2,
        saddr,
        daddr: [0; 16],
        segs_out: 3,
        total_retrans: 4,
    };
    let r = RawEvent::from_tcpdiag(&e, 8);
    assert_eq!((r.source.as_str(), r.op.as_str()), ("tcpdiag", "tcp_reset_recv"));
    assert_eq!(
        r.data_json,
        "{\"daddr\":\"::\",\"dport\":2,\"family\":\"AF_INET6(IPv6)\",\"saddr\":\"fe80::1\",\
         \"segs_out\":3,\"sock_cookie\":18446744073709551615,\"sport\":1,\"total_retrans\":4}"
    );
    let d = TcpDerivedEvent::HighRetrans {
        cookie: 5,
        cgroup_id: 4,
        pid: 1,
        comm: "x".to_string(),
        timestamp_ns: 9_000_000,
        family: 2,
        sport: 1,
        dport: 2,
        saddr: v6(&[127, 0, 0, 1]),
        daddr: v6(&[10, 0, 0, 2]),
        retrans_count: 6,
        window_ms: 10_000,
        total_retrans: 7,
    };
    let r = RawEvent::from_tcpdiag_derived(&d, 8);
    assert_eq!((r.op.as_str(), r.count, r.timestamp_ms), ("tcp_high_retrans", 6, 9));
    assert!(r.data_json.contains("\"daddr\":\"10.0.0.2\""));
    assert!(r.data_json.contains("\"window_ms\":10000"));
}

#[test]
fn addresses_are_written_as_usual() {
    assert_eq!(format_addr(2, &v6(&[192, 168, 0, 1])), "192.168.0.1");
    assert_eq!(format_addr(7, &[1; 16]), "");
    let cases: [[u8; 16]; 6] = [
        [0; 16],
        v6(&[0x20, 0x01, 0x0d, 0xb8]),
        [0x20, 0x01, 0, 0, 0, 0, 0, 1, 0, 0, 0, 0, 0, 0, 0, 1],
        [0, 0, 0, 0, 0, 0, 0, 0, 0, 0, 0xff, 0xff, 10, 0, 0, 1],
        [0, 1, 0, 2, 0, 3, 0, 4, 0, 5, 0, 6, 0, 7, 0, 8],
        [0, 1, 0, 0, 0, 3, 0, 4, 0, 5, 0, 6, 0, 7, 0, 8],
    ];
    let texts: Vec<String> = cases.iter().map(|a| format_addr(10, a)).collect();
    assert_eq!(
        texts,
        vec![
            "::",
            "2001:db8::",
            "2001:0:0:1::1",
            "::ffff:10.0.0.1",
            "1:2:3:4:5:6:7:8",
            "1:0:3:4:5:6:7:8"
        ]
    );
    assert_eq!(format_family(2), "AF_INET(IPv4)");
    assert_eq!(format_family(0), "AF_UNKNOWN");
    assert_eq!(ns_to_unix_ms(u64::MAX), 18_446_744_073_709);
}

// ── the table ──

fn event(source: &str, op: &str, pid: u32, ppid: u32, ms: i64) -> RawEvent {
    RawEvent {
        id: None,
        timestamp_ms: ms,
        source: source.to_string(),
        pid,
        ppid,
        tid: pid,
        uid: 0,
        comm: "c".to_string(),
        cgroup_id: u64::MAX,
        op: op.to_string(),
        ret: -1,
        data_json: "{}".to_string(),
        count: 2,
    }
}

fn open() -> rusqlite::Connection {
    let conn = rusqlite::Connection::open_in_memory().unwrap();
    conn.execute_batch(DDL).unwrap();
    conn
}

fn insert(conn: &rusqlite::Connection, e: &RawEvent) {
    let r = event_to_row(e);
    let n = conn
        .execute(
            INSERT,
            (
                r.timestamp_ms,
                r.source,
                r.pid,
                r.ppid,
                r.tid,
                r.uid,
                r.comm,
                r.cgroup_id,
                r.op,
                r.ret,
                r.data_json,
                r.count,
            ),
        )
        .unwrap();
    assert_eq!(n, 1);
}

fn values(q: &Query) -> Vec<rusqlite::types::Value> {
    q.values
        .iter()
        .map(|v| match v {
            SqlValue::Integer(n) => rusqlite::types::Value::Integer(*n),
            SqlValue::Text(s) => rusqlite::types::Value::Text(s.clone()),
        })
        .collect()
}

fn select(conn: &rusqlite::Connection, q: &Query) -> Vec<RawEvent> {
    let mut stmt = conn.prepare(&q.sql).unwrap();
    let rows = stmt
        .query_map(rusqlite::params_from_iter(values(q)), |row| {
            Ok(row_to_event(
                row.get(0)?,
                EventRow {
                    timestamp_ms: row.get(1)?,
                    source: row.get(2)?,
                    pid: row.get(3)?,
                    ppid: row.get(4)?,
                    tid: row.get(5)?,
                    uid: row.get(6)?,
                    comm: row.get(7)?,
                    cgroup_id: row.get(8)?,
                    op: row.get(9)?,
                    ret: row.get(10)?,
                    data_json: row.get(11)?,
                    count: row.get(12)?,
                },
            ))
        })
        .unwrap();
    rows.map(|r| r.unwrap()).collect()
}

fn filled() -> rusqlite::Connection {
    let conn = open();
    insert(&conn, &event("procfs", "open", 10, 1, 100));
    insert(&conn, &event("procnet", "connect", 11, 10, 200));
    insert(&conn, &event("procfs", "write", 12, 11, 300));
    insert(&conn, &event("procfs", "open", 20, 1, 400));
    conn
}

#[test]
fn what_is_written_is_read_back() {
    let conn = open();
    insert(&conn, &event("procfs", "open", u32::MAX, 1, -5));
    let back = select(&conn, &query_since(0, 10, None, None));
    assert_eq!(back.len(), 1);
    let e = &back[0];
    assert_eq!(e.id, Some(1));
    assert_eq!((e.pid, e.tid, e.cgroup_id, e.ret), (u32::MAX, u32::MAX, u64::MAX, -1));
    assert_eq!((e.timestamp_ms, e.count, e.data_json.as_str()), (-5, 2, "{}"));
    assert_eq!((e.source.as_str(), e.op.as_str(), e.comm.as_str()), ("procfs", "open", "c"));
}

#[test]
fn incremental_pull_takes_both_filters() {
    let conn = filled();
    let ids = |q: Query| -> Vec<i64> { select(&conn, &q).iter().map(|e| e.id.unwrap()).collect() };
    assert_eq!(ids(query_since(0, 10, None, None)), vec![1, 2, 3, 4]);
    assert_eq!(ids(query_since(1, 2, None, None)), vec![2, 3]);
    assert_eq!(ids(query_since(0, 10, Some("procfs"), None)), vec![1, 3, 4]);
    assert_eq!(ids(query_since(0, 10, None, Some(11))), vec![2]);
    assert_eq!(ids(query_since(0, 10, Some("procfs"), Some(11))), Vec::<i64>::new());
}

#[test]
fn windows_trees_and_groups_are_selected() {
    let conn = filled();
    let ids = |q: Query| -> Vec<i64> { select(&conn, &q).iter().map(|e| e.id.unwrap()).collect() };
    assert_eq!(ids(query_window(150, 400, None)), vec![2, 3, 4]);
    assert_eq!(ids(query_window(150, 400, Some("procfs"))), vec![3, 4]);
    // 10 started 11, which started 12.
    assert_eq!(ids(query_tree(10, 0, 1000)), vec![1, 2, 3]);
    assert_eq!(ids(query_tree(10, 150, 250)), vec![2]);
    assert_eq!(ids(query_by_cgroup(u64::MAX, 0, 1000, None, 3)), vec![1, 2, 3]);
    assert_eq!(ids(query_by_cgroup(u64::MAX, 0, 1000, Some("procnet"), 9)), vec![2]);
    assert_eq!(ids(query_by_cgroup(7, 0, 1000, None, 9)), Vec::<i64>::new());
}

#[test]
fn summary_counts_by_source_and_operation() {
    let conn = filled();
    let q = query_summary(None, Some(u64::MAX), 0, 1000).unwrap();
    let mut stmt = conn.prepare(&q.sql).unwrap();
    let rows: Vec<SummaryRow> = stmt
        .query_map(rusqlite::params_from_iter(values(&q)), |row| {
            Ok(SummaryRow { source: row.get(0)?, op: row.get(1)?, total: row.get(2)? })
        })
        .unwrap()
        .map(|r| r.unwrap())
        .collect();
    let s = summarize(rows);
    assert_eq!(s.len(), 2);
    assert_eq!(s.total("procfs", "open"), Some(4));
    assert_eq!(s.total("procfs", "write"), Some(2));
    assert_eq!(s.total("procnet", "connect"), Some(2));
    assert_eq!(s.total("procnet", "open"), None);
    assert_eq!(s.total("x", "open"), None);
    let names: Vec<&str> = (0..s.len()).map(|i| s.source_at(i).0).collect();
    assert!(names.contains(&"procfs") && names.contains(&"procnet"));
    let ops: usize = (0..s.len()).map(|i| s.source_at(i).1.len()).sum();
    assert_eq!(ops, 3);
    assert!(query_summary(None, None, 0, 1).is_none());
    assert!(query_summary(Some(1), None, 0, 1).is_some());
}

#[test]
fn later_row_of_the_same_operation_wins() {
    let row = |total: i64| SummaryRow { source: "a".to_string(), op: "b".to_string(), total };
    assert_eq!(summarize(vec![row(1), row(5)]).total("a", "b"), Some(5));
    assert_eq!(summarize(vec![]).len(), 0);
}

#[test]
fn statistics_take_missing_numbers_as_none() {
    let s = stats(Some(3), Some(1), None, vec![("a".to_string(), 2), ("b".to_string(), 1)]);
    assert_eq!((s.total, s.oldest_ms, s.newest_ms), (3, Some(1), None));
    assert_eq!(s.by_source.get("a"), Some(&2));
    assert_eq!(s.by_source.len(), 2);
    assert_eq!(stats(None, None, None, vec![]).total, 0);
}

#[test]
fn expired_rows_are_deleted() {
    let conn = filled();
    // A time to live of one second at 1250 ms leaves what is not older than 250 ms.
    let cutoff = expiry_cutoff_ms(1_250, 1);
    assert_eq!(cutoff, 250);
    assert_eq!(conn.execute(DELETE_EXPIRED, [cutoff]).unwrap(), 2);
    assert_eq!(select(&conn, &query_since(0, 10, None, None)).len(), 2);
    assert_eq!(expiry_cutoff_ms(i64::MIN, 1), i64::MIN);
    // A longer time to live never reaches into the future.
    assert_eq!(expiry_cutoff_ms(1_250, u64::MAX), i64::MIN);
    assert_eq!(expiry_cutoff_ms(0, 9_223_372_036_854_775), -9_223_372_036_854_775_000);
}

// ── the writer ──

#[test]
fn batches_are_written_when_full_or_when_time_is_up() {
    let mut w = BatchWriter::new(2);
    let next = |w: &mut BatchWriter, r: Received| {
        let s = w.on_receive(r);
        (s.write.map(|b| b.len()), s.restart_interval, s.stop)
    };
    let e = || Received::Event(event("s", "o", 1, 0, 0));
    assert_eq!(next(&mut w, Received::Timeout), (None, true, false));
    assert_eq!(next(&mut w, e()), (None, false, false));
    assert_eq!(next(&mut w, e()), (Some(2), true, false));
    assert_eq!(next(&mut w, e()), (None, false, false));
    assert_eq!(next(&mut w, Received::Timeout), (Some(1), true, false));
    assert_eq!(next(&mut w, e()), (None, false, false));
    assert_eq!(next(&mut w, Received::Disconnected), (Some(1), false, true));
    assert_eq!(next(&mut w, Received::Disconnected), (None, false, true));
}

#[test]
fn every_event_is_written_once_and_in_order() {
    let mut w = BatchWriter::new(3);
    let mut written: Vec<u32> = Vec::new();
    let take = |s: Option<Vec<RawEvent>>, out: &mut Vec<u32>| {
        for e in s.unwrap_or_default() {
            out.push(e.pid);
        }
    };
    for i in 0..10 {
        let s = w.on_receive(Received::Event(event("s", "o", i, 0, 0)));
        take(s.write, &mut written);
        if i == 4 {
            let s = w.on_receive(Received::Timeout);
            take(s.write, &mut written);
        }
    }
    let s = w.on_receive(Received::Disconnected);
    take(s.write, &mut written);
    assert_eq!(written, (0..10).collect::<Vec<u32>>());
}

#[test]
fn waiting_ends_with_the_interval() {
    assert_eq!(remaining_timeout(30, 100), 70);
    assert_eq!(remaining_timeout(100, 100), 0);
    assert_eq!(remaining_timeout(200, 100), 0);
}

// ── processes ──

#[test]
fn parent_is_read_out_of_the_status() {
    assert_eq!(parse_status_ppid("Name:\tbash\nPid:\t7\nPPid:\t42\nUid:\t0\n"), 42);
    assert_eq!(parse_status_ppid("PPid: +5 "), 5);
    assert_eq!(parse_status_ppid("PPid:\tx\nPPid:\t3\n"), 0);
    assert_eq!(parse_status_ppid("PPid:\t4294967296\n"), 0);
    assert_eq!(parse_status_ppid(""), 0);
}

#[test]
fn parents_are_remembered() {
    let mut t = PidTable::new();
    assert_eq!(t.cached_ppid(5), None);
    assert_eq!(t.lookup_ppid(5, Some("PPid:\t4\n"), Some("sh\n")), 4);
    // What was found stays, whatever is said later.
    assert_eq!(t.lookup_ppid(5, Some("PPid:\t9\n"), None), 4);
    assert_eq!(t.cached_ppid(5), Some(4));
    assert_eq!(t.lookup_ppid(6, None, None), 0);
    t.update_from_exec(5, 77, "ls", 1, 1_000);
    assert_eq!(t.cached_ppid(5), Some(77));
    t.update_from_exec(8, 7, "ls", 1, 5_000);
    t.gc_stale(2_000);
    assert_eq!(t.cached_ppid(5), None);
    assert_eq!(t.cached_ppid(8), Some(7));
}

#[test]
fn looking_one_process_up_leaves_the_others() {
    let mut t = PidTable::new();
    t.update_from_exec(1, 10, "a", 0, 0);
    assert_eq!(t.lookup_ppid(2, Some("PPid:\t20\n"), None), 20);
    assert_eq!(t.lookup_ppid(1, Some("PPid:\t99\n"), None), 10);
}

// ── the server ──

#[test]
fn raw_events_lie_beside_the_database() {
    let mut c = ServeCommand::default();
    assert_eq!((c.host.as_str(), c.port), ("127.0.0.1", 7396));
    let p = c.execute("/var/lib/agentsight/genai.db");
    assert_eq!(p.db_path, "/var/lib/agentsight/genai.db");
    assert_eq!(p.raw_events_db_path.as_deref(), Some("/var/lib/agentsight/raw_events.db"));
    c.db = Some("/".to_string());
    assert_eq!(c.execute("/x/y.db").raw_events_db_path, None);
    c.db = Some("local.db".to_string());
    assert_eq!(c.execute("/x/y.db").raw_events_db_path.as_deref(), Some("raw_events.db"));
    c.raw_events_db = Some("/z.db".to_string());
    assert_eq!(c.execute("/x/y.db").raw_events_db_path.as_deref(), Some("/z.db"));
}
