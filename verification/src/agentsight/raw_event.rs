//! The one form in which events of all probes are stored.

use vstd::prelude::*;

use super::netaddr;
use super::netaddr::{format_ipv4_word, push_ipv4, push_ipv6};
use super::procfs;
use super::procfs::ProcFsEvent;
use super::procnet;
use super::procnet::ProcNetEvent;
use super::procsig;
use super::procsig::ProcSigEvent;
use super::record;
use super::record::{read_text, ByteOrder};
use super::tcp::TcpDerivedEvent;
use super::tcpdiag;
use super::tcpdiag::TcpDiagEvent;
use super::udpdns::UdpDnsEvent;
use crate::json;
use crate::json::JsonObject;

verus! {

/// Header of a process event, as far as it is stored.
#[derive(Clone, Debug)]
pub struct ProcEventHeader {
    pub pid: u32,
    pub tid: u32,
    pub uid: u32,
    /// Unix epoch nanoseconds.
    pub timestamp_ns: u64,
    pub cgroup_id: u64,
    /// Zero-terminated.
    pub comm: Vec<u8>,
}

/// A file that was opened.
#[derive(Clone, Debug)]
pub struct FileWatchEvent {
    pub pid: u32,
    pub tid: u32,
    pub uid: u32,
    /// Unix epoch nanoseconds.
    pub timestamp_ns: u64,
    pub cgroup_id: u64,
    pub comm: String,
    pub filename: String,
    pub flags: i64,
}

/// A file that was written.
#[derive(Clone, Debug)]
pub struct FileWriteEvent {
    pub pid: u32,
    pub tid: u32,
    pub uid: u32,
    /// Unix epoch nanoseconds.
    pub timestamp_ns: u64,
    pub cgroup_id: u64,
    pub comm: String,
    pub filename: String,
    pub write_size: u64,
}

/// An event as it is stored.
#[derive(Clone, Debug)]
pub struct RawEvent {
    /// Number of the row; `None` before insertion.
    pub id: Option<i64>,
    /// Unix millisecond timestamp.
    pub timestamp_ms: i64,
    /// Name of the probe.
    pub source: String,
    pub pid: u32,
    /// Parent process; 0 when unknown.
    pub ppid: u32,
    pub tid: u32,
    pub uid: u32,
    pub comm: String,
    pub cgroup_id: u64,
    /// Human-readable operation name.
    pub op: String,
    pub ret: i32,
    /// JSON text of what is particular to the probe.
    pub data_json: String,
    /// How many calls the event stands for; 1 where it was not aggregated.
    pub count: u64,
}

/// Who an event is about.
pub ghost struct Subject {
    pub timestamp_ns: u64,
    pub pid: u32,
    pub ppid: u32,
    pub tid: u32,
    pub uid: u32,
    pub comm: Seq<char>,
    pub cgroup_id: u64,
}

/// Milliseconds of a nanosecond timestamp.
pub open spec fn unix_ms(unix_ns: u64) -> int {
    unix_ns as int / 1_000_000
}

impl RawEvent {
    /// The stored form of an event that is not stored yet.
    pub open spec fn stores(
        self,
        who: Subject,
        source: Seq<char>,
        op: Seq<char>,
        ret: i32,
        data: Map<Seq<char>, json::JsonValue>,
        count: u64,
    ) -> bool {
        &&& self.id is None
        &&& self.timestamp_ms == unix_ms(who.timestamp_ns)
        &&& self.source@ == source
        &&& self.pid == who.pid
        &&& self.ppid == who.ppid
        &&& self.tid == who.tid
        &&& self.uid == who.uid
        &&& self.comm@ == who.comm
        &&& self.cgroup_id == who.cgroup_id
        &&& self.op@ == op
        &&& self.ret == ret
        &&& self.data_json@ == json::json_text(data)
        &&& self.count == count
    }
}

/// A count of 0 stands for a single call.
pub open spec fn at_least_one(count: u64) -> u64 {
    if count > 0 {
        count
    } else {
        1
    }
}

/// Converts a nanosecond timestamp to milliseconds.
pub fn ns_to_unix_ms(unix_ns: u64) -> (r: i64)
    ensures
        r == unix_ms(unix_ns),
        r * 1_000_000 <= unix_ns < (r + 1) * 1_000_000,
{
    (unix_ns / 1_000_000) as i64
}

/// The command name in a process header.
pub fn header_comm(header: &ProcEventHeader) -> (r: String)
    ensures
        r@ == record::field_text(header.comm@),
{
    read_text(&header.comm)
}

/// The text of an address of the given family; empty for an unknown one.
pub open spec fn addr_text(family: u16, raw: Seq<u8>) -> Seq<char> {
    if family == 2 {
        netaddr::dotted_quad(raw[0], raw[1], raw[2], raw[3])
    } else if family == 10 {
        netaddr::ipv6_text(raw)
    } else {
        Seq::empty()
    }
}

/// The text of an address of the given family; empty for an unknown one.
pub fn format_addr(family: u16, raw: &[u8; 16]) -> (r: String)
    ensures
        r@ == addr_text(family, raw@),
        family == 2 ==> r@ == netaddr::dotted_quad(raw@[0], raw@[1], raw@[2], raw@[3]),
        family == 10 ==> r@ == netaddr::ipv6_text(raw@),
        family != 2 && family != 10 ==> r@.len() == 0,
{
    let mut out = String::new();
    if family == 2 {
        push_ipv4(&mut out, raw[0], raw[1], raw[2], raw[3]);
    } else if family == 10 {
        push_ipv6(&mut out, raw);
    }
    assert(out@ =~= addr_text(family, raw@));
    out
}

/// Name of an address family.
pub fn format_family(family: u16) -> (r: &'static str)
    ensures
        r@ == tcpdiag::family_text(family),
        family == 2 ==> r@ == "AF_INET(IPv4)"@,
        family == 10 ==> r@ == "AF_INET6(IPv6)"@,
        family != 2 && family != 10 ==> r@ == "AF_UNKNOWN"@,
{
    match family {
        2 => "AF_INET(IPv4)",
        10 => "AF_INET6(IPv6)",
        _ => "AF_UNKNOWN",
    }
}

/// What is stored of a filesystem event: the new path only where there is one.
pub open spec fn procfs_data(e: ProcFsEvent) -> Map<Seq<char>, json::JsonValue> {
    if e.new_path@.len() == 0 {
        map![
            "path"@ => json::JsonValue::Text(e.path@),
            "total_bytes"@ => json::JsonValue::Number(e.total_bytes as int),
        ]
    } else {
        map![
            "path"@ => json::JsonValue::Text(e.path@),
            "new_path"@ => json::JsonValue::Text(e.new_path@),
            "total_bytes"@ => json::JsonValue::Number(e.total_bytes as int),
        ]
    }
}

/// What is stored of a network event.
pub open spec fn procnet_data(e: ProcNetEvent, order: ByteOrder) -> Map<
    Seq<char>,
    json::JsonValue,
> {
    map![
        "addr"@ => json::JsonValue::Text(netaddr::ipv4_word_text(e.addr, order)),
        "port"@ => json::JsonValue::Number(e.port as int),
        "dst_addr"@ => json::JsonValue::Text(netaddr::ipv4_word_text(e.dst_addr, order)),
        "dst_port"@ => json::JsonValue::Number(e.dst_port as int),
        "family"@ => json::JsonValue::Text(tcpdiag::family_text(e.family)),
    ]
}

/// What is stored of a TCP event.
pub open spec fn tcpdiag_data(e: TcpDiagEvent) -> Map<Seq<char>, json::JsonValue> {
    map![
        "sock_cookie"@ => json::JsonValue::Number(e.sock_cookie as int),
        "family"@ => json::JsonValue::Text(tcpdiag::family_text(e.family)),
        "saddr"@ => json::JsonValue::Text(addr_text(e.family, e.saddr@)),
        "sport"@ => json::JsonValue::Number(e.sport as int),
        "daddr"@ => json::JsonValue::Text(addr_text(e.family, e.daddr@)),
        "dport"@ => json::JsonValue::Number(e.dport as int),
        "segs_out"@ => json::JsonValue::Number(e.segs_out as int),
        "total_retrans"@ => json::JsonValue::Number(e.total_retrans as int),
    ]
}

/// What is stored of a burst of retransmits.
pub open spec fn derived_data(e: TcpDerivedEvent) -> Map<Seq<char>, json::JsonValue> {
    map![
        "sock_cookie"@ => json::JsonValue::Number(e->cookie as int),
        "family"@ => json::JsonValue::Text(tcpdiag::family_text(e->family)),
        "saddr"@ => json::JsonValue::Text(addr_text(e->family, e->saddr@)),
        "sport"@ => json::JsonValue::Number(e->sport as int),
        "daddr"@ => json::JsonValue::Text(addr_text(e->family, e->daddr@)),
        "dport"@ => json::JsonValue::Number(e->dport as int),
        "retrans_count"@ => json::JsonValue::Number(e->retrans_count as int),
        "window_ms"@ => json::JsonValue::Number(e->window_ms as int),
        "total_retrans"@ => json::JsonValue::Number(e->total_retrans as int),
    ]
}

/// Who a process event is about.
pub open spec fn header_subject(h: ProcEventHeader, ppid: u32) -> Subject {
    Subject {
        timestamp_ns: h.timestamp_ns,
        pid: h.pid,
        ppid,
        tid: h.tid,
        uid: h.uid,
        comm: record::field_text(h.comm@),
        cgroup_id: h.cgroup_id,
    }
}

impl RawEvent {
    /// Stores a filesystem event.
    pub fn from_procfs(e: &ProcFsEvent, ppid: u32) -> (r: Self)
        ensures
            r.stores(
                Subject {
                    timestamp_ns: e.timestamp_ns,
                    pid: e.pid,
                    ppid,
                    tid: e.tid,
                    uid: e.uid,
                    comm: e.comm@,
                    cgroup_id: e.cgroup_id,
                },
                "procfs"@,
                procfs::fs_op_name(e.op),
                e.ret,
                procfs_data(*e),
                at_least_one(e.count),
            ),
            r.id is None,
            r.source@ == "procfs"@,
            r.timestamp_ms == e.timestamp_ns / 1_000_000,
            r.pid == e.pid,
            r.ppid == ppid,
            r.tid == e.tid,
            r.uid == e.uid,
            r.comm@ == e.comm@,
            r.cgroup_id == e.cgroup_id,
            r.op@ == procfs::fs_op_name(e.op),
            r.ret == e.ret,
            r.count == (if e.count == 0 { 1 } else { e.count }),
            e.new_path@.len() == 0 ==> r.data_json@ == json::json_text(
                map![
                    "path"@ => json::JsonValue::Text(e.path@),
                    "total_bytes"@ => json::JsonValue::Number(e.total_bytes as int),
                ],
            ),
            e.new_path@.len() > 0 ==> r.data_json@ == json::json_text(
                map![
                    "path"@ => json::JsonValue::Text(e.path@),
                    "new_path"@ => json::JsonValue::Text(e.new_path@),
                    "total_bytes"@ => json::JsonValue::Number(e.total_bytes as int),
                ],
            ),
            e.op == 7 ==> r.op@ == "write"@,
            e.op == 8 ==> r.op@ == "open"@,
    {
        let mut data = JsonObject::new();
        data.text("path", e.path.as_str());
        if e.new_path.unicode_len() != 0 {
            data.text("new_path", e.new_path.as_str());
        }
        data.unsigned("total_bytes", e.total_bytes);
        RawEvent {
            id: None,
            timestamp_ms: ns_to_unix_ms(e.timestamp_ns),
            source: "procfs".to_owned(),
            pid: e.pid,
            ppid,
            tid: e.tid,
            uid: e.uid,
            comm: e.comm.clone(),
            cgroup_id: e.cgroup_id,
            op: e.op_name().to_owned(),
            ret: e.ret,
            data_json: data.into_text(),
            count: if e.count > 0 {
                e.count
            } else {
                1
            },
        }
    }

    /// Stores a network event. `order` is the byte order in which the words
    /// that hold its addresses were read.
    pub fn from_procnet(e: &ProcNetEvent, ppid: u32, order: ByteOrder) -> (r: Self)
        ensures
            r.stores(
                Subject {
                    timestamp_ns: e.timestamp_ns,
                    pid: e.pid,
                    ppid,
                    tid: e.tid,
                    uid: e.uid,
                    comm: e.comm@,
                    cgroup_id: e.cgroup_id,
                },
                "procnet"@,
                procnet::net_op_name(e.op),
                e.ret,
                procnet_data(*e, order),
                at_least_one(e.count),
            ),
            r.id is None,
            r.source@ == "procnet"@,
            r.timestamp_ms == e.timestamp_ns / 1_000_000,
            r.pid == e.pid,
            r.ppid == ppid,
            r.tid == e.tid,
            r.uid == e.uid,
            r.comm@ == e.comm@,
            r.cgroup_id == e.cgroup_id,
            r.op@ == procnet::net_op_name(e.op),
            r.ret == e.ret,
            r.count == (if e.count == 0 { 1 } else { e.count }),
            r.data_json@ == json::json_text(
                map![
                    "addr"@ => json::JsonValue::Text(netaddr::ipv4_word_text(e.addr, order)),
                    "port"@ => json::JsonValue::Number(e.port as int),
                    "dst_addr"@ => json::JsonValue::Text(netaddr::ipv4_word_text(e.dst_addr, order)),
                    "dst_port"@ => json::JsonValue::Number(e.dst_port as int),
                    "family"@ => json::JsonValue::Text(tcpdiag::family_text(e.family)),
                ],
            ),
            e.op == 3 ==> r.op@ == "connect_error"@,
            e.op == 4 ==> r.op@ == "connect"@,
    {
        let addr = format_ipv4_word(e.addr, order);
        let dst_addr = format_ipv4_word(e.dst_addr, order);
        let mut data = JsonObject::new();
        data.text("addr", addr.as_str());
        data.unsigned("port", e.port as u64);
        data.text("dst_addr", dst_addr.as_str());
        data.unsigned("dst_port", e.dst_port as u64);
        data.text("family", format_family(e.family));
        RawEvent {
            id: None,
            timestamp_ms: ns_to_unix_ms(e.timestamp_ns),
            source: "procnet".to_owned(),
            pid: e.pid,
            ppid,
            tid: e.tid,
            uid: e.uid,
            comm: e.comm.clone(),
            cgroup_id: e.cgroup_id,
            op: e.op_name().to_owned(),
            ret: e.ret,
            data_json: data.into_text(),
            count: if e.count > 0 {
                e.count
            } else {
                1
            },
        }
    }

    /// Stores a signal or process control event.
    pub fn from_procsig(e: &ProcSigEvent, ppid: u32) -> (r: Self)
        ensures
            r.stores(
                Subject {
                    timestamp_ns: e.timestamp_ns,
                    pid: e.pid,
                    ppid,
                    tid: e.tid,
                    uid: e.uid,
                    comm: e.comm@,
                    cgroup_id: e.cgroup_id,
                },
                "procsig"@,
                procsig::sig_op_name(e.op),
                e.ret,
                map![
                    "target_pid"@ => json::JsonValue::Number(e.target_pid as int),
                    "signal"@ => json::JsonValue::Number(e.signal as int),
                ],
                at_least_one(e.count),
            ),
            r.id is None,
            r.source@ == "procsig"@,
            r.timestamp_ms == e.timestamp_ns / 1_000_000,
            r.pid == e.pid,
            r.ppid == ppid,
            r.tid == e.tid,
            r.uid == e.uid,
            r.comm@ == e.comm@,
            r.cgroup_id == e.cgroup_id,
            r.op@ == procsig::sig_op_name(e.op),
            r.ret == e.ret,
            r.count == (if e.count == 0 { 1 } else { e.count }),
            e.op == 3 ==> r.op@ == "kill"@,
            e.op == 5 ==> r.op@ == "fork"@,
    {
        let mut data = JsonObject::new();
        data.unsigned("target_pid", e.target_pid as u64);
        data.unsigned("signal", e.signal as u64);
        RawEvent {
            id: None,
            timestamp_ms: ns_to_unix_ms(e.timestamp_ns),
            source: "procsig".to_owned(),
            pid: e.pid,
            ppid,
            tid: e.tid,
            uid: e.uid,
            comm: e.comm.clone(),
            cgroup_id: e.cgroup_id,
            op: e.op_name().to_owned(),
            ret: e.ret,
            data_json: data.into_text(),
            count: if e.count > 0 {
                e.count
            } else {
                1
            },
        }
    }

    /// Stores the start of a program.
    pub fn from_proctrace_exec(
        header: &ProcEventHeader,
        filename: &str,
        args: &str,
        ppid: u32,
    ) -> (r: Self)
        ensures
            r.stores(
                header_subject(*header, ppid),
                "proctrace"@,
                "exec"@,
                0,
                map![
                    "filename"@ => json::JsonValue::Text(filename@),
                    "args"@ => json::JsonValue::Text(args@),
                ],
                1,
            ),
            r.id is None,
            r.source@ == "proctrace"@,
            r.timestamp_ms == header.timestamp_ns / 1_000_000,
            r.pid == header.pid,
            r.ppid == ppid,
            r.tid == header.tid,
            r.uid == header.uid,
            r.comm@ == record::field_text(header.comm@),
            r.cgroup_id == header.cgroup_id,
            r.op@ == "exec"@,
            r.ret == 0,
            r.count == 1,
    {
        let mut data = JsonObject::new();
        data.text("filename", filename);
        data.text("args", args);
        RawEvent {
            id: None,
            timestamp_ms: ns_to_unix_ms(header.timestamp_ns),
            source: "proctrace".to_owned(),
            pid: header.pid,
            ppid,
            tid: header.tid,
            uid: header.uid,
            comm: header_comm(header),
            cgroup_id: header.cgroup_id,
            op: "exec".to_owned(),
            ret: 0,
            data_json: data.into_text(),
            count: 1,
        }
    }

    /// Stores a failed start of a program. The return value is the negative
    /// error number; the data holds the positive one.
    pub fn from_proctrace_exec_fail(
        header: &ProcEventHeader,
        error_code: i32,
        flags: u32,
        filename: &str,
        ppid: u32,
    ) -> (r: Self)
        requires
            error_code != i32::MIN,
        ensures
            r.stores(
                header_subject(*header, ppid),
                "proctrace"@,
                "execve_fail"@,
                error_code,
                map![
                    "filename"@ => json::JsonValue::Text(filename@),
                    "flags"@ => json::JsonValue::Number(flags as int),
                    "errno"@ => json::JsonValue::Number(-error_code),
                ],
                1,
            ),
            r.id is None,
            r.source@ == "proctrace"@,
            r.timestamp_ms == header.timestamp_ns / 1_000_000,
            r.pid == header.pid,
            r.ppid == ppid,
            r.tid == header.tid,
            r.uid == header.uid,
            r.comm@ == record::field_text(header.comm@),
            r.cgroup_id == header.cgroup_id,
            r.op@ == "execve_fail"@,
            r.ret == error_code,
            r.count == 1,
    {
        let errno: i32 = -error_code;
        let mut data = JsonObject::new();
        data.text("filename", filename);
        data.unsigned("flags", flags as u64);
        data.signed("errno", errno as i64);
        RawEvent {
            id: None,
            timestamp_ms: ns_to_unix_ms(header.timestamp_ns),
            source: "proctrace".to_owned(),
            pid: header.pid,
            ppid,
            tid: header.tid,
            uid: header.uid,
            comm: header_comm(header),
            cgroup_id: header.cgroup_id,
            op: "execve_fail".to_owned(),
            ret: error_code,
            data_json: data.into_text(),
            count: 1,
        }
    }

    /// Stores the end of a process.
    pub fn from_proctrace_exit(header: &ProcEventHeader, exit_code: i32, ppid: u32) -> (r: Self)
        ensures
            r.stores(
                header_subject(*header, ppid),
                "proctrace"@,
                "exit"@,
                exit_code,
                map!["exit_code"@ => json::JsonValue::Number(exit_code as int)],
                1,
            ),
            r.id is None,
            r.source@ == "proctrace"@,
            r.timestamp_ms == header.timestamp_ns / 1_000_000,
            r.pid == header.pid,
            r.ppid == ppid,
            r.tid == header.tid,
            r.uid == header.uid,
            r.comm@ == record::field_text(header.comm@),
            r.cgroup_id == header.cgroup_id,
            r.op@ == "exit"@,
            r.ret == exit_code,
            r.count == 1,
    {
        let mut data = JsonObject::new();
        data.signed("exit_code", exit_code as i64);
        RawEvent {
            id: None,
            timestamp_ms: ns_to_unix_ms(header.timestamp_ns),
            source: "proctrace".to_owned(),
            pid: header.pid,
            ppid,
            tid: header.tid,
            uid: header.uid,
            comm: header_comm(header),
            cgroup_id: header.cgroup_id,
            op: "exit".to_owned(),
            ret: exit_code,
            data_json: data.into_text(),
            count: 1,
        }
    }

    /// Stores the opening of a watched file.
    pub fn from_filewatch(e: &FileWatchEvent, ppid: u32) -> (r: Self)
        ensures
            r.stores(
                Subject {
                    timestamp_ns: e.timestamp_ns,
                    pid: e.pid,
                    ppid,
                    tid: e.tid,
                    uid: e.uid,
                    comm: e.comm@,
                    cgroup_id: e.cgroup_id,
                },
                "filewatch"@,
                "open"@,
                0,
                map![
                    "filename"@ => json::JsonValue::Text(e.filename@),
                    "flags"@ => json::JsonValue::Number(e.flags as int),
                ],
                1,
            ),
            r.id is None,
            r.source@ == "filewatch"@,
            r.timestamp_ms == e.timestamp_ns / 1_000_000,
            r.pid == e.pid,
            r.ppid == ppid,
            r.tid == e.tid,
            r.uid == e.uid,
            r.comm@ == e.comm@,
            r.cgroup_id == e.cgroup_id,
            r.op@ == "open"@,
            r.ret == 0,
            r.count == 1,
    {
        let mut data = JsonObject::new();
        data.text("filename", e.filename.as_str());
        data.signed("flags", e.flags);
        RawEvent {
            id: None,
            timestamp_ms: ns_to_unix_ms(e.timestamp_ns),
            source: "filewatch".to_owned(),
            pid: e.pid,
            ppid,
            tid: e.tid,
            uid: e.uid,
            comm: e.comm.clone(),
            cgroup_id: e.cgroup_id,
            op: "open".to_owned(),
            ret: 0,
            data_json: data.into_text(),
            count: 1,
        }
    }

    /// Stores a write to a watched file.
    pub fn from_filewrite(e: &FileWriteEvent, ppid: u32) -> (r: Self)
        ensures
            r.stores(
                Subject {
                    timestamp_ns: e.timestamp_ns,
                    pid: e.pid,
                    ppid,
                    tid: e.tid,
                    uid: e.uid,
                    comm: e.comm@,
                    cgroup_id: e.cgroup_id,
                },
                "filewrite"@,
                "write"@,
                0,
                map![
                    "filename"@ => json::JsonValue::Text(e.filename@),
                    "write_size"@ => json::JsonValue::Number(e.write_size as int),
                ],
                1,
            ),
            r.id is None,
            r.source@ == "filewrite"@,
            r.timestamp_ms == e.timestamp_ns / 1_000_000,
            r.pid == e.pid,
            r.ppid == ppid,
            r.tid == e.tid,
            r.uid == e.uid,
            r.comm@ == e.comm@,
            r.cgroup_id == e.cgroup_id,
            r.op@ == "write"@,
            r.ret == 0,
            r.count == 1,
    {
        let mut data = JsonObject::new();
        data.text("filename", e.filename.as_str());
        data.unsigned("write_size", e.write_size);
        RawEvent {
            id: None,
            timestamp_ms: ns_to_unix_ms(e.timestamp_ns),
            source: "filewrite".to_owned(),
            pid: e.pid,
            ppid,
            tid: e.tid,
            uid: e.uid,
            comm: e.comm.clone(),
            cgroup_id: e.cgroup_id,
            op: "write".to_owned(),
            ret: 0,
            data_json: data.into_text(),
            count: 1,
        }
    }

    /// Stores a DNS query. Meant for events that the cgroup filter admitted;
    /// the others would fill the table with the queries of the whole system.
    pub fn from_udpdns(e: &UdpDnsEvent, ppid: u32) -> (r: Self)
        ensures
            r.stores(
                Subject {
                    timestamp_ns: e.timestamp_ns,
                    pid: e.pid,
                    ppid,
                    tid: e.tid,
                    uid: e.uid,
                    comm: e.comm@,
                    cgroup_id: e.cgroup_id,
                },
                "udpdns"@,
                "dns_query"@,
                0,
                map!["domain"@ => json::JsonValue::Text(e.domain@)],
                1,
            ),
            r.id is None,
            r.source@ == "udpdns"@,
            r.timestamp_ms == e.timestamp_ns / 1_000_000,
            r.pid == e.pid,
            r.ppid == ppid,
            r.tid == e.tid,
            r.uid == e.uid,
            r.comm@ == e.comm@,
            r.cgroup_id == e.cgroup_id,
            r.op@ == "dns_query"@,
            r.ret == 0,
            r.count == 1,
    {
        let mut data = JsonObject::new();
        data.text("domain", e.domain.as_str());
        RawEvent {
            id: None,
            timestamp_ms: ns_to_unix_ms(e.timestamp_ns),
            source: "udpdns".to_owned(),
            pid: e.pid,
            ppid,
            tid: e.tid,
            uid: e.uid,
            comm: e.comm.clone(),
            cgroup_id: e.cgroup_id,
            op: "dns_query".to_owned(),
            ret: 0,
            data_json: data.into_text(),
            count: 1,
        }
    }

    /// Stores a TCP event.
    pub fn from_tcpdiag(e: &TcpDiagEvent, ppid: u32) -> (r: Self)
        ensures
            r.stores(
                Subject {
                    timestamp_ns: e.timestamp_ns,
                    pid: e.pid,
                    ppid,
                    tid: 0,
                    uid: 0,
                    comm: e.comm@,
                    cgroup_id: e.cgroup_id,
                },
                "tcpdiag"@,
                e.op.text(),
                0,
                tcpdiag_data(*e),
                1,
            ),
            r.id is None,
            r.source@ == "tcpdiag"@,
            r.timestamp_ms == e.timestamp_ns / 1_000_000,
            r.pid == e.pid,
            r.ppid == ppid,
            r.tid == 0,
            r.uid == 0,
            r.comm@ == e.comm@,
            r.cgroup_id == e.cgroup_id,
            r.op@ == e.op.text(),
            r.ret == 0,
            r.count == 1,
            r.data_json@ == json::json_text(
                map![
                    "sock_cookie"@ => json::JsonValue::Number(e.sock_cookie as int),
                    "family"@ => json::JsonValue::Text(tcpdiag::family_text(e.family)),
                    "saddr"@ => json::JsonValue::Text(addr_text(e.family, e.saddr@)),
                    "sport"@ => json::JsonValue::Number(e.sport as int),
                    "daddr"@ => json::JsonValue::Text(addr_text(e.family, e.daddr@)),
                    "dport"@ => json::JsonValue::Number(e.dport as int),
                    "segs_out"@ => json::JsonValue::Number(e.segs_out as int),
                    "total_retrans"@ => json::JsonValue::Number(e.total_retrans as int),
                ],
            ),
    {
        let saddr = format_addr(e.family, &e.saddr);
        let daddr = format_addr(e.family, &e.daddr);
        let mut data = JsonObject::new();
        data.unsigned("sock_cookie", e.sock_cookie);
        data.text("family", e.family_name());
        data.text("saddr", saddr.as_str());
        data.unsigned("sport", e.sport as u64);
        data.text("daddr", daddr.as_str());
        data.unsigned("dport", e.dport as u64);
        data.unsigned("segs_out", e.segs_out as u64);
        data.unsigned("total_retrans", e.total_retrans as u64);
        RawEvent {
            id: None,
            timestamp_ms: ns_to_unix_ms(e.timestamp_ns),
            source: "tcpdiag".to_owned(),
            pid: e.pid,
            ppid,
            tid: 0,
            uid: 0,
            comm: e.comm.clone(),
            cgroup_id: e.cgroup_id,
            op: e.op_name().to_owned(),
            ret: 0,
            data_json: data.into_text(),
            count: 1,
        }
    }

    /// Stores a burst of retransmits; the count is the size of the burst.
    pub fn from_tcpdiag_derived(e: &TcpDerivedEvent, ppid: u32) -> (r: Self)
        ensures
            r.stores(
                Subject {
                    timestamp_ns: e->timestamp_ns,
                    pid: e->pid,
                    ppid,
                    tid: 0,
                    uid: 0,
                    comm: e->comm@,
                    cgroup_id: e->cgroup_id,
                },
                "tcpdiag"@,
                "tcp_high_retrans"@,
                0,
                derived_data(*e),
                e->retrans_count as u64,
            ),
            r.id is None,
            r.source@ == "tcpdiag"@,
            r.timestamp_ms == e->timestamp_ns / 1_000_000,
            r.pid == e->pid,
            r.ppid == ppid,
            r.tid == 0,
            r.uid == 0,
            r.comm@ == e->comm@,
            r.cgroup_id == e->cgroup_id,
            r.op@ == "tcp_high_retrans"@,
            r.ret == 0,
            r.count == e->retrans_count,
            r.data_json@ == json::json_text(
                map![
                    "sock_cookie"@ => json::JsonValue::Number(e->cookie as int),
                    "family"@ => json::JsonValue::Text(tcpdiag::family_text(e->family)),
                    "saddr"@ => json::JsonValue::Text(addr_text(e->family, e->saddr@)),
                    "sport"@ => json::JsonValue::Number(e->sport as int),
                    "daddr"@ => json::JsonValue::Text(addr_text(e->family, e->daddr@)),
                    "dport"@ => json::JsonValue::Number(e->dport as int),
                    "retrans_count"@ => json::JsonValue::Number(e->retrans_count as int),
                    "window_ms"@ => json::JsonValue::Number(e->window_ms as int),
                    "total_retrans"@ => json::JsonValue::Number(e->total_retrans as int),
                ],
            ),
    {
        match e {
            TcpDerivedEvent::HighRetrans {
                cookie,
                cgroup_id,
                pid,
                comm,
                timestamp_ns,
                family,
                sport,
                dport,
                saddr,
                daddr,
                retrans_count,
                window_ms,
                total_retrans,
            } => {
                let saddr_text = format_addr(*family, saddr);
                let daddr_text = format_addr(*family, daddr);
                let mut data = JsonObject::new();
                data.unsigned("sock_cookie", *cookie);
                data.text("family", format_family(*family));
                data.text("saddr", saddr_text.as_str());
                data.unsigned("sport", *sport as u64);
                data.text("daddr", daddr_text.as_str());
                data.unsigned("dport", *dport as u64);
                data.unsigned("retrans_count", *retrans_count as u64);
                data.unsigned("window_ms", *window_ms);
                data.unsigned("total_retrans", *total_retrans as u64);
                RawEvent {
                    id: None,
                    timestamp_ms: ns_to_unix_ms(*timestamp_ns),
                    source: "tcpdiag".to_owned(),
                    pid: *pid,
                    ppid,
                    tid: 0,
                    uid: 0,
                    comm: comm.clone(),
                    cgroup_id: *cgroup_id,
                    op: "tcp_high_retrans".to_owned(),
                    ret: 0,
                    data_json: data.into_text(),
                    count: *retrans_count as u64,
                }
            },
        }
    }
}

} // verus!
