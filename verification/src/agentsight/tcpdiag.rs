//! TCP diagnostics: retransmits and received resets.

use vstd::prelude::*;

use super::record;
use super::record::{
    fits_at, read_bytes, read_text, read_u16, read_u32, read_u64, ByteField, ByteOrder,
};
use super::tcp;
use super::tcp::{TcpAggregator, TcpDerivedEvent, TcpDiagOp, TcpEventInput};

verus! {

/// Where the fields of a raw TCP record lie. Addresses take 16 bytes.
#[derive(Clone, Copy, Debug)]
pub struct TcpDiagLayout {
    pub order: ByteOrder,
    pub size: usize,
    pub op: usize,
    pub timestamp_ns: usize,
    pub cgroup_id: usize,
    pub sock_cookie: usize,
    pub pid: usize,
    pub comm: ByteField,
    pub family: usize,
    pub sport: usize,
    pub dport: usize,
    pub saddr: usize,
    pub daddr: usize,
    pub segs_out: usize,
    pub total_retrans: usize,
}

impl TcpDiagLayout {
    /// Every field lies within the record.
    pub open spec fn wf(self) -> bool {
        &&& self.op + 4 <= self.size
        &&& self.timestamp_ns + 8 <= self.size
        &&& self.cgroup_id + 8 <= self.size
        &&& self.sock_cookie + 8 <= self.size
        &&& self.pid + 4 <= self.size
        &&& self.comm.within(self.size)
        &&& self.family + 2 <= self.size
        &&& self.sport + 2 <= self.size
        &&& self.dport + 2 <= self.size
        &&& self.saddr + 16 <= self.size
        &&& self.daddr + 16 <= self.size
        &&& self.segs_out + 4 <= self.size
        &&& self.total_retrans + 4 <= self.size
    }

    /// Tells whether every field lies within its bytes.
    pub fn fits(&self) -> (r: bool)
        ensures
            r == self.wf(),
            r <==> {
                &&& self.op + 4 <= self.size
                &&& self.timestamp_ns + 8 <= self.size
                &&& self.cgroup_id + 8 <= self.size
                &&& self.sock_cookie + 8 <= self.size
                &&& self.pid + 4 <= self.size
                &&& self.comm.offset + self.comm.len <= self.size
                &&& self.family + 2 <= self.size
                &&& self.sport + 2 <= self.size
                &&& self.dport + 2 <= self.size
                &&& self.saddr + 16 <= self.size
                &&& self.daddr + 16 <= self.size
                &&& self.segs_out + 4 <= self.size
                &&& self.total_retrans + 4 <= self.size
            },
    {
        fits_at(self.op, 4, self.size)
            && fits_at(self.timestamp_ns, 8, self.size)
            && fits_at(self.cgroup_id, 8, self.size)
            && fits_at(self.sock_cookie, 8, self.size)
            && fits_at(self.pid, 4, self.size)
            && fits_at(
            self.comm.offset,
            self.comm.len,
            self.size,
        )
            && fits_at(self.family, 2, self.size)
            && fits_at(self.sport, 2, self.size)
            && fits_at(self.dport, 2, self.size)
            && fits_at(self.saddr, 16, self.size)
            && fits_at(self.daddr, 16, self.size)
            && fits_at(self.segs_out, 4, self.size)
            && fits_at(self.total_retrans, 4, self.size)
    }

    /// The 16-bit number at `at`.
    pub open spec fn half(self, data: Seq<u8>, at: usize) -> nat {
        record::number_at(data, at as int, 2, self.order)
    }

    /// The 32-bit number at `at`.
    pub open spec fn word(self, data: Seq<u8>, at: usize) -> nat {
        record::number_at(data, at as int, 4, self.order)
    }

    /// The 64-bit number at `at`.
    pub open spec fn long(self, data: Seq<u8>, at: usize) -> nat {
        record::number_at(data, at as int, 8, self.order)
    }

    /// The address at `at`.
    pub open spec fn address(self, data: Seq<u8>, at: usize) -> Seq<u8> {
        data.subrange(at as int, at + 16)
    }
}

/// A TCP record as the probe wrote it.
#[derive(Clone, Debug)]
pub struct RawTcpDiagEvent {
    pub op: u32,
    pub timestamp_ns: u64,
    pub cgroup_id: u64,
    pub sock_cookie: u64,
    pub pid: u32,
    pub comm: Vec<u8>,
    pub family: u16,
    pub sport: u16,
    pub dport: u16,
    pub saddr: [u8; 16],
    pub daddr: [u8; 16],
    pub segs_out: u32,
    pub total_retrans: u32,
}

fn read_address(data: &[u8], at: usize) -> (r: [u8; 16])
    requires
        at + 16 <= data@.len(),
    ensures
        r@ == data@.subrange(at as int, at + 16),
{
    let size: usize = data.len();
    let mut r: [u8; 16] = [0u8; 16];
    let mut i: usize = 0;
    while i < 16
        invariant
            i <= 16,
            at + 16 <= size == data@.len(),
            forall|j: int| 0 <= j < i ==> r@[j] == data@[at + j],
        decreases 16 - i,
    {
        r[i] = data[at + i];
        i = i + 1;
    }
    assert(r@ =~= data@.subrange(at as int, at + 16));
    r
}

impl RawTcpDiagEvent {
    /// The record that `data` holds.
    pub open spec fn read_from(self, data: Seq<u8>, l: TcpDiagLayout) -> bool {
        &&& self.op == l.word(data, l.op)
        &&& self.timestamp_ns == l.long(data, l.timestamp_ns)
        &&& self.cgroup_id == l.long(data, l.cgroup_id)
        &&& self.sock_cookie == l.long(data, l.sock_cookie)
        &&& self.pid == l.word(data, l.pid)
        &&& self.comm@ == l.comm.of(data)
        &&& self.family == l.half(data, l.family)
        &&& self.sport == l.half(data, l.sport)
        &&& self.dport == l.half(data, l.dport)
        &&& self.saddr@ == l.address(data, l.saddr)
        &&& self.daddr@ == l.address(data, l.daddr)
        &&& self.segs_out == l.word(data, l.segs_out)
        &&& self.total_retrans == l.word(data, l.total_retrans)
    }

    /// Reads a record; longer data is cut off.
    pub fn from_bytes(data: &[u8], layout: &TcpDiagLayout) -> (r: Option<Self>)
        requires
            layout.wf(),
        ensures
            r is None <==> data@.len() < layout.size,
            r matches Some(raw) ==> raw.read_from(data@, *layout),
    {
        if data.len() < layout.size {
            return None;
        }
        let order = layout.order;
        Some(
            RawTcpDiagEvent {
                op: read_u32(data, layout.op, order),
                timestamp_ns: read_u64(data, layout.timestamp_ns, order),
                cgroup_id: read_u64(data, layout.cgroup_id, order),
                sock_cookie: read_u64(data, layout.sock_cookie, order),
                pid: read_u32(data, layout.pid, order),
                comm: read_bytes(data, layout.comm),
                family: read_u16(data, layout.family, order),
                sport: read_u16(data, layout.sport, order),
                dport: read_u16(data, layout.dport, order),
                saddr: read_address(data, layout.saddr),
                daddr: read_address(data, layout.daddr),
                segs_out: read_u32(data, layout.segs_out, order),
                total_retrans: read_u32(data, layout.total_retrans, order),
            },
        )
    }
}

/// User-space TCP event.
#[derive(Clone, Debug)]
pub struct TcpDiagEvent {
    pub op: TcpDiagOp,
    /// Unix epoch nanoseconds.
    pub timestamp_ns: u64,
    pub cgroup_id: u64,
    pub sock_cookie: u64,
    pub pid: u32,
    pub comm: String,
    pub family: u16,
    pub sport: u16,
    pub dport: u16,
    pub saddr: [u8; 16],
    pub daddr: [u8; 16],
    pub segs_out: u32,
    pub total_retrans: u32,
}

/// Name of an address family.
pub open spec fn family_text(family: u16) -> Seq<char> {
    if family == 2 {
        "AF_INET(IPv4)"@
    } else if family == 10 {
        "AF_INET6(IPv6)"@
    } else {
        "AF_UNKNOWN"@
    }
}

impl TcpDiagEvent {
    /// The event of a record with a known operation, seen at `unix_ns`.
    pub open spec fn shows(self, raw: RawTcpDiagEvent, unix_ns: u64) -> bool {
        &&& TcpDiagOp::of_raw(raw.op) == Some(self.op)
        &&& self.timestamp_ns == unix_ns
        &&& self.cgroup_id == raw.cgroup_id
        &&& self.sock_cookie == raw.sock_cookie
        &&& self.pid == raw.pid
        &&& self.comm@ == record::field_text(raw.comm@)
        &&& self.family == raw.family
        &&& self.sport == raw.sport
        &&& self.dport == raw.dport
        &&& self.saddr == raw.saddr
        &&& self.daddr == raw.daddr
        &&& self.segs_out == raw.segs_out
        &&& self.total_retrans == raw.total_retrans
    }

    /// What the aggregator is told of the event.
    pub open spec fn agg_input(self) -> TcpEventInput {
        TcpEventInput {
            op: self.op,
            timestamp_ns: self.timestamp_ns,
            cookie: self.sock_cookie,
            cgroup_id: self.cgroup_id,
            pid: self.pid,
            comm: self.comm,
            family: self.family,
            sport: self.sport,
            dport: self.dport,
            saddr: self.saddr,
            daddr: self.daddr,
            segs_out: self.segs_out,
            total_retrans: self.total_retrans,
        }
    }

    /// What ring buffer data becomes: nothing where it is too short or its
    /// operation is not known, else the event of the record it holds.
    pub open spec fn parsed<F: Fn(u64) -> u64>(
        data: Seq<u8>,
        l: TcpDiagLayout,
        clock: F,
        r: Option<Self>,
    ) -> bool {
        &&& r is Some <==> data.len() >= l.size && TcpDiagOp::of_raw(
            l.word(data, l.op) as u32,
        ) is Some
        &&& r matches Some(e) ==> exists|raw: RawTcpDiagEvent|
            {
                &&& #[trigger] raw.read_from(data, l)
                &&& call_ensures(clock, (raw.timestamp_ns,), e.timestamp_ns)
                &&& e.shows(raw, e.timestamp_ns)
            }
    }

    /// Operation name for logs and the event table.
    pub fn op_name(&self) -> (r: &'static str)
        ensures
            r@ == self.op.text(),
    {
        self.op.as_str()
    }

    /// Address-family name.
    pub fn family_name(&self) -> (r: &'static str)
        ensures
            r@ == family_text(self.family),
            self.family == 2 ==> r@ == "AF_INET(IPv4)"@,
            self.family == 10 ==> r@ == "AF_INET6(IPv6)"@,
            self.family != 2 && self.family != 10 ==> r@ == "AF_UNKNOWN"@,
    {
        match self.family {
            2 => "AF_INET(IPv4)",
            10 => "AF_INET6(IPv6)",
            _ => "AF_UNKNOWN",
        }
    }

    /// Turns a record into an event, seen at `unix_ns`. `None` where its
    /// operation is not known.
    pub fn from_raw(raw: &RawTcpDiagEvent, unix_ns: u64) -> (r: Option<Self>)
        ensures
            r is Some <==> TcpDiagOp::of_raw(raw.op) is Some,
            r matches Some(e) ==> e.shows(*raw, unix_ns),
    {
        let op = match TcpDiagOp::from_raw(raw.op) {
            Some(op) => op,
            None => {
                return None;
            },
        };
        Some(
            TcpDiagEvent {
                op,
                timestamp_ns: unix_ns,
                cgroup_id: raw.cgroup_id,
                sock_cookie: raw.sock_cookie,
                pid: raw.pid,
                comm: read_text(&raw.comm),
                family: raw.family,
                sport: raw.sport,
                dport: raw.dport,
                saddr: raw.saddr,
                daddr: raw.daddr,
                segs_out: raw.segs_out,
                total_retrans: raw.total_retrans,
            },
        )
    }

    /// Parses an event from ring buffer data. `clock` turns the kernel's time
    /// into Unix time. `None` where the data is too short or the operation is
    /// not known.
    pub fn from_bytes<F: Fn(u64) -> u64>(data: &[u8], layout: &TcpDiagLayout, clock: &F) -> (r:
        Option<Self>)
        requires
            layout.wf(),
            forall|t: u64| #[trigger] call_requires(*clock, (t,)),
        ensures
            Self::parsed(data@, *layout, *clock, r),
            r is Some <==> data@.len() >= layout.size && {
                let op = record::number_at(data@, layout.op as int, 4, layout.order);
                op == 1 || op == 3
            },
            r matches Some(e) ==> {
                let o = layout.order;
                &&& e.op == TcpDiagOp::Retransmit <==> record::number_at(
                    data@,
                    layout.op as int,
                    4,
                    o,
                ) == 1
                &&& call_ensures(
                    *clock,
                    (record::number_at(data@, layout.timestamp_ns as int, 8, o) as u64,),
                    e.timestamp_ns,
                )
                &&& e.cgroup_id == record::number_at(data@, layout.cgroup_id as int, 8, o)
                &&& e.sock_cookie == record::number_at(data@, layout.sock_cookie as int, 8, o)
                &&& e.pid == record::number_at(data@, layout.pid as int, 4, o)
                &&& e.comm@ == record::field_text(
                    data@.subrange(
                        layout.comm.offset as int,
                        layout.comm.offset + layout.comm.len,
                    ),
                )
                &&& e.family == record::number_at(data@, layout.family as int, 2, o)
                &&& e.sport == record::number_at(data@, layout.sport as int, 2, o)
                &&& e.dport == record::number_at(data@, layout.dport as int, 2, o)
                &&& e.saddr@ == data@.subrange(layout.saddr as int, layout.saddr + 16)
                &&& e.daddr@ == data@.subrange(layout.daddr as int, layout.daddr + 16)
                &&& e.segs_out == record::number_at(data@, layout.segs_out as int, 4, o)
                &&& e.total_retrans == record::number_at(data@, layout.total_retrans as int, 4, o)
            },
    {
        match RawTcpDiagEvent::from_bytes(data, layout) {
            None => None,
            Some(raw) => {
                let unix_ns: u64 = clock(raw.timestamp_ns);
                TcpDiagEvent::from_raw(&raw, unix_ns)
            },
        }
    }

    /// Builds the aggregator input.
    pub fn to_agg_input(&self) -> (r: TcpEventInput)
        ensures
            r == self.agg_input(),
            r.op == self.op,
            r.timestamp_ns == self.timestamp_ns,
            r.cookie == self.sock_cookie,
            r.cgroup_id == self.cgroup_id,
            r.pid == self.pid,
            r.comm@ == self.comm@,
            r.family == self.family,
            r.sport == self.sport,
            r.dport == self.dport,
            r.saddr == self.saddr,
            r.daddr == self.daddr,
            r.segs_out == self.segs_out,
            r.total_retrans == self.total_retrans,
    {
        TcpEventInput {
            op: self.op,
            timestamp_ns: self.timestamp_ns,
            cookie: self.sock_cookie,
            cgroup_id: self.cgroup_id,
            pid: self.pid,
            comm: self.comm.clone(),
            family: self.family,
            sport: self.sport,
            dport: self.dport,
            saddr: self.saddr,
            daddr: self.daddr,
            segs_out: self.segs_out,
            total_retrans: self.total_retrans,
        }
    }
}

/// Feeds an event into the aggregator. Returns the derived event where this
/// one crossed the threshold.
pub fn process_event(agg: &mut TcpAggregator, ev: &TcpDiagEvent) -> (r: Option<TcpDerivedEvent>)
    ensures
        final(agg).config() == old(agg).config(),
        final(agg)@ == tcp::memory_after(old(agg).config(), old(agg)@, ev.agg_input()),
        r == tcp::answer(old(agg).config(), old(agg)@, ev.agg_input()),
        ev.op == TcpDiagOp::ResetRecv ==> r is None && final(agg)@ == old(agg)@,
        r matches Some(signal) ==> {
            &&& signal->cookie == ev.sock_cookie
            &&& signal->cgroup_id == ev.cgroup_id
            &&& signal->pid == ev.pid
            &&& signal->comm@ == ev.comm@
            &&& signal->timestamp_ns == ev.timestamp_ns
            &&& signal->family == ev.family
            &&& signal->sport == ev.sport
            &&& signal->dport == ev.dport
            &&& signal->saddr == ev.saddr
            &&& signal->daddr == ev.daddr
            &&& signal->total_retrans == ev.total_retrans
        },
{
    let input = ev.to_agg_input();
    agg.record(&input)
}

} // verus!
