//! Network operations: bind, listen, connect.

use vstd::prelude::*;

use super::record;
use super::record::{
    fits_at, read_bytes, read_i32, read_text, read_u16, read_u32, read_u64, ByteField,
    ByteOrder, FlushStep, Merge,
};

verus! {

/// Number of the aggregated connect operation.
pub const PROCNET_CONNECT_AGG: u32 = 4;

/// Where the fields of a raw network record lie.
#[derive(Clone, Copy, Debug)]
pub struct ProcNetLayout {
    pub order: ByteOrder,
    pub size: usize,
    pub pid: usize,
    pub tid: usize,
    pub uid: usize,
    pub timestamp_ns: usize,
    pub cgroup_id: usize,
    pub op: usize,
    pub ret: usize,
    pub comm: ByteField,
    pub port: usize,
    pub addr: usize,
    pub family: usize,
}

impl ProcNetLayout {
    /// Every field lies within the record.
    pub open spec fn wf(self) -> bool {
        &&& self.pid + 4 <= self.size
        &&& self.tid + 4 <= self.size
        &&& self.uid + 4 <= self.size
        &&& self.timestamp_ns + 8 <= self.size
        &&& self.cgroup_id + 8 <= self.size
        &&& self.op + 4 <= self.size
        &&& self.ret + 4 <= self.size
        &&& self.comm.within(self.size)
        &&& self.port + 2 <= self.size
        &&& self.addr + 4 <= self.size
        &&& self.family + 2 <= self.size
    }

    /// Tells whether every field lies within its bytes.
    pub fn fits(&self) -> (r: bool)
        ensures
            r == self.wf(),
            r <==> {
                &&& self.pid + 4 <= self.size
                &&& self.tid + 4 <= self.size
                &&& self.uid + 4 <= self.size
                &&& self.timestamp_ns + 8 <= self.size
                &&& self.cgroup_id + 8 <= self.size
                &&& self.op + 4 <= self.size
                &&& self.ret + 4 <= self.size
                &&& self.comm.offset + self.comm.len <= self.size
                &&& self.port + 2 <= self.size
                &&& self.addr + 4 <= self.size
                &&& self.family + 2 <= self.size
            },
    {
        fits_at(self.pid, 4, self.size)
            && fits_at(self.tid, 4, self.size)
            && fits_at(self.uid, 4, self.size)
            && fits_at(self.timestamp_ns, 8, self.size)
            && fits_at(self.cgroup_id, 8, self.size)
            && fits_at(self.op, 4, self.size)
            && fits_at(self.ret, 4, self.size)
            && fits_at(
            self.comm.offset,
            self.comm.len,
            self.size,
        )
            && fits_at(self.port, 2, self.size)
            && fits_at(self.addr, 4, self.size)
            && fits_at(self.family, 2, self.size)
    }

    /// The 16-bit number at `at`.
    pub open spec fn half(self, data: Seq<u8>, at: usize) -> nat {
        record::number_at(data, at as int, 2, self.order)
    }

    /// The 32-bit number at `at`.
    pub open spec fn word(self, data: Seq<u8>, at: usize) -> nat {
        record::number_at(data, at as int, 4, self.order)
    }

    /// The 64-bit number at `at`.
    pub open spec fn long(self, data: Seq<u8>, at: usize) -> nat {
        record::number_at(data, at as int, 8, self.order)
    }
}

/// Where the fields of an entry of the connect aggregation map lie.
#[derive(Clone, Copy, Debug)]
pub struct ConnectAggLayout {
    pub order: ByteOrder,
    pub key_size: usize,
    pub pid: usize,
    pub dst_addr: usize,
    pub dst_port: usize,
    pub val_size: usize,
    pub count: usize,
    pub first_ts: usize,
    pub last_ts: usize,
    pub last_ret: usize,
    pub cgroup_id: usize,
    pub comm: ByteField,
}

impl ConnectAggLayout {
    /// Every field lies within the key or the value.
    pub open spec fn wf(self) -> bool {
        &&& self.pid + 4 <= self.key_size
        &&& self.dst_addr + 4 <= self.key_size
        &&& self.dst_port + 2 <= self.key_size
        &&& self.count + 8 <= self.val_size
        &&& self.first_ts + 8 <= self.val_size
        &&& self.last_ts + 8 <= self.val_size
        &&& self.last_ret + 4 <= self.val_size
        &&& self.cgroup_id + 8 <= self.val_size
        &&& self.comm.within(self.val_size)
    }

    /// Tells whether every field lies within its bytes.
    pub fn fits(&self) -> (r: bool)
        ensures
            r == self.wf(),
            r <==> {
                &&& self.pid + 4 <= self.key_size
                &&& self.dst_addr + 4 <= self.key_size
                &&& self.dst_port + 2 <= self.key_size
                &&& self.count + 8 <= self.val_size
                &&& self.first_ts + 8 <= self.val_size
                &&& self.last_ts + 8 <= self.val_size
                &&& self.last_ret + 4 <= self.val_size
                &&& self.cgroup_id + 8 <= self.val_size
                &&& self.comm.within(self.val_size)
            },
    {
        fits_at(self.pid, 4, self.key_size)
            && fits_at(self.dst_addr, 4, self.key_size)
            && fits_at(self.dst_port, 2, self.key_size)
            && fits_at(self.count, 8, self.val_size)
            && fits_at(self.first_ts, 8, self.val_size)
            && fits_at(self.last_ts, 8, self.val_size)
            && fits_at(self.last_ret, 4, self.val_size)
            && fits_at(self.cgroup_id, 8, self.val_size)
            && fits_at(
            self.comm.offset,
            self.comm.len,
            self.val_size,
        )
    }

    /// The 16-bit number at `at`.
    pub open spec fn half(self, data: Seq<u8>, at: usize) -> nat {
        record::number_at(data, at as int, 2, self.order)
    }

    /// The 32-bit number at `at`.
    pub open spec fn word(self, data: Seq<u8>, at: usize) -> nat {
        record::number_at(data, at as int, 4, self.order)
    }

    /// The 64-bit number at `at`.
    pub open spec fn long(self, data: Seq<u8>, at: usize) -> nat {
        record::number_at(data, at as int, 8, self.order)
    }

    /// The value is of the right size and counts something.
    pub open spec fn counts(self, value: Seq<u8>) -> bool {
        value.len() == self.val_size && self.long(value, self.count) != 0
    }

    /// The values that count something, in the order of the CPUs.
    pub open spec fn counted(self, values: Seq<Seq<u8>>) -> Seq<Seq<u8>> {
        values.filter(|v: Seq<u8>| self.counts(v))
    }

    pub open spec fn all_counts(self, values: Seq<Seq<u8>>) -> Seq<int> {
        values.map_values(|v: Seq<u8>| self.long(v, self.count) as int)
    }

    pub open spec fn all_firsts(self, values: Seq<Seq<u8>>) -> Seq<int> {
        values.map_values(|v: Seq<u8>| self.long(v, self.first_ts) as int)
    }

    pub open spec fn all_lasts(self, values: Seq<Seq<u8>>) -> Seq<int> {
        values.map_values(|v: Seq<u8>| self.long(v, self.last_ts) as int)
    }

    /// The return value that came with the latest time, the first of them
    /// where several CPUs have that time; 0 where no time is set.
    pub open spec fn ret_of_latest(self, counted: Seq<Seq<u8>>) -> int {
        let lasts = self.all_lasts(counted);
        if record::latest(lasts) == 0 {
            0
        } else {
            record::signed32(
                self.word(counted[record::place_of(lasts, record::latest(lasts))], self.last_ret),
            )
        }
    }
}

/// A network record as the probe wrote it.
#[derive(Clone, Debug)]
pub struct RawProcNetEvent {
    pub pid: u32,
    pub tid: u32,
    pub uid: u32,
    pub timestamp_ns: u64,
    pub cgroup_id: u64,
    pub op: u32,
    pub ret: i32,
    pub comm: Vec<u8>,
    pub port: u16,
    pub addr: u32,
    pub family: u16,
}

impl RawProcNetEvent {
    /// The record that `data` holds.
    pub open spec fn read_from(self, data: Seq<u8>, l: ProcNetLayout) -> bool {
        &&& self.pid == l.word(data, l.pid)
        &&& self.tid == l.word(data, l.tid)
        &&& self.uid == l.word(data, l.uid)
        &&& self.timestamp_ns == l.long(data, l.timestamp_ns)
        &&& self.cgroup_id == l.long(data, l.cgroup_id)
        &&& self.op == l.word(data, l.op)
        &&& self.ret == record::signed32(l.word(data, l.ret))
        &&& self.comm@ == l.comm.of(data)
        &&& self.port == l.half(data, l.port)
        &&& self.addr == l.word(data, l.addr)
        &&& self.family == l.half(data, l.family)
    }

    /// Reads a record; longer data is cut off.
    pub fn from_bytes(data: &[u8], layout: &ProcNetLayout) -> (r: Option<Self>)
        requires
            layout.wf(),
        ensures
            r is None <==> data@.len() < layout.size,
            r matches Some(raw) ==> raw.read_from(data@, *layout),
    {
        if data.len() < layout.size {
            return None;
        }
        let order = layout.order;
        Some(
            RawProcNetEvent {
                pid: read_u32(data, layout.pid, order),
                tid: read_u32(data, layout.tid, order),
                uid: read_u32(data, layout.uid, order),
                timestamp_ns: read_u64(data, layout.timestamp_ns, order),
                cgroup_id: read_u64(data, layout.cgroup_id, order),
                op: read_u32(data, layout.op, order),
                ret: read_i32(data, layout.ret, order),
                comm: read_bytes(data, layout.comm),
                port: read_u16(data, layout.port, order),
                addr: read_u32(data, layout.addr, order),
                family: read_u16(data, layout.family, order),
            },
        )
    }
}

/// Key of the connect aggregation map.
#[derive(Clone, Debug)]
pub struct ConnectAggKey {
    pub pid: u32,
    pub dst_addr: u32,
    pub dst_port: u16,
}

/// Value of the connect aggregation map, summed over the CPUs.
#[derive(Clone, Debug)]
pub struct ConnectAggVal {
    pub count: u64,
    pub first_ts: u64,
    pub last_ts: u64,
    pub last_ret: i32,
    pub cgroup_id: u64,
    pub comm: Vec<u8>,
}

/// User-space network event.
#[derive(Clone, Debug)]
pub struct ProcNetEvent {
    pub pid: u32,
    pub tid: u32,
    pub uid: u32,
    /// Unix epoch nanoseconds.
    pub timestamp_ns: u64,
    pub cgroup_id: u64,
    pub op: u32,
    pub ret: i32,
    pub comm: String,
    pub port: u16,
    pub addr: u32,
    pub family: u16,
    // Aggregation fields (zero for single events)
    pub count: u64,
    pub first_ts: u64,
    pub last_ts: u64,
    pub last_ret: i32,
    pub dst_addr: u32,
    pub dst_port: u16,
}

/// Name of a network operation.
pub open spec fn net_op_name(op: u32) -> Seq<char> {
    if op == 1 {
        "bind"@
    } else if op == 2 {
        "listen"@
    } else if op == 3 {
        "connect_error"@
    } else if op == 4 {
        "connect"@
    } else {
        "unknown"@
    }
}

impl ProcNetEvent {
    /// The event of a single record, seen at `unix_ns`.
    pub open spec fn shows(self, raw: RawProcNetEvent, unix_ns: u64) -> bool {
        &&& self.pid == raw.pid
        &&& self.tid == raw.tid
        &&& self.uid == raw.uid
        &&& self.timestamp_ns == unix_ns
        &&& self.cgroup_id == raw.cgroup_id
        &&& self.op == raw.op
        &&& self.ret == raw.ret
        &&& self.comm@ == record::field_text(raw.comm@)
        &&& self.port == raw.port
        &&& self.addr == raw.addr
        &&& self.family == raw.family
        &&& self.count == 0
        &&& self.first_ts == 0
        &&& self.last_ts == 0
        &&& self.last_ret == 0
        &&& self.dst_addr == 0
        &&& self.dst_port == 0
    }

    /// The event of connects that were counted in the kernel, but for its
    /// times.
    pub open spec fn shows_connects(
        self,
        pid: nat,
        dst_addr: nat,
        dst_port: nat,
        count: int,
        last_ret: int,
        cgroup_id: nat,
        comm: Seq<u8>,
    ) -> bool {
        &&& self.pid == pid
        &&& self.tid == 0
        &&& self.uid == 0
        &&& self.cgroup_id == cgroup_id
        &&& self.op == PROCNET_CONNECT_AGG
        &&& self.ret == 0
        &&& self.comm@ == record::field_text(comm)
        &&& self.port == 0
        &&& self.addr == 0
        &&& self.family == 0
        &&& self.count == count
        &&& self.last_ret == last_ret
        &&& self.dst_addr == dst_addr
        &&& self.dst_port == dst_port
    }

    /// What ring buffer data becomes: nothing where it is too short, else the
    /// event of the record it holds.
    pub open spec fn parsed<F: Fn(u64) -> u64>(
        data: Seq<u8>,
        l: ProcNetLayout,
        clock: F,
        r: Option<Self>,
    ) -> bool {
        &&& r is None <==> data.len() < l.size
        &&& r matches Some(e) ==> exists|raw: RawProcNetEvent|
            {
                &&& #[trigger] raw.read_from(data, l)
                &&& call_ensures(clock, (raw.timestamp_ns,), e.timestamp_ns)
                &&& e.shows(raw, e.timestamp_ns)
            }
    }

    /// Human-readable operation name.
    pub fn op_name(&self) -> (r: &'static str)
        ensures
            r@ == net_op_name(self.op),
            self.op == 1 ==> r@ == "bind"@,
            self.op == 2 ==> r@ == "listen"@,
            self.op == 3 ==> r@ == "connect_error"@,
            self.op == 4 ==> r@ == "connect"@,
            self.op == 0 || self.op > 4 ==> r@ == "unknown"@,
    {
        match self.op {
            1 => "bind",
            2 => "listen",
            3 => "connect_error",
            4 => "connect",
            _ => "unknown",
        }
    }

    /// Turns a record into an event, seen at `unix_ns`.
    pub fn from_raw(raw: &RawProcNetEvent, unix_ns: u64) -> (r: Self)
        ensures
            r.shows(*raw, unix_ns),
    {
        ProcNetEvent {
            pid: raw.pid,
            tid: raw.tid,
            uid: raw.uid,
            timestamp_ns: unix_ns,
            cgroup_id: raw.cgroup_id,
            op: raw.op,
            ret: raw.ret,
            comm: read_text(&raw.comm),
            port: raw.port,
            addr: raw.addr,
            family: raw.family,
            count: 0,
            first_ts: 0,
            last_ts: 0,
            last_ret: 0,
            dst_addr: 0,
            dst_port: 0,
        }
    }

    /// Parses an event from ring buffer data. `clock` turns the kernel's time
    /// into Unix time.
    pub fn from_bytes<F: Fn(u64) -> u64>(data: &[u8], layout: &ProcNetLayout, clock: &F) -> (r:
        Option<Self>)
        requires
            layout.wf(),
            forall|t: u64| #[trigger] call_requires(*clock, (t,)),
        ensures
            Self::parsed(data@, *layout, *clock, r),
            data@.len() < layout.size ==> r is None,
            r matches Some(e) ==> {
                let o = layout.order;
                &&& e.pid == record::number_at(data@, layout.pid as int, 4, o)
                &&& e.tid == record::number_at(data@, layout.tid as int, 4, o)
                &&& e.uid == record::number_at(data@, layout.uid as int, 4, o)
                &&& e.op == record::number_at(data@, layout.op as int, 4, o)
                &&& e.addr == record::number_at(data@, layout.addr as int, 4, o)
                &&& e.port == record::number_at(data@, layout.port as int, 2, o)
                &&& e.family == record::number_at(data@, layout.family as int, 2, o)
                &&& e.cgroup_id == record::number_at(data@, layout.cgroup_id as int, 8, o)
                &&& call_ensures(*clock, (record::number_at(data@, layout.timestamp_ns as int, 8,
                    o) as u64,), e.timestamp_ns)
                &&& e.comm@ == record::field_text(data@.subrange(layout.comm.offset as int,
                    layout.comm.offset + layout.comm.len))
                &&& e.count == 0
                &&& e.first_ts == 0
                &&& e.last_ts == 0
                &&& e.last_ret == 0
                &&& e.dst_addr == 0
                &&& e.dst_port == 0
                &&& (e.ret - record::number_at(data@, layout.ret as int, 4, o)) % 0x1_0000_0000 == 0
            },
    {
        match RawProcNetEvent::from_bytes(data, layout) {
            None => None,
            Some(raw) => {
                let unix_ns: u64 = clock(raw.timestamp_ns);
                Some(ProcNetEvent::from_raw(&raw, unix_ns))
            },
        }
    }

    /// The aggregated connect event of a key and its summed value.
    pub fn from_connect_agg<F: Fn(u64) -> u64>(
        key: &ConnectAggKey,
        val: &ConnectAggVal,
        clock: &F,
    ) -> (r: Self)
        requires
            forall|t: u64| #[trigger] call_requires(*clock, (t,)),
        ensures
            r.shows_connects(
                key.pid as nat,
                key.dst_addr as nat,
                key.dst_port as nat,
                val.count as int,
                val.last_ret as int,
                val.cgroup_id as nat,
                val.comm@,
            ),
            call_ensures(*clock, (val.last_ts,), r.timestamp_ns),
            call_ensures(*clock, (val.first_ts,), r.first_ts),
            call_ensures(*clock, (val.last_ts,), r.last_ts),
    {
        ProcNetEvent {
            pid: key.pid,
            tid: 0,
            uid: 0,
            timestamp_ns: clock(val.last_ts),
            cgroup_id: val.cgroup_id,
            op: PROCNET_CONNECT_AGG,
            ret: 0,
            comm: read_text(&val.comm),
            port: 0,
            addr: 0,
            family: 0,
            count: val.count,
            first_ts: clock(val.first_ts),
            last_ts: clock(val.last_ts),
            last_ret: val.last_ret,
            dst_addr: key.dst_addr,
            dst_port: key.dst_port,
        }
    }
}

/// The event that stands for all counted values of one key.
pub open spec fn connect_total<F: Fn(u64) -> u64>(
    e: ProcNetEvent,
    key: Seq<u8>,
    counted: Seq<Seq<u8>>,
    l: ConnectAggLayout,
    clock: F,
) -> bool {
    let last_ts = record::latest(l.all_lasts(counted)) as u64;
    let first_ts = record::earliest(l.all_firsts(counted)) as u64;
    &&& e.shows_connects(
        l.word(key, l.pid),
        l.word(key, l.dst_addr),
        l.half(key, l.dst_port),
        record::total(l.all_counts(counted), u64::MAX as int),
        l.ret_of_latest(counted),
        l.long(counted[0], l.cgroup_id),
        l.comm.of(counted[0]),
    )
    &&& call_ensures(clock, (last_ts,), e.timestamp_ns)
    &&& call_ensures(clock, (first_ts,), e.first_ts)
    &&& call_ensures(clock, (last_ts,), e.last_ts)
}

/// Sums the values of all CPUs for one key of the connect aggregation map.
/// `values` is `None` where the key could not be looked up.
pub fn flush_connect_agg<F: Fn(u64) -> u64>(
    key: &Vec<u8>,
    values: &Option<Vec<Vec<u8>>>,
    layout: &ConnectAggLayout,
    clock: &F,
) -> (r: FlushStep<ProcNetEvent>)
    requires
        layout.wf(),
        forall|t: u64| #[trigger] call_requires(*clock, (t,)),
    ensures
        r is Skip <==> key@.len() != layout.key_size,
        r is EmitAndDelete <==> key@.len() == layout.key_size && values is Some && layout.counted(
            record::raw_values(values->Some_0@),
        ).len() > 0,
        r matches FlushStep::EmitAndDelete(e) ==> connect_total(
            e,
            key@,
            layout.counted(record::raw_values(values->Some_0@)),
            *layout,
            *clock,
        ),
        r is EmitAndDelete ==> exists|i: int|
            0 <= i < values->Some_0@.len() && (#[trigger] values->Some_0@[i])@.len()
                == layout.val_size && record::number_at(values->Some_0@[i]@, layout.count as int,
                    8, layout.order) != 0,
        r is Delete && values is Some ==> forall|i: int|
            0 <= i < values->Some_0@.len() && (#[trigger] values->Some_0@[i])@.len()
                == layout.val_size ==> record::number_at(values->Some_0@[i]@, layout.count as int,
                    8, layout.order) == 0,
        r matches FlushStep::EmitAndDelete(e) ==> {
            let counted = record::raw_values(values->Some_0@).filter(
                |v: Seq<u8>| v.len() == layout.val_size
                    && record::number_at(v, layout.count as int, 8, layout.order) != 0,
            );
            &&& e.pid == record::number_at(key@, layout.pid as int, 4, layout.order)
            &&& e.dst_addr == record::number_at(key@, layout.dst_addr as int, 4, layout.order)
            &&& e.dst_port == record::number_at(key@, layout.dst_port as int, 2, layout.order)
            &&& e.op == 4
            &&& e.ret == 0
            &&& e.tid == 0
            &&& e.uid == 0
            &&& e.port == 0
            &&& e.addr == 0
            &&& e.family == 0
            &&& e.count == record::total(
                counted.map_values(|v: Seq<u8>| record::number_at(v, layout.count as int, 8,
                    layout.order) as int),
                u64::MAX as int,
            )
            &&& e.cgroup_id == record::number_at(counted[0], layout.cgroup_id as int, 8,
                layout.order)
            &&& e.comm@ == record::field_text(
                counted[0].subrange(layout.comm.offset as int, layout.comm.offset + layout.comm.len),
            )
            &&& call_ensures(*clock, (record::latest(counted.map_values(
                |v: Seq<u8>| record::number_at(v, layout.last_ts as int, 8,
                layout.order) as int)) as u64,), e.timestamp_ns)
            &&& call_ensures(*clock, (record::latest(counted.map_values(
                |v: Seq<u8>| record::number_at(v, layout.last_ts as int, 8,
                layout.order) as int)) as u64,), e.last_ts)
            &&& call_ensures(*clock, (record::earliest(counted.map_values(
                |v: Seq<u8>| record::number_at(v, layout.first_ts as int, 8,
                layout.order) as int)) as u64,), e.first_ts)
            &&& forall|k: int|
                0 <= k < counted.len() && record::number_at(counted[k], layout.last_ts as int, 8,
                    layout.order) > 0 && (forall|j: int|
                    0 <= j < counted.len() && j != k
                        ==> record::number_at(#[trigger] counted[j], layout.last_ts as int, 8,
                        layout.order) < record::number_at(counted[k], layout.last_ts as int, 8,
                        layout.order)) ==> (e.last_ret - record::number_at(
                        #[trigger] counted[k], layout.last_ret as int, 4,
                        layout.order)) % 0x1_0000_0000 == 0
        },
{
    if key.len() != layout.key_size {
        return FlushStep::Skip;
    }
    let percpu = match values {
        Some(v) => v,
        None => {
            return FlushStep::Delete;
        },
    };
    let order = layout.order;
    let ghost l = *layout;
    let ghost all = record::raw_values(percpu@);
    let ghost keep = |v: Seq<u8>| l.counts(v);
    let ghost mut best: int = 0;
    let mut sum = Merge::new();
    let mut agg = ConnectAggVal {
        count: 0,
        first_ts: 0,
        last_ts: 0,
        last_ret: 0,
        cgroup_id: 0,
        comm: Vec::new(),
    };
    let mut got_meta: bool = false;
    let mut i: usize = 0;
    proof {
        assert(all.take(0).filter(keep) =~= Seq::empty()) by {
            reveal(Seq::filter);
        }
        assert(l.all_counts(Seq::empty()) =~= Seq::empty());
        assert(l.all_firsts(Seq::empty()) =~= Seq::empty());
        assert(l.all_lasts(Seq::empty()) =~= Seq::empty());
    }
    while i < percpu.len()
        invariant
            layout.wf(),
            l == *layout,
            order == layout.order,
            all == record::raw_values(percpu@),
            keep == (|v: Seq<u8>| l.counts(v)),
            i <= percpu@.len(),
            ({
                let c = all.take(i as int).filter(keep);
                &&& sum.sums(l.all_counts(c), l.all_firsts(c), l.all_lasts(c), u64::MAX)
                &&& got_meta == (c.len() > 0)
                &&& got_meta ==> {
                    &&& sum.count > 0
                    &&& agg.cgroup_id == l.long(c[0], l.cgroup_id)
                    &&& agg.comm@ == l.comm.of(c[0])
                }
                &&& sum.last_ts == 0 ==> agg.last_ret == 0
                &&& sum.last_ts != 0 ==> {
                    &&& record::first_at(best, l.all_lasts(c), sum.last_ts as int)
                    &&& agg.last_ret == record::signed32(l.word(c[best], l.last_ret))
                }
            }),
        decreases percpu@.len() - i,
    {
        let v = percpu[i].as_slice();
        let ghost c = all.take(i as int).filter(keep);
        proof {
            record::lemma_filter_push(all, i as int, keep);
            assert(all[i as int] == v@);
        }
        i = i + 1;
        if v.len() != layout.val_size {
            continue;
        }
        let count: u64 = read_u64(v, layout.count, order);
        if count == 0 {
            continue;
        }
        let first_ts: u64 = read_u64(v, layout.first_ts, order);
        let last_ts: u64 = read_u64(v, layout.last_ts, order);
        proof {
            let lasts = l.all_lasts(c);
            assert(l.all_counts(c.push(v@)) =~= l.all_counts(c).push(count as int));
            assert(l.all_firsts(c.push(v@)) =~= l.all_firsts(c).push(first_ts as int));
            assert(l.all_lasts(c.push(v@)) =~= lasts.push(last_ts as int));
            let next = lasts.push(last_ts as int);
            assert forall|j: int| 0 <= j < lasts.len() implies next[j] == #[trigger] lasts[j] by {}
            if last_ts > sum.last_ts {
                best = c.len() as int;
                assert(record::first_at(best, next, last_ts as int)) by {
                    assert forall|j: int| 0 <= j < best implies #[trigger] next[j] != last_ts by {
                        assert(lasts[j] <= sum.last_ts);
                    }
                }
            } else if sum.last_ts != 0 {
                assert(record::first_at(best, next, sum.last_ts as int)) by {
                    assert forall|j: int| 0 <= j < best
                        implies #[trigger] next[j] != sum.last_ts by {
                        assert(lasts[j] != sum.last_ts);
                    }
                }
            }
        }
        if last_ts > sum.last_ts {
            agg.last_ret = read_i32(v, layout.last_ret, order);
        }
        sum.take_in(
            count,
            first_ts,
            last_ts,
            u64::MAX,
            Ghost(l.all_counts(c)),
            Ghost(l.all_firsts(c)),
            Ghost(l.all_lasts(c)),
        );
        if !got_meta {
            agg.comm = read_bytes(v, layout.comm);
            agg.cgroup_id = read_u64(v, layout.cgroup_id, order);
            got_meta = true;
        }
    }
    let ghost c = l.counted(all);
    assert(all.take(i as int) =~= all);
    proof {
        let plain = |v: Seq<u8>| v.len() == layout.val_size
            && record::number_at(v, layout.count as int, 8, layout.order) != 0;
        assert(keep =~= plain);
        assert(c == all.filter(plain));
        record::lemma_filter_some(all, keep);
        assert forall|i: int| 0 <= i < percpu@.len() implies all[i] == (#[trigger] percpu@[i])@ by {}
        assert(l.all_counts(c) =~= c.map_values(|v: Seq<u8>| record::number_at(v,
            layout.count as int, 8, layout.order) as int));
        assert(l.all_firsts(c) =~= c.map_values(|v: Seq<u8>| record::number_at(v,
            layout.first_ts as int, 8, layout.order) as int));
        assert(l.all_lasts(c) =~= c.map_values(|v: Seq<u8>| record::number_at(v,
            layout.last_ts as int, 8, layout.order) as int));
    }
    if sum.count == 0 {
        return FlushStep::Delete;
    }
    proof {
        record::lemma_earliest_is(sum.first_ts as int, l.all_firsts(c));
        record::lemma_latest_is(sum.last_ts as int, l.all_lasts(c));
        if sum.last_ts != 0 {
            record::lemma_place_is(best, l.all_lasts(c), sum.last_ts as int);
        }
        let lasts = l.all_lasts(c);
        assert forall|k: int|
            0 <= k < c.len() && l.long(c[k], l.last_ts) > 0 && (forall|j: int|
                0 <= j < c.len() && j != k ==> l.long(#[trigger] c[j], l.last_ts) < l.long(
                    c[k],
                    l.last_ts,
                )) implies agg.last_ret == record::signed32(
            l.word(#[trigger] c[k], l.last_ret),
        ) by {
            assert(lasts[k] == l.long(c[k], l.last_ts));
            assert(lasts[k] <= sum.last_ts);
            assert(lasts[best] == l.long(c[best], l.last_ts));
            if best != k {
                assert(l.long(c[best], l.last_ts) < l.long(c[k], l.last_ts));
            }
        }
    }
    agg.count = sum.count;
    agg.first_ts = sum.first_ts;
    agg.last_ts = sum.last_ts;
    let k = ConnectAggKey {
        pid: read_u32(key.as_slice(), layout.pid, order),
        dst_addr: read_u32(key.as_slice(), layout.dst_addr, order),
        dst_port: read_u16(key.as_slice(), layout.dst_port, order),
    };
    FlushStep::EmitAndDelete(ProcNetEvent::from_connect_agg(&k, &agg, clock))
}

} // verus!
