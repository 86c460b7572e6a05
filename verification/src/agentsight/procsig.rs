//! Signals and process control: setpgid, setsid, kill, fork.

use vstd::prelude::*;

use super::record;
use super::record::{
    fits_at, read_bytes, read_i32, read_text, read_u32, read_u64, ByteField, ByteOrder, FlushStep,
    Merge,
};

verus! {

/// Number of the aggregated fork operation.
pub const PROCSIG_FORK_AGG: u32 = 5;

/// Where the fields of a raw signal record lie.
#[derive(Clone, Copy, Debug)]
pub struct ProcSigLayout {
    pub order: ByteOrder,
    pub size: usize,
    pub pid: usize,
    pub tid: usize,
    pub uid: usize,
    pub timestamp_ns: usize,
    pub cgroup_id: usize,
    pub op: usize,
    pub ret: usize,
    pub comm: ByteField,
    pub target_pid: usize,
    pub signal: usize,
}

impl ProcSigLayout {
    /// Every field lies within the record.
    pub open spec fn wf(self) -> bool {
        &&& self.pid + 4 <= self.size
        &&& self.tid + 4 <= self.size
        &&& self.uid + 4 <= self.size
        &&& self.timestamp_ns + 8 <= self.size
        &&& self.cgroup_id + 8 <= self.size
        &&& self.op + 4 <= self.size
        &&& self.ret + 4 <= self.size
        &&& self.comm.within(self.size)
        &&& self.target_pid + 4 <= self.size
        &&& self.signal + 4 <= self.size
    }

    /// Tells whether every field lies within its bytes.
    pub fn fits(&self) -> (r: bool)
        ensures
            r == self.wf(),
            r <==> {
                &&& self.pid + 4 <= self.size
                &&& self.tid + 4 <= self.size
                &&& self.uid + 4 <= self.size
                &&& self.timestamp_ns + 8 <= self.size
                &&& self.cgroup_id + 8 <= self.size
                &&& self.op + 4 <= self.size
                &&& self.ret + 4 <= self.size
                &&& self.comm.offset + self.comm.len <= self.size
                &&& self.target_pid + 4 <= self.size
                &&& self.signal + 4 <= self.size
            },
    {
        fits_at(self.pid, 4, self.size)
            && fits_at(self.tid, 4, self.size)
            && fits_at(self.uid, 4, self.size)
            && fits_at(self.timestamp_ns, 8, self.size)
            && fits_at(self.cgroup_id, 8, self.size)
            && fits_at(self.op, 4, self.size)
            && fits_at(self.ret, 4, self.size)
            && fits_at(
            self.comm.offset,
            self.comm.len,
            self.size,
        )
            && fits_at(self.target_pid, 4, self.size)
            && fits_at(self.signal, 4, self.size)
    }

    /// The 32-bit number at `at`.
    pub open spec fn word(self, data: Seq<u8>, at: usize) -> nat {
        record::number_at(data, at as int, 4, self.order)
    }

    /// The 64-bit number at `at`.
    pub open spec fn long(self, data: Seq<u8>, at: usize) -> nat {
        record::number_at(data, at as int, 8, self.order)
    }
}

/// Where the fields of an entry of the fork aggregation map lie.
#[derive(Clone, Copy, Debug)]
pub struct ForkAggLayout {
    pub order: ByteOrder,
    pub key_size: usize,
    pub parent_pid: usize,
    pub val_size: usize,
    pub count: usize,
    pub first_ts: usize,
    pub last_ts: usize,
    pub cgroup_id: usize,
    pub comm: ByteField,
}

impl ForkAggLayout {
    /// Every field lies within the key or the value.
    pub open spec fn wf(self) -> bool {
        &&& self.parent_pid + 4 <= self.key_size
        &&& self.count + 8 <= self.val_size
        &&& self.first_ts + 8 <= self.val_size
        &&& self.last_ts + 8 <= self.val_size
        &&& self.cgroup_id + 8 <= self.val_size
        &&& self.comm.within(self.val_size)
    }

    /// Tells whether every field lies within its bytes.
    pub fn fits(&self) -> (r: bool)
        ensures
            r == self.wf(),
            r <==> {
                &&& self.parent_pid + 4 <= self.key_size
                &&& self.count + 8 <= self.val_size
                &&& self.first_ts + 8 <= self.val_size
                &&& self.last_ts + 8 <= self.val_size
                &&& self.cgroup_id + 8 <= self.val_size
                &&& self.comm.within(self.val_size)
            },
    {
        fits_at(self.parent_pid, 4, self.key_size)
            && fits_at(self.count, 8, self.val_size)
            && fits_at(self.first_ts, 8, self.val_size)
            && fits_at(self.last_ts, 8, self.val_size)
            && fits_at(self.cgroup_id, 8, self.val_size)
            && fits_at(
            self.comm.offset,
            self.comm.len,
            self.val_size,
        )
    }

    /// The 32-bit number at `at`.
    pub open spec fn word(self, data: Seq<u8>, at: usize) -> nat {
        record::number_at(data, at as int, 4, self.order)
    }

    /// The 64-bit number at `at`.
    pub open spec fn long(self, data: Seq<u8>, at: usize) -> nat {
        record::number_at(data, at as int, 8, self.order)
    }

    /// The value is of the right size and counts something.
    pub open spec fn counts(self, value: Seq<u8>) -> bool {
        value.len() == self.val_size && self.long(value, self.count) != 0
    }

    /// The values that count something, in the order of the CPUs.
    pub open spec fn counted(self, values: Seq<Seq<u8>>) -> Seq<Seq<u8>> {
        values.filter(|v: Seq<u8>| self.counts(v))
    }

    pub open spec fn all_counts(self, values: Seq<Seq<u8>>) -> Seq<int> {
        values.map_values(|v: Seq<u8>| self.long(v, self.count) as int)
    }

    pub open spec fn all_firsts(self, values: Seq<Seq<u8>>) -> Seq<int> {
        values.map_values(|v: Seq<u8>| self.long(v, self.first_ts) as int)
    }

    pub open spec fn all_lasts(self, values: Seq<Seq<u8>>) -> Seq<int> {
        values.map_values(|v: Seq<u8>| self.long(v, self.last_ts) as int)
    }
}

/// A signal record as the probe wrote it.
#[derive(Clone, Debug)]
pub struct RawProcSigEvent {
    pub pid: u32,
    pub tid: u32,
    pub uid: u32,
    pub timestamp_ns: u64,
    pub cgroup_id: u64,
    pub op: u32,
    pub ret: i32,
    pub comm: Vec<u8>,
    pub target_pid: u32,
    pub signal: u32,
}

impl RawProcSigEvent {
    /// The record that `data` holds.
    pub open spec fn read_from(self, data: Seq<u8>, l: ProcSigLayout) -> bool {
        &&& self.pid == l.word(data, l.pid)
        &&& self.tid == l.word(data, l.tid)
        &&& self.uid == l.word(data, l.uid)
        &&& self.timestamp_ns == l.long(data, l.timestamp_ns)
        &&& self.cgroup_id == l.long(data, l.cgroup_id)
        &&& self.op == l.word(data, l.op)
        &&& self.ret == record::signed32(l.word(data, l.ret))
        &&& self.comm@ == l.comm.of(data)
        &&& self.target_pid == l.word(data, l.target_pid)
        &&& self.signal == l.word(data, l.signal)
    }

    /// Reads a record; longer data is cut off.
    pub fn from_bytes(data: &[u8], layout: &ProcSigLayout) -> (r: Option<Self>)
        requires
            layout.wf(),
        ensures
            r is None <==> data@.len() < layout.size,
            r matches Some(raw) ==> raw.read_from(data@, *layout),
    {
        if data.len() < layout.size {
            return None;
        }
        let order = layout.order;
        Some(
            RawProcSigEvent {
                pid: read_u32(data, layout.pid, order),
                tid: read_u32(data, layout.tid, order),
                uid: read_u32(data, layout.uid, order),
                timestamp_ns: read_u64(data, layout.timestamp_ns, order),
                cgroup_id: read_u64(data, layout.cgroup_id, order),
                op: read_u32(data, layout.op, order),
                ret: read_i32(data, layout.ret, order),
                comm: read_bytes(data, layout.comm),
                target_pid: read_u32(data, layout.target_pid, order),
                signal: read_u32(data, layout.signal, order),
            },
        )
    }
}

/// Key of the fork aggregation map.
#[derive(Clone, Debug)]
pub struct ForkAggKey {
    pub parent_pid: u32,
}

/// Value of the fork aggregation map, summed over the CPUs.
#[derive(Clone, Debug)]
pub struct ForkAggVal {
    pub count: u64,
    pub first_ts: u64,
    pub last_ts: u64,
    pub cgroup_id: u64,
    pub comm: Vec<u8>,
}

/// User-space signal event.
#[derive(Clone, Debug)]
pub struct ProcSigEvent {
    pub pid: u32,
    pub tid: u32,
    pub uid: u32,
    /// Unix epoch nanoseconds.
    pub timestamp_ns: u64,
    pub cgroup_id: u64,
    pub op: u32,
    pub ret: i32,
    pub comm: String,
    pub target_pid: u32,
    pub signal: u32,
    // Aggregation fields (zero for single events)
    pub count: u64,
    pub first_ts: u64,
    pub last_ts: u64,
}

/// Name of a signal operation.
pub open spec fn sig_op_name(op: u32) -> Seq<char> {
    if op == 1 {
        "setpgid"@
    } else if op == 2 {
        "setsid"@
    } else if op == 3 {
        "kill"@
    } else if op == 4 {
        "fork_fail"@
    } else if op == 5 {
        "fork"@
    } else {
        "unknown"@
    }
}

impl ProcSigEvent {
    /// The event of a single record, seen at `unix_ns`.
    pub open spec fn shows(self, raw: RawProcSigEvent, unix_ns: u64) -> bool {
        &&& self.pid == raw.pid
        &&& self.tid == raw.tid
        &&& self.uid == raw.uid
        &&& self.timestamp_ns == unix_ns
        &&& self.cgroup_id == raw.cgroup_id
        &&& self.op == raw.op
        &&& self.ret == raw.ret
        &&& self.comm@ == record::field_text(raw.comm@)
        &&& self.target_pid == raw.target_pid
        &&& self.signal == raw.signal
        &&& self.count == 0
        &&& self.first_ts == 0
        &&& self.last_ts == 0
    }

    /// The event of forks that were counted in the kernel, but for its
    /// times.
    pub open spec fn shows_forks(
        self,
        parent_pid: nat,
        count: int,
        cgroup_id: nat,
        comm: Seq<u8>,
    ) -> bool {
        &&& self.pid == parent_pid
        &&& self.tid == 0
        &&& self.uid == 0
        &&& self.cgroup_id == cgroup_id
        &&& self.op == PROCSIG_FORK_AGG
        &&& self.ret == 0
        &&& self.comm@ == record::field_text(comm)
        &&& self.target_pid == 0
        &&& self.signal == 0
        &&& self.count == count
    }

    /// What ring buffer data becomes: nothing where it is too short, else the
    /// event of the record it holds.
    pub open spec fn parsed<F: Fn(u64) -> u64>(
        data: Seq<u8>,
        l: ProcSigLayout,
        clock: F,
        r: Option<Self>,
    ) -> bool {
        &&& r is None <==> data.len() < l.size
        &&& r matches Some(e) ==> exists|raw: RawProcSigEvent|
            {
                &&& #[trigger] raw.read_from(data, l)
                &&& call_ensures(clock, (raw.timestamp_ns,), e.timestamp_ns)
                &&& e.shows(raw, e.timestamp_ns)
            }
    }

    /// Human-readable operation name.
    pub fn op_name(&self) -> (r: &'static str)
        ensures
            r@ == sig_op_name(self.op),
            self.op == 1 ==> r@ == "setpgid"@,
            self.op == 2 ==> r@ == "setsid"@,
            self.op == 3 ==> r@ == "kill"@,
            self.op == 4 ==> r@ == "fork_fail"@,
            self.op == 5 ==> r@ == "fork"@,
            self.op == 0 || self.op > 5 ==> r@ == "unknown"@,
    {
        match self.op {
            1 => "setpgid",
            2 => "setsid",
            3 => "kill",
            4 => "fork_fail",
            5 => "fork",
            _ => "unknown",
        }
    }

    /// Turns a record into an event, seen at `unix_ns`.
    pub fn from_raw(raw: &RawProcSigEvent, unix_ns: u64) -> (r: Self)
        ensures
            r.shows(*raw, unix_ns),
    {
        ProcSigEvent {
            pid: raw.pid,
            tid: raw.tid,
            uid: raw.uid,
            timestamp_ns: unix_ns,
            cgroup_id: raw.cgroup_id,
            op: raw.op,
            ret: raw.ret,
            comm: read_text(&raw.comm),
            target_pid: raw.target_pid,
            signal: raw.signal,
            count: 0,
            first_ts: 0,
            last_ts: 0,
        }
    }

    /// Parses an event from ring buffer data. `clock` turns the kernel's time
    /// into Unix time.
    pub fn from_bytes<F: Fn(u64) -> u64>(data: &[u8], layout: &ProcSigLayout, clock: &F) -> (r:
        Option<Self>)
        requires
            layout.wf(),
            forall|t: u64| #[trigger] call_requires(*clock, (t,)),
        ensures
            Self::parsed(data@, *layout, *clock, r),
            data@.len() < layout.size ==> r is None,
            r matches Some(e) ==> {
                let o = layout.order;
                &&& e.pid == record::number_at(data@, layout.pid as int, 4, o)
                &&& e.tid == record::number_at(data@, layout.tid as int, 4, o)
                &&& e.uid == record::number_at(data@, layout.uid as int, 4, o)
                &&& e.op == record::number_at(data@, layout.op as int, 4, o)
                &&& e.target_pid == record::number_at(data@, layout.target_pid as int, 4, o)
                &&& e.signal == record::number_at(data@, layout.signal as int, 4, o)
                &&& e.cgroup_id == record::number_at(data@, layout.cgroup_id as int, 8, o)
                &&& call_ensures(*clock, (record::number_at(data@, layout.timestamp_ns as int, 8,
                    o) as u64,), e.timestamp_ns)
                &&& e.comm@ == record::field_text(data@.subrange(layout.comm.offset as int,
                    layout.comm.offset + layout.comm.len))
                &&& e.count == 0
                &&& e.first_ts == 0
                &&& e.last_ts == 0
                &&& (e.ret - record::number_at(data@, layout.ret as int, 4, o)) % 0x1_0000_0000 == 0
            },
    {
        match RawProcSigEvent::from_bytes(data, layout) {
            None => None,
            Some(raw) => {
                let unix_ns: u64 = clock(raw.timestamp_ns);
                Some(ProcSigEvent::from_raw(&raw, unix_ns))
            },
        }
    }

    /// The aggregated fork event of a key and its summed value.
    pub fn from_fork_agg<F: Fn(u64) -> u64>(
        key: &ForkAggKey,
        val: &ForkAggVal,
        clock: &F,
    ) -> (r: Self)
        requires
            forall|t: u64| #[trigger] call_requires(*clock, (t,)),
        ensures
            r.shows_forks(
                key.parent_pid as nat,
                val.count as int,
                val.cgroup_id as nat,
                val.comm@,
            ),
            call_ensures(*clock, (val.last_ts,), r.timestamp_ns),
            call_ensures(*clock, (val.first_ts,), r.first_ts),
            call_ensures(*clock, (val.last_ts,), r.last_ts),
    {
        ProcSigEvent {
            pid: key.parent_pid,
            tid: 0,
            uid: 0,
            timestamp_ns: clock(val.last_ts),
            cgroup_id: val.cgroup_id,
            op: PROCSIG_FORK_AGG,
            ret: 0,
            comm: read_text(&val.comm),
            target_pid: 0,
            signal: 0,
            count: val.count,
            first_ts: clock(val.first_ts),
            last_ts: clock(val.last_ts),
        }
    }
}

/// The event that stands for all counted values of one key.
pub open spec fn fork_total<F: Fn(u64) -> u64>(
    e: ProcSigEvent,
    key: Seq<u8>,
    counted: Seq<Seq<u8>>,
    l: ForkAggLayout,
    clock: F,
) -> bool {
    let last_ts = record::latest(l.all_lasts(counted)) as u64;
    let first_ts = record::earliest(l.all_firsts(counted)) as u64;
    &&& e.shows_forks(
        l.word(key, l.parent_pid),
        record::total(l.all_counts(counted), u64::MAX as int),
        l.long(counted[0], l.cgroup_id),
        l.comm.of(counted[0]),
    )
    &&& call_ensures(clock, (last_ts,), e.timestamp_ns)
    &&& call_ensures(clock, (first_ts,), e.first_ts)
    &&& call_ensures(clock, (last_ts,), e.last_ts)
}

/// Sums the values of all CPUs for one key of the fork aggregation map.
/// `values` is `None` where the key could not be looked up.
pub fn flush_fork_agg<F: Fn(u64) -> u64>(
    key: &Vec<u8>,
    values: &Option<Vec<Vec<u8>>>,
    layout: &ForkAggLayout,
    clock: &F,
) -> (r: FlushStep<ProcSigEvent>)
    requires
        layout.wf(),
        forall|t: u64| #[trigger] call_requires(*clock, (t,)),
    ensures
        r is Skip <==> key@.len() != layout.key_size,
        r is EmitAndDelete <==> key@.len() == layout.key_size && values is Some && layout.counted(
            record::raw_values(values->Some_0@),
        ).len() > 0,
        r matches FlushStep::EmitAndDelete(e) ==> fork_total(
            e,
            key@,
            layout.counted(record::raw_values(values->Some_0@)),
            *layout,
            *clock,
        ),
        r is EmitAndDelete ==> exists|i: int|
            0 <= i < values->Some_0@.len() && (#[trigger] values->Some_0@[i])@.len()
                == layout.val_size && record::number_at(values->Some_0@[i]@, layout.count as int,
                    8, layout.order) != 0,
        r is Delete && values is Some ==> forall|i: int|
            0 <= i < values->Some_0@.len() && (#[trigger] values->Some_0@[i])@.len()
                == layout.val_size ==> record::number_at(values->Some_0@[i]@, layout.count as int,
                    8, layout.order) == 0,
        r matches FlushStep::EmitAndDelete(e) ==> {
            let counted = record::raw_values(values->Some_0@).filter(
                |v: Seq<u8>| v.len() == layout.val_size
                    && record::number_at(v, layout.count as int, 8, layout.order) != 0,
            );
            &&& e.pid == record::number_at(key@, layout.parent_pid as int, 4, layout.order)
            &&& e.op == 5
            &&& e.ret == 0
            &&& e.tid == 0
            &&& e.uid == 0
            &&& e.target_pid == 0
            &&& e.signal == 0
            &&& e.count == record::total(
                counted.map_values(|v: Seq<u8>| record::number_at(v, layout.count as int, 8,
                    layout.order) as int),
                u64::MAX as int,
            )
            &&& e.cgroup_id == record::number_at(counted[0], layout.cgroup_id as int, 8,
                layout.order)
            &&& e.comm@ == record::field_text(
                counted[0].subrange(layout.comm.offset as int, layout.comm.offset + layout.comm.len),
            )
            &&& call_ensures(*clock, (record::latest(counted.map_values(
                |v: Seq<u8>| record::number_at(v, layout.last_ts as int, 8,
                layout.order) as int)) as u64,), e.timestamp_ns)
            &&& call_ensures(*clock, (record::latest(counted.map_values(
                |v: Seq<u8>| record::number_at(v, layout.last_ts as int, 8,
                layout.order) as int)) as u64,), e.last_ts)
            &&& call_ensures(*clock, (record::earliest(counted.map_values(
                |v: Seq<u8>| record::number_at(v, layout.first_ts as int, 8,
                layout.order) as int)) as u64,), e.first_ts)
        },
{
    if key.len() != layout.key_size {
        return FlushStep::Skip;
    }
    let percpu = match values {
        Some(v) => v,
        None => {
            return FlushStep::Delete;
        },
    };
    let order = layout.order;
    let ghost l = *layout;
    let ghost all = record::raw_values(percpu@);
    let ghost keep = |v: Seq<u8>| l.counts(v);
    let mut sum = Merge::new();
    let mut agg = ForkAggVal {
        count: 0,
        first_ts: 0,
        last_ts: 0,
        cgroup_id: 0,
        comm: Vec::new(),
    };
    let mut got_meta: bool = false;
    let mut i: usize = 0;
    proof {
        assert(all.take(0).filter(keep) =~= Seq::empty()) by {
            reveal(Seq::filter);
        }
        assert(l.all_counts(Seq::empty()) =~= Seq::empty());
        assert(l.all_firsts(Seq::empty()) =~= Seq::empty());
        assert(l.all_lasts(Seq::empty()) =~= Seq::empty());
    }
    while i < percpu.len()
        invariant
            layout.wf(),
            l == *layout,
            order == layout.order,
            all == record::raw_values(percpu@),
            keep == (|v: Seq<u8>| l.counts(v)),
            i <= percpu@.len(),
            ({
                let c = all.take(i as int).filter(keep);
                &&& sum.sums(l.all_counts(c), l.all_firsts(c), l.all_lasts(c), u64::MAX)
                &&& got_meta == (c.len() > 0)
                &&& got_meta ==> {
                    &&& sum.count > 0
                    &&& agg.cgroup_id == l.long(c[0], l.cgroup_id)
                    &&& agg.comm@ == l.comm.of(c[0])
                }
            }),
        decreases percpu@.len() - i,
    {
        let v = percpu[i].as_slice();
        let ghost c = all.take(i as int).filter(keep);
        proof {
            record::lemma_filter_push(all, i as int, keep);
            assert(all[i as int] == v@);
        }
        i = i + 1;
        if v.len() != layout.val_size {
            continue;
        }
        let count: u64 = read_u64(v, layout.count, order);
        if count == 0 {
            continue;
        }
        let first_ts: u64 = read_u64(v, layout.first_ts, order);
        let last_ts: u64 = read_u64(v, layout.last_ts, order);
        proof {
            let lasts = l.all_lasts(c);
            assert(l.all_counts(c.push(v@)) =~= l.all_counts(c).push(count as int));
            assert(l.all_firsts(c.push(v@)) =~= l.all_firsts(c).push(first_ts as int));
            assert(l.all_lasts(c.push(v@)) =~= lasts.push(last_ts as int));
        }
        sum.take_in(
            count,
            first_ts,
            last_ts,
            u64::MAX,
            Ghost(l.all_counts(c)),
            Ghost(l.all_firsts(c)),
            Ghost(l.all_lasts(c)),
        );
        if !got_meta {
            agg.comm = read_bytes(v, layout.comm);
            agg.cgroup_id = read_u64(v, layout.cgroup_id, order);
            got_meta = true;
        }
    }
    let ghost c = l.counted(all);
    assert(all.take(i as int) =~= all);
    proof {
        let plain = |v: Seq<u8>| v.len() == layout.val_size
            && record::number_at(v, layout.count as int, 8, layout.order) != 0;
        assert(keep =~= plain);
        assert(c == all.filter(plain));
        record::lemma_filter_some(all, keep);
        assert forall|i: int| 0 <= i < percpu@.len() implies all[i] == (#[trigger] percpu@[i])@ by {}
        assert(l.all_counts(c) =~= c.map_values(|v: Seq<u8>| record::number_at(v,
            layout.count as int, 8, layout.order) as int));
        assert(l.all_firsts(c) =~= c.map_values(|v: Seq<u8>| record::number_at(v,
            layout.first_ts as int, 8, layout.order) as int));
        assert(l.all_lasts(c) =~= c.map_values(|v: Seq<u8>| record::number_at(v,
            layout.last_ts as int, 8, layout.order) as int));
    }
    if sum.count == 0 {
        return FlushStep::Delete;
    }
    proof {
        record::lemma_earliest_is(sum.first_ts as int, l.all_firsts(c));
        record::lemma_latest_is(sum.last_ts as int, l.all_lasts(c));
    }
    agg.count = sum.count;
    agg.first_ts = sum.first_ts;
    agg.last_ts = sum.last_ts;
    let k = ForkAggKey {
        parent_pid: read_u32(key.as_slice(), layout.parent_pid, order),
    };
    FlushStep::EmitAndDelete(ProcSigEvent::from_fork_agg(&k, &agg, clock))
}

} // verus!
