//! Filesystem operations: delete, rename, mkdir, truncate, chdir, open.

use vstd::prelude::*;

use super::record;
use super::record::{
    fits_at, read_bytes, read_i32, read_text, read_u32, read_u64, ByteField, ByteOrder, FlushStep,
    Merge,
};

verus! {

/// Number of the open operation.
pub const PROCFS_OPEN: u32 = 8;

/// Where the fields of a raw filesystem record lie.
#[derive(Clone, Copy, Debug)]
pub struct ProcFsLayout {
    pub order: ByteOrder,
    pub size: usize,
    pub pid: usize,
    pub tid: usize,
    pub uid: usize,
    pub timestamp_ns: usize,
    pub cgroup_id: usize,
    pub op: usize,
    pub ret: usize,
    pub count: usize,
    pub comm: ByteField,
    pub path: ByteField,
    pub new_path: ByteField,
}

impl ProcFsLayout {
    /// Every field lies within the record.
    pub open spec fn wf(self) -> bool {
        &&& self.pid + 4 <= self.size
        &&& self.tid + 4 <= self.size
        &&& self.uid + 4 <= self.size
        &&& self.timestamp_ns + 8 <= self.size
        &&& self.cgroup_id + 8 <= self.size
        &&& self.op + 4 <= self.size
        &&& self.ret + 4 <= self.size
        &&& self.count + 4 <= self.size
        &&& self.comm.within(self.size)
        &&& self.path.within(self.size)
        &&& self.new_path.within(self.size)
    }

    /// Tells whether every field lies within its bytes.
    pub fn fits(&self) -> (r: bool)
        ensures
            r == self.wf(),
            r <==> {
                &&& self.pid + 4 <= self.size
                &&& self.tid + 4 <= self.size
                &&& self.uid + 4 <= self.size
                &&& self.timestamp_ns + 8 <= self.size
                &&& self.cgroup_id + 8 <= self.size
                &&& self.op + 4 <= self.size
                &&& self.ret + 4 <= self.size
                &&& self.count + 4 <= self.size
                &&& self.comm.offset + self.comm.len <= self.size
                &&& self.path.offset + self.path.len <= self.size
                &&& self.new_path.offset + self.new_path.len <= self.size
            },
    {
        fits_at(self.pid, 4, self.size)
            && fits_at(self.tid, 4, self.size)
            && fits_at(self.uid, 4, self.size)
            && fits_at(self.timestamp_ns, 8, self.size)
            && fits_at(self.cgroup_id, 8, self.size)
            && fits_at(self.op, 4, self.size)
            && fits_at(self.ret, 4, self.size)
            && fits_at(self.count, 4, self.size)
            && fits_at(
            self.comm.offset,
            self.comm.len,
            self.size,
        )
            && fits_at(
            self.path.offset,
            self.path.len,
            self.size,
        )
            && fits_at(
            self.new_path.offset,
            self.new_path.len,
            self.size,
        )
    }

    /// The 32-bit number at `at`.
    pub open spec fn word(self, data: Seq<u8>, at: usize) -> nat {
        record::number_at(data, at as int, 4, self.order)
    }

    /// The 64-bit number at `at`.
    pub open spec fn long(self, data: Seq<u8>, at: usize) -> nat {
        record::number_at(data, at as int, 8, self.order)
    }
}

/// Where the fields of an entry of the open aggregation map lie.
#[derive(Clone, Copy, Debug)]
pub struct OpenAggLayout {
    pub order: ByteOrder,
    pub key_size: usize,
    pub pid: usize,
    pub path: ByteField,
    pub val_size: usize,
    pub count: usize,
    pub first_ts: usize,
    pub last_ts: usize,
    pub cgroup_id: usize,
    pub tid: usize,
    pub uid: usize,
    pub comm: ByteField,
}

impl OpenAggLayout {
    /// Every field lies within the key or the value.
    pub open spec fn wf(self) -> bool {
        &&& self.pid + 4 <= self.key_size
        &&& self.path.within(self.key_size)
        &&& self.count + 4 <= self.val_size
        &&& self.first_ts + 8 <= self.val_size
        &&& self.last_ts + 8 <= self.val_size
        &&& self.cgroup_id + 8 <= self.val_size
        &&& self.tid + 4 <= self.val_size
        &&& self.uid + 4 <= self.val_size
        &&& self.comm.within(self.val_size)
    }

    /// Tells whether every field lies within its bytes.
    pub fn fits(&self) -> (r: bool)
        ensures
            r == self.wf(),
            r <==> {
                &&& self.pid + 4 <= self.key_size
                &&& self.path.within(self.key_size)
                &&& self.count + 4 <= self.val_size
                &&& self.first_ts + 8 <= self.val_size
                &&& self.last_ts + 8 <= self.val_size
                &&& self.cgroup_id + 8 <= self.val_size
                &&& self.tid + 4 <= self.val_size
                &&& self.uid + 4 <= self.val_size
                &&& self.comm.within(self.val_size)
            },
    {
        fits_at(self.pid, 4, self.key_size)
            && fits_at(
            self.path.offset,
            self.path.len,
            self.key_size,
        )
            && fits_at(self.count, 4, self.val_size)
            && fits_at(self.first_ts, 8, self.val_size)
            && fits_at(self.last_ts, 8, self.val_size)
            && fits_at(self.cgroup_id, 8, self.val_size)
            && fits_at(self.tid, 4, self.val_size)
            && fits_at(self.uid, 4, self.val_size)
            && fits_at(
            self.comm.offset,
            self.comm.len,
            self.val_size,
        )
    }

    /// The 32-bit number at `at`.
    pub open spec fn word(self, data: Seq<u8>, at: usize) -> nat {
        record::number_at(data, at as int, 4, self.order)
    }

    /// The 64-bit number at `at`.
    pub open spec fn long(self, data: Seq<u8>, at: usize) -> nat {
        record::number_at(data, at as int, 8, self.order)
    }

    /// The value is of the right size and counts something.
    pub open spec fn counts(self, value: Seq<u8>) -> bool {
        value.len() == self.val_size && self.word(value, self.count) != 0
    }

    /// The values that count something, in the order of the CPUs.
    pub open spec fn counted(self, values: Seq<Seq<u8>>) -> Seq<Seq<u8>> {
        values.filter(|v: Seq<u8>| self.counts(v))
    }

    pub open spec fn all_counts(self, values: Seq<Seq<u8>>) -> Seq<int> {
        values.map_values(|v: Seq<u8>| self.word(v, self.count) as int)
    }

    pub open spec fn all_firsts(self, values: Seq<Seq<u8>>) -> Seq<int> {
        values.map_values(|v: Seq<u8>| self.long(v, self.first_ts) as int)
    }

    pub open spec fn all_lasts(self, values: Seq<Seq<u8>>) -> Seq<int> {
        values.map_values(|v: Seq<u8>| self.long(v, self.last_ts) as int)
    }
}

/// A filesystem record as the probe wrote it.
#[derive(Clone, Debug)]
pub struct RawProcFsEvent {
    pub pid: u32,
    pub tid: u32,
    pub uid: u32,
    pub timestamp_ns: u64,
    pub cgroup_id: u64,
    pub op: u32,
    pub ret: i32,
    pub count: u32,
    pub comm: Vec<u8>,
    pub path: Vec<u8>,
    pub new_path: Vec<u8>,
}

impl RawProcFsEvent {
    /// The record that `data` holds.
    pub open spec fn read_from(self, data: Seq<u8>, l: ProcFsLayout) -> bool {
        &&& self.pid == l.word(data, l.pid)
        &&& self.tid == l.word(data, l.tid)
        &&& self.uid == l.word(data, l.uid)
        &&& self.timestamp_ns == l.long(data, l.timestamp_ns)
        &&& self.cgroup_id == l.long(data, l.cgroup_id)
        &&& self.op == l.word(data, l.op)
        &&& self.ret == record::signed32(l.word(data, l.ret))
        &&& self.count == l.word(data, l.count)
        &&& self.comm@ == l.comm.of(data)
        &&& self.path@ == l.path.of(data)
        &&& self.new_path@ == l.new_path.of(data)
    }

    /// Reads a record; longer data is cut off.
    pub fn from_bytes(data: &[u8], layout: &ProcFsLayout) -> (r: Option<Self>)
        requires
            layout.wf(),
        ensures
            r is None <==> data@.len() < layout.size,
            r matches Some(raw) ==> raw.read_from(data@, *layout),
    {
        if data.len() < layout.size {
            return None;
        }
        let order = layout.order;
        Some(
            RawProcFsEvent {
                pid: read_u32(data, layout.pid, order),
                tid: read_u32(data, layout.tid, order),
                uid: read_u32(data, layout.uid, order),
                timestamp_ns: read_u64(data, layout.timestamp_ns, order),
                cgroup_id: read_u64(data, layout.cgroup_id, order),
                op: read_u32(data, layout.op, order),
                ret: read_i32(data, layout.ret, order),
                count: read_u32(data, layout.count, order),
                comm: read_bytes(data, layout.comm),
                path: read_bytes(data, layout.path),
                new_path: read_bytes(data, layout.new_path),
            },
        )
    }
}

/// Key of the open aggregation map.
#[derive(Clone, Debug)]
pub struct OpenAggKey {
    pub pid: u32,
    pub path: Vec<u8>,
}

/// Value of the open aggregation map, summed over the CPUs.
#[derive(Clone, Debug)]
pub struct OpenAggVal {
    pub count: u32,
    pub first_ts: u64,
    pub last_ts: u64,
    pub cgroup_id: u64,
    pub tid: u32,
    pub uid: u32,
    pub comm: Vec<u8>,
}

/// User-space filesystem event.
#[derive(Clone, Debug)]
pub struct ProcFsEvent {
    pub pid: u32,
    pub tid: u32,
    pub uid: u32,
    /// Unix epoch nanoseconds.
    pub timestamp_ns: u64,
    pub cgroup_id: u64,
    pub op: u32,
    pub ret: i32,
    pub comm: String,
    pub path: String,
    pub new_path: String,
    // Aggregation fields (zero for single events)
    pub count: u64,
    pub total_bytes: u64,
    pub first_ts: u64,
    pub last_ts: u64,
}

/// Name of a filesystem operation.
pub open spec fn fs_op_name(op: u32) -> Seq<char> {
    if op == 1 {
        "delete"@
    } else if op == 2 {
        "rename"@
    } else if op == 3 {
        "mkdir"@
    } else if op == 4 {
        "truncate"@
    } else if op == 5 {
        "chdir"@
    } else if op == 6 {
        "write_error"@
    } else if op == 7 {
        "write"@
    } else if op == 8 {
        "open"@
    } else if op == 9 {
        "rmdir"@
    } else {
        "unknown"@
    }
}

impl ProcFsEvent {
    /// The event of a single record, seen at `unix_ns`.
    pub open spec fn shows(self, raw: RawProcFsEvent, unix_ns: u64) -> bool {
        &&& self.pid == raw.pid
        &&& self.tid == raw.tid
        &&& self.uid == raw.uid
        &&& self.timestamp_ns == unix_ns
        &&& self.cgroup_id == raw.cgroup_id
        &&& self.op == raw.op
        &&& self.ret == raw.ret
        &&& self.comm@ == record::field_text(raw.comm@)
        &&& self.path@ == record::field_text(raw.path@)
        &&& self.new_path@ == record::field_text(raw.new_path@)
        &&& self.count == raw.count
        &&& self.total_bytes == 0
        &&& self.first_ts == 0
        &&& self.last_ts == 0
    }

    /// The event of a successful open that was counted in the kernel, but for
    /// its times.
    pub open spec fn shows_opens(
        self,
        pid: nat,
        path: Seq<u8>,
        count: int,
        cgroup_id: nat,
        tid: nat,
        uid: nat,
        comm: Seq<u8>,
    ) -> bool {
        &&& self.pid == pid
        &&& self.tid == tid
        &&& self.uid == uid
        &&& self.cgroup_id == cgroup_id
        &&& self.op == PROCFS_OPEN
        &&& self.ret == 0
        &&& self.comm@ == record::field_text(comm)
        &&& self.path@ == record::field_text(path)
        &&& self.new_path@ == Seq::<char>::empty()
        &&& self.count == count
        &&& self.total_bytes == 0
    }

    /// What ring buffer data becomes: nothing where it is too short, else the
    /// event of the record it holds.
    pub open spec fn parsed<F: Fn(u64) -> u64>(
        data: Seq<u8>,
        l: ProcFsLayout,
        clock: F,
        r: Option<Self>,
    ) -> bool {
        &&& r is None <==> data.len() < l.size
        &&& r matches Some(e) ==> exists|raw: RawProcFsEvent|
            {
                &&& #[trigger] raw.read_from(data, l)
                &&& call_ensures(clock, (raw.timestamp_ns,), e.timestamp_ns)
                &&& e.shows(raw, e.timestamp_ns)
            }
    }

    /// Human-readable operation name.
    pub fn op_name(&self) -> (r: &'static str)
        ensures
            r@ == fs_op_name(self.op),
            self.op == 1 ==> r@ == "delete"@,
            self.op == 2 ==> r@ == "rename"@,
            self.op == 3 ==> r@ == "mkdir"@,
            self.op == 4 ==> r@ == "truncate"@,
            self.op == 5 ==> r@ == "chdir"@,
            self.op == 6 ==> r@ == "write_error"@,
            self.op == 7 ==> r@ == "write"@,
            self.op == 8 ==> r@ == "open"@,
            self.op == 9 ==> r@ == "rmdir"@,
            self.op == 0 || self.op > 9 ==> r@ == "unknown"@,
    {
        match self.op {
            1 => "delete",
            2 => "rename",
            3 => "mkdir",
            4 => "truncate",
            5 => "chdir",
            6 => "write_error",
            7 => "write",
            8 => "open",
            9 => "rmdir",
            _ => "unknown",
        }
    }

    /// Turns a record into an event, seen at `unix_ns`.
    pub fn from_raw(raw: &RawProcFsEvent, unix_ns: u64) -> (r: Self)
        ensures
            r.shows(*raw, unix_ns),
    {
        ProcFsEvent {
            pid: raw.pid,
            tid: raw.tid,
            uid: raw.uid,
            timestamp_ns: unix_ns,
            cgroup_id: raw.cgroup_id,
            op: raw.op,
            ret: raw.ret,
            comm: read_text(&raw.comm),
            path: read_text(&raw.path),
            new_path: read_text(&raw.new_path),
            count: raw.count as u64,
            total_bytes: 0,
            first_ts: 0,
            last_ts: 0,
        }
    }

    /// Parses an event from ring buffer data. `clock` turns the kernel's time
    /// into Unix time.
    pub fn from_bytes<F: Fn(u64) -> u64>(data: &[u8], layout: &ProcFsLayout, clock: &F) -> (r:
        Option<Self>)
        requires
            layout.wf(),
            forall|t: u64| #[trigger] call_requires(*clock, (t,)),
        ensures
            Self::parsed(data@, *layout, *clock, r),
            data@.len() < layout.size ==> r is None,
            r matches Some(e) ==> {
                let o = layout.order;
                &&& e.pid == record::number_at(data@, layout.pid as int, 4, o)
                &&& e.tid == record::number_at(data@, layout.tid as int, 4, o)
                &&& e.uid == record::number_at(data@, layout.uid as int, 4, o)
                &&& e.op == record::number_at(data@, layout.op as int, 4, o)
                &&& e.count == record::number_at(data@, layout.count as int, 4, o)
                &&& e.cgroup_id == record::number_at(data@, layout.cgroup_id as int, 8, o)
                &&& call_ensures(*clock, (record::number_at(data@, layout.timestamp_ns as int, 8,
                    o) as u64,), e.timestamp_ns)
                &&& e.comm@ == record::field_text(data@.subrange(layout.comm.offset as int,
                    layout.comm.offset + layout.comm.len))
                &&& e.path@ == record::field_text(data@.subrange(layout.path.offset as int,
                    layout.path.offset + layout.path.len))
                &&& e.new_path@ == record::field_text(data@.subrange(layout.new_path.offset as int,
                    layout.new_path.offset + layout.new_path.len))
                &&& e.total_bytes == 0
                &&& e.first_ts == 0
                &&& e.last_ts == 0
                &&& (e.ret - record::number_at(data@, layout.ret as int, 4, o)) % 0x1_0000_0000 == 0
            },
    {
        match RawProcFsEvent::from_bytes(data, layout) {
            None => None,
            Some(raw) => {
                let unix_ns: u64 = clock(raw.timestamp_ns);
                Some(ProcFsEvent::from_raw(&raw, unix_ns))
            },
        }
    }

    /// The aggregated open event of a key and its summed value: one event per
    /// process and path and flush window.
    pub fn from_open_agg<F: Fn(u64) -> u64>(key: &OpenAggKey, val: &OpenAggVal, clock: &F) -> (r:
        Self)
        requires
            forall|t: u64| #[trigger] call_requires(*clock, (t,)),
        ensures
            r.shows_opens(
                key.pid as nat,
                key.path@,
                val.count as int,
                val.cgroup_id as nat,
                val.tid as nat,
                val.uid as nat,
                val.comm@,
            ),
            call_ensures(*clock, (val.last_ts,), r.timestamp_ns),
            call_ensures(*clock, (val.first_ts,), r.first_ts),
            call_ensures(*clock, (val.last_ts,), r.last_ts),
    {
        ProcFsEvent {
            pid: key.pid,
            tid: val.tid,
            uid: val.uid,
            timestamp_ns: clock(val.last_ts),
            cgroup_id: val.cgroup_id,
            op: PROCFS_OPEN,
            ret: 0,
            comm: read_text(&val.comm),
            path: read_text(&key.path),
            new_path: String::new(),
            count: val.count as u64,
            total_bytes: 0,
            first_ts: clock(val.first_ts),
            last_ts: clock(val.last_ts),
        }
    }
}

/// The event that stands for all counted values of one key.
pub open spec fn open_total<F: Fn(u64) -> u64>(
    e: ProcFsEvent,
    key: Seq<u8>,
    counted: Seq<Seq<u8>>,
    l: OpenAggLayout,
    clock: F,
) -> bool {
    let last_ts = record::latest(l.all_lasts(counted)) as u64;
    let first_ts = record::earliest(l.all_firsts(counted)) as u64;
    &&& e.shows_opens(
        l.word(key, l.pid),
        l.path.of(key),
        record::total(l.all_counts(counted), u32::MAX as int),
        l.long(counted[0], l.cgroup_id),
        l.word(counted[0], l.tid),
        l.word(counted[0], l.uid),
        l.comm.of(counted[0]),
    )
    &&& call_ensures(clock, (last_ts,), e.timestamp_ns)
    &&& call_ensures(clock, (first_ts,), e.first_ts)
    &&& call_ensures(clock, (last_ts,), e.last_ts)
}

/// Sums the values of all CPUs for one key of the open aggregation map.
/// `values` is `None` where the key could not be looked up.
pub fn flush_open_agg<F: Fn(u64) -> u64>(
    key: &Vec<u8>,
    values: &Option<Vec<Vec<u8>>>,
    layout: &OpenAggLayout,
    clock: &F,
) -> (r: FlushStep<ProcFsEvent>)
    requires
        layout.wf(),
        forall|t: u64| #[trigger] call_requires(*clock, (t,)),
    ensures
        r is Skip <==> key@.len() != layout.key_size,
        r is EmitAndDelete <==> key@.len() == layout.key_size && values is Some && layout.counted(
            record::raw_values(values->Some_0@),
        ).len() > 0,
        r matches FlushStep::EmitAndDelete(e) ==> open_total(
            e,
            key@,
            layout.counted(record::raw_values(values->Some_0@)),
            *layout,
            *clock,
        ),
        r is EmitAndDelete ==> exists|i: int|
            0 <= i < values->Some_0@.len() && (#[trigger] values->Some_0@[i])@.len()
                == layout.val_size && record::number_at(values->Some_0@[i]@, layout.count as int,
                    4, layout.order) != 0,
        r is Delete && values is Some ==> forall|i: int|
            0 <= i < values->Some_0@.len() && (#[trigger] values->Some_0@[i])@.len()
                == layout.val_size ==> record::number_at(values->Some_0@[i]@, layout.count as int,
                    4, layout.order) == 0,
        r matches FlushStep::EmitAndDelete(e) ==> {
            let counted = record::raw_values(values->Some_0@).filter(
                |v: Seq<u8>| v.len() == layout.val_size
                    && record::number_at(v, layout.count as int, 4, layout.order) != 0,
            );
            &&& e.pid == record::number_at(key@, layout.pid as int, 4, layout.order)
            &&& e.path@ == record::field_text(
                key@.subrange(layout.path.offset as int, layout.path.offset + layout.path.len),
            )
            &&& e.new_path@ == Seq::<char>::empty()
            &&& e.op == 8
            &&& e.ret == 0
            &&& e.total_bytes == 0
            &&& e.count == record::total(
                counted.map_values(|v: Seq<u8>| record::number_at(v, layout.count as int, 4,
                    layout.order) as int),
                u32::MAX as int,
            )
            &&& e.cgroup_id == record::number_at(counted[0], layout.cgroup_id as int, 8,
                layout.order)
            &&& e.tid == record::number_at(counted[0], layout.tid as int, 4, layout.order)
            &&& e.uid == record::number_at(counted[0], layout.uid as int, 4, layout.order)
            &&& e.comm@ == record::field_text(
                counted[0].subrange(layout.comm.offset as int, layout.comm.offset + layout.comm.len),
            )
            &&& call_ensures(*clock, (record::latest(counted.map_values(
                |v: Seq<u8>| record::number_at(v, layout.last_ts as int, 8,
                layout.order) as int)) as u64,), e.timestamp_ns)
            &&& call_ensures(*clock, (record::latest(counted.map_values(
                |v: Seq<u8>| record::number_at(v, layout.last_ts as int, 8,
                layout.order) as int)) as u64,), e.last_ts)
            &&& call_ensures(*clock, (record::earliest(counted.map_values(
                |v: Seq<u8>| record::number_at(v, layout.first_ts as int, 8,
                layout.order) as int)) as u64,), e.first_ts)
        },
{
    if key.len() != layout.key_size {
        return FlushStep::Skip;
    }
    let percpu = match values {
        Some(v) => v,
        None => {
            return FlushStep::Delete;
        },
    };
    let order = layout.order;
    let ghost l = *layout;
    let ghost all = record::raw_values(percpu@);
    let ghost keep = |v: Seq<u8>| l.counts(v);
    let mut sum = Merge::new();
    let mut agg = OpenAggVal {
        count: 0,
        first_ts: 0,
        last_ts: 0,
        cgroup_id: 0,
        tid: 0,
        uid: 0,
        comm: Vec::new(),
    };
    let mut got_meta: bool = false;
    let mut i: usize = 0;
    proof {
        assert(all.take(0).filter(keep) =~= Seq::empty()) by {
            reveal(Seq::filter);
        }
        assert(l.all_counts(Seq::empty()) =~= Seq::empty());
        assert(l.all_firsts(Seq::empty()) =~= Seq::empty());
        assert(l.all_lasts(Seq::empty()) =~= Seq::empty());
    }
    while i < percpu.len()
        invariant
            layout.wf(),
            l == *layout,
            order == layout.order,
            all == record::raw_values(percpu@),
            keep == (|v: Seq<u8>| l.counts(v)),
            i <= percpu@.len(),
            ({
                let c = all.take(i as int).filter(keep);
                &&& sum.sums(l.all_counts(c), l.all_firsts(c), l.all_lasts(c), u32::MAX as u64)
                &&& got_meta == (c.len() > 0)
                &&& got_meta ==> {
                    &&& sum.count > 0
                    &&& agg.cgroup_id == l.long(c[0], l.cgroup_id)
                    &&& agg.tid == l.word(c[0], l.tid)
                    &&& agg.uid == l.word(c[0], l.uid)
                    &&& agg.comm@ == l.comm.of(c[0])
                }
            }),
        decreases percpu@.len() - i,
    {
        let v = percpu[i].as_slice();
        let ghost c = all.take(i as int).filter(keep);
        proof {
            record::lemma_filter_push(all, i as int, keep);
            assert(all[i as int] == v@);
        }
        i = i + 1;
        if v.len() != layout.val_size {
            continue;
        }
        let count: u32 = read_u32(v, layout.count, order);
        if count == 0 {
            continue;
        }
        let first_ts: u64 = read_u64(v, layout.first_ts, order);
        let last_ts: u64 = read_u64(v, layout.last_ts, order);
        sum.take_in(
            count as u64,
            first_ts,
            last_ts,
            u32::MAX as u64,
            Ghost(l.all_counts(c)),
            Ghost(l.all_firsts(c)),
            Ghost(l.all_lasts(c)),
        );
        proof {
            assert(l.all_counts(c.push(v@)) =~= l.all_counts(c).push(count as int));
            assert(l.all_firsts(c.push(v@)) =~= l.all_firsts(c).push(first_ts as int));
            assert(l.all_lasts(c.push(v@)) =~= l.all_lasts(c).push(last_ts as int));
        }
        if !got_meta {
            agg.comm = read_bytes(v, layout.comm);
            agg.cgroup_id = read_u64(v, layout.cgroup_id, order);
            agg.tid = read_u32(v, layout.tid, order);
            agg.uid = read_u32(v, layout.uid, order);
            got_meta = true;
        }
    }
    let ghost c = l.counted(all);
    assert(all.take(i as int) =~= all);
    proof {
        let plain = |v: Seq<u8>| v.len() == layout.val_size
            && record::number_at(v, layout.count as int, 4, layout.order) != 0;
        assert(keep =~= plain);
        assert(c == all.filter(plain));
        record::lemma_filter_some(all, keep);
        assert forall|i: int| 0 <= i < percpu@.len() implies all[i] == (#[trigger] percpu@[i])@ by {}
        assert(l.all_counts(c) =~= c.map_values(|v: Seq<u8>| record::number_at(v,
            layout.count as int, 4, layout.order) as int));
        assert(l.all_firsts(c) =~= c.map_values(|v: Seq<u8>| record::number_at(v,
            layout.first_ts as int, 8, layout.order) as int));
        assert(l.all_lasts(c) =~= c.map_values(|v: Seq<u8>| record::number_at(v,
            layout.last_ts as int, 8, layout.order) as int));
    }
    if sum.count == 0 {
        return FlushStep::Delete;
    }
    proof {
        record::lemma_earliest_is(sum.first_ts as int, l.all_firsts(c));
        record::lemma_latest_is(sum.last_ts as int, l.all_lasts(c));
    }
    agg.count = sum.count as u32;
    agg.first_ts = sum.first_ts;
    agg.last_ts = sum.last_ts;
    let k = OpenAggKey {
        pid: read_u32(key.as_slice(), layout.pid, order),
        path: read_bytes(key.as_slice(), layout.path),
    };
    FlushStep::EmitAndDelete(ProcFsEvent::from_open_agg(&k, &agg, clock))
}

} // verus!
