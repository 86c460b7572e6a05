//! Aggregator for failed opens.
//!
//! The probe reports every failed open by itself. Interpreters look for many
//! files that do not exist, so failures are merged by process, error and file
//! name, and come out as one event per flush window. The first full path of
//! each group is kept as a sample.

use vstd::prelude::*;

use super::procfs::{ProcFsEvent, PROCFS_OPEN};
use crate::paths;
use crate::paths::base_name_of;
use crate::text::same_text;

verus! {

/// What failed opens are grouped by.
#[verifier::ext_equal]
pub ghost struct OpenErrKey {
    pub pid: u32,
    pub errno: i32,
    pub basename: Seq<char>,
}

/// What is known of one group.
#[verifier::ext_equal]
pub ghost struct OpenErrTotal {
    pub count: u64,
    pub first_ts: u64,
    pub last_ts: u64,
    pub cgroup_id: u64,
    pub tid: u32,
    pub uid: u32,
    pub comm: Seq<char>,
    pub sample_path: Seq<char>,
}

/// The event is a failed open.
pub open spec fn is_open_failure(e: ProcFsEvent) -> bool {
    e.op == PROCFS_OPEN && e.ret < 0
}

/// The group of a failed open.
pub open spec fn key_of(e: ProcFsEvent) -> OpenErrKey {
    OpenErrKey { pid: e.pid, errno: e.ret, basename: paths::base_name(e.path@) }
}

/// A group after one more failure; `None` stands for a group not seen yet.
pub open spec fn absorbed(t: Option<OpenErrTotal>, e: ProcFsEvent) -> OpenErrTotal {
    match t {
        None => OpenErrTotal {
            count: 1,
            first_ts: e.timestamp_ns,
            last_ts: e.timestamp_ns,
            cgroup_id: e.cgroup_id,
            tid: e.tid,
            uid: e.uid,
            comm: e.comm@,
            sample_path: e.path@,
        },
        Some(t) => OpenErrTotal {
            count: if t.count == u64::MAX {
                u64::MAX
            } else {
                (t.count + 1) as u64
            },
            last_ts: if e.timestamp_ns > t.last_ts {
                e.timestamp_ns
            } else {
                t.last_ts
            },
            ..t
        },
    }
}

/// The groups after one more event.
pub open spec fn groups_after(m: Map<OpenErrKey, OpenErrTotal>, e: ProcFsEvent) -> Map<
    OpenErrKey,
    OpenErrTotal,
> {
    if is_open_failure(e) {
        let k = key_of(e);
        m.insert(
            k,
            absorbed(
                if m.contains_key(k) {
                    Some(m[k])
                } else {
                    None
                },
                e,
            ),
        )
    } else {
        m
    }
}

/// The event that stands for a group. Its path is the file name, and its new
/// path the sample.
pub open spec fn reports(e: ProcFsEvent, k: OpenErrKey, t: OpenErrTotal) -> bool {
    &&& e.pid == k.pid
    &&& e.ret == k.errno
    &&& e.path@ == k.basename
    &&& e.tid == t.tid
    &&& e.uid == t.uid
    &&& e.timestamp_ns == t.last_ts
    &&& e.cgroup_id == t.cgroup_id
    &&& e.op == PROCFS_OPEN
    &&& e.comm@ == t.comm
    &&& e.new_path@ == t.sample_path
    &&& e.count == t.count
    &&& e.total_bytes == 0
    &&& e.first_ts == t.first_ts
    &&& e.last_ts == t.last_ts
}

/// The group that an event of `flush` stands for.
pub open spec fn reported_key(e: ProcFsEvent) -> OpenErrKey {
    OpenErrKey { pid: e.pid, errno: e.ret, basename: e.path@ }
}

struct Group {
    pid: u32,
    errno: i32,
    basename: String,
    count: u64,
    first_ts: u64,
    last_ts: u64,
    cgroup_id: u64,
    tid: u32,
    uid: u32,
    comm: String,
    sample_path: String,
}

impl Group {
    closed spec fn key(self) -> OpenErrKey {
        OpenErrKey { pid: self.pid, errno: self.errno, basename: self.basename@ }
    }

    closed spec fn total(self) -> OpenErrTotal {
        OpenErrTotal {
            count: self.count,
            first_ts: self.first_ts,
            last_ts: self.last_ts,
            cgroup_id: self.cgroup_id,
            tid: self.tid,
            uid: self.uid,
            comm: self.comm@,
            sample_path: self.sample_path@,
        }
    }
}

spec fn distinct(groups: Seq<Group>) -> bool {
    forall|i: int, j: int|
        0 <= i < j < groups.len() ==> #[trigger] groups[i].key() != #[trigger] groups[j].key()
}

spec fn as_map(groups: Seq<Group>) -> Map<OpenErrKey, OpenErrTotal>
    decreases groups.len(),
{
    if groups.len() == 0 {
        Map::empty()
    } else {
        as_map(groups.drop_last()).insert(groups.last().key(), groups.last().total())
    }
}

proof fn lemma_as_map(groups: Seq<Group>)
    requires
        distinct(groups),
    ensures
        forall|i: int|
            0 <= i < groups.len() ==> as_map(groups).contains_key(#[trigger] groups[i].key())
                && as_map(groups)[groups[i].key()] == groups[i].total(),
        forall|k: OpenErrKey| #[trigger]
            as_map(groups).contains_key(k) ==> exists|i: int|
                0 <= i < groups.len() && #[trigger] groups[i].key() == k,
        as_map(groups).dom().finite(),
        as_map(groups).len() == groups.len(),
    decreases groups.len(),
{
    if groups.len() > 0 {
        let rest = groups.drop_last();
        assert(distinct(rest)) by {
            assert forall|i: int, j: int| 0 <= i < j < rest.len() implies #[trigger] rest[i].key()
                != #[trigger] rest[j].key() by {
                assert(groups[i].key() != groups[j].key());
            }
        }
        lemma_as_map(rest);
        let n = groups.len() - 1;
        assert(!as_map(rest).contains_key(groups[n].key())) by {
            if as_map(rest).contains_key(groups[n].key()) {
                let i = choose|i: int|
                    0 <= i < rest.len() && #[trigger] rest[i].key() == groups[n].key();
                assert(groups[i].key() != groups[n].key());
            }
        }
        assert forall|i: int| 0 <= i < groups.len() implies as_map(groups).contains_key(
            #[trigger] groups[i].key(),
        ) && as_map(groups)[groups[i].key()] == groups[i].total() by {
            if i < n {
                assert(rest[i].key() == groups[i].key());
            }
        }
        assert forall|k: OpenErrKey| #[trigger] as_map(groups).contains_key(k) implies exists|i: int|
            0 <= i < groups.len() && #[trigger] groups[i].key() == k by {
            if k == groups[n].key() {
            } else {
                let i = choose|i: int| 0 <= i < rest.len() && #[trigger] rest[i].key() == k;
                assert(groups[i].key() == k);
            }
        }
    }
}

/// Merges failed opens between two flushes.
pub struct OpenErrAggregator {
    groups: Vec<Group>,
}

impl View for OpenErrAggregator {
    type V = Map<OpenErrKey, OpenErrTotal>;

    closed spec fn view(&self) -> Map<OpenErrKey, OpenErrTotal> {
        as_map(self.groups@)
    }
}

impl OpenErrAggregator {
    /// No group is held twice.
    pub closed spec fn wf(&self) -> bool {
        distinct(self.groups@)
    }

    /// An aggregator that holds nothing.
    pub fn new() -> (r: Self)
        ensures
            r.wf(),
            r@ == Map::<OpenErrKey, OpenErrTotal>::empty(),
    {
        OpenErrAggregator { groups: Vec::new() }
    }

    /// Takes in an event where it is a failed open. Returns whether it was:
    /// then the event must not be passed on by itself.
    pub fn try_record(&mut self, e: &ProcFsEvent) -> (r: bool)
        requires
            old(self).wf(),
        ensures
            final(self).wf(),
            r == is_open_failure(*e),
            final(self)@ == groups_after(old(self)@, *e),
            r <==> e.op == 8 && e.ret < 0,
            !r ==> final(self)@ == old(self)@,
            r ==> ({
                let k = OpenErrKey {
                    pid: e.pid,
                    errno: e.ret,
                    basename: paths::base_name(e.path@),
                };
                let now = final(self)@[k];
                let was = old(self)@[k];
                &&& final(self)@.dom() == old(self)@.dom().insert(k)
                &&& forall|q: OpenErrKey| #[trigger]
                    old(self)@.contains_key(q) && q != k ==> final(self)@[q] == old(self)@[q]
                &&& if old(self)@.contains_key(k) {
                    &&& now.count == was.count + 1 || now.count == u64::MAX && was.count == u64::MAX
                    &&& now.last_ts >= was.last_ts && now.last_ts >= e.timestamp_ns
                    &&& now.last_ts == was.last_ts || now.last_ts == e.timestamp_ns
                    &&& now.first_ts == was.first_ts
                    &&& now.sample_path == was.sample_path
                    &&& now.comm == was.comm
                    &&& now.cgroup_id == was.cgroup_id
                    &&& now.tid == was.tid && now.uid == was.uid
                } else {
                    &&& now.count == 1
                    &&& now.last_ts == e.timestamp_ns && now.first_ts == e.timestamp_ns
                    &&& now.sample_path == e.path@
                    &&& now.comm == e.comm@
                    &&& now.cgroup_id == e.cgroup_id
                    &&& now.tid == e.tid && now.uid == e.uid
                }
            }),
    {
        if e.op != PROCFS_OPEN || e.ret >= 0 {
            return false;
        }
        let basename = base_name_of(e.path.as_str());
        let ghost k = key_of(*e);
        let ghost before = self.groups@;
        proof {
            lemma_as_map(before);
        }
        let mut i: usize = 0;
        while i < self.groups.len()
            invariant
                self.groups@ == before,
                distinct(before),
                i <= before.len(),
                is_open_failure(*e),
                basename@ == k.basename,
                k == key_of(*e),
                forall|j: int| 0 <= j < i ==> #[trigger] before[j].key() != k,
            ensures
                i < before.len() ==> before[i as int].key() == k,
            decreases before.len() - i,
        {
            if self.groups[i].pid == e.pid && self.groups[i].errno == e.ret && same_text(
                self.groups[i].basename.as_str(),
                basename.as_str(),
            ) {
                assert(before[i as int].key() =~= k);
                break;
            }
            assert(before[i as int].key() != k);
            i = i + 1;
        }
        if i < self.groups.len() {
            let count: u64 = self.groups[i].count.saturating_add(1);
            self.groups[i].count = count;
            if e.timestamp_ns > self.groups[i].last_ts {
                self.groups[i].last_ts = e.timestamp_ns;
            }
            proof {
                let after = self.groups@;
                assert(after[i as int].key() == k);
                assert forall|j: int| 0 <= j < before.len() implies #[trigger] after[j].key()
                    == before[j].key() by {}
                assert(distinct(after)) by {
                    assert forall|a: int, b: int| 0 <= a < b < after.len()
                        implies #[trigger] after[a].key()
                        != #[trigger] after[b].key() by {
                        assert(before[a].key() != before[b].key());
                    }
                }
                lemma_as_map(after);
                let m = groups_after(as_map(before), *e);
                assert(as_map(after) =~= m) by {
                    assert forall|q: OpenErrKey| as_map(after).contains_key(q) == m.contains_key(
                        q,
                    ) by {
                        if m.contains_key(q) {
                            let j = choose|j: int|
                                0 <= j < before.len() && #[trigger] before[j].key() == q;
                            assert(after[j].key() == q);
                        }
                        if as_map(after).contains_key(q) {
                            let j = choose|j: int|
                                0 <= j < after.len() && #[trigger] after[j].key() == q;
                            assert(before[j].key() == q);
                        }
                    }
                    assert forall|q: OpenErrKey| as_map(after).contains_key(q) implies as_map(
                        after,
                    )[q] == m[q] by {
                        let j = choose|j: int|
                            0 <= j < after.len() && #[trigger] after[j].key() == q;
                        assert(before[j].key() == q);
                    }
                }
            }
            return true;
        }
        let group = Group {
            pid: e.pid,
            errno: e.ret,
            basename,
            count: 1,
            first_ts: e.timestamp_ns,
            last_ts: e.timestamp_ns,
            cgroup_id: e.cgroup_id,
            tid: e.tid,
            uid: e.uid,
            comm: e.comm.clone(),
            sample_path: e.path.clone(),
        };
        proof {
            if as_map(before).contains_key(k) {
                let j = choose|j: int| 0 <= j < before.len() && #[trigger] before[j].key() == k;
                assert(before[j].key() != k);
            }
        }
        self.groups.push(group);
        proof {
            let after = self.groups@;
            assert(after.drop_last() =~= before);
            assert(distinct(after)) by {
                assert forall|a: int, b: int| 0 <= a < b < after.len()
                    implies #[trigger] after[a].key()
                    != #[trigger] after[b].key() by {
                    assert(before[a].key() == after[a].key());
                    if b < before.len() {
                        assert(before[b].key() == after[b].key());
                    }
                }
            }
        }
        true
    }

    /// Empties the aggregator into one event per group.
    pub fn flush(&mut self) -> (r: Vec<ProcFsEvent>)
        requires
            old(self).wf(),
        ensures
            final(self).wf(),
            final(self)@ == Map::<OpenErrKey, OpenErrTotal>::empty(),
            r@.len() == old(self)@.len(),
            forall|i: int|
                0 <= i < r@.len() ==> {
                    let k = reported_key(#[trigger] r@[i]);
                    old(self)@.contains_key(k) && reports(r@[i], k, old(self)@[k])
                },
            forall|k: OpenErrKey| #[trigger]
                old(self)@.contains_key(k) ==> exists|i: int|
                    0 <= i < r@.len() && reported_key(#[trigger] r@[i]) == k,
            forall|i: int|
                0 <= i < r@.len() ==> ({
                    let e = #[trigger] r@[i];
                    let k = OpenErrKey { pid: e.pid, errno: e.ret, basename: e.path@ };
                    let t = old(self)@[k];
                    &&& old(self)@.contains_key(k)
                    &&& e.op == 8
                    &&& e.count == t.count
                    &&& e.timestamp_ns == t.last_ts
                    &&& e.first_ts == t.first_ts && e.last_ts == t.last_ts
                    &&& e.new_path@ == t.sample_path
                    &&& e.comm@ == t.comm
                    &&& e.cgroup_id == t.cgroup_id
                    &&& e.tid == t.tid && e.uid == t.uid
                    &&& e.total_bytes == 0
                }),
    {
        let ghost before = self.groups@;
        proof {
            lemma_as_map(before);
        }
        let mut drained: Vec<ProcFsEvent> = Vec::new();
        let mut i: usize = 0;
        while i < self.groups.len()
            invariant
                self.groups@ == before,
                i <= before.len(),
                drained@.len() == i,
                forall|j: int|
                    0 <= j < i ==> reports(#[trigger] drained@[j], before[j].key(),
                        before[j].total()),
            decreases before.len() - i,
        {
            let g = &self.groups[i];
            drained.push(
                ProcFsEvent {
                    pid: g.pid,
                    tid: g.tid,
                    uid: g.uid,
                    timestamp_ns: g.last_ts,
                    cgroup_id: g.cgroup_id,
                    op: PROCFS_OPEN,
                    ret: g.errno,
                    comm: g.comm.clone(),
                    path: g.basename.clone(),
                    new_path: g.sample_path.clone(),
                    count: g.count,
                    total_bytes: 0,
                    first_ts: g.first_ts,
                    last_ts: g.last_ts,
                },
            );
            i = i + 1;
        }
        proof {
            assert forall|j: int| 0 <= j < drained@.len() implies reported_key(
                #[trigger] drained@[j],
            ) == before[j].key() by {}
            assert forall|k: OpenErrKey| #[trigger] as_map(before).contains_key(k) implies exists|
                i: int,
            |
                0 <= i < drained@.len() && reported_key(#[trigger] drained@[i]) == k by {
                let j = choose|j: int| 0 <= j < before.len() && #[trigger] before[j].key() == k;
                assert(reported_key(drained@[j]) == k);
            }
        }
        self.groups = Vec::new();
        drained
    }
}

impl Default for OpenErrAggregator {
    fn default() -> (r: Self)
        ensures
            r.wf(),
            r@ == Map::<OpenErrKey, OpenErrTotal>::empty(),
    {
        OpenErrAggregator::new()
    }
}

/// The groups that a run of events leaves in an aggregator that was empty.
pub open spec fn groups_of(evs: Seq<ProcFsEvent>) -> Map<OpenErrKey, OpenErrTotal>
    decreases evs.len(),
{
    if evs.len() == 0 {
        Map::empty()
    } else {
        groups_after(groups_of(evs.drop_last()), evs.last())
    }
}

/// How many failed opens of a run belong to a group.
pub open spec fn failures(evs: Seq<ProcFsEvent>, k: OpenErrKey) -> nat
    decreases evs.len(),
{
    if evs.len() == 0 {
        0
    } else {
        failures(evs.drop_last(), k) + if is_open_failure(evs.last()) && key_of(evs.last()) == k {
            1nat
        } else {
            0
        }
    }
}

/// No failed open is lost and none is counted twice: a group is there where
/// one of its failures came, and counts exactly those that came.
pub proof fn every_failure_is_counted(evs: Seq<ProcFsEvent>, k: OpenErrKey)
    ensures
        groups_of(evs).contains_key(k) <==> failures(evs, k) > 0,
        groups_of(evs).contains_key(k) ==> groups_of(evs)[k].count == (if failures(evs, k)
            > u64::MAX {
            u64::MAX as nat
        } else {
            failures(evs, k)
        }),
    decreases evs.len(),
{
    if evs.len() > 0 {
        every_failure_is_counted(evs.drop_last(), k);
    }
}

/// A group keeps the time and path of its first failure, and the time of its
/// latest.
pub proof fn first_failure_is_the_sample(
    evs: Seq<ProcFsEvent>,
    first: ProcFsEvent,
    rest: Seq<ProcFsEvent>,
)
    requires
        is_open_failure(first),
        failures(evs, key_of(first)) == 0,
    ensures
        ({
            let t = groups_of(evs.push(first) + rest)[key_of(first)];
            &&& groups_of(evs.push(first) + rest).contains_key(key_of(first))
            &&& t.first_ts == first.timestamp_ns
            &&& t.sample_path == first.path@
            &&& t.last_ts >= first.timestamp_ns
            &&& forall|i: int|
                0 <= i < rest.len() && is_open_failure(#[trigger] rest[i]) && key_of(rest[i])
                    == key_of(first) ==> t.last_ts >= rest[i].timestamp_ns
        }),
    decreases rest.len(),
{
    let all = evs.push(first) + rest;
    if rest.len() == 0 {
        assert(all =~= evs.push(first));
        assert(all.drop_last() =~= evs);
        every_failure_is_counted(evs, key_of(first));
    } else {
        assert(all.drop_last() =~= evs.push(first) + rest.drop_last());
        first_failure_is_the_sample(evs, first, rest.drop_last());
        let t = groups_of(all)[key_of(first)];
        assert forall|i: int|
            0 <= i < rest.len() && is_open_failure(#[trigger] rest[i]) && key_of(rest[i]) == key_of(
                first,
            ) implies t.last_ts >= rest[i].timestamp_ns by {
            if i < rest.len() - 1 {
                assert(rest.drop_last()[i] == rest[i]);
            }
        }
    }
}

/// The same file name in any directory belongs to the same group.
pub proof fn directory_does_not_matter(dir: Seq<char>, name: Seq<char>)
    requires
        !name.contains('/'),
        !paths::is_blank(name),
        name != seq!['.', '.'],
    ensures
        paths::base_name(dir.push('/') + name) == name,
{
    let path = dir.push('/') + name;
    let from = dir.len() as int + 1;
    assert forall|i: int| from <= i < path.len() implies path[i] != '/' by {
        assert(name.contains(name[i - from]));
    }
    paths::lemma_last_part_is(path, from);
    assert(path.skip(from) =~= name);
}

/// Failures belong to one group exactly where process, error and file name are the
/// same.
pub proof fn groups_go_by_process_error_and_name(a: ProcFsEvent, b: ProcFsEvent)
    ensures
        key_of(a) == key_of(b) <==> a.pid == b.pid && a.ret == b.ret && paths::base_name(a.path@)
            == paths::base_name(b.path@),
{
}

} // verus!
