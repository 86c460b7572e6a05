//! The snapshots of one workspace.

use vstd::prelude::*;
use vstd::seq_lib::*;

use crate::text;
use crate::text::{clone_option, has_prefix};
use crate::textmap::TextMap;

verus! {

/// What is known of a snapshot.
#[derive(Debug)]
pub struct SnapshotMeta {
    pub message: Option<String>,
    /// Compact JSON text.
    pub metadata: Option<String>,
    /// A pinned snapshot is never cleaned up.
    pub pinned: bool,
    /// Unix epoch nanoseconds.
    pub created_at: i128,
    /// The data of the snapshot is lost.
    pub missing: bool,
}

impl Clone for SnapshotMeta {
    fn clone(&self) -> (r: Self)
        ensures
            r == *self,
    {
        SnapshotMeta {
            message: clone_option(&self.message),
            metadata: clone_option(&self.metadata),
            pinned: self.pinned,
            created_at: self.created_at,
            missing: self.missing,
        }
    }
}

/// A snapshot in a list.
#[derive(Debug)]
pub struct SnapshotEntry {
    pub id: String,
    /// Path of its workspace.
    pub workspace: String,
    pub meta: SnapshotMeta,
}

impl Clone for SnapshotEntry {
    fn clone(&self) -> (r: Self)
        ensures
            r == *self,
    {
        SnapshotEntry {
            id: self.id.clone(),
            workspace: self.workspace.clone(),
            meta: self.meta.clone(),
        }
    }
}

/// Why a reference names no snapshot.
#[derive(Clone, Copy, Debug, PartialEq, Eq, Structural)]
pub enum ResolveError {
    NotFound,
    /// So many snapshots begin with the reference.
    Ambiguous(usize),
}

/// The snapshots of one workspace, by number.
#[derive(Clone, Debug)]
pub struct SnapshotIndex {
    pub workspace_path: String,
    pub snapshots: TextMap<SnapshotMeta>,
}

/// Those of `ids` that begin with `prefix`.
pub open spec fn with_prefix(ids: Seq<Seq<char>>, prefix: Seq<char>) -> Seq<Seq<char>> {
    ids.filter(|id: Seq<char>| text::starts_with(id, prefix))
}

/// The snapshot that a reference means: the one with that number, else the only
/// one whose number begins with it.
pub open spec fn resolved(
    snapshots: Map<Seq<char>, SnapshotMeta>,
    ids: Seq<Seq<char>>,
    reference: Seq<char>,
) -> Result<Seq<char>, ResolveError> {
    let found = with_prefix(ids, reference);
    if snapshots.contains_key(reference) {
        Ok(reference)
    } else if found.len() == 0 {
        Err(ResolveError::NotFound)
    } else if found.len() == 1 {
        Ok(found[0])
    } else {
        Err(ResolveError::Ambiguous(found.len() as usize))
    }
}

impl SnapshotIndex {
    /// No number is held twice.
    pub open spec fn wf(&self) -> bool {
        self.snapshots.wf()
    }

    /// The snapshot that a reference means.
    pub open spec fn resolves(&self, reference: Seq<char>) -> Result<Seq<char>, ResolveError> {
        resolved(self.snapshots@, self.snapshots.order(), reference)
    }

    /// An index without snapshots.
    pub fn new(workspace_path: String) -> (r: Self)
        ensures
            r.wf(),
            r.workspace_path@ == workspace_path@,
            r.snapshots@ == Map::<Seq<char>, SnapshotMeta>::empty(),
            r.snapshots.order() == Seq::<Seq<char>>::empty(),
    {
        SnapshotIndex { workspace_path, snapshots: TextMap::new() }
    }

    /// The snapshot with the given number, or else the only one whose number
    /// begins with it.
    pub fn resolve_by_prefix(&self, reference: &str) -> (r: Result<
        (&str, &SnapshotMeta),
        ResolveError,
    >)
        requires
            self.wf(),
        ensures
            match self.resolves(reference@) {
                Ok(id) => {
                    &&& r is Ok
                    &&& r->Ok_0.0@ == id
                    &&& self.snapshots@.contains_key(id)
                    &&& *r->Ok_0.1 == self.snapshots@[id]
                },
                Err(e) => r == Err::<(&str, &SnapshotMeta), ResolveError>(e),
            },
            r matches Ok(found) ==> {
                &&& self.snapshots@.contains_key(found.0@)
                &&& *found.1 == self.snapshots@[found.0@]
                &&& reference@.len() <= found.0@.len()
                &&& found.0@.take(reference@.len() as int) == reference@
                &&& found.0@ == reference@ || forall|id: Seq<char>| #[trigger]
                    self.snapshots@.contains_key(id) && text::starts_with(id, reference@) ==> id
                        == found.0@
            },
            self.snapshots@.contains_key(reference@) ==> r is Ok && r->Ok_0.0@ == reference@,
            r matches Err(ResolveError::NotFound) ==> forall|id: Seq<char>| #[trigger]
                self.snapshots@.contains_key(id) ==> !text::starts_with(id, reference@),
            r matches Err(ResolveError::Ambiguous(n)) ==> n >= 2 && exists|
                a: Seq<char>,
                b: Seq<char>,
            |
                {
                    &&& a != b
                    &&& #[trigger] self.snapshots@.contains_key(a)
                    &&& #[trigger] self.snapshots@.contains_key(b)
                    &&& text::starts_with(a, reference@)
                    &&& text::starts_with(b, reference@)
                },
            r matches Err(ResolveError::Ambiguous(n)) ==> n == self.snapshots@.dom().filter(
                |id: Seq<char>| text::starts_with(id, reference@),
            ).len(),
    {
        let ghost ids = self.snapshots.order();
        let ghost keep = |id: Seq<char>| text::starts_with(id, reference@);
        let exact: bool = self.snapshots.contains_key(reference);
        let n: usize = self.snapshots.len();
        let mut count: usize = 0;
        let mut at: usize = 0;
        let mut i: usize = 0;
        proof {
            self.snapshots.lemma_order();
            assert(ids.take(0).filter(keep) =~= Seq::empty()) by {
                reveal(Seq::filter);
            }
        }
        while i < n
            invariant
                self.wf(),
                ids == self.snapshots.order(),
                n == ids.len(),
                i <= n,
                keep == (|id: Seq<char>| text::starts_with(id, reference@)),
                exact == self.snapshots@.contains_key(reference@),
                count <= i,
                !exact ==> count == ids.take(i as int).filter(keep).len(),
                !exact && count > 0 ==> at < i && ids.take(i as int).filter(keep)[0]
                    == ids[at as int],
                exact && count > 0 ==> at < i && ids[at as int] == reference@,
                exact ==> forall|j: int| 0 <= j < i && ids[j] == reference@ ==> count > 0,
            decreases n - i,
        {
            let (id, _meta) = self.snapshots.entry_at(i);
            proof {
                reveal(Seq::filter);
                assert(ids.take(i + 1).drop_last() =~= ids.take(i as int));
            }
            let hit: bool = if exact {
                crate::text::same_text(id, reference)
            } else {
                has_prefix(id, reference)
            };
            if hit {
                if count == 0 {
                    at = i;
                }
                count = count + 1;
            }
            i = i + 1;
        }
        assert(ids.take(n as int) =~= ids);
        proof {
            if exact {
                assert(ids.contains(reference@));
            }
            let found = ids.filter(keep);
            self.snapshots.lemma_order();
            assert forall|id: Seq<char>| #[trigger]
                self.snapshots@.contains_key(id) && text::starts_with(
                    id,
                    reference@,
                ) implies found.contains(id) by {
                assert(ids.contains(id));
                let k = choose|k: int| 0 <= k < ids.len() && ids[k] == id;
                ids.lemma_filter_contains(keep, k);
            }
            assert forall|k: int| 0 <= k < found.len() implies self.snapshots@.contains_key(
                #[trigger] found[k],
            ) && text::starts_with(found[k], reference@) by {
                ids.lemma_filter_pred(keep, k);
                assert(found.contains(found[k]));
                ids.lemma_filter_contains_rev(keep, found[k]);
                assert(self.snapshots.order().contains(found[k]));
            }
            if exact {
                assert(reference@.take(reference@.len() as int) =~= reference@);
            } else if found.len() >= 2 {
                lemma_filter_distinct(ids, keep);
                assert(found.to_set() =~= self.snapshots@.dom().filter(keep)) by {
                    assert forall|id: Seq<char>| found.to_set().contains(
                        id,
                    ) == self.snapshots@.dom().filter(keep).contains(id) by {
                        if found.contains(id) {
                            let k = choose|k: int| 0 <= k < found.len() && found[k] == id;
                            assert(self.snapshots@.contains_key(found[k]));
                        }
                    }
                }
                found.unique_seq_to_set();
                assert(found[0] != found[1]);
                assert(self.snapshots@.contains_key(found[0]));
                assert(self.snapshots@.contains_key(found[1]));
            }
        }
        if count == 0 {
            Err(ResolveError::NotFound)
        } else if exact || count == 1 {
            Ok(self.snapshots.entry_at(at))
        } else {
            Err(ResolveError::Ambiguous(count))
        }
    }

    /// The entries are the snapshots that `keep` picks, each once.
    pub open spec fn lists(&self, entries: Seq<SnapshotEntry>,
        keep: spec_fn(SnapshotMeta) -> bool) -> bool {
        &&& forall|i: int|
            0 <= i < entries.len() ==> {
                let e = #[trigger] entries[i];
                &&& self.snapshots@.contains_key(e.id@)
                &&& e.meta == self.snapshots@[e.id@]
                &&& keep(e.meta)
                &&& e.workspace@ == self.workspace_path@
            }
        &&& forall|id: Seq<char>|
            #![trigger self.snapshots@.contains_key(id)]
            self.snapshots@.contains_key(id) && keep(self.snapshots@[id]) ==> exists|i: int|
                0 <= i < entries.len() && (#[trigger] entries[i]).id@ == id
        &&& forall|i: int, j: int|
            0 <= i < j < entries.len() ==> (#[trigger] entries[i]).id@ != (
            #[trigger] entries[j]).id@
    }

    /// The snapshots as list entries; only those that are not pinned where that
    /// is asked for.
    pub fn entries(&self, unpinned_only: bool) -> (r: Vec<SnapshotEntry>)
        requires
            self.wf(),
        ensures
            self.lists(r@, |m: SnapshotMeta| !unpinned_only || !m.pinned),
    {
        let ghost ids = self.snapshots.order();
        let ghost keep = |m: SnapshotMeta| !unpinned_only || !m.pinned;
        let n: usize = self.snapshots.len();
        let mut r: Vec<SnapshotEntry> = Vec::new();
        let ghost mut from: Seq<int> = Seq::empty();
        let mut i: usize = 0;
        proof {
            self.snapshots.lemma_order();
        }
        while i < n
            invariant
                self.wf(),
                ids == self.snapshots.order(),
                ids.no_duplicates(),
                n == ids.len(),
                i <= n,
                keep == (|m: SnapshotMeta| !unpinned_only || !m.pinned),
                from.len() == r@.len(),
                forall|j: int| 0 <= j < from.len() ==> 0 <= #[trigger] from[j] < i,
                forall|j: int|
                    0 <= j < r@.len() ==> {
                        let e = #[trigger] r@[j];
                        &&& e.id@ == ids[from[j]]
                        &&& self.snapshots@.contains_key(e.id@)
                        &&& e.meta == self.snapshots@[e.id@]
                        &&& keep(e.meta)
                        &&& e.workspace@ == self.workspace_path@
                    },
                forall|a: int, b: int| 0 <= a < b < from.len() ==> from[a] < from[b],
                forall|k: int|
                    0 <= k < i && keep(self.snapshots@[#[trigger] ids[k]]) ==> exists|j: int|
                        0 <= j < r@.len() && (#[trigger] r@[j]).id@ == ids[k],
            decreases n - i,
        {
            let (id, meta) = self.snapshots.entry_at(i);
            let ghost before = r@;
            if !unpinned_only || !meta.pinned {
                let e = SnapshotEntry {
                    id: id.to_owned(),
                    workspace: self.workspace_path.clone(),
                    meta: meta.clone(),
                };
                r.push(e);
                proof {
                    from = from.push(i as int);
                    assert(r@[before.len() as int] == e);
                    assert forall|k: int|
                        0 <= k < i + 1 && keep(self.snapshots@[#[trigger] ids[k]])
                            implies exists|j: int|
                        0 <= j < r@.len() && (#[trigger] r@[j]).id@ == ids[k] by {
                        if k < i {
                            let j = choose|j: int|
                                0 <= j < before.len() && (#[trigger] before[j]).id@ == ids[k];
                            assert(r@[j] == before[j]);
                        }
                    }
                }
            }
            i = i + 1;
        }
        proof {
            self.snapshots.lemma_order();
            assert forall|id: Seq<char>|
                #![trigger self.snapshots@.contains_key(id)]
                self.snapshots@.contains_key(id) && keep(self.snapshots@[id]) implies exists|j: int|
                0 <= j < r@.len() && (#[trigger] r@[j]).id@ == id by {
                assert(ids.contains(id));
                let k = choose|k: int| 0 <= k < ids.len() && ids[k] == id;
                assert(keep(self.snapshots@[ids[k]]));
            }
            assert forall|a: int, b: int| 0 <= a < b < r@.len() implies (#[trigger] r@[a]).id@ != (
            #[trigger] r@[b]).id@ by {
                assert(from[a] < from[b]);
            }
        }
        r
    }
}

proof fn lemma_filter_distinct(s: Seq<Seq<char>>, keep: spec_fn(Seq<char>) -> bool)
    requires
        s.no_duplicates(),
    ensures
        s.filter(keep).no_duplicates(),
    decreases s.len(),
{
    reveal(Seq::filter);
    if s.len() > 0 {
        let rest = s.drop_last();
        assert(rest.no_duplicates());
        lemma_filter_distinct(rest, keep);
        let kept = rest.filter(keep);
        if keep(s.last()) {
            assert(!kept.contains(s.last())) by {
                if kept.contains(s.last()) {
                    rest.lemma_filter_contains_rev(keep, s.last());
                    let i = choose|i: int| 0 <= i < rest.len() && rest[i] == s.last();
                    assert(s[i] == s[s.len() - 1]);
                }
            }
            let next = kept.push(s.last());
            assert forall|i: int, j: int|
                0 <= i < next.len() && 0 <= j < next.len() && i != j implies next[i] != next[j] by {
                if i == kept.len() {
                    assert(kept.contains(kept[j]));
                } else if j == kept.len() {
                    assert(kept.contains(kept[i]));
                }
            }
        }
    }
}

/// Oldest first.
pub open spec fn by_age(entries: Seq<SnapshotEntry>) -> bool {
    forall|i: int, j: int|
        0 <= i < j < entries.len() ==> (#[trigger] entries[i]).meta.created_at <= (
        #[trigger] entries[j]).meta.created_at
}

/// Those of `entries` that were made at `time`.
pub open spec fn made_at(entries: Seq<SnapshotEntry>, time: i128) -> Seq<SnapshotEntry> {
    entries.filter(|e: SnapshotEntry| e.meta.created_at == time)
}

proof fn lemma_made_at_inserted(
    entries: Seq<SnapshotEntry>,
    at: int,
    e: SnapshotEntry,
    time: i128,
)
    requires
        0 <= at <= entries.len(),
        forall|j: int|
            at <= j < entries.len() ==> (#[trigger] entries[j]).meta.created_at
                > e.meta.created_at,
    ensures
        made_at(entries.insert(at, e), time) == made_at(entries.push(e), time),
{
    let keep = |x: SnapshotEntry| x.meta.created_at == time;
    let front = entries.take(at);
    let back = entries.skip(at);
    let one = seq![e];
    assert(entries =~= front + back);
    assert(entries.insert(at, e) =~= front + one + back);
    assert(entries.push(e) =~= front + back + one);
    Seq::filter_distributes_over_add(front, back, keep);
    Seq::filter_distributes_over_add(front, one, keep);
    Seq::filter_distributes_over_add(front + one, back, keep);
    Seq::filter_distributes_over_add(front + back, one, keep);
    if e.meta.created_at == time {
        assert(back.filter(keep) =~= Seq::empty()) by {
            assert forall|j: int| 0 <= j < back.len() implies !keep(#[trigger] back[j]) by {
                assert(back[j] == entries[at + j]);
            }
            back.lemma_all_neg_filter_empty(keep);
        }
    } else {
        assert(one.filter(keep) =~= Seq::empty()) by {
            one.lemma_all_neg_filter_empty(keep);
        }
    }
    assert(made_at(entries.insert(at, e), time) =~= made_at(entries.push(e), time));
}

/// Sorts entries, oldest first; entries of the same time keep their order.
pub fn sort_by_age(entries: Vec<SnapshotEntry>) -> (r: Vec<SnapshotEntry>)
    ensures
        by_age(r@),
        forall|i: int, j: int|
            0 <= i < j < r@.len() ==> (#[trigger] r@[i]).meta.created_at <= (
            #[trigger] r@[j]).meta.created_at,
        r@.to_multiset() == entries@.to_multiset(),
        forall|time: i128| #[trigger] made_at(r@, time) == made_at(entries@, time),
{
    let mut r: Vec<SnapshotEntry> = Vec::new();
    let mut i: usize = 0;
    assert(entries@.take(0) =~= Seq::empty());
    while i < entries.len()
        invariant
            i <= entries@.len(),
            r@.len() == i,
            by_age(r@),
            r@.to_multiset() == entries@.take(i as int).to_multiset(),
            forall|time: i128| #[trigger]
                made_at(r@, time) == made_at(entries@.take(i as int), time),
        decreases entries@.len() - i,
    {
        let e = entries[i].clone();
        let mut at: usize = r.len();
        while at > 0 && r[at - 1].meta.created_at > e.meta.created_at
            invariant
                at <= r@.len(),
                by_age(r@),
                forall|j: int|
                    at <= j < r@.len() ==> (#[trigger] r@[j]).meta.created_at > e.meta.created_at,
            decreases at,
        {
            at = at - 1;
        }
        let ghost before = r@;
        proof {
            assert forall|j: int| 0 <= j < at implies (#[trigger] before[j]).meta.created_at
                <= e.meta.created_at by {
                if j < at - 1 {
                    assert(before[j].meta.created_at <= before[at - 1].meta.created_at);
                }
            }
        }
        r.insert(at, e);
        proof {
            to_multiset_insert(before, at as int, e);
            assert(entries@.take(i + 1) =~= entries@.take(i as int).push(entries@[i as int]));
            to_multiset_build(entries@.take(i as int), entries@[i as int]);
            assert forall|time: i128| #[trigger]
                made_at(r@, time) == made_at(entries@.take(i + 1), time) by {
                let keep = |x: SnapshotEntry| x.meta.created_at == time;
                lemma_made_at_inserted(before, at as int, e, time);
                assert(made_at(before, time) == made_at(entries@.take(i as int), time));
                before.lemma_filter_push(e, keep);
                entries@.take(i as int).lemma_filter_push(e, keep);
            }
            assert forall|a: int, b: int| 0 <= a < b < r@.len() implies (
            #[trigger] r@[a]).meta.created_at <= (#[trigger] r@[b]).meta.created_at by {
                let a2 = if a < at { a } else { a - 1 };
                let b2 = if b < at { b } else { b - 1 };
                if a != at && b != at {
                    assert(before[a2].meta.created_at <= before[b2].meta.created_at);
                }
            }
        }
        i = i + 1;
    }
    assert(entries@.take(i as int) =~= entries@);
    r
}

/// The full number of a snapshot always means that snapshot, whatever other
/// numbers begin with it.
pub proof fn exact_number_wins(idx: SnapshotIndex, id: Seq<char>)
    requires
        idx.snapshots@.contains_key(id),
    ensures
        idx.resolves(id) == Ok::<Seq<char>, ResolveError>(id),
{
}

/// A reference only ever means a snapshot of the index whose number begins with
/// it.
pub proof fn resolved_number_begins_with_the_reference(
    idx: SnapshotIndex,
    reference: Seq<char>,
    id: Seq<char>,
)
    requires
        idx.wf(),
        idx.resolves(reference) == Ok::<Seq<char>, ResolveError>(id),
    ensures
        idx.snapshots@.contains_key(id),
        text::starts_with(id, reference),
{
    let keep = |id: Seq<char>| text::starts_with(id, reference);
    if idx.snapshots@.contains_key(reference) {
        assert(reference.take(reference.len() as int) =~= reference);
    } else {
        let ids = idx.snapshots.order();
        idx.snapshots.lemma_order();
        ids.lemma_filter_pred(keep, 0);
        assert(ids.filter(keep).contains(ids.filter(keep)[0]));
        ids.lemma_filter_contains_rev(keep, ids.filter(keep)[0]);
    }
}

/// Two snapshots that begin with a reference that is no full number make it
/// ambiguous: neither is picked.
pub proof fn shared_prefix_is_refused(
    idx: SnapshotIndex,
    reference: Seq<char>,
    a: Seq<char>,
    b: Seq<char>,
)
    requires
        idx.wf(),
        a != b,
        idx.snapshots@.contains_key(a),
        idx.snapshots@.contains_key(b),
        text::starts_with(a, reference),
        text::starts_with(b, reference),
        !idx.snapshots@.contains_key(reference),
    ensures
        idx.resolves(reference) is Err,
        idx.resolves(reference)->Err_0 is Ambiguous,
{
    let keep = |id: Seq<char>| text::starts_with(id, reference);
    let ids = idx.snapshots.order();
    let found = ids.filter(keep);
    idx.snapshots.lemma_order();
    assert(ids.contains(a) && ids.contains(b));
    let i = choose|i: int| 0 <= i < ids.len() && ids[i] == a;
    let j = choose|j: int| 0 <= j < ids.len() && ids[j] == b;
    ids.lemma_filter_contains(keep, i);
    ids.lemma_filter_contains(keep, j);
    assert(found.contains(a) && found.contains(b));
    let p = choose|p: int| 0 <= p < found.len() && found[p] == a;
    let q = choose|q: int| 0 <= q < found.len() && found[q] == b;
    assert(p != q);
}

} // verus!
