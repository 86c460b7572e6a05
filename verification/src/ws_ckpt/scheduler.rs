//! Background work: automatic cleanup, health checks, leftovers of rollbacks.

use vstd::prelude::*;

use super::index::{SnapshotEntry, SnapshotIndex};
use super::snapshot_mgr;
use super::snapshot_mgr::{oldest_beyond, oldest_first};
use crate::text;
use crate::text::has_suffix;

verus! {

/// What automatic cleanup keeps.
#[derive(Clone, Copy, Debug, PartialEq, Eq, Structural)]
pub enum CleanupRetention {
    /// The newest so many of each workspace.
    Count(u32),
    /// Those that are no older than so many seconds.
    Age { secs: u64 },
}

/// What a background loop does next.
#[derive(Clone, Copy, Debug, PartialEq, Eq, Structural)]
pub enum LoopStep {
    /// Wait until the configuration changes.
    Park,
    /// Sleep so many seconds, or until the configuration changes.
    Sleep(u64),
}

/// Why a sleep ended.
#[derive(Clone, Copy, Debug, PartialEq, Eq, Structural)]
pub enum Wake {
    Slept,
    ConfigChanged,
}

/// How the cleanup loop waits: it parks where cleanup is switched off, has no
/// interval or would keep everything.
pub fn auto_cleanup_wait(enabled: bool, interval_secs: u64, keep_disabled: bool) -> (r: LoopStep)
    ensures
        r == (if !enabled || interval_secs == 0 || keep_disabled {
            LoopStep::Park
        } else {
            LoopStep::Sleep(interval_secs)
        }),
{
    if !enabled || interval_secs == 0 || keep_disabled {
        LoopStep::Park
    } else {
        LoopStep::Sleep(interval_secs)
    }
}

/// How the health check loop waits: it parks where it has no interval.
pub fn health_check_wait(interval_secs: u64) -> (r: LoopStep)
    ensures
        r == (if interval_secs == 0 {
            LoopStep::Park
        } else {
            LoopStep::Sleep(interval_secs)
        }),
{
    if interval_secs == 0 {
        LoopStep::Park
    } else {
        LoopStep::Sleep(interval_secs)
    }
}

/// A pass is due after a full sleep only: a changed configuration is read anew
/// first.
pub fn pass_is_due(wake: Wake) -> (r: bool)
    ensures
        r == (wake == Wake::Slept),
{
    match wake {
        Wake::Slept => true,
        Wake::ConfigChanged => false,
    }
}

/// Nanoseconds in a second.
pub const NANOS_PER_SEC: i128 = 1_000_000_000;

/// The moment before which snapshots are too old.
pub open spec fn cutoff(now: i128, secs: u64) -> int {
    now - secs * NANOS_PER_SEC
}

/// The snapshots of a list that were made before a moment.
pub open spec fn made_before(entries: Seq<SnapshotEntry>, moment: int) -> Seq<SnapshotEntry> {
    entries.filter(|e: SnapshotEntry| e.meta.created_at < moment)
}

/// The victims of an automatic cleanup, oldest first.
pub open spec fn auto_victims(
    idx: SnapshotIndex,
    retention: CleanupRetention,
    now: i128,
    victims: Seq<Seq<char>>,
) -> bool {
    match retention {
        CleanupRetention::Count(n) => snapshot_mgr::victims_beyond(idx, n as nat, victims),
        CleanupRetention::Age { secs } => exists|all: Seq<SnapshotEntry>|
            {
                &&& #[trigger] snapshot_mgr::unpinned_by_age(idx, all)
                &&& victims == snapshot_mgr::ids_of(made_before(all, cutoff(now, secs)))
            },
    }
}

/// Which snapshots of a workspace an automatic cleanup removes. Pinned ones
/// always stay, and so does everything where the age reaches back before all
/// that was made.
pub fn auto_cleanup_victims(
    idx: &SnapshotIndex,
    retention: CleanupRetention,
    now: i128,
) -> (r: Vec<String>)
    requires
        idx.wf(),
    ensures
        auto_victims(*idx, retention, now, text::texts(r@)),
        retention matches CleanupRetention::Age { secs } ==> forall|id: Seq<char>| #[trigger]
            text::texts(r@).contains(id) <==> idx.snapshots@.contains_key(id)
                && !idx.snapshots@[id].pinned && idx.snapshots@[id].created_at < now - secs
                * 1_000_000_000,
        retention matches CleanupRetention::Count(n) ==> snapshot_mgr::victims_beyond(
            *idx,
            n as nat,
            text::texts(r@),
        ),
{
    match retention {
        CleanupRetention::Count(n) => oldest_beyond(idx, n as usize),
        CleanupRetention::Age { secs } => {
            let r = older_than(idx, now, secs);
            proof {
                assert forall|id: Seq<char>| #[trigger] text::texts(r@).contains(
                    id,
                ) <==> idx.snapshots@.contains_key(id) && !idx.snapshots@[id].pinned
                    && idx.snapshots@[id].created_at < now - secs * 1_000_000_000 by {
                    age_cleanup_is_exact(*idx, secs, now, text::texts(r@), id);
                }
            }
            r
        },
    }
}

fn older_than(idx: &SnapshotIndex, now: i128, secs: u64) -> (r: Vec<String>)
    requires
        idx.wf(),
    ensures
        auto_victims(*idx, CleanupRetention::Age { secs }, now, text::texts(r@)),
{
    // No moment that can be held lies before the least one.
    let moment: i128 = match now.checked_sub(secs as i128 * NANOS_PER_SEC) {
        Some(m) => m,
        None => i128::MIN,
    };
    let all = oldest_first(idx, true);
    proof {
        snapshot_mgr::lemma_same_keep(*idx, all@);
    }
    let ghost old = |e: SnapshotEntry| e.meta.created_at < moment as int;
    let mut r: Vec<String> = Vec::new();
    let mut i: usize = 0;
    proof {
        assert(all@.take(0).filter(old) =~= Seq::empty()) by {
            reveal(Seq::filter);
        }
        assert(text::texts(r@) =~= snapshot_mgr::ids_of(all@.take(0).filter(old)));
    }
    while i < all.len()
        invariant
            i <= all@.len(),
            old == (|e: SnapshotEntry| e.meta.created_at < moment as int),
            text::texts(r@) == snapshot_mgr::ids_of(all@.take(i as int).filter(old)),
        decreases all@.len() - i,
    {
        let ghost before = all@.take(i as int).filter(old);
        proof {
            reveal(Seq::filter);
            assert(all@.take(i + 1).drop_last() =~= all@.take(i as int));
        }
        if all[i].meta.created_at < moment {
            let ghost texts = text::texts(r@);
            let id = all[i].id.clone();
            r.push(id);
            proof {
                assert(text::texts(r@) =~= texts.push(id@));
                assert(snapshot_mgr::ids_of(before.push(all@[i as int]))
                    =~= snapshot_mgr::ids_of(before).push(id@));
            }
        }
        i = i + 1;
    }
    proof {
        assert(all@.take(i as int) =~= all@);
        assert(snapshot_mgr::unpinned_by_age(*idx, all@));
        assert(made_before(all@, cutoff(now, secs)) == all@.filter(old)) by {
            assert(old =~= |e: SnapshotEntry| e.meta.created_at < cutoff(now, secs));
        }
    }
    r
}

/// Takes the snapshots whose removal succeeded out of the index. Returns how
/// many they are: where there are any, the index is to be saved.
pub fn auto_cleanup_done(idx: &mut SnapshotIndex, removed: Vec<String>) -> (r: usize)
    requires
        old(idx).wf(),
    ensures
        final(idx).wf(),
        final(idx).workspace_path == old(idx).workspace_path,
        final(idx).snapshots@ == old(idx).snapshots@.remove_keys(text::texts(removed@).to_set()),
        r == removed@.len(),
{
    let n: usize = removed.len();
    let (_answer, _save) = snapshot_mgr::cleanup_done(idx, removed);
    n
}

/// Automatic cleanup by age takes exactly the snapshots that are not pinned and
/// were made before the cutoff.
pub proof fn age_cleanup_is_exact(
    idx: SnapshotIndex,
    secs: u64,
    now: i128,
    victims: Seq<Seq<char>>,
    id: Seq<char>,
)
    requires
        auto_victims(idx, CleanupRetention::Age { secs }, now, victims),
    ensures
        victims.contains(id) <==> idx.snapshots@.contains_key(id) && !idx.snapshots@[id].pinned
            && idx.snapshots@[id].created_at < cutoff(now, secs),
{
    let moment = cutoff(now, secs);
    let all = choose|all: Seq<SnapshotEntry>|
        {
            &&& #[trigger] snapshot_mgr::unpinned_by_age(idx, all)
            &&& victims == snapshot_mgr::ids_of(made_before(all, moment))
        };
    let old = |e: SnapshotEntry| e.meta.created_at < moment;
    let unpinned = |m: super::index::SnapshotMeta| !m.pinned;
    let kept = all.filter(old);
    if victims.contains(id) {
        let i = choose|i: int| 0 <= i < victims.len() && victims[i] == id;
        all.lemma_filter_pred(old, i);
        assert(kept.contains(kept[i]));
        all.lemma_filter_contains_rev(old, kept[i]);
        let j = choose|j: int| 0 <= j < all.len() && all[j] == kept[i];
        assert(unpinned(all[j].meta));
    }
    if idx.snapshots@.contains_key(id) && !idx.snapshots@[id].pinned
        && idx.snapshots@[id].created_at < moment {
        assert(unpinned(idx.snapshots@[id]));
        let j = choose|j: int| 0 <= j < all.len() && (#[trigger] all[j]).id@ == id;
        all.lemma_filter_contains(old, j);
        let i = choose|i: int| 0 <= i < kept.len() && kept[i] == all[j];
        assert(victims[i] == id);
    }
}

// ---- health ---------------------------------------------------------------------
/// What a health check comes to.
#[derive(Clone, Copy, Debug, PartialEq, Eq, Structural)]
pub enum HealthStep {
    /// No workspace is managed.
    Skip,
    /// The usage could not be had.
    Failed,
    /// The filesystem has no size to compare with.
    Nothing,
    /// The used share of the size is to be compared with the threshold.
    Compare { total: u64, used: u64 },
}

/// What a health check looks at. `usage` is the size of the filesystem and how
/// much of it is used.
pub fn health_check_step(workspaces: usize, usage: Option<(u64, u64)>) -> (r: HealthStep)
    ensures
        r == (if workspaces == 0 {
            HealthStep::Skip
        } else {
            match usage {
                None => HealthStep::Failed,
                Some((total, used)) => if total > 0 {
                    HealthStep::Compare { total, used }
                } else {
                    HealthStep::Nothing
                },
            }
        }),
{
    if workspaces == 0 {
        return HealthStep::Skip;
    }
    match usage {
        None => HealthStep::Failed,
        Some((total, used)) => {
            if total > 0 {
                HealthStep::Compare { total, used }
            } else {
                HealthStep::Nothing
            }
        },
    }
}

// ---- orphans --------------------------------------------------------------------
/// A directory entry below the mount point, and what came of removing it: as a
/// subvolume, and where that failed as a directory.
#[derive(Clone, Debug)]
pub struct OrphanEntry {
    pub name: String,
    pub path: String,
    pub subvolume_deleted: bool,
    pub directory_removed: bool,
}

/// The entry is left over from a rollback.
pub open spec fn left_over(name: Seq<char>) -> bool {
    text::ends_with(name, ".rollback-tmp"@)
}

/// The entry is left over from a rollback and is to be removed.
pub fn is_orphan(name: &str) -> (r: bool)
    ensures
        r == left_over(name@),
        r == text::ends_with(name@, ".rollback-tmp"@),
{
    has_suffix(name, ".rollback-tmp")
}

/// The paths of the leftovers that could be removed.
pub open spec fn cleaned(entries: Seq<OrphanEntry>) -> Seq<Seq<char>> {
    entries.filter(
        |e: OrphanEntry|
            left_over(e.name@) && (e.subvolume_deleted || e.directory_removed),
    ).map_values(|e: OrphanEntry| e.path@)
}

/// Lists the leftovers that could be removed.
pub fn cleanup_orphans(entries: &Vec<OrphanEntry>) -> (r: Vec<String>)
    ensures
        text::texts(r@) == cleaned(entries@),
        forall|path: Seq<char>| #[trigger]
            text::texts(r@).contains(path) <==> exists|i: int|
                {
                    &&& 0 <= i < entries@.len()
                    &&& (#[trigger] entries@[i]).path@ == path
                    &&& text::ends_with(entries@[i].name@, ".rollback-tmp"@)
                    &&& entries@[i].subvolume_deleted || entries@[i].directory_removed
                },
{
    let ghost keep = |e: OrphanEntry|
        left_over(e.name@) && (e.subvolume_deleted || e.directory_removed);
    let ghost path = |e: OrphanEntry| e.path@;
    let mut r: Vec<String> = Vec::new();
    let mut i: usize = 0;
    proof {
        assert(entries@.take(0).filter(keep) =~= Seq::empty()) by {
            reveal(Seq::filter);
        }
        assert(text::texts(r@) =~= entries@.take(0).filter(keep).map_values(path));
    }
    while i < entries.len()
        invariant
            i <= entries@.len(),
            keep == (|e: OrphanEntry|
                left_over(e.name@) && (e.subvolume_deleted || e.directory_removed)),
            path == (|e: OrphanEntry| e.path@),
            text::texts(r@) == entries@.take(i as int).filter(keep).map_values(path),
        decreases entries@.len() - i,
    {
        let ghost before = entries@.take(i as int).filter(keep);
        proof {
            reveal(Seq::filter);
            assert(entries@.take(i + 1).drop_last() =~= entries@.take(i as int));
        }
        let e = &entries[i];
        if is_orphan(e.name.as_str()) && (e.subvolume_deleted || e.directory_removed) {
            let ghost texts = text::texts(r@);
            r.push(e.path.clone());
            proof {
                assert(text::texts(r@) =~= texts.push(entries@[i as int].path@));
                assert(before.push(entries@[i as int]).map_values(path) =~= before.map_values(
                    path,
                ).push(entries@[i as int].path@));
            }
        }
        i = i + 1;
    }
    assert(entries@.take(i as int) =~= entries@);
    proof {
        let kept = entries@.filter(keep);
        assert(text::texts(r@) == kept.map_values(path));
        assert forall|p: Seq<char>| #[trigger] text::texts(r@).contains(p) <==> exists|i: int|
            {
                &&& 0 <= i < entries@.len()
                &&& (#[trigger] entries@[i]).path@ == p
                &&& text::ends_with(entries@[i].name@, ".rollback-tmp"@)
                &&& entries@[i].subvolume_deleted || entries@[i].directory_removed
            } by {
            if text::texts(r@).contains(p) {
                let j = choose|j: int| 0 <= j < kept.len() && kept.map_values(path)[j] == p;
                entries@.lemma_filter_pred(keep, j);
                assert(kept.contains(kept[j]));
                entries@.lemma_filter_contains_rev(keep, kept[j]);
                let k = choose|k: int| 0 <= k < entries@.len() && entries@[k] == kept[j];
                assert(entries@[k].path@ == p);
            }
            if exists|i: int|
                {
                    &&& 0 <= i < entries@.len()
                    &&& (#[trigger] entries@[i]).path@ == p
                    &&& text::ends_with(entries@[i].name@, ".rollback-tmp"@)
                    &&& entries@[i].subvolume_deleted || entries@[i].directory_removed
                } {
                let k = choose|i: int|
                    {
                        &&& 0 <= i < entries@.len()
                        &&& (#[trigger] entries@[i]).path@ == p
                        &&& text::ends_with(entries@[i].name@, ".rollback-tmp"@)
                        &&& entries@[i].subvolume_deleted || entries@[i].directory_removed
                    };
                entries@.lemma_filter_contains(keep, k);
                let j = choose|j: int| 0 <= j < kept.len() && kept[j] == entries@[k];
                assert(kept.map_values(path)[j] == p);
            }
        }
    }
    r
}

} // verus!
