//! Making, listing, comparing and cleaning up snapshots.
//!
//! The storage backend does the work on disk. What is decided before and after
//! it stands here.

use vstd::prelude::*;
use vstd::seq_lib::*;

use super::index;
use super::index::{sort_by_age, ResolveError, SnapshotEntry, SnapshotIndex, SnapshotMeta};
use super::protocol;
use super::protocol::{
    error_resp, snapshot_resolve_error_response, workspace_not_found, ErrorCode, Response,
    Workspace,
};
use crate::json;
use crate::json::{read_value, write_value};
use crate::text;
use crate::text::cat3;

verus! {

/// How many snapshots a cleanup keeps where it is not told.
pub const DEFAULT_KEEP: u32 = 20;

// ---- checkpoint -----------------------------------------------------------------
/// The message for a number that is taken.
pub open spec fn taken_text(id: Seq<char>) -> Seq<char> {
    "snapshot id '"@ + id + "' already exists in workspace"@
}

/// Whether a checkpoint may be made: the workspace is managed, nothing is being
/// written in it, and the number is free.
pub fn checkpoint_check(
    ws: Option<&Workspace>,
    workspace: &str,
    id: &str,
    quiescent: bool,
) -> (r: Result<(), Response>)
    requires
        ws matches Some(w) ==> w.wf(),
    ensures
        match ws {
            None => r is Err && r->Err_0.refuses(
                ErrorCode::WorkspaceNotFound,
                protocol::no_workspace_text(workspace@),
            ),
            Some(w) => if !quiescent {
                r is Err && r->Err_0.refuses(
                    ErrorCode::WriteLockConflict,
                    "Workspace has active write operations. Please wait and retry."@,
                )
            } else if w.index.snapshots@.contains_key(id@) {
                r is Err && r->Err_0.refuses(ErrorCode::SnapshotAlreadyExists, taken_text(id@))
            } else {
                r is Ok
            },
        },
        r is Ok <==> ws is Some && quiescent && !ws->Some_0.index.snapshots@.contains_key(id@),
        r is Err && ws is Some && quiescent ==> r->Err_0.refuses(
            ErrorCode::SnapshotAlreadyExists,
            "snapshot id '"@ + id@ + "' already exists in workspace"@,
        ),
{
    let w = match ws {
        Some(w) => w,
        None => {
            return Err(workspace_not_found(workspace));
        },
    };
    if !quiescent {
        return Err(
            error_resp(
                ErrorCode::WriteLockConflict,
                "Workspace has active write operations. Please wait and retry.".to_owned(),
            ),
        );
    }
    if w.index.snapshots.contains_key(id) {
        return Err(
            error_resp(
                ErrorCode::SnapshotAlreadyExists,
                cat3("snapshot id '", id, "' already exists in workspace"),
            ),
        );
    }
    Ok(())
}

/// The answer for a workspace without files: it gets no snapshot.
pub fn checkpoint_empty(is_empty: bool) -> (r: Option<Response>)
    ensures
        r is Some <==> is_empty,
        r matches Some(resp) ==> resp matches Response::CheckpointSkipped { reason } && reason@
            == "Empty workspace, no snapshot created."@,
{
    if is_empty {
        Some(
            Response::CheckpointSkipped {
                reason: "Empty workspace, no snapshot created.".to_owned(),
            },
        )
    } else {
        None
    }
}

/// The metadata of a checkpoint is not JSON.
#[derive(Clone, Debug, PartialEq, Eq)]
pub struct MetadataError {
    /// What is wrong with it.
    pub text: String,
}

/// What metadata is stored as: nothing where none was given. Where it is not
/// JSON, what is wrong with it.
pub open spec fn stored_metadata(metadata: Option<Seq<char>>) -> Result<
    Option<Seq<char>>,
    Seq<char>,
> {
    match metadata {
        None => Ok(None),
        Some(s) => match json::json_read(s) {
            Ok(t) => Ok(Some(t)),
            Err(e) => Err(e),
        },
    }
}

/// The text that an option holds.
pub open spec fn option_text(o: Option<String>) -> Option<Seq<char>> {
    match o {
        Some(s) => Some(s@),
        None => None,
    }
}

/// Reads the metadata of a checkpoint.
pub fn parse_metadata(metadata: &Option<String>) -> (r: Result<Option<String>, MetadataError>)
    ensures
        match stored_metadata(option_text(*metadata)) {
            Ok(m) => r is Ok && option_text(r->Ok_0) == m,
            Err(e) => r is Err && r->Err_0.text@ == e,
        },
{
    match metadata {
        None => Ok(None),
        Some(s) => match read_value(s.as_str()) {
            Ok(value) => Ok(Some(write_value(&value))),
            Err(text) => Err(MetadataError { text }),
        },
    }
}

/// Enters a checkpoint, whose snapshot was made and whose metadata was read,
/// into the index.
pub fn record_parsed(
    idx: &mut SnapshotIndex,
    id: &str,
    message: Option<String>,
    metadata: Option<String>,
    pin: bool,
    now: i128,
) -> (r: Response)
    requires
        old(idx).wf(),
    ensures
        final(idx).wf(),
        final(idx).workspace_path == old(idx).workspace_path,
        final(idx).snapshots@ == old(idx).snapshots@.insert(
            id@,
            SnapshotMeta { message, metadata, pinned: pin, created_at: now, missing: false },
        ),
        r matches Response::CheckpointOk { snapshot_id } && snapshot_id@ == id@,
{
    let meta = SnapshotMeta { message, metadata, pinned: pin, created_at: now, missing: false };
    idx.snapshots.insert(id.to_owned(), meta);
    Response::CheckpointOk { snapshot_id: id.to_owned() }
}

/// Enters a checkpoint, whose snapshot was made, into the index. Where its
/// metadata is not JSON the index stays as it is, and the error says what is
/// wrong with it.
pub fn checkpoint_record(
    idx: &mut SnapshotIndex,
    id: &str,
    message: Option<String>,
    metadata: &Option<String>,
    pin: bool,
    now: i128,
) -> (r: Result<Response, MetadataError>)
    requires
        old(idx).wf(),
    ensures
        final(idx).wf(),
        final(idx).workspace_path == old(idx).workspace_path,
        match stored_metadata(option_text(*metadata)) {
            Err(e) => {
                &&& r is Err
                &&& r->Err_0.text@ == e
                &&& final(idx).snapshots@ == old(idx).snapshots@
            },
            Ok(m) => {
                &&& r matches Ok(Response::CheckpointOk { snapshot_id }) && snapshot_id@ == id@
                &&& final(idx).snapshots@.contains_key(id@)
                &&& final(idx).snapshots@ == old(idx).snapshots@.insert(
                    id@,
                    final(idx).snapshots@[id@],
                )
                &&& final(idx).snapshots@[id@].message == message
                &&& option_text(final(idx).snapshots@[id@].metadata) == m
                &&& final(idx).snapshots@[id@].pinned == pin
                &&& final(idx).snapshots@[id@].created_at == now
                &&& !final(idx).snapshots@[id@].missing
            },
        },
{
    match parse_metadata(metadata) {
        Err(e) => Err(e),
        Ok(parsed) => Ok(record_parsed(idx, id, message, parsed, pin, now)),
    }
}

// ---- rollback -------------------------------------------------------------------
/// A rollback that may be carried out, and the answer once it has been.
#[derive(Clone, Debug)]
pub struct RollbackPlan {
    pub ws_id: String,
    pub snapshot_id: String,
}

/// The message for a snapshot whose data is lost.
pub open spec fn lost_text(id: Seq<char>) -> Seq<char> {
    "Snapshot '"@ + id
        + "' subvolume is missing (data lost). Use 'ws-ckpt delete --force -w <workspace> -s "@ + id
        + "' to remove the record."@
}

/// Whether a rollback may be carried out, and to which snapshot. `occupied` is
/// the refusal where some process works inside the workspace.
pub fn rollback_plan(
    ws: Option<&Workspace>,
    workspace: &str,
    occupied: Option<Response>,
    to: &str,
) -> (r: Result<RollbackPlan, Response>)
    requires
        ws matches Some(w) ==> w.wf(),
    ensures
        match ws {
            None => r is Err && r->Err_0.refuses(
                ErrorCode::WorkspaceNotFound,
                protocol::no_workspace_text(workspace@),
            ),
            Some(w) => match occupied {
                Some(resp) => r == Err::<RollbackPlan, Response>(resp),
                None => match w.index.resolves(to@) {
                    Err(e) => r is Err && r->Err_0.refuses(
                        ErrorCode::SnapshotNotFound,
                        protocol::unresolved_text(to@, e),
                    ),
                    Ok(id) => if w.index.snapshots@[id].missing {
                        r is Err && r->Err_0.refuses(ErrorCode::SnapshotNotFound, lost_text(id))
                    } else {
                        r matches Ok(plan) && plan.ws_id@ == w.ws_id@ && plan.snapshot_id@ == id
                    },
                },
            },
        },
        r matches Ok(plan) ==> {
            &&& ws is Some && occupied is None
            &&& ws->Some_0.index.snapshots@.contains_key(plan.snapshot_id@)
            &&& text::starts_with(plan.snapshot_id@, to@)
            &&& !ws->Some_0.index.snapshots@[plan.snapshot_id@].missing
        },
        ws is Some && occupied is None && ws->Some_0.index.snapshots@.contains_key(to@) ==> {
            &&& ws->Some_0.index.snapshots@[to@].missing ==> r is Err && r->Err_0.refuses(
                ErrorCode::SnapshotNotFound,
                "Snapshot '"@ + to@
                    + "' subvolume is missing (data lost). Use 'ws-ckpt delete --force -w <workspace> -s "@
                    + to@ + "' to remove the record."@,
            )
            &&& !ws->Some_0.index.snapshots@[to@].missing ==> r is Ok && r->Ok_0.snapshot_id@ == to@
        },
{
    let w = match ws {
        Some(w) => w,
        None => {
            return Err(workspace_not_found(workspace));
        },
    };
    match occupied {
        Some(resp) => {
            return Err(resp);
        },
        None => {},
    }
    match w.index.resolve_by_prefix(to) {
        Err(e) => Err(snapshot_resolve_error_response(to, e)),
        Ok((id, meta)) => {
            if meta.missing {
                let mut m = cat3(
                    "Snapshot '",
                    id,
                    "' subvolume is missing (data lost). Use 'ws-ckpt delete --force -w <workspace> -s ",
                );
                m.append(id);
                m.append("' to remove the record.");
                return Err(error_resp(ErrorCode::SnapshotNotFound, m));
            }
            Ok(RollbackPlan { ws_id: w.ws_id.clone(), snapshot_id: id.to_owned() })
        },
    }
}

/// The answer once a rollback has been carried out.
pub fn rollback_done(plan: RollbackPlan) -> (r: Response)
    ensures
        r == (Response::RollbackOk { from: plan.ws_id, to: plan.snapshot_id }),
{
    Response::RollbackOk { from: plan.ws_id, to: plan.snapshot_id }
}

// ---- lists ----------------------------------------------------------------------
proof fn lemma_reordered(idx: SnapshotIndex, a: Seq<SnapshotEntry>, b: Seq<SnapshotEntry>,
    keep: spec_fn(SnapshotMeta) -> bool)
    requires
        idx.lists(a, keep),
        a.to_multiset() == b.to_multiset(),
    ensures
        idx.lists(b, keep),
{
    broadcast use group_to_multiset_ensures;

    assert(a.no_duplicates()) by {
        assert forall|i: int, j: int| 0 <= i < a.len() && 0 <= j < a.len() && i != j implies a[i]
            != a[j] by {
            if i < j {
                assert(a[i].id@ != a[j].id@);
            } else {
                assert(a[j].id@ != a[i].id@);
            }
        }
    }
    a.lemma_multiset_has_no_duplicates();
    b.lemma_multiset_has_no_duplicates_conv();
    assert forall|i: int| 0 <= i < b.len() implies a.contains(#[trigger] b[i]) by {
        to_multiset_contains(b, b[i]);
        to_multiset_contains(a, b[i]);
        assert(b.contains(b[i]));
    }
    assert forall|i: int| 0 <= i < a.len() implies b.contains(#[trigger] a[i]) by {
        to_multiset_contains(b, a[i]);
        to_multiset_contains(a, a[i]);
        assert(a.contains(a[i]));
    }
    assert forall|i: int| 0 <= i < b.len() implies {
        let e = #[trigger] b[i];
        &&& idx.snapshots@.contains_key(e.id@)
        &&& e.meta == idx.snapshots@[e.id@]
        &&& keep(e.meta)
        &&& e.workspace@ == idx.workspace_path@
    } by {
        assert(a.contains(b[i]));
        let j = choose|j: int| 0 <= j < a.len() && a[j] == b[i];
        assert(keep(a[j].meta));
    }
    assert forall|id: Seq<char>|
        #![trigger idx.snapshots@.contains_key(id)]
        idx.snapshots@.contains_key(id) && keep(idx.snapshots@[id]) implies exists|i: int|
        0 <= i < b.len() && (#[trigger] b[i]).id@ == id by {
        let j = choose|j: int| 0 <= j < a.len() && (#[trigger] a[j]).id@ == id;
        assert(b.contains(a[j]));
        let i = choose|i: int| 0 <= i < b.len() && b[i] == a[j];
        assert(b[i].id@ == id);
    }
    assert forall|i: int, j: int| 0 <= i < j < b.len() implies (#[trigger] b[i]).id@ != (
    #[trigger] b[j]).id@ by {
        assert(a.contains(b[i]) && a.contains(b[j]));
        let p = choose|p: int| 0 <= p < a.len() && a[p] == b[i];
        let q = choose|q: int| 0 <= q < a.len() && a[q] == b[j];
        assert(b[i] != b[j]);
        if p < q {
            assert(a[p].id@ != a[q].id@);
        } else {
            assert(a[q].id@ != a[p].id@);
        }
    }
}

/// The snapshots of an index, oldest first; only those that are not pinned where
/// that is asked for.
pub fn oldest_first(idx: &SnapshotIndex, unpinned_only: bool) -> (r: Vec<SnapshotEntry>)
    requires
        idx.wf(),
    ensures
        idx.lists(r@, |m: SnapshotMeta| !unpinned_only || !m.pinned),
        index::by_age(r@),
        forall|i: int, j: int|
            0 <= i < j < r@.len() ==> (#[trigger] r@[i]).meta.created_at <= (
            #[trigger] r@[j]).meta.created_at,
        forall|i: int|
            0 <= i < r@.len() ==> {
                let e = #[trigger] r@[i];
                &&& idx.snapshots@.contains_key(e.id@)
                &&& e.meta == idx.snapshots@[e.id@]
                &&& e.workspace@ == idx.workspace_path@
                &&& unpinned_only ==> !e.meta.pinned
            },
        forall|id: Seq<char>| #[trigger]
            idx.snapshots@.contains_key(id) && !(unpinned_only && idx.snapshots@[id].pinned)
                ==> exists|i: int| 0 <= i < r@.len() && (#[trigger] r@[i]).id@ == id,
{
    let entries = idx.entries(unpinned_only);
    let ghost listed = entries@;
    let r = sort_by_age(entries);
    proof {
        lemma_reordered(*idx, listed, r@, |m: SnapshotMeta| !unpinned_only || !m.pinned);
    }
    r
}

/// Every snapshot of the index, each once.
pub open spec fn lists_all(idx: SnapshotIndex, entries: Seq<SnapshotEntry>) -> bool {
    idx.lists(entries, |m: SnapshotMeta| true)
}

/// Lists the snapshots of a workspace, oldest first.
pub fn list_snapshots(ws: Option<&Workspace>, workspace: &str) -> (r: Response)
    requires
        ws matches Some(w) ==> w.wf(),
    ensures
        match ws {
            None => r.refuses(
                ErrorCode::WorkspaceNotFound,
                protocol::no_workspace_text(workspace@),
            ),
            Some(w) => r matches Response::ListOk { snapshots } && lists_all(w.index, snapshots@)
                && index::by_age(snapshots@),
        },
        ws matches Some(w) ==> r matches Response::ListOk { snapshots } && {
            &&& forall|i: int|
                0 <= i < snapshots@.len() ==> w.index.snapshots@.contains_key(
                    (#[trigger] snapshots@[i]).id@,
                ) && snapshots@[i].meta == w.index.snapshots@[snapshots@[i].id@]
                    && snapshots@[i].workspace@ == w.index.workspace_path@
            &&& forall|id: Seq<char>| #[trigger]
                w.index.snapshots@.contains_key(id) ==> exists|i: int|
                    0 <= i < snapshots@.len() && (#[trigger] snapshots@[i]).id@ == id
            &&& forall|i: int, j: int|
                0 <= i < j < snapshots@.len() ==> (#[trigger] snapshots@[i]).id@ != (
                #[trigger] snapshots@[j]).id@ && snapshots@[i].meta.created_at
                    <= snapshots@[j].meta.created_at
        },
{
    match ws {
        None => workspace_not_found(workspace),
        Some(w) => {
            let snapshots = oldest_first(&w.index, false);
            assert(lists_all(w.index, snapshots@));
            proof {
                let f = |m: SnapshotMeta| true;
                assert forall|id: Seq<char>| #[trigger]
                    w.index.snapshots@.contains_key(id) implies exists|i: int|
                    0 <= i < snapshots@.len() && (#[trigger] snapshots@[i]).id@ == id by {
                    assert(f(w.index.snapshots@[id]));
                }
            }
            Response::ListOk { snapshots }
        },
    }
}

/// The entry is a snapshot of one of the workspaces.
pub open spec fn is_held(all: Seq<SnapshotIndex>, e: SnapshotEntry) -> bool {
    exists|k: int|
        {
            &&& 0 <= k < all.len()
            &&& (#[trigger] all[k]).snapshots@.contains_key(e.id@)
            &&& e.meta == all[k].snapshots@[e.id@]
            &&& e.workspace@ == all[k].workspace_path@
        }
}

/// A snapshot of a workspace is among the entries.
pub open spec fn is_listed(entries: Seq<SnapshotEntry>, idx: SnapshotIndex, id: Seq<char>) -> bool {
    exists|i: int|
        {
            &&& 0 <= i < entries.len()
            &&& (#[trigger] entries[i]).id@ == id
            &&& entries[i].meta == idx.snapshots@[id]
            &&& entries[i].workspace@ == idx.workspace_path@
        }
}

/// Lists the snapshots of all workspaces, oldest first.
pub fn list_all_snapshots(all: &Vec<SnapshotIndex>) -> (r: Response)
    requires
        forall|k: int| 0 <= k < all@.len() ==> (#[trigger] all@[k]).wf(),
    ensures
        r matches Response::ListOk { snapshots } && index::by_age(snapshots@) && exists|
            parts: Seq<Seq<SnapshotEntry>>,
        |
            {
                &&& parts.len() == all@.len()
                &&& forall|k: int|
                    0 <= k < all@.len() ==> lists_all(#[trigger] all@[k], parts[k])
                &&& snapshots@.to_multiset() == #[trigger] parts.flatten().to_multiset()
            },
        r matches Response::ListOk { snapshots } && {
            &&& forall|i: int|
                0 <= i < snapshots@.len() ==> #[trigger] is_held(all@, snapshots@[i])
            &&& forall|k: int, id: Seq<char>|
                0 <= k < all@.len() && all@[k].snapshots@.contains_key(id) ==> #[trigger] is_listed(
                    snapshots@,
                    all@[k],
                    id,
                )
            &&& forall|i: int, j: int|
                0 <= i < j < snapshots@.len() ==> (#[trigger] snapshots@[i]).meta.created_at <= (
                #[trigger] snapshots@[j]).meta.created_at
        },
{
    let mut entries: Vec<SnapshotEntry> = Vec::new();
    let ghost mut parts: Seq<Seq<SnapshotEntry>> = Seq::empty();
    let mut k: usize = 0;
    assert(parts.flatten() =~= Seq::empty());
    while k < all.len()
        invariant
            forall|j: int| 0 <= j < all@.len() ==> (#[trigger] all@[j]).wf(),
            k <= all@.len(),
            parts.len() == k,
            forall|j: int| 0 <= j < k ==> lists_all(#[trigger] all@[j], parts[j]),
            entries@ == parts.flatten(),
            forall|i: int| 0 <= i < entries@.len() ==> #[trigger] is_held(all@, entries@[i]),
            forall|j: int, id: Seq<char>|
                0 <= j < k && all@[j].snapshots@.contains_key(id) ==> #[trigger] is_listed(
                    entries@,
                    all@[j],
                    id,
                ),
        decreases all@.len() - k,
    {
        let mut more = all[k].entries(false);
        let ghost part = more@;
        let ghost before = entries@;
        proof {
            assert(lists_all(all@[k as int], part));
        }
        entries.append(&mut more);
        proof {
            let next = parts.push(part);
            parts.lemma_flatten_push(part);
            assert(entries@ == before + part);
            parts = next;
            assert forall|i: int| 0 <= i < entries@.len() implies #[trigger] is_held(
                all@,
                entries@[i],
            ) by {
                if i < before.len() {
                    assert(is_held(all@, before[i]));
                } else {
                    assert(entries@[i] == part[i - before.len()]);
                    assert(all@[k as int].snapshots@.contains_key(entries@[i].id@));
                }
            }
            assert forall|j: int, id: Seq<char>|
                0 <= j < k + 1 && all@[j].snapshots@.contains_key(id) implies #[trigger] is_listed(
                entries@,
                all@[j],
                id,
            ) by {
                if j < k {
                    assert(is_listed(before, all@[j], id));
                    let i = choose|i: int|
                        {
                            &&& 0 <= i < before.len()
                            &&& (#[trigger] before[i]).id@ == id
                            &&& before[i].meta == all@[j].snapshots@[id]
                            &&& before[i].workspace@ == all@[j].workspace_path@
                        };
                    assert(entries@[i] == before[i]);
                } else {
                    let f = |m: SnapshotMeta| true;
                    assert(f(all@[j].snapshots@[id]));
                    let i = choose|i: int| 0 <= i < part.len() && (#[trigger] part[i]).id@ == id;
                    assert(entries@[before.len() + i] == part[i]);
                }
            }
        }
        k = k + 1;
    }
    let ghost unsorted = entries@;
    let snapshots = sort_by_age(entries);
    assert(snapshots@.to_multiset() == parts.flatten().to_multiset());
    proof {
        assert forall|i: int| 0 <= i < snapshots@.len() implies #[trigger] is_held(
            all@,
            snapshots@[i],
        ) by {
            assert(snapshots@.contains(snapshots@[i]));
            to_multiset_contains(snapshots@, snapshots@[i]);
            to_multiset_contains(unsorted, snapshots@[i]);
            let j = choose|j: int| 0 <= j < unsorted.len() && unsorted[j] == snapshots@[i];
            assert(is_held(all@, unsorted[j]));
        }
        assert forall|k: int, id: Seq<char>|
            0 <= k < all@.len() && all@[k].snapshots@.contains_key(id) implies #[trigger] is_listed(
            snapshots@,
            all@[k],
            id,
        ) by {
            assert(is_listed(unsorted, all@[k], id));
            let j = choose|j: int|
                {
                    &&& 0 <= j < unsorted.len()
                    &&& (#[trigger] unsorted[j]).id@ == id
                    &&& unsorted[j].meta == all@[k].snapshots@[id]
                    &&& unsorted[j].workspace@ == all@[k].workspace_path@
                };
            assert(unsorted.contains(unsorted[j]));
            to_multiset_contains(unsorted, unsorted[j]);
            to_multiset_contains(snapshots@, unsorted[j]);
            let i = choose|i: int| 0 <= i < snapshots@.len() && snapshots@[i] == unsorted[j];
            assert(snapshots@[i].id@ == id);
        }
    }
    Response::ListOk { snapshots }
}

// ---- differences ----------------------------------------------------------------
/// A comparison that may be carried out.
#[derive(Clone, Debug)]
pub struct DiffPlan {
    pub ws_id: String,
    pub from_id: String,
    pub to_id: String,
}

/// The number of the snapshot that a reference means.
pub fn resolve_snapshot_id(idx: &SnapshotIndex, reference: &str) -> (r: Result<
    String,
    ResolveError,
>)
    requires
        idx.wf(),
    ensures
        match idx.resolves(reference@) {
            Ok(id) => r matches Ok(s) && s@ == id,
            Err(e) => r == Err::<String, ResolveError>(e),
        },
        idx.snapshots@.contains_key(reference@) ==> r is Ok && r->Ok_0@ == reference@,
        r matches Ok(s) ==> idx.snapshots@.contains_key(s@) && text::starts_with(s@, reference@),
{
    match idx.resolve_by_prefix(reference) {
        Ok((id, _meta)) => Ok(id.to_owned()),
        Err(e) => Err(e),
    }
}

/// Which two snapshots are to be compared. A reference that names none is
/// refused, the first one first.
pub fn diff_plan(ws: Option<&Workspace>, workspace: &str, from: &str, to: &str) -> (r: Result<
    DiffPlan,
    Response,
>)
    requires
        ws matches Some(w) ==> w.wf(),
    ensures
        match ws {
            None => r is Err && r->Err_0.refuses(
                ErrorCode::WorkspaceNotFound,
                protocol::no_workspace_text(workspace@),
            ),
            Some(w) => match w.index.resolves(from@) {
                Err(e) => r is Err && r->Err_0.refuses(
                    ErrorCode::SnapshotNotFound,
                    protocol::unresolved_text(from@, e),
                ),
                Ok(from_id) => match w.index.resolves(to@) {
                    Err(e) => r is Err && r->Err_0.refuses(
                        ErrorCode::SnapshotNotFound,
                        protocol::unresolved_text(to@, e),
                    ),
                    Ok(to_id) => r matches Ok(plan) && plan.ws_id@ == w.ws_id@ && plan.from_id@
                        == from_id && plan.to_id@ == to_id,
                },
            },
        },
{
    let w = match ws {
        Some(w) => w,
        None => {
            return Err(workspace_not_found(workspace));
        },
    };
    let from_id = match resolve_snapshot_id(&w.index, from) {
        Ok(id) => id,
        Err(e) => {
            return Err(snapshot_resolve_error_response(from, e));
        },
    };
    let to_id = match resolve_snapshot_id(&w.index, to) {
        Ok(id) => id,
        Err(e) => {
            return Err(snapshot_resolve_error_response(to, e));
        },
    };
    Ok(DiffPlan { ws_id: w.ws_id.clone(), from_id, to_id })
}

// ---- cleanup --------------------------------------------------------------------
/// The numbers of list entries.
pub open spec fn ids_of(entries: Seq<SnapshotEntry>) -> Seq<Seq<char>> {
    entries.map_values(|e: SnapshotEntry| e.id@)
}

/// The snapshots that are not pinned, oldest first.
pub open spec fn unpinned_by_age(idx: SnapshotIndex, entries: Seq<SnapshotEntry>) -> bool {
    &&& idx.lists(entries, |m: SnapshotMeta| !m.pinned)
    &&& index::by_age(entries)
}

/// How many of `total` go where `keep` stay.
pub open spec fn surplus(total: nat, keep: nat) -> int {
    if total > keep {
        total - keep
    } else {
        0
    }
}

/// The victims of keeping the `keep` newest: the oldest of those that are not
/// pinned.
pub open spec fn victims_beyond(idx: SnapshotIndex, keep: nat, victims: Seq<Seq<char>>) -> bool {
    exists|all: Seq<SnapshotEntry>|
        {
            &&& #[trigger] unpinned_by_age(idx, all)
            &&& victims == ids_of(all.take(surplus(all.len(), keep)))
        }
}

/// The numbers of the first `n` entries.
fn first_ids(entries: &Vec<SnapshotEntry>, n: usize) -> (r: Vec<String>)
    requires
        n <= entries@.len(),
    ensures
        text::texts(r@) == ids_of(entries@.take(n as int)),
{
    let mut r: Vec<String> = Vec::new();
    let mut i: usize = 0;
    while i < n
        invariant
            i <= n <= entries@.len(),
            r@.len() == i,
            forall|j: int| 0 <= j < i ==> (#[trigger] r@[j])@ == entries@[j].id@,
        decreases n - i,
    {
        r.push(entries[i].id.clone());
        i = i + 1;
    }
    assert(text::texts(r@) =~= ids_of(entries@.take(n as int)));
    r
}

/// The oldest snapshots beyond the `keep` newest that are not pinned.
pub fn oldest_beyond(idx: &SnapshotIndex, keep: usize) -> (r: Vec<String>)
    requires
        idx.wf(),
    ensures
        victims_beyond(*idx, keep as nat, text::texts(r@)),
        r@.len() + (if keep < unpinned_ids(*idx).len() {
            keep as nat
        } else {
            unpinned_ids(*idx).len()
        }) == unpinned_ids(*idx).len(),
        forall|i: int|
            0 <= i < r@.len() ==> unpinned_ids(*idx).contains((#[trigger] r@[i])@),
        forall|i: int, id: Seq<char>|
            0 <= i < r@.len() && unpinned_ids(*idx).contains(id) && !text::texts(r@).contains(id)
                ==> idx.snapshots@[(#[trigger] r@[i])@].created_at <= (
            #[trigger] idx.snapshots@[id]).created_at,
{
    let all = oldest_first(idx, true);
    proof {
        lemma_same_keep(*idx, all@);
    }
    let n: usize = if all.len() > keep {
        all.len() - keep
    } else {
        0
    };
    let r = first_ids(&all, n);
    proof {
        assert(unpinned_by_age(*idx, all@));
        let victims = text::texts(r@);
        cleanup_leaves_exactly_what_it_keeps(*idx, keep as nat, victims);
        lemma_unpinned_count(*idx, all@);
        assert(victims.len() == r@.len());
        assert forall|i: int| 0 <= i < r@.len() implies unpinned_ids(*idx).contains(
            (#[trigger] r@[i])@,
        ) by {
            assert(victims[i] == r@[i]@);
            assert(victims.to_set().contains(victims[i]));
        }
        assert forall|i: int, id: Seq<char>|
            0 <= i < r@.len() && unpinned_ids(*idx).contains(id) && !victims.contains(
                id,
            ) implies idx.snapshots@[(#[trigger] r@[i])@].created_at <= (
        #[trigger] idx.snapshots@[id]).created_at by {
            let ids = ids_of(all@);
            assert(victims[i] == r@[i]@ && victims[i] == ids_of(all@.take(n as int))[i]);
            assert(all@[i].id@ == r@[i]@);
            let j = choose|j: int| 0 <= j < ids.len() && ids[j] == id;
            assert(all@[j].id@ == id);
            if j < n {
                assert(victims[j] == ids_of(all@.take(n as int))[j]);
                assert(victims[j] == id);
            }
        }
    }
    r
}

/// The two ways to say that pinned snapshots are left out agree.
pub proof fn lemma_same_keep(idx: SnapshotIndex, all: Seq<SnapshotEntry>)
    requires
        idx.lists(all, |m: SnapshotMeta| !true || !m.pinned),
    ensures
        idx.lists(all, |m: SnapshotMeta| !m.pinned),
{
    let f = |m: SnapshotMeta| !true || !m.pinned;
    let g = |m: SnapshotMeta| !m.pinned;
    assert forall|id: Seq<char>|
        #![trigger idx.snapshots@.contains_key(id)]
        idx.snapshots@.contains_key(id) && g(idx.snapshots@[id]) implies exists|i: int|
        0 <= i < all.len() && (#[trigger] all[i]).id@ == id by {
        assert(f(idx.snapshots@[id]));
    }
    assert forall|i: int| 0 <= i < all.len() implies g((#[trigger] all[i]).meta) by {
        assert(f(all[i].meta));
    }
}

/// What a cleanup removes and from which workspace.
#[derive(Clone, Debug)]
pub struct CleanupPlan {
    pub ws_id: String,
    pub to_remove: Vec<String>,
}

/// Which snapshots of a workspace a cleanup removes: the oldest that are not
/// pinned, beyond the `keep` newest.
pub fn cleanup_plan(ws: Option<&Workspace>, workspace: &str, keep: Option<u32>) -> (r: Result<
    CleanupPlan,
    Response,
>)
    requires
        ws matches Some(w) ==> w.wf(),
    ensures
        match ws {
            None => r is Err && r->Err_0.refuses(
                ErrorCode::WorkspaceNotFound,
                protocol::no_workspace_text(workspace@),
            ),
            Some(w) => r matches Ok(plan) && plan.ws_id@ == w.ws_id@ && victims_beyond(
                w.index,
                match keep {
                    Some(n) => n as nat,
                    None => DEFAULT_KEEP as nat,
                },
                text::texts(plan.to_remove@),
            ),
        },
        ws is Some && keep is None ==> victims_beyond(
            ws->Some_0.index,
            20,
            text::texts(r->Ok_0.to_remove@),
        ),
        r is Ok <==> ws is Some,
        ws is Some && keep is Some ==> r->Ok_0.to_remove@.len()
            + (if keep->Some_0 < unpinned_ids(ws->Some_0.index).len() {
            keep->Some_0 as nat
        } else {
            unpinned_ids(ws->Some_0.index).len()
        }) == unpinned_ids(ws->Some_0.index).len(),
        ws is Some && keep is None ==> r->Ok_0.to_remove@.len()
            + (if 20 < unpinned_ids(ws->Some_0.index).len() {
            20nat
        } else {
            unpinned_ids(ws->Some_0.index).len()
        }) == unpinned_ids(ws->Some_0.index).len(),
{
    let keep_count: u32 = match keep {
        Some(n) => n,
        None => DEFAULT_KEEP,
    };
    match ws {
        None => Err(workspace_not_found(workspace)),
        Some(w) => Ok(
            CleanupPlan {
                ws_id: w.ws_id.clone(),
                to_remove: oldest_beyond(&w.index, keep_count as usize),
            },
        ),
    }
}

/// Takes the snapshots that were removed out of the index. Returns the answer,
/// and whether the index is to be saved.
pub fn cleanup_done(idx: &mut SnapshotIndex, removed: Vec<String>) -> (r: (Response, bool))
    requires
        old(idx).wf(),
    ensures
        final(idx).wf(),
        final(idx).workspace_path == old(idx).workspace_path,
        final(idx).snapshots@ == old(idx).snapshots@.remove_keys(text::texts(removed@).to_set()),
        forall|id: Seq<char>| #[trigger]
            final(idx).snapshots@.contains_key(id) <==> old(idx).snapshots@.contains_key(id)
                && !text::texts(removed@).contains(id),
        r.0 == (Response::CleanupOk { removed }),
        r.1 == (removed@.len() > 0),
{
    let ghost before = idx.snapshots@;
    let ghost ids = text::texts(removed@);
    let mut i: usize = 0;
    proof {
        assert(before =~= before.remove_keys(ids.take(0).to_set()));
    }
    while i < removed.len()
        invariant
            i <= removed@.len(),
            ids == text::texts(removed@),
            idx.wf(),
            idx.workspace_path == old(idx).workspace_path,
            idx.snapshots@ == before.remove_keys(ids.take(i as int).to_set()),
        decreases removed@.len() - i,
    {
        let _gone = idx.snapshots.remove(removed[i].as_str());
        proof {
            let prev = ids.take(i as int);
            let next = ids.take(i + 1);
            let a = prev.to_set();
            let b = next.to_set();
            assert(b =~= a.insert(ids[i as int])) by {
                assert forall|x: Seq<char>| b.contains(x)
                    <==> a.insert(ids[i as int]).contains(x) by {
                    if a.contains(x) {
                        let j = choose|j: int| 0 <= j < prev.len() && prev[j] == x;
                        assert(next[j] == x);
                    }
                    if x == ids[i as int] {
                        assert(next[i as int] == x);
                    }
                    if b.contains(x) {
                        let j = choose|j: int| 0 <= j < next.len() && next[j] == x;
                        if j < i {
                            assert(prev[j] == x);
                        }
                    }
                }
            }
            assert(idx.snapshots@ =~= before.remove_keys(b));
        }
        i = i + 1;
    }
    assert(ids.take(i as int) =~= ids);
    let save: bool = removed.len() > 0;
    (Response::CleanupOk { removed }, save)
}

/// A cleanup never picks a pinned snapshot, and picks no snapshot twice.
pub proof fn cleanup_spares_pinned(idx: SnapshotIndex, keep: nat, victims: Seq<Seq<char>>, i: int)
    requires
        victims_beyond(idx, keep, victims),
        0 <= i < victims.len(),
    ensures
        idx.snapshots@.contains_key(victims[i]),
        !idx.snapshots@[victims[i]].pinned,
        victims.no_duplicates(),
{
    let all = choose|all: Seq<SnapshotEntry>|
        {
            &&& #[trigger] unpinned_by_age(idx, all)
            &&& victims == ids_of(all.take(surplus(all.len(), keep)))
        };
    let f = |m: SnapshotMeta| !m.pinned;
    assert(f(all[i].meta));
    assert forall|a: int, b: int|
        0 <= a < victims.len() && 0 <= b < victims.len() && a != b
            implies victims[a] != victims[b] by {
        if a < b {
            assert(all[a].id@ != all[b].id@);
        } else {
            assert(all[b].id@ != all[a].id@);
        }
    }
}

/// A cleanup never picks a snapshot that is newer than one that it spares and
/// that is not pinned.
pub proof fn cleanup_takes_the_oldest(
    idx: SnapshotIndex,
    keep: nat,
    victims: Seq<Seq<char>>,
    i: int,
    spared: Seq<char>,
)
    requires
        victims_beyond(idx, keep, victims),
        0 <= i < victims.len(),
        idx.snapshots@.contains_key(spared),
        !idx.snapshots@[spared].pinned,
        !victims.contains(spared),
    ensures
        idx.snapshots@[victims[i]].created_at <= idx.snapshots@[spared].created_at,
{
    let all = choose|all: Seq<SnapshotEntry>|
        {
            &&& #[trigger] unpinned_by_age(idx, all)
            &&& victims == ids_of(all.take(surplus(all.len(), keep)))
        };
    let f = |m: SnapshotMeta| !m.pinned;
    assert(f(idx.snapshots@[spared]));
    let j = choose|j: int| 0 <= j < all.len() && (#[trigger] all[j]).id@ == spared;
    if j < victims.len() {
        assert(victims[j] == spared);
    }
    assert(all[i].id@ == victims[i]);
    assert(all[i].meta.created_at <= all[j].meta.created_at);
}

/// A cleanup leaves as many snapshots that are not pinned as it was told to
/// keep, or all where there are no more. `all` lists them.
pub proof fn cleanup_keeps_what_it_says(
    idx: SnapshotIndex,
    keep: nat,
    victims: Seq<Seq<char>>,
    all: Seq<SnapshotEntry>,
)
    requires
        victims_beyond(idx, keep, victims),
        idx.lists(all, |m: SnapshotMeta| !m.pinned),
    ensures
        victims.len() == surplus(all.len(), keep),
{
    let own = choose|own: Seq<SnapshotEntry>|
        {
            &&& #[trigger] unpinned_by_age(idx, own)
            &&& victims == ids_of(own.take(surplus(own.len(), keep)))
        };
    lemma_lists_same_len(idx, own, all);
}

proof fn lemma_lists_same_len(idx: SnapshotIndex, a: Seq<SnapshotEntry>, b: Seq<SnapshotEntry>)
    requires
        idx.lists(a, |m: SnapshotMeta| !m.pinned),
        idx.lists(b, |m: SnapshotMeta| !m.pinned),
    ensures
        a.len() == b.len(),
{
    lemma_ids_within(idx, a, b);
    lemma_ids_within(idx, b, a);
}

proof fn lemma_ids_within(idx: SnapshotIndex, a: Seq<SnapshotEntry>, b: Seq<SnapshotEntry>)
    requires
        idx.lists(a, |m: SnapshotMeta| !m.pinned),
        idx.lists(b, |m: SnapshotMeta| !m.pinned),
    ensures
        a.len() <= b.len(),
{
    let f = |m: SnapshotMeta| !m.pinned;
    let x = ids_of(a);
    let y = ids_of(b);
    assert forall|i: int, j: int| 0 <= i < x.len() && 0 <= j < x.len() && i != j implies x[i]
        != x[j] by {
        if i < j {
            assert(a[i].id@ != a[j].id@);
        } else {
            assert(a[j].id@ != a[i].id@);
        }
    }
    assert(x.to_set().subset_of(y.to_set())) by {
        assert forall|id: Seq<char>| x.to_set().contains(id) implies y.to_set().contains(id) by {
            let i = choose|i: int| 0 <= i < x.len() && x[i] == id;
            assert(a[i].id@ == id);
            assert(f(a[i].meta));
            assert(f(idx.snapshots@[id]));
            let j = choose|j: int| 0 <= j < b.len() && (#[trigger] b[j]).id@ == id;
            assert(y[j] == id);
        }
    }
    x.unique_seq_to_set();
    seq_to_set_is_finite(y);
    vstd::set_lib::lemma_len_subset(x.to_set(), y.to_set());
    y.lemma_cardinality_of_set();
}

/// A checkpoint can be named by its number right away, and the number is then
/// taken.
pub proof fn checkpoint_can_be_named(
    before: Map<Seq<char>, SnapshotMeta>,
    ids: Seq<Seq<char>>,
    id: Seq<char>,
    meta: SnapshotMeta,
)
    ensures
        before.insert(id, meta).contains_key(id),
        index::resolved(before.insert(id, meta), ids, id) == Ok::<Seq<char>, ResolveError>(id),
{
}

/// Deleting a checkpoint leaves the snapshots as they were before it was made.
pub proof fn delete_undoes_checkpoint(
    before: Map<Seq<char>, SnapshotMeta>,
    id: Seq<char>,
    meta: SnapshotMeta,
)
    requires
        !before.contains_key(id),
    ensures
        before.insert(id, meta).remove(id) == before,
{
    assert(before.insert(id, meta).remove(id) =~= before);
}

/// The numbers of the snapshots of an index that are not pinned.
pub open spec fn unpinned_ids(idx: SnapshotIndex) -> Set<Seq<char>> {
    idx.snapshots@.dom().filter(|id: Seq<char>| !idx.snapshots@[id].pinned)
}

proof fn lemma_unpinned_count(idx: SnapshotIndex, all: Seq<SnapshotEntry>)
    requires
        idx.lists(all, |m: SnapshotMeta| !m.pinned),
    ensures
        unpinned_ids(idx).finite(),
        unpinned_ids(idx).len() == all.len(),
        ids_of(all).no_duplicates(),
        forall|id: Seq<char>| #[trigger]
            unpinned_ids(idx).contains(id) <==> ids_of(all).contains(id),
{
    let f = |m: SnapshotMeta| !m.pinned;
    let x = ids_of(all);
    assert forall|i: int, j: int| 0 <= i < x.len() && 0 <= j < x.len() && i != j implies x[i]
        != x[j] by {
        if i < j {
            assert(all[i].id@ != all[j].id@);
        } else {
            assert(all[j].id@ != all[i].id@);
        }
    }
    assert forall|id: Seq<char>| #[trigger] unpinned_ids(idx).contains(id) <==> x.contains(
        id,
    ) by {
        if unpinned_ids(idx).contains(id) {
            assert(f(idx.snapshots@[id]));
            let j = choose|j: int| 0 <= j < all.len() && (#[trigger] all[j]).id@ == id;
            assert(x[j] == id);
        }
        if x.contains(id) {
            let j = choose|j: int| 0 <= j < x.len() && x[j] == id;
            assert(f(all[j].meta));
        }
    }
    assert(unpinned_ids(idx) =~= x.to_set()) by {
        assert forall|id: Seq<char>| unpinned_ids(idx).contains(id) <==> x.to_set().contains(
            id,
        ) by {
            assert(x.to_set().contains(id) <==> x.contains(id));
        }
    }
    x.unique_seq_to_set();
    seq_to_set_is_finite(x);
}

/// A cleanup leaves exactly as many snapshots that are not pinned as it was told
/// to keep, or all where there are no more: its victims and what is left make up
/// all of them.
pub proof fn cleanup_leaves_exactly_what_it_keeps(
    idx: SnapshotIndex,
    keep: nat,
    victims: Seq<Seq<char>>,
)
    requires
        victims_beyond(idx, keep, victims),
    ensures
        unpinned_ids(idx).finite(),
        victims.to_set().subset_of(unpinned_ids(idx)),
        victims.no_duplicates(),
        victims.len() + (if keep < unpinned_ids(idx).len() {
            keep
        } else {
            unpinned_ids(idx).len()
        }) == unpinned_ids(idx).len(),
        unpinned_ids(idx).difference(victims.to_set()).len() == (if keep < unpinned_ids(
            idx,
        ).len() {
            keep
        } else {
            unpinned_ids(idx).len()
        }),
{
    let all = choose|all: Seq<SnapshotEntry>|
        {
            &&& #[trigger] unpinned_by_age(idx, all)
            &&& victims == ids_of(all.take(surplus(all.len(), keep)))
        };
    lemma_unpinned_count(idx, all);
    let x = ids_of(all);
    let n = surplus(all.len(), keep);
    assert(victims =~= x.take(n));
    assert forall|id: Seq<char>| victims.to_set().contains(id) implies unpinned_ids(idx).contains(
        id,
    ) by {
        let i = choose|i: int| 0 <= i < victims.len() && victims[i] == id;
        assert(x[i] == id);
        assert(x.contains(id));
    }
    assert(victims.no_duplicates()) by {
        assert forall|i: int, j: int|
            0 <= i < victims.len() && 0 <= j < victims.len() && i != j implies victims[i]
            != victims[j] by {
            assert(x[i] != x[j]);
        }
    }
    victims.unique_seq_to_set();
    seq_to_set_is_finite(victims);
    let v = victims.to_set();
    let u = unpinned_ids(idx);
    vstd::set_lib::lemma_set_difference_len(u, v);
    assert(u.intersect(v) =~= v);
    assert(u.difference(v).len() + v.len() == u.len()) by {
        vstd::set_lib::lemma_set_disjoint_lens(u.difference(v), v);
        assert(u.difference(v) + v =~= u);
    }
}

} // verus!
