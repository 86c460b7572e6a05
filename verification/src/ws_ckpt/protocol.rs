//! What the daemon answers.

use vstd::prelude::*;

use super::index::{ResolveError, SnapshotEntry, SnapshotIndex};
use crate::text;
use crate::text::{cat2, cat3, push_decimal};

verus! {

/// Kinds of refusals.
#[derive(Clone, Copy, Debug, PartialEq, Eq, Structural)]
pub enum ErrorCode {
    WorkspaceNotFound,
    WriteLockConflict,
    SnapshotAlreadyExists,
    SnapshotNotFound,
    InvalidPath,
    InternalError,
    ConfirmationRequired,
}

/// An answer of the daemon.
#[derive(Clone, Debug)]
pub enum Response {
    Error { code: ErrorCode, message: String },
    InitOk { ws_id: String },
    CheckpointOk { snapshot_id: String },
    CheckpointSkipped { reason: String },
    RollbackOk { from: String, to: String },
    ListOk { snapshots: Vec<SnapshotEntry> },
    CleanupOk { removed: Vec<String> },
    DeleteOk { target: String },
    RecoverOk { workspace: String },
}

/// A workspace that the daemon manages.
#[derive(Clone, Debug)]
pub struct Workspace {
    pub ws_id: String,
    pub path: String,
    pub index: SnapshotIndex,
}

impl Workspace {
    /// The index holds no snapshot twice.
    pub open spec fn wf(&self) -> bool {
        self.index.wf()
    }
}

impl Response {
    /// A refusal of this kind with this message.
    pub open spec fn refuses(self, code: ErrorCode, message: Seq<char>) -> bool {
        self matches Response::Error { code: c, message: m } && c == code && m@ == message
    }
}

/// Builds a refusal.
pub fn error_resp(code: ErrorCode, message: String) -> (r: Response)
    ensures
        r.refuses(code, message@),
        r == (Response::Error { code, message }),
{
    Response::Error { code, message }
}

/// The message for a workspace that is not managed.
pub open spec fn no_workspace_text(workspace: Seq<char>) -> Seq<char> {
    "workspace not found: "@ + workspace
}

/// The refusal for a workspace that is not managed.
pub fn workspace_not_found(workspace: &str) -> (r: Response)
    ensures
        r.refuses(ErrorCode::WorkspaceNotFound, no_workspace_text(workspace@)),
        r matches Response::Error { code, message } && code == ErrorCode::WorkspaceNotFound
            && message@ == "workspace not found: "@ + workspace@,
{
    error_resp(ErrorCode::WorkspaceNotFound, cat2("workspace not found: ", workspace))
}

/// The message for a reference that names no snapshot.
pub open spec fn unresolved_text(reference: Seq<char>, err: ResolveError) -> Seq<char> {
    match err {
        ResolveError::NotFound => "snapshot not found: "@ + reference,
        ResolveError::Ambiguous(n) => "ambiguous snapshot prefix '"@ + reference + "': "@
            + text::decimal(n as nat) + " matches"@,
    }
}

/// The refusal for a reference that names no snapshot.
pub fn snapshot_resolve_error_response(reference: &str, err: ResolveError) -> (r: Response)
    ensures
        r.refuses(ErrorCode::SnapshotNotFound, unresolved_text(reference@, err)),
        r matches Response::Error { code, message } && code == ErrorCode::SnapshotNotFound
            && message@ == (match err {
            ResolveError::NotFound => "snapshot not found: "@ + reference@,
            ResolveError::Ambiguous(n) => "ambiguous snapshot prefix '"@ + reference@ + "': "@
                + text::decimal(n as nat) + " matches"@,
        }),
{
    let message = match err {
        ResolveError::NotFound => cat2("snapshot not found: ", reference),
        ResolveError::Ambiguous(n) => {
            let mut m = cat3("ambiguous snapshot prefix '", reference, "': ");
            push_decimal(&mut m, n as u64);
            m.append(" matches");
            m
        },
    };
    error_resp(ErrorCode::SnapshotNotFound, message)
}

} // verus!
