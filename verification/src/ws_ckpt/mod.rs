//! Workspace snapshots: which exist, which one a request means, and which are
//! old enough to go.

pub mod index;
pub mod protocol;
pub mod scheduler;
pub mod snapshot_mgr;
pub mod workspace_mgr;
