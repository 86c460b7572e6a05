//! Commands of the `anolisa` tool: what their arguments ask for, what is refused
//! and how, and what is shown.

pub mod context;
pub mod enable;
pub mod enable_run;
pub mod enable_view;
pub mod execution_policy;
pub mod osbase;
pub mod response;
pub mod ui;
