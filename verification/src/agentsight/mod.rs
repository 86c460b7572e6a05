//! Event decoding, aggregation and storage rules of the agent observer.

pub mod attach;
pub mod netaddr;
pub mod open_err;
pub mod pid_table;
pub mod probes;
pub mod procfs;
pub mod procnet;
pub mod procsig;
pub mod raw_event;
pub mod raw_events;
pub mod record;
pub mod serve;
pub mod sql;
pub mod tcp;
pub mod tcpdiag;
pub mod udpdns;
