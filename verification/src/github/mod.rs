//! GitHub: the types, the client's decisions, and the step logs.

pub mod cache;
pub mod client;
pub mod headers;
pub mod job_log;
pub mod log;
pub mod types;
