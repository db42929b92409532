//! A verified engine that counts log lines by severity level and collects the
//! lines that contain a filter token, splitting the work into line-aligned
//! chunks that are scanned in parallel and merged in chunk order.

pub mod text;
pub mod level;
pub mod tally;
pub mod report;
pub mod partition;
pub mod worker;
pub mod engine;
pub mod laws;
pub mod args;
pub mod record;
