//! Resolution of event logs and call traces against a catalog of known
//! signatures.
//!
//! Every record is first matched on its hash together with the contract
//! address (and, for logs, the number of indexed arguments). Records that
//! stay unmatched fall back to the signature that the catalog declares most
//! often for the same hash.

pub mod address;
pub mod frequency;
pub mod keys;
pub mod laws;
pub mod matcher;
pub mod records;
pub mod rows;

pub use matcher::{
    match_logs_by_topic0, match_logs_by_topic0_address, match_traces_by_4bytes,
    match_traces_by_4bytes_address,
};
pub use records::{AbiEntry, LogRecord, TraceRecord};
pub use rows::{MatchedRow, Resolution};
