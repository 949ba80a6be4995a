//! Daily tallies of the commands recorded in a structured server log.
//!
//! Each log line is a JSON document with a timestamp and, for command records, the
//! command that ran. The library classifies every line as one of a fixed set of
//! operation kinds, counts the classified lines per kind and calendar day, and lays
//! the counts out as one chronologically ordered series per observed kind.

pub mod classify;
pub mod daily;
pub mod ingest;
pub mod json;
pub mod kind;
pub mod palette;
pub mod record;
pub mod series;
pub mod spread;
pub mod table;
pub mod timestamp;
