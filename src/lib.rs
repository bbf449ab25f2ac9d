//! Concurrent reachability checks of web addresses: the work queue of a
//! fixed pool of workers, the retry rule of one check, the record of its
//! outcome, and the report that collects every record.
use vstd::prelude::*;

pub mod text;
pub mod status;
pub mod fetch;
pub mod pool;
pub mod report;
pub mod addresses;
pub mod config;

verus! {

} // verus!
