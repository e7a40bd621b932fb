//! What the operations are for, stated of every call: what a result has to be,
//! whatever the state it came from, and how the results of several calls
//! belong together.

pub mod caches;
pub mod counters;
pub mod disk;
pub mod failures;
pub mod listings;
pub mod lookups;
pub mod mounts;
pub mod numbers;
pub mod paths;
pub mod reads;
pub mod renames;
pub mod retries;
pub mod settings;
pub mod trees;
pub mod uploads;
