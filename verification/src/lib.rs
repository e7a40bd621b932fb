//! An object store mounted as a filesystem: the decisions, without the network.

pub mod block_read;
pub mod budget;
pub mod config;
pub mod copying;
pub mod crc64;
pub mod deletion;
pub mod digits;
pub mod disk_cache;
pub mod disk_format;
pub mod error;
pub mod etags;
pub mod fetching;
pub mod fs;
pub mod hashes;
pub mod keymap;
pub mod laws;
pub mod listing;
pub mod metrics;
pub mod multipart;
pub mod operations;
pub mod paths;
pub mod prefetch;
pub mod ranges;
pub mod read_cache;
pub mod reading;
pub mod rename;
pub mod retry;
pub mod stat;
pub mod stat_cache;
pub mod streaming;
pub mod text;
pub mod trash;
pub mod tree_copy;
pub mod writing;
