//! Verified core of a Windows disk-cleanup client: capability gating,
//! cleanup rules, command parsing, plan bookkeeping and quarantine state.
pub mod policy;
pub mod text;
pub mod quarantine;
pub mod apps;
pub mod base64;
pub mod models;
pub mod tree;
pub mod browsers;
pub mod scanner;
pub mod cleanup_plan;
pub mod audit;
pub mod digest;
pub mod installed;
pub mod storage;
pub mod large_files;
pub mod duplicates;
pub mod usage;
pub mod exclusions;
pub mod large_delete;
pub mod content_hash;
pub mod content_stream;
pub mod walk;
pub mod protected;
pub mod partitions;
