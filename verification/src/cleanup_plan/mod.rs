pub mod ids;
pub mod types;
pub mod store;
pub mod executor;
pub mod quarantine_executor;
