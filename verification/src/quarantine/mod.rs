//! Experimental quarantine: journal protocol, manifests and record listing.
pub mod reconcile;
pub mod restore;
pub mod listing;
pub mod journal;
pub mod manifest;
pub mod staging;
pub mod types;
