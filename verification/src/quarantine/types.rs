use vstd::prelude::*;

verus! {

pub const QUARANTINE_SCHEMA_VERSION: u32 = 1;

pub const MAX_QUARANTINE_PLAN_FILES: usize = 100;

pub const MAX_QUARANTINE_PLAN_BYTES: u64 = 1073741824;

pub const MAX_QUARANTINE_FILE_BYTES: u64 = 1073741824;

/// One step of the copy-verify-commit-delete protocol of a quarantine record.
#[derive(Clone, Copy, Debug, PartialEq, Eq, Structural)]
pub enum JournalEvent {
    Prepared,
    Copying,
    ObjectVerified,
    ObjectCommitted,
    SourceDeletePrepared,
    Committed,
    SourceRetained,
}

/// One line of a record's append-only journal.
#[derive(Clone, Debug)]
pub struct JournalEntry {
    pub schema_version: u32,
    pub sequence: u64,
    pub previous_entry_sha256: Option<String>,
    pub occurred_at_ms: u64,
    pub event: JournalEvent,
}

/// What a record's journal says about its object and its source file.
#[derive(Clone, Copy, Debug, PartialEq, Eq, Structural)]
pub enum QuarantineRecordState {
    Committed,
    SourceRetained,
    RecoveryRequired,
    Damaged,
}

/// The class of a quarantine failure.
#[derive(Clone, Copy, Debug, PartialEq, Eq, Structural)]
pub enum ErrorKind {
    InvalidData,
    InvalidInput,
    NotFound,
    Other,
}

/// A quarantine failure with its class and a human-readable message.
#[derive(Clone, Debug)]
pub struct QuarantineError {
    pub kind: ErrorKind,
    pub message: String,
}

impl QuarantineError {
    pub fn kind(&self) -> (k: ErrorKind)
        ensures
            k == self.kind,
    {
        self.kind
    }
}

/// The outcome of staging one file into quarantine.
#[derive(Clone, Debug)]
pub struct StageResult {
    pub record_id: String,
    pub size_bytes: u64,
    pub source_retained: bool,
    pub recovery_required: bool,
    pub detail: Option<String>,
}

} // verus!
