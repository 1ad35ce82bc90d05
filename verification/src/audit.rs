use vstd::prelude::*;
use std::time::{Duration, SystemTime, UNIX_EPOCH};

verus! {

pub const AUDIT_SCHEMA_VERSION: u32 = 1;

/// How an operation ended.
#[derive(Clone, Copy, Debug, PartialEq, Eq, Structural)]
pub enum OperationStatus {
    Succeeded,
    PartiallySucceeded,
    Failed,
    Skipped,
    Cancelled,
}

/// What an operation did.
#[derive(Clone, Copy, Debug, PartialEq, Eq, Structural)]
pub enum OperationKind {
    Cleanup,
    Quarantine,
    Uninstall,
    RestoreExport,
}

/// One item that an operation touched.
#[derive(Clone, Debug)]
pub struct OperationDetail {
    pub item_id: String,
    pub path: Option<String>,
    pub bytes: u64,
    pub detail: String,
}

/// One line of the operation history.
#[derive(Clone, Debug)]
pub struct OperationRecord {
    pub schema_version: u32,
    pub operation_id: u128,
    pub kind: OperationKind,
    pub status: OperationStatus,
    pub rule_version: String,
    pub started_at_ms: u64,
    pub completed_at_ms: u64,
    /// Bytes no longer occupying their original volume after the operation.
    pub reclaimed_bytes: u64,
    /// Bytes still occupying disk space in a quarantine or staging directory.
    pub staged_bytes: u64,
    pub succeeded: Vec<OperationDetail>,
    pub failed: Vec<OperationDetail>,
    pub skipped: Vec<OperationDetail>,
}

/// The newest valid records of a history, newest first, and how many lines
/// could not be read as records.
#[derive(Clone, Debug)]
pub struct RecentRecords {
    pub records: Vec<OperationRecord>,
    pub skipped_corrupt_lines: usize,
}

#[verifier::external_type_specification]
#[verifier::external_body]
pub struct ExSystemTime(SystemTime);

/// `SystemTime::now`: the current time of the system clock.
#[verifier::external_body]
fn system_now() -> SystemTime {
    SystemTime::now()
}

/// `SystemTime::duration_since` with the Unix epoch: `None` when the clock
/// reads a time before the epoch.
#[verifier::external_body]
fn since_unix_epoch(time: SystemTime) -> Option<Duration> {
    time.duration_since(UNIX_EPOCH).ok()
}

/// `Duration::as_millis`: whole milliseconds of a duration.
#[verifier::external_body]
fn whole_millis(duration: Duration) -> u128 {
    duration.as_millis()
}

/// Milliseconds as a `u64`: capped at the largest `u64`, and zero for a clock
/// before the epoch (`None`).
pub fn millis_as_u64(millis: Option<u128>) -> (r: u64)
    ensures
        r == match millis {
            Some(m) => if m > u64::MAX {
                u64::MAX as int
            } else {
                m as int
            },
            None => 0,
        },
{
    match millis {
        Some(m) => if m > u64::MAX as u128 {
            u64::MAX
        } else {
            m as u64
        },
        None => 0,
    }
}

/// Milliseconds since the Unix epoch by the system clock, capped at the
/// largest `u64`, or zero for a clock set before the epoch.
pub fn unix_time_ms() -> u64 {
    let millis = match since_unix_epoch(system_now()) {
        Some(duration) => Some(whole_millis(duration)),
        None => None,
    };
    millis_as_u64(millis)
}

/// The newest `limit` valid records among the history's lines (`None` for a
/// line that is not a record), newest first.
pub open spec fn newest_records(lines: Seq<Option<OperationRecord>>, limit: nat) -> Seq<OperationRecord>
    decreases lines.len(),
{
    if lines.len() == 0 || limit == 0 {
        seq![]
    } else {
        match lines.last() {
            Some(record) => seq![record] + newest_records(lines.drop_last(), (limit - 1) as nat),
            None => newest_records(lines.drop_last(), limit),
        }
    }
}

/// How many lines are not records.
pub open spec fn corrupt_lines(lines: Seq<Option<OperationRecord>>) -> nat
    decreases lines.len(),
{
    if lines.len() == 0 {
        0
    } else {
        corrupt_lines(lines.drop_last()) + if lines.last() is None {
            1nat
        } else {
            0nat
        }
    }
}

/// Picks the newest `limit` valid records of a history, newest first, and
/// counts every line that is not a record.
pub fn select_recent(lines: Vec<Option<OperationRecord>>, limit: usize) -> (r: RecentRecords)
    ensures
        r.records@ == newest_records(lines@, limit as nat),
        r.skipped_corrupt_lines == corrupt_lines(lines@),
{
    let ghost all = lines@;
    assert(all.len() == lines.len());
    let mut rest = lines;
    let mut records: Vec<OperationRecord> = Vec::new();
    let mut corrupt: usize = 0;
    let mut wanted: usize = limit;
    proof {
        lemma_corrupt_bounded(all);
    }
    while rest.len() > 0
        invariant
            records@ + newest_records(rest@, wanted as nat) == newest_records(all, limit as nat),
            corrupt + corrupt_lines(rest@) == corrupt_lines(all),
            corrupt_lines(rest@) <= rest@.len(),
            corrupt_lines(all) <= all.len(),
            all.len() <= usize::MAX,
        decreases rest@.len(),
    {
        let ghost before = rest@;
        let line = rest.pop();
        let line = match line {
            Some(l) => l,
            None => None,
        };
        assert(rest@ == before.drop_last());
        proof {
            lemma_corrupt_bounded(rest@);
        }
        match line {
            Some(record) => {
                if wanted > 0 {
                    assert(records@.push(record) + newest_records(rest@, (wanted - 1) as nat) =~= records@ + (seq![record] + newest_records(rest@, (wanted - 1) as nat)));
                    records.push(record);
                    wanted = wanted - 1;
                }
            },
            None => {
                corrupt = corrupt + 1;
            },
        }
    }
    assert(records@ + Seq::<OperationRecord>::empty() =~= records@);
    RecentRecords { records, skipped_corrupt_lines: corrupt }
}

proof fn lemma_corrupt_bounded(lines: Seq<Option<OperationRecord>>)
    ensures
        corrupt_lines(lines) <= lines.len(),
    decreases lines.len(),
{
    if lines.len() > 0 {
        lemma_corrupt_bounded(lines.drop_last());
    }
}


impl OperationRecord {
    /// An empty record of an operation of `kind` that starts now, under a
    /// fresh random identifier; it stays `Skipped` until it is finished.
    pub fn new(kind: OperationKind, rule_version: String) -> (r: Self)
        ensures
            r.schema_version == AUDIT_SCHEMA_VERSION,
            r.kind == kind,
            r.status == OperationStatus::Skipped,
            r.rule_version == rule_version,
            r.started_at_ms == r.completed_at_ms,
            r.reclaimed_bytes == 0,
            r.staged_bytes == 0,
            r.succeeded@.len() == 0,
            r.failed@.len() == 0,
            r.skipped@.len() == 0,
            r.operation_id & 0xF000_C000_0000_0000_0000 == 0x4000_8000_0000_0000_0000,
    {
        let now = unix_time_ms();
        OperationRecord {
            schema_version: AUDIT_SCHEMA_VERSION,
            operation_id: crate::cleanup_plan::ids::new_random_id(),
            kind,
            status: OperationStatus::Skipped,
            rule_version,
            started_at_ms: now,
            completed_at_ms: now,
            reclaimed_bytes: 0,
            staged_bytes: 0,
            succeeded: Vec::new(),
            failed: Vec::new(),
            skipped: Vec::new(),
        }
    }
}

/// A record read back from the history, kept only when its operation
/// identifier is a valid identifier, which it then carries.
pub fn history_record(operation_id: &str, record: OperationRecord) -> (r: Option<OperationRecord>)
    ensures
        r is Some <==> crate::cleanup_plan::ids::parsed_uuid(operation_id@) is Some,
        r matches Some(kept) ==> kept == (OperationRecord {
            operation_id: crate::cleanup_plan::ids::parsed_uuid(operation_id@)->0,
            ..record
        }),
{
    match crate::cleanup_plan::ids::parse_id_text(operation_id) {
        Some(id) => {
            let mut kept = record;
            kept.operation_id = id;
            Some(kept)
        },
        None => None,
    }
}

} // verus!
