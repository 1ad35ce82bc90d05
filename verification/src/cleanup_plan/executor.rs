use vstd::prelude::*;
use vstd::string::StringExecFns;
use crate::audit::{OperationDetail, OperationRecord, OperationStatus};
use crate::models::{CleanupItem, CleanupProgress, DeleteMode, ExecuteResult, ItemFailure};
use crate::policy::{CapabilityPolicy, DangerousWriteCapability, denial_message};
use crate::quarantine::types::StageResult;

verus! {

/// The capability that removing an item's files needs, if any.
pub open spec fn capability_for(mode: DeleteMode) -> Option<DangerousWriteCapability> {
    match mode {
        DeleteMode::Permanent => Some(DangerousWriteCapability::PermanentOriginalFileDelete),
        DeleteMode::Quarantine => Some(DangerousWriteCapability::ExperimentalQuarantineSourceRemoval),
        DeleteMode::RecycleBin => None,
    }
}

pub fn required_capability(mode: DeleteMode) -> (r: Option<DangerousWriteCapability>)
    ensures
        r == capability_for(mode),
{
    match mode {
        DeleteMode::Permanent => Some(DangerousWriteCapability::PermanentOriginalFileDelete),
        DeleteMode::Quarantine => Some(DangerousWriteCapability::ExperimentalQuarantineSourceRemoval),
        DeleteMode::RecycleBin => None,
    }
}

/// A file or item that could not be executed, with the reason.
#[derive(Clone, Debug)]
pub struct ItemExecutionFailure {
    pub path: String,
    pub error: String,
}

/// What executing one item of a plan did.
#[derive(Clone, Debug)]
pub struct ItemExecutionOutcome {
    pub reclaimed_bytes: u64,
    pub staged_bytes: u64,
    pub quarantine_record_ids: Vec<String>,
    pub failures: Vec<ItemExecutionFailure>,
}

/// Which executor an item goes to.
#[derive(Clone, Debug)]
pub enum ItemDispatch {
    /// Delete the snapshot's files permanently.
    Permanent,
    /// Stage the snapshot's files into quarantine.
    Quarantine,
    /// Execute nothing; the item ends with this single failure.
    Refused(ItemExecutionFailure),
}

/// The refusal that a recycle-bin item gets.
pub open spec fn recycle_bin_message() -> Seq<char> {
    "回收站执行器尚未启用，条目已安全保留"@
}

/// Decides, before any file is touched, whether and how an item is executed:
/// a capability that the policy refuses stops the item with the refusal,
/// recycle-bin items are not executed, and the others go to their executor.
pub fn dispatch_for(item: &CleanupItem, policy: CapabilityPolicy) -> (r: ItemDispatch)
    ensures
        match capability_for(item.delete_mode) {
            Some(capability) => if policy.build_channel == crate::policy::BuildChannel::ProductionRelease {
                r matches ItemDispatch::Refused(failure) && failure.path@ == item.path@
                    && failure.error@ == denial_message(capability)
            } else {
                (item.delete_mode == DeleteMode::Permanent ==> r is Permanent)
                    && (item.delete_mode == DeleteMode::Quarantine ==> r is Quarantine)
            },
            None => r matches ItemDispatch::Refused(failure) && failure.path@ == item.path@
                && failure.error@ == recycle_bin_message(),
        },
{
    match required_capability(item.delete_mode) {
        Some(capability) => match policy.require(capability) {
            Err(error) => {
                return ItemDispatch::Refused(ItemExecutionFailure { path: item.path.clone(), error });
            },
            Ok(()) => {},
        },
        None => {},
    }
    match item.delete_mode {
        DeleteMode::Permanent => ItemDispatch::Permanent,
        DeleteMode::Quarantine => ItemDispatch::Quarantine,
        DeleteMode::RecycleBin => ItemDispatch::Refused(
            ItemExecutionFailure {
                path: item.path.clone(),
                error: "回收站执行器尚未启用，条目已安全保留".to_string(),
            },
        ),
    }
}

/// How a record ends: failed when only failures were recorded, partially
/// succeeded when failures or skips sit beside successes (or failures beside
/// skips), skipped when only skips were recorded, succeeded otherwise.
pub open spec fn status_of(succeeded: nat, failed: nat, skipped: nat) -> OperationStatus {
    if failed > 0 {
        if succeeded == 0 && skipped == 0 {
            OperationStatus::Failed
        } else {
            OperationStatus::PartiallySucceeded
        }
    } else if skipped > 0 {
        if succeeded == 0 {
            OperationStatus::Skipped
        } else {
            OperationStatus::PartiallySucceeded
        }
    } else {
        OperationStatus::Succeeded
    }
}

pub fn audit_status(record: &OperationRecord) -> (r: OperationStatus)
    ensures
        r == status_of(record.succeeded@.len(), record.failed@.len(), record.skipped@.len()),
{
    if record.failed.len() > 0 {
        if record.succeeded.len() == 0 && record.skipped.len() == 0 {
            OperationStatus::Failed
        } else {
            OperationStatus::PartiallySucceeded
        }
    } else if record.skipped.len() > 0 {
        if record.succeeded.len() == 0 {
            OperationStatus::Skipped
        } else {
            OperationStatus::PartiallySucceeded
        }
    } else {
        OperationStatus::Succeeded
    }
}

/// Whether a finished record holds anything worth writing down.
pub fn record_has_entries(record: &OperationRecord) -> (r: bool)
    ensures
        r == (record.succeeded@.len() > 0 || record.failed@.len() > 0 || record.skipped@.len() > 0),
{
    record.succeeded.len() > 0 || record.failed.len() > 0 || record.skipped.len() > 0
}

/// The review note that a staged file carries when staging did not end in a
/// clean commit: recovery needs a person, or the source file was kept.
pub open spec fn failure_detail_spec(result: StageResult) -> Option<Seq<char>> {
    if result.recovery_required {
        Some(
            match result.detail {
                Some(d) => d@,
                None => "隔离记录需要人工核对；普通恢复和导出操作已禁用"@,
            },
        )
    } else if result.source_retained {
        Some(
            match result.detail {
                Some(d) => d@,
                None => "隔离副本已提交，但源文件已安全保留"@,
            },
        )
    } else {
        None
    }
}

pub fn stage_result_failure_detail(result: &StageResult) -> (r: Option<String>)
    ensures
        match r {
            Some(text) => failure_detail_spec(*result) == Some(text@),
            None => failure_detail_spec(*result) is None,
        },
{
    if result.recovery_required {
        return Some(
            match &result.detail {
                Some(d) => d.clone(),
                None => "隔离记录需要人工核对；普通恢复和导出操作已禁用".to_string(),
            },
        );
    }
    if result.source_retained {
        return Some(
            match &result.detail {
                Some(d) => d.clone(),
                None => "隔离副本已提交，但源文件已安全保留".to_string(),
            },
        );
    }
    None
}

/// How many files a progress report is made after, for `total` files: one
/// report per hundredth, at least every file.
pub open spec fn report_interval_spec(total: usize) -> int {
    let step = (if total as int + 99 > usize::MAX { usize::MAX as int } else { total + 99 }) / 100;
    if step < 1 {
        1
    } else {
        step
    }
}

pub fn report_interval(total: usize) -> (r: usize)
    ensures
        r == report_interval_spec(total),
        r >= 1,
{
    let step = total.saturating_add(99) / 100;
    if step < 1 {
        1
    } else {
        step
    }
}

/// Whether progress is reported after `completed` of `total` files.
pub fn should_report(completed: usize, total: usize, interval: usize) -> (r: bool)
    requires
        interval >= 1,
    ensures
        r == (completed == total || completed % interval == 0),
{
    completed == total || completed % interval == 0
}


/// The decimal digits of a number.
pub open spec fn decimal(n: nat) -> Seq<char>
    decreases n,
{
    if n < 10 {
        seq![(48 + n) as char]
    } else {
        decimal(n / 10) + seq![(48 + n % 10) as char]
    }
}

/// Formats a number in decimal.
pub fn decimal_text(n: usize) -> (r: String)
    ensures
        r@ == decimal(n as nat),
    decreases n,
{
    if n < 10 {
        let mut out = String::new();
        crate::text::push_char(&mut out, ((48 + n) as u8) as char);
        return out;
    }
    let mut out = decimal_text(n / 10);
    crate::text::push_char(&mut out, ((48 + n % 10) as u8) as char);
    out
}

/// Formats a number in decimal.
pub fn decimal_text_u64(n: u64) -> (r: String)
    ensures
        r@ == decimal(n as nat),
    decreases n,
{
    if n < 10 {
        let mut out = String::new();
        crate::text::push_char(&mut out, ((48 + n) as u8) as char);
        return out;
    }
    let mut out = decimal_text_u64(n / 10);
    crate::text::push_char(&mut out, ((48 + n % 10) as u8) as char);
    out
}

/// The note recorded for an item whose execution moved or removed data.
pub open spec fn success_note(mode: DeleteMode, records: nat) -> Seq<char> {
    if mode == DeleteMode::Quarantine {
        "已提交 "@ + decimal(records) + " 个可校验隔离对象；隔离占用不计入实际释放"@
    } else {
        "已按不可变清理计划逐文件复检并处理"@
    }
}

/// The failures of an item, as the user sees them.
pub open spec fn reported_failures(id: String, failures: Seq<ItemExecutionFailure>) -> Seq<ItemFailure> {
    failures.map_values(|f: ItemExecutionFailure| ItemFailure { id: id, error: f.error, path: Some(f.path) })
}

/// The failures of an item, as the audit record keeps them.
pub open spec fn skipped_details(id: String, failures: Seq<ItemExecutionFailure>) -> Seq<OperationDetail> {
    failures.map_values(|f: ItemExecutionFailure| OperationDetail { item_id: id, path: None, bytes: 0, detail: f.error })
}

/// Adds the outcome of one item to the plan's result and to the audit record
/// of its kind of deletion.
pub fn apply_item_outcome(
    result: &mut ExecuteResult,
    record: &mut OperationRecord,
    item_id: &String,
    mode: DeleteMode,
    outcome: ItemExecutionOutcome,
)
    ensures
        final(result).reclaimed_bytes == saturating_u64_add(old(result).reclaimed_bytes, outcome.reclaimed_bytes),
        final(result).staged_bytes == saturating_u64_add(old(result).staged_bytes, outcome.staged_bytes),
        final(record).reclaimed_bytes == saturating_u64_add(old(record).reclaimed_bytes, outcome.reclaimed_bytes),
        final(record).staged_bytes == saturating_u64_add(old(record).staged_bytes, outcome.staged_bytes),
        final(record).schema_version == old(record).schema_version,
        final(record).operation_id == old(record).operation_id,
        final(record).kind == old(record).kind,
        final(record).status == old(record).status,
        final(record).rule_version == old(record).rule_version,
        final(record).started_at_ms == old(record).started_at_ms,
        final(record).completed_at_ms == old(record).completed_at_ms,
        final(record).failed@ == old(record).failed@,
        final(record).succeeded@ == if outcome.reclaimed_bytes > 0 || outcome.staged_bytes > 0 || outcome.failures@.len() == 0 {
            old(record).succeeded@.push(OperationDetail {
                item_id: *item_id,
                path: None,
                bytes: saturating_u64_add(outcome.reclaimed_bytes, outcome.staged_bytes),
                detail: final(record).succeeded@.last().detail,
            })
        } else {
            old(record).succeeded@
        },
        outcome.reclaimed_bytes > 0 || outcome.staged_bytes > 0 || outcome.failures@.len() == 0
            ==> final(record).succeeded@.last().detail@ == success_note(mode, outcome.quarantine_record_ids@.len()),
        final(record).skipped@ == old(record).skipped@ + skipped_details(*item_id, outcome.failures@),
        final(result).succeeded == if outcome.failures@.len() == 0 {
            if old(result).succeeded == usize::MAX { usize::MAX as int } else { old(result).succeeded + 1 }
        } else {
            old(result).succeeded as int
        },
        final(result).failed@ == old(result).failed@ + reported_failures(*item_id, outcome.failures@),
{
    result.reclaimed_bytes = result.reclaimed_bytes.saturating_add(outcome.reclaimed_bytes);
    result.staged_bytes = result.staged_bytes.saturating_add(outcome.staged_bytes);
    record.reclaimed_bytes = record.reclaimed_bytes.saturating_add(outcome.reclaimed_bytes);
    record.staged_bytes = record.staged_bytes.saturating_add(outcome.staged_bytes);
    if outcome.reclaimed_bytes > 0 || outcome.staged_bytes > 0 || outcome.failures.len() == 0 {
        let detail = if mode == DeleteMode::Quarantine {
            let mut note = "已提交 ".to_string();
            let count = decimal_text(outcome.quarantine_record_ids.len());
            note.append(count.as_str());
            note.append(" 个可校验隔离对象；隔离占用不计入实际释放");
            note
        } else {
            "已按不可变清理计划逐文件复检并处理".to_string()
        };
        record.succeeded.push(OperationDetail {
            item_id: item_id.clone(),
            path: None,
            bytes: outcome.reclaimed_bytes.saturating_add(outcome.staged_bytes),
            detail,
        });
    }
    if outcome.failures.len() == 0 {
        result.succeeded = result.succeeded.saturating_add(1);
        assert(reported_failures(*item_id, outcome.failures@) =~= Seq::<ItemFailure>::empty());
        assert(skipped_details(*item_id, outcome.failures@) =~= Seq::<OperationDetail>::empty());
        assert(result.failed@ + Seq::<ItemFailure>::empty() =~= result.failed@);
        assert(record.skipped@ + Seq::<OperationDetail>::empty() =~= record.skipped@);
    } else {
        let ghost failed_before = result.failed@;
        let ghost skipped_before = record.skipped@;
        let ghost result_before = *result;
        let ghost record_before = *record;
        let mut i: usize = 0;
        while i < outcome.failures.len()
            invariant
                0 <= i <= outcome.failures@.len(),
                result.reclaimed_bytes == result_before.reclaimed_bytes,
                result.staged_bytes == result_before.staged_bytes,
                result.succeeded == result_before.succeeded,
                record.reclaimed_bytes == record_before.reclaimed_bytes,
                record.staged_bytes == record_before.staged_bytes,
                record.schema_version == record_before.schema_version,
                record.operation_id == record_before.operation_id,
                record.kind == record_before.kind,
                record.status == record_before.status,
                record.rule_version == record_before.rule_version,
                record.started_at_ms == record_before.started_at_ms,
                record.completed_at_ms == record_before.completed_at_ms,
                record.failed@ == record_before.failed@,
                record.succeeded@ == record_before.succeeded@,
                result.failed@ == failed_before + reported_failures(*item_id, outcome.failures@.take(i as int)),
                record.skipped@ == skipped_before + skipped_details(*item_id, outcome.failures@.take(i as int)),
            decreases outcome.failures@.len() - i,
        {
            let failure = &outcome.failures[i];
            result.failed.push(ItemFailure {
                id: item_id.clone(),
                error: failure.error.clone(),
                path: Some(failure.path.clone()),
            });
            record.skipped.push(OperationDetail {
                item_id: item_id.clone(),
                path: None,
                bytes: 0,
                detail: failure.error.clone(),
            });
            assert(reported_failures(*item_id, outcome.failures@.take(i + 1)) =~= reported_failures(*item_id, outcome.failures@.take(i as int)).push(ItemFailure { id: *item_id, error: failure.error, path: Some(failure.path) }));
            assert(skipped_details(*item_id, outcome.failures@.take(i + 1)) =~= skipped_details(*item_id, outcome.failures@.take(i as int)).push(OperationDetail { item_id: *item_id, path: None, bytes: 0, detail: failure.error }));
            i = i + 1;
        }
        assert(outcome.failures@.take(outcome.failures@.len() as int) =~= outcome.failures@);
    }
}

/// `a + b`, saturating at the largest `u64`.
pub open spec fn saturating_u64_add(a: u64, b: u64) -> u64 {
    if a + b > u64::MAX {
        u64::MAX
    } else {
        (a + b) as u64
    }
}


/// The stages of a plan's execution that progress is reported for.
#[derive(Clone, Copy, Debug, PartialEq, Eq, Structural)]
pub enum ProgressPhase {
    Starting,
    Running,
    ItemComplete,
    Complete,
}

/// The name by which a phase is reported.
pub open spec fn phase_name(phase: ProgressPhase) -> Seq<char> {
    match phase {
        ProgressPhase::Starting => "starting"@,
        ProgressPhase::Running => "running"@,
        ProgressPhase::ItemComplete => "item_complete"@,
        ProgressPhase::Complete => "complete"@,
    }
}

/// How far the execution of a plan has come: items and files done, out of
/// the plan's totals.
#[derive(Clone, Copy, Debug)]
pub struct PlanProgress {
    pub completed_items: usize,
    pub total_items: usize,
    pub completed_files: usize,
    pub total_files: usize,
}

/// `a + b`, saturating at the largest `usize`.
pub open spec fn saturating_usize_add(a: int, b: int) -> int {
    if a + b > usize::MAX {
        usize::MAX as int
    } else {
        a + b
    }
}

/// The files of the first `n` items, summed with saturation.
pub open spec fn files_of(items: Seq<CleanupItem>, n: int) -> int
    decreases n,
{
    if n <= 0 {
        0
    } else {
        saturating_usize_add(files_of(items, n - 1), items[n - 1].file_count as int)
    }
}

/// The progress of a plan of these items before any is executed.
pub fn plan_progress(items: &Vec<CleanupItem>) -> (p: PlanProgress)
    ensures
        p.completed_items == 0,
        p.completed_files == 0,
        p.total_items == items@.len(),
        p.total_files == files_of(items@, items@.len() as int),
{
    let mut total: usize = 0;
    let mut i: usize = 0;
    while i < items.len()
        invariant
            0 <= i <= items@.len(),
            total == files_of(items@, i as int),
        decreases items@.len() - i,
    {
        total = total.saturating_add(items[i].file_count);
        i = i + 1;
    }
    PlanProgress { completed_items: 0, total_items: items.len(), completed_files: 0, total_files: total }
}

/// The progress once one more item is done: one more item and its files,
/// each count saturating.
pub fn item_done(progress: &mut PlanProgress, item: &CleanupItem)
    ensures
        final(progress).completed_items == saturating_usize_add(old(progress).completed_items as int, 1),
        final(progress).completed_files == saturating_usize_add(old(progress).completed_files as int, item.file_count as int),
        final(progress).total_items == old(progress).total_items,
        final(progress).total_files == old(progress).total_files,
{
    progress.completed_items = progress.completed_items.saturating_add(1);
    progress.completed_files = progress.completed_files.saturating_add(item.file_count);
}

/// The progress reported for a phase: the counts so far (the totals once
/// complete), the item being worked on (none when starting or complete), and
/// the bytes reclaimed and failures so far.
pub fn progress_report(progress: &PlanProgress, phase: ProgressPhase, item: Option<&CleanupItem>, result: &ExecuteResult) -> (r: CleanupProgress)
    ensures
        r.phase@ == phase_name(phase),
        r.completed_items == (if phase == ProgressPhase::Complete { progress.total_items } else { progress.completed_items }),
        r.completed_files == (if phase == ProgressPhase::Complete { progress.total_files } else { progress.completed_files }),
        r.total_items == progress.total_items,
        r.total_files == progress.total_files,
        r.reclaimed_bytes == result.reclaimed_bytes,
        r.failed_files == result.failed@.len(),
        match item {
            Some(current) => phase == ProgressPhase::Running || phase == ProgressPhase::ItemComplete ==> (r.current_item_id@ == current.id@
                && r.current_item_name@ == current.name@ && r.current_path@ == current.path@),
            None => true,
        },
        (item is None || phase == ProgressPhase::Starting || phase == ProgressPhase::Complete) ==>
            r.current_item_id@.len() == 0 && r.current_item_name@.len() == 0 && r.current_path@.len() == 0,
{
    let phase_text = match phase {
        ProgressPhase::Starting => "starting".to_string(),
        ProgressPhase::Running => "running".to_string(),
        ProgressPhase::ItemComplete => "item_complete".to_string(),
        ProgressPhase::Complete => "complete".to_string(),
    };
    let shows_item = phase == ProgressPhase::Running || phase == ProgressPhase::ItemComplete;
    let (id, name, path) = match item {
        Some(current) => if shows_item {
            (current.id.clone(), current.name.clone(), current.path.clone())
        } else {
            (String::new(), String::new(), String::new())
        },
        None => (String::new(), String::new(), String::new()),
    };
    let complete = phase == ProgressPhase::Complete;
    CleanupProgress {
        phase: phase_text,
        completed_items: if complete { progress.total_items } else { progress.completed_items },
        total_items: progress.total_items,
        completed_files: if complete { progress.total_files } else { progress.completed_files },
        total_files: progress.total_files,
        current_item_id: id,
        current_item_name: name,
        current_path: path,
        reclaimed_bytes: result.reclaimed_bytes,
        failed_files: result.failed.len(),
    }
}

} // verus!
