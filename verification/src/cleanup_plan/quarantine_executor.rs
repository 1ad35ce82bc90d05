use vstd::prelude::*;
use crate::cleanup_plan::executor::{
    failure_detail_spec, report_interval, report_interval_spec, saturating_u64_add, should_report,
    stage_result_failure_detail, ItemExecutionFailure, ItemExecutionOutcome,
};
use crate::quarantine::types::StageResult;
use crate::scanner::collect::{reported_at, DeleteProgress};
use crate::scanner::{CleanupSnapshot, FileSnapshot};
use crate::text::chars_of;

verus! {

/// The only rule whose files the experimental quarantine takes.
pub const PREVIEW_RULE_ID: &'static str = "temp";

/// The refusal for a snapshot whose rule is not the one quarantine takes.
pub open spec fn preview_refusal_message() -> Seq<char> {
    "实验性隔离当前只允许 Windows 临时文件规则，其他规则已安全保留"@
}

/// Refuses to quarantine a snapshot of any rule but the preview rule: the
/// item then ends with a single failure on its path and nothing is staged.
pub fn quarantine_refusal(snapshot: &CleanupSnapshot) -> (r: Option<ItemExecutionOutcome>)
    ensures
        (r is None) <==> snapshot.item.id@ == PREVIEW_RULE_ID@,
        r matches Some(outcome) ==> outcome.reclaimed_bytes == 0 && outcome.staged_bytes == 0
            && outcome.quarantine_record_ids@.len() == 0 && outcome.failures@.len() == 1
            && outcome.failures@[0].path == snapshot.item.path
            && outcome.failures@[0].error@ == preview_refusal_message(),
{
    if crate::apps::vec_eq(&chars_of(snapshot.item.id.as_str()), &chars_of(PREVIEW_RULE_ID)) {
        return None;
    }
    let failure = ItemExecutionFailure {
        path: snapshot.item.path.clone(),
        error: "实验性隔离当前只允许 Windows 临时文件规则，其他规则已安全保留".to_string(),
    };
    Some(ItemExecutionOutcome {
        reclaimed_bytes: 0,
        staged_bytes: 0,
        quarantine_record_ids: Vec::new(),
        failures: vec![failure],
    })
}

/// The bytes staged by the first `n` staging results, saturating.
pub open spec fn staged_after(results: Seq<Result<StageResult, String>>, n: int) -> u64
    decreases n,
{
    if n <= 0 {
        0
    } else {
        match results[n - 1] {
            Ok(result) => saturating_u64_add(staged_after(results, n - 1), result.size_bytes),
            Err(_) => staged_after(results, n - 1),
        }
    }
}

/// The record ids of the first `n` staging results that produced a record.
pub open spec fn records_after(results: Seq<Result<StageResult, String>>, n: int) -> Seq<String>
    decreases n,
{
    if n <= 0 {
        seq![]
    } else {
        let rest = records_after(results, n - 1);
        match results[n - 1] {
            Ok(result) => rest.push(result.record_id),
            Err(_) => rest,
        }
    }
}

/// The failures among the first `n` staging results, as a file's path and
/// the message: a refusal, or a record that retained its source or needs
/// recovery.
pub open spec fn staging_failures_after(files: Seq<FileSnapshot>, results: Seq<Result<StageResult, String>>, n: int) -> Seq<(String, Seq<char>)>
    decreases n,
{
    if n <= 0 {
        seq![]
    } else {
        let rest = staging_failures_after(files, results, n - 1);
        match results[n - 1] {
            Ok(result) => match failure_detail_spec(result) {
                Some(detail) => rest.push((files[n - 1].path, detail)),
                None => rest,
            },
            Err(error) => rest.push((files[n - 1].path, error@)),
        }
    }
}

/// The reports made after the first `n` staging results; quarantine reports
/// no reclaimed bytes.
pub open spec fn staging_reports_after(files: Seq<FileSnapshot>, results: Seq<Result<StageResult, String>>, n: int) -> Seq<DeleteProgress>
    decreases n,
{
    if n <= 0 {
        seq![]
    } else {
        let rest = staging_reports_after(files, results, n - 1);
        if reported_at(n, files.len() as usize) {
            rest.push(DeleteProgress {
                completed: n as usize,
                reclaimed_bytes: 0,
                failures: staging_failures_after(files, results, n).len() as usize,
            })
        } else {
            rest
        }
    }
}

/// Whether failures carry these paths and messages.
pub open spec fn failures_match(failures: Seq<ItemExecutionFailure>, expected: Seq<(String, Seq<char>)>) -> bool {
    failures.len() == expected.len() && forall|k: int| 0 <= k < failures.len() ==> (#[trigger] failures[k]).path == expected[k].0
        && failures[k].error@ == expected[k].1
}

proof fn lemma_staging_failures_bounded(files: Seq<FileSnapshot>, results: Seq<Result<StageResult, String>>, n: int)
    requires
        0 <= n,
    ensures
        staging_failures_after(files, results, n).len() <= n,
    decreases n,
{
    if n > 0 {
        lemma_staging_failures_bounded(files, results, n - 1);
    }
}

/// Folds the staging results of a snapshot's files, in file order, into the
/// item's outcome: staged bytes and record ids of the records made, and a
/// failure for each refusal and for each record that retained its source or
/// needs recovery; with a progress report per hundredth of the files and
/// after the last.
pub fn quarantine_with_progress(snapshot: &CleanupSnapshot, results: Vec<Result<StageResult, String>>) -> (r: (ItemExecutionOutcome, Vec<DeleteProgress>))
    requires
        results@.len() == snapshot.files@.len(),
    ensures
        r.0.reclaimed_bytes == 0,
        r.0.staged_bytes == staged_after(results@, results@.len() as int),
        r.0.quarantine_record_ids@ == records_after(results@, results@.len() as int),
        failures_match(r.0.failures@, staging_failures_after(snapshot.files@, results@, results@.len() as int)),
        r.1@ == staging_reports_after(snapshot.files@, results@, results@.len() as int),
{
    let total = snapshot.files.len();
    let interval = report_interval(total);
    let ghost all = results@;
    let mut staged: u64 = 0;
    let mut ids: Vec<String> = Vec::new();
    let mut failures: Vec<ItemExecutionFailure> = Vec::new();
    let mut reports: Vec<DeleteProgress> = Vec::new();
    let mut rest = results;
    let mut i: usize = 0;
    while rest.len() > 0
        invariant
            total == snapshot.files@.len(),
            all.len() == total,
            interval == report_interval_spec(total),
            interval >= 1,
            0 <= i <= total,
            rest@ == all.skip(i as int),
            staged == staged_after(all, i as int),
            ids@ == records_after(all, i as int),
            failures_match(failures@, staging_failures_after(snapshot.files@, all, i as int)),
            reports@ == staging_reports_after(snapshot.files@, all, i as int),
        decreases rest@.len(),
    {
        let ghost before = rest@;
        let ghost old_failures = failures@;
        let result = rest.remove(0);
        proof {
            assert(before[0] == all[i as int]);
            assert(rest@ =~= all.skip(i + 1));
        }
        match result {
            Ok(record) => {
                staged = staged.saturating_add(record.size_bytes);
                match stage_result_failure_detail(&record) {
                    Some(detail) => {
                        failures.push(ItemExecutionFailure { path: snapshot.files[i].path.clone(), error: detail });
                    },
                    None => {},
                }
                ids.push(record.record_id);
            },
            Err(error) => {
                failures.push(ItemExecutionFailure { path: snapshot.files[i].path.clone(), error });
            },
        }
        proof {
            let expected = staging_failures_after(snapshot.files@, all, i + 1);
            assert forall|k: int| 0 <= k < failures@.len() implies (#[trigger] failures@[k]).path == expected[k].0
                && failures@[k].error@ == expected[k].1 by {
                if k < old_failures.len() {
                    assert(failures@[k] == old_failures[k]);
                }
            }
        }
        i = i + 1;
        proof {
            lemma_staging_failures_bounded(snapshot.files@, all, i as int);
        }
        if should_report(i, total, interval) {
            reports.push(DeleteProgress { completed: i, reclaimed_bytes: 0, failures: failures.len() });
        }
    }
    (ItemExecutionOutcome { reclaimed_bytes: 0, staged_bytes: staged, quarantine_record_ids: ids, failures }, reports)
}

} // verus!
