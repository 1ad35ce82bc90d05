use qingpan::quarantine::journal::{journal_lines, next_entry, verify_journal};
use qingpan::quarantine::staging::{begin_staging, stage_step, StageAction, StagePhase, StagingState, StepOutcome};
use qingpan::quarantine::types::{ErrorKind, JournalEntry, JournalEvent, StageResult};
use sha2::{Digest, Sha256};

const HASH: &str = "4f2a0c";

fn start() -> (StagingState, StageAction) {
    begin_staging("source.tmp", 11).expect("staging should start")
}

/// Runs staging with the given outcomes, returning the journal events asked
/// for, the number of removals asked for, and the final action.
fn run(outcomes: Vec<StepOutcome>) -> (Vec<JournalEvent>, usize, StageAction) {
    let (mut state, mut action) = start();
    let mut journal = Vec::new();
    let mut removals = 0;
    for outcome in outcomes {
        match &action {
            StageAction::AppendJournal(event) => journal.push(*event),
            StageAction::RemoveSource => removals += 1,
            StageAction::Finish(_) => panic!("staging finished early"),
            _ => {}
        }
        let (next_state, next_action) = stage_step(state, outcome);
        state = next_state;
        action = next_action;
    }
    assert_eq!(state.phase, StagePhase::Finished);
    (journal, removals, action)
}

fn done() -> StepOutcome {
    StepOutcome::Done
}

fn hashed(hash: &str) -> StepOutcome {
    StepOutcome::Hashed(hash.to_string())
}

fn failed(message: &str) -> StepOutcome {
    StepOutcome::Failed(message.to_string())
}

fn finished_ok(action: StageAction) -> StageResult {
    match action {
        StageAction::Finish(Ok(result)) => result,
        other => panic!("expected a result, got {:?}", other),
    }
}

fn finished_err(action: StageAction) -> String {
    match action {
        StageAction::Finish(Err(message)) => message,
        other => panic!("expected a refusal, got {:?}", other),
    }
}

/// Outcomes up to and including the journaling of `ObjectCommitted`.
fn through_commit() -> Vec<StepOutcome> {
    vec![
        done(),         // ValidateSource
        done(),         // PrepareRepository
        done(),         // Prepared
        done(),         // Copying
        hashed(HASH),   // CopySourceToObject
        done(),         // ObjectVerified
        hashed(HASH),   // HashObject
        done(),         // WriteManifest
        done(),         // ObjectCommitted
    ]
}

#[test]
fn successful_stage_commits_object_before_removing_source() {
    let mut outcomes = through_commit();
    outcomes.extend(vec![done(), hashed(HASH), done(), done(), done(), done()]);
    let (journal, removals, action) = run(outcomes);
    assert_eq!(
        journal,
        vec![
            JournalEvent::Prepared,
            JournalEvent::Copying,
            JournalEvent::ObjectVerified,
            JournalEvent::ObjectCommitted,
            JournalEvent::SourceDeletePrepared,
            JournalEvent::Committed,
        ]
    );
    assert_eq!(removals, 1);
    let result = finished_ok(action);
    assert_eq!(result.record_id.len(), 36);
    assert_eq!(result.record_id.as_bytes()[14], b'4');
    assert_eq!(result.size_bytes, 11);
    assert!(!result.source_retained);
    assert!(!result.recovery_required);
    assert_eq!(result.detail, None);
}

#[test]
fn failed_final_validation_retains_source_and_committed_object() {
    let mut outcomes = through_commit();
    outcomes.extend(vec![done(), hashed(HASH), failed("changed"), done()]);
    let (journal, removals, action) = run(outcomes);
    assert_eq!(journal.last(), Some(&JournalEvent::SourceRetained));
    assert!(!journal.contains(&JournalEvent::SourceDeletePrepared));
    assert_eq!(removals, 0);
    let result = finished_ok(action);
    assert!(result.source_retained);
    assert!(!result.recovery_required);
    assert_eq!(result.detail.as_deref(), Some("删除前最终身份复检失败，源文件已保留: changed"));
}

#[test]
fn changed_content_before_deletion_retains_source() {
    let mut outcomes = through_commit();
    outcomes.extend(vec![done(), hashed("ffff"), done()]);
    let (journal, removals, action) = run(outcomes);
    assert_eq!(journal.len(), 5);
    assert_eq!(journal[4], JournalEvent::SourceRetained);
    assert_eq!(removals, 0);
    let result = finished_ok(action);
    assert!(result.source_retained);
    assert_eq!(result.detail.as_deref(), Some("删除前内容哈希已变化，源文件已保留"));
}

#[test]
fn delete_error_marks_source_retained_only_after_post_delete_proof() {
    let mut outcomes = through_commit();
    // Re-checks, SourceDeletePrepared, failed removal, then identity,
    // content and final identity all confirm the source, then SourceRetained.
    outcomes.extend(vec![done(), hashed(HASH), done(), done(), failed("simulated"), done(), hashed(HASH), done(), done()]);
    let (journal, removals, action) = run(outcomes);
    assert_eq!(
        &journal[4..],
        &[JournalEvent::SourceDeletePrepared, JournalEvent::SourceRetained]
    );
    assert_eq!(removals, 1);
    let result = finished_ok(action);
    assert!(result.source_retained);
    assert!(!result.recovery_required);
    assert_eq!(
        result.detail.as_deref(),
        Some("隔离对象已提交；源文件删除失败，经身份与内容复检确认原文件仍被保留: simulated")
    );
}

#[test]
fn delete_error_without_post_delete_proof_requires_recovery() {
    let mut outcomes = through_commit();
    outcomes.extend(vec![done(), hashed(HASH), done(), done(), failed("simulated ambiguous deletion result"), failed("post-delete identity unavailable")]);
    let (journal, removals, action) = run(outcomes);
    assert_eq!(journal.last(), Some(&JournalEvent::SourceDeletePrepared));
    assert!(!journal.contains(&JournalEvent::SourceRetained));
    assert!(!journal.contains(&JournalEvent::Committed));
    assert_eq!(removals, 1);
    let result = finished_ok(action);
    assert!(!result.source_retained);
    assert!(result.recovery_required);
    assert_eq!(
        result.detail.as_deref(),
        Some("源文件删除结果无法确认，记录已转入恢复必需状态；未追加 SourceRetained: 删除错误: simulated ambiguous deletion result; 后置复检: 删除失败后无法确认源文件身份: post-delete identity unavailable")
    );
}

#[test]
fn copy_failure_discards_object_and_keeps_message() {
    let outcomes = vec![done(), done(), done(), done(), failed("源文件在复制期间增长"), done()];
    let (journal, removals, action) = run(outcomes);
    assert_eq!(journal, vec![JournalEvent::Prepared, JournalEvent::Copying]);
    assert_eq!(removals, 0);
    assert_eq!(finished_err(action), "源文件在复制期间增长");
}

#[test]
fn reread_mismatch_discards_object() {
    let outcomes = vec![done(), done(), done(), done(), hashed(HASH), done(), hashed("0000"), done()];
    let (journal, _, action) = run(outcomes);
    assert_eq!(journal.len(), 3);
    assert_eq!(finished_err(action), "隔离对象复读哈希不一致，源文件已保留");
}

#[test]
fn repository_failure_is_reported_with_its_step() {
    let (journal, _, action) = run(vec![done(), failed("denied")]);
    assert!(journal.is_empty());
    assert_eq!(finished_err(action), "无法初始化隔离仓库: denied");
}

#[test]
fn staging_refuses_bad_names_and_oversized_files() {
    for name in ["", ".", "..", "a/b", "a\\b", "C:x"] {
        assert_eq!(begin_staging(name, 1).err().as_deref(), Some("隔离文件名无效"));
    }
    assert_eq!(
        begin_staging("big.bin", 1024 * 1024 * 1024 + 1).err().as_deref(),
        Some("单个文件超过实验性隔离上限，已保留源文件")
    );
    let (state, action) = begin_staging("big.bin", 1024 * 1024 * 1024).expect("at the limit");
    assert_eq!(state.phase, StagePhase::CheckingSource);
    assert!(matches!(action, StageAction::ValidateSource));
    let (other, _) = begin_staging("big.bin", 1).expect("a small file");
    assert_ne!(state.record_id, other.record_id);
    assert_eq!(other.record_id.len(), 36);
}

fn sha256_hex(bytes: &[u8]) -> String {
    format!("{:x}", Sha256::digest(bytes))
}

#[test]
fn append_builds_a_contiguous_hash_chain() {
    let first = next_entry(0, None, JournalEvent::Prepared, 100);
    assert_eq!(first.sequence, 1);
    assert_eq!(first.previous_entry_sha256, None);
    let first_line = b"{\"sequence\":1}".to_vec();
    let second = next_entry(1, Some(&first_line), JournalEvent::Copying, 200);
    assert_eq!(second.sequence, 2);
    assert_eq!(second.previous_entry_sha256, Some(sha256_hex(&first_line)));
    assert_eq!(second.event, JournalEvent::Copying);
    assert_eq!(second.occurred_at_ms, 200);

    let second_line = b"{\"sequence\":2}".to_vec();
    let mut bytes = first_line.clone();
    bytes.push(b'\n');
    bytes.extend_from_slice(&second_line);
    bytes.extend_from_slice(b"\r\n");
    let (lines, fault) = journal_lines(&bytes);
    assert_eq!(lines, vec![first_line, second_line]);
    assert_eq!(fault, None);
    let entries = verify_journal(&lines, vec![Some(first), Some(second)], fault).expect("journal should verify");
    assert_eq!(entries.len(), 2);
}

fn entry(sequence: u64, previous: Option<String>) -> JournalEntry {
    JournalEntry { schema_version: 1, sequence, previous_entry_sha256: previous, occurred_at_ms: 0, event: JournalEvent::Prepared }
}

#[test]
fn truncated_tail_fails_closed() {
    let (lines, fault) = journal_lines(b"first\n{\"schemaVersion\":1");
    assert_eq!(lines, vec![b"first".to_vec()]);
    assert_eq!(fault.as_deref(), Some("quarantine journal has a truncated tail"));
    let error = verify_journal(&lines, vec![Some(entry(1, None))], fault).unwrap_err();
    assert_eq!(error.kind(), ErrorKind::InvalidData);
    assert_eq!(error.message, "quarantine journal has a truncated tail");
}

#[test]
fn journal_faults_are_reported_in_order() {
    let (lines, fault) = journal_lines(b"one\n\ntwo\n");
    assert_eq!(lines.len(), 1);
    assert_eq!(fault.as_deref(), Some("quarantine journal contains an empty entry"));

    let lines = vec![b"one".to_vec(), b"two".to_vec()];
    let bad_chain = verify_journal(&lines, vec![Some(entry(1, None)), Some(entry(2, Some("00".to_string())))], None).unwrap_err();
    assert_eq!(bad_chain.message, "quarantine journal hash chain is invalid");
    let bad_sequence = verify_journal(&lines, vec![Some(entry(1, None)), Some(entry(3, Some(sha256_hex(b"one"))))], None).unwrap_err();
    assert_eq!(bad_sequence.message, "quarantine journal sequence is not contiguous");
    let unreadable = verify_journal(&lines, vec![None, Some(entry(2, Some(sha256_hex(b"one"))))], None).unwrap_err();
    assert_eq!(unreadable.message, "quarantine journal entry cannot be read");
    let good = verify_journal(&lines, vec![Some(entry(1, None)), Some(entry(2, Some(sha256_hex(b"one"))))], None);
    assert!(good.is_ok());
}
