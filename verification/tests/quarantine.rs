use qingpan::audit::{OperationKind, OperationStatus};
use qingpan::quarantine::manifest::{object_name, QuarantineManifest};
use qingpan::quarantine::restore::{
    begin_export, check_copied_object, check_exported_copy, export_audit_record, export_directory_name,
};
use qingpan::cleanup_plan::executor::stage_result_failure_detail;
use qingpan::quarantine::reconcile::derive_state;
use qingpan::quarantine::types::{
    ErrorKind, JournalEntry, JournalEvent, QuarantineRecordState, StageResult,
    QUARANTINE_SCHEMA_VERSION,
};

fn entries(events: &[JournalEvent]) -> Vec<JournalEntry> {
    events
        .iter()
        .enumerate()
        .map(|(index, event)| JournalEntry {
            schema_version: QUARANTINE_SCHEMA_VERSION,
            sequence: index as u64 + 1,
            previous_entry_sha256: None,
            occurred_at_ms: index as u64,
            event: *event,
        })
        .collect()
}

fn result(source_retained: bool, recovery_required: bool) -> StageResult {
    StageResult {
        record_id: "record-1".into(),
        size_bytes: 1024,
        source_retained,
        recovery_required,
        detail: None,
    }
}

#[test]
fn maps_supported_terminal_and_uncertain_states() {
    let committed = entries(&[
        JournalEvent::Prepared,
        JournalEvent::Copying,
        JournalEvent::ObjectVerified,
        JournalEvent::ObjectCommitted,
        JournalEvent::SourceDeletePrepared,
        JournalEvent::Committed,
    ]);
    assert_eq!(
        derive_state(&committed).unwrap(),
        QuarantineRecordState::Committed
    );

    let retained = entries(&[
        JournalEvent::Prepared,
        JournalEvent::Copying,
        JournalEvent::ObjectVerified,
        JournalEvent::ObjectCommitted,
    ]);
    assert_eq!(
        derive_state(&retained).unwrap(),
        QuarantineRecordState::SourceRetained
    );

    let uncertain = entries(&[
        JournalEvent::Prepared,
        JournalEvent::Copying,
        JournalEvent::ObjectVerified,
        JournalEvent::ObjectCommitted,
        JournalEvent::SourceDeletePrepared,
    ]);
    assert_eq!(
        derive_state(&uncertain).unwrap(),
        QuarantineRecordState::RecoveryRequired
    );
}

#[test]
fn allows_source_retained_before_or_after_delete_is_armed() {
    for events in [
        vec![
            JournalEvent::Prepared,
            JournalEvent::Copying,
            JournalEvent::ObjectVerified,
            JournalEvent::ObjectCommitted,
            JournalEvent::SourceRetained,
        ],
        vec![
            JournalEvent::Prepared,
            JournalEvent::Copying,
            JournalEvent::ObjectVerified,
            JournalEvent::ObjectCommitted,
            JournalEvent::SourceDeletePrepared,
            JournalEvent::SourceRetained,
        ],
    ] {
        assert_eq!(
            derive_state(&entries(&events)).unwrap(),
            QuarantineRecordState::SourceRetained
        );
    }
}

#[test]
fn rejects_skipped_or_post_terminal_transitions() {
    let skipped = entries(&[JournalEvent::Prepared, JournalEvent::ObjectVerified]);
    assert_eq!(
        derive_state(&skipped).unwrap_err().kind(),
        ErrorKind::InvalidData
    );

    let post_terminal = entries(&[
        JournalEvent::Prepared,
        JournalEvent::Copying,
        JournalEvent::ObjectVerified,
        JournalEvent::ObjectCommitted,
        JournalEvent::SourceRetained,
        JournalEvent::SourceRetained,
    ]);
    assert_eq!(
        derive_state(&post_terminal).unwrap_err().kind(),
        ErrorKind::InvalidData
    );
}

#[test]
fn empty_or_unprepared_journals_are_invalid() {
    assert_eq!(derive_state(&[]).unwrap_err().kind(), ErrorKind::InvalidData);
    let copying_first = entries(&[JournalEvent::Copying]);
    assert_eq!(
        derive_state(&copying_first).unwrap_err().kind(),
        ErrorKind::InvalidData
    );
}

#[test]
fn recovery_required_stage_result_is_a_failure() {
    let detail = stage_result_failure_detail(&result(false, true))
        .expect("recovery-required records must require review");
    assert!(detail.contains("人工核对"));
}

#[test]
fn committed_stage_result_is_not_a_failure() {
    assert!(stage_result_failure_detail(&result(false, false)).is_none());
}

#[test]
fn retained_stage_result_is_a_failure() {
    assert!(stage_result_failure_detail(&result(true, false)).is_some());
}

#[test]
fn uncertain_delete_state_rejects_ordinary_export() {
    let state = derive_state(&entries(&[
        JournalEvent::Prepared,
        JournalEvent::Copying,
        JournalEvent::ObjectVerified,
        JournalEvent::ObjectCommitted,
        JournalEvent::SourceDeletePrepared,
    ]))
    .unwrap();
    assert_eq!(state, QuarantineRecordState::RecoveryRequired);
    let error = begin_export(state).unwrap_err();
    assert!(error.contains("恢复必需状态"));
    assert!(error.contains("救援/取证流程"));
    assert_eq!(begin_export(QuarantineRecordState::Damaged).unwrap_err(), "隔离记录当前不可导出");
    let committed = begin_export(QuarantineRecordState::Committed).unwrap();
    let retained = begin_export(QuarantineRecordState::SourceRetained).unwrap();
    assert_ne!(committed, retained);
    assert_eq!((committed >> 76) & 0xF, 4);
}

#[test]
fn exports_are_checked_and_audited_against_the_manifest() {
    let id = 0x0123_4567_89ab_4def_8123_4567_89ab_cdef_u128;
    let manifest = QuarantineManifest {
        schema_version: 1,
        protocol: "quarantine-preview-v1".into(),
        record_id: id,
        file_name: "cache.tmp".into(),
        rule_id: "temp".into(),
        plan_id: "plan".into(),
        created_at_ms: 1,
        size_bytes: 12,
        sha256: "ab".repeat(32),
        object_name: object_name(id),
    };
    assert!(check_copied_object(&manifest, 12, &"ab".repeat(32)).is_ok());
    assert_eq!(check_copied_object(&manifest, 11, &"ab".repeat(32)).unwrap_err(), "quarantine object failed manifest verification");
    assert_eq!(check_exported_copy(&manifest, 12, &"0".repeat(64)).unwrap_err(), "exported quarantine copy failed verification");
    assert_eq!(export_directory_name(id), "Qingpan-Export-01234567-89ab-4def-8123-456789abcdef");
    let record = export_audit_record(7, &manifest);
    assert_eq!(record.kind, OperationKind::RestoreExport);
    assert_eq!(record.status, OperationStatus::Succeeded);
    assert_eq!(record.operation_id, 7);
    assert_eq!(record.staged_bytes, 12);
    assert_eq!(record.succeeded.len(), 1);
    assert_eq!(record.succeeded[0].item_id, "01234567-89ab-4def-8123-456789abcdef");
    assert!(record.succeeded[0].path.is_none());
}
