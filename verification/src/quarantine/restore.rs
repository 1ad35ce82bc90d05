//! Exporting a verified copy of a quarantined file: which records may be
//! exported, where the copy goes, what it must match, and what the audit
//! history records of it.
use vstd::prelude::*;
use crate::audit::{OperationDetail, OperationKind, OperationRecord, OperationStatus, unix_time_ms};
use crate::cleanup_plan::ids::{format_id, hyphenated, new_random_id};
use crate::quarantine::manifest::{QuarantineManifest, QUARANTINE_PROTOCOL};
use crate::quarantine::types::QuarantineRecordState;
use crate::text::chars_of;

verus! {

/// The directory, beside the repository, that exports are written under.
pub const EXPORT_ROOT_NAME: &'static str = "restore-exports";

/// The prefix of each export's own directory, followed by its operation id.
pub const EXPORT_DIRECTORY_PREFIX: &'static str = "Qingpan-Export-";

/// Why a record in this state may not be exported, if it may not: one that
/// needs recovery is left to a rescue process; only committed records and
/// records whose source was retained are exported.
pub open spec fn export_refusal_spec(state: QuarantineRecordState) -> Option<Seq<char>> {
    if state == QuarantineRecordState::RecoveryRequired {
        Some("隔离记录处于恢复必需状态，普通导出已拒绝；仅可由未来的救援/取证流程处理"@)
    } else if state != QuarantineRecordState::Committed && state != QuarantineRecordState::SourceRetained {
        Some("隔离记录当前不可导出"@)
    } else {
        None
    }
}

/// Starts an export of a record in `state`: refused as above, or given a
/// fresh random operation identifier.
pub fn begin_export(state: QuarantineRecordState) -> (r: Result<u128, String>)
    ensures
        match export_refusal_spec(state) {
            Some(message) => r matches Err(m) && m@ == message,
            None => r matches Ok(id) && id & 0xF000_C000_0000_0000_0000 == 0x4000_8000_0000_0000_0000,
        },
{
    if state == QuarantineRecordState::RecoveryRequired {
        return Err("隔离记录处于恢复必需状态，普通导出已拒绝；仅可由未来的救援/取证流程处理".to_string());
    }
    if state != QuarantineRecordState::Committed && state != QuarantineRecordState::SourceRetained {
        return Err("隔离记录当前不可导出".to_string());
    }
    Ok(new_random_id())
}

/// The name of an export's own directory.
pub fn export_directory_name(operation_id: u128) -> (r: String)
    ensures
        r@ == EXPORT_DIRECTORY_PREFIX@ + hyphenated(operation_id),
{
    let mut name = EXPORT_DIRECTORY_PREFIX.to_string();
    vstd::string::StringExecFns::append(&mut name, format_id(operation_id).as_str());
    name
}

fn same_text(a: &String, b: &String) -> (r: bool)
    ensures
        r == (a@ == b@),
{
    crate::apps::vec_eq(&chars_of(a.as_str()), &chars_of(b.as_str()))
}

/// Whether a copy of `bytes` bytes with digest `sha256` is the manifest's
/// content.
pub open spec fn matches_manifest(manifest: QuarantineManifest, bytes: u64, sha256: Seq<char>) -> bool {
    bytes == manifest.size_bytes && sha256 == manifest.sha256@
}

/// Checks what was read from the object while it was copied against the
/// manifest.
pub fn check_copied_object(manifest: &QuarantineManifest, bytes: u64, sha256: &String) -> (r: Result<(), String>)
    ensures
        (r is Ok) <==> matches_manifest(*manifest, bytes, sha256@),
        r matches Err(m) ==> m@ == "quarantine object failed manifest verification"@,
{
    if bytes != manifest.size_bytes || !same_text(sha256, &manifest.sha256) {
        return Err("quarantine object failed manifest verification".to_string());
    }
    Ok(())
}

/// Checks the exported copy, read back, against the manifest.
pub fn check_exported_copy(manifest: &QuarantineManifest, bytes: u64, sha256: &String) -> (r: Result<(), String>)
    ensures
        (r is Ok) <==> matches_manifest(*manifest, bytes, sha256@),
        r matches Err(m) ==> m@ == "exported quarantine copy failed verification"@,
{
    if bytes != manifest.size_bytes || !same_text(sha256, &manifest.sha256) {
        return Err("exported quarantine copy failed verification".to_string());
    }
    Ok(())
}

/// The audit record of a successful export: a succeeded restore-export
/// operation under the export's identifier that staged the record's bytes,
/// reclaimed nothing, and names the record without a path.
pub fn export_audit_record(operation_id: u128, manifest: &QuarantineManifest) -> (r: OperationRecord)
    ensures
        r.kind == OperationKind::RestoreExport,
        r.rule_version@ == QUARANTINE_PROTOCOL@,
        r.operation_id == operation_id,
        r.status == OperationStatus::Succeeded,
        r.reclaimed_bytes == 0,
        r.staged_bytes == manifest.size_bytes,
        r.failed@.len() == 0,
        r.skipped@.len() == 0,
        r.succeeded@.len() == 1,
        r.succeeded@[0].item_id@ == hyphenated(manifest.record_id),
        r.succeeded@[0].path is None,
        r.succeeded@[0].bytes == manifest.size_bytes,
        r.succeeded@[0].detail@ == "exported verified quarantine copy; quarantine object retained"@,
{
    let mut record = OperationRecord::new(OperationKind::RestoreExport, QUARANTINE_PROTOCOL.to_string());
    record.operation_id = operation_id;
    record.status = OperationStatus::Succeeded;
    record.completed_at_ms = unix_time_ms();
    record.reclaimed_bytes = 0;
    record.staged_bytes = manifest.size_bytes;
    record.succeeded.push(OperationDetail {
        item_id: format_id(manifest.record_id),
        path: None,
        bytes: manifest.size_bytes,
        detail: "exported verified quarantine copy; quarantine object retained".to_string(),
    });
    record
}

} // verus!
