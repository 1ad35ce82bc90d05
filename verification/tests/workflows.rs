use qingpan::apps::Environment;
use qingpan::audit::{history_record, OperationKind, OperationRecord};
use qingpan::cleanup_plan::ids::identifier_text;
use qingpan::content_stream::{absorb_chunk, begin_stream, digest_text, finish_stream};
use qingpan::cleanup_plan::executor::{dispatch_for, item_done, plan_progress, progress_report, ItemDispatch, ProgressPhase};
use qingpan::policy::CapabilityPolicy;
use qingpan::models::{CleanupItem, DeleteMode, ExecuteResult, RiskLevel};
use qingpan::installed::{record_from_registry, EstimatedSize, RegistryValues};
use qingpan::duplicates::{begin_confirmation, confirm_step, finish_duplicate_scan, ConfirmEvent, ConfirmPhase};
use qingpan::large_files::{finish_deletion, take_requested};
use qingpan::models::LargeFileDeleteRequest;
use qingpan::scanner::rules::rules_for_roots;
use qingpan::scanner::{FileIdentity, FileMatcher, ProcessGuard, RootBase};
use qingpan::storage::{
    DirectoryScanOptions, DuplicateCandidate, DuplicateScanOptions, FileCandidate, LargeFileEntry, LargeFileSnapshot, ScanStats, Sensitivity,
};
use qingpan::tree::DirectoryTree;
use qingpan::usage::{directory_usage, UsageFile};

fn parts(path: &str) -> Vec<String> {
    path.split('/').filter(|p| !p.is_empty()).map(|p| p.to_string()).collect()
}

fn duplicate(path: &str, size: u64) -> DuplicateCandidate {
    DuplicateCandidate {
        candidate: FileCandidate {
            path: path.to_string(),
            size_bytes: size,
            modified_secs: None,
            modified_unix_nanos: None,
            identity: None,
            components: parts(path),
        },
        name: path.rsplit('/').next().unwrap().to_string(),
        display_path: path.to_string(),
    }
}

fn snapshot(id: &str, path: &str) -> LargeFileSnapshot {
    LargeFileSnapshot {
        entry: LargeFileEntry {
            id: id.into(),
            name: path.rsplit('/').next().unwrap().into(),
            path: path.into(),
            size_bytes: 4096,
            allocated_bytes: 4096,
            modified_at: "2024-01-01 00:00".into(),
            file_type: "视频".into(),
            sensitivity: Sensitivity::Normal,
            note: None,
        },
        canonical_root: "D:/media".into(),
        candidate: FileCandidate {
            path: path.into(),
            size_bytes: 4096,
            modified_secs: Some(7),
            modified_unix_nanos: Some(7_000_000_001),
            identity: Some(FileIdentity { volume: 1, index: 2 }),
            components: parts(path),
        },
    }
}

#[test]
fn differing_samples_stop_before_full_hashing() {
    let state = begin_confirmation(vec![vec![duplicate("R/a.bin", 8), duplicate("R/b.bin", 8)]], false);
    assert_eq!(state.phase, ConfirmPhase::Identities);
    let ids = vec![Some(FileIdentity { volume: 1, index: 1 }), Some(FileIdentity { volume: 1, index: 2 })];
    let state = confirm_step(state, ConfirmEvent::Identities(ids));
    assert_eq!(state.phase, ConfirmPhase::Samples);
    let state = confirm_step(state, ConfirmEvent::Digests(vec![Some(vec![1; 32]), Some(vec![2; 32])]));
    assert_eq!(state.phase, ConfirmPhase::Finished);
    assert_eq!(state.sampled_files, 2);
    assert_eq!(state.hashed_files, 0);
    assert!(state.verified.is_empty());
}

#[test]
fn hard_link_aliases_are_skipped_before_sampling() {
    let group = vec![duplicate("R/one/original.bin", 17), duplicate("R/three/real-copy.bin", 17), duplicate("R/two/alias.bin", 17)];
    let state = begin_confirmation(vec![group], false);
    let same = FileIdentity { volume: 1, index: 7 };
    let ids = vec![Some(same), Some(FileIdentity { volume: 1, index: 8 }), Some(same)];
    let state = confirm_step(state, ConfirmEvent::Identities(ids));
    assert_eq!(state.skipped, 1);
    assert_eq!(state.asked.len(), 2);
    let state = confirm_step(state, ConfirmEvent::Digests(vec![Some(vec![5; 32]), Some(vec![5; 32])]));
    assert_eq!(state.phase, ConfirmPhase::FullDigests);
    let state = confirm_step(state, ConfirmEvent::Digests(vec![Some(vec![6; 32]), Some(vec![6; 32])]));
    assert_eq!(state.phase, ConfirmPhase::Finished);
    assert_eq!(state.verified.len(), 1);
    assert_eq!(state.verified[0].files.len(), 2);
    assert_eq!(state.hashed_files, 2);
}

#[test]
fn cancelled_walk_confirms_nothing() {
    let state = begin_confirmation(vec![vec![duplicate("R/a.bin", 8), duplicate("R/b.bin", 8)]], true);
    assert_eq!(state.phase, ConfirmPhase::Finished);
    assert!(state.cancelled);
    assert!(state.verified.is_empty());
}

#[test]
fn every_requested_large_file_is_settled_once() {
    let request = LargeFileDeleteRequest {
        item_ids: vec!["a".into(), "a".into(), "missing".into(), "b".into()],
        confirmed_permanent: true,
    };
    let mut known = vec![snapshot("a", "D:/media/a.mkv"), snapshot("b", "D:/media/b.mkv")];
    let mut record = OperationRecord::new(OperationKind::Cleanup, "large".into());
    let (queued, partial) = take_requested(&request, &mut known, &mut record);
    assert_eq!(queued.len(), 2);
    assert_eq!(partial.failed.len(), 2);
    assert_eq!(partial.failed[0].error, "大文件清理计划包含重复条目");
    assert_eq!(partial.failed[1].error, "条目不属于最近一次大文件扫描、受保护或计划已执行");
    assert!(known.is_empty());
    let result = finish_deletion(queued, vec![Ok(4096), Err("文件已变化".into())], partial, &mut record);
    assert_eq!(result.succeeded_ids, vec!["a".to_string()]);
    assert_eq!(result.failed.len(), 3);
    assert_eq!(result.failed[2].id, "b");
    assert_eq!(result.failed[2].path.as_deref(), Some("D:/media/b.mkv"));
    assert_eq!(result.deleted_bytes, 4096);
    assert_eq!(record.failed.len(), 2);
    assert_eq!(record.failed[1].item_id, "missing");
    assert_eq!(record.failed[1].path, None);
    assert_eq!(record.succeeded.len(), 1);
    assert_eq!(record.succeeded[0].bytes, 4096);
    assert_eq!(record.succeeded[0].path.as_deref(), Some("D:/media/a.mkv"));
    assert_eq!(record.skipped.len(), 1);
    assert_eq!(record.skipped[0].detail, "文件已变化");
}

#[test]
fn usage_counts_repeated_hard_links_once() {
    let options = DirectoryScanOptions { max_files: 100, max_results: 10, excluded_paths: Vec::new() };
    let directories = vec![("D:/root/a".to_string(), 1), ("D:/root/a/deep".to_string(), 2), ("D:/root/b".to_string(), 1)];
    let linked = Some(FileIdentity { volume: 3, index: 9 });
    let files = vec![
        UsageFile { components: parts("D:/root/a/x.bin"), owning_child: Some("D:/root/a".into()), size_bytes: 100_000, linked_identity: linked },
        UsageFile { components: parts("D:/root/b/y.bin"), owning_child: Some("D:/root/b".into()), size_bytes: 100_000, linked_identity: linked },
        UsageFile { components: parts("D:/root/a/z.txt"), owning_child: Some("D:/root/a".into()), size_bytes: 10, linked_identity: None },
    ];
    let report = directory_usage("D:/root".into(), &options, directories, files, ScanStats::default()).unwrap();
    assert_eq!(report.totals.size_bytes, 100_010);
    assert_eq!(report.totals.file_count, 2);
    assert_eq!(report.stats.deduplicated_hard_links, 1);
    assert_eq!(report.directories.len(), 2);
    assert_eq!(report.directories[0].0, "D:/root/a");
    assert_eq!(report.directories[0].1.size_bytes, 100_010);
    assert_eq!(report.directories[1].1.size_bytes, 0);
    let category_bytes: u64 = report.categories.iter().map(|c| c.size_bytes).sum();
    let category_files: u64 = report.categories.iter().map(|c| c.file_count).sum();
    assert_eq!(category_bytes, report.totals.size_bytes);
    assert_eq!(category_files, report.totals.file_count);
    let bad = DirectoryScanOptions { max_files: 0, max_results: 10, excluded_paths: Vec::new() };
    assert!(directory_usage("D:/root".into(), &bad, Vec::new(), Vec::new(), ScanStats::default()).is_err());
}

#[test]
fn application_rules_are_the_nine_roaming_caches() {
    let rules = rules_for_roots(None, Some(&DirectoryTree::empty()), None, None);
    let apps: Vec<_> = rules
        .iter()
        .filter(|r| matches!(r.process_guard, Some(ProcessGuard::VsCode | ProcessGuard::Discord | ProcessGuard::Figma)))
        .collect();
    assert_eq!(apps.len(), 9);
    for rule in &apps {
        assert_eq!(rule.base, RootBase::Roaming);
        assert!(matches!(rule.matcher, FileMatcher::AllFilesRecursive));
    }
    let wechat = rules.iter().filter(|r| r.process_guard == Some(ProcessGuard::WeChat)).count();
    assert_eq!(wechat, 36);
}

fn values(uninstall: &str) -> RegistryValues {
    RegistryValues {
        system_component: None,
        parent_key_name: None,
        release_type: None,
        display_name: Some("App".into()),
        uninstall_string: Some(uninstall.into()),
        no_remove: None,
        display_icon: None,
        publisher: None,
        display_version: None,
        install_date: None,
        estimated_size: EstimatedSize::Missing,
    }
}

#[test]
fn only_a_parsed_and_accepted_command_is_uninstallable() {
    let env = Environment::empty();
    let parsed = record_from_registry("HKLM", "64", "{A}", &values("\"C:\\App\\uninstall.exe\" /S"), true, &env).unwrap();
    assert!(parsed.to_entry().uninstallable);
    let unclosed = record_from_registry("HKLM", "64", "{A}", &values("\"C:\\App\\uninstall.exe /S"), true, &env).unwrap();
    assert!(!unclosed.to_entry().uninstallable);
    let refused = record_from_registry("HKLM", "64", "{A}", &values("\"C:\\App\\uninstall.exe\""), false, &env).unwrap();
    assert!(!refused.to_entry().uninstallable);
}

fn item(id: &str, files: usize) -> CleanupItem {
    CleanupItem {
        id: id.into(),
        category: "系统缓存".into(),
        name: format!("name-{id}"),
        path: format!("C:/cache/{id}"),
        description: String::new(),
        blocked_reason: None,
        size_bytes: 10,
        file_count: files,
        risk: RiskLevel::Low,
        delete_mode: DeleteMode::Permanent,
    }
}

#[test]
fn progress_reports_each_phase_of_a_plan() {
    let items = vec![item("a", 3), item("b", 4)];
    let result = ExecuteResult { reclaimed_bytes: 0, staged_bytes: 0, succeeded: 0, failed: Vec::new() };
    let mut progress = plan_progress(&items);
    let starting = progress_report(&progress, ProgressPhase::Starting, None, &result);
    assert_eq!(starting.phase, "starting");
    assert_eq!((starting.total_items, starting.total_files), (2, 7));
    let running = progress_report(&progress, ProgressPhase::Running, Some(&items[0]), &result);
    assert_eq!(running.current_item_id, "a");
    assert_eq!(running.current_path, "C:/cache/a");
    item_done(&mut progress, &items[0]);
    let done = progress_report(&progress, ProgressPhase::ItemComplete, Some(&items[0]), &result);
    assert_eq!((done.completed_items, done.completed_files), (1, 3));
    let complete = progress_report(&progress, ProgressPhase::Complete, None, &result);
    assert_eq!((complete.completed_items, complete.completed_files), (2, 7));
    assert_eq!(complete.current_item_id, "");
}

#[test]
fn cancelled_duplicate_scan_reports_no_groups() {
    let confirmation = begin_confirmation(vec![vec![duplicate("R/a.bin", 8), duplicate("R/b.bin", 8)]], true);
    let mut stats = ScanStats::default();
    stats.cancelled = true;
    let result = finish_duplicate_scan("R".into(), &DuplicateScanOptions::default(), confirmation, 2, stats).unwrap();
    assert!(result.stats.cancelled);
    assert!(result.groups.is_empty());
    assert_eq!(result.candidate_files, 2);
    assert_eq!(result.hashed_files, 0);
}

fn assert_production_release_denies_without_dispatch(delete_mode: DeleteMode, expected_error: &str) {
    let mut planned = item("temp", 1);
    planned.path = "must-not-execute".into();
    planned.size_bytes = 128;
    planned.delete_mode = delete_mode;
    match dispatch_for(&planned, CapabilityPolicy::production_release()) {
        ItemDispatch::Refused(failure) => {
            assert_eq!(failure.path, "must-not-execute");
            assert!(failure.error.contains(expected_error));
        }
        _ => panic!("a production release must refuse before dispatch"),
    }
}

#[test]
fn production_release_denies_permanent_delete_before_dispatch() {
    assert_production_release_denies_without_dispatch(DeleteMode::Permanent, "原文件永久删除");
}

#[test]
fn production_release_denies_quarantine_staging_before_dispatch() {
    assert_production_release_denies_without_dispatch(DeleteMode::Quarantine, "隔离源文件移除");
}

#[test]
fn streamed_digest_matches_the_digest_of_the_whole_content() {
    let mut stream = begin_stream(6);
    assert!(absorb_chunk(&mut stream, b"abc"));
    assert!(absorb_chunk(&mut stream, b"def"));
    assert!(!absorb_chunk(&mut stream, b"g"));
    let digest = finish_stream(stream).expect("all six bytes were read");
    assert_eq!(digest_text(&digest), "bef57ec7f53a6d40beb640a780a639c83bc29ac8a9816f1fc6c5c6dcd93c4721");
    let mut short = begin_stream(6);
    assert!(absorb_chunk(&mut short, b"abc"));
    assert!(finish_stream(short).is_none());
}

#[test]
fn history_records_keep_only_valid_operation_ids() {
    let record = OperationRecord::new(OperationKind::Cleanup, "rules".into());
    assert!(history_record("not-an-identifier", record.clone()).is_none());
    let kept = history_record(&identifier_text(5), record).expect("a hyphenated identifier is valid");
    assert_eq!(kept.operation_id, 5);
    assert_eq!(identifier_text(5), "00000000-0000-0000-0000-000000000005");
}
