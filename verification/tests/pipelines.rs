use qingpan::apps::Environment;
use qingpan::audit::{OperationKind, OperationRecord};
use qingpan::duplicates::{distinct_identities, group_digests, multi_member_groups, scan_duplicates, size_groups};
use qingpan::installed::{enumerate, record_from_registry, EstimatedSize, RegistryKey, RegistryValues};
use qingpan::large_files::{
    check_delete_request, record_large_file_deleted, record_large_file_failure, scan_large_files,
    scan_large_files_with_snapshots, take_for_deletion, FoundFile,
};
use qingpan::models::{CleanupItem, DeleteMode, LargeFileDeleteRequest, LargeFileDeleteResult, RiskLevel};
use qingpan::policy::{BuildChannel, CapabilityPolicy};
use qingpan::quarantine::listing::{list_records, record_view};
use qingpan::quarantine::types::QuarantineRecordState;
use qingpan::scanner::collect::{
    execute, execute_with_progress, prepare_execution, scan, scan_targets, DirectoryListing,
    EntryFacts, RootObservation,
};
use qingpan::scanner::rules::{rules, RootDirectory, RuleRoots};
use qingpan::scanner::{CleanupSnapshot, FileIdentity, FileMatcher, FileSnapshot, ProcessGuard, RootBase, Rule};
use qingpan::storage::{
    DuplicateCandidate, DuplicateScanOptions, FileCandidate, LargeFileScanOptions, OpenedFileFacts,
    ScanStats, Sensitivity, VerifiedGroup,
};
use qingpan::tree::DirectoryTree;

fn parts(path: &str) -> Vec<String> {
    path.split('/').map(|p| p.to_string()).collect()
}

fn found(path: &str, size: u64, links: u64) -> FoundFile {
    FoundFile {
        candidate: FileCandidate {
            path: path.to_string(),
            size_bytes: size,
            modified_secs: Some(0),
            modified_unix_nanos: Some(0),
            identity: None,
            components: parts(path),
        },
        facts: OpenedFileFacts {
            identity_and_links: Some((FileIdentity { volume: 1, index: size as u128 }, links)),
            default_stream_only: Some(true),
        },
        name: path.rsplit('/').next().unwrap().to_string(),
        display_path: path.to_string(),
    }
}

fn options(min: u64, max_results: usize) -> LargeFileScanOptions {
    LargeFileScanOptions { min_size_bytes: min, max_files: 100, max_results, excluded_paths: Vec::new() }
}

#[test]
fn large_file_scan_keeps_the_largest_and_snapshots_only_pinned_files() {
    let root = "D:".to_string();
    let files = vec![
        found("D:/a.mkv", 50, 1),
        found("D:/b.mkv", 500, 1),
        found("D:/c.mkv", 5, 1),
        found("D:/d.mkv", 300, 2),
        found("D:/Windows/e.bin", 400, 1),
    ];
    let (result, snapshots) =
        scan_large_files_with_snapshots("D:\\".into(), &root, &options(10, 3), files, ScanStats::default())
            .expect("limits are valid");
    assert_eq!(result.root, "D:\\");
    assert_eq!(result.files.iter().map(|f| f.size_bytes).collect::<Vec<_>>(), vec![500, 400, 300]);
    assert_eq!(result.total_matched_bytes, 1250);
    assert!(result.stats.limit_reached);
    assert_eq!(result.files[1].sensitivity, Sensitivity::Protected);
    assert_eq!(result.files[2].sensitivity, Sensitivity::Protected);
    assert_eq!(snapshots.len(), 1);
    assert_eq!(snapshots[0].candidate.path, "D:/b.mkv");
}

#[test]
fn pre_cancelled_scan_returns_cancelled_without_results() {
    let mut stats = ScanStats::default();
    stats.cancelled = true;
    let result = scan_large_files("D:".into(), &"D:".to_string(), &options(1, 10), Vec::new(), stats)
        .expect("limits are valid");
    assert!(result.files.is_empty());
    assert!(result.stats.cancelled);
    assert_eq!(result.total_matched_bytes, 0);
}

#[test]
fn large_file_scan_rejects_invalid_limits() {
    let mut bad = options(1, 10);
    bad.max_files = 0;
    let error = scan_large_files("D:".into(), &"D:".to_string(), &bad, Vec::new(), ScanStats::default())
        .expect_err("zero max files must fail");
    assert!(error.contains("maxFiles"));
}

fn snapshot_for(path: &str, size: u64) -> qingpan::storage::LargeFileSnapshot {
    let (_, snapshots) = scan_large_files_with_snapshots(
        "D:".into(),
        &"D:".to_string(),
        &options(1, 10),
        vec![found(path, size, 1)],
        ScanStats::default(),
    )
    .unwrap();
    snapshots.into_iter().next().unwrap()
}

#[test]
fn large_file_deletion_takes_each_snapshot_once() {
    let first = snapshot_for("D:/a.mkv", 10);
    let id = first.entry.id.clone();
    let mut known = vec![first, snapshot_for("D:/b.mkv", 20)];
    let taken = take_for_deletion(&id, &Vec::new(), &mut known).expect("known id");
    assert_eq!(taken.entry.id, id);
    assert_eq!(known.len(), 1);
    let again = take_for_deletion(&id, &Vec::new(), &mut known).expect_err("already taken");
    assert!(again.contains("不属于"));
    let repeated = take_for_deletion(&id, &vec![id.clone()], &mut known).expect_err("repeat");
    assert!(repeated.contains("重复"));
    assert_eq!(known.len(), 1);
}

#[test]
fn large_file_deletion_requests_are_checked_before_any_file() {
    let allowed = CapabilityPolicy { build_channel: BuildChannel::Debug };
    let unconfirmed = LargeFileDeleteRequest { item_ids: vec!["x".into()], confirmed_permanent: false };
    assert!(check_delete_request(&unconfirmed, allowed).unwrap_err().contains("确认"));
    let empty = LargeFileDeleteRequest { item_ids: Vec::new(), confirmed_permanent: true };
    assert!(check_delete_request(&empty, allowed).unwrap_err().contains("1 到 2000"));
    let good = LargeFileDeleteRequest { item_ids: vec!["x".into()], confirmed_permanent: true };
    assert!(check_delete_request(&good, allowed).is_ok());
    assert!(check_delete_request(&good, CapabilityPolicy::production_release()).unwrap_err().contains("永久删除"));
}

#[test]
fn large_file_deletion_results_are_recorded() {
    let mut result = LargeFileDeleteResult { deleted_bytes: 5, succeeded_ids: Vec::new(), failed: Vec::new() };
    let mut record = OperationRecord::new(OperationKind::Cleanup, "large-file-snapshot-v1".into());
    record_large_file_deleted(&mut result, &mut record, &"a".to_string(), &"D:/a".to_string(), 10);
    record_large_file_failure(&mut result, &mut record, &"b".to_string(), &"gone".to_string(), Some("D:/b".into()), true);
    record_large_file_failure(&mut result, &mut record, &"c".to_string(), &"unknown".to_string(), None, false);
    assert_eq!(result.deleted_bytes, 15);
    assert_eq!(result.succeeded_ids, vec!["a".to_string()]);
    assert_eq!(result.failed.len(), 2);
    assert_eq!(record.succeeded.len(), 1);
    assert_eq!(record.skipped.len(), 1);
    assert_eq!(record.failed.len(), 1);
    assert_eq!(record.succeeded[0].bytes, 10);
}

fn duplicate(path: &str, size: u64) -> DuplicateCandidate {
    DuplicateCandidate {
        candidate: FileCandidate {
            path: path.to_string(),
            size_bytes: size,
            modified_secs: None,
            modified_unix_nanos: None,
            identity: None,
            components: parts(path),
        },
        name: path.to_string(),
        display_path: path.to_string(),
    }
}

#[test]
fn size_groups_keep_shared_sizes_largest_first_by_path() {
    let files = vec![
        duplicate("D:/z", 10),
        duplicate("D:/a", 30),
        duplicate("D:/y", 10),
        duplicate("D:/single", 20),
        duplicate("D:/b", 30),
        duplicate("D:/tiny1", 1),
        duplicate("D:/tiny2", 1),
    ];
    let (groups, count) = size_groups(files, 5);
    assert_eq!(count, 4);
    assert_eq!(groups.len(), 2);
    assert_eq!(groups[0].iter().map(|c| c.candidate.path.as_str()).collect::<Vec<_>>(), vec!["D:/a", "D:/b"]);
    assert_eq!(groups[1].iter().map(|c| c.candidate.path.as_str()).collect::<Vec<_>>(), vec!["D:/y", "D:/z"]);
}

#[test]
fn hard_links_are_not_counted_as_reclaimable_copies() {
    let id = FileIdentity { volume: 1, index: 9 };
    let other = FileIdentity { volume: 1, index: 10 };
    let (kept, skipped) = distinct_identities(
        vec![duplicate("D:/a", 8), duplicate("D:/b", 8), duplicate("D:/c", 8), duplicate("D:/d", 8)],
        &vec![Some(id), Some(id), None, Some(other)],
    );
    assert_eq!(kept.len(), 2);
    assert_eq!(skipped, 2);
    assert_eq!(kept[0].candidate.identity, Some(id));
    assert_eq!(kept[1].candidate.path, "D:/d");
}

#[test]
fn same_size_different_content_is_not_a_duplicate() {
    let (groups, hashed, skipped) = group_digests(
        vec![duplicate("D:/a", 8), duplicate("D:/b", 8), duplicate("D:/c", 8), duplicate("D:/d", 8)],
        &vec![Some(vec![1; 32]), Some(vec![2; 32]), Some(vec![1; 32]), None],
    );
    assert_eq!(hashed, 3);
    assert_eq!(skipped, 1);
    assert_eq!(groups.len(), 2);
    assert_eq!(groups[0].files.len(), 2);
    let multi = multi_member_groups(groups);
    assert_eq!(multi.len(), 1);
    assert_eq!(multi[0].hash, vec![1; 32]);
}

#[test]
fn duplicate_scan_requires_equal_full_content() {
    let verified = vec![VerifiedGroup { hash: vec![3; 32], files: vec![duplicate("D:/a", 100), duplicate("D:/b", 100)] }];
    let result = scan_duplicates("D:".into(), &DuplicateScanOptions::default(), verified, 2, 2, 2, ScanStats::default())
        .expect("default options are valid");
    assert_eq!(result.groups.len(), 1);
    assert_eq!(result.reclaimable_bytes, 100);
    assert_eq!(result.candidate_files, 2);
    let mut bad = DuplicateScanOptions::default();
    bad.max_members = 1;
    assert!(scan_duplicates("D:".into(), &bad, Vec::new(), 0, 0, 0, ScanStats::default()).is_err());
}

fn registry(name: Option<&str>) -> RegistryValues {
    RegistryValues {
        system_component: None,
        parent_key_name: None,
        release_type: None,
        display_name: name.map(|n| n.to_string()),
        uninstall_string: Some(" \"C:\\App\\uninstall.exe\" ".into()),
        no_remove: None,
        display_icon: None,
        publisher: Some("  Acme ".into()),
        display_version: None,
        install_date: None,
        estimated_size: EstimatedSize::Text(" 2048 ".into()),
    }
}

#[test]
fn registry_keys_become_records_unless_hidden() {
    let env = Environment::empty();
    let record = record_from_registry("HKLM", "64", "{X}", &registry(Some(" App ")), true, &env).expect("visible key");
    assert_eq!(record.name, "App");
    assert_eq!(record.publisher, "Acme");
    assert_eq!(record.version, "");
    assert_eq!(record.size_bytes, 2048 * 1024);
    assert_eq!(record.uninstall_command.as_deref(), Some("\"C:\\App\\uninstall.exe\""));
    assert!(record.id.starts_with("app_"));
    assert!(record_from_registry("HKLM", "64", "{X}", &registry(None), true, &env).is_none());
    let mut component = registry(Some("App"));
    component.system_component = Some(1);
    assert!(record_from_registry("HKLM", "64", "{X}", &component, true, &env).is_none());
    let mut update = registry(Some("KB123"));
    update.release_type = Some("Security Update".into());
    assert!(record_from_registry("HKLM", "64", "{X}", &update, true, &env).is_none());
    let mut blocked = registry(Some("App"));
    blocked.no_remove = Some(1);
    blocked.estimated_size = EstimatedSize::Text("+x".into());
    let blocked = record_from_registry("HKCU", "32", "{Y}", &blocked, true, &env).unwrap();
    assert!(blocked.uninstall_command.is_none());
    assert_eq!(blocked.size_bytes, 0);
}

#[test]
fn enumerate_keeps_one_record_per_key_and_sorts_entries() {
    let env = Environment::empty();
    let key = |hive: &str, key: &str, name: &str| RegistryKey {
        hive: hive.into(),
        view: "64".into(),
        key_name: key.into(),
        values: registry(Some(name)),
        executable_accepted: true,
    };
    let snapshot = enumerate(vec![key("HKLM", "{B}", "beta"), key("HKLM", "{A}", "Alpha"), key("HKLM", "{b}", "Beta 2")], &env);
    assert_eq!(snapshot.len(), 2);
    let entries = snapshot.entries();
    assert_eq!(entries[0].name, "Alpha");
    assert_eq!(entries[1].name, "Beta 2");
    assert!(entries[0].uninstallable);
}

#[test]
fn list_maps_states_marks_damaged_and_sorts_before_limiting() {
    let committed = record_view("c".into(), "c.txt".into(), "r".into(), "p".into(), 30, 1, QuarantineRecordState::Committed, true);
    let retained = record_view("r".into(), "r.txt".into(), "r".into(), "p".into(), 20, 1, QuarantineRecordState::SourceRetained, false);
    let uncertain = record_view("u".into(), "u.txt".into(), "r".into(), "p".into(), 10, 1, QuarantineRecordState::RecoveryRequired, true);
    assert!(committed.exportable);
    assert_eq!(retained.state, QuarantineRecordState::Damaged);
    assert!(retained.source_retained);
    assert!(!retained.exportable);
    assert!(!uncertain.exportable);
    let listed = list_records(vec![Some(retained.clone()), None, Some(uncertain.clone()), Some(committed.clone())], 10);
    assert_eq!(listed.corrupt_records, 1);
    assert_eq!(listed.records, vec![committed.clone(), retained, uncertain]);
    let limited = list_records(vec![None, Some(committed.clone())], 1);
    assert_eq!(limited.records, vec![committed]);
    assert_eq!(limited.corrupt_records, 1);
}

fn file(path: &str, size: u64) -> FileSnapshot {
    FileSnapshot {
        path: path.to_string(),
        canonical_path: path.to_string(),
        size,
        modified_unix_nanos: 0,
        identity: FileIdentity { volume: 1, index: size as u128 },
    }
}

fn listing(root: &str, files: Vec<FileSnapshot>, inside: bool) -> DirectoryListing {
    DirectoryListing {
        root: root.to_string(),
        canonical_root: root.to_string(),
        canonical_root_components: if inside { parts("C:/base/cache") } else { parts("C:/base") },
        canonical_base_components: parts("C:/base"),
        files,
    }
}

fn rule(id: &str, risk: RiskLevel, guard: Option<ProcessGuard>) -> Rule {
    Rule {
        id: id.into(),
        category: "test",
        name: id.into(),
        base: RootBase::Local,
        relative: "cache".into(),
        risk,
        matcher: FileMatcher::AllFilesRecursive,
        minimum_age_secs: None,
        process_guard: guard,
    }
}

#[test]
fn scan_omits_empty_rules_and_reports_the_snapshot_file_count() {
    let found = vec![
        (rule("empty", RiskLevel::Low, None), Some(listing("C:/base/cache", Vec::new(), true))),
        (rule("full", RiskLevel::Low, None), Some(listing("C:/base/cache", vec![file("a", 3), file("b", 4)], true))),
        (rule("outside", RiskLevel::Low, None), Some(listing("C:/base", vec![file("c", 1)], false))),
        (rule("missing", RiskLevel::Low, None), None),
        (rule("temp", RiskLevel::Low, None), Some(listing("C:/base/cache", vec![file("t", 1)], true))),
        (rule("wechat-user-x", RiskLevel::High, Some(ProcessGuard::WeChat)), Some(listing("C:/base/cache", vec![file("u", 1)], true))),
    ];
    let snapshots = scan(found, Some(&Vec::new()));
    assert_eq!(snapshots.len(), 3);
    assert_eq!(snapshots[0].item.id, "full");
    assert_eq!(snapshots[0].item.file_count, 2);
    assert_eq!(snapshots[0].item.size_bytes, 7);
    assert_eq!(snapshots[0].item.delete_mode, DeleteMode::Permanent);
    assert_eq!(snapshots[1].item.delete_mode, DeleteMode::Quarantine);
    assert!(snapshots[2].item.blocked_reason.is_some());
    assert_eq!(snapshots[2].item.delete_mode, DeleteMode::Quarantine);
}

#[test]
fn scan_targets_skip_guarded_rules_while_their_application_runs() {
    let roots = RuleRoots {
        local: Some(RootDirectory { path: "C:/L".into(), tree: DirectoryTree::empty() }),
        roaming: None,
        home: None,
        wechat_documents: None,
        xwechat_data: None,
    };
    let all = rules(&roots);
    let running = vec!["WeChat.exe".to_string()];
    let targets = scan_targets(all, &roots, Some(&running));
    assert!(!targets.is_empty());
    assert!(targets.iter().all(|t| t.rule.process_guard != Some(ProcessGuard::WeChat)));
    assert!(targets.iter().all(|t| t.root.starts_with("C:/L/")));
}

fn snapshot(id: &str, root: &str, files: Vec<FileSnapshot>) -> CleanupSnapshot {
    CleanupSnapshot {
        item: CleanupItem {
            id: id.into(),
            category: "test".into(),
            name: id.into(),
            path: root.into(),
            description: String::new(),
            blocked_reason: None,
            size_bytes: 0,
            file_count: files.len(),
            risk: RiskLevel::Low,
            delete_mode: DeleteMode::Permanent,
        },
        root: root.into(),
        canonical_root: root.into(),
        files,
    }
}

fn observed(root: &str) -> RootObservation {
    RootObservation {
        metadata: Ok(EntryFacts { is_dir: true, is_link_or_reparse: false, is_offline_or_recall: false }),
        chain: Ok(()),
        canonical_base_components: Ok(parts("C:/L")),
        canonical_root: Ok(root.to_string()),
        canonical_root_components: parts(root),
    }
}

#[test]
fn unknown_rule_id_is_rejected_without_deleting() {
    let roots = RuleRoots { local: Some(RootDirectory { path: "C:/L".into(), tree: DirectoryTree::empty() }), roaming: None, home: None, wechat_documents: None, xwechat_data: None };
    let all = vec![rule("test", RiskLevel::Low, None)];
    let unknown = snapshot("nope", "C:/L/cache", vec![file("C:/L/cache/a", 1)]);
    let outcome = prepare_execution(&unknown, &all, &roots, &observed("C:/L/cache"), None).unwrap_err();
    assert_eq!(outcome.reclaimed_bytes, 0);
    assert_eq!(outcome.failures.len(), 1);
    assert_eq!(outcome.failures[0].error, "未知清理条目");
    let known = snapshot("test", "C:/L/cache", vec![file("C:/L/cache/a", 1)]);
    let (index, root) = prepare_execution(&known, &all, &roots, &observed("C:/L/cache"), None).expect("valid");
    assert_eq!(index, 0);
    assert_eq!(root, "C:/L/cache");
    let moved = prepare_execution(&known, &all, &roots, &observed("C:/L/other"), None).unwrap_err();
    assert_eq!(moved.failures[0].error, "清理目录在扫描后发生变化");
    let guarded = vec![rule("test", RiskLevel::Low, Some(ProcessGuard::Discord))];
    let blocked = prepare_execution(&known, &guarded, &roots, &observed("C:/L/cache"), None).unwrap_err();
    assert!(blocked.failures[0].error.contains("Discord"));
}

#[test]
fn cleanup_progress_reaches_total_with_monotonic_reclaimed_bytes() {
    let files = (0..250).map(|i| file(&format!("f{i}"), 1)).collect::<Vec<_>>();
    let snap = snapshot("test", "C:/L/cache", files);
    let results = (0..250).map(|i| if i % 50 == 0 { Err("busy".to_string()) } else { Ok(2) }).collect::<Vec<_>>();
    let (outcome, reports) = execute_with_progress(&snap, results.clone());
    assert_eq!(outcome.failures.len(), 5);
    assert_eq!(outcome.reclaimed_bytes, 490);
    assert_eq!(reports.last().unwrap().completed, 250);
    assert_eq!(reports.last().unwrap().reclaimed_bytes, 490);
    assert!(reports.windows(2).all(|w| w[0].reclaimed_bytes <= w[1].reclaimed_bytes && w[0].completed < w[1].completed));
    assert_eq!(reports.len(), 84);
    assert_eq!(execute(&snap, results).reclaimed_bytes, 490);
}
