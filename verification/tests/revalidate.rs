use qingpan::cleanup_plan::quarantine_executor::{quarantine_refusal, quarantine_with_progress};
use qingpan::models::{CleanupItem, DeleteMode, RiskLevel};
use qingpan::quarantine::types::StageResult;
use qingpan::scanner::collect::{EntryFacts, RootObservation};
use qingpan::scanner::revalidate::{
    check_after_open, check_before_open, check_opened, execution_file, removal_result, FileAfterOpen, FileBeforeOpen,
    FileFacts, HandleFacts,
};
use qingpan::scanner::rules::{rules, RuleRoots};
use qingpan::scanner::{CleanupSnapshot, FileIdentity, FileSnapshot};

const IDENTITY: FileIdentity = FileIdentity { volume: 3, index: 77 };

fn parts(path: &str) -> Vec<String> {
    path.split('/').filter(|p| !p.is_empty()).map(|p| p.to_string()).collect()
}

fn file() -> FileSnapshot {
    FileSnapshot {
        path: "C:/L/Temp/sub/a.tmp".to_string(),
        canonical_path: "C:/L/Temp/sub/a.tmp".to_string(),
        size: 10,
        modified_unix_nanos: 500,
        identity: IDENTITY,
    }
}

fn facts() -> FileFacts {
    FileFacts { is_file: true, is_link_or_reparse: false, is_offline_or_recall: false, size: 10, modified_unix_nanos: Ok(500) }
}

fn directory() -> Result<EntryFacts, String> {
    Ok(EntryFacts { is_dir: true, is_link_or_reparse: false, is_offline_or_recall: false })
}

fn before() -> FileBeforeOpen {
    FileBeforeOpen {
        path_components: parts("C:/L/Temp/sub/a.tmp"),
        root_components: parts("C:/L/Temp"),
        parents: vec![directory()],
        metadata: Ok(facts()),
        canonical: Ok(("C:/L/Temp/sub/a.tmp".to_string(), parts("C:/L/Temp/sub/a.tmp"))),
        canonical_root_components: parts("C:/L/Temp"),
        only_default_stream: Some(true),
    }
}

fn handle() -> Result<HandleFacts, String> {
    Ok(HandleFacts { metadata: Ok(facts()), identity: Some(IDENTITY), link_count: Some(1), only_default_stream: Some(true) })
}

fn after() -> FileAfterOpen {
    FileAfterOpen {
        metadata: Ok(facts()),
        parents: vec![directory()],
        canonical: Ok("C:/L/Temp/sub/a.tmp".to_string()),
        only_default_stream: Some(true),
    }
}

#[test]
fn an_unchanged_file_passes_every_check() {
    let f = file();
    assert_eq!(check_before_open(&f, &before()), Ok(()));
    assert_eq!(check_opened(&f, &handle()), Ok(()));
    assert_eq!(check_after_open(&f, &"C:/L/Temp/sub/a.tmp".to_string(), &after()), Ok(()));
    assert_eq!(removal_result(&f, Ok(())), Ok(10));
    assert_eq!(removal_result(&f, Err("busy".to_string())), Err("删除失败: busy".to_string()));
}

#[test]
fn changes_before_opening_are_refused_in_order() {
    let f = file();
    let mut seen = before();
    seen.path_components = parts("C:/L/Temp");
    assert_eq!(check_before_open(&f, &seen).unwrap_err(), "快照文件不在规则目录内");

    let mut seen = before();
    seen.parents = vec![Ok(EntryFacts { is_dir: true, is_link_or_reparse: true, is_offline_or_recall: false })];
    assert_eq!(check_before_open(&f, &seen).unwrap_err(), "文件父目录已变为链接或非目录对象");

    let mut seen = before();
    seen.parents = vec![Err("gone".to_string())];
    assert_eq!(check_before_open(&f, &seen).unwrap_err(), "文件父目录已失效或不可访问: gone");

    let mut seen = before();
    seen.metadata = Ok(FileFacts { size: 12, ..facts() });
    assert_eq!(check_before_open(&f, &seen).unwrap_err(), "文件大小已变化（扫描时 10 字节，当前 12 字节）");

    let mut seen = before();
    seen.metadata = Ok(FileFacts { modified_unix_nanos: Ok(501), ..facts() });
    assert_eq!(check_before_open(&f, &seen).unwrap_err(), "文件修改时间已变化");

    let mut seen = before();
    seen.canonical = Ok(("C:/L/Other/a.tmp".to_string(), parts("C:/L/Other/a.tmp")));
    assert_eq!(check_before_open(&f, &seen).unwrap_err(), "文件当前不在规则目录内");

    let mut seen = before();
    seen.canonical = Ok(("C:/L/Temp/b.tmp".to_string(), parts("C:/L/Temp/b.tmp")));
    assert_eq!(check_before_open(&f, &seen).unwrap_err(), "文件解析路径在扫描后发生变化");

    let mut seen = before();
    seen.only_default_stream = Some(false);
    assert_eq!(check_before_open(&f, &seen).unwrap_err(), "文件包含额外数据流，已安全保留");
}

#[test]
fn identity_and_links_are_checked_through_the_handle() {
    let f = file();
    let other = Ok(HandleFacts { identity: Some(FileIdentity { volume: 3, index: 78 }), ..handle().unwrap() });
    assert_eq!(check_opened(&f, &other).unwrap_err(), "文件身份与扫描快照不一致，已安全保留");
    let linked = Ok(HandleFacts { link_count: Some(2), ..handle().unwrap() });
    assert_eq!(check_opened(&f, &linked).unwrap_err(), "文件硬链接状态不允许安全删除，已安全保留");
    let unknown = Ok(HandleFacts { link_count: None, ..handle().unwrap() });
    assert_eq!(check_opened(&f, &unknown).unwrap_err(), "无法确认文件硬链接状态，已安全保留");
    assert_eq!(check_opened(&f, &Err("denied".to_string())).unwrap_err(), "无法打开文件进行身份复检: denied");
}

#[test]
fn changes_after_the_handle_closes_are_refused() {
    let f = file();
    let mut seen = after();
    seen.canonical = Ok("C:/L/Temp/moved.tmp".to_string());
    assert_eq!(
        check_after_open(&f, &"C:/L/Temp/sub/a.tmp".to_string(), &seen).unwrap_err(),
        "文件路径在身份复检期间发生变化，已安全保留"
    );
    let mut seen = after();
    seen.metadata = Err("vanished".to_string());
    assert_eq!(check_after_open(&f, &"C:/L/Temp/sub/a.tmp".to_string(), &seen).unwrap_err(), "文件在验证期间失效: vanished");
}

fn temp_snapshot(id: &str) -> CleanupSnapshot {
    CleanupSnapshot {
        item: CleanupItem {
            id: id.into(),
            category: "系统".into(),
            name: id.into(),
            path: "C:/L/Temp".into(),
            description: String::new(),
            blocked_reason: None,
            size_bytes: 30,
            file_count: 3,
            risk: RiskLevel::Low,
            delete_mode: DeleteMode::Quarantine,
        },
        root: "C:/L/Temp".into(),
        canonical_root: "C:/L/Temp".into(),
        files: vec![
            FileSnapshot { path: "C:/L/Temp/a".into(), ..file() },
            FileSnapshot { path: "C:/L/Temp/b".into(), ..file() },
            FileSnapshot { path: "C:/L/Temp/c".into(), ..file() },
        ],
    }
}

#[test]
fn an_execution_file_must_belong_to_its_snapshot() {
    let roots = RuleRoots { local: None, roaming: None, home: None, wechat_documents: None, xwechat_data: None };
    let all = rules(&roots);
    let observed = RootObservation {
        metadata: directory(),
        chain: Ok(()),
        canonical_base_components: Ok(parts("C:/L")),
        canonical_root: Ok("C:/L/Temp".into()),
        canonical_root_components: parts("C:/L/Temp"),
    };
    let snapshot = temp_snapshot("temp");
    let missing = execution_file(&snapshot, &"C:/L/Temp/z".to_string(), &all, &roots, &observed, None);
    assert_eq!(missing.unwrap_err(), "文件不属于清理计划快照");
    let unknown = execution_file(&temp_snapshot("no-such-rule"), &"C:/L/Temp/b".to_string(), &all, &roots, &observed, None);
    assert_eq!(unknown.unwrap_err(), "未知清理条目");
    let unlocated = execution_file(&snapshot, &"C:/L/Temp/b".to_string(), &all, &roots, &observed, None);
    assert_eq!(unlocated.unwrap_err(), "无法定位用户缓存目录");
}

fn staged(id: &str, size: u64, retained: bool, recovery: bool) -> Result<StageResult, String> {
    Ok(StageResult { record_id: id.into(), size_bytes: size, source_retained: retained, recovery_required: recovery, detail: None })
}

#[test]
fn quarantine_outcomes_fold_records_and_failures() {
    let snapshot = temp_snapshot("temp");
    assert!(quarantine_refusal(&snapshot).is_none());
    let refused = quarantine_refusal(&temp_snapshot("browser-cache")).unwrap();
    assert_eq!(refused.failures.len(), 1);
    assert_eq!(refused.failures[0].path, "C:/L/Temp");
    assert_eq!(refused.failures[0].error, "实验性隔离当前只允许 Windows 临时文件规则，其他规则已安全保留");

    let (outcome, reports) = quarantine_with_progress(
        &snapshot,
        vec![staged("r1", 10, false, false), Err("源文件大小或类型已变化".into()), staged("r3", 7, true, false)],
    );
    assert_eq!(outcome.reclaimed_bytes, 0);
    assert_eq!(outcome.staged_bytes, 17);
    assert_eq!(outcome.quarantine_record_ids, vec!["r1".to_string(), "r3".to_string()]);
    assert_eq!(outcome.failures.len(), 2);
    assert_eq!(outcome.failures[0].path, "C:/L/Temp/b");
    assert_eq!(outcome.failures[0].error, "源文件大小或类型已变化");
    assert_eq!(outcome.failures[1].path, "C:/L/Temp/c");
    assert_eq!(outcome.failures[1].error, "隔离副本已提交，但源文件已安全保留");
    assert_eq!(reports.len(), 3);
    assert_eq!(reports[2].completed, 3);
    assert_eq!(reports[2].failures, 2);
    assert_eq!(reports[1].failures, 1);
}
