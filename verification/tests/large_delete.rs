use qingpan::large_delete::{
    check_large_file_after_open, check_large_file_before_open, check_large_file_opened, check_scan_root,
    large_file_removal, LargeFileAfterOpen, LargeFileBeforeOpen, LargeFileFacts, LargeFileHandle,
};
use qingpan::scanner::collect::EntryFacts;
use qingpan::scanner::FileIdentity;
use qingpan::storage::{FileCandidate, LargeFileEntry, LargeFileSnapshot, Sensitivity};

const IDENTITY: FileIdentity = FileIdentity { volume: 9, index: 4 };

fn parts(path: &str) -> Vec<String> {
    path.split('/').filter(|p| !p.is_empty()).map(|p| p.to_string()).collect()
}

fn snapshot(sensitivity: Sensitivity) -> LargeFileSnapshot {
    LargeFileSnapshot {
        entry: LargeFileEntry {
            id: "large-1".into(),
            name: "movie.mkv".into(),
            path: "D:/media/movie.mkv".into(),
            size_bytes: 4096,
            allocated_bytes: 4096,
            modified_at: "2024-01-01 00:00".into(),
            file_type: "视频".into(),
            sensitivity,
            note: None,
        },
        canonical_root: "D:/media".into(),
        candidate: FileCandidate {
            path: "D:/media/sub/movie.mkv".into(),
            size_bytes: 4096,
            modified_secs: Some(7),
            modified_unix_nanos: Some(7_000_000_001),
            identity: Some(IDENTITY),
            components: parts("D:/media/sub/movie.mkv"),
        },
    }
}

fn facts() -> LargeFileFacts {
    LargeFileFacts { is_file: true, is_link_or_reparse: false, is_offline_or_recall: false, size: 4096, modified_unix_nanos: Some(7_000_000_001) }
}

fn directory() -> Result<EntryFacts, String> {
    Ok(EntryFacts { is_dir: true, is_link_or_reparse: false, is_offline_or_recall: false })
}

fn before() -> LargeFileBeforeOpen {
    LargeFileBeforeOpen {
        current_root: Ok("D:/media".into()),
        root_components: parts("D:/media"),
        path_components: parts("D:/media/sub/movie.mkv"),
        parents: vec![directory()],
        metadata: Ok(facts()),
        canonical: Ok(("D:/media/sub/movie.mkv".into(), parts("D:/Media/sub/movie.mkv"))),
        only_default_stream: Some(true),
    }
}

#[test]
fn unchanged_large_file_snapshot_is_deleted_after_identity_recheck() {
    let s = snapshot(Sensitivity::Normal);
    assert_eq!(check_large_file_before_open(&s, &before()), Ok(()));
    let handle = Ok(LargeFileHandle { metadata: Ok(facts()), identity: Some(IDENTITY), link_count: Some(1) });
    assert_eq!(check_large_file_opened(&s, &handle), Ok(()));
    let after = LargeFileAfterOpen { metadata: Ok(facts()), parents: vec![directory()], canonical: Ok("D:/media/sub/movie.mkv".into()) };
    assert_eq!(
        check_large_file_after_open(&s, &parts("D:/media/sub/movie.mkv"), &parts("D:/media"), &"D:/media/sub/movie.mkv".to_string(), &after),
        Ok(())
    );
    assert_eq!(large_file_removal(&s, Ok(())), Ok(4096));
    assert_eq!(large_file_removal(&s, Err("busy".into())), Err("永久删除失败: busy".to_string()));
}

#[test]
fn protected_files_and_moved_roots_are_refused_first() {
    let mut seen = before();
    seen.current_root = Err("扫描路径必须是绝对路径".into());
    assert_eq!(check_large_file_before_open(&snapshot(Sensitivity::Protected), &seen).unwrap_err(), "受保护文件不允许通过大文件清理删除");
    assert_eq!(check_large_file_before_open(&snapshot(Sensitivity::Normal), &seen).unwrap_err(), "扫描路径必须是绝对路径");
    let mut seen = before();
    seen.current_root = Ok("D:/elsewhere".into());
    assert_eq!(check_large_file_before_open(&snapshot(Sensitivity::Normal), &seen).unwrap_err(), "扫描根目录在分析后发生变化");
}

#[test]
fn large_file_changes_are_refused() {
    let s = snapshot(Sensitivity::Normal);
    let mut seen = before();
    seen.metadata = Ok(LargeFileFacts { modified_unix_nanos: Some(7_000_000_002), ..facts() });
    assert_eq!(check_large_file_before_open(&s, &seen).unwrap_err(), "文件大小或修改时间与最近一次扫描不一致，已安全保留");
    let mut seen = before();
    seen.path_components = parts("D:/other/movie.mkv");
    assert_eq!(check_large_file_before_open(&s, &seen).unwrap_err(), "文件父目录不在最近一次扫描范围内");
    let mut seen = before();
    seen.canonical = Ok(("D:/media".into(), parts("D:/media")));
    assert_eq!(check_large_file_before_open(&s, &seen).unwrap_err(), "文件已移出最近一次扫描的本地磁盘范围");
    let mut seen = before();
    seen.only_default_stream = Some(false);
    assert_eq!(check_large_file_before_open(&s, &seen).unwrap_err(), "文件新增了额外数据流，已安全保留");
    let swapped = Ok(LargeFileHandle { metadata: Ok(facts()), identity: Some(FileIdentity { volume: 9, index: 5 }), link_count: Some(1) });
    assert_eq!(check_large_file_opened(&s, &swapped).unwrap_err(), "文件身份与最近一次扫描不一致，已安全保留");
    let after = LargeFileAfterOpen { metadata: Ok(facts()), parents: vec![directory()], canonical: Ok("D:/media/x.mkv".into()) };
    assert_eq!(
        check_large_file_after_open(&s, &parts("D:/media/sub/movie.mkv"), &parts("D:/media"), &"D:/media/sub/movie.mkv".to_string(), &after)
            .unwrap_err(),
        "文件路径在复检期间发生变化，已安全保留"
    );
}

#[test]
fn scan_roots_must_be_plain_absolute_directories() {
    let plain = Ok(EntryFacts { is_dir: true, is_link_or_reparse: false, is_offline_or_recall: false });
    let resolved = Ok("/data".to_string());
    assert_eq!(check_scan_root(&"/data".into(), true, &plain, &resolved), Ok("/data".to_string()));
    assert_eq!(check_scan_root(&String::new(), true, &plain, &resolved).unwrap_err(), "扫描路径不能为空");
    assert_eq!(check_scan_root(&"data".into(), false, &plain, &resolved).unwrap_err(), "扫描路径必须是绝对路径");
    assert_eq!(
        check_scan_root(&"/data".into(), true, &Err("denied".into()), &resolved).unwrap_err(),
        "无法读取扫描路径 /data: denied"
    );
    let link = Ok(EntryFacts { is_dir: true, is_link_or_reparse: true, is_offline_or_recall: false });
    assert_eq!(
        check_scan_root(&"/data".into(), true, &link, &resolved).unwrap_err(),
        "扫描路径必须是普通本地目录，不能是链接、联接点或重解析点"
    );
    let offline = Ok(EntryFacts { is_dir: true, is_link_or_reparse: false, is_offline_or_recall: true });
    assert_eq!(
        check_scan_root(&"/data".into(), true, &offline, &resolved).unwrap_err(),
        "扫描路径是脱机或按需下载目录，为避免触发下载已拒绝扫描"
    );
}
