use qingpan::scanner::FileIdentity;
use qingpan::storage::{
    assemble_duplicate_groups, choose_keep_candidate, classify_directory, classify_large_file,
    classify_storage_category, directory_color, file_type_of, format_system_time,
    found_large_file, is_disposable_location, retain_largest, sort_large_files, stable_id,
    validate_duplicate_options, validate_limits, DuplicateCandidate, DuplicateScanOptions,
    FileCandidate, LargeFileEntry, OpenedFileFacts, Sensitivity, VerifiedGroup,
};

fn parts(path: &str) -> Vec<String> {
    path.split('/').map(|p| p.to_string()).collect()
}

fn candidate(path: &str, size: u64, modified: Option<u64>) -> FileCandidate {
    FileCandidate {
        path: path.to_string(),
        size_bytes: size,
        modified_secs: modified,
        modified_unix_nanos: modified.map(|secs| secs as i128 * 1_000_000_000),
        identity: None,
        components: parts(path),
    }
}

fn entry(path: &str, size: u64) -> LargeFileEntry {
    LargeFileEntry {
        id: path.to_string(),
        name: path.to_string(),
        path: path.to_string(),
        size_bytes: size,
        allocated_bytes: size,
        modified_at: String::new(),
        file_type: String::new(),
        sensitivity: Sensitivity::Normal,
        note: None,
    }
}

fn duplicate(path: &str, size: u64, modified: Option<u64>) -> DuplicateCandidate {
    DuplicateCandidate {
        candidate: candidate(path, size, modified),
        name: path.rsplit('/').next().unwrap().to_string(),
        display_path: path.to_string(),
    }
}

#[test]
fn invalid_limits_are_rejected() {
    let error = validate_limits(0, 10).expect_err("zero max files must fail");
    assert!(error.contains("maxFiles"));
    assert!(validate_limits(1, 0).expect_err("zero results").contains("maxResults"));
    assert!(validate_limits(2_000_000, 50_000).is_ok());
    assert!(validate_limits(2_000_001, 1).is_err());
    assert!(validate_limits(1, 50_001).is_err());
}

#[test]
fn duplicate_options_reject_empty_files_and_tiny_groups() {
    let defaults = DuplicateScanOptions::default();
    assert!(validate_duplicate_options(&defaults).is_ok());
    let mut empty_files = DuplicateScanOptions::default();
    empty_files.min_size_bytes = 0;
    assert!(validate_duplicate_options(&empty_files).expect_err("zero size").contains("minSizeBytes"));
    let mut one_member = DuplicateScanOptions::default();
    one_member.max_members = 1;
    assert!(validate_duplicate_options(&one_member).expect_err("one member").contains("maxMembers"));
    let mut no_sample = DuplicateScanOptions::default();
    no_sample.sample_bytes = 0;
    assert!(validate_duplicate_options(&no_sample).expect_err("no sample").contains("sampleBytes"));
}

#[test]
fn system_paths_and_virtual_disks_are_protected() {
    let (kind, sensitivity, note) = classify_large_file(&parts("C:/Windows/System32/big.dll"));
    assert_eq!(kind, "系统或程序文件");
    assert_eq!(sensitivity, Sensitivity::Protected);
    assert!(note.is_some());
    let (kind, sensitivity, _) = classify_large_file(&parts("D:/vm/disk.VHDX"));
    assert_eq!(kind, "虚拟磁盘");
    assert_eq!(sensitivity, Sensitivity::Protected);
    let (_, sensitivity, _) = classify_large_file(&parts("C:/pagefile.sys"));
    assert_eq!(sensitivity, Sensitivity::Protected);
    let (_, sensitivity, note) = classify_large_file(&parts("C:/Users/u/OneDrive/movie.mp4"));
    assert_eq!(sensitivity, Sensitivity::Protected);
    assert!(note.unwrap().contains("云同步"));
}

#[test]
fn archives_and_backups_need_attention_and_media_is_normal() {
    let (kind, sensitivity, _) = classify_large_file(&parts("D:/downloads/setup.ISO"));
    assert_eq!(kind, "磁盘镜像");
    assert_eq!(sensitivity, Sensitivity::Attention);
    let (_, sensitivity, _) = classify_large_file(&parts("D:/data/my-backup.dat"));
    assert_eq!(sensitivity, Sensitivity::Attention);
    let (kind, sensitivity, note) = classify_large_file(&parts("D:/video/holiday.mkv"));
    assert_eq!(kind, "视频");
    assert_eq!(sensitivity, Sensitivity::Normal);
    assert!(note.is_none());
    let (kind, _, _) = classify_large_file(&parts("D:/data/README"));
    assert_eq!(kind, "无扩展名文件");
}

#[test]
fn file_types_follow_the_extension() {
    assert_eq!(file_type_of(&"zip".chars().collect()), "压缩包");
    assert_eq!(file_type_of(&"pdf".chars().collect()), "文档");
    assert_eq!(file_type_of(&"xyz".chars().collect()), "其他文件");
    assert_eq!(file_type_of(&Vec::new()), "无扩展名文件");
}

#[test]
fn timestamps_are_formatted_as_utc_iso_text() {
    assert_eq!(format_system_time(None), "未知");
    assert_eq!(format_system_time(Some(0)), "1970-01-01T00:00:00Z");
    assert_eq!(format_system_time(Some(951_782_400)), "2000-02-29T00:00:00Z");
    assert_eq!(format_system_time(Some(1_700_000_000)), "2023-11-14T22:13:20Z");
}

#[test]
fn stable_ids_are_prefixed_hex_of_the_path() {
    assert_eq!(stable_id("large", "ab"), "large-fb8e20fc2e4c3f248c60");
    assert_eq!(stable_id("large", "AB"), stable_id("large", "ab"));
    assert_ne!(stable_id("large", "a"), stable_id("large", "b"));
    assert_eq!(stable_id("duplicate-member", "x").len(), "duplicate-member-".len() + 20);
}

#[test]
fn large_files_are_sorted_largest_first_then_by_path() {
    let sorted = sort_large_files(vec![entry("b", 10), entry("a", 10), entry("c", 30), entry("B", 10)]);
    let paths = sorted.iter().map(|e| e.path.as_str()).collect::<Vec<_>>();
    assert_eq!(paths[0], "c");
    assert_eq!(paths[1], "a");
    assert_eq!(sorted.len(), 4);
    let kept = retain_largest(vec![entry("x", 1), entry("y", 3), entry("z", 2)], 2);
    assert_eq!(kept.iter().map(|e| e.size_bytes).collect::<Vec<_>>(), vec![3, 2]);
}

#[test]
fn protected_large_file_never_receives_an_executable_snapshot() {
    let identity = FileIdentity { volume: 1, index: 7 };
    let facts = OpenedFileFacts { identity_and_links: Some((identity, 1)), default_stream_only: Some(true) };
    let root = "C:/".to_string();
    let (entry, snapshot) = found_large_file(
        &candidate("C:/Windows/big.bin", 10, Some(0)),
        facts,
        "big.bin".into(),
        "C:/Windows/big.bin".into(),
        &root,
    );
    assert_eq!(entry.sensitivity, Sensitivity::Protected);
    assert!(snapshot.is_none());

    let (entry, snapshot) = found_large_file(
        &candidate("D:/media/big.mkv", 10, Some(0)),
        facts,
        "big.mkv".into(),
        "D:/media/big.mkv".into(),
        &root,
    );
    assert_eq!(entry.sensitivity, Sensitivity::Normal);
    assert_eq!(entry.modified_at, "1970-01-01T00:00:00Z");
    let snapshot = snapshot.expect("an ordinary file with one link is pinned");
    assert_eq!(snapshot.candidate.identity, Some(identity));
    assert_eq!(snapshot.entry().id, entry.id);
}

#[test]
fn hard_linked_or_streamed_large_files_are_protected() {
    let identity = FileIdentity { volume: 1, index: 7 };
    let root = "D:/".to_string();
    let linked = OpenedFileFacts { identity_and_links: Some((identity, 2)), default_stream_only: Some(true) };
    let (entry, snapshot) = found_large_file(&candidate("D:/a.mkv", 1, None), linked, "a.mkv".into(), "D:/a.mkv".into(), &root);
    assert_eq!(entry.sensitivity, Sensitivity::Protected);
    assert!(entry.note.unwrap().contains("硬链接"));
    assert!(snapshot.is_none());
    let streamed = OpenedFileFacts { identity_and_links: Some((identity, 1)), default_stream_only: Some(false) };
    let (entry, _) = found_large_file(&candidate("D:/a.mkv", 1, None), streamed, "a.mkv".into(), "D:/a.mkv".into(), &root);
    assert!(entry.note.unwrap().contains("数据流"));
    let unknown = OpenedFileFacts { identity_and_links: None, default_stream_only: None };
    let (entry, _) = found_large_file(&candidate("D:/a.mkv", 1, None), unknown, "a.mkv".into(), "D:/a.mkv".into(), &root);
    assert_eq!(entry.sensitivity, Sensitivity::Protected);
    assert_eq!(entry.modified_at, "未知");
}

#[test]
fn the_oldest_copy_outside_disposable_places_is_kept() {
    let copies = vec![
        duplicate("C:/Users/u/Downloads/report.pdf", 5, Some(10)),
        duplicate("C:/Users/u/Documents/report.pdf", 5, Some(20)),
        duplicate("C:/Users/u/Documents/report (1).pdf", 5, Some(30)),
    ];
    assert_eq!(choose_keep_candidate(&copies), 1);
    let by_age = vec![
        duplicate("D:/b/x.bin", 5, Some(30)),
        duplicate("D:/a/x.bin", 5, Some(10)),
    ];
    assert_eq!(choose_keep_candidate(&by_age), 1);
}

#[test]
fn duplicate_groups_are_bounded_and_mark_one_copy() {
    let hash_a = vec![0xaa_u8; 32];
    let hash_b = vec![0x01_u8; 32];
    let verified = vec![
        VerifiedGroup { hash: hash_a, files: vec![duplicate("D:/b.bin", 10, Some(2)), duplicate("D:/a.bin", 10, Some(1))] },
        VerifiedGroup {
            hash: hash_b,
            files: vec![duplicate("D:/x.bin", 100, Some(1)), duplicate("D:/y.bin", 100, Some(2)), duplicate("D:/z.bin", 100, Some(3))],
        },
    ];
    let assembled = assemble_duplicate_groups(verified, 10, 100);
    assert_eq!(assembled.groups.len(), 2);
    assert_eq!(assembled.groups[0].size_bytes, 100);
    assert_eq!(assembled.groups[0].reclaimable_bytes, 200);
    assert_eq!(assembled.groups[1].reclaimable_bytes, 10);
    assert_eq!(assembled.reclaimable_bytes, 210);
    assert!(!assembled.limit_reached);
    for group in &assembled.groups {
        assert_eq!(group.members.iter().filter(|m| m.suggested_keep).count(), 1);
        assert!(group.hash.starts_with("SHA-256 "));
    }
    assert_eq!(assembled.groups[1].members[0].path, "D:/a.bin");
    assert!(assembled.groups[1].members[0].suggested_keep);
    assert_eq!(assembled.groups[1].id, "duplicate-aaaaaaaaaaaaaaaa-10");

    let limited = assemble_duplicate_groups(
        vec![VerifiedGroup { hash: vec![7; 32], files: vec![duplicate("D:/1", 4, None), duplicate("D:/2", 4, None), duplicate("D:/3", 4, None)] }],
        10,
        2,
    );
    assert!(limited.limit_reached);
    assert_eq!(limited.groups[0].members.len(), 2);
    assert_eq!(limited.groups[0].total_members, 3);
}

#[test]
fn downloads_and_temp_are_disposable_locations() {
    assert!(is_disposable_location(&parts("C:/Users/u/Downloads/a.zip")));
    assert!(!is_disposable_location(&parts("C:/Users/u/Documents/a.zip")));
}

#[test]
fn directory_classification_is_by_name() {
    assert_eq!(classify_directory("Windows"), ("系统", "#f0a02f"));
    assert_eq!(classify_directory("Program Files (x86)"), ("应用", "#10a37f"));
    let (kind, color) = classify_directory("Projects");
    assert_eq!(kind, "文件夹");
    assert_eq!(color, directory_color("projects"));
    assert_eq!(directory_color(""), "#265dff");
    assert_eq!(directory_color("a"), "#10a37f");
    let category = classify_storage_category(&parts("C:/Users/u/Videos/a.mp4"));
    assert!(!category.id.is_empty());
}
