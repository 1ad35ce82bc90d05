use qingpan::scanner::FileIdentity;
use qingpan::storage::CategoryKind;
use qingpan::usage::{
    add_directory, add_file, category_results, remove_hard_link, repeated_links, sort_directories, Usage,
    UsageTally,
};

fn usage(size_bytes: u64, allocated_bytes: u64, file_count: u64) -> Usage {
    Usage { size_bytes, allocated_bytes, file_count }
}

#[test]
fn tally_counts_files_in_totals_kinds_and_child_directories() {
    let mut tally = UsageTally::new();
    add_directory(&mut tally, "D:\\data\\photos".to_string(), 10);
    add_directory(&mut tally, "D:\\data\\work".to_string(), 10);
    let photos = "D:\\data\\photos".to_string();
    let work = "D:\\data\\work".to_string();
    add_file(&mut tally, CategoryKind::Media, Some(&photos), 100, 4096);
    add_file(&mut tally, CategoryKind::Documents, Some(&work), 30, 4096);
    add_file(&mut tally, CategoryKind::Media, Some(&photos), 50, 4096);
    add_file(&mut tally, CategoryKind::Other, None, 7, 0);

    assert_eq!(tally.totals, usage(187, 12288, 4));
    assert_eq!(tally.categories.len(), 3);
    assert_eq!(tally.categories[0], (CategoryKind::Media, usage(150, 8192, 2)));
    assert_eq!(tally.categories[1], (CategoryKind::Documents, usage(30, 4096, 1)));
    assert_eq!(tally.categories[2], (CategoryKind::Other, usage(7, 0, 1)));
    assert_eq!(tally.directories[0].1, usage(150, 8192, 2));
    assert_eq!(tally.directories[1].1, usage(30, 4096, 1));
    assert!(!tally.directory_limit_hit);
}

#[test]
fn directory_registration_is_idempotent_and_limited() {
    let mut tally = UsageTally::new();
    add_directory(&mut tally, "a".to_string(), 2);
    add_directory(&mut tally, "a".to_string(), 2);
    assert_eq!(tally.directories.len(), 1);
    assert!(!tally.directory_limit_hit);
    add_directory(&mut tally, "b".to_string(), 2);
    add_directory(&mut tally, "c".to_string(), 2);
    assert_eq!(tally.directories.len(), 2);
    assert!(tally.directory_limit_hit);
}

#[test]
fn removing_a_hard_link_undoes_its_count_and_saturates_at_zero() {
    let mut tally = UsageTally::new();
    add_directory(&mut tally, "root\\a".to_string(), 10);
    let a = "root\\a".to_string();
    add_file(&mut tally, CategoryKind::Apps, Some(&a), 10, 4096);
    add_file(&mut tally, CategoryKind::Apps, Some(&a), 10, 4096);
    remove_hard_link(&mut tally, CategoryKind::Apps, Some(&a), 10, 4096);
    assert_eq!(tally.totals, usage(10, 4096, 1));
    assert_eq!(tally.categories[0], (CategoryKind::Apps, usage(10, 4096, 1)));
    assert_eq!(tally.directories[0].1, usage(10, 4096, 1));
    remove_hard_link(&mut tally, CategoryKind::Apps, Some(&a), 50, 9000);
    assert_eq!(tally.totals, usage(0, 0, 0));
}

#[test]
fn totals_saturate_instead_of_overflowing() {
    let mut tally = UsageTally::new();
    add_file(&mut tally, CategoryKind::Other, None, u64::MAX, 1);
    add_file(&mut tally, CategoryKind::Other, None, 5, 1);
    assert_eq!(tally.totals, usage(u64::MAX, 2, 2));
}

#[test]
fn repeated_links_marks_only_later_copies_of_an_identity() {
    let first = FileIdentity { volume: 1, index: 7 };
    let other = FileIdentity { volume: 2, index: 7 };
    let flags = repeated_links(&vec![Some(first), None, Some(other), Some(first), None, Some(first)]);
    assert_eq!(flags, vec![false, false, false, true, false, true]);
}

#[test]
fn category_results_follow_the_display_rank() {
    let categories = vec![
        (CategoryKind::Other, usage(1, 2, 3)),
        (CategoryKind::Documents, usage(4, 5, 6)),
        (CategoryKind::Apps, usage(7, 8, 9)),
        (CategoryKind::Media, usage(10, 11, 12)),
    ];
    let results = category_results(categories);
    let ids: Vec<String> = results.iter().map(|c| c.id.clone()).collect();
    assert_eq!(ids, vec!["apps", "media", "docs", "other"]);
    assert_eq!(results[0].size_bytes, 7);
    assert_eq!(results[0].allocated_bytes, 8);
    assert_eq!(results[0].file_count, 9);
    assert_eq!(results[3].label, "其他");
}

#[test]
fn directories_are_ordered_by_size_then_path() {
    let sorted = sort_directories(vec![
        ("b".to_string(), usage(10, 0, 1)),
        ("A".to_string(), usage(10, 0, 1)),
        ("c".to_string(), usage(99, 0, 1)),
        ("d".to_string(), usage(1, 0, 1)),
    ]);
    let paths: Vec<String> = sorted.iter().map(|d| d.0.clone()).collect();
    assert_eq!(paths, vec!["c", "A", "b", "d"]);
}
