use std::collections::BTreeSet;

use qingpan::audit::{select_recent, unix_time_ms, OperationKind, OperationRecord, OperationStatus};
use qingpan::browsers::{discover_cache_rules, BrowserDataRoot, BrowserProcess};
use qingpan::scanner::rules::rules_for_roots;
use qingpan::scanner::ProcessGuard;
use qingpan::tree::DirectoryTree;

const REGENERABLE_CACHE_DIRECTORIES: [&str; 3] = ["Cache", "Code Cache", "GPUCache"];

fn tree_of(paths: &[String]) -> DirectoryTree {
    let mut directories: Vec<String> = Vec::new();
    for path in paths {
        let parts = path.split('/').collect::<Vec<_>>();
        for end in 1..=parts.len() {
            let prefix = parts[..end].join("/");
            if !directories.contains(&prefix) {
                directories.push(prefix);
            }
        }
    }
    DirectoryTree { directories }
}

fn profile_directories(user_data: &str, profile: &str, out: &mut Vec<String>) {
    for cache in REGENERABLE_CACHE_DIRECTORIES {
        out.push(format!("{user_data}/{profile}/{cache}"));
    }
    for protected in ["Local Storage", "IndexedDB", "Projects", "CacheStorage"] {
        out.push(format!("{user_data}/{profile}/{protected}"));
    }
}

#[test]
fn browser_profile_discovery_only_creates_strict_cache_leaf_rules() {
    let mut local_paths = Vec::new();
    for profile in ["Default", "Profile 1", "Profile Work", "Guest Profile", "System Profile"] {
        profile_directories("Microsoft/Edge/User Data", profile, &mut local_paths);
    }
    for profile in ["Default", "Profile 2"] {
        profile_directories("Google/Chrome/User Data", profile, &mut local_paths);
    }
    profile_directories("Vivaldi/User Data", "Default", &mut local_paths);
    for cache in REGENERABLE_CACHE_DIRECTORIES {
        local_paths.push(format!("Opera Software/Opera GX Stable/{cache}"));
    }
    for profile in ["alpha.default-release", "beta.work"] {
        local_paths.push(format!("Mozilla/Firefox/Profiles/{profile}/cache2"));
        local_paths.push(format!("Mozilla/Firefox/Profiles/{profile}/storage"));
    }
    let local = tree_of(&local_paths);
    let roaming = tree_of(&["placeholder".to_string()]);

    let discovered = rules_for_roots(Some(&local), Some(&roaming), None, None);
    let browser_rules = discovered
        .iter()
        .filter(|rule| matches!(rule.process_guard, Some(ProcessGuard::Browser(_))))
        .collect::<Vec<_>>();
    let actual = browser_rules
        .iter()
        .map(|rule| rule.relative.clone())
        .collect::<BTreeSet<_>>();

    let mut expected = BTreeSet::new();
    for profile in ["Default", "Profile 1", "Profile Work"] {
        for cache in REGENERABLE_CACHE_DIRECTORIES {
            expected.insert(format!("Microsoft/Edge/User Data/{profile}/{cache}"));
        }
    }
    for profile in ["Default", "Profile 2"] {
        for cache in REGENERABLE_CACHE_DIRECTORIES {
            expected.insert(format!("Google/Chrome/User Data/{profile}/{cache}"));
        }
    }
    for cache in REGENERABLE_CACHE_DIRECTORIES {
        expected.insert(format!("Vivaldi/User Data/Default/{cache}"));
        expected.insert(format!("Opera Software/Opera GX Stable/{cache}"));
    }
    for profile in ["alpha.default-release", "beta.work"] {
        expected.insert(format!("Mozilla/Firefox/Profiles/{profile}/cache2"));
    }

    assert_eq!(actual, expected);
    let ids = browser_rules
        .iter()
        .map(|rule| rule.id.as_str())
        .collect::<BTreeSet<_>>();
    assert_eq!(ids.len(), browser_rules.len());
    assert!(discovered.iter().all(|rule| {
        !rule.relative.split('/').any(|component| {
            [
                "Cookies",
                "History",
                "Login Data",
                "Bookmarks",
                "Local Storage",
                "IndexedDB",
                "Projects",
                "CacheStorage",
            ]
            .iter()
            .any(|protected| component.eq_ignore_ascii_case(protected))
        })
    }));
}

#[test]
fn browser_discovery_without_roots_finds_nothing() {
    assert!(discover_cache_rules(None, None).is_empty());
    assert!(discover_cache_rules(Some(&DirectoryTree::empty()), Some(&DirectoryTree::empty())).is_empty());
}

#[test]
fn browser_cache_rule_records_its_browser_and_root() {
    let local = tree_of(&["Google/Chrome/User Data/Default/Cache".to_string()]);
    let rules = discover_cache_rules(Some(&local), None);
    assert_eq!(rules.len(), 1);
    assert_eq!(rules[0].base, BrowserDataRoot::Local);
    assert_eq!(rules[0].process, BrowserProcess::Chrome);
    assert_eq!(rules[0].relative, "Google/Chrome/User Data/Default/Cache");
    assert!(rules[0].name.contains("Google Chrome"));
}

#[test]
fn browser_process_names_and_display_names() {
    assert!(BrowserProcess::Chrome.names().contains(&"chrome.exe"));
    assert!(BrowserProcess::Edge.names().contains(&"msedge.exe"));
    assert_eq!(BrowserProcess::Firefox.display_name(), "Firefox");
}

#[test]
fn tree_children_are_direct_children_in_order() {
    let tree = DirectoryTree {
        directories: vec!["a".into(), "a/b".into(), "a/b/c".into(), "a/d".into(), "e".into()],
    };
    assert_eq!(tree.children("a"), vec!["b".to_string(), "d".to_string()]);
    assert_eq!(tree.children(""), vec!["a".to_string(), "e".to_string()]);
    assert!(tree.has_directory("a/b/c"));
    assert!(!tree.has_directory("a/c"));
}

fn record(id: u128) -> OperationRecord {
    let mut record = OperationRecord::new(OperationKind::Cleanup, "rules".into());
    record.operation_id = id;
    record
}

#[test]
fn appends_and_reads_newest_first() {
    let lines = vec![Some(record(1)), Some(record(2)), Some(record(3))];
    let recent = select_recent(lines, 10);
    assert_eq!(
        recent.records.iter().map(|r| r.operation_id).collect::<Vec<_>>(),
        vec![3, 2, 1]
    );
    assert_eq!(recent.skipped_corrupt_lines, 0);
}

#[test]
fn corrupt_lines_are_counted_and_skipped() {
    let lines = vec![Some(record(1)), None, Some(record(2)), None];
    let recent = select_recent(lines, 10);
    assert_eq!(recent.records.len(), 2);
    assert_eq!(recent.skipped_corrupt_lines, 2);
}

#[test]
fn limit_keeps_only_most_recent_records() {
    let lines = (1..=5).map(|id| Some(record(id))).collect::<Vec<_>>();
    let recent = select_recent(lines, 2);
    assert_eq!(
        recent.records.iter().map(|r| r.operation_id).collect::<Vec<_>>(),
        vec![5, 4]
    );
}

#[test]
fn new_records_start_skipped_with_a_random_v4_identifier() {
    let first = OperationRecord::new(OperationKind::Quarantine, "v".into());
    let second = OperationRecord::new(OperationKind::Quarantine, "v".into());
    assert_eq!(first.status, OperationStatus::Skipped);
    assert_eq!((first.operation_id >> 76) & 0xf, 4);
    assert_ne!(first.operation_id, second.operation_id);
    assert!(first.started_at_ms > 0);
    assert!(unix_time_ms() >= first.started_at_ms);
}
