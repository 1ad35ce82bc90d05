use qingpan::scanner::listing::{recorded_files, walked_file_snapshot, HandleCheck, WalkedFile};
use qingpan::scanner::rules::{rules, RuleRoots};
use qingpan::scanner::{FileIdentity, Rule};

const OLD: u128 = 4 * 24 * 3600 * 1_000_000_000;

fn temp_rule() -> Rule {
    let roots = RuleRoots { local: None, roaming: None, home: None, wechat_documents: None, xwechat_data: None };
    rules(&roots).into_iter().find(|rule| rule.id == "temp").expect("temp rule")
}

fn parts(path: &str) -> Vec<String> {
    path.split('/').filter(|p| !p.is_empty()).map(|p| p.to_string()).collect()
}

fn walked(below: &str, index: u128) -> WalkedFile {
    let path = format!("C:/L/Temp/{below}");
    WalkedFile {
        path: path.clone(),
        below: parts(below),
        is_file: true,
        is_link_or_reparse: false,
        is_offline_or_recall: false,
        size: 5,
        modified_unix_nanos: Some(10),
        age_nanos: Some(OLD),
        canonical: Some((path.clone(), parts(&path))),
        handle: Some(HandleCheck {
            is_file: true,
            is_link_or_reparse: false,
            is_offline_or_recall: false,
            size: 5,
            modified_unix_nanos: Some(10),
            link_count: Some(1),
            only_default_stream: Some(true),
            identity: Some(FileIdentity { volume: 1, index }),
        }),
    }
}

#[test]
fn a_pinned_old_file_is_recorded() {
    let rule = temp_rule();
    let root = parts("C:/L/Temp");
    let snapshot = walked_file_snapshot(&rule, &root, &walked("a.tmp", 1)).expect("recorded");
    assert_eq!(snapshot.path, "C:/L/Temp/a.tmp");
    assert_eq!(snapshot.size, 5);
    assert_eq!(snapshot.modified_unix_nanos, 10);
    assert_eq!(snapshot.identity, FileIdentity { volume: 1, index: 1 });
}

#[test]
fn young_linked_or_escaping_files_are_not_recorded() {
    let rule = temp_rule();
    let root = parts("C:/L/Temp");
    let mut young = walked("a.tmp", 1);
    young.age_nanos = Some(1);
    assert!(walked_file_snapshot(&rule, &root, &young).is_none());
    let mut future = walked("a.tmp", 1);
    future.age_nanos = None;
    assert!(walked_file_snapshot(&rule, &root, &future).is_none());
    let mut linked = walked("a.tmp", 1);
    linked.handle.as_mut().unwrap().link_count = Some(2);
    assert!(walked_file_snapshot(&rule, &root, &linked).is_none());
    let mut changed = walked("a.tmp", 1);
    changed.handle.as_mut().unwrap().size = 6;
    assert!(walked_file_snapshot(&rule, &root, &changed).is_none());
    let mut escaping = walked("a.tmp", 1);
    escaping.canonical = Some(("C:/Other/a.tmp".into(), parts("C:/Other/a.tmp")));
    assert!(walked_file_snapshot(&rule, &root, &escaping).is_none());
    let mut streams = walked("a.tmp", 1);
    streams.handle.as_mut().unwrap().only_default_stream = Some(false);
    assert!(walked_file_snapshot(&rule, &root, &streams).is_none());
}

#[test]
fn recorded_files_are_ordered_component_by_component() {
    let rule = temp_rule();
    let root = parts("C:/L/Temp");
    let mut young = walked("z.tmp", 9);
    young.age_nanos = Some(0);
    let files = recorded_files(&rule, &root, vec![walked("a.b", 1), walked("a/b", 2), young, walked("B", 3), walked("a/a", 4)]);
    let paths: Vec<&str> = files.iter().map(|f| f.path.as_str()).collect();
    assert_eq!(paths, vec!["C:/L/Temp/B", "C:/L/Temp/a/a", "C:/L/Temp/a/b", "C:/L/Temp/a.b"]);
}
