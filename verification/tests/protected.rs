use qingpan::exclusions::PathPart;
use qingpan::protected::{path_key, unique_absolute_paths, DirectoryCandidate};

fn candidate(text: &str) -> DirectoryCandidate {
    let absolute = text.starts_with('/');
    let mut parts = Vec::new();
    if absolute {
        parts.push(PathPart::Root);
    }
    parts.extend(text.split('/').filter(|p| !p.is_empty()).map(|p| PathPart::Normal(p.to_string())));
    DirectoryCandidate { text: text.to_string(), parts, absolute }
}

#[test]
fn keeps_only_unique_absolute_non_root_paths() {
    let desktop = "/tmp/profile/Desktop";
    let documents = "/tmp/profile/Documents";
    let paths = unique_absolute_paths(vec![
        candidate(desktop),
        candidate(desktop),
        candidate(documents),
        candidate("relative"),
        candidate("/"),
    ]);
    assert_eq!(paths, vec![desktop.to_string(), documents.to_string()]);
}

#[test]
fn directories_are_keyed_without_case_or_trailing_separators() {
    assert_eq!(path_key("C:/Users/Ana/Desktop//"), "c:\\users\\ana\\desktop");
    assert_eq!(path_key("C:\\Users\\ANA\\Desktop"), path_key("c:/users/ana/desktop/"));
    let paths = unique_absolute_paths(vec![candidate("/Home/Docs"), candidate("/home/docs/"), candidate("/home/other")]);
    assert_eq!(paths, vec!["/Home/Docs".to_string(), "/home/other".to_string()]);
}
