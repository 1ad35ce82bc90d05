use qingpan::exclusions::{
    check_excluded_count, excluded_relative, excluded_request_text, is_within, minimal_exclusions, resolved_exclusion,
    visible_root, ExclusionProbe, PathPart,
};
use qingpan::usage::owning_direct_child;

fn windows_path(text: &str) -> Vec<PathPart> {
    let mut parts = Vec::new();
    let mut rest = text;
    if rest.len() >= 2 && rest.as_bytes()[1] == b':' {
        parts.push(PathPart::Prefix(rest[..2].to_string()));
        rest = &rest[2..];
    }
    if rest.starts_with('\\') {
        parts.push(PathPart::Root);
    }
    for name in rest.split('\\').filter(|name| !name.is_empty()) {
        parts.push(match name {
            "." => PathPart::Current,
            ".." => PathPart::Parent,
            other => PathPart::Normal(other.to_string()),
        });
    }
    parts
}

fn rendered(parts: &[PathPart]) -> String {
    let mut out = String::new();
    for part in parts {
        match part {
            PathPart::Prefix(text) => out.push_str(text),
            PathPart::Root => out.push('\\'),
            PathPart::Current => out.push_str(".\\"),
            PathPart::Parent => out.push_str("..\\"),
            PathPart::Normal(text) => {
                out.push_str(text);
                out.push('\\');
            }
        }
    }
    out
}

fn relative(request: &str, absolute: bool) -> Result<String, String> {
    let root = windows_path("C:\\data\\scan");
    let text = excluded_request_text(request)?;
    excluded_relative(&root, &text, windows_path(&text), absolute).map(|parts| rendered(&parts))
}

#[test]
fn excluded_requests_are_trimmed_and_limited() {
    assert_eq!(excluded_request_text("  C:\\data\\scan\\cache \n").unwrap(), "C:\\data\\scan\\cache");
    assert_eq!(excluded_request_text(" \t ").unwrap_err(), "excludedPaths 不能包含空路径");
    let long = "a".repeat(32_768);
    assert_eq!(excluded_request_text(&long).unwrap_err(), "excludedPaths 单项不能超过 32767 个 UTF-16 代码单元");
    assert!(excluded_request_text(&"a".repeat(32_767)).is_ok());
    assert!(excluded_request_text(&"😀".repeat(16_384)).is_err());
    assert!(check_excluded_count(64).is_ok());
    assert_eq!(check_excluded_count(65).unwrap_err(), "excludedPaths 最多允许 64 项");
}

#[test]
fn excluded_paths_are_normalized_inside_the_scan_root() {
    assert_eq!(relative("C:\\data\\scan\\cache", true).unwrap(), "cache\\");
    assert_eq!(relative("c:\\DATA\\Scan\\a\\.\\b\\..\\c", true).unwrap(), "a\\c\\");
    assert_eq!(relative("logs\\old", false).unwrap(), "logs\\old\\");
    assert_eq!(relative("\\data\\scan\\tmp", false).unwrap(), "tmp\\");
    assert_eq!(relative("C:relative", false).unwrap_err(), "排除路径不是绝对路径: C:relative");
    assert_eq!(relative("C:\\..\\..", true).unwrap_err(), "排除路径无法规范化或试图越过卷根: C:\\..\\..");
    assert_eq!(relative("C:\\other", true).unwrap_err(), "排除路径不在扫描根目录内: C:\\other");
    assert_eq!(relative("C:\\data\\scan\\x\\..", true).unwrap_err(), "不能把扫描根目录本身加入 excludedPaths");
}

#[test]
fn resolved_exclusions_must_stay_below_the_root() {
    let root = windows_path("C:\\data\\scan");
    let requested = "cache".to_string();
    let missing = resolved_exclusion(&root, &requested, windows_path("cache"), ExclusionProbe::Missing).unwrap();
    assert_eq!(rendered(&missing), "C:\\data\\scan\\cache\\");
    let outside = resolved_exclusion(&root, &requested, windows_path("cache"), ExclusionProbe::Resolved(windows_path("D:\\elsewhere")));
    assert_eq!(outside.unwrap_err(), "排除路径解析后不在扫描根目录内: cache");
    let itself = resolved_exclusion(&root, &requested, windows_path("cache"), ExclusionProbe::Resolved(windows_path("C:\\data\\scan")));
    assert!(itself.is_err());
    let unreadable = resolved_exclusion(&root, &requested, windows_path("cache"), ExclusionProbe::CannotRead("denied".to_string()));
    assert_eq!(unreadable.unwrap_err(), "无法读取排除路径 cache: denied");
    let unresolved = resolved_exclusion(&root, &requested, windows_path("cache"), ExclusionProbe::CannotResolve("loop".to_string()));
    assert_eq!(unresolved.unwrap_err(), "无法验证排除路径 cache: loop");
}

#[test]
fn minimal_exclusions_drop_contained_and_repeated_paths() {
    let kept = minimal_exclusions(vec![
        windows_path("C:\\r\\a\\b"),
        windows_path("C:\\r\\a"),
        windows_path("C:\\r\\A"),
        windows_path("C:\\r\\c"),
        windows_path("C:\\r\\c\\d\\e"),
    ]);
    let shown: Vec<String> = kept.iter().map(|parts| rendered(parts)).collect();
    assert_eq!(shown, vec!["C:\\r\\a\\", "C:\\r\\c\\"]);
    assert!(is_within(&windows_path("C:\\R\\A\\x"), &windows_path("c:\\r\\a")));
    assert!(!is_within(&windows_path("C:\\r\\ab"), &windows_path("C:\\r\\a")));
}

#[test]
fn visible_roots_drop_verbatim_prefixes() {
    assert_eq!(visible_root("\\\\?\\C:\\data"), "C:\\data");
    assert_eq!(visible_root("\\\\?\\UNC\\server\\share\\x"), "\\\\server\\share\\x");
    assert_eq!(visible_root("/home/user"), "/home/user");
}

#[test]
fn files_count_towards_the_root_child_that_holds_them() {
    let root = windows_path("C:\\scan");
    let child = owning_direct_child(&root, &windows_path("C:\\scan\\photos\\2024\\a.jpg"), 3).unwrap();
    assert_eq!(rendered(&child), "C:\\scan\\photos\\");
    assert!(owning_direct_child(&root, &windows_path("C:\\scan\\a.jpg"), 1).is_none());
    assert!(owning_direct_child(&root, &windows_path("C:\\other\\x\\a.jpg"), 2).is_none());
}
