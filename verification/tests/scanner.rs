use qingpan::browsers::BrowserProcess;
use qingpan::models::RiskLevel;
use qingpan::scanner::rules::{matches_rule, path_for, rules, rules_for_roots, RootDirectory, RuleRoots};
use qingpan::scanner::{
    process_guard_blocks, process_guard_error, rule_can_be_scanned, rule_is_executable,
    FileMatcher, ProcessGuard, RootBase, Rule,
};
use qingpan::tree::DirectoryTree;

const WECHAT_INSTALLATIONS: [&str; 3] = ["WeChat", "Weixin", "xwechat"];
const WECHAT_REGENERABLE_DIRECTORIES: [&str; 6] =
    ["Cache", "Code Cache", "GPUCache", "Log", "Logs", "Crashpad/reports"];

fn cache_rule(
    id: &str,
    name: &str,
    base: RootBase,
    relative: &str,
    process_guard: Option<ProcessGuard>,
) -> Rule {
    Rule {
        id: id.into(),
        category: "应用缓存",
        name: name.into(),
        base,
        relative: relative.into(),
        risk: RiskLevel::Low,
        matcher: FileMatcher::AllFilesRecursive,
        minimum_age_secs: None,
        process_guard,
    }
}

fn test_rule() -> Rule {
    Rule {
        id: "test".into(),
        category: "test",
        name: "test".into(),
        base: RootBase::Local,
        relative: String::new(),
        risk: RiskLevel::Low,
        matcher: FileMatcher::AllFilesRecursive,
        minimum_age_secs: None,
        process_guard: None,
    }
}

fn strings(items: &[&str]) -> Vec<String> {
    items.iter().map(|item| item.to_string()).collect()
}

#[test]
fn ids_are_unique() {
    let rules = rules(&RuleRoots::none());
    let mut ids = rules
        .iter()
        .map(|rule| rule.id.as_str())
        .collect::<Vec<_>>();
    ids.sort();
    ids.dedup();
    assert_eq!(ids.len(), rules.len())
}

#[test]
fn only_explicit_wechat_user_data_rules_are_high_risk() {
    assert!(rules(&RuleRoots::none()).iter().all(|rule| {
        !matches!(&rule.risk, RiskLevel::High)
            || (rule.id.starts_with("wechat-user-")
                && matches!(rule.base, RootBase::WeChatDocuments | RootBase::XWeChatData)
                && rule.process_guard == Some(ProcessGuard::WeChat))
    }))
}

#[test]
fn wechat_rules_only_target_explicit_regenerable_leaf_directories() {
    let discovered = rules_for_roots(None, None, None, None);
    let wechat_rules = discovered
        .iter()
        .filter(|rule| rule.process_guard == Some(ProcessGuard::WeChat))
        .collect::<Vec<_>>();

    assert_eq!(wechat_rules.len(), 36);
    for rule in &wechat_rules {
        assert!(matches!(rule.base, RootBase::Local | RootBase::Roaming));
        assert!(rule.category.starts_with("微信"));
        assert!(matches!(rule.risk, RiskLevel::Low));
        assert!(matches!(rule.matcher, FileMatcher::AllFilesRecursive));

        let relative = rule.relative.replace('\\', "/");
        assert!(WECHAT_INSTALLATIONS.iter().any(|installation| {
            WECHAT_REGENERABLE_DIRECTORIES.iter().any(|leaf| {
                relative.eq_ignore_ascii_case(&format!("Tencent/{installation}/{leaf}"))
            })
        }));
        assert!(![
            "WeChat Files",
            "xwechat_files",
            "FileStorage",
            "MsgAttach",
            "Image",
            "Video",
            "File",
            "Voice2",
            "Emotion",
            "Temp",
        ]
        .iter()
        .any(|protected| {
            rule.relative
                .split('/')
                .any(|component| component.eq_ignore_ascii_case(protected))
        }));
    }
}

#[test]
fn process_guard_matching_is_exact_case_insensitive_and_pure() {
    for (guard, process_name) in [
        (ProcessGuard::Browser(BrowserProcess::Edge), "MSEDGE.EXE"),
        (ProcessGuard::Browser(BrowserProcess::Chrome), "chrome.exe"),
        (
            ProcessGuard::Browser(BrowserProcess::Firefox),
            "firefox.exe",
        ),
        (ProcessGuard::VsCode, "Code.exe"),
        (ProcessGuard::Discord, "Discord.exe"),
        (ProcessGuard::Figma, "Figma.exe"),
        (ProcessGuard::WeChat, "WECHAT.EXE"),
        (ProcessGuard::WeChat, "Weixin.exe"),
        (ProcessGuard::WeChat, "WeChatAppEx.exe"),
        (ProcessGuard::WeChat, "WeixinAppEx.exe"),
    ] {
        assert!(process_guard_blocks(guard, &vec![process_name.to_string()]));
    }

    let chrome_running = vec![
        "explorer.exe".to_string(),
        r"C:\Program Files\Google\Chrome\CHROME.EXE".to_string(),
    ];
    assert!(process_guard_blocks(
        ProcessGuard::Browser(BrowserProcess::Chrome),
        &chrome_running
    ));
    assert!(!process_guard_blocks(
        ProcessGuard::Browser(BrowserProcess::Edge),
        &chrome_running
    ));

    let lookalikes = vec![
        "chrome_proxy.exe".to_string(),
        "msedgewebview2.exe".to_string(),
        "discord-helper.exe".to_string(),
        "wechat-helper.exe".to_string(),
        "weixin-updater.exe".to_string(),
    ];
    assert!(!process_guard_blocks(
        ProcessGuard::Browser(BrowserProcess::Chrome),
        &lookalikes
    ));
    assert!(!process_guard_blocks(
        ProcessGuard::Browser(BrowserProcess::Edge),
        &lookalikes
    ));
    assert!(!process_guard_blocks(ProcessGuard::Discord, &lookalikes));
    assert!(!process_guard_blocks(ProcessGuard::WeChat, &lookalikes));

    let chrome_rule = cache_rule(
        "test-chrome-cache",
        "test",
        RootBase::Local,
        "cache",
        Some(ProcessGuard::Browser(BrowserProcess::Chrome)),
    );
    assert!(!rule_is_executable(&chrome_rule, Some(&chrome_running)));
    assert!(rule_is_executable(&chrome_rule, Some(&lookalikes)));
    assert!(!rule_is_executable(&chrome_rule, None));
    assert!(rule_is_executable(&test_rule(), Some(&chrome_running)));
}

#[test]
fn guard_error_names_the_running_application() {
    let wechat_rule = cache_rule("w", "w", RootBase::Local, "Tencent/WeChat/Cache", Some(ProcessGuard::WeChat));
    let running = strings(&["WeChat.exe"]);
    let error = process_guard_error(&wechat_rule, Some(&running)).expect("running WeChat blocks the rule");
    assert!(error.contains("微信"));
    assert!(process_guard_error(&wechat_rule, Some(&strings(&["explorer.exe"]))).is_none());
    let unknown = process_guard_error(&wechat_rule, None).expect("an unknown process list blocks guarded rules");
    assert!(unknown.contains("微信"));
    assert!(process_guard_error(&test_rule(), None).is_none());
    assert!(!rule_can_be_scanned(&wechat_rule, Some(&running)));
    let edge_rule = cache_rule("e", "e", RootBase::Local, "Microsoft/Edge/User Data/Default/Cache", Some(ProcessGuard::Browser(BrowserProcess::Edge)));
    assert!(rule_can_be_scanned(&edge_rule, Some(&strings(&["msedge.exe"]))));
    assert!(!rule_is_executable(&edge_rule, Some(&strings(&["msedge.exe"]))));
}

#[test]
fn rules_without_roots_are_all_regenerable_and_low_or_medium_risk() {
    for rule in rules(&RuleRoots::none()) {
        assert!(!matches!(rule.risk, RiskLevel::High));
        assert!(matches!(rule.base, RootBase::Local | RootBase::Roaming | RootBase::Home));
    }
}

#[test]
fn path_for_joins_the_rule_below_its_root() {
    let roots = RuleRoots {
        local: Some(RootDirectory { path: "C:/Users/u/AppData/Local".into(), tree: DirectoryTree::empty() }),
        roaming: None,
        home: None,
        wechat_documents: None,
        xwechat_data: None,
    };
    let rule = cache_rule("c", "c", RootBase::Local, "Tencent/WeChat/Cache", None);
    assert_eq!(
        path_for(&rule, &roots),
        Some("C:/Users/u/AppData/Local/Tencent/WeChat/Cache".to_string())
    );
    let roaming_rule = cache_rule("r", "r", RootBase::Roaming, "Code/Cache", None);
    assert_eq!(path_for(&roaming_rule, &roots), None);
}

#[test]
fn thumbnail_rule_takes_only_matching_root_files() {
    let rule = Rule {
        id: "thumbs".into(),
        category: "系统缓存",
        name: "thumbs".into(),
        base: RootBase::Local,
        relative: "Microsoft/Windows/Explorer".into(),
        risk: RiskLevel::Low,
        matcher: FileMatcher::RootFileName { prefix: "thumbcache_", suffix: ".db" },
        minimum_age_secs: None,
        process_guard: None,
    };
    assert!(matches_rule(&rule, &strings(&["thumbcache_256.db"]), None));
    assert!(matches_rule(&rule, &strings(&["THUMBCACHE_32.DB"]), None));
    assert!(!matches_rule(&rule, &strings(&["iconcache_256.db"]), None));
    assert!(!matches_rule(&rule, &strings(&["nested", "thumbcache_256.db"]), None));
}

#[test]
fn young_temp_files_are_not_matched() {
    let mut rule = test_rule();
    rule.minimum_age_secs = Some(259_200);
    let young: u128 = 3_600 * 1_000_000_000;
    let old: u128 = 259_200 * 1_000_000_000;
    assert!(!matches_rule(&rule, &strings(&["a.tmp"]), Some(young)));
    assert!(matches_rule(&rule, &strings(&["a.tmp"]), Some(old)));
    assert!(!matches_rule(&rule, &strings(&["a.tmp"]), None));
}

#[test]
fn descendant_directory_rule_takes_only_files_below_named_directories() {
    let rule = Rule {
        id: "cache-dirs".into(),
        category: "应用缓存",
        name: "cache-dirs".into(),
        base: RootBase::Roaming,
        relative: "Tencent/QQ".into(),
        risk: RiskLevel::Low,
        matcher: FileMatcher::DescendantDirectoryName { names: vec!["Cache"] },
        minimum_age_secs: None,
        process_guard: None,
    };
    assert!(matches_rule(&rule, &strings(&["v1", "cache", "blob.bin"]), None));
    assert!(!matches_rule(&rule, &strings(&["v1", "Data", "msg.db"]), None));
    assert!(!matches_rule(&rule, &strings(&["cache"]), None));
}
