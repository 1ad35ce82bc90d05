use vstd::prelude::*;
use vstd::string::StringExecFns;
use vstd::string::StringSliceAdditionalSpecFns;
use crate::models::RiskLevel;
use crate::browsers::{BrowserDataRoot, RuleView, rule_views, browser_spec_table, deref_tree, discover_cache_rules, discovered_rules, stable_id_component};
use crate::scanner::{FileMatcher, ProcessGuard, RootBase, Rule};
use crate::text::{chars_of, eq_ignore_case, eq_ignore_case_str, hex_spec, lower, lower_vec};
use crate::apps::{last_segment, starts_with, utf8_len, vec_eq};
use crate::tree::{DirectoryTree, children_spec, join_path, join_spec, slice_chars, tree_has, views};

verus! {

/// What a matcher selects, as plain values: its kind (0 for every file, 1 for
/// a root file name, 2 for descendant directory names) and its texts.
pub type MatcherShape = (int, Seq<char>, Seq<char>, Seq<Seq<char>>);

/// A rule as plain values: id, category, name, base, relative path, risk,
/// matcher, minimum age and process guard.
pub type RuleShape = (Seq<char>, Seq<char>, Seq<char>, RootBase, Seq<char>, RiskLevel, MatcherShape, Option<u64>, Option<ProcessGuard>);

pub open spec fn texts_of(names: Seq<&'static str>) -> Seq<Seq<char>> {
    names.map_values(|n: &'static str| n@)
}

pub open spec fn matcher_shape(m: FileMatcher) -> MatcherShape {
    match m {
        FileMatcher::AllFilesRecursive => (0, seq![], seq![], seq![]),
        FileMatcher::RootFileName { prefix, suffix } => (1, prefix@, suffix@, seq![]),
        FileMatcher::DescendantDirectoryName { names } => (2, seq![], seq![], texts_of(names@)),
    }
}

pub open spec fn rule_shape(r: Rule) -> RuleShape {
    (r.id@, r.category@, r.name@, r.base, r.relative@, r.risk, matcher_shape(r.matcher), r.minimum_age_secs, r.process_guard)
}

pub open spec fn rule_shapes(rules: Seq<Rule>) -> Seq<RuleShape> {
    rules.map_values(|r: Rule| rule_shape(r))
}

proof fn lemma_rule_shapes_push(rules: Seq<Rule>, rule: Rule)
    ensures
        rule_shapes(rules.push(rule)) == rule_shapes(rules).push(rule_shape(rule)),
{
    assert(rule_shapes(rules.push(rule)) =~= rule_shapes(rules).push(rule_shape(rule)));
}

/// The root that an account's user data lies below.
pub open spec fn user_base(new_client: bool) -> RootBase {
    if new_client {
        RootBase::XWeChatData
    } else {
        RootBase::WeChatDocuments
    }
}

/// A high-risk user-data rule of an account, guarded by WeChat.
pub open spec fn user_rule_shape(
    account_id: Seq<char>,
    new_client: bool,
    suffix: Seq<char>,
    category: Seq<char>,
    account: Seq<char>,
    label: Seq<char>,
    relative: Seq<char>,
    matcher: MatcherShape,
) -> RuleShape {
    (
        user_rule_id_spec(account_id, new_client, suffix),
        category,
        user_rule_name_spec(new_client, account, label),
        user_base(new_client),
        relative,
        RiskLevel::High,
        matcher,
        None,
        Some(ProcessGuard::WeChat),
    )
}

/// The rule for an explicit user-data directory of an account: present when
/// the directory is.
pub open spec fn user_directory_rule(
    tree: DirectoryTree,
    account_id: Seq<char>,
    new_client: bool,
    suffix: Seq<char>,
    category: Seq<char>,
    account: Seq<char>,
    label: Seq<char>,
    account_relative: Seq<char>,
    directory: Seq<char>,
) -> Seq<RuleShape> {
    let relative = join_spec(account_relative, directory);
    if tree_has(tree, relative) {
        seq![user_rule_shape(account_id, new_client, suffix, category, account, label, relative, (0, seq![], seq![], seq![]))]
    } else {
        seq![]
    }
}

/// The rule for the attachments of one kind of an account: present when the
/// attachment directory is and a directory of that kind lies below it.
pub open spec fn attachment_rule(
    tree: DirectoryTree,
    account_id: Seq<char>,
    new_client: bool,
    suffix: Seq<char>,
    category: Seq<char>,
    account: Seq<char>,
    label: Seq<char>,
    attach_relative: Seq<char>,
    names: Seq<&'static str>,
) -> Seq<RuleShape> {
    if tree_has(tree, attach_relative) && has_named_descendant(tree, attach_relative, names) {
        seq![user_rule_shape(account_id, new_client, suffix, category, account, label, attach_relative, (2, seq![], seq![], texts_of(names)))]
    } else {
        seq![]
    }
}

/// How many rules are guarded by WeChat's process.
pub open spec fn wechat_count(rules: Seq<Rule>) -> nat
    decreases rules.len(),
{
    if rules.len() == 0 {
        0
    } else {
        wechat_count(rules.drop_last()) + if rules.last().process_guard == Some(ProcessGuard::WeChat) {
            1nat
        } else {
            0nat
        }
    }
}

/// A low-risk rule for regenerable content; when WeChat guards it, it takes
/// every file of a directory below the local or roaming root.
pub open spec fn regenerable(r: Rule) -> bool {
    r.risk == RiskLevel::Low && (r.process_guard == Some(ProcessGuard::WeChat) ==> ((r.base
        == RootBase::Local || r.base == RootBase::Roaming) && r.matcher
        == FileMatcher::AllFilesRecursive))
}

/// An explicit WeChat user-data rule: high risk, below one of the WeChat data
/// roots, guarded by WeChat, with an id that says so.
pub open spec fn user_data_rule(r: Rule) -> bool {
    &&& r.risk == RiskLevel::High
    &&& starts_with(r.id@, "wechat-user-"@)
    &&& (r.base == RootBase::WeChatDocuments || r.base == RootBase::XWeChatData)
    &&& r.process_guard == Some(ProcessGuard::WeChat)
}

/// Only explicit WeChat user-data rules are high risk.
pub open spec fn high_risk_only_user_data(r: Rule) -> bool {
    r.risk == RiskLevel::High ==> (starts_with(r.id@, "wechat-user-"@) && (r.base
        == RootBase::WeChatDocuments || r.base == RootBase::XWeChatData) && r.process_guard
        == Some(ProcessGuard::WeChat))
}

proof fn lemma_wechat_count_push(rules: Seq<Rule>, rule: Rule)
    ensures
        wechat_count(rules.push(rule)) == wechat_count(rules) + if rule.process_guard == Some(
            ProcessGuard::WeChat,
        ) {
            1nat
        } else {
            0nat
        },
{
    assert(rules.push(rule).drop_last() =~= rules);
}

/// The system cache rules.
pub open spec fn system_cache_table() -> Seq<RuleShape> {
    seq![
        ("temp"@, "系统缓存"@, "临时文件"@, RootBase::Local, "Temp"@, RiskLevel::Low, (0, seq![], seq![], seq![]), Some(259200u64), None),
        ("thumbs"@, "系统缓存"@, "缩略图缓存"@, RootBase::Local, "Microsoft/Windows/Explorer"@, RiskLevel::Low, (1, "thumbcache_"@, ".db"@, seq![]), None, None),
    ]
}

/// The application cache rules: Visual Studio Code, Discord and Figma, each guarded by its process.
pub open spec fn application_cache_table() -> Seq<RuleShape> {
    seq![
        ("vscode-cache"@, "应用缓存"@, "Visual Studio Code · Cache"@, RootBase::Roaming, "Code/Cache"@, RiskLevel::Low, (0, seq![], seq![], seq![]), None, Some(ProcessGuard::VsCode)),
        ("vscode-code-cache"@, "应用缓存"@, "Visual Studio Code · Code Cache"@, RootBase::Roaming, "Code/Code Cache"@, RiskLevel::Low, (0, seq![], seq![], seq![]), None, Some(ProcessGuard::VsCode)),
        ("vscode-gpu-cache"@, "应用缓存"@, "Visual Studio Code · GPUCache"@, RootBase::Roaming, "Code/GPUCache"@, RiskLevel::Low, (0, seq![], seq![], seq![]), None, Some(ProcessGuard::VsCode)),
        ("discord-cache"@, "应用缓存"@, "Discord · Cache"@, RootBase::Roaming, "discord/Cache"@, RiskLevel::Low, (0, seq![], seq![], seq![]), None, Some(ProcessGuard::Discord)),
        ("discord-code-cache"@, "应用缓存"@, "Discord · Code Cache"@, RootBase::Roaming, "discord/Code Cache"@, RiskLevel::Low, (0, seq![], seq![], seq![]), None, Some(ProcessGuard::Discord)),
        ("discord-gpu-cache"@, "应用缓存"@, "Discord · GPUCache"@, RootBase::Roaming, "discord/GPUCache"@, RiskLevel::Low, (0, seq![], seq![], seq![]), None, Some(ProcessGuard::Discord)),
        ("figma-cache"@, "应用缓存"@, "Figma · Cache"@, RootBase::Roaming, "Figma/Cache"@, RiskLevel::Low, (0, seq![], seq![], seq![]), None, Some(ProcessGuard::Figma)),
        ("figma-code-cache"@, "应用缓存"@, "Figma · Code Cache"@, RootBase::Roaming, "Figma/Code Cache"@, RiskLevel::Low, (0, seq![], seq![], seq![]), None, Some(ProcessGuard::Figma)),
        ("figma-gpu-cache"@, "应用缓存"@, "Figma · GPUCache"@, RootBase::Roaming, "Figma/GPUCache"@, RiskLevel::Low, (0, seq![], seq![], seq![]), None, Some(ProcessGuard::Figma)),
    ]
}

/// The package-manager cache rules.
pub open spec fn developer_cache_table() -> Seq<RuleShape> {
    seq![
        ("npm-cache-content"@, "开发者缓存"@, "npm · 包内容缓存"@, RootBase::Local, "npm-cache/_cacache/content-v2"@, RiskLevel::Low, (0, seq![], seq![], seq![]), None, None),
        ("npm-cache-index"@, "开发者缓存"@, "npm · 包索引缓存"@, RootBase::Local, "npm-cache/_cacache/index-v5"@, RiskLevel::Low, (0, seq![], seq![], seq![]), None, None),
        ("pip-http-cache"@, "开发者缓存"@, "pip · 下载缓存"@, RootBase::Local, "pip/cache/http-v2"@, RiskLevel::Low, (0, seq![], seq![], seq![]), None, None),
        ("pip-wheel-cache"@, "开发者缓存"@, "pip · 构建 wheel 缓存"@, RootBase::Local, "pip/cache/wheels"@, RiskLevel::Low, (0, seq![], seq![], seq![]), None, None),
        ("cargo-registry-cache"@, "开发者缓存"@, "Cargo · crate 归档缓存"@, RootBase::Home, ".cargo/registry/cache"@, RiskLevel::Low, (0, seq![], seq![], seq![]), None, None),
        ("cargo-registry-src"@, "开发者缓存"@, "Cargo · crate 解压源码"@, RootBase::Home, ".cargo/registry/src"@, RiskLevel::Low, (0, seq![], seq![], seq![]), None, None),
        ("gradle-cache"@, "开发者缓存"@, "Gradle · 构建缓存"@, RootBase::Home, ".gradle/caches"@, RiskLevel::Low, (0, seq![], seq![], seq![]), None, None),
        ("maven-repository"@, "开发者缓存"@, "Maven · 本地仓库"@, RootBase::Home, ".m2/repository"@, RiskLevel::Low, (0, seq![], seq![], seq![]), None, None),
    ]
}

/// The Windows diagnostic and cache rules.
pub open spec fn system_junk_table() -> Seq<RuleShape> {
    seq![
        ("system-crash-dumps"@, "系统垃圾"@, "Windows · 应用崩溃转储"@, RootBase::Local, "CrashDumps"@, RiskLevel::Low, (0, seq![], seq![], seq![]), None, None),
        ("system-wer-reports"@, "系统垃圾"@, "Windows · 错误报告存档"@, RootBase::Local, "Microsoft/Windows/WER"@, RiskLevel::Low, (0, seq![], seq![], seq![]), None, None),
        ("system-inet-cache"@, "系统垃圾"@, "Windows · 联网组件缓存"@, RootBase::Local, "Microsoft/Windows/INetCache"@, RiskLevel::Low, (0, seq![], seq![], seq![]), None, None),
        ("system-shader-cache"@, "系统垃圾"@, "Windows · D3D 着色器缓存"@, RootBase::Local, "D3DSCache"@, RiskLevel::Low, (0, seq![], seq![], seq![]), None, None),
        ("system-component-cache"@, "系统垃圾"@, "Windows · 组件图标缓存"@, RootBase::Local, "Microsoft/Windows/Caches"@, RiskLevel::Low, (0, seq![], seq![], seq![]), None, None),
    ]
}

/// The Tencent cache and log rules, guarded by QQ.
pub open spec fn qq_table() -> Seq<RuleShape> {
    seq![
        ("qq-shared-logs"@, "QQ 缓存"@, "腾讯 · 共享运行日志"@, RootBase::Roaming, "Tencent/Logs"@, RiskLevel::Low, (0, seq![], seq![], seq![]), None, Some(ProcessGuard::Qq)),
        ("qq-temp"@, "QQ 缓存"@, "QQ · 发送暂存目录"@, RootBase::Roaming, "Tencent/QQ/STemp"@, RiskLevel::Low, (0, seq![], seq![], seq![]), None, Some(ProcessGuard::Qq)),
        ("qqlive-cache"@, "QQ 缓存"@, "腾讯视频 · 网页内核缓存"@, RootBase::Roaming, "Tencent/QQLive/Webkit3/Cache"@, RiskLevel::Low, (0, seq![], seq![], seq![]), None, Some(ProcessGuard::Qq)),
        ("wemeet-logs"@, "QQ 缓存"@, "腾讯会议 · 运行日志"@, RootBase::Roaming, "Tencent/WeMeet/Global/Logs"@, RiskLevel::Low, (0, seq![], seq![], seq![]), None, Some(ProcessGuard::Qq)),
        ("wegame-core-cache"@, "QQ 缓存"@, "WeGame · 核心缓存"@, RootBase::Roaming, "Tencent/WeGame"@, RiskLevel::Low, (2, seq![], seq![], seq!["cache"@]), None, Some(ProcessGuard::Qq)),
        ("tenio-download-cache"@, "QQ 缓存"@, "腾讯下载组件 · 缓存"@, RootBase::Roaming, "Tencent/TenioDL"@, RiskLevel::Low, (2, seq![], seq![], seq!["cache"@]), None, Some(ProcessGuard::Qq)),
    ]
}

/// WeChat's cache and diagnostic rules below the local root.
pub open spec fn wechat_local_table() -> Seq<RuleShape> {
    seq![
        ("wechat-local-wechat-cache"@, "微信运行缓存"@, "微信 · 网络缓存"@, RootBase::Local, "Tencent/WeChat/Cache"@, RiskLevel::Low, (0, seq![], seq![], seq![]), None, Some(ProcessGuard::WeChat)),
        ("wechat-local-wechat-code-cache"@, "微信运行缓存"@, "微信 · 代码缓存"@, RootBase::Local, "Tencent/WeChat/Code Cache"@, RiskLevel::Low, (0, seq![], seq![], seq![]), None, Some(ProcessGuard::WeChat)),
        ("wechat-local-wechat-gpu-cache"@, "微信运行缓存"@, "微信 · 图形缓存"@, RootBase::Local, "Tencent/WeChat/GPUCache"@, RiskLevel::Low, (0, seq![], seq![], seq![]), None, Some(ProcessGuard::WeChat)),
        ("wechat-local-wechat-log"@, "微信诊断数据"@, "微信 · 运行日志"@, RootBase::Local, "Tencent/WeChat/Log"@, RiskLevel::Low, (0, seq![], seq![], seq![]), None, Some(ProcessGuard::WeChat)),
        ("wechat-local-wechat-logs"@, "微信诊断数据"@, "微信 · 运行日志"@, RootBase::Local, "Tencent/WeChat/Logs"@, RiskLevel::Low, (0, seq![], seq![], seq![]), None, Some(ProcessGuard::WeChat)),
        ("wechat-local-wechat-crash-reports"@, "微信诊断数据"@, "微信 · 崩溃报告"@, RootBase::Local, "Tencent/WeChat/Crashpad/reports"@, RiskLevel::Low, (0, seq![], seq![], seq![]), None, Some(ProcessGuard::WeChat)),
        ("wechat-local-weixin-cache"@, "微信运行缓存"@, "微信 4.x · 网络缓存"@, RootBase::Local, "Tencent/Weixin/Cache"@, RiskLevel::Low, (0, seq![], seq![], seq![]), None, Some(ProcessGuard::WeChat)),
        ("wechat-local-weixin-code-cache"@, "微信运行缓存"@, "微信 4.x · 代码缓存"@, RootBase::Local, "Tencent/Weixin/Code Cache"@, RiskLevel::Low, (0, seq![], seq![], seq![]), None, Some(ProcessGuard::WeChat)),
        ("wechat-local-weixin-gpu-cache"@, "微信运行缓存"@, "微信 4.x · 图形缓存"@, RootBase::Local, "Tencent/Weixin/GPUCache"@, RiskLevel::Low, (0, seq![], seq![], seq![]), None, Some(ProcessGuard::WeChat)),
        ("wechat-local-weixin-log"@, "微信诊断数据"@, "微信 4.x · 运行日志"@, RootBase::Local, "Tencent/Weixin/Log"@, RiskLevel::Low, (0, seq![], seq![], seq![]), None, Some(ProcessGuard::WeChat)),
        ("wechat-local-weixin-logs"@, "微信诊断数据"@, "微信 4.x · 运行日志"@, RootBase::Local, "Tencent/Weixin/Logs"@, RiskLevel::Low, (0, seq![], seq![], seq![]), None, Some(ProcessGuard::WeChat)),
        ("wechat-local-weixin-crash-reports"@, "微信诊断数据"@, "微信 4.x · 崩溃报告"@, RootBase::Local, "Tencent/Weixin/Crashpad/reports"@, RiskLevel::Low, (0, seq![], seq![], seq![]), None, Some(ProcessGuard::WeChat)),
        ("wechat-local-xwechat-cache"@, "微信运行缓存"@, "微信 4.x · 网络缓存"@, RootBase::Local, "Tencent/xwechat/Cache"@, RiskLevel::Low, (0, seq![], seq![], seq![]), None, Some(ProcessGuard::WeChat)),
        ("wechat-local-xwechat-code-cache"@, "微信运行缓存"@, "微信 4.x · 代码缓存"@, RootBase::Local, "Tencent/xwechat/Code Cache"@, RiskLevel::Low, (0, seq![], seq![], seq![]), None, Some(ProcessGuard::WeChat)),
        ("wechat-local-xwechat-gpu-cache"@, "微信运行缓存"@, "微信 4.x · 图形缓存"@, RootBase::Local, "Tencent/xwechat/GPUCache"@, RiskLevel::Low, (0, seq![], seq![], seq![]), None, Some(ProcessGuard::WeChat)),
        ("wechat-local-xwechat-log"@, "微信诊断数据"@, "微信 4.x · 运行日志"@, RootBase::Local, "Tencent/xwechat/Log"@, RiskLevel::Low, (0, seq![], seq![], seq![]), None, Some(ProcessGuard::WeChat)),
        ("wechat-local-xwechat-logs"@, "微信诊断数据"@, "微信 4.x · 运行日志"@, RootBase::Local, "Tencent/xwechat/Logs"@, RiskLevel::Low, (0, seq![], seq![], seq![]), None, Some(ProcessGuard::WeChat)),
        ("wechat-local-xwechat-crash-reports"@, "微信诊断数据"@, "微信 4.x · 崩溃报告"@, RootBase::Local, "Tencent/xwechat/Crashpad/reports"@, RiskLevel::Low, (0, seq![], seq![], seq![]), None, Some(ProcessGuard::WeChat)),
    ]
}

/// WeChat's cache and diagnostic rules below the roaming root.
pub open spec fn wechat_roaming_table() -> Seq<RuleShape> {
    seq![
        ("wechat-roaming-wechat-cache"@, "微信运行缓存"@, "微信 · 网络缓存"@, RootBase::Roaming, "Tencent/WeChat/Cache"@, RiskLevel::Low, (0, seq![], seq![], seq![]), None, Some(ProcessGuard::WeChat)),
        ("wechat-roaming-wechat-code-cache"@, "微信运行缓存"@, "微信 · 代码缓存"@, RootBase::Roaming, "Tencent/WeChat/Code Cache"@, RiskLevel::Low, (0, seq![], seq![], seq![]), None, Some(ProcessGuard::WeChat)),
        ("wechat-roaming-wechat-gpu-cache"@, "微信运行缓存"@, "微信 · 图形缓存"@, RootBase::Roaming, "Tencent/WeChat/GPUCache"@, RiskLevel::Low, (0, seq![], seq![], seq![]), None, Some(ProcessGuard::WeChat)),
        ("wechat-roaming-wechat-log"@, "微信诊断数据"@, "微信 · 运行日志"@, RootBase::Roaming, "Tencent/WeChat/Log"@, RiskLevel::Low, (0, seq![], seq![], seq![]), None, Some(ProcessGuard::WeChat)),
        ("wechat-roaming-wechat-logs"@, "微信诊断数据"@, "微信 · 运行日志"@, RootBase::Roaming, "Tencent/WeChat/Logs"@, RiskLevel::Low, (0, seq![], seq![], seq![]), None, Some(ProcessGuard::WeChat)),
        ("wechat-roaming-wechat-crash-reports"@, "微信诊断数据"@, "微信 · 崩溃报告"@, RootBase::Roaming, "Tencent/WeChat/Crashpad/reports"@, RiskLevel::Low, (0, seq![], seq![], seq![]), None, Some(ProcessGuard::WeChat)),
        ("wechat-roaming-weixin-cache"@, "微信运行缓存"@, "微信 4.x · 网络缓存"@, RootBase::Roaming, "Tencent/Weixin/Cache"@, RiskLevel::Low, (0, seq![], seq![], seq![]), None, Some(ProcessGuard::WeChat)),
        ("wechat-roaming-weixin-code-cache"@, "微信运行缓存"@, "微信 4.x · 代码缓存"@, RootBase::Roaming, "Tencent/Weixin/Code Cache"@, RiskLevel::Low, (0, seq![], seq![], seq![]), None, Some(ProcessGuard::WeChat)),
        ("wechat-roaming-weixin-gpu-cache"@, "微信运行缓存"@, "微信 4.x · 图形缓存"@, RootBase::Roaming, "Tencent/Weixin/GPUCache"@, RiskLevel::Low, (0, seq![], seq![], seq![]), None, Some(ProcessGuard::WeChat)),
        ("wechat-roaming-weixin-log"@, "微信诊断数据"@, "微信 4.x · 运行日志"@, RootBase::Roaming, "Tencent/Weixin/Log"@, RiskLevel::Low, (0, seq![], seq![], seq![]), None, Some(ProcessGuard::WeChat)),
        ("wechat-roaming-weixin-logs"@, "微信诊断数据"@, "微信 4.x · 运行日志"@, RootBase::Roaming, "Tencent/Weixin/Logs"@, RiskLevel::Low, (0, seq![], seq![], seq![]), None, Some(ProcessGuard::WeChat)),
        ("wechat-roaming-weixin-crash-reports"@, "微信诊断数据"@, "微信 4.x · 崩溃报告"@, RootBase::Roaming, "Tencent/Weixin/Crashpad/reports"@, RiskLevel::Low, (0, seq![], seq![], seq![]), None, Some(ProcessGuard::WeChat)),
        ("wechat-roaming-xwechat-cache"@, "微信运行缓存"@, "微信 4.x · 网络缓存"@, RootBase::Roaming, "Tencent/xwechat/Cache"@, RiskLevel::Low, (0, seq![], seq![], seq![]), None, Some(ProcessGuard::WeChat)),
        ("wechat-roaming-xwechat-code-cache"@, "微信运行缓存"@, "微信 4.x · 代码缓存"@, RootBase::Roaming, "Tencent/xwechat/Code Cache"@, RiskLevel::Low, (0, seq![], seq![], seq![]), None, Some(ProcessGuard::WeChat)),
        ("wechat-roaming-xwechat-gpu-cache"@, "微信运行缓存"@, "微信 4.x · 图形缓存"@, RootBase::Roaming, "Tencent/xwechat/GPUCache"@, RiskLevel::Low, (0, seq![], seq![], seq![]), None, Some(ProcessGuard::WeChat)),
        ("wechat-roaming-xwechat-log"@, "微信诊断数据"@, "微信 4.x · 运行日志"@, RootBase::Roaming, "Tencent/xwechat/Log"@, RiskLevel::Low, (0, seq![], seq![], seq![]), None, Some(ProcessGuard::WeChat)),
        ("wechat-roaming-xwechat-logs"@, "微信诊断数据"@, "微信 4.x · 运行日志"@, RootBase::Roaming, "Tencent/xwechat/Logs"@, RiskLevel::Low, (0, seq![], seq![], seq![]), None, Some(ProcessGuard::WeChat)),
        ("wechat-roaming-xwechat-crash-reports"@, "微信诊断数据"@, "微信 4.x · 崩溃报告"@, RootBase::Roaming, "Tencent/xwechat/Crashpad/reports"@, RiskLevel::Low, (0, seq![], seq![], seq![]), None, Some(ProcessGuard::WeChat)),
    ]
}

/// Every fixed rule, in the order in which the rule set lists them.
pub open spec fn fixed_rule_table() -> Seq<RuleShape> {
    system_cache_table() + application_cache_table() + developer_cache_table() + system_junk_table() + qq_table()
        + wechat_local_table() + wechat_roaming_table()
}

fn push_rule(
    rules: &mut Vec<Rule>,
    id: &str,
    category: &'static str,
    name: &str,
    base: RootBase,
    relative: &str,
    matcher: FileMatcher,
    minimum_age_secs: Option<u64>,
    process_guard: Option<ProcessGuard>,
)
    requires
        process_guard == Some(ProcessGuard::WeChat) ==> ((base == RootBase::Local || base
            == RootBase::Roaming) && matcher == FileMatcher::AllFilesRecursive),
    ensures
        final(rules)@.len() == old(rules)@.len() + 1,
        forall|k: int| 0 <= k < old(rules)@.len() ==> #[trigger] final(rules)@[k] == old(rules)@[k],
        final(rules)@.last().id@ == id@,
        final(rules)@.last().category == category,
        final(rules)@.last().name@ == name@,
        final(rules)@.last().base == base,
        final(rules)@.last().relative@ == relative@,
        final(rules)@.last().matcher == matcher,
        final(rules)@.last().minimum_age_secs == minimum_age_secs,
        final(rules)@.last().process_guard == process_guard,
        regenerable(final(rules)@.last()),
        rule_shapes(final(rules)@) == rule_shapes(old(rules)@).push((id@, category@, name@, base, relative@, RiskLevel::Low, matcher_shape(matcher), minimum_age_secs, process_guard)),
        wechat_count(final(rules)@) == wechat_count(old(rules)@) + if process_guard == Some(
            ProcessGuard::WeChat,
        ) {
            1nat
        } else {
            0nat
        },
{
    let rule = Rule {
        id: id.to_string(),
        category,
        name: name.to_string(),
        base,
        relative: relative.to_string(),
        risk: RiskLevel::Low,
        matcher,
        minimum_age_secs,
        process_guard,
    };
    proof {
        lemma_wechat_count_push(rules@, rule);
        lemma_rule_shapes_push(rules@, rule);
    }
    rules.push(rule);
}

/// Temporary files older than three days and Explorer's thumbnail databases.
fn add_system_cache_rules(rules: &mut Vec<Rule>)
    ensures
        rule_shapes(final(rules)@) == rule_shapes(old(rules)@) + system_cache_table(),
        final(rules)@.len() > old(rules)@.len(),
        forall|k: int| 0 <= k < old(rules)@.len() ==> #[trigger] final(rules)@[k] == old(rules)@[k],
        forall|k: int| old(rules)@.len() <= k < final(rules)@.len() ==> #[trigger] regenerable(final(rules)@[k]),
        wechat_count(final(rules)@) == wechat_count(old(rules)@) + 0,
{
    push_rule(rules, "temp", "系统缓存", "临时文件", RootBase::Local, "Temp", FileMatcher::AllFilesRecursive, Some(259200), None);
    push_rule(rules, "thumbs", "系统缓存", "缩略图缓存", RootBase::Local, "Microsoft/Windows/Explorer", FileMatcher::RootFileName { prefix: "thumbcache_", suffix: ".db" }, None, None);
    assert(rule_shapes(rules@) =~= rule_shapes(old(rules)@) + system_cache_table());
}

/// The Electron caches of Visual Studio Code, Discord and Figma, each guarded by its application.
fn add_application_cache_rules(rules: &mut Vec<Rule>)
    ensures
        rule_shapes(final(rules)@) == rule_shapes(old(rules)@) + application_cache_table(),
        final(rules)@.len() > old(rules)@.len(),
        forall|k: int| 0 <= k < old(rules)@.len() ==> #[trigger] final(rules)@[k] == old(rules)@[k],
        forall|k: int| old(rules)@.len() <= k < final(rules)@.len() ==> #[trigger] regenerable(final(rules)@[k]),
        wechat_count(final(rules)@) == wechat_count(old(rules)@) + 0,
{
    push_rule(rules, "vscode-cache", "应用缓存", "Visual Studio Code · Cache", RootBase::Roaming, "Code/Cache", FileMatcher::AllFilesRecursive, None, Some(ProcessGuard::VsCode));
    push_rule(rules, "vscode-code-cache", "应用缓存", "Visual Studio Code · Code Cache", RootBase::Roaming, "Code/Code Cache", FileMatcher::AllFilesRecursive, None, Some(ProcessGuard::VsCode));
    push_rule(rules, "vscode-gpu-cache", "应用缓存", "Visual Studio Code · GPUCache", RootBase::Roaming, "Code/GPUCache", FileMatcher::AllFilesRecursive, None, Some(ProcessGuard::VsCode));
    push_rule(rules, "discord-cache", "应用缓存", "Discord · Cache", RootBase::Roaming, "discord/Cache", FileMatcher::AllFilesRecursive, None, Some(ProcessGuard::Discord));
    push_rule(rules, "discord-code-cache", "应用缓存", "Discord · Code Cache", RootBase::Roaming, "discord/Code Cache", FileMatcher::AllFilesRecursive, None, Some(ProcessGuard::Discord));
    push_rule(rules, "discord-gpu-cache", "应用缓存", "Discord · GPUCache", RootBase::Roaming, "discord/GPUCache", FileMatcher::AllFilesRecursive, None, Some(ProcessGuard::Discord));
    push_rule(rules, "figma-cache", "应用缓存", "Figma · Cache", RootBase::Roaming, "Figma/Cache", FileMatcher::AllFilesRecursive, None, Some(ProcessGuard::Figma));
    push_rule(rules, "figma-code-cache", "应用缓存", "Figma · Code Cache", RootBase::Roaming, "Figma/Code Cache", FileMatcher::AllFilesRecursive, None, Some(ProcessGuard::Figma));
    push_rule(rules, "figma-gpu-cache", "应用缓存", "Figma · GPUCache", RootBase::Roaming, "Figma/GPUCache", FileMatcher::AllFilesRecursive, None, Some(ProcessGuard::Figma));
    assert(rule_shapes(rules@) =~= rule_shapes(old(rules)@) + application_cache_table());
}

/// Package-manager caches that their tools refill on demand; never a tool's root, never the pnpm store.
fn add_developer_cache_rules(rules: &mut Vec<Rule>)
    ensures
        rule_shapes(final(rules)@) == rule_shapes(old(rules)@) + developer_cache_table(),
        final(rules)@.len() > old(rules)@.len(),
        forall|k: int| 0 <= k < old(rules)@.len() ==> #[trigger] final(rules)@[k] == old(rules)@[k],
        forall|k: int| old(rules)@.len() <= k < final(rules)@.len() ==> #[trigger] regenerable(final(rules)@[k]),
        wechat_count(final(rules)@) == wechat_count(old(rules)@) + 0,
{
    push_rule(rules, "npm-cache-content", "开发者缓存", "npm · 包内容缓存", RootBase::Local, "npm-cache/_cacache/content-v2", FileMatcher::AllFilesRecursive, None, None);
    push_rule(rules, "npm-cache-index", "开发者缓存", "npm · 包索引缓存", RootBase::Local, "npm-cache/_cacache/index-v5", FileMatcher::AllFilesRecursive, None, None);
    push_rule(rules, "pip-http-cache", "开发者缓存", "pip · 下载缓存", RootBase::Local, "pip/cache/http-v2", FileMatcher::AllFilesRecursive, None, None);
    push_rule(rules, "pip-wheel-cache", "开发者缓存", "pip · 构建 wheel 缓存", RootBase::Local, "pip/cache/wheels", FileMatcher::AllFilesRecursive, None, None);
    push_rule(rules, "cargo-registry-cache", "开发者缓存", "Cargo · crate 归档缓存", RootBase::Home, ".cargo/registry/cache", FileMatcher::AllFilesRecursive, None, None);
    push_rule(rules, "cargo-registry-src", "开发者缓存", "Cargo · crate 解压源码", RootBase::Home, ".cargo/registry/src", FileMatcher::AllFilesRecursive, None, None);
    push_rule(rules, "gradle-cache", "开发者缓存", "Gradle · 构建缓存", RootBase::Home, ".gradle/caches", FileMatcher::AllFilesRecursive, None, None);
    push_rule(rules, "maven-repository", "开发者缓存", "Maven · 本地仓库", RootBase::Home, ".m2/repository", FileMatcher::AllFilesRecursive, None, None);
    assert(rule_shapes(rules@) =~= rule_shapes(old(rules)@) + developer_cache_table());
}

/// User-writable Windows diagnostic and cache locations.
fn add_system_junk_rules(rules: &mut Vec<Rule>)
    ensures
        rule_shapes(final(rules)@) == rule_shapes(old(rules)@) + system_junk_table(),
        final(rules)@.len() > old(rules)@.len(),
        forall|k: int| 0 <= k < old(rules)@.len() ==> #[trigger] final(rules)@[k] == old(rules)@[k],
        forall|k: int| old(rules)@.len() <= k < final(rules)@.len() ==> #[trigger] regenerable(final(rules)@[k]),
        wechat_count(final(rules)@) == wechat_count(old(rules)@) + 0,
{
    push_rule(rules, "system-crash-dumps", "系统垃圾", "Windows · 应用崩溃转储", RootBase::Local, "CrashDumps", FileMatcher::AllFilesRecursive, None, None);
    push_rule(rules, "system-wer-reports", "系统垃圾", "Windows · 错误报告存档", RootBase::Local, "Microsoft/Windows/WER", FileMatcher::AllFilesRecursive, None, None);
    push_rule(rules, "system-inet-cache", "系统垃圾", "Windows · 联网组件缓存", RootBase::Local, "Microsoft/Windows/INetCache", FileMatcher::AllFilesRecursive, None, None);
    push_rule(rules, "system-shader-cache", "系统垃圾", "Windows · D3D 着色器缓存", RootBase::Local, "D3DSCache", FileMatcher::AllFilesRecursive, None, None);
    push_rule(rules, "system-component-cache", "系统垃圾", "Windows · 组件图标缓存", RootBase::Local, "Microsoft/Windows/Caches", FileMatcher::AllFilesRecursive, None, None);
    assert(rule_shapes(rules@) =~= rule_shapes(old(rules)@) + system_junk_table());
}

/// Tencent caches and logs; versioned caches match only files below a `cache` directory.
fn add_qq_rules(rules: &mut Vec<Rule>)
    ensures
        rule_shapes(final(rules)@) == rule_shapes(old(rules)@) + qq_table(),
        final(rules)@.len() > old(rules)@.len(),
        forall|k: int| 0 <= k < old(rules)@.len() ==> #[trigger] final(rules)@[k] == old(rules)@[k],
        forall|k: int| old(rules)@.len() <= k < final(rules)@.len() ==> #[trigger] regenerable(final(rules)@[k]),
        wechat_count(final(rules)@) == wechat_count(old(rules)@) + 0,
{
    push_rule(rules, "qq-shared-logs", "QQ 缓存", "腾讯 · 共享运行日志", RootBase::Roaming, "Tencent/Logs", FileMatcher::AllFilesRecursive, None, Some(ProcessGuard::Qq));
    push_rule(rules, "qq-temp", "QQ 缓存", "QQ · 发送暂存目录", RootBase::Roaming, "Tencent/QQ/STemp", FileMatcher::AllFilesRecursive, None, Some(ProcessGuard::Qq));
    push_rule(rules, "qqlive-cache", "QQ 缓存", "腾讯视频 · 网页内核缓存", RootBase::Roaming, "Tencent/QQLive/Webkit3/Cache", FileMatcher::AllFilesRecursive, None, Some(ProcessGuard::Qq));
    push_rule(rules, "wemeet-logs", "QQ 缓存", "腾讯会议 · 运行日志", RootBase::Roaming, "Tencent/WeMeet/Global/Logs", FileMatcher::AllFilesRecursive, None, Some(ProcessGuard::Qq));
    let names = vec!["cache"];
    assert(names@ == seq!["cache"]);
    assert(texts_of(names@) =~= seq!["cache"@]);
    push_rule(rules, "wegame-core-cache", "QQ 缓存", "WeGame · 核心缓存", RootBase::Roaming, "Tencent/WeGame", FileMatcher::DescendantDirectoryName { names: names }, None, Some(ProcessGuard::Qq));
    let names = vec!["cache"];
    assert(names@ == seq!["cache"]);
    assert(texts_of(names@) =~= seq!["cache"@]);
    push_rule(rules, "tenio-download-cache", "QQ 缓存", "腾讯下载组件 · 缓存", RootBase::Roaming, "Tencent/TenioDL", FileMatcher::DescendantDirectoryName { names: names }, None, Some(ProcessGuard::Qq));
    assert(rule_shapes(rules@) =~= rule_shapes(old(rules)@) + qq_table());
}

/// WeChat's regenerable caches and diagnostics below the local root, for each installation.
fn add_wechat_local_rules(rules: &mut Vec<Rule>)
    ensures
        rule_shapes(final(rules)@) == rule_shapes(old(rules)@) + wechat_local_table(),
        final(rules)@.len() > old(rules)@.len(),
        forall|k: int| 0 <= k < old(rules)@.len() ==> #[trigger] final(rules)@[k] == old(rules)@[k],
        forall|k: int| old(rules)@.len() <= k < final(rules)@.len() ==> #[trigger] regenerable(final(rules)@[k]),
        wechat_count(final(rules)@) == wechat_count(old(rules)@) + 18,
{
    push_rule(rules, "wechat-local-wechat-cache", "微信运行缓存", "微信 · 网络缓存", RootBase::Local, "Tencent/WeChat/Cache", FileMatcher::AllFilesRecursive, None, Some(ProcessGuard::WeChat));
    push_rule(rules, "wechat-local-wechat-code-cache", "微信运行缓存", "微信 · 代码缓存", RootBase::Local, "Tencent/WeChat/Code Cache", FileMatcher::AllFilesRecursive, None, Some(ProcessGuard::WeChat));
    push_rule(rules, "wechat-local-wechat-gpu-cache", "微信运行缓存", "微信 · 图形缓存", RootBase::Local, "Tencent/WeChat/GPUCache", FileMatcher::AllFilesRecursive, None, Some(ProcessGuard::WeChat));
    push_rule(rules, "wechat-local-wechat-log", "微信诊断数据", "微信 · 运行日志", RootBase::Local, "Tencent/WeChat/Log", FileMatcher::AllFilesRecursive, None, Some(ProcessGuard::WeChat));
    push_rule(rules, "wechat-local-wechat-logs", "微信诊断数据", "微信 · 运行日志", RootBase::Local, "Tencent/WeChat/Logs", FileMatcher::AllFilesRecursive, None, Some(ProcessGuard::WeChat));
    push_rule(rules, "wechat-local-wechat-crash-reports", "微信诊断数据", "微信 · 崩溃报告", RootBase::Local, "Tencent/WeChat/Crashpad/reports", FileMatcher::AllFilesRecursive, None, Some(ProcessGuard::WeChat));
    push_rule(rules, "wechat-local-weixin-cache", "微信运行缓存", "微信 4.x · 网络缓存", RootBase::Local, "Tencent/Weixin/Cache", FileMatcher::AllFilesRecursive, None, Some(ProcessGuard::WeChat));
    push_rule(rules, "wechat-local-weixin-code-cache", "微信运行缓存", "微信 4.x · 代码缓存", RootBase::Local, "Tencent/Weixin/Code Cache", FileMatcher::AllFilesRecursive, None, Some(ProcessGuard::WeChat));
    push_rule(rules, "wechat-local-weixin-gpu-cache", "微信运行缓存", "微信 4.x · 图形缓存", RootBase::Local, "Tencent/Weixin/GPUCache", FileMatcher::AllFilesRecursive, None, Some(ProcessGuard::WeChat));
    push_rule(rules, "wechat-local-weixin-log", "微信诊断数据", "微信 4.x · 运行日志", RootBase::Local, "Tencent/Weixin/Log", FileMatcher::AllFilesRecursive, None, Some(ProcessGuard::WeChat));
    push_rule(rules, "wechat-local-weixin-logs", "微信诊断数据", "微信 4.x · 运行日志", RootBase::Local, "Tencent/Weixin/Logs", FileMatcher::AllFilesRecursive, None, Some(ProcessGuard::WeChat));
    push_rule(rules, "wechat-local-weixin-crash-reports", "微信诊断数据", "微信 4.x · 崩溃报告", RootBase::Local, "Tencent/Weixin/Crashpad/reports", FileMatcher::AllFilesRecursive, None, Some(ProcessGuard::WeChat));
    push_rule(rules, "wechat-local-xwechat-cache", "微信运行缓存", "微信 4.x · 网络缓存", RootBase::Local, "Tencent/xwechat/Cache", FileMatcher::AllFilesRecursive, None, Some(ProcessGuard::WeChat));
    push_rule(rules, "wechat-local-xwechat-code-cache", "微信运行缓存", "微信 4.x · 代码缓存", RootBase::Local, "Tencent/xwechat/Code Cache", FileMatcher::AllFilesRecursive, None, Some(ProcessGuard::WeChat));
    push_rule(rules, "wechat-local-xwechat-gpu-cache", "微信运行缓存", "微信 4.x · 图形缓存", RootBase::Local, "Tencent/xwechat/GPUCache", FileMatcher::AllFilesRecursive, None, Some(ProcessGuard::WeChat));
    push_rule(rules, "wechat-local-xwechat-log", "微信诊断数据", "微信 4.x · 运行日志", RootBase::Local, "Tencent/xwechat/Log", FileMatcher::AllFilesRecursive, None, Some(ProcessGuard::WeChat));
    push_rule(rules, "wechat-local-xwechat-logs", "微信诊断数据", "微信 4.x · 运行日志", RootBase::Local, "Tencent/xwechat/Logs", FileMatcher::AllFilesRecursive, None, Some(ProcessGuard::WeChat));
    push_rule(rules, "wechat-local-xwechat-crash-reports", "微信诊断数据", "微信 4.x · 崩溃报告", RootBase::Local, "Tencent/xwechat/Crashpad/reports", FileMatcher::AllFilesRecursive, None, Some(ProcessGuard::WeChat));
    assert(rule_shapes(rules@) =~= rule_shapes(old(rules)@) + wechat_local_table());
}

/// WeChat's regenerable caches and diagnostics below the roaming root, for each installation.
fn add_wechat_roaming_rules(rules: &mut Vec<Rule>)
    ensures
        rule_shapes(final(rules)@) == rule_shapes(old(rules)@) + wechat_roaming_table(),
        final(rules)@.len() > old(rules)@.len(),
        forall|k: int| 0 <= k < old(rules)@.len() ==> #[trigger] final(rules)@[k] == old(rules)@[k],
        forall|k: int| old(rules)@.len() <= k < final(rules)@.len() ==> #[trigger] regenerable(final(rules)@[k]),
        wechat_count(final(rules)@) == wechat_count(old(rules)@) + 18,
{
    push_rule(rules, "wechat-roaming-wechat-cache", "微信运行缓存", "微信 · 网络缓存", RootBase::Roaming, "Tencent/WeChat/Cache", FileMatcher::AllFilesRecursive, None, Some(ProcessGuard::WeChat));
    push_rule(rules, "wechat-roaming-wechat-code-cache", "微信运行缓存", "微信 · 代码缓存", RootBase::Roaming, "Tencent/WeChat/Code Cache", FileMatcher::AllFilesRecursive, None, Some(ProcessGuard::WeChat));
    push_rule(rules, "wechat-roaming-wechat-gpu-cache", "微信运行缓存", "微信 · 图形缓存", RootBase::Roaming, "Tencent/WeChat/GPUCache", FileMatcher::AllFilesRecursive, None, Some(ProcessGuard::WeChat));
    push_rule(rules, "wechat-roaming-wechat-log", "微信诊断数据", "微信 · 运行日志", RootBase::Roaming, "Tencent/WeChat/Log", FileMatcher::AllFilesRecursive, None, Some(ProcessGuard::WeChat));
    push_rule(rules, "wechat-roaming-wechat-logs", "微信诊断数据", "微信 · 运行日志", RootBase::Roaming, "Tencent/WeChat/Logs", FileMatcher::AllFilesRecursive, None, Some(ProcessGuard::WeChat));
    push_rule(rules, "wechat-roaming-wechat-crash-reports", "微信诊断数据", "微信 · 崩溃报告", RootBase::Roaming, "Tencent/WeChat/Crashpad/reports", FileMatcher::AllFilesRecursive, None, Some(ProcessGuard::WeChat));
    push_rule(rules, "wechat-roaming-weixin-cache", "微信运行缓存", "微信 4.x · 网络缓存", RootBase::Roaming, "Tencent/Weixin/Cache", FileMatcher::AllFilesRecursive, None, Some(ProcessGuard::WeChat));
    push_rule(rules, "wechat-roaming-weixin-code-cache", "微信运行缓存", "微信 4.x · 代码缓存", RootBase::Roaming, "Tencent/Weixin/Code Cache", FileMatcher::AllFilesRecursive, None, Some(ProcessGuard::WeChat));
    push_rule(rules, "wechat-roaming-weixin-gpu-cache", "微信运行缓存", "微信 4.x · 图形缓存", RootBase::Roaming, "Tencent/Weixin/GPUCache", FileMatcher::AllFilesRecursive, None, Some(ProcessGuard::WeChat));
    push_rule(rules, "wechat-roaming-weixin-log", "微信诊断数据", "微信 4.x · 运行日志", RootBase::Roaming, "Tencent/Weixin/Log", FileMatcher::AllFilesRecursive, None, Some(ProcessGuard::WeChat));
    push_rule(rules, "wechat-roaming-weixin-logs", "微信诊断数据", "微信 4.x · 运行日志", RootBase::Roaming, "Tencent/Weixin/Logs", FileMatcher::AllFilesRecursive, None, Some(ProcessGuard::WeChat));
    push_rule(rules, "wechat-roaming-weixin-crash-reports", "微信诊断数据", "微信 4.x · 崩溃报告", RootBase::Roaming, "Tencent/Weixin/Crashpad/reports", FileMatcher::AllFilesRecursive, None, Some(ProcessGuard::WeChat));
    push_rule(rules, "wechat-roaming-xwechat-cache", "微信运行缓存", "微信 4.x · 网络缓存", RootBase::Roaming, "Tencent/xwechat/Cache", FileMatcher::AllFilesRecursive, None, Some(ProcessGuard::WeChat));
    push_rule(rules, "wechat-roaming-xwechat-code-cache", "微信运行缓存", "微信 4.x · 代码缓存", RootBase::Roaming, "Tencent/xwechat/Code Cache", FileMatcher::AllFilesRecursive, None, Some(ProcessGuard::WeChat));
    push_rule(rules, "wechat-roaming-xwechat-gpu-cache", "微信运行缓存", "微信 4.x · 图形缓存", RootBase::Roaming, "Tencent/xwechat/GPUCache", FileMatcher::AllFilesRecursive, None, Some(ProcessGuard::WeChat));
    push_rule(rules, "wechat-roaming-xwechat-log", "微信诊断数据", "微信 4.x · 运行日志", RootBase::Roaming, "Tencent/xwechat/Log", FileMatcher::AllFilesRecursive, None, Some(ProcessGuard::WeChat));
    push_rule(rules, "wechat-roaming-xwechat-logs", "微信诊断数据", "微信 4.x · 运行日志", RootBase::Roaming, "Tencent/xwechat/Logs", FileMatcher::AllFilesRecursive, None, Some(ProcessGuard::WeChat));
    push_rule(rules, "wechat-roaming-xwechat-crash-reports", "微信诊断数据", "微信 4.x · 崩溃报告", RootBase::Roaming, "Tencent/xwechat/Crashpad/reports", FileMatcher::AllFilesRecursive, None, Some(ProcessGuard::WeChat));
    assert(rule_shapes(rules@) =~= rule_shapes(old(rules)@) + wechat_roaming_table());
}


/// How many `/` separators a text holds.
pub open spec fn slash_count(s: Seq<char>) -> nat
    decreases s.len(),
{
    if s.len() == 0 {
        0
    } else {
        slash_count(s.drop_last()) + if s.last() == '/' {
            1nat
        } else {
            0nat
        }
    }
}

/// Whether `path` lies below `root`, at most six directories deep.
pub open spec fn within_six_below(path: Seq<char>, root: Seq<char>) -> bool {
    let prefix = root.push('/');
    path.len() > prefix.len() && path.take(prefix.len() as int) == prefix && slash_count(
        path.skip(prefix.len() as int),
    ) < 6
}

/// Whether a directory named one of `names` (ASCII case ignored) lies at most
/// six levels below `root` in the tree.
pub open spec fn has_named_descendant(tree: DirectoryTree, root: Seq<char>, names: Seq<&'static str>) -> bool {
    exists|i: int, j: int|
        0 <= i < tree.directories@.len() && 0 <= j < names.len() && within_six_below(
            #[trigger] tree.directories@[i]@,
            root,
        ) && eq_ignore_case(last_segment(tree.directories@[i]@), #[trigger] names[j]@)
}

fn count_slashes(s: &Vec<char>, lo: usize) -> (r: usize)
    requires
        lo <= s@.len(),
    ensures
        r == slash_count(s@.skip(lo as int)),
{
    let mut count: usize = 0;
    let mut i: usize = lo;
    while i < s.len()
        invariant
            lo <= i <= s@.len(),
            count == slash_count(s@.subrange(lo as int, i as int)),
            count <= i - lo,
        decreases s@.len() - i,
    {
        assert(s@.subrange(lo as int, i + 1).drop_last() =~= s@.subrange(lo as int, i as int));
        if s[i] == '/' {
            count = count + 1;
        }
        i = i + 1;
    }
    assert(s@.subrange(lo as int, s@.len() as int) =~= s@.skip(lo as int));
    count
}


/// Whether a directory named one of `names` lies at most six levels below
/// `root`.
pub fn msg_attach_has_directory(tree: &DirectoryTree, root: &str, names: &Vec<&'static str>) -> (r: bool)
    ensures
        r == has_named_descendant(*tree, root@, names@),
{
    let root_chars = chars_of(root);
    let mut prefix = root_chars.clone();
    prefix.push('/');
    let mut i: usize = 0;
    while i < tree.directories.len()
        invariant
            0 <= i <= tree.directories@.len(),
            prefix@ == root@.push('/'),
            forall|a: int, b: int|
                0 <= a < i && 0 <= b < names@.len() ==> !(within_six_below(
                    #[trigger] tree.directories@[a]@,
                    root@,
                ) && eq_ignore_case(last_segment(tree.directories@[a]@), #[trigger] names@[b]@)),
        decreases tree.directories@.len() - i,
    {
        let path = chars_of(tree.directories[i].as_str());
        let n = path.len();
        let k = prefix.len();
        if n > k {
            let head = slice_chars(&path, 0, k);
            assert(head@ == path@.take(k as int));
            if crate::apps::vec_eq(&head, &prefix) && count_slashes(&path, k) < 6 {
                assert(within_six_below(path@, root@));
                let segment = crate::apps::last_segment_of(&path);
                let mut j: usize = 0;
                while j < names.len()
                    invariant
                        0 <= j <= names@.len(),
                        i < tree.directories@.len(),
                        segment@ == last_segment(path@),
                        path@ == tree.directories@[i as int]@,
                        within_six_below(path@, root@),
                        forall|b: int| 0 <= b < j ==> !eq_ignore_case(segment@, #[trigger] names@[b]@),
                    decreases names@.len() - j,
                {
                    if eq_ignore_case_str(&segment, names[j]) {
                        assert(eq_ignore_case(last_segment(tree.directories@[i as int]@), names@[j as int]@));
                        return true;
                    }
                    j = j + 1;
                }
            }
        }
        i = i + 1;
    }
    false
}

/// The id of a user-data rule: `wechat-user-` (and `x-` for the 4.x client),
/// the account id, `-` and the suffix.
pub open spec fn user_rule_id_spec(account_id: Seq<char>, new_client: bool, suffix: Seq<char>) -> Seq<char> {
    "wechat-user-"@ + (if new_client { "x-"@ } else { seq![] }) + account_id + "-"@ + suffix
}

/// The name of a user-data rule: the product, the account and what the data is.
pub open spec fn user_rule_name_spec(new_client: bool, account: Seq<char>, label: Seq<char>) -> Seq<char> {
    (if new_client { "微信 4.x · "@ } else { "微信 · "@ }) + account + " · "@ + label
}

/// A user-data rule id: `wechat-user-` (and `x-` for the 4.x client), the
/// account id, `-` and the suffix.
fn user_rule_id(account_id: &String, new_client: bool, suffix: &str) -> (r: String)
    ensures
        r@ == user_rule_id_spec(account_id@, new_client, suffix@),
        starts_with(r@, "wechat-user-"@),
{
    let mut id = "wechat-user-".to_string();
    let ghost head = id@;
    if new_client {
        id.append("x-");
    }
    id.append(account_id.as_str());
    id.append("-");
    id.append(suffix);
    assert(id@.take(head.len() as int) =~= head);
    assert(id@ =~= user_rule_id_spec(account_id@, new_client, suffix@));
    id
}

/// A user-data rule name: the product, the account and what the data is.
fn user_rule_name(new_client: bool, account: &str, label: &str) -> (r: String)
    ensures
        r@ == user_rule_name_spec(new_client, account@, label@),
{
    let mut name = if new_client {
        "微信 4.x · ".to_string()
    } else {
        "微信 · ".to_string()
    };
    name.append(account);
    name.append(" · ");
    name.append(label);
    assert(name@ =~= user_rule_name_spec(new_client, account@, label@));
    name
}

fn push_user_rule(rules: &mut Vec<Rule>, id: String, category: &'static str, name: String, new_client: bool, relative: String, matcher: FileMatcher)
    requires
        starts_with(id@, "wechat-user-"@),
    ensures
        final(rules)@ == old(rules)@.push(final(rules)@.last()),
        user_data_rule(final(rules)@.last()),
        rule_shape(final(rules)@.last()) == (id@, category@, name@, user_base(new_client), relative@, RiskLevel::High, matcher_shape(matcher), None::<u64>, Some(ProcessGuard::WeChat)),
{
    let base = if new_client {
        RootBase::XWeChatData
    } else {
        RootBase::WeChatDocuments
    };
    rules.push(Rule {
        id,
        category,
        name,
        base,
        relative,
        risk: RiskLevel::High,
        matcher,
        minimum_age_secs: None,
        process_guard: Some(ProcessGuard::WeChat),
    });
}

/// Adds the rule for one explicit user-data directory of an account, when that
/// directory is present.
fn add_user_directory_rule(
    rules: &mut Vec<Rule>,
    tree: &DirectoryTree,
    account_id: &String,
    new_client: bool,
    suffix: &str,
    category: &'static str,
    account: &str,
    label: &str,
    account_relative: &str,
    directory: &str,
)
    ensures
        rule_shapes(final(rules)@) == rule_shapes(old(rules)@) + user_directory_rule(*tree, account_id@, new_client, suffix@, category@, account@, label@, account_relative@, directory@),
        final(rules)@.len() >= old(rules)@.len(),
        forall|k: int| 0 <= k < old(rules)@.len() ==> #[trigger] final(rules)@[k] == old(rules)@[k],
        forall|k: int| old(rules)@.len() <= k < final(rules)@.len() ==> #[trigger] user_data_rule(final(rules)@[k]),
{
    let relative = join_path(account_relative, directory);
    if !tree.has_directory(relative.as_str()) {
        assert(rule_shapes(rules@) + seq![] =~= rule_shapes(rules@));
        return;
    }
    let id = user_rule_id(account_id, new_client, suffix);
    let name = user_rule_name(new_client, account, label);
    let ghost before = rules@;
    push_user_rule(rules, id, category, name, new_client, relative, FileMatcher::AllFilesRecursive);
    proof {
        lemma_rule_shapes_push(before, rules@.last());
    }
}

/// Adds the rule for the attachments of one kind below an account's attachment
/// directory, when a directory of that kind exists there.
fn add_attachment_rule(
    rules: &mut Vec<Rule>,
    tree: &DirectoryTree,
    account_id: &String,
    new_client: bool,
    suffix: &str,
    category: &'static str,
    account: &str,
    label: &str,
    attach_relative: &str,
    names: Vec<&'static str>,
)
    ensures
        rule_shapes(final(rules)@) == rule_shapes(old(rules)@) + attachment_rule(*tree, account_id@, new_client, suffix@, category@, account@, label@, attach_relative@, names@),
        final(rules)@.len() >= old(rules)@.len(),
        forall|k: int| 0 <= k < old(rules)@.len() ==> #[trigger] final(rules)@[k] == old(rules)@[k],
        forall|k: int| old(rules)@.len() <= k < final(rules)@.len() ==> #[trigger] user_data_rule(final(rules)@[k]),
{
    if !tree.has_directory(attach_relative) || !msg_attach_has_directory(tree, attach_relative, &names) {
        assert(rule_shapes(rules@) + seq![] =~= rule_shapes(rules@));
        return;
    }
    let id = user_rule_id(account_id, new_client, suffix);
    let name = user_rule_name(new_client, account, label);
    let ghost before = rules@;
    let ghost names_view = names@;
    push_user_rule(
        rules,
        id,
        category,
        name,
        new_client,
        attach_relative.to_string(),
        FileMatcher::DescendantDirectoryName { names },
    );
    proof {
        lemma_rule_shapes_push(before, rules@.last());
    }
}

/// Whether a name is one that the classic client keeps beside its accounts:
/// `All Users`, `Applet` or `WMPF`, ASCII case ignored.
pub open spec fn shared_wechat_directory(name: Seq<char>) -> bool {
    eq_ignore_case(name, "All Users"@) || eq_ignore_case(name, "Applet"@) || eq_ignore_case(name, "WMPF"@)
}

/// Whether a name is one that the classic client keeps beside its accounts.
fn is_shared_wechat_directory(name: &str) -> (r: bool)
    ensures
        r == shared_wechat_directory(name@),
{
    let chars = chars_of(name);
    eq_ignore_case_str(&chars, "All Users") || eq_ignore_case_str(&chars, "Applet")
        || eq_ignore_case_str(&chars, "WMPF")
}

proof fn lemma_shapes_concat(start: Seq<RuleShape>, done: Seq<RuleShape>, piece: Seq<RuleShape>)
    ensures
        (start + done) + piece == start + (done + piece),
{
    assert((start + done) + piece =~= start + (done + piece));
}

/// The id by which an account's rules are named: the hexadecimal digits of
/// the UTF-8 encoding of its directory name.
pub open spec fn account_id_spec(account: Seq<char>) -> Seq<char> {
    hex_spec(vstd::utf8::encode_utf8(account))
}

/// The user-data rules of one account directory of the classic client: none
/// for a shared directory or one with neither `Msg` nor `FileStorage`.
pub open spec fn wechat_account_rules(tree: DirectoryTree, account: Seq<char>) -> Seq<RuleShape> {
    let rel = join_spec("WeChat Files"@, account);
    if shared_wechat_directory(account) || (!tree_has(tree, join_spec(rel, "Msg"@)) && !tree_has(tree, join_spec(rel, "FileStorage"@))) {
        seq![]
    } else {
        let id = account_id_spec(account);
        let attach = join_spec(rel, "FileStorage/MsgAttach"@);
        user_directory_rule(tree, id, false, "chat-records"@, "微信聊天记录"@, account, "聊天记录"@, rel, "Msg"@)
            + user_directory_rule(tree, id, false, "images"@, "微信图片"@, account, "聊天图片"@, rel, "FileStorage/Image"@)
            + user_directory_rule(tree, id, false, "videos"@, "微信视频"@, account, "聊天视频"@, rel, "FileStorage/Video"@)
            + user_directory_rule(tree, id, false, "files"@, "微信文件"@, account, "聊天文件"@, rel, "FileStorage/File"@)
            + user_directory_rule(tree, id, false, "favorites"@, "微信收藏"@, account, "收藏内容"@, rel, "FileStorage/Fav"@)
            + user_directory_rule(tree, id, false, "emotions"@, "微信表情"@, account, "自定义表情"@, rel, "FileStorage/CustomEmotion"@)
            + user_directory_rule(tree, id, false, "audio"@, "微信语音"@, account, "语音消息"@, rel, "FileStorage/Audio"@)
            + user_directory_rule(tree, id, false, "voice"@, "微信语音"@, account, "语音消息"@, rel, "FileStorage/Voice"@)
            + user_directory_rule(tree, id, false, "voice2"@, "微信语音"@, account, "语音消息"@, rel, "FileStorage/Voice2"@)
            + attachment_rule(tree, id, false, "attachment-images"@, "微信图片"@, account, "消息附件图片"@, attach, seq!["Image", "Thumb"])
            + attachment_rule(tree, id, false, "attachment-videos"@, "微信视频"@, account, "消息附件视频"@, attach, seq!["Video"])
            + attachment_rule(tree, id, false, "attachment-files"@, "微信文件"@, account, "消息附件文件"@, attach, seq!["File"])
            + attachment_rule(tree, id, false, "attachment-voices"@, "微信语音"@, account, "语音消息"@, attach, seq!["Audio", "Voice", "Voice2"])
    }
}

/// The user-data rules of the classic client's accounts, in order.
pub open spec fn wechat_accounts_rules(tree: DirectoryTree, accounts: Seq<Seq<char>>) -> Seq<RuleShape>
    decreases accounts.len(),
{
    if accounts.len() == 0 {
        seq![]
    } else {
        wechat_accounts_rules(tree, accounts.drop_last()) + wechat_account_rules(tree, accounts.last())
    }
}

/// The user-data rules of the 4.x client for one account directory: none for
/// `All Users` or one with neither `db_storage` nor `msg`.
pub open spec fn xwechat_account_rules(tree: DirectoryTree, account: Seq<char>) -> Seq<RuleShape> {
    let rel = join_spec("xwechat_files"@, account);
    if eq_ignore_case(account, "All Users"@) || (!tree_has(tree, join_spec(rel, "db_storage"@)) && !tree_has(tree, join_spec(rel, "msg"@))) {
        seq![]
    } else {
        let id = account_id_spec(account);
        let attach = join_spec(rel, "msg/attach"@);
        user_directory_rule(tree, id, true, "chat-messages"@, "微信聊天记录"@, account, "聊天消息数据库"@, rel, "db_storage/message"@)
            + user_directory_rule(tree, id, true, "chat-sessions"@, "微信聊天记录"@, account, "会话索引"@, rel, "db_storage/session"@)
            + user_directory_rule(tree, id, true, "files"@, "微信文件"@, account, "聊天文件"@, rel, "msg/file"@)
            + user_directory_rule(tree, id, true, "videos"@, "微信视频"@, account, "聊天视频"@, rel, "msg/video"@)
            + user_directory_rule(tree, id, true, "favorites"@, "微信收藏"@, account, "收藏数据"@, rel, "db_storage/favorite"@)
            + user_directory_rule(tree, id, true, "emotions"@, "微信表情"@, account, "表情数据"@, rel, "db_storage/emoticon"@)
            + user_directory_rule(tree, id, true, "audio"@, "微信语音"@, account, "语音消息"@, rel, "msg/audio"@)
            + user_directory_rule(tree, id, true, "voice"@, "微信语音"@, account, "语音消息"@, rel, "msg/voice"@)
            + user_directory_rule(tree, id, true, "voice2"@, "微信语音"@, account, "语音消息"@, rel, "msg/voice2"@)
            + attachment_rule(tree, id, true, "attachment-images"@, "微信图片"@, account, "消息附件图片"@, attach, seq!["Img"])
            + attachment_rule(tree, id, true, "attachment-videos"@, "微信视频"@, account, "消息附件视频"@, attach, seq!["V"])
            + attachment_rule(tree, id, true, "attachment-voices"@, "微信语音"@, account, "语音消息"@, attach, seq!["Audio", "Voice", "Voice2"])
    }
}

/// The user-data rules of the 4.x client's accounts, in order.
pub open spec fn xwechat_accounts_rules(tree: DirectoryTree, accounts: Seq<Seq<char>>) -> Seq<RuleShape>
    decreases accounts.len(),
{
    if accounts.len() == 0 {
        seq![]
    } else {
        xwechat_accounts_rules(tree, accounts.drop_last()) + xwechat_account_rules(tree, accounts.last())
    }
}

/// Adds the user-data rules of one account directory.
fn add_wechat_account_rules(rules: &mut Vec<Rule>, tree: &DirectoryTree, account: &String)
    ensures
        rule_shapes(final(rules)@) == rule_shapes(old(rules)@) + wechat_account_rules(*tree, account@),
        final(rules)@.len() >= old(rules)@.len(),
        forall|k: int| 0 <= k < old(rules)@.len() ==> #[trigger] final(rules)@[k] == old(rules)@[k],
        forall|k: int| old(rules)@.len() <= k < final(rules)@.len() ==> #[trigger] user_data_rule(final(rules)@[k]),
{
    let ghost prev = rule_shapes(rules@);
    if is_shared_wechat_directory(account.as_str()) {
        assert(prev + seq![] =~= prev);
        return;
    }
    let account_relative = join_path("WeChat Files", account.as_str());
    let msg = join_path(account_relative.as_str(), "Msg");
    let storage = join_path(account_relative.as_str(), "FileStorage");
    if !tree.has_directory(msg.as_str()) && !tree.has_directory(storage.as_str()) {
        assert(prev + seq![] =~= prev);
        return;
    }
    let account_id = stable_id_component(account.as_str());
    let ghost t = *tree;
    let ghost acct = account@;
    let ghost id = account_id_spec(account@);
    let ghost rel = join_spec("WeChat Files"@, account@);
    let ghost attach = join_spec(rel, "FileStorage/MsgAttach"@);
    let ghost mut acc: Seq<RuleShape> = seq![];
    assert(account_id@ == account_id_spec(account@));
    add_user_directory_rule(rules, tree, &account_id, false, "chat-records", "微信聊天记录", account.as_str(), "聊天记录", account_relative.as_str(), "Msg");
    proof {
        acc = user_directory_rule(t, id, false, "chat-records"@, "微信聊天记录"@, acct, "聊天记录"@, rel, "Msg"@);
        assert(rule_shapes(rules@) == prev + acc);
    }
    add_user_directory_rule(rules, tree, &account_id, false, "images", "微信图片", account.as_str(), "聊天图片", account_relative.as_str(), "FileStorage/Image");
    proof {
        let piece = user_directory_rule(t, id, false, "images"@, "微信图片"@, acct, "聊天图片"@, rel, "FileStorage/Image"@);
        lemma_shapes_concat(prev, acc, piece);
        acc = acc + piece;
        assert(rule_shapes(rules@) == prev + acc);
    }
    add_user_directory_rule(rules, tree, &account_id, false, "videos", "微信视频", account.as_str(), "聊天视频", account_relative.as_str(), "FileStorage/Video");
    proof {
        let piece = user_directory_rule(t, id, false, "videos"@, "微信视频"@, acct, "聊天视频"@, rel, "FileStorage/Video"@);
        lemma_shapes_concat(prev, acc, piece);
        acc = acc + piece;
        assert(rule_shapes(rules@) == prev + acc);
    }
    add_user_directory_rule(rules, tree, &account_id, false, "files", "微信文件", account.as_str(), "聊天文件", account_relative.as_str(), "FileStorage/File");
    proof {
        let piece = user_directory_rule(t, id, false, "files"@, "微信文件"@, acct, "聊天文件"@, rel, "FileStorage/File"@);
        lemma_shapes_concat(prev, acc, piece);
        acc = acc + piece;
        assert(rule_shapes(rules@) == prev + acc);
    }
    add_user_directory_rule(rules, tree, &account_id, false, "favorites", "微信收藏", account.as_str(), "收藏内容", account_relative.as_str(), "FileStorage/Fav");
    proof {
        let piece = user_directory_rule(t, id, false, "favorites"@, "微信收藏"@, acct, "收藏内容"@, rel, "FileStorage/Fav"@);
        lemma_shapes_concat(prev, acc, piece);
        acc = acc + piece;
        assert(rule_shapes(rules@) == prev + acc);
    }
    add_user_directory_rule(rules, tree, &account_id, false, "emotions", "微信表情", account.as_str(), "自定义表情", account_relative.as_str(), "FileStorage/CustomEmotion");
    proof {
        let piece = user_directory_rule(t, id, false, "emotions"@, "微信表情"@, acct, "自定义表情"@, rel, "FileStorage/CustomEmotion"@);
        lemma_shapes_concat(prev, acc, piece);
        acc = acc + piece;
        assert(rule_shapes(rules@) == prev + acc);
    }
    add_user_directory_rule(rules, tree, &account_id, false, "audio", "微信语音", account.as_str(), "语音消息", account_relative.as_str(), "FileStorage/Audio");
    proof {
        let piece = user_directory_rule(t, id, false, "audio"@, "微信语音"@, acct, "语音消息"@, rel, "FileStorage/Audio"@);
        lemma_shapes_concat(prev, acc, piece);
        acc = acc + piece;
        assert(rule_shapes(rules@) == prev + acc);
    }
    add_user_directory_rule(rules, tree, &account_id, false, "voice", "微信语音", account.as_str(), "语音消息", account_relative.as_str(), "FileStorage/Voice");
    proof {
        let piece = user_directory_rule(t, id, false, "voice"@, "微信语音"@, acct, "语音消息"@, rel, "FileStorage/Voice"@);
        lemma_shapes_concat(prev, acc, piece);
        acc = acc + piece;
        assert(rule_shapes(rules@) == prev + acc);
    }
    add_user_directory_rule(rules, tree, &account_id, false, "voice2", "微信语音", account.as_str(), "语音消息", account_relative.as_str(), "FileStorage/Voice2");
    proof {
        let piece = user_directory_rule(t, id, false, "voice2"@, "微信语音"@, acct, "语音消息"@, rel, "FileStorage/Voice2"@);
        lemma_shapes_concat(prev, acc, piece);
        acc = acc + piece;
        assert(rule_shapes(rules@) == prev + acc);
    }
    let attach_relative = join_path(account_relative.as_str(), "FileStorage/MsgAttach");
    let images_names = vec!["Image", "Thumb"];
    assert(images_names@ == seq!["Image", "Thumb"]);
    add_attachment_rule(rules, tree, &account_id, false, "attachment-images", "微信图片", account.as_str(), "消息附件图片", attach_relative.as_str(), images_names);
    proof {
        let piece = attachment_rule(t, id, false, "attachment-images"@, "微信图片"@, acct, "消息附件图片"@, attach, seq!["Image", "Thumb"]);
        lemma_shapes_concat(prev, acc, piece);
        acc = acc + piece;
        assert(rule_shapes(rules@) == prev + acc);
    }
    let videos_names = vec!["Video"];
    assert(videos_names@ == seq!["Video"]);
    add_attachment_rule(rules, tree, &account_id, false, "attachment-videos", "微信视频", account.as_str(), "消息附件视频", attach_relative.as_str(), videos_names);
    proof {
        let piece = attachment_rule(t, id, false, "attachment-videos"@, "微信视频"@, acct, "消息附件视频"@, attach, seq!["Video"]);
        lemma_shapes_concat(prev, acc, piece);
        acc = acc + piece;
        assert(rule_shapes(rules@) == prev + acc);
    }
    let files_names = vec!["File"];
    assert(files_names@ == seq!["File"]);
    add_attachment_rule(rules, tree, &account_id, false, "attachment-files", "微信文件", account.as_str(), "消息附件文件", attach_relative.as_str(), files_names);
    proof {
        let piece = attachment_rule(t, id, false, "attachment-files"@, "微信文件"@, acct, "消息附件文件"@, attach, seq!["File"]);
        lemma_shapes_concat(prev, acc, piece);
        acc = acc + piece;
        assert(rule_shapes(rules@) == prev + acc);
    }
    let voices_names = vec!["Audio", "Voice", "Voice2"];
    assert(voices_names@ == seq!["Audio", "Voice", "Voice2"]);
    add_attachment_rule(rules, tree, &account_id, false, "attachment-voices", "微信语音", account.as_str(), "语音消息", attach_relative.as_str(), voices_names);
    proof {
        let piece = attachment_rule(t, id, false, "attachment-voices"@, "微信语音"@, acct, "语音消息"@, attach, seq!["Audio", "Voice", "Voice2"]);
        lemma_shapes_concat(prev, acc, piece);
        acc = acc + piece;
        assert(rule_shapes(rules@) == prev + acc);
    }
    assert(acc == wechat_account_rules(*tree, account@));
}

/// The explicit chat-data rules of each account of the classic WeChat client,
/// found below its documents root. Every rule it adds is a high-risk WeChat
/// user-data rule.
fn discover_wechat_user_data_rules(rules: &mut Vec<Rule>, tree: &DirectoryTree)
    ensures
        rule_shapes(final(rules)@) == rule_shapes(old(rules)@) + wechat_accounts_rules(*tree, children_spec(tree.directories@, "WeChat Files"@)),
        final(rules)@.len() >= old(rules)@.len(),
        forall|k: int| 0 <= k < old(rules)@.len() ==> #[trigger] final(rules)@[k] == old(rules)@[k],
        forall|k: int| old(rules)@.len() <= k < final(rules)@.len() ==> #[trigger] user_data_rule(final(rules)@[k]),
{
    let accounts = tree.children("WeChat Files");
    let ghost start = rules@;
    let ghost names = views(accounts@);
    let mut i: usize = 0;
    assert(rule_shapes(start) + seq![] =~= rule_shapes(start));
    while i < accounts.len()
        invariant
                0 <= i <= accounts@.len(),
                names == views(accounts@),
                rule_shapes(rules@) == rule_shapes(start) + wechat_accounts_rules(*tree, names.take(i as int)),
                rules@.len() >= start.len(),
                forall|k: int| 0 <= k < start.len() ==> #[trigger] rules@[k] == start[k],
                forall|k: int| start.len() <= k < rules@.len() ==> #[trigger] user_data_rule(rules@[k]),
        decreases accounts@.len() - i,
    {
        let account = &accounts[i];
        let ghost prev = rule_shapes(rules@);
        let ghost folded = names.take(i as int);
        i = i + 1;
        proof {
            assert(names.take(i as int).drop_last() =~= folded);
            assert(names.take(i as int).last() == account@);
            assert(wechat_accounts_rules(*tree, names.take(i as int)) == wechat_accounts_rules(*tree, folded) + wechat_account_rules(*tree, account@));
            lemma_shapes_concat(rule_shapes(start), wechat_accounts_rules(*tree, folded), wechat_account_rules(*tree, account@));
        }
        add_wechat_account_rules(rules, tree, account);
    }
    assert(names.take(names.len() as int) =~= names);
}

/// Adds the user-data rules of one account directory.
fn add_xwechat_account_rules(rules: &mut Vec<Rule>, tree: &DirectoryTree, account: &String)
    ensures
        rule_shapes(final(rules)@) == rule_shapes(old(rules)@) + xwechat_account_rules(*tree, account@),
        final(rules)@.len() >= old(rules)@.len(),
        forall|k: int| 0 <= k < old(rules)@.len() ==> #[trigger] final(rules)@[k] == old(rules)@[k],
        forall|k: int| old(rules)@.len() <= k < final(rules)@.len() ==> #[trigger] user_data_rule(final(rules)@[k]),
{
    let ghost prev = rule_shapes(rules@);
    let account_chars = chars_of(account.as_str());
    if eq_ignore_case_str(&account_chars, "All Users") {
        assert(prev + seq![] =~= prev);
        return;
    }
    let account_relative = join_path("xwechat_files", account.as_str());
    let db = join_path(account_relative.as_str(), "db_storage");
    let msg = join_path(account_relative.as_str(), "msg");
    if !tree.has_directory(db.as_str()) && !tree.has_directory(msg.as_str()) {
        assert(prev + seq![] =~= prev);
        return;
    }
    let account_id = stable_id_component(account.as_str());
    let ghost t = *tree;
    let ghost acct = account@;
    let ghost id = account_id_spec(account@);
    let ghost rel = join_spec("xwechat_files"@, account@);
    let ghost attach = join_spec(rel, "msg/attach"@);
    let ghost mut acc: Seq<RuleShape> = seq![];
    add_user_directory_rule(rules, tree, &account_id, true, "chat-messages", "微信聊天记录", account.as_str(), "聊天消息数据库", account_relative.as_str(), "db_storage/message");
    proof {
        acc = user_directory_rule(t, id, true, "chat-messages"@, "微信聊天记录"@, acct, "聊天消息数据库"@, rel, "db_storage/message"@);
        assert(rule_shapes(rules@) == prev + acc);
    }
    add_user_directory_rule(rules, tree, &account_id, true, "chat-sessions", "微信聊天记录", account.as_str(), "会话索引", account_relative.as_str(), "db_storage/session");
    proof {
        let piece = user_directory_rule(t, id, true, "chat-sessions"@, "微信聊天记录"@, acct, "会话索引"@, rel, "db_storage/session"@);
        lemma_shapes_concat(prev, acc, piece);
        acc = acc + piece;
        assert(rule_shapes(rules@) == prev + acc);
    }
    add_user_directory_rule(rules, tree, &account_id, true, "files", "微信文件", account.as_str(), "聊天文件", account_relative.as_str(), "msg/file");
    proof {
        let piece = user_directory_rule(t, id, true, "files"@, "微信文件"@, acct, "聊天文件"@, rel, "msg/file"@);
        lemma_shapes_concat(prev, acc, piece);
        acc = acc + piece;
        assert(rule_shapes(rules@) == prev + acc);
    }
    add_user_directory_rule(rules, tree, &account_id, true, "videos", "微信视频", account.as_str(), "聊天视频", account_relative.as_str(), "msg/video");
    proof {
        let piece = user_directory_rule(t, id, true, "videos"@, "微信视频"@, acct, "聊天视频"@, rel, "msg/video"@);
        lemma_shapes_concat(prev, acc, piece);
        acc = acc + piece;
        assert(rule_shapes(rules@) == prev + acc);
    }
    add_user_directory_rule(rules, tree, &account_id, true, "favorites", "微信收藏", account.as_str(), "收藏数据", account_relative.as_str(), "db_storage/favorite");
    proof {
        let piece = user_directory_rule(t, id, true, "favorites"@, "微信收藏"@, acct, "收藏数据"@, rel, "db_storage/favorite"@);
        lemma_shapes_concat(prev, acc, piece);
        acc = acc + piece;
        assert(rule_shapes(rules@) == prev + acc);
    }
    add_user_directory_rule(rules, tree, &account_id, true, "emotions", "微信表情", account.as_str(), "表情数据", account_relative.as_str(), "db_storage/emoticon");
    proof {
        let piece = user_directory_rule(t, id, true, "emotions"@, "微信表情"@, acct, "表情数据"@, rel, "db_storage/emoticon"@);
        lemma_shapes_concat(prev, acc, piece);
        acc = acc + piece;
        assert(rule_shapes(rules@) == prev + acc);
    }
    add_user_directory_rule(rules, tree, &account_id, true, "audio", "微信语音", account.as_str(), "语音消息", account_relative.as_str(), "msg/audio");
    proof {
        let piece = user_directory_rule(t, id, true, "audio"@, "微信语音"@, acct, "语音消息"@, rel, "msg/audio"@);
        lemma_shapes_concat(prev, acc, piece);
        acc = acc + piece;
        assert(rule_shapes(rules@) == prev + acc);
    }
    add_user_directory_rule(rules, tree, &account_id, true, "voice", "微信语音", account.as_str(), "语音消息", account_relative.as_str(), "msg/voice");
    proof {
        let piece = user_directory_rule(t, id, true, "voice"@, "微信语音"@, acct, "语音消息"@, rel, "msg/voice"@);
        lemma_shapes_concat(prev, acc, piece);
        acc = acc + piece;
        assert(rule_shapes(rules@) == prev + acc);
    }
    add_user_directory_rule(rules, tree, &account_id, true, "voice2", "微信语音", account.as_str(), "语音消息", account_relative.as_str(), "msg/voice2");
    proof {
        let piece = user_directory_rule(t, id, true, "voice2"@, "微信语音"@, acct, "语音消息"@, rel, "msg/voice2"@);
        lemma_shapes_concat(prev, acc, piece);
        acc = acc + piece;
        assert(rule_shapes(rules@) == prev + acc);
    }
    let attach_relative = join_path(account_relative.as_str(), "msg/attach");
    let images_names = vec!["Img"];
    assert(images_names@ == seq!["Img"]);
    add_attachment_rule(rules, tree, &account_id, true, "attachment-images", "微信图片", account.as_str(), "消息附件图片", attach_relative.as_str(), images_names);
    proof {
        let piece = attachment_rule(t, id, true, "attachment-images"@, "微信图片"@, acct, "消息附件图片"@, attach, seq!["Img"]);
        lemma_shapes_concat(prev, acc, piece);
        acc = acc + piece;
        assert(rule_shapes(rules@) == prev + acc);
    }
    let videos_names = vec!["V"];
    assert(videos_names@ == seq!["V"]);
    add_attachment_rule(rules, tree, &account_id, true, "attachment-videos", "微信视频", account.as_str(), "消息附件视频", attach_relative.as_str(), videos_names);
    proof {
        let piece = attachment_rule(t, id, true, "attachment-videos"@, "微信视频"@, acct, "消息附件视频"@, attach, seq!["V"]);
        lemma_shapes_concat(prev, acc, piece);
        acc = acc + piece;
        assert(rule_shapes(rules@) == prev + acc);
    }
    let voices_names = vec!["Audio", "Voice", "Voice2"];
    assert(voices_names@ == seq!["Audio", "Voice", "Voice2"]);
    add_attachment_rule(rules, tree, &account_id, true, "attachment-voices", "微信语音", account.as_str(), "语音消息", attach_relative.as_str(), voices_names);
    proof {
        let piece = attachment_rule(t, id, true, "attachment-voices"@, "微信语音"@, acct, "语音消息"@, attach, seq!["Audio", "Voice", "Voice2"]);
        lemma_shapes_concat(prev, acc, piece);
        acc = acc + piece;
        assert(rule_shapes(rules@) == prev + acc);
    }
    assert(acc == xwechat_account_rules(*tree, account@));
}

/// The explicit chat-data rules of each account of the 4.x WeChat client,
/// found below its data root. Every rule it adds is a high-risk WeChat
/// user-data rule.
fn discover_xwechat_user_data_rules(rules: &mut Vec<Rule>, tree: &DirectoryTree)
    ensures
        rule_shapes(final(rules)@) == rule_shapes(old(rules)@) + xwechat_accounts_rules(*tree, children_spec(tree.directories@, "xwechat_files"@)),
        final(rules)@.len() >= old(rules)@.len(),
        forall|k: int| 0 <= k < old(rules)@.len() ==> #[trigger] final(rules)@[k] == old(rules)@[k],
        forall|k: int| old(rules)@.len() <= k < final(rules)@.len() ==> #[trigger] user_data_rule(final(rules)@[k]),
{
    let accounts = tree.children("xwechat_files");
    let ghost start = rules@;
    let ghost names = views(accounts@);
    let mut i: usize = 0;
    assert(rule_shapes(start) + seq![] =~= rule_shapes(start));
    while i < accounts.len()
        invariant
                0 <= i <= accounts@.len(),
                names == views(accounts@),
                rule_shapes(rules@) == rule_shapes(start) + xwechat_accounts_rules(*tree, names.take(i as int)),
                rules@.len() >= start.len(),
                forall|k: int| 0 <= k < start.len() ==> #[trigger] rules@[k] == start[k],
                forall|k: int| start.len() <= k < rules@.len() ==> #[trigger] user_data_rule(rules@[k]),
        decreases accounts@.len() - i,
    {
        let account = &accounts[i];
        let ghost prev = rule_shapes(rules@);
        let ghost folded = names.take(i as int);
        i = i + 1;
        proof {
            assert(names.take(i as int).drop_last() =~= folded);
            assert(names.take(i as int).last() == account@);
            assert(xwechat_accounts_rules(*tree, names.take(i as int)) == xwechat_accounts_rules(*tree, folded) + xwechat_account_rules(*tree, account@));
            lemma_shapes_concat(rule_shapes(start), xwechat_accounts_rules(*tree, folded), xwechat_account_rules(*tree, account@));
        }
        add_xwechat_account_rules(rules, tree, account);
    }
    assert(names.take(names.len() as int) =~= names);
}


/// Every rule is regenerable.
pub open spec fn all_regenerable(rules: Seq<Rule>) -> bool {
    forall|k: int| 0 <= k < rules.len() ==> #[trigger] regenerable(rules[k])
}

/// Only explicit WeChat user-data rules are high risk.
pub open spec fn only_user_data_high_risk(rules: Seq<Rule>) -> bool {
    forall|k: int| 0 <= k < rules.len() ==> #[trigger] high_risk_only_user_data(rules[k])
}

proof fn lemma_regenerable_not_high_risk(rules: Seq<Rule>)
    requires
        all_regenerable(rules),
    ensures
        only_user_data_high_risk(rules),
{
    assert forall|k: int| 0 <= k < rules.len() implies #[trigger] high_risk_only_user_data(
        rules[k],
    ) by {
        assert(regenerable(rules[k]));
    }
}

proof fn lemma_extend_with_user_data(before: Seq<Rule>, after: Seq<Rule>)
    requires
        only_user_data_high_risk(before),
        after.len() >= before.len(),
        forall|k: int| 0 <= k < before.len() ==> #[trigger] after[k] == before[k],
        forall|k: int| before.len() <= k < after.len() ==> #[trigger] user_data_rule(after[k]),
    ensures
        only_user_data_high_risk(after),
{
    assert forall|k: int| 0 <= k < after.len() implies #[trigger] high_risk_only_user_data(
        after[k],
    ) by {
        if k < before.len() {
            assert(after[k] == before[k]);
            assert(high_risk_only_user_data(before[k]));
        } else {
            assert(user_data_rule(after[k]));
        }
    }
}

/// A browser cache rule as a cleanup rule: low risk, every file of its
/// directory, guarded by the browser's process.
pub open spec fn browser_rule_shape(v: RuleView) -> RuleShape {
    (
        v.0,
        "浏览器缓存"@,
        v.1,
        match v.2 {
            BrowserDataRoot::Local => RootBase::Local,
            BrowserDataRoot::Roaming => RootBase::Roaming,
        },
        v.3,
        RiskLevel::Low,
        (0, seq![], seq![], seq![]),
        None,
        Some(ProcessGuard::Browser(v.4)),
    )
}

pub open spec fn browser_rule_shapes(views: Seq<RuleView>) -> Seq<RuleShape> {
    views.map_values(|v: RuleView| browser_rule_shape(v))
}

/// The browser cache rules of the local and roaming roots, as cleanup rules.
fn add_browser_rules(rules: &mut Vec<Rule>, local: Option<&DirectoryTree>, roaming: Option<&DirectoryTree>)
    ensures
        final(rules)@.len() >= old(rules)@.len(),
        forall|k: int| 0 <= k < old(rules)@.len() ==> #[trigger] final(rules)@[k] == old(rules)@[k],
        forall|k: int| old(rules)@.len() <= k < final(rules)@.len() ==> #[trigger] regenerable(final(rules)@[k]),
        wechat_count(final(rules)@) == wechat_count(old(rules)@),
        rule_shapes(final(rules)@) == rule_shapes(old(rules)@) + browser_rule_shapes(discovered_rules(browser_spec_table(), deref_tree(local), deref_tree(roaming))),
{
    let browser_rules = discover_cache_rules(local, roaming);
    let ghost start = rules@;
    let ghost found = rule_views(browser_rules@);
    let mut i: usize = 0;
    assert(rule_shapes(start) + browser_rule_shapes(found.take(0)) =~= rule_shapes(start));
    while i < browser_rules.len()
        invariant
            0 <= i <= browser_rules@.len(),
            found == rule_views(browser_rules@),
            rule_shapes(rules@) == rule_shapes(start) + browser_rule_shapes(found.take(i as int)),
            rules@.len() >= start.len(),
            forall|k: int| 0 <= k < start.len() ==> #[trigger] rules@[k] == start[k],
            forall|k: int| start.len() <= k < rules@.len() ==> #[trigger] regenerable(rules@[k]),
            wechat_count(rules@) == wechat_count(start),
        decreases browser_rules@.len() - i,
    {
        let browser_rule = &browser_rules[i];
        let rule = Rule {
            id: browser_rule.id.clone(),
            category: "浏览器缓存",
            name: browser_rule.name.clone(),
            base: match browser_rule.base {
                BrowserDataRoot::Local => RootBase::Local,
                BrowserDataRoot::Roaming => RootBase::Roaming,
            },
            relative: browser_rule.relative.clone(),
            risk: RiskLevel::Low,
            matcher: FileMatcher::AllFilesRecursive,
            minimum_age_secs: None,
            process_guard: Some(ProcessGuard::Browser(browser_rule.process)),
        };
        proof {
            lemma_wechat_count_push(rules@, rule);
            lemma_rule_shapes_push(rules@, rule);
            assert(browser_rule_shapes(found.take(i + 1)) =~= browser_rule_shapes(found.take(i as int)).push(browser_rule_shape(found[i as int])));
            assert(rule_shape(rule) == browser_rule_shape(found[i as int]));
        }
        rules.push(rule);
        i = i + 1;
    }
    assert(found.take(found.len() as int) =~= found);
}

/// The user-data rules found below the classic client's documents root, when
/// it was located.
pub open spec fn wechat_user_shapes(tree: Option<DirectoryTree>) -> Seq<RuleShape> {
    match tree {
        Some(t) => wechat_accounts_rules(t, children_spec(t.directories@, "WeChat Files"@)),
        None => seq![],
    }
}

/// The user-data rules found below the 4.x client's data root, when it was
/// located.
pub open spec fn xwechat_user_shapes(tree: Option<DirectoryTree>) -> Seq<RuleShape> {
    match tree {
        Some(t) => xwechat_accounts_rules(t, children_spec(t.directories@, "xwechat_files"@)),
        None => seq![],
    }
}

/// Every cleanup rule for the given per-user roots: the fixed rules, the
/// explicit WeChat user-data rules found below the WeChat data roots, and the
/// browser caches found below the local and roaming roots.
pub open spec fn rule_set(
    local: Option<DirectoryTree>,
    roaming: Option<DirectoryTree>,
    wechat_documents: Option<DirectoryTree>,
    xwechat_data: Option<DirectoryTree>,
) -> Seq<RuleShape> {
    fixed_rule_table() + wechat_user_shapes(wechat_documents) + xwechat_user_shapes(xwechat_data)
        + browser_rule_shapes(discovered_rules(browser_spec_table(), local, roaming))
}

/// Every cleanup rule for the given per-user roots: the fixed rules, the
/// explicit WeChat user-data rules found below the WeChat data roots, and the
/// browser caches found below the local and roaming roots.
pub fn rules_for_roots(
    local: Option<&DirectoryTree>,
    roaming: Option<&DirectoryTree>,
    wechat_documents: Option<&DirectoryTree>,
    xwechat_data: Option<&DirectoryTree>,
) -> (r: Vec<Rule>)
    ensures
        rule_shapes(r@) == rule_set(deref_tree(local), deref_tree(roaming), deref_tree(wechat_documents), deref_tree(xwechat_data)),
        only_user_data_high_risk(r@),
        wechat_documents is None && xwechat_data is None ==> all_regenerable(r@)
            && wechat_count(r@) == 36,
{
    let mut rules: Vec<Rule> = Vec::new();
    assert(rule_shapes(rules@) =~= seq![]);
    add_system_cache_rules(&mut rules);
    add_application_cache_rules(&mut rules);
    add_developer_cache_rules(&mut rules);
    add_system_junk_rules(&mut rules);
    add_qq_rules(&mut rules);
    add_wechat_local_rules(&mut rules);
    add_wechat_roaming_rules(&mut rules);
    assert(all_regenerable(rules@));
    assert(wechat_count(rules@) == 36);
    assert(rule_shapes(rules@) =~= fixed_rule_table());
    let ghost fixed = rule_shapes(rules@);
    proof {
        lemma_regenerable_not_high_risk(rules@);
    }
    match wechat_documents {
        Some(tree) => {
            let ghost before = rules@;
            discover_wechat_user_data_rules(&mut rules, tree);
            proof {
                lemma_extend_with_user_data(before, rules@);
            }
        },
        None => {},
    }
    match xwechat_data {
        Some(tree) => {
            let ghost before = rules@;
            discover_xwechat_user_data_rules(&mut rules, tree);
            proof {
                lemma_extend_with_user_data(before, rules@);
            }
        },
        None => {},
    }
    assert(rule_shapes(rules@) =~= fixed + wechat_user_shapes(deref_tree(wechat_documents)) + xwechat_user_shapes(deref_tree(xwechat_data)));
    let ghost before_browsers = rules@;
    add_browser_rules(&mut rules, local, roaming);
    proof {
        assert forall|k: int| 0 <= k < rules@.len() implies #[trigger] high_risk_only_user_data(
            rules@[k],
        ) by {
            if k < before_browsers.len() {
                assert(rules@[k] == before_browsers[k]);
            } else {
                assert(regenerable(rules@[k]));
            }
        }
    }
    rules
}

/// A per-user directory that rules are relative to, with the trusted
/// directories found below it.
#[derive(Clone, Debug)]
pub struct RootDirectory {
    pub path: String,
    pub tree: DirectoryTree,
}

/// The per-user directories of the current user; `None` where one could not be
/// located.
#[derive(Clone, Debug)]
pub struct RuleRoots {
    pub local: Option<RootDirectory>,
    pub roaming: Option<RootDirectory>,
    pub home: Option<RootDirectory>,
    pub wechat_documents: Option<RootDirectory>,
    pub xwechat_data: Option<RootDirectory>,
}

pub open spec fn tree_spec(root: Option<RootDirectory>) -> Option<DirectoryTree> {
    match root {
        Some(r) => Some(r.tree),
        None => None,
    }
}

fn tree_of(root: &Option<RootDirectory>) -> (r: Option<&DirectoryTree>)
    ensures
        match r {
            Some(t) => tree_spec(*root) == Some(*t),
            None => tree_spec(*root) is None,
        },
{
    match root {
        Some(directory) => Some(&directory.tree),
        None => None,
    }
}

impl RuleRoots {
    /// No per-user directory located.
    pub fn none() -> (roots: RuleRoots)
        ensures
            roots.local is None,
            roots.roaming is None,
            roots.home is None,
            roots.wechat_documents is None,
            roots.xwechat_data is None,
    {
        RuleRoots { local: None, roaming: None, home: None, wechat_documents: None, xwechat_data: None }
    }
}

/// Every cleanup rule for the current user's directories.
pub fn rules(roots: &RuleRoots) -> (r: Vec<Rule>)
    ensures
        rule_shapes(r@) == rule_set(tree_spec(roots.local), tree_spec(roots.roaming), tree_spec(roots.wechat_documents), tree_spec(roots.xwechat_data)),
        only_user_data_high_risk(r@),
        roots.wechat_documents is None && roots.xwechat_data is None ==> all_regenerable(r@)
            && wechat_count(r@) == 36,
{
    rules_for_roots(
        tree_of(&roots.local),
        tree_of(&roots.roaming),
        tree_of(&roots.wechat_documents),
        tree_of(&roots.xwechat_data),
    )
}

/// The location of the per-user directory a rule is relative to.
pub open spec fn base_path(base: RootBase, roots: RuleRoots) -> Option<Seq<char>> {
    let root = match base {
        RootBase::Local => roots.local,
        RootBase::Roaming => roots.roaming,
        RootBase::Home => roots.home,
        RootBase::WeChatDocuments => roots.wechat_documents,
        RootBase::XWeChatData => roots.xwechat_data,
    };
    match root {
        Some(directory) => Some(directory.path@),
        None => None,
    }
}

/// The directory a rule cleans: its relative path below its base directory,
/// or `None` when the base directory was not located.
pub fn path_for(rule: &Rule, roots: &RuleRoots) -> (r: Option<String>)
    ensures
        match base_path(rule.base, *roots) {
            Some(base) => r matches Some(path) && path@ == join_spec(base, rule.relative@),
            None => r is None,
        },
{
    let root = match rule.base {
        RootBase::Local => &roots.local,
        RootBase::Roaming => &roots.roaming,
        RootBase::Home => &roots.home,
        RootBase::WeChatDocuments => &roots.wechat_documents,
        RootBase::XWeChatData => &roots.xwechat_data,
    };
    match root {
        Some(directory) => Some(join_path(directory.path.as_str(), rule.relative.as_str())),
        None => None,
    }
}


pub open spec fn ends_with(s: Seq<char>, suffix: Seq<char>) -> bool {
    suffix.len() <= s.len() && s.skip(s.len() - suffix.len()) == suffix
}

/// Whether a file is old enough for a rule; `age_nanos` is the time from the
/// file's modification to the scan's start, `None` when the file was modified
/// after the scan started.
pub open spec fn old_enough(rule: Rule, age_nanos: Option<u128>) -> bool {
    match rule.minimum_age_secs {
        None => true,
        Some(minimum) => match age_nanos {
            None => false,
            Some(age) => age >= minimum * 1_000_000_000,
        },
    }
}

/// Whether a matcher takes the file whose path below the rule's directory has
/// these components (the last one is the file name).
pub open spec fn matcher_accepts(matcher: FileMatcher, components: Seq<Seq<char>>) -> bool {
    match matcher {
        FileMatcher::AllFilesRecursive => true,
        FileMatcher::RootFileName { prefix, suffix } => {
            let name = lower(components.last());
            components.len() == 1 && utf8_len(name) >= prefix.len() + suffix.len() && starts_with(name, prefix@) && ends_with(name, suffix@)
        },
        FileMatcher::DescendantDirectoryName { names } => exists|i: int, j: int|
            0 <= i < components.len() - 1 && 0 <= j < names@.len() && eq_ignore_case(
                #[trigger] components[i],
                #[trigger] names@[j]@,
            ),
    }
}

/// The number of bytes that a text takes in UTF-8.
fn utf8_length(s: &Vec<char>) -> (r: u128)
    ensures
        r == utf8_len(s@),
{
    let mut total: u128 = 0;
    let mut i: usize = 0;
    while i < s.len()
        invariant
            0 <= i <= s@.len(),
            total == utf8_len(s@.take(i as int)),
            total <= 4 * i,
        decreases s@.len() - i,
    {
        let u = s[i] as u32;
        let w: u128 = if u < 0x80 {
            1
        } else if u < 0x800 {
            2
        } else if u < 0x10000 {
            3
        } else {
            4
        };
        assert(s@.take(i + 1).drop_last() == s@.take(i as int));
        total = total + w;
        i = i + 1;
    }
    assert(s@.take(i as int) == s@);
    total
}

fn ends_with_exec(s: &Vec<char>, suffix: &str) -> (r: bool)
    ensures
        r == ends_with(s@, suffix@),
{
    let t = chars_of(suffix);
    if t.len() > s.len() {
        return false;
    }
    let tail = slice_chars(s, s.len() - t.len(), s.len());
    assert(tail@ == s@.skip(s@.len() - t@.len()));
    vec_eq(&tail, &t)
}

pub(crate) fn starts_with_exec(s: &Vec<char>, prefix: &str) -> (r: bool)
    ensures
        r == starts_with(s@, prefix@),
{
    let t = chars_of(prefix);
    if t.len() > s.len() {
        return false;
    }
    let head = slice_chars(s, 0, t.len());
    assert(head@ == s@.take(t@.len() as int));
    vec_eq(&head, &t)
}

fn ancestor_named(components: &Vec<String>, names: &Vec<&'static str>) -> (r: bool)
    ensures
        r == exists|i: int, j: int|
            0 <= i < components@.len() - 1 && 0 <= j < names@.len() && eq_ignore_case(
                #[trigger] crate::tree::views(components@)[i],
                #[trigger] names@[j]@,
            ),
{
    let mut i: usize = 0;
    while i < components.len() && i + 1 < components.len()
        invariant
            0 <= i <= components@.len(),
            forall|a: int, b: int|
                0 <= a < i && 0 <= b < names@.len() ==> !eq_ignore_case(
                    #[trigger] crate::tree::views(components@)[a],
                    #[trigger] names@[b]@,
                ),
        decreases components@.len() - i,
    {
        let component = chars_of(components[i].as_str());
        let mut j: usize = 0;
        while j < names.len()
            invariant
                0 <= j <= names@.len(),
                i + 1 < components@.len(),
                component@ == crate::tree::views(components@)[i as int],
                forall|b: int| 0 <= b < j ==> !eq_ignore_case(component@, #[trigger] names@[b]@),
            decreases names@.len() - j,
        {
            if eq_ignore_case_str(&component, names[j]) {
                return true;
            }
            j = j + 1;
        }
        i = i + 1;
    }
    false
}

/// Whether a rule takes a file: the file is old enough, and the rule's matcher
/// accepts its path below the rule's directory (`components`, ending with the
/// file name).
pub fn matches_rule(rule: &Rule, components: &Vec<String>, age_nanos: Option<u128>) -> (r: bool)
    requires
        components@.len() > 0,
    ensures
        r == (old_enough(*rule, age_nanos) && matcher_accepts(rule.matcher, crate::tree::views(components@))),
{
    match rule.minimum_age_secs {
        Some(minimum) => {
            match age_nanos {
                None => return false,
                Some(age) => {
                    if age < (minimum as u128) * 1_000_000_000 {
                        return false;
                    }
                },
            }
        },
        None => {},
    }
    match &rule.matcher {
        FileMatcher::AllFilesRecursive => true,
        FileMatcher::RootFileName { prefix, suffix } => {
            if components.len() != 1 {
                return false;
            }
            let name = lower_vec(&chars_of(components[0].as_str()));
            assert(crate::tree::views(components@).last() == components@[0]@);
            let long_enough = utf8_length(&name) >= prefix.len() as u128 + suffix.len() as u128;
            long_enough && starts_with_exec(&name, prefix) && ends_with_exec(&name, suffix)
        },
        FileMatcher::DescendantDirectoryName { names } => ancestor_named(components, names),
    }
}

} // verus!
