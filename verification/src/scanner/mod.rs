pub mod rules;
pub mod collect;
pub mod revalidate;
pub mod wechat_roots;
pub mod listing;

use vstd::prelude::*;
use crate::browsers::{BrowserProcess, process_names, browser_display_name};
use crate::models::{CleanupItem, RiskLevel};
use crate::text::{chars_of, eq_ignore_case, eq_ignore_case_str, trim, trim_bounds};
use crate::apps::{last_segment, rfind_sep};
use crate::tree::slice_chars;

verus! {

/// Which files below a rule's directory the rule takes.
#[derive(Clone, Debug)]
pub enum FileMatcher {
    /// Every regular file at any depth.
    AllFilesRecursive,
    /// Files directly in the directory whose lower-cased name has this prefix
    /// and suffix.
    RootFileName { prefix: &'static str, suffix: &'static str },
    /// Files below a directory (at any depth under the rule's directory) whose
    /// name is one of these, ignoring ASCII case.
    DescendantDirectoryName { names: Vec<&'static str> },
}

/// The per-user directory a rule's path is relative to.
#[derive(Clone, Copy, Debug, PartialEq, Eq, Structural)]
pub enum RootBase {
    Local,
    Roaming,
    Home,
    WeChatDocuments,
    XWeChatData,
}

/// An application whose running process makes its data unsafe to clean.
#[derive(Clone, Copy, Debug, PartialEq, Eq, Structural)]
pub enum ProcessGuard {
    Browser(BrowserProcess),
    VsCode,
    Discord,
    Figma,
    WeChat,
    Qq,
}

/// A cleanup rule: a directory below a per-user root, which files in it are
/// taken, and what guards it.
#[derive(Clone, Debug)]
pub struct Rule {
    pub id: String,
    pub category: &'static str,
    pub name: String,
    pub base: RootBase,
    pub relative: String,
    pub risk: RiskLevel,
    pub matcher: FileMatcher,
    /// Files younger than this many seconds are left alone.
    pub minimum_age_secs: Option<u64>,
    pub process_guard: Option<ProcessGuard>,
}

/// The identity of a file on its volume.
#[derive(Clone, Copy, Debug, PartialEq, Eq, Structural)]
pub struct FileIdentity {
    pub volume: u64,
    pub index: u128,
}

/// One file that a scan found, as it was when it was found.
#[derive(Clone, Debug)]
pub struct FileSnapshot {
    pub path: String,
    pub canonical_path: String,
    pub size: u64,
    /// Modification time in nanoseconds since the Unix epoch.
    pub modified_unix_nanos: i128,
    pub identity: FileIdentity,
}

/// The files that one rule matched during a scan.
#[derive(Clone, Debug)]
pub struct CleanupSnapshot {
    pub item: CleanupItem,
    pub root: String,
    pub canonical_root: String,
    pub files: Vec<FileSnapshot>,
}

/// Whether two snapshots hold the same item, roots and files.
pub open spec fn same_snapshot(a: CleanupSnapshot, b: CleanupSnapshot) -> bool {
    a.item == b.item && a.root == b.root && a.canonical_root == b.canonical_root && a.files@
        == b.files@
}

impl FileSnapshot {
    /// A copy of the file snapshot, equal to it.
    pub fn copy_file(&self) -> (copy: FileSnapshot)
        ensures
            copy == *self,
    {
        FileSnapshot {
            path: self.path.clone(),
            canonical_path: self.canonical_path.clone(),
            size: self.size,
            modified_unix_nanos: self.modified_unix_nanos,
            identity: self.identity,
        }
    }
}

impl CleanupSnapshot {
    /// A copy of the snapshot with the same item, roots and files.
    pub fn copy_snapshot(&self) -> (copy: CleanupSnapshot)
        ensures
            same_snapshot(copy, *self),
    {
        let mut files: Vec<FileSnapshot> = Vec::new();
        let mut i: usize = 0;
        while i < self.files.len()
            invariant
                0 <= i <= self.files@.len(),
                files@ == self.files@.take(i as int),
            decreases self.files@.len() - i,
        {
            files.push(self.files[i].copy_file());
            assert(self.files@.take(i + 1) == self.files@.take(i as int).push(self.files@[i as int]));
            i = i + 1;
        }
        assert(self.files@.take(self.files@.len() as int) == self.files@);
        CleanupSnapshot {
            item: self.item.copy_item(),
            root: self.root.clone(),
            canonical_root: self.canonical_root.clone(),
            files,
        }
    }

    /// The item that the snapshot reports to the user.
    pub fn item(&self) -> (r: &CleanupItem)
        ensures
            *r == self.item,
    {
        &self.item
    }
}

/// A file that could not be removed, with the reason.
#[derive(Clone, Debug)]
pub struct DeleteFailure {
    pub path: String,
    pub error: String,
}

/// What executing one snapshot removed and what it could not.
#[derive(Clone, Debug, Default)]
pub struct DeleteOutcome {
    pub reclaimed_bytes: u64,
    pub failures: Vec<DeleteFailure>,
}

/// The executable names that a guard watches for, lower-cased.
pub open spec fn guard_names(guard: ProcessGuard) -> Seq<&'static str> {
    match guard {
        ProcessGuard::Browser(browser) => process_names(browser),
        ProcessGuard::VsCode => seq!["code.exe", "code", "code-insiders.exe", "code-insiders"],
        ProcessGuard::Discord => seq!["discord.exe", "discord"],
        ProcessGuard::Figma => seq!["figma.exe", "figma"],
        ProcessGuard::WeChat => seq![
            "wechat.exe",
            "wechat",
            "wechatappex.exe",
            "wechatappex",
            "weixin.exe",
            "weixin",
            "weixinappex.exe",
            "weixinappex",
        ],
        ProcessGuard::Qq => seq!["qq.exe", "qq", "qqnt.exe", "qqnt", "qqprotect.exe"],
    }
}

/// The executable names that a guard watches for.
pub fn guarded_process_names(guard: ProcessGuard) -> (r: Vec<&'static str>)
    ensures
        r@ == guard_names(guard),
{
    let v: Vec<&'static str> = match guard {
        ProcessGuard::Browser(browser) => browser.names(),
        ProcessGuard::VsCode => vec!["code.exe", "code", "code-insiders.exe", "code-insiders"],
        ProcessGuard::Discord => vec!["discord.exe", "discord"],
        ProcessGuard::Figma => vec!["figma.exe", "figma"],
        ProcessGuard::WeChat => vec![
            "wechat.exe",
            "wechat",
            "wechatappex.exe",
            "wechatappex",
            "weixin.exe",
            "weixin",
            "weixinappex.exe",
            "weixinappex",
        ],
        ProcessGuard::Qq => vec!["qq.exe", "qq", "qqnt.exe", "qqnt", "qqprotect.exe"],
    };
    assert(v@ =~= guard_names(guard));
    v
}

/// The application name a guard reports.
pub open spec fn guard_display_name(guard: ProcessGuard) -> &'static str {
    match guard {
        ProcessGuard::Browser(browser) => browser_display_name(browser),
        ProcessGuard::VsCode => "Visual Studio Code",
        ProcessGuard::Discord => "Discord",
        ProcessGuard::Figma => "Figma",
        ProcessGuard::WeChat => "微信",
        ProcessGuard::Qq => "QQ",
    }
}

pub fn process_guard_name(guard: ProcessGuard) -> (r: &'static str)
    ensures
        r == guard_display_name(guard),
{
    match guard {
        ProcessGuard::Browser(browser) => browser.display_name(),
        ProcessGuard::VsCode => "Visual Studio Code",
        ProcessGuard::Discord => "Discord",
        ProcessGuard::Figma => "Figma",
        ProcessGuard::WeChat => "微信",
        ProcessGuard::Qq => "QQ",
    }
}

/// A process name without surrounding whitespace and without any directory
/// part before its last `/` or `\`.
pub open spec fn basename_spec(process_name: Seq<char>) -> Seq<char> {
    last_segment(trim(process_name))
}

pub fn process_basename(process_name: &str) -> (r: Vec<char>)
    ensures
        r@ == basename_spec(process_name@),
{
    let chars = chars_of(process_name);
    let (lo, hi) = trim_bounds(&chars);
    let trimmed = slice_chars(&chars, lo, hi);
    let mut to = trimmed.len();
    while to > 0
        invariant
            0 <= to <= trimmed@.len(),
            trimmed@ == trim(process_name@),
            rfind_sep(trimmed@, trimmed@.len() as int) == rfind_sep(trimmed@, to as int),
        decreases to,
    {
        if trimmed[to - 1] == '\\' || trimmed[to - 1] == '/' {
            assert(rfind_sep(trimmed@, to as int) == Some((to - 1) as int));
            assert(trimmed@.subrange(to as int, trimmed@.len() as int) =~= trimmed@.skip(to as int));
            return slice_chars(&trimmed, to, trimmed.len());
        }
        to = to - 1;
    }
    assert(trimmed@.subrange(0, trimmed@.len() as int) == trimmed@);
    trimmed
}

/// Whether a running process, by its basename, is one that `guard` watches.
pub open spec fn guard_matches(guard: ProcessGuard, process_name: Seq<char>) -> bool {
    exists|j: int|
        0 <= j < guard_names(guard).len() && eq_ignore_case(
            basename_spec(process_name),
            #[trigger] guard_names(guard)[j]@,
        )
}

/// Whether any of the running processes is one that `guard` watches.
pub open spec fn guard_blocks(guard: ProcessGuard, process_names: Seq<String>) -> bool {
    exists|i: int| 0 <= i < process_names.len() && guard_matches(guard, #[trigger] process_names[i]@)
}

fn basename_is_guarded(guard: ProcessGuard, basename: &Vec<char>, names: &Vec<&'static str>) -> (r: bool)
    requires
        names@ == guard_names(guard),
    ensures
        r == exists|j: int| 0 <= j < guard_names(guard).len() && eq_ignore_case(basename@, #[trigger] guard_names(guard)[j]@),
{
    let mut j: usize = 0;
    while j < names.len()
        invariant
            0 <= j <= names@.len(),
            names@ == guard_names(guard),
            forall|k: int| 0 <= k < j ==> !eq_ignore_case(basename@, #[trigger] guard_names(guard)[k]@),
        decreases names@.len() - j,
    {
        if eq_ignore_case_str(basename, names[j]) {
            return true;
        }
        j = j + 1;
    }
    false
}

/// Whether one of `process_names` runs a program that `guard` watches:
/// exact basename match, ASCII case ignored.
pub fn process_guard_blocks(guard: ProcessGuard, process_names: &Vec<String>) -> (r: bool)
    ensures
        r == guard_blocks(guard, process_names@),
{
    let names = guarded_process_names(guard);
    let mut i: usize = 0;
    while i < process_names.len()
        invariant
            0 <= i <= process_names@.len(),
            names@ == guard_names(guard),
            forall|k: int| 0 <= k < i ==> !guard_matches(guard, #[trigger] process_names@[k]@),
        decreases process_names@.len() - i,
    {
        let basename = process_basename(process_names[i].as_str());
        if basename_is_guarded(guard, &basename, &names) {
            assert(guard_matches(guard, process_names@[i as int]@));
            return true;
        }
        i = i + 1;
    }
    false
}

/// The refusal for a guarded rule whose application cannot be ruled out.
pub open spec fn guard_error_spec(rule: Rule, process_names: Option<Seq<String>>) -> Option<Seq<char>> {
    match rule.process_guard {
        None => None,
        Some(guard) => match process_names {
            None => Some(
                "无法确认 "@ + guard_display_name(guard)@ + " 的运行状态；为避免误清理正在使用的数据，本次已安全跳过"@,
            ),
            Some(names) => if guard_blocks(guard, names) {
                Some(
                    "检测到 "@ + guard_display_name(guard)@ + " 正在运行；为避免误清理正在使用的数据，本次已安全跳过"@,
                )
            } else {
                None
            },
        },
    }
}

pub open spec fn opt_views(names: Option<&Vec<String>>) -> Option<Seq<String>> {
    match names {
        Some(v) => Some(v@),
        None => None,
    }
}

/// Why a guarded rule must be skipped now: its application is running, or the
/// process list (`None`) could not be read.
pub fn process_guard_error(rule: &Rule, process_names: Option<&Vec<String>>) -> (r: Option<String>)
    ensures
        match r {
            Some(message) => guard_error_spec(*rule, opt_views(process_names)) == Some(message@),
            None => guard_error_spec(*rule, opt_views(process_names)) is None,
        },
{
    let guard = match rule.process_guard {
        Some(guard) => guard,
        None => return None,
    };
    match process_names {
        None => {
            let mut message = "无法确认 ".to_string();
            vstd::string::StringExecFns::append(&mut message, process_guard_name(guard));
            vstd::string::StringExecFns::append(
                &mut message,
                " 的运行状态；为避免误清理正在使用的数据，本次已安全跳过",
            );
            Some(message)
        },
        Some(names) => {
            if process_guard_blocks(guard, names) {
                let mut message = "检测到 ".to_string();
                vstd::string::StringExecFns::append(&mut message, process_guard_name(guard));
                vstd::string::StringExecFns::append(
                    &mut message,
                    " 正在运行；为避免误清理正在使用的数据，本次已安全跳过",
                );
                Some(message)
            } else {
                None
            }
        },
    }
}

/// Whether a rule may be executed given the running processes.
pub open spec fn executable_spec(rule: Rule, process_names: Option<Seq<String>>) -> bool {
    match (rule.process_guard, process_names) {
        (None, _) => true,
        (Some(guard), Some(names)) => !guard_blocks(guard, names),
        (Some(_), None) => false,
    }
}

pub fn rule_is_executable(rule: &Rule, process_names: Option<&Vec<String>>) -> (r: bool)
    ensures
        r == executable_spec(*rule, opt_views(process_names)),
{
    match (rule.process_guard, process_names) {
        (None, _) => true,
        (Some(guard), Some(names)) => !process_guard_blocks(guard, names),
        (Some(_), None) => false,
    }
}

/// Browser caches are always scanned (read-only) and then marked unavailable
/// while the browser runs; every other rule is scanned only when it could be
/// executed.
pub fn rule_can_be_scanned(rule: &Rule, process_names: Option<&Vec<String>>) -> (r: bool)
    ensures
        r == (rule.process_guard matches Some(ProcessGuard::Browser(_)) || executable_spec(
            *rule,
            opt_views(process_names),
        )),
{
    match rule.process_guard {
        Some(ProcessGuard::Browser(_)) => true,
        _ => rule_is_executable(rule, process_names),
    }
}

} // verus!
