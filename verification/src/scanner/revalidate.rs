//! The checks a snapshot file must pass, just before it is removed, to show
//! that it is still the file the scan recorded.
use vstd::prelude::*;
use crate::cleanup_plan::executor::{decimal, decimal_text_u64};
use crate::scanner::collect::{
    first_rule, is_strictly_inside, prefixed, root_refusal, rule_for_snapshot, strictly_inside, validated_snapshot_root,
    EntryFacts, RootObservation,
};
use crate::scanner::rules::RuleRoots;
use crate::scanner::{guard_error_spec, Rule, opt_views, process_guard_error, CleanupSnapshot, FileIdentity, FileSnapshot};
use crate::text::chars_of;

verus! {

/// What the metadata of a file (not followed through links) shows.
#[derive(Debug)]
pub struct FileFacts {
    pub is_file: bool,
    pub is_link_or_reparse: bool,
    pub is_offline_or_recall: bool,
    pub size: u64,
    /// Modification time in nanoseconds since the Unix epoch, or why it
    /// could not be read.
    pub modified_unix_nanos: Result<i128, String>,
}

/// What was read of a file before it is opened: the components of its path
/// and of its snapshot's directory, the metadata of each directory between
/// them (outermost first), the file's own metadata, its resolved path with
/// that path's components, the components of the resolved directory, and
/// whether it has no data stream but the default one (`None`: could not be
/// told).
#[derive(Debug)]
pub struct FileBeforeOpen {
    pub path_components: Vec<String>,
    pub root_components: Vec<String>,
    pub parents: Vec<Result<EntryFacts, String>>,
    pub metadata: Result<FileFacts, String>,
    pub canonical: Result<(String, Vec<String>), String>,
    pub canonical_root_components: Vec<String>,
    pub only_default_stream: Option<bool>,
}

/// What was read of a file through an open handle: its metadata, its
/// identity and its number of hard links (`None`: could not be told), and,
/// with the handle open, whether it still has only the default data stream.
#[derive(Debug)]
pub struct HandleFacts {
    pub metadata: Result<FileFacts, String>,
    pub identity: Option<FileIdentity>,
    pub link_count: Option<u64>,
    pub only_default_stream: Option<bool>,
}

/// What was read of a file once its handle is closed: its metadata, the
/// metadata of the directories above it again, its resolved path, and its
/// data streams.
#[derive(Debug)]
pub struct FileAfterOpen {
    pub metadata: Result<FileFacts, String>,
    pub parents: Vec<Result<EntryFacts, String>>,
    pub canonical: Result<String, String>,
    pub only_default_stream: Option<bool>,
}

/// Why the directories above a file fail, from the `i`-th on, if they do.
pub open spec fn parents_refusal_from(parents: Seq<Result<EntryFacts, String>>, i: int) -> Option<Seq<char>>
    decreases parents.len() - i,
{
    if i < 0 || i >= parents.len() {
        None
    } else {
        match parents[i] {
            Err(e) => Some("文件父目录已失效或不可访问: "@ + e@),
            Ok(facts) => if facts.is_link_or_reparse || facts.is_offline_or_recall || !facts.is_dir {
                Some("文件父目录已变为链接或非目录对象"@)
            } else {
                parents_refusal_from(parents, i + 1)
            },
        }
    }
}

/// Why a file's metadata no longer matches its snapshot, if it does not.
pub open spec fn metadata_refusal(facts: FileFacts, file: FileSnapshot) -> Option<Seq<char>> {
    if facts.is_link_or_reparse || facts.is_offline_or_recall || !facts.is_file {
        Some("文件已变为链接、云占位或非普通文件"@)
    } else if facts.size != file.size {
        Some("文件大小已变化（扫描时 "@ + decimal(file.size as nat) + " 字节，当前 "@ + decimal(facts.size as nat) + " 字节）"@)
    } else {
        match facts.modified_unix_nanos {
            Err(e) => Some("无法读取文件修改时间: "@ + e@),
            Ok(modified) => if modified != file.modified_unix_nanos {
                Some("文件修改时间已变化"@)
            } else {
                None
            },
        }
    }
}

/// Why a file fails the checks made before it is opened, if it does.
pub open spec fn before_open_refusal(file: FileSnapshot, seen: FileBeforeOpen) -> Option<Seq<char>> {
    if !strictly_inside(seen.root_components@, seen.path_components@) {
        Some("快照文件不在规则目录内"@)
    } else if parents_refusal_from(seen.parents@, 0) is Some {
        parents_refusal_from(seen.parents@, 0)
    } else {
        match seen.metadata {
            Err(e) => Some("文件已失效或不可访问: "@ + e@),
            Ok(facts) => if metadata_refusal(facts, file) is Some {
                metadata_refusal(facts, file)
            } else {
                match seen.canonical {
                    Err(e) => Some("无法验证文件路径: "@ + e@),
                    Ok((canonical, components)) => if !strictly_inside(seen.canonical_root_components@, components@) {
                        Some("文件当前不在规则目录内"@)
                    } else if canonical@ != file.canonical_path@ {
                        Some("文件解析路径在扫描后发生变化"@)
                    } else {
                        match seen.only_default_stream {
                            Some(true) => None,
                            Some(false) => Some("文件包含额外数据流，已安全保留"@),
                            None => Some("无法复检文件数据流，已安全保留"@),
                        }
                    },
                }
            },
        }
    }
}

/// Why a file fails the checks made through an open handle, if it does.
pub open spec fn opened_refusal(file: FileSnapshot, opened: Result<HandleFacts, String>) -> Option<Seq<char>> {
    match opened {
        Err(e) => Some("无法打开文件进行身份复检: "@ + e@),
        Ok(seen) => match seen.metadata {
            Err(e) => Some("无法读取打开文件的身份信息: "@ + e@),
            Ok(facts) => if metadata_refusal(facts, file) is Some {
                metadata_refusal(facts, file)
            } else {
                match seen.identity {
                    None => Some("无法确认文件身份，已安全保留"@),
                    Some(identity) => if identity != file.identity {
                        Some("文件身份与扫描快照不一致，已安全保留"@)
                    } else {
                        match seen.link_count {
                            None => Some("无法确认文件硬链接状态，已安全保留"@),
                            Some(links) => if links != 1 {
                                Some("文件硬链接状态不允许安全删除，已安全保留"@)
                            } else {
                                match seen.only_default_stream {
                                    Some(true) => None,
                                    Some(false) => Some("文件新增了额外数据流，已安全保留"@),
                                    None => Some("无法完成文件数据流复检，已安全保留"@),
                                }
                            },
                        }
                    },
                }
            },
        },
    }
}

/// Why a file fails the checks made once its handle is closed, if it does;
/// `canonical_before` is the resolved path read before it was opened.
pub open spec fn after_open_refusal(file: FileSnapshot, canonical_before: Seq<char>, seen: FileAfterOpen) -> Option<Seq<char>> {
    match seen.metadata {
        Err(e) => Some("文件在验证期间失效: "@ + e@),
        Ok(facts) => if parents_refusal_from(seen.parents@, 0) is Some {
            parents_refusal_from(seen.parents@, 0)
        } else if metadata_refusal(facts, file) is Some {
            metadata_refusal(facts, file)
        } else {
            match seen.canonical {
                Err(e) => Some("无法完成文件路径复检: "@ + e@),
                Ok(canonical) => if canonical@ != canonical_before {
                    Some("文件路径在身份复检期间发生变化，已安全保留"@)
                } else {
                    match seen.only_default_stream {
                        Some(true) => None,
                        Some(false) => Some("文件在复检期间新增了额外数据流，已安全保留"@),
                        None => Some("无法完成删除前数据流复检，已安全保留"@),
                    }
                },
            }
        },
    }
}

/// The outcome of a check: `Ok` where there is no refusal, else the refusal.
pub open spec fn checked(r: Result<(), String>, refusal: Option<Seq<char>>) -> bool {
    match r {
        Ok(()) => refusal is None,
        Err(message) => refusal == Some(message@),
    }
}

fn parents_refusal(parents: &Vec<Result<EntryFacts, String>>) -> (r: Result<(), String>)
    ensures
        checked(r, parents_refusal_from(parents@, 0)),
{
    let mut i: usize = 0;
    while i < parents.len()
        invariant
            0 <= i <= parents@.len(),
            parents_refusal_from(parents@, 0) == parents_refusal_from(parents@, i as int),
        decreases parents@.len() - i,
    {
        match &parents[i] {
            Err(e) => return Err(prefixed("文件父目录已失效或不可访问: ", e)),
            Ok(facts) => {
                if facts.is_link_or_reparse || facts.is_offline_or_recall || !facts.is_dir {
                    return Err("文件父目录已变为链接或非目录对象".to_string());
                }
            },
        }
        i = i + 1;
    }
    Ok(())
}

fn check_metadata(facts: &FileFacts, file: &FileSnapshot) -> (r: Result<(), String>)
    ensures
        checked(r, metadata_refusal(*facts, *file)),
{
    if facts.is_link_or_reparse || facts.is_offline_or_recall || !facts.is_file {
        return Err("文件已变为链接、云占位或非普通文件".to_string());
    }
    if facts.size != file.size {
        let mut message = "文件大小已变化（扫描时 ".to_string();
        vstd::string::StringExecFns::append(&mut message, decimal_text_u64(file.size).as_str());
        vstd::string::StringExecFns::append(&mut message, " 字节，当前 ");
        vstd::string::StringExecFns::append(&mut message, decimal_text_u64(facts.size).as_str());
        vstd::string::StringExecFns::append(&mut message, " 字节）");
        return Err(message);
    }
    match &facts.modified_unix_nanos {
        Err(e) => Err(prefixed("无法读取文件修改时间: ", e)),
        Ok(modified) => if *modified != file.modified_unix_nanos {
            Err("文件修改时间已变化".to_string())
        } else {
            Ok(())
        },
    }
}

fn same_text(a: &String, b: &String) -> (r: bool)
    ensures
        r == (a@ == b@),
{
    crate::apps::vec_eq(&chars_of(a.as_str()), &chars_of(b.as_str()))
}

/// The checks made before a snapshot file is opened: it lies strictly
/// inside its snapshot's directory, the directories above it are plain
/// local directories, its metadata matches the snapshot, it resolves inside
/// the resolved directory and to the path the scan recorded, and it has no
/// data stream but the default one. The first failing check is reported.
pub fn check_before_open(file: &FileSnapshot, seen: &FileBeforeOpen) -> (r: Result<(), String>)
    ensures
        checked(r, before_open_refusal(*file, *seen)),
{
    if !is_strictly_inside(&seen.root_components, &seen.path_components) {
        return Err("快照文件不在规则目录内".to_string());
    }
    parents_refusal(&seen.parents)?;
    match &seen.metadata {
        Err(e) => return Err(prefixed("文件已失效或不可访问: ", e)),
        Ok(facts) => check_metadata(facts, file)?,
    }
    match &seen.canonical {
        Err(e) => Err(prefixed("无法验证文件路径: ", e)),
        Ok((canonical, components)) => {
            if !is_strictly_inside(&seen.canonical_root_components, components) {
                return Err("文件当前不在规则目录内".to_string());
            }
            if !same_text(canonical, &file.canonical_path) {
                return Err("文件解析路径在扫描后发生变化".to_string());
            }
            match seen.only_default_stream {
                Some(true) => Ok(()),
                Some(false) => Err("文件包含额外数据流，已安全保留".to_string()),
                None => Err("无法复检文件数据流，已安全保留".to_string()),
            }
        },
    }
}

/// The checks made through an open handle: the file could be opened, its
/// metadata still matches, it is the file the scan identified, it has a
/// single link, and it still has only the default data stream.
pub fn check_opened(file: &FileSnapshot, opened: &Result<HandleFacts, String>) -> (r: Result<(), String>)
    ensures
        checked(r, opened_refusal(*file, *opened)),
{
    let seen = match opened {
        Err(e) => return Err(prefixed("无法打开文件进行身份复检: ", e)),
        Ok(seen) => seen,
    };
    match &seen.metadata {
        Err(e) => return Err(prefixed("无法读取打开文件的身份信息: ", e)),
        Ok(facts) => check_metadata(facts, file)?,
    }
    match seen.identity {
        None => return Err("无法确认文件身份，已安全保留".to_string()),
        Some(identity) => {
            if identity != file.identity {
                return Err("文件身份与扫描快照不一致，已安全保留".to_string());
            }
        },
    }
    match seen.link_count {
        None => return Err("无法确认文件硬链接状态，已安全保留".to_string()),
        Some(links) => {
            if links != 1 {
                return Err("文件硬链接状态不允许安全删除，已安全保留".to_string());
            }
        },
    }
    match seen.only_default_stream {
        Some(true) => Ok(()),
        Some(false) => Err("文件新增了额外数据流，已安全保留".to_string()),
        None => Err("无法完成文件数据流复检，已安全保留".to_string()),
    }
}

/// The checks made once the handle is closed: the file is still there with
/// the same metadata under the same plain directories, resolves to the path
/// read before it was opened, and has still only the default data stream.
pub fn check_after_open(file: &FileSnapshot, canonical_before: &String, seen: &FileAfterOpen) -> (r: Result<(), String>)
    ensures
        checked(r, after_open_refusal(*file, canonical_before@, *seen)),
{
    let facts = match &seen.metadata {
        Err(e) => return Err(prefixed("文件在验证期间失效: ", e)),
        Ok(facts) => facts,
    };
    parents_refusal(&seen.parents)?;
    check_metadata(facts, file)?;
    match &seen.canonical {
        Err(e) => Err(prefixed("无法完成文件路径复检: ", e)),
        Ok(canonical) => {
            if !same_text(canonical, canonical_before) {
                return Err("文件路径在身份复检期间发生变化，已安全保留".to_string());
            }
            match seen.only_default_stream {
                Some(true) => Ok(()),
                Some(false) => Err("文件在复检期间新增了额外数据流，已安全保留".to_string()),
                None => Err("无法完成删除前数据流复检，已安全保留".to_string()),
            }
        },
    }
}

/// What removing a checked snapshot file gives: its recorded size, or the
/// failure of the removal.
pub fn removal_result(file: &FileSnapshot, removed: Result<(), String>) -> (r: Result<u64, String>)
    ensures
        match removed {
            Ok(()) => r == Ok::<u64, String>(file.size),
            Err(e) => r matches Err(message) && message@ == "删除失败: "@ + e@,
        },
{
    match removed {
        Ok(()) => Ok(file.size),
        Err(e) => Err(prefixed("删除失败: ", &e)),
    }
}

/// The first file of a snapshot recorded under `path`.
pub open spec fn first_file(files: Seq<FileSnapshot>, path: Seq<char>, i: int) -> bool {
    0 <= i < files.len() && files[i].path@ == path && forall|j: int| 0 <= j < i ==> (#[trigger] files[j]).path@ != path
}

/// Why a file may not be taken from a snapshot now, before the file itself
/// is checked: it is not one of the snapshot's files, the snapshot's rule is
/// unknown, its directory fails, or the rule's application is running.
pub open spec fn execution_file_refusal(
    snapshot: CleanupSnapshot,
    path: Seq<char>,
    rules: Seq<Rule>,
    roots: RuleRoots,
    observed: RootObservation,
    process_names: Option<Seq<String>>,
) -> Option<Seq<char>> {
    if !(exists|i: int| 0 <= i < snapshot.files@.len() && (#[trigger] snapshot.files@[i]).path@ == path) {
        Some("文件不属于清理计划快照"@)
    } else if !(exists|k: int| 0 <= k < rules.len() && (#[trigger] rules[k]).id@ == snapshot.item.id@) {
        Some("未知清理条目"@)
    } else {
        let k = choose|k: int| first_rule(rules, snapshot.item.id@, k);
        match root_refusal(snapshot, rules[k], roots, observed) {
            Some(message) => Some(message),
            None => guard_error_spec(rules[k], process_names),
        }
    }
}

proof fn lemma_first_rule_unique(rules: Seq<Rule>, id: Seq<char>, a: int, b: int)
    requires
        first_rule(rules, id, a),
        first_rule(rules, id, b),
    ensures
        a == b,
{
    if a < b {
        assert(rules[a].id@ != id);
    } else if b < a {
        assert(rules[b].id@ != id);
    }
}

/// Checks that a file may still be taken from a snapshot, before the file
/// itself is checked: it must be one of the snapshot's files, and the
/// snapshot's rule, directory and process guard must still allow execution.
/// Returns the file's position in the snapshot.
pub fn execution_file(
    snapshot: &CleanupSnapshot,
    path: &String,
    rules: &Vec<Rule>,
    roots: &RuleRoots,
    observed: &RootObservation,
    process_names: Option<&Vec<String>>,
) -> (r: Result<usize, String>)
    ensures
        match r {
            Ok(i) => first_file(snapshot.files@, path@, i as int)
                && execution_file_refusal(*snapshot, path@, rules@, *roots, *observed, opt_views(process_names)) is None,
            Err(message) => execution_file_refusal(*snapshot, path@, rules@, *roots, *observed, opt_views(process_names))
                == Some(message@),
        },
{
    let mut i: usize = 0;
    let mut found: Option<usize> = None;
    while i < snapshot.files.len() && found.is_none()
        invariant
            0 <= i <= snapshot.files@.len(),
            forall|j: int| 0 <= j < i ==> (#[trigger] snapshot.files@[j]).path@ != path@,
            found matches Some(f) ==> first_file(snapshot.files@, path@, f as int),
        decreases snapshot.files@.len() - i, (if found is None { 1int } else { 0int }),
    {
        if same_text(&snapshot.files[i].path, path) {
            found = Some(i);
        } else {
            i = i + 1;
        }
    }
    let i = match found {
        None => return Err("文件不属于清理计划快照".to_string()),
        Some(i) => i,
    };
    let k = match rule_for_snapshot(snapshot, rules) {
        Ok(k) => k,
        Err(error) => return Err(error),
    };
    proof {
        let c = choose|c: int| first_rule(rules@, snapshot.item.id@, c);
        assert(rules@[k as int].id@ == snapshot.item.id@);
        lemma_first_rule_unique(rules@, snapshot.item.id@, c, k as int);
    }
    validated_snapshot_root(snapshot, &rules[k], roots, observed)?;
    match process_guard_error(&rules[k], process_names) {
        Some(error) => Err(error),
        None => Ok(i),
    }
}

} // verus!
