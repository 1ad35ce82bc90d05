//! The checks a large file must pass, just before it is deleted, to show
//! that it is still the file the last large-file scan recorded; and the
//! checks a scan root must pass.
use vstd::prelude::*;
use crate::scanner::collect::{prefixed, EntryFacts};
use crate::scanner::FileIdentity;
use crate::storage::{LargeFileSnapshot, Sensitivity};
use crate::text::{chars_of, eq_ignore_case, eq_ignore_case_exec};

verus! {

/// What the metadata of a file (not followed through links) shows.
#[derive(Debug)]
pub struct LargeFileFacts {
    pub is_file: bool,
    pub is_link_or_reparse: bool,
    pub is_offline_or_recall: bool,
    pub size: u64,
    /// Modification time in nanoseconds since the Unix epoch, when known.
    pub modified_unix_nanos: Option<i128>,
}

/// Why a scan root cannot be scanned, if it cannot: it is empty or not
/// absolute, cannot be read, is not a plain local directory, is offline, or
/// cannot be resolved. Otherwise the root once links are resolved.
pub open spec fn scan_root_check(root: Seq<char>, absolute: bool, metadata: Result<EntryFacts, String>, canonical: Result<String, String>) -> Result<Seq<char>, Seq<char>> {
    if root.len() == 0 {
        Err("扫描路径不能为空"@)
    } else if !absolute {
        Err("扫描路径必须是绝对路径"@)
    } else {
        match metadata {
            Err(e) => Err("无法读取扫描路径 "@ + root + ": "@ + e@),
            Ok(facts) => if !facts.is_dir || facts.is_link_or_reparse {
                Err("扫描路径必须是普通本地目录，不能是链接、联接点或重解析点"@)
            } else if facts.is_offline_or_recall {
                Err("扫描路径是脱机或按需下载目录，为避免触发下载已拒绝扫描"@)
            } else {
                match canonical {
                    Err(e) => Err("无法验证扫描路径: "@ + e@),
                    Ok(path) => Ok(path@),
                }
            },
        }
    }
}

/// Checks a scan root from what was read of it (`absolute`: whether the
/// platform calls it absolute) and returns it once links are resolved.
pub fn check_scan_root(root: &String, absolute: bool, metadata: &Result<EntryFacts, String>, canonical: &Result<String, String>) -> (r: Result<String, String>)
    ensures
        match scan_root_check(root@, absolute, *metadata, *canonical) {
            Ok(path) => r matches Ok(p) && p@ == path,
            Err(message) => r matches Err(m) && m@ == message,
        },
{
    if root.as_str().unicode_len() == 0 {
        return Err("扫描路径不能为空".to_string());
    }
    if !absolute {
        return Err("扫描路径必须是绝对路径".to_string());
    }
    match metadata {
        Err(e) => {
            let mut message = prefixed("无法读取扫描路径 ", root);
            vstd::string::StringExecFns::append(&mut message, ": ");
            vstd::string::StringExecFns::append(&mut message, e.as_str());
            Err(message)
        },
        Ok(facts) => {
            if !facts.is_dir || facts.is_link_or_reparse {
                return Err("扫描路径必须是普通本地目录，不能是链接、联接点或重解析点".to_string());
            }
            if facts.is_offline_or_recall {
                return Err("扫描路径是脱机或按需下载目录，为避免触发下载已拒绝扫描".to_string());
            }
            match canonical {
                Err(e) => Err(prefixed("无法验证扫描路径: ", e)),
                Ok(path) => Ok(path.clone()),
            }
        },
    }
}

/// What was read of a large file before it is opened: its scan root once
/// links are resolved (or why the root fails its checks), the components of that root, of the file and of the
/// file's resolved path, the metadata of each directory between the root
/// and the file (outermost first), the file's metadata, and whether it has
/// only the default data stream.
#[derive(Debug)]
pub struct LargeFileBeforeOpen {
    pub current_root: Result<String, String>,
    pub root_components: Vec<String>,
    pub path_components: Vec<String>,
    pub parents: Vec<Result<EntryFacts, String>>,
    pub metadata: Result<LargeFileFacts, String>,
    pub canonical: Result<(String, Vec<String>), String>,
    pub only_default_stream: Option<bool>,
}

/// What was read of a large file through an open handle.
#[derive(Debug)]
pub struct LargeFileHandle {
    pub metadata: Result<LargeFileFacts, String>,
    pub identity: Option<FileIdentity>,
    pub link_count: Option<u64>,
}

/// What was read of a large file once its handle is closed.
#[derive(Debug)]
pub struct LargeFileAfterOpen {
    pub metadata: Result<LargeFileFacts, String>,
    pub parents: Vec<Result<EntryFacts, String>>,
    pub canonical: Result<String, String>,
}

/// Whether `path` lies at or below `root`, components compared without
/// case for ASCII letters.
pub open spec fn within(path: Seq<String>, root: Seq<String>) -> bool {
    root.len() <= path.len() && forall|k: int| 0 <= k < root.len() ==> eq_ignore_case((#[trigger] path[k])@, root[k]@)
}

/// Whether two component lists are the same, exactly.
pub open spec fn same_components(a: Seq<String>, b: Seq<String>) -> bool {
    a.len() == b.len() && forall|k: int| 0 <= k < a.len() ==> (#[trigger] a[k])@ == b[k]@
}

/// Why the directories above a large file fail, from the `i`-th on.
pub open spec fn large_parents_refusal(parents: Seq<Result<EntryFacts, String>>, i: int) -> Option<Seq<char>>
    decreases parents.len() - i,
{
    if i < 0 || i >= parents.len() {
        None
    } else {
        match parents[i] {
            Err(e) => Some("文件父目录已失效: "@ + e@),
            Ok(facts) => if !facts.is_dir || facts.is_link_or_reparse || facts.is_offline_or_recall {
                Some("文件父目录已变为链接、云占位或非普通目录"@)
            } else {
                large_parents_refusal(parents, i + 1)
            },
        }
    }
}

/// Why a large file's metadata no longer matches the scan, if it does not.
pub open spec fn large_metadata_refusal(facts: LargeFileFacts, snapshot: LargeFileSnapshot) -> Option<Seq<char>> {
    if !facts.is_file || facts.is_link_or_reparse || facts.is_offline_or_recall {
        Some("文件已变为链接、云占位或非普通文件，已安全保留"@)
    } else if facts.size != snapshot.candidate.size_bytes || facts.modified_unix_nanos != snapshot.candidate.modified_unix_nanos {
        Some("文件大小或修改时间与最近一次扫描不一致，已安全保留"@)
    } else {
        None
    }
}

/// Why the parent chain of a large file fails: it has no parent, its parent
/// lies outside the scan root, or a directory of the chain fails.
pub open spec fn parent_chain_refusal(path: Seq<String>, root: Seq<String>, parents: Seq<Result<EntryFacts, String>>) -> Option<Seq<char>> {
    if path.len() == 0 {
        Some("文件没有有效父目录"@)
    } else if !within(path.drop_last(), root) {
        Some("文件父目录不在最近一次扫描范围内"@)
    } else {
        large_parents_refusal(parents, 0)
    }
}

/// Why a large file fails the checks made before it is opened, if it does.
pub open spec fn large_before_open_refusal(snapshot: LargeFileSnapshot, seen: LargeFileBeforeOpen) -> Option<Seq<char>> {
    if snapshot.entry.sensitivity == Sensitivity::Protected {
        Some("受保护文件不允许通过大文件清理删除"@)
    } else if seen.current_root is Err {
        Some(seen.current_root->Err_0@)
    } else if seen.current_root->Ok_0@ != snapshot.canonical_root@ {
        Some("扫描根目录在分析后发生变化"@)
    } else if parent_chain_refusal(seen.path_components@, seen.root_components@, seen.parents@) is Some {
        parent_chain_refusal(seen.path_components@, seen.root_components@, seen.parents@)
    } else {
        match seen.metadata {
            Err(e) => Some("文件在执行前已失效: "@ + e@),
            Ok(facts) => if large_metadata_refusal(facts, snapshot) is Some {
                large_metadata_refusal(facts, snapshot)
            } else {
                match seen.canonical {
                    Err(e) => Some("无法复检文件路径: "@ + e@),
                    Ok((_, components)) => if same_components(components@, seen.root_components@)
                        || !within(components@, seen.root_components@) {
                        Some("文件已移出最近一次扫描的本地磁盘范围"@)
                    } else {
                        match seen.only_default_stream {
                            Some(true) => None,
                            Some(false) => Some("文件新增了额外数据流，已安全保留"@),
                            None => Some("无法复检文件数据流，已安全保留"@),
                        }
                    },
                }
            },
        }
    }
}

/// Why a large file fails the checks made through an open handle.
pub open spec fn large_opened_refusal(snapshot: LargeFileSnapshot, opened: Result<LargeFileHandle, String>) -> Option<Seq<char>> {
    match opened {
        Err(e) => Some("无法打开文件进行身份复检: "@ + e@),
        Ok(seen) => match seen.metadata {
            Err(e) => Some("无法读取打开文件的身份信息: "@ + e@),
            Ok(facts) => if large_metadata_refusal(facts, snapshot) is Some {
                large_metadata_refusal(facts, snapshot)
            } else {
                match seen.identity {
                    None => Some("无法确认文件身份，已安全保留"@),
                    Some(identity) => if snapshot.candidate.identity != Some(identity) {
                        Some("文件身份与最近一次扫描不一致，已安全保留"@)
                    } else {
                        match seen.link_count {
                            None => Some("无法确认文件硬链接状态，已安全保留"@),
                            Some(links) => if links != 1 {
                                Some("文件硬链接状态不允许安全删除，已安全保留"@)
                            } else {
                                None
                            },
                        }
                    },
                }
            },
        },
    }
}

/// Why a large file fails the checks made once its handle is closed;
/// `canonical_before` is the resolved path read before it was opened.
pub open spec fn large_after_open_refusal(
    snapshot: LargeFileSnapshot,
    path: Seq<String>,
    root: Seq<String>,
    canonical_before: Seq<char>,
    seen: LargeFileAfterOpen,
) -> Option<Seq<char>> {
    match seen.metadata {
        Err(e) => Some("文件在身份复检后已失效: "@ + e@),
        Ok(facts) => if large_metadata_refusal(facts, snapshot) is Some {
            large_metadata_refusal(facts, snapshot)
        } else if parent_chain_refusal(path, root, seen.parents@) is Some {
            parent_chain_refusal(path, root, seen.parents@)
        } else {
            match seen.canonical {
                Err(e) => Some("无法完成删除前路径复检: "@ + e@),
                Ok(canonical) => if canonical@ != canonical_before {
                    Some("文件路径在复检期间发生变化，已安全保留"@)
                } else {
                    None
                },
            }
        },
    }
}

/// The outcome of a check: `Ok` where there is no refusal, else the refusal.
pub open spec fn decided(r: Result<(), String>, refusal: Option<Seq<char>>) -> bool {
    match r {
        Ok(()) => refusal is None,
        Err(message) => refusal == Some(message@),
    }
}

fn same_text(a: &String, b: &String) -> (r: bool)
    ensures
        r == (a@ == b@),
{
    crate::apps::vec_eq(&chars_of(a.as_str()), &chars_of(b.as_str()))
}

fn is_within(path: &Vec<String>, upto: usize, root: &Vec<String>) -> (r: bool)
    requires
        upto <= path@.len(),
    ensures
        r == within(path@.take(upto as int), root@),
{
    if root.len() > upto {
        return false;
    }
    let mut k: usize = 0;
    while k < root.len()
        invariant
            0 <= k <= root@.len() <= upto <= path@.len(),
            forall|j: int| 0 <= j < k ==> eq_ignore_case((#[trigger] path@.take(upto as int)[j])@, root@[j]@),
        decreases root@.len() - k,
    {
        if !eq_ignore_case_exec(&chars_of(path[k].as_str()), &chars_of(root[k].as_str())) {
            assert(path@.take(upto as int)[k as int] == path@[k as int]);
            return false;
        }
        assert(path@.take(upto as int)[k as int] == path@[k as int]);
        k = k + 1;
    }
    true
}

fn is_same_components(a: &Vec<String>, b: &Vec<String>) -> (r: bool)
    ensures
        r == same_components(a@, b@),
{
    if a.len() != b.len() {
        return false;
    }
    let mut k: usize = 0;
    while k < a.len()
        invariant
            0 <= k <= a@.len(),
            a@.len() == b@.len(),
            forall|j: int| 0 <= j < k ==> (#[trigger] a@[j])@ == b@[j]@,
        decreases a@.len() - k,
    {
        if !same_text(&a[k], &b[k]) {
            return false;
        }
        k = k + 1;
    }
    true
}

fn check_parents(parents: &Vec<Result<EntryFacts, String>>) -> (r: Result<(), String>)
    ensures
        decided(r, large_parents_refusal(parents@, 0)),
{
    let mut i: usize = 0;
    while i < parents.len()
        invariant
            0 <= i <= parents@.len(),
            large_parents_refusal(parents@, 0) == large_parents_refusal(parents@, i as int),
        decreases parents@.len() - i,
    {
        match &parents[i] {
            Err(e) => return Err(prefixed("文件父目录已失效: ", e)),
            Ok(facts) => {
                if !facts.is_dir || facts.is_link_or_reparse || facts.is_offline_or_recall {
                    return Err("文件父目录已变为链接、云占位或非普通目录".to_string());
                }
            },
        }
        i = i + 1;
    }
    Ok(())
}

fn check_parent_chain(path: &Vec<String>, root: &Vec<String>, parents: &Vec<Result<EntryFacts, String>>) -> (r: Result<(), String>)
    ensures
        decided(r, parent_chain_refusal(path@, root@, parents@)),
{
    if path.len() == 0 {
        return Err("文件没有有效父目录".to_string());
    }
    if !is_within(path, path.len() - 1, root) {
        assert(path@.take(path@.len() - 1) =~= path@.drop_last());
        return Err("文件父目录不在最近一次扫描范围内".to_string());
    }
    assert(path@.take(path@.len() - 1) =~= path@.drop_last());
    check_parents(parents)
}

fn check_metadata(facts: &LargeFileFacts, snapshot: &LargeFileSnapshot) -> (r: Result<(), String>)
    ensures
        decided(r, large_metadata_refusal(*facts, *snapshot)),
{
    if !facts.is_file || facts.is_link_or_reparse || facts.is_offline_or_recall {
        return Err("文件已变为链接、云占位或非普通文件，已安全保留".to_string());
    }
    if facts.size != snapshot.candidate.size_bytes || facts.modified_unix_nanos != snapshot.candidate.modified_unix_nanos {
        return Err("文件大小或修改时间与最近一次扫描不一致，已安全保留".to_string());
    }
    Ok(())
}

/// The checks made before a large file is opened: it is not protected, its
/// scan root still resolves where it did, the directories above it are
/// plain, its metadata matches the scan, it still resolves strictly inside
/// the root, and it has only the default data stream.
pub fn check_large_file_before_open(snapshot: &LargeFileSnapshot, seen: &LargeFileBeforeOpen) -> (r: Result<(), String>)
    ensures
        decided(r, large_before_open_refusal(*snapshot, *seen)),
{
    if snapshot.entry.sensitivity == Sensitivity::Protected {
        return Err("受保护文件不允许通过大文件清理删除".to_string());
    }
    match &seen.current_root {
        Err(m) => return Err(m.clone()),
        Ok(root) => {
            if !same_text(root, &snapshot.canonical_root) {
                return Err("扫描根目录在分析后发生变化".to_string());
            }
        },
    }
    check_parent_chain(&seen.path_components, &seen.root_components, &seen.parents)?;
    match &seen.metadata {
        Err(e) => return Err(prefixed("文件在执行前已失效: ", e)),
        Ok(facts) => check_metadata(facts, snapshot)?,
    }
    match &seen.canonical {
        Err(e) => Err(prefixed("无法复检文件路径: ", e)),
        Ok((_, components)) => {
            let inside = is_within(components, components.len(), &seen.root_components);
            assert(components@.take(components@.len() as int) =~= components@);
            if is_same_components(components, &seen.root_components) || !inside {
                return Err("文件已移出最近一次扫描的本地磁盘范围".to_string());
            }
            match seen.only_default_stream {
                Some(true) => Ok(()),
                Some(false) => Err("文件新增了额外数据流，已安全保留".to_string()),
                None => Err("无法复检文件数据流，已安全保留".to_string()),
            }
        },
    }
}

/// The checks made through an open handle: its metadata still matches, it
/// is the file the scan identified, and it has a single link.
pub fn check_large_file_opened(snapshot: &LargeFileSnapshot, opened: &Result<LargeFileHandle, String>) -> (r: Result<(), String>)
    ensures
        decided(r, large_opened_refusal(*snapshot, *opened)),
{
    let seen = match opened {
        Err(e) => return Err(prefixed("无法打开文件进行身份复检: ", e)),
        Ok(seen) => seen,
    };
    match &seen.metadata {
        Err(e) => return Err(prefixed("无法读取打开文件的身份信息: ", e)),
        Ok(facts) => check_metadata(facts, snapshot)?,
    }
    match seen.identity {
        None => return Err("无法确认文件身份，已安全保留".to_string()),
        Some(identity) => {
            if snapshot.candidate.identity != Some(identity) {
                return Err("文件身份与最近一次扫描不一致，已安全保留".to_string());
            }
        },
    }
    match seen.link_count {
        None => Err("无法确认文件硬链接状态，已安全保留".to_string()),
        Some(links) => if links != 1 {
            Err("文件硬链接状态不允许安全删除，已安全保留".to_string())
        } else {
            Ok(())
        },
    }
}

/// The checks made once the handle is closed: the metadata still matches,
/// the directories above are still plain, and the file resolves to the path
/// read before it was opened.
pub fn check_large_file_after_open(
    snapshot: &LargeFileSnapshot,
    path_components: &Vec<String>,
    root_components: &Vec<String>,
    canonical_before: &String,
    seen: &LargeFileAfterOpen,
) -> (r: Result<(), String>)
    ensures
        decided(r, large_after_open_refusal(*snapshot, path_components@, root_components@, canonical_before@, *seen)),
{
    match &seen.metadata {
        Err(e) => return Err(prefixed("文件在身份复检后已失效: ", e)),
        Ok(facts) => check_metadata(facts, snapshot)?,
    }
    check_parent_chain(path_components, root_components, &seen.parents)?;
    match &seen.canonical {
        Err(e) => Err(prefixed("无法完成删除前路径复检: ", e)),
        Ok(canonical) => if !same_text(canonical, canonical_before) {
            Err("文件路径在复检期间发生变化，已安全保留".to_string())
        } else {
            Ok(())
        },
    }
}

/// What removing a checked large file gives: its recorded size, or the
/// failure of the removal.
pub fn large_file_removal(snapshot: &LargeFileSnapshot, removed: Result<(), String>) -> (r: Result<u64, String>)
    ensures
        match removed {
            Ok(()) => r == Ok::<u64, String>(snapshot.candidate.size_bytes),
            Err(e) => r matches Err(message) && message@ == "永久删除失败: "@ + e@,
        },
{
    match removed {
        Ok(()) => Ok(snapshot.candidate.size_bytes),
        Err(e) => Err(prefixed("永久删除失败: ", &e)),
    }
}

} // verus!
