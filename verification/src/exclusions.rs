//! The subtrees that a storage scan is asked to leave out: each requested
//! path is normalized lexically, placed inside the scan root, resolved, and
//! the set is reduced to the paths that no other one contains.
use vstd::prelude::*;
use crate::scanner::collect::prefixed;
use crate::apps::starts_with;
use crate::scanner::rules::starts_with_exec;
use crate::text::{chars_of, eq_ignore_case, eq_ignore_case_exec, string_of, trim, trim_bounds};

verus! {

/// The most paths a scan may exclude.
pub const HARD_MAX_EXCLUDED_PATHS: usize = 64;

/// The longest excluded path, in UTF-16 code units.
pub const HARD_MAX_EXCLUDED_PATH_LENGTH: usize = 32767;

/// One component of a path, as the platform parses it.
#[derive(Debug)]
pub enum PathPart {
    /// A volume or share prefix such as `C:`.
    Prefix(String),
    /// The root separator.
    Root,
    /// `.`
    Current,
    /// `..`
    Parent,
    /// A named component.
    Normal(String),
}

/// Whether two components are the same, ASCII letters compared without case
/// as the file system compares them.
pub open spec fn same_part(a: PathPart, b: PathPart) -> bool {
    match (a, b) {
        (PathPart::Prefix(x), PathPart::Prefix(y)) => eq_ignore_case(x@, y@),
        (PathPart::Root, PathPart::Root) => true,
        (PathPart::Current, PathPart::Current) => true,
        (PathPart::Parent, PathPart::Parent) => true,
        (PathPart::Normal(x), PathPart::Normal(y)) => eq_ignore_case(x@, y@),
        _ => false,
    }
}

/// Whether `prefix` is a leading run of `path`, component by component.
pub open spec fn has_prefix(path: Seq<PathPart>, prefix: Seq<PathPart>) -> bool {
    prefix.len() <= path.len() && forall|k: int| 0 <= k < prefix.len() ==> same_part(#[trigger] path[k], prefix[k])
}

/// The number of UTF-16 code units that encode a text.
pub open spec fn utf16_len(s: Seq<char>) -> nat
    decreases s.len(),
{
    if s.len() == 0 {
        0
    } else {
        utf16_len(s.drop_last()) + if (s.last() as u32) >= 0x10000 { 2nat } else { 1nat }
    }
}

/// Why a requested path, as given, is refused before it is parsed, if it is.
pub open spec fn request_text_refusal(requested: Seq<char>) -> Option<Seq<char>> {
    if trim(requested).len() == 0 {
        Some("excludedPaths 不能包含空路径"@)
    } else if utf16_len(trim(requested)) > HARD_MAX_EXCLUDED_PATH_LENGTH {
        Some("excludedPaths 单项不能超过 32767 个 UTF-16 代码单元"@)
    } else {
        None
    }
}

proof fn lemma_utf16_prefix(s: Seq<char>, k: int)
    requires
        0 <= k < s.len(),
    ensures
        utf16_len(s.take(k + 1)) == utf16_len(s.take(k)) + if (s[k] as u32) >= 0x10000 { 2nat } else { 1nat },
{
    assert(s.take(k + 1).drop_last() =~= s.take(k));
}

proof fn lemma_utf16_monotone(s: Seq<char>, k: int)
    requires
        0 <= k <= s.len(),
    ensures
        utf16_len(s.take(k)) <= utf16_len(s),
    decreases s.len() - k,
{
    if k < s.len() {
        lemma_utf16_prefix(s, k);
        lemma_utf16_monotone(s, k + 1);
    } else {
        assert(s.take(k) =~= s);
    }
}

pub(crate) fn utf16_longer_than(s: &Vec<char>, limit: usize) -> (r: bool)
    ensures
        r == (utf16_len(s@) > limit),
{
    let mut total: usize = 0;
    let mut i: usize = 0;
    while i < s.len()
        invariant
            0 <= i <= s@.len(),
            total == utf16_len(s@.take(i as int)),
            total <= limit,
        decreases s@.len() - i,
    {
        proof {
            lemma_utf16_prefix(s@, i as int);
        }
        let width: usize = if (s[i] as u32) >= 0x10000 { 2 } else { 1 };
        if width > limit - total {
            proof {
                lemma_utf16_monotone(s@, i + 1);
            }
            return true;
        }
        total = total + width;
        i = i + 1;
    }
    assert(s@.take(s@.len() as int) =~= s@);
    false
}

/// The requested path with surrounding whitespace removed, or the refusal of
/// an empty or overlong request.
pub fn excluded_request_text(requested: &str) -> (r: Result<String, String>)
    ensures
        match request_text_refusal(requested@) {
            Some(message) => r matches Err(m) && m@ == message,
            None => r matches Ok(text) && text@ == trim(requested@),
        },
{
    let chars = chars_of(requested);
    let (lo, hi) = trim_bounds(&chars);
    let text = string_of(&chars, lo, hi);
    if lo == hi {
        return Err("excludedPaths 不能包含空路径".to_string());
    }
    let trimmed = chars_of(text.as_str());
    if utf16_longer_than(&trimmed, HARD_MAX_EXCLUDED_PATH_LENGTH) {
        return Err("excludedPaths 单项不能超过 32767 个 UTF-16 代码单元".to_string());
    }
    Ok(text)
}

/// The refusal of too many excluded paths, if there are.
pub fn check_excluded_count(count: usize) -> (r: Result<(), String>)
    ensures
        (r is Ok) <==> count <= HARD_MAX_EXCLUDED_PATHS,
        r matches Err(m) ==> m@ == "excludedPaths 最多允许 64 项"@,
{
    if count > HARD_MAX_EXCLUDED_PATHS {
        Err("excludedPaths 最多允许 64 项".to_string())
    } else {
        Ok(())
    }
}

/// A path with its `.` components dropped and each `..` taking back the
/// named component before it: the normalized components of the first `n`
/// components and how many of them are named, or `None` where a `..` has
/// no named component to take back.
pub open spec fn normalize_upto(parts: Seq<PathPart>, n: int) -> Option<(Seq<PathPart>, nat)>
    decreases n,
{
    if n <= 0 {
        Some((seq![], 0nat))
    } else {
        match normalize_upto(parts, n - 1) {
            None => None,
            Some((out, named)) => match parts[n - 1] {
                PathPart::Current => Some((out, named)),
                PathPart::Parent => if named == 0 {
                    None
                } else {
                    Some((out.drop_last(), (named - 1) as nat))
                },
                PathPart::Normal(_) => Some((out.push(parts[n - 1]), named + 1)),
                _ => Some((out.push(parts[n - 1]), named)),
            },
        }
    }
}

/// The lexically normalized path, if `..` never climbs above the root.
pub open spec fn normalized(parts: Seq<PathPart>) -> Option<Seq<PathPart>> {
    match normalize_upto(parts, parts.len() as int) {
        Some((out, _)) => Some(out),
        None => None,
    }
}

/// A requested path placed against the visible scan root: an absolute path
/// stands as it is; one that starts at the root keeps only the scan root's
/// volume prefix; any other is appended to the scan root.
pub open spec fn placed(display_root: Seq<PathPart>, parts: Seq<PathPart>, absolute: bool) -> Seq<PathPart> {
    if absolute {
        parts
    } else if parts.len() > 0 && parts[0] is Root {
        if display_root.len() > 0 && display_root[0] is Prefix {
            seq![display_root[0]] + parts
        } else {
            parts
        }
    } else {
        display_root + parts
    }
}

/// What a requested path leaves out, relative to the scan root, or why it is
/// refused: a volume-relative path, a path that climbs above its volume, a
/// path outside the scan root, or the scan root itself.
pub open spec fn relative_request(display_root: Seq<PathPart>, requested: Seq<char>, parts: Seq<PathPart>, absolute: bool) -> Result<Seq<PathPart>, Seq<char>> {
    if parts.len() > 0 && parts[0] is Prefix && !absolute {
        Err("排除路径不是绝对路径: "@ + requested)
    } else {
        match normalized(placed(display_root, parts, absolute)) {
            None => Err("排除路径无法规范化或试图越过卷根: "@ + requested),
            Some(path) => if !has_prefix(path, display_root) {
                Err("排除路径不在扫描根目录内: "@ + requested)
            } else if path.len() == display_root.len() {
                Err("不能把扫描根目录本身加入 excludedPaths"@)
            } else {
                Ok(path.skip(display_root.len() as int))
            },
        }
    }
}

pub(crate) fn copy_part(p: &PathPart) -> (r: PathPart)
    ensures
        r == *p,
{
    match p {
        PathPart::Prefix(text) => PathPart::Prefix(text.clone()),
        PathPart::Root => PathPart::Root,
        PathPart::Current => PathPart::Current,
        PathPart::Parent => PathPart::Parent,
        PathPart::Normal(text) => PathPart::Normal(text.clone()),
    }
}

pub(crate) fn copy_parts(parts: &Vec<PathPart>) -> (r: Vec<PathPart>)
    ensures
        r@ == parts@,
{
    let mut out: Vec<PathPart> = Vec::new();
    let mut i: usize = 0;
    while i < parts.len()
        invariant
            0 <= i <= parts@.len(),
            out@ == parts@.take(i as int),
        decreases parts@.len() - i,
    {
        out.push(copy_part(&parts[i]));
        assert(parts@.take(i + 1) =~= parts@.take(i as int).push(parts@[i as int]));
        i = i + 1;
    }
    assert(parts@.take(parts@.len() as int) =~= parts@);
    out
}

fn same_part_exec(a: &PathPart, b: &PathPart) -> (r: bool)
    ensures
        r == same_part(*a, *b),
{
    match (a, b) {
        (PathPart::Prefix(x), PathPart::Prefix(y)) => eq_ignore_case_exec(&chars_of(x.as_str()), &chars_of(y.as_str())),
        (PathPart::Root, PathPart::Root) => true,
        (PathPart::Current, PathPart::Current) => true,
        (PathPart::Parent, PathPart::Parent) => true,
        (PathPart::Normal(x), PathPart::Normal(y)) => eq_ignore_case_exec(&chars_of(x.as_str()), &chars_of(y.as_str())),
        _ => false,
    }
}

/// Whether `path` is `prefix` or lies below it, components compared as the
/// file system compares them.
pub fn is_within(path: &Vec<PathPart>, prefix: &Vec<PathPart>) -> (r: bool)
    ensures
        r == has_prefix(path@, prefix@),
{
    if prefix.len() > path.len() {
        return false;
    }
    let mut k: usize = 0;
    while k < prefix.len()
        invariant
            0 <= k <= prefix@.len() <= path@.len(),
            forall|j: int| 0 <= j < k ==> same_part(#[trigger] path@[j], prefix@[j]),
        decreases prefix@.len() - k,
    {
        if !same_part_exec(&path[k], &prefix[k]) {
            return false;
        }
        k = k + 1;
    }
    true
}

proof fn lemma_none_stays(parts: Seq<PathPart>, k: int, n: int)
    requires
        0 <= k <= n,
        normalize_upto(parts, k) is None,
    ensures
        normalize_upto(parts, n) is None,
    decreases n - k,
{
    if k < n {
        assert(normalize_upto(parts, k + 1) is None);
        lemma_none_stays(parts, k + 1, n);
    }
}

/// Normalizes a path lexically; `None` where a `..` climbs above the root.
fn normalize(parts: Vec<PathPart>) -> (r: Option<Vec<PathPart>>)
    ensures
        match normalized(parts@) {
            None => r is None,
            Some(path) => r matches Some(out) && out@ == path,
        },
{
    let ghost all = parts@;
    let n = parts.len();
    let mut out: Vec<PathPart> = Vec::new();
    let mut named: usize = 0;
    let mut rest = parts;
    let mut i: usize = 0;
    while rest.len() > 0
        invariant
            0 <= i <= all.len(),
            all == parts@,
            all.len() == n,
            rest@ == all.skip(i as int),
            normalize_upto(all, i as int) == Some((out@, named as nat)),
            named <= i,
            named <= out@.len(),
        decreases rest@.len(),
    {
        let ghost before = rest@;
        let part = rest.remove(0);
        proof {
            assert(before[0] == all[i as int]);
            assert(rest@ =~= all.skip(i + 1));
            assert(part == all[i as int]);
            assert(normalize_upto(all, i + 1) == match normalize_upto(all, i as int) {
                None => None,
                Some((o, c)) => match all[i as int] {
                    PathPart::Current => Some((o, c)),
                    PathPart::Parent => if c == 0 { None } else { Some((o.drop_last(), (c - 1) as nat)) },
                    PathPart::Normal(_) => Some((o.push(all[i as int]), c + 1)),
                    _ => Some((o.push(all[i as int]), c)),
                },
            });
        }
        match part {
            PathPart::Current => {},
            PathPart::Parent => {
                if named == 0 {
                    proof {
                        lemma_none_stays(all, i + 1, all.len() as int);
                    }
                    return None;
                }
                out.pop();
                named = named - 1;
            },
            PathPart::Normal(text) => {
                out.push(PathPart::Normal(text));
                named = named + 1;
            },
            other => {
                out.push(other);
            },
        }
        i = i + 1;
    }
    assert(all.skip(i as int).len() == 0);
    Some(out)
}

/// Places a requested path, as the platform parsed it, against the visible
/// scan root (`absolute`: whether the platform calls it absolute), and
/// returns what it leaves out relative to the scan root.
pub fn excluded_relative(display_root: &Vec<PathPart>, requested: &String, parts: Vec<PathPart>, absolute: bool) -> (r: Result<Vec<PathPart>, String>)
    ensures
        match relative_request(display_root@, requested@, parts@, absolute) {
            Ok(relative) => r matches Ok(out) && out@ == relative,
            Err(message) => r matches Err(m) && m@ == message,
        },
{
    if parts.len() > 0 && !absolute {
        match &parts[0] {
            PathPart::Prefix(_) => return Err(prefixed("排除路径不是绝对路径: ", requested)),
            _ => {},
        }
    }
    let ghost given = parts@;
    let starts_at_root = parts.len() > 0 && match &parts[0] {
        PathPart::Root => true,
        _ => false,
    };
    let candidate = if absolute {
        parts
    } else if starts_at_root {
        let root_prefix = display_root.len() > 0 && match &display_root[0] {
            PathPart::Prefix(_) => true,
            _ => false,
        };
        if root_prefix {
            let mut joined: Vec<PathPart> = Vec::new();
            joined.push(copy_part(&display_root[0]));
            let mut tail = parts;
            joined.append(&mut tail);
            assert(joined@ =~= seq![display_root@[0]] + given);
            joined
        } else {
            parts
        }
    } else {
        let mut joined = copy_parts(display_root);
        let mut tail = parts;
        joined.append(&mut tail);
        joined
    };
    assert(candidate@ == placed(display_root@, given, absolute));
    let path = match normalize(candidate) {
        None => return Err(prefixed("排除路径无法规范化或试图越过卷根: ", requested)),
        Some(path) => path,
    };
    if !is_within(&path, display_root) {
        return Err(prefixed("排除路径不在扫描根目录内: ", requested));
    }
    if path.len() == display_root.len() {
        return Err("不能把扫描根目录本身加入 excludedPaths".to_string());
    }
    let ghost whole = path@;
    let mut relative = path;
    let tail = relative.split_off(display_root.len());
    assert(tail@ =~= whole.skip(display_root@.len() as int));
    Ok(tail)
}

/// What resolving an excluded path inside the scan root found: the path
/// once links are resolved, nothing there yet, or why it could not be
/// resolved or read.
#[derive(Debug)]
pub enum ExclusionProbe {
    Resolved(Vec<PathPart>),
    Missing,
    CannotResolve(String),
    CannotRead(String),
}

/// Whether two components are exactly the same.
pub open spec fn same_part_exactly(a: PathPart, b: PathPart) -> bool {
    match (a, b) {
        (PathPart::Prefix(x), PathPart::Prefix(y)) => x@ == y@,
        (PathPart::Root, PathPart::Root) => true,
        (PathPart::Current, PathPart::Current) => true,
        (PathPart::Parent, PathPart::Parent) => true,
        (PathPart::Normal(x), PathPart::Normal(y)) => x@ == y@,
        _ => false,
    }
}

/// Whether two paths have exactly the same components.
pub open spec fn same_path(a: Seq<PathPart>, b: Seq<PathPart>) -> bool {
    a.len() == b.len() && forall|k: int| 0 <= k < a.len() ==> same_part_exactly(#[trigger] a[k], b[k])
}

/// The excluded path that a request resolves to inside the scan root, or
/// why it is refused: it could not be resolved or read, or it resolves to
/// the scan root itself or outside it. A path that does not exist yet is
/// excluded where it would be.
pub open spec fn resolved_request(canonical_root: Seq<PathPart>, requested: Seq<char>, relative: Seq<PathPart>, probe: ExclusionProbe) -> Result<Seq<PathPart>, Seq<char>> {
    let internal = match probe {
        ExclusionProbe::Resolved(path) => Ok(path@),
        ExclusionProbe::Missing => Ok(canonical_root + relative),
        ExclusionProbe::CannotResolve(e) => Err("无法验证排除路径 "@ + requested + ": "@ + e@),
        ExclusionProbe::CannotRead(e) => Err("无法读取排除路径 "@ + requested + ": "@ + e@),
    };
    match internal {
        Err(message) => Err(message),
        Ok(path) => if same_path(path, canonical_root) || !has_prefix(path, canonical_root) {
            Err("排除路径解析后不在扫描根目录内: "@ + requested)
        } else {
            Ok(path)
        },
    }
}

pub(crate) fn same_part_exact(a: &PathPart, b: &PathPart) -> (r: bool)
    ensures
        r == same_part_exactly(*a, *b),
{
    match (a, b) {
        (PathPart::Prefix(x), PathPart::Prefix(y)) => crate::apps::vec_eq(&chars_of(x.as_str()), &chars_of(y.as_str())),
        (PathPart::Root, PathPart::Root) => true,
        (PathPart::Current, PathPart::Current) => true,
        (PathPart::Parent, PathPart::Parent) => true,
        (PathPart::Normal(x), PathPart::Normal(y)) => crate::apps::vec_eq(&chars_of(x.as_str()), &chars_of(y.as_str())),
        _ => false,
    }
}

fn same_path_exec(a: &Vec<PathPart>, b: &Vec<PathPart>) -> (r: bool)
    ensures
        r == same_path(a@, b@),
{
    if a.len() != b.len() {
        return false;
    }
    let mut k: usize = 0;
    while k < a.len()
        invariant
            0 <= k <= a@.len(),
            a@.len() == b@.len(),
            forall|j: int| 0 <= j < k ==> same_part_exactly(#[trigger] a@[j], b@[j]),
        decreases a@.len() - k,
    {
        if !same_part_exact(&a[k], &b[k]) {
            return false;
        }
        k = k + 1;
    }
    true
}

fn two_part_message(first: &str, requested: &String, second: &str, error: &String) -> (r: String)
    ensures
        r@ == first@ + requested@ + second@ + error@,
{
    let mut out = prefixed(first, requested);
    vstd::string::StringExecFns::append(&mut out, second);
    vstd::string::StringExecFns::append(&mut out, error.as_str());
    out
}

/// Resolves a request's relative path inside the scan root from what
/// probing it found, refusing a path that resolves to the root itself or
/// outside it.
pub fn resolved_exclusion(canonical_root: &Vec<PathPart>, requested: &String, relative: Vec<PathPart>, probe: ExclusionProbe) -> (r: Result<Vec<PathPart>, String>)
    ensures
        match resolved_request(canonical_root@, requested@, relative@, probe) {
            Ok(path) => r matches Ok(out) && out@ == path,
            Err(message) => r matches Err(m) && m@ == message,
        },
{
    let path = match probe {
        ExclusionProbe::Resolved(path) => path,
        ExclusionProbe::Missing => {
            let mut joined = copy_parts(canonical_root);
            let mut tail = relative;
            joined.append(&mut tail);
            joined
        },
        ExclusionProbe::CannotResolve(e) => return Err(two_part_message("无法验证排除路径 ", requested, ": ", &e)),
        ExclusionProbe::CannotRead(e) => return Err(two_part_message("无法读取排除路径 ", requested, ": ", &e)),
    };
    if same_path_exec(&path, canonical_root) || !is_within(&path, canonical_root) {
        return Err(prefixed("排除路径解析后不在扫描根目录内: ", requested));
    }
    Ok(path)
}

/// Whether the `i`-th excluded path is kept: no other path contains it that
/// is shorter, or as long and earlier.
pub open spec fn kept_exclusion(paths: Seq<Seq<PathPart>>, i: int) -> bool {
    !exists|j: int| 0 <= j < paths.len() && j != i && #[trigger] has_prefix(paths[i], paths[j])
        && (paths[j].len() < paths[i].len() || (paths[j].len() == paths[i].len() && j < i))
}

/// The kept paths among the first `n`, in order.
pub open spec fn kept_exclusions(paths: Seq<Seq<PathPart>>, n: int) -> Seq<Seq<PathPart>>
    decreases n,
{
    if n <= 0 {
        seq![]
    } else if kept_exclusion(paths, n - 1) {
        kept_exclusions(paths, n - 1).push(paths[n - 1])
    } else {
        kept_exclusions(paths, n - 1)
    }
}

pub open spec fn path_views(paths: Seq<Vec<PathPart>>) -> Seq<Seq<PathPart>> {
    paths.map_values(|p: Vec<PathPart>| p@)
}

fn is_kept(paths: &Vec<Vec<PathPart>>, i: usize) -> (r: bool)
    requires
        i < paths@.len(),
    ensures
        r == kept_exclusion(path_views(paths@), i as int),
{
    let ghost views = path_views(paths@);
    let mut j: usize = 0;
    while j < paths.len()
        invariant
            0 <= j <= paths@.len(),
            i < paths@.len(),
            views == path_views(paths@),
            forall|q: int| 0 <= q < j ==> !(q != i && #[trigger] has_prefix(views[i as int], views[q])
                && (views[q].len() < views[i as int].len() || (views[q].len() == views[i as int].len() && q < i))),
        decreases paths@.len() - j,
    {
        if j != i && is_within(&paths[i], &paths[j])
            && (paths[j].len() < paths[i].len() || (paths[j].len() == paths[i].len() && j < i)) {
            assert(has_prefix(views[i as int], views[j as int]));
            return false;
        }
        j = j + 1;
    }
    true
}

/// Reduces excluded paths to those that no other one contains: of paths
/// equal but for letter case, the first is kept. The order is kept.
pub fn minimal_exclusions(paths: Vec<Vec<PathPart>>) -> (r: Vec<Vec<PathPart>>)
    ensures
        path_views(r@) == kept_exclusions(path_views(paths@), paths@.len() as int),
{
    let ghost views = path_views(paths@);
    let n = paths.len();
    let mut keep: Vec<bool> = Vec::new();
    let mut i: usize = 0;
    while i < n
        invariant
            0 <= i <= n,
            n == paths@.len(),
            views == path_views(paths@),
            keep@.len() == i,
            forall|k: int| 0 <= k < i ==> #[trigger] keep@[k] == kept_exclusion(views, k),
        decreases n - i,
    {
        keep.push(is_kept(&paths, i));
        i = i + 1;
    }
    let mut out: Vec<Vec<PathPart>> = Vec::new();
    let mut rest = paths;
    let mut k: usize = 0;
    assert(path_views(out@) =~= kept_exclusions(views, 0));
    while rest.len() > 0
        invariant
            0 <= k <= n,
            views.len() == n,
            keep@.len() == n,
            forall|q: int| 0 <= q < n ==> #[trigger] keep@[q] == kept_exclusion(views, q),
            path_views(rest@) == views.skip(k as int),
            rest@.len() == n - k,
            path_views(out@) == kept_exclusions(views, k as int),
        decreases rest@.len(),
    {
        let ghost before = rest@;
        let path = rest.remove(0);
        proof {
            assert(path_views(before)[0] == before[0]@);
            assert(path_views(before)[0] == views[k as int]);
            assert(path_views(rest@) =~= path_views(before).skip(1));
            assert(path_views(rest@) =~= views.skip(k + 1));
        }
        if keep[k] {
            let ghost old_out = out@;
            out.push(path);
            assert(path_views(out@) =~= path_views(old_out).push(views[k as int]));
        }
        k = k + 1;
    }
    assert(views.skip(k as int).len() == 0);
    out
}

proof fn lemma_prefix_transitive(a: Seq<PathPart>, b: Seq<PathPart>, c: Seq<PathPart>)
    requires
        has_prefix(a, b),
        has_prefix(b, c),
    ensures
        has_prefix(a, c),
{
    assert forall|k: int| 0 <= k < c.len() implies same_part(#[trigger] a[k], c[k]) by {
        assert(same_part(a[k], b[k]) && same_part(b[k], c[k]));
    }
}

proof fn lemma_prefix_reflexive(a: Seq<PathPart>)
    ensures
        has_prefix(a, a),
{
    assert forall|k: int| 0 <= k < a.len() implies same_part(#[trigger] a[k], a[k]) by {}
}

proof fn lemma_prefix_symmetric(a: Seq<PathPart>, b: Seq<PathPart>)
    requires
        has_prefix(a, b),
        a.len() == b.len(),
    ensures
        has_prefix(b, a),
{
    assert forall|k: int| 0 <= k < a.len() implies same_part(#[trigger] b[k], a[k]) by {
        assert(same_part(a[k], b[k]));
    }
}

proof fn lemma_covered_by_kept(paths: Seq<Seq<PathPart>>, i: int)
    requires
        0 <= i < paths.len(),
    ensures
        exists|j: int| 0 <= j < paths.len() && kept_exclusion(paths, j) && has_prefix(paths[i], #[trigger] paths[j]),
    decreases paths[i].len(), i,
{
    if kept_exclusion(paths, i) {
        lemma_prefix_reflexive(paths[i]);
    } else {
        let j = choose|j: int| 0 <= j < paths.len() && j != i && #[trigger] has_prefix(paths[i], paths[j])
            && (paths[j].len() < paths[i].len() || (paths[j].len() == paths[i].len() && j < i));
        lemma_covered_by_kept(paths, j);
        let k = choose|k: int| 0 <= k < paths.len() && kept_exclusion(paths, k) && has_prefix(paths[j], #[trigger] paths[k]);
        lemma_prefix_transitive(paths[i], paths[j], paths[k]);
    }
}

proof fn lemma_kept_not_nested(paths: Seq<Seq<PathPart>>, i: int, j: int)
    requires
        0 <= i < paths.len(),
        0 <= j < paths.len(),
        i != j,
        kept_exclusion(paths, i),
        kept_exclusion(paths, j),
    ensures
        !has_prefix(paths[i], paths[j]),
{
    if has_prefix(paths[i], paths[j]) {
        if paths[j].len() == paths[i].len() && i < j {
            lemma_prefix_symmetric(paths[i], paths[j]);
            assert(has_prefix(paths[j], paths[i]));
        }
    }
}

/// Where the `a`-th kept path among the first `n` stands among all paths.
spec fn kept_index(paths: Seq<Seq<PathPart>>, n: int, a: int) -> int
    decreases n,
{
    if n <= 0 {
        0
    } else if kept_exclusion(paths, n - 1) && a == kept_exclusions(paths, n - 1).len() {
        n - 1
    } else {
        kept_index(paths, n - 1, a)
    }
}

proof fn lemma_kept_index(paths: Seq<Seq<PathPart>>, n: int)
    requires
        0 <= n <= paths.len(),
    ensures
        forall|a: int| 0 <= a < kept_exclusions(paths, n).len() ==> {
            let i = #[trigger] kept_index(paths, n, a);
            0 <= i < n && kept_exclusion(paths, i) && kept_exclusions(paths, n)[a] == paths[i]
        },
        forall|a: int, b: int| 0 <= a < b < kept_exclusions(paths, n).len() ==> #[trigger] kept_index(paths, n, a) < #[trigger] kept_index(paths, n, b),
        forall|i: int| 0 <= i < n && kept_exclusion(paths, i) ==> exists|a: int| 0 <= a < kept_exclusions(paths, n).len() && #[trigger] kept_exclusions(paths, n)[a] == paths[i] && kept_index(paths, n, a) == i,
    decreases n,
{
    if n > 0 {
        lemma_kept_index(paths, n - 1);
        let before = kept_exclusions(paths, n - 1);
        let now = kept_exclusions(paths, n);
        assert forall|a: int| 0 <= a < now.len() implies {
            let i = #[trigger] kept_index(paths, n, a);
            0 <= i < n && kept_exclusion(paths, i) && now[a] == paths[i]
        } by {
            if a < before.len() {
                assert(kept_index(paths, n, a) == kept_index(paths, n - 1, a));
            }
        }
        assert forall|a: int, b: int| 0 <= a < b < now.len() implies #[trigger] kept_index(paths, n, a) < #[trigger] kept_index(paths, n, b) by {
            assert(kept_index(paths, n, a) == kept_index(paths, n - 1, a));
            if b < before.len() {
                assert(kept_index(paths, n, b) == kept_index(paths, n - 1, b));
            } else {
                assert(kept_index(paths, n, b) == n - 1);
                assert(0 <= kept_index(paths, n - 1, a) < n - 1);
            }
        }
        assert forall|i: int| 0 <= i < n && kept_exclusion(paths, i) implies exists|a: int| 0 <= a < now.len() && #[trigger] now[a] == paths[i] && kept_index(paths, n, a) == i by {
            if i < n - 1 {
                let a = choose|a: int| 0 <= a < before.len() && #[trigger] before[a] == paths[i] && kept_index(paths, n - 1, a) == i;
                assert(now[a] == before[a]);
                assert(kept_index(paths, n, a) == kept_index(paths, n - 1, a));
            } else {
                assert(now[before.len() as int] == paths[i]);
                assert(kept_index(paths, n, before.len() as int) == i);
            }
        }
    }
}

/// The paths that reducing exclusions keeps cover every requested path, and
/// none of them lies inside another: every excluded path lies inside (or is)
/// one that is kept, and no kept path lies inside a different kept one.
pub proof fn lemma_minimal_exclusions(paths: Seq<Seq<PathPart>>)
    ensures
        forall|i: int| 0 <= i < paths.len() ==> exists|a: int|
            0 <= a < kept_exclusions(paths, paths.len() as int).len()
                && has_prefix(#[trigger] paths[i], #[trigger] kept_exclusions(paths, paths.len() as int)[a]),
        forall|a: int, b: int| 0 <= a < kept_exclusions(paths, paths.len() as int).len()
            && 0 <= b < kept_exclusions(paths, paths.len() as int).len() && a != b
            ==> !has_prefix(#[trigger] kept_exclusions(paths, paths.len() as int)[a], #[trigger] kept_exclusions(paths, paths.len() as int)[b]),
{
    let n = paths.len() as int;
    let kept = kept_exclusions(paths, n);
    lemma_kept_index(paths, n);
    assert forall|i: int| 0 <= i < n implies exists|a: int| 0 <= a < kept.len() && has_prefix(#[trigger] paths[i], #[trigger] kept[a]) by {
        lemma_covered_by_kept(paths, i);
        let j = choose|j: int| 0 <= j < paths.len() && kept_exclusion(paths, j) && has_prefix(paths[i], #[trigger] paths[j]);
        let a = choose|a: int| 0 <= a < kept.len() && #[trigger] kept[a] == paths[j] && kept_index(paths, n, a) == j;
        assert(has_prefix(paths[i], kept[a]));
    }
    assert forall|a: int, b: int| 0 <= a < kept.len() && 0 <= b < kept.len() && a != b implies !has_prefix(#[trigger] kept[a], #[trigger] kept[b]) by {
        let ia = kept_index(paths, n, a);
        let ib = kept_index(paths, n, b);
        if a < b {
            assert(ia < ib);
        } else {
            assert(ib < ia);
        }
        lemma_kept_not_nested(paths, ia, ib);
    }
}

/// A resolved path as it is shown: without the verbatim prefix `\\?\`,
/// and with a verbatim share `\\?\UNC\` shown as `\\`.
pub open spec fn visible_root_spec(path: Seq<char>) -> Seq<char> {
    if starts_with(path, "\\\\?\\UNC\\"@) {
        "\\\\"@ + path.skip(8)
    } else if starts_with(path, "\\\\?\\"@) {
        path.skip(4)
    } else {
        path
    }
}

/// Shows a resolved path without its verbatim prefix.
pub fn visible_root(path: &str) -> (r: String)
    ensures
        r@ == visible_root_spec(path@),
{
    let chars = chars_of(path);
    proof {
        reveal_strlit("\\\\?\\UNC\\");
        reveal_strlit("\\\\?\\");
    }
    if starts_with_exec(&chars, "\\\\?\\UNC\\") {
        let rest = string_of(&chars, 8, chars.len());
        return prefixed("\\\\", &rest);
    }
    if starts_with_exec(&chars, "\\\\?\\") {
        return string_of(&chars, 4, chars.len());
    }
    path.to_string()
}

} // verus!
