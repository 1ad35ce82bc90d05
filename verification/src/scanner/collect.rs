use vstd::prelude::*;
use crate::models::{CleanupItem, DeleteMode, RiskLevel};
use crate::scanner::{
    executable_spec, guard_error_spec, opt_views, process_guard_error, rule_can_be_scanned,
    CleanupSnapshot, DeleteFailure, DeleteOutcome, FileSnapshot, ProcessGuard, Rule,
};
use crate::cleanup_plan::executor::{report_interval, report_interval_spec, saturating_u64_add, should_report};
use crate::scanner::rules::{base_path, path_for, RuleRoots};
use crate::text::{chars_of, eq_exact};
use crate::tree::join_spec;

verus! {

/// Whether a rule is scanned now: its base directory was located, and it may
/// be scanned given the running processes (browser caches always are).
pub open spec fn targeted(rule: Rule, roots: RuleRoots, names: Option<Seq<String>>) -> bool {
    base_path(rule.base, roots) is Some && (rule.process_guard matches Some(ProcessGuard::Browser(_))
        || executable_spec(rule, names))
}

/// The rules that are scanned now, in order.
pub open spec fn targeted_rules(rules: Seq<Rule>, roots: RuleRoots, names: Option<Seq<String>>) -> Seq<Rule>
    decreases rules.len(),
{
    if rules.len() == 0 {
        seq![]
    } else {
        let rest = targeted_rules(rules.drop_last(), roots, names);
        if targeted(rules.last(), roots, names) {
            rest.push(rules.last())
        } else {
            rest
        }
    }
}

/// A rule to scan, with the directory that it cleans.
#[derive(Clone, Debug)]
pub struct ScanTarget {
    pub rule: Rule,
    pub root: String,
}

/// The rules of `rules` to scan now, each with its directory, in order.
pub fn scan_targets(rules: Vec<Rule>, roots: &RuleRoots, process_names: Option<&Vec<String>>) -> (r: Vec<ScanTarget>)
    ensures
        r@.len() == targeted_rules(rules@, *roots, opt_views(process_names)).len(),
        forall|k: int| 0 <= k < r@.len() ==> {
            let rule = targeted_rules(rules@, *roots, opt_views(process_names))[k];
            &&& (#[trigger] r@[k]).rule == rule
            &&& r@[k].root@ == join_spec(base_path(rule.base, *roots).unwrap(), rule.relative@)
        },
{
    let ghost all = rules@;
    let ghost names = opt_views(process_names);
    let mut out: Vec<ScanTarget> = Vec::new();
    let mut rest = rules;
    let ghost mut done: Seq<Rule> = seq![];
    assert(all =~= done + rest@);
    while rest.len() > 0
        invariant
            all == done + rest@,
            out@.len() == targeted_rules(done, *roots, names).len(),
            names == opt_views(process_names),
            forall|k: int| 0 <= k < out@.len() ==> {
                let rule = targeted_rules(done, *roots, names)[k];
                &&& (#[trigger] out@[k]).rule == rule
                &&& out@[k].root@ == join_spec(base_path(rule.base, *roots).unwrap(), rule.relative@)
            },
        decreases rest@.len(),
    {
        let ghost before = rest@;
        let rule = rest.remove(0);
        proof {
            assert(before[0] == rule);
            assert(done.push(rule).drop_last() =~= done);
            assert(all =~= done.push(rule) + rest@);
        }
        let scannable = rule_can_be_scanned(&rule, process_names);
        let path = path_for(&rule, roots);
        match path {
            Some(root) => {
                if scannable {
                    out.push(ScanTarget { rule, root });
                }
            },
            None => {},
        }
        proof {
            done = done.push(rule);
        }
    }
    assert(done =~= all);
    out
}

/// The total size of a directory's files.
pub open spec fn total_size(files: Seq<FileSnapshot>) -> int
    decreases files.len(),
{
    if files.len() == 0 {
        0
    } else {
        total_size(files.drop_last()) + files.last().size
    }
}

/// Whether the components of `path` extend those of `base` by at least one.
pub open spec fn strictly_inside(base: Seq<String>, path: Seq<String>) -> bool {
    path.len() > base.len() && forall|k: int| 0 <= k < base.len() ==> #[trigger] path[k]@ == base[k]@
}

/// What listing a rule's directory found: the directory, the components of
/// the directory and of its base directory once links are resolved, and the
/// files that the rule takes.
#[derive(Clone, Debug)]
pub struct DirectoryListing {
    pub root: String,
    pub canonical_root: String,
    pub canonical_root_components: Vec<String>,
    pub canonical_base_components: Vec<String>,
    pub files: Vec<FileSnapshot>,
}

/// Whether a rule's listing yields an item: it lies inside its base
/// directory and holds at least one file.
pub open spec fn yields_item(listing: DirectoryListing) -> bool {
    strictly_inside(listing.canonical_base_components@, listing.canonical_root_components@)
        && listing.files@.len() > 0
}

/// The description shown for a rule's item.
pub open spec fn item_description(rule: Rule) -> Seq<char> {
    if rule.risk == RiskLevel::High {
        "微信用户数据；当前版本仅分析，不执行删除或隔离"@
    } else if rule.id@ == "temp"@ {
        "实验性隔离：验证副本后移除源文件，可导出副本但不释放净空间"@
    } else {
        "可由应用或 Windows 自动重新生成"@
    }
}

/// Why a rule's item cannot be executed now, if it cannot: user data is only
/// shown, and a browser cache is blocked while its browser runs.
pub open spec fn item_block(rule: Rule, names: Option<Seq<String>>) -> Option<Seq<char>> {
    if rule.risk == RiskLevel::High {
        Some("用户数据隔离尚未达到生产发布门禁；当前版本仅只读展示并安全保留"@)
    } else if rule.process_guard matches Some(ProcessGuard::Browser(_)) {
        guard_error_spec(rule, names)
    } else {
        None
    }
}

/// How a rule's item is removed: the temporary-files rule and user data go
/// to quarantine, everything else is deleted permanently.
pub open spec fn item_mode(rule: Rule) -> DeleteMode {
    if rule.id@ == "temp"@ || rule.risk == RiskLevel::High {
        DeleteMode::Quarantine
    } else {
        DeleteMode::Permanent
    }
}

/// Whether `s` is the snapshot that a scan reports for `rule` and its
/// listing.
pub open spec fn snapshot_of(rule: Rule, listing: DirectoryListing, names: Option<Seq<String>>, s: CleanupSnapshot) -> bool {
    &&& s.item.id == rule.id
    &&& s.item.category@ == rule.category@
    &&& s.item.name == rule.name
    &&& s.item.path == listing.root
    &&& s.item.description@ == item_description(rule)
    &&& match item_block(rule, names) {
        Some(reason) => s.item.blocked_reason matches Some(text) && text@ == reason,
        None => s.item.blocked_reason is None,
    }
    &&& s.item.size_bytes == total_size(listing.files@)
    &&& s.item.file_count == listing.files@.len()
    &&& s.item.risk == rule.risk
    &&& s.item.delete_mode == item_mode(rule)
    &&& s.root == listing.root
    &&& s.canonical_root == listing.canonical_root
    &&& s.files@ == listing.files@
}

/// The listings that yield items, in order.
pub open spec fn yielding(found: Seq<(Rule, Option<DirectoryListing>)>) -> Seq<(Rule, DirectoryListing)>
    decreases found.len(),
{
    if found.len() == 0 {
        seq![]
    } else {
        let rest = yielding(found.drop_last());
        match found.last().1 {
            Some(listing) => if yields_item(listing) {
                rest.push((found.last().0, listing))
            } else {
                rest
            },
            None => rest,
        }
    }
}

pub(crate) fn is_strictly_inside(base: &Vec<String>, path: &Vec<String>) -> (r: bool)
    ensures
        r == strictly_inside(base@, path@),
{
    if path.len() <= base.len() {
        return false;
    }
    let mut k: usize = 0;
    while k < base.len()
        invariant
            0 <= k <= base@.len(),
            path@.len() > base@.len(),
            forall|j: int| 0 <= j < k ==> #[trigger] path@[j]@ == base@[j]@,
        decreases base@.len() - k,
    {
        let a = chars_of(path[k].as_str());
        let b = chars_of(base[k].as_str());
        if !crate::apps::vec_eq(&a, &b) {
            return false;
        }
        k = k + 1;
    }
    true
}

fn sum_sizes(files: &Vec<FileSnapshot>) -> (r: u64)
    requires
        total_size(files@) <= u64::MAX,
    ensures
        r == total_size(files@),
{
    let mut total: u64 = 0;
    let mut i: usize = 0;
    while i < files.len()
        invariant
            0 <= i <= files@.len(),
            total == total_size(files@.take(i as int)),
            total_size(files@) <= u64::MAX,
        decreases files@.len() - i,
    {
        proof {
            assert(files@.take(i + 1).drop_last() =~= files@.take(i as int));
            lemma_total_size_prefix(files@, i + 1);
        }
        total = total + files[i].size;
        i = i + 1;
    }
    assert(files@.take(files@.len() as int) =~= files@);
    total
}

proof fn lemma_total_size_prefix(files: Seq<FileSnapshot>, n: int)
    requires
        0 <= n <= files.len(),
    ensures
        total_size(files.take(n)) <= total_size(files),
    decreases files.len() - n,
{
    if n < files.len() {
        lemma_total_size_prefix(files, n + 1);
        assert(files.take(n + 1).drop_last() =~= files.take(n));
    } else {
        assert(files.take(n) =~= files);
    }
}

/// The snapshot for a rule whose listing yields an item.
fn snapshot_for(rule: Rule, listing: DirectoryListing, process_names: Option<&Vec<String>>) -> (s: CleanupSnapshot)
    requires
        total_size(listing.files@) <= u64::MAX,
    ensures
        snapshot_of(rule, listing, opt_views(process_names), s),
{
    let size_bytes = sum_sizes(&listing.files);
    let file_count = listing.files.len();
    let is_user_data = rule.risk == RiskLevel::High;
    let is_temp = eq_exact(&chars_of(rule.id.as_str()), "temp");
    let blocked_reason = if is_user_data {
        Some("用户数据隔离尚未达到生产发布门禁；当前版本仅只读展示并安全保留".to_string())
    } else {
        match rule.process_guard {
            Some(ProcessGuard::Browser(_)) => process_guard_error(&rule, process_names),
            _ => None,
        }
    };
    let description = if is_user_data {
        "微信用户数据；当前版本仅分析，不执行删除或隔离".to_string()
    } else if is_temp {
        "实验性隔离：验证副本后移除源文件，可导出副本但不释放净空间".to_string()
    } else {
        "可由应用或 Windows 自动重新生成".to_string()
    };
    let delete_mode = if is_temp || is_user_data {
        DeleteMode::Quarantine
    } else {
        DeleteMode::Permanent
    };
    let item = CleanupItem {
        id: rule.id,
        category: rule.category.to_string(),
        name: rule.name,
        path: listing.root.clone(),
        description,
        blocked_reason,
        size_bytes,
        file_count,
        risk: rule.risk,
        delete_mode,
    };
    CleanupSnapshot { item, root: listing.root, canonical_root: listing.canonical_root, files: listing.files }
}

/// Turns the listings of the scanned rules into the snapshots that a scan
/// reports: a listing outside its base directory or without files yields
/// nothing, every other one yields the snapshot of its rule, in order.
pub fn scan(found: Vec<(Rule, Option<DirectoryListing>)>, process_names: Option<&Vec<String>>) -> (r: Vec<CleanupSnapshot>)
    requires
        forall|k: int| 0 <= k < found@.len() ==> ((#[trigger] found@[k]).1 matches Some(listing)
            ==> total_size(listing.files@) <= u64::MAX),
    ensures
        r@.len() == yielding(found@).len(),
        forall|k: int| 0 <= k < r@.len() ==> snapshot_of(
            yielding(found@)[k].0,
            yielding(found@)[k].1,
            opt_views(process_names),
            #[trigger] r@[k],
        ),
{
    let ghost all = found@;
    let ghost names = opt_views(process_names);
    let mut out: Vec<CleanupSnapshot> = Vec::new();
    let mut rest = found;
    let ghost mut done: Seq<(Rule, Option<DirectoryListing>)> = seq![];
    assert(all =~= done + rest@);
    while rest.len() > 0
        invariant
            all == done + rest@,
            names == opt_views(process_names),
            forall|k: int| 0 <= k < all.len() ==> ((#[trigger] all[k]).1 matches Some(listing)
                ==> total_size(listing.files@) <= u64::MAX),
            out@.len() == yielding(done).len(),
            forall|k: int| 0 <= k < out@.len() ==> snapshot_of(
                yielding(done)[k].0,
                yielding(done)[k].1,
                names,
                #[trigger] out@[k],
            ),
        decreases rest@.len(),
    {
        let ghost before = rest@;
        let (rule, listing) = rest.remove(0);
        let ghost entry = (rule, listing);
        proof {
            assert(before[0] == entry);
            assert(all[done.len() as int] == entry);
            assert(done.push(entry).drop_last() =~= done);
            assert(all =~= done.push(entry) + rest@);
        }
        match listing {
            Some(listing) => {
                let inside = is_strictly_inside(&listing.canonical_base_components, &listing.canonical_root_components);
                if inside && listing.files.len() > 0 {
                    let snapshot = snapshot_for(rule, listing, process_names);
                    out.push(snapshot);
                }
            },
            None => {},
        }
        proof {
            done = done.push(entry);
        }
    }
    assert(done =~= all);
    out
}

/// The index of the first rule with this identifier.
pub open spec fn first_rule(rules: Seq<Rule>, id: Seq<char>, k: int) -> bool {
    0 <= k < rules.len() && rules[k].id@ == id && forall|j: int| 0 <= j < k ==> (#[trigger] rules[j]).id@ != id
}

/// The rule a snapshot was made by: the first rule with the item's
/// identifier, or the refusal of an unknown item.
pub fn rule_for_snapshot(snapshot: &CleanupSnapshot, rules: &Vec<Rule>) -> (r: Result<usize, String>)
    ensures
        match r {
            Ok(k) => first_rule(rules@, snapshot.item.id@, k as int),
            Err(m) => m@ == "未知清理条目"@ && forall|k: int| 0 <= k < rules@.len() ==> (#[trigger] rules@[k]).id@ != snapshot.item.id@,
        },
{
    let target = chars_of(snapshot.item.id.as_str());
    let mut k: usize = 0;
    while k < rules.len()
        invariant
            0 <= k <= rules@.len(),
            target@ == snapshot.item.id@,
            forall|j: int| 0 <= j < k ==> (#[trigger] rules@[j]).id@ != snapshot.item.id@,
        decreases rules@.len() - k,
    {
        if crate::apps::vec_eq(&chars_of(rules[k].id.as_str()), &target) {
            return Ok(k);
        }
        k = k + 1;
    }
    Err("未知清理条目".to_string())
}

/// What the metadata of a directory entry (not followed through links) shows.
#[derive(Clone, Copy, Debug)]
pub struct EntryFacts {
    pub is_dir: bool,
    pub is_link_or_reparse: bool,
    pub is_offline_or_recall: bool,
}

/// What was read of a snapshot's directory just before execution: its
/// metadata, the check of the directories between its base directory and
/// it, and the components (and, for the directory, the text) of the base
/// directory and of the directory once links are resolved. An `Err` holds the
/// reason the read failed.
#[derive(Debug)]
pub struct RootObservation {
    pub metadata: Result<EntryFacts, String>,
    pub chain: Result<(), String>,
    pub canonical_base_components: Result<Vec<String>, String>,
    pub canonical_root: Result<String, String>,
    pub canonical_root_components: Vec<String>,
}

/// Why a snapshot's directory may not be executed, if it may not.
pub open spec fn root_refusal(snapshot: CleanupSnapshot, rule: Rule, roots: RuleRoots, observed: RootObservation) -> Option<Seq<char>> {
    match base_path(rule.base, roots) {
        None => Some("无法定位用户缓存目录"@),
        Some(base) => if join_spec(base, rule.relative@) != snapshot.root@ {
            Some("清理目录与扫描快照不一致"@)
        } else {
            match observed.metadata {
                Err(e) => Some("清理目录已失效: "@ + e@),
                Ok(facts) => if facts.is_link_or_reparse || facts.is_offline_or_recall || !facts.is_dir {
                    Some("清理目录已变为链接或非目录对象"@)
                } else {
                    match observed.chain {
                        Err(e) => Some(e@),
                        Ok(()) => match observed.canonical_base_components {
                            Err(e) => Some("无法验证用户缓存目录: "@ + e@),
                            Ok(base_components) => match observed.canonical_root {
                                Err(e) => Some("无法验证清理目录: "@ + e@),
                                Ok(canonical) => if !strictly_inside(base_components@, observed.canonical_root_components@) {
                                    Some("清理目录不在允许范围内"@)
                                } else if canonical@ != snapshot.canonical_root@ {
                                    Some("清理目录在扫描后发生变化"@)
                                } else {
                                    None
                                },
                            },
                        },
                    }
                },
            }
        },
    }
}

pub(crate) fn prefixed(prefix: &str, text: &String) -> (r: String)
    ensures
        r@ == prefix@ + text@,
{
    let mut out = prefix.to_string();
    vstd::string::StringExecFns::append(&mut out, text.as_str());
    out
}

/// Checks a snapshot's directory before its files are executed: it must be
/// the rule's directory below the located base directory, still a plain
/// local directory, inside the base directory once links are resolved, and
/// resolve where it did at scan time. Returns the resolved directory.
pub fn validated_snapshot_root(snapshot: &CleanupSnapshot, rule: &Rule, roots: &RuleRoots, observed: &RootObservation) -> (r: Result<String, String>)
    ensures
        match root_refusal(*snapshot, *rule, *roots, *observed) {
            Some(message) => r matches Err(m) && m@ == message,
            None => r matches Ok(root) && root@ == snapshot.canonical_root@,
        },
{
    let expected = match path_for(rule, roots) {
        Some(path) => path,
        None => return Err("无法定位用户缓存目录".to_string()),
    };
    if !crate::apps::vec_eq(&chars_of(expected.as_str()), &chars_of(snapshot.root.as_str())) {
        return Err("清理目录与扫描快照不一致".to_string());
    }
    match &observed.metadata {
        Err(e) => return Err(prefixed("清理目录已失效: ", e)),
        Ok(facts) => {
            if facts.is_link_or_reparse || facts.is_offline_or_recall || !facts.is_dir {
                return Err("清理目录已变为链接或非目录对象".to_string());
            }
        },
    }
    match &observed.chain {
        Err(e) => return Err(e.clone()),
        Ok(()) => {},
    }
    let base = match &observed.canonical_base_components {
        Err(e) => return Err(prefixed("无法验证用户缓存目录: ", e)),
        Ok(base) => base,
    };
    let canonical = match &observed.canonical_root {
        Err(e) => return Err(prefixed("无法验证清理目录: ", e)),
        Ok(canonical) => canonical,
    };
    if !is_strictly_inside(base, &observed.canonical_root_components) {
        return Err("清理目录不在允许范围内".to_string());
    }
    if !crate::apps::vec_eq(&chars_of(canonical.as_str()), &chars_of(snapshot.canonical_root.as_str())) {
        return Err("清理目录在扫描后发生变化".to_string());
    }
    Ok(canonical.clone())
}

/// Whether `outcome` is a refusal of the whole snapshot: nothing reclaimed
/// and one failure at the snapshot's directory with this message.
pub open spec fn refused_outcome(snapshot: CleanupSnapshot, message: Seq<char>, outcome: DeleteOutcome) -> bool {
    &&& outcome.reclaimed_bytes == 0
    &&& outcome.failures@.len() == 1
    &&& outcome.failures@[0].path == snapshot.root
    &&& outcome.failures@[0].error@ == message
}

fn refusal(snapshot: &CleanupSnapshot, error: String) -> (r: DeleteOutcome)
    ensures
        refused_outcome(*snapshot, error@, r),
{
    let mut failures: Vec<DeleteFailure> = Vec::new();
    failures.push(DeleteFailure { path: snapshot.root.clone(), error });
    DeleteOutcome { reclaimed_bytes: 0, failures }
}

/// Decides whether a snapshot's files may be executed: its rule must be
/// known, its directory valid, and a guarded rule's application not running
/// (read only for guarded rules). Returns the rule and the resolved
/// directory, or the outcome that refuses the whole snapshot.
pub fn prepare_execution(
    snapshot: &CleanupSnapshot,
    rules: &Vec<Rule>,
    roots: &RuleRoots,
    observed: &RootObservation,
    process_names: Option<&Vec<String>>,
) -> (r: Result<(usize, String), DeleteOutcome>)
    ensures
        match r {
            Ok((k, root)) => first_rule(rules@, snapshot.item.id@, k as int)
                && root_refusal(*snapshot, rules@[k as int], *roots, *observed) is None
                && guard_error_spec(rules@[k as int], opt_views(process_names)) is None
                && root@ == snapshot.canonical_root@,
            Err(outcome) => {
                ||| (forall|k: int| 0 <= k < rules@.len() ==> (#[trigger] rules@[k]).id@ != snapshot.item.id@)
                    && refused_outcome(*snapshot, "未知清理条目"@, outcome)
                ||| exists|k: int| first_rule(rules@, snapshot.item.id@, k) && match root_refusal(*snapshot, rules@[k], *roots, *observed) {
                    Some(message) => refused_outcome(*snapshot, message, outcome),
                    None => guard_error_spec(rules@[k], opt_views(process_names)) matches Some(message)
                        && refused_outcome(*snapshot, message, outcome),
                }
            },
        },
{
    let k = match rule_for_snapshot(snapshot, rules) {
        Ok(k) => k,
        Err(error) => return Err(refusal(snapshot, error)),
    };
    let rule = &rules[k];
    let root = match validated_snapshot_root(snapshot, rule, roots, observed) {
        Ok(root) => root,
        Err(error) => return Err(refusal(snapshot, error)),
    };
    match process_guard_error(rule, process_names) {
        Some(error) => return Err(refusal(snapshot, error)),
        None => {},
    }
    Ok((k, root))
}

/// A progress report: files done, bytes reclaimed so far, failures so far.
#[derive(Clone, Copy, Debug)]
pub struct DeleteProgress {
    pub completed: usize,
    pub reclaimed_bytes: u64,
    pub failures: usize,
}

/// The bytes reclaimed by the first `n` file results, saturating.
pub open spec fn reclaimed_after(results: Seq<Result<u64, String>>, n: int) -> u64
    decreases n,
{
    if n <= 0 {
        0
    } else {
        match results[n - 1] {
            Ok(bytes) => saturating_u64_add(reclaimed_after(results, n - 1), bytes),
            Err(_) => reclaimed_after(results, n - 1),
        }
    }
}

/// The failures among the first `n` file results, with their files.
pub open spec fn failures_after(files: Seq<FileSnapshot>, results: Seq<Result<u64, String>>, n: int) -> Seq<DeleteFailure>
    decreases n,
{
    if n <= 0 {
        seq![]
    } else {
        let rest = failures_after(files, results, n - 1);
        match results[n - 1] {
            Ok(_) => rest,
            Err(error) => rest.push(DeleteFailure { path: files[n - 1].path, error }),
        }
    }
}

/// Whether a report is made after `completed` of `total` files.
pub open spec fn reported_at(completed: int, total: usize) -> bool {
    completed == total || completed % report_interval_spec(total) == 0
}

/// The reports made after the first `n` file results.
pub open spec fn reports_after(files: Seq<FileSnapshot>, results: Seq<Result<u64, String>>, n: int) -> Seq<DeleteProgress>
    decreases n,
{
    if n <= 0 {
        seq![]
    } else {
        let rest = reports_after(files, results, n - 1);
        if reported_at(n, files.len() as usize) {
            rest.push(DeleteProgress {
                completed: n as usize,
                reclaimed_bytes: reclaimed_after(results, n),
                failures: failures_after(files, results, n).len() as usize,
            })
        } else {
            rest
        }
    }
}

proof fn lemma_failures_bounded(files: Seq<FileSnapshot>, results: Seq<Result<u64, String>>, n: int)
    requires
        0 <= n,
    ensures
        failures_after(files, results, n).len() <= n,
    decreases n,
{
    if n > 0 {
        lemma_failures_bounded(files, results, n - 1);
    }
}

/// Folds the results of executing a snapshot's files, in file order, into
/// the snapshot's outcome and the progress reports made along the way (one
/// per hundredth of the files, and one after the last).
pub fn execute_with_progress(snapshot: &CleanupSnapshot, results: Vec<Result<u64, String>>) -> (r: (DeleteOutcome, Vec<DeleteProgress>))
    requires
        results@.len() == snapshot.files@.len(),
    ensures
        r.0.reclaimed_bytes == reclaimed_after(results@, results@.len() as int),
        r.0.failures@ == failures_after(snapshot.files@, results@, results@.len() as int),
        r.1@ == reports_after(snapshot.files@, results@, results@.len() as int),
{
    let total = snapshot.files.len();
    let interval = report_interval(total);
    let ghost all = results@;
    let mut reclaimed: u64 = 0;
    let mut failures: Vec<DeleteFailure> = Vec::new();
    let mut reports: Vec<DeleteProgress> = Vec::new();
    let mut rest = results;
    let mut i: usize = 0;
    while rest.len() > 0
        invariant
            total == snapshot.files@.len(),
            all.len() == total,
            interval == report_interval_spec(total),
            interval >= 1,
            0 <= i <= total,
            rest@ == all.skip(i as int),
            reclaimed == reclaimed_after(all, i as int),
            failures@ == failures_after(snapshot.files@, all, i as int),
            reports@ == reports_after(snapshot.files@, all, i as int),
        decreases rest@.len(),
    {
        let ghost before = rest@;
        let result = rest.remove(0);
        proof {
            assert(before[0] == all[i as int]);
            assert(rest@ =~= all.skip(i + 1));
        }
        match result {
            Ok(bytes) => {
                reclaimed = reclaimed.saturating_add(bytes);
            },
            Err(error) => {
                failures.push(DeleteFailure { path: snapshot.files[i].path.clone(), error });
            },
        }
        i = i + 1;
        proof {
            lemma_failures_bounded(snapshot.files@, all, i as int);
        }
        if should_report(i, total, interval) {
            reports.push(DeleteProgress { completed: i, reclaimed_bytes: reclaimed, failures: failures.len() });
        }
    }
    assert(i == total);
    (DeleteOutcome { reclaimed_bytes: reclaimed, failures }, reports)
}

/// The outcome of executing a snapshot's files from their results.
pub fn execute(snapshot: &CleanupSnapshot, results: Vec<Result<u64, String>>) -> (r: DeleteOutcome)
    requires
        results@.len() == snapshot.files@.len(),
    ensures
        r.reclaimed_bytes == reclaimed_after(results@, results@.len() as int),
        r.failures@ == failures_after(snapshot.files@, results@, results@.len() as int),
{
    execute_with_progress(snapshot, results).0
}

} // verus!
