use vstd::prelude::*;
use crate::cleanup_plan::executor::saturating_u64_add;
use crate::exclusions::{copy_part, copy_parts, same_part_exact, same_part_exactly, PathPart};
use crate::scanner::FileIdentity;
use crate::storage::{category_definition, category_of, definition_of, storage_category_kind, validate_limits, CategoryKind, DirectoryScanOptions, ScanStats, StorageCategory, HARD_MAX_FILES, HARD_MAX_RESULTS};
use crate::text::chars_of;

verus! {

/// The size, allocated size and number of some files.
#[derive(Clone, Copy, Debug, PartialEq, Eq, Structural)]
pub struct Usage {
    pub size_bytes: u64,
    pub allocated_bytes: u64,
    pub file_count: u64,
}

/// `a - b`, stopping at zero.
pub open spec fn saturating_u64_sub(a: u64, b: u64) -> u64 {
    if a < b {
        0
    } else {
        (a - b) as u64
    }
}

/// A usage with one more file of these sizes, each figure saturating.
pub open spec fn with_file(u: Usage, logical: u64, allocated: u64) -> Usage {
    Usage {
        size_bytes: saturating_u64_add(u.size_bytes, logical),
        allocated_bytes: saturating_u64_add(u.allocated_bytes, allocated),
        file_count: saturating_u64_add(u.file_count, 1),
    }
}

/// A usage without one file of these sizes, each figure stopping at zero.
pub open spec fn without_file(u: Usage, logical: u64, allocated: u64) -> Usage {
    Usage {
        size_bytes: saturating_u64_sub(u.size_bytes, logical),
        allocated_bytes: saturating_u64_sub(u.allocated_bytes, allocated),
        file_count: saturating_u64_sub(u.file_count, 1),
    }
}

fn add_file_to(u: Usage, logical: u64, allocated: u64) -> (r: Usage)
    ensures
        r == with_file(u, logical, allocated),
{
    Usage {
        size_bytes: u.size_bytes.saturating_add(logical),
        allocated_bytes: u.allocated_bytes.saturating_add(allocated),
        file_count: u.file_count.saturating_add(1),
    }
}

fn remove_file_from(u: Usage, logical: u64, allocated: u64) -> (r: Usage)
    ensures
        r == without_file(u, logical, allocated),
{
    Usage {
        size_bytes: u.size_bytes.saturating_sub(logical),
        allocated_bytes: u.allocated_bytes.saturating_sub(allocated),
        file_count: u.file_count.saturating_sub(1),
    }
}

/// What a directory-usage analysis has counted so far: the totals, the usage
/// of each kind of content in order of first appearance, and the usage of
/// each direct child directory of the root in order of discovery.
#[derive(Clone, Debug)]
pub struct UsageTally {
    pub totals: Usage,
    pub categories: Vec<(CategoryKind, Usage)>,
    pub directories: Vec<(String, Usage)>,
    pub directory_limit_hit: bool,
}

/// The position of the entry for `kind`, if there is one.
pub open spec fn category_index(categories: Seq<(CategoryKind, Usage)>, kind: CategoryKind) -> Option<int> {
    if exists|k: int| 0 <= k < categories.len() && (#[trigger] categories[k]).0 == kind {
        Some(choose|k: int| 0 <= k < categories.len() && (#[trigger] categories[k]).0 == kind)
    } else {
        None
    }
}

/// Whether no two entries share a kind.
pub open spec fn kinds_distinct(categories: Seq<(CategoryKind, Usage)>) -> bool {
    forall|a: int, b: int| 0 <= a < b < categories.len() ==> (#[trigger] categories[a]).0 != (#[trigger] categories[b]).0
}

/// Whether no two directories share a path.
pub open spec fn paths_distinct(directories: Seq<(String, Usage)>) -> bool {
    forall|a: int, b: int| 0 <= a < b < directories.len() ==> (#[trigger] directories[a]).0@ != (#[trigger] directories[b]).0@
}

/// Whether a tally's entries are keyed uniquely.
pub open spec fn tally_well_formed(t: UsageTally) -> bool {
    kinds_distinct(t.categories@) && paths_distinct(t.directories@)
}

impl UsageTally {
    /// A tally with nothing counted.
    pub fn new() -> (t: UsageTally)
        ensures
            tally_well_formed(t),
            t.totals == (Usage { size_bytes: 0, allocated_bytes: 0, file_count: 0 }),
            t.categories@.len() == 0,
            t.directories@.len() == 0,
            !t.directory_limit_hit,
    {
        UsageTally {
            totals: Usage { size_bytes: 0, allocated_bytes: 0, file_count: 0 },
            categories: Vec::new(),
            directories: Vec::new(),
            directory_limit_hit: false,
        }
    }
}

fn find_directory(directories: &Vec<(String, Usage)>, path: &String) -> (r: Option<usize>)
    ensures
        match r {
            Some(k) => k < directories@.len() && directories@[k as int].0@ == path@,
            None => forall|k: int| 0 <= k < directories@.len() ==> (#[trigger] directories@[k]).0@ != path@,
        },
{
    let target = chars_of(path.as_str());
    let mut k: usize = 0;
    while k < directories.len()
        invariant
            0 <= k <= directories@.len(),
            target@ == path@,
            forall|j: int| 0 <= j < k ==> (#[trigger] directories@[j]).0@ != path@,
        decreases directories@.len() - k,
    {
        if crate::apps::vec_eq(&chars_of(directories[k].0.as_str()), &target) {
            return Some(k);
        }
        k = k + 1;
    }
    None
}

fn find_category(categories: &Vec<(CategoryKind, Usage)>, kind: CategoryKind) -> (r: Option<usize>)
    ensures
        match r {
            Some(k) => k < categories@.len() && categories@[k as int].0 == kind,
            None => forall|k: int| 0 <= k < categories@.len() ==> (#[trigger] categories@[k]).0 != kind,
        },
{
    let mut k: usize = 0;
    while k < categories.len()
        invariant
            0 <= k <= categories@.len(),
            forall|j: int| 0 <= j < k ==> (#[trigger] categories@[j]).0 != kind,
        decreases categories@.len() - k,
    {
        if categories[k].0 == kind {
            return Some(k);
        }
        k = k + 1;
    }
    None
}

/// Registers a direct child directory of the root: a directory already
/// registered is left alone; past `max_results` directories the limit is
/// marked instead.
pub fn add_directory(t: &mut UsageTally, path: String, max_results: usize)
    requires
        tally_well_formed(*old(t)),
    ensures
        tally_well_formed(*final(t)),
        final(t).totals == old(t).totals,
        final(t).categories@ == old(t).categories@,
        (exists|k: int| 0 <= k < old(t).directories@.len() && (#[trigger] old(t).directories@[k]).0@ == path@)
            ==> final(t).directories@ == old(t).directories@ && final(t).directory_limit_hit == old(t).directory_limit_hit,
        !(exists|k: int| 0 <= k < old(t).directories@.len() && (#[trigger] old(t).directories@[k]).0@ == path@)
            ==> if old(t).directories@.len() >= max_results {
                final(t).directories@ == old(t).directories@ && final(t).directory_limit_hit
            } else {
                final(t).directories@ == old(t).directories@.push((path, Usage { size_bytes: 0, allocated_bytes: 0, file_count: 0 }))
                    && final(t).directory_limit_hit == old(t).directory_limit_hit
            },
{
    match find_directory(&t.directories, &path) {
        Some(_) => {},
        None => {
            if t.directories.len() >= max_results {
                t.directory_limit_hit = true;
            } else {
                let ghost before = t.directories@;
                t.directories.push((path, Usage { size_bytes: 0, allocated_bytes: 0, file_count: 0 }));
                assert(paths_distinct(t.directories@)) by {
                    assert forall|a: int, b: int| 0 <= a < b < t.directories@.len() implies (#[trigger] t.directories@[a]).0@ != (#[trigger] t.directories@[b]).0@ by {
                        if b == before.len() {
                            assert(t.directories@[a] == before[a]);
                        } else {
                            assert(t.directories@[a] == before[a] && t.directories@[b] == before[b]);
                        }
                    }
                }
            }
        },
    }
}

/// Counts one file of `logical` bytes occupying `allocated` bytes: in the
/// totals, in its kind of content (added when first seen), and in the direct
/// child directory that holds it, if that directory is registered.
pub fn add_file(t: &mut UsageTally, kind: CategoryKind, owning_child: Option<&String>, logical: u64, allocated: u64)
    requires
        tally_well_formed(*old(t)),
    ensures
        tally_well_formed(*final(t)),
        final(t).totals == with_file(old(t).totals, logical, allocated),
        final(t).directory_limit_hit == old(t).directory_limit_hit,
        match category_index(old(t).categories@, kind) {
            Some(k) => final(t).categories@ == old(t).categories@.update(k, (kind, with_file(old(t).categories@[k].1, logical, allocated))),
            None => final(t).categories@ == old(t).categories@.push((kind, with_file(Usage { size_bytes: 0, allocated_bytes: 0, file_count: 0 }, logical, allocated))),
        },
        final(t).directories@.len() == old(t).directories@.len(),
        forall|k: int| 0 <= k < final(t).directories@.len() ==> (#[trigger] final(t).directories@[k]).0 == old(t).directories@[k].0
            && final(t).directories@[k].1 == if owning_child matches Some(child) && old(t).directories@[k].0@ == child@ {
                with_file(old(t).directories@[k].1, logical, allocated)
            } else {
                old(t).directories@[k].1
            },
{
    t.totals = add_file_to(t.totals, logical, allocated);
    let ghost cats = t.categories@;
    match find_category(&t.categories, kind) {
        Some(k) => {
            proof {
                let chosen = choose|j: int| 0 <= j < cats.len() && (#[trigger] cats[j]).0 == kind;
                if chosen != k {
                    if chosen < k {
                        assert(cats[chosen].0 != cats[k as int].0);
                    } else {
                        assert(cats[k as int].0 != cats[chosen].0);
                    }
                }
            }
            let (entry_kind, usage) = t.categories.remove(k);
            t.categories.insert(k, (entry_kind, add_file_to(usage, logical, allocated)));
            assert(t.categories@ =~= cats.update(k as int, (kind, with_file(cats[k as int].1, logical, allocated))));
            assert(kinds_distinct(t.categories@)) by {
                assert forall|a: int, b: int| 0 <= a < b < t.categories@.len() implies (#[trigger] t.categories@[a]).0 != (#[trigger] t.categories@[b]).0 by {
                    assert(t.categories@[a].0 == cats[a].0 && t.categories@[b].0 == cats[b].0);
                }
            }
        },
        None => {
            t.categories.push((kind, add_file_to(Usage { size_bytes: 0, allocated_bytes: 0, file_count: 0 }, logical, allocated)));
            assert(kinds_distinct(t.categories@)) by {
                assert forall|a: int, b: int| 0 <= a < b < t.categories@.len() implies (#[trigger] t.categories@[a]).0 != (#[trigger] t.categories@[b]).0 by {
                    assert(t.categories@[a] == cats[a]);
                    if b < cats.len() {
                        assert(t.categories@[b] == cats[b]);
                    }
                }
            }
        },
    }
    let ghost dirs = t.directories@;
    match owning_child {
        None => {},
        Some(child) => {
            match find_directory(&t.directories, child) {
                None => {},
                Some(k) => {
                    let (path, usage) = t.directories.remove(k);
                    t.directories.insert(k, (path, add_file_to(usage, logical, allocated)));
                    assert(t.directories@ =~= dirs.update(k as int, (dirs[k as int].0, with_file(dirs[k as int].1, logical, allocated))));
                    assert forall|j: int| 0 <= j < dirs.len() && j != k implies dirs[j].0@ != child@ by {
                        if j < k {
                            assert(dirs[j].0@ != dirs[k as int].0@);
                        } else {
                            assert(dirs[k as int].0@ != dirs[j].0@);
                        }
                    }
                    assert(paths_distinct(t.directories@)) by {
                        assert forall|a: int, b: int| 0 <= a < b < t.directories@.len() implies (#[trigger] t.directories@[a]).0@ != (#[trigger] t.directories@[b]).0@ by {
                            assert(t.directories@[a].0 == dirs[a].0 && t.directories@[b].0 == dirs[b].0);
                        }
                    }
                },
            }
        },
    }
}

/// Takes back a hard link counted by `add_file`: its bytes and its file
/// leave the totals, its kind of content and its direct child directory,
/// each figure stopping at zero.
pub fn remove_hard_link(t: &mut UsageTally, kind: CategoryKind, owning_child: Option<&String>, logical: u64, allocated: u64)
    requires
        tally_well_formed(*old(t)),
    ensures
        tally_well_formed(*final(t)),
        final(t).totals == without_file(old(t).totals, logical, allocated),
        final(t).directory_limit_hit == old(t).directory_limit_hit,
        final(t).categories@.len() == old(t).categories@.len(),
        forall|k: int| 0 <= k < final(t).categories@.len() ==> (#[trigger] final(t).categories@[k]).0 == old(t).categories@[k].0
            && final(t).categories@[k].1 == if old(t).categories@[k].0 == kind {
                without_file(old(t).categories@[k].1, logical, allocated)
            } else {
                old(t).categories@[k].1
            },
        final(t).directories@.len() == old(t).directories@.len(),
        forall|k: int| 0 <= k < final(t).directories@.len() ==> (#[trigger] final(t).directories@[k]).0 == old(t).directories@[k].0
            && final(t).directories@[k].1 == if owning_child matches Some(child) && old(t).directories@[k].0@ == child@ {
                without_file(old(t).directories@[k].1, logical, allocated)
            } else {
                old(t).directories@[k].1
            },
{
    t.totals = remove_file_from(t.totals, logical, allocated);
    let ghost cats = t.categories@;
    match find_category(&t.categories, kind) {
        Some(k) => {
            let (entry_kind, usage) = t.categories.remove(k);
            t.categories.insert(k, (entry_kind, remove_file_from(usage, logical, allocated)));
            assert(t.categories@ =~= cats.update(k as int, (kind, without_file(cats[k as int].1, logical, allocated))));
            assert forall|j: int| 0 <= j < cats.len() && j != k implies cats[j].0 != kind by {
                if j < k {
                    assert(cats[j].0 != cats[k as int].0);
                } else {
                    assert(cats[k as int].0 != cats[j].0);
                }
            }
            assert(kinds_distinct(t.categories@)) by {
                assert forall|a: int, b: int| 0 <= a < b < t.categories@.len() implies (#[trigger] t.categories@[a]).0 != (#[trigger] t.categories@[b]).0 by {
                    assert(t.categories@[a].0 == cats[a].0 && t.categories@[b].0 == cats[b].0);
                }
            }
        },
        None => {},
    }
    let ghost dirs = t.directories@;
    match owning_child {
        None => {},
        Some(child) => {
            match find_directory(&t.directories, child) {
                None => {},
                Some(k) => {
                    let (path, usage) = t.directories.remove(k);
                    t.directories.insert(k, (path, remove_file_from(usage, logical, allocated)));
                    assert(t.directories@ =~= dirs.update(k as int, (dirs[k as int].0, without_file(dirs[k as int].1, logical, allocated))));
                    assert forall|j: int| 0 <= j < dirs.len() && j != k implies dirs[j].0@ != child@ by {
                        if j < k {
                            assert(dirs[j].0@ != dirs[k as int].0@);
                        } else {
                            assert(dirs[k as int].0@ != dirs[j].0@);
                        }
                    }
                    assert(paths_distinct(t.directories@)) by {
                        assert forall|a: int, b: int| 0 <= a < b < t.directories@.len() implies (#[trigger] t.directories@[a]).0@ != (#[trigger] t.directories@[b]).0@ by {
                            assert(t.directories@[a].0 == dirs[a].0 && t.directories@[b].0 == dirs[b].0);
                        }
                    }
                },
            }
        },
    }
}

/// Whether the `k`-th identity repeats an earlier one, so that its file is a
/// further hard link to content already counted.
pub open spec fn repeated_identity(ids: Seq<Option<FileIdentity>>, k: int) -> bool {
    ids[k] is Some && exists|j: int| 0 <= j < k && ids[j] == ids[k]
}

/// For each file that may be a hard link, whether it repeats the identity of
/// an earlier one (`None` where the file has one link or could not be read).
pub fn repeated_links(identities: &Vec<Option<FileIdentity>>) -> (r: Vec<bool>)
    ensures
        r@.len() == identities@.len(),
        forall|k: int| 0 <= k < r@.len() ==> #[trigger] r@[k] == repeated_identity(identities@, k),
{
    let mut out: Vec<bool> = Vec::new();
    let mut i: usize = 0;
    while i < identities.len()
        invariant
            0 <= i <= identities@.len(),
            out@.len() == i,
            forall|k: int| 0 <= k < i ==> #[trigger] out@[k] == repeated_identity(identities@, k),
        decreases identities@.len() - i,
    {
        let mut repeated = false;
        match identities[i] {
            None => {},
            Some(identity) => {
                let mut j: usize = 0;
                while j < i
                    invariant
                        0 <= j <= i,
                        i < identities@.len(),
                        identities@[i as int] == Some(identity),
                        repeated == exists|q: int| 0 <= q < j && identities@[q] == Some(identity),
                    decreases i - j,
                {
                    if identities[j] == Some(identity) {
                        repeated = true;
                    }
                    j = j + 1;
                }
            },
        }
        out.push(repeated);
        i = i + 1;
    }
    out
}

/// Whether categories are ordered by their rank.
pub open spec fn by_rank(categories: Seq<StorageCategory>, kinds: Seq<CategoryKind>) -> bool {
    forall|a: int, b: int| 0 <= a < b < kinds.len() ==> definition_of(#[trigger] kinds[a]).rank <= definition_of(#[trigger] kinds[b]).rank
}

/// Whether `reported` are the kinds of content of `categories` as the user
/// sees them: each with its definition and its usage, ordered by rank.
pub open spec fn categories_reported(categories: Seq<(CategoryKind, Usage)>, reported: Seq<StorageCategory>) -> bool {
    &&& reported.len() == categories.len()
    &&& exists|order: Seq<(CategoryKind, Usage)>|
        #![trigger order.to_multiset()]
        order.to_multiset() == categories.to_multiset() && (forall|a: int, b: int|
            0 <= a < b < order.len() ==> definition_of((#[trigger] order[a]).0).rank <= definition_of((#[trigger] order[b]).0).rank)
            && forall|k: int| 0 <= k < order.len() ==> {
                let d = definition_of(order[k].0);
                &&& (#[trigger] reported[k]).id@ == d.id@
                &&& reported[k].label@ == d.label@
                &&& reported[k].color@ == d.color@
                &&& reported[k].description@ == d.description@
                &&& reported[k].size_bytes == order[k].1.size_bytes
                &&& reported[k].allocated_bytes == order[k].1.allocated_bytes
                &&& reported[k].file_count == order[k].1.file_count
            }
}

/// The categories of a tally as they are reported, ordered by rank.
pub fn category_results(categories: Vec<(CategoryKind, Usage)>) -> (r: Vec<StorageCategory>)
    requires
        kinds_distinct(categories@),
    ensures
        r@.len() == categories@.len(),
        exists|order: Seq<(CategoryKind, Usage)>|
            #![trigger order.to_multiset()]
            order.to_multiset() == categories@.to_multiset() && (forall|a: int, b: int|
                0 <= a < b < order.len() ==> definition_of((#[trigger] order[a]).0).rank <= definition_of((#[trigger] order[b]).0).rank)
                && forall|k: int| 0 <= k < order.len() ==> {
                    let d = definition_of(order[k].0);
                    &&& (#[trigger] r@[k]).id@ == d.id@
                    &&& r@[k].label@ == d.label@
                    &&& r@[k].color@ == d.color@
                    &&& r@[k].description@ == d.description@
                    &&& r@[k].size_bytes == order[k].1.size_bytes
                    &&& r@[k].allocated_bytes == order[k].1.allocated_bytes
                    &&& r@[k].file_count == order[k].1.file_count
                },
{
    let ghost all = categories@;
    let mut sorted: Vec<(CategoryKind, Usage)> = Vec::new();
    let mut rest = categories;
    let ghost mut taken: Seq<(CategoryKind, Usage)> = seq![];
    assert(all =~= taken + rest@);
    while rest.len() > 0
        invariant
            all == taken + rest@,
            sorted@.to_multiset() == taken.to_multiset(),
            forall|a: int, b: int| 0 <= a < b < sorted@.len() ==> definition_of((#[trigger] sorted@[a]).0).rank <= definition_of((#[trigger] sorted@[b]).0).rank,
        decreases rest@.len(),
    {
        let ghost before_rest = rest@;
        let entry = rest.remove(0);
        let rank = category_definition(entry.0).rank;
        let mut p: usize = 0;
        while p < sorted.len() && category_definition(sorted[p].0).rank <= rank
            invariant
                0 <= p <= sorted@.len(),
                rank == definition_of(entry.0).rank,
                forall|j: int| 0 <= j < p ==> definition_of((#[trigger] sorted@[j]).0).rank <= rank,
            decreases sorted@.len() - p,
        {
            p = p + 1;
        }
        let ghost before = sorted@;
        sorted.insert(p, entry);
        proof {
            assert(sorted@ =~= before.insert(p as int, entry));
            assert forall|a: int, b: int| 0 <= a < b < sorted@.len() implies definition_of((#[trigger] sorted@[a]).0).rank <= definition_of((#[trigger] sorted@[b]).0).rank by {
                if a < p && b < p {
                    assert(sorted@[a] == before[a] && sorted@[b] == before[b]);
                } else if a < p && b == p {
                    assert(sorted@[a] == before[a]);
                } else if a < p {
                    assert(sorted@[a] == before[a] && sorted@[b] == before[b - 1]);
                } else if a == p {
                    assert(sorted@[b] == before[b - 1]);
                    assert(definition_of(before[p as int].0).rank > rank);
                    if b - 1 > p {
                        assert(definition_of(before[p as int].0).rank <= definition_of(before[b - 1].0).rank);
                    }
                } else {
                    assert(sorted@[a] == before[a - 1] && sorted@[b] == before[b - 1]);
                }
            }
            vstd::seq_lib::to_multiset_insert(before, p as int, entry);
            vstd::seq_lib::to_multiset_build(taken, entry);
            assert(before_rest[0] == entry);
            assert(all =~= taken.push(entry) + rest@);
            taken = taken.push(entry);
        }
    }
    assert(taken =~= all);
    let ghost order = sorted@;
    let mut out: Vec<StorageCategory> = Vec::new();
    let mut i: usize = 0;
    while i < sorted.len()
        invariant
            0 <= i <= sorted@.len(),
            order == sorted@,
            out@.len() == i,
            forall|k: int| 0 <= k < i ==> {
                let d = definition_of(order[k].0);
                &&& (#[trigger] out@[k]).id@ == d.id@
                &&& out@[k].label@ == d.label@
                &&& out@[k].color@ == d.color@
                &&& out@[k].description@ == d.description@
                &&& out@[k].size_bytes == order[k].1.size_bytes
                &&& out@[k].allocated_bytes == order[k].1.allocated_bytes
                &&& out@[k].file_count == order[k].1.file_count
            },
        decreases sorted@.len() - i,
    {
        let (kind, usage) = sorted[i];
        let d = category_definition(kind);
        out.push(StorageCategory {
            id: d.id.to_string(),
            label: d.label.to_string(),
            size_bytes: usage.size_bytes,
            allocated_bytes: usage.allocated_bytes,
            color: d.color.to_string(),
            description: d.description.to_string(),
            file_count: usage.file_count,
        });
        i = i + 1;
    }
    proof {
        vstd::seq_lib::to_multiset_len(order);
        vstd::seq_lib::to_multiset_len(all);
    }
    out
}

/// The order of directories: larger first, then by path with ASCII case
/// ignored, then by path exactly.
pub open spec fn directory_before(a: (String, Usage), b: (String, Usage)) -> bool {
    a.1.size_bytes > b.1.size_bytes || (a.1.size_bytes == b.1.size_bytes && crate::installed::key_lt(
        (crate::text::lower(a.0@), a.0@),
        (crate::text::lower(b.0@), b.0@),
    ))
}

/// Whether directories are in reporting order.
pub open spec fn directories_sorted(directories: Seq<(String, Usage)>) -> bool {
    forall|i: int, j: int| 0 <= i < j < directories.len() ==> !directory_before(#[trigger] directories[j], #[trigger] directories[i])
}

proof fn lemma_directory_facts(a: (String, Usage), b: (String, Usage), c: (String, Usage))
    ensures
        directory_before(a, b) ==> !directory_before(b, a),
        directory_before(a, b) && directory_before(b, c) ==> directory_before(a, c),
{
    crate::installed::lemma_key_facts(
        (crate::text::lower(a.0@), a.0@),
        (crate::text::lower(b.0@), b.0@),
        (crate::text::lower(c.0@), c.0@),
    );
}

fn directory_less(a: &(String, Usage), b: &(String, Usage)) -> (r: bool)
    ensures
        r == directory_before(*a, *b),
{
    if a.1.size_bytes != b.1.size_bytes {
        return a.1.size_bytes > b.1.size_bytes;
    }
    let pa = chars_of(a.0.as_str());
    let pb = chars_of(b.0.as_str());
    let ka = (crate::text::lower_vec(&pa), pa);
    let kb = (crate::text::lower_vec(&pb), pb);
    crate::installed::key_less(&ka, &kb)
}

/// Orders the directories of a tally for reporting: larger first, then by
/// path.
pub fn sort_directories(directories: Vec<(String, Usage)>) -> (r: Vec<(String, Usage)>)
    ensures
        r@.to_multiset() == directories@.to_multiset(),
        directories_sorted(r@),
{
    let mut out: Vec<(String, Usage)> = Vec::new();
    let ghost all = directories@;
    let mut rest = directories;
    let ghost mut taken: Seq<(String, Usage)> = seq![];
    assert(all =~= taken + rest@);
    while rest.len() > 0
        invariant
            all == taken + rest@,
            out@.to_multiset() == taken.to_multiset(),
            directories_sorted(out@),
        decreases rest@.len(),
    {
        let ghost before_rest = rest@;
        let entry = rest.remove(0);
        let mut p: usize = 0;
        while p < out.len() && !directory_less(&entry, &out[p])
            invariant
                0 <= p <= out@.len(),
                forall|j: int| 0 <= j < p ==> !directory_before(entry, #[trigger] out@[j]),
            decreases out@.len() - p,
        {
            p = p + 1;
        }
        let ghost before = out@;
        proof {
            assert forall|a: int, b: int| 0 <= a < b < before.len() + 1 implies !directory_before(
                #[trigger] before.insert(p as int, entry)[b],
                #[trigger] before.insert(p as int, entry)[a],
            ) by {
                let s = before.insert(p as int, entry);
                if a < p && b < p {
                    assert(s[a] == before[a] && s[b] == before[b]);
                } else if a > p && b > p {
                    assert(s[a] == before[a - 1] && s[b] == before[b - 1]);
                } else if a < p && b == p {
                    assert(s[a] == before[a]);
                } else if a < p && b > p {
                    assert(s[a] == before[a] && s[b] == before[b - 1]);
                } else {
                    assert(s[b] == before[b - 1]);
                    let kp = before[p as int];
                    let kb = before[b - 1];
                    lemma_directory_facts(entry, kp, kb);
                    lemma_directory_facts(kb, kp, entry);
                    lemma_directory_facts(kp, kb, entry);
                    lemma_directory_facts(entry, kb, kp);
                    lemma_directory_facts(kb, entry, kp);
                    if b - 1 > p {
                        assert(!directory_before(kb, kp));
                    }
                }
            }
        }
        out.insert(p, entry);
        proof {
            vstd::seq_lib::to_multiset_insert(before, p as int, entry);
            vstd::seq_lib::to_multiset_build(taken, entry);
            assert(before_rest[0] == entry);
            assert(all =~= taken.push(entry) + rest@);
            taken = taken.push(entry);
        }
    }
    assert(taken =~= all);
    out
}

/// Whether `path` starts with exactly the components of `root`.
pub open spec fn starts_exactly(path: Seq<PathPart>, root: Seq<PathPart>) -> bool {
    root.len() <= path.len() && forall|k: int| 0 <= k < root.len() ==> same_part_exactly(#[trigger] path[k], root[k])
}

/// The direct child directory of the root that holds a file found `depth`
/// levels below it: none for a file directly in the root, or outside it.
pub open spec fn owning_child_spec(root: Seq<PathPart>, path: Seq<PathPart>, depth: usize) -> Option<Seq<PathPart>> {
    if depth < 2 || !starts_exactly(path, root) || path.len() <= root.len() {
        None
    } else {
        match path[root.len() as int] {
            PathPart::Normal(_) => Some(root.push(path[root.len() as int])),
            _ => None,
        }
    }
}

/// The direct child directory of the root that a file's usage counts
/// towards.
pub fn owning_direct_child(root: &Vec<PathPart>, path: &Vec<PathPart>, depth: usize) -> (r: Option<Vec<PathPart>>)
    ensures
        match owning_child_spec(root@, path@, depth) {
            None => r is None,
            Some(child) => r matches Some(c) && c@ == child,
        },
{
    if depth < 2 || path.len() <= root.len() {
        return None;
    }
    let mut k: usize = 0;
    while k < root.len()
        invariant
            0 <= k <= root@.len() < path@.len(),
            forall|j: int| 0 <= j < k ==> same_part_exactly(#[trigger] path@[j], root@[j]),
        decreases root@.len() - k,
    {
        if !same_part_exact(&path[k], &root[k]) {
            return None;
        }
        k = k + 1;
    }
    match &path[root.len()] {
        PathPart::Normal(_) => {
            let mut child = copy_parts(root);
            child.push(copy_part(&path[root.len()]));
            Some(child)
        },
        _ => None,
    }
}


/// Files at least this large are checked for further hard links to content
/// already counted; smaller ones are counted as they are.
pub const HARD_LINK_CHECK_MINIMUM_BYTES: u64 = 65536;

/// A regular file found below the root of a usage analysis: its path
/// components below its volume, the direct child directory of the root that
/// holds it (if any), its size, and its identity when it has further hard
/// links.
#[derive(Clone, Debug)]
pub struct UsageFile {
    pub components: Vec<String>,
    pub owning_child: Option<String>,
    pub size_bytes: u64,
    pub linked_identity: Option<FileIdentity>,
}

/// What a usage analysis reports: its root, the totals, the direct child
/// directories in reporting order, the kinds of content by rank, and the
/// statistics of the walk.
#[derive(Clone, Debug)]
pub struct DirectoryUsageReport {
    pub root: String,
    pub totals: Usage,
    pub directories: Vec<(String, Usage)>,
    pub categories: Vec<StorageCategory>,
    pub stats: ScanStats,
}

/// A tally as plain values: the totals, the kinds of content, the direct
/// child directories by path, and whether the directory limit was hit.
pub type TallyView = (Usage, Seq<(CategoryKind, Usage)>, Seq<(Seq<char>, Usage)>, bool);

pub open spec fn directory_views(directories: Seq<(String, Usage)>) -> Seq<(Seq<char>, Usage)> {
    directories.map_values(|d: (String, Usage)| (d.0@, d.1))
}

pub open spec fn tally_view(t: UsageTally) -> TallyView {
    (t.totals, t.categories@, directory_views(t.directories@), t.directory_limit_hit)
}

pub open spec fn zero_usage() -> Usage {
    Usage { size_bytes: 0, allocated_bytes: 0, file_count: 0 }
}

/// A tally after a direct child directory is registered.
pub open spec fn directory_registered(v: TallyView, path: Seq<char>, max_results: usize) -> TallyView {
    if exists|k: int| 0 <= k < v.2.len() && (#[trigger] v.2[k]).0 == path {
        v
    } else if v.2.len() >= max_results {
        (v.0, v.1, v.2, true)
    } else {
        (v.0, v.1, v.2.push((path, zero_usage())), v.3)
    }
}

/// A tally after the direct child directories among `directories` (those at
/// depth 1) are registered in order.
pub open spec fn directories_registered(v: TallyView, directories: Seq<(Seq<char>, usize)>, max_results: usize) -> TallyView
    decreases directories.len(),
{
    if directories.len() == 0 {
        v
    } else {
        let prev = directories_registered(v, directories.drop_last(), max_results);
        if directories.last().1 == 1 {
            directory_registered(prev, directories.last().0, max_results)
        } else {
            prev
        }
    }
}

/// A tally after one file is counted in the totals, in its kind of content
/// and in the direct child directory that holds it.
pub open spec fn file_counted(v: TallyView, kind: CategoryKind, owning: Option<Seq<char>>, size: u64) -> TallyView {
    (
        with_file(v.0, size, size),
        match category_index(v.1, kind) {
            Some(k) => v.1.update(k, (kind, with_file(v.1[k].1, size, size))),
            None => v.1.push((kind, with_file(zero_usage(), size, size))),
        },
        v.2.map_values(|d: (Seq<char>, Usage)| if owning == Some(d.0) { (d.0, with_file(d.1, size, size)) } else { d }),
        v.3,
    )
}

/// The kinds of content after a further hard link of `kind` is taken back.
pub open spec fn taken_back_categories(categories: Seq<(CategoryKind, Usage)>, kind: CategoryKind, size: u64) -> Seq<(CategoryKind, Usage)> {
    categories.map_values(|c: (CategoryKind, Usage)| if c.0 == kind { (c.0, without_file(c.1, size, size)) } else { c })
}

/// A tally after a further hard link is taken back.
pub open spec fn link_taken_back(v: TallyView, kind: CategoryKind, owning: Option<Seq<char>>, size: u64) -> TallyView {
    (
        without_file(v.0, size, size),
        taken_back_categories(v.1, kind, size),
        v.2.map_values(|d: (Seq<char>, Usage)| if owning == Some(d.0) { (d.0, without_file(d.1, size, size)) } else { d }),
        v.3,
    )
}

pub open spec fn owning_view(f: UsageFile) -> Option<Seq<char>> {
    match f.owning_child {
        Some(c) => Some(c@),
        None => None,
    }
}

/// A tally after every file is counted, in order.
pub open spec fn files_counted(v: TallyView, files: Seq<UsageFile>) -> TallyView
    decreases files.len(),
{
    if files.len() == 0 {
        v
    } else {
        let f = files.last();
        file_counted(files_counted(v, files.drop_last()), category_of(f.components@), owning_view(f), f.size_bytes)
    }
}

/// The identities by which further hard links are recognised: only files of
/// at least the check size take part.
pub open spec fn link_identities(files: Seq<UsageFile>) -> Seq<Option<FileIdentity>> {
    files.map_values(|f: UsageFile| if f.size_bytes >= HARD_LINK_CHECK_MINIMUM_BYTES { f.linked_identity } else { None })
}

/// A tally after every further hard link among the first `n` files is taken
/// back, in order: a file whose identity repeats that of an earlier file.
pub open spec fn links_taken_back(v: TallyView, files: Seq<UsageFile>, n: int) -> TallyView
    decreases n,
{
    if n <= 0 {
        v
    } else {
        let prev = links_taken_back(v, files, n - 1);
        let f = files[n - 1];
        if repeated_identity(link_identities(files), n - 1) {
            link_taken_back(prev, category_of(f.components@), owning_view(f), f.size_bytes)
        } else {
            prev
        }
    }
}

/// How many of the first `n` files are further hard links.
pub open spec fn repeated_count(files: Seq<UsageFile>, n: int) -> nat
    decreases n,
{
    if n <= 0 {
        0
    } else {
        repeated_count(files, n - 1) + if repeated_identity(link_identities(files), n - 1) { 1nat } else { 0nat }
    }
}

/// The tally of a usage analysis: the direct child directories registered,
/// every file counted, and further hard links taken back.
pub open spec fn usage_tally(directories: Seq<(Seq<char>, usize)>, files: Seq<UsageFile>, max_results: usize) -> TallyView {
    let start: TallyView = (zero_usage(), seq![], seq![], false);
    links_taken_back(files_counted(directories_registered(start, directories, max_results), files), files, files.len() as int)
}

pub open spec fn path_depth_views(directories: Seq<(String, usize)>) -> Seq<(Seq<char>, usize)> {
    directories.map_values(|d: (String, usize)| (d.0@, d.1))
}

proof fn lemma_tally_well_formed_empty(t: UsageTally)
    requires
        t.categories@.len() == 0,
        t.directories@.len() == 0,
    ensures
        tally_well_formed(t),
{
}

/// The usage of the directory tree below a root from what a walk found: the
/// limits are checked first; the direct child directories (depth 1) are
/// registered up to `max_results`; every file is counted in the totals, its
/// kind of content and its direct child directory; a file of at least the
/// check size whose identity repeats an earlier one is taken back as a
/// further hard link, so shared content is counted once. The directories are
/// reported larger first and the kinds of content by rank.
pub fn directory_usage(
    display_root: String,
    options: &DirectoryScanOptions,
    directories: Vec<(String, usize)>,
    files: Vec<UsageFile>,
    stats: ScanStats,
) -> (r: Result<DirectoryUsageReport, String>)
    ensures
        r is Err <==> !(1 <= options.max_files <= HARD_MAX_FILES && 1 <= options.max_results <= HARD_MAX_RESULTS),
        r matches Err(message) ==> message@ == if !(1 <= options.max_files <= HARD_MAX_FILES) {
            crate::storage::max_files_message()
        } else {
            crate::storage::max_results_message()
        },
        r matches Ok(report) ==> {
            let tally = usage_tally(path_depth_views(directories@), files@, options.max_results);
            &&& report.root == display_root
            &&& report.totals == tally.0
            &&& report.directories@.len() == tally.2.len()
            &&& exists|registered: Seq<(String, Usage)>| #[trigger] directory_views(registered) == tally.2
                && report.directories@.to_multiset() == registered.to_multiset()
            &&& directories_sorted(report.directories@)
            &&& report.directories@.len() <= options.max_results
            &&& report.categories@.len() == tally.1.len()
            &&& categories_reported(tally.1, report.categories@)
            &&& (bytes_of(files@) <= u64::MAX && files@.len() <= u64::MAX) ==> reported_size_sum(report.categories@) == report.totals.size_bytes
                && reported_count_sum(report.categories@) == report.totals.file_count
            &&& report.stats.visited_entries == stats.visited_entries
            &&& report.stats.scanned_files == stats.scanned_files
            &&& report.stats.skipped == stats.skipped
            &&& report.stats.cancelled == stats.cancelled
            &&& report.stats.deduplicated_hard_links as int == (if stats.deduplicated_hard_links + repeated_count(files@, files@.len() as int) > u64::MAX {
                u64::MAX as int
            } else {
                stats.deduplicated_hard_links + repeated_count(files@, files@.len() as int)
            })
            &&& report.stats.limit_reached == (stats.limit_reached || tally.3)
        },
{
    match validate_limits(options.max_files, options.max_results) {
        Err(message) => return Err(message),
        Ok(()) => {},
    }
    let ghost dirs = path_depth_views(directories@);
    let mut tally = UsageTally::new();
    let ghost start: TallyView = (zero_usage(), seq![], seq![], false);
    assert(tally_view(tally) =~= start);
    let mut i: usize = 0;
    while i < directories.len()
        invariant
            0 <= i <= directories@.len(),
            dirs == path_depth_views(directories@),
            tally_well_formed(tally),
            tally_view(tally) == directories_registered(start, dirs.take(i as int), options.max_results),
            tally.directories@.len() <= options.max_results,
        decreases directories@.len() - i,
    {
        proof {
            assert(dirs.take(i + 1).drop_last() =~= dirs.take(i as int));
            assert(dirs.take(i + 1).last() == (directories@[i as int].0@, directories@[i as int].1));
        }
        if directories[i].1 == 1 {
            let ghost before = tally_view(tally);
            let ghost before_dirs = tally.directories@;
            add_directory(&mut tally, directories[i].0.clone(), options.max_results);
            proof {
                let path = directories@[i as int].0@;
                assert((exists|k: int| 0 <= k < before_dirs.len() && (#[trigger] before_dirs[k]).0@ == path)
                    == (exists|k: int| 0 <= k < before.2.len() && (#[trigger] before.2[k]).0 == path)) by {
                    if exists|k: int| 0 <= k < before_dirs.len() && (#[trigger] before_dirs[k]).0@ == path {
                        let k = choose|k: int| 0 <= k < before_dirs.len() && (#[trigger] before_dirs[k]).0@ == path;
                        assert(before.2[k].0 == before_dirs[k].0@);
                    }
                    if exists|k: int| 0 <= k < before.2.len() && (#[trigger] before.2[k]).0 == path {
                        let k = choose|k: int| 0 <= k < before.2.len() && (#[trigger] before.2[k]).0 == path;
                        assert(before.2[k].0 == before_dirs[k].0@);
                    }
                }
                assert(tally_view(tally) =~= directory_registered(before, path, options.max_results));
            }
        }
        i = i + 1;
    }
    assert(dirs.take(dirs.len() as int) =~= dirs);
    let ghost registered = tally_view(tally);
    let mut j: usize = 0;
    while j < files.len()
        invariant
            0 <= j <= files@.len(),
            tally_well_formed(tally),
            registered == directories_registered(start, dirs, options.max_results),
            tally_view(tally) == files_counted(registered, files@.take(j as int)),
            tally.directories@.len() <= options.max_results,
        decreases files@.len() - j,
    {
        let file = &files[j];
        let kind = storage_category_kind(&file.components);
        let ghost before = tally_view(tally);
        let ghost before_dirs = tally.directories@;
        add_file(&mut tally, kind, file.owning_child.as_ref(), file.size_bytes, file.size_bytes);
        proof {
            assert(files@.take(j + 1).drop_last() =~= files@.take(j as int));
            assert(files@.take(j + 1).last() == files@[j as int]);
            assert(tally_view(tally).2 =~= file_counted(before, kind, owning_view(*file), file.size_bytes).2) by {
                assert forall|k: int| 0 <= k < tally_view(tally).2.len() implies tally_view(tally).2[k] == file_counted(before, kind, owning_view(*file), file.size_bytes).2[k] by {
                    assert(tally.directories@[k].0 == before_dirs[k].0);
                }
            }
            assert(tally_view(tally) =~= file_counted(before, kind, owning_view(*file), file.size_bytes));
        }
        j = j + 1;
    }
    assert(files@.take(files@.len() as int) =~= files@);
    let ghost counted = tally_view(tally);
    let mut identities: Vec<Option<FileIdentity>> = Vec::new();
    let mut q: usize = 0;
    while q < files.len()
        invariant
            0 <= q <= files@.len(),
            identities@ == link_identities(files@).take(q as int),
        decreases files@.len() - q,
    {
        let identity = if files[q].size_bytes >= HARD_LINK_CHECK_MINIMUM_BYTES { files[q].linked_identity } else { None };
        identities.push(identity);
        assert(identities@ =~= link_identities(files@).take(q + 1));
        q = q + 1;
    }
    assert(identities@ =~= link_identities(files@));
    let repeated = repeated_links(&identities);
    let mut result_stats = stats;
    let mut m: usize = 0;
    while m < files.len()
        invariant
            0 <= m <= files@.len(),
            repeated@.len() == files@.len(),
            identities@ == link_identities(files@),
            forall|k: int| 0 <= k < repeated@.len() ==> #[trigger] repeated@[k] == repeated_identity(identities@, k),
            tally_well_formed(tally),
            tally_view(tally) == links_taken_back(counted, files@, m as int),
            tally.directories@.len() <= options.max_results,
            result_stats.visited_entries == stats.visited_entries,
            result_stats.scanned_files == stats.scanned_files,
            result_stats.skipped == stats.skipped,
            result_stats.cancelled == stats.cancelled,
            result_stats.limit_reached == stats.limit_reached,
            result_stats.deduplicated_hard_links as int == (if stats.deduplicated_hard_links + repeated_count(files@, m as int) > u64::MAX {
                u64::MAX as int
            } else {
                stats.deduplicated_hard_links + repeated_count(files@, m as int)
            }),
        decreases files@.len() - m,
    {
        if repeated[m] {
            let file = &files[m];
            let kind = storage_category_kind(&file.components);
            let ghost before = tally_view(tally);
            let ghost before_dirs = tally.directories@;
            let ghost before_cats = tally.categories@;
            result_stats.deduplicated_hard_links = result_stats.deduplicated_hard_links.saturating_add(1);
            remove_hard_link(&mut tally, kind, file.owning_child.as_ref(), file.size_bytes, file.size_bytes);
            proof {
                assert(tally_view(tally).2 =~= link_taken_back(before, kind, owning_view(*file), file.size_bytes).2) by {
                    assert forall|k: int| 0 <= k < tally_view(tally).2.len() implies tally_view(tally).2[k] == link_taken_back(before, kind, owning_view(*file), file.size_bytes).2[k] by {
                        assert(tally.directories@[k].0 == before_dirs[k].0);
                    }
                }
                assert(tally_view(tally).1 =~= link_taken_back(before, kind, owning_view(*file), file.size_bytes).1);
                assert(tally_view(tally) =~= link_taken_back(before, kind, owning_view(*file), file.size_bytes));
            }
        }
        m = m + 1;
    }
    if tally.directory_limit_hit {
        result_stats.limit_reached = true;
    }
    let ghost final_dirs = tally.directories@;
    let sorted = sort_directories(tally.directories);
    proof {
        vstd::seq_lib::to_multiset_len(sorted@);
        vstd::seq_lib::to_multiset_len(final_dirs);
        assert(directory_views(final_dirs) == tally_view(tally).2);
    }
    let ghost final_categories = tally.categories@;
    let categories = category_results(tally.categories);
    proof {
        if bytes_of(files@) <= u64::MAX && files@.len() <= u64::MAX {
            lemma_categories_add_up(dirs, files@, options.max_results);
            let order = choose|order: Seq<(CategoryKind, Usage)>|
                #![trigger order.to_multiset()]
                order.to_multiset() == final_categories.to_multiset() && (forall|a: int, b: int|
                    0 <= a < b < order.len() ==> definition_of((#[trigger] order[a]).0).rank <= definition_of((#[trigger] order[b]).0).rank)
                    && forall|k: int| 0 <= k < order.len() ==> {
                        let d = definition_of(order[k].0);
                        &&& (#[trigger] categories@[k]).id@ == d.id@
                        &&& categories@[k].label@ == d.label@
                        &&& categories@[k].color@ == d.color@
                        &&& categories@[k].description@ == d.description@
                        &&& categories@[k].size_bytes == order[k].1.size_bytes
                        &&& categories@[k].allocated_bytes == order[k].1.allocated_bytes
                        &&& categories@[k].file_count == order[k].1.file_count
                    };
            vstd::seq_lib::to_multiset_len(order);
            vstd::seq_lib::to_multiset_len(final_categories);
            lemma_sum_permutation(order, final_categories);
            lemma_reported_sums(categories@, order);
        }
    }
    Ok(DirectoryUsageReport { root: display_root, totals: tally.totals, directories: sorted, categories, stats: result_stats })
}



/// The bytes of all the files.
pub open spec fn bytes_of(files: Seq<UsageFile>) -> int
    decreases files.len(),
{
    if files.len() == 0 {
        0
    } else {
        bytes_of(files.drop_last()) + files.last().size_bytes
    }
}

/// The bytes of the files of one kind of content.
pub open spec fn kind_bytes(files: Seq<UsageFile>, kind: CategoryKind) -> int
    decreases files.len(),
{
    if files.len() == 0 {
        0
    } else {
        kind_bytes(files.drop_last(), kind) + if category_of(files.last().components@) == kind { files.last().size_bytes as int } else { 0 }
    }
}

/// How many files are of one kind of content.
pub open spec fn kind_files(files: Seq<UsageFile>, kind: CategoryKind) -> int
    decreases files.len(),
{
    if files.len() == 0 {
        0
    } else {
        kind_files(files.drop_last(), kind) + if category_of(files.last().components@) == kind { 1int } else { 0 }
    }
}

/// The summed sizes of the kinds of content.
pub open spec fn size_sum(categories: Seq<(CategoryKind, Usage)>) -> int
    decreases categories.len(),
{
    if categories.len() == 0 {
        0
    } else {
        size_sum(categories.drop_last()) + categories.last().1.size_bytes
    }
}

/// The summed file counts of the kinds of content.
pub open spec fn count_sum(categories: Seq<(CategoryKind, Usage)>) -> int
    decreases categories.len(),
{
    if categories.len() == 0 {
        0
    } else {
        count_sum(categories.drop_last()) + categories.last().1.file_count
    }
}

/// Whether every kind of content holds exactly its files.
pub open spec fn kinds_hold(categories: Seq<(CategoryKind, Usage)>, files: Seq<UsageFile>) -> bool {
    forall|k: int| 0 <= k < categories.len() ==> (#[trigger] categories[k]).1 == Usage {
        size_bytes: kind_bytes(files, categories[k].0) as u64,
        allocated_bytes: kind_bytes(files, categories[k].0) as u64,
        file_count: kind_files(files, categories[k].0) as u64,
    }
}

proof fn lemma_sum_update(categories: Seq<(CategoryKind, Usage)>, k: int, entry: (CategoryKind, Usage))
    requires
        0 <= k < categories.len(),
    ensures
        size_sum(categories.update(k, entry)) == size_sum(categories) - categories[k].1.size_bytes + entry.1.size_bytes,
        count_sum(categories.update(k, entry)) == count_sum(categories) - categories[k].1.file_count + entry.1.file_count,
    decreases categories.len(),
{
    let u = categories.update(k, entry);
    assert(u.drop_last() =~= if k == categories.len() - 1 { categories.drop_last() } else { categories.drop_last().update(k, entry) });
    if k < categories.len() - 1 {
        lemma_sum_update(categories.drop_last(), k, entry);
    }
}

proof fn lemma_entry_below_sum(categories: Seq<(CategoryKind, Usage)>, k: int)
    requires
        0 <= k < categories.len(),
    ensures
        categories[k].1.size_bytes <= size_sum(categories),
        categories[k].1.file_count <= count_sum(categories),
    decreases categories.len(),
{
    if k < categories.len() - 1 {
        lemma_entry_below_sum(categories.drop_last(), k);
    }
    lemma_sums_nonnegative(categories.drop_last());
}

proof fn lemma_sums_nonnegative(categories: Seq<(CategoryKind, Usage)>)
    ensures
        size_sum(categories) >= 0,
        count_sum(categories) >= 0,
    decreases categories.len(),
{
    if categories.len() > 0 {
        lemma_sums_nonnegative(categories.drop_last());
    }
}

proof fn lemma_kind_below_bytes(files: Seq<UsageFile>, kind: CategoryKind)
    ensures
        0 <= kind_bytes(files, kind) <= bytes_of(files),
        0 <= kind_files(files, kind) <= files.len(),
    decreases files.len(),
{
    if files.len() > 0 {
        lemma_kind_below_bytes(files.drop_last(), kind);
    }
}

proof fn lemma_registered_keeps_counts(v: TallyView, directories: Seq<(Seq<char>, usize)>, max_results: usize)
    ensures
        directories_registered(v, directories, max_results).0 == v.0,
        directories_registered(v, directories, max_results).1 == v.1,
    decreases directories.len(),
{
    if directories.len() > 0 {
        lemma_registered_keeps_counts(v, directories.drop_last(), max_results);
    }
}

/// After every file is counted, with no figure running past the largest
/// `u64`: the totals are the sums over the files, each kind of content
/// holds exactly its files, every file's kind is present, and the kinds'
/// figures add up to the totals.
proof fn lemma_counted(v: TallyView, files: Seq<UsageFile>)
    requires
        v.0 == zero_usage(),
        v.1.len() == 0,
        bytes_of(files) <= u64::MAX,
        files.len() <= u64::MAX,
    ensures
        ({
            let t = files_counted(v, files);
            &&& t.0 == Usage { size_bytes: bytes_of(files) as u64, allocated_bytes: bytes_of(files) as u64, file_count: files.len() as u64 }
            &&& kinds_distinct(t.1)
            &&& kinds_hold(t.1, files)
            &&& forall|j: int| 0 <= j < files.len() ==> category_index(t.1, category_of((#[trigger] files[j]).components@)) is Some
            &&& size_sum(t.1) == bytes_of(files)
            &&& count_sum(t.1) == files.len()
        }),
    decreases files.len(),
{
    if files.len() > 0 {
        let init = files.drop_last();
        let f = files.last();
        let kind = category_of(f.components@);
        lemma_kind_below_bytes(init, kind);
        lemma_counted(v, init);
        let p = files_counted(v, init);
        let t = files_counted(v, files);
        lemma_sums_nonnegative(p.1);
        assert(t.0 == with_file(p.0, f.size_bytes, f.size_bytes));
        match category_index(p.1, kind) {
            Some(k) => {
                lemma_entry_below_sum(p.1, k);
                lemma_sum_update(p.1, k, (kind, with_file(p.1[k].1, f.size_bytes, f.size_bytes)));
                assert(kinds_distinct(t.1)) by {
                    assert forall|a: int, b: int| 0 <= a < b < t.1.len() implies (#[trigger] t.1[a]).0 != (#[trigger] t.1[b]).0 by {
                        assert(t.1[a].0 == p.1[a].0 && t.1[b].0 == p.1[b].0);
                    }
                }
                assert forall|q: int| 0 <= q < t.1.len() implies (#[trigger] t.1[q]).1 == Usage {
                    size_bytes: kind_bytes(files, t.1[q].0) as u64,
                    allocated_bytes: kind_bytes(files, t.1[q].0) as u64,
                    file_count: kind_files(files, t.1[q].0) as u64,
                } by {
                    assert(p.1[q].1 == Usage {
                        size_bytes: kind_bytes(init, p.1[q].0) as u64,
                        allocated_bytes: kind_bytes(init, p.1[q].0) as u64,
                        file_count: kind_files(init, p.1[q].0) as u64,
                    });
                    lemma_kind_below_bytes(files, p.1[q].0);
                    if q != k {
                        assert(p.1[q].0 != kind);
                    }
                }
                assert forall|j: int| 0 <= j < files.len() implies category_index(t.1, category_of((#[trigger] files[j]).components@)) is Some by {
                    let c = category_of(files[j].components@);
                    if j < init.len() {
                        assert(init[j] == files[j]);
                        let i = choose|i: int| 0 <= i < p.1.len() && (#[trigger] p.1[i]).0 == c;
                        assert(t.1[i].0 == c);
                    } else {
                        assert(t.1[k].0 == c);
                    }
                }
            },
            None => {
                assert(t.1 == p.1.push((kind, with_file(zero_usage(), f.size_bytes, f.size_bytes))));
                assert(t.1.drop_last() =~= p.1);
                assert(forall|q: int| 0 <= q < p.1.len() ==> (#[trigger] p.1[q]).0 != kind);
                lemma_kind_zero(init, kind);
                assert(kinds_distinct(t.1)) by {
                    assert forall|a: int, b: int| 0 <= a < b < t.1.len() implies (#[trigger] t.1[a]).0 != (#[trigger] t.1[b]).0 by {
                        if b < p.1.len() {
                            assert(t.1[a].0 == p.1[a].0 && t.1[b].0 == p.1[b].0);
                        } else {
                            assert(t.1[a].0 == p.1[a].0);
                        }
                    }
                }
                assert forall|q: int| 0 <= q < t.1.len() implies (#[trigger] t.1[q]).1 == Usage {
                    size_bytes: kind_bytes(files, t.1[q].0) as u64,
                    allocated_bytes: kind_bytes(files, t.1[q].0) as u64,
                    file_count: kind_files(files, t.1[q].0) as u64,
                } by {
                    if q < p.1.len() {
                        assert(t.1[q] == p.1[q]);
                        assert(p.1[q].1 == Usage {
                            size_bytes: kind_bytes(init, p.1[q].0) as u64,
                            allocated_bytes: kind_bytes(init, p.1[q].0) as u64,
                            file_count: kind_files(init, p.1[q].0) as u64,
                        });
                    }
                }
                assert forall|j: int| 0 <= j < files.len() implies category_index(t.1, category_of((#[trigger] files[j]).components@)) is Some by {
                    let c = category_of(files[j].components@);
                    if j < init.len() {
                        assert(init[j] == files[j]);
                        let i = choose|i: int| 0 <= i < p.1.len() && (#[trigger] p.1[i]).0 == c;
                        assert(t.1[i].0 == c);
                    } else {
                        assert(t.1[p.1.len() as int].0 == c);
                    }
                }
            },
        }
    } else {
        assert(files_counted(v, files) == v);
    }
}

proof fn lemma_bytes_nonnegative(files: Seq<UsageFile>)
    ensures
        bytes_of(files) >= 0,
    decreases files.len(),
{
    if files.len() > 0 {
        lemma_bytes_nonnegative(files.drop_last());
    }
}

/// A kind of content that no file has holds nothing.
proof fn lemma_kind_zero(files: Seq<UsageFile>, kind: CategoryKind)
    requires
        forall|j: int| 0 <= j < files.len() ==> category_of((#[trigger] files[j]).components@) != kind,
    ensures
        kind_bytes(files, kind) == 0,
        kind_files(files, kind) == 0,
    decreases files.len(),
{
    if files.len() > 0 {
        let init = files.drop_last();
        assert forall|j: int| 0 <= j < init.len() implies category_of((#[trigger] init[j]).components@) != kind by {
            assert(init[j] == files[j]);
        }
        lemma_kind_zero(init, kind);
    }
}


/// The bytes of the further hard links among the first `m` files.
pub open spec fn removed_bytes(files: Seq<UsageFile>, m: int) -> int
    decreases m,
{
    if m <= 0 {
        0
    } else {
        removed_bytes(files, m - 1) + if repeated_identity(link_identities(files), m - 1) { files[m - 1].size_bytes as int } else { 0 }
    }
}

/// The bytes of the further hard links of one kind among the first `m` files.
pub open spec fn kind_removed_bytes(files: Seq<UsageFile>, kind: CategoryKind, m: int) -> int
    decreases m,
{
    if m <= 0 {
        0
    } else {
        kind_removed_bytes(files, kind, m - 1) + if repeated_identity(link_identities(files), m - 1) && category_of(files[m - 1].components@) == kind {
            files[m - 1].size_bytes as int
        } else {
            0
        }
    }
}

/// How many further hard links of one kind are among the first `m` files.
pub open spec fn kind_removed_files(files: Seq<UsageFile>, kind: CategoryKind, m: int) -> int
    decreases m,
{
    if m <= 0 {
        0
    } else {
        kind_removed_files(files, kind, m - 1) + if repeated_identity(link_identities(files), m - 1) && category_of(files[m - 1].components@) == kind { 1int } else { 0 }
    }
}

/// Whether every kind of content holds its files less the further hard links
/// among the first `m` files.
pub open spec fn kinds_hold_after(categories: Seq<(CategoryKind, Usage)>, files: Seq<UsageFile>, m: int) -> bool {
    forall|q: int| 0 <= q < categories.len() ==> (#[trigger] categories[q]).1 == Usage {
        size_bytes: (kind_bytes(files, categories[q].0) - kind_removed_bytes(files, categories[q].0, m)) as u64,
        allocated_bytes: (kind_bytes(files, categories[q].0) - kind_removed_bytes(files, categories[q].0, m)) as u64,
        file_count: (kind_files(files, categories[q].0) - kind_removed_files(files, categories[q].0, m)) as u64,
    }
}

proof fn lemma_prefix_step(files: Seq<UsageFile>, n: int, kind: CategoryKind)
    requires
        0 <= n < files.len(),
    ensures
        bytes_of(files.take(n + 1)) == bytes_of(files.take(n)) + files[n].size_bytes,
        kind_bytes(files.take(n + 1), kind) == kind_bytes(files.take(n), kind) + if category_of(files[n].components@) == kind { files[n].size_bytes as int } else { 0 },
        kind_files(files.take(n + 1), kind) == kind_files(files.take(n), kind) + if category_of(files[n].components@) == kind { 1int } else { 0 },
{
    assert(files.take(n + 1).drop_last() =~= files.take(n));
    assert(files.take(n + 1).last() == files[n]);
}

proof fn lemma_prefix_below(files: Seq<UsageFile>, n: int, kind: CategoryKind)
    requires
        0 <= n <= files.len(),
    ensures
        bytes_of(files.take(n)) <= bytes_of(files),
        kind_bytes(files.take(n), kind) <= kind_bytes(files, kind),
        kind_files(files.take(n), kind) <= kind_files(files, kind),
    decreases files.len() - n,
{
    if n == files.len() {
        assert(files.take(n) =~= files);
    } else {
        lemma_prefix_step(files, n, kind);
        lemma_prefix_below(files, n + 1, kind);
    }
}

proof fn lemma_removed_below(files: Seq<UsageFile>, m: int, kind: CategoryKind)
    requires
        0 <= m <= files.len(),
    ensures
        0 <= removed_bytes(files, m) <= bytes_of(files.take(m)),
        0 <= kind_removed_bytes(files, kind, m) <= kind_bytes(files.take(m), kind),
        0 <= kind_removed_files(files, kind, m) <= kind_files(files.take(m), kind),
        repeated_count(files, m) <= m,
    decreases m,
{
    if m > 0 {
        lemma_removed_below(files, m - 1, kind);
        lemma_prefix_step(files, m - 1, kind);
    } else {
        assert(files.take(0) =~= Seq::<UsageFile>::empty());
    }
}

proof fn lemma_taken_back_sums(categories: Seq<(CategoryKind, Usage)>, kind: CategoryKind, size: u64, k: int)
    requires
        kinds_distinct(categories),
        0 <= k < categories.len(),
        categories[k].0 == kind,
        categories[k].1.size_bytes >= size,
        categories[k].1.file_count >= 1,
    ensures
        size_sum(taken_back_categories(categories, kind, size)) == size_sum(categories) - size,
        count_sum(taken_back_categories(categories, kind, size)) == count_sum(categories) - 1,
    decreases categories.len(),
{
    let t = taken_back_categories(categories, kind, size);
    let init = categories.drop_last();
    assert(t.drop_last() =~= taken_back_categories(init, kind, size));
    if k < categories.len() - 1 {
        assert(kinds_distinct(init)) by {
            assert forall|a: int, b: int| 0 <= a < b < init.len() implies (#[trigger] init[a]).0 != (#[trigger] init[b]).0 by {
                assert(init[a] == categories[a] && init[b] == categories[b]);
            }
        }
        assert(categories.last().0 != kind);
        lemma_taken_back_sums(init, kind, size, k);
    } else {
        assert forall|q: int| 0 <= q < init.len() implies (#[trigger] init[q]).0 != kind by {
            assert(init[q] == categories[q]);
        }
        lemma_no_kind_unchanged(init, kind, size);
    }
}

proof fn lemma_no_kind_unchanged(categories: Seq<(CategoryKind, Usage)>, kind: CategoryKind, size: u64)
    requires
        forall|q: int| 0 <= q < categories.len() ==> (#[trigger] categories[q]).0 != kind,
    ensures
        taken_back_categories(categories, kind, size) == categories,
{
    assert(taken_back_categories(categories, kind, size) =~= categories);
}

/// Taking back the further hard links among the first `m` files, from a
/// tally in which every file was counted without saturating: each is taken
/// back from the totals and from its kind of content without stopping at
/// zero, and the kinds' figures still add up to the totals.
proof fn lemma_taken_back(v: TallyView, files: Seq<UsageFile>, m: int)
    requires
        0 <= m <= files.len(),
        bytes_of(files) <= u64::MAX,
        files.len() <= u64::MAX,
        v.0 == (Usage { size_bytes: bytes_of(files) as u64, allocated_bytes: bytes_of(files) as u64, file_count: files.len() as u64 }),
        kinds_distinct(v.1),
        kinds_hold(v.1, files),
        forall|j: int| 0 <= j < files.len() ==> category_index(v.1, category_of((#[trigger] files[j]).components@)) is Some,
        size_sum(v.1) == bytes_of(files),
        count_sum(v.1) == files.len(),
    ensures
        ({
            let t = links_taken_back(v, files, m);
            &&& t.1.len() == v.1.len()
            &&& forall|q: int| 0 <= q < t.1.len() ==> (#[trigger] t.1[q]).0 == v.1[q].0
            &&& kinds_hold_after(t.1, files, m)
            &&& t.0 == (Usage {
                size_bytes: (bytes_of(files) - removed_bytes(files, m)) as u64,
                allocated_bytes: (bytes_of(files) - removed_bytes(files, m)) as u64,
                file_count: (files.len() - repeated_count(files, m)) as u64,
            })
            &&& size_sum(t.1) == t.0.size_bytes
            &&& count_sum(t.1) == t.0.file_count
        }),
    decreases m,
{
    lemma_bytes_nonnegative(files);
    if m == 0 {
        assert(kinds_hold_after(v.1, files, 0)) by {
            assert forall|q: int| 0 <= q < v.1.len() implies (#[trigger] v.1[q]).1 == Usage {
                size_bytes: (kind_bytes(files, v.1[q].0) - kind_removed_bytes(files, v.1[q].0, 0)) as u64,
                allocated_bytes: (kind_bytes(files, v.1[q].0) - kind_removed_bytes(files, v.1[q].0, 0)) as u64,
                file_count: (kind_files(files, v.1[q].0) - kind_removed_files(files, v.1[q].0, 0)) as u64,
            } by {
                assert(v.1[q].1 == Usage {
                    size_bytes: kind_bytes(files, v.1[q].0) as u64,
                    allocated_bytes: kind_bytes(files, v.1[q].0) as u64,
                    file_count: kind_files(files, v.1[q].0) as u64,
                });
            }
        }
    } else {
        lemma_taken_back(v, files, m - 1);
        let p = links_taken_back(v, files, m - 1);
        let t = links_taken_back(v, files, m);
        let f = files[m - 1];
        let kind = category_of(f.components@);
        lemma_removed_below(files, m - 1, kind);
        lemma_prefix_step(files, m - 1, kind);
        lemma_prefix_below(files, m, kind);
        if repeated_identity(link_identities(files), m - 1) {
            let k = category_index(v.1, kind)->0;
            assert(category_index(v.1, category_of(files[m - 1].components@)) is Some);
            assert(p.1[k].0 == kind);
            assert(p.1[k].1 == Usage {
                size_bytes: (kind_bytes(files, kind) - kind_removed_bytes(files, kind, m - 1)) as u64,
                allocated_bytes: (kind_bytes(files, kind) - kind_removed_bytes(files, kind, m - 1)) as u64,
                file_count: (kind_files(files, kind) - kind_removed_files(files, kind, m - 1)) as u64,
            });
            lemma_kind_below_bytes(files, kind);
            assert(kinds_distinct(p.1)) by {
                assert forall|a: int, b: int| 0 <= a < b < p.1.len() implies (#[trigger] p.1[a]).0 != (#[trigger] p.1[b]).0 by {
                    assert(p.1[a].0 == v.1[a].0 && p.1[b].0 == v.1[b].0);
                }
            }
            lemma_taken_back_sums(p.1, kind, f.size_bytes, k);
            assert forall|q: int| 0 <= q < t.1.len() implies (#[trigger] t.1[q]).1 == Usage {
                size_bytes: (kind_bytes(files, t.1[q].0) - kind_removed_bytes(files, t.1[q].0, m)) as u64,
                allocated_bytes: (kind_bytes(files, t.1[q].0) - kind_removed_bytes(files, t.1[q].0, m)) as u64,
                file_count: (kind_files(files, t.1[q].0) - kind_removed_files(files, t.1[q].0, m)) as u64,
            } by {
                let c = p.1[q].0;
                lemma_removed_below(files, m - 1, c);
                lemma_prefix_step(files, m - 1, c);
                lemma_prefix_below(files, m, c);
                assert(p.1[q].1 == Usage {
                    size_bytes: (kind_bytes(files, c) - kind_removed_bytes(files, c, m - 1)) as u64,
                    allocated_bytes: (kind_bytes(files, c) - kind_removed_bytes(files, c, m - 1)) as u64,
                    file_count: (kind_files(files, c) - kind_removed_files(files, c, m - 1)) as u64,
                });
                lemma_kind_below_bytes(files, c);
            }
        } else {
            assert forall|q: int| 0 <= q < t.1.len() implies (#[trigger] t.1[q]).1 == Usage {
                size_bytes: (kind_bytes(files, t.1[q].0) - kind_removed_bytes(files, t.1[q].0, m)) as u64,
                allocated_bytes: (kind_bytes(files, t.1[q].0) - kind_removed_bytes(files, t.1[q].0, m)) as u64,
                file_count: (kind_files(files, t.1[q].0) - kind_removed_files(files, t.1[q].0, m)) as u64,
            } by {
                assert(t.1[q] == p.1[q]);
            }
        }
    }
}

/// The law of a usage analysis: when the files' sizes and number fit in a
/// `u64`, the kinds of content add up to the totals, in bytes and in files.
pub proof fn lemma_categories_add_up(directories: Seq<(Seq<char>, usize)>, files: Seq<UsageFile>, max_results: usize)
    requires
        bytes_of(files) <= u64::MAX,
        files.len() <= u64::MAX,
    ensures
        size_sum(usage_tally(directories, files, max_results).1) == usage_tally(directories, files, max_results).0.size_bytes,
        count_sum(usage_tally(directories, files, max_results).1) == usage_tally(directories, files, max_results).0.file_count,
{
    let start: TallyView = (zero_usage(), seq![], seq![], false);
    let registered = directories_registered(start, directories, max_results);
    lemma_registered_keeps_counts(start, directories, max_results);
    lemma_counted(registered, files);
    lemma_taken_back(files_counted(registered, files), files, files.len() as int);
}


/// The summed sizes of reported kinds of content.
pub open spec fn reported_size_sum(categories: Seq<StorageCategory>) -> int
    decreases categories.len(),
{
    if categories.len() == 0 {
        0
    } else {
        reported_size_sum(categories.drop_last()) + categories.last().size_bytes
    }
}

/// The summed file counts of reported kinds of content.
pub open spec fn reported_count_sum(categories: Seq<StorageCategory>) -> int
    decreases categories.len(),
{
    if categories.len() == 0 {
        0
    } else {
        reported_count_sum(categories.drop_last()) + categories.last().file_count
    }
}

proof fn lemma_sum_remove(b: Seq<(CategoryKind, Usage)>, i: int)
    requires
        0 <= i < b.len(),
    ensures
        size_sum(b.remove(i)) == size_sum(b) - b[i].1.size_bytes,
        count_sum(b.remove(i)) == count_sum(b) - b[i].1.file_count,
    decreases b.len(),
{
    if i == b.len() - 1 {
        assert(b.remove(i) =~= b.drop_last());
    } else {
        assert(b.remove(i).drop_last() =~= b.drop_last().remove(i));
        assert(b.remove(i).last() == b.last());
        lemma_sum_remove(b.drop_last(), i);
    }
}

proof fn lemma_sum_permutation(a: Seq<(CategoryKind, Usage)>, b: Seq<(CategoryKind, Usage)>)
    requires
        a.to_multiset() == b.to_multiset(),
    ensures
        size_sum(a) == size_sum(b),
        count_sum(a) == count_sum(b),
    decreases a.len(),
{
    broadcast use vstd::multiset::group_multiset_axioms;
    vstd::seq_lib::to_multiset_len(a);
    vstd::seq_lib::to_multiset_len(b);
    if a.len() == 0 {
        assert(b.len() == 0);
    } else {
        let x = a.last();
        let init = a.drop_last();
        assert(init.push(x) =~= a);
        vstd::seq_lib::to_multiset_build(init, x);
        vstd::seq_lib::to_multiset_contains(b, x);
        assert(b.to_multiset().count(x) > 0);
        let i = choose|i: int| 0 <= i < b.len() && b[i] == x;
        vstd::seq_lib::to_multiset_remove(b, i);
        assert(b.remove(i).to_multiset() =~= init.to_multiset());
        lemma_sum_permutation(init, b.remove(i));
        lemma_sum_remove(b, i);
    }
}

proof fn lemma_reported_sums(reported: Seq<StorageCategory>, order: Seq<(CategoryKind, Usage)>)
    requires
        reported.len() == order.len(),
        forall|k: int| 0 <= k < order.len() ==> (#[trigger] reported[k]).size_bytes == order[k].1.size_bytes
            && reported[k].file_count == order[k].1.file_count,
    ensures
        reported_size_sum(reported) == size_sum(order),
        reported_count_sum(reported) == count_sum(order),
    decreases order.len(),
{
    if order.len() > 0 {
        assert forall|k: int| 0 <= k < order.drop_last().len() implies (#[trigger] reported.drop_last()[k]).size_bytes == order.drop_last()[k].1.size_bytes
            && reported.drop_last()[k].file_count == order.drop_last()[k].1.file_count by {
            assert(reported.drop_last()[k] == reported[k]);
        }
        lemma_reported_sums(reported.drop_last(), order.drop_last());
    }
}

} // verus!
