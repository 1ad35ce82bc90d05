use vstd::prelude::*;
use crate::scanner::FileIdentity;
use crate::storage::{
    assemble_duplicate_groups, assembled_from, duplicate_options_refusal, duplicate_plan, member_total, path_before, plan_reports, report_order,
    reclaimable_total, sort_by_path, validate_duplicate_options, well_formed_group,
    DuplicateCandidate, DuplicateScanOptions, DuplicateScanResult, FileCandidate, ScanStats,
    VerifiedGroup,
};

verus! {

/// The size of a candidate file.
pub open spec fn size_of(c: DuplicateCandidate) -> u64 {
    c.candidate.size_bytes
}

/// Whether a group already holds files of this size.
pub open spec fn holds_size(group: Seq<DuplicateCandidate>, size: u64) -> bool {
    group.len() > 0 && size_of(group[0]) == size
}

/// `groups` with `c` added to the group of its size, or to a new group at the
/// end when there is none.
pub open spec fn add_by_size(groups: Seq<Seq<DuplicateCandidate>>, c: DuplicateCandidate) -> Seq<Seq<DuplicateCandidate>> {
    if exists|g: int| 0 <= g < groups.len() && holds_size(#[trigger] groups[g], size_of(c)) {
        let g = choose|g: int| 0 <= g < groups.len() && holds_size(#[trigger] groups[g], size_of(c));
        groups.update(g, groups[g].push(c))
    } else {
        groups.push(seq![c])
    }
}

/// The files grouped by size, groups in order of first appearance and files
/// in order within each group.
pub open spec fn group_by_size(files: Seq<DuplicateCandidate>) -> Seq<Seq<DuplicateCandidate>>
    decreases files.len(),
{
    if files.len() == 0 {
        seq![]
    } else {
        add_by_size(group_by_size(files.drop_last()), files.last())
    }
}

/// Groups that are non-empty, hold one size each, and hold different sizes.
pub open spec fn size_partition(groups: Seq<Seq<DuplicateCandidate>>) -> bool {
    &&& forall|g: int| 0 <= g < groups.len() ==> (#[trigger] groups[g]).len() > 0
    &&& forall|g: int, k: int| 0 <= g < groups.len() && 0 <= k < groups[g].len() ==> size_of(#[trigger] groups[g][k]) == size_of(groups[g][0])
    &&& forall|a: int, b: int| 0 <= a < b < groups.len() ==> size_of((#[trigger] groups[a])[0]) != size_of((#[trigger] groups[b])[0])
}

proof fn lemma_group_by_size(files: Seq<DuplicateCandidate>)
    ensures
        size_partition(group_by_size(files)),
    decreases files.len(),
{
    if files.len() > 0 {
        let prev = group_by_size(files.drop_last());
        lemma_group_by_size(files.drop_last());
        let c = files.last();
        let next = group_by_size(files);
        if exists|g: int| 0 <= g < prev.len() && holds_size(#[trigger] prev[g], size_of(c)) {
            let g = choose|g: int| 0 <= g < prev.len() && holds_size(#[trigger] prev[g], size_of(c));
            assert(next == prev.update(g, prev[g].push(c)));
            assert forall|h: int, k: int| 0 <= h < next.len() && 0 <= k < next[h].len() implies size_of(#[trigger] next[h][k]) == size_of(next[h][0]) by {
                if h == g {
                    if k < prev[g].len() {
                        assert(next[h][k] == prev[g][k]);
                    }
                    assert(next[h][0] == prev[g][0]);
                } else {
                    assert(next[h] == prev[h]);
                }
            }
            assert forall|a: int, b: int| 0 <= a < b < next.len() implies size_of((#[trigger] next[a])[0]) != size_of((#[trigger] next[b])[0]) by {
                assert(next[a][0] == prev[a][0]);
                assert(next[b][0] == prev[b][0]);
            }
        } else {
            assert(next == prev.push(seq![c]));
            assert forall|a: int, b: int| 0 <= a < b < next.len() implies size_of((#[trigger] next[a])[0]) != size_of((#[trigger] next[b])[0]) by {
                if b == prev.len() {
                    assert(!holds_size(prev[a], size_of(c)));
                }
            }
            assert forall|h: int, k: int| 0 <= h < next.len() && 0 <= k < next[h].len() implies size_of(#[trigger] next[h][k]) == size_of(next[h][0]) by {
                if h < prev.len() {
                    assert(next[h] == prev[h]);
                }
            }
        }
    }
}

/// The files at least `min` bytes large, in order.
pub open spec fn large_enough(files: Seq<DuplicateCandidate>, min: u64) -> Seq<DuplicateCandidate>
    decreases files.len(),
{
    if files.len() == 0 {
        seq![]
    } else {
        let rest = large_enough(files.drop_last(), min);
        if size_of(files.last()) >= min {
            rest.push(files.last())
        } else {
            rest
        }
    }
}

/// The groups with at least two files, in order.
pub open spec fn shared_sizes(groups: Seq<Seq<DuplicateCandidate>>) -> Seq<Seq<DuplicateCandidate>>
    decreases groups.len(),
{
    if groups.len() == 0 {
        seq![]
    } else {
        let rest = shared_sizes(groups.drop_last());
        if groups.last().len() >= 2 {
            rest.push(groups.last())
        } else {
            rest
        }
    }
}

/// The number of files in the groups.
pub open spec fn file_total(groups: Seq<Seq<DuplicateCandidate>>) -> int
    decreases groups.len(),
{
    if groups.len() == 0 {
        0
    } else {
        file_total(groups.drop_last()) + groups.last().len()
    }
}

fn index_of_size(groups: &Vec<Vec<DuplicateCandidate>>, size: u64) -> (r: Option<usize>)
    ensures
        match r {
            Some(g) => g < groups@.len() && holds_size(groups@[g as int]@, size),
            None => forall|g: int| 0 <= g < groups@.len() ==> !holds_size(#[trigger] groups@[g]@, size),
        },
{
    let mut g: usize = 0;
    while g < groups.len()
        invariant
            0 <= g <= groups@.len(),
            forall|h: int| 0 <= h < g ==> !holds_size(#[trigger] groups@[h]@, size),
        decreases groups@.len() - g,
    {
        if groups[g].len() > 0 && groups[g][0].candidate.size_bytes == size {
            return Some(g);
        }
        g = g + 1;
    }
    None
}

pub open spec fn group_views(groups: Seq<Vec<DuplicateCandidate>>) -> Seq<Seq<DuplicateCandidate>> {
    groups.map_values(|g: Vec<DuplicateCandidate>| g@)
}

/// Groups the files at least `min` bytes large by size.
fn group_sizes(found: Vec<DuplicateCandidate>, min: u64) -> (r: Vec<Vec<DuplicateCandidate>>)
    ensures
        group_views(r@) == group_by_size(large_enough(found@, min)),
{
    let ghost all = found@;
    let mut groups: Vec<Vec<DuplicateCandidate>> = Vec::new();
    let mut rest = found;
    let ghost mut done: Seq<DuplicateCandidate> = seq![];
    assert(all =~= done + rest@);
    assert(group_views(groups@) =~= group_by_size(large_enough(done, min)));
    while rest.len() > 0
        invariant
            all == done + rest@,
            group_views(groups@) == group_by_size(large_enough(done, min)),
        decreases rest@.len(),
    {
        let ghost before = rest@;
        let c = rest.remove(0);
        proof {
            assert(before[0] == c);
            assert(done.push(c).drop_last() =~= done);
            assert(all =~= done.push(c) + rest@);
        }
        let ghost prev = group_by_size(large_enough(done, min));
        if c.candidate.size_bytes >= min {
            assert(large_enough(done.push(c), min) == large_enough(done, min).push(c));
            assert(large_enough(done, min).push(c).drop_last() =~= large_enough(done, min));
            assert(group_by_size(large_enough(done.push(c), min)) == add_by_size(prev, c));
            proof {
                lemma_group_by_size(large_enough(done, min));
            }
            match index_of_size(&groups, c.candidate.size_bytes) {
                Some(g) => {
                    proof {
                        assert(groups@[g as int]@ == prev[g as int]);
                        assert(holds_size(prev[g as int], size_of(c)));
                        let chosen = choose|h: int| 0 <= h < prev.len() && holds_size(#[trigger] prev[h], size_of(c));
                        if chosen != g {
                            if chosen < g {
                                assert(size_of(prev[chosen][0]) != size_of(prev[g as int][0]));
                            } else {
                                assert(size_of(prev[g as int][0]) != size_of(prev[chosen][0]));
                            }
                        }
                    }
                    let mut inner = groups.remove(g);
                    inner.push(c);
                    groups.insert(g, inner);
                    proof {
                        assert(group_views(groups@) =~= prev.update(g as int, prev[g as int].push(c)));
                    }
                },
                None => {
                    proof {
                        assert forall|h: int| 0 <= h < prev.len() implies !holds_size(#[trigger] prev[h], size_of(c)) by {
                            assert(groups@[h]@ == prev[h]);
                        }
                    }
                    let mut fresh: Vec<DuplicateCandidate> = Vec::new();
                    fresh.push(c);
                    groups.push(fresh);
                    proof {
                        assert(fresh@ =~= seq![c]);
                        assert(group_views(groups@) =~= prev.push(seq![c]));
                    }
                },
            }
        } else {
            assert(large_enough(done.push(c), min) == large_enough(done, min));
        }
        proof {
            done = done.push(c);
        }
    }
    assert(done =~= all);
    groups
}

fn keep_shared(groups: Vec<Vec<DuplicateCandidate>>) -> (r: Vec<Vec<DuplicateCandidate>>)
    ensures
        group_views(r@) == shared_sizes(group_views(groups@)),
{
    let ghost all = group_views(groups@);
    let mut out: Vec<Vec<DuplicateCandidate>> = Vec::new();
    let mut rest = groups;
    let ghost mut done: Seq<Seq<DuplicateCandidate>> = seq![];
    assert(all =~= done + group_views(rest@));
    assert(group_views(out@) =~= shared_sizes(done));
    while rest.len() > 0
        invariant
            all == done + group_views(rest@),
            group_views(out@) == shared_sizes(done),
        decreases rest@.len(),
    {
        let ghost before = rest@;
        let group = rest.remove(0);
        proof {
            assert(group_views(before)[0] == group@);
            assert(done.push(group@).drop_last() =~= done);
            assert(group_views(before) =~= seq![group@] + group_views(rest@));
            assert(all =~= done.push(group@) + group_views(rest@));
        }
        if group.len() >= 2 {
            out.push(group);
            proof {
                assert(group_views(out@) =~= shared_sizes(done).push(group@));
            }
        }
        proof {
            done = done.push(group@);
        }
    }
    assert(done =~= all);
    out
}

/// Whether files are ordered by path.
pub open spec fn path_sorted(files: Seq<DuplicateCandidate>) -> bool {
    forall|i: int, j: int| 0 <= i < j < files.len() ==> !path_before(#[trigger] files[j], #[trigger] files[i])
}

/// Whether groups are ordered by strictly decreasing size.
pub open spec fn largest_first(groups: Seq<Seq<DuplicateCandidate>>) -> bool {
    forall|a: int, b: int| 0 <= a < b < groups.len() ==> size_of((#[trigger] groups[a])[0]) > size_of((#[trigger] groups[b])[0])
}

fn sort_groups_by_size(groups: Vec<Vec<DuplicateCandidate>>) -> (r: Vec<Vec<DuplicateCandidate>>)
    requires
        size_partition(group_views(groups@)),
    ensures
        group_views(r@).to_multiset() == group_views(groups@).to_multiset(),
        largest_first(group_views(r@)),
        forall|g: int| 0 <= g < r@.len() ==> (#[trigger] r@[g])@.len() > 0,
{
    let ghost all = group_views(groups@);
    let mut out: Vec<Vec<DuplicateCandidate>> = Vec::new();
    let mut rest = groups;
    let ghost mut taken: Seq<Seq<DuplicateCandidate>> = seq![];
    assert(all =~= taken + group_views(rest@));
    assert(group_views(out@) =~= taken);
    while rest.len() > 0
        invariant
            all == taken + group_views(rest@),
            size_partition(all),
            group_views(out@).to_multiset() == taken.to_multiset(),
            largest_first(group_views(out@)),
            forall|g: int| 0 <= g < out@.len() ==> (#[trigger] out@[g])@.len() > 0,
            forall|g: int| 0 <= g < out@.len() ==> taken.contains(#[trigger] group_views(out@)[g]),
            forall|g: int| 0 <= g < taken.len() ==> #[trigger] taken[g] == all[g],
            taken.len() + rest@.len() == all.len(),
        decreases rest@.len(),
    {
        let ghost before_rest = group_views(rest@);
        let group = rest.remove(0);
        proof {
            assert(before_rest[0] == group@);
            assert(all[taken.len() as int] == group@);
            assert(group@.len() > 0);
        }
        let size = group[0].candidate.size_bytes;
        let mut p: usize = 0;
        while p < out.len() && out[p][0].candidate.size_bytes > size
            invariant
                0 <= p <= out@.len(),
                forall|g: int| 0 <= g < out@.len() ==> (#[trigger] out@[g])@.len() > 0,
                forall|j: int| 0 <= j < p ==> size_of((#[trigger] out@[j])@[0]) > size,
            decreases out@.len() - p,
        {
            p = p + 1;
        }
        let ghost before = group_views(out@);
        proof {
            // Every group in `out` came from `all` before `group`, so its size differs.
            assert forall|j: int| p <= j < before.len() implies size_of((#[trigger] before[j])[0]) < size by {
                assert(taken.contains(before[j]));
                let t = choose|t: int| 0 <= t < taken.len() && taken[t] == before[j];
                assert(all[t] == before[j]);
                assert(t < taken.len());
                assert(size_of(all[t][0]) != size_of(all[taken.len() as int][0]));
                if j > p {
                    assert(size_of(before[p as int][0]) > size_of(before[j][0]));
                }
            }
        }
        out.insert(p, group);
        proof {
            let inserted = before.insert(p as int, group@);
            assert(group_views(out@) =~= inserted);
            assert forall|a: int, b: int| 0 <= a < b < inserted.len() implies size_of((#[trigger] inserted[a])[0]) > size_of((#[trigger] inserted[b])[0]) by {
                if a < p && b < p {
                    assert(inserted[a] == before[a] && inserted[b] == before[b]);
                } else if a < p && b == p {
                    assert(inserted[a] == before[a]);
                } else if a < p {
                    assert(inserted[a] == before[a] && inserted[b] == before[b - 1]);
                } else if a == p {
                    assert(inserted[b] == before[b - 1]);
                } else {
                    assert(inserted[a] == before[a - 1] && inserted[b] == before[b - 1]);
                }
            }
            vstd::seq_lib::to_multiset_insert(before, p as int, group@);
            vstd::seq_lib::to_multiset_build(taken, group@);
            assert(taken.push(group@).drop_last() =~= taken);
            assert(all =~= taken.push(group@) + group_views(rest@));
            assert forall|g: int| 0 <= g < out@.len() implies taken.push(group@).contains(#[trigger] group_views(out@)[g]) by {
                if g < p {
                    assert(group_views(out@)[g] == before[g]);
                    assert(taken.contains(before[g]));
                    let t = choose|t: int| 0 <= t < taken.len() && taken[t] == before[g];
                    assert(taken.push(group@)[t] == before[g]);
                } else if g == p {
                    assert(taken.push(group@)[taken.len() as int] == group@);
                } else {
                    assert(group_views(out@)[g] == before[g - 1]);
                    assert(taken.contains(before[g - 1]));
                    let t = choose|t: int| 0 <= t < taken.len() && taken[t] == before[g - 1];
                    assert(taken.push(group@)[t] == before[g - 1]);
                }
            }
            taken = taken.push(group@);
        }
    }
    assert(taken =~= all);
    out
}

/// The groups of files at least `min_size_bytes` large that share their size
/// with another such file: largest size first, each group ordered by path;
/// and how many files the groups hold (saturated at the largest `u64`).
pub fn size_groups(found: Vec<DuplicateCandidate>, min_size_bytes: u64) -> (r: (Vec<Vec<DuplicateCandidate>>, u64))
    ensures
        ({
            let shared = shared_sizes(group_by_size(large_enough(found@, min_size_bytes)));
            &&& r.0@.len() == shared.len()
            &&& exists|order: Seq<Seq<DuplicateCandidate>>|
                #![trigger order.to_multiset()]
                order.to_multiset() == shared.to_multiset() && largest_first(order) && forall|g: int|
                    0 <= g < order.len() ==> (#[trigger] r.0@[g])@.to_multiset() == order[g].to_multiset() && path_sorted(r.0@[g]@)
            &&& r.1 == (if file_total(shared) > u64::MAX { u64::MAX as int } else { file_total(shared) })
        }),
{
    let grouped = group_sizes(found, min_size_bytes);
    let ghost all_groups = group_views(grouped@);
    proof {
        lemma_group_by_size(large_enough(found@, min_size_bytes));
    }
    let shared = keep_shared(grouped);
    let ghost shared_view = group_views(shared@);
    proof {
        lemma_shared_partition(all_groups);
    }
    let mut count: u64 = 0;
    let mut i: usize = 0;
    while i < shared.len()
        invariant
            0 <= i <= shared@.len(),
            count == (if file_total(group_views(shared@).take(i as int)) > u64::MAX { u64::MAX as int } else { file_total(group_views(shared@).take(i as int)) }),
            file_total(group_views(shared@).take(i as int)) >= 0,
        decreases shared@.len() - i,
    {
        proof {
            assert(group_views(shared@).take(i + 1).drop_last() =~= group_views(shared@).take(i as int));
        }
        count = count.saturating_add(shared[i].len() as u64);
        i = i + 1;
    }
    assert(group_views(shared@).take(shared@.len() as int) =~= group_views(shared@));
    let ordered = sort_groups_by_size(shared);
    let ghost order = group_views(ordered@);
    let mut out: Vec<Vec<DuplicateCandidate>> = Vec::new();
    let mut rest = ordered;
    let ghost mut k: int = 0;
    assert(order.skip(0) =~= order);
    while rest.len() > 0
        invariant
            0 <= k <= order.len(),
            group_views(rest@) == order.skip(k),
            out@.len() == k,
            forall|g: int| 0 <= g < k ==> (#[trigger] out@[g])@.to_multiset() == order[g].to_multiset() && path_sorted(out@[g]@),
        decreases rest@.len(),
    {
        let ghost before = group_views(rest@);
        let ghost before_vec = rest@;
        let group = rest.remove(0);
        proof {
            assert(rest@ == before_vec.remove(0));
            assert(group_views(rest@) =~= before.skip(1));
            assert(order.skip(k).skip(1) =~= order.skip(k + 1));
            assert(before.len() == order.len() - k);
            assert(before[0] == group@);
            assert(order[k] == group@);
            assert(group_views(rest@) =~= order.skip(k + 1));
        }
        let sorted = sort_by_path(group);
        out.push(sorted);
        proof {
            k = k + 1;
        }
    }
    proof {
        assert(group_views(rest@).len() == 0);
        assert(k == order.len());
        assert(order.to_multiset() == shared_view.to_multiset());
        assert(largest_first(order));
        vstd::seq_lib::to_multiset_len(order);
        vstd::seq_lib::to_multiset_len(shared_view);
        assert(out@.len() == shared_view.len());
        assert(forall|g: int| 0 <= g < order.len() ==> (#[trigger] out@[g])@.to_multiset() == order[g].to_multiset() && path_sorted(out@[g]@));
    }
    (out, count)
}

proof fn lemma_shared_partition(groups: Seq<Seq<DuplicateCandidate>>)
    requires
        size_partition(groups),
    ensures
        size_partition(shared_sizes(groups)),
        forall|g: int| 0 <= g < shared_sizes(groups).len() ==> (#[trigger] shared_sizes(groups)[g]).len() >= 2,
        forall|g: int| 0 <= g < shared_sizes(groups).len() ==> groups.contains(#[trigger] shared_sizes(groups)[g]),
    decreases groups.len(),
{
    if groups.len() > 0 {
        let init = groups.drop_last();
        assert(size_partition(init)) by {
            assert forall|g: int, k: int| 0 <= g < init.len() && 0 <= k < init[g].len() implies size_of(#[trigger] init[g][k]) == size_of(init[g][0]) by {
                assert(init[g] == groups[g]);
            }
            assert forall|a: int, b: int| 0 <= a < b < init.len() implies size_of((#[trigger] init[a])[0]) != size_of((#[trigger] init[b])[0]) by {
                assert(init[a] == groups[a] && init[b] == groups[b]);
            }
        }
        lemma_shared_partition(init);
        let rest = shared_sizes(init);
        let out = shared_sizes(groups);
        assert forall|g: int| 0 <= g < out.len() implies groups.contains(#[trigger] out[g]) by {
            if g < rest.len() {
                assert(out[g] == rest[g]);
                let t = choose|t: int| 0 <= t < init.len() && init[t] == rest[g];
                assert(groups[t] == init[t]);
            } else {
                assert(groups[groups.len() - 1] == groups.last());
            }
        }
        assert forall|g: int| 0 <= g < out.len() implies (#[trigger] out[g]).len() >= 2 by {
            if g < rest.len() {
                assert(out[g] == rest[g]);
            }
        }
        if groups.last().len() >= 2 {
            assert forall|a: int, b: int| 0 <= a < b < out.len() implies size_of((#[trigger] out[a])[0]) != size_of((#[trigger] out[b])[0]) by {
                assert(out[a] == rest[a]);
                let ta = choose|t: int| 0 <= t < init.len() && init[t] == rest[a];
                if b < rest.len() {
                    assert(out[b] == rest[b]);
                } else {
                    assert(out[b] == groups[groups.len() - 1]);
                    assert(groups[ta] == init[ta]);
                }
            }
            assert forall|g: int, k: int| 0 <= g < out.len() && 0 <= k < out[g].len() implies size_of(#[trigger] out[g][k]) == size_of(out[g][0]) by {
                if g < rest.len() {
                    assert(out[g] == rest[g]);
                } else {
                    assert(out[g] == groups[groups.len() - 1]);
                }
            }
        }
    }
}

/// Whether the identity read for the `k`-th file was read and is the first
/// occurrence of that identity.
pub open spec fn first_identity(ids: Seq<Option<FileIdentity>>, k: int) -> bool {
    ids[k] is Some && forall|j: int| 0 <= j < k ==> ids[j] != ids[k]
}

/// A candidate with its identity recorded.
pub open spec fn with_identity(c: DuplicateCandidate, id: Option<FileIdentity>) -> DuplicateCandidate {
    DuplicateCandidate {
        candidate: FileCandidate {
            path: c.candidate.path,
            size_bytes: c.candidate.size_bytes,
            modified_secs: c.candidate.modified_secs,
            modified_unix_nanos: c.candidate.modified_unix_nanos,
            identity: id,
            components: c.candidate.components,
        },
        name: c.name,
        display_path: c.display_path,
    }
}

/// The files whose identity was read and seen for the first time, with it:
/// another entry for an identity already seen is a hard link to the same
/// content, and a file whose identity could not be read is left out.
pub open spec fn distinct_files(files: Seq<DuplicateCandidate>, ids: Seq<Option<FileIdentity>>) -> Seq<DuplicateCandidate>
    decreases files.len(),
{
    if files.len() == 0 {
        seq![]
    } else {
        let rest = distinct_files(files.drop_last(), ids);
        let k = files.len() - 1;
        if first_identity(ids, k) {
            rest.push(with_identity(files.last(), ids[k]))
        } else {
            rest
        }
    }
}

/// Keeps one file per identity, in order, and counts the files left out.
pub fn distinct_identities(files: Vec<DuplicateCandidate>, identities: &Vec<Option<FileIdentity>>) -> (r: (Vec<DuplicateCandidate>, u64))
    requires
        identities@.len() == files@.len(),
    ensures
        r.0@ == distinct_files(files@, identities@),
        r.1 == files@.len() - r.0@.len(),
{
    let ghost all = files@;
    let n = files.len();
    let mut out: Vec<DuplicateCandidate> = Vec::new();
    let mut rest = files;
    let mut i: usize = 0;
    assert(all.take(0) =~= seq![]);
    while rest.len() > 0
        invariant
            n == all.len(),
            identities@.len() == n,
            0 <= i <= n,
            rest@ == all.skip(i as int),
            out@ == distinct_files(all.take(i as int), identities@),
            out@.len() <= i,
        decreases rest@.len(),
    {
        let ghost before = rest@;
        let file = rest.remove(0);
        proof {
            assert(before[0] == all[i as int]);
            assert(rest@ =~= all.skip(i + 1));
            assert(all.take(i + 1).drop_last() =~= all.take(i as int));
            assert(all.take(i + 1).last() == all[i as int]);
        }
        let mut first = false;
        match identities[i] {
            Some(identity) => {
                let mut seen = false;
                let mut j: usize = 0;
                while j < i
                    invariant
                        0 <= j <= i,
                        i < identities@.len(),
                        identities@[i as int] == Some(identity),
                        seen == exists|q: int| 0 <= q < j && identities@[q] == Some(identity),
                    decreases i - j,
                {
                    match identities[j] {
                        Some(other) => {
                            if other == identity {
                                seen = true;
                            }
                        },
                        None => {},
                    }
                    j = j + 1;
                }
                first = !seen;
            },
            None => {},
        }
        assert(first == first_identity(identities@, i as int));
        if first {
            let DuplicateCandidate { candidate, name, display_path } = file;
            let FileCandidate { path, size_bytes, modified_secs, modified_unix_nanos, identity: _, components } = candidate;
            out.push(DuplicateCandidate {
                candidate: FileCandidate { path, size_bytes, modified_secs, modified_unix_nanos, identity: identities[i], components },
                name,
                display_path,
            });
        }
        i = i + 1;
    }
    assert(all.take(n as int) =~= all);
    let skipped = (n - out.len()) as u64;
    (out, skipped)
}

/// Whether a group of verified groups already holds this digest.
pub open spec fn holds_digest(groups: Seq<(Seq<u8>, Seq<DuplicateCandidate>)>, g: int, digest: Seq<u8>) -> bool {
    groups[g].0 == digest
}

/// `groups` with `c` added to the group of its digest, or to a new group at
/// the end when there is none.
pub open spec fn add_by_digest(groups: Seq<(Seq<u8>, Seq<DuplicateCandidate>)>, digest: Seq<u8>, c: DuplicateCandidate) -> Seq<(Seq<u8>, Seq<DuplicateCandidate>)> {
    if exists|g: int| 0 <= g < groups.len() && #[trigger] holds_digest(groups, g, digest) {
        let g = choose|g: int| 0 <= g < groups.len() && #[trigger] holds_digest(groups, g, digest);
        groups.update(g, (digest, groups[g].1.push(c)))
    } else {
        groups.push((digest, seq![c]))
    }
}

/// The files whose digest was computed, grouped by digest: groups in order
/// of first appearance, files in order within each group.
pub open spec fn group_by_digest(files: Seq<DuplicateCandidate>, digests: Seq<Option<Seq<u8>>>) -> Seq<(Seq<u8>, Seq<DuplicateCandidate>)>
    decreases files.len(),
{
    if files.len() == 0 {
        seq![]
    } else {
        let rest = group_by_digest(files.drop_last(), digests);
        match digests[files.len() - 1] {
            Some(digest) => add_by_digest(rest, digest, files.last()),
            None => rest,
        }
    }
}

/// The number of digests computed among the first `n`.
pub open spec fn computed(digests: Seq<Option<Seq<u8>>>, n: int) -> int
    decreases n,
{
    if n <= 0 {
        0
    } else {
        computed(digests, n - 1) + if digests[n - 1] is Some { 1int } else { 0int }
    }
}

pub open spec fn digest_views(digests: Seq<Option<Vec<u8>>>) -> Seq<Option<Seq<u8>>> {
    digests.map_values(|d: Option<Vec<u8>>| match d {
        Some(v) => Some(v@),
        None => None,
    })
}

pub open spec fn verified_views(groups: Seq<VerifiedGroup>) -> Seq<(Seq<u8>, Seq<DuplicateCandidate>)> {
    groups.map_values(|g: VerifiedGroup| (g.hash@, g.files@))
}

proof fn lemma_distinct_digests(files: Seq<DuplicateCandidate>, digests: Seq<Option<Seq<u8>>>)
    requires
        digests.len() >= files.len(),
    ensures
        forall|a: int, b: int| 0 <= a < b < group_by_digest(files, digests).len() ==> (#[trigger] group_by_digest(files, digests)[a]).0 != (#[trigger] group_by_digest(files, digests)[b]).0,
    decreases files.len(),
{
    if files.len() > 0 {
        lemma_distinct_digests(files.drop_last(), digests);
        let prev = group_by_digest(files.drop_last(), digests);
        let next = group_by_digest(files, digests);
        match digests[files.len() - 1] {
            Some(digest) => {
                if exists|g: int| 0 <= g < prev.len() && #[trigger] holds_digest(prev, g, digest) {
                    let g = choose|g: int| 0 <= g < prev.len() && #[trigger] holds_digest(prev, g, digest);
                    assert forall|a: int, b: int| 0 <= a < b < next.len() implies (#[trigger] next[a]).0 != (#[trigger] next[b]).0 by {
                        assert(next[a].0 == prev[a].0 && next[b].0 == prev[b].0);
                    }
                } else {
                    assert forall|a: int, b: int| 0 <= a < b < next.len() implies (#[trigger] next[a]).0 != (#[trigger] next[b]).0 by {
                        if b == prev.len() {
                            assert(!holds_digest(prev, a, digest));
                        }
                    }
                }
            },
            None => {},
        }
    }
}

fn bytes_equal(a: &Vec<u8>, b: &Vec<u8>) -> (r: bool)
    ensures
        r == (a@ == b@),
{
    if a.len() != b.len() {
        return false;
    }
    let mut i: usize = 0;
    while i < a.len()
        invariant
            0 <= i <= a@.len(),
            a@.len() == b@.len(),
            forall|j: int| 0 <= j < i ==> a@[j] == b@[j],
        decreases a@.len() - i,
    {
        if a[i] != b[i] {
            return false;
        }
        i = i + 1;
    }
    assert(a@ =~= b@);
    true
}

fn copy_bytes(v: &Vec<u8>) -> (r: Vec<u8>)
    ensures
        r@ == v@,
{
    let mut out: Vec<u8> = Vec::new();
    let mut i: usize = 0;
    while i < v.len()
        invariant
            0 <= i <= v@.len(),
            out@ == v@.take(i as int),
        decreases v@.len() - i,
    {
        out.push(v[i]);
        assert(v@.take(i + 1) =~= v@.take(i as int).push(v@[i as int]));
        i = i + 1;
    }
    assert(v@.take(v@.len() as int) =~= v@);
    out
}

/// Groups files by the digests computed for them (`None` where a file could
/// not be read), and counts the digests computed and the files left out.
pub fn group_digests(files: Vec<DuplicateCandidate>, digests: &Vec<Option<Vec<u8>>>) -> (r: (Vec<VerifiedGroup>, u64, u64))
    requires
        digests@.len() == files@.len(),
    ensures
        verified_views(r.0@) == group_by_digest(files@, digest_views(digests@)),
        r.1 == computed(digest_views(digests@), files@.len() as int),
        r.2 == files@.len() - r.1,
{
    let ghost all = files@;
    let ghost dv = digest_views(digests@);
    let n = files.len();
    let mut groups: Vec<VerifiedGroup> = Vec::new();
    let mut hashed: u64 = 0;
    let mut rest = files;
    let mut i: usize = 0;
    assert(all.take(0) =~= seq![]);
    assert(verified_views(groups@) =~= seq![]);
    while rest.len() > 0
        invariant
            n == all.len(),
            dv == digest_views(digests@),
            digests@.len() == n,
            0 <= i <= n,
            rest@ == all.skip(i as int),
            verified_views(groups@) == group_by_digest(all.take(i as int), dv),
            hashed == computed(dv, i as int),
            hashed <= i,
        decreases rest@.len(),
    {
        let ghost before = rest@;
        let file = rest.remove(0);
        let ghost prefix = all.take(i as int);
        proof {
            assert(before[0] == all[i as int]);
            assert(rest@ =~= all.skip(i + 1));
            assert(all.take(i + 1).drop_last() =~= prefix);
            assert(all.take(i + 1).last() == all[i as int]);
            assert(group_by_digest(all.take(i + 1), dv) == match dv[i as int] {
                Some(digest) => add_by_digest(group_by_digest(prefix, dv), digest, file),
                None => group_by_digest(prefix, dv),
            });
        }
        match &digests[i] {
            Some(digest) => {
                let ghost prev = verified_views(groups@);
                proof {
                    assert(dv[i as int] == Some(digest@));
                    lemma_distinct_digests(prefix, dv);
                }
                let mut found: Option<usize> = None;
                let mut g: usize = 0;
                while g < groups.len()
                    invariant
                        0 <= g <= groups@.len(),
                        prev == verified_views(groups@),
                        match found {
                            Some(h) => h < groups@.len() && holds_digest(prev, h as int, digest@),
                            None => forall|h: int| 0 <= h < g ==> !#[trigger] holds_digest(prev, h, digest@),
                        },
                    decreases groups@.len() - g,
                {
                    if found.is_none() && bytes_equal(&groups[g].hash, digest) {
                        found = Some(g);
                    }
                    g = g + 1;
                }
                match found {
                    Some(h) => {
                        proof {
                            let chosen = choose|c: int| 0 <= c < prev.len() && #[trigger] holds_digest(prev, c, digest@);
                            if chosen != h {
                                if chosen < h {
                                    assert(prev[chosen].0 != prev[h as int].0);
                                } else {
                                    assert(prev[h as int].0 != prev[chosen].0);
                                }
                            }
                        }
                        let mut group = groups.remove(h);
                        group.files.push(file);
                        groups.insert(h, group);
                        proof {
                            assert(verified_views(groups@) =~= prev.update(h as int, (digest@, prev[h as int].1.push(file))));
                        }
                    },
                    None => {
                        let mut members: Vec<DuplicateCandidate> = Vec::new();
                        members.push(file);
                        groups.push(VerifiedGroup { hash: copy_bytes(digest), files: members });
                        proof {
                            assert(members@ =~= seq![file]);
                            assert(verified_views(groups@) =~= prev.push((digest@, seq![file])));
                        }
                    },
                }
                hashed = hashed + 1;
            },
            None => {
                assert(dv[i as int] is None);
            },
        }
        i = i + 1;
    }
    assert(all.take(n as int) =~= all);
    (groups, hashed, (n as u64) - hashed)
}

/// The groups with at least two files, in order.
pub open spec fn multi_member(groups: Seq<VerifiedGroup>) -> Seq<VerifiedGroup>
    decreases groups.len(),
{
    if groups.len() == 0 {
        seq![]
    } else {
        let rest = multi_member(groups.drop_last());
        if groups.last().files@.len() >= 2 {
            rest.push(groups.last())
        } else {
            rest
        }
    }
}

/// Keeps the groups that hold at least two files.
pub fn multi_member_groups(groups: Vec<VerifiedGroup>) -> (r: Vec<VerifiedGroup>)
    ensures
        r@ == multi_member(groups@),
{
    let ghost all = groups@;
    let mut out: Vec<VerifiedGroup> = Vec::new();
    let mut rest = groups;
    let ghost mut done: Seq<VerifiedGroup> = seq![];
    assert(all =~= done + rest@);
    while rest.len() > 0
        invariant
            all == done + rest@,
            out@ == multi_member(done),
        decreases rest@.len(),
    {
        let ghost before = rest@;
        let group = rest.remove(0);
        proof {
            assert(before[0] == group);
            assert(done.push(group).drop_last() =~= done);
            assert(all =~= done.push(group) + rest@);
        }
        if group.files.len() >= 2 {
            out.push(group);
        }
        proof {
            done = done.push(group);
        }
    }
    assert(done =~= all);
    out
}

/// The result of a duplicate scan from the groups whose full content was
/// verified identical: the options are checked first; the reported groups are
/// the assembled ones, and the limit flag is raised when assembly stopped at
/// a limit.
pub fn scan_duplicates(
    root: String,
    options: &DuplicateScanOptions,
    verified: Vec<VerifiedGroup>,
    candidate_files: u64,
    sampled_files: u64,
    hashed_files: u64,
    stats: ScanStats,
) -> (r: Result<DuplicateScanResult, String>)
    requires
        forall|k: int| 0 <= k < verified@.len() ==> #[trigger] verified@[k].hash@.len() == 32,
    ensures
        match r {
            Err(message) => duplicate_options_refusal(*options) == Some(message@),
            Ok(result) => {
                &&& duplicate_options_refusal(*options) is None
                &&& result.root == root
                &&& result.candidate_files == candidate_files
                &&& result.sampled_files == sampled_files
                &&& result.hashed_files == hashed_files
                &&& result.groups@.len() <= options.max_groups
                &&& member_total(result.groups@) <= options.max_members
                &&& forall|g: int| 0 <= g < result.groups@.len() ==> well_formed_group(#[trigger] result.groups@[g], verified@)
                &&& result.reclaimable_bytes == (if reclaimable_total(result.groups@) > u64::MAX { u64::MAX as int } else { reclaimable_total(result.groups@) })
                &&& result.stats.visited_entries == stats.visited_entries
                &&& result.stats.scanned_files == stats.scanned_files
                &&& result.stats.skipped == stats.skipped
                &&& result.stats.cancelled == stats.cancelled
                &&& exists|s: Seq<VerifiedGroup>| #[trigger] report_order(s, verified@)
                    && plan_reports(result.groups@, s, options.max_groups, options.max_members)
                    && result.stats.limit_reached == (stats.limit_reached
                        || duplicate_plan(s, options.max_groups as int, options.max_members as int).1)
            },
        },
{
    match validate_duplicate_options(options) {
        Err(message) => return Err(message),
        Ok(()) => {},
    }
    let ghost input = verified@;
    let assembled = assemble_duplicate_groups(verified, options.max_groups, options.max_members);
    let ghost order = choose|s: Seq<VerifiedGroup>| #[trigger] report_order(s, input) && assembled_from(assembled, s, options.max_groups, options.max_members);
    let mut result_stats = stats;
    if assembled.limit_reached {
        result_stats.limit_reached = true;
    }
    assert(report_order(order, input));
    Ok(DuplicateScanResult {
        root,
        groups: assembled.groups,
        candidate_files,
        sampled_files,
        hashed_files,
        reclaimable_bytes: assembled.reclaimable_bytes,
        stats: result_stats,
    })
}


/// The files of the groups with at least two files, as plain values.
pub open spec fn multi_views(groups: Seq<(Seq<u8>, Seq<DuplicateCandidate>)>) -> Seq<(Seq<u8>, Seq<DuplicateCandidate>)>
    decreases groups.len(),
{
    if groups.len() == 0 {
        seq![]
    } else {
        let rest = multi_views(groups.drop_last());
        if groups.last().1.len() >= 2 {
            rest.push(groups.last())
        } else {
            rest
        }
    }
}

proof fn lemma_multi_views(groups: Seq<VerifiedGroup>)
    ensures
        verified_views(multi_member(groups)) == multi_views(verified_views(groups)),
    decreases groups.len(),
{
    if groups.len() > 0 {
        lemma_multi_views(groups.drop_last());
        assert(verified_views(groups).drop_last() =~= verified_views(groups.drop_last()));
        let rest = multi_member(groups.drop_last());
        assert(verified_views(rest.push(groups.last())) =~= verified_views(rest).push((groups.last().hash@, groups.last().files@)));
    } else {
        assert(verified_views(multi_member(groups)) =~= seq![]);
    }
}

/// What confirming duplicates waits for: the identities of a size group's
/// files, the sample digests of its distinct files, the full digests of the
/// files of one sample group, or nothing more.
#[derive(Clone, Copy, Debug, PartialEq, Eq, Structural)]
pub enum ConfirmPhase {
    Identities,
    Samples,
    FullDigests,
    Finished,
}

/// What was read for the files asked for last.
#[derive(Debug)]
pub enum ConfirmEvent {
    /// The identity of each file, `None` where it could not be read.
    Identities(Vec<Option<FileIdentity>>),
    /// A SHA-256 for each file, `None` where it could not be read.
    Digests(Vec<Option<Vec<u8>>>),
    /// The scan was cancelled.
    Cancelled,
}

/// Where confirming duplicates stands: the files it waits for (`asked`), the
/// sample groups still to hash in full, the size groups not yet looked at,
/// the groups whose full content is identical, and the counts so far.
pub struct DuplicateConfirmation {
    pub phase: ConfirmPhase,
    pub asked: Vec<DuplicateCandidate>,
    pub sample_groups: Vec<VerifiedGroup>,
    pub size_groups: Vec<Vec<DuplicateCandidate>>,
    pub verified: Vec<VerifiedGroup>,
    pub sampled_files: u64,
    pub hashed_files: u64,
    pub skipped: u64,
    pub cancelled: bool,
}

/// Every confirmed group has a SHA-256 digest.
pub open spec fn confirmation_well_formed(c: DuplicateConfirmation) -> bool {
    forall|k: int| 0 <= k < c.verified@.len() ==> #[trigger] c.verified@[k].hash@.len() == 32
}

pub open spec fn sizes_view(groups: Seq<Vec<DuplicateCandidate>>) -> Seq<Seq<DuplicateCandidate>> {
    groups.map_values(|g: Vec<DuplicateCandidate>| g@)
}

/// Where confirming stands once the current work is done: the next sample
/// group is hashed in full; without one, the next size group's identities
/// are read; without one, confirming is finished.
pub open spec fn moves_on(r: DuplicateConfirmation, samples: Seq<(Seq<u8>, Seq<DuplicateCandidate>)>, sizes: Seq<Seq<DuplicateCandidate>>) -> bool {
    if samples.len() > 0 {
        &&& r.phase == ConfirmPhase::FullDigests
        &&& r.asked@ == samples[0].1
        &&& verified_views(r.sample_groups@) == samples.drop_first()
        &&& sizes_view(r.size_groups@) == sizes
    } else if sizes.len() > 0 {
        &&& r.phase == ConfirmPhase::Identities
        &&& r.asked@ == sizes[0]
        &&& r.sample_groups@.len() == 0
        &&& sizes_view(r.size_groups@) == sizes.drop_first()
    } else {
        &&& r.phase == ConfirmPhase::Finished
        &&& r.sample_groups@.len() == 0
        &&& r.size_groups@.len() == 0
    }
}

fn move_on(
    mut state: DuplicateConfirmation,
    mut sample_groups: Vec<VerifiedGroup>,
    mut size_groups: Vec<Vec<DuplicateCandidate>>,
) -> (r: DuplicateConfirmation)
    ensures
        moves_on(r, verified_views(sample_groups@), sizes_view(size_groups@)),
        r.verified@ == state.verified@,
        r.sampled_files == state.sampled_files,
        r.hashed_files == state.hashed_files,
        r.skipped == state.skipped,
        r.cancelled == state.cancelled,
{
    let ghost samples = verified_views(sample_groups@);
    let ghost sizes = sizes_view(size_groups@);
    if sample_groups.len() > 0 {
        let first = sample_groups.remove(0);
        assert(verified_views(sample_groups@) =~= samples.drop_first());
        state.phase = ConfirmPhase::FullDigests;
        state.asked = first.files;
        state.sample_groups = sample_groups;
        state.size_groups = size_groups;
    } else if size_groups.len() > 0 {
        let first = size_groups.remove(0);
        assert(sizes_view(size_groups@) =~= sizes.drop_first());
        state.phase = ConfirmPhase::Identities;
        state.asked = first;
        state.sample_groups = Vec::new();
        state.size_groups = size_groups;
    } else {
        state.phase = ConfirmPhase::Finished;
        state.asked = Vec::new();
        state.sample_groups = Vec::new();
        state.size_groups = Vec::new();
    }
    state
}

/// Starts confirming duplicates among the size groups, largest size first:
/// a scan cancelled while walking confirms nothing; otherwise the first size
/// group's identities are asked for.
pub fn begin_confirmation(size_groups: Vec<Vec<DuplicateCandidate>>, cancelled: bool) -> (r: DuplicateConfirmation)
    ensures
        confirmation_well_formed(r),
        r.verified@.len() == 0,
        r.sampled_files == 0,
        r.hashed_files == 0,
        r.skipped == 0,
        r.cancelled == cancelled,
        cancelled ==> r.phase == ConfirmPhase::Finished,
        !cancelled ==> moves_on(r, seq![], sizes_view(size_groups@)),
{
    let state = DuplicateConfirmation {
        phase: ConfirmPhase::Finished,
        asked: Vec::new(),
        sample_groups: Vec::new(),
        size_groups: Vec::new(),
        verified: Vec::new(),
        sampled_files: 0,
        hashed_files: 0,
        skipped: 0,
        cancelled,
    };
    if cancelled {
        return state;
    }
    let r = move_on(state, Vec::new(), size_groups);
    assert(verified_views(Seq::<VerifiedGroup>::empty()) =~= seq![]);
    r
}

/// Whether a digest that was read has the length of a SHA-256.
pub open spec fn full_digest_ok(d: Option<Vec<u8>>) -> bool {
    match d {
        Some(v) => v@.len() == 32,
        None => true,
    }
}

pub open spec fn digest_view_ok(d: Option<Seq<u8>>) -> bool {
    match d {
        Some(v) => v.len() == 32,
        None => true,
    }
}

/// Whether an event answers what confirming waits for, one value per file
/// asked for, with full digests of SHA-256 length.
pub open spec fn answers(state: DuplicateConfirmation, event: ConfirmEvent) -> bool {
    match event {
        ConfirmEvent::Identities(ids) => state.phase == ConfirmPhase::Identities && ids@.len() == state.asked@.len(),
        ConfirmEvent::Digests(ds) => (state.phase == ConfirmPhase::Samples || state.phase == ConfirmPhase::FullDigests)
            && ds@.len() == state.asked@.len()
            && (state.phase == ConfirmPhase::FullDigests ==> forall|k: int| 0 <= k < ds@.len() ==> full_digest_ok(#[trigger] ds@[k])),
        ConfirmEvent::Cancelled => true,
    }
}

/// The next step of confirming duplicates after what was read: hard-link
/// aliases and unreadable files of a size group are left out and counted as
/// skipped, and a group left with fewer than two files is dropped; distinct
/// files are grouped by sample digest and only sample groups of two or more
/// are hashed in full; full-digest groups of two or more are confirmed. A
/// cancelled scan stops with the groups confirmed so far. An event that does
/// not answer what confirming waits for stops it without confirming more.
pub fn confirm_step(state: DuplicateConfirmation, event: ConfirmEvent) -> (r: DuplicateConfirmation)
    requires
        confirmation_well_formed(state),
    ensures
        confirmation_well_formed(r),
        event is Cancelled ==> r.phase == ConfirmPhase::Finished && r.cancelled && r.verified@ == state.verified@,
        !answers(state, event) ==> r.phase == ConfirmPhase::Finished && r.verified@ == state.verified@,
        answers(state, event) ==> match event {
            ConfirmEvent::Identities(ids) => {
                let distinct = distinct_files(state.asked@, ids@);
                &&& r.skipped == crate::cleanup_plan::executor::saturating_u64_add(state.skipped, (state.asked@.len() - distinct.len()) as u64)
                &&& r.verified@ == state.verified@
                &&& r.sampled_files == state.sampled_files
                &&& r.hashed_files == state.hashed_files
                &&& r.cancelled == state.cancelled
                &&& if distinct.len() < 2 {
                    moves_on(r, seq![], sizes_view(state.size_groups@))
                } else {
                    &&& r.phase == ConfirmPhase::Samples
                    &&& r.asked@ == distinct
                    &&& r.size_groups@ == state.size_groups@
                    &&& r.sample_groups@.len() == 0
                }
            },
            ConfirmEvent::Digests(ds) => {
                let grouped = group_by_digest(state.asked@, digest_views(ds@));
                let read = computed(digest_views(ds@), state.asked@.len() as int);
                &&& r.skipped == crate::cleanup_plan::executor::saturating_u64_add(state.skipped, (state.asked@.len() - read) as u64)
                &&& r.cancelled == state.cancelled
                &&& if state.phase == ConfirmPhase::Samples {
                    &&& r.sampled_files == crate::cleanup_plan::executor::saturating_u64_add(state.sampled_files, read as u64)
                    &&& r.hashed_files == state.hashed_files
                    &&& r.verified@ == state.verified@
                    &&& moves_on(r, multi_views(grouped), sizes_view(state.size_groups@))
                } else {
                    &&& r.hashed_files == crate::cleanup_plan::executor::saturating_u64_add(state.hashed_files, read as u64)
                    &&& r.sampled_files == state.sampled_files
                    &&& verified_views(r.verified@) == verified_views(state.verified@) + multi_views(grouped)
                    &&& moves_on(r, verified_views(state.sample_groups@), sizes_view(state.size_groups@))
                }
            },
            ConfirmEvent::Cancelled => true,
        },
{
    let DuplicateConfirmation { phase, asked, sample_groups, size_groups, verified, sampled_files, hashed_files, skipped, cancelled } = state;
    let stopped = |verified: Vec<VerifiedGroup>, cancelled: bool| -> (r: DuplicateConfirmation)
        ensures
            r.phase == ConfirmPhase::Finished,
            r.verified@ == verified@,
            r.cancelled == cancelled,
        {
            DuplicateConfirmation {
                phase: ConfirmPhase::Finished,
                asked: Vec::new(),
                sample_groups: Vec::new(),
                size_groups: Vec::new(),
                verified,
                sampled_files,
                hashed_files,
                skipped,
                cancelled,
            }
        };
    match event {
        ConfirmEvent::Cancelled => stopped(verified, true),
        ConfirmEvent::Identities(ids) => {
            if phase != ConfirmPhase::Identities || ids.len() != asked.len() {
                return stopped(verified, cancelled);
            }
            let n = asked.len();
            let (distinct, left_out) = distinct_identities(asked, &ids);
            let skipped = skipped.saturating_add(left_out);
            if distinct.len() < 2 {
                let base = DuplicateConfirmation {
                    phase, asked: Vec::new(), sample_groups: Vec::new(), size_groups: Vec::new(), verified,
                    sampled_files, hashed_files, skipped, cancelled,
                };
                let r = move_on(base, Vec::new(), size_groups);
                assert(verified_views(Seq::<VerifiedGroup>::empty()) =~= seq![]);
                r
            } else {
                DuplicateConfirmation {
                    phase: ConfirmPhase::Samples, asked: distinct, sample_groups: Vec::new(), size_groups, verified,
                    sampled_files, hashed_files, skipped, cancelled,
                }
            }
        },
        ConfirmEvent::Digests(ds) => {
            if !(phase == ConfirmPhase::Samples || phase == ConfirmPhase::FullDigests) || ds.len() != asked.len() {
                return stopped(verified, cancelled);
            }
            if phase == ConfirmPhase::FullDigests {
                let mut all_full = true;
                let mut k: usize = 0;
                while k < ds.len()
                    invariant
                        0 <= k <= ds@.len(),
                        all_full == forall|j: int| 0 <= j < k ==> full_digest_ok(#[trigger] ds@[j]),
                    decreases ds@.len() - k,
                {
                    let full = match &ds[k] {
                        Some(d) => d.len() == 32,
                        None => true,
                    };
                    all_full = all_full && full;
                    k = k + 1;
                }
                if !all_full {
                    return stopped(verified, cancelled);
                }
            }
            let ghost asked_view = asked@;
            let (groups, read, left_out) = group_digests(asked, &ds);
            let skipped = skipped.saturating_add(left_out);
            let ghost groups_view = groups@;
            let multi = multi_member_groups(groups);
            proof {
                lemma_multi_views(groups_view);
            }
            if phase == ConfirmPhase::Samples {
                let base = DuplicateConfirmation {
                    phase, asked: Vec::new(), sample_groups: Vec::new(), size_groups: Vec::new(), verified,
                    sampled_files: sampled_files.saturating_add(read), hashed_files, skipped, cancelled,
                };
                move_on(base, multi, size_groups)
            } else {
                let mut verified = verified;
                let ghost before = verified@;
                let mut multi = multi;
                let ghost all = multi@;
                proof {
                    let dv = digest_views(ds@);
                    assert forall|k: int| 0 <= k < dv.len() implies digest_view_ok(#[trigger] dv[k]) by {
                        assert(full_digest_ok(ds@[k]));
                    }
                    lemma_digest_lengths(asked_view, dv);
                    lemma_multi_subset(groups_view);
                    assert forall|k: int| 0 <= k < all.len() implies #[trigger] all[k].hash@.len() == 32 by {
                        let j = choose|j: int| 0 <= j < groups_view.len() && groups_view[j] == all[k];
                        assert(verified_views(groups_view)[j].0 == groups_view[j].hash@);
                    }
                }
                while multi.len() > 0
                    invariant
                        verified_views(verified@) + verified_views(multi@) == verified_views(before) + verified_views(all),
                        forall|k: int| 0 <= k < verified@.len() ==> #[trigger] verified@[k].hash@.len() == 32,
                        forall|k: int| 0 <= k < multi@.len() ==> #[trigger] multi@[k].hash@.len() == 32,
                    decreases multi@.len(),
                {
                    let ghost vb = verified@;
                    let ghost mb = multi@;
                    let group = multi.remove(0);
                    verified.push(group);
                    proof {
                        assert(verified_views(verified@) =~= verified_views(vb).push((group.hash@, group.files@)));
                        assert(verified_views(mb) =~= seq![(group.hash@, group.files@)] + verified_views(multi@));
                        assert(verified_views(vb) + verified_views(mb) =~= verified_views(verified@) + verified_views(multi@));
                    }
                }
                assert(verified_views(multi@) =~= seq![]);
                assert(verified_views(verified@) =~= verified_views(verified@) + verified_views(multi@));
                let base = DuplicateConfirmation {
                    phase, asked: Vec::new(), sample_groups: Vec::new(), size_groups: Vec::new(), verified,
                    sampled_files, hashed_files: hashed_files.saturating_add(read), skipped, cancelled,
                };
                move_on(base, sample_groups, size_groups)
            }
        },
    }
}


proof fn lemma_digest_lengths(files: Seq<DuplicateCandidate>, digests: Seq<Option<Seq<u8>>>)
    requires
        digests.len() >= files.len(),
        forall|k: int| 0 <= k < digests.len() ==> digest_view_ok(#[trigger] digests[k]),
    ensures
        forall|g: int| 0 <= g < group_by_digest(files, digests).len() ==> (#[trigger] group_by_digest(files, digests)[g]).0.len() == 32,
    decreases files.len(),
{
    if files.len() > 0 {
        lemma_digest_lengths(files.drop_last(), digests);
        let prev = group_by_digest(files.drop_last(), digests);
        match digests[files.len() - 1] {
            Some(digest) => {
                if exists|g: int| 0 <= g < prev.len() && #[trigger] holds_digest(prev, g, digest) {
                    let g = choose|g: int| 0 <= g < prev.len() && #[trigger] holds_digest(prev, g, digest);
                    assert forall|h: int| 0 <= h < group_by_digest(files, digests).len() implies (#[trigger] group_by_digest(files, digests)[h]).0.len() == 32 by {
                        if h != g {
                            assert(group_by_digest(files, digests)[h] == prev[h]);
                        }
                    }
                }
            },
            None => {},
        }
    }
}

proof fn lemma_multi_subset(groups: Seq<VerifiedGroup>)
    ensures
        forall|k: int| 0 <= k < multi_member(groups).len() ==> exists|j: int| 0 <= j < groups.len() && groups[j] == #[trigger] multi_member(groups)[k],
    decreases groups.len(),
{
    if groups.len() > 0 {
        lemma_multi_subset(groups.drop_last());
        let rest = multi_member(groups.drop_last());
        assert forall|k: int| 0 <= k < multi_member(groups).len() implies exists|j: int| 0 <= j < groups.len() && groups[j] == #[trigger] multi_member(groups)[k] by {
            if k < rest.len() {
                let j = choose|j: int| 0 <= j < groups.drop_last().len() && groups.drop_last()[j] == rest[k];
                assert(groups[j] == groups.drop_last()[j]);
                assert(multi_member(groups)[k] == rest[k]);
            } else {
                assert(groups[groups.len() - 1] == multi_member(groups)[k]);
            }
        }
    }
}


/// The result of a duplicate scan once confirming is finished: the confirmed
/// groups are assembled as `scan_duplicates` does, with the files sampled and
/// hashed while confirming, the files it skipped added to those the walk
/// skipped, and the scan marked cancelled when confirming was.
pub fn finish_duplicate_scan(
    root: String,
    options: &DuplicateScanOptions,
    confirmation: DuplicateConfirmation,
    candidate_files: u64,
    stats: ScanStats,
) -> (r: Result<DuplicateScanResult, String>)
    requires
        confirmation_well_formed(confirmation),
    ensures
        match r {
            Err(message) => duplicate_options_refusal(*options) == Some(message@),
            Ok(result) => {
                &&& duplicate_options_refusal(*options) is None
                &&& result.root == root
                &&& result.candidate_files == candidate_files
                &&& result.sampled_files == confirmation.sampled_files
                &&& result.hashed_files == confirmation.hashed_files
                &&& result.reclaimable_bytes == (if reclaimable_total(result.groups@) > u64::MAX { u64::MAX as int } else { reclaimable_total(result.groups@) })
                &&& result.stats.visited_entries == stats.visited_entries
                &&& result.stats.scanned_files == stats.scanned_files
                &&& result.stats.skipped == crate::cleanup_plan::executor::saturating_u64_add(stats.skipped, confirmation.skipped)
                &&& result.stats.cancelled == (stats.cancelled || confirmation.cancelled)
                &&& exists|s: Seq<VerifiedGroup>| #[trigger] report_order(s, confirmation.verified@)
                    && plan_reports(result.groups@, s, options.max_groups, options.max_members)
                    && result.stats.limit_reached == (stats.limit_reached
                        || duplicate_plan(s, options.max_groups as int, options.max_members as int).1)
            },
        },
{
    let mut walked = stats;
    walked.skipped = walked.skipped.saturating_add(confirmation.skipped);
    walked.cancelled = walked.cancelled || confirmation.cancelled;
    scan_duplicates(root, options, confirmation.verified, candidate_files, confirmation.sampled_files, confirmation.hashed_files, walked)
}

} // verus!
