//! Which files below a rule's directory a scan records, and in what order.
use vstd::prelude::*;
use crate::installed::{lemma_text_lt_asymmetric, lemma_text_lt_total, lemma_text_lt_transitive, text_less, text_lt};
use crate::scanner::collect::{is_strictly_inside, strictly_inside};
use crate::scanner::rules::{matcher_accepts, matches_rule, old_enough};
use crate::scanner::{FileIdentity, FileSnapshot, Rule};
use crate::text::chars_of;
use crate::tree::views;

verus! {

/// What an open handle shows of a file found by a walk: its metadata again,
/// its number of links and data streams (`None`: could not be told), and
/// its identity.
#[derive(Debug)]
pub struct HandleCheck {
    pub is_file: bool,
    pub is_link_or_reparse: bool,
    pub is_offline_or_recall: bool,
    pub size: u64,
    pub modified_unix_nanos: Option<i128>,
    pub link_count: Option<u64>,
    pub only_default_stream: Option<bool>,
    pub identity: Option<FileIdentity>,
}

/// What a walk of a rule's directory found of one entry: its path, its
/// components below the directory (the name last), its metadata, how long
/// before the scan began it was modified (`None` if after), its resolved
/// path with that path's components, and what a handle shows (`None`: it
/// could not be opened).
#[derive(Debug)]
pub struct WalkedFile {
    pub path: String,
    pub below: Vec<String>,
    pub is_file: bool,
    pub is_link_or_reparse: bool,
    pub is_offline_or_recall: bool,
    pub size: u64,
    pub modified_unix_nanos: Option<i128>,
    pub age_nanos: Option<u128>,
    pub canonical: Option<(String, Vec<String>)>,
    pub handle: Option<HandleCheck>,
}

/// Whether a handle pins the walked file: still a plain file of the same
/// size and modification time, with one link and only the default stream.
pub open spec fn handle_pins(h: HandleCheck, size: u64, modified: i128) -> bool {
    &&& h.is_file && !h.is_link_or_reparse && !h.is_offline_or_recall
    &&& h.size == size
    &&& h.modified_unix_nanos == Some(modified)
    &&& h.link_count == Some(1u64)
    &&& h.only_default_stream == Some(true)
}

/// The snapshot a scan records of a walked entry, if it records one: a plain
/// file with a readable modification time that the rule takes, resolving
/// strictly inside the resolved directory, pinned by its handle to one
/// identity.
pub open spec fn walked_snapshot(rule: Rule, root_components: Seq<String>, f: WalkedFile) -> Option<FileSnapshot> {
    if f.is_link_or_reparse || f.is_offline_or_recall || !f.is_file || f.below@.len() == 0 {
        None
    } else {
        match f.modified_unix_nanos {
            None => None,
            Some(modified) => if !(old_enough(rule, f.age_nanos) && matcher_accepts(rule.matcher, views(f.below@))) {
                None
            } else {
                match f.canonical {
                    None => None,
                    Some((canonical, components)) => if !strictly_inside(root_components, components@) {
                        None
                    } else {
                        match f.handle {
                            None => None,
                            Some(h) => if !handle_pins(h, f.size, modified) {
                                None
                            } else {
                                match h.identity {
                                    None => None,
                                    Some(identity) => Some(FileSnapshot {
                                        path: f.path,
                                        canonical_path: canonical,
                                        size: f.size,
                                        modified_unix_nanos: modified,
                                        identity,
                                    }),
                                }
                            },
                        }
                    },
                }
            },
        }
    }
}

/// Decides whether a scan records a walked entry, and how.
pub fn walked_file_snapshot(rule: &Rule, root_components: &Vec<String>, f: &WalkedFile) -> (r: Option<FileSnapshot>)
    ensures
        r == walked_snapshot(*rule, root_components@, *f),
{
    if f.is_link_or_reparse || f.is_offline_or_recall || !f.is_file || f.below.len() == 0 {
        return None;
    }
    let modified = match f.modified_unix_nanos {
        None => return None,
        Some(modified) => modified,
    };
    if !matches_rule(rule, &f.below, f.age_nanos) {
        return None;
    }
    let (canonical_path, components) = match &f.canonical {
        None => return None,
        Some(pair) => (&pair.0, &pair.1),
    };
    if !is_strictly_inside(root_components, components) {
        return None;
    }
    let h = match &f.handle {
        None => return None,
        Some(h) => h,
    };
    if !h.is_file || h.is_link_or_reparse || h.is_offline_or_recall || h.size != f.size
        || h.modified_unix_nanos != Some(modified) || h.link_count != Some(1u64)
        || h.only_default_stream != Some(true) {
        return None;
    }
    match h.identity {
        None => None,
        Some(identity) => Some(FileSnapshot {
            path: f.path.clone(),
            canonical_path: canonical_path.clone(),
            size: f.size,
            modified_unix_nanos: modified,
            identity,
        }),
    }
}

/// Whether one path sorts before another, component by component, each
/// compared by code point.
pub open spec fn components_lt(a: Seq<Seq<char>>, b: Seq<Seq<char>>) -> bool
    decreases a.len(),
{
    if a.len() == 0 {
        b.len() > 0
    } else if b.len() == 0 {
        false
    } else if a[0] != b[0] {
        text_lt(a[0], b[0])
    } else {
        components_lt(a.drop_first(), b.drop_first())
    }
}

pub proof fn lemma_components_lt_irreflexive(a: Seq<Seq<char>>)
    ensures
        !components_lt(a, a),
    decreases a.len(),
{
    if a.len() > 0 {
        lemma_components_lt_irreflexive(a.drop_first());
    }
}

pub proof fn lemma_components_lt_transitive(a: Seq<Seq<char>>, b: Seq<Seq<char>>, c: Seq<Seq<char>>)
    requires
        components_lt(a, b),
        components_lt(b, c),
    ensures
        components_lt(a, c),
    decreases a.len(),
{
    if a.len() > 0 && b.len() > 0 && c.len() > 0 {
        if a[0] == b[0] && b[0] == c[0] {
            lemma_components_lt_transitive(a.drop_first(), b.drop_first(), c.drop_first());
        } else if a[0] != b[0] && b[0] != c[0] {
            lemma_text_lt_transitive(a[0], b[0], c[0]);
            if a[0] == c[0] {
                lemma_text_lt_asymmetric(a[0], b[0]);
            }
        } else if a[0] != b[0] {
            assert(b[0] == c[0]);
        } else {
            assert(a[0] == b[0]);
        }
    }
}

pub proof fn lemma_components_lt_total(a: Seq<Seq<char>>, b: Seq<Seq<char>>)
    ensures
        a == b || components_lt(a, b) || components_lt(b, a),
    decreases a.len(),
{
    if a.len() > 0 && b.len() > 0 {
        if a[0] == b[0] {
            lemma_components_lt_total(a.drop_first(), b.drop_first());
            if a.drop_first() == b.drop_first() {
                assert(a =~= seq![a[0]] + a.drop_first());
                assert(b =~= seq![b[0]] + b.drop_first());
            }
        } else {
            lemma_text_lt_total(a[0], b[0]);
        }
    } else if a.len() == 0 && b.len() == 0 {
        assert(a =~= b);
    }
}

pub proof fn lemma_components_lt_asymmetric(a: Seq<Seq<char>>, b: Seq<Seq<char>>)
    requires
        components_lt(a, b),
    ensures
        !components_lt(b, a),
{
    if components_lt(b, a) {
        lemma_components_lt_transitive(a, b, a);
        lemma_components_lt_irreflexive(a);
    }
}

/// The components of a recorded file's path below its directory.
pub open spec fn path_key(f: (FileSnapshot, Vec<String>)) -> Seq<Seq<char>> {
    views(f.1@)
}

fn components_less(a: &Vec<String>, b: &Vec<String>) -> (r: bool)
    ensures
        r == components_lt(views(a@), views(b@)),
{
    let mut i: usize = 0;
    let ghost va = views(a@);
    let ghost vb = views(b@);
    assert(va.skip(0) =~= va);
    assert(vb.skip(0) =~= vb);
    while i < a.len() && i < b.len()
        invariant
            0 <= i <= a@.len(),
            i <= b@.len(),
            va == views(a@),
            vb == views(b@),
            components_lt(va, vb) == components_lt(va.skip(i as int), vb.skip(i as int)),
        decreases a@.len() - i,
    {
        let x = chars_of(a[i].as_str());
        let y = chars_of(b[i].as_str());
        assert(va.skip(i as int)[0] == a@[i as int]@);
        assert(vb.skip(i as int)[0] == b@[i as int]@);
        if !crate::apps::vec_eq(&x, &y) {
            return text_less(&x, &y);
        }
        assert(va.skip(i as int).drop_first() =~= va.skip(i + 1));
        assert(vb.skip(i as int).drop_first() =~= vb.skip(i + 1));
        i = i + 1;
    }
    b.len() > i
}

/// Orders recorded files by their path, component by component.
fn sort_by_components(files: Vec<(FileSnapshot, Vec<String>)>) -> (r: Vec<(FileSnapshot, Vec<String>)>)
    ensures
        r@.to_multiset() == files@.to_multiset(),
        forall|i: int, j: int| 0 <= i < j < r@.len() ==> !components_lt(path_key(#[trigger] r@[j]), path_key(#[trigger] r@[i])),
{
    let mut out: Vec<(FileSnapshot, Vec<String>)> = Vec::new();
    let ghost all = files@;
    let mut rest = files;
    let ghost mut taken: Seq<(FileSnapshot, Vec<String>)> = seq![];
    assert(all =~= taken + rest@);
    while rest.len() > 0
        invariant
            all == taken + rest@,
            out@.to_multiset() == taken.to_multiset(),
            forall|i: int, j: int| 0 <= i < j < out@.len() ==> !components_lt(path_key(#[trigger] out@[j]), path_key(#[trigger] out@[i])),
        decreases rest@.len(),
    {
        let ghost before_rest = rest@;
        let entry = rest.remove(0);
        let mut p: usize = 0;
        while p < out.len() && !components_less(&entry.1, &out[p].1)
            invariant
                0 <= p <= out@.len(),
                forall|j: int| 0 <= j < p ==> !components_lt(path_key(entry), path_key(#[trigger] out@[j])),
            decreases out@.len() - p,
        {
            p = p + 1;
        }
        let ghost before = out@;
        proof {
            assert forall|a: int, b: int| 0 <= a < b < before.len() + 1 implies !components_lt(
                path_key(#[trigger] before.insert(p as int, entry)[b]),
                path_key(#[trigger] before.insert(p as int, entry)[a]),
            ) by {
                let s = before.insert(p as int, entry);
                if b < p {
                    assert(s[a] == before[a] && s[b] == before[b]);
                } else if a > p {
                    assert(s[a] == before[a - 1] && s[b] == before[b - 1]);
                } else if b == p {
                    assert(s[a] == before[a]);
                } else if a < p {
                    assert(s[a] == before[a] && s[b] == before[b - 1]);
                } else {
                    assert(s[b] == before[b - 1]);
                    let x = path_key(before[p as int]);
                    let y = path_key(before[b - 1]);
                    let e = path_key(entry);
                    assert(components_lt(e, x));
                    lemma_components_lt_total(x, y);
                    if x != y {
                        if b - 1 > p {
                            assert(!components_lt(y, x));
                        }
                        lemma_components_lt_transitive(e, x, y);
                    }
                    lemma_components_lt_asymmetric(e, y);
                }
            }
        }
        out.insert(p, entry);
        proof {
            vstd::seq_lib::to_multiset_insert(before, p as int, entry);
            vstd::seq_lib::to_multiset_build(taken, entry);
            assert(before_rest[0] == entry);
            assert(all =~= taken.push(entry) + rest@);
            taken = taken.push(entry);
        }
    }
    assert(taken =~= all);
    out
}

/// The files a scan records among the first `n` walked entries, each with
/// its components below the directory.
pub open spec fn recorded(rule: Rule, root_components: Seq<String>, walked: Seq<WalkedFile>, n: int) -> Seq<(FileSnapshot, Vec<String>)>
    decreases n,
{
    if n <= 0 {
        seq![]
    } else {
        let rest = recorded(rule, root_components, walked, n - 1);
        match walked_snapshot(rule, root_components, walked[n - 1]) {
            Some(s) => rest.push((s, walked[n - 1].below)),
            None => rest,
        }
    }
}

/// The files a scan records of a rule's directory from what its walk found,
/// in path order, component by component.
pub fn recorded_files(rule: &Rule, root_components: &Vec<String>, walked: Vec<WalkedFile>) -> (r: Vec<FileSnapshot>)
    ensures
        exists|order: Seq<(FileSnapshot, Vec<String>)>|
            #![trigger order.to_multiset()]
            order.to_multiset() == recorded(*rule, root_components@, walked@, walked@.len() as int).to_multiset()
            && (forall|i: int, j: int| 0 <= i < j < order.len() ==> !components_lt(path_key(#[trigger] order[j]), path_key(#[trigger] order[i])))
            && r@ == order.map_values(|f: (FileSnapshot, Vec<String>)| f.0),
{
    let ghost all = walked@;
    let n = walked.len();
    let mut kept: Vec<(FileSnapshot, Vec<String>)> = Vec::new();
    let mut rest = walked;
    let mut k: usize = 0;
    while rest.len() > 0
        invariant
            0 <= k <= all.len(),
            all.len() == n,
            rest@ == all.skip(k as int),
            rest@.len() + k == all.len(),
            kept@ == recorded(*rule, root_components@, all, k as int),
        decreases rest@.len(),
    {
        let ghost before = rest@;
        let entry = rest.remove(0);
        proof {
            assert(before[0] == all[k as int]);
            assert(rest@ =~= all.skip(k + 1));
        }
        match walked_file_snapshot(rule, root_components, &entry) {
            Some(snapshot) => {
                kept.push((snapshot, entry.below));
            },
            None => {},
        }
        k = k + 1;
    }
    assert(all.skip(k as int).len() == 0);
    let sorted = sort_by_components(kept);
    let ghost order = sorted@;
    let m = sorted.len();
    let mut out: Vec<FileSnapshot> = Vec::new();
    let mut rest_sorted = sorted;
    let mut i: usize = 0;
    while rest_sorted.len() > 0
        invariant
            0 <= i <= order.len(),
            rest_sorted@ == order.skip(i as int),
            rest_sorted@.len() + i == order.len(),
            order.len() == m,
            out@ == order.take(i as int).map_values(|f: (FileSnapshot, Vec<String>)| f.0),
        decreases rest_sorted@.len(),
    {
        let ghost before = rest_sorted@;
        let (snapshot, _) = rest_sorted.remove(0);
        proof {
            assert(before[0] == order[i as int]);
            assert(rest_sorted@ =~= order.skip(i + 1));
        }
        out.push(snapshot);
        assert(out@ =~= order.take(i + 1).map_values(|f: (FileSnapshot, Vec<String>)| f.0));
        i = i + 1;
    }
    assert(order.take(i as int) =~= order);
    out
}

} // verus!
