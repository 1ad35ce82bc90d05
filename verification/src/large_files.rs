use vstd::prelude::*;
use crate::storage::{
    extension_lower_spec, file_name_of, file_type_spec, found_large_file, max_files_message,
    max_results_message, opened_class, pinned_identity, retain_largest, sorted_large,
    stable_id_spec, time_text, validate_limits, FileCandidate, LargeFileEntry,
    LargeFileScanOptions, LargeFileScanResult, LargeFileSnapshot, OpenedFileFacts, ScanStats, Sensitivity,
    HARD_MAX_FILES, HARD_MAX_RESULTS,
};
use crate::text::chars_of;
use crate::audit::{OperationDetail, OperationRecord};
use crate::models::{ItemFailure, LargeFileDeleteRequest, LargeFileDeleteResult};
use crate::policy::{denial_message, BuildChannel, CapabilityPolicy, DangerousWriteCapability};

verus! {

/// A regular file that a walk below the scan root visited, with what opening
/// it showed and how it is shown to the user.
#[derive(Clone, Debug)]
pub struct FoundFile {
    pub candidate: FileCandidate,
    pub facts: OpenedFileFacts,
    pub name: String,
    pub display_path: String,
}

/// The files at least `min` bytes large, in order.
pub open spec fn matched_files(found: Seq<FoundFile>, min: u64) -> Seq<FoundFile>
    decreases found.len(),
{
    if found.len() == 0 {
        seq![]
    } else {
        let rest = matched_files(found.drop_last(), min);
        if found.last().candidate.size_bytes >= min {
            rest.push(found.last())
        } else {
            rest
        }
    }
}

/// The total size of the files.
pub open spec fn total_bytes(files: Seq<FoundFile>) -> int
    decreases files.len(),
{
    if files.len() == 0 {
        0
    } else {
        total_bytes(files.drop_last()) + files.last().candidate.size_bytes
    }
}

/// Whether `e` is the entry that a scan shows for the found file.
#[verifier::opaque]
pub open spec fn entry_of_found(f: FoundFile, e: LargeFileEntry) -> bool {
    &&& e.id@ == stable_id_spec("large"@, f.candidate.path@)
    &&& e.name == f.name
    &&& e.path == f.display_path
    &&& e.size_bytes == f.candidate.size_bytes
    &&& e.allocated_bytes == f.candidate.size_bytes
    &&& e.modified_at@ == time_text(f.candidate.modified_secs)
    &&& e.file_type@ == file_type_spec(extension_lower_spec(file_name_of(f.candidate.components@)))
    &&& e.sensitivity == opened_class(f.candidate.components@, f.facts).0
    &&& match e.note {
        Some(note) => opened_class(f.candidate.components@, f.facts).1 == Some(note@),
        None => opened_class(f.candidate.components@, f.facts).1 is None,
    }
}

/// Whether `s` is the snapshot that allows deleting the found file later: its
/// identity is pinned, and the snapshot records it with the file's entry.
#[verifier::opaque]
pub open spec fn snapshot_of_found(f: FoundFile, canonical_root: String, s: LargeFileSnapshot) -> bool {
    &&& pinned_identity(f.candidate.components@, f.facts) is Some
    &&& entry_of_found(f, s.entry)
    &&& s.canonical_root == canonical_root
    &&& s.candidate.identity == pinned_identity(f.candidate.components@, f.facts)
    &&& s.candidate.path == f.candidate.path
    &&& s.candidate.size_bytes == f.candidate.size_bytes
    &&& s.candidate.modified_secs == f.candidate.modified_secs
    &&& s.candidate.modified_unix_nanos == f.candidate.modified_unix_nanos
}

/// The number of results that a scan keeps out of `n` matches.
pub open spec fn kept_count(n: nat, max_results: usize) -> int {
    if n > max_results {
        max_results as int
    } else {
        n as int
    }
}

/// Whether `files` are the largest entries of the matched files, largest
/// first, at most `max_results` of them.
pub open spec fn largest_entries(matched: Seq<FoundFile>, max_results: usize, files: Seq<LargeFileEntry>) -> bool {
    exists|entries: Seq<LargeFileEntry>|
        #![trigger entries.to_multiset()]
        entries.len() == matched.len() && (forall|k: int| 0 <= k < matched.len() ==> entry_of_found(#[trigger] matched[k], entries[k]))
            && exists|sorted: Seq<LargeFileEntry>|
            #![trigger sorted.to_multiset()]
            sorted.to_multiset() == entries.to_multiset() && sorted_large(sorted) && files == sorted.take(
                kept_count(sorted.len(), max_results),
            )
}

/// The refusal for scan limits out of range, if they are.
pub open spec fn limits_refusal(max_files: usize, max_results: usize) -> Option<Seq<char>> {
    if !(1 <= max_files <= HARD_MAX_FILES) {
        Some(max_files_message())
    } else if !(1 <= max_results <= HARD_MAX_RESULTS) {
        Some(max_results_message())
    } else {
        None
    }
}

fn id_listed(files: &Vec<LargeFileEntry>, id: &String) -> (r: bool)
    ensures
        r == exists|i: int| 0 <= i < files@.len() && (#[trigger] files@[i]).id@ == id@,
{
    let target = chars_of(id.as_str());
    let mut i: usize = 0;
    while i < files.len()
        invariant
            0 <= i <= files@.len(),
            target@ == id@,
            forall|j: int| 0 <= j < i ==> (#[trigger] files@[j]).id@ != id@,
        decreases files@.len() - i,
    {
        let candidate = chars_of(files[i].id.as_str());
        if crate::apps::vec_eq(&candidate, &target) {
            return true;
        }
        i = i + 1;
    }
    false
}

/// The entry and, when the file's identity is pinned, the snapshot of a
/// found file.
fn match_found(file: FoundFile, canonical_root: &String) -> (r: (LargeFileEntry, Option<LargeFileSnapshot>))
    ensures
        entry_of_found(file, r.0),
        r.1 matches Some(s) ==> snapshot_of_found(file, *canonical_root, s),
        r.1 is None ==> pinned_identity(file.candidate.components@, file.facts) is None,
{
    let ghost f = file;
    let FoundFile { candidate, facts, name, display_path } = file;
    let (entry, snapshot) = found_large_file(&candidate, facts, name, display_path, canonical_root);
    proof {
        reveal(entry_of_found);
        reveal(snapshot_of_found);
    }
    (entry, snapshot)
}

/// The entries and snapshots of the files of `found` that are at least `min`
/// bytes large, with their number and their saturated total size.
fn collect_matches(found: Vec<FoundFile>, min: u64, canonical_root: &String) -> (r: (Vec<LargeFileEntry>, Vec<LargeFileSnapshot>, usize, u64))
    ensures
        r.2 == matched_files(found@, min).len(),
        r.3 == (if total_bytes(matched_files(found@, min)) > u64::MAX { u64::MAX as int } else { total_bytes(matched_files(found@, min)) }),
        r.0@.len() == matched_files(found@, min).len(),
        forall|k: int| 0 <= k < r.0@.len() ==> entry_of_found(#[trigger] matched_files(found@, min)[k], r.0@[k]),
        forall|j: int| 0 <= j < r.1@.len() ==> exists|k: int| 0 <= k < matched_files(found@, min).len() && snapshot_of_found(#[trigger] matched_files(found@, min)[k], *canonical_root, #[trigger] r.1@[j]),
        forall|k: int| 0 <= k < matched_files(found@, min).len() && pinned_identity((#[trigger] matched_files(found@, min)[k]).candidate.components@, matched_files(found@, min)[k].facts) is Some
            ==> exists|j: int| 0 <= j < r.1@.len() && snapshot_of_found(matched_files(found@, min)[k], *canonical_root, #[trigger] r.1@[j]),
        found_ids_distinct(matched_files(found@, min)) ==> snapshot_ids_distinct(r.1@),
{
    let ghost all = found@;
    let n = found.len();
    let ghost root = *canonical_root;
    let mut entries: Vec<LargeFileEntry> = Vec::new();
    let mut pending: Vec<LargeFileSnapshot> = Vec::new();
    let mut count: usize = 0;
    let mut bytes: u64 = 0;
    let mut rest = found;
    let ghost mut done: Seq<FoundFile> = seq![];
    let ghost mut matched: Seq<FoundFile> = seq![];
    assert(all =~= done + rest@);
    while rest.len() > 0
        invariant
            all == done + rest@,
            all.len() == n,
            root == *canonical_root,
            matched == matched_files(done, min),
            count == matched.len(),
            count <= done.len(),
            done.len() + rest@.len() == all.len(),
            bytes == (if total_bytes(matched) > u64::MAX { u64::MAX as int } else { total_bytes(matched) }),
            total_bytes(matched) >= 0,
            entries@.len() == matched.len(),
            forall|k: int| 0 <= k < entries@.len() ==> entry_of_found(#[trigger] matched[k], entries@[k]),
            forall|j: int| 0 <= j < pending@.len() ==> exists|k: int| 0 <= k < matched.len() && snapshot_of_found(#[trigger] matched[k], root, #[trigger] pending@[j]),
            forall|k: int| 0 <= k < matched.len() && pinned_identity((#[trigger] matched[k]).candidate.components@, matched[k].facts) is Some
                ==> exists|j: int| 0 <= j < pending@.len() && snapshot_of_found(matched[k], root, #[trigger] pending@[j]),
            found_ids_distinct(matched) ==> snapshot_ids_distinct(pending@),
        decreases rest@.len(),
    {
        let ghost before = rest@;
        let file = rest.remove(0);
        let ghost f = file;
        proof {
            assert(before[0] == f);
            assert(done.push(f).drop_last() =~= done);
            assert(all =~= done.push(f) + rest@);
        }
        if file.candidate.size_bytes >= min {
            let size = file.candidate.size_bytes;
            let (entry, snapshot) = match_found(file, canonical_root);
            let ghost pending_before = pending@;
            let ghost entries_before = entries@;
            entries.push(entry);
            match snapshot {
                Some(s) => {
                    pending.push(s);
                },
                None => {},
            }
            proof {
                if pending@.len() > pending_before.len() {
                    assert(pending@.drop_last() =~= pending_before);
                }
                lemma_extend_matches(matched, f, root, entries_before, entries@, pending_before, pending@);
                if found_ids_distinct(matched.push(f)) {
                    let grown = matched.push(f);
                    assert(found_ids_distinct(matched)) by {
                        assert forall|a: int, b: int| 0 <= a < b < matched.len() implies stable_id_spec("large"@, (#[trigger] matched[a]).candidate.path@)
                            != stable_id_spec("large"@, (#[trigger] matched[b]).candidate.path@) by {
                            assert(grown[a] == matched[a] && grown[b] == matched[b]);
                        }
                    }
                    if pending@.len() > pending_before.len() {
                        let last = pending@.len() - 1;
                        lemma_snapshot_not_protected(f, root, pending@[last]);
                        assert forall|a: int, b: int| 0 <= a < b < pending@.len() implies (#[trigger] pending@[a]).entry.id@ != (#[trigger] pending@[b]).entry.id@ by {
                            assert(pending@[a] == pending_before[a]);
                            if b < last {
                                assert(pending@[b] == pending_before[b]);
                            } else {
                                let k = choose|k: int| 0 <= k < matched.len() && snapshot_of_found(#[trigger] matched[k], root, pending_before[a]);
                                lemma_snapshot_not_protected(matched[k], root, pending_before[a]);
                                assert(grown[k] == matched[k]);
                                assert(grown[matched.len() as int] == f);
                            }
                        }
                    }
                }
                assert(matched_files(done.push(f), min) == matched.push(f));
                assert(matched.push(f).drop_last() =~= matched);
                assert(total_bytes(matched.push(f)) == total_bytes(matched) + f.candidate.size_bytes);
                matched = matched.push(f);
            }
            count = count + 1;
            bytes = bytes.saturating_add(size);
        } else {
            assert(matched_files(done.push(f), min) == matched);
        }
        proof {
            done = done.push(f);
        }
    }
    assert(done =~= all);
    (entries, pending, count, bytes)
}

proof fn lemma_extend_matches(
    old_matched: Seq<FoundFile>,
    f: FoundFile,
    root: String,
    entries_before: Seq<LargeFileEntry>,
    entries: Seq<LargeFileEntry>,
    pending_before: Seq<LargeFileSnapshot>,
    pending: Seq<LargeFileSnapshot>,
)
    requires
        entries_before.len() == old_matched.len(),
        forall|k: int| 0 <= k < entries_before.len() ==> entry_of_found(#[trigger] old_matched[k], entries_before[k]),
        forall|j: int| 0 <= j < pending_before.len() ==> exists|k: int| 0 <= k < old_matched.len() && snapshot_of_found(#[trigger] old_matched[k], root, #[trigger] pending_before[j]),
        forall|k: int| 0 <= k < old_matched.len() && pinned_identity((#[trigger] old_matched[k]).candidate.components@, old_matched[k].facts) is Some
            ==> exists|j: int| 0 <= j < pending_before.len() && snapshot_of_found(old_matched[k], root, #[trigger] pending_before[j]),
        entries.len() == entries_before.len() + 1,
        forall|k: int| 0 <= k < entries_before.len() ==> entries[k] == entries_before[k],
        entry_of_found(f, entries[entries_before.len() as int]),
        pending == pending_before || (pending.len() == pending_before.len() + 1 && pending.drop_last() == pending_before
            && snapshot_of_found(f, root, pending.last())),
        pending == pending_before ==> pinned_identity(f.candidate.components@, f.facts) is None,
    ensures
        entries.len() == old_matched.push(f).len(),
        forall|k: int| 0 <= k < entries.len() ==> entry_of_found(#[trigger] old_matched.push(f)[k], entries[k]),
        forall|j: int| 0 <= j < pending.len() ==> exists|k: int| 0 <= k < old_matched.push(f).len() && snapshot_of_found(#[trigger] old_matched.push(f)[k], root, #[trigger] pending[j]),
        forall|k: int| 0 <= k < old_matched.push(f).len() && pinned_identity((#[trigger] old_matched.push(f)[k]).candidate.components@, old_matched.push(f)[k].facts) is Some
            ==> exists|j: int| 0 <= j < pending.len() && snapshot_of_found(old_matched.push(f)[k], root, #[trigger] pending[j]),
{
    let new_matched = old_matched.push(f);
    assert forall|k: int| 0 <= k < entries.len() implies entry_of_found(#[trigger] new_matched[k], entries[k]) by {
        if k < old_matched.len() {
            assert(new_matched[k] == old_matched[k]);
            assert(entries[k] == entries_before[k]);
        }
    }
    assert forall|j: int| 0 <= j < pending.len() implies exists|k: int| 0 <= k < new_matched.len() && snapshot_of_found(#[trigger] new_matched[k], root, #[trigger] pending[j]) by {
        if j < pending_before.len() {
            assert(pending[j] == pending_before[j]);
            let k = choose|k: int| 0 <= k < old_matched.len() && snapshot_of_found(#[trigger] old_matched[k], root, pending_before[j]);
            assert(new_matched[k] == old_matched[k]);
        } else {
            assert(new_matched[old_matched.len() as int] == f);
        }
    }
    assert forall|k: int| 0 <= k < new_matched.len() && pinned_identity((#[trigger] new_matched[k]).candidate.components@, new_matched[k].facts) is Some
        implies exists|j: int| 0 <= j < pending.len() && snapshot_of_found(new_matched[k], root, #[trigger] pending[j]) by {
        if k < old_matched.len() {
            assert(new_matched[k] == old_matched[k]);
            let j = choose|j: int| 0 <= j < pending_before.len() && snapshot_of_found(old_matched[k], root, #[trigger] pending_before[j]);
            assert(pending[j] == pending_before[j]);
        } else {
            assert(new_matched[k] == f);
            assert(pending[pending.len() - 1] == pending.last());
        }
    }
}

/// Whether the found files' large-file identifiers are pairwise distinct.
pub open spec fn found_ids_distinct(matched: Seq<FoundFile>) -> bool {
    forall|a: int, b: int| 0 <= a < b < matched.len() ==> stable_id_spec("large"@, (#[trigger] matched[a]).candidate.path@)
        != stable_id_spec("large"@, (#[trigger] matched[b]).candidate.path@)
}

/// Whether no two snapshots share an identifier.
pub open spec fn snapshot_ids_distinct(snapshots: Seq<LargeFileSnapshot>) -> bool {
    forall|a: int, b: int| 0 <= a < b < snapshots.len() ==> (#[trigger] snapshots[a]).entry.id@ != (#[trigger] snapshots[b]).entry.id@
}

/// Whether two entries show the same file the same way, field by field.
pub open spec fn same_entry(a: LargeFileEntry, b: LargeFileEntry) -> bool {
    &&& a.id@ == b.id@
    &&& a.name == b.name
    &&& a.path == b.path
    &&& a.size_bytes == b.size_bytes
    &&& a.allocated_bytes == b.allocated_bytes
    &&& a.modified_at@ == b.modified_at@
    &&& a.file_type@ == b.file_type@
    &&& a.sensitivity == b.sensitivity
    &&& match (a.note, b.note) {
        (Some(x), Some(y)) => x@ == y@,
        (None, None) => true,
        _ => false,
    }
}

proof fn lemma_same_found_same_entry(f: FoundFile, a: LargeFileEntry, b: LargeFileEntry)
    requires
        entry_of_found(f, a),
        entry_of_found(f, b),
    ensures
        same_entry(a, b),
{
    reveal(entry_of_found);
}

proof fn lemma_kept_entry_found(matched: Seq<FoundFile>, max_results: usize, files: Seq<LargeFileEntry>, i: int)
    requires
        largest_entries(matched, max_results, files),
        0 <= i < files.len(),
    ensures
        exists|k: int| 0 <= k < matched.len() && entry_of_found(#[trigger] matched[k], files[i]),
{
    broadcast use vstd::multiset::group_multiset_axioms;
    let entries = choose|entries: Seq<LargeFileEntry>|
        #![trigger entries.to_multiset()]
        entries.len() == matched.len() && (forall|k: int| 0 <= k < matched.len() ==> entry_of_found(#[trigger] matched[k], entries[k]))
            && exists|sorted: Seq<LargeFileEntry>|
            #![trigger sorted.to_multiset()]
            sorted.to_multiset() == entries.to_multiset() && sorted_large(sorted) && files == sorted.take(
                kept_count(sorted.len(), max_results),
            );
    let sorted = choose|sorted: Seq<LargeFileEntry>|
        #![trigger sorted.to_multiset()]
        sorted.to_multiset() == entries.to_multiset() && sorted_large(sorted) && files == sorted.take(
            kept_count(sorted.len(), max_results),
        );
    assert(files[i] == sorted[i]);
    assert(sorted.contains(files[i]));
    vstd::seq_lib::to_multiset_contains(sorted, files[i]);
    vstd::seq_lib::to_multiset_contains(entries, files[i]);
    let k = choose|k: int| 0 <= k < entries.len() && entries[k] == files[i];
    assert(entry_of_found(matched[k], entries[k]));
}

proof fn lemma_snapshots_match_kept(matched: Seq<FoundFile>, root: String, snapshots: Seq<LargeFileSnapshot>, files: Seq<LargeFileEntry>, max_results: usize)
    requires
        found_ids_distinct(matched),
        largest_entries(matched, max_results, files),
        forall|j: int| 0 <= j < snapshots.len() ==> exists|k: int| 0 <= k < matched.len() && snapshot_of_found(#[trigger] matched[k], root, #[trigger] snapshots[j]),
        forall|j: int| 0 <= j < snapshots.len() ==> exists|i: int| 0 <= i < files.len() && (#[trigger] files[i]).id@ == (#[trigger] snapshots[j]).entry.id@,
    ensures
        forall|j: int| 0 <= j < snapshots.len() ==> exists|i: int| 0 <= i < files.len() && same_entry(#[trigger] files[i], #[trigger] snapshots[j].entry),
{
    assert forall|j: int| 0 <= j < snapshots.len()
        implies exists|i: int| 0 <= i < files.len() && same_entry(#[trigger] files[i], #[trigger] snapshots[j].entry) by {
        let k = choose|k: int| 0 <= k < matched.len() && snapshot_of_found(#[trigger] matched[k], root, snapshots[j]);
        let i = choose|i: int| 0 <= i < files.len() && (#[trigger] files[i]).id@ == snapshots[j].entry.id@;
        lemma_kept_entry_found(matched, max_results, files, i);
        let k2 = choose|k2: int| 0 <= k2 < matched.len() && entry_of_found(#[trigger] matched[k2], files[i]);
        lemma_snapshot_not_protected(matched[k], root, snapshots[j]);
        reveal(entry_of_found);
        reveal(snapshot_of_found);
        if k != k2 {
            if k < k2 {
                assert(stable_id_spec("large"@, matched[k].candidate.path@) != stable_id_spec("large"@, matched[k2].candidate.path@));
            } else {
                assert(stable_id_spec("large"@, matched[k2].candidate.path@) != stable_id_spec("large"@, matched[k].candidate.path@));
            }
        }
        lemma_same_found_same_entry(matched[k], files[i], snapshots[j].entry);
    }
}

proof fn lemma_snapshot_not_protected(f: FoundFile, root: String, s: LargeFileSnapshot)
    requires
        snapshot_of_found(f, root, s),
    ensures
        s.entry.sensitivity != Sensitivity::Protected,
        s.entry.id@ == stable_id_spec("large"@, f.candidate.path@),
{
    reveal(snapshot_of_found);
    reveal(entry_of_found);
}

proof fn lemma_listed_distinct(pending: Seq<LargeFileSnapshot>, files: Seq<LargeFileEntry>)
    requires
        snapshot_ids_distinct(pending),
    ensures
        snapshot_ids_distinct(listed(pending, files)),
    decreases pending.len(),
{
    if pending.len() > 0 {
        let init = pending.drop_last();
        assert(snapshot_ids_distinct(init)) by {
            assert forall|a: int, b: int| 0 <= a < b < init.len() implies (#[trigger] init[a]).entry.id@ != (#[trigger] init[b]).entry.id@ by {
                assert(init[a] == pending[a] && init[b] == pending[b]);
            }
        }
        lemma_listed_distinct(init, files);
        lemma_listed(init, files);
        let rest = listed(init, files);
        let out = listed(pending, files);
        assert forall|a: int, b: int| 0 <= a < b < out.len() implies (#[trigger] out[a]).entry.id@ != (#[trigger] out[b]).entry.id@ by {
            if b < rest.len() {
                assert(out[a] == rest[a] && out[b] == rest[b]);
            } else {
                assert(out[a] == rest[a]);
                assert(out[b] == pending.last());
                let q = choose|q: int| 0 <= q < init.len() && #[trigger] rest[a] == #[trigger] init[q];
                assert(init[q] == pending[q]);
                assert(pending[q].entry.id@ != pending[pending.len() - 1].entry.id@);
            }
        }
    }
}

/// Whether one of the files has this identifier.
pub open spec fn id_in(files: Seq<LargeFileEntry>, id: Seq<char>) -> bool {
    exists|i: int| 0 <= i < files.len() && (#[trigger] files[i]).id@ == id
}

/// The snapshots whose entry's identifier is one of the files', in order.
pub open spec fn listed(pending: Seq<LargeFileSnapshot>, files: Seq<LargeFileEntry>) -> Seq<LargeFileSnapshot>
    decreases pending.len(),
{
    if pending.len() == 0 {
        seq![]
    } else {
        let rest = listed(pending.drop_last(), files);
        if id_in(files, pending.last().entry.id@) {
            rest.push(pending.last())
        } else {
            rest
        }
    }
}

proof fn lemma_listed(pending: Seq<LargeFileSnapshot>, files: Seq<LargeFileEntry>)
    ensures
        forall|j: int| 0 <= j < listed(pending, files).len() ==> exists|q: int| 0 <= q < pending.len() && #[trigger] listed(pending, files)[j] == #[trigger] pending[q],
        forall|j: int| 0 <= j < listed(pending, files).len() ==> id_in(files, (#[trigger] listed(pending, files)[j]).entry.id@),
        forall|q: int| 0 <= q < pending.len() && id_in(files, (#[trigger] pending[q]).entry.id@)
            ==> exists|j: int| 0 <= j < listed(pending, files).len() && listed(pending, files)[j] == #[trigger] pending[q],
    decreases pending.len(),
{
    if pending.len() > 0 {
        let init = pending.drop_last();
        lemma_listed(init, files);
        let rest = listed(init, files);
        let out = listed(pending, files);
        assert forall|j: int| 0 <= j < out.len() implies exists|q: int| 0 <= q < pending.len() && #[trigger] out[j] == #[trigger] pending[q] by {
            if j < rest.len() {
                assert(out[j] == rest[j]);
                let q = choose|q: int| 0 <= q < init.len() && #[trigger] rest[j] == #[trigger] init[q];
                assert(pending[q] == init[q]);
            } else {
                assert(out[j] == pending[pending.len() - 1]);
            }
        }
        assert forall|j: int| 0 <= j < out.len() implies id_in(files, (#[trigger] out[j]).entry.id@) by {
            if j < rest.len() {
                assert(out[j] == rest[j]);
            }
        }
        assert forall|q: int| 0 <= q < pending.len() && id_in(files, (#[trigger] pending[q]).entry.id@)
            implies exists|j: int| 0 <= j < out.len() && out[j] == #[trigger] pending[q] by {
            if q < init.len() {
                assert(pending[q] == init[q]);
                let j = choose|j: int| 0 <= j < rest.len() && rest[j] == #[trigger] init[q];
                assert(out[j] == rest[j]);
            } else {
                assert(out[rest.len() as int] == pending[q]);
            }
        }
    }
}

/// The snapshots of `pending` whose entry's identifier is one of the kept
/// files', in order.
fn keep_listed(pending: Vec<LargeFileSnapshot>, files: &Vec<LargeFileEntry>) -> (snapshots: Vec<LargeFileSnapshot>)
    ensures
        snapshots@ == listed(pending@, files@),
{
    let ghost all = pending@;
    let mut snapshots: Vec<LargeFileSnapshot> = Vec::new();
    let mut rest = pending;
    let ghost mut done: Seq<LargeFileSnapshot> = seq![];
    assert(all =~= done + rest@);
    while rest.len() > 0
        invariant
            all == done + rest@,
            snapshots@ == listed(done, files@),
        decreases rest@.len(),
    {
        let ghost before = rest@;
        let snapshot = rest.remove(0);
        proof {
            assert(before[0] == snapshot);
            assert(done.push(snapshot).drop_last() =~= done);
            assert(all =~= done.push(snapshot) + rest@);
        }
        if id_listed(files, &snapshot.entry.id) {
            snapshots.push(snapshot);
        }
        proof {
            done = done.push(snapshot);
        }
    }
    assert(done =~= all);
    snapshots
}

#[verifier::spinoff_prover]
proof fn lemma_snapshots_sound(matched: Seq<FoundFile>, root: String, pending: Seq<LargeFileSnapshot>, files: Seq<LargeFileEntry>)
    requires
        forall|j: int| 0 <= j < pending.len() ==> exists|k: int| 0 <= k < matched.len() && snapshot_of_found(#[trigger] matched[k], root, #[trigger] pending[j]),
        forall|k: int| 0 <= k < matched.len() && pinned_identity((#[trigger] matched[k]).candidate.components@, matched[k].facts) is Some
            ==> exists|j: int| 0 <= j < pending.len() && snapshot_of_found(matched[k], root, #[trigger] pending[j]),
        forall|j: int| 0 <= j < listed(pending, files).len() ==> exists|q: int| 0 <= q < pending.len() && #[trigger] listed(pending, files)[j] == #[trigger] pending[q],
        forall|j: int| 0 <= j < listed(pending, files).len() ==> id_in(files, (#[trigger] listed(pending, files)[j]).entry.id@),
        forall|q: int| 0 <= q < pending.len() && id_in(files, (#[trigger] pending[q]).entry.id@)
            ==> exists|j: int| 0 <= j < listed(pending, files).len() && listed(pending, files)[j] == #[trigger] pending[q],
    ensures
        forall|j: int| 0 <= j < listed(pending, files).len() ==> exists|k: int| 0 <= k < matched.len() && snapshot_of_found(#[trigger] matched[k], root, #[trigger] listed(pending, files)[j]),
        forall|j: int| 0 <= j < listed(pending, files).len() ==> exists|i: int| 0 <= i < files.len() && (#[trigger] files[i]).id@ == (#[trigger] listed(pending, files)[j]).entry.id@,
        forall|k: int, i: int|
            0 <= k < matched.len() && 0 <= i < files.len() && pinned_identity(
                (#[trigger] matched[k]).candidate.components@,
                matched[k].facts,
            ) is Some && (#[trigger] files[i]).id@ == stable_id_spec("large"@, matched[k].candidate.path@)
                ==> exists|j: int| 0 <= j < listed(pending, files).len() && snapshot_of_found(matched[k], root, #[trigger] listed(pending, files)[j]),
{
    let out = listed(pending, files);
    assert forall|j: int| 0 <= j < out.len() implies exists|k: int| 0 <= k < matched.len() && snapshot_of_found(#[trigger] matched[k], root, #[trigger] out[j]) by {
        let q = choose|q: int| 0 <= q < pending.len() && #[trigger] out[j] == #[trigger] pending[q];
        let k = choose|k: int| 0 <= k < matched.len() && snapshot_of_found(#[trigger] matched[k], root, pending[q]);
    }
    assert forall|j: int| 0 <= j < out.len() implies exists|i: int| 0 <= i < files.len() && (#[trigger] files[i]).id@ == (#[trigger] out[j]).entry.id@ by {
        assert(id_in(files, out[j].entry.id@));
    }
    assert forall|k: int, i: int|
        0 <= k < matched.len() && 0 <= i < files.len() && pinned_identity(
            (#[trigger] matched[k]).candidate.components@,
            matched[k].facts,
        ) is Some && (#[trigger] files[i]).id@ == stable_id_spec("large"@, matched[k].candidate.path@)
            implies exists|j: int| 0 <= j < out.len() && snapshot_of_found(matched[k], root, #[trigger] out[j]) by {
        let q = choose|q: int| 0 <= q < pending.len() && snapshot_of_found(matched[k], root, #[trigger] pending[q]);
        reveal(snapshot_of_found);
        reveal(entry_of_found);
        assert(files[i].id@ == pending[q].entry.id@);
        assert(id_in(files, pending[q].entry.id@));
        let j = choose|j: int| 0 <= j < out.len() && out[j] == #[trigger] pending[q];
    }
}

/// The largest regular files found below a scan root, largest first, at most
/// `max_results` of them, with the snapshots that allow deleting the kept
/// files whose identity is pinned. The scan limits are checked first.
pub fn scan_large_files_with_snapshots(
    display_root: String,
    canonical_root: &String,
    options: &LargeFileScanOptions,
    found: Vec<FoundFile>,
    stats: ScanStats,
) -> (r: Result<(LargeFileScanResult, Vec<LargeFileSnapshot>), String>)
    ensures
        match r {
            Err(message) => limits_refusal(options.max_files, options.max_results) == Some(message@),
            Ok((result, snapshots)) => {
                let matched = matched_files(found@, options.min_size_bytes);
                &&& limits_refusal(options.max_files, options.max_results) is None
                &&& result.root == display_root
                &&& result.total_matched_bytes == (if total_bytes(matched) > u64::MAX { u64::MAX as int } else { total_bytes(matched) })
                &&& result.stats.visited_entries == stats.visited_entries
                &&& result.stats.scanned_files == stats.scanned_files
                &&& result.stats.skipped == stats.skipped
                &&& result.stats.deduplicated_hard_links == stats.deduplicated_hard_links
                &&& result.stats.cancelled == stats.cancelled
                &&& result.stats.limit_reached == (stats.limit_reached || matched.len() > options.max_results)
                &&& largest_entries(matched, options.max_results, result.files@)
                &&& forall|j: int| 0 <= j < snapshots@.len() ==> exists|k: int| 0 <= k < matched.len() && snapshot_of_found(#[trigger] matched[k], *canonical_root, #[trigger] snapshots@[j])
                &&& forall|j: int| 0 <= j < snapshots@.len() ==> exists|i: int| 0 <= i < result.files@.len() && (#[trigger] result.files@[i]).id@ == (#[trigger] snapshots@[j]).entry.id@
                &&& forall|k: int, i: int|
                    0 <= k < matched.len() && 0 <= i < result.files@.len() && pinned_identity(
                        (#[trigger] matched[k]).candidate.components@,
                        matched[k].facts,
                    ) is Some && (#[trigger] result.files@[i]).id@ == stable_id_spec("large"@, matched[k].candidate.path@)
                        ==> exists|j: int| 0 <= j < snapshots@.len() && snapshot_of_found(matched[k], *canonical_root, #[trigger] snapshots@[j])
                &&& forall|j: int| 0 <= j < snapshots@.len() ==> (#[trigger] snapshots@[j]).entry.sensitivity != Sensitivity::Protected
                &&& found_ids_distinct(matched) ==> snapshot_ids_distinct(snapshots@)
                &&& found_ids_distinct(matched) ==> forall|j: int| 0 <= j < snapshots@.len()
                    ==> exists|i: int| 0 <= i < result.files@.len() && same_entry(#[trigger] result.files@[i], #[trigger] snapshots@[j].entry)
            },
        },
{
    match validate_limits(options.max_files, options.max_results) {
        Err(message) => return Err(message),
        Ok(()) => {},
    }
    let ghost matched = matched_files(found@, options.min_size_bytes);
    let ghost root = *canonical_root;
    let (entries, pending, count, bytes) = collect_matches(found, options.min_size_bytes, canonical_root);
    let ghost all_entries = entries@;
    let files = retain_largest(entries, options.max_results);
    let snapshots = keep_listed(pending, &files);
    let mut result_stats = stats;
    if count > options.max_results {
        result_stats.limit_reached = true;
    }
    proof {
        let sorted = choose|sorted: Seq<LargeFileEntry>|
            sorted.to_multiset() == all_entries.to_multiset() && sorted_large(sorted) && files@ == sorted.take(
                if sorted.len() > options.max_results { options.max_results as int } else { sorted.len() as int },
            );
        assert(sorted.to_multiset() == all_entries.to_multiset() && sorted_large(sorted) && files@ == sorted.take(
            kept_count(sorted.len(), options.max_results),
        ));
        assert(largest_entries(matched, options.max_results, files@));
        lemma_listed(pending@, files@);
        lemma_snapshots_sound(matched, root, pending@, files@);
        if found_ids_distinct(matched) {
            lemma_listed_distinct(pending@, files@);
            lemma_snapshots_match_kept(matched, root, snapshots@, files@, options.max_results);
        }
        assert forall|j: int| 0 <= j < snapshots@.len() implies (#[trigger] snapshots@[j]).entry.sensitivity != Sensitivity::Protected by {
            let k = choose|k: int| 0 <= k < matched.len() && snapshot_of_found(#[trigger] matched[k], root, snapshots@[j]);
            lemma_snapshot_not_protected(matched[k], root, snapshots@[j]);
        }
    }
    Ok((
        LargeFileScanResult { root: display_root, files, total_matched_bytes: bytes, stats: result_stats },
        snapshots,
    ))
}

/// The largest regular files found below a scan root, without snapshots.
pub fn scan_large_files(
    display_root: String,
    canonical_root: &String,
    options: &LargeFileScanOptions,
    found: Vec<FoundFile>,
    stats: ScanStats,
) -> (r: Result<LargeFileScanResult, String>)
    ensures
        match r {
            Err(message) => limits_refusal(options.max_files, options.max_results) == Some(message@),
            Ok(result) => {
                let matched = matched_files(found@, options.min_size_bytes);
                &&& limits_refusal(options.max_files, options.max_results) is None
                &&& result.root == display_root
                &&& result.total_matched_bytes == (if total_bytes(matched) > u64::MAX { u64::MAX as int } else { total_bytes(matched) })
                &&& result.stats.limit_reached == (stats.limit_reached || matched.len() > options.max_results)
                &&& result.stats.cancelled == stats.cancelled
                &&& largest_entries(matched, options.max_results, result.files@)
            },
        },
{
    match scan_large_files_with_snapshots(display_root, canonical_root, options, found, stats) {
        Ok((result, _)) => Ok(result),
        Err(message) => Err(message),
    }
}

/// The rule version that large-file deletions are recorded under.
pub const LARGE_FILE_RULE_VERSION: &'static str = "large-file-snapshot-v1";

/// The most items one large-file deletion may name.
pub const MAX_LARGE_FILE_DELETE_ITEMS: usize = 2000;

/// Why a large-file deletion request is refused before any file is looked
/// at, if it is.
pub open spec fn delete_request_refusal(request: LargeFileDeleteRequest, policy: CapabilityPolicy) -> Option<Seq<char>> {
    if policy.build_channel == BuildChannel::ProductionRelease {
        Some(denial_message(DangerousWriteCapability::PermanentOriginalFileDelete))
    } else if !request.confirmed_permanent {
        Some("必须明确确认永久删除大文件"@)
    } else if request.item_ids@.len() == 0 || request.item_ids@.len() > MAX_LARGE_FILE_DELETE_ITEMS {
        Some("大文件清理计划必须包含 1 到 2000 个条目"@)
    } else {
        None
    }
}

/// Checks a large-file deletion request: the policy must allow permanent
/// deletion, the user must have confirmed it, and it must name between one
/// and 2000 items.
pub fn check_delete_request(request: &LargeFileDeleteRequest, policy: CapabilityPolicy) -> (r: Result<(), String>)
    ensures
        match delete_request_refusal(*request, policy) {
            Some(message) => r matches Err(m) && m@ == message,
            None => r is Ok,
        },
{
    match policy.require(DangerousWriteCapability::PermanentOriginalFileDelete) {
        Err(message) => return Err(message),
        Ok(()) => {},
    }
    if !request.confirmed_permanent {
        return Err("必须明确确认永久删除大文件".to_string());
    }
    if request.item_ids.len() == 0 || request.item_ids.len() > MAX_LARGE_FILE_DELETE_ITEMS {
        return Err("大文件清理计划必须包含 1 到 2000 个条目".to_string());
    }
    Ok(())
}

/// The index of the first snapshot with this identifier.
pub open spec fn first_with_id(known: Seq<LargeFileSnapshot>, id: Seq<char>, k: int) -> bool {
    0 <= k < known.len() && known[k].entry.id@ == id && forall|j: int| 0 <= j < k ==> (#[trigger] known[j]).entry.id@ != id
}

/// Takes the snapshot of a requested item out of the snapshots of the last
/// scan: an item already requested earlier is a repeat, and an item that the
/// last scan did not snapshot (or that was already taken) is unknown. A
/// snapshot taken out can never be taken again.
pub fn take_for_deletion(id: &String, earlier: &Vec<String>, known: &mut Vec<LargeFileSnapshot>) -> (r: Result<LargeFileSnapshot, String>)
    ensures
        (exists|j: int| 0 <= j < earlier@.len() && (#[trigger] earlier@[j])@ == id@) ==> (r matches Err(m) && m@ == "大文件清理计划包含重复条目"@ && final(known)@ == old(known)@),
        !(exists|j: int| 0 <= j < earlier@.len() && (#[trigger] earlier@[j])@ == id@) ==> match r {
            Ok(snapshot) => exists|k: int| first_with_id(old(known)@, id@, k) && snapshot == old(known)@[k] && final(known)@ == old(known)@.remove(k),
            Err(m) => m@ == "条目不属于最近一次大文件扫描、受保护或计划已执行"@ && final(known)@ == old(known)@
                && forall|k: int| 0 <= k < old(known)@.len() ==> (#[trigger] old(known)@[k]).entry.id@ != id@,
        },
{
    let target = chars_of(id.as_str());
    let mut j: usize = 0;
    while j < earlier.len()
        invariant
            0 <= j <= earlier@.len(),
            target@ == id@,
            forall|q: int| 0 <= q < j ==> (#[trigger] earlier@[q])@ != id@,
        decreases earlier@.len() - j,
    {
        if crate::apps::vec_eq(&chars_of(earlier[j].as_str()), &target) {
            return Err("大文件清理计划包含重复条目".to_string());
        }
        j = j + 1;
    }
    let mut k: usize = 0;
    while k < known.len()
        invariant
            0 <= k <= known@.len(),
            target@ == id@,
            known@ == old(known)@,
            forall|q: int| 0 <= q < earlier@.len() ==> (#[trigger] earlier@[q])@ != id@,
            forall|q: int| 0 <= q < k ==> (#[trigger] known@[q]).entry.id@ != id@,
        decreases known@.len() - k,
    {
        if crate::apps::vec_eq(&chars_of(known[k].entry.id.as_str()), &target) {
            let snapshot = known.remove(k);
            return Ok(snapshot);
        }
        k = k + 1;
    }
    Err("条目不属于最近一次大文件扫描、受保护或计划已执行".to_string())
}

/// Records an item that was not deleted: in the result with its error and
/// path, and in the audit record as a failure (`failed` when the item never
/// reached deletion) or as a skip (when deletion refused it).
pub fn record_large_file_failure(
    result: &mut LargeFileDeleteResult,
    record: &mut OperationRecord,
    id: &String,
    error: &String,
    path: Option<String>,
    reached_deletion: bool,
)
    ensures
        final(result).deleted_bytes == old(result).deleted_bytes,
        final(result).succeeded_ids@ == old(result).succeeded_ids@,
        final(result).failed@ == old(result).failed@.push(ItemFailure { id: *id, error: *error, path: path }),
        final(record).succeeded@ == old(record).succeeded@,
        final(record).reclaimed_bytes == old(record).reclaimed_bytes,
        final(record).status == old(record).status,
        reached_deletion ==> final(record).failed@ == old(record).failed@
            && final(record).skipped@ == old(record).skipped@.push(OperationDetail { item_id: *id, path: path, bytes: 0, detail: *error }),
        !reached_deletion ==> final(record).skipped@ == old(record).skipped@
            && final(record).failed@ == old(record).failed@.push(OperationDetail { item_id: *id, path: path, bytes: 0, detail: *error }),
{
    let detail_path = crate::models::copy_optional_text(&path);
    result.failed.push(ItemFailure { id: id.clone(), error: error.clone(), path });
    let detail = OperationDetail { item_id: id.clone(), path: detail_path, bytes: 0, detail: error.clone() };
    if reached_deletion {
        record.skipped.push(detail);
    } else {
        record.failed.push(detail);
    }
}

/// Records a deleted item: its bytes are added (saturating) to the result,
/// its identifier to the succeeded ones, and a success to the audit record.
pub fn record_large_file_deleted(
    result: &mut LargeFileDeleteResult,
    record: &mut OperationRecord,
    id: &String,
    path: &String,
    bytes: u64,
)
    ensures
        final(result).deleted_bytes == crate::cleanup_plan::executor::saturating_u64_add(old(result).deleted_bytes, bytes),
        final(result).succeeded_ids@ == old(result).succeeded_ids@.push(*id),
        final(result).failed@ == old(result).failed@,
        final(record).failed@ == old(record).failed@,
        final(record).skipped@ == old(record).skipped@,
        final(record).status == old(record).status,
        final(record).reclaimed_bytes == old(record).reclaimed_bytes,
        final(record).succeeded@.len() == old(record).succeeded@.len() + 1,
        final(record).succeeded@.drop_last() == old(record).succeeded@,
        final(record).succeeded@.last().item_id == *id,
        final(record).succeeded@.last().path == Some(*path),
        final(record).succeeded@.last().bytes == bytes,
        final(record).succeeded@.last().detail@ == "已按最近一次大文件扫描快照复检并永久删除"@,
{
    result.deleted_bytes = result.deleted_bytes.saturating_add(bytes);
    result.succeeded_ids.push(id.clone());
    record.succeeded.push(OperationDetail {
        item_id: id.clone(),
        path: Some(path.clone()),
        bytes,
        detail: "已按最近一次大文件扫描快照复检并永久删除".to_string(),
    });
    assert(record.succeeded@.drop_last() =~= old(record).succeeded@);
}


/// An item that was not deleted, as plain values: its identifier, the error
/// and the path when it has one.
pub open spec fn failure_view(f: ItemFailure) -> (Seq<char>, Seq<char>, Option<Seq<char>>) {
    (f.id@, f.error@, match f.path {
        Some(p) => Some(p@),
        None => None,
    })
}

pub open spec fn failure_views(failed: Seq<ItemFailure>) -> Seq<(Seq<char>, Seq<char>, Option<Seq<char>>)> {
    failed.map_values(|f: ItemFailure| failure_view(f))
}

pub open spec fn id_views(ids: Seq<String>) -> Seq<Seq<char>> {
    ids.map_values(|s: String| s@)
}

pub open spec fn queued_views(queued: Seq<(String, LargeFileSnapshot)>) -> Seq<(Seq<char>, LargeFileSnapshot)> {
    queued.map_values(|q: (String, LargeFileSnapshot)| (q.0@, q.1))
}

/// An audit entry as plain values: item, path, bytes and detail.
pub open spec fn detail_view(d: OperationDetail) -> (Seq<char>, Option<Seq<char>>, u64, Seq<char>) {
    (d.item_id@, match d.path {
        Some(p) => Some(p@),
        None => None,
    }, d.bytes, d.detail@)
}

pub open spec fn detail_views(details: Seq<OperationDetail>) -> Seq<(Seq<char>, Option<Seq<char>>, u64, Seq<char>)> {
    details.map_values(|d: OperationDetail| detail_view(d))
}

/// The audit entries of items refused before deletion: each names the item,
/// no path, no bytes, and the refusal.
pub open spec fn refusal_details(failures: Seq<(Seq<char>, Seq<char>, Option<Seq<char>>)>) -> Seq<(Seq<char>, Option<Seq<char>>, u64, Seq<char>)> {
    failures.map_values(|f: (Seq<char>, Seq<char>, Option<Seq<char>>)| (f.0, f.2, 0u64, f.1))
}

/// How the requested identifiers are settled against the snapshots of the
/// latest scan, in request order: the items queued for deletion with their
/// snapshots, the items refused at once, and the snapshots left. A repeated
/// identifier is refused as a repeat; one that names no remaining snapshot
/// is refused as unknown; otherwise the first snapshot with that identifier
/// is taken out.
pub open spec fn settle_requests(ids: Seq<Seq<char>>, known: Seq<LargeFileSnapshot>)
    -> (Seq<(Seq<char>, LargeFileSnapshot)>, Seq<(Seq<char>, Seq<char>, Option<Seq<char>>)>, Seq<LargeFileSnapshot>)
    decreases ids.len(),
{
    if ids.len() == 0 {
        (seq![], seq![], known)
    } else {
        let prev = settle_requests(ids.drop_last(), known);
        let id = ids.last();
        if ids.drop_last().contains(id) {
            (prev.0, prev.1.push((id, "大文件清理计划包含重复条目"@, None)), prev.2)
        } else if exists|k: int| first_with_id(prev.2, id, k) {
            let k = choose|k: int| first_with_id(prev.2, id, k);
            (prev.0.push((id, prev.2[k])), prev.1, prev.2.remove(k))
        } else {
            (prev.0, prev.1.push((id, "条目不属于最近一次大文件扫描、受保护或计划已执行"@, None)), prev.2)
        }
    }
}

proof fn lemma_first_with_id_unique(known: Seq<LargeFileSnapshot>, id: Seq<char>, a: int, b: int)
    requires
        first_with_id(known, id, a),
        first_with_id(known, id, b),
    ensures
        a == b,
{
    if a < b {
        assert(known[a].entry.id@ != id);
    } else if b < a {
        assert(known[b].entry.id@ != id);
    }
}

/// Takes the snapshots of the requested items out of those of the latest
/// scan. Every requested identifier is either queued for deletion or
/// refused, in request order, and refusals are recorded in the audit record
/// as failures.
pub fn take_requested(
    request: &LargeFileDeleteRequest,
    known: &mut Vec<LargeFileSnapshot>,
    record: &mut OperationRecord,
) -> (r: (Vec<(String, LargeFileSnapshot)>, LargeFileDeleteResult))
    ensures
        queued_views(r.0@) == settle_requests(id_views(request.item_ids@), old(known)@).0,
        failure_views(r.1.failed@) == settle_requests(id_views(request.item_ids@), old(known)@).1,
        final(known)@ == settle_requests(id_views(request.item_ids@), old(known)@).2,
        r.0@.len() + r.1.failed@.len() == request.item_ids@.len(),
        r.1.deleted_bytes == 0,
        r.1.succeeded_ids@.len() == 0,
        detail_views(final(record).failed@) == detail_views(old(record).failed@)
            + refusal_details(settle_requests(id_views(request.item_ids@), old(known)@).1),
        final(record).succeeded@ == old(record).succeeded@,
        final(record).skipped@ == old(record).skipped@,
        final(record).status == old(record).status,
        final(record).reclaimed_bytes == old(record).reclaimed_bytes,
{
    let ghost ids = id_views(request.item_ids@);
    let mut result = LargeFileDeleteResult { deleted_bytes: 0, succeeded_ids: Vec::new(), failed: Vec::new() };
    let mut queued: Vec<(String, LargeFileSnapshot)> = Vec::new();
    let mut earlier: Vec<String> = Vec::new();
    let mut i: usize = 0;
    assert(queued_views(queued@) =~= seq![]);
    assert(failure_views(result.failed@) =~= seq![]);
    assert(ids.take(0) =~= seq![]);
    while i < request.item_ids.len()
        invariant
            0 <= i <= request.item_ids@.len(),
            ids == id_views(request.item_ids@),
            id_views(earlier@) == ids.take(i as int),
            queued_views(queued@) == settle_requests(ids.take(i as int), old(known)@).0,
            failure_views(result.failed@) == settle_requests(ids.take(i as int), old(known)@).1,
            known@ == settle_requests(ids.take(i as int), old(known)@).2,
            queued@.len() + result.failed@.len() == i,
            result.deleted_bytes == 0,
            result.succeeded_ids@.len() == 0,
            record.succeeded@ == old(record).succeeded@,
            record.skipped@ == old(record).skipped@,
            record.status == old(record).status,
            record.reclaimed_bytes == old(record).reclaimed_bytes,
            detail_views(record.failed@) == detail_views(old(record).failed@)
                + refusal_details(settle_requests(ids.take(i as int), old(known)@).1),
        decreases request.item_ids@.len() - i,
    {
        let id = &request.item_ids[i];
        let ghost prefix = ids.take(i as int);
        let ghost prev = settle_requests(prefix, old(known)@);
        proof {
            assert(ids.take(i + 1).drop_last() =~= prefix);
            assert(ids.take(i + 1).last() == id@);
            assert((exists|j: int| 0 <= j < earlier@.len() && (#[trigger] earlier@[j])@ == id@) == prefix.contains(id@)) by {
                if prefix.contains(id@) {
                    let j = choose|j: int| 0 <= j < prefix.len() && prefix[j] == id@;
                    assert(id_views(earlier@)[j] == earlier@[j]@);
                }
                if exists|j: int| 0 <= j < earlier@.len() && (#[trigger] earlier@[j])@ == id@ {
                    let j = choose|j: int| 0 <= j < earlier@.len() && (#[trigger] earlier@[j])@ == id@;
                    assert(prefix[j] == id_views(earlier@)[j]);
                }
            }
        }
        let ghost known_before = known@;
        match take_for_deletion(id, &earlier, known) {
            Ok(snapshot) => {
                proof {
                    let k = choose|k: int| first_with_id(known_before, id@, k) && snapshot == known_before[k] && known@ == known_before.remove(k);
                    let c = choose|c: int| first_with_id(prev.2, id@, c);
                    lemma_first_with_id_unique(known_before, id@, k, c);
                }
                queued.push((id.clone(), snapshot));
                proof {
                    assert(queued_views(queued@) =~= prev.0.push((id@, snapshot)));
                }
            },
            Err(error) => {
                let ghost failed_before = result.failed@;
                let ghost record_before = record.failed@;
                record_large_file_failure(&mut result, record, id, &error, None, false);
                proof {
                    assert(failure_views(result.failed@) =~= failure_views(failed_before).push((id@, error@, None)));
                    assert(detail_views(record.failed@) =~= detail_views(record_before).push((id@, None, 0u64, error@)));
                    assert(refusal_details(prev.1.push((id@, error@, None))) =~= refusal_details(prev.1).push((id@, None, 0u64, error@)));
                    if !prefix.contains(id@) {
                        assert(!exists|k: int| first_with_id(prev.2, id@, k));
                    }
                }
            },
        }
        earlier.push(id.clone());
        proof {
            assert(id_views(earlier@) =~= ids.take(i + 1));
        }
        i = i + 1;
    }
    assert(ids.take(ids.len() as int) =~= ids);
    (queued, result)
}

/// The items deleted and refused once each queued item was attempted, in
/// order, and the bytes freed (saturating): a deletion that succeeded frees
/// the bytes it reports; one that failed is refused with its error and the
/// path of the file.
pub open spec fn deletion_outcomes(queued: Seq<(Seq<char>, LargeFileSnapshot)>, outcomes: Seq<Result<u64, String>>, bytes: u64)
    -> (Seq<Seq<char>>, Seq<(Seq<char>, Seq<char>, Option<Seq<char>>)>, u64)
    decreases queued.len(),
{
    if queued.len() == 0 || outcomes.len() < queued.len() {
        (seq![], seq![], bytes)
    } else {
        let prev = deletion_outcomes(queued.drop_last(), outcomes.take(queued.len() - 1), bytes);
        let (id, snapshot) = queued.last();
        match outcomes[queued.len() - 1] {
            Ok(freed) => (prev.0.push(id), prev.1, crate::cleanup_plan::executor::saturating_u64_add(prev.2, freed)),
            Err(error) => (prev.0, prev.1.push((id, error@, Some(snapshot.entry.path@))), prev.2),
        }
    }
}

/// The audit entries of the attempted deletions, in order: a success names
/// the item, its path, the bytes freed and that it was re-checked against the
/// latest scan; a failure is a skip with its path and error.
pub open spec fn deletion_records(queued: Seq<(Seq<char>, LargeFileSnapshot)>, outcomes: Seq<Result<u64, String>>)
    -> (Seq<(Seq<char>, Option<Seq<char>>, u64, Seq<char>)>, Seq<(Seq<char>, Option<Seq<char>>, u64, Seq<char>)>)
    decreases queued.len(),
{
    if queued.len() == 0 || outcomes.len() < queued.len() {
        (seq![], seq![])
    } else {
        let prev = deletion_records(queued.drop_last(), outcomes.take(queued.len() - 1));
        let (id, snapshot) = queued.last();
        match outcomes[queued.len() - 1] {
            Ok(freed) => (prev.0.push((id, Some(snapshot.entry.path@), freed, "已按最近一次大文件扫描快照复检并永久删除"@)), prev.1),
            Err(error) => (prev.0, prev.1.push((id, Some(snapshot.entry.path@), 0u64, error@))),
        }
    }
}

/// Completes a deletion from the outcome of each queued item: every queued
/// item ends either among the deleted or among the refused ones, and the
/// bytes freed are summed (saturating) onto those of `partial`.
pub fn finish_deletion(
    queued: Vec<(String, LargeFileSnapshot)>,
    outcomes: Vec<Result<u64, String>>,
    partial: LargeFileDeleteResult,
    record: &mut OperationRecord,
) -> (r: LargeFileDeleteResult)
    requires
        outcomes@.len() == queued@.len(),
    ensures
        id_views(r.succeeded_ids@) == id_views(partial.succeeded_ids@) + deletion_outcomes(queued_views(queued@), outcomes@, partial.deleted_bytes).0,
        failure_views(r.failed@) == failure_views(partial.failed@) + deletion_outcomes(queued_views(queued@), outcomes@, partial.deleted_bytes).1,
        r.deleted_bytes == deletion_outcomes(queued_views(queued@), outcomes@, partial.deleted_bytes).2,
        r.succeeded_ids@.len() + r.failed@.len() == partial.succeeded_ids@.len() + partial.failed@.len() + queued@.len(),
        detail_views(final(record).succeeded@) == detail_views(old(record).succeeded@) + deletion_records(queued_views(queued@), outcomes@).0,
        detail_views(final(record).skipped@) == detail_views(old(record).skipped@) + deletion_records(queued_views(queued@), outcomes@).1,
        final(record).failed@ == old(record).failed@,
        final(record).status == old(record).status,
        final(record).reclaimed_bytes == old(record).reclaimed_bytes,
{
    let ghost qv = queued_views(queued@);
    let mut result = partial;
    let mut i: usize = 0;
    assert(id_views(result.succeeded_ids@) =~= id_views(partial.succeeded_ids@) + seq![]);
    assert(failure_views(result.failed@) =~= failure_views(partial.failed@) + seq![]);
    while i < queued.len()
        invariant
            0 <= i <= queued@.len(),
            outcomes@.len() == queued@.len(),
            qv == queued_views(queued@),
            id_views(result.succeeded_ids@) == id_views(partial.succeeded_ids@) + deletion_outcomes(qv.take(i as int), outcomes@.take(i as int), partial.deleted_bytes).0,
            failure_views(result.failed@) == failure_views(partial.failed@) + deletion_outcomes(qv.take(i as int), outcomes@.take(i as int), partial.deleted_bytes).1,
            result.deleted_bytes == deletion_outcomes(qv.take(i as int), outcomes@.take(i as int), partial.deleted_bytes).2,
            result.succeeded_ids@.len() + result.failed@.len() == partial.succeeded_ids@.len() + partial.failed@.len() + i,
            detail_views(record.succeeded@) == detail_views(old(record).succeeded@) + deletion_records(qv.take(i as int), outcomes@.take(i as int)).0,
            detail_views(record.skipped@) == detail_views(old(record).skipped@) + deletion_records(qv.take(i as int), outcomes@.take(i as int)).1,
            record.failed@ == old(record).failed@,
            record.status == old(record).status,
            record.reclaimed_bytes == old(record).reclaimed_bytes,
        decreases queued@.len() - i,
    {
        let ghost prev = deletion_outcomes(qv.take(i as int), outcomes@.take(i as int), partial.deleted_bytes);
        proof {
            assert(qv.take(i + 1).drop_last() =~= qv.take(i as int));
            assert(outcomes@.take(i + 1).take(i as int) =~= outcomes@.take(i as int));
            assert(qv.take(i + 1).last() == qv[i as int]);
        }
        let id = &queued[i].0;
        let path = &queued[i].1.entry.path;
        let ghost succeeded_before = result.succeeded_ids@;
        let ghost failed_before = result.failed@;
        let ghost record_succeeded = record.succeeded@;
        let ghost record_skipped = record.skipped@;
        match &outcomes[i] {
            Ok(bytes) => {
                record_large_file_deleted(&mut result, record, id, path, *bytes);
                proof {
                    assert(record.succeeded@ =~= record_succeeded.push(record.succeeded@.last()));
                    assert(detail_views(record.succeeded@) =~= detail_views(record_succeeded).push((id@, Some(path@), *bytes, "已按最近一次大文件扫描快照复检并永久删除"@)));
                    assert(id_views(result.succeeded_ids@) =~= id_views(succeeded_before).push(id@));
                    assert(failure_views(result.failed@) == failure_views(failed_before));
                }
            },
            Err(error) => {
                record_large_file_failure(&mut result, record, id, error, Some(path.clone()), true);
                proof {
                    assert(detail_views(record.skipped@) =~= detail_views(record_skipped).push((id@, Some(path@), 0u64, error@)));
                    assert(failure_views(result.failed@) =~= failure_views(failed_before).push((id@, error@, Some(path@))));
                    assert(id_views(result.succeeded_ids@) == id_views(succeeded_before));
                }
            },
        }
        i = i + 1;
    }
    assert(qv.take(qv.len() as int) =~= qv);
    assert(outcomes@.take(outcomes@.len() as int) =~= outcomes@);
    result
}

} // verus!
