//! The decisions of a bounded walk below a storage-scan root: which entries
//! are entered, skipped or pruned, when the walk stops, and how its
//! statistics count them.
use vstd::prelude::*;
use crate::cleanup_plan::executor::saturating_u64_add;
use crate::storage::ScanStats;

verus! {

/// The most entries any walk visits.
pub const HARD_MAX_ENTRIES: u64 = 10000000;

/// `a * b`, saturating at the largest `u64`.
pub open spec fn saturating_u64_mul(a: u64, b: u64) -> u64 {
    if a * b > u64::MAX {
        u64::MAX
    } else {
        (a * b) as u64
    }
}

/// How many entries a walk may visit: four per file and two per result it
/// may report, plus 1024, at most `HARD_MAX_ENTRIES`.
pub open spec fn entry_budget_spec(max_files: u64, result_limit: u64) -> u64 {
    let wanted = saturating_u64_add(saturating_u64_add(saturating_u64_mul(max_files, 4), saturating_u64_mul(result_limit, 2)), 1024);
    if wanted < HARD_MAX_ENTRIES {
        wanted
    } else {
        HARD_MAX_ENTRIES
    }
}

/// How many entries a walk may visit.
pub fn entry_budget(max_files: u64, result_limit: u64) -> (r: u64)
    ensures
        r == entry_budget_spec(max_files, result_limit),
{
    let files: u64 = if max_files > u64::MAX / 4 { u64::MAX } else { max_files * 4 };
    let results: u64 = if result_limit > u64::MAX / 2 { u64::MAX } else { result_limit * 2 };
    let wanted = files.saturating_add(results).saturating_add(1024);
    proof {
        assert(files == saturating_u64_mul(max_files, 4)) by (nonlinear_arith)
            requires
                files == (if max_files > u64::MAX / 4 { u64::MAX } else { (max_files * 4) as u64 }),
        {
        }
        assert(results == saturating_u64_mul(result_limit, 2)) by (nonlinear_arith)
            requires
                results == (if result_limit > u64::MAX / 2 { u64::MAX } else { (result_limit * 2) as u64 }),
        {
        }
    }
    if wanted < HARD_MAX_ENTRIES {
        wanted
    } else {
        HARD_MAX_ENTRIES
    }
}

/// What the metadata of a walked entry (not followed through links) shows.
#[derive(Clone, Copy, Debug, PartialEq, Eq, Structural)]
pub struct EntryKind {
    pub is_link_or_reparse: bool,
    pub is_offline_or_recall: bool,
    pub is_dir: bool,
    pub is_file: bool,
}

/// One entry that a walk yields below the root: one it could not read, or
/// one at a depth, whether it lies in an excluded subtree, and its metadata
/// (`None`: unreadable).
#[derive(Clone, Copy, Debug, PartialEq, Eq, Structural)]
pub enum WalkEntry {
    Unreadable,
    Entry { excluded: bool, metadata: Option<EntryKind> },
}

/// What the walker does with an entry.
#[derive(Clone, Copy, Debug, PartialEq, Eq, Structural)]
pub enum WalkAction {
    /// Go on to the next entry.
    Next,
    /// Go on without entering this entry if it is a directory.
    Prune,
    /// Stop the walk.
    Stop,
    /// A directory to report; the walk enters it.
    Directory,
    /// A regular file to hand on.
    File,
}

/// The statistics with one more skipped entry.
pub open spec fn with_skip(s: ScanStats) -> ScanStats {
    ScanStats { skipped: saturating_u64_add(s.skipped, 1), ..s }
}

/// What one walk step does: the action and the statistics after it, with
/// the number of entries pruned for being links or unreadable.
pub open spec fn walk_step_spec(s: ScanStats, pruned: u64, max_entries: u64, max_files: u64, entry: WalkEntry) -> (WalkAction, ScanStats, u64) {
    match entry {
        WalkEntry::Unreadable => (WalkAction::Next, with_skip(s), pruned),
        WalkEntry::Entry { excluded, metadata } => if excluded {
            (WalkAction::Prune, s, pruned)
        } else {
            match metadata {
                None => (WalkAction::Prune, s, saturating_u64_add(pruned, 1)),
                Some(kind) => if kind.is_link_or_reparse {
                    (WalkAction::Prune, s, saturating_u64_add(pruned, 1))
                } else if s.visited_entries >= max_entries {
                    (WalkAction::Stop, ScanStats { limit_reached: true, ..s }, pruned)
                } else {
                    let v = ScanStats { visited_entries: saturating_u64_add(s.visited_entries, 1), ..s };
                    if kind.is_offline_or_recall {
                        (WalkAction::Next, with_skip(v), pruned)
                    } else if kind.is_dir {
                        (WalkAction::Directory, v, pruned)
                    } else if !kind.is_file {
                        (WalkAction::Next, with_skip(v), pruned)
                    } else if v.scanned_files >= max_files {
                        (WalkAction::Stop, ScanStats { limit_reached: true, ..v }, pruned)
                    } else {
                        (WalkAction::File, ScanStats { scanned_files: saturating_u64_add(v.scanned_files, 1), ..v }, pruned)
                    }
                },
            }
        }
    }
}

/// Decides what the walker does with an entry, counting it in the
/// statistics; `pruned` counts the links and unreadable entries left out.
pub fn walk_step(stats: &mut ScanStats, pruned: &mut u64, max_entries: u64, max_files: u64, entry: WalkEntry) -> (r: WalkAction)
    ensures
        (r, *final(stats), *final(pruned)) == walk_step_spec(*old(stats), *old(pruned), max_entries, max_files, entry),
{
    match entry {
        WalkEntry::Unreadable => {
            stats.skipped = stats.skipped.saturating_add(1);
            WalkAction::Next
        },
        WalkEntry::Entry { excluded, metadata } => {
            if excluded {
                return WalkAction::Prune;
            }
            let kind = match metadata {
                None => {
                    *pruned = pruned.saturating_add(1);
                    return WalkAction::Prune;
                },
                Some(kind) => kind,
            };
            if kind.is_link_or_reparse {
                *pruned = pruned.saturating_add(1);
                return WalkAction::Prune;
            }
            if stats.visited_entries >= max_entries {
                stats.limit_reached = true;
                return WalkAction::Stop;
            }
            stats.visited_entries = stats.visited_entries.saturating_add(1);
            if kind.is_offline_or_recall {
                stats.skipped = stats.skipped.saturating_add(1);
                return WalkAction::Next;
            }
            if kind.is_dir {
                return WalkAction::Directory;
            }
            if !kind.is_file {
                stats.skipped = stats.skipped.saturating_add(1);
                return WalkAction::Next;
            }
            if stats.scanned_files >= max_files {
                stats.limit_reached = true;
                return WalkAction::Stop;
            }
            stats.scanned_files = stats.scanned_files.saturating_add(1);
            WalkAction::File
        },
    }
}

/// Closes a walk's statistics: the pruned entries count as skipped, and a
/// cancelled walk is marked so.
pub fn finish_walk(stats: &mut ScanStats, pruned: u64, cancelled: bool)
    ensures
        *final(stats) == (ScanStats {
            skipped: saturating_u64_add(old(stats).skipped, pruned),
            cancelled: old(stats).cancelled || cancelled,
            ..*old(stats)
        }),
{
    stats.skipped = stats.skipped.saturating_add(pruned);
    if cancelled {
        stats.cancelled = true;
    }
}

/// A walk's statistics never count more files than `max_files` or more
/// entries than the budget, from a start within them: stepping keeps both
/// bounds.
pub proof fn lemma_walk_step_bounded(s: ScanStats, pruned: u64, max_entries: u64, max_files: u64, entry: WalkEntry)
    requires
        s.visited_entries <= max_entries,
        s.scanned_files <= max_files,
    ensures
        walk_step_spec(s, pruned, max_entries, max_files, entry).1.visited_entries <= max_entries,
        walk_step_spec(s, pruned, max_entries, max_files, entry).1.scanned_files <= max_files,
        walk_step_spec(s, pruned, max_entries, max_files, entry).0 == WalkAction::File
            ==> walk_step_spec(s, pruned, max_entries, max_files, entry).1.scanned_files == s.scanned_files + 1,
{
}

} // verus!
