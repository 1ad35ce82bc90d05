use qingpan::storage::ScanStats;
use qingpan::walk::{entry_budget, finish_walk, walk_step, EntryKind, WalkAction, WalkEntry};

fn kind(is_dir: bool, is_file: bool, link: bool, offline: bool) -> Option<EntryKind> {
    Some(EntryKind { is_link_or_reparse: link, is_offline_or_recall: offline, is_dir, is_file })
}

fn entry(metadata: Option<EntryKind>) -> WalkEntry {
    WalkEntry::Entry { excluded: false, metadata }
}

#[test]
fn entry_budget_scales_with_limits_and_is_capped() {
    assert_eq!(entry_budget(10, 5), 10 * 4 + 5 * 2 + 1024);
    assert_eq!(entry_budget(0, 0), 1024);
    assert_eq!(entry_budget(5_000_000, 0), 10_000_000);
    assert_eq!(entry_budget(u64::MAX, u64::MAX), 10_000_000);
}

#[test]
fn walk_steps_count_and_classify_entries() {
    let mut stats = ScanStats::default();
    let mut pruned = 0u64;
    assert_eq!(walk_step(&mut stats, &mut pruned, 100, 2, entry(kind(true, false, false, false))), WalkAction::Directory);
    assert_eq!(walk_step(&mut stats, &mut pruned, 100, 2, entry(kind(false, true, false, false))), WalkAction::File);
    assert_eq!(walk_step(&mut stats, &mut pruned, 100, 2, entry(kind(true, false, true, false))), WalkAction::Prune);
    assert_eq!(walk_step(&mut stats, &mut pruned, 100, 2, entry(None)), WalkAction::Prune);
    assert_eq!(walk_step(&mut stats, &mut pruned, 100, 2, entry(kind(true, false, false, true))), WalkAction::Next);
    assert_eq!(walk_step(&mut stats, &mut pruned, 100, 2, WalkEntry::Entry { excluded: true, metadata: kind(true, false, false, false) }), WalkAction::Prune);
    assert_eq!(walk_step(&mut stats, &mut pruned, 100, 2, WalkEntry::Unreadable), WalkAction::Next);
    assert_eq!(walk_step(&mut stats, &mut pruned, 100, 2, entry(kind(false, false, false, false))), WalkAction::Next);
    assert_eq!(walk_step(&mut stats, &mut pruned, 100, 2, entry(kind(false, true, false, false))), WalkAction::File);
    assert_eq!(walk_step(&mut stats, &mut pruned, 100, 2, entry(kind(false, true, false, false))), WalkAction::Stop);
    assert!(stats.limit_reached);
    assert_eq!(stats.scanned_files, 2);
    assert_eq!(stats.visited_entries, 6);
    assert_eq!(stats.skipped, 3);
    assert_eq!(pruned, 2);
    finish_walk(&mut stats, pruned, false);
    assert_eq!(stats.skipped, 5);
    assert!(!stats.cancelled);
}

#[test]
fn the_entry_budget_stops_a_walk() {
    let mut stats = ScanStats::default();
    let mut pruned = 0u64;
    assert_eq!(walk_step(&mut stats, &mut pruned, 1, 10, entry(kind(false, true, false, false))), WalkAction::File);
    assert_eq!(walk_step(&mut stats, &mut pruned, 1, 10, entry(kind(true, false, false, false))), WalkAction::Stop);
    assert!(stats.limit_reached);
    finish_walk(&mut stats, 0, true);
    assert!(stats.cancelled);
}
