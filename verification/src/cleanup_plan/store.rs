use vstd::prelude::*;
use vstd::string::StringExecFns;
use crate::models::{CleanupItem, DeleteMode, RiskLevel};
use crate::quarantine::types::{MAX_QUARANTINE_PLAN_BYTES, MAX_QUARANTINE_PLAN_FILES};
use crate::scanner::{CleanupSnapshot, same_snapshot};
use crate::tree::views;
use crate::cleanup_plan::ids::{format_id, hyphenated, new_random_id, parse_id_text, parsed_uuid};
use crate::cleanup_plan::types::{
    CleanupPlan, CleanupPlanPreview, CleanupScanResponse, CreateCleanupPlanRequest,
    ExecuteCleanupPlanRequest,
};

verus! {

pub const DEFAULT_SCAN_TTL_MS: u64 = 900000;

pub const DEFAULT_PLAN_TTL_MS: u64 = 600000;

pub const DEFAULT_MAX_SCAN_SESSIONS: usize = 4;

pub const DEFAULT_MAX_PLANS: usize = 8;

/// The most items that one plan may hold.
pub const MAX_PLAN_ITEMS: usize = 100;

/// Whether the texts are pairwise different.
pub open spec fn distinct_texts(s: Seq<Seq<char>>) -> bool {
    forall|i: int, j: int| 0 <= i < j < s.len() ==> s[i] != s[j]
}

/// The refusal for a plan of the wrong size.
pub open spec fn plan_size_message() -> Seq<char> {
    "清理计划必须包含 1 到 100 个规则条目"@
}

/// The refusal for a plan that names an item twice.
pub open spec fn duplicate_items_message() -> Seq<char> {
    "清理计划包含重复条目"@
}

/// Whether some text occurs twice in `v[..i]` as the text at `i`.
fn occurs_before(v: &Vec<String>, i: usize) -> (r: bool)
    requires
        i < v@.len(),
    ensures
        r == exists|k: int| 0 <= k < i && views(v@)[k] == views(v@)[i as int],
{
    let target = crate::text::chars_of(v[i].as_str());
    let mut k: usize = 0;
    while k < i
        invariant
            0 <= k <= i < v@.len(),
            target@ == views(v@)[i as int],
            forall|a: int| 0 <= a < k ==> views(v@)[a] != views(v@)[i as int],
        decreases i - k,
    {
        let candidate = crate::text::chars_of(v[k].as_str());
        if crate::apps::vec_eq(&candidate, &target) {
            assert(views(v@)[k as int] == views(v@)[i as int]);
            return true;
        }
        k = k + 1;
    }
    false
}

/// Whether the texts of `v` are pairwise different.
pub fn all_distinct(v: &Vec<String>) -> (r: bool)
    ensures
        r == distinct_texts(views(v@)),
{
    let mut i: usize = 0;
    while i < v.len()
        invariant
            0 <= i <= v@.len(),
            distinct_texts(views(v@).take(i as int)),
        decreases v@.len() - i,
    {
        if occurs_before(v, i) {
            let ghost k = choose|k: int| 0 <= k < i && views(v@)[k] == views(v@)[i as int];
            assert(!distinct_texts(views(v@)));
            return false;
        }
        assert forall|a: int, b: int| 0 <= a < b < i + 1 implies #[trigger] views(v@).take(i + 1)[a]
            != #[trigger] views(v@).take(i + 1)[b] by {
            if b < i {
                assert(views(v@).take(i as int)[a] != views(v@).take(i as int)[b]);
            }
        }
        i = i + 1;
    }
    assert(views(v@).take(v@.len() as int) =~= views(v@));
    true
}

/// A plan must name between 1 and 100 items, each once.
pub fn validate_requested_item_ids(item_ids: &Vec<String>) -> (r: Result<(), String>)
    ensures
        r is Ok <==> (1 <= item_ids@.len() <= MAX_PLAN_ITEMS && distinct_texts(views(item_ids@))),
        r matches Err(message) ==> message@ == (if item_ids@.len() == 0 || item_ids@.len()
            > MAX_PLAN_ITEMS {
            plan_size_message()
        } else {
            duplicate_items_message()
        }),
{
    if item_ids.len() == 0 || item_ids.len() > MAX_PLAN_ITEMS {
        return Err("清理计划必须包含 1 到 100 个规则条目".to_string());
    }
    if !all_distinct(item_ids) {
        return Err("清理计划包含重复条目".to_string());
    }
    Ok(())
}

pub open spec fn item_ids(items: Seq<CleanupItem>) -> Seq<Seq<char>> {
    items.map_values(|item: CleanupItem| item.id@)
}

/// Whether the confirmation list is well formed: no id twice, and every id is
/// a planned, irreversible item.
pub open spec fn confirmations_well_formed(items: Seq<CleanupItem>, irreversible: Seq<Seq<char>>, confirmed: Seq<Seq<char>>) -> bool {
    &&& distinct_texts(confirmed)
    &&& forall|i: int| 0 <= i < confirmed.len() ==> item_ids(items).contains(#[trigger] confirmed[i])
    &&& forall|i: int| 0 <= i < confirmed.len() ==> irreversible.contains(#[trigger] confirmed[i])
}

/// Whether every irreversible item is confirmed.
pub open spec fn all_irreversible_confirmed(irreversible: Seq<Seq<char>>, confirmed: Seq<Seq<char>>) -> bool {
    forall|i: int| 0 <= i < irreversible.len() ==> confirmed.contains(#[trigger] irreversible[i])
}

/// Whether `text` is one of `v`.
fn contains_text(v: &Vec<String>, text: &String) -> (r: bool)
    ensures
        r == views(v@).contains(text@),
{
    let target = crate::text::chars_of(text.as_str());
    let mut k: usize = 0;
    while k < v.len()
        invariant
            0 <= k <= v@.len(),
            target@ == text@,
            forall|a: int| 0 <= a < k ==> views(v@)[a] != text@,
        decreases v@.len() - k,
    {
        let candidate = crate::text::chars_of(v[k].as_str());
        if crate::apps::vec_eq(&candidate, &target) {
            assert(views(v@)[k as int] == text@);
            return true;
        }
        k = k + 1;
    }
    false
}

/// Whether `text` is the id of one of `items`.
fn contains_item_id(items: &Vec<CleanupItem>, text: &String) -> (r: bool)
    ensures
        r == item_ids(items@).contains(text@),
{
    let target = crate::text::chars_of(text.as_str());
    let mut k: usize = 0;
    while k < items.len()
        invariant
            0 <= k <= items@.len(),
            target@ == text@,
            forall|a: int| 0 <= a < k ==> item_ids(items@)[a] != text@,
        decreases items@.len() - k,
    {
        let candidate = crate::text::chars_of(items[k].id.as_str());
        if crate::apps::vec_eq(&candidate, &target) {
            assert(item_ids(items@)[k as int] == text@);
            return true;
        }
        k = k + 1;
    }
    false
}

/// The confirmations must name each irreversible item of the plan, and
/// nothing else, once.
pub fn validate_irreversible_confirmations(
    items: &Vec<CleanupItem>,
    irreversible_item_ids: &Vec<String>,
    confirmed_irreversible_item_ids: &Vec<String>,
) -> (r: Result<(), String>)
    ensures
        r is Ok <==> (confirmations_well_formed(items@, views(irreversible_item_ids@), views(confirmed_irreversible_item_ids@))
            && all_irreversible_confirmed(views(irreversible_item_ids@), views(confirmed_irreversible_item_ids@))),
        r matches Err(message) ==> message@ == (if !confirmations_well_formed(
            items@,
            views(irreversible_item_ids@),
            views(confirmed_irreversible_item_ids@),
        ) {
            "不可恢复内容确认列表无效"@
        } else {
            "清理计划包含未明确确认的不可恢复内容"@
        }),
{
    let confirmed = confirmed_irreversible_item_ids;
    let mut well_formed = all_distinct(confirmed);
    let mut i: usize = 0;
    while i < confirmed.len()
        invariant
            0 <= i <= confirmed@.len(),
            well_formed == (distinct_texts(views(confirmed@)) && forall|k: int| 0 <= k < i ==> item_ids(items@).contains(#[trigger] views(confirmed@)[k])
                && views(irreversible_item_ids@).contains(views(confirmed@)[k])),
        decreases confirmed@.len() - i,
    {
        let planned = contains_item_id(items, &confirmed[i]);
        let marked = contains_text(irreversible_item_ids, &confirmed[i]);
        assert(views(confirmed@)[i as int] == confirmed@[i as int]@);
        if !planned || !marked {
            well_formed = false;
        }
        i = i + 1;
    }
    if !well_formed {
        return Err("不可恢复内容确认列表无效".to_string());
    }
    let mut j: usize = 0;
    while j < irreversible_item_ids.len()
        invariant
            0 <= j <= irreversible_item_ids@.len(),
            confirmations_well_formed(items@, views(irreversible_item_ids@), views(confirmed_irreversible_item_ids@)),
            forall|k: int| 0 <= k < j ==> views(confirmed_irreversible_item_ids@).contains(#[trigger] views(irreversible_item_ids@)[k]),
        decreases irreversible_item_ids@.len() - j,
    {
        assert(views(irreversible_item_ids@)[j as int] == irreversible_item_ids@[j as int]@);
        if !contains_text(confirmed_irreversible_item_ids, &irreversible_item_ids[j]) {
            assert(!views(confirmed_irreversible_item_ids@).contains(views(irreversible_item_ids@)[j as int]));
            assert(!all_irreversible_confirmed(views(irreversible_item_ids@), views(confirmed_irreversible_item_ids@)));
            return Err("清理计划包含未明确确认的不可恢复内容".to_string());
        }
        j = j + 1;
    }
    Ok(())
}


/// Lifetimes and capacity limits of a plan store.
#[derive(Clone, Copy, Debug)]
pub struct StoreConfig {
    pub scan_ttl_ms: u64,
    pub plan_ttl_ms: u64,
    pub max_scan_sessions: usize,
    pub max_plans: usize,
}

impl Default for StoreConfig {
    fn default() -> (config: Self)
        ensures
            config.scan_ttl_ms == DEFAULT_SCAN_TTL_MS,
            config.plan_ttl_ms == DEFAULT_PLAN_TTL_MS,
            config.max_scan_sessions == DEFAULT_MAX_SCAN_SESSIONS,
            config.max_plans == DEFAULT_MAX_PLANS,
    {
        StoreConfig {
            scan_ttl_ms: DEFAULT_SCAN_TTL_MS,
            plan_ttl_ms: DEFAULT_PLAN_TTL_MS,
            max_scan_sessions: DEFAULT_MAX_SCAN_SESSIONS,
            max_plans: DEFAULT_MAX_PLANS,
        }
    }
}

/// The snapshots of one recorded scan, which plans are built from.
#[derive(Debug)]
pub struct ScanSession {
    pub scan_id: u128,
    pub rule_version: String,
    pub created_at_ms: u64,
    pub expires_at_ms: u64,
    pub snapshots: Vec<CleanupSnapshot>,
}

/// A plan waiting to be confirmed, under its identifier.
#[derive(Debug)]
pub struct StoredPlan {
    pub plan_id: u128,
    pub plan: CleanupPlan,
}

/// Scans and plans between the moment they are made and the moment they are
/// used, expire or are evicted. A plan is handed out at most once.
#[derive(Debug)]
pub struct CleanupPlanStore {
    pub config: StoreConfig,
    pub scans: Vec<ScanSession>,
    pub plans: Vec<StoredPlan>,
}

/// The sessions that have not expired at `now`, in order.
pub open spec fn live_scans(scans: Seq<ScanSession>, now: u64) -> Seq<ScanSession>
    decreases scans.len(),
{
    if scans.len() == 0 {
        seq![]
    } else {
        let rest = live_scans(scans.drop_first(), now);
        if scans[0].expires_at_ms > now {
            seq![scans[0]] + rest
        } else {
            rest
        }
    }
}

/// The plans that have not expired at `now`, in order.
pub open spec fn live_plans(plans: Seq<StoredPlan>, now: u64) -> Seq<StoredPlan>
    decreases plans.len(),
{
    if plans.len() == 0 {
        seq![]
    } else {
        let rest = live_plans(plans.drop_first(), now);
        if plans[0].plan.preview.expires_at_ms > now {
            seq![plans[0]] + rest
        } else {
            rest
        }
    }
}

/// The plans other than those stored under `id`, in order.
pub open spec fn without_plan(plans: Seq<StoredPlan>, id: u128) -> Seq<StoredPlan>
    decreases plans.len(),
{
    if plans.len() == 0 {
        seq![]
    } else {
        let rest = without_plan(plans.drop_first(), id);
        if plans[0].plan_id != id {
            seq![plans[0]] + rest
        } else {
            rest
        }
    }
}

/// The sessions other than those recorded under `id`, in order.
pub open spec fn without_scan(scans: Seq<ScanSession>, id: u128) -> Seq<ScanSession>
    decreases scans.len(),
{
    if scans.len() == 0 {
        seq![]
    } else {
        let rest = without_scan(scans.drop_first(), id);
        if scans[0].scan_id != id {
            seq![scans[0]] + rest
        } else {
            rest
        }
    }
}

/// Whether a plan is stored under `id`.
pub open spec fn has_plan(plans: Seq<StoredPlan>, id: u128) -> bool {
    exists|i: int| 0 <= i < plans.len() && #[trigger] plans[i].plan_id == id
}

/// Whether a session is recorded under `id`.
pub open spec fn has_scan(scans: Seq<ScanSession>, id: u128) -> bool {
    exists|i: int| 0 <= i < scans.len() && #[trigger] scans[i].scan_id == id
}

pub proof fn lemma_live_plans_subset(plans: Seq<StoredPlan>, now: u64, id: u128)
    ensures
        has_plan(live_plans(plans, now), id) ==> has_plan(plans, id),
    decreases plans.len(),
{
    if plans.len() > 0 {
        lemma_live_plans_subset(plans.drop_first(), now, id);
        let rest = live_plans(plans.drop_first(), now);
        if has_plan(live_plans(plans, now), id) {
            let i = choose|i: int| 0 <= i < live_plans(plans, now).len() && #[trigger] live_plans(plans, now)[i].plan_id == id;
            if plans[0].plan.preview.expires_at_ms > now {
                if i > 0 {
                    assert(rest[i - 1].plan_id == id);
                    let j = choose|j: int| 0 <= j < plans.drop_first().len() && #[trigger] plans.drop_first()[j].plan_id == id;
                    assert(plans[j + 1].plan_id == id);
                } else {
                    assert(plans[0].plan_id == id);
                }
            } else {
                assert(rest[i].plan_id == id);
                let j = choose|j: int| 0 <= j < plans.drop_first().len() && #[trigger] plans.drop_first()[j].plan_id == id;
                assert(plans[j + 1].plan_id == id);
            }
        }
    }
}

pub proof fn lemma_without_plan_removes(plans: Seq<StoredPlan>, id: u128)
    ensures
        !has_plan(without_plan(plans, id), id),
    decreases plans.len(),
{
    if plans.len() > 0 {
        lemma_without_plan_removes(plans.drop_first(), id);
        let rest = without_plan(plans.drop_first(), id);
        if plans[0].plan_id != id {
            if has_plan(without_plan(plans, id), id) {
                let i = choose|i: int| 0 <= i < without_plan(plans, id).len() && #[trigger] without_plan(plans, id)[i].plan_id == id;
                assert(i > 0);
                assert(rest[i - 1].plan_id == id);
            }
        }
    }
}

/// Once a plan has been taken, no later take finds it: taking removes every
/// plan stored under the taken identifier, and expiry only ever drops plans.
pub proof fn lemma_plan_take_is_one_shot(plans: Seq<StoredPlan>, id: u128, now: u64, later: u64)
    ensures
        !has_plan(live_plans(without_plan(live_plans(plans, now), id), later), id),
{
    let after = without_plan(live_plans(plans, now), id);
    lemma_without_plan_removes(live_plans(plans, now), id);
    lemma_live_plans_subset(after, later, id);
}

/// A plan that has expired is never found again.
pub proof fn lemma_expired_plan_is_not_found(plans: Seq<StoredPlan>, id: u128, now: u64)
    requires
        forall|i: int| 0 <= i < plans.len() && #[trigger] plans[i].plan_id == id ==> plans[i].plan.preview.expires_at_ms <= now,
    ensures
        !has_plan(live_plans(plans, now), id),
    decreases plans.len(),
{
    if plans.len() > 0 {
        assert forall|i: int| 0 <= i < plans.drop_first().len() && #[trigger] plans.drop_first()[i].plan_id == id implies plans.drop_first()[i].plan.preview.expires_at_ms <= now by {
            assert(plans[i + 1].plan_id == id);
        }
        lemma_expired_plan_is_not_found(plans.drop_first(), id, now);
        let rest = live_plans(plans.drop_first(), now);
        if has_plan(live_plans(plans, now), id) {
            let i = choose|i: int| 0 <= i < live_plans(plans, now).len() && #[trigger] live_plans(plans, now)[i].plan_id == id;
            if plans[0].plan.preview.expires_at_ms > now {
                assert(plans[0].plan_id != id);
                assert(i > 0);
                assert(rest[i - 1].plan_id == id);
            } else {
                assert(rest[i].plan_id == id);
            }
        }
    }
}


/// The sessions of `scans` that have not expired at `now`.
fn keep_live_scans(scans: Vec<ScanSession>, now: u64) -> (r: Vec<ScanSession>)
    ensures
        r@ == live_scans(scans@, now),
{
    let ghost all = scans@;
    let mut rest = scans;
    let mut kept: Vec<ScanSession> = Vec::new();
    while rest.len() > 0
        invariant
            kept@ + live_scans(rest@, now) == live_scans(all, now),
        decreases rest@.len(),
    {
        let ghost before = rest@;
        let session = rest.remove(0);
        assert(rest@ == before.drop_first());
        if session.expires_at_ms > now {
            assert(kept@.push(session) + live_scans(rest@, now) =~= kept@ + (seq![session] + live_scans(rest@, now)));
            kept.push(session);
        }
    }
    assert(kept@ + Seq::<ScanSession>::empty() =~= kept@);
    kept
}

/// The plans of `plans` that have not expired at `now`.
fn keep_live_plans(plans: Vec<StoredPlan>, now: u64) -> (r: Vec<StoredPlan>)
    ensures
        r@ == live_plans(plans@, now),
{
    let ghost all = plans@;
    let mut rest = plans;
    let mut kept: Vec<StoredPlan> = Vec::new();
    while rest.len() > 0
        invariant
            kept@ + live_plans(rest@, now) == live_plans(all, now),
        decreases rest@.len(),
    {
        let ghost before = rest@;
        let stored = rest.remove(0);
        assert(rest@ == before.drop_first());
        if stored.plan.preview.expires_at_ms > now {
            assert(kept@.push(stored) + live_plans(rest@, now) =~= kept@ + (seq![stored] + live_plans(rest@, now)));
            kept.push(stored);
        }
    }
    assert(kept@ + Seq::<StoredPlan>::empty() =~= kept@);
    kept
}

/// The plans of `plans` that are not stored under `id`.
fn drop_plan(plans: Vec<StoredPlan>, id: u128) -> (r: Vec<StoredPlan>)
    ensures
        r@ == without_plan(plans@, id),
{
    let ghost all = plans@;
    let mut rest = plans;
    let mut kept: Vec<StoredPlan> = Vec::new();
    while rest.len() > 0
        invariant
            kept@ + without_plan(rest@, id) == without_plan(all, id),
        decreases rest@.len(),
    {
        let ghost before = rest@;
        let stored = rest.remove(0);
        assert(rest@ == before.drop_first());
        if stored.plan_id != id {
            assert(kept@.push(stored) + without_plan(rest@, id) =~= kept@ + (seq![stored] + without_plan(rest@, id)));
            kept.push(stored);
        }
    }
    assert(kept@ + Seq::<StoredPlan>::empty() =~= kept@);
    kept
}

/// The sessions of `scans` that are not recorded under `id`.
fn drop_scan(scans: Vec<ScanSession>, id: u128) -> (r: Vec<ScanSession>)
    ensures
        r@ == without_scan(scans@, id),
{
    let ghost all = scans@;
    let mut rest = scans;
    let mut kept: Vec<ScanSession> = Vec::new();
    while rest.len() > 0
        invariant
            kept@ + without_scan(rest@, id) == without_scan(all, id),
        decreases rest@.len(),
    {
        let ghost before = rest@;
        let session = rest.remove(0);
        assert(rest@ == before.drop_first());
        if session.scan_id != id {
            assert(kept@.push(session) + without_scan(rest@, id) =~= kept@ + (seq![session] + without_scan(rest@, id)));
            kept.push(session);
        }
    }
    assert(kept@ + Seq::<ScanSession>::empty() =~= kept@);
    kept
}

/// The capacity that eviction makes room below: at least one.
pub open spec fn effective_limit(limit: usize) -> int {
    if limit == 0 {
        1
    } else {
        limit as int
    }
}

/// The size that eviction brings a collection of `len` entries to.
pub open spec fn evicted_len(len: int, limit: usize) -> int {
    if len >= effective_limit(limit) {
        effective_limit(limit) - 1
    } else {
        len
    }
}

fn oldest_scan_index(scans: &Vec<ScanSession>) -> (r: usize)
    requires
        scans@.len() > 0,
    ensures
        r < scans@.len(),
        forall|k: int| 0 <= k < scans@.len() ==> scans@[r as int].created_at_ms <= #[trigger] scans@[k].created_at_ms,
{
    let mut best: usize = 0;
    let mut i: usize = 1;
    while i < scans.len()
        invariant
            1 <= i <= scans@.len(),
            best < i,
            forall|k: int| 0 <= k < i ==> scans@[best as int].created_at_ms <= #[trigger] scans@[k].created_at_ms,
        decreases scans@.len() - i,
    {
        if scans[i].created_at_ms < scans[best].created_at_ms {
            best = i;
        }
        i = i + 1;
    }
    best
}

fn oldest_plan_index(plans: &Vec<StoredPlan>) -> (r: usize)
    requires
        plans@.len() > 0,
    ensures
        r < plans@.len(),
        forall|k: int| 0 <= k < plans@.len() ==> plans@[r as int].plan.preview.created_at_ms <= #[trigger] plans@[k].plan.preview.created_at_ms,
{
    let mut best: usize = 0;
    let mut i: usize = 1;
    while i < plans.len()
        invariant
            1 <= i <= plans@.len(),
            best < i,
            forall|k: int| 0 <= k < i ==> plans@[best as int].plan.preview.created_at_ms <= #[trigger] plans@[k].plan.preview.created_at_ms,
        decreases plans@.len() - i,
    {
        if plans[i].plan.preview.created_at_ms < plans[best].plan.preview.created_at_ms {
            best = i;
        }
        i = i + 1;
    }
    best
}

/// Removes the oldest sessions until fewer than `limit` (at least one) remain.
fn evict_oldest_scans(scans: Vec<ScanSession>, limit: usize) -> (r: Vec<ScanSession>)
    ensures
        r@.len() == evicted_len(scans@.len() as int, limit),
        forall|i: int| 0 <= i < r@.len() ==> scans@.contains(#[trigger] r@[i]),
        forall|i: int, j: int|
            0 <= i < scans@.len() && 0 <= j < r@.len() && !r@.contains(#[trigger] scans@[i])
                ==> scans@[i].created_at_ms <= #[trigger] r@[j].created_at_ms,
{
    let bound: usize = if limit == 0 {
        1
    } else {
        limit
    };
    let ghost all = scans@;
    let mut rest = scans;
    while rest.len() >= bound
        invariant
            bound == effective_limit(limit),
            rest@.len() == all.len() || (all.len() >= bound && rest@.len() >= bound - 1),
            all.len() < bound ==> rest@ == all,
            forall|i: int| 0 <= i < rest@.len() ==> all.contains(#[trigger] rest@[i]),
            forall|i: int, j: int|
                0 <= i < all.len() && 0 <= j < rest@.len() && !rest@.contains(#[trigger] all[i])
                    ==> all[i].created_at_ms <= #[trigger] rest@[j].created_at_ms,
        decreases rest@.len(),
    {
        let ghost before = rest@;
        let oldest = oldest_scan_index(&rest);
        let ghost victim = before[oldest as int];
        rest.remove(oldest);
        assert forall|i: int| 0 <= i < rest@.len() implies all.contains(#[trigger] rest@[i]) by {
            if i < oldest {
                assert(rest@[i] == before[i]);
            } else {
                assert(rest@[i] == before[i + 1]);
            }
        }
        assert forall|i: int, j: int|
            0 <= i < all.len() && 0 <= j < rest@.len() && !rest@.contains(#[trigger] all[i])
                implies all[i].created_at_ms <= #[trigger] rest@[j].created_at_ms by {
            let jj = if j < oldest { j } else { j + 1 };
            assert(rest@[j] == before[jj]);
            if before.contains(all[i]) {
                let k = choose|k: int| 0 <= k < before.len() && before[k] == all[i];
                if k != oldest {
                    let kk = if k < oldest { k } else { k - 1 };
                    assert(rest@[kk] == before[k]);
                    assert(false);
                }
                assert(victim.created_at_ms <= before[jj].created_at_ms);
            }
        }
    }
    rest
}

/// Removes the oldest plans until fewer than `limit` (at least one) remain.
fn evict_oldest_plans(plans: Vec<StoredPlan>, limit: usize) -> (r: Vec<StoredPlan>)
    ensures
        r@.len() == evicted_len(plans@.len() as int, limit),
        forall|i: int| 0 <= i < r@.len() ==> plans@.contains(#[trigger] r@[i]),
        forall|i: int, j: int|
            0 <= i < plans@.len() && 0 <= j < r@.len() && !r@.contains(#[trigger] plans@[i])
                ==> plans@[i].plan.preview.created_at_ms <= #[trigger] r@[j].plan.preview.created_at_ms,
{
    let bound: usize = if limit == 0 {
        1
    } else {
        limit
    };
    let ghost all = plans@;
    let mut rest = plans;
    while rest.len() >= bound
        invariant
            bound == effective_limit(limit),
            rest@.len() == all.len() || (all.len() >= bound && rest@.len() >= bound - 1),
            all.len() < bound ==> rest@ == all,
            forall|i: int| 0 <= i < rest@.len() ==> all.contains(#[trigger] rest@[i]),
            forall|i: int, j: int|
                0 <= i < all.len() && 0 <= j < rest@.len() && !rest@.contains(#[trigger] all[i])
                    ==> all[i].plan.preview.created_at_ms <= #[trigger] rest@[j].plan.preview.created_at_ms,
        decreases rest@.len(),
    {
        let ghost before = rest@;
        let oldest = oldest_plan_index(&rest);
        let ghost victim = before[oldest as int];
        rest.remove(oldest);
        assert forall|i: int| 0 <= i < rest@.len() implies all.contains(#[trigger] rest@[i]) by {
            if i < oldest {
                assert(rest@[i] == before[i]);
            } else {
                assert(rest@[i] == before[i + 1]);
            }
        }
        assert forall|i: int, j: int|
            0 <= i < all.len() && 0 <= j < rest@.len() && !rest@.contains(#[trigger] all[i])
                implies all[i].plan.preview.created_at_ms <= #[trigger] rest@[j].plan.preview.created_at_ms by {
            let jj = if j < oldest { j } else { j + 1 };
            assert(rest@[j] == before[jj]);
            if before.contains(all[i]) {
                let k = choose|k: int| 0 <= k < before.len() && before[k] == all[i];
                if k != oldest {
                    let kk = if k < oldest { k } else { k - 1 };
                    assert(rest@[kk] == before[k]);
                    assert(false);
                }
                assert(victim.plan.preview.created_at_ms <= before[jj].plan.preview.created_at_ms);
            }
        }
    }
    rest
}


/// Whether `k` is the first snapshot whose item has the id `id`.
pub open spec fn is_first_match(snapshots: Seq<CleanupSnapshot>, id: Seq<char>, k: int) -> bool {
    0 <= k < snapshots.len() && snapshots[k].item.id@ == id && forall|j: int|
        0 <= j < k ==> #[trigger] snapshots[j].item.id@ != id
}

/// Whether the snapshots hold an item with the id `id`.
pub open spec fn holds_item(snapshots: Seq<CleanupSnapshot>, id: Seq<char>) -> bool {
    exists|k: int| 0 <= k < snapshots.len() && #[trigger] snapshots[k].item.id@ == id
}

/// Whether the first item with the id `id` may be executed now.
pub open spec fn item_available(snapshots: Seq<CleanupSnapshot>, id: Seq<char>) -> bool {
    exists|k: int| #[trigger] is_first_match(snapshots, id, k) && snapshots[k].item.blocked_reason is None
}

/// Total of a count over items, exact.
pub open spec fn sum_files(items: Seq<CleanupItem>) -> int
    decreases items.len(),
{
    if items.len() == 0 {
        0
    } else {
        sum_files(items.drop_last()) + items.last().file_count
    }
}

pub open spec fn sum_bytes(items: Seq<CleanupItem>) -> int
    decreases items.len(),
{
    if items.len() == 0 {
        0
    } else {
        sum_bytes(items.drop_last()) + items.last().size_bytes
    }
}

/// Files of the items that go to quarantine, exact.
pub open spec fn quarantine_files(items: Seq<CleanupItem>) -> int
    decreases items.len(),
{
    if items.len() == 0 {
        0
    } else {
        quarantine_files(items.drop_last()) + if items.last().delete_mode == DeleteMode::Quarantine {
            items.last().file_count as int
        } else {
            0
        }
    }
}

pub open spec fn quarantine_bytes(items: Seq<CleanupItem>) -> int
    decreases items.len(),
{
    if items.len() == 0 {
        0
    } else {
        quarantine_bytes(items.drop_last()) + if items.last().delete_mode == DeleteMode::Quarantine {
            items.last().size_bytes as int
        } else {
            0
        }
    }
}

/// A count that saturates at the largest `usize`.
pub open spec fn saturate_usize(x: int) -> int {
    if x > usize::MAX {
        usize::MAX as int
    } else {
        x
    }
}

/// A count that saturates at the largest `u64`.
pub open spec fn saturate_u64(x: int) -> int {
    if x > u64::MAX {
        u64::MAX as int
    } else {
        x
    }
}

/// Whether an item's files are removed for good and it carries high risk:
/// such an item must be confirmed on its own.
pub open spec fn irreversible(item: CleanupItem) -> bool {
    item.risk == RiskLevel::High && item.delete_mode == DeleteMode::Permanent
}

/// The ids of the irreversible items, in order.
pub open spec fn irreversible_ids(items: Seq<CleanupItem>) -> Seq<Seq<char>>
    decreases items.len(),
{
    if items.len() == 0 {
        seq![]
    } else {
        let rest = irreversible_ids(items.drop_last());
        if irreversible(items.last()) {
            rest.push(items.last().id@)
        } else {
            rest
        }
    }
}

/// The items of a plan, picked from one scan session.
#[derive(Debug)]
pub struct PlanSelection {
    pub items: Vec<CleanupItem>,
    pub snapshots: Vec<CleanupSnapshot>,
    pub irreversible_item_ids: Vec<String>,
    pub total_files: usize,
    pub total_bytes: u64,
    pub quarantine_files: usize,
    pub quarantine_bytes: u64,
}

/// The item of the first snapshot with the id `id`.
pub open spec fn first_item(snapshots: Seq<CleanupSnapshot>, id: Seq<char>) -> CleanupItem {
    snapshots[choose|k: int| is_first_match(snapshots, id, k)].item
}

/// The items that a plan of `ids` takes from the snapshots, in order.
pub open spec fn selected_items(snapshots: Seq<CleanupSnapshot>, ids: Seq<Seq<char>>) -> Seq<CleanupItem> {
    ids.map_values(|id: Seq<char>| first_item(snapshots, id))
}

pub proof fn lemma_first_item(snapshots: Seq<CleanupSnapshot>, id: Seq<char>, k: int)
    requires
        is_first_match(snapshots, id, k),
    ensures
        first_item(snapshots, id) == snapshots[k].item,
{
    let c = choose|c: int| is_first_match(snapshots, id, c);
    assert(is_first_match(snapshots, id, c));
    if c < k {
        assert(snapshots[c].item.id@ != id);
    } else if c > k {
        assert(snapshots[k].item.id@ != id);
    }
}

proof fn lemma_selection_items(snapshots: Seq<CleanupSnapshot>, ids: Seq<Seq<char>>, selection: PlanSelection)
    requires
        selects(snapshots, ids, selection),
    ensures
        selection.items@ == selected_items(snapshots, ids),
{
    assert forall|i: int| 0 <= i < ids.len() implies selection.items@[i] == #[trigger] selected_items(snapshots, ids)[i] by {
        assert(picked(snapshots, ids[i], selection.items@[i], selection.snapshots@[i]));
        let k = choose|k: int| is_first_match(snapshots, ids[i], k) && selection.items@[i] == snapshots[k].item && same_snapshot(selection.snapshots@[i], snapshots[k]);
        lemma_first_item(snapshots, ids[i], k);
    }
    assert(selection.items@ =~= selected_items(snapshots, ids));
}

/// Whether `item` and `snapshot` are those of the first snapshot with the id `id`.
pub open spec fn picked(snapshots: Seq<CleanupSnapshot>, id: Seq<char>, item: CleanupItem, snapshot: CleanupSnapshot) -> bool {
    exists|k: int| is_first_match(snapshots, id, k) && item == snapshots[k].item && same_snapshot(snapshot, snapshots[k])
}

/// Whether `selection` holds, for each id in turn, the first snapshot of the
/// session with that id and its item, with the plan's totals (saturating).
pub open spec fn selects(snapshots: Seq<CleanupSnapshot>, ids: Seq<Seq<char>>, selection: PlanSelection) -> bool {
    &&& selection.items@.len() == ids.len()
    &&& selection.snapshots@.len() == ids.len()
    &&& forall|i: int|
        0 <= i < ids.len() ==> #[trigger] picked(
            snapshots,
            ids[i],
            selection.items@[i],
            selection.snapshots@[i],
        )
    &&& views(selection.irreversible_item_ids@) == irreversible_ids(selection.items@)
    &&& selection.total_files == saturate_usize(sum_files(selection.items@))
    &&& selection.total_bytes == saturate_u64(sum_bytes(selection.items@))
    &&& selection.quarantine_files == saturate_usize(quarantine_files(selection.items@))
    &&& selection.quarantine_bytes == saturate_u64(quarantine_bytes(selection.items@))
}

fn find_snapshot(snapshots: &Vec<CleanupSnapshot>, id: &String) -> (r: Option<usize>)
    ensures
        match r {
            Some(k) => is_first_match(snapshots@, id@, k as int),
            None => !holds_item(snapshots@, id@),
        },
{
    let target = crate::text::chars_of(id.as_str());
    let mut k: usize = 0;
    while k < snapshots.len()
        invariant
            0 <= k <= snapshots@.len(),
            target@ == id@,
            forall|j: int| 0 <= j < k ==> #[trigger] snapshots@[j].item.id@ != id@,
        decreases snapshots@.len() - k,
    {
        let candidate = crate::text::chars_of(snapshots[k].item.id.as_str());
        if crate::apps::vec_eq(&candidate, &target) {
            return Some(k);
        }
        k = k + 1;
    }
    None
}

/// `prefix` followed by `text`.
fn message_with(prefix: &str, text: &String) -> (r: String)
    ensures
        r@ == prefix@ + text@,
{
    let mut message = prefix.to_string();
    message.append(text.as_str());
    message
}

proof fn lemma_saturating_step(total: int, prev: int, x: int, max: int)
    requires
        0 <= prev,
        0 <= x,
        total == (if prev > max { max } else { prev }),
    ensures
        (if total + x > max { max } else { total + x }) == (if prev + x > max { max } else { prev + x }),
{
}

/// The refusal of a plan's items: the first requested id that is not
/// available is named, as not executable now when the session holds it and as
/// not belonging to the session otherwise.
pub open spec fn selection_refused(snapshots: Seq<CleanupSnapshot>, ids: Seq<Seq<char>>, message: Seq<char>) -> bool {
    exists|i: int|
        0 <= i < ids.len() && (forall|j: int| 0 <= j < i ==> #[trigger] item_available(snapshots, ids[j]))
            && if holds_item(snapshots, #[trigger] ids[i]) {
                message == "条目当前不可执行: "@ + ids[i]
            } else {
                message == "条目不属于指定扫描会话: "@ + ids[i]
            }
}

/// Picks the items of a plan from a scan session: each requested id must name
/// an item of the session that may be executed now.
pub fn select_plan_items(snapshots: &Vec<CleanupSnapshot>, item_ids: &Vec<String>) -> (r: Result<PlanSelection, String>)
    ensures
        r is Ok <==> forall|i: int| 0 <= i < item_ids@.len() ==> #[trigger] item_available(snapshots@, views(item_ids@)[i]),
        r matches Ok(selection) ==> selects(snapshots@, views(item_ids@), selection),
        r matches Err(message) ==> selection_refused(snapshots@, views(item_ids@), message@),
{
    let mut selection = PlanSelection {
        items: Vec::new(),
        snapshots: Vec::new(),
        irreversible_item_ids: Vec::new(),
        total_files: 0,
        total_bytes: 0,
        quarantine_files: 0,
        quarantine_bytes: 0,
    };
    let ghost ids = views(item_ids@);
    let mut i: usize = 0;
    assert(views(selection.irreversible_item_ids@) =~= irreversible_ids(selection.items@));
    while i < item_ids.len()
        invariant
            0 <= i <= item_ids@.len(),
            ids == views(item_ids@),
            forall|j: int| 0 <= j < i ==> #[trigger] item_available(snapshots@, ids[j]),
            selects(snapshots@, ids.take(i as int), selection),
        decreases item_ids@.len() - i,
    {
        assert(ids[i as int] == item_ids@[i as int]@);
        let k = match find_snapshot(snapshots, &item_ids[i]) {
            Some(k) => k,
            None => {
                assert forall|k2: int| !is_first_match(snapshots@, ids[i as int], k2) by {
                    if is_first_match(snapshots@, ids[i as int], k2) {
                        assert(snapshots@[k2].item.id@ == ids[i as int]);
                    }
                }
                assert(!item_available(snapshots@, ids[i as int]));
                return Err(message_with("条目不属于指定扫描会话: ", &item_ids[i]));
            },
        };
        let snapshot = &snapshots[k];
        if snapshot.item.blocked_reason.is_some() {
            assert(holds_item(snapshots@, ids[i as int]));
            assert forall|k2: int| is_first_match(snapshots@, ids[i as int], k2) implies k2 == k by {
                if k2 < k {
                    assert(snapshots@[k2].item.id@ != ids[i as int]);
                } else if k2 > k {
                    assert(snapshots@[k as int].item.id@ != ids[i as int]);
                }
            }
            assert(!item_available(snapshots@, ids[i as int]));
            return Err(message_with("条目当前不可执行: ", &item_ids[i]));
        }
        assert(item_available(snapshots@, ids[i as int]));
        let item = snapshot.item.copy_item();
        let ghost old_items = selection.items@;
        let ghost old_snapshots = selection.snapshots@;
        if item.risk == RiskLevel::High && item.delete_mode == DeleteMode::Permanent {
            selection.irreversible_item_ids.push(item.id.clone());
        }
        if item.delete_mode == DeleteMode::Quarantine {
            proof {
                lemma_saturating_step(selection.quarantine_files as int, quarantine_files(old_items), item.file_count as int, usize::MAX as int);
                lemma_saturating_step(selection.quarantine_bytes as int, quarantine_bytes(old_items), item.size_bytes as int, u64::MAX as int);
            }
            selection.quarantine_files = selection.quarantine_files.saturating_add(item.file_count);
            selection.quarantine_bytes = selection.quarantine_bytes.saturating_add(item.size_bytes);
        }
        proof {
            lemma_saturating_step(selection.total_files as int, sum_files(old_items), item.file_count as int, usize::MAX as int);
            lemma_saturating_step(selection.total_bytes as int, sum_bytes(old_items), item.size_bytes as int, u64::MAX as int);
        }
        selection.total_files = selection.total_files.saturating_add(item.file_count);
        selection.total_bytes = selection.total_bytes.saturating_add(item.size_bytes);
        selection.items.push(item);
        selection.snapshots.push(snapshot.copy_snapshot());
        proof {
            let items = selection.items@;
            assert(items.drop_last() =~= old_items);
            assert(items.last() == item);
            assert(sum_files(items) == sum_files(old_items) + item.file_count);
            assert(sum_bytes(items) == sum_bytes(old_items) + item.size_bytes);
            assert(selection.total_files == saturate_usize(sum_files(items)));
            assert(selection.total_bytes == saturate_u64(sum_bytes(items)));
            assert(selection.quarantine_files == saturate_usize(quarantine_files(items)));
            assert(selection.quarantine_bytes == saturate_u64(quarantine_bytes(items)));
            assert(views(selection.irreversible_item_ids@) =~= irreversible_ids(items));
            assert(ids.take(i + 1).drop_last() =~= ids.take(i as int));
            assert forall|a: int| 0 <= a < i + 1 implies #[trigger] picked(
                snapshots@,
                ids.take(i + 1)[a],
                selection.items@[a],
                selection.snapshots@[a],
            ) by {
                if a == i {
                    assert(is_first_match(snapshots@, ids.take(i + 1)[a], k as int));
                } else {
                    assert(ids.take(i + 1)[a] == ids.take(i as int)[a]);
                    assert(selection.items@[a] == old_items[a]);
                    assert(selection.snapshots@[a] == old_snapshots[a]);
                    assert(picked(snapshots@, ids.take(i as int)[a], old_items[a], old_snapshots[a]));
                }
            }
            assert(selects(snapshots@, ids.take(i + 1), selection));
        }
        i = i + 1;
    }
    assert(ids.take(item_ids@.len() as int) =~= ids);
    Ok(selection)
}


/// Whether `k` is the first plan stored under `id`.
pub open spec fn is_first_plan(plans: Seq<StoredPlan>, id: u128, k: int) -> bool {
    0 <= k < plans.len() && plans[k].plan_id == id && forall|j: int|
        0 <= j < k ==> #[trigger] plans[j].plan_id != id
}

/// Whether `k` is the first session recorded under `id`.
pub open spec fn is_first_scan(scans: Seq<ScanSession>, id: u128, k: int) -> bool {
    0 <= k < scans.len() && scans[k].scan_id == id && forall|j: int|
        0 <= j < k ==> #[trigger] scans[j].scan_id != id
}

fn find_plan_index(plans: &Vec<StoredPlan>, id: u128) -> (r: Option<usize>)
    ensures
        match r {
            Some(k) => is_first_plan(plans@, id, k as int),
            None => !has_plan(plans@, id),
        },
{
    let mut k: usize = 0;
    while k < plans.len()
        invariant
            0 <= k <= plans@.len(),
            forall|j: int| 0 <= j < k ==> #[trigger] plans@[j].plan_id != id,
        decreases plans@.len() - k,
    {
        if plans[k].plan_id == id {
            return Some(k);
        }
        k = k + 1;
    }
    None
}

fn find_scan_index(scans: &Vec<ScanSession>, id: u128) -> (r: Option<usize>)
    ensures
        match r {
            Some(k) => is_first_scan(scans@, id, k as int),
            None => !has_scan(scans@, id),
        },
{
    let mut k: usize = 0;
    while k < scans.len()
        invariant
            0 <= k <= scans@.len(),
            forall|j: int| 0 <= j < k ==> #[trigger] scans@[j].scan_id != id,
        decreases scans@.len() - k,
    {
        if scans[k].scan_id == id {
            return Some(k);
        }
        k = k + 1;
    }
    None
}

/// Whether two previews say the same.
pub open spec fn same_preview(a: CleanupPlanPreview, b: CleanupPlanPreview) -> bool {
    &&& a.plan_id == b.plan_id
    &&& a.scan_id == b.scan_id
    &&& a.rule_version == b.rule_version
    &&& a.created_at_ms == b.created_at_ms
    &&& a.expires_at_ms == b.expires_at_ms
    &&& a.items@ == b.items@
    &&& a.total_items == b.total_items
    &&& a.total_files == b.total_files
    &&& a.total_bytes == b.total_bytes
    &&& a.irreversible_item_ids@ == b.irreversible_item_ids@
}

fn copy_items(items: &Vec<CleanupItem>) -> (r: Vec<CleanupItem>)
    ensures
        r@ == items@,
{
    let mut out: Vec<CleanupItem> = Vec::new();
    let mut i: usize = 0;
    while i < items.len()
        invariant
            0 <= i <= items@.len(),
            out@ == items@.take(i as int),
        decreases items@.len() - i,
    {
        out.push(items[i].copy_item());
        assert(items@.take(i + 1) == items@.take(i as int).push(items@[i as int]));
        i = i + 1;
    }
    assert(items@.take(items@.len() as int) == items@);
    out
}

fn copy_texts(texts: &Vec<String>) -> (r: Vec<String>)
    ensures
        r@ == texts@,
{
    let mut out: Vec<String> = Vec::new();
    let mut i: usize = 0;
    while i < texts.len()
        invariant
            0 <= i <= texts@.len(),
            out@ == texts@.take(i as int),
        decreases texts@.len() - i,
    {
        out.push(texts[i].clone());
        assert(texts@.take(i + 1) == texts@.take(i as int).push(texts@[i as int]));
        i = i + 1;
    }
    assert(texts@.take(texts@.len() as int) == texts@);
    out
}

fn copy_preview(preview: &CleanupPlanPreview) -> (r: CleanupPlanPreview)
    ensures
        same_preview(r, *preview),
{
    CleanupPlanPreview {
        plan_id: preview.plan_id.clone(),
        scan_id: preview.scan_id.clone(),
        rule_version: preview.rule_version.clone(),
        created_at_ms: preview.created_at_ms,
        expires_at_ms: preview.expires_at_ms,
        items: copy_items(&preview.items),
        total_items: preview.total_items,
        total_files: preview.total_files,
        total_bytes: preview.total_bytes,
        irreversible_item_ids: copy_texts(&preview.irreversible_item_ids),
    }
}

/// The items of the snapshots, in order.
pub open spec fn snapshot_items(snapshots: Seq<CleanupSnapshot>) -> Seq<CleanupItem> {
    snapshots.map_values(|s: CleanupSnapshot| s.item)
}

/// `a + b`, saturating at the largest `u64`.
pub open spec fn saturating_sum(a: u64, b: u64) -> u64 {
    if a + b > u64::MAX {
        u64::MAX
    } else {
        (a + b) as u64
    }
}

/// Whether the position `j` is the first whose id occurred before it.
pub open spec fn first_repeat_at(ids: Seq<Seq<char>>, j: int) -> bool {
    0 <= j < ids.len() && distinct_texts(ids.take(j)) && exists|k: int| 0 <= k < j && ids[k] == ids[j]
}

fn occurs_before_in_snapshots(snapshots: &Vec<CleanupSnapshot>, i: usize) -> (r: bool)
    requires
        i < snapshots@.len(),
    ensures
        r == exists|k: int| 0 <= k < i && snapshots@[k].item.id@ == snapshots@[i as int].item.id@,
{
    let target = crate::text::chars_of(snapshots[i].item.id.as_str());
    let mut k: usize = 0;
    while k < i
        invariant
            0 <= k <= i < snapshots@.len(),
            target@ == snapshots@[i as int].item.id@,
            forall|a: int| 0 <= a < k ==> snapshots@[a].item.id@ != snapshots@[i as int].item.id@,
        decreases i - k,
    {
        let candidate = crate::text::chars_of(snapshots[k].item.id.as_str());
        if crate::apps::vec_eq(&candidate, &target) {
            return true;
        }
        k = k + 1;
    }
    false
}

/// The items of the snapshots when no two share an id; otherwise the
/// position of the first snapshot whose id repeats an earlier one.
fn scan_items(snapshots: &Vec<CleanupSnapshot>) -> (r: Result<Vec<CleanupItem>, usize>)
    ensures
        match r {
            Ok(items) => items@ == snapshot_items(snapshots@) && distinct_texts(
                crate::cleanup_plan::store::snapshot_ids(snapshots@),
            ),
            Err(j) => first_repeat_at(snapshot_ids(snapshots@), j as int),
        },
{
    let ghost ids = snapshot_ids(snapshots@);
    let mut items: Vec<CleanupItem> = Vec::new();
    let mut i: usize = 0;
    while i < snapshots.len()
        invariant
            0 <= i <= snapshots@.len(),
            ids == snapshot_ids(snapshots@),
            distinct_texts(ids.take(i as int)),
            items@ == snapshot_items(snapshots@).take(i as int),
        decreases snapshots@.len() - i,
    {
        if occurs_before_in_snapshots(snapshots, i) {
            let ghost k = choose|k: int| 0 <= k < i && snapshots@[k].item.id@ == snapshots@[i as int].item.id@;
            assert(ids[k] == ids[i as int]);
            return Err(i);
        }
        assert forall|a: int, b: int| 0 <= a < b < i + 1 implies #[trigger] ids.take(i + 1)[a]
            != #[trigger] ids.take(i + 1)[b] by {
            if b < i {
                assert(ids.take(i as int)[a] != ids.take(i as int)[b]);
            } else {
                assert(ids[a] == snapshots@[a].item.id@);
            }
        }
        items.push(snapshots[i].item.copy_item());
        assert(snapshot_items(snapshots@).take(i + 1) =~= snapshot_items(snapshots@).take(i as int).push(snapshots@[i as int].item));
        i = i + 1;
    }
    assert(ids.take(snapshots@.len() as int) =~= ids);
    assert(snapshot_items(snapshots@).take(snapshots@.len() as int) =~= snapshot_items(snapshots@));
    Ok(items)
}

/// The ids of the snapshots' items, in order.
pub open spec fn snapshot_ids(snapshots: Seq<CleanupSnapshot>) -> Seq<Seq<char>> {
    snapshots.map_values(|s: CleanupSnapshot| s.item.id@)
}


/// The refusal for a plan whose quarantined part is too large.
pub open spec fn quarantine_limit_message() -> Seq<char> {
    "实验性隔离计划最多包含 100 个文件、总计 1 GiB"@
}

impl CleanupPlanStore {
    /// An empty store with the standard lifetimes and limits.
    pub fn new() -> (store: Self)
        ensures
            store.config.scan_ttl_ms == DEFAULT_SCAN_TTL_MS,
            store.config.plan_ttl_ms == DEFAULT_PLAN_TTL_MS,
            store.config.max_scan_sessions == DEFAULT_MAX_SCAN_SESSIONS,
            store.config.max_plans == DEFAULT_MAX_PLANS,
            store.scans@.len() == 0,
            store.plans@.len() == 0,
    {
        Self::with_config(StoreConfig::default())
    }

    /// An empty store with the given lifetimes and limits.
    pub fn with_config(config: StoreConfig) -> (store: Self)
        ensures
            store.config == config,
            store.scans@.len() == 0,
            store.plans@.len() == 0,
    {
        CleanupPlanStore { config, scans: Vec::new(), plans: Vec::new() }
    }

    /// Drops the sessions and plans that have expired at `now`.
    pub fn purge_expired(&mut self, now_ms: u64)
        ensures
            final(self).config == old(self).config,
            final(self).scans@ == live_scans(old(self).scans@, now_ms),
            final(self).plans@ == live_plans(old(self).plans@, now_ms),
    {
        let mut scans: Vec<ScanSession> = Vec::new();
        core::mem::swap(&mut scans, &mut self.scans);
        self.scans = keep_live_scans(scans, now_ms);
        let mut plans: Vec<StoredPlan> = Vec::new();
        core::mem::swap(&mut plans, &mut self.plans);
        self.plans = keep_live_plans(plans, now_ms);
    }

    /// Records the snapshots of a scan under a fresh identifier, after dropping
    /// expired entries and evicting the oldest sessions beyond the limit.
    /// Refused, with nothing changed, when two snapshots share an item id.
    pub fn record_scan_at(&mut self, rule_version: &str, snapshots: Vec<CleanupSnapshot>, now_ms: u64) -> (r: Result<CleanupScanResponse, String>)
        ensures
            final(self).config == old(self).config,
            r is Ok <==> distinct_texts(snapshot_ids(snapshots@)),
            r matches Err(message) ==> exists|j: int|
                first_repeat_at(snapshot_ids(snapshots@), j) && message@ == "扫描结果包含重复规则条目: "@
                    + #[trigger] snapshot_ids(snapshots@)[j],
            r is Err ==> final(self).scans@ == old(self).scans@ && final(self).plans@ == old(self).plans@,
            r matches Ok(response) ==> {
                let session = final(self).scans@.last();
                &&& final(self).scans@.len() > 0
                &&& response.scan_id@ == hyphenated(session.scan_id)
                &&& response.rule_version@ == rule_version@
                &&& response.expires_at_ms == saturating_sum(now_ms, old(self).config.scan_ttl_ms)
                &&& response.items@ == snapshot_items(snapshots@)
                &&& session.rule_version@ == rule_version@
                &&& session.created_at_ms == now_ms
                &&& session.expires_at_ms == response.expires_at_ms
                &&& session.snapshots@ == snapshots@
                &&& final(self).scans@.len() <= effective_limit(old(self).config.max_scan_sessions)
                &&& forall|i: int| 0 <= i < final(self).scans@.len() - 1 ==> live_scans(old(self).scans@, now_ms).contains(#[trigger] final(self).scans@[i])
                &&& !has_scan(final(self).scans@.drop_last(), session.scan_id)
                &&& final(self).plans@ == live_plans(old(self).plans@, now_ms)
            },
    {
        let items = match scan_items(&snapshots) {
            Ok(items) => items,
            Err(j) => {
                return Err(message_with("扫描结果包含重复规则条目: ", &snapshots[j].item.id));
            },
        };
        let scan_id = new_random_id();
        let expires_at_ms = now_ms.saturating_add(self.config.scan_ttl_ms);
        self.purge_expired(now_ms);
        let ghost live = self.scans@;
        let mut scans: Vec<ScanSession> = Vec::new();
        core::mem::swap(&mut scans, &mut self.scans);
        let evicted = evict_oldest_scans(scans, self.config.max_scan_sessions);
        let ghost evicted_view = evicted@;
        let mut kept = drop_scan(evicted, scan_id);
        proof {
            lemma_without_scan_subset(evicted_view, scan_id);
        }
        kept.push(ScanSession {
            scan_id,
            rule_version: rule_version.to_string(),
            created_at_ms: now_ms,
            expires_at_ms,
            snapshots,
        });
        self.scans = kept;
        Ok(CleanupScanResponse {
            scan_id: format_id(scan_id),
            rule_version: rule_version.to_string(),
            expires_at_ms,
            items,
        })
    }
}

/// Dropping the sessions of one id keeps the others, drops every one of that
/// id and never adds any.
pub proof fn lemma_without_scan_subset(scans: Seq<ScanSession>, id: u128)
    ensures
        without_scan(scans, id).len() <= scans.len(),
        forall|i: int| 0 <= i < without_scan(scans, id).len() ==> scans.contains(#[trigger] without_scan(scans, id)[i]),
        !has_scan(without_scan(scans, id), id),
    decreases scans.len(),
{
    if scans.len() > 0 {
        lemma_without_scan_subset(scans.drop_first(), id);
        let rest = without_scan(scans.drop_first(), id);
        let w = without_scan(scans, id);
        assert forall|i: int| 0 <= i < w.len() implies scans.contains(#[trigger] w[i]) by {
            if scans[0].scan_id != id {
                if i == 0 {
                    assert(scans[0] == w[0]);
                } else {
                    assert(w[i] == rest[i - 1]);
                    let k = choose|k: int| 0 <= k < scans.drop_first().len() && scans.drop_first()[k] == rest[i - 1];
                    assert(scans[k + 1] == w[i]);
                }
            } else {
                assert(w[i] == rest[i]);
                let k = choose|k: int| 0 <= k < scans.drop_first().len() && scans.drop_first()[k] == rest[i];
                assert(scans[k + 1] == w[i]);
            }
        }
        if has_scan(w, id) {
            let i = choose|i: int| 0 <= i < w.len() && #[trigger] w[i].scan_id == id;
            if scans[0].scan_id != id {
                assert(i > 0);
                assert(rest[i - 1].scan_id == id);
            } else {
                assert(rest[i].scan_id == id);
            }
        }
    }
}


impl CleanupPlanStore {
    /// Builds a plan from items of a live scan session and stores it under a
    /// fresh identifier, after dropping expired entries and evicting the
    /// oldest plans beyond the limit.
    pub fn create_plan_at(&mut self, request: &CreateCleanupPlanRequest, now_ms: u64) -> (r: Result<CleanupPlanPreview, String>)
        ensures
            final(self).config == old(self).config,
            // Requests that are refused before the store is consulted change nothing.
            !(1 <= request.item_ids@.len() <= MAX_PLAN_ITEMS && distinct_texts(views(request.item_ids@))) ==> {
                &&& r matches Err(message) && message@ == (if request.item_ids@.len() == 0
                    || request.item_ids@.len() > MAX_PLAN_ITEMS {
                    plan_size_message()
                } else {
                    duplicate_items_message()
                })
                &&& final(self).scans@ == old(self).scans@ && final(self).plans@ == old(self).plans@
            },
            (1 <= request.item_ids@.len() <= MAX_PLAN_ITEMS && distinct_texts(views(request.item_ids@)))
                && parsed_uuid(request.scan_id@) is None ==> {
                &&& r matches Err(message) && message@ == "扫描会话 ID 格式无效"@
                &&& final(self).scans@ == old(self).scans@ && final(self).plans@ == old(self).plans@
            },
            (1 <= request.item_ids@.len() <= MAX_PLAN_ITEMS && distinct_texts(views(request.item_ids@)))
                && parsed_uuid(request.scan_id@) is Some ==> {
                let scan_id = parsed_uuid(request.scan_id@)->0;
                let live = live_scans(old(self).scans@, now_ms);
                &&& final(self).scans@ == live
                &&& !has_scan(live, scan_id) ==> (r matches Err(message) && message@
                    == "扫描会话不存在或已过期，请重新扫描"@ && final(self).plans@ == live_plans(
                    old(self).plans@,
                    now_ms,
                ))
                &&& forall|k: int| #[trigger] is_first_scan(live, scan_id, k) ==> {
                    let session = live[k];
                    let ids = views(request.item_ids@);
                    let available = forall|i: int| 0 <= i < ids.len() ==> #[trigger] item_available(session.snapshots@, ids[i]);
                    &&& !available ==> (r matches Err(message) && selection_refused(session.snapshots@, ids, message@))
                        && final(self).plans@ == live_plans(old(self).plans@, now_ms)
                    &&& r matches Ok(preview) ==> {
                        let stored = final(self).plans@.last();
                        &&& available
                        &&& preview.plan_id@ == hyphenated(stored.plan_id)
                        &&& preview.scan_id@ == hyphenated(session.scan_id)
                        &&& preview.rule_version == session.rule_version
                        &&& preview.created_at_ms == now_ms
                        &&& preview.expires_at_ms == saturating_sum(now_ms, old(self).config.plan_ttl_ms)
                        &&& preview.total_items == ids.len()
                        &&& same_preview(stored.plan.preview, preview)
                        &&& preview.items@ == selected_items(session.snapshots@, ids)
                        &&& stored.plan.snapshots@.len() == ids.len()
                        &&& forall|i: int| 0 <= i < ids.len() ==> #[trigger] picked(
                            session.snapshots@,
                            ids[i],
                            preview.items@[i],
                            stored.plan.snapshots@[i],
                        )
                        &&& views(preview.irreversible_item_ids@) == irreversible_ids(preview.items@)
                        &&& preview.total_files == saturate_usize(sum_files(preview.items@))
                        &&& preview.total_bytes == saturate_u64(sum_bytes(preview.items@))
                        &&& saturate_usize(quarantine_files(preview.items@)) <= MAX_QUARANTINE_PLAN_FILES
                        &&& saturate_u64(quarantine_bytes(preview.items@)) <= MAX_QUARANTINE_PLAN_BYTES
                        &&& final(self).plans@.len() <= effective_limit(old(self).config.max_plans)
                        &&& forall|i: int| 0 <= i < final(self).plans@.len() - 1 ==> live_plans(old(self).plans@, now_ms).contains(#[trigger] final(self).plans@[i])
                        &&& !has_plan(final(self).plans@.drop_last(), stored.plan_id)
                    }
                    &&& r matches Err(message) ==> (available ==> (message@ == quarantine_limit_message()
                        && final(self).plans@ == live_plans(old(self).plans@, now_ms)
                        && !(saturate_usize(quarantine_files(selected_items(session.snapshots@, ids)))
                        <= MAX_QUARANTINE_PLAN_FILES && saturate_u64(
                        quarantine_bytes(selected_items(session.snapshots@, ids)),
                    ) <= MAX_QUARANTINE_PLAN_BYTES)))
                }
            },
    {
        match validate_requested_item_ids(&request.item_ids) {
            Ok(()) => {},
            Err(message) => return Err(message),
        }
        let scan_id = match parse_id_text(request.scan_id.as_str()) {
            Some(id) => id,
            None => return Err("扫描会话 ID 格式无效".to_string()),
        };
        self.purge_expired(now_ms);
        let k = match find_scan_index(&self.scans, scan_id) {
            Some(k) => k,
            None => return Err("扫描会话不存在或已过期，请重新扫描".to_string()),
        };
        let ghost live = self.scans@;
        let ghost live_plan_view = self.plans@;
        let selection = match select_plan_items(&self.scans[k].snapshots, &request.item_ids) {
            Ok(selection) => selection,
            Err(message) => {
                proof {
                    assert forall|k2: int| #[trigger] is_first_scan(live, scan_id, k2) implies k2 == k by {
                        if k2 < k {
                            assert(live[k2].scan_id != scan_id);
                        } else if k2 > k {
                            assert(live[k as int].scan_id != scan_id);
                        }
                    }
                }
                return Err(message);
            },
        };
        proof {
            assert forall|k2: int| #[trigger] is_first_scan(live, scan_id, k2) implies k2 == k by {
                if k2 < k {
                    assert(live[k2].scan_id != scan_id);
                } else if k2 > k {
                    assert(live[k as int].scan_id != scan_id);
                }
            }
            lemma_selection_items(live[k as int].snapshots@, views(request.item_ids@), selection);
        }
        if selection.quarantine_files > MAX_QUARANTINE_PLAN_FILES || selection.quarantine_bytes
            > MAX_QUARANTINE_PLAN_BYTES {
            return Err("实验性隔离计划最多包含 100 个文件、总计 1 GiB".to_string());
        }
        let plan_id = new_random_id();
        let session = &self.scans[k];
        let total_items = selection.items.len();
        let preview = CleanupPlanPreview {
            plan_id: format_id(plan_id),
            scan_id: format_id(session.scan_id),
            rule_version: session.rule_version.clone(),
            created_at_ms: now_ms,
            expires_at_ms: now_ms.saturating_add(self.config.plan_ttl_ms),
            items: selection.items,
            total_items,
            total_files: selection.total_files,
            total_bytes: selection.total_bytes,
            irreversible_item_ids: selection.irreversible_item_ids,
        };
        let stored_preview = copy_preview(&preview);
        let mut plans: Vec<StoredPlan> = Vec::new();
        core::mem::swap(&mut plans, &mut self.plans);
        let evicted = evict_oldest_plans(plans, self.config.max_plans);
        let ghost evicted_view = evicted@;
        let mut kept = drop_plan(evicted, plan_id);
        proof {
            lemma_without_plan_subset(evicted_view, plan_id);
        }
        kept.push(StoredPlan {
            plan_id,
            plan: CleanupPlan { preview: stored_preview, snapshots: selection.snapshots },
        });
        self.plans = kept;
        Ok(preview)
    }

    /// Hands out a confirmed plan and removes it, so that it is executed at
    /// most once. A plan whose irreversible items are not all confirmed stays
    /// stored.
    pub fn take_confirmed_plan_at(&mut self, request: &ExecuteCleanupPlanRequest, now_ms: u64) -> (r: Result<CleanupPlan, String>)
        ensures
            final(self).config == old(self).config,
            !request.confirmed ==> (r matches Err(message) && message@ == "必须确认清理操作"@
                && final(self).scans@ == old(self).scans@ && final(self).plans@ == old(self).plans@),
            request.confirmed && parsed_uuid(request.plan_id@) is None ==> (r matches Err(message)
                && message@ == "清理计划 ID 格式无效"@ && final(self).scans@ == old(self).scans@
                && final(self).plans@ == old(self).plans@),
            request.confirmed && parsed_uuid(request.plan_id@) is Some ==> {
                let id = parsed_uuid(request.plan_id@)->0;
                let live = live_plans(old(self).plans@, now_ms);
                &&& final(self).scans@ == live_scans(old(self).scans@, now_ms)
                &&& !has_plan(live, id) ==> (r matches Err(message) && message@
                    == "清理计划不存在、已过期或已经执行"@ && final(self).plans@ == live)
                &&& forall|k: int| #[trigger] is_first_plan(live, id, k) ==> {
                    let preview = live[k].plan.preview;
                    let confirmed = views(request.confirmed_irreversible_item_ids@);
                    let valid = confirmations_well_formed(preview.items@, views(preview.irreversible_item_ids@), confirmed)
                        && all_irreversible_confirmed(views(preview.irreversible_item_ids@), confirmed);
                    &&& r is Ok <==> valid
                    &&& r matches Ok(plan) ==> plan == live[k].plan && final(self).plans@ == without_plan(live, id)
                    &&& r matches Err(message) ==> final(self).plans@ == live && message@ == (if !confirmations_well_formed(
                        preview.items@,
                        views(preview.irreversible_item_ids@),
                        confirmed,
                    ) {
                        "不可恢复内容确认列表无效"@
                    } else {
                        "清理计划包含未明确确认的不可恢复内容"@
                    })
                }
            },
    {
        if !request.confirmed {
            return Err("必须确认清理操作".to_string());
        }
        let plan_id = match parse_id_text(request.plan_id.as_str()) {
            Some(id) => id,
            None => return Err("清理计划 ID 格式无效".to_string()),
        };
        self.purge_expired(now_ms);
        let ghost live = self.plans@;
        let k = match find_plan_index(&self.plans, plan_id) {
            Some(k) => k,
            None => return Err("清理计划不存在、已过期或已经执行".to_string()),
        };
        proof {
            assert forall|k2: int| #[trigger] is_first_plan(live, plan_id, k2) implies k2 == k by {
                if k2 < k {
                    assert(live[k2].plan_id != plan_id);
                } else if k2 > k {
                    assert(live[k as int].plan_id != plan_id);
                }
            }
        }
        match validate_irreversible_confirmations(
            &self.plans[k].plan.preview.items,
            &self.plans[k].plan.preview.irreversible_item_ids,
            &request.confirmed_irreversible_item_ids,
        ) {
            Ok(()) => {},
            Err(message) => return Err(message),
        }
        let mut plans: Vec<StoredPlan> = Vec::new();
        core::mem::swap(&mut plans, &mut self.plans);
        let stored = plans.remove(k);
        let ghost rest = plans@;
        self.plans = drop_plan(plans, plan_id);
        proof {
            lemma_without_plan_skips(live, plan_id, k as int);
        }
        Ok(stored.plan)
    }
}

/// Dropping the plans of one id keeps the others, drops every one of that
/// id and never adds any.
pub proof fn lemma_without_plan_subset(plans: Seq<StoredPlan>, id: u128)
    ensures
        without_plan(plans, id).len() <= plans.len(),
        forall|i: int| 0 <= i < without_plan(plans, id).len() ==> plans.contains(#[trigger] without_plan(plans, id)[i]),
        !has_plan(without_plan(plans, id), id),
    decreases plans.len(),
{
    if plans.len() > 0 {
        lemma_without_plan_subset(plans.drop_first(), id);
        let rest = without_plan(plans.drop_first(), id);
        let w = without_plan(plans, id);
        assert forall|i: int| 0 <= i < w.len() implies plans.contains(#[trigger] w[i]) by {
            if plans[0].plan_id != id {
                if i == 0 {
                    assert(plans[0] == w[0]);
                } else {
                    assert(w[i] == rest[i - 1]);
                    let k = choose|k: int| 0 <= k < plans.drop_first().len() && plans.drop_first()[k] == rest[i - 1];
                    assert(plans[k + 1] == w[i]);
                }
            } else {
                assert(w[i] == rest[i]);
                let k = choose|k: int| 0 <= k < plans.drop_first().len() && plans.drop_first()[k] == rest[i];
                assert(plans[k + 1] == w[i]);
            }
        }
        lemma_without_plan_removes(plans, id);
    }
}

/// Removing the entry at `k`, stored under `id`, and then every other entry
/// under `id` is the same as removing every entry under `id`.
pub proof fn lemma_without_plan_skips(plans: Seq<StoredPlan>, id: u128, k: int)
    requires
        0 <= k < plans.len(),
        plans[k].plan_id == id,
    ensures
        without_plan(plans.remove(k), id) == without_plan(plans, id),
    decreases plans.len(),
{
    if k == 0 {
        assert(plans.remove(0) =~= plans.drop_first());
    } else {
        lemma_without_plan_skips(plans.drop_first(), id, k - 1);
        assert(plans.remove(k).drop_first() =~= plans.drop_first().remove(k - 1));
        assert(plans.remove(k)[0] == plans[0]);
    }
}

} // verus!
