use qingpan::cleanup_plan::store::{CleanupPlanStore, StoreConfig};
use qingpan::cleanup_plan::types::{CreateCleanupPlanRequest, ExecuteCleanupPlanRequest};
use qingpan::models::{CleanupItem, DeleteMode, RiskLevel};
use qingpan::quarantine::types::{MAX_QUARANTINE_PLAN_BYTES, MAX_QUARANTINE_PLAN_FILES};
use qingpan::scanner::CleanupSnapshot;

fn store(scan_ttl_ms: u64, plan_ttl_ms: u64) -> CleanupPlanStore {
    CleanupPlanStore::with_config(StoreConfig {
        scan_ttl_ms,
        plan_ttl_ms,
        max_scan_sessions: 4,
        max_plans: 8,
    })
}

fn snapshot_with_mode(
    id: &str,
    marker: &str,
    risk: RiskLevel,
    delete_mode: DeleteMode,
    file_count: usize,
    size_bytes: u64,
) -> CleanupSnapshot {
    CleanupSnapshot {
        item: CleanupItem {
            id: id.to_string(),
            category: "test".into(),
            name: id.to_string(),
            path: marker.to_string(),
            description: String::new(),
            blocked_reason: None,
            size_bytes,
            file_count,
            risk,
            delete_mode,
        },
        root: marker.to_string(),
        canonical_root: marker.to_string(),
        files: Vec::new(),
    }
}

fn snapshot(id: &str, marker: &str, risk: RiskLevel) -> CleanupSnapshot {
    snapshot_with_mode(id, marker, risk, DeleteMode::Permanent, 1, 1)
}

fn create_request(scan_id: &str, item_ids: &[&str]) -> CreateCleanupPlanRequest {
    CreateCleanupPlanRequest {
        scan_id: scan_id.to_string(),
        item_ids: item_ids.iter().map(|id| (*id).to_string()).collect(),
    }
}

fn execute_request(plan_id: &str, irreversible: &[&str]) -> ExecuteCleanupPlanRequest {
    ExecuteCleanupPlanRequest {
        plan_id: plan_id.to_string(),
        confirmed: true,
        confirmed_irreversible_item_ids: irreversible
            .iter()
            .map(|id| (*id).to_string())
            .collect(),
    }
}

#[test]
fn second_scan_does_not_replace_snapshots_bound_to_first_scan() {
    let mut store = store(1_000, 1_000);
    let first = store
        .record_scan_at(
            "rules-v1",
            vec![snapshot("cache", "first-scan", RiskLevel::Low)],
            100,
        )
        .expect("first scan should be stored");
    store
        .record_scan_at(
            "rules-v1",
            vec![snapshot("cache", "second-scan", RiskLevel::Low)],
            101,
        )
        .expect("second scan should be independent");
    let preview = store
        .create_plan_at(&create_request(&first.scan_id, &["cache"]), 102)
        .expect("first scan should still create a plan");
    assert_eq!(preview.items[0].path, "first-scan");
}

#[test]
fn plan_take_is_one_shot_in_sequence() {
    let mut store = store(1_000, 1_000);
    let scan = store
        .record_scan_at(
            "rules-v1",
            vec![snapshot("cache", "scan", RiskLevel::Low)],
            100,
        )
        .expect("scan should be stored");
    let plan = store
        .create_plan_at(&create_request(&scan.scan_id, &["cache"]), 101)
        .expect("plan should be created");
    let first = store.take_confirmed_plan_at(&execute_request(&plan.plan_id, &[]), 102);
    let second = store.take_confirmed_plan_at(&execute_request(&plan.plan_id, &[]), 102);
    assert!(first.is_ok());
    assert!(second.is_err());
    assert_eq!(first.unwrap().snapshots.len(), 1);
}

#[test]
fn duplicate_unknown_and_expired_requests_are_rejected() {
    let mut store = store(5, 5);
    let scan = store
        .record_scan_at(
            "rules-v1",
            vec![snapshot("cache", "scan", RiskLevel::Low)],
            100,
        )
        .expect("scan should be stored");
    assert!(store
        .create_plan_at(&create_request(&scan.scan_id, &["cache", "cache"]), 101)
        .expect_err("duplicates must fail")
        .contains("重复"));
    assert!(store
        .create_plan_at(&create_request(&scan.scan_id, &["unknown"]), 101)
        .expect_err("unknown item must fail")
        .contains("不属于"));
    assert!(store
        .create_plan_at(&create_request(&scan.scan_id, &["cache"]), 105)
        .expect_err("expired scan must fail")
        .contains("已过期"));

    let fresh = store
        .record_scan_at(
            "rules-v1",
            vec![snapshot("cache", "fresh", RiskLevel::Low)],
            200,
        )
        .expect("fresh scan should be stored");
    let plan = store
        .create_plan_at(&create_request(&fresh.scan_id, &["cache"]), 201)
        .expect("fresh plan should be created");
    assert!(store
        .take_confirmed_plan_at(&execute_request(&plan.plan_id, &[]), 206)
        .expect_err("expired plan must fail")
        .contains("已过期"));
}

#[test]
fn invalid_confirmation_does_not_consume_plan() {
    let mut store = store(1_000, 1_000);
    let scan = store
        .record_scan_at(
            "rules-v1",
            vec![snapshot("user-data", "scan", RiskLevel::High)],
            100,
        )
        .expect("scan should be stored");
    let plan = store
        .create_plan_at(&create_request(&scan.scan_id, &["user-data"]), 101)
        .expect("plan should be created");
    assert!(store
        .take_confirmed_plan_at(&execute_request(&plan.plan_id, &[]), 102)
        .expect_err("missing confirmation must fail")
        .contains("未明确确认"));
    assert!(store
        .take_confirmed_plan_at(&execute_request(&plan.plan_id, &["user-data"]), 103)
        .is_ok());
}

#[test]
fn quarantined_high_risk_item_is_not_marked_irreversible() {
    let mut store = store(1_000, 1_000);
    let snapshot = snapshot_with_mode(
        "recoverable",
        "scan",
        RiskLevel::High,
        DeleteMode::Quarantine,
        1,
        128,
    );
    let scan = store
        .record_scan_at("rules-v1", vec![snapshot], 100)
        .expect("scan should be stored");
    let plan = store
        .create_plan_at(&create_request(&scan.scan_id, &["recoverable"]), 101)
        .expect("quarantine plan should be created");

    assert!(plan.irreversible_item_ids.is_empty());
    assert!(store
        .take_confirmed_plan_at(&execute_request(&plan.plan_id, &[]), 102)
        .is_ok());
}

#[test]
fn quarantine_plan_limits_are_enforced_before_plan_storage() {
    let mut store = store(1_000, 1_000);
    let too_many = snapshot_with_mode(
        "too-many",
        "scan",
        RiskLevel::Low,
        DeleteMode::Quarantine,
        MAX_QUARANTINE_PLAN_FILES + 1,
        1,
    );
    let too_large = snapshot_with_mode(
        "too-large",
        "scan",
        RiskLevel::Low,
        DeleteMode::Quarantine,
        1,
        MAX_QUARANTINE_PLAN_BYTES + 1,
    );
    let scan = store
        .record_scan_at("rules-v1", vec![too_many, too_large], 100)
        .expect("scan should be stored");

    for id in ["too-many", "too-large"] {
        let error = store
            .create_plan_at(&create_request(&scan.scan_id, &[id]), 101)
            .expect_err("out-of-bounds quarantine plan must fail");
        assert!(error.contains("最多包含"));
    }
    assert!(store.plans.is_empty());
}

#[test]
fn unconfirmed_request_is_refused_and_keeps_the_plan() {
    let mut store = store(1_000, 1_000);
    let scan = store
        .record_scan_at("rules-v1", vec![snapshot("cache", "scan", RiskLevel::Low)], 100)
        .expect("scan should be stored");
    let plan = store
        .create_plan_at(&create_request(&scan.scan_id, &["cache"]), 101)
        .expect("plan should be created");
    let mut request = execute_request(&plan.plan_id, &[]);
    request.confirmed = false;
    assert!(store.take_confirmed_plan_at(&request, 102).is_err());
    assert_eq!(store.plans.len(), 1);
    assert!(store.take_confirmed_plan_at(&execute_request(&plan.plan_id, &[]), 102).is_ok());
    assert!(store.plans.is_empty());
}

#[test]
fn plan_totals_sum_the_selected_items() {
    let mut store = store(1_000, 1_000);
    let scan = store
        .record_scan_at(
            "rules-v1",
            vec![
                snapshot_with_mode("a", "a", RiskLevel::High, DeleteMode::Permanent, 3, 300),
                snapshot_with_mode("b", "b", RiskLevel::Medium, DeleteMode::Permanent, 2, 50),
                snapshot_with_mode("c", "c", RiskLevel::Low, DeleteMode::Permanent, 9, 900),
            ],
            100,
        )
        .expect("scan should be stored");
    assert_eq!(scan.items.len(), 3);
    assert_eq!(scan.expires_at_ms, 1_100);
    let preview = store
        .create_plan_at(&create_request(&scan.scan_id, &["b", "a"]), 101)
        .expect("plan should be created");
    assert!(store
        .take_confirmed_plan_at(&execute_request(&preview.plan_id, &["b"]), 102)
        .is_err());
    assert_eq!(preview.total_items, 2);
    assert_eq!(preview.total_files, 5);
    assert_eq!(preview.total_bytes, 350);
    assert_eq!(preview.irreversible_item_ids, vec!["a".to_string()]);
    assert_eq!(preview.scan_id, scan.scan_id);
}

#[test]
fn default_store_config_uses_the_documented_limits() {
    let config = StoreConfig::default();
    let store = CleanupPlanStore::new();
    assert_eq!(store.config.scan_ttl_ms, config.scan_ttl_ms);
    assert!(config.max_plans > 0 && config.max_scan_sessions > 0);
}
