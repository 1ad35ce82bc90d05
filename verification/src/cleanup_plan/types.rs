use vstd::prelude::*;
use crate::models::CleanupItem;
use crate::scanner::CleanupSnapshot;

verus! {

/// The version of the cleanup rules that scans and plans are bound to.
pub const CLEANUP_RULE_VERSION: &'static str = "cleanup-rules-v4";

/// What a recorded scan reports to the user interface.
#[derive(Clone, Debug)]
pub struct CleanupScanResponse {
    pub scan_id: String,
    pub rule_version: String,
    pub expires_at_ms: u64,
    pub items: Vec<CleanupItem>,
}

/// A request to plan the cleanup of some items of a scan.
#[derive(Clone, Debug)]
pub struct CreateCleanupPlanRequest {
    pub scan_id: String,
    pub item_ids: Vec<String>,
}

/// A plan as the user reviews it before confirming it.
#[derive(Clone, Debug)]
pub struct CleanupPlanPreview {
    pub plan_id: String,
    pub scan_id: String,
    pub rule_version: String,
    pub created_at_ms: u64,
    pub expires_at_ms: u64,
    pub items: Vec<CleanupItem>,
    pub total_items: usize,
    pub total_files: usize,
    pub total_bytes: u64,
    pub irreversible_item_ids: Vec<String>,
}

/// A request to execute a plan, with the user's confirmations.
#[derive(Clone, Debug)]
pub struct ExecuteCleanupPlanRequest {
    pub plan_id: String,
    pub confirmed: bool,
    pub confirmed_irreversible_item_ids: Vec<String>,
}

/// A plan and the scan snapshots it will execute.
#[derive(Clone, Debug)]
pub struct CleanupPlan {
    pub preview: CleanupPlanPreview,
    pub snapshots: Vec<CleanupSnapshot>,
}

} // verus!
