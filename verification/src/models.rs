use vstd::prelude::*;

verus! {

/// A fixed disk as the client lists it.
#[derive(Clone, Debug)]
pub struct DiskInfo {
    pub id: String,
    pub name: String,
    pub mount: String,
    pub total_bytes: u64,
    pub free_bytes: u64,
}

/// How much a cleanup item may hurt the user if it is removed.
#[derive(Clone, Copy, Debug, PartialEq, Eq, Structural)]
pub enum RiskLevel {
    Low,
    Medium,
    High,
}

/// How the files of a cleanup item are removed.
#[derive(Clone, Copy, Debug, PartialEq, Eq, Structural)]
pub enum DeleteMode {
    Permanent,
    RecycleBin,
    Quarantine,
}

/// One rule's findings as the user sees them.
#[derive(Clone, Debug)]
pub struct CleanupItem {
    pub id: String,
    pub category: String,
    pub name: String,
    pub path: String,
    pub description: String,
    pub blocked_reason: Option<String>,
    pub size_bytes: u64,
    pub file_count: usize,
    pub risk: RiskLevel,
    pub delete_mode: DeleteMode,
}

/// A copy of an optional string, equal to it.
pub fn copy_optional_text(value: &Option<String>) -> (copy: Option<String>)
    ensures
        copy == *value,
{
    match value {
        Some(text) => Some(text.clone()),
        None => None,
    }
}

impl CleanupItem {
    /// A copy of the item, equal to it field by field.
    pub fn copy_item(&self) -> (copy: CleanupItem)
        ensures
            copy == *self,
    {
        CleanupItem {
            id: self.id.clone(),
            category: self.category.clone(),
            name: self.name.clone(),
            path: self.path.clone(),
            description: self.description.clone(),
            blocked_reason: copy_optional_text(&self.blocked_reason),
            size_bytes: self.size_bytes,
            file_count: self.file_count,
            risk: self.risk,
            delete_mode: self.delete_mode,
        }
    }
}

/// An item that could not be cleaned, with the reason.
#[derive(Clone, Debug)]
pub struct ItemFailure {
    pub id: String,
    pub error: String,
    pub path: Option<String>,
}

/// The outcome of executing a cleanup plan.
#[derive(Clone, Debug)]
pub struct ExecuteResult {
    pub reclaimed_bytes: u64,
    pub staged_bytes: u64,
    pub succeeded: usize,
    pub failed: Vec<ItemFailure>,
}

/// Progress of a running cleanup, as reported to the user interface.
#[derive(Clone, Debug)]
pub struct CleanupProgress {
    pub phase: String,
    pub completed_items: usize,
    pub total_items: usize,
    pub completed_files: usize,
    pub total_files: usize,
    pub current_item_id: String,
    pub current_item_name: String,
    pub current_path: String,
    pub reclaimed_bytes: u64,
    pub failed_files: usize,
}

/// A request to delete large files found by a previous scan.
#[derive(Clone, Debug)]
pub struct LargeFileDeleteRequest {
    pub item_ids: Vec<String>,
    pub confirmed_permanent: bool,
}

/// The outcome of deleting large files.
#[derive(Clone, Debug)]
pub struct LargeFileDeleteResult {
    pub deleted_bytes: u64,
    pub succeeded_ids: Vec<String>,
    pub failed: Vec<ItemFailure>,
}

/// Progress of a running large-file deletion.
#[derive(Clone, Debug)]
pub struct LargeFileDeleteProgress {
    pub phase: String,
    pub completed: usize,
    pub total: usize,
    pub current_item_id: String,
    pub current_name: String,
    pub current_path: String,
    pub deleted_bytes: u64,
    pub failed: usize,
}

/// An installed application as the user sees it.
#[derive(Clone, Debug)]
pub struct AppEntry {
    pub id: String,
    pub name: String,
    pub publisher: String,
    pub version: String,
    pub size_bytes: u64,
    pub installed_at: String,
    pub uninstallable: bool,
}

/// A program that starts with Windows.
#[derive(Clone, Debug)]
pub struct StartupEntry {
    pub id: String,
    pub name: String,
    pub publisher: String,
    pub command: String,
    pub enabled: bool,
    pub impact: String,
    pub scope: String,
}

} // verus!
