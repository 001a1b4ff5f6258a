//! The global and experimental endpoints: health, counters, repair queries,
//! worktrees and resources.

use vstd::prelude::*;
use crate::text::{opt_view, copy_opt};
use crate::text::owned;

verus! {

/// The answer to a health check.
pub struct GlobalHealthResponse {
    pub healthy: bool,
    pub version: String,
}

/// The health of a running server of version `version`: always healthy.
pub fn global_health(version: &str) -> (r: GlobalHealthResponse)
    ensures
        r.healthy,
        r.version@ == version@,
{
    GlobalHealthResponse { healthy: true, version: owned(version) }
}

/// The message-listing counters of the API.
pub struct GlobalPerfResponse {
    pub list_messages_calls: u64,
    pub list_messages_incremental_calls: u64,
    pub list_messages_full_calls: u64,
}

/// The answer to a diagnostics request, which reports nothing yet.
pub struct GlobalDiagnosticsResponse {}

/// The filters of a query over the model repairs recorded in sessions.
pub struct GlobalRepairQueryParams {
    pub provider_id: Option<String>,
    pub model_id: Option<String>,
    pub tool_name: Option<String>,
    pub repair_kind: Option<String>,
    pub layer: Option<String>,
    pub strict_only: bool,
    pub include_samples: bool,
    pub limit: Option<usize>,
}

/// A query over recorded model repairs. The repair kind is the requested
/// name, read into a kind by the repair store.
pub struct RepairQuery {
    pub provider_id: Option<String>,
    pub model_id: Option<String>,
    pub tool_name: Option<String>,
    pub repair_kind: Option<String>,
    pub layer: Option<String>,
    pub strict_only: Option<bool>,
    pub include_samples: Option<bool>,
    pub limit: Option<usize>,
}



impl GlobalRepairQueryParams {
    /// The repair query these parameters ask for: every filter carried over,
    /// and both flags always set.
    pub fn to_query(&self) -> (q: RepairQuery)
        ensures
            opt_view(q.provider_id) == opt_view(self.provider_id),
            opt_view(q.model_id) == opt_view(self.model_id),
            opt_view(q.tool_name) == opt_view(self.tool_name),
            opt_view(q.repair_kind) == opt_view(self.repair_kind),
            opt_view(q.layer) == opt_view(self.layer),
            q.strict_only == Some(self.strict_only),
            q.include_samples == Some(self.include_samples),
            q.limit == self.limit,
    {
        RepairQuery {
            provider_id: copy_opt(&self.provider_id),
            model_id: copy_opt(&self.model_id),
            tool_name: copy_opt(&self.tool_name),
            repair_kind: copy_opt(&self.repair_kind),
            layer: copy_opt(&self.layer),
            strict_only: Some(self.strict_only),
            include_samples: Some(self.include_samples),
            limit: self.limit,
        }
    }
}

/// A git worktree as the worktree module lists it.
pub struct WorktreeEntry {
    pub path: String,
    pub branch: String,
    pub head: String,
}

/// A git worktree as answered to a client.
pub struct WorktreeInfo {
    pub path: String,
    pub branch: String,
    pub head: String,
}

impl WorktreeInfo {
    /// The worktree answered for a listed one.
    pub fn from_entry(info: WorktreeEntry) -> (r: Self)
        ensures
            r.path@ == info.path@,
            r.branch@ == info.branch@,
            r.head@ == info.head@,
    {
        WorktreeInfo { path: info.path, branch: info.branch, head: info.head }
    }
}

/// A request to create a worktree.
pub struct CreateWorktreeRequest {
    pub branch: Option<String>,
    pub path: Option<String>,
}

/// A request to remove a worktree.
pub struct RemoveWorktreeRequest {
    pub path: String,
    pub force: Option<bool>,
}

impl RemoveWorktreeRequest {
    /// Whether the removal is forced: only when the request says so.
    pub fn forced(&self) -> (r: bool)
        ensures
            r == (self.force == Some(true)),
    {
        match self.force {
            Some(f) => f,
            None => false,
        }
    }
}

/// A resource offered to clients.
pub struct ResourceInfo {
    pub uri: String,
    pub name: String,
    pub description: Option<String>,
}

/// The resources offered to clients: none yet.
pub fn list_resources() -> (r: Vec<ResourceInfo>)
    ensures
        r@.len() == 0,
{
    Vec::new()
}

} // verus!
