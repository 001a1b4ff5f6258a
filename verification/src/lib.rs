use vstd::prelude::*;

pub mod api_error;
pub mod text;
pub mod text_map;
pub mod live_snapshot;
pub mod command_args;
pub mod provider;
pub mod recovery;
pub mod continuation;
pub mod steering;
pub mod scheduler;
pub mod permission;
pub mod event_stream;
pub mod crypto;
pub mod external_adapter;
pub mod mcp;
pub mod global;
pub mod config;
pub mod orchestration_adapter;
pub mod provider_catalog;
pub mod task_ledger_api;
pub mod skill_proposal;
pub mod managed_provider;
pub mod prompt_flow;
pub mod openapi;
pub mod live_ingress;
pub mod executions;
pub mod continuity;
pub mod config_listing;
pub mod followup;
pub mod known_providers;
pub mod effective_policy;
pub mod abort;
pub mod blueprint;
pub mod prompt_request;

verus! {

} // verus!
