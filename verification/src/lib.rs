//! Plan usage policies: what a subscription plan allows a user to spend, how the gateway admits
//! requests against those limits, and how the ledgers behind them are kept.

pub mod admission;
pub mod amount_laws;
pub mod answer_laws;
pub mod binary64;
pub mod binary64_sum;
pub mod billing_laws;
pub mod billing_plan_routes;
pub mod billing_plans;
pub mod calendar;
pub mod calendar_window_laws;
pub mod cost_ledger;
pub mod cost_ledger_laws;
pub mod cost_reservation_laws;
pub mod effective_policy;
pub mod effective_policy_laws;
pub mod effective_policy_sources;
pub mod entitlement;
pub mod error;
pub mod gateway_laws;
pub mod grant_laws;
pub mod ledger_input;
pub mod ledger_request_laws;
pub mod path;
pub mod plan_admission_flow;
pub mod plan_flow_laws;
pub mod plan_grant_flow;
pub mod plan_grants;
pub mod plan_usage_policy;
pub mod plan_windows;
pub mod policy_compilation_laws;
pub mod policy_parser;
pub mod policy_validation_laws;
pub mod replacement;
pub mod request_admission_laws;
pub mod request_ledger;
pub mod request_ledger_laws;
pub mod retention;
pub mod settlement;
pub mod settlement_laws;
pub mod settlement_repository;
pub mod text;
pub mod text_laws;
pub mod timezone;
pub mod token_map;
pub mod usage_cleanup;
pub mod usage_policy;
pub mod wallet;
pub mod websocket_admission;
pub mod websocket_upstream;
pub mod window_placement_laws;
