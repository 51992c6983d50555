//! Deterministic spending policy evaluation.
//!
//! The engine evaluates a structured spend request against a human-authored
//! policy and returns an auditable evaluation: it validates the policy,
//! evaluates every rule, keeps every rule result, and merges the matched
//! effects with the fixed precedence deny > needs_approval > allow > default.
pub mod assignment;
pub mod condition;
pub mod describe;
pub mod engine;
pub mod error;
pub mod model;

