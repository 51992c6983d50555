//! Budgets: logical allocations, immutable limit versions, cached balances
//! and the holds that reserve them.
pub mod commands;
pub mod dto;
pub mod error;
pub mod laws;
pub mod manager;
pub mod model;
pub mod state;
