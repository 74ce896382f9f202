//! Ledger, draft engine, team lifecycle and reward distribution of a fantasy
//! sports program, with every operation carrying a machine-checked contract.

pub mod accounts;
pub mod auth;
pub mod draft;
pub mod entropy;
pub mod errors;
pub mod identity;
pub mod ledger;
pub mod lifecycle;
pub mod registry;
pub mod rewards;
pub mod state;
