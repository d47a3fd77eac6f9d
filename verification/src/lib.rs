//! Workspace authorization and membership lifecycle engine.
//!
//! The crate resolves a principal's effective permissions from an assigned
//! role, mutates workspace membership under the rule that a workspace never
//! loses its last top-tier member, and drives the invitation state machine.
//! Every executable function carries a contract that Verus proves.

pub mod api;
pub mod authorization;
pub mod cf_access;
pub mod cf_auth;
pub mod clock;
pub mod evaluator;
pub mod ids;
pub mod models;
pub mod order;
pub mod remote;
pub mod server;
pub mod services;
pub mod status;
pub mod text;
