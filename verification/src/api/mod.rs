//! Payloads that cross the service boundary.

pub mod workspaces;
