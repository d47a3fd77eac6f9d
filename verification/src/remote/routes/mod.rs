//! The operations behind the endpoints, from request values to a response
//! or a refusal.

pub mod error;
pub mod files;
pub mod identity;
pub mod workspace_members;
