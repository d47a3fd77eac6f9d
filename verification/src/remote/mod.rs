//! The multi-tenant deployment: members with an enumerated role and an
//! explicit permission overlay, and invitations by capability token.

pub mod directory;
pub mod files;
pub mod routes;
pub mod users;
pub mod workspace_invitations;
pub mod workspace_members;
