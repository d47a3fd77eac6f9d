//! The single-tenant deployment: roles that own sets of permission keys,
//! teams, and the members of teams.

pub mod database;
pub mod permission;
pub mod role;
pub mod user;
pub mod user_session;
pub mod workspace_member;
pub mod workspace_team;
