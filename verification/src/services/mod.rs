//! Operations that compose the tables.

pub mod workspace_team;
