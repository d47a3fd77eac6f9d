//! Permission keys as constants for type-safe access

use vstd::prelude::*;

verus! {

pub const WORKSPACE_VIEW: &'static str = "workspace.view";

pub const WORKSPACE_EDIT: &'static str = "workspace.edit";

pub const WORKSPACE_DELETE: &'static str = "workspace.delete";

pub const WORKSPACE_TRANSFER: &'static str = "workspace.transfer";

pub const MEMBER_VIEW: &'static str = "member.view";

pub const MEMBER_INVITE: &'static str = "member.invite";

pub const MEMBER_REMOVE: &'static str = "member.remove";

pub const MEMBER_ROLE_ASSIGN: &'static str = "member.role.assign";

pub const TASK_VIEW: &'static str = "task.view";

pub const TASK_CREATE: &'static str = "task.create";

pub const TASK_EDIT: &'static str = "task.edit";

pub const TASK_DELETE: &'static str = "task.delete";

pub const TASK_ASSIGN: &'static str = "task.assign";

pub const TASK_STATUS_CHANGE: &'static str = "task.status.change";

pub const PROJECT_VIEW: &'static str = "project.view";

pub const PROJECT_CREATE: &'static str = "project.create";

pub const PROJECT_EDIT: &'static str = "project.edit";

pub const PROJECT_DELETE: &'static str = "project.delete";

} // verus!
