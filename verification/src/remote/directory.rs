//! The state that the multi-tenant deployment keeps: who belongs where, and
//! who was invited.

use vstd::prelude::*;

use crate::remote::users::UserTable;
use crate::remote::workspace_invitations::InvitationTable;
use crate::remote::workspace_members::MemberTable;

verus! {

/// The users, and the memberships and invitations of all workspaces.
pub struct Directory {
    pub users: UserTable,
    pub members: MemberTable,
    pub invitations: InvitationTable,
}

impl Directory {
    /// The tables meet their constraints.
    pub open spec fn wf(&self) -> bool {
        self.users.wf() && self.members.wf() && self.invitations.wf()
    }

    /// A directory without users, members and invitations.
    pub fn new() -> (directory: Directory)
        ensures
            directory.wf(),
            directory.users.rows().len() == 0,
            directory.members.rows().len() == 0,
            directory.invitations.rows().len() == 0,
    {
        Directory {
            users: UserTable::new(),
            members: MemberTable::new(),
            invitations: InvitationTable::new(),
        }
    }
}

} // verus!
