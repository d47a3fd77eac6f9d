//! Teams: the boundary under which membership and roles apply.

use vstd::prelude::*;

use crate::models::database::{
    has_team,
    lemma_has_team_push,
    lemma_has_team_remove,
    lemma_has_team_update,
    lemma_members_wf_remove,
    lemma_remove_contains,
    members_refer,
    members_wf,
    teams_wf,
    Database,
    StoreError,
};
use crate::models::workspace_member::WorkspaceMember;
use crate::order::{lists, pick, rank, Ranked};
use crate::text::{copy_text, text_eq};

verus! {

/// A team: the owner of memberships.
#[derive(Debug, Clone)]
pub struct WorkspaceTeam {
    pub id: u128,
    pub name: String,
    pub description: Option<String>,
    pub created_at: i64,
    pub updated_at: i64,
}

/// What a new team is made of.
#[derive(Debug, Clone)]
pub struct CreateWorkspaceTeam {
    pub name: String,
    pub description: Option<String>,
}

/// The fields of a team to overwrite. A field that is `None` is kept.
#[derive(Debug, Clone)]
pub struct UpdateWorkspaceTeam {
    pub name: Option<String>,
    pub description: Option<String>,
}

/// Teams are listed from the newest to the oldest.
impl Ranked for WorkspaceTeam {
    open spec fn precedes(&self, other: &Self) -> bool {
        self.created_at >= other.created_at
    }

    fn comes_first(&self, other: &Self) -> (b: bool) {
        self.created_at >= other.created_at
    }

    proof fn lemma_rank_total(a: &Self, b: &Self) {
    }

    proof fn lemma_rank_transitive(a: &Self, b: &Self, c: &Self) {
    }
}

/// All teams, in row order.
pub open spec fn all_teams<'a>(rows: Seq<WorkspaceTeam>) -> Seq<&'a WorkspaceTeam> {
    pick(rows, |t: WorkspaceTeam| true)
}

/// The teams that the principal is a member of, in row order.
pub open spec fn teams_of_user<'a>(
    rows: Seq<WorkspaceTeam>,
    members: Seq<WorkspaceMember>,
    user_id: Seq<char>,
) -> Seq<&'a WorkspaceTeam> {
    pick(rows, |t: WorkspaceTeam| belongs_to(members, t.id, user_id))
}

/// The index of the team with the identifier.
pub open spec fn team_index(rows: Seq<WorkspaceTeam>, id: u128) -> int {
    choose|i: int| 0 <= i < rows.len() && (#[trigger] rows[i]).id == id
}

/// Under the constraints of the table, an index that holds the team is the
/// team's index.
pub proof fn lemma_team_index_is(rows: Seq<WorkspaceTeam>, id: u128, i: int)
    requires
        teams_wf(rows),
        0 <= i < rows.len(),
        rows[i].id == id,
    ensures
        team_index(rows, id) == i,
{
    let j = team_index(rows, id);
    if i != j {
        assert(rows[i].id != rows[j].id);
    }
}

/// Whether the principal is a member of the team.
pub open spec fn belongs_to(members: Seq<WorkspaceMember>, team_id: u128, user_id: Seq<char>) -> bool {
    exists|i: int|
        0 <= i < members.len() && (#[trigger] members[i]).workspace_team_id == team_id
            && members[i].user_id@ == user_id
}

impl WorkspaceTeam {
    /// A copy that is equal to the team.
    pub fn duplicate(&self) -> (copy: WorkspaceTeam)
        ensures
            copy == *self,
    {
        WorkspaceTeam {
            id: self.id,
            name: self.name.clone(),
            description: copy_text(&self.description),
            created_at: self.created_at,
            updated_at: self.updated_at,
        }
    }

    /// All teams, newest first.
    pub fn find_all(pool: &Database) -> (found: Vec<&WorkspaceTeam>)
        ensures
            lists(found@, all_teams(pool.team_rows())),
    {
        let mut selected: Vec<&WorkspaceTeam> = Vec::new();
        let mut i: usize = 0;
        while i < pool.teams.len()
            invariant
                i <= pool.teams@.len(),
                selected@ == all_teams(pool.teams@.take(i as int)),
            decreases pool.teams@.len() - i,
        {
            assert(pool.teams@.take(i + 1).drop_last() == pool.teams@.take(i as int));
            selected.push(&pool.teams[i]);
            i = i + 1;
        }
        assert(pool.teams@.take(i as int) == pool.teams@);
        rank(selected)
    }

    pub(crate) fn position(pool: &Database, id: u128) -> (found: Option<usize>)
        ensures
            found is Some == has_team(pool.team_rows(), id),
            found matches Some(i) ==> i < pool.team_rows().len() && pool.team_rows()[i as int].id
                == id,
    {
        let mut i: usize = 0;
        while i < pool.teams.len()
            invariant
                i <= pool.teams@.len(),
                forall|j: int| 0 <= j < i ==> (#[trigger] pool.teams@[j]).id != id,
            decreases pool.teams@.len() - i,
        {
            if pool.teams[i].id == id {
                return Some(i);
            }
            i = i + 1;
        }
        None
    }

    /// The team with the identifier.
    pub fn find_by_id(pool: &Database, id: u128) -> (found: Option<&WorkspaceTeam>)
        ensures
            found is Some == has_team(pool.team_rows(), id),
            found matches Some(team) ==> team.id == id && pool.team_rows().contains(*team),
    {
        match WorkspaceTeam::position(pool, id) {
            Some(i) => Some(&pool.teams[i]),
            None => None,
        }
    }

    /// Creates a team. An identifier that is taken is refused.
    pub fn create(pool: &mut Database, data: &CreateWorkspaceTeam, id: u128, now: i64) -> (r: Result<
        WorkspaceTeam,
        StoreError,
    >)
        requires
            old(pool).wf(),
        ensures
            final(pool).wf(),
            final(pool).permission_rows() == old(pool).permission_rows(),
            final(pool).role_rows() == old(pool).role_rows(),
            final(pool).grant_rows() == old(pool).grant_rows(),
            final(pool).member_rows() == old(pool).member_rows(),
            r is Ok <==> !has_team(old(pool).team_rows(), id),
            r matches Err(e) ==> e == StoreError::UniqueViolation && final(pool).team_rows() == old(pool).team_rows(),
            r matches Ok(team) ==> {
                &&& final(pool).team_rows() == old(pool).team_rows().push(team)
                &&& team.id == id
                &&& team.name@ == data.name@
                &&& team.description == data.description
                &&& team.created_at == now
                &&& team.updated_at == now
            },
    {
        let team = WorkspaceTeam {
            id,
            name: data.name.clone(),
            description: copy_text(&data.description),
            created_at: now,
            updated_at: now,
        };
        let copy = team.duplicate();
        match WorkspaceTeam::restore(pool, team) {
            Ok(()) => Ok(copy),
            Err(e) => Err(e),
        }
    }

    /// Enters a team as it is on record elsewhere. An identifier that is
    /// taken is refused.
    pub fn restore(pool: &mut Database, team: WorkspaceTeam) -> (r: Result<(), StoreError>)
        requires
            old(pool).wf(),
        ensures
            final(pool).wf(),
            final(pool).permission_rows() == old(pool).permission_rows(),
            final(pool).role_rows() == old(pool).role_rows(),
            final(pool).grant_rows() == old(pool).grant_rows(),
            final(pool).member_rows() == old(pool).member_rows(),
            r is Ok <==> !has_team(old(pool).team_rows(), team.id),
            r matches Err(e) ==> e == StoreError::UniqueViolation,
            final(pool).team_rows() == if r is Ok {
                old(pool).team_rows().push(team)
            } else {
                old(pool).team_rows()
            },
    {
        if WorkspaceTeam::position(pool, team.id).is_some() {
            return Err(StoreError::UniqueViolation);
        }
        let ghost before = pool.teams@;
        let ghost id = team.id;
        pool.teams.push(team);
        proof {
            let after = pool.teams@;
            assert forall|a: int, b: int|
                0 <= a < after.len() && 0 <= b < after.len() && a != b implies (
            #[trigger] after[a]).id != (#[trigger] after[b]).id by {
                if a < before.len() && b < before.len() {
                    assert(before[a].id != before[b].id);
                } else if a < before.len() {
                    assert(before[a].id != id);
                } else {
                    assert(before[b].id != id);
                }
            }
            assert forall|m: int| 0 <= m < pool.members@.len() implies has_team(
                after,
                (#[trigger] pool.members@[m]).workspace_team_id,
            ) by {
                lemma_has_team_push(before, team, pool.members@[m].workspace_team_id);
            }
        }
        Ok(())
    }

    /// Changes a team. Only the fields that `data` supplies are overwritten;
    /// the others keep their value. A team that does not exist is reported
    /// as a row not found.
    pub fn update(pool: &mut Database, id: u128, data: &UpdateWorkspaceTeam, now: i64) -> (r: Result<
        WorkspaceTeam,
        StoreError,
    >)
        requires
            old(pool).wf(),
        ensures
            final(pool).wf(),
            final(pool).permission_rows() == old(pool).permission_rows(),
            final(pool).role_rows() == old(pool).role_rows(),
            final(pool).grant_rows() == old(pool).grant_rows(),
            final(pool).member_rows() == old(pool).member_rows(),
            r is Ok <==> has_team(old(pool).team_rows(), id),
            r matches Err(e) ==> e == StoreError::RowNotFound && final(pool).team_rows() == old(pool).team_rows(),
            r matches Ok(team) ==> {
                let i = team_index(old(pool).team_rows(), id);
                let before = old(pool).team_rows()[i];
                &&& final(pool).team_rows() == old(pool).team_rows().update(i, team)
                &&& team.id == id
                &&& team.name@ == if data.name is Some {
                    data.name->0@
                } else {
                    before.name@
                }
                &&& team.description == if data.description is Some {
                    data.description
                } else {
                    before.description
                }
                &&& team.created_at == before.created_at
                &&& team.updated_at == now
            },
    {
        let i = match WorkspaceTeam::position(pool, id) {
            Some(i) => i,
            None => {
                return Err(StoreError::RowNotFound);
            },
        };
        proof {
            lemma_team_index_is(pool.teams@, id, i as int);
        }
        let ghost before = pool.teams@;
        let existing = pool.teams.remove(i);
        let name = match &data.name {
            Some(name) => name.clone(),
            None => existing.name,
        };
        let description = match &data.description {
            Some(text) => Some(text.clone()),
            None => existing.description,
        };
        let updated = WorkspaceTeam {
            id: existing.id,
            name,
            description,
            created_at: existing.created_at,
            updated_at: now,
        };
        let copy = updated.duplicate();
        pool.teams.insert(i, updated);
        proof {
            let after = pool.teams@;
            assert(after == before.update(i as int, copy));
            assert forall|a: int, b: int|
                0 <= a < after.len() && 0 <= b < after.len() && a != b implies (
            #[trigger] after[a]).id != (#[trigger] after[b]).id by {
                assert(before[a].id != before[b].id);
            }
            assert forall|m: int| 0 <= m < pool.members@.len() implies has_team(
                after,
                (#[trigger] pool.members@[m]).workspace_team_id,
            ) by {
                lemma_has_team_update(before, i as int, copy, pool.members@[m].workspace_team_id);
            }
        }
        Ok(copy)
    }

    /// Deletes a team and, with it, its memberships. Returns the number of
    /// teams deleted: one, or none where the team does not exist.
    pub fn delete(pool: &mut Database, id: u128) -> (deleted: u64)
        requires
            old(pool).wf(),
        ensures
            final(pool).wf(),
            final(pool).permission_rows() == old(pool).permission_rows(),
            final(pool).role_rows() == old(pool).role_rows(),
            final(pool).grant_rows() == old(pool).grant_rows(),
            deleted == if has_team(old(pool).team_rows(), id) {
                1u64
            } else {
                0u64
            },
            !has_team(old(pool).team_rows(), id) ==> final(pool).team_rows() == old(pool).team_rows()
                && final(pool).member_rows() == old(pool).member_rows(),
            has_team(old(pool).team_rows(), id) ==> {
                &&& final(pool).team_rows() == old(pool).team_rows().remove(
                    team_index(old(pool).team_rows(), id),
                )
                &&& forall|m: WorkspaceMember|
                    #[trigger] final(pool).member_rows().contains(m) <==> old(pool).member_rows().contains(m)
                        && m.workspace_team_id != id
            },
    {
        let i = match WorkspaceTeam::position(pool, id) {
            Some(i) => i,
            None => {
                return 0;
            },
        };
        proof {
            lemma_team_index_is(pool.teams@, id, i as int);
        }
        let ghost teams_before = pool.teams@;
        let ghost members_before = pool.members@;
        let mut k: usize = 0;
        while k < pool.members.len()
            invariant
                k <= pool.members@.len(),
                pool.teams@ == teams_before,
                pool.roles@ == old(pool).roles@,
                pool.permissions@ == old(pool).permissions@,
                pool.role_permissions@ == old(pool).role_permissions@,
                members_wf(pool.members@),
                members_refer(pool.members@, pool.roles@, teams_before),
                forall|j: int| 0 <= j < k ==> (#[trigger] pool.members@[j]).workspace_team_id != id,
                forall|m: WorkspaceMember|
                    #[trigger] pool.members@.contains(m) ==> members_before.contains(m),
                forall|m: WorkspaceMember|
                    members_before.contains(m) && m.workspace_team_id
                        != id ==> #[trigger] pool.members@.contains(m),
            decreases pool.members@.len() - k,
        {
            if pool.members[k].workspace_team_id == id {
                let ghost current = pool.members@;
                let _ = pool.members.remove(k);
                proof {
                    lemma_members_wf_remove(current, k as int);
                    assert forall|m: WorkspaceMember| #[trigger]
                        pool.members@.contains(m) implies members_before.contains(m) by {
                        lemma_remove_contains(current, k as int, m);
                    }
                    assert forall|m: WorkspaceMember|
                        members_before.contains(m) && m.workspace_team_id
                            != id implies #[trigger] pool.members@.contains(m) by {
                        lemma_remove_contains(current, k as int, m);
                    }
                    assert forall|j: int| 0 <= j < pool.members@.len() implies crate::models::database::has_role(
                        pool.roles@,
                        (#[trigger] pool.members@[j]).role_id,
                    ) && has_team(teams_before, pool.members@[j].workspace_team_id) by {
                        let j0 = if j < k { j } else { j + 1 };
                        assert(pool.members@[j] == current[j0]);
                    }
                }
            } else {
                k = k + 1;
            }
        }
        let _ = pool.teams.remove(i);
        proof {
            let teams_after = pool.teams@;
            assert forall|a: int, b: int|
                0 <= a < teams_after.len() && 0 <= b < teams_after.len() && a != b implies (
            #[trigger] teams_after[a]).id != (#[trigger] teams_after[b]).id by {
                let a0 = if a < i { a } else { a + 1 };
                let b0 = if b < i { b } else { b + 1 };
                assert(teams_before[a0].id != teams_before[b0].id);
            }
            assert forall|m: int| 0 <= m < pool.members@.len() implies has_team(
                teams_after,
                (#[trigger] pool.members@[m]).workspace_team_id,
            ) by {
                lemma_has_team_remove(teams_before, i as int, pool.members@[m].workspace_team_id);
            }
            assert forall|m: WorkspaceMember| #[trigger]
                pool.members@.contains(m) <==> members_before.contains(m) && m.workspace_team_id
                    != id by {
                if pool.members@.contains(m) {
                    let j = choose|j: int| 0 <= j < pool.members@.len() && pool.members@[j] == m;
                    assert(pool.members@[j].workspace_team_id != id);
                }
            }
        }
        1
    }

    /// Find all workspace teams that a user is a member of, newest first.
    pub fn find_by_user_id<'a>(pool: &'a Database, user_id: &str) -> (found: Vec<&'a WorkspaceTeam>)
        ensures
            lists(found@, teams_of_user(pool.team_rows(), pool.member_rows(), user_id@)),
    {
        let mut selected: Vec<&WorkspaceTeam> = Vec::new();
        let mut i: usize = 0;
        while i < pool.teams.len()
            invariant
                i <= pool.teams@.len(),
                selected@ == teams_of_user(pool.teams@.take(i as int), pool.members@, user_id@),
            decreases pool.teams@.len() - i,
        {
            assert(pool.teams@.take(i + 1).drop_last() == pool.teams@.take(i as int));
            if WorkspaceTeam::has_user(pool, pool.teams[i].id, user_id) {
                selected.push(&pool.teams[i]);
            }
            i = i + 1;
        }
        assert(pool.teams@.take(i as int) == pool.teams@);
        rank(selected)
    }

    /// Whether the principal is a member of the team.
    pub fn has_user(pool: &Database, team_id: u128, user_id: &str) -> (b: bool)
        ensures
            b == belongs_to(pool.member_rows(), team_id, user_id@),
    {
        let mut j: usize = 0;
        while j < pool.members.len()
            invariant
                j <= pool.members@.len(),
                forall|k: int|
                    0 <= k < j ==> !((#[trigger] pool.members@[k]).workspace_team_id == team_id
                        && pool.members@[k].user_id@ == user_id@),
            decreases pool.members@.len() - j,
        {
            if pool.members[j].workspace_team_id == team_id && text_eq(
                pool.members[j].user_id.as_str(),
                user_id,
            ) {
                return true;
            }
            j = j + 1;
        }
        false
    }
}

} // verus!
