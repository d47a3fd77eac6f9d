//! The membership relation between principals and workspaces.
//!
//! A table holds at most one row per (workspace, principal) pair. The
//! functions here read and change it; what they return is stated over the
//! sequence of rows.

use vstd::prelude::*;

pub use crate::api::workspaces::{MemberRole, WorkspaceMember, WorkspacePermission};
use crate::order::{lists, pick, rank, Ranked};

verus! {

/// Why an invitation could not be created or accepted.
#[derive(Debug, Clone, Copy, PartialEq, Eq, Structural)]
pub enum InvitationFault {
    /// No pending invitation carries the token: it is unknown, or was
    /// accepted, revoked or found expired before.
    Invalid,
    /// The invitation's time ran out before it was accepted.
    Expired,
    /// The accepting principal already belongs to the workspace.
    AlreadyMember,
    /// A pending invitation for the same address, or the same token or
    /// identifier, exists.
    PendingExists,
}

/// Failures of the membership and invitation operations.
#[derive(Debug, Clone, Copy, PartialEq, Eq, Structural)]
pub enum IdentityError {
    NotFound,
    PermissionDenied,
    InvitationError(InvitationFault),
    /// The store failed. No detail of the failure crosses this boundary.
    Database,
}

/// Whether `row` is the membership of `user_id` in `workspace_id`.
pub open spec fn is_row_of(row: WorkspaceMember, workspace_id: u128, user_id: u128) -> bool {
    row.workspace_id == workspace_id && row.user_id == user_id
}

/// No (workspace, principal) pair has two rows.
pub open spec fn unique_pairs(rows: Seq<WorkspaceMember>) -> bool {
    forall|i: int, j: int|
        0 <= i < rows.len() && 0 <= j < rows.len() && i != j ==> !is_row_of(
            #[trigger] rows[i],
            (#[trigger] rows[j]).workspace_id,
            rows[j].user_id,
        )
}

/// Whether the pair has a row.
pub open spec fn has_member(rows: Seq<WorkspaceMember>, workspace_id: u128, user_id: u128) -> bool {
    exists|i: int| 0 <= i < rows.len() && is_row_of(#[trigger] rows[i], workspace_id, user_id)
}

/// The index of the pair's row.
pub open spec fn row_index(rows: Seq<WorkspaceMember>, workspace_id: u128, user_id: u128) -> int {
    choose|i: int| 0 <= i < rows.len() && is_row_of(#[trigger] rows[i], workspace_id, user_id)
}

/// The role that the pair's row holds, if the pair has a row.
pub open spec fn role_of(rows: Seq<WorkspaceMember>, workspace_id: u128, user_id: u128) -> Option<
    MemberRole,
> {
    if has_member(rows, workspace_id, user_id) {
        Some(rows[row_index(rows, workspace_id, user_id)].role)
    } else {
        None
    }
}

/// Whether `row` is a top-tier membership in `workspace_id`.
pub open spec fn is_admin_row(row: WorkspaceMember, workspace_id: u128) -> bool {
    row.workspace_id == workspace_id && row.role == MemberRole::Admin
}

/// The principals that hold the top tier in `workspace_id`, in row order.
pub open spec fn admins_of(rows: Seq<WorkspaceMember>, workspace_id: u128) -> Seq<u128>
    decreases rows.len(),
{
    if rows.len() == 0 {
        Seq::empty()
    } else if is_admin_row(rows.last(), workspace_id) {
        admins_of(rows.drop_last(), workspace_id).push(rows.last().user_id)
    } else {
        admins_of(rows.drop_last(), workspace_id)
    }
}

/// The number of top-tier members of `workspace_id`.
pub open spec fn admin_count(rows: Seq<WorkspaceMember>, workspace_id: u128) -> nat {
    admins_of(rows, workspace_id).len()
}

/// Whether `user_id` is the one and only top-tier member of `workspace_id`.
pub open spec fn is_sole_admin(rows: Seq<WorkspaceMember>, workspace_id: u128, user_id: u128) -> bool {
    let admins = admins_of(rows, workspace_id);
    admins.len() == 1 && admins[0] == user_id
}

/// Whether the principal may use `permission` in the workspace: every
/// top-tier member may, another member where its row lists the permission.
pub open spec fn may_use(
    rows: Seq<WorkspaceMember>,
    workspace_id: u128,
    user_id: u128,
    permission: WorkspacePermission,
) -> bool {
    has_member(rows, workspace_id, user_id) && {
        let row = rows[row_index(rows, workspace_id, user_id)];
        row.role == MemberRole::Admin || row.permissions@.contains(permission)
    }
}

/// The rows without the pair's row.
pub open spec fn without_member(rows: Seq<WorkspaceMember>, workspace_id: u128, user_id: u128) -> Seq<
    WorkspaceMember,
> {
    if has_member(rows, workspace_id, user_id) {
        rows.remove(row_index(rows, workspace_id, user_id))
    } else {
        rows
    }
}

/// The rows with the pair's row, if there is one, set to `role`.
pub open spec fn with_role(
    rows: Seq<WorkspaceMember>,
    workspace_id: u128,
    user_id: u128,
    role: MemberRole,
) -> Seq<WorkspaceMember> {
    if has_member(rows, workspace_id, user_id) {
        let i = row_index(rows, workspace_id, user_id);
        rows.update(i, WorkspaceMember { role, ..rows[i] })
    } else {
        rows
    }
}

/// Under `unique_pairs` an index that holds the pair's row is the row's index.
pub proof fn lemma_row_index_is(rows: Seq<WorkspaceMember>, workspace_id: u128, user_id: u128, i: int)
    requires
        unique_pairs(rows),
        0 <= i < rows.len(),
        is_row_of(rows[i], workspace_id, user_id),
    ensures
        has_member(rows, workspace_id, user_id),
        row_index(rows, workspace_id, user_id) == i,
{
    let j = row_index(rows, workspace_id, user_id);
    assert(is_row_of(rows[j], workspace_id, user_id));
    if i != j {
        assert(!is_row_of(rows[i], rows[j].workspace_id, rows[j].user_id));
    }
}

/// `admins_of` lists exactly the principals of the top-tier rows.
pub proof fn lemma_admins_of_contains(rows: Seq<WorkspaceMember>, workspace_id: u128, user_id: u128)
    ensures
        admins_of(rows, workspace_id).contains(user_id) <==> exists|i: int|
            0 <= i < rows.len() && is_admin_row(#[trigger] rows[i], workspace_id) && rows[i].user_id
                == user_id,
    decreases rows.len(),
{
    if rows.len() > 0 {
        let front = rows.drop_last();
        lemma_admins_of_contains(front, workspace_id, user_id);
        let all = admins_of(rows, workspace_id);
        let before = admins_of(front, workspace_id);
        if all.contains(user_id) {
            let k = choose|k: int| 0 <= k < all.len() && all[k] == user_id;
            if is_admin_row(rows.last(), workspace_id) && k == all.len() - 1 {
                assert(is_admin_row(rows[rows.len() - 1], workspace_id));
            } else {
                assert(before[k] == user_id);
                assert(before.contains(user_id));
                let i = choose|i: int|
                    0 <= i < front.len() && is_admin_row(#[trigger] front[i], workspace_id)
                        && front[i].user_id == user_id;
                assert(rows[i] == front[i]);
            }
        }
        if exists|i: int|
            0 <= i < rows.len() && is_admin_row(#[trigger] rows[i], workspace_id) && rows[i].user_id
                == user_id {
            let i = choose|i: int|
                0 <= i < rows.len() && is_admin_row(#[trigger] rows[i], workspace_id)
                    && rows[i].user_id == user_id;
            if i == rows.len() - 1 {
                assert(all[all.len() - 1] == user_id);
            } else {
                assert(front[i] == rows[i]);
                assert(before.contains(user_id));
                let k = choose|k: int| 0 <= k < before.len() && before[k] == user_id;
                assert(all[k] == user_id);
            }
        }
    }
}

/// Appending a row appends its principal to the top tier where the row is
/// a top-tier row, and leaves the top tier as it was otherwise.
pub proof fn lemma_admins_of_push(rows: Seq<WorkspaceMember>, row: WorkspaceMember, workspace_id: u128)
    ensures
        admins_of(rows.push(row), workspace_id) == if is_admin_row(row, workspace_id) {
            admins_of(rows, workspace_id).push(row.user_id)
        } else {
            admins_of(rows, workspace_id)
        },
{
    assert(rows.push(row).drop_last() == rows);
}

/// Removing a row lowers the top-tier count by one where the row is a
/// top-tier row of the workspace, and keeps it otherwise.
pub proof fn lemma_admin_count_remove(rows: Seq<WorkspaceMember>, i: int, workspace_id: u128)
    requires
        0 <= i < rows.len(),
    ensures
        admin_count(rows.remove(i), workspace_id) + (if is_admin_row(rows[i], workspace_id) {
            1nat
        } else {
            0nat
        }) == admin_count(rows, workspace_id),
    decreases rows.len(),
{
    if i == rows.len() - 1 {
        assert(rows.remove(i) == rows.drop_last());
    } else {
        lemma_admin_count_remove(rows.drop_last(), i, workspace_id);
        assert(rows.remove(i).drop_last() == rows.drop_last().remove(i));
        assert(rows.remove(i).last() == rows.last());
    }
}

/// Replacing a row changes the top-tier count by what the old and the new
/// row contribute.
pub proof fn lemma_admin_count_update(
    rows: Seq<WorkspaceMember>,
    i: int,
    row: WorkspaceMember,
    workspace_id: u128,
)
    requires
        0 <= i < rows.len(),
    ensures
        admin_count(rows.update(i, row), workspace_id) + (if is_admin_row(rows[i], workspace_id) {
            1nat
        } else {
            0nat
        }) == admin_count(rows, workspace_id) + (if is_admin_row(row, workspace_id) {
            1nat
        } else {
            0nat
        }),
    decreases rows.len(),
{
    if i == rows.len() - 1 {
        assert(rows.update(i, row).drop_last() == rows.drop_last());
    } else {
        lemma_admin_count_update(rows.drop_last(), i, row, workspace_id);
        assert(rows.update(i, row).drop_last() == rows.drop_last().update(i, row));
        assert(rows.update(i, row).last() == rows.last());
    }
}

/// A top-tier member that is not the sole one has a peer.
pub proof fn lemma_admin_has_peer(rows: Seq<WorkspaceMember>, workspace_id: u128, user_id: u128)
    requires
        unique_pairs(rows),
        role_of(rows, workspace_id, user_id) == Some(MemberRole::Admin),
        !is_sole_admin(rows, workspace_id, user_id),
    ensures
        admin_count(rows, workspace_id) >= 2,
{
    let i = row_index(rows, workspace_id, user_id);
    assert(is_admin_row(rows[i], workspace_id) && rows[i].user_id == user_id);
    lemma_admins_of_contains(rows, workspace_id, user_id);
    let admins = admins_of(rows, workspace_id);
    assert(admins.contains(user_id));
    if admins.len() == 1 {
        let k = choose|k: int| 0 <= k < admins.len() && admins[k] == user_id;
        assert(k == 0);
    }
}

/// A workspace whose sole top-tier member is `user_id` has `user_id` as a
/// member with the top-tier role.
pub proof fn lemma_sole_admin_is_admin(rows: Seq<WorkspaceMember>, workspace_id: u128, user_id: u128)
    requires
        unique_pairs(rows),
        is_sole_admin(rows, workspace_id, user_id),
    ensures
        role_of(rows, workspace_id, user_id) == Some(MemberRole::Admin),
{
    let admins = admins_of(rows, workspace_id);
    assert(admins[0] == user_id);
    assert(admins.contains(user_id));
    lemma_admins_of_contains(rows, workspace_id, user_id);
    let i = choose|i: int|
        0 <= i < rows.len() && is_admin_row(#[trigger] rows[i], workspace_id) && rows[i].user_id
            == user_id;
    lemma_row_index_is(rows, workspace_id, user_id, i);
}

/// Removing a row that is no top-tier row of the workspace leaves the
/// workspace's top tier as it was.
pub proof fn lemma_admins_of_remove_other(rows: Seq<WorkspaceMember>, i: int, workspace_id: u128)
    requires
        0 <= i < rows.len(),
        !is_admin_row(rows[i], workspace_id),
    ensures
        admins_of(rows.remove(i), workspace_id) == admins_of(rows, workspace_id),
    decreases rows.len(),
{
    if i == rows.len() - 1 {
        assert(rows.remove(i) == rows.drop_last());
    } else {
        lemma_admins_of_remove_other(rows.drop_last(), i, workspace_id);
        assert(rows.remove(i).drop_last() == rows.drop_last().remove(i));
        assert(rows.remove(i).last() == rows.last());
    }
}

/// Removing a row keeps the pairs unique.
pub proof fn lemma_remove_keeps_unique(rows: Seq<WorkspaceMember>, i: int)
    requires
        unique_pairs(rows),
        0 <= i < rows.len(),
    ensures
        unique_pairs(rows.remove(i)),
{
    let after = rows.remove(i);
    assert forall|a: int, b: int|
        0 <= a < after.len() && 0 <= b < after.len() && a != b implies !is_row_of(
        #[trigger] after[a],
        (#[trigger] after[b]).workspace_id,
        after[b].user_id,
    ) by {
        let a0 = if a < i { a } else { a + 1 };
        let b0 = if b < i { b } else { b + 1 };
        assert(!is_row_of(rows[a0], rows[b0].workspace_id, rows[b0].user_id));
    }
}

/// Changing a row's role keeps the pairs unique.
pub proof fn lemma_role_keeps_unique(rows: Seq<WorkspaceMember>, i: int, role: MemberRole)
    requires
        unique_pairs(rows),
        0 <= i < rows.len(),
    ensures
        unique_pairs(rows.update(i, WorkspaceMember { role, ..rows[i] })),
{
    let after = rows.update(i, WorkspaceMember { role, ..rows[i] });
    assert forall|a: int, b: int|
        0 <= a < after.len() && 0 <= b < after.len() && a != b implies !is_row_of(
        #[trigger] after[a],
        (#[trigger] after[b]).workspace_id,
        after[b].user_id,
    ) by {
        assert(!is_row_of(rows[a], rows[b].workspace_id, rows[b].user_id));
    }
}

/// Whether `row` is what a first insertion for the pair writes: the given
/// fields, and no explicit permission.
pub open spec fn is_fresh_row(
    row: WorkspaceMember,
    workspace_id: u128,
    user_id: u128,
    role: MemberRole,
    invited_by: Option<u128>,
    joined_at: i64,
) -> bool {
    &&& row.workspace_id == workspace_id
    &&& row.user_id == user_id
    &&& row.role == role
    &&& row.permissions@ == Seq::<WorkspacePermission>::empty()
    &&& row.invited_by == invited_by
    &&& row.joined_at == joined_at
}

/// The relation between the rows before and after an upsert of the pair: an
/// existing row has its role refreshed and keeps the rest, a missing one is
/// appended.
pub open spec fn upserted(
    before: Seq<WorkspaceMember>,
    after: Seq<WorkspaceMember>,
    workspace_id: u128,
    user_id: u128,
    role: MemberRole,
    invited_by: Option<u128>,
    joined_at: i64,
) -> bool {
    if has_member(before, workspace_id, user_id) {
        after == with_role(before, workspace_id, user_id, role)
    } else {
        &&& after.len() == before.len() + 1
        &&& after.drop_last() == before
        &&& is_fresh_row(after.last(), workspace_id, user_id, role, invited_by, joined_at)
    }
}

/// Members are listed in the order in which they joined.
impl Ranked for WorkspaceMember {
    open spec fn precedes(&self, other: &Self) -> bool {
        self.joined_at <= other.joined_at
    }

    fn comes_first(&self, other: &Self) -> (b: bool) {
        self.joined_at <= other.joined_at
    }

    proof fn lemma_rank_total(a: &Self, b: &Self) {
    }

    proof fn lemma_rank_transitive(a: &Self, b: &Self, c: &Self) {
    }
}

/// The rows of `workspace_id`, in row order.
pub open spec fn rows_of_workspace<'a>(rows: Seq<WorkspaceMember>, workspace_id: u128) -> Seq<
    &'a WorkspaceMember,
> {
    pick(rows, |row: WorkspaceMember| row.workspace_id == workspace_id)
}

/// The table of memberships.
pub struct MemberTable {
    rows: Vec<WorkspaceMember>,
}

impl MemberTable {
    /// The rows, in the order in which they were inserted.
    pub closed spec fn rows(&self) -> Seq<WorkspaceMember> {
        self.rows@
    }

    /// At most one row per (workspace, principal) pair.
    pub open spec fn wf(&self) -> bool {
        unique_pairs(self.rows())
    }

    /// A table without rows.
    pub fn new() -> (table: MemberTable)
        ensures
            table.wf(),
            table.rows() == Seq::<WorkspaceMember>::empty(),
    {
        MemberTable { rows: Vec::new() }
    }

    /// The rows, for reading.
    pub fn entries(&self) -> (rows: &Vec<WorkspaceMember>)
        ensures
            rows@ == self.rows(),
    {
        &self.rows
    }

    fn locate(&self, workspace_id: u128, user_id: u128) -> (found: Option<usize>)
        requires
            self.wf(),
        ensures
            found is Some == has_member(self.rows(), workspace_id, user_id),
            found matches Some(i) ==> i == row_index(self.rows(), workspace_id, user_id) && i
                < self.rows().len(),
    {
        let mut i: usize = 0;
        while i < self.rows.len()
            invariant
                i <= self.rows@.len(),
                unique_pairs(self.rows@),
                forall|j: int| 0 <= j < i ==> !is_row_of(#[trigger] self.rows@[j], workspace_id, user_id),
            decreases self.rows@.len() - i,
        {
            if self.rows[i].workspace_id == workspace_id && self.rows[i].user_id == user_id {
                proof {
                    lemma_row_index_is(self.rows@, workspace_id, user_id, i as int);
                }
                return Some(i);
            }
            i = i + 1;
        }
        None
    }

    /// The role of the principal in the workspace, if it is a member.
    pub fn role(&self, workspace_id: u128, user_id: u128) -> (role: Option<MemberRole>)
        requires
            self.wf(),
        ensures
            role == role_of(self.rows(), workspace_id, user_id),
    {
        match self.locate(workspace_id, user_id) {
            Some(i) => Some(self.rows[i].role),
            None => None,
        }
    }

    /// Whether the principal may use `permission` in the workspace.
    pub fn allows(&self, workspace_id: u128, user_id: u128, permission: WorkspacePermission) -> (b:
        bool)
        requires
            self.wf(),
        ensures
            b == may_use(self.rows(), workspace_id, user_id, permission),
    {
        match self.locate(workspace_id, user_id) {
            Some(i) => {
                let row = &self.rows[i];
                match row.role {
                    MemberRole::Admin => true,
                    MemberRole::Member => {
                        let mut k: usize = 0;
                        while k < row.permissions.len()
                            invariant
                                k <= row.permissions@.len(),
                                has_member(self.rows(), workspace_id, user_id),
                                *row == self.rows()[row_index(self.rows(), workspace_id, user_id)],
                                row.role == MemberRole::Member,
                                forall|j: int| 0 <= j < k ==> row.permissions@[j] != permission,
                            decreases row.permissions@.len() - k,
                        {
                            if row.permissions[k] == permission {
                                assert(row.permissions@[k as int] == permission);
                                return true;
                            }
                            k = k + 1;
                        }
                        false
                    },
                }
            },
            None => false,
        }
    }

    /// The top-tier members of the workspace, in row order.
    pub fn admin_ids(&self, workspace_id: u128) -> (ids: Vec<u128>)
        ensures
            ids@ == admins_of(self.rows(), workspace_id),
    {
        let mut ids: Vec<u128> = Vec::new();
        let mut i: usize = 0;
        while i < self.rows.len()
            invariant
                i <= self.rows@.len(),
                ids@ == admins_of(self.rows@.take(i as int), workspace_id),
            decreases self.rows@.len() - i,
        {
            proof {
                lemma_admins_of_push(self.rows@.take(i as int), self.rows@[i as int], workspace_id);
                assert(self.rows@.take(i as int).push(self.rows@[i as int]) == self.rows@.take(
                    i + 1,
                ));
            }
            let is_admin = match self.rows[i].role {
                MemberRole::Admin => true,
                MemberRole::Member => false,
            };
            if self.rows[i].workspace_id == workspace_id && is_admin {
                ids.push(self.rows[i].user_id);
            }
            i = i + 1;
        }
        assert(self.rows@.take(i as int) == self.rows@);
        ids
    }

    /// The members of the workspace, in the order in which they joined.
    pub fn list(&self, workspace_id: u128) -> (members: Vec<&WorkspaceMember>)
        ensures
            lists(members@, rows_of_workspace(self.rows(), workspace_id)),
    {
        let mut selected: Vec<&WorkspaceMember> = Vec::new();
        let mut i: usize = 0;
        while i < self.rows.len()
            invariant
                i <= self.rows@.len(),
                selected@ == rows_of_workspace(self.rows@.take(i as int), workspace_id),
            decreases self.rows@.len() - i,
        {
            assert(self.rows@.take(i + 1).drop_last() == self.rows@.take(i as int));
            if self.rows[i].workspace_id == workspace_id {
                selected.push(&self.rows[i]);
            }
            i = i + 1;
        }
        assert(self.rows@.take(i as int) == self.rows@);
        rank(selected)
    }

    /// Writes the pair's membership: a new row, or the role of the row that
    /// the pair has.
    pub fn upsert(
        &mut self,
        workspace_id: u128,
        user_id: u128,
        role: MemberRole,
        invited_by: Option<u128>,
        joined_at: i64,
    )
        requires
            old(self).wf(),
        ensures
            final(self).wf(),
            upserted(
                old(self).rows(),
                final(self).rows(),
                workspace_id,
                user_id,
                role,
                invited_by,
                joined_at,
            ),
    {
        match self.locate(workspace_id, user_id) {
            Some(i) => {
                self.replace_role(i, role);
            },
            None => {
                let row = WorkspaceMember {
                    workspace_id,
                    user_id,
                    role,
                    permissions: Vec::new(),
                    invited_by,
                    joined_at,
                };
                self.rows.push(row);
                proof {
                    let before = old(self).rows@;
                    let after = self.rows@;
                    assert(after.drop_last() == before);
                    assert forall|a: int, b: int|
                        0 <= a < after.len() && 0 <= b < after.len() && a != b implies !is_row_of(
                        #[trigger] after[a],
                        (#[trigger] after[b]).workspace_id,
                        after[b].user_id,
                    ) by {
                        if a < before.len() && b < before.len() {
                            assert(!is_row_of(before[a], before[b].workspace_id, before[b].user_id));
                        } else if a < before.len() {
                            assert(!is_row_of(before[a], workspace_id, user_id));
                        } else {
                            assert(!is_row_of(before[b], workspace_id, user_id));
                        }
                    }
                }
            },
        }
    }

    fn replace_role(&mut self, i: usize, role: MemberRole)
        requires
            old(self).wf(),
            i < old(self).rows().len(),
        ensures
            final(self).wf(),
            final(self).rows() == old(self).rows().update(
                i as int,
                WorkspaceMember { role, ..old(self).rows()[i as int] },
            ),
    {
        let row = self.rows.remove(i);
        let updated = WorkspaceMember {
            workspace_id: row.workspace_id,
            user_id: row.user_id,
            role,
            permissions: row.permissions,
            invited_by: row.invited_by,
            joined_at: row.joined_at,
        };
        self.rows.insert(i, updated);
        proof {
            let before = old(self).rows@;
            let after = self.rows@;
            assert(after == before.update(i as int, WorkspaceMember { role, ..before[i as int] }));
            assert forall|a: int, b: int|
                0 <= a < after.len() && 0 <= b < after.len() && a != b implies !is_row_of(
                #[trigger] after[a],
                (#[trigger] after[b]).workspace_id,
                after[b].user_id,
            ) by {
                assert(!is_row_of(before[a], before[b].workspace_id, before[b].user_id));
            }
        }
    }

    /// Sets the role of the pair's row. Returns whether there was a row.
    pub fn set_role(&mut self, workspace_id: u128, user_id: u128, role: MemberRole) -> (changed: bool)
        requires
            old(self).wf(),
        ensures
            final(self).wf(),
            changed == has_member(old(self).rows(), workspace_id, user_id),
            final(self).rows() == with_role(old(self).rows(), workspace_id, user_id, role),
    {
        match self.locate(workspace_id, user_id) {
            Some(i) => {
                self.replace_role(i, role);
                true
            },
            None => false,
        }
    }

    /// Removes the pair's row. Returns whether there was a row.
    pub fn remove(&mut self, workspace_id: u128, user_id: u128) -> (removed: bool)
        requires
            old(self).wf(),
        ensures
            final(self).wf(),
            removed == has_member(old(self).rows(), workspace_id, user_id),
            final(self).rows() == without_member(old(self).rows(), workspace_id, user_id),
    {
        match self.locate(workspace_id, user_id) {
            Some(i) => {
                let _ = self.rows.remove(i);
                proof {
                    let before = old(self).rows@;
                    let after = self.rows@;
                    assert forall|a: int, b: int|
                        0 <= a < after.len() && 0 <= b < after.len() && a != b implies !is_row_of(
                        #[trigger] after[a],
                        (#[trigger] after[b]).workspace_id,
                        after[b].user_id,
                    ) by {
                        let a0 = if a < i { a } else { a + 1 };
                        let b0 = if b < i { b } else { b + 1 };
                        assert(!is_row_of(before[a0], before[b0].workspace_id, before[b0].user_id));
                    }
                }
                true
            },
            None => false,
        }
    }

    /// Replaces the explicit permissions of the pair's row. Returns whether
    /// there was a row.
    pub fn set_permissions(
        &mut self,
        workspace_id: u128,
        user_id: u128,
        permissions: Vec<WorkspacePermission>,
    ) -> (changed: bool)
        requires
            old(self).wf(),
        ensures
            final(self).wf(),
            changed == has_member(old(self).rows(), workspace_id, user_id),
            !changed ==> final(self).rows() == old(self).rows(),
            changed ==> {
                let i = row_index(old(self).rows(), workspace_id, user_id);
                &&& final(self).rows() == old(self).rows().update(i, final(self).rows()[i])
                &&& final(self).rows()[i].permissions@ == permissions@
                &&& final(self).rows()[i].workspace_id == workspace_id
                &&& final(self).rows()[i].user_id == user_id
                &&& final(self).rows()[i].role == old(self).rows()[i].role
                &&& final(self).rows()[i].invited_by == old(self).rows()[i].invited_by
                &&& final(self).rows()[i].joined_at == old(self).rows()[i].joined_at
            },
    {
        match self.locate(workspace_id, user_id) {
            Some(i) => {
                let row = self.rows.remove(i);
                let updated = WorkspaceMember {
                    workspace_id: row.workspace_id,
                    user_id: row.user_id,
                    role: row.role,
                    permissions,
                    invited_by: row.invited_by,
                    joined_at: row.joined_at,
                };
                self.rows.insert(i, updated);
                proof {
                    let before = old(self).rows@;
                    let after = self.rows@;
                    assert(after == before.update(i as int, after[i as int]));
                    assert forall|a: int, b: int|
                        0 <= a < after.len() && 0 <= b < after.len() && a != b implies !is_row_of(
                        #[trigger] after[a],
                        (#[trigger] after[b]).workspace_id,
                        after[b].user_id,
                    ) by {
                        assert(!is_row_of(before[a], before[b].workspace_id, before[b].user_id));
                    }
                }
                true
            },
            None => false,
        }
    }
}

/// Writes a membership: a new row with `role`, or `role` into the row that
/// the pair has.
pub fn add_member(
    executor: &mut MemberTable,
    workspace_id: u128,
    user_id: u128,
    role: MemberRole,
    invited_by: Option<u128>,
    joined_at: i64,
)
    requires
        old(executor).wf(),
    ensures
        final(executor).wf(),
        upserted(
            old(executor).rows(),
            final(executor).rows(),
            workspace_id,
            user_id,
            role,
            invited_by,
            joined_at,
        ),
{
    executor.upsert(workspace_id, user_id, role, invited_by, joined_at);
}

/// The role of the principal in the workspace, if it is a member.
pub fn check_user_role(pool: &MemberTable, workspace_id: u128, user_id: u128) -> (role: Option<
    MemberRole,
>)
    requires
        pool.wf(),
    ensures
        role == role_of(pool.rows(), workspace_id, user_id),
{
    pool.role(workspace_id, user_id)
}

/// Whether the principal is a member of the workspace.
pub fn is_member(executor: &MemberTable, workspace_id: u128, user_id: u128) -> (exists: bool)
    requires
        executor.wf(),
    ensures
        exists == has_member(executor.rows(), workspace_id, user_id),
{
    executor.role(workspace_id, user_id).is_some()
}

/// Succeeds for a member of the workspace, and fails with `NotFound` for
/// anybody else.
pub fn assert_membership(pool: &MemberTable, workspace_id: u128, user_id: u128) -> (r: Result<
    (),
    IdentityError,
>)
    requires
        pool.wf(),
    ensures
        r is Ok <==> has_member(pool.rows(), workspace_id, user_id),
        r is Err ==> r == Err::<(), IdentityError>(IdentityError::NotFound),
{
    if is_member(pool, workspace_id, user_id) {
        Ok(())
    } else {
        Err(IdentityError::NotFound)
    }
}

/// Succeeds for a top-tier member of the workspace, and fails with
/// `PermissionDenied` for anybody else.
pub fn assert_admin(pool: &MemberTable, workspace_id: u128, user_id: u128) -> (r: Result<
    (),
    IdentityError,
>)
    requires
        pool.wf(),
    ensures
        r is Ok <==> role_of(pool.rows(), workspace_id, user_id) == Some(MemberRole::Admin),
        r is Err ==> r == Err::<(), IdentityError>(IdentityError::PermissionDenied),
{
    match check_user_role(pool, workspace_id, user_id) {
        Some(MemberRole::Admin) => Ok(()),
        _ => Err(IdentityError::PermissionDenied),
    }
}

/// Whether the principal may use `permission` in the workspace.
pub fn has_permission(
    pool: &MemberTable,
    workspace_id: u128,
    user_id: u128,
    permission: WorkspacePermission,
) -> (b: bool)
    requires
        pool.wf(),
    ensures
        b == may_use(pool.rows(), workspace_id, user_id, permission),
{
    pool.allows(workspace_id, user_id, permission)
}

/// Succeeds where the principal may use `permission` in the workspace, and
/// fails with `PermissionDenied` otherwise.
pub fn assert_permission(
    pool: &MemberTable,
    workspace_id: u128,
    user_id: u128,
    permission: WorkspacePermission,
) -> (r: Result<(), IdentityError>)
    requires
        pool.wf(),
    ensures
        r is Ok <==> may_use(pool.rows(), workspace_id, user_id, permission),
        r is Err ==> r == Err::<(), IdentityError>(IdentityError::PermissionDenied),
{
    if has_permission(pool, workspace_id, user_id, permission) {
        Ok(())
    } else {
        Err(IdentityError::PermissionDenied)
    }
}

/// A top-tier member may use every permission.
pub proof fn admin_may_use_all(
    rows: Seq<WorkspaceMember>,
    workspace_id: u128,
    user_id: u128,
    permission: WorkspacePermission,
)
    requires
        role_of(rows, workspace_id, user_id) == Some(MemberRole::Admin),
    ensures
        may_use(rows, workspace_id, user_id, permission),
{
}

} // verus!
