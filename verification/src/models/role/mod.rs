//! Roles and the permissions they own.

use vstd::prelude::*;
use vstd::utf8::encode_utf8;

use crate::models::database::{
    has_permission_id,
    has_role,
    lemma_has_role_push,
    lemma_has_role_remove,
    lemma_has_role_update,
    roles_wf,
    Database,
    RolePermission,
    StoreError,
};
use crate::models::permission::Permission;
use crate::order::{lists, pick, rank, Ranked};
use crate::services::workspace_team::WorkspaceTeamServiceError;
use crate::text::{
    copy_text,
    lemma_bytes_le_total,
    lemma_bytes_le_transitive,
    text_eq,
    text_le,
    text_of,
    text_precedes,
};

pub mod system_roles;

verus! {

/// A role: a named set of permissions. System roles are seeded once and can be
/// neither changed nor deleted.
#[derive(Debug, Clone)]
pub struct Role {
    pub id: u128,
    pub name: String,
    pub description: Option<String>,
    pub is_system: bool,
    pub created_at: i64,
    pub updated_at: i64,
}

/// What a new custom role is made of.
#[derive(Debug, Clone)]
pub struct CreateRole {
    pub name: String,
    pub description: Option<String>,
}

/// The fields of a role to overwrite. A field that is `None` is kept.
#[derive(Debug, Clone)]
pub struct UpdateRole {
    pub name: Option<String>,
    pub description: Option<String>,
}

/// Roles are listed with the system roles first, and by name among their
/// like.
impl Ranked for Role {
    open spec fn precedes(&self, other: &Self) -> bool {
        if self.is_system == other.is_system {
            text_le(self.name@, other.name@)
        } else {
            self.is_system
        }
    }

    fn comes_first(&self, other: &Self) -> (b: bool) {
        if self.is_system == other.is_system {
            text_precedes(self.name.as_str(), other.name.as_str())
        } else {
            self.is_system
        }
    }

    proof fn lemma_rank_total(a: &Self, b: &Self) {
        lemma_bytes_le_total(encode_utf8(a.name@), encode_utf8(b.name@));
    }

    proof fn lemma_rank_transitive(a: &Self, b: &Self, c: &Self) {
        if a.is_system == b.is_system && b.is_system == c.is_system {
            lemma_bytes_le_transitive(
                encode_utf8(a.name@),
                encode_utf8(b.name@),
                encode_utf8(c.name@),
            );
        }
    }
}

/// Whether a role has the name.
pub open spec fn has_role_named(rows: Seq<Role>, name: Seq<char>) -> bool {
    exists|i: int| 0 <= i < rows.len() && (#[trigger] rows[i]).name@ == name
}

/// Whether the role was granted the permission.
pub open spec fn is_granted(grants: Seq<RolePermission>, role_id: u128, permission_id: u128) -> bool {
    grants.contains(RolePermission { role_id, permission_id })
}

/// All roles, in row order.
pub open spec fn all_roles<'a>(rows: Seq<Role>) -> Seq<&'a Role> {
    pick(rows, |r: Role| true)
}

/// The permissions that were granted to the role, in row order.
pub open spec fn permissions_of_role<'a>(
    permissions: Seq<Permission>,
    grants: Seq<RolePermission>,
    role_id: u128,
) -> Seq<&'a Permission> {
    pick(permissions, |p: Permission| is_granted(grants, role_id, p.id))
}

/// Whether the role owns the permission key: a permission with the key
/// exists and was granted to the role.
pub open spec fn role_owns_key(
    grants: Seq<RolePermission>,
    permissions: Seq<Permission>,
    role_id: u128,
    key: Seq<char>,
) -> bool {
    exists|i: int|
        0 <= i < permissions.len() && (#[trigger] permissions[i]).key@ == key && is_granted(
            grants,
            role_id,
            permissions[i].id,
        )
}

impl Role {
    /// A copy that is equal to the role.
    pub fn duplicate(&self) -> (copy: Role)
        ensures
            copy == *self,
    {
        Role {
            id: self.id,
            name: self.name.clone(),
            description: copy_text(&self.description),
            is_system: self.is_system,
            created_at: self.created_at,
            updated_at: self.updated_at,
        }
    }

    /// All roles: the system roles first, then the others, each group by
    /// name.
    pub fn find_all(pool: &Database) -> (found: Vec<&Role>)
        ensures
            lists(found@, all_roles(pool.role_rows())),
    {
        let mut selected: Vec<&Role> = Vec::new();
        let mut i: usize = 0;
        while i < pool.roles.len()
            invariant
                i <= pool.roles@.len(),
                selected@ == all_roles(pool.roles@.take(i as int)),
            decreases pool.roles@.len() - i,
        {
            assert(pool.roles@.take(i + 1).drop_last() == pool.roles@.take(i as int));
            selected.push(&pool.roles[i]);
            i = i + 1;
        }
        assert(pool.roles@.take(i as int) == pool.roles@);
        rank(selected)
    }

    pub(crate) fn position(pool: &Database, id: u128) -> (found: Option<usize>)
        ensures
            found is Some == has_role(pool.role_rows(), id),
            found matches Some(i) ==> i < pool.role_rows().len() && pool.role_rows()[i as int].id
                == id,
    {
        let mut i: usize = 0;
        while i < pool.roles.len()
            invariant
                i <= pool.roles@.len(),
                forall|j: int| 0 <= j < i ==> (#[trigger] pool.roles@[j]).id != id,
            decreases pool.roles@.len() - i,
        {
            if pool.roles[i].id == id {
                return Some(i);
            }
            i = i + 1;
        }
        None
    }

    /// The role with the identifier.
    pub fn find_by_id(pool: &Database, id: u128) -> (found: Option<&Role>)
        ensures
            found is Some == has_role(pool.role_rows(), id),
            found matches Some(role) ==> role.id == id && pool.role_rows().contains(*role),
    {
        match Role::position(pool, id) {
            Some(i) => Some(&pool.roles[i]),
            None => None,
        }
    }

    /// The role with the name.
    pub fn find_by_name<'a>(pool: &'a Database, name: &str) -> (found: Option<&'a Role>)
        ensures
            found is Some == has_role_named(pool.role_rows(), name@),
            found matches Some(role) ==> role.name@ == name@ && pool.role_rows().contains(*role),
    {
        let mut i: usize = 0;
        while i < pool.roles.len()
            invariant
                i <= pool.roles@.len(),
                forall|j: int| 0 <= j < i ==> (#[trigger] pool.roles@[j]).name@ != name@,
            decreases pool.roles@.len() - i,
        {
            if text_eq(pool.roles[i].name.as_str(), name) {
                return Some(&pool.roles[i]);
            }
            i = i + 1;
        }
        None
    }

    /// Check if a role has a specific permission
    pub fn has_permission(pool: &Database, role_id: u128, permission_key: &str) -> (b: bool)
        ensures
            b == role_owns_key(
                pool.grant_rows(),
                pool.permission_rows(),
                role_id,
                permission_key@,
            ),
    {
        let mut i: usize = 0;
        while i < pool.permissions.len()
            invariant
                i <= pool.permissions@.len(),
                forall|j: int|
                    0 <= j < i ==> !((#[trigger] pool.permissions@[j]).key@ == permission_key@
                        && is_granted(pool.role_permissions@, role_id, pool.permissions@[j].id)),
            decreases pool.permissions@.len() - i,
        {
            if text_eq(pool.permissions[i].key.as_str(), permission_key) && Role::granted(
                pool,
                role_id,
                pool.permissions[i].id,
            ) {
                return true;
            }
            i = i + 1;
        }
        false
    }

    /// Whether the permission was granted to the role.
    pub fn granted(pool: &Database, role_id: u128, permission_id: u128) -> (b: bool)
        ensures
            b == is_granted(pool.grant_rows(), role_id, permission_id),
    {
        let mut i: usize = 0;
        while i < pool.role_permissions.len()
            invariant
                i <= pool.role_permissions@.len(),
                forall|j: int|
                    0 <= j < i ==> #[trigger] pool.role_permissions@[j] != (RolePermission {
                        role_id,
                        permission_id,
                    }),
            decreases pool.role_permissions@.len() - i,
        {
            let grant = pool.role_permissions[i];
            if grant.role_id == role_id && grant.permission_id == permission_id {
                assert(pool.role_permissions@[i as int] == (RolePermission { role_id, permission_id }));
                return true;
            }
            i = i + 1;
        }
        false
    }

    /// The permissions that the role owns, by key.
    pub fn permissions(pool: &Database, role_id: u128) -> (found: Vec<&Permission>)
        ensures
            lists(found@, permissions_of_role(pool.permission_rows(), pool.grant_rows(), role_id)),
    {
        let mut selected: Vec<&Permission> = Vec::new();
        let mut i: usize = 0;
        while i < pool.permissions.len()
            invariant
                i <= pool.permissions@.len(),
                selected@ == permissions_of_role(pool.permissions@.take(i as int), pool.role_permissions@, role_id),
            decreases pool.permissions@.len() - i,
        {
            assert(pool.permissions@.take(i + 1).drop_last() == pool.permissions@.take(i as int));
            if Role::granted(pool, role_id, pool.permissions[i].id) {
                selected.push(&pool.permissions[i]);
            }
            i = i + 1;
        }
        assert(pool.permissions@.take(i as int) == pool.permissions@);
        rank(selected)
    }
}

/// The keys of a listing of permissions, in the listing's order.
pub open spec fn keys_of(listing: Seq<&Permission>) -> Seq<Seq<char>> {
    Seq::new(listing.len(), |k: int| listing[k].key@)
}

/// The texts of a list of keys.
pub open spec fn texts(keys: Seq<String>) -> Seq<Seq<char>> {
    Seq::new(keys.len(), |k: int| keys[k]@)
}

/// Whether `keys` are the keys that the role owns, each once, in the order
/// of the keys.
pub open spec fn lists_keys_of_role(pool: Database, role_id: u128, keys: Seq<String>) -> bool {
    exists|listing: Seq<&Permission>|
        {
            &&& lists(listing, permissions_of_role(pool.permission_rows(), pool.grant_rows(), role_id))
            &&& #[trigger] keys_of(listing) == texts(keys)
        }
}

/// The keys of a listing of permissions, as texts of their own.
pub fn collect_keys(listing: &Vec<&Permission>) -> (keys: Vec<String>)
    ensures
        texts(keys@) == keys_of(listing@),
{
    let mut keys: Vec<String> = Vec::new();
    let mut i: usize = 0;
    while i < listing.len()
        invariant
            i <= listing@.len(),
            keys@.len() == i,
            forall|k: int| 0 <= k < i ==> (#[trigger] keys@[k])@ == listing@[k].key@,
        decreases listing@.len() - i,
    {
        keys.push(listing[i].key.clone());
        i = i + 1;
    }
    assert(texts(keys@) =~= keys_of(listing@));
    keys
}

impl Role {
    /// Get all permissions for a role: the keys that the role owns, each
    /// once, in the order of the keys.
    pub fn get_permissions(pool: &Database, role_id: u128) -> (keys: Vec<String>)
        ensures
            lists_keys_of_role(*pool, role_id, keys@),
    {
        let found = Role::permissions(pool, role_id);
        let keys = collect_keys(&found);
        assert(keys_of(found@) == texts(keys@));
        keys
    }
}

/// Whether a member holds the role.
pub open spec fn role_in_use(members: Seq<crate::models::workspace_member::WorkspaceMember>, id: u128) -> bool {
    exists|i: int| 0 <= i < members.len() && (#[trigger] members[i]).role_id == id
}

/// Whether a role other than `id` has the name.
pub open spec fn name_taken_by_other(rows: Seq<Role>, id: u128, name: Seq<char>) -> bool {
    exists|i: int| 0 <= i < rows.len() && (#[trigger] rows[i]).id != id && rows[i].name@ == name
}

/// The index of the role with the identifier.
pub open spec fn role_index(rows: Seq<Role>, id: u128) -> int {
    choose|i: int| 0 <= i < rows.len() && (#[trigger] rows[i]).id == id
}

/// Under the constraints of the table, an index that holds the role is the
/// role's index.
pub proof fn lemma_role_index_is(rows: Seq<Role>, id: u128, i: int)
    requires
        roles_wf(rows),
        0 <= i < rows.len(),
        rows[i].id == id,
    ensures
        role_index(rows, id) == i,
{
    let j = role_index(rows, id);
    if i != j {
        assert(rows[i].id != rows[j].id);
    }
}

impl Role {
    fn insert(pool: &mut Database, role: Role)
        requires
            old(pool).wf(),
            !has_role(old(pool).role_rows(), role.id),
            !has_role_named(old(pool).role_rows(), role.name@),
        ensures
            final(pool).wf(),
            final(pool).role_rows() == old(pool).role_rows().push(role),
            final(pool).permission_rows() == old(pool).permission_rows(),
            final(pool).grant_rows() == old(pool).grant_rows(),
            final(pool).team_rows() == old(pool).team_rows(),
            final(pool).member_rows() == old(pool).member_rows(),
    {
        let ghost before = pool.roles@;
        pool.roles.push(role);
        proof {
            let after = pool.roles@;
            assert forall|a: int, b: int|
                0 <= a < after.len() && 0 <= b < after.len() && a != b implies (
            #[trigger] after[a]).id != (#[trigger] after[b]).id && after[a].name@
                != after[b].name@ by {
                if a < before.len() && b < before.len() {
                    assert(before[a].id != before[b].id);
                } else if a < before.len() {
                    assert(before[a].id != role.id && before[a].name@ != role.name@);
                } else {
                    assert(before[b].id != role.id && before[b].name@ != role.name@);
                }
            }
            assert forall|i: int| 0 <= i < pool.members@.len() implies has_role(
                after,
                (#[trigger] pool.members@[i]).role_id,
            ) by {
                lemma_has_role_push(before, role, pool.members@[i].role_id);
            }
            assert forall|i: int| 0 <= i < pool.role_permissions@.len() implies has_role(
                after,
                (#[trigger] pool.role_permissions@[i]).role_id,
            ) by {
                lemma_has_role_push(before, role, pool.role_permissions@[i].role_id);
            }
        }
    }

    /// Creates a custom role. An identifier or a name that is taken is
    /// refused, and the table stays as it is.
    pub fn create(pool: &mut Database, data: &CreateRole, id: u128, now: i64) -> (r: Result<
        Role,
        StoreError,
    >)
        requires
            old(pool).wf(),
        ensures
            final(pool).wf(),
            final(pool).permission_rows() == old(pool).permission_rows(),
            final(pool).grant_rows() == old(pool).grant_rows(),
            final(pool).team_rows() == old(pool).team_rows(),
            final(pool).member_rows() == old(pool).member_rows(),
            r is Ok <==> !has_role(old(pool).role_rows(), id) && !has_role_named(
                old(pool).role_rows(),
                data.name@,
            ),
            r matches Err(e) ==> e == StoreError::UniqueViolation && final(pool).role_rows() == old(pool).role_rows(),
            r matches Ok(role) ==> {
                &&& final(pool).role_rows() == old(pool).role_rows().push(role)
                &&& role.id == id
                &&& role.name@ == data.name@
                &&& role.description == data.description
                &&& !role.is_system
                &&& role.created_at == now
                &&& role.updated_at == now
            },
    {
        Role::enter(pool, id, data.name.as_str(), copy_text(&data.description), false, now)
    }

    /// Enters a system role: one that can be neither changed nor deleted.
    pub fn seed(pool: &mut Database, id: u128, name: &str, now: i64) -> (r: Result<Role, StoreError>)
        requires
            old(pool).wf(),
        ensures
            final(pool).wf(),
            final(pool).permission_rows() == old(pool).permission_rows(),
            final(pool).grant_rows() == old(pool).grant_rows(),
            final(pool).team_rows() == old(pool).team_rows(),
            final(pool).member_rows() == old(pool).member_rows(),
            r is Ok <==> !has_role(old(pool).role_rows(), id) && !has_role_named(
                old(pool).role_rows(),
                name@,
            ),
            r matches Err(e) ==> e == StoreError::UniqueViolation && final(pool).role_rows() == old(pool).role_rows(),
            r matches Ok(role) ==> {
                &&& final(pool).role_rows() == old(pool).role_rows().push(role)
                &&& role.id == id
                &&& role.name@ == name@
                &&& role.description is None
                &&& role.is_system
                &&& role.created_at == now
                &&& role.updated_at == now
            },
    {
        Role::enter(pool, id, name, None, true, now)
    }

    fn enter(
        pool: &mut Database,
        id: u128,
        name: &str,
        description: Option<String>,
        is_system: bool,
        now: i64,
    ) -> (r: Result<Role, StoreError>)
        requires
            old(pool).wf(),
        ensures
            final(pool).wf(),
            final(pool).permission_rows() == old(pool).permission_rows(),
            final(pool).grant_rows() == old(pool).grant_rows(),
            final(pool).team_rows() == old(pool).team_rows(),
            final(pool).member_rows() == old(pool).member_rows(),
            r is Ok <==> !has_role(old(pool).role_rows(), id) && !has_role_named(
                old(pool).role_rows(),
                name@,
            ),
            r matches Err(e) ==> e == StoreError::UniqueViolation && final(pool).role_rows() == old(pool).role_rows(),
            r matches Ok(role) ==> {
                &&& final(pool).role_rows() == old(pool).role_rows().push(role)
                &&& role.id == id
                &&& role.name@ == name@
                &&& role.description == description
                &&& role.is_system == is_system
                &&& role.created_at == now
                &&& role.updated_at == now
            },
    {
        if Role::position(pool, id).is_some() || Role::find_by_name(pool, name).is_some() {
            return Err(StoreError::UniqueViolation);
        }
        let role = Role {
            id,
            name: name.to_owned(),
            description,
            is_system,
            created_at: now,
            updated_at: now,
        };
        let copy = role.duplicate();
        Role::insert(pool, role);
        Ok(copy)
    }

    /// Enters a role as it is on record elsewhere. An identifier or a name
    /// that is taken is refused.
    pub fn restore(pool: &mut Database, role: Role) -> (r: Result<(), StoreError>)
        requires
            old(pool).wf(),
        ensures
            final(pool).wf(),
            final(pool).permission_rows() == old(pool).permission_rows(),
            final(pool).grant_rows() == old(pool).grant_rows(),
            final(pool).team_rows() == old(pool).team_rows(),
            final(pool).member_rows() == old(pool).member_rows(),
            r is Ok <==> !has_role(old(pool).role_rows(), role.id) && !has_role_named(
                old(pool).role_rows(),
                role.name@,
            ),
            r matches Err(e) ==> e == StoreError::UniqueViolation,
            final(pool).role_rows() == if r is Ok {
                old(pool).role_rows().push(role)
            } else {
                old(pool).role_rows()
            },
    {
        if Role::position(pool, role.id).is_some() || Role::find_by_name(
            pool,
            role.name.as_str(),
        ).is_some() {
            return Err(StoreError::UniqueViolation);
        }
        Role::insert(pool, role);
        Ok(())
    }

    /// Grants a permission to a role. Granting twice is granting once. A
    /// role or a permission that does not exist is refused.
    pub fn grant(pool: &mut Database, role_id: u128, permission_id: u128) -> (r: Result<
        (),
        StoreError,
    >)
        requires
            old(pool).wf(),
        ensures
            final(pool).wf(),
            final(pool).permission_rows() == old(pool).permission_rows(),
            final(pool).role_rows() == old(pool).role_rows(),
            final(pool).team_rows() == old(pool).team_rows(),
            final(pool).member_rows() == old(pool).member_rows(),
            r is Ok <==> has_role(old(pool).role_rows(), role_id) && has_permission_id(
                old(pool).permission_rows(),
                permission_id,
            ),
            r matches Err(e) ==> e == StoreError::ForeignKeyViolation && final(pool).grant_rows()
                == old(pool).grant_rows(),
            r is Ok ==> final(pool).grant_rows() == if is_granted(
                old(pool).grant_rows(),
                role_id,
                permission_id,
            ) {
                old(pool).grant_rows()
            } else {
                old(pool).grant_rows().push(RolePermission { role_id, permission_id })
            },
    {
        if Role::position(pool, role_id).is_none() || Permission::find_by_id(
            pool,
            permission_id,
        ).is_none() {
            return Err(StoreError::ForeignKeyViolation);
        }
        if Role::granted(pool, role_id, permission_id) {
            return Ok(());
        }
        let ghost before = pool.role_permissions@;
        pool.role_permissions.push(RolePermission { role_id, permission_id });
        proof {
            let after = pool.role_permissions@;
            assert forall|a: int, b: int|
                0 <= a < after.len() && 0 <= b < after.len() && a != b implies #[trigger] after[a]
                != #[trigger] after[b] by {
                if a < before.len() && b < before.len() {
                    assert(before[a] != before[b]);
                } else if a < before.len() {
                    assert(before.contains(before[a]));
                } else {
                    assert(before.contains(before[b]));
                }
            }
        }
        Ok(())
    }
}

/// Why a change to a role is refused, if it is: the role must exist, must
/// not be a system role, and must not take the name of another role.
pub open spec fn role_update_refusal(rows: Seq<Role>, id: u128, name: Option<Seq<char>>) -> Option<
    WorkspaceTeamServiceError,
> {
    if !has_role(rows, id) {
        Some(WorkspaceTeamServiceError::Database(StoreError::RowNotFound))
    } else if rows[role_index(rows, id)].is_system {
        Some(WorkspaceTeamServiceError::SystemRoleDelete)
    } else if name is Some && name_taken_by_other(rows, id, name->0) {
        Some(WorkspaceTeamServiceError::Database(StoreError::UniqueViolation))
    } else {
        None
    }
}

/// Why the deletion of a role is refused, if it is: the role must exist,
/// must not be a system role, and no member may hold it.
pub open spec fn role_delete_refusal(
    rows: Seq<Role>,
    members: Seq<crate::models::workspace_member::WorkspaceMember>,
    id: u128,
) -> Option<WorkspaceTeamServiceError> {
    if !has_role(rows, id) {
        Some(WorkspaceTeamServiceError::RoleNotFound)
    } else if rows[role_index(rows, id)].is_system {
        Some(WorkspaceTeamServiceError::SystemRoleDelete)
    } else if role_in_use(members, id) {
        Some(WorkspaceTeamServiceError::Database(StoreError::ForeignKeyViolation))
    } else {
        None
    }
}

impl Role {
    fn name_is_taken(pool: &Database, id: u128, name: &str) -> (b: bool)
        ensures
            b == name_taken_by_other(pool.role_rows(), id, name@),
    {
        let mut j: usize = 0;
        while j < pool.roles.len()
            invariant
                j <= pool.roles@.len(),
                forall|k: int|
                    0 <= k < j ==> !((#[trigger] pool.roles@[k]).id != id && pool.roles@[k].name@
                        == name@),
            decreases pool.roles@.len() - j,
        {
            if pool.roles[j].id != id && text_eq(pool.roles[j].name.as_str(), name) {
                return true;
            }
            j = j + 1;
        }
        false
    }

    fn is_in_use(pool: &Database, id: u128) -> (b: bool)
        ensures
            b == role_in_use(pool.member_rows(), id),
    {
        let mut j: usize = 0;
        while j < pool.members.len()
            invariant
                j <= pool.members@.len(),
                forall|k: int| 0 <= k < j ==> (#[trigger] pool.members@[k]).role_id != id,
            decreases pool.members@.len() - j,
        {
            if pool.members[j].role_id == id {
                return true;
            }
            j = j + 1;
        }
        false
    }

    /// Changes a custom role. Only the fields that `data` supplies are
    /// overwritten; the others keep their value.
    pub fn update(pool: &mut Database, id: u128, data: &UpdateRole, now: i64) -> (r: Result<
        Role,
        WorkspaceTeamServiceError,
    >)
        requires
            old(pool).wf(),
        ensures
            final(pool).wf(),
            final(pool).permission_rows() == old(pool).permission_rows(),
            final(pool).grant_rows() == old(pool).grant_rows(),
            final(pool).team_rows() == old(pool).team_rows(),
            final(pool).member_rows() == old(pool).member_rows(),
            match role_update_refusal(old(pool).role_rows(), id, text_of(data.name)) {
                Some(refusal) => r == Err::<Role, WorkspaceTeamServiceError>(refusal) && final(pool).role_rows() == old(pool).role_rows(),
                None => r is Ok && {
                    let i = role_index(old(pool).role_rows(), id);
                    let before = old(pool).role_rows()[i];
                    let role = r->Ok_0;
                    &&& final(pool).role_rows() == old(pool).role_rows().update(i, role)
                    &&& role.id == id
                    &&& role.name@ == if data.name is Some {
                        data.name->0@
                    } else {
                        before.name@
                    }
                    &&& role.description == if data.description is Some {
                        data.description
                    } else {
                        before.description
                    }
                    &&& role.is_system == before.is_system
                    &&& role.created_at == before.created_at
                    &&& role.updated_at == now
                },
            },
    {
        let i = match Role::position(pool, id) {
            Some(i) => i,
            None => {
                return Err(WorkspaceTeamServiceError::Database(StoreError::RowNotFound));
            },
        };
        proof {
            lemma_role_index_is(pool.roles@, id, i as int);
        }
        if pool.roles[i].is_system {
            return Err(WorkspaceTeamServiceError::SystemRoleDelete);
        }
        let taken = match &data.name {
            Some(name) => Role::name_is_taken(pool, id, name.as_str()),
            None => false,
        };
        if taken {
            return Err(WorkspaceTeamServiceError::Database(StoreError::UniqueViolation));
        }
        let ghost before = pool.roles@;
        let existing = pool.roles.remove(i);
        let name = match &data.name {
            Some(name) => name.clone(),
            None => existing.name,
        };
        let description = match &data.description {
            Some(text) => Some(text.clone()),
            None => existing.description,
        };
        let updated = Role {
            id: existing.id,
            name,
            description,
            is_system: existing.is_system,
            created_at: existing.created_at,
            updated_at: now,
        };
        let copy = updated.duplicate();
        pool.roles.insert(i, updated);
        proof {
            let after = pool.roles@;
            assert(after == before.update(i as int, copy));
            assert forall|a: int, b: int|
                0 <= a < after.len() && 0 <= b < after.len() && a != b implies (
            #[trigger] after[a]).id != (#[trigger] after[b]).id && after[a].name@
                != after[b].name@ by {
                assert(before[a].id != before[b].id && before[a].name@ != before[b].name@);
                if data.name is Some {
                    if a == i {
                        assert(!(before[b].id != id && before[b].name@ == data.name->0@));
                    }
                    if b == i {
                        assert(!(before[a].id != id && before[a].name@ == data.name->0@));
                    }
                }
            }
            assert forall|k: int| 0 <= k < pool.members@.len() implies has_role(
                after,
                (#[trigger] pool.members@[k]).role_id,
            ) by {
                lemma_has_role_update(before, i as int, copy, pool.members@[k].role_id);
            }
            assert forall|k: int| 0 <= k < pool.role_permissions@.len() implies has_role(
                after,
                (#[trigger] pool.role_permissions@[k]).role_id,
            ) by {
                lemma_has_role_update(before, i as int, copy, pool.role_permissions@[k].role_id);
            }
        }
        Ok(copy)
    }

    /// Deletes a custom role that no member holds, and the grants made to
    /// it.
    pub fn delete(pool: &mut Database, id: u128) -> (r: Result<(), WorkspaceTeamServiceError>)
        requires
            old(pool).wf(),
        ensures
            final(pool).wf(),
            final(pool).permission_rows() == old(pool).permission_rows(),
            final(pool).team_rows() == old(pool).team_rows(),
            final(pool).member_rows() == old(pool).member_rows(),
            match role_delete_refusal(old(pool).role_rows(), old(pool).member_rows(), id) {
                Some(refusal) => {
                    &&& r == Err::<(), WorkspaceTeamServiceError>(refusal)
                    &&& final(pool).role_rows() == old(pool).role_rows()
                    &&& final(pool).grant_rows() == old(pool).grant_rows()
                },
                None => {
                    &&& r is Ok
                    &&& final(pool).role_rows() == old(pool).role_rows().remove(
                        role_index(old(pool).role_rows(), id),
                    )
                    &&& forall|g: RolePermission|
                        #[trigger] final(pool).grant_rows().contains(g) <==> old(pool).grant_rows().contains(g) && g.role_id != id
                },
            },
    {
        let i = match Role::position(pool, id) {
            Some(i) => i,
            None => {
                return Err(WorkspaceTeamServiceError::RoleNotFound);
            },
        };
        proof {
            lemma_role_index_is(pool.roles@, id, i as int);
        }
        if pool.roles[i].is_system {
            return Err(WorkspaceTeamServiceError::SystemRoleDelete);
        }
        if Role::is_in_use(pool, id) {
            return Err(WorkspaceTeamServiceError::Database(StoreError::ForeignKeyViolation));
        }
        let ghost roles_before = pool.roles@;
        let ghost grants_before = pool.role_permissions@;
        let mut kept: Vec<RolePermission> = Vec::new();
        let ghost mut source: Seq<int> = Seq::empty();
        let mut k: usize = 0;
        while k < pool.role_permissions.len()
            invariant
                k <= pool.role_permissions@.len(),
                pool.role_permissions@ == grants_before,
                source.len() == kept@.len(),
                forall|a: int| 0 <= a < kept@.len() ==> 0 <= #[trigger] source[a] < k && kept@[a]
                    == grants_before[source[a]] && kept@[a].role_id != id,
                forall|a: int, b: int|
                    0 <= a < b < kept@.len() ==> #[trigger] source[a] < #[trigger] source[b],
                forall|j: int|
                    0 <= j < k && (#[trigger] grants_before[j]).role_id != id ==> kept@.contains(
                        grants_before[j],
                    ),
            decreases pool.role_permissions@.len() - k,
        {
            let grant = pool.role_permissions[k];
            if grant.role_id != id {
                let ghost kept_before = kept@;
                kept.push(grant);
                proof {
                    source = source.push(k as int);
                    assert(kept@[kept@.len() - 1] == grant);
                    assert forall|j: int|
                        0 <= j < k + 1 && (#[trigger] grants_before[j]).role_id
                            != id implies kept@.contains(grants_before[j]) by {
                        if j < k {
                            let a = choose|a: int|
                                0 <= a < kept_before.len() && kept_before[a] == grants_before[j];
                            assert(kept@[a] == grants_before[j]);
                        }
                    }
                }
            }
            k = k + 1;
        }
        let _ = pool.roles.remove(i);
        pool.role_permissions = kept;
        proof {
            let roles_after = pool.roles@;
            let grants_after = pool.role_permissions@;
            assert forall|a: int, b: int|
                0 <= a < roles_after.len() && 0 <= b < roles_after.len() && a != b implies (
            #[trigger] roles_after[a]).id != (#[trigger] roles_after[b]).id && roles_after[a].name@
                != roles_after[b].name@ by {
                let a0 = if a < i { a } else { a + 1 };
                let b0 = if b < i { b } else { b + 1 };
                assert(roles_before[a0].id != roles_before[b0].id && roles_before[a0].name@
                    != roles_before[b0].name@);
            }
            assert forall|a: int, b: int|
                0 <= a < grants_after.len() && 0 <= b < grants_after.len() && a
                    != b implies #[trigger] grants_after[a] != #[trigger] grants_after[b] by {
                if a < b {
                    assert(source[a] < source[b]);
                } else {
                    assert(source[b] < source[a]);
                }
                assert(grants_before[source[a]] != grants_before[source[b]]);
            }
            assert forall|m: int| 0 <= m < pool.members@.len() implies has_role(
                roles_after,
                (#[trigger] pool.members@[m]).role_id,
            ) by {
                lemma_has_role_remove(roles_before, i as int, pool.members@[m].role_id);
            }
            assert forall|a: int| 0 <= a < grants_after.len() implies has_role(
                roles_after,
                (#[trigger] grants_after[a]).role_id,
            ) && has_permission_id(pool.permissions@, grants_after[a].permission_id) by {
                assert(grants_after[a] == grants_before[source[a]]);
                lemma_has_role_remove(roles_before, i as int, grants_after[a].role_id);
            }
            assert forall|g: RolePermission| #[trigger]
                grants_after.contains(g) <==> grants_before.contains(g) && g.role_id != id by {
                if grants_after.contains(g) {
                    let a = choose|a: int| 0 <= a < grants_after.len() && grants_after[a] == g;
                    assert(grants_before[source[a]] == g);
                }
                if grants_before.contains(g) && g.role_id != id {
                    let j = choose|j: int| 0 <= j < grants_before.len() && grants_before[j] == g;
                    assert(grants_before[j].role_id != id);
                }
            }
        }
        Ok(())
    }
}

/// Whether every permission that was granted to `lower` was granted to
/// `upper` too.
pub open spec fn role_covers(grants: Seq<RolePermission>, upper: u128, lower: u128) -> bool {
    forall|permission_id: u128|
        #[trigger] is_granted(grants, lower, permission_id) ==> is_granted(
            grants,
            upper,
            permission_id,
        )
}

impl Role {
    /// Whether `upper` holds every permission that `lower` holds.
    pub fn covers(pool: &Database, upper: u128, lower: u128) -> (b: bool)
        ensures
            b == role_covers(pool.grant_rows(), upper, lower),
    {
        let mut i: usize = 0;
        while i < pool.role_permissions.len()
            invariant
                i <= pool.role_permissions@.len(),
                forall|j: int|
                    0 <= j < i && (#[trigger] pool.role_permissions@[j]).role_id == lower
                        ==> is_granted(
                        pool.role_permissions@,
                        upper,
                        pool.role_permissions@[j].permission_id,
                    ),
            decreases pool.role_permissions@.len() - i,
        {
            let grant = pool.role_permissions[i];
            if grant.role_id == lower && !Role::granted(pool, upper, grant.permission_id) {
                proof {
                    assert(pool.role_permissions@[i as int] == (RolePermission {
                        role_id: lower,
                        permission_id: grant.permission_id,
                    }));
                    assert(is_granted(pool.role_permissions@, lower, grant.permission_id));
                }
                return false;
            }
            i = i + 1;
        }
        proof {
            assert forall|permission_id: u128| #[trigger]
                is_granted(pool.role_permissions@, lower, permission_id) implies is_granted(
                pool.role_permissions@,
                upper,
                permission_id,
            ) by {
                let j = choose|j: int|
                    0 <= j < pool.role_permissions@.len() && pool.role_permissions@[j] == (
                    RolePermission { role_id: lower, permission_id });
                assert(pool.role_permissions@[j].role_id == lower);
            }
        }
        true
    }
}

/// A role that covers another owns every key that the other owns.
pub proof fn covering_role_owns_the_keys(
    grants: Seq<RolePermission>,
    permissions: Seq<Permission>,
    upper: u128,
    lower: u128,
    key: Seq<char>,
)
    requires
        role_covers(grants, upper, lower),
        role_owns_key(grants, permissions, lower, key),
    ensures
        role_owns_key(grants, permissions, upper, key),
{
    let i = choose|i: int|
        0 <= i < permissions.len() && (#[trigger] permissions[i]).key@ == key && is_granted(
            grants,
            lower,
            permissions[i].id,
        );
    assert(is_granted(grants, upper, permissions[i].id));
}

} // verus!
