//! The catalog of permission keys.

use vstd::prelude::*;
use vstd::utf8::encode_utf8;

use crate::models::database::{has_permission_id, Database, StoreError};
use crate::order::{lists, pick, rank, Ranked};
use crate::text::{
    begins_with,
    lemma_bytes_le_total,
    lemma_bytes_le_transitive,
    starts_with,
    text_eq,
    text_le,
    text_precedes,
};

pub mod keys;

verus! {

/// A permission: a dotted key, the one stable name of what it allows.
#[derive(Debug, Clone)]
pub struct Permission {
    pub id: u128,
    pub key: String,
    pub description: Option<String>,
    pub created_at: i64,
}

/// Permissions are listed by key.
impl Ranked for Permission {
    open spec fn precedes(&self, other: &Self) -> bool {
        text_le(self.key@, other.key@)
    }

    fn comes_first(&self, other: &Self) -> (b: bool) {
        text_precedes(self.key.as_str(), other.key.as_str())
    }

    proof fn lemma_rank_total(a: &Self, b: &Self) {
        lemma_bytes_le_total(encode_utf8(a.key@), encode_utf8(b.key@));
    }

    proof fn lemma_rank_transitive(a: &Self, b: &Self, c: &Self) {
        lemma_bytes_le_transitive(encode_utf8(a.key@), encode_utf8(b.key@), encode_utf8(c.key@));
    }
}

/// All permissions, in row order.
pub open spec fn all_permissions<'a>(rows: Seq<Permission>) -> Seq<&'a Permission> {
    pick(rows, |p: Permission| true)
}

/// The permissions whose key begins with the prefix, in row order.
pub open spec fn permissions_under<'a>(rows: Seq<Permission>, prefix: Seq<char>) -> Seq<
    &'a Permission,
> {
    pick(rows, |p: Permission| begins_with(p.key@, prefix))
}

/// Whether a permission has the key.
pub open spec fn has_key(rows: Seq<Permission>, key: Seq<char>) -> bool {
    exists|i: int| 0 <= i < rows.len() && (#[trigger] rows[i]).key@ == key
}

impl Permission {
    /// All permissions, by key.
    pub fn find_all(pool: &Database) -> (found: Vec<&Permission>)
        ensures
            lists(found@, all_permissions(pool.permission_rows())),
    {
        let mut selected: Vec<&Permission> = Vec::new();
        let mut i: usize = 0;
        while i < pool.permissions.len()
            invariant
                i <= pool.permissions@.len(),
                selected@ == all_permissions(pool.permissions@.take(i as int)),
            decreases pool.permissions@.len() - i,
        {
            assert(pool.permissions@.take(i + 1).drop_last() == pool.permissions@.take(i as int));
            selected.push(&pool.permissions[i]);
            i = i + 1;
        }
        assert(pool.permissions@.take(i as int) == pool.permissions@);
        rank(selected)
    }

    /// The permission with the identifier.
    pub fn find_by_id(pool: &Database, id: u128) -> (found: Option<&Permission>)
        ensures
            found is Some == has_permission_id(pool.permission_rows(), id),
            found matches Some(p) ==> p.id == id && pool.permission_rows().contains(*p),
    {
        let mut i: usize = 0;
        while i < pool.permissions.len()
            invariant
                i <= pool.permissions@.len(),
                forall|j: int| 0 <= j < i ==> (#[trigger] pool.permissions@[j]).id != id,
            decreases pool.permissions@.len() - i,
        {
            if pool.permissions[i].id == id {
                return Some(&pool.permissions[i]);
            }
            i = i + 1;
        }
        None
    }

    /// The permission with the key.
    pub fn find_by_key<'a>(pool: &'a Database, key: &str) -> (found: Option<&'a Permission>)
        ensures
            found is Some == has_key(pool.permission_rows(), key@),
            found matches Some(p) ==> p.key@ == key@ && pool.permission_rows().contains(*p),
    {
        let mut i: usize = 0;
        while i < pool.permissions.len()
            invariant
                i <= pool.permissions@.len(),
                forall|j: int| 0 <= j < i ==> (#[trigger] pool.permissions@[j]).key@ != key@,
            decreases pool.permissions@.len() - i,
        {
            if text_eq(pool.permissions[i].key.as_str(), key) {
                return Some(&pool.permissions[i]);
            }
            i = i + 1;
        }
        None
    }

    /// Find permissions by a prefix (e.g., "workspace." for all workspace
    /// permissions), by key.
    pub fn find_by_prefix<'a>(pool: &'a Database, prefix: &str) -> (found: Vec<&'a Permission>)
        ensures
            lists(found@, permissions_under(pool.permission_rows(), prefix@)),
    {
        let mut selected: Vec<&Permission> = Vec::new();
        let mut i: usize = 0;
        while i < pool.permissions.len()
            invariant
                i <= pool.permissions@.len(),
                selected@ == permissions_under(pool.permissions@.take(i as int), prefix@),
            decreases pool.permissions@.len() - i,
        {
            assert(pool.permissions@.take(i + 1).drop_last() == pool.permissions@.take(i as int));
            if starts_with(pool.permissions[i].key.as_str(), prefix) {
                selected.push(&pool.permissions[i]);
            }
            i = i + 1;
        }
        assert(pool.permissions@.take(i as int) == pool.permissions@);
        rank(selected)
    }

    /// Enters a permission into the catalog. An identifier or a key that is
    /// taken is refused, and the catalog stays as it is.
    pub fn create(
        pool: &mut Database,
        id: u128,
        key: &str,
        description: Option<String>,
        created_at: i64,
    ) -> (r: Result<(), StoreError>)
        requires
            old(pool).wf(),
        ensures
            final(pool).wf(),
            final(pool).role_rows() == old(pool).role_rows(),
            final(pool).grant_rows() == old(pool).grant_rows(),
            final(pool).team_rows() == old(pool).team_rows(),
            final(pool).member_rows() == old(pool).member_rows(),
            r is Ok <==> !has_permission_id(old(pool).permission_rows(), id) && !has_key(
                old(pool).permission_rows(),
                key@,
            ),
            r is Err ==> r == Err::<(), StoreError>(StoreError::UniqueViolation)
                && final(pool).permission_rows() == old(pool).permission_rows(),
            r is Ok ==> {
                let rows = final(pool).permission_rows();
                &&& rows.drop_last() == old(pool).permission_rows()
                &&& rows.len() == old(pool).permission_rows().len() + 1
                &&& rows.last().id == id
                &&& rows.last().key@ == key@
                &&& rows.last().description == description
                &&& rows.last().created_at == created_at
            },
    {
        if Permission::find_by_id(pool, id).is_some() || Permission::find_by_key(pool, key).is_some() {
            return Err(StoreError::UniqueViolation);
        }
        pool.permissions.push(Permission { id, key: key.to_owned(), description, created_at });
        proof {
            let before = old(pool).permissions@;
            let after = pool.permissions@;
            assert(after.drop_last() == before);
            assert forall|a: int, b: int|
                0 <= a < after.len() && 0 <= b < after.len() && a != b implies (
            #[trigger] after[a]).id != (#[trigger] after[b]).id && after[a].key@
                != after[b].key@ by {
                if a < before.len() && b < before.len() {
                    assert(before[a].id != before[b].id);
                } else if a < before.len() {
                    assert(before[a].id != id && before[a].key@ != key@);
                } else {
                    assert(before[b].id != id && before[b].key@ != key@);
                }
            }
            assert forall|i: int| 0 <= i < pool.role_permissions@.len() implies has_permission_id(
                after,
                (#[trigger] pool.role_permissions@[i]).permission_id,
            ) by {
                let g = pool.role_permissions@[i];
                assert(has_permission_id(before, g.permission_id));
                let k = choose|k: int| 0 <= k < before.len() && (#[trigger] before[k]).id == g.permission_id;
                assert(after[k].id == g.permission_id);
            }
        }
        Ok(())
    }
}

} // verus!
