//! Role/permission catalog management: read-only display data for the
//! guard, with simple relational CRUD.

use vstd::prelude::*;
use crate::clock::{MAX_TIMESTAMP, now_unix, timestamp_text_of};
use crate::error::AppError;
use crate::model::{
    CreateRoleRequest, DbRole, Permission, RolePermission, UpdatePermissionRequest,
    UpdateRoleRequest, opt_view,
};
use crate::store::MemoryRepository;

verus! {

/// Catalog CRUD over the store.
pub struct RoleService {
    pub repository: MemoryRepository,
}

impl RoleService {
    /// Builds the service around a store.
    pub fn new(repository: MemoryRepository) -> (r: Self)
        ensures
            r.repository == repository,
    {
        RoleService { repository }
    }

    /// The role catalog, in id order.
    pub fn get_roles(&self) -> (r: Result<Vec<DbRole>, AppError>)
        requires
            self.repository.wf(),
        ensures
            r is Ok,
            r matches Ok(roles) ==> roles@ == self.repository.roles@,
    {
        Ok(self.repository.get_roles())
    }

    /// The permission catalog, in insertion order.
    pub fn get_permissions(&self) -> (r: Result<Vec<Permission>, AppError>)
        requires
            self.repository.wf(),
        ensures
            r is Ok,
            r matches Ok(ps) ==> ps@ == self.repository.permissions@,
    {
        Ok(self.repository.get_permissions())
    }

    /// The role/permission association rows.
    pub fn get_role_permissions(&self) -> (r: Result<Vec<RolePermission>, AppError>)
        requires
            self.repository.wf(),
        ensures
            r is Ok,
            r matches Ok(rps) ==> rps@ == self.repository.role_permissions@,
    {
        Ok(self.repository.get_role_permissions())
    }

    /// Creates a named role with a permission set; the name must have at
    /// least 3 characters and not be taken.
    pub fn create_role(&mut self, request: CreateRoleRequest) -> (r: Result<DbRole, AppError>)
        requires
            old(self).repository.wf(),
        ensures
            final(self).repository.wf(),
            MemoryRepository::users_unchanged(old(self).repository, final(self).repository),
            MemoryRepository::refresh_unchanged(old(self).repository, final(self).repository),
            MemoryRepository::reset_unchanged(old(self).repository, final(self).repository),
            MemoryRepository::verification_unchanged(old(self).repository, final(self).repository),
            MemoryRepository::audit_unchanged(old(self).repository, final(self).repository),
            r is Err ==> MemoryRepository::catalog_unchanged(
                old(self).repository,
                final(self).repository,
            ),
            r matches Err(e) && e is Validation <==> !request.valid(),
            (request.valid() && (exists|i: int|
                0 <= i < old(self).repository.roles@.len() && #[trigger] old(self).repository.roles@[i].name@ == request.name@)) ==> r is Err,
            r matches Err(e) ==> e is Validation || e is Conflict || e is Database,
            r matches Ok(role) ==> {
                &&& request.valid()
                &&& role.id == old(self).repository.next_role_id
                &&& role.name@ == request.name@
                &&& opt_view(role.description) == opt_view(request.description)
                &&& final(self).repository.roles@ == old(self).repository.roles@.push(role)
                &&& final(self).repository.next_role_id == old(self).repository.next_role_id + 1
                &&& final(self).repository.role_permissions@ == old(self).repository.role_permissions@ + Seq::new(
                    request.permissions@.len(),
                    |i: int|
                        RolePermission {
                            role_id: old(self).repository.next_role_id,
                            permission_id: request.permissions@[i],
                        },
                )
                &&& final(self).repository.permissions@ == old(self).repository.permissions@
            },
    {
        if let Err(e) = request.validate() {
            return Err(e);
        }
        if self.repository.next_role_id == i64::MAX {
            return Err(AppError::Database("role id space exhausted".to_string()));
        }
        let now = now_unix();
        if now < 0 || now > MAX_TIMESTAMP {
            return Err(AppError::Database("invalid time".to_string()));
        }
        let created_at = timestamp_text_of(now);
        let desc_ref: Option<&str> = match &request.description {
            Some(d) => Some(d.as_str()),
            None => None,
        };
        self.repository.create_role(
            request.name.as_str(),
            desc_ref,
            request.permissions.as_slice(),
            created_at.as_str(),
        )
    }

    /// Applies a partial update to a role; a given permission set replaces
    /// the role's rows wholesale.
    pub fn update_role(&mut self, id: i64, request: UpdateRoleRequest) -> (r: Result<
        DbRole,
        AppError,
    >)
        requires
            old(self).repository.wf(),
        ensures
            final(self).repository.wf(),
            MemoryRepository::users_unchanged(old(self).repository, final(self).repository),
            MemoryRepository::refresh_unchanged(old(self).repository, final(self).repository),
            MemoryRepository::reset_unchanged(old(self).repository, final(self).repository),
            MemoryRepository::verification_unchanged(old(self).repository, final(self).repository),
            MemoryRepository::audit_unchanged(old(self).repository, final(self).repository),
            r is Err ==> MemoryRepository::catalog_unchanged(
                old(self).repository,
                final(self).repository,
            ),
            r matches Err(e) ==> e is NotFound || e is Conflict,
            (forall|i: int|
                0 <= i < old(self).repository.roles@.len() ==> #[trigger] old(self).repository.roles@[i].id != id) ==> (r matches Err(e) && e is NotFound),
            r matches Ok(role) ==> (exists|k: int|
                {
                    &&& 0 <= k < old(self).repository.roles@.len()
                    &&& #[trigger] old(self).repository.roles@[k].id == id
                    &&& final(self).repository.roles@ == old(self).repository.roles@.update(
                        k,
                        role,
                    )
                    &&& role.id == id
                    &&& role.name@ == (match request.name {
                        Some(nm) => nm@,
                        None => old(self).repository.roles@[k].name@,
                    })
                    &&& opt_view(role.description) == (match request.description {
                        Some(d) => Some(d@),
                        None => opt_view(old(self).repository.roles@[k].description),
                    })
                }),
            r is Ok ==> (match request.permissions {
                Some(perms) => final(self).repository.role_permissions@ == old(self).repository.role_permissions@.filter(|rp: RolePermission| rp.role_id != id)
                    + Seq::new(
                    perms@.len(),
                    |i: int| RolePermission { role_id: id, permission_id: perms@[i] },
                ),
                None => final(self).repository.role_permissions@ == old(self).repository.role_permissions@,
            }),
    {
        let name_ref: Option<&str> = match &request.name {
            Some(nm) => Some(nm.as_str()),
            None => None,
        };
        let desc_ref: Option<&str> = match &request.description {
            Some(d) => Some(d.as_str()),
            None => None,
        };
        let perms_ref: Option<&[i64]> = match &request.permissions {
            Some(p) => Some(p.as_slice()),
            None => None,
        };
        self.repository.update_role(id, name_ref, desc_ref, perms_ref)
    }

    /// Removes a role. A missing id is no error, as a relational delete of
    /// zero rows is none.
    pub fn delete_role(&mut self, id: i64) -> (r: Result<(), AppError>)
        requires
            old(self).repository.wf(),
        ensures
            final(self).repository.wf(),
            MemoryRepository::users_unchanged(old(self).repository, final(self).repository),
            MemoryRepository::refresh_unchanged(old(self).repository, final(self).repository),
            MemoryRepository::reset_unchanged(old(self).repository, final(self).repository),
            MemoryRepository::verification_unchanged(old(self).repository, final(self).repository),
            MemoryRepository::audit_unchanged(old(self).repository, final(self).repository),
            r is Ok,
            forall|i: int|
                0 <= i < final(self).repository.roles@.len() ==> #[trigger] final(self).repository.roles@[i].id != id,
    {
        let r = self.repository.delete_role(id);
        proof {
            let pre = old(self).repository.roles@;
            let post = self.repository.roles@;
            if exists|i: int| 0 <= i < pre.len() && #[trigger] pre[i].id == id {
                let k = choose|k: int|
                    0 <= k < pre.len() && #[trigger] pre[k].id == id && post == pre.remove(k);
                assert forall|i: int| 0 <= i < post.len() implies #[trigger] post[i].id != id by {
                    let i0 = if i < k {
                        i
                    } else {
                        i + 1
                    };
                    assert(post[i] == pre[i0]);
                    if i0 != k {
                        assert(pre[i0].id != pre[k].id);
                    }
                }
            }
        }
        Ok(())
    }

    /// Replaces a permission's description.
    pub fn update_permission(&mut self, id: i64, request: UpdatePermissionRequest) -> (r: Result<
        Permission,
        AppError,
    >)
        requires
            old(self).repository.wf(),
        ensures
            final(self).repository.wf(),
            MemoryRepository::users_unchanged(old(self).repository, final(self).repository),
            MemoryRepository::refresh_unchanged(old(self).repository, final(self).repository),
            MemoryRepository::reset_unchanged(old(self).repository, final(self).repository),
            MemoryRepository::verification_unchanged(old(self).repository, final(self).repository),
            MemoryRepository::audit_unchanged(old(self).repository, final(self).repository),
            r is Err <==> (forall|i: int|
                0 <= i < old(self).repository.permissions@.len() ==> #[trigger] old(self).repository.permissions@[i].id != id),
            r matches Err(e) ==> e is NotFound && MemoryRepository::catalog_unchanged(
                old(self).repository,
                final(self).repository,
            ),
            r matches Ok(p) ==> (exists|k: int|
                {
                    &&& 0 <= k < old(self).repository.permissions@.len()
                    &&& #[trigger] old(self).repository.permissions@[k].id == id
                    &&& final(self).repository.permissions@ == old(self).repository.permissions@.update(k, p)
                    &&& p.id == id
                    &&& opt_view(p.description) == Some(request.description@)
                }),
    {
        self.repository.update_permission(id, request.description.as_str())
    }
}

} // verus!
