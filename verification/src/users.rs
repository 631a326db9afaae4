//! User management: registration, profile updates, deletion and avatar
//! changes, each gated by the role-based access rules.

use vstd::prelude::*;
use crate::auth::VERIFICATION_TOKEN_TTL_SECS;
use crate::clock::{MAX_TIMESTAMP, now_unix, timestamp_text_of};
use crate::random::fresh_token_string;
use crate::error::AppError;
use crate::hashing::{argon2_verifies, hash_password, phc_parses};
use crate::model::{CreateUserRequest, Role, UpdateUserRequest, User, opt_view};
use crate::model::UserSearch;
use crate::store::{
    MemoryRepository, TokenView, email_would_change, has_user_email, has_user_id, has_user_named,
    matches_query, opt_str_view, page_count, page_skip, page_take, profile_updated, user_idx,
    user_with_id, verification_views,
};

verus! {

/// Whether a requester may edit the target user's profile at all, and
/// whether they may touch the role field: an admin may do both anywhere; an
/// ordinary user may edit only their own profile and never the role.
pub open spec fn update_allowed(
    requester_id: int,
    requester_role: Role,
    target_id: int,
    changing_role: bool,
) -> bool {
    &&& requester_role == Role::Admin || requester_id == target_id
    &&& changing_role ==> requester_role == Role::Admin
}

/// Whether a requester may delete the target user: an admin may delete
/// anyone, an ordinary user only themselves.
pub open spec fn delete_allowed(requester_id: int, requester_role: Role, target_id: int) -> bool {
    requester_role == Role::Admin || requester_id == target_id
}

/// CRUD operations over the user table, with the role-based access rules.
pub struct UserService {
    pub repository: MemoryRepository,
}

impl UserService {
    /// Builds the service around a store.
    pub fn new(repository: MemoryRepository) -> (r: Self)
        ensures
            r.repository == repository,
    {
        UserService { repository }
    }

    /// The ownership and role-assignment gate for profile updates. Only an
    /// admin may edit another user's profile, and only an admin may assign
    /// a role, whoever the target is.
    pub fn check_update_permissions(
        &self,
        requester_id: i64,
        requester_role: Role,
        target_id: i64,
        changing_role: bool,
    ) -> (r: Result<(), AppError>)
        ensures
            r is Ok <==> update_allowed(
                requester_id as int,
                requester_role,
                target_id as int,
                changing_role,
            ),
            r matches Err(e) ==> e is Forbidden,
    {
        if requester_role != Role::Admin && requester_id != target_id {
            return Err(AppError::Forbidden("you cannot edit other users".to_string()));
        }
        if changing_role && requester_role != Role::Admin {
            return Err(AppError::Forbidden("only administrators can assign roles".to_string()));
        }
        Ok(())
    }

    /// The ownership gate for deletion: an admin may delete anyone, an
    /// ordinary user only themselves.
    pub fn check_delete_permissions(
        &self,
        role: Role,
        requester_id: i64,
        target_id: i64,
    ) -> (r: Result<(), AppError>)
        ensures
            r is Ok <==> delete_allowed(requester_id as int, role, target_id as int),
            r matches Err(e) ==> e is Forbidden,
    {
        if role != Role::Admin && requester_id != target_id {
            return Err(AppError::Forbidden(
                "you have no permission to delete this user".to_string(),
            ));
        }
        Ok(())
    }

    /// Registers a user: validates the payload, hashes the password, and
    /// inserts the account; a taken username or email is a conflict. A new
    /// account starts as an ordinary unverified user.
    pub fn create_user(&mut self, request: CreateUserRequest) -> (r: Result<User, AppError>)
        requires
            old(self).repository.wf(),
        ensures
            final(self).repository.wf(),
            MemoryRepository::refresh_unchanged(old(self).repository, final(self).repository),
            MemoryRepository::reset_unchanged(old(self).repository, final(self).repository),
            MemoryRepository::audit_unchanged(old(self).repository, final(self).repository),
            MemoryRepository::catalog_unchanged(old(self).repository, final(self).repository),
            r is Err ==> MemoryRepository::users_unchanged(
                old(self).repository,
                final(self).repository,
            ) && MemoryRepository::verification_unchanged(
                old(self).repository,
                final(self).repository,
            ),
            r matches Err(e) && e is Validation <==> !request.valid(),
            (request.valid() && has_user_named(old(self).repository.users@, request.username@))
                ==> r is Err,
            r matches Ok(u) ==> {
                &&& request.valid()
                &&& !has_user_named(old(self).repository.users@, request.username@)
                &&& u.id == old(self).repository.next_user_id
                &&& u.username@ == request.username@
                &&& opt_view(u.email) == opt_view(request.email)
                &&& phc_parses(u.password_hash@)
                &&& argon2_verifies(u.password_hash@, request.password@)
                &&& u.role == Role::User
                &&& !u.email_verified
                &&& final(self).repository.users@ == old(self).repository.users@.push(u)
                &&& final(self).repository.next_user_id == old(self).repository.next_user_id + 1
                &&& (MemoryRepository::verification_unchanged(
                    old(self).repository,
                    final(self).repository,
                ) || (exists|tv: TokenView|
                    #![auto]
                    verification_views(final(self).repository.email_verification_tokens@)
                        == verification_views(
                        old(self).repository.email_verification_tokens@,
                    ).push(tv) && tv.user_id == u.id as int && !tv.used))
            },
            r matches Err(e) ==> e is Validation || e is Conflict || e is AuthError
                || e is Database,
    {
        if let Err(e) = request.validate() {
            return Err(e);
        }
        if self.repository.next_user_id == i64::MAX {
            return Err(AppError::Database("user id space exhausted".to_string()));
        }
        let now = now_unix();
        if now < 0 || now > MAX_TIMESTAMP {
            return Err(AppError::Database("invalid time".to_string()));
        }
        let password_hash = match hash_password(request.password.as_str()) {
            Ok(h) => h,
            Err(e) => {
                return Err(e);
            },
        };
        let created_at = timestamp_text_of(now);
        let email_ref: Option<&str> = match &request.email {
            Some(e) => Some(e.as_str()),
            None => None,
        };
        let user = match self.repository.create_user(
            request.username.as_str(),
            password_hash.as_str(),
            email_ref,
            created_at.as_str(),
        ) {
            Ok(u) => u,
            Err(e) => {
                return Err(e);
            },
        };
        // A fresh account with an email gets a verification token at once;
        // a failure to mint one does not fail the registration.
        if user.email.is_some() && self.repository.next_email_verification_token_id < i64::MAX
            && now <= MAX_TIMESTAMP - VERIFICATION_TOKEN_TTL_SECS {
            let verification_token = fresh_token_string();
            let expires_at = now + VERIFICATION_TOKEN_TTL_SECS;
            let minted = self.repository.create_email_verification_token(
                user.id,
                verification_token.as_str(),
                expires_at,
                now,
            );
            proof {
                if minted is Ok {
                    assert(verification_views(self.repository.email_verification_tokens@)
                        == verification_views(
                        old(self).repository.email_verification_tokens@,
                    ).push(minted->Ok_0@));
                }
            }
        }
        Ok(user)
    }

    /// Looks a user up by id; an absent id is `NotFound`.
    pub fn get_user(&self, id: i64) -> (r: Result<User, AppError>)
        requires
            self.repository.wf(),
        ensures
            r is Ok <==> has_user_id(self.repository.users@, id as int),
            r matches Ok(u) ==> u == user_with_id(self.repository.users@, id as int),
            r matches Err(e) ==> e is NotFound,
    {
        match self.repository.get_by_id(id) {
            Some(u) => Ok(u),
            None => Err(AppError::NotFound("user not found".to_string())),
        }
    }

    /// Applies a profile update on behalf of a requester. A non-admin may
    /// touch only their own profile and may never set a role; a changed
    /// email drops the verified flag, while re-sending the same email keeps
    /// it.
    pub fn update_user(
        &mut self,
        id: i64,
        request: UpdateUserRequest,
        requester_id: i64,
        requester_role: Role,
    ) -> (r: Result<User, AppError>)
        requires
            old(self).repository.wf(),
        ensures
            final(self).repository.wf(),
            MemoryRepository::refresh_unchanged(old(self).repository, final(self).repository),
            MemoryRepository::reset_unchanged(old(self).repository, final(self).repository),
            MemoryRepository::verification_unchanged(old(self).repository, final(self).repository),
            MemoryRepository::audit_unchanged(old(self).repository, final(self).repository),
            MemoryRepository::catalog_unchanged(old(self).repository, final(self).repository),
            r is Err ==> MemoryRepository::users_unchanged(
                old(self).repository,
                final(self).repository,
            ),
            r matches Err(e) && e is Forbidden <==> !update_allowed(
                requester_id as int,
                requester_role,
                id as int,
                request.role is Some,
            ),
            r matches Err(e) && e is NotFound <==> update_allowed(
                requester_id as int,
                requester_role,
                id as int,
                request.role is Some,
            ) && !has_user_id(old(self).repository.users@, id as int),
            r matches Err(e) && e is Conflict <==> update_allowed(
                requester_id as int,
                requester_role,
                id as int,
                request.role is Some,
            ) && has_user_id(old(self).repository.users@, id as int) && {
                let o = user_with_id(old(self).repository.users@, id as int);
                &&& request.email matches Some(e2) && email_would_change(o, Some(e2@))
                &&& has_user_email(old(self).repository.users@, (match request.email {
                    Some(e2) => e2@,
                    None => Seq::empty(),
                }))
            },
            r is Ok <==> update_allowed(
                requester_id as int,
                requester_role,
                id as int,
                request.role is Some,
            ) && has_user_id(old(self).repository.users@, id as int) && !{
                let o = user_with_id(old(self).repository.users@, id as int);
                &&& request.email matches Some(e2) && email_would_change(o, Some(e2@))
                &&& has_user_email(old(self).repository.users@, (match request.email {
                    Some(e2) => e2@,
                    None => Seq::empty(),
                }))
            },
            r matches Ok(u) ==> {
                let k = user_idx(old(self).repository.users@, id as int);
                &&& update_allowed(
                    requester_id as int,
                    requester_role,
                    id as int,
                    request.role is Some,
                )
                &&& has_user_id(old(self).repository.users@, id as int)
                &&& final(self).repository.users@.len() == old(self).repository.users@.len()
                &&& forall|i: int|
                    0 <= i < old(self).repository.users@.len() && i != k ==> final(self).repository.users@[i] == old(self).repository.users@[i]
                &&& profile_updated(
                    old(self).repository.users@[k],
                    final(self).repository.users@[k],
                    opt_view(request.email),
                    request.role,
                )
                &&& u == final(self).repository.users@[k]
            },
            r matches Err(e) ==> e is Forbidden || e is NotFound || e is Conflict,
    {
        if let Err(e) = self.check_update_permissions(
            requester_id,
            requester_role,
            id,
            request.role.is_some(),
        ) {
            return Err(e);
        }
        let email_ref: Option<&str> = match &request.email {
            Some(e) => Some(e.as_str()),
            None => None,
        };
        self.repository.update_user(id, email_ref, request.role)
    }

    /// Deletes a user on behalf of a requester, writing the audit record of
    /// the deletion; the two succeed together. An admin may delete anyone,
    /// an ordinary user only themselves.
    pub fn delete_user(
        &mut self,
        id: i64,
        requester_id: i64,
        requester_role: Role,
        requester_username: &str,
    ) -> (r: Result<(), AppError>)
        requires
            old(self).repository.wf(),
        ensures
            final(self).repository.wf(),
            MemoryRepository::refresh_unchanged(old(self).repository, final(self).repository),
            MemoryRepository::reset_unchanged(old(self).repository, final(self).repository),
            MemoryRepository::verification_unchanged(old(self).repository, final(self).repository),
            MemoryRepository::catalog_unchanged(old(self).repository, final(self).repository),
            r is Err ==> MemoryRepository::unchanged(old(self).repository, final(self).repository),
            r matches Err(e) && e is Forbidden <==> !delete_allowed(
                requester_id as int,
                requester_role,
                id as int,
            ),
            r matches Err(e) ==> e is Forbidden || e is Database,
            r is Ok ==> {
                &&& delete_allowed(requester_id as int, requester_role, id as int)
                &&& (has_user_id(old(self).repository.users@, id as int) ==> final(self).repository.users@ == old(self).repository.users@.remove(
                    user_idx(old(self).repository.users@, id as int),
                ))
                &&& (!has_user_id(old(self).repository.users@, id as int) ==> final(self).repository.users@ == old(self).repository.users@)
                &&& final(self).repository.audit_logs@.len() == old(
                    self,
                ).repository.audit_logs@.len() + 1
                &&& ({
                    let entry = final(self).repository.audit_logs@.last();
                    &&& entry.admin_username@ == requester_username@
                    &&& entry.action@ == "DELETE_USER"@
                    &&& entry.target@ == (if has_user_id(old(self).repository.users@, id as int) {
                        user_with_id(old(self).repository.users@, id as int).username@
                    } else {
                        "unknown"@
                    })
                })
            },
    {
        if let Err(e) = self.check_delete_permissions(requester_role, requester_id, id) {
            return Err(e);
        }
        if self.repository.next_audit_log_id == i64::MAX {
            return Err(AppError::Database("audit id space exhausted".to_string()));
        }
        let now = now_unix();
        if now < 0 || now > MAX_TIMESTAMP {
            return Err(AppError::Database("invalid time".to_string()));
        }
        let now_text = timestamp_text_of(now);
        self.repository.delete_user(id, requester_username, now_text.as_str());
        Ok(())
    }

    /// Lists users matching a query, returning the page, the full match
    /// count, and the page count.
    pub fn get_users(&self, search: UserSearch) -> (r: Result<(Vec<User>, i64, i64), AppError>)
        requires
            self.repository.wf(),
        ensures
            r is Err <==> self.repository.users@.len() > i64::MAX,
            r matches Err(e) ==> e is Database,
            r matches Ok(out) ==> ({
                let m = self.repository.users@.filter(
                    |u: User| matches_query(u, opt_view(search.q)),
                );
                &&& out.1 == m.len()
                &&& out.0@ == m.subrange(
                    page_skip(search.page as int, search.limit as int, m.len() as int),
                    page_skip(search.page as int, search.limit as int, m.len() as int) + page_take(
                        search.page as int,
                        search.limit as int,
                        m.len() as int,
                    ),
                )
                &&& out.2 == page_count(m.len() as int, search.limit as int)
            }),
    {
        if self.repository.users.len() as u64 > i64::MAX as u64 {
            return Err(AppError::Database("user table too large".to_string()));
        }
        let q_ref: Option<&str> = match &search.q {
            Some(t) => Some(t.as_str()),
            None => None,
        };
        let (users, total) = self.repository.get_all(q_ref, search.page, search.limit);
        let total_pages: i64 = if search.limit <= 0 || total <= 0 {
            0
        } else {
            proof {
                assert((total as int - 1) / (search.limit as int) + 1 == (total as int
                    + search.limit as int - 1) / (search.limit as int)) by (nonlinear_arith)
                    requires
                        total as int >= 1,
                        search.limit as int >= 1,
                ;
                assert(0 <= (total as int - 1) / (search.limit as int) < total as int)
                    by (nonlinear_arith)
                    requires
                        total as int >= 1,
                        search.limit as int >= 1,
                ;
            }
            (total - 1) / search.limit + 1
        };
        proof {
            assert(opt_str_view(q_ref) == opt_view(search.q));
        }
        Ok((users, total, total_pages))
    }

    /// Stores a new avatar reference for the user.
    pub fn update_avatar(&mut self, user_id: i64, avatar_url: &str) -> (r: Result<User, AppError>)
        requires
            old(self).repository.wf(),
        ensures
            final(self).repository.wf(),
            MemoryRepository::refresh_unchanged(old(self).repository, final(self).repository),
            MemoryRepository::reset_unchanged(old(self).repository, final(self).repository),
            MemoryRepository::verification_unchanged(old(self).repository, final(self).repository),
            MemoryRepository::audit_unchanged(old(self).repository, final(self).repository),
            MemoryRepository::catalog_unchanged(old(self).repository, final(self).repository),
            r is Ok <==> has_user_id(old(self).repository.users@, user_id as int),
            r matches Err(e) ==> e is NotFound && MemoryRepository::users_unchanged(
                old(self).repository,
                final(self).repository,
            ),
            r matches Ok(u) ==> opt_view(u.avatar_url) == Some(avatar_url@),
    {
        self.repository.update_avatar(user_id, avatar_url)
    }
}

} // verus!
