//! The authentication core: session issuing, credential checks, refresh
//! rotation, and the recovery and verification flows, all over the
//! credential store and the trusted hashing and codec primitives.

use vstd::prelude::*;
use vstd::string::StrSliceExecFns;
use crate::clock::{MAX_TIMESTAMP, now_unix};
use crate::codec::{decode_claims, encode_claims, jwt_text};
use crate::error::AppError;
use crate::hashing::{argon2_verifies, check_password, hash_password, hashable, phc_parses};
use crate::model::{Claims, TokenResponse, User, password_strong, role_name};
use crate::random::fresh_token_string;
use crate::store::{
    MemoryRepository, TokenState, TokenView, has_token, has_user_email, has_user_id,
    has_user_named, marked_used, refresh_views, reset_views, token_idx, token_named, token_state,
    user_idx, user_named, user_with_email, user_with_id, same_user_but_password,
    same_user_but_verified,
    verification_views,
};

verus! {

/// How long an access token lives: 15 minutes.
pub const ACCESS_TOKEN_TTL_SECS: i64 = 900;

/// How long a refresh token lives: 7 days.
pub const REFRESH_TOKEN_TTL_SECS: i64 = 604800;

/// How long a password-reset token lives: 1 hour.
pub const RESET_TOKEN_TTL_SECS: i64 = 3600;

/// How long an email-verification token lives: 24 hours.
pub const VERIFICATION_TOKEN_TTL_SECS: i64 = 86400;

/// The signed access token issued to a user at a given instant: its claims
/// carry the username, the role, an expiry of the instant plus the access
/// TTL, and the user id.
pub open spec fn access_token_text(u: User, now: int, secret: Seq<char>) -> Seq<char> {
    jwt_text(
        u.username@,
        role_name(u.role),
        now + ACCESS_TOKEN_TTL_SECS as int,
        u.id as int,
        secret,
    )
}

/// Everything but the refresh-token table is untouched.
pub open spec fn non_refresh_unchanged(pre: MemoryRepository, post: MemoryRepository) -> bool {
    &&& MemoryRepository::users_unchanged(pre, post)
    &&& MemoryRepository::reset_unchanged(pre, post)
    &&& MemoryRepository::verification_unchanged(pre, post)
    &&& MemoryRepository::audit_unchanged(pre, post)
    &&& MemoryRepository::catalog_unchanged(pre, post)
}

/// Session issuer, refresh rotator and recovery/verification flows, bound
/// to a credential store and a signing secret injected at construction.
pub struct AuthService {
    pub repository: MemoryRepository,
    pub jwt_secret: String,
}

impl AuthService {
    /// The signing secret as specifications see it.
    pub open spec fn secret_view(&self) -> Seq<char> {
        self.jwt_secret@
    }

    /// Builds the service around a store and a signing secret.
    pub fn new(repository: MemoryRepository, jwt_secret: String) -> (r: Self)
        ensures
            r.repository == repository,
            r.secret_view() == jwt_secret@,
    {
        AuthService { repository, jwt_secret }
    }

    /// Hashes a password with a fresh random salt; it succeeds for every
    /// password the hasher accepts, and the result verifies against the
    /// password it was derived from.
    pub fn hash_password(&self, password: &str) -> (r: Result<String, AppError>)
        ensures
            hashable(password) ==> r is Ok,
            r matches Ok(h) ==> phc_parses(h@) && argon2_verifies(h@, password@),
            r matches Err(e) ==> e is AuthError,
    {
        hash_password(password)
    }

    /// Checks a password against a stored hash: accepts exactly when the
    /// stored hash parses and the password verifies against it. Both
    /// failure modes collapse into one generic error.
    pub fn verify_password(&self, hash: &str, password: &str) -> (r: Result<(), AppError>)
        ensures
            r is Ok <==> phc_parses(hash@) && argon2_verifies(hash@, password@),
            r matches Err(e) ==> e is AuthError,
    {
        match check_password(hash, password) {
            Ok(true) => Ok(()),
            Ok(false) => Err(AppError::AuthError("invalid credentials".to_string())),
            Err(e) => Err(e),
        }
    }

    /// Issues an access token for the user with claims expiring at
    /// `now + ACCESS_TOKEN_TTL_SECS`.
    pub fn generate_access_token_at(&self, user: &User, now: i64) -> (r: Result<String, AppError>)
        requires
            0 <= now <= MAX_TIMESTAMP,
        ensures
            r is Ok,
            r matches Ok(t) ==> t@ == access_token_text(*user, now as int, self.secret_view())
                && t@.len() > 0,
    {
        let exp: u64 = (now + ACCESS_TOKEN_TTL_SECS) as u64;
        let claims = Claims {
            sub: user.username.clone(),
            role: user.role,
            exp,
            user_id: user.id,
        };
        encode_claims(&claims, self.jwt_secret.as_str())
    }

    /// Issues an access token expiring a fixed short TTL from now.
    pub fn generate_access_token(&self, user: &User) -> (r: Result<String, AppError>)
        ensures
            r matches Ok(t) ==> t@.len() > 0 && (exists|now: int|
                0 <= now && t@ == access_token_text(*user, now, self.secret_view())),
            r matches Err(e) ==> e is AuthError,
    {
        let now = now_unix();
        if now < 0 || now > MAX_TIMESTAMP {
            return Err(AppError::AuthError("invalid time".to_string()));
        }
        let r = self.generate_access_token_at(user, now);
        proof {
            if r is Ok {
                assert(0 <= now as int && r->Ok_0@ == access_token_text(
                    *user,
                    now as int,
                    self.secret_view(),
                ));
            }
        }
        r
    }

    /// Checks a bearer token's signature and expiry and hands back its
    /// claims; every failure collapses into one generic error.
    pub fn decode_token(&self, token: &str) -> (r: Result<Claims, AppError>)
        ensures
            r matches Err(e) ==> e matches AppError::AuthError(m) && m@ == "invalid token"@,
    {
        decode_claims(token, self.jwt_secret.as_str())
    }

    /// The authentication decision and its effects at instant `now`, with
    /// the fresh refresh-token string chosen by the caller: rejects an
    /// unknown username and a wrong password with one indistinguishable
    /// error, and always admits a known user whose password verifies when
    /// the token string is fresh, returning the user, a signed access token
    /// and the stored refresh token.
    pub fn authenticate_at(
        &mut self,
        username: &str,
        password: &str,
        now: i64,
        refresh_token: &str,
    ) -> (r: Result<(User, String, String), AppError>)
        requires
            old(self).repository.wf(),
            old(self).repository.next_refresh_token_id < i64::MAX,
            0 <= now,
            now + REFRESH_TOKEN_TTL_SECS <= MAX_TIMESTAMP,
        ensures
            final(self).repository.wf(),
            final(self).secret_view() == old(self).secret_view(),
            non_refresh_unchanged(old(self).repository, final(self).repository),
            r is Err ==> MemoryRepository::refresh_unchanged(
                old(self).repository,
                final(self).repository,
            ),
            !has_user_named(old(self).repository.users@, username@) ==> (r matches Err(e) && e
                matches AppError::AuthError(m) && m@ == "invalid credentials"@),
            (has_user_named(old(self).repository.users@, username@) && phc_parses(
                user_named(old(self).repository.users@, username@).password_hash@,
            ) && !argon2_verifies(
                user_named(old(self).repository.users@, username@).password_hash@,
                password@,
            )) ==> (r matches Err(e) && e matches AppError::AuthError(m) && m@
                == "invalid credentials"@),
            (has_user_named(old(self).repository.users@, username@) && !phc_parses(
                user_named(old(self).repository.users@, username@).password_hash@,
            )) ==> (r matches Err(e) && e is AuthError),
            (has_user_named(old(self).repository.users@, username@) && phc_parses(
                user_named(old(self).repository.users@, username@).password_hash@,
            ) && argon2_verifies(
                user_named(old(self).repository.users@, username@).password_hash@,
                password@,
            ) && !has_token(
                refresh_views(old(self).repository.refresh_tokens@),
                refresh_token@,
            )) ==> r is Ok,
            r matches Err(e) ==> e is AuthError || e is Database,
            r matches Ok(ok) ==> {
                let (u, at, rt) = ok;
                &&& has_user_named(old(self).repository.users@, username@)
                &&& u == user_named(old(self).repository.users@, username@)
                &&& phc_parses(u.password_hash@) && argon2_verifies(u.password_hash@, password@)
                &&& at@ == access_token_text(u, now as int, old(self).secret_view())
                &&& at@.len() > 0
                &&& rt@ == refresh_token@
                &&& refresh_views(final(self).repository.refresh_tokens@) == refresh_views(
                    old(self).repository.refresh_tokens@,
                ).push(
                    TokenView {
                        id: old(self).repository.next_refresh_token_id as int,
                        user_id: u.id as int,
                        token: refresh_token@,
                        expires_at: now + REFRESH_TOKEN_TTL_SECS,
                        used: false,
                    },
                )
                &&& final(self).repository.next_refresh_token_id == old(
                    self,
                ).repository.next_refresh_token_id + 1
            },
    {
        let user = match self.repository.get_by_username(username) {
            Some(u) => u,
            None => {
                return Err(AppError::AuthError("invalid credentials".to_string()));
            },
        };
        match check_password(user.password_hash.as_str(), password) {
            Ok(true) => {},
            Ok(false) => {
                return Err(AppError::AuthError("invalid credentials".to_string()));
            },
            Err(e) => {
                return Err(e);
            },
        }
        let access_token = match self.generate_access_token_at(&user, now) {
            Ok(t) => t,
            Err(e) => {
                return Err(e);
            },
        };
        let expires_at = now + REFRESH_TOKEN_TTL_SECS;
        match self.repository.create_refresh_token(user.id, refresh_token, expires_at, now) {
            Ok(_) => {},
            Err(e) => {
                return Err(e);
            },
        }
        Ok((user, access_token, refresh_token.to_owned()))
    }

    /// Looks the user up, verifies the password, and on success issues an
    /// access token and mints a stored refresh token. An unknown username
    /// and a wrong password yield the same generic error, so a caller
    /// cannot probe which usernames exist.
    pub fn authenticate(&mut self, username: &str, password: &str) -> (r: Result<
        (User, String, String),
        AppError,
    >)
        requires
            old(self).repository.wf(),
        ensures
            final(self).repository.wf(),
            final(self).secret_view() == old(self).secret_view(),
            non_refresh_unchanged(old(self).repository, final(self).repository),
            !has_user_named(old(self).repository.users@, username@) ==> r is Err,
            (has_user_named(old(self).repository.users@, username@) && !(phc_parses(
                user_named(old(self).repository.users@, username@).password_hash@,
            ) && argon2_verifies(
                user_named(old(self).repository.users@, username@).password_hash@,
                password@,
            ))) ==> r is Err,
            r matches Err(e) ==> e is AuthError || e is Database,
            r matches Ok(ok) ==> {
                let (u, at, rt) = ok;
                &&& has_user_named(old(self).repository.users@, username@)
                &&& u == user_named(old(self).repository.users@, username@)
                &&& phc_parses(u.password_hash@) && argon2_verifies(u.password_hash@, password@)
                &&& at@.len() > 0
                &&& rt@.len() == 36
                &&& exists|now: int|
                    #![auto]
                    0 <= now && at@ == access_token_text(u, now, old(self).secret_view())
            },
    {
        let now = now_unix();
        if now < 0 || now > MAX_TIMESTAMP - REFRESH_TOKEN_TTL_SECS {
            return Err(AppError::AuthError("invalid time".to_string()));
        }
        if self.repository.next_refresh_token_id == i64::MAX {
            return Err(AppError::Database("token id space exhausted".to_string()));
        }
        let fresh = fresh_token_string();
        let r = self.authenticate_at(username, password, now, fresh.as_str());
        proof {
            if r is Ok {
                let (u, at, rt) = r->Ok_0;
                assert(0 <= now as int && at@ == access_token_text(
                    u,
                    now as int,
                    old(self).secret_view(),
                ));
            }
        }
        r
    }

    /// The rotation decision and its effects at instant `now`, with the
    /// replacement token string chosen by the caller. A stored refresh
    /// token funds at most one successful rotation: an absent, spent or
    /// expired record is rejected with the matching error and nothing
    /// changes; on an active record the old token is marked used first,
    /// and only then is the new pair issued, so that even a failure
    /// afterwards leaves the old token retired. An active record with a
    /// live owner and a fresh replacement string always rotates.
    pub fn refresh_access_token_at(
        &mut self,
        refresh_token: &str,
        now: i64,
        new_token: &str,
    ) -> (r: Result<TokenResponse, AppError>)
        requires
            old(self).repository.wf(),
            old(self).repository.next_refresh_token_id < i64::MAX,
            0 <= now,
            now + REFRESH_TOKEN_TTL_SECS <= MAX_TIMESTAMP,
        ensures
            final(self).repository.wf(),
            final(self).secret_view() == old(self).secret_view(),
            non_refresh_unchanged(old(self).repository, final(self).repository),
            final(self).repository.next_refresh_token_id >= old(
                self,
            ).repository.next_refresh_token_id,
            ({
                let pre = refresh_views(old(self).repository.refresh_tokens@);
                let st = token_state(pre, refresh_token@, now as int);
                &&& st == TokenState::Missing ==> (r matches Err(e) && e matches
                    AppError::AuthError(m) && m@ == "invalid token"@
                    && MemoryRepository::refresh_unchanged(
                    old(self).repository,
                    final(self).repository,
                ))
                &&& st == TokenState::AlreadyUsed ==> (r matches Err(e) && e matches
                    AppError::AuthError(m) && m@ == "token already used"@
                    && MemoryRepository::refresh_unchanged(
                    old(self).repository,
                    final(self).repository,
                ))
                &&& st == TokenState::Expired ==> (r matches Err(e) && e matches
                    AppError::AuthError(m) && m@ == "token expired"@
                    && MemoryRepository::refresh_unchanged(
                    old(self).repository,
                    final(self).repository,
                ))
                &&& (st == TokenState::Active && !has_user_id(
                    old(self).repository.users@,
                    token_named(pre, refresh_token@).user_id,
                )) ==> (r matches Err(e) && e is NotFound && MemoryRepository::refresh_unchanged(
                    old(self).repository,
                    final(self).repository,
                ))
                &&& (st == TokenState::Active && has_user_id(
                    old(self).repository.users@,
                    token_named(pre, refresh_token@).user_id,
                )) ==> ({
                    let k = token_idx(pre, refresh_token@);
                    let marked = pre.update(k, marked_used(pre[k]));
                    let fin = refresh_views(final(self).repository.refresh_tokens@);
                    ||| fin == marked
                    ||| fin == marked.push(
                        TokenView {
                            id: old(self).repository.next_refresh_token_id as int,
                            user_id: pre[k].user_id,
                            token: new_token@,
                            expires_at: now + REFRESH_TOKEN_TTL_SECS,
                            used: false,
                        },
                    )
                })
                &&& (st == TokenState::Active && has_user_id(
                    old(self).repository.users@,
                    token_named(pre, refresh_token@).user_id,
                ) && !has_token(pre, new_token@)) ==> r is Ok
                &&& (r matches Err(e) && e is AuthError) ==> st != TokenState::Active
                &&& r matches Ok(resp) ==> ({
                    let k = token_idx(pre, refresh_token@);
                    let marked = pre.update(k, marked_used(pre[k]));
                    let u = user_with_id(old(self).repository.users@, pre[k].user_id);
                    &&& st == TokenState::Active
                    &&& has_user_id(old(self).repository.users@, pre[k].user_id)
                    &&& resp.access_token@ == access_token_text(
                        u,
                        now as int,
                        old(self).secret_view(),
                    )
                    &&& resp.access_token@.len() > 0
                    &&& resp.refresh_token@ == new_token@
                    &&& resp.expires_in == ACCESS_TOKEN_TTL_SECS
                    &&& resp.token_type@ == "Bearer"@
                    &&& refresh_views(final(self).repository.refresh_tokens@) == marked.push(
                        TokenView {
                            id: old(self).repository.next_refresh_token_id as int,
                            user_id: pre[k].user_id,
                            token: new_token@,
                            expires_at: now + REFRESH_TOKEN_TTL_SECS,
                            used: false,
                        },
                    )
                })
            }),
            r matches Err(e) ==> e is AuthError || e is NotFound || e is Database,
    {
        let ghost pre = refresh_views(old(self).repository.refresh_tokens@);
        let stored = match self.repository.get_refresh_token(refresh_token) {
            Some(t) => t,
            None => {
                return Err(AppError::AuthError("invalid token".to_string()));
            },
        };
        proof {
            assert(stored@ == token_named(pre, refresh_token@));
        }
        if stored.used {
            return Err(AppError::AuthError("token already used".to_string()));
        }
        if now > stored.expires_at {
            return Err(AppError::AuthError("token expired".to_string()));
        }
        let user = match self.repository.get_by_id(stored.user_id) {
            Some(u) => u,
            None => {
                return Err(AppError::NotFound("user not found".to_string()));
            },
        };
        // Replay prevention: retire the old record before issuing anything.
        proof {
            let k = token_idx(pre, refresh_token@);
            assert(pre[k].token == refresh_token@);
            assert(pre[k] == stored@);
            assert(has_token_id_witness(pre, stored@.id, k));
            let ki = crate::store::token_id_idx(pre, stored.id as int);
            assert(0 <= ki < pre.len() && pre[ki].id == stored.id as int);
            assert(ki == k);
        }
        self.repository.mark_refresh_token_used(stored.id);
        let access_token = match self.generate_access_token_at(&user, now) {
            Ok(t) => t,
            Err(e) => {
                return Err(e);
            },
        };
        let expires_at = now + REFRESH_TOKEN_TTL_SECS;
        match self.repository.create_refresh_token(user.id, new_token, expires_at, now) {
            Ok(_) => {},
            Err(e) => {
                return Err(e);
            },
        }
        Ok(
            TokenResponse {
                access_token,
                refresh_token: new_token.to_owned(),
                expires_in: ACCESS_TOKEN_TTL_SECS,
                token_type: "Bearer".to_owned(),
            },
        )
    }

    /// Exchanges a stored refresh token for a new access/refresh pair,
    /// retiring the old token first.
    pub fn refresh_access_token(&mut self, refresh_token: &str) -> (r: Result<
        TokenResponse,
        AppError,
    >)
        requires
            old(self).repository.wf(),
        ensures
            final(self).repository.wf(),
            final(self).secret_view() == old(self).secret_view(),
            non_refresh_unchanged(old(self).repository, final(self).repository),
            r matches Err(e) ==> e is AuthError || e is NotFound || e is Database,
            r matches Ok(resp) ==> resp.access_token@.len() > 0 && resp.refresh_token@.len() == 36
                && resp.expires_in == ACCESS_TOKEN_TTL_SECS && resp.token_type@ == "Bearer"@,
            r matches Ok(resp) ==> ({
                let pre = refresh_views(old(self).repository.refresh_tokens@);
                let k = token_idx(pre, refresh_token@);
                let fin = refresh_views(final(self).repository.refresh_tokens@);
                &&& has_token(pre, refresh_token@)
                &&& !token_named(pre, refresh_token@).used
                &&& fin.len() == pre.len() + 1
                &&& fin[k] == marked_used(pre[k])
                &&& (forall|i: int| 0 <= i < pre.len() && i != k ==> fin[i] == pre[i])
                &&& fin.last().token == resp.refresh_token@
                &&& !fin.last().used
                &&& fin.last().user_id == pre[k].user_id
            }),
    {
        let now = now_unix();
        if now < 0 || now > MAX_TIMESTAMP - REFRESH_TOKEN_TTL_SECS {
            return Err(AppError::AuthError("invalid time".to_string()));
        }
        if self.repository.next_refresh_token_id == i64::MAX {
            return Err(AppError::Database("token id space exhausted".to_string()));
        }
        let fresh = fresh_token_string();
        let r = self.refresh_access_token_at(refresh_token, now, fresh.as_str());
        proof {
            if r is Ok {
                let pre = refresh_views(old(self).repository.refresh_tokens@);
                let k = token_idx(pre, refresh_token@);
                let marked = pre.update(k, marked_used(pre[k]));
                assert(token_state(pre, refresh_token@, now as int) == TokenState::Active);
                assert(token_named(pre, refresh_token@) == pre[k]);
                let fin = refresh_views(self.repository.refresh_tokens@);
                assert(fin.last() == fin[fin.len() - 1]);
            }
        }
        r
    }

    /// A light shape check on an address handed to the recovery flow: it
    /// must be non-empty and carry an '@'.
    pub fn is_valid_email(&self, email: &str) -> (r: bool)
        ensures
            r == (email@.len() > 0 && email@.contains('@')),
    {
        let n = email.unicode_len();
        if n == 0 {
            return false;
        }
        let mut k: usize = 0;
        while k < n
            invariant
                n == email@.len(),
                k <= n,
                forall|i: int| 0 <= i < k ==> email@[i] != '@',
            decreases n - k,
        {
            if email.get_char(k) == '@' {
                proof {
                    assert(email@[k as int] == '@');
                }
                return true;
            }
            k += 1;
        }
        proof {
            assert(!email@.contains('@'));
        }
        false
    }

    /// Rejects passwords under 8 characters.
    pub fn validate_password_strength(&self, password: &str) -> (r: Result<(), AppError>)
        ensures
            r is Ok <==> password_strong(password@),
            r matches Err(e) ==> e is Validation,
    {
        if password.unicode_len() < 8 {
            return Err(AppError::Validation(
                "password must have at least 8 characters".to_string(),
            ));
        }
        Ok(())
    }

    /// The recovery-initiation decision at instant `now`, with the fresh
    /// token string chosen by the caller. A malformed address is rejected;
    /// an unknown address produces no token but no error either, so the
    /// response shape does not reveal whether the address exists; a known
    /// address always gets a stored single-use token with the short
    /// recovery TTL, provided the chosen token string is fresh.
    pub fn initiate_password_reset_at(&mut self, email: &str, token: &str, now: i64) -> (r: Result<
        Option<String>,
        AppError,
    >)
        requires
            old(self).repository.wf(),
            old(self).repository.next_password_reset_token_id < i64::MAX,
            0 <= now,
            now + RESET_TOKEN_TTL_SECS <= MAX_TIMESTAMP,
        ensures
            final(self).repository.wf(),
            final(self).secret_view() == old(self).secret_view(),
            MemoryRepository::users_unchanged(old(self).repository, final(self).repository),
            MemoryRepository::refresh_unchanged(old(self).repository, final(self).repository),
            MemoryRepository::verification_unchanged(old(self).repository, final(self).repository),
            MemoryRepository::audit_unchanged(old(self).repository, final(self).repository),
            MemoryRepository::catalog_unchanged(old(self).repository, final(self).repository),
            !(email@.len() > 0 && email@.contains('@')) ==> (r matches Err(e) && e is Validation
                && MemoryRepository::reset_unchanged(old(self).repository, final(self).repository)),
            (email@.len() > 0 && email@.contains('@') && !has_user_email(
                old(self).repository.users@,
                email@,
            )) ==> r == Ok::<Option<String>, AppError>(None::<String>)
                && MemoryRepository::reset_unchanged(old(self).repository, final(self).repository),
            r matches Err(e) ==> e is Validation || e is Database,
            r matches Err(e) ==> MemoryRepository::reset_unchanged(
                old(self).repository,
                final(self).repository,
            ),
            (email@.len() > 0 && email@.contains('@') && has_user_email(
                old(self).repository.users@,
                email@,
            ) && !has_token(
                reset_views(old(self).repository.password_reset_tokens@),
                token@,
            )) ==> (r matches Ok(o) && o is Some),
            r matches Ok(Some(minted)) ==> {
                let u = user_with_email(old(self).repository.users@, email@);
                &&& has_user_email(old(self).repository.users@, email@)
                &&& minted@ == token@
                &&& reset_views(final(self).repository.password_reset_tokens@) == reset_views(
                    old(self).repository.password_reset_tokens@,
                ).push(
                    TokenView {
                        id: old(self).repository.next_password_reset_token_id as int,
                        user_id: u.id as int,
                        token: token@,
                        expires_at: now + RESET_TOKEN_TTL_SECS,
                        used: false,
                    },
                )
                &&& final(self).repository.next_password_reset_token_id == old(
                    self,
                ).repository.next_password_reset_token_id + 1
            },
    {
        if !self.is_valid_email(email) {
            return Err(AppError::Validation("invalid email".to_string()));
        }
        let user = match self.repository.get_by_email(email) {
            Some(u) => u,
            None => {
                return Ok(None);
            },
        };
        let expires_at = now + RESET_TOKEN_TTL_SECS;
        match self.repository.create_password_reset_token(user.id, token, expires_at, now) {
            Ok(_) => Ok(Some(token.to_owned())),
            Err(e) => Err(e),
        }
    }

    /// Starts the recovery flow for an email address: an unknown address
    /// produces no token, and no error that would reveal its absence.
    pub fn initiate_password_reset(&mut self, email: &str) -> (r: Result<Option<String>, AppError>)
        requires
            old(self).repository.wf(),
        ensures
            final(self).repository.wf(),
            final(self).secret_view() == old(self).secret_view(),
            MemoryRepository::users_unchanged(old(self).repository, final(self).repository),
            MemoryRepository::refresh_unchanged(old(self).repository, final(self).repository),
            MemoryRepository::verification_unchanged(old(self).repository, final(self).repository),
            MemoryRepository::audit_unchanged(old(self).repository, final(self).repository),
            MemoryRepository::catalog_unchanged(old(self).repository, final(self).repository),
            !(email@.len() > 0 && email@.contains('@')) ==> (r matches Err(e) && e is Validation),
            r matches Ok(Some(minted)) ==> has_user_email(old(self).repository.users@, email@)
                && minted@.len() == 36,
            r matches Err(e) ==> e is Validation || e is Database,
            r is Err ==> MemoryRepository::reset_unchanged(
                old(self).repository,
                final(self).repository,
            ),
    {
        if !self.is_valid_email(email) {
            return Err(AppError::Validation("invalid email".to_string()));
        }
        if self.repository.next_password_reset_token_id == i64::MAX {
            return Err(AppError::Database("token id space exhausted".to_string()));
        }
        let now = now_unix();
        if now < 0 || now > MAX_TIMESTAMP - RESET_TOKEN_TTL_SECS {
            return Err(AppError::Database("invalid time".to_string()));
        }
        let fresh = fresh_token_string();
        self.initiate_password_reset_at(email, fresh.as_str(), now)
    }

    /// The recovery-completion decision at instant `now`: a weak password
    /// is rejected; an absent, spent or expired token is rejected with the
    /// matching error and changes nothing; an active token always succeeds:
    /// the owner's password is replaced by a fresh hash of the new password,
    /// the token marked used, and every refresh token of the owner revoked,
    /// forcing re-login everywhere.
    pub fn reset_password_at(&mut self, token: &str, new_password: &str, now: i64) -> (r: Result<
        (),
        AppError,
    >)
        requires
            old(self).repository.wf(),
        ensures
            final(self).repository.wf(),
            final(self).secret_view() == old(self).secret_view(),
            MemoryRepository::verification_unchanged(old(self).repository, final(self).repository),
            MemoryRepository::audit_unchanged(old(self).repository, final(self).repository),
            MemoryRepository::catalog_unchanged(old(self).repository, final(self).repository),
            final(self).repository.next_user_id == old(self).repository.next_user_id,
            final(self).repository.next_refresh_token_id == old(
                self,
            ).repository.next_refresh_token_id,
            r is Err ==> MemoryRepository::unchanged(old(self).repository, final(self).repository),
            !password_strong(new_password@) ==> (r matches Err(e) && e is Validation),
            ({
                let pre = reset_views(old(self).repository.password_reset_tokens@);
                let st = token_state(pre, token@, now as int);
                &&& (password_strong(new_password@) && hashable(new_password) && st
                    == TokenState::Active) ==> r is Ok
                &&& (password_strong(new_password@) && st == TokenState::Missing) ==> (r matches
                    Err(e) && e matches AppError::AuthError(m) && m@ == "invalid token"@)
                &&& (password_strong(new_password@) && st == TokenState::AlreadyUsed) ==> (r
                    matches Err(e) && e matches AppError::AuthError(m) && m@
                    == "token already used"@)
                &&& (password_strong(new_password@) && st == TokenState::Expired) ==> (r matches
                    Err(e) && e matches AppError::AuthError(m) && m@ == "token expired"@)
                &&& r is Ok ==> ({
                    let k = token_idx(pre, token@);
                    let uid = pre[k].user_id;
                    &&& password_strong(new_password@)
                    &&& st == TokenState::Active
                    &&& reset_views(final(self).repository.password_reset_tokens@) == pre.update(
                        k,
                        marked_used(pre[k]),
                    )
                    &&& (has_user_id(old(self).repository.users@, uid) ==> {
                        let ku = user_idx(old(self).repository.users@, uid);
                        &&& final(self).repository.users@.len() == old(
                            self,
                        ).repository.users@.len()
                        &&& forall|i: int|
                            0 <= i < old(self).repository.users@.len() && i != ku ==> final(self).repository.users@[i] == old(self).repository.users@[i]
                        &&& same_user_but_password(
                            old(self).repository.users@[ku],
                            final(self).repository.users@[ku],
                            final(self).repository.users@[ku].password_hash@,
                        )
                        &&& phc_parses(final(self).repository.users@[ku].password_hash@)
                        &&& argon2_verifies(
                            final(self).repository.users@[ku].password_hash@,
                            new_password@,
                        )
                    })
                    &&& (!has_user_id(old(self).repository.users@, uid) ==> final(self).repository.users@ == old(self).repository.users@)
                    &&& forall|i: int|
                        0 <= i < final(self).repository.refresh_tokens@.len()
                            ==> #[trigger] refresh_views(final(self).repository.refresh_tokens@)[
                            i
                        ].user_id != uid
                    &&& forall|v: TokenView|
                        refresh_views(old(self).repository.refresh_tokens@).contains(v)
                            && v.user_id != uid ==> refresh_views(
                            final(self).repository.refresh_tokens@,
                        ).contains(v)
                    &&& forall|i: int|
                        0 <= i < final(self).repository.refresh_tokens@.len() ==> refresh_views(
                            old(self).repository.refresh_tokens@,
                        ).contains(#[trigger] refresh_views(final(self).repository.refresh_tokens@)[i])
                })
            }),
            r matches Err(e) ==> e is Validation || e is AuthError,
    {
        if self.validate_password_strength(new_password).is_err() {
            return Err(AppError::Validation(
                "password must have at least 8 characters".to_string(),
            ));
        }
        let ghost pre = reset_views(old(self).repository.password_reset_tokens@);
        let stored = match self.repository.get_password_reset_token(token) {
            Some(t) => t,
            None => {
                return Err(AppError::AuthError("invalid token".to_string()));
            },
        };
        proof {
            assert(stored@ == token_named(pre, token@));
        }
        if stored.used {
            return Err(AppError::AuthError("token already used".to_string()));
        }
        if now > stored.expires_at {
            return Err(AppError::AuthError("token expired".to_string()));
        }
        let hash = match hash_password(new_password) {
            Ok(h) => h,
            Err(e) => {
                return Err(e);
            },
        };
        self.repository.update_password(stored.user_id, hash.as_str());
        proof {
            let k = token_idx(pre, token@);
            assert(pre[k].token == token@);
            assert(pre[k] == stored@);
            assert(has_token_id_witness(pre, stored@.id, k));
            let ki = crate::store::token_id_idx(pre, stored.id as int);
            assert(0 <= ki < pre.len() && pre[ki].id == stored.id as int);
            assert(ki == k);
        }
        self.repository.mark_password_reset_token_used(stored.id);
        self.repository.revoke_user_refresh_tokens(stored.user_id);
        Ok(())
    }

    /// Completes the recovery flow: checks the single-use token, stores a
    /// fresh hash of the new password, retires the token, and revokes every
    /// refresh token of the owner.
    pub fn reset_password(&mut self, token: &str, new_password: &str) -> (r: Result<(), AppError>)
        requires
            old(self).repository.wf(),
        ensures
            final(self).repository.wf(),
            final(self).secret_view() == old(self).secret_view(),
            MemoryRepository::verification_unchanged(old(self).repository, final(self).repository),
            MemoryRepository::audit_unchanged(old(self).repository, final(self).repository),
            MemoryRepository::catalog_unchanged(old(self).repository, final(self).repository),
            final(self).repository.next_refresh_token_id == old(
                self,
            ).repository.next_refresh_token_id,
            r is Err ==> MemoryRepository::unchanged(old(self).repository, final(self).repository),
            !password_strong(new_password@) ==> (r matches Err(e) && e is Validation),
            r matches Err(e) ==> e is Validation || e is AuthError,
            r is Ok ==> ({
                let pre = reset_views(old(self).repository.password_reset_tokens@);
                let k = token_idx(pre, token@);
                let uid = pre[k].user_id;
                &&& has_token(pre, token@)
                &&& !pre[k].used
                &&& reset_views(final(self).repository.password_reset_tokens@) == pre.update(
                    k,
                    marked_used(pre[k]),
                )
                &&& forall|i: int|
                    0 <= i < final(self).repository.refresh_tokens@.len() ==> #[trigger]
                        refresh_views(final(self).repository.refresh_tokens@)[i].user_id != uid
                &&& forall|i: int|
                    0 <= i < final(self).repository.refresh_tokens@.len() ==> refresh_views(
                        old(self).repository.refresh_tokens@,
                    ).contains(#[trigger] refresh_views(final(self).repository.refresh_tokens@)[i])
                &&& (has_user_id(old(self).repository.users@, uid) ==> argon2_verifies(
                    final(self).repository.users@[user_idx(
                        old(self).repository.users@,
                        uid,
                    )].password_hash@,
                    new_password@,
                ))
            }),
    {
        let now = now_unix();
        let r = self.reset_password_at(token, new_password, now);
        proof {
            if r is Ok {
                let pre = reset_views(old(self).repository.password_reset_tokens@);
                let k = token_idx(pre, token@);
                assert(token_state(pre, token@, now as int) == TokenState::Active);
                assert(has_token(pre, token@));
                assert(token_named(pre, token@) == pre[k]);
            }
        }
        r
    }
    /// The verification-initiation decision at instant `now`, with the
    /// fresh token string chosen by the caller. An unknown user is an
    /// error; a user already verified gets no token and no error; a user
    /// without an email address cannot be verified; otherwise a single-use
    /// token with the long verification TTL is stored.
    pub fn initiate_email_verification_at(
        &mut self,
        user_id: i64,
        token: &str,
        now: i64,
    ) -> (r: Result<Option<String>, AppError>)
        requires
            old(self).repository.wf(),
            old(self).repository.next_email_verification_token_id < i64::MAX,
            0 <= now,
            now + VERIFICATION_TOKEN_TTL_SECS <= MAX_TIMESTAMP,
        ensures
            final(self).repository.wf(),
            final(self).secret_view() == old(self).secret_view(),
            MemoryRepository::users_unchanged(old(self).repository, final(self).repository),
            MemoryRepository::refresh_unchanged(old(self).repository, final(self).repository),
            MemoryRepository::reset_unchanged(old(self).repository, final(self).repository),
            MemoryRepository::audit_unchanged(old(self).repository, final(self).repository),
            MemoryRepository::catalog_unchanged(old(self).repository, final(self).repository),
            r matches Err(e) ==> MemoryRepository::verification_unchanged(
                old(self).repository,
                final(self).repository,
            ),
            !has_user_id(old(self).repository.users@, user_id as int) ==> (r matches Err(e) && e
                is NotFound),
            (has_user_id(old(self).repository.users@, user_id as int) && user_with_id(
                old(self).repository.users@,
                user_id as int,
            ).email_verified) ==> r == Ok::<Option<String>, AppError>(None::<String>)
                && MemoryRepository::verification_unchanged(
                old(self).repository,
                final(self).repository,
            ),
            (has_user_id(old(self).repository.users@, user_id as int) && !user_with_id(
                old(self).repository.users@,
                user_id as int,
            ).email_verified && user_with_id(old(self).repository.users@, user_id as int).email
                is None) ==> (r matches Err(e) && e is Validation),
            (has_user_id(old(self).repository.users@, user_id as int) && !user_with_id(
                old(self).repository.users@,
                user_id as int,
            ).email_verified && user_with_id(old(self).repository.users@, user_id as int).email
                is Some && !has_token(
                verification_views(old(self).repository.email_verification_tokens@),
                token@,
            )) ==> (r matches Ok(o) && o is Some),
            r matches Ok(Some(minted)) ==> {
                &&& has_user_id(old(self).repository.users@, user_id as int)
                &&& minted@ == token@
                &&& verification_views(final(self).repository.email_verification_tokens@)
                    == verification_views(old(self).repository.email_verification_tokens@).push(
                    TokenView {
                        id: old(self).repository.next_email_verification_token_id as int,
                        user_id: user_id as int,
                        token: token@,
                        expires_at: now + VERIFICATION_TOKEN_TTL_SECS,
                        used: false,
                    },
                )
                &&& final(self).repository.next_email_verification_token_id == old(
                    self,
                ).repository.next_email_verification_token_id + 1
            },
            r matches Err(e) ==> e is NotFound || e is Validation || e is Database,
    {
        let user = match self.repository.get_by_id(user_id) {
            Some(u) => u,
            None => {
                return Err(AppError::NotFound("user not found".to_string()));
            },
        };
        if user.email_verified {
            return Ok(None);
        }
        if user.email.is_none() {
            return Err(AppError::Validation("the user has no email".to_string()));
        }
        let expires_at = now + VERIFICATION_TOKEN_TTL_SECS;
        match self.repository.create_email_verification_token(user_id, token, expires_at, now) {
            Ok(_) => Ok(Some(token.to_owned())),
            Err(e) => Err(e),
        }
    }

    /// Starts the verification flow for the given user: mints a single-use
    /// token unless the email is already verified or absent.
    pub fn initiate_email_verification(&mut self, user_id: i64) -> (r: Result<
        Option<String>,
        AppError,
    >)
        requires
            old(self).repository.wf(),
        ensures
            final(self).repository.wf(),
            final(self).secret_view() == old(self).secret_view(),
            MemoryRepository::users_unchanged(old(self).repository, final(self).repository),
            MemoryRepository::refresh_unchanged(old(self).repository, final(self).repository),
            MemoryRepository::reset_unchanged(old(self).repository, final(self).repository),
            MemoryRepository::audit_unchanged(old(self).repository, final(self).repository),
            MemoryRepository::catalog_unchanged(old(self).repository, final(self).repository),
            !has_user_id(old(self).repository.users@, user_id as int) ==> r is Err,
            r matches Ok(Some(minted)) ==> has_user_id(old(self).repository.users@, user_id as int)
                && minted@.len() == 36,
            r matches Err(e) ==> e is NotFound || e is Validation || e is Database,
    {
        if self.repository.next_email_verification_token_id == i64::MAX {
            return Err(AppError::Database("token id space exhausted".to_string()));
        }
        let now = now_unix();
        if now < 0 || now > MAX_TIMESTAMP - VERIFICATION_TOKEN_TTL_SECS {
            return Err(AppError::Database("invalid time".to_string()));
        }
        let fresh = fresh_token_string();
        self.initiate_email_verification_at(user_id, fresh.as_str(), now)
    }

    /// The verification-completion decision at instant `now`: an absent,
    /// spent or expired token is rejected with the matching error and
    /// changes nothing; an active token flips the owner's verified flag
    /// and is marked used. Succeeds exactly when the token is active.
    pub fn verify_email_at(&mut self, token: &str, now: i64) -> (r: Result<(), AppError>)
        requires
            old(self).repository.wf(),
        ensures
            final(self).repository.wf(),
            final(self).secret_view() == old(self).secret_view(),
            MemoryRepository::refresh_unchanged(old(self).repository, final(self).repository),
            MemoryRepository::reset_unchanged(old(self).repository, final(self).repository),
            MemoryRepository::audit_unchanged(old(self).repository, final(self).repository),
            MemoryRepository::catalog_unchanged(old(self).repository, final(self).repository),
            final(self).repository.next_user_id == old(self).repository.next_user_id,
            r is Err ==> MemoryRepository::unchanged(old(self).repository, final(self).repository),
            ({
                let pre = verification_views(old(self).repository.email_verification_tokens@);
                let st = token_state(pre, token@, now as int);
                &&& st == TokenState::Missing ==> (r matches Err(e) && e matches
                    AppError::AuthError(m) && m@ == "invalid token"@)
                &&& st == TokenState::AlreadyUsed ==> (r matches Err(e) && e matches
                    AppError::AuthError(m) && m@ == "token already used"@)
                &&& st == TokenState::Expired ==> (r matches Err(e) && e matches
                    AppError::AuthError(m) && m@ == "token expired"@)
                &&& r is Ok <==> st == TokenState::Active
                &&& r is Ok ==> ({
                    let k = token_idx(pre, token@);
                    let uid = pre[k].user_id;
                    &&& verification_views(final(self).repository.email_verification_tokens@)
                        == pre.update(k, marked_used(pre[k]))
                    &&& (has_user_id(old(self).repository.users@, uid) ==> {
                        let ku = user_idx(old(self).repository.users@, uid);
                        &&& final(self).repository.users@.len() == old(
                            self,
                        ).repository.users@.len()
                        &&& forall|i: int|
                            0 <= i < old(self).repository.users@.len() && i != ku ==> final(self).repository.users@[i] == old(self).repository.users@[i]
                        &&& same_user_but_verified(
                            old(self).repository.users@[ku],
                            final(self).repository.users@[ku],
                        )
                    })
                    &&& (!has_user_id(old(self).repository.users@, uid) ==> final(self).repository.users@ == old(self).repository.users@)
                })
            }),
            r matches Err(e) ==> e is AuthError,
    {
        let ghost pre = verification_views(old(self).repository.email_verification_tokens@);
        let stored = match self.repository.get_email_verification_token(token) {
            Some(t) => t,
            None => {
                return Err(AppError::AuthError("invalid token".to_string()));
            },
        };
        proof {
            assert(stored@ == token_named(pre, token@));
        }
        if stored.used {
            return Err(AppError::AuthError("token already used".to_string()));
        }
        if now > stored.expires_at {
            return Err(AppError::AuthError("token expired".to_string()));
        }
        self.repository.verify_email(stored.user_id);
        proof {
            let k = token_idx(pre, token@);
            assert(pre[k].token == token@);
            assert(pre[k] == stored@);
            assert(has_token_id_witness(pre, stored@.id, k));
            let ki = crate::store::token_id_idx(pre, stored.id as int);
            assert(0 <= ki < pre.len() && pre[ki].id == stored.id as int);
            assert(ki == k);
        }
        self.repository.mark_email_verification_token_used(stored.id);
        Ok(())
    }

    /// Completes the verification flow: checks the single-use token, flips
    /// the owner's verified flag, and retires the token.
    pub fn verify_email(&mut self, token: &str) -> (r: Result<(), AppError>)
        requires
            old(self).repository.wf(),
        ensures
            final(self).repository.wf(),
            final(self).secret_view() == old(self).secret_view(),
            MemoryRepository::refresh_unchanged(old(self).repository, final(self).repository),
            MemoryRepository::reset_unchanged(old(self).repository, final(self).repository),
            MemoryRepository::audit_unchanged(old(self).repository, final(self).repository),
            MemoryRepository::catalog_unchanged(old(self).repository, final(self).repository),
            r is Err ==> MemoryRepository::unchanged(old(self).repository, final(self).repository),
            r matches Err(e) ==> e is AuthError,
            r is Ok ==> ({
                let pre = verification_views(old(self).repository.email_verification_tokens@);
                let k = token_idx(pre, token@);
                &&& has_token(pre, token@)
                &&& !pre[k].used
                &&& verification_views(final(self).repository.email_verification_tokens@)
                    == pre.update(k, marked_used(pre[k]))
            }),
    {
        let now = now_unix();
        let r = self.verify_email_at(token, now);
        proof {
            if r is Ok {
                let pre = verification_views(old(self).repository.email_verification_tokens@);
                assert(token_state(pre, token@, now as int) == TokenState::Active);
                assert(token_named(pre, token@) == pre[token_idx(pre, token@)]);
            }
        }
        r
    }

    /// Changes an authenticated user's password: the current password must
    /// verify, the new one must be strong enough, and then the change always
    /// goes through: the stored hash is replaced and every refresh token of
    /// the user is revoked. Both effects happen together or not at all.
    pub fn change_password(
        &mut self,
        user_id: i64,
        current_password: &str,
        new_password: &str,
    ) -> (r: Result<(), AppError>)
        requires
            old(self).repository.wf(),
        ensures
            final(self).repository.wf(),
            final(self).secret_view() == old(self).secret_view(),
            MemoryRepository::reset_unchanged(old(self).repository, final(self).repository),
            MemoryRepository::verification_unchanged(old(self).repository, final(self).repository),
            MemoryRepository::audit_unchanged(old(self).repository, final(self).repository),
            MemoryRepository::catalog_unchanged(old(self).repository, final(self).repository),
            final(self).repository.next_user_id == old(self).repository.next_user_id,
            r is Err ==> MemoryRepository::unchanged(old(self).repository, final(self).repository),
            !password_strong(new_password@) ==> (r matches Err(e) && e is Validation),
            (password_strong(new_password@) && !has_user_id(
                old(self).repository.users@,
                user_id as int,
            )) ==> (r matches Err(e) && e is NotFound),
            (password_strong(new_password@) && has_user_id(
                old(self).repository.users@,
                user_id as int,
            ) && !(phc_parses(
                user_with_id(old(self).repository.users@, user_id as int).password_hash@,
            ) && argon2_verifies(
                user_with_id(old(self).repository.users@, user_id as int).password_hash@,
                current_password@,
            ))) ==> (r matches Err(e) && e is Validation),
            (password_strong(new_password@) && hashable(new_password) && has_user_id(
                old(self).repository.users@,
                user_id as int,
            ) && phc_parses(
                user_with_id(old(self).repository.users@, user_id as int).password_hash@,
            ) && argon2_verifies(
                user_with_id(old(self).repository.users@, user_id as int).password_hash@,
                current_password@,
            )) ==> r is Ok,
            r is Ok ==> ({
                let ku = user_idx(old(self).repository.users@, user_id as int);
                &&& has_user_id(old(self).repository.users@, user_id as int)
                &&& password_strong(new_password@)
                &&& argon2_verifies(
                    user_with_id(old(self).repository.users@, user_id as int).password_hash@,
                    current_password@,
                )
                &&& final(self).repository.users@.len() == old(self).repository.users@.len()
                &&& forall|i: int|
                    0 <= i < old(self).repository.users@.len() && i != ku ==> final(self).repository.users@[i] == old(self).repository.users@[i]
                &&& same_user_but_password(
                    old(self).repository.users@[ku],
                    final(self).repository.users@[ku],
                    final(self).repository.users@[ku].password_hash@,
                )
                &&& phc_parses(final(self).repository.users@[ku].password_hash@)
                &&& argon2_verifies(
                    final(self).repository.users@[ku].password_hash@,
                    new_password@,
                )
                &&& forall|i: int|
                    0 <= i < final(self).repository.refresh_tokens@.len() ==> #[trigger]
                        refresh_views(final(self).repository.refresh_tokens@)[i].user_id
                        != user_id as int
                &&& forall|v: TokenView|
                    refresh_views(old(self).repository.refresh_tokens@).contains(v) && v.user_id
                        != user_id as int ==> refresh_views(
                        final(self).repository.refresh_tokens@,
                    ).contains(v)
                &&& forall|i: int|
                    0 <= i < final(self).repository.refresh_tokens@.len() ==> refresh_views(
                        old(self).repository.refresh_tokens@,
                    ).contains(#[trigger] refresh_views(final(self).repository.refresh_tokens@)[i])
            }),
            r matches Err(e) ==> e is Validation || e is NotFound || e is AuthError,
    {
        if self.validate_password_strength(new_password).is_err() {
            return Err(AppError::Validation(
                "password must have at least 8 characters".to_string(),
            ));
        }
        let user = match self.repository.get_by_id(user_id) {
            Some(u) => u,
            None => {
                return Err(AppError::NotFound("user not found".to_string()));
            },
        };
        match check_password(user.password_hash.as_str(), current_password) {
            Ok(true) => {},
            _ => {
                return Err(AppError::Validation("the current password is incorrect".to_string()));
            },
        }
        let hash = match hash_password(new_password) {
            Ok(h) => h,
            Err(e) => {
                return Err(e);
            },
        };
        self.repository.update_password(user_id, hash.as_str());
        self.repository.revoke_user_refresh_tokens(user_id);
        Ok(())
    }

    /// Revokes every refresh token of the user: every session must log in
    /// again.
    pub fn logout_all_sessions(&mut self, user_id: i64) -> (r: Result<(), AppError>)
        requires
            old(self).repository.wf(),
        ensures
            final(self).repository.wf(),
            final(self).secret_view() == old(self).secret_view(),
            non_refresh_unchanged(old(self).repository, final(self).repository),
            r is Ok,
            forall|i: int|
                0 <= i < final(self).repository.refresh_tokens@.len() ==> #[trigger] refresh_views(
                    final(self).repository.refresh_tokens@,
                )[i].user_id != user_id as int,
            forall|v: TokenView|
                refresh_views(old(self).repository.refresh_tokens@).contains(v) && v.user_id
                    != user_id as int ==> refresh_views(
                    final(self).repository.refresh_tokens@,
                ).contains(v),
            forall|i: int|
                0 <= i < final(self).repository.refresh_tokens@.len() ==> refresh_views(
                    old(self).repository.refresh_tokens@,
                ).contains(#[trigger] refresh_views(final(self).repository.refresh_tokens@)[i]),
    {
        self.repository.revoke_user_refresh_tokens(user_id);
        Ok(())
    }
}

/// Whether position `k` of the table carries the record with the given id.
pub open spec fn has_token_id_witness(toks: Seq<TokenView>, id: int, k: int) -> bool {
    0 <= k < toks.len() && toks[k].id == id
}

} // verus!
