//! Data model of the core: users, session claims, single-use tokens, the
//! role/permission catalog, and the request payloads that mutate them.

use vstd::prelude::*;
use vstd::string::StrSliceExecFns;
use crate::error::AppError;

verus! {

/// Relies on `<str as PartialEq>::eq`: two string slices compare equal
/// exactly when their character sequences are equal.
#[verifier::external_body]
pub fn str_eq(a: &str, b: &str) -> (r: bool)
    ensures
        r == (a@ == b@),
{
    a == b
}

/// Whether `needle` occurs in `hay` as a contiguous run of characters.
pub open spec fn contains_sub(hay: Seq<char>, needle: Seq<char>) -> bool {
    exists|i: int|
        0 <= i && i + needle.len() <= hay.len() && #[trigger] hay.subrange(i, i + needle.len())
            == needle
}

/// Relies on `str::contains` with a `&str` pattern: it finds exactly the
/// contiguous substrings.
#[verifier::external_body]
pub fn str_contains(hay: &str, needle: &str) -> (r: bool)
    ensures
        r == contains_sub(hay@, needle@),
{
    hay.contains(needle)
}

/// Whether a string is an acceptable email address. The verdict of the
/// outside format check, named; it depends on the characters alone.
pub uninterp spec fn email_ok(s: Seq<char>) -> bool;

/// Relies on validator's `ValidateEmail::validate_email` for `&str`: the
/// verdict is a function of the characters alone, and the empty string is
/// always rejected.
#[verifier::external_body]
pub fn email_format_ok(s: &str) -> (r: bool)
    ensures
        r == email_ok(s@),
        s@.len() == 0 ==> !r,
{
    validator::ValidateEmail::validate_email(&s)
}

/// A password is strong enough when it has at least 8 characters.
pub open spec fn password_strong(p: Seq<char>) -> bool {
    p.len() >= 8
}

/// The two built-in roles. `Admin` may act on any user and assign roles;
/// `User` may only act on their own account.
#[derive(Clone, Copy, Debug, PartialEq, Eq, Structural)]
pub enum Role {
    Admin,
    User,
}

impl Default for Role {
    /// A freshly registered account starts as an ordinary user.
    fn default() -> (r: Self)
        ensures
            r == Role::User,
    {
        Role::User
    }
}

/// The wire name of a role, as it appears inside a signed session token.
pub open spec fn role_name(r: Role) -> Seq<char> {
    match r {
        Role::Admin => "Admin"@,
        Role::User => "User"@,
    }
}

/// The wire name of a role as an executable string.
pub fn role_text(r: &Role) -> (s: &'static str)
    ensures
        s@ == role_name(*r),
{
    match r {
        Role::Admin => "Admin",
        Role::User => "User",
    }
}

/// A stored account. The password is kept only as a one-way hash.
#[derive(Debug, PartialEq)]
pub struct User {
    pub id: i64,
    pub username: String,
    pub email: Option<String>,
    pub password_hash: String,
    pub role: Role,
    pub avatar_url: Option<String>,
    pub email_verified: bool,
    pub created_at: String,
}

/// The view of an optional string as an optional sequence of characters.
pub open spec fn opt_view(o: Option<String>) -> Option<Seq<char>> {
    match o {
        Some(s) => Some(s@),
        None => None,
    }
}

/// Clones an optional string, preserving the value exactly.
pub fn clone_opt_string(o: &Option<String>) -> (r: Option<String>)
    ensures
        r == *o,
{
    match o {
        Some(s) => Some(s.clone()),
        None => None,
    }
}

impl Clone for User {
    fn clone(&self) -> (r: Self)
        ensures
            r == *self,
    {
        User {
            id: self.id,
            username: self.username.clone(),
            email: clone_opt_string(&self.email),
            password_hash: self.password_hash.clone(),
            role: self.role,
            avatar_url: clone_opt_string(&self.avatar_url),
            email_verified: self.email_verified,
            created_at: self.created_at.clone(),
        }
    }
}

/// The claims carried by a signed access token: subject username, role,
/// expiry as Unix seconds, and the numeric user id.
#[derive(Debug, PartialEq)]
pub struct Claims {
    pub sub: String,
    pub role: Role,
    pub exp: u64,
    pub user_id: i64,
}

impl Claims {
    /// The authorization gate of the admin-only routes: decided from the
    /// decoded claims, never from a client-supplied role field.
    pub fn is_admin(&self) -> (r: bool)
        ensures
            r == (self.role == Role::Admin),
    {
        self.role == Role::Admin
    }
}

impl Clone for Claims {
    fn clone(&self) -> (r: Self)
        ensures
            r == *self,
    {
        Claims { sub: self.sub.clone(), role: self.role, exp: self.exp, user_id: self.user_id }
    }
}

/// A long-lived refresh token record. Once `used` is set the record is
/// permanently inert: a token funds at most one rotation.
#[derive(Debug, PartialEq)]
pub struct RefreshToken {
    pub id: i64,
    pub user_id: i64,
    pub token: String,
    pub expires_at: i64,
    pub created_at: i64,
    pub used: bool,
}

impl Clone for RefreshToken {
    fn clone(&self) -> (r: Self)
        ensures
            r == *self,
    {
        RefreshToken {
            id: self.id,
            user_id: self.user_id,
            token: self.token.clone(),
            expires_at: self.expires_at,
            created_at: self.created_at,
            used: self.used,
        }
    }
}

/// A single-use password-reset token record.
#[derive(Debug, PartialEq)]
pub struct PasswordResetToken {
    pub id: i64,
    pub user_id: i64,
    pub token: String,
    pub expires_at: i64,
    pub created_at: i64,
    pub used: bool,
}

impl Clone for PasswordResetToken {
    fn clone(&self) -> (r: Self)
        ensures
            r == *self,
    {
        PasswordResetToken {
            id: self.id,
            user_id: self.user_id,
            token: self.token.clone(),
            expires_at: self.expires_at,
            created_at: self.created_at,
            used: self.used,
        }
    }
}

/// A single-use email-verification token record.
#[derive(Debug, PartialEq)]
pub struct EmailVerificationToken {
    pub id: i64,
    pub user_id: i64,
    pub token: String,
    pub expires_at: i64,
    pub created_at: i64,
    pub used: bool,
}

impl Clone for EmailVerificationToken {
    fn clone(&self) -> (r: Self)
        ensures
            r == *self,
    {
        EmailVerificationToken {
            id: self.id,
            user_id: self.user_id,
            token: self.token.clone(),
            expires_at: self.expires_at,
            created_at: self.created_at,
            used: self.used,
        }
    }
}

/// One durable audit record: who did what to whom, and when.
#[derive(Debug, PartialEq)]
pub struct AuditLog {
    pub id: i64,
    pub admin_username: String,
    pub action: String,
    pub target: String,
    pub timestamp: String,
}

impl Clone for AuditLog {
    fn clone(&self) -> (r: Self)
        ensures
            r == *self,
    {
        AuditLog {
            id: self.id,
            admin_username: self.admin_username.clone(),
            action: self.action.clone(),
            target: self.target.clone(),
            timestamp: self.timestamp.clone(),
        }
    }
}

/// A named role of the read-only catalog (display data only; the guard
/// decides from [`Role`], never from this table).
#[derive(Debug, PartialEq)]
pub struct DbRole {
    pub id: i64,
    pub name: String,
    pub description: Option<String>,
    pub created_at: String,
}

impl Clone for DbRole {
    fn clone(&self) -> (r: Self)
        ensures
            r == *self,
    {
        DbRole {
            id: self.id,
            name: self.name.clone(),
            description: clone_opt_string(&self.description),
            created_at: self.created_at.clone(),
        }
    }
}

/// A named permission of the read-only catalog.
#[derive(Debug, PartialEq)]
pub struct Permission {
    pub id: i64,
    pub name: String,
    pub description: Option<String>,
    pub created_at: String,
}

impl Clone for Permission {
    fn clone(&self) -> (r: Self)
        ensures
            r == *self,
    {
        Permission {
            id: self.id,
            name: self.name.clone(),
            description: clone_opt_string(&self.description),
            created_at: self.created_at.clone(),
        }
    }
}

/// One row of the role/permission association.
#[derive(Clone, Copy, Debug, PartialEq, Eq, Structural)]
pub struct RolePermission {
    pub role_id: i64,
    pub permission_id: i64,
}

/// The body returned by a successful login or rotation.
#[derive(Debug, PartialEq)]
pub struct TokenResponse {
    pub access_token: String,
    pub refresh_token: String,
    pub expires_in: i64,
    pub token_type: String,
}

/// Registration payload.
#[derive(Debug, PartialEq)]
pub struct CreateUserRequest {
    pub username: String,
    pub email: Option<String>,
    pub password: String,
}

impl CreateUserRequest {
    /// A registration is well-formed when the username has at least 3
    /// characters, the password at least 8, and the email, where given,
    /// an acceptable format.
    pub open spec fn valid(&self) -> bool {
        &&& self.username@.len() >= 3
        &&& password_strong(self.password@)
        &&& (self.email matches Some(e) ==> email_ok(e@))
    }

    /// Accepts the payload exactly when [`Self::valid`] holds.
    pub fn validate(&self) -> (r: Result<(), AppError>)
        ensures
            r is Ok <==> self.valid(),
            r matches Err(e) ==> e is Validation,
    {
        if self.username.as_str().unicode_len() < 3 {
            return Err(AppError::Validation(
                "username must have at least 3 characters".to_string(),
            ));
        }
        if self.password.as_str().unicode_len() < 8 {
            return Err(AppError::Validation(
                "password must have at least 8 characters".to_string(),
            ));
        }
        if let Some(e) = &self.email {
            if !email_format_ok(e.as_str()) {
                return Err(AppError::Validation("invalid email format".to_string()));
            }
        }
        Ok(())
    }
}

/// Profile-update payload; a `role` value is honoured only for admins.
#[derive(Debug, PartialEq)]
pub struct UpdateUserRequest {
    pub email: Option<String>,
    pub role: Option<Role>,
}

impl UpdateUserRequest {
    /// The payload is well-formed when the email, where given, has an
    /// acceptable format.
    pub open spec fn valid(&self) -> bool {
        self.email matches Some(e) ==> email_ok(e@)
    }

    /// Accepts the payload exactly when [`Self::valid`] holds.
    pub fn validate(&self) -> (r: Result<(), AppError>)
        ensures
            r is Ok <==> self.valid(),
            r matches Err(e) ==> e is Validation,
    {
        if let Some(e) = &self.email {
            if !email_format_ok(e.as_str()) {
                return Err(AppError::Validation("invalid email format".to_string()));
            }
        }
        Ok(())
    }
}

/// Login payload.
#[derive(Debug, PartialEq)]
pub struct LoginRequest {
    pub username: String,
    pub password: String,
}

/// Rotation payload: the refresh token to exchange.
#[derive(Debug, PartialEq)]
pub struct RefreshRequest {
    pub refresh_token: String,
}

/// Recovery-initiation payload.
#[derive(Debug, PartialEq)]
pub struct ForgotPasswordRequest {
    pub email: String,
}

/// Recovery-completion payload.
#[derive(Debug, PartialEq)]
pub struct ResetPasswordRequest {
    pub token: String,
    pub new_password: String,
}

impl ResetPasswordRequest {
    /// The payload is well-formed when the new password is strong enough.
    pub open spec fn valid(&self) -> bool {
        password_strong(self.new_password@)
    }

    /// Accepts the payload exactly when [`Self::valid`] holds.
    pub fn validate(&self) -> (r: Result<(), AppError>)
        ensures
            r is Ok <==> self.valid(),
            r matches Err(e) ==> e is Validation,
    {
        if self.new_password.as_str().unicode_len() < 8 {
            return Err(AppError::Validation(
                "password must have at least 8 characters".to_string(),
            ));
        }
        Ok(())
    }
}

/// Email-verification payload.
#[derive(Debug, PartialEq)]
pub struct VerifyEmailRequest {
    pub token: String,
}

/// Password-change payload for an authenticated user.
#[derive(Debug, PartialEq)]
pub struct ChangePasswordRequest {
    pub current_password: String,
    pub new_password: String,
}

impl ChangePasswordRequest {
    /// The payload is well-formed when the new password is strong enough.
    pub open spec fn valid(&self) -> bool {
        password_strong(self.new_password@)
    }

    /// Accepts the payload exactly when [`Self::valid`] holds.
    pub fn validate(&self) -> (r: Result<(), AppError>)
        ensures
            r is Ok <==> self.valid(),
            r matches Err(e) ==> e is Validation,
    {
        if self.new_password.as_str().unicode_len() < 8 {
            return Err(AppError::Validation(
                "password must have at least 8 characters".to_string(),
            ));
        }
        Ok(())
    }
}

/// Listing query: optional substring filter plus pagination.
#[derive(Debug, PartialEq)]
pub struct UserSearch {
    pub q: Option<String>,
    pub page: i64,
    pub limit: i64,
}

/// The page number used when a listing query gives none.
pub fn default_page() -> (r: i64)
    ensures
        r == 1,
{
    1
}

/// The page size used when a listing query gives none.
pub fn default_limit() -> (r: i64)
    ensures
        r == 10,
{
    10
}

/// Catalog payload: create a named role with a permission set.
#[derive(Debug, PartialEq)]
pub struct CreateRoleRequest {
    pub name: String,
    pub description: Option<String>,
    pub permissions: Vec<i64>,
}

impl CreateRoleRequest {
    /// The payload is well-formed when the role name has at least 3
    /// characters.
    pub open spec fn valid(&self) -> bool {
        self.name@.len() >= 3
    }

    /// Accepts the payload exactly when [`Self::valid`] holds.
    pub fn validate(&self) -> (r: Result<(), AppError>)
        ensures
            r is Ok <==> self.valid(),
            r matches Err(e) ==> e is Validation,
    {
        if self.name.as_str().unicode_len() < 3 {
            return Err(AppError::Validation(
                "name must have at least 3 characters".to_string(),
            ));
        }
        Ok(())
    }
}

/// Catalog payload: partial update of a named role.
#[derive(Debug, PartialEq)]
pub struct UpdateRoleRequest {
    pub name: Option<String>,
    pub description: Option<String>,
    pub permissions: Option<Vec<i64>>,
}

/// Catalog payload: update a permission's description.
#[derive(Debug, PartialEq)]
pub struct UpdatePermissionRequest {
    pub description: String,
}

/// An uploaded avatar file, as plain bytes.
#[derive(Debug, PartialEq)]
pub struct AvatarData {
    pub filename: String,
    pub data: Vec<u8>,
    pub content_type: String,
}

impl AvatarData {
    /// An upload is acceptable when it is an image of at most 2 MiB.
    pub open spec fn valid(&self) -> bool {
        &&& self.content_type@.len() >= 6
        &&& self.content_type@.subrange(0, 6) == "image/"@
        &&& self.data@.len() <= 2 * 1024 * 1024
    }

    /// Accepts the upload exactly when [`Self::valid`] holds.
    pub fn validate(&self) -> (r: Result<(), AppError>)
        ensures
            r is Ok <==> self.valid(),
            r matches Err(e) ==> e is Validation,
    {
        proof {
            reveal_strlit("image/");
        }
        let ct = self.content_type.as_str();
        let image_prefix = ct.unicode_len() >= 6 && ct.get_char(0) == 'i' && ct.get_char(1)
            == 'm' && ct.get_char(2) == 'a' && ct.get_char(3) == 'g' && ct.get_char(4) == 'e'
            && ct.get_char(5) == '/';
        if !image_prefix {
            proof {
                assert(self.content_type@.len() >= 6 ==> self.content_type@.subrange(0, 6)
                    != "image/"@) by {
                    if self.content_type@.len() >= 6 && self.content_type@.subrange(0, 6)
                        == "image/"@ {
                        assert(forall|i: int| 0 <= i < 6 ==> self.content_type@[i]
                            == self.content_type@.subrange(0, 6)[i]);
                    }
                }
            }
            return Err(AppError::Validation("the file must be an image".to_string()));
        }
        proof {
            assert(self.content_type@.subrange(0, 6) =~= "image/"@);
        }
        if self.data.len() > 2 * 1024 * 1024 {
            return Err(AppError::Validation(
                "the file is too large (2 MiB at most)".to_string(),
            ));
        }
        Ok(())
    }
}

} // verus!
