//! The credential store: an in-memory table set for users, single-use
//! tokens, audit records and the role catalog. All durable state of the
//! core lives here; every operation states exactly how it reads or rewrites
//! the tables.

use vstd::prelude::*;
use crate::error::AppError;
use crate::model::{
    AuditLog, DbRole, EmailVerificationToken, PasswordResetToken, Permission, RefreshToken, Role,
    RolePermission, User, clone_opt_string, contains_sub, opt_view, str_contains, str_eq,
};

verus! {

/// The mathematical shape shared by the three single-use token tables.
pub struct TokenView {
    pub id: int,
    pub user_id: int,
    pub token: Seq<char>,
    pub expires_at: int,
    pub used: bool,
}

impl View for RefreshToken {
    type V = TokenView;

    open spec fn view(&self) -> TokenView {
        TokenView {
            id: self.id as int,
            user_id: self.user_id as int,
            token: self.token@,
            expires_at: self.expires_at as int,
            used: self.used,
        }
    }
}

impl View for PasswordResetToken {
    type V = TokenView;

    open spec fn view(&self) -> TokenView {
        TokenView {
            id: self.id as int,
            user_id: self.user_id as int,
            token: self.token@,
            expires_at: self.expires_at as int,
            used: self.used,
        }
    }
}

impl View for EmailVerificationToken {
    type V = TokenView;

    open spec fn view(&self) -> TokenView {
        TokenView {
            id: self.id as int,
            user_id: self.user_id as int,
            token: self.token@,
            expires_at: self.expires_at as int,
            used: self.used,
        }
    }
}

/// The views of a refresh-token table.
pub open spec fn refresh_views(toks: Seq<RefreshToken>) -> Seq<TokenView> {
    toks.map(|i: int, t: RefreshToken| t@)
}

/// The views of a password-reset-token table.
pub open spec fn reset_views(toks: Seq<PasswordResetToken>) -> Seq<TokenView> {
    toks.map(|i: int, t: PasswordResetToken| t@)
}

/// The views of an email-verification-token table.
pub open spec fn verification_views(toks: Seq<EmailVerificationToken>) -> Seq<TokenView> {
    toks.map(|i: int, t: EmailVerificationToken| t@)
}

/// Whether the table holds a token with the given string.
pub open spec fn has_token(toks: Seq<TokenView>, t: Seq<char>) -> bool {
    exists|i: int| 0 <= i < toks.len() && toks[i].token == t
}

/// The record that carries the given token string (well-defined when the
/// table is well-formed, since token strings are then unique).
pub open spec fn token_named(toks: Seq<TokenView>, t: Seq<char>) -> TokenView {
    toks[choose|i: int| 0 <= i < toks.len() && toks[i].token == t]
}

/// A single-use token table is well-formed when record ids are unique and
/// below the allocation counter, and token strings are unique.
pub open spec fn tokens_wf(toks: Seq<TokenView>, next_id: int) -> bool {
    &&& forall|i: int, j: int| 0 <= i < j < toks.len() ==> #[trigger] toks[i].id != #[trigger] toks[j].id
    &&& forall|i: int, j: int| 0 <= i < j < toks.len() ==> #[trigger] toks[i].token != #[trigger] toks[j].token
    &&& forall|i: int| 0 <= i < toks.len() ==> 0 < #[trigger] toks[i].id < next_id
    &&& 0 < next_id
}

/// The state of one stored token at one instant, as the single-use state
/// machine sees it: absent, already spent, past its expiry, or active.
#[derive(Clone, Copy, Debug, PartialEq, Eq, Structural)]
pub enum TokenState {
    Missing,
    AlreadyUsed,
    Expired,
    Active,
}

/// The single-use, expiring token state machine, shared by refresh,
/// password-reset and email-verification tokens: a consume attempt at
/// instant `now` finds the token absent, spent, expired, or active. Only an
/// active token can be consumed, and consuming it sets its used flag, which
/// no operation ever clears.
pub open spec fn token_state(toks: Seq<TokenView>, t: Seq<char>, now: int) -> TokenState {
    if !has_token(toks, t) {
        TokenState::Missing
    } else if token_named(toks, t).used {
        TokenState::AlreadyUsed
    } else if now > token_named(toks, t).expires_at {
        TokenState::Expired
    } else {
        TokenState::Active
    }
}

/// The index of the record carrying the given token string (well-defined
/// under well-formedness).
pub open spec fn token_idx(toks: Seq<TokenView>, t: Seq<char>) -> int {
    choose|i: int| 0 <= i < toks.len() && toks[i].token == t
}

/// Whether the table holds a record with the given id.
pub open spec fn has_token_id(toks: Seq<TokenView>, id: int) -> bool {
    exists|i: int| 0 <= i < toks.len() && toks[i].id == id
}

/// The index of the record with the given id (well-defined under
/// well-formedness).
pub open spec fn token_id_idx(toks: Seq<TokenView>, id: int) -> int {
    choose|i: int| 0 <= i < toks.len() && toks[i].id == id
}

/// The same record with its used flag set: the one transition of the
/// single-use state machine.
pub open spec fn marked_used(v: TokenView) -> TokenView {
    TokenView { id: v.id, user_id: v.user_id, token: v.token, expires_at: v.expires_at, used: true }
}

/// Whether the user table holds a user with the given id.
pub open spec fn has_user_id(users: Seq<User>, id: int) -> bool {
    exists|i: int| 0 <= i < users.len() && users[i].id == id
}

/// The user with the given id (well-defined under well-formedness).
pub open spec fn user_with_id(users: Seq<User>, id: int) -> User {
    users[choose|i: int| 0 <= i < users.len() && users[i].id == id]
}

/// Whether the user table holds a user with the given username.
pub open spec fn has_user_named(users: Seq<User>, name: Seq<char>) -> bool {
    exists|i: int| 0 <= i < users.len() && users[i].username@ == name
}

/// The user with the given username (well-defined under well-formedness).
pub open spec fn user_named(users: Seq<User>, name: Seq<char>) -> User {
    users[choose|i: int| 0 <= i < users.len() && users[i].username@ == name]
}

/// Whether the user table holds a user with the given email.
pub open spec fn has_user_email(users: Seq<User>, email: Seq<char>) -> bool {
    exists|i: int| 0 <= i < users.len() && opt_view(users[i].email) == Some(email)
}

/// The user with the given email (well-defined under well-formedness).
pub open spec fn user_with_email(users: Seq<User>, email: Seq<char>) -> User {
    users[choose|i: int| 0 <= i < users.len() && opt_view(users[i].email) == Some(email)]
}

/// Filtering a well-formed refresh-token table keeps it well-formed: a
/// subsequence of records with unique ids and token strings still has them.
proof fn lemma_refresh_filter_wf(s: Seq<RefreshToken>, pred: spec_fn(RefreshToken) -> bool, next: int)
    requires
        tokens_wf(refresh_views(s), next),
    ensures
        tokens_wf(refresh_views(s.filter(pred)), next),
    decreases s.len(),
{
    reveal(Seq::filter);
    if s.len() > 0 {
        let rest = s.drop_last();
        assert forall|i: int, j: int|
            0 <= i < j < refresh_views(rest).len() implies #[trigger] refresh_views(rest)[i].id
            != #[trigger] refresh_views(rest)[j].id by {
            assert(refresh_views(rest)[i] == refresh_views(s)[i]);
            assert(refresh_views(rest)[j] == refresh_views(s)[j]);
        }
        assert forall|i: int, j: int|
            0 <= i < j < refresh_views(rest).len() implies #[trigger] refresh_views(rest)[i].token
            != #[trigger] refresh_views(rest)[j].token by {
            assert(refresh_views(rest)[i] == refresh_views(s)[i]);
            assert(refresh_views(rest)[j] == refresh_views(s)[j]);
        }
        assert forall|i: int|
            0 <= i < refresh_views(rest).len() implies 0 < #[trigger] refresh_views(rest)[i].id
            < next by {
            assert(refresh_views(rest)[i] == refresh_views(s)[i]);
        }
        lemma_refresh_filter_wf(rest, pred, next);
        if pred(s.last()) {
            let f = rest.filter(pred);
            let g = s.filter(pred);
            assert(g == f.push(s.last()));
            let fv = refresh_views(f);
            let gv = refresh_views(g);
            assert(gv =~= fv.push(s.last()@));
            assert forall|i: int|
                0 <= i < fv.len() implies fv[i].id != s.last()@.id && fv[i].token
                != s.last()@.token by {
                assert(f.contains(f[i]));
                rest.lemma_filter_contains_rev(pred, f[i]);
                let i0 = choose|x: int| 0 <= x < rest.len() && rest[x] == f[i];
                assert(refresh_views(s)[i0] == f[i]@);
                assert(refresh_views(s)[s.len() - 1] == s.last()@);
                assert(refresh_views(s)[i0].id != refresh_views(s)[s.len() - 1].id);
                assert(fv[i] == f[i]@);
            }
            assert forall|i: int, j: int| 0 <= i < j < gv.len() implies #[trigger] gv[i].id
                != #[trigger] gv[j].id by {
                if j < gv.len() - 1 {
                    assert(gv[i] == fv[i] && gv[j] == fv[j]);
                } else {
                    assert(gv[i] == fv[i] && gv[j] == s.last()@);
                }
            }
            assert forall|i: int, j: int| 0 <= i < j < gv.len() implies #[trigger] gv[i].token
                != #[trigger] gv[j].token by {
                if j < gv.len() - 1 {
                    assert(gv[i] == fv[i] && gv[j] == fv[j]);
                } else {
                    assert(gv[i] == fv[i] && gv[j] == s.last()@);
                }
            }
            assert forall|i: int| 0 <= i < gv.len() implies 0 < #[trigger] gv[i].id < next by {
                if i < gv.len() - 1 {
                    assert(gv[i] == fv[i]);
                } else {
                    assert(gv[i] == s.last()@);
                    assert(refresh_views(s)[s.len() - 1] == s.last()@);
                }
            }
        }
    }
}

/// The index of the user with the given id (well-defined under
/// well-formedness).
pub open spec fn user_idx(users: Seq<User>, id: int) -> int {
    choose|i: int| 0 <= i < users.len() && users[i].id == id
}

/// The two users agree on every field except the password hash, which in
/// the second is `h`.
pub open spec fn same_user_but_password(o: User, n: User, h: Seq<char>) -> bool {
    &&& n.id == o.id
    &&& n.username == o.username
    &&& n.email == o.email
    &&& n.role == o.role
    &&& n.avatar_url == o.avatar_url
    &&& n.email_verified == o.email_verified
    &&& n.created_at == o.created_at
    &&& n.password_hash@ == h
}

/// The two users agree on every field except that the second has its email
/// marked verified.
pub open spec fn same_user_but_verified(o: User, n: User) -> bool {
    &&& n.id == o.id
    &&& n.username == o.username
    &&& n.email == o.email
    &&& n.role == o.role
    &&& n.avatar_url == o.avatar_url
    &&& n.email_verified
    &&& n.created_at == o.created_at
    &&& n.password_hash == o.password_hash
}

/// The two users agree on every field except the avatar reference, which in
/// the second is `url`.
pub open spec fn same_user_but_avatar(o: User, n: User, url: Seq<char>) -> bool {
    &&& n.id == o.id
    &&& n.username == o.username
    &&& n.email == o.email
    &&& n.role == o.role
    &&& opt_view(n.avatar_url) == Some(url)
    &&& n.email_verified == o.email_verified
    &&& n.created_at == o.created_at
    &&& n.password_hash == o.password_hash
}

/// How a profile update rewrites a user record: the email is replaced where
/// one is given, the role where one is given, and the verified flag drops
/// back to false exactly when the email actually changes. Identity,
/// username, password hash, avatar and creation instant are untouched.
pub open spec fn profile_updated(
    o: User,
    n: User,
    email: Option<Seq<char>>,
    role: Option<Role>,
) -> bool {
    &&& n.id == o.id
    &&& n.username == o.username
    &&& opt_view(n.email) == (match email {
        Some(e) => Some(e),
        None => opt_view(o.email),
    })
    &&& n.role == (match role {
        Some(r) => r,
        None => o.role,
    })
    &&& n.avatar_url == o.avatar_url
    &&& n.email_verified == (if email_would_change(o, email) {
        false
    } else {
        o.email_verified
    })
    &&& n.created_at == o.created_at
    &&& n.password_hash == o.password_hash
}

/// Whether replacing the user's email with the given one is an actual
/// change: a new address differing from the stored one, or a first address
/// where none was stored. Giving no address, or the same address again, is
/// no change.
pub open spec fn email_would_change(o: User, email: Option<Seq<char>>) -> bool {
    match email {
        Some(e) => opt_view(o.email) != Some(e),
        None => false,
    }
}

/// The view of an optional string slice.
pub open spec fn opt_str_view(o: Option<&str>) -> Option<Seq<char>> {
    match o {
        Some(s) => Some(s@),
        None => None,
    }
}

/// Whether a user matches a listing query: no query, or an empty one,
/// matches everyone; otherwise the text must occur in the username or in
/// the email.
pub open spec fn matches_query(u: User, q: Option<Seq<char>>) -> bool {
    match q {
        None => true,
        Some(text) => text.len() == 0 || contains_sub(u.username@, text) || (opt_view(u.email)
            matches Some(e) && contains_sub(e, text)),
    }
}

/// How many matching rows a page skips: pages count from 1, sizes below
/// zero yield nothing, and a page past the end is empty.
pub open spec fn page_skip(page: int, limit: int, total: int) -> int {
    if page < 1 || limit <= 0 {
        0
    } else if (page - 1) * limit >= total {
        total
    } else {
        (page - 1) * limit
    }
}

/// How many matching rows a page holds.
pub open spec fn page_take(page: int, limit: int, total: int) -> int {
    if limit <= 0 {
        0
    } else {
        let rem = total - page_skip(page, limit, total);
        if limit > rem {
            rem
        } else {
            limit
        }
    }
}

/// How many pages a listing spans: the match count divided by the page
/// size, rounded up; no pages for an empty result or a non-positive size.
pub open spec fn page_count(total: int, limit: int) -> int {
    if limit <= 0 || total <= 0 {
        0
    } else {
        (total + limit - 1) / limit
    }
}

/// Whether two rendered timestamps fall on the same day: both long enough
/// to carry a date, and equal on their first ten characters.
pub open spec fn same_day(a: Seq<char>, b: Seq<char>) -> bool {
    a.len() >= 10 && b.len() >= 10 && a.subrange(0, 10) == b.subrange(0, 10)
}

/// Compares the date part of two rendered timestamps.
fn same_day_prefix(a: &str, b: &str) -> (r: bool)
    ensures
        r == same_day(a@, b@),
{
    let la = a.unicode_len();
    let lb = b.unicode_len();
    if la < 10 || lb < 10 {
        return false;
    }
    let mut i: usize = 0;
    while i < 10
        invariant
            a@.len() >= 10,
            b@.len() >= 10,
            i <= 10,
            forall|j: int| 0 <= j < i ==> a@[j] == b@[j],
        decreases 10 - i,
    {
        if a.get_char(i) != b.get_char(i) {
            proof {
                assert(a@.subrange(0, 10)[i as int] == a@[i as int]);
                assert(b@.subrange(0, 10)[i as int] == b@[i as int]);
            }
            return false;
        }
        i += 1;
    }
    proof {
        assert(a@.subrange(0, 10) =~= b@.subrange(0, 10));
    }
    true
}

/// The in-memory credential store. It is the test adapter of the storage
/// interface; a production adapter backed by a relational database lives
/// outside the verified core and mirrors these operations.
pub struct MemoryRepository {
    pub users: Vec<User>,
    pub next_user_id: i64,
    pub refresh_tokens: Vec<RefreshToken>,
    pub next_refresh_token_id: i64,
    pub password_reset_tokens: Vec<PasswordResetToken>,
    pub next_password_reset_token_id: i64,
    pub email_verification_tokens: Vec<EmailVerificationToken>,
    pub next_email_verification_token_id: i64,
    pub audit_logs: Vec<AuditLog>,
    pub next_audit_log_id: i64,
    pub roles: Vec<DbRole>,
    pub next_role_id: i64,
    pub permissions: Vec<Permission>,
    pub role_permissions: Vec<RolePermission>,
}

impl MemoryRepository {
    /// The user table is well-formed when ids, usernames and present emails
    /// are unique, and every id is positive and below the counter.
    pub open spec fn users_wf(&self) -> bool {
        &&& forall|i: int, j: int|
            0 <= i < j < self.users@.len() ==> #[trigger] self.users@[i].id
                != #[trigger] self.users@[j].id
        &&& forall|i: int, j: int|
            0 <= i < j < self.users@.len() ==> #[trigger] self.users@[i].username@
                != #[trigger] self.users@[j].username@
        &&& forall|i: int, j: int|
            0 <= i < j < self.users@.len() && opt_view(self.users@[i].email) is Some ==> opt_view(
                self.users@[i].email,
            ) != opt_view(self.users@[j].email)
        &&& forall|i: int| 0 <= i < self.users@.len() ==> 0 < #[trigger] self.users@[i].id
            < self.next_user_id
        &&& 0 < self.next_user_id
    }

    /// The audit table is well-formed when ids are unique, positive and
    /// below the counter.
    pub open spec fn audit_wf(&self) -> bool {
        &&& forall|i: int, j: int|
            0 <= i < j < self.audit_logs@.len() ==> #[trigger] self.audit_logs@[i].id
                != #[trigger] self.audit_logs@[j].id
        &&& forall|i: int| 0 <= i < self.audit_logs@.len() ==> 0 < #[trigger] self.audit_logs@[i].id
            < self.next_audit_log_id
        &&& 0 < self.next_audit_log_id
    }

    /// The catalog is well-formed when role ids and names are unique, role
    /// ids are positive and below the counter, and permission ids unique.
    pub open spec fn catalog_wf(&self) -> bool {
        &&& forall|i: int, j: int|
            0 <= i < j < self.roles@.len() ==> #[trigger] self.roles@[i].id
                != #[trigger] self.roles@[j].id
        &&& forall|i: int, j: int|
            0 <= i < j < self.roles@.len() ==> #[trigger] self.roles@[i].name@
                != #[trigger] self.roles@[j].name@
        &&& forall|i: int| 0 <= i < self.roles@.len() ==> 0 < #[trigger] self.roles@[i].id
            < self.next_role_id
        &&& 0 < self.next_role_id
        &&& forall|i: int, j: int|
            0 <= i < j < self.permissions@.len() ==> #[trigger] self.permissions@[i].id
                != #[trigger] self.permissions@[j].id
    }

    /// Well-formedness of the whole store: every constructor establishes it
    /// and every operation preserves it.
    pub open spec fn wf(&self) -> bool {
        &&& self.users_wf()
        &&& tokens_wf(refresh_views(self.refresh_tokens@), self.next_refresh_token_id as int)
        &&& tokens_wf(
            reset_views(self.password_reset_tokens@),
            self.next_password_reset_token_id as int,
        )
        &&& tokens_wf(
            verification_views(self.email_verification_tokens@),
            self.next_email_verification_token_id as int,
        )
        &&& self.audit_wf()
        &&& self.catalog_wf()
    }

    /// The user table and its counter are untouched.
    pub open spec fn users_unchanged(pre: Self, post: Self) -> bool {
        post.users@ == pre.users@ && post.next_user_id == pre.next_user_id
    }

    /// The refresh-token table and its counter are untouched.
    pub open spec fn refresh_unchanged(pre: Self, post: Self) -> bool {
        post.refresh_tokens@ == pre.refresh_tokens@ && post.next_refresh_token_id
            == pre.next_refresh_token_id
    }

    /// The password-reset-token table and its counter are untouched.
    pub open spec fn reset_unchanged(pre: Self, post: Self) -> bool {
        post.password_reset_tokens@ == pre.password_reset_tokens@
            && post.next_password_reset_token_id == pre.next_password_reset_token_id
    }

    /// The email-verification-token table and its counter are untouched.
    pub open spec fn verification_unchanged(pre: Self, post: Self) -> bool {
        post.email_verification_tokens@ == pre.email_verification_tokens@
            && post.next_email_verification_token_id == pre.next_email_verification_token_id
    }

    /// The audit table and its counter are untouched.
    pub open spec fn audit_unchanged(pre: Self, post: Self) -> bool {
        post.audit_logs@ == pre.audit_logs@ && post.next_audit_log_id == pre.next_audit_log_id
    }

    /// The role catalog is untouched.
    pub open spec fn catalog_unchanged(pre: Self, post: Self) -> bool {
        &&& post.roles@ == pre.roles@
        &&& post.next_role_id == pre.next_role_id
        &&& post.permissions@ == pre.permissions@
        &&& post.role_permissions@ == pre.role_permissions@
    }

    /// Nothing in the store changed.
    pub open spec fn unchanged(pre: Self, post: Self) -> bool {
        &&& Self::users_unchanged(pre, post)
        &&& Self::refresh_unchanged(pre, post)
        &&& Self::reset_unchanged(pre, post)
        &&& Self::verification_unchanged(pre, post)
        &&& Self::audit_unchanged(pre, post)
        &&& Self::catalog_unchanged(pre, post)
    }

    /// An empty store, well-formed, with all counters at 1.
    pub fn new() -> (r: Self)
        ensures
            r.wf(),
            r.users@.len() == 0,
            r.refresh_tokens@.len() == 0,
            r.password_reset_tokens@.len() == 0,
            r.email_verification_tokens@.len() == 0,
            r.audit_logs@.len() == 0,
            r.roles@.len() == 0,
            r.permissions@.len() == 0,
            r.role_permissions@.len() == 0,
            r.next_user_id == 1,
            r.next_refresh_token_id == 1,
            r.next_password_reset_token_id == 1,
            r.next_email_verification_token_id == 1,
            r.next_audit_log_id == 1,
            r.next_role_id == 1,
    {
        MemoryRepository {
            users: Vec::new(),
            next_user_id: 1,
            refresh_tokens: Vec::new(),
            next_refresh_token_id: 1,
            password_reset_tokens: Vec::new(),
            next_password_reset_token_id: 1,
            email_verification_tokens: Vec::new(),
            next_email_verification_token_id: 1,
            audit_logs: Vec::new(),
            next_audit_log_id: 1,
            roles: Vec::new(),
            next_role_id: 1,
            permissions: Vec::new(),
            role_permissions: Vec::new(),
        }
    }

    /// The index of the user with the given username, if any.
    fn find_user_by_name(&self, username: &str) -> (r: Option<usize>)
        ensures
            r matches Some(k) ==> k < self.users@.len() && self.users@[
                k as int
            ].username@ == username@,
            r is None ==> !has_user_named(self.users@, username@),
    {
        let n = self.users.len();
        let mut k: usize = 0;
        while k < n
            invariant
                n == self.users@.len(),
                k <= n,
                forall|i: int| 0 <= i < k ==> self.users@[i].username@ != username@,
            decreases n - k,
        {
            if str_eq(self.users[k].username.as_str(), username) {
                return Some(k);
            }
            k += 1;
        }
        None
    }

    /// The index of the user with the given id, if any.
    fn find_user_by_id(&self, id: i64) -> (r: Option<usize>)
        ensures
            r matches Some(k) ==> k < self.users@.len() && self.users@[k as int].id == id,
            r is None ==> !has_user_id(self.users@, id as int),
    {
        let n = self.users.len();
        let mut k: usize = 0;
        while k < n
            invariant
                n == self.users@.len(),
                k <= n,
                forall|i: int| 0 <= i < k ==> self.users@[i].id != id,
            decreases n - k,
        {
            if self.users[k].id == id {
                return Some(k);
            }
            k += 1;
        }
        None
    }

    /// The index of the user with the given email, if any.
    fn find_user_by_email(&self, email: &str) -> (r: Option<usize>)
        ensures
            r matches Some(k) ==> k < self.users@.len() && opt_view(self.users@[k as int].email)
                == Some(email@),
            r is None ==> !has_user_email(self.users@, email@),
    {
        let n = self.users.len();
        let mut k: usize = 0;
        while k < n
            invariant
                n == self.users@.len(),
                k <= n,
                forall|i: int| 0 <= i < k ==> opt_view(self.users@[i].email) != Some(email@),
            decreases n - k,
        {
            match &self.users[k].email {
                Some(e) => {
                    if str_eq(e.as_str(), email) {
                        return Some(k);
                    }
                },
                None => {},
            }
            k += 1;
        }
        None
    }

    /// Replaces a user's password hash. A missing id leaves the store
    /// untouched, as a relational update of zero rows would.
    pub fn update_password(&mut self, id: i64, password_hash: &str)
        requires
            old(self).wf(),
        ensures
            final(self).wf(),
            Self::refresh_unchanged(*old(self), *final(self)),
            Self::reset_unchanged(*old(self), *final(self)),
            Self::verification_unchanged(*old(self), *final(self)),
            Self::audit_unchanged(*old(self), *final(self)),
            Self::catalog_unchanged(*old(self), *final(self)),
            final(self).next_user_id == old(self).next_user_id,
            !has_user_id(old(self).users@, id as int) ==> final(self).users@ == old(self).users@,
            has_user_id(old(self).users@, id as int) ==> {
                let k = user_idx(old(self).users@, id as int);
                &&& final(self).users@.len() == old(self).users@.len()
                &&& forall|i: int|
                    0 <= i < old(self).users@.len() && i != k ==> final(self).users@[i] == old(self).users@[i]
                &&& same_user_but_password(
                    old(self).users@[k],
                    final(self).users@[k],
                    password_hash@,
                )
            },
    {
        match self.find_user_by_id(id) {
            Some(k) => {
                proof {
                    let ghost c = user_idx(self.users@, id as int);
                    assert(self.users@[k as int].id == id);
                    assert(0 <= c < self.users@.len() && self.users@[c].id == id);
                }
                let old_user = &self.users[k];
                let updated = User {
                    id: old_user.id,
                    username: old_user.username.clone(),
                    email: clone_opt_string(&old_user.email),
                    password_hash: password_hash.to_owned(),
                    role: old_user.role,
                    avatar_url: clone_opt_string(&old_user.avatar_url),
                    email_verified: old_user.email_verified,
                    created_at: old_user.created_at.clone(),
                };
                self.users[k] = updated;
            },
            None => {},
        }
    }

    /// Marks a user's email verified. A missing id leaves the store
    /// untouched.
    pub fn verify_email(&mut self, user_id: i64)
        requires
            old(self).wf(),
        ensures
            final(self).wf(),
            Self::refresh_unchanged(*old(self), *final(self)),
            Self::reset_unchanged(*old(self), *final(self)),
            Self::verification_unchanged(*old(self), *final(self)),
            Self::audit_unchanged(*old(self), *final(self)),
            Self::catalog_unchanged(*old(self), *final(self)),
            final(self).next_user_id == old(self).next_user_id,
            !has_user_id(old(self).users@, user_id as int) ==> final(self).users@ == old(self).users@,
            has_user_id(old(self).users@, user_id as int) ==> {
                let k = user_idx(old(self).users@, user_id as int);
                &&& final(self).users@.len() == old(self).users@.len()
                &&& forall|i: int|
                    0 <= i < old(self).users@.len() && i != k ==> final(self).users@[i] == old(self).users@[i]
                &&& same_user_but_verified(old(self).users@[k], final(self).users@[k])
            },
    {
        match self.find_user_by_id(user_id) {
            Some(k) => {
                proof {
                    let ghost c = user_idx(self.users@, user_id as int);
                    assert(self.users@[k as int].id == user_id);
                    assert(0 <= c < self.users@.len() && self.users@[c].id == user_id);
                }
                let old_user = &self.users[k];
                let updated = User {
                    id: old_user.id,
                    username: old_user.username.clone(),
                    email: clone_opt_string(&old_user.email),
                    password_hash: old_user.password_hash.clone(),
                    role: old_user.role,
                    avatar_url: clone_opt_string(&old_user.avatar_url),
                    email_verified: true,
                    created_at: old_user.created_at.clone(),
                };
                self.users[k] = updated;
            },
            None => {},
        }
    }

    /// Applies a profile update: a given email replaces the stored one, a
    /// given role replaces the stored one, and the verified flag survives
    /// exactly when the email does not actually change. Fails with
    /// `NotFound` when the id is absent and with `Conflict` when the new
    /// email already belongs to another user.
    pub fn update_user(&mut self, id: i64, email: Option<&str>, role: Option<Role>) -> (r: Result<
        User,
        AppError,
    >)
        requires
            old(self).wf(),
        ensures
            final(self).wf(),
            Self::refresh_unchanged(*old(self), *final(self)),
            Self::reset_unchanged(*old(self), *final(self)),
            Self::verification_unchanged(*old(self), *final(self)),
            Self::audit_unchanged(*old(self), *final(self)),
            Self::catalog_unchanged(*old(self), *final(self)),
            final(self).next_user_id == old(self).next_user_id,
            r matches Err(e) ==> final(self).users@ == old(self).users@,
            r matches Err(e) ==> e is NotFound || e is Conflict,
            r matches Err(e) && e is NotFound <==> !has_user_id(old(self).users@, id as int),
            r matches Err(e) && e is Conflict <==> has_user_id(old(self).users@, id as int) && {
                let o = user_with_id(old(self).users@, id as int);
                &&& email matches Some(e2) && email_would_change(o, Some(e2@))
                &&& has_user_email(old(self).users@, (match email {
                    Some(e2) => e2@,
                    None => Seq::empty(),
                }))
            },
            r matches Ok(u) ==> {
                let k = user_idx(old(self).users@, id as int);
                &&& has_user_id(old(self).users@, id as int)
                &&& final(self).users@.len() == old(self).users@.len()
                &&& forall|i: int|
                    0 <= i < old(self).users@.len() && i != k ==> final(self).users@[i] == old(self).users@[i]
                &&& profile_updated(
                    old(self).users@[k],
                    final(self).users@[k],
                    (match email {
                        Some(e2) => Some(e2@),
                        None => None::<Seq<char>>,
                    }),
                    role,
                )
                &&& u == final(self).users@[k]
            },
    {
        let k = match self.find_user_by_id(id) {
            Some(k) => k,
            None => {
                return Err(AppError::NotFound("user not found".to_string()));
            },
        };
        proof {
            let ghost c = user_idx(self.users@, id as int);
            assert(self.users@[k as int].id == id);
            assert(0 <= c < self.users@.len() && self.users@[c].id == id);
        }
        let changed: bool = match (email, &self.users[k].email) {
            (Some(e), Some(oe)) => !str_eq(e, oe.as_str()),
            (Some(_), None) => true,
            _ => false,
        };
        if changed {
            // A changed address must not collide with any stored one; the
            // current holder cannot be this user, whose address differs.
            if let Some(e) = email {
                if self.find_user_by_email(e).is_some() {
                    return Err(AppError::Conflict("the email is already taken".to_string()));
                }
            }
        }
        let old_user = &self.users[k];
        let new_email: Option<String> = match email {
            Some(e) => Some(e.to_owned()),
            None => clone_opt_string(&old_user.email),
        };
        let new_role: Role = match role {
            Some(r2) => r2,
            None => old_user.role,
        };
        let new_verified = if changed {
            false
        } else {
            old_user.email_verified
        };
        let updated = User {
            id: old_user.id,
            username: old_user.username.clone(),
            email: new_email,
            password_hash: old_user.password_hash.clone(),
            role: new_role,
            avatar_url: clone_opt_string(&old_user.avatar_url),
            email_verified: new_verified,
            created_at: old_user.created_at.clone(),
        };
        let result = updated.clone();
        self.users[k] = updated;
        proof {
            let pre = old(self).users@;
            let post = self.users@;
            let ki = k as int;
            assert forall|i: int, j: int|
                0 <= i < j < post.len() && opt_view(post[i].email) is Some implies opt_view(
                post[i].email,
            ) != opt_view(post[j].email) by {
                if i != ki && j != ki {
                    assert(post[i] == pre[i] && post[j] == pre[j]);
                } else {
                    if changed {
                        match email {
                            Some(e) => {
                                assert(!has_user_email(pre, e@));
                                if i == ki {
                                    assert(post[j] == pre[j]);
                                    assert(opt_view(post[i].email) == Some(e@));
                                } else {
                                    assert(post[i] == pre[i]);
                                    assert(opt_view(post[j].email) == Some(e@));
                                }
                            },
                            None => {},
                        }
                    } else {
                        assert(opt_view(post[ki].email) == opt_view(pre[ki].email));
                        if i == ki {
                            assert(post[j] == pre[j]);
                        } else {
                            assert(post[i] == pre[i]);
                        }
                    }
                }
            }
        }
        Ok(result)
    }

    /// Removes a user and writes the audit record of the deletion; the two
    /// succeed together. A missing id still writes the record, with an
    /// unknown target, as a relational delete of zero rows would.
    pub fn delete_user(&mut self, id: i64, admin_username: &str, now_text: &str)
        requires
            old(self).wf(),
            old(self).next_audit_log_id < i64::MAX,
        ensures
            final(self).wf(),
            Self::refresh_unchanged(*old(self), *final(self)),
            Self::reset_unchanged(*old(self), *final(self)),
            Self::verification_unchanged(*old(self), *final(self)),
            Self::catalog_unchanged(*old(self), *final(self)),
            final(self).next_user_id == old(self).next_user_id,
            has_user_id(old(self).users@, id as int) ==> final(self).users@ == old(self).users@.remove(user_idx(old(self).users@, id as int)),
            !has_user_id(old(self).users@, id as int) ==> final(self).users@ == old(self).users@,
            final(self).audit_logs@.len() == old(self).audit_logs@.len() + 1,
            forall|i: int|
                0 <= i < old(self).audit_logs@.len() ==> final(self).audit_logs@[i] == old(self).audit_logs@[i],
            ({
                let entry = final(self).audit_logs@.last();
                &&& entry.id == old(self).next_audit_log_id
                &&& entry.admin_username@ == admin_username@
                &&& entry.action@ == "DELETE_USER"@
                &&& entry.target@ == (if has_user_id(old(self).users@, id as int) {
                    user_with_id(old(self).users@, id as int).username@
                } else {
                    "unknown"@
                })
                &&& entry.timestamp@ == now_text@
            }),
            final(self).next_audit_log_id == old(self).next_audit_log_id + 1,
    {
        let target: String = match self.find_user_by_id(id) {
            Some(k) => {
                proof {
                    let ghost c = user_idx(self.users@, id as int);
                    assert(self.users@[k as int].id == id);
                    assert(0 <= c < self.users@.len() && self.users@[c].id == id);
                }
                let name = self.users[k].username.clone();
                self.users.remove(k);
                proof {
                    let pre = old(self).users@;
                    let post = self.users@;
                    let ki = k as int;
                    assert(post =~= pre.remove(ki));
                    assert forall|i: int, j: int| 0 <= i < j < post.len() implies #[trigger] post[i].id
                        != #[trigger] post[j].id by {
                        let i0 = if i < ki { i } else { i + 1 };
                        let j0 = if j < ki { j } else { j + 1 };
                        assert(post[i] == pre[i0] && post[j] == pre[j0]);
                    }
                    assert forall|i: int, j: int| 0 <= i < j < post.len() implies
                        #[trigger] post[i].username@ != #[trigger] post[j].username@ by {
                        let i0 = if i < ki { i } else { i + 1 };
                        let j0 = if j < ki { j } else { j + 1 };
                        assert(post[i] == pre[i0] && post[j] == pre[j0]);
                    }
                    assert forall|i: int, j: int|
                        0 <= i < j < post.len() && opt_view(post[i].email) is Some implies opt_view(
                        post[i].email,
                    ) != opt_view(post[j].email) by {
                        let i0 = if i < ki { i } else { i + 1 };
                        let j0 = if j < ki { j } else { j + 1 };
                        assert(post[i] == pre[i0] && post[j] == pre[j0]);
                    }
                    assert forall|i: int| 0 <= i < post.len() implies 0 < #[trigger] post[i].id
                        < self.next_user_id by {
                        let i0 = if i < ki { i } else { i + 1 };
                        assert(post[i] == pre[i0]);
                    }
                }
                name
            },
            None => "unknown".to_owned(),
        };
        let entry = AuditLog {
            id: self.next_audit_log_id,
            admin_username: admin_username.to_owned(),
            action: "DELETE_USER".to_owned(),
            target,
            timestamp: now_text.to_owned(),
        };
        self.audit_logs.push(entry);
        self.next_audit_log_id = self.next_audit_log_id + 1;
        proof {
            let post = self.audit_logs@;
            let last = post.len() - 1;
            assert forall|i: int, j: int| 0 <= i < j < post.len() implies
                #[trigger] post[i].id != #[trigger] post[j].id by {
                if j == last {
                    assert(post[i] == old(self).audit_logs@[i]);
                    assert(post[i].id < old(self).next_audit_log_id);
                }
            }
            assert forall|i: int| 0 <= i < post.len() implies 0 < #[trigger] post[i].id
                < self.next_audit_log_id by {
                if i < last {
                    assert(post[i] == old(self).audit_logs@[i]);
                    assert(0 < post[i].id < old(self).next_audit_log_id);
                } else {
                    assert(post[i].id == old(self).next_audit_log_id);
                }
            }
        }
    }

    /// Replaces a user's avatar reference. Fails with `NotFound` when the
    /// id is absent.
    pub fn update_avatar(&mut self, id: i64, avatar_url: &str) -> (r: Result<User, AppError>)
        requires
            old(self).wf(),
        ensures
            final(self).wf(),
            Self::refresh_unchanged(*old(self), *final(self)),
            Self::reset_unchanged(*old(self), *final(self)),
            Self::verification_unchanged(*old(self), *final(self)),
            Self::audit_unchanged(*old(self), *final(self)),
            Self::catalog_unchanged(*old(self), *final(self)),
            final(self).next_user_id == old(self).next_user_id,
            r is Ok <==> has_user_id(old(self).users@, id as int),
            r matches Err(e) ==> e is NotFound && final(self).users@ == old(self).users@,
            r matches Ok(u) ==> {
                let k = user_idx(old(self).users@, id as int);
                &&& final(self).users@.len() == old(self).users@.len()
                &&& forall|i: int|
                    0 <= i < old(self).users@.len() && i != k ==> final(self).users@[i] == old(self).users@[i]
                &&& same_user_but_avatar(old(self).users@[k], final(self).users@[k], avatar_url@)
                &&& u == final(self).users@[k]
            },
    {
        match self.find_user_by_id(id) {
            Some(k) => {
                proof {
                    let ghost c = user_idx(self.users@, id as int);
                    assert(self.users@[k as int].id == id);
                    assert(0 <= c < self.users@.len() && self.users@[c].id == id);
                }
                let old_user = &self.users[k];
                let updated = User {
                    id: old_user.id,
                    username: old_user.username.clone(),
                    email: clone_opt_string(&old_user.email),
                    password_hash: old_user.password_hash.clone(),
                    role: old_user.role,
                    avatar_url: Some(avatar_url.to_owned()),
                    email_verified: old_user.email_verified,
                    created_at: old_user.created_at.clone(),
                };
                let result = updated.clone();
                self.users[k] = updated;
                Ok(result)
            },
            None => Err(AppError::NotFound("user not found".to_string())),
        }
    }

    /// Inserts a new user with a fresh id, role `User`, an unverified email
    /// and no avatar. Fails with `Conflict` exactly when the username, or
    /// the email where given, is already taken.
    pub fn create_user(
        &mut self,
        username: &str,
        password_hash: &str,
        email: Option<&str>,
        created_at: &str,
    ) -> (r: Result<User, AppError>)
        requires
            old(self).wf(),
            old(self).next_user_id < i64::MAX,
        ensures
            final(self).wf(),
            Self::refresh_unchanged(*old(self), *final(self)),
            Self::reset_unchanged(*old(self), *final(self)),
            Self::verification_unchanged(*old(self), *final(self)),
            Self::audit_unchanged(*old(self), *final(self)),
            Self::catalog_unchanged(*old(self), *final(self)),
            r is Err <==> has_user_named(old(self).users@, username@) || (email matches Some(e)
                && has_user_email(old(self).users@, e@)),
            r matches Err(e) ==> e is Conflict && Self::users_unchanged(*old(self), *final(self)),
            r matches Ok(u) ==> {
                &&& u.id == old(self).next_user_id
                &&& u.username@ == username@
                &&& opt_view(u.email) == (match email {
                    Some(e) => Some(e@),
                    None => None::<Seq<char>>,
                })
                &&& u.password_hash@ == password_hash@
                &&& u.role == Role::User
                &&& u.avatar_url is None
                &&& !u.email_verified
                &&& u.created_at@ == created_at@
                &&& final(self).users@ == old(self).users@.push(u)
                &&& final(self).next_user_id == old(self).next_user_id + 1
            },
    {
        if self.find_user_by_name(username).is_some() {
            return Err(AppError::Conflict("the username is already taken".to_string()));
        }
        let stored_email: Option<String> = match email {
            Some(e) => {
                if self.find_user_by_email(e).is_some() {
                    return Err(AppError::Conflict("the email is already taken".to_string()));
                }
                Some(e.to_owned())
            },
            None => None,
        };
        let user = User {
            id: self.next_user_id,
            username: username.to_owned(),
            email: stored_email,
            password_hash: password_hash.to_owned(),
            role: Role::User,
            avatar_url: None,
            email_verified: false,
            created_at: created_at.to_owned(),
        };
        let result = user.clone();
        self.users.push(user);
        self.next_user_id = self.next_user_id + 1;
        proof {
            let pre = old(self).users@;
            let post = self.users@;
            let last = post.len() - 1;
            assert(post[last] == result);
            assert forall|i: int, j: int| 0 <= i < j < post.len() implies #[trigger] post[i].id
                != #[trigger] post[j].id by {
                assert(post[i] == pre[i]);
                if j < last {
                    assert(post[j] == pre[j]);
                } else {
                    assert(pre[i].id < old(self).next_user_id);
                }
            }
            assert forall|i: int, j: int| 0 <= i < j < post.len() implies #[trigger] post[i].username@
                != #[trigger] post[j].username@ by {
                assert(post[i] == pre[i]);
                if j < last {
                    assert(post[j] == pre[j]);
                } else {
                    assert(!has_user_named(pre, username@));
                }
            }
            assert forall|i: int, j: int|
                0 <= i < j < post.len() && opt_view(post[i].email) is Some implies opt_view(
                post[i].email,
            ) != opt_view(post[j].email) by {
                assert(post[i] == pre[i]);
                if j < last {
                    assert(post[j] == pre[j]);
                } else {
                    match email {
                        Some(e) => {
                            assert(!has_user_email(pre, e@));
                        },
                        None => {},
                    }
                }
            }
            assert forall|i: int| 0 <= i < post.len() implies 0 < #[trigger] post[i].id
                < self.next_user_id by {
                if i < last {
                    assert(post[i] == pre[i]);
                    assert(0 < pre[i].id < old(self).next_user_id);
                } else {
                    assert(post[i].id == old(self).next_user_id);
                }
            }
        }
        Ok(result)
    }

    /// Looks a user up by username.
    pub fn get_by_username(&self, username: &str) -> (r: Option<User>)
        requires
            self.wf(),
        ensures
            r is Some <==> has_user_named(self.users@, username@),
            r matches Some(u) ==> u == user_named(self.users@, username@) && u.username@
                == username@,
    {
        match self.find_user_by_name(username) {
            Some(k) => {
                let u = self.users[k].clone();
                proof {
                    let ghost c = choose|i: int|
                        0 <= i < self.users@.len() && self.users@[i].username@ == username@;
                    assert(self.users@[k as int].username@ == username@);
                    assert(0 <= c < self.users@.len() && self.users@[c].username@ == username@);
                }
                Some(u)
            },
            None => None,
        }
    }

    /// Looks a user up by id.
    pub fn get_by_id(&self, id: i64) -> (r: Option<User>)
        requires
            self.wf(),
        ensures
            r is Some <==> has_user_id(self.users@, id as int),
            r matches Some(u) ==> u == user_with_id(self.users@, id as int) && u.id == id,
    {
        match self.find_user_by_id(id) {
            Some(k) => {
                let u = self.users[k].clone();
                proof {
                    let ghost c = choose|i: int|
                        0 <= i < self.users@.len() && self.users@[i].id == id;
                    assert(self.users@[k as int].id == id);
                    assert(0 <= c < self.users@.len() && self.users@[c].id == id);
                }
                Some(u)
            },
            None => None,
        }
    }

    /// Looks a user up by email.
    pub fn get_by_email(&self, email: &str) -> (r: Option<User>)
        requires
            self.wf(),
        ensures
            r is Some <==> has_user_email(self.users@, email@),
            r matches Some(u) ==> u == user_with_email(self.users@, email@) && opt_view(u.email)
                == Some(email@),
    {
        match self.find_user_by_email(email) {
            Some(k) => {
                let u = self.users[k].clone();
                proof {
                    let ghost c = choose|i: int|
                        0 <= i < self.users@.len() && opt_view(self.users@[i].email) == Some(
                            email@,
                        );
                    assert(opt_view(self.users@[k as int].email) == Some(email@));
                    assert(0 <= c < self.users@.len() && opt_view(self.users@[c].email) == Some(
                        email@,
                    ));
                }
                Some(u)
            },
            None => None,
        }
    }

    /// The index of the refresh token carrying the given string, if any.
    fn find_refresh_by_token(&self, token: &str) -> (r: Option<usize>)
        ensures
            r matches Some(k) ==> k < self.refresh_tokens@.len() && self.refresh_tokens@[
                k as int
            ]@.token == token@,
            r is None ==> !has_token(refresh_views(self.refresh_tokens@), token@),
    {
        let n = self.refresh_tokens.len();
        let mut k: usize = 0;
        while k < n
            invariant
                n == self.refresh_tokens@.len(),
                k <= n,
                forall|i: int|
                    0 <= i < k ==> #[trigger] refresh_views(self.refresh_tokens@)[i].token
                        != token@,
            decreases n - k,
        {
            if str_eq(self.refresh_tokens[k].token.as_str(), token) {
                return Some(k);
            }
            k += 1;
        }
        None
    }

    /// The index of the refresh token with the given id, if any.
    fn find_refresh_by_id(&self, id: i64) -> (r: Option<usize>)
        ensures
            r matches Some(k) ==> k < self.refresh_tokens@.len() && self.refresh_tokens@[
                k as int
            ]@.id == id,
            r is None ==> !has_token_id(refresh_views(self.refresh_tokens@), id as int),
    {
        let n = self.refresh_tokens.len();
        let mut k: usize = 0;
        while k < n
            invariant
                n == self.refresh_tokens@.len(),
                k <= n,
                forall|i: int|
                    0 <= i < k ==> #[trigger] refresh_views(self.refresh_tokens@)[i].id != id,
            decreases n - k,
        {
            if self.refresh_tokens[k].id == id {
                return Some(k);
            }
            k += 1;
        }
        None
    }

    /// Inserts a fresh, unused refresh token. Fails exactly when the token
    /// string is already stored, as the unique index of a relational store
    /// would make it fail.
    pub fn create_refresh_token(
        &mut self,
        user_id: i64,
        token: &str,
        expires_at: i64,
        created_at: i64,
    ) -> (r: Result<RefreshToken, AppError>)
        requires
            old(self).wf(),
            old(self).next_refresh_token_id < i64::MAX,
        ensures
            final(self).wf(),
            Self::users_unchanged(*old(self), *final(self)),
            Self::reset_unchanged(*old(self), *final(self)),
            Self::verification_unchanged(*old(self), *final(self)),
            Self::audit_unchanged(*old(self), *final(self)),
            Self::catalog_unchanged(*old(self), *final(self)),
            r is Err <==> has_token(refresh_views(old(self).refresh_tokens@), token@),
            r matches Err(e) ==> e is Database && Self::refresh_unchanged(
                *old(self),
                *final(self),
            ),
            r matches Ok(t) ==> {
                &&& t@ == (TokenView {
                    id: old(self).next_refresh_token_id as int,
                    user_id: user_id as int,
                    token: token@,
                    expires_at: expires_at as int,
                    used: false,
                })
                &&& t.created_at == created_at
                &&& final(self).refresh_tokens@ == old(self).refresh_tokens@.push(t)
                &&& final(self).next_refresh_token_id == old(self).next_refresh_token_id + 1
            },
    {
        if let Some(k) = self.find_refresh_by_token(token) {
            proof {
                let vs = refresh_views(self.refresh_tokens@);
                assert(vs[k as int].token == token@);
            }
            return Err(AppError::Database("duplicate token string".to_string()));
        }
        let record = RefreshToken {
            id: self.next_refresh_token_id,
            user_id,
            token: token.to_owned(),
            expires_at,
            created_at,
            used: false,
        };
        let result = record.clone();
        self.refresh_tokens.push(record);
        self.next_refresh_token_id = self.next_refresh_token_id + 1;
        proof {
            let pre = refresh_views(old(self).refresh_tokens@);
            let post = refresh_views(self.refresh_tokens@);
            let last = post.len() - 1;
            assert(post =~= pre.push(result@));
            assert forall|i: int, j: int| 0 <= i < j < post.len() implies #[trigger] post[i].id
                != #[trigger] post[j].id by {
                if j == last {
                    assert(post[i] == pre[i] && 0 < pre[i].id < old(self).next_refresh_token_id);
                }
            }
            assert forall|i: int, j: int| 0 <= i < j < post.len() implies #[trigger] post[i].token
                != #[trigger] post[j].token by {
                if j == last {
                    assert(post[i] == pre[i]);
                    assert(!has_token(pre, token@));
                }
            }
            assert forall|i: int| 0 <= i < post.len() implies 0 < #[trigger] post[i].id
                < self.next_refresh_token_id by {
                if i < last {
                    assert(post[i] == pre[i] && 0 < pre[i].id < old(self).next_refresh_token_id);
                } else {
                    assert(post[i].id == old(self).next_refresh_token_id);
                }
            }
        }
        Ok(result)
    }

    /// Looks a refresh token up by its string.
    pub fn get_refresh_token(&self, token: &str) -> (r: Option<RefreshToken>)
        requires
            self.wf(),
        ensures
            r is Some <==> has_token(refresh_views(self.refresh_tokens@), token@),
            r matches Some(t) ==> t@ == token_named(refresh_views(self.refresh_tokens@), token@)
                && t@.token == token@,
    {
        match self.find_refresh_by_token(token) {
            Some(k) => {
                let t = self.refresh_tokens[k].clone();
                proof {
                    let vs = refresh_views(self.refresh_tokens@);
                    let ghost c = choose|i: int| 0 <= i < vs.len() && vs[i].token == token@;
                    assert(vs[k as int].token == token@);
                    assert(0 <= c < vs.len() && vs[c].token == token@);
                }
                Some(t)
            },
            None => None,
        }
    }

    /// Flips a refresh token's used flag to true: the one transition of the
    /// single-use state machine, never undone. A missing id changes
    /// nothing.
    pub fn mark_refresh_token_used(&mut self, token_id: i64)
        requires
            old(self).wf(),
        ensures
            final(self).wf(),
            Self::users_unchanged(*old(self), *final(self)),
            Self::reset_unchanged(*old(self), *final(self)),
            Self::verification_unchanged(*old(self), *final(self)),
            Self::audit_unchanged(*old(self), *final(self)),
            Self::catalog_unchanged(*old(self), *final(self)),
            final(self).next_refresh_token_id == old(self).next_refresh_token_id,
            !has_token_id(refresh_views(old(self).refresh_tokens@), token_id as int)
                ==> final(self).refresh_tokens@ == old(self).refresh_tokens@,
            has_token_id(refresh_views(old(self).refresh_tokens@), token_id as int) ==> {
                let pre = refresh_views(old(self).refresh_tokens@);
                let k = token_id_idx(pre, token_id as int);
                refresh_views(final(self).refresh_tokens@) == pre.update(k, marked_used(pre[k]))
            },
    {
        match self.find_refresh_by_id(token_id) {
            Some(k) => {
                proof {
                    let vs = refresh_views(self.refresh_tokens@);
                    let ghost c = token_id_idx(vs, token_id as int);
                    assert(vs[k as int].id == token_id);
                    assert(0 <= c < vs.len() && vs[c].id == token_id);
                }
                let old_rec = &self.refresh_tokens[k];
                let updated = RefreshToken {
                    id: old_rec.id,
                    user_id: old_rec.user_id,
                    token: old_rec.token.clone(),
                    expires_at: old_rec.expires_at,
                    created_at: old_rec.created_at,
                    used: true,
                };
                self.refresh_tokens[k] = updated;
                proof {
                    let pre = refresh_views(old(self).refresh_tokens@);
                    let post = refresh_views(self.refresh_tokens@);
                    assert(post =~= pre.update(k as int, marked_used(pre[k as int])));
                }
            },
            None => {},
        }
    }

    /// Deletes every refresh token owned by the user: logout-all, and the
    /// forced re-login after a password change or reset. The other users'
    /// records survive unchanged and in order.
    pub fn revoke_user_refresh_tokens(&mut self, user_id: i64)
        requires
            old(self).wf(),
        ensures
            final(self).wf(),
            Self::users_unchanged(*old(self), *final(self)),
            Self::reset_unchanged(*old(self), *final(self)),
            Self::verification_unchanged(*old(self), *final(self)),
            Self::audit_unchanged(*old(self), *final(self)),
            Self::catalog_unchanged(*old(self), *final(self)),
            final(self).next_refresh_token_id == old(self).next_refresh_token_id,
            final(self).refresh_tokens@ == old(self).refresh_tokens@.filter(
                |rt: RefreshToken| rt.user_id != user_id,
            ),
            forall|i: int|
                0 <= i < final(self).refresh_tokens@.len() ==> #[trigger] refresh_views(
                    final(self).refresh_tokens@,
                )[i].user_id != user_id as int,
            forall|v: TokenView|
                refresh_views(old(self).refresh_tokens@).contains(v) && v.user_id != user_id as int
                    ==> refresh_views(final(self).refresh_tokens@).contains(v),
            forall|i: int|
                0 <= i < final(self).refresh_tokens@.len() ==> refresh_views(
                    old(self).refresh_tokens@,
                ).contains(#[trigger] refresh_views(final(self).refresh_tokens@)[i]),
    {
        let ghost keep_spec = |rt: RefreshToken| rt.user_id != user_id;
        let n = self.refresh_tokens.len();
        let mut kept: Vec<RefreshToken> = Vec::new();
        let mut k: usize = 0;
        while k < n
            invariant
                n == self.refresh_tokens@.len(),
                k <= n,
                keep_spec == (|rt: RefreshToken| rt.user_id != user_id),
                kept@ == self.refresh_tokens@.take(k as int).filter(keep_spec),
                forall|i: int| 0 <= i < kept@.len() ==> #[trigger] kept@[i].user_id != user_id,
                forall|i: int|
                    0 <= i < kept@.len() ==> self.refresh_tokens@.contains(#[trigger] kept@[i]),
            decreases n - k,
        {
            proof {
                broadcast use vstd::prelude::Seq::lemma_filter_push;

                let pre = self.refresh_tokens@;
                assert(pre.take(k + 1) =~= pre.take(k as int).push(pre[k as int]));
                assert(pre.contains(pre[k as int]));
            }
            if self.refresh_tokens[k].user_id != user_id {
                let rec = self.refresh_tokens[k].clone();
                kept.push(rec);
            }
            k += 1;
        }
        proof {
            assert(self.refresh_tokens@.take(n as int) =~= self.refresh_tokens@);
        }
        self.refresh_tokens = kept;
        proof {
            let pre = old(self).refresh_tokens@;
            let post = self.refresh_tokens@;
            assert(post == pre.filter(keep_spec));
            lemma_refresh_filter_wf(pre, keep_spec, old(self).next_refresh_token_id as int);
            assert forall|i: int|
                0 <= i < post.len() implies #[trigger] refresh_views(post)[i].user_id
                != user_id as int by {
                assert(post[i].user_id != user_id);
                assert(refresh_views(post)[i] == post[i]@);
            }
            assert forall|i: int|
                0 <= i < post.len() implies refresh_views(pre).contains(
                #[trigger] refresh_views(post)[i],
            ) by {
                assert(post.contains(post[i]));
                pre.lemma_filter_contains_rev(keep_spec, post[i]);
                let i0 = choose|x: int| 0 <= x < pre.len() && pre[x] == post[i];
                assert(refresh_views(pre)[i0] == refresh_views(post)[i]);
            }
            assert forall|v: TokenView|
                refresh_views(pre).contains(v) && v.user_id != user_id as int implies refresh_views(
                post,
            ).contains(v) by {
                let prevs = refresh_views(pre);
                let i0 = choose|x: int| 0 <= x < prevs.len() && prevs[x] == v;
                assert(prevs[i0] == pre[i0]@);
                assert(keep_spec(pre[i0]));
                pre.lemma_filter_contains(keep_spec, i0);
                let x = choose|x: int| 0 <= x < post.len() && post[x] == pre[i0];
                assert(refresh_views(post)[x] == v);
            }
        }
    }

    /// The index of the password-reset token carrying the given string, if any.
    fn find_reset_by_token(&self, token: &str) -> (r: Option<usize>)
        ensures
            r matches Some(k) ==> k < self.password_reset_tokens@.len() && self.password_reset_tokens@[
                k as int
            ]@.token == token@,
            r is None ==> !has_token(reset_views(self.password_reset_tokens@), token@),
    {
        let n = self.password_reset_tokens.len();
        let mut k: usize = 0;
        while k < n
            invariant
                n == self.password_reset_tokens@.len(),
                k <= n,
                forall|i: int|
                    0 <= i < k ==> #[trigger] reset_views(self.password_reset_tokens@)[i].token
                        != token@,
            decreases n - k,
        {
            if str_eq(self.password_reset_tokens[k].token.as_str(), token) {
                return Some(k);
            }
            k += 1;
        }
        None
    }

    /// The index of the password-reset token with the given id, if any.
    fn find_reset_by_id(&self, id: i64) -> (r: Option<usize>)
        ensures
            r matches Some(k) ==> k < self.password_reset_tokens@.len() && self.password_reset_tokens@[
                k as int
            ]@.id == id,
            r is None ==> !has_token_id(reset_views(self.password_reset_tokens@), id as int),
    {
        let n = self.password_reset_tokens.len();
        let mut k: usize = 0;
        while k < n
            invariant
                n == self.password_reset_tokens@.len(),
                k <= n,
                forall|i: int|
                    0 <= i < k ==> #[trigger] reset_views(self.password_reset_tokens@)[i].id != id,
            decreases n - k,
        {
            if self.password_reset_tokens[k].id == id {
                return Some(k);
            }
            k += 1;
        }
        None
    }

    /// Inserts a fresh, unused password-reset token. Fails exactly when the token
    /// string is already stored, as the unique index of a relational store
    /// would make it fail.
    pub fn create_password_reset_token(
        &mut self,
        user_id: i64,
        token: &str,
        expires_at: i64,
        created_at: i64,
    ) -> (r: Result<PasswordResetToken, AppError>)
        requires
            old(self).wf(),
            old(self).next_password_reset_token_id < i64::MAX,
        ensures
            final(self).wf(),
            Self::users_unchanged(*old(self), *final(self)),
            Self::refresh_unchanged(*old(self), *final(self)),
            Self::verification_unchanged(*old(self), *final(self)),
            Self::audit_unchanged(*old(self), *final(self)),
            Self::catalog_unchanged(*old(self), *final(self)),
            r is Err <==> has_token(reset_views(old(self).password_reset_tokens@), token@),
            r matches Err(e) ==> e is Database && Self::reset_unchanged(
                *old(self),
                *final(self),
            ),
            r matches Ok(t) ==> {
                &&& t@ == (TokenView {
                    id: old(self).next_password_reset_token_id as int,
                    user_id: user_id as int,
                    token: token@,
                    expires_at: expires_at as int,
                    used: false,
                })
                &&& t.created_at == created_at
                &&& final(self).password_reset_tokens@ == old(self).password_reset_tokens@.push(t)
                &&& final(self).next_password_reset_token_id == old(self).next_password_reset_token_id + 1
            },
    {
        if let Some(k) = self.find_reset_by_token(token) {
            proof {
                let vs = reset_views(self.password_reset_tokens@);
                assert(vs[k as int].token == token@);
            }
            return Err(AppError::Database("duplicate token string".to_string()));
        }
        let record = PasswordResetToken {
            id: self.next_password_reset_token_id,
            user_id,
            token: token.to_owned(),
            expires_at,
            created_at,
            used: false,
        };
        let result = record.clone();
        self.password_reset_tokens.push(record);
        self.next_password_reset_token_id = self.next_password_reset_token_id + 1;
        proof {
            let pre = reset_views(old(self).password_reset_tokens@);
            let post = reset_views(self.password_reset_tokens@);
            let last = post.len() - 1;
            assert(post =~= pre.push(result@));
            assert forall|i: int, j: int| 0 <= i < j < post.len() implies #[trigger] post[i].id
                != #[trigger] post[j].id by {
                if j == last {
                    assert(post[i] == pre[i] && 0 < pre[i].id < old(self).next_password_reset_token_id);
                }
            }
            assert forall|i: int, j: int| 0 <= i < j < post.len() implies #[trigger] post[i].token
                != #[trigger] post[j].token by {
                if j == last {
                    assert(post[i] == pre[i]);
                    assert(!has_token(pre, token@));
                }
            }
            assert forall|i: int| 0 <= i < post.len() implies 0 < #[trigger] post[i].id
                < self.next_password_reset_token_id by {
                if i < last {
                    assert(post[i] == pre[i] && 0 < pre[i].id < old(self).next_password_reset_token_id);
                } else {
                    assert(post[i].id == old(self).next_password_reset_token_id);
                }
            }
        }
        Ok(result)
    }

    /// Looks a password-reset token up by its string.
    pub fn get_password_reset_token(&self, token: &str) -> (r: Option<PasswordResetToken>)
        requires
            self.wf(),
        ensures
            r is Some <==> has_token(reset_views(self.password_reset_tokens@), token@),
            r matches Some(t) ==> t@ == token_named(reset_views(self.password_reset_tokens@), token@)
                && t@.token == token@,
    {
        match self.find_reset_by_token(token) {
            Some(k) => {
                let t = self.password_reset_tokens[k].clone();
                proof {
                    let vs = reset_views(self.password_reset_tokens@);
                    let ghost c = choose|i: int| 0 <= i < vs.len() && vs[i].token == token@;
                    assert(vs[k as int].token == token@);
                    assert(0 <= c < vs.len() && vs[c].token == token@);
                }
                Some(t)
            },
            None => None,
        }
    }

    /// Flips a password-reset token's used flag to true: the one transition of the
    /// single-use state machine, never undone. A missing id changes
    /// nothing.
    pub fn mark_password_reset_token_used(&mut self, token_id: i64)
        requires
            old(self).wf(),
        ensures
            final(self).wf(),
            Self::users_unchanged(*old(self), *final(self)),
            Self::refresh_unchanged(*old(self), *final(self)),
            Self::verification_unchanged(*old(self), *final(self)),
            Self::audit_unchanged(*old(self), *final(self)),
            Self::catalog_unchanged(*old(self), *final(self)),
            final(self).next_password_reset_token_id == old(self).next_password_reset_token_id,
            !has_token_id(reset_views(old(self).password_reset_tokens@), token_id as int)
                ==> final(self).password_reset_tokens@ == old(self).password_reset_tokens@,
            has_token_id(reset_views(old(self).password_reset_tokens@), token_id as int) ==> {
                let pre = reset_views(old(self).password_reset_tokens@);
                let k = token_id_idx(pre, token_id as int);
                reset_views(final(self).password_reset_tokens@) == pre.update(k, marked_used(pre[k]))
            },
    {
        match self.find_reset_by_id(token_id) {
            Some(k) => {
                proof {
                    let vs = reset_views(self.password_reset_tokens@);
                    let ghost c = token_id_idx(vs, token_id as int);
                    assert(vs[k as int].id == token_id);
                    assert(0 <= c < vs.len() && vs[c].id == token_id);
                }
                let old_rec = &self.password_reset_tokens[k];
                let updated = PasswordResetToken {
                    id: old_rec.id,
                    user_id: old_rec.user_id,
                    token: old_rec.token.clone(),
                    expires_at: old_rec.expires_at,
                    created_at: old_rec.created_at,
                    used: true,
                };
                self.password_reset_tokens[k] = updated;
                proof {
                    let pre = reset_views(old(self).password_reset_tokens@);
                    let post = reset_views(self.password_reset_tokens@);
                    assert(post =~= pre.update(k as int, marked_used(pre[k as int])));
                }
            },
            None => {},
        }
    }


    /// The index of the email-verification token carrying the given string, if any.
    fn find_verification_by_token(&self, token: &str) -> (r: Option<usize>)
        ensures
            r matches Some(k) ==> k < self.email_verification_tokens@.len() && self.email_verification_tokens@[
                k as int
            ]@.token == token@,
            r is None ==> !has_token(verification_views(self.email_verification_tokens@), token@),
    {
        let n = self.email_verification_tokens.len();
        let mut k: usize = 0;
        while k < n
            invariant
                n == self.email_verification_tokens@.len(),
                k <= n,
                forall|i: int|
                    0 <= i < k ==> #[trigger] verification_views(self.email_verification_tokens@)[i].token
                        != token@,
            decreases n - k,
        {
            if str_eq(self.email_verification_tokens[k].token.as_str(), token) {
                return Some(k);
            }
            k += 1;
        }
        None
    }

    /// The index of the email-verification token with the given id, if any.
    fn find_verification_by_id(&self, id: i64) -> (r: Option<usize>)
        ensures
            r matches Some(k) ==> k < self.email_verification_tokens@.len() && self.email_verification_tokens@[
                k as int
            ]@.id == id,
            r is None ==> !has_token_id(verification_views(self.email_verification_tokens@), id as int),
    {
        let n = self.email_verification_tokens.len();
        let mut k: usize = 0;
        while k < n
            invariant
                n == self.email_verification_tokens@.len(),
                k <= n,
                forall|i: int|
                    0 <= i < k ==> #[trigger] verification_views(self.email_verification_tokens@)[i].id != id,
            decreases n - k,
        {
            if self.email_verification_tokens[k].id == id {
                return Some(k);
            }
            k += 1;
        }
        None
    }

    /// Inserts a fresh, unused email-verification token. Fails exactly when the token
    /// string is already stored, as the unique index of a relational store
    /// would make it fail.
    pub fn create_email_verification_token(
        &mut self,
        user_id: i64,
        token: &str,
        expires_at: i64,
        created_at: i64,
    ) -> (r: Result<EmailVerificationToken, AppError>)
        requires
            old(self).wf(),
            old(self).next_email_verification_token_id < i64::MAX,
        ensures
            final(self).wf(),
            Self::users_unchanged(*old(self), *final(self)),
            Self::reset_unchanged(*old(self), *final(self)),
            Self::refresh_unchanged(*old(self), *final(self)),
            Self::audit_unchanged(*old(self), *final(self)),
            Self::catalog_unchanged(*old(self), *final(self)),
            r is Err <==> has_token(verification_views(old(self).email_verification_tokens@), token@),
            r matches Err(e) ==> e is Database && Self::verification_unchanged(
                *old(self),
                *final(self),
            ),
            r matches Ok(t) ==> {
                &&& t@ == (TokenView {
                    id: old(self).next_email_verification_token_id as int,
                    user_id: user_id as int,
                    token: token@,
                    expires_at: expires_at as int,
                    used: false,
                })
                &&& t.created_at == created_at
                &&& final(self).email_verification_tokens@ == old(self).email_verification_tokens@.push(t)
                &&& final(self).next_email_verification_token_id == old(self).next_email_verification_token_id + 1
            },
    {
        if let Some(k) = self.find_verification_by_token(token) {
            proof {
                let vs = verification_views(self.email_verification_tokens@);
                assert(vs[k as int].token == token@);
            }
            return Err(AppError::Database("duplicate token string".to_string()));
        }
        let record = EmailVerificationToken {
            id: self.next_email_verification_token_id,
            user_id,
            token: token.to_owned(),
            expires_at,
            created_at,
            used: false,
        };
        let result = record.clone();
        self.email_verification_tokens.push(record);
        self.next_email_verification_token_id = self.next_email_verification_token_id + 1;
        proof {
            let pre = verification_views(old(self).email_verification_tokens@);
            let post = verification_views(self.email_verification_tokens@);
            let last = post.len() - 1;
            assert(post =~= pre.push(result@));
            assert forall|i: int, j: int| 0 <= i < j < post.len() implies #[trigger] post[i].id
                != #[trigger] post[j].id by {
                if j == last {
                    assert(post[i] == pre[i] && 0 < pre[i].id < old(self).next_email_verification_token_id);
                }
            }
            assert forall|i: int, j: int| 0 <= i < j < post.len() implies #[trigger] post[i].token
                != #[trigger] post[j].token by {
                if j == last {
                    assert(post[i] == pre[i]);
                    assert(!has_token(pre, token@));
                }
            }
            assert forall|i: int| 0 <= i < post.len() implies 0 < #[trigger] post[i].id
                < self.next_email_verification_token_id by {
                if i < last {
                    assert(post[i] == pre[i] && 0 < pre[i].id < old(self).next_email_verification_token_id);
                } else {
                    assert(post[i].id == old(self).next_email_verification_token_id);
                }
            }
        }
        Ok(result)
    }

    /// Looks an email-verification token up by its string.
    pub fn get_email_verification_token(&self, token: &str) -> (r: Option<EmailVerificationToken>)
        requires
            self.wf(),
        ensures
            r is Some <==> has_token(verification_views(self.email_verification_tokens@), token@),
            r matches Some(t) ==> t@ == token_named(verification_views(self.email_verification_tokens@), token@)
                && t@.token == token@,
    {
        match self.find_verification_by_token(token) {
            Some(k) => {
                let t = self.email_verification_tokens[k].clone();
                proof {
                    let vs = verification_views(self.email_verification_tokens@);
                    let ghost c = choose|i: int| 0 <= i < vs.len() && vs[i].token == token@;
                    assert(vs[k as int].token == token@);
                    assert(0 <= c < vs.len() && vs[c].token == token@);
                }
                Some(t)
            },
            None => None,
        }
    }

    /// Flips an email-verification token's used flag to true: the one transition of the
    /// single-use state machine, never undone. A missing id changes
    /// nothing.
    pub fn mark_email_verification_token_used(&mut self, token_id: i64)
        requires
            old(self).wf(),
        ensures
            final(self).wf(),
            Self::users_unchanged(*old(self), *final(self)),
            Self::reset_unchanged(*old(self), *final(self)),
            Self::refresh_unchanged(*old(self), *final(self)),
            Self::audit_unchanged(*old(self), *final(self)),
            Self::catalog_unchanged(*old(self), *final(self)),
            final(self).next_email_verification_token_id == old(self).next_email_verification_token_id,
            !has_token_id(verification_views(old(self).email_verification_tokens@), token_id as int)
                ==> final(self).email_verification_tokens@ == old(self).email_verification_tokens@,
            has_token_id(verification_views(old(self).email_verification_tokens@), token_id as int) ==> {
                let pre = verification_views(old(self).email_verification_tokens@);
                let k = token_id_idx(pre, token_id as int);
                verification_views(final(self).email_verification_tokens@) == pre.update(k, marked_used(pre[k]))
            },
    {
        match self.find_verification_by_id(token_id) {
            Some(k) => {
                proof {
                    let vs = verification_views(self.email_verification_tokens@);
                    let ghost c = token_id_idx(vs, token_id as int);
                    assert(vs[k as int].id == token_id);
                    assert(0 <= c < vs.len() && vs[c].id == token_id);
                }
                let old_rec = &self.email_verification_tokens[k];
                let updated = EmailVerificationToken {
                    id: old_rec.id,
                    user_id: old_rec.user_id,
                    token: old_rec.token.clone(),
                    expires_at: old_rec.expires_at,
                    created_at: old_rec.created_at,
                    used: true,
                };
                self.email_verification_tokens[k] = updated;
                proof {
                    let pre = verification_views(old(self).email_verification_tokens@);
                    let post = verification_views(self.email_verification_tokens@);
                    assert(post =~= pre.update(k as int, marked_used(pre[k as int])));
                }
            },
            None => {},
        }
    }


    /// Lists the users matching a query, paginated, together with the full
    /// match count. Pages count from 1; a page past the end is empty.
    pub fn get_all(&self, q: Option<&str>, page: i64, limit: i64) -> (r: (Vec<User>, i64))
        requires
            self.wf(),
            self.users@.len() <= i64::MAX,
        ensures
            ({
                let m = self.users@.filter(|u: User| matches_query(u, opt_str_view(q)));
                &&& r.1 == m.len()
                &&& r.0@ == m.subrange(
                    page_skip(page as int, limit as int, m.len() as int),
                    page_skip(page as int, limit as int, m.len() as int) + page_take(
                        page as int,
                        limit as int,
                        m.len() as int,
                    ),
                )
            }),
    {
        broadcast use vstd::prelude::Seq::lemma_filter_push;
        broadcast use vstd::prelude::Seq::lemma_filter_len;

        let ghost pred = |u: User| matches_query(u, opt_str_view(q));
        let n = self.users.len();
        let mut matched: Vec<User> = Vec::new();
        let mut k: usize = 0;
        while k < n
            invariant
                n == self.users@.len(),
                k <= n,
                pred == (|u: User| matches_query(u, opt_str_view(q))),
                matched@ == self.users@.take(k as int).filter(pred),
                matched@.len() <= k,
            decreases n - k,
        {
            proof {
                let t = self.users@.take(k as int);
                let e = self.users@[k as int];
                assert(self.users@.take(k + 1) =~= t.push(e));
                t.lemma_filter_push(e, pred);
            }
            let u = &self.users[k];
            let hit = match q {
                Some(text) => {
                    if text.is_empty() {
                        true
                    } else {
                        let mut h = str_contains(u.username.as_str(), text);
                        if !h {
                            h = match &u.email {
                                Some(e) => str_contains(e.as_str(), text),
                                None => false,
                            };
                        }
                        h
                    }
                },
                None => true,
            };
            proof {
                assert(hit == pred(self.users@[k as int]));
            }
            if hit {
                let c = u.clone();
                matched.push(c);
            }
            k += 1;
        }
        proof {
            assert(self.users@.take(n as int) =~= self.users@);
        }
        let total = matched.len();
        let total_count: i64 = total as i64;
        let skip: usize = if page < 1 || limit <= 0 {
            0
        } else {
            proof {
                assert(0 <= (page as int - 1) * (limit as int) < i128::MAX as int)
                    by (nonlinear_arith)
                    requires
                        1 <= page as int <= i64::MAX as int,
                        1 <= limit as int <= i64::MAX as int,
                ;
            }
            let raw: i128 = (page as i128 - 1) * (limit as i128);
            if raw >= total as i128 {
                total
            } else {
                raw as usize
            }
        };
        let take_n: usize = if limit <= 0 {
            0
        } else {
            let rem = total - skip;
            if limit as i128 > rem as i128 {
                rem
            } else {
                limit as usize
            }
        };
        let mut pagev: Vec<User> = Vec::new();
        let end = skip + take_n;
        let mut i: usize = skip;
        proof {
            assert(pagev@ =~= matched@.subrange(skip as int, skip as int));
        }
        while i < end
            invariant
                end <= matched@.len(),
                skip <= i <= end,
                pagev@ == matched@.subrange(skip as int, i as int),
            decreases end - i,
        {
            let c = matched[i].clone();
            pagev.push(c);
            proof {
                assert(matched@.subrange(skip as int, i + 1) =~= matched@.subrange(
                    skip as int,
                    i as int,
                ).push(matched@[i as int]));
            }
            i += 1;
        }
        (pagev, total_count)
    }

    /// Counts all users, the administrators among them, and the users
    /// created on the same day as the given rendered timestamp.
    pub fn get_stats(&self, today: &str) -> (r: (i64, i64, i64))
        requires
            self.wf(),
            self.users@.len() <= i64::MAX,
        ensures
            r.0 == self.users@.len(),
            r.1 == self.users@.filter(|u: User| u.role == Role::Admin).len(),
            r.2 == self.users@.filter(|u: User| same_day(u.created_at@, today@)).len(),
    {
        broadcast use vstd::prelude::Seq::lemma_filter_push;
        broadcast use vstd::prelude::Seq::lemma_filter_len;

        let ghost adm = |u: User| u.role == Role::Admin;
        let ghost fresh = |u: User| same_day(u.created_at@, today@);
        let n = self.users.len();
        let mut admins: usize = 0;
        let mut new_today: usize = 0;
        let mut k: usize = 0;
        while k < n
            invariant
                n == self.users@.len(),
                k <= n,
                adm == (|u: User| u.role == Role::Admin),
                fresh == (|u: User| same_day(u.created_at@, today@)),
                admins == self.users@.take(k as int).filter(adm).len(),
                new_today == self.users@.take(k as int).filter(fresh).len(),
                admins <= k,
                new_today <= k,
            decreases n - k,
        {
            proof {
                let t = self.users@.take(k as int);
                let e = self.users@[k as int];
                assert(self.users@.take(k + 1) =~= t.push(e));
                t.lemma_filter_push(e, adm);
                t.lemma_filter_push(e, fresh);
                assert(t.len() == k);
            }
            let u = &self.users[k];
            if u.role == Role::Admin {
                admins += 1;
            }
            if same_day_prefix(u.created_at.as_str(), today) {
                new_today += 1;
            }
            k += 1;
        }
        proof {
            assert(self.users@.take(n as int) =~= self.users@);
        }
        (n as i64, admins as i64, new_today as i64)
    }

    /// The audit records, newest first.
    pub fn get_audit_logs(&self) -> (r: Vec<AuditLog>)
        requires
            self.wf(),
        ensures
            r@.len() == self.audit_logs@.len(),
            forall|i: int|
                0 <= i < r@.len() ==> r@[i] == self.audit_logs@[self.audit_logs@.len() - 1 - i],
    {
        let n = self.audit_logs.len();
        let mut out: Vec<AuditLog> = Vec::new();
        let mut k: usize = 0;
        while k < n
            invariant
                n == self.audit_logs@.len(),
                k <= n,
                out@.len() == k,
                forall|i: int| 0 <= i < k ==> out@[i] == self.audit_logs@[n - 1 - i],
            decreases n - k,
        {
            let c = self.audit_logs[n - 1 - k].clone();
            out.push(c);
            k += 1;
        }
        out
    }

    /// Appends one audit record.
    pub fn create_audit_log(
        &mut self,
        admin_username: &str,
        action: &str,
        target: &str,
        now_text: &str,
    )
        requires
            old(self).wf(),
            old(self).next_audit_log_id < i64::MAX,
        ensures
            final(self).wf(),
            Self::users_unchanged(*old(self), *final(self)),
            Self::refresh_unchanged(*old(self), *final(self)),
            Self::reset_unchanged(*old(self), *final(self)),
            Self::verification_unchanged(*old(self), *final(self)),
            Self::catalog_unchanged(*old(self), *final(self)),
            final(self).audit_logs@.len() == old(self).audit_logs@.len() + 1,
            forall|i: int|
                0 <= i < old(self).audit_logs@.len() ==> final(self).audit_logs@[i] == old(self).audit_logs@[i],
            ({
                let entry = final(self).audit_logs@.last();
                &&& entry.id == old(self).next_audit_log_id
                &&& entry.admin_username@ == admin_username@
                &&& entry.action@ == action@
                &&& entry.target@ == target@
                &&& entry.timestamp@ == now_text@
            }),
            final(self).next_audit_log_id == old(self).next_audit_log_id + 1,
    {
        let entry = AuditLog {
            id: self.next_audit_log_id,
            admin_username: admin_username.to_owned(),
            action: action.to_owned(),
            target: target.to_owned(),
            timestamp: now_text.to_owned(),
        };
        self.audit_logs.push(entry);
        self.next_audit_log_id = self.next_audit_log_id + 1;
        proof {
            let post = self.audit_logs@;
            let last = post.len() - 1;
            assert forall|i: int, j: int|
                0 <= i < j < post.len() implies #[trigger] post[i].id != #[trigger] post[j].id by {
                if j == last {
                    assert(post[i] == old(self).audit_logs@[i]);
                    assert(post[i].id < old(self).next_audit_log_id);
                }
            }
            assert forall|i: int| 0 <= i < post.len() implies 0 < #[trigger] post[i].id
                < self.next_audit_log_id by {
                if i < last {
                    assert(post[i] == old(self).audit_logs@[i]);
                    assert(0 < post[i].id < old(self).next_audit_log_id);
                } else {
                    assert(post[i].id == old(self).next_audit_log_id);
                }
            }
        }
    }

    /// The role catalog, in insertion order (which is id order).
    pub fn get_roles(&self) -> (r: Vec<DbRole>)
        requires
            self.wf(),
        ensures
            r@ == self.roles@,
    {
        let n = self.roles.len();
        let mut out: Vec<DbRole> = Vec::new();
        let mut k: usize = 0;
        while k < n
            invariant
                n == self.roles@.len(),
                k <= n,
                out@.len() == k,
                forall|i: int| 0 <= i < k ==> out@[i] == self.roles@[i],
            decreases n - k,
        {
            let c = self.roles[k].clone();
            out.push(c);
            k += 1;
        }
        proof {
            assert(out@ =~= self.roles@);
        }
        out
    }

    /// The permission catalog, in insertion order.
    pub fn get_permissions(&self) -> (r: Vec<Permission>)
        requires
            self.wf(),
        ensures
            r@ == self.permissions@,
    {
        let n = self.permissions.len();
        let mut out: Vec<Permission> = Vec::new();
        let mut k: usize = 0;
        while k < n
            invariant
                n == self.permissions@.len(),
                k <= n,
                out@.len() == k,
                forall|i: int| 0 <= i < k ==> out@[i] == self.permissions@[i],
            decreases n - k,
        {
            let c = self.permissions[k].clone();
            out.push(c);
            k += 1;
        }
        proof {
            assert(out@ =~= self.permissions@);
        }
        out
    }

    /// The role/permission association rows.
    pub fn get_role_permissions(&self) -> (r: Vec<RolePermission>)
        requires
            self.wf(),
        ensures
            r@ == self.role_permissions@,
    {
        let n = self.role_permissions.len();
        let mut out: Vec<RolePermission> = Vec::new();
        let mut k: usize = 0;
        while k < n
            invariant
                n == self.role_permissions@.len(),
                k <= n,
                out@.len() == k,
                forall|i: int| 0 <= i < k ==> out@[i] == self.role_permissions@[i],
            decreases n - k,
        {
            let c = self.role_permissions[k];
            out.push(c);
            k += 1;
        }
        proof {
            assert(out@ =~= self.role_permissions@);
        }
        out
    }

    /// The index of the role with the given name, if any.
    fn find_role_by_name(&self, name: &str) -> (r: Option<usize>)
        ensures
            r matches Some(k) ==> k < self.roles@.len() && self.roles@[k as int].name@ == name@,
            r is None ==> forall|i: int|
                0 <= i < self.roles@.len() ==> #[trigger] self.roles@[i].name@ != name@,
    {
        let n = self.roles.len();
        let mut k: usize = 0;
        while k < n
            invariant
                n == self.roles@.len(),
                k <= n,
                forall|i: int| 0 <= i < k ==> #[trigger] self.roles@[i].name@ != name@,
            decreases n - k,
        {
            if str_eq(self.roles[k].name.as_str(), name) {
                return Some(k);
            }
            k += 1;
        }
        None
    }

    /// The index of the role with the given id, if any.
    fn find_role_by_id(&self, id: i64) -> (r: Option<usize>)
        ensures
            r matches Some(k) ==> k < self.roles@.len() && self.roles@[k as int].id == id,
            r is None ==> forall|i: int|
                0 <= i < self.roles@.len() ==> #[trigger] self.roles@[i].id != id,
    {
        let n = self.roles.len();
        let mut k: usize = 0;
        while k < n
            invariant
                n == self.roles@.len(),
                k <= n,
                forall|i: int| 0 <= i < k ==> #[trigger] self.roles@[i].id != id,
            decreases n - k,
        {
            if self.roles[k].id == id {
                return Some(k);
            }
            k += 1;
        }
        None
    }

    /// Creates a named role with an associated permission set. Fails with
    /// `Conflict` exactly when the name is taken.
    pub fn create_role(
        &mut self,
        name: &str,
        description: Option<&str>,
        permissions: &[i64],
        created_at: &str,
    ) -> (r: Result<DbRole, AppError>)
        requires
            old(self).wf(),
            old(self).next_role_id < i64::MAX,
        ensures
            final(self).wf(),
            Self::users_unchanged(*old(self), *final(self)),
            Self::refresh_unchanged(*old(self), *final(self)),
            Self::reset_unchanged(*old(self), *final(self)),
            Self::verification_unchanged(*old(self), *final(self)),
            Self::audit_unchanged(*old(self), *final(self)),
            r is Err <==> (exists|i: int|
                0 <= i < old(self).roles@.len() && #[trigger] old(self).roles@[i].name@ == name@),
            r matches Err(e) ==> e is Conflict && Self::catalog_unchanged(
                *old(self),
                *final(self),
            ),
            r matches Ok(role) ==> {
                &&& role.id == old(self).next_role_id
                &&& role.name@ == name@
                &&& opt_view(role.description) == opt_str_view(description)
                &&& role.created_at@ == created_at@
                &&& final(self).roles@ == old(self).roles@.push(role)
                &&& final(self).next_role_id == old(self).next_role_id + 1
                &&& final(self).role_permissions@ == old(self).role_permissions@ + Seq::new(
                    permissions@.len(),
                    |i: int|
                        RolePermission {
                            role_id: old(self).next_role_id,
                            permission_id: permissions@[i],
                        },
                )
                &&& final(self).permissions@ == old(self).permissions@
            },
    {
        if let Some(k) = self.find_role_by_name(name) {
            proof {
                assert(self.roles@[k as int].name@ == name@);
            }
            return Err(AppError::Conflict("the role name already exists".to_string()));
        }
        let role = DbRole {
            id: self.next_role_id,
            name: name.to_owned(),
            description: match description {
                Some(d) => Some(d.to_owned()),
                None => None,
            },
            created_at: created_at.to_owned(),
        };
        let result = role.clone();
        self.roles.push(role);
        let role_id = self.next_role_id;
        self.next_role_id = self.next_role_id + 1;
        proof {
            let pre = old(self).roles@;
            let post = self.roles@;
            let last = post.len() - 1;
            assert forall|i: int, j: int| 0 <= i < j < post.len() implies #[trigger] post[i].id
                != #[trigger] post[j].id by {
                assert(post[i] == pre[i]);
                if j < last {
                    assert(post[j] == pre[j]);
                } else {
                    assert(pre[i].id < old(self).next_role_id);
                }
            }
            assert forall|i: int, j: int| 0 <= i < j < post.len() implies #[trigger] post[i].name@
                != #[trigger] post[j].name@ by {
                assert(post[i] == pre[i]);
                if j < last {
                    assert(post[j] == pre[j]);
                }
            }
            assert forall|i: int| 0 <= i < post.len() implies 0 < #[trigger] post[i].id
                < self.next_role_id by {
                if i < last {
                    assert(post[i] == pre[i]);
                    assert(0 < pre[i].id < old(self).next_role_id);
                } else {
                    assert(post[i].id == old(self).next_role_id);
                }
            }
        }
        let n = permissions.len();
        let mut k: usize = 0;
        while k < n
            invariant
                n == permissions@.len(),
                k <= n,
                self.role_permissions@ == old(self).role_permissions@ + Seq::new(
                    k as nat,
                    |i: int| RolePermission { role_id, permission_id: permissions@[i] },
                ),
                self.roles@ == old(self).roles@.push(result),
                self.next_role_id == old(self).next_role_id + 1,
                role_id == old(self).next_role_id,
                self.users@ == old(self).users@,
                self.next_user_id == old(self).next_user_id,
                self.refresh_tokens@ == old(self).refresh_tokens@,
                self.next_refresh_token_id == old(self).next_refresh_token_id,
                self.password_reset_tokens@ == old(self).password_reset_tokens@,
                self.next_password_reset_token_id == old(self).next_password_reset_token_id,
                self.email_verification_tokens@ == old(self).email_verification_tokens@,
                self.next_email_verification_token_id == old(self).next_email_verification_token_id,
                self.audit_logs@ == old(self).audit_logs@,
                self.next_audit_log_id == old(self).next_audit_log_id,
                self.permissions@ == old(self).permissions@,
                old(self).wf(),
                self.users_wf(),
                self.audit_wf(),
                self.catalog_wf(),
            decreases n - k,
        {
            let row = RolePermission { role_id, permission_id: permissions[k] };
            self.role_permissions.push(row);
            proof {
                assert(self.role_permissions@ =~= old(self).role_permissions@ + Seq::new(
                    (k + 1) as nat,
                    |i: int| RolePermission { role_id, permission_id: permissions@[i] },
                ));
            }
            k += 1;
        }
        Ok(result)
    }

    /// Applies a partial update to a role: the name and description are
    /// replaced where given, and where a permission set is given it replaces
    /// the role's rows wholesale. Fails with `NotFound` when the id is
    /// absent and with `Conflict` when the new name belongs to another role.
    pub fn update_role(
        &mut self,
        id: i64,
        name: Option<&str>,
        description: Option<&str>,
        permissions: Option<&[i64]>,
    ) -> (r: Result<DbRole, AppError>)
        requires
            old(self).wf(),
        ensures
            final(self).wf(),
            Self::users_unchanged(*old(self), *final(self)),
            Self::refresh_unchanged(*old(self), *final(self)),
            Self::reset_unchanged(*old(self), *final(self)),
            Self::verification_unchanged(*old(self), *final(self)),
            Self::audit_unchanged(*old(self), *final(self)),
            final(self).permissions@ == old(self).permissions@,
            final(self).next_role_id == old(self).next_role_id,
            r is Err ==> Self::catalog_unchanged(*old(self), *final(self)),
            r matches Err(e) ==> e is NotFound || e is Conflict,
            (forall|i: int| 0 <= i < old(self).roles@.len() ==> #[trigger] old(self).roles@[i].id
                != id) ==> (r matches Err(e) && e is NotFound),
            r matches Ok(role) ==> (exists|k: int|
                {
                    &&& 0 <= k < old(self).roles@.len()
                    &&& #[trigger] old(self).roles@[k].id == id
                    &&& final(self).roles@ == old(self).roles@.update(k, role)
                    &&& role.id == id
                    &&& role.name@ == (match name {
                        Some(nm) => nm@,
                        None => old(self).roles@[k].name@,
                    })
                    &&& opt_view(role.description) == (match description {
                        Some(d) => Some(d@),
                        None => opt_view(old(self).roles@[k].description),
                    })
                    &&& role.created_at == old(self).roles@[k].created_at
                }),
            r is Ok ==> (match permissions {
                Some(perms) => final(self).role_permissions@ == old(self).role_permissions@.filter(
                    |rp: RolePermission| rp.role_id != id,
                ) + Seq::new(
                    perms@.len(),
                    |i: int| RolePermission { role_id: id, permission_id: perms@[i] },
                ),
                None => final(self).role_permissions@ == old(self).role_permissions@,
            }),
    {
        broadcast use vstd::prelude::Seq::lemma_filter_push;

        let k = match self.find_role_by_id(id) {
            Some(k) => k,
            None => {
                return Err(AppError::NotFound("role not found".to_string()));
            },
        };
        if let Some(nm) = name {
            match self.find_role_by_name(nm) {
                Some(other) => {
                    if self.roles[other].id != id {
                        return Err(AppError::Conflict("the role name already exists".to_string()));
                    }
                },
                None => {},
            }
        }
        let old_role = &self.roles[k];
        let updated = DbRole {
            id: old_role.id,
            name: match name {
                Some(nm) => nm.to_owned(),
                None => old_role.name.clone(),
            },
            description: match description {
                Some(d) => Some(d.to_owned()),
                None => clone_opt_string(&old_role.description),
            },
            created_at: old_role.created_at.clone(),
        };
        let result = updated.clone();
        self.roles[k] = updated;
        proof {
            let pre = old(self).roles@;
            let post = self.roles@;
            let ki = k as int;
            assert forall|i: int, j: int| 0 <= i < j < post.len() implies #[trigger] post[i].name@
                != #[trigger] post[j].name@ by {
                if i != ki && j != ki {
                    assert(post[i] == pre[i] && post[j] == pre[j]);
                } else {
                    match name {
                        Some(nm) => {
                            assert forall|x: int|
                                0 <= x < pre.len() && x != ki implies pre[x].name@ != nm@ by {
                                if pre[x].name@ == nm@ {
                                    assert(pre[x].id != pre[ki].id);
                                }
                            }
                            if i == ki {
                                assert(post[j] == pre[j]);
                            } else {
                                assert(post[i] == pre[i]);
                            }
                        },
                        None => {
                            if i == ki {
                                assert(post[j] == pre[j]);
                                assert(post[i].name@ == pre[i].name@);
                            } else {
                                assert(post[i] == pre[i]);
                                assert(post[j].name@ == pre[j].name@);
                            }
                        },
                    }
                }
            }
        }
        if let Some(perms) = permissions {
            let ghost keep_spec = |rp: RolePermission| rp.role_id != id;
            let nrp = self.role_permissions.len();
            let mut kept: Vec<RolePermission> = Vec::new();
            let mut x: usize = 0;
            while x < nrp
                invariant
                    nrp == self.role_permissions@.len(),
                    x <= nrp,
                    keep_spec == (|rp: RolePermission| rp.role_id != id),
                    kept@ == self.role_permissions@.take(x as int).filter(keep_spec),
                decreases nrp - x,
            {
                proof {
                    let t = self.role_permissions@.take(x as int);
                    let e = self.role_permissions@[x as int];
                    assert(self.role_permissions@.take(x + 1) =~= t.push(e));
                    t.lemma_filter_push(e, keep_spec);
                }
                if self.role_permissions[x].role_id != id {
                    let row = self.role_permissions[x];
                    kept.push(row);
                }
                x += 1;
            }
            proof {
                assert(self.role_permissions@.take(nrp as int) =~= self.role_permissions@);
            }
            let np = perms.len();
            let mut rows: Vec<RolePermission> = Vec::new();
            let mut y: usize = 0;
            while y < np
                invariant
                    np == perms@.len(),
                    y <= np,
                    rows@ == Seq::new(
                        y as nat,
                        |i: int| RolePermission { role_id: id, permission_id: perms@[i] },
                    ),
                decreases np - y,
            {
                let row = RolePermission { role_id: id, permission_id: perms[y] };
                rows.push(row);
                proof {
                    assert(rows@ =~= Seq::new(
                        (y + 1) as nat,
                        |i: int| RolePermission { role_id: id, permission_id: perms@[i] },
                    ));
                }
                y += 1;
            }
            self.role_permissions = kept;
            self.role_permissions.append(&mut rows);
        }
        Ok(result)
    }

    /// Removes a role; its association rows are left to the caller's
    /// cascade rules. A missing id changes nothing.
    pub fn delete_role(&mut self, id: i64)
        requires
            old(self).wf(),
        ensures
            final(self).wf(),
            Self::users_unchanged(*old(self), *final(self)),
            Self::refresh_unchanged(*old(self), *final(self)),
            Self::reset_unchanged(*old(self), *final(self)),
            Self::verification_unchanged(*old(self), *final(self)),
            Self::audit_unchanged(*old(self), *final(self)),
            final(self).permissions@ == old(self).permissions@,
            final(self).role_permissions@ == old(self).role_permissions@,
            final(self).next_role_id == old(self).next_role_id,
            (forall|i: int| 0 <= i < old(self).roles@.len() ==> #[trigger] old(self).roles@[i].id
                != id) ==> final(self).roles@ == old(self).roles@,
            (exists|i: int| 0 <= i < old(self).roles@.len() && #[trigger] old(self).roles@[i].id
                == id) ==> (exists|k: int|
                0 <= k < old(self).roles@.len() && #[trigger] old(self).roles@[k].id == id && final(self).roles@ == old(self).roles@.remove(k)),
    {
        match self.find_role_by_id(id) {
            Some(k) => {
                self.roles.remove(k);
                proof {
                    let pre = old(self).roles@;
                    let post = self.roles@;
                    let ki = k as int;
                    assert(post =~= pre.remove(ki));
                    assert forall|i: int, j: int| 0 <= i < j < post.len() implies #[trigger] post[
                        i
                    ].id != #[trigger] post[j].id by {
                        let i0 = if i < ki { i } else { i + 1 };
                        let j0 = if j < ki { j } else { j + 1 };
                        assert(post[i] == pre[i0] && post[j] == pre[j0]);
                    }
                    assert forall|i: int, j: int| 0 <= i < j < post.len() implies #[trigger] post[
                        i
                    ].name@ != #[trigger] post[j].name@ by {
                        let i0 = if i < ki { i } else { i + 1 };
                        let j0 = if j < ki { j } else { j + 1 };
                        assert(post[i] == pre[i0] && post[j] == pre[j0]);
                    }
                    assert forall|i: int| 0 <= i < post.len() implies 0 < #[trigger] post[i].id
                        < self.next_role_id by {
                        let i0 = if i < ki { i } else { i + 1 };
                        assert(post[i] == pre[i0]);
                    }
                }
            },
            None => {},
        }
    }

    /// Replaces a permission's description. Fails with `NotFound` when the
    /// id is absent.
    pub fn update_permission(&mut self, id: i64, description: &str) -> (r: Result<
        Permission,
        AppError,
    >)
        requires
            old(self).wf(),
        ensures
            final(self).wf(),
            Self::users_unchanged(*old(self), *final(self)),
            Self::refresh_unchanged(*old(self), *final(self)),
            Self::reset_unchanged(*old(self), *final(self)),
            Self::verification_unchanged(*old(self), *final(self)),
            Self::audit_unchanged(*old(self), *final(self)),
            final(self).roles@ == old(self).roles@,
            final(self).role_permissions@ == old(self).role_permissions@,
            final(self).next_role_id == old(self).next_role_id,
            r is Err <==> (forall|i: int|
                0 <= i < old(self).permissions@.len() ==> #[trigger] old(self).permissions@[i].id
                    != id),
            r matches Err(e) ==> e is NotFound && final(self).permissions@ == old(self).permissions@,
            r matches Ok(p) ==> (exists|k: int|
                {
                    &&& 0 <= k < old(self).permissions@.len()
                    &&& #[trigger] old(self).permissions@[k].id == id
                    &&& final(self).permissions@ == old(self).permissions@.update(k, p)
                    &&& p.id == id
                    &&& p.name == old(self).permissions@[k].name
                    &&& opt_view(p.description) == Some(description@)
                    &&& p.created_at == old(self).permissions@[k].created_at
                }),
    {
        let n = self.permissions.len();
        let mut k: usize = 0;
        while k < n
            invariant
                n == self.permissions@.len(),
                k <= n,
                old(self).wf(),
                *self == *old(self),
                forall|i: int| 0 <= i < k ==> #[trigger] self.permissions@[i].id != id,
            decreases n - k,
        {
            if self.permissions[k].id == id {
                let old_perm = &self.permissions[k];
                let updated = Permission {
                    id: old_perm.id,
                    name: old_perm.name.clone(),
                    description: Some(description.to_owned()),
                    created_at: old_perm.created_at.clone(),
                };
                let result = updated.clone();
                self.permissions[k] = updated;
                proof {
                    let pre = old(self).permissions@;
                    let post = self.permissions@;
                    let ki = k as int;
                    assert(post[ki].id == pre[ki].id);
                    assert forall|i: int, j: int| 0 <= i < j < post.len() implies #[trigger] post[
                        i
                    ].id != #[trigger] post[j].id by {
                        if i != ki {
                            assert(post[i] == pre[i]);
                        }
                        if j != ki {
                            assert(post[j] == pre[j]);
                        }
                        assert(pre[i].id != pre[j].id);
                    }
                }
                return Ok(result);
            }
            k += 1;
        }
        Err(AppError::NotFound("permission not found".to_string()))
    }
}

} // verus!
