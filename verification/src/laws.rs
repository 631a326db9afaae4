//! The global guarantees of the single-use token machine, stated and proved
//! over the store's state-machine model.

use vstd::prelude::*;
use crate::store::{
    TokenState, TokenView, has_token, marked_used, token_idx, token_named, token_state, tokens_wf,
};

verus! {

/// A token funds at most one successful rotation: once a rotation has found
/// the stored record active and retired it — whether or not the rest of
/// that rotation then went through — any later attempt with the same token
/// string, at any instant, finds it already used. `post` is the table a
/// successful `refresh_access_token_at` leaves behind: the old record
/// marked used, and possibly a fresh record appended.
pub proof fn lemma_rotation_is_single_use(
    pre: Seq<TokenView>,
    post: Seq<TokenView>,
    t: Seq<char>,
    fresh: TokenView,
    now1: int,
    now2: int,
    next_pre: int,
    next_post: int,
)
    requires
        tokens_wf(pre, next_pre),
        tokens_wf(post, next_post),
        token_state(pre, t, now1) == TokenState::Active,
        post == pre.update(token_idx(pre, t), marked_used(pre[token_idx(pre, t)])) || post
            == pre.update(token_idx(pre, t), marked_used(pre[token_idx(pre, t)])).push(fresh),
    ensures
        token_state(post, t, now2) == TokenState::AlreadyUsed,
{
    let k = token_idx(pre, t);
    assert(has_token(pre, t));
    assert(0 <= k < pre.len() && pre[k].token == t);
    assert(post[k].token == t && post[k].used);
    assert(has_token(post, t));
    let c = choose|i: int| 0 <= i < post.len() && post[i].token == t;
    assert(0 <= c < post.len() && post[c].token == t);
    if c != k {
        assert(post[c].token != post[k].token);
    }
    assert(token_named(post, t) == post[k]);
}

/// Revoking a user's refresh tokens makes every previously issued refresh
/// token of that user fail any later rotation outright: after an operation
/// that leaves no record of the owner and adds no record (a password reset,
/// a password change, a logout-all), a token string that belonged to the
/// owner is absent from the table, at any instant.
pub proof fn lemma_revocation_silences_token(
    pre: Seq<TokenView>,
    post: Seq<TokenView>,
    t: Seq<char>,
    uid: int,
    now: int,
    next_pre: int,
)
    requires
        tokens_wf(pre, next_pre),
        has_token(pre, t),
        token_named(pre, t).user_id == uid,
        forall|i: int| 0 <= i < post.len() ==> #[trigger] post[i].user_id != uid,
        forall|i: int| 0 <= i < post.len() ==> pre.contains(#[trigger] post[i]),
    ensures
        token_state(post, t, now) == TokenState::Missing,
{
    let k = choose|i: int| 0 <= i < pre.len() && pre[i].token == t;
    assert(0 <= k < pre.len() && pre[k].token == t);
    assert(token_named(pre, t) == pre[k]);
    if has_token(post, t) {
        let c = choose|i: int| 0 <= i < post.len() && post[i].token == t;
        assert(0 <= c < post.len() && post[c].token == t);
        assert(pre.contains(post[c]));
        let i0 = choose|x: int| 0 <= x < pre.len() && pre[x] == post[c];
        assert(pre[i0].token == t);
        if i0 != k {
            assert(pre[i0].token != pre[k].token);
        }
        assert(post[c].user_id == uid);
        assert(false);
    }
}

} // verus!
