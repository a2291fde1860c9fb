//! Request authentication: the judge token and the shared admin password.
//!
//! Both guards are pure checks from plain values: the cookie that came
//! with the request, and either the judge list or the configured password.

use vstd::prelude::*;
use vstd::string::StrSliceExecFns;
use crate::models::{Judge, JudgeView};
use crate::text::str_eq;

verus! {

/// A validated judge session token.
pub struct Token(pub String);

#[derive(Clone, Copy, Debug, PartialEq, Eq, Structural)]
pub enum TokenError {
    /// The cookie matched no judge.
    Invalid,
    /// No token cookie came with the request.
    Missing,
    /// The judge lookup itself failed.
    InternalServerError,
}

/// A validated admin password.
pub struct AdminPassword(pub String);

#[derive(Clone, Copy, Debug, PartialEq, Eq, Structural)]
pub enum AdminPasswordError {
    /// The cookie did not match the configured password.
    Invalid,
    /// No password cookie came with the request.
    Missing,
}

/// Draws a fresh sixteen-character session token.
///
/// Relies on rand's `Alphanumeric` distribution: every sample is one of
/// a-z, A-Z, 0-9, and exactly sixteen are taken.
#[verifier::external_body]
pub(crate) fn random_token() -> (t: String)
    ensures
        t@.len() == 16,
{
    rand::Rng::sample_iter(rand::thread_rng(), &rand::distributions::Alphanumeric)
        .take(16)
        .map(char::from)
        .collect()
}

/// Some judge carries this session token.
pub open spec fn spec_has_token(judges: Seq<JudgeView>, tok: Seq<char>) -> bool {
    exists|i: int| 0 <= i < judges.len() && #[trigger] judges[i].token == tok
}

/// Validates a judge token cookie against the judge list: missing cookie,
/// unknown token, or the token itself.
pub fn authenticate_token(cookie: Option<&str>, judges: &Vec<Judge>) -> (r: Result<
    Token,
    TokenError,
>)
    ensures
        cookie is None ==> r == Err::<Token, TokenError>(TokenError::Missing),
        cookie matches Some(c) ==> {
            &&& spec_has_token(judges.deep_view(), c@) ==> (r matches Ok(t) && t.0@ == c@)
            &&& !spec_has_token(judges.deep_view(), c@) ==> r == Err::<Token, TokenError>(
                TokenError::Invalid,
            )
        },
{
    match cookie {
        None => Err(TokenError::Missing),
        Some(c) => {
            let n = judges.len();
            let mut i: usize = 0;
            while i < n
                invariant
                    cookie == Some(c),
                    n == judges@.len(),
                    0 <= i <= n,
                    forall|j: int| 0 <= j < i ==> #[trigger] judges.deep_view()[j].token != c@,
                decreases n - i,
            {
                if str_eq(judges[i].token.as_str(), c) {
                    proof {
                        assert(judges.deep_view()[i as int].token == c@);
                    }
                    return Ok(Token(c.to_owned()));
                }
                i = i + 1;
            }
            Err(TokenError::Invalid)
        },
    }
}

/// Validates the admin password cookie against the configured password.
pub fn check_admin_password(provided: Option<&str>, correct: &str) -> (r: Result<
    AdminPassword,
    AdminPasswordError,
>)
    ensures
        provided is None ==> r == Err::<AdminPassword, AdminPasswordError>(
            AdminPasswordError::Missing,
        ),
        provided matches Some(p) ==> {
            &&& p@ == correct@ ==> (r matches Ok(a) && a.0@ == p@)
            &&& p@ != correct@ ==> r == Err::<AdminPassword, AdminPasswordError>(
                AdminPasswordError::Invalid,
            )
        },
{
    match provided {
        None => Err(AdminPasswordError::Missing),
        Some(p) => {
            if str_eq(p, correct) {
                Ok(AdminPassword(p.to_owned()))
            } else {
                Err(AdminPasswordError::Invalid)
            }
        },
    }
}

} // verus!
