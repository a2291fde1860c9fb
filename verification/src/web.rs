//! Web-facing scraps whose behaviour is plain enough to verify: the CORS
//! marker and its headers, the preflight no-op, the unauthorized redirect
//! target, and the login echo.

use vstd::prelude::*;
use crate::text::{spec_contains_sub, str_contains, str_eq};

verus! {

/// Some cookie in the list carries this name.
pub open spec fn spec_has_cookie(cookies: Seq<(Seq<char>, Seq<char>)>, name: Seq<char>) -> bool {
    exists|i: int| 0 <= i < cookies.len() && (#[trigger] cookies[i]).0 == name
}

/// The value of the first cookie with this name, if any.  Requests hand
/// their cookies over as plain name-value pairs.
pub fn get_cookie(cookies: &Vec<(String, String)>, name: &str) -> (r: Option<String>)
    ensures
        r is Some <==> spec_has_cookie(cookies.deep_view(), name@),
        r matches Some(v) ==> exists|i: int|
            {
                &&& 0 <= i < cookies.deep_view().len()
                &&& (#[trigger] cookies.deep_view()[i]).0 == name@
                &&& forall|j: int|
                    0 <= j < i ==> (#[trigger] cookies.deep_view()[j]).0 != name@
                &&& v@ == cookies.deep_view()[i].1
            },
{
    let n = cookies.len();
    let mut i: usize = 0;
    while i < n
        invariant
            n == cookies@.len(),
            0 <= i <= n,
            forall|j: int| 0 <= j < i ==> (#[trigger] cookies.deep_view()[j]).0 != name@,
        decreases n - i,
    {
        if str_eq(cookies[i].0.as_str(), name) {
            proof {
                assert(cookies.deep_view()[i as int].0 == name@);
            }
            return Some(cookies[i].1.clone());
        }
        i = i + 1;
    }
    None
}

/// Marker type for the CORS response policy; the wiring that attaches the
/// headers to responses lives outside the verified core.
pub struct CORS;

/// The header pairs the CORS policy adds to every response.
pub fn cors_headers() -> (r: Vec<(String, String)>)
    ensures
        r@.len() == 4,
        r@[0].0@ == "Access-Control-Allow-Origin"@ && r@[0].1@ == "*"@,
        r@[1].0@ == "Access-Control-Allow-Methods"@ && r@[1].1@ == "POST, GET, PATCH, OPTIONS"@,
        r@[2].0@ == "Access-Control-Allow-Headers"@ && r@[2].1@ == "*"@,
        r@[3].0@ == "Access-Control-Allow-Credentials"@ && r@[3].1@ == "true"@,
{
    let mut r: Vec<(String, String)> = Vec::new();
    r.push(("Access-Control-Allow-Origin".to_owned(), "*".to_owned()));
    r.push(("Access-Control-Allow-Methods".to_owned(), "POST, GET, PATCH, OPTIONS".to_owned()));
    r.push(("Access-Control-Allow-Headers".to_owned(), "*".to_owned()));
    r.push(("Access-Control-Allow-Credentials".to_owned(), "true".to_owned()));
    r
}

/// Answers CORS preflight requests; deliberately does nothing.
pub fn all_options() {
}

/// Where an unauthenticated request is redirected: judge routes to the
/// judge login page, everything else to the admin login page, and requests
/// that matched no route to the root.
pub fn unauthorized(route_path: Option<&str>) -> (r: String)
    ensures
        route_path is None ==> r@ == "/"@,
        route_path matches Some(p) && spec_contains_sub(p@, "judge"@) ==> r@ == "/judge/login"@,
        route_path matches Some(p) && !spec_contains_sub(p@, "judge"@) ==> r@ == "/admin/login"@,
{
    match route_path {
        None => "/".to_owned(),
        Some(p) => {
            if str_contains(p, "judge") {
                "/judge/login".to_owned()
            } else {
                "/admin/login".to_owned()
            }
        },
    }
}

/// A judge login request body.
pub struct Login {
    pub code: String,
}

/// Acknowledges a login request by echoing the submitted code.
pub fn judge_login(body: &Login) -> (r: String)
    ensures
        r@ == body.code@,
{
    body.code.clone()
}

} // verus!
