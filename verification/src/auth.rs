//! API-key authorization: the decision the HTTP middleware enforces.

use vstd::prelude::*;

verus! {

/// The key check the HTTP surface puts requests through: it carries no
/// state of its own, only the decision below.
pub struct ApiKeyAuth;

/// True iff some accepted key equals the presented token.
pub open spec fn keys_contain(keys: Seq<String>, token: Seq<char>) -> bool {
    exists|i: int| 0 <= i < keys.len() && keys[i]@ == token
}

/// True iff the request is exempt from the key check: a preflight method,
/// the health probe, the landing page, or the playground.
pub open spec fn is_exempt(method_is_options: bool, path: Seq<char>) -> bool {
    method_is_options || path == "/health"@ || path == "/"@ || path == "/playground"@
}

/// Whether a request may pass: exempt paths and preflight requests always
/// do; a request carrying an authorization header passes only with a
/// `Bearer ` prefix and a listed key; a request without one may instead
/// present a listed key as its `api_key` query parameter.
pub open spec fn authorized(
    keys: Seq<String>,
    method_is_options: bool,
    path: Seq<char>,
    auth_header: Option<Seq<char>>,
    query_api_key: Option<Seq<char>>,
) -> bool {
    if is_exempt(method_is_options, path) {
        true
    } else {
        match auth_header {
            Some(h) => h.len() >= 7 && h.subrange(0, 7) == "Bearer "@ && keys_contain(
                keys,
                h.skip(7),
            ),
            None => match query_api_key {
                Some(t) => keys_contain(keys, t),
                None => false,
            },
        }
    }
}

impl ApiKeyAuth {
    /// Decides one request.
    pub fn check(
        keys: &Vec<String>,
        method_is_options: bool,
        path: &str,
        auth_header: Option<&str>,
        query_api_key: Option<&str>,
    ) -> (r: bool)
        ensures
            r == authorized(
                keys@.map_values(|s: String| s),
                method_is_options,
                path@,
                match auth_header {
                    Some(h) => Some(h@),
                    None => None,
                },
                match query_api_key {
                    Some(t) => Some(t@),
                    None => None,
                },
            ),
    {
        let ghost keys_view = keys@.map_values(|s: String| s);
        proof {
            assert(keys_view =~= keys@);
        }
        if method_is_options {
            return true;
        }
        if crate::text::str_eq(path, "/health") || crate::text::str_eq(path, "/")
            || crate::text::str_eq(path, "/playground") {
            return true;
        }
        proof {
            assert(!is_exempt(method_is_options, path@));
        }
        match auth_header {
            Some(h) => {
                proof {
                    reveal_strlit("Bearer ");
                }
                match crate::text::strip_prefix(h, "Bearer ") {
                    Some(token) => {
                        proof {
                            assert(token@ =~= h@.skip(7));
                        }
                        Self::key_listed(keys, token.as_str())
                    },
                    None => false,
                }
            },
            None => {
                match query_api_key {
                    Some(t) => Self::key_listed(keys, t),
                    None => false,
                }
            },
        }
    }

    /// True iff the token equals one of the accepted keys.
    pub fn key_listed(keys: &Vec<String>, token: &str) -> (r: bool)
        ensures
            r == keys_contain(keys@, token@),
    {
        let mut i: usize = 0;
        while i < keys.len()
            invariant
                0 <= i <= keys@.len(),
                forall|k: int| 0 <= k < i ==> keys@[k]@ != token@,
            decreases keys@.len() - i,
        {
            if crate::text::str_eq(keys[i].as_str(), token) {
                proof {
                    assert(keys@[i as int]@ == token@);
                }
                return true;
            }
            i = i + 1;
        }
        false
    }
}

} // verus!
