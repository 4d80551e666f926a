//! Request authentication decisions: the path a request is checked against, the
//! bearer token it carries, the user id of a verified token's subject, and the answer
//! to a permission check.
use vstd::prelude::*;
use vstd::string::*;
use crate::text::{chars_of, string_of_range};
use crate::config::{parse_i64_text, spec_parse_i64};
use crate::metrics::push_str;
use crate::error::ApiError;

verus! {

/// Position of the first `?`, or the length when there is none.
pub open spec fn query_start(s: Seq<char>) -> nat
    decreases s.len(),
{
    if s.len() == 0 || s[0] == '?' {
        0
    } else {
        1 + query_start(s.drop_first())
    }
}

/// The path of a request URI: everything before the first `?`.
pub open spec fn spec_request_path(uri: Seq<char>) -> Seq<char> {
    uri.take(query_start(uri) as int)
}

proof fn lemma_query_start(s: Seq<char>, i: int)
    requires
        0 <= i <= s.len(),
        forall|j: int| 0 <= j < i ==> s[j] != '?',
        i == s.len() || s[i] == '?',
    ensures
        query_start(s) == i,
    decreases i,
{
    if i > 0 {
        let t = s.drop_first();
        assert forall|j: int| 0 <= j < i - 1 implies t[j] != '?' by {
            assert(t[j] == s[j + 1]);
        }
        if i < s.len() {
            assert(t[i - 1] == s[i]);
        }
        lemma_query_start(t, i - 1);
        assert(s[0] != '?');
    }
}

/// The path of a request URI, without its query string.
pub fn request_path(uri: &str) -> (r: String)
    ensures
        r@ == spec_request_path(uri@),
{
    let v = chars_of(uri);
    let mut i: usize = 0;
    while i < v.len() && v[i] != '?'
        invariant
            i <= v.len(),
            forall|j: int| 0 <= j < i ==> v@[j] != '?',
        decreases v.len() - i,
    {
        i = i + 1;
    }
    proof {
        lemma_query_start(v@, i as int);
    }
    let r = string_of_range(&v, 0, i);
    assert(r@ =~= v@.take(i as int));
    r
}

/// The token of an `Authorization` header: the text after `Bearer `. A missing header
/// and a header of another form are refused as unauthorized.
pub open spec fn spec_bearer_token(header: Option<Seq<char>>) -> Result<Seq<char>, Seq<char>> {
    match header {
        None => Err("Missing authorization header"@),
        Some(h) => if h.len() >= 7 && h.take(7) == "Bearer "@ {
            Ok(h.skip(7))
        } else {
            Err("Invalid authorization header format"@)
        },
    }
}

/// The bearer token of a request, or the unauthorized error it is answered with.
pub fn bearer_token(header: Option<&str>) -> (r: Result<String, ApiError>)
    ensures
        match (r, spec_bearer_token(match header {
            Some(h) => Some(h@),
            None => None,
        })) {
            (Ok(t), Ok(u)) => t@ == u,
            (Err(ApiError::Unauthorized(m)), Err(n)) => m@ == n,
            _ => false,
        },
{
    match header {
        None => Err(ApiError::unauthorized(String::from_str("Missing authorization header"))),
        Some(h) => {
            let v = chars_of(h);
            let p = chars_of("Bearer ");
            proof {
                reveal_strlit("Bearer ");
            }
            if v.len() >= 7 && v[0] == p[0] && v[1] == p[1] && v[2] == p[2] && v[3] == p[3] && v[4]
                == p[4] && v[5] == p[5] && v[6] == p[6] {
                assert(v@.take(7) =~= "Bearer "@);
                let t = string_of_range(&v, 7, v.len());
                assert(t@ =~= v@.skip(7));
                Ok(t)
            } else {
                proof {
                    if v@.len() >= 7 && v@.take(7) == "Bearer "@ {
                        assert(v@[0] == v@.take(7)[0]);
                        assert(v@[1] == v@.take(7)[1]);
                        assert(v@[2] == v@.take(7)[2]);
                        assert(v@[3] == v@.take(7)[3]);
                        assert(v@[4] == v@.take(7)[4]);
                        assert(v@[5] == v@.take(7)[5]);
                        assert(v@[6] == v@.take(7)[6]);
                    }
                }
                Err(ApiError::unauthorized(String::from_str("Invalid authorization header format")))
            }
        },
    }
}

/// The user id a verified token names: its subject read as an `i64`, or 0.
pub fn user_id_of_subject(sub: &str) -> (id: i64)
    ensures
        id == match spec_parse_i64(sub@) {
            Some(v) => v,
            None => 0,
        },
{
    match parse_i64_text(sub) {
        Some(v) => v,
        None => 0,
    }
}

/// The answer to a permission check: allowed requests pass; others are refused as
/// unauthorized, naming the resource and action.
pub fn permission_decision(resource: &str, action: &str, allowed: bool) -> (r: Result<(), ApiError>)
    ensures
        allowed ==> r is Ok,
        !allowed ==> (r matches Err(ApiError::Unauthorized(m)) && m@ == "Permission denied: no access to "@
            + resource@ + " "@ + action@),
{
    if allowed {
        Ok(())
    } else {
        let mut m = String::from_str("Permission denied: no access to ");
        push_str(&mut m, resource);
        push_str(&mut m, " ");
        push_str(&mut m, action);
        Err(ApiError::unauthorized(m))
    }
}

} // verus!
