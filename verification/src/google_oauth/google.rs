//! The URLs and the authorization header of authenticated API requests.

use vstd::prelude::*;
use crate::text::{concat2, concat3, chars_vec, string_from_range};

verus! {

/// `s` without all its leading `/`.
pub open spec fn strip_leading_slashes(s: Seq<char>) -> Seq<char>
    decreases s.len(),
{
    if s.len() > 0 && s[0] == '/' {
        strip_leading_slashes(s.drop_first())
    } else {
        s
    }
}

/// The URL of an API endpoint: the base URL, one `/`, and the endpoint
/// without its leading slashes.
pub open spec fn endpoint_url(base_url: Seq<char>, endpoint: Seq<char>) -> Seq<char> {
    base_url + "/"@ + strip_leading_slashes(endpoint)
}

/// Build the URL of an API endpoint under the base URL.
pub fn api_url(base_url: &str, endpoint: &str) -> (r: String)
    ensures
        r@ == endpoint_url(base_url@, endpoint@),
{
    let v = chars_vec(endpoint);
    let mut i: usize = 0;
    proof {
        assert(v@.skip(0) =~= v@);
    }
    while i < v.len() && v[i] == '/'
        invariant
            i <= v@.len(),
            v@ == endpoint@,
            strip_leading_slashes(v@.skip(i as int)) == strip_leading_slashes(endpoint@),
        decreases v@.len() - i,
    {
        proof {
            assert(v@.skip(i as int).drop_first() =~= v@.skip(i + 1));
        }
        i = i + 1;
    }
    let rest = string_from_range(&v, i, v.len());
    proof {
        assert(v@.subrange(i as int, v@.len() as int) =~= v@.skip(i as int));
    }
    concat3(base_url, "/", rest.as_str())
}

/// The value of the `Authorization` header for an access token.
pub fn bearer_authorization(access_token: &str) -> (r: String)
    ensures
        r@ == "Bearer "@ + access_token@,
{
    concat2("Bearer ", access_token)
}

} // verus!
