use vstd::prelude::*;

verus! {

/// The request carries the correct credential: an authorization header is
/// present and its value equals the configured secret.
pub open spec fn authorized(header: Option<Seq<char>>, api_key: Seq<char>) -> bool {
    header matches Some(h) && h == api_key
}

/// The auth gate's decision. It looks at nothing but the header and the
/// secret, and in particular neither logs nor returns the credential.
pub fn auth(header: Option<&String>, api_key: &String) -> (r: bool)
    ensures
        r == authorized(header.deep_view(), api_key@),
{
    match header {
        Some(h) => h.eq(api_key),
        None => false,
    }
}

} // verus!
