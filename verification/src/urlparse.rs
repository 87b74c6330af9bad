//! The one call into the `url` crate: parsing a URL string into its
//! scheme, host and path. Everything downstream of it is verified.

use vstd::prelude::*;

verus! {

/// What `url::Url::parse` extracts from a URL string: its scheme, host
/// and path, or nothing when the string does not parse as a URL with a
/// host. Parsing is a function of the string alone.
pub uninterp spec fn url_parts_of(s: Seq<char>) -> Option<(Seq<char>, Seq<char>, Seq<char>)>;

/// Relies on `url::Url::parse`, `Url::scheme`, `Url::host_str` and
/// `Url::path`: the result is the scheme, the host and the path of the
/// parsed URL, absent when the string does not parse or the URL has no
/// host. The path carries no query and no fragment.
#[verifier::external_body]
pub(crate) fn parse_url_parts(s: &str) -> (r: Option<(String, String, String)>)
    ensures
        r is Some <==> url_parts_of(s@) is Some,
        r matches Some(p) ==> url_parts_of(s@) == Some((p.0@, p.1@, p.2@)),
{
    match url::Url::parse(s) {
        Ok(u) => match u.host_str() {
            Some(h) => Some((u.scheme().to_string(), h.to_string(), u.path().to_string())),
            None => None,
        },
        Err(_) => None,
    }
}

} // verus!
