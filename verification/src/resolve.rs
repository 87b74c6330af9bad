//! The URL resolver: turns a pull-request URL into an (owner, repo,
//! number) triple, and builds the API endpoint URLs for that triple.
//!
//! A URL is valid exactly when it parses, has a host, and its path holds
//! exactly four segments `{owner}/{repo}/pull/{number}`. Any other shape
//! is a validation error, which callers treat as fatal.

use vstd::prelude::*;
use vstd::string::*;
use crate::text::{
    canonicalize,
    spec_canonical,
    spec_split,
    split_chars,
    str_to_chars,
    subvec,
};
use crate::urlparse::{parse_url_parts, url_parts_of};

verus! {

/// An immutable (owner, repo, number) triple naming one pull request.
/// The number is kept as the raw path segment, as it appears in the URL.
#[derive(Debug)]
pub struct PullRequestRef {
    pub owner: String,
    pub repo: String,
    pub number: String,
}

/// A rejected input URL. Carries the canonical form of the offending URL;
/// `usage_message` renders the fatal usage hint shown to the user.
#[derive(Debug)]
pub struct ValidationError {
    pub url: String,
}

/// The segments of a URL path that starts with `/`: the path after the
/// leading slash, split on `/`.
pub open spec fn path_segments_of(path: Seq<char>) -> Seq<Seq<char>> {
    spec_split(path.skip(1), '/')
}

/// What resolution yields on a URL string: the (owner, repo, number)
/// views taken from path segments 0, 1 and 3, or nothing when the URL
/// does not parse, has no host, or its path does not hold exactly four
/// segments.
pub open spec fn spec_resolve(u: Seq<char>) -> Option<(Seq<char>, Seq<char>, Seq<char>)> {
    match url_parts_of(u) {
        Option::None => Option::None,
        Option::Some(parts) => {
            let path = parts.2;
            if path.len() > 0 && path[0] == '/' {
                let segs = path_segments_of(path);
                if segs.len() == 4 {
                    Option::Some((segs[0], segs[1], segs[3]))
                } else {
                    Option::None
                }
            } else {
                Option::None
            }
        },
    }
}

/// Resolves a pull-request URL into its (owner, repo, number) triple.
///
/// Succeeds exactly when the URL parses with a host and its path holds
/// exactly four segments; owner, repo and number are segments 0, 1
/// and 3. On any other shape the error carries the canonicalized
/// offending URL.
pub fn resolve(url: &str) -> (r: Result<PullRequestRef, ValidationError>)
    ensures
        r is Ok <==> spec_resolve(url@) is Some,
        r matches Ok(pr) ==> Some((pr.owner@, pr.repo@, pr.number@)) == spec_resolve(url@),
        r matches Err(e) ==> e.url@ == spec_canonical(url@),
{
    match parse_url_parts(url) {
        None => Err(ValidationError { url: canonicalize(url) }),
        Some(parts) => {
            let path: String = parts.2;
            let pchars = str_to_chars(path.as_str());
            if pchars.len() == 0 {
                return Err(ValidationError { url: canonicalize(url) });
            }
            if pchars[0] != '/' {
                return Err(ValidationError { url: canonicalize(url) });
            }
            let rest = subvec(&pchars, 1, pchars.len());
            proof {
                assert(rest@ =~= path@.skip(1));
            }
            let segs = split_chars(&rest, '/');
            if segs.len() == 4 {
                proof {
                    assert(segs@[0]@ == segs.deep_view()[0]);
                    assert(segs@[1]@ == segs.deep_view()[1]);
                    assert(segs@[3]@ == segs.deep_view()[3]);
                }
                Ok(
                    PullRequestRef {
                        owner: segs[0].clone(),
                        repo: segs[1].clone(),
                        number: segs[3].clone(),
                    },
                )
            } else {
                Err(ValidationError { url: canonicalize(url) })
            }
        },
    }
}

/// The fatal usage hint for a rejected URL, naming the offending URL and
/// the expected shape.
pub open spec fn spec_usage_message(u: Seq<char>) -> Seq<char> {
    "Invalid link - "@ + u
        + "\nLink should look like: https://github.com/{OWNER}/{REPO}/pull/{PULL_NUMBER}"@
}

impl ValidationError {
    /// Renders the usage message for this rejected URL.
    pub fn usage_message(&self) -> (m: String)
        ensures
            m@ == spec_usage_message(self.url@),
    {
        let mut m = String::from_str("Invalid link - ");
        m.append(self.url.as_str());
        m.append("\nLink should look like: https://github.com/{OWNER}/{REPO}/pull/{PULL_NUMBER}");
        m
    }
}

/// The reviews-list API endpoint for a pull request.
pub open spec fn spec_reviews_url(owner: Seq<char>, repo: Seq<char>, number: Seq<char>) -> Seq<
    char,
> {
    "https://api.github.com/repos/"@ + owner + "/"@ + repo + "/pulls/"@ + number + "/reviews"@
}

/// The detail API endpoint for a pull request.
pub open spec fn spec_detail_url(owner: Seq<char>, repo: Seq<char>, number: Seq<char>) -> Seq<
    char,
> {
    "https://api.github.com/repos/"@ + owner + "/"@ + repo + "/pulls/"@ + number
}

impl PullRequestRef {
    /// The URL of the reviews list for this pull request.
    pub fn reviews_url(&self) -> (u: String)
        ensures
            u@ == spec_reviews_url(self.owner@, self.repo@, self.number@),
    {
        let mut u = String::from_str("https://api.github.com/repos/");
        u.append(self.owner.as_str());
        u.append("/");
        u.append(self.repo.as_str());
        u.append("/pulls/");
        u.append(self.number.as_str());
        u.append("/reviews");
        u
    }

    /// The URL of the detail endpoint for this pull request.
    pub fn detail_url(&self) -> (u: String)
        ensures
            u@ == spec_detail_url(self.owner@, self.repo@, self.number@),
    {
        let mut u = String::from_str("https://api.github.com/repos/");
        u.append(self.owner.as_str());
        u.append("/");
        u.append(self.repo.as_str());
        u.append("/pulls/");
        u.append(self.number.as_str());
        u
    }
}

} // verus!
