//! Resolves GitHub pull-request URLs into metadata records — the PR's
//! open date, author, and date of first review — and serializes the
//! records to JSON.
//!
//! The verified core: the URL resolver ([`resolve`]), canonicalization
//! of URLs into deduplication keys ([`text`]), the record store keyed by
//! canonical URL ([`store`]), the merge of fetched API results into
//! records ([`record`]), and the JSON serializer with its proved
//! round trip ([`json`], [`roundtrip`]). Parsing URLs and handling
//! dates go through the `url` and `chrono` crates behind trusted
//! contracts ([`urlparse`], [`dates`]); the network and file I/O around
//! the library live in the command-line front end.

pub mod dates;
pub mod json;
pub mod ratelimit;
pub mod record;
pub mod roundtrip;
pub mod resolve;
pub mod store;
pub mod text;
pub mod urlparse;

pub use record::PullRequestRecord;
pub use resolve::resolve;
pub use resolve::PullRequestRef;
pub use resolve::ValidationError;
pub use store::Store;
pub use text::canonicalize;
