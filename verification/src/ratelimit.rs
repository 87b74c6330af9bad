//! The rate-limit snapshot: the quota endpoint's remaining request
//! count and reset instant. The query itself is diagnostic-only for
//! callers: its failure is a warning, never fatal.

use vstd::prelude::*;
use crate::dates::{format_rfc2822, rfc2822_of};

verus! {

/// A transient reading of the API quota: remaining requests and the
/// epoch second at which the quota resets.
#[derive(Debug)]
pub struct RateLimitSnapshot {
    pub remaining: u32,
    pub reset: i64,
}

impl RateLimitSnapshot {
    /// The reset instant rendered as RFC 2822, or nothing when the
    /// epoch second is out of the displayable range.
    pub fn reset_display(&self) -> (r: Option<String>)
        ensures
            r is Some <==> rfc2822_of(self.reset) is Some,
            r matches Some(s) ==> rfc2822_of(self.reset) == Some(s@),
    {
        format_rfc2822(self.reset)
    }
}

} // verus!
