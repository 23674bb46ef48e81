//! Token-bucket rate limiting through the `governor` crate.  The limiter's
//! generics are bounded by governor's own traits, which the verifier cannot
//! name, so the limiter lives in a private field of an opaque holder; its
//! outcome depends on the clock, and the callers state what holds of every
//! outcome.

use vstd::prelude::*;

use governor::clock::DefaultClock;
use governor::middleware::NoOpMiddleware;
use governor::state::{InMemoryState, NotKeyed};
use governor::{Quota, RateLimiter};

verus! {

/// A direct in-memory limiter with the default real-time clock, opaque to
/// the verifier.
#[verifier::external_body]
#[derive(Debug)]
pub struct DirectLimiter {
    inner: RateLimiter<NotKeyed, InMemoryState, DefaultClock, NoOpMiddleware>,
}

impl DirectLimiter {
    /// Relies on governor's `Quota::per_minute` and `RateLimiter::direct`: a
    /// limiter that lets `cells` cells per minute conform, with burst
    /// capacity `cells`.
    #[verifier::external_body]
    pub fn per_minute(cells: u32) -> DirectLimiter
        requires
            cells >= 1,
    {
        DirectLimiter {
            inner: RateLimiter::direct(
                Quota::per_minute(core::num::NonZeroU32::new(cells).unwrap()),
            ),
        }
    }

    /// Relies on governor's `RateLimiter::check`: whether one cell conforms
    /// at this moment.  The outcome depends on the clock and on earlier
    /// checks; nothing more is promised of it.
    #[verifier::external_body]
    pub fn check_ok(&self) -> bool {
        self.inner.check().is_ok()
    }
}

} // verus!
