use vstd::prelude::*;

verus! {

/// Tells the latest of a sequence of background requests from the stale
/// ones: a result is published only if it answers the request made last.
pub struct RequestTracker {
    pub latest: u64,
}

impl RequestTracker {
    pub fn new() -> (r: Self)
        ensures
            r.latest == 0,
    {
        RequestTracker { latest: 0 }
    }

    /// Starts a new request and returns its number; every earlier request
    /// becomes stale.
    pub fn begin(&mut self) -> (g: u64)
        ensures
            g == old(self).latest.wrapping_add(1),
            final(self).latest == g,
    {
        self.latest = self.latest.wrapping_add(1);
        self.latest
    }

    /// Whether a result of request `g` is to be published.
    pub fn is_current(&self, g: u64) -> (r: bool)
        ensures
            r == (g == self.latest),
    {
        g == self.latest
    }
}

/// Once a request has begun, a result of the request made before it is
/// stale.
pub proof fn lemma_earlier_request_is_stale(t: RequestTracker, after: RequestTracker, g: u64)
    requires
        g == t.latest,
        after.latest == t.latest.wrapping_add(1),
    ensures
        g != after.latest,
{
}

} // verus!
