//! The per-request context: a correlation id and the cancellation handle
//! bound to the engine stream. Cancellation is one-shot from the gateway's
//! side: the monitor calls `stop_generating` at most once, on detecting a
//! client disconnect, and the context counts every call it relays.

use vstd::prelude::*;

verus! {

/// Wraps an inbound request with a correlation id and a cancellation
/// handle. `stop_calls` counts how often the backend was told to cease
/// producing items.
#[derive(Debug)]
pub struct RequestContext {
    pub id: String,
    pub stop_calls: u64,
}

impl RequestContext {
    /// A fresh context carrying the given correlation id; no cancellation
    /// has been relayed yet.
    pub fn with_id(id: String) -> (r: RequestContext)
        ensures
            r.id == id,
            r.stop_calls == 0,
    {
        RequestContext { id, stop_calls: 0 }
    }

    /// Relays a cancellation to the backend.
    pub fn stop_generating(&mut self)
        requires
            old(self).stop_calls < u64::MAX,
        ensures
            final(self).stop_calls == old(self).stop_calls + 1,
            final(self).id == old(self).id,
    {
        self.stop_calls = self.stop_calls + 1;
    }
}

/// A fresh correlation id for one request.
/// Relies on uuid::Uuid::new_v4 and its Display form: a random version-4
/// UUID renders as 36 characters (32 lowercase hex digits in five
/// hyphen-separated groups). The value is random: nothing more is promised.
#[verifier::external_body]
pub fn new_request_id() -> (r: String)
    ensures
        r@.len() == 36,
{
    uuid::Uuid::new_v4().to_string()
}

} // verus!
