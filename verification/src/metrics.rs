//! Per-request metrics accounting: the inflight guard and the response
//! metric collector.
//!
//! Exactly one inflight guard exists per in-flight request; it is tagged
//! with the model, the endpoint kind and the client streaming flag, and
//! carries a one-shot success flag that stays unset unless the request
//! completes cleanly. The collector records the running output sequence
//! length and one observation per chunk that carried a metric annotation.

use vstd::prelude::*;

verus! {

/// The endpoint kind a request arrived on.
#[derive(Debug, Clone, Copy, PartialEq, Eq, Structural)]
pub enum Endpoint {
    Completions,
    ChatCompletions,
    Embeddings,
}

/// A scoped handle counting one in-flight request, with a one-shot success
/// flag. Dropping it without `mark_ok` reports the request as failed.
#[derive(Debug)]
pub struct InflightGuard {
    pub model: String,
    pub endpoint: Endpoint,
    pub streaming: bool,
    pub marked_ok: bool,
}

impl InflightGuard {
    /// Acquires the guard for one request: tagged, not yet successful.
    pub fn create(model: String, endpoint: Endpoint, streaming: bool) -> (r: InflightGuard)
        ensures
            r.model == model,
            r.endpoint == endpoint,
            r.streaming == streaming,
            !r.marked_ok,
    {
        InflightGuard { model, endpoint, streaming, marked_ok: false }
    }

    /// Records that the request completed successfully.
    pub fn mark_ok(&mut self)
        ensures
            final(self).marked_ok,
            final(self).model == old(self).model,
            final(self).endpoint == old(self).endpoint,
            final(self).streaming == old(self).streaming,
    {
        self.marked_ok = true;
    }
}

/// One observation of a chunk that carried a metric annotation: the input
/// sequence length and the chunk's token count.
#[derive(Debug, Clone, Copy, PartialEq, Eq, Structural)]
pub struct ResponseObservation {
    pub input_tokens: u64,
    pub chunk_tokens: u64,
}

/// A per-request observer of token counts across chunks.
#[derive(Debug)]
pub struct ResponseMetricCollector {
    pub model: String,
    pub current_osl: u64,
    pub observations: Vec<ResponseObservation>,
}

/// The mathematical shape of a collector.
#[verifier::ext_equal]
pub ghost struct CollectorView {
    pub model: Seq<char>,
    pub current_osl: u64,
    pub observations: Seq<ResponseObservation>,
}

impl View for ResponseMetricCollector {
    type V = CollectorView;

    open spec fn view(&self) -> CollectorView {
        CollectorView {
            model: self.model@,
            current_osl: self.current_osl,
            observations: self.observations@,
        }
    }
}

impl ResponseMetricCollector {
    /// A fresh collector for one request: nothing observed yet.
    pub fn create(model: String) -> (r: ResponseMetricCollector)
        ensures
            r.model == model,
            r.current_osl == 0,
            r.observations@.len() == 0,
    {
        ResponseMetricCollector { model, current_osl: 0, observations: Vec::new() }
    }

    /// Records the running output sequence length reported by the engine.
    pub fn observe_current_osl(&mut self, osl: u64)
        ensures
            final(self).current_osl == osl,
            final(self).model == old(self).model,
            final(self).observations == old(self).observations,
    {
        self.current_osl = osl;
    }

    /// Records one chunk observation.
    pub fn observe_response(&mut self, input_tokens: u64, chunk_tokens: u64)
        ensures
            final(self).observations@ == old(self).observations@.push(
                ResponseObservation { input_tokens, chunk_tokens },
            ),
            final(self).model == old(self).model,
            final(self).current_osl == old(self).current_osl,
    {
        self.observations.push(ResponseObservation { input_tokens, chunk_tokens });
    }
}

} // verus!
