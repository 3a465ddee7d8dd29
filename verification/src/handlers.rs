//! The per-route orchestrators behind `/v1/completions`,
//! `/v1/chat/completions` and `/v1/embeddings`.
//!
//! Each handler runs the same skeleton: a readiness gate, a correlation id,
//! template application (chat only), capture of the client's streaming
//! preference, a rewrite of the outbound request to always stream, a
//! registry lookup (miss: not found), allocation of the inflight guard and
//! the response collector, and the engine invocation. The work around the
//! engine call splits into a preparation step and a response step, so the
//! asynchronous invocation itself can sit between them.

use vstd::prelude::*;
use crate::context::RequestContext;
use crate::convert::{convert_stream, spec_convert_seq};
use crate::error::{
    relayable_code, wrapped_message, EngineError, ErrorResponse, STATUS_INTERNAL_SERVER_ERROR,
    STATUS_NOT_FOUND,
};
use crate::metrics::{Endpoint, InflightGuard, ResponseMetricCollector};
use crate::monitor::{
    lemma_results_view_of_match, monitor_for_disconnects, monitor_marks_ok,
    monitor_stops_upstream, spec_monitor_forwarded,
};
use crate::protocols::{Annotated, AnnotatedView};
use crate::responses::{from_annotated_stream, spec_fold};
use crate::sse::{SseEvent, SseEventView};
use vstd::string::StringExecFns;

verus! {

/// The status code of a successful response.
pub const STATUS_OK: u16 = 200;

/// An OpenAI-style completion request: the fields the gateway reads.
#[derive(Debug)]
pub struct CompletionRequest {
    pub model: String,
    pub stream: Option<bool>,
}

/// An OpenAI-style chat completion request: the fields the gateway reads or
/// rewrites. The temperature is held in thousandths.
#[derive(Debug)]
pub struct ChatCompletionRequest {
    pub model: String,
    pub stream: Option<bool>,
    pub temperature: Option<u32>,
    pub max_completion_tokens: Option<u32>,
}

/// An OpenAI-style embedding request: the fields the gateway reads.
#[derive(Debug)]
pub struct EmbeddingRequest {
    pub model: String,
}

/// Default values applied to a chat request that left them out. The
/// temperature is held in thousandths.
#[derive(Debug)]
pub struct RequestTemplate {
    pub model: String,
    pub temperature: u32,
    pub max_completion_tokens: u32,
}

/// The registry of models each engine kind serves.
#[derive(Debug)]
pub struct ModelRegistry {
    pub completions: Vec<String>,
    pub chat_completions: Vec<String>,
    pub embeddings: Vec<String>,
}

/// The service state a handler reads: the registry and the optional SSE
/// keep-alive interval in seconds.
#[derive(Debug)]
pub struct State {
    pub registry: ModelRegistry,
    pub sse_keep_alive: Option<u64>,
}

/// A response before transport: status, content type, body, and the SSE
/// keep-alive interval to attach, if any.
#[derive(Debug)]
pub struct HttpResponse {
    pub status: u16,
    pub content_type: String,
    pub body: ResponseBody,
    pub keep_alive: Option<u64>,
}

/// A response body: one JSON document, or a stream of SSE events.
#[derive(Debug)]
pub enum ResponseBody {
    Json(String),
    Sse(Vec<SseEvent>),
}

/// Whether a sequence of names holds the given one.
pub fn contains_name(names: &Vec<String>, name: &String) -> (r: bool)
    ensures
        r == names.deep_view().contains(name@),
{
    let n = names.len();
    let mut k: usize = 0;
    while k < n
        invariant
            k <= n,
            n == names@.len(),
            forall|t: int| 0 <= t < k ==> names.deep_view()[t] != name@,
        decreases n - k,
    {
        proof {
            assert(names.deep_view()[k as int] == names@[k as int]@);
        }
        if names[k].eq(name) {
            proof {
                assert(names.deep_view()[k as int] == name@);
            }
            return true;
        }
        k += 1;
    }
    proof {
        if names.deep_view().contains(name@) {
            let i = choose|i: int| 0 <= i < names.deep_view().len() && names.deep_view()[i]
                == name@;
            assert(names.deep_view()[i] != name@);
        }
    }
    false
}

impl ModelRegistry {
    /// Whether a completions engine serves this model.
    pub fn has_completions_model(&self, model: &String) -> (r: bool)
        ensures
            r == self.completions.deep_view().contains(model@),
    {
        contains_name(&self.completions, model)
    }

    /// Whether a chat-completions engine serves this model.
    pub fn has_chat_completions_model(&self, model: &String) -> (r: bool)
        ensures
            r == self.chat_completions.deep_view().contains(model@),
    {
        contains_name(&self.chat_completions, model)
    }

    /// Whether an embeddings engine serves this model.
    pub fn has_embeddings_model(&self, model: &String) -> (r: bool)
        ensures
            r == self.embeddings.deep_view().contains(model@),
    {
        contains_name(&self.embeddings, model)
    }
}

/// The readiness gate: a not-ready service answers with the unavailable
/// status. The service is currently always ready, so this always passes.
pub fn check_ready(_state: &State) -> (r: Result<(), (u16, ErrorResponse)>)
    ensures
        r is Ok,
{
    Ok(())
}

/// The client's streaming preference: the `stream` flag, defaulting to off.
pub open spec fn client_streaming_of(stream: Option<bool>) -> bool {
    match stream {
        Some(b) => b,
        None => false,
    }
}

/// What template application leaves of a chat request: an empty model name,
/// and an absent or zero temperature or completion-token limit, are taken
/// from the template; everything else is untouched.
pub open spec fn spec_apply_template(
    req: ChatCompletionRequest,
    template: RequestTemplate,
) -> ChatCompletionRequest {
    ChatCompletionRequest {
        model: if req.model@.len() == 0 {
            template.model
        } else {
            req.model
        },
        stream: req.stream,
        temperature: if req.temperature is None || (req.temperature matches Some(t) && t == 0) {
            Some(template.temperature)
        } else {
            req.temperature
        },
        max_completion_tokens: if req.max_completion_tokens is None || (
        req.max_completion_tokens matches Some(t) && t == 0) {
            Some(template.max_completion_tokens)
        } else {
            req.max_completion_tokens
        },
    }
}

/// Applies a configured template to a chat request, per
/// [`spec_apply_template`]; with no template the request is unchanged.
pub fn apply_template(request: ChatCompletionRequest, template: &Option<RequestTemplate>) -> (r:
    ChatCompletionRequest)
    ensures
        r == (match template {
            Some(t) => spec_apply_template(request, *t),
            None => request,
        }),
{
    match template {
        None => request,
        Some(t) => {
            let mut req = request;
            if req.model.as_str().is_empty() {
                req.model = t.model.clone();
            }
            let temperature_missing = match req.temperature {
                None => true,
                Some(v) => v == 0,
            };
            if temperature_missing {
                req.temperature = Some(t.temperature);
            }
            let tokens_missing = match req.max_completion_tokens {
                None => true,
                Some(v) => v == 0,
            };
            if tokens_missing {
                req.max_completion_tokens = Some(t.max_completion_tokens);
            }
            proof {
                assert(request.model@.len() == 0 ==> req.model == t.model);
            }
            req
        },
    }
}

/// The per-request resources every handler allocates before invoking the
/// engine: the captured streaming preference, the inflight guard, the
/// response metric collector and the tagged context.
#[derive(Debug)]
pub struct RequestResources {
    pub client_streaming: bool,
    pub inflight_guard: InflightGuard,
    pub response_collector: ResponseMetricCollector,
    pub context: RequestContext,
}

/// A prepared completion request: the outbound request and the resources.
#[derive(Debug)]
pub struct PreparedCompletion {
    pub request: CompletionRequest,
    pub resources: RequestResources,
}

/// A prepared chat completion request: the templated outbound request and
/// the resources.
#[derive(Debug)]
pub struct PreparedChat {
    pub request: ChatCompletionRequest,
    pub resources: RequestResources,
}

/// A prepared embedding request: the outbound request and the resources.
/// Embeddings are never streamed back to the client.
#[derive(Debug)]
pub struct PreparedEmbedding {
    pub request: EmbeddingRequest,
    pub resources: RequestResources,
}

/// What a finished request leaves behind: the response and the released
/// per-request resources, for inspection.
#[derive(Debug)]
pub struct HandlerOutcome {
    pub response: HttpResponse,
    pub inflight_guard: InflightGuard,
    pub context: RequestContext,
    pub response_collector: ResponseMetricCollector,
}

/// What freshly allocated request resources must look like before the
/// engine is invoked.
pub open spec fn resources_ok(
    p: RequestResources,
    model: Seq<char>,
    stream: Option<bool>,
    endpoint: Endpoint,
    request_id: Seq<char>,
) -> bool {
    &&& p.client_streaming == client_streaming_of(stream)
    &&& p.inflight_guard.model@ == model
    &&& p.inflight_guard.endpoint == endpoint
    &&& p.inflight_guard.streaming == client_streaming_of(stream)
    &&& !p.inflight_guard.marked_ok
    &&& p.response_collector.model@ == model
    &&& p.response_collector.current_osl == 0
    &&& p.response_collector.observations@.len() == 0
    &&& p.context.id@ == request_id
    &&& p.context.stop_calls == 0
}

/// The fixed not-found error pair.
pub open spec fn model_not_found_error(r: (u16, ErrorResponse)) -> bool {
    r.0 == STATUS_NOT_FOUND && r.1.error@ == "Model not found"@
}

/// Allocates the per-request resources: guard, collector and context.
fn allocate_resources(model: &String, endpoint: Endpoint, streaming: bool, request_id: String)
    -> (r: RequestResources)
    ensures
        r.client_streaming == streaming,
        r.inflight_guard.model == model,
        r.inflight_guard.endpoint == endpoint,
        r.inflight_guard.streaming == streaming,
        !r.inflight_guard.marked_ok,
        r.response_collector.model == model,
        r.response_collector.current_osl == 0,
        r.response_collector.observations@.len() == 0,
        r.context.id == request_id,
        r.context.stop_calls == 0,
{
    RequestResources {
        client_streaming: streaming,
        inflight_guard: InflightGuard::create(model.clone(), endpoint, streaming),
        response_collector: ResponseMetricCollector::create(model.clone()),
        context: RequestContext::with_id(request_id),
    }
}

/// Prepares a completion request: captures the client's streaming
/// preference, rewrites the outbound request to always stream, looks the
/// model up (a miss answers not-found without invoking any engine), and
/// allocates the inflight guard, the collector and the tagged context.
pub fn completions_prepare(state: &State, request: CompletionRequest, request_id: String) -> (r:
    Result<PreparedCompletion, (u16, ErrorResponse)>)
    ensures
        match r {
            Ok(p) => state.registry.completions.deep_view().contains(request.model@)
                && p.request.model@ == request.model@ && p.request.stream == Some(true)
                && resources_ok(
                p.resources,
                request.model@,
                request.stream,
                Endpoint::Completions,
                request_id@,
            ),
            Err(e) => !state.registry.completions.deep_view().contains(request.model@)
                && model_not_found_error(e),
        },
{
    let streaming = match request.stream {
        Some(b) => b,
        None => false,
    };
    let request = CompletionRequest { stream: Some(true), ..request };
    if !state.registry.has_completions_model(&request.model) {
        return Err(ErrorResponse::model_not_found());
    }
    let resources = allocate_resources(
        &request.model,
        Endpoint::Completions,
        streaming,
        request_id,
    );
    Ok(PreparedCompletion { request, resources })
}

/// Prepares a chat completion request: applies the configured template,
/// then proceeds as for completions against the chat registry.
pub fn chat_completions_prepare(
    state: &State,
    request: ChatCompletionRequest,
    template: &Option<RequestTemplate>,
    request_id: String,
) -> (r: Result<PreparedChat, (u16, ErrorResponse)>)
    ensures
        ({
            let templated = match template {
                Some(t) => spec_apply_template(request, *t),
                None => request,
            };
            match r {
                Ok(p) => state.registry.chat_completions.deep_view().contains(templated.model@)
                    && p.request.model@ == templated.model@ && p.request.stream == Some(true)
                    && p.request.temperature == templated.temperature
                    && p.request.max_completion_tokens == templated.max_completion_tokens
                    && resources_ok(
                    p.resources,
                    templated.model@,
                    templated.stream,
                    Endpoint::ChatCompletions,
                    request_id@,
                ),
                Err(e) => !state.registry.chat_completions.deep_view().contains(templated.model@)
                    && model_not_found_error(e),
            }
        }),
{
    let request = apply_template(request, template);
    let streaming = match request.stream {
        Some(b) => b,
        None => false,
    };
    let request = ChatCompletionRequest { stream: Some(true), ..request };
    if !state.registry.has_chat_completions_model(&request.model) {
        return Err(ErrorResponse::model_not_found());
    }
    let resources = allocate_resources(
        &request.model,
        Endpoint::ChatCompletions,
        streaming,
        request_id,
    );
    Ok(PreparedChat { request, resources })
}

/// Prepares an embedding request: embeddings are answered as one JSON body,
/// so the client streaming preference is fixed to off.
pub fn embeddings_prepare(state: &State, request: EmbeddingRequest, request_id: String) -> (r:
    Result<PreparedEmbedding, (u16, ErrorResponse)>)
    ensures
        match r {
            Ok(p) => state.registry.embeddings.deep_view().contains(request.model@)
                && p.request.model@ == request.model@ && resources_ok(
                p.resources,
                request.model@,
                Some(false),
                Endpoint::Embeddings,
                request_id@,
            ),
            Err(e) => !state.registry.embeddings.deep_view().contains(request.model@)
                && model_not_found_error(e),
        },
{
    if !state.registry.has_embeddings_model(&request.model) {
        return Err(ErrorResponse::model_not_found());
    }
    let resources = allocate_resources(
        &request.model,
        Endpoint::Embeddings,
        false,
        request_id,
    );
    Ok(PreparedEmbedding { request, resources })
}

/// The events a streaming client receives: the engine items converted in
/// order, bridged by the monitor for a consumer that accepts `accepts`
/// sends.
pub open spec fn spec_streamed_events(
    items: Seq<AnnotatedView>,
    c0: crate::metrics::CollectorView,
    accepts: int,
) -> Seq<SseEventView> {
    spec_monitor_forwarded(spec_convert_seq(items, c0).0, accepts)
}

/// What a handler answers once the engine call came back, given a consumer
/// that accepts `accepts` sends.
pub open spec fn respond_spec(
    resources: RequestResources,
    engine_result: Result<Seq<AnnotatedView>, EngineError>,
    accepts: int,
    keep_alive: Option<u64>,
    generate_label: Seq<char>,
    fold_result: Result<Seq<char>, Seq<char>>,
    r: Result<HandlerOutcome, (u16, ErrorResponse)>,
) -> bool {
    match engine_result {
        Err(e) => r matches Err(err) && (match e {
            EngineError::Http(h) => (if relayable_code(h.code) {
                err.0 == h.code
            } else {
                err.0 == STATUS_INTERNAL_SERVER_ERROR
            }) && err.1.error@ == h.message@,
            EngineError::Other(m) => err.0 == STATUS_INTERNAL_SERVER_ERROR && err.1.error@
                == wrapped_message(generate_label, m@),
        }),
        Ok(items) => if resources.client_streaming {
            r matches Ok(out) && {
                &&& out.response.status == STATUS_OK
                &&& out.response.content_type@ == "text/event-stream"@
                &&& out.response.keep_alive == keep_alive
                &&& out.response.body matches ResponseBody::Sse(events) && events.deep_view()
                    == spec_streamed_events(items, resources.response_collector@, accepts)
                &&& out.response_collector@ == spec_convert_seq(
                    items,
                    resources.response_collector@,
                ).1
                &&& out.inflight_guard.marked_ok == (resources.inflight_guard.marked_ok
                    || monitor_marks_ok(
                    spec_convert_seq(items, resources.response_collector@).0,
                    accepts,
                ))
                &&& out.inflight_guard.model == resources.inflight_guard.model
                &&& out.inflight_guard.endpoint == resources.inflight_guard.endpoint
                &&& out.inflight_guard.streaming == resources.inflight_guard.streaming
                &&& out.context.stop_calls == resources.context.stop_calls + (
                if monitor_stops_upstream(
                    spec_convert_seq(items, resources.response_collector@).0,
                    accepts,
                ) {
                    1int
                } else {
                    0int
                })
                &&& out.context.id == resources.context.id
            }
        } else {
            match fold_result {
                Ok(text) => r matches Ok(out) && {
                    &&& out.response.status == STATUS_OK
                    &&& out.response.content_type@ == "application/json"@
                    &&& out.response.keep_alive is None
                    &&& out.response.body matches ResponseBody::Json(body) && body@ == text
                    &&& out.inflight_guard.marked_ok
                    &&& out.inflight_guard.model == resources.inflight_guard.model
                    &&& out.inflight_guard.endpoint == resources.inflight_guard.endpoint
                    &&& out.inflight_guard.streaming == resources.inflight_guard.streaming
                    &&& out.context == resources.context
                    &&& out.response_collector == resources.response_collector
                },
                Err(_) => r matches Err(err) && err.0 == STATUS_INTERNAL_SERVER_ERROR,
            }
        },
    }
}

/// Cancellation and success accounting of one streaming request: starting
/// from fresh resources, upstream is cancelled exactly once if and only if
/// the consumer dropped while events remained, and the request counts as a
/// success exactly when the stream ended cleanly and the consumer accepted
/// the sentinel; a dropped consumer never counts as a success.
pub proof fn lemma_streaming_accounting(
    resources: RequestResources,
    items: Seq<AnnotatedView>,
    accepts: int,
    keep_alive: Option<u64>,
    generate_label: Seq<char>,
    fold_result: Result<Seq<char>, Seq<char>>,
    r: Result<HandlerOutcome, (u16, ErrorResponse)>,
)
    requires
        resources.client_streaming,
        resources.context.stop_calls == 0,
        !resources.inflight_guard.marked_ok,
        respond_spec(resources, Ok(items), accepts, keep_alive, generate_label, fold_result, r),
    ensures
        r matches Ok(out) && ({
            let conv = spec_convert_seq(items, resources.response_collector@).0;
            &&& out.context.stop_calls == (if monitor_stops_upstream(conv, accepts) {
                1int
            } else {
                0int
            })
            &&& out.inflight_guard.marked_ok <==> monitor_marks_ok(conv, accepts)
            &&& monitor_stops_upstream(conv, accepts) ==> !out.inflight_guard.marked_ok
        }),
{
    let conv = spec_convert_seq(items, resources.response_collector@).0;
    crate::monitor::lemma_monitor_outcomes_exclusive(conv, accepts);
}

/// The shapes of the items an engine invocation produced, or its failure.
pub open spec fn engine_result_view(engine_result: Result<Vec<Annotated>, EngineError>) -> Result<
    Seq<AnnotatedView>,
    EngineError,
> {
    match engine_result {
        Ok(its) => Ok(its.deep_view()),
        Err(e) => Err(e),
    }
}

/// The fold of the items an engine invocation produced; a failed invocation
/// folds to nothing.
pub open spec fn engine_result_fold(engine_result: Result<Vec<Annotated>, EngineError>) -> Result<
    Seq<char>,
    Seq<char>,
> {
    match engine_result {
        Ok(its) => spec_fold(its.deep_view()),
        Err(_) => Ok(Seq::empty()),
    }
}

/// Pipes the engine items through the converter and the disconnect monitor
/// into an SSE response, releasing the resources into the outcome.
fn stream_response(state: &State, resources: RequestResources, items: Vec<Annotated>, accepts: usize)
    -> (r: HandlerOutcome)
    requires
        resources.context.stop_calls < u64::MAX,
    ensures
        resources.client_streaming ==> respond_spec(
            resources,
            Ok(items.deep_view()),
            accepts as int,
            state.sse_keep_alive,
            Seq::empty(),
            Ok(Seq::empty()),
            Ok(r),
        ),
{
    let ghost idv = items.deep_view();
    let mut response_collector = resources.response_collector;
    let ghost c0 = response_collector@;
    let converted = convert_stream(items, &mut response_collector);
    proof {
        let (ss, _sc) = spec_convert_seq(idv, c0);
        lemma_results_view_of_match(converted@, ss);
        crate::convert::lemma_convert_seq_len(idv, c0);
    }
    let mut context = resources.context;
    let outcome = monitor_for_disconnects(converted, accepts, &mut context, resources.inflight_guard);
    HandlerOutcome {
        response: HttpResponse {
            status: STATUS_OK,
            content_type: String::from_str("text/event-stream"),
            body: ResponseBody::Sse(outcome.forwarded),
            keep_alive: state.sse_keep_alive,
        },
        inflight_guard: outcome.inflight_guard,
        context,
        response_collector,
    }
}

/// Folds the engine items into one JSON response, marking the guard
/// successful; the caller maps a fold failure to its endpoint's message.
fn fold_response(resources: RequestResources, items: &Vec<Annotated>) -> (r: Result<
    HandlerOutcome,
    String,
>)
    ensures
        match (r, spec_fold(items.deep_view())) {
            (Ok(out), Ok(text)) => {
                &&& out.response.status == STATUS_OK
                &&& out.response.content_type@ == "application/json"@
                &&& out.response.keep_alive is None
                &&& out.response.body matches ResponseBody::Json(body) && body@ == text
                &&& out.inflight_guard.marked_ok
                &&& out.inflight_guard.model == resources.inflight_guard.model
                &&& out.inflight_guard.endpoint == resources.inflight_guard.endpoint
                &&& out.inflight_guard.streaming == resources.inflight_guard.streaming
                &&& out.context == resources.context
                &&& out.response_collector == resources.response_collector
            },
            (Err(msg), Err(sm)) => msg@ == sm,
            _ => false,
        },
{
    let folded = match from_annotated_stream(items) {
        Ok(text) => text,
        Err(msg) => {
            return Err(msg);
        },
    };
    let mut inflight_guard = resources.inflight_guard;
    inflight_guard.mark_ok();
    Ok(
        HandlerOutcome {
            response: HttpResponse {
                status: STATUS_OK,
                content_type: String::from_str("application/json"),
                body: ResponseBody::Json(folded),
                keep_alive: None,
            },
            inflight_guard,
            context: resources.context,
            response_collector: resources.response_collector,
        },
    )
}

/// Finishes a completion request once the engine call came back: an engine
/// failure goes through the error policy under the label `Failed to
/// generate completions`; a streaming client gets the converted, monitored
/// SSE stream; a non-streaming client gets the folded JSON body, a fold
/// failure the fixed internal error.
pub fn completions_respond(
    state: &State,
    prepared: PreparedCompletion,
    engine_result: Result<Vec<Annotated>, EngineError>,
    accepts: usize,
) -> (r: Result<HandlerOutcome, (u16, ErrorResponse)>)
    requires
        prepared.resources.context.stop_calls < u64::MAX,
    ensures
        respond_spec(
            prepared.resources,
            engine_result_view(engine_result),
            accepts as int,
            state.sse_keep_alive,
            "Failed to generate completions"@,
            engine_result_fold(engine_result),
            r,
        ),
        (engine_result is Ok && !prepared.resources.client_streaming && engine_result_fold(
            engine_result,
        ) is Err) ==> (r matches Err(err) && err.1.error@
            == "Failed to fold completions stream"@),
{
    let items = match engine_result {
        Ok(items) => items,
        Err(e) => {
            return Err(ErrorResponse::from_anyhow(e, "Failed to generate completions"));
        },
    };
    if prepared.resources.client_streaming {
        Ok(stream_response(state, prepared.resources, items, accepts))
    } else {
        match fold_response(prepared.resources, &items) {
            Ok(out) => Ok(out),
            Err(_) => Err(ErrorResponse::internal_server_error("Failed to fold completions stream")),
        }
    }
}

/// Finishes a chat completion request: as for completions, except that a
/// fold failure answers its own fixed internal error; the underlying
/// message stays internal.
pub fn chat_completions_respond(
    state: &State,
    prepared: PreparedChat,
    engine_result: Result<Vec<Annotated>, EngineError>,
    accepts: usize,
) -> (r: Result<HandlerOutcome, (u16, ErrorResponse)>)
    requires
        prepared.resources.context.stop_calls < u64::MAX,
    ensures
        respond_spec(
            prepared.resources,
            engine_result_view(engine_result),
            accepts as int,
            state.sse_keep_alive,
            "Failed to generate completions"@,
            engine_result_fold(engine_result),
            r,
        ),
        (engine_result is Ok && !prepared.resources.client_streaming && engine_result_fold(
            engine_result,
        ) is Err) ==> (r matches Err(err) && err.1.error@
            == "Failed to fold chat completions stream"@),
{
    let items = match engine_result {
        Ok(items) => items,
        Err(e) => {
            return Err(ErrorResponse::from_anyhow(e, "Failed to generate completions"));
        },
    };
    if prepared.resources.client_streaming {
        Ok(stream_response(state, prepared.resources, items, accepts))
    } else {
        match fold_response(prepared.resources, &items) {
            Ok(out) => Ok(out),
            Err(_) => Err(
                ErrorResponse::internal_server_error("Failed to fold chat completions stream"),
            ),
        }
    }
}

/// Finishes an embedding request: the annotated stream is always folded
/// into one JSON body; an engine failure goes through the error policy
/// under the label `Failed to generate embeddings`, a fold failure answers
/// the fixed internal error.
pub fn embeddings_respond(
    prepared: PreparedEmbedding,
    engine_result: Result<Vec<Annotated>, EngineError>,
) -> (r: Result<HandlerOutcome, (u16, ErrorResponse)>)
    ensures
        !prepared.resources.client_streaming ==> respond_spec(
            prepared.resources,
            engine_result_view(engine_result),
            0,
            None,
            "Failed to generate embeddings"@,
            engine_result_fold(engine_result),
            r,
        ),
        (engine_result is Ok && !prepared.resources.client_streaming && engine_result_fold(
            engine_result,
        ) is Err) ==> (r matches Err(err) && err.1.error@ == "Failed to fold embeddings stream"@),
{
    let items = match engine_result {
        Ok(items) => items,
        Err(e) => {
            return Err(ErrorResponse::from_anyhow(e, "Failed to generate embeddings"));
        },
    };
    if prepared.resources.client_streaming {
        // Embeddings are prepared non-streaming; nothing is owed here.
        return Err(ErrorResponse::internal_server_error("Failed to fold embeddings stream"));
    }
    match fold_response(prepared.resources, &items) {
        Ok(out) => Ok(out),
        Err(_) => Err(ErrorResponse::internal_server_error("Failed to fold embeddings stream")),
    }
}

} // verus!
