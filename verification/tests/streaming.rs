use llm_gateway::context::{new_request_id, RequestContext};
use llm_gateway::convert::process_event_converter;
use llm_gateway::error::{EngineError, HttpError};
use llm_gateway::handlers::{
    apply_template, chat_completions_prepare, chat_completions_respond, check_ready,
    completions_prepare, completions_respond, embeddings_prepare, embeddings_respond,
    ChatCompletionRequest, CompletionRequest, EmbeddingRequest, ModelRegistry, RequestTemplate,
    ResponseBody, State,
};
use llm_gateway::metrics::{InflightGuard, ResponseMetricCollector, Endpoint};
use llm_gateway::models::list_models_openai;
use llm_gateway::monitor::monitor_for_disconnects;
use llm_gateway::protocols::{Annotated, EventConverter};
use llm_gateway::sse::{frame_all, SseEvent};

fn test_state() -> State {
    State {
        registry: ModelRegistry {
            completions: vec!["foo".to_string()],
            chat_completions: vec!["foo".to_string()],
            embeddings: vec!["foo".to_string()],
        },
        sse_keep_alive: None,
    }
}

fn data_item(text: &str) -> Annotated {
    Annotated {
        data: Some(text.to_string()),
        id: None,
        event: None,
        comment: None,
    }
}

fn error_item(comment: &str) -> Annotated {
    Annotated {
        data: None,
        id: None,
        event: Some("error".to_string()),
        comment: Some(vec![comment.to_string()]),
    }
}

fn completion_request(stream: Option<bool>) -> CompletionRequest {
    CompletionRequest {
        model: "foo".to_string(),
        stream,
    }
}

#[test]
fn test_happy_streaming_wire() {
    let state = test_state();
    let prepared = completions_prepare(&state, completion_request(Some(true)), new_request_id())
        .unwrap();
    let items = vec![data_item("hi"), data_item(" there")];
    let outcome = completions_respond(&state, prepared, Ok(items), 100).unwrap();
    assert_eq!(outcome.response.status, 200);
    assert_eq!(outcome.response.content_type, "text/event-stream");
    assert!(outcome.inflight_guard.marked_ok);
    assert_eq!(outcome.context.stop_calls, 0);
    match outcome.response.body {
        ResponseBody::Sse(events) => {
            let wire = frame_all(&events);
            assert_eq!(
                wire,
                "data: \"hi\"\n\ndata: \" there\"\n\ndata: [DONE]\n\n"
            );
        }
        ResponseBody::Json(_) => panic!("expected an SSE body"),
    }
}

#[test]
fn test_client_side_fold() {
    let state = test_state();
    let prepared = completions_prepare(&state, completion_request(Some(false)), new_request_id())
        .unwrap();
    let items = vec![data_item("hi"), data_item(" there")];
    let outcome = completions_respond(&state, prepared, Ok(items), 100).unwrap();
    assert_eq!(outcome.response.status, 200);
    assert_eq!(outcome.response.content_type, "application/json");
    assert!(outcome.inflight_guard.marked_ok);
    match outcome.response.body {
        ResponseBody::Json(body) => assert_eq!(body, "hi there"),
        ResponseBody::Sse(_) => panic!("expected a JSON body"),
    }
}

#[test]
fn test_mid_stream_error() {
    let state = test_state();
    let prepared = completions_prepare(&state, completion_request(Some(true)), new_request_id())
        .unwrap();
    let items = vec![data_item("hi"), error_item("boom")];
    let outcome = completions_respond(&state, prepared, Ok(items), 100).unwrap();
    assert!(!outcome.inflight_guard.marked_ok);
    match outcome.response.body {
        ResponseBody::Sse(events) => {
            let wire = frame_all(&events);
            assert_eq!(wire, "data: \"hi\"\n\nevent: error\n: boom\n\n");
        }
        ResponseBody::Json(_) => panic!("expected an SSE body"),
    }
}

#[test]
fn test_disconnect_cancels_once() {
    let state = test_state();
    let prepared = completions_prepare(&state, completion_request(Some(true)), new_request_id())
        .unwrap();
    let items = vec![data_item("hi"), data_item(" there")];
    let outcome = completions_respond(&state, prepared, Ok(items), 1).unwrap();
    assert_eq!(outcome.context.stop_calls, 1);
    assert!(!outcome.inflight_guard.marked_ok);
    match outcome.response.body {
        ResponseBody::Sse(events) => {
            assert_eq!(events.len(), 1);
            let wire = frame_all(&events);
            assert_eq!(wire, "data: \"hi\"\n\n");
        }
        ResponseBody::Json(_) => panic!("expected an SSE body"),
    }
}

#[test]
fn test_unknown_model_is_not_found() {
    let state = test_state();
    let request = CompletionRequest {
        model: "missing".to_string(),
        stream: Some(true),
    };
    let err = completions_prepare(&state, request, new_request_id()).unwrap_err();
    assert_eq!(err.0, 404);
    assert_eq!(err.1.error, "Model not found");
}

#[test]
fn test_engine_http_error_passes_through_handler() {
    let state = test_state();
    let prepared = completions_prepare(&state, completion_request(Some(false)), new_request_id())
        .unwrap();
    let engine_failure = EngineError::Http(HttpError {
        code: 418,
        message: "teapot".to_string(),
    });
    let err = completions_respond(&state, prepared, Err(engine_failure), 100).unwrap_err();
    assert_eq!(err.0, 418);
    assert_eq!(err.1.error, "teapot");
}

#[test]
fn test_forced_streaming_toward_engine() {
    let state = test_state();
    let prepared = completions_prepare(&state, completion_request(Some(false)), new_request_id())
        .unwrap();
    assert_eq!(prepared.request.stream, Some(true));
    assert!(!prepared.resources.client_streaming);
    assert!(!prepared.resources.inflight_guard.marked_ok);
    assert_eq!(prepared.resources.inflight_guard.model, "foo");
    assert!(matches!(
        prepared.resources.inflight_guard.endpoint,
        Endpoint::Completions
    ));

    let prepared = completions_prepare(&state, completion_request(None), new_request_id())
        .unwrap();
    assert_eq!(prepared.request.stream, Some(true));
    assert!(!prepared.resources.client_streaming);
}

#[test]
fn test_fold_failure_is_internal_error() {
    let state = test_state();
    let prepared = completions_prepare(&state, completion_request(Some(false)), new_request_id())
        .unwrap();
    let items = vec![data_item("hi"), error_item("boom")];
    let err = completions_respond(&state, prepared, Ok(items), 100).unwrap_err();
    assert_eq!(err.0, 500);
    assert_eq!(err.1.error, "Failed to fold completions stream");

    let prepared = chat_completions_prepare(
        &state,
        ChatCompletionRequest {
            model: "foo".to_string(),
            stream: Some(false),
            temperature: None,
            max_completion_tokens: None,
        },
        &None,
        new_request_id(),
    )
    .unwrap();
    let items = vec![error_item("boom")];
    let err = chat_completions_respond(&state, prepared, Ok(items), 100).unwrap_err();
    assert_eq!(err.0, 500);
    assert_eq!(err.1.error, "Failed to fold chat completions stream");
}

#[test]
fn test_metric_annotation_stripped_and_observed() {
    let mut collector = ResponseMetricCollector::create("foo".to_string());
    let item = Annotated {
        data: Some("hi".to_string()),
        id: None,
        event: Some("llm_metrics".to_string()),
        comment: Some(vec![
            "{\"input_tokens\":5,\"output_tokens\":7,\"chunk_tokens\":2}".to_string(),
        ]),
    };
    let event = process_event_converter(EventConverter(item), &mut collector).unwrap();
    assert!(event.event.is_none());
    assert!(event.comments.is_empty());
    assert_eq!(event.data.as_deref(), Some("\"hi\""));
    assert_eq!(collector.current_osl, 7);
    assert_eq!(collector.observations.len(), 1);
    assert_eq!(collector.observations[0].input_tokens, 5);
    assert_eq!(collector.observations[0].chunk_tokens, 2);
    let wire = event.frame();
    assert!(!wire.contains("llm_metrics"));
}

#[test]
fn test_template_application() {
    let template = Some(RequestTemplate {
        model: "default-model".to_string(),
        temperature: 700,
        max_completion_tokens: 4096,
    });
    let req = ChatCompletionRequest {
        model: "".to_string(),
        stream: Some(true),
        temperature: Some(0),
        max_completion_tokens: None,
    };
    let out = apply_template(req, &template);
    assert_eq!(out.model, "default-model");
    assert_eq!(out.temperature, Some(700));
    assert_eq!(out.max_completion_tokens, Some(4096));
    assert_eq!(out.stream, Some(true));

    let req = ChatCompletionRequest {
        model: "mine".to_string(),
        stream: None,
        temperature: Some(300),
        max_completion_tokens: Some(16),
    };
    let out = apply_template(req, &template);
    assert_eq!(out.model, "mine");
    assert_eq!(out.temperature, Some(300));
    assert_eq!(out.max_completion_tokens, Some(16));

    let req = ChatCompletionRequest {
        model: "mine".to_string(),
        stream: None,
        temperature: Some(300),
        max_completion_tokens: Some(16),
    };
    let out = apply_template(req, &None);
    assert_eq!(out.model, "mine");
    assert_eq!(out.temperature, Some(300));
}

#[test]
fn test_model_listing_dedup() {
    let names = vec!["A".to_string(), "A".to_string(), "B".to_string()];
    let listing = list_models_openai(&names, 1686935002);
    assert_eq!(listing.object, "list");
    assert_eq!(listing.data.len(), 2);
    assert_eq!(listing.data[0].id, "A");
    assert_eq!(listing.data[1].id, "B");
    assert_eq!(listing.data[0].object, "object");
    assert_eq!(listing.data[0].created, 1686935002);
    assert_eq!(listing.data[0].owned_by, "nvidia");
}

#[test]
fn test_monitor_rejected_done_leaves_guard_unmarked() {
    // The consumer accepts exactly the payload events; the sentinel is
    // refused, so the request does not count as a success, and no
    // cancellation is relayed: the stream had already ended.
    let items: Vec<Result<SseEvent, String>> = vec![Ok(SseEvent {
        data: Some("\"hi\"".to_string()),
        event: None,
        comments: Vec::new(),
    })];
    let mut context = RequestContext::with_id("r".to_string());
    let guard = InflightGuard::create("foo".to_string(), Endpoint::Completions, true);
    let outcome = monitor_for_disconnects(items, 1, &mut context, guard);
    assert!(!outcome.inflight_guard.marked_ok);
    assert_eq!(context.stop_calls, 0);
    assert_eq!(outcome.forwarded.len(), 1);
}

#[test]
fn test_embeddings_always_fold() {
    let state = test_state();
    let prepared = embeddings_prepare(
        &state,
        EmbeddingRequest {
            model: "foo".to_string(),
        },
        new_request_id(),
    )
    .unwrap();
    assert!(!prepared.resources.client_streaming);
    let items = vec![data_item("e1"), data_item("e2")];
    let outcome = embeddings_respond(prepared, Ok(items)).unwrap();
    assert_eq!(outcome.response.status, 200);
    assert_eq!(outcome.response.content_type, "application/json");
    assert!(outcome.inflight_guard.marked_ok);

    let prepared = embeddings_prepare(
        &state,
        EmbeddingRequest {
            model: "foo".to_string(),
        },
        new_request_id(),
    )
    .unwrap();
    let err = embeddings_respond(
        prepared,
        Err(EngineError::Other("backend down".to_string())),
    )
    .unwrap_err();
    assert_eq!(err.0, 500);
    assert_eq!(err.1.error, "Failed to generate embeddings: backend down");
}

#[test]
fn test_check_ready_passes() {
    let state = test_state();
    assert!(check_ready(&state).is_ok());
}

#[test]
fn test_request_id_shape() {
    let id = new_request_id();
    assert_eq!(id.chars().count(), 36);
    let other = new_request_id();
    assert_eq!(other.chars().count(), 36);
}
