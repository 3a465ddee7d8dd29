use std::collections::HashMap;

use llm_gateway::owlban::{OwlbanBanking, OwlbanData, OwlbanRevenue};
use llm_gateway::protocols::LlmMetrics;
use llm_gateway::service::{
    EndpointInfo, Metrics, ServiceClient, ServiceComponent, ServiceInfo, ServiceSet, ServiceState,
};
use llm_gateway::sse::SseEvent;
use llm_gateway::text::{json_quote, str_eq};

fn sample_metrics(value: &str) -> Metrics {
    Metrics {
        average_processing_time: 100000,
        last_error: "none".to_string(),
        num_errors: 0,
        num_requests: 10,
        processing_time: 100,
        queue_group: "group1".to_string(),
        data: format!("{{\"key\": \"{}\"}}", value),
    }
}

#[test]
fn test_service_set() {
    let services = vec![
        ServiceInfo {
            name: "service1".to_string(),
            id: "1".to_string(),
            version: "1.0".to_string(),
            started: "2021-01-01".to_string(),
            endpoints: vec![
                EndpointInfo {
                    name: "endpoint1".to_string(),
                    subject: "subject1".to_string(),
                    data: Some(sample_metrics("value1")),
                },
                EndpointInfo {
                    name: "endpoint2-foo".to_string(),
                    subject: "subject2".to_string(),
                    data: Some(sample_metrics("value1")),
                },
            ],
        },
        ServiceInfo {
            name: "service1".to_string(),
            id: "2".to_string(),
            version: "1.0".to_string(),
            started: "2021-01-01".to_string(),
            endpoints: vec![
                EndpointInfo {
                    name: "endpoint1".to_string(),
                    subject: "subject1".to_string(),
                    data: Some(sample_metrics("value1")),
                },
                EndpointInfo {
                    name: "endpoint2-bar".to_string(),
                    subject: "subject2".to_string(),
                    data: Some(sample_metrics("value2")),
                },
            ],
        },
    ];

    let service_set = ServiceSet { services };

    let endpoints: Vec<_> = service_set
        .into_endpoints()
        .into_iter()
        .filter(|e| e.name.starts_with("endpoint2"))
        .collect();

    assert_eq!(endpoints.len(), 2);
}

#[test]
fn test_endpoint_id_parses_hex_suffix() {
    let endpoint = EndpointInfo {
        name: "generate".to_string(),
        subject: "namespace.component.endpoint-694d9981145a61ab".to_string(),
        data: None,
    };
    assert_eq!(endpoint.id().unwrap(), 0x694d9981145a61ab_i64);

    let endpoint = EndpointInfo {
        name: "generate".to_string(),
        subject: "x-0F".to_string(),
        data: None,
    };
    assert_eq!(endpoint.id().unwrap(), 15);

    let endpoint = EndpointInfo {
        name: "generate".to_string(),
        subject: "x-7fffffffffffffff".to_string(),
        data: None,
    };
    assert_eq!(endpoint.id().unwrap(), i64::MAX);

    let endpoint = EndpointInfo {
        name: "generate".to_string(),
        subject: "x-+ff".to_string(),
        data: None,
    };
    assert_eq!(endpoint.id().unwrap(), 255);
}

#[test]
fn test_endpoint_id_rejects_bad_suffix() {
    for subject in [
        "subject-",
        "subject-zz",
        "no hex here",
        "x-8000000000000000",
        "x-+",
        "x-++1",
        "",
    ] {
        let endpoint = EndpointInfo {
            name: "generate".to_string(),
            subject: subject.to_string(),
            data: None,
        };
        let err = endpoint.id().unwrap_err();
        assert_eq!(err, "Invalid id format");
    }
}

#[test]
fn test_service_component_lifecycle() {
    let mut component = ServiceComponent::new("worker".to_string());
    assert_eq!(component.state, ServiceState::Live);
    assert!(!component.is_ready());
    component.mark_ready();
    assert_eq!(component.state, ServiceState::Ready);
    assert!(component.is_ready());
    assert!(!component.cancel_requested);
    component.mark_stopped();
    assert_eq!(component.state, ServiceState::Stopped);
    assert!(component.cancel_requested);
}

#[test]
fn test_collect_services_keeps_decoded_in_order() {
    let client = ServiceClient::new();
    let a = ServiceInfo {
        name: "a".to_string(),
        id: "1".to_string(),
        version: "1.0".to_string(),
        started: "2021-01-01".to_string(),
        endpoints: vec![],
    };
    let b = ServiceInfo {
        name: "b".to_string(),
        id: "2".to_string(),
        version: "1.0".to_string(),
        started: "2021-01-01".to_string(),
        endpoints: vec![],
    };
    let set = client.collect_services(vec![Some(a), None, Some(b)]);
    assert_eq!(set.services.len(), 2);
    assert_eq!(set.services[0].name, "a");
    assert_eq!(set.services[1].name, "b");
}

#[test]
fn test_owlban_data_accessors() {
    let revenue = OwlbanRevenue {
        amount: "100.00".to_string(),
        routing_number: "SECRET-REDACTED".to_string(),
        account_number: "SECRET-REDACTED".to_string(),
        bank_name: "bank".to_string(),
    };
    let mut routing_numbers = HashMap::new();
    routing_numbers.insert("bank".to_string(), "SECRET-REDACTED".to_string());
    let banking = OwlbanBanking {
        routing_numbers,
        account_numbers: HashMap::new(),
    };
    let data = OwlbanData::from_parts(Some(revenue), Some(banking));
    assert_eq!(data.get_revenue().unwrap().amount, "100.00");
    assert!(data.get_banking().is_some());

    let empty = OwlbanData::from_parts(None, None);
    assert!(empty.get_revenue().is_none());
    assert!(empty.get_banking().is_none());
}

#[test]
fn test_metric_comment_parsing() {
    let parsed =
        LlmMetrics::from_comment("{\"input_tokens\":5,\"output_tokens\":7,\"chunk_tokens\":2}")
            .unwrap();
    assert_eq!(parsed.input_tokens, 5);
    assert_eq!(parsed.output_tokens, 7);
    assert_eq!(parsed.chunk_tokens, 2);

    let parsed = LlmMetrics::from_comment(
        "{\"input_tokens\":18446744073709551615,\"output_tokens\":0,\"chunk_tokens\":1}",
    )
    .unwrap();
    assert_eq!(parsed.input_tokens, u64::MAX);

    for bad in [
        "",
        "{}",
        "{\"input_tokens\":5}",
        "{\"input_tokens\":05,\"output_tokens\":7,\"chunk_tokens\":2}",
        "{\"input_tokens\": 5,\"output_tokens\":7,\"chunk_tokens\":2}",
        "{\"input_tokens\":5,\"output_tokens\":7,\"chunk_tokens\":2} ",
        "{\"input_tokens\":18446744073709551616,\"output_tokens\":0,\"chunk_tokens\":1}",
        "{\"output_tokens\":7,\"input_tokens\":5,\"chunk_tokens\":2}",
    ] {
        assert!(LlmMetrics::from_comment(bad).is_none());
    }
}

#[test]
fn test_json_quote_escapes() {
    assert_eq!(json_quote("hi"), "\"hi\"");
    assert_eq!(json_quote(""), "\"\"");
    assert_eq!(json_quote("a\"b\\c\nd"), "\"a\\\"b\\\\c\\nd\"");
    assert_eq!(json_quote("\r\t"), "\"\\r\\t\"");
    assert_eq!(json_quote("\u{1}\u{1f}"), "\"\\u0001\\u001f\"");
    assert_eq!(json_quote("héllo"), "\"héllo\"");
}

#[test]
fn test_str_eq_compares_contents() {
    assert!(str_eq("abc", "abc"));
    assert!(!str_eq("abc", "abd"));
    assert!(!str_eq("abc", "ab"));
}

#[test]
fn test_frame_layout() {
    let event = SseEvent {
        data: Some("\"x\"".to_string()),
        event: Some("note".to_string()),
        comments: vec!["one".to_string(), "two".to_string()],
    };
    assert_eq!(event.frame(), "event: note\n: one\n: two\ndata: \"x\"\n\n");

    let empty = SseEvent {
        data: None,
        event: None,
        comments: vec![],
    };
    assert_eq!(empty.frame(), "\n");
}
