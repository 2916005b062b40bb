//! Tests for the dispatcher: the method table, error codes, payload
//! shapes, and the retry classifier.

use daedra::retry::{
    backoff_next, classify_fetch_attempt, classify_search_attempt, AttemptOutcome, AttemptStep,
    BackoffPolicy, BackoffState, BackoffStep, MAX_CONTENT_SIZE,
};
use daedra::server::{
    parse_error_response, DaedraHandler, JsonRpcRequest, JsonRpcResponse, RpcOutcome, RpcParams,
    RpcPayload, ServerConfig, ToolArgs, TransportType,
};
use daedra::types::{DaedraError, SearchArgs, VisitPageArgs};

fn handler() -> DaedraHandler {
    DaedraHandler::new(ServerConfig::default()).unwrap()
}

fn request(method: &str, params: Option<RpcParams>) -> JsonRpcRequest {
    JsonRpcRequest {
        jsonrpc: "2.0".to_string(),
        id: Some(daedra::server::RpcId::Num(1)),
        method: method.to_string(),
        params,
    }
}

fn respond(outcome: RpcOutcome) -> JsonRpcResponse {
    match outcome {
        RpcOutcome::Respond(r) => r,
        _ => panic!("expected an immediate response"),
    }
}

#[test]
fn test_server_config_default() {
    let config = ServerConfig::default();
    assert!(!config.verbose);
    assert_eq!(config.max_concurrent_tools, 10);
}

#[test]
fn test_transport_type_default() {
    assert_eq!(TransportType::default(), TransportType::Stdio);
}

#[test]
fn test_handler_creation() {
    let config = ServerConfig::default();
    let handler = DaedraHandler::new(config);
    assert!(handler.is_ok());
}

#[test]
fn test_list_tools() {
    let handler = handler();
    let tools = handler.list_tools();

    assert_eq!(tools.len(), 2);
    assert!(tools.iter().any(|t| t.name == "search_duckduckgo"));
    assert!(tools.iter().any(|t| t.name == "visit_page"));
}

#[test]
fn test_json_rpc_response_success() {
    let response = JsonRpcResponse::success(Some(daedra::server::RpcId::Num(1)), RpcPayload::Empty);
    assert_eq!(response.jsonrpc, "2.0");
    assert!(response.result.is_some());
    assert!(response.error.is_none());
}

#[test]
fn test_json_rpc_response_error() {
    let response = JsonRpcResponse::error(
        Some(daedra::server::RpcId::Num(1)),
        -32600,
        "Invalid request".to_string(),
    );
    assert_eq!(response.jsonrpc, "2.0");
    assert!(response.result.is_none());
    let err = response.error.unwrap();
    assert_eq!(err.code, -32600);
    assert_eq!(err.message, "Invalid request");
}

#[test]
fn test_handle_ping() {
    let mut handler = handler();
    let response = respond(handler.handle_request(request("ping", None)));
    assert!(response.result.is_some());
    assert!(response.error.is_none());
}

#[test]
fn test_handle_initialize() {
    let mut handler = handler();
    let response = respond(handler.handle_request(request("initialize", None)));
    assert!(response.error.is_none());
    match response.result {
        Some(RpcPayload::ServerInfo(info)) => {
            assert_eq!(info.protocol_version, "2024-11-05");
            assert_eq!(info.name, "daedra");
        }
        other => panic!("expected server info, got {:?}", other),
    }
}

#[test]
fn test_handle_initialized_ack() {
    let mut handler = handler();
    let response = respond(handler.handle_request(request("initialized", None)));
    assert!(response.error.is_none());
    let response = respond(handler.handle_request(request("notifications/initialized", None)));
    assert!(response.error.is_none());
}

#[test]
fn test_handle_tools_list() {
    let mut handler = handler();
    let response = respond(handler.handle_request(request("tools/list", None)));
    match response.result {
        Some(RpcPayload::Tools(tools)) => assert_eq!(tools.len(), 2),
        other => panic!("expected a tool listing, got {:?}", other),
    }
}

#[test]
fn test_handle_unknown_method() {
    let mut handler = handler();
    let response = respond(handler.handle_request(request("unknown/method", None)));
    let err = response.error.unwrap();
    assert_eq!(err.code, -32601);
    assert_eq!(err.message, "Method not found: unknown/method");
}

#[test]
fn test_missing_params_for_tools_call() {
    let mut handler = handler();
    let response = respond(handler.handle_request(request("tools/call", None)));
    let err = response.error.unwrap();
    assert_eq!(err.code, -32602);
    assert_eq!(err.message, "Missing parameters");
}

#[test]
fn test_invalid_tool_name() {
    let mut handler = handler();
    let params = RpcParams::ToolCall {
        name: "nonexistent_tool".to_string(),
        arguments: ToolArgs::Invalid(String::new()),
    };
    let response = respond(handler.handle_request(request("tools/call", Some(params))));
    let err = response.error.unwrap();
    assert_eq!(err.code, -32601);
    assert_eq!(err.message, "Unknown tool: nonexistent_tool");
}

#[test]
fn test_malformed_json_returns_parse_error() {
    let response = parse_error_response("expected value at line 1 column 1");
    let err = response.error.unwrap();
    assert_eq!(err.code, -32700);
    assert!(err.message.starts_with("Parse error: "));
}

#[test]
fn test_invalid_url_for_visit_page() {
    let mut handler = handler();
    let params = RpcParams::ToolCall {
        name: "visit_page".to_string(),
        arguments: ToolArgs::Visit(VisitPageArgs {
            url: "not-a-valid-url".to_string(),
            selector: None,
            include_images: false,
        }),
    };
    let response = respond(handler.handle_request(request("tools/call", Some(params))));
    assert!(response.error.is_none());
    match response.result {
        Some(RpcPayload::ToolError(m)) => {
            assert_eq!(m, "Invalid URL: must be HTTP or HTTPS");
        }
        other => panic!("expected a tool-level error, got {:?}", other),
    }
}

#[test]
fn test_search_call_misses_cache() {
    let mut handler = handler();
    let params = RpcParams::ToolCall {
        name: "search_duckduckgo".to_string(),
        arguments: ToolArgs::Search(SearchArgs { query: "rust".to_string(), options: None }),
    };
    match handler.handle_request(request("tools/call", Some(params))) {
        RpcOutcome::PerformSearch { args, .. } => assert_eq!(args.query, "rust"),
        _ => panic!("expected the search pipeline to be asked for"),
    }
}

#[test]
fn test_finish_search_caches_and_answers() {
    let mut handler = handler();
    let args = SearchArgs { query: "rust".to_string(), options: None };
    let response = daedra::types::SearchResponse::new(
        "rust".to_string(),
        Vec::new(),
        &daedra::types::SearchOptions::default(),
    );
    let out = handler.finish_search(None, &args, Ok(response));
    assert!(out.error.is_none());
    assert!(matches!(out.result, Some(RpcPayload::SearchOutcome(_))));

    // the next identical call answers from the cache
    let params = RpcParams::ToolCall {
        name: "search_duckduckgo".to_string(),
        arguments: ToolArgs::Search(SearchArgs { query: "rust".to_string(), options: None }),
    };
    match handler.handle_request(request("tools/call", Some(params))) {
        RpcOutcome::Respond(resp) => {
            assert!(matches!(resp.result, Some(RpcPayload::SearchOutcome(_))));
        }
        _ => panic!("expected a cache hit"),
    }
}

#[test]
fn test_finish_search_failure_is_tool_error() {
    let mut handler = handler();
    let args = SearchArgs { query: "rust".to_string(), options: None };
    let out = handler.finish_search(None, &args, Err(DaedraError::RateLimitExceeded));
    assert!(out.error.is_none());
    match out.result {
        Some(RpcPayload::ToolError(m)) => {
            assert_eq!(m, "Search failed: Rate limit exceeded, please try again later");
        }
        other => panic!("expected a tool-level error, got {:?}", other),
    }
}

#[test]
fn test_classify_search_attempt() {
    assert!(matches!(
        classify_search_attempt(AttemptOutcome::StatusReceived { status: 200, content_length: None }),
        AttemptStep::ReadBody
    ));
    assert!(matches!(
        classify_search_attempt(AttemptOutcome::StatusReceived { status: 429, content_length: None }),
        AttemptStep::Retry(DaedraError::RateLimitExceeded)
    ));
    match classify_search_attempt(AttemptOutcome::StatusReceived { status: 500, content_length: None }) {
        AttemptStep::Fail(DaedraError::SearchError(m)) => assert_eq!(m, "HTTP 500"),
        other => panic!("expected a permanent search failure, got {:?}", other),
    }
    assert!(matches!(
        classify_search_attempt(AttemptOutcome::StatusReceived { status: 403, content_length: None }),
        AttemptStep::Fail(DaedraError::BotProtectionDetected)
    ));
    assert!(matches!(
        classify_search_attempt(AttemptOutcome::TransportError("refused".to_string())),
        AttemptStep::Retry(DaedraError::HttpError(_))
    ));
    assert!(matches!(
        classify_search_attempt(AttemptOutcome::BodyOk("hi".to_string())),
        AttemptStep::Deliver(_)
    ));
}

#[test]
fn test_classify_fetch_attempt() {
    assert!(matches!(
        classify_fetch_attempt(AttemptOutcome::StatusReceived { status: 403, content_length: None }),
        AttemptStep::Fail(DaedraError::BotProtectionDetected)
    ));
    assert!(matches!(
        classify_fetch_attempt(AttemptOutcome::StatusReceived { status: 429, content_length: None }),
        AttemptStep::Retry(DaedraError::RateLimitExceeded)
    ));
    match classify_fetch_attempt(AttemptOutcome::StatusReceived {
        status: 200,
        content_length: Some(MAX_CONTENT_SIZE + 1),
    }) {
        AttemptStep::Fail(DaedraError::FetchError(m)) => assert_eq!(m, "Content too large"),
        other => panic!("expected the size ceiling to fail, got {:?}", other),
    }
    assert!(matches!(
        classify_fetch_attempt(AttemptOutcome::StatusReceived {
            status: 200,
            content_length: Some(10)
        }),
        AttemptStep::ReadBody
    ));
    match classify_fetch_attempt(AttemptOutcome::StatusReceived { status: 404, content_length: None }) {
        AttemptStep::Fail(DaedraError::FetchError(m)) => assert_eq!(m, "HTTP 404"),
        other => panic!("expected a permanent fetch failure, got {:?}", other),
    }
}

#[test]
fn test_backoff_schedule() {
    let policy = BackoffPolicy::default();
    let state = BackoffState::start(&policy);
    let (state, step) = backoff_next(&policy, state);
    assert!(matches!(step, BackoffStep::Wait(500)));
    assert_eq!(state.interval_ms, 750);
    assert_eq!(state.elapsed_ms, 500);

    let exhausted = BackoffState { interval_ms: 1000, elapsed_ms: policy.max_elapsed_ms };
    let (_, step) = backoff_next(&policy, exhausted);
    assert!(matches!(step, BackoffStep::GiveUp));
}
