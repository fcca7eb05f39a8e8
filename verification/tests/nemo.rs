use praxis_ai::error::FilterError;
use praxis_ai::json::JsonValue;
use praxis_ai::nemo::{
    accept_outcome, blocked_rail_names, build_request, conclude, default_timeout_ms,
    ensure_success_status, extract_error_detail, frame_payload, is_awaited, map_nemo_response,
    map_url_target_error, request_with, Action, CalloutOutcome, Evaluation, Event, GuardResult, NemoConfig,
    NemoProvider, NemoResponse, Next, SubResponse, TargetFailure, MAX_RESPONSE_SIZE,
};
use praxis_ai::operation::OpenAiHttpMethod;
use praxis_ai::string_map::StringMap;

fn text(value: &str) -> JsonValue {
    JsonValue::Text(value.to_owned())
}

fn object(members: Vec<(&str, JsonValue)>) -> JsonValue {
    let mut map = StringMap::new();
    for (key, value) in members {
        map.insert(key.to_owned(), value);
    }
    JsonValue::Object(map)
}

fn rail(status: &str) -> JsonValue {
    object(vec![("status", text(status))])
}

fn response(status: &str) -> NemoResponse {
    NemoResponse {
        status: status.to_owned(),
        rails_status: None,
        guardrails_data: None,
    }
}

fn message(json: &str) -> serde_json::Value {
    serde_json::from_str(json).unwrap()
}

fn provider() -> NemoProvider<u8> {
    let config = NemoConfig {
        endpoint: "http://nemo:8000/v1/guardrail/checks".to_owned(),
        model: Some("m\"1".to_owned()),
        timeout_ms: Some(250),
    };
    NemoProvider::from_config(Ok(config), Ok(()), 7).unwrap()
}

#[test]
fn blocked_rail_names_sorts_alphabetically() {
    let rails = object(vec![
        ("toxicity", rail("blocked")),
        ("jailbreak", rail("blocked")),
        ("pii masking", rail("blocked")),
    ]);
    assert_eq!(blocked_rail_names(Some(&rails)), "jailbreak, pii masking, toxicity");
}

#[test]
fn blocked_rail_names_filters_out_non_blocked_rails() {
    let rails = object(vec![("toxicity", rail("blocked")), ("jailbreak", rail("success"))]);
    assert_eq!(
        blocked_rail_names(Some(&rails)),
        "toxicity",
        "only rails with status 'blocked' should be included in the reason string"
    );
}

#[test]
fn blocked_rail_names_empty_rails_status_returns_empty_string() {
    let rails = object(vec![]);
    assert_eq!(blocked_rail_names(Some(&rails)), "");
}

#[test]
fn blocked_rail_names_absent_map_returns_empty_string() {
    assert_eq!(
        blocked_rail_names(None),
        "",
        "missing rails_status should not panic or error"
    );
}

#[test]
fn blocked_rail_names_non_object_rails_status_returns_empty_string() {
    let rails = text("not an object");
    assert_eq!(blocked_rail_names(Some(&rails)), "");
}

#[test]
fn map_nemo_response_success_returns_pass() {
    let resp = response("success");
    let result = map_nemo_response(&resp).unwrap();
    assert!(matches!(result, GuardResult::Pass));
}

#[test]
fn map_nemo_response_blocked_returns_block_with_reason() {
    let resp = NemoResponse {
        status: "blocked".to_string(),
        rails_status: Some(object(vec![("toxicity", rail("blocked"))])),
        guardrails_data: None,
    };
    let result = map_nemo_response(&resp).unwrap();
    assert!(
        matches!(result, GuardResult::Block { reason } if reason == "toxicity"),
        "blocked response should produce GuardResult::Block with rail name as reason"
    );
}

#[test]
fn map_nemo_response_error_extracts_guardrails_data() {
    let resp = NemoResponse {
        status: "error".to_string(),
        rails_status: None,
        guardrails_data: Some(object(vec![
            ("error", text("Could not load guardrails configuration.")),
            ("details", text("Invalid config path /app/config/nonexistent-config.")),
        ])),
    };
    let err_msg = map_nemo_response(&resp).unwrap_err().to_string();
    assert!(
        err_msg.contains("Could not load guardrails configuration."),
        "{err_msg}"
    );
    assert!(err_msg.contains("Invalid config path"), "{err_msg}");
}

#[test]
fn map_nemo_response_error_without_guardrails_data() {
    let resp = response("error");
    let err_msg = map_nemo_response(&resp).unwrap_err().to_string();
    assert!(err_msg.contains("no details available"), "{err_msg}");
}

#[test]
fn map_nemo_response_error_with_error_key_only() {
    let resp = NemoResponse {
        status: "error".to_string(),
        rails_status: None,
        guardrails_data: Some(object(vec![("error", text("Internal failure"))])),
    };
    let err_msg = map_nemo_response(&resp).unwrap_err().to_string();
    assert!(err_msg.contains("Internal failure"), "{err_msg}");
    assert!(
        !err_msg.contains("Internal failure ("),
        "should not append details in parens when details key is absent: {err_msg}"
    );
}

#[test]
fn map_nemo_response_error_with_missing_error_key() {
    let resp = NemoResponse {
        status: "error".to_string(),
        rails_status: None,
        guardrails_data: Some(object(vec![("unexpected", text("shape"))])),
    };
    let err_msg = map_nemo_response(&resp).unwrap_err().to_string();
    assert!(err_msg.contains("unknown error"), "{err_msg}");
}

#[test]
fn map_nemo_response_unknown_status_returns_error() {
    let resp = response("garbage");
    let err_msg = map_nemo_response(&resp).unwrap_err().to_string();
    assert!(
        err_msg.contains("unknown status 'garbage'"),
        "unknown status should produce a descriptive error: {err_msg}"
    );
}

#[test]
fn rails_with_other_shapes_do_not_count_as_blocked() {
    let rails = object(vec![
        ("a", text("blocked")),
        ("b", object(vec![("status", JsonValue::Other)])),
        ("c", object(vec![("state", text("blocked"))])),
        ("d", JsonValue::Other),
    ]);
    assert_eq!(blocked_rail_names(Some(&rails)), "");
}

#[test]
fn rail_names_are_ordered_by_code_point() {
    let mut names = vec!["b", "a", "ab", "", "B", "\u{e9}", "\u{1F600}", "z", "\u{fffd}"];
    let rails = object(names.iter().map(|name| (*name, rail("blocked"))).collect());
    names.sort_unstable();
    assert_eq!(blocked_rail_names(Some(&rails)), names.join(", "));
}

#[test]
fn error_details_are_exact() {
    let both = object(vec![("error", text("e")), ("details", text("d"))]);
    assert_eq!(extract_error_detail(Some(&both)), "e (d)");
    let details = object(vec![("error", JsonValue::Other), ("details", text("d"))]);
    assert_eq!(extract_error_detail(Some(&details)), "unknown error (d)");
    assert_eq!(extract_error_detail(Some(&JsonValue::Other)), "no details available");
    let error = map_nemo_response(&response("error")).unwrap_err();
    assert_eq!(
        error.to_string(),
        "ai_guardrails (nemo): NeMo returned error status: no details available"
    );
}

#[test]
fn configuration_faults_are_exact() {
    let config = |endpoint: &str, timeout_ms: u64| NemoConfig {
        endpoint: endpoint.to_owned(),
        model: None,
        timeout_ms: Some(timeout_ms),
    };
    let unparsed = NemoProvider::from_config(Err("missing field `endpoint`".to_owned()), Ok(()), 0);
    assert_eq!(
        unparsed.unwrap_err().to_string(),
        "ai_guardrails (nemo): missing field `endpoint`"
    );
    let rejected = || Err(FilterError::new("bad target".to_owned()));
    let empty = NemoProvider::from_config(Ok(config("", 0)), rejected(), 0);
    assert_eq!(
        empty.unwrap_err().to_string(),
        "ai_guardrails (nemo): 'endpoint' must not be empty"
    );
    let target = NemoProvider::from_config(Ok(config("ftp://x", 0)), rejected(), 0);
    assert_eq!(target.unwrap_err().to_string(), "bad target");
    let timeout = NemoProvider::from_config(Ok(config("http://x", 0)), Ok(()), 0);
    assert_eq!(
        timeout.unwrap_err().to_string(),
        "ai_guardrails (nemo): 'timeout_ms' must be greater than zero"
    );
}

#[test]
fn configured_provider_keeps_its_settings() {
    assert_eq!(provider().callout_timeout(), 250);
    assert_eq!(*provider().client(), 7);
}

#[test]
fn absent_settings_have_defaults() {
    assert_eq!(default_timeout_ms(), 10_000);
    let config = NemoConfig {
        endpoint: "http://x".to_owned(),
        model: None,
        timeout_ms: None,
    };
    let provider = NemoProvider::from_config(Ok(config), Ok(()), 0).unwrap();
    assert_eq!(provider.callout_timeout(), 10_000);
    let Next::Continue(Evaluation::AwaitingTarget { request }, _) = provider.begin(Vec::new(), false) else {
        panic!("the target must be prepared first");
    };
    assert_eq!(request.body, b"{\"model\":\"\",\"messages\":[]}".to_vec());
}

#[test]
fn every_character_of_the_model_is_escaped_as_it_must_be() {
    for code in 0_u32..0x300 {
        let Some(c) = char::from_u32(code) else { continue };
        let escaped = match code {
            0x22 => "\\\"".to_owned(),
            0x5c => "\\\\".to_owned(),
            0x08 => "\\b".to_owned(),
            0x09 => "\\t".to_owned(),
            0x0a => "\\n".to_owned(),
            0x0c => "\\f".to_owned(),
            0x0d => "\\r".to_owned(),
            0..=0x1f => format!("\\u{code:04x}"),
            _ => c.to_string(),
        };
        let request = build_request(&format!("a{c}b"), Vec::new()).unwrap();
        assert_eq!(
            String::from_utf8(request.body).unwrap(),
            format!("{{\"model\":\"a{escaped}b\",\"messages\":[]}}"),
            "character {code:#x}"
        );
    }
}

#[test]
fn request_carries_model_and_messages() {
    let messages = vec![
        message(r#"{ "role" : "user", "content" : "hi" }"#),
        message(r#"{ "role" : "assistant", "content" : [1, 2.5, null, true, "yo"] }"#),
    ];
    let request = build_request("a\"\\\n\u{1}\u{e9}", messages).unwrap();
    assert_eq!(request.method, OpenAiHttpMethod::Post);
    assert_eq!(request.path, "/");
    assert_eq!(
        request.headers,
        vec![("content-type", "application/json"), ("accept", "application/json")]
    );
    assert_eq!(
        String::from_utf8(request.body.clone()).unwrap(),
        "{\"model\":\"a\\\"\\\\\\n\\u0001\u{e9}\",\"messages\":[{\"content\":\"hi\",\"role\":\"user\"},\
         {\"content\":[1,2.5,null,true,\"yo\"],\"role\":\"assistant\"}]}"
    );
    let parsed: serde_json::Value = serde_json::from_slice(&request.body).unwrap();
    assert_eq!(parsed["model"], "a\"\\\n\u{1}\u{e9}");
    assert_eq!(parsed["messages"][1]["content"][4], "yo");
}

#[test]
fn request_without_messages_has_an_empty_list() {
    let request = build_request("", Vec::new()).unwrap();
    assert_eq!(request.body, b"{\"model\":\"\",\"messages\":[]}".to_vec());
    assert_eq!(
        frame_payload(b"1", &vec![b"2".to_vec()]),
        b"{\"model\":1,\"messages\":[2]}".to_vec()
    );
}

#[test]
fn messages_that_cannot_be_written_are_an_error() {
    let error = request_with("m", Err("no".to_owned())).unwrap_err();
    assert_eq!(
        error.to_string(),
        "ai_guardrails (nemo): failed to serialize request: no"
    );
}

#[test]
fn written_messages_are_sent_as_they_are() {
    let request = request_with("m", Ok(vec![b"[]".to_vec(), b"{}".to_vec()])).unwrap();
    assert_eq!(request.body, b"{\"model\":\"m\",\"messages\":[[],{}]}".to_vec());
}

#[test]
fn target_failures_are_exact() {
    for (failure, message) in [
        (
            TargetFailure::InvalidTarget("x".to_owned()),
            "ai_guardrails (nemo): invalid endpoint URL: x",
        ),
        (
            TargetFailure::Resolve("x".to_owned()),
            "ai_guardrails (nemo): failed to resolve endpoint: x",
        ),
        (
            TargetFailure::PolicyRejected("x".to_owned()),
            "ai_guardrails (nemo): endpoint address policy rejected target: x",
        ),
        (
            TargetFailure::DeadlineExceeded,
            "ai_guardrails (nemo): endpoint preparation deadline exceeded",
        ),
        (
            TargetFailure::Other,
            "ai_guardrails (nemo): endpoint preparation failed",
        ),
    ] {
        assert_eq!(map_url_target_error(&failure).to_string(), message);
    }
}

#[test]
fn only_complete_responses_are_accepted() {
    let whole = CalloutOutcome::Buffered(SubResponse { status: 503, body: vec![7] });
    let accepted = accept_outcome(whole).unwrap();
    assert_eq!((accepted.status, accepted.body), (503, vec![7]));
    for (outcome, message) in [
        (
            CalloutOutcome::Streaming,
            "ai_guardrails (nemo): streaming NeMo responses are not supported",
        ),
        (
            CalloutOutcome::ResponseTooLarge { actual: Some(2097152), limit: 1048576 },
            "ai_guardrails (nemo): provider response exceeded size limit (2097152 bytes, limit 1048576 bytes)",
        ),
        (
            CalloutOutcome::ResponseTooLarge { actual: None, limit: 0 },
            "ai_guardrails (nemo): provider response exceeded size limit (unknown bytes, limit 0 bytes)",
        ),
        (
            CalloutOutcome::Other,
            "ai_guardrails (nemo): unsupported provider response mode",
        ),
    ] {
        assert_eq!(accept_outcome(outcome).unwrap_err().to_string(), message);
    }
}

#[test]
fn only_statuses_from_200_to_299_are_accepted() {
    for status in [0_u16, 100, 199, 300, 404, 500, 65535] {
        let error = ensure_success_status(&SubResponse { status, body: Vec::new() }).unwrap_err();
        assert_eq!(
            error.to_string(),
            format!("ai_guardrails (nemo): provider returned HTTP status code {status}")
        );
    }
    for status in [200_u16, 204, 299] {
        assert!(ensure_success_status(&SubResponse { status, body: Vec::new() }).is_ok());
    }
}

#[test]
fn evaluation_runs_from_request_to_result() {
    let provider = provider();
    let Next::Continue(state, Action::PrepareTarget { endpoint, allow_private }) =
        provider.begin(vec![message("{}")], true)
    else {
        panic!("the target must be prepared first");
    };
    assert_eq!(endpoint, "http://nemo:8000/v1/guardrail/checks");
    assert!(allow_private);
    let Next::Continue(
        state,
        Action::Send { request, stage_fallback, max_response_size, timeout_ms },
    ) = provider.advance(state, Event::Target(Ok(2)))
    else {
        panic!("the request must be sent next");
    };
    assert_eq!(request.body, b"{\"model\":\"m\\\"1\",\"messages\":[{}]}".to_vec());
    assert!(stage_fallback);
    assert_eq!((max_response_size, timeout_ms), (MAX_RESPONSE_SIZE, 250));
    assert_eq!(MAX_RESPONSE_SIZE, 1048576);
    let answer = CalloutOutcome::Buffered(SubResponse { status: 200, body: vec![1, 2] });
    let Next::Continue(state, Action::Parse { body }) = provider.advance(state, Event::Answer(Ok(answer)))
    else {
        panic!("the body must be parsed next");
    };
    assert_eq!(body, vec![1, 2]);
    assert!(matches!(state, Evaluation::AwaitingResponse));
    let next = provider.advance(state, Event::Response(Ok(response("success"))));
    assert!(matches!(next, Next::Finish(Ok(GuardResult::Pass))));
}

#[test]
fn evaluation_fails_closed_at_every_step() {
    let provider = provider();
    let failure = |next: Next| match next {
        Next::Finish(Err(error)) => error.to_string(),
        other => panic!("expected a failure, got {other:?}"),
    };
    let Next::Continue(state, Action::PrepareTarget { allow_private, .. }) = provider.begin(Vec::new(), false)
    else {
        panic!("the target must be prepared first");
    };
    assert!(!allow_private);
    assert_eq!(
        failure(provider.advance(state, Event::Target(Err(TargetFailure::DeadlineExceeded)))),
        "ai_guardrails (nemo): endpoint preparation deadline exceeded"
    );
    let down = Event::Answer(Err(FilterError::new("connection refused".to_owned())));
    assert_eq!(
        failure(provider.advance(Evaluation::AwaitingAnswer, down)),
        "connection refused"
    );
    let large = Event::Answer(Ok(CalloutOutcome::ResponseTooLarge { actual: None, limit: 1 }));
    assert_eq!(
        failure(provider.advance(Evaluation::AwaitingAnswer, large)),
        "ai_guardrails (nemo): provider response exceeded size limit (unknown bytes, limit 1 bytes)"
    );
    let status = Event::Answer(Ok(CalloutOutcome::Buffered(SubResponse {
        status: 500,
        body: Vec::new(),
    })));
    assert_eq!(
        failure(provider.advance(Evaluation::AwaitingAnswer, status)),
        "ai_guardrails (nemo): provider returned HTTP status code 500"
    );
    assert_eq!(
        conclude(Err("EOF".to_owned())).unwrap_err().to_string(),
        "ai_guardrails (nemo): failed to parse response: EOF"
    );
    assert_eq!(
        failure(provider.advance(Evaluation::AwaitingResponse, Event::Response(Ok(response("odd"))))),
        "ai_guardrails (nemo): unknown status 'odd'"
    );
}

#[test]
fn rail_order_does_not_show_in_the_reason() {
    let forward = object(vec![
        ("b", rail("blocked")),
        ("a", rail("blocked")),
        ("c", rail("success")),
    ]);
    let backward = object(vec![
        ("c", rail("success")),
        ("a", rail("blocked")),
        ("b", rail("blocked")),
    ]);
    assert_eq!(blocked_rail_names(Some(&forward)), "a, b");
    assert_eq!(blocked_rail_names(Some(&backward)), "a, b");
}

#[test]
fn a_single_address_stages_no_fallback() {
    let provider = provider();
    for addresses in [0_usize, 1, 2, 3] {
        let Next::Continue(state, _) = provider.begin(Vec::new(), false) else {
            panic!("the target must be prepared first");
        };
        let Next::Continue(_, Action::Send { stage_fallback, .. }) =
            provider.advance(state, Event::Target(Ok(addresses)))
        else {
            panic!("the request must be sent next");
        };
        assert_eq!(stage_fallback, addresses > 1);
    }
}

#[test]
fn each_state_awaits_one_kind_of_event() {
    let Next::Continue(start, _) = provider().begin(Vec::new(), false) else {
        panic!("the target must be prepared first");
    };
    let states = [start, Evaluation::AwaitingAnswer, Evaluation::AwaitingResponse];
    let events = [
        Event::Target(Ok(1)),
        Event::Answer(Ok(CalloutOutcome::Streaming)),
        Event::Response(Err("EOF".to_owned())),
    ];
    for (i, state) in states.iter().enumerate() {
        for (j, event) in events.iter().enumerate() {
            assert_eq!(is_awaited(state, event), i == j);
        }
    }
}

#[test]
fn blocked_response_ends_an_evaluation_with_its_reason() {
    let blocked = NemoResponse {
        status: "blocked".to_owned(),
        rails_status: Some(object(vec![("jailbreak", rail("blocked"))])),
        guardrails_data: None,
    };
    let next = provider().advance(Evaluation::AwaitingResponse, Event::Response(Ok(blocked)));
    assert!(matches!(
        next,
        Next::Finish(Ok(GuardResult::Block { reason })) if reason == "jailbreak"
    ));
}
