use std::collections::BTreeSet;

use praxis_ai::chat_completions::{
    match_route, operation_specs, ChatCompletionsOperation, PROTOCOL_EXTENSION_OPERATION_IDS,
};
use praxis_ai::operation::{
    match_operation, OpenAiApiFamily, OpenAiHandlingMode, OpenAiHttpMethod, OpenAiRequestBody,
    OpenAiTransport,
};

#[test]
fn registry_keys_and_operation_ids_are_unique() {
    let specs = operation_specs();
    let keys = specs
        .iter()
        .map(|spec| (spec.method, spec.transport.as_str(), spec.spec_path))
        .collect::<BTreeSet<_>>();
    assert_eq!(keys.len(), specs.len(), "duplicate method/transport/path key");

    let ids = specs.iter().map(|spec| spec.operation_id).collect::<BTreeSet<_>>();
    assert_eq!(ids.len(), specs.len(), "duplicate operation ID");
}

#[test]
fn every_registered_operation_resolves_from_its_own_template() {
    for spec in operation_specs() {
        let path = spec.runtime_path.replace("{completion_id}", "chatcmpl_test");
        let matched = match_route(spec.method.as_str(), &path).unwrap();
        assert_eq!(
            matched.spec.operation,
            spec.operation,
            "{} {path} resolved to the wrong operation",
            spec.method.as_str()
        );
    }
}

#[test]
fn identifier_paths_capture_the_completion_id() {
    let matched = match_route("GET", "/v1/chat/completions/chatcmpl_abc123").unwrap();
    assert_eq!(matched.spec.operation, ChatCompletionsOperation::GetChatCompletion);
    assert_eq!(matched.completion_id(), Some("chatcmpl_abc123"));

    let matched = match_route("GET", "/v1/chat/completions/chatcmpl_abc123/messages").unwrap();
    assert_eq!(
        matched.spec.operation,
        ChatCompletionsOperation::GetChatCompletionMessages
    );
    assert_eq!(matched.completion_id(), Some("chatcmpl_abc123"));
}

#[test]
fn create_and_list_are_separated_without_reading_a_body() {
    let create = match_route("POST", "/v1/chat/completions").unwrap();
    assert_eq!(create.spec.operation, ChatCompletionsOperation::CreateChatCompletion);

    let list = match_route("GET", "/v1/chat/completions").unwrap();
    assert_eq!(list.spec.operation, ChatCompletionsOperation::ListChatCompletions);
}

#[test]
fn unsupported_methods_and_paths_do_not_match() {
    for (method, path) in [
        ("PUT", "/v1/chat/completions"),
        ("PATCH", "/v1/chat/completions/chatcmpl_abc"),
        ("DELETE", "/v1/chat/completions"),
        ("GET", "/v1/chat/completions/chatcmpl_abc/other"),
        ("POST", "/v1/chat/completions/chatcmpl_abc/messages"),
    ] {
        assert!(
            match_route(method, path).is_none(),
            "{method} {path} must not match a Chat Completions operation"
        );
    }
}

#[test]
fn body_shapes_match_the_pinned_specification() {
    for spec in operation_specs() {
        let expected = match spec.operation {
            ChatCompletionsOperation::CreateChatCompletion | ChatCompletionsOperation::UpdateChatCompletion => {
                OpenAiRequestBody::Json { required: true }
            },
            _ => OpenAiRequestBody::Empty,
        };
        assert_eq!(
            spec.request_body, expected,
            "{:?} reported the wrong body shape",
            spec.operation
        );
    }
}

#[test]
fn registry_declares_no_owned_contract() {
    assert!(
        operation_specs().iter().all(|spec| spec.owned_contract().is_none()),
        "Praxis proxies the Chat Completions contract rather than owning it"
    );
}

#[test]
fn classification_is_independent_of_request_body() {
    let matched = match_route("POST", "/v1/chat/completions").unwrap();
    assert_eq!(matched.spec.operation, ChatCompletionsOperation::CreateChatCompletion);
}

#[test]
fn registry_holds_the_six_operations_in_order() {
    let specs = operation_specs();
    let listed = specs
        .iter()
        .map(|spec| (spec.operation, spec.operation_id, spec.method, spec.spec_path, spec.runtime_path))
        .collect::<Vec<_>>();
    assert_eq!(
        listed,
        vec![
            (
                ChatCompletionsOperation::ListChatCompletions,
                "listChatCompletions",
                OpenAiHttpMethod::Get,
                "/chat/completions",
                "/v1/chat/completions",
            ),
            (
                ChatCompletionsOperation::CreateChatCompletion,
                "createChatCompletion",
                OpenAiHttpMethod::Post,
                "/chat/completions",
                "/v1/chat/completions",
            ),
            (
                ChatCompletionsOperation::GetChatCompletion,
                "getChatCompletion",
                OpenAiHttpMethod::Get,
                "/chat/completions/{completion_id}",
                "/v1/chat/completions/{completion_id}",
            ),
            (
                ChatCompletionsOperation::UpdateChatCompletion,
                "updateChatCompletion",
                OpenAiHttpMethod::Post,
                "/chat/completions/{completion_id}",
                "/v1/chat/completions/{completion_id}",
            ),
            (
                ChatCompletionsOperation::DeleteChatCompletion,
                "deleteChatCompletion",
                OpenAiHttpMethod::Delete,
                "/chat/completions/{completion_id}",
                "/v1/chat/completions/{completion_id}",
            ),
            (
                ChatCompletionsOperation::GetChatCompletionMessages,
                "getChatCompletionMessages",
                OpenAiHttpMethod::Get,
                "/chat/completions/{completion_id}/messages",
                "/v1/chat/completions/{completion_id}/messages",
            ),
        ]
    );
    assert!(PROTOCOL_EXTENSION_OPERATION_IDS.is_empty());
}

#[test]
fn only_creation_is_inspected() {
    for spec in operation_specs() {
        assert_eq!(spec.family, OpenAiApiFamily::ChatCompletions);
        assert_eq!(spec.transport, OpenAiTransport::Http);
        let expected = if spec.operation == ChatCompletionsOperation::CreateChatCompletion {
            OpenAiHandlingMode::Inspect
        } else {
            OpenAiHandlingMode::Passthrough
        };
        assert_eq!(spec.mode, expected, "{:?} has the wrong mode", spec.operation);
    }
}

#[test]
fn paths_without_an_identifier_have_no_completion_id() {
    let matched = match_route("GET", "/v1/chat/completions").unwrap();
    assert_eq!(matched.completion_id(), None);
    assert_eq!(matched.params.get("other"), None);
}

#[test]
fn near_misses_do_not_match() {
    for (method, path) in [
        ("GET", "/v1/chat/completions/"),
        ("GET", "/v1/chat/completions//messages"),
        ("GET", "v1/chat/completions"),
        ("GET", "/v1/chat"),
        ("GET", "/v1/Chat/completions"),
        ("GET", ""),
        ("get", "/v1/chat/completions"),
        ("", "/v1/chat/completions"),
    ] {
        assert!(match_route(method, path).is_none(), "{method} {path} must not match");
    }
}

#[test]
fn identifiers_may_hold_any_character_but_a_slash() {
    for id in ["x", "{completion_id}", "caf\u{e9}", "a b", "messages"] {
        let path = format!("/v1/chat/completions/{id}");
        let matched = match_route("DELETE", &path).unwrap();
        assert_eq!(matched.spec.operation, ChatCompletionsOperation::DeleteChatCompletion);
        assert_eq!(matched.completion_id(), Some(id));
    }
}

#[test]
fn other_transports_do_not_match() {
    let matched = match_operation(
        operation_specs(),
        "POST",
        "/v1/chat/completions",
        OpenAiTransport::WebSocket,
    );
    assert!(matched.is_none());
    assert_eq!(OpenAiTransport::WebSocket.as_str(), "websocket");
}

#[test]
fn a_request_head_fits_at_most_one_operation() {
    let specs = operation_specs();
    for method in ["GET", "POST", "DELETE"] {
        for path in [
            "/v1/chat/completions",
            "/v1/chat/completions/x",
            "/v1/chat/completions/messages",
            "/v1/chat/completions/x/messages",
        ] {
            let fits = (0..specs.len())
                .filter(|i| {
                    match_operation(&specs[*i..*i + 1], method, path, OpenAiTransport::Http).is_some()
                })
                .count();
            assert_eq!(fits > 0, match_route(method, path).is_some(), "{method} {path}");
            assert!(fits <= 1, "{method} {path} fits {fits} operations");
        }
    }
}

#[test]
fn runtime_paths_stand_under_the_version_prefix() {
    for spec in operation_specs() {
        assert_eq!(spec.runtime_path, format!("/v1{}", spec.spec_path));
    }
}
