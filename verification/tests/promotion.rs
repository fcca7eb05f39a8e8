use praxis_ai::model_rewrite::validate_header_name;
use praxis_ai::promotion::{
    is_promotable_value, is_safe_promoted_value, is_transport_controlled_header,
    is_unsafe_promotion_header, validate_promotion_header,
};

#[test]
fn accepts_normal_model() {
    assert!(
        is_promotable_value("gpt-4.1"),
        "short ASCII model name should be promotable"
    );
}

#[test]
fn rejects_oversized_value() {
    let long = "x".repeat(257);
    assert!(!is_promotable_value(&long), "257-byte value should be rejected");
}

#[test]
fn accepts_value_at_limit() {
    let exact = "x".repeat(256);
    assert!(is_promotable_value(&exact), "256-byte value should be accepted");
}

#[test]
fn rejects_newline() {
    assert!(!is_promotable_value("bad\nmodel"), "newline should be rejected");
}

#[test]
fn accepts_empty_string() {
    assert!(is_promotable_value(""), "empty string should be accepted");
}

#[test]
fn transport_controlled_headers_are_blocked() {
    for name in [
        "content-length",
        "Content-Length",
        "host",
        "transfer-encoding",
        "proxy-authorization",
        "connection",
    ] {
        assert!(
            is_transport_controlled_header(name),
            "transport header '{name}' should be blocked"
        );
    }
}

#[test]
fn promotion_defaults_are_not_transport_controlled() {
    assert!(
        !is_transport_controlled_header("x-praxis-ai-effective-model"),
        "default promotion header must remain allowed"
    );
}

#[test]
fn unsafe_promotion_blocks_authorization_and_unrelated_internal() {
    for name in ["authorization", "Authorization", "cookie", "x-praxis-route"] {
        assert!(
            is_unsafe_promotion_header(name),
            "promotion header '{name}' should be blocked"
        );
    }
}

#[test]
fn unsafe_promotion_allows_ai_fact_namespaces() {
    for name in [
        "x-praxis-ai-effective-model",
        "x-praxis-ai-model",
        "x-praxis-responses-mode",
        "x-custom-model",
    ] {
        assert!(
            !is_unsafe_promotion_header(name),
            "promotion header '{name}' should remain allowed"
        );
    }
}

#[test]
fn validate_promotion_header_rejects_authorization() {
    let err = validate_promotion_header("test", "model", Some("authorization")).unwrap_err();
    assert!(
        err.to_string().contains("transport, credential, or internal header"),
        "authorization should be rejected: {}",
        err.to_string()
    );
}

#[test]
fn value_length_is_counted_in_bytes() {
    let wide = "\u{e9}".repeat(128);
    assert_eq!(wide.len(), 256);
    assert!(is_promotable_value(&wide));
    assert!(!is_promotable_value(&"\u{e9}".repeat(129)));
}

#[test]
fn value_safety_agrees_with_the_http_library() {
    for code in 0_u32..0x800 {
        let Some(c) = char::from_u32(code) else { continue };
        let text = format!("a{c}b");
        assert_eq!(
            is_safe_promoted_value(&text),
            http::HeaderValue::from_str(&text).is_ok(),
            "character {code:#x} must classify like a header value"
        );
    }
}

#[test]
fn every_hop_by_hop_and_credential_header_is_blocked() {
    for name in [
        "Connection",
        "Keep-Alive",
        "Proxy-Authenticate",
        "Proxy-Authorization",
        "TE",
        "Trailer",
        "Transfer-Encoding",
        "Upgrade",
        "HOST",
    ] {
        assert!(is_transport_controlled_header(name), "{name}");
        assert!(is_unsafe_promotion_header(name), "{name}");
    }
    for name in ["Authorization", "Cookie", "Set-Cookie", "WWW-Authenticate"] {
        assert!(!is_transport_controlled_header(name), "{name}");
        assert!(is_unsafe_promotion_header(name), "{name}");
    }
    assert!(!is_unsafe_promotion_header("x-praxi"));
    assert!(is_unsafe_promotion_header("X-Praxis-"));
    assert!(is_unsafe_promotion_header("x-praxis-ai"));
    assert!(!is_unsafe_promotion_header("X-Praxis-AI-Model"));
}

#[test]
fn absent_promotion_header_is_accepted() {
    assert!(validate_promotion_header("test", "model", None).is_ok());
}

#[test]
fn safe_promotion_header_is_accepted() {
    assert!(validate_promotion_header("test", "model", Some("X-Custom-Model")).is_ok());
}

#[test]
fn promotion_header_errors_are_exact() {
    let empty = validate_promotion_header("f", "model", Some("")).unwrap_err();
    assert_eq!(empty.to_string(), "f: model header name must not be empty");

    let invalid = validate_promotion_header("f", "model", Some("Bad Header")).unwrap_err();
    assert_eq!(invalid.to_string(), "f: model header name is not a valid HTTP header name");

    let unsafe_target = validate_promotion_header("f", "model", Some("Set-Cookie")).unwrap_err();
    assert_eq!(
        unsafe_target.to_string(),
        "f: 'model' must not use transport, credential, or internal header 'set-cookie'"
    );
}

#[test]
fn every_accepted_promotion_header_suits_a_model_value() {
    for name in ["x-model", "X-Praxis-AI-Model", "x-praxis-responses-mode", "!"] {
        assert!(validate_promotion_header("test", "model", Some(name)).is_ok(), "{name}");
        assert!(validate_header_name("effective_model", Some(name)).is_ok(), "{name}");
    }
    assert!(validate_promotion_header("test", "model", Some("cookie")).is_err());
    assert!(validate_header_name("effective_model", Some("cookie")).is_ok());
}
