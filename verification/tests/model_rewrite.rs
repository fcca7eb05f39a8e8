use praxis_ai::model_rewrite::{
    validate_aliases, validate_config, validate_header_name, ModelRewriteConfig,
    ModelRewriteHeaders, OnInvalidBehavior,
};
use praxis_ai::string_map::StringMap;

fn config(default_model: Option<&str>, aliases: StringMap<String>) -> ModelRewriteConfig {
    ModelRewriteConfig {
        default_model: default_model.map(|model| model.to_owned()),
        headers: ModelRewriteHeaders::default(),
        model_aliases: aliases,
        on_invalid: OnInvalidBehavior::Continue,
    }
}

#[test]
fn on_invalid_behavior_defaults_to_continue() {
    let b = OnInvalidBehavior::default();
    assert_eq!(b, OnInvalidBehavior::Continue);
}

#[test]
fn model_rewrite_headers_defaults() {
    let h = ModelRewriteHeaders::default();
    assert_eq!(h.effective_model.as_deref(), Some("x-praxis-ai-effective-model"));
    assert_eq!(h.original_model.as_deref(), Some("x-praxis-ai-original-model"));
}

#[test]
fn validate_no_default_model_no_aliases_rejected() {
    let cfg = ModelRewriteConfig {
        default_model: None,
        headers: ModelRewriteHeaders::default(),
        model_aliases: StringMap::new(),
        on_invalid: OnInvalidBehavior::Continue,
    };
    let err = validate_config(&cfg).unwrap_err();
    assert!(
        err.to_string().contains("at least one"),
        "expected 'at least one' error, got: {}",
        err.to_string()
    );
}

#[test]
fn validate_empty_default_model_rejected() {
    let cfg = ModelRewriteConfig {
        default_model: Some(String::new()),
        headers: ModelRewriteHeaders::default(),
        model_aliases: StringMap::new(),
        on_invalid: OnInvalidBehavior::Continue,
    };
    let err = validate_config(&cfg).unwrap_err();
    assert!(
        err.to_string().contains("must not be empty"),
        "expected 'must not be empty' error, got: {}",
        err.to_string()
    );
}

#[test]
fn validate_whitespace_only_default_model_rejected() {
    let cfg = ModelRewriteConfig {
        default_model: Some("   ".into()),
        headers: ModelRewriteHeaders::default(),
        model_aliases: StringMap::new(),
        on_invalid: OnInvalidBehavior::Continue,
    };
    let err = validate_config(&cfg).unwrap_err();
    assert!(
        err.to_string().contains("must not be empty"),
        "expected 'must not be empty' error, got: {}",
        err.to_string()
    );
}

#[test]
fn validate_default_model_only_ok() {
    let cfg = ModelRewriteConfig {
        default_model: Some("llama-3.3-70b".into()),
        headers: ModelRewriteHeaders::default(),
        model_aliases: StringMap::new(),
        on_invalid: OnInvalidBehavior::Continue,
    };
    assert!(validate_config(&cfg).is_ok());
}

#[test]
fn validate_aliases_only_ok() {
    let mut aliases = StringMap::new();
    aliases.insert("gpt-4".into(), "llama-3.3-70b".into());
    let cfg = ModelRewriteConfig {
        default_model: None,
        headers: ModelRewriteHeaders::default(),
        model_aliases: aliases,
        on_invalid: OnInvalidBehavior::Continue,
    };
    assert!(validate_config(&cfg).is_ok());
}

#[test]
fn validate_both_default_model_and_aliases_ok() {
    let mut aliases = StringMap::new();
    aliases.insert("gpt-4".into(), "llama-3.3-70b".into());
    let cfg = ModelRewriteConfig {
        default_model: Some("default-model".into()),
        headers: ModelRewriteHeaders::default(),
        model_aliases: aliases,
        on_invalid: OnInvalidBehavior::Continue,
    };
    assert!(validate_config(&cfg).is_ok());
}

#[test]
fn validate_aliases_empty_source_rejected() {
    let mut aliases: StringMap<String> = StringMap::new();
    aliases.insert(String::new(), "target".into());
    let err = validate_aliases(&aliases).unwrap_err();
    assert!(
        err.to_string().contains("source name must not be empty"),
        "expected empty source error, got: {}",
        err.to_string()
    );
}

#[test]
fn validate_aliases_multiple_wildcards_rejected() {
    let mut aliases: StringMap<String> = StringMap::new();
    aliases.insert("gpt-*-*".into(), "target".into());
    let err = validate_aliases(&aliases).unwrap_err();
    assert!(
        err.to_string().contains("at most one '*'"),
        "expected wildcard error, got: {}",
        err.to_string()
    );
}

#[test]
fn validate_aliases_empty_target_rejected() {
    let mut aliases: StringMap<String> = StringMap::new();
    aliases.insert("gpt-4".into(), String::new());
    let err = validate_aliases(&aliases).unwrap_err();
    assert!(
        err.to_string().contains("target"),
        "expected empty target error, got: {}",
        err.to_string()
    );
}

#[test]
fn validate_aliases_single_wildcard_ok() {
    let mut aliases: StringMap<String> = StringMap::new();
    aliases.insert("gpt-4.1-*".into(), "qwen-2.5-72b".into());
    assert!(validate_aliases(&aliases).is_ok());
}

#[test]
fn validate_aliases_exact_alias_ok() {
    let mut aliases: StringMap<String> = StringMap::new();
    aliases.insert("codex-mini-latest".into(), "llama-3.3-70b".into());
    assert!(validate_aliases(&aliases).is_ok());
}

#[test]
fn validate_header_name_none_ok() {
    assert!(validate_header_name("test", None).is_ok());
}

#[test]
fn validate_header_name_empty_rejected() {
    let err = validate_header_name("test", Some("")).unwrap_err();
    assert!(
        err.to_string().contains("must not be empty"),
        "expected empty header error, got: {}",
        err.to_string()
    );
}

#[test]
fn validate_header_name_invalid_rejected() {
    let err = validate_header_name("test", Some("not a valid header!")).unwrap_err();
    assert!(
        err.to_string().contains("not a valid HTTP header name"),
        "expected invalid header error, got: {}",
        err.to_string()
    );
}

#[test]
fn validate_header_name_valid_accepted() {
    assert!(validate_header_name("test", Some("x-custom-header")).is_ok());
}

#[test]
fn validate_header_name_rejects_content_length() {
    let err = validate_header_name("effective_model", Some("content-length")).unwrap_err();
    assert!(
        err.to_string().contains("transport or credential header"),
        "content-length should be rejected: {}",
        err.to_string()
    );
}

#[test]
fn validate_header_name_rejects_host_case_insensitively() {
    let err = validate_header_name("original_model", Some("Host")).unwrap_err();
    assert!(
        err.to_string().contains("host"),
        "Host should be rejected as transport header: {}",
        err.to_string()
    );
}

#[test]
fn validate_config_rejects_duplicate_promotion_headers() {
    let cfg = ModelRewriteConfig {
        default_model: Some("llama-3.3-70b".into()),
        headers: ModelRewriteHeaders {
            effective_model: Some("x-model".into()),
            original_model: Some("X-Model".into()),
        },
        model_aliases: StringMap::new(),
        on_invalid: OnInvalidBehavior::Continue,
    };
    let err = validate_config(&cfg).unwrap_err();
    assert!(
        err.to_string().contains("same header name"),
        "duplicate promotion headers should be rejected: {}",
        err.to_string()
    );
}

#[test]
fn validate_config_accepts_distinct_custom_promotion_headers() {
    let cfg = ModelRewriteConfig {
        default_model: Some("llama-3.3-70b".into()),
        headers: ModelRewriteHeaders {
            effective_model: Some("x-effective-model".into()),
            original_model: Some("x-original-model".into()),
        },
        model_aliases: StringMap::new(),
        on_invalid: OnInvalidBehavior::Continue,
    };
    assert!(
        validate_config(&cfg).is_ok(),
        "distinct custom headers should be accepted"
    );
}

#[test]
fn null_header_disables_promotion() {
    let mut cfg = config(Some("test"), StringMap::new());
    cfg.headers.effective_model = None;
    cfg.headers.original_model = None;
    assert!(validate_config(&cfg).is_ok());
}

#[test]
fn every_white_space_character_makes_a_blank_model_name() {
    for code in 0_u32..0x11_0000 {
        let Some(c) = char::from_u32(code) else { continue };
        let listed = matches!(
            code,
            0x09..=0x0d | 0x20 | 0x85 | 0xa0 | 0x1680 | 0x2000..=0x200a | 0x2028 | 0x2029 | 0x202f | 0x205f | 0x3000
        );
        assert_eq!(c.is_whitespace(), listed, "character {code:#x}");
        if listed {
            let model = format!(" {c} ");
            let err = validate_config(&config(Some(&model), StringMap::new())).unwrap_err();
            assert_eq!(
                err.to_string(),
                "openai_responses_model_rewrite: 'default_model' must not be empty"
            );
        }
    }
    assert!(validate_config(&config(Some(" m "), StringMap::new())).is_ok());
}

#[test]
fn config_errors_are_exact() {
    let none = validate_config(&config(None, StringMap::new())).unwrap_err();
    assert_eq!(
        none.to_string(),
        "openai_responses_model_rewrite: at least one of 'default_model' or 'model_aliases' must be configured"
    );

    let mut wild: StringMap<String> = StringMap::new();
    wild.insert("a*b*".into(), String::new());
    assert_eq!(
        validate_aliases(&wild).unwrap_err().to_string(),
        "openai_responses_model_rewrite: alias source pattern 'a*b*' must contain at most one '*'"
    );

    let mut bare: StringMap<String> = StringMap::new();
    bare.insert("a*".into(), String::new());
    assert_eq!(
        validate_aliases(&bare).unwrap_err().to_string(),
        "openai_responses_model_rewrite: alias target for 'a*' must not be empty"
    );

    assert_eq!(
        validate_header_name("f", Some("")).unwrap_err().to_string(),
        "openai_responses_model_rewrite: 'f' header name must not be empty"
    );
    assert_eq!(
        validate_header_name("f", Some("caf\u{e9}")).unwrap_err().to_string(),
        "openai_responses_model_rewrite: 'f' header name is not a valid HTTP header name"
    );
    assert_eq!(
        validate_header_name("f", Some("Proxy-AUTHORIZATION")).unwrap_err().to_string(),
        "openai_responses_model_rewrite: 'f' must not use transport or credential header 'proxy-authorization'"
    );
}

#[test]
fn faults_are_reported_in_order() {
    let mut aliases: StringMap<String> = StringMap::new();
    aliases.insert("ok".into(), "target".into());
    aliases.insert("empty".into(), String::new());
    aliases.insert("*_*".into(), "target".into());
    let mut cfg = config(Some("model"), aliases);
    cfg.headers.effective_model = Some("host".into());
    let err = validate_config(&cfg).unwrap_err();
    assert_eq!(
        err.to_string(),
        "openai_responses_model_rewrite: alias target for 'empty' must not be empty"
    );
}

#[test]
fn header_names_agree_with_the_http_library() {
    for code in 0_u32..0x180 {
        let Some(c) = char::from_u32(code) else { continue };
        let name = format!("x{c}");
        assert_eq!(
            validate_header_name("f", Some(&name)).is_ok(),
            c.is_ascii_alphanumeric() || "!#$%&'*+-.^_`|~".contains(c),
            "character {code:#x}"
        );
    }
    assert!(validate_header_name("f", Some(&"x".repeat(65535))).is_ok());
    assert!(validate_header_name("f", Some(&"x".repeat(65536))).is_err());
}

#[test]
fn inserting_a_key_again_replaces_its_value() {
    let mut map: StringMap<u32> = StringMap::new();
    assert!(map.is_empty());
    map.insert("a".into(), 1);
    map.insert("b".into(), 2);
    map.insert("a".into(), 3);
    assert_eq!(map.len(), 2);
    assert_eq!(map.get("a"), Some(&3));
    assert_eq!(map.get("b"), Some(&2));
    assert_eq!(map.get("c"), None);
    assert_eq!((map.key_at(0), *map.value_at(0)), ("a", 3));
}

#[test]
fn alias_order_does_not_decide_acceptance() {
    let good = [("a", "x"), ("b*", "y"), ("*", "z")];
    let bad = [("a", "x"), ("b", ""), ("*", "z")];
    for (entries, accepted) in [(good, true), (bad, false)] {
        let mut forward: StringMap<String> = StringMap::new();
        let mut backward: StringMap<String> = StringMap::new();
        for (source, target) in entries.iter() {
            forward.insert((*source).into(), (*target).into());
        }
        for (source, target) in entries.iter().rev() {
            backward.insert((*source).into(), (*target).into());
        }
        assert_eq!(validate_aliases(&forward).is_ok(), accepted);
        assert_eq!(validate_aliases(&backward).is_ok(), accepted);
    }
}

#[test]
fn promotion_can_be_turned_off_for_one_value() {
    let mut cfg = config(Some("test"), StringMap::new());
    cfg.headers.original_model = None;
    assert!(validate_config(&cfg).is_ok());
    cfg.headers.effective_model = Some("upgrade".into());
    assert_eq!(
        validate_config(&cfg).unwrap_err().to_string(),
        "openai_responses_model_rewrite: 'effective_model' must not use transport or credential header 'upgrade'"
    );
}
