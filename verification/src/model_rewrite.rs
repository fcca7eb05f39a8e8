//! Configuration of the model rewrite filter and its validation.
use vstd::prelude::*;
use vstd::string::*;

use crate::error::{reports, FilterError};
use crate::header_name::{is_header_name, parse_header_name};
use crate::promotion::{
    is_transport_controlled_header, is_transport_name, law_ai_fact_namespaces_are_safe,
    law_transport_and_credential_headers_are_unsafe, promotion_header_fault,
};
use crate::string_map::StringMap;
use crate::text::{
    ascii_lower, count_char, eq_ignore_ascii_case, has_prefix, is_blank, law_occurrence_places,
    lemma_ascii_lower_idempotent, lemma_trimmed_empty, occurrences, option_text, text_of,
};

verus! {

// -----------------------------------------------------------------------------
// Configuration
// -----------------------------------------------------------------------------

/// Configuration of the model rewrite filter.
///
/// ```yaml
/// filter: openai_responses_model_rewrite
/// default_model: "llama-3.3-70b"
/// model_aliases:
///   "codex-mini-latest": "llama-3.3-70b"
///   "gpt-4.1-*": "qwen-2.5-72b"
///   "gpt-4.1-mini": "qwen-2.5-72b"
/// on_invalid: continue
/// headers:
///   effective_model: x-praxis-ai-effective-model
///   original_model: x-praxis-ai-original-model
/// ```
#[derive(Debug)]
pub struct ModelRewriteConfig {
    /// Model name to inject when the request body has no `model`
    /// field or when the field is `null`.
    pub default_model: Option<String>,
    /// Header names for promoted model values.
    pub headers: ModelRewriteHeaders,
    /// Map from client-facing model names or single-wildcard patterns
    /// to backend model names.
    pub model_aliases: StringMap<String>,
    /// Behavior when the body is not valid JSON.
    pub on_invalid: OnInvalidBehavior,
}

/// Configurable header names for promoted model values.
///
/// Transport-controlled names (`content-length`, `host`, hop-by-hop,
/// and proxy-auth headers) are rejected. The two fields must not share
/// the same name.
#[derive(Debug)]
pub struct ModelRewriteHeaders {
    /// Header name for the effective (post-rewrite) model value.
    pub effective_model: Option<String>,
    /// Header name for the original (pre-rewrite) model value.
    pub original_model: Option<String>,
}

/// Behavior when the request body cannot be parsed as JSON.
#[derive(Clone, Copy, Debug, PartialEq, Eq, Structural)]
pub enum OnInvalidBehavior {
    /// Pass the original body through unchanged.
    Continue,
    /// Return HTTP 400.
    Reject,
}

impl Default for OnInvalidBehavior {
    fn default() -> (behavior: OnInvalidBehavior)
        ensures
            behavior == OnInvalidBehavior::Continue,
    {
        OnInvalidBehavior::Continue
    }
}

impl Default for ModelRewriteHeaders {
    fn default() -> (headers: ModelRewriteHeaders)
        ensures
            option_text(headers.effective_model) == Some("x-praxis-ai-effective-model"@),
            option_text(headers.original_model) == Some("x-praxis-ai-original-model"@),
    {
        ModelRewriteHeaders {
            effective_model: default_effective_model_header(),
            original_model: default_original_model_header(),
        }
    }
}

/// Default effective model header name.
pub fn default_effective_model_header() -> (name: Option<String>)
    ensures
        option_text(name) == Some("x-praxis-ai-effective-model"@),
{
    Some("x-praxis-ai-effective-model".to_owned())
}

/// Default original model header name.
pub fn default_original_model_header() -> (name: Option<String>)
    ensures
        option_text(name) == Some("x-praxis-ai-original-model"@),
{
    Some("x-praxis-ai-original-model".to_owned())
}

// -----------------------------------------------------------------------------
// Faults
// -----------------------------------------------------------------------------

/// The message for which an alias is rejected, if it is.
pub open spec fn alias_fault(source: Seq<char>, target: Seq<char>) -> Option<Seq<char>> {
    if source.len() == 0 {
        Some("openai_responses_model_rewrite: alias source name must not be empty"@)
    } else if occurrences(source, '*') > 1 {
        Some(
            "openai_responses_model_rewrite: alias source pattern '"@ + source
                + "' must contain at most one '*'"@,
        )
    } else if target.len() == 0 {
        Some(
            "openai_responses_model_rewrite: alias target for '"@ + source + "' must not be empty"@,
        )
    } else {
        None
    }
}

/// The message for the first alias that is rejected, if one is.
pub open spec fn aliases_fault(aliases: Seq<(Seq<char>, String)>) -> Option<Seq<char>>
    decreases aliases.len(),
{
    if aliases.len() == 0 {
        None
    } else {
        match alias_fault(aliases[0].0, aliases[0].1@) {
            Some(message) => Some(message),
            None => aliases_fault(aliases.drop_first()),
        }
    }
}

/// The message for which a promotion target is rejected as transport-controlled,
/// if it is.
pub open spec fn transport_fault(field: Seq<char>, name: Seq<char>) -> Option<Seq<char>> {
    if is_transport_name(ascii_lower(name)) {
        Some(
            "openai_responses_model_rewrite: '"@ + field
                + "' must not use transport or credential header '"@ + name + "'"@,
        )
    } else {
        None
    }
}

/// The message for which a configured header name is rejected, if it is.
pub open spec fn header_fault(field: Seq<char>, name: Option<Seq<char>>) -> Option<Seq<char>> {
    match name {
        None => None,
        Some(text) => if text.len() == 0 {
            Some(
                "openai_responses_model_rewrite: '"@ + field + "' header name must not be empty"@,
            )
        } else if !is_header_name(text) {
            Some(
                "openai_responses_model_rewrite: '"@ + field
                    + "' header name is not a valid HTTP header name"@,
            )
        } else {
            transport_fault(field, ascii_lower(text))
        },
    }
}

/// The message for which two header names are rejected as the same, if they are.
pub open spec fn duplicate_fault(
    effective: Option<Seq<char>>,
    original: Option<Seq<char>>,
) -> Option<Seq<char>> {
    match (effective, original) {
        (Some(a), Some(b)) => if ascii_lower(a) == ascii_lower(b) {
            Some(
                "openai_responses_model_rewrite: 'effective_model' and 'original_model' must not use the same header name"@,
            )
        } else {
            None
        },
        _ => None,
    }
}

/// The message for which the header names are rejected, if they are.
pub open spec fn headers_fault(
    effective: Option<Seq<char>>,
    original: Option<Seq<char>>,
) -> Option<Seq<char>> {
    match header_fault("effective_model"@, effective) {
        Some(message) => Some(message),
        None => match header_fault("original_model"@, original) {
            Some(message) => Some(message),
            None => duplicate_fault(effective, original),
        },
    }
}

/// The message for which a configuration is rejected, if it is.
pub open spec fn config_fault(cfg: ModelRewriteConfig) -> Option<Seq<char>> {
    if cfg.default_model is None && cfg.model_aliases@.len() == 0 {
        Some(
            "openai_responses_model_rewrite: at least one of 'default_model' or 'model_aliases' must be configured"@,
        )
    } else if cfg.default_model matches Some(model) && is_blank(model@) {
        Some("openai_responses_model_rewrite: 'default_model' must not be empty"@)
    } else {
        match aliases_fault(cfg.model_aliases@) {
            Some(message) => Some(message),
            None => headers_fault(
                option_text(cfg.headers.effective_model),
                option_text(cfg.headers.original_model),
            ),
        }
    }
}

// -----------------------------------------------------------------------------
// Validation
// -----------------------------------------------------------------------------

/// Borrow an optional string.
fn as_deref(value: &Option<String>) -> (text: Option<&str>)
    ensures
        text_of(text) == option_text(*value),
{
    match value {
        Some(text) => Some(text.as_str()),
        None => None,
    }
}

/// Validate a parsed config, returning an error for invalid values.
///
/// # Errors
///
/// Returns [`FilterError`] when the config is invalid.
pub fn validate_config(cfg: &ModelRewriteConfig) -> (result: Result<(), FilterError>)
    ensures
        reports(result, config_fault(*cfg)),
{
    if cfg.default_model.is_none() && cfg.model_aliases.is_empty() {
        return Err(
            FilterError::new(
                "openai_responses_model_rewrite: at least one of 'default_model' or 'model_aliases' must be configured".to_owned(),
            ),
        );
    }
    if let Some(model) = &cfg.default_model {
        let inner = model.as_str().trim();
        proof {
            lemma_trimmed_empty(model@, inner@);
        }
        if inner.is_empty() {
            return Err(
                FilterError::new(
                    "openai_responses_model_rewrite: 'default_model' must not be empty".to_owned(),
                ),
            );
        }
    }
    validate_aliases(&cfg.model_aliases)?;
    validate_promotion_headers(&cfg.headers)?;
    Ok(())
}

/// Reject empty, invalid, transport-controlled, or duplicated promotion headers.
pub fn validate_promotion_headers(headers: &ModelRewriteHeaders) -> (result: Result<
    (),
    FilterError,
>)
    ensures
        reports(
            result,
            headers_fault(
                option_text(headers.effective_model),
                option_text(headers.original_model),
            ),
        ),
{
    let effective = as_deref(&headers.effective_model);
    let original = as_deref(&headers.original_model);
    validate_header_name("effective_model", effective)?;
    validate_header_name("original_model", original)?;
    reject_duplicate_promotion_headers(effective, original)
}

/// Reject configuring the same promotion header for both model values.
pub fn reject_duplicate_promotion_headers(
    effective: Option<&str>,
    original: Option<&str>,
) -> (result: Result<(), FilterError>)
    ensures
        reports(result, duplicate_fault(text_of(effective), text_of(original))),
{
    match (effective, original) {
        (Some(effective), Some(original)) => {
            if eq_ignore_ascii_case(effective, original) {
                return Err(
                    FilterError::new(
                        "openai_responses_model_rewrite: 'effective_model' and 'original_model' must not use the same header name".to_owned(),
                    ),
                );
            }
            Ok(())
        },
        _ => Ok(()),
    }
}

/// Validate alias map entries.
pub fn validate_aliases(aliases: &StringMap<String>) -> (result: Result<(), FilterError>)
    ensures
        reports(result, aliases_fault(aliases@)),
{
    let count: usize = aliases.len();
    assert(aliases@.skip(0) =~= aliases@);
    for i in 0..count
        invariant
            count == aliases@.len(),
            aliases_fault(aliases@) == aliases_fault(aliases@.skip(i as int)),
    {
        let source = aliases.key_at(i);
        let target = aliases.value_at(i);
        assert(aliases@.skip(i as int).drop_first() =~= aliases@.skip(i + 1));
        if source.is_empty() {
            return Err(
                FilterError::new(
                    "openai_responses_model_rewrite: alias source name must not be empty".to_owned(),
                ),
            );
        }
        if count_char(source, '*') > 1 {
            let mut message =
                "openai_responses_model_rewrite: alias source pattern '".to_owned();
            message.append(source);
            message.append("' must contain at most one '*'");
            return Err(FilterError::new(message));
        }
        if target.as_str().is_empty() {
            let mut message = "openai_responses_model_rewrite: alias target for '".to_owned();
            message.append(source);
            message.append("' must not be empty");
            return Err(FilterError::new(message));
        }
    }
    Ok(())
}

/// Validate a configured header name using the HTTP header-name parser.
pub fn validate_header_name(field: &str, name: Option<&str>) -> (result: Result<(), FilterError>)
    ensures
        reports(result, header_fault(field@, text_of(name))),
{
    match name {
        None => Ok(()),
        Some(name) => {
            if name.is_empty() {
                let mut message = "openai_responses_model_rewrite: '".to_owned();
                message.append(field);
                message.append("' header name must not be empty");
                return Err(FilterError::new(message));
            }
            match parse_header_name(name) {
                None => {
                    let mut message = "openai_responses_model_rewrite: '".to_owned();
                    message.append(field);
                    message.append("' header name is not a valid HTTP header name");
                    Err(FilterError::new(message))
                },
                Some(parsed) => reject_transport_promotion_header(field, parsed.as_str()),
            }
        },
    }
}

/// Reject hop-by-hop, framing, Host, and proxy-auth promotion targets.
pub fn reject_transport_promotion_header(field: &str, name: &str) -> (result: Result<
    (),
    FilterError,
>)
    ensures
        reports(result, transport_fault(field@, name@)),
{
    if is_transport_controlled_header(name) {
        let mut message = "openai_responses_model_rewrite: '".to_owned();
        message.append(field);
        message.append("' must not use transport or credential header '");
        message.append(name);
        message.append("'");
        return Err(FilterError::new(message));
    }
    Ok(())
}

// -----------------------------------------------------------------------------
// Laws
// -----------------------------------------------------------------------------

/// Whether an alias is accepted: a source with at most one wildcard, and a target.
pub open spec fn is_valid_alias(source: Seq<char>, target: Seq<char>) -> bool {
    source.len() > 0 && occurrences(source, '*') <= 1 && target.len() > 0
}

/// Whether a promotion header is accepted: it is absent, or a valid header name
/// that the transport does not control.
pub open spec fn is_valid_target(name: Option<Seq<char>>) -> bool {
    name matches Some(text) ==> is_header_name(text) && !is_transport_name(ascii_lower(text))
}

/// Aliases are accepted exactly when each of them is. The message for aliases that
/// are not is that of one of them.
pub proof fn law_accepted_aliases(aliases: Seq<(Seq<char>, String)>)
    ensures
        aliases_fault(aliases) is None <==> forall|i: int|
            0 <= i < aliases.len() ==> is_valid_alias(
                (#[trigger] aliases[i]).0,
                aliases[i].1@,
            ),
        aliases_fault(aliases) is Some ==> exists|i: int|
            0 <= i < aliases.len() && #[trigger] alias_fault(aliases[i].0, aliases[i].1@)
                == aliases_fault(aliases),
    decreases aliases.len(),
{
    if aliases.len() > 0 {
        let rest = aliases.drop_first();
        law_accepted_aliases(rest);
        if alias_fault(aliases[0].0, aliases[0].1@) is None {
            if aliases_fault(rest) is None {
                assert forall|i: int| 0 <= i < aliases.len() implies is_valid_alias(
                    (#[trigger] aliases[i]).0,
                    aliases[i].1@,
                ) by {
                    if i > 0 {
                        assert(aliases[i] == rest[i - 1]);
                    }
                }
            } else {
                let i = choose|i: int|
                    0 <= i < rest.len() && #[trigger] alias_fault(rest[i].0, rest[i].1@)
                        == aliases_fault(rest);
                assert(rest[i] == aliases[i + 1]);
                assert(alias_fault(aliases[i + 1].0, aliases[i + 1].1@) == aliases_fault(aliases));
            }
        } else {
            assert(!is_valid_alias(aliases[0].0, aliases[0].1@));
        }
    }
}

/// The order in which aliases come does not decide whether they are accepted.
pub proof fn law_alias_order_does_not_matter(
    a: Seq<(Seq<char>, String)>,
    b: Seq<(Seq<char>, String)>,
)
    requires
        a.to_multiset() == b.to_multiset(),
    ensures
        aliases_fault(a) is None <==> aliases_fault(b) is None,
{
    broadcast use vstd::seq_lib::group_to_multiset_ensures;

    law_accepted_aliases(a);
    law_accepted_aliases(b);
    assert forall|x: (Seq<char>, String)| a.contains(x) == b.contains(x) by {
        assert(a.contains(x) <==> a.to_multiset().count(x) > 0);
        assert(b.contains(x) <==> b.to_multiset().count(x) > 0);
    }
    if aliases_fault(a) is None {
        assert forall|i: int| 0 <= i < b.len() implies is_valid_alias(
            (#[trigger] b[i]).0,
            b[i].1@,
        ) by {
            assert(b.contains(b[i]));
            assert(a.contains(b[i]));
        }
    }
    if aliases_fault(b) is None {
        assert forall|i: int| 0 <= i < a.len() implies is_valid_alias(
            (#[trigger] a[i]).0,
            a[i].1@,
        ) by {
            assert(a.contains(a[i]));
            assert(b.contains(a[i]));
        }
    }
}

/// Header names are accepted exactly when each is, and when the two are not the
/// same name in whatever case.
pub proof fn law_accepted_headers(effective: Option<Seq<char>>, original: Option<Seq<char>>)
    ensures
        headers_fault(effective, original) is None <==> {
            &&& is_valid_target(effective)
            &&& is_valid_target(original)
            &&& (effective is Some && original is Some ==> ascii_lower(effective->Some_0)
                != ascii_lower(original->Some_0))
        },
{
    if let Some(text) = effective {
        lemma_ascii_lower_idempotent(text);
    }
    if let Some(text) = original {
        lemma_ascii_lower_idempotent(text);
    }
}

/// A configuration is accepted exactly when it names a model or an alias, its
/// default model is not blank, and its aliases and header names are accepted.
pub proof fn law_accepted_configs(cfg: ModelRewriteConfig)
    ensures
        config_fault(cfg) is None <==> {
            &&& cfg.default_model is Some || cfg.model_aliases@.len() > 0
            &&& (cfg.default_model matches Some(model) ==> !is_blank(model@))
            &&& aliases_fault(cfg.model_aliases@) is None
            &&& headers_fault(
                option_text(cfg.headers.effective_model),
                option_text(cfg.headers.original_model),
            ) is None
        },
{
}

/// Absent header names are always accepted, so promotion can be turned off for
/// one model value or for both.
pub proof fn law_absent_headers_are_accepted(name: Option<Seq<char>>)
    ensures
        headers_fault(None, None) is None,
        headers_fault(name, None) == header_fault("effective_model"@, name),
        headers_fault(None, name) == header_fault("original_model"@, name),
{
}

/// The default header names are accepted.
pub proof fn law_default_headers_are_accepted()
    ensures
        headers_fault(
            Some("x-praxis-ai-effective-model"@),
            Some("x-praxis-ai-original-model"@),
        ) is None,
{
    let effective = "x-praxis-ai-effective-model"@;
    let original = "x-praxis-ai-original-model"@;
    reveal_strlit("x-praxis-ai-");
    reveal_strlit("x-praxis-ai-effective-model");
    reveal_strlit("x-praxis-ai-original-model");
    assert(is_header_name(effective));
    assert(is_header_name(original));
    assert(ascii_lower(effective) =~= effective);
    assert(ascii_lower(original) =~= original);
    assert(effective.subrange(0, 12) =~= "x-praxis-ai-"@);
    assert(original.subrange(0, 12) =~= "x-praxis-ai-"@);
    assert(has_prefix(effective, "x-praxis-ai-"@) && has_prefix(original, "x-praxis-ai-"@));
    law_ai_fact_namespaces_are_safe(effective);
    law_ai_fact_namespaces_are_safe(original);
    assert(effective.len() != original.len());
    law_accepted_headers(Some(effective), Some(original));
}

/// Every header that promotion accepts, a model value may be promoted to.
pub proof fn law_promotion_headers_are_accepted(
    filter: Seq<char>,
    promoted: Seq<char>,
    field: Seq<char>,
    name: Option<Seq<char>>,
)
    requires
        promotion_header_fault(filter, promoted, name) is None,
    ensures
        header_fault(field, name) is None,
{
    if let Some(text) = name {
        lemma_ascii_lower_idempotent(text);
        law_transport_and_credential_headers_are_unsafe(ascii_lower(text));
    }
}

/// An alias is accepted exactly when its source and its target are not empty and no
/// two places of the source hold a wildcard.
pub proof fn law_accepted_alias(source: Seq<char>, target: Seq<char>)
    ensures
        alias_fault(source, target) is None <==> {
            &&& source.len() > 0
            &&& target.len() > 0
            &&& forall|i: int, j: int|
                0 <= i < j < source.len() ==> !(#[trigger] source[i] == '*' && #[trigger] source[j]
                    == '*')
        },
{
    law_occurrence_places(source, '*');
}

/// An alias source with a single wildcard, wherever it stands, is accepted.
pub proof fn law_single_wildcard_is_accepted(
    before: Seq<char>,
    after: Seq<char>,
    target: Seq<char>,
)
    requires
        !before.contains('*'),
        !after.contains('*'),
        target.len() > 0,
    ensures
        alias_fault(before + seq!['*'] + after, target) is None,
{
    let source = before + seq!['*'] + after;
    assert forall|i: int, j: int| 0 <= i < j < source.len() implies !(#[trigger] source[i] == '*'
        && #[trigger] source[j] == '*') by {
        if i < before.len() {
            assert(before.contains(before[i]));
        } else {
            let k = j - before.len() - 1;
            assert(source[j] == after[k]);
            assert(after.contains(after[k]));
        }
    }
    law_accepted_alias(source, target);
}

/// A rejected alias is told why, an empty source before its wildcards and these
/// before an empty target.
pub proof fn law_alias_messages(source: Seq<char>, target: Seq<char>)
    ensures
        source.len() == 0 ==> alias_fault(source, target) == Some(
            "openai_responses_model_rewrite: alias source name must not be empty"@,
        ),
        (exists|i: int, j: int|
            0 <= i < j < source.len() && #[trigger] source[i] == '*' && #[trigger] source[j] == '*')
            ==> alias_fault(source, target) == Some(
            "openai_responses_model_rewrite: alias source pattern '"@ + source
                + "' must contain at most one '*'"@,
        ),
        target.len() == 0 && alias_fault(source, seq!['*']) is None ==> alias_fault(source, target)
            == Some(
            "openai_responses_model_rewrite: alias target for '"@ + source + "' must not be empty"@,
        ),
{
    law_occurrence_places(source, '*');
}

/// Of several aliases the first that is rejected gives the message.
pub proof fn law_first_faulty_alias(aliases: Seq<(Seq<char>, String)>, at: int)
    requires
        0 <= at < aliases.len(),
        alias_fault(aliases[at].0, aliases[at].1@) is Some,
        forall|i: int|
            0 <= i < at ==> alias_fault((#[trigger] aliases[i]).0, aliases[i].1@) is None,
    ensures
        aliases_fault(aliases) == alias_fault(aliases[at].0, aliases[at].1@),
    decreases aliases.len(),
{
    if at > 0 {
        let rest = aliases.drop_first();
        assert(alias_fault(aliases[0].0, aliases[0].1@) is None);
        assert forall|i: int| 0 <= i < at - 1 implies alias_fault(
            (#[trigger] rest[i]).0,
            rest[i].1@,
        ) is None by {
            assert(rest[i] == aliases[i + 1]);
        }
        law_first_faulty_alias(rest, at - 1);
    }
}

/// Aliases are accepted exactly when each is accepted by itself.
pub proof fn law_each_alias_is_accepted(aliases: Seq<(Seq<char>, String)>)
    ensures
        aliases_fault(aliases) is None <==> forall|i: int|
            0 <= i < aliases.len() ==> alias_fault((#[trigger] aliases[i]).0, aliases[i].1@) is None,
{
    law_accepted_aliases(aliases);
    if aliases_fault(aliases) is None {
        assert forall|i: int| 0 <= i < aliases.len() implies alias_fault(
            (#[trigger] aliases[i]).0,
            aliases[i].1@,
        ) is None by {
            assert(is_valid_alias(aliases[i].0, aliases[i].1@));
        }
    } else {
        let i = choose|i: int|
            0 <= i < aliases.len() && #[trigger] alias_fault(aliases[i].0, aliases[i].1@)
                == aliases_fault(aliases);
        assert(alias_fault(aliases[i].0, aliases[i].1@) is Some);
    }
}

/// A header name is accepted exactly when it is absent, or valid and not one that
/// the transport controls. A rejected one is told why, an empty name before one
/// that is not valid and this before one that the transport controls.
pub proof fn law_header_messages(field: Seq<char>, name: Seq<char>)
    ensures
        header_fault(field, None) is None,
        header_fault(field, Some(name)) is None <==> is_header_name(name) && !is_transport_name(
            ascii_lower(name),
        ),
        name.len() == 0 ==> header_fault(field, Some(name)) == Some(
            "openai_responses_model_rewrite: '"@ + field + "' header name must not be empty"@,
        ),
        name.len() > 0 && !is_header_name(name) ==> header_fault(field, Some(name)) == Some(
            "openai_responses_model_rewrite: '"@ + field
                + "' header name is not a valid HTTP header name"@,
        ),
        is_header_name(name) && is_transport_name(ascii_lower(name)) ==> header_fault(
            field,
            Some(name),
        ) == Some(
            "openai_responses_model_rewrite: '"@ + field
                + "' must not use transport or credential header '"@ + ascii_lower(name) + "'"@,
        ),
        is_transport_name(ascii_lower(name)) ==> transport_fault(field, name) == Some(
            "openai_responses_model_rewrite: '"@ + field
                + "' must not use transport or credential header '"@ + name + "'"@,
        ),
        !is_transport_name(ascii_lower(name)) ==> transport_fault(field, name) is None,
{
    lemma_ascii_lower_idempotent(name);
}

/// Two header names are rejected together exactly when both are given and differ in
/// case at most.
pub proof fn law_duplicate_headers(effective: Option<Seq<char>>, original: Option<Seq<char>>)
    ensures
        duplicate_fault(effective, original) is Some <==> effective is Some && original is Some
            && ascii_lower(effective->Some_0) == ascii_lower(original->Some_0),
        duplicate_fault(effective, original) is Some ==> duplicate_fault(effective, original)
            == Some(
            "openai_responses_model_rewrite: 'effective_model' and 'original_model' must not use the same header name"@,
        ),
{
}

/// Of the faults of two header names, that of the effective model's comes first,
/// then that of the original model's, then that they are the same.
pub proof fn law_header_fault_order(effective: Option<Seq<char>>, original: Option<Seq<char>>)
    ensures
        header_fault("effective_model"@, effective) is Some ==> headers_fault(effective, original)
            == header_fault("effective_model"@, effective),
        header_fault("effective_model"@, effective) is None && header_fault(
            "original_model"@,
            original,
        ) is Some ==> headers_fault(effective, original) == header_fault(
            "original_model"@,
            original,
        ),
        header_fault("effective_model"@, effective) is None && header_fault(
            "original_model"@,
            original,
        ) is None ==> headers_fault(effective, original) == duplicate_fault(effective, original),
{
}

/// Of the faults of a configuration, that it configures nothing comes first, then a
/// blank default model, then its aliases, then its header names.
pub proof fn law_config_fault_order(cfg: ModelRewriteConfig)
    ensures
        cfg.default_model is None && cfg.model_aliases@.len() == 0 ==> config_fault(cfg) == Some(
            "openai_responses_model_rewrite: at least one of 'default_model' or 'model_aliases' must be configured"@,
        ),
        cfg.default_model is Some && is_blank(cfg.default_model->Some_0@) ==> config_fault(cfg)
            == Some("openai_responses_model_rewrite: 'default_model' must not be empty"@),
        cfg.default_model is Some && !is_blank(cfg.default_model->Some_0@) || cfg.default_model
            is None && cfg.model_aliases@.len() > 0 ==> config_fault(cfg) == if aliases_fault(
            cfg.model_aliases@,
        ) is Some {
            aliases_fault(cfg.model_aliases@)
        } else {
            headers_fault(
                option_text(cfg.headers.effective_model),
                option_text(cfg.headers.original_model),
            )
        },
{
}

} // verus!
