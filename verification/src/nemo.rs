//! `NeMo` Guardrails provider: asks `/v1/guardrail/checks` about messages and
//! turns the answer into a verdict.
//!
//! The network exchange happens outside. [`NemoProvider::begin`] and
//! [`NemoProvider::advance`] say what to do next, given what came back; every
//! failure on the way ends the evaluation with an error, never with a pass.
use vstd::prelude::*;
use vstd::string::*;
use vstd::utf8::encode_utf8;

use crate::error::{reports, FilterError};
use crate::json::{get_text, member_text, JsonValue};
use crate::operation::OpenAiHttpMethod;
use crate::string_map::{distinct_keys, lookup, StringMap};
use crate::text::{
    decimal, decimal_string, join_strs, joined, lemma_sorted_is_ordered,
    lemma_sorted_of_rearranged, lex_le, sort_strs, sorted, str_eq, str_texts,
};

verus! {

/// Default timeout for `NeMo` HTTP calls (10 seconds).
pub const DEFAULT_TIMEOUT_MS: u64 = 10_000;

/// Maximum response body size accepted from `NeMo` (1 MiB).
pub const MAX_RESPONSE_SIZE: usize = 1024 * 1024;

// -----------------------------------------------------------------------------
// Configuration
// -----------------------------------------------------------------------------

/// `NeMo`-specific configuration fields.
#[derive(Debug)]
pub struct NemoConfig {
    /// `NeMo` endpoint URL.
    pub endpoint: String,
    /// Model name sent in each request. Absent means an empty one.
    pub model: Option<String>,
    /// Per-request timeout in milliseconds. Absent means [`DEFAULT_TIMEOUT_MS`].
    pub timeout_ms: Option<u64>,
}

/// The timeout of a configuration that gives none.
pub fn default_timeout_ms() -> (timeout_ms: u64)
    ensures
        timeout_ms == DEFAULT_TIMEOUT_MS,
{
    DEFAULT_TIMEOUT_MS
}

/// The model of a configuration: an empty one where none is given.
pub open spec fn configured_model(config: NemoConfig) -> Seq<char> {
    match config.model {
        Some(model) => model@,
        None => Seq::empty(),
    }
}

/// The timeout of a configuration: the default where none is given.
pub open spec fn configured_timeout(config: NemoConfig) -> u64 {
    match config.timeout_ms {
        Some(timeout_ms) => timeout_ms,
        None => DEFAULT_TIMEOUT_MS,
    }
}

/// `NeMo` Guardrails provider. `C` is the client that callouts go through.
#[derive(Debug)]
pub struct NemoProvider<C> {
    client: C,
    endpoint: String,
    model: String,
    timeout_ms: u64,
}

/// The message for which a configuration is rejected, if it is. `config` is the
/// parsed configuration or why it could not be parsed, and `target` the outcome
/// of checking the shape of its endpoint URL.
pub open spec fn provider_fault(
    config: Result<NemoConfig, String>,
    target: Result<(), FilterError>,
) -> Option<Seq<char>> {
    match config {
        Err(reason) => Some("ai_guardrails (nemo): "@ + reason@),
        Ok(settings) => if settings.endpoint@.len() == 0 {
            Some("ai_guardrails (nemo): 'endpoint' must not be empty"@)
        } else if target is Err {
            Some(target->Err_0@)
        } else if configured_timeout(settings) == 0 {
            Some("ai_guardrails (nemo): 'timeout_ms' must be greater than zero"@)
        } else {
            None
        },
    }
}

impl<C> NemoProvider<C> {
    #[verifier::type_invariant]
    spec fn is_configured(self) -> bool {
        self.well_formed()
    }

    /// The client that callouts go through.
    pub closed spec fn callout_client(&self) -> C {
        self.client
    }

    /// The endpoint URL.
    pub closed spec fn endpoint(&self) -> Seq<char> {
        self.endpoint@
    }

    /// The model name sent in each request.
    pub closed spec fn model(&self) -> Seq<char> {
        self.model@
    }

    /// The timeout of each request in milliseconds.
    pub closed spec fn timeout_ms(&self) -> u64 {
        self.timeout_ms
    }

    /// What holds of every provider: it has an endpoint and gives each request
    /// some time.
    pub open spec fn well_formed(&self) -> bool {
        self.endpoint().len() > 0 && self.timeout_ms() > 0
    }

    /// Validate `NeMo`-specific config.
    ///
    /// `config` is the parsed configuration or the reason why it could not be
    /// parsed. `target` is the outcome of checking the shape of its endpoint URL,
    /// which counts only where there is an endpoint.
    ///
    /// # Errors
    ///
    /// Returns `FilterError` if the configuration is invalid.
    pub fn from_config(
        config: Result<NemoConfig, String>,
        target: Result<(), FilterError>,
        client: C,
    ) -> (result: Result<NemoProvider<C>, FilterError>)
        ensures
            match result {
                Ok(provider) => {
                    &&& provider_fault(config, target) is None
                    &&& provider.endpoint() == config->Ok_0.endpoint@
                    &&& provider.model() == configured_model(config->Ok_0)
                    &&& provider.timeout_ms() == configured_timeout(config->Ok_0)
                    &&& config->Ok_0.timeout_ms is Some ==> provider.timeout_ms()
                        == config->Ok_0.timeout_ms->Some_0
                    &&& provider.callout_client() == client
                    &&& provider.well_formed()
                },
                Err(error) => provider_fault(config, target) == Some(error@),
            },
    {
        match config {
            Err(reason) => {
                let mut message = "ai_guardrails (nemo): ".to_owned();
                message.append(reason.as_str());
                Err(FilterError::new(message))
            },
            Ok(settings) => {
                if settings.endpoint.as_str().is_empty() {
                    return Err(
                        FilterError::new(
                            "ai_guardrails (nemo): 'endpoint' must not be empty".to_owned(),
                        ),
                    );
                }
                if let Err(error) = target {
                    return Err(error);
                }
                let model = match settings.model {
                    Some(model) => model,
                    None => String::new(),
                };
                let timeout_ms: u64 = match settings.timeout_ms {
                    Some(timeout_ms) => timeout_ms,
                    None => default_timeout_ms(),
                };
                if timeout_ms == 0 {
                    return Err(
                        FilterError::new(
                            "ai_guardrails (nemo): 'timeout_ms' must be greater than zero".to_owned(),
                        ),
                    );
                }
                Ok(NemoProvider { client, endpoint: settings.endpoint, model, timeout_ms })
            },
        }
    }

    /// Return the client that callouts go through.
    pub fn client(&self) -> (client: &C)
        ensures
            *client == self.callout_client(),
    {
        &self.client
    }

    /// Return the validated timeout used for each provider callout, in
    /// milliseconds.
    pub fn callout_timeout(&self) -> (timeout_ms: u64)
        ensures
            timeout_ms == self.timeout_ms(),
            timeout_ms > 0,
    {
        proof {
            use_type_invariant(self);
        }
        self.timeout_ms
    }
}

// -----------------------------------------------------------------------------
// Request
// -----------------------------------------------------------------------------

/// `serde_json::Value`: a JSON value. Messages are carried through as such values
/// and are not looked into.
#[verifier::external_type_specification]
#[verifier::external_body]
pub struct ExJsonMessage(serde_json::Value);

/// The hexadecimal digit with the value `d`.
pub open spec fn hex_digit(d: nat) -> char {
    if d < 10 {
        ('0' as u32 + d) as char
    } else {
        ('a' as u32 + (d - 10)) as char
    }
}

/// A character inside a JSON string: the quote, the backslash and the control
/// characters are escaped, every other character stands for itself.
pub open spec fn json_char(c: char) -> Seq<char> {
    if c == '"' || c == '\\' {
        seq!['\\', c]
    } else if c as u32 == 0x08 {
        seq!['\\', 'b']
    } else if c as u32 == 0x09 {
        seq!['\\', 't']
    } else if c as u32 == 0x0a {
        seq!['\\', 'n']
    } else if c as u32 == 0x0c {
        seq!['\\', 'f']
    } else if c as u32 == 0x0d {
        seq!['\\', 'r']
    } else if (c as u32) < 0x20 {
        seq!['\\', 'u', '0', '0', hex_digit(c as nat / 16), hex_digit(c as nat % 16)]
    } else {
        seq![c]
    }
}

/// The characters of a text inside a JSON string.
pub open spec fn json_chars(text: Seq<char>) -> Seq<char>
    decreases text.len(),
{
    if text.len() == 0 {
        Seq::empty()
    } else {
        json_chars(text.drop_last()) + json_char(text.last())
    }
}

/// The JSON form of a string: its characters, escaped where they must be, between
/// quotes, in UTF-8.
pub open spec fn json_string(text: Seq<char>) -> Seq<u8> {
    encode_utf8(seq!['"'] + json_chars(text) + seq!['"'])
}

/// `serde_json::to_vec` on a string writes its JSON form. It escapes the quote, the
/// backslash and the control characters below the space, with a short form for
/// backspace, tab, line feed, form feed and carriage return, and leaves all else as
/// it is. Writing a string to memory does not fail.
#[verifier::external_body]
fn string_to_json(text: &str) -> (written: Result<Vec<u8>, String>)
    ensures
        written is Ok,
        written->Ok_0@ == json_string(text@),
{
    serde_json::to_vec(text).map_err(|error| error.to_string())
}

/// The JSON form of a message, as `serde_json` writes it.
pub uninterp spec fn json_message(message: serde_json::Value) -> Seq<u8>;

/// `serde_json::to_vec` on a JSON value writes its JSON form, which depends on the
/// value alone. The keys of its objects are strings and its numbers can be written,
/// so writing it to memory does not fail.
#[verifier::external_body]
fn message_to_json(message: &serde_json::Value) -> (written: Result<Vec<u8>, String>)
    ensures
        written is Ok,
        written->Ok_0@ == json_message(*message),
{
    serde_json::to_vec(message).map_err(|error| error.to_string())
}

/// The JSON forms of messages.
pub open spec fn json_messages(messages: Seq<serde_json::Value>) -> Seq<Seq<u8>> {
    messages.map_values(|message: serde_json::Value| json_message(message))
}

/// The contents of byte vectors.
pub open spec fn contents(parts: Seq<Vec<u8>>) -> Seq<Seq<u8>> {
    parts.map_values(|part: Vec<u8>| part@)
}

/// Write messages as JSON.
fn write_messages(messages: &Vec<serde_json::Value>) -> (written: Result<Vec<Vec<u8>>, String>)
    ensures
        written is Ok,
        contents(written->Ok_0@) == json_messages(messages@),
{
    let mut parts: Vec<Vec<u8>> = Vec::new();
    for i in 0..messages.len()
        invariant
            contents(parts@) == json_messages(messages@).take(i as int),
    {
        let ghost before = parts@;
        let bytes = message_to_json(&messages[i])?;
        parts.push(bytes);
        assert(contents(parts@) =~= contents(before).push(bytes@));
        assert(json_messages(messages@).take(i + 1) =~= json_messages(messages@).take(
            i as int,
        ).push(bytes@));
    }
    assert(json_messages(messages@).take(messages.len() as int) =~= json_messages(messages@));
    Ok(parts)
}

/// Byte strings one after the other, with commas between neighbours.
pub open spec fn comma_separated(parts: Seq<Seq<u8>>) -> Seq<u8>
    decreases parts.len(),
{
    if parts.len() == 0 {
        Seq::empty()
    } else if parts.len() == 1 {
        parts[0]
    } else {
        comma_separated(parts.drop_last()) + ",".spec_bytes() + parts.last()
    }
}

/// The request payload: an object with the model and the messages, each given as
/// JSON.
pub open spec fn payload(model: Seq<u8>, messages: Seq<Seq<u8>>) -> Seq<u8> {
    "{\"model\":".spec_bytes() + model + ",\"messages\":[".spec_bytes() + comma_separated(messages)
        + "]}".spec_bytes()
}

/// Append bytes to a buffer.
fn append_bytes(buffer: &mut Vec<u8>, bytes: &[u8])
    ensures
        final(buffer)@ == old(buffer)@ + bytes@,
{
    buffer.extend_from_slice(bytes);
}

/// Put a model and messages, each given as JSON, into a request payload.
pub fn frame_payload(model: &[u8], messages: &Vec<Vec<u8>>) -> (body: Vec<u8>)
    ensures
        body@ == payload(model@, contents(messages@)),
{
    let mut body: Vec<u8> = Vec::new();
    append_bytes(&mut body, "{\"model\":".as_bytes());
    append_bytes(&mut body, model);
    append_bytes(&mut body, ",\"messages\":[".as_bytes());
    let ghost head = body@;
    let ghost parts = contents(messages@);
    assert(comma_separated(parts.take(0)) =~= Seq::empty());
    for i in 0..messages.len()
        invariant
            parts == contents(messages@),
            body@ == head + comma_separated(parts.take(i as int)),
    {
        assert(parts.take(i + 1).drop_last() =~= parts.take(i as int));
        if i > 0 {
            append_bytes(&mut body, ",".as_bytes());
        }
        append_bytes(&mut body, messages[i].as_slice());
        assert(body@ =~= head + comma_separated(parts.take(i + 1)));
    }
    assert(parts.take(messages.len() as int) =~= parts);
    append_bytes(&mut body, "]}".as_bytes());
    assert("{\"model\":".spec_bytes() =~= Seq::<u8>::empty() + "{\"model\":".spec_bytes());
    assert(body@ =~= payload(model@, parts));
    body
}

/// An outbound HTTP request.
#[derive(Debug)]
pub struct CalloutRequest {
    /// HTTP method.
    pub method: OpenAiHttpMethod,
    /// Path, which the endpoint URL takes the place of.
    pub path: &'static str,
    /// Header names and values.
    pub headers: Vec<(&'static str, &'static str)>,
    /// Body.
    pub body: Vec<u8>,
}

/// The request that carries a model and messages, these given as JSON.
pub open spec fn is_request_for(
    request: CalloutRequest,
    model: Seq<char>,
    messages: Seq<Seq<u8>>,
) -> bool {
    &&& request.method == OpenAiHttpMethod::Post
    &&& request.path@ == "/"@
    &&& request.headers@.len() == 2
    &&& request.headers@[0].0@ == "content-type"@ && request.headers@[0].1@ == "application/json"@
    &&& request.headers@[1].0@ == "accept"@ && request.headers@[1].1@ == "application/json"@
    &&& request.body@ == payload(json_string(model), messages)
}

/// The message for messages that could not be written as JSON.
pub open spec fn serialize_fault(reason: Seq<char>) -> Seq<char> {
    "ai_guardrails (nemo): failed to serialize request: "@ + reason
}

/// An error for a payload that could not be written as JSON.
fn serialize_error(reason: &str) -> (error: FilterError)
    ensures
        error@ == serialize_fault(reason@),
{
    let mut message = "ai_guardrails (nemo): failed to serialize request: ".to_owned();
    message.append(reason);
    FilterError::new(message)
}

/// Build the outbound `NeMo` JSON callout. Messages can always be written, so there
/// always is one.
pub fn build_request(model: &str, messages: Vec<serde_json::Value>) -> (result: Result<
    CalloutRequest,
    FilterError,
>)
    ensures
        result is Ok,
        is_request_for(result->Ok_0, model@, json_messages(messages@)),
{
    request_with(model, write_messages(&messages))
}

/// Build the outbound `NeMo` JSON callout with messages that were written as JSON,
/// or could not be, for a reason.
///
/// # Errors
///
/// Returns [`FilterError`] when there are no messages to send.
pub fn request_with(model: &str, written: Result<Vec<Vec<u8>>, String>) -> (result: Result<
    CalloutRequest,
    FilterError,
>)
    ensures
        match (written, result) {
            (Ok(parts), Ok(request)) => is_request_for(request, model@, contents(parts@)),
            (Err(reason), Err(error)) => error@ == serialize_fault(reason@),
            _ => false,
        },
{
    let parts = match written {
        Ok(parts) => parts,
        Err(reason) => return Err(serialize_error(reason.as_str())),
    };
    let model_json = match string_to_json(model) {
        Ok(bytes) => bytes,
        Err(reason) => return Err(serialize_error(reason.as_str())),
    };
    let mut headers: Vec<(&'static str, &'static str)> = Vec::new();
    headers.push(("content-type", "application/json"));
    headers.push(("accept", "application/json"));
    Ok(
        CalloutRequest {
            method: OpenAiHttpMethod::Post,
            path: "/",
            headers,
            body: frame_payload(model_json.as_slice(), &parts),
        },
    )
}

// -----------------------------------------------------------------------------
// Callout
// -----------------------------------------------------------------------------

/// Why the endpoint could not be prepared as a target.
#[derive(Debug)]
pub enum TargetFailure {
    /// The endpoint is not a usable URL; carries the diagnostic.
    InvalidTarget(String),
    /// The host could not be resolved; carries the diagnostic.
    Resolve(String),
    /// The address policy rejected the resolved addresses; carries its reason.
    PolicyRejected(String),
    /// The deadline passed.
    DeadlineExceeded,
    /// Anything else.
    Other,
}

/// The message for a target that could not be prepared.
pub open spec fn target_fault(failure: TargetFailure) -> Seq<char> {
    match failure {
        TargetFailure::InvalidTarget(reason) => "ai_guardrails (nemo): invalid endpoint URL: "@
            + reason@,
        TargetFailure::Resolve(reason) => "ai_guardrails (nemo): failed to resolve endpoint: "@
            + reason@,
        TargetFailure::PolicyRejected(reason) =>
            "ai_guardrails (nemo): endpoint address policy rejected target: "@ + reason@,
        TargetFailure::DeadlineExceeded =>
            "ai_guardrails (nemo): endpoint preparation deadline exceeded"@,
        TargetFailure::Other => "ai_guardrails (nemo): endpoint preparation failed"@,
    }
}

/// Map URL target preparation failures to filter errors.
pub fn map_url_target_error(failure: &TargetFailure) -> (error: FilterError)
    ensures
        error@ == target_fault(*failure),
{
    let message = match failure {
        TargetFailure::InvalidTarget(reason) => {
            let mut text = "ai_guardrails (nemo): invalid endpoint URL: ".to_owned();
            text.append(reason.as_str());
            text
        },
        TargetFailure::Resolve(reason) => {
            let mut text = "ai_guardrails (nemo): failed to resolve endpoint: ".to_owned();
            text.append(reason.as_str());
            text
        },
        TargetFailure::PolicyRejected(reason) => {
            let mut text =
                "ai_guardrails (nemo): endpoint address policy rejected target: ".to_owned();
            text.append(reason.as_str());
            text
        },
        TargetFailure::DeadlineExceeded => {
            "ai_guardrails (nemo): endpoint preparation deadline exceeded".to_owned()
        },
        TargetFailure::Other => "ai_guardrails (nemo): endpoint preparation failed".to_owned(),
    };
    FilterError::new(message)
}

/// A complete HTTP response.
#[derive(Debug)]
pub struct SubResponse {
    /// HTTP status code.
    pub status: u16,
    /// Body.
    pub body: Vec<u8>,
}

/// What a callout ended in.
#[derive(Debug)]
pub enum CalloutOutcome {
    /// A complete response.
    Buffered(SubResponse),
    /// A response whose body is still arriving.
    Streaming,
    /// A response over the size limit.
    ResponseTooLarge {
        /// Size that was seen, where it is known.
        actual: Option<usize>,
        /// Size limit.
        limit: usize,
    },
    /// Anything else.
    Other,
}

/// The message for which an outcome is rejected, if it is: only a complete
/// response is of use.
pub open spec fn outcome_fault(outcome: CalloutOutcome) -> Option<Seq<char>> {
    match outcome {
        CalloutOutcome::Buffered(_) => None,
        CalloutOutcome::Streaming => Some(
            "ai_guardrails (nemo): streaming NeMo responses are not supported"@,
        ),
        CalloutOutcome::ResponseTooLarge { actual, limit } => Some(
            "ai_guardrails (nemo): provider response exceeded size limit ("@ + (match actual {
                Some(size) => decimal(size as nat),
                None => "unknown"@,
            }) + " bytes, limit "@ + decimal(limit as nat) + " bytes)"@,
        ),
        CalloutOutcome::Other => Some(
            "ai_guardrails (nemo): unsupported provider response mode"@,
        ),
    }
}

/// Take the complete response out of a callout's outcome.
///
/// # Errors
///
/// Returns [`FilterError`] for every outcome that is not a complete response.
pub fn accept_outcome(outcome: CalloutOutcome) -> (result: Result<SubResponse, FilterError>)
    ensures
        match result {
            Ok(response) => outcome == CalloutOutcome::Buffered(response),
            Err(error) => outcome_fault(outcome) == Some(error@),
        },
{
    match outcome {
        CalloutOutcome::Buffered(response) => Ok(response),
        CalloutOutcome::Streaming => Err(
            FilterError::new(
                "ai_guardrails (nemo): streaming NeMo responses are not supported".to_owned(),
            ),
        ),
        CalloutOutcome::ResponseTooLarge { actual, limit } => {
            let size = match actual {
                Some(size) => decimal_string(size),
                None => "unknown".to_owned(),
            };
            let mut message =
                "ai_guardrails (nemo): provider response exceeded size limit (".to_owned();
            message.append(size.as_str());
            message.append(" bytes, limit ");
            message.append(decimal_string(limit).as_str());
            message.append(" bytes)");
            Err(FilterError::new(message))
        },
        CalloutOutcome::Other => Err(
            FilterError::new(
                "ai_guardrails (nemo): unsupported provider response mode".to_owned(),
            ),
        ),
    }
}

/// The message for which a response's status is rejected, if it is.
pub open spec fn status_fault(status: u16) -> Option<Seq<char>> {
    if 200 <= status < 300 {
        None
    } else {
        Some("ai_guardrails (nemo): provider returned HTTP status code "@ + decimal(status as nat))
    }
}

/// Reject non-2xx HTTP responses from the provider.
pub fn ensure_success_status(response: &SubResponse) -> (result: Result<(), FilterError>)
    ensures
        reports(result, status_fault(response.status)),
{
    if !(200 <= response.status && response.status < 300) {
        let mut message = "ai_guardrails (nemo): provider returned HTTP status code ".to_owned();
        message.append(decimal_string(response.status as usize).as_str());
        return Err(FilterError::new(message));
    }
    Ok(())
}

// -----------------------------------------------------------------------------
// Verdict
// -----------------------------------------------------------------------------

/// Incoming response payload for `NeMo`.
#[derive(Debug)]
pub struct NemoResponse {
    /// Overall status: `"success"`, `"blocked"`, or `"error"`.
    pub status: String,
    /// Per-rail evaluation results. The names of rails whose `status` is
    /// `"blocked"` are joined to form the [`GuardResult::Block`] reason.
    pub rails_status: Option<JsonValue>,
    /// Error details returned when `status` is `"error"`.
    /// Contains `"error"` and optionally `"details"` keys.
    pub guardrails_data: Option<JsonValue>,
}

/// Verdict of a guardrail provider.
#[derive(Debug)]
pub enum GuardResult {
    /// The messages may go on.
    Pass,
    /// The messages must not go on.
    Block {
        /// What blocked them.
        reason: String,
    },
}

/// A verdict, or why there is none, in plain text.
pub enum Verdict {
    /// The messages may go on.
    Pass,
    /// The messages must not go on, for a reason.
    Block(Seq<char>),
    /// There is no verdict, and the messages must not go on.
    Fail(Seq<char>),
}

/// Whether a result says what a verdict says.
pub open spec fn gives(result: Result<GuardResult, FilterError>, verdict: Verdict) -> bool {
    match (result, verdict) {
        (Ok(GuardResult::Pass), Verdict::Pass) => true,
        (Ok(GuardResult::Block { reason }), Verdict::Block(text)) => reason@ == text,
        (Err(error), Verdict::Fail(text)) => error@ == text,
        _ => false,
    }
}

/// Whether a rail's result says that it blocked.
pub open spec fn is_blocked(rail: JsonValue) -> bool {
    rail matches JsonValue::Object(members) && member_text(members@, "status"@) == Some("blocked"@)
}

/// The names of the rails that blocked, in the order of the rails.
pub open spec fn blocked_names(rails: Seq<(Seq<char>, JsonValue)>) -> Seq<Seq<char>>
    decreases rails.len(),
{
    if rails.len() == 0 {
        Seq::empty()
    } else {
        let before = blocked_names(rails.drop_last());
        if is_blocked(rails.last().1) {
            before.push(rails.last().0)
        } else {
            before
        }
    }
}

/// The names of the rails that blocked, in lexicographic order and joined with
/// commas. Nothing where there is no object of rails.
pub open spec fn block_reason(rails_status: Option<JsonValue>) -> Seq<char> {
    match rails_status {
        Some(JsonValue::Object(rails)) => joined(sorted(blocked_names(rails@)), ", "@),
        _ => Seq::empty(),
    }
}

/// The description of an error that `NeMo` reports.
pub open spec fn error_detail(data: Option<JsonValue>) -> Seq<char> {
    match data {
        Some(JsonValue::Object(members)) => {
            let error = match member_text(members@, "error"@) {
                Some(text) => text,
                None => "unknown error"@,
            };
            match member_text(members@, "details"@) {
                Some(details) => error + " ("@ + details + ")"@,
                None => error,
            }
        },
        _ => "no details available"@,
    }
}

/// The verdict of a response.
pub open spec fn response_verdict(nemo: NemoResponse) -> Verdict {
    if nemo.status@ == "success"@ {
        Verdict::Pass
    } else if nemo.status@ == "blocked"@ {
        Verdict::Block(block_reason(nemo.rails_status))
    } else if nemo.status@ == "error"@ {
        Verdict::Fail(
            "ai_guardrails (nemo): NeMo returned error status: "@ + error_detail(
                nemo.guardrails_data,
            ),
        )
    } else {
        Verdict::Fail("ai_guardrails (nemo): unknown status '"@ + nemo.status@ + "'"@)
    }
}

/// Map a deserialized [`NemoResponse`] to a [`GuardResult`].
///
/// The `/v1/guardrail/checks` endpoint returns three statuses:
/// - `"success"` - all rails passed
/// - `"blocked"` - at least one rail blocked the content
/// - `"error"` - `NeMo` internal processing error (fail-closed)
pub fn map_nemo_response(nemo: &NemoResponse) -> (result: Result<GuardResult, FilterError>)
    ensures
        gives(result, response_verdict(*nemo)),
{
    let status = nemo.status.as_str();
    proof {
        reveal_strlit("success");
        reveal_strlit("blocked");
        reveal_strlit("error");
        assert("success"@[0] != "blocked"@[0]);
    }
    if str_eq(status, "success") {
        Ok(GuardResult::Pass)
    } else if str_eq(status, "blocked") {
        let reason = blocked_rail_names(nemo.rails_status.as_ref());
        Ok(GuardResult::Block { reason })
    } else if str_eq(status, "error") {
        let detail = extract_error_detail(nemo.guardrails_data.as_ref());
        let mut message = "ai_guardrails (nemo): NeMo returned error status: ".to_owned();
        message.append(detail.as_str());
        Err(FilterError::new(message))
    } else {
        let mut message = "ai_guardrails (nemo): unknown status '".to_owned();
        message.append(status);
        message.append("'");
        Err(FilterError::new(message))
    }
}

/// The value behind an optional reference.
pub open spec fn value_of(value: Option<&JsonValue>) -> Option<JsonValue> {
    match value {
        Some(inner) => Some(*inner),
        None => None,
    }
}

/// Collect the names of all rails whose `status` is `"blocked"` from the
/// `rails_status` map and join them with `", "` in sorted order.
///
/// Returns an empty string if `rails_status` is absent or no rails are blocked.
pub fn blocked_rail_names(rails_status: Option<&JsonValue>) -> (names: String)
    ensures
        names@ == block_reason(value_of(rails_status)),
{
    let rails = match rails_status {
        Some(JsonValue::Object(rails)) => rails,
        _ => return String::new(),
    };
    let mut names: Vec<&str> = Vec::new();
    let count: usize = rails.len();
    assert(str_texts(names@) =~= blocked_names(rails@.take(0)));
    for i in 0..count
        invariant
            count == rails@.len(),
            str_texts(names@) == blocked_names(rails@.take(i as int)),
    {
        assert(rails@.take(i + 1).drop_last() =~= rails@.take(i as int));
        if says_blocked(rails.value_at(i)) {
            let ghost before = names@;
            names.push(rails.key_at(i));
            assert(str_texts(names@) =~= str_texts(before).push(rails@[i as int].0));
        }
    }
    assert(rails@.take(count as int) =~= rails@);
    join_strs(&sort_strs(&names), ", ")
}

/// Whether a rail's result says that it blocked.
fn says_blocked(rail: &JsonValue) -> (blocked: bool)
    ensures
        blocked == is_blocked(*rail),
{
    match rail.as_object() {
        Some(members) => match get_text(members, "status") {
            Some(status) => str_eq(status, "blocked"),
            None => false,
        },
        None => false,
    }
}

/// Extract a human-readable error string from the `guardrails_data` object
/// returned by `NeMo` when `status` is `"error"`.
///
/// Expected shape: `{"error": "...", "details": "..."}`.
pub fn extract_error_detail(data: Option<&JsonValue>) -> (detail: String)
    ensures
        detail@ == error_detail(value_of(data)),
{
    let members = match data {
        Some(JsonValue::Object(members)) => members,
        _ => return "no details available".to_owned(),
    };
    let error = match get_text(members, "error") {
        Some(text) => text,
        None => "unknown error",
    };
    let mut detail = error.to_owned();
    match get_text(members, "details") {
        Some(details) => {
            detail.append(" (");
            detail.append(details);
            detail.append(")");
            detail
        },
        None => detail,
    }
}

// -----------------------------------------------------------------------------
// Evaluation
// -----------------------------------------------------------------------------

/// What an evaluation is waiting for.
#[derive(Debug)]
pub enum Evaluation {
    /// The endpoint to be prepared as the target of a request.
    AwaitingTarget {
        /// The request.
        request: CalloutRequest,
    },
    /// The answer to the request.
    AwaitingAnswer,
    /// The answer's body to be parsed.
    AwaitingResponse,
}

/// What came back from outside.
#[derive(Debug)]
pub enum Event {
    /// The endpoint was prepared, with a number of addresses, or could not be.
    Target(Result<usize, TargetFailure>),
    /// The outbound chain was run, or failed.
    Answer(Result<CalloutOutcome, FilterError>),
    /// The answer's body was parsed, or could not be, for a reason.
    Response(Result<NemoResponse, String>),
}

/// What to do outside next.
#[derive(Debug)]
pub enum Action {
    /// Resolve the endpoint and check its addresses.
    PrepareTarget {
        /// Endpoint URL.
        endpoint: String,
        /// Whether the address policy admits private addresses.
        allow_private: bool,
    },
    /// Run the request through the outbound chain, to the prepared target.
    Send {
        /// The request.
        request: CalloutRequest,
        /// Whether to stage the target's further addresses for fallback.
        stage_fallback: bool,
        /// Size limit of the response body.
        max_response_size: usize,
        /// Timeout in milliseconds.
        timeout_ms: u64,
    },
    /// Parse a response body.
    Parse {
        /// The body.
        body: Vec<u8>,
    },
}

/// How an evaluation goes on.
#[derive(Debug)]
pub enum Next {
    /// Do something outside, then go on with what came back.
    Continue(Evaluation, Action),
    /// The evaluation is over.
    Finish(Result<GuardResult, FilterError>),
}

/// Whether an event is what an evaluation is waiting for.
pub open spec fn awaits(state: Evaluation, event: Event) -> bool {
    match state {
        Evaluation::AwaitingTarget { .. } => event is Target,
        Evaluation::AwaitingAnswer => event is Answer,
        Evaluation::AwaitingResponse => event is Response,
    }
}

/// Whether `event` is what an evaluation in `state` is waiting for.
pub fn is_awaited(state: &Evaluation, event: &Event) -> (awaited: bool)
    ensures
        awaited == awaits(*state, *event),
{
    match (state, event) {
        (Evaluation::AwaitingTarget { .. }, Event::Target(_)) => true,
        (Evaluation::AwaitingAnswer, Event::Answer(_)) => true,
        (Evaluation::AwaitingResponse, Event::Response(_)) => true,
        _ => false,
    }
}

/// The verdict on an answer's body, once it was parsed or could not be.
pub open spec fn parsed_verdict(parsed: Result<NemoResponse, String>) -> Verdict {
    match parsed {
        Ok(nemo) => response_verdict(nemo),
        Err(reason) => Verdict::Fail(
            "ai_guardrails (nemo): failed to parse response: "@ + reason@,
        ),
    }
}

/// Whether an evaluation is over with an error that carries a message.
pub open spec fn fails_with(next: Next, message: Seq<char>) -> bool {
    next matches Next::Finish(Err(error)) && error@ == message
}

impl<C> NemoProvider<C> {
    /// Whether an evaluation of messages, given as JSON, starts as it should: with
    /// the request ready and the endpoint to be prepared.
    pub open spec fn is_first(
        &self,
        messages: Seq<Seq<u8>>,
        allow_private: bool,
        next: Next,
    ) -> bool {
        &&& next matches Next::Continue(
            Evaluation::AwaitingTarget { request },
            Action::PrepareTarget { endpoint, allow_private: policy },
        )
        &&& is_request_for(request, self.model(), messages)
        &&& endpoint@ == self.endpoint()
        &&& policy == allow_private
    }

    /// Whether an evaluation goes on from an event as it should.
    pub open spec fn is_next(&self, state: Evaluation, event: Event, next: Next) -> bool {
        match (state, event) {
            (
                Evaluation::AwaitingTarget { request },
                Event::Target(Ok(addresses)),
            ) => next == Next::Continue(
                Evaluation::AwaitingAnswer,
                Action::Send {
                    request,
                    stage_fallback: addresses > 1,
                    max_response_size: MAX_RESPONSE_SIZE,
                    timeout_ms: self.timeout_ms(),
                },
            ),
            (Evaluation::AwaitingTarget { .. }, Event::Target(Err(failure))) => fails_with(
                next,
                target_fault(failure),
            ),
            (Evaluation::AwaitingAnswer, Event::Answer(Ok(outcome))) => match outcome {
                CalloutOutcome::Buffered(response) => match status_fault(response.status) {
                    Some(message) => fails_with(next, message),
                    None => next == Next::Continue(
                        Evaluation::AwaitingResponse,
                        Action::Parse { body: response.body },
                    ),
                },
                _ => fails_with(next, outcome_fault(outcome)->Some_0),
            },
            (Evaluation::AwaitingAnswer, Event::Answer(Err(error))) => next == Next::Finish(
                Err(error),
            ),
            (Evaluation::AwaitingResponse, Event::Response(parsed)) => next matches Next::Finish(
                result,
            ) && gives(result, parsed_verdict(parsed)),
            _ => false,
        }
    }

    /// Start an evaluation of messages. `allow_private` says whether the outbound
    /// chain admits private addresses.
    pub fn begin(&self, messages: Vec<serde_json::Value>, allow_private: bool) -> (next: Next)
        ensures
            self.is_first(json_messages(messages@), allow_private, next),
            self.well_formed(),
    {
        proof {
            use_type_invariant(self);
        }
        match build_request(self.model.as_str(), messages) {
            Ok(request) => Next::Continue(
                Evaluation::AwaitingTarget { request },
                Action::PrepareTarget { endpoint: self.endpoint.clone(), allow_private },
            ),
            Err(error) => Next::Finish(Err(error)),
        }
    }

    /// Go on with what came back from outside.
    pub fn advance(&self, state: Evaluation, event: Event) -> (next: Next)
        requires
            awaits(state, event),
        ensures
            self.is_next(state, event, next),
            self.well_formed(),
    {
        proof {
            use_type_invariant(self);
        }
        match (state, event) {
            (Evaluation::AwaitingTarget { request }, Event::Target(Ok(addresses))) => {
                Next::Continue(
                    Evaluation::AwaitingAnswer,
                    Action::Send {
                        request,
                        stage_fallback: addresses > 1,
                        max_response_size: MAX_RESPONSE_SIZE,
                        timeout_ms: self.timeout_ms,
                    },
                )
            },
            (Evaluation::AwaitingTarget { .. }, Event::Target(Err(failure))) => {
                Next::Finish(Err(map_url_target_error(&failure)))
            },
            (Evaluation::AwaitingAnswer, Event::Answer(Ok(outcome))) => {
                let response = match accept_outcome(outcome) {
                    Ok(response) => response,
                    Err(error) => return Next::Finish(Err(error)),
                };
                match ensure_success_status(&response) {
                    Ok(()) => Next::Continue(
                        Evaluation::AwaitingResponse,
                        Action::Parse { body: response.body },
                    ),
                    Err(error) => Next::Finish(Err(error)),
                }
            },
            (Evaluation::AwaitingAnswer, Event::Answer(Err(error))) => Next::Finish(Err(error)),
            (Evaluation::AwaitingResponse, Event::Response(parsed)) => Next::Finish(
                conclude(parsed),
            ),
            _ => vstd::pervasive::unreached(),
        }
    }
}

/// Turn a parsed response into a result.
///
/// # Errors
///
/// Returns [`FilterError`] for a body that could not be parsed, and for a
/// response that holds no verdict.
pub fn conclude(parsed: Result<NemoResponse, String>) -> (result: Result<GuardResult, FilterError>)
    ensures
        gives(result, parsed_verdict(parsed)),
{
    match parsed {
        Ok(nemo) => map_nemo_response(&nemo),
        Err(reason) => {
            let mut message = "ai_guardrails (nemo): failed to parse response: ".to_owned();
            message.append(reason.as_str());
            Err(FilterError::new(message))
        },
    }
}

// -----------------------------------------------------------------------------
// Laws
// -----------------------------------------------------------------------------

/// The messages pass only where the response says so outright. A response that
/// says they are blocked blocks them, and every other one is an error.
pub proof fn law_response_outcomes(nemo: NemoResponse, result: Result<GuardResult, FilterError>)
    requires
        gives(result, response_verdict(nemo)),
    ensures
        (result matches Ok(GuardResult::Pass)) <==> nemo.status@ == "success"@,
        (result matches Ok(GuardResult::Block { .. })) <==> nemo.status@ == "blocked"@,
        result is Err <==> nemo.status@ != "success"@ && nemo.status@ != "blocked"@,
{
    reveal_strlit("success");
    reveal_strlit("blocked");
    assert("success"@[0] != "blocked"@[0]);
}

/// A name is among those of the rails that blocked exactly when a rail of that
/// name did.
pub proof fn law_blocked_names(rails: Seq<(Seq<char>, JsonValue)>, name: Seq<char>)
    ensures
        blocked_names(rails).contains(name) <==> exists|i: int|
            0 <= i < rails.len() && (#[trigger] rails[i]).0 == name && is_blocked(rails[i].1),
        blocked_names(rails).len() <= rails.len(),
    decreases rails.len(),
{
    if rails.len() > 0 {
        let shorter = rails.drop_last();
        let before = blocked_names(shorter);
        let names = blocked_names(rails);
        law_blocked_names(shorter, name);
        if before.contains(name) {
            let i = choose|i: int|
                0 <= i < shorter.len() && (#[trigger] shorter[i]).0 == name && is_blocked(
                    shorter[i].1,
                );
            assert(rails[i] == shorter[i]);
            let k = choose|k: int| 0 <= k < before.len() && before[k] == name;
            assert(names[k] == name);
        } else if is_blocked(rails.last().1) && rails.last().0 == name {
            assert(names.last() == name);
            assert(rails[rails.len() - 1].0 == name);
        } else {
            assert forall|i: int| 0 <= i < rails.len() implies !((#[trigger] rails[i]).0 == name
                && is_blocked(rails[i].1)) by {
                if i < shorter.len() {
                    assert(rails[i] == shorter[i]);
                }
            }
            if names.contains(name) {
                let k = choose|k: int| 0 <= k < names.len() && names[k] == name;
                assert(before[k] == name);
            }
        }
    }
}

/// The reason for a block lists the rails that blocked, each by its name, in
/// lexicographic order.
pub proof fn law_block_reason_lists_blocked_rails(
    rails: StringMap<JsonValue>,
    listed: Seq<Seq<char>>,
)
    requires
        listed == sorted(blocked_names(rails@)),
    ensures
        block_reason(Some(JsonValue::Object(rails))) == joined(listed, ", "@),
        forall|name: Seq<char>|
            #![trigger listed.contains(name)]
            listed.contains(name) <==> exists|i: int|
                0 <= i < rails@.len() && (#[trigger] rails@[i]).0 == name && is_blocked(
                    rails@[i].1,
                ),
        forall|i: int, j: int|
            0 <= i < j < listed.len() ==> lex_le(#[trigger] listed[i], #[trigger] listed[j]),
{
    broadcast use vstd::seq_lib::group_to_multiset_ensures;

    let names = blocked_names(rails@);
    lemma_sorted_is_ordered(names);
    assert forall|name: Seq<char>| #[trigger] listed.contains(name) <==> exists|i: int|
        0 <= i < rails@.len() && (#[trigger] rails@[i]).0 == name && is_blocked(rails@[i].1) by {
        law_blocked_names(rails@, name);
        assert(listed.contains(name) <==> listed.to_multiset().count(name) > 0);
        assert(names.contains(name) <==> names.to_multiset().count(name) > 0);
    }
}

/// The reason for a block is empty where no rail blocked, and where there is no
/// object of rails.
pub proof fn law_block_reason_without_blocked_rails(rails_status: Option<JsonValue>)
    requires
        rails_status matches Some(JsonValue::Object(rails)) ==> forall|i: int|
            0 <= i < rails@.len() ==> !is_blocked((#[trigger] rails@[i]).1),
    ensures
        block_reason(rails_status).len() == 0,
{
    if let Some(JsonValue::Object(rails)) = rails_status {
        let names = blocked_names(rails@);
        if names.len() > 0 {
            law_blocked_names(rails@, names[0]);
            assert(names.contains(names[0]));
        }
        lemma_sorted_is_ordered(names);
        broadcast use vstd::seq_lib::group_to_multiset_ensures;
        assert(sorted(names).len() == sorted(names).to_multiset().len());
    }
}

proof fn lemma_blocked_names_append(
    a: Seq<(Seq<char>, JsonValue)>,
    b: Seq<(Seq<char>, JsonValue)>,
)
    ensures
        blocked_names(a + b) == blocked_names(a) + blocked_names(b),
    decreases b.len(),
{
    if b.len() == 0 {
        assert(a + b =~= a);
        assert(blocked_names(a) + blocked_names(b) =~= blocked_names(a));
    } else {
        lemma_blocked_names_append(a, b.drop_last());
        assert((a + b).drop_last() =~= a + b.drop_last());
        assert(blocked_names(a + b) =~= blocked_names(a) + blocked_names(b));
    }
}

proof fn lemma_blocked_names_of_rearranged(
    a: Seq<(Seq<char>, JsonValue)>,
    b: Seq<(Seq<char>, JsonValue)>,
)
    requires
        a.to_multiset() == b.to_multiset(),
    ensures
        blocked_names(a).to_multiset() == blocked_names(b).to_multiset(),
    decreases a.len(),
{
    broadcast use vstd::seq_lib::group_to_multiset_ensures;

    assert(a.len() == a.to_multiset().len() && b.len() == b.to_multiset().len());
    if a.len() == 0 {
        assert(a =~= b);
    } else {
        let rail = a.last();
        let shorter = a.drop_last();
        assert(shorter.push(rail) =~= a);
        assert(a.to_multiset() =~= shorter.to_multiset().insert(rail));
        assert(b.to_multiset().count(rail) > 0);
        assert(b.contains(rail));
        let k = choose|k: int| 0 <= k < b.len() && b[k] == rail;
        let (head, tail) = (b.take(k), b.skip(k + 1));
        assert(b =~= head + (seq![rail] + tail));
        assert(b.remove(k) =~= head + tail);
        assert(b.to_multiset() =~= b.remove(k).to_multiset().insert(rail));
        assert(shorter.to_multiset() =~= b.remove(k).to_multiset());
        lemma_blocked_names_of_rearranged(shorter, head + tail);
        lemma_blocked_names_append(head, tail);
        lemma_blocked_names_append(head, seq![rail] + tail);
        lemma_blocked_names_append(seq![rail], tail);
        let own = blocked_names(seq![rail]);
        lemma_blocked_names_append(shorter, seq![rail]);
        assert(a =~= shorter + seq![rail]);
        vstd::seq_lib::lemma_multiset_commutative(blocked_names(shorter), own);
        vstd::seq_lib::lemma_multiset_commutative(blocked_names(head), blocked_names(tail));
        vstd::seq_lib::lemma_multiset_commutative(own, blocked_names(tail));
        vstd::seq_lib::lemma_multiset_commutative(blocked_names(head), own + blocked_names(tail));
        assert(blocked_names(a).to_multiset() =~= blocked_names(b).to_multiset());
    }
}

/// The order in which the rails come does not show in the reason for a block.
pub proof fn law_rail_order_does_not_matter(a: StringMap<JsonValue>, b: StringMap<JsonValue>)
    requires
        a@.to_multiset() == b@.to_multiset(),
    ensures
        block_reason(Some(JsonValue::Object(a))) == block_reason(Some(JsonValue::Object(b))),
{
    lemma_blocked_names_of_rearranged(a@, b@);
    lemma_sorted_of_rearranged(blocked_names(a@), blocked_names(b@));
}

/// The last step that an evaluation came to: the first one that ended it.
pub open spec fn last_step(second: Next, third: Next, fourth: Next) -> Next {
    if second is Finish {
        second
    } else if third is Finish {
        third
    } else {
        fourth
    }
}

/// Whether steps are those of one evaluation, given what came back from outside
/// at each: the prepared target, the answer and the parsed response. What comes
/// behind the step that ended the evaluation does not count.
pub open spec fn is_evaluation<C>(
    provider: NemoProvider<C>,
    messages: Seq<serde_json::Value>,
    allow_private: bool,
    target: Result<usize, TargetFailure>,
    answer: Result<CalloutOutcome, FilterError>,
    parsed: Result<NemoResponse, String>,
    first: Next,
    second: Next,
    third: Next,
    fourth: Next,
) -> bool {
    &&& provider.is_first(json_messages(messages), allow_private, first)
    &&& provider.is_next(first->Continue_0, Event::Target(target), second)
    &&& second matches Next::Continue(state, _) ==> provider.is_next(
        state,
        Event::Answer(answer),
        third,
    ) && (third matches Next::Continue(state, _) ==> provider.is_next(
        state,
        Event::Response(parsed),
        fourth,
    ))
}

/// The status of the response that an evaluation got, where every step up to it
/// went well: a target that could be prepared, a complete answer with a status from
/// 200 to 299, and a body that could be parsed.
pub open spec fn response_status(
    target: Result<usize, TargetFailure>,
    answer: Result<CalloutOutcome, FilterError>,
    parsed: Result<NemoResponse, String>,
) -> Option<Seq<char>> {
    match (target, answer, parsed) {
        (Ok(_), Ok(CalloutOutcome::Buffered(response)), Ok(nemo)) => if 200 <= response.status
            < 300 {
            Some(nemo.status@)
        } else {
            None
        },
        _ => None,
    }
}

/// An evaluation ends after three exchanges with the outside at most, and fails
/// closed: the messages pass only where every step went well and the response says
/// success, they are blocked only where it says so, and all else is an error.
pub proof fn law_evaluation_fails_closed<C>(
    provider: NemoProvider<C>,
    messages: Seq<serde_json::Value>,
    allow_private: bool,
    target: Result<usize, TargetFailure>,
    answer: Result<CalloutOutcome, FilterError>,
    parsed: Result<NemoResponse, String>,
    first: Next,
    second: Next,
    third: Next,
    fourth: Next,
)
    requires
        is_evaluation(
            provider,
            messages,
            allow_private,
            target,
            answer,
            parsed,
            first,
            second,
            third,
            fourth,
        ),
    ensures
        ({
            let end = last_step(second, third, fourth);
            let status = response_status(target, answer, parsed);
            &&& end is Finish
            &&& (end matches Next::Finish(Ok(GuardResult::Pass))) <==> status == Some("success"@)
            &&& (end matches Next::Finish(Ok(GuardResult::Block { .. }))) <==> status == Some(
                "blocked"@,
            )
            &&& (end matches Next::Finish(Err(_))) <==> status != Some("success"@) && status
                != Some("blocked"@)
        }),
{
    reveal_strlit("success");
    reveal_strlit("blocked");
    assert("success"@[0] != "blocked"@[0]);
}

/// What an evaluation asks for outside: the provider's endpoint under the address
/// policy of the outbound chain, then one request with the messages and the
/// provider's model, within the provider's timeout and the size limit, then the
/// body of the answer. Each time it awaits what the action brings.
pub proof fn law_evaluation_actions<C>(
    provider: NemoProvider<C>,
    messages: Seq<serde_json::Value>,
    allow_private: bool,
    target: Result<usize, TargetFailure>,
    answer: Result<CalloutOutcome, FilterError>,
    parsed: Result<NemoResponse, String>,
    first: Next,
    second: Next,
    third: Next,
    fourth: Next,
)
    requires
        is_evaluation(
            provider,
            messages,
            allow_private,
            target,
            answer,
            parsed,
            first,
            second,
            third,
            fourth,
        ),
    ensures
        first matches Next::Continue(state, Action::PrepareTarget { endpoint, allow_private: policy })
            && awaits(state, Event::Target(target)) && endpoint@ == provider.endpoint() && policy
            == allow_private,
        second is Continue ==> {
            &&& awaits(second->Continue_0, Event::Answer(answer))
            &&& second->Continue_1 matches Action::Send {
                request,
                stage_fallback,
                max_response_size,
                timeout_ms,
            }
            &&& is_request_for(request, provider.model(), json_messages(messages))
            &&& stage_fallback == (target->Ok_0 > 1)
            &&& max_response_size == MAX_RESPONSE_SIZE
            &&& timeout_ms == provider.timeout_ms()
        },
        second is Continue && third is Continue ==> {
            &&& awaits(third->Continue_0, Event::Response(parsed))
            &&& answer matches Ok(CalloutOutcome::Buffered(response))
            &&& third->Continue_1 == Action::Parse { body: response.body }
        },
{
}

/// A configured timeout and model are taken as they are. The defaults, ten seconds
/// and an empty model, stand in exactly where nothing is configured.
pub proof fn law_configured_settings(config: NemoConfig)
    ensures
        config.timeout_ms is Some ==> configured_timeout(config) == config.timeout_ms->Some_0,
        config.timeout_ms is None ==> configured_timeout(config) == 10000,
        config.model is Some ==> configured_model(config) == config.model->Some_0@,
        config.model is None ==> configured_model(config).len() == 0,
{
}

/// A configuration is accepted exactly when it was parsed, has an endpoint that
/// passed the check of its shape, and does not give a timeout of zero. A rejected
/// one is told the first of these that fails.
pub proof fn law_accepted_providers(
    config: Result<NemoConfig, String>,
    target: Result<(), FilterError>,
)
    ensures
        provider_fault(config, target) is None <==> {
            &&& config is Ok
            &&& config->Ok_0.endpoint@.len() > 0
            &&& target is Ok
            &&& config->Ok_0.timeout_ms != Some(0u64)
        },
        config is Err ==> provider_fault(config, target) == Some(
            "ai_guardrails (nemo): "@ + config->Err_0@,
        ),
        config is Ok && config->Ok_0.endpoint@.len() == 0 ==> provider_fault(config, target)
            == Some("ai_guardrails (nemo): 'endpoint' must not be empty"@),
        config is Ok && config->Ok_0.endpoint@.len() > 0 && target is Err ==> provider_fault(
            config,
            target,
        ) == Some(target->Err_0@),
        config is Ok && config->Ok_0.endpoint@.len() > 0 && target is Ok
            && config->Ok_0.timeout_ms == Some(0u64) ==> provider_fault(config, target) == Some(
            "ai_guardrails (nemo): 'timeout_ms' must be greater than zero"@,
        ),
{
}

/// The separated form of two lists, one behind the other, is that of the first, a
/// comma, and that of the second. One part is its own separated form, and no part
/// has an empty one.
pub proof fn law_comma_separated(a: Seq<Seq<u8>>, b: Seq<Seq<u8>>, part: Seq<u8>)
    ensures
        comma_separated(Seq::empty()).len() == 0,
        comma_separated(seq![part]) == part,
        a.len() > 0 && b.len() > 0 ==> comma_separated(a + b) == comma_separated(a)
            + ",".spec_bytes() + comma_separated(b),
    decreases b.len(),
{
    if a.len() > 0 && b.len() > 0 {
        assert((a + b).drop_last() =~= a + b.drop_last());
        if b.len() == 1 {
            assert(a + b.drop_last() =~= a);
        } else {
            law_comma_separated(a, b.drop_last(), part);
        }
        assert(comma_separated(a + b) =~= comma_separated(a) + ",".spec_bytes() + comma_separated(
            b,
        ));
    }
}

/// Every message stands in the list, in its place: behind the messages before it and
/// ahead of those after it, with commas between them, and nothing else does.
pub proof fn law_every_message_is_sent(messages: Seq<Seq<u8>>, i: int)
    requires
        0 <= i < messages.len(),
    ensures
        ({
            let before = if i == 0 {
                Seq::empty()
            } else {
                comma_separated(messages.take(i)) + ",".spec_bytes()
            };
            let after = if i == messages.len() - 1 {
                Seq::empty()
            } else {
                ",".spec_bytes() + comma_separated(messages.skip(i + 1))
            };
            comma_separated(messages) == before + messages[i] + after
        }),
{
    let part = messages[i];
    let (head, tail) = (messages.take(i), messages.skip(i + 1));
    let rest = seq![part] + tail;
    let comma = ",".spec_bytes();
    let after = if i == messages.len() - 1 {
        Seq::empty()
    } else {
        comma + comma_separated(tail)
    };
    assert(comma_separated(rest) == part + after) by {
        law_comma_separated(seq![part], tail, part);
        if tail.len() == 0 {
            assert(rest =~= seq![part]);
            assert(part + after =~= part);
        } else {
            assert(part + comma + comma_separated(tail) =~= part + after);
        }
    }
    assert(messages =~= head + rest);
    if i == 0 {
        assert(messages =~= rest);
        assert(Seq::<u8>::empty() + part =~= part);
    } else {
        law_comma_separated(head, rest, part);
        let before = comma_separated(head) + comma;
        assert(before + (part + after) =~= before + part + after);
    }
}

/// The payload is a JSON object with the model under "model" and the list of
/// messages under "messages".
pub proof fn law_payload(model: Seq<u8>, messages: Seq<Seq<u8>>)
    ensures
        payload(model, messages) == "{\"model\":".spec_bytes() + model
            + ",\"messages\":[".spec_bytes() + comma_separated(messages) + "]}".spec_bytes(),
{
}

/// Each message is written by itself, in its own place.
pub proof fn law_written_messages(messages: Seq<serde_json::Value>, parts: Seq<Vec<u8>>, i: int)
    ensures
        json_messages(messages).len() == messages.len(),
        0 <= i < messages.len() ==> json_messages(messages)[i] == json_message(messages[i]),
        contents(parts).len() == parts.len(),
        0 <= i < parts.len() ==> contents(parts)[i] == parts[i]@,
{
}

/// A text inside a JSON string is its characters one after the other. The quote and
/// the backslash get a backslash, five control characters a short form, the others
/// their code in four hexadecimal digits, and all else stands for itself.
pub proof fn law_json_chars(a: Seq<char>, b: Seq<char>, c: char)
    ensures
        json_chars(Seq::empty()).len() == 0,
        json_chars(a + b) == json_chars(a) + json_chars(b),
        c == '"' ==> json_chars(seq![c]) == "\\\""@,
        c == '\\' ==> json_chars(seq![c]) == "\\\\"@,
        c == '\u{8}' ==> json_chars(seq![c]) == "\\b"@,
        c == '\t' ==> json_chars(seq![c]) == "\\t"@,
        c == '\n' ==> json_chars(seq![c]) == "\\n"@,
        c == '\u{c}' ==> json_chars(seq![c]) == "\\f"@,
        c == '\r' ==> json_chars(seq![c]) == "\\r"@,
        c < ' ' && c != '\u{8}' && c != '\t' && c != '\n' && c != '\u{c}' && c != '\r' ==> {
            let digits = "0123456789abcdef"@;
            json_chars(seq![c]) == "\\u00"@ + seq![digits[c as int / 16], digits[c as int % 16]]
        },
        c >= ' ' && c != '"' && c != '\\' ==> json_chars(seq![c]) == seq![c],
    decreases b.len(),
{
    reveal_strlit("\\\"");
    reveal_strlit("\\\\");
    reveal_strlit("\\b");
    reveal_strlit("\\t");
    reveal_strlit("\\n");
    reveal_strlit("\\f");
    reveal_strlit("\\r");
    reveal_strlit("\\u00");
    reveal_strlit("0123456789abcdef");
    assert(json_chars(seq![c].drop_last()) =~= Seq::empty());
    assert(json_chars(seq![c]) =~= json_char(c));
    if c == '"' {
        assert(json_char(c) =~= "\\\""@);
    } else if c == '\\' {
        assert(json_char(c) =~= "\\\\"@);
    } else if ' ' > c {
        let digits = "0123456789abcdef"@;
        let (high, low) = (c as int / 16, c as int % 16);
        assert(0 <= high < 2 && 0 <= low < 16);
        assert(digits =~= seq![
            '0', '1', '2', '3', '4', '5', '6', '7', '8', '9', 'a', 'b', 'c', 'd', 'e', 'f',
        ]);
        assert(digits[high] == hex_digit(high as nat));
        assert(digits[low] == hex_digit(low as nat));
    }
    if b.len() == 0 {
        assert(a + b =~= a);
        assert(json_chars(a) + json_chars(b) =~= json_chars(a));
    } else {
        law_json_chars(a, b.drop_last(), c);
        assert((a + b).drop_last() =~= a + b.drop_last());
        assert(json_chars(a + b) =~= json_chars(a) + json_chars(b));
    }
}

/// The JSON form of a string is its characters between quotes, in UTF-8.
pub proof fn law_json_string(text: Seq<char>)
    ensures
        json_string(text) == encode_utf8("\""@ + json_chars(text) + "\""@),
{
    reveal_strlit("\"");
    assert(seq!['"'] =~= "\""@);
}

/// A request for a model and messages is a POST of JSON that asks for JSON, with no
/// further header, and its body is the payload.
pub proof fn law_request(request: CalloutRequest, model: Seq<char>, messages: Seq<Seq<u8>>)
    requires
        is_request_for(request, model, messages),
    ensures
        request.method == OpenAiHttpMethod::Post,
        request.path@ == "/"@,
        request.headers@.len() == 2,
        request.headers@[0].0@ == "content-type"@,
        request.headers@[0].1@ == "application/json"@,
        request.headers@[1].0@ == "accept"@,
        request.headers@[1].1@ == "application/json"@,
        request.body@ == payload(json_string(model), messages),
{
}

/// Messages that could not be written are reported with the reason.
pub proof fn law_serialize_message(reason: Seq<char>)
    ensures
        serialize_fault(reason) == "ai_guardrails (nemo): failed to serialize request: "@ + reason,
{
}

/// A target that could not be prepared is reported by what went wrong, with its
/// reason where there is one.
pub proof fn law_target_messages(reason: String)
    ensures
        target_fault(TargetFailure::InvalidTarget(reason))
            == "ai_guardrails (nemo): invalid endpoint URL: "@ + reason@,
        target_fault(TargetFailure::Resolve(reason))
            == "ai_guardrails (nemo): failed to resolve endpoint: "@ + reason@,
        target_fault(TargetFailure::PolicyRejected(reason))
            == "ai_guardrails (nemo): endpoint address policy rejected target: "@ + reason@,
        target_fault(TargetFailure::DeadlineExceeded)
            == "ai_guardrails (nemo): endpoint preparation deadline exceeded"@,
        target_fault(TargetFailure::Other) == "ai_guardrails (nemo): endpoint preparation failed"@,
{
}

/// Only a complete response is accepted. Any other outcome is reported, a response
/// that is too large with its size and the limit.
pub proof fn law_outcomes(outcome: CalloutOutcome, size: usize, limit: usize)
    ensures
        outcome_fault(outcome) is None <==> outcome is Buffered,
        outcome_fault(CalloutOutcome::Streaming) == Some(
            "ai_guardrails (nemo): streaming NeMo responses are not supported"@,
        ),
        outcome_fault(CalloutOutcome::ResponseTooLarge { actual: Some(size), limit }) == Some(
            "ai_guardrails (nemo): provider response exceeded size limit ("@ + decimal(size as nat)
                + " bytes, limit "@ + decimal(limit as nat) + " bytes)"@,
        ),
        outcome_fault(CalloutOutcome::ResponseTooLarge { actual: None, limit }) == Some(
            "ai_guardrails (nemo): provider response exceeded size limit ("@ + "unknown"@
                + " bytes, limit "@ + decimal(limit as nat) + " bytes)"@,
        ),
        outcome_fault(CalloutOutcome::Other) == Some(
            "ai_guardrails (nemo): unsupported provider response mode"@,
        ),
{
}

/// A status is accepted exactly when it is one of success, 200 to 299. Any other is
/// reported by its number.
pub proof fn law_statuses(status: u16)
    ensures
        status_fault(status) is None <==> status / 100 == 2,
        status / 100 != 2 ==> status_fault(status) == Some(
            "ai_guardrails (nemo): provider returned HTTP status code "@ + decimal(status as nat),
        ),
{
}

/// A rail blocked exactly when its result is an object whose status is the text
/// "blocked".
pub proof fn law_blocked_rails(rail: JsonValue)
    ensures
        is_blocked(rail) <==> (rail matches JsonValue::Object(members) && lookup(
            members@,
            "status"@,
        ) matches Some(JsonValue::Text(text)) && text@ == "blocked"@),
{
}

proof fn lemma_blocked_names_distinct(rails: Seq<(Seq<char>, JsonValue)>)
    requires
        distinct_keys(rails),
    ensures
        blocked_names(rails).no_duplicates(),
    decreases rails.len(),
{
    if rails.len() > 0 {
        let shorter = rails.drop_last();
        assert forall|i: int, j: int| 0 <= i < j < shorter.len() implies (#[trigger] shorter[i]).0
            != (#[trigger] shorter[j]).0 by {
            assert(rails[i].0 != rails[j].0);
        }
        lemma_blocked_names_distinct(shorter);
        law_blocked_names(shorter, rails.last().0);
        if blocked_names(shorter).contains(rails.last().0) {
            let i = choose|i: int|
                0 <= i < shorter.len() && (#[trigger] shorter[i]).0 == rails.last().0 && is_blocked(
                    shorter[i].1,
                );
            assert(rails[i].0 != rails[rails.len() - 1].0);
        }
        let (before, names) = (blocked_names(shorter), blocked_names(rails));
        assert forall|i: int, j: int| 0 <= i < j < names.len() implies names[i] != names[j] by {
            if j == before.len() {
                assert(before.contains(before[i]));
            }
        }
    }
}

/// Where a response says that the messages are blocked, the result is a block whose
/// reason joins, in lexicographic order and each once, the names of exactly those
/// rails of the response that blocked.
pub proof fn law_blocked_response(
    nemo: NemoResponse,
    rails: StringMap<JsonValue>,
    result: Result<GuardResult, FilterError>,
) -> (listed: Seq<Seq<char>>)
    requires
        gives(result, response_verdict(nemo)),
        nemo.status@ == "blocked"@,
        nemo.rails_status == Some(JsonValue::Object(rails)),
    ensures
        result matches Ok(GuardResult::Block { reason }) && reason@ == joined(listed, ", "@),
        forall|name: Seq<char>|
            #![trigger listed.contains(name)]
            listed.contains(name) <==> exists|i: int|
                0 <= i < rails@.len() && (#[trigger] rails@[i]).0 == name && is_blocked(
                    rails@[i].1,
                ),
        forall|i: int, j: int|
            0 <= i < j < listed.len() ==> lex_le(#[trigger] listed[i], #[trigger] listed[j]),
        distinct_keys(rails@) ==> listed.no_duplicates(),
{
    reveal_strlit("success");
    reveal_strlit("blocked");
    assert("success"@[0] != "blocked"@[0]);
    let names = blocked_names(rails@);
    let listed = sorted(names);
    law_block_reason_lists_blocked_rails(rails, listed);
    if distinct_keys(rails@) {
        lemma_blocked_names_distinct(rails@);
        lemma_sorted_is_ordered(names);
        names.lemma_multiset_has_no_duplicates();
        listed.lemma_multiset_has_no_duplicates_conv();
    }
    listed
}

/// Where a response says that the messages are blocked but has no object of rails,
/// the result is a block without a reason.
pub proof fn law_blocked_response_without_rails(
    nemo: NemoResponse,
    result: Result<GuardResult, FilterError>,
)
    requires
        gives(result, response_verdict(nemo)),
        nemo.status@ == "blocked"@,
        !(nemo.rails_status matches Some(JsonValue::Object(_))),
    ensures
        result matches Ok(GuardResult::Block { reason }) && reason@.len() == 0,
{
    reveal_strlit("success");
    reveal_strlit("blocked");
    assert("success"@[0] != "blocked"@[0]);
}

/// The description of an error is that of the response's data, with its details in
/// brackets where it gives any.
pub proof fn law_error_detail(members: StringMap<JsonValue>, data: Option<JsonValue>)
    ensures
        ({
            let error = member_text(members@, "error"@);
            let details = member_text(members@, "details"@);
            let text = if error is Some {
                error->Some_0
            } else {
                "unknown error"@
            };
            &&& details is None ==> error_detail(Some(JsonValue::Object(members))) == text
            &&& details is Some ==> error_detail(Some(JsonValue::Object(members))) == text + " ("@
                + details->Some_0 + ")"@
        }),
        !(data matches Some(JsonValue::Object(_))) ==> error_detail(data)
            == "no details available"@,
{
}

/// A response that holds no result is reported: an error with its description, and
/// any other status by what it says.
pub proof fn law_failed_response(nemo: NemoResponse, result: Result<GuardResult, FilterError>)
    requires
        gives(result, response_verdict(nemo)),
    ensures
        nemo.status@ == "error"@ ==> result is Err && result->Err_0@
            == "ai_guardrails (nemo): NeMo returned error status: "@ + error_detail(
            nemo.guardrails_data,
        ),
        nemo.status@ != "success"@ && nemo.status@ != "blocked"@ && nemo.status@ != "error"@
            ==> result is Err && result->Err_0@ == "ai_guardrails (nemo): unknown status '"@
            + nemo.status@ + "'"@,
{
    reveal_strlit("success");
    reveal_strlit("blocked");
    reveal_strlit("error");
    assert("success"@[0] == 's' && "blocked"@[0] == 'b' && "error"@[0] == 'e');
}

/// An optional reference holds the value that it refers to.
pub proof fn law_value_of(value: Option<&JsonValue>)
    ensures
        value_of(value) is Some <==> value is Some,
        value is Some ==> value_of(value)->Some_0 == *value->Some_0,
{
}

/// A body that could not be parsed is reported with the reason, and one that could
/// gives what its response gives.
pub proof fn law_parsed_response(
    parsed: Result<NemoResponse, String>,
    result: Result<GuardResult, FilterError>,
)
    requires
        gives(result, parsed_verdict(parsed)),
    ensures
        parsed is Ok ==> gives(result, response_verdict(parsed->Ok_0)),
        parsed is Err ==> result is Err && result->Err_0@
            == "ai_guardrails (nemo): failed to parse response: "@ + parsed->Err_0@,
{
}

/// Each state awaits what its action brings, and nothing else.
pub proof fn law_awaited_events(state: Evaluation, event: Event)
    ensures
        event is Target ==> (awaits(state, event) <==> state is AwaitingTarget),
        event is Answer ==> (awaits(state, event) <==> state is AwaitingAnswer),
        event is Response ==> (awaits(state, event) <==> state is AwaitingResponse),
{
}

/// An evaluation starts with the request for its messages and with the provider's
/// endpoint to be prepared, under the address policy that it was given.
pub proof fn law_first_step<C>(
    provider: NemoProvider<C>,
    messages: Seq<Seq<u8>>,
    allow_private: bool,
    next: Next,
)
    requires
        provider.is_first(messages, allow_private, next),
    ensures
        next is Continue,
        next->Continue_0 is AwaitingTarget,
        is_request_for(next->Continue_0->AwaitingTarget_request, provider.model(), messages),
        next->Continue_1 is PrepareTarget,
        next->Continue_1->PrepareTarget_endpoint@ == provider.endpoint(),
        next->Continue_1->PrepareTarget_allow_private == allow_private,
{
}

/// Once its target is prepared, an evaluation sends its request unchanged, within
/// the provider's timeout and up to a mebibyte of response, with the further
/// addresses staged where there are any. Without a target it ends with the reason.
pub proof fn law_target_step<C>(
    provider: NemoProvider<C>,
    request: CalloutRequest,
    target: Result<usize, TargetFailure>,
    next: Next,
)
    requires
        provider.is_next(Evaluation::AwaitingTarget { request }, Event::Target(target), next),
    ensures
        target is Ok ==> {
            &&& next is Continue
            &&& next->Continue_0 is AwaitingAnswer
            &&& next->Continue_1 is Send
            &&& next->Continue_1->Send_request == request
            &&& next->Continue_1->Send_stage_fallback == (target->Ok_0 > 1)
            &&& next->Continue_1->Send_max_response_size == 1048576
            &&& next->Continue_1->Send_timeout_ms == provider.timeout_ms()
        },
        target is Err ==> {
            &&& next is Finish
            &&& next->Finish_0 is Err
            &&& next->Finish_0->Err_0@ == target_fault(target->Err_0)
        },
{
}

/// Once its answer is there, an evaluation goes on to the answer's body where the
/// answer is complete and a success. Any other answer ends it with the reason.
pub proof fn law_answer_step<C>(
    provider: NemoProvider<C>,
    answer: Result<CalloutOutcome, FilterError>,
    next: Next,
)
    requires
        provider.is_next(Evaluation::AwaitingAnswer, Event::Answer(answer), next),
    ensures
        answer is Err ==> next == Next::Finish(Err(answer->Err_0)),
        answer is Ok && !(answer->Ok_0 is Buffered) ==> {
            &&& next is Finish
            &&& next->Finish_0 is Err
            &&& outcome_fault(answer->Ok_0) == Some(next->Finish_0->Err_0@)
        },
        answer is Ok && answer->Ok_0 is Buffered ==> {
            let response = answer->Ok_0->Buffered_0;
            if 200 <= response.status <= 299 {
                &&& next is Continue
                &&& next->Continue_0 is AwaitingResponse
                &&& next->Continue_1 is Parse
                &&& next->Continue_1->Parse_body@ == response.body@
            } else {
                &&& next is Finish
                &&& next->Finish_0 is Err
                &&& status_fault(response.status) == Some(next->Finish_0->Err_0@)
            }
        },
{
}

/// Once the answer's body is parsed, or could not be, an evaluation is over, with
/// what the response gives or with the reason.
pub proof fn law_response_step<C>(
    provider: NemoProvider<C>,
    parsed: Result<NemoResponse, String>,
    next: Next,
)
    requires
        provider.is_next(Evaluation::AwaitingResponse, Event::Response(parsed), next),
    ensures
        next is Finish,
        parsed is Ok ==> gives(next->Finish_0, response_verdict(parsed->Ok_0)),
        parsed is Err ==> next->Finish_0 is Err && next->Finish_0->Err_0@
            == "ai_guardrails (nemo): failed to parse response: "@ + parsed->Err_0@,
{
}

} // verus!
