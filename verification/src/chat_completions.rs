//! Chat Completions operation registry.
//!
//! Operation identity comes from the request head, its method and path, rather
//! than from the body, so a request is recognized before any payload is read.
//!
//! Praxis proxies the Chat Completions contract rather than owning it, so these
//! operations declare their request-body shape without an
//! [`OwnedOperationContract`](crate::operation::OwnedOperationContract).
//! Operation IDs are the official ones of the API, casing included.
use vstd::prelude::*;
use vstd::string::*;

use crate::operation::{
    captured, captures, filled, head_fits, is_first_fit, is_parameter, law_filled_template_fits, law_first_fit,
    law_joined_segments,    law_plain_template_fits_itself, lemma_segments_append, lemma_segments_injective, match_operation, parameter_name, path_fits,
    segment_fits, segments, OpenAiApiFamily, OpenAiHandlingMode, OpenAiHttpMethod,
    OpenAiOperationSpec, OpenAiRequestBody, OpenAiTransport, OperationEntry, RouteParams,
};
use crate::string_map::lookup;
use crate::text::{joined, text_of};

verus! {

/// One Chat Completions operation recognized from the request head.
#[derive(Clone, Copy, Debug, PartialEq, Eq, Structural)]
pub enum ChatCompletionsOperation {
    /// GET /v1/chat/completions
    ListChatCompletions,
    /// POST /v1/chat/completions
    CreateChatCompletion,
    /// GET /v1/chat/completions/{completion_id}
    GetChatCompletion,
    /// POST /v1/chat/completions/{completion_id}
    UpdateChatCompletion,
    /// DELETE /v1/chat/completions/{completion_id}
    DeleteChatCompletion,
    /// GET /v1/chat/completions/{completion_id}/messages
    GetChatCompletionMessages,
}

/// Static metadata for one Chat Completions operation.
#[derive(Clone, Copy)]
pub struct ChatCompletionsOperationSpec {
    /// Runtime operation.
    pub operation: ChatCompletionsOperation,
    /// Shared operation metadata.
    pub definition: OpenAiOperationSpec,
}

impl core::ops::Deref for ChatCompletionsOperationSpec {
    type Target = OpenAiOperationSpec;

    fn deref(&self) -> (definition: &OpenAiOperationSpec)
        ensures
            *definition == self.definition,
    {
        &self.definition
    }
}

impl OperationEntry for ChatCompletionsOperationSpec {
    open spec fn definition_of(&self) -> OpenAiOperationSpec {
        self.definition
    }

    fn spec(&self) -> (definition: &OpenAiOperationSpec) {
        &self.definition
    }
}

/// A registry entry. Every Chat Completions operation is a plain HTTP exchange
/// whose contract belongs to the upstream.
pub open spec fn registry_entry(
    operation: ChatCompletionsOperation,
    operation_id: &'static str,
    method: OpenAiHttpMethod,
    spec_path: &'static str,
    runtime_path: &'static str,
    mode: OpenAiHandlingMode,
    request_body: OpenAiRequestBody,
) -> ChatCompletionsOperationSpec {
    ChatCompletionsOperationSpec {
        operation,
        definition: OpenAiOperationSpec {
            family: OpenAiApiFamily::ChatCompletions,
            operation_id,
            method,
            transport: OpenAiTransport::Http,
            spec_path,
            runtime_path,
            mode,
            request_body,
            owned_contract: None,
        },
    }
}

/// All Chat Completions operations recognized by Praxis.
pub open spec fn registry() -> Seq<ChatCompletionsOperationSpec> {
    seq![
        registry_entry(
            ChatCompletionsOperation::ListChatCompletions,
            "listChatCompletions",
            OpenAiHttpMethod::Get,
            "/chat/completions",
            "/v1/chat/completions",
            OpenAiHandlingMode::Passthrough,
            OpenAiRequestBody::Empty,
        ),
        registry_entry(
            ChatCompletionsOperation::CreateChatCompletion,
            "createChatCompletion",
            OpenAiHttpMethod::Post,
            "/chat/completions",
            "/v1/chat/completions",
            OpenAiHandlingMode::Inspect,
            OpenAiRequestBody::Json { required: true },
        ),
        registry_entry(
            ChatCompletionsOperation::GetChatCompletion,
            "getChatCompletion",
            OpenAiHttpMethod::Get,
            "/chat/completions/{completion_id}",
            "/v1/chat/completions/{completion_id}",
            OpenAiHandlingMode::Passthrough,
            OpenAiRequestBody::Empty,
        ),
        registry_entry(
            ChatCompletionsOperation::UpdateChatCompletion,
            "updateChatCompletion",
            OpenAiHttpMethod::Post,
            "/chat/completions/{completion_id}",
            "/v1/chat/completions/{completion_id}",
            OpenAiHandlingMode::Passthrough,
            OpenAiRequestBody::Json { required: true },
        ),
        registry_entry(
            ChatCompletionsOperation::DeleteChatCompletion,
            "deleteChatCompletion",
            OpenAiHttpMethod::Delete,
            "/chat/completions/{completion_id}",
            "/v1/chat/completions/{completion_id}",
            OpenAiHandlingMode::Passthrough,
            OpenAiRequestBody::Empty,
        ),
        registry_entry(
            ChatCompletionsOperation::GetChatCompletionMessages,
            "getChatCompletionMessages",
            OpenAiHttpMethod::Get,
            "/chat/completions/{completion_id}/messages",
            "/v1/chat/completions/{completion_id}/messages",
            OpenAiHandlingMode::Passthrough,
            OpenAiRequestBody::Empty,
        ),
    ]
}

/// Operation IDs Praxis defines itself because the pinned specification does
/// not represent them as HTTP operations.
pub const PROTOCOL_EXTENSION_OPERATION_IDS: [&'static str; 0] = [];

/// Return all Chat Completions operation specs.
#[must_use]
pub fn operation_specs() -> (specs: &'static [ChatCompletionsOperationSpec])
    ensures
        specs@ == registry(),
{
    &[
        ChatCompletionsOperationSpec {
            operation: ChatCompletionsOperation::ListChatCompletions,
            definition: OpenAiOperationSpec {
                family: OpenAiApiFamily::ChatCompletions,
                operation_id: "listChatCompletions",
                method: OpenAiHttpMethod::Get,
                transport: OpenAiTransport::Http,
                spec_path: "/chat/completions",
                runtime_path: "/v1/chat/completions",
                mode: OpenAiHandlingMode::Passthrough,
                request_body: OpenAiRequestBody::Empty,
                owned_contract: None,
            },
        },
        ChatCompletionsOperationSpec {
            operation: ChatCompletionsOperation::CreateChatCompletion,
            definition: OpenAiOperationSpec {
                family: OpenAiApiFamily::ChatCompletions,
                operation_id: "createChatCompletion",
                method: OpenAiHttpMethod::Post,
                transport: OpenAiTransport::Http,
                spec_path: "/chat/completions",
                runtime_path: "/v1/chat/completions",
                mode: OpenAiHandlingMode::Inspect,
                request_body: OpenAiRequestBody::Json { required: true },
                owned_contract: None,
            },
        },
        ChatCompletionsOperationSpec {
            operation: ChatCompletionsOperation::GetChatCompletion,
            definition: OpenAiOperationSpec {
                family: OpenAiApiFamily::ChatCompletions,
                operation_id: "getChatCompletion",
                method: OpenAiHttpMethod::Get,
                transport: OpenAiTransport::Http,
                spec_path: "/chat/completions/{completion_id}",
                runtime_path: "/v1/chat/completions/{completion_id}",
                mode: OpenAiHandlingMode::Passthrough,
                request_body: OpenAiRequestBody::Empty,
                owned_contract: None,
            },
        },
        ChatCompletionsOperationSpec {
            operation: ChatCompletionsOperation::UpdateChatCompletion,
            definition: OpenAiOperationSpec {
                family: OpenAiApiFamily::ChatCompletions,
                operation_id: "updateChatCompletion",
                method: OpenAiHttpMethod::Post,
                transport: OpenAiTransport::Http,
                spec_path: "/chat/completions/{completion_id}",
                runtime_path: "/v1/chat/completions/{completion_id}",
                mode: OpenAiHandlingMode::Passthrough,
                request_body: OpenAiRequestBody::Json { required: true },
                owned_contract: None,
            },
        },
        ChatCompletionsOperationSpec {
            operation: ChatCompletionsOperation::DeleteChatCompletion,
            definition: OpenAiOperationSpec {
                family: OpenAiApiFamily::ChatCompletions,
                operation_id: "deleteChatCompletion",
                method: OpenAiHttpMethod::Delete,
                transport: OpenAiTransport::Http,
                spec_path: "/chat/completions/{completion_id}",
                runtime_path: "/v1/chat/completions/{completion_id}",
                mode: OpenAiHandlingMode::Passthrough,
                request_body: OpenAiRequestBody::Empty,
                owned_contract: None,
            },
        },
        ChatCompletionsOperationSpec {
            operation: ChatCompletionsOperation::GetChatCompletionMessages,
            definition: OpenAiOperationSpec {
                family: OpenAiApiFamily::ChatCompletions,
                operation_id: "getChatCompletionMessages",
                method: OpenAiHttpMethod::Get,
                transport: OpenAiTransport::Http,
                spec_path: "/chat/completions/{completion_id}/messages",
                runtime_path: "/v1/chat/completions/{completion_id}/messages",
                mode: OpenAiHandlingMode::Passthrough,
                request_body: OpenAiRequestBody::Empty,
                owned_contract: None,
            },
        },
    ]
}

/// The operation that a request head selects, as its place in the registry.
pub open spec fn selects(method: Seq<char>, path: Seq<char>, at: int) -> bool {
    is_first_fit(registry(), method, path, OpenAiTransport::Http, at)
}

/// Whether a request head selects any operation.
pub open spec fn is_recognized(method: Seq<char>, path: Seq<char>) -> bool {
    exists|i: int|
        0 <= i < registry().len() && head_fits(
            (#[trigger] registry()[i]).definition,
            method,
            path,
            OpenAiTransport::Http,
        )
}

/// One matched Chat Completions route.
pub struct MatchedChatCompletionsRoute<'a> {
    /// Matched operation metadata.
    pub spec: &'static ChatCompletionsOperationSpec,
    /// Borrowed path parameters, captured by the shared matcher.
    pub params: RouteParams<'a>,
}

impl<'a> MatchedChatCompletionsRoute<'a> {
    /// Return the borrowed completion ID path segment.
    pub fn completion_id(&self) -> (id: Option<&'a str>)
        ensures
            text_of(id) == lookup(self.params@, "completion_id"@),
    {
        self.params.get("completion_id")
    }
}

/// Match a request head to a Chat Completions operation.
pub fn match_route<'a>(method: &str, path: &'a str) -> (matched: Option<
    MatchedChatCompletionsRoute<'a>,
>)
    ensures
        match matched {
            Some(route) => exists|at: int| #[trigger]
                selects(method@, path@, at) && *route.spec == registry()[at] && route.params@
                    == captures(registry()[at].definition.runtime_path@, path@) && head_fits(
                    route.spec.definition,
                    method@,
                    path@,
                    OpenAiTransport::Http,
                ) && is_recognized(method@, path@),
            None => !is_recognized(method@, path@),
        },
{
    match match_operation(operation_specs(), method, path, OpenAiTransport::Http) {
        Some(matched) => {
            let ghost at = choose|at: int| #[trigger]
                is_first_fit(registry(), method@, path@, OpenAiTransport::Http, at)
                    && *matched.spec == registry()[at] && matched.params@ == captures(
                    registry()[at].definition.runtime_path@,
                    path@,
                );
            assert(selects(method@, path@, at));
            Some(MatchedChatCompletionsRoute { spec: matched.spec, params: matched.params })
        },
        None => None,
    }
}

// -----------------------------------------------------------------------------
// Laws
// -----------------------------------------------------------------------------

/// The path of the collection of completions.
pub open spec fn collection_path() -> Seq<char> {
    "/v1/chat/completions"@
}

/// The path of one completion.
pub open spec fn completion_path(id: Seq<char>) -> Seq<char> {
    collection_path() + "/"@ + id
}

/// The path of one completion's messages.
pub open spec fn messages_path(id: Seq<char>) -> Seq<char> {
    completion_path(id) + "/messages"@
}

/// Whether a text can stand for a completion in a path: it is one path segment
/// and not empty.
pub open spec fn is_completion_id(id: Seq<char>) -> bool {
    id.len() > 0 && !id.contains('/')
}

/// The segments of the collection's path.
spec fn collection_segments() -> Seq<Seq<char>> {
    seq![Seq::empty(), "v1"@, "chat"@, "completions"@]
}

proof fn lemma_collection_segments()
    ensures
        segments(collection_path()) == collection_segments(),
        forall|i: int|
            0 <= i < collection_segments().len() ==> !is_parameter(
                #[trigger] collection_segments()[i],
            ),
{
    reveal_strlit("/v1/chat/completions");
    reveal_strlit("v1");
    reveal_strlit("chat");
    reveal_strlit("completions");
    let root = Seq::<char>::empty();
    let version = root.push('/') + "v1"@;
    let chat = version.push('/') + "chat"@;
    let whole = chat.push('/') + "completions"@;
    lemma_segments_append(root, "v1"@);
    lemma_segments_append(version, "chat"@);
    lemma_segments_append(chat, "completions"@);
    assert(whole =~= collection_path());
    assert(segments(whole) =~= collection_segments());
}

proof fn lemma_completion_segments(id: Seq<char>)
    requires
        !id.contains('/'),
    ensures
        segments(completion_path(id)) == collection_segments().push(id),
{
    reveal_strlit("/");
    lemma_collection_segments();
    lemma_segments_append(collection_path(), id);
    assert(completion_path(id) =~= collection_path().push('/') + id);
}

proof fn lemma_messages_segments(id: Seq<char>)
    requires
        !id.contains('/'),
    ensures
        segments(messages_path(id)) == collection_segments().push(id).push("messages"@),
        !is_parameter("messages"@),
{
    reveal_strlit("/messages");
    reveal_strlit("messages");
    lemma_completion_segments(id);
    lemma_segments_append(completion_path(id), "messages"@);
    assert(messages_path(id) =~= completion_path(id).push('/') + "messages"@);
}

/// The templates of the registry are the paths above, with a parameter in the
/// place of the ID.
proof fn lemma_templates()
    ensures
        "/v1/chat/completions/{completion_id}"@ == completion_path("{completion_id}"@),
        "/v1/chat/completions/{completion_id}/messages"@ == messages_path("{completion_id}"@),
        is_parameter("{completion_id}"@),
        parameter_name("{completion_id}"@) == "completion_id"@,
        !"{completion_id}"@.contains('/'),
{
    reveal_strlit("/");
    reveal_strlit("/messages");
    reveal_strlit("{completion_id}");
    reveal_strlit("completion_id");
    reveal_strlit("/v1/chat/completions");
    reveal_strlit("/v1/chat/completions/{completion_id}");
    reveal_strlit("/v1/chat/completions/{completion_id}/messages");
    assert("/v1/chat/completions/{completion_id}"@ =~= completion_path("{completion_id}"@));
    assert("/v1/chat/completions/{completion_id}/messages"@ =~= messages_path("{completion_id}"@));
    assert(parameter_name("{completion_id}"@) =~= "completion_id"@);
}

/// The collection's template fits the collection's path alone.
proof fn lemma_collection_template(path: Seq<char>)
    ensures
        path_fits(collection_path(), path) <==> path == collection_path(),
        captures(collection_path(), collection_path()).len() == 0,
{
    lemma_collection_segments();
    law_plain_template_fits_itself(collection_path(), path);
    reveal_with_fuel(captured, 5);
    let parts = collection_segments();
    assert(!is_parameter(parts[3]) && !is_parameter(parts[2]) && !is_parameter(parts[1])
        && !is_parameter(parts[0]));
}

/// The template of a completion fits the path of every completion.
proof fn lemma_completion_template(id: Seq<char>)
    requires
        is_completion_id(id),
    ensures
        path_fits("/v1/chat/completions/{completion_id}"@, completion_path(id)),
        captures("/v1/chat/completions/{completion_id}"@, completion_path(id)) == seq![
            ("completion_id"@, id),
        ],
{
    lemma_templates();
    lemma_collection_segments();
    lemma_collection_template(collection_path());
    lemma_completion_segments("{completion_id}"@);
    lemma_completion_segments(id);
    let template = collection_segments().push("{completion_id}"@);
    let given = collection_segments().push(id);
    assert(template.drop_last() =~= collection_segments());
    assert(given.drop_last() =~= collection_segments());
    assert(captured(template, given) =~= seq![("completion_id"@, id)]);
}

/// The template of a completion's messages fits the path of every completion's
/// messages.
proof fn lemma_messages_template(id: Seq<char>)
    requires
        is_completion_id(id),
    ensures
        path_fits("/v1/chat/completions/{completion_id}/messages"@, messages_path(id)),
        captures("/v1/chat/completions/{completion_id}/messages"@, messages_path(id)) == seq![
            ("completion_id"@, id),
        ],
{
    lemma_templates();
    lemma_collection_segments();
    lemma_completion_segments("{completion_id}"@);
    lemma_completion_segments(id);
    lemma_completion_template(id);
    lemma_messages_segments("{completion_id}"@);
    lemma_messages_segments(id);
    let template = collection_segments().push("{completion_id}"@);
    let given = collection_segments().push(id);
    assert(template.push("messages"@).drop_last() =~= template);
    assert(given.push("messages"@).drop_last() =~= given);
}

/// The template of a completion fits no other path.
proof fn lemma_completion_template_only(path: Seq<char>) -> (id: Seq<char>)
    requires
        path_fits("/v1/chat/completions/{completion_id}"@, path),
    ensures
        is_completion_id(id),
        path == completion_path(id),
{
    lemma_templates();
    lemma_collection_segments();
    lemma_completion_segments("{completion_id}"@);
    law_joined_segments(path);
    let template = collection_segments().push("{completion_id}"@);
    let given = segments(path);
    let id = given[4];
    assert forall|i: int| 0 <= i < 5 implies segment_fits(#[trigger] template[i], given[i]) by {
        assert(segment_fits(segments("/v1/chat/completions/{completion_id}"@)[i], given[i]));
    }
    assert(!is_parameter(collection_segments()[0]));
    assert(given =~= collection_segments().push(id)) by {
        assert forall|i: int| 0 <= i < 4 implies given[i] == collection_segments()[i] by {
            assert(template[i] == collection_segments()[i]);
        }
    }
    assert(segment_fits(template[4], given[4]));
    assert(!given[4].contains('/'));
    lemma_completion_segments(id);
    lemma_segments_injective(path, completion_path(id));
    id
}

/// The template of a completion's messages fits no other path.
proof fn lemma_messages_template_only(path: Seq<char>) -> (id: Seq<char>)
    requires
        path_fits("/v1/chat/completions/{completion_id}/messages"@, path),
    ensures
        is_completion_id(id),
        path == messages_path(id),
{
    lemma_templates();
    lemma_collection_segments();
    lemma_messages_segments("{completion_id}"@);
    law_joined_segments(path);
    let template = collection_segments().push("{completion_id}"@).push("messages"@);
    let given = segments(path);
    let id = given[4];
    assert forall|i: int| 0 <= i < 6 implies segment_fits(#[trigger] template[i], given[i]) by {
        assert(segment_fits(segments("/v1/chat/completions/{completion_id}/messages"@)[i], given[i]));
    }
    assert(given =~= collection_segments().push(id).push("messages"@)) by {
        assert forall|i: int| 0 <= i < 4 implies given[i] == collection_segments()[i] by {
            assert(template[i] == collection_segments()[i]);
        }
        assert(segment_fits(template[5], given[5]));
    }
    assert(segment_fits(template[4], given[4]));
    assert(!given[4].contains('/'));
    lemma_messages_segments(id);
    lemma_segments_injective(path, messages_path(id));
    id
}

/// How many segments a path of each kind has.
proof fn lemma_segment_counts(id: Seq<char>)
    requires
        !id.contains('/'),
    ensures
        segments(collection_path()).len() == 4,
        segments(completion_path(id)).len() == 5,
        segments(messages_path(id)).len() == 6,
        segments("/v1/chat/completions/{completion_id}"@).len() == 5,
        segments("/v1/chat/completions/{completion_id}/messages"@).len() == 6,
{
    lemma_templates();
    lemma_collection_segments();
    lemma_completion_segments(id);
    lemma_messages_segments(id);
    lemma_completion_segments("{completion_id}"@);
    lemma_messages_segments("{completion_id}"@);
}

/// The method texts differ.
proof fn lemma_methods_differ()
    ensures
        "GET"@ != "POST"@,
        "GET"@ != "DELETE"@,
        "POST"@ != "DELETE"@,
{
    reveal_strlit("GET");
    reveal_strlit("POST");
    reveal_strlit("DELETE");
    assert("GET"@.len() == 3 && "POST"@.len() == 4 && "DELETE"@.len() == 6);
}

/// A request head belongs to at most one operation, so the order of the registry
/// does not matter.
pub proof fn law_head_fits_at_most_one_operation(
    method: Seq<char>,
    path: Seq<char>,
    transport: OpenAiTransport,
    i: int,
    j: int,
)
    requires
        0 <= i < registry().len(),
        0 <= j < registry().len(),
        head_fits(registry()[i].definition, method, path, transport),
        head_fits(registry()[j].definition, method, path, transport),
    ensures
        i == j,
{
    lemma_methods_differ();
    lemma_segment_counts(Seq::empty());
}

/// Creation and listing share the collection's path and are told apart by the
/// method.
pub proof fn law_collection_path_resolves()
    ensures
        selects("GET"@, collection_path(), 0),
        selects("POST"@, collection_path(), 1),
        registry()[0].operation == ChatCompletionsOperation::ListChatCompletions,
        registry()[1].operation == ChatCompletionsOperation::CreateChatCompletion,
{
    lemma_methods_differ();
    lemma_collection_template(collection_path());
}

/// The path of a completion resolves by its method to the operation on that
/// completion, and captures its ID.
pub proof fn law_completion_path_resolves(id: Seq<char>)
    requires
        is_completion_id(id),
    ensures
        selects("GET"@, completion_path(id), 2),
        selects("POST"@, completion_path(id), 3),
        selects("DELETE"@, completion_path(id), 4),
        registry()[2].operation == ChatCompletionsOperation::GetChatCompletion,
        registry()[3].operation == ChatCompletionsOperation::UpdateChatCompletion,
        registry()[4].operation == ChatCompletionsOperation::DeleteChatCompletion,
        forall|at: int|
            2 <= at < 5 ==> lookup(
                captures((#[trigger] registry()[at]).definition.runtime_path@, completion_path(id)),
                "completion_id"@,
            ) == Some(id),
{
    lemma_methods_differ();
    lemma_segment_counts(id);
    lemma_completion_template(id);
}

/// The path of a completion's messages resolves to the operation that lists them,
/// and captures the completion's ID.
pub proof fn law_messages_path_resolves(id: Seq<char>)
    requires
        is_completion_id(id),
    ensures
        selects("GET"@, messages_path(id), 5),
        registry()[5].operation == ChatCompletionsOperation::GetChatCompletionMessages,
        lookup(
            captures(registry()[5].definition.runtime_path@, messages_path(id)),
            "completion_id"@,
        ) == Some(id),
{
    lemma_methods_differ();
    lemma_segment_counts(id);
    lemma_messages_template(id);
}

/// No other request head is recognized: a method that the path does not take, and
/// a path beside those of the collection, its completions and their messages, do
/// not match.
pub proof fn law_other_heads_are_not_recognized(method: Seq<char>, path: Seq<char>)
    ensures
        is_recognized(method, path) <==> {
            ||| path == collection_path() && (method == "GET"@ || method == "POST"@)
            ||| (method == "GET"@ || method == "POST"@ || method == "DELETE"@) && exists|
                id: Seq<char>,
            |
                is_completion_id(id) && path == #[trigger] completion_path(id)
            ||| method == "GET"@ && exists|id: Seq<char>|
                is_completion_id(id) && path == #[trigger] messages_path(id)
        },
{
    if is_recognized(method, path) {
        let at = choose|i: int|
            0 <= i < registry().len() && head_fits(
                (#[trigger] registry()[i]).definition,
                method,
                path,
                OpenAiTransport::Http,
            );
        if at < 2 {
            lemma_collection_template(path);
        } else if at < 5 {
            let id = lemma_completion_template_only(path);
            assert(is_completion_id(id) && path == completion_path(id));
        } else {
            let id = lemma_messages_template_only(path);
            assert(is_completion_id(id) && path == messages_path(id));
        }
    }
    if path == collection_path() && (method == "GET"@ || method == "POST"@) {
        law_collection_path_resolves();
        let at: int = if method == "GET"@ { 0 } else { 1 };
        assert(head_fits(registry()[at].definition, method, path, OpenAiTransport::Http));
    }
    if exists|id: Seq<char>| is_completion_id(id) && path == #[trigger] completion_path(id) {
        let id = choose|id: Seq<char>| is_completion_id(id) && path == #[trigger] completion_path(id);
        lemma_completion_template(id);
        if method == "GET"@ || method == "POST"@ || method == "DELETE"@ {
            let at: int = if method == "GET"@ {
                2
            } else if method == "POST"@ {
                3
            } else {
                4
            };
            assert(head_fits(registry()[at].definition, method, path, OpenAiTransport::Http));
        }
    }
    if exists|id: Seq<char>| is_completion_id(id) && path == #[trigger] messages_path(id) {
        let id = choose|id: Seq<char>| is_completion_id(id) && path == #[trigger] messages_path(id);
        lemma_messages_template(id);
        if method == "GET"@ {
            assert(head_fits(registry()[5].definition, method, path, OpenAiTransport::Http));
        }
    }
}

/// The request path of an operation: its template with a completion's ID in the
/// place of the parameter.
pub open spec fn request_path(entry: ChatCompletionsOperationSpec, id: Seq<char>) -> Seq<char> {
    let template = segments(entry.definition.runtime_path@);
    joined(filled(template, Seq::new(template.len(), |i: int| id)), "/"@)
}

/// Every registered operation resolves from its own template, whatever ID stands
/// in the place of the parameter.
pub proof fn law_operation_resolves_from_its_template(at: int, id: Seq<char>)
    requires
        0 <= at < registry().len(),
        is_completion_id(id),
    ensures
        selects(
            registry()[at].definition.method.text(),
            request_path(registry()[at], id),
            at,
        ),
        lookup(
            captures(registry()[at].definition.runtime_path@, request_path(registry()[at], id)),
            "completion_id"@,
        ) == if at < 2 {
            None
        } else {
            Some(id)
        },
{
    let path = request_path(registry()[at], id);
    let template = segments(registry()[at].definition.runtime_path@);
    let values = Seq::new(template.len(), |i: int| id);
    law_filled_template_fits(registry()[at].definition.runtime_path@, values);
    lemma_templates();
    lemma_collection_segments();
    if at < 2 {
        assert(filled(template, values) =~= template);
        lemma_segments_injective(path, collection_path());
        law_collection_path_resolves();
        lemma_collection_template(path);
    } else if at < 5 {
        lemma_completion_segments("{completion_id}"@);
        lemma_completion_segments(id);
        assert(filled(template, values) =~= segments(completion_path(id))) by {
            assert forall|i: int| 0 <= i < 4 implies template[i] == collection_segments()[i]
                && !is_parameter(template[i]) by {}
        }
        lemma_segments_injective(path, completion_path(id));
        law_completion_path_resolves(id);
    } else {
        lemma_messages_segments("{completion_id}"@);
        lemma_messages_segments(id);
        assert(filled(template, values) =~= segments(messages_path(id))) by {
            assert forall|i: int| 0 <= i < 4 implies template[i] == collection_segments()[i]
                && !is_parameter(template[i]) by {}
        }
        lemma_segments_injective(path, messages_path(id));
        law_messages_path_resolves(id);
    }
}

/// No two registry entries share an operation, an operation ID, or a method,
/// transport and path.
pub proof fn law_registry_keys_are_unique(i: int, j: int)
    requires
        0 <= i < j < registry().len(),
    ensures
        registry()[i].operation != registry()[j].operation,
        registry()[i].definition.operation_id@ != registry()[j].definition.operation_id@,
        !({
            &&& registry()[i].definition.method == registry()[j].definition.method
            &&& registry()[i].definition.transport == registry()[j].definition.transport
            &&& registry()[i].definition.spec_path@ == registry()[j].definition.spec_path@
        }),
        !({
            &&& registry()[i].definition.method == registry()[j].definition.method
            &&& registry()[i].definition.transport == registry()[j].definition.transport
            &&& registry()[i].definition.runtime_path@ == registry()[j].definition.runtime_path@
        }),
{
    reveal_strlit("listChatCompletions");
    reveal_strlit("createChatCompletion");
    reveal_strlit("getChatCompletion");
    reveal_strlit("updateChatCompletion");
    reveal_strlit("deleteChatCompletion");
    reveal_strlit("getChatCompletionMessages");
    assert("listChatCompletions"@.len() == 19 && "getChatCompletion"@.len() == 17
        && "getChatCompletionMessages"@.len() == 25);
    assert("createChatCompletion"@.len() == 20 && "createChatCompletion"@[0] == 'c');
    assert("updateChatCompletion"@.len() == 20 && "updateChatCompletion"@[0] == 'u');
    assert("deleteChatCompletion"@.len() == 20 && "deleteChatCompletion"@[0] == 'd');
    reveal_strlit("/chat/completions");
    reveal_strlit("/chat/completions/{completion_id}");
    reveal_strlit("/chat/completions/{completion_id}/messages");
    assert("/chat/completions"@.len() == 17 && "/chat/completions/{completion_id}"@.len() == 33
        && "/chat/completions/{completion_id}/messages"@.len() == 42);
    law_registry_entries(i);
    law_registry_entries(j);
    reveal_strlit("/v1");
    assert(registry()[i].definition.runtime_path@.len() == 3
        + registry()[i].definition.spec_path@.len());
    assert(registry()[j].definition.runtime_path@.len() == 3
        + registry()[j].definition.spec_path@.len());
}

/// Every entry is a plain HTTP operation whose contract the proxy does not own,
/// served under the version prefix. Creation and update require a JSON body, the
/// others have none, and creation alone is inspected.
pub proof fn law_registry_entries(at: int)
    requires
        0 <= at < registry().len(),
    ensures
        registry()[at].definition.family == OpenAiApiFamily::ChatCompletions,
        registry()[at].definition.transport == OpenAiTransport::Http,
        registry()[at].definition.owned_contract is None,
        registry()[at].definition.runtime_path@ == "/v1"@ + registry()[at].definition.spec_path@,
        registry()[at].definition.request_body == (match registry()[at].operation {
            ChatCompletionsOperation::CreateChatCompletion
            | ChatCompletionsOperation::UpdateChatCompletion => OpenAiRequestBody::Json {
                required: true,
            },
            _ => OpenAiRequestBody::Empty,
        }),
        registry()[at].definition.mode == OpenAiHandlingMode::Inspect <==> registry()[at].operation
            == ChatCompletionsOperation::CreateChatCompletion,
{
    reveal_strlit("/v1");
    reveal_strlit("/chat/completions");
    reveal_strlit("/chat/completions/{completion_id}");
    reveal_strlit("/chat/completions/{completion_id}/messages");
    reveal_strlit("/v1/chat/completions");
    reveal_strlit("/v1/chat/completions/{completion_id}");
    reveal_strlit("/v1/chat/completions/{completion_id}/messages");
    assert("/v1/chat/completions"@ =~= "/v1"@ + "/chat/completions"@);
    assert("/v1/chat/completions/{completion_id}"@ =~= "/v1"@
        + "/chat/completions/{completion_id}"@);
    assert("/v1/chat/completions/{completion_id}/messages"@ =~= "/v1"@
        + "/chat/completions/{completion_id}/messages"@);
}

/// The paths are those of the API, and an ID is any text that is not empty and
/// holds no slash.
pub proof fn law_paths(id: Seq<char>)
    ensures
        collection_path() == "/v1/chat/completions"@,
        completion_path(id) == "/v1/chat/completions/"@ + id,
        messages_path(id) == "/v1/chat/completions/"@ + id + "/messages"@,
        is_completion_id(id) <==> id.len() > 0 && forall|i: int|
            0 <= i < id.len() ==> #[trigger] id[i] != '/',
{
    reveal_strlit("/");
    reveal_strlit("/v1/chat/completions");
    reveal_strlit("/v1/chat/completions/");
    assert(completion_path(id) =~= "/v1/chat/completions/"@ + id);
    if forall|i: int| 0 <= i < id.len() ==> #[trigger] id[i] != '/' {
        assert(!id.contains('/'));
    }
    if !id.contains('/') {
        assert forall|i: int| 0 <= i < id.len() implies #[trigger] id[i] != '/' by {
            assert(id.contains(id[i]));
        }
    }
}

/// The entry that a request head selects has the head's method and a path that the
/// head's fits, and no other entry has both. A head that selects one is recognized,
/// and a recognized head selects one.
pub proof fn law_selected_entry_fits(method: Seq<char>, path: Seq<char>, at: int, other: int)
    ensures
        selects(method, path, at) ==> {
            &&& 0 <= at < registry().len()
            &&& registry()[at].definition.method.text() == method
            &&& registry()[at].definition.transport == OpenAiTransport::Http
            &&& path_fits(registry()[at].definition.runtime_path@, path)
            &&& is_recognized(method, path)
        },
        selects(method, path, at) && selects(method, path, other) ==> at == other,
        is_recognized(method, path) ==> exists|i: int| selects(method, path, i),
{
    if selects(method, path, at) {
        assert(head_fits(registry()[at].definition, method, path, OpenAiTransport::Http));
        if selects(method, path, other) {
            law_head_fits_at_most_one_operation(method, path, OpenAiTransport::Http, at, other);
        }
    }
    if is_recognized(method, path) {
        let i = choose|i: int|
            0 <= i < registry().len() && head_fits(
                (#[trigger] registry()[i]).definition,
                method,
                path,
                OpenAiTransport::Http,
            );
        law_first_fit(registry(), method, path, OpenAiTransport::Http, i, i);
        let first = choose|first: int|
            is_first_fit(registry(), method, path, OpenAiTransport::Http, first);
        assert(selects(method, path, first));
    }
}

/// Which head selects which operation: the collection's path lists with GET and
/// creates with POST; a completion's path reads, updates and deletes with GET, POST
/// and DELETE; its messages' path lists them with GET.
pub proof fn law_selected_operations(method: Seq<char>, path: Seq<char>, at: int)
    ensures
        selects(method, path, at) <==> {
            ||| at == 0 && method == "GET"@ && path == "/v1/chat/completions"@
            ||| at == 1 && method == "POST"@ && path == "/v1/chat/completions"@
            ||| (at == 2 && method == "GET"@ || at == 3 && method == "POST"@ || at == 4 && method
                == "DELETE"@) && exists|id: Seq<char>|
                is_completion_id(id) && path == #[trigger] completion_path(id)
            ||| at == 5 && method == "GET"@ && exists|id: Seq<char>|
                is_completion_id(id) && path == #[trigger] messages_path(id)
        },
        selects(method, path, at) ==> registry()[at].operation == seq![
            ChatCompletionsOperation::ListChatCompletions,
            ChatCompletionsOperation::CreateChatCompletion,
            ChatCompletionsOperation::GetChatCompletion,
            ChatCompletionsOperation::UpdateChatCompletion,
            ChatCompletionsOperation::DeleteChatCompletion,
            ChatCompletionsOperation::GetChatCompletionMessages,
        ][at],
{
    if selects(method, path, at) {
        law_selected_entry_fits(method, path, at, at);
        if at < 2 {
            lemma_collection_template(path);
        } else if at < 5 {
            let id = lemma_completion_template_only(path);
            assert(is_completion_id(id) && path == completion_path(id));
        } else {
            let id = lemma_messages_template_only(path);
            assert(is_completion_id(id) && path == messages_path(id));
        }
    }
    law_collection_path_resolves();
    if exists|id: Seq<char>| is_completion_id(id) && path == #[trigger] completion_path(id) {
        let id = choose|id: Seq<char>| is_completion_id(id) && path == #[trigger] completion_path(id);
        law_completion_path_resolves(id);
    }
    if exists|id: Seq<char>| is_completion_id(id) && path == #[trigger] messages_path(id) {
        let id = choose|id: Seq<char>| is_completion_id(id) && path == #[trigger] messages_path(id);
        law_messages_path_resolves(id);
    }
}

/// A selected operation captures the completion's ID and nothing else, and nothing
/// at all on the collection's path.
pub proof fn law_selected_captures(method: Seq<char>, path: Seq<char>, at: int, id: Seq<char>)
    requires
        selects(method, path, at),
    ensures
        at < 2 ==> captures(registry()[at].definition.runtime_path@, path).len() == 0,
        is_completion_id(id) && (path == completion_path(id) || path == messages_path(id))
            ==> captures(registry()[at].definition.runtime_path@, path) == seq![
            ("completion_id"@, id),
        ],
{
    law_selected_operations(method, path, at);
    lemma_collection_template(collection_path());
    if is_completion_id(id) && (path == completion_path(id) || path == messages_path(id)) {
        lemma_segment_counts(id);
        law_selected_entry_fits(method, path, at, at);
        if path == completion_path(id) {
            lemma_completion_template(id);
        } else {
            lemma_messages_template(id);
        }
    }
}

} // verus!
