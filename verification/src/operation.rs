//! Operations of the OpenAI API and how a request head selects one.
//!
//! An operation is known by its method, its transport and the template of its
//! path. A template segment in braces stands for one path segment of the
//! request and gives it a name.
use vstd::prelude::*;
use vstd::string::*;

use crate::string_map::{lemma_lookup_absent, lemma_lookup_at, lookup};
use crate::text::{chars_of, joined, str_eq, str_texts, text_of};

verus! {

// -----------------------------------------------------------------------------
// Metadata
// -----------------------------------------------------------------------------

/// Family of API operations.
#[derive(Clone, Copy, Debug, PartialEq, Eq, Structural)]
pub enum OpenAiApiFamily {
    /// Chat Completions.
    ChatCompletions,
}

/// What the proxy does with an operation's traffic.
#[derive(Clone, Copy, Debug, PartialEq, Eq, Structural)]
pub enum OpenAiHandlingMode {
    /// Read the request before forwarding it.
    Inspect,
    /// Forward the request without reading it.
    Passthrough,
}

/// HTTP method of an operation.
#[derive(Clone, Copy, Debug, PartialEq, Eq, PartialOrd, Ord, Structural)]
pub enum OpenAiHttpMethod {
    /// `GET`
    Get,
    /// `POST`
    Post,
    /// `DELETE`
    Delete,
}

impl OpenAiHttpMethod {
    /// The method as it stands in a request head.
    pub open spec fn text(self) -> Seq<char> {
        match self {
            OpenAiHttpMethod::Get => "GET"@,
            OpenAiHttpMethod::Post => "POST"@,
            OpenAiHttpMethod::Delete => "DELETE"@,
        }
    }

    /// The method as it stands in a request head.
    pub fn as_str(&self) -> (text: &'static str)
        ensures
            text@ == self.text(),
    {
        match self {
            OpenAiHttpMethod::Get => "GET",
            OpenAiHttpMethod::Post => "POST",
            OpenAiHttpMethod::Delete => "DELETE",
        }
    }
}

/// Transport of an operation.
#[derive(Clone, Copy, Debug, PartialEq, Eq, Structural)]
pub enum OpenAiTransport {
    /// A plain HTTP exchange.
    Http,
    /// An upgraded WebSocket connection.
    WebSocket,
}

impl OpenAiTransport {
    /// The name of the transport.
    pub open spec fn text(self) -> Seq<char> {
        match self {
            OpenAiTransport::Http => "http"@,
            OpenAiTransport::WebSocket => "websocket"@,
        }
    }

    /// The name of the transport.
    pub fn as_str(&self) -> (text: &'static str)
        ensures
            text@ == self.text(),
    {
        match self {
            OpenAiTransport::Http => "http",
            OpenAiTransport::WebSocket => "websocket",
        }
    }
}

/// Shape of an operation's request body.
#[derive(Clone, Copy, Debug, PartialEq, Eq, Structural)]
pub enum OpenAiRequestBody {
    /// No body.
    Empty,
    /// A JSON document.
    Json {
        /// Whether a request without the document is malformed.
        required: bool,
    },
}

/// Mark of an operation whose contract the proxy owns rather than forwards.
#[derive(Clone, Copy, Debug, PartialEq, Eq, Structural)]
pub struct OwnedOperationContract {}

/// Static metadata for one operation.
#[derive(Clone, Copy)]
pub struct OpenAiOperationSpec {
    /// Family that the operation belongs to.
    pub family: OpenAiApiFamily,
    /// Official operation ID.
    pub operation_id: &'static str,
    /// HTTP method.
    pub method: OpenAiHttpMethod,
    /// Transport.
    pub transport: OpenAiTransport,
    /// Path template in the specification of the API.
    pub spec_path: &'static str,
    /// Path template that requests to the proxy use.
    pub runtime_path: &'static str,
    /// What the proxy does with the operation's traffic.
    pub mode: OpenAiHandlingMode,
    /// Shape of the request body.
    pub request_body: OpenAiRequestBody,
    /// Contract of an operation that the proxy owns.
    pub owned_contract: Option<OwnedOperationContract>,
}

impl OpenAiOperationSpec {
    /// The contract, where the proxy owns the operation.
    pub fn owned_contract(&self) -> (contract: Option<OwnedOperationContract>)
        ensures
            contract == self.owned_contract,
    {
        self.owned_contract
    }
}

/// An entry of an operation registry.
pub trait OperationEntry {
    /// The entry's operation metadata.
    spec fn definition_of(&self) -> OpenAiOperationSpec;

    /// The entry's operation metadata.
    fn spec(&self) -> (definition: &OpenAiOperationSpec)
        ensures
            *definition == self.definition_of(),
    ;
}

// -----------------------------------------------------------------------------
// Paths and templates
// -----------------------------------------------------------------------------

/// The segments of a path: the texts between its slashes, before the first and
/// after the last.
pub open spec fn segments(path: Seq<char>) -> Seq<Seq<char>>
    decreases path.len(),
{
    if path.len() == 0 {
        seq![Seq::empty()]
    } else {
        let before = segments(path.drop_last());
        if path.last() == '/' {
            before.push(Seq::empty())
        } else {
            before.drop_last().push(before.last().push(path.last()))
        }
    }
}

/// Whether a template segment stands for a segment of the request.
pub open spec fn is_parameter(segment: Seq<char>) -> bool {
    segment.len() >= 2 && segment.first() == '{' && segment.last() == '}'
}

/// The name that a parameter gives to its segment.
pub open spec fn parameter_name(segment: Seq<char>) -> Seq<char> {
    segment.subrange(1, segment.len() - 1)
}

/// Whether a path segment fits a template segment. A parameter takes any
/// segment but an empty one.
pub open spec fn segment_fits(template: Seq<char>, segment: Seq<char>) -> bool {
    if is_parameter(template) {
        segment.len() > 0
    } else {
        segment == template
    }
}

/// Whether a path fits a template, segment by segment.
pub open spec fn path_fits(template: Seq<char>, path: Seq<char>) -> bool {
    &&& segments(template).len() == segments(path).len()
    &&& forall|i: int|
        0 <= i < segments(path).len() ==> #[trigger] segment_fits(
            segments(template)[i],
            segments(path)[i],
        )
}

/// The named path segments, from left to right.
pub open spec fn captured(template: Seq<Seq<char>>, path: Seq<Seq<char>>) -> Seq<
    (Seq<char>, Seq<char>),
>
    decreases template.len(),
{
    if template.len() == 0 {
        Seq::empty()
    } else {
        let before = captured(template.drop_last(), path.drop_last());
        if is_parameter(template.last()) {
            before.push((parameter_name(template.last()), path.last()))
        } else {
            before
        }
    }
}

/// What a path gives to the parameters of a template.
pub open spec fn captures(template: Seq<char>, path: Seq<char>) -> Seq<(Seq<char>, Seq<char>)> {
    captured(segments(template), segments(path))
}

/// Path parameters of a matched route, borrowed from the request path.
pub struct RouteParams<'a> {
    captures: Vec<(&'static str, &'a str)>,
}

impl<'a> View for RouteParams<'a> {
    type V = Seq<(Seq<char>, Seq<char>)>;

    /// The names and the path segments.
    closed spec fn view(&self) -> Seq<(Seq<char>, Seq<char>)> {
        self.captures@.map_values(|entry: (&'static str, &'a str)| (entry.0@, entry.1@))
    }
}

impl<'a> RouteParams<'a> {
    /// The path segment under a name.
    pub fn get(&self, name: &str) -> (value: Option<&'a str>)
        ensures
            text_of(value) == lookup(self@, name@),
    {
        for i in 0..self.captures.len()
            invariant
                forall|j: int| 0 <= j < i ==> (#[trigger] self@[j]).0 != name@,
        {
            let (key, value) = self.captures[i];
            if str_eq(key, name) {
                proof {
                    lemma_lookup_at(self@, name@, i as int);
                }
                return Some(value);
            }
        }
        proof {
            lemma_lookup_absent(self@, name@);
        }
        None
    }
}

// -----------------------------------------------------------------------------
// Matching
// -----------------------------------------------------------------------------

/// Split a path at its slashes.
fn split_path<'a>(path: &'a str) -> (parts: Vec<&'a str>)
    ensures
        str_texts(parts@) == segments(path@),
{
    let chars = chars_of(path);
    let mut parts: Vec<&'a str> = Vec::new();
    let mut start: usize = 0;
    assert(path@.subrange(0, 0) =~= Seq::empty());
    assert(segments(path@.take(0)) =~= str_texts(parts@).push(path@.subrange(0, 0)));
    for i in 0..chars.len()
        invariant
            chars@ == path@,
            start <= i,
            segments(path@.take(i as int)) == str_texts(parts@).push(
                path@.subrange(start as int, i as int),
            ),
    {
        let ghost before = parts@;
        let ghost done = segments(path@.take(i as int));
        assert(path@.take(i + 1).drop_last() =~= path@.take(i as int));
        if chars[i] == '/' {
            parts.push(path.substring_char(start, i));
            assert(str_texts(parts@) =~= str_texts(before).push(
                path@.subrange(start as int, i as int),
            ));
            start = i + 1;
            assert(path@.subrange(start as int, i + 1) =~= Seq::empty());
        } else {
            assert(done.drop_last() =~= str_texts(parts@));
            assert(path@.subrange(start as int, i + 1) =~= path@.subrange(
                start as int,
                i as int,
            ).push(path@[i as int]));
        }
    }
    assert(path@.take(chars.len() as int) =~= path@);
    let ghost before = parts@;
    parts.push(path.substring_char(start, chars.len()));
    assert(str_texts(parts@) =~= str_texts(before).push(
        path@.subrange(start as int, chars.len() as int),
    ));
    parts
}

/// Match a path against a template.
fn match_path<'a>(template: &'static str, path: &'a str) -> (params: Option<RouteParams<'a>>)
    ensures
        params is Some <==> path_fits(template@, path@),
        params matches Some(found) ==> found@ == captures(template@, path@),
{
    let names = split_path(template);
    let parts = split_path(path);
    let ghost expected = segments(template@);
    let ghost given = segments(path@);
    if names.len() != parts.len() {
        return None;
    }
    let mut captures: Vec<(&'static str, &'a str)> = Vec::new();
    let ghost mut seen: Seq<(Seq<char>, Seq<char>)> = Seq::empty();
    for i in 0..names.len()
        invariant
            str_texts(names@) == expected,
            str_texts(parts@) == given,
            names.len() == parts.len(),
            expected == segments(template@),
            given == segments(path@),
            forall|j: int| 0 <= j < i ==> #[trigger] segment_fits(expected[j], given[j]),
            seen == captures@.map_values(|entry: (&'static str, &'a str)| (entry.0@, entry.1@)),
            seen == captured(expected.take(i as int), given.take(i as int)),
    {
        let name = names[i];
        let part = parts[i];
        assert(name@ == expected[i as int]);
        assert(part@ == given[i as int]);
        assert(expected.take(i + 1).drop_last() =~= expected.take(i as int));
        assert(given.take(i + 1).drop_last() =~= given.take(i as int));
        match parameter_of(name) {
            Some(parameter) => {
                if part.is_empty() {
                    assert(!segment_fits(expected[i as int], given[i as int]));
                    return None;
                }
                let ghost before = captures@;
                captures.push((parameter, part));
                proof {
                    seen = seen.push((parameter@, part@));
                    assert(captures@.map_values(
                        |entry: (&'static str, &'a str)| (entry.0@, entry.1@),
                    ) =~= seen);
                }
            },
            None => {
                if !str_eq(name, part) {
                    assert(!segment_fits(expected[i as int], given[i as int]));
                    return None;
                }
            },
        }
    }
    assert(expected.take(names.len() as int) =~= expected);
    assert(given.take(names.len() as int) =~= given);
    Some(RouteParams { captures })
}

/// The name of a template segment that is a parameter.
fn parameter_of(segment: &'static str) -> (name: Option<&'static str>)
    ensures
        name is Some <==> is_parameter(segment@),
        name matches Some(text) ==> text@ == parameter_name(segment@),
{
    let chars = chars_of(segment);
    let len: usize = chars.len();
    if len >= 2 && chars[0] == '{' && chars[len - 1] == '}' {
        Some(segment.substring_char(1, len - 1))
    } else {
        None
    }
}

/// Whether a request head belongs to an operation.
pub open spec fn head_fits(
    definition: OpenAiOperationSpec,
    method: Seq<char>,
    path: Seq<char>,
    transport: OpenAiTransport,
) -> bool {
    &&& definition.transport == transport
    &&& definition.method.text() == method
    &&& path_fits(definition.runtime_path@, path)
}

/// Whether an entry is the first of a registry that a request head belongs to.
pub open spec fn is_first_fit<T: OperationEntry>(
    entries: Seq<T>,
    method: Seq<char>,
    path: Seq<char>,
    transport: OpenAiTransport,
    at: int,
) -> bool {
    &&& 0 <= at < entries.len()
    &&& head_fits(entries[at].definition_of(), method, path, transport)
    &&& forall|i: int|
        0 <= i < at ==> !head_fits(
            (#[trigger] entries[i]).definition_of(),
            method,
            path,
            transport,
        )
}

/// One matched operation.
pub struct MatchedOperation<'a, T: 'static> {
    /// The registry entry.
    pub spec: &'static T,
    /// Borrowed path parameters.
    pub params: RouteParams<'a>,
}

/// Find the first operation of a registry that a request head belongs to.
pub fn match_operation<'a, T: OperationEntry>(
    entries: &'static [T],
    method: &str,
    path: &'a str,
    transport: OpenAiTransport,
) -> (matched: Option<MatchedOperation<'a, T>>)
    ensures
        match matched {
            Some(found) => exists|at: int| #[trigger]
                is_first_fit(entries@, method@, path@, transport, at) && *found.spec == entries@[at]
                    && found.params@ == captures(
                    entries@[at].definition_of().runtime_path@,
                    path@,
                ),
            None => forall|i: int|
                0 <= i < entries@.len() ==> !head_fits(
                    (#[trigger] entries@[i]).definition_of(),
                    method@,
                    path@,
                    transport,
                ),
        },
{
    for i in 0..entries.len()
        invariant
            forall|j: int|
                0 <= j < i ==> !head_fits(
                    (#[trigger] entries@[j]).definition_of(),
                    method@,
                    path@,
                    transport,
                ),
    {
        let entry: &'static T = &entries[i];
        let definition = entry.spec();
        if definition.transport == transport && str_eq(definition.method.as_str(), method) {
            match match_path(definition.runtime_path, path) {
                Some(params) => {
                    assert(is_first_fit(entries@, method@, path@, transport, i as int));
                    return Some(MatchedOperation { spec: entry, params });
                },
                None => {},
            }
        }
    }
    None
}

// -----------------------------------------------------------------------------
// Laws
// -----------------------------------------------------------------------------

/// Appending a slash and a text without slashes appends a segment.
pub proof fn lemma_segments_append(path: Seq<char>, segment: Seq<char>)
    requires
        !segment.contains('/'),
    ensures
        segments(path.push('/') + segment) == segments(path).push(segment),
    decreases segment.len(),
{
    let whole = path.push('/') + segment;
    if segment.len() == 0 {
        assert(whole =~= path.push('/'));
        assert(whole.drop_last() =~= path);
        assert(segment =~= Seq::empty());
    } else {
        let shorter = segment.drop_last();
        assert forall|i: int| 0 <= i < shorter.len() implies shorter[i] != '/' by {
            assert(segment.contains(segment[i]));
        }
        assert(segment.contains(segment.last()));
        lemma_segments_append(path, shorter);
        assert(whole.drop_last() =~= path.push('/') + shorter);
        assert(segments(path).push(shorter).drop_last() =~= segments(path));
        assert(shorter.push(segment.last()) =~= segment);
    }
}

/// A text without slashes is its own only segment.
pub proof fn lemma_segments_of_plain(text: Seq<char>)
    requires
        !text.contains('/'),
    ensures
        segments(text) == seq![text],
    decreases text.len(),
{
    if text.len() == 0 {
        assert(text =~= Seq::empty());
    } else {
        let shorter = text.drop_last();
        assert forall|i: int| 0 <= i < shorter.len() implies shorter[i] != '/' by {
            assert(text.contains(text[i]));
        }
        assert(text.contains(text.last()));
        lemma_segments_of_plain(shorter);
        assert(shorter.push(text.last()) =~= text);
    }
}

/// The segments of a path, joined with slashes, give the path back. There is at
/// least one, and none holds a slash.
pub proof fn law_joined_segments(path: Seq<char>)
    ensures
        joined(segments(path), "/"@) == path,
        segments(path).len() > 0,
        forall|i: int| 0 <= i < segments(path).len() ==> !(#[trigger] segments(path)[i]).contains('/'),
    decreases path.len(),
{
    reveal_strlit("/");
    if path.len() > 0 {
        let shorter = path.drop_last();
        let before = segments(shorter);
        let after = segments(path);
        law_joined_segments(shorter);
        if path.last() == '/' {
            assert(after.drop_last() =~= before);
            assert(joined(after, "/"@) =~= path);
        } else {
            let c = path.last();
            assert(after.drop_last() =~= before.drop_last());
            assert(joined(after, "/"@) =~= joined(before, "/"@).push(c));
            assert(shorter.push(c) =~= path);
            assert forall|i: int| 0 <= i < after.len() implies !(#[trigger] after[i]).contains(
                '/',
            ) by {
                if i < before.len() - 1 {
                    assert(after[i] == before[i]);
                } else if after[i].contains('/') {
                    let last = before.last();
                    let k = choose|k: int| 0 <= k < after[i].len() && after[i][k] == '/';
                    assert(last[k] == '/');
                    assert(last.contains('/'));
                }
            }
        }
    }
}

/// Texts without slashes, joined with slashes, are the segments of the path that
/// they make.
pub proof fn law_segments_of_joined(parts: Seq<Seq<char>>)
    requires
        parts.len() > 0,
        forall|i: int| 0 <= i < parts.len() ==> !(#[trigger] parts[i]).contains('/'),
    ensures
        segments(joined(parts, "/"@)) == parts,
    decreases parts.len(),
{
    reveal_strlit("/");
    if parts.len() == 1 {
        lemma_segments_of_plain(parts[0]);
        assert(parts =~= seq![parts[0]]);
    } else {
        let before = parts.drop_last();
        law_segments_of_joined(before);
        lemma_segments_append(joined(before, "/"@), parts.last());
        assert(joined(parts, "/"@) =~= joined(before, "/"@).push('/') + parts.last());
        assert(before.push(parts.last()) =~= parts);
    }
}

/// Two paths with the same segments are the same path.
pub proof fn lemma_segments_injective(a: Seq<char>, b: Seq<char>)
    requires
        segments(a) == segments(b),
    ensures
        a == b,
{
    law_joined_segments(a);
    law_joined_segments(b);
}

/// The segments of a path that fits a template: the template's own, with a value
/// in the place of each parameter.
pub open spec fn filled(template: Seq<Seq<char>>, values: Seq<Seq<char>>) -> Seq<Seq<char>> {
    Seq::new(
        template.len(),
        |i: int|
            if is_parameter(template[i]) {
                values[i]
            } else {
                template[i]
            },
    )
}

/// A template fits every path that has, in the place of each parameter, a segment
/// that is not empty.
pub proof fn law_filled_template_fits(template: Seq<char>, values: Seq<Seq<char>>)
    requires
        forall|i: int|
            0 <= i < segments(template).len() && is_parameter(#[trigger] segments(template)[i])
                ==> values[i].len() > 0 && !values[i].contains('/'),
    ensures
        ({
            let path = joined(filled(segments(template), values), "/"@);
            &&& segments(path) == filled(segments(template), values)
            &&& path_fits(template, path)
        }),
{
    let parts = filled(segments(template), values);
    law_joined_segments(template);
    assert forall|i: int| 0 <= i < parts.len() implies !(#[trigger] parts[i]).contains('/') by {
        assert(!segments(template)[i].contains('/'));
    }
    law_segments_of_joined(parts);
}

/// A template without parameters fits the path that it spells, and no other.
pub proof fn law_plain_template_fits_itself(template: Seq<char>, path: Seq<char>)
    requires
        forall|i: int|
            0 <= i < segments(template).len() ==> !is_parameter(#[trigger] segments(template)[i]),
    ensures
        path_fits(template, path) <==> path == template,
{
    if path_fits(template, path) {
        assert forall|i: int| 0 <= i < segments(path).len() implies segments(path)[i] == segments(
            template,
        )[i] by {
            assert(segment_fits(segments(template)[i], segments(path)[i]));
        }
        assert(segments(path) =~= segments(template));
        lemma_segments_injective(path, template);
    }
}

/// The methods and transports are written as HTTP and the registry write them.
pub proof fn law_written_forms()
    ensures
        OpenAiHttpMethod::Get.text() == "GET"@,
        OpenAiHttpMethod::Post.text() == "POST"@,
        OpenAiHttpMethod::Delete.text() == "DELETE"@,
        OpenAiTransport::Http.text() == "http"@,
        OpenAiTransport::WebSocket.text() == "websocket"@,
{
}

/// A parameter is a name in braces, and gives its segment that name.
pub proof fn law_parameters(segment: Seq<char>, name: Seq<char>)
    ensures
        is_parameter(seq!['{'] + name + seq!['}']),
        parameter_name(seq!['{'] + name + seq!['}']) == name,
        is_parameter(segment) ==> segment == seq!['{'] + parameter_name(segment) + seq!['}'],
{
    assert(parameter_name(seq!['{'] + name + seq!['}']) =~= name);
    if is_parameter(segment) {
        assert(segment =~= seq!['{'] + parameter_name(segment) + seq!['}']);
    }
}

/// A path fits a template exactly when it has as many segments, none of them empty
/// where the template has a parameter, and all others the template's own.
pub proof fn law_path_fits(template: Seq<char>, path: Seq<char>)
    ensures
        path_fits(template, path) <==> {
            &&& segments(path).len() == segments(template).len()
            &&& forall|i: int|
                #![trigger segments(path)[i]]
                0 <= i < segments(path).len() && !is_parameter(segments(template)[i]) ==> segments(
                    path,
                )[i] == segments(template)[i]
            &&& forall|i: int|
                #![trigger segments(path)[i]]
                0 <= i < segments(path).len() && is_parameter(segments(template)[i]) ==> segments(
                    path,
                )[i].len() > 0
        },
{
    if path_fits(template, path) {
        assert forall|i: int| 0 <= i < segments(path).len() implies segment_fits(
            segments(template)[i],
            #[trigger] segments(path)[i],
        ) by {}
    } else if segments(path).len() == segments(template).len() {
        let i = choose|i: int|
            0 <= i < segments(path).len() && !#[trigger] segment_fits(
                segments(template)[i],
                segments(path)[i],
            );
        assert(segments(path)[i] == segments(path)[i]);
    }
}

/// A template and a path that are put together from two each give what the two
/// give, one behind the other. A parameter gives its name and the segment in its
/// place, and no other segment gives anything.
pub proof fn law_captured(
    first: Seq<Seq<char>>,
    first_path: Seq<Seq<char>>,
    second: Seq<Seq<char>>,
    second_path: Seq<Seq<char>>,
    segment: Seq<char>,
    given: Seq<char>,
)
    requires
        first.len() == first_path.len(),
        second.len() == second_path.len(),
    ensures
        captured(first + second, first_path + second_path) == captured(first, first_path)
            + captured(second, second_path),
        captured(seq![segment], seq![given]) == if is_parameter(segment) {
            seq![(parameter_name(segment), given)]
        } else {
            Seq::empty()
        },
    decreases second.len(),
{
    assert(captured(seq![segment].drop_last(), seq![given].drop_last()) =~= Seq::empty());
    assert(captured(seq![segment], seq![given]) =~= if is_parameter(segment) {
        seq![(parameter_name(segment), given)]
    } else {
        Seq::empty()
    });
    if second.len() == 0 {
        assert(first + second =~= first);
        assert(first_path + second_path =~= first_path);
        assert(captured(first, first_path) + captured(second, second_path) =~= captured(
            first,
            first_path,
        ));
    } else {
        law_captured(
            first,
            first_path,
            second.drop_last(),
            second_path.drop_last(),
            segment,
            given,
        );
        assert((first + second).drop_last() =~= first + second.drop_last());
        assert((first_path + second_path).drop_last() =~= first_path + second_path.drop_last());
        assert(captured(first + second, first_path + second_path) =~= captured(first, first_path)
            + captured(second, second_path));
    }
}

/// A path gives a template's parameters what its segments give the template's.
pub proof fn law_captures(template: Seq<char>, path: Seq<char>)
    ensures
        captures(template, path) == captured(segments(template), segments(path)),
{
}

/// A request head belongs to an operation exactly when transport, method and path
/// all do.
pub proof fn law_head_fits(
    definition: OpenAiOperationSpec,
    method: Seq<char>,
    path: Seq<char>,
    transport: OpenAiTransport,
)
    ensures
        head_fits(definition, method, path, transport) <==> path_fits(
            definition.runtime_path@,
            path,
        ) && method == definition.method.text() && transport == definition.transport,
{
}

/// The first entry that a request head belongs to is one that it belongs to, and
/// there is one wherever the head belongs to any. There is only one first.
pub proof fn law_first_fit<T: OperationEntry>(
    entries: Seq<T>,
    method: Seq<char>,
    path: Seq<char>,
    transport: OpenAiTransport,
    at: int,
    other: int,
)
    ensures
        is_first_fit(entries, method, path, transport, at) ==> 0 <= at < entries.len() && head_fits(
            entries[at].definition_of(),
            method,
            path,
            transport,
        ),
        is_first_fit(entries, method, path, transport, at) && 0 <= other < entries.len()
            && head_fits(entries[other].definition_of(), method, path, transport) ==> at <= other,
        0 <= other < entries.len() && head_fits(
            entries[other].definition_of(),
            method,
            path,
            transport,
        ) ==> exists|first: int| is_first_fit(entries, method, path, transport, first),
    decreases other,
{
    if 0 <= other < entries.len() && head_fits(
        entries[other].definition_of(),
        method,
        path,
        transport,
    ) {
        if exists|i: int|
            0 <= i < other && head_fits(
                (#[trigger] entries[i]).definition_of(),
                method,
                path,
                transport,
            ) {
            let i = choose|i: int|
                0 <= i < other && head_fits(
                    (#[trigger] entries[i]).definition_of(),
                    method,
                    path,
                    transport,
                );
            law_first_fit(entries, method, path, transport, at, i);
        } else {
            assert(is_first_fit(entries, method, path, transport, other));
        }
    }
}

} // verus!
