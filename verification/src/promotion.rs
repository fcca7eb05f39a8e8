//! Promotion of values from a request body to headers.
//!
//! A promoted value must be short and safe as a header value, and the header
//! that it goes to must not be one that steers the transport, carries a
//! credential or belongs to another part of the proxy.
use vstd::prelude::*;
use vstd::string::*;

use crate::error::{reports, FilterError};
use crate::header_name::{
    check_header_name, header_name_fault, is_header_name, parse_header_name,
};
use crate::text::{
    ascii_lower, has_prefix, lemma_ascii_lower_idempotent, starts_with, str_eq, text_of,
};

verus! {

/// Longest value that may be promoted to a header, metadata key, or filter result.
pub const MAX_PROMOTED_VALUE_LEN: usize = 256;

// -----------------------------------------------------------------------------
// Values
// -----------------------------------------------------------------------------

/// Whether a byte may stand in a header value: a tab, or anything that is not a
/// control character.
pub open spec fn is_safe_value_byte(b: u8) -> bool {
    b == 0x09 || (b >= 0x20 && b != 0x7f)
}

/// Whether bytes may be sent as a header value.
pub open spec fn is_safe_value(bytes: Seq<u8>) -> bool {
    forall|i: int| 0 <= i < bytes.len() ==> is_safe_value_byte(#[trigger] bytes[i])
}

/// Whether a value is safe to promote to an HTTP header value.
pub fn is_safe_promoted_value(val: &str) -> (safe: bool)
    ensures
        safe == is_safe_value(val.spec_bytes()),
{
    let bytes = val.as_bytes();
    for i in 0..bytes.len()
        invariant
            bytes@ == val.spec_bytes(),
            forall|j: int| 0 <= j < i ==> is_safe_value_byte(#[trigger] bytes@[j]),
    {
        let b: u8 = bytes[i];
        if !(b == 0x09 || (b >= 0x20 && b != 0x7f)) {
            assert(!is_safe_value_byte(val.spec_bytes()[i as int]));
            return false;
        }
    }
    true
}

/// Returns `true` iff `val` is within the length limit and safe for HTTP header use.
pub fn is_promotable_value(val: &str) -> (promotable: bool)
    ensures
        promotable == (val.spec_bytes().len() <= MAX_PROMOTED_VALUE_LEN && is_safe_value(
            val.spec_bytes(),
        )),
{
    val.as_bytes().len() <= MAX_PROMOTED_VALUE_LEN && is_safe_promoted_value(val)
}

// -----------------------------------------------------------------------------
// Header names, all in lower case
// -----------------------------------------------------------------------------

/// The hop-by-hop headers: they concern one connection and are never forwarded.
pub open spec fn is_hop_by_hop_name(name: Seq<char>) -> bool {
    ||| name == "connection"@
    ||| name == "keep-alive"@
    ||| name == "proxy-authenticate"@
    ||| name == "proxy-authorization"@
    ||| name == "te"@
    ||| name == "trailer"@
    ||| name == "transfer-encoding"@
    ||| name == "upgrade"@
}

/// The headers that the transport sets: hop-by-hop headers, message framing and
/// the host.
pub open spec fn is_transport_name(name: Seq<char>) -> bool {
    ||| name == "content-length"@
    ||| name == "host"@
    ||| is_hop_by_hop_name(name)
}

/// The headers that carry credentials.
pub open spec fn is_credential_name(name: Seq<char>) -> bool {
    ||| name == "authorization"@
    ||| name == "cookie"@
    ||| name == "set-cookie"@
    ||| name == "www-authenticate"@
}

/// The proxy's own headers outside the namespaces for facts about AI traffic.
pub open spec fn is_unrelated_internal_name(name: Seq<char>) -> bool {
    &&& has_prefix(name, "x-praxis-"@)
    &&& !has_prefix(name, "x-praxis-ai-"@)
    &&& !has_prefix(name, "x-praxis-responses-"@)
}

/// The headers that must not be promotion targets.
pub open spec fn is_unsafe_name(name: Seq<char>) -> bool {
    ||| is_transport_name(name)
    ||| is_credential_name(name)
    ||| is_unrelated_internal_name(name)
}

/// Whether `name`, in lower case, is a hop-by-hop header.
pub fn is_hop_by_hop(name: &str) -> (hop: bool)
    ensures
        hop == is_hop_by_hop_name(name@),
{
    str_eq(name, "connection") || str_eq(name, "keep-alive") || str_eq(name, "proxy-authenticate")
        || str_eq(name, "proxy-authorization") || str_eq(name, "te") || str_eq(name, "trailer")
        || str_eq(name, "transfer-encoding") || str_eq(name, "upgrade")
}

/// Hop-by-hop, framing, Host, and proxy-auth names that must not be
/// used as promotion-header targets, in any case.
///
/// Composes [`is_hop_by_hop`] with `Host` and `Content-Length`, which are
/// transport-controlled but not hop-by-hop.
pub fn is_transport_controlled_header(name: &str) -> (controlled: bool)
    ensures
        controlled == is_transport_name(ascii_lower(name@)),
{
    let name = name.to_ascii_lowercase();
    str_eq(name.as_str(), "content-length") || str_eq(name.as_str(), "host") || is_hop_by_hop(
        name.as_str(),
    )
}

/// Whether `name` is unsafe as a body-derived promotion-header target.
///
/// Blocks transport-controlled names, request credentials, and internal
/// `x-praxis-*` headers outside the AI fact namespaces (`x-praxis-ai-*`,
/// `x-praxis-responses-*`).
pub fn is_unsafe_promotion_header(name: &str) -> (blocked: bool)
    ensures
        blocked == is_unsafe_name(ascii_lower(name@)),
{
    proof {
        lemma_ascii_lower_idempotent(name@);
    }
    let name = name.to_ascii_lowercase();
    is_transport_controlled_header(name.as_str()) || is_credential_header(name.as_str())
        || is_unrelated_internal_header(name.as_str())
}

/// Credential names that must not receive a client-derived model string.
pub fn is_credential_header(name: &str) -> (credential: bool)
    ensures
        credential == is_credential_name(name@),
{
    str_eq(name, "authorization") || str_eq(name, "cookie") || str_eq(name, "set-cookie") || str_eq(
        name,
        "www-authenticate",
    )
}

/// Internal Praxis headers that are not AI classification/rewrite facts.
pub fn is_unrelated_internal_header(name: &str) -> (unrelated: bool)
    ensures
        unrelated == is_unrelated_internal_name(name@),
{
    starts_with(name, "x-praxis-") && !starts_with(name, "x-praxis-ai-") && !starts_with(
        name,
        "x-praxis-responses-",
    )
}

// -----------------------------------------------------------------------------
// Validation
// -----------------------------------------------------------------------------

/// The message for which a promotion target is rejected as unsafe, if it is.
pub open spec fn unsafe_target_fault(
    filter: Seq<char>,
    field: Seq<char>,
    name: Seq<char>,
) -> Option<Seq<char>> {
    if is_header_name(name) && is_unsafe_name(ascii_lower(name)) {
        Some(
            filter + ": '"@ + field
                + "' must not use transport, credential, or internal header '"@ + ascii_lower(name)
                + "'"@,
        )
    } else {
        None
    }
}

/// The message for which a promotion header is rejected, if it is: its syntax is
/// checked first, then whether it is a safe target.
pub open spec fn promotion_header_fault(
    filter: Seq<char>,
    field: Seq<char>,
    name: Option<Seq<char>>,
) -> Option<Seq<char>> {
    match header_name_fault(filter, field, name) {
        Some(message) => Some(message),
        None => match name {
            Some(text) => unsafe_target_fault(filter, field, text),
            None => None,
        },
    }
}

/// Validate syntax and reject unsafe promotion-header targets.
///
/// # Errors
///
/// Returns [`FilterError`] when the name is empty, not a valid HTTP
/// header name, or an unsafe promotion target.
pub fn validate_promotion_header(filter: &str, field: &str, name: Option<&str>) -> (result: Result<
    (),
    FilterError,
>)
    ensures
        reports(result, promotion_header_fault(filter@, field@, text_of(name))),
{
    match check_header_name(filter, field, name) {
        Err(message) => Err(FilterError::new(message)),
        Ok(()) => match name {
            None => Ok(()),
            Some(raw) => reject_unsafe_promotion_target(filter, field, raw),
        },
    }
}

/// Reject a parsed promotion target that would overwrite transport or routing state.
pub fn reject_unsafe_promotion_target(filter: &str, field: &str, raw: &str) -> (result: Result<
    (),
    FilterError,
>)
    ensures
        reports(result, unsafe_target_fault(filter@, field@, raw@)),
{
    match parse_header_name(raw) {
        None => Ok(()),
        Some(parsed) => {
            proof {
                lemma_ascii_lower_idempotent(raw@);
            }
            if is_unsafe_promotion_header(parsed.as_str()) {
                let mut message = filter.to_owned();
                message.append(": '");
                message.append(field);
                message.append("' must not use transport, credential, or internal header '");
                message.append(parsed.as_str());
                message.append("'");
                Err(FilterError::new(message))
            } else {
                Ok(())
            }
        },
    }
}

// -----------------------------------------------------------------------------
// Laws
// -----------------------------------------------------------------------------

/// How a header name is written does not matter: a name and its lower-case form
/// are classified alike, and so are two names that differ in case alone.
pub proof fn law_case_does_not_matter(name: Seq<char>, other: Seq<char>)
    requires
        ascii_lower(name) == ascii_lower(other),
    ensures
        is_transport_name(ascii_lower(name)) == is_transport_name(ascii_lower(other)),
        is_unsafe_name(ascii_lower(name)) == is_unsafe_name(ascii_lower(other)),
        is_transport_name(ascii_lower(ascii_lower(name))) == is_transport_name(ascii_lower(name)),
        is_unsafe_name(ascii_lower(ascii_lower(name))) == is_unsafe_name(ascii_lower(name)),
{
    lemma_ascii_lower_idempotent(name);
}

/// No header that steers the transport or carries a credential is a safe target.
pub proof fn law_transport_and_credential_headers_are_unsafe(name: Seq<char>)
    ensures
        is_hop_by_hop_name(name) ==> is_transport_name(name),
        is_transport_name(name) ==> is_unsafe_name(name),
        is_credential_name(name) ==> is_unsafe_name(name),
{
}

/// No name of the proxy's own is a transport header or a credential.
proof fn lemma_praxis_names_are_not_listed(name: Seq<char>)
    requires
        has_prefix(name, "x-praxis-"@),
    ensures
        !is_transport_name(name),
        !is_credential_name(name),
{
    reveal_strlit("x-praxis-");
    assert(name[0] == "x-praxis-"@[0]) by {
        assert(name.subrange(0, "x-praxis-"@.len() as int)[0] == name[0]);
    }
    reveal_strlit("connection");
    reveal_strlit("keep-alive");
    reveal_strlit("proxy-authenticate");
    reveal_strlit("proxy-authorization");
    reveal_strlit("te");
    reveal_strlit("trailer");
    reveal_strlit("transfer-encoding");
    reveal_strlit("upgrade");
    reveal_strlit("content-length");
    reveal_strlit("host");
    reveal_strlit("authorization");
    reveal_strlit("cookie");
    reveal_strlit("set-cookie");
    reveal_strlit("www-authenticate");
    assert(name[0] == 'x');
    assert("connection"@[0] == 'c' && "keep-alive"@[0] == 'k' && "proxy-authenticate"@[0] == 'p'
        && "proxy-authorization"@[0] == 'p' && "te"@[0] == 't' && "trailer"@[0] == 't'
        && "transfer-encoding"@[0] == 't' && "upgrade"@[0] == 'u' && "content-length"@[0] == 'c'
        && "host"@[0] == 'h');
    assert("authorization"@[0] == 'a' && "cookie"@[0] == 'c' && "set-cookie"@[0] == 's'
        && "www-authenticate"@[0] == 'w');
}

/// The namespaces for facts about AI traffic stay open to promotion.
pub proof fn law_ai_fact_namespaces_are_safe(name: Seq<char>)
    requires
        has_prefix(name, "x-praxis-ai-"@) || has_prefix(name, "x-praxis-responses-"@),
    ensures
        !is_unsafe_name(name),
{
    reveal_strlit("x-praxis-");
    reveal_strlit("x-praxis-ai-");
    reveal_strlit("x-praxis-responses-");
    let namespace = if has_prefix(name, "x-praxis-ai-"@) {
        "x-praxis-ai-"@
    } else {
        "x-praxis-responses-"@
    };
    let head = name.subrange(0, namespace.len() as int);
    assert(name.subrange(0, 9) =~= head.subrange(0, 9));
    assert(namespace.subrange(0, 9) =~= "x-praxis-"@);
    lemma_praxis_names_are_not_listed(name);
}

/// The rest of the proxy's own namespace is closed to promotion, and outside of it
/// only transport headers and credentials are.
pub proof fn law_other_names(name: Seq<char>)
    requires
        !has_prefix(name, "x-praxis-ai-"@),
        !has_prefix(name, "x-praxis-responses-"@),
    ensures
        has_prefix(name, "x-praxis-"@) ==> is_unsafe_name(name),
        !has_prefix(name, "x-praxis-"@) ==> (is_unsafe_name(name) <==> is_transport_name(name)
            || is_credential_name(name)),
{
}

/// A promotion header is accepted exactly when it is absent, or a valid header
/// name that is a safe target.
pub proof fn law_accepted_promotion_headers(
    filter: Seq<char>,
    field: Seq<char>,
    name: Option<Seq<char>>,
)
    ensures
        promotion_header_fault(filter, field, name) is None <==> match name {
            None => true,
            Some(text) => is_header_name(text) && !is_unsafe_name(ascii_lower(text)),
        },
{
}

/// A value is safe exactly when each of its bytes is, and a byte is unsafe exactly
/// when it is DEL or, tab aside, comes before the space.
pub proof fn law_safe_values(a: Seq<u8>, b: Seq<u8>, c: u8)
    ensures
        is_safe_value(Seq::empty()),
        is_safe_value(seq![c]) <==> c != 127 && (c >= 32 || c == 9),
        is_safe_value(a + b) <==> is_safe_value(a) && is_safe_value(b),
{
    assert(seq![c][0] == c);
    if is_safe_value(a + b) {
        assert forall|i: int| 0 <= i < a.len() implies is_safe_value_byte(#[trigger] a[i]) by {
            assert((a + b)[i] == a[i]);
        }
        assert forall|i: int| 0 <= i < b.len() implies is_safe_value_byte(#[trigger] b[i]) by {
            assert((a + b)[a.len() + i] == b[i]);
        }
    }
}

/// The transport controls ten headers: two for framing and routing, and eight that
/// go from hop to hop. Four more carry credentials. No other name is among either.
pub proof fn law_listed_names(name: Seq<char>)
    ensures
        is_hop_by_hop_name(name) <==> seq![
            "connection"@,
            "keep-alive"@,
            "proxy-authenticate"@,
            "proxy-authorization"@,
            "te"@,
            "trailer"@,
            "transfer-encoding"@,
            "upgrade"@,
        ].contains(name),
        is_transport_name(name) <==> is_hop_by_hop_name(name) || name == "content-length"@ || name
            == "host"@,
        is_credential_name(name) <==> seq![
            "authorization"@,
            "cookie"@,
            "set-cookie"@,
            "www-authenticate"@,
        ].contains(name),
{
    let hops = seq![
        "connection"@,
        "keep-alive"@,
        "proxy-authenticate"@,
        "proxy-authorization"@,
        "te"@,
        "trailer"@,
        "transfer-encoding"@,
        "upgrade"@,
    ];
    assert(hops[0] == "connection"@ && hops[1] == "keep-alive"@ && hops[2]
        == "proxy-authenticate"@ && hops[3] == "proxy-authorization"@ && hops[4] == "te"@
        && hops[5] == "trailer"@ && hops[6] == "transfer-encoding"@ && hops[7] == "upgrade"@);
    let credentials = seq!["authorization"@, "cookie"@, "set-cookie"@, "www-authenticate"@];
    assert(credentials[0] == "authorization"@ && credentials[1] == "cookie"@ && credentials[2]
        == "set-cookie"@ && credentials[3] == "www-authenticate"@);
}

/// A rejected promotion header is told why: that it is empty, that it is not valid,
/// or, naming it in lower case, that it is not a safe target.
pub proof fn law_promotion_header_messages(filter: Seq<char>, field: Seq<char>, name: Seq<char>)
    ensures
        name.len() == 0 ==> promotion_header_fault(filter, field, Some(name)) == Some(
            filter + ": "@ + field + " header name must not be empty"@,
        ),
        name.len() > 0 && !is_header_name(name) ==> promotion_header_fault(
            filter,
            field,
            Some(name),
        ) == Some(filter + ": "@ + field + " header name is not a valid HTTP header name"@),
        is_header_name(name) && is_unsafe_name(ascii_lower(name)) ==> promotion_header_fault(
            filter,
            field,
            Some(name),
        ) == Some(
            filter + ": '"@ + field
                + "' must not use transport, credential, or internal header '"@ + ascii_lower(name)
                + "'"@,
        ),
        unsafe_target_fault(filter, field, name) == if is_header_name(name) {
            promotion_header_fault(filter, field, Some(name))
        } else {
            None
        },
{
}

} // verus!
