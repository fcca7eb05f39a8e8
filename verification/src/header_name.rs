//! HTTP header names.
use vstd::prelude::*;
use vstd::string::*;

use crate::text::{ascii_lower, text_of};

verus! {

/// The longest header name that the HTTP library takes.
pub const MAX_HEADER_NAME_LEN: usize = 65535;

/// Whether a character may stand in a header name: a letter, a digit or one of
/// the marks that HTTP allows in a token.
pub open spec fn is_token_char(c: char) -> bool {
    ||| 'a' <= c && c <= 'z'
    ||| 'A' <= c && c <= 'Z'
    ||| '0' <= c && c <= '9'
    ||| c == '!' || c == '#' || c == '$' || c == '%' || c == '&' || c == '\''
    ||| c == '*' || c == '+' || c == '-' || c == '.' || c == '^' || c == '_'
    ||| c == '`' || c == '|' || c == '~'
}

/// Whether a text is a valid HTTP header name.
pub open spec fn is_header_name(s: Seq<char>) -> bool {
    &&& 1 <= s.len() <= MAX_HEADER_NAME_LEN
    &&& forall|i: int| 0 <= i < s.len() ==> is_token_char(#[trigger] s[i])
}

/// `http::HeaderName::from_bytes` accepts the valid header names and no other
/// bytes, and `HeaderName::as_str` gives the accepted name in lower case.
#[verifier::external_body]
pub(crate) fn parse_header_name(name: &str) -> (parsed: Option<String>)
    ensures
        parsed is Some <==> is_header_name(name@),
        parsed matches Some(lowered) ==> lowered@ == ascii_lower(name@),
{
    http::HeaderName::from_bytes(name.as_bytes()).ok().map(|parsed| parsed.as_str().to_owned())
}

/// The message for which the shared header-name check rejects a name, if it
/// does.
pub open spec fn header_name_fault(
    filter: Seq<char>,
    field: Seq<char>,
    name: Option<Seq<char>>,
) -> Option<Seq<char>> {
    match name {
        None => None,
        Some(text) => if text.len() == 0 {
            Some(filter + ": "@ + field + " header name must not be empty"@)
        } else if !is_header_name(text) {
            Some(filter + ": "@ + field + " header name is not a valid HTTP header name"@)
        } else {
            None
        },
    }
}

/// `praxis_filter`'s `validate_header_name` accepts an absent name and a valid
/// header name. It rejects an empty name and an invalid one, each with a message
/// that names the filter and the field.
#[verifier::external_body]
pub(crate) fn check_header_name(filter: &str, field: &str, name: Option<&str>) -> (checked: Result<
    (),
    String,
>)
    ensures
        match checked {
            Ok(()) => header_name_fault(filter@, field@, text_of(name)) is None,
            Err(message) => header_name_fault(filter@, field@, text_of(name)) == Some(message@),
        },
{
    praxis_filter::builtins::http::payload_processing::config_validation::validate_header_name(
        filter,
        field,
        name,
    ).map_err(|error| error.to_string())
}

// -----------------------------------------------------------------------------
// Laws
// -----------------------------------------------------------------------------

/// A header name is made of ASCII letters, digits and fifteen marks: a text of one
/// character is a header name exactly when the character is one of them.
pub proof fn law_header_name_characters(c: char)
    ensures
        is_header_name(seq![c]) <==> {
            ||| 0x61 <= c as u32 <= 0x7a
            ||| 0x41 <= c as u32 <= 0x5a
            ||| 0x30 <= c as u32 <= 0x39
            ||| "!#$%&'*+-.^_`|~"@.contains(c)
        },
{
    reveal_strlit("!#$%&'*+-.^_`|~");
    let marks = "!#$%&'*+-.^_`|~"@;
    assert(marks =~= seq!['!', '#', '$', '%', '&', '\'', '*', '+', '-', '.', '^', '_', '`', '|', '~']);
    assert(seq![c][0] == c);
    assert(marks[0] == '!' && marks[1] == '#' && marks[2] == '$' && marks[3] == '%' && marks[4]
        == '&' && marks[5] == '\'' && marks[6] == '*' && marks[7] == '+' && marks[8] == '-'
        && marks[9] == '.' && marks[10] == '^' && marks[11] == '_' && marks[12] == '`' && marks[13]
        == '|' && marks[14] == '~');
    if is_token_char(c) {
        assert(is_header_name(seq![c]));
    }
}

/// Two texts put together are a header name exactly when each of them is and the
/// whole is no longer than 65535. No header name is empty.
pub proof fn law_header_name_parts(a: Seq<char>, b: Seq<char>)
    requires
        a.len() > 0,
        b.len() > 0,
    ensures
        !is_header_name(Seq::empty()),
        is_header_name(a + b) <==> is_header_name(a) && is_header_name(b) && a.len() + b.len()
            <= 65535,
{
    if is_header_name(a + b) {
        assert forall|i: int| 0 <= i < a.len() implies is_token_char(#[trigger] a[i]) by {
            assert((a + b)[i] == a[i]);
        }
        assert forall|i: int| 0 <= i < b.len() implies is_token_char(#[trigger] b[i]) by {
            assert((a + b)[a.len() + i] == b[i]);
        }
    }
}

/// The shared check passes an absent name and a valid one. Its message names the
/// filter and the field, and tells an empty name from one that is not valid.
pub proof fn law_header_name_faults(filter: Seq<char>, field: Seq<char>, name: Option<Seq<char>>)
    ensures
        header_name_fault(filter, field, name) is None <==> name is None || is_header_name(
            name->Some_0,
        ),
        name is Some && name->Some_0.len() == 0 ==> header_name_fault(filter, field, name) == Some(
            filter + ": "@ + field + " header name must not be empty"@,
        ),
        name is Some && name->Some_0.len() > 0 && !is_header_name(name->Some_0)
            ==> header_name_fault(filter, field, name) == Some(
            filter + ": "@ + field + " header name is not a valid HTTP header name"@,
        ),
{
}

} // verus!
