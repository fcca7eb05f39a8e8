//! Text as the rest of the library reasons about it: a string is the sequence
//! of its characters.
use vstd::prelude::*;
use vstd::string::*;

verus! {

// -----------------------------------------------------------------------------
// Case
// -----------------------------------------------------------------------------

/// The lower-case form of an ASCII capital letter; every other character as it is.
pub open spec fn ascii_lower_char(c: char) -> char {
    if 'A' <= c && c <= 'Z' {
        (c as u32 + 32) as char
    } else {
        c
    }
}

/// A text with its ASCII capital letters in lower case.
pub open spec fn ascii_lower(s: Seq<char>) -> Seq<char> {
    s.map_values(|c: char| ascii_lower_char(c))
}

/// `str::to_ascii_lowercase` copies a string, mapping `A` to `Z` onto `a` to
/// `z` and leaving every other character unchanged.
pub assume_specification[ str::to_ascii_lowercase ](s: &str) -> (lowered: String)
    ensures
        lowered@ == ascii_lower(s@),
;

/// Lowering a text twice is lowering it once.
pub proof fn lemma_ascii_lower_idempotent(s: Seq<char>)
    ensures
        ascii_lower(ascii_lower(s)) == ascii_lower(s),
{
    assert(ascii_lower(ascii_lower(s)) =~= ascii_lower(s));
}

/// Whether two texts differ in ASCII case at most.
pub(crate) fn eq_ignore_ascii_case(a: &str, b: &str) -> (equal: bool)
    ensures
        equal == (ascii_lower(a@) == ascii_lower(b@)),
{
    a.to_ascii_lowercase() == b.to_ascii_lowercase()
}

// -----------------------------------------------------------------------------
// White space
// -----------------------------------------------------------------------------

/// The characters with the Unicode property `White_Space`.
pub open spec fn is_white_space(c: char) -> bool {
    ||| 0x09 <= c as u32 <= 0x0d
    ||| c as u32 == 0x20
    ||| c as u32 == 0x85
    ||| c as u32 == 0xa0
    ||| c as u32 == 0x1680
    ||| 0x2000 <= c as u32 <= 0x200a
    ||| 0x2028 <= c as u32 <= 0x2029
    ||| c as u32 == 0x202f
    ||| c as u32 == 0x205f
    ||| c as u32 == 0x3000
}

/// Whether a text holds nothing but white space.
pub open spec fn is_blank(s: Seq<char>) -> bool {
    forall|i: int| 0 <= i < s.len() ==> is_white_space(#[trigger] s[i])
}

/// Whether `inner` is what is left of `s` without its leading and trailing
/// white space.
pub open spec fn is_trimmed(s: Seq<char>, inner: Seq<char>) -> bool {
    &&& exists|before: Seq<char>, after: Seq<char>|
        is_blank(before) && is_blank(after) && s == #[trigger] (before + inner + after)
    &&& inner.len() > 0 ==> !is_white_space(inner.first()) && !is_white_space(inner.last())
}

/// `str::trim` takes away the leading and trailing characters that have the
/// Unicode property `White_Space`, and nothing else.
pub assume_specification[ str::trim ](s: &str) -> (inner: &str)
    ensures
        is_trimmed(s@, inner@),
;

/// Nothing is left of a text after trimming exactly when it is blank.
pub proof fn lemma_trimmed_empty(s: Seq<char>, inner: Seq<char>)
    requires
        is_trimmed(s, inner),
    ensures
        inner.len() == 0 <==> is_blank(s),
{
    let (before, after) = choose|before: Seq<char>, after: Seq<char>|
        is_blank(before) && is_blank(after) && s == #[trigger] (before + inner + after);
    if inner.len() == 0 {
        assert forall|i: int| 0 <= i < s.len() implies is_white_space(#[trigger] s[i]) by {
            if i < before.len() {
                assert(s[i] == before[i]);
            } else {
                assert(s[i] == after[i - before.len()]);
            }
        }
    } else {
        assert(s[before.len() as int] == inner.first());
    }
}

// -----------------------------------------------------------------------------
// Optional texts
// -----------------------------------------------------------------------------

/// The text of an optional string.
pub open spec fn option_text(value: Option<String>) -> Option<Seq<char>> {
    match value {
        Some(text) => Some(text@),
        None => None,
    }
}

/// The text of an optional string slice.
pub open spec fn text_of(value: Option<&str>) -> Option<Seq<char>> {
    match value {
        Some(text) => Some(text@),
        None => None,
    }
}

// -----------------------------------------------------------------------------
// Characters
// -----------------------------------------------------------------------------

/// The characters of a string.
pub(crate) fn chars_of(s: &str) -> (chars: Vec<char>)
    ensures
        chars@ == s@,
{
    let mut chars: Vec<char> = Vec::new();
    for c in it: s.chars()
        invariant
            it.seq() == s@,
            chars@ == s@.take(it.index() as int),
    {
        chars.push(c);
    }
    chars
}

/// Whether two strings hold the same text.
pub(crate) fn str_eq(a: &str, b: &str) -> (equal: bool)
    ensures
        equal == (a@ == b@),
{
    a.to_owned() == b.to_owned()
}

/// Whether a text begins with another.
pub open spec fn has_prefix(s: Seq<char>, prefix: Seq<char>) -> bool {
    prefix.is_prefix_of(s)
}

/// Whether `s` begins with `prefix`.
pub(crate) fn starts_with(s: &str, prefix: &str) -> (found: bool)
    ensures
        found == has_prefix(s@, prefix@),
{
    let text = chars_of(s);
    let head = chars_of(prefix);
    if head.len() > text.len() {
        return false;
    }
    for i in 0..head.len()
        invariant
            text@ == s@,
            head@ == prefix@,
            head.len() <= text.len(),
            forall|j: int| 0 <= j < i ==> text@[j] == head@[j],
    {
        if text[i] != head[i] {
            assert(s@.subrange(0, prefix@.len() as int)[i as int] != prefix@[i as int]);
            return false;
        }
    }
    assert(s@.subrange(0, prefix@.len() as int) =~= prefix@);
    true
}

/// How often a character occurs in a text.
pub open spec fn occurrences(s: Seq<char>, c: char) -> nat
    decreases s.len(),
{
    if s.len() == 0 {
        0
    } else {
        occurrences(s.drop_last(), c) + if s.last() == c { 1nat } else { 0nat }
    }
}

/// How often `c` occurs in `s`.
pub(crate) fn count_char(s: &str, c: char) -> (count: usize)
    ensures
        count == occurrences(s@, c),
{
    let text = chars_of(s);
    let mut count: usize = 0;
    for i in 0..text.len()
        invariant
            text@ == s@,
            count == occurrences(s@.take(i as int), c),
            count <= i,
    {
        assert(s@.take(i + 1).drop_last() =~= s@.take(i as int));
        if text[i] == c {
            count = count + 1;
        }
    }
    assert(s@.take(text.len() as int) =~= s@);
    count
}

// -----------------------------------------------------------------------------
// Numbers
// -----------------------------------------------------------------------------

/// The decimal digit with the value `d`.
pub open spec fn digit(d: nat) -> char {
    ('0' as u32 + d) as char
}

/// The decimal form of a number, without leading zeros.
pub open spec fn decimal(n: nat) -> Seq<char>
    decreases n,
{
    if n < 10 {
        seq![digit(n)]
    } else {
        decimal(n / 10).push(digit(n % 10))
    }
}

/// The string of one decimal digit.
fn digit_str(d: usize) -> (text: &'static str)
    requires
        d < 10,
    ensures
        text@ == seq![digit(d as nat)],
{
    proof {
        reveal_strlit("0");
        reveal_strlit("1");
        reveal_strlit("2");
        reveal_strlit("3");
        reveal_strlit("4");
        reveal_strlit("5");
        reveal_strlit("6");
        reveal_strlit("7");
        reveal_strlit("8");
        reveal_strlit("9");
    }
    if d == 0 {
        "0"
    } else if d == 1 {
        "1"
    } else if d == 2 {
        "2"
    } else if d == 3 {
        "3"
    } else if d == 4 {
        "4"
    } else if d == 5 {
        "5"
    } else if d == 6 {
        "6"
    } else if d == 7 {
        "7"
    } else if d == 8 {
        "8"
    } else {
        "9"
    }
}

/// Write a number in decimal.
pub(crate) fn decimal_string(n: usize) -> (text: String)
    ensures
        text@ == decimal(n as nat),
    decreases n,
{
    if n < 10 {
        digit_str(n).to_owned()
    } else {
        let mut text = decimal_string(n / 10);
        text.append(digit_str(n % 10));
        assert(text@ =~= decimal(n as nat));
        text
    }
}

// -----------------------------------------------------------------------------
// Joining
// -----------------------------------------------------------------------------

/// The texts one after the other, with a separator between neighbours.
pub open spec fn joined(parts: Seq<Seq<char>>, separator: Seq<char>) -> Seq<char>
    decreases parts.len(),
{
    if parts.len() == 0 {
        Seq::empty()
    } else if parts.len() == 1 {
        parts[0]
    } else {
        joined(parts.drop_last(), separator) + separator + parts.last()
    }
}

/// The texts of a sequence of strings.
pub open spec fn texts(strings: Seq<String>) -> Seq<Seq<char>> {
    strings.map_values(|s: String| s@)
}

/// The texts of a sequence of string slices.
pub open spec fn str_texts(strings: Seq<&str>) -> Seq<Seq<char>> {
    strings.map_values(|s: &str| s@)
}

/// Join strings with a separator.
pub(crate) fn join(strings: &Vec<String>, separator: &str) -> (text: String)
    ensures
        text@ == joined(texts(strings@), separator@),
{
    let mut slices: Vec<&str> = Vec::new();
    for i in 0..strings.len()
        invariant
            str_texts(slices@) == texts(strings@).take(i as int),
    {
        let ghost before = slices@;
        slices.push(strings[i].as_str());
        assert(str_texts(slices@) =~= str_texts(before).push(strings@[i as int]@));
        assert(texts(strings@).take(i + 1) =~= texts(strings@).take(i as int).push(
            strings@[i as int]@,
        ));
    }
    assert(texts(strings@).take(strings.len() as int) =~= texts(strings@));
    join_strs(&slices, separator)
}

/// Join string slices with a separator.
pub(crate) fn join_strs(strings: &Vec<&str>, separator: &str) -> (text: String)
    ensures
        text@ == joined(str_texts(strings@), separator@),
{
    let mut text = String::new();
    let ghost parts = str_texts(strings@);
    for i in 0..strings.len()
        invariant
            parts == str_texts(strings@),
            text@ == joined(parts.take(i as int), separator@),
    {
        assert(parts.take(i + 1).drop_last() =~= parts.take(i as int));
        if i > 0 {
            text.append(separator);
        } else {
            assert(Seq::<char>::empty() + strings@[i as int]@ =~= strings@[i as int]@);
        }
        text.append(strings[i]);
    }
    assert(parts.take(strings.len() as int) =~= parts);
    text
}

// -----------------------------------------------------------------------------
// Order
// -----------------------------------------------------------------------------

/// Whether `a` comes before `b` in lexicographic order, or is `b`. Characters
/// are ordered by their code points.
pub open spec fn lex_le(a: Seq<char>, b: Seq<char>) -> bool
    decreases a.len(),
{
    if a.len() == 0 {
        true
    } else if b.len() == 0 {
        false
    } else if a[0] != b[0] {
        a[0] < b[0]
    } else {
        lex_le(a.drop_first(), b.drop_first())
    }
}

/// [`lex_le`] as a relation.
pub open spec fn lex_order() -> spec_fn(Seq<char>, Seq<char>) -> bool {
    |a: Seq<char>, b: Seq<char>| lex_le(a, b)
}

/// The texts in lexicographic order.
pub open spec fn sorted(parts: Seq<Seq<char>>) -> Seq<Seq<char>> {
    parts.sort_by(lex_order())
}

proof fn lemma_lex_le_reflexive(a: Seq<char>)
    ensures
        lex_le(a, a),
    decreases a.len(),
{
    if a.len() > 0 {
        lemma_lex_le_reflexive(a.drop_first());
    }
}

proof fn lemma_lex_le_antisymmetric(a: Seq<char>, b: Seq<char>)
    requires
        lex_le(a, b),
        lex_le(b, a),
    ensures
        a == b,
    decreases a.len(),
{
    if a.len() == 0 || b.len() == 0 {
        assert(a =~= b);
    } else {
        lemma_lex_le_antisymmetric(a.drop_first(), b.drop_first());
        assert(a =~= seq![a[0]] + a.drop_first());
        assert(b =~= seq![b[0]] + b.drop_first());
    }
}

proof fn lemma_lex_le_transitive(a: Seq<char>, b: Seq<char>, c: Seq<char>)
    requires
        lex_le(a, b),
        lex_le(b, c),
    ensures
        lex_le(a, c),
    decreases a.len(),
{
    if a.len() > 0 && b.len() > 0 && c.len() > 0 && a[0] == b[0] && b[0] == c[0] {
        lemma_lex_le_transitive(a.drop_first(), b.drop_first(), c.drop_first());
    }
}

proof fn lemma_lex_le_total(a: Seq<char>, b: Seq<char>)
    ensures
        lex_le(a, b) || lex_le(b, a),
    decreases a.len(),
{
    if a.len() > 0 && b.len() > 0 && a[0] == b[0] {
        lemma_lex_le_total(a.drop_first(), b.drop_first());
    }
}

/// The lexicographic order is a total order.
pub proof fn lemma_lex_order_total()
    ensures
        vstd::relations::total_ordering(lex_order()),
{
    let order = lex_order();
    assert forall|a: Seq<char>| #[trigger] order(a, a) by {
        lemma_lex_le_reflexive(a);
    }
    assert forall|a: Seq<char>, b: Seq<char>| #[trigger] order(a, b) && #[trigger] order(b, a) implies a
        == b by {
        lemma_lex_le_antisymmetric(a, b);
    }
    assert forall|a: Seq<char>, b: Seq<char>, c: Seq<char>|
        #[trigger] order(a, b) && #[trigger] order(b, c) implies order(a, c) by {
        lemma_lex_le_transitive(a, b, c);
    }
    assert forall|a: Seq<char>, b: Seq<char>| #[trigger] order(a, b) || #[trigger] order(b, a) by {
        lemma_lex_le_total(a, b);
    }
}

/// The sorted form of texts depends on which texts there are and how often
/// each occurs, not on their order.
pub proof fn lemma_sorted_of_rearranged(a: Seq<Seq<char>>, b: Seq<Seq<char>>)
    requires
        a.to_multiset() == b.to_multiset(),
    ensures
        sorted(a) == sorted(b),
{
    lemma_lex_order_total();
    a.lemma_sort_by_ensures(lex_order());
    b.lemma_sort_by_ensures(lex_order());
    vstd::seq_lib::lemma_sorted_unique(sorted(a), sorted(b), lex_order());
}

/// The sorted form of texts holds the same texts, each as often, none ahead of one
/// that comes before it in lexicographic order.
pub proof fn lemma_sorted_is_ordered(parts: Seq<Seq<char>>)
    ensures
        sorted(parts).to_multiset() == parts.to_multiset(),
        forall|i: int, j: int|
            0 <= i < j < sorted(parts).len() ==> lex_le(
                #[trigger] sorted(parts)[i],
                #[trigger] sorted(parts)[j],
            ),
{
    lemma_lex_order_total();
    parts.lemma_sort_by_ensures(lex_order());
    let order = lex_order();
    assert forall|i: int, j: int| 0 <= i < j < sorted(parts).len() implies lex_le(
        #[trigger] sorted(parts)[i],
        #[trigger] sorted(parts)[j],
    ) by {
        assert(order(sorted(parts)[i], sorted(parts)[j]));
    }
}

/// Compare two strings in lexicographic order.
pub(crate) fn str_le(a: &str, b: &str) -> (le: bool)
    ensures
        le == lex_le(a@, b@),
{
    let left = chars_of(a);
    let right = chars_of(b);
    let mut i: usize = 0;
    assert(a@.skip(0) =~= a@);
    assert(b@.skip(0) =~= b@);
    while i < left.len() && i < right.len() && left[i] == right[i]
        invariant
            left@ == a@,
            right@ == b@,
            i <= left.len(),
            i <= right.len(),
            lex_le(a@, b@) == lex_le(a@.skip(i as int), b@.skip(i as int)),
        decreases left.len() - i,
    {
        assert(a@.skip(i as int).drop_first() =~= a@.skip(i + 1));
        assert(b@.skip(i as int).drop_first() =~= b@.skip(i + 1));
        i = i + 1;
    }
    if i >= left.len() {
        true
    } else if i >= right.len() {
        false
    } else {
        left[i] < right[i]
    }
}

/// Sort string slices in lexicographic order.
pub(crate) fn sort_strs<'a>(strings: &Vec<&'a str>) -> (ordered: Vec<&'a str>)
    ensures
        str_texts(ordered@) == sorted(str_texts(strings@)),
{
    let mut ordered: Vec<&'a str> = Vec::new();
    let ghost parts = str_texts(strings@);
    assert(str_texts(ordered@) =~= parts.take(0));
    for i in 0..strings.len()
        invariant
            parts == str_texts(strings@),
            vstd::relations::sorted_by(str_texts(ordered@), lex_order()),
            str_texts(ordered@).to_multiset() == parts.take(i as int).to_multiset(),
            ordered.len() == i,
    {
        let ghost before = str_texts(ordered@);
        let next = strings[i];
        let mut at: usize = 0;
        while at < ordered.len() && str_le(ordered[at], next)
            invariant
                at <= ordered.len(),
                forall|j: int| 0 <= j < at ==> lex_le(#[trigger] ordered@[j]@, next@),
            decreases ordered.len() - at,
        {
            at = at + 1;
        }
        ordered.insert(at, next);
        proof {
            assert(str_texts(ordered@) =~= before.insert(at as int, next@));
            lemma_insert_sorted(before, at as int, next@);
            assert(parts.take(i + 1) =~= parts.take(i as int).push(next@));
            broadcast use vstd::seq_lib::group_to_multiset_ensures;
            assert(parts.take(i + 1).to_multiset() =~= parts.take(i as int).to_multiset().insert(next@));
            assert(before.insert(at as int, next@).to_multiset() =~= before.to_multiset().insert(next@));
        }
    }
    proof {
        assert(parts.take(strings.len() as int) =~= parts);
        lemma_lex_order_total();
        parts.lemma_sort_by_ensures(lex_order());
        vstd::seq_lib::lemma_sorted_unique(str_texts(ordered@), sorted(parts), lex_order());
    }
    ordered
}

/// A text put behind the ones before it, and ahead of the first one after it,
/// leaves a sorted sequence sorted.
proof fn lemma_insert_sorted(parts: Seq<Seq<char>>, at: int, part: Seq<char>)
    requires
        vstd::relations::sorted_by(parts, lex_order()),
        0 <= at <= parts.len(),
        forall|j: int| 0 <= j < at ==> lex_le(#[trigger] parts[j], part),
        at < parts.len() ==> !lex_le(parts[at], part),
    ensures
        vstd::relations::sorted_by(parts.insert(at, part), lex_order()),
{
    let after = parts.insert(at, part);
    let order = lex_order();
    assert forall|i: int, j: int| 0 <= i < j < after.len() implies #[trigger] order(
        after[i],
        after[j],
    ) by {
        if j < at {
            assert(order(parts[i], parts[j]));
        } else if j == at {
            assert(lex_le(parts[i], part));
        } else {
            if i < at {
                assert(order(parts[i], parts[j - 1]));
            } else if i > at {
                assert(order(parts[i - 1], parts[j - 1]));
            } else {
                lemma_lex_le_total(part, parts[at]);
                if j - 1 > at {
                    assert(order(parts[at], parts[j - 1]));
                    lemma_lex_le_transitive(part, parts[at], parts[j - 1]);
                }
            }
        }
    }
}

// -----------------------------------------------------------------------------
// Laws
// -----------------------------------------------------------------------------

/// Lowering a text keeps its length. It moves each ASCII capital letter by the
/// distance between `A` and `a`, and leaves every other character where it is.
pub proof fn law_ascii_lower(s: Seq<char>, i: int)
    requires
        0 <= i < s.len(),
    ensures
        ascii_lower(s).len() == s.len(),
        0x41 <= s[i] as u32 <= 0x5a ==> ascii_lower(s)[i] as u32 == s[i] as u32 + 0x20,
        !(0x41 <= s[i] as u32 <= 0x5a) ==> ascii_lower(s)[i] == s[i],
{
}

/// White space is what Unicode calls by that name: the tab, the line breaks, the
/// spaces of every width, and the line and paragraph separators.
pub proof fn law_white_space(c: char)
    ensures
        is_white_space(c) <==> {
            ||| c == '\t' || c == '\n' || c == '\u{b}' || c == '\u{c}' || c == '\r'
            ||| c == ' ' || c == '\u{85}' || c == '\u{a0}' || c == '\u{1680}'
            ||| '\u{2000}' <= c && c <= '\u{200a}'
            ||| c == '\u{2028}' || c == '\u{2029}' || c == '\u{202f}' || c == '\u{205f}'
            ||| c == '\u{3000}'
        },
{
}

/// A text is blank exactly when its parts are, down to single characters, which
/// are blank exactly when they are white space.
pub proof fn law_blank(a: Seq<char>, b: Seq<char>, c: char)
    ensures
        is_blank(Seq::empty()),
        is_blank(seq![c]) <==> is_white_space(c),
        is_blank(a + b) <==> is_blank(a) && is_blank(b),
{
    assert(seq![c][0] == c);
    if is_blank(a + b) {
        assert forall|i: int| 0 <= i < a.len() implies is_white_space(#[trigger] a[i]) by {
            assert((a + b)[i] == a[i]);
        }
        assert forall|i: int| 0 <= i < b.len() implies is_white_space(#[trigger] b[i]) by {
            assert((a + b)[a.len() + i] == b[i]);
        }
    }
}

/// A text begins with exactly those texts that something can be put behind to make
/// it.
pub proof fn law_prefix(s: Seq<char>, prefix: Seq<char>, rest: Seq<char>)
    ensures
        has_prefix(prefix + rest, prefix),
        has_prefix(s, prefix) ==> s == prefix + s.skip(prefix.len() as int),
{
    assert((prefix + rest).subrange(0, prefix.len() as int) =~= prefix);
    if has_prefix(s, prefix) {
        assert(s =~= s.subrange(0, prefix.len() as int) + s.skip(prefix.len() as int));
    }
}

/// A character occurs in two texts put together as often as in both, and once or
/// not at all in a text of one character.
pub proof fn law_occurrences(a: Seq<char>, b: Seq<char>, c: char, d: char)
    ensures
        occurrences(Seq::empty(), c) == 0,
        occurrences(seq![d], c) == if d == c { 1nat } else { 0nat },
        occurrences(a + b, c) == occurrences(a, c) + occurrences(b, c),
    decreases b.len(),
{
    assert(seq![d].drop_last() =~= Seq::empty());
    if b.len() == 0 {
        assert(a + b =~= a);
    } else {
        law_occurrences(a, b.drop_last(), c, d);
        assert((a + b).drop_last() =~= a + b.drop_last());
    }
}

/// A character occurs at least once exactly when some place holds it, and more than
/// once exactly when two places do.
pub proof fn law_occurrence_places(s: Seq<char>, c: char)
    ensures
        occurrences(s, c) >= 1 <==> exists|i: int| 0 <= i < s.len() && #[trigger] s[i] == c,
        occurrences(s, c) >= 2 <==> exists|i: int, j: int|
            0 <= i < j < s.len() && #[trigger] s[i] == c && #[trigger] s[j] == c,
    decreases s.len(),
{
    if s.len() > 0 {
        let t = s.drop_last();
        law_occurrence_places(t, c);
        if occurrences(t, c) >= 1 {
            let i = choose|i: int| 0 <= i < t.len() && #[trigger] t[i] == c;
            assert(s[i] == c);
            if s.last() == c {
                assert(s[s.len() - 1] == c);
            }
        }
        if occurrences(t, c) >= 2 {
            let (i, j) = choose|i: int, j: int|
                0 <= i < j < t.len() && #[trigger] t[i] == c && #[trigger] t[j] == c;
            assert(s[i] == c && s[j] == c);
        }
        if s.last() == c {
            assert(s[s.len() - 1] == c);
        }
        if exists|i: int| 0 <= i < s.len() && #[trigger] s[i] == c {
            let i = choose|i: int| 0 <= i < s.len() && #[trigger] s[i] == c;
            if i < t.len() {
                assert(t[i] == c);
            }
        }
        if exists|i: int, j: int|
            0 <= i < j < s.len() && #[trigger] s[i] == c && #[trigger] s[j] == c {
            let (i, j) = choose|i: int, j: int|
                0 <= i < j < s.len() && #[trigger] s[i] == c && #[trigger] s[j] == c;
            assert(t[i] == c);
            if j < t.len() {
                assert(t[j] == c);
            }
        }
    }
}

/// A number below ten is its digit, and every further digit goes behind.
pub proof fn law_decimal(n: nat, d: nat)
    requires
        d < 10,
    ensures
        decimal(d).len() == 1,
        decimal(d)[0] as u32 == 0x30 + d,
        n > 0 ==> decimal(10 * n + d) == decimal(n) + decimal(d),
{
    if n > 0 {
        assert((10 * n + d) / 10 == n && (10 * n + d) % 10 == d);
        assert(decimal(10 * n + d) =~= decimal(n) + decimal(d));
    }
}

/// Two lists joined are the joined form of their concatenation, with one more
/// separator between them. One text joined is itself, and none is nothing.
pub proof fn law_joined(
    a: Seq<Seq<char>>,
    b: Seq<Seq<char>>,
    part: Seq<char>,
    separator: Seq<char>,
)
    ensures
        joined(Seq::empty(), separator) == Seq::<char>::empty(),
        joined(seq![part], separator) == part,
        a.len() > 0 && b.len() > 0 ==> joined(a + b, separator) == joined(a, separator) + separator
            + joined(b, separator),
    decreases b.len(),
{
    if a.len() > 0 && b.len() > 0 {
        assert((a + b).drop_last() =~= a + b.drop_last());
        if b.len() == 1 {
            assert(a + b.drop_last() =~= a);
        } else {
            law_joined(a, b.drop_last(), part, separator);
        }
        assert(joined(a + b, separator) =~= joined(a, separator) + separator + joined(
            b,
            separator,
        ));
    }
}

/// Each string has its own text, in its own place.
pub proof fn law_texts(strings: Seq<String>, slices: Seq<&str>, i: int)
    ensures
        texts(strings).len() == strings.len(),
        0 <= i < strings.len() ==> texts(strings)[i] == strings[i]@,
        str_texts(slices).len() == slices.len(),
        0 <= i < slices.len() ==> str_texts(slices)[i] == slices[i]@,
{
}

/// An optional string that is there has its own text, and one that is not has none.
pub proof fn law_optional_texts(value: Option<String>, slice: Option<&str>)
    ensures
        option_text(value) is Some <==> value is Some,
        value is Some ==> option_text(value)->Some_0 == value->Some_0@,
        text_of(slice) is Some <==> slice is Some,
        slice is Some ==> text_of(slice)->Some_0 == slice->Some_0@,
{
}

/// One text comes before another, or is it, exactly when it begins the other, or
/// when it has the lower code point at the first place where the two differ.
pub proof fn law_lex_le(a: Seq<char>, b: Seq<char>)
    ensures
        lex_le(a, b) <==> {
            ||| a.len() <= b.len() && a =~= b.take(a.len() as int)
            ||| exists|k: int|
                0 <= k < a.len() && k < b.len() && a.take(k) =~= b.take(k) && (#[trigger] a[k]) < b[k]
        },
    decreases a.len(),
{
    if a.len() == 0 {
        assert(a =~= b.take(0));
    } else if b.len() > 0 {
        let (x, y) = (a.drop_first(), b.drop_first());
        if a[0] == b[0] {
            law_lex_le(x, y);
            assert(a =~= seq![a[0]] + x);
            assert(b =~= seq![b[0]] + y);
            if x.len() <= y.len() && x =~= y.take(x.len() as int) {
                assert(a =~= b.take(a.len() as int));
            }
            if a.len() <= b.len() && a =~= b.take(a.len() as int) {
                assert(x =~= y.take(x.len() as int)) by {
                    assert(a.drop_first() =~= b.take(a.len() as int).drop_first());
                }
            }
            if exists|k: int|
                0 <= k < x.len() && k < y.len() && x.take(k) =~= y.take(k) && (#[trigger] x[k]) < y[k] {
                let k = choose|k: int|
                    0 <= k < x.len() && k < y.len() && x.take(k) =~= y.take(k) && (
                    #[trigger] x[k]) < y[k];
                assert(a.take(k + 1) =~= seq![a[0]] + x.take(k));
                assert(b.take(k + 1) =~= seq![b[0]] + y.take(k));
                assert(a[k + 1] == x[k] && b[k + 1] == y[k]);
            }
            if exists|k: int|
                0 <= k < a.len() && k < b.len() && a.take(k) =~= b.take(k) && (#[trigger] a[k]) < b[k] {
                let k = choose|k: int|
                    0 <= k < a.len() && k < b.len() && a.take(k) =~= b.take(k) && (
                    #[trigger] a[k]) < b[k];
                assert(k > 0);
                assert(a.take(k).drop_first() =~= x.take(k - 1));
                assert(b.take(k).drop_first() =~= y.take(k - 1));
                assert(x[k - 1] == a[k] && y[k - 1] == b[k]);
            }
        } else {
            assert(a.take(0) =~= b.take(0));
            if a.len() <= b.len() && a =~= b.take(a.len() as int) {
                assert(a[0] == b.take(a.len() as int)[0]);
            }
            if exists|k: int|
                0 <= k < a.len() && k < b.len() && a.take(k) =~= b.take(k) && (#[trigger] a[k]) < b[k] {
                let k = choose|k: int|
                    0 <= k < a.len() && k < b.len() && a.take(k) =~= b.take(k) && (
                    #[trigger] a[k]) < b[k];
                if k > 0 {
                    assert(a.take(k)[0] == b.take(k)[0]);
                }
            }
        }
    }
}

} // verus!
