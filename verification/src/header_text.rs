//! Reading the text of a header value.
//!
//! A header text is made of visible ASCII characters, spaces and tabs.

use vstd::prelude::*;

verus! {

/// A visible ASCII character, a space or a tab.
pub open spec fn is_text_char(c: char) -> bool {
    ' ' <= c <= '~' || c == '\t'
}

/// The bytes, each taken as the character with that code.
pub open spec fn text_of(bytes: Seq<u8>) -> Seq<char> {
    Seq::new(bytes.len(), |i: int| bytes[i] as char)
}

/// The characters of a string, where there is one.
pub open spec fn chars_of(s: Option<&str>) -> Option<Seq<char>> {
    match s {
        Some(s) => Some(s@),
        None => None,
    }
}

/// All characters can stand in the text of a header value.
pub open spec fn is_header_text(s: Seq<char>) -> bool {
    forall|i: int| 0 <= i < s.len() ==> is_text_char(#[trigger] s[i])
}

/// The white space that can stand in a header text.
pub open spec fn is_space(c: char) -> bool {
    c == ' ' || c == '\t'
}

/// The code of a character, with upper case ASCII letters taken as lower case.
pub open spec fn folded(c: char) -> int {
    if 'A' <= c <= 'Z' {
        c as int + 32
    } else {
        c as int
    }
}

/// The same text but for the case of ASCII letters.
pub open spec fn same_ignoring_case(a: Seq<char>, b: Seq<char>) -> bool {
    a.len() == b.len() && forall|i: int|
        0 <= i < a.len() ==> folded(#[trigger] a[i]) == folded(b[i])
}

/// The text without white space in front.
pub open spec fn trimmed_start(s: Seq<char>) -> Seq<char>
    decreases s.len(),
{
    if s.len() > 0 && is_space(s.first()) {
        trimmed_start(s.drop_first())
    } else {
        s
    }
}

/// The text without white space at the end.
pub open spec fn trimmed_end(s: Seq<char>) -> Seq<char>
    decreases s.len(),
{
    if s.len() > 0 && is_space(s.last()) {
        trimmed_end(s.drop_last())
    } else {
        s
    }
}

/// The text without white space at either end.
pub open spec fn trimmed(s: Seq<char>) -> Seq<char> {
    trimmed_end(trimmed_start(s))
}

/// The parts of a text between its commas: one more than there are commas.
pub open spec fn comma_parts(s: Seq<char>) -> Seq<Seq<char>>
    decreases s.len(),
{
    if s.len() == 0 {
        seq![Seq::empty()]
    } else {
        let parts = comma_parts(s.drop_last());
        if s.last() == ',' {
            parts.push(Seq::empty())
        } else {
            parts.drop_last().push(parts.last().push(s.last()))
        }
    }
}

/// A part of a list is the token, but for case and white space around it.
pub open spec fn part_is(part: Seq<char>, token: Seq<char>) -> bool {
    same_ignoring_case(trimmed(part), token)
}

/// A comma-separated list holds the token, in any case, with any white space around it.
pub open spec fn lists_token(s: Seq<char>, token: Seq<char>) -> bool {
    exists|k: int| 0 <= k < comma_parts(s).len() && #[trigger] part_is(comma_parts(s)[k], token)
}

/// `pattern` stands in `s` from `at` on.
pub open spec fn stands_at(s: Seq<char>, pattern: Seq<char>, at: int) -> bool {
    at + pattern.len() <= s.len() && s.subrange(at, at + pattern.len()) == pattern
}

/// `pattern` stands somewhere in `s`.
pub open spec fn contains_text(s: Seq<char>, pattern: Seq<char>) -> bool {
    exists|at: int| 0 <= at && #[trigger] stands_at(s, pattern, at)
}

/// The bytes of a header text are its characters, one for one.
fn text_bytes(s: &str) -> (bytes: &[u8])
    requires
        is_header_text(s@),
    ensures
        text_of(bytes@) == s@,
{
    assert(s.is_ascii());
    let bytes = s.as_bytes();
    assert(text_of(bytes@) =~= s@);
    bytes
}

/// Tells whether two strings are equal.
pub fn equals(a: &str, b: &str) -> (result: bool)
    ensures
        result == (a@ == b@),
{
    let left = a.as_bytes();
    let right = b.as_bytes();
    proof {
        vstd::utf8::encode_utf8_decode_utf8(a@);
        vstd::utf8::encode_utf8_decode_utf8(b@);
    }
    if left.len() != right.len() {
        return false;
    }
    let mut i: usize = 0;
    while i < left.len()
        invariant
            i <= left@.len() == right@.len(),
            left@ == vstd::utf8::encode_utf8(a@),
            right@ == vstd::utf8::encode_utf8(b@),
            forall|j: int| 0 <= j < i ==> left@[j] == right@[j],
        decreases left@.len() - i,
    {
        if left[i] != right[i] {
            return false;
        }
        i = i + 1;
    }
    assert(left@ =~= right@);
    true
}

fn fold_byte(b: u8) -> (code: u8)
    ensures
        code == folded(b as char),
{
    if 65 <= b && b <= 90 {
        b + 32
    } else {
        b
    }
}

fn is_space_byte(b: u8) -> (result: bool)
    ensures
        result == is_space(b as char),
{
    b == 32 || b == 9
}

/// Compares a stretch of a text with another text, but for the case of ASCII letters.
fn stretch_same_ignoring_case(bytes: &[u8], from: usize, to: usize, other: &[u8]) -> (result: bool)
    requires
        from <= to <= bytes@.len(),
    ensures
        result == same_ignoring_case(
            text_of(bytes@).subrange(from as int, to as int),
            text_of(other@),
        ),
{
    let ghost stretch = text_of(bytes@).subrange(from as int, to as int);
    let ghost text = text_of(other@);
    if to - from != other.len() {
        return false;
    }
    let mut i: usize = 0;
    while i < other.len()
        invariant
            from <= to <= bytes@.len(),
            to - from == other@.len(),
            i <= other@.len(),
            stretch == text_of(bytes@).subrange(from as int, to as int),
            text == text_of(other@),
            forall|j: int| 0 <= j < i ==> folded(#[trigger] stretch[j]) == folded(text[j]),
        decreases other@.len() - i,
    {
        if fold_byte(bytes[from + i]) != fold_byte(other[i]) {
            assert(folded(stretch[i as int]) != folded(text[i as int]));
            return false;
        }
        i = i + 1;
    }
    true
}

/// Tells whether two header texts are the same but for the case of ASCII letters.
pub fn eq_ignore_ascii_case(a: &str, b: &str) -> (result: bool)
    requires
        is_header_text(a@),
        is_header_text(b@),
    ensures
        result == same_ignoring_case(a@, b@),
{
    let bytes = text_bytes(a);
    assert(text_of(bytes@).subrange(0, bytes@.len() as int) =~= a@);
    stretch_same_ignoring_case(bytes, 0, bytes.len(), text_bytes(b))
}

/// Tells whether one part of a list is the token.
fn stretch_is_token(bytes: &[u8], from: usize, to: usize, token: &[u8]) -> (result: bool)
    requires
        from <= to <= bytes@.len(),
    ensures
        result == part_is(text_of(bytes@).subrange(from as int, to as int), text_of(token@)),
{
    let ghost text = text_of(bytes@);
    let ghost part = text.subrange(from as int, to as int);
    let mut start: usize = from;
    while start < to && is_space_byte(bytes[start])
        invariant
            from <= start <= to <= bytes@.len(),
            text == text_of(bytes@),
            part == text.subrange(from as int, to as int),
            trimmed_start(part) == trimmed_start(text.subrange(start as int, to as int)),
        decreases to - start,
    {
        assert(text.subrange(start as int, to as int).drop_first() =~= text.subrange(
            start + 1,
            to as int,
        ));
        start = start + 1;
    }
    assert(trimmed_start(part) == text.subrange(start as int, to as int));
    let mut end: usize = to;
    while start < end && is_space_byte(bytes[end - 1])
        invariant
            from <= start <= end <= to <= bytes@.len(),
            text == text_of(bytes@),
            trimmed(part) == trimmed_end(text.subrange(start as int, end as int)),
        decreases end - start,
    {
        assert(text.subrange(start as int, end as int).drop_last() =~= text.subrange(
            start as int,
            end - 1,
        ));
        end = end - 1;
    }
    assert(trimmed(part) == text.subrange(start as int, end as int));
    stretch_same_ignoring_case(bytes, start, end, token)
}

/// Tells whether a comma-separated list holds a token, whatever the case of its letters
/// and the white space around it.
pub fn list_has_token(list: &str, token: &str) -> (result: bool)
    requires
        is_header_text(list@),
        is_header_text(token@),
    ensures
        result == lists_token(list@, token@),
{
    let bytes = text_bytes(list);
    let wanted = text_bytes(token);
    let ghost parts = comma_parts(list@);
    let mut from: usize = 0;
    let mut to: usize = 0;
    assert(list@.take(0) =~= Seq::empty());
    assert(list@.subrange(0, 0) =~= Seq::empty());
    while to < bytes.len()
        invariant
            from <= to <= bytes@.len(),
            text_of(bytes@) == list@,
            text_of(wanted@) == token@,
            comma_parts(list@.take(to as int)).len() > 0,
            comma_parts(list@.take(to as int)).last() == list@.subrange(from as int, to as int),
            forall|k: int|
                0 <= k < comma_parts(list@.take(to as int)).len() - 1 ==> !part_is(
                    #[trigger] comma_parts(list@.take(to as int))[k],
                    token@,
                ),
        decreases bytes@.len() - to,
    {
        let ghost before = comma_parts(list@.take(to as int));
        assert(list@.take(to + 1).drop_last() =~= list@.take(to as int));
        assert(list@.take(to + 1).last() == list@[to as int]);
        if bytes[to] == 44 {
            if stretch_is_token(bytes, from, to, wanted) {
                proof {
                    lemma_parts_stay(list@, to as int);
                    assert(part_is(comma_parts(list@)[before.len() - 1], token@));
                }
                return true;
            }
            from = to + 1;
            assert(list@.subrange(from as int, to + 1) =~= Seq::empty());
        } else {
            assert(list@.subrange(from as int, to + 1) =~= list@.subrange(
                from as int,
                to as int,
            ).push(list@[to as int]));
        }
        to = to + 1;
    }
    assert(list@.take(to as int) =~= list@);
    let result = stretch_is_token(bytes, from, to, wanted);
    assert(result == part_is(parts[parts.len() - 1], token@));
    result
}

/// The parts before the comma at `comma` are the first parts of the whole.
proof fn lemma_parts_stay(s: Seq<char>, comma: int)
    requires
        0 <= comma < s.len(),
        s[comma] == ',',
    ensures
        comma_parts(s.take(comma)).len() > 0,
        comma_parts(s.take(comma)).len() < comma_parts(s).len(),
        forall|k: int|
            0 <= k < comma_parts(s.take(comma)).len() ==> comma_parts(s)[k] == comma_parts(
                s.take(comma),
            )[k],
    decreases s.len(),
{
    lemma_parts_exist(s.take(comma));
    if comma == s.len() - 1 {
        assert(s.drop_last() =~= s.take(comma));
    } else {
        lemma_parts_stay(s.drop_last(), comma);
        assert(s.drop_last().take(comma) =~= s.take(comma));
    }
}

proof fn lemma_parts_exist(s: Seq<char>)
    ensures
        comma_parts(s).len() > 0,
    decreases s.len(),
{
    if s.len() > 0 {
        lemma_parts_exist(s.drop_last());
    }
}

/// Tells whether a pattern stands in a text from a given place on.
fn pattern_at(bytes: &[u8], pattern: &[u8], at: usize) -> (result: bool)
    requires
        at + pattern@.len() <= bytes@.len(),
    ensures
        result == stands_at(text_of(bytes@), text_of(pattern@), at as int),
{
    let ghost stretch = text_of(bytes@).subrange(at as int, at + pattern@.len());
    let mut i: usize = 0;
    while i < pattern.len()
        invariant
            at + pattern@.len() <= bytes.len(),
            i <= pattern@.len(),
            stretch == text_of(bytes@).subrange(at as int, at + pattern@.len()),
            forall|j: int| 0 <= j < i ==> stretch[j] == text_of(pattern@)[j],
        decreases pattern@.len() - i,
    {
        if bytes[at + i] != pattern[i] {
            assert(stretch[i as int] != text_of(pattern@)[i as int]);
            return false;
        }
        i = i + 1;
    }
    assert(stretch =~= text_of(pattern@));
    true
}

/// Tells whether a header text begins with a pattern.
pub fn starts_with(text: &str, pattern: &str) -> (result: bool)
    requires
        is_header_text(text@),
        is_header_text(pattern@),
    ensures
        result == pattern@.is_prefix_of(text@),
{
    let bytes = text_bytes(text);
    let wanted = text_bytes(pattern);
    if wanted.len() > bytes.len() {
        return false;
    }
    pattern_at(bytes, wanted, 0)
}

/// Tells whether a pattern stands anywhere in a header text.
pub fn contains(text: &str, pattern: &str) -> (result: bool)
    requires
        is_header_text(text@),
        is_header_text(pattern@),
    ensures
        result == contains_text(text@, pattern@),
{
    let bytes = text_bytes(text);
    let wanted = text_bytes(pattern);
    if wanted.len() > bytes.len() {
        return false;
    }
    let last: usize = bytes.len() - wanted.len();
    let mut at: usize = 0;
    while at < last
        invariant
            at <= last,
            last + wanted@.len() == bytes@.len(),
            text_of(bytes@) == text@,
            text_of(wanted@) == pattern@,
            forall|i: int| 0 <= i < at ==> !stands_at(text@, pattern@, i),
        decreases last - at,
    {
        if pattern_at(bytes, wanted, at) {
            return true;
        }
        at = at + 1;
    }
    pattern_at(bytes, wanted, last)
}

} // verus!
