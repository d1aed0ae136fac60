//! The laws of header texts, in terms of single characters.

use crate::header_text::{comma_parts, contains_text, folded, is_header_text, is_space, is_text_char};
use crate::header_text::{lists_token, part_is, same_ignoring_case, stands_at, text_of};
use crate::header_text::{trimmed, trimmed_end, trimmed_start};
use vstd::prelude::*;

verus! {

/// The same character, or the same letter of the alphabet in the other case.
pub open spec fn same_letter(a: char, b: char) -> bool {
    ||| a == b
    ||| 65 <= a as int <= 90 && b as int == a as int + 32
    ||| 65 <= b as int <= 90 && a as int == b as int + 32
}

/// Two texts are letter by letter the same, in any case.
pub open spec fn reads_like(a: Seq<char>, b: Seq<char>) -> bool {
    a.len() == b.len() && forall|i: int| 0 <= i < a.len() ==> same_letter(#[trigger] a[i], b[i])
}

/// The characters of `word` stand in `s` from `at` on.
pub open spec fn occurs_at(s: Seq<char>, word: Seq<char>, at: int) -> bool {
    &&& 0 <= at
    &&& at + word.len() <= s.len()
    &&& forall|k: int| 0 <= k < word.len() ==> s[at + k] == #[trigger] word[k]
}

/// From `i` to `a` there are only spaces and tabs, and `i` is the start of the text or comes
/// right after a comma.
pub open spec fn opens_at(s: Seq<char>, i: int, a: int) -> bool {
    &&& 0 <= i <= a <= s.len()
    &&& i == 0 || s[i - 1] as int == 44
    &&& forall|k: int| i <= k < a ==> (#[trigger] s[k] as int == 32 || s[k] as int == 9)
}

/// From `b` to `j` there are only spaces and tabs, and `j` is the end of the text or a comma.
pub open spec fn closes_at(s: Seq<char>, b: int, j: int) -> bool {
    &&& 0 <= b <= j <= s.len()
    &&& j == s.len() || s[j] as int == 44
    &&& forall|k: int| b <= k < j ==> (#[trigger] s[k] as int == 32 || s[k] as int == 9)
}

/// The letters of `word`, in any case, stand in `s` from `at` on, with nothing but white
/// space between them and the next comma or end of the text, on either side.
pub open spec fn option_at(s: Seq<char>, word: Seq<char>, at: int) -> bool {
    &&& 0 <= at
    &&& at + word.len() <= s.len()
    &&& forall|k: int| 0 <= k < word.len() ==> same_letter(s[at + k], #[trigger] word[k])
    &&& exists|i: int| #[trigger] opens_at(s, i, at)
    &&& exists|j: int| #[trigger] closes_at(s, at + word.len(), j)
}

/// A space or a tab.
pub open spec fn is_blank(c: char) -> bool {
    c as int == 32 || c as int == 9
}

/// What can stand between two commas, once the white space around it is gone: there is no comma
/// in it, and no white space at either end.
pub open spec fn is_word(word: Seq<char>) -> bool {
    &&& forall|k: int| 0 <= k < word.len() ==> #[trigger] word[k] as int != 44
    &&& word.len() > 0 ==> !is_blank(word[0]) && !is_blank(word[word.len() - 1])
}

/// Texts are the same but for case if and only if they are letter by letter.
pub proof fn law_case(a: Seq<char>, b: Seq<char>)
    ensures
        same_ignoring_case(a, b) <==> reads_like(a, b),
{
    assert forall|x: char, y: char| folded(x) == folded(y) <==> #[trigger] same_letter(x, y) by {}
    if same_ignoring_case(a, b) {
        assert forall|i: int| 0 <= i < a.len() implies same_letter(#[trigger] a[i], b[i]) by {
            assert(folded(a[i]) == folded(b[i]));
        }
    }
    if reads_like(a, b) {
        assert forall|i: int| 0 <= i < a.len() implies folded(#[trigger] a[i]) == folded(b[i]) by {
            assert(same_letter(a[i], b[i]));
        }
    }
}

/// A text contains a pattern if and only if its characters stand somewhere in it, one after
/// the other.
pub proof fn law_contains(s: Seq<char>, word: Seq<char>)
    ensures
        contains_text(s, word) <==> exists|at: int| #[trigger] occurs_at(s, word, at),
{
    if contains_text(s, word) {
        let at = choose|at: int| 0 <= at && #[trigger] stands_at(s, word, at);
        assert forall|k: int| 0 <= k < word.len() implies s[at + k] == #[trigger] word[k] by {
            assert(s.subrange(at, at + word.len())[k] == word[k]);
        }
        assert(occurs_at(s, word, at));
    }
    if exists|at: int| #[trigger] occurs_at(s, word, at) {
        let at = choose|at: int| #[trigger] occurs_at(s, word, at);
        assert(s.subrange(at, at + word.len()) =~= word);
        assert(stands_at(s, word, at));
    }
}

/// A text begins with a pattern if and only if its first characters are those of the pattern.
pub proof fn law_begins(s: Seq<char>, word: Seq<char>)
    ensures
        word.is_prefix_of(s) <==> occurs_at(s, word, 0),
{
    if word.is_prefix_of(s) {
        assert forall|k: int| 0 <= k < word.len() implies s[0 + k] == #[trigger] word[k] by {
            assert(s.subrange(0, word.len() as int)[k] == word[k]);
        }
    }
    if occurs_at(s, word, 0) {
        assert forall|k: int| 0 <= k < word.len() implies s[k] == word[k] by {
            assert(s[0 + k] == word[k]);
        }
        assert(s.subrange(0, word.len() as int) =~= word);
    }
}

/// A text that a header value reads as has codes 32 to 126 and 9, and is the value byte by
/// byte.
pub proof fn law_text_of(bytes: Seq<u8>)
    ensures
        text_of(bytes).len() == bytes.len(),
        forall|i: int| 0 <= i < bytes.len() ==> #[trigger] text_of(bytes)[i] as int == bytes[i],
        is_header_text(text_of(bytes)) <==> forall|i: int|
            0 <= i < bytes.len() ==> (32 <= #[trigger] bytes[i] <= 126 || bytes[i] == 9),
{
    let text = text_of(bytes);
    if is_header_text(text) {
        assert forall|i: int| 0 <= i < bytes.len() implies (32 <= #[trigger] bytes[i] <= 126
            || bytes[i] == 9) by {
            assert(is_text_char(text[i]));
        }
    }
    if forall|i: int| 0 <= i < bytes.len() ==> (32 <= #[trigger] bytes[i] <= 126 || bytes[i] == 9) {
        assert forall|i: int| 0 <= i < text.len() implies is_text_char(#[trigger] text[i]) by {
            assert(32 <= bytes[i] <= 126 || bytes[i] == 9);
        }
    }
}

/// `s` from `i` to `j` is what stands between two commas, or a comma and an end.
spec fn is_segment(s: Seq<char>, i: int, j: int) -> bool {
    &&& 0 <= i <= j <= s.len()
    &&& i == 0 || s[i - 1] == ','
    &&& j == s.len() || s[j] == ','
    &&& forall|k: int| i <= k < j ==> #[trigger] s[k] != ','
}

proof fn lemma_has_parts(s: Seq<char>)
    ensures
        comma_parts(s).len() > 0,
    decreases s.len(),
{
    if s.len() > 0 {
        lemma_has_parts(s.drop_last());
    }
}

/// Every part of a list is a segment. The last one reaches to the end, and no other does.
proof fn lemma_part_is_segment(s: Seq<char>, k: int) -> (ends: (int, int))
    requires
        0 <= k < comma_parts(s).len(),
    ensures
        is_segment(s, ends.0, ends.1),
        comma_parts(s)[k] == s.subrange(ends.0, ends.1),
        k == comma_parts(s).len() - 1 <==> ends.1 == s.len(),
    decreases s.len(),
{
    if s.len() == 0 {
        assert(s.subrange(0, 0) =~= Seq::<char>::empty());
        (0, 0)
    } else {
        let s0 = s.drop_last();
        let parts0 = comma_parts(s0);
        let n = s.len() as int;
        lemma_has_parts(s0);
        if s.last() == ',' && k == parts0.len() {
            assert(s.subrange(n, n) =~= Seq::<char>::empty());
            (n, n)
        } else {
            let (i, j) = lemma_part_is_segment(s0, k);
            assert forall|m: int| i <= m < j implies #[trigger] s[m] != ',' by {
                assert(s0[m] != ',');
            }
            if s.last() != ',' && k == parts0.len() - 1 {
                assert(s0.subrange(i, j).push(s.last()) =~= s.subrange(i, n));
                (i, n)
            } else {
                assert(s0.subrange(i, j) =~= s.subrange(i, j));
                assert(j < n - 1 ==> s0[j] == ',');
                (i, j)
            }
        }
    }
}

/// Every segment is a part of the list.
proof fn lemma_segment_is_part(s: Seq<char>, i: int, j: int) -> (k: int)
    requires
        is_segment(s, i, j),
    ensures
        0 <= k < comma_parts(s).len(),
        comma_parts(s)[k] == s.subrange(i, j),
        k == comma_parts(s).len() - 1 <==> j == s.len(),
    decreases s.len(),
{
    if s.len() == 0 {
        assert(s.subrange(0, 0) =~= Seq::<char>::empty());
        0
    } else {
        let s0 = s.drop_last();
        let parts0 = comma_parts(s0);
        let n = s.len() as int;
        lemma_has_parts(s0);
        if i == n {
            assert(s.subrange(n, n) =~= Seq::<char>::empty());
            parts0.len() as int
        } else {
            let j0 = if j == n {
                n - 1
            } else {
                j
            };
            assert(j == n ==> s[n - 1] != ',');
            assert forall|m: int| i <= m < j0 implies #[trigger] s0[m] != ',' by {
                assert(s[m] != ',');
            }
            assert(is_segment(s0, i, j0));
            let k = lemma_segment_is_part(s0, i, j0);
            if j == n {
                assert(s0.subrange(i, j0).push(s.last()) =~= s.subrange(i, j));
            } else {
                assert(s0.subrange(i, j) =~= s.subrange(i, j));
            }
            k
        }
    }
}

/// What trimming leaves: the part from the first character that is no white space to the
/// last one.
proof fn lemma_trimmed(p: Seq<char>) -> (ends: (int, int))
    ensures
        0 <= ends.0 <= ends.1 <= p.len(),
        trimmed(p) == p.subrange(ends.0, ends.1),
        forall|k: int| 0 <= k < ends.0 ==> is_space(#[trigger] p[k]),
        forall|k: int| ends.1 <= k < p.len() ==> is_space(#[trigger] p[k]),
        ends.0 < ends.1 ==> !is_space(p[ends.0]) && !is_space(p[ends.1 - 1]),
{
    let a = lemma_trimmed_start(p);
    let rest = trimmed_start(p);
    let b = lemma_trimmed_end(rest);
    assert(rest.subrange(0, b) =~= p.subrange(a, a + b));
    assert forall|k: int| a + b <= k < p.len() implies is_space(#[trigger] p[k]) by {
        assert(rest[k - a] == p[k]);
    }
    (a, a + b)
}

proof fn lemma_trimmed_start(p: Seq<char>) -> (a: int)
    ensures
        0 <= a <= p.len(),
        trimmed_start(p) == p.subrange(a, p.len() as int),
        forall|k: int| 0 <= k < a ==> is_space(#[trigger] p[k]),
        a < p.len() ==> !is_space(p[a]),
    decreases p.len(),
{
    if p.len() > 0 && is_space(p.first()) {
        let rest = p.drop_first();
        let a = lemma_trimmed_start(rest);
        assert(rest.subrange(a, rest.len() as int) =~= p.subrange(a + 1, p.len() as int));
        assert forall|k: int| 0 <= k < a + 1 implies is_space(#[trigger] p[k]) by {
            if k > 0 {
                assert(rest[k - 1] == p[k]);
            }
        }
        a + 1
    } else {
        assert(p.subrange(0, p.len() as int) =~= p);
        0
    }
}

proof fn lemma_trimmed_end(p: Seq<char>) -> (b: int)
    ensures
        0 <= b <= p.len(),
        trimmed_end(p) == p.subrange(0, b),
        forall|k: int| b <= k < p.len() ==> is_space(#[trigger] p[k]),
        b > 0 ==> !is_space(p[b - 1]),
    decreases p.len(),
{
    if p.len() > 0 && is_space(p.last()) {
        let rest = p.drop_last();
        let b = lemma_trimmed_end(rest);
        assert(rest.subrange(0, b) =~= p.subrange(0, b));
        assert forall|k: int| b <= k < p.len() implies is_space(#[trigger] p[k]) by {
            if k < p.len() - 1 {
                assert(rest[k] == p[k]);
            }
        }
        b
    } else {
        assert(p.subrange(0, p.len() as int) =~= p);
        p.len() as int
    }
}

/// Trimming leaves what stands between white space, where that neither begins nor ends with
/// white space.
proof fn lemma_trimmed_to(p: Seq<char>, a: int, b: int)
    requires
        0 <= a < b <= p.len(),
        forall|k: int| 0 <= k < a ==> is_space(#[trigger] p[k]),
        forall|k: int| b <= k < p.len() ==> is_space(#[trigger] p[k]),
        !is_space(p[a]),
        !is_space(p[b - 1]),
    ensures
        trimmed(p) == p.subrange(a, b),
    decreases p.len(),
{
    if a > 0 {
        let rest = p.drop_first();
        assert forall|k: int| 0 <= k < a - 1 implies is_space(#[trigger] rest[k]) by {
            assert(is_space(p[k + 1]));
        }
        assert forall|k: int| b - 1 <= k < rest.len() implies is_space(#[trigger] rest[k]) by {
            assert(is_space(p[k + 1]));
        }
        assert(is_space(p[0]));
        lemma_trimmed_to(rest, a - 1, b - 1);
        assert(rest.subrange(a - 1, b - 1) =~= p.subrange(a, b));
    } else {
        lemma_trimmed_end_to(p, b);
    }
}

proof fn lemma_trimmed_end_to(p: Seq<char>, b: int)
    requires
        0 < b <= p.len(),
        forall|k: int| b <= k < p.len() ==> is_space(#[trigger] p[k]),
        !is_space(p[b - 1]),
    ensures
        trimmed_end(p) == p.subrange(0, b),
    decreases p.len(),
{
    if b < p.len() {
        let rest = p.drop_last();
        assert forall|k: int| b <= k < rest.len() implies is_space(#[trigger] rest[k]) by {
            assert(is_space(p[k]));
        }
        assert(is_space(p[p.len() - 1]));
        lemma_trimmed_end_to(rest, b);
        assert(rest.subrange(0, b) =~= p.subrange(0, b));
    } else {
        assert(p.subrange(0, b) =~= p);
    }
}

/// White space leaves nothing when it is trimmed.
proof fn lemma_trimmed_blank(p: Seq<char>)
    requires
        forall|k: int| 0 <= k < p.len() ==> is_space(#[trigger] p[k]),
    ensures
        trimmed(p) == Seq::<char>::empty(),
{
    let (a, b) = lemma_trimmed(p);
    if a < b {
        assert(is_space(p[a]));
    }
    assert(p.subrange(a, b) =~= Seq::<char>::empty());
}

proof fn lemma_listed(s: Seq<char>, word: Seq<char>) -> (at: int)
    requires
        lists_token(s, word),
    ensures
        is_word(word),
        option_at(s, word, at),
{
    let k = choose|k: int|
        0 <= k < comma_parts(s).len() && #[trigger] part_is(comma_parts(s)[k], word);
    let part = comma_parts(s)[k];
    let (i, j) = lemma_part_is_segment(s, k);
    let (a, b) = lemma_trimmed(part);
    law_case(trimmed(part), word);
    let at = i + a;
    assert(b - a == word.len());
    assert forall|m: int| 0 <= m < word.len() implies same_letter(
        s[at + m],
        #[trigger] word[m],
    ) by {
        assert(trimmed(part)[m] == part[a + m]);
        assert(same_letter(trimmed(part)[m], word[m]));
    }
    assert(opens_at(s, i, at)) by {
        assert forall|m: int| i <= m < at implies (#[trigger] s[m] as int == 32 || s[m] as int
            == 9) by {
            assert(is_space(part[m - i]));
        }
    }
    assert(closes_at(s, at + word.len(), j)) by {
        assert forall|m: int| at + word.len() <= m < j implies (#[trigger] s[m] as int == 32
            || s[m] as int == 9) by {
            assert(is_space(part[m - i]));
        }
    }
    assert(is_word(word)) by {
        assert forall|m: int| 0 <= m < word.len() implies #[trigger] word[m] as int != 44 by {
            assert(same_letter(s[at + m], word[m]));
            assert(s[at + m] != ',');
        }
        if word.len() > 0 {
            assert(same_letter(s[at + 0], word[0]));
            assert(same_letter(s[at + (word.len() - 1)], word[word.len() - 1]));
            assert(part[a] == s[at]);
            assert(part[b - 1] == s[at + (word.len() - 1)]);
        }
    }
    at
}

proof fn lemma_option_is_listed(s: Seq<char>, word: Seq<char>, at: int)
    requires
        is_word(word),
        option_at(s, word, at),
    ensures
        lists_token(s, word),
{
    let i = choose|i: int| #[trigger] opens_at(s, i, at);
    let b = at + word.len();
    let j = choose|j: int| #[trigger] closes_at(s, b, j);
    let part = s.subrange(i, j);
    assert forall|m: int| i <= m < j implies #[trigger] s[m] != ',' by {
        if at <= m < b {
            assert(same_letter(s[at + (m - at)], word[m - at]));
        }
    }
    assert(is_segment(s, i, j));
    let k = lemma_segment_is_part(s, i, j);
    assert forall|m: int| 0 <= m < at - i implies is_space(#[trigger] part[m]) by {
        assert(s[i + m] as int == 32 || s[i + m] as int == 9);
    }
    assert forall|m: int| b - i <= m < part.len() implies is_space(#[trigger] part[m]) by {
        assert(s[i + m] as int == 32 || s[i + m] as int == 9);
    }
    let core = part.subrange(at - i, b - i);
    if word.len() > 0 {
        assert(same_letter(s[at + 0], word[0]));
        assert(same_letter(s[at + (word.len() - 1)], word[word.len() - 1]));
        lemma_trimmed_to(part, at - i, b - i);
    } else {
        lemma_trimmed_blank(part);
        assert(core =~= Seq::<char>::empty());
    }
    assert(reads_like(core, word)) by {
        assert forall|m: int| 0 <= m < core.len() implies same_letter(
            #[trigger] core[m],
            word[m],
        ) by {
            assert(same_letter(s[at + m], word[m]));
        }
    }
    law_case(core, word);
    assert(part_is(comma_parts(s)[k], word));
}

/// A list holds a token if and only if the token is one that can stand between commas, and its
/// letters, in any case, stand somewhere in the list with nothing but white space up to the
/// next comma or end of the text, on either side.
pub proof fn law_list(s: Seq<char>, word: Seq<char>)
    ensures
        lists_token(s, word) <==> is_word(word) && exists|at: int| #[trigger]
            option_at(s, word, at),
{
    if lists_token(s, word) {
        let at = lemma_listed(s, word);
        assert(option_at(s, word, at));
    }
    if is_word(word) && exists|at: int| #[trigger] option_at(s, word, at) {
        let at = choose|at: int| #[trigger] option_at(s, word, at);
        lemma_option_is_listed(s, word, at);
    }
}

} // verus!
