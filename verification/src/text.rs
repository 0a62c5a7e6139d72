//! Text helpers shared by the protocol code: decoding, trimming, case
//! folding, comparing and cutting at a delimiter.

use vstd::prelude::*;
use vstd::string::*;
use vstd::utf8::*;

verus! {

/// Whether a character is white space as Unicode defines it; this is what
/// `char::is_whitespace` answers.
pub uninterp spec fn is_whitespace(c: char) -> bool;

/// The upper-case form of a text as Unicode defines it; this is what
/// `str::to_uppercase` returns.
pub uninterp spec fn uppercase(text: Seq<char>) -> Seq<char>;

/// Number of white-space characters at the start of a text.
pub open spec fn leading_whitespace(text: Seq<char>) -> nat
    decreases text.len(),
{
    if text.len() > 0 && is_whitespace(text.first()) {
        1 + leading_whitespace(text.drop_first())
    } else {
        0
    }
}

/// Number of white-space characters at the end of a text.
pub open spec fn trailing_whitespace(text: Seq<char>) -> nat
    decreases text.len(),
{
    if text.len() > 0 && is_whitespace(text.last()) {
        1 + trailing_whitespace(text.drop_last())
    } else {
        0
    }
}

/// A text without the white space at its start.
pub open spec fn trimmed_start(text: Seq<char>) -> Seq<char> {
    text.subrange(leading_whitespace(text) as int, text.len() as int)
}

/// A text without the white space at its end.
pub open spec fn trimmed_end(text: Seq<char>) -> Seq<char> {
    text.subrange(0, text.len() - trailing_whitespace(text))
}

/// A text without the white space at either end.
pub open spec fn trimmed(text: Seq<char>) -> Seq<char> {
    trimmed_end(trimmed_start(text))
}

/// Number of characters of a text that stand before its first
/// `delimiter`; the whole length where it holds none.
pub open spec fn prefix_len(text: Seq<char>, delimiter: char) -> nat
    decreases text.len(),
{
    if text.len() == 0 || text.first() == delimiter {
        0
    } else {
        1 + prefix_len(text.drop_first(), delimiter)
    }
}

/// The two parts of a text around its first `delimiter`, which belongs to
/// neither; `None` where the text holds no `delimiter`.
pub open spec fn split_at_first(text: Seq<char>, delimiter: char) -> Option<
    (Seq<char>, Seq<char>),
> {
    let at = prefix_len(text, delimiter) as int;
    if at == text.len() {
        None
    } else {
        Some((text.subrange(0, at), text.subrange(at + 1, text.len() as int)))
    }
}

/// Number of characters of a text that stand after its last `delimiter`;
/// the whole length where it holds none.
pub open spec fn suffix_len(text: Seq<char>, delimiter: char) -> nat
    decreases text.len(),
{
    if text.len() == 0 || text.last() == delimiter {
        0
    } else {
        1 + suffix_len(text.drop_last(), delimiter)
    }
}

/// The part of a text after its last `delimiter`; the whole text where it
/// holds none.
pub open spec fn after_last(text: Seq<char>, delimiter: char) -> Seq<char> {
    text.subrange(text.len() - suffix_len(text, delimiter), text.len() as int)
}

/// Decodes bytes as UTF-8 text.
///
/// Calls `std::str::from_utf8`. The contract claims that the call succeeds
/// exactly on well-formed UTF-8 and that the text it returns is the
/// decoding of the bytes.
#[verifier::external_body]
pub(crate) fn utf8_text(bytes: &[u8]) -> (text: Option<&str>)
    ensures
        text is Some <==> valid_utf8(bytes@),
        text matches Some(t) ==> t@ == decode_utf8(bytes@),
{
    std::str::from_utf8(bytes).ok()
}

/// Tells whether a character is white space.
///
/// Calls `char::is_whitespace`. The contract only names the result.
#[verifier::external_body]
pub(crate) fn char_is_whitespace(c: char) -> (white: bool)
    ensures
        white == is_whitespace(c),
{
    c.is_whitespace()
}

/// Converts a text to upper case.
///
/// Calls `str::to_uppercase`. The contract only names the result.
#[verifier::external_body]
pub(crate) fn to_uppercase(text: &str) -> (upper: String)
    ensures
        upper@ == uppercase(text@),
{
    text.to_uppercase()
}

/// Compares two runs of bytes.
pub fn bytes_eq(a: &[u8], b: &[u8]) -> (same: bool)
    ensures
        same == (a@ == b@),
{
    if a.len() != b.len() {
        return false;
    }
    let mut i: usize = 0;
    while i < a.len()
        invariant
            i <= a.len(),
            a.len() == b.len(),
            forall|j: int| 0 <= j < i ==> a@[j] == b@[j],
        decreases a.len() - i,
    {
        if a[i] != b[i] {
            return false;
        }
        i += 1;
    }
    assert(a@ =~= b@);
    true
}

/// Compares two texts. Two texts are the same exactly if their UTF-8
/// encodings are.
pub fn text_eq(a: &str, b: &str) -> (same: bool)
    ensures
        same == (a@ == b@),
{
    proof {
        encode_utf8_decode_utf8(a@);
        encode_utf8_decode_utf8(b@);
    }
    bytes_eq(a.as_bytes(), b.as_bytes())
}

/// A text whose first `count` characters are white space, and whose next
/// one, if there is one, is not, starts with exactly `count` of them.
pub proof fn lemma_leading_whitespace(text: Seq<char>, count: int)
    requires
        0 <= count <= text.len(),
        forall|k: int| 0 <= k < count ==> is_whitespace(text[k]),
        count < text.len() ==> !is_whitespace(text[count]),
    ensures
        leading_whitespace(text) == count,
    decreases count,
{
    if count > 0 {
        let rest = text.drop_first();
        assert forall|k: int| 0 <= k < count - 1 implies is_whitespace(rest[k]) by {
            assert(rest[k] == text[k + 1]);
        }
        lemma_leading_whitespace(rest, count - 1);
    }
}

/// A text whose characters from `end` on are white space, and whose
/// character before `end`, if there is one, is not, ends with exactly
/// those.
pub proof fn lemma_trailing_whitespace(text: Seq<char>, end: int)
    requires
        0 <= end <= text.len(),
        forall|k: int| end <= k < text.len() ==> is_whitespace(text[k]),
        end > 0 ==> !is_whitespace(text[end - 1]),
    ensures
        trailing_whitespace(text) == text.len() - end,
    decreases text.len() - end,
{
    if end < text.len() {
        let rest = text.drop_last();
        assert forall|k: int| end <= k < rest.len() implies is_whitespace(rest[k]) by {
            assert(rest[k] == text[k]);
        }
        lemma_trailing_whitespace(rest, end);
    }
}

/// Trimming keeps a contiguous part of the text.
pub proof fn lemma_trimmed_is_part(text: Seq<char>)
    ensures
        leading_whitespace(text) <= text.len(),
        trailing_whitespace(trimmed_start(text)) <= trimmed_start(text).len(),
        trimmed(text) == text.subrange(
            leading_whitespace(text) as int,
            text.len() - trailing_whitespace(trimmed_start(text)),
        ),
{
    lemma_whitespace_counts(text);
    lemma_whitespace_counts(trimmed_start(text));
}

/// Neither count of white space exceeds the length of the text.
pub proof fn lemma_whitespace_counts(text: Seq<char>)
    ensures
        leading_whitespace(text) <= text.len(),
        trailing_whitespace(text) <= text.len(),
    decreases text.len(),
{
    if text.len() > 0 {
        lemma_whitespace_counts(text.drop_first());
        lemma_whitespace_counts(text.drop_last());
    }
}

/// Removes the white space at both ends of a text.
pub fn trim(text: &str) -> (inner: &str)
    ensures
        inner@ == trimmed(text@),
{
    let n = text.unicode_len();
    let mut start: usize = n;
    let mut end: usize = 0;
    let mut i: usize = 0;
    for c in it: text.chars()
        invariant
            n == text@.len(),
            it.seq() == text@,
            i == it.index(),
            i <= n,
            start <= n,
            end <= i,
            start == n ==> end == 0,
            start < n ==> start < end,
            forall|k: int| 0 <= k < i && k < start ==> is_whitespace(text@[k]),
            start < n ==> !is_whitespace(text@[start as int]),
            forall|k: int| end <= k < i ==> is_whitespace(text@[k]),
            end > 0 ==> !is_whitespace(text@[end - 1]),
    {
        if !char_is_whitespace(c) {
            if start == n {
                start = i;
            }
            end = i + 1;
        }
        i += 1;
    }
    if start == n {
        proof {
            lemma_leading_whitespace(text@, n as int);
            assert(trimmed_start(text@).len() == 0);
            assert(trimmed(text@) =~= Seq::<char>::empty());
            assert(text@.subrange(0, 0) =~= Seq::<char>::empty());
        }
        text.substring_char(0, 0)
    } else {
        proof {
            lemma_leading_whitespace(text@, start as int);
            let rest = trimmed_start(text@);
            assert forall|k: int| end - start <= k < rest.len() implies is_whitespace(rest[k]) by {
                assert(rest[k] == text@[k + start]);
            }
            assert(rest[end - start - 1] == text@[end - 1]);
            lemma_trailing_whitespace(rest, end - start);
            assert(trimmed(text@) =~= text@.subrange(start as int, end as int));
        }
        text.substring_char(start, end)
    }
}

/// A text that holds no `delimiter` before `at`, and one at `at` unless
/// `at` is its length, has `at` characters before its first `delimiter`.
pub proof fn lemma_prefix_len(text: Seq<char>, delimiter: char, at: int)
    requires
        0 <= at <= text.len(),
        forall|k: int| 0 <= k < at ==> text[k] != delimiter,
        at < text.len() ==> text[at] == delimiter,
    ensures
        prefix_len(text, delimiter) == at,
    decreases at,
{
    if at > 0 {
        let rest = text.drop_first();
        assert forall|k: int| 0 <= k < at - 1 implies rest[k] != delimiter by {
            assert(rest[k] == text[k + 1]);
        }
        lemma_prefix_len(rest, delimiter, at - 1);
    }
}

/// The first `delimiter` of a text stands where `prefix_len` says, and
/// none stands before it.
pub proof fn lemma_prefix_len_bounds(text: Seq<char>, delimiter: char)
    ensures
        prefix_len(text, delimiter) <= text.len(),
        forall|k: int| 0 <= k < prefix_len(text, delimiter) ==> text[k] != delimiter,
        prefix_len(text, delimiter) < text.len() ==> text[prefix_len(text, delimiter) as int]
            == delimiter,
    decreases text.len(),
{
    if text.len() > 0 && text.first() != delimiter {
        let rest = text.drop_first();
        lemma_prefix_len_bounds(rest, delimiter);
        assert forall|k: int| 0 <= k < prefix_len(text, delimiter) implies text[k]
            != delimiter by {
            if k > 0 {
                assert(text[k] == rest[k - 1]);
            }
        }
    }
}

/// Cuts a text in two at its first `delimiter`.
pub fn split_once<'a>(text: &'a str, delimiter: char) -> (parts: Option<(&'a str, &'a str)>)
    ensures
        match parts {
            Some((head, tail)) => split_at_first(text@, delimiter) == Some((head@, tail@)),
            None => split_at_first(text@, delimiter) is None,
        },
{
    let n = text.unicode_len();
    let mut at: usize = n;
    let mut i: usize = 0;
    for c in it: text.chars()
        invariant
            n == text@.len(),
            it.seq() == text@,
            i == it.index(),
            i <= n,
            at <= n,
            at < n ==> at < i && text@[at as int] == delimiter,
            forall|k: int| 0 <= k < i && k < at ==> text@[k] != delimiter,
    {
        if at == n && c == delimiter {
            at = i;
        }
        i += 1;
    }
    proof {
        lemma_prefix_len(text@, delimiter, at as int);
    }
    if at == n {
        None
    } else {
        Some((text.substring_char(0, at), text.substring_char(at + 1, n)))
    }
}

/// A text that holds no `delimiter` in its last `count` characters, and
/// one right before them unless they are the whole text, has `count`
/// characters after its last `delimiter`.
pub proof fn lemma_suffix_len(text: Seq<char>, delimiter: char, count: int)
    requires
        0 <= count <= text.len(),
        forall|k: int| text.len() - count <= k < text.len() ==> text[k] != delimiter,
        count < text.len() ==> text[text.len() - count - 1] == delimiter,
    ensures
        suffix_len(text, delimiter) == count,
    decreases count,
{
    if count > 0 {
        let rest = text.drop_last();
        assert forall|k: int| rest.len() - (count - 1) <= k < rest.len() implies rest[k]
            != delimiter by {
            assert(rest[k] == text[k]);
        }
        lemma_suffix_len(rest, delimiter, count - 1);
    }
}

/// The last `delimiter` of a text stands right before the part that
/// `suffix_len` measures, and none stands in that part.
pub proof fn lemma_suffix_len_bounds(text: Seq<char>, delimiter: char)
    ensures
        suffix_len(text, delimiter) <= text.len(),
        forall|k: int|
            text.len() - suffix_len(text, delimiter) <= k < text.len() ==> text[k] != delimiter,
        suffix_len(text, delimiter) < text.len() ==> text[text.len() - suffix_len(
            text,
            delimiter,
        ) - 1] == delimiter,
    decreases text.len(),
{
    if text.len() > 0 && text.last() != delimiter {
        let rest = text.drop_last();
        lemma_suffix_len_bounds(rest, delimiter);
        assert forall|k: int|
            text.len() - suffix_len(text, delimiter) <= k < text.len() implies text[k]
            != delimiter by {
            if k < rest.len() {
                assert(text[k] == rest[k]);
            }
        }
    }
}

/// What stands after the last `delimiter` of a text also stands after
/// the last `delimiter` of what follows its first one.
pub proof fn lemma_after_last_of_tail(text: Seq<char>, delimiter: char)
    ensures
        match split_at_first(text, delimiter) {
            Some((_, tail)) => after_last(text, delimiter) == after_last(tail, delimiter),
            None => after_last(text, delimiter) == text,
        },
{
    lemma_prefix_len_bounds(text, delimiter);
    match split_at_first(text, delimiter) {
        Some((_, tail)) => {
            let at = prefix_len(text, delimiter) as int;
            let count = suffix_len(tail, delimiter) as int;
            lemma_suffix_len_bounds(tail, delimiter);
            assert forall|k: int| text.len() - count <= k < text.len() implies text[k]
                != delimiter by {
                assert(text[k] == tail[k - at - 1]);
            }
            if count < tail.len() {
                assert(text[text.len() - count - 1] == tail[tail.len() - count - 1]);
            }
            lemma_suffix_len(text, delimiter, count);
            assert(after_last(text, delimiter) =~= after_last(tail, delimiter));
        },
        None => {
            lemma_suffix_len(text, delimiter, text.len() as int);
            assert(after_last(text, delimiter) =~= text);
        },
    }
}

/// Returns the part of a text after its last `delimiter`, the whole text
/// where it holds none.
pub fn last_part<'a>(text: &'a str, delimiter: char) -> (part: &'a str)
    ensures
        part@ == after_last(text@, delimiter),
        !part@.contains(delimiter),
{
    let mut rest = text;
    loop
        invariant
            after_last(rest@, delimiter) == after_last(text@, delimiter),
        ensures
            rest@ == after_last(text@, delimiter),
            !rest@.contains(delimiter),
        decreases rest@.len(),
    {
        proof {
            lemma_after_last_of_tail(rest@, delimiter);
            lemma_prefix_len_bounds(rest@, delimiter);
        }
        match split_once(rest, delimiter) {
            Some((_, tail)) => {
                rest = tail;
            },
            None => {
                assert forall|k: int| 0 <= k < rest@.len() implies rest@[k] != delimiter by {}
                break ;
            },
        }
    }
    rest
}

} // verus!
