//! Splitting a line of text into tokens, key/value pairs and list items.

use vstd::prelude::*;
use vstd::slice::slice_subrange;
use vstd::string::*;
use vstd::utf8::*;

verus! {

/// `core::str::Utf8Error`, which says why bytes are not UTF-8. Nothing is
/// read from it.
#[verifier::external_type_specification]
#[verifier::external_body]
pub struct ExUtf8Error(core::str::Utf8Error);

/// `core::str::from_utf8`: succeeds exactly on well-formed UTF-8, and the
/// string slice then has the given bytes as its encoding.
pub assume_specification[ core::str::from_utf8 ](v: &[u8]) -> (r: Result<
    &str,
    core::str::Utf8Error,
>)
    ensures
        r is Ok <==> valid_utf8(v@),
        r matches Ok(s) ==> s.spec_bytes() == v@,
;

/// The characters that carry the Unicode `White_Space` property.
pub open spec fn is_whitespace(c: char) -> bool {
    ||| '\u{9}' <= c <= '\u{d}'
    ||| c == ' '
    ||| c == '\u{85}'
    ||| c == '\u{a0}'
    ||| c == '\u{1680}'
    ||| '\u{2000}' <= c <= '\u{200a}'
    ||| c == '\u{2028}'
    ||| c == '\u{2029}'
    ||| c == '\u{202f}'
    ||| c == '\u{205f}'
    ||| c == '\u{3000}'
}

/// The first index at or after `from` that holds no whitespace, or the length.
pub open spec fn skip_whitespace(s: Seq<char>, from: int) -> int
    decreases s.len() - from,
{
    if 0 <= from < s.len() && is_whitespace(s[from]) {
        skip_whitespace(s, from + 1)
    } else {
        from
    }
}

/// The first index at or after `from` that holds whitespace, or the length.
pub open spec fn token_end(s: Seq<char>, from: int) -> int
    decreases s.len() - from,
{
    if 0 <= from < s.len() && !is_whitespace(s[from]) {
        token_end(s, from + 1)
    } else {
        from
    }
}

/// The maximal runs of non-whitespace characters of `s` that start at or
/// after `from`, in order.
pub open spec fn tokens_from(s: Seq<char>, from: int) -> Seq<Seq<char>>
    decreases s.len() - from,
{
    let start = skip_whitespace(s, from);
    let end = token_end(s, start);
    if 0 <= from <= start < end <= s.len() {
        seq![s.subrange(start, end)] + tokens_from(s, end)
    } else {
        seq![]
    }
}

/// The whitespace-separated tokens of a line, in order.
pub open spec fn tokens(s: Seq<char>) -> Seq<Seq<char>> {
    tokens_from(s, 0)
}

/// A token as the tokenizer yields it: non-empty, and free of whitespace.
pub open spec fn is_token(word: Seq<char>) -> bool {
    word.len() > 0 && forall|i: int| 0 <= i < word.len() ==> !is_whitespace(#[trigger] word[i])
}

/// Skipping whitespace stops at the first character that is none, or at
/// the end of the line.
pub proof fn lemma_skip_whitespace_bounds(s: Seq<char>, from: int)
    requires
        0 <= from <= s.len(),
    ensures
        from <= skip_whitespace(s, from) <= s.len(),
        skip_whitespace(s, from) < s.len() ==> !is_whitespace(s[skip_whitespace(s, from)]),
        forall|i: int| from <= i < skip_whitespace(s, from) ==> is_whitespace(s[i]),
    decreases s.len() - from,
{
    if from < s.len() && is_whitespace(s[from]) {
        lemma_skip_whitespace_bounds(s, from + 1);
    }
}

/// A token ends at the first whitespace after its start, or at the end of
/// the line.
pub proof fn lemma_token_end_bounds(s: Seq<char>, from: int)
    requires
        0 <= from <= s.len(),
    ensures
        from <= token_end(s, from) <= s.len(),
        token_end(s, from) < s.len() ==> is_whitespace(s[token_end(s, from)]),
        forall|i: int| from <= i < token_end(s, from) ==> !is_whitespace(s[i]),
    decreases s.len() - from,
{
    if from < s.len() && !is_whitespace(s[from]) {
        lemma_token_end_bounds(s, from + 1);
    }
}

/// Every token of a line is non-empty and holds no whitespace.
pub proof fn lemma_tokens_are_words(s: Seq<char>, from: int)
    requires
        0 <= from <= s.len(),
    ensures
        forall|k: int|
            0 <= k < tokens_from(s, from).len() ==> is_token(#[trigger] tokens_from(s, from)[k]),
    decreases s.len() - from,
{
    let start = skip_whitespace(s, from);
    lemma_skip_whitespace_bounds(s, from);
    let end = token_end(s, start);
    lemma_token_end_bounds(s, start);
    if start < end {
        lemma_tokens_are_words(s, end);
        let word = s.subrange(start, end);
        assert forall|i: int| 0 <= i < word.len() implies !is_whitespace(#[trigger] word[i]) by {
            assert(word[i] == s[start + i]);
        }
        assert forall|k: int| 0 <= k < tokens_from(s, from).len() implies is_token(
            #[trigger] tokens_from(s, from)[k],
        ) by {
            if k > 0 {
                assert(tokens_from(s, from)[k] == tokens_from(s, end)[k - 1]);
            }
        }
    }
}

/// The first index at or after `from` that holds `c`, or the length.
pub open spec fn position_of(s: Seq<char>, c: char, from: int) -> int
    decreases s.len() - from,
{
    if 0 <= from < s.len() && s[from] != c {
        position_of(s, c, from + 1)
    } else {
        from
    }
}

/// The key and the value of a token of the form `key=value`: the token
/// holds exactly one `=`, which belongs to neither part.
pub open spec fn key_value(token: Seq<char>) -> Option<(Seq<char>, Seq<char>)> {
    let eq = position_of(token, '=', 0);
    if eq < token.len() && position_of(token, '=', eq + 1) == token.len() {
        Some((token.subrange(0, eq), token.subrange(eq + 1, token.len() as int)))
    } else {
        None
    }
}

/// The segments of `s` between commas, starting at `from`: empty segments
/// are kept, and a text without a comma is one segment.
pub open spec fn list_items_from(s: Seq<char>, from: int) -> Seq<Seq<char>>
    decreases s.len() - from,
{
    let comma = position_of(s, ',', from);
    if 0 <= from <= comma < s.len() {
        seq![s.subrange(from, comma)] + list_items_from(s, comma + 1)
    } else {
        seq![s.subrange(from, s.len() as int)]
    }
}

/// The comma-separated segments of a list value.
pub open spec fn list_items(s: Seq<char>) -> Seq<Seq<char>> {
    list_items_from(s, 0)
}

/// Characters before a position change nothing of the tokens that start
/// at or after it.
pub proof fn lemma_tokens_from_shift(prefix: Seq<char>, s: Seq<char>, from: int)
    requires
        0 <= from <= s.len(),
    ensures
        skip_whitespace(prefix + s, prefix.len() + from) == prefix.len() + skip_whitespace(s, from),
        token_end(prefix + s, prefix.len() + from) == prefix.len() + token_end(s, from),
        tokens_from(prefix + s, prefix.len() + from) == tokens_from(s, from),
    decreases s.len() - from,
{
    let whole = prefix + s;
    let n = prefix.len() as int;
    lemma_scan_shift(prefix, s, from);
    let start = skip_whitespace(s, from);
    lemma_skip_whitespace_bounds(s, from);
    lemma_scan_shift(prefix, s, start);
    let end = token_end(s, start);
    lemma_token_end_bounds(s, start);
    if start < end {
        lemma_tokens_from_shift(prefix, s, end);
        assert(whole.subrange(n + start, n + end) == s.subrange(start, end));
    }
}

/// Scanning for whitespace, or past it, goes the same way after a prefix.
proof fn lemma_scan_shift(prefix: Seq<char>, s: Seq<char>, from: int)
    requires
        0 <= from <= s.len(),
    ensures
        skip_whitespace(prefix + s, prefix.len() + from) == prefix.len() + skip_whitespace(s, from),
        token_end(prefix + s, prefix.len() + from) == prefix.len() + token_end(s, from),
    decreases s.len() - from,
{
    if from < s.len() {
        assert((prefix + s)[prefix.len() + from] == s[from]);
        lemma_scan_shift(prefix, s, from + 1);
    }
}

/// A line that starts with a word has that word as its first token: the
/// word is non-empty and free of whitespace, and whitespace or the end of
/// the line follows it.
pub proof fn lemma_tokens_word(word: Seq<char>, rest: Seq<char>)
    requires
        word.len() > 0,
        forall|i: int| 0 <= i < word.len() ==> !is_whitespace(word[i]),
        rest.len() == 0 || is_whitespace(rest[0]),
    ensures
        tokens(word + rest) == seq![word] + tokens(rest),
{
    let s = word + rest;
    let n = word.len() as int;
    assert(s[0] == word[0]);
    assert(skip_whitespace(s, 0) == 0);
    lemma_token_end_reaches(s, 0, n);
    lemma_tokens_from_shift(word, rest, 0);
    assert(s.subrange(0, n) == word);
}

/// A run without whitespace that ends at whitespace, or at the end of the
/// line, is scanned to its end.
proof fn lemma_token_end_reaches(s: Seq<char>, from: int, end: int)
    requires
        0 <= from <= end <= s.len(),
        forall|i: int| from <= i < end ==> !is_whitespace(s[i]),
        end == s.len() || is_whitespace(s[end]),
    ensures
        token_end(s, from) == end,
    decreases end - from,
{
    if from < end {
        lemma_token_end_reaches(s, from + 1, end);
    }
}

/// Whitespace at the start of a line adds no token.
pub proof fn lemma_tokens_leading_whitespace(c: char, rest: Seq<char>)
    requires
        is_whitespace(c),
    ensures
        tokens(seq![c] + rest) == tokens(rest),
{
    let s = seq![c] + rest;
    assert(s[0] == c);
    assert(skip_whitespace(s, 0) == skip_whitespace(s, 1));
    lemma_skip_whitespace_bounds(s, 1);
    lemma_tokens_from_shift(seq![c], rest, 0);
}

/// A position that holds `c` with no `c` before it is where the scan stops.
pub proof fn lemma_position_of_reaches(s: Seq<char>, c: char, from: int, at: int)
    requires
        0 <= from <= at <= s.len(),
        forall|i: int| from <= i < at ==> s[i] != c,
        at == s.len() || s[at] == c,
    ensures
        position_of(s, c, from) == at,
    decreases at - from,
{
    if from < at {
        lemma_position_of_reaches(s, c, from + 1, at);
    }
}

/// A key and a value that hold no `=`, joined by one, split back into the
/// two.
pub proof fn lemma_key_value_joined(key: Seq<char>, raw: Seq<char>)
    requires
        forall|i: int| 0 <= i < key.len() ==> key[i] != '=',
        forall|i: int| 0 <= i < raw.len() ==> raw[i] != '=',
    ensures
        key_value(key + seq!['='] + raw) == Some((key, raw)),
{
    let token = key + seq!['='] + raw;
    let eq = key.len() as int;
    assert forall|i: int| 0 <= i < eq implies token[i] != '=' by {
        assert(token[i] == key[i]);
    }
    assert(token[eq] == '=');
    lemma_position_of_reaches(token, '=', 0, eq);
    assert forall|i: int| eq + 1 <= i < token.len() implies token[i] != '=' by {
        assert(token[i] == raw[i - eq - 1]);
    }
    lemma_position_of_reaches(token, '=', eq + 1, token.len() as int);
    assert(token.subrange(0, eq) == key);
    assert(token.subrange(eq + 1, token.len() as int) == raw);
}

/// Whether `c` is a whitespace character.
pub fn char_is_whitespace(c: char) -> (b: bool)
    ensures
        b == is_whitespace(c),
{
    ('\u{9}' <= c && c <= '\u{d}') || c == ' ' || c == '\u{85}' || c == '\u{a0}' || c == '\u{1680}'
        || ('\u{2000}' <= c && c <= '\u{200a}') || c == '\u{2028}' || c == '\u{2029}' || c
        == '\u{202f}' || c == '\u{205f}' || c == '\u{3000}'
}

/// The characters of a string slice, in order.
pub fn collect_chars(s: &str) -> (chars: Vec<char>)
    ensures
        chars@ == s@,
{
    let mut chars: Vec<char> = Vec::new();
    for c in it: s.chars()
        invariant
            chars@ == it.seq().take(it.index() as int),
    {
        chars.push(c);
    }
    chars
}

/// Whether two runs of characters are the same.
pub fn chars_equal(a: &[char], b: &[char]) -> (same: bool)
    ensures
        same == (a@ == b@),
{
    if a.len() != b.len() {
        return false;
    }
    let mut i: usize = 0;
    while i < a.len()
        invariant
            a.len() == b.len(),
            i <= a.len(),
            a@.take(i as int) == b@.take(i as int),
        decreases a.len() - i,
    {
        if a[i] != b[i] {
            return false;
        }
        assert(a@.take(i + 1) == a@.take(i as int).push(a@[i as int]));
        assert(b@.take(i + 1) == b@.take(i as int).push(b@[i as int]));
        i += 1;
    }
    assert(a@.take(i as int) == a@);
    assert(b@.take(i as int) == b@);
    true
}

/// Whether a run of characters spells out `literal`.
pub fn equals_str(chars: &[char], literal: &str) -> (same: bool)
    ensures
        same == (chars@ == literal@),
{
    let expected = collect_chars(literal);
    chars_equal(chars, expected.as_slice())
}

/// `String::from_iter` over the characters of a slice: the string holds
/// exactly those characters, in order.
#[verifier::external_body]
pub(crate) fn string_from_chars(chars: &[char]) -> (text: String)
    ensures
        text@ == chars@,
{
    String::from_iter(chars)
}

/// The first index at or after `from` where `c` stands, or the length.
pub fn find_char(s: &[char], c: char, from: usize) -> (at: usize)
    requires
        from <= s.len(),
    ensures
        at == position_of(s@, c, from as int),
        from <= at <= s.len(),
{
    let mut at = from;
    while at < s.len() && s[at] != c
        invariant
            from <= at <= s.len(),
            position_of(s@, c, from as int) == position_of(s@, c, at as int),
        decreases s.len() - at,
    {
        at += 1;
    }
    at
}

/// Splits a `key=value` token at its only `=`; a token with no `=` or with
/// several has no such split.
pub fn split_key_value<'a>(token: &'a [char]) -> (pair: Option<(&'a [char], &'a [char])>)
    ensures
        match pair {
            Some((key, value)) => key_value(token@) == Some((key@, value@)),
            None => key_value(token@) is None,
        },
{
    let eq = find_char(token, '=', 0);
    if eq == token.len() {
        return None;
    }
    if find_char(token, '=', eq + 1) != token.len() {
        return None;
    }
    Some((slice_subrange(token, 0, eq), slice_subrange(token, eq + 1, token.len())))
}

/// Splits a list value on commas, keeping every segment as it stands.
pub fn split_list(value: &[char]) -> (items: Vec<String>)
    ensures
        items@.len() == list_items(value@).len(),
        forall|i: int| 0 <= i < items@.len() ==> (#[trigger] items@[i])@ == list_items(value@)[i],
{
    let mut items: Vec<String> = Vec::new();
    let mut from: usize = 0;
    loop
        invariant_except_break
            from <= value.len(),
            list_items(value@) == Seq::new(items@.len(), |i: int| items@[i]@) + list_items_from(
                value@,
                from as int,
            ),
        ensures
            list_items(value@) == Seq::new(items@.len(), |i: int| items@[i]@),
        decreases value.len() - from,
    {
        let comma = find_char(value, ',', from);
        let ghost before = Seq::new(items@.len(), |i: int| items@[i]@);
        let item = string_from_chars(slice_subrange(value, from, comma));
        let ghost text = item@;
        items.push(item);
        assert(Seq::new(items@.len(), |i: int| items@[i]@) == before.push(text));
        if comma == value.len() {
            break;
        }
        from = comma + 1;
    }
    items
}

/// Splits a line on runs of whitespace; empty tokens never arise.
pub fn split_whitespace<'a>(line: &'a [char]) -> (parts: Vec<&'a [char]>)
    ensures
        parts@.len() == tokens(line@).len(),
        forall|i: int| 0 <= i < parts@.len() ==> (#[trigger] parts@[i])@ == tokens(line@)[i],
{
    let mut parts: Vec<&[char]> = Vec::new();
    let mut pos: usize = 0;
    loop
        invariant
            pos <= line.len(),
            tokens(line@) == Seq::new(parts@.len(), |i: int| parts@[i]@) + tokens_from(
                line@,
                pos as int,
            ),
        ensures
            tokens(line@) == Seq::new(parts@.len(), |i: int| parts@[i]@),
        decreases line.len() - pos,
    {
        let ghost from = pos;
        while pos < line.len() && char_is_whitespace(line[pos])
            invariant
                from <= pos <= line.len(),
                skip_whitespace(line@, from as int) == skip_whitespace(line@, pos as int),
            decreases line.len() - pos,
        {
            pos += 1;
        }
        let start = pos;
        while pos < line.len() && !char_is_whitespace(line[pos])
            invariant
                start <= pos <= line.len(),
                token_end(line@, start as int) == token_end(line@, pos as int),
            decreases line.len() - pos,
        {
            pos += 1;
        }
        if start == pos {
            assert(tokens_from(line@, from as int) == Seq::<Seq<char>>::empty());
            assert(tokens_from(line@, pos as int) == Seq::<Seq<char>>::empty());
            break;
        }
        let ghost before = Seq::new(parts@.len(), |i: int| parts@[i]@);
        let part = slice_subrange(line, start, pos);
        parts.push(part);
        assert(Seq::new(parts@.len(), |i: int| parts@[i]@) == before.push(part@));
        assert(tokens_from(line@, from as int) == seq![part@] + tokens_from(line@, pos as int));
    }
    parts
}

} // verus!
