//! Text as sequences of characters: conversion, splitting and trimming.

use vstd::prelude::*;
use vstd::std_specs::iter::IteratorSpec;
use vstd::utf8::{decode_utf8, valid_utf8};

verus! {

/// The characters of `text`, in order.
pub fn chars_of(text: &str) -> (chars: Vec<char>)
    ensures
        chars@ == text@,
{
    let mut chars: Vec<char> = Vec::new();
    let mut rest = text.chars();
    proof {
        vstd::string::axiom_spec_iter(text);
    }
    loop
        invariant
            rest.obeys_prophetic_iter_laws(),
            rest.decrease() is Some,
            chars@ + rest.remaining() == text@,
        decreases rest.decrease()->0,
    {
        let ghost before = rest;
        let next = rest.next();
        proof {
            vstd::string::next_postcondition(&before, &rest, next);
        }
        match next {
            Some(c) => {
                assert(chars@.push(c) + rest.remaining() =~= chars@ + before.remaining());
                chars.push(c);
            },
            None => {
                assert(chars@ + rest.remaining() =~= chars@);
                return chars;
            },
        }
    }
}

/// `String::from_iter` over the characters of a slice: the text made of exactly
/// those characters, in order.
#[verifier::external_body]
pub(crate) fn string_of(chars: &Vec<char>) -> (text: String)
    ensures
        text@ == chars@,
{
    String::from_iter(chars.iter())
}

/// The index of the first occurrence of `c` in `s`, or `s.len()` where there is none.
pub open spec fn find(s: Seq<char>, c: char) -> int
    decreases s.len(),
{
    if s.len() == 0 {
        0
    } else if s[0] == c {
        0
    } else {
        1 + find(s.skip(1), c)
    }
}

/// The pieces of `s` between occurrences of `sep`: one more piece than there are
/// separators, so the empty text has one empty piece.
pub open spec fn split(s: Seq<char>, sep: char) -> Seq<Seq<char>>
    decreases s.len(),
{
    let k = find(s, sep);
    if 0 <= k < s.len() {
        seq![s.take(k)] + split(s.skip(k + 1), sep)
    } else {
        seq![s]
    }
}

/// The pieces put together again with `sep` between neighbours.
pub open spec fn join(parts: Seq<Seq<char>>, sep: char) -> Seq<char>
    decreases parts.len(),
{
    if parts.len() == 0 {
        Seq::empty()
    } else if parts.len() == 1 {
        parts[0]
    } else {
        parts[0] + seq![sep] + join(parts.skip(1), sep)
    }
}

/// The views of a vector of character vectors.
pub open spec fn views(parts: Seq<Vec<char>>) -> Seq<Seq<char>> {
    Seq::new(parts.len(), |i: int| parts[i]@)
}

/// `find` is the first index that holds `c`, or the length.
pub proof fn lemma_find(s: Seq<char>, c: char)
    ensures
        0 <= find(s, c) <= s.len(),
        forall|j: int| 0 <= j < find(s, c) ==> s[j] != c,
        find(s, c) < s.len() ==> s[find(s, c)] == c,
    decreases s.len(),
{
    if s.len() > 0 && s[0] != c {
        lemma_find(s.skip(1), c);
        assert forall|j: int| 0 <= j < find(s, c) implies s[j] != c by {
            if j > 0 {
                assert(s.skip(1)[j - 1] == s[j]);
            }
        }
    }
}

/// An index that holds `c` with none before it is what `find` returns.
pub proof fn lemma_find_is(s: Seq<char>, c: char, k: int)
    requires
        0 <= k <= s.len(),
        forall|j: int| 0 <= j < k ==> s[j] != c,
        k < s.len() ==> s[k] == c,
    ensures
        find(s, c) == k,
{
    lemma_find(s, c);
    let f = find(s, c);
    if f < k {
        assert(s[f] == c);
    } else if f > k {
        assert(s[k] == c);
    }
}

/// Splits `text` at every `sep`.
pub fn split_chars(text: &Vec<char>, sep: char) -> (parts: Vec<Vec<char>>)
    ensures
        views(parts@) == split(text@, sep),
{
    let mut parts: Vec<Vec<char>> = Vec::new();
    let mut piece: Vec<char> = Vec::new();
    let mut start: usize = 0;
    let mut i: usize = 0;
    proof {
        assert(text@.skip(0) =~= text@);
        assert(views(parts@) + split(text@, sep) =~= split(text@, sep));
    }
    while i < text.len()
        invariant
            0 <= start <= i <= text.len(),
            piece@ == text@.subrange(start as int, i as int),
            forall|j: int| start <= j < i ==> text@[j] != sep,
            split(text@, sep) == views(parts@) + split(text@.skip(start as int), sep),
        decreases text.len() - i,
    {
        let c = text[i];
        if c == sep {
            proof {
                let rest = text@.skip(start as int);
                lemma_find_is(rest, sep, i - start);
                assert(rest.take(i - start) =~= piece@);
                assert(rest.skip(i - start + 1) =~= text@.skip(i + 1));
                assert(views(parts@.push(piece)) =~= views(parts@) + seq![piece@]);
            }
            parts.push(piece);
            piece = Vec::new();
            start = i + 1;
        } else {
            piece.push(c);
        }
        i += 1;
        proof {
            assert(piece@ =~= text@.subrange(start as int, i as int));
        }
    }
    proof {
        let rest = text@.skip(start as int);
        lemma_find_is(rest, sep, rest.len() as int);
        assert(rest =~= piece@);
        assert(views(parts@.push(piece)) =~= views(parts@) + seq![piece@]);
    }
    parts.push(piece);
    parts
}

/// Joining one more piece puts a separator and the piece behind what was joined.
pub proof fn lemma_join_push(parts: Seq<Seq<char>>, piece: Seq<char>, sep: char)
    ensures
        join(parts.push(piece), sep) == if parts.len() == 0 {
            piece
        } else {
            join(parts, sep) + seq![sep] + piece
        },
    decreases parts.len(),
{
    let all = parts.push(piece);
    if parts.len() == 0 {
        assert(all[0] == piece);
    } else if parts.len() == 1 {
        assert(all.skip(1) =~= seq![piece]);
        assert(join(all.skip(1), sep) == piece);
    } else {
        lemma_join_push(parts.skip(1), piece, sep);
        assert(all.skip(1) =~= parts.skip(1).push(piece));
        assert(join(all, sep) =~= join(parts, sep) + seq![sep] + piece);
    }
}

/// `String::from_utf8` on a copy of `bytes`: the text that the bytes encode in
/// UTF-8, and nothing where they are no UTF-8.
#[verifier::external_body]
pub(crate) fn text_of_bytes(bytes: &Vec<u8>) -> (text: Option<String>)
    ensures
        match text {
            Some(t) => valid_utf8(bytes@) && t@ == decode_utf8(bytes@),
            None => !valid_utf8(bytes@),
        },
{
    String::from_utf8(bytes.clone()).ok()
}

/// Whether `c` is white space: one of the characters with the Unicode property `White_Space`.
pub open spec fn is_space(c: char) -> bool {
    let code = c as u32;
    ||| 0x09 <= code <= 0x0d
    ||| code == 0x20
    ||| code == 0x85
    ||| code == 0xa0
    ||| code == 0x1680
    ||| 0x2000 <= code <= 0x200a
    ||| code == 0x2028
    ||| code == 0x2029
    ||| code == 0x202f
    ||| code == 0x205f
    ||| code == 0x3000
}

/// Whether `c` is white space.
pub fn is_whitespace(c: char) -> (space: bool)
    ensures
        space == is_space(c),
{
    let code: u32 = c as u32;
    (0x09 <= code && code <= 0x0d) || code == 0x20 || code == 0x85 || code == 0xa0 || code
        == 0x1680 || (0x2000 <= code && code <= 0x200a) || code == 0x2028 || code == 0x2029
        || code == 0x202f || code == 0x205f || code == 0x3000
}

/// `s` without the white space at its start.
pub open spec fn trim_start(s: Seq<char>) -> Seq<char>
    decreases s.len(),
{
    if s.len() > 0 && is_space(s[0]) {
        trim_start(s.skip(1))
    } else {
        s
    }
}

/// `s` without the white space at its end.
pub open spec fn trim_end(s: Seq<char>) -> Seq<char>
    decreases s.len(),
{
    if s.len() > 0 && is_space(s.last()) {
        trim_end(s.drop_last())
    } else {
        s
    }
}

/// `s` without the white space at its start and at its end.
pub open spec fn trim(s: Seq<char>) -> Seq<char> {
    trim_end(trim_start(s))
}

/// The characters of `text` between its leading and trailing white space.
pub fn trim_chars(text: &Vec<char>) -> (trimmed: Vec<char>)
    ensures
        trimmed@ == trim(text@),
{
    let len = text.len();
    let mut start: usize = 0;
    proof {
        assert(text@.skip(0) =~= text@);
    }
    while start < len && is_whitespace(text[start])
        invariant
            0 <= start <= len,
            len == text.len(),
            trim_start(text@) == trim_start(text@.skip(start as int)),
        decreases len - start,
    {
        proof {
            assert(text@.skip(start as int).skip(1) =~= text@.skip(start + 1));
        }
        start += 1;
    }
    let mut end: usize = len;
    proof {
        assert(text@.subrange(start as int, len as int) =~= text@.skip(start as int));
    }
    while end > start && is_whitespace(text[end - 1])
        invariant
            start <= end <= len,
            len == text.len(),
            trim(text@) == trim_end(text@.subrange(start as int, end as int)),
        decreases end - start,
    {
        proof {
            assert(text@.subrange(start as int, end as int).drop_last() =~= text@.subrange(
                start as int,
                end - 1,
            ));
        }
        end -= 1;
    }
    let mut trimmed: Vec<char> = Vec::new();
    let mut i: usize = start;
    while i < end
        invariant
            start <= i <= end <= len,
            len == text.len(),
            trimmed@ == text@.subrange(start as int, i as int),
        decreases end - i,
    {
        trimmed.push(text[i]);
        i += 1;
        proof {
            assert(trimmed@ =~= text@.subrange(start as int, i as int));
        }
    }
    trimmed
}

/// Whether two vectors hold the same characters.
pub fn same_chars(left: &Vec<char>, right: &Vec<char>) -> (same: bool)
    ensures
        same == (left@ == right@),
{
    if left.len() != right.len() {
        return false;
    }
    let mut i: usize = 0;
    while i < left.len()
        invariant
            0 <= i <= left.len(),
            left.len() == right.len(),
            forall|j: int| 0 <= j < i ==> left@[j] == right@[j],
        decreases left.len() - i,
    {
        if left[i] != right[i] {
            return false;
        }
        i += 1;
    }
    proof {
        assert(left@ =~= right@);
    }
    true
}

/// Whether every character of `s` is white space.
pub open spec fn all_space(s: Seq<char>) -> bool {
    forall|j: int| 0 <= j < s.len() ==> is_space(#[trigger] s[j])
}

/// Whether `s` neither starts nor ends with white space.
pub open spec fn is_trimmed(s: Seq<char>) -> bool {
    s.len() == 0 || (!is_space(s[0]) && !is_space(s.last()))
}

/// White space in front of a text is trimmed away.
pub proof fn lemma_trim_start_spaces(lead: Seq<char>, rest: Seq<char>)
    requires
        all_space(lead),
    ensures
        trim_start(lead + rest) == trim_start(rest),
    decreases lead.len(),
{
    if lead.len() == 0 {
        assert(lead + rest =~= rest);
    } else {
        let text = lead + rest;
        assert(text[0] == lead[0]);
        assert(text.skip(1) =~= lead.skip(1) + rest);
        assert forall|j: int| 0 <= j < lead.skip(1).len() implies is_space(
            #[trigger] lead.skip(1)[j],
        ) by {
            assert(lead.skip(1)[j] == lead[j + 1]);
        }
        lemma_trim_start_spaces(lead.skip(1), rest);
    }
}

/// White space behind a text is trimmed away.
pub proof fn lemma_trim_end_spaces(rest: Seq<char>, trail: Seq<char>)
    requires
        all_space(trail),
    ensures
        trim_end(rest + trail) == trim_end(rest),
    decreases trail.len(),
{
    if trail.len() == 0 {
        assert(rest + trail =~= rest);
    } else {
        let text = rest + trail;
        assert(text.last() == trail.last());
        assert(text.drop_last() =~= rest + trail.drop_last());
        assert forall|j: int| 0 <= j < trail.drop_last().len() implies is_space(
            #[trigger] trail.drop_last()[j],
        ) by {
            assert(trail.drop_last()[j] == trail[j]);
        }
        lemma_trim_end_spaces(rest, trail.drop_last());
    }
}

/// Trimming takes the white space around a trimmed text away, and nothing else.
pub proof fn lemma_trim_around(lead: Seq<char>, core: Seq<char>, trail: Seq<char>)
    requires
        all_space(lead),
        all_space(trail),
        is_trimmed(core),
    ensures
        trim(lead + core + trail) == core,
{
    assert(lead + core + trail =~= lead + (core + trail));
    lemma_trim_start_spaces(lead, core + trail);
    if core.len() == 0 {
        assert(core + trail =~= trail + Seq::<char>::empty());
        lemma_trim_start_spaces(trail, Seq::<char>::empty());
    } else {
        assert((core + trail)[0] == core[0]);
        lemma_trim_end_spaces(core, trail);
    }
}

} // verus!
