use std::string::FromUtf8Error;
use vstd::prelude::*;
use vstd::utf8::{decode_utf8, valid_utf8};

verus! {

/// Whether `c` has Unicode's White_Space property.
pub uninterp spec fn white_space(c: char) -> bool;

/// `char::is_whitespace` tells whether the character has Unicode's
/// White_Space property. The property is a table of the Unicode Character
/// Database; it is named here, not written out.
pub assume_specification[ char::is_whitespace ](c: char) -> (out: bool)
    ensures
        out == white_space(c),
;

/// `std::string::FromUtf8Error`, carried through unread.
#[verifier::external_type_specification]
#[verifier::external_body]
pub struct ExFromUtf8Error(FromUtf8Error);

/// `String::from_utf8` gives the text that the bytes encode where they are
/// well-formed UTF-8, and refuses them where they are not.
pub assume_specification[ String::from_utf8 ](vec: Vec<u8>) -> (out: Result<String, FromUtf8Error>)
    ensures
        out is Ok <==> valid_utf8(vec@),
        out matches Ok(text) ==> text@ == decode_utf8(vec@),
;

/// `String::push` appends one character to the end of the string.
pub assume_specification[ String::push ](text: &mut String, ch: char)
    ensures
        final(text)@ == old(text)@.push(ch),
;

/// The characters of `text`, in order.
pub fn chars_of(text: &str) -> (out: Vec<char>)
    ensures
        out@ == text@,
{
    let mut out: Vec<char> = Vec::new();
    for c in it: text.chars()
        invariant
            it.seq() == text@,
            out@ == text@.take(it.index()),
    {
        out.push(c);
    }
    out
}

/// The text made of the characters of `chars` from `from` up to `to`.
pub fn text_of(chars: &Vec<char>, from: usize, to: usize) -> (out: String)
    requires
        from <= to <= chars@.len(),
    ensures
        out@ == chars@.subrange(from as int, to as int),
{
    let mut out = String::new();
    let mut at: usize = from;
    while at < to
        invariant
            from <= at <= to <= chars@.len(),
            out@ == chars@.subrange(from as int, at as int),
        decreases to - at,
    {
        out.push(chars[at]);
        at += 1;
    }
    out
}

/// The lower-case form of an ASCII capital letter; any other character itself.
pub open spec fn lower_case(c: char) -> char {
    if 'A' <= c <= 'Z' {
        (c as u8 + 32) as char
    } else {
        c
    }
}

/// `s` with each ASCII capital letter in lower case.
pub open spec fn lowered(s: Seq<char>) -> Seq<char> {
    s.map_values(|c: char| lower_case(c))
}

/// The characters of `text`, each ASCII capital letter in lower case.
pub fn lower(text: &str) -> (out: Vec<char>)
    ensures
        out@ == lowered(text@),
{
    let mut out: Vec<char> = Vec::new();
    for c in it: text.chars()
        invariant
            it.seq() == text@,
            out@ == lowered(text@.take(it.index())),
    {
        if 'A' <= c && c <= 'Z' {
            out.push(((c as u8) + 32) as char);
        } else {
            out.push(c);
        }
    }
    out
}

/// `s` without the white space at its start.
pub open spec fn trim_start(s: Seq<char>) -> Seq<char>
    decreases s.len(),
{
    if s.len() > 0 && white_space(s.first()) {
        trim_start(s.drop_first())
    } else {
        s
    }
}

/// `s` without the white space at its end.
pub open spec fn trim_end(s: Seq<char>) -> Seq<char>
    decreases s.len(),
{
    if s.len() > 0 && white_space(s.last()) {
        trim_end(s.drop_last())
    } else {
        s
    }
}

/// `s` without the white space at its start and at its end.
pub open spec fn trimmed(s: Seq<char>) -> Seq<char> {
    trim_end(trim_start(s))
}

/// Where the trimmed form of the characters from `from` up to `to` starts
/// and where it ends.
pub fn trim_bounds(chars: &Vec<char>, from: usize, to: usize) -> (out: (usize, usize))
    requires
        from <= to <= chars@.len(),
    ensures
        from <= out.0 <= out.1 <= to,
        chars@.subrange(out.0 as int, out.1 as int) == trimmed(
            chars@.subrange(from as int, to as int),
        ),
{
    let mut start: usize = from;
    while start < to && chars[start].is_whitespace()
        invariant
            from <= start <= to <= chars@.len(),
            trim_start(chars@.subrange(from as int, to as int)) == trim_start(
                chars@.subrange(start as int, to as int),
            ),
        decreases to - start,
    {
        assert(chars@.subrange(start as int, to as int).drop_first() =~= chars@.subrange(
            start + 1,
            to as int,
        ));
        start += 1;
    }
    let mut end: usize = to;
    while end > start && chars[end - 1].is_whitespace()
        invariant
            start <= end <= to <= chars@.len(),
            trim_end(chars@.subrange(start as int, to as int)) == trim_end(
                chars@.subrange(start as int, end as int),
            ),
        decreases end - start,
    {
        assert(chars@.subrange(start as int, end as int).drop_last() =~= chars@.subrange(
            start as int,
            end - 1,
        ));
        end -= 1;
    }
    (start, end)
}

/// The pieces into which the spaces of `s` part it, in order: one more than
/// `s` has spaces, each free of spaces, some perhaps empty.
pub open spec fn pieces(s: Seq<char>) -> Seq<Seq<char>>
    decreases s.len(),
{
    if s.len() == 0 {
        seq![Seq::empty()]
    } else if s.last() == ' ' {
        pieces(s.drop_last()).push(Seq::empty())
    } else {
        let before = pieces(s.drop_last());
        before.drop_last().push(before.last().push(s.last()))
    }
}

/// The trimmed forms of `parts`, without those that are empty.
pub open spec fn kept(parts: Seq<Seq<char>>) -> Seq<Seq<char>> {
    parts.map_values(|part: Seq<char>| trimmed(part)).filter(|part: Seq<char>| part.len() > 0)
}

/// The tokens of `s`: its pieces between spaces, each trimmed, the empty ones
/// left out.
pub open spec fn tokens_of(s: Seq<char>) -> Seq<Seq<char>> {
    kept(pieces(s))
}

proof fn kept_push(parts: Seq<Seq<char>>, part: Seq<char>)
    ensures
        kept(parts.push(part)) == if trimmed(part).len() > 0 {
            kept(parts).push(trimmed(part))
        } else {
            kept(parts)
        },
{
    reveal(Seq::filter);
    let all = parts.push(part).map_values(|part: Seq<char>| trimmed(part));
    assert(all.drop_last() =~= parts.map_values(|part: Seq<char>| trimmed(part)));
}

/// The tokens of `chars`, in order.
pub fn tokens(chars: &Vec<char>) -> (out: Vec<String>)
    ensures
        out.deep_view() == tokens_of(chars@),
{
    let mut out: Vec<String> = Vec::new();
    let mut start: usize = 0;
    let mut at: usize = 0;
    proof {
        reveal(Seq::filter);
    }
    while at < chars.len()
        invariant
            start <= at <= chars@.len(),
            pieces(chars@.take(at as int)).len() > 0,
            pieces(chars@.take(at as int)).last() == chars@.subrange(start as int, at as int),
            out.deep_view() == kept(pieces(chars@.take(at as int)).drop_last()),
        decreases chars@.len() - at,
    {
        let ghost before = pieces(chars@.take(at as int));
        proof {
            assert(chars@.take(at + 1).drop_last() =~= chars@.take(at as int));
        }
        if chars[at] == ' ' {
            let (from, to): (usize, usize) = trim_bounds(chars, start, at);
            if from < to {
                out.push(text_of(chars, from, to));
            }
            proof {
                kept_push(before.drop_last(), before.last());
                assert(before.drop_last().push(before.last()) =~= before);
                assert(before.push(Seq::empty()).drop_last() =~= before);
            }
            start = at + 1;
        } else {
            proof {
                let grown = before.drop_last().push(before.last().push(chars@[at as int]));
                assert(grown.drop_last() =~= before.drop_last());
            }
        }
        at += 1;
    }
    let ghost all = pieces(chars@);
    proof {
        assert(chars@.take(at as int) =~= chars@);
    }
    let (from, to): (usize, usize) = trim_bounds(chars, start, at);
    if from < to {
        out.push(text_of(chars, from, to));
    }
    proof {
        kept_push(all.drop_last(), all.last());
        assert(all.drop_last().push(all.last()) =~= all);
    }
    out
}

/// The text that `buf` encodes, trimmed; nothing where `buf` is not
/// well-formed UTF-8.
pub open spec fn normalized(buf: Seq<u8>) -> Option<Seq<char>> {
    if valid_utf8(buf) {
        Some(trimmed(decode_utf8(buf)))
    } else {
        None
    }
}

/// The characters of the trimmed text that `buf` encodes.
pub fn normalize(buf: Vec<u8>) -> (out: Option<Vec<char>>)
    ensures
        match out {
            Some(chars) => normalized(buf@) == Some(chars@),
            None => normalized(buf@) is None,
        },
{
    match String::from_utf8(buf) {
        Ok(text) => {
            let chars = chars_of(text.as_str());
            let (from, to): (usize, usize) = trim_bounds(&chars, 0, chars.len());
            proof {
                assert(chars@.subrange(0, chars@.len() as int) =~= chars@);
            }
            Some(chars_between(&chars, from, to))
        },
        Err(_) => None,
    }
}

/// The characters of `chars` from `from` up to `to`.
pub fn chars_between(chars: &Vec<char>, from: usize, to: usize) -> (out: Vec<char>)
    requires
        from <= to <= chars@.len(),
    ensures
        out@ == chars@.subrange(from as int, to as int),
{
    let mut out: Vec<char> = Vec::new();
    let mut at: usize = from;
    while at < to
        invariant
            from <= at <= to <= chars@.len(),
            out@ == chars@.subrange(from as int, at as int),
        decreases to - at,
    {
        out.push(chars[at]);
        at += 1;
    }
    out
}

} // verus!
