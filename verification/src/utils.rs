//! Small helpers on strings.

use vstd::prelude::*;
use crate::text::{chars_of, has_final_newline, join, repeat, with_final_newline};

verus! {

/// What `char::is_alphabetic` says of a character: whether it has the Unicode
/// property `Alphabetic`. The tables of Unicode are not written out here.
pub uninterp spec fn is_alphabetic(c: char) -> bool;

/// What `char::is_alphanumeric` says of a character: whether it is alphabetic or
/// numeric as Unicode has it. The tables of Unicode are not written out here.
pub uninterp spec fn is_alphanumeric(c: char) -> bool;

/// Taken on trust of the standard library: `char::is_alphabetic` depends on the
/// character alone, so that its answer has a name, [`is_alphabetic`]. Nothing more
/// is claimed of it.
pub assume_specification[ char::is_alphabetic ](c: char) -> (r: bool)
    ensures
        r == is_alphabetic(c),
;

/// Taken on trust of the standard library: `char::is_alphanumeric` depends on the
/// character alone, so that its answer has a name, [`is_alphanumeric`]. Nothing
/// more is claimed of it.
pub assume_specification[ char::is_alphanumeric ](c: char) -> (r: bool)
    ensures
        r == is_alphanumeric(c),
;

/// The texts that a slice of strings holds.
pub open spec fn string_views(strings: Seq<String>) -> Seq<Seq<char>> {
    Seq::new(strings.len(), |i: int| strings[i]@)
}

/// The strings, one after the other, with `separator` between each two neighbours.
pub fn join_strings(strings: &[String], separator: &str) -> (out: String)
    ensures
        out@ == join(string_views(strings@), separator@),
{
    let mut out = String::new();
    let ghost parts = string_views(strings@);
    let mut i: usize = 0;
    while i < strings.len()
        invariant
            i <= strings.len(),
            parts == string_views(strings@),
            out@ == join(parts.take(i as int), separator@),
        decreases strings.len() - i,
    {
        let ghost next = parts.take(i + 1);
        assert(next.drop_last() =~= parts.take(i as int));
        if i > 0 {
            out.append(separator);
        }
        out.append(strings[i].as_str());
        i += 1;
    }
    assert(parts.take(strings.len() as int) =~= parts);
    out
}

/// `n` copies of `s`, one after the other.
pub fn repeat_str(s: &str, n: usize) -> (out: String)
    ensures
        out@ == repeat(s@, n as nat),
{
    let mut out = String::new();
    let mut i: usize = 0;
    while i < n
        invariant
            i <= n,
            out@ == repeat(s@, i as nat),
        decreases n - i,
    {
        out.append(s);
        i += 1;
    }
    out
}

/// The character that stands for `c` at the start of an identifier.
pub open spec fn identifier_start(c: char) -> char {
    if is_alphabetic(c) || c == '_' {
        c
    } else {
        '_'
    }
}

/// The character that stands for `c` after the start of an identifier.
pub open spec fn identifier_part(c: char) -> char {
    if is_alphanumeric(c) || c == '_' {
        c
    } else {
        '_'
    }
}

/// The identifier made of a text: as long as the text, with an underscore in place
/// of each character that an identifier cannot hold at that place.
pub open spec fn valid_identifier(s: Seq<char>) -> Seq<char> {
    Seq::new(
        s.len(),
        |i: int|
            if i == 0 {
                identifier_start(s[i])
            } else {
                identifier_part(s[i])
            },
    )
}

/// Turns a text into an identifier. The first character must be alphabetic or an
/// underscore, the others alphanumeric or an underscore; an underscore takes the
/// place of any other.
pub fn to_valid_identifier(s: &str) -> (out: String)
    ensures
        out@ == valid_identifier(s@),
{
    let chars = chars_of(s);
    let mut out = String::new();
    let mut i: usize = 0;
    while i < chars.len()
        invariant
            i <= chars.len(),
            chars@ == s@,
            out@ == valid_identifier(s@).take(i as int),
        decreases chars.len() - i,
    {
        let c = chars[i];
        let keep = if i == 0 {
            c.is_alphabetic() || c == '_'
        } else {
            c.is_alphanumeric() || c == '_'
        };
        if keep {
            out.push(c);
        } else {
            out.push('_');
        }
        i += 1;
    }
    out
}

/// The text itself when it ends with a newline, else the text with one appended.
pub fn ensure_ends_with_newline(s: &str) -> (out: String)
    ensures
        out@ == with_final_newline(s@),
{
    let chars = chars_of(s);
    let mut out = s.to_owned();
    if !has_final_newline(&chars) {
        out.push('\n');
    }
    out
}

} // verus!
