//! Text as sequences of characters: the line structure of a document, the
//! decimal notation of numbers, and the conversions between `str`, `String`
//! and `Vec<char>` that the rest of the crate builds on.

use vstd::prelude::*;
use vstd::std_specs::iter::IteratorSpec;

verus! {

/// Taken on trust of the standard library: `String::push` adds the character at the
/// end of the string and leaves what stood before it as it was.
pub assume_specification[ String::push ](s: &mut String, c: char)
    ensures
        final(s)@ == old(s)@.push(c),
;

/// The view of a string slice that may be absent.
pub open spec fn optional_text(s: Option<&str>) -> Option<Seq<char>> {
    match s {
        Some(s) => Some(s@),
        None => None,
    }
}

/// The view of a string that may be absent.
pub open spec fn optional_string(s: Option<String>) -> Option<Seq<char>> {
    match s {
        Some(s) => Some(s@),
        None => None,
    }
}

/// A text ends with a newline when it is not empty and its last character is `'\n'`.
pub open spec fn ends_with_newline(s: Seq<char>) -> bool {
    s.len() > 0 && s.last() == '\n'
}

/// The text itself when it already ends with a newline, else the text with one appended.
/// The empty text becomes a single newline.
pub open spec fn with_final_newline(s: Seq<char>) -> Seq<char> {
    if ends_with_newline(s) {
        s
    } else {
        s.push('\n')
    }
}

/// A text is made of whole lines when it is empty or ends with a newline.
pub open spec fn whole_lines(s: Seq<char>) -> bool {
    s.len() == 0 || ends_with_newline(s)
}

/// A finished line loses one carriage return that stood directly before its newline.
pub open spec fn without_carriage_return(line: Seq<char>) -> Seq<char> {
    if line.len() > 0 && line.last() == '\r' {
        line.drop_last()
    } else {
        line
    }
}

/// The lines of `rest`, read after the characters `current` of a line that has begun.
///
/// A newline ends the current line. What is left at the end of the text without a
/// newline is a line of its own, unless it is empty.
pub open spec fn lines_after(rest: Seq<char>, current: Seq<char>) -> Seq<Seq<char>>
    decreases rest.len(),
{
    if rest.len() == 0 {
        if current.len() == 0 {
            Seq::empty()
        } else {
            seq![current]
        }
    } else if rest[0] == '\n' {
        seq![without_carriage_return(current)] + lines_after(rest.skip(1), Seq::empty())
    } else {
        lines_after(rest.skip(1), current.push(rest[0]))
    }
}

/// The lines of a text. Lines end at `"\n"` or `"\r\n"`; the terminator belongs to no
/// line, and the last line needs none.
pub open spec fn split_lines(s: Seq<char>) -> Seq<Seq<char>> {
    lines_after(s, Seq::empty())
}

/// Each line followed by a newline, one after the other.
pub open spec fn join_lines(lines: Seq<Seq<char>>) -> Seq<char>
    decreases lines.len(),
{
    if lines.len() == 0 {
        Seq::empty()
    } else {
        lines[0].push('\n') + join_lines(lines.skip(1))
    }
}

/// A text of spaces holds nothing but the space character.
pub open spec fn is_spaces(s: Seq<char>) -> bool {
    forall|i: int| 0 <= i < s.len() ==> #[trigger] s[i] == ' '
}

/// `n` copies of `s`, one after the other.
pub open spec fn repeat(s: Seq<char>, n: nat) -> Seq<char>
    decreases n,
{
    if n == 0 {
        Seq::empty()
    } else {
        repeat(s, (n - 1) as nat) + s
    }
}

/// The parts, one after the other, with `separator` between each two neighbours.
pub open spec fn join(parts: Seq<Seq<char>>, separator: Seq<char>) -> Seq<char>
    decreases parts.len(),
{
    if parts.len() == 0 {
        Seq::empty()
    } else if parts.len() == 1 {
        parts[0]
    } else {
        join(parts.drop_last(), separator) + separator + parts.last()
    }
}

pub open spec fn is_digit(c: char) -> bool {
    '0' <= c && c <= '9'
}

/// The character that writes the digit `d`.
pub open spec fn digit_char(d: nat) -> char {
    if d == 0 {
        '0'
    } else if d == 1 {
        '1'
    } else if d == 2 {
        '2'
    } else if d == 3 {
        '3'
    } else if d == 4 {
        '4'
    } else if d == 5 {
        '5'
    } else if d == 6 {
        '6'
    } else if d == 7 {
        '7'
    } else if d == 8 {
        '8'
    } else {
        '9'
    }
}

/// The digit that the character `c` writes.
pub open spec fn digit_value(c: char) -> nat {
    if c == '0' {
        0
    } else if c == '1' {
        1
    } else if c == '2' {
        2
    } else if c == '3' {
        3
    } else if c == '4' {
        4
    } else if c == '5' {
        5
    } else if c == '6' {
        6
    } else if c == '7' {
        7
    } else if c == '8' {
        8
    } else {
        9
    }
}

/// The decimal notation of `n`, without sign and without leading zeros.
pub open spec fn decimal(n: nat) -> Seq<char>
    decreases n,
{
    if n < 10 {
        seq![digit_char(n)]
    } else {
        decimal(n / 10).push(digit_char(n % 10))
    }
}

/// A text is a numeral when it is not empty and holds decimal digits only.
pub open spec fn is_numeral(s: Seq<char>) -> bool {
    s.len() > 0 && forall|i: int| 0 <= i < s.len() ==> is_digit(#[trigger] s[i])
}

/// The number that a numeral writes; leading zeros do not count.
pub open spec fn numeral_value(s: Seq<char>) -> nat
    decreases s.len(),
{
    if s.len() == 0 {
        0
    } else {
        numeral_value(s.drop_last()) * 10 + digit_value(s.last())
    }
}

/// The texts that a vector of character vectors holds.
pub open spec fn texts(v: Seq<Vec<char>>) -> Seq<Seq<char>> {
    Seq::new(v.len(), |i: int| v[i]@)
}

/// The characters of a string slice.
pub fn chars_of(s: &str) -> (out: Vec<char>)
    ensures
        out@ == s@,
{
    broadcast use vstd::string::group_string_axioms;

    let mut out: Vec<char> = Vec::new();
    let mut it = s.chars();
    loop
        invariant
            it.obeys_prophetic_iter_laws(),
            it.decrease() is Some,
            out@ + it.remaining() == s@,
        ensures
            out@ == s@,
        decreases it.decrease()->0,
    {
        match it.next() {
            Some(c) => {
                out.push(c);
            },
            None => {
                break ;
            },
        }
    }
    out
}

/// Appends the characters `chars[from..to]` to `out`.
pub(crate) fn push_chars(out: &mut String, chars: &Vec<char>, from: usize, to: usize)
    requires
        from <= to <= chars.len(),
    ensures
        final(out)@ == old(out)@ + chars@.subrange(from as int, to as int),
{
    let mut i: usize = from;
    while i < to
        invariant
            from <= i <= to <= chars.len(),
            out@ == old(out)@ + chars@.subrange(from as int, i as int),
        decreases to - i,
    {
        out.push(chars[i]);
        i += 1;
    }
}

/// The string that holds the given characters.
pub fn text_of(chars: &Vec<char>) -> (out: String)
    ensures
        out@ == chars@,
{
    let mut out = String::new();
    push_chars(&mut out, chars, 0, chars.len());
    out
}

/// Whether the text ends with a newline.
pub fn has_final_newline(chars: &Vec<char>) -> (r: bool)
    ensures
        r == ends_with_newline(chars@),
{
    chars.len() > 0 && chars[chars.len() - 1] == '\n'
}

/// Splits a text into its lines.
pub fn lines_of(chars: &Vec<char>) -> (lines: Vec<Vec<char>>)
    ensures
        texts(lines@) == split_lines(chars@),
{
    let mut lines: Vec<Vec<char>> = Vec::new();
    let mut current: Vec<char> = Vec::new();
    let mut i: usize = 0;
    assert(chars@.skip(0) =~= chars@);
    while i < chars.len()
        invariant
            i <= chars.len(),
            split_lines(chars@) == texts(lines@) + lines_after(
                chars@.skip(i as int),
                current@,
            ),
        decreases chars.len() - i,
    {
        let c = chars[i];
        let ghost rest = chars@.skip(i as int);
        assert(rest.skip(1) =~= chars@.skip(i + 1));
        if c == '\n' {
            let n = current.len();
            if n > 0 && current[n - 1] == '\r' {
                current.pop();
            }
            let ghost before = texts(lines@);
            lines.push(current);
            current = Vec::new();
        } else {
            current.push(c);
        }
        i += 1;
    }
    if current.len() > 0 {
        let ghost before = texts(lines@);
        lines.push(current);
    }
    lines
}

/// The character that writes the digit `d`.
pub(crate) fn digit_to_char(d: u64) -> (c: char)
    requires
        d < 10,
    ensures
        c == digit_char(d as nat),
{
    if d == 0 {
        '0'
    } else if d == 1 {
        '1'
    } else if d == 2 {
        '2'
    } else if d == 3 {
        '3'
    } else if d == 4 {
        '4'
    } else if d == 5 {
        '5'
    } else if d == 6 {
        '6'
    } else if d == 7 {
        '7'
    } else if d == 8 {
        '8'
    } else {
        '9'
    }
}

/// The decimal notation of `n`.
pub fn decimal_text(n: u64) -> (out: String)
    ensures
        out@ == decimal(n as nat),
    decreases n,
{
    if n < 10 {
        let mut out = String::new();
        out.push(digit_to_char(n));
        out
    } else {
        let mut out = decimal_text(n / 10);
        out.push(digit_to_char(n % 10));
        out
    }
}

/// The decimal notation of a number is a numeral that writes this number.
pub proof fn lemma_decimal_is_numeral(n: nat)
    ensures
        is_numeral(decimal(n)),
        numeral_value(decimal(n)) == n,
    decreases n,
{
    if n < 10 {
        assert(numeral_value(decimal(n).drop_last()) == 0);
    } else {
        lemma_decimal_is_numeral(n / 10);
        assert(decimal(n).drop_last() =~= decimal(n / 10));
    }
}

/// One more line at the end adds that line and its newline to the text.
pub(crate) proof fn lemma_join_lines_push(lines: Seq<Seq<char>>, line: Seq<char>)
    ensures
        join_lines(lines.push(line)) == join_lines(lines) + line.push('\n'),
    decreases lines.len(),
{
    let longer = lines.push(line);
    if lines.len() == 0 {
        assert(join_lines(longer.skip(1)) =~= Seq::<char>::empty());
    } else {
        assert(longer.skip(1) =~= lines.skip(1).push(line));
        lemma_join_lines_push(lines.skip(1), line);
    }
}

/// After a text that ends with a newline, the lines of what follows begin afresh.
pub(crate) proof fn lemma_lines_after_append(a: Seq<char>, b: Seq<char>, current: Seq<char>)
    requires
        ends_with_newline(a),
    ensures
        lines_after(a + b, current) == lines_after(a, current) + split_lines(b),
    decreases a.len(),
{
    let whole = a + b;
    assert(whole.skip(1) =~= a.skip(1) + b);
    if a.len() == 1 {
        assert(lines_after(a.skip(1), Seq::empty()) =~= Seq::<Seq<char>>::empty());
    } else if a[0] == '\n' {
        lemma_lines_after_append(a.skip(1), b, Seq::empty());
    } else {
        lemma_lines_after_append(a.skip(1), b, current.push(a[0]));
    }
}

/// The lines of two texts, the first made of whole lines, are the lines of the one
/// followed by the lines of the other.
pub proof fn lemma_split_lines_append(a: Seq<char>, b: Seq<char>)
    requires
        whole_lines(a),
    ensures
        split_lines(a + b) == split_lines(a) + split_lines(b),
{
    if a.len() > 0 {
        lemma_lines_after_append(a, b, Seq::empty());
    }
}

/// A text without a newline, followed by one, makes one line after what has begun.
pub(crate) proof fn lemma_lines_after_line(line: Seq<char>, current: Seq<char>)
    requires
        !line.contains('\n'),
    ensures
        lines_after(line.push('\n'), current) == seq![without_carriage_return(current + line)],
    decreases line.len(),
{
    let text = line.push('\n');
    if line.len() == 0 {
        assert(lines_after(text.skip(1), Seq::empty()) =~= Seq::<Seq<char>>::empty());
    } else {
        assert(text.skip(1) =~= line.skip(1).push('\n'));
        lemma_lines_after_line(line.skip(1), current.push(line[0]));
        assert(current.push(line[0]) + line.skip(1) =~= current + line);
    }
}

/// A text without a newline that does not end with a carriage return, followed by a
/// newline, is one line: the text itself.
pub proof fn lemma_single_line(line: Seq<char>)
    requires
        !line.contains('\n'),
        line.len() == 0 || line.last() != '\r',
    ensures
        split_lines(line.push('\n')) == seq![line],
{
    lemma_lines_after_line(line, Seq::empty());
}

/// A text without a newline adds to the line that has begun, and ends it.
pub(crate) proof fn lemma_lines_after_unterminated(text: Seq<char>, current: Seq<char>)
    requires
        !text.contains('\n'),
    ensures
        lines_after(text, current) == (if (current + text).len() == 0 {
            Seq::<Seq<char>>::empty()
        } else {
            seq![current + text]
        }),
    decreases text.len(),
{
    if text.len() > 0 {
        lemma_lines_after_unterminated(text.skip(1), current.push(text[0]));
        assert(current.push(text[0]) + text.skip(1) =~= current + text);
    }
}

/// `n` copies of a text of spaces are spaces.
pub(crate) proof fn lemma_repeat_spaces(s: Seq<char>, n: nat)
    requires
        is_spaces(s),
    ensures
        is_spaces(repeat(s, n)),
    decreases n,
{
    if n > 0 {
        lemma_repeat_spaces(s, (n - 1) as nat);
    }
}

} // verus!
