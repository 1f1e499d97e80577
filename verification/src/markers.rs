//! The marker lines that delimit user regions.
//!
//! | Kind           | Begin                          | End                          |
//! |----------------|--------------------------------|------------------------------|
//! | Named region   | `/* USER CODE BEGIN <name> */` | `/* USER CODE END <name> */` |
//! | Partial region | `//!begin <digits>`            | `//!end <digits>`            |
//!
//! A name is a run of ASCII letters, digits and underscores. A marker stands alone
//! on its line: blanks may surround it, nothing else.

use vstd::prelude::*;
use crate::text::{
    chars_of,
    decimal,
    decimal_text,
    is_digit,
    is_numeral,
    lemma_decimal_is_numeral,
    numeral_value,
    push_chars,
};

verus! {

/// The identity of a user region: a name, or the number of a partial region.
#[derive(Debug, Clone, PartialEq, Eq)]
pub enum Region {
    Named(String),
    Partial(u32),
}

/// A [`Region`] with its name as a character sequence.
pub enum RegionView {
    Named(Seq<char>),
    Partial(u32),
}

impl View for Region {
    type V = RegionView;

    open spec fn view(&self) -> RegionView {
        match *self {
            Region::Named(name) => RegionView::Named(name@),
            Region::Partial(number) => RegionView::Partial(number),
        }
    }
}

/// What a marker line says.
#[derive(Debug, Clone, PartialEq, Eq)]
pub enum Marker {
    /// The region begins after this line.
    Begin(Region),
    /// The region ended before this line.
    End(Region),
    /// A partial marker whose number does not fit in 32 bits; the text is the number
    /// as written.
    OutOfRange(String),
}

/// A [`Marker`] with its texts as character sequences.
pub enum MarkerView {
    Begin(RegionView),
    End(RegionView),
    OutOfRange(Seq<char>),
}

impl View for Marker {
    type V = MarkerView;

    open spec fn view(&self) -> MarkerView {
        match *self {
            Marker::Begin(region) => MarkerView::Begin(region@),
            Marker::End(region) => MarkerView::End(region@),
            Marker::OutOfRange(numeral) => MarkerView::OutOfRange(numeral@),
        }
    }
}

/// The view of a marker that may be absent.
pub open spec fn marker_view(marker: Option<Marker>) -> Option<MarkerView> {
    match marker {
        Some(m) => Some(m@),
        None => None,
    }
}

/// Blanks are the ASCII white space characters.
pub open spec fn is_blank(c: char) -> bool {
    c == ' ' || c == '\t' || c == '\n' || c == '\r' || c == '\x0B' || c == '\x0C'
}

/// The characters of a region name: ASCII letters, digits and the underscore.
pub open spec fn is_word_char(c: char) -> bool {
    ('a' <= c && c <= 'z') || ('A' <= c && c <= 'Z') || ('0' <= c && c <= '9') || c == '_'
}

/// A word is a non-empty run of word characters.
pub open spec fn is_word(s: Seq<char>) -> bool {
    s.len() > 0 && forall|i: int| 0 <= i < s.len() ==> is_word_char(#[trigger] s[i])
}

/// A text is blank when it holds blanks only.
pub open spec fn is_blank_text(s: Seq<char>) -> bool {
    forall|i: int| 0 <= i < s.len() ==> is_blank(#[trigger] s[i])
}

/// The text without the blanks at its start.
pub open spec fn trim_start(s: Seq<char>) -> Seq<char>
    decreases s.len(),
{
    if s.len() > 0 && is_blank(s[0]) {
        trim_start(s.skip(1))
    } else {
        s
    }
}

/// The text without the blanks at its end.
pub open spec fn trim_end(s: Seq<char>) -> Seq<char>
    decreases s.len(),
{
    if s.len() > 0 && is_blank(s.last()) {
        trim_end(s.drop_last())
    } else {
        s
    }
}

/// The text without the blanks at either end.
pub open spec fn trim(s: Seq<char>) -> Seq<char> {
    trim_end(trim_start(s))
}

pub open spec fn named_begin_prefix() -> Seq<char> {
    "/* USER CODE BEGIN "@
}

pub open spec fn named_end_prefix() -> Seq<char> {
    "/* USER CODE END "@
}

pub open spec fn named_suffix() -> Seq<char> {
    " */"@
}

pub open spec fn partial_begin_keyword() -> Seq<char> {
    "//!begin"@
}

pub open spec fn partial_end_keyword() -> Seq<char> {
    "//!end"@
}

impl RegionView {
    /// The marker that opens the region.
    pub open spec fn begin_marker(self) -> Seq<char> {
        match self {
            RegionView::Named(name) => named_begin_prefix() + name + named_suffix(),
            RegionView::Partial(number) => partial_begin_keyword() + seq![' '] + decimal(
                number as nat,
            ),
        }
    }

    /// The marker that closes the region.
    pub open spec fn end_marker(self) -> Seq<char> {
        match self {
            RegionView::Named(name) => named_end_prefix() + name + named_suffix(),
            RegionView::Partial(number) => partial_end_keyword() + seq![' '] + decimal(
                number as nat,
            ),
        }
    }

    /// How the region is written inside its markers: the name, or the number in decimal.
    pub open spec fn id_text(self) -> Seq<char> {
        match self {
            RegionView::Named(name) => name,
            RegionView::Partial(number) => decimal(number as nat),
        }
    }

    /// How a message calls the region: a named region by its name, a partial region
    /// as `partial section <number>`.
    pub open spec fn label(self) -> Seq<char> {
        match self {
            RegionView::Named(name) => name,
            RegionView::Partial(number) => "partial section "@ + decimal(number as nat),
        }
    }

    /// A region can be found again by its markers when its name is a word. Every
    /// partial region can.
    pub open spec fn is_markable(self) -> bool {
        match self {
            RegionView::Named(name) => is_word(name),
            RegionView::Partial(_) => true,
        }
    }
}

/// The name that a trimmed line carries between `prefix` and the closing ` */`, if it
/// has that shape and the name is a word.
pub open spec fn named_marker(trimmed: Seq<char>, prefix: Seq<char>) -> Option<Seq<char>> {
    let suffix = named_suffix();
    let name = trimmed.subrange(prefix.len() as int, trimmed.len() - suffix.len());
    if trimmed.len() > prefix.len() + suffix.len() && trimmed.take(prefix.len() as int) == prefix
        && trimmed.skip(trimmed.len() - suffix.len()) == suffix && is_word(name) {
        Some(name)
    } else {
        None
    }
}

/// The numeral that a trimmed line carries after `keyword` and at least one blank, if
/// it has that shape.
pub open spec fn partial_marker(trimmed: Seq<char>, keyword: Seq<char>) -> Option<Seq<char>> {
    let rest = trimmed.skip(keyword.len() as int);
    let numeral = trim_start(rest);
    if trimmed.len() > keyword.len() && trimmed.take(keyword.len() as int) == keyword
        && numeral.len() < rest.len() && is_numeral(numeral) {
        Some(numeral)
    } else {
        None
    }
}

/// The partial region that a numeral names, if its number fits in 32 bits.
pub open spec fn numbered(numeral: Seq<char>) -> Option<RegionView> {
    if numeral_value(numeral) <= u32::MAX {
        Some(RegionView::Partial(numeral_value(numeral) as u32))
    } else {
        None
    }
}

/// What a line says as a marker; `None` for every line that is no marker.
pub open spec fn marker_of(line: Seq<char>) -> Option<MarkerView> {
    let trimmed = trim(line);
    if let Some(numeral) = partial_marker(trimmed, partial_begin_keyword()) {
        Some(
            match numbered(numeral) {
                Some(region) => MarkerView::Begin(region),
                None => MarkerView::OutOfRange(numeral),
            },
        )
    } else if let Some(name) = named_marker(trimmed, named_begin_prefix()) {
        Some(MarkerView::Begin(RegionView::Named(name)))
    } else if let Some(numeral) = partial_marker(trimmed, partial_end_keyword()) {
        Some(
            match numbered(numeral) {
                Some(region) => MarkerView::End(region),
                None => MarkerView::OutOfRange(numeral),
            },
        )
    } else if let Some(name) = named_marker(trimmed, named_end_prefix()) {
        Some(MarkerView::End(RegionView::Named(name)))
    } else {
        None
    }
}

impl Region {
    /// The marker that opens the region.
    pub fn begin_marker(&self) -> (out: String)
        ensures
            out@ == self@.begin_marker(),
    {
        match self {
            Region::Named(name) => "/* USER CODE BEGIN ".to_owned().concat(name.as_str()).concat(
                " */",
            ),
            Region::Partial(number) => {
                let mut out = "//!begin".to_owned();
                out.push(' ');
                out.concat(decimal_text(*number as u64).as_str())
            },
        }
    }

    /// The marker that closes the region.
    pub fn end_marker(&self) -> (out: String)
        ensures
            out@ == self@.end_marker(),
    {
        match self {
            Region::Named(name) => "/* USER CODE END ".to_owned().concat(name.as_str()).concat(
                " */",
            ),
            Region::Partial(number) => {
                let mut out = "//!end".to_owned();
                out.push(' ');
                out.concat(decimal_text(*number as u64).as_str())
            },
        }
    }

    /// How the region is written inside its markers.
    pub fn id_text(&self) -> (out: String)
        ensures
            out@ == self@.id_text(),
    {
        match self {
            Region::Named(name) => name.clone(),
            Region::Partial(number) => decimal_text(*number as u64),
        }
    }

    /// How a message calls the region.
    pub fn label(&self) -> (out: String)
        ensures
            out@ == self@.label(),
    {
        match self {
            Region::Named(name) => name.clone(),
            Region::Partial(number) => "partial section ".to_owned().concat(
                decimal_text(*number as u64).as_str(),
            ),
        }
    }
}

fn blank(c: char) -> (r: bool)
    ensures
        r == is_blank(c),
{
    c == ' ' || c == '\t' || c == '\n' || c == '\r' || c == '\x0B' || c == '\x0C'
}

fn word_char(c: char) -> (r: bool)
    ensures
        r == is_word_char(c),
{
    ('a' <= c && c <= 'z') || ('A' <= c && c <= 'Z') || ('0' <= c && c <= '9') || c == '_'
}

/// Where the text `line[from..to]` starts once the blanks at its start are gone.
fn skip_blanks(line: &Vec<char>, from: usize, to: usize) -> (k: usize)
    requires
        from <= to <= line.len(),
    ensures
        from <= k <= to,
        trim_start(line@.subrange(from as int, to as int)) == line@.subrange(k as int, to as int),
{
    let mut k: usize = from;
    while k < to && blank(line[k])
        invariant
            from <= k <= to <= line.len(),
            trim_start(line@.subrange(from as int, to as int)) == trim_start(
                line@.subrange(k as int, to as int),
            ),
        decreases to - k,
    {
        assert(line@.subrange(k as int, to as int).skip(1) =~= line@.subrange(k + 1, to as int));
        k += 1;
    }
    k
}

/// Where the text `line[from..to]` ends once the blanks at its end are gone.
fn skip_blanks_back(line: &Vec<char>, from: usize, to: usize) -> (k: usize)
    requires
        from <= to <= line.len(),
    ensures
        from <= k <= to,
        trim_end(line@.subrange(from as int, to as int)) == line@.subrange(from as int, k as int),
{
    let mut k: usize = to;
    while k > from && blank(line[k - 1])
        invariant
            from <= k <= to <= line.len(),
            trim_end(line@.subrange(from as int, to as int)) == trim_end(
                line@.subrange(from as int, k as int),
            ),
        decreases k - from,
    {
        assert(line@.subrange(from as int, k as int).drop_last() =~= line@.subrange(
            from as int,
            k - 1,
        ));
        k -= 1;
    }
    k
}

/// Whether `line[from..to]` starts with `prefix`.
fn starts_with(line: &Vec<char>, from: usize, to: usize, prefix: &Vec<char>) -> (r: bool)
    requires
        from <= to <= line.len(),
    ensures
        r == (to - from >= prefix.len() && line@.subrange(from as int, to as int).take(
            prefix.len() as int,
        ) == prefix@),
{
    if to - from < prefix.len() {
        return false;
    }
    let ghost text = line@.subrange(from as int, to as int);
    let mut i: usize = 0;
    while i < prefix.len()
        invariant
            from <= to <= line.len(),
            to - from >= prefix.len(),
            i <= prefix.len(),
            text == line@.subrange(from as int, to as int),
            text.take(i as int) == prefix@.take(i as int),
        decreases prefix.len() - i,
    {
        if line[from + i] != prefix[i] {
            return false;
        }
        i += 1;
    }
    assert(prefix@.take(prefix.len() as int) =~= prefix@);
    true
}

/// Whether `line[from..to]` is a word.
fn word_at(line: &Vec<char>, from: usize, to: usize) -> (r: bool)
    requires
        from <= to <= line.len(),
    ensures
        r == is_word(line@.subrange(from as int, to as int)),
{
    if from == to {
        return false;
    }
    let ghost text = line@.subrange(from as int, to as int);
    let mut i: usize = from;
    while i < to
        invariant
            from <= i <= to <= line.len(),
            text == line@.subrange(from as int, to as int),
            forall|j: int| 0 <= j < i - from ==> is_word_char(#[trigger] text[j]),
        decreases to - i,
    {
        if !word_char(line[i]) {
            assert(!is_word_char(text[i - from]));
            return false;
        }
        i += 1;
    }
    true
}

/// The number that the numeral `line[from..to]` writes, if the text is a numeral;
/// `Some(None)` where the number does not fit in 32 bits.
fn numeral_at(line: &Vec<char>, from: usize, to: usize) -> (r: Option<Option<u32>>)
    requires
        from <= to <= line.len(),
    ensures
        r is Some == is_numeral(line@.subrange(from as int, to as int)),
        r matches Some(number) ==> match number {
            Some(n) => numbered(line@.subrange(from as int, to as int)) == Some(
                RegionView::Partial(n),
            ),
            None => numbered(line@.subrange(from as int, to as int)) is None,
        },
{
    if from == to {
        return None;
    }
    let ghost text = line@.subrange(from as int, to as int);
    let mut value: u64 = 0;
    let mut fits = true;
    let mut i: usize = from;
    while i < to
        invariant
            from <= i <= to <= line.len(),
            text == line@.subrange(from as int, to as int),
            forall|j: int| 0 <= j < i - from ==> is_digit(#[trigger] text[j]),
            fits ==> value == numeral_value(text.take(i - from)) && value <= u32::MAX,
            !fits ==> numeral_value(text.take(i - from)) > u32::MAX,
        decreases to - i,
    {
        let c = line[i];
        if !('0' <= c && c <= '9') {
            assert(!is_digit(text[i - from]));
            return None;
        }
        let ghost longer = text.take(i - from + 1);
        assert(longer.drop_last() =~= text.take(i - from));
        if fits {
            let d: u64 = if c == '0' {
                0
            } else if c == '1' {
                1
            } else if c == '2' {
                2
            } else if c == '3' {
                3
            } else if c == '4' {
                4
            } else if c == '5' {
                5
            } else if c == '6' {
                6
            } else if c == '7' {
                7
            } else if c == '8' {
                8
            } else {
                9
            };
            value = value * 10 + d;
            if value > 0xffff_ffff {
                fits = false;
            }
        }
        i += 1;
    }
    assert(text.take(to - from) =~= text);
    if fits {
        Some(Some(value as u32))
    } else {
        Some(None)
    }
}

/// The texts that every marker is made of, once as characters, so that many lines
/// can be held against them.
pub struct MarkerSyntax {
    named_begin: Vec<char>,
    named_end: Vec<char>,
    named_close: Vec<char>,
    partial_begin: Vec<char>,
    partial_end: Vec<char>,
}

/// The texts that a [`MarkerSyntax`] holds lines against.
pub struct SyntaxView {
    /// What a named begin marker starts with.
    pub named_begin: Seq<char>,
    /// What a named end marker starts with.
    pub named_end: Seq<char>,
    /// What a named marker ends with.
    pub named_close: Seq<char>,
    /// What a partial begin marker starts with.
    pub partial_begin: Seq<char>,
    /// What a partial end marker starts with.
    pub partial_end: Seq<char>,
}

/// The texts that the markers of user regions are made of.
pub open spec fn marker_texts() -> SyntaxView {
    SyntaxView {
        named_begin: named_begin_prefix(),
        named_end: named_end_prefix(),
        named_close: named_suffix(),
        partial_begin: partial_begin_keyword(),
        partial_end: partial_end_keyword(),
    }
}

impl View for MarkerSyntax {
    type V = SyntaxView;

    closed spec fn view(&self) -> SyntaxView {
        SyntaxView {
            named_begin: self.named_begin@,
            named_end: self.named_end@,
            named_close: self.named_close@,
            partial_begin: self.partial_begin@,
            partial_end: self.partial_end@,
        }
    }
}

impl MarkerSyntax {
    #[verifier::type_invariant]
    spec fn well_formed(self) -> bool {
        self@ == marker_texts()
    }

    /// The syntax of the markers, ready to classify lines: it holds the texts that
    /// the markers of user regions are made of.
    pub fn new() -> (syntax: Self)
        ensures
            syntax@ == marker_texts(),
    {
        MarkerSyntax {
            named_begin: chars_of("/* USER CODE BEGIN "),
            named_end: chars_of("/* USER CODE END "),
            named_close: chars_of(" */"),
            partial_begin: chars_of("//!begin"),
            partial_end: chars_of("//!end"),
        }
    }

    /// The name of the named marker `line[from..to]` that starts with `prefix`.
    fn named_at(&self, line: &Vec<char>, from: usize, to: usize, prefix: &Vec<char>) -> (r: Option<
        String,
    >)
        requires
            from <= to <= line.len(),
        ensures
            match r {
                Some(name) => named_marker(line@.subrange(from as int, to as int), prefix@) == Some(
                    name@,
                ),
                None => named_marker(line@.subrange(from as int, to as int), prefix@) is None,
            },
    {
        proof {
            use_type_invariant(self);
        }
        let ghost text = line@.subrange(from as int, to as int);
        let close = self.named_close.len();
        if to - from < close || to - from - close < prefix.len() || to - from - close
            == prefix.len() {
            return None;
        }
        if !starts_with(line, from, to, prefix) {
            return None;
        }
        if !starts_with(line, to - close, to, &self.named_close) {
            assert(line@.subrange(to - close, to as int).take(close as int) =~= text.skip(
                text.len() - close,
            ));
            return None;
        }
        assert(line@.subrange(to - close, to as int).take(close as int) =~= text.skip(
            text.len() - close,
        ));
        let start = from + prefix.len();
        let end = to - close;
        assert(line@.subrange(start as int, end as int) =~= text.subrange(
            prefix.len() as int,
            text.len() - close,
        ));
        if !word_at(line, start, end) {
            return None;
        }
        let mut name = String::new();
        push_chars(&mut name, line, start, end);
        Some(name)
    }

    /// The numeral of the partial marker `line[from..to]` that starts with `keyword`,
    /// as the span of the line that holds it.
    fn partial_at(&self, line: &Vec<char>, from: usize, to: usize, keyword: &Vec<char>) -> (r:
        Option<(usize, Option<u32>)>)
        requires
            from <= to <= line.len(),
        ensures
            match r {
                Some((start, number)) => {
                    &&& from <= start <= to
                    &&& partial_marker(line@.subrange(from as int, to as int), keyword@) == Some(
                        line@.subrange(start as int, to as int),
                    )
                    &&& match number {
                        Some(n) => numbered(line@.subrange(start as int, to as int)) == Some(
                            RegionView::Partial(n),
                        ),
                        None => numbered(line@.subrange(start as int, to as int)) is None,
                    }
                },
                None => partial_marker(line@.subrange(from as int, to as int), keyword@) is None,
            },
    {
        let ghost text = line@.subrange(from as int, to as int);
        if to - from <= keyword.len() {
            return None;
        }
        if !starts_with(line, from, to, keyword) {
            return None;
        }
        let rest = from + keyword.len();
        assert(line@.subrange(rest as int, to as int) =~= text.skip(keyword.len() as int));
        let start = skip_blanks(line, rest, to);
        if start == rest {
            return None;
        }
        match numeral_at(line, start, to) {
            Some(number) => Some((start, number)),
            None => None,
        }
    }

    /// What the line says as a marker; `None` for every line that is no marker.
    pub fn classify(&self, line: &Vec<char>) -> (r: Option<Marker>)
        ensures
            marker_view(r) == marker_of(line@),
    {
        proof {
            use_type_invariant(self);
        }
        let first = skip_blanks(line, 0, line.len());
        let last = skip_blanks_back(line, first, line.len());
        assert(line@.subrange(0, line.len() as int) =~= line@);
        if let Some((start, number)) = self.partial_at(line, first, last, &self.partial_begin) {
            return Some(
                match number {
                    Some(n) => Marker::Begin(Region::Partial(n)),
                    None => {
                        let mut numeral = String::new();
                        push_chars(&mut numeral, line, start, last);
                        Marker::OutOfRange(numeral)
                    },
                },
            );
        }
        if let Some(name) = self.named_at(line, first, last, &self.named_begin) {
            return Some(Marker::Begin(Region::Named(name)));
        }
        if let Some((start, number)) = self.partial_at(line, first, last, &self.partial_end) {
            return Some(
                match number {
                    Some(n) => Marker::End(Region::Partial(n)),
                    None => {
                        let mut numeral = String::new();
                        push_chars(&mut numeral, line, start, last);
                        Marker::OutOfRange(numeral)
                    },
                },
            );
        }
        if let Some(name) = self.named_at(line, first, last, &self.named_end) {
            return Some(Marker::End(Region::Named(name)));
        }
        None
    }
}

/// What the line says as a marker; `None` for every line that is no marker.
pub fn classify_line(line: &str) -> (r: Option<Marker>)
    ensures
        marker_view(r) == marker_of(line@),
{
    let syntax = MarkerSyntax::new();
    let chars = chars_of(line);
    syntax.classify(&chars)
}

/// Blanks before a text that starts with none are all that `trim_start` takes away.
pub(crate) proof fn lemma_trim_start(indent: Seq<char>, text: Seq<char>)
    requires
        is_blank_text(indent),
        text.len() == 0 || !is_blank(text[0]),
    ensures
        trim_start(indent + text) == text,
    decreases indent.len(),
{
    if indent.len() > 0 {
        assert((indent + text).skip(1) =~= indent.skip(1) + text);
        lemma_trim_start(indent.skip(1), text);
    }
}

/// What `trim_start` takes away is a run of blanks at the start of the text.
pub(crate) proof fn lemma_trim_start_splits(text: Seq<char>) -> (blanks: Seq<char>)
    ensures
        is_blank_text(blanks),
        text == blanks + trim_start(text),
        trim_start(text).len() == 0 || !is_blank(trim_start(text)[0]),
    decreases text.len(),
{
    if text.len() > 0 && is_blank(text[0]) {
        let rest = lemma_trim_start_splits(text.skip(1));
        let blanks = seq![text[0]] + rest;
        assert(text =~= seq![text[0]] + text.skip(1));
        blanks
    } else {
        Seq::empty()
    }
}

/// A text that neither starts nor ends with a blank is what is left of it after any
/// indentation is trimmed away.
pub(crate) proof fn lemma_trim_indented(indent: Seq<char>, text: Seq<char>)
    requires
        is_blank_text(indent),
        text.len() > 0,
        !is_blank(text[0]),
        !is_blank(text.last()),
    ensures
        trim(indent + text) == text,
{
    lemma_trim_start(indent, text);
}

/// A trimmed line is a named marker with a given name exactly when the name is a
/// word and the line is the prefix, the name and the closing ` */`.
pub proof fn lemma_named_marker_shape(trimmed: Seq<char>, prefix: Seq<char>, name: Seq<char>)
    ensures
        named_marker(trimmed, prefix) == Some(name) <==> is_word(name) && trimmed == prefix + name
            + named_suffix(),
{
    let suffix = named_suffix();
    if is_word(name) && trimmed == prefix + name + suffix {
        assert(trimmed.take(prefix.len() as int) =~= prefix);
        assert(trimmed.skip(trimmed.len() - suffix.len()) =~= suffix);
        assert(trimmed.subrange(prefix.len() as int, trimmed.len() - suffix.len()) =~= name);
    }
    if named_marker(trimmed, prefix) == Some(name) {
        assert(trimmed =~= trimmed.take(prefix.len() as int) + trimmed.subrange(
            prefix.len() as int,
            trimmed.len() - suffix.len(),
        ) + trimmed.skip(trimmed.len() - suffix.len()));
    }
}

/// A trimmed line is a partial marker with a given numeral exactly when the line
/// is the keyword, at least one blank, and the numeral.
pub proof fn lemma_partial_marker_shape(trimmed: Seq<char>, keyword: Seq<char>, numeral: Seq<char>)
    ensures
        partial_marker(trimmed, keyword) == Some(numeral) <==> is_numeral(numeral) && exists|
            blanks: Seq<char>,
        |
            blanks.len() > 0 && is_blank_text(blanks) && trimmed == keyword + blanks + numeral,
{
    if is_numeral(numeral) && exists|blanks: Seq<char>|
        blanks.len() > 0 && is_blank_text(blanks) && trimmed == keyword + blanks + numeral {
        let blanks = choose|blanks: Seq<char>|
            blanks.len() > 0 && is_blank_text(blanks) && trimmed == keyword + blanks + numeral;
        assert(trimmed.take(keyword.len() as int) =~= keyword);
        assert(trimmed.skip(keyword.len() as int) =~= blanks + numeral);
        lemma_trim_start(blanks, numeral);
    }
    if partial_marker(trimmed, keyword) == Some(numeral) {
        let rest = trimmed.skip(keyword.len() as int);
        let blanks = lemma_trim_start_splits(rest);
        assert(trimmed =~= trimmed.take(keyword.len() as int) + rest);
        assert(trimmed =~= keyword + blanks + numeral);
    }
}

/// The begin marker of a region says so, whatever blanks stand before it.
pub proof fn lemma_begin_marker_recognized(region: RegionView, indent: Seq<char>)
    requires
        region.is_markable(),
        is_blank_text(indent),
    ensures
        marker_of(indent + region.begin_marker()) == Some(MarkerView::Begin(region)),
        !region.begin_marker().contains('\n'),
        region.begin_marker().len() > 0,
        region.begin_marker().last() != '\r',
{
    reveal_strlit("/* USER CODE BEGIN ");
    reveal_strlit(" */");
    reveal_strlit("//!begin");
    let text = region.begin_marker();
    match region {
        RegionView::Named(name) => {
            lemma_trim_indented(indent, text);
            assert(text.take(19) =~= named_begin_prefix());
            assert(text.skip(text.len() - 3) =~= named_suffix());
            assert(text.subrange(19, text.len() - 3) =~= name);
        },
        RegionView::Partial(number) => {
            let numeral = decimal(number as nat);
            lemma_decimal_is_numeral(number as nat);
            lemma_trim_indented(indent, text);
            assert(text.take(8) =~= partial_begin_keyword());
            assert(text.skip(8) =~= seq![' '] + numeral);
            lemma_trim_start(seq![' '], numeral);
        },
    }
}

/// The end marker of a region says so, whatever blanks stand before it.
pub proof fn lemma_end_marker_recognized(region: RegionView, indent: Seq<char>)
    requires
        region.is_markable(),
        is_blank_text(indent),
    ensures
        marker_of(indent + region.end_marker()) == Some(MarkerView::End(region)),
        !region.end_marker().contains('\n'),
        region.end_marker().len() > 0,
        region.end_marker().last() != '\r',
{
    reveal_strlit("/* USER CODE BEGIN ");
    reveal_strlit("/* USER CODE END ");
    reveal_strlit(" */");
    reveal_strlit("//!begin");
    reveal_strlit("//!end");
    let text = region.end_marker();
    match region {
        RegionView::Named(name) => {
            lemma_trim_indented(indent, text);
            assert(named_marker(text, named_begin_prefix()) is None) by {
                if text.len() > 22 && text.take(19) == named_begin_prefix() {
                    assert(text.take(19)[13] == named_begin_prefix()[13]);
                }
            }
            assert(text.take(17) =~= named_end_prefix());
            assert(text.skip(text.len() - 3) =~= named_suffix());
            assert(text.subrange(17, text.len() - 3) =~= name);
        },
        RegionView::Partial(number) => {
            let numeral = decimal(number as nat);
            lemma_decimal_is_numeral(number as nat);
            lemma_trim_indented(indent, text);
            assert(named_marker(text, named_begin_prefix()) is None) by {
                if text.len() > 22 && text.take(19) == named_begin_prefix() {
                    assert(text.take(19)[1] == named_begin_prefix()[1]);
                }
            }
            assert(text.take(6) =~= partial_end_keyword());
            assert(text.skip(6) =~= seq![' '] + numeral);
            lemma_trim_start(seq![' '], numeral);
        },
    }
}

} // verus!
