//! The capture scanner: one forward pass over the lines of a text that collects
//! what stands between the markers of each user region.
//!
//! At most one region is open at any line. A begin marker is accepted only while
//! none is open, an end marker only for the region that is open, and the text must
//! not end inside a region. The first violation ends the scan with an error; no
//! capture is handed out then.

use vstd::prelude::*;
use crate::error::{CodeGenError, ErrorView};
use crate::markers::{
    is_blank_text,
    lemma_begin_marker_recognized,
    lemma_end_marker_recognized,
    marker_of,
    marker_view,
    Marker,
    MarkerSyntax,
    MarkerView,
    Region,
    RegionView,
};
use crate::text::{
    chars_of,
    decimal,
    decimal_text,
    join_lines,
    lemma_join_lines_push,
    lines_of,
    push_chars,
    split_lines,
    texts,
};

verus! {

/// The text that stood between the markers of one region.
#[derive(Debug, Clone, PartialEq, Eq)]
pub struct Capture {
    pub region: Region,
    pub content: String,
}

/// A [`Capture`] with its texts as character sequences.
pub struct CaptureView {
    pub region: RegionView,
    pub content: Seq<char>,
}

impl View for Capture {
    type V = CaptureView;

    open spec fn view(&self) -> CaptureView {
        CaptureView { region: self.region@, content: self.content@ }
    }
}

/// The views of a sequence of captures.
pub open spec fn capture_views(captures: Seq<Capture>) -> Seq<CaptureView> {
    Seq::new(captures.len(), |i: int| captures[i]@)
}

/// The state of a scan between two lines.
pub struct ScanView {
    /// The region that is open, with the lines read since its begin marker.
    pub open: Option<(RegionView, Seq<char>)>,
    /// The regions that were closed so far, in the order of their end markers.
    pub captures: Seq<CaptureView>,
}

/// The message for an end marker that closes nothing.
pub open spec fn stray_end_message(region: RegionView, number: nat) -> Seq<char> {
    match region {
        RegionView::Named(name) => "Unexpected user section end at line "@ + decimal(number)
            + ": no matching begin for '"@ + name + "'"@,
        RegionView::Partial(id) => "Unexpected partial section end at line "@ + decimal(number)
            + ": no matching begin for '"@ + decimal(id as nat) + "'"@,
    }
}

/// The message for a partial marker whose number does not fit.
pub open spec fn out_of_range_message(numeral: Seq<char>, number: nat) -> Seq<char> {
    "Partial section number out of range at line "@ + decimal(number) + ": '"@ + numeral + "'"@
}

impl ScanView {
    /// Before the first line: nothing open, nothing captured.
    pub open spec fn initial() -> ScanView {
        ScanView { open: None, captures: Seq::empty() }
    }

    /// The state after the line `line`, which is line `number` of the text and says
    /// `marker`, or the error that the line causes.
    pub open spec fn step(self, marker: Option<MarkerView>, line: Seq<char>, number: nat) -> Result<
        ScanView,
        ErrorView,
    > {
        match marker {
            Some(MarkerView::Begin(region)) => match self.open {
                Some((open, _)) => Err(
                    ErrorView::NestedSection { line: number, section: open.label() },
                ),
                None => Ok(ScanView { open: Some((region, Seq::empty())), captures: self.captures }),
            },
            Some(MarkerView::End(region)) => match self.open {
                Some((open, content)) => if open == region {
                    Ok(
                        ScanView {
                            open: None,
                            captures: self.captures.push(CaptureView { region: open, content }),
                        },
                    )
                } else if (open is Named) == (region is Named) {
                    Err(
                        ErrorView::MismatchedSection {
                            line: number,
                            expected: open.id_text(),
                            found: region.id_text(),
                        },
                    )
                } else {
                    Err(ErrorView::InvalidSection(stray_end_message(region, number)))
                },
                None => Err(ErrorView::InvalidSection(stray_end_message(region, number))),
            },
            Some(MarkerView::OutOfRange(numeral)) => Err(
                ErrorView::InvalidSection(out_of_range_message(numeral, number)),
            ),
            None => match self.open {
                Some((open, content)) => Ok(
                    ScanView { open: Some((open, content + line.push('\n'))), captures: self.captures },
                ),
                None => Ok(self),
            },
        }
    }

    /// The state after the given lines, the first of which is line `first` of the text.
    pub open spec fn run(self, lines: Seq<Seq<char>>, first: nat) -> Result<ScanView, ErrorView>
        decreases lines.len(),
    {
        if lines.len() == 0 {
            Ok(self)
        } else {
            match self.step(marker_of(lines[0]), lines[0], first) {
                Ok(next) => next.run(lines.skip(1), first + 1),
                Err(e) => Err(e),
            }
        }
    }

    /// What the scan hands out at the end of the text.
    pub open spec fn finish(self) -> Result<Seq<CaptureView>, ErrorView> {
        match self.open {
            Some((open, _)) => Err(ErrorView::UnclosedSection(open.label())),
            None => Ok(self.captures),
        }
    }
}

/// The regions that a text holds, in the order in which they end.
pub open spec fn scan_text(content: Seq<char>) -> Result<Seq<CaptureView>, ErrorView> {
    match ScanView::initial().run(split_lines(content), 1) {
        Ok(state) => state.finish(),
        Err(e) => Err(e),
    }
}

/// The view of what a scan returns.
pub open spec fn scan_result_view(r: Result<Vec<Capture>, CodeGenError>) -> Result<
    Seq<CaptureView>,
    ErrorView,
> {
    match r {
        Ok(captures) => Ok(capture_views(captures@)),
        Err(e) => Err(e@),
    }
}

/// Lines are plain when none of them is a marker.
pub open spec fn plain_lines(lines: Seq<Seq<char>>) -> bool {
    forall|i: int| 0 <= i < lines.len() ==> marker_of(#[trigger] lines[i]) is None
}

impl ScanView {
    /// The state after plain lines: an open region has taken them in, and nothing
    /// else has changed.
    pub open spec fn after_plain(self, lines: Seq<Seq<char>>) -> ScanView {
        match self.open {
            Some((open, content)) => ScanView {
                open: Some((open, content + join_lines(lines))),
                captures: self.captures,
            },
            None => self,
        }
    }
}

/// A text is plain when it is made of plain lines, each followed by a newline.
pub open spec fn is_plain_text(text: Seq<char>) -> bool {
    exists|lines: Seq<Seq<char>>| plain_lines(lines) && text == join_lines(lines)
}

impl ScanView {
    /// Whether all that the scan has collected is plain text.
    pub open spec fn holds_plain_text(self) -> bool {
        &&& match self.open {
            Some((_, content)) => is_plain_text(content),
            None => true,
        }
        &&& forall|k: int|
            0 <= k < self.captures.len() ==> is_plain_text((#[trigger] self.captures[k]).content)
    }
}

/// A scan in progress.
pub struct Scanner {
    open: Option<Region>,
    buffer: String,
    captures: Vec<Capture>,
}

impl View for Scanner {
    type V = ScanView;

    closed spec fn view(&self) -> ScanView {
        ScanView {
            open: match self.open {
                Some(region) => Some((region@, self.buffer@)),
                None => None,
            },
            captures: capture_views(self.captures@),
        }
    }
}

/// The view of a scanner, or of the error that took its place.
pub open spec fn scanner_result_view(r: Result<Scanner, CodeGenError>) -> Result<
    ScanView,
    ErrorView,
> {
    match r {
        Ok(scanner) => Ok(scanner@),
        Err(e) => Err(e@),
    }
}

fn stray_end_error(region: &Region, number: usize) -> (e: CodeGenError)
    ensures
        e@ == ErrorView::InvalidSection(stray_end_message(region@, number as nat)),
{
    let line = decimal_text(number as u64);
    let start = match region {
        Region::Named(_) => "Unexpected user section end at line ",
        Region::Partial(_) => "Unexpected partial section end at line ",
    };
    CodeGenError::InvalidSection(
        start.to_owned().concat(line.as_str()).concat(": no matching begin for '").concat(
            region.id_text().as_str(),
        ).concat("'"),
    )
}

fn same_region(a: &Region, b: &Region) -> (r: bool)
    ensures
        r == (a@ == b@),
{
    match (a, b) {
        (Region::Named(x), Region::Named(y)) => *x == *y,
        (Region::Partial(x), Region::Partial(y)) => *x == *y,
        _ => false,
    }
}

impl Scanner {
    /// A scanner before the first line.
    pub fn new() -> (scanner: Scanner)
        ensures
            scanner@ == ScanView::initial(),
    {
        let scanner = Scanner { open: None, buffer: String::new(), captures: Vec::new() };
        assert(capture_views(scanner.captures@) =~= Seq::empty());
        scanner
    }

    /// Takes the line `line`, which is line `number` of the text and says `marker`.
    pub fn advance(self, marker: Option<Marker>, line: &Vec<char>, number: usize) -> (r: Result<
        Scanner,
        CodeGenError,
    >)
        ensures
            scanner_result_view(r) == self@.step(marker_view(marker), line@, number as nat),
    {
        let Scanner { open, buffer, captures } = self;
        match marker {
            Some(Marker::Begin(region)) => match open {
                Some(current) => Err(
                    CodeGenError::NestedSection { line: number, section: current.label() },
                ),
                None => Ok(Scanner { open: Some(region), buffer: String::new(), captures }),
            },
            Some(Marker::End(region)) => match open {
                Some(current) => {
                    if same_region(&current, &region) {
                        let ghost before = capture_views(captures@);
                        let mut captures = captures;
                        captures.push(Capture { region: current, content: buffer });
                        assert(capture_views(captures@) =~= before.push(captures@.last()@));
                        Ok(Scanner { open: None, buffer: String::new(), captures })
                    } else {
                        let alike = match (&current, &region) {
                            (Region::Named(_), Region::Named(_)) => true,
                            (Region::Partial(_), Region::Partial(_)) => true,
                            _ => false,
                        };
                        if alike {
                            Err(
                                CodeGenError::MismatchedSection {
                                    line: number,
                                    expected: current.id_text(),
                                    found: region.id_text(),
                                },
                            )
                        } else {
                            Err(stray_end_error(&region, number))
                        }
                    }
                },
                None => Err(stray_end_error(&region, number)),
            },
            Some(Marker::OutOfRange(numeral)) => {
                let line_text = decimal_text(number as u64);
                Err(
                    CodeGenError::InvalidSection(
                        "Partial section number out of range at line ".to_owned().concat(
                            line_text.as_str(),
                        ).concat(": '").concat(numeral.as_str()).concat("'"),
                    ),
                )
            },
            None => match open {
                Some(current) => {
                    let mut buffer = buffer;
                    push_chars(&mut buffer, line, 0, line.len());
                    buffer.push('\n');
                    assert(line@.subrange(0, line.len() as int) =~= line@);
                    Ok(Scanner { open: Some(current), buffer, captures })
                },
                None => Ok(Scanner { open: None, buffer, captures }),
            },
        }
    }

    /// Ends the scan: the captures, unless a region is still open.
    pub fn finish(self) -> (r: Result<Vec<Capture>, CodeGenError>)
        ensures
            scan_result_view(r) == self@.finish(),
    {
        match self.open {
            Some(region) => Err(CodeGenError::UnclosedSection(region.label())),
            None => Ok(self.captures),
        }
    }
}

/// Scans a text for user regions.
///
/// Returns what stood between the markers of each region, in the order in which the
/// regions end, or the error of the first line that breaks the rules.
pub fn scan(content: &str) -> (r: Result<Vec<Capture>, CodeGenError>)
    ensures
        scan_result_view(r) == scan_text(content@),
{
    let chars = chars_of(content);
    let lines = lines_of(&chars);
    let syntax = MarkerSyntax::new();
    let mut scanner = Scanner::new();
    let mut i: usize = 0;
    assert(texts(lines@).skip(0) =~= texts(lines@));
    while i < lines.len()
        invariant
            i <= lines.len(),
            texts(lines@) == split_lines(content@),
            ScanView::initial().run(split_lines(content@), 1) == scanner@.run(
                texts(lines@).skip(i as int),
                (i + 1) as nat,
            ),
        decreases lines.len() - i,
    {
        let ghost rest = texts(lines@).skip(i as int);
        assert(rest.skip(1) =~= texts(lines@).skip(i + 1));
        let marker = syntax.classify(&lines[i]);
        match scanner.advance(marker, &lines[i], i + 1) {
            Ok(next) => {
                scanner = next;
            },
            Err(e) => {
                return Err(e);
            },
        }
        i += 1;
    }
    scanner.finish()
}

/// Reading two runs of lines one after the other is reading them as one run.
pub proof fn lemma_run_append(state: ScanView, a: Seq<Seq<char>>, b: Seq<Seq<char>>, first: nat)
    ensures
        state.run(a + b, first) == (match state.run(a, first) {
            Ok(next) => next.run(b, first + a.len()),
            Err(e) => Err(e),
        }),
    decreases a.len(),
{
    if a.len() > 0 {
        assert((a + b).skip(1) =~= a.skip(1) + b);
        match state.step(marker_of(a[0]), a[0], first) {
            Ok(next) => {
                lemma_run_append(next, a.skip(1), b, first + 1);
            },
            Err(_) => {},
        }
    }
}

/// Plain lines never fail a scan: an open region takes them in, and outside a region
/// they leave no trace.
pub proof fn lemma_run_plain(state: ScanView, lines: Seq<Seq<char>>, first: nat)
    requires
        plain_lines(lines),
    ensures
        state.run(lines, first) == Ok::<ScanView, ErrorView>(state.after_plain(lines)),
    decreases lines.len(),
{
    if lines.len() > 0 {
        let next = state.step(None, lines[0], first)->Ok_0;
        lemma_run_plain(next, lines.skip(1), first + 1);
        if let Some((open, content)) = state.open {
            assert(content + lines[0].push('\n') + join_lines(lines.skip(1)) =~= content
                + join_lines(lines));
        }
    }
}

/// A region between its markers is captured with the plain lines that stand between
/// them, whatever blanks stand before the markers.
pub proof fn lemma_run_region(
    state: ScanView,
    region: RegionView,
    begin_indent: Seq<char>,
    body: Seq<Seq<char>>,
    end_indent: Seq<char>,
    first: nat,
)
    requires
        state.open is None,
        region.is_markable(),
        is_blank_text(begin_indent),
        is_blank_text(end_indent),
        plain_lines(body),
    ensures
        state.run(
            seq![begin_indent + region.begin_marker()] + body + seq![
                end_indent + region.end_marker(),
            ],
            first,
        ) == Ok::<ScanView, ErrorView>(
            ScanView {
                open: None,
                captures: state.captures.push(
                    CaptureView { region, content: join_lines(body) },
                ),
            },
        ),
{
    let begin = seq![begin_indent + region.begin_marker()];
    let end = seq![end_indent + region.end_marker()];
    lemma_begin_marker_recognized(region, begin_indent);
    lemma_end_marker_recognized(region, end_indent);
    let opened = ScanView { open: Some((region, Seq::empty())), captures: state.captures };
    assert(state.run(begin, first) == Ok::<ScanView, ErrorView>(opened)) by {
        assert(opened.run(begin.skip(1), first + 1) == Ok::<ScanView, ErrorView>(opened));
    }
    lemma_run_plain(opened, body, first + 1);
    let filled = opened.after_plain(body);
    let closed = ScanView {
        open: None,
        captures: state.captures.push(CaptureView { region, content: join_lines(body) }),
    };
    assert(filled.run(end, first + 1 + body.len()) == Ok::<ScanView, ErrorView>(closed)) by {
        assert(closed.run(end.skip(1), first + 1 + body.len() + 1) == Ok::<ScanView, ErrorView>(
            closed,
        ));
    }
    lemma_run_append(state, begin, body, first);
    lemma_run_append(state, begin + body, end, first);
}

/// A scan that has collected plain text so far collects plain text from the lines
/// that follow: no marker line ever gets into the content of a region.
pub proof fn lemma_run_holds_plain_text(state: ScanView, lines: Seq<Seq<char>>, first: nat)
    requires
        state.holds_plain_text(),
    ensures
        match state.run(lines, first) {
            Ok(after) => after.holds_plain_text(),
            Err(_) => true,
        },
    decreases lines.len(),
{
    if lines.len() > 0 {
        match state.step(marker_of(lines[0]), lines[0], first) {
            Ok(next) => {
                assert(next.holds_plain_text()) by {
                    match (marker_of(lines[0]), state.open) {
                        (Some(MarkerView::Begin(_)), _) => {
                            assert(plain_lines(Seq::<Seq<char>>::empty()));
                        },
                        (None, Some((_, content))) => {
                            let before = choose|before: Seq<Seq<char>>|
                                plain_lines(before) && content == join_lines(before);
                            lemma_join_lines_push(before, lines[0]);
                        },
                        _ => {},
                    }
                }
                lemma_run_holds_plain_text(next, lines.skip(1), first + 1);
            },
            Err(_) => {},
        }
    }
}

/// What a scan captures of a region is plain text: the content of a region holds
/// no marker line, neither of its own kind nor of the other.
pub proof fn lemma_captures_are_plain(content: Seq<char>)
    ensures
        match scan_text(content) {
            Ok(captures) => forall|k: int|
                0 <= k < captures.len() ==> is_plain_text((#[trigger] captures[k]).content),
            Err(_) => true,
        },
{
    lemma_run_holds_plain_text(ScanView::initial(), split_lines(content), 1);
}

} // verus!
