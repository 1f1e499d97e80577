//! What holds across the functions of the library: a section is written once per
//! pass, what was captured is what is written, and an output that is scanned and
//! written again is the same output.

use vstd::prelude::*;
use crate::code_writer::{indented, rendered, WriterView};
use crate::error::ErrorView;
use crate::markers::{
    is_blank_text,
    is_word,
    lemma_begin_marker_recognized,
    lemma_end_marker_recognized,
    RegionView,
};
use crate::scanner::{
    lemma_run_append,
    lemma_run_plain,
    lemma_run_region,
    plain_lines,
    CaptureView,
    ScanView,
};
use crate::text::{
    is_spaces,
    join_lines,
    lemma_lines_after_unterminated,
    lemma_repeat_spaces,
    lemma_single_line,
    lemma_split_lines_append,
    split_lines,
    whole_lines,
    with_final_newline,
};
use crate::user_section::{framed, ManagerView};

verus! {

/// A section that was written in this pass is not written again: the second call
/// changes neither the output nor the manager.
pub proof fn lemma_section_is_written_once(
    manager: ManagerView,
    writer: WriterView,
    name: Seq<char>,
    first_describes: bool,
    second_describes: bool,
)
    ensures
        match manager.write_named(writer, name, first_describes) {
            Ok((m, w)) => m.write_named(w, name, second_describes) == Ok::<
                (ManagerView, WriterView),
                ErrorView,
            >((m, w)),
            Err(_) => true,
        },
{
}

/// What the manager holds of a region: what was captured of it, if anything.
pub open spec fn stored(manager: ManagerView, region: RegionView) -> Option<Seq<char>> {
    match region {
        RegionView::Named(name) => if manager.captured.contains_key(name) {
            Some(manager.captured[name])
        } else {
            None
        },
        RegionView::Partial(number) => manager.resolve_partial(number),
    }
}

/// Captures change neither the definitions nor the set of written sections.
pub(crate) proof fn lemma_absorb_keeps(manager: ManagerView, captures: Seq<CaptureView>)
    ensures
        manager.absorb(captures).sections == manager.sections,
        manager.absorb(captures).section_order == manager.section_order,
        manager.absorb(captures).written == manager.written,
    decreases captures.len(),
{
    if captures.len() > 0 {
        lemma_absorb_keeps(manager, captures.drop_last());
    }
}

/// Captures of other regions leave what the manager holds of a region as it is.
proof fn lemma_absorb_untouched(
    manager: ManagerView,
    captures: Seq<CaptureView>,
    region: RegionView,
)
    requires
        forall|i: int| 0 <= i < captures.len() ==> (#[trigger] captures[i]).region != region,
    ensures
        stored(manager.absorb(captures), region) == stored(manager, region),
        manager.absorb(captures).sections == manager.sections,
        manager.absorb(captures).written == manager.written,
    decreases captures.len(),
{
    if captures.len() > 0 {
        lemma_absorb_untouched(manager, captures.drop_last(), region);
    }
}

/// Of each region the manager holds what was captured of it last.
pub proof fn lemma_last_capture_is_stored(
    manager: ManagerView,
    captures: Seq<CaptureView>,
    last: int,
)
    requires
        0 <= last < captures.len(),
        forall|i: int| last < i < captures.len() ==> (#[trigger] captures[i]).region != captures[last].region,
    ensures
        stored(manager.absorb(captures), captures[last].region) == Some(captures[last].content),
    decreases captures.len(),
{
    if last < captures.len() - 1 {
        lemma_last_capture_is_stored(manager, captures.drop_last(), last);
    }
}

/// What the description of a section adds to the output.
pub open spec fn description_text(
    manager: ManagerView,
    writer: WriterView,
    name: Seq<char>,
    describe: bool,
) -> Seq<char> {
    match manager.sections[name].description {
        Some(description) if describe => rendered(
            "/* "@ + description + " */"@,
            writer.indent(),
            true,
        ),
        _ => Seq::empty(),
    }
}

/// A section that a manager holds a capture of is written with that capture, ended
/// by a newline if it had none, between its markers.
pub proof fn lemma_captured_section_is_written(
    manager: ManagerView,
    writer: WriterView,
    name: Seq<char>,
    describe: bool,
)
    requires
        manager.sections.contains_key(name),
        manager.captured.contains_key(name),
        !manager.written.contains(name),
    ensures
        manager.write_named(writer, name, describe) is Ok,
        manager.write_named(writer, name, describe)->Ok_0.1 == framed(
            writer.append(description_text(manager, writer, name, describe)),
            RegionView::Named(name),
            with_final_newline(manager.captured[name]),
        ).append(seq!['\n']),
{
    assert(writer.append(Seq::empty()) =~= writer);
}

/// A section that a manager holds no capture of is written with its default
/// content, ended by a newline if it had none, between its markers; a section
/// without default content is written with an empty line between them.
pub proof fn lemma_default_is_written(
    manager: ManagerView,
    writer: WriterView,
    name: Seq<char>,
    describe: bool,
)
    requires
        manager.sections.contains_key(name),
        !manager.captured.contains_key(name),
        !manager.written.contains(name),
    ensures
        manager.write_named(writer, name, describe) is Ok,
        manager.write_named(writer, name, describe)->Ok_0.1 == framed(
            writer.append(description_text(manager, writer, name, describe)),
            RegionView::Named(name),
            match manager.sections[name].default_content {
                Some(content) => with_final_newline(content),
                None => seq!['\n'],
            },
        ).append(seq!['\n']),
{
    assert(writer.append(Seq::empty()) =~= writer);
}

/// A partial section that a manager holds a capture of is written with that
/// capture, ended by a newline if it had none, between its markers, whatever
/// default comes with the call.
pub proof fn lemma_captured_partial_is_written(
    manager: ManagerView,
    writer: WriterView,
    number: u32,
    default_content: Option<Seq<char>>,
)
    requires
        manager.partials.contains_key(number),
    ensures
        manager.write_partial_section(writer, number, default_content) == framed(
            writer,
            RegionView::Partial(number),
            with_final_newline(manager.partials[number]),
        ),
{
}

/// One step of a generator's template.
pub enum Piece {
    /// Text that the generator writes itself, as it reaches the output.
    Text(Seq<char>),
    /// A change of the indentation.
    Layout { indent_level: nat, indent_size: nat },
    /// A named section, with or without its description.
    Section { name: Seq<char>, describe: bool },
    /// A partial section with the default that comes with the call.
    Partial { number: u32, default_content: Seq<char> },
}

/// The manager and the writer after one piece of a template.
pub open spec fn emit(manager: ManagerView, writer: WriterView, piece: Piece) -> Result<
    (ManagerView, WriterView),
    ErrorView,
> {
    match piece {
        Piece::Text(text) => Ok((manager, writer.append(text))),
        Piece::Layout { indent_level, indent_size } => Ok(
            (manager, WriterView { indent_level, indent_size, ..writer }),
        ),
        Piece::Section { name, describe } => manager.write_named(writer, name, describe),
        Piece::Partial { number, default_content } => Ok(
            (manager, manager.write_partial_section(writer, number, Some(default_content))),
        ),
    }
}

/// The manager and the writer after the pieces of a template, one after the other.
pub open spec fn emit_all(manager: ManagerView, writer: WriterView, pieces: Seq<Piece>) -> Result<
    (ManagerView, WriterView),
    ErrorView,
>
    decreases pieces.len(),
{
    if pieces.len() == 0 {
        Ok((manager, writer))
    } else {
        match emit_all(manager, writer, pieces.drop_last()) {
            Ok((m, w)) => emit(m, w, pieces.last()),
            Err(e) => Err(e),
        }
    }
}

/// A text comes back from a scan as the content of a region when it is made of
/// whole plain lines, none of which ends with a carriage return.
pub open spec fn capturable(text: Seq<char>) -> bool {
    &&& whole_lines(text)
    &&& plain_lines(split_lines(text))
    &&& join_lines(split_lines(text)) == text
}

/// Whether a scan can find again what a piece writes, and nothing more.
///
/// Text of the generator must be whole plain lines. A section must have a word as
/// its name, capturable content and a description whose comment is plain; one that
/// is not written makes no demand. A partial section must have capturable content.
pub open spec fn fits(manager: ManagerView, writer: WriterView, piece: Piece) -> bool {
    match piece {
        Piece::Text(text) => whole_lines(text) && plain_lines(split_lines(text)),
        Piece::Layout { .. } => true,
        Piece::Section { name, describe } => manager.sections.contains_key(name)
            && !manager.written.contains(name) ==> {
            &&& is_word(name)
            &&& capturable(with_final_newline(manager.content(name)))
            &&& plain_lines(split_lines(description_text(manager, writer, name, describe)))
        },
        Piece::Partial { number, default_content } => capturable(
            manager.partial_body(number, Some(default_content)),
        ),
    }
}

/// Whether each piece fits where it stands in the template.
pub open spec fn fits_all(manager: ManagerView, writer: WriterView, pieces: Seq<Piece>) -> bool
    decreases pieces.len(),
{
    if pieces.len() == 0 {
        true
    } else {
        &&& fits_all(manager, writer, pieces.drop_last())
        &&& match emit_all(manager, writer, pieces.drop_last()) {
            Ok((m, w)) => fits(m, w, pieces.last()),
            Err(_) => true,
        }
    }
}

/// Whether partial sections of one number come with one default.
pub open spec fn one_default_per_number(pieces: Seq<Piece>) -> bool {
    forall|i: int, j: int|
        0 <= i < pieces.len() && 0 <= j < pieces.len() ==> match (
            #[trigger] pieces[i],
            #[trigger] pieces[j],
        ) {
            (
                Piece::Partial { number: n1, default_content: d1 },
                Piece::Partial { number: n2, default_content: d2 },
            ) => n1 == n2 ==> d1 == d2,
            _ => true,
        }
}

/// A region between its markers, as text: the markers behind `indent`, each on a
/// line of its own, and the body between them.
pub open spec fn frame_text(indent: Seq<char>, region: RegionView, body: Seq<char>) -> Seq<char> {
    (indent + region.begin_marker()).push('\n') + body + (indent + region.end_marker()).push('\n')
}

/// What a piece adds to the output.
pub open spec fn piece_text(manager: ManagerView, writer: WriterView, piece: Piece) -> Seq<char> {
    match piece {
        Piece::Text(text) => text,
        Piece::Layout { .. } => Seq::empty(),
        Piece::Section { name, describe } => if manager.written.contains(name) {
            Seq::empty()
        } else {
            description_text(manager, writer, name, describe) + frame_text(
                writer.indent(),
                RegionView::Named(name),
                with_final_newline(manager.content(name)),
            ) + seq!['\n']
        },
        Piece::Partial { number, default_content } => frame_text(
            writer.indent(),
            RegionView::Partial(number),
            manager.partial_body(number, Some(default_content)),
        ),
    }
}

/// What a scan captures of what a piece writes.
pub open spec fn piece_captures(manager: ManagerView, piece: Piece) -> Seq<CaptureView> {
    match piece {
        Piece::Section { name, describe } => if manager.written.contains(name) {
            Seq::empty()
        } else {
            seq![
                CaptureView {
                    region: RegionView::Named(name),
                    content: with_final_newline(manager.content(name)),
                },
            ]
        },
        Piece::Partial { number, default_content } => seq![
            CaptureView {
                region: RegionView::Partial(number),
                content: manager.partial_body(number, Some(default_content)),
            },
        ],
        _ => Seq::empty(),
    }
}

/// What a scan captures of what the pieces write.
pub open spec fn captures_of(manager: ManagerView, writer: WriterView, pieces: Seq<Piece>) -> Seq<
    CaptureView,
>
    decreases pieces.len(),
{
    if pieces.len() == 0 {
        Seq::empty()
    } else {
        captures_of(manager, writer, pieces.drop_last()) + (match emit_all(
            manager,
            writer,
            pieces.drop_last(),
        ) {
            Ok((m, w)) => piece_captures(m, pieces.last()),
            Err(_) => Seq::empty(),
        })
    }
}

/// The region that a piece writes, if it writes one.
pub open spec fn piece_region(piece: Piece) -> Option<RegionView> {
    match piece {
        Piece::Section { name, describe } => Some(RegionView::Named(name)),
        Piece::Partial { number, default_content } => Some(RegionView::Partial(number)),
        _ => None,
    }
}

/// What a piece writes between the markers of its region.
pub open spec fn piece_body(manager: ManagerView, piece: Piece) -> Seq<char> {
    match piece {
        Piece::Section { name, describe } => with_final_newline(manager.content(name)),
        Piece::Partial { number, default_content } => manager.partial_body(
            number,
            Some(default_content),
        ),
        _ => Seq::empty(),
    }
}

/// The manager with what another has captured in the place of what it captured
/// itself.
pub open spec fn with_captures_of(manager: ManagerView, other: ManagerView) -> ManagerView {
    ManagerView {
        captured: other.captured,
        partials: other.partials,
        capture_order: other.capture_order,
        ..manager
    }
}

/// Whether a manager writes a piece with the same body as another does.
pub open spec fn same_body(manager: ManagerView, other: ManagerView, piece: Piece) -> bool {
    piece_body(manager, piece) == piece_body(other, piece)
}

/// The indentation of a writer is made of spaces.
proof fn lemma_indent_is_spaces(writer: WriterView)
    ensures
        is_spaces(writer.indent()),
        is_blank_text(writer.indent()),
        !writer.indent().contains('\n'),
{
    reveal_strlit(" ");
    lemma_repeat_spaces(" "@, writer.indent_size);
    lemma_repeat_spaces(crate::text::repeat(" "@, writer.indent_size), writer.indent_level);
}

/// A line that is written with `writeln` reaches the output behind the indentation
/// and before a newline.
proof fn lemma_rendered_line(text: Seq<char>, indent: Seq<char>)
    requires
        text.len() > 0,
        !text.contains('\n'),
    ensures
        rendered(text, indent, true) == (indent + text).push('\n'),
{
    lemma_lines_after_unterminated(text, Seq::empty());
    let lines = split_lines(text);
    assert(indented(lines.drop_last(), indent) =~= Seq::<char>::empty());
}

/// What `framed` adds to the output is the frame as text.
proof fn lemma_framed(writer: WriterView, region: RegionView, body: Seq<char>)
    requires
        region.is_markable(),
    ensures
        framed(writer, region, body) == writer.append(frame_text(writer.indent(), region, body)),
{
    lemma_begin_marker_recognized(region, Seq::empty());
    lemma_end_marker_recognized(region, Seq::empty());
    lemma_rendered_line(region.begin_marker(), writer.indent());
    lemma_rendered_line(region.end_marker(), writer.indent());
    assert(framed(writer, region, body).output =~= writer.output + frame_text(
        writer.indent(),
        region,
        body,
    ));
}

/// A frame of capturable text is whole lines, and a scan that has no region open
/// captures the body and has no region open after it.
proof fn lemma_frame_scans(
    state: ScanView,
    indent: Seq<char>,
    region: RegionView,
    body: Seq<char>,
    first: nat,
)
    requires
        state.open is None,
        region.is_markable(),
        is_spaces(indent),
        capturable(body),
    ensures
        whole_lines(frame_text(indent, region, body)),
        state.run(split_lines(frame_text(indent, region, body)), first) == Ok::<
            ScanView,
            ErrorView,
        >(
            ScanView {
                open: None,
                captures: state.captures.push(CaptureView { region, content: body }),
            },
        ),
{
    lemma_begin_marker_recognized(region, indent);
    lemma_end_marker_recognized(region, indent);
    let begin = indent + region.begin_marker();
    let end = indent + region.end_marker();
    lemma_single_line(begin);
    lemma_single_line(end);
    let first_line = begin.push('\n');
    let last_line = end.push('\n');
    lemma_split_lines_append(first_line, body);
    lemma_split_lines_append(first_line + body, last_line);
    lemma_run_region(state, region, indent, split_lines(body), indent, first);
}

/// The manager keeps its definitions and what it captured while pieces are
/// written: only the set of written sections grows.
proof fn lemma_emit_keeps(manager: ManagerView, writer: WriterView, pieces: Seq<Piece>)
    ensures
        match emit_all(manager, writer, pieces) {
            Ok((m, w)) => m == (ManagerView { written: m.written, ..manager }),
            Err(_) => true,
        },
    decreases pieces.len(),
{
    if pieces.len() > 0 {
        lemma_emit_keeps(manager, writer, pieces.drop_last());
    }
}

/// What one fitting piece writes is whole lines, and a scan that has no region open
/// captures of it what `piece_captures` says.
proof fn lemma_piece_scans(
    manager: ManagerView,
    writer: WriterView,
    piece: Piece,
    state: ScanView,
    first: nat,
)
    requires
        fits(manager, writer, piece),
        emit(manager, writer, piece) is Ok,
        state.open is None,
    ensures
        ({
            let (m, w) = emit(manager, writer, piece)->Ok_0;
            let text = piece_text(manager, writer, piece);
            &&& w.output == writer.output + text
            &&& whole_lines(text)
            &&& state.run(split_lines(text), first) == Ok::<ScanView, ErrorView>(
                ScanView {
                    open: None,
                    captures: state.captures + piece_captures(manager, piece),
                },
            )
        }),
{
    let (m, w) = emit(manager, writer, piece)->Ok_0;
    let text = piece_text(manager, writer, piece);
    lemma_indent_is_spaces(writer);
    match piece {
        Piece::Text(t) => {
            lemma_run_plain(state, split_lines(t), first);
        },
        Piece::Layout { .. } => {},
        Piece::Section { name, describe } => {
            if !manager.written.contains(name) {
                let region = RegionView::Named(name);
                let body = with_final_newline(manager.content(name));
                let comment = description_text(manager, writer, name, describe);
                let described = writer.append(comment);
                lemma_framed(described, region, body);
                let frame = frame_text(writer.indent(), region, body);
                let blank = seq!['\n'];
                assert(whole_lines(comment)) by {
                    reveal_strlit(" */");
                }
                lemma_run_plain(state, split_lines(comment), first);
                lemma_split_lines_append(comment, frame);
                lemma_frame_scans(
                    state,
                    writer.indent(),
                    region,
                    body,
                    first + split_lines(comment).len(),
                );
                lemma_run_append(state, split_lines(comment), split_lines(frame), first);
                lemma_split_lines_append(comment + frame, blank);
                lemma_single_line(Seq::<char>::empty());
                let closed = ScanView {
                    open: None,
                    captures: state.captures.push(CaptureView { region, content: body }),
                };
                lemma_run_plain(
                    closed,
                    split_lines(blank),
                    first + split_lines(comment + frame).len(),
                );
                lemma_run_append(state, split_lines(comment + frame), split_lines(blank), first);
                assert(state.captures.push(CaptureView { region, content: body })
                    =~= state.captures + piece_captures(manager, piece));
            }
        },
        Piece::Partial { number, default_content } => {
            let region = RegionView::Partial(number);
            let body = manager.partial_body(number, Some(default_content));
            lemma_framed(writer, region, body);
            lemma_frame_scans(state, writer.indent(), region, body, first);
            assert(state.captures.push(CaptureView { region, content: body }) =~= state.captures
                + piece_captures(manager, piece));
        },
    }
}

/// What fitting pieces write from an empty output is whole lines that a scan reads
/// to their end without a region left open, and the scan captures of them what
/// `captures_of` says.
pub proof fn lemma_output_scans(manager: ManagerView, writer: WriterView, pieces: Seq<Piece>)
    requires
        writer.output.len() == 0,
        fits_all(manager, writer, pieces),
        emit_all(manager, writer, pieces) is Ok,
    ensures
        ({
            let (m, w) = emit_all(manager, writer, pieces)->Ok_0;
            &&& whole_lines(w.output)
            &&& ScanView::initial().run(split_lines(w.output), 1) == Ok::<ScanView, ErrorView>(
                ScanView { open: None, captures: captures_of(manager, writer, pieces) },
            )
        }),
    decreases pieces.len(),
{
    if pieces.len() > 0 {
        let before = pieces.drop_last();
        lemma_output_scans(manager, writer, before);
        let (m, w) = emit_all(manager, writer, before)->Ok_0;
        let state = ScanView { open: None, captures: captures_of(manager, writer, before) };
        let first = (1 + split_lines(w.output).len()) as nat;
        lemma_piece_scans(m, w, pieces.last(), state, first);
        let text = piece_text(m, w, pieces.last());
        lemma_split_lines_append(w.output, text);
        lemma_run_append(ScanView::initial(), split_lines(w.output), split_lines(text), 1);
    }
}

/// Every capture of what the pieces write is the region and the body of one of the
/// pieces.
proof fn lemma_captures_come_from_pieces(
    manager: ManagerView,
    writer: WriterView,
    pieces: Seq<Piece>,
)
    ensures
        forall|k: int|
            0 <= k < captures_of(manager, writer, pieces).len() ==> exists|j: int|
                {
                    &&& 0 <= j < pieces.len()
                    &&& piece_region(pieces[j]) == Some(
                        (#[trigger] captures_of(manager, writer, pieces)[k]).region,
                    )
                    &&& piece_body(manager, pieces[j]) == captures_of(
                        manager,
                        writer,
                        pieces,
                    )[k].content
                },
    decreases pieces.len(),
{
    if pieces.len() > 0 {
        let before = pieces.drop_last();
        lemma_captures_come_from_pieces(manager, writer, before);
        lemma_emit_keeps(manager, writer, before);
        let all = captures_of(manager, writer, pieces);
        let earlier = captures_of(manager, writer, before);
        assert forall|k: int| 0 <= k < all.len() implies exists|j: int|
            {
                &&& 0 <= j < pieces.len()
                &&& piece_region(pieces[j]) == Some((#[trigger] all[k]).region)
                &&& piece_body(manager, pieces[j]) == all[k].content
            } by {
            if k < earlier.len() {
                let j = choose|j: int|
                    {
                        &&& 0 <= j < before.len()
                        &&& piece_region(before[j]) == Some(earlier[k].region)
                        &&& piece_body(manager, before[j]) == earlier[k].content
                    };
                assert(pieces[j] == before[j]);
            } else {
                assert(pieces[pieces.len() - 1] == pieces.last());
            }
        }
    }
}

/// Among the captures of a region there is a last one.
proof fn lemma_last_exists(captures: Seq<CaptureView>, region: RegionView)
    requires
        exists|k: int| 0 <= k < captures.len() && (#[trigger] captures[k]).region == region,
    ensures
        exists|k: int|
            0 <= k < captures.len() && (#[trigger] captures[k]).region == region && forall|i: int|
                k < i < captures.len() ==> (#[trigger] captures[i]).region != region,
    decreases captures.len(),
{
    let end = captures.len() - 1;
    if captures[end].region != region {
        let before = captures.drop_last();
        let k0 = choose|k: int| 0 <= k < captures.len() && (#[trigger] captures[k]).region == region;
        assert(before[k0] == captures[k0]);
        lemma_last_exists(before, region);
        let k = choose|k: int|
            0 <= k < before.len() && (#[trigger] before[k]).region == region && forall|i: int|
                k < i < before.len() ==> (#[trigger] before[i]).region != region;
        assert forall|i: int| k < i < captures.len() implies (#[trigger] captures[i]).region
            != region by {
            if i < before.len() {
                assert(before[i] == captures[i]);
            }
        }
    }
}

/// After the output of the pieces was captured, the manager writes each piece with
/// the body that it had in the output.
proof fn lemma_bodies_come_back(
    manager: ManagerView,
    writer: WriterView,
    pieces: Seq<Piece>,
    j: int,
)
    requires
        one_default_per_number(pieces),
        0 <= j < pieces.len(),
    ensures
        same_body(manager.absorb(captures_of(manager, writer, pieces)), manager, pieces[j]),
{
    let captures = captures_of(manager, writer, pieces);
    match piece_region(pieces[j]) {
        Some(region) => {
            if exists|k: int| 0 <= k < captures.len() && (#[trigger] captures[k]).region == region {
                let last = choose|k: int|
                    0 <= k < captures.len() && (#[trigger] captures[k]).region == region && forall|
                        i: int,
                    |
                        k < i < captures.len() ==> (#[trigger] captures[i]).region != region;
                lemma_last_exists(captures, region);
                lemma_last_capture_is_stored(manager, captures, last);
                lemma_captures_come_from_pieces(manager, writer, pieces);
                let source = choose|i: int|
                    {
                        &&& 0 <= i < pieces.len()
                        &&& piece_region(pieces[i]) == Some(captures[last].region)
                        &&& piece_body(manager, pieces[i]) == captures[last].content
                    };
                assert(piece_body(manager, pieces[source]) == piece_body(manager, pieces[j]));
            } else {
                lemma_absorb_untouched(manager, captures, region);
            }
        },
        None => {},
    }
}

/// A manager that differs from another only in what it captured, and that writes
/// each piece with the same body, writes the same output.
proof fn lemma_same_bodies_same_output(
    manager: ManagerView,
    other: ManagerView,
    writer: WriterView,
    pieces: Seq<Piece>,
)
    requires
        other == with_captures_of(manager, other),
        forall|j: int| 0 <= j < pieces.len() ==> same_body(other, manager, #[trigger] pieces[j]),
    ensures
        match emit_all(manager, writer, pieces) {
            Ok((m, w)) => emit_all(other, writer, pieces) == Ok::<
                (ManagerView, WriterView),
                ErrorView,
            >((with_captures_of(m, other), w)),
            Err(e) => emit_all(other, writer, pieces) == Err::<(ManagerView, WriterView), ErrorView>(
                e,
            ),
        },
    decreases pieces.len(),
{
    if pieces.len() > 0 {
        let before = pieces.drop_last();
        lemma_same_bodies_same_output(manager, other, writer, before);
        lemma_emit_keeps(manager, writer, before);
        assert(same_body(other, manager, pieces[pieces.len() - 1]));
    }
}

/// An output that is scanned and written again is the same output.
///
/// Let a template of fitting pieces be written from an empty output. Then the scan
/// of the output succeeds, and a manager that has captured the output writes the
/// same template to the same output.
pub proof fn lemma_round_trip(manager: ManagerView, writer: WriterView, pieces: Seq<Piece>)
    requires
        writer.output.len() == 0,
        fits_all(manager, writer, pieces),
        one_default_per_number(pieces),
        emit_all(manager, writer, pieces) is Ok,
    ensures
        ({
            let output = emit_all(manager, writer, pieces)->Ok_0.1;
            &&& manager.capture(output.output) is Ok
            &&& emit_all(manager.capture(output.output)->Ok_0, writer, pieces) is Ok
            &&& emit_all(manager.capture(output.output)->Ok_0, writer, pieces)->Ok_0.1 == output
        }),
{
    lemma_output_scans(manager, writer, pieces);
    let captures = captures_of(manager, writer, pieces);
    let after = manager.absorb(captures);
    lemma_absorb_keeps(manager, captures);
    assert forall|j: int| 0 <= j < pieces.len() implies same_body(
        after,
        manager,
        #[trigger] pieces[j],
    ) by {
        lemma_bodies_come_back(manager, writer, pieces, j);
    }
    lemma_same_bodies_same_output(manager, after, writer, pieces);
}

} // verus!
