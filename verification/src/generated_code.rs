//! Generated blocks inside files that their users write: each block stands
//! between two marker comments that name the tool and the purpose of the block, and
//! embedding a block again replaces what stood between them.

use vstd::prelude::*;
use crate::text::{chars_of, has_final_newline, text_of, with_final_newline};

verus! {

/// One generated block: who made it, what it is for, and its text.
pub struct GeneratedView {
    pub tool_name: Seq<char>,
    pub purpose: Seq<char>,
    pub content: Seq<char>,
}

impl GeneratedView {
    /// The comment that opens the block.
    pub open spec fn begin_marker(self) -> Seq<char> {
        "/* GENERATED CODE BEGIN "@ + self.tool_name + " "@ + self.purpose + " */"@
    }

    /// The comment that closes the block.
    pub open spec fn end_marker(self) -> Seq<char> {
        "/* GENERATED CODE END "@ + self.tool_name + " "@ + self.purpose + " */"@
    }

    /// The block as it is written where none stood before: the markers on lines of
    /// their own around the text.
    pub open spec fn block(self) -> Seq<char> {
        self.begin_marker() + seq!['\n'] + self.content + seq!['\n'] + self.end_marker()
            + seq!['\n']
    }

    /// The text with this block embedded.
    ///
    /// Where the text holds the begin marker and, at or behind its first
    /// occurrence, the last occurrence of the end marker, the begin marker and the
    /// content take the place of all that stood before that end marker. Else the
    /// block is added at the end of the text, after an empty line.
    pub open spec fn embed_into(self, text: Seq<char>) -> Seq<char> {
        let begin = first_match(text, self.begin_marker());
        let end = last_match(text, self.end_marker());
        if begin is Some && end is Some && begin->0 <= end->0 {
            text.take(begin->0) + self.begin_marker() + seq!['\n'] + self.content + text.skip(
                end->0,
            )
        } else {
            with_final_newline(text) + seq!['\n'] + self.block()
        }
    }
}

/// Whether `needle` stands in `text` at place `at`.
pub open spec fn matches_at(text: Seq<char>, needle: Seq<char>, at: int) -> bool {
    0 <= at && at + needle.len() <= text.len() && text.subrange(at, at + needle.len()) == needle
}

/// The first place at or after `from` where `needle` stands in `text`.
pub open spec fn first_match_from(text: Seq<char>, needle: Seq<char>, from: int) -> Option<int>
    decreases text.len() - from + 1,
{
    if from < 0 || from + needle.len() > text.len() {
        None
    } else if matches_at(text, needle, from) {
        Some(from)
    } else {
        first_match_from(text, needle, from + 1)
    }
}

/// The first place where `needle` stands in `text`.
pub open spec fn first_match(text: Seq<char>, needle: Seq<char>) -> Option<int> {
    first_match_from(text, needle, 0)
}

/// The last place at or before `upto` where `needle` stands in `text`.
pub open spec fn last_match_upto(text: Seq<char>, needle: Seq<char>, upto: int) -> Option<int>
    decreases upto + 1,
{
    if upto < 0 {
        None
    } else if matches_at(text, needle, upto) {
        Some(upto)
    } else {
        last_match_upto(text, needle, upto - 1)
    }
}

/// The last place where `needle` stands in `text`.
pub open spec fn last_match(text: Seq<char>, needle: Seq<char>) -> Option<int> {
    last_match_upto(text, needle, text.len() - needle.len())
}

/// The blocks, each as it is written into a new file, with an empty line after each.
pub open spec fn fresh_text(blocks: Seq<GeneratedView>) -> Seq<char>
    decreases blocks.len(),
{
    if blocks.len() == 0 {
        Seq::empty()
    } else {
        fresh_text(blocks.drop_last()) + blocks.last().block() + seq!['\n']
    }
}

/// The text with the blocks embedded one after the other.
pub open spec fn embed_all(text: Seq<char>, blocks: Seq<GeneratedView>) -> Seq<char>
    decreases blocks.len(),
{
    if blocks.len() == 0 {
        text
    } else {
        blocks.last().embed_into(embed_all(text, blocks.drop_last()))
    }
}

/// Whether a block is the one of a tool and a purpose.
pub open spec fn is_block_of(block: GeneratedView, tool_name: Seq<char>, purpose: Seq<char>) -> bool {
    block.tool_name == tool_name && block.purpose == purpose
}

/// The first place among the blocks where the block of a tool and a purpose stands.
pub open spec fn block_position(
    blocks: Seq<GeneratedView>,
    tool_name: Seq<char>,
    purpose: Seq<char>,
) -> Option<int>
    decreases blocks.len(),
{
    if blocks.len() == 0 {
        None
    } else {
        match block_position(blocks.drop_last(), tool_name, purpose) {
            Some(at) => Some(at),
            None => if is_block_of(blocks.last(), tool_name, purpose) {
                Some(blocks.len() - 1)
            } else {
                None
            },
        }
    }
}

/// The blocks after one was set: a block of the same tool and purpose gives way to
/// it where it stood, and a new one comes last.
pub open spec fn with_block(blocks: Seq<GeneratedView>, block: GeneratedView) -> Seq<GeneratedView> {
    match block_position(blocks, block.tool_name, block.purpose) {
        Some(at) => blocks.update(at, block),
        None => blocks.push(block),
    }
}

struct GeneratedSection {
    tool_name: String,
    purpose: String,
    content: String,
}

impl View for GeneratedSection {
    type V = GeneratedView;

    closed spec fn view(&self) -> GeneratedView {
        GeneratedView { tool_name: self.tool_name@, purpose: self.purpose@, content: self.content@ }
    }
}

/// The manager of the generated blocks of one file.
pub struct GeneratedCodeManager {
    sections: Vec<GeneratedSection>,
}

impl View for GeneratedCodeManager {
    type V = Seq<GeneratedView>;

    closed spec fn view(&self) -> Seq<GeneratedView> {
        Seq::new(self.sections@.len(), |i: int| self.sections@[i]@)
    }
}

fn append_chars(out: &mut Vec<char>, source: &Vec<char>, from: usize, to: usize)
    requires
        from <= to <= source.len(),
    ensures
        final(out)@ == old(out)@ + source@.subrange(from as int, to as int),
{
    let mut i: usize = from;
    while i < to
        invariant
            from <= i <= to <= source.len(),
            out@ == old(out)@ + source@.subrange(from as int, i as int),
        decreases to - i,
    {
        out.push(source[i]);
        i += 1;
    }
}

fn append_str(out: &mut Vec<char>, source: &str)
    ensures
        final(out)@ == old(out)@ + source@,
{
    let chars = chars_of(source);
    append_chars(out, &chars, 0, chars.len());
}

/// Whether `needle` stands in `text` at place `at`.
fn stands_at(text: &Vec<char>, needle: &Vec<char>, at: usize) -> (r: bool)
    requires
        at + needle.len() <= text.len(),
    ensures
        r == matches_at(text@, needle@, at as int),
{
    let ghost part = text@.subrange(at as int, at + needle.len());
    let mut i: usize = 0;
    while i < needle.len()
        invariant
            i <= needle.len(),
            at + needle.len() <= text.len(),
            part == text@.subrange(at as int, at + needle.len()),
            part.take(i as int) == needle@.take(i as int),
        decreases needle.len() - i,
    {
        if text[at + i] != needle[i] {
            return false;
        }
        i += 1;
    }
    assert(part.take(needle.len() as int) =~= part);
    assert(needle@.take(needle.len() as int) =~= needle@);
    true
}

/// The first place where `needle` stands in `text`.
fn find_first(text: &Vec<char>, needle: &Vec<char>) -> (r: Option<usize>)
    ensures
        match r {
            Some(at) => first_match(text@, needle@) == Some(at as int) && at + needle.len()
                <= text.len(),
            None => first_match(text@, needle@) is None,
        },
{
    if needle.len() > text.len() {
        return None;
    }
    let limit = text.len() - needle.len();
    let mut at: usize = 0;
    loop
        invariant
            limit == text.len() - needle.len(),
            at <= limit,
            first_match(text@, needle@) == first_match_from(text@, needle@, at as int),
        decreases limit - at,
    {
        if stands_at(text, needle, at) {
            return Some(at);
        }
        if at == limit {
            return None;
        }
        at += 1;
    }
}

/// The last place where `needle` stands in `text`.
fn find_last(text: &Vec<char>, needle: &Vec<char>) -> (r: Option<usize>)
    ensures
        match r {
            Some(at) => last_match(text@, needle@) == Some(at as int) && at + needle.len()
                <= text.len(),
            None => last_match(text@, needle@) is None,
        },
{
    if needle.len() > text.len() {
        return None;
    }
    let mut at: usize = text.len() - needle.len();
    loop
        invariant
            at + needle.len() <= text.len(),
            last_match(text@, needle@) == last_match_upto(text@, needle@, at as int),
        decreases at,
    {
        if stands_at(text, needle, at) {
            return Some(at);
        }
        if at == 0 {
            assert(last_match_upto(text@, needle@, at - 1) is None);
            return None;
        }
        at -= 1;
    }
}

impl GeneratedSection {
    fn marker(&self, opening: &str) -> (out: Vec<char>)
        ensures
            out@ == opening@ + self@.tool_name + " "@ + self@.purpose + " */"@,
    {
        let mut out = chars_of(opening);
        append_str(&mut out, self.tool_name.as_str());
        append_str(&mut out, " ");
        append_str(&mut out, self.purpose.as_str());
        append_str(&mut out, " */");
        out
    }

    fn begin_marker(&self) -> (out: Vec<char>)
        ensures
            out@ == self@.begin_marker(),
    {
        self.marker("/* GENERATED CODE BEGIN ")
    }

    fn end_marker(&self) -> (out: Vec<char>)
        ensures
            out@ == self@.end_marker(),
    {
        self.marker("/* GENERATED CODE END ")
    }

    /// Adds the block as it is written where none stood before.
    fn append_block(&self, out: &mut Vec<char>)
        ensures
            final(out)@ == old(out)@ + self@.block(),
    {
        let begin = self.begin_marker();
        let end = self.end_marker();
        append_chars(out, &begin, 0, begin.len());
        out.push('\n');
        append_str(out, self.content.as_str());
        out.push('\n');
        append_chars(out, &end, 0, end.len());
        out.push('\n');
    }

    /// The text with this block embedded.
    fn embed_into(&self, text: Vec<char>) -> (out: Vec<char>)
        ensures
            out@ == self@.embed_into(text@),
    {
        let begin = self.begin_marker();
        let end = self.end_marker();
        let first = find_first(&text, &begin);
        let last = find_last(&text, &end);
        match (first, last) {
            (Some(b), Some(e)) => {
                if b <= e {
                    let mut out: Vec<char> = Vec::new();
                    append_chars(&mut out, &text, 0, b);
                    append_chars(&mut out, &begin, 0, begin.len());
                    out.push('\n');
                    append_str(&mut out, self.content.as_str());
                    append_chars(&mut out, &text, e, text.len());
                    return out;
                }
            },
            _ => {},
        }
        let mut out = text;
        if !has_final_newline(&out) {
            out.push('\n');
        }
        out.push('\n');
        self.append_block(&mut out);
        out
    }
}

/// The place of the block of a tool and a purpose.
fn position(sections: &Vec<GeneratedSection>, tool_name: &String, purpose: &String) -> (r: Option<
    usize,
>)
    ensures
        match r {
            Some(at) => at < sections.len() && sections@[at as int]@.tool_name == tool_name@
                && sections@[at as int]@.purpose == purpose@ && forall|j: int|
                0 <= j < at ==> !((#[trigger] sections@[j])@.tool_name == tool_name@
                    && sections@[j]@.purpose == purpose@),
            None => forall|j: int|
                0 <= j < sections.len() ==> !((#[trigger] sections@[j])@.tool_name == tool_name@
                    && sections@[j]@.purpose == purpose@),
        },
{
    let mut i: usize = 0;
    while i < sections.len()
        invariant
            i <= sections.len(),
            forall|j: int|
                0 <= j < i ==> !((#[trigger] sections@[j])@.tool_name == tool_name@
                    && sections@[j]@.purpose == purpose@),
        decreases sections.len() - i,
    {
        if sections[i].tool_name == *tool_name && sections[i].purpose == *purpose {
            return Some(i);
        }
        i += 1;
    }
    None
}

impl GeneratedCodeManager {
    #[verifier::type_invariant]
    spec fn well_formed(self) -> bool {
        forall|i: int, j: int|
            0 <= i < j < self.sections@.len() ==> !(self.sections@[i]@.tool_name
                == self.sections@[j]@.tool_name && self.sections@[i]@.purpose
                == self.sections@[j]@.purpose)
    }

    /// A manager without any block.
    pub fn new() -> (manager: Self)
        ensures
            manager@ == Seq::<GeneratedView>::empty(),
    {
        let manager = Self { sections: Vec::new() };
        manager
    }

    /// Sets the block of a tool and a purpose. A block of the same tool and purpose
    /// gives way to it.
    pub fn set_section(&mut self, tool_name: &str, purpose: &str, content: String)
        ensures
            final(self)@ == with_block(
                old(self)@,
                GeneratedView { tool_name: tool_name@, purpose: purpose@, content: content@ },
            ),
    {
        proof {
            use_type_invariant(&*self);
        }
        let tool = tool_name.to_owned();
        let what = purpose.to_owned();
        let ghost block = GeneratedView {
            tool_name: tool_name@,
            purpose: purpose@,
            content: content@,
        };
        let found = position(&self.sections, &tool, &what);
        let mut sections: Vec<GeneratedSection> = Vec::new();
        core::mem::swap(&mut self.sections, &mut sections);
        let ghost before = Seq::new(sections@.len(), |i: int| sections@[i]@);
        let section = GeneratedSection { tool_name: tool, purpose: what, content };
        match found {
            Some(at) => {
                sections.set(at, section);
                let ghost after = Seq::new(sections@.len(), |i: int| sections@[i]@);
                proof {
                    lemma_block_position(before, tool_name@, purpose@);
                    assert(before[at as int] == old(self).sections@[at as int]@);
                }
            },
            None => {
                sections.push(section);
                let ghost after = Seq::new(sections@.len(), |i: int| sections@[i]@);
                proof {
                    lemma_block_position(before, tool_name@, purpose@);
                }
            },
        }
        core::mem::swap(&mut self.sections, &mut sections);
    }

    /// The text of the file after every block was embedded.
    ///
    /// Without an existing text the blocks are written one after the other, each
    /// followed by an empty line. Into an existing text they are embedded one
    /// after the other.
    pub fn embed(&self, existing: Option<&str>) -> (out: String)
        ensures
            out@ == (match existing {
                Some(text) => embed_all(text@, self@),
                None => fresh_text(self@),
            }),
    {
        let ghost blocks = self@;
        let mut text: Vec<char> = match existing {
            Some(text) => chars_of(text),
            None => Vec::new(),
        };
        let mut i: usize = 0;
        while i < self.sections.len()
            invariant
                i <= self.sections.len(),
                blocks == self@,
                text@ == (match existing {
                    Some(start) => embed_all(start@, blocks.take(i as int)),
                    None => fresh_text(blocks.take(i as int)),
                }),
            decreases self.sections.len() - i,
        {
            let ghost next = blocks.take(i + 1);
            assert(next.drop_last() =~= blocks.take(i as int));
            match existing {
                Some(_) => {
                    text = self.sections[i].embed_into(text);
                },
                None => {
                    self.sections[i].append_block(&mut text);
                    text.push('\n');
                },
            }
            i += 1;
        }
        assert(blocks.take(self.sections.len() as int) =~= blocks);
        text_of(&text)
    }
}

impl Default for GeneratedCodeManager {
    fn default() -> (manager: Self)
        ensures
            manager@ == Seq::<GeneratedView>::empty(),
    {
        Self::new()
    }
}

/// The place of a block is the first place where its tool and purpose stand, and
/// there is none if they stand nowhere.
proof fn lemma_block_position(blocks: Seq<GeneratedView>, tool_name: Seq<char>, purpose: Seq<char>)
    ensures
        match block_position(blocks, tool_name, purpose) {
            Some(at) => 0 <= at < blocks.len() && is_block_of(blocks[at], tool_name, purpose)
                && forall|j: int|
                0 <= j < at ==> !is_block_of(#[trigger] blocks[j], tool_name, purpose),
            None => forall|j: int|
                0 <= j < blocks.len() ==> !is_block_of(#[trigger] blocks[j], tool_name, purpose),
        },
    decreases blocks.len(),
{
    if blocks.len() > 0 {
        let before = blocks.drop_last();
        lemma_block_position(before, tool_name, purpose);
        assert forall|j: int| 0 <= j < before.len() implies before[j] == blocks[j] by {}
    }
}

} // verus!
