//! User sections: the registry of named sections, the store of what was captured
//! from an earlier output, and the emission of each section into a new output.

use std::collections::HashMap;
use vstd::hash_set::StringHashSet;
use vstd::prelude::*;
use crate::code_writer::{CodeWriter, WriterView};
use crate::error::{CodeGenError, ErrorView};
use crate::markers::{Region, RegionView};
use crate::name_map::NameMap;
use crate::scanner::{capture_views, scan, scan_text, Capture, CaptureView};
use crate::text::{optional_string, optional_text, with_final_newline};
use crate::utils::ensure_ends_with_newline;

verus! {

/// A source of content for a section.
pub trait ContentGenerator {
    /// Whether the generator can be asked for content.
    spec fn ready(&self) -> bool;

    /// Whether `content` is something that the generator may hand out.
    spec fn generates(&self, content: String) -> bool;

    fn generate(&self) -> (content: String)
        requires
            self.ready(),
        ensures
            self.generates(content),
    ;
}

/// A content generator made of a function.
pub struct FunctionGenerator<F: Fn() -> String> {
    generator: F,
}

impl<F: Fn() -> String> FunctionGenerator<F> {
    pub fn new(generator: F) -> (r: Self)
        ensures
            r.function() == generator,
    {
        Self { generator }
    }

    /// The function that the generator calls.
    pub closed spec fn function(self) -> F {
        self.generator
    }
}

impl<F: Fn() -> String> ContentGenerator for FunctionGenerator<F> {
    open spec fn ready(&self) -> bool {
        self.function().requires(())
    }

    open spec fn generates(&self, content: String) -> bool {
        self.function().ensures((), content)
    }

    fn generate(&self) -> (content: String) {
        (self.generator)()
    }
}

/// A section of generated code that its user may edit.
#[derive(Debug, Clone)]
pub struct UserSection {
    /// The name of the section.
    pub name: String,
    /// What the section is for.
    pub description: Option<String>,
    /// What the section holds until its user edits it.
    pub default_content: Option<String>,
    /// Whether the default content came from a generator.
    pub is_dynamic: bool,
}

/// A [`UserSection`] with its texts as character sequences.
pub struct SectionView {
    pub name: Seq<char>,
    pub description: Option<Seq<char>>,
    pub default_content: Option<Seq<char>>,
    pub is_dynamic: bool,
}

impl View for UserSection {
    type V = SectionView;

    open spec fn view(&self) -> SectionView {
        SectionView {
            name: self.name@,
            description: optional_string(self.description),
            default_content: optional_string(self.default_content),
            is_dynamic: self.is_dynamic,
        }
    }
}

/// A string of its own for a text that may be absent.
fn owned(s: Option<&str>) -> (r: Option<String>)
    ensures
        optional_string(r) == optional_text(s),
{
    match s {
        Some(s) => Some(s.to_owned()),
        None => None,
    }
}

impl UserSection {
    /// A section with a name and nothing else.
    pub fn new(name: &str) -> (section: Self)
        ensures
            section@ == (SectionView {
                name: name@,
                description: None,
                default_content: None,
                is_dynamic: false,
            }),
    {
        Self { name: name.to_owned(), description: None, default_content: None, is_dynamic: false }
    }

    /// A section with a name and a description.
    pub fn with_description(name: &str, description: &str) -> (section: Self)
        ensures
            section@ == (SectionView {
                name: name@,
                description: Some(description@),
                default_content: None,
                is_dynamic: false,
            }),
    {
        Self {
            name: name.to_owned(),
            description: Some(description.to_owned()),
            default_content: None,
            is_dynamic: false,
        }
    }

    /// A section with a name, default content and, if given, a description.
    pub fn with_default(name: &str, description: Option<&str>, default_content: &str) -> (section:
        Self)
        ensures
            section@ == (SectionView {
                name: name@,
                description: optional_text(description),
                default_content: Some(default_content@),
                is_dynamic: false,
            }),
    {
        Self {
            name: name.to_owned(),
            description: owned(description),
            default_content: Some(default_content.to_owned()),
            is_dynamic: false,
        }
    }

    /// A section whose content a generator will supply.
    pub fn with_dynamic(name: &str, description: Option<&str>) -> (section: Self)
        ensures
            section@ == (SectionView {
                name: name@,
                description: optional_text(description),
                default_content: None,
                is_dynamic: true,
            }),
    {
        Self {
            name: name.to_owned(),
            description: owned(description),
            default_content: None,
            is_dynamic: true,
        }
    }
}

/// The state of a [`UserSectionManager`].
pub struct ManagerView {
    /// The sections that are defined, by name.
    pub sections: Map<Seq<char>, SectionView>,
    /// What was captured of named sections, by name.
    pub captured: Map<Seq<char>, Seq<char>>,
    /// What was captured of partial sections, by number.
    pub partials: Map<u32, Seq<char>>,
    /// The named sections that were written in this pass.
    pub written: Set<Seq<char>>,
    /// The names of the defined sections, in the order of their first definition.
    pub section_order: Seq<Seq<char>>,
    /// The names of the captured sections, in the order of their first capture.
    pub capture_order: Seq<Seq<char>>,
}

/// The names after one was set: a name that was among them keeps its place, a new
/// one comes last.
pub open spec fn with_name(names: Seq<Seq<char>>, name: Seq<char>) -> Seq<Seq<char>> {
    if names.contains(name) {
        names
    } else {
        names.push(name)
    }
}

/// A region between its markers: the begin marker on a line of its own, the body as
/// it is, the end marker on a line of its own.
pub open spec fn framed(writer: WriterView, region: RegionView, body: Seq<char>) -> WriterView {
    writer.writeln(region.begin_marker()).append(body).writeln(region.end_marker())
}

impl ManagerView {
    /// A manager that holds nothing.
    pub open spec fn empty() -> ManagerView {
        ManagerView {
            sections: Map::empty(),
            captured: Map::empty(),
            partials: Map::empty(),
            written: Set::empty(),
            section_order: Seq::empty(),
            capture_order: Seq::empty(),
        }
    }

    /// The content of a named section: what was captured of it; failing that, the
    /// default content of its definition; failing that, nothing.
    pub open spec fn resolve(self, name: Seq<char>) -> Option<Seq<char>> {
        if self.captured.contains_key(name) {
            Some(self.captured[name])
        } else if self.sections.contains_key(name) {
            self.sections[name].default_content
        } else {
            None
        }
    }

    /// The resolved content of a named section, empty where there is none.
    pub open spec fn content(self, name: Seq<char>) -> Seq<char> {
        match self.resolve(name) {
            Some(content) => content,
            None => Seq::empty(),
        }
    }

    /// What was captured of a partial section.
    pub open spec fn resolve_partial(self, number: u32) -> Option<Seq<char>> {
        if self.partials.contains_key(number) {
            Some(self.partials[number])
        } else {
            None
        }
    }

    /// The manager after a section was defined; an earlier definition of the same
    /// name is gone.
    pub open spec fn define(self, section: SectionView) -> ManagerView {
        ManagerView {
            sections: self.sections.insert(section.name, section),
            section_order: with_name(self.section_order, section.name),
            ..self
        }
    }

    /// The manager after one capture was stored.
    pub open spec fn store(self, capture: CaptureView) -> ManagerView {
        match capture.region {
            RegionView::Named(name) => ManagerView {
                captured: self.captured.insert(name, capture.content),
                capture_order: with_name(self.capture_order, name),
                ..self
            },
            RegionView::Partial(number) => ManagerView {
                partials: self.partials.insert(number, capture.content),
                ..self
            },
        }
    }

    /// The manager after the captures were stored one after the other.
    pub open spec fn absorb(self, captures: Seq<CaptureView>) -> ManagerView
        decreases captures.len(),
    {
        if captures.len() == 0 {
            self
        } else {
            self.absorb(captures.drop_last()).store(captures.last())
        }
    }

    /// The manager after the regions of a text were captured, or the error of the
    /// scan.
    pub open spec fn capture(self, content: Seq<char>) -> Result<ManagerView, ErrorView> {
        match scan_text(content) {
            Ok(captures) => Ok(self.absorb(captures)),
            Err(e) => Err(e),
        }
    }

    /// The manager after what was captured is forgotten and a new pass begins.
    pub open spec fn clear_captured(self) -> ManagerView {
        ManagerView {
            captured: Map::empty(),
            partials: Map::empty(),
            written: Set::empty(),
            capture_order: Seq::empty(),
            ..self
        }
    }

    /// What a named section adds to the output: its description as a comment if it
    /// has one and one is wanted, the section between its markers, and an empty line.
    pub open spec fn section_block(
        self,
        writer: WriterView,
        name: Seq<char>,
        describe: bool,
    ) -> WriterView {
        let described = match self.sections[name].description {
            Some(description) if describe => writer.write_separator(description),
            _ => writer,
        };
        framed(
            described,
            RegionView::Named(name),
            with_final_newline(self.content(name)),
        ).newline()
    }

    /// The manager and the writer after a named section was written, with or
    /// without its description.
    ///
    /// A name without a definition is an error. A section that was written in this
    /// pass is not written again.
    pub open spec fn write_named(self, writer: WriterView, name: Seq<char>, describe: bool) -> Result<
        (ManagerView, WriterView),
        ErrorView,
    > {
        if !self.sections.contains_key(name) {
            Err(ErrorView::UnknownSection(name))
        } else if self.written.contains(name) {
            Ok((self, writer))
        } else {
            Ok(
                (
                    ManagerView { written: self.written.insert(name), ..self },
                    self.section_block(writer, name, describe),
                ),
            )
        }
    }

    /// The writer after the content of a named section was written without markers.
    pub open spec fn write_content_only(self, writer: WriterView, name: Seq<char>) -> Result<
        WriterView,
        ErrorView,
    > {
        if !self.sections.contains_key(name) {
            Err(ErrorView::UnknownSection(name))
        } else {
            Ok(writer.append(with_final_newline(self.content(name))))
        }
    }

    /// What stands between the markers of a partial section: what was captured of
    /// it; failing that, the default that came with the call; failing that, nothing.
    pub open spec fn partial_body(self, number: u32, default_content: Option<Seq<char>>) -> Seq<
        char,
    > {
        match self.resolve_partial(number) {
            Some(content) => with_final_newline(content),
            None => match default_content {
                Some(content) => with_final_newline(content),
                None => Seq::empty(),
            },
        }
    }

    /// The writer after a partial section was written.
    pub open spec fn write_partial_section(
        self,
        writer: WriterView,
        number: u32,
        default_content: Option<Seq<char>>,
    ) -> WriterView {
        framed(writer, RegionView::Partial(number), self.partial_body(number, default_content))
    }

    /// How many of the defined sections have default content.
    pub open spec fn sections_with_default(self) -> nat {
        self.sections.dom().filter(
            |name: Seq<char>| self.sections[name].default_content is Some,
        ).len()
    }

    /// Whether every captured name has a definition.
    pub open spec fn is_valid(self) -> bool {
        forall|name: Seq<char>| self.captured.contains_key(name) ==> self.sections.contains_key(name)
    }
}

/// The message for a captured section that has no definition.
pub open spec fn undefined_capture_message(name: Seq<char>) -> Seq<char> {
    "Captured section '"@ + name + "' has no definition"@
}

/// How many sections are defined and how much was captured.
#[derive(Debug, Clone)]
pub struct UserSectionStats {
    pub total_sections: usize,
    pub captured_sections: usize,
    pub partial_sections: usize,
    pub sections_with_default: usize,
}

/// The views of the contents of a map of partial sections.
pub open spec fn content_views(contents: Map<u32, String>) -> Map<u32, Seq<char>> {
    Map::new(|number: u32| contents.contains_key(number), |number: u32| contents[number]@)
}

/// The manager of user sections: it holds the definitions, what was captured, and
/// which sections the current pass has written.
pub struct UserSectionManager {
    sections: NameMap<UserSection>,
    captured_content: NameMap<String>,
    partial_sections: HashMap<u32, String>,
    written_sections: StringHashSet,
}

impl View for UserSectionManager {
    type V = ManagerView;

    closed spec fn view(&self) -> ManagerView {
        ManagerView {
            sections: self.sections@,
            captured: self.captured_content@,
            partials: content_views(self.partial_sections@),
            written: self.written_sections@,
            section_order: self.sections.keys(),
            capture_order: self.captured_content.keys(),
        }
    }
}

impl UserSectionManager {
    /// A manager that holds nothing.
    pub fn new() -> (manager: Self)
        ensures
            manager@ == ManagerView::empty(),
    {
        let manager = Self {
            sections: NameMap::new(),
            captured_content: NameMap::new(),
            partial_sections: HashMap::new(),
            written_sections: StringHashSet::new(),
        };
        assert(content_views(manager.partial_sections@) =~= Map::<u32, Seq<char>>::empty());
        manager
    }

    /// Begins a new pass: no section counts as written.
    pub fn reset_written_tracker(&mut self)
        ensures
            final(self)@ == (ManagerView { written: Set::empty(), ..old(self)@ }),
    {
        self.written_sections.clear();
    }

    /// Whether the section was written in this pass.
    pub fn is_section_written(&self, name: &str) -> (r: bool)
        ensures
            r == self@.written.contains(name@),
    {
        self.written_sections.contains(name)
    }

    /// Notes that the section was written in this pass.
    fn mark_section_written(&mut self, name: &str)
        ensures
            final(self)@ == (ManagerView { written: old(self)@.written.insert(name@), ..old(self)@ }),
    {
        self.written_sections.insert(name.to_owned());
    }

    /// Defines a section with a name and nothing else.
    pub fn define_section(&mut self, name: &str)
        ensures
            final(self)@ == old(self)@.define(
                SectionView {
                    name: name@,
                    description: None,
                    default_content: None,
                    is_dynamic: false,
                },
            ),
    {
        self.sections.insert(name.to_owned(), UserSection::new(name));
    }

    /// Defines a section with a name and a description.
    pub fn define_section_with_description(&mut self, name: &str, description: &str)
        ensures
            final(self)@ == old(self)@.define(
                SectionView {
                    name: name@,
                    description: Some(description@),
                    default_content: None,
                    is_dynamic: false,
                },
            ),
    {
        self.sections.insert(name.to_owned(), UserSection::with_description(name, description));
    }

    /// Defines a section with a name, default content and, if given, a description.
    pub fn define_section_with_default(
        &mut self,
        name: &str,
        description: Option<&str>,
        default_content: &str,
    )
        ensures
            final(self)@ == old(self)@.define(
                SectionView {
                    name: name@,
                    description: optional_text(description),
                    default_content: Some(default_content@),
                    is_dynamic: false,
                },
            ),
    {
        self.sections.insert(
            name.to_owned(),
            UserSection::with_default(name, description, default_content),
        );
    }

    /// Defines a section whose default content is what the generator hands out now.
    pub fn define_section_with_generator<F: Fn() -> String>(
        &mut self,
        name: &str,
        description: Option<&str>,
        generator: F,
    )
        requires
            generator.requires(()),
        ensures
            exists|content: String|
                generator.ensures((), content) && final(self)@ == old(self)@.define(
                    SectionView {
                        name: name@,
                        description: optional_text(description),
                        default_content: Some(content@),
                        is_dynamic: false,
                    },
                ),
    {
        let content = generator();
        self.sections.insert(
            name.to_owned(),
            UserSection::with_default(name, description, content.as_str()),
        );
    }

    /// Whether a section of that name is defined.
    pub fn has_section(&self, name: &str) -> (r: bool)
        ensures
            r == self@.sections.contains_key(name@),
    {
        self.sections.contains_key(name)
    }

    /// The content of a named section: what was captured of it; failing that, its
    /// default content.
    pub fn get_section_content(&self, name: &str) -> (r: Option<&str>)
        ensures
            optional_text(r) == self@.resolve(name@),
    {
        match self.captured_content.get(name) {
            Some(content) => Some(content.as_str()),
            None => match self.sections.get(name) {
                Some(section) => match &section.default_content {
                    Some(content) => Some(content.as_str()),
                    None => None,
                },
                None => None,
            },
        }
    }

    /// Stores one capture in the place of what was captured of its region before.
    fn store(&mut self, capture: &Capture)
        ensures
            final(self)@ == old(self)@.store(capture@),
    {
        broadcast use vstd::std_specs::hash::group_hash_axioms;

        match &capture.region {
            Region::Named(name) => {
                self.captured_content.insert(name.clone(), capture.content.clone());
            },
            Region::Partial(number) => {
                self.partial_sections.insert(*number, capture.content.clone());
                assert(content_views(self.partial_sections@) =~= content_views(
                    old(self).partial_sections@,
                ).insert(*number, capture.content@));
            },
        }
    }

    /// Captures the user regions of a text.
    ///
    /// On success each captured region takes the place of what was captured of it
    /// before. On an error nothing changes.
    pub fn capture_from_string(&mut self, content: &str) -> (r: Result<(), CodeGenError>)
        ensures
            match old(self)@.capture(content@) {
                Ok(manager) => r is Ok && final(self)@ == manager,
                Err(e) => r matches Err(error) && error@ == e && final(self)@ == old(self)@,
            },
    {
        let captures = match scan(content) {
            Ok(captures) => captures,
            Err(e) => {
                return Err(e);
            },
        };
        let ghost all = capture_views(captures@);
        let mut i: usize = 0;
        while i < captures.len()
            invariant
                i <= captures.len(),
                all == capture_views(captures@),
                self@ == old(self)@.absorb(all.take(i as int)),
            decreases captures.len() - i,
        {
            let ghost next = all.take(i + 1);
            assert(next.drop_last() =~= all.take(i as int));
            self.store(&captures[i]);
            i += 1;
        }
        assert(all.take(captures.len() as int) =~= all);
        Ok(())
    }

    /// Writes a named section that this pass has not written yet, with its
    /// description if `describe` asks for it.
    fn write_named(&mut self, writer: &mut CodeWriter, name: &str, describe: bool) -> (r: Result<
        (),
        CodeGenError,
    >)
        ensures
            match old(self)@.write_named(old(writer)@, name@, describe) {
                Ok((manager, output)) => r is Ok && final(self)@ == manager && final(writer)@
                    == output,
                Err(e) => r matches Err(error) && error@ == e && final(self)@ == old(self)@
                    && final(writer)@ == old(writer)@,
            },
    {
        let section = match self.sections.get(name) {
            Some(section) => section,
            None => {
                return Err(CodeGenError::UnknownSection(name.to_owned()));
            },
        };
        if self.written_sections.contains(name) {
            return Ok(());
        }
        if describe {
            if let Some(description) = &section.description {
                let _ = writer.write_separator(description.as_str(), 80);
            }
        }
        let region = Region::Named(name.to_owned());
        let _ = writer.writeln(region.begin_marker().as_str());
        let body = match self.get_section_content(name) {
            Some(content) => ensure_ends_with_newline(content),
            None => {
                let mut line = String::new();
                line.push('\n');
                line
            },
        };
        writer.write_raw(body.as_str());
        let _ = writer.writeln(region.end_marker().as_str());
        let _ = writer.newline();
        self.mark_section_written(name);
        Ok(())
    }

    /// Writes a named section: its description as a comment, if it has one, then
    /// the section between its markers, then an empty line.
    ///
    /// A name without a definition is an error. A section that was written in this
    /// pass is not written again.
    pub fn write_section(&mut self, writer: &mut CodeWriter, name: &str) -> (r: Result<
        (),
        CodeGenError,
    >)
        ensures
            match old(self)@.write_named(old(writer)@, name@, true) {
                Ok((manager, output)) => r is Ok && final(self)@ == manager && final(writer)@
                    == output,
                Err(e) => r matches Err(error) && error@ == e && final(self)@ == old(self)@
                    && final(writer)@ == old(writer)@,
            },
    {
        self.write_named(writer, name, true)
    }

    /// Writes a named section as [`Self::write_section`] does, without its
    /// description.
    pub fn write_section_without_description(&mut self, writer: &mut CodeWriter, name: &str) -> (r:
        Result<(), CodeGenError>)
        ensures
            match old(self)@.write_named(old(writer)@, name@, false) {
                Ok((manager, output)) => r is Ok && final(self)@ == manager && final(writer)@
                    == output,
                Err(e) => r matches Err(error) && error@ == e && final(self)@ == old(self)@
                    && final(writer)@ == old(writer)@,
            },
    {
        self.write_named(writer, name, false)
    }

    /// The names of the defined sections, in the order of their first definition.
    pub fn section_names(&self) -> (names: Vec<String>)
        ensures
            names@.len() == self@.section_order.len(),
            forall|i: int| 0 <= i < names@.len() ==> (#[trigger] names@[i])@ == self@.section_order[i],
            self@.section_order.no_duplicates(),
            forall|name: Seq<char>|
                self@.sections.contains_key(name) <==> self@.section_order.contains(name),
    {
        self.sections.names()
    }

    /// The names of the captured sections, in the order of their first capture.
    pub fn captured_section_names(&self) -> (names: Vec<String>)
        ensures
            names@.len() == self@.capture_order.len(),
            forall|i: int| 0 <= i < names@.len() ==> (#[trigger] names@[i])@ == self@.capture_order[i],
            self@.capture_order.no_duplicates(),
            forall|name: Seq<char>|
                self@.captured.contains_key(name) <==> self@.capture_order.contains(name),
    {
        self.captured_content.names()
    }

    /// Forgets what was captured and begins a new pass. The definitions stay.
    pub fn clear_captured_content(&mut self)
        ensures
            final(self)@ == old(self)@.clear_captured(),
    {
        self.captured_content.clear();
        self.partial_sections.clear();
        assert(content_views(self.partial_sections@) =~= Map::<u32, Seq<char>>::empty());
        self.reset_written_tracker();
    }

    /// Writes a partial section between its markers: what was captured of it, or
    /// else the default that comes with the call.
    pub fn write_partial_section(
        &self,
        writer: &mut CodeWriter,
        number: u32,
        default_content: Option<&str>,
    ) -> (r: Result<(), CodeGenError>)
        ensures
            r is Ok,
            final(writer)@ == self@.write_partial_section(
                old(writer)@,
                number,
                optional_text(default_content),
            ),
    {
        let region = Region::Partial(number);
        let _ = writer.writeln(region.begin_marker().as_str());
        match self.get_partial_section_content(number) {
            Some(content) => {
                let body = ensure_ends_with_newline(content);
                writer.write_raw(body.as_str());
            },
            None => match default_content {
                Some(content) => {
                    let body = ensure_ends_with_newline(content);
                    writer.write_raw(body.as_str());
                },
                None => {},
            },
        }
        let _ = writer.writeln(region.end_marker().as_str());
        Ok(())
    }

    /// What was captured of a partial section.
    pub fn get_partial_section_content(&self, number: u32) -> (r: Option<&str>)
        ensures
            optional_text(r) == self@.resolve_partial(number),
    {
        broadcast use vstd::std_specs::hash::group_hash_axioms;

        match self.partial_sections.get(&number) {
            Some(content) => Some(content.as_str()),
            None => None,
        }
    }

    /// Whether anything was captured of a partial section.
    pub fn has_partial_section(&self, number: u32) -> (r: bool)
        ensures
            r == self@.partials.contains_key(number),
    {
        broadcast use vstd::std_specs::hash::group_hash_axioms;

        self.partial_sections.contains_key(&number)
    }

    /// The defined sections.
    pub fn sections(&self) -> (r: &NameMap<UserSection>)
        ensures
            r@ == self@.sections,
            r.keys() == self@.section_order,
    {
        &self.sections
    }

    /// What was captured of named sections.
    pub fn captured_content(&self) -> (r: &NameMap<String>)
        ensures
            r@ == self@.captured,
            r.keys() == self@.capture_order,
    {
        &self.captured_content
    }

    /// Writes the content of a named section without markers.
    pub fn write_content_only(&self, writer: &mut CodeWriter, name: &str) -> (r: Result<
        (),
        CodeGenError,
    >)
        ensures
            match self@.write_content_only(old(writer)@, name@) {
                Ok(output) => r is Ok && final(writer)@ == output,
                Err(e) => r matches Err(error) && error@ == e && final(writer)@ == old(writer)@,
            },
    {
        if !self.sections.contains_key(name) {
            return Err(CodeGenError::UnknownSection(name.to_owned()));
        }
        let body = match self.get_section_content(name) {
            Some(content) => ensure_ends_with_newline(content),
            None => {
                let mut line = String::new();
                line.push('\n');
                line
            },
        };
        writer.write_raw(body.as_str());
        Ok(())
    }

    /// How many sections are defined and how much was captured.
    pub fn get_stats(&self) -> (stats: UserSectionStats)
        ensures
            stats.total_sections == self@.sections.len(),
            stats.captured_sections == self@.captured.len(),
            stats.partial_sections == self@.partials.len(),
            stats.sections_with_default == self@.sections_with_default(),
    {
        broadcast use vstd::std_specs::hash::group_hash_axioms;

        let total = self.sections.len();
        let ghost keys = self.sections.keys();
        let ghost defined = self@.sections;
        let ghost counted = |k: int|
            Set::new(
                |name: Seq<char>|
                    exists|j: int|
                        0 <= j < k && keys[j] == name && defined[name].default_content is Some,
            );
        let mut with_default: usize = 0;
        let mut i: usize = 0;
        assert(counted(0) =~= Set::<Seq<char>>::empty());
        while i < total
            invariant
                i <= total,
                total == self.sections.size(),
                keys == self.sections.keys(),
                defined == self@.sections,
                keys.no_duplicates(),
                forall|name: Seq<char>| defined.contains_key(name) <==> keys.contains(name),
                with_default <= i,
                counted(i as int).finite(),
                with_default == counted(i as int).len(),
                counted == |k: int|
                    Set::new(
                        |name: Seq<char>|
                            exists|j: int|
                                0 <= j < k && keys[j] == name && defined[name].default_content
                                    is Some,
                    ),
            decreases total - i,
        {
            let section = self.sections.value_at(i);
            let ghost name = keys[i as int];
            if section.default_content.is_some() {
                assert(counted(i + 1) =~= counted(i as int).insert(name));
                with_default += 1;
            } else {
                assert(counted(i + 1) =~= counted(i as int));
            }
            i += 1;
        }
        let ghost with_some = defined.dom().filter(
            |name: Seq<char>| defined[name].default_content is Some,
        );
        assert forall|name: Seq<char>| #[trigger]
            counted(total as int).contains(name) <==> with_some.contains(name) by {
            if with_some.contains(name) {
                assert(keys.contains(name));
                let j = choose|j: int| 0 <= j < keys.len() && keys[j] == name;
            }
            if counted(total as int).contains(name) {
                let j = choose|j: int|
                    0 <= j < total && keys[j] == name && defined[name].default_content is Some;
                assert(keys.contains(name));
            }
        }
        assert(counted(total as int) =~= defined.dom().filter(
            |name: Seq<char>| defined[name].default_content is Some,
        ));
        assert(self@.partials.dom() =~= self.partial_sections@.dom());
        UserSectionStats {
            total_sections: total,
            captured_sections: self.captured_content.len(),
            partial_sections: self.partial_sections.len(),
            sections_with_default: with_default,
        }
    }

    /// Checks that every captured section has a definition.
    ///
    /// The error names the first captured section, in the order of capture, that has
    /// none.
    pub fn validate(&self) -> (r: Result<(), CodeGenError>)
        ensures
            r is Ok <==> self@.is_valid(),
            r matches Err(error) ==> exists|i: int|
                {
                    &&& 0 <= i < self@.capture_order.len()
                    &&& !self@.sections.contains_key(#[trigger] self@.capture_order[i])
                    &&& forall|j: int|
                        0 <= j < i ==> self@.sections.contains_key(#[trigger] self@.capture_order[j])
                    &&& error@ == ErrorView::UnknownSection(
                        undefined_capture_message(self@.capture_order[i]),
                    )
                },
    {
        let count = self.captured_content.len();
        let mut i: usize = 0;
        while i < count
            invariant
                i <= count,
                count == self.captured_content.size(),
                forall|name: Seq<char>|
                    self@.captured.contains_key(name) <==> self@.capture_order.contains(name),
                forall|j: int|
                    0 <= j < i ==> self@.sections.contains_key(#[trigger] self@.capture_order[j]),
            decreases count - i,
        {
            let name = self.captured_content.name_at(i);
            if !self.sections.contains_key(name.as_str()) {
                assert(self@.captured.contains_key(self@.capture_order[i as int]));
                return Err(
                    CodeGenError::UnknownSection(
                        "Captured section '".to_owned().concat(name.as_str()).concat(
                            "' has no definition",
                        ),
                    ),
                );
            }
            i += 1;
        }
        assert forall|name: Seq<char>| self@.captured.contains_key(name) implies self@.sections.contains_key(
            name,
        ) by {
            assert(self@.capture_order.contains(name));
            let j = choose|j: int|
                0 <= j < self@.capture_order.len() && self@.capture_order[j] == name;
            assert(self@.sections.contains_key(self@.capture_order[j]));
        }
        Ok(())
    }
}

impl Default for UserSectionManager {
    fn default() -> (manager: Self)
        ensures
            manager@ == ManagerView::empty(),
    {
        Self::new()
    }
}

} // verus!
