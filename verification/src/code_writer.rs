//! A writer that composes source text line by line and indents it.
//!
//! The writer keeps what it has written; whoever owns it takes the text out with
//! [`CodeWriter::output`] or [`CodeWriter::into_string`] and stores it where it
//! belongs.

use vstd::prelude::*;
use crate::error::CodeGenError;
use crate::text::{
    chars_of,
    ends_with_newline,
    has_final_newline,
    join,
    lines_of,
    optional_text,
    push_chars,
    repeat,
    split_lines,
    texts,
};
use crate::utils::repeat_str;

verus! {

/// The lines, each non-empty one behind `indent`, with a newline between each two
/// neighbours and none at the end.
pub open spec fn indented(lines: Seq<Seq<char>>, indent: Seq<char>) -> Seq<char>
    decreases lines.len(),
{
    if lines.len() == 0 {
        Seq::empty()
    } else {
        let before = indented(lines.drop_last(), indent);
        let separated = if lines.len() > 1 {
            before.push('\n')
        } else {
            before
        };
        if lines.last().len() > 0 {
            separated + indent + lines.last()
        } else {
            separated
        }
    }
}

/// What a piece of content becomes when it is written behind `indent`.
///
/// Empty content is an empty line if a newline is asked for, else nothing. Other
/// content is indented line by line; a newline follows it if one is asked for and
/// the content did not end with one.
pub open spec fn rendered(content: Seq<char>, indent: Seq<char>, newline: bool) -> Seq<char> {
    if content.len() == 0 {
        if newline {
            seq!['\n']
        } else {
            Seq::empty()
        }
    } else {
        let body = indented(split_lines(content), indent);
        if newline && !ends_with_newline(content) {
            body.push('\n')
        } else {
            body
        }
    }
}

/// The texts of a list of parameters, each a type and a name.
pub open spec fn parameter_views(parameters: Seq<(&str, &str)>) -> Seq<(Seq<char>, Seq<char>)> {
    Seq::new(parameters.len(), |i: int| (parameters[i].0@, parameters[i].1@))
}

/// The parameter list of a C function: `(void)` where there is none, else the
/// parameters as `type name`, separated by commas, in parentheses.
pub open spec fn parameter_list(parameters: Seq<(Seq<char>, Seq<char>)>) -> Seq<char> {
    if parameters.len() == 0 {
        "(void)"@
    } else {
        "("@ + join(
            Seq::new(parameters.len(), |i: int| parameters[i].0 + " "@ + parameters[i].1),
            ", "@,
        ) + ")"@
    }
}

/// The lines of a block comment, each behind ` * `.
pub open spec fn comment_lines(lines: Seq<Seq<char>>) -> Seq<Seq<char>> {
    Seq::new(lines.len(), |i: int| " * "@ + lines[i])
}

/// The state of a [`CodeWriter`].
pub struct WriterView {
    /// Everything written so far.
    pub output: Seq<char>,
    pub indent_level: nat,
    /// The number of spaces per level of indentation.
    pub indent_size: nat,
    /// Whether `write` ends its content with a newline.
    pub with_newline: bool,
}

impl WriterView {
    /// What stands before each non-empty line: `indent_size` spaces per level.
    pub open spec fn indent(self) -> Seq<char> {
        repeat(repeat(" "@, self.indent_size), self.indent_level)
    }

    /// The writer after `text` was added to its output as it is.
    pub open spec fn append(self, text: Seq<char>) -> WriterView {
        WriterView { output: self.output + text, ..self }
    }

    /// The writer after `write`.
    pub open spec fn write(self, content: Seq<char>) -> WriterView {
        self.append(rendered(content, self.indent(), self.with_newline))
    }

    /// The writer after `writeln`.
    pub open spec fn writeln(self, content: Seq<char>) -> WriterView {
        self.append(rendered(content, self.indent(), true))
    }

    /// The writer after each of the lines was written with `writeln`.
    pub open spec fn writeln_each(self, lines: Seq<Seq<char>>) -> WriterView
        decreases lines.len(),
    {
        if lines.len() == 0 {
            self
        } else {
            self.writeln_each(lines.drop_last()).writeln(lines.last())
        }
    }

    /// The writer after `write_comment`: a line comment for a comment of one line, a
    /// block comment for one of several.
    pub open spec fn write_comment(self, comment: Seq<char>) -> WriterView {
        if comment.contains('\n') {
            self.writeln("/*"@).writeln_each(comment_lines(split_lines(comment))).writeln(" */"@)
        } else {
            self.writeln("// "@ + comment)
        }
    }

    /// A writer that has written nothing, with four spaces per level and a newline
    /// after each `write`.
    pub open spec fn initial() -> WriterView {
        WriterView { output: Seq::empty(), indent_level: 0, indent_size: 4, with_newline: true }
    }

    /// The writer one level deeper.
    pub open spec fn indent_more(self) -> WriterView {
        WriterView { indent_level: self.indent_level + 1, ..self }
    }

    /// The writer one level back; at level 0 it stays as it is.
    pub open spec fn indent_less(self) -> WriterView {
        WriterView {
            indent_level: if self.indent_level > 0 {
                (self.indent_level - 1) as nat
            } else {
                0
            },
            ..self
        }
    }

    /// The writer after `newline`.
    pub open spec fn newline(self) -> WriterView {
        self.append(seq!['\n'])
    }

    /// The writer after `write_separator`.
    pub open spec fn write_separator(self, title: Seq<char>) -> WriterView {
        self.writeln("/* "@ + title + " */"@)
    }

    /// The writer after `begin_struct`.
    pub open spec fn begin_struct(self, name: Seq<char>) -> WriterView {
        self.writeln("struct "@ + name + " {"@)
    }

    /// The writer after `end_struct`.
    pub open spec fn end_struct(self) -> WriterView {
        self.writeln("};"@)
    }

    /// The writer after `begin_enum`.
    pub open spec fn begin_enum(self, name: Seq<char>) -> WriterView {
        self.writeln("enum "@ + name + " {"@)
    }

    /// The writer after `end_enum`.
    pub open spec fn end_enum(self) -> WriterView {
        self.writeln("};"@)
    }

    /// The writer after `write_enum_member`.
    pub open spec fn write_enum_member(self, name: Seq<char>, value: Option<Seq<char>>) -> WriterView {
        self.writeln(
            match value {
                Some(v) => "    "@ + name + " = "@ + v + ","@,
                None => "    "@ + name + ","@,
            },
        )
    }

    /// The writer after `begin_function`.
    pub open spec fn begin_function(
        self,
        ret_type: Seq<char>,
        name: Seq<char>,
        parameters: Seq<(Seq<char>, Seq<char>)>,
    ) -> WriterView {
        self.writeln(ret_type + " "@ + name + parameter_list(parameters) + " {"@)
    }

    /// The writer after `end_function`.
    pub open spec fn end_function(self) -> WriterView {
        self.writeln("}"@)
    }

    /// The writer after `write_variable`.
    pub open spec fn write_variable(
        self,
        var_type: Seq<char>,
        var_name: Seq<char>,
        comment: Option<Seq<char>>,
    ) -> WriterView {
        (match comment {
            Some(c) => self.write_comment(c),
            None => self,
        }).writeln(var_type + " "@ + var_name + ";"@)
    }

    /// The writer after `write_include`.
    pub open spec fn write_include(self, header: Seq<char>, is_system: bool) -> WriterView {
        self.writeln(
            if is_system {
                "#include <"@ + header + ">"@
            } else {
                "#include \""@ + header + "\""@
            },
        )
    }

    /// The writer after `write_define`.
    pub open spec fn write_define(self, name: Seq<char>, value: Option<Seq<char>>) -> WriterView {
        self.writeln(
            match value {
                Some(v) => "#define "@ + name + " "@ + v,
                None => "#define "@ + name,
            },
        )
    }

    /// The writer after `write_ifdef`.
    pub open spec fn write_ifdef(self, name: Seq<char>) -> WriterView {
        self.writeln("#ifdef "@ + name)
    }

    /// The writer after `write_ifndef`.
    pub open spec fn write_ifndef(self, name: Seq<char>) -> WriterView {
        self.writeln("#ifndef "@ + name)
    }

    /// The writer after `write_endif`.
    pub open spec fn write_endif(self, comment: Option<Seq<char>>) -> WriterView {
        self.writeln(
            match comment {
                Some(c) => "#endif // "@ + c,
                None => "#endif"@,
            },
        )
    }

    /// The writer after `write_typedef_struct`.
    pub open spec fn write_typedef_struct(self, name: Seq<char>) -> WriterView {
        self.writeln("typedef struct "@ + name + " "@ + name + ";"@)
    }

    /// The writer after `write_function_declaration`.
    pub open spec fn write_function_declaration(
        self,
        ret_type: Seq<char>,
        name: Seq<char>,
        parameters: Seq<(Seq<char>, Seq<char>)>,
    ) -> WriterView {
        self.writeln(ret_type + " "@ + name + parameter_list(parameters) + ";"@)
    }
}


/// A writer of indented source text.
pub struct CodeWriter {
    buffer: String,
    indent_level: usize,
    indent_size: usize,
    with_newline: bool,
}

impl View for CodeWriter {
    type V = WriterView;

    closed spec fn view(&self) -> WriterView {
        WriterView {
            output: self.buffer@,
            indent_level: self.indent_level as nat,
            indent_size: self.indent_size as nat,
            with_newline: self.with_newline,
        }
    }
}

impl CodeWriter {
    /// A writer with nothing written, four spaces per level, and a newline after
    /// each `write`.
    pub fn new() -> (writer: Self)
        ensures
            writer@ == WriterView::initial(),
    {
        CodeWriter { buffer: String::new(), indent_level: 0, indent_size: 4, with_newline: true }
    }

    /// A writer with nothing written and the given settings.
    pub fn with_options(indent_size: usize, with_newline: bool) -> (writer: Self)
        ensures
            writer@ == (WriterView {
                output: Seq::empty(),
                indent_level: 0,
                indent_size: indent_size as nat,
                with_newline,
            }),
    {
        CodeWriter { buffer: String::new(), indent_level: 0, indent_size, with_newline }
    }

    /// Everything written so far.
    pub fn output(&self) -> (out: &str)
        ensures
            out@ == self@.output,
    {
        self.buffer.as_str()
    }

    /// Ends the writing and hands out the text.
    pub fn into_string(self) -> (out: String)
        ensures
            out@ == self@.output,
    {
        self.buffer
    }

    /// Sets whether `write` ends its content with a newline.
    pub fn set_with_newline(&mut self, with_newline: bool)
        ensures
            final(self)@ == (WriterView { with_newline, ..old(self)@ }),
    {
        self.with_newline = with_newline;
    }

    /// Whether `write` ends its content with a newline.
    pub fn with_newline(&self) -> (r: bool)
        ensures
            r == self@.with_newline,
    {
        self.with_newline
    }

    /// Sets the number of spaces per level of indentation.
    pub fn set_indent_size(&mut self, indent_size: usize)
        ensures
            final(self)@ == (WriterView { indent_size: indent_size as nat, ..old(self)@ }),
    {
        self.indent_size = indent_size;
    }

    /// The number of spaces per level of indentation.
    pub fn indent_size(&self) -> (r: usize)
        ensures
            r == self@.indent_size,
    {
        self.indent_size
    }

    /// Goes one level deeper.
    pub fn indent(&mut self)
        requires
            old(self)@.indent_level < usize::MAX,
        ensures
            final(self)@ == old(self)@.indent_more(),
    {
        self.indent_level += 1;
    }

    /// Goes one level back; at level 0 nothing changes.
    pub fn dedent(&mut self)
        ensures
            final(self)@ == old(self)@.indent_less(),
    {
        if self.indent_level > 0 {
            self.indent_level -= 1;
        }
    }

    /// The level of indentation.
    pub fn indent_level(&self) -> (r: usize)
        ensures
            r == self@.indent_level,
    {
        self.indent_level
    }

    /// Adds `text` to the output as it is: no indentation, no newline.
    pub fn write_raw(&mut self, text: &str)
        ensures
            final(self)@ == old(self)@.append(text@),
    {
        self.buffer.append(text);
    }

    /// Writes content behind the current indentation, with a newline after it if
    /// `newline` asks for one and the content did not end with one.
    fn put(&mut self, content: &str, newline: bool)
        ensures
            final(self)@ == old(self)@.append(rendered(content@, old(self)@.indent(), newline)),
    {
        let chars = chars_of(content);
        if chars.len() == 0 {
            if newline {
                self.buffer.push('\n');
            }
            assert(self@.output =~= old(self)@.output + rendered(
                content@,
                old(self)@.indent(),
                newline,
            ));
            return ;
        }
        let lines = lines_of(&chars);
        let unit = repeat_str(" ", self.indent_size);
        let indent = repeat_str(unit.as_str(), self.indent_level);
        let ghost all = split_lines(content@);
        let mut i: usize = 0;
        while i < lines.len()
            invariant
                i <= lines.len(),
                texts(lines@) == all,
                indent@ == old(self)@.indent(),
                self@ == old(self)@.append(indented(all.take(i as int), indent@)),
            decreases lines.len() - i,
        {
            let ghost next = all.take(i + 1);
            assert(next.drop_last() =~= all.take(i as int));
            if i > 0 {
                self.buffer.push('\n');
            }
            let line = &lines[i];
            if line.len() > 0 {
                self.buffer.append(indent.as_str());
                push_chars(&mut self.buffer, line, 0, line.len());
            }
            assert(self@.output =~= old(self)@.output + indented(next, indent@));
            i += 1;
        }
        assert(all.take(lines.len() as int) =~= all);
        if newline && !has_final_newline(&chars) {
            self.buffer.push('\n');
        }
    }

    /// Writes content behind the current indentation, line by line. A newline follows
    /// if the writer is set to add one and the content did not end with one.
    pub fn write(&mut self, content: &str) -> (r: Result<(), CodeGenError>)
        ensures
            r is Ok,
            final(self)@ == old(self)@.write(content@),
    {
        let newline = self.with_newline;
        self.put(content, newline);
        Ok(())
    }

    /// Writes content as `write` does, with a newline after it whatever the setting.
    pub fn writeln(&mut self, content: &str) -> (r: Result<(), CodeGenError>)
        ensures
            r is Ok,
            final(self)@ == old(self)@.writeln(content@),
    {
        self.put(content, true);
        Ok(())
    }

    /// Writes a newline.
    pub fn newline(&mut self) -> (r: Result<(), CodeGenError>)
        ensures
            r is Ok,
            final(self)@ == old(self)@.newline(),
    {
        self.buffer.push('\n');
        assert(self@.output =~= old(self)@.output + seq!['\n']);
        Ok(())
    }

    /// Writes a comment: `// ...` for one line, a block comment for several.
    pub fn write_comment(&mut self, comment: &str) -> (r: Result<(), CodeGenError>)
        ensures
            r is Ok,
            final(self)@ == old(self)@.write_comment(comment@),
    {
        let chars = chars_of(comment);
        let mut several = false;
        let mut k: usize = 0;
        while k < chars.len()
            invariant
                k <= chars.len(),
                several == chars@.take(k as int).contains('\n'),
            decreases chars.len() - k,
        {
            if chars[k] == '\n' {
                assert(chars@.take(k + 1)[k as int] == '\n');
                several = true;
            }
            k += 1;
        }
        assert(chars@.take(chars.len() as int) =~= chars@);
        if several {
            self.put("/*", true);
            let lines = lines_of(&chars);
            let ghost all = comment_lines(split_lines(comment@));
            let ghost start = self@;
            let mut i: usize = 0;
            while i < lines.len()
                invariant
                    i <= lines.len(),
                    texts(lines@) == split_lines(comment@),
                    all == comment_lines(split_lines(comment@)),
                    self@ == start.writeln_each(all.take(i as int)),
                decreases lines.len() - i,
            {
                let ghost next = all.take(i + 1);
                assert(next.drop_last() =~= all.take(i as int));
                let mut text = " * ".to_owned();
                push_chars(&mut text, &lines[i], 0, lines[i].len());
                assert(lines@[i as int]@.subrange(0, lines@[i as int]@.len() as int)
                    =~= lines@[i as int]@);
                self.put(text.as_str(), true);
                i += 1;
            }
            assert(all.take(lines.len() as int) =~= all);
            self.put(" */", true);
        } else {
            let text = "// ".to_owned().concat(comment);
            self.put(text.as_str(), true);
        }
        Ok(())
    }

    /// Writes a separator comment: the title between `/*` and `*/`.
    pub fn write_separator(&mut self, title: &str, _width: usize) -> (r: Result<(), CodeGenError>)
        ensures
            r is Ok,
            final(self)@ == old(self)@.write_separator(title@),
    {
        let text = "/* ".to_owned().concat(title).concat(" */");
        self.put(text.as_str(), true);
        Ok(())
    }

    /// Begins the definition of a struct.
    pub fn begin_struct(&mut self, name: &str) -> (r: Result<(), CodeGenError>)
        ensures
            r is Ok,
            final(self)@ == old(self)@.begin_struct(name@),
    {
        let text = "struct ".to_owned().concat(name).concat(" {");
        self.put(text.as_str(), true);
        Ok(())
    }

    /// Ends the definition of a struct.
    pub fn end_struct(&mut self) -> (r: Result<(), CodeGenError>)
        ensures
            r is Ok,
            final(self)@ == old(self)@.end_struct(),
    {
        self.put("};", true);
        Ok(())
    }

    /// Begins the definition of an enum.
    pub fn begin_enum(&mut self, name: &str) -> (r: Result<(), CodeGenError>)
        ensures
            r is Ok,
            final(self)@ == old(self)@.begin_enum(name@),
    {
        let text = "enum ".to_owned().concat(name).concat(" {");
        self.put(text.as_str(), true);
        Ok(())
    }

    /// Ends the definition of an enum.
    pub fn end_enum(&mut self) -> (r: Result<(), CodeGenError>)
        ensures
            r is Ok,
            final(self)@ == old(self)@.end_enum(),
    {
        self.put("};", true);
        Ok(())
    }

    /// Writes a member of an enum, with its value if it has one.
    pub fn write_enum_member(&mut self, name: &str, value: Option<&str>) -> (r: Result<
        (),
        CodeGenError,
    >)
        ensures
            r is Ok,
            final(self)@ == old(self)@.write_enum_member(name@, optional_text(value)),
    {
        let text = match value {
            Some(v) => "    ".to_owned().concat(name).concat(" = ").concat(v).concat(","),
            None => "    ".to_owned().concat(name).concat(","),
        };
        self.put(text.as_str(), true);
        Ok(())
    }

    /// The parameter list of a function.
    fn parameters(args: &[(&str, &str)]) -> (out: String)
        ensures
            out@ == parameter_list(parameter_views(args@)),
    {
        if args.len() == 0 {
            return "(void)".to_owned();
        }
        let ghost views = parameter_views(args@);
        let ghost parts = Seq::new(views.len(), |i: int| views[i].0 + " "@ + views[i].1);
        let mut list = String::new();
        let mut i: usize = 0;
        while i < args.len()
            invariant
                i <= args.len(),
                views == parameter_views(args@),
                parts == Seq::new(views.len(), |i: int| views[i].0 + " "@ + views[i].1),
                list@ == join(parts.take(i as int), ", "@),
            decreases args.len() - i,
        {
            let ghost next = parts.take(i + 1);
            assert(next.drop_last() =~= parts.take(i as int));
            if i > 0 {
                list.append(", ");
            }
            list.append(args[i].0);
            list.append(" ");
            list.append(args[i].1);
            i += 1;
        }
        assert(parts.take(args.len() as int) =~= parts);
        "(".to_owned().concat(list.as_str()).concat(")")
    }

    /// Begins the definition of a function.
    pub fn begin_function(&mut self, ret_type: &str, name: &str, args: &[(&str, &str)]) -> (r:
        Result<(), CodeGenError>)
        ensures
            r is Ok,
            final(self)@ == old(self)@.begin_function(ret_type@, name@, parameter_views(args@)),
    {
        let list = Self::parameters(args);
        let text = ret_type.to_owned().concat(" ").concat(name).concat(list.as_str()).concat(" {");
        self.put(text.as_str(), true);
        Ok(())
    }

    /// Ends the definition of a function.
    pub fn end_function(&mut self) -> (r: Result<(), CodeGenError>)
        ensures
            r is Ok,
            final(self)@ == old(self)@.end_function(),
    {
        self.put("}", true);
        Ok(())
    }

    /// Writes the declaration of a variable, below its comment if it has one.
    pub fn write_variable(&mut self, var_type: &str, var_name: &str, comment: Option<&str>) -> (r:
        Result<(), CodeGenError>)
        ensures
            r is Ok,
            final(self)@ == old(self)@.write_variable(var_type@, var_name@, optional_text(comment)),
    {
        if let Some(c) = comment {
            let _ = self.write_comment(c);
        }
        let text = var_type.to_owned().concat(" ").concat(var_name).concat(";");
        self.put(text.as_str(), true);
        Ok(())
    }

    /// Writes an `#include` directive, in angle brackets for a system header and in
    /// quotes for any other.
    pub fn write_include(&mut self, header: &str, is_system: bool) -> (r: Result<(), CodeGenError>)
        ensures
            r is Ok,
            final(self)@ == old(self)@.write_include(header@, is_system),
    {
        let text = if is_system {
            "#include <".to_owned().concat(header).concat(">")
        } else {
            "#include \"".to_owned().concat(header).concat("\"")
        };
        self.put(text.as_str(), true);
        Ok(())
    }

    /// Writes a `#define` directive, with its value if it has one.
    pub fn write_define(&mut self, name: &str, value: Option<&str>) -> (r: Result<(), CodeGenError>)
        ensures
            r is Ok,
            final(self)@ == old(self)@.write_define(name@, optional_text(value)),
    {
        let text = match value {
            Some(v) => "#define ".to_owned().concat(name).concat(" ").concat(v),
            None => "#define ".to_owned().concat(name),
        };
        self.put(text.as_str(), true);
        Ok(())
    }

    /// Writes an `#ifdef` directive.
    pub fn write_ifdef(&mut self, name: &str) -> (r: Result<(), CodeGenError>)
        ensures
            r is Ok,
            final(self)@ == old(self)@.write_ifdef(name@),
    {
        let text = "#ifdef ".to_owned().concat(name);
        self.put(text.as_str(), true);
        Ok(())
    }

    /// Writes an `#ifndef` directive.
    pub fn write_ifndef(&mut self, name: &str) -> (r: Result<(), CodeGenError>)
        ensures
            r is Ok,
            final(self)@ == old(self)@.write_ifndef(name@),
    {
        let text = "#ifndef ".to_owned().concat(name);
        self.put(text.as_str(), true);
        Ok(())
    }

    /// Writes an `#endif` directive, with a comment behind it if it has one.
    pub fn write_endif(&mut self, comment: Option<&str>) -> (r: Result<(), CodeGenError>)
        ensures
            r is Ok,
            final(self)@ == old(self)@.write_endif(optional_text(comment)),
    {
        let text = match comment {
            Some(c) => "#endif // ".to_owned().concat(c),
            None => "#endif".to_owned(),
        };
        self.put(text.as_str(), true);
        Ok(())
    }

    /// Writes the `typedef` that lets a struct go by its bare name.
    pub fn write_typedef_struct(&mut self, name: &str) -> (r: Result<(), CodeGenError>)
        ensures
            r is Ok,
            final(self)@ == old(self)@.write_typedef_struct(name@),
    {
        let text = "typedef struct ".to_owned().concat(name).concat(" ").concat(name).concat(";");
        self.put(text.as_str(), true);
        Ok(())
    }

    /// Writes the declaration of a function.
    pub fn write_function_declaration(
        &mut self,
        ret_type: &str,
        name: &str,
        args: &[(&str, &str)],
    ) -> (r: Result<(), CodeGenError>)
        ensures
            r is Ok,
            final(self)@ == old(self)@.write_function_declaration(
                ret_type@,
                name@,
                parameter_views(args@),
            ),
    {
        let list = Self::parameters(args);
        let text = ret_type.to_owned().concat(" ").concat(name).concat(list.as_str()).concat(";");
        self.put(text.as_str(), true);
        Ok(())
    }

    /// Nothing is held back, so there is nothing to flush: the writer stays as it is.
    pub fn flush(&mut self) -> (r: Result<(), CodeGenError>)
        ensures
            r is Ok,
            final(self)@ == old(self)@,
    {
        Ok(())
    }
}

} // verus!
