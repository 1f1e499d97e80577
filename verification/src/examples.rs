//! Two generators that show the library at work: a C header and the C source that
//! goes with it, each with sections for its user.
//!
//! Each generator takes the text of its earlier output, if there is one, keeps
//! what the user wrote into the sections, and returns the new text.

use vstd::prelude::*;
use crate::code_writer::{parameter_views, CodeWriter, WriterView};
use crate::error::{CodeGenError, ErrorView};
use crate::guarantees::lemma_absorb_keeps;
use crate::scanner::scan_text;
use crate::text::optional_text;
use crate::user_section::{ManagerView, SectionView, UserSectionManager};

verus! {

/// A section with a description and, if given, default content.
pub open spec fn described(
    name: Seq<char>,
    description: Seq<char>,
    default_content: Option<Seq<char>>,
) -> SectionView {
    SectionView { name, description: Some(description), default_content, is_dynamic: false }
}

/// The sections of the example header.
pub open spec fn header_sections() -> ManagerView {
    ManagerView::empty().define(described("Header"@, "File header comment"@, None)).define(
        described(
            "Includes"@,
            "Additional includes"@,
            Some("#include <stdio.h>\n#include <stdlib.h>\n"@),
        ),
    ).define(
        described(
            "Typedefs"@,
            "User-defined types"@,
            Some("typedef unsigned int uint32_t;\ntypedef unsigned char uint8_t;\n"@),
        ),
    ).define(
        described(
            "Constants"@,
            "User-defined constants"@,
            Some("#define MAX_BUFFER_SIZE 1024\n#define VERSION \"1.0.0\"\n"@),
        ),
    ).define(
        SectionView {
            name: "Functions"@,
            description: None,
            default_content: None,
            is_dynamic: false,
        },
    )
}

/// The parameters of `example_process`.
pub open spec fn process_parameters() -> Seq<(Seq<char>, Seq<char>)> {
    seq![("ExampleStruct*"@, "data"@), ("uint32_t"@, "size"@)]
}

/// The example header, written by a manager that holds its sections.
pub open spec fn header_text(manager: ManagerView) -> Seq<char> {
    let w = manager.section_block(WriterView::initial(), "Header"@, true);
    let w = w.write_ifndef("EXAMPLE_H"@).write_define("EXAMPLE_H"@, None).newline();
    let w = manager.section_block(w, "Includes"@, true).newline();
    let w = manager.section_block(w, "Typedefs"@, true).newline();
    let w = manager.section_block(w, "Constants"@, true).newline();
    let w = w.write_separator("Struct definitions"@).write_typedef_struct(
        "ExampleStruct"@,
    ).begin_struct("ExampleStruct"@).indent_more();
    let w = w.write_variable("int"@, "id"@, Some("Unique identifier"@)).write_variable(
        "char*"@,
        "name"@,
        Some("Name string"@),
    ).write_variable("uint32_t"@, "flags"@, Some("Bit flags"@)).indent_less().end_struct().newline();
    let w = w.write_separator("Function declarations"@).write_function_declaration(
        "void"@,
        "example_init"@,
        Seq::empty(),
    ).write_function_declaration(
        "int"@,
        "example_process"@,
        process_parameters(),
    ).write_function_declaration("void"@, "example_cleanup"@, Seq::empty()).newline();
    let w = manager.section_block(w, "Functions"@, true);
    w.write_endif(Some("EXAMPLE_H"@)).output
}

/// The sections of the example source.
pub open spec fn source_sections() -> ManagerView {
    ManagerView::empty().define(described("Header"@, "File header comment"@, None)).define(
        described("Includes"@, "Additional includes"@, Some(""@)),
    ).define(
        described(
            "Globals"@,
            "Global variables"@,
            Some(
                "static ExampleStruct g_examples[MAX_BUFFER_SIZE];\nstatic int g_count = 0;\n"@,
            ),
        ),
    ).define(
        described(
            "InitFunction"@,
            "Initialization function implementation"@,
            Some(
                "    // Initialize the example system\n    g_count = 0;\n    memset(g_examples, 0, sizeof(g_examples));\n"@,
            ),
        ),
    ).define(
        described(
            "ProcessFunction"@,
            "Processing function implementation"@,
            Some(
                "    // Process the data\n    if (data == NULL || size == 0) {\n        return -1;\n    }\n    \n    // Copy data to global storage\n    if (g_count < MAX_BUFFER_SIZE) {\n        g_examples[g_count++] = *data;\n        return 0;\n    }\n    \n    return -1;\n"@,
            ),
        ),
    ).define(
        described(
            "CleanupFunction"@,
            "Cleanup function implementation"@,
            Some("    // Clean up resources\n    g_count = 0;\n"@),
        ),
    )
}

/// The example source, written by a manager that holds its sections.
pub open spec fn source_text(manager: ManagerView, header_name: Seq<char>) -> Seq<char> {
    let w = manager.section_block(WriterView::initial(), "Header"@, true);
    let w = w.write_include(header_name, false).write_include("string.h"@, true);
    let w = manager.section_block(w, "Includes"@, true).newline();
    let w = manager.section_block(w, "Globals"@, true).newline();
    let w = w.write_separator("Function implementations"@);
    let w = w.begin_function("void"@, "example_init"@, Seq::empty());
    let w = manager.section_block(w, "InitFunction"@, true).end_function().newline();
    let w = w.begin_function("int"@, "example_process"@, process_parameters());
    let w = manager.section_block(w, "ProcessFunction"@, true).end_function().newline();
    let w = w.begin_function("void"@, "example_cleanup"@, Seq::empty());
    manager.section_block(w, "CleanupFunction"@, true).end_function().output
}

/// What a generator returns: the text that a manager writes once it has captured
/// the earlier output, if there is one, or the error of that capture.
pub open spec fn generated(
    sections: ManagerView,
    capture: Option<Seq<char>>,
    text: spec_fn(ManagerView) -> Seq<char>,
) -> Result<Seq<char>, ErrorView> {
    match capture {
        Some(earlier) => match sections.capture(earlier) {
            Ok(manager) => Ok(text(manager)),
            Err(e) => Err(e),
        },
        None => Ok(text(sections)),
    }
}

/// The view of what a generator returns.
pub open spec fn generated_view(r: Result<String, CodeGenError>) -> Result<Seq<char>, ErrorView> {
    match r {
        Ok(text) => Ok(text@),
        Err(e) => Err(e@),
    }
}

proof fn lemma_header_names_differ()
    ensures
        "Header"@ != "Includes"@,
        "Header"@ != "Typedefs"@,
        "Header"@ != "Constants"@,
        "Header"@ != "Functions"@,
        "Includes"@ != "Typedefs"@,
        "Includes"@ != "Constants"@,
        "Includes"@ != "Functions"@,
        "Typedefs"@ != "Constants"@,
        "Typedefs"@ != "Functions"@,
        "Constants"@ != "Functions"@,
{
    reveal_strlit("Header");
    reveal_strlit("Includes");
    reveal_strlit("Typedefs");
    reveal_strlit("Constants");
    reveal_strlit("Functions");
    assert("Header"@[0] == 'H');
    assert("Includes"@[0] == 'I');
    assert("Typedefs"@[0] == 'T');
    assert("Constants"@[0] == 'C');
}

proof fn lemma_source_names_differ()
    ensures
        "Header"@ != "Includes"@,
        "Header"@ != "Globals"@,
        "Header"@ != "InitFunction"@,
        "Header"@ != "ProcessFunction"@,
        "Header"@ != "CleanupFunction"@,
        "Includes"@ != "Globals"@,
        "Includes"@ != "InitFunction"@,
        "Includes"@ != "ProcessFunction"@,
        "Includes"@ != "CleanupFunction"@,
        "Globals"@ != "InitFunction"@,
        "Globals"@ != "ProcessFunction"@,
        "Globals"@ != "CleanupFunction"@,
        "InitFunction"@ != "ProcessFunction"@,
        "InitFunction"@ != "CleanupFunction"@,
        "ProcessFunction"@ != "CleanupFunction"@,
{
    reveal_strlit("Header");
    reveal_strlit("Includes");
    reveal_strlit("Globals");
    reveal_strlit("InitFunction");
    reveal_strlit("ProcessFunction");
    reveal_strlit("CleanupFunction");
    assert("Header"@[0] == 'H');
    assert("Includes"@[0] == 'I');
    assert("InitFunction"@[2] == 'i');
    assert("Globals"@[0] == 'G');
    assert("ProcessFunction"@[0] == 'P');
}

/// Captures the earlier output, if there is one.
fn capture_earlier(manager: &mut UserSectionManager, capture: Option<&str>) -> (r: Result<
    (),
    CodeGenError,
>)
    ensures
        match capture {
            Some(earlier) => match old(manager)@.capture(earlier@) {
                Ok(after) => r is Ok && final(manager)@ == after,
                Err(e) => r matches Err(error) && error@ == e,
            },
            None => r is Ok && final(manager)@ == old(manager)@,
        },
        final(manager)@.sections == old(manager)@.sections,
        final(manager)@.written == old(manager)@.written,
{
    match capture {
        Some(earlier) => {
            proof {
                match scan_text(earlier@) {
                    Ok(captures) => {
                        lemma_absorb_keeps(manager@, captures);
                    },
                    Err(_) => {},
                }
            }
            manager.capture_from_string(earlier)
        },
        None => Ok(()),
    }
}

/// Generates the example header.
///
/// `capture` is the text of the earlier output, if there is one: what its user
/// wrote into the sections is kept. A capture that cannot be scanned is an error.
pub fn generate_example_header(capture: Option<&str>) -> (r: Result<String, CodeGenError>)
    ensures
        generated_view(r) == generated(
            header_sections(),
            optional_text(capture),
            |manager: ManagerView| header_text(manager),
        ),
{
    let mut manager = UserSectionManager::new();
    manager.define_section_with_description("Header", "File header comment");
    manager.define_section_with_default(
        "Includes",
        Some("Additional includes"),
        "#include <stdio.h>\n#include <stdlib.h>\n",
    );
    manager.define_section_with_default(
        "Typedefs",
        Some("User-defined types"),
        "typedef unsigned int uint32_t;\ntypedef unsigned char uint8_t;\n",
    );
    manager.define_section_with_default(
        "Constants",
        Some("User-defined constants"),
        "#define MAX_BUFFER_SIZE 1024\n#define VERSION \"1.0.0\"\n",
    );
    manager.define_section("Functions");
    match capture_earlier(&mut manager, capture) {
        Ok(()) => {},
        Err(e) => {
            return Err(e);
        },
    }
    proof {
        lemma_header_names_differ();
    }
    let mut writer = CodeWriter::new();
    let _ = manager.write_section(&mut writer, "Header");
    let _ = writer.write_ifndef("EXAMPLE_H");
    let _ = writer.write_define("EXAMPLE_H", None);
    let _ = writer.newline();
    let _ = manager.write_section(&mut writer, "Includes");
    let _ = writer.newline();
    let _ = manager.write_section(&mut writer, "Typedefs");
    let _ = writer.newline();
    let _ = manager.write_section(&mut writer, "Constants");
    let _ = writer.newline();
    let _ = writer.write_separator("Struct definitions", 80);
    let _ = writer.write_typedef_struct("ExampleStruct");
    let _ = writer.begin_struct("ExampleStruct");
    writer.indent();
    let _ = writer.write_variable("int", "id", Some("Unique identifier"));
    let _ = writer.write_variable("char*", "name", Some("Name string"));
    let _ = writer.write_variable("uint32_t", "flags", Some("Bit flags"));
    writer.dedent();
    let _ = writer.end_struct();
    let _ = writer.newline();
    let _ = writer.write_separator("Function declarations", 80);
    let none: [(&str, &str); 0] = [];
    let both: [(&str, &str); 2] = [("ExampleStruct*", "data"), ("uint32_t", "size")];
    let no_parameters = none.as_slice();
    let parameters = both.as_slice();
    assert(parameter_views(parameters@) =~= process_parameters());
    let _ = writer.write_function_declaration("void", "example_init", no_parameters);
    let _ = writer.write_function_declaration("int", "example_process", parameters);
    let _ = writer.write_function_declaration("void", "example_cleanup", no_parameters);
    let _ = writer.newline();
    let _ = manager.write_section(&mut writer, "Functions");
    let _ = writer.write_endif(Some("EXAMPLE_H"));
    let _ = writer.flush();
    Ok(writer.into_string())
}

/// Generates the example source that goes with the header `header_name`.
///
/// `capture` is the text of the earlier output, if there is one: what its user
/// wrote into the sections is kept. A capture that cannot be scanned is an error.
pub fn generate_example_source(header_name: &str, capture: Option<&str>) -> (r: Result<
    String,
    CodeGenError,
>)
    ensures
        generated_view(r) == generated(
            source_sections(),
            optional_text(capture),
            |manager: ManagerView| source_text(manager, header_name@),
        ),
{
    let mut manager = UserSectionManager::new();
    manager.define_section_with_description("Header", "File header comment");
    manager.define_section_with_default("Includes", Some("Additional includes"), "");
    manager.define_section_with_default(
        "Globals",
        Some("Global variables"),
        "static ExampleStruct g_examples[MAX_BUFFER_SIZE];\nstatic int g_count = 0;\n",
    );
    manager.define_section_with_default(
        "InitFunction",
        Some("Initialization function implementation"),
        "    // Initialize the example system\n    g_count = 0;\n    memset(g_examples, 0, sizeof(g_examples));\n",
    );
    manager.define_section_with_default(
        "ProcessFunction",
        Some("Processing function implementation"),
        "    // Process the data\n    if (data == NULL || size == 0) {\n        return -1;\n    }\n    \n    // Copy data to global storage\n    if (g_count < MAX_BUFFER_SIZE) {\n        g_examples[g_count++] = *data;\n        return 0;\n    }\n    \n    return -1;\n",
    );
    manager.define_section_with_default(
        "CleanupFunction",
        Some("Cleanup function implementation"),
        "    // Clean up resources\n    g_count = 0;\n",
    );
    match capture_earlier(&mut manager, capture) {
        Ok(()) => {},
        Err(e) => {
            return Err(e);
        },
    }
    proof {
        lemma_source_names_differ();
    }
    let none: [(&str, &str); 0] = [];
    let both: [(&str, &str); 2] = [("ExampleStruct*", "data"), ("uint32_t", "size")];
    let no_parameters = none.as_slice();
    let parameters = both.as_slice();
    assert(parameter_views(parameters@) =~= process_parameters());
    let mut writer = CodeWriter::new();
    let _ = manager.write_section(&mut writer, "Header");
    let _ = writer.write_include(header_name, false);
    let _ = writer.write_include("string.h", true);
    let _ = manager.write_section(&mut writer, "Includes");
    let _ = writer.newline();
    let _ = manager.write_section(&mut writer, "Globals");
    let _ = writer.newline();
    let _ = writer.write_separator("Function implementations", 80);
    let _ = writer.begin_function("void", "example_init", no_parameters);
    let _ = manager.write_section(&mut writer, "InitFunction");
    let _ = writer.end_function();
    let _ = writer.newline();
    let _ = writer.begin_function("int", "example_process", parameters);
    let _ = manager.write_section(&mut writer, "ProcessFunction");
    let _ = writer.end_function();
    let _ = writer.newline();
    let _ = writer.begin_function("void", "example_cleanup", no_parameters);
    let _ = manager.write_section(&mut writer, "CleanupFunction");
    let _ = writer.end_function();
    let _ = writer.flush();
    Ok(writer.into_string())
}

} // verus!
