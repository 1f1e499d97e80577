use codegen::code_writer::CodeWriter;
use codegen::error::CodeGenError;
use codegen::user_section::{ContentGenerator, FunctionGenerator, UserSection, UserSectionManager};

#[test]
fn default_content_is_written_between_markers() {
    let mut manager = UserSectionManager::new();
    manager.define_section_with_default("Includes", None, "#include <stdio.h>\n");
    manager.capture_from_string("").unwrap();
    let mut writer = CodeWriter::new();
    manager.write_section(&mut writer, "Includes").unwrap();
    assert_eq!(
        writer.output(),
        "/* USER CODE BEGIN Includes */\n#include <stdio.h>\n/* USER CODE END Includes */\n\n"
    );
}

#[test]
fn content_without_final_newline_gets_one() {
    let mut manager = UserSectionManager::new();
    manager.define_section_with_default("A", None, "int a;");
    let mut writer = CodeWriter::new();
    manager.write_section(&mut writer, "A").unwrap();
    assert_eq!(
        writer.output(),
        "/* USER CODE BEGIN A */\nint a;\n/* USER CODE END A */\n\n"
    );
}

#[test]
fn section_is_written_once_per_pass() {
    let mut manager = UserSectionManager::new();
    manager.define_section_with_default("X", Some("about X"), "x\n");
    let mut writer = CodeWriter::new();
    manager.write_section(&mut writer, "X").unwrap();
    let once = writer.output().to_string();
    assert!(manager.is_section_written("X"));
    manager.write_section(&mut writer, "X").unwrap();
    manager
        .write_section_without_description(&mut writer, "X")
        .unwrap();
    assert_eq!(writer.output(), once);
    assert_eq!(once.matches("/* USER CODE BEGIN X */").count(), 1);
    assert_eq!(once.matches("/* USER CODE END X */").count(), 1);
    assert_eq!(
        once,
        "/* about X */\n/* USER CODE BEGIN X */\nx\n/* USER CODE END X */\n\n"
    );
}

#[test]
fn reset_begins_a_new_pass() {
    let mut manager = UserSectionManager::new();
    manager.define_section_with_default("X", None, "x\n");
    let mut writer = CodeWriter::new();
    manager.write_section(&mut writer, "X").unwrap();
    manager.reset_written_tracker();
    assert!(!manager.is_section_written("X"));
    manager.write_section(&mut writer, "X").unwrap();
    assert_eq!(
        writer.output().matches("/* USER CODE BEGIN X */").count(),
        2
    );
}

#[test]
fn unknown_section_is_an_error_and_writes_nothing() {
    let mut manager = UserSectionManager::new();
    manager
        .capture_from_string("/* USER CODE BEGIN Ghost */\nboo\n/* USER CODE END Ghost */\n")
        .unwrap();
    let mut writer = CodeWriter::new();
    writer.writeln("before").unwrap();
    assert_eq!(
        manager.write_section(&mut writer, "Ghost"),
        Err(CodeGenError::UnknownSection("Ghost".to_string()))
    );
    assert_eq!(
        manager.write_section_without_description(&mut writer, "Ghost"),
        Err(CodeGenError::UnknownSection("Ghost".to_string()))
    );
    assert_eq!(
        manager.write_content_only(&mut writer, "Ghost"),
        Err(CodeGenError::UnknownSection("Ghost".to_string()))
    );
    assert_eq!(writer.output(), "before\n");
    assert!(!manager.is_section_written("Ghost"));
}

#[test]
fn variant_without_description_omits_the_comment() {
    let mut manager = UserSectionManager::new();
    manager.define_section_with_default("X", Some("about X"), "x\n");
    let mut writer = CodeWriter::new();
    manager
        .write_section_without_description(&mut writer, "X")
        .unwrap();
    assert_eq!(
        writer.output(),
        "/* USER CODE BEGIN X */\nx\n/* USER CODE END X */\n\n"
    );
    assert!(manager.is_section_written("X"));
}

#[test]
fn content_only_omits_the_markers() {
    let mut manager = UserSectionManager::new();
    manager.define_section_with_default("X", Some("about X"), "x");
    manager.define_section("Empty");
    let mut writer = CodeWriter::new();
    manager.write_content_only(&mut writer, "X").unwrap();
    assert_eq!(writer.output(), "x\n");
    manager.write_content_only(&mut writer, "X").unwrap();
    assert_eq!(writer.output(), "x\nx\n");
    manager.write_content_only(&mut writer, "Empty").unwrap();
    assert_eq!(writer.output(), "x\nx\n\n");
    assert!(!manager.is_section_written("X"));
}

#[test]
fn markers_are_indented_and_content_is_not() {
    let mut manager = UserSectionManager::new();
    manager.define_section_with_default("Body", Some("the body"), "    return 0;\n");
    let mut writer = CodeWriter::new();
    writer.indent();
    manager.write_section(&mut writer, "Body").unwrap();
    manager
        .write_partial_section(&mut writer, 3, Some("x"))
        .unwrap();
    assert_eq!(
        writer.output(),
        "    /* the body */\n    /* USER CODE BEGIN Body */\n    return 0;\n    /* USER CODE END Body */\n\n    //!begin 3\nx\n    //!end 3\n"
    );
}

#[test]
fn partial_section_prefers_the_capture() {
    let mut manager = UserSectionManager::new();
    manager
        .capture_from_string("//!begin 1\nkept\n//!end 1\n//!begin 2\n//!end 2\n")
        .unwrap();
    let mut writer = CodeWriter::new();
    manager
        .write_partial_section(&mut writer, 1, Some("default"))
        .unwrap();
    manager.write_partial_section(&mut writer, 2, None).unwrap();
    manager.write_partial_section(&mut writer, 3, None).unwrap();
    manager
        .write_partial_section(&mut writer, 4, Some("fallback\n"))
        .unwrap();
    manager.write_partial_section(&mut writer, 5, Some("")).unwrap();
    assert_eq!(
        writer.output(),
        "//!begin 1\nkept\n//!end 1\n//!begin 2\n\n//!end 2\n//!begin 3\n//!end 3\n//!begin 4\nfallback\n//!end 4\n//!begin 5\n\n//!end 5\n"
    );
}

#[test]
fn edited_content_comes_back_between_the_markers() {
    let edited = "/* USER CODE BEGIN Main */\n\n    // my own code\n    //!not a marker\n\n/* USER CODE END Main */\n";
    let mut manager = UserSectionManager::new();
    manager.define_section_with_default("Main", None, "    return 0;\n");
    manager.capture_from_string(edited).unwrap();
    let mut writer = CodeWriter::new();
    manager.write_section(&mut writer, "Main").unwrap();
    assert_eq!(
        writer.output(),
        "/* USER CODE BEGIN Main */\n\n    // my own code\n    //!not a marker\n\n/* USER CODE END Main */\n\n"
    );
}

#[test]
fn empty_capture_is_written_as_an_empty_line() {
    let mut manager = UserSectionManager::new();
    manager.define_section_with_default("Main", None, "    return 0;\n");
    manager
        .capture_from_string("/* USER CODE BEGIN Main */\n/* USER CODE END Main */\n")
        .unwrap();
    assert_eq!(manager.get_section_content("Main"), Some(""));
    let mut writer = CodeWriter::new();
    manager.write_section(&mut writer, "Main").unwrap();
    assert_eq!(
        writer.output(),
        "/* USER CODE BEGIN Main */\n\n/* USER CODE END Main */\n\n"
    );
}

fn write_template(manager: &mut UserSectionManager) -> String {
    let mut writer = CodeWriter::new();
    writer.writeln("/* Generated file */").unwrap();
    manager.write_section(&mut writer, "Header").unwrap();
    writer.write_include("stdio.h", true).unwrap();
    manager.write_section(&mut writer, "Includes").unwrap();
    writer.begin_function("int", "main", &[]).unwrap();
    writer.indent();
    manager
        .write_section_without_description(&mut writer, "Main")
        .unwrap();
    manager
        .write_partial_section(&mut writer, 1, Some("    return 0;"))
        .unwrap();
    writer.dedent();
    writer.end_function().unwrap();
    manager.write_section(&mut writer, "Main").unwrap();
    writer.into_string()
}

fn template_sections() -> UserSectionManager {
    let mut manager = UserSectionManager::new();
    manager.define_section_with_description("Header", "File header");
    manager.define_section_with_default("Includes", Some("More includes"), "#include <stdlib.h>\n");
    manager.define_section_with_default("Main", Some("Body"), "    puts(\"hi\");");
    manager
}

#[test]
fn scanning_an_output_and_writing_again_gives_the_same_output() {
    let mut first = template_sections();
    let output = write_template(&mut first);
    assert_eq!(
        output,
        "/* Generated file */\n/* File header */\n/* USER CODE BEGIN Header */\n\n/* USER CODE END Header */\n\n#include <stdio.h>\n/* More includes */\n/* USER CODE BEGIN Includes */\n#include <stdlib.h>\n/* USER CODE END Includes */\n\nint main(void) {\n    /* USER CODE BEGIN Main */\n    puts(\"hi\");\n    /* USER CODE END Main */\n\n    //!begin 1\n    return 0;\n    //!end 1\n}\n"
    );

    let mut second = template_sections();
    second.capture_from_string(&output).unwrap();
    assert_eq!(second.get_section_content("Header"), Some("\n"));
    assert_eq!(second.get_section_content("Main"), Some("    puts(\"hi\");\n"));
    assert_eq!(second.get_partial_section_content(1), Some("    return 0;\n"));
    assert_eq!(write_template(&mut second), output);
}

#[test]
fn redefinition_replaces_the_definition_in_place() {
    let mut manager = UserSectionManager::new();
    manager.define_section_with_default("A", Some("first"), "one\n");
    manager.define_section("B");
    manager.define_section_with_description("A", "second");
    assert_eq!(
        manager.section_names(),
        vec!["A".to_string(), "B".to_string()]
    );
    assert_eq!(manager.get_section_content("A"), None);
    let section = manager.sections().get("A").unwrap();
    assert_eq!(section.description.as_deref(), Some("second"));
    assert_eq!(section.default_content, None);
    assert_eq!(manager.sections().len(), 2);
}

#[test]
fn capture_takes_precedence_over_default() {
    let mut manager = UserSectionManager::new();
    manager.define_section_with_default("A", None, "default\n");
    assert!(manager.has_section("A"));
    assert!(!manager.has_section("B"));
    assert_eq!(manager.get_section_content("A"), Some("default\n"));
    assert_eq!(manager.get_section_content("B"), None);
    manager
        .capture_from_string("/* USER CODE BEGIN A */\nmine\n/* USER CODE END A */\n")
        .unwrap();
    assert_eq!(manager.get_section_content("A"), Some("mine\n"));
    assert_eq!(
        manager.captured_content().get("A").map(|s| s.as_str()),
        Some("mine\n")
    );
    manager.clear_captured_content();
    assert_eq!(manager.get_section_content("A"), Some("default\n"));
}

#[test]
fn clear_forgets_captures_and_the_pass() {
    let mut manager = UserSectionManager::new();
    manager.define_section("A");
    manager
        .capture_from_string("/* USER CODE BEGIN A */\na\n/* USER CODE END A */\n//!begin 1\n//!end 1\n")
        .unwrap();
    let mut writer = CodeWriter::new();
    manager.write_section(&mut writer, "A").unwrap();
    manager.clear_captured_content();
    assert!(manager.has_section("A"));
    assert!(!manager.is_section_written("A"));
    assert!(!manager.has_partial_section(1));
    assert!(manager.captured_section_names().is_empty());
    assert_eq!(manager.get_section_content("A"), None);
}

#[test]
fn stats_count_definitions_and_captures() {
    let mut manager = UserSectionManager::new();
    let empty = manager.get_stats();
    assert_eq!(
        (
            empty.total_sections,
            empty.captured_sections,
            empty.partial_sections,
            empty.sections_with_default
        ),
        (0, 0, 0, 0)
    );
    manager.define_section("A");
    manager.define_section_with_default("B", None, "");
    manager.define_section_with_default("C", Some("c"), "c\n");
    manager.define_section_with_description("D", "d");
    manager.define_section_with_default("A", None, "a\n");
    manager.define_section("C");
    manager
        .capture_from_string("/* USER CODE BEGIN A */\n/* USER CODE END A */\n/* USER CODE BEGIN Z */\n/* USER CODE END Z */\n//!begin 1\n//!end 1\n//!begin 2\n//!end 2\n//!begin 1\n//!end 1\n")
        .unwrap();
    let stats = manager.get_stats();
    assert_eq!(stats.total_sections, 4);
    assert_eq!(stats.captured_sections, 2);
    assert_eq!(stats.partial_sections, 2);
    assert_eq!(stats.sections_with_default, 2);
}

#[test]
fn validate_names_the_first_capture_without_definition() {
    let mut manager = UserSectionManager::new();
    manager.define_section("B");
    assert_eq!(manager.validate(), Ok(()));
    manager
        .capture_from_string("/* USER CODE BEGIN B */\n/* USER CODE END B */\n/* USER CODE BEGIN Y */\n/* USER CODE END Y */\n/* USER CODE BEGIN X */\n/* USER CODE END X */\n")
        .unwrap();
    assert_eq!(
        manager.validate(),
        Err(CodeGenError::UnknownSection(
            "Captured section 'Y' has no definition".to_string()
        ))
    );
    manager.define_section("Y");
    assert_eq!(
        manager.validate(),
        Err(CodeGenError::UnknownSection(
            "Captured section 'X' has no definition".to_string()
        ))
    );
    manager.define_section("X");
    assert_eq!(manager.validate(), Ok(()));
}

#[test]
fn generator_supplies_the_default_content() {
    let mut manager = UserSectionManager::new();
    let version = 3;
    manager.define_section_with_generator("Version", Some("Version"), move || {
        format!("#define VERSION {}\n", version)
    });
    assert_eq!(
        manager.get_section_content("Version"),
        Some("#define VERSION 3\n")
    );
    let section = manager.sections().get("Version").unwrap();
    assert!(!section.is_dynamic);
    assert_eq!(section.description.as_deref(), Some("Version"));
}

#[test]
fn function_generator_calls_its_function() {
    let generator = FunctionGenerator::new(|| "generated".to_string());
    assert_eq!(generator.generate(), "generated");
}

#[test]
fn section_constructors_fill_the_fields() {
    let plain = UserSection::new("A");
    assert_eq!(plain.name, "A");
    assert_eq!(plain.description, None);
    assert_eq!(plain.default_content, None);
    assert!(!plain.is_dynamic);

    let described = UserSection::with_description("B", "about B");
    assert_eq!(described.name, "B");
    assert_eq!(described.description.as_deref(), Some("about B"));
    assert_eq!(described.default_content, None);
    assert!(!described.is_dynamic);

    let with_default = UserSection::with_default("C", None, "c\n");
    assert_eq!(with_default.name, "C");
    assert_eq!(with_default.description, None);
    assert_eq!(with_default.default_content.as_deref(), Some("c\n"));
    assert!(!with_default.is_dynamic);

    let dynamic = UserSection::with_dynamic("D", Some("about D"));
    assert_eq!(dynamic.name, "D");
    assert_eq!(dynamic.description.as_deref(), Some("about D"));
    assert_eq!(dynamic.default_content, None);
    assert!(dynamic.is_dynamic);
}
