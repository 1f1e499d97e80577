use codegen::error::CodeGenError;
use codegen::markers::{classify_line, Marker, Region};
use codegen::scanner::{scan, Capture, Scanner};
use codegen::text::chars_of;
use codegen::user_section::UserSectionManager;

fn named(name: &str, content: &str) -> Capture {
    Capture {
        region: Region::Named(name.to_string()),
        content: content.to_string(),
    }
}

fn partial(number: u32, content: &str) -> Capture {
    Capture {
        region: Region::Partial(number),
        content: content.to_string(),
    }
}

#[test]
fn nested_partial_is_rejected_at_its_line() {
    let result = scan("//!begin 1\n//!begin 2\n//!end 2\n//!end 1\n");
    assert_eq!(
        result,
        Err(CodeGenError::NestedSection {
            line: 2,
            section: "partial section 1".to_string(),
        })
    );
}

#[test]
fn nested_named_inside_partial_names_the_open_region() {
    let result = scan("text\n//!begin 7\n  /* USER CODE BEGIN Init */\n");
    assert_eq!(
        result,
        Err(CodeGenError::NestedSection {
            line: 3,
            section: "partial section 7".to_string(),
        })
    );
}

#[test]
fn nested_partial_inside_named_names_the_open_region() {
    let result = scan("/* USER CODE BEGIN Init */\nint x;\n//!begin 3\n");
    assert_eq!(
        result,
        Err(CodeGenError::NestedSection {
            line: 3,
            section: "Init".to_string(),
        })
    );
}

#[test]
fn mismatched_partial_end_reports_both_numbers() {
    let result = scan("//!begin 1\ncontent\n//!end 2\n");
    assert_eq!(
        result,
        Err(CodeGenError::MismatchedSection {
            line: 3,
            expected: "1".to_string(),
            found: "2".to_string(),
        })
    );
}

#[test]
fn mismatched_named_end_reports_both_names() {
    let result = scan("/* USER CODE BEGIN A */\n/* USER CODE END B */\n");
    assert_eq!(
        result,
        Err(CodeGenError::MismatchedSection {
            line: 2,
            expected: "A".to_string(),
            found: "B".to_string(),
        })
    );
}

#[test]
fn unclosed_partial_is_rejected() {
    let result = scan("//!begin 1\ncontent\n");
    assert_eq!(
        result,
        Err(CodeGenError::UnclosedSection(
            "partial section 1".to_string()
        ))
    );
}

#[test]
fn unclosed_named_is_rejected_by_its_name() {
    let result = scan("/* USER CODE BEGIN Main */\nreturn 0;");
    assert_eq!(
        result,
        Err(CodeGenError::UnclosedSection("Main".to_string()))
    );
}

#[test]
fn stray_partial_end_is_invalid() {
    let result = scan("a\nb\n//!end 12\n");
    assert_eq!(
        result,
        Err(CodeGenError::InvalidSection(
            "Unexpected partial section end at line 3: no matching begin for '12'".to_string()
        ))
    );
}

#[test]
fn stray_named_end_is_invalid() {
    let result = scan("/* USER CODE END Tail */\n");
    assert_eq!(
        result,
        Err(CodeGenError::InvalidSection(
            "Unexpected user section end at line 1: no matching begin for 'Tail'".to_string()
        ))
    );
}

#[test]
fn end_of_the_other_kind_is_invalid() {
    let in_partial = scan("//!begin 1\n/* USER CODE END X */\n");
    assert_eq!(
        in_partial,
        Err(CodeGenError::InvalidSection(
            "Unexpected user section end at line 2: no matching begin for 'X'".to_string()
        ))
    );
    let in_named = scan("/* USER CODE BEGIN X */\n//!end 1\n");
    assert_eq!(
        in_named,
        Err(CodeGenError::InvalidSection(
            "Unexpected partial section end at line 2: no matching begin for '1'".to_string()
        ))
    );
}

#[test]
fn partial_number_out_of_range_is_invalid() {
    let result = scan("\n//!begin 4294967296\n//!end 4294967296\n");
    assert_eq!(
        result,
        Err(CodeGenError::InvalidSection(
            "Partial section number out of range at line 2: '4294967296'".to_string()
        ))
    );
}

#[test]
fn largest_partial_number_is_accepted() {
    let result = scan("//!begin 4294967295\nx\n//!end 4294967295\n");
    assert_eq!(result, Ok(vec![partial(4294967295, "x\n")]));
}

#[test]
fn leading_zeros_do_not_change_the_number() {
    let result = scan("//!begin 007\nx\n//!end 7\n");
    assert_eq!(result, Ok(vec![partial(7, "x\n")]));
}

#[test]
fn captures_come_in_the_order_of_their_end_markers() {
    let text = "/* USER CODE BEGIN A */\na\n/* USER CODE END A */\n//!begin 2\nb\n\nc\n//!end 2\n/* USER CODE BEGIN A */\n/* USER CODE END A */\n";
    assert_eq!(
        scan(text),
        Ok(vec![named("A", "a\n"), partial(2, "b\n\nc\n"), named("A", "")])
    );
}

#[test]
fn text_outside_regions_is_dropped() {
    assert_eq!(scan("int main() {\n}\n"), Ok(vec![]));
    assert_eq!(scan(""), Ok(vec![]));
}

#[test]
fn lines_end_at_newline_or_carriage_return_newline() {
    let result = scan("//!begin 1\r\nfirst\r\nsecond\nthird\r\r\n//!end 1\r\n");
    assert_eq!(
        result,
        Ok(vec![partial(1, "first\nsecond\nthird\r\n")])
    );
}

#[test]
fn last_line_needs_no_newline() {
    assert_eq!(
        scan("//!begin 1\nx\n//!end 1"),
        Ok(vec![partial(1, "x\n")])
    );
}

#[test]
fn markers_may_stand_between_blanks() {
    let result = scan(" \t/* USER CODE BEGIN Init */  \n    x = 1;\n\t/* USER CODE END Init */\t\n");
    assert_eq!(result, Ok(vec![named("Init", "    x = 1;\n")]));
}

#[test]
fn a_marker_inside_other_text_is_plain_text() {
    let text = "//!begin 1\nprintf(\"/* USER CODE BEGIN A */\");\n// see //!end 1 below\n//!end 1\n";
    assert_eq!(
        scan(text),
        Ok(vec![partial(
            1,
            "printf(\"/* USER CODE BEGIN A */\");\n// see //!end 1 below\n"
        )])
    );
}

#[test]
fn classify_named_markers() {
    assert_eq!(
        classify_line("/* USER CODE BEGIN Header_1 */"),
        Some(Marker::Begin(Region::Named("Header_1".to_string())))
    );
    assert_eq!(
        classify_line("   /* USER CODE END x */ "),
        Some(Marker::End(Region::Named("x".to_string())))
    );
    assert_eq!(classify_line("/* USER CODE BEGIN  */"), None);
    assert_eq!(classify_line("/* USER CODE BEGIN a b */"), None);
    assert_eq!(classify_line("/* USER CODE BEGIN a-b */"), None);
    assert_eq!(classify_line("/* USER CODE BEGIN \u{e9} */"), None);
    assert_eq!(classify_line("/* user code begin a */"), None);
    assert_eq!(classify_line("/* USER CODE BEGIN a*/"), None);
    assert_eq!(classify_line("/* USER CODE BEGIN a */ x"), None);
    assert_eq!(classify_line("x /* USER CODE BEGIN a */"), None);
    assert_eq!(classify_line("/* USER CODE BEGIN */"), None);
}

#[test]
fn classify_partial_markers() {
    assert_eq!(
        classify_line("//!begin 12"),
        Some(Marker::Begin(Region::Partial(12)))
    );
    assert_eq!(
        classify_line("\t//!end \t 0 "),
        Some(Marker::End(Region::Partial(0)))
    );
    assert_eq!(
        classify_line("//!begin 99999999999"),
        Some(Marker::OutOfRange("99999999999".to_string()))
    );
    assert_eq!(
        classify_line("//!end 4294967296"),
        Some(Marker::OutOfRange("4294967296".to_string()))
    );
    assert_eq!(classify_line("//!begin"), None);
    assert_eq!(classify_line("//!begin "), None);
    assert_eq!(classify_line("//!begin5"), None);
    assert_eq!(classify_line("//!begin 5a"), None);
    assert_eq!(classify_line("//!begin 5 6"), None);
    assert_eq!(classify_line("//!begin -5"), None);
    assert_eq!(classify_line("//!Begin 5"), None);
    assert_eq!(classify_line("// !begin 5"), None);
    assert_eq!(classify_line("//!ending 5"), None);
    assert_eq!(classify_line(""), None);
    assert_eq!(classify_line("   "), None);
}

#[test]
fn marker_texts_are_classified_as_themselves() {
    let regions = vec![
        Region::Named("Includes".to_string()),
        Region::Named("_".to_string()),
        Region::Partial(0),
        Region::Partial(10),
        Region::Partial(u32::MAX),
    ];
    for region in regions {
        assert_eq!(
            classify_line(&region.begin_marker()),
            Some(Marker::Begin(region.clone()))
        );
        assert_eq!(
            classify_line(&format!("        {}", region.end_marker())),
            Some(Marker::End(region.clone()))
        );
    }
}

#[test]
fn marker_texts_are_exact() {
    let named = Region::Named("Init".to_string());
    assert_eq!(named.begin_marker(), "/* USER CODE BEGIN Init */");
    assert_eq!(named.end_marker(), "/* USER CODE END Init */");
    assert_eq!(named.id_text(), "Init");
    assert_eq!(named.label(), "Init");
    let partial = Region::Partial(42);
    assert_eq!(partial.begin_marker(), "//!begin 42");
    assert_eq!(partial.end_marker(), "//!end 42");
    assert_eq!(partial.id_text(), "42");
    assert_eq!(partial.label(), "partial section 42");
}

#[test]
fn captured_partial_is_resolved_and_others_are_absent() {
    let mut manager = UserSectionManager::new();
    manager
        .capture_from_string("//!begin 1\nint counter = 0;\n//!end 1\n")
        .unwrap();
    assert_eq!(
        manager.get_partial_section_content(1),
        Some("int counter = 0;\n")
    );
    assert!(manager.has_partial_section(1));
    assert!(!manager.has_partial_section(2));
    assert_eq!(manager.get_partial_section_content(2), None);
}

#[test]
fn failed_capture_changes_nothing() {
    let mut manager = UserSectionManager::new();
    manager
        .capture_from_string("//!begin 1\nold\n//!end 1\n")
        .unwrap();
    let result = manager.capture_from_string(
        "//!begin 1\nnew\n//!end 1\n/* USER CODE BEGIN A */\na\n/* USER CODE END A */\n//!begin 2\n",
    );
    assert_eq!(
        result,
        Err(CodeGenError::UnclosedSection(
            "partial section 2".to_string()
        ))
    );
    assert_eq!(manager.get_partial_section_content(1), Some("old\n"));
    assert_eq!(manager.get_section_content("A"), None);
    assert!(!manager.has_partial_section(2));
}

#[test]
fn later_capture_takes_the_place_of_the_earlier() {
    let mut manager = UserSectionManager::new();
    manager
        .capture_from_string("//!begin 1\none\n//!end 1\n//!begin 2\ntwo\n//!end 2\n")
        .unwrap();
    manager
        .capture_from_string("//!begin 1\nuno\n//!end 1\n//!begin 1\neins\n//!end 1\n")
        .unwrap();
    assert_eq!(manager.get_partial_section_content(1), Some("eins\n"));
    assert_eq!(manager.get_partial_section_content(2), Some("two\n"));
}

#[test]
fn capture_does_not_need_a_definition() {
    let mut manager = UserSectionManager::new();
    manager
        .capture_from_string("/* USER CODE BEGIN Extra */\nkept\n/* USER CODE END Extra */\n")
        .unwrap();
    assert!(!manager.has_section("Extra"));
    assert_eq!(manager.get_section_content("Extra"), Some("kept\n"));
    assert_eq!(manager.captured_section_names(), vec!["Extra".to_string()]);
}

#[test]
fn scanner_takes_lines_one_by_one() {
    let begin = chars_of("//!begin 4");
    let text = chars_of("kept");
    let end = chars_of("//!end 4");

    let scanner = Scanner::new();
    let scanner = scanner.advance(None, &text, 1).unwrap();
    let scanner = scanner
        .advance(Some(Marker::Begin(Region::Partial(4))), &begin, 2)
        .unwrap();
    let scanner = scanner.advance(None, &text, 3).unwrap();
    let scanner = scanner.advance(None, &Vec::new(), 4).unwrap();
    let scanner = scanner
        .advance(Some(Marker::End(Region::Partial(4))), &end, 5)
        .unwrap();
    assert_eq!(scanner.finish(), Ok(vec![partial(4, "kept\n\n")]));

    let open = Scanner::new()
        .advance(Some(Marker::Begin(Region::Named("A".to_string()))), &begin, 9)
        .unwrap();
    assert_eq!(
        open.finish(),
        Err(CodeGenError::UnclosedSection("A".to_string()))
    );

    let refused = Scanner::new().advance(Some(Marker::OutOfRange("99999999999".to_string())), &begin, 7);
    assert_eq!(
        refused.err(),
        Some(CodeGenError::InvalidSection(
            "Partial section number out of range at line 7: '99999999999'".to_string()
        ))
    );
}
