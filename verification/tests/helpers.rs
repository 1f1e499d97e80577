use codegen::error::CodeGenError;
use codegen::text::{chars_of, decimal_text, has_final_newline, lines_of, text_of};
use codegen::utils::{ensure_ends_with_newline, join_strings, repeat_str, to_valid_identifier};

fn lines(text: &str) -> Vec<String> {
    lines_of(&chars_of(text))
        .iter()
        .map(|line| text_of(line))
        .collect()
}

#[test]
fn decimal_text_of_numbers() {
    assert_eq!(decimal_text(0), "0");
    assert_eq!(decimal_text(7), "7");
    assert_eq!(decimal_text(10), "10");
    assert_eq!(decimal_text(4294967295), "4294967295");
    assert_eq!(decimal_text(u64::MAX), "18446744073709551615");
}

#[test]
fn characters_go_to_a_string_and_back() {
    let text = "a\u{e9}\u{4e2d}\u{1f600}\n";
    let chars = chars_of(text);
    assert_eq!(chars, vec!['a', '\u{e9}', '\u{4e2d}', '\u{1f600}', '\n']);
    assert_eq!(text_of(&chars), text);
    assert_eq!(text_of(&Vec::new()), "");
}

#[test]
fn final_newline_is_seen() {
    assert!(has_final_newline(&chars_of("a\n")));
    assert!(has_final_newline(&chars_of("\n")));
    assert!(!has_final_newline(&chars_of("a")));
    assert!(!has_final_newline(&chars_of("")));
    assert!(!has_final_newline(&chars_of("a\n ")));
}

#[test]
fn lines_are_split_as_the_standard_library_splits_them() {
    let samples = [
        "",
        "\n",
        "a",
        "a\n",
        "a\nb",
        "a\n\nb\n",
        "a\r\nb\r\n",
        "a\r",
        "a\r\r\n",
        "\r\n",
        "\r",
        "a\rb\nc",
        "\n\n\n",
        " \t\n x ",
    ];
    for sample in samples {
        let expected: Vec<String> = sample.lines().map(|line| line.to_string()).collect();
        assert_eq!(lines(sample), expected, "{:?}", sample);
    }
    assert_eq!(lines("a\r\nb\n\nc"), vec!["a", "b", "", "c"]);
}

#[test]
fn join_puts_the_separator_between() {
    let parts = vec!["a".to_string(), "".to_string(), "c".to_string()];
    assert_eq!(join_strings(&parts, ", "), "a, , c");
    assert_eq!(join_strings(&parts[..1], ", "), "a");
    assert_eq!(join_strings(&parts[..0], ", "), "");
    assert_eq!(join_strings(&parts, ""), "ac");
}

#[test]
fn repeat_makes_copies() {
    assert_eq!(repeat_str("ab", 3), "ababab");
    assert_eq!(repeat_str("ab", 0), "");
    assert_eq!(repeat_str("", 5), "");
    assert_eq!(repeat_str(" ", 4), "    ");
}

#[test]
fn identifiers_keep_what_fits() {
    assert_eq!(to_valid_identifier("hello world"), "hello_world");
    assert_eq!(to_valid_identifier("9lives"), "_lives");
    assert_eq!(to_valid_identifier("a9"), "a9");
    assert_eq!(to_valid_identifier("_x-y.z"), "_x_y_z");
    assert_eq!(to_valid_identifier(""), "");
    assert_eq!(to_valid_identifier("-"), "_");
    assert_eq!(to_valid_identifier("\u{e9}t\u{e9}"), "\u{e9}t\u{e9}");
    assert_eq!(to_valid_identifier("a\u{0663}"), "a\u{0663}");
    assert_eq!(to_valid_identifier("\u{0663}a"), "_a");
    assert_eq!(to_valid_identifier("a\u{1f600}b"), "a_b");
}

#[test]
fn newline_is_added_where_it_is_missing() {
    assert_eq!(ensure_ends_with_newline("a"), "a\n");
    assert_eq!(ensure_ends_with_newline("a\n"), "a\n");
    assert_eq!(ensure_ends_with_newline(""), "\n");
    assert_eq!(ensure_ends_with_newline("a\n\n"), "a\n\n");
    assert_eq!(ensure_ends_with_newline("a\r"), "a\r\n");
}

#[test]
fn messages_describe_the_errors() {
    assert_eq!(
        CodeGenError::Io("disk full".to_string()).message(),
        "IO error: disk full"
    );
    assert_eq!(
        CodeGenError::CaptureFailed {
            path: "out/main.c".to_string(),
            message: "denied".to_string(),
        }
        .message(),
        "Failed to capture user section from file: out/main.c"
    );
    assert_eq!(
        CodeGenError::InvalidSection("stray".to_string()).message(),
        "Invalid user section: stray"
    );
    assert_eq!(
        CodeGenError::NestedSection {
            line: 12,
            section: "Init".to_string(),
        }
        .message(),
        "Nested user section at line 12: already in section 'Init'"
    );
    assert_eq!(
        CodeGenError::MismatchedSection {
            line: 3,
            expected: "1".to_string(),
            found: "2".to_string(),
        }
        .message(),
        "Mismatched user section at line 3: expected '1', found '2'"
    );
    assert_eq!(
        CodeGenError::UnclosedSection("partial section 1".to_string()).message(),
        "Unclosed user section at end of file: 'partial section 1'"
    );
    assert_eq!(
        CodeGenError::UnknownSection("Main".to_string()).message(),
        "Unknown user section: 'Main'"
    );
    assert_eq!(
        CodeGenError::Other("odd".to_string()).message(),
        "Other error: odd"
    );
}
