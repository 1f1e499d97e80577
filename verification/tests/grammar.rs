use codegen::markers::{classify_line, Marker, Region};
use regex::Regex;

const BLANK: &str = r"[ \t\n\r\x0B\x0C]";

fn first_group(pattern: &Regex, line: &str) -> Option<String> {
    pattern
        .captures(line)
        .map(|found| found.get(1).unwrap().as_str().to_string())
}

struct Patterns {
    partial_begin: Regex,
    partial_end: Regex,
    named_begin: Regex,
    named_end: Regex,
}

fn patterns() -> Patterns {
    Patterns {
        partial_begin: Regex::new(&format!(r"\A{b}*//!begin{b}+([0-9]+){b}*\z", b = BLANK))
            .unwrap(),
        partial_end: Regex::new(&format!(r"\A{b}*//!end{b}+([0-9]+){b}*\z", b = BLANK)).unwrap(),
        named_begin: Regex::new(&format!(
            r"\A{b}*/\* USER CODE BEGIN ([A-Za-z0-9_]+) \*/{b}*\z",
            b = BLANK
        ))
        .unwrap(),
        named_end: Regex::new(&format!(
            r"\A{b}*/\* USER CODE END ([A-Za-z0-9_]+) \*/{b}*\z",
            b = BLANK
        ))
        .unwrap(),
    }
}

fn numbered(digits: String, begin: bool) -> Marker {
    match digits.parse::<u32>() {
        Ok(number) if begin => Marker::Begin(Region::Partial(number)),
        Ok(number) => Marker::End(Region::Partial(number)),
        Err(_) => Marker::OutOfRange(digits),
    }
}

fn by_patterns(patterns: &Patterns, line: &str) -> Option<Marker> {
    if let Some(digits) = first_group(&patterns.partial_begin, line) {
        Some(numbered(digits, true))
    } else if let Some(name) = first_group(&patterns.named_begin, line) {
        Some(Marker::Begin(Region::Named(name)))
    } else if let Some(digits) = first_group(&patterns.partial_end, line) {
        Some(numbered(digits, false))
    } else if let Some(name) = first_group(&patterns.named_end, line) {
        Some(Marker::End(Region::Named(name)))
    } else {
        None
    }
}

#[test]
fn grammar_agrees_with_the_patterns_on_samples() {
    let samples = [
        "",
        " ",
        "/* USER CODE BEGIN A */",
        "/* USER CODE END A */",
        "  /* USER CODE BEGIN long_Name_09 */\t",
        "\u{b}\u{c}/* USER CODE END _ */\r",
        "/* USER CODE BEGIN A */ trailing",
        "leading /* USER CODE BEGIN A */",
        "/* USER CODE BEGIN A B */",
        "/* USER CODE BEGIN  A */",
        "/* USER CODE BEGIN A  */",
        "/* USER CODE BEGIN A*/",
        "/*USER CODE BEGIN A */",
        "/* USER CODE BEGIN */",
        "/* USER CODE BEGIN \u{e9} */",
        "/* USER CODE BEGIN a\u{e9} */",
        "/* USER CODE BEGIN A */\u{a0}",
        "/* USER CODE BEGINA */",
        "/* USER CODE ENDING A */",
        "/* USER CODE END A */ /* USER CODE END B */",
        "//!begin 1",
        "//!end 1",
        "//!begin    12  ",
        "\t//!end\t12",
        "//!begin\u{b}3",
        "//!begin 0",
        "//!begin 000",
        "//!begin 0042",
        "//!begin 4294967295",
        "//!begin 4294967296",
        "//!end 18446744073709551616",
        "//!begin",
        "//!begin ",
        "//!begin1",
        "//!begin 1x",
        "//!begin 1 2",
        "//!begin +1",
        "//!begin \u{0663}",
        "//!begin 1\u{0663}",
        "//!begin\u{a0}1",
        "//!end",
        "//!endx 1",
        "//!END 1",
        "// !begin 1",
        "x //!begin 1",
        "//!begin 1 //!end 1",
        "//!begin 1 */",
        "/* USER CODE BEGIN 1 */",
        "//!begin A",
    ];
    let patterns = patterns();
    let mut markers = 0;
    for sample in samples {
        let expected = by_patterns(&patterns, sample);
        if expected.is_some() {
            markers += 1;
        }
        assert_eq!(classify_line(sample), expected, "{:?}", sample);
    }
    assert_eq!(markers, 16);
}

#[test]
fn grammar_agrees_with_the_patterns_on_generated_lines() {
    let pieces = [
        " ", "\t", "/* USER CODE BEGIN ", "/* USER CODE END ", " */", "//!begin", "//!end", "A",
        "b_2", "7", "-",
    ];
    let patterns = patterns();
    let mut markers = 0;
    for a in pieces {
        for b in pieces {
            for c in pieces {
                let line = format!("{}{}{}", a, b, c);
                let expected = by_patterns(&patterns, &line);
                if expected.is_some() {
                    markers += 1;
                }
                assert_eq!(classify_line(&line), expected, "{:?}", line);
            }
        }
    }
    assert!(markers > 0);
}
