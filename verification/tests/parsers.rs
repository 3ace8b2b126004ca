use langchain_rust::output_parser::{OutputParseError, OutputParser, RegexParser, SimpleParser};

#[test]
fn test_markdown_parser_finds_code_block() {
    let parser = RegexParser::code_block();
    let markdown_content = r#"
```rust
fn main() {
    println!("Hello, world!");
}
```
"#;
    let result = parser.parse_from_text_and_input((), markdown_content.into());
    println!("{result:?}");

    let correct = r#"fn main() {
    println!("Hello, world!");
}"#;
    assert!(result.is_ok());
    assert_eq!(result.unwrap(), correct);
}

fn other_message(e: OutputParseError) -> String {
    match e {
        OutputParseError::Other(m) => m,
        e => panic!("unexpected error {e:?}"),
    }
}

#[test]
fn regex_parser_reports_each_failure() {
    let invalid = RegexParser::new("(");
    assert_eq!(other_message(invalid.sanitize("text").unwrap_err()), "Invalid pattern");

    let digits = RegexParser::new(r"x(\d+)");
    assert_eq!(other_message(digits.sanitize("abc").unwrap_err()), "No match found");
    assert_eq!(digits.sanitize("ax42b").unwrap(), "42");

    let no_group = RegexParser::new("abc");
    assert_eq!(
        other_message(no_group.sanitize("abc").unwrap_err()),
        "Failed to capture code block"
    );

    let optional_group = RegexParser::new("a(b)?c");
    assert_eq!(
        other_message(optional_group.sanitize("ac").unwrap_err()),
        "Failed to capture code block"
    );
}

#[test]
fn regex_parser_trims_unless_told_not_to() {
    let trimming = RegexParser::new("<(.*)>");
    assert_eq!(trimming.sanitize("< x >").unwrap(), "x");
    let keeping = RegexParser::new("<(.*)>").trim(false);
    assert_eq!(keeping.sanitize("< x >").unwrap(), " x ");
}

#[test]
fn regex_parser_hands_the_input_back_on_failure() {
    let parser = RegexParser::code_block();
    let result = parser.parse_from_text_and_input(7u32, "no block".to_string());
    match result {
        Err((input, e)) => {
            assert_eq!(input, 7);
            assert_eq!(other_message(e), "No match found");
        }
        Ok(s) => panic!("unexpected success {s}"),
    }
}

#[test]
fn regex_parser_matches_non_ascii_text() {
    let parser = RegexParser::new("«(.+)»");
    assert_eq!(parser.sanitize("héllo «wörld» ✓").unwrap(), "wörld");
}

#[test]
fn simple_parser_trims_by_default() {
    let parser = SimpleParser::default();
    assert_eq!(parser.parse_from_text("  hi \n".to_string()).unwrap(), "hi");
    let keeping = SimpleParser::default().trim(false);
    assert_eq!(keeping.parse_from_text("  hi \n".to_string()).unwrap(), "  hi \n");
}
