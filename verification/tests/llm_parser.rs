use rustsn::llm_parser::classify_block;
use rustsn::llm_parser::extract;
use rustsn::llm_parser::extract_impl;
use rustsn::llm_parser::extract_number;
use rustsn::llm_parser::update_extract;
use rustsn::llm_parser::BlockKind;
use rustsn::llm_parser::Extract;

#[test]
fn test_extract_number() {
    let input = "Bla bla bla\nTututu 123\nmore bla bla\nTutu 456\nbla bla";
    let expected = 123;
    assert_eq!(extract_number(input), expected);
}

#[test]
fn test_extract_impl() {
    let input = r#"

```toml
[dependencies]
serde_json = "1.0.108"
```

```rust
fn main() {
}
```

```rust
mod test {
    #[test]
    fn test() {
    }
}
```
        "#;

    let expected = Extract {
        code: Some("fn main() {\n}\n".to_string()),
        dependencies: Some("[dependencies]\nserde_json = \"1.0.108\"\n".to_string()),
        tests: Some("mod test {\n    #[test]\n    fn test() {\n    }\n}\n".to_string()),
    };
    assert_eq!(extract_impl(input), expected);
}

#[test]
fn extract_number_defaults_to_one() {
    assert_eq!(extract_number("no number here"), 1);
    assert_eq!(extract_number(""), 1);
    assert_eq!(extract_number("12a 99999999999 - + 7"), 7);
}

#[test]
fn extract_number_reads_signs_and_limits() {
    assert_eq!(extract_number("x -42 7"), -42);
    assert_eq!(extract_number("+15"), 15);
    assert_eq!(extract_number("2147483647"), 2147483647);
    assert_eq!(extract_number("-2147483648"), -2147483648);
    assert_eq!(extract_number("2147483648 3"), 3);
    assert_eq!(extract_number("-2147483649 4"), 4);
    assert_eq!(extract_number("007"), 7);
    assert_eq!(extract_number("a\u{a0}5"), 5);
}

#[test]
fn extract_number_agrees_with_std() {
    let samples = ["1", "-0", "+0", "--1", "+-1", "1_000", "٣", "99999999999999999999999", "-", "+", "0x10", "10 "];
    for s in samples {
        let expected = s.split_whitespace().find_map(|w| w.parse::<i32>().ok()).unwrap_or(1);
        assert_eq!(extract_number(s), expected, "{}", s);
    }
}

#[test]
fn a_text_without_blocks_gives_empty_code() {
    let found = extract_impl("just words\nand more");
    assert_eq!(found, Extract { code: Some("".to_string()), dependencies: None, tests: None });
}

#[test]
fn the_first_code_block_stays_and_later_tests_replace() {
    let input = "```\nfirst\n```\n```\nsecond\n```\n```\nTest one\n```\n```\ntest two\n```\n";
    let found = extract_impl(input);
    assert_eq!(found.code, Some("first\n".to_string()));
    assert_eq!(found.tests, Some("test two\n".to_string()));
    assert_eq!(found.dependencies, None);
}

#[test]
fn an_open_block_at_the_end_counts() {
    let found = extract_impl("```\nDependencies: none\n");
    assert_eq!(found.dependencies, Some("Dependencies: none\n".to_string()));
    assert_eq!(found.code, None);
}

#[test]
fn blocks_are_classified_by_their_lower_case_text() {
    assert_eq!(classify_block("my dependency list"), BlockKind::Dependencies);
    assert_eq!(classify_block("dependencies and test"), BlockKind::Dependencies);
    assert_eq!(classify_block("a test"), BlockKind::Tests);
    assert_eq!(classify_block("fn main() {}"), BlockKind::Code);
    let mut e = Extract { code: None, dependencies: None, tests: None };
    update_extract("DEPENDENCIES", &mut e);
    assert_eq!(e.dependencies, Some("DEPENDENCIES".to_string()));
    update_extract("TEST", &mut e);
    assert_eq!(e.tests, Some("TEST".to_string()));
    update_extract("a", &mut e);
    update_extract("b", &mut e);
    assert_eq!(e.code, Some("a".to_string()));
}

#[test]
fn extract_names_the_missing_part() {
    let input = "```\nfn main() {}\n```\n";
    assert_eq!(extract(input, "code"), "fn main() {}\n");
    assert_eq!(extract(input, "dependencies"), "Error: extract_dependencies()");
    assert_eq!(extract(input, "tests"), "Error: extract_tests()");
}
