use rustsn::llm_prompt::construct_prompt;
use rustsn::llm_prompt::fill_template;
use rustsn::llm_prompt::replace_last_multiple_return_to_one;
use rustsn::llm_prompt::try_construct_prompt;
use rustsn::llm_prompt::Prompt;
use rustsn::llm_prompt::PromptError;

#[test]
fn test_replace_last_multiple_return_to_one() {
    let input = "\n123\n\nWrite on Rust language code of this function (without example of usage like main function):\n```rust\nfn solution(\n\n\n";
    let expected_output = "\n123\n\nWrite on Rust language code of this function (without example of usage like main function):\n```rust\nfn solution(\n";
    let output = replace_last_multiple_return_to_one(input);
    assert_eq!(output, expected_output);
}

#[test]
fn test_construct_prompt() {
    let template = "This is a template with {{{0}}} and {{{1}}}";
    let replace = vec!["first".to_string(), "second".to_string()];
    let expected = "This is a template with first and second";
    assert_eq!(construct_prompt(template, &replace), expected);
}

#[test]
fn test_prompt() {
    let content = r#"[[[generate_code_prompt_template]]]

{{{0}}}

Write on Rust language code of this function (without example of usage like main function):
```rust
fn solution(

[[[rewrite_code_prompt_template]]]

{{{0}}}
Rust language code of this function:
```rust
{{{1}}}
```
Try to compile this code:
'''bash
cargo build
'''
Result of compilation:
'''console
{{{2}}}
'''"#;
    let prompt = Prompt::parse(content).ok().unwrap();
    assert_eq!(prompt.create("generate_code_prompt_template", &vec!["123".to_string()]), "\n123\n\nWrite on Rust language code of this function (without example of usage like main function):\n```rust\nfn solution(\n");
}

#[test]
fn a_text_without_final_newline_stays() {
    assert_eq!(replace_last_multiple_return_to_one("abc"), "abc");
    assert_eq!(replace_last_multiple_return_to_one(""), "");
    assert_eq!(replace_last_multiple_return_to_one("\n\n"), "\n");
    assert_eq!(replace_last_multiple_return_to_one("a\n \n"), "a\n \n");
}

#[test]
fn placeholders_with_two_digits_are_filled() {
    let mut params = Vec::new();
    for i in 0..12 {
        params.push(format!("<{}>", i));
    }
    assert_eq!(fill_template("{{{11}}}-{{{1}}}-{{{10}}}-{{{0}}}", &params), "<11>-<1>-<10>-<0>");
}

#[test]
fn a_parameter_can_bring_a_later_placeholder() {
    let params = vec!["{{{1}}}".to_string(), "x".to_string()];
    assert_eq!(fill_template("{{{0}}}", &params), "x");
}

#[test]
fn an_unfilled_placeholder_is_an_error() {
    let params = vec!["a".to_string()];
    assert_eq!(try_construct_prompt("{{{0}}} {{{1}}}", &params), Err(PromptError::UnfilledPlaceholder));
    assert_eq!(try_construct_prompt("{{{0}}}", &params), Ok("a".to_string()));
    assert_eq!(try_construct_prompt("{{{", &params), Err(PromptError::UnfilledPlaceholder));
}

#[test]
fn an_unknown_template_is_an_error() {
    let prompt = Prompt::parse("[[[a]]]\nhello {{{0}}}\n").ok().unwrap();
    let params = vec!["w".to_string()];
    assert_eq!(prompt.try_create("b", &params), Err(PromptError::UnknownTemplate));
    assert_eq!(prompt.try_create("a", &params), Ok("hello w\n".to_string()));
    assert_eq!(prompt.try_create("a", &Vec::new()), Err(PromptError::UnfilledPlaceholder));
}

#[test]
fn a_header_without_room_for_a_name_is_an_error() {
    assert!(matches!(Prompt::parse("[[[a]"), Err(PromptError::MalformedHeader)));
    assert!(matches!(Prompt::parse("x\n[[[\ny"), Err(PromptError::MalformedHeader)));
    assert!(Prompt::parse("[[[]]]").is_ok());
}

#[test]
fn text_before_the_first_header_is_dropped_and_the_last_template_kept() {
    let prompt = Prompt::parse("preface\n[[[one]]]\n1\n\n\n[[[two]]]\n2").ok().unwrap();
    assert_eq!(prompt.try_create("one", &Vec::new()), Ok("1\n".to_string()));
    assert_eq!(prompt.try_create("two", &Vec::new()), Ok("2\n".to_string()));
    assert_eq!(prompt.try_create("", &Vec::new()), Err(PromptError::UnknownTemplate));
    let nameless = Prompt::parse("only text").ok().unwrap();
    assert_eq!(nameless.try_create("", &Vec::new()), Ok("only text\n".to_string()));
}
