use rustsn::lang::Lang;
use rustsn::llm_response::LLMResponse;

fn rust_response() -> String {
    let mut s = String::new();
    s.push_str("Here is the project.\n\n");
    s.push_str("**Cargo.toml**\n```toml\n[package]\nname = \"adder\"\n```\n\n");
    s.push_str("**src/lib.rs**\n```rust\npub fn add(a: i32, b: i32) -> i32 { a + b }\n```\n\n");
    s.push_str("**Build**\n```bash\n# build it\ncargo build\n```\n\n");
    s.push_str("**Test**\n```bash\ncargo test\n```\n");
    s
}

#[test]
fn primary_grammar_reads_bold_headings() {
    let project = LLMResponse::parse_llm_response(&rust_response(), Lang::Rust);
    assert_eq!(project.dependencies, "[package]\nname = \"adder\"\n");
    assert_eq!(project.solution_code, "pub fn add(a: i32, b: i32) -> i32 { a + b }\n");
    assert_eq!(project.build_command, "cargo build");
    assert_eq!(project.test_command, "cargo test");
    assert_eq!(project.test_code, "");
    assert_eq!(project.install_dependency_command, None);
    assert!(project.additional_config.is_empty());
    assert_eq!(project.lang, Lang::Rust);
}

#[test]
fn positions_end_with_the_length_of_the_text() {
    let found = LLMResponse::parse_positions("**a**\nxé\n2. b:**\n");
    assert_eq!(found.len(), 3);
    assert_eq!(found[0], ("a".to_string(), 5));
    assert_eq!(found[1], ("b".to_string(), 17));
    assert_eq!(found[2], ("".to_string(), 17));
}

fn names(list: &[&'static str]) -> Vec<&'static str> {
    list.to_vec()
}

#[test]
fn a_heading_matches_every_name_it_contains() {
    let text = "**Test src/lib.rs**\n```\nboth\n```\n";
    let found = LLMResponse::extract_sections(text, &names(&["src/lib.rs", "Test", "Build"]));
    assert_eq!(found.get("src/lib.rs"), Some(&"both\n".to_string()));
    assert_eq!(found.get("Test"), Some(&"both\n".to_string()));
    assert_eq!(found.get("Build"), None);
}

#[test]
fn the_first_code_block_of_a_section_wins() {
    let text = "**Build**\n```bash\nfirst\n```\ntext\n```bash\nsecond\n```\n";
    let found = LLMResponse::extract_sections(text, &names(&["Build"]));
    assert_eq!(found.get("Build"), Some(&"first\n".to_string()));
}

#[test]
fn numbered_headings_and_colons_are_read() {
    let text = "1. Cargo.toml:**\n```toml\n[a]\n```\n### **2. src/lib.rs**\n```rust\nfn f() {}\n```\n";
    let found = LLMResponse::extract_sections(text, &names(&["Cargo.toml", "src/lib.rs"]));
    assert_eq!(found.get("Cargo.toml"), Some(&"[a]\n".to_string()));
    assert_eq!(found.get("src/lib.rs"), Some(&"fn f() {}\n".to_string()));
}

#[test]
fn headings_after_text_that_is_not_ascii_are_found() {
    let text = "Voil\u{e0} \u{2014} \u{1f600}\n**Build**\n```\n\u{e9}t\u{e9}\n```\n";
    let found = LLMResponse::extract_sections(text, &names(&["Build"]));
    assert_eq!(found.get("Build"), Some(&"\u{e9}t\u{e9}\n".to_string()));
}

#[test]
fn the_second_reading_finds_markdown_headings() {
    let text = "## Cargo.toml\n\n```toml\n[package]\n```\n\n### `src/lib.rs`:\n```rust\nfn f() {}\n\n```\n- **Build**\n  ```bash\n  cargo build\n  ```\n## Test\n```\ncargo test\n";
    let project = LLMResponse::parse_llm_response(text, Lang::Rust);
    assert_eq!(project.dependencies, "[package]");
    assert_eq!(project.solution_code, "fn f() {}");
    assert_eq!(project.build_command, "cargo build");
    assert_eq!(project.test_command, "cargo test");
}

#[test]
fn the_second_reading_leaves_what_the_first_found() {
    let text = "**Build**\n```\nfrom bold\n```\n## Build\n```\nfrom hash\n```\n## Test\n```\ntests\n```\n";
    let found = LLMResponse::extract_sections(text, &names(&["Build", "Test"]));
    assert_eq!(found.get("Build"), Some(&"from bold\n".to_string()));
    assert_eq!(found.get("Test"), Some(&"tests".to_string()));
}

#[test]
fn a_heading_without_a_block_after_it_ends_the_second_reading() {
    let text = "## Build\nno block here\n";
    let found = LLMResponse::extract_sections(text, &names(&["Build", "Test"]));
    assert_eq!(found.get("Build"), None);
    assert_eq!(found.get("Test"), None);
}

#[test]
fn a_response_without_any_name_gives_an_empty_project() {
    for lang in [Lang::Rust, Lang::Java, Lang::Kotlin, Lang::Scala, Lang::Swift] {
        let project = LLMResponse::parse_llm_response("Sorry, I cannot help.\n```\ncode\n```\n", lang);
        assert_eq!(project.dependencies, "");
        assert_eq!(project.solution_code, "");
        assert_eq!(project.test_code, "");
        assert_eq!(project.build_command, "");
        assert_eq!(project.test_command, "");
        assert_eq!(project.install_dependency_command, None);
        assert!(project.additional_config.is_empty());
        assert_eq!(project.lang, lang);
    }
    for lang in [Lang::JavaScript, Lang::Php, Lang::Python] {
        let project = LLMResponse::parse_llm_response("", lang);
        assert_eq!(project.install_dependency_command, Some(String::new()));
        assert_eq!(project.dependencies, "");
        assert_eq!(project.test_command, "");
    }
    let project = LLMResponse::parse_llm_response("nothing", Lang::TypeScript);
    assert_eq!(project.additional_config, vec![String::new()]);
    assert_eq!(project.build_command, "");
}

#[test]
fn a_title_can_hold_a_name_that_the_response_does_not() {
    let text = "## Car`go.toml\n```\nx\n```\n";
    assert!(!text.contains("Cargo.toml"));
    let project = LLMResponse::parse_llm_response(text, Lang::Rust);
    assert_eq!(project.dependencies, "x");
}

#[test]
fn reading_twice_gives_the_same() {
    let text = rust_response();
    let a = LLMResponse::parse_llm_response(&text, Lang::Rust);
    let b = LLMResponse::parse_llm_response(&text, Lang::Rust);
    assert_eq!(format!("{:?}", a), format!("{:?}", b));
}

#[test]
fn each_language_takes_its_sections() {
    let text = "**pom.xml**\n```xml\n<p/>\n```\n**src/main/java/com/example/solution/Solution.java**\n```java\nclass Solution {}\n```\n**src/test/java/com/example/solution/SolutionTest.java**\n```java\nclass SolutionTest {}\n```\n**Compile**\n```bash\nmvn compile\n```\n**Test**\n```bash\n# run\nmvn test\n```\n";
    let project = LLMResponse::parse_llm_response(text, Lang::Java);
    assert_eq!(project.dependencies, "<p/>\n");
    assert_eq!(project.solution_code, "class Solution {}\n");
    assert_eq!(project.test_code, "class SolutionTest {}\n");
    assert_eq!(project.build_command, "mvn compile\n");
    assert_eq!(project.test_command, "# run\nmvn test\n");
    let text = "**requirements.txt**\n```\npytest\n```\n**solution.py**\n```python\ndef f(): pass\n```\n**test.py**\n```python\ndef test(): pass\n```\n**Dependencies**\n```bash\npip install -r requirements.txt\n```\n**Test**\n```bash\npytest\n```\n";
    let project = LLMResponse::parse_llm_response(text, Lang::Python);
    assert_eq!(project.dependencies, "pytest\n");
    assert_eq!(project.solution_code, "def f(): pass\n");
    assert_eq!(project.test_code, "def test(): pass\n");
    assert_eq!(project.install_dependency_command, Some("pip install -r requirements.txt\n".to_string()));
    assert_eq!(project.build_command, "");
    assert_eq!(project.test_command, "pytest\n");
}
