use rustsn::file_explorer::keep_file;
use rustsn::lang::Lang;
use rustsn::layout::project_directories;
use rustsn::layout::project_files;
use rustsn::layout::SANDBOX;
use rustsn::cache::Cache;
use rustsn::llm_api::first_choice;
use rustsn::llm_api::request_step;
use rustsn::llm_api::RequestStep;
use rustsn::llm_api::LLMApi;
use rustsn::llm_api::ModelType;
use rustsn::llm_api::MAX_TOKENS;
use rustsn::llm_prompt::Prompt;
use rustsn::llm_prompt::PromptError;
use rustsn::llm_response::Project;
use rustsn::question::enter_line;
use rustsn::question::finish_question;
use rustsn::question::keeps_reading;
use rustsn::question::line_continues;

fn strings(list: &[&str]) -> Vec<String> {
    list.iter().map(|s| s.to_string()).collect()
}

fn project(lang: Lang) -> Project {
    let mut p = Project::default();
    p.dependencies = "D".to_string();
    p.solution_code = "S".to_string();
    p.test_code = "T".to_string();
    p.lang = lang;
    p
}

fn pairs(list: &[(&str, &str)]) -> Vec<(String, String)> {
    list.iter().map(|(a, b)| (a.to_string(), b.to_string())).collect()
}

#[test]
fn files_are_kept_by_extension_and_dropped_by_path() {
    let ext = strings(&["txt", "toml"]);
    let excluded = strings(&["target"]);
    assert!(keep_file("a/b/Cargo.toml", &ext, &excluded));
    assert!(keep_file("notes.txt", &ext, &excluded));
    assert!(!keep_file("a/target/x.toml", &ext, &excluded));
    assert!(!keep_file("src/main.rs", &ext, &excluded));
    assert!(!keep_file("toml", &ext, &excluded));
    assert!(!keep_file("atoml", &ext, &excluded));
    assert!(keep_file(".toml", &ext, &excluded));
    assert!(!keep_file("a.txt", &Vec::new(), &excluded));
    assert!(keep_file("target.txt", &ext, &Vec::new()));
    assert!(!keep_file("a.txt", &ext, &strings(&[""])));
}

#[test]
fn each_language_has_its_layout() {
    assert_eq!(SANDBOX, "sandbox");
    assert_eq!(project_directories(Lang::Rust), vec!["src"]);
    assert_eq!(project_files(&project(Lang::Rust)), pairs(&[("src/lib.rs", "S"), ("Cargo.toml", "D")]));
    assert_eq!(project_directories(Lang::Java), vec!["src/main/java/com/example/solution", "src/test/java/com/example/solution"]);
    assert_eq!(
        project_files(&project(Lang::Java)),
        pairs(&[
            ("src/main/java/com/example/solution/Solution.java", "S"),
            ("src/test/java/com/example/solution/SolutionTest.java", "T"),
            ("pom.xml", "D"),
        ])
    );
    assert!(project_directories(Lang::Python).is_empty());
    assert_eq!(project_files(&project(Lang::Python)), pairs(&[("solution.py", "S"), ("test.py", "T"), ("requirements.txt", "D")]));
    assert_eq!(project_directories(Lang::JavaScript), vec!["src"]);
    assert_eq!(project_files(&project(Lang::JavaScript)), pairs(&[("src/solution.js", "S"), ("src/solution.test.js", "T"), ("package.json", "D")]));
    let mut ts = project(Lang::TypeScript);
    assert_eq!(project_files(&ts)[3], ("tsconfig.json".to_string(), String::new()));
    ts.additional_config = strings(&["C", "ignored"]);
    assert_eq!(
        project_files(&ts),
        pairs(&[("src/solution.ts", "S"), ("src/solution.test.ts", "T"), ("package.json", "D"), ("tsconfig.json", "C")])
    );
    assert_eq!(project_directories(Lang::Php), vec!["src", "tests"]);
    assert_eq!(project_files(&project(Lang::Php)), pairs(&[("src/Solution.php", "S"), ("tests/SolutionTest.php", "T"), ("composer.json", "D")]));
    assert_eq!(project_files(&project(Lang::Scala)), pairs(&[("src/main/scala/Solution.scala", "S"), ("src/test/scala/SolutionTest.scala", "T"), ("build.sbt", "D")]));
    assert_eq!(project_files(&project(Lang::Kotlin)), pairs(&[("src/main/kotlin/Solution.kt", "S"), ("src/test/kotlin/SolutionTest.kt", "T"), ("build.gradle", "D")]));
    assert_eq!(project_files(&project(Lang::Swift)), pairs(&[("Sources/Solution/Solution.swift", "S"), ("Tests/SolutionTests/SolutionTests.swift", "T"), ("Package.swift", "D")]));
    assert_eq!(project_directories(Lang::Swift), vec!["Sources/Solution/", "Tests/SolutionTests"]);
    assert_eq!(project_directories(Lang::Scala), vec!["src/main/scala", "src/test/scala"]);
    assert_eq!(project_directories(Lang::Kotlin), vec!["src/main/kotlin", "src/test/kotlin"]);
    assert_eq!(project_directories(Lang::TypeScript), vec!["src"]);
    assert!(project_files(&project(Lang::C)).is_empty());
    assert!(project_directories(Lang::Unknown).is_empty());
}

#[test]
fn a_request_carries_the_prompt_and_the_model() {
    let prompt = Prompt::parse("[[[generate]]]\nWrite {{{0}}}\n").ok().unwrap();
    let local = LLMApi::new(ModelType::Ollama { model: "qwen2.5-coder:7b".to_string(), emb: "bge-large".to_string() });
    let request = local.chat_request("generate", &strings(&["a sum"]), &prompt).unwrap();
    assert_eq!(request.url, "http://127.0.0.1:11434/api/generate");
    assert_eq!(request.model, "qwen2.5-coder:7b");
    assert_eq!(request.prompt, "Write a sum\n");
    assert_eq!(request.max_tokens, 1000);
    assert_eq!(MAX_TOKENS, 1000);
    assert_eq!(request.api_key, None);
    let remote = LLMApi::new(ModelType::OpenAI { api_key: "SECRET".to_string() });
    let request = remote.chat_request("generate", &strings(&["a sum"]), &prompt).unwrap();
    assert_eq!(request.url, "https://api.openai.com/v1/chat/completions");
    assert_eq!(request.model, "gpt-4o-2024-08-06");
    assert_eq!(request.api_key, Some("SECRET".to_string()));
    assert!(matches!(remote.chat_request("rewrite", &Vec::new(), &prompt), Err(PromptError::UnknownTemplate)));
    assert!(matches!(remote.chat_request("generate", &Vec::new(), &prompt), Err(PromptError::UnfilledPlaceholder)));
}

#[test]
fn the_first_choice_is_the_answer() {
    assert_eq!(first_choice(strings(&["a", "b"])), "a");
    assert_eq!(first_choice(Vec::new()), "");
}

#[test]
fn a_backslash_before_the_line_ending_asks_for_more() {
    assert!(line_continues("first \\\r\n"));
    assert!(!line_continues("first\r\n"));
    assert!(!line_continues("first \\\n"));
    assert!(!line_continues("\r\n"));
    assert_eq!(enter_line("first \\\r\n"), "first \r\n");
    assert_eq!(enter_line("plain\r\n"), "plain\r\n");
    assert_eq!(enter_line("\\\r\n"), "\r\n");
}

#[test]
fn reading_goes_on_after_the_first_line_and_while_lines_are_pasted() {
    assert!(keeps_reading(true, 5000, "done\r\n"));
    assert!(keeps_reading(false, 99, "pasted\r\n"));
    assert!(!keeps_reading(false, 100, "typed\r\n"));
    assert!(keeps_reading(false, 100, "more \\\r\n"));
}

#[test]
fn the_question_is_the_lines_without_the_space_around() {
    assert_eq!(finish_question(&strings(&["  write \r\n", "a sum\r\n", "\r\n"])), "write \r\na sum\r\n");
    assert_eq!(finish_question(&Vec::new()), "\r\n");
}

#[test]
fn a_request_is_sent_unless_the_cache_holds_its_answer() {
    let mut cache = Cache::new();
    assert_eq!(request_step("{\"prompt\":\"q\"}", &mut cache), RequestStep::Send { key: "{\"prompt\":\"q\"}".to_string() });
    cache.set("{\"prompt\":\"q\"}".to_string(), "answer".to_string());
    for _ in 0..3 {
        assert_eq!(request_step("{\"prompt\":\"q\"}", &mut cache), RequestStep::Done("answer".to_string()));
    }
    assert_eq!(request_step("{\"prompt\":\"q\"}", &mut cache), RequestStep::Send { key: "{\"prompt\":\"q\"}".to_string() });
    assert_eq!(request_step("other", &mut cache), RequestStep::Send { key: "other".to_string() });
}
