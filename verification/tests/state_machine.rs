use rustsn::build_tool::build_tool;
use rustsn::build_tool::project_source;
use rustsn::build_tool::record_run;
use rustsn::build_tool::BuildResult;
use rustsn::build_tool::ToolStep;
use rustsn::cache::Cache;
use rustsn::lang::Lang;
use rustsn::llm_prompt::Prompt;
use rustsn::state_machine::Action;
use rustsn::state_machine::Event;
use rustsn::state_machine::LoopError;
use rustsn::state_machine::Phase;
use rustsn::state_machine::RepairLoop;
use rustsn::state_machine::MAX_NUMBER_OF_ATTEMPTS;

fn response(code: &str, test_command: &str) -> String {
    format!(
        "**Cargo.toml**\n```toml\n[package]\nname = \"adder\"\n```\n\n**src/lib.rs**\n```rust\n{}\n```\n\n**Build**\n```bash\ncargo build\n```\n\n**Test**\n```bash\n{}\n```\n",
        code, test_command
    )
}

fn prompts() -> Prompt {
    Prompt::parse("[[[generate]]]\nQ: {{{0}}}\n[[[rewrite]]]\n{{{0}}}|{{{1}}}|{{{2}}}|{{{3}}}|{{{4}}}|{{{5}}}|{{{6}}}\n").ok().unwrap()
}

/// Runs the loop against a model that answers from `answers` and a toolchain
/// in which `exit_of` gives the exit code and error stream of a command.
/// Hands back whether the loop ended in success, the prompts that were sent,
/// and the number of processes started.
fn drive(
    max_attempts: u32,
    answers: &[String],
    exit_of: &dyn Fn(&str, &str) -> (i32, String),
) -> (bool, Vec<String>, usize) {
    let prompt = prompts();
    let mut cache = Cache::new();
    let mut machine = RepairLoop::new(Lang::Rust, "write a function that adds two integers", max_attempts);
    let mut sent = Vec::new();
    let mut processes = 0;
    let mut action = machine.step(Event::Start).unwrap();
    loop {
        let event = match action {
            Action::Request { template, params } => {
                sent.push(prompt.try_create(&template, &params).unwrap());
                let i = (sent.len() - 1).min(answers.len() - 1);
                Event::Response(answers[i].clone())
            }
            Action::Assemble => Event::Assembled,
            Action::Run { command } => {
                let source = project_source(machine.project());
                let step = build_tool(Lang::Rust, &command, &source, false, &mut cache).unwrap();
                let result = match step {
                    ToolStep::Done(result) => result,
                    ToolStep::Spawn { key, program, args } => {
                        processes += 1;
                        assert_eq!(program, "cargo");
                        assert_eq!(args.len(), 1);
                        let (code, err) = exit_of(&command, &source);
                        record_run(key, code, &err, &mut cache).unwrap()
                    }
                };
                Event::ToolResult(result)
            }
            Action::Finish { success } => return (success, sent, processes),
        };
        action = machine.step(event).unwrap();
    }
}

#[test]
fn a_project_that_builds_and_passes_ends_the_loop_after_one_request() {
    let answers = vec![response("pub fn add(a: i32, b: i32) -> i32 { a + b }", "cargo test")];
    let (success, sent, processes) = drive(MAX_NUMBER_OF_ATTEMPTS, &answers, &|_, _| (0, String::new()));
    assert!(success);
    assert_eq!(sent, vec!["Q: write a function that adds two integers\n".to_string()]);
    assert_eq!(processes, 2);
}

#[test]
fn a_failing_test_is_sent_back_with_the_second_request() {
    let answers = vec![
        response("pub fn add(a: i32, b: i32) -> i32 { a - b }", "cargo test"),
        response("pub fn add(a: i32, b: i32) -> i32 { a + b }", "cargo test"),
    ];
    let exit_of = |command: &str, source: &str| {
        if command == "cargo test" && source.contains("a - b") {
            (1, "assertion failed: 2 + 2 != 5".to_string())
        } else {
            (0, String::new())
        }
    };
    let (success, sent, _) = drive(MAX_NUMBER_OF_ATTEMPTS, &answers, &exit_of);
    assert!(success);
    assert_eq!(sent.len(), 2);
    assert!(sent[1].contains("assertion failed: 2 + 2 != 5"));
    assert_eq!(
        sent[1],
        "[package]\nname = \"adder\"\n|pub fn add(a: i32, b: i32) -> i32 { a - b }\n|cargo build||cargo test|assertion failed: 2 + 2 != 5|write a function that adds two integers\n"
    );
}

#[test]
fn a_model_that_never_builds_is_asked_a_bounded_number_of_times() {
    for max in [0u32, 1, 5] {
        let mut answers = Vec::new();
        for i in 0..20 {
            answers.push(response(&format!("broken {}", i), "cargo test"));
        }
        let exit_of = |command: &str, _: &str| {
            if command == "cargo build" { (101, "error: expected item".to_string()) } else { (0, String::new()) }
        };
        let (success, sent, _) = drive(max, &answers, &exit_of);
        assert!(!success);
        assert_eq!(sent.len() as u32, max + 1);
    }
}

#[test]
fn both_commands_must_succeed() {
    let answers = vec![
        response("first", "cargo test"),
        response("second", "cargo test"),
    ];
    let exit_of = |command: &str, source: &str| {
        if command == "cargo build" && source.contains("first") { (1, "no".to_string()) } else { (0, String::new()) }
    };
    let (success, sent, _) = drive(5, &answers, &exit_of);
    assert!(success);
    assert_eq!(sent.len(), 2);
}

#[test]
fn an_event_out_of_turn_is_refused_and_changes_nothing() {
    let mut machine = RepairLoop::new(Lang::Rust, "q", 5);
    assert_eq!(machine.step(Event::Assembled), Err(LoopError::UnexpectedEvent));
    assert_eq!(machine.phase(), Phase::Start);
    let first = machine.step(Event::Start).unwrap();
    assert_eq!(first, Action::Request { template: "generate".to_string(), params: vec!["q".to_string()] });
    assert_eq!(machine.step(Event::Start), Err(LoopError::UnexpectedEvent));
    let result = BuildResult { success: true, diagnostic: String::new() };
    assert_eq!(machine.step(Event::ToolResult(result)), Err(LoopError::UnexpectedEvent));
    assert_eq!(machine.phase(), Phase::AwaitResponse);
    assert_eq!(machine.step(Event::Response(String::new())), Ok(Action::Assemble));
    assert_eq!(machine.step(Event::Assembled), Ok(Action::Run { command: String::new() }));
    assert_eq!(machine.attempts(), 0);
}

#[test]
fn the_request_to_rewrite_carries_the_tests_of_other_languages() {
    let mut machine = RepairLoop::new(Lang::TypeScript, "q", 5);
    machine.step(Event::Start).unwrap();
    let text = "## package.json\n```json\n{}\n```\n## tsconfig.json\n```json\n{\"a\":1}\n```\n## src/solution.ts\n```ts\ncode\n```\n## src/solution.test.ts\n```ts\ntests\n```\n## Install\n```\nnpm i\n```\n## Test\n```\nnpm test\n```\n";
    machine.step(Event::Response(text.to_string())).unwrap();
    assert_eq!(machine.step(Event::Assembled), Ok(Action::Run { command: "npm i".to_string() }));
    let failed = BuildResult { success: false, diagnostic: "E1".to_string() };
    assert_eq!(machine.step(Event::ToolResult(failed)), Ok(Action::Run { command: "npm test".to_string() }));
    let failed = BuildResult { success: false, diagnostic: "E2".to_string() };
    let action = machine.step(Event::ToolResult(failed)).unwrap();
    let expected: Vec<String> = ["{}", "{\"a\":1}", "code", "tests", "npm i", "E1", "npm test", "E2", "q"].iter().map(|s| s.to_string()).collect();
    assert_eq!(action, Action::Request { template: "rewrite".to_string(), params: expected });
    assert_eq!(machine.attempts(), 1);
}
