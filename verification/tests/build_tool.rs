use rustsn::build_tool::build_tool;
use rustsn::build_tool::executable_suffix;
use rustsn::build_tool::only_error_message;
use rustsn::build_tool::outcome;
use rustsn::build_tool::project_source;
use rustsn::build_tool::record_run;
use rustsn::build_tool::BuildResult;
use rustsn::build_tool::ToolError;
use rustsn::build_tool::ToolStep;
use rustsn::cache::Cache;
use rustsn::lang::Lang;
use rustsn::llm_response::Project;

fn spawn_of(step: ToolStep) -> (String, String, Vec<String>) {
    match step {
        ToolStep::Spawn { key, program, args } => (key, program, args),
        ToolStep::Done(result) => panic!("no process was asked for: {:?}", result),
    }
}

#[test]
fn an_empty_command_succeeds_without_a_process() {
    let mut cache = Cache::new();
    let done = ToolStep::Done(BuildResult { success: true, diagnostic: String::new() });
    assert_eq!(build_tool(Lang::Python, "", "src", false, &mut cache), Ok(done));
    let done = ToolStep::Done(BuildResult { success: true, diagnostic: String::new() });
    assert_eq!(build_tool(Lang::Rust, " \t\n", "src", false, &mut cache), Ok(done));
}

#[test]
fn a_command_is_split_at_white_space() {
    let mut cache = Cache::new();
    let step = build_tool(Lang::Rust, "cargo  test\t--release\n", "SRC", false, &mut cache).unwrap();
    let (key, program, args) = spawn_of(step);
    assert_eq!(key, "cargo  test\t--release\nSRC");
    assert_eq!(program, "cargo");
    assert_eq!(args, vec!["test".to_string(), "--release".to_string()]);
}

#[test]
fn the_wrappers_get_a_suffix_on_windows_only() {
    let mut cache = Cache::new();
    let (_, program, args) = spawn_of(build_tool(Lang::Java, "mvn compile", "", true, &mut cache).unwrap());
    assert_eq!(program, "mvn.cmd");
    assert_eq!(args, vec!["compile".to_string()]);
    let (_, program, _) = spawn_of(build_tool(Lang::Kotlin, "gradle build", "", true, &mut cache).unwrap());
    assert_eq!(program, "gradle.bat");
    let (_, program, _) = spawn_of(build_tool(Lang::Rust, "cargo build", "", true, &mut cache).unwrap());
    assert_eq!(program, "cargo");
    let (_, program, _) = spawn_of(build_tool(Lang::Java, "mvn test", "", false, &mut cache).unwrap());
    assert_eq!(program, "mvn");
    assert_eq!(executable_suffix(Lang::Php, true), ".cmd");
    assert_eq!(executable_suffix(Lang::TypeScript, true), ".cmd");
    assert_eq!(executable_suffix(Lang::JavaScript, true), ".cmd");
    assert_eq!(executable_suffix(Lang::Scala, true), ".cmd");
    assert_eq!(executable_suffix(Lang::Swift, true), "");
    assert_eq!(executable_suffix(Lang::Python, true), "");
    assert_eq!(executable_suffix(Lang::Kotlin, false), "");
}

#[test]
fn exit_code_zero_means_success_and_no_diagnostic() {
    assert_eq!(outcome(0, "warning: unused"), BuildResult { success: true, diagnostic: String::new() });
    assert_eq!(outcome(1, "error[E0308]"), BuildResult { success: false, diagnostic: "error[E0308]".to_string() });
    assert_eq!(outcome(-1, ""), BuildResult { success: false, diagnostic: String::new() });
    assert_eq!(only_error_message("text", 0), "");
    assert_eq!(only_error_message("text", 101), "text");
}

#[test]
fn a_recorded_run_is_the_result_of_the_second_call() {
    let mut cache = Cache::new();
    let mut processes = 0;
    let step = build_tool(Lang::Rust, "cargo test", "fn f() {}", false, &mut cache).unwrap();
    let (key, _, _) = spawn_of(step);
    processes += 1;
    let first = record_run(key, 1, "assertion \"failed\"\n\tline 2 \u{e9}", &mut cache).unwrap();
    assert_eq!(first, BuildResult { success: false, diagnostic: "assertion \"failed\"\n\tline 2 \u{e9}".to_string() });
    let second = build_tool(Lang::Rust, "cargo test", "fn f() {}", false, &mut cache).unwrap();
    assert_eq!(second, ToolStep::Done(first));
    assert_eq!(processes, 1);
}

#[test]
fn another_source_is_another_key() {
    let mut cache = Cache::new();
    let (key, _, _) = spawn_of(build_tool(Lang::Rust, "cargo test", "one", false, &mut cache).unwrap());
    record_run(key, 0, "", &mut cache).unwrap();
    let step = build_tool(Lang::Rust, "cargo test", "two", false, &mut cache).unwrap();
    let (key, program, _) = spawn_of(step);
    assert_eq!(key, "cargo testtwo");
    assert_eq!(program, "cargo");
}

#[test]
fn a_cached_result_is_handed_back_three_times() {
    let mut cache = Cache::new();
    let (key, _, _) = spawn_of(build_tool(Lang::Rust, "cargo build", "s", false, &mut cache).unwrap());
    record_run(key, 0, "", &mut cache).unwrap();
    for _ in 0..3 {
        let step = build_tool(Lang::Rust, "cargo build", "s", false, &mut cache).unwrap();
        assert_eq!(step, ToolStep::Done(BuildResult { success: true, diagnostic: String::new() }));
    }
    let step = build_tool(Lang::Rust, "cargo build", "s", false, &mut cache).unwrap();
    assert!(matches!(step, ToolStep::Spawn { .. }));
}

#[test]
fn what_is_no_result_in_the_cache_is_an_error() {
    let mut cache = Cache::new();
    cache.set("make allsrc".to_string(), "not json".to_string());
    assert_eq!(build_tool(Lang::Rust, "make all", "src", false, &mut cache), Err(ToolError::CorruptEntry));
    cache.set("make allsrc".to_string(), "[3,\"boom\"]".to_string());
    let step = build_tool(Lang::Rust, "make all", "src", false, &mut cache).unwrap();
    assert_eq!(step, ToolStep::Done(BuildResult { success: false, diagnostic: "boom".to_string() }));
}

#[test]
fn the_result_is_kept_as_json() {
    let mut cache = Cache::new();
    record_run("k".to_string(), 2, "a\"b", &mut cache).unwrap();
    assert_eq!(cache.get("k").unwrap(), "[2,\"a\\\"b\"]");
}

#[test]
fn the_source_is_the_texts_of_the_project_line_by_line() {
    let mut project = Project::default();
    project.dependencies = "D".to_string();
    project.solution_code = "S".to_string();
    project.test_code = "T".to_string();
    project.lang = Lang::Rust;
    assert_eq!(project_source(&project), "D\nS");
    project.lang = Lang::Java;
    assert_eq!(project_source(&project), "D\nS\nT");
    project.lang = Lang::TypeScript;
    project.additional_config = vec!["C".to_string()];
    assert_eq!(project_source(&project), "D\nC\nS\nT");
}
