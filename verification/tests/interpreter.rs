use rustsn::build_tool::BuildResult;
use rustsn::interpreter::arguments;
use rustsn::interpreter::operation;
use rustsn::interpreter::write_number;
use rustsn::interpreter::Environment;
use rustsn::interpreter::Operation;
use rustsn::interpreter::Outcome;
use rustsn::interpreter::State;
use rustsn::interpreter::StateMachine;
use rustsn::interpreter::Transition;

fn state(name: &str, edges: &[(&str, &str)]) -> State {
    State {
        name: name.to_string(),
        transitions: edges
            .iter()
            .map(|(target, label)| Transition { target: target.to_string(), label: label.to_string() })
            .collect(),
    }
}

fn machine() -> StateMachine {
    StateMachine {
        states: vec![
            state("llm_request(\"generate\",[question])", &[("extract_code(code_response)", "code_response")]),
            state("extract_code(code_response)", &[("create_project(code,dependencies,tests)", "code")]),
            state("create_project(code,dependencies,tests)", &[("build_tool(\"build\")", "")]),
            state("build_tool(\"build\")", &[("finish", "(true,output)"), ("extract_number(response)", "(false,output)")]),
            state("extract_number(response)", &[("llm_request(\"generate\",[question])", "1"), ("finish", "2")]),
            state("finish", &[]),
        ],
    }
}

fn built(success: bool, diagnostic: &str) -> Outcome {
    Outcome::Build(BuildResult { success, diagnostic: diagnostic.to_string() })
}

#[test]
fn a_state_name_says_what_the_state_does() {
    assert_eq!(operation("llm_request(\"generate\",[question])"), Operation::LlmRequest);
    assert_eq!(operation("extract_code(code_response)"), Operation::Extract);
    assert_eq!(operation("extract_dep(x)"), Operation::Extract);
    assert_eq!(operation("extract_test(x)"), Operation::Extract);
    assert_eq!(operation("create_project(code,dependencies,tests)"), Operation::CreateProject);
    assert_eq!(operation("build_tool(\"build\")"), Operation::BuildTool);
    assert_eq!(operation("extract_number(response)"), Operation::ExtractNumber);
    assert_eq!(operation("finish"), Operation::Finish);
    assert_eq!(operation("finish()"), Operation::Unknown);
    assert_eq!(operation(""), Operation::Unknown);
}

#[test]
fn the_result_of_a_command_selects_the_transition_with_its_guard() {
    let m = machine();
    assert_eq!(m.states[3].select(&built(true, "")), Some(0));
    assert_eq!(m.states[3].select(&built(false, "error")), Some(1));
    assert_eq!(m.advance(3, &built(true, "")), Some(5));
    assert_eq!(m.advance(3, &built(false, "error")), Some(4));
    assert_eq!(m.states[3].select(&Outcome::Unit), None);
}

#[test]
fn a_number_selects_the_transition_with_its_text() {
    let m = machine();
    assert_eq!(m.advance(4, &Outcome::Number(1)), Some(0));
    assert_eq!(m.advance(4, &Outcome::Number(2)), Some(5));
    assert_eq!(m.advance(4, &Outcome::Number(3)), None);
    assert_eq!(write_number(0), "0");
    assert_eq!(write_number(-17), "-17");
    assert_eq!(write_number(i32::MAX), "2147483647");
    assert_eq!(write_number(i32::MIN), "-2147483648");
}

#[test]
fn a_state_without_a_choice_takes_its_one_transition() {
    let m = machine();
    assert_eq!(m.advance(0, &Outcome::Text("answer".to_string())), Some(1));
    assert_eq!(m.advance(2, &Outcome::Unit), Some(3));
    assert_eq!(m.advance(5, &Outcome::Unit), None);
}

#[test]
fn a_missing_guard_shows_as_no_transition() {
    let only_success = state("build_tool(\"test\")", &[("finish", "(true,output)")]);
    assert_eq!(only_success.select(&built(true, "")), Some(0));
    assert_eq!(only_success.select(&built(false, "x")), None);
}

#[test]
fn a_machine_is_resolvable_when_every_target_is_a_state() {
    let mut m = machine();
    assert!(m.is_resolvable());
    assert_eq!(m.find_state("finish"), Some(5));
    assert_eq!(m.find_state("nowhere"), None);
    m.states[1].transitions[0].target = "nowhere".to_string();
    assert!(!m.is_resolvable());
    assert_eq!(m.advance(1, &Outcome::Text(String::new())), None);
}

#[test]
fn the_last_binding_replaces_the_one_before_and_the_four_stay() {
    let mut env = Environment::new();
    assert_eq!(env.get("code"), Some(String::new()));
    assert_eq!(env.get("question"), None);
    env.bind("question", "add two numbers");
    assert_eq!(env.get("question"), Some("add two numbers".to_string()));
    env.take("code_response", &Outcome::Text("```\nfn f() {}\n```".to_string()));
    assert_eq!(env.get("question"), None);
    assert_eq!(env.get("code_response"), Some("```\nfn f() {}\n```".to_string()));
    env.take("code", &Outcome::Text("fn f() {}".to_string()));
    assert_eq!(env.get("code_response"), None);
    assert_eq!(env.get("code"), Some("fn f() {}".to_string()));
    env.take("(false,output)", &built(false, "error[E1]"));
    assert_eq!(env.get("output"), Some("error[E1]".to_string()));
    assert_eq!(env.get("code"), Some("fn f() {}".to_string()));
    env.take("1", &Outcome::Number(1));
    assert_eq!(env.bound, None);
    assert_eq!(env.get("output"), Some("error[E1]".to_string()));
    assert_eq!(env.get("tests"), Some(String::new()));
    assert_eq!(env.get("dependencies"), Some(String::new()));
}

#[test]
fn a_state_name_carries_its_arguments() {
    let list = |items: &[&str]| -> Vec<String> { items.iter().map(|s| s.to_string()).collect() };
    assert_eq!(arguments("llm_request(\"generate\",[question])"), list(&["generate", "question"]));
    assert_eq!(arguments("llm_request(\"rewrite\", [code, output])"), list(&["rewrite", "code", "output"]));
    assert_eq!(arguments("create_project(code,dependencies,tests)"), list(&["code", "dependencies", "tests"]));
    assert_eq!(arguments("build_tool(\"build\")"), list(&["build"]));
    assert_eq!(arguments("f(a,,b)"), list(&["a", "", "b"]));
    assert_eq!(arguments("f(a,)"), list(&["a", ""]));
    assert_eq!(arguments("f(g(x),y)"), list(&["g(x)", "y"]));
    assert!(arguments("finish").is_empty());
    assert!(arguments("f()").is_empty());
    assert!(arguments("f(a").is_empty());
    assert!(arguments("").is_empty());
    assert!(arguments(")").is_empty());
}

#[test]
fn arguments_are_resolved_from_the_variables() {
    let mut env = Environment::new();
    env.bind("code", "fn f() {}");
    env.bind("question", "add");
    let names = vec!["code".to_string(), "question".to_string(), "unbound".to_string(), "output".to_string()];
    assert_eq!(
        env.resolve(&names),
        vec![Some("fn f() {}".to_string()), Some("add".to_string()), None, Some(String::new())]
    );
    assert!(env.resolve(&Vec::new()).is_empty());
}

#[test]
fn a_machine_has_build_guards_when_every_command_has_both_transitions() {
    let mut m = machine();
    assert!(m.has_build_guards());
    assert!(m.states[3].has_build_guards());
    assert!(!m.states[0].has_build_guards());
    m.states[3].transitions.pop();
    assert!(!m.states[3].has_build_guards());
    assert!(!m.has_build_guards());
    m.states[3].transitions[0].label = "(false,output)".to_string();
    assert!(!m.has_build_guards());
    let none = StateMachine { states: Vec::new() };
    assert!(none.has_build_guards());
    let other = StateMachine { states: vec![state("finish", &[])] };
    assert!(other.has_build_guards());
}
