use rustsn::build_tool::BuildResult;
use rustsn::diagram::parse_diagram;
use rustsn::diagram::read_edge;
use rustsn::diagram::MARKER;
use rustsn::interpreter::Outcome;

const DIAGRAM: &str = "stateDiagram\n  [*] --> llm_request(\"generate\",[question])\n  llm_request(\"generate\",[question]) --> extract_code(code_response) : code_response\n  extract_code(code_response) --> create_project(code,dependencies,tests) : code\n  create_project(code,dependencies,tests) --> build_tool(\"build\")\n  build_tool(\"build\") --> finish : (true,output)\n  build_tool(\"build\") --> llm_request(\"rewrite\",[code,output]) : (false,output)\n  llm_request(\"rewrite\",[code,output]) --> extract_code(code_response) : code_response\n  finish --> [*]\n";

fn parts(a: &str, b: &str, c: &str) -> Option<(String, String, String)> {
    Some((a.to_string(), b.to_string(), c.to_string()))
}

#[test]
fn a_line_with_an_arrow_is_a_transition() {
    assert_eq!(read_edge("a --> b"), parts("a", "b", ""));
    assert_eq!(read_edge("  a-->b:c  "), parts("a", "b", "c"));
    assert_eq!(read_edge("a --> b : (true,output)"), parts("a", "b", "(true,output)"));
    assert_eq!(read_edge("a --> b : x : y"), parts("a", "b", "x : y"));
    assert_eq!(read_edge("a: b --> c"), parts("a: b", "c", ""));
    assert_eq!(read_edge("a --> b --> c"), parts("a", "b --> c", ""));
    assert_eq!(read_edge("-->"), parts("", "", ""));
    assert_eq!(read_edge("stateDiagram"), None);
    assert_eq!(read_edge("a -> b"), None);
    assert_eq!(read_edge(""), None);
}

#[test]
fn a_diagram_gives_the_states_in_the_order_of_their_first_mention() {
    let machine = parse_diagram(DIAGRAM);
    let names: Vec<&str> = machine.states.iter().map(|s| s.name.as_str()).collect();
    assert_eq!(
        names,
        vec![
            "[*]",
            "llm_request(\"generate\",[question])",
            "extract_code(code_response)",
            "create_project(code,dependencies,tests)",
            "build_tool(\"build\")",
            "finish",
            "llm_request(\"rewrite\",[code,output])",
        ]
    );
    assert_eq!(MARKER, "[*]");
    assert_eq!(machine.states[0].transitions.len(), 1);
    assert_eq!(machine.states[4].transitions.len(), 2);
    assert_eq!(machine.states[4].transitions[1].target, "llm_request(\"rewrite\",[code,output])");
    assert_eq!(machine.states[4].transitions[1].label, "(false,output)");
    assert_eq!(machine.states[5].transitions[0].target, "[*]");
    assert!(machine.is_resolvable());
}

#[test]
fn a_run_follows_the_diagram() {
    let machine = parse_diagram(DIAGRAM);
    let mut at = machine.find_state(MARKER).unwrap();
    let mut visited = Vec::new();
    let outcomes = vec![
        Outcome::Unit,
        Outcome::Text("answer".to_string()),
        Outcome::Text("code".to_string()),
        Outcome::Unit,
        Outcome::Build(BuildResult { success: false, diagnostic: "E".to_string() }),
        Outcome::Text("answer 2".to_string()),
        Outcome::Text("code 2".to_string()),
        Outcome::Unit,
        Outcome::Build(BuildResult { success: true, diagnostic: String::new() }),
    ];
    for outcome in outcomes.iter() {
        at = machine.advance(at, outcome).unwrap();
        visited.push(at);
    }
    assert_eq!(visited, vec![1, 2, 3, 4, 6, 2, 3, 4, 5]);
    assert_eq!(machine.advance(at, &Outcome::Unit), None);
}

#[test]
fn a_text_without_arrows_has_no_state() {
    assert!(parse_diagram("").states.is_empty());
    assert!(parse_diagram("stateDiagram\n\nnothing here\n").states.is_empty());
    let one = parse_diagram("a --> a : again");
    assert_eq!(one.states.len(), 1);
    assert_eq!(one.states[0].transitions.len(), 1);
}
