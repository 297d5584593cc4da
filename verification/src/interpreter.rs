//! The loop as data: states that name an operation, and transitions that a
//! result selects. The interpreter decides which transition a result takes
//! and what the variables hold after it; performing the operations is left
//! to its caller.

use vstd::prelude::*;
use crate::build_tool::BuildResult;
use crate::lines::views;
use crate::number::decimal;
use crate::number::write_decimal;
use crate::text::append;
use crate::text::find_from;
use crate::text::first_occurrence;
use crate::text::lemma_first_occurrence;
use crate::text::occurs_at;
use crate::text::from_chars;
use crate::text::matches_at;
use crate::text::slice;
use crate::text::starts_with;
use crate::text::to_chars;
use crate::text::trim_end;
use crate::text::trim_end_of;
use crate::text::trim_start;
use crate::text::trim_start_of;
use crate::text::CharClass;
use crate::text_map::same_text;

verus! {

/// What a state does, as its name says.
#[derive(Clone, Copy, PartialEq, Eq, Structural, Debug)]
pub enum Operation {
    /// `llm_request(...)`: ask the model.
    LlmRequest,
    /// `extract_code(...)`, `extract_dep(...)`, `extract_test(...)`: take a
    /// part out of a response.
    Extract,
    /// `create_project(...)`: write the files.
    CreateProject,
    /// `build_tool(...)`: run a command.
    BuildTool,
    /// `extract_number(...)`: read a number out of a response.
    ExtractNumber,
    /// `finish`: stop.
    Finish,
    /// Anything else.
    Unknown,
}

/// The operation that the state name `name` stands for.
pub open spec fn operation_of(name: Seq<char>) -> Operation {
    if name == "finish"@ {
        Operation::Finish
    } else if starts_with(name, "llm_request("@) {
        Operation::LlmRequest
    } else if starts_with(name, "extract_number("@) {
        Operation::ExtractNumber
    } else if starts_with(name, "extract_code("@) || starts_with(name, "extract_dep("@)
        || starts_with(name, "extract_test("@) {
        Operation::Extract
    } else if starts_with(name, "create_project("@) {
        Operation::CreateProject
    } else if starts_with(name, "build_tool("@) {
        Operation::BuildTool
    } else {
        Operation::Unknown
    }
}

/// The operation that the state name `name` stands for.
pub fn operation(name: &str) -> (r: Operation)
    ensures
        r == operation_of(name@),
{
    let chars = to_chars(name);
    if same_text(name, "finish") {
        Operation::Finish
    } else if matches_at(&chars, &to_chars("llm_request("), 0) {
        Operation::LlmRequest
    } else if matches_at(&chars, &to_chars("extract_number("), 0) {
        Operation::ExtractNumber
    } else if matches_at(&chars, &to_chars("extract_code("), 0) || matches_at(
        &chars,
        &to_chars("extract_dep("),
        0,
    ) || matches_at(&chars, &to_chars("extract_test("), 0) {
        Operation::Extract
    } else if matches_at(&chars, &to_chars("create_project("), 0) {
        Operation::CreateProject
    } else if matches_at(&chars, &to_chars("build_tool("), 0) {
        Operation::BuildTool
    } else {
        Operation::Unknown
    }
}

/// One way out of a state.
#[derive(Debug, PartialEq, Eq)]
pub struct Transition {
    /// The name of the state that the transition leads to.
    pub target: String,
    /// The guard: the result, written as text, that takes this transition.
    /// On the one transition of a state without a choice, the name of the
    /// variable that the result is bound to.
    pub label: String,
}

/// A state: its name, which says what it does, and the ways out of it.
#[derive(Debug, PartialEq, Eq)]
pub struct State {
    pub name: String,
    pub transitions: Vec<Transition>,
}

/// The states of a machine.
#[derive(Debug, PartialEq, Eq)]
pub struct StateMachine {
    pub states: Vec<State>,
}

/// What the operation of a state came to.
#[derive(Debug, PartialEq, Eq)]
pub enum Outcome {
    /// A text: an answer of the model, or a part of one.
    Text(String),
    /// The result of a command.
    Build(BuildResult),
    /// A number.
    Number(i32),
    /// Nothing to hand on.
    Unit,
}

/// The guard that the result of a command meets.
pub open spec fn build_guard(success: bool) -> Seq<char> {
    if success {
        "(true,output)"@
    } else {
        "(false,output)"@
    }
}

/// The number `n` written as text.
pub open spec fn number_text(n: int) -> Seq<char> {
    if n < 0 {
        seq!['-'] + decimal((-n) as nat)
    } else {
        decimal(n as nat)
    }
}

/// The labels of `edges`.
pub open spec fn labels_of(edges: Seq<Transition>) -> Seq<Seq<char>> {
    Seq::new(edges.len(), |i: int| edges[i].label@)
}

/// The index of the first of the first `k` labels that is `guard`.
pub open spec fn first_labelled(labels: Seq<Seq<char>>, guard: Seq<char>, k: int) -> Option<int>
    decreases k,
{
    if k <= 0 {
        None
    } else {
        match first_labelled(labels, guard, k - 1) {
            Some(i) => Some(i),
            None => if labels[k - 1] == guard {
                Some(k - 1)
            } else {
                None
            },
        }
    }
}

/// The kind of result, and what the guards see of it.
pub ghost enum OutcomeView {
    Text(Seq<char>),
    Build((bool, Seq<char>)),
    Number(int),
    Unit,
}

impl View for Outcome {
    type V = OutcomeView;

    open spec fn view(&self) -> OutcomeView {
        match self {
            Outcome::Text(text) => OutcomeView::Text(text@),
            Outcome::Build(result) => OutcomeView::Build(result@),
            Outcome::Number(n) => OutcomeView::Number(*n as int),
            Outcome::Unit => OutcomeView::Unit,
        }
    }
}

/// The transition that `outcome` takes out of a state of operation `op`
/// with the labels `labels`: after a command the first whose guard is the
/// result, after a number the first whose guard is the number, out of the
/// last state none, and else the first there is. `None` where there is none
/// to take.
pub open spec fn selected(op: Operation, labels: Seq<Seq<char>>, outcome: OutcomeView) -> Option<
    int,
> {
    match op {
        Operation::Finish => None,
        Operation::BuildTool => match outcome {
            OutcomeView::Build(result) => first_labelled(
                labels,
                build_guard(result.0),
                labels.len() as int,
            ),
            _ => None,
        },
        Operation::ExtractNumber => match outcome {
            OutcomeView::Number(n) => first_labelled(labels, number_text(n), labels.len() as int),
            _ => None,
        },
        _ => if labels.len() > 0 {
            Some(0)
        } else {
            None
        },
    }
}

/// A number written as text.
pub fn write_number(n: i32) -> (r: String)
    ensures
        r@ == number_text(n as int),
{
    let wide: i64 = n as i64;
    if wide < 0 {
        let magnitude: usize = (-wide) as usize;
        let mut out: Vec<char> = Vec::new();
        out.push('-');
        append(&mut out, &write_decimal(magnitude));
        from_chars(&out)
    } else {
        let magnitude: usize = wide as usize;
        from_chars(&write_decimal(magnitude))
    }
}

/// Once a label is found, looking at more labels changes nothing.
proof fn lemma_first_labelled_stays(labels: Seq<Seq<char>>, guard: Seq<char>, k: int, n: int)
    requires
        0 <= k <= n,
        first_labelled(labels, guard, k) is Some,
    ensures
        first_labelled(labels, guard, n) == first_labelled(labels, guard, k),
    decreases n,
{
    if n > k {
        lemma_first_labelled_stays(labels, guard, k, n - 1);
    }
}

/// A label that is among the labels is found.
pub proof fn lemma_label_is_found(labels: Seq<Seq<char>>, guard: Seq<char>, i: int)
    requires
        0 <= i < labels.len(),
        labels[i] == guard,
    ensures
        first_labelled(labels, guard, labels.len() as int) is Some,
{
    assert(first_labelled(labels, guard, i + 1) is Some);
    lemma_first_labelled_stays(labels, guard, i + 1, labels.len() as int);
}

impl State {
    /// The operation of the state.
    pub open spec fn op(&self) -> Operation {
        operation_of(self.name@)
    }

    /// Whether the state has a transition for a command that succeeds and one
    /// for a command that fails.
    pub open spec fn covers_build(&self) -> bool {
        &&& exists|i: int|
            0 <= i < self.transitions@.len() && (#[trigger] self.transitions@[i]).label@
                == build_guard(true)
        &&& exists|i: int|
            0 <= i < self.transitions@.len() && (#[trigger] self.transitions@[i]).label@
                == build_guard(false)
    }

    /// The index of the first transition whose label is `guard`.
    fn find_label(&self, guard: &str) -> (r: Option<usize>)
        ensures
            match r {
                Some(i) => i < self.transitions@.len() && first_labelled(
                    labels_of(self.transitions@),
                    guard@,
                    self.transitions@.len() as int,
                ) == Some(i as int),
                None => first_labelled(
                    labels_of(self.transitions@),
                    guard@,
                    self.transitions@.len() as int,
                ) is None,
            },
    {
        let ghost labels = labels_of(self.transitions@);
        let mut k: usize = 0;
        while k < self.transitions.len()
            invariant
                k <= self.transitions.len(),
                labels == labels_of(self.transitions@),
                first_labelled(labels, guard@, k as int) is None,
            decreases self.transitions.len() - k,
        {
            assert(labels[k as int] == self.transitions@[k as int].label@);
            if same_text(self.transitions[k].label.as_str(), guard) {
                proof {
                    lemma_first_labelled_stays(
                        labels,
                        guard@,
                        k + 1,
                        self.transitions.len() as int,
                    );
                }
                return Some(k);
            }
            k += 1;
        }
        None
    }

    /// Whether the state has a transition for a command that succeeds and one
    /// for a command that fails.
    pub fn has_build_guards(&self) -> (r: bool)
        ensures
            r == self.covers_build(),
    {
        let ghost labels = labels_of(self.transitions@);
        let passed = self.find_label("(true,output)");
        let failed = self.find_label("(false,output)");
        proof {
            let n = self.transitions@.len() as int;
            lemma_first_labelled_in_range(labels, build_guard(true), n);
            lemma_first_labelled_in_range(labels, build_guard(false), n);
            if passed is Some {
                assert(self.transitions@[passed->0 as int].label@ == labels[passed->0 as int]);
            }
            if failed is Some {
                assert(self.transitions@[failed->0 as int].label@ == labels[failed->0 as int]);
            }
            if passed is None && exists|i: int|
                0 <= i < self.transitions@.len() && (#[trigger] self.transitions@[i]).label@
                    == build_guard(true) {
                let i = choose|i: int|
                    0 <= i < self.transitions@.len() && (#[trigger] self.transitions@[i]).label@
                        == build_guard(true);
                assert(labels[i] == build_guard(true));
                lemma_label_is_found(labels, build_guard(true), i);
            }
            if failed is None && exists|i: int|
                0 <= i < self.transitions@.len() && (#[trigger] self.transitions@[i]).label@
                    == build_guard(false) {
                let i = choose|i: int|
                    0 <= i < self.transitions@.len() && (#[trigger] self.transitions@[i]).label@
                        == build_guard(false);
                assert(labels[i] == build_guard(false));
                lemma_label_is_found(labels, build_guard(false), i);
            }
        }
        passed.is_some() && failed.is_some()
    }

    /// The index of the transition that `outcome` takes out of the state;
    /// `None` where the state has none for it.
    pub fn select(&self, outcome: &Outcome) -> (r: Option<usize>)
        ensures
            match r {
                Some(i) => i < self.transitions@.len() && selected(
                    self.op(),
                    labels_of(self.transitions@),
                    outcome@,
                ) == Some(i as int),
                None => selected(self.op(), labels_of(self.transitions@), outcome@) is None,
            },
    {
        match operation(self.name.as_str()) {
            Operation::Finish => None,
            Operation::BuildTool => match outcome {
                Outcome::Build(result) => {
                    if result.success {
                        self.find_label("(true,output)")
                    } else {
                        self.find_label("(false,output)")
                    }
                },
                _ => None,
            },
            Operation::ExtractNumber => match outcome {
                Outcome::Number(n) => {
                    let guard = write_number(*n);
                    self.find_label(guard.as_str())
                },
                _ => None,
            },
            _ => if self.transitions.len() > 0 {
                Some(0)
            } else {
                None
            },
        }
    }
}

impl StateMachine {
    /// The index of the first of the first `k` states whose name is `name`.
    pub open spec fn index_of(&self, name: Seq<char>, k: int) -> Option<int>
        decreases k,
    {
        if k <= 0 {
            None
        } else {
            match self.index_of(name, k - 1) {
                Some(i) => Some(i),
                None => if self.states@[k - 1].name@ == name {
                    Some(k - 1)
                } else {
                    None
                },
            }
        }
    }

    /// Whether a state has the name `name`.
    pub open spec fn has_state(&self, name: Seq<char>) -> bool {
        self.index_of(name, self.states@.len() as int) is Some
    }

    /// Whether every transition leads to a state of the machine.
    pub open spec fn resolvable(&self) -> bool {
        forall|i: int, j: int|
            0 <= i < self.states@.len() && 0 <= j < self.states@[i].transitions@.len()
                ==> self.has_state((#[trigger] self.states@[i].transitions@[j]).target@)
    }

    /// Whether every state that runs a command has a transition for either
    /// result.
    pub open spec fn covers_builds(&self) -> bool {
        forall|i: int|
            0 <= i < self.states@.len() && (#[trigger] self.states@[i]).op()
                == Operation::BuildTool ==> self.states@[i].covers_build()
    }

    /// The index of the state of name `name`.
    pub fn find_state(&self, name: &str) -> (r: Option<usize>)
        ensures
            match r {
                Some(i) => i < self.states@.len() && self.index_of(
                    name@,
                    self.states@.len() as int,
                ) == Some(i as int),
                None => !self.has_state(name@),
            },
    {
        let mut k: usize = 0;
        while k < self.states.len()
            invariant
                k <= self.states.len(),
                self.index_of(name@, k as int) is None,
            decreases self.states.len() - k,
        {
            if same_text(self.states[k].name.as_str(), name) {
                proof {
                    self.lemma_index_stays(name@, k + 1, self.states@.len() as int);
                }
                return Some(k);
            }
            k += 1;
        }
        None
    }

    /// Once a state is found, looking at more states changes nothing.
    proof fn lemma_index_stays(&self, name: Seq<char>, k: int, n: int)
        requires
            0 <= k <= n,
            self.index_of(name, k) is Some,
        ensures
            self.index_of(name, n) == self.index_of(name, k),
        decreases n,
    {
        if n > k {
            self.lemma_index_stays(name, k, n - 1);
        }
    }

    /// Whether every transition leads to a state of the machine.
    pub fn is_resolvable(&self) -> (r: bool)
        ensures
            r == self.resolvable(),
    {
        let mut i: usize = 0;
        while i < self.states.len()
            invariant
                i <= self.states.len(),
                forall|a: int, b: int|
                    0 <= a < i && 0 <= b < self.states@[a].transitions@.len()
                        ==> self.has_state((#[trigger] self.states@[a].transitions@[b]).target@),
            decreases self.states.len() - i,
        {
            let mut j: usize = 0;
            while j < self.states[i].transitions.len()
                invariant
                    i < self.states.len(),
                    j <= self.states@[i as int].transitions@.len(),
                    forall|a: int, b: int|
                        0 <= a < i && 0 <= b < self.states@[a].transitions@.len()
                            ==> self.has_state(
                            (#[trigger] self.states@[a].transitions@[b]).target@,
                        ),
                    forall|b: int|
                        0 <= b < j ==> self.has_state(
                            (#[trigger] self.states@[i as int].transitions@[b]).target@,
                        ),
                decreases self.states@[i as int].transitions@.len() - j,
            {
                match self.find_state(self.states[i].transitions[j].target.as_str()) {
                    Some(_) => {},
                    None => {
                        return false;
                    },
                }
                j += 1;
            }
            i += 1;
        }
        true
    }

    /// Whether every state that runs a command has a transition for either
    /// result.
    pub fn has_build_guards(&self) -> (r: bool)
        ensures
            r == self.covers_builds(),
    {
        let mut i: usize = 0;
        while i < self.states.len()
            invariant
                i <= self.states.len(),
                forall|a: int|
                    0 <= a < i && (#[trigger] self.states@[a]).op() == Operation::BuildTool
                        ==> self.states@[a].covers_build(),
            decreases self.states.len() - i,
        {
            match operation(self.states[i].name.as_str()) {
                Operation::BuildTool => {
                    if !self.states[i].has_build_guards() {
                        return false;
                    }
                },
                _ => {},
            }
            i += 1;
        }
        true
    }

    /// The index of the state that `outcome` leads to from state `current`;
    /// `None` where no transition takes it, or the transition leads nowhere.
    pub fn advance(&self, current: usize, outcome: &Outcome) -> (r: Option<usize>)
        requires
            current < self.states@.len(),
        ensures
            match r {
                Some(next) => {
                    &&& next < self.states@.len()
                    &&& selected(
                        self.states@[current as int].op(),
                        labels_of(self.states@[current as int].transitions@),
                        outcome@,
                    ) matches Some(edge) && self.index_of(
                        self.states@[current as int].transitions@[edge].target@,
                        self.states@.len() as int,
                    ) == Some(next as int)
                },
                None => selected(
                    self.states@[current as int].op(),
                    labels_of(self.states@[current as int].transitions@),
                    outcome@,
                ) matches Some(edge) ==> !self.has_state(
                    self.states@[current as int].transitions@[edge].target@,
                ),
            },
    {
        match self.states[current].select(outcome) {
            Some(edge) => self.find_state(self.states[current].transitions[edge].target.as_str()),
            None => None,
        }
    }
}

/// A state that runs a command and has a transition for either result has
/// one for whatever the command comes to.
pub proof fn lemma_build_guard_found(state: State, result: (bool, Seq<char>))
    requires
        state.op() == Operation::BuildTool,
        state.covers_build(),
    ensures
        selected(state.op(), labels_of(state.transitions@), OutcomeView::Build(result)) is Some,
{
    let labels = labels_of(state.transitions@);
    let i = choose|i: int|
        0 <= i < state.transitions@.len() && (#[trigger] state.transitions@[i]).label@
            == build_guard(result.0);
    assert(labels[i] == build_guard(result.0));
    lemma_label_is_found(labels, build_guard(result.0), i);
}

/// In a machine whose every transition leads to a state, and whose every
/// state that runs a command has a transition for either result, the result
/// of a command always leads to a next state.
pub proof fn lemma_guards_exhaustive(
    machine: StateMachine,
    current: int,
    result: (bool, Seq<char>),
)
    requires
        machine.resolvable(),
        machine.covers_builds(),
        0 <= current < machine.states@.len(),
        machine.states@[current].op() == Operation::BuildTool,
    ensures
        selected(
            machine.states@[current].op(),
            labels_of(machine.states@[current].transitions@),
            OutcomeView::Build(result),
        ) matches Some(edge) && 0 <= edge < machine.states@[current].transitions@.len()
            && machine.has_state(machine.states@[current].transitions@[edge].target@),
{
    let state = machine.states@[current];
    lemma_build_guard_found(state, result);
    let labels = labels_of(state.transitions@);
    lemma_first_labelled_in_range(labels, build_guard(result.0), labels.len() as int);
    let edge = selected(state.op(), labels, OutcomeView::Build(result))->0;
    assert(machine.has_state((#[trigger] machine.states@[current].transitions@[edge]).target@));
}

/// The label that is found is one of the labels looked at.
pub proof fn lemma_first_labelled_in_range(labels: Seq<Seq<char>>, guard: Seq<char>, k: int)
    requires
        k <= labels.len(),
    ensures
        first_labelled(labels, guard, k) matches Some(i) ==> 0 <= i < k && labels[i] == guard,
    decreases k,
{
    if k > 0 {
        lemma_first_labelled_in_range(labels, guard, k - 1);
    }
}

/// The variables of a run: the one that the last state bound, and the four
/// that stay for the whole run.
#[derive(Debug, PartialEq, Eq)]
pub struct Environment {
    /// The name and the value of the variable that the last state bound.
    pub bound: Option<(String, String)>,
    pub code: String,
    pub dependencies: String,
    pub tests: String,
    pub output: String,
}

/// An `Environment` as plain values.
pub ghost struct EnvironmentView {
    pub bound: Option<(Seq<char>, Seq<char>)>,
    pub code: Seq<char>,
    pub dependencies: Seq<char>,
    pub tests: Seq<char>,
    pub output: Seq<char>,
}

impl View for Environment {
    type V = EnvironmentView;

    open spec fn view(&self) -> EnvironmentView {
        EnvironmentView {
            bound: match self.bound {
                Some(pair) => Some((pair.0@, pair.1@)),
                None => None,
            },
            code: self.code@,
            dependencies: self.dependencies@,
            tests: self.tests@,
            output: self.output@,
        }
    }
}

/// The value of the variable `name`: one of the four that stay, by its name,
/// or what the last state bound under that name.
pub open spec fn value_of(env: EnvironmentView, name: Seq<char>) -> Option<Seq<char>> {
    if name == "code"@ {
        Some(env.code)
    } else if name == "dependencies"@ {
        Some(env.dependencies)
    } else if name == "tests"@ {
        Some(env.tests)
    } else if name == "output"@ {
        Some(env.output)
    } else {
        match env.bound {
            Some(pair) => if pair.0 == name {
                Some(pair.1)
            } else {
                None
            },
            None => None,
        }
    }
}

/// The variables after `value` was bound to `name`: what was bound before is
/// gone, and one of the four that stay is written where `name` names it.
pub open spec fn rebound(env: EnvironmentView, name: Seq<char>, value: Seq<char>)
    -> EnvironmentView {
    let seeded = EnvironmentView { bound: Some((name, value)), ..env };
    if name == "code"@ {
        EnvironmentView { code: value, ..seeded }
    } else if name == "dependencies"@ {
        EnvironmentView { dependencies: value, ..seeded }
    } else if name == "tests"@ {
        EnvironmentView { tests: value, ..seeded }
    } else if name == "output"@ {
        EnvironmentView { output: value, ..seeded }
    } else {
        seeded
    }
}

/// The variables after a state whose transition has the label `label` came
/// to `outcome`: a text is bound to the label, what a command wrote is bound
/// to `output`, and a number or nothing leaves no variable bound.
pub open spec fn env_after(env: EnvironmentView, label: Seq<char>, outcome: OutcomeView)
    -> EnvironmentView {
    match outcome {
        OutcomeView::Text(text) => rebound(env, label, text),
        OutcomeView::Build(result) => rebound(env, "output"@, result.1),
        _ => EnvironmentView { bound: None, ..env },
    }
}

impl Environment {
    /// The variables at the start of a run: nothing bound, every text empty.
    pub fn new() -> (r: Environment)
        ensures
            r@ == (EnvironmentView {
                bound: None,
                code: Seq::empty(),
                dependencies: Seq::empty(),
                tests: Seq::empty(),
                output: Seq::empty(),
            }),
    {
        Environment {
            bound: None,
            code: String::new(),
            dependencies: String::new(),
            tests: String::new(),
            output: String::new(),
        }
    }

    /// The value of the variable `name`.
    pub fn get(&self, name: &str) -> (r: Option<String>)
        ensures
            match r {
                Some(value) => value_of(self@, name@) == Some(value@),
                None => value_of(self@, name@) is None,
            },
    {
        if same_text(name, "code") {
            Some(self.code.clone())
        } else if same_text(name, "dependencies") {
            Some(self.dependencies.clone())
        } else if same_text(name, "tests") {
            Some(self.tests.clone())
        } else if same_text(name, "output") {
            Some(self.output.clone())
        } else {
            match &self.bound {
                Some(pair) => if same_text(pair.0.as_str(), name) {
                    Some(pair.1.clone())
                } else {
                    None
                },
                None => None,
            }
        }
    }

    /// Binds `value` to `name`.
    pub fn bind(&mut self, name: &str, value: &str)
        ensures
            final(self)@ == rebound(old(self)@, name@, value@),
    {
        if same_text(name, "code") {
            self.code = value.to_owned();
        } else if same_text(name, "dependencies") {
            self.dependencies = value.to_owned();
        } else if same_text(name, "tests") {
            self.tests = value.to_owned();
        } else if same_text(name, "output") {
            self.output = value.to_owned();
        }
        self.bound = Some((name.to_owned(), value.to_owned()));
    }

    /// Takes in what a state came to, whose transition has the label `label`.
    pub fn take(&mut self, label: &str, outcome: &Outcome)
        ensures
            final(self)@ == env_after(old(self)@, label@, outcome@),
    {
        match outcome {
            Outcome::Text(text) => self.bind(label, text.as_str()),
            Outcome::Build(result) => self.bind("output", result.diagnostic.as_str()),
            _ => {
                self.bound = None;
            },
        }
    }
}

/// What stands between the first `(` of a state name and the `)` at its
/// end; nothing where the name has no such shape.
pub open spec fn inner_of(name: Seq<char>) -> Seq<char> {
    match first_occurrence(name, "("@, 0) {
        Some(open) => if name.last() == ')' {
            name.subrange(open + 1, name.len() - 1)
        } else {
            Seq::empty()
        },
        None => Seq::empty(),
    }
}

/// What a scan of `s` from the left has found: the pieces that a comma has
/// ended, and the characters after the last comma.
pub open spec fn comma_scan(s: Seq<char>) -> (Seq<Seq<char>>, Seq<char>)
    decreases s.len(),
{
    if s.len() == 0 {
        (Seq::empty(), Seq::empty())
    } else {
        let (done, cur) = comma_scan(s.drop_last());
        if s.last() == ',' {
            (done.push(cur), Seq::empty())
        } else {
            (done, cur.push(s.last()))
        }
    }
}

/// An argument without the white space, quotes and brackets around it.
pub open spec fn unwrapped(piece: Seq<char>) -> Seq<char> {
    trim_end_of(trim_start_of(piece, CharClass::ArgumentWrap), CharClass::ArgumentWrap)
}

/// The arguments that a state name carries: the pieces between the commas of
/// what stands in its parentheses, each without what is wrapped around it.
/// Empty parentheses carry no argument.
pub open spec fn arguments_of(name: Seq<char>) -> Seq<Seq<char>> {
    let inner = inner_of(name);
    let (done, cur) = comma_scan(inner);
    if inner.len() == 0 {
        Seq::empty()
    } else {
        Seq::new(done.len() + 1, |i: int| unwrapped(done.push(cur)[i]))
    }
}

/// The texts of `items`.
pub open spec fn texts_of(items: Seq<String>) -> Seq<Seq<char>> {
    Seq::new(items.len(), |i: int| items[i]@)
}

/// The arguments that the state name `name` carries.
pub fn arguments(name: &str) -> (r: Vec<String>)
    ensures
        texts_of(r@) == arguments_of(name@),
{
    proof {
        reveal_strlit("(");
    }
    let chars = to_chars(name);
    let n = chars.len();
    let found = find_from(&chars, &to_chars("("), 0);
    proof {
        lemma_first_occurrence(
            chars@,
            "("@,
            0,
            match found {
                Some(i) => Some(i as int),
                None => None,
            },
        );
    }
    let mut out: Vec<String> = Vec::new();
    let open = match found {
        Some(open) => open,
        None => {
            assert(texts_of(out@) =~= arguments_of(name@));
            return out;
        },
    };
    assert("("@.len() == 1);
    assert(occurs_at(chars@, "("@, open as int));
    assert(chars@.subrange(open as int, open + 1)[0] == "("@[0]);
    assert(chars@[open as int] == '(');
    if chars[n - 1] != ')' {
        assert(texts_of(out@) =~= arguments_of(name@));
        return out;
    }
    let inner = slice(&chars, open + 1, n - 1);
    if inner.len() == 0 {
        assert(texts_of(out@) =~= arguments_of(name@));
        return out;
    }
    let mut done: Vec<Vec<char>> = Vec::new();
    let mut cur: Vec<char> = Vec::new();
    let mut i: usize = 0;
    assert(views(done@) =~= Seq::<Seq<char>>::empty());
    while i < inner.len()
        invariant
            i <= inner.len(),
            (views(done@), cur@) == comma_scan(inner@.take(i as int)),
        decreases inner.len() - i,
    {
        assert(inner@.take(i + 1).drop_last() == inner@.take(i as int));
        let c = inner[i];
        if c == ',' {
            let ghost before = done@;
            let ghost piece = cur@;
            done.push(cur);
            assert(views(done@) =~= views(before).push(piece));
            cur = Vec::new();
        } else {
            cur.push(c);
        }
        i += 1;
    }
    assert(inner@.take(inner.len() as int) == inner@);
    let ghost before = done@;
    let ghost piece = cur@;
    done.push(cur);
    assert(views(done@) =~= views(before).push(piece));
    let mut k: usize = 0;
    while k < done.len()
        invariant
            k <= done.len(),
            out@.len() == k,
            forall|j: int| 0 <= j < k ==> (#[trigger] out@[j])@ == unwrapped(done@[j]@),
        decreases done.len() - k,
    {
        let front = trim_start(&done[k], CharClass::ArgumentWrap);
        let bare = trim_end(&front, CharClass::ArgumentWrap);
        out.push(from_chars(&bare));
        k += 1;
    }
    assert(texts_of(out@) =~= arguments_of(name@)) by {
        assert forall|j: int| 0 <= j < done.len() implies texts_of(out@)[j] == arguments_of(
            name@,
        )[j] by {
            assert(views(done@)[j] == done@[j]@);
        }
    }
    out
}

/// The values of the variables `names`, in their order.
pub open spec fn resolved(env: EnvironmentView, names: Seq<Seq<char>>) -> Seq<Option<Seq<char>>> {
    Seq::new(names.len(), |i: int| value_of(env, names[i]))
}

/// The values that `found` holds.
pub open spec fn value_views(found: Seq<Option<String>>) -> Seq<Option<Seq<char>>> {
    Seq::new(
        found.len(),
        |i: int|
            match found[i] {
                Some(value) => Some(value@),
                None => None,
            },
    )
}

impl Environment {
    /// The values of the variables `names`, in their order; `None` for a
    /// variable that is not bound.
    pub fn resolve(&self, names: &Vec<String>) -> (r: Vec<Option<String>>)
        ensures
            value_views(r@) == resolved(self@, texts_of(names@)),
    {
        let mut out: Vec<Option<String>> = Vec::new();
        let mut i: usize = 0;
        while i < names.len()
            invariant
                i <= names.len(),
                out@.len() == i,
                forall|j: int|
                    0 <= j < i ==> value_views(out@)[j] == value_of(
                        self@,
                        (#[trigger] names@[j])@,
                    ),
            decreases names.len() - i,
        {
            let value = self.get(names[i].as_str());
            let ghost before = out@;
            out.push(value);
            assert forall|j: int| 0 <= j < i + 1 implies value_views(out@)[j] == value_of(
                self@,
                (#[trigger] names@[j])@,
            ) by {
                if j < i {
                    assert(value_views(out@)[j] == value_views(before)[j]);
                }
            }
            i += 1;
        }
        assert(value_views(out@) =~= resolved(self@, texts_of(names@)));
        out
    }
}

} // verus!
