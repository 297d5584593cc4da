//! The loop that asks for a project, builds and tests it, and asks again
//! with what went wrong, until both commands succeed or the attempts run
//! out. The loop decides; its caller does what it decides: asks the model,
//! writes the files, runs the commands, and comes back with what happened.

use vstd::prelude::*;
use crate::build_tool::BuildResult;
use crate::lang::Lang;
use crate::layout::first_config;
use crate::llm_response::empty_project;
use crate::llm_response::is_supported;
use crate::llm_response::parsed_project;
use crate::llm_response::LLMResponse;
use crate::llm_response::Project;
use crate::llm_response::ProjectView;

verus! {

/// How often the loop asks for a failing project to be rewritten, where
/// nothing else is asked.
pub const MAX_NUMBER_OF_ATTEMPTS: u32 = 5;

/// Where the loop stands.
#[derive(Clone, Copy, PartialEq, Eq, Structural, Debug)]
pub enum Phase {
    /// Nothing has been asked yet.
    Start,
    /// The model has been asked.
    AwaitResponse,
    /// The files of the project are being written.
    AwaitAssembly,
    /// The build command runs.
    AwaitBuild,
    /// The test command runs.
    AwaitTest,
    /// The loop has ended.
    Done,
}

/// What happened outside the loop.
#[derive(Debug)]
pub enum Event {
    /// The loop is to begin.
    Start,
    /// The model has answered.
    Response(String),
    /// The files of the project were written.
    Assembled,
    /// A command has ended.
    ToolResult(BuildResult),
}

/// What the loop wants done.
#[derive(Debug, PartialEq, Eq)]
pub enum Action {
    /// Ask the model, with template `template` filled with `params`.
    Request { template: String, params: Vec<String> },
    /// Write the files of the project of the loop into an empty sandbox.
    Assemble,
    /// Run `command` in the sandbox.
    Run { command: String },
    /// Stop: the project builds and passes its tests, or the attempts ran out.
    Finish { success: bool },
}

/// Why the loop did not take an event.
#[derive(Clone, Copy, PartialEq, Eq, Structural, Debug)]
pub enum LoopError {
    /// The event is not the one that the loop waits for.
    UnexpectedEvent,
}

/// An `Event` as plain values.
pub ghost enum EventView {
    Start,
    Response(Seq<char>),
    Assembled,
    ToolResult((bool, Seq<char>)),
}

/// An `Action` as plain values.
pub ghost enum ActionView {
    Request { template: Seq<char>, params: Seq<Seq<char>> },
    Assemble,
    Run { command: Seq<char> },
    Finish { success: bool },
}

impl View for Event {
    type V = EventView;

    open spec fn view(&self) -> EventView {
        match self {
            Event::Start => EventView::Start,
            Event::Response(text) => EventView::Response(text@),
            Event::Assembled => EventView::Assembled,
            Event::ToolResult(result) => EventView::ToolResult(result@),
        }
    }
}

impl View for Action {
    type V = ActionView;

    open spec fn view(&self) -> ActionView {
        match self {
            Action::Request { template, params } => ActionView::Request {
                template: template@,
                params: Seq::new(params@.len(), |i: int| params@[i]@),
            },
            Action::Assemble => ActionView::Assemble,
            Action::Run { command } => ActionView::Run { command: command@ },
            Action::Finish { success } => ActionView::Finish { success: *success },
        }
    }
}

/// The loop as plain values.
pub ghost struct LoopView {
    pub lang: Lang,
    pub question: Seq<char>,
    pub max_attempts: nat,
    /// How often the model was asked to rewrite the project.
    pub attempts: nat,
    pub phase: Phase,
    /// The project of the last response.
    pub project: ProjectView,
    /// What the build command of that project came to.
    pub build: (bool, Seq<char>),
}

/// The loop for `question` before anything was asked.
pub open spec fn initial(lang: Lang, question: Seq<char>, max_attempts: nat) -> LoopView {
    LoopView {
        lang,
        question,
        max_attempts,
        attempts: 0,
        phase: Phase::Start,
        project: empty_project(Lang::Unknown),
        build: (false, Seq::empty()),
    }
}

/// What a request to rewrite `project` carries: the manifest, the further
/// configuration of TypeScript, the solution, the tests (but for Rust), the
/// build command and what it wrote, the test command and what it wrote, and
/// the question.
pub open spec fn rewrite_params(
    project: ProjectView,
    build_diagnostic: Seq<char>,
    test_diagnostic: Seq<char>,
    question: Seq<char>,
) -> Seq<Seq<char>> {
    let tail = seq![
        project.build_command,
        build_diagnostic,
        project.test_command,
        test_diagnostic,
        question,
    ];
    match project.lang {
        Lang::Rust => seq![project.dependencies, project.solution_code] + tail,
        Lang::TypeScript => seq![
            project.dependencies,
            first_config(project),
            project.solution_code,
            project.test_code,
        ] + tail,
        _ => seq![project.dependencies, project.solution_code, project.test_code] + tail,
    }
}

/// The loop after `event`, and what it wants done; the loop as it was, and
/// the error, where it waits for another event.
pub open spec fn next(s: LoopView, event: EventView) -> (LoopView, Result<ActionView, LoopError>) {
    match (s.phase, event) {
        (Phase::Start, EventView::Start) => (
            LoopView { phase: Phase::AwaitResponse, ..s },
            Ok(ActionView::Request { template: "generate"@, params: seq![s.question] }),
        ),
        (Phase::AwaitResponse, EventView::Response(text)) => (
            LoopView { phase: Phase::AwaitAssembly, project: parsed_project(text, s.lang), ..s },
            Ok(ActionView::Assemble),
        ),
        (Phase::AwaitAssembly, EventView::Assembled) => (
            LoopView { phase: Phase::AwaitBuild, ..s },
            Ok(ActionView::Run { command: s.project.build_command }),
        ),
        (Phase::AwaitBuild, EventView::ToolResult(built)) => (
            LoopView { phase: Phase::AwaitTest, build: built, ..s },
            Ok(ActionView::Run { command: s.project.test_command }),
        ),
        (Phase::AwaitTest, EventView::ToolResult(tested)) => if s.build.0 && tested.0 {
            (LoopView { phase: Phase::Done, ..s }, Ok(ActionView::Finish { success: true }))
        } else if s.attempts >= s.max_attempts {
            (LoopView { phase: Phase::Done, ..s }, Ok(ActionView::Finish { success: false }))
        } else {
            (
                LoopView { phase: Phase::AwaitResponse, attempts: s.attempts + 1, ..s },
                Ok(
                    ActionView::Request {
                        template: "rewrite"@,
                        params: rewrite_params(s.project, s.build.1, tested.1, s.question),
                    },
                ),
            )
        },
        _ => (s, Err(LoopError::UnexpectedEvent)),
    }
}

/// The loop after the events `events`, one after the other.
pub open spec fn run(s: LoopView, events: Seq<EventView>) -> LoopView
    decreases events.len(),
{
    if events.len() == 0 {
        s
    } else {
        next(run(s, events.drop_last()), events.last()).0
    }
}

/// Whether `outcome` asks the model.
pub open spec fn asks_model(outcome: Result<ActionView, LoopError>) -> bool {
    outcome matches Ok(ActionView::Request { .. })
}

/// Whether `outcome` asks the model to rewrite a project.
pub open spec fn asks_rewrite(outcome: Result<ActionView, LoopError>) -> bool {
    outcome matches Ok(ActionView::Request { template, .. }) && template == "rewrite"@
}

/// How often the loop asks the model while it takes `events`.
pub open spec fn requests_during(s: LoopView, events: Seq<EventView>) -> nat
    decreases events.len(),
{
    if events.len() == 0 {
        0
    } else {
        let before = requests_during(s, events.drop_last());
        if asks_model(next(run(s, events.drop_last()), events.last()).1) {
            before + 1
        } else {
            before
        }
    }
}

/// How often the loop asks the model to rewrite while it takes `events`.
pub open spec fn rewrites_during(s: LoopView, events: Seq<EventView>) -> nat
    decreases events.len(),
{
    if events.len() == 0 {
        0
    } else {
        let before = rewrites_during(s, events.drop_last());
        if asks_rewrite(next(run(s, events.drop_last()), events.last()).1) {
            before + 1
        } else {
            before
        }
    }
}

/// The loop.
pub struct RepairLoop {
    lang: Lang,
    question: String,
    max_attempts: u32,
    attempts: u64,
    phase: Phase,
    project: Project,
    build: BuildResult,
}

impl View for RepairLoop {
    type V = LoopView;

    closed spec fn view(&self) -> LoopView {
        LoopView {
            lang: self.lang,
            question: self.question@,
            max_attempts: self.max_attempts as nat,
            attempts: self.attempts as nat,
            phase: self.phase,
            project: self.project@,
            build: self.build@,
        }
    }
}

/// The parameters of a request to rewrite `project`.
fn rewrite_request(project: &Project, build: &BuildResult, test: &BuildResult, question: &String)
    -> (r: Vec<String>)
    ensures
        Seq::new(r@.len(), |i: int| r@[i]@) == rewrite_params(
            project@,
            build.diagnostic@,
            test.diagnostic@,
            question@,
        ),
{
    let mut r: Vec<String> = Vec::new();
    r.push(project.dependencies.clone());
    match project.lang {
        Lang::Rust => {},
        Lang::TypeScript => {
            if project.additional_config.len() > 0 {
                assert(project@.additional_config[0] == project.additional_config@[0]@);
                r.push(project.additional_config[0].clone());
            } else {
                r.push(String::new());
            }
        },
        _ => {},
    }
    r.push(project.solution_code.clone());
    match project.lang {
        Lang::Rust => {},
        _ => {
            r.push(project.test_code.clone());
        },
    }
    r.push(project.build_command.clone());
    r.push(build.diagnostic.clone());
    r.push(project.test_command.clone());
    r.push(test.diagnostic.clone());
    r.push(question.clone());
    assert(Seq::new(r@.len(), |i: int| r@[i]@) =~= rewrite_params(
        project@,
        build.diagnostic@,
        test.diagnostic@,
        question@,
    ));
    r
}

impl RepairLoop {
    #[verifier::type_invariant]
    spec fn inv(self) -> bool {
        is_supported(self.lang) && self.attempts <= self.max_attempts
    }

    /// The loop for `question` and a project of `lang`, which asks the model
    /// to rewrite a failing project at most `max_attempts` times.
    pub fn new(lang: Lang, question: &str, max_attempts: u32) -> (r: RepairLoop)
        requires
            is_supported(lang),
        ensures
            r@ == initial(lang, question@, max_attempts as nat),
    {
        RepairLoop {
            lang,
            question: question.to_owned(),
            max_attempts,
            attempts: 0,
            phase: Phase::Start,
            project: Project::default(),
            build: BuildResult { success: false, diagnostic: String::new() },
        }
    }

    /// The project of the last response.
    pub fn project(&self) -> (r: &Project)
        ensures
            r@ == self@.project,
    {
        &self.project
    }

    /// Where the loop stands.
    pub fn phase(&self) -> (r: Phase)
        ensures
            r == self@.phase,
    {
        self.phase
    }

    /// How often the model was asked to rewrite the project.
    pub fn attempts(&self) -> (r: u64)
        ensures
            r == self@.attempts,
    {
        self.attempts
    }

    /// Takes `event` and says what is to be done next.
    pub fn step(&mut self, event: Event) -> (r: Result<Action, LoopError>)
        ensures
            final(self)@ == next(old(self)@, event@).0,
            match r {
                Ok(action) => next(old(self)@, event@).1 == Ok::<ActionView, LoopError>(action@),
                Err(e) => next(old(self)@, event@).1 == Err::<ActionView, LoopError>(e),
            },
    {
        proof {
            use_type_invariant(&*self);
        }
        match event {
            Event::Start => {
                if self.phase != Phase::Start {
                    return Err(LoopError::UnexpectedEvent);
                }
                self.phase = Phase::AwaitResponse;
                let mut params: Vec<String> = Vec::new();
                params.push(self.question.clone());
                let action = Action::Request { template: "generate".to_owned(), params };
                assert(action@->Request_params =~= seq![self.question@]);
                Ok(action)
            },
            Event::Response(text) => {
                if self.phase != Phase::AwaitResponse {
                    return Err(LoopError::UnexpectedEvent);
                }
                self.project = LLMResponse::parse_llm_response(text.as_str(), self.lang);
                self.phase = Phase::AwaitAssembly;
                Ok(Action::Assemble)
            },
            Event::Assembled => {
                if self.phase != Phase::AwaitAssembly {
                    return Err(LoopError::UnexpectedEvent);
                }
                self.phase = Phase::AwaitBuild;
                Ok(Action::Run { command: self.project.build_command.clone() })
            },
            Event::ToolResult(result) => {
                if self.phase == Phase::AwaitBuild {
                    self.build = result;
                    self.phase = Phase::AwaitTest;
                    Ok(Action::Run { command: self.project.test_command.clone() })
                } else if self.phase == Phase::AwaitTest {
                    if self.build.success && result.success {
                        self.phase = Phase::Done;
                        Ok(Action::Finish { success: true })
                    } else if self.attempts >= self.max_attempts as u64 {
                        self.phase = Phase::Done;
                        Ok(Action::Finish { success: false })
                    } else {
                        let params = rewrite_request(
                            &self.project,
                            &self.build,
                            &result,
                            &self.question,
                        );
                        self.attempts = self.attempts + 1;
                        self.phase = Phase::AwaitResponse;
                        Ok(Action::Request { template: "rewrite".to_owned(), params })
                    }
                } else {
                    Err(LoopError::UnexpectedEvent)
                }
            },
        }
    }
}

/// From its start the loop keeps its limit and counts no more attempts than
/// the limit; it has asked the model once for the first project and once for
/// every attempt counted.
pub proof fn lemma_run_keeps(lang: Lang, question: Seq<char>, max_attempts: nat, events: Seq<EventView>)
    ensures
        run(initial(lang, question, max_attempts), events).max_attempts == max_attempts,
        run(initial(lang, question, max_attempts), events).attempts <= max_attempts,
        run(initial(lang, question, max_attempts), events).phase == Phase::Start ==> run(
            initial(lang, question, max_attempts),
            events,
        ).attempts == 0,
        requests_during(initial(lang, question, max_attempts), events) == if run(
            initial(lang, question, max_attempts),
            events,
        ).phase == Phase::Start {
            0
        } else {
            1 + run(initial(lang, question, max_attempts), events).attempts
        },
        rewrites_during(initial(lang, question, max_attempts), events) == run(
            initial(lang, question, max_attempts),
            events,
        ).attempts,
    decreases events.len(),
{
    reveal_strlit("generate");
    reveal_strlit("rewrite");
    if events.len() > 0 {
        lemma_run_keeps(lang, question, max_attempts, events.drop_last());
        assert("generate"@ != "rewrite"@) by {
            assert("generate"@[0] == 'g');
            assert("rewrite"@[0] == 'r');
        }
    }
}

/// Whatever the model answers and whatever the commands come to, the loop
/// asks the model to rewrite the project at most `max_attempts` times, and
/// asks it at most `max_attempts + 1` times in all.
pub proof fn lemma_attempt_bound(
    lang: Lang,
    question: Seq<char>,
    max_attempts: nat,
    events: Seq<EventView>,
)
    ensures
        rewrites_during(initial(lang, question, max_attempts), events) <= max_attempts,
        requests_during(initial(lang, question, max_attempts), events) <= max_attempts + 1,
{
    lemma_run_keeps(lang, question, max_attempts, events);
}

} // verus!
