//! Running a build or test command: the key under which its result is kept,
//! the program and arguments to start, and what the exit code means. Starting
//! the process is left to the caller: `build_tool` says what to start, and
//! `record_run` takes what came of it.

use vstd::prelude::*;
use crate::cache::after_lookup;
use crate::cache::after_store;
use crate::cache::answer;
use crate::cache::Cache;
use crate::cache::Stored;
use crate::lang::Lang;
use crate::lines::split_words;
use crate::lines::views;
use crate::lines::words;
use crate::llm_response::Project;
use crate::llm_response::ProjectView;
use crate::text::append;
use crate::text::from_chars;
use crate::text::to_chars;

verus! {

/// The error of `serde_json`, of which nothing is known here.
#[verifier::external_type_specification]
#[verifier::external_body]
pub struct ExJsonError(serde_json::Error);

/// The JSON text that `serde_json::to_string` writes for the pair of an exit
/// code and an output; `None` where it fails.
pub uninterp spec fn json_of_exit(exit_code: i32, output: Seq<char>) -> Option<Seq<char>>;

/// The pair of an exit code and an output that `serde_json::from_str` reads
/// from `text`; `None` where it fails.
pub uninterp spec fn exit_of_json(text: Seq<char>) -> Option<(i32, Seq<char>)>;

/// Calls `serde_json::to_string` on the pair of `exit_code` and `output`.
/// Believed: the result is `json_of_exit` of the two, and the error comes
/// exactly where that is `None`.
#[verifier::external_body]
fn encode_exit(exit_code: i32, output: &str) -> (r: Result<String, serde_json::Error>)
    ensures
        match r {
            Ok(text) => json_of_exit(exit_code, output@) == Some(text@),
            Err(_) => json_of_exit(exit_code, output@) is None,
        },
{
    serde_json::to_string(&(exit_code, output))
}

/// Calls `serde_json::from_str` on `text`, for a pair of an exit code and an
/// output. Believed: the result is `exit_of_json` of the text, and the error
/// comes exactly where that is `None`.
#[verifier::external_body]
fn decode_exit(text: &str) -> (r: Result<(i32, String), serde_json::Error>)
    ensures
        match r {
            Ok(pair) => exit_of_json(text@) == Some((pair.0, pair.1@)),
            Err(_) => exit_of_json(text@) is None,
        },
{
    serde_json::from_str::<(i32, String)>(text)
}

/// What a command came to.
#[derive(Debug, PartialEq, Eq)]
pub struct BuildResult {
    /// Whether the command ended with exit code 0.
    pub success: bool,
    /// What the command wrote to its error stream; empty on success.
    pub diagnostic: String,
}

impl View for BuildResult {
    type V = (bool, Seq<char>);

    open spec fn view(&self) -> (bool, Seq<char>) {
        (self.success, self.diagnostic@)
    }
}

/// Why a command has no result.
#[derive(Clone, Copy, PartialEq, Eq, Structural, Debug)]
pub enum ToolError {
    /// What the cache holds under the key of the command is no result.
    CorruptEntry,
    /// The result cannot be written down for the cache.
    Unencodable,
}

/// What is to be done for a command.
#[derive(Debug, PartialEq, Eq)]
pub enum ToolStep {
    /// Nothing: this is the result.
    Done(BuildResult),
    /// Start `program` with `args` in the sandbox, and hand the exit code and
    /// the error stream to `record_run` together with `key`.
    Spawn { key: String, program: String, args: Vec<String> },
}

/// A `ToolStep` as plain values.
pub ghost enum ToolStepView {
    Done((bool, Seq<char>)),
    Spawn { key: Seq<char>, program: Seq<char>, args: Seq<Seq<char>> },
}

impl View for ToolStep {
    type V = ToolStepView;

    open spec fn view(&self) -> ToolStepView {
        match self {
            ToolStep::Done(result) => ToolStepView::Done(result@),
            ToolStep::Spawn { key, program, args } => ToolStepView::Spawn {
                key: key@,
                program: program@,
                args: Seq::new(args@.len(), |i: int| args@[i]@),
            },
        }
    }
}

/// The error stream as a diagnostic: nothing where the command succeeded.
pub open spec fn diagnostic_of(output: Seq<char>, exit_code: i32) -> Seq<char> {
    if exit_code == 0 {
        Seq::empty()
    } else {
        output
    }
}

/// What exit code `exit_code` and error stream `output` come to.
pub open spec fn outcome_of(exit_code: i32, output: Seq<char>) -> (bool, Seq<char>) {
    (exit_code == 0, diagnostic_of(output, exit_code))
}

/// `parts`, with a line feed between each two.
pub open spec fn joined_by_newline(parts: Seq<Seq<char>>) -> Seq<char>
    decreases parts.len(),
{
    if parts.len() == 0 {
        Seq::empty()
    } else if parts.len() == 1 {
        parts[0]
    } else {
        joined_by_newline(parts.drop_last()) + seq!['\n'] + parts.last()
    }
}

/// The texts that make up the source of `project`: the manifest, the
/// further configuration files, the solution and, but for Rust, whose tests
/// stand in the solution, the tests.
pub open spec fn source_parts(project: ProjectView) -> Seq<Seq<char>> {
    let front = seq![project.dependencies] + project.additional_config + seq![
        project.solution_code,
    ];
    if project.lang == Lang::Rust {
        front
    } else {
        front.push(project.test_code)
    }
}

/// The whole source of `project` as one text.
pub open spec fn source_of(project: ProjectView) -> Seq<char> {
    joined_by_newline(source_parts(project))
}

/// The key under which the result of `command` on `source` is kept.
pub open spec fn cache_key_of(command: Seq<char>, source: Seq<char>) -> Seq<char> {
    command + source
}

/// What the tool wrappers of `lang` add to the name of a program on Windows.
pub open spec fn suffix_of(lang: Lang, windows: bool) -> Seq<char> {
    if !windows {
        ""@
    } else {
        match lang {
            Lang::Java | Lang::Scala | Lang::JavaScript | Lang::TypeScript | Lang::Php => ".cmd"@,
            Lang::Kotlin => ".bat"@,
            _ => ""@,
        }
    }
}

/// What is to be done for `command` on `source`, with `stored` in the cache.
/// A command without a word succeeds without a process. A result in the cache
/// is the result; else the first word, with the suffix of the platform, is
/// the program and the other words are its arguments.
pub open spec fn tool_step(
    stored: Stored,
    lang: Lang,
    command: Seq<char>,
    source: Seq<char>,
    windows: bool,
) -> Result<ToolStepView, ToolError> {
    let parts = words(command);
    let key = cache_key_of(command, source);
    if parts.len() == 0 {
        Ok(ToolStepView::Done((true, Seq::empty())))
    } else {
        match answer(stored, key) {
            Some(text) => match exit_of_json(text) {
                Some(pair) => Ok(ToolStepView::Done(outcome_of(pair.0, pair.1))),
                None => Err(ToolError::CorruptEntry),
            },
            None => Ok(
                ToolStepView::Spawn {
                    key,
                    program: parts[0] + suffix_of(lang, windows),
                    args: parts.skip(1),
                },
            ),
        }
    }
}

/// What the cache holds after `build_tool`: a command with a word looks its
/// key up.
pub open spec fn stored_after_step(stored: Stored, command: Seq<char>, source: Seq<char>)
    -> Stored {
    if words(command).len() == 0 {
        stored
    } else {
        after_lookup(stored, cache_key_of(command, source))
    }
}

/// The result of a run that ended with `exit_code` and `output`, as it is
/// read back from what the cache is given.
pub open spec fn run_result(exit_code: i32, output: Seq<char>) -> Result<
    (bool, Seq<char>),
    ToolError,
> {
    match json_of_exit(exit_code, output) {
        None => Err(ToolError::Unencodable),
        Some(text) => match exit_of_json(text) {
            Some(pair) => Ok(outcome_of(pair.0, pair.1)),
            None => Err(ToolError::CorruptEntry),
        },
    }
}

/// What the cache holds after a run was recorded under `key`.
pub open spec fn stored_after_run(stored: Stored, key: Seq<char>, exit_code: i32, output: Seq<char>)
    -> Stored {
    match json_of_exit(exit_code, output) {
        None => stored,
        Some(text) => after_store(stored, key, text),
    }
}

/// The error stream as a diagnostic: nothing where the command succeeded.
pub fn only_error_message(output: &str, exit_code: i32) -> (r: String)
    ensures
        r@ == diagnostic_of(output@, exit_code),
{
    if exit_code == 0 {
        String::new()
    } else {
        output.to_owned()
    }
}

/// What exit code `exit_code` and error stream `output` come to.
pub fn outcome(exit_code: i32, output: &str) -> (r: BuildResult)
    ensures
        r@ == outcome_of(exit_code, output@),
{
    BuildResult { success: exit_code == 0, diagnostic: only_error_message(output, exit_code) }
}

/// The whole source of `project` as one text.
pub fn project_source(project: &Project) -> (r: String)
    ensures
        r@ == source_of(project@),
{
    let mut out = to_chars(project.dependencies.as_str());
    let ghost configs = project@.additional_config;
    assert(seq![project@.dependencies].drop_last() == Seq::<Seq<char>>::empty());
    let mut i: usize = 0;
    assert((seq![project@.dependencies] + configs.take(0)) == seq![project@.dependencies]);
    while i < project.additional_config.len()
        invariant
            i <= project.additional_config.len(),
            configs == project@.additional_config,
            out@ == joined_by_newline(seq![project@.dependencies] + configs.take(i as int)),
        decreases project.additional_config.len() - i,
    {
        let ghost before = seq![project@.dependencies] + configs.take(i as int);
        let ghost after = seq![project@.dependencies] + configs.take(i + 1);
        assert(after.drop_last() == before);
        assert(after.last() == project.additional_config@[i as int]@);
        let ghost so_far = out@;
        out.push('\n');
        append(&mut out, &to_chars(project.additional_config[i].as_str()));
        assert(out@ == so_far + seq!['\n'] + project.additional_config@[i as int]@);
        i += 1;
    }
    assert(configs.take(configs.len() as int) == configs);
    let ghost front = seq![project@.dependencies] + configs;
    let ghost with_code = front.push(project@.solution_code);
    assert(with_code.drop_last() == front);
    assert(with_code == seq![project@.dependencies] + configs + seq![project@.solution_code]);
    let ghost so_far = out@;
    out.push('\n');
    append(&mut out, &to_chars(project.solution_code.as_str()));
    assert(out@ == so_far + seq!['\n'] + project@.solution_code);
    assert(out@ == joined_by_newline(with_code));
    match project.lang {
        Lang::Rust => {
            assert(source_parts(project@) == with_code);
        },
        _ => {
            let ghost all = with_code.push(project@.test_code);
            assert(all.drop_last() == with_code);
            assert(source_parts(project@) == all);
            let ghost so_far = out@;
            out.push('\n');
            append(&mut out, &to_chars(project.test_code.as_str()));
            assert(out@ == so_far + seq!['\n'] + project@.test_code);
        },
    }
    from_chars(&out)
}

/// What the tool wrappers of `lang` add to the name of a program on Windows.
pub fn executable_suffix(lang: Lang, windows: bool) -> (r: &'static str)
    ensures
        r@ == suffix_of(lang, windows),
{
    if !windows {
        ""
    } else {
        match lang {
            Lang::Java | Lang::Scala | Lang::JavaScript | Lang::TypeScript | Lang::Php => ".cmd",
            Lang::Kotlin => ".bat",
            _ => "",
        }
    }
}

/// What is to be done for the command `command_str` on a project of language
/// `lang` whose source is `source`. `windows` says whether the process would
/// run on Windows.
pub fn build_tool(lang: Lang, command_str: &str, source: &str, windows: bool, cache: &mut Cache)
    -> (r: Result<ToolStep, ToolError>)
    ensures
        match r {
            Ok(step) => tool_step(old(cache)@, lang, command_str@, source@, windows) == Ok::<
                ToolStepView,
                ToolError,
            >(step@),
            Err(e) => tool_step(old(cache)@, lang, command_str@, source@, windows) == Err::<
                ToolStepView,
                ToolError,
            >(e),
        },
        final(cache)@ == stored_after_step(old(cache)@, command_str@, source@),
{
    let command = to_chars(command_str);
    let parts = split_words(&command);
    if parts.len() == 0 {
        return Ok(ToolStep::Done(BuildResult { success: true, diagnostic: String::new() }));
    }
    let mut key_chars = to_chars(command_str);
    append(&mut key_chars, &to_chars(source));
    let key = from_chars(&key_chars);
    let cached = match cache.get(key.as_str()) {
        Some(text) => Some(text.clone()),
        None => None,
    };
    match cached {
        Some(text) => match decode_exit(text.as_str()) {
            Ok(pair) => Ok(ToolStep::Done(outcome(pair.0, pair.1.as_str()))),
            Err(_) => Err(ToolError::CorruptEntry),
        },
        None => {
            assert(views(parts@)[0] == parts@[0]@);
            let mut program: Vec<char> = Vec::new();
            append(&mut program, &parts[0]);
            append(&mut program, &to_chars(executable_suffix(lang, windows)));
            assert(program@ == words(command_str@)[0] + suffix_of(lang, windows));
            let mut args: Vec<String> = Vec::new();
            let mut i: usize = 1;
            while i < parts.len()
                invariant
                    1 <= i <= parts.len(),
                    args@.len() == i - 1,
                    forall|j: int| 0 <= j < i - 1 ==> (#[trigger] args@[j])@ == parts@[j + 1]@,
                decreases parts.len() - i,
            {
                args.push(from_chars(&parts[i]));
                i += 1;
            }
            let step = ToolStep::Spawn { key, program: from_chars(&program), args };
            assert(step@->Spawn_args =~= words(command_str@).skip(1)) by {
                assert forall|j: int| 0 <= j < parts.len() - 1 implies step@->Spawn_args[j]
                    == words(command_str@).skip(1)[j] by {
                    assert(views(parts@)[j + 1] == parts@[j + 1]@);
                }
            }
            Ok(step)
        },
    }
}

/// Keeps the result of a run under `key` and hands it out as it reads from
/// the cache.
pub fn record_run(key: String, exit_code: i32, std_err: &str, cache: &mut Cache) -> (r: Result<
    BuildResult,
    ToolError,
>)
    ensures
        match r {
            Ok(result) => run_result(exit_code, std_err@) == Ok::<(bool, Seq<char>), ToolError>(
                result@,
            ),
            Err(e) => run_result(exit_code, std_err@) == Err::<(bool, Seq<char>), ToolError>(e),
        },
        final(cache)@ == stored_after_run(old(cache)@, key@, exit_code, std_err@),
{
    let json_str = match encode_exit(exit_code, std_err) {
        Ok(text) => text,
        Err(_) => {
            return Err(ToolError::Unencodable);
        },
    };
    cache.set(key, json_str.clone());
    match decode_exit(json_str.as_str()) {
        Ok(pair) => Ok(outcome(pair.0, pair.1.as_str())),
        Err(_) => Err(ToolError::CorruptEntry),
    }
}

/// A result that was recorded is the result of the next call for the same
/// command on the same source, and that call starts no process.
pub proof fn lemma_second_call_is_cached(
    stored: Stored,
    lang: Lang,
    command: Seq<char>,
    source: Seq<char>,
    windows: bool,
    exit_code: i32,
    output: Seq<char>,
)
    requires
        words(command).len() > 0,
        run_result(exit_code, output) is Ok,
    ensures
        tool_step(
            stored_after_run(stored, cache_key_of(command, source), exit_code, output),
            lang,
            command,
            source,
            windows,
        ) == Ok::<ToolStepView, ToolError>(
            ToolStepView::Done(run_result(exit_code, output)->Ok_0),
        ),
{
}

} // verus!
