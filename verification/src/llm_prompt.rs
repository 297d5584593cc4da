//! Prompt templates: reading a file of named templates, and filling the
//! numbered placeholders of one.

use vstd::prelude::*;
use crate::lines::lines;
use crate::lines::split_lines;
use crate::lines::views;
use crate::number::decimal;
use crate::number::write_decimal;
use crate::text::append;
use crate::text::contains;
use crate::text::from_chars;
use crate::text::has_substring;
use crate::text::matches_at;
use crate::text::replace;
use crate::text::replaced;
use crate::text::slice;
use crate::text::starts_with;
use crate::text::to_chars;
use crate::text::trim_end;
use crate::text::trim_end_of;
use crate::text::CharClass;
use crate::text_map::lemma_texts_empty;
use crate::text_map::lemma_texts_insert;
use crate::text_map::texts;
use crate::text_map::TextMap;

verus! {

/// Why a prompt could not be made.
#[derive(Clone, Copy, PartialEq, Eq, Structural, Debug)]
pub enum PromptError {
    /// A line that starts a template is too short to hold a name between
    /// `[[[` and `]]]`.
    MalformedHeader,
    /// No template has the name asked for.
    UnknownTemplate,
    /// A placeholder was left in the text after all parameters were filled in.
    UnfilledPlaceholder,
}

/// The templates of a prompt file, by name.
pub type Templates = Map<Seq<char>, Seq<char>>;

/// `input` where one line feed stands for all the line feeds at its end.
pub open spec fn single_final_newline(input: Seq<char>) -> Seq<char> {
    let bare = trim_end_of(input, CharClass::Newline);
    if input.len() > 0 && input.last() == '\n' {
        bare.push('\n')
    } else {
        bare
    }
}

/// Whether `line` starts a template.
pub open spec fn is_header(line: Seq<char>) -> bool {
    starts_with(line, "[[["@)
}

/// The name that the header `line` gives: the line without its first three
/// and its last three characters.
pub open spec fn header_name(line: Seq<char>) -> Option<Seq<char>> {
    if line.len() >= 6 {
        Some(line.subrange(3, line.len() - 3))
    } else {
        None
    }
}

/// The state of a reading of a prompt file: the templates that are complete,
/// and the name and the text of the one in progress.
pub ghost struct PromptScan {
    pub done: Templates,
    pub name: Seq<char>,
    pub content: Seq<char>,
}

/// Where a reading starts.
pub open spec fn scan_start() -> PromptScan {
    PromptScan { done: Map::empty(), name: Seq::empty(), content: Seq::empty() }
}

/// `scan` with the template in progress added to the complete ones.
pub open spec fn closed(scan: PromptScan) -> Templates {
    scan.done.insert(scan.name, single_final_newline(scan.content))
}

/// The state after the first `n` of the lines `all`; `None` where one of
/// them is a header without room for a name. A header ends the template in
/// progress, which is kept if it has a name; any other line is added to it.
pub open spec fn prompt_scan(all: Seq<Seq<char>>, n: int) -> Option<PromptScan>
    decreases n,
{
    if n <= 0 {
        Some(scan_start())
    } else {
        match prompt_scan(all, n - 1) {
            None => None,
            Some(scan) => {
                let line = all[n - 1];
                if is_header(line) {
                    match header_name(line) {
                        None => None,
                        Some(name) => Some(
                            PromptScan {
                                done: if scan.name.len() > 0 {
                                    closed(scan)
                                } else {
                                    scan.done
                                },
                                name,
                                content: Seq::empty(),
                            },
                        ),
                    }
                } else {
                    Some(PromptScan { content: scan.content + line + seq!['\n'], ..scan })
                }
            },
        }
    }
}

/// The templates that the text `content` of a prompt file holds.
pub open spec fn parsed_templates(content: Seq<char>) -> Option<Templates> {
    match prompt_scan(lines(content), lines(content).len() as int) {
        Some(scan) => Some(closed(scan)),
        None => None,
    }
}

/// The placeholder for parameter `i`.
pub open spec fn placeholder(i: nat) -> Seq<char> {
    "{{{"@ + decimal(i) + "}}}"@
}

/// The texts of `params`.
pub open spec fn params_of(params: Seq<String>) -> Seq<Seq<char>> {
    Seq::new(params.len(), |i: int| params[i]@)
}

/// `template` with the placeholders of the first `k` parameters filled in,
/// one parameter after the other.
pub open spec fn filled(template: Seq<char>, params: Seq<Seq<char>>, k: int) -> Seq<char>
    decreases k,
{
    if k <= 0 {
        template
    } else {
        replace(filled(template, params, k - 1), placeholder((k - 1) as nat), params[k - 1])
    }
}

/// `template` with every parameter filled in.
pub open spec fn rendered(template: Seq<char>, params: Seq<Seq<char>>) -> Seq<char> {
    filled(template, params, params.len() as int)
}

/// Whether `text` still holds the start of a placeholder.
pub open spec fn has_placeholder(text: Seq<char>) -> bool {
    contains(text, "{{{"@)
}

/// The prompt that template `key` of `templates` gives for `params`.
pub open spec fn created(templates: Templates, key: Seq<char>, params: Seq<Seq<char>>) -> Result<
    Seq<char>,
    PromptError,
> {
    if !templates.contains_key(key) {
        Err(PromptError::UnknownTemplate)
    } else if has_placeholder(rendered(templates[key], params)) {
        Err(PromptError::UnfilledPlaceholder)
    } else {
        Ok(rendered(templates[key], params))
    }
}

/// `input` where one line feed stands for all the line feeds at its end.
pub fn replace_last_multiple_return_to_one(input: &str) -> (r: String)
    ensures
        r@ == single_final_newline(input@),
{
    let chars = to_chars(input);
    let mut result = trim_end(&chars, CharClass::Newline);
    let n = chars.len();
    if n > 0 && chars[n - 1] == '\n' {
        result.push('\n');
    }
    from_chars(&result)
}

/// `template` with every parameter filled in.
pub fn fill_template(template: &str, replace: &Vec<String>) -> (r: String)
    ensures
        r@ == rendered(template@, params_of(replace@)),
{
    let mut prompt = to_chars(template);
    let open = to_chars("{{{");
    let close = to_chars("}}}");
    let mut i: usize = 0;
    while i < replace.len()
        invariant
            i <= replace.len(),
            open@ == "{{{"@,
            close@ == "}}}"@,
            prompt@ == filled(template@, params_of(replace@), i as int),
        decreases replace.len() - i,
    {
        let mut mark = to_chars("{{{");
        let digits = write_decimal(i);
        append(&mut mark, &digits);
        append(&mut mark, &close);
        let value = to_chars(replace[i].as_str());
        assert(params_of(replace@)[i as int] == value@);
        prompt = replaced(&prompt, &mark, &value);
        i += 1;
    }
    from_chars(&prompt)
}

/// `template` with every parameter filled in; the error where a placeholder
/// is left.
pub fn try_construct_prompt(template: &str, replace: &Vec<String>) -> (r: Result<
    String,
    PromptError,
>)
    ensures
        match r {
            Ok(prompt) => !has_placeholder(rendered(template@, params_of(replace@))) && prompt@
                == rendered(template@, params_of(replace@)),
            Err(e) => has_placeholder(rendered(template@, params_of(replace@))) && e
                == PromptError::UnfilledPlaceholder,
        },
{
    let prompt = fill_template(template, replace);
    let chars = to_chars(prompt.as_str());
    if has_substring(&chars, &to_chars("{{{")) {
        Err(PromptError::UnfilledPlaceholder)
    } else {
        Ok(prompt)
    }
}

/// `template` with every parameter filled in, where that leaves no
/// placeholder.
pub fn construct_prompt(template: &str, replace: &Vec<String>) -> (r: String)
    requires
        !has_placeholder(rendered(template@, params_of(replace@))),
    ensures
        r@ == rendered(template@, params_of(replace@)),
{
    fill_template(template, replace)
}

/// The templates of a prompt file.
pub struct Prompt {
    prompts: TextMap<String>,
}

impl View for Prompt {
    type V = Templates;

    closed spec fn view(&self) -> Templates {
        texts(self.prompts@)
    }
}

impl Prompt {
    /// The templates that the text `content` of a prompt file holds. A line
    /// that starts with `[[[` names the template that the lines after it
    /// make up.
    pub fn parse(content: &str) -> (r: Result<Prompt, PromptError>)
        ensures
            match r {
                Ok(prompt) => parsed_templates(content@) == Some(prompt@),
                Err(e) => parsed_templates(content@) is None && e == PromptError::MalformedHeader,
            },
    {
        let chars = to_chars(content);
        let all = split_lines(&chars);
        let mark = to_chars("[[[");
        let mut prompts: TextMap<String> = TextMap::new();
        let mut name: Vec<char> = Vec::new();
        let mut text: Vec<char> = Vec::new();
        proof {
            lemma_texts_empty();
        }
        let mut i: usize = 0;
        while i < all.len()
            invariant
                i <= all.len(),
                mark@ == "[[["@,
                views(all@) == lines(content@),
                prompt_scan(lines(content@), i as int) == Some(
                    PromptScan { done: texts(prompts@), name: name@, content: text@ },
                ),
            decreases all.len() - i,
        {
            assert(views(all@)[i as int] == all@[i as int]@);
            let line = &all[i];
            if matches_at(line, &mark, 0) {
                let n = line.len();
                if n < 6 {
                    proof {
                        lemma_scan_fails(lines(content@), i + 1, all.len() as int);
                    }
                    return Err(PromptError::MalformedHeader);
                }
                if name.len() > 0 {
                    let key = from_chars(&name);
                    let body = from_chars(&text);
                    let tidy = replace_last_multiple_return_to_one(body.as_str());
                    let ghost before = prompts@;
                    prompts.insert(key, tidy);
                    proof {
                        lemma_texts_insert(before, name@, tidy);
                    }
                }
                name = slice(line, 3, n - 3);
                text = Vec::new();
            } else {
                let ghost before = text@;
                append(&mut text, line);
                text.push('\n');
                assert(text@ == before + line@ + seq!['\n']);
            }
            i += 1;
        }
        let key = from_chars(&name);
        let body = from_chars(&text);
        let tidy = replace_last_multiple_return_to_one(body.as_str());
        let ghost before = prompts@;
        prompts.insert(key, tidy);
        proof {
            lemma_texts_insert(before, name@, tidy);
        }
        Ok(Prompt { prompts })
    }

    /// The prompt that template `key` gives for `params`, or the reason why
    /// there is none.
    pub fn try_create(&self, key: &str, params: &Vec<String>) -> (r: Result<String, PromptError>)
        ensures
            match r {
                Ok(prompt) => created(self@, key@, params_of(params@)) == Ok::<
                    Seq<char>,
                    PromptError,
                >(prompt@),
                Err(e) => created(self@, key@, params_of(params@)) == Err::<
                    Seq<char>,
                    PromptError,
                >(e),
            },
    {
        match self.prompts.get(key) {
            None => Err(PromptError::UnknownTemplate),
            Some(template) => try_construct_prompt(template.as_str(), params),
        }
    }

    /// The prompt that template `key` gives for `params`.
    pub fn create(&self, key: &str, params: &Vec<String>) -> (r: String)
        requires
            created(self@, key@, params_of(params@)) is Ok,
        ensures
            created(self@, key@, params_of(params@)) == Ok::<Seq<char>, PromptError>(r@),
    {
        match self.prompts.get(key) {
            None => String::new(),
            Some(template) => construct_prompt(template.as_str(), params),
        }
    }
}

/// A reading that has failed stays failed.
proof fn lemma_scan_fails(all: Seq<Seq<char>>, k: int, n: int)
    requires
        0 <= k <= n,
        prompt_scan(all, k) is None,
    ensures
        prompt_scan(all, n) is None,
    decreases n,
{
    if n > k {
        lemma_scan_fails(all, k, n - 1);
    }
}

} // verus!
