//! Reading a response that carries bare code blocks: which block is the
//! code, which the dependencies and which the tests, and the number that a
//! response names.

use vstd::prelude::*;
use crate::lines::lines;
use crate::lines::split_lines;
use crate::lines::split_words;
use crate::lines::views;
use crate::lines::words;
use crate::number::parse_i32;
use crate::number::read_i32;
use crate::sections::is_fence;
use crate::text::append;
use crate::text::contains;
use crate::text::from_chars;
use crate::text::has_substring;
use crate::text::lowercase;
use crate::text::matches_at;
use crate::text::to_chars;
use crate::text::trimmed;
use crate::text_map::same_text;

verus! {

/// The blocks that a response carried.
#[derive(PartialEq, Debug)]
pub struct Extract {
    pub code: Option<String>,
    pub dependencies: Option<String>,
    pub tests: Option<String>,
}

/// An `Extract` as plain texts.
pub ghost struct ExtractView {
    pub code: Option<Seq<char>>,
    pub dependencies: Option<Seq<char>>,
    pub tests: Option<Seq<char>>,
}

/// The text of `s`, if there is one.
pub open spec fn text_view(s: Option<String>) -> Option<Seq<char>> {
    match s {
        Some(text) => Some(text@),
        None => None,
    }
}

impl View for Extract {
    type V = ExtractView;

    open spec fn view(&self) -> ExtractView {
        ExtractView {
            code: text_view(self.code),
            dependencies: text_view(self.dependencies),
            tests: text_view(self.tests),
        }
    }
}

/// What a block is taken for.
#[derive(Clone, Copy, PartialEq, Eq, Structural, Debug)]
pub enum BlockKind {
    Code,
    Dependencies,
    Tests,
}

/// What a block is taken for, by its text in lower case: the dependencies
/// where it speaks of them, else the tests where it speaks of those, else the
/// code.
pub open spec fn block_kind(lowered: Seq<char>) -> BlockKind {
    if contains(lowered, "dependenc"@) {
        BlockKind::Dependencies
    } else if contains(lowered, "test"@) {
        BlockKind::Tests
    } else {
        BlockKind::Code
    }
}

/// `extract` after the block `block` of kind `kind` was found: the first
/// block of code stays, later dependencies and tests replace earlier ones.
pub open spec fn updated(extract: ExtractView, block: Seq<char>, kind: BlockKind) -> ExtractView {
    match kind {
        BlockKind::Code => if extract.code is None {
            ExtractView { code: Some(block), ..extract }
        } else {
            extract
        },
        BlockKind::Dependencies => ExtractView { dependencies: Some(block), ..extract },
        BlockKind::Tests => ExtractView { tests: Some(block), ..extract },
    }
}

/// `extract` after the block `block` was found.
pub open spec fn with_block(extract: ExtractView, block: Seq<char>) -> ExtractView {
    updated(extract, block, block_kind(lowercase(block)))
}

/// What a reading of the first `n` of the lines `all` has found: the blocks
/// that a fence has closed, the lines of the block in progress, and whether
/// a block is open.
pub open spec fn block_scan(all: Seq<Seq<char>>, n: int) -> (ExtractView, Seq<char>, bool)
    decreases n,
{
    if n <= 0 {
        (ExtractView { code: None, dependencies: None, tests: None }, Seq::empty(), false)
    } else {
        let (extract, block, open) = block_scan(all, n - 1);
        let line = all[n - 1];
        if is_fence(line) {
            if open {
                (with_block(extract, block), Seq::empty(), false)
            } else {
                (extract, block, true)
            }
        } else if open {
            (extract, block + line + seq!['\n'], open)
        } else {
            (extract, block, open)
        }
    }
}

/// The blocks of `input`. What is left when the lines end, were it empty,
/// counts as one more block.
pub open spec fn extracted(input: Seq<char>) -> ExtractView {
    let all = lines(input);
    let (extract, block, open) = block_scan(all, all.len() as int);
    with_block(extract, block)
}

/// The first number among the first `k` of the words `ws`.
pub open spec fn first_number(ws: Seq<Seq<char>>, k: int) -> Option<int>
    decreases k,
{
    if k <= 0 {
        None
    } else {
        match first_number(ws, k - 1) {
            Some(n) => Some(n),
            None => parse_i32(ws[k - 1]),
        }
    }
}

/// The first word of `input` that writes a 32-bit integer, or 1 where no
/// word does.
pub open spec fn number_in(input: Seq<char>) -> int {
    match first_number(words(input), words(input).len() as int) {
        Some(n) => n,
        None => 1,
    }
}

/// What a block is taken for, by its text in lower case.
pub fn classify_block(lowered: &str) -> (r: BlockKind)
    ensures
        r == block_kind(lowered@),
{
    let chars = to_chars(lowered);
    if has_substring(&chars, &to_chars("dependenc")) {
        BlockKind::Dependencies
    } else if has_substring(&chars, &to_chars("test")) {
        BlockKind::Tests
    } else {
        BlockKind::Code
    }
}

/// Records the block `input` in `extract`, as the kind `kind`.
pub fn record_block(input: &str, kind: BlockKind, extract: &mut Extract)
    ensures
        final(extract)@ == updated(old(extract)@, input@, kind),
{
    match kind {
        BlockKind::Code => {
            if extract.code.is_none() {
                extract.code = Some(input.to_owned());
            }
        },
        BlockKind::Dependencies => {
            extract.dependencies = Some(input.to_owned());
        },
        BlockKind::Tests => {
            extract.tests = Some(input.to_owned());
        },
    }
}

/// Records the block `input` in `extract`, as what its text in lower case
/// shows it to be.
pub fn update_extract(input: &str, extract: &mut Extract)
    ensures
        final(extract)@ == with_block(old(extract)@, input@),
{
    let input_lower = input.to_lowercase();
    let kind = classify_block(input_lower.as_str());
    record_block(input, kind, extract);
}

/// The blocks of `input`.
pub fn extract_impl(input: &str) -> (r: Extract)
    ensures
        r@ == extracted(input@),
{
    let mut extract = Extract { code: None, dependencies: None, tests: None };
    let chars = to_chars(input);
    let all = split_lines(&chars);
    let marker = to_chars("```");
    let mut code: Vec<char> = Vec::new();
    let mut in_code_block = false;
    let mut i: usize = 0;
    while i < all.len()
        invariant
            i <= all.len(),
            marker@ == "```"@,
            (extract@, code@, in_code_block) == block_scan(views(all@), i as int),
        decreases all.len() - i,
    {
        assert(views(all@)[i as int] == all@[i as int]@);
        let bare = trimmed(&all[i]);
        if matches_at(&bare, &marker, 0) {
            if in_code_block {
                let block = from_chars(&code);
                update_extract(block.as_str(), &mut extract);
                code = Vec::new();
            }
            in_code_block = !in_code_block;
        } else if in_code_block {
            append(&mut code, &all[i]);
            code.push('\n');
        }
        i += 1;
    }
    let block = from_chars(&code);
    update_extract(block.as_str(), &mut extract);
    extract
}

/// The part of a response that `extract_type` names, or a line that says
/// that the response does not hold it.
pub open spec fn extract_part(found: ExtractView, extract_type: Seq<char>) -> Seq<char> {
    if extract_type == "code"@ {
        match found.code {
            Some(text) => text,
            None => "Error: extract_code()"@,
        }
    } else if extract_type == "dependencies"@ {
        match found.dependencies {
            Some(text) => text,
            None => "Error: extract_dependencies()"@,
        }
    } else {
        match found.tests {
            Some(text) => text,
            None => "Error: extract_tests()"@,
        }
    }
}

/// The names of the parts that `extract` can be asked for.
pub open spec fn is_extract_type(extract_type: Seq<char>) -> bool {
    extract_type == "code"@ || extract_type == "dependencies"@ || extract_type == "tests"@
}

/// The part of `found` that `extract_type` names.
fn part_or(part: Option<String>, otherwise: &str) -> (r: String)
    ensures
        r@ == match part {
            Some(text) => text@,
            None => otherwise@,
        },
{
    match part {
        Some(text) => text,
        None => otherwise.to_owned(),
    }
}

/// The part of `input` that `extract_type` names: `code`, `dependencies` or
/// `tests`.
pub fn extract(input: &str, extract_type: &str) -> (r: String)
    requires
        is_extract_type(extract_type@),
    ensures
        r@ == extract_part(extracted(input@), extract_type@),
{
    let found = extract_impl(input);
    if same_text(extract_type, "code") {
        part_or(found.code, "Error: extract_code()")
    } else if same_text(extract_type, "dependencies") {
        part_or(found.dependencies, "Error: extract_dependencies()")
    } else {
        part_or(found.tests, "Error: extract_tests()")
    }
}

/// Once a number is found, looking at more words changes nothing.
proof fn lemma_first_number_stays(ws: Seq<Seq<char>>, k: int, n: int)
    requires
        0 <= k <= n,
        first_number(ws, k) is Some,
    ensures
        first_number(ws, n) == first_number(ws, k),
    decreases n,
{
    if n > k {
        lemma_first_number_stays(ws, k, n - 1);
    }
}

/// The first word of `input` that writes a 32-bit integer, or 1.
pub fn extract_number(input: &str) -> (r: i32)
    ensures
        r == number_in(input@),
{
    let chars = to_chars(input);
    let ws = split_words(&chars);
    let mut k: usize = 0;
    while k < ws.len()
        invariant
            k <= ws.len(),
            views(ws@) == words(input@),
            first_number(words(input@), k as int) is None,
        decreases ws.len() - k,
    {
        assert(views(ws@)[k as int] == ws@[k as int]@);
        match read_i32(&ws[k]) {
            Some(num) => {
                proof {
                    lemma_first_number_stays(words(input@), k + 1, ws.len() as int);
                }
                return num;
            },
            None => {},
        }
        k += 1;
    }
    1
}

} // verus!
