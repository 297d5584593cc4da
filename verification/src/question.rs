//! Taking the question from the lines that the user types or pastes.

use vstd::prelude::*;
use crate::text::append;
use crate::text::ends_with;
use crate::text::from_chars;
use crate::text::matches_at;
use crate::text::slice;
use crate::text::to_chars;
use crate::text::trim;
use crate::text::trimmed;

verus! {

/// The line ending behind a backslash, which asks for a further line.
pub const CONTINUATION: &'static str = "\\\r\n";

/// The milliseconds after the first line within which a line is taken to be
/// pasted together with it.
pub const PASTE_WINDOW_MS: u64 = 100;

/// Whether `line` asks for a further line.
pub open spec fn continues(line: Seq<char>) -> bool {
    ends_with(line, CONTINUATION@)
}

/// `line` as it enters the question: without the backslash of a
/// continuation.
pub open spec fn entered(line: Seq<char>) -> Seq<char> {
    if continues(line) {
        line.subrange(0, line.len() - 3) + seq!['\r', '\n']
    } else {
        line
    }
}

/// Whether a further line is read after `line`: after the first line always,
/// after a later one while the paste window is open or the line asks for it.
pub open spec fn reads_on(first: bool, elapsed_ms: u64, line: Seq<char>) -> bool {
    first || elapsed_ms < PASTE_WINDOW_MS || continues(line)
}

/// The first `k` of `parts`, one after the other.
pub open spec fn concatenated(parts: Seq<Seq<char>>, k: int) -> Seq<char>
    decreases k,
{
    if k <= 0 {
        Seq::empty()
    } else {
        concatenated(parts, k - 1) + parts[k - 1]
    }
}

/// The question that `parts` make up: all of them, without the white space
/// around, and a line ending.
pub open spec fn question_of(parts: Seq<Seq<char>>) -> Seq<char> {
    trim(concatenated(parts, parts.len() as int)) + seq!['\r', '\n']
}

/// Whether `line` asks for a further line.
pub fn line_continues(line: &str) -> (r: bool)
    ensures
        r == continues(line@),
{
    let chars = to_chars(line);
    let mark = to_chars(CONTINUATION);
    chars.len() >= mark.len() && matches_at(&chars, &mark, chars.len() - mark.len())
}

/// `line` as it enters the question.
pub fn enter_line(line: &str) -> (r: String)
    ensures
        r@ == entered(line@),
{
    proof {
        reveal_strlit("\\\r\n");
    }
    if line_continues(line) {
        let chars = to_chars(line);
        let mut out = slice(&chars, 0, chars.len() - 3);
        out.push('\r');
        out.push('\n');
        assert(out@ == chars@.subrange(0, chars.len() - 3) + seq!['\r', '\n']);
        from_chars(&out)
    } else {
        line.to_owned()
    }
}

/// Whether a further line is read after `line`, which came `elapsed_ms`
/// after the first line; `first` says that it is the first.
pub fn keeps_reading(first: bool, elapsed_ms: u64, line: &str) -> (r: bool)
    ensures
        r == reads_on(first, elapsed_ms, line@),
{
    first || elapsed_ms < PASTE_WINDOW_MS || line_continues(line)
}

/// The question that the lines `lines` make up.
pub fn finish_question(lines: &Vec<String>) -> (r: String)
    ensures
        r@ == question_of(Seq::new(lines@.len(), |i: int| lines@[i]@)),
{
    let ghost parts = Seq::new(lines@.len(), |i: int| lines@[i]@);
    let mut all: Vec<char> = Vec::new();
    let mut i: usize = 0;
    while i < lines.len()
        invariant
            i <= lines.len(),
            parts == Seq::new(lines@.len(), |i: int| lines@[i]@),
            all@ == concatenated(parts, i as int),
        decreases lines.len() - i,
    {
        assert(parts[i as int] == lines@[i as int]@);
        append(&mut all, &to_chars(lines[i].as_str()));
        i += 1;
    }
    let mut out = trimmed(&all);
    out.push('\r');
    out.push('\n');
    assert(out@ == trim(all@) + seq!['\r', '\n']);
    from_chars(&out)
}

} // verus!
