//! What the sections of a response are: the headings that the heading
//! pattern finds, the code block under each, and the second reading, line by
//! line, for the names that the first left out.

use vstd::prelude::*;
use crate::lines::lines;
use crate::offsets::char_index_at;
use crate::pattern::regex_captures;
use crate::pattern::regex_captures_iter;
use crate::pattern::regex_is_match;
use crate::text::contains;
use crate::text::replace;
use crate::text::starts_with;
use crate::text::trim;
use crate::text::trim_end_of;
use crate::text::trim_start_of;
use crate::text::CharClass;

verus! {

/// A heading line: optional `#` and `**` in front, an optional ordinal such
/// as `2. `, the name, then `**` with optional `:` or `*` before it.
pub const HEADING_PATTERN: &'static str =
    "(?m)^(?:\\s*(?:\\#*)?\\s*\\*\\*)?(?:\\d+\\.\\s*)?(.*?)[:\\*]*\\*\\*\\s*$";

/// A fenced code block: three backticks, the rest of that line, the content,
/// three backticks.
pub const CODE_BLOCK_PATTERN: &'static str = "(?s)```.*?\\n(.*?)```";

/// A list item whose text is set in bold.
pub const BULLET_HEADING_PATTERN: &'static str = "- \\*\\*(.*)\\*\\*";

/// A heading: its name, and the index of the character after its line.
pub type Position = (Seq<char>, int);

/// The sections that a reading has found: the content of each, by name.
pub type Sections = Map<Seq<char>, Seq<char>>;

/// The matches of the heading pattern in `response`; none where the pattern
/// does not compile.
pub open spec fn heading_spans(response: Seq<char>) -> Seq<(usize, usize, Option<(usize, usize)>)> {
    match regex_captures_iter(HEADING_PATTERN@, response) {
        Some(spans) => spans,
        None => Seq::empty(),
    }
}

/// The part of `text` between the byte offsets `from` and `to`, where both
/// stand for character indices and are in order.
pub open spec fn byte_range(text: Seq<char>, from: usize, to: usize) -> Option<Seq<char>> {
    match (char_index_at(text, from as int), char_index_at(text, to as int)) {
        (Some(a), Some(b)) => if 0 <= a <= b <= text.len() {
            Some(text.subrange(a, b))
        } else {
            None
        },
        _ => None,
    }
}

/// The heading that `span` stands for: the text of its first group and the
/// character index of the end of the match. `None` where the group took no
/// part or an offset falls inside a character.
pub open spec fn position_of(response: Seq<char>, span: (usize, usize, Option<(usize, usize)>))
    -> Option<Position> {
    match (span.2, char_index_at(response, span.1 as int)) {
        (Some(group), Some(end)) => match byte_range(response, group.0, group.1) {
            Some(name) => Some((name, end)),
            None => None,
        },
        _ => None,
    }
}

/// The headings that `spans` stand for, in order.
pub open spec fn positions_of(
    response: Seq<char>,
    spans: Seq<(usize, usize, Option<(usize, usize)>)>,
) -> Seq<Position>
    decreases spans.len(),
{
    if spans.len() == 0 {
        Seq::empty()
    } else {
        let before = positions_of(response, spans.drop_last());
        match position_of(response, spans.last()) {
            Some(p) => before.push(p),
            None => before,
        }
    }
}

/// The headings of `response`, followed by a last one without a name at the
/// end of the text.
pub open spec fn positions(response: Seq<char>) -> Seq<Position> {
    positions_of(response, heading_spans(response)).push((Seq::empty(), response.len() as int))
}

/// The content of the code block that `capture` stands for: the text of its
/// first group, where there is a capture and the group took part in it.
pub open spec fn captured_block(
    section: Seq<char>,
    capture: Option<(usize, usize, Option<(usize, usize)>)>,
) -> Option<Seq<char>> {
    match capture {
        Some(span) => match span.2 {
            Some(group) => byte_range(section, group.0, group.1),
            None => None,
        },
        None => None,
    }
}

/// The content of the first code block of `section`; none where the pattern
/// of code blocks does not compile.
pub open spec fn code_block(section: Seq<char>) -> Option<Seq<char>> {
    match regex_captures(CODE_BLOCK_PATTERN@, section) {
        Some(capture) => captured_block(section, capture),
        None => None,
    }
}

/// The text of section `i`: from the end of heading `i` to the end of the
/// next heading.
pub open spec fn section_text(response: Seq<char>, found: Seq<Position>, i: int) -> Option<
    Seq<char>,
> {
    if 0 <= i && i + 1 < found.len() && 0 <= found[i].1 <= found[i + 1].1 <= response.len() {
        Some(response.subrange(found[i].1, found[i + 1].1))
    } else {
        None
    }
}

/// `sections` after `content` has been recorded under each of the first `k`
/// of `names` that `heading` contains.
pub open spec fn recorded(
    sections: Sections,
    heading: Seq<char>,
    names: Seq<Seq<char>>,
    k: int,
    content: Seq<char>,
) -> Sections
    decreases k,
{
    if k <= 0 {
        sections
    } else {
        let before = recorded(sections, heading, names, k - 1, content);
        if contains(heading, names[k - 1]) {
            before.insert(names[k - 1], content)
        } else {
            before
        }
    }
}

/// What the first reading finds in the first `n` sections of `response`.
pub open spec fn primary_sections(
    response: Seq<char>,
    found: Seq<Position>,
    names: Seq<Seq<char>>,
    n: int,
) -> Sections
    decreases n,
{
    if n <= 0 {
        Map::empty()
    } else {
        let before = primary_sections(response, found, names, n - 1);
        match section_text(response, found, n - 1) {
            Some(text) => match code_block(text) {
                Some(content) => recorded(before, found[n - 1].0, names, names.len() as int, content),
                None => before,
            },
            None => before,
        }
    }
}

/// The first `k` of `names` that `sections` has no content for.
pub open spec fn missing_names(sections: Sections, names: Seq<Seq<char>>, k: int) -> Seq<Seq<char>>
    decreases k,
{
    if k <= 0 {
        Seq::empty()
    } else {
        let before = missing_names(sections, names, k - 1);
        if sections.contains_key(names[k - 1]) {
            before
        } else {
            before.push(names[k - 1])
        }
    }
}

/// Whether a line is taken for a heading, where `bullet` says whether it
/// holds a list item set in bold: a line that starts with `## ` or `### `,
/// or such a list item.
pub open spec fn heading_given(line: Seq<char>, bullet: bool) -> bool {
    starts_with(line, "## "@) || starts_with(line, "### "@) || bullet
}

/// A line that the second reading takes for a heading.
pub open spec fn is_alt_heading(line: Seq<char>) -> bool {
    heading_given(line, regex_is_match(BULLET_HEADING_PATTERN@, line) == Some(true))
}

/// The title of a heading line: the line without the markers in front, the
/// white space around it, and the characters `` ` ``, `*` and `:`.
pub open spec fn title_of(line: Seq<char>) -> Seq<char> {
    let bare = trim(trim_start_of(line, CharClass::HeadingMarker));
    replace(replace(replace(replace(bare, "`"@, ""@), "- **"@, ""@), "*"@, ""@), ":"@, ""@)
}

/// A line that opens or closes a code block.
pub open spec fn is_fence(line: Seq<char>) -> bool {
    starts_with(trim(line), "```"@)
}

/// The number of lines from line `from` to the first fence at or after it,
/// or to the end.
pub open spec fn fence_distance(all: Seq<Seq<char>>, from: int) -> nat
    decreases all.len() - from,
{
    if from < 0 || from >= all.len() || is_fence(all[from]) {
        0
    } else {
        1 + fence_distance(all, from + 1)
    }
}

/// The lines `from..to` of `all`, each followed by a line feed.
pub open spec fn joined(all: Seq<Seq<char>>, from: int, to: int) -> Seq<char>
    decreases to - from,
{
    if to <= from {
        Seq::empty()
    } else {
        joined(all, from, to - 1) + all[to - 1] + seq!['\n']
    }
}

/// The index of the first of the first `k` of `names` that `title` contains.
pub open spec fn first_contained(title: Seq<char>, names: Seq<Seq<char>>, k: int) -> Option<int>
    decreases k,
{
    if k <= 0 {
        None
    } else {
        match first_contained(title, names, k - 1) {
            Some(i) => Some(i),
            None => if contains(title, names[k - 1]) {
                Some(k - 1)
            } else {
                None
            },
        }
    }
}

/// What the second reading adds to `sections`, from line `i` on. A heading
/// whose title contains one of `wanted` takes the lines between the next two
/// fences as the content of the first such name; the reading goes on after
/// the closing fence. Where no fence opens, the reading ends; where none
/// closes, the content runs to the end.
pub open spec fn fallback_sections(
    all: Seq<Seq<char>>,
    wanted: Seq<Seq<char>>,
    i: int,
    sections: Sections,
) -> Sections
    decreases all.len() - i,
{
    if i < 0 || i >= all.len() {
        sections
    } else if !is_alt_heading(all[i]) {
        fallback_sections(all, wanted, i + 1, sections)
    } else {
        match first_contained(title_of(all[i]), wanted, wanted.len() as int) {
            None => fallback_sections(all, wanted, i + 1, sections),
            Some(k) => {
                let open = i + 1 + fence_distance(all, i + 1);
                let close = open + 1 + fence_distance(all, open + 1);
                let content = trim_end_of(joined(all, open + 1, close), CharClass::Whitespace);
                if open >= all.len() {
                    sections
                } else if close >= all.len() {
                    sections.insert(wanted[k], content)
                } else {
                    fallback_sections(all, wanted, close + 1, sections.insert(wanted[k], content))
                }
            },
        }
    }
}

/// The sections of `response` for `names`: what the first reading finds and,
/// where it leaves a name out, what the second adds for the names left out.
pub open spec fn extracted_sections(response: Seq<char>, names: Seq<Seq<char>>) -> Sections {
    let found = positions(response);
    let first = primary_sections(response, found, names, found.len() - 1);
    let wanted = missing_names(first, names, names.len() as int);
    if wanted.len() == 0 {
        first
    } else {
        fallback_sections(lines(response), wanted, 0, first)
    }
}

} // verus!
