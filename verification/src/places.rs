//! Reading a response into a fixed list of places, as the modules of single
//! languages do: under each heading the first name that the heading contains
//! takes the code block, and a second reading, made only where the first
//! place stayed empty, takes the block after a `## ` heading whose title is
//! the title of a place.

use vstd::prelude::*;
use crate::lines::lines;
use crate::lines::split_lines;
use crate::lines::views;
use crate::llm_response::first_code_block;
use crate::llm_response::join_lines;
use crate::llm_response::lemma_first_contained_stays;
use crate::llm_response::names_of;
use crate::llm_response::position_views;
use crate::llm_response::LLMResponse;
use crate::sections::code_block;
use crate::sections::first_contained;
use crate::sections::joined;
use crate::sections::positions;
use crate::sections::section_text;
use crate::sections::Position;
use crate::text::from_chars;
use crate::text::has_substring;
use crate::text::matches_at;
use crate::text::slice;
use crate::text::starts_with;
use crate::text::to_chars;
use crate::text::trim;
use crate::text::trim_end;
use crate::text::trim_end_of;
use crate::text::trimmed;
use crate::text::CharClass;

verus! {

/// The texts of `slots`.
pub open spec fn slot_views(slots: Seq<String>) -> Seq<Seq<char>> {
    Seq::new(slots.len(), |i: int| slots[i]@)
}

/// `n` empty texts.
pub open spec fn empty_slots(n: nat) -> Seq<Seq<char>> {
    Seq::new(n, |i: int| Seq::<char>::empty())
}

/// A line that starts with a fence.
pub open spec fn is_bare_fence(line: Seq<char>) -> bool {
    starts_with(line, "```"@)
}

/// The number of lines from line `from` to the first that starts with a
/// fence, or to the end.
pub open spec fn bare_fence_distance(all: Seq<Seq<char>>, from: int) -> nat
    decreases all.len() - from,
{
    if from < 0 || from >= all.len() || is_bare_fence(all[from]) {
        0
    } else {
        1 + bare_fence_distance(all, from + 1)
    }
}

/// The title of a `## ` heading: what follows the marker, without the white
/// space around it.
pub open spec fn plain_title(line: Seq<char>) -> Seq<char> {
    trim(line.skip(3))
}

/// The index of the first of the first `k` of `titles` that is `title`.
pub open spec fn title_index(titles: Seq<Seq<char>>, title: Seq<char>, k: int) -> Option<int>
    decreases k,
{
    if k <= 0 {
        None
    } else {
        match title_index(titles, title, k - 1) {
            Some(i) => Some(i),
            None => if titles[k - 1] == title {
                Some(k - 1)
            } else {
                None
            },
        }
    }
}

/// `slots` with `content` in the place that `place` names, if it names one.
pub open spec fn placed(slots: Seq<Seq<char>>, place: Option<int>, content: Seq<char>) -> Seq<
    Seq<char>,
> {
    match place {
        Some(k) => if 0 <= k < slots.len() {
            slots.update(k, content)
        } else {
            slots
        },
        None => slots,
    }
}

/// What the first reading finds in the first `n` sections: for each of
/// `names` the code block of the last section whose heading contains it and
/// none of the names before it.
pub open spec fn first_reading(
    response: Seq<char>,
    found: Seq<Position>,
    names: Seq<Seq<char>>,
    n: int,
) -> Seq<Seq<char>>
    decreases n,
{
    if n <= 0 {
        empty_slots(names.len())
    } else {
        let before = first_reading(response, found, names, n - 1);
        match section_text(response, found, n - 1) {
            Some(text) => match code_block(text) {
                Some(content) => placed(
                    before,
                    first_contained(found[n - 1].0, names, names.len() as int),
                    content,
                ),
                None => before,
            },
            None => before,
        }
    }
}

/// What the second reading makes of `slots`, from line `i` on: after a
/// `## ` heading the lines between the next two fences are the content of
/// the place whose title the heading has, if any, and the reading goes on
/// after the closing fence.
pub open spec fn second_reading(
    all: Seq<Seq<char>>,
    titles: Seq<Seq<char>>,
    i: int,
    slots: Seq<Seq<char>>,
) -> Seq<Seq<char>>
    decreases all.len() - i,
{
    if i < 0 || i >= all.len() {
        slots
    } else if !starts_with(all[i], "## "@) {
        second_reading(all, titles, i + 1, slots)
    } else {
        let open = i + 1 + bare_fence_distance(all, i + 1);
        let close = open + 1 + bare_fence_distance(all, open + 1);
        let content = trim_end_of(joined(all, open + 1, close), CharClass::Whitespace);
        let filled = placed(
            slots,
            title_index(titles, plain_title(all[i]), titles.len() as int),
            content,
        );
        if open >= all.len() {
            slots
        } else if close >= all.len() {
            filled
        } else {
            second_reading(all, titles, close + 1, filled)
        }
    }
}

/// What a response holds for the places `names`: what the first reading
/// finds and, where that leaves the first place empty, what the second makes
/// of it with the titles `titles`.
pub open spec fn read_slots(response: Seq<char>, names: Seq<Seq<char>>, titles: Seq<Seq<char>>)
    -> Seq<Seq<char>> {
    let found = positions(response);
    let first = first_reading(response, found, names, found.len() - 1);
    if names.len() > 0 && first[0].len() == 0 {
        second_reading(lines(response), titles, 0, first)
    } else {
        first
    }
}

/// Once a title is found, looking at more titles changes nothing.
proof fn lemma_title_index_stays(titles: Seq<Seq<char>>, title: Seq<char>, k: int, n: int)
    requires
        0 <= k <= n,
        title_index(titles, title, k) is Some,
    ensures
        title_index(titles, title, n) == title_index(titles, title, k),
    decreases n,
{
    if n > k {
        lemma_title_index_stays(titles, title, k, n - 1);
    }
}

/// The index of the first of `titles` that is `title`.
fn find_title(titles: &Vec<&str>, title: &Vec<char>) -> (r: Option<usize>)
    ensures
        match r {
            Some(k) => k < titles.len() && title_index(
                names_of(titles@),
                title@,
                titles.len() as int,
            ) == Some(k as int),
            None => title_index(names_of(titles@), title@, titles.len() as int) is None,
        },
{
    let ghost all = names_of(titles@);
    let mut k: usize = 0;
    while k < titles.len()
        invariant
            k <= titles.len(),
            all == names_of(titles@),
            title_index(all, title@, k as int) is None,
        decreases titles.len() - k,
    {
        assert(all[k as int] == titles@[k as int]@);
        let candidate = to_chars(titles[k]);
        if candidate.len() == title.len() && matches_at(title, &candidate, 0) {
            assert(title@.subrange(0, title@.len() as int) == title@);
            proof {
                lemma_title_index_stays(all, title@, k + 1, titles.len() as int);
            }
            return Some(k);
        }
        assert(all[k as int] != title@) by {
            if all[k as int] == title@ {
                assert(title@.subrange(0, title@.len() as int) == title@);
            }
        }
        k += 1;
    }
    None
}

/// The index of the first of `names` that `heading` contains.
fn find_name(heading: &Vec<char>, names: &Vec<&str>) -> (r: Option<usize>)
    ensures
        match r {
            Some(k) => k < names.len() && first_contained(
                heading@,
                names_of(names@),
                names.len() as int,
            ) == Some(k as int),
            None => first_contained(heading@, names_of(names@), names.len() as int) is None,
        },
{
    let ghost all = names_of(names@);
    let mut k: usize = 0;
    while k < names.len()
        invariant
            k <= names.len(),
            all == names_of(names@),
            first_contained(heading@, all, k as int) is None,
        decreases names.len() - k,
    {
        assert(all[k as int] == names@[k as int]@);
        if has_substring(heading, &to_chars(names[k])) {
            proof {
                lemma_first_contained_stays(heading@, all, k as int, names.len() as int);
            }
            return Some(k);
        }
        k += 1;
    }
    None
}

/// Puts `content` in the place `place` of `slots`.
fn place_content(slots: &mut Vec<String>, place: Option<usize>, content: &Vec<char>)
    ensures
        final(slots)@.len() == old(slots)@.len(),
        slot_views(final(slots)@) == placed(
            slot_views(old(slots)@),
            match place {
                Some(k) => Some(k as int),
                None => None,
            },
            content@,
        ),
{
    match place {
        Some(k) => {
            if k < slots.len() {
                slots.set(k, from_chars(content));
                assert(slot_views(slots@) =~= slot_views(old(slots)@).update(k as int, content@));
            }
        },
        None => {},
    }
}

/// The index of the first line at or after `from` that starts with a fence.
fn next_bare_fence(all: &Vec<Vec<char>>, from: usize) -> (r: usize)
    requires
        from <= all.len(),
    ensures
        r == from + bare_fence_distance(views(all@), from as int),
        from <= r <= all.len(),
{
    let marker = to_chars("```");
    let mut j: usize = from;
    while j < all.len()
        invariant
            from <= j <= all.len(),
            marker@ == "```"@,
            from + bare_fence_distance(views(all@), from as int) == j + bare_fence_distance(
                views(all@),
                j as int,
            ),
        decreases all.len() - j,
    {
        assert(views(all@)[j as int] == all@[j as int]@);
        if matches_at(&all[j], &marker, 0) {
            return j;
        }
        j += 1;
    }
    j
}

/// Makes of `slots` what the second reading makes of them.
fn read_again(all: &Vec<Vec<char>>, titles: &Vec<&str>, slots: &mut Vec<String>)
    ensures
        final(slots)@.len() == old(slots)@.len(),
        slot_views(final(slots)@) == second_reading(
            views(all@),
            names_of(titles@),
            0,
            slot_views(old(slots)@),
        ),
{
    let ghost rows = views(all@);
    let ghost goal = second_reading(rows, names_of(titles@), 0, slot_views(slots@));
    let heading = to_chars("## ");
    let mut i: usize = 0;
    while i < all.len()
        invariant
            i <= all.len(),
            rows == views(all@),
            heading@ == "## "@,
            slots@.len() == old(slots)@.len(),
            goal == second_reading(rows, names_of(titles@), 0, slot_views(old(slots)@)),
            goal == second_reading(rows, names_of(titles@), i as int, slot_views(slots@)),
        decreases all.len() - i,
    {
        assert(rows[i as int] == all@[i as int]@);
        let line = &all[i];
        if !matches_at(line, &heading, 0) {
            i += 1;
            continue ;
        }
        proof {
            reveal_strlit("## ");
        }
        let rest = slice(line, 3, line.len());
        assert(rest@ == line@.skip(3));
        let title = trimmed(&rest);
        let open = next_bare_fence(all, i + 1);
        if open >= all.len() {
            return ;
        }
        let close = next_bare_fence(all, open + 1);
        let body = join_lines(all, open + 1, close);
        let content = trim_end(&body, CharClass::Whitespace);
        let place = find_title(titles, &title);
        place_content(slots, place, &content);
        if close >= all.len() {
            return ;
        }
        i = close + 1;
    }
}

/// What `response` holds for the places `names`, with the titles `titles`
/// for the second reading.
pub fn read_places(response: &str, names: &Vec<&str>, titles: &Vec<&str>) -> (r: Vec<String>)
    ensures
        r@.len() == names@.len(),
        slot_views(r@) == read_slots(response@, names_of(names@), names_of(titles@)),
{
    let chars = to_chars(response);
    let found = LLMResponse::parse_positions(response);
    let ghost heads = positions(response@);
    let ghost wanted = names_of(names@);
    let mut slots: Vec<String> = Vec::new();
    let mut k: usize = 0;
    while k < names.len()
        invariant
            k <= names.len(),
            slots@.len() == k,
            forall|j: int| 0 <= j < k ==> (#[trigger] slots@[j])@ == Seq::<char>::empty(),
        decreases names.len() - k,
    {
        slots.push(String::new());
        k += 1;
    }
    assert(slot_views(slots@) =~= empty_slots(wanted.len()));
    assert(found@.len() == position_views(found@).len());
    let last = found.len() - 1;
    let mut i: usize = 0;
    while i < last
        invariant
            i <= last,
            last + 1 == found.len(),
            chars@ == response@,
            wanted == names_of(names@),
            heads == positions(response@),
            position_views(found@) == heads,
            slots@.len() == names@.len(),
            slot_views(slots@) == first_reading(response@, heads, wanted, i as int),
        decreases last - i,
    {
        assert(heads[i as int] == (found@[i as int].0@, found@[i as int].1 as int));
        assert(heads[i + 1] == (found@[i + 1].0@, found@[i + 1].1 as int));
        let start = found[i].1;
        let end = found[i + 1].1;
        if start <= end && end <= chars.len() {
            let part = slice(&chars, start, end);
            assert(section_text(response@, heads, i as int) == Some(part@));
            match first_code_block(&part) {
                Some(content) => {
                    let heading = to_chars(found[i].0.as_str());
                    let place = find_name(&heading, names);
                    place_content(&mut slots, place, &content);
                },
                None => {},
            }
        } else {
            assert(section_text(response@, heads, i as int) is None);
        }
        i += 1;
    }
    if slots.len() > 0 && slots[0].as_str().is_empty() {
        assert(slot_views(slots@)[0] == slots@[0]@);
        let all = split_lines(&chars);
        read_again(&all, titles, &mut slots);
    } else if slots.len() > 0 {
        assert(slot_views(slots@)[0] == slots@[0]@);
    }
    slots
}

} // verus!
