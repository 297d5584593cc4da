//! What holds of every reading of a response.

use vstd::prelude::*;
use crate::lang::Lang;
use crate::lines::lines;
use crate::llm_response::empty_project;
use crate::llm_response::is_supported;
use crate::llm_response::parsed_project;
use crate::llm_response::project_from;
use crate::llm_response::section_names;
use crate::llm_response::text_of;
use crate::llm_response::ProjectView;
use crate::offsets::char_index_at;
use crate::sections::extracted_sections;
use crate::sections::fallback_sections;
use crate::sections::fence_distance;
use crate::sections::first_contained;
use crate::sections::heading_spans;
use crate::sections::is_alt_heading;
use crate::sections::is_fence;
use crate::sections::joined;
use crate::sections::missing_names;
use crate::sections::position_of;
use crate::sections::positions;
use crate::sections::positions_of;
use crate::sections::primary_sections;
use crate::sections::recorded;
use crate::sections::title_of;
use crate::sections::Sections;
use crate::text::contains;
use crate::text::occurs_at;
use crate::text::trim_end_of;
use crate::text::CharClass;
use crate::utils::lemma_empty_command;

verus! {

/// The sections of a response depend on its text and on the names alone: two
/// readings of one text for the same names find the same.
pub proof fn lemma_reading_is_repeatable(
    response: Seq<char>,
    again: Seq<char>,
    names: Seq<Seq<char>>,
    lang: Lang,
)
    requires
        response == again,
    ensures
        extracted_sections(response, names) == extracted_sections(again, names),
        parsed_project(response, lang) == parsed_project(again, lang),
{
}

/// What a part of a text contains, the text contains.
pub proof fn lemma_part_contains(text: Seq<char>, from: int, to: int, pat: Seq<char>)
    requires
        0 <= from <= to <= text.len(),
        contains(text.subrange(from, to), pat),
    ensures
        contains(text, pat),
{
    let part = text.subrange(from, to);
    let i = choose|i: int| occurs_at(part, pat, i);
    assert(part.subrange(i, i + pat.len()) == text.subrange(from + i, from + i + pat.len()));
    assert(occurs_at(text, pat, from + i));
}

/// The name of every heading that the heading pattern finds is a part of the
/// response, or empty.
pub proof fn lemma_heading_names_are_parts(
    response: Seq<char>,
    spans: Seq<(usize, usize, Option<(usize, usize)>)>,
    i: int,
    pat: Seq<char>,
)
    requires
        0 <= i < positions_of(response, spans).len(),
        contains(positions_of(response, spans)[i].0, pat),
    ensures
        contains(response, pat),
    decreases spans.len(),
{
    if spans.len() > 0 {
        let before = positions_of(response, spans.drop_last());
        if i < before.len() {
            lemma_heading_names_are_parts(response, spans.drop_last(), i, pat);
        } else {
            let group = spans.last().2->0;
            let a = char_index_at(response, group.0 as int)->0;
            let b = char_index_at(response, group.1 as int)->0;
            assert(position_of(response, spans.last()) is Some);
            assert(positions_of(response, spans)[i].0 == response.subrange(a, b));
            lemma_part_contains(response, a, b, pat);
        }
    }
}

/// What is recorded under a heading that contains none of the names is
/// nothing.
proof fn lemma_nothing_recorded(
    sections: Sections,
    heading: Seq<char>,
    names: Seq<Seq<char>>,
    k: int,
    content: Seq<char>,
)
    requires
        k <= names.len(),
        forall|j: int| 0 <= j < names.len() ==> !contains(heading, #[trigger] names[j]),
    ensures
        recorded(sections, heading, names, k, content) == sections,
    decreases k,
{
    if k > 0 {
        lemma_nothing_recorded(sections, heading, names, k - 1, content);
    }
}

/// Where the response contains none of the names, the first reading finds
/// nothing.
proof fn lemma_first_reading_empty(response: Seq<char>, names: Seq<Seq<char>>, n: int)
    requires
        n < positions(response).len(),
        forall|j: int| 0 <= j < names.len() ==> !contains(response, #[trigger] names[j]),
    ensures
        primary_sections(response, positions(response), names, n) == Map::<
            Seq<char>,
            Seq<char>,
        >::empty(),
    decreases n,
{
    if n > 0 {
        lemma_first_reading_empty(response, names, n - 1);
        let found = positions(response);
        let heads = positions_of(response, crate::sections::heading_spans(response));
        assert(found[n - 1] == heads[n - 1]);
        assert forall|j: int| 0 <= j < names.len() implies !contains(
            found[n - 1].0,
            #[trigger] names[j],
        ) by {
            if contains(found[n - 1].0, names[j]) {
                lemma_heading_names_are_parts(
                    response,
                    crate::sections::heading_spans(response),
                    n - 1,
                    names[j],
                );
            }
        }
        let empty = Map::<Seq<char>, Seq<char>>::empty();
        assert forall|content: Seq<char>|
            #[trigger] recorded(empty, found[n - 1].0, names, names.len() as int, content)
                == empty by {
            lemma_nothing_recorded(empty, found[n - 1].0, names, names.len() as int, content);
        }
    }
}

/// Where no section was found, every name is missing.
proof fn lemma_all_missing(names: Seq<Seq<char>>, k: int)
    requires
        0 <= k <= names.len(),
    ensures
        missing_names(Map::empty(), names, k) == names.take(k),
    decreases k,
{
    if k > 0 {
        lemma_all_missing(names, k - 1);
        assert(names.take(k) == names.take(k - 1).push(names[k - 1]));
    } else {
        assert(names.take(0) == Seq::<Seq<char>>::empty());
    }
}

/// A title that contains none of the names names none.
proof fn lemma_none_contained(title: Seq<char>, names: Seq<Seq<char>>, k: int)
    requires
        k <= names.len(),
        forall|j: int| 0 <= j < names.len() ==> !contains(title, #[trigger] names[j]),
    ensures
        first_contained(title, names, k) is None,
    decreases k,
{
    if k > 0 {
        lemma_none_contained(title, names, k - 1);
    }
}

/// No title of a heading line of `all` contains one of `names`.
pub open spec fn no_title_names(all: Seq<Seq<char>>, names: Seq<Seq<char>>) -> bool {
    forall|i: int, j: int|
        0 <= i < all.len() && 0 <= j < names.len() && is_alt_heading(#[trigger] all[i])
            ==> !contains(title_of(all[i]), #[trigger] names[j])
}

/// Where no title contains a name, the second reading adds nothing.
proof fn lemma_second_reading_adds_nothing(
    all: Seq<Seq<char>>,
    names: Seq<Seq<char>>,
    i: int,
    sections: Sections,
)
    requires
        no_title_names(all, names),
    ensures
        fallback_sections(all, names, i, sections) == sections,
    decreases all.len() - i,
{
    if 0 <= i < all.len() {
        if is_alt_heading(all[i]) {
            assert forall|j: int| 0 <= j < names.len() implies !contains(
                title_of(all[i]),
                #[trigger] names[j],
            ) by {}
            lemma_none_contained(title_of(all[i]), names, names.len() as int);
        }
        lemma_second_reading_adds_nothing(all, names, i + 1, sections);
    }
}

/// A response that contains none of the names, and none of whose heading
/// lines has a title that contains one once its markup is taken away, has no
/// section.
pub proof fn lemma_no_name_no_section(response: Seq<char>, names: Seq<Seq<char>>)
    requires
        forall|j: int| 0 <= j < names.len() ==> !contains(response, #[trigger] names[j]),
        no_title_names(lines(response), names),
    ensures
        extracted_sections(response, names) == Map::<Seq<char>, Seq<char>>::empty(),
{
    let found = positions(response);
    lemma_first_reading_empty(response, names, found.len() - 1);
    lemma_all_missing(names, names.len() as int);
    assert(names.take(names.len() as int) == names);
    lemma_second_reading_adds_nothing(lines(response), names, 0, Map::empty());
}

/// The project of a response without sections: every text is empty, and the
/// command that installs, where the language has one, is the empty command.
pub open spec fn blank_project(lang: Lang) -> ProjectView {
    let blank = empty_project(lang);
    match lang {
        Lang::JavaScript | Lang::Php | Lang::Python => ProjectView {
            install_dependency_command: Some(Seq::empty()),
            ..blank
        },
        Lang::TypeScript => ProjectView { additional_config: seq![Seq::empty()], ..blank },
        _ => blank,
    }
}

/// A response that contains none of the section names of its language, and
/// none of whose heading lines has a title that contains one once its markup
/// is taken away, gives the project in which every text is empty.
pub proof fn lemma_default_empty(response: Seq<char>, lang: Lang)
    requires
        is_supported(lang),
        forall|j: int|
            0 <= j < section_names(lang).len() ==> !contains(
                response,
                #[trigger] section_names(lang)[j],
            ),
        no_title_names(lines(response), section_names(lang)),
    ensures
        parsed_project(response, lang) == blank_project(lang),
{
    lemma_no_name_no_section(response, section_names(lang));
    lemma_empty_command();
    let none = Map::<Seq<char>, Seq<char>>::empty();
    assert forall|name: Seq<char>| text_of(none, name) == Seq::<char>::empty() by {}
    assert(project_from(lang, none).additional_config =~= blank_project(lang).additional_config);
}

/// One section in the grammar of the second reading: the heading line, the
/// name that its title stands for, and the lines of the two fences.
pub ghost struct Block {
    pub start: int,
    pub name: int,
    pub open: int,
    pub close: int,
}

/// Whether `block` is a section of the lines `all` for the names `wanted`:
/// a heading whose title names `wanted[block.name]`, then the first fence on
/// line `block.open`, and the next fence on line `block.close`.
pub open spec fn is_block(all: Seq<Seq<char>>, wanted: Seq<Seq<char>>, block: Block) -> bool {
    &&& 0 <= block.start < block.open < block.close < all.len()
    &&& 0 <= block.name < wanted.len()
    &&& is_alt_heading(all[block.start])
    &&& first_contained(title_of(all[block.start]), wanted, wanted.len() as int) == Some(
        block.name,
    )
    &&& is_fence(all[block.open])
    &&& is_fence(all[block.close])
    &&& forall|j: int| block.start < j < block.open ==> !is_fence(#[trigger] all[j])
    &&& forall|j: int| block.open < j < block.close ==> !is_fence(#[trigger] all[j])
}

/// What stands between the fences of `block`.
pub open spec fn block_content(all: Seq<Seq<char>>, block: Block) -> Seq<char> {
    trim_end_of(joined(all, block.open + 1, block.close), CharClass::Whitespace)
}

/// Whether none of the lines `from..to` of `all` is taken for a heading.
pub open spec fn no_heading_between(all: Seq<Seq<char>>, from: int, to: int) -> bool {
    forall|j: int| from <= j < to ==> !is_alt_heading(#[trigger] all[j])
}

/// Whether the lines `all`, from line `from` on, are the sections `blocks`
/// from the `i`th on, in their order, with no heading line outside them.
pub open spec fn is_tiled(
    all: Seq<Seq<char>>,
    wanted: Seq<Seq<char>>,
    blocks: Seq<Block>,
    i: int,
    from: int,
) -> bool
    decreases blocks.len() - i,
{
    if i < 0 || i >= blocks.len() {
        0 <= from && no_heading_between(all, from, all.len() as int)
    } else {
        &&& is_block(all, wanted, blocks[i])
        &&& 0 <= from <= blocks[i].start
        &&& no_heading_between(all, from, blocks[i].start)
        &&& is_tiled(all, wanted, blocks, i + 1, blocks[i].close + 1)
    }
}

/// `sections` after the contents of the sections `blocks`, from the `i`th
/// on, were recorded in their order.
pub open spec fn with_blocks(
    all: Seq<Seq<char>>,
    wanted: Seq<Seq<char>>,
    blocks: Seq<Block>,
    i: int,
    sections: Sections,
) -> Sections
    decreases blocks.len() - i,
{
    if i < 0 || i >= blocks.len() {
        sections
    } else {
        with_blocks(
            all,
            wanted,
            blocks,
            i + 1,
            sections.insert(wanted[blocks[i].name], block_content(all, blocks[i])),
        )
    }
}

/// Lines that are no fences, up to one that is, are as many as lie before
/// that one.
proof fn lemma_fence_distance(all: Seq<Seq<char>>, from: int, to: int)
    requires
        0 <= from <= to < all.len(),
        is_fence(all[to]),
        forall|j: int| from <= j < to ==> !is_fence(#[trigger] all[j]),
    ensures
        fence_distance(all, from) == to - from,
    decreases to - from,
{
    if from < to {
        lemma_fence_distance(all, from + 1, to);
    }
}

/// The second reading takes a section in one step: it records its content
/// and goes on after its closing fence.
proof fn lemma_block_is_read(
    all: Seq<Seq<char>>,
    wanted: Seq<Seq<char>>,
    block: Block,
    sections: Sections,
)
    requires
        is_block(all, wanted, block),
    ensures
        fallback_sections(all, wanted, block.start, sections) == fallback_sections(
            all,
            wanted,
            block.close + 1,
            sections.insert(wanted[block.name], block_content(all, block)),
        ),
{
    lemma_fence_distance(all, block.start + 1, block.open);
    lemma_fence_distance(all, block.open + 1, block.close);
}

/// The second reading passes over lines that it does not take for headings.
proof fn lemma_lines_passed_over(
    all: Seq<Seq<char>>,
    wanted: Seq<Seq<char>>,
    from: int,
    to: int,
    sections: Sections,
)
    requires
        0 <= from <= to <= all.len(),
        no_heading_between(all, from, to),
    ensures
        fallback_sections(all, wanted, from, sections) == fallback_sections(
            all,
            wanted,
            to,
            sections,
        ),
    decreases to - from,
{
    if from < to {
        assert(!is_alt_heading(all[from]));
        lemma_lines_passed_over(all, wanted, from + 1, to, sections);
    }
}

/// The second reading of lines whose headings each start a section records
/// the content of each section, in their order.
pub proof fn lemma_tiled_reading(
    all: Seq<Seq<char>>,
    wanted: Seq<Seq<char>>,
    blocks: Seq<Block>,
    i: int,
    from: int,
    sections: Sections,
)
    requires
        0 <= i <= blocks.len(),
        is_tiled(all, wanted, blocks, i, from),
    ensures
        fallback_sections(all, wanted, from, sections) == with_blocks(
            all,
            wanted,
            blocks,
            i,
            sections,
        ),
    decreases blocks.len() - i,
{
    if i < blocks.len() {
        let block = blocks[i];
        lemma_lines_passed_over(all, wanted, from, block.start, sections);
        lemma_block_is_read(all, wanted, block, sections);
        lemma_tiled_reading(
            all,
            wanted,
            blocks,
            i + 1,
            block.close + 1,
            sections.insert(wanted[block.name], block_content(all, block)),
        );
    } else if from <= all.len() {
        lemma_lines_passed_over(all, wanted, from, all.len() as int, sections);
    }
}

/// What is recorded stays recorded while further sections are recorded, and
/// keeps its content unless a further section has the same name.
proof fn lemma_with_blocks_keeps(
    all: Seq<Seq<char>>,
    wanted: Seq<Seq<char>>,
    blocks: Seq<Block>,
    i: int,
    sections: Sections,
    name: Seq<char>,
)
    requires
        0 <= i <= blocks.len(),
        sections.contains_key(name),
    ensures
        with_blocks(all, wanted, blocks, i, sections).contains_key(name),
        (forall|j: int| i <= j < blocks.len() ==> wanted[(#[trigger] blocks[j]).name] != name)
            ==> with_blocks(all, wanted, blocks, i, sections)[name] == sections[name],
    decreases blocks.len() - i,
{
    if i < blocks.len() {
        let next = sections.insert(wanted[blocks[i].name], block_content(all, blocks[i]));
        lemma_with_blocks_keeps(all, wanted, blocks, i + 1, next, name);
    }
}

/// Every section that was recorded is there at the end, and has its content
/// unless a later section has the same name.
proof fn lemma_with_blocks_has(
    all: Seq<Seq<char>>,
    wanted: Seq<Seq<char>>,
    blocks: Seq<Block>,
    i: int,
    sections: Sections,
    b: int,
)
    requires
        0 <= i <= b < blocks.len(),
    ensures
        with_blocks(all, wanted, blocks, i, sections).contains_key(wanted[blocks[b].name]),
        (forall|j: int|
            b < j < blocks.len() ==> wanted[(#[trigger] blocks[j]).name]
                != wanted[blocks[b].name]) ==> with_blocks(
            all,
            wanted,
            blocks,
            i,
            sections,
        )[wanted[blocks[b].name]] == block_content(all, blocks[b]),
    decreases b - i,
{
    let next = sections.insert(wanted[blocks[i].name], block_content(all, blocks[i]));
    if i == b {
        lemma_with_blocks_keeps(all, wanted, blocks, i + 1, next, wanted[blocks[b].name]);
    } else {
        lemma_with_blocks_has(all, wanted, blocks, i + 1, next, b);
    }
}

/// Where the heading pattern finds no heading, the sections of a response
/// are what the second reading finds.
pub proof fn lemma_second_reading_takes_over(response: Seq<char>, names: Seq<Seq<char>>)
    requires
        heading_spans(response).len() == 0,
        names.len() > 0,
    ensures
        extracted_sections(response, names) == fallback_sections(
            lines(response),
            names,
            0,
            Map::empty(),
        ),
{
    let found = positions(response);
    assert(found.len() == 1);
    lemma_all_missing(names, names.len() as int);
    assert(names.take(names.len() as int) == names);
}

/// A response in which the heading pattern finds no heading, and whose
/// heading lines each start a section in the grammar of the second reading,
/// has each of those sections under its name, with the content between its
/// fences unless a later section has the same name.
pub proof fn lemma_fallback_complete(
    response: Seq<char>,
    names: Seq<Seq<char>>,
    blocks: Seq<Block>,
    b: int,
)
    requires
        heading_spans(response).len() == 0,
        is_tiled(lines(response), names, blocks, 0, 0),
        0 <= b < blocks.len(),
    ensures
        extracted_sections(response, names).contains_key(names[blocks[b].name]),
        (forall|j: int|
            b < j < blocks.len() ==> names[(#[trigger] blocks[j]).name] != names[blocks[b].name])
            ==> extracted_sections(response, names)[names[blocks[b].name]] == block_content(
            lines(response),
            blocks[b],
        ),
{
    let all = lines(response);
    assert(is_block(all, names, blocks[0]));
    lemma_second_reading_takes_over(response, names);
    lemma_tiled_reading(all, names, blocks, 0, 0, Map::empty());
    lemma_with_blocks_has(all, names, blocks, 0, Map::empty(), b);
}

} // verus!
