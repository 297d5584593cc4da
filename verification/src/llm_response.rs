//! Reading a response: its sections, and the project they describe.

use vstd::prelude::*;
use crate::lang::Lang;
use crate::lines::lines;
use crate::lines::split_lines;
use crate::lines::views;
use crate::offsets::char_index;
use crate::pattern::captures;
use crate::pattern::captures_iter;
use crate::pattern::is_match;
use crate::sections::byte_range;
use crate::sections::captured_block;
use crate::sections::code_block;
use crate::sections::extracted_sections;
use crate::sections::fallback_sections;
use crate::sections::fence_distance;
use crate::sections::first_contained;
use crate::sections::heading_given;
use crate::sections::heading_spans;
use crate::sections::is_alt_heading;
use crate::sections::is_fence;
use crate::sections::joined;
use crate::sections::missing_names;
use crate::sections::positions;
use crate::sections::positions_of;
use crate::sections::primary_sections;
use crate::sections::recorded;
use crate::sections::section_text;
use crate::sections::title_of;
use crate::sections::BULLET_HEADING_PATTERN;
use crate::sections::CODE_BLOCK_PATTERN;
use crate::sections::HEADING_PATTERN;
use crate::sections::Position;
use crate::sections::Sections;
use crate::text::append;
use crate::text::from_chars;
use crate::text::has_substring;
use crate::text::matches_at;
use crate::text::replaced;
use crate::text::slice;
use crate::text::to_chars;
use crate::text::trim_end;
use crate::text::trim_start;
use crate::text::trimmed;
use crate::text::CharClass;
use crate::text_map::lemma_texts_empty;
use crate::text_map::lemma_texts_insert;
use crate::text_map::texts;
use crate::text_map::TextMap;
use crate::utils::comments_removed;
use crate::utils::remove_comments;

verus! {

/// The texts of `names`.
pub open spec fn names_of(names: Seq<&str>) -> Seq<Seq<char>> {
    Seq::new(names.len(), |i: int| names[i]@)
}

/// The headings that `found` holds.
pub open spec fn position_views(found: Seq<(String, usize)>) -> Seq<Position> {
    Seq::new(found.len(), |i: int| (found[i].0@, found[i].1 as int))
}

/// The part of `chars` between two byte offsets.
fn byte_slice(chars: &Vec<char>, from: usize, to: usize) -> (r: Option<Vec<char>>)
    ensures
        match r {
            Some(part) => byte_range(chars@, from, to) == Some(part@),
            None => byte_range(chars@, from, to) is None,
        },
{
    match char_index(chars, from) {
        Some(a) => match char_index(chars, to) {
            Some(b) => if a <= b {
                Some(slice(chars, a, b))
            } else {
                None
            },
            None => None,
        },
        None => None,
    }
}

/// The content of the code block that `capture` stands for in `section`.
pub fn block_from_capture(
    section: &str,
    capture: Option<(usize, usize, Option<(usize, usize)>)>,
) -> (r: Option<String>)
    ensures
        match r {
            Some(content) => captured_block(section@, capture) == Some(content@),
            None => captured_block(section@, capture) is None,
        },
{
    match capture {
        Some(span) => match span.2 {
            Some(group) => {
                let chars = to_chars(section);
                match byte_slice(&chars, group.0, group.1) {
                    Some(content) => Some(from_chars(&content)),
                    None => None,
                }
            },
            None => None,
        },
        None => None,
    }
}

/// The content of the first code block of `section`.
pub(crate) fn first_code_block(section: &Vec<char>) -> (r: Option<Vec<char>>)
    ensures
        match r {
            Some(content) => code_block(section@) == Some(content@),
            None => code_block(section@) is None,
        },
{
    let text = from_chars(section);
    match captures(CODE_BLOCK_PATTERN, text.as_str()) {
        Ok(capture) => match block_from_capture(text.as_str(), capture) {
            Some(content) => Some(to_chars(content.as_str())),
            None => None,
        },
        Err(_) => None,
    }
}

/// Whether `line` is taken for a heading, where `bullet` says whether it
/// holds a list item set in bold.
pub fn heading_line(line: &str, bullet: bool) -> (r: bool)
    ensures
        r == heading_given(line@, bullet),
{
    let chars = to_chars(line);
    matches_at(&chars, &to_chars("## "), 0) || matches_at(&chars, &to_chars("### "), 0) || bullet
}

/// Whether the second reading takes `line` for a heading.
fn alt_heading(line: &Vec<char>) -> (r: bool)
    ensures
        r == is_alt_heading(line@),
{
    let text = from_chars(line);
    if heading_line(text.as_str(), false) {
        return true;
    }
    match is_match(BULLET_HEADING_PATTERN, text.as_str()) {
        Ok(found) => heading_line(text.as_str(), found),
        Err(_) => false,
    }
}

/// The title of the heading line `line`.
fn heading_title(line: &Vec<char>) -> (r: Vec<char>)
    ensures
        r@ == title_of(line@),
{
    let unmarked = trim_start(line, CharClass::HeadingMarker);
    let bare = trimmed(&unmarked);
    let none = to_chars("");
    let step1 = replaced(&bare, &to_chars("`"), &none);
    let step2 = replaced(&step1, &to_chars("- **"), &none);
    let step3 = replaced(&step2, &to_chars("*"), &none);
    replaced(&step3, &to_chars(":"), &none)
}

/// Whether `line` opens or closes a code block.
fn fence(line: &Vec<char>) -> (r: bool)
    ensures
        r == is_fence(line@),
{
    let bare = trimmed(line);
    let marker = to_chars("```");
    matches_at(&bare, &marker, 0)
}

/// The index of the first fence at or after line `from`, or the number of
/// lines where there is none.
fn next_fence(all: &Vec<Vec<char>>, from: usize) -> (r: usize)
    requires
        from <= all.len(),
    ensures
        r == from + fence_distance(views(all@), from as int),
        from <= r <= all.len(),
        r < all.len() ==> is_fence(all@[r as int]@),
{
    let mut j: usize = from;
    while j < all.len()
        invariant
            from <= j <= all.len(),
            from + fence_distance(views(all@), from as int) == j + fence_distance(
                views(all@),
                j as int,
            ),
        decreases all.len() - j,
    {
        assert(views(all@)[j as int] == all@[j as int]@);
        if fence(&all[j]) {
            return j;
        }
        j += 1;
    }
    j
}

/// The lines `from..to` of `all`, each followed by a line feed.
pub(crate) fn join_lines(all: &Vec<Vec<char>>, from: usize, to: usize) -> (r: Vec<char>)
    requires
        from <= to <= all.len(),
    ensures
        r@ == joined(views(all@), from as int, to as int),
{
    let mut out: Vec<char> = Vec::new();
    let mut j: usize = from;
    while j < to
        invariant
            from <= j <= to <= all.len(),
            out@ == joined(views(all@), from as int, j as int),
        decreases to - j,
    {
        assert(views(all@)[j as int] == all@[j as int]@);
        append(&mut out, &all[j]);
        out.push('\n');
        j += 1;
    }
    out
}

/// The index of the first of `names` that `title` contains.
fn find_contained(title: &Vec<char>, names: &Vec<Vec<char>>) -> (r: Option<usize>)
    ensures
        match r {
            Some(k) => k < names.len() && first_contained(
                title@,
                views(names@),
                names.len() as int,
            ) == Some(k as int),
            None => first_contained(title@, views(names@), names.len() as int) is None,
        },
{
    let mut k: usize = 0;
    while k < names.len()
        invariant
            k <= names.len(),
            first_contained(title@, views(names@), k as int) is None,
        decreases names.len() - k,
    {
        assert(views(names@)[k as int] == names@[k as int]@);
        if has_substring(title, &names[k]) {
            proof {
                lemma_first_contained_stays(title@, views(names@), k as int, names.len() as int);
            }
            return Some(k);
        }
        k += 1;
    }
    None
}

/// Once a name is found, looking at more names changes nothing.
pub(crate) proof fn lemma_first_contained_stays(title: Seq<char>, names: Seq<Seq<char>>, k: int, n: int)
    requires
        0 <= k < n,
        first_contained(title, names, k + 1) == Some(k),
    ensures
        first_contained(title, names, n) == Some(k),
    decreases n,
{
    if n > k + 1 {
        lemma_first_contained_stays(title, names, k, n - 1);
    }
}

/// Adds to `sections` what the second reading finds for `wanted`.
fn read_by_lines(all: &Vec<Vec<char>>, wanted: &Vec<Vec<char>>, sections: &mut TextMap<String>)
    ensures
        texts(final(sections)@) == fallback_sections(
            views(all@),
            views(wanted@),
            0,
            texts(old(sections)@),
        ),
{
    let ghost rows = views(all@);
    let ghost names = views(wanted@);
    let ghost goal = fallback_sections(rows, names, 0, texts(sections@));
    let mut i: usize = 0;
    while i < all.len()
        invariant
            i <= all.len(),
            rows == views(all@),
            names == views(wanted@),
            goal == fallback_sections(rows, names, 0, texts(old(sections)@)),
            goal == fallback_sections(rows, names, i as int, texts(sections@)),
        decreases all.len() - i,
    {
        assert(rows[i as int] == all@[i as int]@);
        if !alt_heading(&all[i]) {
            i += 1;
            continue ;
        }
        let title = heading_title(&all[i]);
        match find_contained(&title, wanted) {
            None => {
                i += 1;
            },
            Some(k) => {
                assert(names[k as int] == wanted@[k as int]@);
                let open = next_fence(all, i + 1);
                if open >= all.len() {
                    return ;
                }
                let close = next_fence(all, open + 1);
                let body = join_lines(all, open + 1, close);
                let content = trim_end(&body, CharClass::Whitespace);
                let ghost before = sections@;
                let value = from_chars(&content);
                sections.insert(from_chars(&wanted[k]), value);
                proof {
                    lemma_texts_insert(before, names[k as int], value);
                }
                if close >= all.len() {
                    return ;
                }
                i = close + 1;
            },
        }
    }
}

/// A response of a language model.
pub struct LLMResponse;

impl LLMResponse {
    /// The headings that the matches `spans` of the heading pattern stand for
    /// in `response`, then a last one without a name at the end of the text.
    pub fn positions_from(response: &str, spans: &Vec<(usize, usize, Option<(usize, usize)>)>)
        -> (r: Vec<(String, usize)>)
        ensures
            position_views(r@) == positions_of(response@, spans@).push(
                (Seq::<char>::empty(), response@.len() as int),
            ),
    {
        let chars = to_chars(response);
        let mut out: Vec<(String, usize)> = Vec::new();
        let mut i: usize = 0;
        assert(spans@.take(0) == Seq::<(usize, usize, Option<(usize, usize)>)>::empty());
        assert(position_views(out@) == Seq::<Position>::empty());
        while i < spans.len()
            invariant
                i <= spans.len(),
                chars@ == response@,
                position_views(out@) == positions_of(response@, spans@.take(i as int)),
            decreases spans.len() - i,
        {
            assert(spans@.take(i + 1).drop_last() == spans@.take(i as int));
            assert(spans@.take(i + 1).last() == spans@[i as int]);
            let span = spans[i];
            let ghost before = out@;
            match span.2 {
                Some(group) => match char_index(&chars, span.1) {
                    Some(end) => match byte_slice(&chars, group.0, group.1) {
                        Some(name) => {
                            let text = from_chars(&name);
                            out.push((text, end));
                            assert(position_views(out@) == position_views(before).push(
                                (name@, end as int),
                            ));
                        },
                        None => {},
                    },
                    None => {},
                },
                None => {},
            }
            i += 1;
        }
        assert(spans@.take(spans.len() as int) == spans@);
        let ghost before = out@;
        let n = chars.len();
        out.push((String::new(), n));
        assert(position_views(out@) == position_views(before).push(
            (Seq::<char>::empty(), n as int),
        ));
        out
    }

    /// The headings of `response`: the name of each and the index of the
    /// character after its line, then a last one without a name at the end of
    /// the text.
    pub fn parse_positions(response: &str) -> (r: Vec<(String, usize)>)
        ensures
            position_views(r@) == positions(response@),
    {
        let spans = match captures_iter(HEADING_PATTERN, response) {
            Ok(found) => found,
            Err(_) => Vec::new(),
        };
        assert(spans@ == heading_spans(response@));
        LLMResponse::positions_from(response, &spans)
    }

    /// The sections of `response` for the names `section_names`: the content
    /// of the first code block under each heading that contains the name.
    pub fn extract_sections(response: &str, section_names: &[&str]) -> (r: TextMap<String>)
        ensures
            texts(r@) == extracted_sections(response@, names_of(section_names@)),
    {
        let chars = to_chars(response);
        let found = LLMResponse::parse_positions(response);
        let ghost names = names_of(section_names@);
        let ghost heads = positions(response@);
        let mut sections: TextMap<String> = TextMap::new();
        proof {
            lemma_texts_empty();
        }
        let last = found.len() - 1;
        let mut i: usize = 0;
        while i < last
            invariant
                i <= last,
                last + 1 == found.len(),
                chars@ == response@,
                names == names_of(section_names@),
                heads == positions(response@),
                position_views(found@) == heads,
                texts(sections@) == primary_sections(response@, heads, names, i as int),
            decreases last - i,
        {
            assert(heads[i as int] == (found@[i as int].0@, found@[i as int].1 as int));
            assert(heads[i + 1] == (found@[i + 1].0@, found@[i + 1].1 as int));
            let start = found[i].1;
            let end = found[i + 1].1;
            if start <= end && end <= chars.len() {
                let part = slice(&chars, start, end);
                assert(section_text(response@, heads, i as int) == Some(part@));
                match first_code_block(&part) {
                    Some(content) => {
                        let heading = to_chars(found[i].0.as_str());
                        let ghost base = texts(sections@);
                        let mut k: usize = 0;
                        while k < section_names.len()
                            invariant
                                k <= section_names.len(),
                                names == names_of(section_names@),
                                texts(sections@) == recorded(
                                    base,
                                    heading@,
                                    names,
                                    k as int,
                                    content@,
                                ),
                            decreases section_names.len() - k,
                        {
                            assert(names[k as int] == section_names@[k as int]@);
                            let name = to_chars(section_names[k]);
                            if has_substring(&heading, &name) {
                                let ghost before = sections@;
                                let value = from_chars(&content);
                                sections.insert(from_chars(&name), value);
                                proof {
                                    lemma_texts_insert(before, name@, value);
                                }
                            }
                            k += 1;
                        }
                    },
                    None => {},
                }
            } else {
                assert(section_text(response@, heads, i as int) is None);
            }
            i += 1;
        }
        let mut wanted: Vec<Vec<char>> = Vec::new();
        let mut k: usize = 0;
        assert(views(wanted@) == Seq::<Seq<char>>::empty());
        while k < section_names.len()
            invariant
                k <= section_names.len(),
                names == names_of(section_names@),
                views(wanted@) == missing_names(texts(sections@), names, k as int),
            decreases section_names.len() - k,
        {
            assert(names[k as int] == section_names@[k as int]@);
            if !sections.contains_key(section_names[k]) {
                let ghost before = wanted@;
                let name = to_chars(section_names[k]);
                wanted.push(name);
                assert(views(wanted@) == views(before).push(names[k as int]));
            }
            k += 1;
        }
        if wanted.len() > 0 {
            let all = split_lines(&chars);
            read_by_lines(&all, &wanted, &mut sections);
        }
        sections
    }
}

/// What one response describes: the files of a project and the commands that
/// build and test it.
#[derive(Debug)]
pub struct Project {
    /// The manifest.
    pub dependencies: String,
    /// Further configuration files, each at the place its language gives it.
    pub additional_config: Vec<String>,
    pub solution_code: String,
    pub test_code: String,
    /// The command that installs the dependencies, for the languages that
    /// have such a step.
    pub install_dependency_command: Option<String>,
    pub build_command: String,
    pub test_command: String,
    pub lang: Lang,
}

/// A project as plain texts.
pub ghost struct ProjectView {
    pub dependencies: Seq<char>,
    pub additional_config: Seq<Seq<char>>,
    pub solution_code: Seq<char>,
    pub test_code: Seq<char>,
    pub install_dependency_command: Option<Seq<char>>,
    pub build_command: Seq<char>,
    pub test_command: Seq<char>,
    pub lang: Lang,
}

impl View for Project {
    type V = ProjectView;

    open spec fn view(&self) -> ProjectView {
        ProjectView {
            dependencies: self.dependencies@,
            additional_config: Seq::new(
                self.additional_config@.len(),
                |i: int| self.additional_config@[i]@,
            ),
            solution_code: self.solution_code@,
            test_code: self.test_code@,
            install_dependency_command: match self.install_dependency_command {
                Some(command) => Some(command@),
                None => None,
            },
            build_command: self.build_command@,
            test_command: self.test_command@,
            lang: self.lang,
        }
    }
}

/// The project of language `lang` in which every text is empty.
pub open spec fn empty_project(lang: Lang) -> ProjectView {
    ProjectView {
        dependencies: Seq::empty(),
        additional_config: Seq::empty(),
        solution_code: Seq::empty(),
        test_code: Seq::empty(),
        install_dependency_command: None,
        build_command: Seq::empty(),
        test_command: Seq::empty(),
        lang,
    }
}

impl Default for Project {
    fn default() -> (r: Self)
        ensures
            r@ == empty_project(Lang::Unknown),
    {
        let r = Project {
            dependencies: String::new(),
            additional_config: Vec::new(),
            solution_code: String::new(),
            test_code: String::new(),
            install_dependency_command: None,
            build_command: String::new(),
            test_command: String::new(),
            lang: Lang::Unknown,
        };
        assert(r@.additional_config =~= Seq::<Seq<char>>::empty());
        r
    }
}

/// The languages that a response can be read for.
pub open spec fn is_supported(lang: Lang) -> bool {
    lang == Lang::Rust || lang == Lang::JavaScript || lang == Lang::Java || lang == Lang::Kotlin
        || lang == Lang::Php || lang == Lang::Python || lang == Lang::Scala || lang == Lang::Swift
        || lang == Lang::TypeScript
}

/// Whether a response can be read for `lang`.
pub fn supports(lang: Lang) -> (r: bool)
    ensures
        r == is_supported(lang),
{
    match lang {
        Lang::Rust | Lang::JavaScript | Lang::Java | Lang::Kotlin | Lang::Php | Lang::Python
        | Lang::Scala | Lang::Swift | Lang::TypeScript => true,
        _ => false,
    }
}

/// The names of the sections that a response for `lang` is searched for.
pub open spec fn section_names(lang: Lang) -> Seq<Seq<char>> {
    match lang {
        Lang::Rust => seq!["Cargo.toml"@, "src/lib.rs"@, "Build"@, "Test"@],
        Lang::JavaScript => seq![
            "package.json"@,
            "src/solution.js"@,
            "Install"@,
            "Test"@,
            "src/solution.test.js"@,
        ],
        Lang::Java => seq![
            "pom.xml"@,
            "src/main/java/com/example/solution/Solution.java"@,
            "src/test/java/com/example/solution/SolutionTest.java"@,
            "Compile"@,
            "Test"@,
        ],
        Lang::Kotlin => seq![
            "build.gradle"@,
            "src/main/kotlin/Solution.kt"@,
            "src/test/kotlin/SolutionTest.kt"@,
            "Compile"@,
            "Test"@,
        ],
        Lang::Php => seq![
            "composer.json"@,
            "src/Solution.php"@,
            "tests/SolutionTest.php"@,
            "Install"@,
            "Test"@,
        ],
        Lang::Python => seq![
            "requirements.txt"@,
            "solution.py"@,
            "test.py"@,
            "Dependencies"@,
            "Test"@,
        ],
        Lang::Scala => seq![
            "build.sbt"@,
            "src/main/scala/Solution.scala"@,
            "src/test/scala/SolutionTest.scala"@,
            "Compile"@,
            "Test"@,
        ],
        Lang::Swift => seq![
            "Package.swift"@,
            "Sources/Solution/main.swift"@,
            "Tests/SolutionTests/SolutionTests.swift"@,
            "Compile"@,
            "Test"@,
        ],
        Lang::TypeScript => seq![
            "package.json"@,
            "tsconfig.json"@,
            "src/solution.ts"@,
            "src/solution.test.ts"@,
            "Install"@,
            "Test"@,
        ],
        _ => Seq::empty(),
    }
}

/// The content of section `name`, or the empty text where there is none.
pub open spec fn text_of(sections: Sections, name: Seq<char>) -> Seq<char> {
    if sections.contains_key(name) {
        sections[name]
    } else {
        Seq::empty()
    }
}

/// The project of language `lang` that `sections` describe.
pub open spec fn project_from(lang: Lang, sections: Sections) -> ProjectView {
    let names = section_names(lang);
    let blank = empty_project(lang);
    match lang {
        Lang::Rust => ProjectView {
            dependencies: text_of(sections, names[0]),
            solution_code: text_of(sections, names[1]),
            build_command: comments_removed(text_of(sections, names[2])),
            test_command: comments_removed(text_of(sections, names[3])),
            ..blank
        },
        Lang::JavaScript => ProjectView {
            dependencies: text_of(sections, names[0]),
            solution_code: text_of(sections, names[1]),
            install_dependency_command: Some(text_of(sections, names[2])),
            test_command: text_of(sections, names[3]),
            test_code: text_of(sections, names[4]),
            ..blank
        },
        Lang::Java | Lang::Kotlin | Lang::Scala | Lang::Swift => ProjectView {
            dependencies: text_of(sections, names[0]),
            solution_code: text_of(sections, names[1]),
            test_code: text_of(sections, names[2]),
            build_command: text_of(sections, names[3]),
            test_command: text_of(sections, names[4]),
            ..blank
        },
        Lang::Php | Lang::Python => ProjectView {
            dependencies: text_of(sections, names[0]),
            solution_code: text_of(sections, names[1]),
            test_code: text_of(sections, names[2]),
            install_dependency_command: Some(text_of(sections, names[3])),
            test_command: text_of(sections, names[4]),
            ..blank
        },
        Lang::TypeScript => ProjectView {
            dependencies: text_of(sections, names[0]),
            additional_config: seq![text_of(sections, names[1])],
            solution_code: text_of(sections, names[2]),
            test_code: text_of(sections, names[3]),
            build_command: text_of(sections, names[4]),
            test_command: text_of(sections, names[5]),
            ..blank
        },
        _ => blank,
    }
}

/// The project of language `lang` that `response` describes.
pub open spec fn parsed_project(response: Seq<char>, lang: Lang) -> ProjectView {
    project_from(lang, extracted_sections(response, section_names(lang)))
}

/// The names of the sections that a response for `language` is searched for.
pub fn desired_sections(language: Lang) -> (r: Vec<&'static str>)
    ensures
        names_of(r@) == section_names(language),
{
    let r = match language {
        Lang::Rust => vec!["Cargo.toml", "src/lib.rs", "Build", "Test"],
        Lang::JavaScript => vec![
            "package.json",
            "src/solution.js",
            "Install",
            "Test",
            "src/solution.test.js",
        ],
        Lang::Java => vec![
            "pom.xml",
            "src/main/java/com/example/solution/Solution.java",
            "src/test/java/com/example/solution/SolutionTest.java",
            "Compile",
            "Test",
        ],
        Lang::Kotlin => vec![
            "build.gradle",
            "src/main/kotlin/Solution.kt",
            "src/test/kotlin/SolutionTest.kt",
            "Compile",
            "Test",
        ],
        Lang::Php => vec![
            "composer.json",
            "src/Solution.php",
            "tests/SolutionTest.php",
            "Install",
            "Test",
        ],
        Lang::Python => vec!["requirements.txt", "solution.py", "test.py", "Dependencies", "Test"],
        Lang::Scala => vec![
            "build.sbt",
            "src/main/scala/Solution.scala",
            "src/test/scala/SolutionTest.scala",
            "Compile",
            "Test",
        ],
        Lang::Swift => vec![
            "Package.swift",
            "Sources/Solution/main.swift",
            "Tests/SolutionTests/SolutionTests.swift",
            "Compile",
            "Test",
        ],
        Lang::TypeScript => vec![
            "package.json",
            "tsconfig.json",
            "src/solution.ts",
            "src/solution.test.ts",
            "Install",
            "Test",
        ],
        _ => Vec::new(),
    };
    assert(names_of(r@) =~= section_names(language));
    r
}

/// The content of section `name`, or the empty text where there is none.
pub fn section_or_empty(sections: &TextMap<String>, name: &str) -> (r: String)
    ensures
        r@ == text_of(texts(sections@), name@),
{
    match sections.get(name) {
        Some(content) => content.clone(),
        None => String::new(),
    }
}

impl LLMResponse {
    /// The project of language `language` that `response` describes. A
    /// section that the response does not hold leaves its text empty.
    pub fn parse_llm_response(response: &str, language: Lang) -> (r: Project)
        requires
            is_supported(language),
        ensures
            r@ == parsed_project(response@, language),
    {
        let names = desired_sections(language);
        let sections = LLMResponse::extract_sections(response, names.as_slice());
        let ghost wanted = section_names(language);
        assert(forall|i: int| 0 <= i < names.len() ==> wanted[i] == (#[trigger] names@[i])@);
        let mut project = Project::default();
        project.lang = language;
        match language {
            Lang::Rust => {
                project.dependencies = section_or_empty(&sections, names[0]);
                project.solution_code = section_or_empty(&sections, names[1]);
                let build = section_or_empty(&sections, names[2]);
                let test = section_or_empty(&sections, names[3]);
                project.build_command = remove_comments(build.as_str());
                project.test_command = remove_comments(test.as_str());
            },
            Lang::JavaScript => {
                project.dependencies = section_or_empty(&sections, names[0]);
                project.solution_code = section_or_empty(&sections, names[1]);
                project.install_dependency_command = Some(section_or_empty(&sections, names[2]));
                project.test_command = section_or_empty(&sections, names[3]);
                project.test_code = section_or_empty(&sections, names[4]);
            },
            Lang::Java | Lang::Kotlin | Lang::Scala | Lang::Swift => {
                project.dependencies = section_or_empty(&sections, names[0]);
                project.solution_code = section_or_empty(&sections, names[1]);
                project.test_code = section_or_empty(&sections, names[2]);
                project.build_command = section_or_empty(&sections, names[3]);
                project.test_command = section_or_empty(&sections, names[4]);
            },
            Lang::Php | Lang::Python => {
                project.dependencies = section_or_empty(&sections, names[0]);
                project.solution_code = section_or_empty(&sections, names[1]);
                project.test_code = section_or_empty(&sections, names[2]);
                project.install_dependency_command = Some(section_or_empty(&sections, names[3]));
                project.test_command = section_or_empty(&sections, names[4]);
            },
            Lang::TypeScript => {
                project.dependencies = section_or_empty(&sections, names[0]);
                let config = section_or_empty(&sections, names[1]);
                project.additional_config.push(config);
                project.solution_code = section_or_empty(&sections, names[2]);
                project.test_code = section_or_empty(&sections, names[3]);
                project.build_command = section_or_empty(&sections, names[4]);
                project.test_command = section_or_empty(&sections, names[5]);
            },
            _ => {},
        }
        assert(project@.additional_config =~= parsed_project(
            response@,
            language,
        ).additional_config);
        project
    }
}

} // verus!
