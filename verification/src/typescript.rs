//! Reading a response that describes a TypeScript project.

use vstd::prelude::*;
use crate::llm_response::names_of;
use crate::places::read_places;
use crate::places::read_slots;
use crate::places::slot_views;
use crate::utils::comments_removed;
use crate::utils::remove_comments;

verus! {

/// The files of a TypeScript project and the commands that build and test it.
#[derive(Debug)]
pub struct Project {
    pub project_build_script: String,
    pub typescript_config: String,
    pub solution_code: String,
    pub test_code: String,
    pub build: String,
    pub test: String,
}

/// A `Project` as plain texts.
pub ghost struct ProjectView {
    pub project_build_script: Seq<char>,
    pub typescript_config: Seq<char>,
    pub solution_code: Seq<char>,
    pub test_code: Seq<char>,
    pub build: Seq<char>,
    pub test: Seq<char>,
}

impl View for Project {
    type V = ProjectView;

    open spec fn view(&self) -> ProjectView {
        ProjectView {
            project_build_script: self.project_build_script@,
            typescript_config: self.typescript_config@,
            solution_code: self.solution_code@,
            test_code: self.test_code@,
            build: self.build@,
            test: self.test@,
        }
    }
}

/// The names that the headings of a response are searched for, in the order
/// in which they are tried; the second reading knows the places by the same.
pub open spec fn heading_names() -> Seq<Seq<char>> {
    seq![
        "package.json"@,
        "src/solution.ts"@,
        "tsconfig.json"@,
        "src/solution.test.ts"@,
        "Install"@,
        "Test"@,
    ]
}

/// The project that `response` describes; the two commands lose their
/// comment lines.
pub open spec fn parsed(response: Seq<char>) -> ProjectView {
    let slots = read_slots(response, heading_names(), heading_names());
    ProjectView {
        project_build_script: slots[0],
        solution_code: slots[1],
        typescript_config: slots[2],
        test_code: slots[3],
        build: comments_removed(slots[4]),
        test: comments_removed(slots[5]),
    }
}

/// The project that `response` describes.
pub fn parse_llm_response(response: &str) -> (r: Project)
    ensures
        r@ == parsed(response@),
{
    let names = vec![
        "package.json",
        "src/solution.ts",
        "tsconfig.json",
        "src/solution.test.ts",
        "Install",
        "Test",
    ];
    assert(names_of(names@) =~= heading_names());
    let slots = read_places(response, &names, &names);
    assert(forall|i: int| 0 <= i < 6 ==> slot_views(slots@)[i] == (#[trigger] slots@[i])@);
    Project {
        project_build_script: slots[0].clone(),
        typescript_config: slots[2].clone(),
        solution_code: slots[1].clone(),
        test_code: slots[3].clone(),
        build: remove_comments(slots[4].as_str()),
        test: remove_comments(slots[5].as_str()),
    }
}

} // verus!
