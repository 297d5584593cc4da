//! The project of a language that is built with one build script.

use vstd::prelude::*;
use crate::llm_response::names_of;
use crate::places::read_places;
use crate::places::read_slots;
use crate::places::slot_views;
use crate::utils::comments_removed;
use crate::utils::remove_comments;

verus! {

/// The files of a project and the commands that build and test it.
#[derive(Debug)]
pub struct Project {
    pub project_build_script: String,
    pub solution_code: String,
    pub test_code: String,
    pub build: String,
    pub test: String,
}

/// A `Project` as plain texts.
pub ghost struct ProjectView {
    pub project_build_script: Seq<char>,
    pub solution_code: Seq<char>,
    pub test_code: Seq<char>,
    pub build: Seq<char>,
    pub test: Seq<char>,
}

impl View for Project {
    type V = ProjectView;

    open spec fn view(&self) -> ProjectView {
        ProjectView {
            project_build_script: self.project_build_script@,
            solution_code: self.solution_code@,
            test_code: self.test_code@,
            build: self.build@,
            test: self.test@,
        }
    }
}

/// The project that five places make up: the build script, the solution,
/// the tests, and the two commands, which lose their comment lines.
pub open spec fn project_of(slots: Seq<Seq<char>>) -> ProjectView {
    ProjectView {
        project_build_script: slots[0],
        solution_code: slots[1],
        test_code: slots[2],
        build: comments_removed(slots[3]),
        test: comments_removed(slots[4]),
    }
}

/// The project that `response` describes, with the names `names` of its five
/// places and the titles `titles` that the second reading knows them by.
pub fn read_project(response: &str, names: &Vec<&str>, titles: &Vec<&str>) -> (r: Project)
    requires
        names@.len() == 5,
    ensures
        r@ == project_of(read_slots(response@, names_of(names@), names_of(titles@))),
{
    let slots = read_places(response, names, titles);
    assert(forall|i: int| 0 <= i < 5 ==> slot_views(slots@)[i] == (#[trigger] slots@[i])@);
    Project {
        project_build_script: slots[0].clone(),
        solution_code: slots[1].clone(),
        test_code: slots[2].clone(),
        build: remove_comments(slots[3].as_str()),
        test: remove_comments(slots[4].as_str()),
    }
}

} // verus!
