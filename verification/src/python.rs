//! Reading a response that describes a Python project.

use vstd::prelude::*;
use crate::java::project_of;
use crate::java::read_project;
use crate::java::Project;
use crate::java::ProjectView;
use crate::llm_response::names_of;
use crate::places::read_slots;

verus! {

/// The names that the headings of a response are searched for, in the order
/// in which they are tried.
pub open spec fn heading_names() -> Seq<Seq<char>> {
    seq!["requirements.txt"@, "solution.py"@, "test.py"@, "Dependencies"@, "Test"@]
}

/// The titles that the second reading knows the places by.
pub open spec fn heading_titles() -> Seq<Seq<char>> {
    seq!["requirements.txt"@, "solution.py"@, "test.py"@, "Compile"@, "Test"@]
}

/// The project that `response` describes.
pub open spec fn parsed(response: Seq<char>) -> ProjectView {
    project_of(read_slots(response, heading_names(), heading_titles()))
}

/// The project that `response` describes.
pub fn parse_llm_response(response: &str) -> (r: Project)
    ensures
        r@ == parsed(response@),
{
    let names = vec!["requirements.txt", "solution.py", "test.py", "Dependencies", "Test"];
    let titles = vec!["requirements.txt", "solution.py", "test.py", "Compile", "Test"];
    assert(names_of(names@) =~= heading_names());
    assert(names_of(titles@) =~= heading_titles());
    read_project(response, &names, &titles)
}

} // verus!
