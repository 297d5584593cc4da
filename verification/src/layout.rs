//! Where the files of a project stand in the sandbox, language by language.

use vstd::prelude::*;
use crate::lang::Lang;
use crate::llm_response::Project;
use crate::llm_response::ProjectView;

verus! {

/// The directory in which a project is built, made anew for every attempt.
pub const SANDBOX: &'static str = "sandbox";

/// The first of the further configuration files, or the empty text.
pub open spec fn first_config(project: ProjectView) -> Seq<char> {
    if project.additional_config.len() > 0 {
        project.additional_config[0]
    } else {
        Seq::empty()
    }
}

/// The directories, below the sandbox, that a project of `lang` needs.
pub open spec fn directories_of(lang: Lang) -> Seq<Seq<char>> {
    match lang {
        Lang::Rust => seq!["src"@],
        Lang::Java => seq![
            "src/main/java/com/example/solution"@,
            "src/test/java/com/example/solution"@,
        ],
        Lang::Scala => seq!["src/main/scala"@, "src/test/scala"@],
        Lang::Swift => seq!["Sources/Solution/"@, "Tests/SolutionTests"@],
        Lang::Kotlin => seq!["src/main/kotlin"@, "src/test/kotlin"@],
        Lang::JavaScript => seq!["src"@],
        Lang::TypeScript => seq!["src"@],
        Lang::Php => seq!["src"@, "tests"@],
        _ => Seq::empty(),
    }
}

/// The files of `project`: the path of each below the sandbox, and its
/// content, in the order in which they are written.
pub open spec fn files_of(project: ProjectView) -> Seq<(Seq<char>, Seq<char>)> {
    let code = project.solution_code;
    let test = project.test_code;
    let deps = project.dependencies;
    match project.lang {
        Lang::Rust => seq![("src/lib.rs"@, code), ("Cargo.toml"@, deps)],
        Lang::Java => seq![
            ("src/main/java/com/example/solution/Solution.java"@, code),
            ("src/test/java/com/example/solution/SolutionTest.java"@, test),
            ("pom.xml"@, deps),
        ],
        Lang::Scala => seq![
            ("src/main/scala/Solution.scala"@, code),
            ("src/test/scala/SolutionTest.scala"@, test),
            ("build.sbt"@, deps),
        ],
        Lang::Swift => seq![
            ("Sources/Solution/Solution.swift"@, code),
            ("Tests/SolutionTests/SolutionTests.swift"@, test),
            ("Package.swift"@, deps),
        ],
        Lang::Kotlin => seq![
            ("src/main/kotlin/Solution.kt"@, code),
            ("src/test/kotlin/SolutionTest.kt"@, test),
            ("build.gradle"@, deps),
        ],
        Lang::Python => seq![
            ("solution.py"@, code),
            ("test.py"@, test),
            ("requirements.txt"@, deps),
        ],
        Lang::JavaScript => seq![
            ("src/solution.js"@, code),
            ("src/solution.test.js"@, test),
            ("package.json"@, deps),
        ],
        Lang::TypeScript => seq![
            ("src/solution.ts"@, code),
            ("src/solution.test.ts"@, test),
            ("package.json"@, deps),
            ("tsconfig.json"@, first_config(project)),
        ],
        Lang::Php => seq![
            ("src/Solution.php"@, code),
            ("tests/SolutionTest.php"@, test),
            ("composer.json"@, deps),
        ],
        _ => Seq::empty(),
    }
}

/// The texts of `paths`.
pub open spec fn path_views(paths: Seq<&str>) -> Seq<Seq<char>> {
    Seq::new(paths.len(), |i: int| paths[i]@)
}

/// The paths and contents of `files`.
pub open spec fn file_views(files: Seq<(String, String)>) -> Seq<(Seq<char>, Seq<char>)> {
    Seq::new(files.len(), |i: int| (files[i].0@, files[i].1@))
}

/// The directories, below the sandbox, that a project of `lang` needs.
pub fn project_directories(lang: Lang) -> (r: Vec<&'static str>)
    ensures
        path_views(r@) == directories_of(lang),
{
    let r = match lang {
        Lang::Rust => vec!["src"],
        Lang::Java => vec![
            "src/main/java/com/example/solution",
            "src/test/java/com/example/solution",
        ],
        Lang::Scala => vec!["src/main/scala", "src/test/scala"],
        Lang::Swift => vec!["Sources/Solution/", "Tests/SolutionTests"],
        Lang::Kotlin => vec!["src/main/kotlin", "src/test/kotlin"],
        Lang::JavaScript => vec!["src"],
        Lang::TypeScript => vec!["src"],
        Lang::Php => vec!["src", "tests"],
        _ => Vec::new(),
    };
    assert(path_views(r@) =~= directories_of(lang));
    r
}

/// The three files that every project has.
fn three_files(project: &Project, code: &str, test: &str, deps: &str) -> (r: Vec<(String, String)>)
    ensures
        file_views(r@) == seq![
            (code@, project@.solution_code),
            (test@, project@.test_code),
            (deps@, project@.dependencies),
        ],
{
    let mut r: Vec<(String, String)> = Vec::new();
    r.push((code.to_owned(), project.solution_code.clone()));
    r.push((test.to_owned(), project.test_code.clone()));
    r.push((deps.to_owned(), project.dependencies.clone()));
    assert(file_views(r@) =~= seq![
        (code@, project@.solution_code),
        (test@, project@.test_code),
        (deps@, project@.dependencies),
    ]);
    r
}

/// The files of `project`: the path of each below the sandbox, and its
/// content.
pub fn project_files(project: &Project) -> (r: Vec<(String, String)>)
    ensures
        file_views(r@) == files_of(project@),
{
    match project.lang {
        Lang::Rust => {
            let mut r: Vec<(String, String)> = Vec::new();
            r.push(("src/lib.rs".to_owned(), project.solution_code.clone()));
            r.push(("Cargo.toml".to_owned(), project.dependencies.clone()));
            assert(file_views(r@) =~= files_of(project@));
            r
        },
        Lang::Java => three_files(
            project,
            "src/main/java/com/example/solution/Solution.java",
            "src/test/java/com/example/solution/SolutionTest.java",
            "pom.xml",
        ),
        Lang::Scala => three_files(
            project,
            "src/main/scala/Solution.scala",
            "src/test/scala/SolutionTest.scala",
            "build.sbt",
        ),
        Lang::Swift => three_files(
            project,
            "Sources/Solution/Solution.swift",
            "Tests/SolutionTests/SolutionTests.swift",
            "Package.swift",
        ),
        Lang::Kotlin => three_files(
            project,
            "src/main/kotlin/Solution.kt",
            "src/test/kotlin/SolutionTest.kt",
            "build.gradle",
        ),
        Lang::Python => three_files(project, "solution.py", "test.py", "requirements.txt"),
        Lang::JavaScript => three_files(
            project,
            "src/solution.js",
            "src/solution.test.js",
            "package.json",
        ),
        Lang::TypeScript => {
            let mut r = three_files(
                project,
                "src/solution.ts",
                "src/solution.test.ts",
                "package.json",
            );
            let config = if project.additional_config.len() > 0 {
                assert(project@.additional_config[0] == project.additional_config@[0]@);
                project.additional_config[0].clone()
            } else {
                String::new()
            };
            assert(config@ == first_config(project@));
            let ghost before = r@;
            r.push(("tsconfig.json".to_owned(), config));
            assert(file_views(r@) =~= file_views(before).push(
                ("tsconfig.json"@, first_config(project@)),
            ));
            assert(file_views(r@) =~= files_of(project@));
            r
        },
        Lang::Php => three_files(
            project,
            "src/Solution.php",
            "tests/SolutionTest.php",
            "composer.json",
        ),
        _ => {
            let r: Vec<(String, String)> = Vec::new();
            assert(file_views(r@) =~= files_of(project@));
            r
        },
    }
}

} // verus!
