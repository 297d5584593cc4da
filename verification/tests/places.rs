use rustsn::places::read_places;

#[test]
fn the_first_name_that_a_heading_contains_takes_the_block() {
    let text = "**Test src/solution.ts**\n```\nboth\n```\n";
    let names = vec!["package.json", "src/solution.ts", "Test"];
    let slots = read_places(text, &names, &names);
    assert_eq!(slots, vec!["".to_string(), "both\n".to_string(), "".to_string()]);
}

#[test]
fn the_second_reading_is_made_where_the_first_place_is_empty() {
    let text = "## package.json\n```json\n{}\n```\n## Test \nprose\n```bash\nnpm test\n\n```\n## other\n```\nx\n```\n";
    let names = vec!["package.json", "Test"];
    let slots = read_places(text, &names, &names);
    assert_eq!(slots, vec!["{}".to_string(), "npm test".to_string()]);
    let filled = format!("**package.json**\n```\nfirst\n```\n{}", text);
    let slots = read_places(&filled, &names, &names);
    assert_eq!(slots, vec!["first\n".to_string(), "".to_string()]);
}

#[test]
fn a_title_must_be_the_whole_name() {
    let text = "## the package.json\n```\n{}\n```\n## Test\n  ```\nnot a fence: indented\n```\nfenced\n```\n";
    let names = vec!["package.json", "Test"];
    let slots = read_places(text, &names, &names);
    assert_eq!(slots, vec!["".to_string(), "fenced".to_string()]);
}

#[test]
fn no_names_give_no_places() {
    assert!(read_places("## a\n```\nb\n```\n", &Vec::new(), &Vec::new()).is_empty());
}

#[test]
fn typescript_takes_six_places() {
    let text = "**package.json**\n```json\n{}\n```\n**tsconfig.json**\n```json\n{\"c\":1}\n```\n**src/solution.ts**\n```ts\ncode\n```\n**src/solution.test.ts**\n```ts\ntests\n```\n**Install**\n```bash\n# install\nnpm i\n```\n**Test**\n```bash\nnpm test\n```\n";
    let project = rustsn::typescript::parse_llm_response(text);
    assert_eq!(project.project_build_script, "{}\n");
    assert_eq!(project.typescript_config, "{\"c\":1}\n");
    assert_eq!(project.solution_code, "code\n");
    assert_eq!(project.test_code, "tests\n");
    assert_eq!(project.build, "npm i");
    assert_eq!(project.test, "npm test");
}

#[test]
fn python_knows_its_command_by_another_title() {
    let text = "## requirements.txt\n```\npytest\n```\n## solution.py\n```python\ndef f(): pass\n```\n## test.py\n```python\ndef test(): pass\n```\n## Compile\n```\npip install pytest\n```\n## Dependencies\n```\nignored\n```\n## Test\n```\n# run\npytest\n```\n";
    let project = rustsn::python::parse_llm_response(text);
    assert_eq!(project.project_build_script, "pytest");
    assert_eq!(project.solution_code, "def f(): pass");
    assert_eq!(project.test_code, "def test(): pass");
    assert_eq!(project.build, "pip install pytest");
    assert_eq!(project.test, "pytest");
}

#[test]
fn php_and_kotlin_read_bold_headings() {
    let text = "**composer.json**\n```json\n{}\n```\n**src/Solution.php**\n```php\n<?php\n```\n**tests/SolutionTest.php**\n```php\n<?php //t\n```\n**Install**\n```\ncomposer install\n```\n**Test**\n```\nphpunit\n```\n";
    let project = rustsn::php::parse_llm_response(text);
    assert_eq!(project.project_build_script, "{}\n");
    assert_eq!(project.solution_code, "<?php\n");
    assert_eq!(project.test_code, "<?php //t\n");
    assert_eq!(project.build, "composer install");
    assert_eq!(project.test, "phpunit");
    let text = "**build.gradle**\n```\nplugins {}\n```\n**src/main/kotlin/Solution.kt**\n```kotlin\nfun f() {}\n```\n**src/test/kotlin/SolutionTest.kt**\n```kotlin\nfun t() {}\n```\n**Compile**\n```\ngradle build\n```\n**Test**\n```\ngradle test\n```\n";
    let project = rustsn::kotlin::parse_llm_response(text);
    assert_eq!(project.project_build_script, "plugins {}\n");
    assert_eq!(project.solution_code, "fun f() {}\n");
    assert_eq!(project.test_code, "fun t() {}\n");
    assert_eq!(project.build, "gradle build");
    assert_eq!(project.test, "gradle test");
    let text = "## build.gradle\n```\nplugins {}\n```\n## src/main/kotlin/Solution.kt\n```\nfun f() {}\n```\n## src/main/kotlin/Solution.scala\n```\nfun g() {}\n```\n";
    let project = rustsn::kotlin::parse_llm_response(text);
    assert_eq!(project.project_build_script, "plugins {}");
    assert_eq!(project.solution_code, "fun g() {}");
}
