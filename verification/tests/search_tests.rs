use project_overview::project::Project;
use project_overview::search::filter;

fn proj(name: &str, modified_at: u64) -> Project {
    Project::new(String::from(name), modified_at)
}

fn names(projects: &Vec<Project>) -> Vec<String> {
    projects.iter().map(|p| p.name().clone()).collect()
}

#[test]
fn empty_query_returns_all_projects_by_recency() {
    let projects = vec![proj("alpha", 1), proj("beta", 3), proj("gamma", 2)];
    let r = filter(&projects, "");
    assert_eq!(names(&r), vec!["beta", "gamma", "alpha"]);
}

#[test]
fn query_selects_case_insensitive_substring_matches_by_recency() {
    let projects = vec![proj("abcproj", 30), proj("xyz", 20), proj("abcd", 10)];
    let r = filter(&projects, "abc");
    assert_eq!(names(&r), vec!["abcproj", "abcd"]);
}

#[test]
fn query_case_differs_from_names_and_still_matches() {
    let projects = vec![proj("MyProject", 2), proj("other", 1)];
    assert_eq!(names(&filter(&projects, "myproj")), vec!["MyProject"]);
    assert_eq!(names(&filter(&projects, "PROJECT")), vec!["MyProject"]);
}

#[test]
fn equal_timestamps_keep_the_input_order() {
    let projects = vec![proj("one", 7), proj("two", 9), proj("three", 7), proj("four", 7)];
    let r = filter(&projects, "");
    assert_eq!(names(&r), vec!["two", "one", "three", "four"]);
}

#[test]
fn query_without_match_returns_nothing() {
    let projects = vec![proj("alpha", 1), proj("beta", 2)];
    let r = filter(&projects, "zzz");
    assert_eq!(r.len(), 0);
}

#[test]
fn case_folding_covers_ascii_letters_only() {
    let projects = vec![proj("café", 1)];
    assert_eq!(names(&filter(&projects, "CAF")), vec!["café"]);
    assert_eq!(filter(&projects, "CAFE").len(), 0);
}

#[test]
fn query_matches_inside_the_name() {
    let projects = vec![proj("workspace-api", 5), proj("api", 6), proj("docs", 7)];
    let r = filter(&projects, "api");
    assert_eq!(names(&r), vec!["api", "workspace-api"]);
}
