use project_overview::program::Program;
use project_overview::registry::{add, remove, validate};

fn sample_registry() -> Vec<Program> {
    vec![
        Program::new(String::from("editor"), String::from("code %path%")),
        Program::new(String::from("terminal"), String::from("kitty -d %path%")),
    ]
}

fn names(programs: &Vec<Program>) -> Vec<String> {
    programs.iter().map(|p| p.name().to_string()).collect()
}

#[test]
fn validate_is_a_placeholder_check_for_a_free_name() {
    let programs: Vec<Program> = vec![];
    assert!(validate(&programs, "editor", "code %path%"));
    assert!(validate(&programs, "editor", "%path%"));
    assert!(!validate(&programs, "editor", "code"));
    assert!(!validate(&programs, "editor", "code %path"));
    assert!(!validate(&programs, "editor", "code %PATH%"));
    assert!(!validate(&programs, "editor", ""));
}

#[test]
fn validate_rejects_an_empty_name() {
    let programs: Vec<Program> = vec![];
    assert!(!validate(&programs, "", "code %path%"));
}

#[test]
fn validate_rejects_a_taken_name() {
    let programs = sample_registry();
    assert!(!validate(&programs, "editor", "vim %path%"));
    assert!(validate(&programs, "browser", "firefox %path%"));
}

#[test]
fn add_appends_a_valid_program() {
    let mut programs = sample_registry();
    assert!(add(&mut programs, String::from("browser"), String::from("firefox %path%")));
    assert_eq!(names(&programs), vec!["editor", "terminal", "browser"]);
    assert_eq!(programs[2].command(), "firefox %path%");
}

#[test]
fn add_with_a_duplicate_name_reports_rejection_and_changes_nothing() {
    let mut programs = sample_registry();
    assert!(!add(&mut programs, String::from("editor"), String::from("vim %path%")));
    assert_eq!(names(&programs), vec!["editor", "terminal"]);
    assert_eq!(programs[0].command(), "code %path%");
}

#[test]
fn add_without_placeholder_reports_rejection_and_changes_nothing() {
    let mut programs = sample_registry();
    assert!(!add(&mut programs, String::from("browser"), String::from("firefox")));
    assert_eq!(names(&programs), vec!["editor", "terminal"]);
}

#[test]
fn add_with_empty_name_reports_rejection_and_changes_nothing() {
    let mut programs = sample_registry();
    assert!(!add(&mut programs, String::new(), String::from("code %path%")));
    assert_eq!(names(&programs), vec!["editor", "terminal"]);
}

#[test]
fn remove_of_an_absent_name_is_a_noop() {
    let mut programs = sample_registry();
    remove(&mut programs, "browser");
    assert_eq!(names(&programs), vec!["editor", "terminal"]);
    assert_eq!(programs[0].command(), "code %path%");
    assert_eq!(programs[1].command(), "kitty -d %path%");
}

#[test]
fn remove_deletes_the_named_program_and_keeps_the_order() {
    let mut programs = sample_registry();
    assert!(add(&mut programs, String::from("browser"), String::from("firefox %path%")));
    remove(&mut programs, "terminal");
    assert_eq!(names(&programs), vec!["editor", "browser"]);
}

#[test]
fn remove_on_an_empty_registry_is_a_noop() {
    let mut programs: Vec<Program> = vec![];
    remove(&mut programs, "editor");
    assert_eq!(programs.len(), 0);
}
