use project_overview::program::Program;
use project_overview::project::Project;

#[test]
fn program_keeps_name_and_command() {
    let p = Program::new(String::from("editor"), String::from("code %path%"));
    assert_eq!(p.name(), "editor");
    assert_eq!(p.command(), "code %path%");
}

#[test]
fn program_clone_keeps_the_fields() {
    let p = Program::new(String::from("editor"), String::from("code %path%"));
    let q = p.clone();
    assert_eq!(q.name(), "editor");
    assert_eq!(q.command(), "code %path%");
}

#[test]
fn is_valid_command_means_placeholder_present() {
    assert!(Program::is_valid_command("%path%"));
    assert!(Program::is_valid_command("run %path% now"));
    assert!(!Program::is_valid_command(""));
    assert!(!Program::is_valid_command("%path"));
    assert!(!Program::is_valid_command("%PATH%"));
    assert!(!Program::is_valid_command("% path %"));
}

#[test]
fn project_keeps_name_and_timestamp() {
    let p = Project::new(String::from("demo"), 42);
    assert_eq!(p.name(), "demo");
    assert_eq!(p.modify(), 42);
    let q = p.clone();
    assert_eq!(q.name(), "demo");
    assert_eq!(q.modify(), 42);
}

#[test]
fn from_entry_needs_both_name_and_timestamp() {
    let p = Project::from_entry(Some(String::from("demo")), Some(7)).unwrap();
    assert_eq!(p.name(), "demo");
    assert_eq!(p.modify(), 7);
    assert!(Project::from_entry(None, Some(7)).is_none());
    assert!(Project::from_entry(Some(String::from("demo")), None).is_none());
    assert!(Project::from_entry(None, None).is_none());
}
