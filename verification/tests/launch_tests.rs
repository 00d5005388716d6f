use project_overview::launch::{join_path, resolve, substitute, tokenize};
use project_overview::program::Program;
use project_overview::project::Project;

fn program(command: &str) -> Program {
    Program::new(String::from("tool"), String::from(command))
}

fn project(name: &str) -> Project {
    Project::new(String::from(name), 0)
}

#[test]
fn join_path_inserts_a_separator() {
    assert_eq!(join_path("/home/u/projects", "demo"), "/home/u/projects/demo");
}

#[test]
fn join_path_keeps_a_trailing_separator() {
    assert_eq!(join_path("/home/u/projects/", "demo"), "/home/u/projects/demo");
}

#[test]
fn join_path_with_empty_root_is_the_name() {
    assert_eq!(join_path("", "demo"), "demo");
}

#[test]
fn substitute_replaces_every_occurrence() {
    assert_eq!(substitute("a %path% b %path%", "/r"), "a /r b /r");
}

#[test]
fn substitute_without_placeholder_changes_nothing() {
    assert_eq!(substitute("code --wait", "/r"), "code --wait");
    assert_eq!(substitute("code %path", "/r"), "code %path");
    assert_eq!(substitute("", "/r"), "");
}

#[test]
fn substitute_does_not_rescan_the_replacement() {
    assert_eq!(substitute("%path%", "%path%x"), "%path%x");
}

#[test]
fn tokenize_splits_on_whitespace_runs() {
    assert_eq!(tokenize("code  --wait\t/x"), vec!["code", "--wait", "/x"]);
    assert_eq!(tokenize("  lead and trail  "), vec!["lead", "and", "trail"]);
    assert_eq!(tokenize(""), Vec::<String>::new());
    assert_eq!(tokenize(" \t\n"), Vec::<String>::new());
}

#[test]
fn tokenize_splits_on_unicode_whitespace() {
    assert_eq!(tokenize("a\u{a0}b\u{2003}c"), vec!["a", "b", "c"]);
}

#[test]
fn resolve_builds_the_executable_and_one_argument() {
    let r = resolve(
        &Program::new(String::from("demo-tool"), String::from("code %path%")),
        &project("demo"),
        "/home/u/projects",
    )
    .unwrap();
    assert_eq!(r.executable, "code");
    assert_eq!(r.args, vec!["/home/u/projects/demo"]);
}

#[test]
fn resolve_keeps_extra_arguments_in_order() {
    let r = resolve(&program("code --new-window %path%"), &project("demo"), "/r").unwrap();
    assert_eq!(r.executable, "code");
    assert_eq!(r.args, vec!["--new-window", "/r/demo"]);
}

#[test]
fn empty_substitution_yields_no_invocation() {
    // The whole template is one placeholder and the substituted path is
    // empty, so the command string comes out empty.
    let r = resolve(&program("%path%"), &Project::new(String::new(), 0), "");
    assert!(r.is_none());
}

#[test]
fn blank_command_yields_no_invocation() {
    assert!(resolve(&program(""), &project("demo"), "/r").is_none());
    assert!(resolve(&program("   "), &project("demo"), "/r").is_none());
}

#[test]
fn a_path_with_spaces_is_mis_tokenized() {
    // Documented limitation: no quoting support, so a root containing a
    // space splits into two arguments.
    let r = resolve(&program("code %path%"), &project("demo"), "/my root").unwrap();
    assert_eq!(r.executable, "code");
    assert_eq!(r.args, vec!["/my", "root/demo"]);
}
