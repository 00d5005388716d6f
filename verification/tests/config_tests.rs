use project_overview::config::Config;
use project_overview::program::Program;

#[test]
fn load_without_store_falls_back_to_default() {
    let c = Config::load(None);
    assert_eq!(c.schema_version(), 1);
    assert!(c.project_root_path().is_none());
    assert_eq!(c.programs().len(), 0);
}

#[test]
fn load_keeps_a_readable_store() {
    let stored = Config::new(
        1,
        Some(String::from("/home/u/projects")),
        vec![Program::new(String::from("editor"), String::from("code %path%"))],
    );
    let c = Config::load(Some(stored));
    assert_eq!(c.schema_version(), 1);
    assert_eq!(c.project_root_path().unwrap().as_str(), "/home/u/projects");
    let ps = c.programs();
    assert_eq!(ps.len(), 1);
    assert_eq!(ps[0].name(), "editor");
    assert_eq!(ps[0].command(), "code %path%");
}

#[test]
fn load_keeps_a_store_with_another_schema_version() {
    let stored = Config::new(2, None, vec![]);
    let c = Config::load(Some(stored));
    assert_eq!(c.schema_version(), 2);
    assert!(c.project_root_path().is_none());
}

#[test]
fn setters_update_the_in_memory_value() {
    let mut c = Config::load(None);

    c.set_project_root_path(Some(String::from("/tmp/root")));
    assert_eq!(c.project_root_path().unwrap().as_str(), "/tmp/root");

    c.set_programs(vec![Program::new(String::from("a"), String::from("x %path%"))]);
    assert_eq!(c.programs().len(), 1);
    assert_eq!(c.programs()[0].name(), "a");

    c.set_project_root_path(None);
    assert!(c.project_root_path().is_none());
    assert_eq!(c.programs().len(), 1);
}
