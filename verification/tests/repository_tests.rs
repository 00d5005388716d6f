use project_overview::project::Project;
use project_overview::repository::scan;

fn entry(name: &str, modified_at: u64) -> Option<Project> {
    Some(Project::new(String::from(name), modified_at))
}

#[test]
fn missing_or_unreadable_root_yields_an_empty_list() {
    let r = scan(None);
    assert_eq!(r.len(), 0);
}

#[test]
fn root_without_children_yields_an_empty_list() {
    let r = scan(Some(vec![]));
    assert_eq!(r.len(), 0);
}

#[test]
fn scan_returns_one_project_per_readable_entry() {
    let entries = vec![
        entry("alpha", 1),
        None,
        entry("beta", 2),
        None,
        entry("gamma", 3),
    ];
    let r = scan(Some(entries));
    assert_eq!(r.len(), 3);
    assert_eq!(r[0].name(), "alpha");
    assert_eq!(r[1].name(), "beta");
    assert_eq!(r[2].name(), "gamma");
    assert_eq!(r[0].modify(), 1);
    assert_eq!(r[2].modify(), 3);
}

#[test]
fn scan_with_only_unreadable_entries_yields_an_empty_list() {
    let r = scan(Some(vec![None, None]));
    assert_eq!(r.len(), 0);
}
