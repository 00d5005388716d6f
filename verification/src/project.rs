//! A `Project` is a discovered workspace: the base name of a directory
//! entry under the configured root, together with the entry's
//! last-modified timestamp.  Projects are recomputed on every scan and
//! never persisted.

use vstd::prelude::*;

verus! {

/// Mathematical value of a [`Project`].
pub ghost struct ProjectView {
    pub name: Seq<char>,
    pub modified_at: u64,
}

/// A discovered workspace directory.  The timestamp is the entry's
/// last-modified time, encoded by the caller as a plain number
/// (for instance nanoseconds since the epoch); the library only ever
/// compares these values.
pub struct Project {
    pub(crate) name: String,
    pub(crate) modified_at: u64,
}

impl View for Project {
    type V = ProjectView;

    closed spec fn view(&self) -> ProjectView {
        ProjectView { name: self.name@, modified_at: self.modified_at }
    }
}

impl DeepView for Project {
    type V = ProjectView;

    open spec fn deep_view(&self) -> ProjectView {
        self.view()
    }
}

impl Project {
    pub fn new(name: String, modified_at: u64) -> (p: Project)
        ensures
            p@ == (ProjectView { name: name@, modified_at: modified_at }),
    {
        Project { name, modified_at }
    }

    pub fn name(&self) -> (r: &String)
        ensures
            r@ == self@.name,
    {
        &self.name
    }

    pub fn modify(&self) -> (r: u64)
        ensures
            r == self@.modified_at,
    {
        self.modified_at
    }

    /// Builds the project for one directory entry.  An entry yields a
    /// project only when both its name and its modification time could
    /// be read; otherwise the entry is skipped by returning `None`.
    pub fn from_entry(name: Option<String>, modified_at: Option<u64>) -> (r: Option<Project>)
        ensures
            name is Some && modified_at is Some ==> r is Some && r.unwrap()@ == (ProjectView {
                name: name.unwrap()@,
                modified_at: modified_at.unwrap(),
            }),
            !(name is Some && modified_at is Some) ==> r is None,
    {
        match (name, modified_at) {
            (Some(n), Some(m)) => Some(Project { name: n, modified_at: m }),
            _ => None,
        }
    }
}

impl Clone for Project {
    fn clone(&self) -> (r: Self)
        ensures
            r@ == self@,
    {
        Project { name: self.name.clone(), modified_at: self.modified_at }
    }
}

} // verus!
