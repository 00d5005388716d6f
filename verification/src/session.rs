//! The session: the one owned context object that the presentation
//! layer drives.  It holds the loaded configuration, the cached
//! project list and the current search text, and consumes intents —
//! the closed set of domain actions the presentation layer can ask
//! for — through one state-transition function.  The session performs
//! no I/O itself: each transition answers with the effect the caller
//! must carry out (persist the configuration, spawn a process).

use crate::config::{Config, ConfigView};
use crate::launch::{spec_join, subst, tokens, Invocation, InvocationView};
use crate::program::ProgramView;
use crate::project::Project;
use crate::registry::spec_find_named;
use crate::repository::{kept_projects, scan};
use crate::search;
use vstd::prelude::*;

verus! {

/// Mathematical value of a [`Session`].
pub ghost struct SessionView {
    pub config: ConfigView,
    pub projects: Seq<crate::project::ProjectView>,
    pub search_text: Seq<char>,
}

/// The state a running session owns.
pub struct Session {
    config: Config,
    projects: Vec<Project>,
    search_text: String,
}

impl View for Session {
    type V = SessionView;

    closed spec fn view(&self) -> SessionView {
        SessionView {
            config: self.config@,
            projects: self.projects.deep_view(),
            search_text: self.search_text@,
        }
    }
}

/// The domain actions the presentation layer can ask of a session.
pub enum Intent {
    /// Persist a new project root path.
    SetRootPath(Option<String>),
    /// Register a new launch template.
    AddProgram { name: String, command: String },
    /// Drop the launch template carrying this name.
    RemoveProgram(String),
    /// The outcome of enumerating the root directory, as the caller
    /// read it: `None` when the root was missing or unreadable, one
    /// inner `None` per unreadable entry.
    ProjectsScanned(Option<Vec<Option<Project>>>),
    /// A changed search query.
    SetSearchText(String),
    /// Open a project with a registered program, both by name.
    LaunchProject { project_name: String, program_name: String },
}

/// What the caller must do after a transition; the session itself does
/// no I/O.
pub enum Action {
    /// Nothing is left to do.
    Nothing,
    /// Write the whole configuration to the store; a failed write is
    /// logged and the in-memory state stays authoritative.
    Persist,
    /// The mutation was rejected by validation and nothing changed.
    Rejected,
    /// Spawn this invocation as a detached child, discarding its
    /// standard streams.
    Spawn(Invocation),
    /// Nothing can be spawned: the program or the root is not
    /// configured, or the command came out empty; log and carry on.
    SpawnFailed,
}

impl Session {
    /// Starts a session from the loaded configuration: no projects
    /// scanned yet, empty search.
    pub fn new(config: Config) -> (s: Session)
        ensures
            s@ == (SessionView {
                config: config@,
                projects: Seq::empty(),
                search_text: Seq::empty(),
            }),
    {
        let projects: Vec<Project> = Vec::new();
        let search_text = String::new();
        proof {
            assert(projects.deep_view() =~= Seq::<crate::project::ProjectView>::empty());
        }
        Session { config, projects, search_text }
    }

    pub fn config(&self) -> (r: &Config)
        ensures
            r@ == self@.config,
    {
        &self.config
    }

    /// The cached project list, as of the last scan outcome consumed.
    pub fn projects(&self) -> (r: &Vec<Project>)
        ensures
            r.deep_view() == self@.projects,
    {
        &self.projects
    }

    pub fn search_text(&self) -> (r: &str)
        ensures
            r@ == self@.search_text,
    {
        self.search_text.as_str()
    }

    /// The projects the presentation layer shows: the cached list,
    /// filtered by the current search text and ordered by recency
    /// (see [`search::filter`]).
    pub fn visible_projects(&self) -> (r: Vec<Project>)
        ensures
            search::sorted_by_recency(r.deep_view()),
            r.deep_view().to_multiset() == search::matching(
                self@.projects,
                self@.search_text,
            ).to_multiset(),
            forall|t: u64| #[trigger] search::with_stamp(r.deep_view(), t) == search::with_stamp(
                search::matching(self@.projects, self@.search_text),
                t,
            ),
    {
        search::filter(&self.projects, self.search_text.as_str())
    }

    /// One state transition: consumes an intent, updates the session,
    /// and answers with the effect the caller must perform.
    pub fn update(&mut self, intent: Intent) -> (a: Action)
        ensures
            match intent {
                Intent::SetRootPath(path) => {
                    &&& final(self)@ == (SessionView {
                        config: ConfigView {
                            project_root_path: path.deep_view(),
                            ..old(self)@.config
                        },
                        ..old(self)@
                    })
                    &&& a is Persist
                },
                Intent::AddProgram { name, command } => {
                    let ok = crate::registry::spec_validate(
                        old(self)@.config.programs,
                        name@,
                        command@,
                    );
                    &&& ok ==> final(self)@ == (SessionView {
                        config: ConfigView {
                            programs: old(self)@.config.programs.push(
                                ProgramView { name: name@, command: command@ },
                            ),
                            ..old(self)@.config
                        },
                        ..old(self)@
                    }) && a is Persist
                    &&& !ok ==> final(self)@ == old(self)@ && a is Rejected
                },
                Intent::RemoveProgram(name) => {
                    &&& final(self)@ == (SessionView {
                        config: ConfigView {
                            programs: crate::registry::without_name(
                                old(self)@.config.programs,
                                name@,
                            ),
                            ..old(self)@.config
                        },
                        ..old(self)@
                    })
                    &&& a is Persist
                },
                Intent::ProjectsScanned(entries) => {
                    &&& final(self)@ == (SessionView {
                        projects: match entries {
                            Some(es) => kept_projects(es@),
                            None => Seq::empty(),
                        },
                        ..old(self)@
                    })
                    &&& a is Nothing
                },
                Intent::SetSearchText(text) => {
                    &&& final(self)@ == (SessionView { search_text: text@, ..old(self)@ })
                    &&& a is Nothing
                },
                Intent::LaunchProject { project_name, program_name } => {
                    &&& final(self)@ == old(self)@
                    &&& ({
                        let prog = spec_find_named(old(self)@.config.programs, program_name@);
                        let root = old(self)@.config.project_root_path;
                        match (root, prog) {
                            (Some(r), Some(pg)) => {
                                let toks = tokens(subst(pg.command, spec_join(r, project_name@)));
                                if toks.len() > 0 {
                                    a matches Action::Spawn(invocation) && invocation@
                                        == (InvocationView {
                                        executable: toks[0],
                                        args: toks.skip(1),
                                    })
                                } else {
                                    a is SpawnFailed
                                }
                            },
                            _ => a is SpawnFailed,
                        }
                    })
                },
            },
    {
        match intent {
            Intent::SetRootPath(path) => {
                self.config.set_project_root_path(path);
                Action::Persist
            },
            Intent::AddProgram { name, command } => {
                if self.config.add_program(name, command) {
                    Action::Persist
                } else {
                    Action::Rejected
                }
            },
            Intent::RemoveProgram(name) => {
                self.config.remove_program(name.as_str());
                Action::Persist
            },
            Intent::ProjectsScanned(entries) => {
                self.projects = scan(entries);
                Action::Nothing
            },
            Intent::SetSearchText(text) => {
                self.search_text = text;
                Action::Nothing
            },
            Intent::LaunchProject { project_name, program_name } => {
                match self.config.find_program(program_name.as_str()) {
                    Some(program) => match self.config.project_root_path() {
                        Some(root) => {
                            match crate::launch::resolve_named(
                                program,
                                project_name.as_str(),
                                root.as_str(),
                            ) {
                                Some(invocation) => Action::Spawn(invocation),
                                None => Action::SpawnFailed,
                            }
                        },
                        None => Action::SpawnFailed,
                    },
                    None => Action::SpawnFailed,
                }
            },
        }
    }
}

} // verus!
