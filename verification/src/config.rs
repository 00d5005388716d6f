//! The session configuration: a versioned record holding the optional
//! project root path and the ordered program registry.
//!
//! Reading and writing the persisted store is the surrounding
//! application's concern; this module owns the recovery policy.  Loading
//! never fails: whatever a store read yielded, a usable configuration
//! comes back, falling back to the default when the store was missing,
//! unreadable or corrupt.

use crate::program::{Program, ProgramView};
use vstd::prelude::*;

verus! {

/// The only schema layout defined so far.
pub const SCHEMA_VERSION: u64 = 1;

/// Mathematical value of a [`Config`].
pub ghost struct ConfigView {
    pub schema_version: u64,
    pub project_root_path: Option<Seq<char>>,
    pub programs: Seq<ProgramView>,
}

/// The persisted configuration, mutated in place for the lifetime of a
/// session.
pub struct Config {
    pub(crate) schema_version: u64,
    pub(crate) project_root_path: Option<String>,
    pub(crate) programs: Vec<Program>,
}

impl View for Config {
    type V = ConfigView;

    closed spec fn view(&self) -> ConfigView {
        ConfigView {
            schema_version: self.schema_version,
            project_root_path: self.project_root_path.deep_view(),
            programs: self.programs.deep_view(),
        }
    }
}

/// The fallback configuration: current schema, no root configured,
/// no programs.
pub open spec fn spec_default_config() -> ConfigView {
    ConfigView {
        schema_version: SCHEMA_VERSION,
        project_root_path: None,
        programs: Seq::empty(),
    }
}

impl Config {
    /// Assembles a configuration from its plain parts, as a store read
    /// or a test hands them over.
    pub fn new(
        schema_version: u64,
        project_root_path: Option<String>,
        programs: Vec<Program>,
    ) -> (c: Config)
        ensures
            c@ == (ConfigView {
                schema_version: schema_version,
                project_root_path: project_root_path.deep_view(),
                programs: programs.deep_view(),
            }),
    {
        Config { schema_version, project_root_path, programs }
    }

    /// Produces the configuration for this session from whatever the
    /// persisted store yielded.  A missing, unreadable or corrupt store
    /// is handed over as `None` and falls back to the default; a
    /// readable store is taken as it is.
    pub fn load(stored: Option<Config>) -> (r: Config)
        ensures
            stored is Some ==> r@ == stored.unwrap()@,
            stored is None ==> r@ == spec_default_config(),
    {
        match stored {
            Some(c) => c,
            None => Config::default(),
        }
    }

    pub fn schema_version(&self) -> (r: u64)
        ensures
            r == self@.schema_version,
    {
        self.schema_version
    }

    pub fn project_root_path(&self) -> (r: Option<&String>)
        ensures
            r is Some <==> self@.project_root_path is Some,
            r is Some ==> r.unwrap()@ == self@.project_root_path.unwrap(),
    {
        self.project_root_path.as_ref()
    }

    pub fn programs(&self) -> (r: &[Program])
        ensures
            r.deep_view() == self@.programs,
    {
        let r = self.programs.as_slice();
        proof {
            assert(r.deep_view() =~= self.programs.deep_view());
        }
        r
    }

    /// Updates the root path in memory; the caller persists the change,
    /// and a failed write leaves this in-memory value authoritative.
    pub fn set_project_root_path(&mut self, path: Option<String>)
        ensures
            final(self)@ == (ConfigView { project_root_path: path.deep_view(), ..old(self)@ }),
    {
        self.project_root_path = path;
    }

    /// Replaces the full program list in memory; the caller persists the
    /// change.
    pub fn set_programs(&mut self, programs: Vec<Program>)
        ensures
            final(self)@ == (ConfigView { programs: programs.deep_view(), ..old(self)@ }),
    {
        self.programs = programs;
    }

    /// Validated mutation of the owned registry (see [`crate::registry::add`]):
    /// appends when the pair validates and reports whether it did; the
    /// caller persists on `true`.
    pub fn add_program(&mut self, name: String, command: String) -> (r: bool)
        ensures
            r == crate::registry::spec_validate(old(self)@.programs, name@, command@),
            r ==> final(self)@ == (ConfigView {
                programs: old(self)@.programs.push(
                    ProgramView { name: name@, command: command@ },
                ),
                ..old(self)@
            }),
            !r ==> final(self)@ == old(self)@,
    {
        crate::registry::add(&mut self.programs, name, command)
    }

    /// Removes the programs named `name` from the owned registry (see
    /// [`crate::registry::remove`]); an absent name changes nothing.
    pub fn remove_program(&mut self, name: &str)
        ensures
            final(self)@ == (ConfigView {
                programs: crate::registry::without_name(old(self)@.programs, name@),
                ..old(self)@
            }),
    {
        crate::registry::remove(&mut self.programs, name)
    }

    /// Looks up the first owned program carrying `name` (see
    /// [`crate::registry::find_named`]).
    pub fn find_program(&self, name: &str) -> (r: Option<&Program>)
        ensures
            r is Some ==> crate::registry::spec_find_named(self@.programs, name@) == Some(
                r.unwrap()@,
            ),
            r is None ==> crate::registry::spec_find_named(self@.programs, name@) is None,
    {
        crate::registry::find_named(&self.programs, name)
    }
}

impl Default for Config {
    /// The configuration used when nothing usable was persisted: empty
    /// root, empty program list.
    fn default() -> (c: Config)
        ensures
            c@ == spec_default_config(),
    {
        let c = Config {
            schema_version: SCHEMA_VERSION,
            project_root_path: None,
            programs: Vec::new(),
        };
        proof {
            assert(c@.programs =~= Seq::<ProgramView>::empty());
        }
        c
    }
}

} // verus!
