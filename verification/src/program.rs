//! A `Program` is a named command template for opening a project in an
//! external tool.  A template is valid only when it contains the literal
//! placeholder `%path%`, which is later substituted with the resolved
//! project path.

use crate::text::{contains_seq, contains_str};
use vstd::prelude::*;

verus! {

/// Mathematical value of a [`Program`]: both fields as character sequences.
pub ghost struct ProgramView {
    pub name: Seq<char>,
    pub command: Seq<char>,
}

/// A named, user-defined command template.
pub struct Program {
    pub(crate) name: String,
    pub(crate) command: String,
}

impl View for Program {
    type V = ProgramView;

    closed spec fn view(&self) -> ProgramView {
        ProgramView { name: self.name@, command: self.command@ }
    }
}

impl DeepView for Program {
    type V = ProgramView;

    open spec fn deep_view(&self) -> ProgramView {
        self.view()
    }
}

/// The literal placeholder that a valid command template must contain.
pub open spec fn placeholder() -> Seq<char> {
    seq!['%', 'p', 'a', 't', 'h', '%']
}

/// A command template is valid iff it contains the `%path%` placeholder.
pub open spec fn spec_valid_command(command: Seq<char>) -> bool {
    contains_seq(command, placeholder())
}

/// The placeholder as a string slice, for searching and substitution.
pub fn placeholder_str() -> (r: &'static str)
    ensures
        r@ == placeholder(),
{
    let s = "%path%";
    proof {
        reveal_strlit("%path%");
        assert(s@ =~= placeholder());
    }
    s
}

impl Program {
    pub fn new(name: String, command: String) -> (p: Program)
        ensures
            p@ == (ProgramView { name: name@, command: command@ }),
    {
        Program { name, command }
    }

    pub fn name(&self) -> (r: &str)
        ensures
            r@ == self@.name,
    {
        self.name.as_str()
    }

    pub fn command(&self) -> (r: &str)
        ensures
            r@ == self@.command,
    {
        self.command.as_str()
    }

    /// True iff `command` contains the `%path%` placeholder.
    pub fn is_valid_command(command: &str) -> (r: bool)
        ensures
            r == spec_valid_command(command@),
    {
        contains_str(command, placeholder_str())
    }
}

impl Clone for Program {
    fn clone(&self) -> (r: Self)
        ensures
            r@ == self@,
    {
        Program { name: self.name.clone(), command: self.command.clone() }
    }
}

} // verus!
