//! The program registry: an ordered list of launch templates with
//! validated mutation.  A mutation never leaves the list in a state
//! that violates the registry invariant: names are non-empty and
//! unique, and every command contains the `%path%` placeholder.
//!
//! Persisting the list after a mutation is the caller's concern.

use crate::program::{placeholder, spec_valid_command, Program, ProgramView};
use crate::seqs::lemma_filter_all;
use crate::text::{contains_seq, str_eq};
use vstd::prelude::*;

verus! {

/// Some program in `ps` is named `name`.
pub open spec fn has_name(ps: Seq<ProgramView>, name: Seq<char>) -> bool {
    exists|i: int| 0 <= i < ps.len() && #[trigger] ps[i].name == name
}

/// A proposed entry may be added: the name is non-empty and not yet
/// taken, and the command contains the placeholder.
pub open spec fn spec_validate(ps: Seq<ProgramView>, name: Seq<char>, command: Seq<char>) -> bool {
    &&& name.len() > 0
    &&& !has_name(ps, name)
    &&& spec_valid_command(command)
}

/// `ps` without every program named `name`.
pub open spec fn without_name(ps: Seq<ProgramView>, name: Seq<char>) -> Seq<ProgramView> {
    ps.filter(|p: ProgramView| p.name != name)
}

/// The registry invariant: names are non-empty and pairwise distinct,
/// and every command contains the placeholder.
pub open spec fn registry_wf(ps: Seq<ProgramView>) -> bool {
    &&& forall|i: int, j: int|
        0 <= i < j < ps.len() ==> #[trigger] ps[i].name != #[trigger] ps[j].name
    &&& forall|i: int|
        0 <= i < ps.len() ==> (#[trigger] ps[i].name.len() > 0 && spec_valid_command(
            ps[i].command,
        ))
}

/// Pure validation, callable before a mutation: true iff `add` with the
/// same arguments would accept them.
pub fn validate(programs: &Vec<Program>, name: &str, command: &str) -> (r: bool)
    ensures
        r == spec_validate(programs.deep_view(), name@, command@),
{
    if name.unicode_len() == 0 {
        return false;
    }
    if !Program::is_valid_command(command) {
        return false;
    }
    let mut i: usize = 0;
    while i < programs.len()
        invariant
            i <= programs@.len(),
            forall|j: int| 0 <= j < i ==> #[trigger] programs.deep_view()[j].name != name@,
        decreases programs@.len() - i,
    {
        if str_eq(programs[i].name(), name) {
            proof {
                assert(programs.deep_view()[i as int].name == name@);
            }
            return false;
        }
        i += 1;
    }
    true
}

/// Appends a new program when `validate` accepts the pair, and reports
/// whether it did; a rejected pair leaves the registry untouched.
pub fn add(programs: &mut Vec<Program>, name: String, command: String) -> (r: bool)
    ensures
        r == spec_validate(old(programs).deep_view(), name@, command@),
        r ==> final(programs).deep_view() == old(programs).deep_view().push(
            ProgramView { name: name@, command: command@ },
        ),
        !r ==> final(programs).deep_view() == old(programs).deep_view(),
{
    if validate(programs, name.as_str(), command.as_str()) {
        let ghost before = programs.deep_view();
        programs.push(Program::new(name, command));
        proof {
            assert(programs.deep_view() =~= before.push(
                ProgramView { name: name@, command: command@ },
            ));
        }
        true
    } else {
        false
    }
}

/// Removes the programs named `name`; under the registry invariant that
/// is at most one.  An absent name leaves the registry unchanged.
pub fn remove(programs: &mut Vec<Program>, name: &str)
    ensures
        final(programs).deep_view() == without_name(old(programs).deep_view(), name@),
{
    let ghost orig = programs.deep_view();
    let ghost pred = |p: ProgramView| p.name != name@;
    let mut kept: Vec<Program> = Vec::new();
    let mut i: usize = 0;
    while i < programs.len()
        invariant
            i <= programs@.len(),
            programs.deep_view() == orig,
            pred == (|p: ProgramView| p.name != name@),
            kept.deep_view() == orig.take(i as int).filter(pred),
        decreases programs@.len() - i,
    {
        let ghost prefix = orig.take(i as int);
        let p = &programs[i];
        if !str_eq(p.name(), name) {
            let ghost kept_before = kept.deep_view();
            kept.push(p.clone());
            proof {
                assert(kept.deep_view() =~= kept_before.push(orig[i as int]));
            }
        }
        proof {
            assert(orig.take(i + 1) =~= prefix.push(orig[i as int]));
            prefix.lemma_filter_push(orig[i as int], pred);
        }
        i += 1;
    }
    proof {
        assert(orig.take(orig.len() as int) =~= orig);
    }
    *programs = kept;
}

/// The first program of `ps` named `name`, if any is.
pub open spec fn spec_find_named(ps: Seq<ProgramView>, name: Seq<char>) -> Option<ProgramView>
    decreases ps.len(),
{
    if ps.len() == 0 {
        None
    } else if ps[0].name == name {
        Some(ps[0])
    } else {
        spec_find_named(ps.drop_first(), name)
    }
}

/// A program is found exactly when the name is present.
pub proof fn lemma_find_named_some(ps: Seq<ProgramView>, name: Seq<char>)
    ensures
        spec_find_named(ps, name) is Some <==> has_name(ps, name),
    decreases ps.len(),
{
    if ps.len() > 0 {
        lemma_find_named_some(ps.drop_first(), name);
        if !(ps[0].name == name) {
            let rest = ps.drop_first();
            if has_name(ps, name) {
                let i = choose|i: int| 0 <= i < ps.len() && #[trigger] ps[i].name == name;
                assert(rest[i - 1].name == name);
            }
            if has_name(rest, name) {
                let i = choose|i: int| 0 <= i < rest.len() && #[trigger] rest[i].name == name;
                assert(ps[i + 1].name == name);
            }
        }
    }
}

/// Looks the named program up, returning the first one carrying the
/// name; under the registry invariant there is at most one.
pub fn find_named<'a>(programs: &'a Vec<Program>, name: &str) -> (r: Option<&'a Program>)
    ensures
        r is Some ==> spec_find_named(programs.deep_view(), name@) == Some(r.unwrap()@),
        r is None ==> spec_find_named(programs.deep_view(), name@) is None,
{
    let ghost all = programs.deep_view();
    proof {
        assert(all.skip(0) =~= all);
    }
    let mut i: usize = 0;
    while i < programs.len()
        invariant
            i <= programs@.len(),
            all == programs.deep_view(),
            spec_find_named(all, name@) == spec_find_named(all.skip(i as int), name@),
        decreases programs@.len() - i,
    {
        let ghost rest = all.skip(i as int);
        proof {
            assert(rest[0] == all[i as int]);
            assert(rest.drop_first() =~= all.skip(i + 1));
        }
        let p = &programs[i];
        if str_eq(p.name(), name) {
            return Some(p);
        }
        i += 1;
    }
    proof {
        assert(all.skip(all.len() as int) =~= Seq::<ProgramView>::empty());
    }
    None
}

/// For a name that is non-empty and still free, validation comes down
/// to one question: does the command contain the `%path%` placeholder?
/// (With an empty or taken name, validation rejects every command.)
pub proof fn lemma_validate_is_placeholder_check(
    ps: Seq<ProgramView>,
    name: Seq<char>,
    command: Seq<char>,
)
    requires
        name.len() > 0,
        !has_name(ps, name),
    ensures
        spec_validate(ps, name, command) <==> contains_seq(command, placeholder()),
{
}

/// A name that is already present never validates, so `add` with it
/// reports rejection and leaves the registry unchanged.
pub proof fn lemma_duplicate_rejected(ps: Seq<ProgramView>, name: Seq<char>, command: Seq<char>)
    requires
        has_name(ps, name),
    ensures
        !spec_validate(ps, name, command),
{
}

/// A name that is absent from the registry: removing it is a no-op.
pub proof fn lemma_remove_absent(ps: Seq<ProgramView>, name: Seq<char>)
    requires
        !has_name(ps, name),
    ensures
        without_name(ps, name) == ps,
{
    let pred = |p: ProgramView| p.name != name;
    assert forall|i: int| 0 <= i < ps.len() implies #[trigger] pred(ps[i]) by {
        assert(!(ps[i].name == name));
    }
    lemma_filter_all(ps, pred);
}

/// Adding an entry that `validate` accepts preserves the registry
/// invariant.
pub proof fn lemma_add_preserves_wf(ps: Seq<ProgramView>, name: Seq<char>, command: Seq<char>)
    requires
        registry_wf(ps),
        spec_validate(ps, name, command),
    ensures
        registry_wf(ps.push(ProgramView { name: name, command: command })),
{
    let q = ps.push(ProgramView { name: name, command: command });
    assert forall|i: int, j: int| 0 <= i < j < q.len() implies #[trigger] q[i].name
        != #[trigger] q[j].name by {
        if j == ps.len() {
            assert(!(ps[i].name == name));
        }
    }
}

/// Removing a name preserves the registry invariant.
pub proof fn lemma_remove_preserves_wf(ps: Seq<ProgramView>, name: Seq<char>)
    requires
        registry_wf(ps),
    ensures
        registry_wf(without_name(ps, name)),
    decreases ps.len(),
{
    reveal(Seq::filter);
    let pred = |p: ProgramView| p.name != name;
    let q = ps.filter(pred);
    if ps.len() > 0 {
        let rest = ps.drop_last();
        assert(registry_wf(rest)) by {
            assert(forall|i: int| 0 <= i < rest.len() ==> rest[i] == ps[i]);
        }
        lemma_remove_preserves_wf(rest, name);
        if pred(ps.last()) {
            let qr = rest.filter(pred);
            assert(q == qr.push(ps.last()));
            assert forall|i: int, j: int| 0 <= i < j < q.len() implies #[trigger] q[i].name
                != #[trigger] q[j].name by {
                if j == qr.len() {
                    assert(qr.contains(qr[i]));
                    Seq::lemma_filter_contains_rev(rest, pred, qr[i]);
                    let k = choose|k: int| 0 <= k < rest.len() && rest[k] == qr[i];
                    assert(ps[k] == qr[i]);
                    assert(ps[k].name != ps[ps.len() - 1].name);
                }
            }
            assert forall|i: int| 0 <= i < q.len() implies (#[trigger] q[i].name.len() > 0
                && spec_valid_command(q[i].command)) by {
                if i < qr.len() {
                    assert(qr[i].name.len() > 0 && spec_valid_command(qr[i].command));
                }
            }
        }
    }
}

} // verus!
