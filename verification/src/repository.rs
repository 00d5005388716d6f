//! Project discovery.  The surrounding application enumerates the
//! direct children of the configured root directory and reports, for
//! each entry, whether a project could be read out of it; this module
//! owns the policy of what a scan yields: readable entries become
//! projects in order, unreadable entries are skipped, and a missing or
//! unreadable root yields an empty list rather than an error.

use crate::project::{Project, ProjectView};
use vstd::prelude::*;

verus! {

/// The projects that a sequence of per-entry outcomes yields: one
/// project per readable entry, in the order of enumeration; unreadable
/// entries (`None`) are skipped, never fabricated.
pub open spec fn kept_projects(entries: Seq<Option<Project>>) -> Seq<ProjectView>
    decreases entries.len(),
{
    if entries.len() == 0 {
        Seq::empty()
    } else {
        kept_projects(entries.drop_last()) + (match entries.last() {
            Some(p) => seq![p@],
            None => Seq::empty(),
        })
    }
}

/// How many of the entries were readable.
pub open spec fn readable_count(entries: Seq<Option<Project>>) -> nat
    decreases entries.len(),
{
    if entries.len() == 0 {
        0
    } else {
        readable_count(entries.drop_last()) + (if entries.last() is Some {
            1nat
        } else {
            0nat
        })
    }
}

/// A scan yields exactly one project per readable entry.
pub proof fn lemma_scan_count(entries: Seq<Option<Project>>)
    ensures
        kept_projects(entries).len() == readable_count(entries),
    decreases entries.len(),
{
    if entries.len() > 0 {
        lemma_scan_count(entries.drop_last());
    }
}

/// Turns the outcome of enumerating the root directory into the list of
/// discovered projects.  `entries` is `None` when the root was missing
/// or unreadable, which yields the same empty list as a root without
/// children — the two cases are indistinguishable to the caller by
/// design.  Each entry is `None` when its name or modification time
/// could not be read; such entries are skipped, and a scan never fails.
pub fn scan(entries: Option<Vec<Option<Project>>>) -> (r: Vec<Project>)
    ensures
        entries is Some ==> r.deep_view() == kept_projects(entries.unwrap()@),
        entries is None ==> r.deep_view() == Seq::<ProjectView>::empty(),
{
    match entries {
        None => {
            let r: Vec<Project> = Vec::new();
            proof {
                assert(r.deep_view() =~= Seq::<ProjectView>::empty());
            }
            r
        },
        Some(es) => collect_projects(es),
    }
}

fn collect_projects(entries: Vec<Option<Project>>) -> (r: Vec<Project>)
    ensures
        r.deep_view() == kept_projects(entries@),
{
    let mut out: Vec<Project> = Vec::new();
    proof {
        assert(out.deep_view() =~= Seq::<ProjectView>::empty());
        assert(entries@.take(0) =~= Seq::<Option<Project>>::empty());
    }
    let mut i: usize = 0;
    while i < entries.len()
        invariant
            i <= entries@.len(),
            out.deep_view() == kept_projects(entries@.take(i as int)),
        decreases entries@.len() - i,
    {
        let ghost prefix = entries@.take(i as int);
        let ghost out_before = out.deep_view();
        match &entries[i] {
            Some(p) => {
                out.push(p.clone());
                proof {
                    assert(out.deep_view() =~= out_before + seq![entries@[i as int].unwrap()@]);
                }
            },
            None => {
                proof {
                    assert(out_before + Seq::<ProjectView>::empty() =~= out_before);
                }
            },
        }
        proof {
            assert(entries@.take(i + 1).drop_last() =~= prefix);
            assert(entries@.take(i + 1).last() == entries@[i as int]);
        }
        i += 1;
    }
    proof {
        assert(entries@.take(entries@.len() as int) =~= entries@);
    }
    out
}

} // verus!
