//! Search and ordering of discovered projects: selects by an
//! ASCII-case-insensitive substring match on the name and orders by
//! descending modification time, keeping the input order of projects
//! whose timestamps are equal (a stable sort).

use crate::project::{Project, ProjectView};
use crate::seqs::lemma_filter_all;
use crate::text::{ci_contains, ci_contains_str, lemma_ci_contains_empty};
use iter_tools::Itertools;
use vstd::prelude::*;

verus! {

/// The projects of `ps` whose name contains `query`, ignoring ASCII
/// case, in their original order.  The empty query matches every name.
pub open spec fn matching(ps: Seq<ProjectView>, query: Seq<char>) -> Seq<ProjectView> {
    ps.filter(|p: ProjectView| ci_contains(p.name, query))
}

/// The projects of `ps` modified at time `t`, in their original order.
pub open spec fn with_stamp(ps: Seq<ProjectView>, t: u64) -> Seq<ProjectView> {
    ps.filter(|p: ProjectView| p.modified_at == t)
}

/// Most recently modified first.
pub open spec fn sorted_by_recency(ps: Seq<ProjectView>) -> bool {
    forall|i: int, j: int|
        0 <= i < j < ps.len() ==> #[trigger] ps[i].modified_at >= #[trigger] ps[j].modified_at
}

/// Relies on `iter_tools::Itertools::sorted_by`, a stable sort (it
/// collects into a vector and uses the standard `sort_by`): the result
/// is a permutation of the input that, with a comparator ordering
/// larger timestamps first, is sorted by descending modification time;
/// and for each timestamp the subsequence of projects carrying it is
/// exactly the input's — which is what stability means, and pins the
/// result completely.
#[verifier::external_body]
fn sort_by_recency(projects: Vec<Project>) -> (r: Vec<Project>)
    ensures
        sorted_by_recency(r.deep_view()),
        r.deep_view().to_multiset() == projects.deep_view().to_multiset(),
        forall|t: u64| #[trigger] with_stamp(r.deep_view(), t) == with_stamp(
            projects.deep_view(),
            t,
        ),
{
    projects.into_iter().sorted_by(|a, b| b.modified_at.cmp(&a.modified_at)).collect()
}

/// Selects the projects whose name contains `query` as a substring,
/// ignoring ASCII case (the empty query selects all), and orders them
/// by descending modification time; projects with equal timestamps
/// keep their relative order from the input.
///
/// The clauses pin the result: it holds exactly the matching input
/// projects, it is sorted by recency, and for every timestamp it
/// carries the matching input projects with that timestamp in input
/// order.
pub fn filter(projects: &Vec<Project>, query: &str) -> (r: Vec<Project>)
    ensures
        sorted_by_recency(r.deep_view()),
        r.deep_view().to_multiset() == matching(projects.deep_view(), query@).to_multiset(),
        forall|t: u64| #[trigger] with_stamp(r.deep_view(), t) == with_stamp(
            matching(projects.deep_view(), query@),
            t,
        ),
{
    let ghost all = projects.deep_view();
    let ghost pred = |p: ProjectView| ci_contains(p.name, query@);
    let mut selected: Vec<Project> = Vec::new();
    proof {
        assert(selected.deep_view() =~= Seq::<ProjectView>::empty());
        assert(all.take(0) =~= Seq::<ProjectView>::empty());
        assert(Seq::<ProjectView>::empty().filter(pred) =~= Seq::<ProjectView>::empty()) by {
            reveal(Seq::filter);
        }
    }
    let mut i: usize = 0;
    while i < projects.len()
        invariant
            i <= projects@.len(),
            all == projects.deep_view(),
            pred == (|p: ProjectView| ci_contains(p.name, query@)),
            selected.deep_view() == all.take(i as int).filter(pred),
        decreases projects@.len() - i,
    {
        let ghost prefix = all.take(i as int);
        let ghost selected_before = selected.deep_view();
        let p = &projects[i];
        if ci_contains_str(p.name().as_str(), query) {
            selected.push(p.clone());
            proof {
                assert(selected.deep_view() =~= selected_before.push(all[i as int]));
            }
        }
        proof {
            assert(all.take(i + 1) =~= prefix.push(all[i as int]));
            prefix.lemma_filter_push(all[i as int], pred);
        }
        i += 1;
    }
    proof {
        assert(all.take(all.len() as int) =~= all);
        assert(selected.deep_view() == matching(all, query@));
    }
    sort_by_recency(selected)
}

/// The empty query selects every project: `filter` with it returns all
/// input projects, ordered by descending modification time.
pub proof fn lemma_empty_query_matches_all(ps: Seq<ProjectView>, query: Seq<char>)
    requires
        query.len() == 0,
    ensures
        matching(ps, query) == ps,
{
    let pred = |p: ProjectView| ci_contains(p.name, query);
    assert forall|i: int| 0 <= i < ps.len() implies #[trigger] pred(ps[i]) by {
        lemma_ci_contains_empty(ps[i].name, query);
    }
    lemma_filter_all(ps, pred);
}

} // verus!
