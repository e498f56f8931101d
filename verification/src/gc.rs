//! The garbage collector: once every open proposal has been handled, the
//! persisted state and the on-disk mirrors converge to exactly what those
//! proposals still reference.
//!
//! The sweep has three independently tolerant passes. The run driver deletes
//! the mirrors named by `unmentioned` (logging failures, never escalating
//! them) and calls `State::remove_mentions_of` for each; `prune_unreferenced`
//! then drops the state entries implied only by the state itself. Each pass
//! is safe to re-run.

use vstd::prelude::*;
use crate::launchpad::MergeProposal;
use crate::launchpad::slugify;
use crate::launchpad::spec_slugify;
use crate::state::BranchEntry;
use crate::state::BranchEntryView;
use crate::state::BranchState;
use crate::state::MergeProposalState;
use crate::state::MergeProposalStateView;
use crate::state::State;
use crate::state::StateView;
use crate::state::lemma_filter_keeps_wf;
use crate::state::lemma_filter_membership;
use crate::state::lemma_filter_take_step;
use crate::text::names_of;
use crate::text::str_eq;

verus! {

/// Decides whether `v` holds a string equal to `x`.
pub fn vec_contains_str(v: &Vec<String>, x: &str) -> (r: bool)
    ensures
        r == names_of(v@).contains(x@),
{
    let n = v.len();
    let mut i: usize = 0;
    while i < n
        invariant
            i <= n,
            n == v@.len(),
            forall|k: int| 0 <= k < i ==> names_of(v@)[k] != x@,
        decreases n - i,
    {
        if str_eq(v[i].as_str(), x) {
            assert(names_of(v@)[i as int] == x@);
            return true;
        }
        i = i + 1;
    }
    assert(!names_of(v@).contains(x@));
    false
}

/// The slugs the open proposals reference: for each proposal, its target
/// branch's slug followed by its source branch's slug.
pub fn referenced_slugs(proposals: &Vec<MergeProposal>) -> (r: Vec<String>)
    ensures
        r@.len() == 2 * proposals@.len(),
        forall|k: int|
            0 <= k < proposals@.len() ==> names_of(r@)[2 * k] == (
            #[trigger] proposals@[k])@.target_branch.slug && names_of(r@)[2 * k + 1]
                == proposals@[k]@.source_branch.slug,
{
    let n = proposals.len();
    let mut r: Vec<String> = Vec::new();
    let mut i: usize = 0;
    while i < n
        invariant
            i <= n,
            n == proposals@.len(),
            r@.len() == 2 * i,
            forall|k: int|
                0 <= k < i ==> names_of(r@)[2 * k] == (#[trigger] proposals@[k])@.target_branch.slug
                    && names_of(r@)[2 * k + 1] == proposals@[k]@.source_branch.slug,
        decreases n - i,
    {
        r.push(proposals[i].target_branch.slug.clone());
        r.push(proposals[i].source_branch.slug.clone());
        i = i + 1;
    }
    r
}

/// The mirrors present on disk that no open proposal references: the
/// disk-driven pass's work list, in the order the mirrors were listed.
pub fn unmentioned(present: &Vec<String>, referenced: &Vec<String>) -> (r: Vec<String>)
    ensures
        names_of(r@) == names_of(present@).filter(
            |s: Seq<char>| !names_of(referenced@).contains(s),
        ),
{
    let n = present.len();
    let mut r: Vec<String> = Vec::new();
    let mut i: usize = 0;
    while i < n
        invariant
            i <= n,
            n == present@.len(),
            names_of(r@) == names_of(present@).take(i as int).filter(
                (|s: Seq<char>| !names_of(referenced@).contains(s)),
            ),
        decreases n - i,
    {
        let ghost before = names_of(r@);
        if !vec_contains_str(referenced, present[i].as_str()) {
            r.push(present[i].clone());
            proof {
                assert(names_of(r@) =~= before.push(names_of(present@)[i as int]));
            }
        }
        proof {
            lemma_filter_take_step(
                names_of(present@),
                (|s: Seq<char>| !names_of(referenced@).contains(s)),
                i as int,
            );
        }
        i = i + 1;
    }
    proof {
        assert(names_of(present@).take(n as int) =~= names_of(present@));
    }
    r
}

/// Keep a branch entry iff an open proposal references its slug.
pub open spec fn branch_referenced(refs: Seq<Seq<char>>) -> spec_fn(BranchEntryView) -> bool {
    |e: BranchEntryView| refs.contains(spec_slugify(e.name))
}

/// Keep a watermark record iff open proposals reference both branches of its
/// (source, target) key; a record with either slug stale is an orphan.
pub open spec fn mps_referenced(refs: Seq<Seq<char>>) -> spec_fn(MergeProposalStateView) -> bool {
    |m: MergeProposalStateView| refs.contains(spec_slugify(m.source_branch)) && refs.contains(
        spec_slugify(m.target_branch),
    )
}

/// The drift-recovery pass: drops every branch entry whose slug no open
/// proposal references and every watermark record with a stale slug on
/// either side of its (source, target) key — whether or not a mirror for it
/// was ever on disk — and keeps the rest unchanged.
pub fn prune_unreferenced(state: &mut State, referenced: &Vec<String>)
    requires
        old(state).wf(),
    ensures
        final(state).wf(),
        final(state)@.branches == old(state)@.branches.filter(
            branch_referenced(names_of(referenced@)),
        ),
        final(state)@.merge_proposals == old(state)@.merge_proposals.filter(
            mps_referenced(names_of(referenced@)),
        ),
{
    let ghost old_view = state@;
    let ghost refs = names_of(referenced@);
    let mut kept_branches: Vec<BranchEntry> = Vec::new();
    let bn = state.branches.len();
    let mut j: usize = 0;
    while j < bn
        invariant
            j <= bn,
            bn == state.branches@.len(),
            state@ == old_view,
            refs == names_of(referenced@),
            kept_branches@.map_values(|b: BranchEntry| b@) == old_view.branches.take(
                j as int,
            ).filter(branch_referenced(refs)),
        decreases bn - j,
    {
        let b = &state.branches[j];
        let name_slug = slugify(b.name.as_str());
        let ghost before = kept_branches@.map_values(|b: BranchEntry| b@);
        if vec_contains_str(referenced, name_slug.as_str()) {
            kept_branches.push(
                BranchEntry {
                    name: b.name.clone(),
                    branch_state: BranchState {
                        appveyor_state: b.branch_state.appveyor_state.duplicate(),
                        travis_state: b.branch_state.travis_state.duplicate(),
                    },
                },
            );
            proof {
                assert(kept_branches@.map_values(|b: BranchEntry| b@) =~= before.push(
                    old_view.branches[j as int],
                ));
            }
        }
        proof {
            lemma_filter_take_step(old_view.branches, branch_referenced(refs), j as int);
        }
        j = j + 1;
    }
    proof {
        assert(old_view.branches.take(bn as int) =~= old_view.branches);
    }

    let mut kept_mps: Vec<MergeProposalState> = Vec::new();
    let n = state.merge_proposals.len();
    let mut i: usize = 0;
    while i < n
        invariant
            i <= n,
            n == state.merge_proposals@.len(),
            state@.merge_proposals == old_view.merge_proposals,
            refs == names_of(referenced@),
            kept_mps@.map_values(|m: MergeProposalState| m@) == old_view.merge_proposals.take(
                i as int,
            ).filter(mps_referenced(refs)),
        decreases n - i,
    {
        let m = &state.merge_proposals[i];
        let source_slug = slugify(m.source_branch.as_str());
        let target_slug = slugify(m.target_branch.as_str());
        let ghost before = kept_mps@.map_values(|m: MergeProposalState| m@);
        if vec_contains_str(referenced, source_slug.as_str()) && vec_contains_str(
            referenced,
            target_slug.as_str(),
        ) {
            kept_mps.push(
                MergeProposalState {
                    num_comments: m.num_comments,
                    source_branch: m.source_branch.clone(),
                    target_branch: m.target_branch.clone(),
                },
            );
            proof {
                assert(kept_mps@.map_values(|m: MergeProposalState| m@) =~= before.push(
                    old_view.merge_proposals[i as int],
                ));
            }
        }
        proof {
            lemma_filter_take_step(old_view.merge_proposals, mps_referenced(refs), i as int);
        }
        i = i + 1;
    }
    proof {
        assert(old_view.merge_proposals.take(n as int) =~= old_view.merge_proposals);
    }
    state.branches = kept_branches;
    state.merge_proposals = kept_mps;
    proof {
        lemma_filter_keeps_wf(old_view.branches, branch_referenced(refs));
    }
}

/// GC convergence: after the pruning pass, an entry survives exactly when
/// the open proposals reference its slug — for a watermark record, the slugs
/// of both branches of its (source, target) key — so every stale entry is
/// gone, every live entry is kept as it was, and nothing new appears.
pub proof fn lemma_gc_convergence(s: StateView, refs: Seq<Seq<char>>)
    ensures
        forall|i: int|
            0 <= i < s.branches.filter(branch_referenced(refs)).len() ==> refs.contains(
                spec_slugify((#[trigger] s.branches.filter(branch_referenced(refs))[i]).name),
            ),
        forall|i: int|
            0 <= i < s.branches.len() && refs.contains(
                spec_slugify((#[trigger] s.branches[i]).name),
            ) ==> s.branches.filter(branch_referenced(refs)).contains(s.branches[i]),
        forall|i: int|
            0 <= i < s.branches.filter(branch_referenced(refs)).len() ==> s.branches.contains(
                #[trigger] s.branches.filter(branch_referenced(refs))[i],
            ),
        forall|i: int|
            0 <= i < s.merge_proposals.filter(mps_referenced(refs)).len() ==> refs.contains(
                spec_slugify(
                    (#[trigger] s.merge_proposals.filter(mps_referenced(refs))[i]).source_branch,
                ),
            ) && refs.contains(
                spec_slugify(s.merge_proposals.filter(mps_referenced(refs))[i].target_branch),
            ),
        forall|i: int|
            0 <= i < s.merge_proposals.len() && refs.contains(
                spec_slugify((#[trigger] s.merge_proposals[i]).source_branch),
            ) && refs.contains(spec_slugify(s.merge_proposals[i].target_branch))
                ==> s.merge_proposals.filter(mps_referenced(refs)).contains(s.merge_proposals[i]),
        forall|i: int|
            0 <= i < s.merge_proposals.filter(mps_referenced(refs)).len() ==> s.merge_proposals.contains(
                #[trigger] s.merge_proposals.filter(mps_referenced(refs))[i],
            ),
{
    broadcast use vstd::seq_lib::group_filter_ensures;

    assert forall|i: int|
        0 <= i < s.branches.filter(branch_referenced(refs)).len() implies s.branches.contains(
        #[trigger] s.branches.filter(branch_referenced(refs))[i],
    ) by {
        lemma_filter_membership(s.branches, branch_referenced(refs), i);
        let j = choose|j: int|
            0 <= j < s.branches.len() && s.branches[j] == s.branches.filter(
                branch_referenced(refs),
            )[i];
        assert(s.branches[j] == s.branches.filter(branch_referenced(refs))[i]);
    }
    assert forall|i: int|
        0 <= i < s.merge_proposals.filter(mps_referenced(refs)).len() implies s.merge_proposals.contains(
        #[trigger] s.merge_proposals.filter(mps_referenced(refs))[i],
    ) by {
        lemma_filter_membership(s.merge_proposals, mps_referenced(refs), i);
        let j = choose|j: int|
            0 <= j < s.merge_proposals.len() && s.merge_proposals[j] == s.merge_proposals.filter(
                mps_referenced(refs),
            )[i];
        assert(s.merge_proposals[j] == s.merge_proposals.filter(mps_referenced(refs))[i]);
    }
}

} // verus!
