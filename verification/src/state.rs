//! The persisted state: last-seen CI states per branch and a comment-count
//! watermark per merge proposal.

use vstd::prelude::*;
use crate::launchpad::CiState;
use crate::launchpad::CiStateView;
use crate::launchpad::MergeProposal;
use crate::launchpad::spec_slugify;

verus! {

/// The last-seen CI states for one branch.
#[derive(Debug)]
pub struct BranchState {
    pub appveyor_state: CiState,
    pub travis_state: CiState,
}

#[verifier::ext_equal]
pub struct BranchStateView {
    pub appveyor_state: CiStateView,
    pub travis_state: CiStateView,
}

impl View for BranchState {
    type V = BranchStateView;

    open spec fn view(&self) -> BranchStateView {
        BranchStateView { appveyor_state: self.appveyor_state@, travis_state: self.travis_state@ }
    }
}

/// The branch state recorded before any CI report has been seen.
pub open spec fn empty_branch_state() -> BranchStateView {
    BranchStateView {
        appveyor_state: CiStateView {
            state: Seq::empty(),
            id: Seq::empty(),
            number: Seq::empty(),
        },
        travis_state: CiStateView { state: Seq::empty(), id: Seq::empty(), number: Seq::empty() },
    }
}

impl Default for BranchState {
    fn default() -> (r: Self)
        ensures
            r@ == empty_branch_state(),
    {
        let r = BranchState { appveyor_state: CiState::default(), travis_state: CiState::default() };
        proof {
            assert(r@.appveyor_state.state =~= Seq::<char>::empty());
            assert(r@.appveyor_state.id =~= Seq::<char>::empty());
            assert(r@.appveyor_state.number =~= Seq::<char>::empty());
            assert(r@.travis_state.state =~= Seq::<char>::empty());
            assert(r@.travis_state.id =~= Seq::<char>::empty());
            assert(r@.travis_state.number =~= Seq::<char>::empty());
        }
        r
    }
}

/// One branch's persisted entry, keyed by its unique name.
#[derive(Debug)]
pub struct BranchEntry {
    pub name: String,
    pub branch_state: BranchState,
}

#[verifier::ext_equal]
pub struct BranchEntryView {
    pub name: Seq<char>,
    pub branch_state: BranchStateView,
}

impl View for BranchEntry {
    type V = BranchEntryView;

    open spec fn view(&self) -> BranchEntryView {
        BranchEntryView { name: self.name@, branch_state: self.branch_state@ }
    }
}

/// Persisted per-proposal progress: the comment-count watermark, keyed by the
/// source and target branch names.
#[derive(Debug)]
pub struct MergeProposalState {
    pub num_comments: usize,
    pub source_branch: String,
    pub target_branch: String,
}

#[verifier::ext_equal]
pub struct MergeProposalStateView {
    pub num_comments: int,
    pub source_branch: Seq<char>,
    pub target_branch: Seq<char>,
}

impl View for MergeProposalState {
    type V = MergeProposalStateView;

    open spec fn view(&self) -> MergeProposalStateView {
        MergeProposalStateView {
            num_comments: self.num_comments as int,
            source_branch: self.source_branch@,
            target_branch: self.target_branch@,
        }
    }
}

/// The persisted aggregate.
#[derive(Debug)]
pub struct State {
    pub branches: Vec<BranchEntry>,
    pub merge_proposals: Vec<MergeProposalState>,
}

#[verifier::ext_equal]
pub struct StateView {
    pub branches: Seq<BranchEntryView>,
    pub merge_proposals: Seq<MergeProposalStateView>,
}

impl View for State {
    type V = StateView;

    open spec fn view(&self) -> StateView {
        StateView {
            branches: self.branches@.map_values(|b: BranchEntry| b@),
            merge_proposals: self.merge_proposals@.map_values(|m: MergeProposalState| m@),
        }
    }
}

/// Branch entries are keyed uniquely: no two entries share a name.
pub open spec fn wf_branches(branches: Seq<BranchEntryView>) -> bool {
    forall|i: int, j: int|
        0 <= i < j < branches.len() ==> (#[trigger] branches[i]).name != (#[trigger] branches[j]).name
}

pub open spec fn wf_state(s: StateView) -> bool {
    wf_branches(s.branches)
}

/// There is an entry for `name`.
pub open spec fn spec_has_branch(s: StateView, name: Seq<char>) -> bool {
    exists|i: int| 0 <= i < s.branches.len() && (#[trigger] s.branches[i]).name == name
}

/// The stored branch state for `name`: the entry's state when one exists, the
/// empty state otherwise.
pub open spec fn spec_branch_state_of(s: StateView, name: Seq<char>) -> BranchStateView {
    if spec_has_branch(s, name) {
        let i = choose|i: int| 0 <= i < s.branches.len() && (#[trigger] s.branches[i]).name == name;
        s.branches[i].branch_state
    } else {
        empty_branch_state()
    }
}

/// The stored state labels differ from the fresh ones — the condition on
/// which a status-change notification is owed.
pub open spec fn spec_ci_differs(
    s: StateView,
    name: Seq<char>,
    travis: CiStateView,
    appveyor: CiStateView,
) -> bool {
    let stored = spec_branch_state_of(s, name);
    stored.travis_state.state != travis.state || stored.appveyor_state.state != appveyor.state
}

/// The state after recording fresh CI states for `name`: the entry is
/// overwritten in place, or appended on first sight.
pub open spec fn spec_apply_ci(
    s: StateView,
    name: Seq<char>,
    travis: CiStateView,
    appveyor: CiStateView,
) -> StateView {
    let entry = BranchEntryView {
        name: name,
        branch_state: BranchStateView { appveyor_state: appveyor, travis_state: travis },
    };
    if spec_has_branch(s, name) {
        let i = choose|i: int| 0 <= i < s.branches.len() && (#[trigger] s.branches[i]).name == name;
        StateView { branches: s.branches.update(i, entry), merge_proposals: s.merge_proposals }
    } else {
        StateView { branches: s.branches.push(entry), merge_proposals: s.merge_proposals }
    }
}

pub open spec fn spec_mps_matches(
    m: MergeProposalStateView,
    source: Seq<char>,
    target: Seq<char>,
) -> bool {
    m.source_branch == source && m.target_branch == target
}

pub open spec fn spec_has_mps(s: StateView, source: Seq<char>, target: Seq<char>) -> bool {
    exists|i: int|
        0 <= i < s.merge_proposals.len() && spec_mps_matches(#[trigger] s.merge_proposals[i], source, target)
}

/// Where comment scanning resumes: at the stored watermark, unless the thread
/// shrank below it — then the thread was reopened and scanning restarts at 0.
pub open spec fn spec_watermark_start(stored: int, observed: int) -> int {
    if stored <= observed {
        stored
    } else {
        0
    }
}

/// After fresh CI states are recorded for `name`, looking the branch up
/// yields exactly those fresh states.
pub proof fn lemma_apply_ci_lookup(
    s: StateView,
    name: Seq<char>,
    travis: CiStateView,
    appveyor: CiStateView,
)
    requires
        wf_state(s),
    ensures
        spec_branch_state_of(spec_apply_ci(s, name, travis, appveyor), name) == (BranchStateView {
            appveyor_state: appveyor,
            travis_state: travis,
        }),
{
    let s1 = spec_apply_ci(s, name, travis, appveyor);
    let entry = BranchEntryView {
        name: name,
        branch_state: BranchStateView { appveyor_state: appveyor, travis_state: travis },
    };
    if spec_has_branch(s, name) {
        let i = choose|i: int| 0 <= i < s.branches.len() && (#[trigger] s.branches[i]).name == name;
        assert(s1.branches == s.branches.update(i, entry));
        assert(s1.branches[i] == entry);
        assert(spec_has_branch(s1, name));
        let w = choose|w: int|
            0 <= w < s1.branches.len() && (#[trigger] s1.branches[w]).name == name;
        if w != i {
            assert(s1.branches[w] == s.branches[w]);
            assert(s.branches[w].name == name);
            if w < i {
                assert(s.branches[w].name != s.branches[i].name);
            } else {
                assert(s.branches[i].name != s.branches[w].name);
            }
            assert(false);
        }
    } else {
        let n = s.branches.len() as int;
        assert(s1.branches == s.branches.push(entry));
        assert(s1.branches[n] == entry);
        assert(spec_has_branch(s1, name));
        let w = choose|w: int|
            0 <= w < s1.branches.len() && (#[trigger] s1.branches[w]).name == name;
        if w != n {
            assert(s1.branches[w] == s.branches[w]);
            assert(spec_has_branch(s, name));
            assert(false);
        }
    }
}

/// Keep a branch entry iff its name does not slugify to `slug`.
pub open spec fn branch_keep(slug: Seq<char>) -> spec_fn(BranchEntryView) -> bool {
    |e: BranchEntryView| spec_slugify(e.name) != slug
}

/// Keep a watermark record iff neither branch of its (source, target) key
/// slugifies to `slug`.
pub open spec fn mps_keep(slug: Seq<char>) -> spec_fn(MergeProposalStateView) -> bool {
    |m: MergeProposalStateView| spec_slugify(m.source_branch) != slug && spec_slugify(
        m.target_branch,
    ) != slug
}

pub proof fn lemma_filter_singleton<A>(x: A, pred: spec_fn(A) -> bool)
    ensures
        seq![x].filter(pred) == if pred(x) {
            seq![x]
        } else {
            Seq::<A>::empty()
        },
{
    reveal_with_fuel(Seq::filter, 2);
    assert(seq![x].drop_last() =~= Seq::<A>::empty());
}

/// Extending the filtered prefix by one element.
pub proof fn lemma_filter_take_step<A>(s: Seq<A>, pred: spec_fn(A) -> bool, i: int)
    requires
        0 <= i < s.len(),
    ensures
        s.take(i + 1).filter(pred) == if pred(s[i]) {
            s.take(i).filter(pred).push(s[i])
        } else {
            s.take(i).filter(pred)
        },
{
    assert(s.take(i + 1) =~= s.take(i) + seq![s[i]]);
    Seq::<A>::filter_distributes_over_add(s.take(i), seq![s[i]], pred);
    lemma_filter_singleton(s[i], pred);
    if pred(s[i]) {
        assert(s.take(i).filter(pred) + seq![s[i]] =~= s.take(i).filter(pred).push(s[i]));
    } else {
        assert(s.take(i).filter(pred) + Seq::<A>::empty() =~= s.take(i).filter(pred));
    }
}

/// Every element of a filtered sequence occurs in the unfiltered one.
pub proof fn lemma_filter_membership<A>(s: Seq<A>, pred: spec_fn(A) -> bool, a: int)
    requires
        0 <= a < s.filter(pred).len(),
    ensures
        exists|j: int| 0 <= j < s.len() && s[j] == s.filter(pred)[a],
    decreases s.len(),
{
    reveal(Seq::filter);
    if s.len() == 0 {
    } else {
        let l = s.drop_last();
        if pred(s.last()) {
            if a < l.filter(pred).len() {
                lemma_filter_membership(l, pred, a);
                let j = choose|j: int| 0 <= j < l.len() && l[j] == l.filter(pred)[a];
                assert(s[j] == s.filter(pred)[a]);
            } else {
                assert(s[s.len() - 1] == s.filter(pred)[a]);
            }
        } else {
            lemma_filter_membership(l, pred, a);
            let j = choose|j: int| 0 <= j < l.len() && l[j] == l.filter(pred)[a];
            assert(s[j] == s.filter(pred)[a]);
        }
    }
}

/// Filtering keeps branch names pairwise distinct.
pub proof fn lemma_filter_keeps_wf(s: Seq<BranchEntryView>, pred: spec_fn(BranchEntryView) -> bool)
    requires
        wf_branches(s),
    ensures
        wf_branches(s.filter(pred)),
    decreases s.len(),
{
    reveal(Seq::filter);
    if s.len() == 0 {
    } else {
        let l = s.drop_last();
        assert(wf_branches(l)) by {
            assert(forall|i: int| 0 <= i < l.len() ==> l[i] == s[i]);
        }
        lemma_filter_keeps_wf(l, pred);
        if pred(s.last()) {
            let out = s.filter(pred);
            assert(out == l.filter(pred).push(s.last()));
            assert forall|a: int, b: int|
                0 <= a < b < out.len() implies (#[trigger] out[a]).name != (#[trigger] out[b]).name by {
                if b < out.len() - 1 {
                    assert(l.filter(pred)[a] == out[a]);
                    assert(l.filter(pred)[b] == out[b]);
                } else {
                    lemma_filter_membership(l, pred, a);
                    let j = choose|j: int| 0 <= j < l.len() && l[j] == l.filter(pred)[a];
                    assert(s[j].name != s[s.len() - 1].name);
                    assert(out[a] == l[j]);
                    assert(out[b] == s.last());
                }
            }
        }
    }
}

impl CiState {
    /// An exact copy; spelled out so that its contract is known.
    pub fn duplicate(&self) -> (r: CiState)
        ensures
            r@ == self@,
    {
        CiState { state: self.state.clone(), id: self.id.clone(), number: self.number.clone() }
    }
}

impl State {
    pub open spec fn wf(&self) -> bool {
        wf_state(self@)
    }

    pub fn new() -> (r: State)
        ensures
            r@.branches.len() == 0,
            r@.merge_proposals.len() == 0,
            r.wf(),
    {
        let r = State { branches: Vec::new(), merge_proposals: Vec::new() };
        proof {
            assert(r@.branches =~= Seq::<BranchEntryView>::empty());
            assert(r@.merge_proposals =~= Seq::<MergeProposalStateView>::empty());
        }
        r
    }

    /// An exact copy, taken by the run driver before a proposal is handled so
    /// that a failing proposal can be rolled back.
    pub fn duplicate(&self) -> (r: State)
        ensures
            r@ == self@,
    {
        let mut branches: Vec<BranchEntry> = Vec::new();
        let mut i: usize = 0;
        let n = self.branches.len();
        while i < n
            invariant
                i <= n,
                n == self.branches@.len(),
                branches@.len() == i,
                forall|k: int| 0 <= k < i ==> (#[trigger] branches@[k])@ == self.branches@[k]@,
            decreases n - i,
        {
            let b = &self.branches[i];
            branches.push(
                BranchEntry {
                    name: b.name.clone(),
                    branch_state: BranchState {
                        appveyor_state: b.branch_state.appveyor_state.duplicate(),
                        travis_state: b.branch_state.travis_state.duplicate(),
                    },
                },
            );
            i = i + 1;
        }
        let mut merge_proposals: Vec<MergeProposalState> = Vec::new();
        let mut j: usize = 0;
        let m = self.merge_proposals.len();
        while j < m
            invariant
                j <= m,
                m == self.merge_proposals@.len(),
                merge_proposals@.len() == j,
                forall|k: int|
                    0 <= k < j ==> (#[trigger] merge_proposals@[k])@ == self.merge_proposals@[k]@,
            decreases m - j,
        {
            let p = &self.merge_proposals[j];
            merge_proposals.push(
                MergeProposalState {
                    num_comments: p.num_comments,
                    source_branch: p.source_branch.clone(),
                    target_branch: p.target_branch.clone(),
                },
            );
            j = j + 1;
        }
        let r = State { branches, merge_proposals };
        proof {
            assert(r@.branches =~= self@.branches);
            assert(r@.merge_proposals =~= self@.merge_proposals);
        }
        r
    }

    /// Records the fresh CI states for `name`, creating the entry on first
    /// sight, and reports whether the state labels changed against what was
    /// stored.
    pub fn apply_fresh_ci(&mut self, name: &String, travis: &CiState, appveyor: &CiState) -> (changed:
        bool)
        requires
            old(self).wf(),
        ensures
            final(self).wf(),
            changed == spec_ci_differs(old(self)@, name@, travis@, appveyor@),
            final(self)@ == spec_apply_ci(old(self)@, name@, travis@, appveyor@),
    {
        let n = self.branches.len();
        let mut i: usize = 0;
        while i < n
            invariant
                i <= n,
                n == self.branches@.len(),
                self@ == old(self)@,
                wf_state(self@),
                forall|k: int| 0 <= k < i ==> (#[trigger] self@.branches[k]).name != name@,
            decreases n - i,
        {
            if self.branches[i].name == *name {
                assert(self@.branches[i as int].name == name@);
                assert(spec_has_branch(self@, name@));
                proof {
                    let w = choose|w: int|
                        0 <= w < self@.branches.len() && (#[trigger] self@.branches[w]).name
                            == name@;
                    assert(wf_branches(self@.branches));
                    if w < i {
                        assert(self@.branches[w].name != name@);
                        assert(false);
                    }
                    if i < w {
                        assert(self@.branches[i as int].name != self@.branches[w].name);
                        assert(false);
                    }
                    assert(w == i);
                }
                let same_travis = self.branches[i].branch_state.travis_state.state
                    == travis.state;
                let same_appveyor = self.branches[i].branch_state.appveyor_state.state
                    == appveyor.state;
                let entry = BranchEntry {
                    name: name.clone(),
                    branch_state: BranchState {
                        appveyor_state: appveyor.duplicate(),
                        travis_state: travis.duplicate(),
                    },
                };
                let ghost old_view = self@;
                self.branches[i] = entry;
                proof {
                    assert(self@.branches =~= old_view.branches.update(
                        i as int,
                        BranchEntryView {
                            name: name@,
                            branch_state: BranchStateView {
                                appveyor_state: appveyor@,
                                travis_state: travis@,
                            },
                        },
                    ));
                    assert(self@ =~= spec_apply_ci(old_view, name@, travis@, appveyor@));
                    assert forall|a: int, b: int|
                        0 <= a < b < self@.branches.len() implies (#[trigger] self@.branches[a]).name
                        != (#[trigger] self@.branches[b]).name by {
                        assert(wf_branches(old_view.branches));
                        assert(old_view.branches[a].name != old_view.branches[b].name);
                        assert(self@.branches[a].name == old_view.branches[a].name);
                        assert(self@.branches[b].name == old_view.branches[b].name);
                    }
                }
                return !(same_travis && same_appveyor);
            }
            i = i + 1;
        }
        assert(!spec_has_branch(self@, name@));
        let entry = BranchEntry {
            name: name.clone(),
            branch_state: BranchState {
                appveyor_state: appveyor.duplicate(),
                travis_state: travis.duplicate(),
            },
        };
        let ghost old_view = self@;
        let changed = !(travis.state.as_str().is_empty() && appveyor.state.as_str().is_empty());
        self.branches.push(entry);
        proof {
            assert(self@.branches =~= old_view.branches.push(
                BranchEntryView {
                    name: name@,
                    branch_state: BranchStateView {
                        appveyor_state: appveyor@,
                        travis_state: travis@,
                    },
                },
            ));
            assert(self@ =~= spec_apply_ci(old_view, name@, travis@, appveyor@));
            assert(spec_branch_state_of(old_view, name@) == empty_branch_state());
            assert(changed == spec_ci_differs(old_view, name@, travis@, appveyor@)) by {
                if travis@.state.len() == 0 {
                    assert(travis@.state =~= Seq::<char>::empty());
                }
                if appveyor@.state.len() == 0 {
                    assert(appveyor@.state =~= Seq::<char>::empty());
                }
            }
            assert forall|a: int, b: int|
                0 <= a < b < self@.branches.len() implies (#[trigger] self@.branches[a]).name
                != (#[trigger] self@.branches[b]).name by {
                if b < self@.branches.len() - 1 {
                    assert(old_view.branches[a].name != old_view.branches[b].name);
                } else {
                    assert(old_view.branches[a].name != name@);
                }
            }
        }
        changed
    }

    /// The index of the stored watermark record for the proposal's
    /// (source, target) pair, inserting a zero-watermark record when none
    /// exists yet.
    pub fn find_or_insert_merge_proposal_state(&mut self, mp: &MergeProposal) -> (i: usize)
        ensures
            i < final(self)@.merge_proposals.len(),
            spec_mps_matches(
                final(self)@.merge_proposals[i as int],
                mp@.source_branch.unique_name,
                mp@.target_branch.unique_name,
            ),
            forall|j: int|
                0 <= j < i ==> !spec_mps_matches(
                    #[trigger] final(self)@.merge_proposals[j],
                    mp@.source_branch.unique_name,
                    mp@.target_branch.unique_name,
                ),
            final(self)@.branches == old(self)@.branches,
            spec_has_mps(old(self)@, mp@.source_branch.unique_name, mp@.target_branch.unique_name)
                ==> final(self)@.merge_proposals == old(self)@.merge_proposals,
            !spec_has_mps(old(self)@, mp@.source_branch.unique_name, mp@.target_branch.unique_name)
                ==> final(self)@.merge_proposals == old(self)@.merge_proposals.push(
                MergeProposalStateView {
                    num_comments: 0,
                    source_branch: mp@.source_branch.unique_name,
                    target_branch: mp@.target_branch.unique_name,
                },
            ),
    {
        let n = self.merge_proposals.len();
        let mut i: usize = 0;
        while i < n
            invariant
                i <= n,
                n == self.merge_proposals@.len(),
                forall|j: int|
                    0 <= j < i ==> !spec_mps_matches(
                        #[trigger] self@.merge_proposals[j],
                        mp@.source_branch.unique_name,
                        mp@.target_branch.unique_name,
                    ),
            decreases n - i,
        {
            if self.merge_proposals[i].source_branch == mp.source_branch.unique_name
                && self.merge_proposals[i].target_branch == mp.target_branch.unique_name {
                return i;
            }
            i = i + 1;
        }
        assert(!spec_has_mps(self@, mp@.source_branch.unique_name, mp@.target_branch.unique_name));
        let ghost old_view = self@;
        self.merge_proposals.push(
            MergeProposalState {
                num_comments: 0,
                source_branch: mp.source_branch.unique_name.clone(),
                target_branch: mp.target_branch.unique_name.clone(),
            },
        );
        proof {
            assert(self@.merge_proposals =~= old_view.merge_proposals.push(
                MergeProposalStateView {
                    num_comments: 0,
                    source_branch: mp@.source_branch.unique_name,
                    target_branch: mp@.target_branch.unique_name,
                },
            ));
        }
        n
    }

    /// Moves the watermark of record `i` to the observed comment count and
    /// reports where scanning starts: at the old watermark, or at 0 when the
    /// thread shrank below it.
    pub fn advance_watermark(&mut self, i: usize, observed: usize) -> (start: usize)
        requires
            i < old(self)@.merge_proposals.len(),
        ensures
            start as int == spec_watermark_start(
                old(self)@.merge_proposals[i as int].num_comments,
                observed as int,
            ),
            start <= observed,
            final(self)@.merge_proposals == old(self)@.merge_proposals.update(
                i as int,
                MergeProposalStateView {
                    num_comments: observed as int,
                    source_branch: old(self)@.merge_proposals[i as int].source_branch,
                    target_branch: old(self)@.merge_proposals[i as int].target_branch,
                },
            ),
            final(self)@.branches == old(self)@.branches,
    {
        let stored = self.merge_proposals[i].num_comments;
        let start = if stored <= observed {
            stored
        } else {
            0
        };
        let ghost old_view = self@;
        self.merge_proposals[i].num_comments = observed;
        proof {
            assert(self@.merge_proposals =~= old_view.merge_proposals.update(
                i as int,
                MergeProposalStateView {
                    num_comments: observed as int,
                    source_branch: old_view.merge_proposals[i as int].source_branch,
                    target_branch: old_view.merge_proposals[i as int].target_branch,
                },
            ));
            assert(self@.branches =~= old_view.branches);
        }
        start
    }

    /// Purges every branch entry whose name slugifies to `slug` and every
    /// watermark record either branch of whose (source, target) key does:
    /// the garbage collector's state-pruning step for one slug, leaving no
    /// entry that still references it.
    pub fn remove_mentions_of(&mut self, slug: &str)
        requires
            old(self).wf(),
        ensures
            final(self).wf(),
            final(self)@.branches == old(self)@.branches.filter(branch_keep(slug@)),
            final(self)@.merge_proposals == old(self)@.merge_proposals.filter(mps_keep(slug@)),
    {
        let ghost old_view = self@;
        let mut kept_mps: Vec<MergeProposalState> = Vec::new();
        let n = self.merge_proposals.len();
        let mut i: usize = 0;
        while i < n
            invariant
                i <= n,
                n == self.merge_proposals@.len(),
                self@ == old_view,
                kept_mps@.map_values(|m: MergeProposalState| m@) == old_view.merge_proposals.take(
                    i as int,
                ).filter(mps_keep(slug@)),
            decreases n - i,
        {
            let m = &self.merge_proposals[i];
            let source_slug = crate::launchpad::slugify(m.source_branch.as_str());
            let target_slug = crate::launchpad::slugify(m.target_branch.as_str());
            let ghost before = kept_mps@.map_values(|m: MergeProposalState| m@);
            if !crate::text::str_eq(source_slug.as_str(), slug) && !crate::text::str_eq(
                target_slug.as_str(),
                slug,
            ) {
                kept_mps.push(
                    MergeProposalState {
                        num_comments: m.num_comments,
                        source_branch: m.source_branch.clone(),
                        target_branch: m.target_branch.clone(),
                    },
                );
                proof {
                    assert(kept_mps@.map_values(|m: MergeProposalState| m@) =~= before.push(
                        old_view.merge_proposals[i as int],
                    ));
                }
            }
            proof {
                lemma_filter_take_step(old_view.merge_proposals, mps_keep(slug@), i as int);
            }
            i = i + 1;
        }
        proof {
            assert(old_view.merge_proposals.take(n as int) =~= old_view.merge_proposals);
        }
        self.merge_proposals = kept_mps;

        let mut kept_branches: Vec<BranchEntry> = Vec::new();
        let bn = self.branches.len();
        let mut j: usize = 0;
        while j < bn
            invariant
                j <= bn,
                bn == self.branches@.len(),
                self@.branches == old_view.branches,
                kept_branches@.map_values(|b: BranchEntry| b@) == old_view.branches.take(
                    j as int,
                ).filter(branch_keep(slug@)),
            decreases bn - j,
        {
            let b = &self.branches[j];
            let name_slug = crate::launchpad::slugify(b.name.as_str());
            let ghost before = kept_branches@.map_values(|b: BranchEntry| b@);
            if !crate::text::str_eq(name_slug.as_str(), slug) {
                kept_branches.push(
                    BranchEntry {
                        name: b.name.clone(),
                        branch_state: BranchState {
                            appveyor_state: b.branch_state.appveyor_state.duplicate(),
                            travis_state: b.branch_state.travis_state.duplicate(),
                        },
                    },
                );
                proof {
                    assert(kept_branches@.map_values(|b: BranchEntry| b@) =~= before.push(
                        old_view.branches[j as int],
                    ));
                }
            }
            proof {
                lemma_filter_take_step(old_view.branches, branch_keep(slug@), j as int);
            }
            j = j + 1;
        }
        proof {
            assert(old_view.branches.take(bn as int) =~= old_view.branches);
        }
        self.branches = kept_branches;
        proof {
            lemma_filter_keeps_wf(old_view.branches, branch_keep(slug@));
        }
    }
}

} // verus!
