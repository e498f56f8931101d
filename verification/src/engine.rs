//! The reconciliation engine: the per-proposal decision sequence.
//!
//! For one open proposal and one poll cycle, the engine decides — from the
//! persisted state and the freshly observed collaborator reports — whether to
//! propagate the mirror, whether to look at CI at all, whether a
//! status-change notification is owed, which comment range to scan, and
//! whether to merge, refuse, or report a merge failure.
//!
//! The run driver interleaves the real collaborator calls with the staged
//! decision functions below, in the order the step numbers give.
//! `reconcile_proposal` composes the same steps over up-front observations
//! and carries the complete contract, `spec_reconcile`; the proof functions
//! at the end state the engine's laws over that contract.

use vstd::prelude::*;
use crate::commands::MergeCommand;
use crate::commands::find_first_command;
use crate::commands::spec_command_of;
use crate::errors::Error;
use crate::errors::ErrorView;
use crate::errors::spec_describe;
use crate::launchpad::CiState;
use crate::launchpad::CiStateView;
use crate::launchpad::MergeProposal;
use crate::launchpad::MergeProposalView;
use crate::launchpad::spec_is_transitional;
use crate::messages::build_ci_state_update;
use crate::messages::build_error_report_comment;
use crate::messages::build_refuse_merge_comment;
use crate::messages::spec_ci_state_update;
use crate::messages::spec_error_report_comment;
use crate::messages::spec_refuse_merge_comment;
use crate::state::BranchStateView;
use crate::state::MergeProposalStateView;
use crate::state::State;
use crate::state::StateView;
use crate::state::spec_apply_ci;
use crate::state::spec_branch_state_of;
use crate::state::spec_ci_differs;
use crate::state::spec_has_mps;
use crate::state::spec_mps_matches;
use crate::state::spec_watermark_start;
use crate::state::wf_state;
use crate::text::str_eq;

verus! {

/// Step 1: what to do right after the primary mirror update. The secondary
/// mirror is propagated when the mirror changed or the always-resync flag is
/// set; when the mirror changed, a build for the new revision is already in
/// flight, so the rest of the cycle is skipped for this proposal.
pub struct MirrorDecision {
    pub sync_secondary: bool,
    pub stop: bool,
}

pub fn mirror_decision(was_updated: bool, always_update: bool) -> (d: MirrorDecision)
    ensures
        d.sync_secondary == (always_update || was_updated),
        d.stop == was_updated,
{
    MirrorDecision { sync_secondary: always_update || was_updated, stop: was_updated }
}

/// Step 7: whether a command leads to a merge attempt. A forced command
/// merges unconditionally; a plain command merges only when the gating
/// provider reports exactly "passed", and is refused otherwise.
pub fn command_attempts_merge(cmd: MergeCommand, travis: &CiState) -> (r: bool)
    ensures
        r == (cmd is Forced || travis@.state == "passed"@),
{
    match cmd {
        MergeCommand::Forced => true,
        MergeCommand::Plain => str_eq(travis.state.as_str(), "passed"),
    }
}

/// What the collaborators would report this cycle, gathered so that the whole
/// per-proposal run can be stated as one function of its inputs.
pub struct Observations {
    pub was_updated: bool,
    pub travis: CiState,
    pub appveyor: CiState,
    pub merge_result: Result<(), Error>,
}

#[verifier::ext_equal]
pub struct ObservationsView {
    pub was_updated: bool,
    pub travis: CiStateView,
    pub appveyor: CiStateView,
    pub merge_result: Result<(), ErrorView>,
}

impl View for Observations {
    type V = ObservationsView;

    open spec fn view(&self) -> ObservationsView {
        ObservationsView {
            was_updated: self.was_updated,
            travis: self.travis@,
            appveyor: self.appveyor@,
            merge_result: match self.merge_result {
                Ok(_) => Ok(()),
                Err(ref e) => Err(e@),
            },
        }
    }
}

/// Everything one per-proposal run decided, in the order the effects happen:
/// secondary sync, CI fetches, the status-change notification (posted before
/// the updated state is persisted, so a crash costs at most a duplicate
/// notification, never a missed one), the scanned comment range, the first
/// command found, the merge attempt, and the refusal or failure-report
/// comment.
pub struct CycleOutcome {
    pub synced_secondary: bool,
    pub stopped_in_flight: bool,
    pub fetched_travis: bool,
    pub fetched_appveyor: bool,
    pub notified: Option<String>,
    pub scanned: Option<(usize, usize)>,
    pub command: Option<(usize, MergeCommand)>,
    pub merge_attempted: bool,
    pub refusal: Option<String>,
    pub error_report: Option<String>,
}

#[verifier::ext_equal]
pub struct CycleOutcomeView {
    pub synced_secondary: bool,
    pub stopped_in_flight: bool,
    pub fetched_travis: bool,
    pub fetched_appveyor: bool,
    pub notified: Option<Seq<char>>,
    pub scanned: Option<(int, int)>,
    pub command: Option<(int, MergeCommand)>,
    pub merge_attempted: bool,
    pub refusal: Option<Seq<char>>,
    pub error_report: Option<Seq<char>>,
}

impl View for CycleOutcome {
    type V = CycleOutcomeView;

    open spec fn view(&self) -> CycleOutcomeView {
        CycleOutcomeView {
            synced_secondary: self.synced_secondary,
            stopped_in_flight: self.stopped_in_flight,
            fetched_travis: self.fetched_travis,
            fetched_appveyor: self.fetched_appveyor,
            notified: match self.notified {
                Some(ref s) => Some(s@),
                None => None,
            },
            scanned: match self.scanned {
                Some(r) => Some((r.0 as int, r.1 as int)),
                None => None,
            },
            command: match self.command {
                Some(c) => Some((c.0 as int, c.1)),
                None => None,
            },
            merge_attempted: self.merge_attempted,
            refusal: match self.refusal {
                Some(ref s) => Some(s@),
                None => None,
            },
            error_report: match self.error_report {
                Some(ref s) => Some(s@),
                None => None,
            },
        }
    }
}

/// One per-proposal run: what was decided and the state left behind.
#[verifier::ext_equal]
pub struct CycleResult {
    pub outcome: CycleOutcomeView,
    pub state_after: StateView,
}

/// The first index in `ms` whose record is keyed by (source, target);
/// `ms.len()` when there is none.
pub open spec fn spec_first_mps_index(
    ms: Seq<MergeProposalStateView>,
    source: Seq<char>,
    target: Seq<char>,
) -> int
    decreases ms.len(),
{
    if ms.len() == 0 {
        0
    } else if spec_mps_matches(ms[0], source, target) {
        0
    } else {
        1 + spec_first_mps_index(ms.drop_first(), source, target)
    }
}

pub proof fn lemma_first_mps_index(
    ms: Seq<MergeProposalStateView>,
    source: Seq<char>,
    target: Seq<char>,
    i: int,
)
    requires
        0 <= i < ms.len(),
        spec_mps_matches(ms[i], source, target),
        forall|j: int| 0 <= j < i ==> !spec_mps_matches(#[trigger] ms[j], source, target),
    ensures
        spec_first_mps_index(ms, source, target) == i,
    decreases ms.len(),
{
    if i == 0 {
    } else {
        let tail = ms.drop_first();
        assert(forall|j: int| 0 <= j < tail.len() ==> tail[j] == ms[j + 1]);
        lemma_first_mps_index(tail, source, target, i - 1);
    }
}

/// What `spec_first_mps_index` returns really is the first matching index.
pub proof fn lemma_first_mps_index_props(
    ms: Seq<MergeProposalStateView>,
    source: Seq<char>,
    target: Seq<char>,
)
    requires
        exists|i: int| 0 <= i < ms.len() && spec_mps_matches(#[trigger] ms[i], source, target),
    ensures
        0 <= spec_first_mps_index(ms, source, target) < ms.len(),
        spec_mps_matches(ms[spec_first_mps_index(ms, source, target)], source, target),
        forall|j: int|
            0 <= j < spec_first_mps_index(ms, source, target) ==> !spec_mps_matches(
                #[trigger] ms[j],
                source,
                target,
            ),
    decreases ms.len(),
{
    if ms.len() == 0 {
    } else if spec_mps_matches(ms[0], source, target) {
    } else {
        let tail = ms.drop_first();
        assert(forall|j: int| 0 <= j < tail.len() ==> tail[j] == ms[j + 1]);
        let w = choose|i: int| 0 <= i < ms.len() && spec_mps_matches(#[trigger] ms[i], source, target);
        assert(spec_mps_matches(tail[w - 1], source, target));
        lemma_first_mps_index_props(tail, source, target);
        assert forall|j: int|
            0 <= j < spec_first_mps_index(ms, source, target) implies !spec_mps_matches(
            #[trigger] ms[j],
            source,
            target,
        ) by {
            if j > 0 {
                assert(ms[j] == tail[j - 1]);
                assert(!spec_mps_matches(tail[j - 1], source, target));
            }
        }
    }
}

/// The stored watermark for a (source, target) pair: the first matching
/// record's count, or 0 when no record exists yet.
pub open spec fn spec_stored_watermark(
    ms: Seq<MergeProposalStateView>,
    source: Seq<char>,
    target: Seq<char>,
) -> int {
    if exists|i: int| 0 <= i < ms.len() && spec_mps_matches(#[trigger] ms[i], source, target) {
        ms[spec_first_mps_index(ms, source, target)].num_comments
    } else {
        0
    }
}

/// The first comment at or after `start` that carries a command.
pub open spec fn spec_first_command_from(comments: Seq<Seq<char>>, start: int) -> Option<
    (int, MergeCommand),
>
    decreases comments.len() - start,
{
    if start < 0 || start >= comments.len() {
        None
    } else {
        match spec_command_of(comments[start]) {
            Some(c) => Some((start, c)),
            None => spec_first_command_from(comments, start + 1),
        }
    }
}

pub proof fn lemma_first_command_from(
    comments: Seq<Seq<char>>,
    start: int,
    r: Option<(int, MergeCommand)>,
)
    requires
        0 <= start <= comments.len(),
        match r {
            Some(ic) => start <= ic.0 < comments.len() && spec_command_of(comments[ic.0])
                == Some(ic.1) && forall|j: int|
                start <= j < ic.0 ==> spec_command_of(#[trigger] comments[j]) is None,
            None => forall|j: int|
                start <= j < comments.len() ==> spec_command_of(#[trigger] comments[j]) is None,
        },
    ensures
        spec_first_command_from(comments, start) == r,
    decreases comments.len() - start,
{
    if start == comments.len() {
    } else {
        match spec_command_of(comments[start]) {
            Some(c) => {
                assert(r == Some((start, c)));
            },
            None => {
                lemma_first_command_from(comments, start + 1, r);
            },
        }
    }
}

/// What `spec_first_command_from` returns really is the first command at or
/// after `start`.
pub proof fn lemma_first_command_from_props(comments: Seq<Seq<char>>, start: int)
    requires
        0 <= start <= comments.len(),
    ensures
        match spec_first_command_from(comments, start) {
            Some(ic) => start <= ic.0 < comments.len() && spec_command_of(comments[ic.0])
                == Some(ic.1) && forall|j: int|
                start <= j < ic.0 ==> spec_command_of(#[trigger] comments[j]) is None,
            None => forall|j: int|
                start <= j < comments.len() ==> spec_command_of(#[trigger] comments[j]) is None,
        },
    decreases comments.len() - start,
{
    if start == comments.len() {
    } else {
        match spec_command_of(comments[start]) {
            Some(c) => {
            },
            None => {
                lemma_first_command_from_props(comments, start + 1);
            },
        }
    }
}

/// The whole per-proposal decision sequence as a function of the stored
/// state, the proposal snapshot, the always-resync flag, and the observed
/// collaborator reports.
pub open spec fn spec_reconcile(
    s: StateView,
    p: MergeProposalView,
    always_update: bool,
    obs: ObservationsView,
) -> CycleResult {
    let sync = always_update || obs.was_updated;
    if obs.was_updated {
        CycleResult {
            outcome: CycleOutcomeView {
                synced_secondary: sync,
                stopped_in_flight: true,
                fetched_travis: false,
                fetched_appveyor: false,
                notified: None,
                scanned: None,
                command: None,
                merge_attempted: false,
                refusal: None,
                error_report: None,
            },
            state_after: s,
        }
    } else if spec_is_transitional(obs.travis.state) {
        CycleResult {
            outcome: CycleOutcomeView {
                synced_secondary: sync,
                stopped_in_flight: false,
                fetched_travis: true,
                fetched_appveyor: false,
                notified: None,
                scanned: None,
                command: None,
                merge_attempted: false,
                refusal: None,
                error_report: None,
            },
            state_after: s,
        }
    } else if spec_is_transitional(obs.appveyor.state) {
        CycleResult {
            outcome: CycleOutcomeView {
                synced_secondary: sync,
                stopped_in_flight: false,
                fetched_travis: true,
                fetched_appveyor: true,
                notified: None,
                scanned: None,
                command: None,
                merge_attempted: false,
                refusal: None,
                error_report: None,
            },
            state_after: s,
        }
    } else {
        let source = p.source_branch.unique_name;
        let target = p.target_branch.unique_name;
        let differs = spec_ci_differs(s, source, obs.travis, obs.appveyor);
        let notified = if differs {
            Some(spec_ci_state_update(obs.travis, obs.appveyor))
        } else {
            None
        };
        let s1 = spec_apply_ci(s, source, obs.travis, obs.appveyor);
        let s2 = if spec_has_mps(s1, source, target) {
            s1
        } else {
            StateView {
                branches: s1.branches,
                merge_proposals: s1.merge_proposals.push(
                    MergeProposalStateView {
                        num_comments: 0,
                        source_branch: source,
                        target_branch: target,
                    },
                ),
            }
        };
        let idx = spec_first_mps_index(s2.merge_proposals, source, target);
        let observed = p.comments.len() as int;
        let start = spec_watermark_start(s2.merge_proposals[idx].num_comments, observed);
        let s3 = StateView {
            branches: s2.branches,
            merge_proposals: s2.merge_proposals.update(
                idx,
                MergeProposalStateView {
                    num_comments: observed,
                    source_branch: s2.merge_proposals[idx].source_branch,
                    target_branch: s2.merge_proposals[idx].target_branch,
                },
            ),
        };
        match spec_first_command_from(p.comments, start) {
            None => CycleResult {
                outcome: CycleOutcomeView {
                    synced_secondary: sync,
                    stopped_in_flight: false,
                    fetched_travis: true,
                    fetched_appveyor: true,
                    notified: notified,
                    scanned: Some((start, observed)),
                    command: None,
                    merge_attempted: false,
                    refusal: None,
                    error_report: None,
                },
                state_after: s3,
            },
            Some(ic) => {
                if ic.1 is Forced || obs.travis.state == "passed"@ {
                    CycleResult {
                        outcome: CycleOutcomeView {
                            synced_secondary: sync,
                            stopped_in_flight: false,
                            fetched_travis: true,
                            fetched_appveyor: true,
                            notified: notified,
                            scanned: Some((start, observed)),
                            command: Some(ic),
                            merge_attempted: true,
                            refusal: None,
                            error_report: match obs.merge_result {
                                Ok(_) => None,
                                Err(e) => Some(spec_error_report_comment(spec_describe(e))),
                            },
                        },
                        state_after: s3,
                    }
                } else {
                    CycleResult {
                        outcome: CycleOutcomeView {
                            synced_secondary: sync,
                            stopped_in_flight: false,
                            fetched_travis: true,
                            fetched_appveyor: true,
                            notified: notified,
                            scanned: Some((start, observed)),
                            command: Some(ic),
                            merge_attempted: false,
                            refusal: Some(spec_refuse_merge_comment(obs.travis)),
                            error_report: None,
                        },
                        state_after: s3,
                    }
                }
            },
        }
    }
}

/// Runs the whole per-proposal decision sequence against up-front
/// observations. The run driver, which has to interleave the real
/// collaborator calls lazily, calls the staged functions one by one in the
/// same order instead; this composition carries the complete contract.
pub fn reconcile_proposal(
    state: &mut State,
    proposal: &MergeProposal,
    always_update: bool,
    obs: &Observations,
) -> (outcome: CycleOutcome)
    requires
        old(state).wf(),
    ensures
        final(state).wf(),
        outcome@ == spec_reconcile(old(state)@, proposal@, always_update, obs@).outcome,
        final(state)@ == spec_reconcile(old(state)@, proposal@, always_update, obs@).state_after,
{
    let d = mirror_decision(obs.was_updated, always_update);
    if d.stop {
        return CycleOutcome {
            synced_secondary: d.sync_secondary,
            stopped_in_flight: true,
            fetched_travis: false,
            fetched_appveyor: false,
            notified: None,
            scanned: None,
            command: None,
            merge_attempted: false,
            refusal: None,
            error_report: None,
        };
    }
    if obs.travis.is_transitional() {
        return CycleOutcome {
            synced_secondary: d.sync_secondary,
            stopped_in_flight: false,
            fetched_travis: true,
            fetched_appveyor: false,
            notified: None,
            scanned: None,
            command: None,
            merge_attempted: false,
            refusal: None,
            error_report: None,
        };
    }
    if obs.appveyor.is_transitional() {
        return CycleOutcome {
            synced_secondary: d.sync_secondary,
            stopped_in_flight: false,
            fetched_travis: true,
            fetched_appveyor: true,
            notified: None,
            scanned: None,
            command: None,
            merge_attempted: false,
            refusal: None,
            error_report: None,
        };
    }
    let changed = state.apply_fresh_ci(&proposal.source_branch.unique_name, &obs.travis, &obs.appveyor);
    let notified = if changed {
        Some(build_ci_state_update(&obs.travis, &obs.appveyor))
    } else {
        None
    };
    let idx = state.find_or_insert_merge_proposal_state(proposal);
    proof {
        lemma_first_mps_index(
            state@.merge_proposals,
            proposal@.source_branch.unique_name,
            proposal@.target_branch.unique_name,
            idx as int,
        );
    }
    let observed = proposal.comments.len();
    let start = state.advance_watermark(idx, observed);
    let found = find_first_command(&proposal.comments, start);
    proof {
        assert(proposal@.comments =~= proposal.comments@.map_values(|c: crate::launchpad::Comment| c@));
        let ghost r = match found {
            Some(ic) => Some((ic.0 as int, ic.1)),
            None => None,
        };
        lemma_first_command_from(proposal@.comments, start as int, r);
    }
    match found {
        None => {
            CycleOutcome {
                synced_secondary: d.sync_secondary,
                stopped_in_flight: false,
                fetched_travis: true,
                fetched_appveyor: true,
                notified: notified,
                scanned: Some((start, observed)),
                command: None,
                merge_attempted: false,
                refusal: None,
                error_report: None,
            }
        },
        Some(ic) => {
            let attempt = command_attempts_merge(ic.1, &obs.travis);
            if attempt {
                let report = match &obs.merge_result {
                    Ok(_) => None,
                    Err(e) => Some(build_error_report_comment(e)),
                };
                CycleOutcome {
                    synced_secondary: d.sync_secondary,
                    stopped_in_flight: false,
                    fetched_travis: true,
                    fetched_appveyor: true,
                    notified: notified,
                    scanned: Some((start, observed)),
                    command: Some(ic),
                    merge_attempted: true,
                    refusal: None,
                    error_report: report,
                }
            } else {
                CycleOutcome {
                    synced_secondary: d.sync_secondary,
                    stopped_in_flight: false,
                    fetched_travis: true,
                    fetched_appveyor: true,
                    notified: notified,
                    scanned: Some((start, observed)),
                    command: Some(ic),
                    merge_attempted: false,
                    refusal: Some(build_refuse_merge_comment(&obs.travis)),
                    error_report: None,
                }
            }
        },
    }
}

/// Records carry nonnegative watermarks. Every state assembled from
/// executable values satisfies this; it is spelled out for the laws below,
/// which quantify over arbitrary state views.
pub open spec fn nonneg_watermarks(ms: Seq<MergeProposalStateView>) -> bool {
    forall|i: int| 0 <= i < ms.len() ==> (#[trigger] ms[i]).num_comments >= 0
}

/// Mirror-changed short-circuit: when the primary mirror update reported a
/// change, a build for the new revision is already in flight, so the cycle
/// fetches no CI state, scans no comments, posts nothing, attempts no merge,
/// and leaves the stored state untouched.
pub proof fn lemma_mirror_changed_short_circuit(
    s: StateView,
    p: MergeProposalView,
    always_update: bool,
    obs: ObservationsView,
)
    requires
        obs.was_updated,
    ensures
        spec_reconcile(s, p, always_update, obs).state_after == s,
        spec_reconcile(s, p, always_update, obs).outcome.stopped_in_flight,
        spec_reconcile(s, p, always_update, obs).outcome.synced_secondary,
        !spec_reconcile(s, p, always_update, obs).outcome.fetched_travis,
        !spec_reconcile(s, p, always_update, obs).outcome.fetched_appveyor,
        spec_reconcile(s, p, always_update, obs).outcome.scanned is None,
        spec_reconcile(s, p, always_update, obs).outcome.command is None,
        !spec_reconcile(s, p, always_update, obs).outcome.merge_attempted,
        spec_reconcile(s, p, always_update, obs).outcome.notified is None,
        spec_reconcile(s, p, always_update, obs).outcome.refusal is None,
        spec_reconcile(s, p, always_update, obs).outcome.error_report is None,
{
}

/// Notification-on-change, no-notification-on-same: once the cycle reaches
/// the comparison step, the status-change comment is produced exactly when a
/// stored state label differs from the fresh one, and the stored branch
/// state afterwards equals the fresh values whether or not a notification
/// went out.
pub proof fn lemma_notification_iff_changed(
    s: StateView,
    p: MergeProposalView,
    always_update: bool,
    obs: ObservationsView,
)
    requires
        wf_state(s),
        !obs.was_updated,
        !spec_is_transitional(obs.travis.state),
        !spec_is_transitional(obs.appveyor.state),
    ensures
        (spec_reconcile(s, p, always_update, obs).outcome.notified is Some) == spec_ci_differs(
            s,
            p.source_branch.unique_name,
            obs.travis,
            obs.appveyor,
        ),
        spec_ci_differs(s, p.source_branch.unique_name, obs.travis, obs.appveyor)
            ==> spec_reconcile(s, p, always_update, obs).outcome.notified == Some(
            spec_ci_state_update(obs.travis, obs.appveyor),
        ),
        spec_branch_state_of(
            spec_reconcile(s, p, always_update, obs).state_after,
            p.source_branch.unique_name,
        ) == (BranchStateView { appveyor_state: obs.appveyor, travis_state: obs.travis }),
{
    let source = p.source_branch.unique_name;
    crate::state::lemma_apply_ci_lookup(s, source, obs.travis, obs.appveyor);
    let s1 = spec_apply_ci(s, source, obs.travis, obs.appveyor);
    let s_after = spec_reconcile(s, p, always_update, obs).state_after;
    assert(s_after.branches == s1.branches);
    assert(spec_branch_state_of(s_after, source) == spec_branch_state_of(s1, source));
}

/// Watermark handling: the scanned range ends at the observed comment count
/// and starts at the stored watermark — so equal counts leave nothing to
/// rescan — except that a thread that shrank below its watermark counts as
/// reopened and is rescanned from 0. Afterwards the stored watermark equals
/// the observed count.
pub proof fn lemma_watermark_scan_range(
    s: StateView,
    p: MergeProposalView,
    always_update: bool,
    obs: ObservationsView,
)
    requires
        nonneg_watermarks(s.merge_proposals),
        !obs.was_updated,
        !spec_is_transitional(obs.travis.state),
        !spec_is_transitional(obs.appveyor.state),
    ensures
        spec_reconcile(s, p, always_update, obs).outcome.scanned == Some(
            (
                spec_watermark_start(
                    spec_stored_watermark(
                        s.merge_proposals,
                        p.source_branch.unique_name,
                        p.target_branch.unique_name,
                    ),
                    p.comments.len() as int,
                ),
                p.comments.len() as int,
            ),
        ),
        spec_stored_watermark(
            spec_reconcile(s, p, always_update, obs).state_after.merge_proposals,
            p.source_branch.unique_name,
            p.target_branch.unique_name,
        ) == p.comments.len() as int,
{
    let source = p.source_branch.unique_name;
    let target = p.target_branch.unique_name;
    let s1 = spec_apply_ci(s, source, obs.travis, obs.appveyor);
    assert(s1.merge_proposals == s.merge_proposals);
    let observed = p.comments.len() as int;
    let fresh_record = MergeProposalStateView {
        num_comments: 0,
        source_branch: source,
        target_branch: target,
    };
    let s2 = if spec_has_mps(s1, source, target) {
        s1
    } else {
        StateView {
            branches: s1.branches,
            merge_proposals: s1.merge_proposals.push(fresh_record),
        }
    };
    if spec_has_mps(s1, source, target) {
        lemma_first_mps_index_props(s.merge_proposals, source, target);
    } else {
        assert(spec_mps_matches(s2.merge_proposals[s.merge_proposals.len() as int], source, target));
        assert(forall|j: int|
            0 <= j < s.merge_proposals.len() ==> !spec_mps_matches(
                #[trigger] s2.merge_proposals[j],
                source,
                target,
            ));
        lemma_first_mps_index(s2.merge_proposals, source, target, s.merge_proposals.len() as int);
    }
    let idx = spec_first_mps_index(s2.merge_proposals, source, target);
    let s3 = spec_reconcile(s, p, always_update, obs).state_after;
    assert(s3.merge_proposals == s2.merge_proposals.update(
        idx,
        MergeProposalStateView {
            num_comments: observed,
            source_branch: s2.merge_proposals[idx].source_branch,
            target_branch: s2.merge_proposals[idx].target_branch,
        },
    ));
    assert(spec_mps_matches(s3.merge_proposals[idx], source, target));
    assert(forall|j: int|
        0 <= j < idx ==> !spec_mps_matches(#[trigger] s3.merge_proposals[j], source, target)) by {
        if spec_has_mps(s1, source, target) {
            lemma_first_mps_index_props(s2.merge_proposals, source, target);
        }
    }
    lemma_first_mps_index(s3.merge_proposals, source, target, idx);
}

/// Forced-merge precedence: a forced command leads to a merge attempt
/// whatever the CI state; a plain command leads to a merge attempt exactly
/// when the gating provider reports "passed", and otherwise to a refusal
/// comment and no merge attempt. Without a command there is no merge
/// attempt.
pub proof fn lemma_forced_merge_precedence(
    s: StateView,
    p: MergeProposalView,
    always_update: bool,
    obs: ObservationsView,
)
    requires
        !obs.was_updated,
        !spec_is_transitional(obs.travis.state),
        !spec_is_transitional(obs.appveyor.state),
    ensures
        match spec_reconcile(s, p, always_update, obs).outcome.command {
            Some(ic) => {
                &&& (ic.1 is Forced ==> spec_reconcile(s, p, always_update, obs).outcome.merge_attempted)
                &&& (ic.1 is Plain && obs.travis.state == "passed"@ ==> spec_reconcile(
                    s,
                    p,
                    always_update,
                    obs,
                ).outcome.merge_attempted)
                &&& (ic.1 is Plain && obs.travis.state != "passed"@ ==> !spec_reconcile(
                    s,
                    p,
                    always_update,
                    obs,
                ).outcome.merge_attempted && spec_reconcile(s, p, always_update, obs).outcome.refusal
                    == Some(spec_refuse_merge_comment(obs.travis)))
            },
            None => !spec_reconcile(s, p, always_update, obs).outcome.merge_attempted,
        },
{
}

/// First-match-wins: the command acted on is the first one in the scanned
/// range — every earlier comment in the range carries none — and a cycle
/// attempts at most one merge however many commands the range holds, since
/// scanning stops at the first.
pub proof fn lemma_first_match_wins(
    s: StateView,
    p: MergeProposalView,
    always_update: bool,
    obs: ObservationsView,
)
    requires
        nonneg_watermarks(s.merge_proposals),
    ensures
        spec_reconcile(s, p, always_update, obs).outcome.merge_attempted ==> spec_reconcile(
            s,
            p,
            always_update,
            obs,
        ).outcome.command is Some,
        match (
            spec_reconcile(s, p, always_update, obs).outcome.scanned,
            spec_reconcile(s, p, always_update, obs).outcome.command,
        ) {
            (Some(range), Some(ic)) => range.0 <= ic.0 < range.1 && spec_command_of(
                p.comments[ic.0],
            ) == Some(ic.1) && forall|j: int|
                range.0 <= j < ic.0 ==> spec_command_of(#[trigger] p.comments[j]) is None,
            (Some(range), None) => forall|j: int|
                range.0 <= j < range.1 ==> spec_command_of(#[trigger] p.comments[j]) is None,
            (None, Some(ic)) => false,
            (None, None) => true,
        },
{
    if obs.was_updated || spec_is_transitional(obs.travis.state) || spec_is_transitional(
        obs.appveyor.state,
    ) {
    } else {
        let source = p.source_branch.unique_name;
        let target = p.target_branch.unique_name;
        let s1 = spec_apply_ci(s, source, obs.travis, obs.appveyor);
        assert(s1.merge_proposals == s.merge_proposals);
        let fresh_record = MergeProposalStateView {
            num_comments: 0,
            source_branch: source,
            target_branch: target,
        };
        let s2 = if spec_has_mps(s1, source, target) {
            s1
        } else {
            StateView {
                branches: s1.branches,
                merge_proposals: s1.merge_proposals.push(fresh_record),
            }
        };
        if spec_has_mps(s1, source, target) {
            lemma_first_mps_index_props(s.merge_proposals, source, target);
        } else {
            assert(spec_mps_matches(
                s2.merge_proposals[s.merge_proposals.len() as int],
                source,
                target,
            ));
            lemma_first_mps_index(
                s2.merge_proposals,
                source,
                target,
                s.merge_proposals.len() as int,
            );
        }
        let idx = spec_first_mps_index(s2.merge_proposals, source, target);
        let observed = p.comments.len() as int;
        let start = spec_watermark_start(s2.merge_proposals[idx].num_comments, observed);
        assert(0 <= start <= observed);
        lemma_first_command_from_props(p.comments, start);
    }
}

} // verus!
