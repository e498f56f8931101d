use bunnybot::commands::MergeCommand;
use bunnybot::engine::Observations;
use bunnybot::engine::mirror_decision;
use bunnybot::engine::reconcile_proposal;
use bunnybot::errors::Error;
use bunnybot::launchpad::Branch;
use bunnybot::launchpad::CiState;
use bunnybot::launchpad::Comment;
use bunnybot::launchpad::MergeProposal;
use bunnybot::state::State;

fn ci(state: &str) -> CiState {
    CiState {
        state: state.to_string(),
        id: "1".to_string(),
        number: "2".to_string(),
    }
}

fn proposal(comments: &[&str]) -> MergeProposal {
    MergeProposal {
        source_branch: Branch::from_unique_name("~dev/widelands/feature"),
        target_branch: Branch::from_unique_name("~dev/widelands/trunk"),
        comments: comments
            .iter()
            .map(|body| Comment {
                message_body: body.to_string(),
            })
            .collect(),
        commit_message: None,
    }
}

fn observations(was_updated: bool, travis: &str, appveyor: &str) -> Observations {
    Observations {
        was_updated,
        travis: ci(travis),
        appveyor: ci(appveyor),
        merge_result: Ok(()),
    }
}

fn stored_state(travis: &str, appveyor: &str) -> State {
    let mut state = State::new();
    state.apply_fresh_ci(
        &"~dev/widelands/feature".to_string(),
        &ci(travis),
        &ci(appveyor),
    );
    state
}

#[test]
fn mirror_decision_syncs_on_change_or_flag() {
    assert!(mirror_decision(true, false).sync_secondary);
    assert!(mirror_decision(false, true).sync_secondary);
    assert!(!mirror_decision(false, false).sync_secondary);
    assert!(mirror_decision(true, false).stop);
    assert!(!mirror_decision(false, true).stop);
}

#[test]
fn changed_mirror_short_circuits_the_cycle() {
    let mut state = stored_state("pending", "queued");
    let before = state.duplicate();
    let p = proposal(&["@bunnybot merge"]);
    let obs = observations(true, "passed", "passed");
    let outcome = reconcile_proposal(&mut state, &p, false, &obs);
    assert!(outcome.stopped_in_flight);
    assert!(outcome.synced_secondary);
    assert!(!outcome.fetched_travis);
    assert!(!outcome.fetched_appveyor);
    assert_eq!(outcome.scanned, None);
    assert_eq!(outcome.command, None);
    assert!(!outcome.merge_attempted);
    assert!(outcome.notified.is_none());
    assert_eq!(state.branches.len(), before.branches.len());
    assert_eq!(
        state.branches[0].branch_state.travis_state.state,
        "pending"
    );
}

#[test]
fn transitional_travis_stops_before_appveyor() {
    let mut state = stored_state("pending", "queued");
    let p = proposal(&[]);
    let obs = observations(false, "started", "passed");
    let outcome = reconcile_proposal(&mut state, &p, false, &obs);
    assert!(outcome.fetched_travis);
    assert!(!outcome.fetched_appveyor);
    assert_eq!(outcome.scanned, None);
    assert_eq!(state.branches[0].branch_state.travis_state.state, "pending");
}

#[test]
fn notification_posted_on_state_change() {
    let mut state = stored_state("pending", "queued");
    let p = proposal(&[]);
    let obs = observations(false, "passed", "passed");
    let outcome = reconcile_proposal(&mut state, &p, false, &obs);
    let expected = "Continuous integration builds have changed state:\n\n\
                    Travis build 2. State: passed. Details: https://travis-ci.org/widelands/widelands/builds/1.\n\
                    Appveyor build 2. State: passed. Details: https://ci.appveyor.com/project/widelands-dev/widelands/build/1.";
    assert_eq!(outcome.notified.as_deref(), Some(expected));
    assert_eq!(outcome.refusal, None);
    assert_eq!(outcome.error_report, None);
    assert_eq!(state.branches[0].branch_state.travis_state.state, "passed");
    assert_eq!(state.branches[0].branch_state.appveyor_state.state, "passed");
}

#[test]
fn no_notification_when_nothing_changed() {
    let mut state = stored_state("passed", "passed");
    let p = proposal(&[]);
    let obs = observations(false, "passed", "passed");
    let outcome = reconcile_proposal(&mut state, &p, false, &obs);
    assert_eq!(outcome.notified, None);
    assert_eq!(outcome.refusal, None);
    assert_eq!(outcome.error_report, None);
}

#[test]
fn first_sight_counts_as_change() {
    let mut state = State::new();
    let p = proposal(&[]);
    let obs = observations(false, "passed", "passed");
    let outcome = reconcile_proposal(&mut state, &p, false, &obs);
    assert!(outcome.notified.is_some());
    assert_eq!(state.branches.len(), 1);
    assert_eq!(state.branches[0].name, "~dev/widelands/feature");
}

#[test]
fn watermark_leaves_nothing_to_rescan() {
    let mut state = stored_state("passed", "passed");
    state
        .merge_proposals
        .push(bunnybot::state::MergeProposalState {
            num_comments: 3,
            source_branch: "~dev/widelands/feature".to_string(),
            target_branch: "~dev/widelands/trunk".to_string(),
        });
    let p = proposal(&["@bunnybot merge", "two", "three"]);
    let obs = observations(false, "passed", "passed");
    let outcome = reconcile_proposal(&mut state, &p, false, &obs);
    assert_eq!(outcome.scanned, Some((3, 3)));
    assert_eq!(outcome.command, None);
    assert!(!outcome.merge_attempted);
}

#[test]
fn shrunken_thread_resets_watermark() {
    let mut state = stored_state("passed", "passed");
    state
        .merge_proposals
        .push(bunnybot::state::MergeProposalState {
            num_comments: 5,
            source_branch: "~dev/widelands/feature".to_string(),
            target_branch: "~dev/widelands/trunk".to_string(),
        });
    let p = proposal(&["first", "second"]);
    let obs = observations(false, "passed", "passed");
    let outcome = reconcile_proposal(&mut state, &p, false, &obs);
    assert_eq!(outcome.scanned, Some((0, 2)));
    assert_eq!(state.merge_proposals[0].num_comments, 2);
}

#[test]
fn forced_merge_ignores_ci_state() {
    let mut state = stored_state("failed", "passed");
    let p = proposal(&["@bunnybot merge force"]);
    let obs = observations(false, "failed", "passed");
    let outcome = reconcile_proposal(&mut state, &p, false, &obs);
    assert_eq!(outcome.command, Some((0, MergeCommand::Forced)));
    assert!(outcome.merge_attempted);
    assert_eq!(outcome.refusal, None);
}

#[test]
fn plain_merge_refused_when_not_green() {
    let mut state = stored_state("failed", "passed");
    let p = proposal(&["@bunnybot merge"]);
    let obs = observations(false, "failed", "passed");
    let outcome = reconcile_proposal(&mut state, &p, false, &obs);
    assert_eq!(outcome.command, Some((0, MergeCommand::Plain)));
    assert!(!outcome.merge_attempted);
    let expected = "Refusing to merge, since Travis is not green. Use @bunnybot merge force for merging anyways.\n\n\
                    Travis build 2. State: failed. Details: https://travis-ci.org/widelands/widelands/builds/1.";
    assert_eq!(outcome.refusal.as_deref(), Some(expected));
}

#[test]
fn plain_merge_goes_ahead_when_green() {
    let mut state = stored_state("passed", "passed");
    let p = proposal(&["@bunnybot merge"]);
    let obs = observations(false, "passed", "passed");
    let outcome = reconcile_proposal(&mut state, &p, false, &obs);
    assert_eq!(outcome.command, Some((0, MergeCommand::Plain)));
    assert!(outcome.merge_attempted);
    assert_eq!(outcome.refusal, None);
    assert_eq!(outcome.error_report, None);
}

#[test]
fn only_the_first_command_acts() {
    let mut state = stored_state("failed", "passed");
    let p = proposal(&["@bunnybot merge", "@bunnybot merge force"]);
    let obs = observations(false, "failed", "passed");
    let outcome = reconcile_proposal(&mut state, &p, false, &obs);
    // The earlier plain command is refused; the later forced command is
    // ignored this cycle, so no merge happens.
    assert_eq!(outcome.command, Some((0, MergeCommand::Plain)));
    assert!(!outcome.merge_attempted);
    assert!(outcome.refusal.is_some());
}

#[test]
fn failed_merge_posts_error_report() {
    let mut state = stored_state("passed", "passed");
    let p = proposal(&["@bunnybot merge"]);
    let obs = Observations {
        was_updated: false,
        travis: ci("passed"),
        appveyor: ci("passed"),
        merge_result: Err(Error::Msg("merge conflict".to_string())),
    };
    let outcome = reconcile_proposal(&mut state, &p, false, &obs);
    assert!(outcome.merge_attempted);
    assert_eq!(
        outcome.error_report.as_deref(),
        Some("Error merging this proposal:\n\nmerge conflict")
    );
}

#[test]
fn comments_before_watermark_are_not_rescanned() {
    let mut state = stored_state("passed", "passed");
    state
        .merge_proposals
        .push(bunnybot::state::MergeProposalState {
            num_comments: 1,
            source_branch: "~dev/widelands/feature".to_string(),
            target_branch: "~dev/widelands/trunk".to_string(),
        });
    let p = proposal(&["@bunnybot merge", "nothing"]);
    let obs = observations(false, "passed", "passed");
    let outcome = reconcile_proposal(&mut state, &p, false, &obs);
    assert_eq!(outcome.scanned, Some((1, 2)));
    assert_eq!(outcome.command, None);
    assert!(!outcome.merge_attempted);
}

#[test]
fn watermark_record_created_on_first_sight() {
    let mut state = State::new();
    let p = proposal(&["hello"]);
    let obs = observations(false, "passed", "passed");
    let outcome = reconcile_proposal(&mut state, &p, false, &obs);
    assert_eq!(outcome.scanned, Some((0, 1)));
    assert_eq!(state.merge_proposals.len(), 1);
    assert_eq!(state.merge_proposals[0].num_comments, 1);
    assert_eq!(state.merge_proposals[0].source_branch, "~dev/widelands/feature");
    assert_eq!(state.merge_proposals[0].target_branch, "~dev/widelands/trunk");
}

#[test]
fn state_duplicate_is_exact() {
    let mut state = stored_state("pending", "queued");
    state
        .merge_proposals
        .push(bunnybot::state::MergeProposalState {
            num_comments: 4,
            source_branch: "a".to_string(),
            target_branch: "b".to_string(),
        });
    let copy = state.duplicate();
    assert_eq!(copy.branches.len(), 1);
    assert_eq!(copy.branches[0].name, state.branches[0].name);
    assert_eq!(copy.merge_proposals.len(), 1);
    assert_eq!(copy.merge_proposals[0].num_comments, 4);
}
