use bunnybot::errors::Error;
use bunnybot::gc::prune_unreferenced;
use bunnybot::gc::referenced_slugs;
use bunnybot::gc::unmentioned;
use bunnybot::gc::vec_contains_str;
use bunnybot::git::branches;
use bunnybot::git::checkout_branch;
use bunnybot::git::delete_local_branch;
use bunnybot::git::delete_remote_branch;
use bunnybot::launchpad::Branch;
use bunnybot::launchpad::CiState;
use bunnybot::launchpad::MergeProposal;
use bunnybot::messages::email_subject;
use bunnybot::state::MergeProposalState;
use bunnybot::state::State;
use bunnybot::subprocess::Output;

fn proposal_between(source: &str, target: &str) -> MergeProposal {
    MergeProposal {
        source_branch: Branch::from_unique_name(source),
        target_branch: Branch::from_unique_name(target),
        comments: Vec::new(),
        commit_message: None,
    }
}

fn state_with_branches(names: &[&str]) -> State {
    let mut state = State::new();
    for name in names {
        state.apply_fresh_ci(
            &name.to_string(),
            &CiState {
                state: "passed".to_string(),
                id: String::new(),
                number: String::new(),
            },
            &CiState {
                state: "success".to_string(),
                id: String::new(),
                number: String::new(),
            },
        );
        state.merge_proposals.push(MergeProposalState {
            num_comments: 1,
            source_branch: name.to_string(),
            target_branch: "~t".to_string(),
        });
    }
    state
}

#[test]
fn referenced_slugs_lists_target_then_source() {
    let proposals = vec![proposal_between("~a/b", "~c/d")];
    let refs = referenced_slugs(&proposals);
    assert_eq!(refs, vec!["_c_d".to_string(), "_a_b".to_string()]);
}

#[test]
fn unmentioned_is_the_set_difference() {
    let present = vec!["_a".to_string(), "_b".to_string(), "_c".to_string()];
    let referenced = vec!["_a".to_string(), "_b".to_string()];
    assert_eq!(unmentioned(&present, &referenced), vec!["_c".to_string()]);
}

#[test]
fn gc_prunes_stale_entries_and_keeps_live_ones() {
    let mut state = state_with_branches(&["A", "B", "C"]);
    let referenced = vec!["A".to_string(), "B".to_string(), "_t".to_string()];
    prune_unreferenced(&mut state, &referenced);
    let names: Vec<&str> = state.branches.iter().map(|b| b.name.as_str()).collect();
    assert_eq!(names, vec!["A", "B"]);
    let sources: Vec<&str> = state
        .merge_proposals
        .iter()
        .map(|m| m.source_branch.as_str())
        .collect();
    assert_eq!(sources, vec!["A", "B"]);
    assert_eq!(state.merge_proposals[0].num_comments, 1);
}

#[test]
fn gc_prunes_record_with_stale_target() {
    // The record's source is still referenced, but its target is not:
    // either half of the (source, target) key going stale orphans the
    // record.
    let mut state = state_with_branches(&["A"]);
    let referenced = vec!["A".to_string()];
    prune_unreferenced(&mut state, &referenced);
    assert_eq!(state.branches.len(), 1);
    assert_eq!(state.merge_proposals.len(), 0);
}

#[test]
fn gc_pass_is_idempotent() {
    let mut state = state_with_branches(&["A", "C"]);
    let referenced = vec!["A".to_string(), "_t".to_string()];
    prune_unreferenced(&mut state, &referenced);
    let after_one: Vec<String> = state.branches.iter().map(|b| b.name.clone()).collect();
    let records_one = state.merge_proposals.len();
    prune_unreferenced(&mut state, &referenced);
    let after_two: Vec<String> = state.branches.iter().map(|b| b.name.clone()).collect();
    assert_eq!(after_one, after_two);
    assert_eq!(state.merge_proposals.len(), records_one);
}

#[test]
fn remove_mentions_filters_by_slug() {
    let mut state = state_with_branches(&["~a/b", "~x/y"]);
    state.remove_mentions_of("_a_b");
    assert_eq!(state.branches.len(), 1);
    assert_eq!(state.branches[0].name, "~x/y");
    assert_eq!(state.merge_proposals.len(), 1);
    assert_eq!(state.merge_proposals[0].source_branch, "~x/y");
}

#[test]
fn remove_mentions_matches_record_targets_too() {
    // Records are keyed by the (source, target) pair, so purging a slug
    // also removes records whose target slugifies to it.
    let mut state = state_with_branches(&["~a/b"]);
    state.remove_mentions_of("_t");
    assert_eq!(state.branches.len(), 1);
    assert_eq!(state.merge_proposals.len(), 0);
}

#[test]
fn vec_contains_str_finds_members() {
    let v = vec!["a".to_string(), "b".to_string()];
    assert!(vec_contains_str(&v, "b"));
    assert!(!vec_contains_str(&v, "c"));
}

#[test]
fn branch_listing_is_parsed_line_by_line() {
    let parsed = branches("* master\n  feature_one\n  feature_two\n");
    assert_eq!(parsed, vec!["master", "feature_one", "feature_two"]);
}

#[test]
fn branch_listing_of_empty_output() {
    assert_eq!(branches(""), Vec::<String>::new());
}

#[test]
fn checkout_plan_names_the_branch() {
    assert_eq!(checkout_branch("feature"), vec!["git", "checkout", "feature"]);
}

#[test]
fn delete_remote_plan_pushes_empty_refspec() {
    assert_eq!(
        delete_remote_branch("feature"),
        vec!["git", "push", "github", ":feature"]
    );
}

#[test]
fn master_cannot_be_deleted_locally() {
    match delete_local_branch("master") {
        Err(Error::Msg(m)) => assert_eq!(m, "Cannot delete master branch."),
        _ => panic!("expected the master guard to refuse"),
    }
}

#[test]
fn local_delete_checks_out_master_first() {
    let plan = delete_local_branch("feature").unwrap();
    assert_eq!(
        plan,
        vec![
            vec!["git", "checkout", "master"],
            vec!["git", "branch", "-D", "feature"],
        ]
    );
}

#[test]
fn update_git_plan_tracks_missing_branch() {
    let b = Branch::from_unique_name("~a/b");
    let plan = b.update_git(&vec!["master".to_string()]);
    assert_eq!(
        plan,
        vec![
            vec!["git", "config", "remote-bzr.branches", "_a_b"],
            vec!["git", "fetch", "bzr_origin"],
            vec!["git", "branch", "--track", "_a_b", "bzr_origin/_a_b"],
            vec!["git", "checkout", "_a_b"],
            vec!["git", "pull"],
            vec!["git", "push", "github", "_a_b", "--force"],
        ]
    );
}

#[test]
fn update_git_plan_skips_tracking_for_known_branch() {
    let b = Branch::from_unique_name("~a/b");
    let plan = b.update_git(&vec!["_a_b".to_string()]);
    assert_eq!(plan.len(), 5);
    assert_eq!(plan[2], vec!["git", "checkout", "_a_b"]);
}

#[test]
fn error_descriptions() {
    assert_eq!(
        Error::PidFileExists.describe(),
        "Another bunnybot is already running."
    );
    assert_eq!(
        Error::Http("https://example.invalid/x".to_string()).describe(),
        "HTTP request for https://example.invalid/x failed"
    );
    assert_eq!(
        Error::ProcessFailed(Output {
            stdout: "out".to_string(),
            stderr: "err".to_string(),
        })
        .describe(),
        "Output:\nstdout:\nout\nstderr:\nerr\n"
    );
    assert_eq!(Error::Msg("boom".to_string()).describe(), "boom");
}

#[test]
fn email_subject_matches_platform_format() {
    assert_eq!(
        email_subject("lp:~a/b", "lp:~c/d"),
        "[Merge] lp:~a/b into lp:~c/d"
    );
}
