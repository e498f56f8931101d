//! The texts the bot posts to a review thread.

use vstd::prelude::*;
use crate::errors::Error;
use crate::errors::spec_describe;
use crate::launchpad::CiState;
use crate::launchpad::CiStateView;

verus! {

/// The status-change notification posted when either provider's state label
/// moved against what was stored.
pub open spec fn spec_ci_state_update(travis: CiStateView, appveyor: CiStateView) -> Seq<char> {
    "Continuous integration builds have changed state:\n"@ + "\n"@ + "Travis build "@
        + travis.number + ". State: "@ + travis.state
        + ". Details: https://travis-ci.org/widelands/widelands/builds/"@ + travis.id + ".\n"@
        + "Appveyor build "@ + appveyor.number + ". State: "@ + appveyor.state
        + ". Details: https://ci.appveyor.com/project/widelands-dev/widelands/build/"@
        + appveyor.id + "."@
}

pub fn build_ci_state_update(travis: &CiState, appveyor: &CiState) -> (r: String)
    ensures
        r@ == spec_ci_state_update(travis@, appveyor@),
{
    let mut comment = String::from_str("Continuous integration builds have changed state:\n");
    comment.append("\n");
    comment.append("Travis build ");
    comment.append(travis.number.as_str());
    comment.append(". State: ");
    comment.append(travis.state.as_str());
    comment.append(". Details: https://travis-ci.org/widelands/widelands/builds/");
    comment.append(travis.id.as_str());
    comment.append(".\n");
    comment.append("Appveyor build ");
    comment.append(appveyor.number.as_str());
    comment.append(". State: ");
    comment.append(appveyor.state.as_str());
    comment.append(". Details: https://ci.appveyor.com/project/widelands-dev/widelands/build/");
    comment.append(appveyor.id.as_str());
    comment.append(".");
    proof {
        assert(comment@ =~= spec_ci_state_update(travis@, appveyor@));
    }
    comment
}

/// The refusal posted when a plain merge command arrives while the gating
/// provider is not green.
pub open spec fn spec_refuse_merge_comment(travis: CiStateView) -> Seq<char> {
    "Refusing to merge, since Travis is not green. Use @bunnybot merge force for merging anyways.\n"@
        + "\n"@ + "Travis build "@ + travis.number + ". State: "@ + travis.state
        + ". Details: https://travis-ci.org/widelands/widelands/builds/"@ + travis.id + "."@
}

pub fn build_refuse_merge_comment(travis: &CiState) -> (r: String)
    ensures
        r@ == spec_refuse_merge_comment(travis@),
{
    let mut comment = String::from_str(
        "Refusing to merge, since Travis is not green. Use @bunnybot merge force for merging anyways.\n",
    );
    comment.append("\n");
    comment.append("Travis build ");
    comment.append(travis.number.as_str());
    comment.append(". State: ");
    comment.append(travis.state.as_str());
    comment.append(". Details: https://travis-ci.org/widelands/widelands/builds/");
    comment.append(travis.id.as_str());
    comment.append(".");
    proof {
        assert(comment@ =~= spec_refuse_merge_comment(travis@));
    }
    comment
}

/// The error report posted when a merge attempt failed; a human has to
/// re-trigger.
pub open spec fn spec_error_report_comment(description: Seq<char>) -> Seq<char> {
    "Error merging this proposal:\n\n"@ + description
}

pub fn build_error_report_comment(err: &Error) -> (r: String)
    ensures
        r@ == spec_error_report_comment(spec_describe(err@)),
{
    let mut comment = String::from_str("Error merging this proposal:\n\n");
    let description = err.describe();
    comment.append(description.as_str());
    comment
}

/// The subject line the review platform uses for its own notification mails;
/// reusing it keeps mail threads intact.
pub open spec fn spec_email_subject(source_identity: Seq<char>, target_identity: Seq<char>) -> Seq<
    char,
> {
    "[Merge] "@ + source_identity + " into "@ + target_identity
}

pub fn email_subject(source_identity: &str, target_identity: &str) -> (r: String)
    ensures
        r@ == spec_email_subject(source_identity@, target_identity@),
{
    let mut subject = String::from_str("[Merge] ");
    subject.append(source_identity);
    subject.append(" into ");
    subject.append(target_identity);
    proof {
        assert(subject@ =~= spec_email_subject(source_identity@, target_identity@));
    }
    subject
}

} // verus!
