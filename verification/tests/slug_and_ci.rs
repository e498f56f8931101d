use bunnybot::launchpad::Branch;
use bunnybot::launchpad::CiState;
use bunnybot::launchpad::Revisions;
use bunnybot::launchpad::WasUpdated;
use bunnybot::launchpad::full_commit_message;
use bunnybot::launchpad::no_changes_to_commit;
use bunnybot::launchpad::slugify;

#[test]
fn slugify_replaces_every_non_alphanumeric() {
    assert_eq!(
        slugify("~widelands-dev/widelands/trunk"),
        "_widelands_dev_widelands_trunk"
    );
}

#[test]
fn slugify_keeps_alphanumerics() {
    assert_eq!(slugify("abcXYZ059"), "abcXYZ059");
}

#[test]
fn slugify_preserves_length() {
    let input = "a-b c/d!";
    assert_eq!(slugify(input).chars().count(), input.chars().count());
}

#[test]
fn slugify_is_idempotent() {
    let once = slugify("~a/b.c d");
    let twice = slugify(&once);
    assert_eq!(once, twice);
}

#[test]
fn slugify_empty() {
    assert_eq!(slugify(""), "");
}

#[test]
fn terminal_labels_are_not_transitional() {
    for label in ["success", "passed", "failed", "errored", "canceled"] {
        let ci = CiState {
            state: label.to_string(),
            id: String::new(),
            number: String::new(),
        };
        assert!(!ci.is_transitional(), "{label} should be terminal");
    }
}

#[test]
fn other_labels_are_transitional() {
    for label in ["", "pending", "queued", "started", "Passed", "cancelled"] {
        let ci = CiState {
            state: label.to_string(),
            id: String::new(),
            number: String::new(),
        };
        assert!(ci.is_transitional(), "{label:?} should be transitional");
    }
}

#[test]
fn branch_from_unique_name_derives_slug() {
    let b = Branch::from_unique_name("~widelands-dev/widelands/bug-123");
    assert_eq!(b.unique_name, "~widelands-dev/widelands/bug-123");
    assert_eq!(b.slug, "_widelands_dev_widelands_bug_123");
}

#[test]
fn branch_from_lp_api_link_strips_prefix() {
    let b = Branch::from_lp_api_link("https://api.launchpad.net/1.0/~dev/widelands/trunk");
    assert_eq!(b.unique_name, "~dev/widelands/trunk");
    assert_eq!(b.slug, "_dev_widelands_trunk");
}

#[test]
fn revisions_changed_iff_revno_moved() {
    assert!(Revisions { before: 1, after: 2 }.changed());
    assert!(!Revisions { before: 7, after: 7 }.changed());
}

#[test]
fn was_updated_changed() {
    assert!(WasUpdated::Yes(Revisions { before: 1, after: 2 }).changed());
    assert!(!WasUpdated::No.changed());
}

#[test]
fn commit_message_with_body() {
    let msg = full_commit_message("~dev/widelands/fix", &Some("Fix the thing.".to_string()));
    assert_eq!(msg, "Merged lp:~dev/widelands/fix:\nFix the thing.");
}

#[test]
fn commit_message_without_body() {
    let msg = full_commit_message("~dev/widelands/fix", &None);
    assert_eq!(msg, "Merged lp:~dev/widelands/fix.");
}

#[test]
fn benign_commit_failure_is_recognised() {
    assert!(no_changes_to_commit("bzr: ERROR ... No changes to commit. ..."));
    assert!(!no_changes_to_commit("conflict in src/x"));
}
