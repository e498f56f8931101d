use bunnybot::commands::MergeCommand;
use bunnybot::commands::command_of;
use bunnybot::commands::find_first_command;
use bunnybot::launchpad::Comment;

fn comment(body: &str) -> Comment {
    Comment {
        message_body: body.to_string(),
    }
}

#[test]
fn plain_merge_command() {
    assert_eq!(command_of("@bunnybot merge"), Some(MergeCommand::Plain));
}

#[test]
fn forced_merge_command() {
    assert_eq!(command_of("@bunnybot merge force"), Some(MergeCommand::Forced));
}

#[test]
fn force_takes_precedence_over_plain() {
    // The forced pattern extends the plain one; the forced reading must win.
    assert_eq!(
        command_of("@bunnybot please merge force now"),
        Some(MergeCommand::Forced)
    );
}

#[test]
fn matching_is_case_insensitive() {
    assert_eq!(command_of("@BunnyBot MERGE"), Some(MergeCommand::Plain));
    assert_eq!(command_of("@BUNNYBOT Merge FORCE"), Some(MergeCommand::Forced));
}

#[test]
fn mention_must_start_a_line() {
    assert_eq!(command_of("please @bunnybot merge"), None);
    assert_eq!(
        command_of("first line\n@bunnybot merge"),
        Some(MergeCommand::Plain)
    );
}

#[test]
fn trigger_must_be_on_the_mention_line() {
    assert_eq!(command_of("@bunnybot hello\nmerge"), None);
}

#[test]
fn unrelated_comment_carries_no_command() {
    assert_eq!(command_of("Looks good to me!"), None);
    assert_eq!(command_of(""), None);
}

#[test]
fn words_in_between_are_allowed() {
    assert_eq!(
        command_of("@bunnybot could you merge this?"),
        Some(MergeCommand::Plain)
    );
}

#[test]
fn first_command_in_range_wins() {
    let comments = vec![
        comment("Looks good."),
        comment("@bunnybot merge"),
        comment("@bunnybot merge force"),
    ];
    assert_eq!(
        find_first_command(&comments, 0),
        Some((1, MergeCommand::Plain))
    );
}

#[test]
fn scan_respects_start_of_range() {
    let comments = vec![comment("@bunnybot merge"), comment("nothing here")];
    assert_eq!(find_first_command(&comments, 1), None);
}

#[test]
fn empty_range_finds_nothing() {
    let comments = vec![comment("@bunnybot merge")];
    assert_eq!(find_first_command(&comments, 1), None);
}
