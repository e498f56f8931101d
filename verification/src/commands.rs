//! The command grammar scanned for in review comments.
//!
//! A command is a comment line that starts with the bot's mention and carries
//! a merge trigger later on the same line; matching is ASCII
//! case-insensitive. The forced trigger extends the plain one, so the forced
//! check has to precede the plain check.

use vstd::prelude::*;
use crate::launchpad::Comment;
use crate::text::char_matches_ci;
use crate::text::match_at_ci;
use crate::text::matches_ci_at;

verus! {

/// The mention that opens a command line.
pub open spec fn mention_word() -> Seq<char> {
    "@bunnybot"@
}

/// The plain merge trigger.
pub open spec fn merge_word() -> Seq<char> {
    "merge"@
}

/// The forced merge trigger.
pub open spec fn force_word() -> Seq<char> {
    "merge force"@
}

pub open spec fn is_line_start(s: Seq<char>, p: int) -> bool {
    p == 0 || s[p - 1] == '\n'
}

pub open spec fn no_newline(s: Seq<char>, a: int, b: int) -> bool {
    forall|k: int| a <= k < b ==> s[k] != '\n'
}

/// A command line begins at position `p`: the line starts with the mention,
/// and `word` occurs further along the same line.
pub open spec fn command_at(s: Seq<char>, p: int, word: Seq<char>) -> bool {
    &&& is_line_start(s, p)
    &&& matches_ci_at(s, p, mention_word())
    &&& exists|q: int|
        p + mention_word().len() <= q && no_newline(s, p + mention_word().len(), q)
            && matches_ci_at(s, q, word)
}

pub open spec fn has_command(s: Seq<char>, word: Seq<char>) -> bool {
    exists|p: int| command_at(s, p, word)
}

/// Scans for `word` from position `from` up to the end of the line that
/// `from` lies on.
fn line_has_word(s: &str, from: usize, word: &str) -> (r: bool)
    requires
        from <= s@.len(),
        word@.len() >= 1,
    ensures
        r == exists|q: int|
            from <= q && no_newline(s@, from as int, q) && matches_ci_at(s@, q, word@),
{
    let n: usize = s.unicode_len();
    let wlen: usize = word.unicode_len();
    let mut q: usize = from;
    loop
        invariant
            from <= q <= n,
            n == s@.len(),
            wlen == word@.len(),
            wlen >= 1,
            no_newline(s@, from as int, q as int),
            forall|t: int| from <= t < q ==> !matches_ci_at(s@, t, word@),
        ensures
            forall|t: int|
                from <= t ==> !(no_newline(s@, from as int, t) && matches_ci_at(s@, t, word@)),
        decreases n - q,
    {
        if n - q >= wlen {
            if match_at_ci(s, q, word) {
                assert(from <= q && no_newline(s@, from as int, q as int) && matches_ci_at(
                    s@,
                    q as int,
                    word@,
                ));
                return true;
            }
        }
        assert(!matches_ci_at(s@, q as int, word@));
        if q == n {
            assert forall|t: int|
                from <= t implies !(no_newline(s@, from as int, t) && matches_ci_at(
                s@,
                t,
                word@,
            )) by {
                if t >= q {
                    assert(!matches_ci_at(s@, t, word@));
                }
            }
            break;
        }
        if s.get_char(q) == '\n' {
            assert forall|t: int|
                from <= t implies !(no_newline(s@, from as int, t) && matches_ci_at(
                s@,
                t,
                word@,
            )) by {
                if t > q {
                    assert(s@[q as int] == '\n');
                    assert(!no_newline(s@, from as int, t));
                }
            }
            break;
        }
        q = q + 1;
    }
    false
}

/// Decides whether the body carries a command line with the given trigger
/// word.
fn body_has_command(s: &str, word: &str) -> (r: bool)
    requires
        word@.len() >= 1,
    ensures
        r == has_command(s@, word@),
{
    proof {
        reveal_strlit("@bunnybot");
    }
    let n: usize = s.unicode_len();
    let mut p: usize = 0;
    while p < n
        invariant
            p <= n,
            n == s@.len(),
            word@.len() >= 1,
            mention_word().len() == 9,
            forall|k: int| 0 <= k < p ==> !command_at(s@, k, word@),
        decreases n - p,
    {
        let at_start = if p == 0 {
            true
        } else {
            s.get_char(p - 1) == '\n'
        };
        let long_enough = n - p >= 9;
        if at_start && long_enough {
            if match_at_ci(s, p, "@bunnybot") {
                if line_has_word(s, p + 9, word) {
                    assert(command_at(s@, p as int, word@));
                    return true;
                } else {
                    assert(!command_at(s@, p as int, word@));
                }
            } else {
                assert(!command_at(s@, p as int, word@));
            }
        } else {
            assert(!command_at(s@, p as int, word@));
        }
        p = p + 1;
    }
    assert forall|k: int| !command_at(s@, k, word@) by {
        if k >= n {
            assert(!matches_ci_at(s@, k, mention_word()));
        }
    }
    false
}

/// Which merge trigger a comment carries.
#[derive(Debug, Clone, Copy, PartialEq, Eq, Structural)]
pub enum MergeCommand {
    Forced,
    Plain,
}

/// The command a comment body carries, if any. The forced trigger is checked
/// first: its pattern extends the plain one, so the other order would
/// misclassify forced commands as plain ones.
pub open spec fn spec_command_of(body: Seq<char>) -> Option<MergeCommand> {
    if has_command(body, force_word()) {
        Some(MergeCommand::Forced)
    } else if has_command(body, merge_word()) {
        Some(MergeCommand::Plain)
    } else {
        None
    }
}

pub fn command_of(body: &str) -> (r: Option<MergeCommand>)
    ensures
        r == spec_command_of(body@),
{
    proof {
        reveal_strlit("merge force");
        reveal_strlit("merge");
    }
    if body_has_command(body, "merge force") {
        Some(MergeCommand::Forced)
    } else if body_has_command(body, "merge") {
        Some(MergeCommand::Plain)
    } else {
        None
    }
}

/// A body that carries the forced trigger also carries the plain one: the
/// plain pattern is a prefix of the forced pattern. This is why the forced
/// check must run first, and why a forced command can never be read as
/// anything but forced.
pub proof fn lemma_force_implies_merge(body: Seq<char>)
    requires
        has_command(body, force_word()),
    ensures
        has_command(body, merge_word()),
        spec_command_of(body) == Some(MergeCommand::Forced),
{
    reveal_strlit("merge force");
    reveal_strlit("merge");
    let p = choose|p: int| command_at(body, p, force_word());
    let base = p + mention_word().len();
    let q = choose|q: int|
        base <= q && no_newline(body, base, q) && matches_ci_at(body, q, force_word());
    assert(matches_ci_at(body, q, merge_word())) by {
        assert(forall|k: int|
            0 <= k < merge_word().len() ==> merge_word()[k] == force_word()[k]);
        assert(forall|k: int|
            0 <= k < merge_word().len() ==> char_matches_ci(body[q + k], merge_word()[k]));
    }
    assert(command_at(body, p, merge_word()));
}

/// The first comment in `comments[start..]` that carries a command, with the
/// command it carries; `None` when no comment in the range carries one.
pub fn find_first_command(comments: &Vec<Comment>, start: usize) -> (r: Option<
    (usize, MergeCommand),
>)
    requires
        start <= comments@.len(),
    ensures
        match r {
            Some(ic) => start <= ic.0 < comments@.len() && spec_command_of(comments@[ic.0 as int]@)
                == Some(ic.1) && forall|j: int|
                start <= j < ic.0 ==> spec_command_of(comments@[j]@) is None,
            None => forall|j: int|
                start <= j < comments@.len() ==> spec_command_of(comments@[j]@) is None,
        },
{
    let n: usize = comments.len();
    let mut i: usize = start;
    while i < n
        invariant
            start <= i <= n,
            n == comments@.len(),
            forall|j: int| start <= j < i ==> spec_command_of(comments@[j]@) is None,
        decreases n - i,
    {
        let c = command_of(comments[i].message_body.as_str());
        match c {
            Some(cmd) => {
                return Some((i, cmd));
            },
            None => {},
        }
        i = i + 1;
    }
    None
}

} // verus!
