//! The secondary-VCS mirror: parsing what its commands print and planning
//! which commands to run. The run driver executes the plans; the library
//! decides them.

use vstd::prelude::*;
use crate::errors::Error;
use crate::errors::ErrorView;
use crate::launchpad::Branch;
use crate::text::names_of;
use crate::text::str_eq;

verus! {

/// The argument vectors of a command plan.
pub open spec fn plan_view(plan: Seq<Vec<String>>) -> Seq<Seq<Seq<char>>> {
    plan.map_values(|argv: Vec<String>| names_of(argv@))
}

/// The whitespace stripped from the ends of a listed branch name.
pub open spec fn is_blank(c: char) -> bool {
    c == ' ' || c == '\t' || c == '\r'
}

pub open spec fn trim_start_spec(s: Seq<char>) -> Seq<char>
    decreases s.len(),
{
    if s.len() > 0 && is_blank(s[0]) {
        trim_start_spec(s.drop_first())
    } else {
        s
    }
}

pub open spec fn trim_end_spec(s: Seq<char>) -> Seq<char>
    decreases s.len(),
{
    if s.len() > 0 && is_blank(s.last()) {
        trim_end_spec(s.drop_last())
    } else {
        s
    }
}

/// The current branch is listed with a leading "* "; drop that marker.
pub open spec fn strip_current_marker(line: Seq<char>) -> Seq<char> {
    if line.len() >= 2 && line[0] == '*' {
        line.skip(2)
    } else if line.len() == 1 && line[0] == '*' {
        Seq::empty()
    } else {
        line
    }
}

/// One listed line, reduced to the branch name it carries.
pub open spec fn clean_line(line: Seq<char>) -> Seq<char> {
    trim_end_spec(trim_start_spec(strip_current_marker(line)))
}

/// The index of the first line break, or the length when there is none.
pub open spec fn first_newline(s: Seq<char>) -> int
    decreases s.len(),
{
    if s.len() == 0 {
        0
    } else if s[0] == '\n' {
        0
    } else {
        1 + first_newline(s.drop_first())
    }
}

pub proof fn lemma_first_newline_bounds(s: Seq<char>)
    ensures
        0 <= first_newline(s) <= s.len(),
        forall|k: int| 0 <= k < first_newline(s) ==> s[k] != '\n',
        first_newline(s) < s.len() ==> s[first_newline(s)] == '\n',
    decreases s.len(),
{
    if s.len() == 0 {
    } else if s[0] == '\n' {
    } else {
        let tail = s.drop_first();
        lemma_first_newline_bounds(tail);
        assert(forall|k: int| 0 <= k < tail.len() ==> tail[k] == s[k + 1]);
        assert forall|k: int| 0 <= k < first_newline(s) implies s[k] != '\n' by {
            if k > 0 {
                assert(s[k] == tail[k - 1]);
                assert(tail[k - 1] != '\n');
            }
        }
    }
}

/// An index at which the scan stopped — no break before it, a break or the
/// end at it — is the first line break.
pub proof fn lemma_first_newline_at(s: Seq<char>, j: int)
    requires
        0 <= j <= s.len(),
        forall|k: int| 0 <= k < j ==> s[k] != '\n',
        j == s.len() || s[j] == '\n',
    ensures
        first_newline(s) == j,
    decreases s.len(),
{
    if s.len() == 0 {
    } else if s[0] == '\n' {
    } else {
        let tail = s.drop_first();
        assert(forall|k: int| 0 <= k < tail.len() ==> tail[k] == s[k + 1]);
        lemma_first_newline_at(tail, j - 1);
    }
}

/// The branch names in the listing, line by line: what `git branch` prints,
/// split at line breaks, each line stripped of its current-branch marker and
/// surrounding blanks. A trailing line break yields no empty final entry.
pub open spec fn parse_branch_lines(s: Seq<char>) -> Seq<Seq<char>>
    decreases s.len(),
{
    if s.len() == 0 {
        Seq::empty()
    } else {
        let j = first_newline(s);
        proof {
            lemma_first_newline_bounds(s);
        }
        if j >= s.len() {
            seq![clean_line(s)]
        } else {
            seq![clean_line(s.take(j))] + parse_branch_lines(s.skip(j + 1))
        }
    }
}

pub proof fn lemma_trim_start_skip(s: Seq<char>, k: int)
    requires
        0 <= k <= s.len(),
        forall|j: int| 0 <= j < k ==> is_blank(s[j]),
        k == s.len() || !is_blank(s[k]),
    ensures
        trim_start_spec(s) == s.skip(k),
    decreases s.len(),
{
    if k == 0 {
        assert(s.skip(0) =~= s);
    } else {
        let tail = s.drop_first();
        assert(forall|j: int| 0 <= j < tail.len() ==> tail[j] == s[j + 1]);
        lemma_trim_start_skip(tail, k - 1);
        assert(tail.skip(k - 1) =~= s.skip(k));
    }
}

pub proof fn lemma_trim_end_take(s: Seq<char>, k: int)
    requires
        0 <= k <= s.len(),
        forall|j: int| k <= j < s.len() ==> is_blank(s[j]),
        k == 0 || !is_blank(s[k - 1]),
    ensures
        trim_end_spec(s) == s.take(k),
    decreases s.len(),
{
    if k == s.len() {
        assert(s.take(k) =~= s);
    } else {
        let head = s.drop_last();
        assert(forall|j: int| 0 <= j < head.len() ==> head[j] == s[j]);
        lemma_trim_end_take(head, k);
        assert(head.take(k) =~= s.take(k));
    }
}

fn blank(c: char) -> (r: bool)
    ensures
        r == is_blank(c),
{
    c == ' ' || c == '\t' || c == '\r'
}

/// Reduces one listed line to the branch name it carries.
fn clean_line_exec(line: &str) -> (r: String)
    ensures
        r@ == clean_line(line@),
{
    let n: usize = line.unicode_len();
    let start0: usize = if n >= 1 && line.get_char(0) == '*' {
        if n >= 2 {
            2
        } else {
            1
        }
    } else {
        0
    };
    proof {
        assert(line@.subrange(start0 as int, n as int) =~= strip_current_marker(line@));
    }
    let mut a: usize = start0;
    loop
        invariant
            start0 <= a <= n,
            n == line@.len(),
            forall|j: int| start0 <= j < a ==> is_blank(line@[j]),
        ensures
            start0 <= a <= n,
            forall|j: int| start0 <= j < a ==> is_blank(line@[j]),
            a == n || !is_blank(line@[a as int]),
        decreases n - a,
    {
        if a == n {
            break;
        }
        if !blank(line.get_char(a)) {
            break;
        }
        a = a + 1;
    }
    proof {
        let t = strip_current_marker(line@);
        assert(forall|j: int| 0 <= j < t.len() ==> t[j] == line@[start0 + j]);
        lemma_trim_start_skip(t, a - start0);
        assert(t.skip(a - start0) =~= line@.subrange(a as int, n as int));
    }
    let mut b: usize = n;
    loop
        invariant
            a <= b <= n,
            n == line@.len(),
            forall|j: int| b <= j < n ==> is_blank(line@[j]),
        ensures
            a <= b <= n,
            forall|j: int| b <= j < n ==> is_blank(line@[j]),
            b == a || !is_blank(line@[b - 1]),
        decreases b,
    {
        if b == a {
            break;
        }
        if !blank(line.get_char(b - 1)) {
            break;
        }
        b = b - 1;
    }
    proof {
        let u = line@.subrange(a as int, n as int);
        assert(forall|j: int| 0 <= j < u.len() ==> u[j] == line@[a + j]);
        lemma_trim_end_take(u, b - a);
        assert(u.take(b - a) =~= line@.subrange(a as int, b as int));
    }
    let mut r = String::new();
    let mut i: usize = a;
    while i < b
        invariant
            a <= i <= b <= n,
            n == line@.len(),
            r@ == line@.subrange(a as int, i as int),
        decreases b - i,
    {
        let piece = line.substring_char(i, i + 1);
        proof {
            assert(piece@ =~= seq![line@[i as int]]);
        }
        r.append(piece);
        proof {
            assert(line@.subrange(a as int, i + 1) =~= line@.subrange(a as int, i as int).push(
                line@[i as int],
            ));
            assert(r@ =~= line@.subrange(a as int, i + 1));
        }
        i = i + 1;
    }
    r
}

/// The branch names in a `git branch` listing.
pub fn branches(output: &str) -> (r: Vec<String>)
    ensures
        names_of(r@) == parse_branch_lines(output@),
    decreases output@.len(),
{
    let n: usize = output.unicode_len();
    if n == 0 {
        let r: Vec<String> = Vec::new();
        proof {
            assert(names_of(r@) =~= parse_branch_lines(output@));
        }
        return r;
    }
    let mut j: usize = 0;
    loop
        invariant
            j <= n,
            n == output@.len(),
            forall|k: int| 0 <= k < j ==> output@[k] != '\n',
        ensures
            j <= n,
            forall|k: int| 0 <= k < j ==> output@[k] != '\n',
            j == n || output@[j as int] == '\n',
        decreases n - j,
    {
        if j == n {
            break;
        }
        if output.get_char(j) == '\n' {
            break;
        }
        j = j + 1;
    }
    proof {
        lemma_first_newline_at(output@, j as int);
    }
    if j == n {
        let cleaned = clean_line_exec(output);
        let mut r: Vec<String> = Vec::new();
        r.push(cleaned);
        proof {
            assert(names_of(r@) =~= seq![clean_line(output@)]);
        }
        r
    } else {
        let line = output.substring_char(0, j);
        let cleaned = clean_line_exec(line);
        let rest = output.substring_char(j + 1, n);
        proof {
            assert(rest@ =~= output@.skip(j + 1));
        }
        let mut r = branches(rest);
        r.insert(0, cleaned);
        proof {
            assert(line@ =~= output@.take(j as int));
            assert(names_of(r@) =~= seq![clean_line(output@.take(j as int))] + parse_branch_lines(
                output@.skip(j + 1),
            ));
        }
        r
    }
}

/// The command that checks out `branch` in the secondary mirror.
pub fn checkout_branch(branch: &str) -> (argv: Vec<String>)
    ensures
        names_of(argv@) == seq!["git"@, "checkout"@, branch@],
{
    let mut argv: Vec<String> = Vec::new();
    argv.push(String::from_str("git"));
    argv.push(String::from_str("checkout"));
    argv.push(String::from_str(branch));
    proof {
        assert(names_of(argv@) =~= seq!["git"@, "checkout"@, branch@]);
    }
    argv
}

/// The command that deletes `branch` from the secondary remote, by pushing
/// an empty refspec.
pub fn delete_remote_branch(branch: &str) -> (argv: Vec<String>)
    ensures
        names_of(argv@) == seq!["git"@, "push"@, "github"@, ":"@ + branch@],
{
    let mut refspec = String::from_str(":");
    refspec.append(branch);
    let mut argv: Vec<String> = Vec::new();
    argv.push(String::from_str("git"));
    argv.push(String::from_str("push"));
    argv.push(String::from_str("github"));
    argv.push(refspec);
    proof {
        assert(names_of(argv@) =~= seq!["git"@, "push"@, "github"@, ":"@ + branch@]);
    }
    argv
}

/// The commands that delete a local branch: check out the main branch first,
/// then delete. The main branch itself can never be deleted.
pub fn delete_local_branch(branch: &str) -> (r: Result<Vec<Vec<String>>, Error>)
    ensures
        match r {
            Ok(plan) => branch@ != "master"@ && plan_view(plan@) == seq![
                seq!["git"@, "checkout"@, "master"@],
                seq!["git"@, "branch"@, "-D"@, branch@],
            ],
            Err(e) => branch@ == "master"@ && e@ == ErrorView::Msg(
                "Cannot delete master branch."@,
            ),
        },
{
    if str_eq(branch, "master") {
        return Err(Error::Msg(String::from_str("Cannot delete master branch.")));
    }
    let checkout = checkout_branch("master");
    let mut delete: Vec<String> = Vec::new();
    delete.push(String::from_str("git"));
    delete.push(String::from_str("branch"));
    delete.push(String::from_str("-D"));
    delete.push(String::from_str(branch));
    let mut plan: Vec<Vec<String>> = Vec::new();
    plan.push(checkout);
    plan.push(delete);
    proof {
        assert(names_of(delete@) =~= seq!["git"@, "branch"@, "-D"@, branch@]);
        assert(plan_view(plan@) =~= seq![
            seq!["git"@, "checkout"@, "master"@],
            seq!["git"@, "branch"@, "-D"@, branch@],
        ]);
    }
    Ok(plan)
}

/// The commands that propagate this branch's primary mirror into the
/// secondary VCS: point the bridge at the branch, fetch, create the tracking
/// branch if the listing does not show it yet, then check out, pull, and
/// force-push.
pub open spec fn spec_update_git_plan(slug: Seq<char>, have_branch: bool) -> Seq<Seq<Seq<char>>> {
    let head = seq![
        seq!["git"@, "config"@, "remote-bzr.branches"@, slug],
        seq!["git"@, "fetch"@, "bzr_origin"@],
    ];
    let track = if have_branch {
        Seq::<Seq<Seq<char>>>::empty()
    } else {
        seq![seq!["git"@, "branch"@, "--track"@, slug, "bzr_origin/"@ + slug]]
    };
    head + track + seq![
        seq!["git"@, "checkout"@, slug],
        seq!["git"@, "pull"@],
        seq!["git"@, "push"@, "github"@, slug, "--force"@],
    ]
}

impl Branch {
    /// Plans the secondary-mirror propagation for this branch, given the
    /// branch names the secondary mirror currently lists.
    pub fn update_git(&self, existing_branches: &Vec<String>) -> (plan: Vec<Vec<String>>)
        ensures
            plan_view(plan@) == spec_update_git_plan(
                self@.slug,
                names_of(existing_branches@).contains(self@.slug),
            ),
    {
        let have_branch = crate::gc::vec_contains_str(existing_branches, self.slug.as_str());
        let mut plan: Vec<Vec<String>> = Vec::new();

        let mut config: Vec<String> = Vec::new();
        config.push(String::from_str("git"));
        config.push(String::from_str("config"));
        config.push(String::from_str("remote-bzr.branches"));
        config.push(self.slug.clone());
        plan.push(config);

        let mut fetch: Vec<String> = Vec::new();
        fetch.push(String::from_str("git"));
        fetch.push(String::from_str("fetch"));
        fetch.push(String::from_str("bzr_origin"));
        plan.push(fetch);

        if !have_branch {
            let mut remote = String::from_str("bzr_origin/");
            remote.append(self.slug.as_str());
            let mut track: Vec<String> = Vec::new();
            track.push(String::from_str("git"));
            track.push(String::from_str("branch"));
            track.push(String::from_str("--track"));
            track.push(self.slug.clone());
            track.push(remote);
            plan.push(track);
        }
        plan.push(checkout_branch(self.slug.as_str()));

        let mut pull: Vec<String> = Vec::new();
        pull.push(String::from_str("git"));
        pull.push(String::from_str("pull"));
        plan.push(pull);

        let mut push: Vec<String> = Vec::new();
        push.push(String::from_str("git"));
        push.push(String::from_str("push"));
        push.push(String::from_str("github"));
        push.push(self.slug.clone());
        push.push(String::from_str("--force"));
        plan.push(push);

        proof {
            assert(plan_view(plan@) =~~= spec_update_git_plan(
                self@.slug,
                names_of(existing_branches@).contains(self@.slug),
            ));
        }
        plan
    }
}

} // verus!
