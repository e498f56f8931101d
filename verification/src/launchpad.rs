//! Branch identity, CI state classification, and the data carried by a merge
//! proposal snapshot.

use vstd::prelude::*;
use crate::text::starts_with;
use crate::text::str_eq;

verus! {

/// A character survives slug derivation unchanged iff it is ASCII
/// alphanumeric.
pub open spec fn is_slug_keep(c: char) -> bool {
    ('A' as int <= c as int && c as int <= 'Z' as int) || ('a' as int <= c as int && c as int
        <= 'z' as int) || ('0' as int <= c as int && c as int <= '9' as int)
}

pub open spec fn slug_char(c: char) -> char {
    if is_slug_keep(c) {
        c
    } else {
        '_'
    }
}

/// The slug of a branch name: every character outside [A-Za-z0-9] is replaced
/// by '_'.
pub open spec fn spec_slugify(s: Seq<char>) -> Seq<char> {
    s.map_values(|c: char| slug_char(c))
}

fn keep_char(c: char) -> (r: bool)
    ensures
        r == is_slug_keep(c),
{
    let u: u32 = c as u32;
    (65 <= u && u <= 90) || (97 <= u && u <= 122) || (48 <= u && u <= 57)
}

/// Derives the filesystem- and CI-safe slug of a branch name.
pub fn slugify(branch: &str) -> (r: String)
    ensures
        r@ == spec_slugify(branch@),
{
    proof {
        reveal_strlit("_");
    }
    let n: usize = branch.unicode_len();
    let mut r = String::new();
    let mut i: usize = 0;
    while i < n
        invariant
            i <= n,
            n == branch@.len(),
            "_"@ =~= seq!['_'],
            r@ == spec_slugify(branch@.take(i as int)),
        decreases n - i,
    {
        let c = branch.get_char(i);
        if keep_char(c) {
            let piece = branch.substring_char(i, i + 1);
            proof {
                assert(piece@ =~= seq![branch@[i as int]]);
            }
            r.append(piece);
        } else {
            r.append("_");
        }
        i = i + 1;
        proof {
            assert(spec_slugify(branch@.take(i as int)) =~= spec_slugify(
                branch@.take(i - 1),
            ).push(slug_char(branch@[i - 1])));
            assert(r@ =~= spec_slugify(branch@.take(i as int)));
        }
    }
    proof {
        assert(branch@.take(n as int) =~= branch@);
    }
    r
}

/// Slug derivation is total and shape-preserving: the slug has the length of
/// its input, consists only of ASCII alphanumerics and '_', and applying the
/// derivation to a slug gives the slug back unchanged.
pub proof fn lemma_slugify_well_formed(s: Seq<char>)
    ensures
        spec_slugify(s).len() == s.len(),
        forall|i: int|
            0 <= i < s.len() ==> is_slug_keep(#[trigger] spec_slugify(s)[i]) || spec_slugify(s)[i]
                == '_',
        spec_slugify(spec_slugify(s)) == spec_slugify(s),
{
    assert(spec_slugify(spec_slugify(s)) =~= spec_slugify(s)) by {
        assert(forall|i: int|
            0 <= i < s.len() ==> slug_char(#[trigger] slug_char(s[i])) == slug_char(s[i]));
    }
}

/// The canonical prefix under which the review platform publishes branch
/// links.
pub open spec fn lp_api_prefix() -> Seq<char> {
    "https://api.launchpad.net/1.0/"@
}

/// A branch, identified by its canonical unique name together with the slug
/// derived from it.
#[derive(Debug, Clone)]
pub struct Branch {
    pub unique_name: String,
    pub slug: String,
}

#[verifier::ext_equal]
pub struct BranchView {
    pub unique_name: Seq<char>,
    pub slug: Seq<char>,
}

impl View for Branch {
    type V = BranchView;

    open spec fn view(&self) -> BranchView {
        BranchView { unique_name: self.unique_name@, slug: self.slug@ }
    }
}

impl Branch {
    /// Well-formed: the slug is the one derived from the unique name.
    pub open spec fn wf(&self) -> bool {
        self.slug@ == spec_slugify(self.unique_name@)
    }

    pub fn from_unique_name(unique_name: &str) -> (r: Branch)
        ensures
            r@.unique_name == unique_name@,
            r.wf(),
    {
        let slug = slugify(unique_name);
        Branch { unique_name: unique_name.to_owned(), slug }
    }

    /// Strips the platform's API prefix off a branch link and derives the
    /// branch from the remaining unique name. The platform guarantees the
    /// prefix, so a link without it is a contract violation and is excluded
    /// here outright.
    pub fn from_lp_api_link(url: &str) -> (r: Branch)
        requires
            starts_with(url@, lp_api_prefix()),
        ensures
            r@.unique_name == url@.skip(lp_api_prefix().len() as int),
            r.wf(),
    {
        proof {
            reveal_strlit("https://api.launchpad.net/1.0/");
        }
        let n: usize = url.unicode_len();
        let rest = url.substring_char(30, n);
        Branch::from_unique_name(rest)
    }
}

/// One remote review comment; comments arrive append-only, oldest first.
#[derive(Debug, Clone)]
pub struct Comment {
    pub message_body: String,
}

impl View for Comment {
    type V = Seq<char>;

    open spec fn view(&self) -> Seq<char> {
        self.message_body@
    }
}

/// The status reported by one CI provider for one branch.
#[derive(Debug, Clone)]
pub struct CiState {
    pub state: String,
    pub id: String,
    pub number: String,
}

#[verifier::ext_equal]
pub struct CiStateView {
    pub state: Seq<char>,
    pub id: Seq<char>,
    pub number: Seq<char>,
}

impl View for CiState {
    type V = CiStateView;

    open spec fn view(&self) -> CiStateView {
        CiStateView { state: self.state@, id: self.id@, number: self.number@ }
    }
}

/// A CI state label is terminal iff it is one of the five finished labels;
/// every other label, the empty string included, counts as transitional, so
/// unknown labels mean "wait" and never trigger an action.
pub open spec fn spec_is_transitional(s: Seq<char>) -> bool {
    !(s == "success"@ || s == "passed"@ || s == "failed"@ || s == "errored"@ || s == "canceled"@)
}

impl CiState {
    pub fn is_transitional(&self) -> (r: bool)
        ensures
            r == spec_is_transitional(self.state@),
    {
        let s = self.state.as_str();
        !(str_eq(s, "success") || str_eq(s, "passed") || str_eq(s, "failed") || str_eq(s, "errored")
            || str_eq(s, "canceled"))
    }
}

impl Default for CiState {
    /// The state recorded before any CI report has been seen: empty labels.
    fn default() -> (r: Self)
        ensures
            r@.state.len() == 0,
            r@.id.len() == 0,
            r@.number.len() == 0,
    {
        CiState { state: String::new(), id: String::new(), number: String::new() }
    }
}

/// A merge proposal snapshot, rebuilt each poll cycle from the review
/// platform.
#[derive(Debug, Clone)]
pub struct MergeProposal {
    pub source_branch: Branch,
    pub target_branch: Branch,
    pub comments: Vec<Comment>,
    pub commit_message: Option<String>,
}

#[verifier::ext_equal]
pub struct MergeProposalView {
    pub source_branch: BranchView,
    pub target_branch: BranchView,
    pub comments: Seq<Seq<char>>,
    pub commit_message: Option<Seq<char>>,
}

impl View for MergeProposal {
    type V = MergeProposalView;

    open spec fn view(&self) -> MergeProposalView {
        MergeProposalView {
            source_branch: self.source_branch@,
            target_branch: self.target_branch@,
            comments: self.comments@.map_values(|c: Comment| c@),
            commit_message: match self.commit_message {
                Some(m) => Some(m@),
                None => None,
            },
        }
    }
}

/// The commit message recorded when `source` is merged: the proposal's
/// commit message when it carries one, a bare closing period otherwise.
pub open spec fn spec_full_commit_message(
    source_unique_name: Seq<char>,
    commit_message: Option<Seq<char>>,
) -> Seq<char> {
    match commit_message {
        Some(m) => "Merged lp:"@ + source_unique_name + ":\n"@ + m,
        None => "Merged lp:"@ + source_unique_name + "."@,
    }
}

pub fn full_commit_message(source_unique_name: &str, commit_message: &Option<String>) -> (r:
    String)
    ensures
        r@ == spec_full_commit_message(
            source_unique_name@,
            match commit_message {
                Some(m) => Some(m@),
                None => None,
            },
        ),
{
    let mut r = String::from_str("Merged lp:");
    r.append(source_unique_name);
    match commit_message {
        Some(m) => {
            r.append(":\n");
            r.append(m.as_str());
        },
        None => {
            r.append(".");
        },
    }
    proof {
        assert(r@ =~= spec_full_commit_message(
            source_unique_name@,
            match commit_message {
                Some(m) => Some(m@),
                None => None,
            },
        ));
    }
    r
}

/// A formatting-fixup commit that had nothing to commit is no failure: the
/// tool's output says so in as many words.
pub fn no_changes_to_commit(stdout: &str) -> (r: bool)
    ensures
        r == crate::text::contains_seq(stdout@, "No changes to commit."@),
{
    crate::text::contains_str(stdout, "No changes to commit.")
}

/// The revision numbers around a mirror pull.
#[derive(Debug, Clone, Copy, PartialEq, Eq, Structural)]
pub struct Revisions {
    pub before: i32,
    pub after: i32,
}

impl Revisions {
    /// A pull changed the mirror iff the revision number moved.
    pub fn changed(&self) -> (r: bool)
        ensures
            r == (self.before != self.after),
    {
        self.before != self.after
    }
}

/// Whether a mirror update brought new content.
#[derive(Debug, Clone, Copy, PartialEq, Eq, Structural)]
pub enum WasUpdated {
    No,
    Yes(Revisions),
}

impl WasUpdated {
    pub fn changed(&self) -> (r: bool)
        ensures
            r == (self is Yes),
    {
        match self {
            WasUpdated::Yes(_) => true,
            WasUpdated::No => false,
        }
    }
}

} // verus!
