//! The seam between the daemon and `git`/`gh`: the values that cross it.


pub mod commands;
pub mod depends;
pub mod fake;
pub mod payload;
pub mod runner;
pub mod shell;

use vstd::prelude::*;

use crate::failure::{IoError, JsonError};
use crate::numbers::decimal_text;
use crate::text::strip_prefix;

verus! {

/// Errors from a `git`/`gh` subprocess call.
#[derive(Debug)]
#[non_exhaustive]
pub enum VcsError {
    /// The configured `git` or `gh` binary could not be found or executed.
    BinaryNotFound {
        /// The binary that could not be located.
        binary: String,
    },
    /// Spawning the subprocess itself failed.
    Spawn {
        /// The command line that failed to spawn.
        command: String,
        /// The underlying I/O failure.
        source: IoError,
    },
    /// The subprocess ran and exited with a non-zero status.
    CommandFailed {
        /// The command line that failed.
        command: String,
        /// The process exit status; -1 when a signal terminated it.
        status: i32,
        /// The captured stderr, trimmed.
        stderr: String,
    },
    /// The subprocess succeeded, but its output was not the JSON expected.
    InvalidJson {
        /// The command line whose output failed to parse.
        command: String,
        /// The underlying parse failure.
        source: JsonError,
    },
    /// `gh` is not authenticated for the given repo.
    NotAuthenticated {
        /// The repo slug that authentication was checked against.
        repo: String,
    },
    /// The subprocess succeeded, but its plain-text output was not of the
    /// shape expected.
    UnexpectedOutput {
        /// The command line whose output did not match.
        command: String,
        /// The actual output received.
        output: String,
    },
}

/// The contents of a [`VcsError`].
pub enum VcsErrorView {
    BinaryNotFound { binary: Seq<char> },
    Spawn { command: Seq<char>, source: crate::failure::IoErrorView },
    CommandFailed { command: Seq<char>, status: i32, stderr: Seq<char> },
    InvalidJson { command: Seq<char>, source: crate::failure::JsonErrorView },
    NotAuthenticated { repo: Seq<char> },
    UnexpectedOutput { command: Seq<char>, output: Seq<char> },
}

impl View for VcsError {
    type V = VcsErrorView;

    open spec fn view(&self) -> VcsErrorView {
        match *self {
            VcsError::BinaryNotFound { binary } => VcsErrorView::BinaryNotFound {
                binary: binary@,
            },
            VcsError::Spawn { command, source } => VcsErrorView::Spawn {
                command: command@,
                source: source@,
            },
            VcsError::CommandFailed { command, status, stderr } => VcsErrorView::CommandFailed {
                command: command@,
                status,
                stderr: stderr@,
            },
            VcsError::InvalidJson { command, source } => VcsErrorView::InvalidJson {
                command: command@,
                source: source@,
            },
            VcsError::NotAuthenticated { repo } => VcsErrorView::NotAuthenticated { repo: repo@ },
            VcsError::UnexpectedOutput { command, output } => VcsErrorView::UnexpectedOutput {
                command: command@,
                output: output@,
            },
        }
    }
}

/// The contents of what a call gave back.
pub open spec fn outcome<T: View>(result: Result<T, VcsError>) -> Result<T::V, VcsErrorView> {
    match result {
        Ok(value) => Ok(value@),
        Err(error) => Err(error@),
    }
}

/// A local worktree and branch checkout for one issue.
#[derive(Debug, Eq, PartialEq)]
pub struct Worktree {
    /// The issue this worktree was created for.
    pub issue_number: u64,
    /// The worktree's path on disk: `<project_dir>/<branch>`.
    pub path: String,
    /// The branch checked out in this worktree.
    pub branch: String,
    /// The short slug embedded in `branch`.
    pub slug: String,
}

/// The contents of a [`Worktree`].
pub struct WorktreeView {
    pub issue_number: u64,
    pub path: Seq<char>,
    pub branch: Seq<char>,
    pub slug: Seq<char>,
}

impl View for Worktree {
    type V = WorktreeView;

    open spec fn view(&self) -> WorktreeView {
        WorktreeView {
            issue_number: self.issue_number,
            path: self.path@,
            branch: self.branch@,
            slug: self.slug@,
        }
    }
}

impl Clone for Worktree {
    fn clone(&self) -> (copy: Self)
        ensures
            copy@ == self@,
    {
        Worktree {
            issue_number: self.issue_number,
            path: self.path.clone(),
            branch: self.branch.clone(),
            slug: self.slug.clone(),
        }
    }
}

/// What a branch made for `issue_number` begins with.
pub open spec fn branch_prefix(issue_number: u64) -> Seq<char> {
    "issue-"@ + crate::numbers::decimal(issue_number as nat) + "-"@
}

/// The slug in `branch`: what follows the conventional prefix, or the whole
/// branch where it does not carry one.
pub open spec fn slug_of(branch: Seq<char>, issue_number: u64) -> Seq<char> {
    match crate::text::after_prefix(branch, branch_prefix(issue_number)) {
        Some(slug) => slug,
        None => branch,
    }
}

/// The short slug embedded in `branch` (`widget-cache` in
/// `issue-42-widget-cache`), or the whole branch where it does not carry the
/// conventional prefix.
pub fn branch_slug(branch: &str, issue_number: u64) -> (slug: String)
    ensures
        slug@ == slug_of(branch@, issue_number),
{
    let prefix = "issue-".to_string().concat(decimal_text(issue_number).as_str()).concat("-");
    match strip_prefix(branch, prefix.as_str()) {
        Some(slug) => slug.to_string(),
        None => branch.to_string(),
    }
}

/// Whether a GitHub issue is open or closed.
#[derive(Clone, Copy, Debug, Eq, PartialEq, Structural)]
pub enum IssueState {
    /// The issue is open.
    Open,
    /// The issue is closed.
    Closed,
}

/// Whether a pull request is open, closed, or merged.
#[derive(Clone, Copy, Debug, Eq, PartialEq, Structural)]
pub enum PullRequestState {
    /// The pull request is open.
    Open,
    /// The pull request was closed without merging.
    Closed,
    /// The pull request was merged.
    Merged,
}

/// A pull request's CI conclusion, aggregated across every check run against
/// its latest commit.
#[derive(Clone, Copy, Debug, Eq, PartialEq, Structural)]
pub enum CiConclusion {
    /// At least one check is still running, or no check has reported yet.
    Pending,
    /// Every reported check succeeded.
    Success,
    /// At least one check failed or errored.
    Failure,
}

/// A pull request's current state, CI conclusion, and merge-queue enrollment.
#[derive(Clone, Copy, Debug, Eq, PartialEq, Structural)]
pub struct PullRequestStatus {
    /// The pull request number this status was read for.
    pub number: u64,
    /// Open, closed, or merged.
    pub state: PullRequestState,
    /// The aggregated CI conclusion for its latest commit.
    pub ci: CiConclusion,
    /// Whether the pull request currently holds a merge-queue entry.
    pub in_merge_queue: bool,
}

impl View for PullRequestStatus {
    type V = PullRequestStatus;

    open spec fn view(&self) -> PullRequestStatus {
        *self
    }
}

/// A GitHub issue as `gh issue view` gives it back.
#[derive(Debug, Eq, PartialEq)]
pub struct IssueRef {
    /// The issue number, scoped to its repo.
    pub number: u64,
    /// The issue title.
    pub title: String,
    /// The issue body (markdown).
    pub body: String,
    /// Every label currently on the issue.
    pub labels: Vec<String>,
    /// Open or closed.
    pub state: IssueState,
}

/// The contents of an [`IssueRef`].
pub struct IssueRefView {
    pub number: u64,
    pub title: Seq<char>,
    pub body: Seq<char>,
    pub labels: Seq<Seq<char>>,
    pub state: IssueState,
}

impl View for IssueRef {
    type V = IssueRefView;

    open spec fn view(&self) -> IssueRefView {
        IssueRefView {
            number: self.number,
            title: self.title@,
            body: self.body@,
            labels: crate::text::texts(self.labels@),
            state: self.state,
        }
    }
}

impl Clone for IssueRef {
    fn clone(&self) -> (copy: Self)
        ensures
            copy@ == self@,
    {
        IssueRef {
            number: self.number,
            title: self.title.clone(),
            body: self.body.clone(),
            labels: crate::text::clone_texts(&self.labels),
            state: self.state,
        }
    }
}

/// A pull request as read back after it was opened.
#[derive(Debug, Eq, PartialEq)]
pub struct PullRequestRef {
    /// The pull request number.
    pub number: u64,
    /// The pull request's HTML URL.
    pub url: String,
    /// The head branch the pull request was opened from.
    pub branch: String,
}

/// The contents of a [`PullRequestRef`].
pub struct PullRequestRefView {
    pub number: u64,
    pub url: Seq<char>,
    pub branch: Seq<char>,
}

impl View for PullRequestRef {
    type V = PullRequestRefView;

    open spec fn view(&self) -> PullRequestRefView {
        PullRequestRefView { number: self.number, url: self.url@, branch: self.branch@ }
    }
}

impl Clone for PullRequestRef {
    fn clone(&self) -> (copy: Self)
        ensures
            copy@ == self@,
    {
        PullRequestRef {
            number: self.number,
            url: self.url.clone(),
            branch: self.branch.clone(),
        }
    }
}

/// An issue's dependency and hierarchy edges.
#[derive(Debug, Eq, PartialEq)]
pub struct IssueRelationships {
    /// Issues that must merge before this one can enqueue.
    pub blocked_by: Vec<u64>,
    /// Issues blocked on this one.
    pub blocking: Vec<u64>,
    /// The parent issue, if this is a sub-issue.
    pub parent: Option<u64>,
    /// This issue's sub-issues, if any.
    pub sub_issues: Vec<u64>,
}

/// The contents of [`IssueRelationships`].
pub struct IssueRelationshipsView {
    pub blocked_by: Seq<u64>,
    pub blocking: Seq<u64>,
    pub parent: Option<u64>,
    pub sub_issues: Seq<u64>,
}

impl View for IssueRelationships {
    type V = IssueRelationshipsView;

    open spec fn view(&self) -> IssueRelationshipsView {
        IssueRelationshipsView {
            blocked_by: self.blocked_by@,
            blocking: self.blocking@,
            parent: self.parent,
            sub_issues: self.sub_issues@,
        }
    }
}

/// No edges at all.
pub open spec fn no_relationships() -> IssueRelationshipsView {
    IssueRelationshipsView {
        blocked_by: Seq::empty(),
        blocking: Seq::empty(),
        parent: None,
        sub_issues: Seq::empty(),
    }
}

impl Default for IssueRelationships {
    fn default() -> (edges: Self)
        ensures
            edges@ == no_relationships(),
    {
        IssueRelationships {
            blocked_by: Vec::new(),
            blocking: Vec::new(),
            parent: None,
            sub_issues: Vec::new(),
        }
    }
}

impl Clone for IssueRelationships {
    fn clone(&self) -> (copy: Self)
        ensures
            copy@ == self@,
    {
        let copy = IssueRelationships {
            blocked_by: self.blocked_by.clone(),
            blocking: self.blocking.clone(),
            parent: self.parent,
            sub_issues: self.sub_issues.clone(),
        };
        assert(copy.blocked_by@ =~= self.blocked_by@);
        assert(copy.blocking@ =~= self.blocking@);
        assert(copy.sub_issues@ =~= self.sub_issues@);
        copy
    }
}

/// The contents of several pull requests.
pub open spec fn pull_requests_view(refs: Seq<PullRequestRef>) -> Seq<PullRequestRefView> {
    refs.map_values(|pr: PullRequestRef| pr@)
}

/// Whether a label is another one than `label`.
pub open spec fn other_than(label: Seq<char>) -> spec_fn(Seq<char>) -> bool {
    |other: Seq<char>| other != label
}

/// An issue's labels once one of them has been set or cleared.
pub open spec fn labels_after(labels: Seq<Seq<char>>, label: Seq<char>, present: bool) -> Seq<
    Seq<char>,
> {
    if !present {
        labels.filter(other_than(label))
    } else if labels.contains(label) {
        labels
    } else {
        labels.push(label)
    }
}

/// One call across the seam: what was asked, and what came back.
pub enum VcsCall {
    GitAvailable { result: Result<(), VcsErrorView> },
    GhAvailable { result: Result<(), VcsErrorView> },
    GhAuthenticated { repo: Seq<char>, result: Result<bool, VcsErrorView> },
    DetectRepoSlug { repo_dir: Seq<char>, result: Result<Seq<char>, VcsErrorView> },
    DetectDefaultBranch { repo_dir: Seq<char>, result: Result<Seq<char>, VcsErrorView> },
    MergeQueueEnabled {
        repo: Seq<char>,
        default_branch: Seq<char>,
        result: Result<bool, VcsErrorView>,
    },
    WorktreeAdd {
        primary_checkout: Seq<char>,
        project_dir: Seq<char>,
        branch: Seq<char>,
        issue_number: u64,
        result: Result<WorktreeView, VcsErrorView>,
    },
    WorktreeRemove {
        primary_checkout: Seq<char>,
        worktree: WorktreeView,
        result: Result<(), VcsErrorView>,
    },
    Commit { worktree_path: Seq<char>, message: Seq<char>, result: Result<(), VcsErrorView> },
    Push { worktree_path: Seq<char>, branch: Seq<char>, result: Result<(), VcsErrorView> },
    CreateIssue {
        repo: Seq<char>,
        title: Seq<char>,
        body: Seq<char>,
        result: Result<IssueRefView, VcsErrorView>,
    },
    ReadIssue { repo: Seq<char>, number: u64, result: Result<IssueRefView, VcsErrorView> },
    ListOpenIssues { repo: Seq<char>, limit: u32, result: Result<Seq<u64>, VcsErrorView> },
    SetLabel {
        repo: Seq<char>,
        number: u64,
        label: Seq<char>,
        present: bool,
        result: Result<(), VcsErrorView>,
    },
    EnsureLabel { repo: Seq<char>, label: Seq<char>, result: Result<(), VcsErrorView> },
    PostComment {
        repo: Seq<char>,
        number: u64,
        body: Seq<char>,
        result: Result<(), VcsErrorView>,
    },
    OpenPr {
        repo: Seq<char>,
        branch: Seq<char>,
        base: Seq<char>,
        title: Seq<char>,
        body: Seq<char>,
        result: Result<PullRequestRefView, VcsErrorView>,
    },
    EnqueueMerge { repo: Seq<char>, number: u64, result: Result<(), VcsErrorView> },
    ReadRelationships {
        repo: Seq<char>,
        number: u64,
        result: Result<IssueRelationshipsView, VcsErrorView>,
    },
    FindLinkedPullRequests {
        repo: Seq<char>,
        number: u64,
        result: Result<Seq<PullRequestRefView>, VcsErrorView>,
    },
    ReadPullRequestStatus {
        repo: Seq<char>,
        number: u64,
        result: Result<PullRequestStatus, VcsErrorView>,
    },
}

/// Whether a call only asks, and so changes nothing on either side.
pub open spec fn is_read(call: VcsCall) -> bool {
    ||| call is GitAvailable
    ||| call is GhAvailable
    ||| call is GhAuthenticated
    ||| call is DetectRepoSlug
    ||| call is DetectDefaultBranch
    ||| call is MergeQueueEnabled
    ||| call is ReadIssue
    ||| call is ListOpenIssues
    ||| call is ReadRelationships
    ||| call is FindLinkedPullRequests
    ||| call is ReadPullRequestStatus
}

/// Whether every call from position `from` up to `end` only asks.
pub open spec fn all_read(calls: Seq<VcsCall>, from: int, end: int) -> bool {
    forall|i: int| from <= i < end ==> is_read(#[trigger] calls[i])
}

/// The contents of a list of pull requests, or of the error in its place.
pub open spec fn pull_requests_outcome(
    result: Result<Vec<PullRequestRef>, VcsError>,
) -> Result<Seq<PullRequestRefView>, VcsErrorView> {
    match result {
        Ok(refs) => Ok(pull_requests_view(refs@)),
        Err(error) => Err(error@),
    }
}

/// What [`Vcs::ensure_ready`] comes to, given the calls from position `from`
/// on: its result, and the position after the last call that it made. `None`
/// where those are not the calls that it makes.
pub open spec fn ready_run(calls: Seq<VcsCall>, from: int, repo: Seq<char>) -> Option<
    (Result<(), VcsErrorView>, int),
> {
    if from >= calls.len() {
        None
    } else if let VcsCall::GitAvailable { result: Err(error) } = calls[from] {
        Some((Err(error), from + 1))
    } else if !(calls[from] is GitAvailable) || from + 1 >= calls.len() {
        None
    } else if let VcsCall::GhAvailable { result: Err(error) } = calls[from + 1] {
        Some((Err(error), from + 2))
    } else if !(calls[from + 1] is GhAvailable) || from + 2 >= calls.len() {
        None
    } else if let VcsCall::GhAuthenticated { repo: asked, result } = calls[from + 2] {
        if asked != repo {
            None
        } else {
            match result {
                Err(error) => Some((Err(error), from + 3)),
                Ok(true) => Some((Ok(()), from + 3)),
                Ok(false) => Some((Err(VcsErrorView::NotAuthenticated { repo }), from + 3)),
            }
        }
    } else {
        None
    }
}

/// The record that an implementation of the seam keeps, and what it answers.
pub trait Recorded: Sized {
    /// Every call made so far, in order.
    closed spec fn history(&self) -> Seq<VcsCall> {
        arbitrary()
    }

    /// Whether `before` may answer a call as recorded and become `after`.
    closed spec fn answers(before: Self, call: VcsCall, after: Self) -> bool {
        true
    }
}

/// Whether each of several states answers the call at its position and becomes
/// the next one.
pub open spec fn is_trail<V: Recorded>(states: Seq<V>, calls: Seq<VcsCall>) -> bool {
    &&& states.len() == calls.len() + 1
    &&& forall|i: int|
        #![trigger calls[i]]
        0 <= i < calls.len() ==> V::answers(states[i], calls[i], states[i + 1])
}

/// Whether `before` becomes `after` by answering, one after the other, the calls
/// that `after` has recorded beyond those of `before`.
#[verifier::opaque]
pub open spec fn leads<V: Recorded>(before: V, after: V) -> bool {
    &&& before.history().is_prefix_of(after.history())
    &&& exists|states: Seq<V>| #[trigger]
        is_trail(states, after.history().skip(before.history().len() as int)) && states.first()
            == before && states.last() == after
}

/// No call leads nowhere else.
pub proof fn leads_nowhere<V: Recorded>(state: V)
    ensures
        leads(state, state),
        state.history().is_prefix_of(state.history()),
{
    reveal(leads);
    let states = seq![state];
    let none = state.history().skip(state.history().len() as int);
    assert(state.history().subrange(0, state.history().len() as int) =~= state.history());
    assert(none =~= Seq::<VcsCall>::empty());
    assert(is_trail(states, none));
}

/// Where some calls lead, one call more leads on.
pub proof fn leads_on<V: Recorded>(start: V, before: V, after: V)
    requires
        leads(start, before),
        after.history() == before.history().push(after.history().last()),
        V::answers(before, after.history().last(), after),
    ensures
        leads(start, after),
        start.history().is_prefix_of(after.history()),
{
    reveal(leads);
    let n = start.history().len() as int;
    let calls = before.history().skip(n);
    let more = after.history().skip(n);
    let states = choose|states: Seq<V>| #[trigger]
        is_trail(states, calls) && states.first() == start && states.last() == before;
    let longer = states.push(after);
    assert(start.history() =~= after.history().subrange(0, n)) by {
        assert(start.history() =~= before.history().subrange(0, n));
    }
    assert(more =~= calls.push(after.history().last()));
    assert forall|i: int|
        #![trigger more[i]]
        0 <= i < more.len() implies V::answers(longer[i], more[i], longer[i + 1]) by {
        if i < calls.len() {
            assert(more[i] == calls[i]);
        }
    }
    assert(is_trail(longer, more));
    assert(longer.first() == start);
}

/// Where one call leads.
pub proof fn leads_by_one<V: Recorded>(before: V, after: V)
    requires
        after.history() == before.history().push(after.history().last()),
        V::answers(before, after.history().last(), after),
    ensures
        leads(before, after),
        before.history().is_prefix_of(after.history()),
{
    reveal(leads);
    leads_nowhere(before);
    leads_on(before, before, after);
}

/// Where some calls lead, more calls lead on.
pub proof fn leads_further<V: Recorded>(start: V, between: V, end: V)
    requires
        leads(start, between),
        leads(between, end),
    ensures
        leads(start, end),
        start.history().is_prefix_of(end.history()),
{
    reveal(leads);
    let n = start.history().len() as int;
    let m = between.history().len() as int;
    let first = between.history().skip(n);
    let second = end.history().skip(m);
    let all = end.history().skip(n);
    let a = choose|states: Seq<V>| #[trigger]
        is_trail(states, first) && states.first() == start && states.last() == between;
    let b = choose|states: Seq<V>| #[trigger]
        is_trail(states, second) && states.first() == between && states.last() == end;
    let states = a + b.skip(1);
    assert(start.history() =~= end.history().subrange(0, n)) by {
        assert(start.history() =~= between.history().subrange(0, n));
        assert(between.history() =~= end.history().subrange(0, m));
    }
    assert(all =~= first + second) by {
        assert(between.history() =~= end.history().subrange(0, m));
    }
    assert forall|i: int|
        #![trigger all[i]]
        0 <= i < all.len() implies V::answers(states[i], all[i], states[i + 1]) by {
        if i < first.len() {
            assert(all[i] == first[i]);
        } else {
            assert(all[i] == second[i - first.len()]);
            assert(states[i + 1] == b[i - first.len() + 1]);
            assert(i > first.len() ==> states[i] == b[i - first.len()]);
        }
    }
    assert(is_trail(states, all));
    assert(states.first() == start);
    assert(states.last() == end);
}

/// The seam between the daemon and `git`/`gh`.
///
/// There is one method per operation that the daemon performs. Every call is
/// scoped to a single project's repo, whose slug the caller passes explicitly:
/// one daemon serves many projects and is never inside any one checkout.
///
/// An implementation answers for what lies outside the daemon. What is promised
/// of every implementation is that [`Recorded::history`] records each call with its
/// answer, which lets a caller say exactly which calls it made and how its own
/// result follows from the answers. What one implementation answers, and what
/// becomes of it by answering, it says by [`Recorded::answers`]; a caller that states
/// [`leads`] passes that on.
pub trait Vcs: Recorded {
    /// Verifies that the configured `git` binary is present and runnable.
    fn git_available(&mut self) -> (result: Result<(), VcsError>)
        ensures
            Self::answers(*old(self), final(self).history().last(), *final(self)),
            final(self).history() == old(self).history().push(
                VcsCall::GitAvailable { result: outcome(result) },
            ),
    ;

    /// Verifies that the configured `gh` binary is present and runnable.
    fn gh_available(&mut self) -> (result: Result<(), VcsError>)
        ensures
            Self::answers(*old(self), final(self).history().last(), *final(self)),
            final(self).history() == old(self).history().push(
                VcsCall::GhAvailable { result: outcome(result) },
            ),
    ;

    /// Whether `gh` is authenticated for `repo`.
    fn gh_authenticated(&mut self, repo: &str) -> (result: Result<bool, VcsError>)
        ensures
            Self::answers(*old(self), final(self).history().last(), *final(self)),
            final(self).history() == old(self).history().push(
                VcsCall::GhAuthenticated { repo: repo@, result: outcome(result) },
            ),
    ;

    /// Detects `repo_dir`'s GitHub slug (`owner/repo`).
    fn detect_repo_slug(&mut self, repo_dir: &str) -> (result: Result<String, VcsError>)
        ensures
            Self::answers(*old(self), final(self).history().last(), *final(self)),
            final(self).history() == old(self).history().push(
                VcsCall::DetectRepoSlug { repo_dir: repo_dir@, result: outcome(result) },
            ),
    ;

    /// Detects `repo_dir`'s default branch.
    fn detect_default_branch(&mut self, repo_dir: &str) -> (result: Result<String, VcsError>)
        ensures
            Self::answers(*old(self), final(self).history().last(), *final(self)),
            final(self).history() == old(self).history().push(
                VcsCall::DetectDefaultBranch { repo_dir: repo_dir@, result: outcome(result) },
            ),
    ;

    /// Whether `repo`'s default branch has GitHub's native merge queue.
    fn merge_queue_enabled(&mut self, repo: &str, default_branch: &str) -> (result: Result<
        bool,
        VcsError,
    >)
        ensures
            Self::answers(*old(self), final(self).history().last(), *final(self)),
            final(self).history() == old(self).history().push(
                VcsCall::MergeQueueEnabled {
                    repo: repo@,
                    default_branch: default_branch@,
                    result: outcome(result),
                },
            ),
    ;

    /// Creates the sibling worktree and branch for `issue_number` under
    /// `project_dir`, running from the project's own `primary_checkout`.
    fn worktree_add(
        &mut self,
        primary_checkout: &str,
        project_dir: &str,
        branch: &str,
        issue_number: u64,
    ) -> (result: Result<Worktree, VcsError>)
        ensures
            Self::answers(*old(self), final(self).history().last(), *final(self)),
            final(self).history() == old(self).history().push(
                VcsCall::WorktreeAdd {
                    primary_checkout: primary_checkout@,
                    project_dir: project_dir@,
                    branch: branch@,
                    issue_number,
                    result: outcome(result),
                },
            ),
    ;

    /// Removes a worktree and prunes its branch.
    fn worktree_remove(&mut self, primary_checkout: &str, worktree: &Worktree) -> (result: Result<
        (),
        VcsError,
    >)
        ensures
            Self::answers(*old(self), final(self).history().last(), *final(self)),
            final(self).history() == old(self).history().push(
                VcsCall::WorktreeRemove {
                    primary_checkout: primary_checkout@,
                    worktree: worktree@,
                    result: outcome(result),
                },
            ),
    ;

    /// Commits all pending changes in `worktree_path` with `message`.
    fn commit(&mut self, worktree_path: &str, message: &str) -> (result: Result<(), VcsError>)
        ensures
            Self::answers(*old(self), final(self).history().last(), *final(self)),
            final(self).history() == old(self).history().push(
                VcsCall::Commit {
                    worktree_path: worktree_path@,
                    message: message@,
                    result: outcome(result),
                },
            ),
    ;

    /// Pushes `branch` from `worktree_path` to its remote.
    fn push(&mut self, worktree_path: &str, branch: &str) -> (result: Result<(), VcsError>)
        ensures
            Self::answers(*old(self), final(self).history().last(), *final(self)),
            final(self).history() == old(self).history().push(
                VcsCall::Push {
                    worktree_path: worktree_path@,
                    branch: branch@,
                    result: outcome(result),
                },
            ),
    ;

    /// Creates an issue in `repo`, and reads it back.
    fn create_issue(&mut self, repo: &str, title: &str, body: &str) -> (result: Result<
        IssueRef,
        VcsError,
    >)
        ensures
            Self::answers(*old(self), final(self).history().last(), *final(self)),
            final(self).history() == old(self).history().push(
                VcsCall::CreateIssue {
                    repo: repo@,
                    title: title@,
                    body: body@,
                    result: outcome(result),
                },
            ),
    ;

    /// Reads one issue from `repo`.
    fn read_issue(&mut self, repo: &str, issue_number: u64) -> (result: Result<
        IssueRef,
        VcsError,
    >)
        ensures
            Self::answers(*old(self), final(self).history().last(), *final(self)),
            final(self).history() == old(self).history().push(
                VcsCall::ReadIssue {
                    repo: repo@,
                    number: issue_number,
                    result: outcome(result),
                },
            ),
    ;

    /// Lists the numbers of `repo`'s open issues, at most `limit` of them.
    fn list_open_issues(&mut self, repo: &str, limit: u32) -> (result: Result<Vec<u64>, VcsError>)
        ensures
            Self::answers(*old(self), final(self).history().last(), *final(self)),
            final(self).history() == old(self).history().push(
                VcsCall::ListOpenIssues { repo: repo@, limit, result: outcome(result) },
            ),
    ;

    /// Adds (`present`) or removes a label on an issue.
    fn set_label(
        &mut self,
        repo: &str,
        issue_number: u64,
        label: &str,
        present: bool,
    ) -> (result: Result<(), VcsError>)
        ensures
            Self::answers(*old(self), final(self).history().last(), *final(self)),
            final(self).history() == old(self).history().push(
                VcsCall::SetLabel {
                    repo: repo@,
                    number: issue_number,
                    label: label@,
                    present,
                    result: outcome(result),
                },
            ),
    ;

    /// Creates `label` in `repo`'s label set if it does not exist yet; leaves
    /// one that exists exactly as it is.
    fn ensure_label(&mut self, repo: &str, label: &str) -> (result: Result<(), VcsError>)
        ensures
            Self::answers(*old(self), final(self).history().last(), *final(self)),
            final(self).history() == old(self).history().push(
                VcsCall::EnsureLabel { repo: repo@, label: label@, result: outcome(result) },
            ),
    ;

    /// Posts a comment on an issue or pull request.
    fn post_comment(&mut self, repo: &str, issue_number: u64, body: &str) -> (result: Result<
        (),
        VcsError,
    >)
        ensures
            Self::answers(*old(self), final(self).history().last(), *final(self)),
            final(self).history() == old(self).history().push(
                VcsCall::PostComment {
                    repo: repo@,
                    number: issue_number,
                    body: body@,
                    result: outcome(result),
                },
            ),
    ;

    /// Opens a pull request from `branch` onto `base`.
    fn open_pr(
        &mut self,
        repo: &str,
        branch: &str,
        base: &str,
        title: &str,
        body: &str,
    ) -> (result: Result<PullRequestRef, VcsError>)
        ensures
            Self::answers(*old(self), final(self).history().last(), *final(self)),
            final(self).history() == old(self).history().push(
                VcsCall::OpenPr {
                    repo: repo@,
                    branch: branch@,
                    base: base@,
                    title: title@,
                    body: body@,
                    result: outcome(result),
                },
            ),
    ;

    /// Enqueues `pr_number` to GitHub's native merge queue.
    fn enqueue_merge(&mut self, repo: &str, pr_number: u64) -> (result: Result<(), VcsError>)
        ensures
            Self::answers(*old(self), final(self).history().last(), *final(self)),
            final(self).history() == old(self).history().push(
                VcsCall::EnqueueMerge { repo: repo@, number: pr_number, result: outcome(result) },
            ),
    ;

    /// Reads an issue's dependency and hierarchy edges.
    fn read_relationships(&mut self, repo: &str, issue_number: u64) -> (result: Result<
        IssueRelationships,
        VcsError,
    >)
        ensures
            Self::answers(*old(self), final(self).history().last(), *final(self)),
            final(self).history() == old(self).history().push(
                VcsCall::ReadRelationships {
                    repo: repo@,
                    number: issue_number,
                    result: outcome(result),
                },
            ),
    ;

    /// Finds every pull request that would close `issue_number` on merge, in
    /// the order in which GitHub reports them.
    fn find_linked_pull_requests(&mut self, repo: &str, issue_number: u64) -> (result: Result<
        Vec<PullRequestRef>,
        VcsError,
    >)
        ensures
            Self::answers(*old(self), final(self).history().last(), *final(self)),
            final(self).history() == old(self).history().push(
                VcsCall::FindLinkedPullRequests {
                    repo: repo@,
                    number: issue_number,
                    result: pull_requests_outcome(result),
                },
            ),
    ;

    /// Reads `pr_number`'s state, CI conclusion, and merge-queue enrollment.
    fn read_pull_request_status(&mut self, repo: &str, pr_number: u64) -> (result: Result<
        PullRequestStatus,
        VcsError,
    >)
        ensures
            Self::answers(*old(self), final(self).history().last(), *final(self)),
            final(self).history() == old(self).history().push(
                VcsCall::ReadPullRequestStatus {
                    repo: repo@,
                    number: pr_number,
                    result: outcome(result),
                },
            ),
    ;

    /// Verifies that `git` and `gh` are present and that `gh` is
    /// authenticated for `repo`, in that order, stopping at the first that
    /// fails.
    fn ensure_ready(&mut self, repo: &str) -> (result: Result<(), VcsError>)
        ensures
            leads(*old(self), *final(self)),
            old(self).history().is_prefix_of(final(self).history()),
            ready_run(final(self).history(), old(self).history().len() as int, repo@) == Some(
                (outcome(result), final(self).history().len() as int),
            ),
    {
        let ghost start = *self;
        let present = self.git_available();
        proof {
            leads_by_one(start, *self);
        }
        if let Err(error) = present {
            return Err(error);
        }
        let ghost before = *self;
        let present = self.gh_available();
        proof {
            leads_on(start, before, *self);
        }
        if let Err(error) = present {
            return Err(error);
        }
        let ghost before = *self;
        let authenticated = self.gh_authenticated(repo);
        proof {
            leads_on(start, before, *self);
        }
        match authenticated {
            Err(error) => Err(error),
            Ok(true) => Ok(()),
            Ok(false) => Err(VcsError::NotAuthenticated { repo: repo.to_string() }),
        }
    }
}

/// Setting a label leaves it there once, behind the others, and clearing it
/// leaves none of it; either way every other label stays where it was.
pub proof fn one_label_is_set_or_cleared(
    labels: Seq<Seq<char>>,
    label: Seq<char>,
    other: Seq<char>,
    present: bool,
)
    ensures
        labels_after(labels, label, present).contains(label) == present,
        other != label ==> (labels_after(labels, label, present).contains(other)
            <==> labels.contains(other)),
        labels_after(labels, label, present).filter(other_than(label)) == labels.filter(
            other_than(label),
        ),
        !labels.contains(label) ==> labels_after(labels, label, true) == labels.push(label),
        labels.contains(label) ==> labels_after(labels, label, true) == labels,
        labels_after(labels_after(labels, label, present), label, present) == labels_after(
            labels,
            label,
            present,
        ),
{
    let keep = other_than(label);
    let after = labels_after(labels, label, present);
    let kept = labels.filter(keep);
    assert(!kept.contains(label)) by {
        if kept.contains(label) {
            let i = kept.index_of(label);
            labels.lemma_filter_pred(keep, i);
        }
    }
    assert(other != label ==> (kept.contains(other) <==> labels.contains(other))) by {
        if other != label && labels.contains(other) {
            labels.lemma_filter_contains(keep, labels.index_of(other));
        }
        if kept.contains(other) {
            labels.lemma_filter_contains_rev(keep, other);
        }
    }
    assert(kept.filter(keep) == kept) by {
        everything_stays(kept, keep, labels);
    }
    let more = labels.push(label);
    assert(more[labels.len() as int] == label);
    labels.lemma_filter_push(label, keep);
    if labels.contains(other) {
        assert(more[labels.index_of(other)] == other);
    }
    if other != label && more.contains(other) {
        assert(labels[more.index_of(other)] == other);
    }
}

/// A filter keeps all of what it kept.
proof fn everything_stays(
    kept: Seq<Seq<char>>,
    keep: spec_fn(Seq<char>) -> bool,
    values: Seq<Seq<char>>,
)
    requires
        kept == values.filter(keep),
    ensures
        kept.filter(keep) == kept,
    decreases values.len(),
{
    reveal(Seq::filter);
    if values.len() > 0 {
        let rest = values.drop_last();
        everything_stays(rest.filter(keep), keep, rest);
        if keep(values.last()) {
            rest.filter(keep).lemma_filter_push(values.last(), keep);
        }
    }
}

/// Only asking changes nothing: what adds, removes, commits, pushes, creates,
/// labels, comments, opens or merges is no read.
pub proof fn writes_are_no_reads(call: VcsCall)
    ensures
        is_read(call) <==> !(call is WorktreeAdd || call is WorktreeRemove || call is Commit
            || call is Push || call is CreateIssue || call is SetLabel || call is EnsureLabel
            || call is PostComment || call is OpenPr || call is EnqueueMerge),
{
}

/// A machine is ready for a repo where `git` is there, `gh` is there, and `gh`
/// is authenticated for that repo, asked in this order.
pub proof fn ready_means_present_and_authenticated(
    calls: Seq<VcsCall>,
    from: int,
    repo: Seq<char>,
    end: int,
)
    ensures
        ready_run(calls, from, repo) == Some((Ok::<(), VcsErrorView>(()), end)) <==> {
            &&& end == from + 3 <= calls.len()
            &&& calls[from] matches VcsCall::GitAvailable { result } && result is Ok
            &&& calls[from + 1] matches VcsCall::GhAvailable { result } && result is Ok
            &&& calls[from + 2] == (VcsCall::GhAuthenticated { repo, result: Ok(true) })
        },
{
}

/// A machine that is not ready is told by the first thing that is missing, and
/// nothing is asked after that.
pub proof fn the_first_thing_missing_is_told(
    calls: Seq<VcsCall>,
    from: int,
    repo: Seq<char>,
    error: VcsErrorView,
    end: int,
)
    requires
        ready_run(calls, from, repo) == Some((Err::<(), VcsErrorView>(error), end)),
    ensures
        from < end <= calls.len(),
        end <= from + 3,
        match calls[end - 1] {
            VcsCall::GitAvailable { result } => end == from + 1 && result == Err::<
                (),
                VcsErrorView,
            >(error),
            VcsCall::GhAvailable { result } => end == from + 2 && result == Err::<
                (),
                VcsErrorView,
            >(error),
            VcsCall::GhAuthenticated { repo: asked, result } => end == from + 3 && asked == repo
                && match result {
                Err(cause) => error == cause,
                Ok(yes) => !yes && error == (VcsErrorView::NotAuthenticated { repo }),
            },
            _ => false,
        },
        end > from + 1 ==> (calls[from] matches VcsCall::GitAvailable { result } && result is Ok),
        end > from + 2 ==> (calls[from + 1] matches VcsCall::GhAvailable { result } && result is Ok),
{
}

} // verus!
