//! [`FakeVcs`] — an in-memory [`Vcs`] for tests: no subprocess, no filesystem,
//! no network.

use vstd::prelude::*;

use crate::maps::{IssueMap, PathMap, TextMap};
use crate::numbers::decimal_text;
use crate::paths::join;
use crate::text::{clone_texts, str_eq};
use crate::vcs::{
    branch_slug, IssueRef, IssueRefView, IssueRelationships, IssueState, PullRequestRef,
    PullRequestRefView, PullRequestStatus, Recorded, Vcs, VcsCall, VcsError, VcsErrorView, Worktree,
    WorktreeView,
};

verus! {

/// An in-memory [`Vcs`].
///
/// Every field is public, so that a test can seed exactly the state a scenario
/// needs and inspect afterwards what the code under test did. Issue-scoped
/// state is kept per repo and number, never by number alone.
pub struct FakeVcs {
    /// Whether [`Vcs::git_available`] succeeds.
    pub git_present: bool,
    /// Whether [`Vcs::gh_available`] succeeds.
    pub gh_present: bool,
    /// The repos that [`Vcs::gh_authenticated`] reports as authenticated.
    pub authenticated: TextMap<()>,
    /// The slug that [`Vcs::detect_repo_slug`] gives for a directory, however
    /// that is spelled.
    pub repo_slugs: PathMap<String>,
    /// The branch that [`Vcs::detect_default_branch`] gives for a directory,
    /// however that is spelled.
    pub default_branches: PathMap<String>,
    /// The repos that have the native merge queue enabled.
    pub merge_queue_enabled_repos: TextMap<()>,
    /// The issues that can be read.
    pub issues: IssueMap<IssueRef>,
    /// The edges of each issue; an unlisted issue has none.
    pub relationships: IssueMap<IssueRelationships>,
    /// The pull requests linked to each issue; an unlisted issue has none.
    pub linked_pull_requests: IssueMap<Vec<PullRequestRef>>,
    /// The status of each pull request.
    pub pull_request_statuses: IssueMap<PullRequestStatus>,
    /// The primary checkout and worktree of each worktree created, in order.
    pub worktrees_created: Vec<(String, Worktree)>,
    /// The primary checkout and worktree of each worktree removed, in order.
    pub worktrees_removed: Vec<(String, Worktree)>,
    /// The path and message of each commit, in order.
    pub commits: Vec<(String, String)>,
    /// The path and branch of each push, in order.
    pub pushes: Vec<(String, String)>,
    /// The labels set on each issue.
    pub labels: IssueMap<Vec<String>>,
    /// The labels made sure of in each repo, in order.
    pub labels_ensured: TextMap<Vec<String>>,
    /// The comments posted on each issue, in order.
    pub comments: IssueMap<Vec<String>>,
    /// The repo and pull request of each pull request opened, in order.
    pub prs_opened: Vec<(String, PullRequestRef)>,
    /// The number that the next pull request gets.
    pub next_pr_number: u64,
    /// The number that the next issue gets.
    pub next_issue_number: u64,
    /// The repo and number of each pull request enqueued, in order.
    pub merges_enqueued: Vec<(String, u64)>,
    /// The calls made so far.
    pub calls: Ghost<Seq<VcsCall>>,
}

impl Default for FakeVcs {
    fn default() -> (vcs: FakeVcs)
        ensures
            vcs.is_fresh(),
    {
        FakeVcs {
            git_present: true,
            gh_present: true,
            authenticated: TextMap::new(),
            repo_slugs: PathMap::new(),
            default_branches: PathMap::new(),
            merge_queue_enabled_repos: TextMap::new(),
            issues: IssueMap::new(),
            relationships: IssueMap::new(),
            linked_pull_requests: IssueMap::new(),
            pull_request_statuses: IssueMap::new(),
            worktrees_created: Vec::new(),
            worktrees_removed: Vec::new(),
            commits: Vec::new(),
            pushes: Vec::new(),
            labels: IssueMap::new(),
            labels_ensured: TextMap::new(),
            comments: IssueMap::new(),
            prs_opened: Vec::new(),
            next_pr_number: 1,
            next_issue_number: 1,
            merges_enqueued: Vec::new(),
            calls: Ghost(Seq::empty()),
        }
    }
}

impl FakeVcs {
    /// Whether `git` and `gh` are present and nothing else is seeded.
    pub open spec fn is_fresh(&self) -> bool {
        &&& self.git_present && self.gh_present
        &&& self.authenticated@ == Map::<Seq<char>, ()>::empty()
        &&& self.repo_slugs@ == Map::<Seq<Seq<char>>, String>::empty()
        &&& self.default_branches@ == Map::<Seq<Seq<char>>, String>::empty()
        &&& self.merge_queue_enabled_repos@ == Map::<Seq<char>, ()>::empty()
        &&& self.issues@ == Map::<(Seq<char>, u64), IssueRef>::empty()
        &&& self.relationships@ == Map::<(Seq<char>, u64), IssueRelationships>::empty()
        &&& self.linked_pull_requests@ == Map::<(Seq<char>, u64), Vec<PullRequestRef>>::empty()
        &&& self.pull_request_statuses@ == Map::<(Seq<char>, u64), PullRequestStatus>::empty()
        &&& self.worktrees_created@.len() == 0 && self.worktrees_removed@.len() == 0
        &&& self.commits@.len() == 0 && self.pushes@.len() == 0
        &&& self.labels@ == Map::<(Seq<char>, u64), Vec<String>>::empty()
        &&& self.labels_ensured@ == Map::<Seq<char>, Vec<String>>::empty()
        &&& self.comments@ == Map::<(Seq<char>, u64), Vec<String>>::empty()
        &&& self.prs_opened@.len() == 0 && self.merges_enqueued@.len() == 0
        &&& self.next_pr_number == 1 && self.next_issue_number == 1
        &&& self.history() == Seq::<VcsCall>::empty()
    }

    /// Creates a healthy fake: `git` and `gh` both present, nothing else
    /// seeded.
    pub fn new() -> (vcs: FakeVcs)
        ensures
            vcs.is_fresh(),
    {
        FakeVcs::default()
    }
}

/// The error for something that a fake was not seeded with.
pub open spec fn unseeded(command: Seq<char>, stderr: Seq<char>) -> VcsErrorView {
    VcsErrorView::CommandFailed { command, status: 1, stderr }
}

/// The error for something that a fake was not seeded with.
fn unseeded_error(command: &str, stderr: String) -> (error: VcsError)
    ensures
        error@ == unseeded(command@, stderr@),
{
    VcsError::CommandFailed { command: command.to_string(), status: 1, stderr }
}

/// The labels of an issue with one of them set or cleared.
fn set_in_list(labels: &Vec<String>, label: &str, present: bool) -> (updated: Vec<String>)
    ensures
        crate::text::texts(updated@) == crate::vcs::labels_after(
            crate::text::texts(labels@),
            label@,
            present,
        ),
{
    let ghost all = crate::text::texts(labels@);
    let ghost differs = crate::vcs::other_than(label@);
    let mut kept: Vec<String> = Vec::new();
    let mut found = false;
    let mut i: usize = 0;
    proof {
        reveal(Seq::filter);
        assert(crate::text::texts(kept@) =~= all.take(0).filter(differs));
    }
    while i < labels.len()
        invariant
            i <= labels@.len(),
            all == crate::text::texts(labels@),
            differs == crate::vcs::other_than(label@),
            found == all.take(i as int).contains(label@),
            crate::text::texts(kept@) == all.take(i as int).filter(differs),
        decreases labels@.len() - i,
    {
        let ghost before = kept@;
        proof {
            assert(all[i as int] == labels@[i as int]@);
            assert(all.take(i + 1) =~= all.take(i as int).push(all[i as int]));
            all.take(i as int).lemma_filter_push(all[i as int], differs);
        }
        if str_eq(labels[i].as_str(), label) {
            found = true;
            assert(all.take(i + 1)[i as int] == label@);
        } else {
            kept.push(labels[i].clone());
            proof {
                assert(crate::text::texts(kept@) =~= crate::text::texts(before).push(
                    all[i as int],
                ));
                if all.take(i as int).contains(label@) {
                    let k = choose|k: int| 0 <= k < i && all.take(i as int)[k] == label@;
                    assert(all.take(i + 1)[k] == label@);
                }
                if all.take(i + 1).contains(label@) {
                    let longer = all.take(i + 1);
                    let k = choose|k: int| 0 <= k < longer.len() && longer[k] == label@;
                    assert(all.take(i as int)[k] == label@);
                }
            }
        }
        i += 1;
    }
    assert(all.take(i as int) =~= all);
    if !present {
        return kept;
    }
    let mut updated = clone_texts(labels);
    if !found {
        let ghost before = updated@;
        updated.push(label.to_string());
        assert(crate::text::texts(updated@) =~= crate::text::texts(before).push(label@));
    }
    updated
}

/// The labels that `labels` holds for an issue; none where it holds no entry.
pub open spec fn listed(
    labels: Map<(Seq<char>, u64), Vec<String>>,
    repo: Seq<char>,
    number: u64,
) -> Seq<Seq<char>> {
    if labels.contains_key((repo, number)) {
        crate::text::texts(labels[(repo, number)]@)
    } else {
        Seq::empty()
    }
}

/// The list that `lists` holds for an issue, as a list of its own.
fn list_copy(lists: &IssueMap<Vec<String>>, repo: &str, number: u64) -> (copy: Vec<String>)
    ensures
        crate::text::texts(copy@) == listed(lists@, repo@, number),
{
    match lists.get(repo, number) {
        Some(list) => clone_texts(list),
        None => {
            let copy: Vec<String> = Vec::new();
            assert(crate::text::texts(copy@) =~= Seq::<Seq<char>>::empty());
            copy
        },
    }
}

/// Whether `number` is an open issue of `repo`.
pub open spec fn is_open_in(
    issues: Map<(Seq<char>, u64), IssueRef>,
    repo: Seq<char>,
    number: u64,
) -> bool {
    issues.contains_key((repo, number)) && issues[(repo, number)].state is Open
}

/// Whether `open` are the open issues of `repo`, in ascending order.
pub open spec fn are_open_issues(
    issues: Map<(Seq<char>, u64), IssueRef>,
    repo: Seq<char>,
    open: Seq<u64>,
) -> bool {
    &&& crate::ordered::is_ascending(open)
    &&& forall|number: u64| #[trigger] open.contains(number) <==> is_open_in(issues, repo, number)
}

/// The first `limit` of `numbers`.
pub open spec fn at_most(numbers: Seq<u64>, limit: u32) -> Seq<u64> {
    if limit < numbers.len() {
        numbers.take(limit as int)
    } else {
        numbers
    }
}

/// Whether `result` lists the first `limit` open issues of `repo`.
pub open spec fn lists_open(
    issues: Map<(Seq<char>, u64), IssueRef>,
    repo: Seq<char>,
    limit: u32,
    result: Result<Seq<u64>, VcsErrorView>,
) -> bool {
    exists|open: Seq<u64>| #[trigger]
        are_open_issues(issues, repo, open) && result == Ok::<Seq<u64>, VcsErrorView>(
            at_most(open, limit),
        )
}

/// The open issues of `repo`.
fn open_issues(issues: &IssueMap<IssueRef>, repo: &str) -> (open: Vec<u64>)
    ensures
        are_open_issues(issues@, repo@, open@),
{
    let numbers = issues.numbers_in(repo);
    let mut open: Vec<u64> = Vec::new();
    let mut i: usize = 0;
    while i < numbers.len()
        invariant
            i <= numbers@.len(),
            crate::ordered::is_ascending(numbers@),
            forall|number: u64| #[trigger]
                numbers@.contains(number) <==> issues@.contains_key((repo@, number)),
            crate::ordered::is_ascending(open@),
            forall|k: int|
                0 <= k < open@.len() ==> exists|m: int|
                    0 <= m < i && numbers@[m] == #[trigger] open@[k],
            forall|number: u64| #[trigger]
                open@.contains(number) <==> (numbers@.take(i as int).contains(number)
                    && is_open_in(issues@, repo@, number)),
        decreases numbers@.len() - i,
    {
        let number: u64 = numbers[i];
        let ghost before = open@;
        assert(numbers@.contains(number));
        if let Some(issue) = issues.get(repo, number) {
            if let IssueState::Open = issue.state {
                open.push(number);
            }
        }
        proof {
            assert(numbers@.take(i + 1) =~= numbers@.take(i as int).push(number));
            assert forall|k: int| 0 <= k < open@.len() implies exists|m: int|
                0 <= m < i + 1 && numbers@[m] == #[trigger] open@[k] by {
                if k < before.len() {
                    assert(open@[k] == before[k]);
                    let m = choose|m: int| 0 <= m < i && numbers@[m] == before[k];
                    assert(numbers@[m] == open@[k]);
                } else {
                    assert(numbers@[i as int] == open@[k]);
                }
            }
            assert forall|n: u64| #[trigger]
                open@.contains(n) <==> (numbers@.take(i + 1).contains(n) && is_open_in(
                    issues@,
                    repo@,
                    n,
                )) by {
                if open@.contains(n) {
                    let k = choose|k: int| 0 <= k < open@.len() && open@[k] == n;
                    if k < before.len() {
                        assert(before[k] == n);
                        assert(before.contains(n));
                        let m = choose|m: int| 0 <= m < i && numbers@.take(i as int)[m] == n;
                        assert(numbers@.take(i + 1)[m] == n);
                    } else {
                        assert(numbers@.take(i + 1)[i as int] == n);
                    }
                }
                if numbers@.take(i + 1).contains(n) && is_open_in(issues@, repo@, n) {
                    let longer = numbers@.take(i + 1);
                    let m = choose|m: int| 0 <= m < longer.len() && longer[m] == n;
                    if m < i {
                        assert(numbers@.take(i as int)[m] == n);
                        assert(before.contains(n));
                        let k = choose|k: int| 0 <= k < before.len() && before[k] == n;
                        assert(open@[k] == n);
                    } else {
                        assert(open@[before.len() as int] == n);
                    }
                }
            }
        }
        i += 1;
    }
    proof {
        assert(numbers@.take(i as int) =~= numbers@);
        assert forall|number: u64| #[trigger]
            open@.contains(number) <==> is_open_in(issues@, repo@, number) by {
            assert(numbers@.contains(number) <==> issues@.contains_key((repo@, number)));
        }
    }
    open
}

/// What a fake answers where it may not have been seeded.
pub open spec fn seeded_or<T>(value: Option<T>, missing: VcsErrorView) -> Result<T, VcsErrorView> {
    match value {
        Some(value) => Ok(value),
        None => Err(missing),
    }
}

/// The text that a map from paths holds for `path`.
pub open spec fn seeded_for(texts: Map<Seq<Seq<char>>, String>, path: Seq<char>) -> Option<
    Seq<char>,
> {
    let key = crate::paths::path_components(path);
    if texts.contains_key(key) {
        Some(texts[key]@)
    } else {
        None
    }
}

/// How a fake names an issue or pull request that it was not seeded with.
pub open spec fn not_configured(what: Seq<char>, repo: Seq<char>, number: u64) -> Seq<char> {
    what + repo + "#"@ + crate::numbers::decimal(number as nat) + " configured on this fake"@
}

/// The number after `number`, the last one being followed by zero.
pub open spec fn number_after(number: u64) -> u64 {
    if number < u64::MAX {
        (number + 1) as u64
    } else {
        0
    }
}

/// The labels made sure of in `repo`.
pub open spec fn ensured(labels: Map<Seq<char>, Vec<String>>, repo: Seq<char>) -> Seq<Seq<char>> {
    if labels.contains_key(repo) {
        crate::text::texts(labels[repo]@)
    } else {
        Seq::empty()
    }
}

impl Recorded for FakeVcs {
    open spec fn history(&self) -> Seq<VcsCall> {
        self.calls@
    }

    /// A fake answers from what it holds, and changes nothing else than what
    /// the call is for.
    open spec fn answers(before: FakeVcs, call: VcsCall, after: FakeVcs) -> bool {
        let same = FakeVcs { calls: after.calls, ..before };
        match call {
            VcsCall::GitAvailable { result } => {
                &&& after == same
                &&& result == if before.git_present {
                    Ok::<(), VcsErrorView>(())
                } else {
                    Err(VcsErrorView::BinaryNotFound { binary: "git"@ })
                }
            },
            VcsCall::GhAvailable { result } => {
                &&& after == same
                &&& result == if before.gh_present {
                    Ok::<(), VcsErrorView>(())
                } else {
                    Err(VcsErrorView::BinaryNotFound { binary: "gh"@ })
                }
            },
            VcsCall::GhAuthenticated { repo, result } => {
                &&& after == same
                &&& result == Ok::<bool, VcsErrorView>(before.authenticated@.contains_key(repo))
            },
            VcsCall::DetectRepoSlug { repo_dir, result } => {
                &&& after == same
                &&& result == seeded_or(
                    seeded_for(before.repo_slugs@, repo_dir),
                    unseeded("gh repo view"@, "no repo slug configured for "@ + repo_dir),
                )
            },
            VcsCall::DetectDefaultBranch { repo_dir, result } => {
                &&& after == same
                &&& result == seeded_or(
                    seeded_for(before.default_branches@, repo_dir),
                    unseeded("gh repo view"@, "no default branch configured for "@ + repo_dir),
                )
            },
            VcsCall::MergeQueueEnabled { repo, result, .. } => {
                &&& after == same
                &&& result == Ok::<bool, VcsErrorView>(
                    before.merge_queue_enabled_repos@.contains_key(repo),
                )
            },
            VcsCall::WorktreeAdd { primary_checkout, project_dir, branch, issue_number, result } => {
                &&& after == (FakeVcs { worktrees_created: after.worktrees_created, ..same })
                &&& result == Ok::<WorktreeView, VcsErrorView>(
                    WorktreeView {
                        issue_number,
                        path: crate::paths::joined(project_dir, branch),
                        branch,
                        slug: crate::vcs::slug_of(branch, issue_number),
                    },
                )
                &&& after.worktrees_created@ == before.worktrees_created@.push(
                    after.worktrees_created@.last(),
                )
                &&& after.worktrees_created@.last().0@ == primary_checkout
                &&& result == Ok::<WorktreeView, VcsErrorView>(
                    after.worktrees_created@.last().1@,
                )
            },
            VcsCall::WorktreeRemove { primary_checkout, worktree, result } => {
                &&& after == (FakeVcs { worktrees_removed: after.worktrees_removed, ..same })
                &&& result == Ok::<(), VcsErrorView>(())
                &&& after.worktrees_removed@ == before.worktrees_removed@.push(
                    after.worktrees_removed@.last(),
                )
                &&& after.worktrees_removed@.last().0@ == primary_checkout
                &&& after.worktrees_removed@.last().1@ == worktree
            },
            VcsCall::Commit { worktree_path, message, result } => {
                &&& after == (FakeVcs { commits: after.commits, ..same })
                &&& result == Ok::<(), VcsErrorView>(())
                &&& after.commits@ == before.commits@.push(after.commits@.last())
                &&& after.commits@.last().0@ == worktree_path
                &&& after.commits@.last().1@ == message
            },
            VcsCall::Push { worktree_path, branch, result } => {
                &&& after == (FakeVcs { pushes: after.pushes, ..same })
                &&& result == Ok::<(), VcsErrorView>(())
                &&& after.pushes@ == before.pushes@.push(after.pushes@.last())
                &&& after.pushes@.last().0@ == worktree_path
                &&& after.pushes@.last().1@ == branch
            },
            VcsCall::CreateIssue { repo, title, body, result } => {
                let key = (repo, before.next_issue_number);
                &&& after == (FakeVcs {
                    issues: after.issues,
                    next_issue_number: number_after(before.next_issue_number),
                    ..same
                })
                &&& result == Ok::<IssueRefView, VcsErrorView>(
                    IssueRefView {
                        number: before.next_issue_number,
                        title,
                        body,
                        labels: Seq::empty(),
                        state: IssueState::Open,
                    },
                )
                &&& after.issues@ == before.issues@.insert(key, after.issues@[key])
                &&& result == Ok::<IssueRefView, VcsErrorView>(after.issues@[key]@)
            },
            VcsCall::ReadIssue { repo, number, result } => {
                &&& after == same
                &&& result == seeded_or(
                    if before.issues@.contains_key((repo, number)) {
                        Some(before.issues@[(repo, number)]@)
                    } else {
                        None
                    },
                    unseeded("gh issue view"@, not_configured("no issue "@, repo, number)),
                )
            },
            VcsCall::ListOpenIssues { repo, limit, result } => {
                &&& after == same
                &&& lists_open(before.issues@, repo, limit, result)
            },
            VcsCall::SetLabel { repo, number, label, present, result } => {
                let key = (repo, number);
                &&& after == (FakeVcs { labels: after.labels, issues: after.issues, ..same })
                &&& result == Ok::<(), VcsErrorView>(())
                &&& after.labels@ == before.labels@.insert(key, after.labels@[key])
                &&& listed(after.labels@, repo, number) == crate::vcs::labels_after(
                    listed(before.labels@, repo, number),
                    label,
                    present,
                )
                &&& if before.issues@.contains_key(key) {
                    &&& after.issues@ == before.issues@.insert(key, after.issues@[key])
                    &&& after.issues@[key]@ == (IssueRefView {
                        labels: crate::vcs::labels_after(
                            before.issues@[key]@.labels,
                            label,
                            present,
                        ),
                        ..before.issues@[key]@
                    })
                } else {
                    after.issues == before.issues
                }
            },
            VcsCall::EnsureLabel { repo, label, result } => {
                &&& after == (FakeVcs { labels_ensured: after.labels_ensured, ..same })
                &&& result == Ok::<(), VcsErrorView>(())
                &&& after.labels_ensured@ == before.labels_ensured@.insert(
                    repo,
                    after.labels_ensured@[repo],
                )
                &&& ensured(after.labels_ensured@, repo) == crate::vcs::labels_after(
                    ensured(before.labels_ensured@, repo),
                    label,
                    true,
                )
            },
            VcsCall::PostComment { repo, number, body, result } => {
                &&& after == (FakeVcs { comments: after.comments, ..same })
                &&& result == Ok::<(), VcsErrorView>(())
                &&& after.comments@ == before.comments@.insert(
                    (repo, number),
                    after.comments@[(repo, number)],
                )
                &&& listed(after.comments@, repo, number) == listed(
                    before.comments@,
                    repo,
                    number,
                ).push(body)
            },
            VcsCall::OpenPr { repo, branch, result, .. } => {
                &&& after == (FakeVcs {
                    prs_opened: after.prs_opened,
                    next_pr_number: number_after(before.next_pr_number),
                    ..same
                })
                &&& result == Ok::<PullRequestRefView, VcsErrorView>(
                    PullRequestRefView {
                        number: before.next_pr_number,
                        url: "https://github.com/"@ + repo + "/pull/"@ + crate::numbers::decimal(
                            before.next_pr_number as nat,
                        ),
                        branch,
                    },
                )
                &&& after.prs_opened@ == before.prs_opened@.push(after.prs_opened@.last())
                &&& after.prs_opened@.last().0@ == repo
                &&& result == Ok::<PullRequestRefView, VcsErrorView>(after.prs_opened@.last().1@)
            },
            VcsCall::EnqueueMerge { repo, number, result } => {
                &&& after == (FakeVcs { merges_enqueued: after.merges_enqueued, ..same })
                &&& result == Ok::<(), VcsErrorView>(())
                &&& after.merges_enqueued@ == before.merges_enqueued@.push(
                    after.merges_enqueued@.last(),
                )
                &&& after.merges_enqueued@.last().0@ == repo
                &&& after.merges_enqueued@.last().1 == number
            },
            VcsCall::ReadRelationships { repo, number, result } => {
                &&& after == same
                &&& result == Ok::<crate::vcs::IssueRelationshipsView, VcsErrorView>(
                    if before.relationships@.contains_key((repo, number)) {
                        before.relationships@[(repo, number)]@
                    } else {
                        crate::vcs::no_relationships()
                    },
                )
            },
            VcsCall::FindLinkedPullRequests { repo, number, result } => {
                &&& after == same
                &&& result == Ok::<Seq<PullRequestRefView>, VcsErrorView>(
                    if before.linked_pull_requests@.contains_key((repo, number)) {
                        crate::vcs::pull_requests_view(
                            before.linked_pull_requests@[(repo, number)]@,
                        )
                    } else {
                        Seq::empty()
                    },
                )
            },
            VcsCall::ReadPullRequestStatus { repo, number, result } => {
                &&& after == same
                &&& result == seeded_or(
                    if before.pull_request_statuses@.contains_key((repo, number)) {
                        Some(before.pull_request_statuses@[(repo, number)])
                    } else {
                        None
                    },
                    unseeded(
                        "gh api graphql"@,
                        not_configured("no pull request "@, repo, number),
                    ),
                )
            },
        }
    }
}

/// What each method answers and leaves behind is in [`Recorded::answers`], which
/// the trait's contracts state of every call.
impl Vcs for FakeVcs {
    fn git_available(&mut self) -> (result: Result<(), VcsError>)
    {
        let result = if self.git_present {
            Ok(())
        } else {
            Err(VcsError::BinaryNotFound { binary: "git".to_string() })
        };
        self.calls = Ghost(
            self.calls@.push(VcsCall::GitAvailable { result: crate::vcs::outcome(result) }),
        );
        result
    }

    fn gh_available(&mut self) -> (result: Result<(), VcsError>)
    {
        let result = if self.gh_present {
            Ok(())
        } else {
            Err(VcsError::BinaryNotFound { binary: "gh".to_string() })
        };
        self.calls = Ghost(
            self.calls@.push(VcsCall::GhAvailable { result: crate::vcs::outcome(result) }),
        );
        result
    }

    fn gh_authenticated(&mut self, repo: &str) -> (result: Result<bool, VcsError>)
    {
        let result = Ok(self.authenticated.contains_key(repo));
        self.calls = Ghost(
            self.calls@.push(
                VcsCall::GhAuthenticated { repo: repo@, result: crate::vcs::outcome(result) },
            ),
        );
        result
    }

    fn detect_repo_slug(&mut self, repo_dir: &str) -> (result: Result<String, VcsError>)
    {
        let result = match self.repo_slugs.get(repo_dir) {
            Some(slug) => Ok(slug.clone()),
            None => Err(
                unseeded_error(
                    "gh repo view",
                    "no repo slug configured for ".to_string().concat(repo_dir),
                ),
            ),
        };
        self.calls = Ghost(
            self.calls@.push(
                VcsCall::DetectRepoSlug {
                    repo_dir: repo_dir@,
                    result: crate::vcs::outcome(result),
                },
            ),
        );
        result
    }

    fn detect_default_branch(&mut self, repo_dir: &str) -> (result: Result<String, VcsError>)
    {
        let result = match self.default_branches.get(repo_dir) {
            Some(branch) => Ok(branch.clone()),
            None => Err(
                unseeded_error(
                    "gh repo view",
                    "no default branch configured for ".to_string().concat(repo_dir),
                ),
            ),
        };
        self.calls = Ghost(
            self.calls@.push(
                VcsCall::DetectDefaultBranch {
                    repo_dir: repo_dir@,
                    result: crate::vcs::outcome(result),
                },
            ),
        );
        result
    }

    fn merge_queue_enabled(&mut self, repo: &str, default_branch: &str) -> (result: Result<
        bool,
        VcsError,
    >)
    {
        let result = Ok(self.merge_queue_enabled_repos.contains_key(repo));
        self.calls = Ghost(
            self.calls@.push(
                VcsCall::MergeQueueEnabled {
                    repo: repo@,
                    default_branch: default_branch@,
                    result: crate::vcs::outcome(result),
                },
            ),
        );
        result
    }

    fn worktree_add(
        &mut self,
        primary_checkout: &str,
        project_dir: &str,
        branch: &str,
        issue_number: u64,
    ) -> (result: Result<Worktree, VcsError>)
    {
        let worktree = Worktree {
            issue_number,
            path: join(project_dir, branch),
            branch: branch.to_string(),
            slug: branch_slug(branch, issue_number),
        };
        self.worktrees_created.push((primary_checkout.to_string(), worktree.clone()));
        let result = Ok(worktree);
        self.calls = Ghost(
            self.calls@.push(
                VcsCall::WorktreeAdd {
                    primary_checkout: primary_checkout@,
                    project_dir: project_dir@,
                    branch: branch@,
                    issue_number,
                    result: crate::vcs::outcome(result),
                },
            ),
        );
        result
    }

    fn worktree_remove(&mut self, primary_checkout: &str, worktree: &Worktree) -> (result: Result<
        (),
        VcsError,
    >)
    {
        self.worktrees_removed.push((primary_checkout.to_string(), worktree.clone()));
        let result = Ok(());
        self.calls = Ghost(
            self.calls@.push(
                VcsCall::WorktreeRemove {
                    primary_checkout: primary_checkout@,
                    worktree: worktree@,
                    result: crate::vcs::outcome(result),
                },
            ),
        );
        result
    }

    fn commit(&mut self, worktree_path: &str, message: &str) -> (result: Result<(), VcsError>)
    {
        self.commits.push((worktree_path.to_string(), message.to_string()));
        let result = Ok(());
        self.calls = Ghost(
            self.calls@.push(
                VcsCall::Commit {
                    worktree_path: worktree_path@,
                    message: message@,
                    result: crate::vcs::outcome(result),
                },
            ),
        );
        result
    }

    fn push(&mut self, worktree_path: &str, branch: &str) -> (result: Result<(), VcsError>)
    {
        self.pushes.push((worktree_path.to_string(), branch.to_string()));
        let result = Ok(());
        self.calls = Ghost(
            self.calls@.push(
                VcsCall::Push {
                    worktree_path: worktree_path@,
                    branch: branch@,
                    result: crate::vcs::outcome(result),
                },
            ),
        );
        result
    }

    fn create_issue(&mut self, repo: &str, title: &str, body: &str) -> (result: Result<
        IssueRef,
        VcsError,
    >)
    {
        let number: u64 = self.next_issue_number;
        self.next_issue_number = number.wrapping_add(1);
        let issue = IssueRef {
            number,
            title: title.to_string(),
            body: body.to_string(),
            labels: Vec::new(),
            state: IssueState::Open,
        };
        assert(issue@.labels =~= Seq::<Seq<char>>::empty());
        self.issues.insert(repo, number, issue.clone());
        let result = Ok(issue);
        self.calls = Ghost(
            self.calls@.push(
                VcsCall::CreateIssue {
                    repo: repo@,
                    title: title@,
                    body: body@,
                    result: crate::vcs::outcome(result),
                },
            ),
        );
        result
    }

    fn read_issue(&mut self, repo: &str, issue_number: u64) -> (result: Result<
        IssueRef,
        VcsError,
    >)
    {
        let result = match self.issues.get(repo, issue_number) {
            Some(issue) => Ok(issue.clone()),
            None => Err(
                unseeded_error(
                    "gh issue view",
                    "no issue ".to_string().concat(repo).concat("#").concat(
                        decimal_text(issue_number).as_str(),
                    ).concat(" configured on this fake"),
                ),
            ),
        };
        self.calls = Ghost(
            self.calls@.push(
                VcsCall::ReadIssue {
                    repo: repo@,
                    number: issue_number,
                    result: crate::vcs::outcome(result),
                },
            ),
        );
        result
    }

    fn list_open_issues(&mut self, repo: &str, limit: u32) -> (result: Result<Vec<u64>, VcsError>)
    {
        let mut numbers = open_issues(&self.issues, repo);
        let ghost open = numbers@;
        if (limit as usize) < numbers.len() {
            numbers.truncate(limit as usize);
            assert(numbers@ =~= open.take(limit as int));
        }
        let ghost before = *self;
        let result = Ok(numbers);
        self.calls = Ghost(
            self.calls@.push(
                VcsCall::ListOpenIssues {
                    repo: repo@,
                    limit,
                    result: crate::vcs::outcome(result),
                },
            ),
        );
        proof {
            assert(are_open_issues(before.issues@, repo@, open));
            assert(crate::vcs::outcome(result) == Ok::<Seq<u64>, VcsErrorView>(
                at_most(open, limit),
            ));
            assert(lists_open(before.issues@, repo@, limit, crate::vcs::outcome(result)));
        }
        result
    }

    fn set_label(
        &mut self,
        repo: &str,
        issue_number: u64,
        label: &str,
        present: bool,
    ) -> (result: Result<(), VcsError>)
    {
        let current = list_copy(&self.labels, repo, issue_number);
        self.labels.insert(repo, issue_number, set_in_list(&current, label, present));
        let updated: Option<IssueRef> = match self.issues.get(repo, issue_number) {
            Some(issue) => {
                let mut copy = issue.clone();
                copy.labels = set_in_list(&copy.labels, label, present);
                Some(copy)
            },
            None => None,
        };
        if let Some(issue) = updated {
            self.issues.insert(repo, issue_number, issue);
        }
        let result = Ok(());
        self.calls = Ghost(
            self.calls@.push(
                VcsCall::SetLabel {
                    repo: repo@,
                    number: issue_number,
                    label: label@,
                    present,
                    result: crate::vcs::outcome(result),
                },
            ),
        );
        result
    }

    fn ensure_label(&mut self, repo: &str, label: &str) -> (result: Result<(), VcsError>)
    {
        let current: Vec<String> = match self.labels_ensured.get(repo) {
            Some(labels) => clone_texts(labels),
            None => {
                let none: Vec<String> = Vec::new();
                assert(crate::text::texts(none@) =~= Seq::<Seq<char>>::empty());
                none
            },
        };
        self.labels_ensured.insert(repo, set_in_list(&current, label, true));
        let result = Ok(());
        self.calls = Ghost(
            self.calls@.push(
                VcsCall::EnsureLabel {
                    repo: repo@,
                    label: label@,
                    result: crate::vcs::outcome(result),
                },
            ),
        );
        result
    }

    fn post_comment(&mut self, repo: &str, issue_number: u64, body: &str) -> (result: Result<
        (),
        VcsError,
    >)
    {
        let mut comments = list_copy(&self.comments, repo, issue_number);
        let ghost before = comments@;
        comments.push(body.to_string());
        assert(crate::text::texts(comments@) =~= crate::text::texts(before).push(body@));
        self.comments.insert(repo, issue_number, comments);
        let result = Ok(());
        self.calls = Ghost(
            self.calls@.push(
                VcsCall::PostComment {
                    repo: repo@,
                    number: issue_number,
                    body: body@,
                    result: crate::vcs::outcome(result),
                },
            ),
        );
        result
    }

    fn open_pr(
        &mut self,
        repo: &str,
        branch: &str,
        base: &str,
        title: &str,
        body: &str,
    ) -> (result: Result<PullRequestRef, VcsError>)
    {
        let number: u64 = self.next_pr_number;
        self.next_pr_number = number.wrapping_add(1);
        let url = "https://github.com/".to_string().concat(repo).concat("/pull/").concat(
            decimal_text(number).as_str(),
        );
        let pr = PullRequestRef { number, url, branch: branch.to_string() };
        self.prs_opened.push((repo.to_string(), pr.clone()));
        let result = Ok(pr);
        self.calls = Ghost(
            self.calls@.push(
                VcsCall::OpenPr {
                    repo: repo@,
                    branch: branch@,
                    base: base@,
                    title: title@,
                    body: body@,
                    result: crate::vcs::outcome(result),
                },
            ),
        );
        result
    }

    fn enqueue_merge(&mut self, repo: &str, pr_number: u64) -> (result: Result<(), VcsError>)
    {
        self.merges_enqueued.push((repo.to_string(), pr_number));
        let result = Ok(());
        self.calls = Ghost(
            self.calls@.push(
                VcsCall::EnqueueMerge {
                    repo: repo@,
                    number: pr_number,
                    result: crate::vcs::outcome(result),
                },
            ),
        );
        result
    }

    fn read_relationships(&mut self, repo: &str, issue_number: u64) -> (result: Result<
        IssueRelationships,
        VcsError,
    >)
    {
        let result = match self.relationships.get(repo, issue_number) {
            Some(edges) => Ok(edges.clone()),
            None => Ok(IssueRelationships::default()),
        };
        self.calls = Ghost(
            self.calls@.push(
                VcsCall::ReadRelationships {
                    repo: repo@,
                    number: issue_number,
                    result: crate::vcs::outcome(result),
                },
            ),
        );
        result
    }

    fn find_linked_pull_requests(&mut self, repo: &str, issue_number: u64) -> (result: Result<
        Vec<PullRequestRef>,
        VcsError,
    >)
    {
        let linked: Vec<PullRequestRef> = match self.linked_pull_requests.get(
            repo,
            issue_number,
        ) {
            Some(refs) => copy_refs(refs),
            None => {
                let none: Vec<PullRequestRef> = Vec::new();
                assert(crate::vcs::pull_requests_view(none@)
                    =~= Seq::<PullRequestRefView>::empty());
                none
            },
        };
        let result = Ok(linked);
        self.calls = Ghost(
            self.calls@.push(
                VcsCall::FindLinkedPullRequests {
                    repo: repo@,
                    number: issue_number,
                    result: crate::vcs::pull_requests_outcome(result),
                },
            ),
        );
        result
    }

    fn read_pull_request_status(&mut self, repo: &str, pr_number: u64) -> (result: Result<
        PullRequestStatus,
        VcsError,
    >)
    {
        let result = match self.pull_request_statuses.get(repo, pr_number) {
            Some(status) => Ok(*status),
            None => Err(
                unseeded_error(
                    "gh api graphql",
                    "no pull request ".to_string().concat(repo).concat("#").concat(
                        decimal_text(pr_number).as_str(),
                    ).concat(" configured on this fake"),
                ),
            ),
        };
        self.calls = Ghost(
            self.calls@.push(
                VcsCall::ReadPullRequestStatus {
                    repo: repo@,
                    number: pr_number,
                    result: crate::vcs::outcome(result),
                },
            ),
        );
        result
    }
}

/// The same pull requests, as a list of its own.
fn copy_refs(refs: &Vec<PullRequestRef>) -> (copy: Vec<PullRequestRef>)
    ensures
        crate::vcs::pull_requests_view(copy@) == crate::vcs::pull_requests_view(refs@),
{
    let mut copy: Vec<PullRequestRef> = Vec::new();
    let mut i: usize = 0;
    while i < refs.len()
        invariant
            i <= refs@.len(),
            copy@.len() == i,
            forall|k: int| 0 <= k < i ==> (#[trigger] copy@[k])@ == refs@[k]@,
        decreases refs@.len() - i,
    {
        copy.push(refs[i].clone());
        i += 1;
    }
    assert(crate::vcs::pull_requests_view(copy@) =~= crate::vcs::pull_requests_view(refs@));
    copy
}

/// Up to any point of a trail of calls that only ask, a fake is as it was.
proof fn asked_is_unchanged(states: Seq<FakeVcs>, calls: Seq<VcsCall>, upto: int)
    requires
        crate::vcs::is_trail(states, calls),
        crate::vcs::all_read(calls, 0, calls.len() as int),
        0 <= upto <= calls.len(),
    ensures
        states[upto] == (FakeVcs { calls: states[upto].calls, ..states[0] }),
    decreases upto,
{
    if upto > 0 {
        asked_is_unchanged(states, calls, upto - 1);
        assert(crate::vcs::is_read(calls[upto - 1]));
        assert(FakeVcs::answers(states[upto - 1], calls[upto - 1], states[upto - 1 + 1]));
    }
}

/// Calls that only ask leave a fake as it was, but for the record of them.
pub proof fn reading_leaves_a_fake_as_it_is(before: FakeVcs, after: FakeVcs)
    requires
        crate::vcs::leads(before, after),
        crate::vcs::all_read(
            after.history(),
            before.history().len() as int,
            after.history().len() as int,
        ),
    ensures
        after == (FakeVcs { calls: after.calls, ..before }),
{
    reveal(crate::vcs::leads);
    let n = before.history().len() as int;
    let calls = after.history().skip(n);
    let states = choose|states: Seq<FakeVcs>| #[trigger]
        crate::vcs::is_trail(states, calls) && states.first() == before && states.last() == after;
    assert forall|i: int| 0 <= i < calls.len() implies crate::vcs::is_read(#[trigger] calls[i]) by {
        assert(calls[i] == after.history()[n + i]);
    }
    asked_is_unchanged(states, calls, calls.len() as int);
}

/// Asking changes nothing on a fake but its record of calls.
pub proof fn asking_changes_nothing(before: FakeVcs, call: VcsCall, after: FakeVcs)
    requires
        FakeVcs::answers(before, call, after),
        crate::vcs::is_read(call),
    ensures
        after == (FakeVcs { calls: after.calls, ..before }),
{
}

/// An issue that was created is open, has the title and body that it was given
/// and no labels, and is read back as such; the next one has the next number.
pub proof fn created_issues_are_read_back(
    before: FakeVcs,
    between: FakeVcs,
    after: FakeVcs,
    repo: Seq<char>,
    title: Seq<char>,
    body: Seq<char>,
    issue: IssueRefView,
    number: u64,
    read: Result<IssueRefView, VcsErrorView>,
)
    requires
        FakeVcs::answers(
            before,
            VcsCall::CreateIssue { repo, title, body, result: Ok(issue) },
            between,
        ),
        FakeVcs::answers(between, VcsCall::ReadIssue { repo, number, result: read }, after),
    ensures
        issue.number == before.next_issue_number,
        issue.title == title && issue.body == body && issue.labels.len() == 0 && issue.state is Open,
        number == issue.number ==> read == Ok::<IssueRefView, VcsErrorView>(issue),
        number != issue.number && before.issues@.contains_key((repo, number)) ==> read == Ok::<
            IssueRefView,
            VcsErrorView,
        >(before.issues@[(repo, number)]@),
        before.next_issue_number < u64::MAX ==> between.next_issue_number
            == before.next_issue_number + 1,
{
}

/// A label that was set on an issue is read back with it, one that was cleared
/// is not, and everything else of the issue is as it was.
pub proof fn labels_that_were_set_are_read_back(
    before: FakeVcs,
    between: FakeVcs,
    after: FakeVcs,
    repo: Seq<char>,
    number: u64,
    label: Seq<char>,
    present: bool,
    other: Seq<char>,
    read: Result<IssueRefView, VcsErrorView>,
)
    requires
        before.issues@.contains_key((repo, number)),
        FakeVcs::answers(
            before,
            VcsCall::SetLabel { repo, number, label, present, result: Ok(()) },
            between,
        ),
        FakeVcs::answers(between, VcsCall::ReadIssue { repo, number, result: read }, after),
    ensures
        read matches Ok(issue) && issue.labels.contains(label) == present && (other != label ==> (
        issue.labels.contains(other) <==> before.issues@[(repo, number)]@.labels.contains(other)))
            && issue.title == before.issues@[(repo, number)]@.title && issue.body
            == before.issues@[(repo, number)]@.body && issue.state
            == before.issues@[(repo, number)]@.state && issue.number
            == before.issues@[(repo, number)]@.number,
        listed(between.labels@, repo, number).contains(label) == present,
{
    crate::vcs::one_label_is_set_or_cleared(
        before.issues@[(repo, number)]@.labels,
        label,
        other,
        present,
    );
    crate::vcs::one_label_is_set_or_cleared(
        listed(before.labels@, repo, number),
        label,
        other,
        present,
    );
}

/// A list of open issues names the lowest of them first, none that is not open
/// and none twice, and all of them where there is room.
pub proof fn open_issues_are_listed_in_order(
    before: FakeVcs,
    after: FakeVcs,
    repo: Seq<char>,
    limit: u32,
    numbers: Seq<u64>,
    number: u64,
)
    requires
        FakeVcs::answers(
            before,
            VcsCall::ListOpenIssues { repo, limit, result: Ok(numbers) },
            after,
        ),
    ensures
        numbers.len() <= limit,
        forall|i: int, j: int| 0 <= i < j < numbers.len() ==> #[trigger] numbers[i] < #[trigger] numbers[j],
        numbers.contains(number) ==> before.issues@.contains_key((repo, number))
            && before.issues@[(repo, number)].state is Open,
        before.issues@.contains_key((repo, number)) && before.issues@[(repo, number)].state is Open
            && !numbers.contains(number) ==> numbers.len() == limit && (forall|i: int|
            0 <= i < numbers.len() ==> #[trigger] numbers[i] < number),
{
    let open = choose|open: Seq<u64>| #[trigger]
        are_open_issues(before.issues@, repo, open) && Ok::<Seq<u64>, VcsErrorView>(numbers)
            == Ok::<Seq<u64>, VcsErrorView>(at_most(open, limit));
    assert forall|i: int| 0 <= i < numbers.len() implies #[trigger] numbers[i] == open[i] by {}
    assert forall|i: int, j: int| 0 <= i < j < numbers.len() implies #[trigger] numbers[i]
        < #[trigger] numbers[j] by {
        assert(open[i] < open[j]);
    }
    if numbers.contains(number) {
        let i = numbers.index_of(number);
        assert(open[i] == number);
        assert(open.contains(number));
    }
    if is_open_in(before.issues@, repo, number) && !numbers.contains(number) {
        assert(open.contains(number));
        let k = open.index_of(number);
        if k < numbers.len() {
            assert(numbers[k] == number);
        }
        assert forall|i: int| 0 <= i < numbers.len() implies #[trigger] numbers[i] < number by {
            assert(open[i] < open[k]);
        }
    }
}

/// What is done on a fake is recorded at the end of its list, as it was asked.
pub proof fn what_was_done_is_recorded(
    before: FakeVcs,
    after: FakeVcs,
    repo: Seq<char>,
    number: u64,
    path: Seq<char>,
    text: Seq<char>,
)
    ensures
        FakeVcs::answers(
            before,
            VcsCall::Commit { worktree_path: path, message: text, result: Ok(()) },
            after,
        ) ==> after.commits@.len() == before.commits@.len() + 1 && after.commits@.last().0@ == path
            && after.commits@.last().1@ == text,
        FakeVcs::answers(
            before,
            VcsCall::Push { worktree_path: path, branch: text, result: Ok(()) },
            after,
        ) ==> after.pushes@.len() == before.pushes@.len() + 1 && after.pushes@.last().0@ == path
            && after.pushes@.last().1@ == text,
        FakeVcs::answers(
            before,
            VcsCall::EnqueueMerge { repo, number, result: Ok(()) },
            after,
        ) ==> after.merges_enqueued@.len() == before.merges_enqueued@.len() + 1
            && after.merges_enqueued@.last().0@ == repo && after.merges_enqueued@.last().1 == number,
        FakeVcs::answers(
            before,
            VcsCall::PostComment { repo, number, body: text, result: Ok(()) },
            after,
        ) ==> listed(after.comments@, repo, number) == listed(before.comments@, repo, number).push(
            text,
        ) && after.issues == before.issues,
        FakeVcs::answers(
            before,
            VcsCall::EnsureLabel { repo, label: text, result: Ok(()) },
            after,
        ) ==> ensured(after.labels_ensured@, repo).contains(text),
{
    crate::vcs::one_label_is_set_or_cleared(
        ensured(before.labels_ensured@, repo),
        text,
        text,
        true,
    );
}

/// A worktree on a fake stands in the project's directory under its branch's
/// name; a pull request gets the next number, and the address under which
/// GitHub would show it.
pub proof fn worktrees_and_pull_requests_are_made_up(
    before: FakeVcs,
    after: FakeVcs,
    repo: Seq<char>,
    primary_checkout: Seq<char>,
    project_dir: Seq<char>,
    branch: Seq<char>,
    number: u64,
    base: Seq<char>,
    title: Seq<char>,
    body: Seq<char>,
    worktree: Result<WorktreeView, VcsErrorView>,
    pull_request: Result<PullRequestRefView, VcsErrorView>,
)
    ensures
        FakeVcs::answers(
            before,
            VcsCall::WorktreeAdd {
                primary_checkout,
                project_dir,
                branch,
                issue_number: number,
                result: worktree,
            },
            after,
        ) ==> (worktree matches Ok(made) && made.issue_number == number && made.branch == branch
            && made.path == crate::paths::joined(project_dir, branch)
            && after.worktrees_created@.last().0@ == primary_checkout
            && after.worktrees_created@.last().1@ == made),
        FakeVcs::answers(
            before,
            VcsCall::OpenPr { repo, branch, base, title, body, result: pull_request },
            after,
        ) ==> (pull_request matches Ok(opened) && opened.number == before.next_pr_number
            && opened.branch == branch && opened.url == "https://github.com/"@ + repo + "/pull/"@
            + crate::numbers::decimal(opened.number as nat) && after.prs_opened@.last().0@ == repo
            && after.prs_opened@.last().1@ == opened && (before.next_pr_number < u64::MAX
            ==> after.next_pr_number == before.next_pr_number + 1)),
{
}

/// A fake fails as the command line would: with the missing binary's name, or
/// with the command that would have failed and what it was not seeded with.
pub proof fn missing_seeds_are_told(
    before: FakeVcs,
    after: FakeVcs,
    repo: Seq<char>,
    number: u64,
    dir: Seq<char>,
    done: Result<(), VcsErrorView>,
    issue: Result<IssueRefView, VcsErrorView>,
    text: Result<Seq<char>, VcsErrorView>,
    yes: Result<bool, VcsErrorView>,
)
    ensures
        FakeVcs::answers(before, VcsCall::GitAvailable { result: done }, after) ==> (done is Ok
            <==> before.git_present) && (done matches Err(error) ==> error
            == (VcsErrorView::BinaryNotFound { binary: "git"@ })),
        FakeVcs::answers(before, VcsCall::GhAvailable { result: done }, after) ==> (done is Ok
            <==> before.gh_present) && (done matches Err(error) ==> error
            == (VcsErrorView::BinaryNotFound { binary: "gh"@ })),
        FakeVcs::answers(before, VcsCall::GhAuthenticated { repo, result: yes }, after) ==> yes
            == Ok::<bool, VcsErrorView>(before.authenticated@.contains_key(repo)),
        FakeVcs::answers(before, VcsCall::ReadIssue { repo, number, result: issue }, after)
            && !before.issues@.contains_key((repo, number)) ==> issue == Err::<
            IssueRefView,
            VcsErrorView,
        >(
            VcsErrorView::CommandFailed {
                command: "gh issue view"@,
                status: 1,
                stderr: "no issue "@ + repo + "#"@ + crate::numbers::decimal(number as nat)
                    + " configured on this fake"@,
            },
        ),
        FakeVcs::answers(before, VcsCall::DetectRepoSlug { repo_dir: dir, result: text }, after)
            && !before.repo_slugs@.contains_key(crate::paths::path_components(dir)) ==> text == Err::<
            Seq<char>,
            VcsErrorView,
        >(
            VcsErrorView::CommandFailed {
                command: "gh repo view"@,
                status: 1,
                stderr: "no repo slug configured for "@ + dir,
            },
        ),
        FakeVcs::answers(before, VcsCall::DetectDefaultBranch { repo_dir: dir, result: text }, after)
            && !before.default_branches@.contains_key(crate::paths::path_components(dir)) ==> text
            == Err::<Seq<char>, VcsErrorView>(
            VcsErrorView::CommandFailed {
                command: "gh repo view"@,
                status: 1,
                stderr: "no default branch configured for "@ + dir,
            },
        ),
{
}

} // verus!
