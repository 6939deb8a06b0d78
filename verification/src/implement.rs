//! The kickoff of an implementation: from a ready issue to a worktree with a
//! pushed branch and a posted development plan.
//!
//! An agent that writes the spec works between the two halves.
//! [`start_implement_setup`] covers what happens before it runs,
//! [`finish_implement_setup`] what happens once it is done. Claiming the issue
//! comes first and is the caller's business (see [`crate::claim`]).

use vstd::prelude::*;

use crate::config::{ProjectConfig, ProjectConfigView};
use crate::text::holds;
use crate::vcs::{
    IssueRef, IssueRefView, Vcs, VcsCall, VcsError, VcsErrorView, Worktree, WorktreeView,
};
use crate::workflow::SpecConfig;

verus! {

/// The message of the commit that adds the spec.
pub const SPEC_COMMIT_MESSAGE: &'static str = "docs: add spec";

/// The comment that records that no spec was written, and which label asked
/// for that.
pub open spec fn skipped_comment(skip_label: Seq<char>) -> Seq<char> {
    "Spec authoring skipped (`"@ + skip_label
        + "` label present) — this implement is branch + PR only."@
}

/// The comment that records that no spec was written.
pub fn spec_skipped_comment(skip_label: &str) -> (comment: String)
    ensures
        comment@ == skipped_comment(skip_label@),
{
    "Spec authoring skipped (`".to_string().concat(skip_label).concat(
        "` label present) — this implement is branch + PR only.",
    )
}

/// Whether an agent is to write the spec.
#[derive(Clone, Copy, Debug, Eq, PartialEq, Structural)]
pub enum SpecDecision {
    /// Spawn the agent that writes the spec.
    AuthorSpec,
    /// The issue carries the skip label, and skipping is allowed.
    SkipSpec,
}

/// What [`start_implement_setup`] gives its caller to act on.
#[derive(Debug, Eq, PartialEq)]
pub struct StartImplementSetup {
    /// The freshly created worktree and branch.
    pub worktree: Worktree,
    /// The issue, as read back.
    pub issue: IssueRef,
    /// Whether to have the spec written or to skip it.
    pub decision: SpecDecision,
}

/// The contents of a [`StartImplementSetup`].
pub struct StartImplementSetupView {
    pub worktree: WorktreeView,
    pub issue: IssueRefView,
    pub decision: SpecDecision,
}

impl View for StartImplementSetup {
    type V = StartImplementSetupView;

    open spec fn view(&self) -> StartImplementSetupView {
        StartImplementSetupView {
            worktree: self.worktree@,
            issue: self.issue@,
            decision: self.decision,
        }
    }
}

/// Whether a spec is written for an issue with these labels: it is skipped
/// only where the issue carries the skip label and skipping is allowed.
pub open spec fn decided(labels: Seq<Seq<char>>, optional: bool, skip_label: Seq<char>) -> SpecDecision {
    if optional && labels.contains(skip_label) {
        SpecDecision::SkipSpec
    } else {
        SpecDecision::AuthorSpec
    }
}

/// Decides whether a spec is written for an issue with `labels`.
pub fn decide_spec(labels: &Vec<String>, spec: &SpecConfig) -> (decision: SpecDecision)
    ensures
        decision == decided(crate::text::texts(labels@), spec.optional, spec.skip_label@),
{
    if spec.optional && holds(labels, spec.skip_label.as_str()) {
        SpecDecision::SkipSpec
    } else {
        SpecDecision::AuthorSpec
    }
}

/// What [`start_implement_setup`] comes to, given the calls from position
/// `from` on: its result, and the position after the last call made. `None`
/// where those are other calls.
pub open spec fn start_run(
    calls: Seq<VcsCall>,
    from: int,
    project: ProjectConfigView,
    number: u64,
    branch: Seq<char>,
    optional: bool,
    skip_label: Seq<char>,
) -> Option<(Result<StartImplementSetupView, VcsErrorView>, int)> {
    if !(0 <= from < calls.len()) {
        None
    } else if let VcsCall::WorktreeAdd {
        primary_checkout,
        project_dir,
        branch: wanted_branch,
        issue_number,
        result,
    } = calls[from] {
        if primary_checkout != project.local_path || project_dir != project.project_dir
            || wanted_branch != branch || issue_number != number {
            None
        } else {
            match result {
                Err(error) => Some((Err(error), from + 1)),
                Ok(worktree) => if from + 1 >= calls.len() {
                    None
                } else if let VcsCall::ReadIssue { repo, number: wanted, result } = calls[from
                    + 1] {
                    if repo != project.repo || wanted != number {
                        None
                    } else {
                        match result {
                            Err(error) => Some((Err(error), from + 2)),
                            Ok(issue) => Some(
                                (
                                    Ok(
                                        StartImplementSetupView {
                                            worktree,
                                            issue,
                                            decision: decided(issue.labels, optional, skip_label),
                                        },
                                    ),
                                    from + 2,
                                ),
                            ),
                        }
                    }
                } else {
                    None
                },
            }
        }
    } else {
        None
    }
}

/// Creates the worktree for an issue, reads the issue back, and decides
/// whether its spec is to be written or skipped.
///
/// A worktree or branch that exists already is an error; it is not reused.
pub fn start_implement_setup<V: Vcs>(
    vcs: &mut V,
    project: &ProjectConfig,
    issue_number: u64,
    branch: &str,
    spec: &SpecConfig,
) -> (setup: Result<StartImplementSetup, VcsError>)
    ensures
        crate::vcs::leads(*old(vcs), *final(vcs)),
        old(vcs).history().is_prefix_of(final(vcs).history()),
        start_run(
            final(vcs).history(),
            old(vcs).history().len() as int,
            project@,
            issue_number,
            branch@,
            spec.optional,
            spec.skip_label@,
        ) == Some((crate::vcs::outcome(setup), final(vcs).history().len() as int)),
{
    let ghost entry = *vcs;
    let added = vcs.worktree_add(
        project.local_path.as_str(),
        project.project_dir.as_str(),
        branch,
        issue_number,
    );
    proof {
        crate::vcs::leads_by_one(entry, *vcs);
    }
    let worktree = match added {
        Ok(worktree) => worktree,
        Err(error) => return Err(error),
    };
    let ghost at = *vcs;
    let read = vcs.read_issue(project.repo.as_str(), issue_number);
    proof {
        crate::vcs::leads_on(entry, at, *vcs);
    }
    let issue = match read {
        Ok(issue) => issue,
        Err(error) => return Err(error),
    };
    let decision = decide_spec(&issue.labels, spec);
    Ok(StartImplementSetup { worktree, issue, decision })
}

/// What [`finish_implement_setup`] comes to once the spec is settled, given
/// the calls from position `from` on: the branch is pushed and the plan
/// posted.
pub open spec fn publish_run(
    calls: Seq<VcsCall>,
    from: int,
    repo: Seq<char>,
    setup: StartImplementSetupView,
    dev_plan: Seq<char>,
) -> Option<(Result<(), VcsErrorView>, int)> {
    if !(0 <= from < calls.len()) {
        None
    } else if let VcsCall::Push { worktree_path, branch, result } = calls[from] {
        if worktree_path != setup.worktree.path || branch != setup.worktree.branch {
            None
        } else if let Err(error) = result {
            Some((Err(error), from + 1))
        } else if from + 1 >= calls.len() {
            None
        } else if let VcsCall::PostComment { repo: asked, number, body, result } = calls[from + 1] {
            if asked != repo || number != setup.issue.number || body != dev_plan {
                None
            } else {
                Some((result, from + 2))
            }
        } else {
            None
        }
    } else {
        None
    }
}

/// What [`finish_implement_setup`] comes to, given the calls from position
/// `from` on: its result, and the position after the last call made. `None`
/// where those are other calls.
pub open spec fn finish_run(
    calls: Seq<VcsCall>,
    from: int,
    repo: Seq<char>,
    setup: StartImplementSetupView,
    skip_label: Seq<char>,
    dev_plan: Seq<char>,
) -> Option<(Result<(), VcsErrorView>, int)> {
    if !(0 <= from < calls.len()) {
        None
    } else {
        let settled = match (setup.decision, calls[from]) {
            (SpecDecision::AuthorSpec, VcsCall::Commit { worktree_path, message, result }) => {
                if worktree_path == setup.worktree.path && message == SPEC_COMMIT_MESSAGE@ {
                    Some(result)
                } else {
                    None
                }
            },
            (
                SpecDecision::SkipSpec,
                VcsCall::PostComment { repo: asked, number, body, result },
            ) => if asked == repo && number == setup.issue.number && body == skipped_comment(
                skip_label,
            ) {
                Some(result)
            } else {
                None
            },
            _ => None,
        };
        match settled {
            None => None,
            Some(Err(error)) => Some((Err(error), from + 1)),
            Some(Ok(_)) => publish_run(calls, from + 1, repo, setup, dev_plan),
        }
    }
}

/// Settles the spec, pushes the branch, and posts the development plan.
///
/// A spec that was written is committed; for one that was skipped a comment
/// records that. The branch and the plan are due either way. The decision is
/// the one that `setup` holds: what is in the worktree followed from it.
pub fn finish_implement_setup<V: Vcs>(
    vcs: &mut V,
    project: &ProjectConfig,
    setup: &StartImplementSetup,
    spec: &SpecConfig,
    dev_plan: &str,
) -> (result: Result<(), VcsError>)
    ensures
        crate::vcs::leads(*old(vcs), *final(vcs)),
        old(vcs).history().is_prefix_of(final(vcs).history()),
        finish_run(
            final(vcs).history(),
            old(vcs).history().len() as int,
            project.repo@,
            setup@,
            spec.skip_label@,
            dev_plan@,
        ) == Some((crate::vcs::outcome(result), final(vcs).history().len() as int)),
{
    let ghost entry = *vcs;
    let repo = project.repo.as_str();
    let issue_number = setup.issue.number;
    let worktree_path = setup.worktree.path.as_str();
    let settled = match setup.decision {
        SpecDecision::AuthorSpec => vcs.commit(worktree_path, SPEC_COMMIT_MESSAGE),
        SpecDecision::SkipSpec => {
            let comment = spec_skipped_comment(spec.skip_label.as_str());
            vcs.post_comment(repo, issue_number, comment.as_str())
        },
    };
    proof {
        crate::vcs::leads_by_one(entry, *vcs);
    }
    if let Err(error) = settled {
        return Err(error);
    }
    let ghost at = *vcs;
    let pushed = vcs.push(worktree_path, setup.worktree.branch.as_str());
    proof {
        crate::vcs::leads_on(entry, at, *vcs);
    }
    if let Err(error) = pushed {
        return Err(error);
    }
    let ghost at = *vcs;
    let posted = vcs.post_comment(repo, issue_number, dev_plan);
    proof {
        crate::vcs::leads_on(entry, at, *vcs);
    }
    posted
}

/// Where a spec is required, no label skips it.
pub proof fn required_spec_is_never_skipped(labels: Seq<Seq<char>>, skip_label: Seq<char>)
    ensures
        decided(labels, false, skip_label) == SpecDecision::AuthorSpec,
{
}

/// A kickoff that finishes has pushed the branch and then posted the plan, as
/// its last two calls, whether or not a spec was written; and nothing was
/// committed where it was skipped.
pub proof fn finished_kickoff_is_published(
    calls: Seq<VcsCall>,
    from: int,
    repo: Seq<char>,
    setup: StartImplementSetupView,
    skip_label: Seq<char>,
    dev_plan: Seq<char>,
    end: int,
)
    requires
        finish_run(calls, from, repo, setup, skip_label, dev_plan) == Some(
            (Ok::<(), VcsErrorView>(()), end),
        ),
    ensures
        end == from + 3 <= calls.len(),
        calls[from] is Commit <==> setup.decision == SpecDecision::AuthorSpec,
        calls[from + 1] matches VcsCall::Push { worktree_path, branch, result } && worktree_path
            == setup.worktree.path && branch == setup.worktree.branch && result is Ok,
        calls[from + 2] matches VcsCall::PostComment { repo: asked, number, body, result } && asked
            == repo && number == setup.issue.number && body == dev_plan && result is Ok,
{
}

/// A spec is skipped exactly where skipping is allowed and the issue carries
/// the skip label; other labels make no difference.
pub proof fn skipping_takes_leave_and_label(
    labels: Seq<Seq<char>>,
    other: Seq<char>,
    optional: bool,
    skip_label: Seq<char>,
)
    ensures
        decided(labels.push(skip_label), true, skip_label) == SpecDecision::SkipSpec,
        !labels.contains(skip_label) ==> decided(labels, optional, skip_label)
            == SpecDecision::AuthorSpec,
        other != skip_label ==> decided(labels.push(other), optional, skip_label) == decided(
            labels,
            optional,
            skip_label,
        ),
        decided(labels, false, skip_label) == SpecDecision::AuthorSpec,
{
    assert(labels.push(skip_label)[labels.len() as int] == skip_label);
    let more = labels.push(other);
    if labels.contains(skip_label) {
        let i = labels.index_of(skip_label);
        assert(more[i] == skip_label);
    }
    if more.contains(skip_label) && other != skip_label {
        let i = more.index_of(skip_label);
        assert(labels[i] == skip_label);
    }
}

/// A kickoff that starts has made two calls: it has added the branch's worktree
/// beside the project's primary checkout, and read the issue. Its decision
/// follows from the labels that were read.
pub proof fn started_kickoff_has_worktree_and_issue(
    calls: Seq<VcsCall>,
    from: int,
    project: ProjectConfigView,
    number: u64,
    branch: Seq<char>,
    optional: bool,
    skip_label: Seq<char>,
    setup: StartImplementSetupView,
    end: int,
)
    requires
        start_run(calls, from, project, number, branch, optional, skip_label) == Some(
            (Ok::<StartImplementSetupView, VcsErrorView>(setup), end),
        ),
    ensures
        end == from + 2 <= calls.len(),
        calls[from] == (VcsCall::WorktreeAdd {
            primary_checkout: project.local_path,
            project_dir: project.project_dir,
            branch,
            issue_number: number,
            result: Ok(setup.worktree),
        }),
        calls[from + 1] == (VcsCall::ReadIssue {
            repo: project.repo,
            number,
            result: Ok(setup.issue),
        }),
        setup.decision == SpecDecision::SkipSpec <==> optional && setup.issue.labels.contains(
            skip_label,
        ),
{
}

/// A kickoff that does not start ends with the call that failed.
pub proof fn kickoff_stops_at_its_first_failure(
    calls: Seq<VcsCall>,
    from: int,
    project: ProjectConfigView,
    number: u64,
    branch: Seq<char>,
    optional: bool,
    skip_label: Seq<char>,
    error: VcsErrorView,
    end: int,
)
    requires
        start_run(calls, from, project, number, branch, optional, skip_label) == Some(
            (Err::<StartImplementSetupView, VcsErrorView>(error), end),
        ),
    ensures
        0 <= from < end <= calls.len(),
        (end == from + 1 && (calls[from] matches VcsCall::WorktreeAdd { result, .. } && result
            == Err::<WorktreeView, VcsErrorView>(error))) || (end == from + 2 && (
        calls[from] matches VcsCall::WorktreeAdd { result, .. } && result is Ok) && (
        calls[from + 1] matches VcsCall::ReadIssue { result, .. } && result == Err::<
            IssueRefView,
            VcsErrorView,
        >(error))),
{
}

/// What a kickoff does first to finish: a spec that was written is committed in
/// its worktree, and for one that was skipped a comment on the issue says so
/// and names the label.
pub proof fn the_spec_is_settled_first(
    calls: Seq<VcsCall>,
    from: int,
    repo: Seq<char>,
    setup: StartImplementSetupView,
    skip_label: Seq<char>,
    dev_plan: Seq<char>,
)
    requires
        finish_run(calls, from, repo, setup, skip_label, dev_plan) is Some,
    ensures
        0 <= from < calls.len(),
        setup.decision is AuthorSpec ==> (calls[from] matches VcsCall::Commit {
            worktree_path,
            message,
            ..
        } && worktree_path == setup.worktree.path && message == "docs: add spec"@),
        setup.decision is SkipSpec ==> (calls[from] matches VcsCall::PostComment {
            repo: asked,
            number,
            body,
            ..
        } && asked == repo && number == setup.issue.number && body == "Spec authoring skipped (`"@
            + skip_label + "` label present) — this implement is branch + PR only."@),
{
}

/// A kickoff that fails to finish ends with the call that failed, and all calls
/// before it succeeded.
pub proof fn finishing_stops_at_its_first_failure(
    calls: Seq<VcsCall>,
    from: int,
    repo: Seq<char>,
    setup: StartImplementSetupView,
    skip_label: Seq<char>,
    dev_plan: Seq<char>,
    error: VcsErrorView,
    end: int,
)
    requires
        finish_run(calls, from, repo, setup, skip_label, dev_plan) == Some(
            (Err::<(), VcsErrorView>(error), end),
        ),
    ensures
        from < end <= from + 3,
        end <= calls.len(),
        match calls[end - 1] {
            VcsCall::Commit { result, .. } => end == from + 1 && result == Err::<(), VcsErrorView>(
                error,
            ),
            VcsCall::PostComment { result, .. } => end != from + 2 && result == Err::<
                (),
                VcsErrorView,
            >(error),
            VcsCall::Push { result, .. } => end == from + 2 && result == Err::<(), VcsErrorView>(
                error,
            ),
            _ => false,
        },
        end > from + 1 ==> match calls[from] {
            VcsCall::Commit { result, .. } => result is Ok,
            VcsCall::PostComment { result, .. } => result is Ok,
            _ => false,
        },
        end > from + 2 ==> (calls[from + 1] matches VcsCall::Push { result, .. } && result is Ok),
{
}

} // verus!
