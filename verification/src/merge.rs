//! Merge-queue integration: what to do to merge a pull request, and what its
//! current status means for its issue.

use vstd::prelude::*;

use crate::config::MergeMode;
use crate::vcs::{PullRequestState, PullRequestStatus};

verus! {

/// What to do once an issue is clear to enter its merge phase.
#[derive(Clone, Copy, Debug, Eq, PartialEq, Structural)]
#[non_exhaustive]
pub enum MergeAction {
    /// Enqueue this pull request to GitHub's native merge queue.
    EnqueueNative {
        /// The pull request to enqueue.
        pr_number: u64,
    },
    /// Already enrolled in the native queue.
    AlreadyQueued {
        /// The already-enqueued pull request.
        pr_number: u64,
    },
    /// GitHub already merged this pull request.
    AlreadyMerged {
        /// The already-merged pull request.
        pr_number: u64,
    },
    /// The pull request was closed without merging.
    ClosedWithoutMerge {
        /// The closed pull request.
        pr_number: u64,
    },
    /// The project serializes merges itself, which is not supported yet.
    SerializedFallbackNotImplemented,
}

/// What to do to merge `pr` under `merge_mode`. The pull request's own state
/// comes first: a merged or closed one is never enqueued.
pub open spec fn planned(merge_mode: MergeMode, pr: PullRequestStatus) -> MergeAction {
    match (pr.state, merge_mode, pr.in_merge_queue) {
        (PullRequestState::Merged, _, _) => MergeAction::AlreadyMerged { pr_number: pr.number },
        (PullRequestState::Closed, _, _) => MergeAction::ClosedWithoutMerge {
            pr_number: pr.number,
        },
        (PullRequestState::Open, MergeMode::Serialized, _) => {
            MergeAction::SerializedFallbackNotImplemented
        },
        (PullRequestState::Open, MergeMode::Native, true) => MergeAction::AlreadyQueued {
            pr_number: pr.number,
        },
        (PullRequestState::Open, MergeMode::Native, false) => MergeAction::EnqueueNative {
            pr_number: pr.number,
        },
    }
}

/// Decides what to do to actually merge `pr`.
pub fn plan_merge(merge_mode: MergeMode, pr: &PullRequestStatus) -> (action: MergeAction)
    ensures
        action == planned(merge_mode, *pr),
{
    match pr.state {
        PullRequestState::Merged => {
            return MergeAction::AlreadyMerged { pr_number: pr.number };
        },
        PullRequestState::Closed => {
            return MergeAction::ClosedWithoutMerge { pr_number: pr.number };
        },
        PullRequestState::Open => {},
    }
    match merge_mode {
        MergeMode::Serialized => MergeAction::SerializedFallbackNotImplemented,
        MergeMode::Native => if pr.in_merge_queue {
            MergeAction::AlreadyQueued { pr_number: pr.number }
        } else {
            MergeAction::EnqueueNative { pr_number: pr.number }
        },
    }
}

/// What a pull request's current status means for the issue it closes.
#[derive(Clone, Copy, Debug, Eq, PartialEq, Structural)]
#[non_exhaustive]
pub enum MergeObservation {
    /// Enrolled in the merge queue, not yet resolved.
    Pending,
    /// GitHub merged the pull request.
    Merged,
    /// Not (or no longer) enrolled in the merge queue, and not merged.
    NotQueued,
}

/// What a pull request's current status means.
pub open spec fn observed(pr: PullRequestStatus) -> MergeObservation {
    if pr.state is Merged {
        MergeObservation::Merged
    } else if pr.in_merge_queue {
        MergeObservation::Pending
    } else {
        MergeObservation::NotQueued
    }
}

/// Classifies `pr` by its current status alone.
pub fn observe_merge(pr: &PullRequestStatus) -> (observation: MergeObservation)
    ensures
        observation == observed(*pr),
{
    match pr.state {
        PullRequestState::Merged => MergeObservation::Merged,
        _ => if pr.in_merge_queue {
            MergeObservation::Pending
        } else {
            MergeObservation::NotQueued
        },
    }
}

/// A pull request is enqueued only while it is open, out of the queue, and in
/// a project with the native queue; and it is then always enqueued.
pub proof fn only_open_unqueued_is_enqueued(merge_mode: MergeMode, pr: PullRequestStatus)
    ensures
        planned(merge_mode, pr) is EnqueueNative <==> (pr.state is Open && !pr.in_merge_queue
            && merge_mode is Native),
{
}

/// Only a pull request that is observed as not queued is ever enqueued, so a
/// caller that observes first never enqueues one twice.
pub proof fn enqueue_implies_not_queued(merge_mode: MergeMode, pr: PullRequestStatus)
    requires
        planned(merge_mode, pr) is EnqueueNative,
    ensures
        observed(pr) == MergeObservation::NotQueued,
{
}

/// A pull request is planned as merged exactly where it is observed as merged.
pub proof fn merged_agrees(merge_mode: MergeMode, pr: PullRequestStatus)
    ensures
        planned(merge_mode, pr) is AlreadyMerged <==> observed(pr) == MergeObservation::Merged,
{
}

/// Every plan is about the pull request that it was made for, and its state
/// comes first: one that merged is left as merged and one that closed as closed,
/// in either mode. An open one waits where the project serializes its merges,
/// and otherwise where it is queued already.
pub proof fn plans_follow_the_state(merge_mode: MergeMode, pr: PullRequestStatus)
    ensures
        pr.state is Merged ==> planned(merge_mode, pr) == (MergeAction::AlreadyMerged {
            pr_number: pr.number,
        }),
        pr.state is Closed ==> planned(merge_mode, pr) == (MergeAction::ClosedWithoutMerge {
            pr_number: pr.number,
        }),
        pr.state is Open && merge_mode is Serialized ==> planned(merge_mode, pr)
            == MergeAction::SerializedFallbackNotImplemented,
        pr.state is Open && merge_mode is Native && pr.in_merge_queue ==> planned(merge_mode, pr)
            == (MergeAction::AlreadyQueued { pr_number: pr.number }),
        pr.state is Open && merge_mode is Native && !pr.in_merge_queue ==> planned(merge_mode, pr)
            == (MergeAction::EnqueueNative { pr_number: pr.number }),
{
}

/// A pull request is merged exactly where GitHub says so, and pending exactly
/// where it is not merged and holds an entry in the queue.
pub proof fn observations_follow_the_status(pr: PullRequestStatus)
    ensures
        observed(pr) == MergeObservation::Merged <==> pr.state is Merged,
        observed(pr) == MergeObservation::Pending <==> !(pr.state is Merged) && pr.in_merge_queue,
        observed(pr) == MergeObservation::NotQueued <==> !(pr.state is Merged)
            && !pr.in_merge_queue,
{
}

/// What the checks of a pull request come to does not decide how it is merged:
/// that is for the queue to judge.
pub proof fn checks_do_not_decide(
    merge_mode: MergeMode,
    pr: PullRequestStatus,
    ci: crate::vcs::CiConclusion,
)
    ensures
        planned(merge_mode, pr) == planned(merge_mode, PullRequestStatus { ci, ..pr }),
        observed(pr) == observed(PullRequestStatus { ci, ..pr }),
{
}

} // verus!
