//! When a pull request is enqueued, and what its status means.

use spec_flow::config::MergeMode;
use spec_flow::merge::{observe_merge, plan_merge, MergeAction, MergeObservation};
use spec_flow::vcs::{CiConclusion, PullRequestState, PullRequestStatus};

fn pr(state: PullRequestState, in_merge_queue: bool) -> PullRequestStatus {
    PullRequestStatus {
        number: 7,
        state,
        ci: CiConclusion::Success,
        in_merge_queue,
    }
}

#[test]
fn plan_merge_enqueues_an_unqueued_pr_under_native_mode() {
    let status = pr(PullRequestState::Open, false);

    let action = plan_merge(MergeMode::Native, &status);

    assert_eq!(action, MergeAction::EnqueueNative { pr_number: 7 });
}

#[test]
fn plan_merge_reports_already_queued_under_native_mode() {
    let status = pr(PullRequestState::Open, true);

    let action = plan_merge(MergeMode::Native, &status);

    assert_eq!(action, MergeAction::AlreadyQueued { pr_number: 7 });
}

#[test]
fn plan_merge_reports_the_serialized_fallback_as_unimplemented() {
    let status = pr(PullRequestState::Open, false);

    let action = plan_merge(MergeMode::Serialized, &status);

    assert_eq!(action, MergeAction::SerializedFallbackNotImplemented);
}

#[test]
fn plan_merge_ignores_the_native_queue_flag_under_serialized_mode() {
    let status = pr(PullRequestState::Open, true);

    let action = plan_merge(MergeMode::Serialized, &status);

    assert_eq!(action, MergeAction::SerializedFallbackNotImplemented);
}

#[test]
fn plan_merge_does_not_replan_an_already_merged_pr_under_native_mode() {
    let status = pr(PullRequestState::Merged, false);

    let action = plan_merge(MergeMode::Native, &status);

    assert_eq!(action, MergeAction::AlreadyMerged { pr_number: 7 });
}

#[test]
fn plan_merge_does_not_replan_an_already_merged_pr_under_serialized_mode()
{
    let status = pr(PullRequestState::Merged, true);

    let action = plan_merge(MergeMode::Serialized, &status);

    assert_eq!(action, MergeAction::AlreadyMerged { pr_number: 7 });
}

#[test]
fn plan_merge_does_not_enqueue_a_closed_unmerged_pr_under_native_mode() {
    let status = pr(PullRequestState::Closed, false);

    let action = plan_merge(MergeMode::Native, &status);

    assert_eq!(action, MergeAction::ClosedWithoutMerge { pr_number: 7 });
}

#[test]
fn plan_merge_does_not_enqueue_a_closed_unmerged_pr_under_serialized_mode()
{
    let status = pr(PullRequestState::Closed, false);

    let action = plan_merge(MergeMode::Serialized, &status);

    assert_eq!(action, MergeAction::ClosedWithoutMerge { pr_number: 7 });
}

#[test]
fn observe_merge_reports_pending_while_enrolled_and_unresolved() {
    let status = pr(PullRequestState::Open, true);

    assert_eq!(observe_merge(&status), MergeObservation::Pending);
}

#[test]
fn observe_merge_reports_merged_once_github_merges_it() {
    let status = pr(PullRequestState::Merged, false);

    assert_eq!(observe_merge(&status), MergeObservation::Merged);
}

#[test]
fn observe_merge_reports_merged_even_if_still_marked_enrolled() {
    let status = pr(PullRequestState::Merged, true);

    assert_eq!(observe_merge(&status), MergeObservation::Merged);
}

#[test]
fn observe_merge_reports_not_queued_when_neither_enrolled_nor_merged() {
    let status = pr(PullRequestState::Open, false);

    assert_eq!(observe_merge(&status), MergeObservation::NotQueued);
}

#[test]
fn observe_merge_reports_not_queued_for_a_closed_unmerged_pr() {
    let status = pr(PullRequestState::Closed, false);

    assert_eq!(observe_merge(&status), MergeObservation::NotQueued);
}
