//! An issue's state, derived from its labels and pull requests.

use spec_flow::state::{
    derive_issue_state, most_relevant_pull_request, read_issue_state, read_issue_state_with_labels,
    Claim, Priority,
};
use spec_flow::vcs::fake::FakeVcs;
use spec_flow::vcs::{
    CiConclusion, IssueRef, IssueRelationships, IssueState, PullRequestRef, PullRequestState,
    PullRequestStatus, VcsError,
};

fn issue(labels: &[&str]) -> IssueRef {
    IssueRef {
        number: 42,
        title: "Widget cache".to_string(),
        body: String::new(),
        labels: labels.iter().map(|l| l.to_string()).collect(),
        state: IssueState::Open,
    }
}

fn pr_status() -> PullRequestStatus {
    PullRequestStatus {
        number: 7,
        state: PullRequestState::Open,
        ci: CiConclusion::Pending,
        in_merge_queue: false,
    }
}

#[test]
fn claim_parses_a_well_formed_owner_label() {
    let claim = Claim::parse("owner:spec-flow-a3f@1700000000").unwrap();

    assert_eq!(claim.instance, "spec-flow-a3f");
    assert_eq!(claim.epoch, 1_700_000_000);
}

#[test]
fn claim_rejects_a_label_without_the_owner_prefix() {
    assert!(Claim::parse("status:ready").is_none());
}

#[test]
fn claim_rejects_a_label_missing_the_epoch_separator() {
    assert!(Claim::parse("owner:spec-flow-a3f").is_none());
}

#[test]
fn claim_rejects_a_non_numeric_epoch() {
    assert!(Claim::parse("owner:spec-flow-a3f@soon").is_none());
}

#[test]
fn claim_rejects_an_empty_instance_id() {
    assert!(Claim::parse("owner:@1700000000").is_none());
}

#[test]
fn claim_parses_an_instance_id_containing_its_own_at_sign() {
    let claim = Claim::parse("owner:jon@mbp@1700000000").unwrap();

    assert_eq!(claim.instance, "jon@mbp");
    assert_eq!(claim.epoch, 1_700_000_000);
}

#[test]
fn priority_parses_each_of_the_four_levels() {
    assert_eq!(Priority::parse("P0"), Some(Priority::P0));
    assert_eq!(Priority::parse("P1"), Some(Priority::P1));
    assert_eq!(Priority::parse("P2"), Some(Priority::P2));
    assert_eq!(Priority::parse("P3"), Some(Priority::P3));
}

#[test]
fn priority_rejects_an_unrelated_label() {
    assert_eq!(Priority::parse("gate:architecture"), None);
}

#[test]
fn derive_issue_state_reads_status_from_its_label() {
    let snapshot = derive_issue_state(
        &issue(&["status:implement"]),
        &IssueRelationships::default(),
        Vec::new(),
    );

    assert_eq!(snapshot.status, Some("implement".to_string()));
}

#[test]
fn derive_issue_state_has_no_status_when_the_label_is_absent() {
    let snapshot = derive_issue_state(
        &issue(&["P1"]),
        &IssueRelationships::default(),
        Vec::new(),
    );

    assert_eq!(snapshot.status, None);
}

#[test]
fn derive_issue_state_collects_every_gate_label() {
    let snapshot = derive_issue_state(
        &issue(&["gate:architecture", "gate:test-plan"]),
        &IssueRelationships::default(),
        Vec::new(),
    );

    assert_eq!(
        snapshot.gates,
        vec!["architecture".to_string(), "test-plan".to_string()]
    );
}

#[test]
fn derive_issue_state_collects_every_approval_label() {
    let snapshot = derive_issue_state(
        &issue(&["approved:product-spec", "approved:architecture"]),
        &IssueRelationships::default(),
        Vec::new(),
    );

    assert_eq!(
        snapshot.approvals,
        vec!["product-spec".to_string(), "architecture".to_string()]
    );
}

#[test]
fn derive_issue_state_reads_priority_from_a_p_label() {
    let snapshot = derive_issue_state(
        &issue(&["P0"]),
        &IssueRelationships::default(),
        Vec::new(),
    );

    assert_eq!(snapshot.priority, Some(Priority::P0));
}

#[test]
fn derive_issue_state_reads_a_valid_owner_claim() {
    let snapshot = derive_issue_state(
        &issue(&["owner:spec-flow-a3f@1700000000"]),
        &IssueRelationships::default(),
        Vec::new(),
    );

    let claim = snapshot.owner.unwrap();
    assert_eq!(claim.instance, "spec-flow-a3f");
    assert_eq!(claim.epoch, 1_700_000_000);
}

#[test]
fn derive_issue_state_ignores_a_malformed_owner_label() {
    let snapshot = derive_issue_state(
        &issue(&["owner:spec-flow-a3f"]),
        &IssueRelationships::default(),
        Vec::new(),
    );

    assert!(snapshot.owner.is_none());
}

#[test]
fn derive_issue_state_picks_the_first_status_label_when_several_are_present()
 {
    let snapshot = derive_issue_state(
        &issue(&["status:review", "status:implement"]),
        &IssueRelationships::default(),
        Vec::new(),
    );

    assert_eq!(snapshot.status, Some("review".to_string()));
}

#[test]
fn derive_issue_state_picks_the_first_owner_claim_when_several_are_present()
 {
    let snapshot = derive_issue_state(
        &issue(&[
            "owner:spec-flow-a3f@1700000000",
            "owner:spec-flow-b7c@1700000500",
        ]),
        &IssueRelationships::default(),
        Vec::new(),
    );

    assert_eq!(snapshot.owner.unwrap().instance, "spec-flow-a3f");
}

#[test]
fn derive_issue_state_with_no_special_labels_is_all_none_and_empty() {
    let snapshot = derive_issue_state(
        &issue(&["needs-triage"]),
        &IssueRelationships::default(),
        Vec::new(),
    );

    assert_eq!(snapshot.status, None);
    assert!(snapshot.gates.is_empty());
    assert!(snapshot.approvals.is_empty());
    assert_eq!(snapshot.priority, None);
    assert!(snapshot.owner.is_none());
}

#[test]
fn derive_issue_state_carries_relationships_through_untouched() {
    let relationships = IssueRelationships {
        blocked_by: vec![41],
        blocking: vec![50],
        parent: Some(10),
        sub_issues: vec![43, 44],
    };

    let snapshot =
        derive_issue_state(&issue(&[]), &relationships, Vec::new());

    assert_eq!(snapshot.relationships, relationships);
}

#[test]
fn derive_issue_state_carries_pull_request_status_through_when_present() {
    let snapshot = derive_issue_state(
        &issue(&[]),
        &IssueRelationships::default(),
        vec![pr_status()],
    );

    assert_eq!(snapshot.pull_request, Some(pr_status()));
    assert_eq!(snapshot.linked_pull_requests, vec![pr_status()]);
}

#[test]
fn derive_issue_state_has_no_pull_request_when_none_is_supplied() {
    let snapshot = derive_issue_state(
        &issue(&[]),
        &IssueRelationships::default(),
        Vec::new(),
    );

    assert_eq!(snapshot.pull_request, None);
    assert!(snapshot.linked_pull_requests.is_empty());
}

#[test]
fn derive_issue_state_keeps_every_linked_pull_request_not_just_the_chosen_one()
 {
    let statuses = vec![
        status(7, PullRequestState::Closed),
        status(9, PullRequestState::Open),
    ];

    let snapshot = derive_issue_state(
        &issue(&[]),
        &IssueRelationships::default(),
        statuses.clone(),
    );

    assert_eq!(snapshot.pull_request.unwrap().number, 9);
    assert_eq!(snapshot.linked_pull_requests, statuses);
}

#[test]
fn read_issue_state_composes_issue_relationships_and_pr_status() {
    let mut vcs = FakeVcs::new();
    vcs.issues.insert("owner/repo-a", 42,
        issue(&["status:implement", "P1"]),
    );
    vcs.relationships.insert("owner/repo-a", 42,
        IssueRelationships { blocked_by: vec![41], ..Default::default() },
    );
    vcs.linked_pull_requests.insert("owner/repo-a", 42,
        vec![PullRequestRef {
            number: 7,
            url: "https://github.com/owner/repo-a/pull/7".to_string(),
            branch: "issue-42-widget-cache".to_string(),
        }],
    );
    vcs.pull_request_statuses
        .insert("owner/repo-a", 7, pr_status());

    let snapshot = read_issue_state(&mut vcs, "owner/repo-a", 42).unwrap();

    assert_eq!(snapshot.status, Some("implement".to_string()));
    assert_eq!(snapshot.priority, Some(Priority::P1));
    assert_eq!(snapshot.relationships.blocked_by, vec![41]);
    assert_eq!(snapshot.pull_request, Some(pr_status()));
}

#[test]
fn read_issue_state_has_no_pull_request_when_none_is_linked() {
    let mut vcs = FakeVcs::new();
    vcs.issues.insert("owner/repo-a", 42,
        issue(&["status:architecture"]),
    );

    let snapshot = read_issue_state(&mut vcs, "owner/repo-a", 42).unwrap();

    assert_eq!(snapshot.pull_request, None);
}

#[test]
fn read_issue_state_propagates_a_read_issue_failure() {
    let mut vcs = FakeVcs::new();

    assert!(matches!(
        read_issue_state(&mut vcs, "owner/repo-a", 42),
        Err(VcsError::CommandFailed { .. })
    ));
}

#[test]
fn read_issue_state_propagates_a_linked_pr_status_failure() {
    let mut vcs = FakeVcs::new();
    vcs.issues.insert("owner/repo-a", 42,
        issue(&["status:implement"]),
    );
    vcs.linked_pull_requests.insert("owner/repo-a", 42,
        vec![PullRequestRef {
            number: 7,
            url: "https://github.com/owner/repo-a/pull/7".to_string(),
            branch: "issue-42-widget-cache".to_string(),
        }],
    );

    assert!(matches!(
        read_issue_state(&mut vcs, "owner/repo-a", 42),
        Err(VcsError::CommandFailed { .. })
    ));
}

#[test]
fn read_issue_state_prefers_a_live_pr_over_an_earlier_closed_one() {
    let mut vcs = FakeVcs::new();
    vcs.issues.insert("owner/repo-a", 42,
        issue(&["status:implement"]),
    );
    let pr_ref = |number: u64| PullRequestRef {
        number,
        url: format!("https://github.com/owner/repo-a/pull/{number}"),
        branch: "issue-42-widget-cache".to_string(),
    };
    vcs.linked_pull_requests.insert("owner/repo-a", 42,
        vec![pr_ref(7), pr_ref(9)],
    );
    vcs.pull_request_statuses.insert("owner/repo-a", 7,
        PullRequestStatus {
            number: 7,
            state: PullRequestState::Closed,
            ci: CiConclusion::Failure,
            in_merge_queue: false,
        },
    );
    vcs.pull_request_statuses.insert("owner/repo-a", 9,
        PullRequestStatus {
            number: 9,
            state: PullRequestState::Open,
            ci: CiConclusion::Success,
            in_merge_queue: false,
        },
    );

    let snapshot = read_issue_state(&mut vcs, "owner/repo-a", 42).unwrap();

    assert_eq!(snapshot.pull_request.unwrap().number, 9);
}

fn status(number: u64, state: PullRequestState) -> PullRequestStatus {
    PullRequestStatus {
        number,
        state,
        ci: CiConclusion::Pending,
        in_merge_queue: false,
    }
}

#[test]
fn most_relevant_pull_request_is_none_for_an_empty_list() {
    assert_eq!(most_relevant_pull_request(&Vec::new()), None);
}

#[test]
fn most_relevant_pull_request_picks_open_over_an_earlier_closed_one() {
    let statuses = vec![
        status(7, PullRequestState::Closed),
        status(9, PullRequestState::Open),
    ];

    assert_eq!(most_relevant_pull_request(&statuses).unwrap().number, 9);
}

#[test]
fn most_relevant_pull_request_picks_open_over_a_later_closed_one() {
    let statuses = vec![
        status(9, PullRequestState::Open),
        status(7, PullRequestState::Closed),
    ];

    assert_eq!(most_relevant_pull_request(&statuses).unwrap().number, 9);
}

#[test]
fn most_relevant_pull_request_picks_merged_over_closed() {
    let statuses = vec![
        status(7, PullRequestState::Closed),
        status(8, PullRequestState::Merged),
    ];

    assert_eq!(most_relevant_pull_request(&statuses).unwrap().number, 8);
}

#[test]
fn most_relevant_pull_request_breaks_a_tie_with_the_first_seen() {
    let statuses = vec![
        status(7, PullRequestState::Closed),
        status(8, PullRequestState::Closed),
    ];

    assert_eq!(most_relevant_pull_request(&statuses).unwrap().number, 7);
}

#[test]
fn a_claim_epoch_follows_the_rules_of_unsigned_numbers() {
    assert_eq!(Claim::parse("owner:a@+7").unwrap().epoch, 7);
    assert_eq!(Claim::parse("owner:a@007").unwrap().epoch, 7);
    assert_eq!(Claim::parse("owner:a@18446744073709551615").unwrap().epoch, u64::MAX);
    assert!(Claim::parse("owner:a@18446744073709551616").is_none());
    assert!(Claim::parse("owner:a@-1").is_none());
    assert!(Claim::parse("owner:a@").is_none());
    assert!(Claim::parse("owner:a@+").is_none());
}

#[test]
fn raw_labels_are_kept_beside_the_derived_state() {
    let mut vcs = FakeVcs::new();
    vcs.issues.insert("owner/repo-a", 42, issue(&["status:a", "status:b", "owner:nobody"]));

    let (labels, snapshot) = read_issue_state_with_labels(&mut vcs, "owner/repo-a", 42).unwrap();

    assert_eq!(labels, vec!["status:a", "status:b", "owner:nobody"]);
    assert_eq!(snapshot.status, Some("a".to_string()));
    assert!(snapshot.owner.is_none());
}
