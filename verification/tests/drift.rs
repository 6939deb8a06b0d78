//! Where GitHub state has drifted apart.

use std::collections::HashMap;

use spec_flow::state::drift::{
    find_ambiguous_labels, find_closed_or_missing_dependencies, find_dependency_cycles,
    find_merged_pr_with_open_issue, find_multiple_open_linked_pull_requests, find_stale_claims,
    DriftFinding,
};
use spec_flow::state::Claim;
use spec_flow::time::{Duration, Timestamp};
use spec_flow::vcs::{IssueRelationships, IssueState, PullRequestState};

fn at(secs: u64) -> Timestamp {
    Timestamp::from_unix_secs(secs).unwrap()
}

fn blocked_by(issue: u64, deps: &[u64]) -> (u64, IssueRelationships) {
    (
        issue,
        IssueRelationships {
            blocked_by: deps.to_vec(),
            ..Default::default()
        },
    )
}

#[test]
fn find_dependency_cycles_is_empty_for_a_dag() {
    let relationships =
        vec![blocked_by(1, &[2]), blocked_by(2, &[3]), blocked_by(3, &[])];

    assert!(find_dependency_cycles(&relationships).is_empty());
}

#[test]
fn find_dependency_cycles_detects_a_two_issue_cycle() {
    let relationships = vec![blocked_by(1, &[2]), blocked_by(2, &[1])];

    let findings = find_dependency_cycles(&relationships);

    assert_eq!(
        findings,
        vec![DriftFinding::DependencyCycle { cycle: vec![1, 2] }]
    );
}

#[test]
fn find_dependency_cycles_detects_a_three_issue_cycle() {
    let relationships = vec![
        blocked_by(1, &[2]),
        blocked_by(2, &[3]),
        blocked_by(3, &[1]),
    ];

    let findings = find_dependency_cycles(&relationships);

    assert_eq!(
        findings,
        vec![DriftFinding::DependencyCycle { cycle: vec![1, 2, 3] }]
    );
}

#[test]
fn find_dependency_cycles_detects_a_self_dependency() {
    let relationships = vec![blocked_by(1, &[1])];

    let findings = find_dependency_cycles(&relationships);

    assert_eq!(
        findings,
        vec![DriftFinding::DependencyCycle { cycle: vec![1] }]
    );
}

#[test]
fn find_dependency_cycles_reports_each_cycle_exactly_once() {
    let relationships = vec![
        blocked_by(1, &[2]),
        blocked_by(2, &[3]),
        blocked_by(3, &[1]),
        blocked_by(4, &[1]),
    ];

    let findings = find_dependency_cycles(&relationships);

    assert_eq!(findings.len(), 1);
}

#[test]
fn find_dependency_cycles_ignores_a_shared_dependency_that_is_not_a_cycle()
{
    let relationships =
        vec![blocked_by(1, &[3]), blocked_by(2, &[3]), blocked_by(3, &[])];

    assert!(find_dependency_cycles(&relationships).is_empty());
}

#[test]
fn find_closed_or_missing_dependencies_is_empty_when_all_deps_are_open() {
    let relationships = vec![blocked_by(1, &[2])];
    let states = HashMap::from([(2, IssueState::Open)]);

    assert!(
        find_closed_or_missing_dependencies(&relationships, &states)
            .is_empty()
    );
}

#[test]
fn find_closed_or_missing_dependencies_flags_a_closed_dependency() {
    let relationships = vec![blocked_by(1, &[2])];
    let states = HashMap::from([(2, IssueState::Closed)]);

    let findings =
        find_closed_or_missing_dependencies(&relationships, &states);

    assert_eq!(
        findings,
        vec![DriftFinding::DependencyOnClosedIssue {
            issue: 1,
            depends_on: 2
        }]
    );
}

#[test]
fn find_closed_or_missing_dependencies_flags_a_missing_dependency() {
    let relationships = vec![blocked_by(1, &[2])];
    let states = HashMap::new();

    let findings =
        find_closed_or_missing_dependencies(&relationships, &states);

    assert_eq!(
        findings,
        vec![DriftFinding::DependencyOnMissingIssue {
            issue: 1,
            depends_on: 2
        }]
    );
}

#[test]
fn find_closed_or_missing_dependencies_checks_each_dependency_independently()
 {
    let relationships = vec![blocked_by(1, &[2, 3, 4])];
    let states = HashMap::from([
        (2, IssueState::Open),
        (3, IssueState::Closed),
    ]);

    let findings =
        find_closed_or_missing_dependencies(&relationships, &states);

    assert_eq!(
        findings,
        vec![
            DriftFinding::DependencyOnClosedIssue {
                issue: 1,
                depends_on: 3
            },
            DriftFinding::DependencyOnMissingIssue {
                issue: 1,
                depends_on: 4
            },
        ]
    );
}

fn claim(instance: &str, epoch: u64) -> Claim {
    Claim { instance: instance.to_string(), epoch }
}

#[test]
fn find_stale_claims_flags_a_claim_older_than_the_ttl() {
    let now = at(10_000);
    let claims = vec![(1, claim("spec-flow-a3f", 0))];

    let findings =
        find_stale_claims(&claims, Duration::from_secs(3_600), now);

    assert_eq!(
        findings,
        vec![DriftFinding::StaleClaim {
            issue: 1,
            instance: "spec-flow-a3f".to_string(),
            epoch: 0,
        }]
    );
}

#[test]
fn find_stale_claims_does_not_flag_a_claim_within_the_ttl() {
    let now = at(1_000);
    let claims = vec![(1, claim("spec-flow-a3f", 0))];

    let findings =
        find_stale_claims(&claims, Duration::from_secs(3_600), now);

    assert!(findings.is_empty());
}

#[test]
fn find_stale_claims_does_not_flag_a_claim_exactly_at_the_ttl_boundary() {
    let now = at(3_600);
    let claims = vec![(1, claim("spec-flow-a3f", 0))];

    let findings =
        find_stale_claims(&claims, Duration::from_secs(3_600), now);

    assert!(findings.is_empty());
}

#[test]
fn find_stale_claims_ignores_a_claim_whose_epoch_is_in_the_future() {
    let now = at(1_000);
    let claims = vec![(1, claim("spec-flow-a3f", 5_000))];

    let findings =
        find_stale_claims(&claims, Duration::from_secs(3_600), now);

    assert!(findings.is_empty());
}

#[test]
fn find_stale_claims_does_not_panic_on_an_epoch_that_overflows_system_time()
 {
    let now = at(10_000);
    let claims = vec![(1, claim("spec-flow-a3f", u64::MAX))];

    let findings =
        find_stale_claims(&claims, Duration::from_secs(3_600), now);

    assert!(findings.is_empty());
}

#[test]
fn find_stale_claims_checks_each_claim_independently() {
    let now = at(10_000);
    let claims = vec![
        (1, claim("spec-flow-a3f", 0)),
        (2, claim("spec-flow-b7c", 9_999)),
    ];

    let findings =
        find_stale_claims(&claims, Duration::from_secs(3_600), now);

    assert_eq!(findings.len(), 1);
    assert_eq!(
        findings[0],
        DriftFinding::StaleClaim {
            issue: 1,
            instance: "spec-flow-a3f".to_string(),
            epoch: 0,
        }
    );
}

#[test]
fn find_merged_pr_with_open_issue_flags_an_open_issue_behind_a_merged_pr()
{
    let issues =
        vec![(1, IssueState::Open, vec![(7, PullRequestState::Merged)])];

    let findings = find_merged_pr_with_open_issue(&issues);

    assert_eq!(
        findings,
        vec![DriftFinding::MergedPrWithOpenIssue {
            issue: 1,
            pull_request: 7
        }]
    );
}

#[test]
fn find_merged_pr_with_open_issue_ignores_a_closed_issue() {
    let issues =
        vec![(1, IssueState::Closed, vec![(7, PullRequestState::Merged)])];

    assert!(find_merged_pr_with_open_issue(&issues).is_empty());
}

#[test]
fn find_merged_pr_with_open_issue_ignores_an_open_pr() {
    let issues =
        vec![(1, IssueState::Open, vec![(7, PullRequestState::Open)])];

    assert!(find_merged_pr_with_open_issue(&issues).is_empty());
}

#[test]
fn find_merged_pr_with_open_issue_ignores_an_issue_with_no_linked_pr() {
    let issues = vec![(1, IssueState::Open, Vec::new())];

    assert!(find_merged_pr_with_open_issue(&issues).is_empty());
}

#[test]
fn find_merged_pr_with_open_issue_still_flags_a_merged_pr_alongside_a_newer_open_one()
 {
    let issues = vec![(
        1,
        IssueState::Open,
        vec![(7, PullRequestState::Merged), (9, PullRequestState::Open)],
    )];

    let findings = find_merged_pr_with_open_issue(&issues);

    assert_eq!(
        findings,
        vec![DriftFinding::MergedPrWithOpenIssue {
            issue: 1,
            pull_request: 7,
        }]
    );
}

#[test]
fn find_ambiguous_labels_is_empty_when_every_prefix_matches_once() {
    let labels = vec!["status:implement".to_string(), "P1".to_string()];
    let issues = vec![(1, labels.as_slice())];

    assert!(find_ambiguous_labels(&issues).is_empty());
}

#[test]
fn find_ambiguous_labels_flags_two_status_labels_on_one_issue() {
    let labels =
        vec!["status:review".to_string(), "status:implement".to_string()];
    let issues = vec![(1, labels.as_slice())];

    let findings = find_ambiguous_labels(&issues);

    assert_eq!(
        findings,
        vec![DriftFinding::AmbiguousLabels {
            issue: 1,
            prefix: "status:",
            labels: vec![
                "status:review".to_string(),
                "status:implement".to_string()
            ],
        }]
    );
}

#[test]
fn find_ambiguous_labels_flags_two_owner_labels_on_one_issue() {
    let labels = vec![
        "owner:spec-flow-a3f@1700000000".to_string(),
        "owner:spec-flow-b7c@1700000500".to_string(),
    ];
    let issues = vec![(1, labels.as_slice())];

    let findings = find_ambiguous_labels(&issues);

    assert_eq!(findings.len(), 1);
    assert!(matches!(
        &findings[0],
        DriftFinding::AmbiguousLabels { prefix, .. } if *prefix == "owner:"
    ));
}

#[test]
fn find_ambiguous_labels_checks_each_issue_independently() {
    let ok_labels = vec!["status:implement".to_string()];
    let ambiguous_labels =
        vec!["status:review".to_string(), "status:implement".to_string()];
    let issues =
        vec![(1, ok_labels.as_slice()), (2, ambiguous_labels.as_slice())];

    let findings = find_ambiguous_labels(&issues);

    assert_eq!(findings.len(), 1);
    assert!(
        matches!(&findings[0], DriftFinding::AmbiguousLabels { issue, .. } if *issue == 2)
    );
}

#[test]
fn find_multiple_open_linked_pull_requests_is_empty_for_a_single_open_pr()
{
    let prs = [(7, PullRequestState::Open)];
    let issues = vec![(1, prs.as_slice())];

    assert!(find_multiple_open_linked_pull_requests(&issues).is_empty());
}

#[test]
fn find_multiple_open_linked_pull_requests_ignores_a_closed_pr_alongside_an_open_one()
 {
    let prs = [(7, PullRequestState::Closed), (9, PullRequestState::Open)];
    let issues = vec![(1, prs.as_slice())];

    assert!(find_multiple_open_linked_pull_requests(&issues).is_empty());
}

#[test]
fn find_multiple_open_linked_pull_requests_flags_two_simultaneously_open_prs()
 {
    let prs = [(7, PullRequestState::Open), (9, PullRequestState::Open)];
    let issues = vec![(1, prs.as_slice())];

    let findings = find_multiple_open_linked_pull_requests(&issues);

    assert_eq!(
        findings,
        vec![DriftFinding::MultipleOpenLinkedPullRequests {
            issue: 1,
            pull_requests: vec![7, 9],
        }]
    );
}

#[test]
fn find_multiple_open_linked_pull_requests_checks_each_issue_independently()
 {
    let one_open = [(7, PullRequestState::Open)];
    let two_open =
        [(8, PullRequestState::Open), (9, PullRequestState::Open)];
    let issues = vec![(1, one_open.as_slice()), (2, two_open.as_slice())];

    let findings = find_multiple_open_linked_pull_requests(&issues);

    assert_eq!(findings.len(), 1);
    assert!(matches!(
        &findings[0],
        DriftFinding::MultipleOpenLinkedPullRequests { issue, .. } if *issue == 2
    ));
}

#[test]
fn find_dependency_cycles_reports_every_cycle_through_a_shared_issue() {
    let relationships =
        vec![blocked_by(1, &[2, 3]), blocked_by(2, &[1]), blocked_by(3, &[2, 1]), blocked_by(4, &[4])];

    let mut cycles: Vec<Vec<u64>> = find_dependency_cycles(&relationships)
        .into_iter()
        .map(|finding| match finding {
            DriftFinding::DependencyCycle { cycle } => cycle,
            other => panic!("{:?}", other),
        })
        .collect();
    cycles.sort();

    assert_eq!(cycles, vec![vec![1, 2], vec![1, 3], vec![1, 3, 2], vec![4]]);
}

#[test]
fn the_last_entry_of_an_issue_decides_its_edges() {
    let relationships = vec![blocked_by(1, &[1]), blocked_by(1, &[])];

    assert!(find_dependency_cycles(&relationships).is_empty());
}

#[test]
fn a_repeated_edge_is_reported_each_time() {
    let relationships = vec![blocked_by(1, &[2, 2])];

    assert_eq!(find_closed_or_missing_dependencies(&relationships, &HashMap::new()).len(), 2);
}

#[test]
fn a_stale_claim_stays_stale() {
    let claims = vec![(1, claim("a", 100))];
    let ttl = Duration::from_secs(10);

    assert!(find_stale_claims(&claims, ttl, at(110)).is_empty());
    assert_eq!(find_stale_claims(&claims, ttl, at(111)).len(), 1);
    assert_eq!(find_stale_claims(&claims, ttl, at(1_000_000)).len(), 1);
}

#[test]
fn a_claim_is_stale_from_the_first_nanosecond_past_its_time() {
    let claims = vec![(1, claim("a", 100))];
    let ttl = Duration::from_secs(10);
    let just_past = Timestamp { secs: 110, nanos: 1 };

    assert_eq!(find_stale_claims(&claims, ttl, just_past).len(), 1);
}
