//! Board rows and issue URLs.

use spec_flow::board::{build_board, issue_url};
use spec_flow::state::{Claim, IssueSnapshot, Priority};
use spec_flow::vcs::{
    CiConclusion, IssueRelationships, IssueState, PullRequestState, PullRequestStatus,
};

fn snapshot(number: u64, title: &str) -> IssueSnapshot {
    IssueSnapshot {
        number,
        title: title.to_string(),
        state: IssueState::Open,
        priority: None,
        status: None,
        gates: Vec::new(),
        approvals: Vec::new(),
        owner: None,
        relationships: IssueRelationships::default(),
        pull_request: None,
        linked_pull_requests: Vec::new(),
    }
}

#[test]
fn issue_url_uses_github_com_by_default() {
    assert_eq!(
        issue_url("owner/repo-a", None, 42),
        "https://github.com/owner/repo-a/issues/42"
    );
}

#[test]
fn issue_url_honors_a_custom_host() {
    assert_eq!(
        issue_url("owner/repo-a", Some("github.example.com"), 42),
        "https://github.example.com/owner/repo-a/issues/42"
    );
}

#[test]
fn build_board_carries_every_field_through_from_the_snapshot() {
    let mut snap = snapshot(42, "Widget cache");
    snap.priority = Some(Priority::P1);
    snap.status = Some("implement".to_string());
    snap.gates = vec!["review".to_string()];
    snap.approvals = vec!["product-spec".to_string()];
    snap.owner =
        Some(Claim { instance: "jon@mbp".to_string(), epoch: 100 });
    snap.relationships = IssueRelationships {
        blocked_by: vec![12],
        blocking: Vec::new(),
        parent: None,
        sub_issues: Vec::new(),
    };
    let pr = PullRequestStatus {
        number: 7,
        state: PullRequestState::Open,
        ci: CiConclusion::Success,
        in_merge_queue: true,
    };
    snap.pull_request = Some(pr);

    let board = build_board(&[snap], "owner/repo-a", None);

    assert_eq!(board.len(), 1);
    let row = &board[0];
    assert_eq!(row.number, 42);
    assert_eq!(row.title, "Widget cache");
    assert_eq!(row.url, "https://github.com/owner/repo-a/issues/42");
    assert_eq!(row.state, IssueState::Open);
    assert_eq!(row.status.as_deref(), Some("implement"));
    assert_eq!(row.priority, Some(Priority::P1));
    assert_eq!(row.gates, vec!["review".to_string()]);
    assert_eq!(row.approvals, vec!["product-spec".to_string()]);
    assert_eq!(row.owner.as_deref(), Some("jon@mbp"));
    assert_eq!(row.relationships.blocked_by, vec![12]);
    assert_eq!(row.pull_request, Some(pr));
}

#[test]
fn build_board_threads_the_host_override_into_every_url() {
    let board = build_board(
        &[snapshot(42, "t")],
        "owner/repo-a",
        Some("github.example.com"),
    );

    assert_eq!(
        board[0].url,
        "https://github.example.com/owner/repo-a/issues/42"
    );
}

#[test]
fn build_board_reports_a_closed_issue_as_closed() {
    let mut snap = snapshot(1, "t");
    snap.state = IssueState::Closed;

    let board = build_board(&[snap], "owner/repo-a", None);

    assert_eq!(board[0].state, IssueState::Closed);
}

#[test]
fn build_board_reports_no_owner_for_an_unclaimed_issue() {
    let board = build_board(&[snapshot(1, "t")], "owner/repo-a", None);

    assert_eq!(board[0].owner, None);
}

#[test]
fn build_board_sorts_by_issue_number_regardless_of_input_order() {
    let board = build_board(
        &[snapshot(9, "nine"), snapshot(2, "two"), snapshot(5, "five")],
        "owner/repo-a",
        None,
    );

    let numbers: Vec<u64> = board.iter().map(|row| row.number).collect();
    assert_eq!(numbers, vec![2, 5, 9]);
}

#[test]
fn build_board_is_empty_for_no_snapshots() {
    assert!(build_board(&[], "owner/repo-a", None).is_empty());
}

#[test]
fn a_board_has_one_row_for_each_of_several_issues_with_the_same_number() {
    let board = build_board(
        &[snapshot(5, "first"), snapshot(2, "two"), snapshot(5, "second")],
        "owner/repo-a",
        None,
    );

    let titles: Vec<&str> = board.iter().map(|row| row.title.as_str()).collect();
    assert_eq!(titles, vec!["two", "first", "second"]);
}

#[test]
fn issue_urls_hold_the_largest_number_whole() {
    assert_eq!(
        issue_url("owner/repo-a", None, u64::MAX),
        "https://github.com/owner/repo-a/issues/18446744073709551615"
    );
}
