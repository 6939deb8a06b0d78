//! Claiming an issue, and finding out whose claim stuck.

use spec_flow::claim::{
    confirm_claim, is_valid_instance_id, write_claim, ClaimError, ClaimResult, INVALID_INSTANCE_ID,
};
use spec_flow::state::Claim;
use spec_flow::vcs::fake::FakeVcs;
use spec_flow::vcs::{IssueRef, IssueState, Vcs, VcsError};

const REPO: &str = "owner/repo";

fn seed_issue(vcs: &mut FakeVcs, labels: &[&str]) {
    vcs.issues.insert(REPO, 42,
        IssueRef {
            number: 42,
            title: "Widget cache".to_string(),
            body: String::new(),
            labels: labels.iter().map(|l| l.to_string()).collect(),
            state: IssueState::Open,
        },
    );
}

fn labels_of(vcs: &mut FakeVcs) -> Vec<String> {
    vcs.read_issue(REPO, 42).unwrap().labels
}

#[test]
fn is_valid_instance_id_accepts_every_allowed_character() {
    assert!(is_valid_instance_id("spec-flow_a3f.jon@mbp"));
}

#[test]
fn is_valid_instance_id_rejects_empty() {
    assert!(!is_valid_instance_id(""));
}

#[test]
fn is_valid_instance_id_rejects_a_space() {
    assert!(!is_valid_instance_id("jon mbp"));
}

#[test]
fn is_valid_instance_id_rejects_a_colon() {
    assert!(!is_valid_instance_id("jon:mbp"));
}

#[test]
fn is_valid_instance_id_rejects_non_ascii() {
    assert!(!is_valid_instance_id("café"));
}

#[test]
fn is_valid_instance_id_accepts_a_bare_at_sign() {
    assert!(is_valid_instance_id("@"));
}

#[test]
fn write_claim_writes_a_fresh_owner_label_on_an_unclaimed_issue() {
    let mut vcs = FakeVcs::new();
    seed_issue(&mut vcs, &["status:implement"]);

    write_claim(&mut vcs, REPO, 42, "instance-a", 1_000).unwrap();

    assert_eq!(
        labels_of(&mut vcs),
        vec![
            "status:implement".to_string(),
            "owner:instance-a@1000".to_string(),
        ]
    );
}

#[test]
fn write_claim_lets_an_instance_reclaim_or_refresh_its_own_claim() {
    let mut vcs = FakeVcs::new();
    seed_issue(&mut vcs, &["owner:instance-a@100"]);

    write_claim(&mut vcs, REPO, 42, "instance-a", 999_999).unwrap();

    assert_eq!(
        labels_of(&mut vcs),
        vec!["owner:instance-a@999999".to_string()]
    );
}

#[test]
fn write_claim_removes_another_instances_claim_before_writing_its_own() {
    let mut vcs = FakeVcs::new();
    seed_issue(&mut vcs, &["owner:instance-b@100"]);

    write_claim(&mut vcs, REPO, 42, "instance-a", 500).unwrap();

    assert_eq!(labels_of(&mut vcs), vec!["owner:instance-a@500".to_string()]);
}

#[test]
fn write_claim_removes_every_ambiguous_owner_label_before_writing_its_own()
{
    let mut vcs = FakeVcs::new();
    seed_issue(&mut vcs, &["owner:instance-b@100", "owner:instance-c@200"]);

    write_claim(&mut vcs, REPO, 42, "instance-a", 500).unwrap();

    assert_eq!(labels_of(&mut vcs), vec!["owner:instance-a@500".to_string()]);
}

#[test]
fn write_claim_preserves_non_owner_labels() {
    let mut vcs = FakeVcs::new();
    seed_issue(&mut vcs, &["status:implement", "P1", "owner:instance-b@100"]);

    write_claim(&mut vcs, REPO, 42, "instance-a", 500).unwrap();

    assert_eq!(
        labels_of(&mut vcs),
        vec![
            "status:implement".to_string(),
            "P1".to_string(),
            "owner:instance-a@500".to_string(),
        ]
    );
}

#[test]
fn write_claim_propagates_a_read_issue_failure() {
    let mut vcs = FakeVcs::new();

    assert!(matches!(
        write_claim(&mut vcs, REPO, 42, "instance-a", 500),
        Err(ClaimError::Vcs(VcsError::CommandFailed { .. }))
    ));
}

#[test]
fn write_claim_rejects_an_empty_instance_id() {
    let mut vcs = FakeVcs::new();
    seed_issue(&mut vcs, &[]);

    let result = write_claim(&mut vcs, REPO, 42, "", 500);

    assert!(matches!(result, Err(ClaimError::InvalidInstanceId { .. })));
    assert_eq!(labels_of(&mut vcs), Vec::<String>::new());
}

#[test]
fn write_claim_rejects_an_instance_id_containing_a_comma() {
    let mut vcs = FakeVcs::new();
    seed_issue(&mut vcs, &[]);

    let result = write_claim(&mut vcs, REPO, 42, "mbp,jon", 500);

    assert!(matches!(result, Err(ClaimError::InvalidInstanceId { .. })));
    assert_eq!(labels_of(&mut vcs), Vec::<String>::new());
}

#[test]
fn write_claim_rejects_an_instance_id_containing_a_newline() {
    let mut vcs = FakeVcs::new();
    seed_issue(&mut vcs, &[]);

    let result = write_claim(&mut vcs, REPO, 42, "jon@99\nx", 500);

    assert!(matches!(result, Err(ClaimError::InvalidInstanceId { .. })));
    assert_eq!(labels_of(&mut vcs), Vec::<String>::new());
}

#[test]
fn write_claim_rejects_an_instance_id_containing_a_quote() {
    let mut vcs = FakeVcs::new();
    seed_issue(&mut vcs, &[]);

    let result = write_claim(&mut vcs, REPO, 42, "jon\"mbp", 500);

    assert!(matches!(result, Err(ClaimError::InvalidInstanceId { .. })));
    assert_eq!(labels_of(&mut vcs), Vec::<String>::new());
}

#[test]
fn write_claim_accepts_an_instance_id_with_every_allowed_character() {
    let mut vcs = FakeVcs::new();
    seed_issue(&mut vcs, &["status:implement"]);

    write_claim(&mut vcs, REPO, 42, "spec-flow_a3f.jon@mbp", 1_000).unwrap();

    assert_eq!(
        labels_of(&mut vcs),
        vec![
            "status:implement".to_string(),
            "owner:spec-flow_a3f.jon@mbp@1000".to_string(),
        ]
    );
}

#[test]
fn confirm_claim_reports_claimed_when_its_own_label_is_the_one_that_stuck()
{
    let mut vcs = FakeVcs::new();
    seed_issue(&mut vcs, &[]);
    write_claim(&mut vcs, REPO, 42, "instance-a", 100).unwrap();

    let result = confirm_claim(&mut vcs, REPO, 42, "instance-a").unwrap();

    assert_eq!(result, ClaimResult::Claimed);
}

#[test]
fn confirm_claim_round_trips_an_instance_id_containing_its_own_at_sign() {
    let mut vcs = FakeVcs::new();
    seed_issue(&mut vcs, &[]);
    write_claim(&mut vcs, REPO, 42, "jon@mbp", 100).unwrap();

    let result = confirm_claim(&mut vcs, REPO, 42, "jon@mbp").unwrap();

    assert_eq!(result, ClaimResult::Claimed);
}

#[test]
fn confirm_claim_round_trips_an_instance_id_ending_in_at_sign() {
    let mut vcs = FakeVcs::new();
    seed_issue(&mut vcs, &[]);
    write_claim(&mut vcs, REPO, 42, "jon@", 100).unwrap();

    let result = confirm_claim(&mut vcs, REPO, 42, "jon@").unwrap();

    assert_eq!(result, ClaimResult::Claimed);
}

#[test]
fn confirm_claim_reports_lost_to_other_when_a_racing_write_wins_the_settle_read()
 {
    let mut vcs = FakeVcs::new();
    seed_issue(&mut vcs, &[]);
    write_claim(&mut vcs, REPO, 42, "instance-a", 100).unwrap();
    write_claim(&mut vcs, REPO, 42, "instance-b", 200).unwrap();

    let result = confirm_claim(&mut vcs, REPO, 42, "instance-a").unwrap();

    assert_eq!(
        result,
        ClaimResult::LostToOther {
            instance: Some("instance-b".to_string())
        }
    );
}

#[test]
fn confirm_claim_reports_the_winner_claimed_after_it_wins_a_race() {
    let mut vcs = FakeVcs::new();
    seed_issue(&mut vcs, &[]);
    write_claim(&mut vcs, REPO, 42, "instance-a", 100).unwrap();
    write_claim(&mut vcs, REPO, 42, "instance-b", 200).unwrap();

    let result = confirm_claim(&mut vcs, REPO, 42, "instance-b").unwrap();

    assert_eq!(result, ClaimResult::Claimed);
}

#[test]
fn confirm_claim_reports_lost_to_other_with_no_instance_when_the_claim_vanished()
 {
    let mut vcs = FakeVcs::new();
    seed_issue(&mut vcs, &[]);
    write_claim(&mut vcs, REPO, 42, "instance-a", 100).unwrap();
    seed_issue(&mut vcs, &[]);

    let result = confirm_claim(&mut vcs, REPO, 42, "instance-a").unwrap();

    assert_eq!(result, ClaimResult::LostToOther { instance: None });
}

#[test]
fn confirm_claim_picks_the_first_owner_label_when_more_than_one_is_present()
 {
    let mut vcs = FakeVcs::new();
    seed_issue(&mut vcs, &["owner:instance-a@100", "owner:instance-b@200"]);

    let result = confirm_claim(&mut vcs, REPO, 42, "instance-a").unwrap();

    assert_eq!(result, ClaimResult::Claimed);
}

#[test]
fn confirm_claim_propagates_a_read_issue_failure() {
    let mut vcs = FakeVcs::new();

    assert!(matches!(
        confirm_claim(&mut vcs, REPO, 42, "instance-a"),
        Err(VcsError::CommandFailed { .. })
    ));
}

#[test]
fn a_written_claim_reads_back_as_written() {
    let mut vcs = FakeVcs::new();
    seed_issue(&mut vcs, &["P1"]);
    write_claim(&mut vcs, REPO, 42, "jon@mbp", u64::MAX).unwrap();

    let claims: Vec<Claim> =
        labels_of(&mut vcs).iter().filter_map(|label| Claim::parse(label)).collect();

    assert_eq!(claims, vec![Claim { instance: "jon@mbp".to_string(), epoch: u64::MAX }]);
}

#[test]
fn a_rejected_instance_id_says_why() {
    let mut vcs = FakeVcs::new();
    seed_issue(&mut vcs, &[]);

    let error = write_claim(&mut vcs, REPO, 42, "a b", 1).unwrap_err();

    assert!(matches!(
        error,
        ClaimError::InvalidInstanceId { instance_id, reason }
            if instance_id == "a b" && reason == INVALID_INSTANCE_ID
    ));
}
