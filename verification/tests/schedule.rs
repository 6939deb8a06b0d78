//! Which issue comes next.

use spec_flow::scaffold::DEFAULT_WORKFLOW_YAML;
use spec_flow::schedule::{next_action, schedule_order, Candidate, DEFAULT_PHASE_ORDER};
use spec_flow::state::Priority;

fn candidate(issue: u64, status: &str) -> Candidate {
    Candidate {
        issue,
        status: Some(status.to_string()),
        priority: None,
        gates: Vec::new(),
        approvals: Vec::new(),
        dependencies_satisfied: true,
        claimed_live: false,
    }
}

#[test]
fn next_action_is_none_for_an_empty_candidate_list() {
    assert_eq!(next_action(&[]), None);
}

#[test]
fn next_action_skips_an_issue_gated_on_its_current_unapproved_phase() {
    let mut gated = candidate(1, "architecture");
    gated.gates = vec!["architecture".to_string()];
    let less_advanced_but_free = candidate(2, "conflict-check");

    let picked = next_action(&[gated, less_advanced_but_free]);

    assert_eq!(picked, Some(2));
}

#[test]
fn next_action_does_not_skip_an_issue_whose_current_gate_is_approved() {
    let mut gated_and_approved = candidate(1, "architecture");
    gated_and_approved.gates = vec!["architecture".to_string()];
    gated_and_approved.approvals = vec!["architecture".to_string()];

    let picked = next_action(&[gated_and_approved]);

    assert_eq!(picked, Some(1));
}

#[test]
fn next_action_ignores_a_gate_on_a_phase_the_issue_has_not_reached_yet() {
    let mut issue = candidate(1, "architecture");
    issue.gates = vec!["review".to_string()];

    let picked = next_action(&[issue]);

    assert_eq!(picked, Some(1));
}

#[test]
fn next_action_skips_an_issue_blocked_on_an_unmerged_dependency() {
    let mut blocked = candidate(1, "implement");
    blocked.dependencies_satisfied = false;
    let unblocked = candidate(2, "conflict-check");

    let picked = next_action(&[blocked, unblocked]);

    assert_eq!(picked, Some(2));
}

#[test]
fn next_action_skips_an_issue_claimed_by_a_live_instance() {
    let mut claimed = candidate(1, "implement");
    claimed.claimed_live = true;
    let free = candidate(2, "conflict-check");

    let picked = next_action(&[claimed, free]);

    assert_eq!(picked, Some(2));
}

#[test]
fn next_action_treats_a_stale_claim_as_actionable() {
    let stale_claim = candidate(1, "implement");

    let picked = next_action(&[stale_claim]);

    assert_eq!(picked, Some(1));
}

#[test]
fn next_action_prefers_the_deepest_phase() {
    let review = candidate(1, "review");
    let product_spec = candidate(2, "product-spec");

    let picked = next_action(&[product_spec, review]);

    assert_eq!(picked, Some(1));
}

#[test]
fn next_action_orders_every_named_phase_from_deepest_to_shallowest() {
    let issues: Vec<Candidate> = DEFAULT_PHASE_ORDER
        .iter()
        .enumerate()
        .map(|(i, phase)| candidate(i as u64, phase))
        .collect();

    let order = schedule_order(&issues);

    let expected: Vec<u64> =
        (0..DEFAULT_PHASE_ORDER.len() as u64).rev().collect();
    assert_eq!(order, expected);
}

#[test]
fn next_action_ranks_an_issue_with_no_status_behind_every_named_phase() {
    let mut no_status = candidate(1, "product-spec");
    no_status.status = None;
    let product_spec = candidate(2, "product-spec");

    let picked = next_action(&[no_status, product_spec]);

    assert_eq!(picked, Some(2));
}

#[test]
fn next_action_breaks_a_furthest_along_tie_by_priority() {
    let mut p2 = candidate(1, "implement");
    p2.priority = Some(Priority::P2);
    let mut p0 = candidate(2, "implement");
    p0.priority = Some(Priority::P0);

    let picked = next_action(&[p2, p0]);

    assert_eq!(picked, Some(2));
}

#[test]
fn next_action_ranks_no_priority_behind_every_named_priority() {
    let mut no_priority = candidate(1, "implement");
    no_priority.priority = None;
    let mut p3 = candidate(2, "implement");
    p3.priority = Some(Priority::P3);

    let picked = next_action(&[no_priority, p3]);

    assert_eq!(picked, Some(2));
}

#[test]
fn next_action_lets_furthest_along_outrank_priority() {
    let mut p0_shallow = candidate(1, "product-spec");
    p0_shallow.priority = Some(Priority::P0);
    let mut p3_deep = candidate(2, "review");
    p3_deep.priority = Some(Priority::P3);

    let picked = next_action(&[p0_shallow, p3_deep]);

    assert_eq!(picked, Some(2));
}

#[test]
fn next_action_breaks_a_full_tie_by_ascending_issue_number() {
    let a = candidate(9, "implement");
    let b = candidate(3, "implement");

    let picked = next_action(&[a, b]);

    assert_eq!(picked, Some(3));
}

#[test]
fn schedule_order_omits_non_actionable_candidates_entirely() {
    let mut gated = candidate(1, "architecture");
    gated.gates = vec!["architecture".to_string()];
    let free = candidate(2, "product-spec");

    let order = schedule_order(&[gated, free]);

    assert_eq!(order, vec![2]);
}

#[test]
fn schedule_order_is_empty_when_nothing_is_actionable() {
    let mut gated = candidate(1, "architecture");
    gated.gates = vec!["architecture".to_string()];

    assert!(schedule_order(&[gated]).is_empty());
}

#[test]
fn default_phase_order_matches_the_scaffolded_status_vocabulary() {
    let workflow: serde_yaml::Value =
        serde_yaml::from_str(DEFAULT_WORKFLOW_YAML)
            .unwrap();
    let scaffolded_statuses: Vec<String> = workflow["labels"]["status"]
        .as_sequence()
        .unwrap()
        .iter()
        .map(|value| value.as_str().unwrap().to_string())
        .collect();

    assert_eq!(scaffolded_statuses, DEFAULT_PHASE_ORDER);
}

#[test]
fn an_unknown_phase_ranks_with_no_phase_at_all() {
    let unknown = candidate(1, "triage");
    let mut none = candidate(2, "product-spec");
    none.status = None;
    let known = candidate(3, "product-spec");

    assert_eq!(schedule_order(&[unknown, none, known]), vec![3, 1, 2]);
}
