//! The backlog: the issues that are not ready to be worked on.

use spec_flow::board::build_backlog;
use spec_flow::config::{MergeMode, ProjectConfig};
use spec_flow::failure::{IoError, IoErrorKind};
use spec_flow::init::provision_labels;
use spec_flow::scaffold::{workflow_path, DEFAULT_WORKFLOW_YAML};
use spec_flow::server::logic::{read_backlog, ToolError};
use spec_flow::state::{IssueSnapshot, Priority};
use spec_flow::vcs::fake::FakeVcs;
use spec_flow::vcs::{IssueRelationships, IssueState, Vcs};
use spec_flow::workflow::{
    handoff_ready_reached, label_vocabulary, readiness_gap, PhaseLabels, WorkflowLabels,
};

fn text(value: &serde_yaml::Value) -> String {
    value.as_str().unwrap().to_string()
}

/// What the shipped workflow says about labels.
fn shipped() -> WorkflowLabels {
    let workflow: serde_yaml::Value = serde_yaml::from_str(DEFAULT_WORKFLOW_YAML).unwrap();
    WorkflowLabels {
        statuses: workflow["labels"]["status"].as_sequence().unwrap().iter().map(text).collect(),
        gate_prefix: text(&workflow["labels"]["gate_prefix"]),
        phases: workflow["phases"]
            .as_sequence()
            .unwrap()
            .iter()
            .map(|phase| PhaseLabels {
                id: text(&phase["id"]),
                status: phase.get("status_label").map(text),
                approval_label: phase.get("approval_label").map(text),
            })
            .collect(),
        skip_label: text(&workflow["spec"]["skip_label"]),
    }
}

fn project() -> ProjectConfig {
    ProjectConfig {
        name: "a".to_string(),
        repo: "owner/repo-a".to_string(),
        project_dir: "/tmp/a".to_string(),
        local_path: "/tmp/a/main".to_string(),
        default_branch: "main".to_string(),
        merge_mode: MergeMode::Native,
        gh: None,
        harness: None,
        weight: None,
        index_path: "/tmp/a/.index".to_string(),
        memory_scope: "a".to_string(),
    }
}

#[test]
fn read_backlog_reports_a_project_with_no_workflow_file() {
    let mut vcs = FakeVcs::new();
    let project = project();
    let absent = ToolError::ReadWorkflow {
        path: workflow_path(&project.local_path),
        source: IoError { kind: IoErrorKind::NotFound, message: "absent".to_string() },
    };

    assert!(matches!(
        read_backlog(&mut vcs, &project, Err(absent), 100),
        Err(ToolError::ReadWorkflow { .. })
    ));
}

#[test]
fn read_backlog_reports_a_malformed_workflow_file() {
    let mut vcs = FakeVcs::new();
    let project = project();
    let parsed = serde_yaml::from_str::<serde_yaml::Value>("phases: [not-a-phase-map\n");
    let malformed = ToolError::Workflow {
        path: workflow_path(&project.local_path),
        message: parsed.unwrap_err().to_string(),
    };

    assert!(matches!(
        read_backlog(&mut vcs, &project, Err(malformed), 100),
        Err(ToolError::Workflow { .. })
    ));
}

#[test]
fn read_backlog_keeps_only_the_issues_before_the_ready_seam() {
    let mut vcs = FakeVcs::new();
    let project = project();
    for (title, status) in [
        ("Grooming", Some("product-spec")),
        ("Handed off", Some("ready")),
        ("In flight", Some("implement")),
        ("Untouched", None),
    ] {
        let issue = vcs.create_issue("owner/repo-a", title, "").unwrap();
        if let Some(status) = status {
            vcs.set_label(
                "owner/repo-a",
                issue.number,
                &format!("status:{status}"),
                true,
            )
            .unwrap();
        }
    }

    let (rows, _) = read_backlog(&mut vcs, &project, Ok(shipped()), 100).unwrap();

    let titles: Vec<&str> =
        rows.iter().map(|row| row.title.as_str()).collect();
    assert_eq!(titles, vec!["Grooming", "Untouched"]);
}

#[test]
fn read_backlog_annotates_each_row_with_its_readiness_gap() {
    let mut vcs = FakeVcs::new();
    let project = project();
    let issue =
        vcs.create_issue("owner/repo-a", "Widget cache", "").unwrap();
    vcs.set_label(
        "owner/repo-a",
        issue.number,
        "status:architecture",
        true,
    )
    .unwrap();
    vcs.set_label(
        "owner/repo-a",
        issue.number,
        "approved:product-spec",
        true,
    )
    .unwrap();

    let (rows, _) = read_backlog(&mut vcs, &project, Ok(shipped()), 100).unwrap();

    assert_eq!(rows.len(), 1);
    assert_eq!(
        rows[0].readiness_gap,
        vec!["architecture".to_string(), "test-plan".to_string()]
    );
    assert_eq!(rows[0].url, "https://github.com/owner/repo-a/issues/1");
}

#[test]
fn read_backlog_orders_the_worklist_by_priority() {
    let mut vcs = FakeVcs::new();
    let project = project();
    for priority in ["P2", "P0", "P1"] {
        let issue =
            vcs.create_issue("owner/repo-a", priority, "").unwrap();
        vcs.set_label("owner/repo-a", issue.number, priority, true)
            .unwrap();
    }

    let (rows, _) = read_backlog(&mut vcs, &project, Ok(shipped()), 100).unwrap();

    let titles: Vec<&str> =
        rows.iter().map(|row| row.title.as_str()).collect();
    assert_eq!(titles, vec!["P0", "P1", "P2"]);
}

#[test]
fn read_backlog_reports_truncation_of_the_open_issue_read() {
    let mut vcs = FakeVcs::new();
    let project = project();
    vcs.create_issue("owner/repo-a", "One", "").unwrap();
    let ready = vcs.create_issue("owner/repo-a", "Two", "").unwrap();
    vcs.set_label("owner/repo-a", ready.number, "status:ready", true)
        .unwrap();

    let (rows, truncated) = read_backlog(&mut vcs, &project, Ok(shipped()), 2).unwrap();

    assert_eq!(rows.len(), 1);
    assert!(truncated);
}

#[test]
fn read_backlog_only_reports_the_bound_projects_repo() {
    let mut vcs = FakeVcs::new();
    let project = project();
    vcs.create_issue("owner/repo-a", "On a", "").unwrap();
    vcs.create_issue("owner/repo-b", "On b", "").unwrap();

    let (rows, _) = read_backlog(&mut vcs, &project, Ok(shipped()), 100).unwrap();

    assert_eq!(rows.len(), 1);
    assert_eq!(rows[0].title, "On a");
}

#[test]
fn provisions_exactly_the_default_workflows_label_vocabulary() {
    let mut vcs = FakeVcs::new();
    let mut expected = label_vocabulary(&shipped());

    provision_labels(&mut vcs, "owner/repo-a", &expected).unwrap();

    let mut ensured = vcs.labels_ensured.get("owner/repo-a").unwrap().clone();
    ensured.sort();
    expected.sort();
    expected.dedup();
    assert_eq!(ensured, expected);
    assert!(ensured.contains(&"status:ready".to_string()));
    assert!(ensured.contains(&"gate:review".to_string()));
    assert!(ensured.contains(&"approved:merge".to_string()));
    assert!(ensured.contains(&"spec:skip".to_string()));
}

fn snapshot(number: u64, priority: Option<Priority>) -> IssueSnapshot {
    IssueSnapshot {
        number,
        title: format!("Issue {number}"),
        state: IssueState::Open,
        priority,
        status: None,
        gates: Vec::new(),
        approvals: Vec::new(),
        owner: None,
        relationships: IssueRelationships::default(),
        pull_request: None,
        linked_pull_requests: Vec::new(),
    }
}

#[test]
fn equally_urgent_issues_are_listed_oldest_first() {
    let snapshots = [
        snapshot(9, None),
        snapshot(7, Some(Priority::P1)),
        snapshot(3, None),
        snapshot(5, Some(Priority::P1)),
    ];

    let rows = build_backlog(&snapshots, &shipped(), "o/r", Some("git.example.com"));

    let numbers: Vec<u64> = rows.iter().map(|row| row.number).collect();
    assert_eq!(numbers, [5, 7, 3, 9]);
    assert_eq!(rows[0].url, "https://git.example.com/o/r/issues/5");
}

#[test]
fn only_known_statuses_from_ready_on_are_handed_off() {
    let labels = shipped();

    assert!(handoff_ready_reached(&labels, Some("ready")));
    assert!(handoff_ready_reached(&labels, Some("done")));
    assert!(!handoff_ready_reached(&labels, Some("test-plan")));
    assert!(!handoff_ready_reached(&labels, Some("elsewhere")));
    assert!(!handoff_ready_reached(&labels, None));
}

#[test]
fn approving_a_phase_closes_its_gap() {
    let labels = shipped();
    let mut approvals = Vec::new();
    assert_eq!(readiness_gap(&labels, &approvals), ["product-spec", "architecture", "test-plan"]);
    approvals.push("architecture".to_string());
    assert_eq!(readiness_gap(&labels, &approvals), ["product-spec", "test-plan"]);
    approvals.push("merge".to_string());
    assert_eq!(readiness_gap(&labels, &approvals), ["product-spec", "test-plan"]);
    approvals.push("test-plan".to_string());
    approvals.push("product-spec".to_string());
    assert!(readiness_gap(&labels, &approvals).is_empty());
}
