//! The daemon's tools, and what a connection may do.

use spec_flow::config::{
    Binaries, ClaimConfig, ConfigError, CrossProjectMode, GhConfig, GlobalConfig, HarnessesConfig,
    Limits, ListenAddr, MergeMode, ProjectConfig, ProjectPointer,
};
use spec_flow::failure::{IoError, IoErrorKind};
use spec_flow::maps::TextMap;
use spec_flow::server::logic::{
    dependency_states, locate_cwd, read_board, read_drift, read_issue, read_issues,
    resolve_project, ToolError,
};
use spec_flow::server::{
    check_listen, classify, format_chain, registration_cwd, Connection, ErrorClass, RegisterArgs,
    ServeError,
};
use spec_flow::state::drift::DriftFinding;
use spec_flow::time::{Duration, Timestamp};
use spec_flow::vcs::fake::FakeVcs;
use spec_flow::vcs::{
    CiConclusion, IssueRef, IssueRelationships, IssueState, PullRequestRef, PullRequestState,
    PullRequestStatus, Vcs, VcsError,
};

fn global_config(projects: Vec<ProjectPointer>) -> GlobalConfig {
    GlobalConfig {
        listen: ListenAddr::V4 { octets: [127, 0, 0, 1], port: 7420 },
        instance_id: None,
        binaries: Binaries::default(),
        harnesses: HarnessesConfig {
            default: "agent".to_string(),
            harnesses: TextMap::new(),
        },
        limits: Limits { max_concurrent_agents: 3 },
        cross_project_mode: CrossProjectMode::FairShare,
        claim: ClaimConfig {
            heartbeat_ttl: Duration::from_secs(3600),
            heartbeat_interval: Duration::from_secs(300),
        },
        phase_timeout: Duration::from_secs(45 * 60),
        projects,
    }
}

fn project_config(name: &str, repo: &str, dir: &str) -> ProjectConfig {
    ProjectConfig {
        name: name.to_string(),
        repo: repo.to_string(),
        project_dir: dir.to_string(),
        local_path: format!("{}/main", dir),
        default_branch: "main".to_string(),
        merge_mode: MergeMode::Native,
        gh: None,
        harness: None,
        index_path: format!("{}/.index", dir),
        memory_scope: name.to_string(),
        weight: None,
    }
}

fn pointer(name: &str, dir: &str) -> ProjectPointer {
    ProjectPointer { name: name.to_string(), project_dir: dir.to_string() }
}

#[test]
fn resolve_project_finds_the_project_the_cwd_sits_directly_in() {
    let global = global_config(vec![pointer("proj-a", "/tmp/p")]);
    let loaded = project_config("proj-a", "owner/repo-a", "/tmp/p");

    let (found, config) = resolve_project(&global, "/tmp/p", Ok(loaded)).unwrap();

    assert_eq!(found.name, "proj-a");
    assert_eq!(config.repo, "owner/repo-a");
}

#[test]
fn resolve_project_finds_the_project_from_a_worktree_inside_it() {
    let global = global_config(vec![pointer("proj-a", "/tmp/p")]);
    let loaded = project_config("proj-a", "owner/repo-a", "/tmp/p");

    let (found, _) =
        resolve_project(&global, "/tmp/p/issue-42-widget-cache", Ok(loaded)).unwrap();

    assert_eq!(found.name, "proj-a");
}

#[test]
fn resolve_project_picks_the_containing_project_among_several() {
    let global = global_config(vec![pointer("proj-a", "/tmp/a"), pointer("proj-b", "/tmp/b")]);
    let located = locate_cwd(&global, "/tmp/b").unwrap();
    let loaded = project_config("proj-b", "owner/repo-b", &located.project_dir);

    let (found, config) = resolve_project(&global, "/tmp/b", Ok(loaded)).unwrap();

    assert_eq!(found.name, "proj-b");
    assert_eq!(config.repo, "owner/repo-b");
}

#[test]
fn resolve_project_rejects_a_directory_outside_every_project() {
    let global = global_config(vec![pointer("a", "/tmp/a")]);
    let loaded = project_config("a", "o/a", "/tmp/a");

    assert!(matches!(
        resolve_project(&global, "/tmp/not-a-project", Ok(loaded)),
        Err(ToolError::UnregisteredDirectory { .. })
    ));
}

#[test]
fn resolve_project_rejects_an_empty_registry() {
    let global = global_config(Vec::new());
    let loaded = project_config("a", "o/a", "/tmp/a");

    assert!(matches!(
        resolve_project(&global, "/anywhere", Ok(loaded)),
        Err(ToolError::UnregisteredDirectory { .. })
    ));
}

#[test]
fn resolve_project_rejects_a_relative_cwd() {
    let global = global_config(Vec::new());
    let loaded = project_config("a", "o/a", "/tmp/a");

    assert!(matches!(
        resolve_project(&global, "some/relative/dir", Ok(loaded)),
        Err(ToolError::CwdNotAbsolute { .. })
    ));
}

#[test]
fn resolve_project_reports_a_registered_project_with_no_config_file() {
    let global = global_config(vec![pointer("proj-a", "/tmp/p")]);
    let missing = ConfigError::Read {
        path: "/tmp/p/config.yaml".to_string(),
        source: IoError { kind: IoErrorKind::NotFound, message: String::new() },
    };

    assert!(matches!(
        resolve_project(&global, "/tmp/p", Err(missing)),
        Err(ToolError::Config(_))
    ));
}

#[test]
fn read_board_is_empty_for_a_repo_with_no_open_issues() {
    let mut vcs = FakeVcs::new();
    let project = project_config("a", "owner/repo-a", "/tmp/a");

    let (rows, truncated) = read_board(&mut vcs, &project, 100).unwrap();

    assert!(rows.is_empty());
    assert!(!truncated);
}

#[test]
fn read_board_returns_one_row_per_open_issue_sorted_by_number() {
    let mut vcs = FakeVcs::new();
    vcs.create_issue("owner/repo-a", "First", "").unwrap();
    vcs.create_issue("owner/repo-a", "Second", "").unwrap();
    vcs.create_issue("owner/repo-a", "Third", "").unwrap();
    let project = project_config("a", "owner/repo-a", "/tmp/a");

    let (rows, _) = read_board(&mut vcs, &project, 100).unwrap();

    let numbers: Vec<u64> = rows.iter().map(|row| row.number).collect();
    assert_eq!(numbers, vec![1, 2, 3]);
    assert_eq!(rows[1].title, "Second");
}

#[test]
fn read_board_carries_derived_label_state_onto_the_rows() {
    let mut vcs = FakeVcs::new();
    let issue =
        vcs.create_issue("owner/repo-a", "Widget cache", "").unwrap();
    vcs.set_label("owner/repo-a", issue.number, "status:implement", true)
        .unwrap();
    vcs.set_label("owner/repo-a", issue.number, "P1", true).unwrap();
    vcs.set_label("owner/repo-a", issue.number, "gate:review", true)
        .unwrap();
    vcs.set_label(
        "owner/repo-a",
        issue.number,
        "approved:test-plan",
        true,
    )
    .unwrap();
    let project = project_config("a", "owner/repo-a", "/tmp/a");

    let (rows, _) = read_board(&mut vcs, &project, 100).unwrap();

    assert_eq!(rows[0].status.as_deref(), Some("implement"));
    assert_eq!(rows[0].gates, vec!["review".to_string()]);
    assert_eq!(rows[0].approvals, vec!["test-plan".to_string()]);
}

#[test]
fn read_board_omits_closed_issues() {
    let mut vcs = FakeVcs::new();
    vcs.create_issue("owner/repo-a", "Open", "").unwrap();
    let closed = vcs.create_issue("owner/repo-a", "Closed", "").unwrap();
    vcs.issues.insert(
        "owner/repo-a",
        closed.number,
        IssueRef { state: IssueState::Closed, ..closed.clone() },
    );
    let project = project_config("a", "owner/repo-a", "/tmp/a");

    let (rows, _) = read_board(&mut vcs, &project, 100).unwrap();

    assert_eq!(rows.len(), 1);
    assert_eq!(rows[0].title, "Open");
}

#[test]
fn read_board_only_reports_the_bound_projects_repo() {
    let mut vcs = FakeVcs::new();
    vcs.create_issue("owner/repo-a", "On a", "").unwrap();
    vcs.create_issue("owner/repo-b", "On b", "").unwrap();
    let project = project_config("a", "owner/repo-a", "/tmp/a");

    let (rows, _) = read_board(&mut vcs, &project, 100).unwrap();

    assert_eq!(rows.len(), 1);
    assert_eq!(rows[0].title, "On a");
}

#[test]
fn read_board_reports_truncation_when_the_repo_fills_the_limit() {
    let mut vcs = FakeVcs::new();
    vcs.create_issue("owner/repo-a", "One", "").unwrap();
    vcs.create_issue("owner/repo-a", "Two", "").unwrap();
    let project = project_config("a", "owner/repo-a", "/tmp/a");

    let (rows, truncated) = read_board(&mut vcs, &project, 2).unwrap();

    assert_eq!(rows.len(), 2);
    assert!(truncated);
}

#[test]
fn read_board_uses_the_projects_gh_host_for_issue_urls() {
    let mut vcs = FakeVcs::new();
    vcs.create_issue("owner/repo-a", "One", "").unwrap();
    let mut project =
        project_config("a", "owner/repo-a", "/tmp/a");
    project.gh = Some(GhConfig {
        host: "github.example.com".to_string(),
        account: "jon".to_string(),
    });

    let (rows, _) = read_board(&mut vcs, &project, 100).unwrap();

    assert_eq!(
        rows[0].url,
        "https://github.example.com/owner/repo-a/issues/1"
    );
}

#[test]
fn read_issue_returns_the_snapshot_and_its_github_url() {
    let mut vcs = FakeVcs::new();
    let issue =
        vcs.create_issue("owner/repo-a", "Widget cache", "").unwrap();
    vcs.set_label("owner/repo-a", issue.number, "status:groom", true)
        .unwrap();
    let project = project_config("a", "owner/repo-a", "/tmp/a");

    let (snapshot, url) =
        read_issue(&mut vcs, &project, issue.number).unwrap();

    assert_eq!(snapshot.number, issue.number);
    assert_eq!(snapshot.title, "Widget cache");
    assert_eq!(snapshot.status.as_deref(), Some("groom"));
    assert_eq!(url, "https://github.com/owner/repo-a/issues/1");
}

#[test]
fn read_issue_reports_an_unknown_issue_as_a_vcs_error() {
    let mut vcs = FakeVcs::new();
    let project = project_config("a", "owner/repo-a", "/tmp/a");

    assert!(matches!(
        read_issue(&mut vcs, &project, 404),
        Err(ToolError::Vcs(_))
    ));
}

fn now() -> Timestamp {
    Timestamp::from_unix_secs(10_000).unwrap()
}

fn ttl() -> Duration {
    Duration::from_secs(3_600)
}

fn seed_issue(
    vcs: &mut FakeVcs,
    number: u64,
    labels: &[&str],
    state: IssueState,
) {
    vcs.issues.insert("owner/repo-a", number,
        IssueRef {
            number,
            title: format!("Issue {number}"),
            body: String::new(),
            labels: labels.iter().map(|l| l.to_string()).collect(),
            state,
        },
    );
}

fn seed_blocked_by(vcs: &mut FakeVcs, issue: u64, blocked_by: &[u64]) {
    vcs.relationships.insert("owner/repo-a", issue,
        IssueRelationships {
            blocked_by: blocked_by.to_vec(),
            ..Default::default()
        },
    );
}

fn seed_linked_pr(
    vcs: &mut FakeVcs,
    issue: u64,
    prs: &[(u64, PullRequestState)],
) {
    vcs.linked_pull_requests.insert("owner/repo-a", issue,
        prs.iter()
            .map(|(number, _)| PullRequestRef {
                number: *number,
                url: format!(
                    "https://github.com/owner/repo-a/pull/{number}"
                ),
                branch: format!("issue-{issue}-work"),
            })
            .collect(),
    );
    for (number, state) in prs {
        vcs.pull_request_statuses.insert(
            "owner/repo-a",
            *number,
            PullRequestStatus {
                number: *number,
                state: *state,
                ci: CiConclusion::Success,
                in_merge_queue: false,
            },
        );
    }
}

#[test]
fn read_drift_is_clean_for_a_repo_with_no_open_issues() {
    let mut vcs = FakeVcs::new();
    let project = project_config("a", "owner/repo-a", "/tmp/a");

    let report = read_drift(&mut vcs, &project, 100, ttl(), now()).unwrap();

    assert!(report.findings.is_empty());
    assert!(report.claims.is_empty());
    assert!(!report.truncated);
}

#[test]
fn read_drift_is_clean_for_a_healthy_repo() {
    let mut vcs = FakeVcs::new();
    let project = project_config("a", "owner/repo-a", "/tmp/a");
    seed_issue(&mut vcs, 1, &["status:implement"], IssueState::Open);
    seed_issue(
        &mut vcs,
        2,
        &["status:implement", "owner:instance-a@9999"],
        IssueState::Open,
    );
    seed_blocked_by(&mut vcs, 2, &[1]);
    seed_linked_pr(&mut vcs, 2, &[(7, PullRequestState::Open)]);

    let report = read_drift(&mut vcs, &project, 100, ttl(), now()).unwrap();

    assert!(report.findings.is_empty(), "{:?}", report.findings);
    assert_eq!(report.claims.len(), 1);
    assert!(!report.claims[0].stale);
}

#[test]
fn read_drift_reads_an_off_board_dependency_to_tell_closed_from_missing() {
    let mut vcs = FakeVcs::new();
    let project = project_config("a", "owner/repo-a", "/tmp/a");
    seed_issue(&mut vcs, 1, &[], IssueState::Open);
    seed_issue(&mut vcs, 9, &[], IssueState::Closed);
    seed_blocked_by(&mut vcs, 1, &[9]);

    let report = read_drift(&mut vcs, &project, 100, ttl(), now()).unwrap();

    assert_eq!(
        report.findings,
        vec![DriftFinding::DependencyOnClosedIssue {
            issue: 1,
            depends_on: 9
        }]
    );
}

#[test]
fn read_drift_reports_a_dependency_it_cannot_read_at_all_as_missing() {
    let mut vcs = FakeVcs::new();
    let project = project_config("a", "owner/repo-a", "/tmp/a");
    seed_issue(&mut vcs, 1, &[], IssueState::Open);
    seed_blocked_by(&mut vcs, 1, &[9]);

    let report = read_drift(&mut vcs, &project, 100, ttl(), now()).unwrap();

    assert_eq!(
        report.findings,
        vec![DriftFinding::DependencyOnMissingIssue {
            issue: 1,
            depends_on: 9
        }]
    );
}

#[test]
fn read_drift_does_not_flag_a_dependency_on_an_ordinary_open_issue() {
    let mut vcs = FakeVcs::new();
    let project = project_config("a", "owner/repo-a", "/tmp/a");
    seed_issue(&mut vcs, 1, &[], IssueState::Open);
    seed_issue(&mut vcs, 2, &[], IssueState::Open);
    seed_blocked_by(&mut vcs, 1, &[2]);

    let report = read_drift(&mut vcs, &project, 100, ttl(), now()).unwrap();

    assert!(report.findings.is_empty(), "{:?}", report.findings);
}

#[test]
fn read_drift_finds_a_dependency_cycle_among_open_issues() {
    let mut vcs = FakeVcs::new();
    let project = project_config("a", "owner/repo-a", "/tmp/a");
    seed_issue(&mut vcs, 1, &[], IssueState::Open);
    seed_issue(&mut vcs, 2, &[], IssueState::Open);
    seed_blocked_by(&mut vcs, 1, &[2]);
    seed_blocked_by(&mut vcs, 2, &[1]);

    let report = read_drift(&mut vcs, &project, 100, ttl(), now()).unwrap();

    assert!(
        report.findings.contains(&DriftFinding::DependencyCycle {
            cycle: vec![1, 2]
        })
    );
}

#[test]
fn read_drift_does_not_detect_a_cycle_that_passes_through_a_closed_issue()
{
    let mut vcs = FakeVcs::new();
    let project = project_config("a", "owner/repo-a", "/tmp/a");
    seed_issue(&mut vcs, 1, &[], IssueState::Open);
    seed_issue(&mut vcs, 2, &[], IssueState::Closed);
    seed_blocked_by(&mut vcs, 1, &[2]);
    seed_blocked_by(&mut vcs, 2, &[1]);

    let report = read_drift(&mut vcs, &project, 100, ttl(), now()).unwrap();

    assert_eq!(
        report.findings,
        vec![DriftFinding::DependencyOnClosedIssue {
            issue: 1,
            depends_on: 2
        }]
    );
}

#[test]
fn read_drift_flags_a_stale_claim_and_marks_its_holder_stale() {
    let mut vcs = FakeVcs::new();
    let project = project_config("a", "owner/repo-a", "/tmp/a");
    seed_issue(&mut vcs, 1, &["owner:instance-a@0"], IssueState::Open);

    let report = read_drift(&mut vcs, &project, 100, ttl(), now()).unwrap();

    assert_eq!(
        report.findings,
        vec![DriftFinding::StaleClaim {
            issue: 1,
            instance: "instance-a".to_string(),
            epoch: 0,
        }]
    );
    assert_eq!(report.claims.len(), 1);
    assert_eq!(report.claims[0].issue, 1);
    assert_eq!(report.claims[0].claim.instance, "instance-a");
    assert!(report.claims[0].stale);
}

#[test]
fn read_drift_flags_a_merged_pr_against_a_still_open_issue() {
    let mut vcs = FakeVcs::new();
    let project = project_config("a", "owner/repo-a", "/tmp/a");
    seed_issue(&mut vcs, 1, &[], IssueState::Open);
    seed_linked_pr(&mut vcs, 1, &[(7, PullRequestState::Merged)]);

    let report = read_drift(&mut vcs, &project, 100, ttl(), now()).unwrap();

    assert_eq!(
        report.findings,
        vec![DriftFinding::MergedPrWithOpenIssue {
            issue: 1,
            pull_request: 7
        }]
    );
}

#[test]
fn read_drift_flags_two_status_labels_on_one_issue() {
    let mut vcs = FakeVcs::new();
    let project = project_config("a", "owner/repo-a", "/tmp/a");
    seed_issue(
        &mut vcs,
        1,
        &["status:review", "status:implement"],
        IssueState::Open,
    );

    let report = read_drift(&mut vcs, &project, 100, ttl(), now()).unwrap();

    assert_eq!(
        report.findings,
        vec![DriftFinding::AmbiguousLabels {
            issue: 1,
            prefix: "status:",
            labels: vec![
                "status:review".to_string(),
                "status:implement".to_string(),
            ],
        }]
    );
}

#[test]
fn read_drift_flags_two_simultaneously_open_linked_pull_requests() {
    let mut vcs = FakeVcs::new();
    let project = project_config("a", "owner/repo-a", "/tmp/a");
    seed_issue(&mut vcs, 1, &[], IssueState::Open);
    seed_linked_pr(
        &mut vcs,
        1,
        &[
            (7, PullRequestState::Open),
            (9, PullRequestState::Open),
        ],
    );

    let report = read_drift(&mut vcs, &project, 100, ttl(), now()).unwrap();

    assert_eq!(
        report.findings,
        vec![DriftFinding::MultipleOpenLinkedPullRequests {
            issue: 1,
            pull_requests: vec![7, 9],
        }]
    );
}

#[test]
fn read_drift_reports_truncation_when_the_repo_fills_the_limit() {
    let mut vcs = FakeVcs::new();
    let project = project_config("a", "owner/repo-a", "/tmp/a");
    seed_issue(&mut vcs, 1, &[], IssueState::Open);
    seed_issue(&mut vcs, 2, &[], IssueState::Open);

    let report = read_drift(&mut vcs, &project, 2, ttl(), now()).unwrap();

    assert!(report.truncated);
}

#[test]
fn read_drift_only_scans_the_bound_projects_repo() {
    let mut vcs = FakeVcs::new();
    let project = project_config("a", "owner/repo-a", "/tmp/a");
    seed_issue(&mut vcs, 1, &[], IssueState::Open);
    vcs.issues.insert("owner/repo-b", 2,
        IssueRef {
            number: 2,
            title: "On b".to_string(),
            body: String::new(),
            labels: vec!["owner:instance-b@0".to_string()],
            state: IssueState::Open,
        },
    );

    let report = read_drift(&mut vcs, &project, 100, ttl(), now()).unwrap();

    assert!(report.findings.is_empty(), "{:?}", report.findings);
    assert!(report.claims.is_empty());
}

#[test]
fn read_issue_reads_a_closed_issue_rather_than_hiding_it() {
    let mut vcs = FakeVcs::new();
    let issue = vcs.create_issue("owner/repo-a", "Done", "").unwrap();
    vcs.issues.insert(
        "owner/repo-a",
        issue.number,
        IssueRef { state: IssueState::Closed, ..issue.clone() },
    );
    let project = project_config("a", "owner/repo-a", "/tmp/a");

    let (snapshot, _) = read_issue(&mut vcs, &project, issue.number).unwrap();

    assert_eq!(snapshot.state, IssueState::Closed);
}

#[test]
fn a_drift_report_lists_findings_by_kind_and_issues_in_ascending_order() {
    let mut vcs = FakeVcs::new();
    let project = project_config("a", "owner/repo-a", "/tmp/a");
    seed_issue(&mut vcs, 3, &["owner:b@0"], IssueState::Open);
    seed_issue(&mut vcs, 1, &["owner:a@0", "status:x", "status:y"], IssueState::Open);
    seed_blocked_by(&mut vcs, 3, &[8, 7, 8]);

    let report = read_drift(&mut vcs, &project, 100, ttl(), now()).unwrap();

    assert_eq!(
        report.findings,
        vec![
            DriftFinding::DependencyOnMissingIssue { issue: 3, depends_on: 8 },
            DriftFinding::DependencyOnMissingIssue { issue: 3, depends_on: 7 },
            DriftFinding::DependencyOnMissingIssue { issue: 3, depends_on: 8 },
            DriftFinding::StaleClaim { issue: 1, instance: "a".to_string(), epoch: 0 },
            DriftFinding::StaleClaim { issue: 3, instance: "b".to_string(), epoch: 0 },
            DriftFinding::AmbiguousLabels {
                issue: 1,
                prefix: "status:",
                labels: vec!["status:x".to_string(), "status:y".to_string()],
            },
        ]
    );
    assert!(report.claims.iter().all(|holder| holder.stale));
}

#[test]
fn dependency_states_hold_what_was_read_and_leave_out_what_was_not() {
    let mut vcs = FakeVcs::new();
    seed_issue(&mut vcs, 1, &[], IssueState::Open);
    seed_issue(&mut vcs, 9, &[], IssueState::Closed);
    seed_blocked_by(&mut vcs, 1, &[9, 10]);
    let issues = read_issues(&mut vcs, "owner/repo-a", &vec![1]).unwrap();

    let states = dependency_states(&mut vcs, "owner/repo-a", &issues);

    assert_eq!(states.get(&1), Some(&IssueState::Open));
    assert_eq!(states.get(&9), Some(&IssueState::Closed));
    assert_eq!(states.get(&10), None);
}

fn args(cwd: Option<&str>, spawn_token: Option<&str>) -> RegisterArgs {
    RegisterArgs {
        worker_ref: "w1".to_string(),
        role: "coordinator".to_string(),
        cwd: cwd.map(str::to_string),
        spawn_token: spawn_token.map(str::to_string),
    }
}

#[test]
fn registering_takes_a_directory_and_no_token() {
    assert_eq!(registration_cwd(&args(Some("/tmp/a"), None)).unwrap(), "/tmp/a");
    assert!(matches!(registration_cwd(&args(None, None)), Err(ToolError::CwdRequired)));
    assert!(matches!(
        registration_cwd(&args(Some("/tmp/a"), Some("t"))),
        Err(ToolError::SpawnTokenUnsupported)
    ));
    assert!(matches!(
        registration_cwd(&args(None, Some("t"))),
        Err(ToolError::SpawnTokenUnsupported)
    ));
}

#[test]
fn a_connection_stays_bound_to_what_it_registered_for_first() {
    let mut connection = Connection::new();
    assert!(matches!(connection.bound_project(), Err(ToolError::NotRegistered)));

    let first = connection
        .register(
            &args(Some("/tmp/a"), None),
            pointer("a", "/tmp/a"),
            project_config("a", "owner/repo-a", "/tmp/a"),
        )
        .unwrap();
    assert_eq!((first.project.as_str(), first.repo.as_str()), ("a", "owner/repo-a"));
    assert_eq!(first.project_dir, "/tmp/a");
    assert_eq!((first.role.as_str(), first.worker_ref.as_str()), ("coordinator", "w1"));

    let again = connection
        .register(
            &args(Some("/tmp/a"), None),
            pointer("a", "/tmp/a"),
            project_config("a", "owner/edited", "/tmp/a"),
        )
        .unwrap();
    assert_eq!(again.repo, "owner/repo-a");

    let other = connection.register(
        &args(Some("/tmp/b"), None),
        pointer("b", "/tmp/b"),
        project_config("b", "owner/repo-b", "/tmp/b"),
    );
    assert!(matches!(
        other,
        Err(ToolError::AlreadyBound { bound, requested }) if bound == "a" && requested == "b"
    ));
    assert_eq!(connection.bound_project().unwrap().config.repo, "owner/repo-a");
}

#[test]
fn a_board_filter_is_refused_before_anything_else() {
    let connection = Connection::new();

    assert!(matches!(connection.board_project(true), Err(ToolError::BoardFilterUnsupported)));
    assert!(matches!(connection.board_project(false), Err(ToolError::NotRegistered)));
}

fn errors() -> Vec<(ToolError, ErrorClass)> {
    vec![
        (ToolError::CwdRequired, ErrorClass::InvalidParams),
        (
            ToolError::CwdNotAbsolute { cwd: "rel".to_string() },
            ErrorClass::InvalidParams,
        ),
        (
            ToolError::UnregisteredDirectory { cwd: "/x".to_string() },
            ErrorClass::InvalidParams,
        ),
        (ToolError::SpawnTokenUnsupported, ErrorClass::InvalidParams),
        (ToolError::BoardFilterUnsupported, ErrorClass::InvalidParams),
        (ToolError::NotRegistered, ErrorClass::InvalidRequest),
        (
            ToolError::AlreadyBound {
                bound: "a".to_string(),
                requested: "b".to_string(),
            },
            ErrorClass::InvalidRequest,
        ),
    ]
}

#[test]
fn tool_error_maps_client_mistakes_to_the_right_json_rpc_codes() {
    for (error, expected) in errors() {
        assert_eq!(classify(&error), expected);
    }
    assert_eq!(classify(&ToolError::BacklogFilterUnsupported), ErrorClass::InvalidParams);
}

#[test]
fn tool_error_maps_environment_failures_to_internal_error() {
    let error = ToolError::Vcs(VcsError::BinaryNotFound {
        binary: "gh".to_string(),
    });

    assert_eq!(classify(&error), ErrorClass::Internal);
}

#[test]
fn tool_error_maps_a_panicked_worker_task_to_internal_error_not_vcs() {
    let error = ToolError::Internal("panicked".to_string());

    assert_eq!(classify(&error), ErrorClass::Internal);
}

#[test]
fn unusable_files_are_internal_errors() {
    assert_eq!(classify(&ToolError::Config(ConfigError::HomeDirUnavailable)), ErrorClass::Internal);
    let unreadable = ToolError::ReadWorkflow {
        path: "/w".to_string(),
        source: IoError { kind: IoErrorKind::Other, message: String::new() },
    };
    assert_eq!(classify(&unreadable), ErrorClass::Internal);
    let malformed = ToolError::Workflow { path: "/w".to_string(), message: "no".to_string() };
    assert_eq!(classify(&malformed), ErrorClass::Internal);
}

#[test]
fn a_chain_of_causes_becomes_one_line() {
    let messages = ["outer", "middle", "inner"].map(str::to_string).to_vec();

    assert_eq!(format_chain(&messages), "outer: middle: inner");
    assert_eq!(format_chain(&vec!["alone".to_string()]), "alone");
    assert_eq!(format_chain(&Vec::new()), "");
    assert_eq!(format_chain(&vec![String::new(), "x".to_string()]), ": x");
}

#[test]
fn only_loopback_addresses_are_listened_on() {
    let loopback = ListenAddr::V4 { octets: [127, 9, 0, 1], port: 1 };
    assert_eq!(check_listen(loopback).unwrap(), loopback);
    let six = ListenAddr::V6 { segments: [0, 0, 0, 0, 0, 0, 0, 1], port: 1 };
    assert_eq!(check_listen(six).unwrap(), six);
    for public in [
        ListenAddr::V4 { octets: [0, 0, 0, 0], port: 1 },
        ListenAddr::V4 { octets: [192, 168, 0, 1], port: 1 },
        ListenAddr::V6 { segments: [0; 8], port: 1 },
        ListenAddr::V6 { segments: [1, 0, 0, 0, 0, 0, 0, 1], port: 1 },
    ] {
        assert!(matches!(
            check_listen(public),
            Err(ServeError::NonLoopbackListen { addr }) if addr == public
        ));
    }
}
