//! The kickoff of an implementation.

use spec_flow::config::{MergeMode, ProjectConfig};
use spec_flow::implement::{
    decide_spec, finish_implement_setup, spec_skipped_comment, start_implement_setup, SpecDecision,
    StartImplementSetup,
};
use spec_flow::vcs::fake::FakeVcs;
use spec_flow::vcs::{IssueRef, IssueState, VcsError, Worktree};
use spec_flow::workflow::SpecConfig;

const REPO: &str = "owner/repo-a";

fn project() -> ProjectConfig {
    ProjectConfig {
        name: "repo-a".to_string(),
        repo: REPO.to_string(),
        project_dir: "/projects/repo-a".to_string(),
        local_path: "/projects/repo-a/main".to_string(),
        default_branch: "main".to_string(),
        merge_mode: MergeMode::Native,
        gh: None,
        harness: None,
        index_path: "/projects/repo-a/index".to_string(),
        memory_scope: "owner-repo-a".to_string(),
        weight: None,
    }
}

fn spec(optional: bool) -> SpecConfig {
    SpecConfig {
        tool: "openspec".to_string(),
        openspec: None,
        specs_dir: None,
        optional,
        skip_label: "spec:skip".to_string(),
    }
}

fn seed_issue(vcs: &mut FakeVcs, labels: &[&str]) {
    vcs.issues.insert(REPO, 42,
        IssueRef {
            number: 42,
            title: "Widget cache".to_string(),
            body: String::new(),
            labels: labels.iter().map(|l| l.to_string()).collect(),
            state: IssueState::Open,
        },
    );
}

#[test]
fn start_implement_setup_authors_a_spec_with_no_skip_label() {
    let mut vcs = FakeVcs::new();
    seed_issue(&mut vcs, &["status:ready"]);

    let setup = start_implement_setup(
        &mut vcs,
        &project(),
        42,
        "issue-42-widget-cache",
        &spec(true),
    )
    .unwrap();

    assert_eq!(setup.decision, SpecDecision::AuthorSpec);
    assert_eq!(setup.worktree.issue_number, 42);
    assert_eq!(setup.issue.number, 42);
}

#[test]
fn start_implement_setup_skips_the_spec_when_the_label_is_present_and_allowed()
 {
    let mut vcs = FakeVcs::new();
    seed_issue(&mut vcs, &["status:ready", "spec:skip"]);

    let setup = start_implement_setup(
        &mut vcs,
        &project(),
        42,
        "issue-42-widget-cache",
        &spec(true),
    )
    .unwrap();

    assert_eq!(setup.decision, SpecDecision::SkipSpec);
}

#[test]
fn start_implement_setup_ignores_the_skip_label_when_spec_is_not_optional()
{
    let mut vcs = FakeVcs::new();
    seed_issue(&mut vcs, &["status:ready", "spec:skip"]);

    let setup = start_implement_setup(
        &mut vcs,
        &project(),
        42,
        "issue-42-widget-cache",
        &spec(false),
    )
    .unwrap();

    assert_eq!(setup.decision, SpecDecision::AuthorSpec);
}

#[test]
fn start_implement_setup_creates_the_worktree_against_the_primary_checkout()
 {
    let mut vcs = FakeVcs::new();
    seed_issue(&mut vcs, &[]);

    start_implement_setup(
        &mut vcs,
        &project(),
        42,
        "issue-42-widget-cache",
        &spec(true),
    )
    .unwrap();

    let created = &vcs.worktrees_created;
    assert_eq!(created.len(), 1);
    assert_eq!(created[0].0, project().local_path);
}

#[test]
fn start_implement_setup_propagates_a_read_issue_failure() {
    let mut vcs = FakeVcs::new();

    assert!(matches!(
        start_implement_setup(
            &mut vcs,
            &project(),
            42,
            "issue-42-widget-cache",
            &spec(true),
        ),
        Err(VcsError::CommandFailed { .. })
    ));
}

fn setup(decision: SpecDecision) -> StartImplementSetup {
    StartImplementSetup {
        worktree: Worktree {
            issue_number: 42,
            path: "/projects/repo-a/issue-42".to_string(),
            branch: "issue-42-widget-cache".to_string(),
            slug: "widget-cache".to_string(),
        },
        issue: IssueRef {
            number: 42,
            title: "Widget cache".to_string(),
            body: String::new(),
            labels: Vec::new(),
            state: IssueState::Open,
        },
        decision,
    }
}

#[test]
fn finish_implement_setup_commits_pushes_and_posts_the_dev_plan_when_a_spec_was_authored()
 {
    let mut vcs = FakeVcs::new();
    let setup = setup(SpecDecision::AuthorSpec);

    finish_implement_setup(
        &mut vcs,
        &project(),
        &setup,
        &spec(true),
        "## Plan\n1. Do it.",
    )
    .unwrap();

    assert_eq!(vcs.commits.len(), 1);
    assert_eq!(vcs.commits[0].0, setup.worktree.path);
    assert_eq!(
        vcs.pushes[0],
        (setup.worktree.path.clone(), setup.worktree.branch.clone())
    );
    let posted = vcs.comments.get(REPO, 42).unwrap();
    assert_eq!(posted, &vec!["## Plan\n1. Do it.".to_string()]);
}

#[test]
fn finish_implement_setup_posts_a_skip_note_instead_of_committing_when_skipped()
 {
    let mut vcs = FakeVcs::new();
    let setup = setup(SpecDecision::SkipSpec);

    finish_implement_setup(
        &mut vcs,
        &project(),
        &setup,
        &spec(true),
        "## Plan\n1. Do it.",
    )
    .unwrap();

    assert!(vcs.commits.is_empty());
    let posted = vcs.comments.get(REPO, 42).unwrap();
    assert_eq!(
        posted,
        &vec![
            spec_skipped_comment("spec:skip"),
            "## Plan\n1. Do it.".to_string(),
        ]
    );
}

#[test]
fn finish_implement_setup_cites_the_configured_skip_label_in_the_audit_comment()
 {
    let mut vcs = FakeVcs::new();
    let setup = setup(SpecDecision::SkipSpec);
    let mut custom_spec = spec(true);
    custom_spec.skip_label = "no-spec-needed".to_string();

    finish_implement_setup(&mut vcs, &project(), &setup, &custom_spec, "plan")
        .unwrap();

    let posted = vcs.comments.get(REPO, 42).unwrap();
    assert!(posted[0].contains("no-spec-needed"));
    assert!(!posted[0].contains("spec:skip"));
}

#[test]
fn finish_implement_setup_pushes_the_branch_even_when_skipped() {
    let mut vcs = FakeVcs::new();
    let setup = setup(SpecDecision::SkipSpec);

    finish_implement_setup(&mut vcs, &project(), &setup, &spec(true), "plan")
        .unwrap();

    assert_eq!(vcs.pushes.len(), 1);
}

#[test]
fn the_skip_note_cites_the_label() {
    assert_eq!(
        spec_skipped_comment("spec:skip"),
        "Spec authoring skipped (`spec:skip` label present) — this implement is branch + PR only."
    );
}

#[test]
fn only_the_exact_label_skips_a_spec() {
    let labels = vec!["spec:skipped".to_string(), "spec".to_string()];

    assert_eq!(decide_spec(&labels, &spec(true)), SpecDecision::AuthorSpec);
}
