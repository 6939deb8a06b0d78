//! The seam's implementation in memory.

use spec_flow::maps::PathMap;
use spec_flow::vcs::fake::FakeVcs;
use spec_flow::vcs::{IssueRef, IssueState, Vcs, VcsError};

fn has_label(vcs: &FakeVcs, repo: &str, label: &str) -> bool {
    vcs.labels.get(repo, 42).unwrap().iter().any(|set| set == label)
}

#[test]
fn ensure_ready_fails_when_git_is_missing() {
    let mut vcs = FakeVcs::new();
    vcs.git_present = false;

    assert!(matches!(
        vcs.ensure_ready("owner/repo"),
        Err(VcsError::BinaryNotFound { .. })
    ));
}

#[test]
fn ensure_ready_fails_when_repo_is_not_authenticated() {
    let mut vcs = FakeVcs::new();

    assert!(matches!(
        vcs.ensure_ready("owner/repo"),
        Err(VcsError::NotAuthenticated { .. })
    ));
}

#[test]
fn ensure_ready_passes_once_authenticated() {
    let mut vcs = FakeVcs::new();
    vcs.authenticated.insert("owner/repo", ());

    assert!(vcs.ensure_ready("owner/repo").is_ok());
}

#[test]
fn set_label_toggles_membership() {
    let mut vcs = FakeVcs::new();

    vcs.set_label("owner/repo", 42, "status:ready", true).unwrap();
    assert!(has_label(&vcs, "owner/repo", "status:ready"));

    vcs.set_label("owner/repo", 42, "status:ready", false).unwrap();
    assert!(!has_label(&vcs, "owner/repo", "status:ready"));
}

#[test]
fn issues_labels_and_comments_are_scoped_per_repo_not_a_bare_issue_number()
{
    let mut vcs = FakeVcs::new();
    vcs.issues.insert("repo-a", 42,
        IssueRef {
            number: 42,
            title: "repo-a's issue".to_string(),
            body: String::new(),
            labels: Vec::new(),
            state: IssueState::Open,
        },
    );
    vcs.issues.insert("repo-b", 42,
        IssueRef {
            number: 42,
            title: "repo-b's issue".to_string(),
            body: String::new(),
            labels: Vec::new(),
            state: IssueState::Open,
        },
    );

    assert_eq!(
        vcs.read_issue("repo-a", 42).unwrap().title,
        "repo-a's issue"
    );
    assert_eq!(
        vcs.read_issue("repo-b", 42).unwrap().title,
        "repo-b's issue"
    );

    vcs.set_label("repo-a", 42, "status:ready", true).unwrap();
    vcs.post_comment("repo-a", 42, "on repo-a").unwrap();

    assert!(has_label(&vcs, "repo-a", "status:ready"));
    assert!(!vcs.labels.contains_key("repo-b", 42));
    assert_eq!(vcs.comments.get("repo-a", 42).unwrap(), &vec!["on repo-a".to_string()]);
    assert!(!vcs.comments.contains_key("repo-b", 42));
}

#[test]
fn open_pr_assigns_increasing_pr_numbers() {
    let mut vcs = FakeVcs::new();

    let first =
        vcs.open_pr("owner/repo", "issue-1", "main", "t", "b").unwrap();
    let second =
        vcs.open_pr("owner/repo", "issue-2", "main", "t", "b").unwrap();

    assert_eq!(first.number, 1);
    assert_eq!(second.number, 2);
}

#[test]
fn read_issue_errors_when_not_seeded() {
    let mut vcs = FakeVcs::new();

    assert!(matches!(
        vcs.read_issue("owner/repo", 1),
        Err(VcsError::CommandFailed { .. })
    ));
}

#[test]
fn worktree_add_records_creation_as_a_sibling_path() {
    let mut vcs = FakeVcs::new();

    let worktree = vcs
        .worktree_add(
            "/abs/repo-a/main",
            "/abs/repo-a",
            "issue-42-widget-cache",
            42,
        )
        .unwrap();

    assert_eq!(
        worktree.path,
        "/abs/repo-a/issue-42-widget-cache"
    );
    assert_eq!(worktree.slug, "widget-cache");
    assert_eq!(vcs.worktrees_created.len(), 1);
    assert_eq!(vcs.worktrees_created[0], ("/abs/repo-a/main".to_string(), worktree));
}

#[test]
fn created_issues_get_increasing_numbers_and_can_be_read() {
    let mut vcs = FakeVcs::new();

    let first = vcs.create_issue("owner/repo", "One", "body").unwrap();
    let second = vcs.create_issue("owner/repo", "Two", "").unwrap();

    assert_eq!((first.number, second.number), (1, 2));
    assert_eq!(vcs.read_issue("owner/repo", 1).unwrap(), first);
    assert_eq!(vcs.list_open_issues("owner/repo", 10).unwrap().len(), 2);
    assert_eq!(vcs.list_open_issues("owner/repo", 1).unwrap().len(), 1);
    assert!(vcs.list_open_issues("owner/other", 10).unwrap().is_empty());
}

#[test]
fn labels_set_on_an_issue_are_read_back_with_it() {
    let mut vcs = FakeVcs::new();
    vcs.create_issue("owner/repo", "One", "").unwrap();

    vcs.set_label("owner/repo", 1, "P1", true).unwrap();
    vcs.set_label("owner/repo", 1, "P1", true).unwrap();

    assert_eq!(vcs.read_issue("owner/repo", 1).unwrap().labels, vec!["P1".to_string()]);
}

#[test]
fn ensure_ready_fails_when_gh_is_missing() {
    let mut vcs = FakeVcs::new();
    vcs.gh_present = false;

    assert!(matches!(
        vcs.ensure_ready("owner/repo"),
        Err(VcsError::BinaryNotFound { binary }) if binary == "gh"
    ));
}

#[test]
fn a_directory_is_the_same_however_it_is_spelled() {
    let mut vcs = FakeVcs::new();
    vcs.repo_slugs.insert("/work//repo/", "owner/repo".to_string());
    vcs.default_branches.insert("/work/./repo", "main".to_string());

    assert_eq!(vcs.detect_repo_slug("/work/repo").unwrap(), "owner/repo");
    assert_eq!(vcs.detect_default_branch("/work/repo/").unwrap(), "main");
    assert!(vcs.detect_repo_slug("/work").is_err());
    assert!(vcs.detect_default_branch("work/repo").is_err());
}

#[test]
fn a_directory_is_forgotten_however_it_is_spelled() {
    let mut slugs: PathMap<u64> = PathMap::new();
    slugs.insert("/work/repo", 1);
    slugs.insert("/work//repo", 2);
    slugs.insert("/work/other", 3);

    assert_eq!(slugs.get("/work/repo/"), Some(&2));
    assert_eq!(slugs.remove("/work/./repo"), Some(2));
    assert_eq!(slugs.get("/work/repo"), None);
    assert_eq!(slugs.remove("/work/repo"), None);
    assert_eq!(slugs.get("/work/other"), Some(&3));
}

#[test]
fn reading_an_issue_changes_nothing_that_a_fake_answers() {
    let mut vcs = FakeVcs::new();
    let number = vcs.create_issue("owner/repo", "T", "B").unwrap().number;

    let first = vcs.read_issue("owner/repo", number).unwrap();
    assert!(vcs.read_issue("owner/repo", number + 1).is_err());
    let second = vcs.read_issue("owner/repo", number).unwrap();

    assert_eq!(first, second);
}
