//! The seam's implementation over the `git` and `gh` programs.

use spec_flow::failure::{IoError, IoErrorKind, JsonError};
use spec_flow::vcs::branch_slug;
use spec_flow::vcs::depends::parse_depends_on;
use spec_flow::vcs::runner::{
    command_line, settle_run, CommandOutput, CommandRunner, FakeRunner, Finished, RecordedCall,
};
use spec_flow::vcs::shell::{
    gh_args, ShellVcs, ISSUE_FIELDS, ISSUE_LIST_FIELDS, PULL_REQUEST_FIELDS,
};
use spec_flow::vcs::{
    CiConclusion, IssueRelationships, IssueState, PullRequestState, Vcs, VcsError, Worktree,
};

/// A machine on which no program can be found.
struct NothingInstalled;

impl CommandRunner for NothingInstalled {
    fn run(
        &mut self,
        program: &str,
        _args: &Vec<String>,
        _cwd: Option<&str>,
    ) -> Result<CommandOutput, VcsError> {
        Err(VcsError::BinaryNotFound { binary: program.to_string() })
    }
}

fn shell_vcs(runner: FakeRunner) -> ShellVcs<FakeRunner> {
    ShellVcs::new("git".to_string(), "gh".to_string(), runner)
}

fn assert_call(call: &RecordedCall, program: &str, args: &[&str]) {
    assert_eq!(call.program, program);
    assert_eq!(call.args, args);
}

#[test]
fn gh_args_always_appends_the_repo_scope() {
    assert_eq!(
        gh_args(&["issue", "view", "42"], "owner/repo-a"),
        vec!["issue", "view", "42", "--repo", "owner/repo-a"],
    );
}

#[test]
fn git_available_fails_for_a_binary_that_does_not_exist() {
    let mut vcs = ShellVcs::new(
        "definitely-not-a-real-binary".to_string(),
        "gh".to_string(),
        NothingInstalled,
    );

    assert!(matches!(
        vcs.git_available(),
        Err(VcsError::BinaryNotFound { .. })
    ));
}

#[test]
fn gh_authenticated_checks_auth_then_reaches_the_repo_itself() {
    let mut runner = FakeRunner::new();
    runner.succeed("Logged in to github.com");
    runner.succeed(r#"{"nameWithOwner":"owner/repo-a"}"#);
    let mut vcs = shell_vcs(runner);

    let authenticated = vcs.gh_authenticated("owner/repo-a").unwrap();

    assert!(authenticated);
    let calls = vcs.runner.calls();
    assert_eq!(calls.len(), 2);
    assert_call(&calls[0], "gh", &["auth", "status"]);
    assert_call(
        &calls[1],
        "gh",
        &["repo", "view", "owner/repo-a", "--json", "nameWithOwner"],
    );
}

#[test]
fn gh_authenticated_is_false_when_auth_status_fails() {
    let mut runner = FakeRunner::new();
    runner.fail(1, "You are not logged into any GitHub hosts.");
    let mut vcs = shell_vcs(runner);

    assert!(!vcs.gh_authenticated("owner/repo-a").unwrap());
    assert_eq!(vcs.runner.calls().len(), 1);
}

#[test]
fn gh_authenticated_is_false_when_the_repo_is_unreachable() {
    let mut runner = FakeRunner::new();
    runner.succeed("Logged in to github.com");
    runner.fail(1, "Could not resolve to a Repository");
    let mut vcs = shell_vcs(runner);

    assert!(!vcs.gh_authenticated("owner/repo-a").unwrap());
    assert_eq!(vcs.runner.calls().len(), 2);
}

#[test]
fn detect_repo_slug_reads_name_with_owner_from_inside_the_repo() {
    let mut runner = FakeRunner::new();
    runner.succeed(r#"{"nameWithOwner":"owner/repo-a"}"#);
    let mut vcs = shell_vcs(runner);

    let slug =
        vcs.detect_repo_slug("/abs/repo-a/main").unwrap();

    assert_eq!(slug, "owner/repo-a");
    let calls = vcs.runner.calls();
    assert_call(
        &calls[0],
        "gh",
        &["repo", "view", "--json", "nameWithOwner"],
    );
    assert_eq!(
        calls[0].cwd.as_deref(),
        Some("/abs/repo-a/main")
    );
}

#[test]
fn detect_repo_slug_reports_a_non_zero_exit_as_command_failed() {
    let mut runner = FakeRunner::new();
    runner.fail(1, "not a git repository");
    let mut vcs = shell_vcs(runner);

    assert!(matches!(
        vcs.detect_repo_slug("/abs/nowhere"),
        Err(VcsError::CommandFailed { status: 1, .. })
    ));
}

#[test]
fn detect_repo_slug_reports_malformed_json_as_invalid_json() {
    let mut runner = FakeRunner::new();
    runner.succeed("not json at all");
    let mut vcs = shell_vcs(runner);

    assert!(matches!(
        vcs.detect_repo_slug("/abs/repo-a/main"),
        Err(VcsError::InvalidJson { .. })
    ));
}

#[test]
fn merge_queue_enabled_is_true_when_the_branch_has_a_queue() {
    let mut runner = FakeRunner::new();
    runner.succeed(
        r#"{"data":{"repository":{"mergeQueue":{"id":"MQ_1"}}}}"#,
    );
    let mut vcs = shell_vcs(runner);

    let enabled = vcs.merge_queue_enabled("owner/repo-a", "main").unwrap();

    assert!(enabled);
    let calls = vcs.runner.calls();
    assert_eq!(calls[0].program, "gh");
    assert_eq!(&calls[0].args[..2], &["api", "graphql"]);
    assert!(calls[0].args.contains(&"owner=owner".to_string()));
    assert!(calls[0].args.contains(&"name=repo-a".to_string()));
    assert!(calls[0].args.contains(&"branch=main".to_string()));
}

#[test]
fn merge_queue_enabled_is_false_when_the_branch_has_none() {
    let mut runner = FakeRunner::new();
    runner.succeed(r#"{"data":{"repository":{"mergeQueue":null}}}"#);
    let mut vcs = shell_vcs(runner);

    assert!(!vcs.merge_queue_enabled("owner/repo-a", "main").unwrap());
}

#[test]
fn merge_queue_enabled_degrades_to_false_when_the_query_fails() {
    let mut runner = FakeRunner::new();
    runner.fail(1, "Field 'mergeQueue' doesn't exist");
    let mut vcs = shell_vcs(runner);

    assert!(!vcs.merge_queue_enabled("owner/repo-a", "main").unwrap());
}

#[test]
fn merge_queue_enabled_degrades_to_false_on_unparseable_output() {
    let mut runner = FakeRunner::new();
    runner.succeed("<html>proxy error</html>");
    let mut vcs = shell_vcs(runner);

    assert!(!vcs.merge_queue_enabled("owner/repo-a", "main").unwrap());
}

#[test]
fn create_issue_creates_then_reads_the_issue_back_by_its_new_number() {
    let mut runner = FakeRunner::new();
    runner.succeed("https://github.com/owner/repo-a/issues/43\n");
    runner.succeed(
        r#"{"number":43,"title":"Widget cache","body":"Do it.",
            "labels":[],"state":"OPEN"}"#,
    );
    let mut vcs = shell_vcs(runner);

    let issue = vcs
        .create_issue("owner/repo-a", "Widget cache", "Do it.")
        .unwrap();

    assert_eq!(issue.number, 43);
    assert_eq!(issue.title, "Widget cache");
    let calls = vcs.runner.calls();
    assert_call(
        &calls[0],
        "gh",
        &[
            "issue",
            "create",
            "--title",
            "Widget cache",
            "--body",
            "Do it.",
            "--repo",
            "owner/repo-a",
        ],
    );
    assert_call(
        &calls[1],
        "gh",
        &[
            "issue",
            "view",
            "43",
            "--json",
            ISSUE_FIELDS,
            "--repo",
            "owner/repo-a",
        ],
    );
}

#[test]
fn create_issue_fails_loudly_when_the_create_output_is_not_an_issue_url() {
    let mut runner = FakeRunner::new();
    runner.succeed("not a url\n");
    let mut vcs = shell_vcs(runner);

    assert!(matches!(
        vcs.create_issue("owner/repo-a", "t", "b"),
        Err(VcsError::UnexpectedOutput { .. })
    ));
    assert_eq!(vcs.runner.calls().len(), 1);
}

#[test]
fn create_issue_propagates_a_read_back_failure_after_a_successful_create()
{
    let mut runner = FakeRunner::new();
    runner.succeed("https://github.com/owner/repo-a/issues/43\n");
    runner.fail(1, "not found");
    let mut vcs = shell_vcs(runner);

    assert!(matches!(
        vcs.create_issue("owner/repo-a", "t", "b"),
        Err(VcsError::CommandFailed { .. })
    ));
}

#[test]
fn read_issue_parses_the_issue_and_scopes_the_call_to_the_repo() {
    let mut runner = FakeRunner::new();
    runner.succeed(
        r#"{"number":42,"title":"Widget cache","body":"Do it.",
            "labels":[{"name":"status:ready"},{"name":"P1"}],
            "state":"OPEN"}"#,
    );
    let mut vcs = shell_vcs(runner);

    let issue = vcs.read_issue("owner/repo-a", 42).unwrap();

    assert_eq!(issue.number, 42);
    assert_eq!(issue.title, "Widget cache");
    assert_eq!(issue.body, "Do it.");
    assert_eq!(issue.labels, vec!["status:ready", "P1"]);
    assert_eq!(issue.state, IssueState::Open);
    assert_call(
        &vcs.runner.calls()[0],
        "gh",
        &[
            "issue",
            "view",
            "42",
            "--json",
            ISSUE_FIELDS,
            "--repo",
            "owner/repo-a",
        ],
    );
}

#[test]
fn read_issue_maps_a_closed_issue() {
    let mut runner = FakeRunner::new();
    runner.succeed(
        r#"{"number":7,"title":"t","body":"","labels":[],
            "state":"CLOSED"}"#,
    );
    let mut vcs = shell_vcs(runner);

    let issue = vcs.read_issue("owner/repo-a", 7).unwrap();

    assert_eq!(issue.state, IssueState::Closed);
}

#[test]
fn read_issue_reports_an_unknown_state_as_invalid_json() {
    let mut runner = FakeRunner::new();
    runner.succeed(
        r#"{"number":7,"title":"t","body":"","labels":[],
            "state":"MERGED"}"#,
    );
    let mut vcs = shell_vcs(runner);

    assert!(matches!(
        vcs.read_issue("owner/repo-a", 7),
        Err(VcsError::InvalidJson { .. })
    ));
}

#[test]
fn list_open_issues_parses_the_numbers_and_pins_every_filter_flag() {
    let mut runner = FakeRunner::new();
    runner.succeed(r#"[{"number":42},{"number":7},{"number":3}]"#);
    let mut vcs = shell_vcs(runner);

    let numbers = vcs.list_open_issues("owner/repo-a", 250).unwrap();

    assert_eq!(numbers, vec![42, 7, 3]);
    assert_call(
        &vcs.runner.calls()[0],
        "gh",
        &[
            "issue",
            "list",
            "--state",
            "open",
            "--limit",
            "250",
            "--json",
            ISSUE_LIST_FIELDS,
            "--repo",
            "owner/repo-a",
        ],
    );
}

#[test]
fn list_open_issues_returns_nothing_for_a_repo_with_no_open_issues() {
    let mut runner = FakeRunner::new();
    runner.succeed("[]");
    let mut vcs = shell_vcs(runner);

    assert!(vcs.list_open_issues("owner/repo-a", 30).unwrap().is_empty());
}

#[test]
fn list_open_issues_returns_nothing_when_gh_prints_truly_empty_stdout() {
    let mut runner = FakeRunner::new();
    runner.succeed("");
    let mut vcs = shell_vcs(runner);

    assert!(vcs.list_open_issues("owner/repo-a", 30).unwrap().is_empty());
}

#[test]
fn list_open_issues_reports_a_failed_gh_call_rather_than_an_empty_board() {
    let mut runner = FakeRunner::new();
    runner.fail(1, "could not resolve to a Repository");
    let mut vcs = shell_vcs(runner);

    assert!(matches!(
        vcs.list_open_issues("owner/repo-a", 30),
        Err(VcsError::CommandFailed { .. })
    ));
}

#[test]
fn set_label_adds_a_label_when_present() {
    let mut runner = FakeRunner::new();
    runner.succeed("");
    let mut vcs = shell_vcs(runner);

    vcs.set_label("owner/repo-a", 42, "status:ready", true).unwrap();

    assert_call(
        &vcs.runner.calls()[0],
        "gh",
        &[
            "issue",
            "edit",
            "42",
            "--add-label",
            "status:ready",
            "--repo",
            "owner/repo-a",
        ],
    );
}

#[test]
fn set_label_removes_a_label_when_not_present() {
    let mut runner = FakeRunner::new();
    runner.succeed("");
    let mut vcs = shell_vcs(runner);

    vcs.set_label("owner/repo-a", 42, "status:ready", false).unwrap();

    assert_call(
        &vcs.runner.calls()[0],
        "gh",
        &[
            "issue",
            "edit",
            "42",
            "--remove-label",
            "status:ready",
            "--repo",
            "owner/repo-a",
        ],
    );
}

#[test]
fn ensure_label_creates_a_label_that_does_not_exist_yet() {
    let mut runner = FakeRunner::new();
    runner.succeed("[]");
    runner.succeed("");
    let mut vcs = shell_vcs(runner);

    vcs.ensure_label("owner/repo-a", "gate:architecture").unwrap();

    let calls = vcs.runner.calls();
    assert_call(
        &calls[0],
        "gh",
        &[
            "label",
            "list",
            "--search",
            "gate:architecture",
            "--json",
            "name",
            "--limit",
            "999",
            "--repo",
            "owner/repo-a",
        ],
    );
    assert_call(
        &calls[1],
        "gh",
        &[
            "label",
            "create",
            "gate:architecture",
            "--color",
            "ededed",
            "--repo",
            "owner/repo-a",
        ],
    );
}

#[test]
fn ensure_label_creates_a_label_when_search_returns_empty_stdout() {
    let mut runner = FakeRunner::new();
    runner.succeed("");
    runner.succeed("");
    let mut vcs = shell_vcs(runner);

    vcs.ensure_label("owner/repo-a", "gate:architecture").unwrap();

    let calls = vcs.runner.calls();
    assert_eq!(calls.len(), 2);
    assert_call(
        &calls[1],
        "gh",
        &[
            "label",
            "create",
            "gate:architecture",
            "--color",
            "ededed",
            "--repo",
            "owner/repo-a",
        ],
    );
}

#[test]
fn ensure_label_leaves_an_already_existing_label_untouched() {
    let mut runner = FakeRunner::new();
    runner.succeed(r#"[{"name":"gate:architecture"}]"#);
    let mut vcs = shell_vcs(runner);

    vcs.ensure_label("owner/repo-a", "gate:architecture").unwrap();

    assert_eq!(vcs.runner.calls().len(), 1);
}

#[test]
fn ensure_label_ignores_a_fuzzy_search_match_that_is_not_an_exact_name() {
    let mut runner = FakeRunner::new();
    runner.succeed(r#"[{"name":"gate:architecture-legacy"}]"#);
    runner.succeed("");
    let mut vcs = shell_vcs(runner);

    vcs.ensure_label("owner/repo-a", "gate:architecture").unwrap();

    assert_eq!(vcs.runner.calls().len(), 2);
}

#[test]
fn post_comment_sends_the_body_scoped_to_the_repo() {
    let mut runner = FakeRunner::new();
    runner.succeed("https://github.com/owner/repo-a/issues/42#comment");
    let mut vcs = shell_vcs(runner);

    vcs.post_comment("owner/repo-a", 42, "phase done").unwrap();

    assert_call(
        &vcs.runner.calls()[0],
        "gh",
        &[
            "issue",
            "comment",
            "42",
            "--body",
            "phase done",
            "--repo",
            "owner/repo-a",
        ],
    );
}

#[test]
fn post_comment_reports_a_non_zero_exit_as_command_failed() {
    let mut runner = FakeRunner::new();
    runner.fail(1, "HTTP 403");
    let mut vcs = shell_vcs(runner);

    assert!(matches!(
        vcs.post_comment("owner/repo-a", 42, "phase done"),
        Err(VcsError::CommandFailed { status: 1, .. })
    ));
}

#[test]
fn open_pr_creates_then_reads_the_pull_request_back() {
    let mut runner = FakeRunner::new();
    runner.succeed("https://github.com/owner/repo-a/pull/7\n");
    runner.succeed(
        r#"{"number":7,"url":"https://github.com/owner/repo-a/pull/7",
            "headRefName":"issue-42-widget-cache"}"#,
    );
    let mut vcs = shell_vcs(runner);

    let pr = vcs
        .open_pr(
            "owner/repo-a",
            "issue-42-widget-cache",
            "main",
            "Widget cache",
            "Closes #42",
        )
        .unwrap();

    assert_eq!(pr.number, 7);
    assert_eq!(pr.url, "https://github.com/owner/repo-a/pull/7");
    assert_eq!(pr.branch, "issue-42-widget-cache");
    let calls = vcs.runner.calls();
    assert_call(
        &calls[0],
        "gh",
        &[
            "pr",
            "create",
            "--head",
            "issue-42-widget-cache",
            "--base",
            "main",
            "--title",
            "Widget cache",
            "--body",
            "Closes #42",
            "--repo",
            "owner/repo-a",
        ],
    );
    assert_call(
        &calls[1],
        "gh",
        &[
            "pr",
            "view",
            "issue-42-widget-cache",
            "--json",
            PULL_REQUEST_FIELDS,
            "--repo",
            "owner/repo-a",
        ],
    );
}

#[test]
fn open_pr_reports_a_failed_create_as_command_failed() {
    let mut runner = FakeRunner::new();
    runner.fail(1, "a pull request already exists");
    let mut vcs = shell_vcs(runner);

    let error = vcs
        .open_pr("owner/repo-a", "issue-42-x", "main", "t", "b")
        .unwrap_err();

    assert!(matches!(error, VcsError::CommandFailed { status: 1, .. }));
    assert_eq!(vcs.runner.calls().len(), 1);
}

#[test]
fn enqueue_merge_uses_the_auto_merge_queue_scoped_to_the_repo() {
    let mut runner = FakeRunner::new();
    runner.succeed("");
    let mut vcs = shell_vcs(runner);

    vcs.enqueue_merge("owner/repo-a", 7).unwrap();

    assert_call(
        &vcs.runner.calls()[0],
        "gh",
        &[
            "pr",
            "merge",
            "7",
            "--auto",
            "--squash",
            "--repo",
            "owner/repo-a",
        ],
    );
}

#[test]
fn read_relationships_parses_the_native_graphql_edges() {
    let mut runner = FakeRunner::new();
    runner.succeed(
        r#"{"data":{"repository":{"issue":{
            "parent":{"number":10},
            "subIssues":{"nodes":[{"number":43},{"number":44}]},
            "blockedBy":{"nodes":[{"number":41}]},
            "blocking":{"nodes":[{"number":50}]}}}}}"#,
    );
    let mut vcs = shell_vcs(runner);

    let relationships =
        vcs.read_relationships("owner/repo-a", 42).unwrap();

    assert_eq!(relationships.parent, Some(10));
    assert_eq!(relationships.sub_issues, vec![43, 44]);
    assert_eq!(relationships.blocked_by, vec![41]);
    assert_eq!(relationships.blocking, vec![50]);
    let calls = vcs.runner.calls();
    assert_eq!(&calls[0].args[..2], &["api", "graphql"]);
    assert!(calls[0].args.contains(&"number=42".to_string()));
}

#[test]
fn read_relationships_falls_back_to_depends_on_in_the_body() {
    let mut runner = FakeRunner::new();
    runner.fail(1, "Field 'blockedBy' doesn't exist on type 'Issue'");
    runner.succeed(
        r#"{"number":42,"title":"t",
            "body":"Depends on #41 and #40.\nSee also #99.",
            "labels":[],"state":"OPEN"}"#,
    );
    let mut vcs = shell_vcs(runner);

    let relationships =
        vcs.read_relationships("owner/repo-a", 42).unwrap();

    assert_eq!(relationships.blocked_by, vec![41, 40]);
    assert!(relationships.blocking.is_empty());
    assert_eq!(relationships.parent, None);
    assert_eq!(vcs.runner.calls().len(), 2);
}

#[test]
fn read_relationships_is_empty_when_the_issue_is_missing() {
    let mut runner = FakeRunner::new();
    runner.succeed(r#"{"data":{"repository":{"issue":null}}}"#);
    let mut vcs = shell_vcs(runner);

    let relationships =
        vcs.read_relationships("owner/repo-a", 42).unwrap();

    assert_eq!(relationships, IssueRelationships::default());
}

#[test]
fn find_linked_pull_requests_parses_the_native_graphql_nodes() {
    let mut runner = FakeRunner::new();
    runner.succeed(
        r#"{"data":{"repository":{"issue":{
            "closedByPullRequestsReferences":{"nodes":[
                {"number":22,
                 "url":"https://github.com/owner/repo-a/pull/22",
                 "headRefName":"issue-19-widget-cache"}
            ]}}}}}"#,
    );
    let mut vcs = shell_vcs(runner);

    let prs = vcs.find_linked_pull_requests("owner/repo-a", 19).unwrap();

    assert_eq!(prs.len(), 1);
    assert_eq!(prs[0].number, 22);
    assert_eq!(prs[0].url, "https://github.com/owner/repo-a/pull/22");
    assert_eq!(prs[0].branch, "issue-19-widget-cache");
    let calls = vcs.runner.calls();
    assert_eq!(&calls[0].args[..2], &["api", "graphql"]);
    assert!(calls[0].args.contains(&"number=19".to_string()));
}

#[test]
fn find_linked_pull_requests_is_empty_when_none_are_linked() {
    let mut runner = FakeRunner::new();
    runner.succeed(
        r#"{"data":{"repository":{"issue":{
            "closedByPullRequestsReferences":{"nodes":[]}}}}}"#,
    );
    let mut vcs = shell_vcs(runner);

    let prs = vcs.find_linked_pull_requests("owner/repo-a", 19).unwrap();

    assert!(prs.is_empty());
}

#[test]
fn find_linked_pull_requests_is_empty_when_the_issue_is_missing() {
    let mut runner = FakeRunner::new();
    runner.succeed(r#"{"data":{"repository":{"issue":null}}}"#);
    let mut vcs = shell_vcs(runner);

    let prs = vcs.find_linked_pull_requests("owner/repo-a", 19).unwrap();

    assert!(prs.is_empty());
}

#[test]
fn read_pull_request_status_parses_state_ci_and_merge_queue() {
    let mut runner = FakeRunner::new();
    runner.succeed(
        r#"{"data":{"repository":{"pullRequest":{
            "state":"OPEN",
            "mergeQueueEntry":{"state":"QUEUED"},
            "commits":{"nodes":[{"commit":{
                "statusCheckRollup":{"state":"SUCCESS"}}}]}}}}}"#,
    );
    let mut vcs = shell_vcs(runner);

    let status = vcs.read_pull_request_status("owner/repo-a", 7).unwrap();

    assert_eq!(status.number, 7);
    assert_eq!(status.state, PullRequestState::Open);
    assert_eq!(status.ci, CiConclusion::Success);
    assert!(status.in_merge_queue);
    let calls = vcs.runner.calls();
    assert_eq!(&calls[0].args[..2], &["api", "graphql"]);
    assert!(calls[0].args.contains(&"number=7".to_string()));
}

#[test]
fn read_pull_request_status_maps_a_failing_check_to_failure() {
    let mut runner = FakeRunner::new();
    runner.succeed(
        r#"{"data":{"repository":{"pullRequest":{
            "state":"OPEN",
            "mergeQueueEntry":null,
            "commits":{"nodes":[{"commit":{
                "statusCheckRollup":{"state":"FAILURE"}}}]}}}}}"#,
    );
    let mut vcs = shell_vcs(runner);

    let status = vcs.read_pull_request_status("owner/repo-a", 7).unwrap();

    assert_eq!(status.ci, CiConclusion::Failure);
    assert!(!status.in_merge_queue);
}

#[test]
fn read_pull_request_status_maps_a_merged_pr_with_no_checks_to_pending() {
    let mut runner = FakeRunner::new();
    runner.succeed(
        r#"{"data":{"repository":{"pullRequest":{
            "state":"MERGED",
            "mergeQueueEntry":null,
            "commits":{"nodes":[{"commit":{
                "statusCheckRollup":null}}]}}}}}"#,
    );
    let mut vcs = shell_vcs(runner);

    let status = vcs.read_pull_request_status("owner/repo-a", 7).unwrap();

    assert_eq!(status.state, PullRequestState::Merged);
    assert_eq!(status.ci, CiConclusion::Pending);
}

#[test]
fn read_pull_request_status_reports_a_missing_pr_as_command_failed() {
    let mut runner = FakeRunner::new();
    runner.succeed(r#"{"data":{"repository":{"pullRequest":null}}}"#);
    let mut vcs = shell_vcs(runner);

    assert!(matches!(
        vcs.read_pull_request_status("owner/repo-a", 7),
        Err(VcsError::CommandFailed { .. })
    ));
}

#[test]
fn branch_slug_strips_the_issue_prefix() {
    assert_eq!(branch_slug("issue-42-widget-cache", 42), "widget-cache");
    assert_eq!(branch_slug("hotfix", 42), "hotfix");
}

#[test]
fn parse_depends_on_ignores_unrelated_issue_references() {
    assert_eq!(
        parse_depends_on("Depends on #41, #40\nCloses #99"),
        vec![41, 40]
    );
    assert!(parse_depends_on("Closes #99").is_empty());
}

#[test]
fn command_line_joins_the_program_and_its_arguments() {
    assert_eq!(
        command_line("gh", &["issue", "view", "42"].map(str::to_string)),
        "gh issue view 42"
    );
}

#[test]
fn numbers_in_json_keep_every_digit() {
    let mut runner = FakeRunner::new();
    runner.succeed(r#"[{"number":18446744073709551615}]"#);
    let mut vcs = shell_vcs(runner);

    assert_eq!(vcs.list_open_issues("owner/repo-a", 30).unwrap(), vec![u64::MAX]);
}

#[test]
fn a_negative_or_fractional_number_is_no_issue_number() {
    for output in [r#"[{"number":-1}]"#, r#"[{"number":1.5}]"#, r#"[{"number":"1"}]"#, r#"[{}]"#] {
        let mut runner = FakeRunner::new();
        runner.succeed(output);
        let mut vcs = shell_vcs(runner);

        assert!(matches!(
            vcs.list_open_issues("owner/repo-a", 30),
            Err(VcsError::InvalidJson { source: JsonError::Shape, .. })
        ));
    }
}

#[test]
fn escapes_in_json_text_are_decoded() {
    let mut runner = FakeRunner::new();
    runner.succeed(
        "{\"number\":7,\"title\":\"a \\\"b\\\" \\u00e9\\n\",\"body\":\"\",\"labels\":[],\"state\":\"OPEN\"}",
    );
    let mut vcs = shell_vcs(runner);

    assert_eq!(vcs.read_issue("owner/repo-a", 7).unwrap().title, "a \"b\" é\n");
}

#[test]
fn unparseable_output_is_reported_as_a_syntax_error() {
    let mut runner = FakeRunner::new();
    runner.succeed("{");
    let mut vcs = shell_vcs(runner);

    let error = vcs.read_issue("owner/repo-a", 7).unwrap_err();

    assert!(matches!(
        error,
        VcsError::InvalidJson { command, source: JsonError::Syntax(message) }
            if command.starts_with("gh issue view 7") && message.contains("EOF")
    ));
}

#[test]
fn a_failed_command_keeps_its_line_and_its_trimmed_stderr() {
    let mut runner = FakeRunner::new();
    runner.fail(4, "  no such issue \n");
    let mut vcs = shell_vcs(runner);

    let error = vcs.read_issue("owner/repo-a", 7).unwrap_err();

    assert!(matches!(
        error,
        VcsError::CommandFailed { command, status: 4, stderr }
            if command == "gh issue view 7 --json number,title,body,labels,state --repo owner/repo-a"
                && stderr == "no such issue"
    ));
}

#[test]
fn an_exhausted_fake_runner_fails_to_spawn() {
    let mut vcs = shell_vcs(FakeRunner::new());

    assert!(matches!(vcs.read_issue("owner/repo-a", 7), Err(VcsError::Spawn { .. })));
}

#[test]
fn worktree_add_runs_in_the_primary_checkout_and_names_a_sibling() {
    let mut runner = FakeRunner::new();
    runner.succeed("");
    let mut vcs = shell_vcs(runner);

    let worktree = vcs
        .worktree_add("/abs/repo-a/main", "/abs/repo-a", "issue-42-widget-cache", 42)
        .unwrap();

    assert_eq!(
        worktree,
        Worktree {
            issue_number: 42,
            path: "/abs/repo-a/issue-42-widget-cache".to_string(),
            branch: "issue-42-widget-cache".to_string(),
            slug: "widget-cache".to_string(),
        }
    );
    let call = &vcs.runner.calls()[0];
    assert_call(
        call,
        "git",
        &[
            "worktree",
            "add",
            "-b",
            "issue-42-widget-cache",
            "/abs/repo-a/issue-42-widget-cache",
        ],
    );
    assert_eq!(call.cwd.as_deref(), Some("/abs/repo-a/main"));
}

#[test]
fn every_gh_call_about_issues_is_scoped_to_its_repo() {
    let mut runner = FakeRunner::new();
    runner.succeed("");
    runner.succeed("");
    runner.succeed("");
    let mut vcs = shell_vcs(runner);

    vcs.set_label("owner/repo-a", 1, "x", true).unwrap();
    vcs.post_comment("owner/repo-b", 1, "y").unwrap();
    vcs.enqueue_merge("owner/repo-c", 1).unwrap();

    for (call, repo) in
        vcs.runner.calls().iter().zip(["owner/repo-a", "owner/repo-b", "owner/repo-c"])
    {
        assert_eq!(&call.args[call.args.len() - 2..], ["--repo", repo]);
    }
}

#[test]
fn depends_on_is_found_in_any_case_and_numbers_go_on_until_other_text() {
    assert_eq!(parse_depends_on("DEPENDS ON #1 and #2, #3"), vec![1, 2, 3]);
    assert_eq!(parse_depends_on("depends on 4"), Vec::<u64>::new());
    assert_eq!(parse_depends_on("depends on #5\nDepends On #6"), vec![5, 6]);
}

#[test]
fn a_run_is_settled_by_how_it_ended() {
    let args = ["auth", "status"].map(str::to_string).to_vec();
    let finished = |code| Finished {
        code,
        stdout: "out".to_string(),
        stderr: "err".to_string(),
    };
    let failed = |kind| IoError { kind, message: "why".to_string() };

    let exited = settle_run("gh", &args, Ok(finished(Some(3)))).unwrap();
    assert_eq!((exited.status, exited.stdout.as_str(), exited.stderr.as_str()), (3, "out", "err"));
    assert_eq!(settle_run("gh", &args, Ok(finished(None))).unwrap().status, -1);
    assert!(matches!(
        settle_run("gh", &args, Err(failed(IoErrorKind::NotFound))),
        Err(VcsError::BinaryNotFound { binary }) if binary == "gh"
    ));
    assert!(matches!(
        settle_run("gh", &args, Err(failed(IoErrorKind::Other))),
        Err(VcsError::Spawn { command, source })
            if command == "gh auth status" && source.message == "why"
    ));
}

#[test]
fn read_issue_takes_a_record_as_an_array_of_its_fields() {
    let mut runner = FakeRunner::new();
    runner.succeed(r#"[7,"T","B",[["bug"]],{"OPEN":null}]"#);
    let mut vcs = shell_vcs(runner);

    let issue = vcs.read_issue("owner/repo-a", 7).unwrap();

    assert_eq!(issue.number, 7);
    assert_eq!(issue.title, "T");
    assert_eq!(issue.body, "B");
    assert_eq!(issue.labels, vec!["bug"]);
    assert_eq!(issue.state, IssueState::Open);
}

#[test]
fn read_issue_refuses_an_array_of_the_wrong_length() {
    let mut runner = FakeRunner::new();
    runner.succeed(r#"[7,"T","B",[]]"#);
    runner.succeed(r#"[7,"T","B",[],"OPEN",1]"#);
    let mut vcs = shell_vcs(runner);

    assert!(matches!(
        vcs.read_issue("owner/repo-a", 7),
        Err(VcsError::InvalidJson { .. })
    ));
    assert!(matches!(
        vcs.read_issue("owner/repo-a", 7),
        Err(VcsError::InvalidJson { .. })
    ));
}

#[test]
fn read_issue_refuses_a_state_that_carries_a_value() {
    let mut runner = FakeRunner::new();
    runner.succeed(r#"{"number":7,"title":"t","body":"","labels":[],"state":{"OPEN":1}}"#);
    let mut vcs = shell_vcs(runner);

    assert!(matches!(
        vcs.read_issue("owner/repo-a", 7),
        Err(VcsError::InvalidJson { .. })
    ));
}

#[test]
fn a_member_that_is_asked_for_may_not_be_repeated() {
    for output in [
        r#"{"number":7,"number":7,"title":"t","body":"","labels":[],"state":"OPEN"}"#,
        r#"{"number":7,"title":"t","body":"","labels":[{"name":"a","name":"b"}],"state":"OPEN"}"#,
        r#"{"number":7,"title":"t","body":"","labels":[],"state":{"OPEN":null,"OPEN":null}}"#,
    ] {
        let mut runner = FakeRunner::new();
        runner.succeed(output);
        let mut vcs = shell_vcs(runner);

        assert!(matches!(
            vcs.read_issue("owner/repo-a", 7),
            Err(VcsError::InvalidJson { source: JsonError::Shape, .. })
        ));
    }
}

#[test]
fn a_repeated_merge_queue_is_taken_for_none() {
    let mut runner = FakeRunner::new();
    runner.succeed(
        r#"{"data":{"repository":{"mergeQueue":{"id":"a"},"mergeQueue":{"id":"b"}}}}"#,
    );
    let mut vcs = shell_vcs(runner);

    assert!(!vcs.merge_queue_enabled("owner/repo-a", "main").unwrap());
}

#[test]
fn a_member_that_nobody_asks_for_need_only_be_well_formed() {
    let deep = format!("{}{}", "[".repeat(200), "]".repeat(200));
    for ignored in ["1e999", "\"\\ud800\"", "{\"b\":1,\"b\":2}", deep.as_str()] {
        let mut runner = FakeRunner::new();
        runner.succeed(&format!("[{{\"x\":1,\"x\":{ignored},\"number\":7}}]"));
        let mut vcs = shell_vcs(runner);

        assert_eq!(vcs.list_open_issues("owner/repo-a", 30).unwrap(), vec![7]);
    }
    for broken in ["01", "\"\\x\"", "{1:2}", "[1,]"] {
        let mut runner = FakeRunner::new();
        runner.succeed(&format!("[{{\"x\":{broken},\"number\":7}}]"));
        let mut vcs = shell_vcs(runner);

        assert!(matches!(
            vcs.list_open_issues("owner/repo-a", 30),
            Err(VcsError::InvalidJson { source: JsonError::Syntax(_), .. })
        ));
    }
}
