//! [`ShellVcs`] — the [`Vcs`] that shells out to the operator's local
//! `git`/`gh`.
//!
//! Every method builds an argument vector, hands it to a [`CommandRunner`],
//! and reads what came back. A `gh` call that acts on a project's repo is
//! built through [`gh_args`], which appends `--repo <owner/repo>`. Three calls
//! are scoped another way: `gh repo view` runs inside a checkout precisely to
//! learn the slug, or takes its repo positionally; and `gh api graphql` is
//! scoped by the query's `owner` and `name` variables.

use vstd::prelude::*;

use crate::failure::JsonError;
use crate::json::Json;
use crate::numbers::{decimal_text, parse_u64};
use crate::paths::join;
use crate::text::{holds, rsplit_once, split_once, strip_prefix, trim};
use crate::vcs::depends::parse_depends_on;
use crate::vcs::payload::{
    decode_issue, decode_linked, decode_merge_queue, decode_names, decode_numbers,
    decode_pull_request, decode_relationships, decode_slug, decode_status, PullRequestSignals,
};
use crate::vcs::runner::{command_line, CommandOutput, CommandOutputView, CommandRunner, Run};
use crate::vcs::{
    branch_slug, IssueRef, IssueRefView, IssueRelationships, IssueRelationshipsView,
    PullRequestRef, PullRequestRefView, PullRequestStatus, Recorded, Vcs, VcsCall, VcsError, VcsErrorView,
    Worktree, WorktreeView,
};

verus! {

/// The `gh issue view` fields that reading an issue requests.
pub const ISSUE_FIELDS: &'static str = "number,title,body,labels,state";

/// The `gh issue list` fields that listing open issues requests.
pub const ISSUE_LIST_FIELDS: &'static str = "number";

/// The `gh pr view` fields that are read back after a pull request was opened.
pub const PULL_REQUEST_FIELDS: &'static str = "number,url,headRefName";

/// Whether a branch has GitHub's native merge queue.
pub const MERGE_QUEUE_QUERY: &'static str = "\
query($owner: String!, $name: String!, $branch: String!) {
  repository(owner: $owner, name: $name) {
    mergeQueue(branch: $branch) { id }
  }
}";

/// An issue's native GitHub relationship edges.
pub const RELATIONSHIPS_QUERY: &'static str = "\
query($owner: String!, $name: String!, $number: Int!) {
  repository(owner: $owner, name: $name) {
    issue(number: $number) {
      parent { number }
      subIssues(first: 100) { nodes { number } }
      blockedBy(first: 100) { nodes { number } }
      blocking(first: 100) { nodes { number } }
    }
  }
}";

/// The pull requests that would close an issue on merge.
pub const LINKED_PULL_REQUESTS_QUERY: &'static str = "\
query($owner: String!, $name: String!, $number: Int!) {
  repository(owner: $owner, name: $name) {
    issue(number: $number) {
      closedByPullRequestsReferences(first: 10, includeClosedPrs: true) {
        nodes { number url headRefName }
      }
    }
  }
}";

/// A pull request's state, CI conclusion, and merge-queue enrollment.
pub const PULL_REQUEST_STATUS_QUERY: &'static str = "\
query($owner: String!, $name: String!, $number: Int!) {
  repository(owner: $owner, name: $name) {
    pullRequest(number: $number) {
      state
      mergeQueueEntry { state }
      commits(last: 1) {
        nodes { commit { statusCheckRollup { state } } }
      }
    }
  }
}";

/// Whether `after` is `before` and one run more: of `program` with `args`,
/// from `cwd`.
pub open spec fn ran(
    before: Seq<Run>,
    after: Seq<Run>,
    program: Seq<char>,
    args: Seq<Seq<char>>,
    cwd: Option<Seq<char>>,
) -> bool {
    after == before.push(Run { program, args, cwd, result: after.last().result })
}

/// The command line of a run.
pub open spec fn run_line(run: Run) -> Seq<char> {
    crate::vcs::runner::line_of(run.program, run.args)
}

/// What a run printed, where it exited zero.
pub open spec fn printed(run: Run) -> Result<Seq<char>, VcsErrorView> {
    match run.result {
        Err(error) => Err(error),
        Ok(output) => if output.status == 0 {
            Ok(output.stdout)
        } else {
            Err(
                VcsErrorView::CommandFailed {
                    command: run_line(run),
                    status: output.status,
                    stderr: crate::text::trimmed(output.stderr),
                },
            )
        },
    }
}

/// Whether a run exited zero, or the error that kept it from running.
pub open spec fn succeeded(run: Run) -> Result<(), VcsErrorView> {
    match printed(run) {
        Ok(_) => Ok(()),
        Err(error) => Err(error),
    }
}

/// What a text decodes to as JSON of the shape that `decode` reads.
pub open spec fn decoded_text<T>(
    text: Seq<char>,
    line: Seq<char>,
    decode: spec_fn(Seq<char>) -> Option<T>,
) -> Result<T, VcsErrorView> {
    match crate::json::parsed(text) {
        Err(message) => Err(
            VcsErrorView::InvalidJson {
                command: line,
                source: crate::failure::JsonErrorView::Syntax(message),
            },
        ),
        Ok(json) => match decode(json) {
            Some(value) => Ok(value),
            None => Err(
                VcsErrorView::InvalidJson {
                    command: line,
                    source: crate::failure::JsonErrorView::Shape,
                },
            ),
        },
    }
}

/// What a run's output decodes to.
pub open spec fn decoded_run<T>(run: Run, decode: spec_fn(Seq<char>) -> Option<T>) -> Result<
    T,
    VcsErrorView,
> {
    match printed(run) {
        Err(error) => Err(error),
        Ok(stdout) => decoded_text(stdout, run_line(run), decode),
    }
}

/// What a list subcommand's output decodes to: nothing printed at all is the
/// empty list.
pub open spec fn decoded_list_run<T>(
    run: Run,
    decode: spec_fn(Seq<Seq<char>>) -> Option<Seq<T>>,
) -> Result<Seq<T>, VcsErrorView> {
    match printed(run) {
        Err(error) => Err(error),
        Ok(stdout) => if crate::text::trimmed(stdout).len() == 0 {
            Ok(Seq::empty())
        } else {
            decoded_text(
                stdout,
                run_line(run),
                |json: Seq<char>|
                    match crate::json::elements_of(json) {
                        Some(items) => decode(items),
                        None => None,
                    },
            )
        },
    }
}

/// `command`, scoped to `repo`.
pub open spec fn scoped(command: Seq<Seq<char>>, repo: Seq<char>) -> Seq<Seq<char>> {
    command + seq!["--repo"@, repo]
}

/// A slug's owner and name; a slug without a `/` is all owner.
pub open spec fn split_slug(repo: Seq<char>) -> (Seq<char>, Seq<char>) {
    match crate::text::around_first(repo, '/') {
        Some(parts) => parts,
        None => (repo, Seq::empty()),
    }
}

/// A GraphQL call for `query` on `repo`, with one variable more, passed by
/// `flag`.
pub open spec fn graphql_args(
    query: Seq<char>,
    repo: Seq<char>,
    flag: Seq<char>,
    variable: Seq<char>,
) -> Seq<Seq<char>> {
    seq![
        "api"@,
        "graphql"@,
        "-f"@,
        "query="@ + query,
        "-f"@,
        "owner="@ + split_slug(repo).0,
        "-f"@,
        "name="@ + split_slug(repo).1,
        flag,
        variable,
    ]
}

/// A GraphQL call for `query` on `repo` and a number.
pub open spec fn numbered_graphql_args(query: Seq<char>, repo: Seq<char>, number: u64) -> Seq<
    Seq<char>,
> {
    graphql_args(query, repo, "-F"@, "number="@ + crate::numbers::decimal(number as nat))
}

/// The `gh issue view` call for one issue.
pub open spec fn issue_view_args(repo: Seq<char>, number: u64) -> Seq<Seq<char>> {
    scoped(
        seq![
            "issue"@,
            "view"@,
            crate::numbers::decimal(number as nat),
            "--json"@,
            ISSUE_FIELDS@,
        ],
        repo,
    )
}

/// The issue that a `gh issue view` run gives.
pub open spec fn issue_of_run(run: Run) -> Result<IssueRefView, VcsErrorView> {
    decoded_run(run, |json: Seq<char>| crate::vcs::payload::decoded_issue(json))
}

/// Each of `command` as a string of its own.
fn args_of(command: &[&str]) -> (args: Vec<String>)
    ensures
        crate::text::texts(args@) == crate::text::slices(command@),
{
    let ghost all = crate::text::slices(command@);
    let mut args: Vec<String> = Vec::new();
    let mut i: usize = 0;
    assert(crate::text::texts(args@) =~= all.take(0));
    while i < command.len()
        invariant
            i <= command@.len(),
            all == crate::text::slices(command@),
            crate::text::texts(args@) == all.take(i as int),
        decreases command@.len() - i,
    {
        let ghost before = args@;
        let arg: &str = command[i];
        args.push(arg.to_string());
        proof {
            assert(all[i as int] == arg@);
            assert(crate::text::texts(args@) =~= crate::text::texts(before).push(arg@));
            assert(crate::text::texts(args@) =~= all.take(i + 1));
        }
        i += 1;
    }
    assert(all.take(i as int) =~= all);
    args
}

/// Builds a repo-scoped `gh` argument vector: `command` followed by
/// `--repo <slug>`.
pub fn gh_args(command: &[&str], repo: &str) -> (args: Vec<String>)
    ensures
        crate::text::texts(args@) == scoped(crate::text::slices(command@), repo@),
{
    let mut args = args_of(command);
    let ghost before = args@;
    args.push("--repo".to_string());
    args.push(repo.to_string());
    assert(crate::text::texts(args@) =~= scoped(crate::text::texts(before), repo@));
    args
}

/// Splits `owner/repo` into its owner and name.
///
/// A slug without a `/` is passed through as the owner with an empty name, so
/// that GitHub rejects it by name.
pub fn split_repo<'a>(repo: &'a str) -> (parts: (&'a str, &'a str))
    ensures
        (parts.0@, parts.1@) == split_slug(repo@),
{
    match split_once(repo, '/') {
        Some(parts) => parts,
        None => {
            proof {
                reveal_strlit("");
            }
            (repo, "")
        },
    }
}

/// Builds a GraphQL call for `query` on `repo`.
fn graphql(query: &str, repo: &str, flag: &str, variable: &str) -> (args: Vec<String>)
    ensures
        crate::text::texts(args@) == graphql_args(query@, repo@, flag@, variable@),
{
    let (owner, name) = split_repo(repo);
    let query_var = "query=".to_string().concat(query);
    let owner_var = "owner=".to_string().concat(owner);
    let name_var = "name=".to_string().concat(name);
    let args = args_of(
        &[
            "api",
            "graphql",
            "-f",
            query_var.as_str(),
            "-f",
            owner_var.as_str(),
            "-f",
            name_var.as_str(),
            flag,
            variable,
        ],
    );
    assert(crate::text::texts(args@) =~= graphql_args(query@, repo@, flag@, variable@));
    args
}

/// Builds a GraphQL call for `query` on `repo` and a number.
///
/// `-F` has the number arrive as an integer rather than as a string.
fn numbered_graphql(query: &str, repo: &str, number: u64) -> (args: Vec<String>)
    ensures
        crate::text::texts(args@) == numbered_graphql_args(query@, repo@, number),
{
    let variable = "number=".to_string().concat(decimal_text(number).as_str());
    graphql(query, repo, "-F", variable.as_str())
}

/// Runs `program` and gives its stdout, a non-zero exit being
/// [`VcsError::CommandFailed`].
fn run_checked<R: CommandRunner>(
    runner: &mut R,
    program: &str,
    args: &Vec<String>,
    cwd: Option<&str>,
) -> (result: Result<String, VcsError>)
    ensures
        ran(
            old(runner).runs(),
            final(runner).runs(),
            program@,
            crate::text::texts(args@),
            crate::vcs::runner::directory(cwd),
        ),
        crate::vcs::outcome(result) == printed(final(runner).runs().last()),
{
    match runner.run(program, args, cwd) {
        Err(error) => Err(error),
        Ok(output) => {
            if output.is_success() {
                Ok(output.stdout)
            } else {
                Err(
                    VcsError::CommandFailed {
                        command: command_line(program, args),
                        status: output.status,
                        stderr: trim(output.stderr.as_str()).to_string(),
                    },
                )
            }
        },
    }
}

/// Reads a run's output as JSON.
fn read_json(stdout: &str, program: &str, args: &Vec<String>) -> (result: Result<Json, VcsError>)
    ensures
        match result {
            Ok(json) => crate::json::parsed(stdout@) == Ok::<Seq<char>, Seq<char>>(json@),
            Err(error) => match crate::json::parsed(stdout@) {
                Ok(_) => false,
                Err(message) => error@ == (VcsErrorView::InvalidJson {
                    command: crate::vcs::runner::line_of(program@, crate::text::texts(args@)),
                    source: crate::failure::JsonErrorView::Syntax(message),
                }),
            },
        },
{
    match crate::json::parse(stdout) {
        Ok(json) => Ok(json),
        Err(message) => Err(
            VcsError::InvalidJson {
                command: command_line(program, args),
                source: JsonError::Syntax(message),
            },
        ),
    }
}

/// The error for a run that printed JSON of another shape.
fn shape_error(program: &str, args: &Vec<String>) -> (error: VcsError)
    ensures
        error@ == (VcsErrorView::InvalidJson {
            command: crate::vcs::runner::line_of(program@, crate::text::texts(args@)),
            source: crate::failure::JsonErrorView::Shape,
        }),
{
    VcsError::InvalidJson { command: command_line(program, args), source: JsonError::Shape }
}

/// Runs `program` and reads its stdout as JSON.
fn run_json<R: CommandRunner>(
    runner: &mut R,
    program: &str,
    args: &Vec<String>,
    cwd: Option<&str>,
) -> (result: Result<Json, VcsError>)
    ensures
        ran(
            old(runner).runs(),
            final(runner).runs(),
            program@,
            crate::text::texts(args@),
            crate::vcs::runner::directory(cwd),
        ),
        match result {
            Ok(json) => match printed(final(runner).runs().last()) {
                Ok(stdout) => crate::json::parsed(stdout) == Ok::<Seq<char>, Seq<char>>(json@),
                Err(_) => false,
            },
            Err(error) => match printed(final(runner).runs().last()) {
                Ok(stdout) => match crate::json::parsed(stdout) {
                    Ok(_) => false,
                    Err(message) => error@ == (VcsErrorView::InvalidJson {
                        command: run_line(final(runner).runs().last()),
                        source: crate::failure::JsonErrorView::Syntax(message),
                    }),
                },
                Err(failure) => error@ == failure,
            },
        },
{
    match run_checked(runner, program, args, cwd) {
        Ok(stdout) => read_json(stdout.as_str(), program, args),
        Err(error) => Err(error),
    }
}

/// Runs a list subcommand and reads its stdout as a JSON array.
///
/// `gh`'s list subcommands print nothing at all for an empty list.
fn run_json_list<R: CommandRunner>(
    runner: &mut R,
    program: &str,
    args: &Vec<String>,
    cwd: Option<&str>,
) -> (result: Result<Vec<Json>, VcsError>)
    ensures
        ran(
            old(runner).runs(),
            final(runner).runs(),
            program@,
            crate::text::texts(args@),
            crate::vcs::runner::directory(cwd),
        ),
        match result {
            Ok(items) => decoded_list_run(
                final(runner).runs().last(),
                |all: Seq<Seq<char>>| Some(all),
            ) == Ok::<Seq<Seq<char>>, VcsErrorView>(crate::json::list_view(items@)),
            Err(error) => decoded_list_run(
                final(runner).runs().last(),
                |all: Seq<Seq<char>>| Some(all),
            ) == Err::<Seq<Seq<char>>, VcsErrorView>(error@),
        },
{
    match run_checked(runner, program, args, cwd) {
        Err(error) => Err(error),
        Ok(stdout) => {
            if trim(stdout.as_str()).is_empty() {
                let items: Vec<Json> = Vec::new();
                assert(crate::json::list_view(items@) =~= Seq::<Seq<char>>::empty());
                return Ok(items);
            }
            match read_json(stdout.as_str(), program, args) {
                Err(error) => Err(error),
                Ok(json) => {
                    match json.elements() {
                        Some(items) => Ok(items),
                        None => Err(shape_error(program, args)),
                    }
                },
            }
        },
    }
}

/// Whether `after` begins with `before` and one run more: of `program` with
/// `args`, from `cwd`.
pub open spec fn ran_first(
    before: Seq<Run>,
    after: Seq<Run>,
    program: Seq<char>,
    args: Seq<Seq<char>>,
    cwd: Option<Seq<char>>,
) -> bool {
    &&& before.len() < after.len()
    &&& ran(before, after.take(before.len() as int + 1), program, args, cwd)
}

/// Shells out to the operator's local `git`/`gh` binaries.
pub struct ShellVcs<R: CommandRunner> {
    /// The `git` binary: a bare name, or an absolute path.
    pub git_binary: String,
    /// The `gh` binary: a bare name, or an absolute path.
    pub gh_binary: String,
    /// What runs the command lines.
    pub runner: R,
    /// The calls made so far.
    pub calls: Ghost<Seq<VcsCall>>,
}

impl<R: CommandRunner> ShellVcs<R> {
    /// Every command run so far.
    pub open spec fn runs(&self) -> Seq<Run> {
        self.runner.runs()
    }

    /// Whether both invoke the same binaries.
    pub open spec fn same_binaries(&self, other: &Self) -> bool {
        self.git_binary@ == other.git_binary@ && self.gh_binary@ == other.gh_binary@
    }

    /// Creates a [`ShellVcs`] that invokes `git_binary` and `gh_binary`
    /// through `runner`.
    pub fn new(git_binary: String, gh_binary: String, runner: R) -> (vcs: ShellVcs<R>)
        ensures
            vcs.git_binary@ == git_binary@,
            vcs.gh_binary@ == gh_binary@,
            vcs.runner == runner,
            vcs.history() == Seq::<VcsCall>::empty(),
    {
        ShellVcs { git_binary, gh_binary, runner, calls: Ghost(Seq::empty()) }
    }

    /// Reads one issue, as part of another operation or as one of its own.
    fn view_issue(&mut self, repo: &str, issue_number: u64) -> (result: Result<IssueRef, VcsError>)
        ensures
            final(self).same_binaries(old(self)),
            final(self).calls == old(self).calls,
            ran(
                old(self).runs(),
                final(self).runs(),
                old(self).gh_binary@,
                issue_view_args(repo@, issue_number),
                None,
            ),
            crate::vcs::outcome(result) == issue_of_run(final(self).runs().last()),
    {
        let number = decimal_text(issue_number);
        let args = gh_args(&["issue", "view", number.as_str(), "--json", ISSUE_FIELDS], repo);
        assert(crate::text::texts(args@) =~= issue_view_args(repo@, issue_number));
        match run_json(&mut self.runner, self.gh_binary.as_str(), &args, None) {
            Err(error) => Err(error),
            Ok(json) => match decode_issue(&json) {
                Some(issue) => Ok(issue),
                None => Err(shape_error(self.gh_binary.as_str(), &args)),
            },
        }
    }
}

/// Whether a run's binary answered `--version`.
pub open spec fn available(run: Run, binary: Seq<char>) -> Result<(), VcsErrorView> {
    match run.result {
        Ok(output) if output.status == 0 => Ok(()),
        _ => Err(VcsErrorView::BinaryNotFound { binary }),
    }
}

/// Runs `binary --version` and reports whether it succeeded.
fn binary_available<R: CommandRunner>(runner: &mut R, binary: &str) -> (result: Result<
    (),
    VcsError,
>)
    ensures
        ran(old(runner).runs(), final(runner).runs(), binary@, seq!["--version"@], None),
        crate::vcs::outcome(result) == available(final(runner).runs().last(), binary@),
{
    let args = args_of(&["--version"]);
    assert(crate::text::texts(args@) =~= seq!["--version"@]);
    match runner.run(binary, &args, None) {
        Ok(output) => {
            if output.is_success() {
                Ok(())
            } else {
                Err(VcsError::BinaryNotFound { binary: binary.to_string() })
            }
        },
        Err(_) => Err(VcsError::BinaryNotFound { binary: binary.to_string() }),
    }
}

/// Whether the runs after `before` are those of an authentication check, and
/// `result` what they come to: first whether `gh` is logged in at all, then
/// whether that login reaches `repo`.
pub open spec fn authentication(
    before: Seq<Run>,
    after: Seq<Run>,
    gh: Seq<char>,
    repo: Seq<char>,
    result: Result<bool, VcsErrorView>,
) -> bool {
    let n = before.len() as int;
    &&& ran_first(before, after, gh, seq!["auth"@, "status"@], None)
    &&& match after[n].result {
        Err(error) => after.len() == n + 1 && result == Err::<bool, VcsErrorView>(error),
        Ok(status) => if status.status != 0 {
            after.len() == n + 1 && result == Ok::<bool, VcsErrorView>(false)
        } else {
            &&& ran(
                after.take(n + 1),
                after,
                gh,
                seq!["repo"@, "view"@, repo, "--json"@, "nameWithOwner"@],
                None,
            )
            &&& match after.last().result {
                Err(error) => result == Err::<bool, VcsErrorView>(error),
                Ok(reachable) => result == Ok::<bool, VcsErrorView>(reachable.status == 0),
            }
        },
    }
}

/// The default branch that `git symbolic-ref` printed.
pub open spec fn branch_of(stdout: Seq<char>) -> Seq<char> {
    let branch = crate::text::trimmed(stdout);
    match crate::text::after_prefix(branch, "origin/"@) {
        Some(rest) => rest,
        None => branch,
    }
}

/// The default branch that a `git symbolic-ref` run gives.
pub open spec fn branch_of_run(run: Run) -> Result<Seq<char>, VcsErrorView> {
    match printed(run) {
        Ok(stdout) => Ok(branch_of(stdout)),
        Err(error) => Err(error),
    }
}

/// Whether a merge-queue query found a queue. A query that GitHub rejects, and
/// an answer that cannot be read, both mean that there is none.
pub open spec fn queue_of_run(run: Run) -> Result<bool, VcsErrorView> {
    match run.result {
        Err(error) => Err(error),
        Ok(output) => if output.status != 0 {
            Ok(false)
        } else {
            match decoded_text(
                output.stdout,
                run_line(run),
                |json: Seq<char>| crate::vcs::payload::decoded_merge_queue(json),
            ) {
                Ok(enabled) => Ok(enabled),
                Err(_) => Ok(false),
            }
        },
    }
}

/// The worktree that a `git worktree add` run gives.
pub open spec fn worktree_of_run(
    run: Run,
    project_dir: Seq<char>,
    branch: Seq<char>,
    issue_number: u64,
) -> Result<WorktreeView, VcsErrorView> {
    match succeeded(run) {
        Ok(_) => Ok(
            WorktreeView {
                issue_number,
                path: crate::paths::joined(project_dir, branch),
                branch,
                slug: crate::vcs::slug_of(branch, issue_number),
            },
        ),
        Err(error) => Err(error),
    }
}

/// Whether the runs after `before` are those of removing a worktree, and
/// `result` what they come to. A branch that cannot be deleted afterwards is
/// no failure.
pub open spec fn worktree_removal(
    before: Seq<Run>,
    after: Seq<Run>,
    git: Seq<char>,
    primary_checkout: Seq<char>,
    worktree: WorktreeView,
    result: Result<(), VcsErrorView>,
) -> bool {
    let n = before.len() as int;
    &&& ran_first(
        before,
        after,
        git,
        seq!["worktree"@, "remove"@, worktree.path],
        Some(primary_checkout),
    )
    &&& match succeeded(after[n]) {
        Err(error) => after.len() == n + 1 && result == Err::<(), VcsErrorView>(error),
        Ok(_) => {
            &&& ran(
                after.take(n + 1),
                after,
                git,
                seq!["branch"@, "--delete"@, "--force"@, worktree.branch],
                Some(primary_checkout),
            )
            &&& result == Ok::<(), VcsErrorView>(())
        },
    }
}

/// Whether the runs after `before` are those of a commit, and `result` what
/// they come to.
pub open spec fn commit_runs(
    before: Seq<Run>,
    after: Seq<Run>,
    git: Seq<char>,
    worktree_path: Seq<char>,
    message: Seq<char>,
    result: Result<(), VcsErrorView>,
) -> bool {
    let n = before.len() as int;
    &&& ran_first(before, after, git, seq!["add"@, "--all"@], Some(worktree_path))
    &&& match succeeded(after[n]) {
        Err(error) => after.len() == n + 1 && result == Err::<(), VcsErrorView>(error),
        Ok(_) => {
            &&& ran(
                after.take(n + 1),
                after,
                git,
                seq!["commit"@, "--message"@, message],
                Some(worktree_path),
            )
            &&& result == succeeded(after.last())
        },
    }
}

/// The issue number at the end of the URL that `gh issue create` printed.
pub open spec fn number_in_url(url: Seq<char>) -> Option<u64> {
    let text = crate::text::trimmed(url);
    match crate::text::around_last(text, '/') {
        Some((_, segment)) => crate::numbers::parsed_u64(segment),
        None => crate::numbers::parsed_u64(text),
    }
}

/// Whether the runs after `before` are those of creating an issue, and
/// `result` what they come to: the issue is created, and read back by the
/// number at the end of the URL that was printed.
pub open spec fn issue_creation(
    before: Seq<Run>,
    after: Seq<Run>,
    gh: Seq<char>,
    repo: Seq<char>,
    title: Seq<char>,
    body: Seq<char>,
    result: Result<IssueRefView, VcsErrorView>,
) -> bool {
    let n = before.len() as int;
    &&& ran_first(
        before,
        after,
        gh,
        scoped(seq!["issue"@, "create"@, "--title"@, title, "--body"@, body], repo),
        None,
    )
    &&& match printed(after[n]) {
        Err(error) => after.len() == n + 1 && result == Err::<IssueRefView, VcsErrorView>(error),
        Ok(url) => match number_in_url(url) {
            None => {
                &&& after.len() == n + 1
                &&& result == Err::<IssueRefView, VcsErrorView>(
                    VcsErrorView::UnexpectedOutput { command: run_line(after[n]), output: url },
                )
            },
            Some(number) => {
                &&& ran(after.take(n + 1), after, gh, issue_view_args(repo, number), None)
                &&& result == issue_of_run(after.last())
            },
        },
    }
}

/// Whether the runs after `before` are those of making sure of a label, and
/// `result` what they come to: the label is created only where no label of
/// exactly that name is listed.
pub open spec fn label_creation(
    before: Seq<Run>,
    after: Seq<Run>,
    gh: Seq<char>,
    repo: Seq<char>,
    label: Seq<char>,
    result: Result<(), VcsErrorView>,
) -> bool {
    let n = before.len() as int;
    &&& ran_first(
        before,
        after,
        gh,
        scoped(
            seq![
                "label"@,
                "list"@,
                "--search"@,
                label,
                "--json"@,
                "name"@,
                "--limit"@,
                "999"@,
            ],
            repo,
        ),
        None,
    )
    &&& match decoded_list_run(
        after[n],
        |items: Seq<Seq<char>>| crate::vcs::payload::decoded_names(items),
    ) {
        Err(error) => after.len() == n + 1 && result == Err::<(), VcsErrorView>(error),
        Ok(names) => if names.contains(label) {
            after.len() == n + 1 && result == Ok::<(), VcsErrorView>(())
        } else {
            &&& ran(
                after.take(n + 1),
                after,
                gh,
                scoped(seq!["label"@, "create"@, label, "--color"@, "ededed"@], repo),
                None,
            )
            &&& result == succeeded(after.last())
        },
    }
}

/// Whether the runs after `before` are those of opening a pull request, and
/// `result` what they come to: it is created, and read back by its branch.
pub open spec fn pull_request_creation(
    before: Seq<Run>,
    after: Seq<Run>,
    gh: Seq<char>,
    repo: Seq<char>,
    branch: Seq<char>,
    base: Seq<char>,
    title: Seq<char>,
    body: Seq<char>,
    result: Result<PullRequestRefView, VcsErrorView>,
) -> bool {
    let n = before.len() as int;
    &&& ran_first(
        before,
        after,
        gh,
        scoped(
            seq![
                "pr"@,
                "create"@,
                "--head"@,
                branch,
                "--base"@,
                base,
                "--title"@,
                title,
                "--body"@,
                body,
            ],
            repo,
        ),
        None,
    )
    &&& match succeeded(after[n]) {
        Err(error) => {
            &&& after.len() == n + 1
            &&& result == Err::<PullRequestRefView, VcsErrorView>(error)
        },
        Ok(_) => {
            &&& ran(
                after.take(n + 1),
                after,
                gh,
                scoped(seq!["pr"@, "view"@, branch, "--json"@, PULL_REQUEST_FIELDS@], repo),
                None,
            )
            &&& result == decoded_run(
                after.last(),
                |json: Seq<char>| crate::vcs::payload::decoded_pull_request(json),
            )
        },
    }
}

/// The edges that an issue's body names, where GitHub's own are switched off.
pub open spec fn edges_of_body(issue: IssueRefView) -> IssueRelationshipsView {
    IssueRelationshipsView {
        blocked_by: crate::vcs::depends::body_dependencies(issue.body),
        blocking: Seq::empty(),
        parent: None,
        sub_issues: Seq::empty(),
    }
}

/// Whether the runs after `before` are those of reading an issue's edges, and
/// `result` what they come to. Where GitHub rejects the query, the issue is
/// read instead, and its body names the dependencies.
pub open spec fn relationship_runs(
    before: Seq<Run>,
    after: Seq<Run>,
    gh: Seq<char>,
    repo: Seq<char>,
    number: u64,
    result: Result<IssueRelationshipsView, VcsErrorView>,
) -> bool {
    let n = before.len() as int;
    &&& ran_first(
        before,
        after,
        gh,
        numbered_graphql_args(RELATIONSHIPS_QUERY@, repo, number),
        None,
    )
    &&& match after[n].result {
        Err(error) => {
            &&& after.len() == n + 1
            &&& result == Err::<IssueRelationshipsView, VcsErrorView>(error)
        },
        Ok(output) => if output.status == 0 {
            &&& after.len() == n + 1
            &&& result == decoded_text(
                output.stdout,
                run_line(after[n]),
                |json: Seq<char>| crate::vcs::payload::decoded_relationships(json),
            )
        } else {
            &&& ran(after.take(n + 1), after, gh, issue_view_args(repo, number), None)
            &&& match issue_of_run(after.last()) {
                Err(error) => result == Err::<IssueRelationshipsView, VcsErrorView>(error),
                Ok(issue) => result == Ok::<IssueRelationshipsView, VcsErrorView>(
                    edges_of_body(issue),
                ),
            }
        },
    }
}

/// The status that a decoded pull-request-status response gives.
pub open spec fn status_of_signals(
    signals: Option<PullRequestSignals>,
    line: Seq<char>,
    repo: Seq<char>,
    number: u64,
) -> Result<PullRequestStatus, VcsErrorView> {
    match signals {
        None => Err(
            VcsErrorView::CommandFailed {
                command: line,
                status: 1,
                stderr: "no such pull request "@ + repo + "#"@ + crate::numbers::decimal(
                    number as nat,
                ),
            },
        ),
        Some(signals) => Ok(
            PullRequestStatus {
                number,
                state: signals.state,
                ci: signals.ci,
                in_merge_queue: signals.in_merge_queue,
            },
        ),
    }
}

/// The status that a pull-request-status run gives.
pub open spec fn status_of_run(run: Run, repo: Seq<char>, number: u64) -> Result<
    PullRequestStatus,
    VcsErrorView,
> {
    match decoded_run(run, |json: Seq<char>| crate::vcs::payload::decoded_status(json)) {
        Err(error) => Err(error),
        Ok(signals) => status_of_signals(signals, run_line(run), repo, number),
    }
}

/// The status that a decoded pull-request-status response gives: an error
/// where it resolved no such pull request.
pub fn pull_request_status(
    signals: Option<PullRequestSignals>,
    line: String,
    repo: &str,
    number: u64,
) -> (result: Result<PullRequestStatus, VcsError>)
    ensures
        crate::vcs::outcome(result) == status_of_signals(signals, line@, repo@, number),
{
    match signals {
        None => Err(
            VcsError::CommandFailed {
                command: line,
                status: 1,
                stderr: "no such pull request ".to_string().concat(repo).concat("#").concat(
                    decimal_text(number).as_str(),
                ),
            },
        ),
        Some(signals) => Ok(
            PullRequestStatus {
                number,
                state: signals.state,
                ci: signals.ci,
                in_merge_queue: signals.in_merge_queue,
            },
        ),
    }
}

/// The issue number at the end of the URL that `gh issue create` printed.
pub fn url_number(url: &str) -> (number: Option<u64>)
    ensures
        number == number_in_url(url@),
{
    let text = trim(url);
    match rsplit_once(text, '/') {
        Some((_, segment)) => parse_u64(segment),
        None => parse_u64(text),
    }
}

impl<R: CommandRunner> Recorded for ShellVcs<R> {
    open spec fn history(&self) -> Seq<VcsCall> {
        self.calls@
    }

    /// A call runs what it is for with the one binary or the other, and its
    /// answer is read off what those runs gave back.
    open spec fn answers(before: ShellVcs<R>, call: VcsCall, after: ShellVcs<R>) -> bool {
        &&& after.same_binaries(&before)
        &&& match call {
            VcsCall::GitAvailable { result } => {
                &&& ran(
                    before.runs(),
                    after.runs(),
                    before.git_binary@,
                    seq!["--version"@],
                    None,
                )
                &&& result == available(
                    after.runs().last(),
                    before.git_binary@,
                )
            },
            VcsCall::GhAvailable { result } => {
                &&& ran(
                    before.runs(),
                    after.runs(),
                    before.gh_binary@,
                    seq!["--version"@],
                    None,
                )
                &&& result == available(
                    after.runs().last(),
                    before.gh_binary@,
                )
            },
            VcsCall::GhAuthenticated { repo, result } => {
                &&& authentication(
                    before.runs(),
                    after.runs(),
                    before.gh_binary@,
                    repo,
                    result,
                )
            },
            VcsCall::DetectRepoSlug { repo_dir, result } => {
                &&& ran(
                    before.runs(),
                    after.runs(),
                    before.gh_binary@,
                    seq!["repo"@, "view"@, "--json"@, "nameWithOwner"@],
                    Some(repo_dir),
                )
                &&& result == decoded_run(
                    after.runs().last(),
                    |json: Seq<char>| crate::vcs::payload::text_field(json, "nameWithOwner"@, 0, 1),
                )
            },
            VcsCall::DetectDefaultBranch { repo_dir, result } => {
                &&& ran(
                    before.runs(),
                    after.runs(),
                    before.git_binary@,
                    seq!["symbolic-ref"@, "--short"@, "refs/remotes/origin/HEAD"@],
                    Some(repo_dir),
                )
                &&& result == branch_of_run(after.runs().last())
            },
            VcsCall::MergeQueueEnabled { repo, default_branch, result } => {
                &&& ran(
                    before.runs(),
                    after.runs(),
                    before.gh_binary@,
                    graphql_args(MERGE_QUEUE_QUERY@, repo, "-f"@, "branch="@ + default_branch),
                    None,
                )
                &&& result == queue_of_run(after.runs().last())
            },
            VcsCall::WorktreeAdd { primary_checkout, project_dir, branch, issue_number, result } => {
                &&& ran(
                    before.runs(),
                    after.runs(),
                    before.git_binary@,
                    seq![
                        "worktree"@,
                        "add"@,
                        "-b"@,
                        branch,
                        crate::paths::joined(project_dir, branch),
                    ],
                    Some(primary_checkout),
                )
                &&& result == worktree_of_run(
                    after.runs().last(),
                    project_dir,
                    branch,
                    issue_number,
                )
            },
            VcsCall::WorktreeRemove { primary_checkout, worktree, result } => {
                &&& worktree_removal(
                    before.runs(),
                    after.runs(),
                    before.git_binary@,
                    primary_checkout,
                    worktree,
                    result,
                )
            },
            VcsCall::Commit { worktree_path, message, result } => {
                &&& commit_runs(
                    before.runs(),
                    after.runs(),
                    before.git_binary@,
                    worktree_path,
                    message,
                    result,
                )
            },
            VcsCall::Push { worktree_path, branch, result } => {
                &&& ran(
                    before.runs(),
                    after.runs(),
                    before.git_binary@,
                    seq!["push"@, "--set-upstream"@, "origin"@, branch],
                    Some(worktree_path),
                )
                &&& result == succeeded(after.runs().last())
            },
            VcsCall::CreateIssue { repo, title, body, result } => {
                &&& issue_creation(
                    before.runs(),
                    after.runs(),
                    before.gh_binary@,
                    repo,
                    title,
                    body,
                    result,
                )
            },
            VcsCall::ReadIssue { repo, number, result } => {
                &&& ran(
                    before.runs(),
                    after.runs(),
                    before.gh_binary@,
                    issue_view_args(repo, number),
                    None,
                )
                &&& result == issue_of_run(after.runs().last())
            },
            VcsCall::ListOpenIssues { repo, limit, result } => {
                &&& ran(
                    before.runs(),
                    after.runs(),
                    before.gh_binary@,
                    scoped(
                        seq![
                            "issue"@,
                            "list"@,
                            "--state"@,
                            "open"@,
                            "--limit"@,
                            crate::numbers::decimal(limit as nat),
                            "--json"@,
                            ISSUE_LIST_FIELDS@,
                        ],
                        repo,
                    ),
                    None,
                )
                &&& result == decoded_list_run(
                    after.runs().last(),
                    |items: Seq<Seq<char>>| crate::vcs::payload::decoded_numbers(items),
                )
            },
            VcsCall::SetLabel { repo, number, label, present, result } => {
                &&& ran(
                    before.runs(),
                    after.runs(),
                    before.gh_binary@,
                    scoped(
                        seq![
                            "issue"@,
                            "edit"@,
                            crate::numbers::decimal(number as nat),
                            if present {
                                "--add-label"@
                            } else {
                                "--remove-label"@
                            },
                            label,
                        ],
                        repo,
                    ),
                    None,
                )
                &&& result == succeeded(after.runs().last())
            },
            VcsCall::EnsureLabel { repo, label, result } => {
                &&& label_creation(
                    before.runs(),
                    after.runs(),
                    before.gh_binary@,
                    repo,
                    label,
                    result,
                )
            },
            VcsCall::PostComment { repo, number, body, result } => {
                &&& ran(
                    before.runs(),
                    after.runs(),
                    before.gh_binary@,
                    scoped(
                        seq![
                            "issue"@,
                            "comment"@,
                            crate::numbers::decimal(number as nat),
                            "--body"@,
                            body,
                        ],
                        repo,
                    ),
                    None,
                )
                &&& result == succeeded(after.runs().last())
            },
            VcsCall::OpenPr { repo, branch, base, title, body, result } => {
                &&& pull_request_creation(
                    before.runs(),
                    after.runs(),
                    before.gh_binary@,
                    repo,
                    branch,
                    base,
                    title,
                    body,
                    result,
                )
            },
            VcsCall::EnqueueMerge { repo, number, result } => {
                &&& ran(
                    before.runs(),
                    after.runs(),
                    before.gh_binary@,
                    scoped(
                        seq![
                            "pr"@,
                            "merge"@,
                            crate::numbers::decimal(number as nat),
                            "--auto"@,
                            "--squash"@,
                        ],
                        repo,
                    ),
                    None,
                )
                &&& result == succeeded(after.runs().last())
            },
            VcsCall::ReadRelationships { repo, number, result } => {
                &&& relationship_runs(
                    before.runs(),
                    after.runs(),
                    before.gh_binary@,
                    repo,
                    number,
                    result,
                )
            },
            VcsCall::FindLinkedPullRequests { repo, number, result } => {
                &&& ran(
                    before.runs(),
                    after.runs(),
                    before.gh_binary@,
                    numbered_graphql_args(LINKED_PULL_REQUESTS_QUERY@, repo, number),
                    None,
                )
                &&& result == decoded_run(
                    after.runs().last(),
                    |json: Seq<char>| crate::vcs::payload::decoded_linked(json),
                )
            },
            VcsCall::ReadPullRequestStatus { repo, number, result } => {
                &&& ran(
                    before.runs(),
                    after.runs(),
                    before.gh_binary@,
                    numbered_graphql_args(PULL_REQUEST_STATUS_QUERY@, repo, number),
                    None,
                )
                &&& result == status_of_run(
                    after.runs().last(),
                    repo,
                    number,
                )
            },
        }
    }
}

/// Which command lines each method runs, and what it makes of their output, is
/// in [`Recorded::answers`], which the trait's contracts state of every call.
impl<R: CommandRunner> Vcs for ShellVcs<R> {
    fn git_available(&mut self) -> (result: Result<(), VcsError>)
    {
        let result = binary_available(&mut self.runner, self.git_binary.as_str());
        self.calls = Ghost(
            self.calls@.push(VcsCall::GitAvailable { result: crate::vcs::outcome(result) }),
        );
        result
    }

    fn gh_available(&mut self) -> (result: Result<(), VcsError>)
    {
        let result = binary_available(&mut self.runner, self.gh_binary.as_str());
        self.calls = Ghost(
            self.calls@.push(VcsCall::GhAvailable { result: crate::vcs::outcome(result) }),
        );
        result
    }

    fn gh_authenticated(&mut self, repo: &str) -> (result: Result<bool, VcsError>)
    {
        let ghost before = self.runs();
        let args = args_of(&["auth", "status"]);
        assert(crate::text::texts(args@) =~= seq!["auth"@, "status"@]);
        let result = match self.runner.run(self.gh_binary.as_str(), &args, None) {
            Err(error) => Err(error),
            Ok(status) => if !status.is_success() {
                Ok(false)
            } else {
                let ghost between = self.runs();
                let args = args_of(&["repo", "view", repo, "--json", "nameWithOwner"]);
                assert(crate::text::texts(args@) =~= seq![
                    "repo"@,
                    "view"@,
                    repo@,
                    "--json"@,
                    "nameWithOwner"@,
                ]);
                let reached = match self.runner.run(self.gh_binary.as_str(), &args, None) {
                    Err(error) => Err(error),
                    Ok(reachable) => Ok(reachable.is_success()),
                };
                assert(self.runs().take(before.len() as int + 1) =~= between);
                reached
            },
        };
        assert(before.len() + 1 == self.runs().len() ==> self.runs().take(before.len() as int + 1)
            =~= self.runs());
        self.calls = Ghost(
            self.calls@.push(
                VcsCall::GhAuthenticated { repo: repo@, result: crate::vcs::outcome(result) },
            ),
        );
        result
    }

    fn detect_repo_slug(&mut self, repo_dir: &str) -> (result: Result<String, VcsError>)
    {
        let args = args_of(&["repo", "view", "--json", "nameWithOwner"]);
        assert(crate::text::texts(args@) =~= seq!["repo"@, "view"@, "--json"@, "nameWithOwner"@]);
        let result = match run_json(
            &mut self.runner,
            self.gh_binary.as_str(),
            &args,
            Some(repo_dir),
        ) {
            Err(error) => Err(error),
            Ok(json) => match decode_slug(&json) {
                Some(slug) => Ok(slug),
                None => Err(shape_error(self.gh_binary.as_str(), &args)),
            },
        };
        self.calls = Ghost(
            self.calls@.push(
                VcsCall::DetectRepoSlug {
                    repo_dir: repo_dir@,
                    result: crate::vcs::outcome(result),
                },
            ),
        );
        result
    }

    fn detect_default_branch(&mut self, repo_dir: &str) -> (result: Result<String, VcsError>)
    {
        let args = args_of(&["symbolic-ref", "--short", "refs/remotes/origin/HEAD"]);
        assert(crate::text::texts(args@) =~= seq![
            "symbolic-ref"@,
            "--short"@,
            "refs/remotes/origin/HEAD"@,
        ]);
        let result = match run_checked(
            &mut self.runner,
            self.git_binary.as_str(),
            &args,
            Some(repo_dir),
        ) {
            Err(error) => Err(error),
            Ok(stdout) => {
                let branch = trim(stdout.as_str());
                match strip_prefix(branch, "origin/") {
                    Some(rest) => Ok(rest.to_string()),
                    None => Ok(branch.to_string()),
                }
            },
        };
        self.calls = Ghost(
            self.calls@.push(
                VcsCall::DetectDefaultBranch {
                    repo_dir: repo_dir@,
                    result: crate::vcs::outcome(result),
                },
            ),
        );
        result
    }

    fn merge_queue_enabled(&mut self, repo: &str, default_branch: &str) -> (result: Result<
        bool,
        VcsError,
    >)
    {
        let variable = "branch=".to_string().concat(default_branch);
        let args = graphql(MERGE_QUEUE_QUERY, repo, "-f", variable.as_str());
        let result = match self.runner.run(self.gh_binary.as_str(), &args, None) {
            Err(error) => Err(error),
            Ok(output) => if !output.is_success() {
                Ok(false)
            } else {
                match crate::json::parse(output.stdout.as_str()) {
                    Err(_) => Ok(false),
                    Ok(json) => match decode_merge_queue(&json) {
                        Some(enabled) => Ok(enabled),
                        None => Ok(false),
                    },
                }
            },
        };
        self.calls = Ghost(
            self.calls@.push(
                VcsCall::MergeQueueEnabled {
                    repo: repo@,
                    default_branch: default_branch@,
                    result: crate::vcs::outcome(result),
                },
            ),
        );
        result
    }

    fn worktree_add(
        &mut self,
        primary_checkout: &str,
        project_dir: &str,
        branch: &str,
        issue_number: u64,
    ) -> (result: Result<Worktree, VcsError>)
    {
        let path = join(project_dir, branch);
        let args = args_of(&["worktree", "add", "-b", branch, path.as_str()]);
        assert(crate::text::texts(args@) =~= seq![
            "worktree"@,
            "add"@,
            "-b"@,
            branch@,
            crate::paths::joined(project_dir@, branch@),
        ]);
        let result = match run_checked(
            &mut self.runner,
            self.git_binary.as_str(),
            &args,
            Some(primary_checkout),
        ) {
            Err(error) => Err(error),
            Ok(_) => Ok(
                Worktree {
                    issue_number,
                    path,
                    branch: branch.to_string(),
                    slug: branch_slug(branch, issue_number),
                },
            ),
        };
        self.calls = Ghost(
            self.calls@.push(
                VcsCall::WorktreeAdd {
                    primary_checkout: primary_checkout@,
                    project_dir: project_dir@,
                    branch: branch@,
                    issue_number,
                    result: crate::vcs::outcome(result),
                },
            ),
        );
        result
    }

    fn worktree_remove(&mut self, primary_checkout: &str, worktree: &Worktree) -> (result: Result<
        (),
        VcsError,
    >)
    {
        let ghost before = self.runs();
        let args = args_of(&["worktree", "remove", worktree.path.as_str()]);
        assert(crate::text::texts(args@) =~= seq!["worktree"@, "remove"@, worktree@.path]);
        let result = match run_checked(
            &mut self.runner,
            self.git_binary.as_str(),
            &args,
            Some(primary_checkout),
        ) {
            Err(error) => Err(error),
            Ok(_) => {
                let ghost between = self.runs();
                // A squash-merged branch is not merged as far as a plain
                // delete is concerned, hence `--force`. A failure here leaves
                // a stale local branch behind, not a stale worktree.
                let args = args_of(&["branch", "--delete", "--force", worktree.branch.as_str()]);
                assert(crate::text::texts(args@) =~= seq![
                    "branch"@,
                    "--delete"@,
                    "--force"@,
                    worktree@.branch,
                ]);
                let _ = run_checked(
                    &mut self.runner,
                    self.git_binary.as_str(),
                    &args,
                    Some(primary_checkout),
                );
                assert(self.runs().take(before.len() as int + 1) =~= between);
                Ok(())
            },
        };
        assert(before.len() + 1 == self.runs().len() ==> self.runs().take(before.len() as int + 1)
            =~= self.runs());
        self.calls = Ghost(
            self.calls@.push(
                VcsCall::WorktreeRemove {
                    primary_checkout: primary_checkout@,
                    worktree: worktree@,
                    result: crate::vcs::outcome(result),
                },
            ),
        );
        result
    }

    fn commit(&mut self, worktree_path: &str, message: &str) -> (result: Result<(), VcsError>)
    {
        let ghost before = self.runs();
        let args = args_of(&["add", "--all"]);
        assert(crate::text::texts(args@) =~= seq!["add"@, "--all"@]);
        let result = match run_checked(
            &mut self.runner,
            self.git_binary.as_str(),
            &args,
            Some(worktree_path),
        ) {
            Err(error) => Err(error),
            Ok(_) => {
                let ghost between = self.runs();
                let args = args_of(&["commit", "--message", message]);
                assert(crate::text::texts(args@) =~= seq!["commit"@, "--message"@, message@]);
                let committed = match run_checked(
                    &mut self.runner,
                    self.git_binary.as_str(),
                    &args,
                    Some(worktree_path),
                ) {
                    Err(error) => Err(error),
                    Ok(_) => Ok(()),
                };
                assert(self.runs().take(before.len() as int + 1) =~= between);
                committed
            },
        };
        assert(before.len() + 1 == self.runs().len() ==> self.runs().take(before.len() as int + 1)
            =~= self.runs());
        self.calls = Ghost(
            self.calls@.push(
                VcsCall::Commit {
                    worktree_path: worktree_path@,
                    message: message@,
                    result: crate::vcs::outcome(result),
                },
            ),
        );
        result
    }

    fn push(&mut self, worktree_path: &str, branch: &str) -> (result: Result<(), VcsError>)
    {
        let args = args_of(&["push", "--set-upstream", "origin", branch]);
        assert(crate::text::texts(args@) =~= seq![
            "push"@,
            "--set-upstream"@,
            "origin"@,
            branch@,
        ]);
        let result = match run_checked(
            &mut self.runner,
            self.git_binary.as_str(),
            &args,
            Some(worktree_path),
        ) {
            Err(error) => Err(error),
            Ok(_) => Ok(()),
        };
        self.calls = Ghost(
            self.calls@.push(
                VcsCall::Push {
                    worktree_path: worktree_path@,
                    branch: branch@,
                    result: crate::vcs::outcome(result),
                },
            ),
        );
        result
    }

    fn create_issue(&mut self, repo: &str, title: &str, body: &str) -> (result: Result<
        IssueRef,
        VcsError,
    >)
    {
        let ghost before = self.runs();
        let args = gh_args(&["issue", "create", "--title", title, "--body", body], repo);
        assert(crate::text::texts(args@) =~= scoped(
            seq!["issue"@, "create"@, "--title"@, title@, "--body"@, body@],
            repo@,
        ));
        let result = match run_checked(&mut self.runner, self.gh_binary.as_str(), &args, None) {
            Err(error) => Err(error),
            Ok(url) => match url_number(url.as_str()) {
                None => Err(
                    VcsError::UnexpectedOutput {
                        command: command_line(self.gh_binary.as_str(), &args),
                        output: url,
                    },
                ),
                Some(number) => {
                    let ghost between = self.runs();
                    let issue = self.view_issue(repo, number);
                    assert(self.runs().take(before.len() as int + 1) =~= between);
                    issue
                },
            },
        };
        assert(before.len() + 1 == self.runs().len() ==> self.runs().take(before.len() as int + 1)
            =~= self.runs());
        self.calls = Ghost(
            self.calls@.push(
                VcsCall::CreateIssue {
                    repo: repo@,
                    title: title@,
                    body: body@,
                    result: crate::vcs::outcome(result),
                },
            ),
        );
        result
    }

    fn read_issue(&mut self, repo: &str, issue_number: u64) -> (result: Result<
        IssueRef,
        VcsError,
    >)
    {
        let result = self.view_issue(repo, issue_number);
        self.calls = Ghost(
            self.calls@.push(
                VcsCall::ReadIssue {
                    repo: repo@,
                    number: issue_number,
                    result: crate::vcs::outcome(result),
                },
            ),
        );
        result
    }

    fn list_open_issues(&mut self, repo: &str, limit: u32) -> (result: Result<Vec<u64>, VcsError>)
    {
        let count = decimal_text(limit as u64);
        let args = gh_args(
            &[
                "issue",
                "list",
                "--state",
                "open",
                "--limit",
                count.as_str(),
                "--json",
                ISSUE_LIST_FIELDS,
            ],
            repo,
        );
        assert(crate::text::texts(args@) =~= scoped(
            seq![
                "issue"@,
                "list"@,
                "--state"@,
                "open"@,
                "--limit"@,
                crate::numbers::decimal(limit as nat),
                "--json"@,
                ISSUE_LIST_FIELDS@,
            ],
            repo@,
        ));
        let result = match run_json_list(&mut self.runner, self.gh_binary.as_str(), &args, None) {
            Err(error) => Err(error),
            Ok(items) => match decode_numbers(&items) {
                Some(numbers) => Ok(numbers),
                None => Err(shape_error(self.gh_binary.as_str(), &args)),
            },
        };
        self.calls = Ghost(
            self.calls@.push(
                VcsCall::ListOpenIssues {
                    repo: repo@,
                    limit,
                    result: crate::vcs::outcome(result),
                },
            ),
        );
        result
    }

    fn set_label(
        &mut self,
        repo: &str,
        issue_number: u64,
        label: &str,
        present: bool,
    ) -> (result: Result<(), VcsError>)
    {
        let number = decimal_text(issue_number);
        let flag = if present {
            "--add-label"
        } else {
            "--remove-label"
        };
        let args = gh_args(&["issue", "edit", number.as_str(), flag, label], repo);
        assert(crate::text::texts(args@) =~= scoped(
            seq![
                "issue"@,
                "edit"@,
                crate::numbers::decimal(issue_number as nat),
                if present {
                    "--add-label"@
                } else {
                    "--remove-label"@
                },
                label@,
            ],
            repo@,
        ));
        let result = match run_checked(&mut self.runner, self.gh_binary.as_str(), &args, None) {
            Err(error) => Err(error),
            Ok(_) => Ok(()),
        };
        self.calls = Ghost(
            self.calls@.push(
                VcsCall::SetLabel {
                    repo: repo@,
                    number: issue_number,
                    label: label@,
                    present,
                    result: crate::vcs::outcome(result),
                },
            ),
        );
        result
    }

    fn ensure_label(&mut self, repo: &str, label: &str) -> (result: Result<(), VcsError>)
    {
        let ghost before = self.runs();
        // An existing label keeps its color, so existence is looked up first.
        // The search matches substrings; the exact comparison is made here.
        let args = gh_args(
            &["label", "list", "--search", label, "--json", "name", "--limit", "999"],
            repo,
        );
        assert(crate::text::texts(args@) =~= scoped(
            seq![
                "label"@,
                "list"@,
                "--search"@,
                label@,
                "--json"@,
                "name"@,
                "--limit"@,
                "999"@,
            ],
            repo@,
        ));
        let listed = match run_json_list(&mut self.runner, self.gh_binary.as_str(), &args, None) {
            Err(error) => Err(error),
            Ok(items) => match decode_names(&items) {
                Some(names) => Ok(names),
                None => Err(shape_error(self.gh_binary.as_str(), &args)),
            },
        };
        let ghost between = self.runs();
        assert(between.take(before.len() as int + 1) =~= between);
        let result = match listed {
            Err(error) => Err(error),
            Ok(names) => if holds(&names, label) {
                Ok(())
            } else {
                let args = gh_args(&["label", "create", label, "--color", "ededed"], repo);
                assert(crate::text::texts(args@) =~= scoped(
                    seq!["label"@, "create"@, label@, "--color"@, "ededed"@],
                    repo@,
                ));
                let created = match run_checked(
                    &mut self.runner,
                    self.gh_binary.as_str(),
                    &args,
                    None,
                ) {
                    Err(error) => Err(error),
                    Ok(_) => Ok(()),
                };
                assert(self.runs().take(before.len() as int + 1) =~= between);
                created
            },
        };
        self.calls = Ghost(
            self.calls@.push(
                VcsCall::EnsureLabel {
                    repo: repo@,
                    label: label@,
                    result: crate::vcs::outcome(result),
                },
            ),
        );
        result
    }

    fn post_comment(&mut self, repo: &str, issue_number: u64, body: &str) -> (result: Result<
        (),
        VcsError,
    >)
    {
        let number = decimal_text(issue_number);
        let args = gh_args(&["issue", "comment", number.as_str(), "--body", body], repo);
        assert(crate::text::texts(args@) =~= scoped(
            seq![
                "issue"@,
                "comment"@,
                crate::numbers::decimal(issue_number as nat),
                "--body"@,
                body@,
            ],
            repo@,
        ));
        let result = match run_checked(&mut self.runner, self.gh_binary.as_str(), &args, None) {
            Err(error) => Err(error),
            Ok(_) => Ok(()),
        };
        self.calls = Ghost(
            self.calls@.push(
                VcsCall::PostComment {
                    repo: repo@,
                    number: issue_number,
                    body: body@,
                    result: crate::vcs::outcome(result),
                },
            ),
        );
        result
    }

    fn open_pr(
        &mut self,
        repo: &str,
        branch: &str,
        base: &str,
        title: &str,
        body: &str,
    ) -> (result: Result<PullRequestRef, VcsError>)
    {
        let ghost before = self.runs();
        let args = gh_args(
            &[
                "pr",
                "create",
                "--head",
                branch,
                "--base",
                base,
                "--title",
                title,
                "--body",
                body,
            ],
            repo,
        );
        assert(crate::text::texts(args@) =~= scoped(
            seq![
                "pr"@,
                "create"@,
                "--head"@,
                branch@,
                "--base"@,
                base@,
                "--title"@,
                title@,
                "--body"@,
                body@,
            ],
            repo@,
        ));
        let result = match run_checked(&mut self.runner, self.gh_binary.as_str(), &args, None) {
            Err(error) => Err(error),
            Ok(_) => {
                let ghost between = self.runs();
                let args = gh_args(&["pr", "view", branch, "--json", PULL_REQUEST_FIELDS], repo);
                assert(crate::text::texts(args@) =~= scoped(
                    seq!["pr"@, "view"@, branch@, "--json"@, PULL_REQUEST_FIELDS@],
                    repo@,
                ));
                let opened = match run_json(
                    &mut self.runner,
                    self.gh_binary.as_str(),
                    &args,
                    None,
                ) {
                    Err(error) => Err(error),
                    Ok(json) => match decode_pull_request(&json) {
                        Some(pr) => Ok(pr),
                        None => Err(shape_error(self.gh_binary.as_str(), &args)),
                    },
                };
                assert(self.runs().take(before.len() as int + 1) =~= between);
                opened
            },
        };
        assert(before.len() + 1 == self.runs().len() ==> self.runs().take(before.len() as int + 1)
            =~= self.runs());
        self.calls = Ghost(
            self.calls@.push(
                VcsCall::OpenPr {
                    repo: repo@,
                    branch: branch@,
                    base: base@,
                    title: title@,
                    body: body@,
                    result: crate::vcs::outcome(result),
                },
            ),
        );
        result
    }

    fn enqueue_merge(&mut self, repo: &str, pr_number: u64) -> (result: Result<(), VcsError>)
    {
        let number = decimal_text(pr_number);
        let args = gh_args(&["pr", "merge", number.as_str(), "--auto", "--squash"], repo);
        assert(crate::text::texts(args@) =~= scoped(
            seq![
                "pr"@,
                "merge"@,
                crate::numbers::decimal(pr_number as nat),
                "--auto"@,
                "--squash"@,
            ],
            repo@,
        ));
        let result = match run_checked(&mut self.runner, self.gh_binary.as_str(), &args, None) {
            Err(error) => Err(error),
            Ok(_) => Ok(()),
        };
        self.calls = Ghost(
            self.calls@.push(
                VcsCall::EnqueueMerge {
                    repo: repo@,
                    number: pr_number,
                    result: crate::vcs::outcome(result),
                },
            ),
        );
        result
    }

    fn read_relationships(&mut self, repo: &str, issue_number: u64) -> (result: Result<
        IssueRelationships,
        VcsError,
    >)
    {
        let ghost before = self.runs();
        let args = numbered_graphql(RELATIONSHIPS_QUERY, repo, issue_number);
        let result = match self.runner.run(self.gh_binary.as_str(), &args, None) {
            Err(error) => Err(error),
            Ok(output) => if output.is_success() {
                match read_json(output.stdout.as_str(), self.gh_binary.as_str(), &args) {
                    Err(error) => Err(error),
                    Ok(json) => match decode_relationships(&json) {
                        Some(edges) => Ok(edges),
                        None => Err(shape_error(self.gh_binary.as_str(), &args)),
                    },
                }
            } else {
                let ghost between = self.runs();
                let issue = self.view_issue(repo, issue_number);
                assert(self.runs().take(before.len() as int + 1) =~= between);
                match issue {
                    Err(error) => Err(error),
                    Ok(issue) => Ok(
                        IssueRelationships {
                            blocked_by: parse_depends_on(issue.body.as_str()),
                            blocking: Vec::new(),
                            parent: None,
                            sub_issues: Vec::new(),
                        },
                    ),
                }
            },
        };
        assert(before.len() + 1 == self.runs().len() ==> self.runs().take(before.len() as int + 1)
            =~= self.runs());
        self.calls = Ghost(
            self.calls@.push(
                VcsCall::ReadRelationships {
                    repo: repo@,
                    number: issue_number,
                    result: crate::vcs::outcome(result),
                },
            ),
        );
        result
    }

    fn find_linked_pull_requests(&mut self, repo: &str, issue_number: u64) -> (result: Result<
        Vec<PullRequestRef>,
        VcsError,
    >)
    {
        let args = numbered_graphql(LINKED_PULL_REQUESTS_QUERY, repo, issue_number);
        let result = match run_json(&mut self.runner, self.gh_binary.as_str(), &args, None) {
            Err(error) => Err(error),
            Ok(json) => match decode_linked(&json) {
                Some(refs) => Ok(refs),
                None => Err(shape_error(self.gh_binary.as_str(), &args)),
            },
        };
        self.calls = Ghost(
            self.calls@.push(
                VcsCall::FindLinkedPullRequests {
                    repo: repo@,
                    number: issue_number,
                    result: crate::vcs::pull_requests_outcome(result),
                },
            ),
        );
        result
    }

    fn read_pull_request_status(&mut self, repo: &str, pr_number: u64) -> (result: Result<
        PullRequestStatus,
        VcsError,
    >)
    {
        let args = numbered_graphql(PULL_REQUEST_STATUS_QUERY, repo, pr_number);
        let result = match run_json(&mut self.runner, self.gh_binary.as_str(), &args, None) {
            Err(error) => Err(error),
            Ok(json) => match decode_status(&json) {
                Some(signals) => pull_request_status(
                    signals,
                    command_line(self.gh_binary.as_str(), &args),
                    repo,
                    pr_number,
                ),
                None => Err(shape_error(self.gh_binary.as_str(), &args)),
            },
        };
        self.calls = Ghost(
            self.calls@.push(
                VcsCall::ReadPullRequestStatus {
                    repo: repo@,
                    number: pr_number,
                    result: crate::vcs::outcome(result),
                },
            ),
        );
        result
    }
}

} // verus!
