//! The command lines behind each call of a [`ShellVcs`], written out, and what
//! becomes of their output.

use vstd::prelude::*;

use crate::vcs::runner::{CommandRunner, Run};
use crate::vcs::shell::ShellVcs;
use crate::vcs::{
    IssueRefView, IssueRelationshipsView, PullRequestRefView, Recorded, VcsCall, VcsErrorView,
    WorktreeView,
};

verus! {

/// Whether a run is of `program` with `args`, from `cwd`.
pub open spec fn is_of(
    run: Run,
    program: Seq<char>,
    args: Seq<Seq<char>>,
    cwd: Option<Seq<char>>,
) -> bool {
    run.program == program && run.args == args && run.cwd == cwd
}

/// Whether a run exited zero.
pub open spec fn exited_zero(run: Run) -> bool {
    run.result matches Ok(output) && output.status == 0
}

/// Whether a run exited zero and printed `text`.
pub open spec fn put_out(run: Run, text: Seq<char>) -> bool {
    run.result matches Ok(output) && output.status == 0 && output.stdout == text
}

/// Whether `after` is `before` and one run more: of `program` with `args`, from
/// `cwd`.
pub open spec fn grew_by_one(
    before: Seq<Run>,
    after: Seq<Run>,
    program: Seq<char>,
    args: Seq<Seq<char>>,
    cwd: Option<Seq<char>>,
) -> bool {
    &&& after.len() == before.len() + 1
    &&& after.take(before.len() as int) == before
    &&& is_of(after[before.len() as int], program, args, cwd)
}

/// Whether the first run that `after` has beyond `before` is of `program` with
/// `args`, from `cwd`.
pub open spec fn grew_first_by(
    before: Seq<Run>,
    after: Seq<Run>,
    program: Seq<char>,
    args: Seq<Seq<char>>,
    cwd: Option<Seq<char>>,
) -> bool {
    &&& after.len() > before.len()
    &&& after.take(before.len() as int) == before
    &&& is_of(after[before.len() as int], program, args, cwd)
}

/// Whether `after` is `before` and two runs more, the second one of `program`
/// with `args`, from `cwd`.
pub open spec fn then_ran(
    before: Seq<Run>,
    after: Seq<Run>,
    program: Seq<char>,
    args: Seq<Seq<char>>,
    cwd: Option<Seq<char>>,
) -> bool {
    &&& after.len() == before.len() + 2
    &&& is_of(after[before.len() as int + 1], program, args, cwd)
}

/// A run that was appended stands last, behind all that there was.
proof fn appended_run_is_last(
    before: Seq<Run>,
    after: Seq<Run>,
    program: Seq<char>,
    args: Seq<Seq<char>>,
    cwd: Option<Seq<char>>,
)
    requires
        crate::vcs::shell::ran(before, after, program, args, cwd),
    ensures
        grew_by_one(before, after, program, args, cwd),
        after.last() == after[before.len() as int],
{
    assert(after.take(before.len() as int) =~= before);
}

/// The first of several runs that were appended stands behind all that there
/// was.
proof fn first_run_is_next(
    before: Seq<Run>,
    after: Seq<Run>,
    program: Seq<char>,
    args: Seq<Seq<char>>,
    cwd: Option<Seq<char>>,
)
    requires
        crate::vcs::shell::ran_first(before, after, program, args, cwd),
    ensures
        grew_first_by(before, after, program, args, cwd),
        after.len() == before.len() + 1 ==> after.last() == after[before.len() as int],
{
    let n = before.len() as int;
    let shorter = after.take(n + 1);
    appended_run_is_last(before, shorter, program, args, cwd);
    assert(after.take(n) =~= shorter.take(n));
    assert(after[n] == shorter[n]);
}

/// The second of two runs stands behind the first.
proof fn second_run_follows(
    before: Seq<Run>,
    after: Seq<Run>,
    program: Seq<char>,
    args: Seq<Seq<char>>,
    cwd: Option<Seq<char>>,
)
    requires
        before.len() < after.len(),
        crate::vcs::shell::ran(
            after.take(before.len() as int + 1),
            after,
            program,
            args,
            cwd,
        ),
    ensures
        then_ran(before, after, program, args, cwd),
        after.last() == after[before.len() as int + 1],
{
    appended_run_is_last(after.take(before.len() as int + 1), after, program, args, cwd);
}

/// No call changes which binaries are invoked.
pub proof fn binaries_stay<R: CommandRunner>(before: ShellVcs<R>, call: VcsCall, after: ShellVcs<R>)
    requires
        ShellVcs::<R>::answers(before, call, after),
    ensures
        after.git_binary@ == before.git_binary@,
        after.gh_binary@ == before.gh_binary@,
{
}

/// A binary is there exactly where `--version` exits zero, and reported by its
/// name where it is not.
pub proof fn availability_is_asked_by_version<R: CommandRunner>(
    before: ShellVcs<R>,
    after: ShellVcs<R>,
    result: Result<(), VcsErrorView>,
)
    ensures
        ShellVcs::<R>::answers(before, VcsCall::GitAvailable { result }, after) ==> {
            &&& grew_by_one(
                before.runs(),
                after.runs(),
                before.git_binary@,
                seq!["--version"@],
                None,
            )
            &&& result is Ok <==> exited_zero(after.runs().last())
            &&& result matches Err(error) ==> error == (VcsErrorView::BinaryNotFound {
                binary: before.git_binary@,
            })
        },
        ShellVcs::<R>::answers(before, VcsCall::GhAvailable { result }, after) ==> {
            &&& grew_by_one(
                before.runs(),
                after.runs(),
                before.gh_binary@,
                seq!["--version"@],
                None,
            )
            &&& result is Ok <==> exited_zero(after.runs().last())
            &&& result matches Err(error) ==> error == (VcsErrorView::BinaryNotFound {
                binary: before.gh_binary@,
            })
        },
{
    let args = seq!["--version"@];
    if ShellVcs::<R>::answers(before, VcsCall::GitAvailable { result }, after) {
        appended_run_is_last(before.runs(), after.runs(), before.git_binary@, args, None);
    }
    if ShellVcs::<R>::answers(before, VcsCall::GhAvailable { result }, after) {
        appended_run_is_last(before.runs(), after.runs(), before.gh_binary@, args, None);
    }
}

/// Authentication holds for a repo exactly where `gh auth status` and then
/// `gh repo view` of that repo both exit zero.
pub proof fn authentication_needs_login_and_reach<R: CommandRunner>(
    before: ShellVcs<R>,
    after: ShellVcs<R>,
    repo: Seq<char>,
    result: Result<bool, VcsErrorView>,
)
    requires
        ShellVcs::<R>::answers(before, VcsCall::GhAuthenticated { repo, result }, after),
    ensures
        grew_first_by(
            before.runs(),
            after.runs(),
            before.gh_binary@,
            seq!["auth"@, "status"@],
            None,
        ),
        exited_zero(after.runs()[before.runs().len() as int]) ==> then_ran(
            before.runs(),
            after.runs(),
            before.gh_binary@,
            seq!["repo"@, "view"@, repo, "--json"@, "nameWithOwner"@],
            None,
        ),
        !exited_zero(after.runs()[before.runs().len() as int]) ==> after.runs().len()
            == before.runs().len() + 1,
        result == Ok::<bool, VcsErrorView>(true) <==> (exited_zero(
            after.runs()[before.runs().len() as int],
        ) && exited_zero(after.runs().last())),
        result matches Err(error) ==> after.runs().last().result matches Err(cause) && cause
            == error,
{
    first_run_is_next(
        before.runs(),
        after.runs(),
        before.gh_binary@,
        seq!["auth"@, "status"@],
        None,
    );
    if exited_zero(after.runs()[before.runs().len() as int]) {
        second_run_follows(
            before.runs(),
            after.runs(),
            before.gh_binary@,
            seq!["repo"@, "view"@, repo, "--json"@, "nameWithOwner"@],
            None,
        );
    }
}

/// The slug of a checkout is asked of `gh repo view`, from inside it, and is
/// the one `nameWithOwner` in the answer.
pub proof fn slug_is_the_name_with_owner<R: CommandRunner>(
    before: ShellVcs<R>,
    after: ShellVcs<R>,
    repo_dir: Seq<char>,
    result: Result<Seq<char>, VcsErrorView>,
    json: Seq<char>,
    members: Seq<(Seq<char>, Seq<char>)>,
    value: Seq<char>,
)
    requires
        ShellVcs::<R>::answers(before, VcsCall::DetectRepoSlug { repo_dir, result }, after),
    ensures
        grew_by_one(
            before.runs(),
            after.runs(),
            before.gh_binary@,
            seq!["repo"@, "view"@, "--json"@, "nameWithOwner"@],
            Some(repo_dir),
        ),
        !exited_zero(after.runs().last()) ==> result is Err,
        exited_zero(after.runs().last()) && crate::json::parsed(
            (after.runs().last().result->Ok_0).stdout,
        ) == Ok::<Seq<char>, Seq<char>>(json) && crate::json::members_of(json) == Some(members)
            && crate::json::values_of(members, "nameWithOwner"@) == seq![value] ==> {
            match crate::json::string_of(value) {
                Some(slug) => result == Ok::<Seq<char>, VcsErrorView>(slug),
                None => result is Err,
            }
        },
{
    appended_run_is_last(
        before.runs(),
        after.runs(),
        before.gh_binary@,
        seq!["repo"@, "view"@, "--json"@, "nameWithOwner"@],
        Some(repo_dir),
    );
}

/// Text without white space at its ends survives trimming, whatever line break
/// follows it.
proof fn trimming_takes_the_line_break(text: Seq<char>)
    requires
        text.len() > 0,
        !crate::text::is_white_space(text[0]),
        !crate::text::is_white_space(text.last()),
    ensures
        crate::text::trimmed(text) == text,
        crate::text::trimmed(text.push('\n')) == text,
{
    assert(text.push('\n').drop_last() =~= text);
    assert(crate::text::trimmed_end(text.push('\n')) == crate::text::trimmed_end(text));
}

/// The default branch is asked of `git symbolic-ref`, from inside the checkout,
/// and is what that prints after `origin/`.
pub proof fn default_branch_is_named_without_its_remote<R: CommandRunner>(
    before: ShellVcs<R>,
    after: ShellVcs<R>,
    repo_dir: Seq<char>,
    result: Result<Seq<char>, VcsErrorView>,
    branch: Seq<char>,
)
    requires
        ShellVcs::<R>::answers(before, VcsCall::DetectDefaultBranch { repo_dir, result }, after),
        branch.len() > 0,
        !crate::text::is_white_space(branch[0]),
        !crate::text::is_white_space(branch.last()),
    ensures
        grew_by_one(
            before.runs(),
            after.runs(),
            before.git_binary@,
            seq!["symbolic-ref"@, "--short"@, "refs/remotes/origin/HEAD"@],
            Some(repo_dir),
        ),
        put_out(after.runs().last(), "origin/"@ + branch + seq!['\n']) ==> result == Ok::<
            Seq<char>,
            VcsErrorView,
        >(branch),
        put_out(after.runs().last(), branch + seq!['\n']) && !"origin/"@.is_prefix_of(branch)
            ==> result == Ok::<Seq<char>, VcsErrorView>(branch),
        !exited_zero(after.runs().last()) ==> result is Err,
{
    appended_run_is_last(
        before.runs(),
        after.runs(),
        before.git_binary@,
        seq!["symbolic-ref"@, "--short"@, "refs/remotes/origin/HEAD"@],
        Some(repo_dir),
    );
    reveal_strlit("origin/");
    let full = "origin/"@ + branch;
    assert(full + seq!['\n'] =~= full.push('\n'));
    assert(branch + seq!['\n'] =~= branch.push('\n'));
    trimming_takes_the_line_break(full);
    trimming_takes_the_line_break(branch);
    crate::text::after_prefix_of_concat("origin/"@, branch);
}

/// A merge queue is asked of GitHub by owner, name and branch. A rejected query
/// and an answer that cannot be read mean that there is none; only a `gh` that
/// does not run is an error.
pub proof fn merge_queue_is_asked_by_branch<R: CommandRunner>(
    before: ShellVcs<R>,
    after: ShellVcs<R>,
    owner: Seq<char>,
    name: Seq<char>,
    default_branch: Seq<char>,
    result: Result<bool, VcsErrorView>,
)
    requires
        !owner.contains('/'),
        ShellVcs::<R>::answers(
            before,
            VcsCall::MergeQueueEnabled { repo: owner + seq!['/'] + name, default_branch, result },
            after,
        ),
    ensures
        grew_by_one(
            before.runs(),
            after.runs(),
            before.gh_binary@,
            seq![
                "api"@,
                "graphql"@,
                "-f"@,
                "query="@ + "query($owner: String!, $name: String!, $branch: String!) {
  repository(owner: $owner, name: $name) {
    mergeQueue(branch: $branch) { id }
  }
}"@,
                "-f"@,
                "owner="@ + owner,
                "-f"@,
                "name="@ + name,
                "-f"@,
                "branch="@ + default_branch,
            ],
            None,
        ),
        result is Err <==> after.runs().last().result is Err,
        !exited_zero(after.runs().last()) ==> result != Ok::<bool, VcsErrorView>(true),
        exited_zero(after.runs().last()) && crate::json::parsed(
            (after.runs().last().result->Ok_0).stdout,
        ) is Err ==> result == Ok::<bool, VcsErrorView>(false),
{
    slug_splits(owner, name);
    appended_run_is_last(
        before.runs(),
        after.runs(),
        before.gh_binary@,
        crate::vcs::shell::graphql_args(
            crate::vcs::shell::MERGE_QUEUE_QUERY@,
            owner + seq!['/'] + name,
            "-f"@,
            "branch="@ + default_branch,
        ),
        None,
    );
}

/// A slug splits at its first `/` into owner and name.
pub proof fn slug_splits(owner: Seq<char>, name: Seq<char>)
    requires
        !owner.contains('/'),
    ensures
        crate::vcs::shell::split_slug(owner + seq!['/'] + name) == (owner, name),
{
    let slug = owner + seq!['/'] + name;
    assert forall|k: int| 0 <= k < owner.len() implies slug[k] != '/' by {
        assert(owner.contains(owner[k]));
    }
    crate::text::around_first_at(slug, '/', owner.len() as int);
    assert(slug.take(owner.len() as int) =~= owner);
    assert(slug.skip(owner.len() as int + 1) =~= name);
}

/// A slug without a `/` is all owner.
pub proof fn slug_without_a_name_is_all_owner(slug: Seq<char>)
    requires
        !slug.contains('/'),
    ensures
        crate::vcs::shell::split_slug(slug) == (slug, Seq::<char>::empty()),
{
    assert forall|k: int| 0 <= k < slug.len() implies slug[k] != '/' by {
        assert(slug.contains(slug[k]));
    }
    crate::text::around_first_absent(slug, '/');
}

/// A worktree is added with a new branch, beside the primary checkout: below
/// the project's directory, under the name of the branch.
pub proof fn worktree_is_added_with_a_new_branch<R: CommandRunner>(
    before: ShellVcs<R>,
    after: ShellVcs<R>,
    primary_checkout: Seq<char>,
    project_dir: Seq<char>,
    branch: Seq<char>,
    issue_number: u64,
    result: Result<WorktreeView, VcsErrorView>,
)
    requires
        ShellVcs::<R>::answers(
            before,
            VcsCall::WorktreeAdd { primary_checkout, project_dir, branch, issue_number, result },
            after,
        ),
        project_dir.len() > 0,
        project_dir.last() != '/',
        branch.len() > 0,
        branch[0] != '/',
    ensures
        grew_by_one(
            before.runs(),
            after.runs(),
            before.git_binary@,
            seq!["worktree"@, "add"@, "-b"@, branch, project_dir + seq!['/'] + branch],
            Some(primary_checkout),
        ),
        result is Ok <==> exited_zero(after.runs().last()),
        result matches Ok(worktree) ==> worktree.issue_number == issue_number && worktree.branch
            == branch && worktree.path == project_dir + seq!['/'] + branch,
{
    reveal_strlit("/");
    assert("/"@ =~= seq!['/']);
    appended_run_is_last(
        before.runs(),
        after.runs(),
        before.git_binary@,
        seq!["worktree"@, "add"@, "-b"@, branch, crate::paths::joined(project_dir, branch)],
        Some(primary_checkout),
    );
}

/// The slug of a conventional branch is what follows the issue's number, and of
/// any other branch the whole of it.
pub proof fn slug_follows_the_number(slug: Seq<char>, issue_number: u64, branch: Seq<char>)
    ensures
        crate::vcs::slug_of(
            "issue-"@ + crate::numbers::decimal(issue_number as nat) + "-"@ + slug,
            issue_number,
        ) == slug,
        !("issue-"@ + crate::numbers::decimal(issue_number as nat) + "-"@).is_prefix_of(branch)
            ==> crate::vcs::slug_of(branch, issue_number) == branch,
{
    crate::text::after_prefix_of_concat(
        "issue-"@ + crate::numbers::decimal(issue_number as nat) + "-"@,
        slug,
    );
}

/// A worktree is removed, and only then its branch deleted. What comes of the
/// second does not matter.
pub proof fn worktree_goes_before_its_branch<R: CommandRunner>(
    before: ShellVcs<R>,
    after: ShellVcs<R>,
    primary_checkout: Seq<char>,
    worktree: WorktreeView,
    result: Result<(), VcsErrorView>,
)
    requires
        ShellVcs::<R>::answers(
            before,
            VcsCall::WorktreeRemove { primary_checkout, worktree, result },
            after,
        ),
    ensures
        grew_first_by(
            before.runs(),
            after.runs(),
            before.git_binary@,
            seq!["worktree"@, "remove"@, worktree.path],
            Some(primary_checkout),
        ),
        exited_zero(after.runs()[before.runs().len() as int]) ==> then_ran(
            before.runs(),
            after.runs(),
            before.git_binary@,
            seq!["branch"@, "--delete"@, "--force"@, worktree.branch],
            Some(primary_checkout),
        ),
        !exited_zero(after.runs()[before.runs().len() as int]) ==> after.runs().len()
            == before.runs().len() + 1,
        result is Ok <==> exited_zero(after.runs()[before.runs().len() as int]),
{
    first_run_is_next(
        before.runs(),
        after.runs(),
        before.git_binary@,
        seq!["worktree"@, "remove"@, worktree.path],
        Some(primary_checkout),
    );
    if exited_zero(after.runs()[before.runs().len() as int]) {
        second_run_follows(
            before.runs(),
            after.runs(),
            before.git_binary@,
            seq!["branch"@, "--delete"@, "--force"@, worktree.branch],
            Some(primary_checkout),
        );
    }
}

/// A commit stages every change of the worktree, new files included, and then
/// commits what is staged, with the given message. It succeeds where both do.
pub proof fn commit_stages_everything_first<R: CommandRunner>(
    before: ShellVcs<R>,
    after: ShellVcs<R>,
    worktree_path: Seq<char>,
    message: Seq<char>,
    result: Result<(), VcsErrorView>,
)
    requires
        ShellVcs::<R>::answers(before, VcsCall::Commit { worktree_path, message, result }, after),
    ensures
        grew_first_by(
            before.runs(),
            after.runs(),
            before.git_binary@,
            seq!["add"@, "--all"@],
            Some(worktree_path),
        ),
        exited_zero(after.runs()[before.runs().len() as int]) ==> then_ran(
            before.runs(),
            after.runs(),
            before.git_binary@,
            seq!["commit"@, "--message"@, message],
            Some(worktree_path),
        ),
        !exited_zero(after.runs()[before.runs().len() as int]) ==> after.runs().len()
            == before.runs().len() + 1,
        result is Ok <==> (exited_zero(after.runs()[before.runs().len() as int]) && exited_zero(
            after.runs().last(),
        )),
{
    first_run_is_next(
        before.runs(),
        after.runs(),
        before.git_binary@,
        seq!["add"@, "--all"@],
        Some(worktree_path),
    );
    if exited_zero(after.runs()[before.runs().len() as int]) {
        second_run_follows(
            before.runs(),
            after.runs(),
            before.git_binary@,
            seq!["commit"@, "--message"@, message],
            Some(worktree_path),
        );
    }
}

/// A branch is pushed to `origin` from its worktree, which then tracks it.
pub proof fn push_sets_the_upstream<R: CommandRunner>(
    before: ShellVcs<R>,
    after: ShellVcs<R>,
    worktree_path: Seq<char>,
    branch: Seq<char>,
    result: Result<(), VcsErrorView>,
)
    requires
        ShellVcs::<R>::answers(before, VcsCall::Push { worktree_path, branch, result }, after),
    ensures
        grew_by_one(
            before.runs(),
            after.runs(),
            before.git_binary@,
            seq!["push"@, "--set-upstream"@, "origin"@, branch],
            Some(worktree_path),
        ),
        result is Ok <==> exited_zero(after.runs().last()),
{
    appended_run_is_last(
        before.runs(),
        after.runs(),
        before.git_binary@,
        seq!["push"@, "--set-upstream"@, "origin"@, branch],
        Some(worktree_path),
    );
}

/// The command line that reads an issue.
pub open spec fn reading_issue(repo: Seq<char>, number: u64) -> Seq<Seq<char>> {
    seq![
        "issue"@,
        "view"@,
        crate::numbers::decimal(number as nat),
        "--json"@,
        "number,title,body,labels,state"@,
        "--repo"@,
        repo,
    ]
}

/// The command line that reads an issue is the one that is run for it.
proof fn reading_issue_is_run(repo: Seq<char>, number: u64)
    ensures
        crate::vcs::shell::issue_view_args(repo, number) == reading_issue(repo, number),
{
    assert(crate::vcs::shell::issue_view_args(repo, number) =~= reading_issue(repo, number));
}

/// An issue is read by its number, in its repo.
pub proof fn issue_is_read_by_number<R: CommandRunner>(
    before: ShellVcs<R>,
    after: ShellVcs<R>,
    repo: Seq<char>,
    number: u64,
    result: Result<IssueRefView, VcsErrorView>,
)
    requires
        ShellVcs::<R>::answers(before, VcsCall::ReadIssue { repo, number, result }, after),
    ensures
        grew_by_one(
            before.runs(),
            after.runs(),
            before.gh_binary@,
            seq![
                "issue"@,
                "view"@,
                crate::numbers::decimal(number as nat),
                "--json"@,
                "number,title,body,labels,state"@,
                "--repo"@,
                repo,
            ],
            None,
        ),
        result is Ok ==> exited_zero(after.runs().last()),
{
    reading_issue_is_run(repo, number);
    appended_run_is_last(
        before.runs(),
        after.runs(),
        before.gh_binary@,
        reading_issue(repo, number),
        None,
    );
}

/// An issue is created with its title and body, and then read back by the
/// number at the end of the URL that was printed.
pub proof fn created_issue_is_read_back<R: CommandRunner>(
    before: ShellVcs<R>,
    after: ShellVcs<R>,
    repo: Seq<char>,
    title: Seq<char>,
    body: Seq<char>,
    result: Result<IssueRefView, VcsErrorView>,
    address: Seq<char>,
    number: u64,
)
    requires
        ShellVcs::<R>::answers(before, VcsCall::CreateIssue { repo, title, body, result }, after),
        address.len() > 0,
        !crate::text::is_white_space(address[0]),
    ensures
        grew_first_by(
            before.runs(),
            after.runs(),
            before.gh_binary@,
            seq![
                "issue"@,
                "create"@,
                "--title"@,
                title,
                "--body"@,
                body,
                "--repo"@,
                repo,
            ],
            None,
        ),
        !exited_zero(after.runs()[before.runs().len() as int]) ==> result is Err
            && after.runs().len() == before.runs().len() + 1,
        put_out(
            after.runs()[before.runs().len() as int],
            address + seq!['/'] + crate::numbers::decimal(number as nat) + seq!['\n'],
        ) ==> then_ran(
            before.runs(),
            after.runs(),
            before.gh_binary@,
            seq![
                "issue"@,
                "view"@,
                crate::numbers::decimal(number as nat),
                "--json"@,
                "number,title,body,labels,state"@,
                "--repo"@,
                repo,
            ],
            None,
        ),
{
    let args = crate::vcs::shell::scoped(
        seq!["issue"@, "create"@, "--title"@, title, "--body"@, body],
        repo,
    );
    assert(args =~= seq![
        "issue"@,
        "create"@,
        "--title"@,
        title,
        "--body"@,
        body,
        "--repo"@,
        repo,
    ]);
    first_run_is_next(before.runs(), after.runs(), before.gh_binary@, args, None);
    let first = after.runs()[before.runs().len() as int];
    let digits = crate::numbers::decimal(number as nat);
    if put_out(first, address + seq!['/'] + digits + seq!['\n']) {
        number_ends_the_url(address, number);
        reading_issue_is_run(repo, number);
        second_run_follows(
            before.runs(),
            after.runs(),
            before.gh_binary@,
            reading_issue(repo, number),
            None,
        );
    }
}

/// The number of an issue is the last part of its URL.
pub proof fn number_ends_the_url(address: Seq<char>, number: u64)
    requires
        address.len() > 0,
        !crate::text::is_white_space(address[0]),
    ensures
        crate::vcs::shell::number_in_url(
            address + seq!['/'] + crate::numbers::decimal(number as nat) + seq!['\n'],
        ) == Some(number),
{
    let digits = crate::numbers::decimal(number as nat);
    let url = address + seq!['/'] + digits;
    crate::numbers::decimal_read_back(number as nat);
    crate::numbers::parse_of_decimal(number);
    assert(url.last() == digits.last());
    assert(crate::numbers::is_digit(digits[digits.len() - 1]));
    assert(url + seq!['\n'] =~= url.push('\n'));
    trimming_takes_the_line_break(url);
    assert(!digits.contains('/')) by {
        if digits.contains('/') {
            let i = choose|i: int| 0 <= i < digits.len() && digits[i] == '/';
            assert(crate::numbers::is_digit(digits[i]));
        }
    }
    crate::text::around_last_of_join(address, '/', digits);
    assert(url =~= address.push('/') + digits);
}

/// Open issues are listed, as many as are asked for, and no others.
pub proof fn open_issues_are_listed<R: CommandRunner>(
    before: ShellVcs<R>,
    after: ShellVcs<R>,
    repo: Seq<char>,
    limit: u32,
    result: Result<Seq<u64>, VcsErrorView>,
)
    requires
        ShellVcs::<R>::answers(before, VcsCall::ListOpenIssues { repo, limit, result }, after),
    ensures
        grew_by_one(
            before.runs(),
            after.runs(),
            before.gh_binary@,
            seq![
                "issue"@,
                "list"@,
                "--state"@,
                "open"@,
                "--limit"@,
                crate::numbers::decimal(limit as nat),
                "--json"@,
                "number"@,
                "--repo"@,
                repo,
            ],
            None,
        ),
        result is Ok ==> exited_zero(after.runs().last()),
        put_out(after.runs().last(), Seq::empty()) ==> result == Ok::<Seq<u64>, VcsErrorView>(
            Seq::empty(),
        ),
{
    let args = crate::vcs::shell::scoped(
        seq![
            "issue"@,
            "list"@,
            "--state"@,
            "open"@,
            "--limit"@,
            crate::numbers::decimal(limit as nat),
            "--json"@,
            crate::vcs::shell::ISSUE_LIST_FIELDS@,
        ],
        repo,
    );
    assert(args =~= seq![
        "issue"@,
        "list"@,
        "--state"@,
        "open"@,
        "--limit"@,
        crate::numbers::decimal(limit as nat),
        "--json"@,
        "number"@,
        "--repo"@,
        repo,
    ]);
    appended_run_is_last(before.runs(), after.runs(), before.gh_binary@, args, None);
}

/// A label is added where it is to be present, and removed where it is not.
pub proof fn label_is_added_or_removed<R: CommandRunner>(
    before: ShellVcs<R>,
    after: ShellVcs<R>,
    repo: Seq<char>,
    number: u64,
    label: Seq<char>,
    present: bool,
    result: Result<(), VcsErrorView>,
)
    requires
        ShellVcs::<R>::answers(
            before,
            VcsCall::SetLabel { repo, number, label, present, result },
            after,
        ),
    ensures
        present ==> grew_by_one(
            before.runs(),
            after.runs(),
            before.gh_binary@,
            seq![
                "issue"@,
                "edit"@,
                crate::numbers::decimal(number as nat),
                "--add-label"@,
                label,
                "--repo"@,
                repo,
            ],
            None,
        ),
        !present ==> grew_by_one(
            before.runs(),
            after.runs(),
            before.gh_binary@,
            seq![
                "issue"@,
                "edit"@,
                crate::numbers::decimal(number as nat),
                "--remove-label"@,
                label,
                "--repo"@,
                repo,
            ],
            None,
        ),
        result is Ok <==> exited_zero(after.runs().last()),
{
    let flag = if present {
        "--add-label"@
    } else {
        "--remove-label"@
    };
    let digits = crate::numbers::decimal(number as nat);
    let args = crate::vcs::shell::scoped(seq!["issue"@, "edit"@, digits, flag, label], repo);
    assert(args =~= seq!["issue"@, "edit"@, digits, flag, label, "--repo"@, repo]);
    appended_run_is_last(before.runs(), after.runs(), before.gh_binary@, args, None);
}

/// A label is looked for by its name, and created only where none of exactly
/// that name is listed.
pub proof fn label_is_created_where_it_is_missing<R: CommandRunner>(
    before: ShellVcs<R>,
    after: ShellVcs<R>,
    repo: Seq<char>,
    label: Seq<char>,
    result: Result<(), VcsErrorView>,
)
    requires
        ShellVcs::<R>::answers(before, VcsCall::EnsureLabel { repo, label, result }, after),
    ensures
        grew_first_by(
            before.runs(),
            after.runs(),
            before.gh_binary@,
            seq![
                "label"@,
                "list"@,
                "--search"@,
                label,
                "--json"@,
                "name"@,
                "--limit"@,
                "999"@,
                "--repo"@,
                repo,
            ],
            None,
        ),
        put_out(after.runs()[before.runs().len() as int], Seq::empty()) ==> then_ran(
            before.runs(),
            after.runs(),
            before.gh_binary@,
            seq!["label"@, "create"@, label, "--color"@, "ededed"@, "--repo"@, repo],
            None,
        ),
        after.runs().len() > before.runs().len() + 1 ==> then_ran(
            before.runs(),
            after.runs(),
            before.gh_binary@,
            seq!["label"@, "create"@, label, "--color"@, "ededed"@, "--repo"@, repo],
            None,
        ) && (result is Ok <==> exited_zero(after.runs().last())),
        !exited_zero(after.runs()[before.runs().len() as int]) ==> result is Err
            && after.runs().len() == before.runs().len() + 1,
{
    let args = crate::vcs::shell::scoped(
        seq![
            "label"@,
            "list"@,
            "--search"@,
            label,
            "--json"@,
            "name"@,
            "--limit"@,
            "999"@,
        ],
        repo,
    );
    assert(args =~= seq![
        "label"@,
        "list"@,
        "--search"@,
        label,
        "--json"@,
        "name"@,
        "--limit"@,
        "999"@,
        "--repo"@,
        repo,
    ]);
    first_run_is_next(before.runs(), after.runs(), before.gh_binary@, args, None);
    let creating = crate::vcs::shell::scoped(
        seq!["label"@, "create"@, label, "--color"@, "ededed"@],
        repo,
    );
    assert(creating =~= seq![
        "label"@,
        "create"@,
        label,
        "--color"@,
        "ededed"@,
        "--repo"@,
        repo,
    ]);
    if put_out(after.runs()[before.runs().len() as int], Seq::empty()) || after.runs().len()
        > before.runs().len() + 1 {
        second_run_follows(before.runs(), after.runs(), before.gh_binary@, creating, None);
    }
}

/// Whether a listed label already has the name decides whether it is created.
pub proof fn listed_label_is_not_created_again<R: CommandRunner>(
    before: ShellVcs<R>,
    after: ShellVcs<R>,
    repo: Seq<char>,
    label: Seq<char>,
    result: Result<(), VcsErrorView>,
    json: Seq<char>,
    items: Seq<Seq<char>>,
    names: Seq<Seq<char>>,
)
    requires
        ShellVcs::<R>::answers(before, VcsCall::EnsureLabel { repo, label, result }, after),
        exited_zero(after.runs()[before.runs().len() as int]),
        crate::text::trimmed(
            (after.runs()[before.runs().len() as int].result->Ok_0).stdout,
        ).len() > 0,
        crate::json::parsed((after.runs()[before.runs().len() as int].result->Ok_0).stdout) == Ok::<
            Seq<char>,
            Seq<char>,
        >(json),
        crate::json::elements_of(json) == Some(items),
        crate::vcs::payload::decoded_names(items) == Some(names),
    ensures
        names.contains(label) ==> result is Ok && after.runs().len() == before.runs().len() + 1,
        !names.contains(label) ==> after.runs().len() == before.runs().len() + 2,
{
    label_is_created_where_it_is_missing(before, after, repo, label, result);
    if !names.contains(label) {
        second_run_follows(
            before.runs(),
            after.runs(),
            before.gh_binary@,
            crate::vcs::shell::scoped(
                seq!["label"@, "create"@, label, "--color"@, "ededed"@],
                repo,
            ),
            None,
        );
    }
}

/// A comment is posted on its issue, with its body.
pub proof fn comment_is_posted_on_its_issue<R: CommandRunner>(
    before: ShellVcs<R>,
    after: ShellVcs<R>,
    repo: Seq<char>,
    number: u64,
    body: Seq<char>,
    result: Result<(), VcsErrorView>,
)
    requires
        ShellVcs::<R>::answers(before, VcsCall::PostComment { repo, number, body, result }, after),
    ensures
        grew_by_one(
            before.runs(),
            after.runs(),
            before.gh_binary@,
            seq![
                "issue"@,
                "comment"@,
                crate::numbers::decimal(number as nat),
                "--body"@,
                body,
                "--repo"@,
                repo,
            ],
            None,
        ),
        result is Ok <==> exited_zero(after.runs().last()),
{
    let digits = crate::numbers::decimal(number as nat);
    let args = crate::vcs::shell::scoped(
        seq!["issue"@, "comment"@, digits, "--body"@, body],
        repo,
    );
    assert(args =~= seq!["issue"@, "comment"@, digits, "--body"@, body, "--repo"@, repo]);
    appended_run_is_last(before.runs(), after.runs(), before.gh_binary@, args, None);
}

/// A pull request is opened from its branch onto its base, and then read back
/// by its branch.
pub proof fn opened_pull_request_is_read_back<R: CommandRunner>(
    before: ShellVcs<R>,
    after: ShellVcs<R>,
    repo: Seq<char>,
    branch: Seq<char>,
    base: Seq<char>,
    title: Seq<char>,
    body: Seq<char>,
    result: Result<PullRequestRefView, VcsErrorView>,
)
    requires
        ShellVcs::<R>::answers(
            before,
            VcsCall::OpenPr { repo, branch, base, title, body, result },
            after,
        ),
    ensures
        grew_first_by(
            before.runs(),
            after.runs(),
            before.gh_binary@,
            seq![
                "pr"@,
                "create"@,
                "--head"@,
                branch,
                "--base"@,
                base,
                "--title"@,
                title,
                "--body"@,
                body,
                "--repo"@,
                repo,
            ],
            None,
        ),
        exited_zero(after.runs()[before.runs().len() as int]) ==> then_ran(
            before.runs(),
            after.runs(),
            before.gh_binary@,
            seq![
                "pr"@,
                "view"@,
                branch,
                "--json"@,
                "number,url,headRefName"@,
                "--repo"@,
                repo,
            ],
            None,
        ),
        !exited_zero(after.runs()[before.runs().len() as int]) ==> result is Err
            && after.runs().len() == before.runs().len() + 1,
{
    let args = crate::vcs::shell::scoped(
        seq![
            "pr"@,
            "create"@,
            "--head"@,
            branch,
            "--base"@,
            base,
            "--title"@,
            title,
            "--body"@,
            body,
        ],
        repo,
    );
    assert(args =~= seq![
        "pr"@,
        "create"@,
        "--head"@,
        branch,
        "--base"@,
        base,
        "--title"@,
        title,
        "--body"@,
        body,
        "--repo"@,
        repo,
    ]);
    first_run_is_next(before.runs(), after.runs(), before.gh_binary@, args, None);
    if exited_zero(after.runs()[before.runs().len() as int]) {
        let viewing = crate::vcs::shell::scoped(
            seq![
                "pr"@,
                "view"@,
                branch,
                "--json"@,
                crate::vcs::shell::PULL_REQUEST_FIELDS@,
            ],
            repo,
        );
        assert(viewing =~= seq![
            "pr"@,
            "view"@,
            branch,
            "--json"@,
            "number,url,headRefName"@,
            "--repo"@,
            repo,
        ]);
        second_run_follows(before.runs(), after.runs(), before.gh_binary@, viewing, None);
    }
}

/// A pull request is enqueued to merge by itself once it may, squashed.
pub proof fn merge_is_enqueued_squashed<R: CommandRunner>(
    before: ShellVcs<R>,
    after: ShellVcs<R>,
    repo: Seq<char>,
    number: u64,
    result: Result<(), VcsErrorView>,
)
    requires
        ShellVcs::<R>::answers(before, VcsCall::EnqueueMerge { repo, number, result }, after),
    ensures
        grew_by_one(
            before.runs(),
            after.runs(),
            before.gh_binary@,
            seq![
                "pr"@,
                "merge"@,
                crate::numbers::decimal(number as nat),
                "--auto"@,
                "--squash"@,
                "--repo"@,
                repo,
            ],
            None,
        ),
        result is Ok <==> exited_zero(after.runs().last()),
{
    let digits = crate::numbers::decimal(number as nat);
    let args = crate::vcs::shell::scoped(
        seq!["pr"@, "merge"@, digits, "--auto"@, "--squash"@],
        repo,
    );
    assert(args =~= seq!["pr"@, "merge"@, digits, "--auto"@, "--squash"@, "--repo"@, repo]);
    appended_run_is_last(before.runs(), after.runs(), before.gh_binary@, args, None);
}

/// An issue's edges are asked of GitHub. Where it rejects the query, the issue
/// is read in its place.
pub proof fn edges_are_asked_of_github_first<R: CommandRunner>(
    before: ShellVcs<R>,
    after: ShellVcs<R>,
    owner: Seq<char>,
    name: Seq<char>,
    number: u64,
    result: Result<IssueRelationshipsView, VcsErrorView>,
)
    requires
        !owner.contains('/'),
        ShellVcs::<R>::answers(
            before,
            VcsCall::ReadRelationships { repo: owner + seq!['/'] + name, number, result },
            after,
        ),
    ensures
        grew_first_by(
            before.runs(),
            after.runs(),
            before.gh_binary@,
            seq![
                "api"@,
                "graphql"@,
                "-f"@,
                "query="@ + "query($owner: String!, $name: String!, $number: Int!) {
  repository(owner: $owner, name: $name) {
    issue(number: $number) {
      parent { number }
      subIssues(first: 100) { nodes { number } }
      blockedBy(first: 100) { nodes { number } }
      blocking(first: 100) { nodes { number } }
    }
  }
}"@,
                "-f"@,
                "owner="@ + owner,
                "-f"@,
                "name="@ + name,
                "-F"@,
                "number="@ + crate::numbers::decimal(number as nat),
            ],
            None,
        ),
        exited_zero(after.runs()[before.runs().len() as int]) ==> after.runs().len()
            == before.runs().len() + 1,
        after.runs()[before.runs().len() as int].result matches Ok(output) && output.status != 0
            ==> then_ran(
            before.runs(),
            after.runs(),
            before.gh_binary@,
            seq![
                "issue"@,
                "view"@,
                crate::numbers::decimal(number as nat),
                "--json"@,
                "number,title,body,labels,state"@,
                "--repo"@,
                owner + seq!['/'] + name,
            ],
            None,
        ),
        after.runs()[before.runs().len() as int].result is Err ==> result is Err
            && after.runs().len() == before.runs().len() + 1,
{
    let repo = owner + seq!['/'] + name;
    slug_splits(owner, name);
    first_run_is_next(
        before.runs(),
        after.runs(),
        before.gh_binary@,
        crate::vcs::shell::numbered_graphql_args(
            crate::vcs::shell::RELATIONSHIPS_QUERY@,
            repo,
            number,
        ),
        None,
    );
    if after.runs()[before.runs().len() as int].result is Ok && !exited_zero(
        after.runs()[before.runs().len() as int],
    ) {
        reading_issue_is_run(repo, number);
        second_run_follows(
            before.runs(),
            after.runs(),
            before.gh_binary@,
            reading_issue(repo, number),
            None,
        );
    }
}

/// Where GitHub rejects the query for an issue's edges, what its body depends
/// on is all that blocks it, and there are no other edges.
pub proof fn body_names_the_edges_otherwise<R: CommandRunner>(
    before: ShellVcs<R>,
    after: ShellVcs<R>,
    repo: Seq<char>,
    number: u64,
    result: Result<IssueRelationshipsView, VcsErrorView>,
    issue: IssueRefView,
)
    requires
        ShellVcs::<R>::answers(before, VcsCall::ReadRelationships { repo, number, result }, after),
        after.runs()[before.runs().len() as int].result is Ok,
        !exited_zero(after.runs()[before.runs().len() as int]),
        crate::vcs::shell::issue_of_run(after.runs().last()) == Ok::<IssueRefView, VcsErrorView>(
            issue,
        ),
    ensures
        result matches Ok(edges) && edges.blocked_by == crate::vcs::depends::body_dependencies(
            issue.body,
        ) && edges.blocking.len() == 0 && edges.parent is None && edges.sub_issues.len() == 0,
{
}

/// The pull requests that would close an issue are asked of GitHub, closed ones
/// included.
pub proof fn linked_pull_requests_are_asked_of_github<R: CommandRunner>(
    before: ShellVcs<R>,
    after: ShellVcs<R>,
    owner: Seq<char>,
    name: Seq<char>,
    number: u64,
    result: Result<Seq<PullRequestRefView>, VcsErrorView>,
)
    requires
        !owner.contains('/'),
        ShellVcs::<R>::answers(
            before,
            VcsCall::FindLinkedPullRequests { repo: owner + seq!['/'] + name, number, result },
            after,
        ),
    ensures
        grew_by_one(
            before.runs(),
            after.runs(),
            before.gh_binary@,
            seq![
                "api"@,
                "graphql"@,
                "-f"@,
                "query="@ + "query($owner: String!, $name: String!, $number: Int!) {
  repository(owner: $owner, name: $name) {
    issue(number: $number) {
      closedByPullRequestsReferences(first: 10, includeClosedPrs: true) {
        nodes { number url headRefName }
      }
    }
  }
}"@,
                "-f"@,
                "owner="@ + owner,
                "-f"@,
                "name="@ + name,
                "-F"@,
                "number="@ + crate::numbers::decimal(number as nat),
            ],
            None,
        ),
        result is Ok ==> exited_zero(after.runs().last()),
{
    slug_splits(owner, name);
    appended_run_is_last(
        before.runs(),
        after.runs(),
        before.gh_binary@,
        crate::vcs::shell::numbered_graphql_args(
            crate::vcs::shell::LINKED_PULL_REQUESTS_QUERY@,
            owner + seq!['/'] + name,
            number,
        ),
        None,
    );
}

/// A pull request's status is asked of GitHub: its state, its place in the
/// merge queue, and what the checks of its latest commit come to.
pub proof fn status_is_asked_of_github<R: CommandRunner>(
    before: ShellVcs<R>,
    after: ShellVcs<R>,
    owner: Seq<char>,
    name: Seq<char>,
    number: u64,
    result: Result<crate::vcs::PullRequestStatus, VcsErrorView>,
)
    requires
        !owner.contains('/'),
        ShellVcs::<R>::answers(
            before,
            VcsCall::ReadPullRequestStatus { repo: owner + seq!['/'] + name, number, result },
            after,
        ),
    ensures
        grew_by_one(
            before.runs(),
            after.runs(),
            before.gh_binary@,
            seq![
                "api"@,
                "graphql"@,
                "-f"@,
                "query="@ + "query($owner: String!, $name: String!, $number: Int!) {
  repository(owner: $owner, name: $name) {
    pullRequest(number: $number) {
      state
      mergeQueueEntry { state }
      commits(last: 1) {
        nodes { commit { statusCheckRollup { state } } }
      }
    }
  }
}"@,
                "-f"@,
                "owner="@ + owner,
                "-f"@,
                "name="@ + name,
                "-F"@,
                "number="@ + crate::numbers::decimal(number as nat),
            ],
            None,
        ),
        result matches Ok(status) ==> exited_zero(after.runs().last()) && status.number == number,
{
    slug_splits(owner, name);
    appended_run_is_last(
        before.runs(),
        after.runs(),
        before.gh_binary@,
        crate::vcs::shell::numbered_graphql_args(
            crate::vcs::shell::PULL_REQUEST_STATUS_QUERY@,
            owner + seq!['/'] + name,
            number,
        ),
        None,
    );
}

/// A command that exits with a failure is reported with its whole command line,
/// its status, and what it had to say without the white space around it.
pub proof fn failure_keeps_the_command_line(run: Run)
    requires
        run.result matches Ok(output) && output.status != 0,
    ensures
        crate::vcs::shell::printed(run) matches Err(error) && error == (
            VcsErrorView::CommandFailed {
                command: crate::vcs::runner::line_of(run.program, run.args),
                status: (run.result->Ok_0).status,
                stderr: crate::text::trimmed((run.result->Ok_0).stderr),
            }
        ),
{
}

/// A command line is the program and every argument, each after one space.
pub proof fn command_line_lists_every_argument(
    program: Seq<char>,
    args: Seq<Seq<char>>,
    arg: Seq<char>,
)
    ensures
        crate::vcs::runner::line_of(program, Seq::empty()) == program,
        crate::vcs::runner::line_of(program, args.push(arg)) == crate::vcs::runner::line_of(
            program,
            args,
        ) + seq![' '] + arg,
{
    reveal_strlit(" ");
    assert(" "@ =~= seq![' ']);
    assert(args.push(arg).drop_last() =~= args);
}

/// What a run printed is read as JSON, and what that JSON decodes to is the
/// answer; text that is no JSON, and JSON of another shape, are errors.
pub proof fn output_is_what_it_decodes_to<T>(
    run: Run,
    text: Seq<char>,
    json: Seq<char>,
    decode: spec_fn(Seq<char>) -> Option<T>,
)
    requires
        put_out(run, text),
    ensures
        crate::json::parsed(text) == Ok::<Seq<char>, Seq<char>>(json) && decode(json) is Some
            ==> crate::vcs::shell::decoded_run(run, decode) == Ok::<T, VcsErrorView>(
            decode(json)->0,
        ),
        crate::json::parsed(text) == Ok::<Seq<char>, Seq<char>>(json) && decode(json) is None
            ==> crate::vcs::shell::decoded_run(run, decode) == Err::<T, VcsErrorView>(
            VcsErrorView::InvalidJson {
                command: crate::vcs::runner::line_of(run.program, run.args),
                source: crate::failure::JsonErrorView::Shape,
            },
        ),
        crate::json::parsed(text) matches Err(message) ==> crate::vcs::shell::decoded_run(
            run,
            decode,
        ) == Err::<T, VcsErrorView>(
            VcsErrorView::InvalidJson {
                command: crate::vcs::runner::line_of(run.program, run.args),
                source: crate::failure::JsonErrorView::Syntax(message),
            },
        ),
{
}

/// Reading an issue gives what its payload decodes to.
pub proof fn read_issue_is_what_was_printed<R: CommandRunner>(
    before: ShellVcs<R>,
    after: ShellVcs<R>,
    repo: Seq<char>,
    number: u64,
    result: Result<IssueRefView, VcsErrorView>,
    text: Seq<char>,
    json: Seq<char>,
)
    requires
        ShellVcs::<R>::answers(before, VcsCall::ReadIssue { repo, number, result }, after),
        put_out(after.runs().last(), text),
        crate::json::parsed(text) == Ok::<Seq<char>, Seq<char>>(json),
    ensures
        match crate::vcs::payload::decoded_issue(json) {
            Some(issue) => result == Ok::<IssueRefView, VcsErrorView>(issue),
            None => result is Err,
        },
{
}

/// Listing open issues gives the numbers that were printed, in order.
pub proof fn listed_issues_are_what_was_printed<R: CommandRunner>(
    before: ShellVcs<R>,
    after: ShellVcs<R>,
    repo: Seq<char>,
    limit: u32,
    result: Result<Seq<u64>, VcsErrorView>,
    text: Seq<char>,
    json: Seq<char>,
    items: Seq<Seq<char>>,
)
    requires
        ShellVcs::<R>::answers(before, VcsCall::ListOpenIssues { repo, limit, result }, after),
        put_out(after.runs().last(), text),
        crate::text::trimmed(text).len() > 0,
        crate::json::parsed(text) == Ok::<Seq<char>, Seq<char>>(json),
        crate::json::elements_of(json) == Some(items),
    ensures
        match crate::vcs::payload::decoded_numbers(items) {
            Some(numbers) => result == Ok::<Seq<u64>, VcsErrorView>(numbers),
            None => result is Err,
        },
{
}

/// The edges of an issue, and the pull requests that would close it, are what
/// their payloads decode to.
pub proof fn edges_and_links_are_what_was_printed<R: CommandRunner>(
    before: ShellVcs<R>,
    after: ShellVcs<R>,
    repo: Seq<char>,
    number: u64,
    edges: Result<IssueRelationshipsView, VcsErrorView>,
    links: Result<Seq<PullRequestRefView>, VcsErrorView>,
    text: Seq<char>,
    json: Seq<char>,
)
    requires
        crate::json::parsed(text) == Ok::<Seq<char>, Seq<char>>(json),
    ensures
        ShellVcs::<R>::answers(
            before,
            VcsCall::ReadRelationships { repo, number, result: edges },
            after,
        ) && put_out(after.runs()[before.runs().len() as int], text) ==> match
            crate::vcs::payload::decoded_relationships(json) {
            Some(found) => edges == Ok::<IssueRelationshipsView, VcsErrorView>(found),
            None => edges is Err,
        },
        ShellVcs::<R>::answers(
            before,
            VcsCall::FindLinkedPullRequests { repo, number, result: links },
            after,
        ) && put_out(after.runs().last(), text) ==> match crate::vcs::payload::decoded_linked(
            json,
        ) {
            Some(found) => links == Ok::<Seq<PullRequestRefView>, VcsErrorView>(found),
            None => links is Err,
        },
{
}

/// A merge queue is there exactly where the answer decodes to one.
pub proof fn merge_queue_is_what_was_printed<R: CommandRunner>(
    before: ShellVcs<R>,
    after: ShellVcs<R>,
    repo: Seq<char>,
    default_branch: Seq<char>,
    result: Result<bool, VcsErrorView>,
    text: Seq<char>,
    json: Seq<char>,
)
    requires
        ShellVcs::<R>::answers(
            before,
            VcsCall::MergeQueueEnabled { repo, default_branch, result },
            after,
        ),
        put_out(after.runs().last(), text),
        crate::json::parsed(text) == Ok::<Seq<char>, Seq<char>>(json),
    ensures
        result == Ok::<bool, VcsErrorView>(
            crate::vcs::payload::decoded_merge_queue(json) == Some(true),
        ),
{
}

/// A pull request that was opened is what its payload decodes to.
pub proof fn opened_pull_request_is_what_was_printed<R: CommandRunner>(
    before: ShellVcs<R>,
    after: ShellVcs<R>,
    repo: Seq<char>,
    branch: Seq<char>,
    base: Seq<char>,
    title: Seq<char>,
    body: Seq<char>,
    result: Result<PullRequestRefView, VcsErrorView>,
    text: Seq<char>,
    json: Seq<char>,
)
    requires
        ShellVcs::<R>::answers(
            before,
            VcsCall::OpenPr { repo, branch, base, title, body, result },
            after,
        ),
        exited_zero(after.runs()[before.runs().len() as int]),
        put_out(after.runs().last(), text),
        crate::json::parsed(text) == Ok::<Seq<char>, Seq<char>>(json),
    ensures
        match crate::vcs::payload::decoded_pull_request(json) {
            Some(pr) => result == Ok::<PullRequestRefView, VcsErrorView>(pr),
            None => result is Err,
        },
{
}

/// A pull request's status is what its payload says of it; one that was not
/// found is an error that names it.
pub proof fn status_is_what_was_printed<R: CommandRunner>(
    before: ShellVcs<R>,
    after: ShellVcs<R>,
    repo: Seq<char>,
    number: u64,
    result: Result<crate::vcs::PullRequestStatus, VcsErrorView>,
    text: Seq<char>,
    json: Seq<char>,
)
    requires
        ShellVcs::<R>::answers(
            before,
            VcsCall::ReadPullRequestStatus { repo, number, result },
            after,
        ),
        put_out(after.runs().last(), text),
        crate::json::parsed(text) == Ok::<Seq<char>, Seq<char>>(json),
    ensures
        match crate::vcs::payload::decoded_status(json) {
            Some(Some(signals)) => result matches Ok(status) && status.number == number
                && status.state == signals.state && status.ci == signals.ci
                && status.in_merge_queue == signals.in_merge_queue,
            Some(None) => result matches Err(VcsErrorView::CommandFailed { status, stderr, .. })
                && status != 0 && stderr == "no such pull request "@ + repo + "#"@
                + crate::numbers::decimal(number as nat),
            None => result is Err,
        },
{
}

/// A list command that prints nothing but white space lists nothing, and one
/// that prints a list is read as that list; anything else is an error.
pub proof fn blank_output_is_an_empty_list<T>(
    run: Run,
    text: Seq<char>,
    json: Seq<char>,
    decode: spec_fn(Seq<Seq<char>>) -> Option<Seq<T>>,
)
    requires
        put_out(run, text),
    ensures
        (forall|i: int| 0 <= i < text.len() ==> crate::text::is_white_space(#[trigger] text[i]))
            ==> crate::vcs::shell::decoded_list_run(run, decode) == Ok::<Seq<T>, VcsErrorView>(
            Seq::empty(),
        ),
        (exists|i: int| 0 <= i < text.len() && !crate::text::is_white_space(#[trigger] text[i]))
            && crate::json::parsed(text) == Ok::<Seq<char>, Seq<char>>(json) ==> (
        match crate::json::elements_of(json) {
            Some(items) => match decode(items) {
                Some(listed) => crate::vcs::shell::decoded_list_run(run, decode) == Ok::<
                    Seq<T>,
                    VcsErrorView,
                >(listed),
                None => crate::vcs::shell::decoded_list_run(run, decode) is Err,
            },
            None => crate::vcs::shell::decoded_list_run(run, decode) is Err,
        }),
        (exists|i: int| 0 <= i < text.len() && !crate::text::is_white_space(#[trigger] text[i]))
            && crate::json::parsed(text) is Err ==> crate::vcs::shell::decoded_list_run(
            run,
            decode,
        ) is Err,
{
    let body = crate::text::trimmed(text);
    crate::text::trimming_cuts_off_white_space_alone(text);
    let (front, back) = choose|front: Seq<char>, back: Seq<char>|
        {
            &&& #[trigger] (front + body + back) == text
            &&& forall|i: int|
                0 <= i < front.len() ==> crate::text::is_white_space(#[trigger] front[i])
            &&& forall|i: int|
                0 <= i < back.len() ==> crate::text::is_white_space(#[trigger] back[i])
        };
    if body.len() > 0 {
        assert(text[front.len() as int] == body[0]);
    } else {
        assert forall|i: int| 0 <= i < text.len() implies crate::text::is_white_space(
            #[trigger] text[i],
        ) by {
            if i < front.len() {
                assert(text[i] == front[i]);
            } else {
                assert(text[i] == back[i - front.len()]);
            }
        }
    }
}

/// A command that did not run fails as it failed to run.
pub proof fn failure_to_run_is_passed_on<T>(
    run: Run,
    error: VcsErrorView,
    decode: spec_fn(Seq<char>) -> Option<T>,
    decode_list: spec_fn(Seq<Seq<char>>) -> Option<Seq<T>>,
)
    requires
        run.result == Err::<crate::vcs::runner::CommandOutputView, VcsErrorView>(error),
    ensures
        crate::vcs::shell::printed(run) == Err::<Seq<char>, VcsErrorView>(error),
        crate::vcs::shell::succeeded(run) == Err::<(), VcsErrorView>(error),
        crate::vcs::shell::decoded_run(run, decode) == Err::<T, VcsErrorView>(error),
        crate::vcs::shell::decoded_list_run(run, decode_list) == Err::<Seq<T>, VcsErrorView>(
            error,
        ),
        crate::vcs::shell::queue_of_run(run) == Err::<bool, VcsErrorView>(error),
        crate::vcs::shell::branch_of_run(run) == Err::<Seq<char>, VcsErrorView>(error),
{
}

/// How a run failed that did not exit zero: it did not start, or it exited with
/// another code and said why.
pub open spec fn failure_of(run: Run) -> VcsErrorView {
    match run.result {
        Err(error) => error,
        Ok(output) => VcsErrorView::CommandFailed {
            command: crate::vcs::runner::line_of(run.program, run.args),
            status: output.status,
            stderr: crate::text::trimmed(output.stderr),
        },
    }
}

/// A change that fails is answered with the failure of the command that failed:
/// the last one that was run.
pub proof fn a_failed_change_tells_of_its_command<R: CommandRunner>(
    before: ShellVcs<R>,
    call: VcsCall,
    after: ShellVcs<R>,
    done: Result<(), VcsErrorView>,
    added: Result<WorktreeView, VcsErrorView>,
)
    requires
        ShellVcs::<R>::answers(before, call, after),
        !exited_zero(after.runs().last()),
        match call {
            VcsCall::Commit { result, .. } => result == done,
            VcsCall::Push { result, .. } => result == done,
            VcsCall::SetLabel { result, .. } => result == done,
            VcsCall::PostComment { result, .. } => result == done,
            VcsCall::EnqueueMerge { result, .. } => result == done,
            VcsCall::WorktreeRemove { result, .. } => result == done && after.runs().len()
                == before.runs().len() + 1,
            VcsCall::WorktreeAdd { result, .. } => result == added && done == Err::<
                (),
                VcsErrorView,
            >(added->Err_0),
            _ => false,
        },
    ensures
        done == Err::<(), VcsErrorView>(failure_of(after.runs().last())),
{
}

/// A question that fails is answered with the failure of the command that was
/// asked last.
pub proof fn a_failed_question_tells_of_its_command<R: CommandRunner>(
    before: ShellVcs<R>,
    after: ShellVcs<R>,
    repo: Seq<char>,
    number: u64,
    dir: Seq<char>,
    title: Seq<char>,
    body: Seq<char>,
    limit: u32,
    issue: Result<IssueRefView, VcsErrorView>,
    branch: Result<Seq<char>, VcsErrorView>,
    numbers: Result<Seq<u64>, VcsErrorView>,
    status: Result<crate::vcs::PullRequestStatus, VcsErrorView>,
)
    requires
        !exited_zero(after.runs().last()),
    ensures
        ShellVcs::<R>::answers(before, VcsCall::ReadIssue { repo, number, result: issue }, after)
            ==> issue == Err::<IssueRefView, VcsErrorView>(failure_of(after.runs().last())),
        ShellVcs::<R>::answers(
            before,
            VcsCall::CreateIssue { repo, title, body, result: issue },
            after,
        ) ==> issue == Err::<IssueRefView, VcsErrorView>(failure_of(after.runs().last())),
        ShellVcs::<R>::answers(
            before,
            VcsCall::DetectDefaultBranch { repo_dir: dir, result: branch },
            after,
        ) ==> branch == Err::<Seq<char>, VcsErrorView>(failure_of(after.runs().last())),
        ShellVcs::<R>::answers(
            before,
            VcsCall::DetectRepoSlug { repo_dir: dir, result: branch },
            after,
        ) ==> branch == Err::<Seq<char>, VcsErrorView>(failure_of(after.runs().last())),
        ShellVcs::<R>::answers(
            before,
            VcsCall::ListOpenIssues { repo, limit, result: numbers },
            after,
        ) ==> numbers == Err::<Seq<u64>, VcsErrorView>(failure_of(after.runs().last())),
        ShellVcs::<R>::answers(
            before,
            VcsCall::ReadPullRequestStatus { repo, number, result: status },
            after,
        ) ==> status == Err::<crate::vcs::PullRequestStatus, VcsErrorView>(
            failure_of(after.runs().last()),
        ),
{
}

/// An issue whose address does not end in a number is not read back: what was
/// printed is told as it is.
pub proof fn an_unexpected_address_is_told<R: CommandRunner>(
    before: ShellVcs<R>,
    after: ShellVcs<R>,
    repo: Seq<char>,
    title: Seq<char>,
    body: Seq<char>,
    result: Result<IssueRefView, VcsErrorView>,
    text: Seq<char>,
    json: Seq<char>,
)
    requires
        ShellVcs::<R>::answers(before, VcsCall::CreateIssue { repo, title, body, result }, after),
        put_out(after.runs()[before.runs().len() as int], text),
    ensures
        crate::vcs::shell::number_in_url(text) is None ==> after.runs().len() == before.runs().len()
            + 1 && result == Err::<IssueRefView, VcsErrorView>(
            VcsErrorView::UnexpectedOutput {
                command: crate::vcs::runner::line_of(
                    after.runs().last().program,
                    after.runs().last().args,
                ),
                output: text,
            },
        ),
        crate::vcs::shell::number_in_url(text) is Some && exited_zero(after.runs().last())
            && crate::json::parsed((after.runs().last().result->Ok_0).stdout) == Ok::<
            Seq<char>,
            Seq<char>,
        >(json) ==> match crate::vcs::payload::decoded_issue(json) {
            Some(issue) => result == Ok::<IssueRefView, VcsErrorView>(issue),
            None => result is Err,
        },
{
}

} // verus!
