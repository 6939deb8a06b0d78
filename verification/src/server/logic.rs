//! The daemon's tools, as functions over the [`Vcs`] seam: everything about
//! them that can be decided or fetched without a connection.

use std::collections::HashMap;

use vstd::prelude::*;

use crate::board::{build_backlog, build_board, issue_url, BacklogRow, BoardRow};
use crate::config::{
    ConfigError, ConfigErrorView, GlobalConfig, ProjectConfig, ProjectConfigView, ProjectPointer,
    ProjectPointerView,
};
use crate::failure::{IoError, IoErrorView};
use crate::ordered::{insert_ascending, sort_numbers};
use crate::registry::find_project_containing;
use crate::state::drift::{
    find_ambiguous_labels, find_closed_or_missing_dependencies, find_dependency_cycles,
    find_merged_pr_with_open_issue, find_multiple_open_linked_pull_requests, find_stale_claims,
    DriftFinding, DriftFindingView, IssueAndLinkedPullRequests,
};
use crate::state::{
    read_issue_state, read_issue_state_with_labels, Claim, ClaimView, IssueSnapshot,
    IssueSnapshotView,
};
use crate::text::starts_with;
use crate::time::{Duration, Timestamp};
use crate::vcs::{
    IssueRelationships, IssueState, PullRequestState, Vcs, VcsCall, VcsError, VcsErrorView,
};
use crate::workflow::WorkflowLabels;

verus! {

/// Errors that a tool call can fail with.
///
/// They are told apart by whose mistake it is: a bad argument, a connection
/// used out of order, or something underneath that failed.
#[derive(Debug)]
#[non_exhaustive]
pub enum ToolError {
    /// A coordinator registered without saying which directory it is in.
    CwdRequired,
    /// The directory is not an absolute path.
    CwdNotAbsolute {
        /// The path that the client sent.
        cwd: String,
    },
    /// The directory is not inside any registered project.
    UnregisteredDirectory {
        /// The directory that the client sent.
        cwd: String,
    },
    /// A spawn token was presented; registering by one is not supported.
    SpawnTokenUnsupported,
    /// A tool was called before the connection was bound to a project.
    NotRegistered,
    /// The connection is bound to another project.
    AlreadyBound {
        /// The project that the connection is bound to.
        bound: String,
        /// The project that was asked for.
        requested: String,
    },
    /// The board was asked for with a filter.
    BoardFilterUnsupported,
    /// The backlog was asked for with a filter.
    BacklogFilterUnsupported,
    /// The project's workflow file could not be read.
    ReadWorkflow {
        /// The workflow file.
        path: String,
        /// The underlying I/O failure.
        source: IoError,
    },
    /// The project's workflow file does not parse.
    Workflow {
        /// The workflow file.
        path: String,
        /// The parser's own description.
        message: String,
    },
    /// The project's own config could not be read.
    Config(ConfigError),
    /// A `git`/`gh` call failed.
    Vcs(VcsError),
    /// A worker task failed.
    Internal(String),
}

/// The contents of a [`ToolError`].
pub enum ToolErrorView {
    CwdRequired,
    CwdNotAbsolute { cwd: Seq<char> },
    UnregisteredDirectory { cwd: Seq<char> },
    SpawnTokenUnsupported,
    NotRegistered,
    AlreadyBound { bound: Seq<char>, requested: Seq<char> },
    BoardFilterUnsupported,
    BacklogFilterUnsupported,
    ReadWorkflow { path: Seq<char>, source: IoErrorView },
    Workflow { path: Seq<char>, message: Seq<char> },
    Config(ConfigErrorView),
    Vcs(VcsErrorView),
    Internal(Seq<char>),
}

impl View for ToolError {
    type V = ToolErrorView;

    open spec fn view(&self) -> ToolErrorView {
        match *self {
            ToolError::CwdRequired => ToolErrorView::CwdRequired,
            ToolError::CwdNotAbsolute { cwd } => ToolErrorView::CwdNotAbsolute { cwd: cwd@ },
            ToolError::UnregisteredDirectory { cwd } => ToolErrorView::UnregisteredDirectory {
                cwd: cwd@,
            },
            ToolError::SpawnTokenUnsupported => ToolErrorView::SpawnTokenUnsupported,
            ToolError::NotRegistered => ToolErrorView::NotRegistered,
            ToolError::AlreadyBound { bound, requested } => ToolErrorView::AlreadyBound {
                bound: bound@,
                requested: requested@,
            },
            ToolError::BoardFilterUnsupported => ToolErrorView::BoardFilterUnsupported,
            ToolError::BacklogFilterUnsupported => ToolErrorView::BacklogFilterUnsupported,
            ToolError::ReadWorkflow { path, source } => ToolErrorView::ReadWorkflow {
                path: path@,
                source: source@,
            },
            ToolError::Workflow { path, message } => ToolErrorView::Workflow {
                path: path@,
                message: message@,
            },
            ToolError::Config(error) => ToolErrorView::Config(error@),
            ToolError::Vcs(error) => ToolErrorView::Vcs(error@),
            ToolError::Internal(message) => ToolErrorView::Internal(message@),
        }
    }
}

/// Whether `outcome` is what looking for the project of the directory `cwd`
/// among `projects` comes to.
pub open spec fn is_located_in(
    projects: Seq<ProjectPointerView>,
    cwd: Seq<char>,
    outcome: Result<ProjectPointerView, ToolErrorView>,
) -> bool {
    if !"/"@.is_prefix_of(cwd) {
        outcome == Err::<ProjectPointerView, ToolErrorView>(ToolErrorView::CwdNotAbsolute { cwd })
    } else {
        match outcome {
            Ok(pointer) => exists|at: int| #[trigger]
                crate::registry::is_first_containing(projects, cwd, at) && projects[at] == pointer,
            Err(error) => error == (ToolErrorView::UnregisteredDirectory { cwd }) && forall|i: int|
                0 <= i < projects.len() ==> !crate::paths::is_within(
                    cwd,
                    (#[trigger] projects[i]).project_dir,
                ),
        }
    }
}

/// Finds the registered project that the directory `cwd` is in.
///
/// A relative directory is rejected, not resolved: the daemon's own directory
/// has nothing to do with the client's.
pub fn locate_cwd(global: &GlobalConfig, cwd: &str) -> (found: Result<ProjectPointer, ToolError>)
    ensures
        is_located_in(
            crate::registry::pointers(global.projects@),
            cwd@,
            match found {
                Ok(pointer) => Ok(pointer@),
                Err(error) => Err(error@),
            },
        ),
        match found {
            Ok(pointer) => {
                &&& "/"@.is_prefix_of(cwd@)
                &&& exists|at: int| #[trigger]
                    crate::registry::is_first_containing(
                        crate::registry::pointers(global.projects@),
                        cwd@,
                        at,
                    ) && global.projects@[at]@ == pointer@
            },
            Err(error) => if !"/"@.is_prefix_of(cwd@) {
                error@ == (ToolErrorView::CwdNotAbsolute { cwd: cwd@ })
            } else {
                &&& error@ == (ToolErrorView::UnregisteredDirectory { cwd: cwd@ })
                &&& forall|i: int|
                    0 <= i < global.projects@.len() ==> !crate::paths::is_within(
                        cwd@,
                        (#[trigger] global.projects@[i])@.project_dir,
                    )
            },
        },
{
    if !starts_with(cwd, "/") {
        return Err(ToolError::CwdNotAbsolute { cwd: cwd.to_string() });
    }
    match find_project_containing(global, cwd) {
        Some(pointer) => Ok(pointer.clone()),
        None => Err(ToolError::UnregisteredDirectory { cwd: cwd.to_string() }),
    }
}

/// Resolves a directory to the registered project that contains it and that
/// project's settings, given the outcome of reading them.
pub fn resolve_project(
    global: &GlobalConfig,
    cwd: &str,
    loaded: Result<ProjectConfig, ConfigError>,
) -> (resolved: Result<(ProjectPointer, ProjectConfig), ToolError>)
    ensures
        match resolved {
            Ok((pointer, config)) => {
                &&& "/"@.is_prefix_of(cwd@)
                &&& exists|at: int| #[trigger]
                    crate::registry::is_first_containing(
                        crate::registry::pointers(global.projects@),
                        cwd@,
                        at,
                    ) && global.projects@[at]@ == pointer@
                &&& crate::init::loaded_view(loaded) == Ok::<ProjectConfigView, ConfigErrorView>(
                    config@,
                )
            },
            Err(error) => if !"/"@.is_prefix_of(cwd@) {
                error@ == (ToolErrorView::CwdNotAbsolute { cwd: cwd@ })
            } else if forall|i: int|
                0 <= i < global.projects@.len() ==> !crate::paths::is_within(
                    cwd@,
                    (#[trigger] global.projects@[i])@.project_dir,
                ) {
                error@ == (ToolErrorView::UnregisteredDirectory { cwd: cwd@ })
            } else {
                loaded is Err && error@ == ToolErrorView::Config(loaded->Err_0@)
            },
        },
{
    let pointer = match locate_cwd(global, cwd) {
        Ok(pointer) => pointer,
        Err(error) => return Err(error),
    };
    proof {
        let at = choose|at: int| #[trigger]
            crate::registry::is_first_containing(
                crate::registry::pointers(global.projects@),
                cwd@,
                at,
            ) && global.projects@[at]@ == pointer@;
        assert(crate::registry::pointers(global.projects@)[at] == global.projects@[at]@);
    }
    match loaded {
        Ok(config) => Ok((pointer, config)),
        Err(error) => Err(ToolError::Config(error)),
    }
}

/// One issue that was read: the number asked for, its raw labels, and its
/// derived state.
pub type ReadIssue = (u64, Vec<String>, IssueSnapshot);

/// The contents of a [`ReadIssue`].
pub open spec fn read_view(issue: ReadIssue) -> (u64, Seq<Seq<char>>, IssueSnapshotView) {
    (issue.0, crate::text::texts(issue.1@), issue.2@)
}

/// The contents of several [`ReadIssue`]s.
pub open spec fn reads_view(issues: Seq<ReadIssue>) -> Seq<
    (u64, Seq<Seq<char>>, IssueSnapshotView),
> {
    issues.map_values(|issue: ReadIssue| read_view(issue))
}

/// What reading each of several issues in turn comes to, given the calls from
/// position `from` on: the issues or the first error, and the position after
/// the last call made. `None` where those are other calls.
pub open spec fn issues_run(calls: Seq<VcsCall>, from: int, repo: Seq<char>, numbers: Seq<u64>) -> Option<
    (Result<Seq<(u64, Seq<Seq<char>>, IssueSnapshotView)>, VcsErrorView>, int),
>
    decreases numbers.len(),
{
    if numbers.len() == 0 {
        Some((Ok(Seq::empty()), from))
    } else {
        match issues_run(calls, from, repo, numbers.drop_last()) {
            None => None,
            Some((Err(error), end)) => Some((Err(error), end)),
            Some((Ok(issues), end)) => match crate::state::issue_state_run(
                calls,
                end,
                repo,
                numbers.last(),
            ) {
                None => None,
                Some((Err(error), end)) => Some((Err(error), end)),
                Some((Ok((labels, snapshot)), end)) => Some(
                    (Ok(issues.push((numbers.last(), labels, snapshot))), end),
                ),
            },
        }
    }
}

/// Calls made later do not change what earlier calls came to.
proof fn issues_run_extends(
    calls: Seq<VcsCall>,
    more: Seq<VcsCall>,
    from: int,
    repo: Seq<char>,
    numbers: Seq<u64>,
)
    requires
        calls.is_prefix_of(more),
        0 <= from <= calls.len(),
        issues_run(calls, from, repo, numbers) is Some,
    ensures
        issues_run(more, from, repo, numbers) == issues_run(calls, from, repo, numbers),
        from <= (issues_run(calls, from, repo, numbers)->0).1 <= calls.len(),
    decreases numbers.len(),
{
    if numbers.len() > 0 {
        issues_run_extends(calls, more, from, repo, numbers.drop_last());
        if let Some((Ok(_), end)) = issues_run(calls, from, repo, numbers.drop_last()) {
            crate::state::issue_state_run_extends(calls, more, end, repo, numbers.last());
        }
    }
}

/// An issue that cannot be read decides, whatever issues follow.
proof fn issues_fail_early(
    calls: Seq<VcsCall>,
    from: int,
    repo: Seq<char>,
    numbers: Seq<u64>,
    upto: int,
)
    requires
        0 <= upto <= numbers.len(),
        issues_run(calls, from, repo, numbers.take(upto)) matches Some((Err(_), _)),
    ensures
        issues_run(calls, from, repo, numbers) == issues_run(
            calls,
            from,
            repo,
            numbers.take(upto),
        ),
    decreases numbers.len(),
{
    if upto < numbers.len() {
        assert(numbers.drop_last().take(upto) =~= numbers.take(upto));
        issues_fail_early(calls, from, repo, numbers.drop_last(), upto);
    } else {
        assert(numbers.take(upto) =~= numbers);
    }
}

/// The contents of several issues that were read, or of the error in their
/// place.
pub open spec fn reads_outcome(result: Result<Vec<ReadIssue>, VcsError>) -> Result<
    Seq<(u64, Seq<Seq<char>>, IssueSnapshotView)>,
    VcsErrorView,
> {
    match result {
        Ok(issues) => Ok(reads_view(issues@)),
        Err(error) => Err(error@),
    }
}

/// Reads each of several issues in turn, up to the first failure.
pub fn read_issues<V: Vcs>(vcs: &mut V, repo: &str, numbers: &Vec<u64>) -> (result: Result<
    Vec<ReadIssue>,
    VcsError,
>)
    ensures
        crate::vcs::leads(*old(vcs), *final(vcs)),
        old(vcs).history().is_prefix_of(final(vcs).history()),
        issues_run(final(vcs).history(), old(vcs).history().len() as int, repo@, numbers@) == Some(
            (reads_outcome(result), final(vcs).history().len() as int),
        ),
{
    let ghost entry = *vcs;
    let ghost start = vcs.history();
    let ghost from = start.len() as int;
    let mut issues: Vec<ReadIssue> = Vec::new();
    let mut i: usize = 0;
    proof {
        crate::vcs::leads_nowhere(entry);
        assert(start.subrange(0, from) =~= start);
        assert(reads_view(issues@) =~= Seq::empty());
        assert(numbers@.take(0) =~= Seq::<u64>::empty());
    }
    while i < numbers.len()
        invariant
            i <= numbers@.len(),
            start == old(vcs).history(),
            from == start.len(),
            start.is_prefix_of(vcs.history()),
            entry == *old(vcs),
            crate::vcs::leads(entry, *vcs),
            issues_run(vcs.history(), from, repo@, numbers@.take(i as int)) == Some(
                (
                    Ok::<Seq<(u64, Seq<Seq<char>>, IssueSnapshotView)>, VcsErrorView>(
                        reads_view(issues@),
                    ),
                    vcs.history().len() as int,
                ),
            ),
        decreases numbers@.len() - i,
    {
        let number: u64 = numbers[i];
        let ghost before = vcs.history();
        let ghost read = issues@;
        let ghost longer = numbers@.take(i + 1);
        let ghost at = *vcs;
        let result = read_issue_state_with_labels(vcs, repo, number);
        proof {
            crate::vcs::leads_further(entry, at, *vcs);
            assert(longer.drop_last() =~= numbers@.take(i as int));
            assert(longer.last() == number);
            issues_run_extends(before, vcs.history(), from, repo@, numbers@.take(i as int));
            assert(start.is_prefix_of(vcs.history())) by {
                assert(vcs.history().subrange(0, from) =~= before.subrange(0, from));
            }
        }
        match result {
            Ok((labels, snapshot)) => {
                issues.push((number, labels, snapshot));
                assert(reads_view(issues@) =~= reads_view(read).push(
                    (number, crate::text::texts(labels@), snapshot@),
                ));
            },
            Err(error) => {
                proof {
                    issues_fail_early(vcs.history(), from, repo@, numbers@, i + 1);
                }
                return Err(error);
            },
        }
        i += 1;
    }
    assert(numbers@.take(i as int) =~= numbers@);
    Ok(issues)
}

/// What reading a repo's open issues comes to, given the calls from position
/// `from` on: the issues, in the order listed or in ascending order, and
/// whether there may be more of them than `limit`; or the first error.
pub open spec fn open_issues_run(
    calls: Seq<VcsCall>,
    from: int,
    repo: Seq<char>,
    limit: u32,
    sorted: bool,
) -> Option<
    (Result<(Seq<(u64, Seq<Seq<char>>, IssueSnapshotView)>, bool), VcsErrorView>, int),
> {
    if !(0 <= from < calls.len()) {
        None
    } else if let VcsCall::ListOpenIssues { repo: asked, limit: most, result } = calls[from] {
        if asked != repo || most != limit {
            None
        } else {
            match result {
                Err(error) => Some((Err(error), from + 1)),
                Ok(numbers) => match issues_run(
                    calls,
                    from + 1,
                    repo,
                    if sorted {
                        crate::ordered::ascending(numbers)
                    } else {
                        numbers
                    },
                ) {
                    None => None,
                    Some((Err(error), end)) => Some((Err(error), end)),
                    Some((Ok(issues), end)) => Some((Ok((issues, numbers.len() >= limit)), end)),
                },
            }
        }
    } else {
        None
    }
}

/// The contents of a repo's open issues, or of the error in their place.
pub open spec fn open_outcome(result: Result<(Vec<ReadIssue>, bool), VcsError>) -> Result<
    (Seq<(u64, Seq<Seq<char>>, IssueSnapshotView)>, bool),
    VcsErrorView,
> {
    match result {
        Ok((issues, truncated)) => Ok((reads_view(issues@), truncated)),
        Err(error) => Err(error@),
    }
}

/// Reads a repo's open issues, at most `limit` of them, in the order listed or
/// in ascending order; and says whether that many were listed, so that there
/// may be more.
pub fn read_open_issues<V: Vcs>(vcs: &mut V, repo: &str, limit: u32, sorted: bool) -> (result: Result<
    (Vec<ReadIssue>, bool),
    VcsError,
>)
    ensures
        crate::vcs::leads(*old(vcs), *final(vcs)),
        old(vcs).history().is_prefix_of(final(vcs).history()),
        open_issues_run(
            final(vcs).history(),
            old(vcs).history().len() as int,
            repo@,
            limit,
            sorted,
        ) == Some((open_outcome(result), final(vcs).history().len() as int)),
{
    let ghost entry = *vcs;
    let ghost start = vcs.history();
    let answer = vcs.list_open_issues(repo, limit);
    proof {
        crate::vcs::leads_by_one(entry, *vcs);
    }
    let listed = match answer {
        Ok(numbers) => numbers,
        Err(error) => return Err(error),
    };
    let ghost listing = vcs.history();
    let truncated = listed.len() as u64 >= limit as u64;
    let numbers = if sorted {
        sort_numbers(&listed)
    } else {
        listed.clone()
    };
    assert(!sorted ==> numbers@ =~= listed@);
    let ghost at = *vcs;
    let result = read_issues(vcs, repo, &numbers);
    proof {
        crate::vcs::leads_further(entry, at, *vcs);
        let from = start.len() as int;
        assert(vcs.history().subrange(0, listing.len() as int)[from] == listing[from]);
        assert(vcs.history().subrange(0, from) =~= start) by {
            assert forall|k: int| 0 <= k < from implies vcs.history()[k] == start[k] by {
                assert(vcs.history().subrange(0, listing.len() as int)[k] == listing[k]);
            }
        }
    }
    match result {
        Ok(issues) => Ok((issues, truncated)),
        Err(error) => Err(error),
    }
}

/// The derived states of several issues that were read.
pub open spec fn snapshots_of(issues: Seq<(u64, Seq<Seq<char>>, IssueSnapshotView)>) -> Seq<
    IssueSnapshotView,
> {
    issues.map_values(|issue: (u64, Seq<Seq<char>>, IssueSnapshotView)| issue.2)
}

/// The derived states of several issues that were read.
fn into_snapshots(issues: Vec<ReadIssue>) -> (snapshots: Vec<IssueSnapshot>)
    ensures
        crate::board::snapshots_view(snapshots@) == snapshots_of(reads_view(issues@)),
{
    let ghost all = issues@;
    let mut rest = issues;
    let mut snapshots: Vec<IssueSnapshot> = Vec::new();
    assert(all.take(all.len() as int) =~= all);
    while rest.len() > 0
        invariant
            rest@.len() + snapshots@.len() == all.len(),
            rest@ == all.take(rest@.len() as int),
            forall|k: int|
                0 <= k < snapshots@.len() ==> (#[trigger] snapshots@[k]) == all[rest@.len() + k].2,
        decreases rest@.len(),
    {
        let ghost before = snapshots@;
        let issue = rest.pop().unwrap();
        snapshots.insert(0, issue.2);
        proof {
            assert(issue == all[rest@.len() as int]);
            assert(rest@ =~= all.take(rest@.len() as int));
            assert forall|k: int| 0 <= k < snapshots@.len() implies (#[trigger] snapshots@[k])
                == all[rest@.len() + k].2 by {
                if k > 0 {
                    assert(snapshots@[k] == before[k - 1]);
                }
            }
        }
    }
    assert(crate::board::snapshots_view(snapshots@) =~= snapshots_of(reads_view(all)));
    snapshots
}

/// The board of one project: every open issue, and whether the repo may have
/// more of them than `limit`.
pub fn read_board<V: Vcs>(vcs: &mut V, project: &ProjectConfig, limit: u32) -> (result: Result<
    (Vec<BoardRow>, bool),
    ToolError,
>)
    ensures
        crate::vcs::leads(*old(vcs), *final(vcs)),
        old(vcs).history().is_prefix_of(final(vcs).history()),
        match open_issues_run(
            final(vcs).history(),
            old(vcs).history().len() as int,
            project.repo@,
            limit,
            false,
        ) {
            Some((Ok((issues, truncated)), end)) => {
                &&& end == final(vcs).history().len()
                &&& result is Ok
                &&& result->Ok_0.1 == truncated
                &&& crate::board::is_board(
                    snapshots_of(issues),
                    project.repo@,
                    crate::config::host_of(project@),
                    crate::board::rows_view(result->Ok_0.0@),
                )
            },
            Some((Err(cause), end)) => {
                &&& end == final(vcs).history().len()
                &&& result matches Err(error) && error@ == ToolErrorView::Vcs(cause)
            },
            None => false,
        },
{
    match read_open_issues(vcs, project.repo.as_str(), limit, false) {
        Ok((issues, truncated)) => {
            let snapshots = into_snapshots(issues);
            let rows = build_board(snapshots.as_slice(), project.repo.as_str(), project.host());
            Ok((rows, truncated))
        },
        Err(error) => Err(ToolError::Vcs(error)),
    }
}

/// The backlog of one project, given the outcome of loading its workflow:
/// every open issue that has not been handed off, and whether the repo may have
/// more open issues than `limit`.
///
/// A workflow that could not be loaded is an error, before anything is asked:
/// what counts as ready is for it to say.
pub fn read_backlog<V: Vcs>(
    vcs: &mut V,
    project: &ProjectConfig,
    workflow: Result<WorkflowLabels, ToolError>,
    limit: u32,
) -> (result: Result<(Vec<BacklogRow>, bool), ToolError>)
    ensures
        crate::vcs::leads(*old(vcs), *final(vcs)),
        old(vcs).history().is_prefix_of(final(vcs).history()),
        match workflow {
            Err(failure) => {
                &&& final(vcs).history() == old(vcs).history()
                &&& result matches Err(error) && error@ == failure@
            },
            Ok(labels) => match open_issues_run(
                final(vcs).history(),
                old(vcs).history().len() as int,
                project.repo@,
                limit,
                false,
            ) {
                Some((Ok((issues, truncated)), end)) => {
                    &&& end == final(vcs).history().len()
                    &&& result is Ok
                    &&& result->Ok_0.1 == truncated
                    &&& crate::board::is_backlog(
                        snapshots_of(issues),
                        labels,
                        project.repo@,
                        crate::config::host_of(project@),
                        crate::board::backlog_view(result->Ok_0.0@),
                    )
                },
                Some((Err(cause), end)) => {
                    &&& end == final(vcs).history().len()
                    &&& result matches Err(error) && error@ == ToolErrorView::Vcs(cause)
                },
                None => false,
            },
        },
{
    let labels = match workflow {
        Ok(labels) => labels,
        Err(error) => {
            proof {
                crate::vcs::leads_nowhere(*vcs);
            }
            return Err(error);
        },
    };
    match read_open_issues(vcs, project.repo.as_str(), limit, false) {
        Ok((issues, truncated)) => {
            let snapshots = into_snapshots(issues);
            let rows = build_backlog(
                snapshots.as_slice(),
                &labels,
                project.repo.as_str(),
                project.host(),
            );
            Ok((rows, truncated))
        },
        Err(error) => Err(ToolError::Vcs(error)),
    }
}

/// One issue's derived state, and its URL.
pub fn read_issue<V: Vcs>(vcs: &mut V, project: &ProjectConfig, number: u64) -> (result: Result<
    (IssueSnapshot, String),
    ToolError,
>)
    ensures
        crate::vcs::leads(*old(vcs), *final(vcs)),
        old(vcs).history().is_prefix_of(final(vcs).history()),
        match crate::state::issue_state_run(
            final(vcs).history(),
            old(vcs).history().len() as int,
            project.repo@,
            number,
        ) {
            Some((Ok((_, snapshot)), end)) => {
                &&& end == final(vcs).history().len()
                &&& result matches Ok((read, url)) && read@ == snapshot && url@
                    == crate::board::url_of(
                    project.repo@,
                    crate::config::host_of(project@),
                    number,
                )
            },
            Some((Err(cause), end)) => {
                &&& end == final(vcs).history().len()
                &&& result matches Err(error) && error@ == ToolErrorView::Vcs(cause)
            },
            None => false,
        },
{
    match read_issue_state(vcs, project.repo.as_str(), number) {
        Ok(snapshot) => {
            let url = issue_url(project.repo.as_str(), project.host(), number);
            Ok((snapshot, url))
        },
        Err(error) => Err(ToolError::Vcs(error)),
    }
}

/// Each issue with what it is blocked by.
pub open spec fn edges_in(issues: Seq<(u64, Seq<Seq<char>>, IssueSnapshotView)>) -> Seq<
    (u64, Seq<u64>),
> {
    issues.map_values(
        |issue: (u64, Seq<Seq<char>>, IssueSnapshotView)|
            (issue.2.number, issue.2.relationships.blocked_by),
    )
}

/// The state of each issue, by its number.
pub open spec fn states_in(issues: Seq<(u64, Seq<Seq<char>>, IssueSnapshotView)>) -> Map<
    u64,
    IssueState,
>
    decreases issues.len(),
{
    if issues.len() == 0 {
        Map::empty()
    } else {
        states_in(issues.drop_last()).insert(issues.last().2.number, issues.last().2.state)
    }
}

/// Whether an issue is depended on without being among those that were read.
pub open spec fn is_off_board(
    issues: Seq<(u64, Seq<Seq<char>>, IssueSnapshotView)>,
    number: u64,
) -> bool {
    &&& !states_in(issues).contains_key(number)
    &&& exists|i: int| 0 <= i < issues.len() && (#[trigger] edges_in(issues)[i]).1.contains(number)
}

/// Whether `numbers` are the issues that are depended on without being among
/// those that were read, each once, in ascending order.
pub open spec fn are_off_board(
    issues: Seq<(u64, Seq<Seq<char>>, IssueSnapshotView)>,
    numbers: Seq<u64>,
) -> bool {
    &&& crate::ordered::is_ascending(numbers)
    &&& forall|number: u64| #[trigger] numbers.contains(number) <==> is_off_board(issues, number)
}

/// The issues that are depended on without being among those that were read.
pub open spec fn off_board(issues: Seq<(u64, Seq<Seq<char>>, IssueSnapshotView)>) -> Seq<u64> {
    choose|numbers: Seq<u64>| are_off_board(issues, numbers)
}

/// Every issue that is depended on, as often as it is.
spec fn depended_on(issues: Seq<(u64, Seq<Seq<char>>, IssueSnapshotView)>) -> Seq<u64>
    decreases issues.len(),
{
    if issues.len() == 0 {
        Seq::empty()
    } else {
        depended_on(issues.drop_last()) + issues.last().2.relationships.blocked_by
    }
}

/// What is depended on is what some issue is blocked by.
proof fn depended_on_members(issues: Seq<(u64, Seq<Seq<char>>, IssueSnapshotView)>, number: u64)
    ensures
        depended_on(issues).contains(number) <==> exists|i: int|
            0 <= i < issues.len() && (#[trigger] edges_in(issues)[i]).1.contains(number),
    decreases issues.len(),
{
    if issues.len() > 0 {
        let rest = issues.drop_last();
        let front = depended_on(rest);
        let back = issues.last().2.relationships.blocked_by;
        let all = depended_on(issues);
        depended_on_members(rest, number);
        if all.contains(number) {
            let k = all.index_of(number);
            if k < front.len() {
                assert(front[k] == number);
                let i = choose|i: int|
                    0 <= i < rest.len() && (#[trigger] edges_in(rest)[i]).1.contains(number);
                assert(edges_in(issues)[i] == edges_in(rest)[i]);
            } else {
                assert(back[k - front.len()] == number);
                assert(edges_in(issues)[issues.len() - 1].1.contains(number));
            }
        }
        if exists|i: int|
            0 <= i < issues.len() && (#[trigger] edges_in(issues)[i]).1.contains(number) {
            let i = choose|i: int|
                0 <= i < issues.len() && (#[trigger] edges_in(issues)[i]).1.contains(number);
            if i < rest.len() {
                assert(edges_in(rest)[i] == edges_in(issues)[i]);
                let k = front.index_of(number);
                assert(all[k] == number);
            } else {
                let k = back.index_of(number);
                assert(all[front.len() + k] == number);
            }
        }
    }
}

/// The issues that are depended on without being among those that were read can
/// always be listed: once each, in ascending order.
pub proof fn off_board_is_listed(issues: Seq<(u64, Seq<Seq<char>>, IssueSnapshotView)>)
    ensures
        are_off_board(issues, off_board(issues)),
{
    let absent = |number: u64| !states_in(issues).contains_key(number);
    let all = depended_on(issues);
    let wanted = all.filter(absent);
    let listed = crate::ordered::ascending_of_members(wanted);
    assert forall|number: u64| #[trigger] listed.contains(number) <==> is_off_board(
        issues,
        number,
    ) by {
        depended_on_members(issues, number);
        if wanted.contains(number) {
            all.lemma_filter_contains_rev(absent, number);
            let k = wanted.index_of(number);
            all.lemma_filter_pred(absent, k);
        }
        if is_off_board(issues, number) {
            let k = all.index_of(number);
            all.lemma_filter_contains(absent, k);
        }
    }
    assert(are_off_board(issues, listed));
}

/// What reading the state of each of several issues comes to, given the calls
/// from position `from` on: `states` with each state that could be read, and
/// the position after the last call made. An issue that cannot be read is left
/// out. `None` where those are other calls.
pub open spec fn states_run(
    calls: Seq<VcsCall>,
    from: int,
    repo: Seq<char>,
    numbers: Seq<u64>,
    states: Map<u64, IssueState>,
) -> Option<(Map<u64, IssueState>, int)>
    decreases numbers.len(),
{
    if numbers.len() == 0 {
        Some((states, from))
    } else {
        match states_run(calls, from, repo, numbers.drop_last(), states) {
            None => None,
            Some((states, end)) => if !(0 <= end < calls.len()) {
                None
            } else if let VcsCall::ReadIssue { repo: asked, number, result } = calls[end] {
                if asked != repo || number != numbers.last() {
                    None
                } else {
                    match result {
                        Ok(issue) => Some((states.insert(number, issue.state), end + 1)),
                        Err(_) => Some((states, end + 1)),
                    }
                }
            } else {
                None
            },
        }
    }
}

/// Calls made later do not change what earlier calls came to.
proof fn states_run_extends(
    calls: Seq<VcsCall>,
    more: Seq<VcsCall>,
    from: int,
    repo: Seq<char>,
    numbers: Seq<u64>,
    states: Map<u64, IssueState>,
)
    requires
        calls.is_prefix_of(more),
        0 <= from <= calls.len(),
        states_run(calls, from, repo, numbers, states) is Some,
    ensures
        states_run(more, from, repo, numbers, states) == states_run(
            calls,
            from,
            repo,
            numbers,
            states,
        ),
        from <= (states_run(calls, from, repo, numbers, states)->0).1 <= calls.len(),
    decreases numbers.len(),
{
    if numbers.len() > 0 {
        states_run_extends(calls, more, from, repo, numbers.drop_last(), states);
        let end = (states_run(calls, from, repo, numbers.drop_last(), states)->0).1;
        if end < calls.len() {
            assert(more.subrange(0, calls.len() as int)[end] == calls[end]);
        }
    }
}

/// The state of each issue that was read, by its number.
fn known_states(issues: &Vec<ReadIssue>) -> (states: HashMap<u64, IssueState>)
    ensures
        states@ == states_in(reads_view(issues@)),
{
    let ghost all = reads_view(issues@);
    let mut states: HashMap<u64, IssueState> = HashMap::new();
    let mut i: usize = 0;
    assert(states@ =~= states_in(all.take(0)));
    while i < issues.len()
        invariant
            i <= issues@.len(),
            all == reads_view(issues@),
            states@ == states_in(all.take(i as int)),
        decreases issues@.len() - i,
    {
        proof {
            let longer = all.take(i + 1);
            assert(longer.drop_last() =~= all.take(i as int));
            assert(longer.last() == read_view(issues@[i as int]));
        }
        states.insert(issues[i].2.number, issues[i].2.state);
        i += 1;
    }
    assert(all.take(i as int) =~= all);
    states
}

/// The issues that are depended on without being among those that were read.
fn referenced_off_board(issues: &Vec<ReadIssue>, states: &HashMap<u64, IssueState>) -> (numbers: Vec<
    u64,
>)
    requires
        states@ == states_in(reads_view(issues@)),
    ensures
        numbers@ == off_board(reads_view(issues@)),
{
    let ghost all = reads_view(issues@);
    let ghost edges = edges_in(all);
    let mut numbers: Vec<u64> = Vec::new();
    let mut i: usize = 0;
    while i < issues.len()
        invariant
            i <= issues@.len(),
            all == reads_view(issues@),
            edges == edges_in(all),
            states@ == states_in(all),
            crate::ordered::is_ascending(numbers@),
            forall|n: u64| #[trigger]
                numbers@.contains(n) <==> !states@.contains_key(n) && exists|k: int|
                    0 <= k < i && (#[trigger] edges[k]).1.contains(n),
        decreases issues@.len() - i,
    {
        let blocked_by = &issues[i].2.relationships.blocked_by;
        let ghost before = numbers@;
        assert(edges[i as int].1 == blocked_by@);
        let mut j: usize = 0;
        while j < blocked_by.len()
            invariant
                j <= blocked_by@.len(),
                crate::ordered::is_ascending(numbers@),
                forall|n: u64| #[trigger]
                    numbers@.contains(n) <==> before.contains(n) || (!states@.contains_key(n)
                        && exists|k: int| 0 <= k < j && (#[trigger] blocked_by@[k]) == n),
            decreases blocked_by@.len() - j,
        {
            let dependency: u64 = blocked_by[j];
            let ghost earlier = numbers@;
            if !states.contains_key(&dependency) {
                insert_ascending(&mut numbers, dependency);
            }
            proof {
                assert forall|n: u64| #[trigger]
                    numbers@.contains(n) <==> before.contains(n) || (!states@.contains_key(n)
                        && exists|k: int| 0 <= k < j + 1 && (#[trigger] blocked_by@[k]) == n) by {
                    assert(earlier.contains(n) <==> before.contains(n) || (!states@.contains_key(n)
                        && exists|k: int| 0 <= k < j && (#[trigger] blocked_by@[k]) == n));
                    if n == dependency {
                        assert(blocked_by@[j as int] == n);
                    }
                }
            }
            j += 1;
        }
        proof {
            assert forall|n: u64| #[trigger]
                numbers@.contains(n) <==> !states@.contains_key(n) && exists|k: int|
                    0 <= k < i + 1 && (#[trigger] edges[k]).1.contains(n) by {
                assert(before.contains(n) <==> !states@.contains_key(n) && exists|k: int|
                    0 <= k < i && (#[trigger] edges[k]).1.contains(n));
                if edges[i as int].1.contains(n) {
                    let k = blocked_by@.index_of(n);
                    assert(blocked_by@[k] == n);
                }
                if numbers@.contains(n) && !before.contains(n) {
                    let k = choose|k: int|
                        0 <= k < blocked_by@.len() && (#[trigger] blocked_by@[k]) == n;
                    assert(blocked_by@.contains(blocked_by@[k]));
                    assert(edges[i as int].1.contains(n));
                }
            }
        }
        i += 1;
    }
    proof {
        assert(are_off_board(all, numbers@));
        crate::ordered::ascending_is_unique(numbers@, off_board(all));
    }
    numbers
}

/// The state of every issue that another depends on: those that were read, and
/// one more read for each of the others, in ascending order.
///
/// An issue that cannot be read is left out, so that it is reported as
/// missing: one deleted dependency must not fail the whole report.
pub fn dependency_states<V: Vcs>(vcs: &mut V, repo: &str, issues: &Vec<ReadIssue>) -> (states: HashMap<
    u64,
    IssueState,
>)
    ensures
        crate::vcs::leads(*old(vcs), *final(vcs)),
        old(vcs).history().is_prefix_of(final(vcs).history()),
        states_run(
            final(vcs).history(),
            old(vcs).history().len() as int,
            repo@,
            off_board(reads_view(issues@)),
            states_in(reads_view(issues@)),
        ) == Some((states@, final(vcs).history().len() as int)),
{
    let ghost entry = *vcs;
    let ghost start = vcs.history();
    let ghost from = start.len() as int;
    let ghost known = states_in(reads_view(issues@));
    let mut states = known_states(issues);
    let referenced = referenced_off_board(issues, &states);
    let mut i: usize = 0;
    proof {
        crate::vcs::leads_nowhere(entry);
        assert(start.subrange(0, from) =~= start);
        assert(referenced@.take(0) =~= Seq::<u64>::empty());
    }
    while i < referenced.len()
        invariant
            i <= referenced@.len(),
            start == old(vcs).history(),
            from == start.len(),
            start.is_prefix_of(vcs.history()),
            entry == *old(vcs),
            crate::vcs::leads(entry, *vcs),
            states_run(vcs.history(), from, repo@, referenced@.take(i as int), known) == Some(
                (states@, vcs.history().len() as int),
            ),
        decreases referenced@.len() - i,
    {
        let ghost before = vcs.history();
        let dependency: u64 = referenced[i];
        let ghost longer = referenced@.take(i + 1);
        let ghost at = *vcs;
        let result = vcs.read_issue(repo, dependency);
        proof {
            crate::vcs::leads_on(entry, at, *vcs);
            assert(longer.drop_last() =~= referenced@.take(i as int));
            assert(longer.last() == dependency);
            assert(before.is_prefix_of(vcs.history())) by {
                assert(vcs.history().subrange(0, before.len() as int) =~= before);
            }
            states_run_extends(
                before,
                vcs.history(),
                from,
                repo@,
                referenced@.take(i as int),
                known,
            );
            assert(start.is_prefix_of(vcs.history())) by {
                assert(vcs.history().subrange(0, from) =~= before.subrange(0, from));
            }
        }
        if let Ok(issue) = result {
            states.insert(dependency, issue.state);
        }
        i += 1;
    }
    assert(referenced@.take(i as int) =~= referenced@);
    states
}

/// One instance's hold on an issue.
#[derive(Debug, Eq, PartialEq)]
pub struct ClaimHolder {
    /// The claimed issue.
    pub issue: u64,
    /// The claim itself.
    pub claim: Claim,
    /// Whether the same report says that a claim on this issue is stale.
    pub stale: bool,
}

/// The contents of a [`ClaimHolder`].
pub struct ClaimHolderView {
    pub issue: u64,
    pub claim: ClaimView,
    pub stale: bool,
}

impl View for ClaimHolder {
    type V = ClaimHolderView;

    open spec fn view(&self) -> ClaimHolderView {
        ClaimHolderView { issue: self.issue, claim: self.claim@, stale: self.stale }
    }
}

/// One project's drift and contention.
#[derive(Debug, Eq, PartialEq)]
pub struct DriftReport {
    /// Every finding, of all kinds.
    pub findings: Vec<DriftFinding>,
    /// Who holds a claim on which issue, stale or not.
    pub claims: Vec<ClaimHolder>,
    /// Whether the repo may have more open issues than were read.
    pub truncated: bool,
}

/// The contents of a [`DriftReport`].
pub struct DriftReportView {
    pub findings: Seq<DriftFindingView>,
    pub claims: Seq<ClaimHolderView>,
    pub truncated: bool,
}

impl View for DriftReport {
    type V = DriftReportView;

    open spec fn view(&self) -> DriftReportView {
        DriftReportView {
            findings: crate::state::drift::findings_view(self.findings@),
            claims: self.claims@.map_values(|holder: ClaimHolder| holder@),
            truncated: self.truncated,
        }
    }
}

/// The claim on an issue, with the issue's number, where it has one.
pub open spec fn claim_on(issue: (u64, Seq<Seq<char>>, IssueSnapshotView)) -> Option<
    (u64, ClaimView),
> {
    match issue.2.owner {
        Some(claim) => Some((issue.2.number, claim)),
        None => None,
    }
}

/// The claims on several issues, in order.
pub open spec fn claims_on(issues: Seq<(u64, Seq<Seq<char>>, IssueSnapshotView)>) -> Seq<
    (u64, ClaimView),
> {
    issues.filter_map(|issue: (u64, Seq<Seq<char>>, IssueSnapshotView)| claim_on(issue))
}

/// The numbers and states of several pull requests.
pub open spec fn numbers_and_states(statuses: Seq<crate::vcs::PullRequestStatus>) -> Seq<
    (u64, PullRequestState),
> {
    statuses.map_values(|pr: crate::vcs::PullRequestStatus| (pr.number, pr.state))
}

/// Each issue's number, state, and linked pull requests.
pub open spec fn linked_to(issues: Seq<(u64, Seq<Seq<char>>, IssueSnapshotView)>) -> Seq<
    (u64, IssueState, Seq<(u64, PullRequestState)>),
> {
    issues.map_values(
        |issue: (u64, Seq<Seq<char>>, IssueSnapshotView)|
            (issue.2.number, issue.2.state, numbers_and_states(issue.2.linked_pull_requests)),
    )
}

/// Each issue's number and linked pull requests.
pub open spec fn pull_requests_to(issues: Seq<(u64, Seq<Seq<char>>, IssueSnapshotView)>) -> Seq<
    (u64, Seq<(u64, PullRequestState)>),
> {
    issues.map_values(
        |issue: (u64, Seq<Seq<char>>, IssueSnapshotView)|
            (issue.2.number, numbers_and_states(issue.2.linked_pull_requests)),
    )
}

/// Each issue's number and raw labels.
pub open spec fn labels_on(issues: Seq<(u64, Seq<Seq<char>>, IssueSnapshotView)>) -> Seq<
    (u64, Seq<Seq<char>>),
> {
    issues.map_values(|issue: (u64, Seq<Seq<char>>, IssueSnapshotView)| (issue.0, issue.1))
}

/// Whether one of `claims` is on `issue` and is stale.
pub open spec fn has_stale_claim(
    claims: Seq<(u64, ClaimView)>,
    ttl: Duration,
    now: Timestamp,
    issue: u64,
) -> bool {
    exists|i: int|
        0 <= i < claims.len() && (#[trigger] claims[i]).0 == issue && crate::state::drift::is_stale(
            claims[i].1.epoch,
            ttl,
            now,
        )
}

/// The holders of several claims.
pub open spec fn holders_of(claims: Seq<(u64, ClaimView)>, ttl: Duration, now: Timestamp) -> Seq<
    ClaimHolderView,
> {
    claims.map_values(
        |entry: (u64, ClaimView)|
            ClaimHolderView {
                issue: entry.0,
                claim: entry.1,
                stale: has_stale_claim(claims, ttl, now, entry.0),
            },
    )
}

/// The findings of every kind but dependency cycles.
pub open spec fn other_findings(
    issues: Seq<(u64, Seq<Seq<char>>, IssueSnapshotView)>,
    states: Map<u64, IssueState>,
    ttl: Duration,
    now: Timestamp,
) -> Seq<DriftFindingView> {
    crate::state::drift::closed_or_missing(edges_in(issues), states)
        + crate::state::drift::stale_claims(claims_on(issues), ttl, now)
        + crate::state::drift::merged_with_open_issue(linked_to(issues))
        + crate::state::drift::ambiguous_labels(labels_on(issues))
        + crate::state::drift::multiple_open(pull_requests_to(issues))
}

/// Whether `report` is the drift and contention of several issues: the
/// dependency cycles among them, in any order, then the findings of every
/// other kind, and the holder of every claim.
pub open spec fn is_drift_report(
    issues: Seq<(u64, Seq<Seq<char>>, IssueSnapshotView)>,
    states: Map<u64, IssueState>,
    ttl: Duration,
    now: Timestamp,
    truncated: bool,
    report: DriftReportView,
) -> bool {
    &&& exists|cycles: Seq<DriftFindingView>|
        #[trigger] crate::state::drift::are_the_cycles(edges_in(issues), cycles)
            && report.findings == cycles + other_findings(issues, states, ttl, now)
    &&& report.claims == holders_of(claims_on(issues), ttl, now)
    &&& report.truncated == truncated
}

/// The numbers and states of several pull requests.
fn linked_pairs(statuses: &Vec<crate::vcs::PullRequestStatus>) -> (pairs: Vec<
    (u64, PullRequestState),
>)
    ensures
        pairs@ == numbers_and_states(statuses@),
{
    let mut pairs: Vec<(u64, PullRequestState)> = Vec::new();
    let mut i: usize = 0;
    while i < statuses.len()
        invariant
            i <= statuses@.len(),
            pairs@.len() == i,
            forall|k: int|
                0 <= k < i ==> #[trigger] pairs@[k] == (statuses@[k].number, statuses@[k].state),
        decreases statuses@.len() - i,
    {
        pairs.push((statuses[i].number, statuses[i].state));
        i += 1;
    }
    assert(pairs@ =~= numbers_and_states(statuses@));
    pairs
}

/// Each issue with its relationships.
fn relationships_among(issues: &Vec<ReadIssue>) -> (relationships: Vec<(u64, IssueRelationships)>)
    ensures
        crate::state::cycles::edges(relationships@) == edges_in(reads_view(issues@)),
{
    let mut relationships: Vec<(u64, IssueRelationships)> = Vec::new();
    let mut i: usize = 0;
    while i < issues.len()
        invariant
            i <= issues@.len(),
            relationships@.len() == i,
            forall|k: int|
                0 <= k < i ==> (#[trigger] relationships@[k]).0 == issues@[k].2.number
                    && relationships@[k].1@ == issues@[k].2.relationships@,
        decreases issues@.len() - i,
    {
        relationships.push((issues[i].2.number, issues[i].2.relationships.clone()));
        i += 1;
    }
    assert(crate::state::cycles::edges(relationships@) =~= edges_in(reads_view(issues@)));
    relationships
}

/// The claims on several issues.
fn claims_among(issues: &Vec<ReadIssue>) -> (claims: Vec<(u64, Claim)>)
    ensures
        crate::state::drift::claims_view(claims@) == claims_on(reads_view(issues@)),
{
    let ghost all = reads_view(issues@);
    let ghost per_issue = |issue: (u64, Seq<Seq<char>>, IssueSnapshotView)| claim_on(issue);
    let mut claims: Vec<(u64, Claim)> = Vec::new();
    let mut i: usize = 0;
    assert(crate::state::drift::claims_view(claims@) =~= all.take(0).filter_map(per_issue));
    while i < issues.len()
        invariant
            i <= issues@.len(),
            all == reads_view(issues@),
            per_issue == (|issue: (u64, Seq<Seq<char>>, IssueSnapshotView)| claim_on(issue)),
            crate::state::drift::claims_view(claims@) == all.take(i as int).filter_map(per_issue),
        decreases issues@.len() - i,
    {
        let ghost before = claims@;
        proof {
            assert(all[i as int] == read_view(issues@[i as int]));
            all.lemma_filter_map_take_succ(per_issue, i as int);
        }
        if let Some(claim) = &issues[i].2.owner {
            claims.push((issues[i].2.number, claim.clone()));
        }
        assert(crate::state::drift::claims_view(claims@) =~= all.take(i + 1).filter_map(per_issue));
        i += 1;
    }
    assert(all.take(i as int) =~= all);
    claims
}

/// Each issue's number, state, and linked pull requests.
fn linked_among(issues: &Vec<ReadIssue>) -> (linked: Vec<IssueAndLinkedPullRequests>)
    ensures
        crate::state::drift::linked_view(linked@) == linked_to(reads_view(issues@)),
{
    let mut linked: Vec<IssueAndLinkedPullRequests> = Vec::new();
    let mut i: usize = 0;
    while i < issues.len()
        invariant
            i <= issues@.len(),
            linked@.len() == i,
            forall|k: int|
                0 <= k < i ==> (#[trigger] linked@[k]).0 == issues@[k].2.number && linked@[k].1
                    == issues@[k].2.state && linked@[k].2@ == numbers_and_states(
                    issues@[k].2.linked_pull_requests@,
                ),
        decreases issues@.len() - i,
    {
        let snapshot = &issues[i].2;
        linked.push((snapshot.number, snapshot.state, linked_pairs(&snapshot.linked_pull_requests)));
        i += 1;
    }
    assert(crate::state::drift::linked_view(linked@) =~= linked_to(reads_view(issues@)));
    linked
}

/// Whether a finding says that a claim on `issue` is stale.
pub open spec fn says_stale(finding: DriftFindingView, issue: u64) -> bool {
    match finding {
        DriftFindingView::StaleClaim { issue: claimed, .. } => claimed == issue,
        _ => false,
    }
}

/// Whether one of several findings says that a claim on `issue` is stale.
fn is_reported_stale(findings: &Vec<DriftFinding>, issue: u64) -> (reported: bool)
    ensures
        reported == exists|i: int|
            0 <= i < findings@.len() && says_stale((#[trigger] findings@[i])@, issue),
{
    let mut i: usize = 0;
    while i < findings.len()
        invariant
            i <= findings@.len(),
            forall|k: int| 0 <= k < i ==> !says_stale((#[trigger] findings@[k])@, issue),
        decreases findings@.len() - i,
    {
        if let DriftFinding::StaleClaim { issue: claimed, .. } = &findings[i] {
            if *claimed == issue {
                assert(says_stale(findings@[i as int]@, issue));
                return true;
            }
        }
        i += 1;
    }
    false
}

/// A claim is reported as stale exactly where one on its issue is stale.
proof fn reported_where_stale(
    claims: Seq<(u64, ClaimView)>,
    ttl: Duration,
    now: Timestamp,
    issue: u64,
)
    ensures
        has_stale_claim(claims, ttl, now, issue) <==> exists|i: int|
            0 <= i < crate::state::drift::stale_claims(claims, ttl, now).len() && says_stale(
                #[trigger] crate::state::drift::stale_claims(claims, ttl, now)[i],
                issue,
            ),
    decreases claims.len(),
{
    let per_claim = |entry: (u64, ClaimView)|
        crate::state::drift::stale_finding(entry.0, entry.1, ttl, now);
    let findings = crate::state::drift::stale_claims(claims, ttl, now);
    assert(findings == claims.filter_map(per_claim));
    if claims.len() > 0 {
        let n = claims.len() - 1;
        let fewer = claims.take(n);
        claims.lemma_filter_map_take_succ(per_claim, n);
        assert(claims.take(n + 1) =~= claims);
        let earlier = crate::state::drift::stale_claims(fewer, ttl, now);
        assert(earlier == fewer.filter_map(per_claim));
        reported_where_stale(fewer, ttl, now, issue);
        if has_stale_claim(claims, ttl, now, issue) {
            let i = choose|i: int|
                0 <= i < claims.len() && (#[trigger] claims[i]).0 == issue
                    && crate::state::drift::is_stale(claims[i].1.epoch, ttl, now);
            if i < n {
                assert(fewer[i] == claims[i]);
                let k = choose|k: int|
                    0 <= k < earlier.len() && says_stale(#[trigger] earlier[k], issue);
                assert(findings[k] == earlier[k]);
            } else {
                assert(says_stale(findings[findings.len() - 1], issue));
            }
        }
        if exists|i: int| 0 <= i < findings.len() && says_stale(#[trigger] findings[i], issue) {
            let i = choose|i: int|
                0 <= i < findings.len() && says_stale(#[trigger] findings[i], issue);
            if i < earlier.len() {
                assert(earlier[i] == findings[i]);
                let k = choose|k: int|
                    0 <= k < fewer.len() && (#[trigger] fewer[k]).0 == issue
                        && crate::state::drift::is_stale(fewer[k].1.epoch, ttl, now);
                assert(claims[k] == fewer[k]);
            } else {
                assert(claims[n].0 == issue);
            }
        }
    }
}

/// Adds several findings to the end of `findings`.
fn extend(findings: &mut Vec<DriftFinding>, more: Vec<DriftFinding>)
    ensures
        crate::state::drift::findings_view(final(findings)@) == crate::state::drift::findings_view(
            old(findings)@,
        ) + crate::state::drift::findings_view(more@),
{
    let ghost added = more@;
    let mut more = more;
    findings.append(&mut more);
    assert(crate::state::drift::findings_view(findings@) =~= crate::state::drift::findings_view(
        old(findings)@,
    ) + crate::state::drift::findings_view(added));
}

/// Reports the drift and contention of several issues that were read, given
/// the state of every issue that they depend on.
pub fn drift_report(
    issues: &Vec<ReadIssue>,
    states: &HashMap<u64, IssueState>,
    heartbeat_ttl: Duration,
    now: Timestamp,
    truncated: bool,
) -> (report: DriftReport)
    ensures
        is_drift_report(
            reads_view(issues@),
            states@,
            heartbeat_ttl,
            now,
            truncated,
            report@,
        ),
{
    let ghost all = reads_view(issues@);
    let relationships = relationships_among(issues);
    let claims = claims_among(issues);
    let linked = linked_among(issues);
    let mut linked_prs: Vec<(u64, &[(u64, PullRequestState)])> = Vec::new();
    let mut labels: Vec<(u64, &[String])> = Vec::new();
    let mut i: usize = 0;
    assert(crate::state::drift::linked_view(linked@).len() == linked_to(all).len());
    while i < issues.len()
        invariant
            i <= issues@.len(),
            issues@.len() == linked@.len(),
            linked_prs@.len() == i,
            labels@.len() == i,
            forall|k: int|
                0 <= k < i ==> (#[trigger] linked_prs@[k]).0 == linked@[k].0 && linked_prs@[k].1@
                    == linked@[k].2@,
            forall|k: int|
                0 <= k < i ==> (#[trigger] labels@[k]).0 == issues@[k].0 && labels@[k].1@
                    == issues@[k].1@,
        decreases issues@.len() - i,
    {
        linked_prs.push((linked[i].0, linked[i].2.as_slice()));
        labels.push((issues[i].0, issues[i].1.as_slice()));
        i += 1;
    }
    proof {
        let shown = crate::state::drift::pull_requests_of(linked_prs@);
        assert forall|k: int| 0 <= k < all.len() implies #[trigger] shown[k] == pull_requests_to(
            all,
        )[k] by {
            assert(crate::state::drift::linked_view(linked@)[k] == linked_to(all)[k]);
        }
        assert(shown =~= pull_requests_to(all));
        assert(crate::state::drift::labels_view(labels@) =~= labels_on(all));
    }
    let mut findings = find_dependency_cycles(relationships.as_slice());
    let ghost cycles = crate::state::drift::findings_view(findings@);
    let stale = find_stale_claims(claims.as_slice(), heartbeat_ttl, now);
    let holders = holders(&claims, &stale, heartbeat_ttl, now);
    extend(
        &mut findings,
        find_closed_or_missing_dependencies(relationships.as_slice(), states),
    );
    extend(&mut findings, stale);
    extend(&mut findings, find_merged_pr_with_open_issue(linked.as_slice()));
    extend(&mut findings, find_ambiguous_labels(labels.as_slice()));
    extend(&mut findings, find_multiple_open_linked_pull_requests(linked_prs.as_slice()));
    let report = DriftReport { findings, claims: holders, truncated };
    proof {
        assert(report@.findings =~= cycles + other_findings(all, states@, heartbeat_ttl, now));
        assert(crate::state::drift::are_the_cycles(edges_in(all), cycles));
    }
    report
}

/// The holders of several claims, given the findings for them.
fn holders(
    claims: &Vec<(u64, Claim)>,
    stale: &Vec<DriftFinding>,
    ttl: Duration,
    now: Timestamp,
) -> (holders: Vec<ClaimHolder>)
    requires
        crate::state::drift::findings_view(stale@) == crate::state::drift::stale_claims(
            crate::state::drift::claims_view(claims@),
            ttl,
            now,
        ),
    ensures
        holders@.map_values(|holder: ClaimHolder| holder@) == holders_of(
            crate::state::drift::claims_view(claims@),
            ttl,
            now,
        ),
{
    let ghost all = crate::state::drift::claims_view(claims@);
    let ghost findings = crate::state::drift::stale_claims(all, ttl, now);
    let mut holders: Vec<ClaimHolder> = Vec::new();
    let mut i: usize = 0;
    while i < claims.len()
        invariant
            i <= claims@.len(),
            all == crate::state::drift::claims_view(claims@),
            findings == crate::state::drift::stale_claims(all, ttl, now),
            findings == crate::state::drift::findings_view(stale@),
            holders@.len() == i,
            forall|k: int|
                0 <= k < i ==> (#[trigger] holders@[k])@ == (ClaimHolderView {
                    issue: all[k].0,
                    claim: all[k].1,
                    stale: has_stale_claim(all, ttl, now, all[k].0),
                }),
        decreases claims@.len() - i,
    {
        let issue: u64 = claims[i].0;
        let reported = is_reported_stale(stale, issue);
        proof {
            reported_where_stale(all, ttl, now, issue);
            if reported {
                let k = choose|k: int|
                    0 <= k < stale@.len() && says_stale((#[trigger] stale@[k])@, issue);
                assert(findings[k] == stale@[k]@);
            }
            if has_stale_claim(all, ttl, now, issue) {
                let k = choose|k: int|
                    0 <= k < findings.len() && says_stale(#[trigger] findings[k], issue);
                assert(findings[k] == stale@[k]@);
            }
        }
        holders.push(ClaimHolder { issue, claim: claims[i].1.clone(), stale: reported });
        i += 1;
    }
    assert(holders@.map_values(|holder: ClaimHolder| holder@) =~= holders_of(all, ttl, now));
    holders
}

/// What reading a project's drift comes to, given the calls from position
/// `from` on: the open issues, the state of every issue that they depend on,
/// and whether there may be more issues; or the first error; and the position
/// after the last call made. `None` where those are other calls.
pub open spec fn drift_run(calls: Seq<VcsCall>, from: int, repo: Seq<char>, limit: u32) -> Option<
    (
        Result<
            (Seq<(u64, Seq<Seq<char>>, IssueSnapshotView)>, Map<u64, IssueState>, bool),
            VcsErrorView,
        >,
        int,
    ),
> {
    match open_issues_run(calls, from, repo, limit, true) {
        None => None,
        Some((Err(error), end)) => Some((Err(error), end)),
        Some((Ok((issues, truncated)), end)) => match states_run(
            calls,
            end,
            repo,
            off_board(issues),
            states_in(issues),
        ) {
            None => None,
            Some((states, end)) => Some((Ok((issues, states, truncated)), end)),
        },
    }
}

/// Calls made later do not change what earlier calls came to.
proof fn open_issues_run_extends(
    calls: Seq<VcsCall>,
    more: Seq<VcsCall>,
    from: int,
    repo: Seq<char>,
    limit: u32,
    sorted: bool,
)
    requires
        calls.is_prefix_of(more),
        0 <= from <= calls.len(),
        open_issues_run(calls, from, repo, limit, sorted) is Some,
    ensures
        open_issues_run(more, from, repo, limit, sorted) == open_issues_run(
            calls,
            from,
            repo,
            limit,
            sorted,
        ),
        from <= (open_issues_run(calls, from, repo, limit, sorted)->0).1 <= calls.len(),
{
    assert(more.subrange(0, calls.len() as int)[from] == calls[from]);
    if let VcsCall::ListOpenIssues { result: Ok(numbers), .. } = calls[from] {
        issues_run_extends(
            calls,
            more,
            from + 1,
            repo,
            if sorted {
                crate::ordered::ascending(numbers)
            } else {
                numbers
            },
        );
    }
}

/// A project's whole drift and contention.
///
/// Reads the open issues, in ascending order, and then the state of each issue
/// that one of them depends on and that is not among them: without that a
/// dependency on a closed issue could not be told from one on a missing issue.
pub fn read_drift<V: Vcs>(
    vcs: &mut V,
    project: &ProjectConfig,
    limit: u32,
    heartbeat_ttl: Duration,
    now: Timestamp,
) -> (result: Result<DriftReport, ToolError>)
    ensures
        crate::vcs::leads(*old(vcs), *final(vcs)),
        old(vcs).history().is_prefix_of(final(vcs).history()),
        match drift_run(
            final(vcs).history(),
            old(vcs).history().len() as int,
            project.repo@,
            limit,
        ) {
            Some((Ok((issues, states, truncated)), end)) => {
                &&& end == final(vcs).history().len()
                &&& result is Ok
                &&& is_drift_report(
                    issues,
                    states,
                    heartbeat_ttl,
                    now,
                    truncated,
                    result->Ok_0@,
                )
            },
            Some((Err(cause), end)) => {
                &&& end == final(vcs).history().len()
                &&& result matches Err(error) && error@ == ToolErrorView::Vcs(cause)
            },
            None => false,
        },
{
    let ghost entry = *vcs;
    let ghost start = vcs.history();
    let repo = project.repo.as_str();
    let (issues, truncated) = match read_open_issues(vcs, repo, limit, true) {
        Ok(read) => read,
        Err(error) => return Err(ToolError::Vcs(error)),
    };
    let ghost read = vcs.history();
    let ghost at = *vcs;
    let states = dependency_states(vcs, repo, &issues);
    proof {
        crate::vcs::leads_further(entry, at, *vcs);
        open_issues_run_extends(read, vcs.history(), start.len() as int, repo@, limit, true);
        assert(vcs.history().subrange(0, start.len() as int) =~= start) by {
            assert(vcs.history().subrange(0, read.len() as int).subrange(0, start.len() as int)
                =~= vcs.history().subrange(0, start.len() as int));
        }
    }
    Ok(drift_report(&issues, &states, heartbeat_ttl, now, truncated))
}

/// Reading an issue's state only asks.
proof fn issue_state_run_reads(calls: Seq<VcsCall>, from: int, repo: Seq<char>, number: u64)
    requires
        crate::state::issue_state_run(calls, from, repo, number) is Some,
    ensures
        crate::vcs::all_read(
            calls,
            from,
            (crate::state::issue_state_run(calls, from, repo, number)->0).1,
        ),
{
    if let VcsCall::ReadIssue { result: Ok(_), .. } = calls[from] {
        if let VcsCall::ReadRelationships { result: Ok(_), .. } = calls[from + 1] {
            if let VcsCall::FindLinkedPullRequests { result: Ok(linked), .. } = calls[from + 2] {
                statuses_run_reads(calls, from + 3, repo, linked);
            }
        }
    }
}

/// Reading the status of several pull requests only asks.
proof fn statuses_run_reads(
    calls: Seq<VcsCall>,
    from: int,
    repo: Seq<char>,
    linked: Seq<crate::vcs::PullRequestRefView>,
)
    requires
        crate::state::statuses_run(calls, from, repo, linked) is Some,
    ensures
        crate::vcs::all_read(
            calls,
            from,
            (crate::state::statuses_run(calls, from, repo, linked)->0).1,
        ),
    decreases linked.len(),
{
    if linked.len() > 0 {
        statuses_run_reads(calls, from, repo, linked.drop_last());
    }
}

/// Reading several issues only asks.
proof fn issues_run_reads(calls: Seq<VcsCall>, from: int, repo: Seq<char>, numbers: Seq<u64>)
    requires
        issues_run(calls, from, repo, numbers) is Some,
    ensures
        crate::vcs::all_read(calls, from, (issues_run(calls, from, repo, numbers)->0).1),
    decreases numbers.len(),
{
    if numbers.len() > 0 {
        issues_run_reads(calls, from, repo, numbers.drop_last());
        if let Some((Ok(_), end)) = issues_run(calls, from, repo, numbers.drop_last()) {
            issue_state_run_reads(calls, end, repo, numbers.last());
        }
    }
}

/// Reading several states only asks.
proof fn states_run_reads(
    calls: Seq<VcsCall>,
    from: int,
    repo: Seq<char>,
    numbers: Seq<u64>,
    states: Map<u64, IssueState>,
)
    requires
        states_run(calls, from, repo, numbers, states) is Some,
    ensures
        crate::vcs::all_read(
            calls,
            from,
            (states_run(calls, from, repo, numbers, states)->0).1,
        ),
    decreases numbers.len(),
{
    if numbers.len() > 0 {
        states_run_reads(calls, from, repo, numbers.drop_last(), states);
    }
}

/// Reading the board or the backlog only asks: whatever comes of it, nothing
/// has changed.
pub proof fn reading_the_board_changes_nothing(
    calls: Seq<VcsCall>,
    from: int,
    repo: Seq<char>,
    limit: u32,
    sorted: bool,
)
    requires
        open_issues_run(calls, from, repo, limit, sorted) is Some,
    ensures
        crate::vcs::all_read(
            calls,
            from,
            (open_issues_run(calls, from, repo, limit, sorted)->0).1,
        ),
{
    if let VcsCall::ListOpenIssues { result: Ok(numbers), .. } = calls[from] {
        issues_run_reads(
            calls,
            from + 1,
            repo,
            if sorted {
                crate::ordered::ascending(numbers)
            } else {
                numbers
            },
        );
    }
}

/// Drift is reported and never repaired: reading it only asks.
pub proof fn reading_drift_changes_nothing(
    calls: Seq<VcsCall>,
    from: int,
    repo: Seq<char>,
    limit: u32,
)
    requires
        drift_run(calls, from, repo, limit) is Some,
    ensures
        crate::vcs::all_read(calls, from, (drift_run(calls, from, repo, limit)->0).1),
{
    reading_the_board_changes_nothing(calls, from, repo, limit, true);
    if let Some((Ok((issues, _)), end)) = open_issues_run(calls, from, repo, limit, true) {
        states_run_reads(calls, end, repo, off_board(issues), states_in(issues));
    }
}

/// Reading one issue for a client only asks.
pub proof fn reading_an_issue_changes_nothing(
    calls: Seq<VcsCall>,
    from: int,
    repo: Seq<char>,
    number: u64,
)
    requires
        crate::state::issue_state_run(calls, from, repo, number) is Some,
    ensures
        crate::vcs::all_read(
            calls,
            from,
            (crate::state::issue_state_run(calls, from, repo, number)->0).1,
        ),
{
    issue_state_run_reads(calls, from, repo, number);
}

/// One call is made for each state to read, in turn.
proof fn states_run_length(
    calls: Seq<VcsCall>,
    from: int,
    repo: Seq<char>,
    numbers: Seq<u64>,
    states: Map<u64, IssueState>,
)
    requires
        states_run(calls, from, repo, numbers, states) is Some,
    ensures
        (states_run(calls, from, repo, numbers, states)->0).1 == from + numbers.len(),
    decreases numbers.len(),
{
    if numbers.len() > 0 {
        states_run_length(calls, from, repo, numbers.drop_last(), states);
    }
}

/// A dependency outside the open issues is known by the answer to its own
/// read: by its state where it could be read, so that a closed one is never
/// taken for a missing one; and not at all where it could not.
pub proof fn off_board_dependency_is_known_by_its_read(
    calls: Seq<VcsCall>,
    from: int,
    repo: Seq<char>,
    numbers: Seq<u64>,
    states: Map<u64, IssueState>,
    at: int,
)
    requires
        states_run(calls, from, repo, numbers, states) is Some,
        crate::ordered::is_ascending(numbers),
        0 <= at < numbers.len(),
        !states.contains_key(numbers[at]),
    ensures
        match calls[from + at] {
            VcsCall::ReadIssue { number, result: Ok(issue), .. } => {
                let known = (states_run(calls, from, repo, numbers, states)->0).0;
                &&& number == numbers[at]
                &&& known.contains_key(number)
                &&& known[number] == issue.state
            },
            VcsCall::ReadIssue { number, result: Err(_), .. } => {
                let known = (states_run(calls, from, repo, numbers, states)->0).0;
                &&& number == numbers[at]
                &&& !known.contains_key(number)
            },
            _ => false,
        },
    decreases numbers.len(),
{
    let fewer = numbers.drop_last();
    states_run_length(calls, from, repo, fewer, states);
    if at < fewer.len() {
        assert(fewer[at] == numbers[at]);
        assert(numbers[at] < numbers[numbers.len() - 1]);
        off_board_dependency_is_known_by_its_read(calls, from, repo, fewer, states, at);
    } else {
        states_run_adds_only(calls, from, repo, fewer, states, numbers.last());
    }
}

/// Reading states adds only those that were asked for.
proof fn states_run_adds_only(
    calls: Seq<VcsCall>,
    from: int,
    repo: Seq<char>,
    numbers: Seq<u64>,
    states: Map<u64, IssueState>,
    other: u64,
)
    requires
        states_run(calls, from, repo, numbers, states) is Some,
        !states.contains_key(other),
        forall|i: int| 0 <= i < numbers.len() ==> numbers[i] != other,
    ensures
        !(states_run(calls, from, repo, numbers, states)->0).0.contains_key(other),
    decreases numbers.len(),
{
    if numbers.len() > 0 {
        states_run_adds_only(calls, from, repo, numbers.drop_last(), states, other);
        assert(numbers[numbers.len() - 1] != other);
    }
}

/// The two halves of a report agree: a holder is stale exactly where a finding
/// says that a claim on its issue is.
pub proof fn holders_agree_with_findings(
    claims: Seq<(u64, ClaimView)>,
    ttl: Duration,
    now: Timestamp,
    at: int,
)
    requires
        0 <= at < claims.len(),
    ensures
        holders_of(claims, ttl, now)[at].stale <==> exists|i: int|
            0 <= i < crate::state::drift::stale_claims(claims, ttl, now).len() && says_stale(
                #[trigger] crate::state::drift::stale_claims(claims, ttl, now)[i],
                claims[at].0,
            ),
{
    reported_where_stale(claims, ttl, now, claims[at].0);
}

/// A repo may have more open issues than were read exactly where as many were
/// listed as were asked for.
pub proof fn a_full_list_may_be_cut_off(
    calls: Seq<VcsCall>,
    from: int,
    repo: Seq<char>,
    limit: u32,
    sorted: bool,
    issues: Seq<(u64, Seq<Seq<char>>, IssueSnapshotView)>,
    truncated: bool,
    end: int,
)
    requires
        0 <= from,
        open_issues_run(calls, from, repo, limit, sorted) == Some(
            (
                Ok::<(Seq<(u64, Seq<Seq<char>>, IssueSnapshotView)>, bool), VcsErrorView>(
                    (issues, truncated),
                ),
                end,
            ),
        ),
    ensures
        calls[from] matches VcsCall::ListOpenIssues {
            repo: asked,
            limit: most,
            result: Ok(numbers),
        } && asked == repo && most == limit && (truncated <==> numbers.len() >= limit)
            && issues.len() == numbers.len() && (!sorted ==> forall|i: int|
            0 <= i < numbers.len() ==> (#[trigger] issues[i]).0 == numbers[i]) && (sorted
            ==> forall|number: u64| #[trigger]
            numbers.contains(number) <==> exists|i: int|
                0 <= i < issues.len() && (#[trigger] issues[i]).0 == number),
{
    let numbers = calls[from]->ListOpenIssues_result->Ok_0;
    let read = if sorted {
        crate::ordered::ascending(numbers)
    } else {
        numbers
    };
    issues_are_read_in_order(calls, from + 1, repo, read);
    if sorted {
        crate::ordered::ascending_is_sorted(numbers);
        crate::ordered::stable_order_is_permutation(
            numbers,
            read,
            crate::ordered::number_key(),
        );
        numbers.to_multiset_ensures();
        read.to_multiset_ensures();
        assert forall|number: u64| #[trigger]
            numbers.contains(number) <==> exists|i: int|
                0 <= i < issues.len() && (#[trigger] issues[i]).0 == number by {
            if numbers.contains(number) {
                assert(numbers.to_multiset().count(number) > 0);
                assert(read.contains(number));
                let i = read.index_of(number);
                assert(issues[i].0 == number);
            }
            if exists|i: int| 0 <= i < issues.len() && (#[trigger] issues[i]).0 == number {
                let i = choose|i: int| 0 <= i < issues.len() && (#[trigger] issues[i]).0 == number;
                assert(read[i] == number);
                assert(read.contains(number));
                assert(read.to_multiset().count(number) > 0);
                assert(numbers.contains(number));
            }
        }
    }
}

/// Each of several issues is read, in order.
proof fn issues_are_read_in_order(
    calls: Seq<VcsCall>,
    from: int,
    repo: Seq<char>,
    numbers: Seq<u64>,
)
    ensures
        issues_run(calls, from, repo, numbers) matches Some((Ok(issues), _)) ==> issues.len()
            == numbers.len() && forall|i: int|
            0 <= i < numbers.len() ==> (#[trigger] issues[i]).0 == numbers[i],
    decreases numbers.len(),
{
    if numbers.len() > 0 {
        issues_are_read_in_order(calls, from, repo, numbers.drop_last());
    }
}

/// An issue's own part in a report: a dependency that is closed or missing, a
/// claim that went silent, work that merged while the issue stayed open, labels
/// that contradict each other, and pull requests that compete. Each of these is
/// in the report exactly where it is the case.
pub proof fn a_report_names_every_drift(
    issues: Seq<(u64, Seq<Seq<char>>, IssueSnapshotView)>,
    states: Map<u64, IssueState>,
    ttl: Duration,
    now: Timestamp,
    truncated: bool,
    report: DriftReportView,
    issue: u64,
    other: u64,
    claim: ClaimView,
)
    requires
        is_drift_report(issues, states, ttl, now, truncated, report),
    ensures
        report.truncated == truncated,
        report.findings.contains(
            DriftFindingView::DependencyOnClosedIssue { issue, depends_on: other },
        ) <==> states.contains_key(other) && states[other] is Closed && exists|i: int|
            0 <= i < issues.len() && (#[trigger] issues[i]).2.number == issue
                && issues[i].2.relationships.blocked_by.contains(other),
        report.findings.contains(
            DriftFindingView::DependencyOnMissingIssue { issue, depends_on: other },
        ) <==> !states.contains_key(other) && exists|i: int|
            0 <= i < issues.len() && (#[trigger] issues[i]).2.number == issue
                && issues[i].2.relationships.blocked_by.contains(other),
        report.findings.contains(
            DriftFindingView::StaleClaim { issue, instance: claim.instance, epoch: claim.epoch },
        ) <==> crate::state::drift::is_stale(claim.epoch, ttl, now) && exists|i: int|
            0 <= i < issues.len() && (#[trigger] issues[i]).2.number == issue && issues[i].2.owner
                == Some(claim),
        report.findings.contains(
            DriftFindingView::MergedPrWithOpenIssue { issue, pull_request: other },
        ) <==> exists|i: int|
            0 <= i < issues.len() && (#[trigger] issues[i]).2.number == issue && issues[i].2.state
                is Open && has_linked(
                issues[i].2.linked_pull_requests,
                other,
                PullRequestState::Merged,
            ),
        report.claims.len() == claims_on(issues).len(),
{
    let (edges, claims) = (edges_in(issues), claims_on(issues));
    let (linked, labels) = (linked_to(issues), labels_on(issues));
    let pairs = pull_requests_to(issues);
    let cycles = choose|cycles: Seq<DriftFindingView>|
        #[trigger] crate::state::drift::are_the_cycles(edges, cycles) && report.findings == cycles
            + other_findings(issues, states, ttl, now);
    let closed = DriftFindingView::DependencyOnClosedIssue { issue, depends_on: other };
    let missing = DriftFindingView::DependencyOnMissingIssue { issue, depends_on: other };
    let stale = DriftFindingView::StaleClaim {
        issue,
        instance: claim.instance,
        epoch: claim.epoch,
    };
    let merged = DriftFindingView::MergedPrWithOpenIssue { issue, pull_request: other };
    findings_are_of_their_kind(issues, states, ttl, now, cycles, closed);
    findings_are_of_their_kind(issues, states, ttl, now, cycles, missing);
    findings_are_of_their_kind(issues, states, ttl, now, cycles, stale);
    findings_are_of_their_kind(issues, states, ttl, now, cycles, merged);
    crate::state::drift::dependencies_are_judged_by_their_state(
        edges,
        states,
        issue,
        other,
        closed,
    );
    crate::state::drift::stale_claims_are_reported(
        claims,
        ttl,
        now,
        issue,
        claim.instance,
        claim.epoch,
        stale,
    );
    crate::state::drift::merged_work_with_an_open_issue_is_reported(linked, issue, other, merged);
    assert forall|i: int| 0 <= i < issues.len() implies {
        &&& (#[trigger] edges[i]) == (issues[i].2.number, issues[i].2.relationships.blocked_by)
    } by {}
    if exists|i: int|
        0 <= i < edges.len() && (#[trigger] edges[i]).0 == issue && edges[i].1.contains(other) {
        let i = choose|i: int|
            0 <= i < edges.len() && (#[trigger] edges[i]).0 == issue && edges[i].1.contains(other);
        assert(issues[i].2.number == issue);
    }
    if exists|i: int|
        0 <= i < issues.len() && (#[trigger] issues[i]).2.number == issue
            && issues[i].2.relationships.blocked_by.contains(other) {
        let i = choose|i: int|
            0 <= i < issues.len() && (#[trigger] issues[i]).2.number == issue
                && issues[i].2.relationships.blocked_by.contains(other);
        assert(edges[i].0 == issue);
    }
    let read = |entry: (u64, Seq<Seq<char>>, IssueSnapshotView)| claim_on(entry);
    crate::ordered::read_off_a_member(issues, read, (issue, claim));
    if claims.contains((issue, claim)) {
        let i = choose|i: int|
            0 <= i < issues.len() && read(#[trigger] issues[i]) == Some((issue, claim));
        assert(issues[i].2.number == issue);
    }
    if exists|i: int|
        0 <= i < issues.len() && (#[trigger] issues[i]).2.number == issue && issues[i].2.owner
            == Some(claim) {
        let i = choose|i: int|
            0 <= i < issues.len() && (#[trigger] issues[i]).2.number == issue && issues[i].2.owner
                == Some(claim);
        assert(read(issues[i]) == Some((issue, claim)));
    }
    assert(claim == (ClaimView { instance: claim.instance, epoch: claim.epoch }));
    assert forall|i: int| 0 <= i < issues.len() implies (#[trigger] linked[i]).2.contains(
        (other, PullRequestState::Merged),
    ) == has_linked(issues[i].2.linked_pull_requests, other, PullRequestState::Merged) by {
        linked_by_number_and_state(
            issues[i].2.linked_pull_requests,
            other,
            PullRequestState::Merged,
        );
    }
    if exists|i: int|
        0 <= i < linked.len() && (#[trigger] linked[i]).0 == issue && linked[i].1 is Open
            && linked[i].2.contains((other, PullRequestState::Merged)) {
        let i = choose|i: int|
            0 <= i < linked.len() && (#[trigger] linked[i]).0 == issue && linked[i].1 is Open
                && linked[i].2.contains((other, PullRequestState::Merged));
        assert(issues[i].2.number == issue);
    }
    if exists|i: int|
        0 <= i < issues.len() && (#[trigger] issues[i]).2.number == issue && issues[i].2.state
            is Open && has_linked(
            issues[i].2.linked_pull_requests,
            other,
            PullRequestState::Merged,
        ) {
        let i = choose|i: int|
            0 <= i < issues.len() && (#[trigger] issues[i]).2.number == issue && issues[i].2.state
                is Open && has_linked(
                issues[i].2.linked_pull_requests,
                other,
                PullRequestState::Merged,
            );
        assert(linked[i].0 == issue);
    }
}

/// Whether a pull request of this number and state is among the linked ones.
pub open spec fn has_linked(
    statuses: Seq<crate::vcs::PullRequestStatus>,
    number: u64,
    state: PullRequestState,
) -> bool {
    exists|i: int|
        0 <= i < statuses.len() && (#[trigger] statuses[i]).number == number && statuses[i].state
            == state
}

/// A pull request is known by its number and state.
proof fn linked_by_number_and_state(
    statuses: Seq<crate::vcs::PullRequestStatus>,
    number: u64,
    state: PullRequestState,
)
    ensures
        numbers_and_states(statuses).contains((number, state)) == has_linked(
            statuses,
            number,
            state,
        ),
{
    let pairs = numbers_and_states(statuses);
    if pairs.contains((number, state)) {
        let i = pairs.index_of((number, state));
        assert(statuses[i].number == number);
    }
    if has_linked(statuses, number, state) {
        let i = choose|i: int|
            0 <= i < statuses.len() && (#[trigger] statuses[i]).number == number
                && statuses[i].state == state;
        assert(pairs[i] == (number, state));
    }
}

/// A finding is in a report exactly where it is among those of its kind.
proof fn findings_are_of_their_kind(
    issues: Seq<(u64, Seq<Seq<char>>, IssueSnapshotView)>,
    states: Map<u64, IssueState>,
    ttl: Duration,
    now: Timestamp,
    cycles: Seq<DriftFindingView>,
    finding: DriftFindingView,
)
    requires
        crate::state::drift::are_the_cycles(edges_in(issues), cycles),
    ensures
        (cycles + other_findings(issues, states, ttl, now)).contains(finding) <==> match finding {
            DriftFindingView::DependencyCycle { .. } => cycles.contains(finding),
            DriftFindingView::DependencyOnClosedIssue { .. }
            | DriftFindingView::DependencyOnMissingIssue { .. } => {
                crate::state::drift::closed_or_missing(edges_in(issues), states).contains(finding)
            },
            DriftFindingView::StaleClaim { .. } => {
                crate::state::drift::stale_claims(claims_on(issues), ttl, now).contains(finding)
            },
            DriftFindingView::MergedPrWithOpenIssue { .. } => {
                crate::state::drift::merged_with_open_issue(linked_to(issues)).contains(finding)
            },
            DriftFindingView::AmbiguousLabels { .. } => {
                crate::state::drift::ambiguous_labels(labels_on(issues)).contains(finding)
            },
            DriftFindingView::MultipleOpenLinkedPullRequests { .. } => {
                crate::state::drift::multiple_open(pull_requests_to(issues)).contains(finding)
            },
        },
{
    let a = crate::state::drift::closed_or_missing(edges_in(issues), states);
    let b = crate::state::drift::stale_claims(claims_on(issues), ttl, now);
    let c = crate::state::drift::merged_with_open_issue(linked_to(issues));
    let d = crate::state::drift::ambiguous_labels(labels_on(issues));
    let e = crate::state::drift::multiple_open(pull_requests_to(issues));
    crate::ordered::in_either(cycles, a + b + c + d + e, finding);
    crate::ordered::in_either(a + b + c + d, e, finding);
    crate::ordered::in_either(a + b + c, d, finding);
    crate::ordered::in_either(a + b, c, finding);
    crate::ordered::in_either(a, b, finding);
    crate::state::drift::cycles_of_blocked_issues_are_reported(
        edges_in(issues),
        cycles,
        Seq::empty(),
    );
    crate::state::drift::dependencies_are_judged_by_their_state(
        edges_in(issues),
        states,
        0,
        0,
        finding,
    );
    crate::state::drift::stale_claims_are_reported(
        claims_on(issues),
        ttl,
        now,
        0,
        Seq::empty(),
        0,
        finding,
    );
    crate::state::drift::merged_work_with_an_open_issue_is_reported(
        linked_to(issues),
        0,
        0,
        finding,
    );
    crate::state::drift::ambiguous_labels_are_reported(
        labels_on(issues),
        0,
        Seq::empty(),
        Seq::empty(),
        finding,
    );
    crate::state::drift::several_open_pull_requests_are_reported(
        pull_requests_to(issues),
        0,
        Seq::empty(),
        finding,
    );
    if cycles.contains(finding) {
        let i = cycles.index_of(finding);
        assert(cycles[i] is DependencyCycle);
    }
}

/// The rest of what a report names: the cycles among the issues, labels that
/// contradict each other, and pull requests that compete; exactly where they are
/// the case.
pub proof fn a_report_names_cycles_and_ambiguity(
    issues: Seq<(u64, Seq<Seq<char>>, IssueSnapshotView)>,
    states: Map<u64, IssueState>,
    ttl: Duration,
    now: Timestamp,
    truncated: bool,
    report: DriftReportView,
    cycle: Seq<u64>,
    at: int,
    prefix: Seq<char>,
)
    requires
        is_drift_report(issues, states, ttl, now, truncated, report),
        0 <= at < issues.len(),
        prefix == "status:"@ || prefix == "owner:"@,
    ensures
        report.findings.contains(DriftFindingView::DependencyCycle { cycle }) <==> {
            &&& crate::state::cycles::is_cycle(edges_in(issues), cycle)
            &&& forall|i: int| 0 <= i < cycle.len() ==> cycle[0] <= #[trigger] cycle[i]
        },
        ({
            let labels = issues[at].1.filter(|label: Seq<char>| prefix.is_prefix_of(label));
            labels.len() > 1 ==> report.findings.contains(
                DriftFindingView::AmbiguousLabels { issue: issues[at].0, prefix, labels },
            )
        }),
        ({
            let open = crate::state::drift::open_numbers(
                numbers_and_states(issues[at].2.linked_pull_requests),
            );
            open.len() > 1 ==> report.findings.contains(
                DriftFindingView::MultipleOpenLinkedPullRequests {
                    issue: issues[at].2.number,
                    pull_requests: open,
                },
            )
        }),
        edges_in(issues)[at] == (issues[at].2.number, issues[at].2.relationships.blocked_by),
{
    let cycles = choose|cycles: Seq<DriftFindingView>|
        #[trigger] crate::state::drift::are_the_cycles(edges_in(issues), cycles)
            && report.findings == cycles + other_findings(issues, states, ttl, now);
    let labels = issues[at].1.filter(|label: Seq<char>| prefix.is_prefix_of(label));
    let open = crate::state::drift::open_numbers(
        numbers_and_states(issues[at].2.linked_pull_requests),
    );
    let round = DriftFindingView::DependencyCycle { cycle };
    let ambiguous = DriftFindingView::AmbiguousLabels { issue: issues[at].0, prefix, labels };
    let several = DriftFindingView::MultipleOpenLinkedPullRequests {
        issue: issues[at].2.number,
        pull_requests: open,
    };
    findings_are_of_their_kind(issues, states, ttl, now, cycles, round);
    findings_are_of_their_kind(issues, states, ttl, now, cycles, ambiguous);
    findings_are_of_their_kind(issues, states, ttl, now, cycles, several);
    crate::state::drift::cycles_of_blocked_issues_are_reported(edges_in(issues), cycles, cycle);
    crate::state::drift::ambiguous_labels_are_reported(
        labels_on(issues),
        issues[at].0,
        prefix,
        labels,
        ambiguous,
    );
    crate::state::drift::several_open_pull_requests_are_reported(
        pull_requests_to(issues),
        issues[at].2.number,
        open,
        several,
    );
    assert(labels_on(issues)[at] == (issues[at].0, issues[at].1));
    assert(pull_requests_to(issues)[at] == (
        issues[at].2.number,
        numbers_and_states(issues[at].2.linked_pull_requests),
    ));
}

/// A claim's holder is told with the claim itself, and called stale exactly
/// where a claim on the same issue is.
pub proof fn holders_are_told_with_their_claims(
    claims: Seq<(u64, ClaimView)>,
    ttl: Duration,
    now: Timestamp,
    at: int,
)
    requires
        0 <= at < claims.len(),
    ensures
        holders_of(claims, ttl, now).len() == claims.len(),
        holders_of(claims, ttl, now)[at].issue == claims[at].0,
        holders_of(claims, ttl, now)[at].claim == claims[at].1,
        crate::state::drift::is_stale(claims[at].1.epoch, ttl, now) ==> holders_of(
            claims,
            ttl,
            now,
        )[at].stale,
        (forall|i: int|
            0 <= i < claims.len() && (#[trigger] claims[i]).0 == claims[at].0
                ==> !crate::state::drift::is_stale(claims[i].1.epoch, ttl, now)) ==> !holders_of(
            claims,
            ttl,
            now,
        )[at].stale,
{
    if crate::state::drift::is_stale(claims[at].1.epoch, ttl, now) {
        assert(has_stale_claim(claims, ttl, now, claims[at].0));
    }
}

/// The state of an issue that was read is known, and an issue is looked up on
/// its own exactly where some issue is blocked by it and it was not read.
pub proof fn only_unread_dependencies_are_looked_up(
    issues: Seq<(u64, Seq<Seq<char>>, IssueSnapshotView)>,
    number: u64,
)
    ensures
        states_in(issues).contains_key(number) <==> exists|i: int|
            0 <= i < issues.len() && (#[trigger] issues[i]).2.number == number,
        off_board(issues).contains(number) <==> {
            &&& forall|i: int| 0 <= i < issues.len() ==> (#[trigger] issues[i]).2.number != number
            &&& exists|i: int|
                0 <= i < issues.len() && (
                #[trigger] issues[i]).2.relationships.blocked_by.contains(number)
        },
{
    read_states_are_known(issues, number);
    off_board_is_listed(issues);
    let edges = edges_in(issues);
    assert(off_board(issues).contains(number) <==> is_off_board(issues, number));
    if exists|i: int|
        0 <= i < issues.len() && (#[trigger] issues[i]).2.relationships.blocked_by.contains(
            number,
        ) {
        let i = choose|i: int|
            0 <= i < issues.len() && (
            #[trigger] issues[i]).2.relationships.blocked_by.contains(number);
        assert(edges[i].1.contains(number));
    }
    if exists|i: int| 0 <= i < issues.len() && (#[trigger] edges[i]).1.contains(number) {
        let i = choose|i: int| 0 <= i < issues.len() && (#[trigger] edges[i]).1.contains(number);
        assert(issues[i].2.relationships.blocked_by.contains(number));
    }
}

/// The state of an issue is known exactly where it was read.
proof fn read_states_are_known(
    issues: Seq<(u64, Seq<Seq<char>>, IssueSnapshotView)>,
    number: u64,
)
    ensures
        states_in(issues).contains_key(number) <==> exists|i: int|
            0 <= i < issues.len() && (#[trigger] issues[i]).2.number == number,
    decreases issues.len(),
{
    if issues.len() > 0 {
        let rest = issues.drop_last();
        read_states_are_known(rest, number);
        if exists|i: int| 0 <= i < rest.len() && (#[trigger] rest[i]).2.number == number {
            let i = choose|i: int| 0 <= i < rest.len() && (#[trigger] rest[i]).2.number == number;
            assert(issues[i].2.number == number);
        }
        if issues.last().2.number == number {
            assert(issues[issues.len() - 1].2.number == number);
        }
        if exists|i: int| 0 <= i < issues.len() && (#[trigger] issues[i]).2.number == number {
            let i = choose|i: int|
                0 <= i < issues.len() && (#[trigger] issues[i]).2.number == number;
            if i < rest.len() {
                assert(rest[i].2.number == number);
            }
        }
    }
}

/// A directory belongs to a registered project where it is that project's
/// directory or anything below it; the first such project in the registry is
/// the one that is found. Where it is in none, or not absolute, that is said.
pub proof fn directories_are_located_by_containment(
    projects: Seq<ProjectPointerView>,
    cwd: Seq<char>,
    outcome: Result<ProjectPointerView, ToolErrorView>,
    i: int,
    name: Seq<char>,
)
    requires
        is_located_in(projects, cwd, outcome),
        cwd.len() > 0,
    ensures
        cwd[0] != '/' ==> outcome == Err::<ProjectPointerView, ToolErrorView>(
            ToolErrorView::CwdNotAbsolute { cwd },
        ),
        cwd[0] == '/' && 0 <= i < projects.len() && (cwd == projects[i].project_dir || (
        projects[i].project_dir.len() > 0 && crate::paths::is_plain_name(name) && cwd
            == crate::paths::joined(projects[i].project_dir, name))) ==> outcome is Ok && exists|k: int|
            0 <= k <= i && #[trigger] projects[k] == outcome->Ok_0,
        outcome matches Ok(pointer) ==> projects.contains(pointer) && crate::paths::is_within(
            cwd,
            pointer.project_dir,
        ),
        cwd[0] == '/' && (outcome matches Err(error)) ==> outcome->Err_0
            == (ToolErrorView::UnregisteredDirectory { cwd }),
{
    reveal_strlit("/");
    if "/"@.is_prefix_of(cwd) {
        assert(cwd.subrange(0, 1)[0] == '/');
    }
    if cwd[0] == '/' {
        assert(cwd.subrange(0, 1) =~= "/"@);
    }
    if 0 <= i < projects.len() {
        let dir = projects[i].project_dir;
        if cwd == dir {
            let parts = crate::paths::path_components(dir);
            assert(parts.subrange(0, parts.len() as int) =~= parts);
            assert(crate::paths::is_within(cwd, dir));
        } else if dir.len() > 0 && crate::paths::is_plain_name(name) && cwd
            == crate::paths::joined(dir, name) {
            crate::paths::what_is_joined_is_below(dir, name, Seq::empty());
        }
        if crate::paths::is_within(cwd, dir) && cwd[0] == '/' {
            let at = choose|at: int| #[trigger]
                crate::registry::is_first_containing(projects, cwd, at) && projects[at]
                    == outcome->Ok_0;
            assert(at <= i);
            assert(projects[at] == outcome->Ok_0);
        }
    }
}

} // verus!
