//! The board and the backlog: one row per issue, from its already-derived
//! state.

use vstd::prelude::*;

use crate::numbers::decimal_text;
use crate::schedule::{comes_first, priority_rank};
use crate::state::{IssueSnapshot, IssueSnapshotView, Priority};
use crate::text::clone_texts;
use crate::vcs::{
    IssueRelationships, IssueRelationshipsView, IssueState, PullRequestStatus,
};
use crate::workflow::{handoff_ready_reached, readiness_gap, WorkflowLabels};

verus! {

/// One row of the board.
#[derive(Debug, Eq, PartialEq)]
pub struct BoardRow {
    /// The issue number.
    pub number: u64,
    /// The issue title.
    pub title: String,
    /// The issue's GitHub URL.
    pub url: String,
    /// Open or closed.
    pub state: IssueState,
    /// The current workflow phase.
    pub status: Option<String>,
    /// The issue's priority.
    pub priority: Option<Priority>,
    /// Phases still needing a human gate on this issue.
    pub gates: Vec<String>,
    /// Phases already approved on this issue.
    pub approvals: Vec<String>,
    /// The claiming instance's id, if any.
    pub owner: Option<String>,
    /// Dependency and hierarchy edges.
    pub relationships: IssueRelationships,
    /// The most relevant linked pull request, if any.
    pub pull_request: Option<PullRequestStatus>,
}

/// The contents of a [`BoardRow`].
pub struct BoardRowView {
    pub number: u64,
    pub title: Seq<char>,
    pub url: Seq<char>,
    pub state: IssueState,
    pub status: Option<Seq<char>>,
    pub priority: Option<Priority>,
    pub gates: Seq<Seq<char>>,
    pub approvals: Seq<Seq<char>>,
    pub owner: Option<Seq<char>>,
    pub relationships: IssueRelationshipsView,
    pub pull_request: Option<PullRequestStatus>,
}

impl View for BoardRow {
    type V = BoardRowView;

    open spec fn view(&self) -> BoardRowView {
        BoardRowView {
            number: self.number,
            title: self.title@,
            url: self.url@,
            state: self.state,
            status: crate::text::text_view(self.status),
            priority: self.priority,
            gates: crate::text::texts(self.gates@),
            approvals: crate::text::texts(self.approvals@),
            owner: crate::text::text_view(self.owner),
            relationships: self.relationships@,
            pull_request: self.pull_request,
        }
    }
}

/// The contents of several rows.
pub open spec fn rows_view(rows: Seq<BoardRow>) -> Seq<BoardRowView> {
    rows.map_values(|row: BoardRow| row@)
}

/// The GitHub URL of an issue.
pub open spec fn url_of(repo: Seq<char>, host: Option<Seq<char>>, number: u64) -> Seq<char> {
    let host = match host {
        Some(host) => host,
        None => "github.com"@,
    };
    "https://"@ + host + "/"@ + repo + "/issues/"@ + crate::numbers::decimal(number as nat)
}

/// The contents of an optional slice.
pub open spec fn slice_view(text: Option<&str>) -> Option<Seq<char>> {
    match text {
        Some(text) => Some(text@),
        None => None,
    }
}

/// The GitHub URL for `issue_number` in `repo` (`owner/repo`), on `host`, or
/// on `github.com` where none is given.
pub fn issue_url(repo: &str, host: Option<&str>, issue_number: u64) -> (url: String)
    ensures
        url@ == url_of(repo@, slice_view(host), issue_number),
{
    let host = match host {
        Some(host) => host,
        None => "github.com",
    };
    "https://".to_string().concat(host).concat("/").concat(repo).concat("/issues/").concat(
        decimal_text(issue_number).as_str(),
    )
}

/// The row of an issue.
pub open spec fn row_of(
    snapshot: IssueSnapshotView,
    repo: Seq<char>,
    host: Option<Seq<char>>,
) -> BoardRowView {
    BoardRowView {
        number: snapshot.number,
        title: snapshot.title,
        url: url_of(repo, host, snapshot.number),
        state: snapshot.state,
        status: snapshot.status,
        priority: snapshot.priority,
        gates: snapshot.gates,
        approvals: snapshot.approvals,
        owner: match snapshot.owner {
            Some(claim) => Some(claim.instance),
            None => None,
        },
        relationships: snapshot.relationships,
        pull_request: snapshot.pull_request,
    }
}

/// The row of each of several issues, in the same order.
pub open spec fn rows_of(
    snapshots: Seq<IssueSnapshotView>,
    repo: Seq<char>,
    host: Option<Seq<char>>,
) -> Seq<BoardRowView> {
    snapshots.map_values(|snapshot: IssueSnapshotView| row_of(snapshot, repo, host))
}

/// Rows are sorted by their issue number.
pub open spec fn row_key() -> spec_fn(BoardRowView) -> (int, int, int) {
    |row: BoardRowView| (0int, 0int, row.number as int)
}

/// Whether `rows` is the board of several issues: one row for each, sorted by
/// issue number.
pub open spec fn is_board(
    snapshots: Seq<IssueSnapshotView>,
    repo: Seq<char>,
    host: Option<Seq<char>>,
    rows: Seq<BoardRowView>,
) -> bool {
    crate::ordered::is_stable_order(rows_of(snapshots, repo, host), rows, row_key())
}

/// The contents of several snapshots.
pub open spec fn snapshots_view(snapshots: Seq<IssueSnapshot>) -> Seq<IssueSnapshotView> {
    snapshots.map_values(|snapshot: IssueSnapshot| snapshot@)
}

/// Builds the row of one issue.
fn board_row(snapshot: &IssueSnapshot, repo: &str, host: Option<&str>) -> (row: BoardRow)
    ensures
        row@ == row_of(snapshot@, repo@, slice_view(host)),
{
    let status = match &snapshot.status {
        Some(status) => Some(status.clone()),
        None => None,
    };
    let owner = match &snapshot.owner {
        Some(claim) => Some(claim.instance.clone()),
        None => None,
    };
    BoardRow {
        number: snapshot.number,
        title: snapshot.title.clone(),
        url: issue_url(repo, host, snapshot.number),
        state: snapshot.state,
        status,
        priority: snapshot.priority,
        gates: clone_texts(&snapshot.gates),
        approvals: clone_texts(&snapshot.approvals),
        owner,
        relationships: snapshot.relationships.clone(),
        pull_request: snapshot.pull_request,
    }
}

/// Builds the board: one row per snapshot, sorted by issue number.
pub fn build_board(snapshots: &[IssueSnapshot], repo: &str, host: Option<&str>) -> (rows: Vec<
    BoardRow,
>)
    ensures
        is_board(snapshots_view(snapshots@), repo@, slice_view(host), rows_view(rows@)),
{
    let ghost all = rows_of(snapshots_view(snapshots@), repo@, slice_view(host));
    let ghost key = row_key();
    let mut rows: Vec<BoardRow> = Vec::new();
    let mut i: usize = 0;
    assert(all.take(0) =~= rows_view(rows@));
    while i < snapshots.len()
        invariant
            i <= snapshots@.len(),
            all == rows_of(snapshots_view(snapshots@), repo@, slice_view(host)),
            key == row_key(),
            crate::ordered::is_stable_order(all.take(i as int), rows_view(rows@), key),
        decreases snapshots@.len() - i,
    {
        let row = board_row(&snapshots[i], repo, host);
        let ghost sorted = rows_view(rows@);
        let ghost view = row@;
        let mut at: usize = rows.len();
        while at > 0 && rows[at - 1].number > row.number
            invariant
                at <= rows@.len(),
                sorted == rows_view(rows@),
                forall|k: int| at <= k < sorted.len() ==> (#[trigger] sorted[k]).number > row.number,
            decreases at,
        {
            assert(sorted[at - 1] == rows@[at - 1]@);
            at -= 1;
        }
        proof {
            assert forall|k: int| 0 <= k < at implies crate::ordered::key_le(
                key(#[trigger] sorted[k]),
                key(view),
            ) by {
                assert(sorted[at - 1] == rows@[at - 1]@);
                if k < at - 1 {
                    assert(crate::ordered::key_le(key(sorted[k]), key(sorted[at - 1])));
                }
            }
            crate::ordered::insert_keeps_order(all.take(i as int), sorted, key, at as int, view);
            assert(all[i as int] == view);
            assert(all.take(i + 1) =~= all.take(i as int).push(view));
        }
        rows.insert(at, row);
        assert(rows_view(rows@) =~= sorted.insert(at as int, view));
        i += 1;
    }
    assert(all.take(i as int) =~= all);
    rows
}

/// The board has one row for each issue that it was built from, no more and no
/// fewer, in ascending order of their numbers.
pub proof fn board_has_every_issue_once(
    snapshots: Seq<IssueSnapshotView>,
    repo: Seq<char>,
    host: Option<Seq<char>>,
    rows: Seq<BoardRowView>,
)
    requires
        is_board(snapshots, repo, host, rows),
    ensures
        rows.to_multiset() == rows_of(snapshots, repo, host).to_multiset(),
        rows.len() == snapshots.len(),
        forall|i: int, j: int|
            0 <= i < j < rows.len() ==> (#[trigger] rows[i]).number <= (#[trigger] rows[j]).number,
{
    let key = row_key();
    crate::ordered::stable_order_is_permutation(rows_of(snapshots, repo, host), rows, key);
    assert forall|i: int, j: int| 0 <= i < j < rows.len() implies (#[trigger] rows[i]).number <= (
    #[trigger] rows[j]).number by {
        assert(crate::ordered::key_le(key(rows[i]), key(rows[j])));
    }
}

/// One row of the backlog: an issue that is not ready to be worked on.
#[derive(Debug, Eq, PartialEq)]
pub struct BacklogRow {
    /// The issue number.
    pub number: u64,
    /// The issue title.
    pub title: String,
    /// The issue's GitHub URL.
    pub url: String,
    /// The current workflow phase.
    pub status: Option<String>,
    /// The issue's priority.
    pub priority: Option<Priority>,
    /// The phases between this issue and its handoff.
    pub readiness_gap: Vec<String>,
}

/// The contents of a [`BacklogRow`].
pub struct BacklogRowView {
    pub number: u64,
    pub title: Seq<char>,
    pub url: Seq<char>,
    pub status: Option<Seq<char>>,
    pub priority: Option<Priority>,
    pub readiness_gap: Seq<Seq<char>>,
}

impl View for BacklogRow {
    type V = BacklogRowView;

    open spec fn view(&self) -> BacklogRowView {
        BacklogRowView {
            number: self.number,
            title: self.title@,
            url: self.url@,
            status: crate::text::text_view(self.status),
            priority: self.priority,
            readiness_gap: crate::text::texts(self.readiness_gap@),
        }
    }
}

/// The contents of several rows of the backlog.
pub open spec fn backlog_view(rows: Seq<BacklogRow>) -> Seq<BacklogRowView> {
    rows.map_values(|row: BacklogRow| row@)
}

/// The row that an issue has on the backlog.
pub open spec fn backlog_row_of(
    snapshot: IssueSnapshotView,
    labels: WorkflowLabels,
    repo: Seq<char>,
    host: Option<Seq<char>>,
) -> BacklogRowView {
    BacklogRowView {
        number: snapshot.number,
        title: snapshot.title,
        url: url_of(repo, host, snapshot.number),
        status: snapshot.status,
        priority: snapshot.priority,
        readiness_gap: crate::workflow::gap_of(labels, snapshot.approvals),
    }
}

/// The issues that have not been handed off.
pub open spec fn not_handed_off(
    snapshots: Seq<IssueSnapshotView>,
    labels: WorkflowLabels,
) -> Seq<IssueSnapshotView> {
    snapshots.filter(
        |snapshot: IssueSnapshotView|
            !crate::workflow::is_handed_off(labels, snapshot.status),
    )
}

/// The row of each issue that has not been handed off, in the same order.
pub open spec fn backlog_rows_of(
    snapshots: Seq<IssueSnapshotView>,
    labels: WorkflowLabels,
    repo: Seq<char>,
    host: Option<Seq<char>>,
) -> Seq<BacklogRowView> {
    not_handed_off(snapshots, labels).map_values(
        |snapshot: IssueSnapshotView| backlog_row_of(snapshot, labels, repo, host),
    )
}

/// What the backlog is sorted by: the most urgent first, then the oldest, an
/// older issue having a lower number.
pub open spec fn backlog_key() -> spec_fn(BacklogRowView) -> (int, int, int) {
    |row: BacklogRowView|
        (0int, crate::schedule::priority_rank_of(row.priority), row.number as int)
}

/// Whether `rows` is the backlog of several issues: one row for each that has
/// not been handed off, sorted.
pub open spec fn is_backlog(
    snapshots: Seq<IssueSnapshotView>,
    labels: WorkflowLabels,
    repo: Seq<char>,
    host: Option<Seq<char>>,
    rows: Seq<BacklogRowView>,
) -> bool {
    crate::ordered::is_stable_order(
        backlog_rows_of(snapshots, labels, repo, host),
        rows,
        backlog_key(),
    )
}

/// Builds the row that an issue has on the backlog.
fn backlog_row(
    snapshot: &IssueSnapshot,
    labels: &WorkflowLabels,
    repo: &str,
    host: Option<&str>,
) -> (row: BacklogRow)
    ensures
        row@ == backlog_row_of(snapshot@, *labels, repo@, slice_view(host)),
{
    let status = match &snapshot.status {
        Some(status) => Some(status.clone()),
        None => None,
    };
    BacklogRow {
        number: snapshot.number,
        title: snapshot.title.clone(),
        url: issue_url(repo, host, snapshot.number),
        status,
        priority: snapshot.priority,
        readiness_gap: readiness_gap(labels, &snapshot.approvals),
    }
}

/// Builds the backlog: one row per snapshot of an issue that has not been
/// handed off, the most urgent and then the oldest first.
pub fn build_backlog(
    snapshots: &[IssueSnapshot],
    labels: &WorkflowLabels,
    repo: &str,
    host: Option<&str>,
) -> (rows: Vec<BacklogRow>)
    ensures
        is_backlog(
            snapshots_view(snapshots@),
            *labels,
            repo@,
            slice_view(host),
            backlog_view(rows@),
        ),
{
    let ghost all = snapshots_view(snapshots@);
    let ghost keep = |snapshot: IssueSnapshotView|
        !crate::workflow::is_handed_off(*labels, snapshot.status);
    let ghost render = |snapshot: IssueSnapshotView|
        backlog_row_of(snapshot, *labels, repo@, slice_view(host));
    let ghost key = backlog_key();
    let mut rows: Vec<BacklogRow> = Vec::new();
    let mut i: usize = 0;
    proof {
        reveal(Seq::filter);
        assert(all.take(0).filter(keep).map_values(render) =~= backlog_view(rows@));
    }
    while i < snapshots.len()
        invariant
            i <= snapshots@.len(),
            all == snapshots_view(snapshots@),
            keep == (|snapshot: IssueSnapshotView|
                !crate::workflow::is_handed_off(*labels, snapshot.status)),
            render == (|snapshot: IssueSnapshotView|
                backlog_row_of(snapshot, *labels, repo@, slice_view(host))),
            key == backlog_key(),
            crate::ordered::is_stable_order(
                all.take(i as int).filter(keep).map_values(render),
                backlog_view(rows@),
                key,
            ),
        decreases snapshots@.len() - i,
    {
        let snapshot = &snapshots[i];
        let ghost kept = all.take(i as int).filter(keep);
        proof {
            assert(all[i as int] == snapshot@);
            assert(all.take(i + 1) =~= all.take(i as int).push(snapshot@));
            all.take(i as int).lemma_filter_push(snapshot@, keep);
        }
        let status = match &snapshot.status {
            Some(status) => Some(status.as_str()),
            None => None,
        };
        if !handoff_ready_reached(labels, status) {
            let row = backlog_row(snapshot, labels, repo, host);
            let new_key: (i32, u8, u64) = (0, priority_rank(row.priority), row.number);
            let ghost sorted = backlog_view(rows@);
            let ghost view = row@;
            let mut at: usize = rows.len();
            while at > 0 && !comes_first(
                (0, priority_rank(rows[at - 1].priority), rows[at - 1].number),
                new_key,
            )
                invariant
                    at <= rows@.len(),
                    sorted == backlog_view(rows@),
                    key == backlog_key(),
                    key(view) == (new_key.0 as int, new_key.1 as int, new_key.2 as int),
                    forall|k: int|
                        at <= k < sorted.len() ==> !crate::ordered::key_le(
                            key(#[trigger] sorted[k]),
                            key(view),
                        ),
                decreases at,
            {
                assert(sorted[at - 1] == rows@[at - 1]@);
                at -= 1;
            }
            proof {
                assert forall|k: int| 0 <= k < at implies crate::ordered::key_le(
                    key(#[trigger] sorted[k]),
                    key(view),
                ) by {
                    assert(sorted[at - 1] == rows@[at - 1]@);
                    if k < at - 1 {
                        assert(crate::ordered::key_le(key(sorted[k]), key(sorted[at - 1])));
                    }
                }
                crate::ordered::insert_keeps_order(
                    kept.map_values(render),
                    sorted,
                    key,
                    at as int,
                    view,
                );
                assert(kept.push(snapshot@).map_values(render) =~= kept.map_values(render).push(
                    view,
                ));
            }
            rows.insert(at, row);
            assert(backlog_view(rows@) =~= sorted.insert(at as int, view));
        }
        i += 1;
    }
    assert(all.take(i as int) =~= all);
    rows
}

/// An issue is on the backlog exactly where it is among those that were read
/// and has not been handed off; a more urgent issue never comes after a less
/// urgent one, nor an older one after a younger one of the same urgency.
pub proof fn backlog_holds_what_is_not_ready(
    snapshots: Seq<IssueSnapshotView>,
    labels: WorkflowLabels,
    repo: Seq<char>,
    host: Option<Seq<char>>,
    rows: Seq<BacklogRowView>,
)
    requires
        is_backlog(snapshots, labels, repo, host, rows),
    ensures
        rows.len() == not_handed_off(snapshots, labels).len(),
        forall|row: BacklogRowView| #[trigger]
            rows.contains(row) <==> exists|i: int|
                0 <= i < snapshots.len() && !crate::workflow::is_handed_off(
                    labels,
                    (#[trigger] snapshots[i]).status,
                ) && row == backlog_row_of(snapshots[i], labels, repo, host),
        forall|i: int, j: int|
            0 <= i < j < rows.len() ==> {
                let (a, b) = (
                    crate::schedule::priority_rank_of((#[trigger] rows[i]).priority),
                    crate::schedule::priority_rank_of((#[trigger] rows[j]).priority),
                );
                a < b || (a == b && rows[i].number <= rows[j].number)
            },
{
    let key = backlog_key();
    let keep = |snapshot: IssueSnapshotView|
        !crate::workflow::is_handed_off(labels, snapshot.status);
    let kept = not_handed_off(snapshots, labels);
    let all = backlog_rows_of(snapshots, labels, repo, host);
    crate::ordered::stable_order_is_permutation(all, rows, key);
    rows.to_multiset_ensures();
    all.to_multiset_ensures();
    assert forall|row: BacklogRowView| #[trigger] rows.contains(row) <==> exists|i: int|
        0 <= i < snapshots.len() && !crate::workflow::is_handed_off(
            labels,
            (#[trigger] snapshots[i]).status,
        ) && row == backlog_row_of(snapshots[i], labels, repo, host) by {
        assert(rows.to_multiset().count(row) == all.to_multiset().count(row));
        if all.contains(row) {
            let k = all.index_of(row);
            snapshots.lemma_filter_pred(keep, k);
            snapshots.lemma_filter_contains_rev(keep, kept[k]);
            let i = snapshots.index_of(kept[k]);
            assert(snapshots[i] == kept[k]);
        }
        if exists|i: int|
            0 <= i < snapshots.len() && !crate::workflow::is_handed_off(
                labels,
                (#[trigger] snapshots[i]).status,
            ) && row == backlog_row_of(snapshots[i], labels, repo, host) {
            let i = choose|i: int|
                0 <= i < snapshots.len() && !crate::workflow::is_handed_off(
                    labels,
                    (#[trigger] snapshots[i]).status,
                ) && row == backlog_row_of(snapshots[i], labels, repo, host);
            snapshots.lemma_filter_contains(keep, i);
            let k = kept.index_of(snapshots[i]);
            assert(all[k] == row);
        }
    }
    assert forall|i: int, j: int| 0 <= i < j < rows.len() implies ({
        let (a, b) = (
            crate::schedule::priority_rank_of((#[trigger] rows[i]).priority),
            crate::schedule::priority_rank_of((#[trigger] rows[j]).priority),
        );
        a < b || (a == b && rows[i].number <= rows[j].number)
    }) by {
        assert(crate::ordered::key_le(key(rows[i]), key(rows[j])));
    }
}

/// An issue is found on its project's host, and on `github.com` where none is
/// given: at its repo, under `issues`, by its number.
pub proof fn urls_name_host_repo_and_number(repo: Seq<char>, host: Seq<char>, number: u64)
    ensures
        url_of(repo, None, number) == "https://github.com/"@ + repo + "/issues/"@
            + crate::numbers::decimal(number as nat),
        url_of(repo, Some(host), number) == "https://"@ + host + "/"@ + repo + "/issues/"@
            + crate::numbers::decimal(number as nat),
{
    reveal_strlit("https://github.com/");
    reveal_strlit("https://");
    reveal_strlit("github.com");
    reveal_strlit("/");
    assert("https://"@ + "github.com"@ + "/"@ =~= "https://github.com/"@);
}

/// Every row of the board tells of one issue that was read, and tells of it what
/// was read: its owner by the instance that claimed it, and everything else as
/// it is.
pub proof fn rows_tell_what_was_read(
    snapshots: Seq<IssueSnapshotView>,
    repo: Seq<char>,
    host: Option<Seq<char>>,
    rows: Seq<BoardRowView>,
    i: int,
)
    requires
        is_board(snapshots, repo, host, rows),
        0 <= i < rows.len(),
    ensures
        exists|k: int|
            {
                let snapshot = #[trigger] snapshots[k];
                &&& 0 <= k < snapshots.len()
                &&& rows[i].number == snapshot.number
                &&& rows[i].title == snapshot.title
                &&& rows[i].url == url_of(repo, host, snapshot.number)
                &&& rows[i].state == snapshot.state
                &&& rows[i].status == snapshot.status
                &&& rows[i].priority == snapshot.priority
                &&& rows[i].gates == snapshot.gates
                &&& rows[i].approvals == snapshot.approvals
                &&& rows[i].owner is Some <==> snapshot.owner is Some
                &&& rows[i].owner is Some ==> rows[i].owner->0 == snapshot.owner->0.instance
                &&& rows[i].relationships == snapshot.relationships
                &&& rows[i].pull_request == snapshot.pull_request
            },
{
    let all = rows_of(snapshots, repo, host);
    crate::ordered::stable_order_is_permutation(all, rows, row_key());
    rows.to_multiset_ensures();
    all.to_multiset_ensures();
    assert(rows.contains(rows[i]));
    assert(rows.to_multiset().count(rows[i]) > 0);
    assert(all.contains(rows[i]));
    let k = all.index_of(rows[i]);
    let snapshot = snapshots[k];
    assert(all[k] == row_of(snapshot, repo, host));
}

/// Every issue that was read has its row on the board.
pub proof fn every_issue_has_its_row(
    snapshots: Seq<IssueSnapshotView>,
    repo: Seq<char>,
    host: Option<Seq<char>>,
    rows: Seq<BoardRowView>,
    k: int,
)
    requires
        is_board(snapshots, repo, host, rows),
        0 <= k < snapshots.len(),
    ensures
        exists|i: int|
            0 <= i < rows.len() && (#[trigger] rows[i]).number == snapshots[k].number
                && rows[i].title == snapshots[k].title && rows[i].status == snapshots[k].status,
{
    let all = rows_of(snapshots, repo, host);
    crate::ordered::stable_order_is_permutation(all, rows, row_key());
    rows.to_multiset_ensures();
    all.to_multiset_ensures();
    assert(all.contains(all[k]));
    assert(all.to_multiset().count(all[k]) > 0);
    assert(rows.contains(all[k]));
    let i = rows.index_of(all[k]);
    assert(rows[i].number == snapshots[k].number);
}

/// A row of the backlog tells of an issue that was read and not handed off: what
/// was read of it, and which phases stand between it and its handoff.
pub proof fn backlog_rows_tell_what_is_missing(
    snapshots: Seq<IssueSnapshotView>,
    labels: WorkflowLabels,
    repo: Seq<char>,
    host: Option<Seq<char>>,
    rows: Seq<BacklogRowView>,
    i: int,
    j: int,
)
    requires
        is_backlog(snapshots, labels, repo, host, rows),
        0 <= i < rows.len(),
    ensures
        exists|k: int|
            {
                let snapshot = #[trigger] snapshots[k];
                &&& 0 <= k < snapshots.len()
                &&& !crate::workflow::is_handed_off(labels, snapshot.status)
                &&& rows[i].number == snapshot.number
                &&& rows[i].title == snapshot.title
                &&& rows[i].url == url_of(repo, host, snapshot.number)
                &&& rows[i].status == snapshot.status
                &&& rows[i].priority == snapshot.priority
                &&& rows[i].readiness_gap == crate::workflow::gap_of(labels, snapshot.approvals)
            },
        i < j < rows.len() ==> !crate::schedule::is_more_urgent(rows[j].priority, rows[i].priority),
        i < j < rows.len() && rows[i].priority == rows[j].priority ==> rows[i].number
            <= rows[j].number,
{
    backlog_holds_what_is_not_ready(snapshots, labels, repo, host, rows);
    assert(rows.contains(rows[i]));
    let k = choose|k: int|
        0 <= k < snapshots.len() && !crate::workflow::is_handed_off(
            labels,
            (#[trigger] snapshots[k]).status,
        ) && rows[i] == backlog_row_of(snapshots[k], labels, repo, host);
    let snapshot = snapshots[k];
    assert(rows[i].number == snapshot.number);
}

/// An issue that was read and not handed off is on the backlog.
pub proof fn what_is_not_ready_is_on_the_backlog(
    snapshots: Seq<IssueSnapshotView>,
    labels: WorkflowLabels,
    repo: Seq<char>,
    host: Option<Seq<char>>,
    rows: Seq<BacklogRowView>,
    k: int,
)
    requires
        is_backlog(snapshots, labels, repo, host, rows),
        0 <= k < snapshots.len(),
        !crate::workflow::is_handed_off(labels, snapshots[k].status),
    ensures
        exists|i: int|
            0 <= i < rows.len() && (#[trigger] rows[i]).number == snapshots[k].number
                && rows[i].title == snapshots[k].title && rows[i].status == snapshots[k].status,
{
    backlog_holds_what_is_not_ready(snapshots, labels, repo, host, rows);
    let row = backlog_row_of(snapshots[k], labels, repo, host);
    assert(rows.contains(row));
    let i = rows.index_of(row);
    assert(rows[i].number == snapshots[k].number);
}

} // verus!
