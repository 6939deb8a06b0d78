//! Derived per-issue state.
//!
//! An issue's workflow position, its gates and approvals, its owner, its
//! dependency edges and its pull request signals are all kept on GitHub, as
//! labels, relationships and pull requests. This module turns what was read
//! from there into an [`IssueSnapshot`].

pub mod cycles;
pub mod drift;

use vstd::prelude::*;

use crate::numbers::parse_u64;
use crate::text::{rsplit_once, str_eq, strip_prefix};
use crate::vcs::{
    IssueRef, IssueRefView, IssueRelationships, IssueRelationshipsView, IssueState,
    PullRequestRefView, PullRequestState, PullRequestStatus, Vcs, VcsCall, VcsError, VcsErrorView,
};

verus! {

/// The `status:<phase>` label prefix.
pub const STATUS_PREFIX: &'static str = "status:";

/// The `gate:<phase>` label prefix.
pub const GATE_PREFIX: &'static str = "gate:";

/// The `approved:<phase>` label prefix.
pub const APPROVAL_PREFIX: &'static str = "approved:";

/// The `owner:<instance>@<epoch>` label prefix.
pub const OWNER_PREFIX: &'static str = "owner:";

/// An issue's priority.
#[derive(Clone, Copy, Debug, Eq, Ord, PartialEq, PartialOrd, Structural)]
pub enum Priority {
    /// Highest priority.
    P0,
    /// High priority.
    P1,
    /// Normal priority.
    P2,
    /// Low priority.
    P3,
}

/// The priority that a label names.
pub open spec fn parsed_priority(label: Seq<char>) -> Option<Priority> {
    if label == "P0"@ {
        Some(Priority::P0)
    } else if label == "P1"@ {
        Some(Priority::P1)
    } else if label == "P2"@ {
        Some(Priority::P2)
    } else if label == "P3"@ {
        Some(Priority::P3)
    } else {
        None
    }
}

impl Priority {
    /// Parses a bare `P0`–`P3` label, or `None` for anything else.
    pub fn parse(label: &str) -> (priority: Option<Priority>)
        ensures
            priority == parsed_priority(label@),
    {
        if str_eq(label, "P0") {
            Some(Priority::P0)
        } else if str_eq(label, "P1") {
            Some(Priority::P1)
        } else if str_eq(label, "P2") {
            Some(Priority::P2)
        } else if str_eq(label, "P3") {
            Some(Priority::P3)
        } else {
            None
        }
    }
}

/// A parsed work-claim: the `owner:<instance>@<epoch>` label.
#[derive(Debug, Eq, PartialEq)]
pub struct Claim {
    /// The claiming instance's id.
    pub instance: String,
    /// The heartbeat's Unix timestamp, in seconds.
    pub epoch: u64,
}

/// The contents of a [`Claim`].
pub struct ClaimView {
    pub instance: Seq<char>,
    pub epoch: u64,
}

impl View for Claim {
    type V = ClaimView;

    open spec fn view(&self) -> ClaimView {
        ClaimView { instance: self.instance@, epoch: self.epoch }
    }
}

impl Clone for Claim {
    fn clone(&self) -> (copy: Self)
        ensures
            copy@ == self@,
    {
        Claim { instance: self.instance.clone(), epoch: self.epoch }
    }
}

/// The claim that a label makes: `owner:`, a non-empty instance id, the last
/// `@`, and a number.
pub open spec fn parsed_claim(label: Seq<char>) -> Option<ClaimView> {
    match crate::text::after_prefix(label, OWNER_PREFIX@) {
        None => None,
        Some(rest) => match crate::text::around_last(rest, '@') {
            None => None,
            Some((instance, epoch)) => match crate::numbers::parsed_u64(epoch) {
                Some(epoch) if instance.len() > 0 => Some(ClaimView { instance, epoch }),
                _ => None,
            },
        },
    }
}

/// The contents of an optional claim.
pub open spec fn claim_view(claim: Option<Claim>) -> Option<ClaimView> {
    match claim {
        Some(claim) => Some(claim@),
        None => None,
    }
}

impl Claim {
    /// Parses `owner:<instance>@<epoch>` out of a single label.
    ///
    /// Splits on the last `@`: an instance id may hold its own `@`, and only
    /// the trailing part is ever a number.
    pub fn parse(label: &str) -> (claim: Option<Claim>)
        ensures
            claim_view(claim) == parsed_claim(label@),
    {
        let rest = match strip_prefix(label, OWNER_PREFIX) {
            Some(rest) => rest,
            None => return None,
        };
        let (instance, epoch) = match rsplit_once(rest, '@') {
            Some(parts) => parts,
            None => return None,
        };
        if instance.is_empty() {
            return None;
        }
        match parse_u64(epoch) {
            Some(epoch) => Some(Claim { instance: instance.to_string(), epoch }),
            None => None,
        }
    }
}

/// The derived state of one GitHub issue.
#[derive(Debug, Eq, PartialEq)]
pub struct IssueSnapshot {
    /// The issue number.
    pub number: u64,
    /// The issue title.
    pub title: String,
    /// Open or closed.
    pub state: IssueState,
    /// Priority, from a `P0`–`P3` label; `None` when unset.
    pub priority: Option<Priority>,
    /// The current workflow phase, from its `status:<phase>` label; `None`
    /// when the issue carries no status label yet.
    pub status: Option<String>,
    /// Phases that need a human gate on this issue.
    pub gates: Vec<String>,
    /// Phases already approved on this issue.
    pub approvals: Vec<String>,
    /// The current work-claim, if any.
    pub owner: Option<Claim>,
    /// Dependency and hierarchy edges.
    pub relationships: IssueRelationships,
    /// The most relevant linked pull request, or `None` before there is one.
    pub pull_request: Option<PullRequestStatus>,
    /// Every pull request linked to this issue.
    pub linked_pull_requests: Vec<PullRequestStatus>,
}

/// The contents of an [`IssueSnapshot`].
pub struct IssueSnapshotView {
    pub number: u64,
    pub title: Seq<char>,
    pub state: IssueState,
    pub priority: Option<Priority>,
    pub status: Option<Seq<char>>,
    pub gates: Seq<Seq<char>>,
    pub approvals: Seq<Seq<char>>,
    pub owner: Option<ClaimView>,
    pub relationships: crate::vcs::IssueRelationshipsView,
    pub pull_request: Option<PullRequestStatus>,
    pub linked_pull_requests: Seq<PullRequestStatus>,
}

impl View for IssueSnapshot {
    type V = IssueSnapshotView;

    open spec fn view(&self) -> IssueSnapshotView {
        IssueSnapshotView {
            number: self.number,
            title: self.title@,
            state: self.state,
            priority: self.priority,
            status: crate::text::text_view(self.status),
            gates: crate::text::texts(self.gates@),
            approvals: crate::text::texts(self.approvals@),
            owner: claim_view(self.owner),
            relationships: self.relationships@,
            pull_request: self.pull_request,
            linked_pull_requests: self.linked_pull_requests@,
        }
    }
}

/// The first of several values.
pub open spec fn head<A>(values: Seq<A>) -> Option<A> {
    if values.len() > 0 {
        Some(values[0])
    } else {
        None
    }
}

/// What follows `prefix` in each label that begins with it, in order.
pub open spec fn values_after(labels: Seq<Seq<char>>, prefix: Seq<char>) -> Seq<Seq<char>> {
    labels.filter_map(|label: Seq<char>| crate::text::after_prefix(label, prefix))
}

/// The claims among `labels`, in order.
pub open spec fn claims_in(labels: Seq<Seq<char>>) -> Seq<ClaimView> {
    labels.filter_map(|label: Seq<char>| parsed_claim(label))
}

/// The priorities among `labels`, in order.
pub open spec fn priorities_in(labels: Seq<Seq<char>>) -> Seq<Priority> {
    labels.filter_map(|label: Seq<char>| parsed_priority(label))
}

/// The pull requests of `statuses` that are in `state`, in order.
pub open spec fn in_state(
    statuses: Seq<PullRequestStatus>,
    state: PullRequestState,
) -> Seq<PullRequestStatus> {
    statuses.filter(|status: PullRequestStatus| status.state == state)
}

/// The first open pull request; where none is open, the first merged one; and
/// where none is merged either, the first closed one.
pub open spec fn most_relevant(statuses: Seq<PullRequestStatus>) -> Option<PullRequestStatus> {
    if in_state(statuses, PullRequestState::Open).len() > 0 {
        head(in_state(statuses, PullRequestState::Open))
    } else if in_state(statuses, PullRequestState::Merged).len() > 0 {
        head(in_state(statuses, PullRequestState::Merged))
    } else {
        head(in_state(statuses, PullRequestState::Closed))
    }
}

/// The state that an issue's labels, edges and pull requests stand for.
///
/// A status, owner or priority that is given more than once is decided by the
/// first label that gives it.
pub open spec fn derived_state(
    issue: crate::vcs::IssueRefView,
    relationships: crate::vcs::IssueRelationshipsView,
    pull_requests: Seq<PullRequestStatus>,
) -> IssueSnapshotView {
    IssueSnapshotView {
        number: issue.number,
        title: issue.title,
        state: issue.state,
        priority: head(priorities_in(issue.labels)),
        status: head(values_after(issue.labels, STATUS_PREFIX@)),
        gates: values_after(issue.labels, GATE_PREFIX@),
        approvals: values_after(issue.labels, APPROVAL_PREFIX@),
        owner: head(claims_in(issue.labels)),
        relationships,
        pull_request: most_relevant(pull_requests),
        linked_pull_requests: pull_requests,
    }
}

/// A label is at most one of a status, a gate, an approval, a claim and a
/// priority.
pub proof fn label_kinds_are_disjoint(label: Seq<char>)
    ensures
        ({
            let status = crate::text::after_prefix(label, STATUS_PREFIX@) is Some;
            let gate = crate::text::after_prefix(label, GATE_PREFIX@) is Some;
            let approval = crate::text::after_prefix(label, APPROVAL_PREFIX@) is Some;
            let claim = parsed_claim(label) is Some;
            let priority = parsed_priority(label) is Some;
            &&& status ==> !gate && !approval && !claim && !priority
            &&& gate ==> !approval && !claim && !priority
            &&& approval ==> !claim && !priority
            &&& claim ==> !priority
        }),
{
    reveal_strlit("status:");
    reveal_strlit("gate:");
    reveal_strlit("approved:");
    reveal_strlit("owner:");
    reveal_strlit("P0");
    reveal_strlit("P1");
    reveal_strlit("P2");
    reveal_strlit("P3");
    if STATUS_PREFIX@.is_prefix_of(label) {
        assert(label.subrange(0, STATUS_PREFIX@.len() as int)[0] == 's');
    }
    if GATE_PREFIX@.is_prefix_of(label) {
        assert(label.subrange(0, GATE_PREFIX@.len() as int)[0] == 'g');
    }
    if APPROVAL_PREFIX@.is_prefix_of(label) {
        assert(label.subrange(0, APPROVAL_PREFIX@.len() as int)[0] == 'a');
    }
    if OWNER_PREFIX@.is_prefix_of(label) {
        assert(label.subrange(0, OWNER_PREFIX@.len() as int)[0] == 'o');
    }
}

/// How far a pull request's state outranks the others.
fn rank(state: PullRequestState) -> (rank: u8)
    ensures
        rank == match state {
            PullRequestState::Open => 2u8,
            PullRequestState::Merged => 1u8,
            PullRequestState::Closed => 0u8,
        },
{
    match state {
        PullRequestState::Open => 2,
        PullRequestState::Merged => 1,
        PullRequestState::Closed => 0,
    }
}

/// The most relevant of an issue's linked pull requests: open outranks merged,
/// which outranks closed, and the first one of a state wins.
pub fn most_relevant_pull_request(statuses: &Vec<PullRequestStatus>) -> (best: Option<
    PullRequestStatus,
>)
    ensures
        best == most_relevant(statuses@),
{
    let mut best: Option<PullRequestStatus> = None;
    proof {
        reveal(Seq::filter);
    }
    let mut i: usize = 0;
    while i < statuses.len()
        invariant
            i <= statuses@.len(),
            best == most_relevant(statuses@.take(i as int)),
            best matches Some(b) ==> in_state(statuses@.take(i as int), b.state).len() > 0,
            best is None ==> i == 0,
        decreases statuses@.len() - i,
    {
        let candidate = statuses[i];
        proof {
            let done = statuses@.take(i as int);
            assert(statuses@.take(i + 1) =~= done.push(candidate));
            done.lemma_filter_push(
                candidate,
                |status: PullRequestStatus| status.state == PullRequestState::Open,
            );
            done.lemma_filter_push(
                candidate,
                |status: PullRequestStatus| status.state == PullRequestState::Merged,
            );
            done.lemma_filter_push(
                candidate,
                |status: PullRequestStatus| status.state == PullRequestState::Closed,
            );
        }
        best = match best {
            Some(current) => {
                if rank(current.state) >= rank(candidate.state) {
                    Some(current)
                } else {
                    Some(candidate)
                }
            },
            None => Some(candidate),
        };
        i += 1;
    }
    assert(statuses@.take(i as int) =~= statuses@);
    best
}

/// Derives an [`IssueSnapshot`] from already-fetched GitHub state.
///
/// A status, owner or priority that is given more than once goes to the first
/// label that gives it.
pub fn derive_issue_state(
    issue: &IssueRef,
    relationships: &IssueRelationships,
    pull_requests: Vec<PullRequestStatus>,
) -> (snapshot: IssueSnapshot)
    ensures
        snapshot@ == derived_state(issue@, relationships@, pull_requests@),
{
    let ghost labels = issue@.labels;
    let mut status: Option<String> = None;
    let mut gates: Vec<String> = Vec::new();
    let mut approvals: Vec<String> = Vec::new();
    let mut priority: Option<Priority> = None;
    let mut owner: Option<Claim> = None;
    let mut i: usize = 0;
    proof {
        assert(labels.take(0) =~= Seq::<Seq<char>>::empty());
        assert(crate::text::texts(gates@) =~= Seq::<Seq<char>>::empty());
        assert(crate::text::texts(approvals@) =~= Seq::<Seq<char>>::empty());
    }
    while i < issue.labels.len()
        invariant
            labels == crate::text::texts(issue.labels@),
            i <= issue.labels@.len(),
            crate::text::text_view(status) == head(values_after(labels.take(i as int), STATUS_PREFIX@)),
            crate::text::texts(gates@) == values_after(labels.take(i as int), GATE_PREFIX@),
            crate::text::texts(approvals@) == values_after(labels.take(i as int), APPROVAL_PREFIX@),
            claim_view(owner) == head(claims_in(labels.take(i as int))),
            priority == head(priorities_in(labels.take(i as int))),
        decreases issue.labels@.len() - i,
    {
        let label = issue.labels[i].as_str();
        let ghost gates_before = gates@;
        let ghost approvals_before = approvals@;
        proof {
            assert(label@ == labels[i as int]);
            label_kinds_are_disjoint(label@);
            extend_values(labels, i as int, STATUS_PREFIX@);
            extend_values(labels, i as int, GATE_PREFIX@);
            extend_values(labels, i as int, APPROVAL_PREFIX@);
            labels.lemma_filter_map_take_succ(|l: Seq<char>| parsed_claim(l), i as int);
            labels.lemma_filter_map_take_succ(|l: Seq<char>| parsed_priority(l), i as int);
        }
        if let Some(phase) = strip_prefix(label, STATUS_PREFIX) {
            if status.is_none() {
                status = Some(phase.to_string());
            }
        } else if let Some(phase) = strip_prefix(label, GATE_PREFIX) {
            gates.push(phase.to_string());
            assert(crate::text::texts(gates@) =~= crate::text::texts(gates_before) + seq![phase@]);
        } else if let Some(phase) = strip_prefix(label, APPROVAL_PREFIX) {
            approvals.push(phase.to_string());
            assert(crate::text::texts(approvals@) =~= crate::text::texts(approvals_before) + seq![phase@]);
        } else if let Some(claim) = Claim::parse(label) {
            if owner.is_none() {
                owner = Some(claim);
            }
        } else if let Some(found) = Priority::parse(label) {
            if priority.is_none() {
                priority = Some(found);
            }
        }
        i += 1;
    }
    assert(labels.take(i as int) =~= labels);
    let pull_request = most_relevant_pull_request(&pull_requests);
    IssueSnapshot {
        number: issue.number,
        title: issue.title.clone(),
        state: issue.state,
        priority,
        status,
        gates,
        approvals,
        owner,
        relationships: relationships.clone(),
        pull_request,
        linked_pull_requests: pull_requests,
    }
}

/// The values after `prefix` in one label more.
proof fn extend_values(labels: Seq<Seq<char>>, i: int, prefix: Seq<char>)
    requires
        0 <= i < labels.len(),
    ensures
        values_after(labels.take(i + 1), prefix) == values_after(labels.take(i), prefix) + (
        match crate::text::after_prefix(labels[i], prefix) {
            Some(value) => seq![value],
            None => Seq::empty(),
        }),
{
    labels.lemma_filter_map_take_succ(
        |label: Seq<char>| crate::text::after_prefix(label, prefix),
        i,
    );
}

/// The statuses that reading each of several pull requests in turn gives, and
/// the position after the last call made: the calls from position `from` on
/// answer for them. `None` where those are other calls.
pub open spec fn statuses_run(
    calls: Seq<VcsCall>,
    from: int,
    repo: Seq<char>,
    linked: Seq<PullRequestRefView>,
) -> Option<(Result<Seq<PullRequestStatus>, VcsErrorView>, int)>
    decreases linked.len(),
{
    if linked.len() == 0 {
        Some((Ok(Seq::empty()), from))
    } else {
        match statuses_run(calls, from, repo, linked.drop_last()) {
            None => None,
            Some((Err(error), end)) => Some((Err(error), end)),
            Some((Ok(statuses), end)) => if !(0 <= end < calls.len()) {
                None
            } else if let VcsCall::ReadPullRequestStatus { repo: asked, number, result } =
                calls[end] {
                if asked != repo || number != linked.last().number {
                    None
                } else {
                    match result {
                        Ok(status) => Some((Ok(statuses.push(status)), end + 1)),
                        Err(error) => Some((Err(error), end + 1)),
                    }
                }
            } else {
                None
            },
        }
    }
}

/// What reading one issue's full state comes to, given the calls from position
/// `from` on: its raw labels and its derived state, or the first error; and
/// the position after the last call made. `None` where those are other calls.
pub open spec fn issue_state_run(
    calls: Seq<VcsCall>,
    from: int,
    repo: Seq<char>,
    number: u64,
) -> Option<(Result<(Seq<Seq<char>>, IssueSnapshotView), VcsErrorView>, int)> {
    if !(0 <= from < calls.len()) {
        None
    } else if let VcsCall::ReadIssue { repo: asked, number: wanted, result: read } = calls[from] {
        if asked != repo || wanted != number {
            None
        } else {
            match read {
                Err(error) => Some((Err(error), from + 1)),
                Ok(issue) => relationships_run(calls, from + 1, repo, issue, number),
            }
        }
    } else {
        None
    }
}

/// The part of [`issue_state_run`] after the issue itself was read.
pub open spec fn relationships_run(
    calls: Seq<VcsCall>,
    from: int,
    repo: Seq<char>,
    issue: IssueRefView,
    number: u64,
) -> Option<(Result<(Seq<Seq<char>>, IssueSnapshotView), VcsErrorView>, int)> {
    if !(0 <= from < calls.len()) {
        None
    } else if let VcsCall::ReadRelationships { repo: asked, number: wanted, result: read } =
        calls[from] {
        if asked != repo || wanted != number {
            None
        } else {
            match read {
                Err(error) => Some((Err(error), from + 1)),
                Ok(relationships) => linked_run(
                    calls,
                    from + 1,
                    repo,
                    issue,
                    number,
                    relationships,
                ),
            }
        }
    } else {
        None
    }
}

/// The part of [`issue_state_run`] after the relationships were read.
pub open spec fn linked_run(
    calls: Seq<VcsCall>,
    from: int,
    repo: Seq<char>,
    issue: IssueRefView,
    number: u64,
    relationships: IssueRelationshipsView,
) -> Option<(Result<(Seq<Seq<char>>, IssueSnapshotView), VcsErrorView>, int)> {
    if !(0 <= from < calls.len()) {
        None
    } else if let VcsCall::FindLinkedPullRequests { repo: asked, number: wanted, result: read } =
        calls[from] {
        if asked != repo || wanted != number {
            None
        } else {
            match read {
                Err(error) => Some((Err(error), from + 1)),
                Ok(linked) => match statuses_run(calls, from + 1, repo, linked) {
                    None => None,
                    Some((Err(error), end)) => Some((Err(error), end)),
                    Some((Ok(statuses), end)) => Some(
                        (
                            Ok((issue.labels, derived_state(issue, relationships, statuses))),
                            end,
                        ),
                    ),
                },
            }
        }
    } else {
        None
    }
}

/// Calls made later do not change what earlier calls came to.
pub proof fn statuses_run_extends(
    calls: Seq<VcsCall>,
    more: Seq<VcsCall>,
    from: int,
    repo: Seq<char>,
    linked: Seq<PullRequestRefView>,
)
    requires
        calls.is_prefix_of(more),
        0 <= from <= calls.len(),
        statuses_run(calls, from, repo, linked) is Some,
    ensures
        statuses_run(more, from, repo, linked) == statuses_run(calls, from, repo, linked),
        from <= (statuses_run(calls, from, repo, linked)->0).1 <= calls.len(),
    decreases linked.len(),
{
    if linked.len() > 0 {
        statuses_run_extends(calls, more, from, repo, linked.drop_last());
        let end = (statuses_run(calls, from, repo, linked.drop_last())->0).1;
        if end < calls.len() {
            assert(more.subrange(0, calls.len() as int)[end] == calls[end]);
        }
    }
}

/// Calls made later do not change what earlier calls came to.
pub proof fn issue_state_run_extends(
    calls: Seq<VcsCall>,
    more: Seq<VcsCall>,
    from: int,
    repo: Seq<char>,
    number: u64,
)
    requires
        calls.is_prefix_of(more),
        0 <= from <= calls.len(),
        issue_state_run(calls, from, repo, number) is Some,
    ensures
        issue_state_run(more, from, repo, number) == issue_state_run(calls, from, repo, number),
        from <= (issue_state_run(calls, from, repo, number)->0).1 <= calls.len(),
{
    let prefix = more.subrange(0, calls.len() as int);
    assert(prefix[from] == calls[from]);
    if let VcsCall::ReadIssue { result: Ok(_), .. } = calls[from] {
        assert(prefix[from + 1] == calls[from + 1]);
        if let VcsCall::ReadRelationships { result: Ok(_), .. } = calls[from + 1] {
            assert(prefix[from + 2] == calls[from + 2]);
            if let VcsCall::FindLinkedPullRequests { result: Ok(linked), .. } = calls[from + 2] {
                statuses_run_extends(calls, more, from + 3, repo, linked);
            }
        }
    }
}

/// The contents of an issue's raw labels and derived state, or of the error in
/// their place.
pub open spec fn labelled_outcome(
    result: Result<(Vec<String>, IssueSnapshot), VcsError>,
) -> Result<(Seq<Seq<char>>, IssueSnapshotView), VcsErrorView> {
    match result {
        Ok((labels, snapshot)) => Ok((crate::text::texts(labels@), snapshot@)),
        Err(error) => Err(error@),
    }
}

/// The derived state alone.
pub open spec fn without_labels(
    result: Result<(Seq<Seq<char>>, IssueSnapshotView), VcsErrorView>,
) -> Result<IssueSnapshotView, VcsErrorView> {
    match result {
        Ok((_, snapshot)) => Ok(snapshot),
        Err(error) => Err(error),
    }
}

/// Reads one issue's full derived state, and keeps its raw labels.
///
/// Reads the issue, its relationships, its linked pull requests and the status
/// of each, in that order, and stops at the first call that fails.
pub fn read_issue_state_with_labels<V: Vcs>(
    vcs: &mut V,
    repo: &str,
    issue_number: u64,
) -> (result: Result<(Vec<String>, IssueSnapshot), VcsError>)
    ensures
        crate::vcs::leads(*old(vcs), *final(vcs)),
        old(vcs).history().is_prefix_of(final(vcs).history()),
        issue_state_run(
            final(vcs).history(),
            old(vcs).history().len() as int,
            repo@,
            issue_number,
        ) == Some((labelled_outcome(result), final(vcs).history().len() as int)),
{
    let ghost entry = *vcs;
    let ghost start = vcs.history();
    let found = vcs.read_issue(repo, issue_number);
    proof {
        crate::vcs::leads_by_one(entry, *vcs);
    }
    let issue = match found {
        Ok(issue) => issue,
        Err(error) => return Err(error),
    };
    let ghost at = *vcs;
    let edges = vcs.read_relationships(repo, issue_number);
    proof {
        crate::vcs::leads_on(entry, at, *vcs);
    }
    let relationships = match edges {
        Ok(relationships) => relationships,
        Err(error) => return Err(error),
    };
    let ghost at = *vcs;
    let found = vcs.find_linked_pull_requests(repo, issue_number);
    proof {
        crate::vcs::leads_on(entry, at, *vcs);
    }
    let linked = match found {
        Ok(linked) => linked,
        Err(error) => return Err(error),
    };
    let ghost read = vcs.history();
    let ghost refs = crate::vcs::pull_requests_view(linked@);
    let mut pull_requests: Vec<PullRequestStatus> = Vec::new();
    let mut i: usize = 0;
    assert(refs.take(0) =~= Seq::<PullRequestRefView>::empty());
    while i < linked.len()
        invariant
            i <= linked@.len(),
            refs == crate::vcs::pull_requests_view(linked@),
            read.is_prefix_of(vcs.history()),
            statuses_run(vcs.history(), read.len() as int, repo@, refs.take(i as int)) == Some(
                (
                    Ok::<Seq<PullRequestStatus>, VcsErrorView>(pull_requests@),
                    vcs.history().len() as int,
                ),
            ),
            start == old(vcs).history(),
            entry == *old(vcs),
            crate::vcs::leads(entry, *vcs),
            start.len() + 3 == read.len(),
            start.is_prefix_of(read),
            read[start.len() as int] == (VcsCall::ReadIssue {
                repo: repo@,
                number: issue_number,
                result: Ok(issue@),
            }),
            read[start.len() as int + 1] == (VcsCall::ReadRelationships {
                repo: repo@,
                number: issue_number,
                result: Ok(relationships@),
            }),
            read[start.len() as int + 2] == (VcsCall::FindLinkedPullRequests {
                repo: repo@,
                number: issue_number,
                result: Ok(refs),
            }),
        decreases linked@.len() - i,
    {
        let ghost at = *vcs;
        let ghost before = vcs.history();
        let status = vcs.read_pull_request_status(repo, linked[i].number);
        proof {
            crate::vcs::leads_on(entry, at, *vcs);
            let after = vcs.history();
            assert(refs[i as int] == linked@[i as int]@);
            assert(before.is_prefix_of(after)) by {
                assert(after.subrange(0, before.len() as int) =~= before);
            }
            statuses_run_extends(before, after, read.len() as int, repo@, refs.take(i as int));
            assert(refs.take(i + 1).drop_last() =~= refs.take(i as int));
            assert(read =~= after.subrange(0, read.len() as int)) by {
                assert(read =~= before.subrange(0, read.len() as int));
            }
        }
        match status {
            Ok(status) => {
                pull_requests.push(status);
            },
            Err(error) => {
                proof {
                    let after = vcs.history();
                    statuses_fail_early(
                        after,
                        read.len() as int,
                        repo@,
                        refs,
                        i + 1,
                        error@,
                        after.len() as int,
                    );
                    let prefix = after.subrange(0, read.len() as int);
                    assert(prefix[start.len() as int] == after[start.len() as int]);
                    assert(prefix[start.len() as int + 1] == after[start.len() as int + 1]);
                    assert(prefix[start.len() as int + 2] == after[start.len() as int + 2]);
                    assert(start =~= after.subrange(0, start.len() as int)) by {
                        assert(start =~= read.subrange(0, start.len() as int));
                    }
                }
                return Err(error);
            },
        }
        i += 1;
    }
    proof {
        let after = vcs.history();
        assert(refs.take(i as int) =~= refs);
        let prefix = after.subrange(0, read.len() as int);
        assert(prefix[start.len() as int] == after[start.len() as int]);
        assert(prefix[start.len() as int + 1] == after[start.len() as int + 1]);
        assert(prefix[start.len() as int + 2] == after[start.len() as int + 2]);
        assert(start =~= after.subrange(0, start.len() as int)) by {
            assert(start =~= read.subrange(0, start.len() as int));
        }
    }
    let snapshot = derive_issue_state(&issue, &relationships, pull_requests);
    Ok((issue.labels, snapshot))
}

/// A status that cannot be read decides, whatever pull requests follow.
proof fn statuses_fail_early(
    calls: Seq<VcsCall>,
    from: int,
    repo: Seq<char>,
    linked: Seq<PullRequestRefView>,
    upto: int,
    error: VcsErrorView,
    end: int,
)
    requires
        0 <= upto <= linked.len(),
        statuses_run(calls, from, repo, linked.take(upto)) == Some(
            (Err::<Seq<PullRequestStatus>, VcsErrorView>(error), end),
        ),
    ensures
        statuses_run(calls, from, repo, linked) == Some(
            (Err::<Seq<PullRequestStatus>, VcsErrorView>(error), end),
        ),
    decreases linked.len(),
{
    if upto < linked.len() {
        assert(linked.drop_last().take(upto) =~= linked.take(upto));
        statuses_fail_early(calls, from, repo, linked.drop_last(), upto, error, end);
    } else {
        assert(linked.take(upto) =~= linked);
    }
}

/// Reads one issue's full derived state from GitHub.
///
/// Reads the issue, its relationships, its linked pull requests and the status
/// of each, in that order, and stops at the first call that fails.
pub fn read_issue_state<V: Vcs>(vcs: &mut V, repo: &str, issue_number: u64) -> (result: Result<
    IssueSnapshot,
    VcsError,
>)
    ensures
        crate::vcs::leads(*old(vcs), *final(vcs)),
        old(vcs).history().is_prefix_of(final(vcs).history()),
        match issue_state_run(
            final(vcs).history(),
            old(vcs).history().len() as int,
            repo@,
            issue_number,
        ) {
            Some((read, end)) => {
                &&& crate::vcs::outcome(result) == without_labels(read)
                &&& end == final(vcs).history().len()
            },
            None => false,
        },
{
    match read_issue_state_with_labels(vcs, repo, issue_number) {
        Ok((_, snapshot)) => Ok(snapshot),
        Err(error) => Err(error),
    }
}

/// What is read off two rows of labels is what is read off the one and then off
/// the other.
proof fn read_off_both<T>(
    a: Seq<Seq<char>>,
    b: Seq<Seq<char>>,
    read: spec_fn(Seq<char>) -> Option<T>,
)
    ensures
        (a + b).filter_map(read) == a.filter_map(read) + b.filter_map(read),
    decreases b.len(),
{
    if b.len() == 0 {
        assert(a + b =~= a);
        assert(b.filter_map(read) =~= Seq::<T>::empty());
        assert(a.filter_map(read) + b.filter_map(read) =~= a.filter_map(read));
    } else {
        let n = b.len() - 1;
        let all = a + b;
        read_off_both(a, b.take(n), read);
        b.lemma_filter_map_take_succ(read, n);
        all.lemma_filter_map_take_succ(read, all.len() - 1);
        assert(all.take(all.len() - 1) =~= a + b.take(n));
        assert(all.take(all.len() as int) =~= all);
        assert(b.take(b.len() as int) =~= b);
        assert((a + b).filter_map(read) =~= a.filter_map(read) + b.filter_map(read));
    }
}

/// What is read off one label.
proof fn read_off_one<T>(label: Seq<char>, read: spec_fn(Seq<char>) -> Option<T>)
    ensures
        seq![label].filter_map(read) == match read(label) {
            Some(value) => seq![value],
            None => Seq::empty(),
        },
{
    let labels = seq![label];
    labels.lemma_filter_map_take_succ(read, 0);
    assert(labels.take(0) =~= Seq::<Seq<char>>::empty());
    assert(labels.take(1) =~= labels);
    assert(labels.take(0).filter_map(read) =~= Seq::<T>::empty());
    assert(labels.filter_map(read) =~= match read(label) {
        Some(value) => seq![value],
        None => Seq::empty(),
    });
}

/// Gates and approvals add up over an issue's labels, in order; and of statuses,
/// claims and priorities the first one counts.
pub proof fn labels_add_up(
    issue: IssueRefView,
    a: Seq<Seq<char>>,
    b: Seq<Seq<char>>,
    relationships: IssueRelationshipsView,
    pull_requests: Seq<PullRequestStatus>,
)
    requires
        issue.labels == a + b,
    ensures
        ({
            let whole = derived_state(issue, relationships, pull_requests);
            let first = derived_state(IssueRefView { labels: a, ..issue }, relationships, pull_requests);
            let second = derived_state(IssueRefView { labels: b, ..issue }, relationships, pull_requests);
            &&& whole.gates == first.gates + second.gates
            &&& whole.approvals == first.approvals + second.approvals
            &&& whole.status == if first.status is Some {
                first.status
            } else {
                second.status
            }
            &&& whole.owner == if first.owner is Some {
                first.owner
            } else {
                second.owner
            }
            &&& whole.priority == if first.priority is Some {
                first.priority
            } else {
                second.priority
            }
        }),
{
    read_off_both(a, b, |label: Seq<char>| crate::text::after_prefix(label, STATUS_PREFIX@));
    read_off_both(a, b, |label: Seq<char>| crate::text::after_prefix(label, GATE_PREFIX@));
    read_off_both(a, b, |label: Seq<char>| crate::text::after_prefix(label, APPROVAL_PREFIX@));
    read_off_both(a, b, |label: Seq<char>| parsed_claim(label));
    read_off_both(a, b, |label: Seq<char>| parsed_priority(label));
}

/// What one label says: `status:` and a phase is the phase that an issue is in,
/// `gate:` and a phase is a gate of that phase, `approved:` and a phase is its
/// approval, and `P0` to `P3` are its priorities. No label says two things.
pub proof fn each_label_says_one_thing(
    issue: IssueRefView,
    phase: Seq<char>,
    relationships: IssueRelationshipsView,
    pull_requests: Seq<PullRequestStatus>,
)
    requires
        issue.labels.len() == 1,
    ensures
        ({
            let told = derived_state(issue, relationships, pull_requests);
            let label = issue.labels[0];
            &&& label == "status:"@ + phase ==> {
                &&& told.status == Some(phase)
                &&& told.gates.len() == 0 && told.approvals.len() == 0
                &&& told.owner is None && told.priority is None
            }
            &&& label == "gate:"@ + phase ==> {
                &&& told.gates == seq![phase]
                &&& told.status is None && told.approvals.len() == 0
                &&& told.owner is None && told.priority is None
            }
            &&& label == "approved:"@ + phase ==> {
                &&& told.approvals == seq![phase]
                &&& told.status is None && told.gates.len() == 0
                &&& told.owner is None && told.priority is None
            }
            &&& !"status:"@.is_prefix_of(label) ==> told.status is None
            &&& !"gate:"@.is_prefix_of(label) ==> told.gates.len() == 0
            &&& !"approved:"@.is_prefix_of(label) ==> told.approvals.len() == 0
            &&& !"owner:"@.is_prefix_of(label) ==> told.owner is None
            &&& told.priority == Some(Priority::P0) <==> label == "P0"@
            &&& told.priority == Some(Priority::P1) <==> label == "P1"@
            &&& told.priority == Some(Priority::P2) <==> label == "P2"@
            &&& told.priority == Some(Priority::P3) <==> label == "P3"@
        }),
{
    let label = issue.labels[0];
    assert(issue.labels =~= seq![label]);
    label_kinds_are_disjoint(label);
    read_off_one(label, |label: Seq<char>| crate::text::after_prefix(label, STATUS_PREFIX@));
    read_off_one(label, |label: Seq<char>| crate::text::after_prefix(label, GATE_PREFIX@));
    read_off_one(label, |label: Seq<char>| crate::text::after_prefix(label, APPROVAL_PREFIX@));
    read_off_one(label, |label: Seq<char>| parsed_claim(label));
    read_off_one(label, |label: Seq<char>| parsed_priority(label));
    crate::text::after_prefix_of_concat("status:"@, phase);
    crate::text::after_prefix_of_concat("gate:"@, phase);
    crate::text::after_prefix_of_concat("approved:"@, phase);
    reveal_strlit("P0");
    reveal_strlit("P1");
    reveal_strlit("P2");
    reveal_strlit("P3");
    assert("P0"@[1] == '0' && "P1"@[1] == '1' && "P2"@[1] == '2' && "P3"@[1] == '3');
}

/// An issue without labels is in no phase, free of gates, approved in nothing,
/// unclaimed and without a priority.
pub proof fn no_labels_say_nothing(
    issue: IssueRefView,
    relationships: IssueRelationshipsView,
    pull_requests: Seq<PullRequestStatus>,
)
    requires
        issue.labels.len() == 0,
    ensures
        ({
            let told = derived_state(issue, relationships, pull_requests);
            &&& told.status is None
            &&& told.gates.len() == 0
            &&& told.approvals.len() == 0
            &&& told.owner is None
            &&& told.priority is None
        }),
{
}

/// What is not written in labels is taken over as it is.
pub proof fn the_rest_is_taken_over(
    issue: IssueRefView,
    relationships: IssueRelationshipsView,
    pull_requests: Seq<PullRequestStatus>,
)
    ensures
        ({
            let told = derived_state(issue, relationships, pull_requests);
            &&& told.number == issue.number
            &&& told.title == issue.title
            &&& told.state == issue.state
            &&& told.relationships == relationships
            &&& told.linked_pull_requests == pull_requests
        }),
{
}

/// A claim is read off `owner:`, an instance id, `@` and a number in decimal,
/// even where the id holds an `@` of its own.
pub proof fn a_claim_names_instance_and_time(instance: Seq<char>, epoch: u64, label: Seq<char>)
    ensures
        instance.len() > 0 ==> parsed_claim(
            "owner:"@ + instance + seq!['@'] + crate::numbers::decimal(epoch as nat),
        ) == Some(ClaimView { instance, epoch }),
        parsed_claim(
            "owner:"@ + seq!['@'] + crate::numbers::decimal(epoch as nat),
        ) is None,
        !"owner:"@.is_prefix_of(label) ==> parsed_claim(label) is None,
        !label.contains('@') ==> parsed_claim(label) is None,
{
    let digits = crate::numbers::decimal(epoch as nat);
    crate::numbers::decimal_read_back(epoch as nat);
    crate::numbers::parse_of_decimal(epoch);
    assert(!digits.contains('@')) by {
        if digits.contains('@') {
            let i = choose|i: int| 0 <= i < digits.len() && digits[i] == '@';
            assert(crate::numbers::is_digit(digits[i]));
        }
    }
    let rest = instance + seq!['@'] + digits;
    assert("owner:"@ + instance + seq!['@'] + digits =~= "owner:"@ + rest);
    crate::text::after_prefix_of_concat("owner:"@, rest);
    assert(rest =~= instance.push('@') + digits);
    crate::text::around_last_of_join(instance, '@', digits);
    let bare = seq!['@'] + digits;
    assert("owner:"@ + seq!['@'] + digits =~= "owner:"@ + bare);
    crate::text::after_prefix_of_concat("owner:"@, bare);
    assert(bare =~= Seq::<char>::empty().push('@') + digits);
    crate::text::around_last_of_join(Seq::empty(), '@', digits);
    if !label.contains('@') {
        if let Some(after) = crate::text::after_prefix(label, "owner:"@) {
            assert forall|k: int| 0 <= k < after.len() implies after[k] != '@' by {
                assert(label.contains(label[k + "owner:"@.len()]));
            }
            no_mark_no_parts(after, '@');
        }
    }
}

/// Text without a mark does not split at it.
proof fn no_mark_no_parts(text: Seq<char>, mark: char)
    requires
        forall|k: int| 0 <= k < text.len() ==> text[k] != mark,
    ensures
        crate::text::around_last(text, mark) is None,
    decreases text.len(),
{
    if text.len() > 0 {
        no_mark_no_parts(text.drop_last(), mark);
    }
}

/// The pull request that counts is one of those that are linked: an open one
/// where there is one, else a merged one, and else a closed one; and of several
/// the first.
pub proof fn open_outranks_merged_outranks_closed(statuses: Seq<PullRequestStatus>, i: int)
    requires
        0 <= i < statuses.len(),
    ensures
        match most_relevant(statuses) {
            None => false,
            Some(best) => {
                &&& statuses[i].state is Open ==> best.state is Open
                &&& statuses[i].state is Merged ==> best.state is Open || best.state is Merged
                &&& exists|at: int|
                    0 <= at < statuses.len() && #[trigger] statuses[at] == best && (
                    statuses[i].state == best.state ==> at <= i)
            },
        },
{
    assert(statuses[i].state is Open || statuses[i].state is Merged || statuses[i].state
        is Closed);
    first_in_state(statuses, PullRequestState::Open);
    first_in_state(statuses, PullRequestState::Merged);
    first_in_state(statuses, PullRequestState::Closed);
}

/// The first pull request in a state stands before every other one in it.
proof fn first_in_state(statuses: Seq<PullRequestStatus>, state: PullRequestState)
    ensures
        in_state(statuses, state).len() == 0 ==> forall|i: int|
            0 <= i < statuses.len() ==> (#[trigger] statuses[i]).state != state,
        in_state(statuses, state).len() > 0 ==> exists|at: int|
            0 <= at < statuses.len() && #[trigger] statuses[at] == in_state(statuses, state)[0]
                && statuses[at].state == state && forall|i: int|
                0 <= i < at ==> (#[trigger] statuses[i]).state != state,
    decreases statuses.len(),
{
    let keep = |status: PullRequestStatus| status.state == state;
    if statuses.len() == 0 {
        reveal(Seq::filter);
    } else {
        let rest = statuses.drop_last();
        first_in_state(rest, state);
        assert(statuses =~= rest.push(statuses.last()));
        rest.lemma_filter_push(statuses.last(), keep);
        let kept = in_state(rest, state);
        if kept.len() > 0 {
            let at = choose|at: int|
                0 <= at < rest.len() && #[trigger] rest[at] == kept[0] && rest[at].state == state
                    && forall|i: int| 0 <= i < at ==> (#[trigger] rest[i]).state != state;
            assert(statuses[at] == rest[at]);
            assert(in_state(statuses, state)[0] == kept[0]);
            assert forall|i: int| 0 <= i < at implies (#[trigger] statuses[i]).state != state by {
                assert(rest[i] == statuses[i]);
            }
        } else {
            assert forall|i: int| 0 <= i < rest.len() implies (#[trigger] statuses[i]).state
                != state by {
                assert(rest[i] == statuses[i]);
            }
            if statuses.last().state == state {
                assert(in_state(statuses, state)[0] == statuses[statuses.len() - 1]);
            }
        }
    }
}

/// Reading an issue's full state asks for the issue, its edges, the pull
/// requests that would close it, and then for the status of each of these, in
/// order; the state is derived from the four.
pub proof fn full_state_is_read_in_four_steps(
    calls: Seq<VcsCall>,
    from: int,
    repo: Seq<char>,
    number: u64,
    labels: Seq<Seq<char>>,
    snapshot: IssueSnapshotView,
    end: int,
)
    requires
        0 <= from,
        issue_state_run(calls, from, repo, number) == Some(
            (Ok::<(Seq<Seq<char>>, IssueSnapshotView), VcsErrorView>((labels, snapshot)), end),
        ),
    ensures
        from + 3 <= end <= calls.len(),
        ({
            &&& calls[from] matches VcsCall::ReadIssue { repo: r, number: n, result: Ok(issue) }
                && r == repo && n == number && issue.labels == labels && snapshot.title
                == issue.title && snapshot.state == issue.state && snapshot.number == issue.number
            &&& calls[from + 1] matches VcsCall::ReadRelationships {
                repo: r,
                number: n,
                result: Ok(edges),
            } && r == repo && n == number && snapshot.relationships == edges
            &&& calls[from + 2] matches VcsCall::FindLinkedPullRequests {
                repo: r,
                number: n,
                result: Ok(linked),
            } && r == repo && n == number && end == from + 3 + linked.len()
                && snapshot.linked_pull_requests.len() == linked.len() && forall|k: int|
                0 <= k < linked.len() ==> is_status_read(
                    calls[#[trigger] (from + 3 + k)],
                    repo,
                    linked[k].number,
                    snapshot.linked_pull_requests[k],
                )
        }),
{
    let linked = calls[from + 2]->FindLinkedPullRequests_result->Ok_0;
    statuses_are_read_one_by_one(calls, from + 3, repo, linked);
}

/// Whether a call read this status of that pull request.
pub open spec fn is_status_read(
    call: VcsCall,
    repo: Seq<char>,
    number: u64,
    status: PullRequestStatus,
) -> bool {
    call matches VcsCall::ReadPullRequestStatus { repo: r, number: n, result: Ok(told) } && r
        == repo && n == number && told == status
}

/// The statuses of several pull requests are read one by one, in order.
proof fn statuses_are_read_one_by_one(
    calls: Seq<VcsCall>,
    from: int,
    repo: Seq<char>,
    linked: Seq<PullRequestRefView>,
)
    requires
        0 <= from <= calls.len(),
    ensures
        statuses_run(calls, from, repo, linked) matches Some((Ok(statuses), end)) ==> {
            &&& end == from + linked.len() <= calls.len()
            &&& statuses.len() == linked.len()
            &&& forall|k: int|
                0 <= k < linked.len() ==> is_status_read(
                    calls[#[trigger] (from + k)],
                    repo,
                    linked[k].number,
                    statuses[k],
                )
        },
    decreases linked.len(),
{
    if linked.len() > 0 {
        statuses_are_read_one_by_one(calls, from, repo, linked.drop_last());
    }
}

} // verus!
