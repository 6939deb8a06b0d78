//! The scheduler's ordering: which issue to work on next.

use vstd::prelude::*;

use crate::state::Priority;
use crate::text::{holds, str_eq};

verus! {

/// The shipped phase order, least advanced first, by the status label that an
/// issue in each phase carries.
pub const DEFAULT_PHASE_ORDER: [&'static str; 8] = [
    "product-spec",
    "conflict-check",
    "architecture",
    "test-plan",
    "ready",
    "implement",
    "review",
    "done",
];

/// One issue's scheduling-relevant facts.
///
/// Closed issues are to be left out by the caller: nothing here tells a
/// finished issue from one that is about to be.
#[derive(Debug, Eq, PartialEq)]
pub struct Candidate {
    /// The issue number.
    pub issue: u64,
    /// The issue's current phase; `None` ranks below every named phase.
    pub status: Option<String>,
    /// Priority; `None` ranks below every named priority.
    pub priority: Option<Priority>,
    /// Phases that need a human gate on this issue.
    pub gates: Vec<String>,
    /// Phases already approved on this issue.
    pub approvals: Vec<String>,
    /// Whether every issue this one is blocked by has merged or closed.
    pub dependencies_satisfied: bool,
    /// Whether an instance whose heartbeat has not gone stale holds it.
    pub claimed_live: bool,
}

/// The contents of a [`Candidate`].
pub struct CandidateView {
    pub issue: u64,
    pub status: Option<Seq<char>>,
    pub priority: Option<Priority>,
    pub gates: Seq<Seq<char>>,
    pub approvals: Seq<Seq<char>>,
    pub dependencies_satisfied: bool,
    pub claimed_live: bool,
}

impl View for Candidate {
    type V = CandidateView;

    open spec fn view(&self) -> CandidateView {
        CandidateView {
            issue: self.issue,
            status: crate::text::text_view(self.status),
            priority: self.priority,
            gates: crate::text::texts(self.gates@),
            approvals: crate::text::texts(self.approvals@),
            dependencies_satisfied: self.dependencies_satisfied,
            claimed_live: self.claimed_live,
        }
    }
}

/// Whether `rank` is the position of `phase` in the phase order.
pub open spec fn has_rank(phase: Seq<char>, rank: int) -> bool {
    0 <= rank < 8 && DEFAULT_PHASE_ORDER[rank]@ == phase
}

/// Whether `rank` is the first position of `phase` in the phase order.
pub open spec fn is_rank(phase: Seq<char>, rank: int) -> bool {
    has_rank(phase, rank) && forall|other: int| 0 <= other < rank ==> !has_rank(phase, other)
}

/// The position of `phase` in the phase order, or -1 where it has none.
pub open spec fn rank_in_order(phase: Seq<char>) -> int {
    if exists|rank: int| #[trigger] is_rank(phase, rank) {
        choose|rank: int| #[trigger] is_rank(phase, rank)
    } else {
        -1
    }
}

/// How far along a status is: its position in the phase order, or -1 for none
/// and for an unknown one.
pub open spec fn phase_rank_of(status: Option<Seq<char>>) -> int {
    match status {
        None => -1,
        Some(phase) => rank_in_order(phase),
    }
}

/// A phase has one rank.
pub proof fn rank_is_unique(phase: Seq<char>, rank: int)
    requires
        is_rank(phase, rank),
    ensures
        phase_rank_of(Some(phase)) == rank,
{
    let found = rank_in_order(phase);
    assert(is_rank(phase, found));
    if found < rank {
        assert(!has_rank(phase, found));
    } else if rank < found {
        assert(!has_rank(phase, rank));
    }
}

/// How urgent a priority is, the most urgent first; none is the least.
pub open spec fn priority_rank_of(priority: Option<Priority>) -> int {
    match priority {
        Some(Priority::P0) => 0,
        Some(Priority::P1) => 1,
        Some(Priority::P2) => 2,
        Some(Priority::P3) => 3,
        None => 4,
    }
}

/// Whether a candidate's current phase is parked on a human gate that has not
/// been approved. Gates of phases that it has not reached do not count.
pub open spec fn is_gated(candidate: CandidateView) -> bool {
    match candidate.status {
        None => false,
        Some(phase) => candidate.gates.contains(phase) && !candidate.approvals.contains(phase),
    }
}

/// Whether a candidate can be worked on right now.
pub open spec fn is_actionable_now(candidate: CandidateView) -> bool {
    !is_gated(candidate) && candidate.dependencies_satisfied && !candidate.claimed_live
}

/// What candidates are sorted by: the furthest along first, then the most
/// urgent, then the oldest, an older issue having a lower number.
pub open spec fn scheduling_key() -> spec_fn(CandidateView) -> (int, int, int) {
    |candidate: CandidateView|
        (
            -phase_rank_of(candidate.status),
            priority_rank_of(candidate.priority),
            candidate.issue as int,
        )
}

/// The contents of several candidates.
pub open spec fn candidates_view(candidates: Seq<Candidate>) -> Seq<CandidateView> {
    candidates.map_values(|candidate: Candidate| candidate@)
}

/// The candidates that can be worked on right now.
pub open spec fn actionable(candidates: Seq<CandidateView>) -> Seq<CandidateView> {
    candidates.filter(|candidate: CandidateView| is_actionable_now(candidate))
}

/// The issues of several candidates.
pub open spec fn issues_of(candidates: Seq<CandidateView>) -> Seq<u64> {
    candidates.map_values(|candidate: CandidateView| candidate.issue)
}

/// Whether `order` is the schedule of `candidates`: the actionable ones,
/// sorted.
pub open spec fn is_schedule(candidates: Seq<CandidateView>, order: Seq<CandidateView>) -> bool {
    crate::ordered::is_stable_order(actionable(candidates), order, scheduling_key())
}

/// This status's rank in the phase order; higher is further along.
fn phase_rank(status: &Option<String>) -> (rank: i32)
    ensures
        rank == phase_rank_of(crate::text::text_view(*status)),
        -1 <= rank < 8,
{
    let phase = match status {
        Some(phase) => phase,
        None => return -1,
    };
    let mut i: usize = 0;
    while i < 8
        invariant
            i <= 8,
            crate::text::text_view(*status) == Some(phase@),
            forall|k: int| 0 <= k < i ==> !has_rank(phase@, k),
        decreases 8 - i,
    {
        if str_eq(DEFAULT_PHASE_ORDER[i], phase.as_str()) {
            proof {
                rank_is_unique(phase@, i as int);
            }
            return i as i32;
        }
        assert(!has_rank(phase@, i as int));
        i += 1;
    }
    proof {
        assert forall|rank: int| !is_rank(phase@, rank) by {
            if 0 <= rank < 8 {
                assert(!has_rank(phase@, rank));
            }
        }
    }
    -1
}

/// This priority's sort rank; lower sorts first.
pub(crate) fn priority_rank(priority: Option<Priority>) -> (rank: u8)
    ensures
        rank == priority_rank_of(priority),
{
    match priority {
        Some(Priority::P0) => 0,
        Some(Priority::P1) => 1,
        Some(Priority::P2) => 2,
        Some(Priority::P3) => 3,
        None => 4,
    }
}

/// Whether `candidate`'s current phase is parked on an unapproved human gate.
fn is_gated_on_human(candidate: &Candidate) -> (gated: bool)
    ensures
        gated == is_gated(candidate@),
{
    match &candidate.status {
        None => false,
        Some(status) => holds(&candidate.gates, status.as_str()) && !holds(
            &candidate.approvals,
            status.as_str(),
        ),
    }
}

/// Whether `candidate` is actionable right now.
fn is_actionable(candidate: &Candidate) -> (yes: bool)
    ensures
        yes == is_actionable_now(candidate@),
{
    !is_gated_on_human(candidate) && candidate.dependencies_satisfied && !candidate.claimed_live
}

/// Whether the first key comes before the second or is equal to it.
pub(crate) fn comes_first(a: (i32, u8, u64), b: (i32, u8, u64)) -> (yes: bool)
    ensures
        yes == crate::ordered::key_le(
            (a.0 as int, a.1 as int, a.2 as int),
            (b.0 as int, b.1 as int, b.2 as int),
        ),
{
    a.0 < b.0 || (a.0 == b.0 && (a.1 < b.1 || (a.1 == b.1 && a.2 <= b.2)))
}

/// The scheduling order over `candidates`: every actionable issue's number,
/// most recommended first. The others are dropped, not merely sorted last.
pub fn schedule_order(candidates: &[Candidate]) -> (issues: Vec<u64>)
    ensures
        exists|order: Seq<CandidateView>| #[trigger]
            is_schedule(candidates_view(candidates@), order) && issues@ == issues_of(order),
{
    let ghost all = candidates_view(candidates@);
    let ghost keep = |candidate: CandidateView| is_actionable_now(candidate);
    let ghost key = scheduling_key();
    let ghost mut order: Seq<CandidateView> = Seq::empty();
    let mut keys: Vec<(i32, u8, u64)> = Vec::new();
    let mut i: usize = 0;
    proof {
        reveal(Seq::filter);
        assert(all.take(0).filter(keep) =~= order);
    }
    while i < candidates.len()
        invariant
            i <= candidates@.len(),
            all == candidates_view(candidates@),
            keep == (|candidate: CandidateView| is_actionable_now(candidate)),
            key == scheduling_key(),
            crate::ordered::is_stable_order(all.take(i as int).filter(keep), order, key),
            keys@.len() == order.len(),
            forall|k: int|
                0 <= k < order.len() ==> key(#[trigger] order[k]) == (
                    keys@[k].0 as int,
                    keys@[k].1 as int,
                    keys@[k].2 as int,
                ),
        decreases candidates@.len() - i,
    {
        let candidate = &candidates[i];
        proof {
            assert(all[i as int] == candidate@);
            assert(all.take(i + 1) =~= all.take(i as int).push(candidate@));
            all.take(i as int).lemma_filter_push(candidate@, keep);
        }
        if is_actionable(candidate) {
            let new_key: (i32, u8, u64) = (
                -phase_rank(&candidate.status),
                priority_rank(candidate.priority),
                candidate.issue,
            );
            let mut at: usize = keys.len();
            while at > 0 && !comes_first(keys[at - 1], new_key)
                invariant
                    at <= keys@.len(),
                    keys@.len() == order.len(),
                    forall|k: int|
                        0 <= k < order.len() ==> key(#[trigger] order[k]) == (
                            keys@[k].0 as int,
                            keys@[k].1 as int,
                            keys@[k].2 as int,
                        ),
                    key(candidate@) == (
                        new_key.0 as int,
                        new_key.1 as int,
                        new_key.2 as int,
                    ),
                    forall|k: int|
                        at <= k < order.len() ==> !crate::ordered::key_le(
                            key(#[trigger] order[k]),
                            key(candidate@),
                        ),
                decreases at,
            {
                assert(key(order[at - 1]) == (
                    keys@[at - 1].0 as int,
                    keys@[at - 1].1 as int,
                    keys@[at - 1].2 as int,
                ));
                at -= 1;
            }
            proof {
                assert forall|k: int| 0 <= k < at implies crate::ordered::key_le(
                    key(#[trigger] order[k]),
                    key(candidate@),
                ) by {
                    assert(key(order[at - 1]) == (
                        keys@[at - 1].0 as int,
                        keys@[at - 1].1 as int,
                        keys@[at - 1].2 as int,
                    ));
                    if k < at - 1 {
                        assert(crate::ordered::key_le(key(order[k]), key(order[at - 1])));
                    }
                }
                crate::ordered::insert_keeps_order(
                    all.take(i as int).filter(keep),
                    order,
                    key,
                    at as int,
                    candidate@,
                );
            }
            let ghost keys_before = keys@;
            keys.insert(at, new_key);
            proof {
                let before = order;
                order = before.insert(at as int, candidate@);
                assert forall|k: int| 0 <= k < order.len() implies key(#[trigger] order[k]) == (
                    keys@[k].0 as int,
                    keys@[k].1 as int,
                    keys@[k].2 as int,
                ) by {
                    if k < at {
                        assert(order[k] == before[k]);
                        assert(keys@[k] == keys_before[k]);
                    } else if k > at {
                        assert(order[k] == before[k - 1]);
                        assert(keys@[k] == keys_before[k - 1]);
                    }
                }
            }
        }
        i += 1;
    }
    proof {
        assert(all.take(i as int) =~= all);
        assert(is_schedule(all, order));
    }
    let mut issues: Vec<u64> = Vec::new();
    let mut j: usize = 0;
    while j < keys.len()
        invariant
            j <= keys@.len(),
            issues@.len() == j,
            keys@.len() == order.len(),
            key == scheduling_key(),
            forall|k: int|
                0 <= k < order.len() ==> key(#[trigger] order[k]) == (
                    keys@[k].0 as int,
                    keys@[k].1 as int,
                    keys@[k].2 as int,
                ),
            forall|k: int| 0 <= k < j ==> issues@[k] == (#[trigger] order[k]).issue,
        decreases keys@.len() - j,
    {
        assert(key(order[j as int]).2 == keys@[j as int].2);
        issues.push(keys[j].2);
        j += 1;
    }
    assert(issues@ =~= issues_of(order));
    issues
}

/// The single next issue to schedule: the first of [`schedule_order`], or
/// `None` when nothing is actionable right now.
pub fn next_action(candidates: &[Candidate]) -> (issue: Option<u64>)
    ensures
        exists|order: Seq<CandidateView>| #[trigger]
            is_schedule(candidates_view(candidates@), order) && issue == crate::state::head(
                issues_of(order),
            ),
{
    let issues = schedule_order(candidates);
    if issues.len() > 0 {
        Some(issues[0])
    } else {
        None
    }
}

/// Candidates have one schedule.
pub proof fn schedule_is_unique(
    candidates: Seq<CandidateView>,
    a: Seq<CandidateView>,
    b: Seq<CandidateView>,
)
    requires
        is_schedule(candidates, a),
        is_schedule(candidates, b),
    ensures
        a == b,
{
    crate::ordered::stable_order_is_unique(actionable(candidates), a, b, scheduling_key());
}

/// A schedule holds exactly the actionable candidates, each as often as it was
/// given.
pub proof fn schedule_holds_the_actionable(
    candidates: Seq<CandidateView>,
    order: Seq<CandidateView>,
)
    requires
        is_schedule(candidates, order),
    ensures
        order.to_multiset() == actionable(candidates).to_multiset(),
        order.len() == actionable(candidates).len(),
        forall|i: int| 0 <= i < order.len() ==> is_actionable_now(#[trigger] order[i]),
{
    let keep = |candidate: CandidateView| is_actionable_now(candidate);
    let kept = actionable(candidates);
    crate::ordered::stable_order_is_permutation(kept, order, scheduling_key());
    assert forall|i: int| 0 <= i < order.len() implies is_actionable_now(#[trigger] order[i]) by {
        order.to_multiset_ensures();
        kept.to_multiset_ensures();
        assert(order.to_multiset().count(order[i]) > 0) by {
            assert(order.contains(order[i]));
        }
        assert(kept.contains(order[i]));
        let k = choose|k: int| 0 <= k < kept.len() && kept[k] == order[i];
        candidates.lemma_filter_pred(keep, k);
    }
}

/// What is recommended first is never less far along than what follows; and
/// among equally far issues never less urgent; and among equally urgent ones
/// never younger.
pub proof fn schedule_is_sorted(
    candidates: Seq<CandidateView>,
    order: Seq<CandidateView>,
    i: int,
    j: int,
)
    requires
        is_schedule(candidates, order),
        0 <= i < j < order.len(),
    ensures
        ({
            let (a, b) = (order[i], order[j]);
            let (rank_a, rank_b) = (phase_rank_of(a.status), phase_rank_of(b.status));
            let (urgency_a, urgency_b) = (
                priority_rank_of(a.priority),
                priority_rank_of(b.priority),
            );
            &&& rank_a >= rank_b
            &&& rank_a == rank_b ==> urgency_a <= urgency_b
            &&& rank_a == rank_b && urgency_a == urgency_b ==> a.issue <= b.issue
        }),
{
    let key = scheduling_key();
    assert(crate::ordered::key_le(key(order[i]), key(order[j])));
}

/// Something is scheduled exactly where something is actionable.
pub proof fn nothing_actionable_means_nothing_scheduled(
    candidates: Seq<CandidateView>,
    order: Seq<CandidateView>,
)
    requires
        is_schedule(candidates, order),
    ensures
        crate::state::head(issues_of(order)) is None <==> forall|i: int|
            0 <= i < candidates.len() ==> !is_actionable_now(#[trigger] candidates[i]),
{
    let keep = |candidate: CandidateView| is_actionable_now(candidate);
    let kept = actionable(candidates);
    schedule_holds_the_actionable(candidates, order);
    if kept.len() > 0 {
        candidates.lemma_filter_pred(keep, 0);
        candidates.lemma_filter_contains_rev(keep, kept[0]);
        let i = choose|i: int| 0 <= i < candidates.len() && candidates[i] == kept[0];
        assert(is_actionable_now(candidates[i]));
    } else {
        assert forall|i: int| 0 <= i < candidates.len() implies !is_actionable_now(
            #[trigger] candidates[i],
        ) by {
            if is_actionable_now(candidates[i]) {
                candidates.lemma_filter_contains(keep, i);
            }
        }
    }
}

/// Whether nothing holds an issue up: the phase that it is in needs no human,
/// or a human approved that very phase; what it depends on is done; and nobody
/// is at work on it.
pub open spec fn is_free_to_go(candidate: CandidateView) -> bool {
    &&& candidate.dependencies_satisfied
    &&& !candidate.claimed_live
    &&& forall|phase: Seq<char>|
        candidate.status == Some(phase) && #[trigger] candidate.gates.contains(phase)
            ==> candidate.approvals.contains(phase)
}

/// What is scheduled is one of the candidates, and free to go.
pub proof fn scheduled_is_free_to_go(
    candidates: Seq<CandidateView>,
    order: Seq<CandidateView>,
    i: int,
)
    requires
        is_schedule(candidates, order),
        0 <= i < order.len(),
    ensures
        is_free_to_go(order[i]),
        candidates.contains(order[i]),
{
    schedule_holds_the_actionable(candidates, order);
    let keep = |candidate: CandidateView| is_actionable_now(candidate);
    let kept = actionable(candidates);
    assert(is_actionable_now(order[i]));
    order.to_multiset_ensures();
    kept.to_multiset_ensures();
    assert(order.contains(order[i]));
    assert(order.to_multiset().count(order[i]) > 0);
    assert(kept.contains(order[i]));
    candidates.lemma_filter_contains_rev(keep, order[i]);
}

/// Every candidate that is free to go is scheduled.
pub proof fn free_to_go_is_scheduled(
    candidates: Seq<CandidateView>,
    order: Seq<CandidateView>,
    i: int,
)
    requires
        is_schedule(candidates, order),
        0 <= i < candidates.len(),
        is_free_to_go(candidates[i]),
    ensures
        order.contains(candidates[i]),
        issues_of(order).contains(candidates[i].issue),
{
    let keep = |candidate: CandidateView| is_actionable_now(candidate);
    let kept = actionable(candidates);
    if let Some(phase) = candidates[i].status {
        assert(candidates[i].gates.contains(phase) ==> candidates[i].approvals.contains(phase));
    }
    assert(keep(candidates[i]));
    candidates.lemma_filter_contains(keep, i);
    schedule_holds_the_actionable(candidates, order);
    order.to_multiset_ensures();
    kept.to_multiset_ensures();
    assert(kept.contains(candidates[i]));
    assert(kept.to_multiset().count(candidates[i]) > 0);
    assert(order.contains(candidates[i]));
    let at = choose|at: int| 0 <= at < order.len() && order[at] == candidates[i];
    assert(issues_of(order)[at] == candidates[i].issue);
}

/// An issue waits for the approval of the phase that it is in, whatever else
/// was approved; and for its dependencies; and for whoever claimed it.
pub proof fn held_up_issue_is_not_scheduled(
    candidates: Seq<CandidateView>,
    order: Seq<CandidateView>,
    issue: u64,
)
    requires
        is_schedule(candidates, order),
        forall|i: int|
            0 <= i < candidates.len() && (#[trigger] candidates[i]).issue == issue ==> {
                ||| !candidates[i].dependencies_satisfied
                ||| candidates[i].claimed_live
                ||| candidates[i].status is Some && candidates[i].gates.contains(
                    candidates[i].status->0,
                ) && !candidates[i].approvals.contains(candidates[i].status->0)
            },
    ensures
        !issues_of(order).contains(issue),
        crate::state::head(issues_of(order)) != Some(issue),
{
    if issues_of(order).contains(issue) {
        let at = choose|at: int| 0 <= at < issues_of(order).len() && issues_of(order)[at] == issue;
        scheduled_is_free_to_go(candidates, order, at);
        let i = choose|i: int| 0 <= i < candidates.len() && candidates[i] == order[at];
        assert(candidates[i].issue == issue);
    }
    if issues_of(order).len() > 0 {
        assert(issues_of(order).contains(issues_of(order)[0]));
    }
}

/// Whether two candidates differ in no more than gates and approvals, and in
/// these not on the phase that they are in.
pub open spec fn differ_in_other_phases(a: CandidateView, b: CandidateView) -> bool {
    &&& b == (CandidateView { gates: b.gates, approvals: b.approvals, ..a })
    &&& forall|phase: Seq<char>|
        a.status == Some(phase) ==> a.gates.contains(phase) == #[trigger] b.gates.contains(phase)
    &&& forall|phase: Seq<char>|
        a.status == Some(phase) ==> a.approvals.contains(phase) == #[trigger] b.approvals.contains(
            phase,
        )
}

/// Members that are kept or dropped together and look alike leave alike ones.
proof fn filtered_alike(
    a: Seq<CandidateView>,
    b: Seq<CandidateView>,
    keep: spec_fn(CandidateView) -> bool,
    map: spec_fn(CandidateView) -> CandidateView,
)
    requires
        a.len() == b.len(),
        forall|i: int|
            0 <= i < a.len() ==> keep(#[trigger] a[i]) == keep(b[i]) && map(a[i]) == map(b[i]),
    ensures
        a.filter(keep).map_values(map) == b.filter(keep).map_values(map),
    decreases a.len(),
{
    if a.len() == 0 {
        reveal(Seq::filter);
        assert(a.filter(keep).map_values(map) =~= b.filter(keep).map_values(map));
    } else {
        let (x, y) = (a.drop_last(), b.drop_last());
        assert forall|i: int| 0 <= i < x.len() implies keep(#[trigger] x[i]) == keep(y[i]) && map(
            x[i],
        ) == map(y[i]) by {
            assert(x[i] == a[i]);
        }
        filtered_alike(x, y, keep, map);
        assert(a =~= x.push(a.last()));
        assert(b =~= y.push(b.last()));
        x.lemma_filter_push(a.last(), keep);
        y.lemma_filter_push(b.last(), keep);
        assert(a[a.len() - 1] == a.last() && b[b.len() - 1] == b.last());
        if keep(a.last()) {
            assert(a.filter(keep).map_values(map) =~= x.filter(keep).map_values(map).push(
                map(a.last()),
            ));
            assert(b.filter(keep).map_values(map) =~= y.filter(keep).map_values(map).push(
                map(b.last()),
            ));
        }
    }
}

/// Gates and approvals of phases that an issue is not in change nothing: the
/// same issues are scheduled, in the same order.
pub proof fn other_phases_change_nothing(
    candidates: Seq<CandidateView>,
    others: Seq<CandidateView>,
    order: Seq<CandidateView>,
    other_order: Seq<CandidateView>,
)
    requires
        candidates.len() == others.len(),
        forall|i: int|
            0 <= i < candidates.len() ==> differ_in_other_phases(
                #[trigger] candidates[i],
                others[i],
            ),
        is_schedule(candidates, order),
        is_schedule(others, other_order),
    ensures
        issues_of(order) == issues_of(other_order),
{
    let keep = |candidate: CandidateView| is_actionable_now(candidate);
    let bare = |candidate: CandidateView|
        CandidateView { gates: Seq::empty(), approvals: Seq::empty(), ..candidate };
    let key = scheduling_key();
    assert forall|i: int| 0 <= i < candidates.len() implies keep(#[trigger] candidates[i]) == keep(
        others[i],
    ) && bare(candidates[i]) == bare(others[i]) by {
        let (a, b) = (candidates[i], others[i]);
        assert(differ_in_other_phases(a, b));
        if let Some(phase) = a.status {
            assert(a.gates.contains(phase) == b.gates.contains(phase));
            assert(a.approvals.contains(phase) == b.approvals.contains(phase));
        }
    }
    filtered_alike(candidates, others, keep, bare);
    crate::ordered::stable_order_of_mapped(actionable(candidates), order, key, bare);
    crate::ordered::stable_order_of_mapped(actionable(others), other_order, key, bare);
    crate::ordered::stable_order_is_unique(
        actionable(candidates).map_values(bare),
        order.map_values(bare),
        other_order.map_values(bare),
        key,
    );
    assert(issues_of(order) =~= issues_of(order.map_values(bare)));
    assert(issues_of(other_order) =~= issues_of(other_order.map_values(bare)));
}

/// An approval of another phase more, or one less, changes nothing.
pub proof fn another_approval_changes_nothing(
    candidates: Seq<CandidateView>,
    at: int,
    approvals: Seq<Seq<char>>,
    order: Seq<CandidateView>,
    other_order: Seq<CandidateView>,
)
    requires
        0 <= at < candidates.len(),
        forall|phase: Seq<char>|
            candidates[at].status == Some(phase) ==> candidates[at].approvals.contains(phase)
                == #[trigger] approvals.contains(phase),
        is_schedule(candidates, order),
        is_schedule(
            candidates.update(at, CandidateView { approvals, ..candidates[at] }),
            other_order,
        ),
    ensures
        issues_of(order) == issues_of(other_order),
        crate::state::head(issues_of(order)) == crate::state::head(issues_of(other_order)),
{
    other_phases_change_nothing(
        candidates,
        candidates.update(at, CandidateView { approvals, ..candidates[at] }),
        order,
        other_order,
    );
}

/// The phases of an issue, from its first to its last.
pub open spec fn phases_in_order() -> Seq<Seq<char>> {
    seq![
        "product-spec"@,
        "conflict-check"@,
        "architecture"@,
        "test-plan"@,
        "ready"@,
        "implement"@,
        "review"@,
        "done"@,
    ]
}

/// A phase's rank is its place in an issue's life, and whatever is no such
/// phase comes before them all.
pub proof fn ranks_follow_the_phases(status: Option<Seq<char>>, at: int)
    ensures
        0 <= at < 8 ==> phase_rank_of(Some(phases_in_order()[at])) == at,
        status is None ==> phase_rank_of(status) == -1,
        status is Some && !phases_in_order().contains(status->0) ==> phase_rank_of(status) == -1,
{
    let phases = phases_in_order();
    reveal_strlit("product-spec");
    reveal_strlit("conflict-check");
    reveal_strlit("architecture");
    reveal_strlit("test-plan");
    reveal_strlit("ready");
    reveal_strlit("implement");
    reveal_strlit("review");
    reveal_strlit("done");
    assert(phases[0].len() == 12 && phases[1].len() == 14 && phases[2].len() == 12
        && phases[3].len() == 9 && phases[4].len() == 5 && phases[5].len() == 9
        && phases[6].len() == 6 && phases[7].len() == 4);
    assert(phases[0][0] == 'p' && phases[2][0] == 'a' && phases[3][0] == 't' && phases[5][0]
        == 'i');
    assert forall|rank: int| 0 <= rank < 8 implies #[trigger] DEFAULT_PHASE_ORDER[rank]@
        == phases[rank] by {}
    if 0 <= at < 8 {
        assert(has_rank(phases[at], at));
        assert forall|other: int| 0 <= other < at implies !has_rank(phases[at], other) by {
            assert(DEFAULT_PHASE_ORDER[other]@ == phases[other]);
        }
        rank_is_unique(phases[at], at);
    }
    if let Some(phase) = status {
        if !phases.contains(phase) {
            assert forall|rank: int| !is_rank(phase, rank) by {
                if has_rank(phase, rank) {
                    assert(phases[rank] == phase);
                }
            }
        }
    }
}

/// Whether `a` is more urgent than `b`: P0 than P1, P1 than P2, P2 than P3, and
/// any of them than none.
pub open spec fn is_more_urgent(a: Option<Priority>, b: Option<Priority>) -> bool {
    match a {
        Some(Priority::P0) => b != Some(Priority::P0),
        Some(Priority::P1) => b == Some(Priority::P2) || b == Some(Priority::P3) || b is None,
        Some(Priority::P2) => b == Some(Priority::P3) || b is None,
        Some(Priority::P3) => b is None,
        None => false,
    }
}

/// An issue in a later phase is scheduled before one in an earlier phase, and
/// before one in no phase at all; of two in the same phase the more urgent one
/// comes first; and of two that are as urgent, the older one.
pub proof fn later_phases_come_first(
    candidates: Seq<CandidateView>,
    order: Seq<CandidateView>,
    i: int,
    j: int,
    at: int,
)
    requires
        is_schedule(candidates, order),
        0 <= i < j < order.len(),
        0 <= at < 8,
        order[j].status == Some(phases_in_order()[at]),
    ensures
        exists|later: int|
            at <= later < 8 && order[i].status == Some(#[trigger] phases_in_order()[later]),
        order[i].status == order[j].status ==> !is_more_urgent(
            order[j].priority,
            order[i].priority,
        ),
        order[i].status == order[j].status && order[i].priority == order[j].priority
            ==> order[i].issue <= order[j].issue,
{
    schedule_is_sorted(candidates, order, i, j);
    ranks_follow_the_phases(order[i].status, at);
    let phases = phases_in_order();
    assert(order[i].status is Some && phases.contains(order[i].status->0));
    let later = choose|later: int|
        0 <= later < phases.len() && phases[later] == order[i].status->0;
    ranks_follow_the_phases(None, later);
    assert(order[i].status == Some(phases_in_order()[later]));
}

/// Among issues that are in no phase of the order, the more urgent one comes
/// first, and of two that are as urgent, the older one.
pub proof fn unphased_issues_are_ordered_too(
    candidates: Seq<CandidateView>,
    order: Seq<CandidateView>,
    i: int,
    j: int,
)
    requires
        is_schedule(candidates, order),
        0 <= i < j < order.len(),
        order[i].status is None || !phases_in_order().contains(order[i].status->0),
    ensures
        order[j].status is None || !phases_in_order().contains(order[j].status->0),
        !is_more_urgent(order[j].priority, order[i].priority),
        order[i].priority == order[j].priority ==> order[i].issue <= order[j].issue,
{
    schedule_is_sorted(candidates, order, i, j);
    ranks_follow_the_phases(order[i].status, 0);
    ranks_follow_the_phases(order[j].status, 0);
    let phases = phases_in_order();
    if order[j].status is Some && phases.contains(order[j].status->0) {
        let at = choose|at: int| 0 <= at < phases.len() && phases[at] == order[j].status->0;
        ranks_follow_the_phases(None, at);
    }
}

/// What is recommended is the first of the schedule.
pub proof fn the_first_is_recommended(order: Seq<CandidateView>)
    ensures
        crate::state::head(issues_of(order)) is None <==> order.len() == 0,
        order.len() > 0 ==> crate::state::head(issues_of(order)) == Some(order[0].issue),
        issues_of(order).len() == order.len(),
        forall|i: int| 0 <= i < order.len() ==> #[trigger] issues_of(order)[i] == order[i].issue,
{
}

} // verus!
