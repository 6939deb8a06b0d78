//! What a project's workflow file says: the labels that it uses, how specs are
//! authored, and what stands between an issue and its handoff.

use vstd::prelude::*;

use crate::state::{APPROVAL_PREFIX, STATUS_PREFIX};
use crate::text::{holds, str_eq, strip_prefix};

verus! {

/// OpenSpec settings.
#[derive(Clone, Copy, Debug, Eq, PartialEq, Structural)]
pub struct OpenSpecConfig {
    /// Whether OpenSpec is in use.
    pub enabled: bool,
}

/// How specs are authored when an issue is implemented.
#[derive(Debug, Eq, PartialEq)]
pub struct SpecConfig {
    /// The spec tool: `openspec`, `specs_dir`, or a custom one.
    pub tool: String,
    /// OpenSpec settings, where that is the tool.
    pub openspec: Option<OpenSpecConfig>,
    /// Where spec files go, where they are plain files in a directory.
    pub specs_dir: Option<String>,
    /// Whether an issue may skip its spec at all.
    pub optional: bool,
    /// The label by which an issue asks to skip its spec.
    pub skip_label: String,
}

/// What one phase of a workflow says about labels.
#[derive(Debug, Eq, PartialEq)]
pub struct PhaseLabels {
    /// The phase.
    pub id: String,
    /// The status of an issue in this phase, where the phase has one.
    pub status: Option<String>,
    /// The label that records its approval, where it has one.
    pub approval_label: Option<String>,
}

/// What a workflow says about labels.
#[derive(Debug, Eq, PartialEq)]
pub struct WorkflowLabels {
    /// The statuses that an issue goes through.
    pub statuses: Vec<String>,
    /// What the label of a gate begins with.
    pub gate_prefix: String,
    /// The phases, in order.
    pub phases: Vec<PhaseLabels>,
    /// The label by which an issue asks to skip its spec.
    pub skip_label: String,
}

/// The labels of one phase: of its gate, which any issue may ask for, and of
/// its approval, where it has one.
pub open spec fn phase_labels(gate_prefix: Seq<char>, phase: PhaseLabels) -> Seq<Seq<char>> {
    let gate = seq![gate_prefix + phase.id@];
    match phase.approval_label {
        Some(label) => gate.push(label@),
        None => gate,
    }
}

/// The label of each of several statuses.
pub open spec fn status_labels(statuses: Seq<String>) -> Seq<Seq<char>> {
    statuses.map_values(|status: String| STATUS_PREFIX@ + status@)
}

/// Every label that a workflow uses: of its statuses, of its phases, and the
/// one that skips a spec.
pub open spec fn vocabulary(labels: WorkflowLabels) -> Seq<Seq<char>> {
    status_labels(labels.statuses@) + labels.phases@.flat_map(
        |phase: PhaseLabels| phase_labels(labels.gate_prefix@, phase),
    ) + seq![labels.skip_label@]
}

/// Lists every label that a workflow uses.
pub fn label_vocabulary(labels: &WorkflowLabels) -> (names: Vec<String>)
    ensures
        crate::text::texts(names@) == vocabulary(*labels),
{
    let mut names: Vec<String> = Vec::new();
    let mut i: usize = 0;
    while i < labels.statuses.len()
        invariant
            i <= labels.statuses@.len(),
            names@.len() == i,
            forall|k: int|
                0 <= k < i ==> (#[trigger] names@[k])@ == STATUS_PREFIX@ + labels.statuses@[k]@,
        decreases labels.statuses@.len() - i,
    {
        names.push(STATUS_PREFIX.to_string().concat(labels.statuses[i].as_str()));
        i += 1;
    }
    assert(crate::text::texts(names@) =~= status_labels(labels.statuses@));
    let ghost statuses = crate::text::texts(names@);
    let ghost per_phase = |phase: PhaseLabels| phase_labels(labels.gate_prefix@, phase);
    let mut j: usize = 0;
    assert(crate::text::texts(names@) =~= statuses + labels.phases@.take(0).flat_map(per_phase));
    while j < labels.phases.len()
        invariant
            j <= labels.phases@.len(),
            per_phase == (|phase: PhaseLabels| phase_labels(labels.gate_prefix@, phase)),
            crate::text::texts(names@) == statuses + labels.phases@.take(j as int).flat_map(
                per_phase,
            ),
        decreases labels.phases@.len() - j,
    {
        let phase = &labels.phases[j];
        let ghost before = crate::text::texts(names@);
        proof {
            labels.phases@.lemma_flat_map_take_append(per_phase, j as int);
        }
        names.push(labels.gate_prefix.clone().concat(phase.id.as_str()));
        if let Some(label) = &phase.approval_label {
            names.push(label.clone());
        }
        proof {
            assert(crate::text::texts(names@) =~= before + phase_labels(
                labels.gate_prefix@,
                *phase,
            ));
            assert(crate::text::texts(names@) =~= statuses + labels.phases@.take(j + 1).flat_map(
                per_phase,
            ));
        }
        j += 1;
    }
    assert(labels.phases@.take(j as int) =~= labels.phases@);
    let ghost before = crate::text::texts(names@);
    names.push(labels.skip_label.clone());
    assert(crate::text::texts(names@) =~= before + seq![labels.skip_label@]);
    names
}

/// The status at which an issue is handed off: what comes before it prepares
/// the issue, and what comes after it works on it.
pub const READY_STATUS: &'static str = "ready";

/// Where a status stands among those that an issue goes through; `None` for
/// one that is not among them.
pub open spec fn place_of(labels: WorkflowLabels, status: Seq<char>) -> Option<int> {
    crate::text::texts(labels.statuses@).index_of_first(status)
}

/// Whether an issue with this status has been handed off: whether its status
/// is that of the handoff or a later one. No status and an unknown one come
/// before it.
pub open spec fn is_handed_off(labels: WorkflowLabels, status: Option<Seq<char>>) -> bool {
    match status {
        None => false,
        Some(status) => match (place_of(labels, READY_STATUS@), place_of(labels, status)) {
            (Some(ready), Some(place)) => ready <= place,
            _ => false,
        },
    }
}

/// Whether a phase prepares issues for the handoff.
pub open spec fn is_preparation(labels: WorkflowLabels, phase: PhaseLabels) -> bool {
    match phase.status {
        None => false,
        Some(status) => match (place_of(labels, READY_STATUS@), place_of(labels, status@)) {
            (Some(ready), Some(place)) => place < ready,
            _ => false,
        },
    }
}

/// Whether an approval label is among the approvals of an issue, which are
/// named by what follows the common prefix of their labels.
pub open spec fn is_granted(label: Seq<char>, approvals: Seq<Seq<char>>) -> bool {
    match crate::text::after_prefix(label, APPROVAL_PREFIX@) {
        Some(name) => approvals.contains(name),
        None => false,
    }
}

/// Whether a phase stands between an issue with these approvals and its
/// handoff.
pub open spec fn is_missing(
    labels: WorkflowLabels,
    phase: PhaseLabels,
    approvals: Seq<Seq<char>>,
) -> bool {
    &&& is_preparation(labels, phase)
    &&& phase.approval_label matches Some(label) && !is_granted(label@, approvals)
}

/// The phases between an issue with these approvals and its handoff: those
/// that prepare for it and whose approval has not been given.
pub open spec fn gap_of(labels: WorkflowLabels, approvals: Seq<Seq<char>>) -> Seq<Seq<char>> {
    labels.phases@.filter(|phase: PhaseLabels| is_missing(labels, phase, approvals)).map_values(
        |phase: PhaseLabels| phase.id@,
    )
}

/// Finds where a status stands among those that an issue goes through.
fn find_place(labels: &WorkflowLabels, status: &str) -> (place: Option<usize>)
    ensures
        match place {
            Some(place) => place_of(*labels, status@) == Some(place as int),
            None => place_of(*labels, status@) is None,
        },
{
    let ghost all = crate::text::texts(labels.statuses@);
    proof {
        all.index_of_first_ensures(status@);
    }
    let mut i: usize = 0;
    while i < labels.statuses.len()
        invariant
            i <= labels.statuses@.len(),
            all == crate::text::texts(labels.statuses@),
            forall|k: int| 0 <= k < i ==> all[k] != status@,
            match all.index_of_first(status@) {
                Some(index) => {
                    &&& 0 <= index < all.len()
                    &&& all[index] == status@
                    &&& forall|j: int| 0 <= j < index ==> all[j] != status@
                },
                None => !all.contains(status@),
            },
        decreases labels.statuses@.len() - i,
    {
        assert(all[i as int] == labels.statuses@[i as int]@);
        if str_eq(labels.statuses[i].as_str(), status) {
            assert(all.contains(status@));
            return Some(i);
        }
        i += 1;
    }
    None
}

/// Whether an issue with this status has reached the handoff or gone past it.
pub fn handoff_ready_reached(labels: &WorkflowLabels, status: Option<&str>) -> (reached: bool)
    ensures
        reached == is_handed_off(*labels, crate::board::slice_view(status)),
{
    match status {
        None => false,
        Some(status) => match (find_place(labels, READY_STATUS), find_place(labels, status)) {
            (Some(ready), Some(place)) => ready <= place,
            _ => false,
        },
    }
}

/// Whether `phase` prepares issues for the handoff.
fn prepares(labels: &WorkflowLabels, phase: &PhaseLabels) -> (yes: bool)
    ensures
        yes == is_preparation(*labels, *phase),
{
    match &phase.status {
        None => false,
        Some(status) => match (find_place(labels, READY_STATUS), find_place(
            labels,
            status.as_str(),
        )) {
            (Some(ready), Some(place)) => place < ready,
            _ => false,
        },
    }
}

/// Whether `phase` stands between an issue with these approvals and its
/// handoff.
fn stands_between(labels: &WorkflowLabels, phase: &PhaseLabels, approvals: &Vec<String>) -> (yes:
    bool)
    ensures
        yes == is_missing(*labels, *phase, crate::text::texts(approvals@)),
{
    if !prepares(labels, phase) {
        return false;
    }
    match &phase.approval_label {
        None => false,
        Some(label) => match strip_prefix(label.as_str(), APPROVAL_PREFIX) {
            Some(name) => !holds(approvals, name),
            None => true,
        },
    }
}

/// Lists the phases between an issue with these approvals and its handoff.
pub fn readiness_gap(labels: &WorkflowLabels, approvals: &Vec<String>) -> (gap: Vec<String>)
    ensures
        crate::text::texts(gap@) == gap_of(*labels, crate::text::texts(approvals@)),
{
    let ghost given = crate::text::texts(approvals@);
    let ghost keep = |phase: PhaseLabels| is_missing(*labels, phase, given);
    let ghost name = |phase: PhaseLabels| phase.id@;
    let mut gap: Vec<String> = Vec::new();
    let mut i: usize = 0;
    proof {
        reveal(Seq::filter);
        assert(crate::text::texts(gap@) =~= labels.phases@.take(0).filter(keep).map_values(name));
    }
    while i < labels.phases.len()
        invariant
            i <= labels.phases@.len(),
            given == crate::text::texts(approvals@),
            keep == (|phase: PhaseLabels| is_missing(*labels, phase, given)),
            name == (|phase: PhaseLabels| phase.id@),
            crate::text::texts(gap@) == labels.phases@.take(i as int).filter(keep).map_values(name),
        decreases labels.phases@.len() - i,
    {
        let phase = &labels.phases[i];
        let ghost kept = labels.phases@.take(i as int).filter(keep);
        let ghost before = crate::text::texts(gap@);
        proof {
            assert(labels.phases@.take(i + 1) =~= labels.phases@.take(i as int).push(*phase));
            labels.phases@.take(i as int).lemma_filter_push(*phase, keep);
        }
        if stands_between(labels, phase, approvals) {
            gap.push(phase.id.clone());
            assert(crate::text::texts(gap@) =~= before.push(phase.id@));
            assert(kept.push(*phase).map_values(name) =~= before.push(phase.id@));
        }
        i += 1;
    }
    assert(labels.phases@.take(i as int) =~= labels.phases@);
    gap
}

/// An approval that has been given leaves no gap behind: with its phase
/// approved, nothing more than before stands between an issue and its handoff,
/// and that phase does not.
pub proof fn approval_closes_its_gap(
    labels: WorkflowLabels,
    phase: PhaseLabels,
    approvals: Seq<Seq<char>>,
    name: Seq<char>,
)
    requires
        phase.approval_label matches Some(label) && label@ == APPROVAL_PREFIX@ + name,
    ensures
        !is_missing(labels, phase, approvals.push(name)),
        forall|other: PhaseLabels| #[trigger]
            is_missing(labels, other, approvals.push(name)) ==> is_missing(
                labels,
                other,
                approvals,
            ),
{
    crate::text::after_prefix_of_concat(APPROVAL_PREFIX@, name);
    let more = approvals.push(name);
    assert(more[approvals.len() as int] == name);
    assert forall|other: PhaseLabels| #[trigger] is_missing(labels, other, more) implies is_missing(
        labels,
        other,
        approvals,
    ) by {
        if let Some(granted) = crate::text::after_prefix(
            other.approval_label->0@,
            APPROVAL_PREFIX@,
        ) {
            if approvals.contains(granted) {
                let at = approvals.index_of(granted);
                assert(more[at] == granted);
            }
        }
    }
}

/// An issue is handed off exactly where its status stands at `ready` or behind
/// it among the statuses that it goes through.
pub proof fn handed_off_from_ready_on(
    labels: WorkflowLabels,
    ready: int,
    at: int,
    status: Option<Seq<char>>,
)
    requires
        crate::text::texts(labels.statuses@).no_duplicates(),
        0 <= ready < labels.statuses@.len(),
        0 <= at < labels.statuses@.len(),
        labels.statuses@[ready]@ == "ready"@,
    ensures
        is_handed_off(labels, Some(labels.statuses@[at]@)) <==> ready <= at,
        !is_handed_off(labels, None),
        status is Some && !crate::text::texts(labels.statuses@).contains(status->0)
            ==> !is_handed_off(labels, status),
{
    let all = crate::text::texts(labels.statuses@);
    place_is_unique(all, ready);
    place_is_unique(all, at);
    assert(all[ready] == "ready"@);
    if let Some(status) = status {
        all.index_of_first_ensures(status);
    }
}

/// Without `ready` among the statuses nothing is ever handed off.
pub proof fn no_ready_no_handoff(labels: WorkflowLabels, status: Option<Seq<char>>)
    requires
        !crate::text::texts(labels.statuses@).contains("ready"@),
    ensures
        !is_handed_off(labels, status),
{
    crate::text::texts(labels.statuses@).index_of_first_ensures("ready"@);
}

/// What stands once in a row is found where it stands.
proof fn place_is_unique(all: Seq<Seq<char>>, at: int)
    requires
        all.no_duplicates(),
        0 <= at < all.len(),
    ensures
        all.index_of_first(all[at]) == Some(at),
{
    all.index_of_first_ensures(all[at]);
    assert(all.contains(all[at]));
}

/// A phase stands between an issue and its handoff exactly where its status
/// comes before `ready`, it has an approval label, and that label is not
/// `approved:` and one of the approvals that were given.
pub proof fn gap_is_what_lacks_approval(
    labels: WorkflowLabels,
    phase: PhaseLabels,
    approvals: Seq<Seq<char>>,
    ready: int,
    at: int,
    name: Seq<char>,
)
    requires
        crate::text::texts(labels.statuses@).no_duplicates(),
        0 <= ready < labels.statuses@.len(),
        0 <= at < labels.statuses@.len(),
        labels.statuses@[ready]@ == "ready"@,
        phase.status matches Some(status) && status@ == labels.statuses@[at]@,
    ensures
        phase.approval_label is None ==> !is_missing(labels, phase, approvals),
        at >= ready ==> !is_missing(labels, phase, approvals),
        at < ready && phase.approval_label is Some && phase.approval_label->0@ == "approved:"@
            + name ==> (is_missing(labels, phase, approvals) <==> !approvals.contains(name)),
        at < ready && phase.approval_label is Some && !"approved:"@.is_prefix_of(
            phase.approval_label->0@,
        ) ==> is_missing(labels, phase, approvals),
{
    let all = crate::text::texts(labels.statuses@);
    place_is_unique(all, ready);
    place_is_unique(all, at);
    assert(all[ready] == "ready"@);
    assert(all[at] == labels.statuses@[at]@);
    crate::text::after_prefix_of_concat("approved:"@, name);
}

/// The gap names every phase that stands between, by its id, and no other.
pub proof fn gap_names_the_phases_between(
    labels: WorkflowLabels,
    approvals: Seq<Seq<char>>,
    id: Seq<char>,
)
    ensures
        gap_of(labels, approvals).contains(id) <==> exists|i: int|
            0 <= i < labels.phases@.len() && (#[trigger] labels.phases@[i]).id@ == id && is_missing(
                labels,
                labels.phases@[i],
                approvals,
            ),
{
    let keep = |phase: PhaseLabels| is_missing(labels, phase, approvals);
    let kept = labels.phases@.filter(keep);
    let gap = gap_of(labels, approvals);
    if gap.contains(id) {
        let k = gap.index_of(id);
        labels.phases@.lemma_filter_pred(keep, k);
        labels.phases@.lemma_filter_contains_rev(keep, kept[k]);
        let i = labels.phases@.index_of(kept[k]);
        assert(labels.phases@[i].id@ == id);
    }
    if exists|i: int|
        0 <= i < labels.phases@.len() && (#[trigger] labels.phases@[i]).id@ == id && is_missing(
            labels,
            labels.phases@[i],
            approvals,
        ) {
        let i = choose|i: int|
            0 <= i < labels.phases@.len() && (#[trigger] labels.phases@[i]).id@ == id
                && is_missing(labels, labels.phases@[i], approvals);
        labels.phases@.lemma_filter_contains(keep, i);
        let k = kept.index_of(labels.phases@[i]);
        assert(gap[k] == id);
    }
}

/// A workflow needs a label for each of its statuses, `status:` before it, a
/// label that holds each of its phases for a human, one for the approval of each
/// phase that has one, and the label by which an issue does without a spec; and
/// no other.
pub proof fn vocabulary_is_what_the_workflow_needs(labels: WorkflowLabels, label: Seq<char>)
    ensures
        vocabulary(labels).contains(label) <==> {
            ||| label == labels.skip_label@
            ||| exists|i: int|
                0 <= i < labels.statuses@.len() && label == "status:"@ + (
                #[trigger] labels.statuses@[i])@
            ||| exists|i: int|
                0 <= i < labels.phases@.len() && (label == labels.gate_prefix@ + (
                #[trigger] labels.phases@[i]).id@ || (labels.phases@[i].approval_label is Some
                    && labels.phases@[i].approval_label->0@ == label))
        },
{
    let per_phase = |phase: PhaseLabels| phase_labels(labels.gate_prefix@, phase);
    let statuses = status_labels(labels.statuses@);
    let phases = labels.phases@.flat_map(per_phase);
    let last = seq![labels.skip_label@];
    crate::ordered::in_either(statuses + phases, last, label);
    crate::ordered::in_either(statuses, phases, label);
    crate::ordered::given_by_a_member(labels.phases@, per_phase, label);
    assert(last.contains(label) <==> label == labels.skip_label@) by {
        assert(last[0] == labels.skip_label@);
    }
    assert(statuses.contains(label) <==> exists|i: int|
        0 <= i < labels.statuses@.len() && label == "status:"@ + (
        #[trigger] labels.statuses@[i])@) by {
        if statuses.contains(label) {
            let k = statuses.index_of(label);
            assert(label == "status:"@ + labels.statuses@[k]@);
        }
        if exists|i: int|
            0 <= i < labels.statuses@.len() && label == "status:"@ + (
            #[trigger] labels.statuses@[i])@ {
            let i = choose|i: int|
                0 <= i < labels.statuses@.len() && label == "status:"@ + (
                #[trigger] labels.statuses@[i])@;
            assert(statuses[i] == label);
        }
    }
    assert forall|i: int| 0 <= i < labels.phases@.len() implies (per_phase(
        #[trigger] labels.phases@[i],
    ).contains(label) <==> label == labels.gate_prefix@ + labels.phases@[i].id@ || (
    labels.phases@[i].approval_label is Some && labels.phases@[i].approval_label->0@
        == label)) by {
        let phase = labels.phases@[i];
        let given = per_phase(phase);
        assert(given[0] == labels.gate_prefix@ + phase.id@);
        if phase.approval_label is Some {
            assert(given[1] == phase.approval_label->0@);
        }
        if given.contains(label) {
            let k = given.index_of(label);
            assert(k == 0 || k == 1);
        }
    }
}

} // verus!
