//! Drift detection over derived GitHub state.
//!
//! Drift is always surfaced, never fixed: a dependency cycle, a dependency on
//! a closed or missing issue, a claim whose owner has gone silent, a merged
//! pull request whose issue stayed open, an issue that carries more than one
//! status or owner label, and an issue with more than one open pull request.

use std::collections::HashMap;

use vstd::prelude::*;

use crate::state::cycles::canonical_cycles;
use crate::state::{Claim, ClaimView, OWNER_PREFIX, STATUS_PREFIX};
use crate::text::starts_with;
use crate::time::{Duration, Timestamp};
use crate::vcs::{IssueRelationships, IssueState, PullRequestState};

verus! {

/// One piece of drift surfaced from GitHub state.
#[derive(Clone, Debug, Eq, PartialEq)]
#[non_exhaustive]
pub enum DriftFinding {
    /// Following each issue's dependencies eventually returns to where it
    /// started.
    DependencyCycle {
        /// The issues in the cycle; the last is blocked by the first.
        cycle: Vec<u64>,
    },
    /// `issue` is blocked on `depends_on`, which is closed.
    DependencyOnClosedIssue {
        /// The issue carrying the dependency.
        issue: u64,
        /// The closed issue it depends on.
        depends_on: u64,
    },
    /// `issue` is blocked on `depends_on`, which could not be found.
    DependencyOnMissingIssue {
        /// The issue carrying the dependency.
        issue: u64,
        /// The issue number that could not be found.
        depends_on: u64,
    },
    /// `issue`'s work-claim has gone silent past the heartbeat TTL.
    StaleClaim {
        /// The issue whose claim is stale.
        issue: u64,
        /// The instance that held the claim.
        instance: String,
        /// The claim's last heartbeat, as a Unix timestamp in seconds.
        epoch: u64,
    },
    /// `issue` is still open, but one of its linked pull requests has merged.
    MergedPrWithOpenIssue {
        /// The open issue.
        issue: u64,
        /// The pull request that merged without closing it.
        pull_request: u64,
    },
    /// `issue` carries more than one label that begins with `prefix`.
    AmbiguousLabels {
        /// The issue carrying more than one match.
        issue: u64,
        /// The label prefix that matched more than once.
        prefix: &'static str,
        /// Every matching label, in order.
        labels: Vec<String>,
    },
    /// `issue` has more than one open linked pull request at once.
    MultipleOpenLinkedPullRequests {
        /// The issue carrying more than one open linked pull request.
        issue: u64,
        /// Every open linked pull request's number, in order.
        pull_requests: Vec<u64>,
    },
}

/// The contents of a [`DriftFinding`].
pub enum DriftFindingView {
    DependencyCycle { cycle: Seq<u64> },
    DependencyOnClosedIssue { issue: u64, depends_on: u64 },
    DependencyOnMissingIssue { issue: u64, depends_on: u64 },
    StaleClaim { issue: u64, instance: Seq<char>, epoch: u64 },
    MergedPrWithOpenIssue { issue: u64, pull_request: u64 },
    AmbiguousLabels { issue: u64, prefix: Seq<char>, labels: Seq<Seq<char>> },
    MultipleOpenLinkedPullRequests { issue: u64, pull_requests: Seq<u64> },
}

impl View for DriftFinding {
    type V = DriftFindingView;

    open spec fn view(&self) -> DriftFindingView {
        match *self {
            DriftFinding::DependencyCycle { cycle } => DriftFindingView::DependencyCycle {
                cycle: cycle@,
            },
            DriftFinding::DependencyOnClosedIssue { issue, depends_on } => {
                DriftFindingView::DependencyOnClosedIssue { issue, depends_on }
            },
            DriftFinding::DependencyOnMissingIssue { issue, depends_on } => {
                DriftFindingView::DependencyOnMissingIssue { issue, depends_on }
            },
            DriftFinding::StaleClaim { issue, instance, epoch } => DriftFindingView::StaleClaim {
                issue,
                instance: instance@,
                epoch,
            },
            DriftFinding::MergedPrWithOpenIssue { issue, pull_request } => {
                DriftFindingView::MergedPrWithOpenIssue { issue, pull_request }
            },
            DriftFinding::AmbiguousLabels { issue, prefix, labels } => {
                DriftFindingView::AmbiguousLabels {
                    issue,
                    prefix: prefix@,
                    labels: crate::text::texts(labels@),
                }
            },
            DriftFinding::MultipleOpenLinkedPullRequests { issue, pull_requests } => {
                DriftFindingView::MultipleOpenLinkedPullRequests {
                    issue,
                    pull_requests: pull_requests@,
                }
            },
        }
    }
}

/// The contents of several findings.
pub open spec fn findings_view(findings: Seq<DriftFinding>) -> Seq<DriftFindingView> {
    findings.map_values(|finding: DriftFinding| finding@)
}

/// Adds a finding to the end of `findings`.
fn report(findings: &mut Vec<DriftFinding>, finding: DriftFinding)
    ensures
        findings_view(final(findings)@) == findings_view(old(findings)@).push(finding@),
{
    findings.push(finding);
    assert(findings_view(findings@) =~= findings_view(old(findings)@).push(finding@));
}

/// The findings for several dependency cycles.
pub open spec fn cycle_findings(cycles: Seq<Seq<u64>>) -> Seq<DriftFindingView> {
    cycles.map_values(|cycle: Seq<u64>| DriftFindingView::DependencyCycle { cycle })
}

/// Whether `findings` are the dependency cycles in `relationships`: every one
/// of them, each once, starting at its lowest number, in any order.
pub open spec fn are_the_cycles(
    relationships: Seq<(u64, Seq<u64>)>,
    findings: Seq<DriftFindingView>,
) -> bool {
    exists|cycles: Seq<Seq<u64>>|
        {
            &&& findings == #[trigger] cycle_findings(cycles)
            &&& crate::state::cycles::are_distinct_cycles(relationships, cycles)
            &&& forall|row: Seq<u64>|
                #[trigger] crate::state::cycles::is_cycle(relationships, row)
                    && crate::state::cycles::is_canonical(row) ==> cycles.contains(row)
        }
}

/// Finds every `blocked_by` cycle across `relationships`.
///
/// Each distinct cycle is reported once, starting at its lowest-numbered
/// issue, whichever issue the walk began from.
pub fn find_dependency_cycles(relationships: &[(u64, IssueRelationships)]) -> (findings: Vec<
    DriftFinding,
>)
    ensures
        are_the_cycles(
            crate::state::cycles::edges(relationships@),
            findings_view(findings@),
        ),
{
    let cycles = canonical_cycles(relationships);
    let ghost rows = crate::state::cycles::rows_of(cycles@);
    let mut findings: Vec<DriftFinding> = Vec::new();
    let mut i: usize = 0;
    while i < cycles.len()
        invariant
            i <= cycles@.len(),
            rows == crate::state::cycles::rows_of(cycles@),
            findings_view(findings@) == cycle_findings(rows.take(i as int)),
        decreases cycles@.len() - i,
    {
        let cycle: Vec<u64> = cycles[i].clone();
        assert(cycle@ =~= rows[i as int]);
        report(&mut findings, DriftFinding::DependencyCycle { cycle });
        proof {
            assert(rows.take(i + 1) =~= rows.take(i as int).push(rows[i as int]));
            assert(findings_view(findings@) =~= cycle_findings(rows.take(i + 1)));
        }
        i += 1;
    }
    assert(rows.take(i as int) =~= rows);
    findings
}

/// The finding, if any, for one dependency of one issue.
pub open spec fn dependency_finding(
    issue: u64,
    depends_on: u64,
    states: Map<u64, IssueState>,
) -> Option<DriftFindingView> {
    if !states.contains_key(depends_on) {
        Some(DriftFindingView::DependencyOnMissingIssue { issue, depends_on })
    } else if states[depends_on] is Closed {
        Some(DriftFindingView::DependencyOnClosedIssue { issue, depends_on })
    } else {
        None
    }
}

/// The findings for one issue's dependencies.
pub open spec fn dependency_findings(
    issue: u64,
    blocked_by: Seq<u64>,
    states: Map<u64, IssueState>,
) -> Seq<DriftFindingView> {
    blocked_by.filter_map(|depends_on: u64| dependency_finding(issue, depends_on, states))
}

/// The findings for every issue's dependencies.
pub open spec fn closed_or_missing(
    relationships: Seq<(u64, Seq<u64>)>,
    states: Map<u64, IssueState>,
) -> Seq<DriftFindingView> {
    relationships.flat_map(
        |entry: (u64, Seq<u64>)| dependency_findings(entry.0, entry.1, states),
    )
}

/// Finds every `blocked_by` edge that points at a closed or missing issue.
///
/// An issue that is absent from `issue_states` is reported as missing: a
/// dependency that cannot be verified is not assumed to be open.
pub fn find_closed_or_missing_dependencies(
    relationships: &[(u64, IssueRelationships)],
    issue_states: &HashMap<u64, IssueState>,
) -> (findings: Vec<DriftFinding>)
    ensures
        findings_view(findings@) == closed_or_missing(
            crate::state::cycles::edges(relationships@),
            issue_states@,
        ),
{
    let ghost states = issue_states@;
    let ghost all = crate::state::cycles::edges(relationships@);
    let ghost per_entry = |entry: (u64, Seq<u64>)| dependency_findings(entry.0, entry.1, states);
    let mut findings: Vec<DriftFinding> = Vec::new();
    let mut i: usize = 0;
    assert(findings_view(findings@) =~= all.take(0).flat_map(per_entry));
    while i < relationships.len()
        invariant
            i <= relationships@.len(),
            states == issue_states@,
            all == crate::state::cycles::edges(relationships@),
            per_entry == (|entry: (u64, Seq<u64>)|
                dependency_findings(entry.0, entry.1, states)),
            findings_view(findings@) == all.take(i as int).flat_map(per_entry),
        decreases relationships@.len() - i,
    {
        let issue: u64 = relationships[i].0;
        let blocked_by = &relationships[i].1.blocked_by;
        assert(all[i as int] == (issue, blocked_by@));
        let ghost per_edge = |depends_on: u64| dependency_finding(issue, depends_on, states);
        let ghost before = findings_view(findings@);
        let mut j: usize = 0;
        assert(findings_view(findings@) =~= before + blocked_by@.take(0).filter_map(per_edge));
        while j < blocked_by.len()
            invariant
                j <= blocked_by@.len(),
                states == issue_states@,
                per_edge == (|depends_on: u64| dependency_finding(issue, depends_on, states)),
                findings_view(findings@) == before + blocked_by@.take(j as int).filter_map(
                    per_edge,
                ),
            decreases blocked_by@.len() - j,
        {
            let depends_on: u64 = blocked_by[j];
            proof {
                blocked_by@.lemma_filter_map_take_succ(per_edge, j as int);
            }
            match issue_states.get(&depends_on) {
                Some(IssueState::Closed) => {
                    report(
                        &mut findings,
                        DriftFinding::DependencyOnClosedIssue { issue, depends_on },
                    );
                },
                Some(IssueState::Open) => {},
                None => {
                    report(
                        &mut findings,
                        DriftFinding::DependencyOnMissingIssue { issue, depends_on },
                    );
                },
            }
            proof {
                assert(findings_view(findings@) =~= before + blocked_by@.take(j + 1).filter_map(
                    per_edge,
                ));
            }
            j += 1;
        }
        proof {
            assert(blocked_by@.take(j as int) =~= blocked_by@);
            all.lemma_flat_map_take_append(per_entry, i as int);
        }
        i += 1;
    }
    assert(all.take(i as int) =~= all);
    findings
}

/// Whether a claim's heartbeat is older than `ttl` at `now`.
///
/// A heartbeat that lies ahead of `now`, or beyond what a [`Timestamp`] can
/// hold, is never stale.
pub open spec fn is_stale(epoch: u64, ttl: Duration, now: Timestamp) -> bool {
    &&& epoch <= i64::MAX
    &&& now.total_nanos() - epoch * crate::time::NANOS_PER_SEC > ttl.total_nanos()
}

/// A claim that is stale stays stale as time goes on, and is stale for every
/// shorter time to live.
pub proof fn stale_stays_stale(
    epoch: u64,
    ttl: Duration,
    shorter: Duration,
    now: Timestamp,
    later: Timestamp,
)
    requires
        is_stale(epoch, ttl, now),
        now.total_nanos() <= later.total_nanos(),
        shorter.total_nanos() <= ttl.total_nanos(),
    ensures
        is_stale(epoch, shorter, later),
{
}

/// The finding, if any, for one issue's claim.
pub open spec fn stale_finding(
    issue: u64,
    claim: ClaimView,
    ttl: Duration,
    now: Timestamp,
) -> Option<DriftFindingView> {
    if is_stale(claim.epoch, ttl, now) {
        Some(
            DriftFindingView::StaleClaim { issue, instance: claim.instance, epoch: claim.epoch },
        )
    } else {
        None
    }
}

/// Each claimed issue with its claim.
pub open spec fn claims_view(claims: Seq<(u64, Claim)>) -> Seq<(u64, ClaimView)> {
    claims.map_values(|entry: (u64, Claim)| (entry.0, entry.1@))
}

/// The findings for several claims.
pub open spec fn stale_claims(
    claims: Seq<(u64, ClaimView)>,
    ttl: Duration,
    now: Timestamp,
) -> Seq<DriftFindingView> {
    claims.filter_map(|entry: (u64, ClaimView)| stale_finding(entry.0, entry.1, ttl, now))
}

/// Finds every claim in `claims` whose heartbeat has gone silent past `ttl`,
/// as of `now`.
pub fn find_stale_claims(claims: &[(u64, Claim)], ttl: Duration, now: Timestamp) -> (findings: Vec<
    DriftFinding,
>)
    ensures
        findings_view(findings@) == stale_claims(claims_view(claims@), ttl, now),
{
    let ghost all = claims_view(claims@);
    let ghost per_claim = |entry: (u64, ClaimView)| stale_finding(entry.0, entry.1, ttl, now);
    let mut findings: Vec<DriftFinding> = Vec::new();
    let mut i: usize = 0;
    assert(findings_view(findings@) =~= all.take(0).filter_map(per_claim));
    while i < claims.len()
        invariant
            i <= claims@.len(),
            all == claims_view(claims@),
            per_claim == (|entry: (u64, ClaimView)| stale_finding(entry.0, entry.1, ttl, now)),
            findings_view(findings@) == all.take(i as int).filter_map(per_claim),
        decreases claims@.len() - i,
    {
        let claim = &claims[i].1;
        proof {
            assert(all[i as int] == (claims@[i as int].0, claim@));
            all.lemma_filter_map_take_succ(per_claim, i as int);
        }
        if let Some(claimed_at) = Timestamp::from_unix_secs(claim.epoch) {
            if now.is_past(claimed_at, ttl) {
                report(
                    &mut findings,
                    DriftFinding::StaleClaim {
                        issue: claims[i].0,
                        instance: claim.instance.clone(),
                        epoch: claim.epoch,
                    },
                );
            }
        }
        assert(findings_view(findings@) =~= all.take(i + 1).filter_map(per_claim));
        i += 1;
    }
    assert(all.take(i as int) =~= all);
    findings
}

/// One issue's number, its state, and every linked pull request's number and
/// state.
pub type IssueAndLinkedPullRequests = (u64, IssueState, Vec<(u64, PullRequestState)>);

/// The contents of several [`IssueAndLinkedPullRequests`].
pub open spec fn linked_view(issues: Seq<IssueAndLinkedPullRequests>) -> Seq<
    (u64, IssueState, Seq<(u64, PullRequestState)>),
> {
    issues.map_values(|entry: IssueAndLinkedPullRequests| (entry.0, entry.1, entry.2@))
}

/// The findings for the merged pull requests among those linked to `issue`.
pub open spec fn merged_findings(
    issue: u64,
    pull_requests: Seq<(u64, PullRequestState)>,
) -> Seq<DriftFindingView> {
    pull_requests.filter_map(
        |linked: (u64, PullRequestState)|
            if linked.1 is Merged {
                Some(DriftFindingView::MergedPrWithOpenIssue { issue, pull_request: linked.0 })
            } else {
                None
            },
    )
}

/// The findings for every open issue with merged pull requests.
pub open spec fn merged_with_open_issue(
    issues: Seq<(u64, IssueState, Seq<(u64, PullRequestState)>)>,
) -> Seq<DriftFindingView> {
    issues.flat_map(
        |entry: (u64, IssueState, Seq<(u64, PullRequestState)>)|
            if entry.1 is Open {
                merged_findings(entry.0, entry.2)
            } else {
                Seq::empty()
            },
    )
}

/// Finds every merged pull request linked to a still-open issue.
///
/// Every linked pull request counts, not just the most relevant one, so that
/// a newer open pull request does not make the finding disappear.
pub fn find_merged_pr_with_open_issue(issues: &[IssueAndLinkedPullRequests]) -> (findings: Vec<
    DriftFinding,
>)
    ensures
        findings_view(findings@) == merged_with_open_issue(linked_view(issues@)),
{
    let ghost all = linked_view(issues@);
    let ghost per_issue = |entry: (u64, IssueState, Seq<(u64, PullRequestState)>)|
        if entry.1 is Open {
            merged_findings(entry.0, entry.2)
        } else {
            Seq::empty()
        };
    let mut findings: Vec<DriftFinding> = Vec::new();
    let mut i: usize = 0;
    assert(findings_view(findings@) =~= all.take(0).flat_map(per_issue));
    while i < issues.len()
        invariant
            i <= issues@.len(),
            all == linked_view(issues@),
            per_issue == (|entry: (u64, IssueState, Seq<(u64, PullRequestState)>)|
                if entry.1 is Open {
                    merged_findings(entry.0, entry.2)
                } else {
                    Seq::empty()
                }),
            findings_view(findings@) == all.take(i as int).flat_map(per_issue),
        decreases issues@.len() - i,
    {
        let issue: u64 = issues[i].0;
        let pull_requests = &issues[i].2;
        proof {
            assert(all[i as int] == (issue, issues@[i as int].1, pull_requests@));
            all.lemma_flat_map_take_append(per_issue, i as int);
        }
        if let IssueState::Open = issues[i].1 {
            let ghost before = findings_view(findings@);
            let ghost per_linked = |linked: (u64, PullRequestState)|
                if linked.1 is Merged {
                    Some(DriftFindingView::MergedPrWithOpenIssue { issue, pull_request: linked.0 })
                } else {
                    None
                };
            let mut j: usize = 0;
            assert(findings_view(findings@) =~= before + pull_requests@.take(0).filter_map(
                per_linked,
            ));
            while j < pull_requests.len()
                invariant
                    j <= pull_requests@.len(),
                    per_linked == (|linked: (u64, PullRequestState)|
                        if linked.1 is Merged {
                            Some(
                                DriftFindingView::MergedPrWithOpenIssue {
                                    issue,
                                    pull_request: linked.0,
                                },
                            )
                        } else {
                            None
                        }),
                    findings_view(findings@) == before + pull_requests@.take(j as int).filter_map(
                        per_linked,
                    ),
                decreases pull_requests@.len() - j,
            {
                proof {
                    pull_requests@.lemma_filter_map_take_succ(per_linked, j as int);
                }
                if let PullRequestState::Merged = pull_requests[j].1 {
                    report(
                        &mut findings,
                        DriftFinding::MergedPrWithOpenIssue {
                            issue,
                            pull_request: pull_requests[j].0,
                        },
                    );
                }
                assert(findings_view(findings@) =~= before + pull_requests@.take(j + 1).filter_map(
                    per_linked,
                ));
                j += 1;
            }
            assert(pull_requests@.take(j as int) =~= pull_requests@);
        } else {
            assert(findings_view(findings@) + Seq::<DriftFindingView>::empty()
                =~= findings_view(findings@));
        }
        i += 1;
    }
    assert(all.take(i as int) =~= all);
    findings
}

/// The labels that begin with `prefix`, in order.
pub open spec fn labels_with(labels: Seq<Seq<char>>, prefix: Seq<char>) -> Seq<Seq<char>> {
    labels.filter(|label: Seq<char>| prefix.is_prefix_of(label))
}

/// The finding, if any, for one issue's labels and one prefix.
pub open spec fn ambiguous_findings(
    issue: u64,
    labels: Seq<Seq<char>>,
    prefix: Seq<char>,
) -> Seq<DriftFindingView> {
    if labels_with(labels, prefix).len() > 1 {
        seq![
            DriftFindingView::AmbiguousLabels {
                issue,
                prefix,
                labels: labels_with(labels, prefix),
            },
        ]
    } else {
        Seq::empty()
    }
}

/// Each issue with its labels.
pub open spec fn labels_view(issues: Seq<(u64, &[String])>) -> Seq<(u64, Seq<Seq<char>>)> {
    issues.map_values(|entry: (u64, &[String])| (entry.0, crate::text::texts(entry.1@)))
}

/// The findings for several issues' labels.
pub open spec fn ambiguous_labels(issues: Seq<(u64, Seq<Seq<char>>)>) -> Seq<DriftFindingView> {
    issues.flat_map(
        |entry: (u64, Seq<Seq<char>>)|
            ambiguous_findings(entry.0, entry.1, STATUS_PREFIX@) + ambiguous_findings(
                entry.0,
                entry.1,
                OWNER_PREFIX@,
            ),
    )
}

/// The labels among `labels` that begin with `prefix`.
fn matching_labels(labels: &[String], prefix: &str) -> (matching: Vec<String>)
    ensures
        crate::text::texts(matching@) == labels_with(crate::text::texts(labels@), prefix@),
{
    let ghost contents = crate::text::texts(labels@);
    let ghost begins = |label: Seq<char>| prefix@.is_prefix_of(label);
    let mut matching: Vec<String> = Vec::new();
    let mut i: usize = 0;
    proof {
        reveal(Seq::filter);
        assert(crate::text::texts(matching@) =~= contents.take(0).filter(begins));
    }
    while i < labels.len()
        invariant
            i <= labels@.len(),
            contents == crate::text::texts(labels@),
            begins == (|label: Seq<char>| prefix@.is_prefix_of(label)),
            crate::text::texts(matching@) == contents.take(i as int).filter(begins),
        decreases labels@.len() - i,
    {
        let ghost before = matching@;
        proof {
            assert(contents.take(i + 1) =~= contents.take(i as int).push(contents[i as int]));
            contents.take(i as int).lemma_filter_push(contents[i as int], begins);
        }
        if starts_with(labels[i].as_str(), prefix) {
            matching.push(labels[i].clone());
            assert(crate::text::texts(matching@) =~= crate::text::texts(before).push(
                contents[i as int],
            ));
        }
        i += 1;
    }
    assert(contents.take(i as int) =~= contents);
    matching
}

/// Reports the labels that begin with `prefix`, where there are several.
fn report_ambiguous(
    findings: &mut Vec<DriftFinding>,
    issue: u64,
    labels: &[String],
    prefix: &'static str,
)
    ensures
        findings_view(final(findings)@) == findings_view(old(findings)@) + ambiguous_findings(
            issue,
            crate::text::texts(labels@),
            prefix@,
        ),
{
    let matching = matching_labels(labels, prefix);
    if matching.len() > 1 {
        report(findings, DriftFinding::AmbiguousLabels { issue, prefix, labels: matching });
    }
    assert(findings_view(findings@) =~= findings_view(old(findings)@) + ambiguous_findings(
        issue,
        crate::text::texts(labels@),
        prefix@,
    ));
}

/// Finds every issue that carries more than one `status:` or `owner:` label.
///
/// A label counts by its prefix alone: a second owner label that is no valid
/// claim is exactly as ambiguous as one that is.
pub fn find_ambiguous_labels(issues: &[(u64, &[String])]) -> (findings: Vec<DriftFinding>)
    ensures
        findings_view(findings@) == ambiguous_labels(labels_view(issues@)),
{
    let ghost all = labels_view(issues@);
    let ghost per_issue = |entry: (u64, Seq<Seq<char>>)|
        ambiguous_findings(entry.0, entry.1, STATUS_PREFIX@) + ambiguous_findings(
            entry.0,
            entry.1,
            OWNER_PREFIX@,
        );
    let mut findings: Vec<DriftFinding> = Vec::new();
    let mut i: usize = 0;
    assert(findings_view(findings@) =~= all.take(0).flat_map(per_issue));
    while i < issues.len()
        invariant
            i <= issues@.len(),
            all == labels_view(issues@),
            per_issue == (|entry: (u64, Seq<Seq<char>>)|
                ambiguous_findings(entry.0, entry.1, STATUS_PREFIX@) + ambiguous_findings(
                    entry.0,
                    entry.1,
                    OWNER_PREFIX@,
                )),
            findings_view(findings@) == all.take(i as int).flat_map(per_issue),
        decreases issues@.len() - i,
    {
        let issue: u64 = issues[i].0;
        let labels: &[String] = issues[i].1;
        let ghost before = findings_view(findings@);
        report_ambiguous(&mut findings, issue, labels, STATUS_PREFIX);
        report_ambiguous(&mut findings, issue, labels, OWNER_PREFIX);
        proof {
            assert(all[i as int] == (issue, crate::text::texts(labels@)));
            all.lemma_flat_map_take_append(per_issue, i as int);
            assert(findings_view(findings@) =~= before + per_issue(all[i as int]));
        }
        i += 1;
    }
    assert(all.take(i as int) =~= all);
    findings
}

/// The numbers of the open pull requests, in order.
pub open spec fn open_numbers(pull_requests: Seq<(u64, PullRequestState)>) -> Seq<u64> {
    pull_requests.filter_map(
        |linked: (u64, PullRequestState)|
            if linked.1 is Open {
                Some(linked.0)
            } else {
                None
            },
    )
}

/// Each issue with its linked pull requests.
pub open spec fn pull_requests_of(issues: Seq<(u64, &[(u64, PullRequestState)])>) -> Seq<
    (u64, Seq<(u64, PullRequestState)>),
> {
    issues.map_values(|entry: (u64, &[(u64, PullRequestState)])| (entry.0, entry.1@))
}

/// The findings for several issues' linked pull requests.
pub open spec fn multiple_open(
    issues: Seq<(u64, Seq<(u64, PullRequestState)>)>,
) -> Seq<DriftFindingView> {
    issues.filter_map(
        |entry: (u64, Seq<(u64, PullRequestState)>)|
            if open_numbers(entry.1).len() > 1 {
                Some(
                    DriftFindingView::MultipleOpenLinkedPullRequests {
                        issue: entry.0,
                        pull_requests: open_numbers(entry.1),
                    },
                )
            } else {
                None
            },
    )
}

/// The numbers of the open pull requests among `pull_requests`.
fn open_pull_requests(pull_requests: &[(u64, PullRequestState)]) -> (open: Vec<u64>)
    ensures
        open@ == open_numbers(pull_requests@),
{
    let ghost per_linked = |linked: (u64, PullRequestState)|
        if linked.1 is Open {
            Some(linked.0)
        } else {
            None
        };
    let mut open: Vec<u64> = Vec::new();
    let mut i: usize = 0;
    assert(open@ =~= pull_requests@.take(0).filter_map(per_linked));
    while i < pull_requests.len()
        invariant
            i <= pull_requests@.len(),
            per_linked == (|linked: (u64, PullRequestState)|
                if linked.1 is Open {
                    Some(linked.0)
                } else {
                    None
                }),
            open@ == pull_requests@.take(i as int).filter_map(per_linked),
        decreases pull_requests@.len() - i,
    {
        proof {
            pull_requests@.lemma_filter_map_take_succ(per_linked, i as int);
        }
        if let PullRequestState::Open = pull_requests[i].1 {
            open.push(pull_requests[i].0);
        }
        assert(open@ =~= pull_requests@.take(i + 1).filter_map(per_linked));
        i += 1;
    }
    assert(pull_requests@.take(i as int) =~= pull_requests@);
    open
}

/// Finds every issue with more than one open linked pull request.
///
/// A superseded closed attempt beside a live one is ordinary history; only
/// pull requests that are open at the same time count.
pub fn find_multiple_open_linked_pull_requests(
    issues: &[(u64, &[(u64, PullRequestState)])],
) -> (findings: Vec<DriftFinding>)
    ensures
        findings_view(findings@) == multiple_open(pull_requests_of(issues@)),
{
    let ghost all = pull_requests_of(issues@);
    let ghost per_issue = |entry: (u64, Seq<(u64, PullRequestState)>)|
        if open_numbers(entry.1).len() > 1 {
            Some(
                DriftFindingView::MultipleOpenLinkedPullRequests {
                    issue: entry.0,
                    pull_requests: open_numbers(entry.1),
                },
            )
        } else {
            None
        };
    let mut findings: Vec<DriftFinding> = Vec::new();
    let mut i: usize = 0;
    assert(findings_view(findings@) =~= all.take(0).filter_map(per_issue));
    while i < issues.len()
        invariant
            i <= issues@.len(),
            all == pull_requests_of(issues@),
            per_issue == (|entry: (u64, Seq<(u64, PullRequestState)>)|
                if open_numbers(entry.1).len() > 1 {
                    Some(
                        DriftFindingView::MultipleOpenLinkedPullRequests {
                            issue: entry.0,
                            pull_requests: open_numbers(entry.1),
                        },
                    )
                } else {
                    None
                }),
            findings_view(findings@) == all.take(i as int).filter_map(per_issue),
        decreases issues@.len() - i,
    {
        proof {
            assert(all[i as int] == (issues@[i as int].0, issues@[i as int].1@));
            all.lemma_filter_map_take_succ(per_issue, i as int);
        }
        let open = open_pull_requests(issues[i].1);
        if open.len() > 1 {
            report(
                &mut findings,
                DriftFinding::MultipleOpenLinkedPullRequests {
                    issue: issues[i].0,
                    pull_requests: open,
                },
            );
        }
        assert(findings_view(findings@) =~= all.take(i + 1).filter_map(per_issue));
        i += 1;
    }
    assert(all.take(i as int) =~= all);
    findings
}

/// A dependency is reported as closed exactly where some issue is blocked by it
/// and it is closed, and as missing exactly where some issue is blocked by it
/// and its state is not known. One that is open is not reported, and nothing
/// else is.
pub proof fn dependencies_are_judged_by_their_state(
    relationships: Seq<(u64, Seq<u64>)>,
    states: Map<u64, IssueState>,
    issue: u64,
    depends_on: u64,
    finding: DriftFindingView,
)
    ensures
        ({
            let found = closed_or_missing(relationships, states);
            let blocked = exists|i: int|
                0 <= i < relationships.len() && (#[trigger] relationships[i]).0 == issue
                    && relationships[i].1.contains(depends_on);
            &&& found.contains(DriftFindingView::DependencyOnClosedIssue { issue, depends_on })
                <==> blocked && states.contains_key(depends_on) && states[depends_on] is Closed
            &&& found.contains(DriftFindingView::DependencyOnMissingIssue { issue, depends_on })
                <==> blocked && !states.contains_key(depends_on)
            &&& found.contains(finding) ==> finding is DependencyOnClosedIssue || finding
                is DependencyOnMissingIssue
        }),
{
    let per_entry = |entry: (u64, Seq<u64>)| dependency_findings(entry.0, entry.1, states);
    let closed = DriftFindingView::DependencyOnClosedIssue { issue, depends_on };
    let missing = DriftFindingView::DependencyOnMissingIssue { issue, depends_on };
    crate::ordered::given_by_a_member(relationships, per_entry, closed);
    crate::ordered::given_by_a_member(relationships, per_entry, missing);
    crate::ordered::given_by_a_member(relationships, per_entry, finding);
    assert forall|i: int| 0 <= i < relationships.len() implies {
        let entry = #[trigger] relationships[i];
        let here = entry.0 == issue && entry.1.contains(depends_on);
        &&& per_entry(entry).contains(closed) <==> here && states.contains_key(depends_on)
            && states[depends_on] is Closed
        &&& per_entry(entry).contains(missing) <==> here && !states.contains_key(depends_on)
        &&& per_entry(entry).contains(finding) ==> finding is DependencyOnClosedIssue || finding
            is DependencyOnMissingIssue
    } by {
        let entry = relationships[i];
        let per_edge = |other: u64| dependency_finding(entry.0, other, states);
        crate::ordered::read_off_a_member(entry.1, per_edge, closed);
        crate::ordered::read_off_a_member(entry.1, per_edge, missing);
        crate::ordered::read_off_a_member(entry.1, per_edge, finding);
        if entry.1.contains(depends_on) {
            let k = entry.1.index_of(depends_on);
            assert(per_edge(entry.1[k]) == dependency_finding(entry.0, depends_on, states));
        }
    }
}

/// A claim is stale once more time has passed since its heartbeat than it has
/// to live, counted in seconds and nanoseconds; at exactly that time it is not.
pub proof fn stale_means_silent_for_too_long(
    epoch: u64,
    ttl: Duration,
    now: Timestamp,
    seconds: u64,
)
    ensures
        is_stale(epoch, ttl, now) <==> epoch <= 0x7fff_ffff_ffff_ffff && (now.secs - epoch)
            * 1_000_000_000 + now.nanos > ttl.secs * 1_000_000_000 + ttl.nanos,
        now.nanos == 0 && epoch <= 0x7fff_ffff_ffff_ffff ==> (is_stale(
            epoch,
            Duration { secs: seconds, nanos: 0 },
            now,
        ) <==> now.secs > epoch + seconds),
{
}

/// Exactly the claims that are stale are reported, each with its issue, its
/// instance and its heartbeat.
pub proof fn stale_claims_are_reported(
    claims: Seq<(u64, ClaimView)>,
    ttl: Duration,
    now: Timestamp,
    issue: u64,
    instance: Seq<char>,
    epoch: u64,
    finding: DriftFindingView,
)
    ensures
        stale_claims(claims, ttl, now).contains(
            DriftFindingView::StaleClaim { issue, instance, epoch },
        ) <==> claims.contains((issue, ClaimView { instance, epoch })) && is_stale(epoch, ttl, now),
        stale_claims(claims, ttl, now).contains(finding) ==> finding is StaleClaim,
{
    let per_claim = |entry: (u64, ClaimView)| stale_finding(entry.0, entry.1, ttl, now);
    let wanted = DriftFindingView::StaleClaim { issue, instance, epoch };
    crate::ordered::read_off_a_member(claims, per_claim, wanted);
    crate::ordered::read_off_a_member(claims, per_claim, finding);
    let entry = (issue, ClaimView { instance, epoch });
    if claims.contains(entry) {
        let i = claims.index_of(entry);
        assert(per_claim(claims[i]) == stale_finding(issue, entry.1, ttl, now));
    }
    if stale_claims(claims, ttl, now).contains(wanted) {
        let i = choose|i: int|
            0 <= i < claims.len() && per_claim(#[trigger] claims[i]) == Some(wanted);
        assert(claims[i] == entry);
    }
}

/// A merged pull request is reported exactly where an issue that it is linked to
/// is still open.
pub proof fn merged_work_with_an_open_issue_is_reported(
    issues: Seq<(u64, IssueState, Seq<(u64, PullRequestState)>)>,
    issue: u64,
    pull_request: u64,
    finding: DriftFindingView,
)
    ensures
        merged_with_open_issue(issues).contains(
            DriftFindingView::MergedPrWithOpenIssue { issue, pull_request },
        ) <==> exists|i: int|
            0 <= i < issues.len() && (#[trigger] issues[i]).0 == issue && issues[i].1 is Open
                && issues[i].2.contains((pull_request, PullRequestState::Merged)),
        merged_with_open_issue(issues).contains(finding) ==> finding is MergedPrWithOpenIssue,
{
    let give = |entry: (u64, IssueState, Seq<(u64, PullRequestState)>)|
        if entry.1 is Open {
            merged_findings(entry.0, entry.2)
        } else {
            Seq::empty()
        };
    let wanted = DriftFindingView::MergedPrWithOpenIssue { issue, pull_request };
    crate::ordered::given_by_a_member(issues, give, wanted);
    crate::ordered::given_by_a_member(issues, give, finding);
    assert forall|i: int| 0 <= i < issues.len() implies {
        let entry = #[trigger] issues[i];
        &&& give(entry).contains(wanted) <==> entry.0 == issue && entry.1 is Open
            && entry.2.contains((pull_request, PullRequestState::Merged))
        &&& give(entry).contains(finding) ==> finding is MergedPrWithOpenIssue
    } by {
        let entry = issues[i];
        let read = |linked: (u64, PullRequestState)|
            if linked.1 is Merged {
                Some(
                    DriftFindingView::MergedPrWithOpenIssue {
                        issue: entry.0,
                        pull_request: linked.0,
                    },
                )
            } else {
                None
            };
        crate::ordered::read_off_a_member(entry.2, read, wanted);
        crate::ordered::read_off_a_member(entry.2, read, finding);
        let pair = (pull_request, PullRequestState::Merged);
        if entry.2.contains(pair) {
            let k = entry.2.index_of(pair);
            assert(read(entry.2[k]) is Some);
        }
        if entry.1 is Open && merged_findings(entry.0, entry.2).contains(wanted) {
            let k = choose|k: int|
                0 <= k < entry.2.len() && read(#[trigger] entry.2[k]) == Some(wanted);
            assert(entry.2[k] == pair);
        }
    }
}

/// Labels are reported as ambiguous exactly where an issue has more than one
/// that begins with `status:`, or more than one that begins with `owner:`; and
/// all of these are named, in order.
pub proof fn ambiguous_labels_are_reported(
    issues: Seq<(u64, Seq<Seq<char>>)>,
    issue: u64,
    prefix: Seq<char>,
    labels: Seq<Seq<char>>,
    finding: DriftFindingView,
)
    ensures
        ambiguous_labels(issues).contains(
            DriftFindingView::AmbiguousLabels { issue, prefix, labels },
        ) <==> {
            &&& prefix == "status:"@ || prefix == "owner:"@
            &&& labels.len() > 1
            &&& exists|i: int|
                0 <= i < issues.len() && (#[trigger] issues[i]).0 == issue && labels
                    == issues[i].1.filter(|label: Seq<char>| prefix.is_prefix_of(label))
        },
        ambiguous_labels(issues).contains(finding) ==> finding is AmbiguousLabels,
{
    let give = |entry: (u64, Seq<Seq<char>>)|
        ambiguous_findings(entry.0, entry.1, STATUS_PREFIX@) + ambiguous_findings(
            entry.0,
            entry.1,
            OWNER_PREFIX@,
        );
    let wanted = DriftFindingView::AmbiguousLabels { issue, prefix, labels };
    crate::ordered::given_by_a_member(issues, give, wanted);
    crate::ordered::given_by_a_member(issues, give, finding);
    assert forall|i: int| 0 <= i < issues.len() implies {
        let entry = #[trigger] issues[i];
        &&& give(entry).contains(wanted) <==> (prefix == "status:"@ || prefix == "owner:"@)
            && labels.len() > 1 && entry.0 == issue && labels == entry.1.filter(
            |label: Seq<char>| prefix.is_prefix_of(label),
        )
        &&& give(entry).contains(finding) ==> finding is AmbiguousLabels
    } by {
        let entry = issues[i];
        let statuses = ambiguous_findings(entry.0, entry.1, "status:"@);
        let owners = ambiguous_findings(entry.0, entry.1, "owner:"@);
        crate::ordered::in_either(statuses, owners, wanted);
        crate::ordered::in_either(statuses, owners, finding);
        if statuses.len() > 0 {
            assert(statuses.contains(statuses[0]));
        }
        if owners.len() > 0 {
            assert(owners.contains(owners[0]));
        }
        assert(labels_with(entry.1, prefix) == entry.1.filter(
            |label: Seq<char>| prefix.is_prefix_of(label),
        ));
    }
}

/// The open ones among pull requests keep their order: the numbers of two rows
/// together are those of the one and then those of the other.
pub proof fn open_pull_requests_keep_their_order(
    pull_requests: Seq<(u64, PullRequestState)>,
    linked: (u64, PullRequestState),
)
    ensures
        open_numbers(Seq::empty()).len() == 0,
        linked.1 is Open ==> open_numbers(pull_requests.push(linked)) == open_numbers(
            pull_requests,
        ).push(linked.0),
        !(linked.1 is Open) ==> open_numbers(pull_requests.push(linked)) == open_numbers(
            pull_requests,
        ),
{
    let read = |linked: (u64, PullRequestState)|
        if linked.1 is Open {
            Some(linked.0)
        } else {
            None
        };
    let more = pull_requests.push(linked);
    let n = pull_requests.len() as int;
    more.lemma_filter_map_take_succ(read, n);
    assert(more.take(n) =~= pull_requests);
    assert(more.take(n + 1) =~= more);
    assert(open_numbers(pull_requests) + seq![linked.0] =~= open_numbers(pull_requests).push(
        linked.0,
    ));
}

/// An issue is reported exactly where more than one pull request that is linked
/// to it is open, and all of these are named, in order.
pub proof fn several_open_pull_requests_are_reported(
    issues: Seq<(u64, Seq<(u64, PullRequestState)>)>,
    issue: u64,
    pull_requests: Seq<u64>,
    finding: DriftFindingView,
)
    ensures
        multiple_open(issues).contains(
            DriftFindingView::MultipleOpenLinkedPullRequests { issue, pull_requests },
        ) <==> pull_requests.len() > 1 && exists|i: int|
            0 <= i < issues.len() && (#[trigger] issues[i]).0 == issue && pull_requests
                == open_numbers(issues[i].1),
        multiple_open(issues).contains(finding) ==> finding is MultipleOpenLinkedPullRequests,
{
    let read = |entry: (u64, Seq<(u64, PullRequestState)>)|
        if open_numbers(entry.1).len() > 1 {
            Some(
                DriftFindingView::MultipleOpenLinkedPullRequests {
                    issue: entry.0,
                    pull_requests: open_numbers(entry.1),
                },
            )
        } else {
            None
        };
    let wanted = DriftFindingView::MultipleOpenLinkedPullRequests { issue, pull_requests };
    crate::ordered::read_off_a_member(issues, read, wanted);
    crate::ordered::read_off_a_member(issues, read, finding);
    if multiple_open(issues).contains(wanted) {
        let i = choose|i: int|
            0 <= i < issues.len() && read(#[trigger] issues[i]) == Some(wanted);
        assert(issues[i].0 == issue);
    }
    if pull_requests.len() > 1 && exists|i: int|
        0 <= i < issues.len() && (#[trigger] issues[i]).0 == issue && pull_requests
            == open_numbers(issues[i].1) {
        let i = choose|i: int|
            0 <= i < issues.len() && (#[trigger] issues[i]).0 == issue && pull_requests
                == open_numbers(issues[i].1);
        assert(read(issues[i]) == Some(wanted));
    }
}

/// Exactly the rows of distinct issues in which each is blocked by the next, and
/// the last by the first, are reported as cycles, each starting at its lowest
/// number and only once.
pub proof fn cycles_of_blocked_issues_are_reported(
    relationships: Seq<(u64, Seq<u64>)>,
    findings: Seq<DriftFindingView>,
    cycle: Seq<u64>,
)
    requires
        are_the_cycles(relationships, findings),
    ensures
        findings.contains(DriftFindingView::DependencyCycle { cycle }) <==> {
            &&& cycle.len() > 0
            &&& cycle.no_duplicates()
            &&& forall|i: int| 0 <= i < cycle.len() ==> cycle[0] <= #[trigger] cycle[i]
            &&& forall|i: int|
                0 <= i < cycle.len() - 1 ==> crate::state::cycles::edges_of(
                    relationships,
                    #[trigger] cycle[i],
                ).contains(cycle[i + 1])
            &&& crate::state::cycles::edges_of(relationships, cycle.last()).contains(cycle[0])
        },
        findings.no_duplicates(),
        forall|i: int| 0 <= i < findings.len() ==> #[trigger] findings[i] is DependencyCycle,
{
    let cycles = choose|cycles: Seq<Seq<u64>>|
        {
            &&& findings == #[trigger] cycle_findings(cycles)
            &&& crate::state::cycles::are_distinct_cycles(relationships, cycles)
            &&& forall|row: Seq<u64>|
                #[trigger] crate::state::cycles::is_cycle(relationships, row)
                    && crate::state::cycles::is_canonical(row) ==> cycles.contains(row)
        };
    let wanted = DriftFindingView::DependencyCycle { cycle };
    if findings.contains(wanted) {
        let i = findings.index_of(wanted);
        assert(cycles[i] == cycle);
    }
    let right = crate::state::cycles::is_cycle(relationships, cycle)
        && crate::state::cycles::is_canonical(cycle);
    if right {
        let i = cycles.index_of(cycle);
        assert(findings[i] == wanted);
    }
    assert forall|i: int, j: int| 0 <= i < findings.len() && 0 <= j < findings.len() && i
        != j implies findings[i] != findings[j] by {
        assert(cycles[i] != cycles[j]);
    }
}

} // verus!
