//! Work-claiming: the single-slot `owner:<instance>@<epoch>` label that keeps
//! two instances from working on one issue at once.
//!
//! [`write_claim`] removes every owner label from the issue and adds this
//! instance's own. After letting that settle, [`confirm_claim`] reads the
//! issue again and reports whose claim stuck. The delay in between belongs to
//! the caller.

use vstd::prelude::*;

use crate::numbers::decimal_text;
use crate::state::{Claim, ClaimView, OWNER_PREFIX};
use crate::text::{chars_of, starts_with, str_eq};
use crate::vcs::fake::FakeVcs;
use crate::vcs::{Recorded, Vcs, VcsCall, VcsError, VcsErrorView};

verus! {

/// Why [`write_claim`] rejects an instance id.
pub const INVALID_INSTANCE_ID: &'static str = "must be non-empty and contain only ASCII letters, \
                                               digits, '-', '_', '.', or '@'";

/// Errors from [`write_claim`].
#[derive(Debug)]
#[non_exhaustive]
pub enum ClaimError {
    /// A `git`/`gh` call failed.
    Vcs(VcsError),
    /// The instance id cannot safely become part of a label.
    InvalidInstanceId {
        /// The rejected id.
        instance_id: String,
        /// Why it was rejected.
        reason: &'static str,
    },
}

/// The contents of a [`ClaimError`].
pub enum ClaimErrorView {
    Vcs(VcsErrorView),
    InvalidInstanceId { instance_id: Seq<char>, reason: Seq<char> },
}

impl View for ClaimError {
    type V = ClaimErrorView;

    open spec fn view(&self) -> ClaimErrorView {
        match *self {
            ClaimError::Vcs(error) => ClaimErrorView::Vcs(error@),
            ClaimError::InvalidInstanceId { instance_id, reason } => {
                ClaimErrorView::InvalidInstanceId { instance_id: instance_id@, reason: reason@ }
            },
        }
    }
}

/// The outcome of a work-claim's settle-read.
#[derive(Debug, Eq, PartialEq)]
#[non_exhaustive]
pub enum ClaimResult {
    /// This instance's claim is the one that stuck.
    Claimed,
    /// Another claim stuck, or none at all.
    LostToOther {
        /// The instance whose claim stuck, or `None` where there is no claim.
        instance: Option<String>,
    },
}

/// The contents of a [`ClaimResult`].
pub enum ClaimResultView {
    Claimed,
    LostToOther { instance: Option<Seq<char>> },
}

impl View for ClaimResult {
    type V = ClaimResultView;

    open spec fn view(&self) -> ClaimResultView {
        match *self {
            ClaimResult::Claimed => ClaimResultView::Claimed,
            ClaimResult::LostToOther { instance } => ClaimResultView::LostToOther {
                instance: crate::text::text_view(instance),
            },
        }
    }
}

/// Whether a character may stand in an instance id.
pub open spec fn is_instance_char(c: char) -> bool {
    ||| 'a' <= c <= 'z'
    ||| 'A' <= c <= 'Z'
    ||| '0' <= c <= '9'
    ||| c == '-'
    ||| c == '_'
    ||| c == '.'
    ||| c == '@'
}

/// Whether an instance id is non-empty and made of allowed characters alone.
///
/// The label that holds it is handed to `gh` as one CSV record, in which a
/// comma would split it, a newline cut it off, and a quote spoil it.
pub open spec fn is_instance_id(id: Seq<char>) -> bool {
    &&& id.len() > 0
    &&& forall|i: int| 0 <= i < id.len() ==> is_instance_char(#[trigger] id[i])
}

/// Whether `instance_id` can safely become part of an owner label.
pub fn is_valid_instance_id(instance_id: &str) -> (valid: bool)
    ensures
        valid == is_instance_id(instance_id@),
{
    let chars = chars_of(instance_id);
    let mut i: usize = 0;
    while i < chars.len()
        invariant
            i <= chars@.len(),
            chars@ == instance_id@,
            forall|k: int| 0 <= k < i ==> is_instance_char(#[trigger] instance_id@[k]),
        decreases chars@.len() - i,
    {
        let c: char = chars[i];
        assert(c == instance_id@[i as int]);
        let allowed = ('a' <= c && c <= 'z') || ('A' <= c && c <= 'Z') || ('0' <= c && c <= '9')
            || c == '-' || c == '_' || c == '.' || c == '@';
        if !allowed {
            return false;
        }
        i += 1;
    }
    chars.len() > 0
}

/// The label by which `instance` claims an issue at `now`.
pub open spec fn claim_label(instance: Seq<char>, now: u64) -> Seq<char> {
    OWNER_PREFIX@ + instance + "@"@ + crate::numbers::decimal(now as nat)
}

/// The label writes of a claim: every owner label is removed, in order, and
/// the new one added. Each is a label and whether it is to be present.
pub open spec fn claim_writes(labels: Seq<Seq<char>>, instance: Seq<char>, now: u64) -> Seq<
    (Seq<char>, bool),
> {
    removals(crate::state::drift::labels_with(labels, OWNER_PREFIX@)).push(
        (claim_label(instance, now), true),
    )
}

/// The writes that remove each of several labels.
pub open spec fn removals(labels: Seq<Seq<char>>) -> Seq<(Seq<char>, bool)> {
    labels.map_values(|label: Seq<char>| (label, false))
}

/// What several label writes in turn come to, given the calls from position
/// `from` on: success or the first error, and the position after the last call
/// made. `None` where those are other calls.
pub open spec fn label_writes_run(
    calls: Seq<VcsCall>,
    from: int,
    repo: Seq<char>,
    number: u64,
    writes: Seq<(Seq<char>, bool)>,
) -> Option<(Result<(), VcsErrorView>, int)>
    decreases writes.len(),
{
    if writes.len() == 0 {
        Some((Ok(()), from))
    } else {
        match label_writes_run(calls, from, repo, number, writes.drop_last()) {
            None => None,
            Some((Err(error), end)) => Some((Err(error), end)),
            Some((Ok(_), end)) => if !(0 <= end < calls.len()) {
                None
            } else if let VcsCall::SetLabel { repo: asked, number: wanted, label, present, result } =
                calls[end] {
                if asked != repo || wanted != number || (label, present) != writes.last() {
                    None
                } else {
                    Some((result, end + 1))
                }
            } else {
                None
            },
        }
    }
}

/// What writing a claim comes to, given the calls from position `from` on: its
/// result, and the position after the last call made. An invalid instance id
/// is refused before any call. `None` where those are other calls.
pub open spec fn write_claim_run(
    calls: Seq<VcsCall>,
    from: int,
    repo: Seq<char>,
    number: u64,
    instance: Seq<char>,
    now: u64,
) -> Option<(Result<(), ClaimErrorView>, int)> {
    if !is_instance_id(instance) {
        Some(
            (
                Err(
                    ClaimErrorView::InvalidInstanceId {
                        instance_id: instance,
                        reason: INVALID_INSTANCE_ID@,
                    },
                ),
                from,
            ),
        )
    } else if !(0 <= from < calls.len()) {
        None
    } else if let VcsCall::ReadIssue { repo: asked, number: wanted, result } = calls[from] {
        if asked != repo || wanted != number {
            None
        } else {
            match result {
                Err(error) => Some((Err(ClaimErrorView::Vcs(error)), from + 1)),
                Ok(issue) => match label_writes_run(
                    calls,
                    from + 1,
                    repo,
                    number,
                    claim_writes(issue.labels, instance, now),
                ) {
                    None => None,
                    Some((Ok(_), end)) => Some((Ok(()), end)),
                    Some((Err(error), end)) => Some((Err(ClaimErrorView::Vcs(error)), end)),
                },
            }
        }
    } else {
        None
    }
}

/// The contents of what writing a claim gave back.
pub open spec fn claim_outcome(result: Result<(), ClaimError>) -> Result<(), ClaimErrorView> {
    match result {
        Ok(_) => Ok(()),
        Err(error) => Err(error@),
    }
}

/// A label write that fails decides, whatever writes were to follow.
proof fn label_writes_fail_early(
    calls: Seq<VcsCall>,
    from: int,
    repo: Seq<char>,
    number: u64,
    writes: Seq<(Seq<char>, bool)>,
    upto: int,
    error: VcsErrorView,
    end: int,
)
    requires
        0 <= upto <= writes.len(),
        label_writes_run(calls, from, repo, number, writes.take(upto)) == Some(
            (Err::<(), VcsErrorView>(error), end),
        ),
    ensures
        label_writes_run(calls, from, repo, number, writes) == Some(
            (Err::<(), VcsErrorView>(error), end),
        ),
    decreases writes.len(),
{
    if upto < writes.len() {
        assert(writes.drop_last().take(upto) =~= writes.take(upto));
        label_writes_fail_early(calls, from, repo, number, writes.drop_last(), upto, error, end);
    } else {
        assert(writes.take(upto) =~= writes);
    }
}

/// Calls made later do not change what earlier calls came to.
proof fn label_writes_run_extends(
    calls: Seq<VcsCall>,
    more: Seq<VcsCall>,
    from: int,
    repo: Seq<char>,
    number: u64,
    writes: Seq<(Seq<char>, bool)>,
)
    requires
        calls.is_prefix_of(more),
        0 <= from <= calls.len(),
        label_writes_run(calls, from, repo, number, writes) is Some,
    ensures
        label_writes_run(more, from, repo, number, writes) == label_writes_run(
            calls,
            from,
            repo,
            number,
            writes,
        ),
        from <= (label_writes_run(calls, from, repo, number, writes)->0).1 <= calls.len(),
    decreases writes.len(),
{
    if writes.len() > 0 {
        label_writes_run_extends(calls, more, from, repo, number, writes.drop_last());
        let end = (label_writes_run(calls, from, repo, number, writes.drop_last())->0).1;
        if end < calls.len() {
            assert(more.subrange(0, calls.len() as int)[end] == calls[end]);
        }
    }
}

/// Writes this instance's work-claim on `issue_number`: removes every owner
/// label, then adds `owner:<instance_id>@<now>`.
///
/// The same call refreshes an instance's own claim, and reclaims it after a
/// restart. A failure partway leaves the labels partly cleaned; the next
/// attempt starts from scratch.
pub fn write_claim<V: Vcs>(
    vcs: &mut V,
    repo: &str,
    issue_number: u64,
    instance_id: &str,
    now: u64,
) -> (result: Result<(), ClaimError>)
    ensures
        crate::vcs::leads(*old(vcs), *final(vcs)),
        old(vcs).history().is_prefix_of(final(vcs).history()),
        write_claim_run(
            final(vcs).history(),
            old(vcs).history().len() as int,
            repo@,
            issue_number,
            instance_id@,
            now,
        ) == Some((claim_outcome(result), final(vcs).history().len() as int)),
{
    let ghost entry = *vcs;
    let ghost start = vcs.history();
    proof {
        crate::vcs::leads_nowhere(entry);
    }
    if !is_valid_instance_id(instance_id) {
        return Err(
            ClaimError::InvalidInstanceId {
                instance_id: instance_id.to_string(),
                reason: INVALID_INSTANCE_ID,
            },
        );
    }
    let read = vcs.read_issue(repo, issue_number);
    proof {
        crate::vcs::leads_by_one(entry, *vcs);
    }
    let issue = match read {
        Ok(issue) => issue,
        Err(error) => return Err(ClaimError::Vcs(error)),
    };
    let ghost read = vcs.history();
    let ghost labels = issue@.labels;
    let ghost owns = |label: Seq<char>| OWNER_PREFIX@.is_prefix_of(label);
    let ghost writes = claim_writes(labels, instance_id@, now);
    let ghost mut done: int = 0;
    let mut i: usize = 0;
    proof {
        reveal(Seq::filter);
        assert(labels.take(0).filter(owns) =~= Seq::<Seq<char>>::empty());
        assert(writes.take(0) =~= Seq::<(Seq<char>, bool)>::empty());
    }
    while i < issue.labels.len()
        invariant
            i <= issue.labels@.len(),
            labels == crate::text::texts(issue.labels@),
            owns == (|label: Seq<char>| OWNER_PREFIX@.is_prefix_of(label)),
            writes == claim_writes(labels, instance_id@, now),
            is_instance_id(instance_id@),
            start == old(vcs).history(),
            read == start.push(
                VcsCall::ReadIssue { repo: repo@, number: issue_number, result: Ok(issue@) },
            ),
            labels == issue@.labels,
            read.is_prefix_of(vcs.history()),
            entry == *old(vcs),
            crate::vcs::leads(entry, *vcs),
            done == labels.take(i as int).filter(owns).len(),
            label_writes_run(
                vcs.history(),
                read.len() as int,
                repo@,
                issue_number,
                writes.take(done),
            ) == Some((Ok::<(), VcsErrorView>(()), vcs.history().len() as int)),
        decreases issue.labels@.len() - i,
    {
        let label = issue.labels[i].as_str();
        let ghost earlier = labels.take(i as int);
        proof {
            assert(labels[i as int] == label@);
            assert(labels.take(i + 1) =~= earlier.push(label@));
            earlier.lemma_filter_push(label@, owns);
        }
        if starts_with(label, OWNER_PREFIX) {
            let ghost at = *vcs;
            let ghost before = vcs.history();
            let cleared = vcs.set_label(repo, issue_number, label, false);
            proof {
                crate::vcs::leads_on(entry, at, *vcs);
                let after = vcs.history();
                filter_prefix(labels, i + 1, owns);
                assert(labels.take(i + 1).filter(owns)[done] == label@);
                assert(writes[done] == (label@, false));
                assert(before =~= after.subrange(0, before.len() as int));
                assert(read =~= after.subrange(0, read.len() as int)) by {
                    assert(read =~= before.subrange(0, read.len() as int));
                }
                label_writes_run_extends(
                    before,
                    after,
                    read.len() as int,
                    repo@,
                    issue_number,
                    writes.take(done),
                );
                assert(writes.take(done + 1).drop_last() =~= writes.take(done));
                done = done + 1;
            }
            if let Err(error) = cleared {
                proof {
                    let after = vcs.history();
                    label_writes_fail_early(
                        after,
                        read.len() as int,
                        repo@,
                        issue_number,
                        writes,
                        done,
                        error@,
                        after.len() as int,
                    );
                    assert(start =~= after.subrange(0, start.len() as int)) by {
                        assert(read =~= after.subrange(0, read.len() as int));
                        assert(start =~= read.subrange(0, start.len() as int));
                    }
                    assert(after.subrange(0, read.len() as int)[start.len() as int]
                        == after[start.len() as int]);
                }
                return Err(ClaimError::Vcs(error));
            }
        }
        i += 1;
    }
    let label = OWNER_PREFIX.to_string().concat(instance_id).concat("@").concat(
        decimal_text(now).as_str(),
    );
    let ghost at = *vcs;
    let ghost before = vcs.history();
    let added = vcs.set_label(repo, issue_number, label.as_str(), true);
    proof {
        crate::vcs::leads_on(entry, at, *vcs);
        let after = vcs.history();
        assert(labels.take(i as int) =~= labels);
        assert(writes.len() == done + 1);
        assert(writes.last() == (label@, true));
        assert(before =~= after.subrange(0, before.len() as int));
        assert(read =~= after.subrange(0, read.len() as int)) by {
            assert(read =~= before.subrange(0, read.len() as int));
        }
        label_writes_run_extends(
            before,
            after,
            read.len() as int,
            repo@,
            issue_number,
            writes.take(done),
        );
        assert(writes.drop_last() =~= writes.take(done));
        assert(start =~= after.subrange(0, start.len() as int)) by {
            assert(start =~= read.subrange(0, start.len() as int));
        }
        assert(after.subrange(0, read.len() as int)[start.len() as int]
            == after[start.len() as int]);
    }
    match added {
        Ok(_) => Ok(()),
        Err(error) => Err(ClaimError::Vcs(error)),
    }
}

/// What a filter keeps of the first few is the start of what it keeps of all.
proof fn filter_prefix<T>(values: Seq<T>, upto: int, keep: spec_fn(T) -> bool)
    requires
        0 <= upto <= values.len(),
    ensures
        values.take(upto).filter(keep).is_prefix_of(values.filter(keep)),
{
    let front = values.take(upto);
    let back = values.skip(upto);
    assert(values =~= front + back);
    Seq::filter_distributes_over_add(front, back, keep);
    let kept = front.filter(keep);
    assert((kept + back.filter(keep)).subrange(0, kept.len() as int) =~= kept);
}

/// What an issue's labels say of a claim by `instance`: the first claim among
/// them decides.
pub open spec fn settled(labels: Seq<Seq<char>>, instance: Seq<char>) -> ClaimResultView {
    match crate::state::head(crate::state::claims_in(labels)) {
        None => ClaimResultView::LostToOther { instance: None },
        Some(claim) => if claim.instance == instance {
            ClaimResultView::Claimed
        } else {
            ClaimResultView::LostToOther { instance: Some(claim.instance) }
        },
    }
}

/// Decides from an issue's labels whether `instance_id`'s claim stuck.
pub fn settle(labels: &Vec<String>, instance_id: &str) -> (result: ClaimResult)
    ensures
        result@ == settled(crate::text::texts(labels@), instance_id@),
{
    let ghost all = crate::text::texts(labels@);
    let mut i: usize = 0;
    assert(all.take(0) =~= Seq::<Seq<char>>::empty());
    while i < labels.len()
        invariant
            i <= labels@.len(),
            all == crate::text::texts(labels@),
            crate::state::claims_in(all.take(i as int)).len() == 0,
        decreases labels@.len() - i,
    {
        proof {
            assert(all[i as int] == labels@[i as int]@);
            all.lemma_filter_map_take_succ(
                |label: Seq<char>| crate::state::parsed_claim(label),
                i as int,
            );
        }
        if let Some(claim) = Claim::parse(labels[i].as_str()) {
            proof {
                first_claim_decides(all, i as int);
            }
            if str_eq(claim.instance.as_str(), instance_id) {
                return ClaimResult::Claimed;
            }
            return ClaimResult::LostToOther { instance: Some(claim.instance) };
        }
        i += 1;
    }
    assert(all.take(i as int) =~= all);
    ClaimResult::LostToOther { instance: None }
}

/// Where no label before position `at` is a claim and the one there is, that
/// one is the first claim of all.
proof fn first_claim_decides(labels: Seq<Seq<char>>, at: int)
    requires
        0 <= at < labels.len(),
        crate::state::claims_in(labels.take(at)).len() == 0,
        crate::state::parsed_claim(labels[at]) is Some,
    ensures
        crate::state::head(crate::state::claims_in(labels)) == crate::state::parsed_claim(
            labels[at],
        ),
{
    let read = |label: Seq<char>| crate::state::parsed_claim(label);
    labels.lemma_filter_map_take_succ(read, at);
    claims_prefix(labels, at + 1);
    let few = crate::state::claims_in(labels.take(at + 1));
    let all = crate::state::claims_in(labels);
    assert(few.len() == 1);
    assert(all.subrange(0, 1)[0] == all[0]);
}

/// The claims among the first few labels are the first claims of all.
proof fn claims_prefix(labels: Seq<Seq<char>>, upto: int)
    requires
        0 <= upto <= labels.len(),
    ensures
        crate::state::claims_in(labels.take(upto)).is_prefix_of(crate::state::claims_in(labels)),
    decreases labels.len() - upto,
{
    let read = |label: Seq<char>| crate::state::parsed_claim(label);
    if upto == labels.len() {
        assert(labels.take(upto) =~= labels);
        let all = crate::state::claims_in(labels);
        assert(all.subrange(0, all.len() as int) =~= all);
    } else {
        labels.lemma_filter_map_take_succ(read, upto);
        claims_prefix(labels, upto + 1);
        let few = crate::state::claims_in(labels.take(upto));
        let more = crate::state::claims_in(labels.take(upto + 1));
        let all = crate::state::claims_in(labels);
        assert(few =~= more.subrange(0, few.len() as int));
        assert(few =~= all.subrange(0, few.len() as int)) by {
            assert forall|k: int| 0 <= k < few.len() implies few[k] == all[k] by {
                assert(all.subrange(0, more.len() as int)[k] == all[k]);
            }
        }
    }
}

/// What confirming a claim comes to, given the call at position `from`.
pub open spec fn confirm_run(
    calls: Seq<VcsCall>,
    from: int,
    repo: Seq<char>,
    number: u64,
    instance: Seq<char>,
) -> Option<Result<ClaimResultView, VcsErrorView>> {
    if !(0 <= from < calls.len()) {
        None
    } else if let VcsCall::ReadIssue { repo: asked, number: wanted, result } = calls[from] {
        if asked != repo || wanted != number {
            None
        } else {
            match result {
                Err(error) => Some(Err(error)),
                Ok(issue) => Some(Ok(settled(issue.labels, instance))),
            }
        }
    } else {
        None
    }
}

/// The settle-read: reads the issue's labels again and reports whether
/// `instance_id`'s claim is the one that stuck.
///
/// Where there are several claims, the first one wins, as it does in the
/// issue's derived state.
pub fn confirm_claim<V: Vcs>(
    vcs: &mut V,
    repo: &str,
    issue_number: u64,
    instance_id: &str,
) -> (result: Result<ClaimResult, VcsError>)
    ensures
        crate::vcs::leads(*old(vcs), *final(vcs)),
        final(vcs).history().len() == old(vcs).history().len() + 1,
        old(vcs).history().is_prefix_of(final(vcs).history()),
        confirm_run(
            final(vcs).history(),
            old(vcs).history().len() as int,
            repo@,
            issue_number,
            instance_id@,
        ) == Some(crate::vcs::outcome(result)),
{
    let ghost entry = *vcs;
    let read = vcs.read_issue(repo, issue_number);
    proof {
        crate::vcs::leads_by_one(entry, *vcs);
    }
    match read {
        Ok(issue) => Ok(settle(&issue.labels, instance_id)),
        Err(error) => Err(error),
    }
}

/// A claim's label reads back as the claim that it was written for, whatever
/// `@` the instance id itself holds.
pub proof fn claim_reads_back(instance: Seq<char>, now: u64)
    requires
        instance.len() > 0,
    ensures
        crate::state::parsed_claim(claim_label(instance, now)) == Some(
            ClaimView { instance, epoch: now },
        ),
{
    reveal_strlit("@");
    let epoch = crate::numbers::decimal(now as nat);
    let rest = instance + "@"@ + epoch;
    assert(claim_label(instance, now) =~= OWNER_PREFIX@ + rest);
    crate::text::after_prefix_of_concat(OWNER_PREFIX@, rest);
    assert(rest =~= instance.push('@') + epoch);
    crate::numbers::decimal_read_back(now as nat);
    assert(!epoch.contains('@')) by {
        if epoch.contains('@') {
            let i = choose|i: int| 0 <= i < epoch.len() && epoch[i] == '@';
            assert(crate::numbers::is_digit(epoch[i]));
        }
    }
    crate::text::around_last_of_join(instance, '@', epoch);
    crate::numbers::parse_of_decimal(now);
}

/// Different claims have different labels.
pub proof fn claim_labels_differ(first: Seq<char>, then: u64, second: Seq<char>, now: u64)
    requires
        first.len() > 0,
        second.len() > 0,
        claim_label(first, then) == claim_label(second, now),
    ensures
        first == second,
        then == now,
{
    claim_reads_back(first, then);
    claim_reads_back(second, now);
}

/// An issue's labels once several writes have been made in turn.
pub open spec fn labels_after_writes(
    labels: Seq<Seq<char>>,
    writes: Seq<(Seq<char>, bool)>,
) -> Seq<Seq<char>>
    decreases writes.len(),
{
    if writes.len() == 0 {
        labels
    } else {
        crate::vcs::labels_after(
            labels_after_writes(labels, writes.drop_last()),
            writes.last().0,
            writes.last().1,
        )
    }
}

/// Filters that agree on every member keep the same.
proof fn filters_agree<T>(values: Seq<T>, keep: spec_fn(T) -> bool, other: spec_fn(T) -> bool)
    requires
        forall|i: int| 0 <= i < values.len() ==> keep(#[trigger] values[i]) == other(values[i]),
    ensures
        values.filter(keep) == values.filter(other),
    decreases values.len(),
{
    reveal(Seq::filter);
    if values.len() > 0 {
        let rest = values.drop_last();
        assert forall|i: int| 0 <= i < rest.len() implies keep(#[trigger] rest[i]) == other(
            rest[i],
        ) by {
            assert(rest[i] == values[i]);
        }
        filters_agree(rest, keep, other);
        assert(keep(values[values.len() - 1]) == other(values[values.len() - 1]));
    }
}

/// One filter after the other keeps what both keep.
proof fn filter_twice<T>(values: Seq<T>, first: spec_fn(T) -> bool, second: spec_fn(T) -> bool)
    ensures
        values.filter(first).filter(second) == values.filter(|value: T| first(value) && second(value)),
    decreases values.len(),
{
    reveal(Seq::filter);
    let both = |value: T| first(value) && second(value);
    if values.len() > 0 {
        let rest = values.drop_last();
        let last = values.last();
        filter_twice(rest, first, second);
        assert(values =~= rest.push(last));
        rest.lemma_filter_push(last, first);
        rest.lemma_filter_push(last, both);
        rest.filter(first).lemma_filter_push(last, second);
    }
}

/// Removing several labels in turn leaves the labels that are none of them.
proof fn removals_leave_the_rest(labels: Seq<Seq<char>>, removed: Seq<Seq<char>>)
    ensures
        labels_after_writes(labels, removals(removed)) == labels.filter(
            |label: Seq<char>| !removed.contains(label),
        ),
    decreases removed.len(),
{
    let keep = |label: Seq<char>| !removed.contains(label);
    if removed.len() == 0 {
        let all = |label: Seq<char>| true;
        filters_agree(labels, keep, all);
        keep_all(labels);
        assert(removals(removed) =~= Seq::<(Seq<char>, bool)>::empty());
    } else {
        let fewer = removed.drop_last();
        let last = removed.last();
        removals_leave_the_rest(labels, fewer);
        assert(removals(removed).drop_last() =~= removals(fewer));
        let keep_fewer = |label: Seq<char>| !fewer.contains(label);
        let differs = crate::vcs::other_than(last);
        filter_twice(labels, keep_fewer, differs);
        assert forall|i: int| 0 <= i < labels.len() implies keep(#[trigger] labels[i]) == (
        keep_fewer(labels[i]) && differs(labels[i])) by {
            let label = labels[i];
            if removed.contains(label) {
                let k = choose|k: int| 0 <= k < removed.len() && removed[k] == label;
                if k < fewer.len() {
                    assert(fewer[k] == label);
                }
            }
            if fewer.contains(label) {
                let k = choose|k: int| 0 <= k < fewer.len() && fewer[k] == label;
                assert(removed[k] == label);
            }
            if label == last {
                assert(removed[removed.len() - 1] == label);
            }
        }
        let both = |label: Seq<char>| keep_fewer(label) && differs(label);
        filters_agree(labels, keep, both);
        assert(labels.filter(keep_fewer).filter(differs) == labels.filter(both));
    }
}

/// A filter that keeps everything keeps all.
proof fn keep_all<T>(values: Seq<T>)
    ensures
        values.filter(|value: T| true) == values,
    decreases values.len(),
{
    reveal(Seq::filter);
    if values.len() > 0 {
        keep_all(values.drop_last());
        assert(values.drop_last().push(values.last()) =~= values);
    }
}

/// A label without the owner prefix is no claim.
proof fn others_are_no_claims(labels: Seq<Seq<char>>)
    requires
        forall|i: int|
            0 <= i < labels.len() ==> !OWNER_PREFIX@.is_prefix_of(#[trigger] labels[i]),
    ensures
        crate::state::claims_in(labels) == Seq::<ClaimView>::empty(),
    decreases labels.len(),
{
    if labels.len() > 0 {
        let rest = labels.drop_last();
        assert forall|i: int| 0 <= i < rest.len() implies !OWNER_PREFIX@.is_prefix_of(
            #[trigger] rest[i],
        ) by {
            assert(rest[i] == labels[i]);
        }
        others_are_no_claims(rest);
        assert(!OWNER_PREFIX@.is_prefix_of(labels[labels.len() - 1]));
    }
}

/// Once a claim has been written and nobody has interfered, its label is the
/// only owner label, every other label is where it was, and the settle-read
/// finds the claim.
pub proof fn undisturbed_claim_holds(labels: Seq<Seq<char>>, instance: Seq<char>, now: u64)
    requires
        instance.len() > 0,
    ensures
        ({
            let claimed = labels_after_writes(labels, claim_writes(labels, instance, now));
            &&& claimed == labels.filter(
                |label: Seq<char>| !OWNER_PREFIX@.is_prefix_of(label),
            ).push(claim_label(instance, now))
            &&& crate::state::drift::labels_with(claimed, OWNER_PREFIX@) == seq![
                claim_label(instance, now),
            ]
            &&& settled(claimed, instance) == ClaimResultView::Claimed
        }),
{
    let owns = |label: Seq<char>| OWNER_PREFIX@.is_prefix_of(label);
    let free = |label: Seq<char>| !OWNER_PREFIX@.is_prefix_of(label);
    let owned = labels.filter(owns);
    let others = labels.filter(free);
    let label = claim_label(instance, now);
    let writes = claim_writes(labels, instance, now);
    let claimed = labels_after_writes(labels, writes);
    removals_leave_the_rest(labels, owned);
    assert forall|i: int| 0 <= i < labels.len() implies (!owned.contains(labels[i])) == free(
        #[trigger] labels[i],
    ) by {
        if owns(labels[i]) {
            labels.lemma_filter_contains(owns, i);
        }
        if owned.contains(labels[i]) {
            let k = choose|k: int| 0 <= k < owned.len() && owned[k] == labels[i];
            labels.lemma_filter_pred(owns, k);
        }
    }
    filters_agree(labels, |l: Seq<char>| !owned.contains(l), free);
    assert(writes.drop_last() =~= removals(owned));
    assert(label.subrange(0, OWNER_PREFIX@.len() as int) =~= OWNER_PREFIX@);
    assert(!others.contains(label)) by {
        if others.contains(label) {
            let k = choose|k: int| 0 <= k < others.len() && others[k] == label;
            labels.lemma_filter_pred(free, k);
        }
    }
    assert(claimed == others.push(label));
    others.lemma_filter_push(label, owns);
    filter_twice(labels, free, owns);
    assert(others.filter(owns) =~= Seq::<Seq<char>>::empty()) by {
        if others.filter(owns).len() > 0 {
            others.lemma_filter_pred(owns, 0);
            others.lemma_filter_contains_rev(owns, others.filter(owns)[0]);
            let k = choose|k: int| 0 <= k < others.len() && others[k] == others.filter(owns)[0];
            labels.lemma_filter_pred(free, k);
        }
    }
    assert(crate::state::drift::labels_with(claimed, OWNER_PREFIX@) =~= seq![label]);
    assert forall|k: int| 0 <= k < others.len() implies !OWNER_PREFIX@.is_prefix_of(
        #[trigger] others[k],
    ) by {
        labels.lemma_filter_pred(free, k);
    }
    others_are_no_claims(others);
    claim_reads_back(instance, now);
    assert(claimed.drop_last() =~= others);
    assert(crate::state::claims_in(claimed) =~= seq![ClaimView { instance, epoch: now }]);
}

/// The settle-read and the issue's derived state never disagree about which
/// claim is the claim.
pub proof fn settled_claim_is_the_owner(
    issue: crate::vcs::IssueRefView,
    relationships: crate::vcs::IssueRelationshipsView,
    pull_requests: Seq<crate::vcs::PullRequestStatus>,
    instance: Seq<char>,
)
    ensures
        settled(issue.labels, instance) == (match crate::state::derived_state(
            issue,
            relationships,
            pull_requests,
        ).owner {
            None => ClaimResultView::LostToOther { instance: None },
            Some(owner) => if owner.instance == instance {
                ClaimResultView::Claimed
            } else {
                ClaimResultView::LostToOther { instance: Some(owner.instance) }
            },
        }),
{
}

/// Two instances never both hold one set of labels.
pub proof fn one_claim_settles(labels: Seq<Seq<char>>, first: Seq<char>, second: Seq<char>)
    requires
        settled(labels, first) == ClaimResultView::Claimed,
        settled(labels, second) == ClaimResultView::Claimed,
    ensures
        first == second,
{
}

/// Whether a call sets or clears a label as told, and succeeds.
pub open spec fn is_label_write(
    call: VcsCall,
    repo: Seq<char>,
    number: u64,
    write: (Seq<char>, bool),
) -> bool {
    call matches VcsCall::SetLabel { repo: asked, number: wanted, label, present, result } && asked
        == repo && wanted == number && (label, present) == write && result is Ok
}

/// Label writes that all succeed are one call each, in turn.
proof fn label_writes_are_calls(
    calls: Seq<VcsCall>,
    from: int,
    repo: Seq<char>,
    number: u64,
    writes: Seq<(Seq<char>, bool)>,
    end: int,
)
    requires
        0 <= from <= calls.len(),
        label_writes_run(calls, from, repo, number, writes) matches Some((Ok(_), stop)) && stop
            == end,
    ensures
        end == from + writes.len(),
        end <= calls.len(),
        forall|j: int|
            #![trigger writes[j]]
            0 <= j < writes.len() ==> is_label_write(calls[from + j], repo, number, writes[j]),
    decreases writes.len(),
{
    if writes.len() > 0 {
        let rest = writes.drop_last();
        let middle = (label_writes_run(calls, from, repo, number, rest)->0).1;
        label_writes_are_calls(calls, from, repo, number, rest, middle);
        assert forall|j: int|
            #![trigger writes[j]]
            0 <= j < writes.len() implies is_label_write(calls[from + j], repo, number, writes[j]) by {
            if j < rest.len() {
                assert(rest[j] == writes[j]);
            }
        }
    }
}

/// A fake's issue takes every label write in turn.
proof fn fake_takes_label_writes(
    states: Seq<FakeVcs>,
    calls: Seq<VcsCall>,
    from: int,
    repo: Seq<char>,
    number: u64,
    writes: Seq<(Seq<char>, bool)>,
    upto: int,
)
    requires
        crate::vcs::is_trail(states, calls),
        0 <= from <= from + writes.len() <= calls.len(),
        0 <= upto <= writes.len(),
        states[from].issues@.contains_key((repo, number)),
        forall|j: int|
            #![trigger writes[j]]
            0 <= j < writes.len() ==> is_label_write(calls[from + j], repo, number, writes[j]),
    ensures
        states[from + upto].issues@.contains_key((repo, number)),
        states[from + upto].issues@[(repo, number)]@.labels == labels_after_writes(
            states[from].issues@[(repo, number)]@.labels,
            writes.take(upto),
        ),
    decreases upto,
{
    if upto > 0 {
        fake_takes_label_writes(states, calls, from, repo, number, writes, upto - 1);
        assert(writes[upto - 1] == writes[upto - 1]);
        let at = from + (upto - 1);
        assert(FakeVcs::answers(states[at], calls[at], states[at + 1]));
        assert(writes.take(upto).drop_last() =~= writes.take(upto - 1));
    }
}

/// A claim that has been written on a fake is the one that the settle-read then
/// finds, whatever claims the issue carried before.
pub proof fn claim_sticks_on_a_fake(
    before: FakeVcs,
    written: FakeVcs,
    confirmed: FakeVcs,
    repo: Seq<char>,
    number: u64,
    instance: Seq<char>,
    now: u64,
)
    requires
        before.issues@.contains_key((repo, number)),
        crate::vcs::leads(before, written),
        write_claim_run(
            written.history(),
            before.history().len() as int,
            repo,
            number,
            instance,
            now,
        ) == Some((Ok::<(), ClaimErrorView>(()), written.history().len() as int)),
        crate::vcs::leads(written, confirmed),
        confirm_run(
            confirmed.history(),
            written.history().len() as int,
            repo,
            number,
            instance,
        ) is Some,
    ensures
        confirm_run(
            confirmed.history(),
            written.history().len() as int,
            repo,
            number,
            instance,
        ) == Some(Ok::<ClaimResultView, VcsErrorView>(ClaimResultView::Claimed)),
{
    reveal(crate::vcs::leads);
    let key = (repo, number);
    let n = before.history().len() as int;
    let all = written.history();
    let calls = all.skip(n);
    let states = choose|states: Seq<FakeVcs>| #[trigger]
        crate::vcs::is_trail(states, calls) && states.first() == before && states.last()
            == written;
    assert(calls[0] == all[n]);
    assert(FakeVcs::answers(states[0], calls[0], states[1]));
    let labels = before.issues@[key]@.labels;
    let writes = claim_writes(labels, instance, now);
    label_writes_are_calls(all, n + 1, repo, number, writes, all.len() as int);
    assert forall|j: int|
        #![trigger writes[j]]
        0 <= j < writes.len() implies is_label_write(calls[1 + j], repo, number, writes[j]) by {
        assert(all[n + 1 + j] == calls[1 + j]);
    }
    fake_takes_label_writes(states, calls, 1, repo, number, writes, writes.len() as int);
    assert(writes.take(writes.len() as int) =~= writes);
    undisturbed_claim_holds(labels, instance, now);
    let m = all.len() as int;
    let last = confirmed.history().skip(m);
    let after = choose|states: Seq<FakeVcs>| #[trigger]
        crate::vcs::is_trail(states, last) && states.first() == written && states.last()
            == confirmed;
    assert(last[0] == confirmed.history()[m]);
    assert(FakeVcs::answers(after[0], last[0], after[1]));
}

/// An instance id is any row of ASCII letters, digits, `-`, `_`, `.` and `@`,
/// and nothing else: ids may be strung together and cut up.
pub proof fn instance_ids_are_plain_text(a: Seq<char>, b: Seq<char>, c: char)
    ensures
        is_instance_id(seq![c]) <==> (('a' <= c && c <= 'z') || ('A' <= c && c <= 'Z') || ('0' <= c
            && c <= '9') || "-_.@"@.contains(c)),
        !is_instance_id(Seq::empty()),
        a.len() > 0 && b.len() > 0 ==> (is_instance_id(a + b) <==> is_instance_id(a)
            && is_instance_id(b)),
        is_instance_id(a) && a.contains(c) ==> c != ',' && c != '"' && c != '\n' && c != ' ' && c
            != ':',
{
    reveal_strlit("-_.@");
    let plain = "-_.@"@;
    let one = seq![c];
    assert(plain[0] == '-' && plain[1] == '_' && plain[2] == '.' && plain[3] == '@');
    assert(one[0] == c);
    if is_instance_id(a + b) {
        assert forall|i: int| 0 <= i < a.len() implies is_instance_char(#[trigger] a[i]) by {
            assert((a + b)[i] == a[i]);
        }
        assert forall|i: int| 0 <= i < b.len() implies is_instance_char(#[trigger] b[i]) by {
            assert((a + b)[a.len() + i] == b[i]);
        }
    }
}

/// The first claim among an issue's labels decides, whatever stands behind it;
/// labels that are no claims do not count.
pub proof fn the_first_claim_wins(
    before: Seq<Seq<char>>,
    holder: Seq<char>,
    now: u64,
    after: Seq<Seq<char>>,
    instance: Seq<char>,
)
    requires
        holder.len() > 0,
        forall|i: int| 0 <= i < before.len() ==> !"owner:"@.is_prefix_of(#[trigger] before[i]),
    ensures
        settled(
            before + seq!["owner:"@ + holder + "@"@ + crate::numbers::decimal(now as nat)] + after,
            instance,
        ) == if instance == holder {
            ClaimResultView::Claimed
        } else {
            ClaimResultView::LostToOther { instance: Some(holder) }
        },
        settled(before, instance) == (ClaimResultView::LostToOther { instance: None }),
{
    let label = "owner:"@ + holder + "@"@ + crate::numbers::decimal(now as nat);
    let all = before + seq![label] + after;
    others_are_no_claims(before);
    claim_reads_back(holder, now);
    assert(all.take(before.len() as int) =~= before);
    assert(all[before.len() as int] == label);
    first_claim_decides(all, before.len() as int);
}

/// A claim that was written was written for the issue that was asked for: it is
/// read, then each of its owner labels is removed, in the order in which it
/// carries them, and the new claim comes last.
pub proof fn written_claims_replace_the_others(
    calls: Seq<VcsCall>,
    from: int,
    repo: Seq<char>,
    number: u64,
    instance: Seq<char>,
    now: u64,
    end: int,
)
    requires
        write_claim_run(calls, from, repo, number, instance, now) == Some(
            (Ok::<(), ClaimErrorView>(()), end),
        ),
    ensures
        is_instance_id(instance),
        0 <= from,
        from + 2 <= end <= calls.len(),
        calls[from] matches VcsCall::ReadIssue { repo: asked, number: wanted, result } && asked
            == repo && wanted == number && result is Ok,
        forall|j: int|
            from < j < end - 1 ==> ((#[trigger] calls[j]) matches VcsCall::SetLabel {
                repo: asked,
                number: wanted,
                label,
                present,
                result,
            } && asked == repo && wanted == number && "owner:"@.is_prefix_of(label) && !present
                && result is Ok),
        calls[end - 1] matches VcsCall::SetLabel {
            repo: asked,
            number: wanted,
            label,
            present,
            result,
        } && asked == repo && wanted == number && present && result is Ok && label == "owner:"@
            + instance + "@"@ + crate::numbers::decimal(now as nat),
        calls[from] matches VcsCall::ReadIssue { result: Ok(issue), .. } ==> Seq::new(
            (end - from - 2) as nat,
            |j: int| calls[from + 1 + j]->SetLabel_label,
        ) == issue.labels.filter(|label: Seq<char>| "owner:"@.is_prefix_of(label)),
{
    let issue = calls[from]->ReadIssue_result->Ok_0;
    let owned = crate::state::drift::labels_with(issue.labels, OWNER_PREFIX@);
    let writes = claim_writes(issue.labels, instance, now);
    label_writes_are_calls(calls, from + 1, repo, number, writes, end);
    assert(owned == issue.labels.filter(|label: Seq<char>| "owner:"@.is_prefix_of(label)));
    assert(writes[owned.len() as int] == (claim_label(instance, now), true));
    assert forall|j: int| from < j < end - 1 implies ((#[trigger] calls[j]) matches VcsCall::SetLabel {
        repo: asked,
        number: wanted,
        label,
        present,
        result,
    } && asked == repo && wanted == number && "owner:"@.is_prefix_of(label) && !present
        && result is Ok) by {
        let k = j - from - 1;
        assert(writes[k] == (owned[k], false));
        issue.labels.lemma_filter_pred(|label: Seq<char>| OWNER_PREFIX@.is_prefix_of(label), k);
    }
    let removed = Seq::new((end - from - 2) as nat, |j: int| calls[from + 1 + j]->SetLabel_label);
    assert(removed =~= owned) by {
        assert forall|j: int| 0 <= j < owned.len() implies removed[j] == owned[j] by {
            assert(writes[j] == (owned[j], false));
        }
    }
}

/// Label writes that fail end with the write that failed: its error is the
/// result, and every write before it succeeded.
pub proof fn the_failing_write_is_the_last(
    calls: Seq<VcsCall>,
    from: int,
    repo: Seq<char>,
    number: u64,
    writes: Seq<(Seq<char>, bool)>,
    error: VcsErrorView,
    end: int,
)
    requires
        0 <= from <= calls.len(),
        label_writes_run(calls, from, repo, number, writes) == Some(
            (Err::<(), VcsErrorView>(error), end),
        ),
    ensures
        from < end <= calls.len(),
        end - from <= writes.len(),
        calls[end - 1] matches VcsCall::SetLabel { repo: asked, number: wanted, label, present, result }
            && asked == repo && wanted == number && (label, present) == writes[end - 1 - from]
            && result == Err::<(), VcsErrorView>(error),
        forall|j: int|
            #![trigger writes[j]]
            0 <= j < end - 1 - from ==> is_label_write(calls[from + j], repo, number, writes[j]),
    decreases writes.len(),
{
    let rest = writes.drop_last();
    match label_writes_run(calls, from, repo, number, rest) {
        Some((Err(cause), at)) => {
            the_failing_write_is_the_last(calls, from, repo, number, rest, error, end);
            assert(rest[end - 1 - from] == writes[end - 1 - from]);
            assert forall|j: int|
                #![trigger writes[j]]
                0 <= j < end - 1 - from implies is_label_write(
                calls[from + j],
                repo,
                number,
                writes[j],
            ) by {
                assert(rest[j] == writes[j]);
            }
        },
        Some((Ok(_), at)) => {
            label_writes_are_calls(calls, from, repo, number, rest, at);
            assert forall|j: int|
                #![trigger writes[j]]
                0 <= j < end - 1 - from implies is_label_write(
                calls[from + j],
                repo,
                number,
                writes[j],
            ) by {
                assert(rest[j] == writes[j]);
            }
        },
        None => {},
    }
}

/// An id that cannot be part of a label is refused before any call; where the
/// issue cannot be read, nothing is written.
pub proof fn nothing_is_written_for_a_refused_claim(
    calls: Seq<VcsCall>,
    from: int,
    repo: Seq<char>,
    number: u64,
    instance: Seq<char>,
    now: u64,
    error: VcsErrorView,
)
    ensures
        !is_instance_id(instance) ==> (write_claim_run(
            calls,
            from,
            repo,
            number,
            instance,
            now,
        ) matches Some((Err(ClaimErrorView::InvalidInstanceId { instance_id, .. }), end))
            && instance_id == instance && end == from),
        is_instance_id(instance) && 0 <= from < calls.len() && calls[from] == (VcsCall::ReadIssue {
            repo,
            number,
            result: Err(error),
        }) ==> write_claim_run(calls, from, repo, number, instance, now) == Some(
            (Err::<(), ClaimErrorView>(ClaimErrorView::Vcs(error)), from + 1),
        ),
{
}

/// A claim is confirmed by one read of the issue: the labels that come back
/// decide, and a read that fails decides nothing.
pub proof fn one_read_confirms(
    calls: Seq<VcsCall>,
    from: int,
    repo: Seq<char>,
    number: u64,
    instance: Seq<char>,
    issue: crate::vcs::IssueRefView,
    error: VcsErrorView,
)
    requires
        0 <= from < calls.len(),
    ensures
        calls[from] == (VcsCall::ReadIssue { repo, number, result: Ok(issue) }) ==> confirm_run(
            calls,
            from,
            repo,
            number,
            instance,
        ) == Some(Ok::<ClaimResultView, VcsErrorView>(settled(issue.labels, instance))),
        calls[from] == (VcsCall::ReadIssue { repo, number, result: Err(error) }) ==> confirm_run(
            calls,
            from,
            repo,
            number,
            instance,
        ) == Some(Err::<ClaimResultView, VcsErrorView>(error)),
        confirm_run(calls, from, repo, number, instance) is Some ==> (calls[from] matches VcsCall::ReadIssue {
            repo: asked,
            number: wanted,
            ..
        } && asked == repo && wanted == number),
{
}

} // verus!
