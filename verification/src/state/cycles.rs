//! Cycles among dependency edges.
//!
//! Each issue's `blocked_by` list is its set of outgoing edges. A cycle is a
//! row of distinct issues in which each is blocked by the next and the last is
//! blocked by the first; its canonical form starts at its lowest number.

use vstd::prelude::*;

use crate::vcs::IssueRelationships;

verus! {

/// Each issue with what it is blocked by.
pub open spec fn edges(relationships: Seq<(u64, IssueRelationships)>) -> Seq<(u64, Seq<u64>)> {
    relationships.map_values(|entry: (u64, IssueRelationships)| (entry.0, entry.1.blocked_by@))
}

/// The issues that `issue` is blocked by: the edges of its last entry.
pub open spec fn edges_of(relationships: Seq<(u64, Seq<u64>)>, issue: u64) -> Seq<u64>
    decreases relationships.len(),
{
    if relationships.len() == 0 {
        Seq::empty()
    } else if relationships.last().0 == issue {
        relationships.last().1
    } else {
        edges_of(relationships.drop_last(), issue)
    }
}

/// Whether `issue` is blocked by `other`.
pub open spec fn is_blocked_by(
    relationships: Seq<(u64, Seq<u64>)>,
    issue: u64,
    other: u64,
) -> bool {
    edges_of(relationships, issue).contains(other)
}

/// Whether `row` is a row of distinct issues, each blocked by the next.
pub open spec fn is_chain(relationships: Seq<(u64, Seq<u64>)>, row: Seq<u64>) -> bool {
    &&& row.len() > 0
    &&& row.no_duplicates()
    &&& forall|i: int|
        0 <= i < row.len() - 1 ==> is_blocked_by(relationships, #[trigger] row[i], row[i + 1])
}

/// Whether `row` is a dependency cycle.
pub open spec fn is_cycle(relationships: Seq<(u64, Seq<u64>)>, row: Seq<u64>) -> bool {
    &&& is_chain(relationships, row)
    &&& is_blocked_by(relationships, row.last(), row[0])
}

/// Whether `row` starts at its lowest number.
pub open spec fn is_canonical(row: Seq<u64>) -> bool {
    forall|i: int| 0 <= i < row.len() ==> row[0] <= #[trigger] row[i]
}

/// `row` read from position `at` on, and then from its start.
pub open spec fn rotation(row: Seq<u64>, at: int) -> Seq<u64> {
    row.skip(at) + row.take(at)
}

/// Every number that occurs in an edge list.
spec fn mentioned(relationships: Seq<(u64, Seq<u64>)>) -> Set<u64>
    decreases relationships.len(),
{
    if relationships.len() == 0 {
        Set::empty()
    } else {
        mentioned(relationships.drop_last()).union(
            relationships.last().1.to_set(),
        )
    }
}

proof fn mentioned_is_finite(relationships: Seq<(u64, Seq<u64>)>)
    ensures
        mentioned(relationships).finite(),
    decreases relationships.len(),
{
    if relationships.len() > 0 {
        mentioned_is_finite(relationships.drop_last());
        vstd::seq_lib::seq_to_set_is_finite(relationships.last().1);
    }
}

proof fn edges_are_mentioned(
    relationships: Seq<(u64, Seq<u64>)>,
    issue: u64,
    other: u64,
)
    requires
        is_blocked_by(relationships, issue, other),
    ensures
        mentioned(relationships).contains(other),
    decreases relationships.len(),
{
    if relationships.len() > 0 {
        if relationships.last().0 == issue {
        } else {
            edges_are_mentioned(relationships.drop_last(), issue, other);
        }
    }
}

/// A chain never has more members than there are numbers to draw them from.
proof fn chain_is_short(relationships: Seq<(u64, Seq<u64>)>, row: Seq<u64>)
    requires
        is_chain(relationships, row),
    ensures
        row.len() <= mentioned(relationships).insert(row[0]).len(),
{
    let pool = mentioned(relationships).insert(row[0]);
    mentioned_is_finite(relationships);
    assert forall|x: u64| row.to_set().contains(x) implies pool.contains(x) by {
        let i = choose|i: int| 0 <= i < row.len() && row[i] == x;
        if i > 0 {
            assert(is_blocked_by(relationships, row[i - 1], row[i - 1 + 1]));
            edges_are_mentioned(relationships, row[i - 1], row[i]);
        }
    }
    row.unique_seq_to_set();
    vstd::set_lib::lemma_len_subset(row.to_set(), pool);
}

/// Whether `number` occurs in `row`.
fn holds(row: &Vec<u64>, number: u64) -> (found: bool)
    ensures
        found == row@.contains(number),
{
    let mut i: usize = 0;
    while i < row.len()
        invariant
            i <= row@.len(),
            forall|k: int| 0 <= k < i ==> row@[k] != number,
        decreases row@.len() - i,
    {
        if row[i] == number {
            return true;
        }
        i += 1;
    }
    false
}

/// The edge list of `issue`, or `None` where it has no entry.
fn lookup(relationships: &[(u64, IssueRelationships)], issue: u64) -> (blocked_by: Option<&Vec<u64>>)
    ensures
        match blocked_by {
            Some(blocked_by) => blocked_by@ == edges_of(edges(relationships@), issue),
            None => edges_of(edges(relationships@), issue) == Seq::<u64>::empty(),
        },
{
    let mut i: usize = relationships.len();
    assert(edges(relationships@).take(i as int) =~= edges(relationships@));
    while i > 0
        invariant
            i <= edges(relationships@).len(),
            edges_of(edges(relationships@), issue) == edges_of(edges(relationships@).take(i as int), issue),
        decreases i,
    {
        i -= 1;
        assert(edges(relationships@).take(i + 1).drop_last() =~= edges(relationships@).take(
            i as int,
        ));
        assert(edges(relationships@)[i as int] == (
            relationships@[i as int].0,
            relationships@[i as int].1.blocked_by@,
        ));
        if relationships[i].0 == issue {
            return Some(&relationships[i].1.blocked_by);
        }
    }
    None
}

/// Whether `cycle` is a cycle that continues `path`.
spec fn completes(
    relationships: Seq<(u64, Seq<u64>)>,
    path: Seq<u64>,
    cycle: Seq<u64>,
) -> bool {
    is_cycle(relationships, cycle) && path.is_prefix_of(cycle)
}

/// Adds to `found` every cycle that continues `path`, by a depth-first walk
/// that closes a cycle only where it leads back to the start of `path`.
fn walk(
    relationships: &[(u64, IssueRelationships)],
    path: &mut Vec<u64>,
    found: &mut Vec<Vec<u64>>,
)
    requires
        is_chain(edges(relationships@), old(path)@),
    ensures
        final(path)@ == old(path)@,
        old(found)@.len() <= final(found)@.len(),
        forall|k: int| 0 <= k < old(found)@.len() ==> final(found)@[k] == old(found)@[k],
        forall|k: int|
            old(found)@.len() <= k < final(found)@.len() ==> completes(
                edges(relationships@),
                old(path)@,
                #[trigger] final(found)@[k]@,
            ),
        forall|cycle: Seq<u64>| #[trigger]
            completes(edges(relationships@), old(path)@, cycle) ==> exists|k: int|
                old(found)@.len() <= k < final(found)@.len() && #[trigger] final(found)@[k]@
                    == cycle,
    decreases mentioned(edges(relationships@)).insert(old(path)@[0]).len() - old(path)@.len(),
{
    let ghost base = path@;
    let ghost before = found@;
    let start: u64 = path[0];
    let current: u64 = path[path.len() - 1];
    proof {
        chain_is_short(edges(relationships@), base);
    }
    let neighbors: &Vec<u64> = match lookup(relationships, current) {
        Some(edges) => edges,
        None => {
            proof {
                assert forall|cycle: Seq<u64>| #[trigger]
                    completes(edges(relationships@), base, cycle) implies false by {
                    let n = base.len() as int;
                    assert(cycle[n - 1] == base[n - 1]);
                    if cycle.len() > n {
                        assert(is_blocked_by(edges(relationships@), cycle[n - 1], cycle[n - 1 + 1]));
                    }
                }
            }
            return ;
        },
    };
    let mut i: usize = 0;
    while i < neighbors.len()
        invariant
            i <= neighbors@.len(),
            path@ == base,
            base == old(path)@,
            is_chain(edges(relationships@), base),
            start == base[0],
            current == base.last(),
            neighbors@ == edges_of(edges(relationships@), current),
            base.len() <= mentioned(edges(relationships@)).insert(base[0]).len(),
            before.len() <= found@.len(),
            forall|k: int| 0 <= k < before.len() ==> found@[k] == before[k],
            forall|k: int|
                before.len() <= k < found@.len() ==> completes(
                    edges(relationships@),
                    base,
                    #[trigger] found@[k]@,
                ),
            forall|cycle: Seq<u64>, j: int|
                #![trigger completes(edges(relationships@), base, cycle), neighbors@[j]]
                0 <= j < i && completes(edges(relationships@), base, cycle) && (if cycle.len()
                    == base.len() {
                    neighbors@[j] == start
                } else {
                    neighbors@[j] == cycle[base.len() as int]
                }) ==> exists|k: int|
                    before.len() <= k < found@.len() && #[trigger] found@[k]@ == cycle,
        decreases neighbors@.len() - i,
    {
        let next: u64 = neighbors[i];
        let ghost already = found@;
        assert(is_blocked_by(edges(relationships@), current, next)) by {
            assert(neighbors@[i as int] == next);
        }
        if next == start {
            let closed: Vec<u64> = path.clone();
            proof {
                assert(closed@ =~= base);
                assert(base.is_prefix_of(base)) by {
                    assert(base.subrange(0, base.len() as int) =~= base);
                }
                assert(completes(edges(relationships@), base, closed@));
            }
            found.push(closed);
            proof {
                assert(found@[already.len() as int]@ == base);
                assert forall|cycle: Seq<u64>|
                    completes(edges(relationships@), base, cycle) && (if cycle.len() == base.len() {
                        next == start
                    } else {
                        next == cycle[base.len() as int]
                    }) implies exists|k: int|
                    before.len() <= k < found@.len() && #[trigger] found@[k]@ == cycle by {
                    if cycle.len() == base.len() {
                        assert(cycle =~= base);
                        assert(found@[already.len() as int]@ == cycle);
                    } else {
                        assert(cycle[0] == base[0]);
                        assert(cycle[base.len() as int] == cycle[0]);
                    }
                }
            }
        } else if !holds(path, next) {
            path.push(next);
            let ghost longer = path@;
            proof {
                assert(longer =~= base.push(next));
                assert forall|k: int| 0 <= k < longer.len() - 1 implies is_blocked_by(
                    edges(relationships@),
                    #[trigger] longer[k],
                    longer[k + 1],
                ) by {
                    if k < base.len() - 1 {
                        assert(is_blocked_by(edges(relationships@), base[k], base[k + 1]));
                    }
                }
                assert(longer.no_duplicates()) by {
                    assert forall|a: int, b: int|
                        0 <= a < longer.len() && 0 <= b < longer.len() && a != b implies longer[a]
                        != longer[b] by {
                        if a < base.len() && b < base.len() {
                            assert(base[a] != base[b]);
                        } else if a < base.len() {
                            assert(base.contains(base[a]));
                        } else {
                            assert(base.contains(base[b]));
                        }
                    }
                }
                chain_is_short(edges(relationships@), longer);
            }
            walk(relationships, path, found);
            path.pop();
            proof {
                assert(path@ =~= base);
                assert forall|k: int| already.len() <= k < found@.len() implies completes(
                    edges(relationships@),
                    base,
                    #[trigger] found@[k]@,
                ) by {
                    let cycle = found@[k]@;
                    assert(completes(edges(relationships@), longer, cycle));
                    assert(cycle.subrange(0, base.len() as int) =~= base) by {
                        assert forall|m: int| 0 <= m < base.len() implies cycle[m] == base[m] by {
                            assert(cycle.subrange(0, longer.len() as int)[m] == longer[m]);
                        }
                    }
                }
                assert forall|k: int| before.len() <= k < found@.len() implies completes(
                    edges(relationships@),
                    base,
                    #[trigger] found@[k]@,
                ) by {
                    if k < already.len() {
                        assert(found@[k] == already[k]);
                    }
                }
                assert forall|cycle: Seq<u64>|
                    completes(edges(relationships@), base, cycle) && (if cycle.len() == base.len() {
                        next == start
                    } else {
                        next == cycle[base.len() as int]
                    }) implies exists|k: int|
                    before.len() <= k < found@.len() && #[trigger] found@[k]@ == cycle by {
                    assert(cycle.subrange(0, longer.len() as int) =~= longer) by {
                        assert forall|m: int| 0 <= m < base.len() implies cycle[m] == base[m] by {
                            assert(cycle.subrange(0, base.len() as int)[m] == base[m]);
                        }
                    }
                    assert(completes(edges(relationships@), longer, cycle));
                }
            }
        } else {
            proof {
                assert forall|cycle: Seq<u64>|
                    completes(edges(relationships@), base, cycle) && (if cycle.len() == base.len() {
                        next == start
                    } else {
                        next == cycle[base.len() as int]
                    }) implies exists|k: int|
                    before.len() <= k < found@.len() && #[trigger] found@[k]@ == cycle by {
                    let m = choose|m: int| 0 <= m < base.len() && base[m] == next;
                    assert(cycle.subrange(0, base.len() as int)[m] == base[m]);
                    assert(cycle[m] == cycle[base.len() as int]);
                }
            }
        }
        proof {
            assert forall|cycle: Seq<u64>, j: int|
                #![trigger completes(edges(relationships@), base, cycle), neighbors@[j]]
                0 <= j < i + 1 && completes(edges(relationships@), base, cycle) && (if cycle.len()
                    == base.len() {
                    neighbors@[j] == start
                } else {
                    neighbors@[j] == cycle[base.len() as int]
                }) implies exists|k: int|
                before.len() <= k < found@.len() && #[trigger] found@[k]@ == cycle by {
                if j < i {
                    let k = choose|k: int|
                        before.len() <= k < already.len() && #[trigger] already[k]@ == cycle;
                    assert(found@[k] == already[k]);
                }
            }
        }
        i += 1;
    }
    proof {
        assert forall|cycle: Seq<u64>| #[trigger]
            completes(edges(relationships@), base, cycle) implies exists|k: int|
            before.len() <= k < found@.len() && #[trigger] found@[k]@ == cycle by {
            let n = base.len() as int;
            assert(cycle.subrange(0, n)[n - 1] == base[n - 1]);
            assert(cycle.subrange(0, n)[0] == base[0]);
            if cycle.len() == n {
                let j = choose|j: int| 0 <= j < neighbors@.len() && neighbors@[j] == start;
                assert(neighbors@[j] == start);
            } else {
                assert(is_blocked_by(edges(relationships@), cycle[n - 1], cycle[n - 1 + 1]));
                let j = choose|j: int| 0 <= j < neighbors@.len() && neighbors@[j] == cycle[n];
                assert(neighbors@[j] == cycle[n]);
            }
        }
    }
}

/// Every cycle that starts at `start`.
fn cycles_from(start: u64, relationships: &[(u64, IssueRelationships)]) -> (found: Vec<Vec<u64>>)
    ensures
        forall|k: int|
            0 <= k < found@.len() ==> is_cycle(edges(relationships@), #[trigger] found@[k]@)
                && found@[k]@[0] == start,
        forall|cycle: Seq<u64>|
            #[trigger] is_cycle(edges(relationships@), cycle) && cycle[0] == start ==> exists|k: int|
                0 <= k < found@.len() && #[trigger] found@[k]@ == cycle,
{
    let mut found: Vec<Vec<u64>> = Vec::new();
    let mut path: Vec<u64> = Vec::new();
    path.push(start);
    assert(path@ =~= seq![start]);
    walk(relationships, &mut path, &mut found);
    proof {
        assert forall|k: int| 0 <= k < found@.len() implies is_cycle(
            edges(relationships@),
            #[trigger] found@[k]@,
        ) && found@[k]@[0] == start by {
            let cycle = found@[k]@;
            assert(completes(edges(relationships@), seq![start], cycle));
            assert(cycle.subrange(0, 1)[0] == start);
        }
        assert forall|cycle: Seq<u64>| #[trigger]
            is_cycle(edges(relationships@), cycle) && cycle[0] == start implies exists|k: int|
            0 <= k < found@.len() && #[trigger] found@[k]@ == cycle by {
            assert(cycle.subrange(0, 1) =~= seq![start]);
            assert(completes(edges(relationships@), seq![start], cycle));
        }
    }
    found
}

/// The first position of the lowest number in `row`.
pub open spec fn is_first_lowest(row: Seq<u64>, at: int) -> bool {
    &&& 0 <= at < row.len()
    &&& forall|i: int| 0 <= i < row.len() ==> row[at] <= #[trigger] row[i]
    &&& forall|i: int| 0 <= i < at ==> row[at] < #[trigger] row[i]
}

/// `cycle` rotated so that it starts at its lowest number.
fn canonicalize(cycle: &Vec<u64>) -> (rotated: Vec<u64>)
    ensures
        cycle@.len() == 0 ==> rotated@.len() == 0,
        cycle@.len() > 0 ==> exists|at: int|
            #[trigger] is_first_lowest(cycle@, at) && rotated@ == rotation(cycle@, at),
{
    let mut rotated: Vec<u64> = Vec::new();
    if cycle.len() == 0 {
        return rotated;
    }
    let mut lowest: usize = 0;
    let mut i: usize = 1;
    while i < cycle.len()
        invariant
            1 <= i <= cycle@.len(),
            lowest < i,
            forall|k: int| 0 <= k < i ==> cycle@[lowest as int] <= #[trigger] cycle@[k],
            forall|k: int| 0 <= k < lowest ==> cycle@[lowest as int] < #[trigger] cycle@[k],
        decreases cycle@.len() - i,
    {
        if cycle[i] < cycle[lowest] {
            lowest = i;
        }
        i += 1;
    }
    assert(is_first_lowest(cycle@, lowest as int));
    let mut j: usize = lowest;
    while j < cycle.len()
        invariant
            lowest <= j <= cycle@.len(),
            rotated@ == cycle@.subrange(lowest as int, j as int),
        decreases cycle@.len() - j,
    {
        rotated.push(cycle[j]);
        assert(rotated@ =~= cycle@.subrange(lowest as int, j + 1));
        j += 1;
    }
    let mut k: usize = 0;
    while k < lowest
        invariant
            k <= lowest < cycle@.len(),
            rotated@ == cycle@.skip(lowest as int) + cycle@.take(k as int),
        decreases lowest - k,
    {
        rotated.push(cycle[k]);
        assert(rotated@ =~= cycle@.skip(lowest as int) + cycle@.take(k + 1));
        k += 1;
    }
    rotated
}

/// A rotation of a cycle is a cycle, and one that starts at the lowest number
/// is canonical.
proof fn rotation_is_cycle(
    relationships: Seq<(u64, Seq<u64>)>,
    row: Seq<u64>,
    at: int,
)
    requires
        is_cycle(relationships, row),
        is_first_lowest(row, at),
    ensures
        is_cycle(relationships, rotation(row, at)),
        is_canonical(rotation(row, at)),
{
    let turned = rotation(row, at);
    let n = row.len() as int;
    assert forall|i: int| 0 <= i < n implies turned[i] == row[if i + at < n {
        i + at
    } else {
        i + at - n
    }] by {}
    assert(turned.no_duplicates());
    assert forall|i: int| 0 <= i < n - 1 implies is_blocked_by(
        relationships,
        #[trigger] turned[i],
        turned[i + 1],
    ) by {
        if i + at < n - 1 {
            assert(is_blocked_by(relationships, row[i + at], row[i + at + 1]));
        } else if i + at >= n {
            assert(is_blocked_by(relationships, row[i + at - n], row[i + at - n + 1]));
        } else {
            assert(turned[i] == row.last());
            assert(turned[i + 1] == row[0]);
        }
    }
    if at == 0 {
        assert(turned =~= row);
    } else {
        assert(turned.last() == row[at - 1]);
        assert(is_blocked_by(relationships, row[at - 1], row[at - 1 + 1]));
    }
}

/// Whether two rows hold the same numbers in the same order.
fn same_row(a: &Vec<u64>, b: &Vec<u64>) -> (same: bool)
    ensures
        same == (a@ == b@),
{
    if a.len() != b.len() {
        return false;
    }
    let mut i: usize = 0;
    while i < a.len()
        invariant
            a@.len() == b@.len(),
            i <= a@.len(),
            forall|k: int| 0 <= k < i ==> a@[k] == b@[k],
        decreases a@.len() - i,
    {
        if a[i] != b[i] {
            return false;
        }
        i += 1;
    }
    assert(a@ =~= b@);
    true
}

/// Whether one of `rows` holds the numbers of `row`.
fn holds_row(rows: &Vec<Vec<u64>>, row: &Vec<u64>) -> (found: bool)
    ensures
        found == exists|k: int| 0 <= k < rows@.len() && #[trigger] rows@[k]@ == row@,
{
    let mut i: usize = 0;
    while i < rows.len()
        invariant
            i <= rows@.len(),
            forall|k: int| 0 <= k < i ==> #[trigger] rows@[k]@ != row@,
        decreases rows@.len() - i,
    {
        if same_row(&rows[i], row) {
            return true;
        }
        i += 1;
    }
    false
}

/// Whether `rows` are canonical cycles, no two of them alike.
pub open spec fn are_distinct_cycles(
    relationships: Seq<(u64, Seq<u64>)>,
    rows: Seq<Seq<u64>>,
) -> bool {
    &&& forall|k: int|
        0 <= k < rows.len() ==> is_cycle(relationships, #[trigger] rows[k]) && is_canonical(rows[k])
    &&& rows.no_duplicates()
}

/// The numbers of each row.
pub open spec fn rows_of(rows: Seq<Vec<u64>>) -> Seq<Seq<u64>> {
    rows.map_values(|row: Vec<u64>| row@)
}

/// Every dependency cycle in `relationships`, each once, in canonical form.
pub fn canonical_cycles(relationships: &[(u64, IssueRelationships)]) -> (cycles: Vec<Vec<u64>>)
    ensures
        are_distinct_cycles(edges(relationships@), rows_of(cycles@)),
        forall|row: Seq<u64>|
            #[trigger] is_cycle(edges(relationships@), row) && is_canonical(row) ==> rows_of(
                cycles@,
            ).contains(row),
{
    let mut cycles: Vec<Vec<u64>> = Vec::new();
    let mut i: usize = 0;
    while i < relationships.len()
        invariant
            i <= edges(relationships@).len(),
            are_distinct_cycles(edges(relationships@), rows_of(cycles@)),
            forall|row: Seq<u64>, j: int|
                #![trigger is_cycle(edges(relationships@), row), edges(relationships@)[j]]
                0 <= j < i && is_cycle(edges(relationships@), row) && is_canonical(row) && row[0]
                    == edges(relationships@)[j].0 ==> rows_of(cycles@).contains(row),
        decreases edges(relationships@).len() - i,
    {
        let start: u64 = relationships[i].0;
        assert(edges(relationships@)[i as int].0 == start);
        let found = cycles_from(start, relationships);
        let ghost earlier = cycles@;
        let mut k: usize = 0;
        while k < found.len()
            invariant
                k <= found@.len(),
                forall|m: int|
                    0 <= m < found@.len() ==> is_cycle(edges(relationships@), #[trigger] found@[m]@),
                are_distinct_cycles(edges(relationships@), rows_of(cycles@)),
                earlier.len() <= cycles@.len(),
                forall|m: int| 0 <= m < earlier.len() ==> cycles@[m] == earlier[m],
                forall|m: int|
                    0 <= m < k && is_canonical(#[trigger] found@[m]@) ==> rows_of(
                        cycles@,
                    ).contains(found@[m]@),
            decreases found@.len() - k,
        {
            let canonical = canonicalize(&found[k]);
            let ghost previous = cycles@;
            proof {
                let row = found@[k as int]@;
                let at = choose|at: int|
                    #[trigger] is_first_lowest(row, at) && canonical@ == rotation(row, at);
                rotation_is_cycle(edges(relationships@), row, at);
                if is_canonical(row) {
                    if at > 0 {
                        assert(row[0] <= row[at]);
                    }
                    assert(rotation(row, 0) =~= row);
                }
            }
            if !holds_row(&cycles, &canonical) {
                let ghost row = canonical@;
                cycles.push(canonical);
                proof {
                    assert(rows_of(cycles@) =~= rows_of(previous).push(row));
                    assert forall|a: int, b: int|
                        0 <= a < rows_of(cycles@).len() && 0 <= b < rows_of(cycles@).len() && a
                            != b implies rows_of(cycles@)[a] != rows_of(cycles@)[b] by {
                        if a < previous.len() && b < previous.len() {
                            assert(rows_of(previous)[a] != rows_of(previous)[b]);
                        } else if a < previous.len() {
                            assert(previous[a]@ != row);
                        } else {
                            assert(previous[b]@ != row);
                        }
                    }
                    assert(rows_of(cycles@)[previous.len() as int] == row);
                    assert forall|m: int|
                        0 <= m < k + 1 && is_canonical(#[trigger] found@[m]@) implies rows_of(
                        cycles@,
                    ).contains(found@[m]@) by {
                        if m < k {
                            let q = choose|q: int|
                                0 <= q < previous.len() && rows_of(previous)[q] == found@[m]@;
                            assert(rows_of(cycles@)[q] == found@[m]@);
                        }
                    }
                }
            } else {
                proof {
                    let q = choose|q: int| 0 <= q < cycles@.len() && #[trigger] cycles@[q]@
                        == canonical@;
                    assert(rows_of(cycles@)[q] == canonical@);
                }
            }
            k += 1;
        }
        proof {
            assert forall|row: Seq<u64>, j: int|
                #![trigger is_cycle(edges(relationships@), row), edges(relationships@)[j]]
                0 <= j < i + 1 && is_cycle(edges(relationships@), row) && is_canonical(row) && row[0]
                    == edges(relationships@)[j].0 implies rows_of(cycles@).contains(row) by {
                if j < i {
                    let q = choose|q: int| 0 <= q < earlier.len() && rows_of(earlier)[q] == row;
                    assert(rows_of(cycles@)[q] == row);
                } else {
                    let m = choose|m: int| 0 <= m < found@.len() && #[trigger] found@[m]@ == row;
                    assert(is_canonical(found@[m]@));
                }
            }
        }
        i += 1;
    }
    proof {
        assert forall|row: Seq<u64>| #[trigger]
            is_cycle(edges(relationships@), row) && is_canonical(row) implies rows_of(
            cycles@,
        ).contains(row) by {
            if row.len() > 1 {
                assert(is_blocked_by(edges(relationships@), row[0], row[0int + 1]));
            }
            let j = issue_has_entry(edges(relationships@), row[0]);
            assert(edges(relationships@)[j].0 == row[0]);
        }
    }
    cycles
}

/// An issue that is blocked by anything has an entry.
proof fn issue_has_entry(
    relationships: Seq<(u64, Seq<u64>)>,
    issue: u64,
) -> (at: int)
    requires
        edges_of(relationships, issue).len() > 0,
    ensures
        0 <= at < relationships.len(),
        relationships[at].0 == issue,
    decreases relationships.len(),
{
    if relationships.last().0 == issue {
        relationships.len() - 1
    } else {
        issue_has_entry(relationships.drop_last(), issue)
    }
}

/// An issue is blocked by what its last entry says, and by nothing where it has
/// none.
pub proof fn the_last_entry_blocks(
    relationships: Seq<(u64, Seq<u64>)>,
    issue: u64,
    blocked_by: Seq<u64>,
    other: u64,
)
    ensures
        edges_of(relationships.push((issue, blocked_by)), issue) == blocked_by,
        other != issue ==> edges_of(relationships.push((issue, blocked_by)), other) == edges_of(
            relationships,
            other,
        ),
        edges_of(Seq::empty(), issue).len() == 0,
{
    assert(relationships.push((issue, blocked_by)).drop_last() =~= relationships);
}

/// The edges of an issue are what it is blocked by, not what it blocks.
pub proof fn edges_point_at_what_blocks(relationships: Seq<(u64, IssueRelationships)>, i: int)
    requires
        0 <= i < relationships.len(),
    ensures
        edges(relationships).len() == relationships.len(),
        edges(relationships)[i].0 == relationships[i].0,
        edges(relationships)[i].1 == relationships[i].1.blocked_by@,
{
}

/// A cycle is a row of different issues each of which waits for the next, the
/// last of them for the first.
pub proof fn cycles_close(relationships: Seq<(u64, Seq<u64>)>, row: Seq<u64>)
    ensures
        is_cycle(relationships, row) <==> row.len() > 0 && row.no_duplicates() && forall|i: int|
            0 <= i < row.len() ==> edges_of(relationships, #[trigger] row[i]).contains(
                row[if i + 1 < row.len() {
                    i + 1
                } else {
                    0
                }],
            ),
        is_cycle(relationships, row) && is_canonical(row) ==> forall|i: int|
            0 < i < row.len() ==> row[0] < #[trigger] row[i],
{
    let n = row.len() as int;
    if is_cycle(relationships, row) {
        assert forall|i: int| 0 <= i < n implies edges_of(
            relationships,
            #[trigger] row[i],
        ).contains(
            row[if i + 1 < row.len() {
                i + 1
            } else {
                0
            }],
        ) by {
            if i + 1 < n {
                assert(is_blocked_by(relationships, row[i], row[i + 1]));
            }
        }
        if is_canonical(row) {
            assert forall|i: int| 0 < i < n implies row[0] < #[trigger] row[i] by {
                assert(row[0] != row[i]);
            }
        }
    }
    if n > 0 && row.no_duplicates() && forall|i: int|
        0 <= i < row.len() ==> edges_of(relationships, #[trigger] row[i]).contains(
            row[if i + 1 < row.len() {
                i + 1
            } else {
                0
            }],
        ) {
        assert(edges_of(relationships, row[n - 1]).contains(row[0]));
        assert forall|i: int| 0 <= i < row.len() - 1 implies is_blocked_by(
            relationships,
            #[trigger] row[i],
            row[i + 1],
        ) by {}
    }
}

} // verus!
