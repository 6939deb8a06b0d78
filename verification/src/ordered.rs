//! Sequences in order.
//!
//! A stable order of a sequence has its members sorted by a key, those with
//! equal keys standing as they stood before.

use vstd::prelude::*;

verus! {

/// Whether `a` comes before `b` or is equal to it, part by part.
pub open spec fn key_le(a: (int, int, int), b: (int, int, int)) -> bool {
    ||| a.0 < b.0
    ||| a.0 == b.0 && a.1 < b.1
    ||| a.0 == b.0 && a.1 == b.1 && a.2 <= b.2
}

/// Whether `values` are sorted by `key`.
pub open spec fn is_ordered<T>(values: Seq<T>, key: spec_fn(T) -> (int, int, int)) -> bool {
    forall|i: int, j: int|
        0 <= i < j < values.len() ==> key_le(key(#[trigger] values[i]), key(#[trigger] values[j]))
}

/// The members of `values` with the key `wanted`, in order.
pub open spec fn with_key<T>(
    values: Seq<T>,
    key: spec_fn(T) -> (int, int, int),
    wanted: (int, int, int),
) -> Seq<T> {
    values.filter(|value: T| key(value) == wanted)
}

/// Whether `sorted` is `values` sorted by `key`, members with equal keys
/// standing in the order in which they stood before.
pub open spec fn is_stable_order<T>(
    values: Seq<T>,
    sorted: Seq<T>,
    key: spec_fn(T) -> (int, int, int),
) -> bool {
    &&& is_ordered(sorted, key)
    &&& forall|wanted: (int, int, int)| #[trigger]
        with_key(sorted, key, wanted) == with_key(values, key, wanted)
}

/// Putting a value behind everything up to its key, and before everything
/// beyond it, keeps a stable order.
pub proof fn insert_keeps_order<T>(
    values: Seq<T>,
    sorted: Seq<T>,
    key: spec_fn(T) -> (int, int, int),
    at: int,
    value: T,
)
    requires
        is_stable_order(values, sorted, key),
        0 <= at <= sorted.len(),
        forall|i: int| 0 <= i < at ==> key_le(key(#[trigger] sorted[i]), key(value)),
        forall|i: int|
            at <= i < sorted.len() ==> !key_le(key(#[trigger] sorted[i]), key(value)),
    ensures
        is_stable_order(values.push(value), sorted.insert(at, value), key),
{
    let longer = sorted.insert(at, value);
    let front = sorted.take(at);
    let back = sorted.skip(at);
    assert(sorted =~= front + back);
    assert(longer =~= front.push(value) + back);
    assert forall|i: int, j: int| 0 <= i < j < longer.len() implies key_le(
        key(#[trigger] longer[i]),
        key(#[trigger] longer[j]),
    ) by {
        let before_i = if i < at {
            i
        } else {
            i - 1
        };
        let before_j = if j < at {
            j
        } else {
            j - 1
        };
        if i == at {
            assert(longer[j] == sorted[before_j]);
        } else if j == at {
            assert(longer[i] == sorted[before_i]);
        } else {
            assert(longer[i] == sorted[before_i]);
            assert(longer[j] == sorted[before_j]);
        }
    }
    assert forall|wanted: (int, int, int)| #[trigger]
        with_key(longer, key, wanted) == with_key(values.push(value), key, wanted) by {
        let keep = |v: T| key(v) == wanted;
        Seq::filter_distributes_over_add(front.push(value), back, keep);
        Seq::filter_distributes_over_add(front, back, keep);
        front.lemma_filter_push(value, keep);
        values.lemma_filter_push(value, keep);
        assert(with_key(sorted, key, wanted) == with_key(values, key, wanted));
        if key(value) == wanted {
            assert forall|i: int| 0 <= i < back.len() implies !keep(#[trigger] back[i]) by {
                assert(back[i] == sorted[at + i]);
            }
            assert(back.filter(keep).len() == 0) by {
                if back.filter(keep).len() > 0 {
                    let found = back.filter(keep)[0];
                    back.lemma_filter_pred(keep, 0);
                    back.lemma_filter_contains_rev(keep, found);
                }
            }
            assert(back.filter(keep) =~= Seq::<T>::empty());
            assert(front.filter(keep).push(value) + back.filter(keep) =~= (front.filter(keep)
                + back.filter(keep)).push(value));
        }
    }
}

/// How often a value occurs among the members with its key is how often it
/// occurs at all.
proof fn count_with_key<T>(values: Seq<T>, key: spec_fn(T) -> (int, int, int), value: T)
    ensures
        with_key(values, key, key(value)).to_multiset().count(value)
            == values.to_multiset().count(value),
    decreases values.len(),
{
    let keep = |v: T| key(v) == key(value);
    if values.len() == 0 {
        reveal(Seq::filter);
        assert(values.filter(keep) =~= values);
    } else {
        let rest = values.drop_last();
        let last = values.last();
        count_with_key(rest, key, value);
        assert(values =~= rest.push(last));
        rest.lemma_filter_push(last, keep);
        vstd::seq_lib::to_multiset_build(rest, last);
        vstd::seq_lib::to_multiset_build(rest.filter(keep), last);
    }
}

/// A stable order has the same members, each as often.
pub proof fn stable_order_is_permutation<T>(
    values: Seq<T>,
    sorted: Seq<T>,
    key: spec_fn(T) -> (int, int, int),
)
    requires
        is_stable_order(values, sorted, key),
    ensures
        sorted.to_multiset() == values.to_multiset(),
        sorted.len() == values.len(),
{
    assert forall|value: T|
        sorted.to_multiset().count(value) == values.to_multiset().count(value) by {
        count_with_key(sorted, key, value);
        count_with_key(values, key, value);
        assert(with_key(sorted, key, key(value)) == with_key(values, key, key(value)));
    }
    assert(sorted.to_multiset() =~= values.to_multiset());
    vstd::seq_lib::to_multiset_len(sorted);
    vstd::seq_lib::to_multiset_len(values);
}

/// In sorted values, the last of those with the last key is the last of all.
proof fn last_has_last_key<T>(values: Seq<T>, key: spec_fn(T) -> (int, int, int))
    requires
        values.len() > 0,
    ensures
        with_key(values, key, key(values.last())).len() > 0,
        with_key(values, key, key(values.last())).last() == values.last(),
        forall|wanted: (int, int, int)|
            with_key(values, key, wanted) == if wanted == key(values.last()) {
                (#[trigger] with_key(values.drop_last(), key, wanted)).push(values.last())
            } else {
                with_key(values.drop_last(), key, wanted)
            },
{
    let rest = values.drop_last();
    assert(values =~= rest.push(values.last()));
    assert forall|wanted: (int, int, int)|
        with_key(values, key, wanted) == if wanted == key(values.last()) {
            (#[trigger] with_key(rest, key, wanted)).push(values.last())
        } else {
            with_key(rest, key, wanted)
        } by {
        rest.lemma_filter_push(values.last(), |value: T| key(value) == wanted);
    }
    assert(with_key(rest, key, key(values.last())).push(values.last()).len() > 0);
}

/// A value with a given key, where there are any.
proof fn some_with_key<T>(
    values: Seq<T>,
    key: spec_fn(T) -> (int, int, int),
    wanted: (int, int, int),
) -> (at: int)
    requires
        with_key(values, key, wanted).len() > 0,
    ensures
        0 <= at < values.len(),
        key(values[at]) == wanted,
    decreases values.len(),
{
    if values.len() == 0 {
        reveal(Seq::filter);
        0
    } else if key(values.last()) == wanted {
        values.len() - 1
    } else {
        last_has_last_key(values, key);
        assert(with_key(values.drop_last(), key, wanted).len() > 0);
        some_with_key(values.drop_last(), key, wanted)
    }
}

/// There is only one stable order.
pub proof fn stable_order_is_unique<T>(
    values: Seq<T>,
    a: Seq<T>,
    b: Seq<T>,
    key: spec_fn(T) -> (int, int, int),
)
    requires
        is_stable_order(values, a, key),
        is_stable_order(values, b, key),
    ensures
        a == b,
    decreases a.len(),
{
    stable_order_is_permutation(values, a, key);
    stable_order_is_permutation(values, b, key);
    if a.len() == 0 {
        assert(a =~= b);
    } else {
        last_has_last_key(a, key);
        last_has_last_key(b, key);
        let (x, y) = (a.drop_last(), b.drop_last());
        let (last_a, last_b) = (key(a.last()), key(b.last()));
        assert(with_key(a, key, last_a) == with_key(values, key, last_a));
        assert(with_key(b, key, last_a) == with_key(values, key, last_a));
        assert(with_key(a, key, last_b) == with_key(values, key, last_b));
        assert(with_key(b, key, last_b) == with_key(values, key, last_b));
        assert(key_le(last_a, last_b)) by {
            let at = some_with_key(b, key, last_a);
            if at < b.len() - 1 {
                assert(key_le(key(b[at]), key(b[b.len() - 1])));
            }
        }
        assert(key_le(last_b, last_a)) by {
            let at = some_with_key(a, key, last_b);
            if at < a.len() - 1 {
                assert(key_le(key(a[at]), key(a[a.len() - 1])));
            }
        }
        assert(last_a == last_b);
        assert(a.last() == b.last());
        assert forall|wanted: (int, int, int)| #[trigger]
            with_key(x, key, wanted) == with_key(y, key, wanted) by {
            assert(with_key(a, key, wanted) == with_key(values, key, wanted));
            assert(with_key(b, key, wanted) == with_key(values, key, wanted));
            if wanted == last_a {
                assert(with_key(x, key, wanted) =~= with_key(a, key, wanted).drop_last());
                assert(with_key(y, key, wanted) =~= with_key(b, key, wanted).drop_last());
            }
        }
        assert(is_ordered(x, key)) by {
            assert forall|i: int, j: int| 0 <= i < j < x.len() implies key_le(
                key(#[trigger] x[i]),
                key(#[trigger] x[j]),
            ) by {
                assert(x[i] == a[i] && x[j] == a[j]);
            }
        }
        assert(is_ordered(y, key)) by {
            assert forall|i: int, j: int| 0 <= i < j < y.len() implies key_le(
                key(#[trigger] y[i]),
                key(#[trigger] y[j]),
            ) by {
                assert(y[i] == b[i] && y[j] == b[j]);
            }
        }
        stable_order_is_unique(x, x, y, key);
        assert(a =~= x.push(a.last()));
        assert(b =~= y.push(b.last()));
    }
}

/// Mapping members so that each is kept or dropped as before maps the ones that
/// are kept.
pub proof fn filter_of_mapped<T>(values: Seq<T>, keep: spec_fn(T) -> bool, map: spec_fn(T) -> T)
    requires
        forall|value: T| keep(#[trigger] map(value)) == keep(value),
    ensures
        values.map_values(map).filter(keep) == values.filter(keep).map_values(map),
    decreases values.len(),
{
    if values.len() == 0 {
        reveal(Seq::filter);
        assert(values.map_values(map).filter(keep) =~= values.filter(keep).map_values(map));
    } else {
        let rest = values.drop_last();
        filter_of_mapped(rest, keep, map);
        assert(values =~= rest.push(values.last()));
        assert(values.map_values(map) =~= rest.map_values(map).push(map(values.last())));
        rest.lemma_filter_push(values.last(), keep);
        rest.map_values(map).lemma_filter_push(map(values.last()), keep);
        if keep(values.last()) {
            assert(values.filter(keep).map_values(map) =~= rest.filter(keep).map_values(map).push(
                map(values.last()),
            ));
        }
    }
}

/// Mapping the members of a sequence, keys untouched, maps its stable order.
pub proof fn stable_order_of_mapped<T>(
    values: Seq<T>,
    sorted: Seq<T>,
    key: spec_fn(T) -> (int, int, int),
    map: spec_fn(T) -> T,
)
    requires
        is_stable_order(values, sorted, key),
        forall|value: T| key(#[trigger] map(value)) == key(value),
    ensures
        is_stable_order(values.map_values(map), sorted.map_values(map), key),
{
    let (a, b) = (values.map_values(map), sorted.map_values(map));
    assert forall|i: int, j: int| 0 <= i < j < b.len() implies key_le(
        key(#[trigger] b[i]),
        key(#[trigger] b[j]),
    ) by {
        assert(b[i] == map(sorted[i]) && b[j] == map(sorted[j]));
        assert(key_le(key(sorted[i]), key(sorted[j])));
    }
    assert forall|wanted: (int, int, int)| #[trigger]
        with_key(b, key, wanted) == with_key(a, key, wanted) by {
        let keep = |value: T| key(value) == wanted;
        assert forall|value: T| keep(#[trigger] map(value)) == keep(value) by {
            assert(key(map(value)) == key(value));
        }
        filter_of_mapped(values, keep, map);
        filter_of_mapped(sorted, keep, map);
        assert(with_key(sorted, key, wanted) == with_key(values, key, wanted));
    }
}

/// Numbers are sorted by their value.
pub open spec fn number_key() -> spec_fn(u64) -> (int, int, int) {
    |number: u64| (0int, 0int, number as int)
}

/// Whether `sorted` is `numbers` in ascending order.
pub open spec fn is_sorted_of(numbers: Seq<u64>, sorted: Seq<u64>) -> bool {
    is_stable_order(numbers, sorted, number_key())
}

/// `numbers` in ascending order.
pub open spec fn ascending(numbers: Seq<u64>) -> Seq<u64> {
    choose|sorted: Seq<u64>| is_sorted_of(numbers, sorted)
}

/// There is only one way to sort numbers.
pub proof fn sorting_is_unique(numbers: Seq<u64>, sorted: Seq<u64>)
    requires
        is_sorted_of(numbers, sorted),
    ensures
        ascending(numbers) == sorted,
{
    let other = ascending(numbers);
    let leq = |a: u64, b: u64| a <= b;
    stable_order_is_permutation(numbers, sorted, number_key());
    stable_order_is_permutation(numbers, other, number_key());
    assert forall|i: int, j: int| 0 <= i < j < sorted.len() implies leq(
        #[trigger] sorted[i],
        #[trigger] sorted[j],
    ) by {
        assert(key_le(number_key()(sorted[i]), number_key()(sorted[j])));
    }
    assert forall|i: int, j: int| 0 <= i < j < other.len() implies leq(
        #[trigger] other[i],
        #[trigger] other[j],
    ) by {
        assert(key_le(number_key()(other[i]), number_key()(other[j])));
    }
    vstd::seq_lib::lemma_sorted_unique(other, sorted, leq);
}

/// Where a number belongs among sorted ones: behind everything up to it.
proof fn place_among(sorted: Seq<u64>, number: u64) -> (at: int)
    requires
        is_ordered(sorted, number_key()),
    ensures
        0 <= at <= sorted.len(),
        forall|i: int| 0 <= i < at ==> #[trigger] sorted[i] <= number,
        forall|i: int| at <= i < sorted.len() ==> #[trigger] sorted[i] > number,
    decreases sorted.len(),
{
    if sorted.len() == 0 || sorted.last() <= number {
        assert forall|i: int| 0 <= i < sorted.len() implies #[trigger] sorted[i] <= number by {
            if i < sorted.len() - 1 {
                assert(key_le(number_key()(sorted[i]), number_key()(sorted[sorted.len() - 1])));
            }
        }
        sorted.len() as int
    } else {
        let rest = sorted.drop_last();
        assert(is_ordered(rest, number_key())) by {
            assert forall|i: int, j: int| 0 <= i < j < rest.len() implies key_le(
                number_key()(#[trigger] rest[i]),
                number_key()(#[trigger] rest[j]),
            ) by {
                assert(rest[i] == sorted[i] && rest[j] == sorted[j]);
            }
        }
        let at = place_among(rest, number);
        assert forall|i: int| 0 <= i < at implies #[trigger] sorted[i] <= number by {
            assert(rest[i] == sorted[i]);
        }
        assert forall|i: int| at <= i < sorted.len() implies #[trigger] sorted[i] > number by {
            if i < rest.len() {
                assert(rest[i] == sorted[i]);
            }
        }
        at
    }
}

/// Numbers can always be sorted.
pub proof fn ascending_is_sorted(numbers: Seq<u64>)
    ensures
        is_sorted_of(numbers, ascending(numbers)),
    decreases numbers.len(),
{
    if numbers.len() == 0 {
        assert(is_sorted_of(numbers, numbers));
    } else {
        let rest = numbers.drop_last();
        let number = numbers.last();
        ascending_is_sorted(rest);
        let sorted = ascending(rest);
        let at = place_among(sorted, number);
        insert_keeps_order(rest, sorted, number_key(), at, number);
        assert(rest.push(number) =~= numbers);
        assert(is_sorted_of(numbers, sorted.insert(at, number)));
    }
}

/// Any numbers, however listed, can be listed once each in ascending order.
pub proof fn ascending_of_members(numbers: Seq<u64>) -> (listed: Seq<u64>)
    ensures
        is_ascending(listed),
        forall|n: u64| #[trigger] listed.contains(n) <==> numbers.contains(n),
    decreases numbers.len(),
{
    if numbers.len() == 0 {
        numbers
    } else {
        let rest = numbers.drop_last();
        let number = numbers.last();
        let listed = ascending_of_members(rest);
        assert forall|n: u64| #[trigger] numbers.contains(n) <==> rest.contains(n) || n
            == number by {
            if numbers.contains(n) {
                let k = numbers.index_of(n);
                if k < rest.len() {
                    assert(rest[k] == n);
                }
            }
            if rest.contains(n) {
                assert(numbers[rest.index_of(n)] == n);
            }
            assert(numbers[numbers.len() - 1] == number);
        }
        if listed.contains(number) {
            listed
        } else {
            assert(is_ordered(listed, number_key()));
            let at = place_among(listed, number);
            let longer = listed.insert(at, number);
            assert forall|n: u64| #[trigger] longer.contains(n) <==> listed.contains(n) || n
                == number by {
                if longer.contains(n) {
                    let k = longer.index_of(n);
                    if k < at {
                        assert(listed[k] == n);
                    } else if k > at {
                        assert(listed[k - 1] == n);
                    }
                }
                if listed.contains(n) {
                    let k = listed.index_of(n);
                    if k < at {
                        assert(longer[k] == n);
                    } else {
                        assert(longer[k + 1] == n);
                    }
                }
                assert(longer[at] == number);
            }
            assert forall|i: int, j: int| 0 <= i < j < longer.len() implies longer[i]
                < longer[j] by {
                if i < at && j == at {
                    assert(listed.contains(listed[i]));
                    assert(listed[i] <= number);
                } else if i == at {
                    assert(longer[j] == listed[j - 1]);
                } else {
                    let (k, l) = (
                        if i < at { i } else { i - 1 },
                        if j < at { j } else { j - 1 },
                    );
                    assert(longer[i] == listed[k] && longer[j] == listed[l]);
                }
            }
            longer
        }
    }
}

/// Sorts `numbers` in ascending order.
pub fn sort_numbers(numbers: &Vec<u64>) -> (sorted: Vec<u64>)
    ensures
        sorted@ == ascending(numbers@),
        is_sorted_of(numbers@, sorted@),
{
    let mut sorted: Vec<u64> = Vec::new();
    let mut i: usize = 0;
    proof {
        assert(numbers@.take(0) =~= sorted@);
    }
    while i < numbers.len()
        invariant
            i <= numbers@.len(),
            is_sorted_of(numbers@.take(i as int), sorted@),
        decreases numbers@.len() - i,
    {
        let number: u64 = numbers[i];
        let mut at: usize = sorted.len();
        while at > 0 && sorted[at - 1] > number
            invariant
                at <= sorted@.len(),
                forall|k: int| at <= k < sorted@.len() ==> sorted@[k] > number,
            decreases at,
        {
            at -= 1;
        }
        proof {
            let key = number_key();
            assert forall|k: int| 0 <= k < at implies key_le(
                key(#[trigger] sorted@[k]),
                key(number),
            ) by {
                if k < at - 1 {
                    assert(key_le(key(sorted@[k]), key(sorted@[at - 1])));
                }
            }
            insert_keeps_order(numbers@.take(i as int), sorted@, key, at as int, number);
            assert(numbers@.take(i + 1) =~= numbers@.take(i as int).push(number));
        }
        sorted.insert(at, number);
        i += 1;
    }
    proof {
        assert(numbers@.take(i as int) =~= numbers@);
        sorting_is_unique(numbers@, sorted@);
    }
    sorted
}

/// Whether every number is smaller than the next.
pub open spec fn is_ascending(numbers: Seq<u64>) -> bool {
    forall|i: int, j: int| 0 <= i < j < numbers.len() ==> numbers[i] < numbers[j]
}

/// There is only one ascending list of given members.
pub proof fn ascending_is_unique(a: Seq<u64>, b: Seq<u64>)
    requires
        is_ascending(a),
        is_ascending(b),
        forall|n: u64| #[trigger] a.contains(n) <==> b.contains(n),
    ensures
        a == b,
    decreases a.len(),
{
    if a.len() == 0 {
        if b.len() > 0 {
            assert(b.contains(b[0]));
            assert(a.contains(b[0]));
        }
        assert(a =~= b);
    } else {
        assert(a.contains(a.last()));
        assert(b.contains(a.last()));
        let i = b.index_of(a.last());
        assert(b.contains(b.last()));
        assert(a.contains(b.last()));
        let j = a.index_of(b.last());
        assert(a.last() == b.last()) by {
            if i < b.len() - 1 {
                assert(b[i] < b[b.len() - 1]);
            }
            if j < a.len() - 1 {
                assert(a[j] < a[a.len() - 1]);
            }
        }
        let (x, y) = (a.drop_last(), b.drop_last());
        assert forall|n: u64| #[trigger] x.contains(n) <==> y.contains(n) by {
            if x.contains(n) {
                let k = x.index_of(n);
                assert(a[k] == n);
                assert(a[k] < a[a.len() - 1]);
                assert(a.contains(n));
                let m = b.index_of(n);
                assert(y[m] == n);
            }
            if y.contains(n) {
                let k = y.index_of(n);
                assert(b[k] == n);
                assert(b[k] < b[b.len() - 1]);
                assert(b.contains(n));
                assert(a.contains(n));
                let m = a.index_of(n);
                assert(x[m] == n);
            }
        }
        ascending_is_unique(x, y);
        assert(a =~= x.push(a.last()));
        assert(b =~= y.push(b.last()));
    }
}

/// Adds `number` to an ascending list, where it is not in it yet.
pub fn insert_ascending(numbers: &mut Vec<u64>, number: u64)
    requires
        is_ascending(old(numbers)@),
    ensures
        is_ascending(final(numbers)@),
        forall|n: u64| #[trigger]
            final(numbers)@.contains(n) <==> old(numbers)@.contains(n) || n == number,
{
    let ghost before = numbers@;
    let mut at: usize = numbers.len();
    while at > 0 && numbers[at - 1] > number
        invariant
            at <= numbers@.len(),
            numbers@ == before,
            forall|k: int| at <= k < numbers@.len() ==> numbers@[k] > number,
        decreases at,
    {
        at -= 1;
    }
    if at > 0 && numbers[at - 1] == number {
        assert(before[at - 1] == number);
        return ;
    }
    numbers.insert(at, number);
    proof {
        assert(numbers@ =~= before.insert(at as int, number));
        assert forall|n: u64| #[trigger]
            numbers@.contains(n) <==> before.contains(n) || n == number by {
            if before.contains(n) {
                let k = choose|k: int| 0 <= k < before.len() && before[k] == n;
                if k < at {
                    assert(numbers@[k] == n);
                } else {
                    assert(numbers@[k + 1] == n);
                }
            }
            if n == number {
                assert(numbers@[at as int] == n);
            }
            if numbers@.contains(n) && n != number {
                let k = choose|k: int| 0 <= k < numbers@.len() && numbers@[k] == n;
                if k < at {
                    assert(before[k] == n);
                } else {
                    assert(before[k - 1] == n);
                }
            }
        }
    }
}

/// What is read off a sequence is what is read off one of its members.
pub proof fn read_off_a_member<A, B>(values: Seq<A>, read: spec_fn(A) -> Option<B>, wanted: B)
    ensures
        values.filter_map(read).contains(wanted) <==> exists|i: int|
            0 <= i < values.len() && read(#[trigger] values[i]) == Some(wanted),
    decreases values.len(),
{
    let found = values.filter_map(read);
    if values.len() > 0 {
        let rest = values.drop_last();
        let n = values.len() - 1;
        read_off_a_member(rest, read, wanted);
        values.lemma_filter_map_take_succ(read, n);
        assert(values.take(n) =~= rest);
        assert(values.take(n + 1) =~= values);
        if rest.filter_map(read).contains(wanted) {
            let k = rest.filter_map(read).index_of(wanted);
            assert(found[k] == wanted);
            let i = choose|i: int|
                0 <= i < rest.len() && read(#[trigger] rest[i]) == Some(wanted);
            assert(values[i] == rest[i]);
        }
        if read(values[n]) == Some(wanted) {
            assert(found[found.len() - 1] == wanted);
        }
        if exists|i: int| 0 <= i < values.len() && read(#[trigger] values[i]) == Some(wanted) {
            let i = choose|i: int|
                0 <= i < values.len() && read(#[trigger] values[i]) == Some(wanted);
            if i < n {
                assert(rest[i] == values[i]);
            }
        }
        if found.contains(wanted) {
            let k = found.index_of(wanted);
            if k < rest.filter_map(read).len() {
                assert(rest.filter_map(read)[k] == wanted);
            } else {
                assert(read(values[n]) == Some(wanted));
            }
        }
    }
}

/// What the members of a sequence give together is what one of them gives.
pub proof fn given_by_a_member<A, B>(values: Seq<A>, give: spec_fn(A) -> Seq<B>, wanted: B)
    ensures
        values.flat_map(give).contains(wanted) <==> exists|i: int|
            0 <= i < values.len() && give(#[trigger] values[i]).contains(wanted),
    decreases values.len(),
{
    let found = values.flat_map(give);
    if values.len() == 0 {
        assert(found =~= Seq::<B>::empty());
    } else {
        let rest = values.drop_last();
        let n = values.len() - 1;
        let (front, back) = (rest.flat_map(give), give(values[n]));
        given_by_a_member(rest, give, wanted);
        rest.lemma_flat_map_push(give, values[n]);
        assert(values =~= rest.push(values[n]));
        assert(found =~= front + back);
        in_either(front, back, wanted);
        if front.contains(wanted) {
            let i = choose|i: int| 0 <= i < rest.len() && give(#[trigger] rest[i]).contains(wanted);
            assert(values[i] == rest[i]);
        }
        if exists|i: int| 0 <= i < values.len() && give(#[trigger] values[i]).contains(wanted) {
            let i = choose|i: int|
                0 <= i < values.len() && give(#[trigger] values[i]).contains(wanted);
            if i < n {
                assert(rest[i] == values[i]);
            }
        }
    }
}

/// What is in two sequences together is in one of them.
pub proof fn in_either<A>(a: Seq<A>, b: Seq<A>, wanted: A)
    ensures
        (a + b).contains(wanted) <==> a.contains(wanted) || b.contains(wanted),
{
    if a.contains(wanted) {
        let k = a.index_of(wanted);
        assert((a + b)[k] == wanted);
    }
    if b.contains(wanted) {
        let k = b.index_of(wanted);
        assert((a + b)[a.len() + k] == wanted);
    }
    if (a + b).contains(wanted) {
        let k = (a + b).index_of(wanted);
        if k < a.len() {
            assert(a[k] == wanted);
        } else {
            assert(b[k - a.len()] == wanted);
        }
    }
}

} // verus!
