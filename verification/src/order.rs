//! Sorting by a key, equal keys keeping the order in which they came.

use vstd::prelude::*;

verus! {

/// `sorted` with `item` put behind the last element whose key is not
/// greater than the item's.
pub open spec fn inserted<T>(sorted: Seq<T>, item: T, key: spec_fn(T) -> int) -> Seq<T>
    decreases sorted.len(),
{
    if sorted.len() == 0 {
        seq![item]
    } else if key(sorted.last()) <= key(item) {
        sorted.push(item)
    } else {
        inserted(sorted.drop_last(), item, key).push(sorted.last())
    }
}

/// The elements of `s` in the order of their keys; elements with equal keys
/// stay in the order in which they stand in `s`.
pub open spec fn stably_sorted<T>(s: Seq<T>, key: spec_fn(T) -> int) -> Seq<T>
    decreases s.len(),
{
    if s.len() == 0 {
        s
    } else {
        inserted(stably_sorted(s.drop_last(), key), s.last(), key)
    }
}

/// No element stands before one with a smaller key.
pub open spec fn in_order<T>(s: Seq<T>, key: spec_fn(T) -> int) -> bool {
    forall|i: int, j: int| 0 <= i <= j < s.len() ==> key(s[i]) <= key(s[j])
}

/// Putting `item` at place `at` is what `inserted` does, where every
/// element from `at` on has a greater key and the one before has not.
pub proof fn lemma_inserted_at<T>(sorted: Seq<T>, item: T, key: spec_fn(T) -> int, at: int)
    requires
        0 <= at <= sorted.len(),
        forall|k: int| at <= k < sorted.len() ==> key(sorted[k]) > key(item),
        at > 0 ==> key(sorted[at - 1]) <= key(item),
    ensures
        inserted(sorted, item, key) == sorted.insert(at, item),
    decreases sorted.len() - at,
{
    if at == sorted.len() {
        assert(sorted.insert(at, item) =~= sorted.push(item));
        if sorted.len() == 0 {
            assert(sorted.push(item) =~= seq![item]);
        }
    } else {
        lemma_inserted_at(sorted.drop_last(), item, key, at);
        assert(sorted.drop_last().insert(at, item).push(sorted.last()) =~= sorted.insert(
            at,
            item,
        ));
    }
}

/// Inserting adds one element, keeps the order, and keeps what is there.
pub proof fn lemma_inserted<T>(sorted: Seq<T>, item: T, key: spec_fn(T) -> int)
    ensures
        inserted(sorted, item, key).len() == sorted.len() + 1,
        inserted(sorted, item, key).to_multiset() == sorted.to_multiset().insert(item),
        in_order(sorted, key) ==> in_order(inserted(sorted, item, key), key),
    decreases sorted.len(),
{
    broadcast use vstd::seq_lib::group_to_multiset_ensures;

    let after = inserted(sorted, item, key);
    if sorted.len() == 0 {
        assert(sorted =~= Seq::empty());
        assert(after =~= Seq::<T>::empty().push(item));
    } else if key(sorted.last()) <= key(item) {
        if in_order(sorted, key) {
            assert forall|i: int, j: int| 0 <= i <= j < after.len() implies key(after[i]) <= key(
                after[j],
            ) by {
                if j == sorted.len() && i < j {
                    assert(key(sorted[i]) <= key(sorted[sorted.len() - 1]));
                }
            }
        }
    } else {
        let front = sorted.drop_last();
        lemma_inserted(front, item, key);
        let middle = inserted(front, item, key);
        assert(sorted =~= front.push(sorted.last()));
        assert(after == middle.push(sorted.last()));
        assert(after.to_multiset() =~= sorted.to_multiset().insert(item));
        if in_order(sorted, key) {
            assert(in_order(front, key)) by {
                assert forall|i: int, j: int| 0 <= i <= j < front.len() implies key(front[i])
                    <= key(front[j]) by {
                    assert(key(sorted[i]) <= key(sorted[j]));
                }
            }
            assert forall|i: int, j: int| 0 <= i <= j < after.len() implies key(after[i]) <= key(
                after[j],
            ) by {
                if j == middle.len() && i < j {
                    lemma_inserted_bound(front, item, key, key(sorted.last()), i);
                } else if j < middle.len() {
                    assert(key(middle[i]) <= key(middle[j]));
                }
            }
        }
    }
}

/// Where the item and every element have a key of at most `bound`, so has
/// every element after the insertion.
proof fn lemma_inserted_bound<T>(
    sorted: Seq<T>,
    item: T,
    key: spec_fn(T) -> int,
    bound: int,
    i: int,
)
    requires
        key(item) <= bound,
        forall|k: int| 0 <= k < sorted.len() ==> key(sorted[k]) <= bound,
        0 <= i <= sorted.len(),
    ensures
        inserted(sorted, item, key).len() == sorted.len() + 1,
        key(inserted(sorted, item, key)[i]) <= bound,
    decreases sorted.len(),
{
    if sorted.len() == 0 {
    } else if key(sorted.last()) <= key(item) {
    } else {
        if i < sorted.len() {
            lemma_inserted_bound(sorted.drop_last(), item, key, bound, i);
        } else {
            lemma_inserted_bound(sorted.drop_last(), item, key, bound, 0);
        }
    }
}

/// Sorting keeps every element, as often as it stands in the sequence, and
/// leaves no element before one with a smaller key.
pub proof fn law_stably_sorted<T>(s: Seq<T>, key: spec_fn(T) -> int)
    ensures
        stably_sorted(s, key).len() == s.len(),
        stably_sorted(s, key).to_multiset() == s.to_multiset(),
        in_order(stably_sorted(s, key), key),
    decreases s.len(),
{
    broadcast use vstd::seq_lib::group_to_multiset_ensures;

    if s.len() > 0 {
        law_stably_sorted(s.drop_last(), key);
        lemma_inserted(stably_sorted(s.drop_last(), key), s.last(), key);
        assert(s =~= s.drop_last().push(s.last()));
    }
}

/// Sorting the first `n + 1` elements is sorting the first `n` and then
/// inserting the next.
pub proof fn lemma_sorted_step<T>(s: Seq<T>, key: spec_fn(T) -> int, n: int)
    requires
        0 <= n < s.len(),
    ensures
        stably_sorted(s.take(n + 1), key) == inserted(stably_sorted(s.take(n), key), s[n], key),
{
    assert(s.take(n + 1).drop_last() =~= s.take(n));
    assert(s.take(n + 1).last() == s[n]);
}

} // verus!
