//! Stable selection and sorting by an integer key.
//!
//! The lifting order, the ranking tables and the plate inventory are all
//! "keep the rows that qualify, order them by a key, earlier rows first among
//! equals". `select_sorted` is that operation as a mathematical function;
//! the lemmas below show that its result is ordered and holds exactly the
//! qualifying rows.

use vstd::prelude::*;
use vstd::seq_lib::*;

verus! {

/// `s` with `x` placed behind the last element whose key does not exceed
/// the key of `x`.
pub open spec fn stable_insert<T>(s: Seq<T>, key: spec_fn(T) -> int, x: T) -> Seq<T>
    decreases s.len(),
{
    if s.len() == 0 {
        seq![x]
    } else if key(s.last()) <= key(x) {
        s.push(x)
    } else {
        stable_insert(s.drop_last(), key, x).push(s.last())
    }
}

/// The elements of `s` that satisfy `keep`, in ascending order of `key`;
/// elements with equal keys stay in the order they have in `s`.
pub open spec fn select_sorted<T>(
    s: Seq<T>,
    keep: spec_fn(T) -> bool,
    key: spec_fn(T) -> int,
) -> Seq<T>
    decreases s.len(),
{
    if s.len() == 0 {
        Seq::empty()
    } else {
        let rest = select_sorted(s.drop_last(), keep, key);
        if keep(s.last()) {
            stable_insert(rest, key, s.last())
        } else {
            rest
        }
    }
}

/// Keys never decrease along `s`.
pub open spec fn sorted_by_key<T>(s: Seq<T>, key: spec_fn(T) -> int) -> bool {
    forall|i: int, j: int| 0 <= i < j < s.len() ==> key(s[i]) <= key(s[j])
}

/// Inserting at the position that separates the keys `<= key(x)` from the
/// larger ones is what `stable_insert` does.
pub proof fn lemma_stable_insert_at<T>(s: Seq<T>, key: spec_fn(T) -> int, x: T, pos: int)
    requires
        0 <= pos <= s.len(),
        forall|i: int| pos <= i < s.len() ==> key(s[i]) > key(x),
        pos > 0 ==> key(s[pos - 1]) <= key(x),
    ensures
        stable_insert(s, key, x) == s.insert(pos, x),
    decreases s.len(),
{
    if s.len() == 0 {
        assert(s.insert(0, x) =~= seq![x]);
    } else if pos == s.len() {
        assert(s.insert(pos, x) =~= s.push(x));
    } else {
        lemma_stable_insert_at(s.drop_last(), key, x, pos);
        assert(s.drop_last().insert(pos, x).push(s.last()) =~= s.insert(pos, x));
    }
}

/// `stable_insert` adds exactly one element, keeps every other one, and
/// keeps a sorted sequence sorted.
pub proof fn lemma_stable_insert<T>(s: Seq<T>, key: spec_fn(T) -> int, x: T)
    ensures
        stable_insert(s, key, x).len() == s.len() + 1,
        stable_insert(s, key, x).to_multiset() == s.to_multiset().insert(x),
        forall|i: int|
            0 <= i < stable_insert(s, key, x).len() ==> {
                ||| #[trigger] stable_insert(s, key, x)[i] == x
                ||| s.contains(stable_insert(s, key, x)[i])
            },
        sorted_by_key(s, key) ==> sorted_by_key(stable_insert(s, key, x), key),
    decreases s.len(),
{
    broadcast use to_multiset_build;

    let r = stable_insert(s, key, x);
    if s.len() == 0 {
        assert(s =~= Seq::<T>::empty());
        assert(r =~= Seq::<T>::empty().push(x));
    } else if key(s.last()) <= key(x) {
        assert forall|i: int| 0 <= i < r.len() implies r[i] == x || s.contains(r[i]) by {
            if i < s.len() {
                assert(s[i] == r[i]);
            }
        }
        if sorted_by_key(s, key) {
            assert forall|i: int, j: int| 0 <= i < j < r.len() implies key(r[i]) <= key(
                r[j],
            ) by {
                if j == s.len() {
                    if i < s.len() - 1 {
                        assert(key(s[i]) <= key(s[s.len() - 1]));
                    }
                }
            }
        }
    } else {
        let front = s.drop_last();
        let inner = stable_insert(front, key, x);
        lemma_stable_insert(front, key, x);
        assert(s =~= front.push(s.last()));
        assert(s.to_multiset() == front.to_multiset().insert(s.last()));
        assert(r.to_multiset() =~= s.to_multiset().insert(x));
        assert forall|i: int| 0 <= i < r.len() implies r[i] == x || s.contains(r[i]) by {
            if i < inner.len() {
                assert(r[i] == inner[i]);
                if inner[i] != x {
                    assert(front.contains(inner[i]));
                    let k = choose|k: int| 0 <= k < front.len() && front[k] == inner[i];
                    assert(s[k] == inner[i]);
                }
            } else {
                assert(r[i] == s[s.len() - 1]);
            }
        }
        if sorted_by_key(s, key) {
            assert(sorted_by_key(front, key)) by {
                assert forall|i: int, j: int| 0 <= i < j < front.len() implies key(front[i])
                    <= key(front[j]) by {
                    assert(front[i] == s[i] && front[j] == s[j]);
                }
            }
            assert forall|i: int, j: int| 0 <= i < j < r.len() implies key(r[i]) <= key(
                r[j],
            ) by {
                if j < inner.len() {
                    assert(r[i] == inner[i] && r[j] == inner[j]);
                } else {
                    assert(r[j] == s.last());
                    assert(r[i] == inner[i]);
                    if inner[i] != x {
                        assert(front.contains(inner[i]));
                        let k = choose|k: int| 0 <= k < front.len() && front[k] == inner[i];
                        assert(key(s[k]) <= key(s[s.len() - 1]));
                    }
                }
            }
        }
    }
}

/// The result of `select_sorted` is in ascending key order.
pub proof fn lemma_select_sorted_is_sorted<T>(
    s: Seq<T>,
    keep: spec_fn(T) -> bool,
    key: spec_fn(T) -> int,
)
    ensures
        sorted_by_key(select_sorted(s, keep, key), key),
    decreases s.len(),
{
    if s.len() > 0 {
        lemma_select_sorted_is_sorted(s.drop_last(), keep, key);
        lemma_stable_insert(select_sorted(s.drop_last(), keep, key), key, s.last());
    }
}

/// The result of `select_sorted` holds exactly the elements that satisfy
/// `keep`, each as often as the input does.
pub proof fn lemma_select_sorted_members<T>(
    s: Seq<T>,
    keep: spec_fn(T) -> bool,
    key: spec_fn(T) -> int,
)
    ensures
        select_sorted(s, keep, key).to_multiset() == s.filter(keep).to_multiset(),
        select_sorted(s, keep, key).len() == s.filter(keep).len(),
    decreases s.len(),
{
    broadcast use to_multiset_build;

    if s.len() == 0 {
        assert(s.filter(keep) =~= Seq::<T>::empty()) by {
            s.lemma_filter_len(keep);
        }
    } else {
        let front = s.drop_last();
        lemma_select_sorted_members(front, keep, key);
        lemma_stable_insert(select_sorted(front, keep, key), key, s.last());
        assert(s =~= front.push(s.last()));
        front.lemma_filter_push(s.last(), keep);
    }
}

/// Places `item` into `items` as `stable_insert` does, and its key `k`
/// at the same position of `keys`.
pub(crate) fn insert_stable<T>(
    items: &mut Vec<T>,
    keys: &mut Vec<u128>,
    item: T,
    k: u128,
    Ghost(key): Ghost<spec_fn(T) -> int>,
)
    requires
        old(items)@.len() == old(keys)@.len(),
        forall|i: int| 0 <= i < old(keys)@.len() ==> old(keys)@[i] as int == key(old(items)@[i]),
        k as int == key(item),
    ensures
        final(items)@ == stable_insert(old(items)@, key, item),
        final(items)@.len() == final(keys)@.len(),
        forall|i: int|
            0 <= i < final(keys)@.len() ==> final(keys)@[i] as int == key(final(items)@[i]),
{
    let mut pos: usize = keys.len();
    while pos > 0 && keys[pos - 1] > k
        invariant
            pos <= keys@.len(),
            items@.len() == keys@.len(),
            forall|i: int| pos <= i < keys@.len() ==> keys@[i] > k,
        decreases pos,
    {
        pos -= 1;
    }
    proof {
        assert forall|i: int| pos <= i < items@.len() implies key(items@[i]) > key(item) by {
            assert(keys@[i] > k);
        }
        lemma_stable_insert_at(items@, key, item, pos as int);
    }
    items.insert(pos, item);
    keys.insert(pos, k);
}

} // verus!
