//! Putting a collection in order, newest first.
//!
//! Items are ordered by an integer key, greatest first. Items with equal
//! keys keep the order in which they were given.

use vstd::prelude::*;

verus! {

/// First position at or after `p` in `order` whose key is not above `key`;
/// the length of `order` if every key from `p` on is above it.
pub open spec fn slot(keys: Seq<i32>, order: Seq<int>, key: i32, p: int) -> int
    decreases order.len() - p,
{
    if p < 0 || p >= order.len() {
        order.len() as int
    } else if keys[order[p]] <= key {
        p
    } else {
        slot(keys, order, key, p + 1)
    }
}

/// The indices from `i` on, greatest key first, equal keys in rising order
/// of index. Built from the back: each index is put before the first one
/// whose key is not above its own.
pub open spec fn newest_first_from(keys: Seq<i32>, i: int) -> Seq<int>
    decreases keys.len() - i,
{
    if i < 0 || i >= keys.len() {
        Seq::empty()
    } else {
        let rest = newest_first_from(keys, i + 1);
        rest.insert(slot(keys, rest, keys[i], 0), i)
    }
}

/// The indices of `keys`, greatest key first, equal keys in rising order of
/// index.
pub open spec fn newest_first(keys: Seq<i32>) -> Seq<int> {
    newest_first_from(keys, 0)
}

/// The items in the order that `order` names.
pub open spec fn arranged<T>(items: Seq<T>, order: Seq<int>) -> Seq<T> {
    Seq::new(order.len(), |j: int| items[order[j]])
}

/// `order` lists each index from `from` up to `n` exactly once, and goes
/// from greater keys to smaller ones, equal keys by rising index.
pub open spec fn is_newest_first(keys: Seq<i32>, order: Seq<int>, from: int) -> bool {
    &&& order.len() == keys.len() - from
    &&& forall|a: int| 0 <= a < order.len() ==> from <= #[trigger] order[a] < keys.len()
    &&& forall|a: int, b: int|
        0 <= a < b < order.len() ==> keys[#[trigger] order[a]] > keys[#[trigger] order[b]] || (
        keys[order[a]] == keys[order[b]] && order[a] < order[b])
    &&& forall|i: int| from <= i < keys.len() ==> order.contains(i)
}

/// `slot` lies inside `order`; every key before it is above `key`, and the
/// key at it is not.
pub proof fn lemma_slot(keys: Seq<i32>, order: Seq<int>, key: i32, p: int)
    requires
        0 <= p <= order.len(),
    ensures
        p <= slot(keys, order, key, p) <= order.len(),
        forall|a: int| p <= a < slot(keys, order, key, p) ==> keys[#[trigger] order[a]] > key,
        slot(keys, order, key, p) < order.len() ==> keys[order[slot(keys, order, key, p)]] <= key,
    decreases order.len() - p,
{
    if p < order.len() && keys[order[p]] > key {
        lemma_slot(keys, order, key, p + 1);
    }
}

/// The order is a permutation, sorted and stable: it lists every index
/// once, greater keys come first, and of two equal keys the one given
/// first comes first.
pub proof fn lemma_newest_first(keys: Seq<i32>, from: int)
    requires
        0 <= from <= keys.len(),
    ensures
        is_newest_first(keys, newest_first_from(keys, from), from),
    decreases keys.len() - from,
{
    if from < keys.len() {
        let rest = newest_first_from(keys, from + 1);
        lemma_newest_first(keys, from + 1);
        let p = slot(keys, rest, keys[from], 0);
        lemma_slot(keys, rest, keys[from], 0);
        let order = rest.insert(p, from);
        assert forall|a: int, b: int| 0 <= a < b < order.len() implies keys[#[trigger] order[a]]
            > keys[#[trigger] order[b]] || (keys[order[a]] == keys[order[b]] && order[a]
            < order[b]) by {
            if b == p {
                assert(order[a] == rest[a]);
            } else if a == p {
                assert(order[b] == rest[b - 1]);
                if p < b - 1 {
                    assert(keys[rest[p]] > keys[rest[b - 1]] || (keys[rest[p]] == keys[rest[b - 1]]
                        && rest[p] < rest[b - 1]));
                }
            } else {
                let ra = if a < p {
                    a
                } else {
                    a - 1
                };
                let rb = if b < p {
                    b
                } else {
                    b - 1
                };
                assert(order[a] == rest[ra]);
                assert(order[b] == rest[rb]);
            }
        }
        assert forall|i: int| from <= i < keys.len() implies order.contains(i) by {
            if i == from {
                assert(order[p] == from);
            } else {
                assert(rest.contains(i));
                let r = choose|r: int| 0 <= r < rest.len() && rest[r] == i;
                if r < p {
                    assert(order[r] == i);
                } else {
                    assert(order[r + 1] == i);
                }
            }
        }
        assert forall|a: int| 0 <= a < order.len() implies from <= #[trigger] order[a] < keys.len() by {
            if a < p {
                assert(order[a] == rest[a]);
            } else if a > p {
                assert(order[a] == rest[a - 1]);
            }
        }
    }
}

/// First position in `keys` whose key is not above `key`.
fn find_slot(keys: &Vec<i32>, key: i32) -> (p: usize)
    ensures
        p <= keys.len(),
        forall|a: int| 0 <= a < p ==> keys@[a] > key,
        p < keys.len() ==> keys@[p as int] <= key,
{
    let mut p: usize = 0;
    while p < keys.len() && keys[p] > key
        invariant
            p <= keys.len(),
            forall|a: int| 0 <= a < p ==> keys@[a] > key,
        decreases keys.len() - p,
    {
        p += 1;
    }
    p
}

/// `slot` is the first position whose key is not above `key`.
proof fn lemma_slot_is(keys: Seq<i32>, order: Seq<int>, key: i32, start: int, p: int)
    requires
        0 <= start <= p <= order.len(),
        forall|a: int| start <= a < p ==> keys[#[trigger] order[a]] > key,
        p < order.len() ==> keys[order[p]] <= key,
    ensures
        slot(keys, order, key, start) == p,
    decreases p - start,
{
    if start < p {
        assert(keys[order[start]] > key);
        lemma_slot_is(keys, order, key, start + 1, p);
    }
}

/// Puts the items in order by their keys, greatest key first. Items with
/// equal keys stay in the order in which they were given.
pub fn sort_newest_first<T>(items: Vec<T>, keys: &Vec<i32>) -> (sorted: Vec<T>)
    requires
        items.len() == keys.len(),
    ensures
        sorted@ == arranged(items@, newest_first(keys@)),
        is_newest_first(keys@, newest_first(keys@), 0),
        sorted.len() == items.len(),
{
    let ghost given = items@;
    let ghost n = items.len() as int;
    let mut rest = items;
    let mut sorted: Vec<T> = Vec::new();
    let mut sorted_keys: Vec<i32> = Vec::new();
    let ghost mut order: Seq<int> = Seq::empty();
    while rest.len() > 0
        invariant
            n == keys.len(),
            n == given.len(),
            rest.len() <= n,
            forall|i: int| 0 <= i < rest.len() ==> #[trigger] rest@[i] == given[i],
            order == newest_first_from(keys@, rest.len() as int),
            is_newest_first(keys@, order, rest.len() as int),
            sorted.len() == order.len(),
            sorted_keys.len() == order.len(),
            forall|j: int| 0 <= j < order.len() ==> #[trigger] sorted@[j] == given[order[j]],
            forall|j: int| 0 <= j < order.len() ==> #[trigger] sorted_keys@[j] == keys@[order[j]],
        decreases rest.len(),
    {
        let i: usize = rest.len() - 1;
        let key = keys[i];
        let p = find_slot(&sorted_keys, key);
        let ghost before = order;
        proof {
            assert forall|a: int| 0 <= a < p implies keys@[#[trigger] before[a]] > key by {
                assert(sorted_keys@[a] == keys@[before[a]]);
            }
            if p < before.len() {
                assert(sorted_keys@[p as int] == keys@[before[p as int]]);
            }
            lemma_slot_is(keys@, before, key, 0, p as int);
            lemma_newest_first(keys@, i as int);
            order = before.insert(p as int, i as int);
        }
        match rest.pop() {
            Some(item) => {
                sorted.insert(p, item);
                sorted_keys.insert(p, key);
            },
            None => {},
        }
        assert forall|j: int| 0 <= j < order.len() implies #[trigger] sorted@[j] == given[order[j]] by {
            if j < p {
                assert(order[j] == before[j]);
            } else if j > p {
                assert(order[j] == before[j - 1]);
            }
        }
        assert forall|j: int| 0 <= j < order.len() implies #[trigger] sorted_keys@[j] == keys@[order[j]] by {
            if j < p {
                assert(order[j] == before[j]);
            } else if j > p {
                assert(order[j] == before[j - 1]);
            }
        }
    }
    assert(sorted@ =~= arranged(given, order));
    proof {
        lemma_newest_first(keys@, 0);
    }
    sorted
}

} // verus!
