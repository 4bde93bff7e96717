//! Stable ordering by a numeric key.
//!
//! Records are never compared or moved while they are ordered: the keys are
//! ordered, and what comes out is the list of positions, smallest key first,
//! equal keys in the order in which they came.

use vstd::prelude::*;

verus! {

/// Where the next position goes in a list of positions already in order: behind
/// the last one whose key is not greater than `key`.
pub open spec fn insert_position(order: Seq<int>, keys: Seq<u32>, key: u32) -> int
    decreases order.len(),
{
    if order.len() == 0 {
        0
    } else if keys[order.last()] <= key {
        order.len() as int
    } else {
        insert_position(order.drop_last(), keys, key)
    }
}

/// The positions `0 .. keys.len()` by ascending key, positions with equal keys
/// ascending.
pub open spec fn stable_order(keys: Seq<u32>) -> Seq<int>
    decreases keys.len(),
{
    if keys.len() == 0 {
        Seq::<int>::empty()
    } else {
        let before = stable_order(keys.drop_last());
        before.insert(insert_position(before, keys, keys.last()), keys.len() - 1)
    }
}

/// Whether `order` lists positions of `keys` by ascending key, positions with
/// equal keys ascending.
pub open spec fn in_stable_order(order: Seq<int>, keys: Seq<u32>) -> bool {
    &&& forall|a: int| 0 <= a < order.len() ==> 0 <= #[trigger] order[a] < keys.len()
    &&& forall|a: int, b: int|
        0 <= a < b < order.len() ==> keys[#[trigger] order[a]] < keys[#[trigger] order[b]] || (
        keys[order[a]] == keys[order[b]] && order[a] < order[b])
}

/// Where a key is inserted, everything before it has a key that is not
/// greater, and everything from there on has a greater key.
pub proof fn lemma_insert_position(order: Seq<int>, keys: Seq<u32>, key: u32)
    requires
        in_stable_order(order, keys),
    ensures
        0 <= insert_position(order, keys, key) <= order.len(),
        forall|a: int|
            0 <= a < insert_position(order, keys, key) ==> keys[#[trigger] order[a]] <= key,
        forall|a: int|
            insert_position(order, keys, key) <= a < order.len() ==> keys[#[trigger] order[a]]
                > key,
    decreases order.len(),
{
    if order.len() == 0 {
    } else if keys[order.last()] <= key {
        assert forall|a: int| 0 <= a < order.len() implies keys[#[trigger] order[a]] <= key by {
            if a < order.len() - 1 {
                assert(keys[order[a]] <= keys[order[order.len() - 1]]);
            }
        }
    } else {
        let shorter = order.drop_last();
        assert(in_stable_order(shorter, keys)) by {
            assert forall|a: int| 0 <= a < shorter.len() implies 0 <= #[trigger] shorter[a]
                < keys.len() by {
                assert(shorter[a] == order[a]);
            }
            assert forall|a: int, b: int| 0 <= a < b < shorter.len() implies keys[#[trigger] shorter[a]]
                < keys[#[trigger] shorter[b]] || (keys[shorter[a]] == keys[shorter[b]]
                && shorter[a] < shorter[b]) by {
                assert(shorter[a] == order[a] && shorter[b] == order[b]);
            }
        }
        lemma_insert_position(shorter, keys, key);
        let p = insert_position(shorter, keys, key);
        assert forall|a: int| 0 <= a < p implies keys[#[trigger] order[a]] <= key by {
            assert(order[a] == shorter[a]);
        }
        assert forall|a: int| p <= a < order.len() implies keys[#[trigger] order[a]] > key by {
            if a < order.len() - 1 {
                assert(order[a] == shorter[a]);
            }
        }
    }
}

/// The stable order of a list of keys lists every position once, by ascending
/// key, and positions with equal keys ascending.
pub proof fn lemma_stable_order(keys: Seq<u32>)
    ensures
        stable_order(keys).len() == keys.len(),
        in_stable_order(stable_order(keys), keys),
        forall|i: int| 0 <= i < keys.len() ==> stable_order(keys).contains(i),
    decreases keys.len(),
{
    if keys.len() > 0 {
        let shorter = keys.drop_last();
        let before = stable_order(shorter);
        let last = keys.len() - 1;
        lemma_stable_order(shorter);
        assert(in_stable_order(before, keys)) by {
            assert forall|a: int, b: int| 0 <= a < b < before.len() implies keys[#[trigger] before[a]]
                < keys[#[trigger] before[b]] || (keys[before[a]] == keys[before[b]] && before[a]
                < before[b]) by {
                assert(0 <= before[a] < shorter.len() && 0 <= before[b] < shorter.len());
                assert(shorter[before[a]] == keys[before[a]]);
                assert(shorter[before[b]] == keys[before[b]]);
            }
        }
        lemma_insert_position(before, keys, keys.last());
        let p = insert_position(before, keys, keys.last());
        let order = before.insert(p, last);
        assert(order == stable_order(keys));
        assert forall|a: int| 0 <= a < order.len() implies 0 <= #[trigger] order[a]
            < keys.len() by {
            if a < p {
                assert(order[a] == before[a]);
            } else if a > p {
                assert(order[a] == before[a - 1]);
            }
        }
        assert forall|a: int, b: int| 0 <= a < b < order.len() implies keys[#[trigger] order[a]]
            < keys[#[trigger] order[b]] || (keys[order[a]] == keys[order[b]] && order[a]
            < order[b]) by {
            if b < p {
                assert(order[a] == before[a] && order[b] == before[b]);
            } else if b == p {
                assert(order[a] == before[a]);
                assert(before[a] < shorter.len());
            } else if a < p {
                assert(order[a] == before[a] && order[b] == before[b - 1]);
            } else if a == p {
                assert(order[b] == before[b - 1]);
            } else {
                assert(order[a] == before[a - 1] && order[b] == before[b - 1]);
            }
        }
        assert forall|i: int| 0 <= i < keys.len() implies order.contains(i) by {
            if i == last {
                assert(order[p] == i);
            } else {
                assert(before.contains(i));
                let a = choose|a: int| 0 <= a < before.len() && before[a] == i;
                if a < p {
                    assert(order[a] == i);
                } else {
                    assert(order[a + 1] == i);
                }
            }
        }
    }
}

/// The items at the given positions, in the order of the positions.
pub open spec fn arranged<T>(items: Seq<T>, order: Seq<int>) -> Seq<T> {
    Seq::new(order.len(), |k: int| items[order[k]])
}

/// Whether the keys of the items ascend strictly.
pub open spec fn ascending<T>(items: Seq<T>, key: spec_fn(T) -> u32) -> bool {
    forall|a: int, b: int|
        0 <= a < b < items.len() ==> key(#[trigger] items[a]) < key(#[trigger] items[b])
}

/// The keys of the items.
pub open spec fn keys_of<T>(items: Seq<T>, key: spec_fn(T) -> u32) -> Seq<u32> {
    Seq::new(items.len(), |k: int| key(items[k]))
}

/// Items in the stable order of their keys are the same items, by key not
/// descending; where no two items have the same key, strictly ascending.
pub proof fn lemma_arranged<T>(items: Seq<T>, key: spec_fn(T) -> u32)
    ensures
        arranged(items, stable_order(keys_of(items, key))).len() == items.len(),
        forall|e: T|
            arranged(items, stable_order(keys_of(items, key))).contains(e) <==> items.contains(e),
        forall|a: int, b: int|
            0 <= a < b < items.len() ==> key(
                #[trigger] arranged(items, stable_order(keys_of(items, key)))[a],
            ) <= key(#[trigger] arranged(items, stable_order(keys_of(items, key)))[b]),
        (forall|a: int, b: int|
            0 <= a < b < items.len() ==> key(#[trigger] items[a]) != key(#[trigger] items[b]))
            ==> ascending(arranged(items, stable_order(keys_of(items, key))), key),
{
    let keys = keys_of(items, key);
    let order = stable_order(keys);
    let out = arranged(items, order);
    lemma_stable_order(keys);
    assert forall|e: T| out.contains(e) <==> items.contains(e) by {
        if out.contains(e) {
            let a = choose|a: int| 0 <= a < out.len() && out[a] == e;
            assert(0 <= order[a] < keys.len());
            assert(items[order[a]] == e);
        }
        if items.contains(e) {
            let i = choose|i: int| 0 <= i < items.len() && items[i] == e;
            assert(order.contains(i));
            let a = choose|a: int| 0 <= a < order.len() && order[a] == i;
            assert(out[a] == e);
        }
    }
    assert forall|a: int, b: int| 0 <= a < b < items.len() implies key(#[trigger] out[a]) <= key(
        #[trigger] out[b],
    ) by {
        assert(0 <= order[a] < keys.len() && 0 <= order[b] < keys.len());
        assert(keys[order[a]] < keys[order[b]] || (keys[order[a]] == keys[order[b]] && order[a]
            < order[b]));
    }
    if forall|a: int, b: int|
        0 <= a < b < items.len() ==> key(#[trigger] items[a]) != key(#[trigger] items[b]) {
        assert forall|a: int, b: int| 0 <= a < b < out.len() implies key(#[trigger] out[a]) < key(
            #[trigger] out[b],
        ) by {
            assert(0 <= order[a] < keys.len() && 0 <= order[b] < keys.len());
            assert(keys[order[a]] < keys[order[b]] || (keys[order[a]] == keys[order[b]]
                && order[a] < order[b]));
            if order[a] < order[b] {
                assert(key(items[order[a]]) != key(items[order[b]]));
            } else if order[b] < order[a] {
                assert(key(items[order[b]]) != key(items[order[a]]));
            }
        }
    }
}

/// Two lists with strictly ascending keys that hold the same items are the
/// same list.
pub proof fn lemma_ascending_unique<T>(x: Seq<T>, y: Seq<T>, key: spec_fn(T) -> u32)
    requires
        ascending(x, key),
        ascending(y, key),
        forall|e: T| x.contains(e) <==> y.contains(e),
    ensures
        x == y,
    decreases x.len(),
{
    if x.len() == 0 {
        if y.len() > 0 {
            assert(y.contains(y[0]));
        }
        assert(x =~= y);
    } else if y.len() == 0 {
        assert(x.contains(x[0]));
    } else {
        let xl = x.last();
        let yl = y.last();
        assert(x.contains(xl));
        assert(y.contains(yl));
        let a = choose|a: int| 0 <= a < x.len() && x[a] == yl;
        let b = choose|b: int| 0 <= b < y.len() && y[b] == xl;
        if a < x.len() - 1 {
            assert(key(x[a]) < key(x[x.len() - 1]));
        }
        if b < y.len() - 1 {
            assert(key(y[b]) < key(y[y.len() - 1]));
        }
        assert(key(xl) == key(yl));
        assert(xl == yl);
        let xs = x.drop_last();
        let ys = y.drop_last();
        assert forall|e: T| xs.contains(e) <==> ys.contains(e) by {
            if xs.contains(e) {
                let c = choose|c: int| 0 <= c < xs.len() && xs[c] == e;
                assert(x[c] == e);
                assert(key(x[c]) < key(x[x.len() - 1]));
                assert(x.contains(e));
                let d = choose|d: int| 0 <= d < y.len() && y[d] == e;
                assert(d < y.len() - 1);
                assert(ys[d] == e);
            }
            if ys.contains(e) {
                let c = choose|c: int| 0 <= c < ys.len() && ys[c] == e;
                assert(y[c] == e);
                assert(key(y[c]) < key(y[y.len() - 1]));
                assert(y.contains(e));
                let d = choose|d: int| 0 <= d < x.len() && x[d] == e;
                assert(d < x.len() - 1);
                assert(xs[d] == e);
            }
        }
        assert(ascending(xs, key)) by {
            assert forall|a: int, b: int| 0 <= a < b < xs.len() implies key(#[trigger] xs[a])
                < key(#[trigger] xs[b]) by {
                assert(xs[a] == x[a] && xs[b] == x[b]);
            }
        }
        assert(ascending(ys, key)) by {
            assert forall|a: int, b: int| 0 <= a < b < ys.len() implies key(#[trigger] ys[a])
                < key(#[trigger] ys[b]) by {
                assert(ys[a] == y[a] && ys[b] == y[b]);
            }
        }
        lemma_ascending_unique(xs, ys, key);
        assert(x =~= xs.push(xl));
        assert(y =~= ys.push(yl));
    }
}

/// The positions as mathematical integers.
pub open spec fn positions(order: Seq<usize>) -> Seq<int> {
    Seq::new(order.len(), |k: int| order[k] as int)
}

/// Orders the positions of `keys` by ascending key, positions with equal keys
/// ascending.
pub fn order_by_key(keys: &Vec<u32>) -> (order: Vec<usize>)
    ensures
        positions(order@) == stable_order(keys@),
        order.len() == keys.len(),
        forall|k: int| 0 <= k < order.len() ==> order[k] < keys.len(),
{
    let mut order: Vec<usize> = Vec::new();
    let mut n: usize = 0;
    assert(keys@.take(0) =~= Seq::<u32>::empty());
    assert(positions(order@) =~= stable_order(keys@.take(0)));
    while n < keys.len()
        invariant
            n <= keys.len(),
            order.len() == n,
            positions(order@) == stable_order(keys@.take(n as int)),
            forall|k: int| 0 <= k < order.len() ==> order[k] < n,
        decreases keys.len() - n,
    {
        let key = keys[n];
        let ghost before = positions(order@);
        let ghost grown = keys@.take(n + 1);
        proof {
            assert(grown.drop_last() =~= keys@.take(n as int));
            assert(grown.last() == key);
        }
        let mut p: usize = order.len();
        assert(before.take(p as int) =~= before);
        while p > 0 && keys[order[p - 1]] > key
            invariant
                p <= order.len(),
                order.len() == n,
                n < keys.len(),
                key == keys[n as int],
                grown == keys@.take(n + 1),
                before == positions(order@),
                forall|k: int| 0 <= k < order.len() ==> order[k] < n,
                insert_position(before, grown, key) == insert_position(
                    before.take(p as int),
                    grown,
                    key,
                ),
            decreases p,
        {
            proof {
                let head = before.take(p as int);
                assert(head.last() == order[p - 1] as int);
                assert(grown[head.last()] == keys[order[p - 1] as int]);
                assert(head.drop_last() =~= before.take(p - 1));
            }
            p = p - 1;
        }
        proof {
            let head = before.take(p as int);
            if p > 0 {
                assert(head.last() == order[p - 1] as int);
                assert(grown[head.last()] == keys[order[p - 1] as int]);
            }
            assert(insert_position(before, grown, key) == p);
        }
        order.insert(p, n);
        proof {
            assert(positions(order@) =~= before.insert(p as int, n as int));
        }
        n = n + 1;
    }
    assert(keys@.take(keys.len() as int) =~= keys@);
    order
}

} // verus!
