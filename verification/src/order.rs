//! A stable sort: the order of equal keys is the order they came in.

use vstd::prelude::*;

verus! {

/// An item with the key it is sorted by.
pub struct Keyed<T> {
    pub key: u64,
    pub item: T,
}

/// `order` lists the positions `0 .. keys.len()`, each once, by rising key, and
/// by rising position where keys are equal.
pub open spec fn is_stable_order(keys: Seq<u64>, order: Seq<int>) -> bool {
    &&& order.len() == keys.len()
    &&& forall|i: int| 0 <= i < order.len() ==> 0 <= #[trigger] order[i] < keys.len()
    &&& forall|k: int| 0 <= k < keys.len() ==> #[trigger] order.contains(k)
    &&& forall|i: int, j: int|
        0 <= i < j < order.len() ==> stands_before(keys, #[trigger] order[i], #[trigger] order[j])
}

/// Position `a` comes before position `b` in a stable sort.
pub open spec fn stands_before(keys: Seq<u64>, a: int, b: int) -> bool {
    keys[a] < keys[b] || (keys[a] == keys[b] && a < b)
}

pub open spec fn keys_of<T>(items: Seq<Keyed<T>>) -> Seq<u64> {
    Seq::new(items.len(), |i: int| items[i].key)
}

/// The items of `items` in the given order.
pub open spec fn arranged<T>(items: Seq<T>, order: Seq<int>) -> Seq<T> {
    Seq::new(order.len(), |i: int| items[order[i]])
}

/// First position of `sorted` whose key is at least `key`.
fn lower_bound<T>(sorted: &Vec<Keyed<T>>, key: u64) -> (pos: usize)
    requires
        forall|i: int, j: int| 0 <= i < j < sorted@.len() ==> sorted@[i].key <= sorted@[j].key,
    ensures
        pos <= sorted@.len(),
        forall|i: int| 0 <= i < pos ==> sorted@[i].key < key,
        forall|i: int| pos <= i < sorted@.len() ==> sorted@[i].key >= key,
{
    let mut lo: usize = 0;
    let mut hi: usize = sorted.len();
    while lo < hi
        invariant
            lo <= hi <= sorted@.len(),
            forall|i: int| 0 <= i < lo ==> sorted@[i].key < key,
            forall|i: int| hi <= i < sorted@.len() ==> sorted@[i].key >= key,
            forall|i: int, j: int| 0 <= i < j < sorted@.len() ==> sorted@[i].key <= sorted@[j].key,
        decreases hi - lo,
    {
        let mid: usize = lo + (hi - lo) / 2;
        if sorted[mid].key < key {
            lo = mid + 1;
        } else {
            hi = mid;
        }
    }
    lo
}

/// Sort by key, keeping the order of equal keys.
pub fn stable_sort<T>(items: Vec<Keyed<T>>) -> (sorted: Vec<Keyed<T>>)
    ensures
        exists|order: Seq<int>|
            is_stable_order(keys_of(items@), order) && sorted@ == arranged(items@, order),
{
    let ghost all = items@;
    let ghost keys = keys_of(all);
    let mut rest = items;
    let mut out: Vec<Keyed<T>> = Vec::new();
    let ghost mut order: Seq<int> = Seq::empty();
    while rest.len() > 0
        invariant
            rest@.len() <= all.len(),
            rest@ == all.take(rest@.len() as int),
            keys == keys_of(all),
            out@ == arranged(all, order),
            order.len() == all.len() - rest@.len(),
            forall|i: int|
                0 <= i < order.len() ==> rest@.len() <= #[trigger] order[i] < all.len(),
            forall|k: int| rest@.len() <= k < all.len() ==> #[trigger] order.contains(k),
            forall|i: int, j: int|
                0 <= i < j < order.len() ==> stands_before(
                    keys,
                    #[trigger] order[i],
                    #[trigger] order[j],
                ),
        decreases rest@.len(),
    {
        let ghost before = order;
        let ghost n = rest@.len() as int;
        let next = rest.pop();
        match next {
            None => {},
            Some(x) => {
                assert(x == all[n - 1]);
                assert(keys[n - 1] == x.key);
                assert forall|i: int, j: int| 0 <= i < j < out@.len() implies out@[i].key
                    <= out@[j].key by {
                    assert(stands_before(keys, order[i], order[j]));
                }
                let pos: usize = lower_bound(&out, x.key);
                let ghost old_out = out@;
                out.insert(pos, x);
                proof {
                    order = before.insert(pos as int, n - 1);
                    assert forall|k: int| n - 1 <= k < all.len() implies #[trigger] order.contains(
                        k,
                    ) by {
                        if k == n - 1 {
                            assert(order[pos as int] == k);
                        } else {
                            assert(before.contains(k));
                            let i = choose|i: int| 0 <= i < before.len() && before[i] == k;
                            if i < pos {
                                assert(order[i] == k);
                            } else {
                                assert(order[i + 1] == k);
                            }
                        }
                    }
                    assert forall|i: int, j: int| 0 <= i < j < order.len() implies stands_before(
                        keys,
                        #[trigger] order[i],
                        #[trigger] order[j],
                    ) by {
                        let oi = if i < pos { i } else { i - 1 };
                        let oj = if j < pos { j } else { j - 1 };
                        if i == pos {
                            assert(order[j] == before[j - 1]);
                            assert(old_out[j - 1].key == keys[before[j - 1]]);
                        } else if j == pos {
                            assert(order[i] == before[i]);
                            assert(old_out[i].key == keys[before[i]]);
                        } else {
                            assert(order[i] == before[oi]);
                            assert(order[j] == before[oj]);
                        }
                    }
                    assert(out@ =~= arranged(all, order));
                }
            },
        }
    }
    proof {
        assert(is_stable_order(keys, order));
    }
    out
}

/// There is one stable order only, so a sorted result is fixed by what was
/// sorted.
pub proof fn stable_order_is_unique(keys: Seq<u64>, a: Seq<int>, b: Seq<int>)
    requires
        is_stable_order(keys, a),
        is_stable_order(keys, b),
    ensures
        a == b,
{
    lemma_same_prefix(keys, a, b, keys.len() as int);
    assert(a =~= b);
}

proof fn lemma_same_prefix(keys: Seq<u64>, a: Seq<int>, b: Seq<int>, n: int)
    requires
        is_stable_order(keys, a),
        is_stable_order(keys, b),
        0 <= n <= keys.len(),
    ensures
        forall|i: int| 0 <= i < n ==> a[i] == b[i],
    decreases n,
{
    if n > 0 {
        let k = n - 1;
        lemma_same_prefix(keys, a, b, k);
        if a[k] != b[k] {
            assert(b.contains(a[k]));
            let j = choose|j: int| 0 <= j < b.len() && b[j] == a[k];
            assert(a.contains(b[k]));
            let i = choose|i: int| 0 <= i < a.len() && a[i] == b[k];
            if j < k {
                assert(a[j] == a[k]);
                assert(stands_before(keys, a[j], a[k]));
            }
            if i < k {
                assert(b[i] == b[k]);
                assert(stands_before(keys, b[i], b[k]));
            }
            assert(stands_before(keys, b[k], b[j]));
            assert(stands_before(keys, a[k], a[i]));
        }
    }
}

/// What is sorted rises, keeps the order of equal keys, and is all of what was there,
/// each once.
pub proof fn sorted_keys_rise(keys: Seq<u64>, order: Seq<int>, i: int, j: int, k: int)
    requires
        is_stable_order(keys, order),
        0 <= i < j < order.len(),
        0 <= k < keys.len(),
    ensures
        order.len() == keys.len(),
        keys[order[i]] <= keys[order[j]],
        keys[order[i]] == keys[order[j]] ==> order[i] < order[j],
        order[i] != order[j],
        exists|a: int| 0 <= a < order.len() && #[trigger] order[a] == k,
{
    assert(stands_before(keys, order[i], order[j]));
    assert(order.contains(k));
}

/// Arranging puts at each position the item that the order names there, under its own
/// key.
pub proof fn items_keep_their_keys<T>(items: Seq<Keyed<T>>, order: Seq<int>, i: int)
    requires
        is_stable_order(keys_of(items), order),
        0 <= i < order.len(),
    ensures
        arranged(items, order).len() == items.len(),
        arranged(items, order)[i] == items[order[i]],
        keys_of(items)[order[i]] == items[order[i]].key,
{
    assert(0 <= order[i] < items.len());
}

} // verus!
