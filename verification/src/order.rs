use vstd::prelude::*;

verus! {

/// Where a new entry with the key `key` goes into `order`, which holds
/// positions in `keys` by rising key: behind all entries whose key is
/// not greater.
pub open spec fn rank(order: Seq<int>, keys: Seq<u32>, key: u32) -> int
    decreases order.len(),
{
    if order.len() == 0 {
        0
    } else if keys[order.last()] > key {
        rank(order.drop_last(), keys, key)
    } else {
        order.len() as int
    }
}

/// The positions in `keys` in the order of their keys, smallest first;
/// of two positions with the same key the one that comes first in
/// `keys` stays first.
pub open spec fn stable_order(keys: Seq<u32>) -> Seq<int>
    decreases keys.len(),
{
    if keys.len() == 0 {
        Seq::empty()
    } else {
        let before = stable_order(keys.drop_last());
        before.insert(rank(before, keys, keys.last()), keys.len() - 1)
    }
}

/// Whether `order` holds each position of `keys` once.
pub open spec fn is_arrangement(order: Seq<int>, n: int) -> bool {
    &&& order.len() == n
    &&& forall|a: int| 0 <= a < n ==> 0 <= #[trigger] order[a] < n
    &&& forall|a: int, b: int| 0 <= a < b < n ==> #[trigger] order[a] != #[trigger] order[b]
}

/// Whether `order` goes by rising key, and by rising position where two
/// keys are the same.
pub open spec fn is_stably_sorted(order: Seq<int>, keys: Seq<u32>) -> bool {
    forall|a: int, b: int|
        0 <= a < b < order.len() ==> keys[#[trigger] order[a]] < keys[#[trigger] order[b]] || (
        keys[order[a]] == keys[order[b]] && order[a] < order[b])
}

pub proof fn lemma_rank(order: Seq<int>, keys: Seq<u32>, key: u32)
    ensures
        0 <= rank(order, keys, key) <= order.len(),
        forall|a: int| rank(order, keys, key) <= a < order.len() ==> keys[#[trigger] order[a]] > key,
        rank(order, keys, key) > 0 ==> keys[order[rank(order, keys, key) - 1]] <= key,
    decreases order.len(),
{
    if order.len() > 0 && keys[order.last()] > key {
        lemma_rank(order.drop_last(), keys, key);
        assert forall|a: int| rank(order, keys, key) <= a < order.len() implies keys[#[trigger] order[a]]
            > key by {
            if a < order.len() - 1 {
                assert(order.drop_last()[a] == order[a]);
            }
        }
        if rank(order, keys, key) > 0 {
            assert(order.drop_last()[rank(order, keys, key) - 1] == order[rank(order, keys, key)
                - 1]);
        }
    }
}

/// The order of the keys holds each position once, and goes by rising
/// key; positions with the same key keep their order.
pub proof fn lemma_stable_order(keys: Seq<u32>)
    ensures
        is_arrangement(stable_order(keys), keys.len() as int),
        is_stably_sorted(stable_order(keys), keys),
    decreases keys.len(),
{
    if keys.len() > 0 {
        let n = keys.len() as int;
        let shorter = keys.drop_last();
        let before = stable_order(shorter);
        let key = keys.last();
        let p = rank(before, keys, key);
        let order = stable_order(keys);
        lemma_stable_order(shorter);
        lemma_rank(before, keys, key);
        assert(order == before.insert(p, n - 1));
        assert forall|a: int| 0 <= a < n implies 0 <= #[trigger] order[a] < n by {
            if a < p {
                assert(order[a] == before[a]);
            } else if a > p {
                assert(order[a] == before[a - 1]);
            }
        }
        assert forall|a: int, b: int| 0 <= a < b < n implies #[trigger] order[a] != #[trigger] order[b]
            && (keys[order[a]] < keys[order[b]] || (keys[order[a]] == keys[order[b]] && order[a]
            < order[b])) by {
            let ia = if a < p {
                a
            } else {
                a - 1
            };
            let ib = if b < p {
                b
            } else {
                b - 1
            };
            if a != p {
                assert(order[a] == before[ia]);
                assert(0 <= before[ia] < n - 1);
                assert(keys[before[ia]] == shorter[before[ia]]);
            }
            if b != p {
                assert(order[b] == before[ib]);
                assert(0 <= before[ib] < n - 1);
                assert(keys[before[ib]] == shorter[before[ib]]);
            }
            if a == p {
                assert(order[a] == n - 1);
                assert(p <= ib < before.len());
            } else if b == p {
                assert(order[b] == n - 1);
                // Everything before the place of the new entry has a key
                // that is not greater.
                if p > 0 && ia < p - 1 {
                    assert(keys[before[ia]] < keys[before[p - 1]] || (keys[before[ia]]
                        == keys[before[p - 1]] && before[ia] < before[p - 1]));
                    assert(keys[before[p - 1]] == shorter[before[p - 1]]);
                }
            } else {
                assert(0 <= ia < ib < n - 1);
            }
        }
    }
}

/// The positions of `keys` as whole numbers.
pub open spec fn positions(order: Seq<usize>) -> Seq<int> {
    Seq::new(order.len(), |i: int| order[i] as int)
}

/// Puts the positions of `keys` in the order of their keys.
pub fn sort_positions(keys: &Vec<u32>) -> (order: Vec<usize>)
    ensures
        positions(order@) == stable_order(keys@),
        order@.len() == keys@.len(),
        forall|a: int| 0 <= a < order@.len() ==> order@[a] < keys@.len(),
{
    let mut order: Vec<usize> = Vec::new();
    let mut next: usize = 0;
    proof {
        assert(positions(order@) =~= stable_order(keys@.take(0)));
    }
    while next < keys.len()
        invariant
            next <= keys.len(),
            order@.len() == next,
            forall|a: int| 0 <= a < order@.len() ==> order@[a] < next,
            positions(order@) == stable_order(keys@.take(next as int)),
        decreases keys.len() - next,
    {
        let key = keys[next];
        let ghost prefix = keys@.take(next + 1);
        let ghost before = positions(order@);
        let mut p: usize = order.len();
        proof {
            assert(before.take(p as int) =~= before);
        }
        while p > 0 && keys[order[p - 1]] > key
            invariant
                p <= order@.len(),
                order@.len() == next,
                next < keys.len(),
                key == keys@[next as int],
                prefix == keys@.take(next + 1),
                before == positions(order@),
                forall|a: int| 0 <= a < order@.len() ==> order@[a] < next,
                rank(before, prefix, key) == rank(before.take(p as int), prefix, key),
            decreases p,
        {
            proof {
                assert(before.take(p as int).drop_last() =~= before.take(p - 1));
                assert(before.take(p as int).last() == order@[p - 1] as int);
                assert(prefix[order@[p - 1] as int] == keys@[order@[p - 1] as int]);
            }
            p -= 1;
        }
        proof {
            assert(before.take(order@.len() as int) =~= before);
            if p > 0 {
                assert(before.take(p as int).last() == order@[p - 1] as int);
                assert(prefix[order@[p - 1] as int] == keys@[order@[p - 1] as int]);
            }
            assert(rank(before, prefix, key) == p);
            assert(prefix.drop_last() =~= keys@.take(next as int));
            assert(prefix.last() == key);
            assert(positions(order@.insert(p as int, next)) =~= before.insert(
                p as int,
                next as int,
            ));
        }
        order.insert(p, next);
        next += 1;
    }
    proof {
        assert(keys@.take(keys.len() as int) =~= keys@);
    }
    order
}

} // verus!
