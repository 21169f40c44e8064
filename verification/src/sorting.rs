//! A stable order by time.

use vstd::prelude::*;

verus! {

/// `order` lists all positions of `times` by rising time, equal times in their old order.
pub open spec fn is_stable_order(times: Seq<i64>, order: Seq<usize>) -> bool {
    &&& order.len() == times.len()
    &&& order.no_duplicates()
    &&& in_order(times, order)
}

/// The listed positions exist and come by rising time, equal times in their old order.
pub open spec fn in_order(times: Seq<i64>, order: Seq<usize>) -> bool {
    &&& forall|i: int| 0 <= i < order.len() ==> #[trigger] order[i] < times.len()
    &&& forall|i: int, j: int|
        0 <= i < j < order.len() ==> comes_before(times, #[trigger] order[i], #[trigger] order[j])
}

pub open spec fn comes_before(times: Seq<i64>, a: usize, b: usize) -> bool {
    times[a as int] < times[b as int] || (times[a as int] == times[b as int] && a < b)
}

/// The positions of `times` by rising time, equal times in their old order.
pub fn stable_order(times: &Vec<i64>) -> (r: Vec<usize>)
    ensures
        is_stable_order(times@, r@),
{
    let mut order: Vec<usize> = Vec::new();
    for n in 0..times.len()
        invariant
            order@.len() == n,
            in_order(times@, order@),
            forall|i: int| 0 <= i < n ==> #[trigger] order@[i] < n,
    {
        let ghost before = order@;
        let mut at: usize = n;
        while at > 0 && times[order[at - 1]] > times[n]
            invariant
                at <= n < times@.len(),
                order@ == before,
                before.len() == n,
                in_order(times@, before),
                forall|i: int| at <= i < n ==> times@[#[trigger] before[i] as int] > times@[n as int],
            decreases at,
        {
            at = at - 1;
        }
        order.insert(at, n);
        proof {
            let after = order@;
            assert(after =~= before.insert(at as int, n));
            assert forall|i: int, j: int| 0 <= i < j < after.len() implies comes_before(
                times@,
                #[trigger] after[i],
                #[trigger] after[j],
            ) by {
                let i2 = if i < at {
                    i
                } else {
                    i - 1
                };
                let j2 = if j < at {
                    j
                } else {
                    j - 1
                };
                if i == at {
                    assert(after[j] == before[j2]);
                } else if j == at {
                    assert(after[i] == before[i2]);
                    if i2 < at - 1 {
                        assert(comes_before(times@, before[i2], before[at - 1]));
                    }
                } else {
                    assert(comes_before(times@, before[i2], before[j2]));
                }
            }
        }
    }
    assert forall|i: int, j: int| 0 <= i < order@.len() && 0 <= j < order@.len() && i
        != j implies order@[i] != order@[j] by {
        if i < j {
            assert(comes_before(times@, order@[i], order@[j]));
        } else {
            assert(comes_before(times@, order@[j], order@[i]));
        }
    }
    order
}

/// A stable order leaves out no position.
pub proof fn law_order_is_complete(times: Seq<i64>, order: Seq<usize>, p: usize)
    requires
        is_stable_order(times, order),
        p < times.len(),
    ensures
        order.contains(p),
{
    if !order.contains(p) {
        let all = vstd::set_lib::set_int_range(0, times.len() as int);
        let listed = order.map_values(|x: usize| x as int);
        vstd::set_lib::lemma_int_range(0, times.len() as int);
        assert(listed.no_duplicates());
        listed.unique_seq_to_set();
        assert(listed.to_set().subset_of(all.remove(p as int))) by {
            assert forall|x: int| listed.to_set().contains(x) implies all.remove(
                p as int,
            ).contains(x) by {
                let i = choose|i: int| 0 <= i < listed.len() && listed[i] == x;
                assert(order[i] < times.len());
                assert(order[i] != p);
            }
        }
        vstd::set_lib::lemma_len_subset(listed.to_set(), all.remove(p as int));
        assert(false);
    }
}

} // verus!
