//! The history of snapshots: those in memory together with those in the store.

use crate::simulation::freeze::{FreezeSnapshot, FreezeTrigger};
use crate::simulation::state::MeterState;
use crate::sorting::{is_stable_order, law_order_is_complete, stable_order};
use vstd::prelude::*;

verus! {

/// How many snapshots of the store are looked at.
pub const STORED_HISTORY: u32 = 500;

/// What identifies a snapshot. Its number is 1 for the newest one in memory; numbers in the
/// store follow another rule, so that snapshots are told apart by trigger and time.
#[derive(Debug, Clone, Copy, PartialEq, Eq, Structural)]
pub struct HistoryKey {
    pub trigger: u8,
    pub occurrence: u8,
    pub time_ms: i64,
}

/// The same snapshot: same trigger, same time.
pub open spec fn same_snapshot(a: HistoryKey, b: HistoryKey) -> bool {
    a.trigger == b.trigger && a.time_ms == b.time_ms
}

/// The first entry for its snapshot.
pub open spec fn first_of_its_kind(keys: Seq<HistoryKey>, i: int) -> bool {
    &&& 0 <= i < keys.len()
    &&& forall|j: int| 0 <= j < i ==> !same_snapshot(#[trigger] keys[j], keys[i])
}

/// The triggers in the order of the history.
pub open spec fn history_triggers() -> Seq<FreezeTrigger> {
    seq![
        FreezeTrigger::Timed,
        FreezeTrigger::Instant,
        FreezeTrigger::TimeZoneSwitch,
        FreezeTrigger::DayTableSwitch,
        FreezeTrigger::Hourly,
        FreezeTrigger::Daily,
        FreezeTrigger::LadderSwitch,
    ]
}

/// The keys of the snapshots of one trigger, the newest first.
pub open spec fn trigger_keys(trigger: FreezeTrigger, snapshots: Seq<FreezeSnapshot>) -> Seq<
    HistoryKey,
> {
    Seq::new(
        snapshots.len(),
        |i: int|
            HistoryKey {
                trigger: trigger.di2(),
                occurrence: ((i + 1) % 256) as u8,
                time_ms: (snapshots[i].snapshot_time.total_nanos() / 1_000_000) as i64,
            },
    )
}

/// The keys of the snapshots of the first `n` triggers.
pub open spec fn memory_keys(s: MeterState, n: nat) -> Seq<HistoryKey>
    decreases n,
{
    if n == 0 || n > 7 {
        seq![]
    } else {
        memory_keys(s, (n - 1) as nat) + trigger_keys(
            history_triggers()[n - 1],
            s.snapshots(history_triggers()[n - 1]),
        )
    }
}

fn push_keys(out: &mut Vec<HistoryKey>, state: &MeterState, trigger: FreezeTrigger)
    ensures
        final(out)@ == old(out)@ + trigger_keys(trigger, state.snapshots(trigger)),
{
    let snapshots = state.get_all_freeze_snapshots(trigger);
    let ghost all = trigger_keys(trigger, state.snapshots(trigger));
    let ghost before = out@;
    for i in 0..snapshots.len()
        invariant
            out@ == before + all.take(i as int),
            all == trigger_keys(trigger, state.snapshots(trigger)),
            snapshots@.len() == state.snapshots(trigger).len(),
            forall|i: int|
                0 <= i < snapshots@.len() ==> *(#[trigger] snapshots@[i]) == state.snapshots(
                    trigger,
                )[i],
    {
        let snapshot: &FreezeSnapshot = snapshots[i];
        out.push(
            HistoryKey {
                trigger: trigger.to_di2(),
                occurrence: ((i + 1) % 256) as u8,
                time_ms: snapshot.snapshot_time.timestamp_millis(),
            },
        );
        assert(out@ =~= before + all.take(i + 1));
    }
    assert(all.take(all.len() as int) =~= all);
}

/// The keys of all snapshots in memory, trigger by trigger, the newest first.
pub fn memory_history(state: &MeterState) -> (r: Vec<HistoryKey>)
    ensures
        r@ == memory_keys(*state, 7),
{
    let mut out: Vec<HistoryKey> = Vec::new();
    proof {
        reveal_with_fuel(memory_keys, 8);
    }
    push_keys(&mut out, state, FreezeTrigger::Timed);
    push_keys(&mut out, state, FreezeTrigger::Instant);
    push_keys(&mut out, state, FreezeTrigger::TimeZoneSwitch);
    push_keys(&mut out, state, FreezeTrigger::DayTableSwitch);
    push_keys(&mut out, state, FreezeTrigger::Hourly);
    push_keys(&mut out, state, FreezeTrigger::Daily);
    push_keys(&mut out, state, FreezeTrigger::LadderSwitch);
    assert(out@ =~= memory_keys(*state, 7));
    out
}

/// `shown` are the positions in `keys` of the merged history: each snapshot once, at its first
/// entry, the newest first, snapshots of the same time in the order of their entries.
pub open spec fn history_merged(keys: Seq<HistoryKey>, shown: Seq<usize>) -> bool {
    &&& forall|p: usize| #[trigger] shown.contains(p) <==> first_of_its_kind(keys, p as int)
    &&& forall|i: int, j: int|
        0 <= i < j < shown.len() ==> shown_before(keys, #[trigger] shown[i], #[trigger] shown[j])
}

pub open spec fn shown_before(keys: Seq<HistoryKey>, a: usize, b: usize) -> bool {
    let (ta, tb) = (keys[a as int].time_ms, keys[b as int].time_ms);
    ta > tb || (ta == tb && a < b)
}

/// Positions of the first entries for each snapshot.
fn first_entries(keys: &Vec<HistoryKey>) -> (r: Vec<usize>)
    ensures
        forall|p: usize| #[trigger] r@.contains(p) <==> first_of_its_kind(keys@, p as int),
        forall|i: int, j: int| 0 <= i < j < r@.len() ==> r@[i] < r@[j],
{
    let mut kept: Vec<usize> = Vec::new();
    for i in 0..keys.len()
        invariant
            forall|p: usize| #[trigger]
                kept@.contains(p) <==> p < i && first_of_its_kind(keys@, p as int),
            forall|i: int, j: int| 0 <= i < j < kept@.len() ==> kept@[i] < kept@[j],
            forall|j: int| 0 <= j < kept@.len() ==> #[trigger] kept@[j] < i,
    {
        let mut seen: bool = false;
        for j in 0..i
            invariant
                i < keys@.len(),
                seen == exists|k: int| 0 <= k < j && same_snapshot(#[trigger] keys@[k], keys@[i as int]),
        {
            if keys[j].trigger == keys[i].trigger && keys[j].time_ms == keys[i].time_ms {
                assert(same_snapshot(keys@[j as int], keys@[i as int]));
                seen = true;
            }
        }
        if !seen {
            let ghost before = kept@;
            kept.push(i);
            proof {
                assert(first_of_its_kind(keys@, i as int));
                assert forall|p: usize| #[trigger] kept@.contains(p) <==> p < i + 1
                    && first_of_its_kind(keys@, p as int) by {
                    if p == i {
                        assert(kept@[before.len() as int] == p);
                    } else if before.contains(p) {
                        let q = choose|q: int| 0 <= q < before.len() && before[q] == p;
                        assert(kept@[q] == p);
                    } else if kept@.contains(p) {
                        let q = choose|q: int| 0 <= q < kept@.len() && kept@[q] == p;
                        assert(before[q] == p);
                    }
                }
            }
        } else {
            assert(!first_of_its_kind(keys@, i as int));
        }
    }
    kept
}

/// Merges a history: the positions of the entries to show.
pub fn merge_history(keys: &Vec<HistoryKey>) -> (r: Vec<usize>)
    ensures
        history_merged(keys@, r@),
{
    let kept = first_entries(keys);
    let mut ages: Vec<i64> = Vec::new();
    for i in 0..kept.len()
        invariant
            forall|p: usize| #[trigger] kept@.contains(p) ==> p < keys@.len(),
            ages@.len() == i,
            forall|j: int|
                0 <= j < i ==> #[trigger] ages@[j] == -1 - keys@[kept@[j] as int].time_ms,
    {
        assert(kept@.contains(kept@[i as int]));
        let time_ms: i64 = keys[kept[i]].time_ms;
        ages.push(-1 - time_ms);
    }
    let order = stable_order(&ages);
    let mut shown: Vec<usize> = Vec::new();
    for i in 0..order.len()
        invariant
            is_stable_order(ages@, order@),
            ages@.len() == kept@.len(),
            shown@.len() == i,
            forall|j: int| 0 <= j < i ==> #[trigger] shown@[j] == kept@[order@[j] as int],
    {
        shown.push(kept[order[i]]);
    }
    proof {
        assert forall|i: int, j: int| 0 <= i < j < shown@.len() implies shown_before(
            keys@,
            #[trigger] shown@[i],
            #[trigger] shown@[j],
        ) by {
            let (a, b) = (order@[i], order@[j]);
            assert(crate::sorting::comes_before(ages@, a, b));
            if a < b {
                assert(kept@[a as int] < kept@[b as int]);
            }
        }
        assert forall|p: usize| #[trigger] shown@.contains(p) <==> first_of_its_kind(
            keys@,
            p as int,
        ) by {
            if shown@.contains(p) {
                let j = choose|j: int| 0 <= j < shown@.len() && shown@[j] == p;
                assert(kept@.contains(kept@[order@[j] as int]));
            }
            if first_of_its_kind(keys@, p as int) {
                assert(kept@.contains(p));
                let q = choose|q: int| 0 <= q < kept@.len() && kept@[q] == p;
                law_order_is_complete(ages@, order@, q as usize);
                let j = choose|j: int| 0 <= j < order@.len() && order@[j] == q as usize;
                assert(shown@[j] == p);
            }
        }
    }
    shown
}

/// No snapshot appears twice in a merged history, and none is left out.
pub proof fn law_history_shows_each_snapshot_once(
    keys: Seq<HistoryKey>,
    shown: Seq<usize>,
    i: int,
)
    requires
        history_merged(keys, shown),
        0 <= i < keys.len() <= usize::MAX,
    ensures
        exists|j: int|
            0 <= j < shown.len() && same_snapshot(keys[(#[trigger] shown[j]) as int], keys[i]),
        forall|j: int, k: int|
            0 <= j < k < shown.len() ==> !same_snapshot(
                keys[(#[trigger] shown[j]) as int],
                keys[(#[trigger] shown[k]) as int],
            ),
{
    let f = lemma_first_entry(keys, i);
    assert(shown.contains(f as usize));
    let j = choose|j: int| 0 <= j < shown.len() && shown[j] == f as usize;
    assert(same_snapshot(keys[shown[j] as int], keys[i]));
    assert forall|j: int, k: int| 0 <= j < k < shown.len() implies !same_snapshot(
        keys[(#[trigger] shown[j]) as int],
        keys[(#[trigger] shown[k]) as int],
    ) by {
        assert(shown.contains(shown[j]) && shown.contains(shown[k]));
        assert(shown_before(keys, shown[j], shown[k]));
    }
}

proof fn lemma_first_entry(keys: Seq<HistoryKey>, i: int) -> (f: int)
    requires
        0 <= i < keys.len(),
    ensures
        first_of_its_kind(keys, f),
        same_snapshot(keys[f], keys[i]),
    decreases i,
{
    if first_of_its_kind(keys, i) {
        i
    } else {
        let j = choose|j: int| 0 <= j < i && same_snapshot(#[trigger] keys[j], keys[i]);
        lemma_first_entry(keys, j)
    }
}

} // verus!
