//! How values go into the store, and when.

use crate::persistence::types::{
    EnergyRegisterRow, PersistRequest, SettlementEnergiesRow, SettlementEnergy,
};
use crate::quantity::{clamped, Quantity};
use crate::simulation::freeze::FreezeTrigger;
use crate::simulation::history::{restored_registers, stored_kind};
use crate::simulation::state::{energy_key, EnergyType, MeterState};
use crate::simulation::virtual_meter::energy_row;
use vstd::prelude::*;

verus! {

/// Where and how often is stored.
#[derive(Debug, Clone)]
pub struct PersistenceConfig {
    pub db_path: String,
    /// how many requests are stored together at most
    pub batch_max_size: usize,
    /// how long a request waits at most
    pub batch_timeout_ms: u64,
    pub max_connections: u32,
    /// how many load records of one class of one meter are kept
    pub load_profile_max_records_per_class: u32,
    /// how often superfluous load records are removed
    pub load_profile_cleanup_interval_secs: u64,
}

impl Default for PersistenceConfig {
    fn default() -> (r: PersistenceConfig)
        ensures
            r.db_path@ == "./data/meters.db"@,
            r.batch_max_size == 200,
            r.batch_timeout_ms == 1000,
            r.max_connections == 4,
            r.load_profile_max_records_per_class == 2000,
            r.load_profile_cleanup_interval_secs == 600,
    {
        PersistenceConfig {
            db_path: "./data/meters.db".to_owned(),
            batch_max_size: 200,
            batch_timeout_ms: 1000,
            max_connections: 4,
            load_profile_max_records_per_class: 2000,
            load_profile_cleanup_interval_secs: 600,
        }
    }
}

/// Whole hundredths of a quantity; what is beyond them is cut off.
pub open spec fn hundredths(q: Quantity) -> int {
    if q >= 0 {
        q as int / 10_000_000
    } else {
        -(-q / 10_000_000)
    }
}

/// The whole hundredths of a quantity.
pub fn to_hundredths(q: Quantity) -> (r: i64)
    ensures
        r == hundredths(q),
{
    if q >= 0 {
        q / 10_000_000
    } else {
        let size: i128 = -(q as i128);
        -((size / 10_000_000) as i64)
    }
}

/// The quantity of a number of hundredths, held in range.
pub fn from_hundredths(n: i64) -> (r: Quantity)
    ensures
        r == clamped(n * 10_000_000),
{
    let v: i128 = n as i128 * 10_000_000;
    if v > i64::MAX as i128 {
        i64::MAX
    } else if v < i64::MIN as i128 {
        i64::MIN
    } else {
        v as i64
    }
}

/// A quantity comes back from the store without what is beyond its hundredths: closer to zero
/// by less than a hundredth, and unchanged if it has none.
pub proof fn law_stored_quantity_is_close(q: Quantity)
    ensures
        ({
            let back = clamped(hundredths(q) * 10_000_000);
            &&& 0 <= q ==> 0 <= q - back < 10_000_000
            &&& q <= 0 ==> 0 <= back - q < 10_000_000
            &&& q % 10_000_000 == 0 ==> back == q
        }),
{
}

/// One energy register of the store: kind, rate and hundredths.
#[derive(Debug, Clone, Copy, PartialEq, Eq, Structural)]
pub struct EnergyEntry {
    pub energy_kind: u8,
    pub rate_index: u8,
    pub settlement_day: u8,
    pub value_fp: i64,
}

pub open spec fn present_entry(kind: u8, rate: u8, q: Quantity) -> EnergyEntry {
    EnergyEntry {
        energy_kind: kind,
        rate_index: rate,
        settlement_day: 0,
        value_fp: hundredths(q) as i64,
    }
}

fn entry_of(kind: u8, rate: u8, q: Quantity) -> (r: EnergyEntry)
    ensures
        r == present_entry(kind, rate, q),
{
    EnergyEntry {
        energy_kind: kind,
        rate_index: rate,
        settlement_day: 0,
        value_fp: to_hundredths(q),
    }
}

/// The registers of the present period that are stored: four totals and the four rates of
/// the forward active energy.
pub open spec fn stored_entries(row: EnergyRegisterRow) -> Seq<EnergyEntry> {
    seq![
        present_entry(1, 0, row.combined_active_positive),
        present_entry(2, 0, row.combined_active_negative),
        present_entry(3, 0, row.combined_reactive_positive),
        present_entry(4, 0, row.combined_reactive_negative),
        present_entry(1, 1, row.rate1_active_positive),
        present_entry(1, 2, row.rate2_active_positive),
        present_entry(1, 3, row.rate3_active_positive),
        present_entry(1, 4, row.rate4_active_positive),
    ]
}

/// The registers of the present period that are stored.
pub fn energy_entries(row: &EnergyRegisterRow) -> (r: Vec<EnergyEntry>)
    ensures
        r@ == stored_entries(*row),
{
    let mut out: Vec<EnergyEntry> = Vec::new();
    out.push(entry_of(1, 0, row.combined_active_positive));
    out.push(entry_of(2, 0, row.combined_active_negative));
    out.push(entry_of(3, 0, row.combined_reactive_positive));
    out.push(entry_of(4, 0, row.combined_reactive_negative));
    out.push(entry_of(1, 1, row.rate1_active_positive));
    out.push(entry_of(1, 2, row.rate2_active_positive));
    out.push(entry_of(1, 3, row.rate3_active_positive));
    out.push(entry_of(1, 4, row.rate4_active_positive));
    assert(out@ =~= stored_entries(*row));
    out
}

/// A stored register as it is read: kind, rate and value.
pub open spec fn read_entry(e: EnergyEntry) -> (u8, u8, Quantity) {
    (e.energy_kind, e.rate_index, clamped(e.value_fp * 10_000_000))
}

/// The rows are the stored registers, in whatever order.
pub open spec fn rows_of(row: EnergyRegisterRow, rows: Seq<(u8, u8, Quantity)>) -> bool {
    &&& forall|j: int|
        0 <= j < 8 ==> rows.contains(read_entry(#[trigger] stored_entries(row)[j]))
    &&& forall|i: int|
        0 <= i < rows.len() ==> exists|j: int|
            0 <= j < 8 && #[trigger] rows[i] == read_entry(#[trigger] stored_entries(row)[j])
}

/// A register whose rows all have one value is restored with that value.
proof fn lemma_restored(rows: Seq<(u8, u8, Quantity)>, t: EnergyType, rate: u8, kind: u8, i: int)
    requires
        0 <= i < rows.len(),
        stored_kind(kind) == Some(t),
        rows[i].0 == kind && rows[i].1 == rate,
        forall|j: int|
            0 <= j < rows.len() && (#[trigger] rows[j]).0 == kind && rows[j].1 == rate
                ==> rows[j].2 == rows[i].2,
    ensures
        restored_registers(rows).contains_key(energy_key(t, rate)),
        restored_registers(rows)[energy_key(t, rate)] == rows[i].2,
    decreases rows.len(),
{
    let n = rows.len() - 1;
    let rest = rows.drop_last();
    let last = rows[n];
    let same = last.0 == kind && last.1 == rate;
    assert forall|k: u8| stored_kind(k) is Some && energy_key(#[trigger] stored_kind(k)->0, last.1)
        == energy_key(t, rate) implies k == kind && last.1 == rate by {}
    if !same {
        assert(i < n);
        assert(rest[i] == rows[i]);
        assert forall|j: int|
            0 <= j < rest.len() && (#[trigger] rest[j]).0 == kind && rest[j].1 == rate implies
            rest[j].2 == rest[i].2 by {
            assert(rest[j] == rows[j]);
        }
        lemma_restored(rest, t, rate, kind, i);
    }
}

proof fn lemma_register_restored(
    row: EnergyRegisterRow,
    rows: Seq<(u8, u8, Quantity)>,
    t: EnergyType,
    j: int,
)
    requires
        rows_of(row, rows),
        0 <= j < 8,
        stored_kind(stored_entries(row)[j].energy_kind) == Some(t),
    ensures
        ({
            let e = stored_entries(row)[j];
            let key = energy_key(t, e.rate_index);
            &&& restored_registers(rows).contains_key(key)
            &&& restored_registers(rows)[key] == clamped(e.value_fp * 10_000_000)
        }),
{
    let e = stored_entries(row)[j];
    let i = choose|i: int| 0 <= i < rows.len() && rows[i] == read_entry(e);
    assert forall|m: int|
        0 <= m < rows.len() && (#[trigger] rows[m]).0 == e.energy_kind && rows[m].1
            == e.rate_index implies rows[m].2 == rows[i].2 by {
        let k = choose|k: int|
            0 <= k < 8 && rows[m] == read_entry(#[trigger] stored_entries(row)[k]);
        assert(k == j);
    }
    lemma_restored(rows, t, e.rate_index, e.energy_kind, i);
}

/// A restart keeps the totals of the four kinds of energy, and the forward active energy of
/// rates 1 to 4, to the hundredth.
pub proof fn law_registers_survive_restart(
    before: MeterState,
    row: EnergyRegisterRow,
    rows: Seq<(u8, u8, Quantity)>,
    after: MeterState,
)
    requires
        energy_row(row, before),
        rows_of(row, rows),
        after.energy_registers@ == restored_registers(rows),
    ensures
        forall|rate: u8|
            rate <= 4 ==> #[trigger] after.energy(EnergyType::ForwardActive, rate) == clamped(
                hundredths(before.energy(EnergyType::ForwardActive, rate)) * 10_000_000,
            ),
        after.energy(EnergyType::ReverseActive, 0) == clamped(
            hundredths(before.energy(EnergyType::ReverseActive, 0)) * 10_000_000,
        ),
        after.energy(EnergyType::ForwardReactive, 0) == clamped(
            hundredths(before.energy(EnergyType::ForwardReactive, 0)) * 10_000_000,
        ),
        after.energy(EnergyType::ReverseReactive, 0) == clamped(
            hundredths(before.energy(EnergyType::ReverseReactive, 0)) * 10_000_000,
        ),
{
    lemma_register_restored(row, rows, EnergyType::ReverseActive, 1);
    lemma_register_restored(row, rows, EnergyType::ForwardReactive, 2);
    lemma_register_restored(row, rows, EnergyType::ReverseReactive, 3);
    assert forall|rate: u8| rate <= 4 implies #[trigger] after.energy(
        EnergyType::ForwardActive,
        rate,
    ) == clamped(hundredths(before.energy(EnergyType::ForwardActive, rate)) * 10_000_000) by {
        let j = if rate == 0 {
            0int
        } else {
            3 + rate
        };
        lemma_register_restored(row, rows, EnergyType::ForwardActive, j);
    }
}

/// The entries of past settlements. The present period, day 0, is stored with the registers.
pub open spec fn past_entries(energies: Seq<SettlementEnergy>) -> Seq<EnergyEntry>
    decreases energies.len(),
{
    if energies.len() == 0 {
        seq![]
    } else {
        let before = past_entries(energies.drop_last());
        let e = energies.last();
        if e.settlement_day == 0 {
            before
        } else {
            before.push(
                EnergyEntry {
                    energy_kind: e.energy_kind,
                    rate_index: e.rate_index,
                    settlement_day: e.settlement_day,
                    value_fp: hundredths(e.value) as i64,
                },
            )
        }
    }
}

/// The energies of past settlements that are stored.
pub fn settlement_entries(row: &SettlementEnergiesRow) -> (r: Vec<EnergyEntry>)
    ensures
        r@ == past_entries(row.energies@),
{
    let mut out: Vec<EnergyEntry> = Vec::new();
    for i in 0..row.energies.len()
        invariant
            out@ == past_entries(row.energies@.take(i as int)),
    {
        let e: SettlementEnergy = row.energies[i];
        if e.settlement_day != 0 {
            out.push(
                EnergyEntry {
                    energy_kind: e.energy_kind,
                    rate_index: e.rate_index,
                    settlement_day: e.settlement_day,
                    value_fp: to_hundredths(e.value),
                },
            );
        }
        assert(row.energies@.take(i + 1).drop_last() =~= row.energies@.take(i as int));
    }
    assert(row.energies@.take(row.energies@.len() as int) =~= row.energies@);
    out
}

/// How many snapshots of a trigger the store keeps: as many as the meter itself, 12 of a
/// trigger that is not known.
pub open spec fn kept_snapshots(trigger_type: u8, n: u8) -> bool {
    if exists|t: FreezeTrigger| #[trigger] t.di2() == trigger_type {
        exists|t: FreezeTrigger| #[trigger] t.di2() == trigger_type && n == t.history()
    } else {
        n == 12
    }
}

/// How many snapshots of a trigger the store keeps.
pub fn snapshot_capacity(trigger_type: u8) -> (r: u8)
    ensures
        kept_snapshots(trigger_type, r),
{
    match FreezeTrigger::from_di2(trigger_type) {
        Some(t) => t.max_history_count(),
        None => 12,
    }
}

/// Requests that wait to be stored together.
#[derive(Debug)]
pub struct RequestBuffer {
    waiting: Vec<PersistRequest>,
    batch_max_size: usize,
}

impl RequestBuffer {
    pub closed spec fn requests(self) -> Seq<PersistRequest> {
        self.waiting@
    }

    pub closed spec fn limit(self) -> usize {
        self.batch_max_size
    }

    pub fn new(batch_max_size: usize) -> (r: RequestBuffer)
        ensures
            r.requests().len() == 0,
            r.limit() == batch_max_size,
    {
        RequestBuffer { waiting: Vec::new(), batch_max_size }
    }

    /// Takes in a request. Returns whether there are enough to store them at once.
    pub fn push(&mut self, request: PersistRequest) -> (r: bool)
        ensures
            final(self).requests() == old(self).requests().push(request),
            final(self).limit() == old(self).limit(),
            r == (final(self).requests().len() >= old(self).limit()),
    {
        self.waiting.push(request);
        self.waiting.len() >= self.batch_max_size
    }

    /// Whether there is nothing to store.
    pub fn is_empty(&self) -> (r: bool)
        ensures
            r == (self.requests().len() == 0),
    {
        self.waiting.len() == 0
    }

    /// Hands out all requests in the order in which they came.
    pub fn take(&mut self) -> (r: Vec<PersistRequest>)
        ensures
            r@ == old(self).requests(),
            final(self).requests().len() == 0,
            final(self).limit() == old(self).limit(),
    {
        let mut out: Vec<PersistRequest> = Vec::new();
        std::mem::swap(&mut out, &mut self.waiting);
        out
    }
}

} // verus!
