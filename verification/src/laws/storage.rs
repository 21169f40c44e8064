//! What is handed to the store, the log of messages, and the rows of a decoded message.

use crate::actor::freeze_history::{
    first_of_its_kind, history_merged, same_snapshot, shown_before, HistoryKey,
};
use crate::communication_log::{with_latest, CommunicationLogEntry};
use crate::field_value::{
    entry_rows, flat_rows, has_parts, hex_text, list_rows, FieldValue, RowModel,
};
use crate::laws::digits::{lemma_energy_shows, two_digits};
use crate::laws::energies::{read_energy, reads_energy};
use crate::laws::freezes::snapshot_number;
use crate::laws::texts::hex_digit;
use crate::persistence::types::{EnergyRegisterRow, FreezeSnapshotRow};
use crate::protocol::format::{hex_pair, address_text};
use crate::quantity::Quantity;
use crate::simulation::di_handler::encoding::decimal_of;
use crate::simulation::freeze::FreezeType;
use crate::simulation::state::{EnergyType, MeterState};
use crate::simulation::virtual_meter::{energy_row, snapshot_row};
use vstd::prelude::*;

verus! {

/// The forward active energy of a rate in a row; rate 0 is the total.
pub open spec fn row_rate(row: EnergyRegisterRow, rate: int) -> Quantity {
    if rate == 0 {
        row.combined_active_positive
    } else if rate == 1 {
        row.rate1_active_positive
    } else if rate == 2 {
        row.rate2_active_positive
    } else if rate == 3 {
        row.rate3_active_positive
    } else {
        row.rate4_active_positive
    }
}

/// The registers that are stored are those that are read: the totals of the four kinds, and the
/// forward active energy of rates 1 to 4.
#[verifier::rlimit(50)]
pub proof fn law_stored_registers_are_those_read(row: EnergyRegisterRow, s: MeterState, di1: u8)
    requires
        energy_row(row, s),
        di1 <= 4,
        di1 <= s.num_rates,
        row_rate(row, di1 as int) < 999_999_990_000_000,
        row.combined_active_negative < 999_999_990_000_000,
        row.combined_reactive_positive < 999_999_990_000_000,
        row.combined_reactive_negative < 999_999_990_000_000,
    ensures
        reads_energy(read_energy(s, 0x01, di1, 0x00), row_rate(row, di1 as int)),
        reads_energy(read_energy(s, 0x02, 0x00, 0x00), row.combined_active_negative),
        reads_energy(read_energy(s, 0x03, 0x00, 0x00), row.combined_reactive_positive),
        reads_energy(read_energy(s, 0x04, 0x00, 0x00), row.combined_reactive_negative),
        row.timestamp == s.virtual_time,
        row.meter_address@ == address_text(s.address@),
{
    reveal(decimal_of);
    lemma_energy_shows(row_rate(row, di1 as int));
    lemma_energy_shows(row.combined_active_negative);
    lemma_energy_shows(row.combined_reactive_positive);
    lemma_energy_shows(row.combined_reactive_negative);
    assert(two_digits(di1) == di1);
}

/// A snapshot is stored under the number of its freeze, dated now, with the energy as it is read.
pub proof fn law_stored_snapshot(row: FreezeSnapshotRow, s: MeterState, t: FreezeType)
    requires
        snapshot_row(row, s, t),
    ensures
        row.trigger_type == snapshot_number(t),
        row.snapshot_time == s.virtual_time,
        row.occurrence_idx == 1,
        row.meter_address@ == address_text(s.address@),
        row.payload.forward_active_total == s.energy(EnergyType::ForwardActive, 0),
        row.payload.reverse_active_total == s.energy(EnergyType::ReverseActive, 0),
        row.payload.max_demand_active == s.max_demand,
{
}

/// The log of a meter ends with its latest message and keeps the 300 latest: of a shorter list
/// nothing is lost, of a full one only the oldest.
pub proof fn law_log_keeps_the_latest(
    entries: Seq<CommunicationLogEntry>,
    entry: CommunicationLogEntry,
)
    ensures
        with_latest(entries, entry).last() == entry,
        entries.len() < 300 ==> with_latest(entries, entry).drop_last() == entries,
        entries.len() == 300 ==> with_latest(entries, entry).drop_last() == entries.skip(1),
        entries.len() <= 300 ==> with_latest(entries, entry).len() <= 300,
{
    let all = with_latest(entries, entry);
    if entries.len() < 300 {
        assert(all.drop_last() =~= entries);
    } else {
        assert(all.drop_last() =~= entries.skip(1));
    }
}

/// A merged history shows the newest snapshot first. Two entries of the same kind and time are
/// one snapshot, which is shown once, and every snapshot is shown.
pub proof fn law_history_comes_newest_first(
    keys: Seq<HistoryKey>,
    shown: Seq<usize>,
    i: int,
    j: int,
    k: usize,
)
    requires
        history_merged(keys, shown),
        0 <= i < j < shown.len(),
        k < keys.len(),
    ensures
        keys[shown[i] as int].time_ms >= keys[shown[j] as int].time_ms,
        keys[shown[i] as int].trigger != keys[shown[j] as int].trigger
            || keys[shown[i] as int].time_ms != keys[shown[j] as int].time_ms,
        exists|p: int|
            {
                &&& 0 <= p < shown.len()
                &&& keys[(#[trigger] shown[p]) as int].trigger == keys[k as int].trigger
                &&& keys[shown[p] as int].time_ms == keys[k as int].time_ms
            },
{
    assert(shown_before(keys, shown[i], shown[j]));
    assert(shown.contains(shown[i]));
    assert(shown.contains(shown[j]));
    assert(first_of_its_kind(keys, shown[i] as int));
    assert(first_of_its_kind(keys, shown[j] as int));
    lemma_first_entry(keys, k as int);
    let f = choose|f: int|
        first_of_its_kind(keys, f) && f <= k && same_snapshot(#[trigger] keys[f], keys[k as int]);
    assert(shown.contains(f as usize));
    let p = choose|p: int| 0 <= p < shown.len() && shown[p] == f as usize;
    assert(keys[shown[p] as int].trigger == keys[k as int].trigger);
}

proof fn lemma_first_entry(keys: Seq<HistoryKey>, k: int)
    requires
        0 <= k < keys.len(),
    ensures
        exists|f: int|
            first_of_its_kind(keys, f) && f <= k && same_snapshot(#[trigger] keys[f], keys[k]),
    decreases k,
{
    if first_of_its_kind(keys, k) {
        assert(same_snapshot(keys[k], keys[k]));
    } else {
        let j = choose|j: int| 0 <= j < k && same_snapshot(#[trigger] keys[j], keys[k]);
        lemma_first_entry(keys, j);
        let f = choose|f: int|
            first_of_its_kind(keys, f) && f <= j && same_snapshot(#[trigger] keys[f], keys[j]);
        assert(same_snapshot(keys[f], keys[k]));
    }
}

/// Bytes are written as two hexadecimal digits each, with a space between two of them.
pub proof fn law_bytes_are_written(bytes: Seq<u8>, i: int)
    requires
        0 <= i < bytes.len(),
    ensures
        ({
            let text = hex_text(bytes);
            &&& text.len() == 3 * bytes.len() - 1
            &&& hex_digit(text[3 * i] as int) >= 0
            &&& hex_digit(text[3 * i + 1] as int) >= 0
            &&& 16 * hex_digit(text[3 * i] as int) + hex_digit(text[3 * i + 1] as int) == bytes[i]
            &&& i + 1 < bytes.len() ==> text[3 * i + 2] == ' '
        }),
    decreases bytes.len(),
{
    reveal(hex_pair);
    reveal_strlit(" ");
    let text = hex_text(bytes);
    if bytes.len() == 1 {
        assert(text == hex_pair(bytes[0]));
    } else {
        let front = bytes.drop_last();
        if i < bytes.len() - 1 {
            law_bytes_are_written(front, i);
        } else {
            law_bytes_are_written(front, 0);
        }
        assert(text == hex_text(front) + " "@ + hex_pair(bytes.last()));
        assert(hex_text(front).len() == 3 * bytes.len() - 4);
    }
}

/// No row of a value lies further out than the value itself.
pub open spec fn no_further_out(rows: Seq<RowModel>, depth: usize) -> bool {
    forall|i: int| 0 <= i < rows.len() ==> (#[trigger] rows[i]).depth >= depth
}

/// The rows of a value lie at its depth or further in.
pub proof fn law_rows_lie_within(value: FieldValue, depth: usize)
    ensures
        no_further_out(flat_rows(value, depth), depth),
    decreases value, 0nat,
{
    match value {
        FieldValue::List(items) => {
            lemma_list_rows_within(items, items@.len(), depth);
        },
        FieldValue::Entries(pairs) => {
            if pairs@.len() == 1 {
                law_rows_lie_within(pairs@[0].1, depth);
            } else {
                lemma_entry_rows_within(pairs, pairs@.len(), depth);
            }
        },
        FieldValue::Node { name, raw, value } => {
            if has_parts(*value) {
                law_rows_lie_within(*value, crate::field_value::deeper(depth));
            }
        },
        _ => {},
    }
}

proof fn lemma_list_rows_within(items: Vec<FieldValue>, n: nat, depth: usize)
    ensures
        no_further_out(list_rows(items, n, depth), depth),
    decreases items, n,
{
    if 0 < n <= items@.len() {
        lemma_list_rows_within(items, (n - 1) as nat, depth);
        law_rows_lie_within(items@[n - 1], depth);
    }
}

proof fn lemma_entry_rows_within(pairs: Vec<(String, FieldValue)>, n: nat, depth: usize)
    ensures
        no_further_out(entry_rows(pairs, n, depth), depth),
    decreases pairs, n,
{
    if 0 < n <= pairs@.len() {
        lemma_entry_rows_within(pairs, (n - 1) as nat, depth);
        if has_parts(pairs@[n - 1].1) {
            law_rows_lie_within(pairs@[n - 1].1, depth);
        }
    }
}

} // verus!
