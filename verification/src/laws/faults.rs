//! Which faults a pass of fault detection leaves active, told from the measured values, and
//! what the records say of them.

use crate::laws::digits::{
    lemma_energy_shows, lemma_powers, lemma_short_thousandths_show, lemma_ten_thousandths_show,
    lemma_tenths_show, lemma_thousandths_show, piece, shows,
};
use crate::protocol::format::law_bcd_write_read;
use crate::quantity::{scaled, Quantity};
use crate::simulation::event::{latest_open, EventRecord};
use crate::simulation::faults::{
    fault_data, fault_present, fault_record, fault_step, increments_since, Baseline,
};
use crate::simulation::history::added_event;
use crate::simulation::schedule::{in_some_phase, status_bits, status_of};
use crate::simulation::state::{event_key, EnergyType, MeterState};
use vstd::prelude::*;

verus! {

/// One pass of fault detection: the active faults and the state before and after.
pub open spec fn detected(
    f0: Map<u32, Baseline>,
    s0: MeterState,
    f1: Map<u32, Baseline>,
    s1: MeterState,
    forced: Seq<(u8, u8)>,
) -> bool {
    forall|e: u8, t: u8| #[trigger]
        fault_step(f0, s0, f1, s1, e, t, fault_present(s0, forced, e, t))
}

/// The fault is active.
pub open spec fn is_active(f: Map<u32, Baseline>, event_type: u8, sub_type: u8) -> bool {
    f.contains_key(event_key(event_type, sub_type))
}

/// Voltage, current, active and reactive power of a phase.
pub open spec fn values_of(s: MeterState, phase: u8) -> (Quantity, Quantity, Quantity, Quantity) {
    if phase == 1 {
        (s.voltage_a, s.current_a, s.active_power_a, s.reactive_power_a)
    } else if phase == 2 {
        (s.voltage_b, s.current_b, s.active_power_b, s.reactive_power_b)
    } else {
        (s.voltage_c, s.current_c, s.active_power_c, s.reactive_power_c)
    }
}

/// A percentage of a rated value, in hundredths of a billionth. Rated values are in thousandths.
pub open spec fn percent(rated: u32, n: int) -> int {
    rated * 1_000_000 * n
}

/// Two kinds of event never share their records.
pub proof fn law_event_keys_differ(e0: u8, t0: u8, e1: u8, t1: u8)
    ensures
        event_key(e0, t0) == event_key(e1, t1) <==> e0 == e1 && t0 == t1,
{
}

/// Loss of current that is not injected is active exactly below 5 percent of the rated
/// current: at 5 percent and above it is not, without current it is.
pub proof fn law_loss_of_current(
    f0: Map<u32, Baseline>,
    s0: MeterState,
    f1: Map<u32, Baseline>,
    s1: MeterState,
    forced: Seq<(u8, u8)>,
    phase: u8,
)
    requires
        detected(f0, s0, f1, s1, forced),
        1 <= phase <= 3,
        !forced.contains((0x0Bu8, phase)),
    ensures
        values_of(s0, phase).1 * 100 >= percent(s0.rated_current, 5) ==> !is_active(
            f1,
            0x0B,
            phase,
        ),
        values_of(s0, phase).1 * 100 < percent(s0.rated_current, 5) ==> is_active(f1, 0x0B, phase),
        values_of(s0, phase).1 == 0 && s0.rated_current > 0 ==> is_active(f1, 0x0B, phase),
        s0.rated_current > 0 && values_of(s0, phase).1 >= s0.rated_current * 1_000_000
            ==> !is_active(f1, 0x0B, phase),
{
    assert(fault_step(f0, s0, f1, s1, 0x0B, phase, fault_present(s0, forced, 0x0B, phase)));
}

/// Overcurrent that is not injected is active exactly above 120 percent of the rated current.
pub proof fn law_overcurrent(
    f0: Map<u32, Baseline>,
    s0: MeterState,
    f1: Map<u32, Baseline>,
    s1: MeterState,
    forced: Seq<(u8, u8)>,
    phase: u8,
)
    requires
        detected(f0, s0, f1, s1, forced),
        1 <= phase <= 3,
        !forced.contains((0x0Cu8, phase)),
    ensures
        is_active(f1, 0x0C, phase) <==> values_of(s0, phase).1 * 100 > percent(
            s0.rated_current,
            120,
        ),
        !forced.contains((0x0Bu8, phase)) ==> !(is_active(f1, 0x0B, phase) && is_active(
            f1,
            0x0C,
            phase,
        )),
{
    assert(fault_step(f0, s0, f1, s1, 0x0B, phase, fault_present(s0, forced, 0x0B, phase)));
    assert(fault_step(f0, s0, f1, s1, 0x0C, phase, fault_present(s0, forced, 0x0C, phase)));
}

/// A smaller current than one that shows loss of current shows it too, and a larger one than
/// one that shows overcurrent shows that too.
pub proof fn law_current_faults_deepen(
    f0: Map<u32, Baseline>,
    s0: MeterState,
    f1: Map<u32, Baseline>,
    s1: MeterState,
    g0: Map<u32, Baseline>,
    r0: MeterState,
    g1: Map<u32, Baseline>,
    r1: MeterState,
    forced: Seq<(u8, u8)>,
    phase: u8,
)
    requires
        detected(f0, s0, f1, s1, forced),
        detected(g0, r0, g1, r1, forced),
        1 <= phase <= 3,
        s0.rated_current == r0.rated_current,
    ensures
        is_active(f1, 0x0B, phase) && values_of(r0, phase).1 <= values_of(s0, phase).1
            ==> is_active(g1, 0x0B, phase),
        is_active(f1, 0x0C, phase) && values_of(r0, phase).1 >= values_of(s0, phase).1
            ==> is_active(g1, 0x0C, phase),
{
    assert(fault_step(f0, s0, f1, s1, 0x0B, phase, fault_present(s0, forced, 0x0B, phase)));
    assert(fault_step(g0, r0, g1, r1, 0x0B, phase, fault_present(r0, forced, 0x0B, phase)));
    assert(fault_step(f0, s0, f1, s1, 0x0C, phase, fault_present(s0, forced, 0x0C, phase)));
    assert(fault_step(g0, r0, g1, r1, 0x0C, phase, fault_present(r0, forced, 0x0C, phase)));
}

/// A voltage lies in one of five bands of the rated voltage. Below 10 percent the phase is lost
/// with its voltage; below 70 percent the voltage is lost; below 90 percent there is
/// undervoltage; to 120 percent nothing is wrong; above there is overvoltage.
pub proof fn law_voltage_bands(
    f0: Map<u32, Baseline>,
    s0: MeterState,
    f1: Map<u32, Baseline>,
    s1: MeterState,
    forced: Seq<(u8, u8)>,
    phase: u8,
)
    requires
        detected(f0, s0, f1, s1, forced),
        1 <= phase <= 3,
        forall|e: u8| 1 <= e <= 4 ==> !#[trigger] forced.contains((e, phase)),
    ensures
        ({
            let v = values_of(s0, phase).0 * 100;
            let rated = s0.rated_voltage;
            let faults = (
                is_active(f1, 0x01, phase),
                is_active(f1, 0x02, phase),
                is_active(f1, 0x03, phase),
                is_active(f1, 0x04, phase),
            );
            &&& v < percent(rated, 10) ==> faults == (true, false, false, true)
            &&& percent(rated, 10) <= v < percent(rated, 70) ==> faults == (
                true,
                false,
                false,
                false,
            )
            &&& percent(rated, 70) <= v < percent(rated, 90) ==> faults == (
                false,
                true,
                false,
                false,
            )
            &&& percent(rated, 90) <= v <= percent(rated, 120) ==> faults == (
                false,
                false,
                false,
                false,
            )
            &&& v > percent(rated, 120) && v >= 0 ==> faults == (false, false, true, false)
        }),
{
    assert(!forced.contains((1u8, phase)) && !forced.contains((2u8, phase)) && !forced.contains(
        (3u8, phase),
    ) && !forced.contains((4u8, phase)));
    assert(fault_step(f0, s0, f1, s1, 0x01, phase, fault_present(s0, forced, 0x01, phase)));
    assert(fault_step(f0, s0, f1, s1, 0x02, phase, fault_present(s0, forced, 0x02, phase)));
    assert(fault_step(f0, s0, f1, s1, 0x03, phase, fault_present(s0, forced, 0x03, phase)));
    assert(fault_step(f0, s0, f1, s1, 0x04, phase, fault_present(s0, forced, 0x04, phase)));
}

/// Without injections the voltage of the meter as a whole is lost exactly when that of every
/// phase is, and its power fails exactly when every phase is lost.
pub proof fn law_faults_of_the_whole_meter(
    f0: Map<u32, Baseline>,
    s0: MeterState,
    f1: Map<u32, Baseline>,
    s1: MeterState,
    forced: Seq<(u8, u8)>,
)
    requires
        detected(f0, s0, f1, s1, forced),
        forced.len() == 0,
    ensures
        is_active(f1, 0x05, 0) <==> is_active(f1, 0x01, 1) && is_active(f1, 0x01, 2) && is_active(
            f1,
            0x01,
            3,
        ),
        is_active(f1, 0x0F, 0) <==> is_active(f1, 0x04, 1) && is_active(f1, 0x04, 2) && is_active(
            f1,
            0x04,
            3,
        ),
        is_active(f1, 0x0F, 0) ==> is_active(f1, 0x05, 0),
{
    assert(fault_step(f0, s0, f1, s1, 0x05, 0, fault_present(s0, forced, 0x05, 0)));
    assert(fault_step(f0, s0, f1, s1, 0x0F, 0, fault_present(s0, forced, 0x0F, 0)));
    assert(fault_step(f0, s0, f1, s1, 0x01, 1, fault_present(s0, forced, 0x01, 1)));
    assert(fault_step(f0, s0, f1, s1, 0x01, 2, fault_present(s0, forced, 0x01, 2)));
    assert(fault_step(f0, s0, f1, s1, 0x01, 3, fault_present(s0, forced, 0x01, 3)));
    assert(fault_step(f0, s0, f1, s1, 0x04, 1, fault_present(s0, forced, 0x04, 1)));
    assert(fault_step(f0, s0, f1, s1, 0x04, 2, fault_present(s0, forced, 0x04, 2)));
    assert(fault_step(f0, s0, f1, s1, 0x04, 3, fault_present(s0, forced, 0x04, 3)));
}

/// An injected fault is active whatever is measured. A kind of event that no measured value
/// shows is active only while it is injected.
pub proof fn law_injected_faults(
    f0: Map<u32, Baseline>,
    s0: MeterState,
    f1: Map<u32, Baseline>,
    s1: MeterState,
    forced: Seq<(u8, u8)>,
    event_type: u8,
    sub_type: u8,
)
    requires
        detected(f0, s0, f1, s1, forced),
    ensures
        forced.contains((event_type, sub_type)) ==> is_active(f1, event_type, sub_type),
        is_active(f1, event_type, sub_type) && !forced.contains((event_type, sub_type)) ==> {
            ||| 1 <= sub_type <= 3 && (1 <= event_type <= 4 || event_type == 0x0B || event_type
                == 0x0C)
            ||| sub_type == 0 && (event_type == 0x05 || event_type == 0x0F)
        },
{
    assert(fault_step(
        f0,
        s0,
        f1,
        s1,
        event_type,
        sub_type,
        fault_present(s0, forced, event_type, sub_type),
    ));
}

proof fn lemma_fault_data_length(s: MeterState, sub_type: u8)
    ensures
        fault_data(s, sub_type).len() == 119,
{
    reveal(scaled);
    lemma_powers();
    let (v, i, p, q) = values_of(s, sub_type);
    law_bcd_write_read(scaled(v, 1), 2);
    law_bcd_write_read(scaled(i, 3), 3);
    law_bcd_write_read(scaled(p, 4), 3);
    law_bcd_write_read(scaled(q, 4), 3);
    law_bcd_write_read(scaled(s.power_factor, 3), 2);
}

/// A fault that begins is the newest of its records: it starts now, has not ended, and shows
/// voltage, current, powers and power factor of its phase behind what the phases before it have.
#[verifier::rlimit(50)]
pub proof fn law_fault_begins(
    f0: Map<u32, Baseline>,
    s0: MeterState,
    f1: Map<u32, Baseline>,
    s1: MeterState,
    forced: Seq<(u8, u8)>,
    event_type: u8,
    phase: u8,
)
    requires
        detected(f0, s0, f1, s1, forced),
        1 <= phase <= 3,
        !is_active(f0, event_type, phase),
        is_active(f1, event_type, phase),
        values_of(s0, phase).0 < 999_900_000_000,
        values_of(s0, phase).1 < 999_999_000_000,
        values_of(s0, phase).2 < 99_999_900_000,
        values_of(s0, phase).3 < 99_999_900_000,
        s0.power_factor < 9_999_000_000,
    ensures
        ({
            let records = s1.events(event_type, phase);
            let newest = records.last();
            let at = 32 + 29 * (phase - 1);
            let (v, i, p, q) = values_of(s0, phase);
            &&& 0 < records.len() <= s0.events(event_type, phase).len() + 1
            &&& newest.start_time == s0.virtual_time
            &&& newest.end_time is None
            &&& newest.event_type == event_type
            &&& newest.sub_type == phase
            &&& newest.data@.len() == 119
            &&& shows(piece(newest.data@, at, 2), v, 2, 100_000_000)
            &&& shows(piece(newest.data@, at + 2, 3), i, 3, 1_000_000)
            &&& shows(piece(newest.data@, at + 5, 3), p, 3, 100_000)
            &&& shows(piece(newest.data@, at + 8, 3), q, 3, 100_000)
            &&& shows(piece(newest.data@, at + 11, 2), s0.power_factor, 2, 1_000_000)
            &&& forall|j: int|
                0 <= j < 119 && !(at <= j < at + 13) ==> #[trigger] newest.data@[j] == 0
        }),
{
    assert(fault_step(
        f0,
        s0,
        f1,
        s1,
        event_type,
        phase,
        fault_present(s0, forced, event_type, phase),
    ));
    let key = event_key(event_type, phase);
    let record = choose|record: EventRecord| #[trigger]
        fault_record(record, s0, event_type, phase) && s1.event_records@[key]@
            == crate::simulation::event::pushed(
            s0.events(event_type, phase),
            s0.event_room(event_type, phase),
            record,
        );
    assert(s1.events(event_type, phase).last() == record);
    let (v, i, p, q) = values_of(s0, phase);
    let at = 32 + 29 * (phase - 1);
    lemma_tenths_show(v);
    lemma_thousandths_show(i);
    lemma_ten_thousandths_show(p);
    lemma_ten_thousandths_show(q);
    lemma_short_thousandths_show(s0.power_factor);
    let data = fault_data(s0, phase);
    assert(piece(data, at, 2) =~= crate::simulation::di_handler::encoding::digits(v, 2, 1));
    assert(piece(data, at + 2, 3) =~= crate::simulation::di_handler::encoding::digits(i, 3, 3));
    assert(piece(data, at + 5, 3) =~= crate::simulation::di_handler::encoding::digits(p, 3, 4));
    assert(piece(data, at + 8, 3) =~= crate::simulation::di_handler::encoding::digits(q, 3, 4));
    assert(piece(data, at + 11, 2) =~= crate::simulation::di_handler::encoding::digits(
        s0.power_factor,
        2,
        3,
    ));
}

/// What came to a register between two states, when nothing was taken away.
pub open spec fn came_to(s0: MeterState, s1: MeterState, t: EnergyType) -> int {
    s1.energy(t, 0) - s0.energy(t, 0)
}

/// A fault that was recorded when it began and that ends is counted once, with the whole
/// minutes from its start to now. Its record ends now and begins with what came to the four
/// energies since it began.
#[verifier::rlimit(50)]
pub proof fn law_fault_ends(
    f0: Map<u32, Baseline>,
    begin: MeterState,
    f1: Map<u32, Baseline>,
    begun: MeterState,
    s1: MeterState,
    f2: Map<u32, Baseline>,
    s2: MeterState,
    forced: Seq<(u8, u8)>,
    then_forced: Seq<(u8, u8)>,
    event_type: u8,
    sub_type: u8,
)
    requires
        detected(f0, begin, f1, begun, forced),
        !is_active(f0, event_type, sub_type),
        is_active(f1, event_type, sub_type),
        s1.event_records == begun.event_records,
        s1.event_summary == begun.event_summary,
        detected(f1, s1, f2, s2, then_forced),
        !is_active(f2, event_type, sub_type),
        begin.virtual_time.total_nanos() <= s1.virtual_time.total_nanos(),
        begun.totals(event_type, sub_type).total_count < u32::MAX,
        begun.totals(event_type, sub_type).total_duration_minutes < 0x8000_0000,
        s1.virtual_time.total_nanos() - begin.virtual_time.total_nanos() < 60_000_000_000
            * 0x7fff_ffff,
        0 <= came_to(begin, s1, EnergyType::ForwardActive) < 999_999_990_000_000,
        0 <= came_to(begin, s1, EnergyType::ReverseActive) < 999_999_990_000_000,
        0 <= came_to(begin, s1, EnergyType::ForwardReactive) < 999_999_990_000_000,
        0 <= came_to(begin, s1, EnergyType::ReverseReactive) < 999_999_990_000_000,
    ensures
        ({
            let newest = s2.events(event_type, sub_type).last();
            let (before, after) = (
                begun.totals(event_type, sub_type),
                s2.totals(event_type, sub_type),
            );
            let lasted = after.total_duration_minutes - before.total_duration_minutes;
            let nanos = s1.virtual_time.total_nanos() - begin.virtual_time.total_nanos();
            &&& s2.events(event_type, sub_type).len() == begun.events(event_type, sub_type).len()
            &&& newest.start_time == begin.virtual_time
            &&& newest.end_time == Some(s1.virtual_time)
            &&& after.total_count == before.total_count + 1
            &&& lasted * 60_000_000_000 <= nanos < (lasted + 1) * 60_000_000_000
            &&& shows(
                piece(newest.data@, 0, 4),
                came_to(begin, s1, EnergyType::ForwardActive) as i64,
                4,
                10_000_000,
            )
            &&& shows(
                piece(newest.data@, 4, 4),
                came_to(begin, s1, EnergyType::ReverseActive) as i64,
                4,
                10_000_000,
            )
            &&& shows(
                piece(newest.data@, 8, 4),
                came_to(begin, s1, EnergyType::ForwardReactive) as i64,
                4,
                10_000_000,
            )
            &&& shows(
                piece(newest.data@, 12, 4),
                came_to(begin, s1, EnergyType::ReverseReactive) as i64,
                4,
                10_000_000,
            )
            &&& newest.data@.len() == 119
            &&& newest.data@.skip(16) == begun.events(event_type, sub_type).last().data@.skip(16)
        }),
{
    let key = event_key(event_type, sub_type);
    assert(fault_step(
        f0,
        begin,
        f1,
        begun,
        event_type,
        sub_type,
        fault_present(begin, forced, event_type, sub_type),
    ));
    let record = choose|record: EventRecord| #[trigger]
        fault_record(record, begin, event_type, sub_type) && begun.event_records@[key]@
            == crate::simulation::event::pushed(
            begin.events(event_type, sub_type),
            begin.event_room(event_type, sub_type),
            record,
        );
    let records = s1.events(event_type, sub_type);
    assert(records == begun.events(event_type, sub_type));
    assert(records.last() == record);
    assert(latest_open(records) == Some(records.len() - 1));
    assert(fault_step(
        f1,
        s1,
        f2,
        s2,
        event_type,
        sub_type,
        fault_present(s1, then_forced, event_type, sub_type),
    ));
    let inc = increments_since(s1, f1[key]@);
    assert(inc[0] == came_to(begin, s1, EnergyType::ForwardActive));
    assert(inc[1] == came_to(begin, s1, EnergyType::ReverseActive));
    assert(inc[2] == came_to(begin, s1, EnergyType::ForwardReactive));
    assert(inc[3] == came_to(begin, s1, EnergyType::ReverseReactive));
    lemma_energy_shows(inc[0]);
    lemma_energy_shows(inc[1]);
    lemma_energy_shows(inc[2]);
    lemma_energy_shows(inc[3]);
    let data = s2.event_records@[key]@[records.len() - 1].data@;
    assert(s2.events(event_type, sub_type).last() == s2.event_records@[key]@[records.len() - 1]);
    assert(piece(data, 0, 4) =~= crate::simulation::di_handler::encoding::digits(inc[0], 4, 2));
    assert(piece(data, 4, 4) =~= crate::simulation::di_handler::encoding::digits(inc[1], 4, 2));
    assert(piece(data, 8, 4) =~= crate::simulation::di_handler::encoding::digits(inc[2], 4, 2));
    assert(piece(data, 12, 4) =~= crate::simulation::di_handler::encoding::digits(inc[3], 4, 2));
    lemma_fault_data_length(begin, sub_type);
    assert(data.skip(16) =~= record.data@.skip(16));
    let nanos = s1.virtual_time.total_nanos() - begin.virtual_time.total_nanos();
    assert(nanos / 60_000_000_000 < 0x8000_0000);
}

/// A fault that is not there, before and after, leaves no trace; neither does one that goes on.
pub proof fn law_fault_unchanged(
    f0: Map<u32, Baseline>,
    s0: MeterState,
    f1: Map<u32, Baseline>,
    s1: MeterState,
    forced: Seq<(u8, u8)>,
    event_type: u8,
    sub_type: u8,
)
    requires
        detected(f0, s0, f1, s1, forced),
        is_active(f0, event_type, sub_type) == is_active(f1, event_type, sub_type),
    ensures
        s1.events(event_type, sub_type) == s0.events(event_type, sub_type),
        s1.totals(event_type, sub_type) == s0.totals(event_type, sub_type),
{
    assert(fault_step(
        f0,
        s0,
        f1,
        s1,
        event_type,
        sub_type,
        fault_present(s0, forced, event_type, sub_type),
    ));
}

/// A kind of event has room for ten records from its first on. Up to the tenth every record
/// stays; then the oldest gives way, and the others keep their order before the new one.
pub proof fn law_ten_records_are_kept(
    before: MeterState,
    after: MeterState,
    record: EventRecord,
    i: int,
)
    requires
        added_event(before, after, record),
        before.event_records@.contains_key(event_key(record.event_type, record.sub_type))
            ==> before.event_records@[event_key(record.event_type, record.sub_type)].room() == 10,
    ensures
        ({
            let (e, t) = (record.event_type, record.sub_type);
            let (old_records, new_records) = (before.events(e, t), after.events(e, t));
            &&& after.event_records@[event_key(e, t)].room() == 10
            &&& new_records.len() > 0
            &&& new_records.last() == record
            &&& old_records.len() < 10 ==> new_records.len() == old_records.len() + 1
            &&& old_records.len() == 10 ==> new_records.len() == 10
            &&& old_records.len() < 10 && 0 <= i < old_records.len() ==> new_records[i]
                == old_records[i]
            &&& old_records.len() == 10 && 0 <= i < 9 ==> new_records[i] == old_records[i + 1]
        }),
{
}

proof fn lemma_status_bits(b0: bool, b1: bool, b2: bool, b3: bool)
    ensures
        status_bits(b0, b1, b2, b3) < 16,
        status_bits(b0, b1, b2, b3) % 2 == 1 <==> b0,
        (status_bits(b0, b1, b2, b3) / 2) % 2 == 1 <==> b1,
        (status_bits(b0, b1, b2, b3) / 4) % 2 == 1 <==> b2,
        (status_bits(b0, b1, b2, b3) / 8) % 2 == 1 <==> b3,
{
}

/// The status word of a phase, without injections: loss of voltage, overvoltage, loss of current
/// and overcurrent stand in its four lowest bits, and no other bit is set.
#[verifier::rlimit(50)]
pub proof fn law_phase_status_word(
    f0: Map<u32, Baseline>,
    s0: MeterState,
    f1: Map<u32, Baseline>,
    s1: MeterState,
    phase: u8,
)
    requires
        detected(f0, s0, f1, s1, Seq::empty()),
        1 <= phase <= 3,
    ensures
        ({
            let w = status_of(s1, f1);
            let word = if phase == 1 {
                w.status_word_4
            } else if phase == 2 {
                w.status_word_5
            } else {
                w.status_word_6
            };
            let (v, i, p, q) = values_of(s0, phase);
            &&& word < 16
            &&& word % 2 == 1 <==> v * 100 < percent(s0.rated_voltage, 70)
            &&& (word / 2) % 2 == 1 <==> v * 100 > percent(s0.rated_voltage, 120)
            &&& (word / 4) % 2 == 1 <==> i * 100 < percent(s0.rated_current, 5)
            &&& (word / 8) % 2 == 1 <==> i * 100 > percent(s0.rated_current, 120)
        }),
{
    assert(fault_step(f0, s0, f1, s1, 0x01, phase, fault_present(s0, Seq::empty(), 0x01, phase)));
    assert(fault_step(f0, s0, f1, s1, 0x03, phase, fault_present(s0, Seq::empty(), 0x03, phase)));
    assert(fault_step(f0, s0, f1, s1, 0x0B, phase, fault_present(s0, Seq::empty(), 0x0B, phase)));
    assert(fault_step(f0, s0, f1, s1, 0x0C, phase, fault_present(s0, Seq::empty(), 0x0C, phase)));
}

/// A bit of status word 7 is set exactly when some phase has it. Status word 1 tells the
/// direction of the power.
#[verifier::rlimit(50)]
pub proof fn law_common_status_words(s: MeterState, f: Map<u32, Baseline>)
    ensures
        ({
            let w = status_of(s, f);
            let (a, b, c, all) = (
                w.status_word_4,
                w.status_word_5,
                w.status_word_6,
                w.status_word_7,
            );
            &&& all < 16
            &&& all % 2 == 1 <==> a % 2 == 1 || b % 2 == 1 || c % 2 == 1
            &&& (all / 2) % 2 == 1 <==> (a / 2) % 2 == 1 || (b / 2) % 2 == 1 || (c / 2) % 2 == 1
            &&& (all / 4) % 2 == 1 <==> (a / 4) % 2 == 1 || (b / 4) % 2 == 1 || (c / 4) % 2 == 1
            &&& (all / 8) % 2 == 1 <==> (a / 8) % 2 == 1 || (b / 8) % 2 == 1 || (c / 8) % 2 == 1
            &&& s.active_power_total > 0 ==> w.status_word_1 == 1
            &&& s.active_power_total <= 0 ==> w.status_word_1 == 2
            &&& w.status_word_2 == s.derived_status.status_word_2
            &&& w.status_word_3 == s.derived_status.status_word_3
        }),
{
    lemma_status_bits(
        is_active(f, 0x01, 1),
        is_active(f, 0x03, 1),
        is_active(f, 0x0B, 1),
        is_active(f, 0x0C, 1),
    );
    lemma_status_bits(
        is_active(f, 0x01, 2),
        is_active(f, 0x03, 2),
        is_active(f, 0x0B, 2),
        is_active(f, 0x0C, 2),
    );
    lemma_status_bits(
        is_active(f, 0x01, 3),
        is_active(f, 0x03, 3),
        is_active(f, 0x0B, 3),
        is_active(f, 0x0C, 3),
    );
    lemma_status_bits(
        in_some_phase(f, 0x01),
        in_some_phase(f, 0x03),
        in_some_phase(f, 0x0B),
        in_some_phase(f, 0x0C),
    );
}

} // verus!
