//! What is due at a moment: freezes and load record samples; and the status words.

use crate::simulation::config::DerivedStatusWords;
use crate::simulation::di_handler::encoding::{bcd_to_decimal, decimal_of, year_first_fields};
use crate::simulation::faults::Baseline;
use crate::simulation::freeze::FreezeType;
use crate::simulation::load_record::{
    sample_due, sample_of, LoadRecordData, LoadRecordSample,
};
use crate::simulation::state::{event_key, make_event_key, MeterState};
use crate::table::Table;
use crate::time::{Calendar, DateTime};
use vstd::prelude::*;

verus! {

/// How many samples of each class are kept in memory.
pub const RECENT_SAMPLES: usize = 5;

/// The number that two digits stand for.
pub fn bcd_to_dec(bcd: u8) -> (r: u32)
    ensures
        r == decimal_of(bcd),
{
    bcd_to_decimal(bcd) as u32
}

/// Reads YYMMDDhhmm; `None` where there is no such time.
pub fn decode_bcd_datetime(bcd: &[u8; 5]) -> (r: Option<DateTime>)
    ensures
        r is Some <==> year_first_fields(bcd@).valid(),
        r matches Some(t) ==> t.cal() == year_first_fields(bcd@) && t.secs() == year_first_fields(
            bcd@,
        ).seconds() && t.subsec_nanos() == 0,
{
    DateTime::with_ymd_and_hms(
        2000 + bcd_to_dec(bcd[0]) as i32,
        bcd_to_dec(bcd[1]),
        bcd_to_dec(bcd[2]),
        bcd_to_dec(bcd[3]),
        bcd_to_dec(bcd[4]),
        0,
    )
}

/// The time that MMDDhhmm names in the year of `reference`.
pub open spec fn start_fields(bcd: Seq<u8>, reference: DateTime) -> Calendar {
    Calendar {
        year: reference.cal().year,
        month: decimal_of(bcd[0]) as u32,
        day: decimal_of(bcd[1]) as u32,
        hour: decimal_of(bcd[2]) as u32,
        minute: decimal_of(bcd[3]) as u32,
        second: 0,
    }
}

/// Reads MMDDhhmm in the year of `reference`; `None` where all digits are zero or there is
/// no such time.
pub fn decode_bcd_start_time(bcd: &[u8; 4], reference: &DateTime) -> (r: Option<DateTime>)
    ensures
        r is Some <==> start_fields(bcd@, *reference).valid(),
        r matches Some(t) ==> t.secs() == start_fields(bcd@, *reference).seconds()
            && t.subsec_nanos() == 0,
{
    let (mm, dd, hh, mi): (u32, u32, u32, u32) = (
        bcd_to_dec(bcd[0]),
        bcd_to_dec(bcd[1]),
        bcd_to_dec(bcd[2]),
        bcd_to_dec(bcd[3]),
    );
    if mm == 0 && dd == 0 && hh == 0 && mi == 0 {
        return None;
    }
    DateTime::with_ymd_and_hms(reference.year(), mm, dd, hh, mi, 0)
}

/// The time is not before the one that the calendar fields name.
pub open spec fn reached(now: DateTime, c: Calendar) -> bool {
    c.seconds() * 1_000_000_000 <= now.total_nanos()
}

/// Mode 3 freezes on the hour, mode 2 at midnight, mode 1 at midnight on the first of a
/// month.
pub open spec fn timed_freeze_due(s: MeterState) -> bool {
    let c = s.virtual_time.cal();
    let mode = s.freeze_config.timed_freeze_mode;
    ||| mode == 3 && c.minute == 0 && c.second == 0
    ||| mode == 2 && c.hour == 0 && c.minute == 0 && c.second == 0
    ||| mode == 1 && c.day == 1 && c.hour == 0 && c.minute == 0 && c.second == 0
}

/// At the configured minute of the day.
pub open spec fn daily_freeze_due(s: MeterState) -> bool {
    let c = s.virtual_time.cal();
    s.daily_freeze_mode != 0 && c.hour == decimal_of(s.daily_freeze_time@[0]) && c.minute
        == decimal_of(s.daily_freeze_time@[1]) && c.second == 0
}

/// From the start time on, whenever the minute of the day is a multiple of the interval.
pub open spec fn hourly_freeze_due(s: MeterState) -> bool {
    let c = s.virtual_time.cal();
    let start = year_first_fields(s.hourly_freeze_start@);
    s.hourly_freeze_mode != 0 && s.hourly_freeze_interval_min > 0 && start.valid() && reached(
        s.virtual_time,
        start,
    ) && c.second == 0 && (c.hour * 60 + c.minute) % s.hourly_freeze_interval_min as int == 0
}

/// Once, as soon as the appointed time is reached.
pub open spec fn appointed_freeze_due(s: MeterState) -> bool {
    let target = year_first_fields(s.appointment_freeze_time@);
    s.freeze_config.appointment_freeze_mode != 0 && !s.appointment_freeze_fired && target.valid()
        && reached(s.virtual_time, target)
}

pub open spec fn if_due(due: bool, t: FreezeType) -> Seq<FreezeType> {
    if due {
        seq![t]
    } else {
        Seq::empty()
    }
}

/// All freezes that are due. None of them keeps another from being due.
pub open spec fn due_freezes(s: MeterState) -> Seq<FreezeType> {
    if_due(timed_freeze_due(s), FreezeType::Timed) + if_due(
        daily_freeze_due(s),
        FreezeType::Daily,
    ) + if_due(hourly_freeze_due(s), FreezeType::Hourly) + if_due(
        appointed_freeze_due(s),
        FreezeType::Appointment,
    )
}

/// Notes the freezes that are due.
pub fn check_freeze_schedule(state: &mut MeterState)
    ensures
        final(state).pending_freeze_triggers@ == old(state).pending_freeze_triggers@ + due_freezes(
            *old(state),
        ),
        *final(state) == (MeterState {
            pending_freeze_triggers: final(state).pending_freeze_triggers,
            appointment_freeze_fired: old(state).appointment_freeze_fired || appointed_freeze_due(
                *old(state),
            ),
            ..*old(state)
        }),
{
    let now = state.virtual_time;
    let c = now.calendar();
    let ghost s = *state;
    let ghost p0 = state.pending_freeze_triggers@;
    let mode: u8 = state.freeze_config.timed_freeze_mode;
    let timed: bool = (mode == 3 && c.minute == 0 && c.second == 0) || (mode == 2 && c.hour == 0
        && c.minute == 0 && c.second == 0) || (mode == 1 && c.day == 1 && c.hour == 0 && c.minute
        == 0 && c.second == 0);
    if timed {
        state.pending_freeze_triggers.push(FreezeType::Timed);
    }
    let ghost p1 = state.pending_freeze_triggers@;
    assert(p1 =~= p0 + if_due(timed_freeze_due(s), FreezeType::Timed));
    if state.daily_freeze_mode != 0 {
        let hh: u32 = bcd_to_dec(state.daily_freeze_time[0]);
        let mm: u32 = bcd_to_dec(state.daily_freeze_time[1]);
        if c.hour == hh && c.minute == mm && c.second == 0 {
            state.pending_freeze_triggers.push(FreezeType::Daily);
        }
    }
    let ghost p2 = state.pending_freeze_triggers@;
    assert(p2 =~= p1 + if_due(daily_freeze_due(s), FreezeType::Daily));
    if state.hourly_freeze_mode != 0 && state.hourly_freeze_interval_min > 0 {
        if let Some(start) = decode_bcd_datetime(&state.hourly_freeze_start) {
            let minute: u32 = c.hour * 60 + c.minute;
            if !now.is_before(&start) && c.second == 0 && minute
                % state.hourly_freeze_interval_min as u32 == 0 {
                state.pending_freeze_triggers.push(FreezeType::Hourly);
            }
        }
    }
    let ghost p3 = state.pending_freeze_triggers@;
    assert(p3 =~= p2 + if_due(hourly_freeze_due(s), FreezeType::Hourly));
    if state.freeze_config.appointment_freeze_mode != 0 && !state.appointment_freeze_fired {
        if let Some(target) = decode_bcd_datetime(&state.appointment_freeze_time) {
            if !now.is_before(&target) {
                state.appointment_freeze_fired = true;
                state.pending_freeze_triggers.push(FreezeType::Appointment);
            }
        }
    }
    assert(state.pending_freeze_triggers@ =~= p3 + if_due(
        appointed_freeze_due(s),
        FreezeType::Appointment,
    ));
    assert(state.pending_freeze_triggers@ =~= p0 + due_freezes(s));
}

/// An appointed freeze is due once only.
pub proof fn law_appointment_fires_once(s: MeterState)
    requires
        s.appointment_freeze_fired,
    ensures
        !appointed_freeze_due(s),
{
}

/// Daily and timed freezes at the same moment are both due.
pub proof fn law_freezes_do_not_exclude_each_other(s: MeterState)
    requires
        timed_freeze_due(s),
        daily_freeze_due(s),
    ensures
        due_freezes(s).contains(FreezeType::Timed),
        due_freezes(s).contains(FreezeType::Daily),
{
    assert(due_freezes(s)[0] == FreezeType::Timed);
    assert(due_freezes(s)[1] == FreezeType::Daily);
}

/// Sampling has begun and the mode word selects something.
pub open spec fn sampling_on(s: MeterState) -> bool {
    let start = start_fields(s.load_record_start_time@, s.virtual_time);
    s.load_record_config.mode_word != 0 && !(start.valid() && !reached(s.virtual_time, start))
}

/// A class (0 to 5) is due.
pub open spec fn class_due(s: MeterState, i: int) -> bool {
    sample_due(
        s.load_profile_state.last_sample_times@[i],
        s.virtual_time,
        s.load_record_config.intervals@[i],
    )
}

/// The sample of a class (0 to 5).
pub open spec fn class_sample(s: MeterState, i: int) -> LoadRecordSample {
    LoadRecordSample {
        class_id: (i + 1) as u8,
        sample_time: s.virtual_time,
        data: sample_of(s, s.load_record_config.mode_word),
    }
}

/// The samples of the first `n` classes, in their order.
pub open spec fn samples_due(s: MeterState, n: nat) -> Seq<LoadRecordSample>
    decreases n,
{
    if n == 0 {
        Seq::empty()
    } else if class_due(s, n - 1) {
        samples_due(s, (n - 1) as nat).push(class_sample(s, n - 1))
    } else {
        samples_due(s, (n - 1) as nat)
    }
}

/// When class `i` was last sampled, afterwards.
pub open spec fn last_sample_after(s: MeterState, i: int) -> Option<DateTime> {
    if class_due(s, i) {
        Some(s.virtual_time)
    } else {
        s.load_profile_state.asked(i, s.virtual_time, s.load_record_config.intervals@[i])[i]
    }
}

/// The recent samples of class `i`, afterwards: the new one first, five at most.
pub open spec fn recent_after(s: MeterState, i: int) -> Seq<LoadRecordSample> {
    let before = recent_of(s, i);
    if class_due(s, i) {
        let all = seq![class_sample(s, i)] + before;
        if all.len() > 5 {
            all.take(5)
        } else {
            all
        }
    } else {
        before
    }
}

/// The recent samples of class `i` (0 to 5).
pub open spec fn recent_of(s: MeterState, i: int) -> Seq<LoadRecordSample> {
    if s.recent_load_records@.contains_key((i + 1) as u32) {
        s.recent_load_records@[(i + 1) as u32]@
    } else {
        Seq::empty()
    }
}

fn keep_recent(recent: &mut Table<Vec<LoadRecordSample>>, class_id: u8, sample: LoadRecordSample)
    ensures
        final(recent)@ == old(recent)@.insert(
            class_id as u32,
            final(recent)@[class_id as u32],
        ),
        final(recent)@[class_id as u32]@ == ({
            let before = if old(recent)@.contains_key(class_id as u32) {
                old(recent)@[class_id as u32]@
            } else {
                Seq::empty()
            };
            let all = seq![sample] + before;
            if all.len() > 5 {
                all.take(5)
            } else {
                all
            }
        }),
{
    let ghost m = recent@;
    let mut list: Vec<LoadRecordSample> = match recent.remove(class_id as u32) {
        Some(v) => v,
        None => Vec::new(),
    };
    let ghost before = list@;
    list.insert(0, sample);
    assert(list@ =~= seq![sample] + before);
    let ghost all = list@;
    while list.len() > RECENT_SAMPLES
        invariant
            list@.len() <= all.len(),
            list@ == all.take(list@.len() as int),
            all.len() > 5 ==> list@.len() >= 5,
            all.len() <= 5 ==> list@.len() == all.len(),
        decreases list@.len(),
    {
        list.pop();
        assert(list@ =~= all.take(list@.len() as int));
    }
    assert(list@ =~= (if all.len() > 5 {
        all.take(5)
    } else {
        all
    }));
    recent.insert(class_id as u32, list);
    assert(recent@ =~= m.insert(class_id as u32, list));
}

/// The recent samples under a key are the same.
pub open spec fn recent_kept(s0: MeterState, s1: MeterState, k: u32) -> bool {
    &&& s1.recent_load_records@.contains_key(k) == s0.recent_load_records@.contains_key(k)
    &&& s0.recent_load_records@.contains_key(k) ==> s1.recent_load_records@[k]
        == s0.recent_load_records@[k]
}

/// Only what sampling keeps differs.
pub open spec fn only_sampling_differs(s0: MeterState, s1: MeterState) -> bool {
    s1 == (MeterState {
        load_profile_state: s1.load_profile_state,
        recent_load_records: s1.recent_load_records,
        ..s0
    })
}

/// The samples that are due were taken and noted.
pub open spec fn sampling_done(
    s0: MeterState,
    s1: MeterState,
    samples: Seq<LoadRecordSample>,
) -> bool {
    &&& only_sampling_differs(s0, s1)
    &&& if sampling_on(s0) {
        &&& samples == samples_due(s0, 6)
        &&& forall|i: int|
            0 <= i < 6 ==> (#[trigger] s1.load_profile_state.last_sample_times@[i])
                == last_sample_after(s0, i)
        &&& forall|i: int| 0 <= i < 6 ==> #[trigger] recent_of(s1, i) == recent_after(s0, i)
        &&& forall|k: u32| !(1 <= k <= 6) ==> #[trigger] recent_kept(s0, s1, k)
    } else {
        samples.len() == 0 && s1 == s0
    }
}

/// Takes the samples that are due and notes them.
pub fn check_load_record_sampling(state: &mut MeterState) -> (r: Vec<LoadRecordSample>)
    ensures
        sampling_done(*old(state), *final(state), r@),
{
    let mut samples: Vec<LoadRecordSample> = Vec::new();
    let now = state.virtual_time;
    if let Some(start) = decode_bcd_start_time(&state.load_record_start_time, &now) {
        if now.is_before(&start) {
            return samples;
        }
    }
    let mode_word: u8 = state.load_record_config.mode_word;
    if mode_word == 0 {
        return samples;
    }
    let ghost s = *state;
    for i in 0..6usize
        invariant
            now == s.virtual_time,
            mode_word == s.load_record_config.mode_word,
            only_sampling_differs(s, *state),
            samples@ == samples_due(s, i as nat),
            forall|j: int|
                0 <= j < i ==> (#[trigger] state.load_profile_state.last_sample_times@[j])
                    == last_sample_after(s, j),
            forall|j: int|
                i <= j < 6 ==> (#[trigger] state.load_profile_state.last_sample_times@[j])
                    == s.load_profile_state.last_sample_times@[j],
            forall|j: int| 0 <= j < i ==> #[trigger] recent_of(*state, j) == recent_after(s, j),
            forall|j: int| i <= j < 6 ==> #[trigger] recent_of(*state, j) == recent_of(s, j),
            forall|k: u32| !(1 <= k <= 6) ==> #[trigger] recent_kept(s, *state, k),
    {
        let interval: u16 = state.load_record_config.intervals[i];
        let ghost before = *state;
        assert(recent_of(before, i as int) == recent_of(s, i as int));
        assert(before.load_profile_state.last_sample_times@[i as int]
            == s.load_profile_state.last_sample_times@[i as int]);
        if state.load_profile_state.should_sample(i, &now, interval) {
            let data = LoadRecordData::from_meter_state(state, mode_word);
            let class_id: u8 = i as u8 + 1;
            let sample = LoadRecordSample { class_id, sample_time: now, data };
            proof {
                lemma_sample_ignores_history(s, *state, mode_word);
            }
            samples.push(sample);
            keep_recent(&mut state.recent_load_records, class_id, sample);
            state.load_profile_state.update_sample_time(i, now);
            assert(recent_of(*state, i as int) =~= recent_after(s, i as int));
        }
        assert forall|j: int| 0 <= j < 6 && j != i implies #[trigger] recent_of(*state, j)
            == recent_of(before, j) by {
            assert((j + 1) as u32 != (i + 1) as u32);
        }
        assert(recent_of(*state, i as int) == recent_after(s, i as int));
        assert forall|j: int| 0 <= j < i + 1 implies #[trigger] recent_of(*state, j)
            == recent_after(s, j) by {
            if j < i {
                assert(recent_of(before, j) == recent_after(s, j));
            }
        }
        assert forall|k: u32| !(1 <= k <= 6) implies #[trigger] recent_kept(s, *state, k) by {
            assert(recent_kept(s, before, k));
        }
        assert forall|j: int| i + 1 <= j < 6 implies #[trigger] recent_of(*state, j) == recent_of(
            s,
            j,
        ) by {
            assert(recent_of(before, j) == recent_of(s, j));
        }
    }
    samples
}

proof fn lemma_sample_ignores_history(s0: MeterState, s1: MeterState, mode_word: u8)
    requires
        only_sampling_differs(s0, s1),
    ensures
        sample_of(s0, mode_word) == sample_of(s1, mode_word),
{
}

/// Status word of a phase: bit 0 loss of voltage, bit 1 overvoltage, bit 2 loss of current,
/// bit 3 overcurrent.
pub open spec fn phase_status(faults: Map<u32, Baseline>, phase: u8) -> u16 {
    status_bits(
        faults.contains_key(event_key(0x01, phase)),
        faults.contains_key(event_key(0x03, phase)),
        faults.contains_key(event_key(0x0B, phase)),
        faults.contains_key(event_key(0x0C, phase)),
    )
}

pub open spec fn status_bits(b0: bool, b1: bool, b2: bool, b3: bool) -> u16 {
    ((if b0 {
        1int
    } else {
        0
    }) + (if b1 {
        2int
    } else {
        0
    }) + (if b2 {
        4int
    } else {
        0
    }) + (if b3 {
        8int
    } else {
        0
    })) as u16
}

/// A kind of fault is active in some phase.
pub open spec fn in_some_phase(faults: Map<u32, Baseline>, event_type: u8) -> bool {
    faults.contains_key(event_key(event_type, 1)) || faults.contains_key(event_key(event_type, 2))
        || faults.contains_key(event_key(event_type, 3))
}

/// The status words that follow from power and faults; the others stay.
pub open spec fn status_of(s: MeterState, faults: Map<u32, Baseline>) -> DerivedStatusWords {
    DerivedStatusWords {
        status_word_1: if s.active_power_total > 0 {
            1
        } else {
            2
        },
        status_word_4: phase_status(faults, 1),
        status_word_5: phase_status(faults, 2),
        status_word_6: phase_status(faults, 3),
        status_word_7: status_bits(
            in_some_phase(faults, 0x01),
            in_some_phase(faults, 0x03),
            in_some_phase(faults, 0x0B),
            in_some_phase(faults, 0x0C),
        ),
        ..s.derived_status
    }
}

fn bits(b0: bool, b1: bool, b2: bool, b3: bool) -> (r: u16)
    ensures
        r == status_bits(b0, b1, b2, b3),
{
    let mut r: u16 = 0;
    if b0 {
        r = r + 1;
    }
    if b1 {
        r = r + 2;
    }
    if b2 {
        r = r + 4;
    }
    if b3 {
        r = r + 8;
    }
    r
}

fn active(faults: &Table<Baseline>, event_type: u8, phase: u8) -> (r: bool)
    ensures
        r == faults@.contains_key(event_key(event_type, phase)),
{
    faults.contains_key(make_event_key(event_type, phase))
}

/// Sets the status words that follow from power and faults.
pub fn update_derived_status(state: &mut MeterState, faults: &Table<Baseline>)
    ensures
        *final(state) == (MeterState {
            derived_status: status_of(*old(state), faults@),
            ..*old(state)
        }),
{
    let (a0, a1, a2, a3): (bool, bool, bool, bool) = (
        active(faults, 0x01, 1),
        active(faults, 0x03, 1),
        active(faults, 0x0B, 1),
        active(faults, 0x0C, 1),
    );
    let (b0, b1, b2, b3): (bool, bool, bool, bool) = (
        active(faults, 0x01, 2),
        active(faults, 0x03, 2),
        active(faults, 0x0B, 2),
        active(faults, 0x0C, 2),
    );
    let (c0, c1, c2, c3): (bool, bool, bool, bool) = (
        active(faults, 0x01, 3),
        active(faults, 0x03, 3),
        active(faults, 0x0B, 3),
        active(faults, 0x0C, 3),
    );
    state.derived_status.status_word_1 = if state.active_power_total > 0 {
        1
    } else {
        2
    };
    state.derived_status.status_word_4 = bits(a0, a1, a2, a3);
    state.derived_status.status_word_5 = bits(b0, b1, b2, b3);
    state.derived_status.status_word_6 = bits(c0, c1, c2, c3);
    state.derived_status.status_word_7 = bits(
        a0 || b0 || c0,
        a1 || b1 || c1,
        a2 || b2 || c2,
        a3 || b3 || c3,
    );
}

} // verus!
