//! Load records: what one sample holds and when the next one is due.

use crate::quantity::Quantity;
use crate::simulation::state::{EnergyType, MeterState};
use crate::time::{floor_div_rem, DateTime};
use vstd::prelude::*;

verus! {

/// Voltages, currents and frequency.
#[derive(Debug, Clone, Copy, PartialEq, Eq, Structural)]
pub struct VifBlock {
    pub voltage_a: Quantity,
    pub voltage_b: Quantity,
    pub voltage_c: Quantity,
    pub current_a: Quantity,
    pub current_b: Quantity,
    pub current_c: Quantity,
    pub frequency: Quantity,
}

/// Active and reactive power.
#[derive(Debug, Clone, Copy, PartialEq, Eq, Structural)]
pub struct PqBlock {
    pub active_total: Quantity,
    pub active_a: Quantity,
    pub active_b: Quantity,
    pub active_c: Quantity,
    pub reactive_total: Quantity,
    pub reactive_a: Quantity,
    pub reactive_b: Quantity,
    pub reactive_c: Quantity,
}

/// Power factors.
#[derive(Debug, Clone, Copy, PartialEq, Eq, Structural)]
pub struct PfBlock {
    pub total: Quantity,
    pub a: Quantity,
    pub b: Quantity,
    pub c: Quantity,
}

/// Active and reactive energy totals.
#[derive(Debug, Clone, Copy, PartialEq, Eq, Structural)]
pub struct EnergyBlock {
    pub forward_active: Quantity,
    pub reverse_active: Quantity,
    pub combined_reactive1: Quantity,
    pub combined_reactive2: Quantity,
}

/// Reactive energy totals of the four quadrants.
#[derive(Debug, Clone, Copy, PartialEq, Eq, Structural)]
pub struct QuadrantBlock {
    pub q1: Quantity,
    pub q2: Quantity,
    pub q3: Quantity,
    pub q4: Quantity,
}

/// Present demand.
#[derive(Debug, Clone, Copy, PartialEq, Eq, Structural)]
pub struct DemandBlock {
    pub active: Quantity,
    pub reactive: Quantity,
}

impl Default for VifBlock {
    /// A block of zeros.
    fn default() -> (r: VifBlock)
        ensures
            r == (VifBlock {
                voltage_a: 0,
                voltage_b: 0,
                voltage_c: 0,
                current_a: 0,
                current_b: 0,
                current_c: 0,
                frequency: 0,
            }),
    {
        VifBlock {
            voltage_a: 0,
            voltage_b: 0,
            voltage_c: 0,
            current_a: 0,
            current_b: 0,
            current_c: 0,
            frequency: 0,
        }
    }
}

impl Default for PqBlock {
    /// A block of zeros.
    fn default() -> (r: PqBlock)
        ensures
            r == (PqBlock {
                active_total: 0,
                active_a: 0,
                active_b: 0,
                active_c: 0,
                reactive_total: 0,
                reactive_a: 0,
                reactive_b: 0,
                reactive_c: 0,
            }),
    {
        PqBlock {
            active_total: 0,
            active_a: 0,
            active_b: 0,
            active_c: 0,
            reactive_total: 0,
            reactive_a: 0,
            reactive_b: 0,
            reactive_c: 0,
        }
    }
}

impl Default for PfBlock {
    /// A block of zeros.
    fn default() -> (r: PfBlock)
        ensures
            r == (PfBlock {
                total: 0,
                a: 0,
                b: 0,
                c: 0,
            }),
    {
        PfBlock {
            total: 0,
            a: 0,
            b: 0,
            c: 0,
        }
    }
}

impl Default for EnergyBlock {
    /// A block of zeros.
    fn default() -> (r: EnergyBlock)
        ensures
            r == (EnergyBlock {
                forward_active: 0,
                reverse_active: 0,
                combined_reactive1: 0,
                combined_reactive2: 0,
            }),
    {
        EnergyBlock {
            forward_active: 0,
            reverse_active: 0,
            combined_reactive1: 0,
            combined_reactive2: 0,
        }
    }
}

impl Default for QuadrantBlock {
    /// A block of zeros.
    fn default() -> (r: QuadrantBlock)
        ensures
            r == (QuadrantBlock {
                q1: 0,
                q2: 0,
                q3: 0,
                q4: 0,
            }),
    {
        QuadrantBlock {
            q1: 0,
            q2: 0,
            q3: 0,
            q4: 0,
        }
    }
}

impl Default for DemandBlock {
    /// A block of zeros.
    fn default() -> (r: DemandBlock)
        ensures
            r == (DemandBlock {
                active: 0,
                reactive: 0,
            }),
    {
        DemandBlock {
            active: 0,
            reactive: 0,
        }
    }
}

/// One sample. Bit 0 to 5 of the mode word select the six blocks; a block that was not
/// selected is absent, which is not the same as a block of zeros.
#[derive(Debug, Clone, Copy, PartialEq, Eq, Structural)]
pub struct LoadRecordData {
    pub vif: Option<VifBlock>,
    pub pq: Option<PqBlock>,
    pub pf: Option<PfBlock>,
    pub energy: Option<EnergyBlock>,
    pub quadrant: Option<QuadrantBlock>,
    pub demand: Option<DemandBlock>,
}

impl Default for LoadRecordData {
    /// No block.
    fn default() -> (r: LoadRecordData)
        ensures
            r == (LoadRecordData {
                vif: None,
                pq: None,
                pf: None,
                energy: None,
                quadrant: None,
                demand: None,
            }),
    {
        LoadRecordData { vif: None, pq: None, pf: None, energy: None, quadrant: None, demand: None }
    }
}

pub open spec fn sampled_vif(s: MeterState) -> VifBlock {
    VifBlock {
        voltage_a: s.voltage_a,
        voltage_b: s.voltage_b,
        voltage_c: s.voltage_c,
        current_a: s.current_a,
        current_b: s.current_b,
        current_c: s.current_c,
        frequency: s.frequency,
    }
}

pub open spec fn sampled_pq(s: MeterState) -> PqBlock {
    PqBlock {
        active_total: s.active_power_total,
        active_a: s.active_power_a,
        active_b: s.active_power_b,
        active_c: s.active_power_c,
        reactive_total: s.reactive_power_total,
        reactive_a: s.reactive_power_a,
        reactive_b: s.reactive_power_b,
        reactive_c: s.reactive_power_c,
    }
}

pub open spec fn sampled_pf(s: MeterState) -> PfBlock {
    PfBlock { total: s.power_factor, a: s.power_factor, b: s.power_factor, c: s.power_factor }
}

pub open spec fn sampled_energy(s: MeterState) -> EnergyBlock {
    EnergyBlock {
        forward_active: s.energy(EnergyType::ForwardActive, 0),
        reverse_active: s.energy(EnergyType::ReverseActive, 0),
        combined_reactive1: s.energy(EnergyType::ForwardReactive, 0),
        combined_reactive2: s.energy(EnergyType::ReverseReactive, 0),
    }
}

pub open spec fn sampled_quadrant(s: MeterState) -> QuadrantBlock {
    QuadrantBlock {
        q1: s.energy(EnergyType::Quadrant1Reactive, 0),
        q2: s.energy(EnergyType::Quadrant2Reactive, 0),
        q3: s.energy(EnergyType::Quadrant3Reactive, 0),
        q4: s.energy(EnergyType::Quadrant4Reactive, 0),
    }
}

pub open spec fn sampled_demand(s: MeterState) -> DemandBlock {
    DemandBlock {
        active: s.demand(0, 0, EnergyType::ForwardActive, 0).value,
        reactive: s.demand(0, 0, EnergyType::ForwardReactive, 0).value,
    }
}

/// What a sample of the state holds under a mode word: each block whose bit is set.
pub open spec fn sample_of(s: MeterState, mode_word: u8) -> LoadRecordData {
    let m = mode_word as int;
    LoadRecordData {
        vif: if m % 2 == 1 {
            Some(sampled_vif(s))
        } else {
            None
        },
        pq: if m / 2 % 2 == 1 {
            Some(sampled_pq(s))
        } else {
            None
        },
        pf: if m / 4 % 2 == 1 {
            Some(sampled_pf(s))
        } else {
            None
        },
        energy: if m / 8 % 2 == 1 {
            Some(sampled_energy(s))
        } else {
            None
        },
        quadrant: if m / 16 % 2 == 1 {
            Some(sampled_quadrant(s))
        } else {
            None
        },
        demand: if m / 32 % 2 == 1 {
            Some(sampled_demand(s))
        } else {
            None
        },
    }
}

impl LoadRecordData {
    /// Takes the blocks that the mode word selects from the present state.
    pub fn from_meter_state(state: &MeterState, mode_word: u8) -> (r: LoadRecordData)
        ensures
            r == sample_of(*state, mode_word),
    {
        let mut r = LoadRecordData::default();
        if mode_word % 2 == 1 {
            r.vif = Some(
                VifBlock {
                    voltage_a: state.voltage_a,
                    voltage_b: state.voltage_b,
                    voltage_c: state.voltage_c,
                    current_a: state.current_a,
                    current_b: state.current_b,
                    current_c: state.current_c,
                    frequency: state.frequency,
                },
            );
        }
        if mode_word / 2 % 2 == 1 {
            r.pq = Some(
                PqBlock {
                    active_total: state.active_power_total,
                    active_a: state.active_power_a,
                    active_b: state.active_power_b,
                    active_c: state.active_power_c,
                    reactive_total: state.reactive_power_total,
                    reactive_a: state.reactive_power_a,
                    reactive_b: state.reactive_power_b,
                    reactive_c: state.reactive_power_c,
                },
            );
        }
        if mode_word / 4 % 2 == 1 {
            r.pf = Some(
                PfBlock {
                    total: state.power_factor,
                    a: state.power_factor,
                    b: state.power_factor,
                    c: state.power_factor,
                },
            );
        }
        if mode_word / 8 % 2 == 1 {
            r.energy = Some(
                EnergyBlock {
                    forward_active: state.get_energy(EnergyType::ForwardActive, None),
                    reverse_active: state.get_energy(EnergyType::ReverseActive, None),
                    combined_reactive1: state.get_energy(EnergyType::ForwardReactive, None),
                    combined_reactive2: state.get_energy(EnergyType::ReverseReactive, None),
                },
            );
        }
        if mode_word / 16 % 2 == 1 {
            r.quadrant = Some(
                QuadrantBlock {
                    q1: state.get_energy(EnergyType::Quadrant1Reactive, None),
                    q2: state.get_energy(EnergyType::Quadrant2Reactive, None),
                    q3: state.get_energy(EnergyType::Quadrant3Reactive, None),
                    q4: state.get_energy(EnergyType::Quadrant4Reactive, None),
                },
            );
        }
        if mode_word / 32 % 2 == 1 {
            r.demand = Some(
                DemandBlock {
                    active: state.get_demand(0, 0, EnergyType::ForwardActive, None).value,
                    reactive: state.get_demand(0, 0, EnergyType::ForwardReactive, None).value,
                },
            );
        }
        r
    }
}

/// One sample of one class of load records.
#[derive(Debug, Clone, Copy, PartialEq, Eq, Structural)]
pub struct LoadRecordSample {
    /// 1 to 6
    pub class_id: u8,
    pub sample_time: DateTime,
    pub data: LoadRecordData,
}

/// When each class was last sampled.
#[derive(Debug, Clone, Copy)]
pub struct LoadProfileSamplingState {
    pub last_sample_times: [Option<DateTime>; 6],
}

/// The start of the sampling period that a time belongs to, in seconds since the start
/// of 1970. Periods are counted from there.
pub open spec fn aligned(t: DateTime, interval_minutes: u16) -> int {
    let period = interval_minutes * 60;
    t.secs() / period * period
}

/// Whether class `class_idx` is due at `now`: on a period boundary if it was never
/// sampled, else as soon as a later period than that of the last sample has begun. It
/// is never due when the clock has been put back.
pub open spec fn sample_due(
    last: Option<DateTime>,
    now: DateTime,
    interval_minutes: u16,
) -> bool {
    interval_minutes != 0 && match last {
        None => now.secs() % (interval_minutes * 60) == 0,
        Some(t) => t.total_nanos() <= now.total_nanos() && aligned(now, interval_minutes) > aligned(
            t,
            interval_minutes,
        ),
    }
}

impl Default for LoadProfileSamplingState {
    fn default() -> (r: LoadProfileSamplingState)
        ensures
            r.last_sample_times@ == Seq::new(6, |i: int| None::<DateTime>),
    {
        let r = LoadProfileSamplingState { last_sample_times: [None, None, None, None, None, None] };
        assert(r.last_sample_times@ =~= Seq::new(6, |i: int| None::<DateTime>));
        r
    }
}

impl LoadProfileSamplingState {
    /// The state after a restart, from the stored sample times.
    pub fn from_last_sample_times(times: [Option<DateTime>; 6]) -> (r: LoadProfileSamplingState)
        ensures
            r.last_sample_times == times,
    {
        LoadProfileSamplingState { last_sample_times: times }
    }

    /// The state after asking whether a class is due: a clock that was put back makes the
    /// class forget its last sample.
    pub open spec fn asked(self, class_idx: int, now: DateTime, interval_minutes: u16) -> Seq<
        Option<DateTime>,
    > {
        if interval_minutes != 0 && 0 <= class_idx < 6 && (
        self.last_sample_times@[class_idx] matches Some(t) && now.total_nanos() < t.total_nanos()) {
            self.last_sample_times@.update(class_idx, None)
        } else {
            self.last_sample_times@
        }
    }

    /// Whether a class is due.
    pub fn should_sample(
        &mut self,
        class_idx: usize,
        current_time: &DateTime,
        interval_minutes: u16,
    ) -> (r: bool)
        ensures
            r == (class_idx < 6 && sample_due(
                old(self).last_sample_times@[class_idx as int],
                *current_time,
                interval_minutes,
            )),
            final(self).last_sample_times@ == old(self).asked(
                class_idx as int,
                *current_time,
                interval_minutes,
            ),
    {
        if interval_minutes == 0 {
            return false;
        }
        if class_idx >= 6 {
            return false;
        }
        match self.last_sample_times[class_idx] {
            None => {
                let (_q, rest) = floor_div_rem(
                    current_time.timestamp(),
                    interval_minutes as i64 * 60,
                );
                rest == 0
            },
            Some(last_time) => {
                if current_time.is_before(&last_time) {
                    self.last_sample_times[class_idx] = None;
                    assert(self.last_sample_times@ =~= old(self).last_sample_times@.update(
                        class_idx as int,
                        None,
                    ));
                    return false;
                }
                aligned_slot(current_time, interval_minutes) > aligned_slot(
                    &last_time,
                    interval_minutes,
                )
            },
        }
    }

    /// Notes that a class was sampled.
    pub fn update_sample_time(&mut self, class_idx: usize, sample_time: DateTime)
        ensures
            final(self).last_sample_times@ == (if class_idx < 6 {
                old(self).last_sample_times@.update(class_idx as int, Some(sample_time))
            } else {
                old(self).last_sample_times@
            }),
    {
        if class_idx < 6 {
            self.last_sample_times[class_idx] = Some(sample_time);
            assert(self.last_sample_times@ =~= old(self).last_sample_times@.update(
                class_idx as int,
                Some(sample_time),
            ));
        }
    }
}

/// The start of the sampling period that `t` belongs to.
fn aligned_slot(t: &DateTime, interval_minutes: u16) -> (r: i64)
    requires
        interval_minutes != 0,
    ensures
        r == aligned(*t, interval_minutes),
{
    let period: i64 = interval_minutes as i64 * 60;
    let secs: i64 = t.timestamp();
    let (q, rest) = floor_div_rem(secs, period);
    proof {
        vstd::arithmetic::div_mod::lemma_fundamental_div_mod(secs as int, period as int);
        assert(q * period == secs - rest) by (nonlinear_arith)
            requires
                secs == period * q + rest,
        ;
        assert(q as int * (interval_minutes * 60) == secs - rest);
    }
    secs - rest
}

/// A class is sampled at most once in a period: after a sample it is not due again
/// before the next period begins, and then it is.
pub proof fn law_one_sample_per_period(last: DateTime, now: DateTime, interval_minutes: u16)
    requires
        last.total_nanos() <= now.total_nanos(),
        interval_minutes != 0,
    ensures
        sample_due(Some(last), now, interval_minutes) <==> now.secs() >= aligned(
            last,
            interval_minutes,
        ) + interval_minutes * 60,
{
    let p = interval_minutes * 60;
    let (a, b) = (last.secs() / p, now.secs() / p);
    vstd::arithmetic::div_mod::lemma_fundamental_div_mod(last.secs(), p);
    vstd::arithmetic::div_mod::lemma_fundamental_div_mod(now.secs(), p);
    assert(p > 0);
    assert((b * p > a * p) <==> now.secs() >= a * p + p) by (nonlinear_arith)
        requires
            p > 0,
            now.secs() == p * b + now.secs() % p,
            0 <= now.secs() % p < p,
    ;
}

} // verus!
