//! The simulation of a meter: time passes, load flows, and everything that follows.

use crate::quantity::Quantity;
use crate::simulation::demand_window::{
    calculation_due, demands_updated, slid, update_max_demand, PowerSample,
};
use crate::simulation::faults::{
    detect_events, fault_present, fault_step, only_events_differ, Baseline,
};
use crate::simulation::load_model::{LoadModelConfig, LoadProfile};
use crate::simulation::load_record::LoadRecordSample;
use crate::simulation::measurement::{
    accumulate, counted, credited, fresh_counter, measure, measured, pulses_due, whole_pulses,
    CounterModel, Noise, PulseCounter,
};
use crate::simulation::schedule::{
    appointed_freeze_due, check_freeze_schedule, due_freezes, sampling_done, status_of,
    update_derived_status,
};
use crate::simulation::state::{rolled_over, rollover_due, MeterState};
use crate::table::Table;
use crate::time::{DateTime, MAX_SECONDS};
use vstd::prelude::*;

verus! {

/// What the simulation remembers between steps, apart from the state of the meter.
#[derive(Debug)]
pub struct PhysicsEngine {
    load_model_config: LoadModelConfig,
    pulse_accumulator: PulseCounter,
    demand_window: Vec<PowerSample>,
    last_demand_calc: Option<DateTime>,
    /// active faults with the energies at their beginning
    active_faults: Table<Baseline>,
    /// injected faults, each once
    forced_faults: Vec<(u8, u8)>,
}

/// What the simulation remembers, as a mathematical value.
pub ghost struct EngineModel {
    pub load_model: LoadModelConfig,
    pub counter: CounterModel,
    pub window: Seq<PowerSample>,
    pub last_calculation: Option<DateTime>,
    pub faults: Map<u32, Baseline>,
    pub forced: Seq<(u8, u8)>,
}

impl View for PhysicsEngine {
    type V = EngineModel;

    closed spec fn view(&self) -> EngineModel {
        EngineModel {
            load_model: self.load_model_config,
            counter: self.pulse_accumulator@,
            window: self.demand_window@,
            last_calculation: self.last_demand_calc,
            faults: self.active_faults@,
            forced: self.forced_faults@,
        }
    }
}

/// Simulated nanoseconds in a step: the elapsed time multiplied by the time scale.
pub open spec fn simulated_nanos(elapsed_nanos: u64, time_scale: Quantity) -> int {
    elapsed_nanos * time_scale / 1_000_000_000
}

/// The clock has advanced by the whole milliseconds of the step. The first step also fixes
/// the moment from which settlement days are looked for.
pub open spec fn clock_advanced(s0: MeterState, s1: MeterState, nanos: int) -> bool {
    &&& s1.virtual_time.total_nanos() == s0.virtual_time.total_nanos() + nanos / 1_000_000
        * 1_000_000
    &&& s1 == (MeterState {
        virtual_time: s1.virtual_time,
        last_settlement_rollover: match s0.last_settlement_rollover {
            Some(t) => Some(t),
            None => Some(s0.virtual_time),
        },
        ..s0
    })
}

/// Whole pulses of the present power were credited.
pub open spec fn energy_accumulated(
    c0: CounterModel,
    s0: MeterState,
    c1: CounterModel,
    s1: MeterState,
    nanos: int,
) -> bool {
    &&& c1 == counted(c0, s0, nanos as u64)
    &&& s1.energy_registers@ == credited(
        c0,
        s0,
        whole_pulses(pulses_due(c0, s0, nanos as u64)),
    )
    &&& s1 == (MeterState { energy_registers: s1.energy_registers, ..s0 })
}

/// A settlement took place if one was due.
pub open spec fn settled(s0: MeterState, s1: MeterState, rolled: bool) -> bool {
    &&& rolled == rollover_due(s0)
    &&& if rolled {
        rolled_over(s0, s1)
    } else {
        s1 == (MeterState { last_settlement_rollover: Some(s0.virtual_time), ..s0 })
    }
}

/// The freezes that are due were noted.
pub open spec fn freezes_noted(s0: MeterState, s1: MeterState) -> bool {
    &&& s1.pending_freeze_triggers@ == s0.pending_freeze_triggers@ + due_freezes(s0)
    &&& s1 == (MeterState {
        pending_freeze_triggers: s1.pending_freeze_triggers,
        appointment_freeze_fired: s0.appointment_freeze_fired || appointed_freeze_due(s0),
        ..s0
    })
}

/// One step, through the states between: the clock advances, the load is measured, energy
/// is counted, demands are raised, faults begin and end, a due settlement takes place, due
/// freezes are noted, and the status words follow.
pub open spec fn step_through(
    e0: EngineModel,
    s0: MeterState,
    e1: EngineModel,
    s1: MeterState,
    nanos: int,
    noise: Noise,
    rolled: bool,
    clocked: MeterState,
    charged: MeterState,
    demanded: MeterState,
    watched: MeterState,
    closed_books: MeterState,
    noted: MeterState,
) -> bool {
    &&& clock_advanced(s0, clocked, nanos)
    &&& energy_accumulated(
        e0.counter,
        measured(clocked, e0.load_model, noise),
        e1.counter,
        charged,
        nanos,
    )
    &&& e1.window == slid(e0.window, charged)
    &&& e1.last_calculation == (if calculation_due(e0.last_calculation, charged) {
        Some(charged.virtual_time)
    } else {
        e0.last_calculation
    })
    &&& demands_updated(charged, demanded, e1.window, e0.last_calculation)
    &&& only_events_differ(demanded, watched)
    &&& forall|e: u8, t: u8| #[trigger]
        fault_step(
            e0.faults,
            demanded,
            e1.faults,
            watched,
            e,
            t,
            fault_present(demanded, e0.forced, e, t),
        )
    &&& settled(watched, closed_books, rolled)
    &&& freezes_noted(closed_books, noted)
    &&& s1 == (MeterState { derived_status: status_of(noted, e1.faults), ..noted })
    &&& e1.load_model == e0.load_model
    &&& e1.forced == e0.forced
}

/// One step of the simulation, given the noise.
pub open spec fn stepped(
    e0: EngineModel,
    s0: MeterState,
    e1: EngineModel,
    s1: MeterState,
    nanos: int,
    noise: Noise,
    rolled: bool,
) -> bool {
    exists|
        clocked: MeterState,
        charged: MeterState,
        demanded: MeterState,
        watched: MeterState,
        closed_books: MeterState,
        noted: MeterState,
    | #[trigger]
        step_through(
            e0,
            s0,
            e1,
            s1,
            nanos,
            noise,
            rolled,
            clocked,
            charged,
            demanded,
            watched,
            closed_books,
            noted,
        )
}

/// A step can be taken: the power factor has a range, and the step is short enough for the
/// clock.
pub open spec fn can_step(e: EngineModel, s: MeterState, elapsed_nanos: u64, time_scale: Quantity) -> bool {
    let nanos = simulated_nanos(elapsed_nanos, time_scale);
    &&& e.load_model.power_factor_min <= e.load_model.power_factor_max
    &&& 0 <= time_scale
    &&& nanos <= u64::MAX
    &&& (s.virtual_time.total_nanos() + nanos / 1_000_000 * 1_000_000) / 1_000_000_000 <= MAX_SECONDS
}

impl PhysicsEngine {
    /// Less than one pulse is left over.
    pub closed spec fn wf(self) -> bool {
        self.pulse_accumulator.wf()
    }

    /// A simulation that has not begun.
    pub fn new(config: LoadModelConfig) -> (r: PhysicsEngine)
        ensures
            r.wf(),
            r@ == (EngineModel {
                load_model: config,
                counter: fresh_counter(),
                window: Seq::empty(),
                last_calculation: None,
                faults: Map::empty(),
                forced: Seq::empty(),
            }),
    {
        PhysicsEngine {
            load_model_config: config,
            pulse_accumulator: PulseCounter::new(),
            demand_window: Vec::new(),
            last_demand_calc: None,
            active_faults: Table::new(),
            forced_faults: Vec::new(),
        }
    }

    pub fn set_load_profile(&mut self, profile: LoadProfile)
        ensures
            final(self)@ == (EngineModel {
                load_model: LoadModelConfig { profile, ..old(self)@.load_model },
                ..old(self)@
            }),
            old(self).wf() ==> final(self).wf(),
    {
        self.load_model_config.profile = profile;
    }

    pub fn load_profile(&self) -> (r: LoadProfile)
        ensures
            r == self@.load_model.profile,
    {
        self.load_model_config.profile
    }

    pub fn load_model_config(&self) -> (r: &LoadModelConfig)
        ensures
            *r == self@.load_model,
    {
        &self.load_model_config
    }

    pub fn set_load_model_config(&mut self, config: LoadModelConfig)
        ensures
            final(self)@ == (EngineModel { load_model: config, ..old(self)@ }),
            old(self).wf() ==> final(self).wf(),
    {
        self.load_model_config = config;
    }

    /// Injects a fault, or ends its injection.
    pub fn set_forced_fault(&mut self, event_type: u8, phase: u8, active: bool)
        ensures
            old(self).wf() ==> final(self).wf(),
            final(self)@ == (EngineModel { forced: final(self)@.forced, ..old(self)@ }),
            forall|k: (u8, u8)| #[trigger]
                final(self)@.forced.contains(k) <==> (if k == (event_type, phase) {
                    active
                } else {
                    old(self)@.forced.contains(k)
                }),
    {
        let ghost before = self.forced_faults@;
        let mut list: Vec<(u8, u8)> = Vec::new();
        for i in 0..self.forced_faults.len()
            invariant
                self.forced_faults@ == before,
                forall|k: (u8, u8)| #[trigger]
                    list@.contains(k) <==> k != (event_type, phase) && before.take(
                        i as int,
                    ).contains(k),
        {
            let entry: (u8, u8) = self.forced_faults[i];
            let ghost kept = list@;
            let ghost seen = before.take(i as int);
            let ghost next = before.take(i + 1);
            if entry.0 != event_type || entry.1 != phase {
                list.push(entry);
            }
            proof {
                assert(next =~= seen.push(entry));
                assert forall|k: (u8, u8)| #[trigger]
                    list@.contains(k) <==> k != (event_type, phase) && next.contains(k) by {
                    assert(kept.contains(k) <==> k != (event_type, phase) && seen.contains(k));
                    lemma_push_contains(seen, entry, k);
                    if entry != (event_type, phase) {
                        lemma_push_contains(kept, entry, k);
                    }
                }
            }
        }
        assert(before.take(before.len() as int) =~= before);
        if active {
            let ghost kept = list@;
            list.push((event_type, phase));
            proof {
                assert forall|k: (u8, u8)| #[trigger]
                    list@.contains(k) <==> k == (event_type, phase) || kept.contains(k) by {
                    lemma_push_contains(kept, (event_type, phase), k);
                }
            }
        }
        self.forced_faults = list;
    }

    /// Whether a step can be taken.
    pub fn can_tick(&self, state: &MeterState, elapsed_nanos: u64, time_scale: Quantity) -> (r:
        bool)
        ensures
            r == can_step(self@, *state, elapsed_nanos, time_scale),
    {
        if self.load_model_config.power_factor_min > self.load_model_config.power_factor_max
            || time_scale < 0 {
            return false;
        }
        proof {
            assert(0 <= elapsed_nanos * time_scale <= 0xFFFF_FFFF_FFFF_FFFF * 0x7FFF_FFFF_FFFF_FFFF)
                by (nonlinear_arith)
                requires
                    0 <= elapsed_nanos <= 0xFFFF_FFFF_FFFF_FFFF,
                    0 <= time_scale <= 0x7FFF_FFFF_FFFF_FFFF,
            ;
        }
        let nanos: u128 = (elapsed_nanos as u128 * time_scale as u128) / 1_000_000_000;
        if nanos > u64::MAX as u128 {
            return false;
        }
        state.virtual_time.check_valid();
        let now: i128 = state.virtual_time.timestamp() as i128 * 1_000_000_000
            + state.virtual_time.timestamp_subsec_nanos() as i128;
        let end: i128 = now + (nanos as i128) / 1_000_000 * 1_000_000;
        end < (MAX_SECONDS as i128 + 1) * 1_000_000_000
    }

    /// One step of the simulation, given the noise. Returns whether a settlement took place.
    pub fn tick_with(
        &mut self,
        state: &mut MeterState,
        elapsed_nanos: u64,
        time_scale: Quantity,
        noise: &Noise,
    ) -> (r: bool)
        requires
            old(self).wf(),
            can_step(old(self)@, *old(state), elapsed_nanos, time_scale),
        ensures
            final(self).wf(),
            stepped(
                old(self)@,
                *old(state),
                final(self)@,
                *final(state),
                simulated_nanos(elapsed_nanos, time_scale),
                *noise,
                r,
            ),
    {
        let ghost e0 = self@;
        let ghost s0 = *state;
        proof {
            assert(0 <= elapsed_nanos * time_scale <= 0xFFFF_FFFF_FFFF_FFFF * 0x7FFF_FFFF_FFFF_FFFF)
                by (nonlinear_arith)
                requires
                    0 <= elapsed_nanos <= 0xFFFF_FFFF_FFFF_FFFF,
                    0 <= time_scale <= 0x7FFF_FFFF_FFFF_FFFF,
            ;
        }
        let nanos: u64 = ((elapsed_nanos as u128 * time_scale as u128) / 1_000_000_000) as u64;
        let millis: i64 = (nanos / 1_000_000) as i64;
        if state.last_settlement_rollover.is_none() {
            state.last_settlement_rollover = Some(state.virtual_time);
        }
        state.virtual_time.check_valid();
        proof {
            state.virtual_time.lemma_valid();
        }
        state.virtual_time = state.virtual_time.plus_millis(millis);
        let ghost clocked = *state;
        measure(state, &self.load_model_config, noise);
        accumulate(&mut self.pulse_accumulator, state, nanos);
        let ghost charged = *state;
        update_max_demand(&mut self.demand_window, &mut self.last_demand_calc, state);
        let ghost demanded = *state;
        detect_events(&mut self.active_faults, &self.forced_faults, state);
        let ghost watched = *state;
        let rolled: bool = state.settlement_rollover_if_due();
        let ghost closed_books = *state;
        check_freeze_schedule(state);
        let ghost noted = *state;
        update_derived_status(state, &self.active_faults);
        assert(step_through(
            e0,
            s0,
            self@,
            *state,
            simulated_nanos(elapsed_nanos, time_scale),
            *noise,
            rolled,
            clocked,
            charged,
            demanded,
            watched,
            closed_books,
            noted,
        ));
        rolled
    }

    /// One step of the simulation with fresh noise. Returns whether a settlement took place.
    pub fn tick(&mut self, state: &mut MeterState, elapsed_nanos: u64, time_scale: Quantity) -> (r:
        bool)
        requires
            old(self).wf(),
            can_step(old(self)@, *old(state), elapsed_nanos, time_scale),
        ensures
            final(self).wf(),
            exists|noise: Noise|
                noise.in_range() && #[trigger] stepped(
                    old(self)@,
                    *old(state),
                    final(self)@,
                    *final(state),
                    simulated_nanos(elapsed_nanos, time_scale),
                    noise,
                    r,
                ),
    {
        let noise = Noise::draw();
        self.tick_with(state, elapsed_nanos, time_scale, &noise)
    }

    /// Begins and ends faults so that exactly those that are there are active.
    pub fn detect_events(&mut self, state: &mut MeterState)
        ensures
            old(self).wf() ==> final(self).wf(),
            final(self)@ == (EngineModel { faults: final(self)@.faults, ..old(self)@ }),
            only_events_differ(*old(state), *final(state)),
            forall|e: u8, t: u8| #[trigger]
                fault_step(
                    old(self)@.faults,
                    *old(state),
                    final(self)@.faults,
                    *final(state),
                    e,
                    t,
                    fault_present(*old(state), old(self)@.forced, e, t),
                ),
    {
        detect_events(&mut self.active_faults, &self.forced_faults, state);
    }

    /// Notes the freezes that are due.
    pub fn check_freeze_schedule(&self, state: &mut MeterState)
        ensures
            freezes_noted(*old(state), *final(state)),
    {
        check_freeze_schedule(state);
    }

    /// Takes the load record samples that are due and notes them.
    pub fn check_load_record_sampling(&self, state: &mut MeterState) -> (r: Vec<LoadRecordSample>)
        ensures
            sampling_done(*old(state), *final(state), r@),
    {
        crate::simulation::schedule::check_load_record_sampling(state)
    }
}

proof fn lemma_push_contains(s: Seq<(u8, u8)>, entry: (u8, u8), k: (u8, u8))
    ensures
        s.push(entry).contains(k) <==> s.contains(k) || k == entry,
{
    if s.contains(k) {
        let j = choose|j: int| 0 <= j < s.len() && s[j] == k;
        assert(s.push(entry)[j] == k);
    }
    if k == entry {
        assert(s.push(entry)[s.len() as int] == k);
    }
    if s.push(entry).contains(k) && k != entry {
        let j = choose|j: int| 0 <= j < s.push(entry).len() && s.push(entry)[j] == k;
        assert(s[j] == k);
    }
}

/// In one step the clock advances by the simulated time, to the millisecond, and address,
/// passwords and snapshots stay as they are.
pub proof fn law_step_advances_clock(
    e0: EngineModel,
    s0: MeterState,
    e1: EngineModel,
    s1: MeterState,
    nanos: int,
    noise: Noise,
    rolled: bool,
)
    requires
        stepped(e0, s0, e1, s1, nanos, noise, rolled),
    ensures
        s1.virtual_time.total_nanos() == s0.virtual_time.total_nanos() + nanos / 1_000_000
            * 1_000_000,
        s1.address == s0.address,
        s1.password_config == s0.password_config,
        s1.freeze_snapshots == s0.freeze_snapshots,
{
}

} // verus!
