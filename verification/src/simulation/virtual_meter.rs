//! A virtual meter: its state, its simulation, and the commands that reach it.

use crate::persistence::types::{
    EnergyRegisterRow, FreezeSnapshotRow, LoadRecordRow, PersistRequest, PersistedMeterSettings,
    VirtualTimeRow,
};
use crate::protocol::format::{address_text, format_address};
use crate::quantity::{scale, scaled, Quantity};
use crate::simulation::command_error::CommandError;
use crate::simulation::commands::{
    baud_command_error, broadcast_time_valid, clear_command_error, clock_broadcast,
    demand_clear_logged, events_cleared, freeze_carried_out, freeze_command_error, meter_cleared,
    password_changed, password_command_error, write_carried_out, write_command_error,
};
use crate::simulation::config::{FreezeConfig, LoadRecordConfig};
use crate::simulation::defaults::new_meter;
use crate::simulation::di_handler::load_profile::{
    curve_bytes, query_error, query_means, record_block, RecordQuery,
};
use crate::simulation::di_handler::read_error::{result_bytes, ReadError};
use crate::simulation::di_handler::{memory_read, DIHandler};
use crate::simulation::freeze::{FreezeTrigger, FreezeType};
use crate::simulation::history::{restored_registers, took_snapshot};
use crate::simulation::load_model::{
    config_error, ConfigError, LoadModelConfig, LoadProfile, PhysicsConfig, SimulationConfig,
};
use crate::simulation::load_record::{LoadProfileSamplingState, LoadRecordSample};
use crate::simulation::measurement::{fresh_counter, from_thousandths, Noise};
use crate::simulation::physics_engine::{
    can_step, simulated_nanos, stepped, EngineModel, PhysicsEngine,
};
use crate::simulation::schedule::sampling_done;
use crate::simulation::state::{EnergyType, MeterState};
use crate::time::DateTime;
use vstd::prelude::*;

/// Addresses as text, under the names that users of meters know.
pub use crate::protocol::format::{
    format_address as address_to_string, parse_address as string_to_address,
};

verus! {

/// When the energy registers are stored.
#[derive(Debug, Clone, Copy, PartialEq, Eq, Structural)]
pub struct EnergyFlushConfig {
    /// after this many seconds
    pub interval_secs: u64,
    /// or after this much energy, in kWh
    pub threshold_kwh: Quantity,
}

impl Default for EnergyFlushConfig {
    /// Five minutes or 1 kWh.
    fn default() -> (r: EnergyFlushConfig)
        ensures
            r == (EnergyFlushConfig { interval_secs: 300, threshold_kwh: 1_000_000_000 }),
    {
        EnergyFlushConfig { interval_secs: 300, threshold_kwh: 1_000_000_000 }
    }
}

/// What a virtual meter is set up with.
#[derive(Debug, Clone, Copy)]
pub struct VirtualMeterConfig {
    pub address: [u8; 6],
    pub physics_config: PhysicsConfig,
    pub energy_flush_config: EnergyFlushConfig,
}

impl Default for VirtualMeterConfig {
    fn default() -> (r: VirtualMeterConfig)
        ensures
            r.address@ == seq![0x12u8, 0x34, 0x56, 0x78, 0x90, 0x12],
            r.physics_config.load_model.is_default(),
            r.energy_flush_config == (EnergyFlushConfig {
                interval_secs: 300,
                threshold_kwh: 1_000_000_000,
            }),
    {
        let r = VirtualMeterConfig {
            address: [0x12, 0x34, 0x56, 0x78, 0x90, 0x12],
            physics_config: PhysicsConfig::default(),
            energy_flush_config: EnergyFlushConfig::default(),
        };
        assert(r.address@ =~= seq![0x12u8, 0x34, 0x56, 0x78, 0x90, 0x12]);
        r
    }
}

/// A virtual meter.
#[derive(Debug)]
pub struct VirtualMeter {
    state: MeterState,
    physics: PhysicsEngine,
    handler: DIHandler,
    config: VirtualMeterConfig,
    /// whether what happens is stored
    persistent: bool,
    /// forward active energy when the registers were last stored
    last_flushed_energy: Quantity,
}

/// A virtual meter as a mathematical value.
pub ghost struct MeterModel {
    pub state: MeterState,
    pub engine: EngineModel,
    pub config: VirtualMeterConfig,
    pub persistent: bool,
    pub flushed: Quantity,
}

impl View for VirtualMeter {
    type V = MeterModel;

    closed spec fn view(&self) -> MeterModel {
        MeterModel {
            state: self.state,
            engine: self.physics@,
            config: self.config,
            persistent: self.persistent,
            flushed: self.last_flushed_energy,
        }
    }
}

/// A simulation that has not begun: nothing is measured, no fault is active or injected.
pub open spec fn fresh_engine(load_model: LoadModelConfig) -> EngineModel {
    EngineModel {
        load_model,
        counter: fresh_counter(),
        window: Seq::empty(),
        last_calculation: None,
        faults: Map::empty(),
        forced: Seq::empty(),
    }
}

/// How a read goes on.
#[derive(Debug)]
pub enum ReadPlan {
    /// The bytes are here.
    Answer(Vec<u8>),
    /// Load records have to be looked up.
    Records(RecordQuery),
    /// A snapshot has to be looked up.
    Frozen { trigger: u8, category: u8, occurrence: u8 },
}

/// A read of frozen data goes to the store when its number is beyond those in memory.
pub open spec fn reads_old_snapshot(di: Seq<u8>) -> bool {
    exists|t: FreezeTrigger| #[trigger] t.di2() == di[2] && di[0] > t.history()
}

/// What a read of `data` (identifier and further bytes) comes to.
pub open spec fn read_planned(
    s: MeterState,
    data: Seq<u8>,
    has_store: bool,
    r: Result<ReadPlan, ReadError>,
) -> bool {
    let di = data.take(4);
    if data.len() < 4 {
        r == Err::<ReadPlan, ReadError>(ReadError::TooShort)
    } else if di[3] == 0x06 {
        if !has_store {
            r == Err::<ReadPlan, ReadError>(ReadError::NoStore)
        } else {
            match r {
                Ok(plan) => query_error(di, data.skip(4)) is None && (
                plan matches ReadPlan::Records(q) && query_means(di, data.skip(4), q)),
                Err(e) => query_error(di, data.skip(4)) == Some(e),
            }
        }
    } else if di[3] == 0x05 && reads_old_snapshot(di) {
        if !has_store {
            r == Err::<ReadPlan, ReadError>(ReadError::NoStore)
        } else {
            r == Ok::<ReadPlan, ReadError>(
                ReadPlan::Frozen { trigger: di[2], category: di[1], occurrence: di[0] },
            )
        }
    } else {
        match r {
            Ok(plan) => plan matches ReadPlan::Answer(bytes) && memory_read(di, s) == Ok::<
                Seq<u8>,
                ReadError,
            >(bytes@),
            Err(e) => memory_read(di, s) == Err::<Seq<u8>, ReadError>(e),
        }
    }
}

/// The configuration that a state and a load model stand for.
pub open spec fn configured(s: MeterState, m: LoadModelConfig) -> SimulationConfig {
    SimulationConfig {
        load_model: m,
        rated_voltage: from_thousandths(s.rated_voltage),
        rated_current: from_thousandths(s.rated_current),
        rated_frequency: (s.rated_frequency * 1_000_000_000) as i64,
        power_factor: s.power_factor,
        meter_constant: s.meter_constant,
        demand_period_minutes: s.demand_period_minutes,
        time_scale: s.simulation_time_scale,
    }
}

/// The state under a configuration.
pub open spec fn with_config(s: MeterState, c: SimulationConfig) -> MeterState {
    MeterState {
        rated_voltage: scaled(c.rated_voltage, 3) as u32,
        rated_current: scaled(c.rated_current, 3) as u32,
        rated_frequency: scaled(c.rated_frequency, 0) as u8,
        power_factor: c.power_factor,
        meter_constant: c.meter_constant,
        demand_period_minutes: c.demand_period_minutes,
        simulation_time_scale: c.time_scale,
        ..s
    }
}

/// The trigger under which a freeze that is due is taken.
pub open spec fn trigger_of(t: FreezeType) -> FreezeTrigger {
    match t {
        FreezeType::Timed => FreezeTrigger::Timed,
        FreezeType::Instant(_) => FreezeTrigger::Instant,
        FreezeType::Hourly => FreezeTrigger::Hourly,
        FreezeType::Daily => FreezeTrigger::Daily,
        FreezeType::Appointment => FreezeTrigger::Timed,
        FreezeType::Event(_) => FreezeTrigger::Instant,
    }
}

/// The snapshots of all freezes that are due were taken, in their order.
pub open spec fn snapshots_taken(s0: MeterState, s1: MeterState, due: Seq<FreezeType>) -> bool
    decreases due.len(),
{
    if due.len() == 0 {
        s1 == s0
    } else {
        exists|mid: MeterState|
            snapshots_taken(s0, mid, due.drop_last()) && #[trigger] took_snapshot(
                mid,
                s1,
                trigger_of(due.last()),
            )
    }
}

/// The row of a snapshot that was taken of `s`.
pub open spec fn snapshot_row(row: FreezeSnapshotRow, s: MeterState, t: FreezeType) -> bool {
    &&& row.meter_address@ == address_text(s.address@)
    &&& row.trigger_type == trigger_of(t).di2()
    &&& row.category == 0xFF
    &&& row.occurrence_idx == 1
    &&& row.snapshot_time == s.virtual_time
    &&& row.payload.captures(s)
}

/// The energy registers are to be stored.
pub open spec fn flush_due(m: MeterModel, seconds_since_flush: u64) -> bool {
    let delta = m.state.energy(EnergyType::ForwardActive, 0) - m.flushed;
    m.persistent && (seconds_since_flush >= m.config.energy_flush_config.interval_secs || (if delta
        < 0 {
        -delta
    } else {
        delta
    }) >= m.config.energy_flush_config.threshold_kwh)
}

/// The row of the energy registers.
pub open spec fn energy_row(row: EnergyRegisterRow, s: MeterState) -> bool {
    &&& row.meter_address@ == address_text(s.address@)
    &&& row.timestamp == s.virtual_time
    &&& row.combined_active_positive == s.energy(EnergyType::ForwardActive, 0)
    &&& row.combined_active_negative == s.energy(EnergyType::ReverseActive, 0)
    &&& row.combined_reactive_positive == s.energy(EnergyType::ForwardReactive, 0)
    &&& row.combined_reactive_negative == s.energy(EnergyType::ReverseReactive, 0)
    &&& row.rate1_active_positive == s.energy(EnergyType::ForwardActive, 1)
    &&& row.rate2_active_positive == s.energy(EnergyType::ForwardActive, 2)
    &&& row.rate3_active_positive == s.energy(EnergyType::ForwardActive, 3)
    &&& row.rate4_active_positive == s.energy(EnergyType::ForwardActive, 4)
}

/// The row of the clock.
pub open spec fn time_row(row: VirtualTimeRow, m: MeterModel, now_ms: i64) -> bool {
    &&& row.address@ == address_text(m.state.address@)
    &&& row.virtual_time == m.state.virtual_time
    &&& row.synced_at_ms == now_ms
    &&& row.time_scale == m.state.simulation_time_scale
    &&& row.simulation_config == configured(m.state, m.engine.load_model)
}

/// The two requests that store the energy registers and the clock.
pub open spec fn flush_requests(r: Seq<PersistRequest>, m: MeterModel, now_ms: i64) -> bool {
    &&& r.len() == 2
    &&& r[0] matches PersistRequest::WriteEnergyRegister(row) && energy_row(row, m.state)
    &&& r[1] matches PersistRequest::SaveVirtualTime(row) && time_row(row, m, now_ms)
}

/// The requests that store samples.
pub open spec fn sample_requests(
    r: Seq<PersistRequest>,
    s: MeterState,
    samples: Seq<LoadRecordSample>,
) -> bool {
    &&& r.len() == samples.len()
    &&& forall|i: int| 0 <= i < r.len() ==> sample_request(#[trigger] r[i], s, samples[i])
}

pub open spec fn sample_request(r: PersistRequest, s: MeterState, sample: LoadRecordSample) -> bool {
    r matches PersistRequest::WriteLoadRecord(row) && row.meter_address@ == address_text(s.address@)
        && row.class_id == sample.class_id && row.sample_time == sample.sample_time && row.payload
        == sample.data
}

/// The requests that store snapshots of the freezes `due`.
pub open spec fn snapshot_requests(
    r: Seq<PersistRequest>,
    s: MeterState,
    due: Seq<FreezeType>,
) -> bool {
    &&& r.len() == due.len()
    &&& forall|i: int| 0 <= i < r.len() ==> snapshot_request(#[trigger] r[i], s, due[i])
}

pub open spec fn snapshot_request(r: PersistRequest, s: MeterState, t: FreezeType) -> bool {
    r matches PersistRequest::WriteFreezeSnapshot(row) && snapshot_row(row, s, t)
}

/// What is left to do after a step of a meter.
#[derive(Debug)]
pub struct TickOutput {
    /// whether a settlement took place
    pub settled: bool,
    /// whether the energy registers are among the requests
    pub flushed: bool,
    /// what is to be stored
    pub requests: Vec<PersistRequest>,
}

/// The freezes that were pending were taken, and none is pending.
pub open spec fn pending_taken(s0: MeterState, s1: MeterState) -> bool {
    exists|emptied: MeterState|
        {
            &&& emptied.pending_freeze_triggers@ == Seq::<FreezeType>::empty()
            &&& emptied == (MeterState {
                pending_freeze_triggers: emptied.pending_freeze_triggers,
                ..s0
            })
            &&& #[trigger] snapshots_taken(emptied, s1, s0.pending_freeze_triggers@)
        }
}

/// One step of a meter, through the states between: the simulation steps, samples are
/// taken, pending freezes are taken, and the registers are stored if that is due. Without
/// a store there are no requests.
pub open spec fn meter_stepped(
    m0: MeterModel,
    m1: MeterModel,
    nanos: int,
    noise: Noise,
    seconds_since_flush: u64,
    now_ms: i64,
    out: TickOutput,
    simulated: MeterState,
    sampled: MeterState,
    samples: Seq<LoadRecordSample>,
) -> bool {
    let frozen = sampled.pending_freeze_triggers@;
    let before_flush = MeterModel { flushed: m0.flushed, ..m1 };
    let n = if m0.persistent {
        samples.len() as int
    } else {
        0
    };
    let k = if m0.persistent {
        frozen.len() as int
    } else {
        0
    };
    &&& stepped(m0.engine, m0.state, m1.engine, simulated, nanos, noise, out.settled)
    &&& sampling_done(simulated, sampled, samples)
    &&& pending_taken(sampled, m1.state)
    &&& out.flushed == flush_due(before_flush, seconds_since_flush)
    &&& m1.flushed == (if out.flushed {
        m1.state.energy(EnergyType::ForwardActive, 0)
    } else {
        m0.flushed
    })
    &&& m1.config == m0.config
    &&& m1.persistent == m0.persistent
    &&& out.requests@.len() == n + k + (if out.flushed {
        2int
    } else {
        0
    })
    &&& m0.persistent ==> sample_requests(out.requests@.take(n), sampled, samples)
    &&& m0.persistent ==> snapshot_requests(out.requests@.subrange(n, n + k), sampled, frozen)
    &&& out.flushed ==> flush_requests(out.requests@.skip(n + k), before_flush, now_ms)
}

fn same_trigger(t: &FreezeType) -> (r: FreezeTrigger)
    ensures
        r == trigger_of(*t),
{
    match t {
        FreezeType::Timed => FreezeTrigger::Timed,
        FreezeType::Instant(_) => FreezeTrigger::Instant,
        FreezeType::Hourly => FreezeTrigger::Hourly,
        FreezeType::Daily => FreezeTrigger::Daily,
        FreezeType::Appointment => FreezeTrigger::Timed,
        FreezeType::Event(_) => FreezeTrigger::Instant,
    }
}

/// A snapshot leaves what a snapshot shows as it was.
proof fn lemma_snapshots_keep_values(s0: MeterState, s1: MeterState, due: Seq<FreezeType>)
    requires
        snapshots_taken(s0, s1, due),
    ensures
        s1 == (MeterState { freeze_snapshots: s1.freeze_snapshots, ..s0 }),
    decreases due.len(),
{
    if due.len() > 0 {
        let mid = choose|mid: MeterState|
            snapshots_taken(s0, mid, due.drop_last()) && #[trigger] took_snapshot(
                mid,
                s1,
                trigger_of(due.last()),
            );
        lemma_snapshots_keep_values(s0, mid, due.drop_last());
    }
}

impl VirtualMeter {
    pub closed spec fn wf(self) -> bool {
        self.physics.wf()
    }

    /// A new meter whose clock shows `virtual_time` and whose maximum demand is dated `now`.
    pub fn new_at(config: VirtualMeterConfig, virtual_time: DateTime, now: DateTime) -> (r:
        VirtualMeter)
        ensures
            r.wf(),
            r@.config == config,
            !r@.persistent,
            r@.flushed == 0,
            r@.engine == fresh_engine(config.physics_config.load_model),
            r@.state.address == config.address,
            exists|fresh: MeterState| #[trigger]
                new_meter(fresh, virtual_time, now) && r@.state == (MeterState {
                    address: config.address,
                    ..fresh
                }),
    {
        let mut state = MeterState::new_at(virtual_time, now);
        let ghost fresh = state;
        state.address = config.address;
        let physics = PhysicsEngine::new(config.physics_config.load_model);
        let handler = DIHandler::new();
        assert(new_meter(fresh, virtual_time, now));
        VirtualMeter {
            state,
            physics,
            handler,
            config,
            persistent: false,
            last_flushed_energy: 0,
        }
    }

    /// A new meter whose clock shows the local time.
    pub fn new(config: VirtualMeterConfig) -> (r: VirtualMeter)
        ensures
            r.wf(),
            r@.config == config,
            !r@.persistent,
            r@.flushed == 0,
            r@.engine == fresh_engine(config.physics_config.load_model),
            r@.state.address == config.address,
            exists|fresh: MeterState| #[trigger]
                new_meter(fresh, fresh.virtual_time, fresh.max_demand_time) && r@.state == (
                MeterState { address: config.address, ..fresh }),
    {
        VirtualMeter::new_at(
            config,
            crate::simulation::state::local_now_as_utc(),
            DateTime::now(),
        )
    }

    /// A new meter whose changes are stored.
    pub fn with_persistence(config: VirtualMeterConfig) -> (r: VirtualMeter)
        ensures
            r.wf(),
            r@.config == config,
            r@.persistent,
            r@.flushed == 0,
            r@.engine == fresh_engine(config.physics_config.load_model),
            r@.state.address == config.address,
            exists|fresh: MeterState| #[trigger]
                new_meter(fresh, fresh.virtual_time, fresh.max_demand_time) && r@.state == (
                MeterState { address: config.address, ..fresh }),
    {
        let mut meter = VirtualMeter::new(config);
        meter.persistent = true;
        meter
    }

    /// The state of the meter.
    pub fn state(&self) -> (r: &MeterState)
        ensures
            *r == self@.state,
    {
        &self.state
    }

    /// The state of the meter, to be changed.
    pub fn state_mut(&mut self) -> (r: &mut MeterState)
        ensures
            *r == old(self)@.state,
            final(self)@ == (MeterModel { state: *final(r), ..old(self)@ }),
            old(self).wf() ==> final(self).wf(),
    {
        &mut self.state
    }

    pub fn address(&self) -> (r: [u8; 6])
        ensures
            r == self@.state.address,
    {
        self.state.address
    }

    pub fn is_persistent(&self) -> (r: bool)
        ensures
            r == self@.persistent,
    {
        self.persistent
    }

    pub fn load_model_config(&self) -> (r: &LoadModelConfig)
        ensures
            *r == self@.engine.load_model,
    {
        self.physics.load_model_config()
    }

    pub fn set_load_profile(&mut self, profile: LoadProfile)
        ensures
            final(self)@ == (MeterModel {
                engine: EngineModel {
                    load_model: LoadModelConfig { profile, ..old(self)@.engine.load_model },
                    ..old(self)@.engine
                },
                ..old(self)@
            }),
            old(self).wf() ==> final(self).wf(),
    {
        self.physics.set_load_profile(profile);
    }

    /// Injects a fault, or ends its injection.
    pub fn set_forced_fault(&mut self, event_type: u8, phase: u8, active: bool)
        ensures
            old(self).wf() ==> final(self).wf(),
            final(self)@ == (MeterModel {
                engine: EngineModel {
                    forced: final(self)@.engine.forced,
                    ..old(self)@.engine
                },
                ..old(self)@
            }),
            forall|k: (u8, u8)| #[trigger]
                final(self)@.engine.forced.contains(k) <==> (if k == (event_type, phase) {
                    active
                } else {
                    old(self)@.engine.forced.contains(k)
                }),
    {
        self.physics.set_forced_fault(event_type, phase, active);
    }

    /// Sets rated voltage, rated current and power factor. Values outside 100 to 1000 V, 0 to
    /// 10000 A and 0 to 1 are refused.
    pub fn set_load_model(&mut self, voltage: Quantity, current: Quantity, power_factor: Quantity)
        -> (r: Result<(), ConfigError>)
        ensures
            old(self).wf() ==> final(self).wf(),
            r is Ok <==> 100_000_000_000 <= voltage <= 1_000_000_000_000 && 0 <= current
                <= 10_000_000_000_000 && 0 <= power_factor <= 1_000_000_000,
            r is Err ==> final(self)@ == old(self)@ && r->Err_0 == ConfigError::LoadModel,
            r is Ok ==> final(self)@ == (MeterModel {
                state: MeterState {
                    rated_voltage: scaled(voltage, 3) as u32,
                    rated_current: scaled(current, 3) as u32,
                    power_factor,
                    ..old(self)@.state
                },
                ..old(self)@
            }),
    {
        if voltage < 100_000_000_000 || voltage > 1_000_000_000_000 || current < 0 || current
            > 10_000_000_000_000 || power_factor < 0 || power_factor > 1_000_000_000 {
            return Err(ConfigError::LoadModel);
        }
        proof {
            lemma_thousandths_fit(voltage);
            lemma_thousandths_fit(current);
        }
        self.state.rated_voltage = scale(voltage, 3) as u32;
        self.state.rated_current = scale(current, 3) as u32;
        self.state.power_factor = power_factor;
        Ok(())
    }

    /// The configuration that the simulation runs under.
    pub fn simulation_config(&self) -> (r: SimulationConfig)
        ensures
            r == configured(self@.state, self@.engine.load_model),
    {
        SimulationConfig {
            load_model: *self.physics.load_model_config(),
            rated_voltage: self.state.rated_voltage as i64 * 1_000_000,
            rated_current: self.state.rated_current as i64 * 1_000_000,
            rated_frequency: self.state.rated_frequency as i64 * 1_000_000_000,
            power_factor: self.state.power_factor,
            meter_constant: self.state.meter_constant,
            demand_period_minutes: self.state.demand_period_minutes,
            time_scale: self.state.simulation_time_scale,
        }
    }

    /// Replaces the whole configuration of the simulation. One that breaks a rule changes
    /// nothing.
    pub fn apply_simulation_config(&mut self, config: SimulationConfig) -> (r: Result<
        (),
        ConfigError,
    >)
        ensures
            old(self).wf() ==> final(self).wf(),
            r is Ok <==> config_error(config) is None,
            r matches Err(e) ==> config_error(config) == Some(e) && final(self)@ == old(self)@,
            r is Ok ==> final(self)@ == (MeterModel {
                state: with_config(old(self)@.state, config),
                engine: EngineModel { load_model: config.load_model, ..old(self)@.engine },
                ..old(self)@
            }),
    {
        config.validate()?;
        proof {
            lemma_thousandths_fit(config.rated_voltage);
            lemma_thousandths_fit(config.rated_current);
            lemma_frequency_fits(config.rated_frequency);
        }
        self.state.rated_voltage = scale(config.rated_voltage, 3) as u32;
        self.state.rated_current = scale(config.rated_current, 3) as u32;
        self.state.rated_frequency = scale(config.rated_frequency, 0) as u8;
        self.state.power_factor = config.power_factor;
        self.state.meter_constant = config.meter_constant;
        self.state.demand_period_minutes = config.demand_period_minutes;
        self.state.simulation_time_scale = config.time_scale;
        self.physics.set_load_model_config(config.load_model);
        Ok(())
    }
}

proof fn lemma_thousandths_fit(v: Quantity)
    requires
        v <= 10_000_000_000_000,
    ensures
        0 <= scaled(v, 3) <= 10_000_000,
{
    reveal(scaled);
    assert(crate::quantity::pow10(3) == 1000) by {
        reveal_with_fuel(crate::quantity::pow10, 4);
    }
}

proof fn lemma_frequency_fits(v: Quantity)
    requires
        v <= 65_000_000_000,
    ensures
        0 <= scaled(v, 0) <= 65,
{
    reveal(scaled);
    assert(crate::quantity::pow10(0) == 1);
}

impl VirtualMeter {
    /// Reads a data item from memory.
    pub fn handle_read_command(&self, di: [u8; 4]) -> (r: Result<Vec<u8>, ReadError>)
        ensures
            result_bytes(r) == memory_read(di@, self@.state),
    {
        self.handler.handle_read(di, &self.state)
    }

    /// Begins a read of `data` (identifier and further bytes): it is answered from memory, or
    /// it says what has to be looked up in the store.
    pub fn plan_read(&self, data: &[u8], has_store: bool) -> (r: Result<ReadPlan, ReadError>)
        ensures
            read_planned(self@.state, data@, has_store, r),
    {
        if data.len() < 4 {
            return Err(ReadError::TooShort);
        }
        let di: [u8; 4] = [data[0], data[1], data[2], data[3]];
        let rest = vstd::slice::slice_subrange(data, 4, data.len());
        assert(di@ =~= data@.take(4));
        assert(rest@ =~= data@.skip(4));
        if di[3] == 0x06 {
            if !has_store {
                return Err(ReadError::NoStore);
            }
            let query = self.handler.plan_load_profile_read(di, rest)?;
            return Ok(ReadPlan::Records(query));
        }
        if di[3] == 0x05 {
            if let Some(trigger) = FreezeTrigger::from_di2(di[2]) {
                if di[0] > trigger.max_history_count() {
                    assert(trigger.di2() == di@[2]);
                    if !has_store {
                        return Err(ReadError::NoStore);
                    }
                    return Ok(
                        ReadPlan::Frozen { trigger: di[2], category: di[1], occurrence: di[0] },
                    );
                }
                proof {
                    assert forall|t: FreezeTrigger| #[trigger] t.di2() == di@[2] implies !(di@[0]
                        > t.history()) by {
                        crate::simulation::freeze::law_trigger_code(t, trigger);
                    }
                }
            }
        }
        match self.handler.handle_read(di, &self.state) {
            Ok(bytes) => Ok(ReadPlan::Answer(bytes)),
            Err(e) => Err(e),
        }
    }

    /// Ends a read of load records with the records that were found.
    pub fn answer_records(&self, di: [u8; 4], rows: &Vec<LoadRecordSample>) -> (r: Result<
        Vec<u8>,
        ReadError,
    >)
        ensures
            result_bytes(r) == (if di@[2] == 0x10 {
                curve_bytes(di@[1], di@[0], rows@)
            } else if rows@.len() == 0 {
                Err(ReadError::NoRecord)
            } else {
                Ok(record_block(rows@[0].sample_time, rows@[0].data))
            }),
    {
        self.handler.answer_load_profile_read(di, rows)
    }

    /// Carries out a write command: identifier, password, operator code and data. Returns the
    /// operator code.
    pub fn handle_write_command(&mut self, data: &[u8]) -> (r: Result<[u8; 4], CommandError>)
        ensures
            old(self).wf() ==> final(self).wf(),
            final(self)@ == (MeterModel { state: final(self)@.state, ..old(self)@ }),
            r is Ok <==> write_command_error(old(self)@.state, data@) is None,
            r matches Err(e) ==> write_command_error(old(self)@.state, data@) == Some(e) && final(self)@ == old(self)@,
            r matches Ok(operator) ==> operator@ == data@.subrange(8, 12) && write_carried_out(
                old(self)@.state,
                final(self)@.state,
                data@,
            ),
    {
        self.state.write_command(data)
    }

    /// Carries out a freeze command: minute, hour, day and month.
    pub fn handle_freeze_command(&mut self, data: &[u8]) -> (r: Result<(), CommandError>)
        ensures
            old(self).wf() ==> final(self).wf(),
            final(self)@ == (MeterModel { state: final(self)@.state, ..old(self)@ }),
            r is Ok <==> freeze_command_error(data@) is None,
            r matches Err(e) ==> freeze_command_error(data@) == Some(e) && final(self)@ == old(self)@,
            r is Ok ==> freeze_carried_out(old(self)@.state, final(self)@.state, data@),
    {
        self.state.freeze_command(data)
    }

    /// Carries out a change of the baud rate.
    pub fn handle_change_baudrate_command(&mut self, data: &[u8]) -> (r: Result<(), CommandError>)
        ensures
            old(self).wf() ==> final(self).wf(),
            r is Ok <==> baud_command_error(data@) is None,
            r matches Err(e) ==> baud_command_error(data@) == Some(e) && final(self)@ == old(self)@,
            r is Ok ==> final(self)@ == (MeterModel {
                state: MeterState { baudrate: data@[0], ..old(self)@.state },
                ..old(self)@
            }),
    {
        self.state.change_baudrate_command(data)
    }

    /// Carries out a password change at time `now`.
    pub fn handle_change_password_at(&mut self, data: &[u8], now: DateTime) -> (r: Result<
        (),
        CommandError,
    >)
        ensures
            old(self).wf() ==> final(self).wf(),
            final(self)@ == (MeterModel { state: final(self)@.state, ..old(self)@ }),
            r is Ok <==> password_command_error(old(self)@.state, data@) is None,
            r matches Err(e) ==> password_command_error(old(self)@.state, data@) == Some(e)
                && final(self)@ == old(self)@,
            r is Ok ==> password_changed(old(self)@.state, final(self)@.state, data@, now),
    {
        self.state.change_password_command(data, now)
    }

    /// Carries out a password change: identifier, old and new password.
    pub fn handle_change_password_command(&mut self, data: &[u8]) -> (r: Result<(), CommandError>)
        ensures
            old(self).wf() ==> final(self).wf(),
            final(self)@ == (MeterModel { state: final(self)@.state, ..old(self)@ }),
            r is Ok <==> password_command_error(old(self)@.state, data@) is None,
            r matches Err(e) ==> password_command_error(old(self)@.state, data@) == Some(e)
                && final(self)@ == old(self)@,
            r is Ok ==> exists|now: DateTime| #[trigger]
                password_changed(old(self)@.state, final(self)@.state, data@, now),
    {
        self.handle_change_password_at(data, DateTime::now())
    }

    /// Carries out a clearing of the maximum demand at time `now`.
    pub fn handle_demand_clear_at(&mut self, data: &[u8], now: DateTime) -> (r: Result<
        [u8; 4],
        CommandError,
    >)
        ensures
            old(self).wf() ==> final(self).wf(),
            final(self)@ == (MeterModel { state: final(self)@.state, ..old(self)@ }),
            r is Ok <==> clear_command_error(old(self)@.state, data@, 12, 4, 4) is None,
            r matches Err(e) ==> clear_command_error(old(self)@.state, data@, 12, 4, 4) == Some(e)
                && final(self)@ == old(self)@,
            r matches Ok(operator) ==> operator@ == data@.subrange(8, 12) && demand_clear_logged(
                old(self)@.state,
                final(self)@.state,
                operator@,
                now,
            ),
    {
        self.state.demand_clear_command(data, now)
    }

    /// Carries out a clearing of the maximum demand: identifier, password and operator code.
    /// Returns the operator code.
    pub fn handle_demand_clear_command(&mut self, data: &[u8]) -> (r: Result<[u8; 4], CommandError>)
        ensures
            old(self).wf() ==> final(self).wf(),
            final(self)@ == (MeterModel { state: final(self)@.state, ..old(self)@ }),
            r is Ok <==> clear_command_error(old(self)@.state, data@, 12, 4, 4) is None,
            r matches Err(e) ==> clear_command_error(old(self)@.state, data@, 12, 4, 4) == Some(e)
                && final(self)@ == old(self)@,
            r matches Ok(operator) ==> operator@ == data@.subrange(8, 12) && exists|now: DateTime|
                #[trigger]
                demand_clear_logged(old(self)@.state, final(self)@.state, operator@, now),
    {
        self.handle_demand_clear_at(data, DateTime::now())
    }

    /// Carries out a clearing of the meter at time `now`.
    pub fn handle_meter_clear_at(&mut self, data: &[u8], now: DateTime) -> (r: Result<
        [u8; 4],
        CommandError,
    >)
        ensures
            old(self).wf() ==> final(self).wf(),
            final(self)@ == (MeterModel { state: final(self)@.state, ..old(self)@ }),
            r is Ok <==> clear_command_error(old(self)@.state, data@, 8, 0, 2) is None,
            r matches Err(e) ==> clear_command_error(old(self)@.state, data@, 8, 0, 2) == Some(e)
                && final(self)@ == old(self)@,
            r matches Ok(operator) ==> operator@ == data@.subrange(4, 8) && meter_cleared(
                old(self)@.state,
                final(self)@.state,
                operator@,
                now,
            ),
    {
        self.state.meter_clear_command(data, now)
    }

    /// Carries out a clearing of the meter: password and operator code. Returns the operator
    /// code.
    pub fn handle_meter_clear_command(&mut self, data: &[u8]) -> (r: Result<[u8; 4], CommandError>)
        ensures
            old(self).wf() ==> final(self).wf(),
            final(self)@ == (MeterModel { state: final(self)@.state, ..old(self)@ }),
            r is Ok <==> clear_command_error(old(self)@.state, data@, 8, 0, 2) is None,
            r matches Err(e) ==> clear_command_error(old(self)@.state, data@, 8, 0, 2) == Some(e)
                && final(self)@ == old(self)@,
            r matches Ok(operator) ==> operator@ == data@.subrange(4, 8) && exists|now: DateTime|
                #[trigger]
                meter_cleared(old(self)@.state, final(self)@.state, operator@, now),
    {
        self.handle_meter_clear_at(data, DateTime::now())
    }

    /// Carries out a clearing of the events at time `now`.
    pub fn handle_event_clear_at(&mut self, data: &[u8], now: DateTime) -> (r: Result<
        [u8; 4],
        CommandError,
    >)
        ensures
            old(self).wf() ==> final(self).wf(),
            final(self)@ == (MeterModel { state: final(self)@.state, ..old(self)@ }),
            r is Ok <==> clear_command_error(old(self)@.state, data@, 8, 0, 2) is None,
            r matches Err(e) ==> clear_command_error(old(self)@.state, data@, 8, 0, 2) == Some(e)
                && final(self)@ == old(self)@,
            r matches Ok(operator) ==> operator@ == data@.subrange(4, 8) && events_cleared(
                old(self)@.state,
                final(self)@.state,
                operator@,
                now,
            ),
    {
        self.state.event_clear_command(data, now)
    }

    /// Carries out a clearing of the events: password and operator code. Returns the operator
    /// code.
    pub fn handle_event_clear_command(&mut self, data: &[u8]) -> (r: Result<[u8; 4], CommandError>)
        ensures
            old(self).wf() ==> final(self).wf(),
            final(self)@ == (MeterModel { state: final(self)@.state, ..old(self)@ }),
            r is Ok <==> clear_command_error(old(self)@.state, data@, 8, 0, 2) is None,
            r matches Err(e) ==> clear_command_error(old(self)@.state, data@, 8, 0, 2) == Some(e)
                && final(self)@ == old(self)@,
            r matches Ok(operator) ==> operator@ == data@.subrange(4, 8) && exists|now: DateTime|
                #[trigger]
                events_cleared(old(self)@.state, final(self)@.state, operator@, now),
    {
        self.handle_event_clear_at(data, DateTime::now())
    }

    /// Sets the clock by a broadcast. Data that name no time change nothing.
    pub fn handle_broadcast_time(&mut self, data: &[u8]) -> (r: bool)
        ensures
            old(self).wf() ==> final(self).wf(),
            final(self)@ == (MeterModel { state: final(self)@.state, ..old(self)@ }),
            r == broadcast_time_valid(data@),
            r ==> clock_broadcast(old(self)@.state, final(self)@.state, data@),
            !r ==> final(self)@ == old(self)@,
    {
        self.state.broadcast_time_command(data)
    }

    /// Sets the clock to a stored time.
    pub fn restore_virtual_time(&mut self, virtual_time: DateTime)
        ensures
            old(self).wf() ==> final(self).wf(),
            final(self)@ == (MeterModel {
                state: MeterState { virtual_time, ..old(self)@.state },
                ..old(self)@
            }),
    {
        self.state.restore_virtual_time(virtual_time);
    }

    /// Replaces the energy registers by stored ones, if there are any.
    pub fn restore_energy_registers(&mut self, rows: &Vec<(u8, u8, Quantity)>)
        ensures
            old(self).wf() ==> final(self).wf(),
            rows@.len() == 0 ==> final(self)@ == old(self)@,
            rows@.len() > 0 ==> {
                &&& final(self)@.state.energy_registers@ == restored_registers(rows@)
                &&& final(self)@ == (MeterModel {
                    state: MeterState {
                        energy_registers: final(self)@.state.energy_registers,
                        ..old(self)@.state
                    },
                    flushed: final(self)@.state.energy(EnergyType::ForwardActive, 0),
                    ..old(self)@
                })
            },
    {
        if rows.len() == 0 {
            return ;
        }
        self.state.restore_energy_registers(rows);
        self.last_flushed_energy = self.state.get_energy(EnergyType::ForwardActive, None);
    }

    /// Takes over stored sample times, if there are any.
    pub fn restore_sample_times(&mut self, times: [Option<DateTime>; 6])
        ensures
            old(self).wf() ==> final(self).wf(),
            (forall|i: int| 0 <= i < 6 ==> times@[i] is None) ==> final(self)@ == old(self)@,
            (exists|i: int| 0 <= i < 6 && times@[i] is Some) ==> final(self)@ == (MeterModel {
                state: MeterState {
                    load_profile_state: LoadProfileSamplingState { last_sample_times: times },
                    ..old(self)@.state
                },
                ..old(self)@
            }),
    {
        for i in 0..6usize
            invariant
                self@ == old(self)@,
                self.physics == old(self).physics,
                forall|j: int| 0 <= j < i ==> times@[j] is None,
        {
            if times[i].is_some() {
                assert(times@[i as int] is Some);
                self.state.load_profile_state = LoadProfileSamplingState::from_last_sample_times(
                    times,
                );
                return ;
            }
        }
    }

    /// Takes over stored settings. A stored configuration that breaks a rule is passed over;
    /// the stored appointed freeze may take place again.
    pub fn apply_persisted_settings(&mut self, settings: &PersistedMeterSettings)
        ensures
            old(self).wf() ==> final(self).wf(),
            final(self)@ == settled_down(old(self)@, *settings),
    {
        let _ = self.apply_simulation_config(settings.simulation);
        self.state.freeze_config = FreezeConfig {
            timed_freeze_mode: settings.timed_freeze_mode,
            instant_freeze_mode: settings.instant_freeze_mode,
            appointment_freeze_mode: settings.appointment_freeze_mode,
        };
        self.state.hourly_freeze_mode = settings.hourly_freeze_mode;
        self.state.daily_freeze_mode = settings.daily_freeze_mode;
        self.state.daily_freeze_time = settings.daily_freeze_time;
        self.state.hourly_freeze_start = settings.hourly_freeze_start;
        self.state.hourly_freeze_interval_min = settings.hourly_freeze_interval_min;
        self.state.appointment_freeze_time = settings.appointment_freeze_time;
        self.state.appointment_freeze_fired = false;
        self.state.settlement_days = settings.settlement_days;
        self.state.settlement_hours = settings.settlement_hours;
        self.state.load_record_config = LoadRecordConfig {
            mode_word: settings.load_record_mode_word,
            intervals: settings.load_record_intervals,
        };
        self.state.load_record_start_time = settings.load_record_start_time;
    }
}

/// A meter with stored settings taken over.
pub open spec fn settled_down(m: MeterModel, settings: PersistedMeterSettings) -> MeterModel {
    let c = settings.simulation;
    let base = if config_error(c) is None {
        with_config(m.state, c)
    } else {
        m.state
    };
    MeterModel {
        state: MeterState {
            freeze_config: FreezeConfig {
                timed_freeze_mode: settings.timed_freeze_mode,
                instant_freeze_mode: settings.instant_freeze_mode,
                appointment_freeze_mode: settings.appointment_freeze_mode,
            },
            hourly_freeze_mode: settings.hourly_freeze_mode,
            daily_freeze_mode: settings.daily_freeze_mode,
            daily_freeze_time: settings.daily_freeze_time,
            hourly_freeze_start: settings.hourly_freeze_start,
            hourly_freeze_interval_min: settings.hourly_freeze_interval_min,
            appointment_freeze_time: settings.appointment_freeze_time,
            appointment_freeze_fired: false,
            settlement_days: settings.settlement_days,
            settlement_hours: settings.settlement_hours,
            load_record_config: LoadRecordConfig {
                mode_word: settings.load_record_mode_word,
                intervals: settings.load_record_intervals,
            },
            load_record_start_time: settings.load_record_start_time,
            ..base
        },
        engine: EngineModel {
            load_model: if config_error(c) is None {
                c.load_model
            } else {
                m.engine.load_model
            },
            ..m.engine
        },
        ..m
    }
}

impl VirtualMeter {
    /// The requests that store samples; none without a store.
    fn persist_load_records(&self, samples: &Vec<LoadRecordSample>) -> (r: Vec<PersistRequest>)
        ensures
            self@.persistent ==> sample_requests(r@, self@.state, samples@),
            !self@.persistent ==> r@.len() == 0,
    {
        let mut out: Vec<PersistRequest> = Vec::new();
        if self.persistent {
            for i in 0..samples.len()
                invariant
                    out@.len() == i,
                    forall|j: int|
                        0 <= j < i ==> sample_request(
                            #[trigger] out@[j],
                            self@.state,
                            samples@[j],
                        ),
            {
                let sample = samples[i];
                out.push(
                    PersistRequest::WriteLoadRecord(
                        LoadRecordRow {
                            meter_address: format_address(&self.state.address),
                            class_id: sample.class_id,
                            sample_time: sample.sample_time,
                            payload: sample.data,
                        },
                    ),
                );
            }
        }
        out
    }

    /// Takes the freezes that are pending. Returns the requests that store them; none
    /// without a store.
    pub fn process_pending_freeze(&mut self) -> (r: Vec<PersistRequest>)
        ensures
            old(self).wf() ==> final(self).wf(),
            pending_taken(old(self)@.state, final(self)@.state),
            final(self)@ == (MeterModel { state: final(self)@.state, ..old(self)@ }),
            old(self)@.persistent ==> snapshot_requests(
                r@,
                old(self)@.state,
                old(self)@.state.pending_freeze_triggers@,
            ),
            !old(self)@.persistent ==> r@.len() == 0,
    {
        let mut due: Vec<FreezeType> = Vec::new();
        std::mem::swap(&mut due, &mut self.state.pending_freeze_triggers);
        let ghost s0 = old(self)@.state;
        let ghost emptied = self.state;
        assert(due@ == s0.pending_freeze_triggers@);
        let mut out: Vec<PersistRequest> = Vec::new();
        assert(due@.take(0) =~= Seq::<FreezeType>::empty());
        for i in 0..due.len()
            invariant
                self.physics == old(self).physics,
                self@ == (MeterModel { state: self@.state, ..old(self)@ }),
                s0 == old(self)@.state,
                emptied == (MeterState {
                    pending_freeze_triggers: emptied.pending_freeze_triggers,
                    ..s0
                }),
                snapshots_taken(emptied, self.state, due@.take(i as int)),
                self.persistent ==> out@.len() == i,
                !self.persistent ==> out@.len() == 0,
                self.persistent ==> forall|j: int|
                    0 <= j < i ==> snapshot_request(#[trigger] out@[j], s0, due@[j]),
        {
            let trigger = same_trigger(&due[i]);
            let ghost mid = self.state;
            proof {
                lemma_snapshots_keep_values(emptied, mid, due@.take(i as int));
                assert(due@.take(i + 1).drop_last() =~= due@.take(i as int));
                assert(due@.take(i + 1).last() == due@[i as int]);
            }
            if self.persistent {
                let (_number, mut row) = self.state.create_freeze_snapshot_with_persist(trigger);
                proof {
                    lemma_same_capture(mid, s0, row.payload);
                    lemma_snapshot_keeps_values(mid, self.state, trigger);
                }
                row.meter_address = format_address(&self.state.address);
                let request = PersistRequest::WriteFreezeSnapshot(row);
                assert(snapshot_request(request, s0, due@[i as int]));
                out.push(request);
            } else {
                self.state.create_freeze_snapshot(trigger);
            }
            assert(took_snapshot(mid, self.state, trigger_of(due@[i as int])));
            assert(snapshots_taken(emptied, self.state, due@.take(i + 1)));
        }
        assert(due@.take(due@.len() as int) =~= due@);
        assert(snapshots_taken(emptied, self.state, s0.pending_freeze_triggers@));
        out
    }

    /// The requests that store the energy registers and the clock; none without a store.
    fn flush_energy_registers(&self, now_ms: i64) -> (r: Vec<PersistRequest>)
        ensures
            self@.persistent ==> flush_requests(r@, self@, now_ms),
            !self@.persistent ==> r@.len() == 0,
    {
        let mut out: Vec<PersistRequest> = Vec::new();
        if self.persistent {
            let s = &self.state;
            out.push(
                PersistRequest::WriteEnergyRegister(
                    EnergyRegisterRow {
                        meter_address: format_address(&s.address),
                        timestamp: s.virtual_time,
                        combined_active_positive: s.get_energy(EnergyType::ForwardActive, None),
                        combined_active_negative: s.get_energy(EnergyType::ReverseActive, None),
                        combined_reactive_positive: s.get_energy(EnergyType::ForwardReactive, None),
                        combined_reactive_negative: s.get_energy(EnergyType::ReverseReactive, None),
                        rate1_active_positive: s.get_energy(EnergyType::ForwardActive, Some(1)),
                        rate2_active_positive: s.get_energy(EnergyType::ForwardActive, Some(2)),
                        rate3_active_positive: s.get_energy(EnergyType::ForwardActive, Some(3)),
                        rate4_active_positive: s.get_energy(EnergyType::ForwardActive, Some(4)),
                    },
                ),
            );
            out.push(
                PersistRequest::SaveVirtualTime(
                    VirtualTimeRow {
                        address: format_address(&s.address),
                        virtual_time: s.virtual_time,
                        synced_at_ms: now_ms,
                        time_scale: s.simulation_time_scale,
                        simulation_config: self.simulation_config(),
                    },
                ),
            );
        }
        out
    }

    /// The requests that store the energy registers and the clock at once.
    pub fn force_flush_energy(&self, now_ms: i64) -> (r: Vec<PersistRequest>)
        ensures
            self@.persistent ==> flush_requests(r@, self@, now_ms),
            !self@.persistent ==> r@.len() == 0,
    {
        self.flush_energy_registers(now_ms)
    }

    /// Stores the energy registers if that is due: after the configured time, or when the
    /// energy has changed by the configured amount.
    pub fn check_energy_flush(&mut self, seconds_since_flush: u64, now_ms: i64) -> (r: Option<
        Vec<PersistRequest>,
    >)
        ensures
            old(self).wf() ==> final(self).wf(),
            r is Some <==> flush_due(old(self)@, seconds_since_flush),
            r matches Some(requests) ==> flush_requests(requests@, old(self)@, now_ms) && final(self)@ == (MeterModel {
                flushed: old(self)@.state.energy(EnergyType::ForwardActive, 0),
                ..old(self)@
            }),
            r is None ==> final(self)@ == old(self)@,
    {
        if !self.persistent {
            return None;
        }
        let current: Quantity = self.state.get_energy(EnergyType::ForwardActive, None);
        let delta: i128 = current as i128 - self.last_flushed_energy as i128;
        let size: i128 = if delta < 0 {
            -delta
        } else {
            delta
        };
        let flush: &EnergyFlushConfig = &self.config.energy_flush_config;
        if seconds_since_flush >= flush.interval_secs || size >= flush.threshold_kwh as i128 {
            let requests = self.flush_energy_registers(now_ms);
            self.last_flushed_energy = current;
            Some(requests)
        } else {
            None
        }
    }

    /// Whether a step can be taken.
    pub fn can_tick(&self, elapsed_nanos: u64, time_scale: Quantity) -> (r: bool)
        ensures
            r == can_step(self@.engine, self@.state, elapsed_nanos, time_scale),
    {
        self.physics.can_tick(&self.state, elapsed_nanos, time_scale)
    }

    /// One step of the meter, given the noise, the seconds since the registers were last
    /// stored, and the real time.
    pub fn tick_with(
        &mut self,
        elapsed_nanos: u64,
        time_scale: Quantity,
        noise: &Noise,
        seconds_since_flush: u64,
        now_ms: i64,
    ) -> (r: TickOutput)
        requires
            old(self).wf(),
            can_step(old(self)@.engine, old(self)@.state, elapsed_nanos, time_scale),
        ensures
            final(self).wf(),
            exists|simulated: MeterState, sampled: MeterState, samples: Seq<LoadRecordSample>|
                #[trigger]
                meter_stepped(
                    old(self)@,
                    final(self)@,
                    simulated_nanos(elapsed_nanos, time_scale),
                    *noise,
                    seconds_since_flush,
                    now_ms,
                    r,
                    simulated,
                    sampled,
                    samples,
                ),
    {
        let settled: bool = self.physics.tick_with(
            &mut self.state,
            elapsed_nanos,
            time_scale,
            noise,
        );
        let ghost simulated = self.state;
        let samples = self.physics.check_load_record_sampling(&mut self.state);
        let ghost sampled = self.state;
        let mut requests = self.persist_load_records(&samples);
        let ghost r0 = requests@;
        let mut frozen = self.process_pending_freeze();
        let ghost r1 = frozen@;
        requests.append(&mut frozen);
        let ghost before_flush = self@;
        let mut flushed: bool = false;
        if let Some(mut stored) = self.check_energy_flush(seconds_since_flush, now_ms) {
            let ghost r2 = stored@;
            let ghost so_far = requests@;
            requests.append(&mut stored);
            flushed = true;
            assert(requests@.skip(so_far.len() as int) =~= r2);
        }
        let out = TickOutput { settled, flushed, requests };
        proof {
            assert(out.requests@.take(r0.len() as int) =~= r0);
            assert(out.requests@.subrange(r0.len() as int, (r0.len() + r1.len()) as int) =~= r1);
            assert(meter_stepped(
                old(self)@,
                self@,
                simulated_nanos(elapsed_nanos, time_scale),
                *noise,
                seconds_since_flush,
                now_ms,
                out,
                simulated,
                sampled,
                samples@,
            ));
        }
        out
    }

    /// One step of the meter with fresh noise.
    pub fn tick(
        &mut self,
        elapsed_nanos: u64,
        time_scale: Quantity,
        seconds_since_flush: u64,
        now_ms: i64,
    ) -> (r: TickOutput)
        requires
            old(self).wf(),
            can_step(old(self)@.engine, old(self)@.state, elapsed_nanos, time_scale),
        ensures
            final(self).wf(),
            exists|
                noise: Noise,
                simulated: MeterState,
                sampled: MeterState,
                samples: Seq<LoadRecordSample>,
            |
                noise.in_range() && #[trigger] meter_stepped(
                    old(self)@,
                    final(self)@,
                    simulated_nanos(elapsed_nanos, time_scale),
                    noise,
                    seconds_since_flush,
                    now_ms,
                    r,
                    simulated,
                    sampled,
                    samples,
                ),
    {
        let noise = Noise::draw();
        self.tick_with(elapsed_nanos, time_scale, &noise, seconds_since_flush, now_ms)
    }
}

impl Default for VirtualMeter {
    /// A meter of the default configuration.
    fn default() -> (r: VirtualMeter)
        ensures
            r.wf(),
            !r@.persistent,
            r@.flushed == 0,
            r@.state.address@ == seq![0x12u8, 0x34, 0x56, 0x78, 0x90, 0x12],
            r@.engine == fresh_engine(r@.config.physics_config.load_model),
            r@.engine.load_model.is_default(),
            exists|fresh: MeterState| #[trigger]
                new_meter(fresh, fresh.virtual_time, fresh.max_demand_time) && r@.state == (
                MeterState { address: r@.config.address, ..fresh }),
    {
        VirtualMeter::new(VirtualMeterConfig::default())
    }
}

proof fn lemma_snapshot_keeps_values(s0: MeterState, s1: MeterState, t: FreezeTrigger)
    requires
        took_snapshot(s0, s1, t),
    ensures
        s1 == (MeterState { freeze_snapshots: s1.freeze_snapshots, ..s0 }),
{
}

proof fn lemma_same_capture(
    a: MeterState,
    b: MeterState,
    data: crate::simulation::freeze::FreezeData,
)
    requires
        data.captures(a),
        a == (MeterState {
            freeze_snapshots: a.freeze_snapshots,
            pending_freeze_triggers: a.pending_freeze_triggers,
            ..b
        }),
    ensures
        data.captures(b),
{
    assert forall|t: EnergyType| #[trigger]
        crate::simulation::freeze::rate_energies(b, t) =~= crate::simulation::freeze::rate_energies(
            a,
            t,
        ) by {}
    assert forall|t: EnergyType| #[trigger]
        crate::simulation::freeze::rate_demands(b, t) =~= crate::simulation::freeze::rate_demands(
            a,
            t,
        ) by {}
}

/// A valid configuration whose voltage and current are whole thousandths and whose frequency
/// is a whole number is the configuration of the meter afterwards.
pub proof fn law_config_is_kept(m0: MeterModel, m1: MeterModel, c: SimulationConfig)
    requires
        config_error(c) is None,
        m1 == (MeterModel {
            state: with_config(m0.state, c),
            engine: EngineModel { load_model: c.load_model, ..m0.engine },
            ..m0
        }),
        c.rated_voltage % 1_000_000 == 0,
        c.rated_current % 1_000_000 == 0,
        c.rated_frequency % 1_000_000_000 == 0,
    ensures
        configured(m1.state, m1.engine.load_model) == c,
{
    reveal(scaled);
    assert(crate::quantity::pow10(3) == 1000) by {
        reveal_with_fuel(crate::quantity::pow10, 4);
    }
    assert(crate::quantity::pow10(0) == 1);
}

} // verus!
