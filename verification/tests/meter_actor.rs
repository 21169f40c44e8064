use meter_core::actor::admin::{AdminError, AdminReply, ChangedSettings};
use meter_core::actor::messages::{AdminCommand, RegistryMsg, TickMsg};
use meter_core::actor::meter_actor::{MeterActor, MeterActorConfig, ProtocolStep};
use meter_core::protocol::codec::{decode_frame, encode_frame, ErrorInfoWord};
use meter_core::protocol::format::u64_to_bcd;
use meter_core::protocol::frame::Frame;
use meter_core::simulation::di_handler::load_profile::RecordQuery;
use meter_core::simulation::di_handler::read_error::ReadError;
use meter_core::simulation::load_model::{LoadModelConfig, LoadProfile, SimulationConfig};
use meter_core::simulation::load_record::{LoadRecordData, LoadRecordSample};
use meter_core::simulation::state::{EnergyType, MeterState};
use meter_core::simulation::virtual_meter::{VirtualMeter, VirtualMeterConfig};
use meter_core::time::DateTime;

const UNIT: i64 = 1_000_000_000;

fn actor() -> (MeterActor, [u8; 6]) {
    let config = VirtualMeterConfig::default();
    let address = config.address;
    let meter = VirtualMeter::new(config);
    let actor_config = MeterActorConfig { address, ..Default::default() };
    (MeterActor::new(meter, actor_config), address)
}

fn stored_actor() -> MeterActor {
    let config = VirtualMeterConfig::default();
    let actor_config =
        MeterActorConfig { address: config.address, has_store: true, ..Default::default() };
    MeterActor::new(VirtualMeter::with_persistence(config), actor_config)
}

fn send(actor: &mut MeterActor, frame: &Frame) -> Vec<u8> {
    let decoded = decode_frame(&encode_frame(frame)).unwrap();
    match actor.on_protocol_command(0, &decoded) {
        ProtocolStep::Reply { bytes, moved } => {
            assert!(moved.is_none());
            bytes
        }
        other => panic!("{other:?}"),
    }
}

fn answer(actor: &mut MeterActor, frame: &Frame) -> Frame {
    decode_frame(&send(actor, frame)).unwrap()
}

#[test]
fn apply_simulation_configuration_updates_actor_snapshot() {
    let (mut actor, _address) = actor();
    let simulation = SimulationConfig {
        load_model: LoadModelConfig {
            profile: LoadProfile::Fixed(400_000_000),
            voltage_noise_v: 0,
            frequency_noise_hz: 0,
            power_factor_noise: 0,
            power_factor_min: 0,
            power_factor_max: UNIT,
            phase_current_factors: [UNIT, UNIT, UNIT],
        },
        rated_voltage: 230 * UNIT,
        rated_current: 40 * UNIT,
        rated_frequency: 50 * UNIT,
        power_factor: 900_000_000,
        meter_constant: 800,
        demand_period_minutes: 10,
        time_scale: 6 * UNIT,
    };
    let command = AdminCommand::ApplySimulationConfig { config: simulation };
    assert_eq!(
        command.settings_to_store(),
        Some(ChangedSettings::Simulation { config: simulation })
    );
    assert!(actor.on_admin_command(command).is_ok());

    assert!(matches!(
        actor.on_admin_command(AdminCommand::GetSnapshot),
        Ok(AdminReply::Snapshot)
    ));
    let now = actor.meter().simulation_config();
    assert!(matches!(now.load_model.profile, LoadProfile::Fixed(_)));
    assert_eq!(now.rated_voltage, 230 * UNIT);
    assert_eq!(now.rated_current, 40 * UNIT);
    assert_eq!(now.time_scale, 6 * UNIT);

    let _ = actor.on_admin_command(AdminCommand::Shutdown);
}

#[test]
fn test_meter_actor_basic() {
    let (mut actor, _address) = actor();

    let result = actor.on_admin_command(AdminCommand::GetAddress);
    assert!(matches!(result, Ok(AdminReply::Address { text }) if text == "129078563412"));

    for _ in 0..5 {
        let tick = TickMsg { wall_elapsed_nanos: 1_000_000_000, time_scale: UNIT };
        assert!(actor.can_tick(tick));
        actor.on_tick(tick, 0, 0);
    }

    let result = actor.on_admin_command(AdminCommand::GetSnapshot);
    assert!(result.is_ok());

    let _ = actor.on_admin_command(AdminCommand::Shutdown);
}

#[test]
fn test_meter_actor_read_voltage() {
    let (mut actor, address) = actor();

    let di = [0x00, 0x01, 0x01, 0x02];
    let resp = answer(&mut actor, &Frame::read(address, di));

    assert_eq!(resp.control, 0x91);
    assert!(resp.data.len() >= 6);
    assert_eq!(&resp.data[0..4], &di);
}

#[test]
fn test_meter_actor_read_energy() {
    let (mut actor, address) = actor();

    let di = [0x00, 0x00, 0x01, 0x00];
    let resp = answer(&mut actor, &Frame::read(address, di));

    assert_eq!(resp.control, 0x91);
    assert!(resp.data.len() >= 8);
    assert_eq!(&resp.data[0..4], &di);
}

#[test]
fn test_meter_actor_read_invalid_di() {
    let (mut actor, address) = actor();

    let di = [0xFF, 0xFF, 0xFF, 0xFF];
    let resp = answer(&mut actor, &Frame::read(address, di));

    assert_eq!(resp.control, 0xD1);
    assert_eq!(resp.data.len(), 1);
    let error_code = resp.data[0];
    assert_eq!(error_code, 0x02);
}

#[test]
fn test_meter_actor_broadcast_time_sync() {
    let (mut actor, address) = actor();

    let mut data = Vec::new();
    data.extend_from_slice(&u64_to_bcd(45, 1));
    data.extend_from_slice(&u64_to_bcd(30, 1));
    data.extend_from_slice(&u64_to_bcd(10, 1));
    data.extend_from_slice(&u64_to_bcd(15, 1));
    data.extend_from_slice(&u64_to_bcd(6, 1));
    data.extend_from_slice(&u64_to_bcd(24, 1));

    let frame = Frame { address, control: 0x08, data };
    assert!(send(&mut actor, &frame).is_empty());

    assert_eq!(
        actor.meter().state().virtual_time,
        DateTime::with_ymd_and_hms(2024, 6, 15, 10, 30, 45).unwrap()
    );
    assert_eq!(actor.meter().state().get_all_event_records(0x31, 0x01).len(), 1);
}

#[test]
fn test_meter_actor_write_command() {
    let (mut actor, address) = actor();

    let di = [0x03, 0x07, 0x00, 0x04];
    let password = [0x00, 0x00, 0x00, 0x00];
    let operator_code = [0x01, 0x02, 0x03, 0x04];
    let write_data = [0x04];

    let mut data = Vec::new();
    data.extend_from_slice(&di);
    data.extend_from_slice(&password);
    data.extend_from_slice(&operator_code);
    data.extend_from_slice(&write_data);

    let frame = Frame { address, control: 0x14, data };
    let response_frame = answer(&mut actor, &frame);

    assert_eq!(response_frame.control, 0x94);
    assert_eq!(response_frame.data.len(), 0);
    assert_eq!(actor.meter().state().baudrate, 0x04);
}

#[test]
fn test_meter_actor_write_command_password_error() {
    let (mut actor, address) = actor();

    let di = [0x01, 0x01, 0x04, 0x04];
    let password = [0x00, 0x11, 0x22, 0x33];
    let operator_code = [0x01, 0x02, 0x03, 0x04];
    let write_data = [0x04];

    let mut data = Vec::new();
    data.extend_from_slice(&di);
    data.extend_from_slice(&password);
    data.extend_from_slice(&operator_code);
    data.extend_from_slice(&write_data);

    let frame = Frame { address, control: 0x14, data };
    let response_frame = answer(&mut actor, &frame);

    assert_eq!(response_frame.control, 0xD4);
    assert!(response_frame.data.len() > 0);
    let error_word = response_frame.data[0];
    assert_ne!(error_word & ErrorInfoWord::PASSWORD_ERR, 0);
}

#[test]
fn test_meter_actor_freeze_command() {
    let (mut actor, address) = actor();

    let mut data = Vec::new();
    data.extend_from_slice(&u64_to_bcd(99, 1));
    data.extend_from_slice(&u64_to_bcd(99, 1));
    data.extend_from_slice(&u64_to_bcd(99, 1));
    data.extend_from_slice(&u64_to_bcd(99, 1));

    let frame = Frame { address, control: 0x16, data };
    let response_frame = answer(&mut actor, &frame);

    assert_eq!(response_frame.control, 0x96);
    assert_eq!(response_frame.data.len(), 0);
}

#[test]
fn test_meter_actor_change_baudrate_command() {
    let (mut actor, address) = actor();

    let data = vec![0x04];
    let frame = Frame { address, control: 0x17, data };
    let response_frame = answer(&mut actor, &frame);

    assert_eq!(response_frame.control, 0x97);
    assert_eq!(response_frame.data.len(), 0);
    assert_eq!(actor.meter().state().baudrate, 0x04);
}

#[test]
fn test_meter_actor_change_password_command() {
    let (mut actor, address) = actor();

    let di = [0x01, 0x02, 0x00, 0x04];
    let old_password = [0x00, 0x00, 0x00, 0x00];
    let new_password = [0x00, 0x11, 0x22, 0x33];

    let mut data = Vec::new();
    data.extend_from_slice(&di);
    data.extend_from_slice(&old_password);
    data.extend_from_slice(&new_password);

    let frame = Frame { address, control: 0x18, data };
    let response_frame = answer(&mut actor, &frame);

    assert_eq!(response_frame.control, 0x98);
    assert_eq!(response_frame.data.len(), 0);
    let passwords = &actor.meter().state().password_config;
    assert!(passwords.verify(0, &[0x11, 0x22, 0x33]));
    assert!(!passwords.verify(0, &[0x00, 0x00, 0x00]));
}

#[test]
fn test_meter_actor_demand_clear_command() {
    let (mut actor, address) = actor();

    let di = [0x00, 0x00, 0x00, 0x00];
    let password = [0x00, 0x00, 0x00, 0x00];
    let operator_code = [0x01, 0x02, 0x03, 0x04];

    let mut data = Vec::new();
    data.extend_from_slice(&di);
    data.extend_from_slice(&password);
    data.extend_from_slice(&operator_code);

    let frame = Frame { address, control: 0x19, data };
    let response_frame = answer(&mut actor, &frame);

    assert_eq!(response_frame.control, 0x99);
    assert_eq!(response_frame.data.len(), 0);
}

#[test]
fn test_meter_actor_meter_clear_command() {
    let (mut actor, address) = actor();

    let password = [0x00, 0x00, 0x00, 0x00];
    let operator_code = [0x01, 0x02, 0x03, 0x04];

    let mut data = Vec::new();
    data.extend_from_slice(&password);
    data.extend_from_slice(&operator_code);

    let frame = Frame { address, control: 0x1A, data };
    let response_frame = answer(&mut actor, &frame);

    assert_eq!(response_frame.control, 0x9A);
    assert_eq!(response_frame.data.len(), 0);
}

#[test]
fn test_meter_actor_event_clear_command() {
    let (mut actor, address) = actor();

    let password = [0x00, 0x00, 0x00, 0x00];
    let operator_code = [0x01, 0x02, 0x03, 0x04];

    let mut data = Vec::new();
    data.extend_from_slice(&password);
    data.extend_from_slice(&operator_code);

    let frame = Frame { address, control: 0x1B, data };
    let response_frame = answer(&mut actor, &frame);

    assert_eq!(response_frame.control, 0x9B);
    assert_eq!(response_frame.data.len(), 0);
}

#[test]
fn a_long_answer_comes_in_pieces() {
    let (mut actor, address) = actor();
    let di = [0xFF, 0xFF, 0x01, 0x00];
    let whole = actor.meter().handle_read_command(di).unwrap();
    assert_eq!(whole.len(), 260);

    let first = answer(&mut actor, &Frame::read(address, di));
    assert_eq!(first.control, 0xB1);
    assert_eq!(&first.data[0..4], &di);
    assert_eq!(first.data.len(), 4 + 195);

    let mut more = di.to_vec();
    more.push(1);
    let second = answer(&mut actor, &Frame { address, control: 0x12, data: more.clone() });
    assert_eq!(second.control, 0x92);
    assert_eq!(&second.data[0..5], &more[..]);
    let mut joined = first.data[4..].to_vec();
    joined.extend_from_slice(&second.data[5..]);
    assert_eq!(joined, whole);

    let third = answer(&mut actor, &Frame { address, control: 0x12, data: more });
    assert_eq!((third.control, third.data), (0xD2, vec![0x02]));
}

#[test]
fn a_piece_out_of_turn_ends_the_answer() {
    let (mut actor, address) = actor();
    let di = [0xFF, 0xFF, 0x01, 0x00];
    answer(&mut actor, &Frame::read(address, di));
    let mut more = di.to_vec();
    more.push(2);
    let wrong = answer(&mut actor, &Frame { address, control: 0x12, data: more.clone() });
    assert_eq!((wrong.control, wrong.data), (0xD2, vec![0x01]));
    more[4] = 1;
    let late = answer(&mut actor, &Frame { address, control: 0x12, data: more });
    assert_eq!(late.data, vec![0x02]);
    let short = answer(&mut actor, &Frame { address, control: 0x12, data: vec![1] });
    assert_eq!(short.data, vec![0x01]);
}

#[test]
fn the_address_is_read_and_written() {
    let (mut actor, address) = actor();
    let raw = send(&mut actor, &Frame { address: [0xAA; 6], control: 0x13, data: vec![] });
    assert_eq!(raw[8], 0x93);
    assert_eq!(&raw[10..16], &address);
    assert!(send(&mut actor, &Frame { address, control: 0x13, data: vec![1] }).is_empty());

    let new = [0x01, 0x02, 0x03, 0x04, 0x05, 0x06];
    let mut data = new.to_vec();
    data.extend_from_slice(&[0x00, 0x00, 0x00, 0x00, 0, 0, 0, 0]);
    let request = Frame { address, control: 0x15, data };
    match actor.on_protocol_command(0, &request) {
        ProtocolStep::Reply { bytes, moved } => {
            let frame = decode_frame(&bytes).unwrap();
            assert_eq!(frame.address, new);
            assert_eq!(frame.control, 0x95);
            assert_eq!(frame.data, new.to_vec());
            assert_eq!(moved, Some(RegistryMsg::UpdateAddress { old: address, new }));
        }
        other => panic!("{other:?}"),
    }
    assert_eq!(actor.meter().address(), new);
    assert_eq!(actor.config().address, new);

    let mut wrong = request;
    wrong.data[7] = 0x99;
    let refused = answer(&mut actor, &wrong);
    assert_eq!((refused.control, refused.data), (0xD5, vec![0x04]));
    wrong.data.pop();
    assert_eq!(answer(&mut actor, &wrong).data, vec![0x01]);
}

#[test]
fn commands_that_are_none_are_refused() {
    let (mut actor, address) = actor();
    let refused = answer(&mut actor, &Frame { address, control: 0x1F, data: vec![] });
    assert_eq!((refused.control, refused.data), (0xDF, vec![0x02]));
    let short = answer(&mut actor, &Frame { address, control: 0x14, data: vec![0; 12] });
    assert_eq!((short.control, short.data), (0xD4, vec![0x01]));
    let baud = answer(&mut actor, &Frame { address, control: 0x17, data: vec![0x03] });
    assert_eq!((baud.control, baud.data), (0xD7, vec![0x01]));
    let read = answer(&mut actor, &Frame { address, control: 0x11, data: vec![0x03] });
    assert_eq!((read.control, read.data), (0xD1, vec![0x01]));
}

#[test]
fn a_wrong_password_changes_nothing() {
    let (mut actor, address) = actor();
    let state_of = |actor: &MeterActor| -> (u8, usize) {
        let s: &MeterState = actor.meter().state();
        (s.baudrate, s.event_records.items().len())
    };
    let before = state_of(&actor);
    for control in [0x14u8, 0x19, 0x1A, 0x1B] {
        let mut data = vec![0x03, 0x07, 0x00, 0x04];
        if control == 0x1A || control == 0x1B {
            data.clear();
        }
        data.extend_from_slice(&[0x00, 0x12, 0x34, 0x56, 1, 2, 3, 4]);
        if control == 0x14 {
            data.push(0x04);
        }
        let refused = answer(&mut actor, &Frame { address, control, data });
        assert_eq!((refused.control, refused.data), (0xC0 | control, vec![0x04]));
        assert_eq!(state_of(&actor), before);
    }
}

#[test]
fn load_records_are_looked_up_first() {
    let (mut silent, address) = actor();
    let request = Frame { address, control: 0x11, data: vec![0x02, 0x00, 0x01, 0x06] };
    assert_eq!(answer(&mut silent, &request).data, vec![0x01]);

    let mut actor = stored_actor();
    match actor.on_protocol_command(7, &request) {
        ProtocolStep::Records { query } => {
            assert!(matches!(query, RecordQuery::Latest { class_id: 1 }))
        }
        other => panic!("{other:?}"),
    }
    let none = decode_frame(&actor.finish_records(7, &request, &vec![])).unwrap();
    assert_eq!((none.control, none.data), (0xD1, vec![0x01]));
    let row = LoadRecordSample {
        class_id: 1,
        sample_time: DateTime::with_ymd_and_hms(2025, 1, 1, 12, 0, 0).unwrap(),
        data: LoadRecordData {
            vif: None,
            pq: None,
            pf: None,
            energy: None,
            quadrant: None,
            demand: None,
        },
    };
    let found = decode_frame(&actor.finish_records(7, &request, &vec![row])).unwrap();
    assert_eq!(found.control, 0x91);
    assert_eq!(&found.data[0..4], &request.data[..]);
    let failed =
        decode_frame(&actor.finish_read(7, &request, Err(ReadError::StoreFailed))).unwrap();
    assert_eq!(failed.data, vec![0x01]);
}

#[test]
fn administration_sets_values() {
    let (mut actor, _address) = actor();
    let now = DateTime::with_ymd_and_hms(2025, 2, 3, 4, 5, 6).unwrap();
    let mut run = |cmd: AdminCommand| actor.on_admin_command_at(cmd, now);

    assert!(matches!(
        run(AdminCommand::SetVirtualTime {
            year: 2024,
            month: 6,
            day: 15,
            hour: 1,
            minute: 2,
            second: 3
        }),
        Ok(AdminReply::TimeSet { .. })
    ));
    assert!(run(AdminCommand::SetEnergy { energy_type: 2, rate: Some(3), value: 42 }).is_ok());
    assert!(run(AdminCommand::SetLoadModel {
        voltage: 230 * UNIT,
        current: 7 * UNIT,
        power_factor: 800_000_000
    })
    .is_ok());
    assert!(run(AdminCommand::ChangePassword { level: 2, new_password: [2, 7, 8, 9] }).is_ok());
    assert!(run(AdminCommand::SetBaudrate { baudrate: 0x20 }).is_ok());
    assert!(run(AdminCommand::SetTouConfig { time_slots: vec![(0, 0, 1), (8, 30, 2)] }).is_ok());
    assert!(run(AdminCommand::ApplySettlementDays { days: [1, 0, 28], hours: [0, 0, 23] }).is_ok());
    assert!(run(AdminCommand::ApplyLoadRecordConfig {
        mode_word: 3,
        start_time: [1, 2, 3, 4],
        intervals: [1, 2, 3, 4, 5, 6]
    })
    .is_ok());
    assert!(run(AdminCommand::TriggerFreeze { freeze_type: 1 }).is_ok());
    assert!(run(AdminCommand::ClearMaxDemand).is_ok());
    assert!(run(AdminCommand::ApplyFreezeConfig {
        timed_mode: 1,
        instant_mode: 2,
        appointment_mode: 3,
        hourly_mode: 4,
        daily_mode: 5,
        daily_time: [1, 2],
        hourly_start: [1, 2, 3, 4, 5],
        hourly_interval_min: 60,
        appointment_time: [5, 4, 3, 2, 1],
    })
    .is_ok());
    assert!(run(AdminCommand::InjectFault { event_type: 0x31, phase: 0, active: true }).is_ok());

    let s = actor.meter().state();
    assert_eq!(s.virtual_time, DateTime::with_ymd_and_hms(2024, 6, 15, 1, 2, 3).unwrap());
    assert_eq!(s.get_energy(EnergyType::ReverseActive, Some(3)), 42);
    assert_eq!((s.rated_voltage, s.rated_current), (230_000, 7_000));
    assert!(s.password_config.verify(2, &[7, 8, 9]));
    assert_eq!(s.baudrate, 0x20);
    assert_eq!(s.num_time_slots, 2);
    assert_eq!(s.tou_config.day_table_1.slots[1].rate_number, 2);
    assert_eq!(s.settlement_days, [1, 0, 28]);
    assert_eq!(s.load_record_config.intervals, [1, 2, 3, 4, 5, 6, 0, 0]);
    assert_eq!(s.pending_freeze_triggers.len(), 1);
    assert_eq!((s.max_demand, s.max_demand_time), (0, now));
    assert_eq!(s.hourly_freeze_interval_min, 60);
    assert!(matches!(
        actor.on_admin_command(AdminCommand::ClearMeter),
        Ok(AdminReply::MeterCleared)
    ));
    assert_eq!(actor.meter().state().get_energy(EnergyType::ReverseActive, Some(3)), 0);
}

#[test]
fn administration_refuses_what_is_wrong() {
    let (mut actor, _address) = actor();
    let mut run = |cmd: AdminCommand| actor.on_admin_command(cmd).unwrap_err();
    assert_eq!(
        run(AdminCommand::SetVirtualTime {
            year: 2024,
            month: 2,
            day: 30,
            hour: 0,
            minute: 0,
            second: 0
        }),
        AdminError::InvalidDateTime
    );
    assert_eq!(
        run(AdminCommand::SetEnergy { energy_type: 5, rate: None, value: 0 }),
        AdminError::EnergyType
    );
    assert!(matches!(
        run(AdminCommand::SetLoadModel { voltage: 0, current: 0, power_factor: 0 }),
        AdminError::Config(_)
    ));
    assert_eq!(
        run(AdminCommand::ChangePassword { level: 10, new_password: [0; 4] }),
        AdminError::PasswordLevel
    );
    assert_eq!(run(AdminCommand::SetBaudrate { baudrate: 3 }), AdminError::BaudCode);
    assert_eq!(
        run(AdminCommand::SetTouConfig { time_slots: vec![(0, 0, 1); 15] }),
        AdminError::TooManySlots
    );
    assert_eq!(
        run(AdminCommand::ApplySettlementDays { days: [0, 29, 0], hours: [0; 3] }),
        AdminError::SettlementDay
    );
    assert_eq!(
        run(AdminCommand::ApplySettlementDays { days: [0; 3], hours: [0, 0, 24] }),
        AdminError::SettlementHour
    );
    assert_eq!(
        run(AdminCommand::InjectFault { event_type: 1, phase: 0, active: true }),
        AdminError::FaultPhase
    );
    assert_eq!(
        run(AdminCommand::InjectFault { event_type: 5, phase: 1, active: true }),
        AdminError::SystemPhase
    );
    assert_eq!(
        run(AdminCommand::InjectFault { event_type: 0x0D, phase: 0, active: true }),
        AdminError::FaultType
    );
    assert_eq!(run(AdminCommand::TriggerFreeze { freeze_type: 2 }), AdminError::FreezeKind);
    assert_eq!(run(AdminCommand::ForceFlushEnergy), AdminError::FlushOnDemand);
    assert_eq!(run(AdminCommand::SaveState), AdminError::SaveOnDemand);
}

#[test]
fn shutting_down_stores_the_registers() {
    let mut actor = stored_actor();
    match actor.on_admin_command(AdminCommand::Shutdown) {
        Ok(AdminReply::ShuttingDown { requests }) => assert_eq!(requests.len(), 2),
        other => panic!("{other:?}"),
    }
}

#[test]
fn the_meters_own_scale_multiplies_the_common_one() {
    let (mut actor, _address) = actor();
    let mut config = actor.meter().simulation_config();
    config.time_scale = 3 * UNIT;
    actor.on_admin_command(AdminCommand::ApplySimulationConfig { config }).unwrap();
    let before = actor.meter().state().virtual_time;
    actor.on_tick(
        TickMsg { wall_elapsed_nanos: 1_000_000_000, time_scale: 2 * UNIT },
        0,
        0,
    );
    let after = actor.meter().state().virtual_time;
    assert_eq!(after.nanos_since(&before), 6_000_000_000);
}
