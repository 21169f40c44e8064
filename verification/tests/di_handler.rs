use meter_core::protocol::format::u64_to_bcd;
use meter_core::simulation::command_error::CommandError;
use meter_core::simulation::di_handler::encoding::{
    encode_bcd_current, encode_bcd_energy, encode_bcd_voltage, to_bcd,
};
use meter_core::simulation::di_handler::read_error::ReadError;
use meter_core::simulation::di_handler::DIHandler;
use meter_core::simulation::state::{EnergyType, MeterState};
use meter_core::time::DateTime;

const UNIT: i64 = 1_000_000_000;

#[test]
fn test_encode_bcd() {
    let voltage_bytes = encode_bcd_voltage(220_500_000_000);
    assert_eq!(voltage_bytes.len(), 2);
    assert_eq!(voltage_bytes, vec![0x05, 0x22]);

    let current_bytes = encode_bcd_current(12_345_000_000);
    assert_eq!(current_bytes.len(), 3);
    assert_eq!(current_bytes, vec![0x45, 0x23, 0x01]);

    let energy_bytes = encode_bcd_energy(12_345_670_000_000);
    assert_eq!(energy_bytes.len(), 4);
    assert_eq!(energy_bytes, vec![0x67, 0x45, 0x23, 0x01]);
}

#[test]
fn test_settlement_rollover_archives_data() {
    let mut state = MeterState::default();
    state.settlement_days = [1, 0, 0];
    state.set_energy(EnergyType::ForwardActive, None, 100 * UNIT);
    state.set_energy(EnergyType::ForwardActive, Some(1), 60 * UNIT);
    state.phase_forward_active = [30 * UNIT, 35 * UNIT, 35 * UNIT];
    state.max_demand = 4_500_000_000;

    let now = DateTime::with_ymd_and_hms(2025, 6, 2, 8, 0, 0).unwrap();
    state.virtual_time = now;
    state.last_settlement_rollover =
        Some(DateTime::with_ymd_and_hms(2025, 5, 15, 0, 0, 0).unwrap());

    state.settlement_rollover_if_due();

    assert_eq!(state.get_settlement_energy(1, EnergyType::ForwardActive, None), 100 * UNIT);
    assert_eq!(state.get_settlement_energy(1, EnergyType::ForwardActive, Some(1)), 60 * UNIT);
    for phase in 0..3u8 {
        assert_eq!(
            state.get_phase_energy(1, phase),
            state.phase_forward_active[phase as usize]
        );
    }
    assert_eq!(state.max_demand, 0);
    let handler = DIHandler::new();
    let result = handler.handle_read([0x01, 0x00, 0x01, 0x01], &state).unwrap();
    assert_eq!(result.len(), 8);

    state.set_energy(EnergyType::ForwardActive, None, 200 * UNIT);
    state.settlement_rollover_if_due();
    assert_eq!(state.get_settlement_energy(1, EnergyType::ForwardActive, None), 100 * UNIT);
    let _ = state.virtual_time.day();
}

#[test]
fn test_write_settlement_day_config() {
    let mut state = MeterState::default();
    let handler = DIHandler::new();

    assert!(handler.handle_write([0x01, 0x0B, 0x00, 0x04], &[0x15, 0x08], &mut state).is_ok());
    assert_eq!(state.settlement_days[0], 15);
    assert_eq!(state.settlement_hours[0], 8);

    let result = handler.handle_read([0x01, 0x0B, 0x00, 0x04], &state).unwrap();
    assert_eq!(result, vec![0x15, 0x08]);

    assert!(handler.handle_write([0x02, 0x0B, 0x00, 0x04], &[0x99, 0x99], &mut state).is_ok());
    assert_eq!(state.settlement_days[1], 0);
    assert_eq!(state.settlement_hours[1], 0);

    assert!(handler.handle_write([0x03, 0x0B, 0x00, 0x04], &[0x00, 0x08], &mut state).is_err());
    assert!(handler.handle_write([0x03, 0x0B, 0x00, 0x04], &[0x29, 0x08], &mut state).is_err());
    assert!(handler.handle_write([0x03, 0x0B, 0x00, 0x04], &[0x01, 0x24], &mut state).is_err());
    assert!(handler.handle_write([0x01, 0x0B, 0x00, 0x04], &[0x15], &mut state).is_err());
    assert!(handler.handle_write([0x04, 0x0B, 0x00, 0x04], &[0x15, 0x08], &mut state).is_err());
}

#[test]
fn test_energy_block_and_rate_reads() {
    let mut state = MeterState::default();
    state.set_energy(EnergyType::ReverseActive, None, 100 * UNIT);
    state.set_energy(EnergyType::ReverseActive, Some(1), 40 * UNIT);
    state.set_energy(EnergyType::ReverseActive, Some(2), 60 * UNIT);
    let handler = DIHandler::new();

    let result = handler.handle_read([0x00, 0x00, 0x02, 0x00], &state);
    assert!(result.is_ok());
    assert_eq!(result.unwrap().len(), 4);

    let result = handler.handle_read([0x00, 0x01, 0x02, 0x00], &state);
    assert!(result.is_ok());

    let result = handler.handle_read([0x00, 0xFF, 0x02, 0x00], &state);
    assert!(result.is_ok());
    assert_eq!(result.unwrap().len(), 4 * (1 + state.num_rates as usize));

    for di2 in [0x03u8, 0x04] {
        let result = handler.handle_read([0x00, 0xFF, di2, 0x00], &state);
        assert!(result.is_ok(), "000{di2:X}FF00 should be supported");
    }

    let result = handler.handle_read([0x00, 0x10, 0x02, 0x00], &state);
    assert!(result.is_err());
}

#[test]
fn test_extended_energy_and_quality_reads() {
    let mut state = MeterState::default();
    state.set_energy(EnergyType::ForwardActive, None, 120 * UNIT);
    state.set_energy(EnergyType::ReverseActive, None, 30 * UNIT);
    state.set_settlement_energy(1, EnergyType::ForwardActive, None, 88 * UNIT);
    state.phase_forward_active = [10 * UNIT, 20 * UNIT, 30 * UNIT];
    state.voltage_thd = [1_500_000_000, 1_500_000_000, 1_500_000_000];
    state.voltage_harmonics[0][3] = 2_500_000_000;
    state.neutral_current = 123_000_000;
    let handler = DIHandler::new();

    let result = handler.handle_read([0x00, 0x00, 0x00, 0x00], &state);
    assert!(result.is_ok());
    let bytes = result.unwrap();
    assert_eq!(bytes, vec![0x00, 0x90, 0x00, 0x00]);

    let result = handler.handle_read([0x01, 0x00, 0x01, 0x00], &state);
    assert!(result.is_ok());
    assert_eq!(result.unwrap().len(), 4);

    let result = handler.handle_read([0x00, 0x00, 0x15, 0x00], &state);
    assert!(result.is_ok());

    let result = handler.handle_read([0x00, 0xFF, 0x05, 0x00], &state);
    assert!(result.is_ok());
    assert_eq!(result.unwrap().len(), 4 * (1 + state.num_rates as usize));

    assert!(handler.handle_read([0x00, 0x01, 0x08, 0x02], &state).is_ok());
    let result = handler.handle_read([0x00, 0xFF, 0x08, 0x02], &state);
    assert_eq!(result.unwrap().len(), 6);
    assert!(handler.handle_read([0x03, 0x01, 0x0A, 0x02], &state).is_ok());
    let result = handler.handle_read([0xFF, 0x01, 0x0A, 0x02], &state);
    assert_eq!(result.unwrap().len(), 42);
    let result = handler.handle_read([0x01, 0x00, 0x80, 0x02], &state);
    assert_eq!(result.unwrap().len(), 3);
    let result = handler.handle_read([0x00, 0x01, 0x07, 0x02], &state);
    assert!(result.is_ok());
    assert!(handler.handle_read([0x00, 0x01, 0x01, 0x01], &state).is_ok());
}

#[test]
fn test_protocol_extended_reads() {
    let mut state = MeterState::default();
    state.remaining_energy = 50 * UNIT;
    state.remaining_amount = 25_500_000_000;
    state.meter_temperature = 26_500_000_000;
    state.current_step_price = 550_000_000;
    state.settlement_days = [1, 0, 0];
    let handler = DIHandler::new();

    assert_eq!(handler.handle_read([0x01, 0x01, 0x00, 0x04], &state).unwrap().len(), 4);
    assert_eq!(handler.handle_read([0x02, 0x01, 0x00, 0x04], &state).unwrap().len(), 3);
    assert_eq!(
        handler.handle_read([0x03, 0x01, 0x00, 0x04], &state).unwrap(),
        vec![to_bcd(state.demand_period_minutes as u8)]
    );
    assert!(handler.handle_read([0x03, 0x07, 0x00, 0x04], &state).is_ok());
    assert_eq!(handler.handle_read([0xFF, 0x05, 0x00, 0x04], &state).unwrap().len(), 18);
    assert!(handler.handle_read([0x01, 0x09, 0x00, 0x04], &state).is_ok());
    assert!(handler.handle_read([0x02, 0x0A, 0x00, 0x04], &state).is_ok());
    assert_eq!(
        handler.handle_read([0x01, 0x0B, 0x00, 0x04], &state).unwrap(),
        vec![0x01, 0x00]
    );

    assert!(handler.handle_read([0x00, 0x00, 0x80, 0x00], &state).is_ok());
    assert!(handler.handle_read([0x00, 0x01, 0x90, 0x00], &state).is_ok());
    assert!(handler.handle_read([0x00, 0x02, 0x90, 0x00], &state).is_ok());
    assert!(handler.handle_read([0x00, 0x00, 0x0B, 0x00], &state).is_ok());
    let result = handler.handle_read([0xFF, 0xFF, 0x01, 0x00], &state);
    assert_eq!(result.unwrap().len(), 4 * 13 * (1 + state.num_rates as usize));

    assert!(handler.handle_read([0x00, 0x02, 0x02, 0x01], &state).is_ok());
    assert!(handler.handle_read([0x00, 0x00, 0x15, 0x01], &state).is_ok());
    assert!(handler.handle_read([0x01, 0x00, 0x01, 0x01], &state).is_ok());
    assert!(handler.handle_read([0x00, 0xFF, 0x04, 0x01], &state).is_ok());

    assert!(handler.handle_read([0x07, 0x00, 0x80, 0x02], &state).is_ok());
    assert!(handler.handle_read([0x0B, 0x00, 0x80, 0x02], &state).is_ok());
}

#[test]
fn test_instantaneous_block_reads() {
    let state = MeterState::default();
    let handler = DIHandler::new();

    let result = handler.handle_read([0x00, 0xFF, 0x04, 0x02], &state);
    assert!(result.is_ok());
    assert_eq!(result.unwrap().len(), 3 * 4);

    let result = handler.handle_read([0x00, 0xFF, 0x05, 0x02], &state);
    assert!(result.is_ok());
    assert_eq!(result.unwrap().len(), 3 * 4);

    let result = handler.handle_read([0x00, 0xFF, 0x06, 0x02], &state);
    assert!(result.is_ok());
    assert_eq!(result.unwrap().len(), 2 * 4);

    let result = handler.handle_read([0x02, 0x00, 0x80, 0x02], &state);
    assert!(result.is_ok());
    assert_eq!(result.unwrap().len(), 2);

    for di2 in [0x01u8, 0x02, 0x03, 0x04] {
        let result = handler.handle_read([0x00, 0x00, di2, 0x01], &state);
        assert!(result.is_ok(), "010{di2:X}0000 should be supported");
    }
}

#[test]
fn test_di_handler() {
    let state = MeterState::default();
    let handler = DIHandler::new();

    let result = handler.handle_read([0x00, 0x01, 0x01, 0x02], &state);
    assert!(result.is_ok());
    let data = result.unwrap();
    assert_eq!(data.len(), 2);

    let result = handler.handle_read([0x00, 0x01, 0x02, 0x02], &state);
    assert!(result.is_ok());

    let result = handler.handle_read([0x00, 0x00, 0x03, 0x02], &state);
    assert!(result.is_ok());

    let result = handler.handle_read([0x00, 0x00, 0x01, 0x00], &state);
    assert!(result.is_ok());
    let data = result.unwrap();
    assert_eq!(data.len(), 4);
}

#[test]
fn test_di_handler_write() {
    let handler = DIHandler::new();
    let mut state = MeterState::default();

    let di = [0x03, 0x07, 0x00, 0x04];
    let data = vec![0x04];
    assert!(handler.handle_write(di, &data, &mut state).is_ok());
    assert_eq!(state.baudrate, 0x04);
    assert_eq!(state.comm_speed_feature[2], 0x04);

    let di = [0x09, 0x04, 0x00, 0x04];
    let data = u64_to_bcd(1600, 3);
    assert!(handler.handle_write(di, &data, &mut state).is_ok());
    assert_eq!(state.meter_constant, 1600);

    let di = [0x03, 0x01, 0x00, 0x04];
    let data = vec![to_bcd(15)];
    assert!(handler.handle_write(di, &data, &mut state).is_ok());
    assert_eq!(state.demand_period_minutes, 15);

    let di = [0x01, 0x04, 0x00, 0x04];
    let data = vec![0x01, 0x02, 0x03, 0x04, 0x05, 0x06];
    assert!(handler.handle_write(di, &data, &mut state).is_ok());
    assert_eq!(state.address, [0x06, 0x05, 0x04, 0x03, 0x02, 0x01]);

    let di = [0x01, 0x06, 0x00, 0x04];
    let data = vec![0x12];
    assert!(handler.handle_write(di, &data, &mut state).is_ok());
    assert_eq!(state.active_combination_word, 0x12);

    let di = [0x01, 0x08, 0x00, 0x04];
    let data = vec![0x07];
    assert!(handler.handle_write(di, &data, &mut state).is_ok());
    assert_eq!(state.weekly_rest_day_word, 0x07);

    let di = [0x01, 0x01, 0x00, 0x04];
    let data = vec![0x24, 0x06, 0x15, 0x03];
    assert!(handler.handle_write(di, &data, &mut state).is_ok());
    assert_eq!(state.virtual_time.year(), 2024);
    assert_eq!(state.virtual_time.month(), 6);
    assert_eq!(state.virtual_time.day(), 15);

    let di = [0x02, 0x01, 0x00, 0x04];
    let data = vec![0x10, 0x30, 0x45];
    assert!(handler.handle_write(di, &data, &mut state).is_ok());
    assert_eq!(state.virtual_time.hour(), 10);
    assert_eq!(state.virtual_time.minute(), 30);
    assert_eq!(state.virtual_time.second(), 45);

    let di = [0x00, 0x00, 0x01, 0x00];
    let data = vec![0x00, 0x00, 0x00, 0x00];
    assert!(handler.handle_write(di, &data, &mut state).is_err());

    let di = [0x01, 0x04, 0x00, 0x04];
    let data = vec![0x04, 0x05];
    assert!(handler.handle_write(di, &data, &mut state).is_err());
}

#[test]
fn test_event_record_read() {
    let handler = DIHandler::new();
    let mut state = MeterState::default();
    let now = DateTime::now();

    state.add_event_record(0x30, 0x0F, now, vec![0x01, 0x02, 0x03, 0x04]);

    let fault_start = now.plus_millis(-30 * 60 * 1000);
    state.add_event_record(0x01, 0x01, fault_start, vec![0xAA, 0xBB]);
    state.end_event_record(0x01, 0x01, now);

    let di = [0x01, 0x0F, 0x30, 0x03];
    let result = handler.handle_read_sync(di, &state).unwrap();

    assert!(result.len() >= 14);
    let data_start = result.len() - 4;
    assert_eq!(&result[data_start..], &[0x01, 0x02, 0x03, 0x04]);

    let di = [0x00, 0x01, 0x01, 0x03];
    let result = handler.handle_read_sync(di, &state).unwrap();

    assert_eq!(result.len(), 6);
    assert_eq!(result[0], 0x01);
    assert_eq!(result[1], 0x00);
    assert_eq!(result[2], 0x00);
    assert_eq!(result[3], 0x30);
    assert_eq!(result[4], 0x00);
    assert_eq!(result[5], 0x00);
}

#[test]
fn reads_that_fail_say_why() {
    let state = MeterState::default();
    let handler = DIHandler::new();
    let read = |di3: u8, di2: u8, di1: u8, di0: u8| {
        handler.handle_read([di0, di1, di2, di3], &state).unwrap_err()
    };
    assert_eq!(
        read(0xFF, 0xFF, 0xFF, 0xFF),
        ReadError::Unsupported { di3: 0xFF, di2: 0xFF, di1: 0xFF, di0: 0xFF }
    );
    assert_eq!(read(0x00, 0x01, 0x10, 0x00), ReadError::RateOutOfRange {
        rate: 10,
        configured: state.num_rates
    });
    assert_eq!(read(0x03, 0x01, 0x01, 0x00), ReadError::NoEventSummary {
        event_type: 0x01,
        sub_type: 0x01
    });
    assert_eq!(read(0x03, 0x01, 0x01, 0x02), ReadError::NoEventRecord {
        event_type: 0x01,
        sub_type: 0x01,
        occurrence: 0x02
    });
    assert_eq!(read(0x03, 0x01, 0x01, 0x20), ReadError::EventIndex { di0: 0x20 });
    assert_eq!(read(0x05, 0x00, 0x00, 0x01), ReadError::NeedsStore);
    assert_eq!(ReadError::NeedsStore.error_word().bits(), 0x01);
    assert_eq!(
        ReadError::NoEventSummary { event_type: 1, sub_type: 1 }.error_word().bits(),
        0x02
    );
}

#[test]
fn writes_that_fail_say_why_and_change_nothing() {
    let handler = DIHandler::new();
    let mut state = MeterState::default();
    let address = state.address;
    assert_eq!(
        handler.handle_write([0x01, 0x04, 0x00, 0x04], &[1, 2], &mut state).unwrap_err(),
        CommandError::Length { expected: 6, actual: 2 }
    );
    assert_eq!(state.address, address);
    assert_eq!(
        handler.handle_write([0x00, 0x00, 0x01, 0x00], &[0], &mut state).unwrap_err(),
        CommandError::NotParameter { di3: 0, di2: 1, di1: 0, di0: 0 }
    );
    assert_eq!(
        handler.handle_write([0x03, 0x0B, 0x00, 0x04], &[0x29, 0x08], &mut state).unwrap_err(),
        CommandError::SettlementDay { day: 29 }
    );
    assert_eq!(
        handler.handle_write([0x03, 0x0B, 0x00, 0x04], &[0x01, 0x24], &mut state).unwrap_err(),
        CommandError::SettlementHour { hour: 24 }
    );
}

#[test]
fn a_written_constant_is_read_back() {
    let handler = DIHandler::new();
    let mut state = MeterState::default();
    handler.handle_write([0x09, 0x04, 0x00, 0x04], &[0x00, 0x64, 0x00], &mut state).unwrap();
    assert_eq!(state.meter_constant, 6400);
    assert_eq!(
        handler.handle_read([0x09, 0x04, 0x00, 0x04], &state).unwrap(),
        vec![0x00, 0x64, 0x00]
    );
}
