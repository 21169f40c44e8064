//! Parameters of a meter that hold plain values.

use crate::quantity::Quantity;
use vstd::prelude::*;

verus! {

/// Nameplate and manufacturer data (04-00-04-xx), as ASCII or digits.
#[derive(Debug, Clone, Copy)]
pub struct NameplateConfig {
    /// 04-00-04-02 meter number
    pub meter_no: [u8; 6],
    /// 04-00-04-03 asset code
    pub asset_code: [u8; 32],
    /// 04-00-04-04 rated voltage
    pub rated_voltage_ascii: [u8; 6],
    /// 04-00-04-05 rated (basic) current
    pub rated_current_ascii: [u8; 6],
    /// 04-00-04-06 maximum current
    pub max_current_ascii: [u8; 6],
    /// 04-00-04-07 accuracy class of active energy
    pub active_accuracy: [u8; 4],
    /// 04-00-04-08 accuracy class of reactive energy
    pub reactive_accuracy: [u8; 4],
    /// 04-00-04-0A reactive constant, pulses per kvarh
    pub reactive_meter_constant: u32,
    /// 04-00-04-0B meter model
    pub meter_model_ascii: [u8; 10],
    /// 04-00-04-0C production date
    pub production_date_ascii: [u8; 10],
    /// 04-00-04-0D protocol version
    pub protocol_version_ascii: [u8; 16],
    /// 04-00-04-0E customer number
    pub customer_no: [u8; 6],
}

impl NameplateConfig {
    /// The nameplate of a new meter.
    pub open spec fn is_default(self) -> bool {
        &&& self.meter_no@ == seq![0x30u8, 0x30, 0x30, 0x30, 0x30, 0x30]
        &&& self.asset_code@ == Seq::new(32, |i: int| 0x31u8)
        &&& self.rated_voltage_ascii@ == seq![0x32u8, 0x32, 0x30, 0x56, 0x20, 0x20]
        &&& self.rated_current_ascii@ == seq![0x31u8, 0x30, 0x28, 0x36, 0x30, 0x29]
        &&& self.max_current_ascii@ == seq![0x36u8, 0x30, 0x41, 0x20, 0x20, 0x20]
        &&& self.active_accuracy@ == seq![0x31u8, 0x2E, 0x30, 0x20]
        &&& self.reactive_accuracy@ == seq![0x32u8, 0x2E, 0x30, 0x20]
        &&& self.reactive_meter_constant == 1600
        &&& self.meter_model_ascii@ == seq![
            0x44u8,
            0x54,
            0x53,
            0x44,
            0x31,
            0x32,
            0x33,
            0x34,
            0x20,
            0x20,
        ]
        &&& self.production_date_ascii@ == seq![
            0x32u8,
            0x30,
            0x32,
            0x35,
            0x2D,
            0x30,
            0x31,
            0x2D,
            0x30,
            0x31,
        ]
        &&& self.protocol_version_ascii@ == seq![
            0x44u8,
            0x4C,
            0x2F,
            0x54,
            0x36,
            0x34,
            0x35,
            0x2D,
            0x32,
            0x30,
            0x30,
            0x37,
            0x20,
            0x20,
            0x20,
            0x20,
        ]
        &&& self.customer_no@ == seq![0x30u8, 0x30, 0x30, 0x30, 0x30, 0x30]
    }
}

impl Default for NameplateConfig {
    fn default() -> (r: NameplateConfig)
        ensures
            r.is_default(),
    {
        let r = NameplateConfig {
            meter_no: [0x30; 6],
            asset_code: [0x31; 32],
            // "220V  "
            rated_voltage_ascii: [0x32, 0x32, 0x30, 0x56, 0x20, 0x20],
            // "10(60)"
            rated_current_ascii: [0x31, 0x30, 0x28, 0x36, 0x30, 0x29],
            // "60A   "
            max_current_ascii: [0x36, 0x30, 0x41, 0x20, 0x20, 0x20],
            // "1.0 "
            active_accuracy: [0x31, 0x2E, 0x30, 0x20],
            // "2.0 "
            reactive_accuracy: [0x32, 0x2E, 0x30, 0x20],
            reactive_meter_constant: 1600,
            // "DTSD1234  "
            meter_model_ascii: [0x44, 0x54, 0x53, 0x44, 0x31, 0x32, 0x33, 0x34, 0x20, 0x20],
            // "2025-01-01"
            production_date_ascii: [0x32, 0x30, 0x32, 0x35, 0x2D, 0x30, 0x31, 0x2D, 0x30, 0x31],
            // "DL/T645-2007    "
            protocol_version_ascii: [
                0x44,
                0x4C,
                0x2F,
                0x54,
                0x36,
                0x34,
                0x35,
                0x2D,
                0x32,
                0x30,
                0x30,
                0x37,
                0x20,
                0x20,
                0x20,
                0x20,
            ],
            customer_no: [0x30; 6],
        };
        assert(r.meter_no@ =~= seq![0x30u8, 0x30, 0x30, 0x30, 0x30, 0x30]);
        assert(r.asset_code@ =~= Seq::new(32, |i: int| 0x31u8));
        assert(r.customer_no@ =~= seq![0x30u8, 0x30, 0x30, 0x30, 0x30, 0x30]);
        r
    }
}

/// Display and transformer parameters (04-00-03-xx).
#[derive(Debug, Clone, Copy, PartialEq, Eq, Structural)]
pub struct DisplayConfig {
    /// 04-00-03-01 screens of the automatic cycle
    pub cycle_screen_count: u8,
    /// 04-00-03-02 seconds per screen
    pub screen_period_seconds: u8,
    /// 04-00-03-03 decimals of energies
    pub energy_decimals: u8,
    /// 04-00-03-04 decimals of power and demand
    pub demand_decimals: u8,
    /// 04-00-03-05 screens of the key cycle
    pub key_screen_count: u8,
    /// 04-00-03-06 current transformer ratio
    pub ct_ratio: u32,
    /// 04-00-03-07 voltage transformer ratio
    pub pt_ratio: u32,
}

impl Default for DisplayConfig {
    fn default() -> (r: DisplayConfig)
        ensures
            r == (DisplayConfig {
                cycle_screen_count: 5,
                screen_period_seconds: 5,
                energy_decimals: 2,
                demand_decimals: 4,
                key_screen_count: 3,
                ct_ratio: 1,
                pt_ratio: 1,
            }),
    {
        DisplayConfig {
            cycle_screen_count: 5,
            screen_period_seconds: 5,
            energy_decimals: 2,
            demand_decimals: 4,
            key_screen_count: 3,
            ct_ratio: 1,
            pt_ratio: 1,
        }
    }
}

/// Limits and alarm limits (04-00-0D to 04-00-10).
#[derive(Debug, Clone, Copy)]
pub struct LimitConfig {
    /// 04-00-0D-xx conductance, susceptance, resistance and reactance of phases A, B, C
    pub network_coefficients: [[Quantity; 4]; 3],
    pub forward_active_power_limit: Quantity,
    pub reverse_active_power_limit: Quantity,
    pub voltage_upper: Quantity,
    pub voltage_lower: Quantity,
    pub alarm_energy_1: Quantity,
    pub alarm_energy_2: Quantity,
    pub hoard_energy: Quantity,
    pub overdraft_energy: Quantity,
    pub alarm_amount_1: Quantity,
    pub alarm_amount_2: Quantity,
    pub overdraft_amount: Quantity,
    pub hoard_amount: Quantity,
    pub close_allow_amount: Quantity,
}

impl LimitConfig {
    /// The limits of a new meter: a voltage band of 187 V to 253 V, all else zero.
    pub open spec fn is_default(self) -> bool {
        &&& forall|p: int, k: int|
            0 <= p < 3 && 0 <= k < 4 ==> (#[trigger] self.network_coefficients@[p]@[k]) == 0
        &&& self.forward_active_power_limit == 0
        &&& self.reverse_active_power_limit == 0
        &&& self.voltage_upper == 253_000_000_000
        &&& self.voltage_lower == 187_000_000_000
        &&& self.alarm_energy_1 == 0
        &&& self.alarm_energy_2 == 0
        &&& self.hoard_energy == 0
        &&& self.overdraft_energy == 0
        &&& self.alarm_amount_1 == 0
        &&& self.alarm_amount_2 == 0
        &&& self.overdraft_amount == 0
        &&& self.hoard_amount == 0
        &&& self.close_allow_amount == 0
    }
}

impl Default for LimitConfig {
    fn default() -> (r: LimitConfig)
        ensures
            r.is_default(),
    {
        LimitConfig {
            network_coefficients: [[0; 4]; 3],
            forward_active_power_limit: 0,
            reverse_active_power_limit: 0,
            voltage_upper: 253_000_000_000,
            voltage_lower: 187_000_000_000,
            alarm_energy_1: 0,
            alarm_energy_2: 0,
            hoard_energy: 0,
            overdraft_energy: 0,
            alarm_amount_1: 0,
            alarm_amount_2: 0,
            overdraft_amount: 0,
            hoard_amount: 0,
            close_allow_amount: 0,
        }
    }
}

/// Freeze mode words.
#[derive(Debug, Clone, Copy, PartialEq, Eq, Structural)]
pub struct FreezeConfig {
    /// 04-00-09-02 timed freeze
    pub timed_freeze_mode: u8,
    /// 04-00-09-03 instant freeze
    pub instant_freeze_mode: u8,
    /// 04-00-09-04 appointed freeze
    pub appointment_freeze_mode: u8,
}

impl Default for FreezeConfig {
    fn default() -> (r: FreezeConfig)
        ensures
            r == (FreezeConfig {
                timed_freeze_mode: 0,
                instant_freeze_mode: 0,
                appointment_freeze_mode: 0,
            }),
    {
        FreezeConfig { timed_freeze_mode: 0, instant_freeze_mode: 0, appointment_freeze_mode: 0 }
    }
}

/// Load record configuration.
#[derive(Debug, Clone, Copy)]
pub struct LoadRecordConfig {
    /// 04-00-09-01 mode word: one bit per data block
    pub mode_word: u8,
    /// 04-00-0A-xx sampling intervals in minutes, one per class
    pub intervals: [u16; 8],
}

impl Default for LoadRecordConfig {
    fn default() -> (r: LoadRecordConfig)
        ensures
            r.mode_word == 0,
            r.intervals@ == Seq::new(8, |i: int| 0u16),
    {
        let r = LoadRecordConfig { mode_word: 0, intervals: [0; 8] };
        assert(r.intervals@ =~= Seq::new(8, |i: int| 0u16));
        r
    }
}

/// Passwords of the ten access levels (04-00-0C-01 to 0A). Each entry holds the level
/// and three password bytes.
#[derive(Debug, Clone, Copy)]
pub struct PasswordConfig {
    pub passwords: [[u8; 4]; 10],
}

impl Default for PasswordConfig {
    /// All passwords zero.
    fn default() -> (r: PasswordConfig)
        ensures
            forall|l: int, k: int|
                0 <= l < 10 && 0 <= k < 4 ==> (#[trigger] r.passwords@[l]@[k]) == 0,
    {
        PasswordConfig { passwords: [[0; 4]; 10] }
    }
}

impl PasswordConfig {
    /// `password` is the one of access level `level`.
    pub open spec fn accepts(self, level: u8, password: Seq<u8>) -> bool {
        level <= 9 && self.passwords@[level as int]@.skip(1) == password
    }

    /// Whether `password` is the one of access level `level` (0 is the highest).
    pub fn verify(&self, level: u8, password: &[u8; 3]) -> (r: bool)
        ensures
            r == self.accepts(level, password@),
    {
        if level > 9 {
            return false;
        }
        let stored: [u8; 4] = self.passwords[level as usize];
        let same: bool = stored[1] == password[0] && stored[2] == password[1] && stored[3]
            == password[2];
        proof {
            let tail = stored@.skip(1);
            assert(tail[0] == stored@[1] && tail[1] == stored@[2] && tail[2] == stored@[3]);
            if same {
                assert(tail =~= password@);
            }
        }
        same
    }

    /// Sets the password of an access level; levels above 9 do not exist and change nothing.
    pub fn set_password(&mut self, level: u8, password: &[u8; 3])
        ensures
            level > 9 ==> *final(self) == *old(self),
            level <= 9 ==> final(self).passwords@ == old(self).passwords@.update(
                level as int,
                final(self).passwords@[level as int],
            ) && final(self).passwords@[level as int]@ == seq![level] + password@,
    {
        if level > 9 {
            return ;
        }
        let entry: [u8; 4] = [level, password[0], password[1], password[2]];
        assert(entry@ =~= seq![level] + password@);
        self.passwords[level as usize] = entry;
        assert(self.passwords@ =~= old(self).passwords@.update(level as int, entry));
    }
}

/// A password that was set is accepted at its level, and no other password is; the
/// other levels accept what they accepted before.
pub proof fn law_set_password(
    before: PasswordConfig,
    after: PasswordConfig,
    level: u8,
    password: Seq<u8>,
    other: u8,
    attempt: Seq<u8>,
)
    requires
        level <= 9,
        password.len() == 3,
        after.passwords@ == before.passwords@.update(level as int, after.passwords@[level as int]),
        after.passwords@[level as int]@ == seq![level] + password,
    ensures
        after.accepts(level, attempt) <==> attempt == password,
        other != level ==> (after.accepts(other, attempt) <==> before.accepts(other, attempt)),
{
    assert((seq![level] + password).skip(1) =~= password);
}

/// Status words that follow from the state of the meter.
#[derive(Debug, Clone, Copy, PartialEq, Eq, Structural)]
pub struct DerivedStatusWords {
    /// 04-00-05-01
    pub status_word_1: u16,
    /// 04-00-05-02
    pub status_word_2: u16,
    /// 04-00-05-03
    pub status_word_3: u16,
    /// 04-00-05-04, phase A
    pub status_word_4: u16,
    /// 04-00-05-05, phase B
    pub status_word_5: u16,
    /// 04-00-05-06, phase C
    pub status_word_6: u16,
    /// 04-00-05-07, all phases
    pub status_word_7: u16,
    /// Key status, four bytes
    pub status_key: u32,
    /// Self-test status, two bytes
    pub meter_status: u16,
}

impl DerivedStatusWords {
    pub open spec fn zero() -> DerivedStatusWords {
        DerivedStatusWords {
            status_word_1: 0,
            status_word_2: 0,
            status_word_3: 0,
            status_word_4: 0,
            status_word_5: 0,
            status_word_6: 0,
            status_word_7: 0,
            status_key: 0,
            meter_status: 0,
        }
    }
}

impl Default for DerivedStatusWords {
    fn default() -> (r: DerivedStatusWords)
        ensures
            r == DerivedStatusWords::zero(),
    {
        DerivedStatusWords {
            status_word_1: 0,
            status_word_2: 0,
            status_word_3: 0,
            status_word_4: 0,
            status_word_5: 0,
            status_word_6: 0,
            status_word_7: 0,
            status_key: 0,
            meter_status: 0,
        }
    }
}

} // verus!
