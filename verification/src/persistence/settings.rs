//! Stored settings of a meter, read back.

use crate::persistence::json::{
    field_of, items_of, natural_of, quantity_of, read_stored, stands_for, Json,
};
use crate::persistence::types::PersistedMeterSettings;
use crate::quantity::{clamped, Quantity};
use crate::simulation::load_model::{LoadModelConfig, LoadProfile, SimulationConfig};
use crate::text::same_text;
use crate::time::floor_div_rem;
use vstd::prelude::*;

verus! {

/// The row of a meter in the store.
#[derive(Debug)]
pub struct MeterRow {
    pub meter_constant: i64,
    pub rated_voltage_mv: i64,
    pub rated_current_ma: i64,
    pub demand_period_min: i64,
    pub time_scale: Quantity,
    pub rated_frequency_hz: Quantity,
    pub initial_power_factor: Quantity,
    pub load_record_mode_word: i64,
    pub load_model_json: String,
    pub settlement_days_json: String,
    pub tou_config_json: String,
    pub comm_baud_json: String,
    pub passwords_json: String,
}

/// The texts of a row as trees.
#[derive(Debug)]
pub struct RowTrees {
    pub load_model: Json,
    pub settlement_days: Json,
    pub tou_config: Json,
    pub comm_baud: Json,
    pub passwords: Json,
}

/// When and how a meter freezes.
#[derive(Debug, Clone, Copy, PartialEq, Eq)]
pub struct FreezeSettings {
    pub timed_mode: u8,
    pub instant_mode: u8,
    pub appointment_mode: u8,
    pub hourly_mode: u8,
    pub daily_mode: u8,
    pub daily_time: [u8; 2],
    pub hourly_start: [u8; 5],
    pub hourly_interval_min: u8,
    pub appointment_time: [u8; 5],
}

/// The low byte of a number.
pub open spec fn low_byte(n: u64) -> u8 {
    (n % 256) as u8
}

/// The natural number under a key; 0 if there is none.
pub open spec fn number_at(tree: Json, key: Seq<char>) -> u64 {
    match field_of(tree, key) {
        Some(value) => match natural_of(value) {
            Some(n) => n,
            None => 0,
        },
        None => 0,
    }
}

/// The list under a key; empty if there is none.
pub open spec fn list_at(tree: Json, key: Seq<char>) -> Seq<Json> {
    match field_of(tree, key) {
        Some(value) => match items_of(value) {
            Some(items) => items,
            None => seq![],
        },
        None => seq![],
    }
}

/// The natural numbers among the items.
pub open spec fn naturals_in(items: Seq<Json>) -> Seq<u64>
    decreases items.len(),
{
    if items.len() == 0 {
        seq![]
    } else {
        let before = naturals_in(items.drop_last());
        match natural_of(items.last()) {
            Some(n) => before.push(n),
            None => before,
        }
    }
}

/// The low byte of a number of a list; 0 beyond its end.
pub open spec fn byte_of(numbers: Seq<u64>, i: int) -> u8 {
    if 0 <= i < numbers.len() {
        low_byte(numbers[i])
    } else {
        0
    }
}

/// The natural number at a place of a list; 0 if there is none.
pub open spec fn number_in(items: Seq<Json>, i: int) -> u64 {
    if 0 <= i < items.len() {
        match natural_of(items[i]) {
            Some(n) => n,
            None => 0,
        }
    } else {
        0
    }
}

/// What a tree says of freezing. Of the numbers in its lists the first ones count.
pub open spec fn freeze_means(tree: Json, f: FreezeSettings) -> bool {
    let daily = naturals_in(list_at(tree, "daily_time"@));
    let hourly = naturals_in(list_at(tree, "hourly_start"@));
    let appointed = naturals_in(list_at(tree, "appointment_time"@));
    &&& f.timed_mode == low_byte(number_at(tree, "timed_mode"@))
    &&& f.instant_mode == low_byte(number_at(tree, "instant_mode"@))
    &&& f.appointment_mode == low_byte(number_at(tree, "appointment_mode"@))
    &&& f.hourly_mode == low_byte(number_at(tree, "hourly_mode"@))
    &&& f.daily_mode == low_byte(number_at(tree, "daily_mode"@))
    &&& f.daily_time@ == Seq::new(2, |i: int| byte_of(daily, i))
    &&& f.hourly_start@ == Seq::new(5, |i: int| byte_of(hourly, i))
    &&& f.hourly_interval_min == low_byte(number_at(tree, "hourly_interval_min"@))
    &&& f.appointment_time@ == Seq::new(5, |i: int| byte_of(appointed, i))
}

fn read_number(tree: &Json, key: &str) -> (r: u64)
    ensures
        r == number_at(*tree, key@),
{
    match tree.field(key) {
        Some(value) => match value.natural() {
            Some(n) => n,
            None => 0,
        },
        None => 0,
    }
}

fn read_byte(tree: &Json, key: &str) -> (r: u8)
    ensures
        r == low_byte(number_at(*tree, key@)),
{
    (read_number(tree, key) % 256) as u8
}

fn read_naturals(tree: &Json, key: &str) -> (r: Vec<u64>)
    ensures
        r@ == naturals_in(list_at(*tree, key@)),
{
    let mut out: Vec<u64> = Vec::new();
    if let Some(value) = tree.field(key) {
        if let Some(items) = value.items() {
            for i in 0..items.len()
                invariant
                    out@ == naturals_in(items@.take(i as int)),
            {
                if let Some(n) = items[i].natural() {
                    out.push(n);
                }
                assert(items@.take(i + 1).drop_last() =~= items@.take(i as int));
            }
            assert(items@.take(items@.len() as int) =~= items@);
        }
    }
    out
}

fn byte_at(numbers: &Vec<u64>, i: usize) -> (r: u8)
    ensures
        r == byte_of(numbers@, i as int),
{
    if i < numbers.len() {
        (numbers[i] % 256) as u8
    } else {
        0
    }
}

/// Reads how a meter freezes.
pub fn freeze_fields_from_json(freeze: &Json) -> (r: FreezeSettings)
    ensures
        freeze_means(*freeze, r),
{
    let daily = read_naturals(freeze, "daily_time");
    let hourly = read_naturals(freeze, "hourly_start");
    let appointed = read_naturals(freeze, "appointment_time");
    let r = FreezeSettings {
        timed_mode: read_byte(freeze, "timed_mode"),
        instant_mode: read_byte(freeze, "instant_mode"),
        appointment_mode: read_byte(freeze, "appointment_mode"),
        hourly_mode: read_byte(freeze, "hourly_mode"),
        daily_mode: read_byte(freeze, "daily_mode"),
        daily_time: [byte_at(&daily, 0), byte_at(&daily, 1)],
        hourly_start: [
            byte_at(&hourly, 0),
            byte_at(&hourly, 1),
            byte_at(&hourly, 2),
            byte_at(&hourly, 3),
            byte_at(&hourly, 4),
        ],
        hourly_interval_min: read_byte(freeze, "hourly_interval_min"),
        appointment_time: [
            byte_at(&appointed, 0),
            byte_at(&appointed, 1),
            byte_at(&appointed, 2),
            byte_at(&appointed, 3),
            byte_at(&appointed, 4),
        ],
    };
    proof {
        assert(r.daily_time@ =~= Seq::new(2, |i: int| byte_of(daily@, i)));
        assert(r.hourly_start@ =~= Seq::new(5, |i: int| byte_of(hourly@, i)));
        assert(r.appointment_time@ =~= Seq::new(5, |i: int| byte_of(appointed@, i)));
    }
    r
}

/// A tree in the old layout, in which the settings of freezing are not in a part of their own.
pub open spec fn is_old_layout(tree: Json) -> bool {
    field_of(tree, "freeze"@) is None && field_of(tree, "timed_mode"@) is Some
}

/// A part of the further settings. In the old layout the whole is the part on freezing, and
/// there is no other.
pub open spec fn part_of(tree: Json, key: Seq<char>) -> Option<Json> {
    if is_old_layout(tree) {
        if key == "freeze"@ {
            Some(tree)
        } else {
            None
        }
    } else {
        field_of(tree, key)
    }
}

/// Whether a tree is in the old layout.
pub fn has_old_layout(tree: &Json) -> (r: bool)
    ensures
        r == is_old_layout(*tree),
{
    tree.field("freeze").is_none() && tree.field("timed_mode").is_some()
}

/// What a part says of freezing; everything is 0 without it.
pub open spec fn freeze_part_means(tree: Json, f: FreezeSettings) -> bool {
    match part_of(tree, "freeze"@) {
        Some(part) => freeze_means(part, f),
        None => exists|nothing: Json|
            crate::persistence::json::is_empty_object(nothing) && #[trigger] freeze_means(
                nothing,
                f,
            ),
    }
}

fn read_freeze_part(tree: &Json) -> (r: FreezeSettings)
    ensures
        freeze_part_means(*tree, r),
{
    if has_old_layout(tree) {
        return freeze_fields_from_json(tree);
    }
    match tree.field("freeze") {
        Some(part) => freeze_fields_from_json(part),
        None => {
            let nothing = Json::Object(Vec::new());
            let r = freeze_fields_from_json(&nothing);
            assert(freeze_means(nothing, r));
            r
        },
    }
}

/// The profile that a tree stands for: a name, or a constant share of the load.
pub open spec fn profile_of(tree: Json) -> LoadProfile {
    match tree {
        Json::Text(name) => if name@ == "Industrial"@ {
            LoadProfile::Industrial
        } else if name@ == "Commercial"@ {
            LoadProfile::Commercial
        } else if name@ == "Fixed"@ {
            LoadProfile::Fixed(500_000_000)
        } else {
            LoadProfile::Residential
        },
        _ => match field_of(tree, "Fixed"@) {
            Some(factor) => match quantity_of(factor) {
                Some(q) => LoadProfile::Fixed(q),
                None => LoadProfile::Fixed(500_000_000),
            },
            None => LoadProfile::Residential,
        },
    }
}

/// Reads a load profile.
pub fn parse_load_profile(value: &Json) -> (r: LoadProfile)
    ensures
        r == profile_of(*value),
{
    match value {
        Json::Text(name) => {
            if same_text(name.as_str(), "Industrial") {
                LoadProfile::Industrial
            } else if same_text(name.as_str(), "Commercial") {
                LoadProfile::Commercial
            } else if same_text(name.as_str(), "Fixed") {
                LoadProfile::Fixed(500_000_000)
            } else {
                LoadProfile::Residential
            }
        },
        _ => match value.field("Fixed") {
            Some(factor) => match factor.quantity() {
                Some(q) => LoadProfile::Fixed(q),
                None => LoadProfile::Fixed(500_000_000),
            },
            None => LoadProfile::Residential,
        },
    }
}

/// The quantity under a key, or else `other`.
pub open spec fn quantity_at(tree: Json, key: Seq<char>, other: Quantity) -> Quantity {
    match field_of(tree, key) {
        Some(value) => match quantity_of(value) {
            Some(q) => q,
            None => other,
        },
        None => other,
    }
}

/// The numbers among the items.
pub open spec fn quantities_in(items: Seq<Json>) -> Seq<Quantity>
    decreases items.len(),
{
    if items.len() == 0 {
        seq![]
    } else {
        let before = quantities_in(items.drop_last());
        match quantity_of(items.last()) {
            Some(q) => before.push(q),
            None => before,
        }
    }
}

/// What a tree says of the load model. What it leaves out has the default value.
pub open spec fn load_model_means(tree: Json, m: LoadModelConfig) -> bool {
    let factors = quantities_in(list_at(tree, "phase_current_factors"@));
    let defaults = seq![1_000_000_000i64, 980_000_000, 1_020_000_000];
    &&& m.profile == (match field_of(tree, "profile"@) {
        Some(value) => profile_of(value),
        None => LoadProfile::Residential,
    })
    &&& m.voltage_noise_v == quantity_at(tree, "voltage_noise_v"@, 2_000_000_000)
    &&& m.frequency_noise_hz == quantity_at(tree, "frequency_noise_hz"@, 50_000_000)
    &&& m.power_factor_noise == quantity_at(tree, "power_factor_noise"@, 2_000_000)
    &&& m.power_factor_min == quantity_at(tree, "power_factor_min"@, 850_000_000)
    &&& m.power_factor_max == quantity_at(tree, "power_factor_max"@, 990_000_000)
    &&& m.phase_current_factors@ == Seq::new(
        3,
        |i: int|
            if i < factors.len() {
                factors[i]
            } else {
                defaults[i]
            },
    )
}

fn read_quantity(tree: &Json, key: &str, other: Quantity) -> (r: Quantity)
    ensures
        r == quantity_at(*tree, key@, other),
{
    match tree.field(key) {
        Some(value) => match value.quantity() {
            Some(q) => q,
            None => other,
        },
        None => other,
    }
}

fn read_quantities(tree: &Json, key: &str) -> (r: Vec<Quantity>)
    ensures
        r@ == quantities_in(list_at(*tree, key@)),
{
    let mut out: Vec<Quantity> = Vec::new();
    if let Some(value) = tree.field(key) {
        if let Some(items) = value.items() {
            for i in 0..items.len()
                invariant
                    out@ == quantities_in(items@.take(i as int)),
            {
                if let Some(q) = items[i].quantity() {
                    out.push(q);
                }
                assert(items@.take(i + 1).drop_last() =~= items@.take(i as int));
            }
            assert(items@.take(items@.len() as int) =~= items@);
        }
    }
    out
}

/// Reads a load model.
pub fn load_model_from_json(tree: &Json) -> (r: LoadModelConfig)
    ensures
        load_model_means(*tree, r),
{
    let default = LoadModelConfig::default();
    let factors = read_quantities(tree, "phase_current_factors");
    let profile = match tree.field("profile") {
        Some(value) => parse_load_profile(value),
        None => default.profile,
    };
    let n: usize = factors.len();
    let phases: [Quantity; 3] = [
        if n > 0 {
            factors[0]
        } else {
            default.phase_current_factors[0]
        },
        if n > 1 {
            factors[1]
        } else {
            default.phase_current_factors[1]
        },
        if n > 2 {
            factors[2]
        } else {
            default.phase_current_factors[2]
        },
    ];
    let r = LoadModelConfig {
        profile,
        voltage_noise_v: read_quantity(tree, "voltage_noise_v", default.voltage_noise_v),
        frequency_noise_hz: read_quantity(tree, "frequency_noise_hz", default.frequency_noise_hz),
        power_factor_noise: read_quantity(tree, "power_factor_noise", default.power_factor_noise),
        power_factor_min: read_quantity(tree, "power_factor_min", default.power_factor_min),
        power_factor_max: read_quantity(tree, "power_factor_max", default.power_factor_max),
        phase_current_factors: phases,
    };
    proof {
        let all = quantities_in(list_at(*tree, "phase_current_factors"@));
        let defaults = seq![1_000_000_000i64, 980_000_000, 1_020_000_000];
        assert(r.phase_current_factors@ =~= Seq::new(
            3,
            |i: int|
                if i < all.len() {
                    all[i]
                } else {
                    defaults[i]
                },
        ));
    }
    r
}

/// What a row says of the simulation. The meter constant is at least 1 and the demand period 1
/// to 120 minutes.
pub open spec fn simulation_means(row: MeterRow, load_model: Json, c: SimulationConfig) -> bool {
    &&& load_model_means(load_model, c.load_model)
    &&& c.rated_voltage == clamped(row.rated_voltage_mv * 1_000_000)
    &&& c.rated_current == clamped(row.rated_current_ma * 1_000_000)
    &&& c.rated_frequency == row.rated_frequency_hz
    &&& c.power_factor == row.initial_power_factor
    &&& c.meter_constant == (if row.meter_constant < 1 {
        1int
    } else {
        row.meter_constant as int % 0x1_0000_0000
    })
    &&& c.demand_period_minutes == (if row.demand_period_min < 1 {
        1int
    } else if row.demand_period_min > 120 {
        120
    } else {
        row.demand_period_min as int
    })
    &&& c.time_scale == row.time_scale
}

fn thousandths(v: i64) -> (r: Quantity)
    ensures
        r == clamped(v * 1_000_000),
{
    let product: i128 = v as i128 * 1_000_000;
    if product > i64::MAX as i128 {
        i64::MAX
    } else if product < i64::MIN as i128 {
        i64::MIN
    } else {
        product as i64
    }
}

/// Reads the simulation of a row.
pub fn simulation_from_row(row: &MeterRow, load_model: &Json) -> (r: SimulationConfig)
    ensures
        simulation_means(*row, *load_model, r),
{
    SimulationConfig {
        load_model: load_model_from_json(load_model),
        rated_voltage: thousandths(row.rated_voltage_mv),
        rated_current: thousandths(row.rated_current_ma),
        rated_frequency: row.rated_frequency_hz,
        power_factor: row.initial_power_factor,
        meter_constant: if row.meter_constant < 1 {
            1
        } else {
            (row.meter_constant % 0x1_0000_0000) as u32
        },
        demand_period_minutes: if row.demand_period_min < 1 {
            1
        } else if row.demand_period_min > 120 {
            120
        } else {
            row.demand_period_min as u16
        },
        time_scale: row.time_scale,
    }
}

/// A stored set of passwords: at least ten lists of at least four numbers.
pub open spec fn password_numbers(tree: Json) -> Option<Seq<Json>> {
    match field_of(tree, "passwords"@) {
        Some(value) => match items_of(value) {
            Some(entries) => if entries.len() >= 10 && forall|i: int|
                0 <= i < 10 ==> is_password(#[trigger] entries[i]) {
                Some(entries)
            } else {
                None
            },
            None => None,
        },
        None => None,
    }
}

pub open spec fn is_password(entry: Json) -> bool {
    match items_of(entry) {
        Some(bytes) => bytes.len() >= 4 && forall|j: int|
            0 <= j < 4 ==> natural_of(#[trigger] bytes[j]) is Some,
        None => false,
    }
}

/// The four bytes of a stored password.
pub open spec fn password_bytes(entry: Json) -> Seq<u8> {
    Seq::new(4, |j: int| low_byte(number_in(items_of(entry)->0, j)))
}

fn read_password(entry: &Json) -> (r: Option<[u8; 4]>)
    ensures
        r is Some <==> is_password(*entry),
        r matches Some(p) ==> p@ == password_bytes(*entry),
{
    let bytes: &Vec<Json> = match entry.items() {
        Some(bytes) => bytes,
        None => {
            return None;
        },
    };
    if bytes.len() < 4 {
        return None;
    }
    let mut p: [u8; 4] = [0; 4];
    for j in 0..4
        invariant
            items_of(*entry) == Some(bytes@),
            bytes@.len() >= 4,
            forall|k: int| 0 <= k < j ==> natural_of(#[trigger] bytes@[k]) is Some,
            forall|k: int| 0 <= k < j ==> #[trigger] p@[k] == low_byte(number_in(bytes@, k)),
    {
        match bytes[j].natural() {
            Some(n) => {
                p[j] = (n % 256) as u8;
            },
            None => {
                assert(natural_of(bytes@[j as int]) is None);
                return None;
            },
        }
    }
    assert(p@ =~= password_bytes(*entry));
    Some(p)
}

fn read_passwords(tree: &Json) -> (r: Option<[[u8; 4]; 10]>)
    ensures
        r is Some <==> password_numbers(*tree) is Some,
        r matches Some(all) ==> forall|i: int|
            0 <= i < 10 ==> (#[trigger] all@[i])@ == password_bytes(
                password_numbers(*tree)->0[i],
            ),
{
    let value: &Json = match tree.field("passwords") {
        Some(value) => value,
        None => {
            return None;
        },
    };
    let entries: &Vec<Json> = match value.items() {
        Some(entries) => entries,
        None => {
            return None;
        },
    };
    if entries.len() < 10 {
        return None;
    }
    let mut all: [[u8; 4]; 10] = [[0; 4]; 10];
    for i in 0..10
        invariant
            field_of(*tree, "passwords"@) == Some(*value),
            items_of(*value) == Some(entries@),
            entries@.len() >= 10,
            forall|k: int| 0 <= k < i ==> is_password(#[trigger] entries@[k]),
            forall|k: int| 0 <= k < i ==> (#[trigger] all@[k])@ == password_bytes(entries@[k]),
    {
        match read_password(&entries[i]) {
            Some(p) => {
                all[i] = p;
            },
            None => {
                assert(!is_password(entries@[i as int]));
                return None;
            },
        }
    }
    Some(all)
}

/// A stored slot: a list of at least three numbers.
pub open spec fn slot_in(entry: Json) -> Option<(u8, u8, u8)> {
    match items_of(entry) {
        Some(b) => if b.len() >= 3 && natural_of(b[0]) is Some && natural_of(b[1]) is Some
            && natural_of(b[2]) is Some {
            Some(
                (
                    low_byte(number_in(b, 0)),
                    low_byte(number_in(b, 1)),
                    low_byte(number_in(b, 2)),
                ),
            )
        } else {
            None
        },
        None => None,
    }
}

/// The slots among the entries.
pub open spec fn slots_in(entries: Seq<Json>) -> Seq<(u8, u8, u8)>
    decreases entries.len(),
{
    if entries.len() == 0 {
        seq![]
    } else {
        let before = slots_in(entries.drop_last());
        match slot_in(entries.last()) {
            Some(slot) => before.push(slot),
            None => before,
        }
    }
}

/// The list of stored slots, if there is one.
pub open spec fn slot_entries(tou_config: Json) -> Option<Seq<Json>> {
    match part_of(tou_config, "tou"@) {
        Some(part) => match field_of(part, "time_slots"@) {
            Some(value) => items_of(value),
            None => None,
        },
        None => None,
    }
}

fn read_slot(entry: &Json) -> (r: Option<(u8, u8, u8)>)
    ensures
        r == slot_in(*entry),
{
    let b: &Vec<Json> = match entry.items() {
        Some(b) => b,
        None => {
            return None;
        },
    };
    if b.len() < 3 {
        return None;
    }
    match (b[0].natural(), b[1].natural(), b[2].natural()) {
        (Some(h), Some(m), Some(n)) => Some(
            ((h % 256) as u8, (m % 256) as u8, (n % 256) as u8),
        ),
        _ => None,
    }
}

fn read_slots(tou_config: &Json) -> (r: Option<Vec<(u8, u8, u8)>>)
    ensures
        r is Some <==> slot_entries(*tou_config) is Some,
        r matches Some(slots) ==> slots@ == slots_in(slot_entries(*tou_config)->0),
{
    proof {
        reveal_strlit("tou");
        reveal_strlit("freeze");
        assert("tou"@.len() != "freeze"@.len());
    }
    if has_old_layout(tou_config) {
        return None;
    }
    let part: &Json = match tou_config.field("tou") {
        Some(part) => part,
        None => {
            return None;
        },
    };
    let value: &Json = match part.field("time_slots") {
        Some(value) => value,
        None => {
            return None;
        },
    };
    let entries: &Vec<Json> = match value.items() {
        Some(entries) => entries,
        None => {
            return None;
        },
    };
    let mut slots: Vec<(u8, u8, u8)> = Vec::new();
    for i in 0..entries.len()
        invariant
            slots@ == slots_in(entries@.take(i as int)),
    {
        if let Some(slot) = read_slot(&entries[i]) {
            slots.push(slot);
        }
        assert(entries@.take(i + 1).drop_last() =~= entries@.take(i as int));
    }
    assert(entries@.take(entries@.len() as int) =~= entries@);
    Some(slots)
}

/// The part on load records; without it everything is 0.
pub open spec fn load_record_list(tou_config: Json, key: Seq<char>) -> Seq<Json> {
    match part_of(tou_config, "load_record"@) {
        Some(part) => list_at(part, key),
        None => seq![],
    }
}

/// What the trees of a row say.
pub open spec fn settings_mean(row: MeterRow, trees: RowTrees, s: PersistedMeterSettings) -> bool {
    let days = list_at(trees.settlement_days, "days"@);
    let hours = list_at(trees.settlement_days, "hours"@);
    let start = load_record_list(trees.tou_config, "start_time"@);
    let intervals = load_record_list(trees.tou_config, "intervals"@);
    &&& simulation_means(row, trees.load_model, s.simulation)
    &&& freeze_part_means(trees.tou_config, stored_freeze(s))
    &&& s.settlement_days@ == Seq::new(3, |i: int| low_byte(number_in(days, i)))
    &&& s.settlement_hours@ == Seq::new(3, |i: int| low_byte(number_in(hours, i)))
    &&& s.load_record_mode_word == row.load_record_mode_word as int % 256
    &&& s.load_record_start_time@ == Seq::new(4, |i: int| low_byte(number_in(start, i)))
    &&& s.load_record_intervals@ == Seq::new(
        8,
        |i: int|
            if i < 6 {
                (number_in(intervals, i) % 0x1_0000) as u16
            } else {
                0
            },
    )
    &&& s.baudrate == stored_baudrate(trees.comm_baud)
    &&& s.passwords is Some <==> password_numbers(trees.passwords) is Some
    &&& s.passwords matches Some(all) ==> forall|i: int|
        0 <= i < 10 ==> (#[trigger] all@[i])@ == password_bytes(
            password_numbers(trees.passwords)->0[i],
        )
    &&& s.tou_time_slots is Some <==> slot_entries(trees.tou_config) is Some
    &&& s.tou_time_slots matches Some(slots) ==> slots@ == slots_in(
        slot_entries(trees.tou_config)->0,
    )
}

/// The settings of freezing among the stored settings.
pub open spec fn stored_freeze(s: PersistedMeterSettings) -> FreezeSettings {
    FreezeSettings {
        timed_mode: s.timed_freeze_mode,
        instant_mode: s.instant_freeze_mode,
        appointment_mode: s.appointment_freeze_mode,
        hourly_mode: s.hourly_freeze_mode,
        daily_mode: s.daily_freeze_mode,
        daily_time: s.daily_freeze_time,
        hourly_start: s.hourly_freeze_start,
        hourly_interval_min: s.hourly_freeze_interval_min,
        appointment_time: s.appointment_freeze_time,
    }
}

/// The stored baud rate, if there is one.
pub open spec fn stored_baudrate(tree: Json) -> Option<u8> {
    match field_of(tree, "baudrate"@) {
        Some(value) => match natural_of(value) {
            Some(n) => Some(low_byte(n)),
            None => None,
        },
        None => None,
    }
}

fn read_baudrate(tree: &Json) -> (r: Option<u8>)
    ensures
        r == stored_baudrate(*tree),
{
    match tree.field("baudrate") {
        Some(value) => match value.natural() {
            Some(n) => Some((n % 256) as u8),
            None => None,
        },
        None => None,
    }
}

/// The natural numbers at the first places of a list.
fn read_places(items: Option<&Vec<Json>>, n: usize) -> (r: Vec<u64>)
    ensures
        r@ == Seq::new(
            n as nat,
            |i: int|
                number_in(
                    match items {
                        Some(v) => v@,
                        None => seq![],
                    },
                    i,
                ),
        ),
{
    let ghost all = match items {
        Some(v) => v@,
        None => seq![],
    };
    let mut out: Vec<u64> = Vec::new();
    for i in 0..n
        invariant
            all == (match items {
                Some(v) => v@,
                None => seq![],
            }),
            out@.len() == i,
            forall|j: int| 0 <= j < i ==> #[trigger] out@[j] == number_in(all, j),
    {
        let number: u64 = match items {
            Some(v) => {
                if i < v.len() {
                    match v[i].natural() {
                        Some(x) => x,
                        None => 0,
                    }
                } else {
                    0
                }
            },
            None => 0,
        };
        out.push(number);
    }
    assert(out@ =~= Seq::new(n as nat, |i: int| number_in(all, i)));
    out
}

fn list_under<'a>(tree: &'a Json, key: &str) -> (r: Option<&'a Vec<Json>>)
    ensures
        (match r {
            Some(v) => v@,
            None => seq![],
        }) == list_at(*tree, key@),
{
    match tree.field(key) {
        Some(value) => value.items(),
        None => None,
    }
}

fn load_record_under<'a>(tou_config: &'a Json, key: &str) -> (r: Option<&'a Vec<Json>>)
    ensures
        (match r {
            Some(v) => v@,
            None => seq![],
        }) == load_record_list(*tou_config, key@),
{
    proof {
        reveal_strlit("load_record");
        reveal_strlit("freeze");
        assert("load_record"@.len() != "freeze"@.len());
    }
    if has_old_layout(tou_config) {
        return None;
    }
    match tou_config.field("load_record") {
        Some(part) => list_under(part, key),
        None => None,
    }
}

fn three_bytes(n: &Vec<u64>) -> (r: [u8; 3])
    requires
        n@.len() == 3,
    ensures
        r@ == Seq::new(3, |i: int| low_byte(n@[i])),
{
    let r: [u8; 3] = [(n[0] % 256) as u8, (n[1] % 256) as u8, (n[2] % 256) as u8];
    assert(r@ =~= Seq::new(3, |i: int| low_byte(n@[i])));
    r
}

/// Reads the settings of a meter from its row and the trees of its texts.
pub fn settings_from_trees(row: &MeterRow, trees: &RowTrees) -> (r: PersistedMeterSettings)
    ensures
        settings_mean(*row, *trees, r),
{
    let freeze = read_freeze_part(&trees.tou_config);
    let days = read_places(list_under(&trees.settlement_days, "days"), 3);
    let hours = read_places(list_under(&trees.settlement_days, "hours"), 3);
    let start = read_places(load_record_under(&trees.tou_config, "start_time"), 4);
    let intervals = read_places(load_record_under(&trees.tou_config, "intervals"), 6);
    let (_high, mode_word) = floor_div_rem(row.load_record_mode_word, 256);
    let start_time: [u8; 4] = [
        (start[0] % 256) as u8,
        (start[1] % 256) as u8,
        (start[2] % 256) as u8,
        (start[3] % 256) as u8,
    ];
    let minutes: [u16; 8] = [
        (intervals[0] % 0x1_0000) as u16,
        (intervals[1] % 0x1_0000) as u16,
        (intervals[2] % 0x1_0000) as u16,
        (intervals[3] % 0x1_0000) as u16,
        (intervals[4] % 0x1_0000) as u16,
        (intervals[5] % 0x1_0000) as u16,
        0,
        0,
    ];
    let r = PersistedMeterSettings {
        simulation: simulation_from_row(row, &trees.load_model),
        timed_freeze_mode: freeze.timed_mode,
        instant_freeze_mode: freeze.instant_mode,
        appointment_freeze_mode: freeze.appointment_mode,
        hourly_freeze_mode: freeze.hourly_mode,
        daily_freeze_mode: freeze.daily_mode,
        daily_freeze_time: freeze.daily_time,
        hourly_freeze_start: freeze.hourly_start,
        hourly_freeze_interval_min: freeze.hourly_interval_min,
        appointment_freeze_time: freeze.appointment_time,
        settlement_days: three_bytes(&days),
        settlement_hours: three_bytes(&hours),
        load_record_mode_word: mode_word as u8,
        load_record_start_time: start_time,
        load_record_intervals: minutes,
        baudrate: read_baudrate(&trees.comm_baud),
        passwords: read_passwords(&trees.passwords),
        tou_time_slots: read_slots(&trees.tou_config),
    };
    proof {
        let d = list_at(trees.settlement_days, "days"@);
        let h = list_at(trees.settlement_days, "hours"@);
        let st = load_record_list(trees.tou_config, "start_time"@);
        let it = load_record_list(trees.tou_config, "intervals"@);
        assert(stored_freeze(r) == freeze);
        assert(r.settlement_days@ =~= Seq::new(3, |i: int| low_byte(number_in(d, i))));
        assert(r.settlement_hours@ =~= Seq::new(3, |i: int| low_byte(number_in(h, i))));
        assert(r.load_record_start_time@ =~= Seq::new(4, |i: int| low_byte(number_in(st, i))));
        assert(r.load_record_intervals@ =~= Seq::new(
            8,
            |i: int|
                if i < 6 {
                    (number_in(it, i) % 0x1_0000) as u16
                } else {
                    0
                },
        ));
    }
    r
}

/// The trees are those of the texts of a row.
pub open spec fn trees_of(row: MeterRow, trees: RowTrees) -> bool {
    &&& stands_for(row.load_model_json@, trees.load_model)
    &&& stands_for(row.settlement_days_json@, trees.settlement_days)
    &&& stands_for(row.tou_config_json@, trees.tou_config)
    &&& stands_for(row.comm_baud_json@, trees.comm_baud)
    &&& stands_for(row.passwords_json@, trees.passwords)
}

/// Reads the settings of a meter from its row.
pub fn restore_meter_config(row: &MeterRow) -> (r: PersistedMeterSettings)
    ensures
        exists|trees: RowTrees| #[trigger] trees_of(*row, trees) && settings_mean(*row, trees, r),
{
    let trees = RowTrees {
        load_model: read_stored(row.load_model_json.as_str()),
        settlement_days: read_stored(row.settlement_days_json.as_str()),
        tou_config: read_stored(row.tou_config_json.as_str()),
        comm_baud: read_stored(row.comm_baud_json.as_str()),
        passwords: read_stored(row.passwords_json.as_str()),
    };
    let r = settings_from_trees(row, &trees);
    assert(trees_of(*row, trees) && settings_mean(*row, trees, r));
    r
}

} // verus!
