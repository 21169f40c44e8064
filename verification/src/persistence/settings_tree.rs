//! Settings of a meter as trees to be stored.

use crate::persistence::decimal::law_quantity_digits_roundtrip;
use crate::persistence::json::{
    alike, byte_list_tree, entry_in, field_of, is_byte_list, is_natural, is_quantity, is_reserved,
    items_of, lemma_alike_bytes, lemma_alike_field, lemma_alike_quantity, lemma_plain_entry,
    lemma_plain_list, lemma_plain_object, natural_of, natural_tree, own_pairs, plain_pairs,
    plain_tree, put_entry, quantity_tree, reads_back, stands_for, Json,
};
use crate::persistence::settings::{
    byte_of, freeze_means, has_old_layout, is_old_layout, is_password, list_at, load_model_means,
    low_byte, naturals_in, number_in, part_of, password_bytes, password_numbers, profile_of,
    quantities_in, quantity_at, settings_mean, simulation_means, slot_entries, slot_in, slots_in,
    stored_baudrate, stored_freeze, trees_of, FreezeSettings, MeterRow, RowTrees,
};
use crate::persistence::types::PersistedMeterSettings;
use crate::quantity::{scale, scaled, Quantity};
use crate::simulation::load_model::{config_error, LoadModelConfig, LoadProfile, SimulationConfig};
use crate::text::same_text;
use vstd::prelude::*;

verus! {

/// A natural number stands under a key.
pub open spec fn holds_number(tree: Json, key: Seq<char>, n: u64) -> bool {
    field_of(tree, key) matches Some(value) && is_natural(value, n)
}

/// A list of bytes stands under a key.
pub open spec fn holds_bytes(tree: Json, key: Seq<char>, bytes: Seq<u8>) -> bool {
    field_of(tree, key) matches Some(value) && is_byte_list(value, bytes)
}

/// A quantity stands under a key.
pub open spec fn holds_quantity(tree: Json, key: Seq<char>, q: Quantity) -> bool {
    field_of(tree, key) matches Some(value) && is_quantity(value, q)
}

/// The tree holds the settings of freezing.
pub open spec fn holds_freeze(tree: Json, f: FreezeSettings) -> bool {
    &&& holds_number(tree, "timed_mode"@, f.timed_mode as u64)
    &&& holds_number(tree, "instant_mode"@, f.instant_mode as u64)
    &&& holds_number(tree, "appointment_mode"@, f.appointment_mode as u64)
    &&& holds_number(tree, "hourly_mode"@, f.hourly_mode as u64)
    &&& holds_number(tree, "daily_mode"@, f.daily_mode as u64)
    &&& holds_bytes(tree, "daily_time"@, f.daily_time@)
    &&& holds_bytes(tree, "hourly_start"@, f.hourly_start@)
    &&& holds_number(tree, "hourly_interval_min"@, f.hourly_interval_min as u64)
    &&& holds_bytes(tree, "appointment_time"@, f.appointment_time@)
}

proof fn lemma_freeze_keys_differ()
    ensures
        "timed_mode"@.len() == 10 && "timed_mode"@[0] == 't',
        "instant_mode"@.len() == 12 && "instant_mode"@[0] == 'i',
        "appointment_mode"@.len() == 16 && "appointment_mode"@[12] == 'm',
        "hourly_mode"@.len() == 11,
        "daily_mode"@.len() == 10 && "daily_mode"@[0] == 'd' && "daily_mode"@[6] == 'm',
        "daily_time"@.len() == 10 && "daily_time"@[0] == 'd' && "daily_time"@[6] == 't',
        "hourly_start"@.len() == 12 && "hourly_start"@[0] == 'h',
        "hourly_interval_min"@.len() == 19,
        "appointment_time"@.len() == 16 && "appointment_time"@[12] == 't',
{
    reveal_strlit("timed_mode");
    reveal_strlit("instant_mode");
    reveal_strlit("appointment_mode");
    reveal_strlit("hourly_mode");
    reveal_strlit("daily_mode");
    reveal_strlit("daily_time");
    reveal_strlit("hourly_start");
    reveal_strlit("hourly_interval_min");
    reveal_strlit("appointment_time");
}

/// The names under which settings are stored are not reserved.
proof fn lemma_names_not_reserved()
    ensures
        !is_reserved("timed_mode"@),
        !is_reserved("instant_mode"@),
        !is_reserved("appointment_mode"@),
        !is_reserved("hourly_mode"@),
        !is_reserved("daily_mode"@),
        !is_reserved("daily_time"@),
        !is_reserved("hourly_start"@),
        !is_reserved("hourly_interval_min"@),
        !is_reserved("appointment_time"@),
        !is_reserved("days"@),
        !is_reserved("hours"@),
        !is_reserved("start_time"@),
        !is_reserved("intervals"@),
        !is_reserved("baudrate"@),
        !is_reserved("passwords"@),
        !is_reserved("time_slots"@),
        !is_reserved("Fixed"@),
        !is_reserved("freeze"@),
        !is_reserved("load_record"@),
        !is_reserved("tou"@),
{
    reveal_strlit("timed_mode");
    reveal_strlit("instant_mode");
    reveal_strlit("appointment_mode");
    reveal_strlit("hourly_mode");
    reveal_strlit("daily_mode");
    reveal_strlit("daily_time");
    reveal_strlit("hourly_start");
    reveal_strlit("hourly_interval_min");
    reveal_strlit("appointment_time");
    reveal_strlit("days");
    reveal_strlit("hours");
    reveal_strlit("start_time");
    reveal_strlit("intervals");
    reveal_strlit("baudrate");
    reveal_strlit("passwords");
    reveal_strlit("time_slots");
    reveal_strlit("Fixed");
    reveal_strlit("freeze");
    reveal_strlit("load_record");
    reveal_strlit("tou");
}

/// The settings of freezing as a tree.
pub fn freeze_tree(f: &FreezeSettings) -> (r: Json)
    ensures
        holds_freeze(r, *f),
        r is Object,
        plain_tree(r, 4),
{
    proof {
        lemma_freeze_keys_differ();
        lemma_names_not_reserved();
    }
    let mut pairs: Vec<(String, Json)> = Vec::new();
    put_entry(&mut pairs, "timed_mode", natural_tree(f.timed_mode as u64));
    put_entry(&mut pairs, "instant_mode", natural_tree(f.instant_mode as u64));
    put_entry(&mut pairs, "appointment_mode", natural_tree(f.appointment_mode as u64));
    put_entry(&mut pairs, "hourly_mode", natural_tree(f.hourly_mode as u64));
    put_entry(&mut pairs, "daily_mode", natural_tree(f.daily_mode as u64));
    put_entry(&mut pairs, "daily_time", byte_list_tree(f.daily_time.as_slice()));
    put_entry(&mut pairs, "hourly_start", byte_list_tree(f.hourly_start.as_slice()));
    put_entry(&mut pairs, "hourly_interval_min", natural_tree(f.hourly_interval_min as u64));
    put_entry(&mut pairs, "appointment_time", byte_list_tree(f.appointment_time.as_slice()));
    proof {
        assert(plain_pairs(pairs@, 3));
        lemma_plain_object(pairs, 3);
    }
    Json::Object(pairs)
}

proof fn lemma_naturals_of_bytes(items: Seq<Json>, bytes: Seq<u8>)
    requires
        items.len() == bytes.len(),
        forall|i: int|
            0 <= i < bytes.len() ==> is_natural(#[trigger] items[i], bytes[i] as u64),
    ensures
        naturals_in(items) == bytes.map_values(|b: u8| b as u64),
    decreases items.len(),
{
    if items.len() > 0 {
        let last = items.last();
        assert(is_natural(items[items.len() - 1], bytes[items.len() - 1] as u64));
        assert forall|i: int| 0 <= i < bytes.drop_last().len() implies is_natural(
            #[trigger] items.drop_last()[i],
            bytes.drop_last()[i] as u64,
        ) by {
            assert(items.drop_last()[i] == items[i]);
        }
        lemma_naturals_of_bytes(items.drop_last(), bytes.drop_last());
    }
    assert(naturals_in(items) =~= bytes.map_values(|b: u8| b as u64));
}

pub proof fn lemma_bytes_read_back(tree: Json, key: Seq<char>, bytes: Seq<u8>)
    requires
        holds_bytes(tree, key, bytes),
    ensures
        Seq::new(bytes.len(), |i: int| byte_of(naturals_in(list_at(tree, key)), i)) == bytes,
        Seq::new(bytes.len(), |i: int| low_byte(number_in(list_at(tree, key), i))) == bytes,
{
    let items = list_at(tree, key);
    lemma_naturals_of_bytes(items, bytes);
    assert(Seq::new(bytes.len(), |i: int| byte_of(naturals_in(items), i)) =~= bytes);
    assert forall|i: int| 0 <= i < bytes.len() implies low_byte(number_in(items, i))
        == #[trigger] bytes[i] by {
        assert(is_natural(items[i], bytes[i] as u64));
    }
    assert(Seq::new(bytes.len(), |i: int| low_byte(number_in(items, i))) =~= bytes);
}

/// Settings of freezing that were stored are read back as they were.
pub proof fn law_freeze_settings_read_back(tree: Json, f: FreezeSettings, g: FreezeSettings)
    requires
        holds_freeze(tree, f),
        freeze_means(tree, g),
    ensures
        g.timed_mode == f.timed_mode,
        g.instant_mode == f.instant_mode,
        g.appointment_mode == f.appointment_mode,
        g.hourly_mode == f.hourly_mode,
        g.daily_mode == f.daily_mode,
        g.daily_time@ == f.daily_time@,
        g.hourly_start@ == f.hourly_start@,
        g.hourly_interval_min == f.hourly_interval_min,
        g.appointment_time@ == f.appointment_time@,
{
    lemma_bytes_read_back(tree, "daily_time"@, f.daily_time@);
    lemma_bytes_read_back(tree, "hourly_start"@, f.hourly_start@);
    lemma_bytes_read_back(tree, "appointment_time"@, f.appointment_time@);
}

/// The tree holds the settlement days.
pub open spec fn holds_settlement(tree: Json, days: Seq<u8>, hours: Seq<u8>) -> bool {
    holds_bytes(tree, "days"@, days) && holds_bytes(tree, "hours"@, hours)
}

/// The settlement days as a tree.
pub fn settlement_tree(days: &[u8; 3], hours: &[u8; 3]) -> (r: Json)
    ensures
        holds_settlement(r, days@, hours@),
        plain_tree(r, 4),
{
    proof {
        lemma_names_not_reserved();
        reveal_strlit("days");
        reveal_strlit("hours");
        assert("days"@.len() != "hours"@.len());
    }
    let mut pairs: Vec<(String, Json)> = Vec::new();
    put_entry(&mut pairs, "days", byte_list_tree(days.as_slice()));
    put_entry(&mut pairs, "hours", byte_list_tree(hours.as_slice()));
    proof {
        assert(plain_pairs(pairs@, 3));
        lemma_plain_object(pairs, 3);
    }
    Json::Object(pairs)
}

/// A list of numbers stands under a key.
pub open spec fn holds_numbers(tree: Json, key: Seq<char>, numbers: Seq<u16>) -> bool {
    field_of(tree, key) matches Some(value) && (items_of(value) matches Some(items)
        && items.len() == numbers.len() && forall|i: int|
        0 <= i < numbers.len() ==> is_natural(#[trigger] items[i], numbers[i] as u64))
}

/// The tree holds start and intervals of the load records.
pub open spec fn holds_load_record(tree: Json, start: Seq<u8>, intervals: Seq<u16>) -> bool {
    holds_bytes(tree, "start_time"@, start) && holds_numbers(tree, "intervals"@, intervals)
}

/// Start and intervals of the load records as a tree.
pub fn load_record_tree(start: &[u8; 4], intervals: &[u16; 8]) -> (r: Json)
    ensures
        holds_load_record(r, start@, intervals@),
        plain_tree(r, 4),
{
    proof {
        lemma_names_not_reserved();
        reveal_strlit("start_time");
        reveal_strlit("intervals");
        assert("start_time"@.len() != "intervals"@.len());
    }
    let mut items: Vec<Json> = Vec::new();
    for i in 0..8
        invariant
            items@.len() == i,
            forall|j: int| 0 <= j < i ==> is_natural(#[trigger] items@[j], intervals@[j] as u64),
            forall|j: int| 0 <= j < i ==> plain_tree(#[trigger] items@[j], 2),
    {
        items.push(natural_tree(intervals[i] as u64));
    }
    proof {
        lemma_plain_list(items, 2);
    }
    let mut pairs: Vec<(String, Json)> = Vec::new();
    put_entry(&mut pairs, "start_time", byte_list_tree(start.as_slice()));
    put_entry(&mut pairs, "intervals", Json::List(items));
    proof {
        assert(plain_pairs(pairs@, 3));
        lemma_plain_object(pairs, 3);
    }
    Json::Object(pairs)
}

/// The baud rate as a tree.
pub fn baudrate_tree(baudrate: u8) -> (r: Json)
    ensures
        holds_number(r, "baudrate"@, baudrate as u64),
        plain_tree(r, 4),
{
    proof {
        lemma_names_not_reserved();
    }
    let mut pairs: Vec<(String, Json)> = Vec::new();
    put_entry(&mut pairs, "baudrate", natural_tree(baudrate as u64));
    proof {
        assert(plain_pairs(pairs@, 3));
        lemma_plain_object(pairs, 3);
    }
    Json::Object(pairs)
}

/// A stored baud rate is read back as it was.
pub proof fn law_baudrate_reads_back(tree: Json, baudrate: u8)
    requires
        holds_number(tree, "baudrate"@, baudrate as u64),
    ensures
        stored_baudrate(tree) == Some(baudrate),
{
}

/// The tree holds the passwords.
pub open spec fn holds_passwords(tree: Json, passwords: Seq<[u8; 4]>) -> bool {
    field_of(tree, "passwords"@) matches Some(value) && (items_of(value) matches Some(items)
        && items.len() == passwords.len() && forall|i: int|
        0 <= i < passwords.len() ==> is_byte_list(#[trigger] items[i], passwords[i]@))
}

/// The passwords as a tree.
pub fn passwords_tree(passwords: &[[u8; 4]; 10]) -> (r: Json)
    ensures
        holds_passwords(r, passwords@),
        plain_tree(r, 4),
{
    proof {
        lemma_names_not_reserved();
    }
    let mut items: Vec<Json> = Vec::new();
    for i in 0..10
        invariant
            items@.len() == i,
            forall|j: int| 0 <= j < i ==> is_byte_list(#[trigger] items@[j], passwords@[j]@),
            forall|j: int| 0 <= j < i ==> plain_tree(#[trigger] items@[j], 2),
    {
        items.push(byte_list_tree(passwords[i].as_slice()));
    }
    proof {
        lemma_plain_list(items, 2);
    }
    let mut pairs: Vec<(String, Json)> = Vec::new();
    put_entry(&mut pairs, "passwords", Json::List(items));
    proof {
        assert(plain_pairs(pairs@, 3));
        lemma_plain_object(pairs, 3);
    }
    Json::Object(pairs)
}

/// Stored passwords are read back as they were.
pub proof fn law_passwords_read_back(tree: Json, passwords: Seq<[u8; 4]>, i: int)
    requires
        holds_passwords(tree, passwords),
        passwords.len() == 10,
        0 <= i < 10,
    ensures
        password_numbers(tree) is Some,
        password_bytes(password_numbers(tree)->0[i]) == passwords[i]@,
{
    let items = items_of(field_of(tree, "passwords"@)->0)->0;
    assert forall|k: int| 0 <= k < 10 implies is_password(#[trigger] items[k]) by {
        assert(is_byte_list(items[k], passwords[k]@));
        let bytes = items_of(items[k])->0;
        assert forall|j: int| 0 <= j < 4 implies natural_of(#[trigger] bytes[j]) is Some by {
            assert(is_natural(bytes[j], passwords[k]@[j] as u64));
        }
    }
    assert(is_byte_list(items[i], passwords[i]@));
    let bytes = items_of(items[i])->0;
    assert forall|j: int| 0 <= j < 4 implies low_byte(number_in(bytes, j))
        == #[trigger] passwords[i]@[j] by {
        assert(is_natural(bytes[j], passwords[i]@[j] as u64));
    }
    assert(password_bytes(items[i]) =~= passwords[i]@);
}

/// The tree is the list of a slot's numbers.
pub open spec fn is_slot(tree: Json, slot: (u8, u8, u8)) -> bool {
    is_byte_list(tree, seq![slot.0, slot.1, slot.2])
}

/// The tree holds slots.
pub open spec fn holds_slots(tree: Json, slots: Seq<(u8, u8, u8)>) -> bool {
    field_of(tree, "time_slots"@) matches Some(value) && (items_of(value) matches Some(items)
        && items.len() == slots.len() && forall|i: int|
        0 <= i < slots.len() ==> is_slot(#[trigger] items[i], slots[i]))
}

/// The slots of a day as a tree.
pub fn slots_tree(slots: &Vec<(u8, u8, u8)>) -> (r: Json)
    ensures
        holds_slots(r, slots@),
        plain_tree(r, 4),
{
    proof {
        lemma_names_not_reserved();
    }
    let mut items: Vec<Json> = Vec::new();
    for i in 0..slots.len()
        invariant
            items@.len() == i,
            forall|j: int| 0 <= j < i ==> is_slot(#[trigger] items@[j], slots@[j]),
            forall|j: int| 0 <= j < i ==> plain_tree(#[trigger] items@[j], 2),
    {
        let bytes: [u8; 3] = [slots[i].0, slots[i].1, slots[i].2];
        assert(bytes@ =~= seq![slots@[i as int].0, slots@[i as int].1, slots@[i as int].2]);
        items.push(byte_list_tree(bytes.as_slice()));
    }
    proof {
        lemma_plain_list(items, 2);
    }
    let mut pairs: Vec<(String, Json)> = Vec::new();
    put_entry(&mut pairs, "time_slots", Json::List(items));
    proof {
        assert(plain_pairs(pairs@, 3));
        lemma_plain_object(pairs, 3);
    }
    Json::Object(pairs)
}

/// Stored slots are read back as they were.
pub proof fn law_slots_read_back(entries: Seq<Json>, slots: Seq<(u8, u8, u8)>)
    requires
        entries.len() == slots.len(),
        forall|i: int| 0 <= i < slots.len() ==> is_slot(#[trigger] entries[i], slots[i]),
    ensures
        slots_in(entries) == slots,
    decreases entries.len(),
{
    if entries.len() > 0 {
        let n = entries.len() - 1;
        assert forall|i: int| 0 <= i < n implies is_slot(
            #[trigger] entries.drop_last()[i],
            slots.drop_last()[i],
        ) by {
            assert(entries.drop_last()[i] == entries[i]);
        }
        law_slots_read_back(entries.drop_last(), slots.drop_last());
        assert(is_slot(entries[n], slots[n]));
        let bytes = seq![slots[n].0, slots[n].1, slots[n].2];
        let b = items_of(entries[n])->0;
        assert(is_natural(b[0], bytes[0] as u64));
        assert(is_natural(b[1], bytes[1] as u64));
        assert(is_natural(b[2], bytes[2] as u64));
        assert(slot_in(entries[n]) == Some(slots[n]));
    }
    assert(slots_in(entries) =~= slots);
}

/// The tree stands for a profile.
pub open spec fn is_profile(tree: Json, profile: LoadProfile) -> bool {
    match profile {
        LoadProfile::Residential => tree matches Json::Text(t) && t@ == "Residential"@,
        LoadProfile::Industrial => tree matches Json::Text(t) && t@ == "Industrial"@,
        LoadProfile::Commercial => tree matches Json::Text(t) && t@ == "Commercial"@,
        LoadProfile::Fixed(factor) => tree is Object && holds_quantity(tree, "Fixed"@, factor),
    }
}

/// A quantity below a million, which fifteen digits hold.
pub open spec fn is_short(q: Quantity) -> bool {
    -1_000_000_000_000_000 < q < 1_000_000_000_000_000
}

/// A load model whose quantities are below a million.
pub open spec fn is_short_model(m: LoadModelConfig) -> bool {
    &&& m.profile matches LoadProfile::Fixed(factor) ==> is_short(factor)
    &&& is_short(m.voltage_noise_v)
    &&& is_short(m.frequency_noise_hz)
    &&& is_short(m.power_factor_noise)
    &&& is_short(m.power_factor_min)
    &&& is_short(m.power_factor_max)
    &&& forall|i: int| 0 <= i < 3 ==> is_short(#[trigger] m.phase_current_factors@[i])
}

/// A load profile as a tree.
pub fn profile_tree(profile: LoadProfile) -> (r: Json)
    ensures
        is_profile(r, profile),
        (profile matches LoadProfile::Fixed(factor) ==> is_short(factor)) ==> plain_tree(r, 3),
{
    proof {
        lemma_names_not_reserved();
    }
    match profile {
        LoadProfile::Residential => Json::Text("Residential".to_owned()),
        LoadProfile::Industrial => Json::Text("Industrial".to_owned()),
        LoadProfile::Commercial => Json::Text("Commercial".to_owned()),
        LoadProfile::Fixed(factor) => {
            let mut pairs: Vec<(String, Json)> = Vec::new();
            put_entry(&mut pairs, "Fixed", quantity_tree(factor));
            proof {
                if is_short(factor) {
                    assert(plain_pairs(pairs@, 2));
                    lemma_plain_object(pairs, 2);
                }
            }
            Json::Object(pairs)
        },
    }
}

/// The tree holds the load model.
pub open spec fn holds_load_model(tree: Json, m: LoadModelConfig) -> bool {
    &&& field_of(tree, "profile"@) matches Some(value) && is_profile(value, m.profile)
    &&& holds_quantity(tree, "voltage_noise_v"@, m.voltage_noise_v)
    &&& holds_quantity(tree, "frequency_noise_hz"@, m.frequency_noise_hz)
    &&& holds_quantity(tree, "power_factor_noise"@, m.power_factor_noise)
    &&& holds_quantity(tree, "power_factor_min"@, m.power_factor_min)
    &&& holds_quantity(tree, "power_factor_max"@, m.power_factor_max)
    &&& field_of(tree, "phase_current_factors"@) matches Some(value) && (items_of(
        value,
    ) matches Some(items) && items.len() == 3 && forall|i: int|
        0 <= i < 3 ==> is_quantity(#[trigger] items[i], m.phase_current_factors@[i]))
}

proof fn lemma_load_model_keys_differ()
    ensures
        "profile"@.len() == 7,
        "voltage_noise_v"@.len() == 15,
        "frequency_noise_hz"@.len() == 18 && "frequency_noise_hz"@[0] == 'f',
        "power_factor_noise"@.len() == 18 && "power_factor_noise"@[0] == 'p',
        "power_factor_min"@.len() == 16 && "power_factor_min"@[14] == 'i',
        "power_factor_max"@.len() == 16 && "power_factor_max"@[14] == 'a',
        "phase_current_factors"@.len() == 21,
        !is_reserved("profile"@),
        !is_reserved("voltage_noise_v"@),
        !is_reserved("frequency_noise_hz"@),
        !is_reserved("power_factor_noise"@),
        !is_reserved("power_factor_min"@),
        !is_reserved("power_factor_max"@),
        !is_reserved("phase_current_factors"@),
{
    reveal_strlit("profile");
    reveal_strlit("voltage_noise_v");
    reveal_strlit("frequency_noise_hz");
    reveal_strlit("power_factor_noise");
    reveal_strlit("power_factor_min");
    reveal_strlit("power_factor_max");
    reveal_strlit("phase_current_factors");
}

/// A load model as a tree.
pub fn load_model_tree(m: &LoadModelConfig) -> (r: Json)
    ensures
        holds_load_model(r, *m),
        is_short_model(*m) ==> plain_tree(r, 4),
{
    proof {
        lemma_load_model_keys_differ();
    }
    let mut factors: Vec<Json> = Vec::new();
    for i in 0..3
        invariant
            factors@.len() == i,
            forall|j: int|
                0 <= j < i ==> is_quantity(#[trigger] factors@[j], m.phase_current_factors@[j]),
            forall|j: int|
                0 <= j < i && is_short(m.phase_current_factors@[j]) ==> plain_tree(
                    #[trigger] factors@[j],
                    2,
                ),
    {
        factors.push(quantity_tree(m.phase_current_factors[i]));
    }
    proof {
        if is_short_model(*m) {
            lemma_plain_list(factors, 2);
        }
    }
    let mut pairs: Vec<(String, Json)> = Vec::new();
    put_entry(&mut pairs, "profile", profile_tree(m.profile));
    put_entry(&mut pairs, "voltage_noise_v", quantity_tree(m.voltage_noise_v));
    put_entry(&mut pairs, "frequency_noise_hz", quantity_tree(m.frequency_noise_hz));
    put_entry(&mut pairs, "power_factor_noise", quantity_tree(m.power_factor_noise));
    put_entry(&mut pairs, "power_factor_min", quantity_tree(m.power_factor_min));
    put_entry(&mut pairs, "power_factor_max", quantity_tree(m.power_factor_max));
    put_entry(&mut pairs, "phase_current_factors", Json::List(factors));
    proof {
        if is_short_model(*m) {
            assert(plain_pairs(pairs@, 3));
            lemma_plain_object(pairs, 3);
        }
    }
    Json::Object(pairs)
}

/// A load model that was stored is read back as it was.
pub proof fn law_load_model_reads_back(tree: Json, m: LoadModelConfig, n: LoadModelConfig)
    requires
        holds_load_model(tree, m),
        load_model_means(tree, n),
    ensures
        n.profile == m.profile,
        n.voltage_noise_v == m.voltage_noise_v,
        n.frequency_noise_hz == m.frequency_noise_hz,
        n.power_factor_noise == m.power_factor_noise,
        n.power_factor_min == m.power_factor_min,
        n.power_factor_max == m.power_factor_max,
        n.phase_current_factors@ == m.phase_current_factors@,
{
    lemma_quantity_reads_back(tree, "voltage_noise_v"@, m.voltage_noise_v);
    lemma_quantity_reads_back(tree, "frequency_noise_hz"@, m.frequency_noise_hz);
    lemma_quantity_reads_back(tree, "power_factor_noise"@, m.power_factor_noise);
    lemma_quantity_reads_back(tree, "power_factor_min"@, m.power_factor_min);
    lemma_quantity_reads_back(tree, "power_factor_max"@, m.power_factor_max);
    lemma_profile_reads_back(field_of(tree, "profile"@)->0, m.profile);
    lemma_factors_read_back(
        list_at(tree, "phase_current_factors"@),
        m.phase_current_factors@,
    );
    assert(n.phase_current_factors@ =~= m.phase_current_factors@);
}

proof fn lemma_quantity_reads_back(tree: Json, key: Seq<char>, q: Quantity)
    requires
        holds_quantity(tree, key, q),
    ensures
        forall|other: Quantity| #[trigger] quantity_at(tree, key, other) == q,
{
    law_quantity_digits_roundtrip(q);
}

proof fn lemma_profile_reads_back(tree: Json, profile: LoadProfile)
    requires
        is_profile(tree, profile),
    ensures
        profile_of(tree) == profile,
{
    reveal_strlit("Residential");
    reveal_strlit("Industrial");
    reveal_strlit("Commercial");
    reveal_strlit("Fixed");
    assert("Residential"@[0] == 'R' && "Industrial"@[0] == 'I' && "Commercial"@[0] == 'C'
        && "Fixed"@[0] == 'F');
    if let LoadProfile::Fixed(factor) = profile {
        law_quantity_digits_roundtrip(factor);
    }
}

proof fn lemma_factors_read_back(items: Seq<Json>, f: Seq<Quantity>)
    requires
        items.len() == f.len(),
        forall|i: int| 0 <= i < f.len() ==> is_quantity(#[trigger] items[i], f[i]),
    ensures
        quantities_in(items) == f,
    decreases items.len(),
{
    if items.len() > 0 {
        let n = items.len() - 1;
        assert forall|i: int| 0 <= i < n implies is_quantity(
            #[trigger] items.drop_last()[i],
            f.drop_last()[i],
        ) by {
            assert(items.drop_last()[i] == items[i]);
        }
        lemma_factors_read_back(items.drop_last(), f.drop_last());
        assert(is_quantity(items[n], f[n]));
        law_quantity_digits_roundtrip(f[n]);
    }
    assert(quantities_in(items) =~= f);
}

/// Something that parts can be put into.
pub open spec fn takes_parts(tree: Json) -> bool {
    tree is Object || tree is Null
}

/// The names of the parts of the further settings.
pub open spec fn is_part_name(key: Seq<char>) -> bool {
    key == "freeze"@ || key == "load_record"@ || key == "tou"@
}

/// Parts nested no deeper than `depth` can be put into the tree without making it deeper. In the
/// old layout the whole becomes a part.
pub open spec fn has_room(tree: Json, depth: nat) -> bool {
    if is_old_layout(tree) {
        plain_tree(tree, depth)
    } else {
        plain_tree(tree, depth + 1)
    }
}

/// The further settings with one part replaced and the others as they were.
pub open spec fn part_put(before: Json, after: Json, key: Seq<char>, part: Json) -> bool {
    &&& takes_parts(before)
    &&& after is Object
    &&& field_of(after, key) == Some(part)
    &&& forall|k: Seq<char>| k != key ==> #[trigger] field_of(after, k) == part_of(before, k)
    &&& forall|depth: nat| #[trigger]
        has_room(before, depth) && plain_tree(part, depth) ==> plain_tree(after, depth + 1)
}

/// The further settings with one part replaced. They are brought into the new layout first.
pub fn put_part(tree: Json, key: &str, part: Json) -> (r: Json)
    requires
        takes_parts(tree),
        is_part_name(key@),
    ensures
        part_put(tree, r, key@, part),
{
    proof {
        lemma_names_not_reserved();
    }
    let ghost whole = tree;
    let old_layout: bool = has_old_layout(&tree);
    let mut pairs: Vec<(String, Json)> = Vec::new();
    if old_layout {
        if !same_text(key, "freeze") {
            put_entry(&mut pairs, "freeze", tree);
        }
    } else if let Json::Object(all) = tree {
        proof {
            assert forall|depth: nat| has_room(whole, depth) implies #[trigger] plain_pairs(
                all@,
                depth,
            ) by {
                lemma_plain_entries(all, depth);
            }
        }
        pairs = without_key(all, key);
    }
    let ghost before = pairs@;
    assert forall|depth: nat| has_room(whole, depth) implies #[trigger] plain_pairs(
        before,
        depth,
    ) by {}
    put_entry(&mut pairs, key, part);
    proof {
        assert forall|depth: nat| #[trigger]
            has_room(whole, depth) && plain_tree(part, depth) implies plain_tree(
            Json::Object(pairs),
            depth + 1,
        ) by {
            assert(plain_pairs(before, depth));
            assert(plain_pairs(pairs@, depth));
            lemma_plain_object(pairs, depth);
        }
    }
    Json::Object(pairs)
}

proof fn lemma_plain_entries(pairs: Vec<(String, Json)>, depth: nat)
    requires
        plain_tree(Json::Object(pairs), depth + 1),
    ensures
        plain_pairs(pairs@, depth),
{
    assert forall|i: int| 0 <= i < pairs@.len() implies plain_tree(
        (#[trigger] pairs@[i]).1,
        depth,
    ) by {
        lemma_plain_entry(pairs, depth + 1, i);
    }
    assert(own_pairs(Json::Object(pairs)) == pairs@);
}

proof fn lemma_plain_without(pairs: Seq<(String, Json)>, i: int, depth: nat)
    requires
        plain_pairs(pairs, depth),
        0 <= i < pairs.len(),
    ensures
        plain_pairs(pairs.remove(i), depth),
{
    let rest = pairs.remove(i);
    assert forall|j: int, k: int| 0 <= j < k < rest.len() implies (#[trigger] rest[j]).0@ != (
    #[trigger] rest[k]).0@ by {
        let a = if j < i {
            j
        } else {
            j + 1
        };
        let b = if k < i {
            k
        } else {
            k + 1
        };
        assert(pairs[a].0@ != pairs[b].0@);
    }
    assert forall|j: int| 0 <= j < rest.len() implies !is_reserved((#[trigger] rest[j]).0@)
        && plain_tree(rest[j].1, depth) by {
        let a = if j < i {
            j
        } else {
            j + 1
        };
        assert(!is_reserved(pairs[a].0@));
        assert(plain_tree(pairs[a].1, depth));
    }
}

/// The entries without those under a key.
fn without_key(all: Vec<(String, Json)>, key: &str) -> (r: Vec<(String, Json)>)
    ensures
        forall|k: Seq<char>| #[trigger]
            entry_in(r@, k) == (if k == key@ {
                None
            } else {
                entry_in(all@, k)
            }),
        forall|depth: nat| plain_pairs(all@, depth) ==> #[trigger] plain_pairs(r@, depth),
{
    let mut rest: Vec<(String, Json)> = all;
    let mut kept: Vec<(String, Json)> = Vec::new();
    assert(entry_in(kept@, Seq::empty()) is None);
    assert(kept@ + rest@ =~= all@);
    while rest.len() > 0
        invariant
            forall|k: Seq<char>|
                k != key@ ==> (if entry_in(kept@, k) is Some {
                    entry_in(kept@, k)
                } else {
                    entry_in(rest@, k)
                }) == #[trigger] entry_in(all@, k),
            entry_in(kept@, key@) is None,
            forall|depth: nat|
                plain_pairs(all@, depth) ==> #[trigger] plain_pairs(kept@ + rest@, depth),
        decreases rest.len(),
    {
        let ghost before = rest@;
        let ghost held = kept@;
        let pair = rest.remove(0);
        assert(rest@ =~= before.drop_first());
        if !same_text(pair.0.as_str(), key) {
            kept.push(pair);
            assert forall|k: Seq<char>| k != key@ implies (if entry_in(kept@, k) is Some {
                entry_in(kept@, k)
            } else {
                entry_in(rest@, k)
            }) == #[trigger] entry_in(all@, k) by {
                crate::persistence::json::lemma_entry_pushed(held, pair, k);
            }
            proof {
                crate::persistence::json::lemma_entry_pushed(held, pair, key@);
            }
            assert(kept@ + rest@ =~= held + before);
        } else {
            assert((held + before).remove(held.len() as int) =~= kept@ + rest@);
            assert forall|depth: nat| plain_pairs(all@, depth) implies #[trigger] plain_pairs(
                kept@ + rest@,
                depth,
            ) by {
                assert(plain_pairs(held + before, depth));
                lemma_plain_without(held + before, held.len() as int, depth);
            }
        }
    }
    assert(kept@ + rest@ =~= kept@);
    assert forall|k: Seq<char>| #[trigger] entry_in(kept@, k) == (if k == key@ {
        None
    } else {
        entry_in(all@, k)
    }) by {
        if k != key@ {
            assert(entry_in(all@, k) == entry_in(all@, k));
        }
    }
    kept
}

/// A part that was put in is there, and the other parts are as they were.
pub proof fn law_parts_do_not_disturb_each_other(
    before: Json,
    after: Json,
    key: Seq<char>,
    part: Json,
    other: Seq<char>,
)
    requires
        is_part_name(key),
        is_part_name(other),
        other != key,
        part_put(before, after, key, part),
    ensures
        part_of(after, key) == Some(part),
        part_of(after, other) == part_of(before, other),
        !is_old_layout(after),
{
    reveal_strlit("freeze");
    reveal_strlit("load_record");
    reveal_strlit("tou");
    reveal_strlit("timed_mode");
    assert("freeze"@.len() == 6 && "load_record"@.len() == 11 && "tou"@.len() == 3
        && "timed_mode"@.len() == 10);
    assert(field_of(after, "timed_mode"@) == part_of(before, "timed_mode"@));
    assert(key != "freeze"@ ==> field_of(after, "freeze"@) == part_of(before, "freeze"@));
    assert(field_of(after, other) == part_of(before, other));
}

/// A configuration as the numbers and the tree of a row.
#[derive(Debug)]
pub struct StoredSimulation {
    pub meter_constant: i64,
    pub rated_voltage_mv: i64,
    pub rated_current_ma: i64,
    pub demand_period_min: i64,
    pub rated_frequency_hz: Quantity,
    pub initial_power_factor: Quantity,
    pub time_scale: Quantity,
    pub load_model: Json,
}

/// The numbers and the tree under which a configuration is stored.
pub open spec fn stores(r: StoredSimulation, c: SimulationConfig) -> bool {
    &&& r.meter_constant == c.meter_constant
    &&& r.rated_voltage_mv == scaled(c.rated_voltage, 3)
    &&& r.rated_current_ma == scaled(c.rated_current, 3)
    &&& r.demand_period_min == c.demand_period_minutes
    &&& r.rated_frequency_hz == c.rated_frequency
    &&& r.initial_power_factor == c.power_factor
    &&& r.time_scale == c.time_scale
    &&& holds_load_model(r.load_model, c.load_model)
}

/// The configuration as it is stored: voltage and current in thousandths.
pub fn stored_simulation(c: &SimulationConfig) -> (r: StoredSimulation)
    ensures
        stores(r, *c),
        is_short_model(c.load_model) ==> plain_tree(r.load_model, 4),
{
    proof {
        lemma_thousandths_fit(c.rated_voltage);
        lemma_thousandths_fit(c.rated_current);
    }
    StoredSimulation {
        meter_constant: c.meter_constant as i64,
        rated_voltage_mv: scale(c.rated_voltage, 3) as i64,
        rated_current_ma: scale(c.rated_current, 3) as i64,
        demand_period_min: c.demand_period_minutes as i64,
        rated_frequency_hz: c.rated_frequency,
        initial_power_factor: c.power_factor,
        time_scale: c.time_scale,
        load_model: load_model_tree(&c.load_model),
    }
}

proof fn lemma_thousandths_fit(v: Quantity)
    ensures
        0 <= scaled(v, 3) <= i64::MAX,
{
    reveal(scaled);
    assert(crate::quantity::pow10(3) == 1000) by {
        reveal_with_fuel(crate::quantity::pow10, 4);
    }
}

/// A valid configuration whose voltage and current are whole thousandths is read back as it
/// was stored.
pub proof fn law_configuration_reads_back(
    c: SimulationConfig,
    stored: StoredSimulation,
    row: MeterRow,
    d: SimulationConfig,
)
    requires
        config_error(c) is None,
        c.rated_voltage % 1_000_000 == 0,
        c.rated_current % 1_000_000 == 0,
        stores(stored, c),
        row.meter_constant == stored.meter_constant,
        row.rated_voltage_mv == stored.rated_voltage_mv,
        row.rated_current_ma == stored.rated_current_ma,
        row.demand_period_min == stored.demand_period_min,
        row.rated_frequency_hz == stored.rated_frequency_hz,
        row.initial_power_factor == stored.initial_power_factor,
        row.time_scale == stored.time_scale,
        simulation_means(row, stored.load_model, d),
    ensures
        d.rated_voltage == c.rated_voltage,
        d.rated_current == c.rated_current,
        d.rated_frequency == c.rated_frequency,
        d.power_factor == c.power_factor,
        d.meter_constant == c.meter_constant,
        d.demand_period_minutes == c.demand_period_minutes,
        d.time_scale == c.time_scale,
        d.load_model.profile == c.load_model.profile,
        d.load_model.voltage_noise_v == c.load_model.voltage_noise_v,
        d.load_model.frequency_noise_hz == c.load_model.frequency_noise_hz,
        d.load_model.power_factor_noise == c.load_model.power_factor_noise,
        d.load_model.power_factor_min == c.load_model.power_factor_min,
        d.load_model.power_factor_max == c.load_model.power_factor_max,
        d.load_model.phase_current_factors@ == c.load_model.phase_current_factors@,
{
    law_load_model_reads_back(stored.load_model, c.load_model, d.load_model);
    lemma_whole_thousandths(c.rated_voltage);
    lemma_whole_thousandths(c.rated_current);
}

proof fn lemma_whole_thousandths(v: Quantity)
    requires
        v >= 0,
        v % 1_000_000 == 0,
    ensures
        scaled(v, 3) * 1_000_000 == v,
{
    reveal(scaled);
    assert(crate::quantity::pow10(3) == 1000) by {
        reveal_with_fuel(crate::quantity::pow10, 4);
    }
}

/// Settings that were stored in the parts of a row are read back as they were: freezing,
/// settlement days, start and the six intervals of the load records, baud rate, passwords and
/// slots.
#[verifier::rlimit(60)]
pub proof fn law_stored_settings_read_back(
    row: MeterRow,
    trees: RowTrees,
    s: PersistedMeterSettings,
    freeze: Json,
    f: FreezeSettings,
    days: Seq<u8>,
    hours: Seq<u8>,
    load_record: Json,
    start: Seq<u8>,
    intervals: Seq<u16>,
    baudrate: u8,
    passwords: Seq<[u8; 4]>,
    tou: Json,
    slots: Seq<(u8, u8, u8)>,
)
    requires
        settings_mean(row, trees, s),
        part_of(trees.tou_config, "freeze"@) == Some(freeze),
        holds_freeze(freeze, f),
        holds_settlement(trees.settlement_days, days, hours),
        days.len() == 3,
        hours.len() == 3,
        part_of(trees.tou_config, "load_record"@) == Some(load_record),
        holds_load_record(load_record, start, intervals),
        start.len() == 4,
        intervals.len() == 8,
        holds_number(trees.comm_baud, "baudrate"@, baudrate as u64),
        holds_passwords(trees.passwords, passwords),
        passwords.len() == 10,
        part_of(trees.tou_config, "tou"@) == Some(tou),
        holds_slots(tou, slots),
    ensures
        s.timed_freeze_mode == f.timed_mode,
        s.instant_freeze_mode == f.instant_mode,
        s.appointment_freeze_mode == f.appointment_mode,
        s.hourly_freeze_mode == f.hourly_mode,
        s.daily_freeze_mode == f.daily_mode,
        s.daily_freeze_time@ == f.daily_time@,
        s.hourly_freeze_start@ == f.hourly_start@,
        s.hourly_freeze_interval_min == f.hourly_interval_min,
        s.appointment_freeze_time@ == f.appointment_time@,
        s.settlement_days@ == days,
        s.settlement_hours@ == hours,
        s.load_record_start_time@ == start,
        s.load_record_intervals@.take(6) == intervals.take(6),
        s.baudrate == Some(baudrate),
        s.passwords matches Some(all) && forall|i: int|
            0 <= i < 10 ==> (#[trigger] all@[i])@ == passwords[i]@,
        s.tou_time_slots matches Some(all) && all@ == slots,
{
    law_freeze_settings_read_back(freeze, f, stored_freeze(s));
    lemma_bytes_read_back(trees.settlement_days, "days"@, days);
    lemma_bytes_read_back(trees.settlement_days, "hours"@, hours);
    lemma_bytes_read_back(load_record, "start_time"@, start);
    lemma_intervals_read_back(load_record, intervals);
    law_baudrate_reads_back(trees.comm_baud, baudrate);
    lemma_all_passwords_read_back(trees.passwords, passwords);
    law_slots_read_back(slot_entries(trees.tou_config)->0, slots);
}

pub proof fn lemma_intervals_read_back(tree: Json, intervals: Seq<u16>)
    requires
        holds_numbers(tree, "intervals"@, intervals),
        intervals.len() == 8,
    ensures
        Seq::new(
            8,
            |i: int|
                if i < 6 {
                    (number_in(list_at(tree, "intervals"@), i) % 0x1_0000) as u16
                } else {
                    0
                },
        ).take(6) == intervals.take(6),
{
    let items = list_at(tree, "intervals"@);
    let read = Seq::new(
        8,
        |i: int|
            if i < 6 {
                (number_in(items, i) % 0x1_0000) as u16
            } else {
                0
            },
    );
    assert forall|i: int| 0 <= i < 6 implies #[trigger] read[i] == intervals[i] by {
        assert(is_natural(items[i], intervals[i] as u64));
    }
    assert(read.take(6) =~= intervals.take(6));
}

pub proof fn lemma_all_passwords_read_back(tree: Json, passwords: Seq<[u8; 4]>)
    requires
        holds_passwords(tree, passwords),
        passwords.len() == 10,
    ensures
        password_numbers(tree) is Some,
        forall|i: int|
            0 <= i < 10 ==> password_bytes(#[trigger] password_numbers(tree)->0[i])
                == passwords[i]@,
{
    law_passwords_read_back(tree, passwords, 0);
    assert forall|i: int| 0 <= i < 10 implies password_bytes(
        #[trigger] password_numbers(tree)->0[i],
    ) == passwords[i]@ by {
        law_passwords_read_back(tree, passwords, i);
    }
}

pub proof fn lemma_alike_number(tree: Json, other: Json, key: Seq<char>, n: u64)
    requires
        alike(tree, other),
        holds_number(tree, key, n),
    ensures
        holds_number(other, key, n),
{
    lemma_alike_field(tree, other, key);
}

pub proof fn lemma_alike_byte_field(tree: Json, other: Json, key: Seq<char>, bytes: Seq<u8>)
    requires
        alike(tree, other),
        holds_bytes(tree, key, bytes),
    ensures
        holds_bytes(other, key, bytes),
{
    lemma_alike_field(tree, other, key);
    lemma_alike_bytes(field_of(tree, key)->0, field_of(other, key)->0, bytes);
}

proof fn lemma_alike_items(tree: Json, other: Json, key: Seq<char>, i: int)
    requires
        alike(tree, other),
        0 <= i < list_at(tree, key).len() || 0 <= i < list_at(other, key).len(),
    ensures
        list_at(other, key).len() == list_at(tree, key).len(),
        alike(list_at(tree, key)[i], list_at(other, key)[i]),
{
    lemma_alike_field(tree, other, key);
    let items = items_of(field_of(tree, key)->0)->0;
    let others = items_of(field_of(other, key)->0)->0;
    assert(alike(items[i], others[i]));
}

pub proof fn lemma_alike_part(tree: Json, other: Json, key: Seq<char>)
    requires
        alike(tree, other),
    ensures
        part_of(tree, key) is Some <==> part_of(other, key) is Some,
        part_of(tree, key) matches Some(part) ==> alike(part, part_of(other, key)->0),
{
    lemma_alike_field(tree, other, key);
    lemma_alike_field(tree, other, "freeze"@);
    lemma_alike_field(tree, other, "timed_mode"@);
}

pub proof fn lemma_alike_freeze(tree: Json, other: Json, f: FreezeSettings)
    requires
        alike(tree, other),
        holds_freeze(tree, f),
    ensures
        holds_freeze(other, f),
{
    lemma_alike_number(tree, other, "timed_mode"@, f.timed_mode as u64);
    lemma_alike_number(tree, other, "instant_mode"@, f.instant_mode as u64);
    lemma_alike_number(tree, other, "appointment_mode"@, f.appointment_mode as u64);
    lemma_alike_number(tree, other, "hourly_mode"@, f.hourly_mode as u64);
    lemma_alike_number(tree, other, "daily_mode"@, f.daily_mode as u64);
    lemma_alike_byte_field(tree, other, "daily_time"@, f.daily_time@);
    lemma_alike_byte_field(tree, other, "hourly_start"@, f.hourly_start@);
    lemma_alike_number(tree, other, "hourly_interval_min"@, f.hourly_interval_min as u64);
    lemma_alike_byte_field(tree, other, "appointment_time"@, f.appointment_time@);
}

pub proof fn lemma_alike_load_record(tree: Json, other: Json, start: Seq<u8>, intervals: Seq<u16>)
    requires
        alike(tree, other),
        holds_load_record(tree, start, intervals),
        intervals.len() > 0,
    ensures
        holds_load_record(other, start, intervals),
{
    lemma_alike_byte_field(tree, other, "start_time"@, start);
    lemma_alike_field(tree, other, "intervals"@);
    lemma_alike_items(tree, other, "intervals"@, 0);
    let items = list_at(tree, "intervals"@);
    let others = list_at(other, "intervals"@);
    assert forall|i: int| 0 <= i < intervals.len() implies is_natural(
        #[trigger] others[i],
        intervals[i] as u64,
    ) by {
        assert(is_natural(items[i], intervals[i] as u64));
        lemma_alike_items(tree, other, "intervals"@, i);
    }
}

pub proof fn lemma_alike_passwords(tree: Json, other: Json, passwords: Seq<[u8; 4]>)
    requires
        alike(tree, other),
        holds_passwords(tree, passwords),
        passwords.len() > 0,
    ensures
        holds_passwords(other, passwords),
{
    lemma_alike_field(tree, other, "passwords"@);
    lemma_alike_items(tree, other, "passwords"@, 0);
    let items = list_at(tree, "passwords"@);
    let others = list_at(other, "passwords"@);
    assert forall|i: int| 0 <= i < passwords.len() implies is_byte_list(
        #[trigger] others[i],
        passwords[i]@,
    ) by {
        assert(is_byte_list(items[i], passwords[i]@));
        lemma_alike_items(tree, other, "passwords"@, i);
        lemma_alike_bytes(items[i], others[i], passwords[i]@);
    }
}

pub proof fn lemma_alike_slots(tree: Json, other: Json, slots: Seq<(u8, u8, u8)>)
    requires
        alike(tree, other),
        holds_slots(tree, slots),
    ensures
        holds_slots(other, slots),
{
    lemma_alike_field(tree, other, "time_slots"@);
    let items = items_of(field_of(tree, "time_slots"@)->0)->0;
    let others = items_of(field_of(other, "time_slots"@)->0)->0;
    assert forall|i: int| 0 <= i < slots.len() implies is_slot(#[trigger] others[i], slots[i]) by {
        assert(is_slot(items[i], slots[i]));
        assert(alike(items[i], others[i]));
        lemma_alike_bytes(items[i], others[i], seq![slots[i].0, slots[i].1, slots[i].2]);
    }
}

/// A text that was written stands for a tree like the one it was written from.
pub proof fn law_written_text_stands_for_its_tree(text: Seq<char>, written: Json, read: Json)
    requires
        reads_back(text, written),
        stands_for(text, read),
    ensures
        alike(written, read),
{
}

/// Settings whose trees were written as the texts of a row are read back from the row as they
/// were: freezing, settlement days, start and the six intervals of the load records, baud rate,
/// passwords and slots.
pub proof fn law_stored_texts_read_back(
    row: MeterRow,
    written: RowTrees,
    trees: RowTrees,
    s: PersistedMeterSettings,
    freeze: Json,
    f: FreezeSettings,
    days: Seq<u8>,
    hours: Seq<u8>,
    load_record: Json,
    start: Seq<u8>,
    intervals: Seq<u16>,
    baudrate: u8,
    passwords: Seq<[u8; 4]>,
    tou: Json,
    slots: Seq<(u8, u8, u8)>,
)
    requires
        reads_back(row.settlement_days_json@, written.settlement_days),
        reads_back(row.tou_config_json@, written.tou_config),
        reads_back(row.comm_baud_json@, written.comm_baud),
        reads_back(row.passwords_json@, written.passwords),
        trees_of(row, trees),
        settings_mean(row, trees, s),
        part_of(written.tou_config, "freeze"@) == Some(freeze),
        holds_freeze(freeze, f),
        holds_settlement(written.settlement_days, days, hours),
        days.len() == 3,
        hours.len() == 3,
        part_of(written.tou_config, "load_record"@) == Some(load_record),
        holds_load_record(load_record, start, intervals),
        start.len() == 4,
        intervals.len() == 8,
        holds_number(written.comm_baud, "baudrate"@, baudrate as u64),
        holds_passwords(written.passwords, passwords),
        passwords.len() == 10,
        part_of(written.tou_config, "tou"@) == Some(tou),
        holds_slots(tou, slots),
    ensures
        s.timed_freeze_mode == f.timed_mode,
        s.instant_freeze_mode == f.instant_mode,
        s.appointment_freeze_mode == f.appointment_mode,
        s.hourly_freeze_mode == f.hourly_mode,
        s.daily_freeze_mode == f.daily_mode,
        s.daily_freeze_time@ == f.daily_time@,
        s.hourly_freeze_start@ == f.hourly_start@,
        s.hourly_freeze_interval_min == f.hourly_interval_min,
        s.appointment_freeze_time@ == f.appointment_time@,
        s.settlement_days@ == days,
        s.settlement_hours@ == hours,
        s.load_record_start_time@ == start,
        s.load_record_intervals@.take(6) == intervals.take(6),
        s.baudrate == Some(baudrate),
        s.passwords matches Some(all) && forall|i: int|
            0 <= i < 10 ==> (#[trigger] all@[i])@ == passwords[i]@,
        s.tou_time_slots matches Some(all) && all@ == slots,
{
    law_written_text_stands_for_its_tree(
        row.settlement_days_json@,
        written.settlement_days,
        trees.settlement_days,
    );
    law_written_text_stands_for_its_tree(
        row.tou_config_json@,
        written.tou_config,
        trees.tou_config,
    );
    law_written_text_stands_for_its_tree(row.comm_baud_json@, written.comm_baud, trees.comm_baud);
    law_written_text_stands_for_its_tree(row.passwords_json@, written.passwords, trees.passwords);
    lemma_alike_part(written.tou_config, trees.tou_config, "freeze"@);
    lemma_alike_part(written.tou_config, trees.tou_config, "load_record"@);
    lemma_alike_part(written.tou_config, trees.tou_config, "tou"@);
    let freeze_read = part_of(trees.tou_config, "freeze"@)->0;
    let load_record_read = part_of(trees.tou_config, "load_record"@)->0;
    let tou_read = part_of(trees.tou_config, "tou"@)->0;
    lemma_alike_freeze(freeze, freeze_read, f);
    lemma_alike_load_record(load_record, load_record_read, start, intervals);
    lemma_alike_slots(tou, tou_read, slots);
    lemma_alike_byte_field(written.settlement_days, trees.settlement_days, "days"@, days);
    lemma_alike_byte_field(written.settlement_days, trees.settlement_days, "hours"@, hours);
    lemma_alike_number(written.comm_baud, trees.comm_baud, "baudrate"@, baudrate as u64);
    lemma_alike_passwords(written.passwords, trees.passwords, passwords);
    law_stored_settings_read_back(
        row,
        trees,
        s,
        freeze_read,
        f,
        days,
        hours,
        load_record_read,
        start,
        intervals,
        baudrate,
        passwords,
        tou_read,
        slots,
    );
}

/// A part that was put in and written is read back from the text, and the other parts are read
/// back as they were.
pub proof fn law_parts_in_texts_do_not_disturb_each_other(
    text: Seq<char>,
    before: Json,
    after: Json,
    read: Json,
    key: Seq<char>,
    part: Json,
    other: Seq<char>,
)
    requires
        is_part_name(key),
        is_part_name(other),
        other != key,
        part_put(before, after, key, part),
        reads_back(text, after),
        stands_for(text, read),
    ensures
        part_of(read, key) matches Some(p) && alike(part, p),
        part_of(before, other) is Some <==> part_of(read, other) is Some,
        part_of(before, other) matches Some(p) ==> alike(p, part_of(read, other)->0),
{
    law_parts_do_not_disturb_each_other(before, after, key, part, other);
    law_written_text_stands_for_its_tree(text, after, read);
    lemma_alike_part(after, read, key);
    lemma_alike_part(after, read, other);
}

proof fn lemma_alike_quantity_at(tree: Json, other: Json, key: Seq<char>, default: Quantity)
    requires
        alike(tree, other),
    ensures
        quantity_at(other, key, default) == quantity_at(tree, key, default),
{
    lemma_alike_field(tree, other, key);
    if field_of(tree, key) is Some {
        lemma_alike_quantity(field_of(tree, key)->0, field_of(other, key)->0);
    }
}

proof fn lemma_alike_quantities(items: Seq<Json>, others: Seq<Json>)
    requires
        items.len() == others.len(),
        forall|i: int| 0 <= i < items.len() ==> alike(#[trigger] items[i], others[i]),
    ensures
        quantities_in(others) == quantities_in(items),
    decreases items.len(),
{
    if items.len() > 0 {
        let n = items.len() - 1;
        assert(alike(items[n], others[n]));
        lemma_alike_quantity(items[n], others[n]);
        assert forall|i: int| 0 <= i < n implies alike(
            #[trigger] items.drop_last()[i],
            others.drop_last()[i],
        ) by {
            assert(items.drop_last()[i] == items[i]);
        }
        lemma_alike_quantities(items.drop_last(), others.drop_last());
    }
}

proof fn lemma_alike_profile(tree: Json, other: Json)
    requires
        alike(tree, other),
    ensures
        profile_of(other) == profile_of(tree),
{
    lemma_alike_field(tree, other, "Fixed"@);
    if field_of(tree, "Fixed"@) is Some {
        lemma_alike_quantity(field_of(tree, "Fixed"@)->0, field_of(other, "Fixed"@)->0);
    }
}

/// Trees that are alike say the same of the load model.
pub proof fn law_alike_trees_mean_one_load_model(tree: Json, other: Json, m: LoadModelConfig)
    requires
        alike(tree, other),
    ensures
        load_model_means(tree, m) == load_model_means(other, m),
{
    lemma_alike_field(tree, other, "profile"@);
    if field_of(tree, "profile"@) is Some {
        lemma_alike_profile(field_of(tree, "profile"@)->0, field_of(other, "profile"@)->0);
    }
    lemma_alike_quantity_at(tree, other, "voltage_noise_v"@, 2_000_000_000);
    lemma_alike_quantity_at(tree, other, "frequency_noise_hz"@, 50_000_000);
    lemma_alike_quantity_at(tree, other, "power_factor_noise"@, 2_000_000);
    lemma_alike_quantity_at(tree, other, "power_factor_min"@, 850_000_000);
    lemma_alike_quantity_at(tree, other, "power_factor_max"@, 990_000_000);
    let key = "phase_current_factors"@;
    lemma_alike_field(tree, other, key);
    let items = list_at(tree, key);
    let others = list_at(other, key);
    if items.len() > 0 {
        lemma_alike_items(tree, other, key, 0);
    }
    if others.len() > 0 {
        lemma_alike_items(tree, other, key, 0);
    }
    assert forall|i: int| 0 <= i < items.len() implies alike(#[trigger] items[i], others[i]) by {
        lemma_alike_items(tree, other, key, i);
    }
    lemma_alike_quantities(items, others);
}

/// A valid configuration whose voltage and current are whole thousandths is read back from a
/// row whose text its load model was written as.
pub proof fn law_configuration_reads_back_from_text(
    c: SimulationConfig,
    stored: StoredSimulation,
    row: MeterRow,
    tree: Json,
    d: SimulationConfig,
)
    requires
        config_error(c) is None,
        c.rated_voltage % 1_000_000 == 0,
        c.rated_current % 1_000_000 == 0,
        stores(stored, c),
        row.meter_constant == stored.meter_constant,
        row.rated_voltage_mv == stored.rated_voltage_mv,
        row.rated_current_ma == stored.rated_current_ma,
        row.demand_period_min == stored.demand_period_min,
        row.rated_frequency_hz == stored.rated_frequency_hz,
        row.initial_power_factor == stored.initial_power_factor,
        row.time_scale == stored.time_scale,
        reads_back(row.load_model_json@, stored.load_model),
        stands_for(row.load_model_json@, tree),
        simulation_means(row, tree, d),
    ensures
        d.rated_voltage == c.rated_voltage,
        d.rated_current == c.rated_current,
        d.rated_frequency == c.rated_frequency,
        d.power_factor == c.power_factor,
        d.meter_constant == c.meter_constant,
        d.demand_period_minutes == c.demand_period_minutes,
        d.time_scale == c.time_scale,
        d.load_model.profile == c.load_model.profile,
        d.load_model.voltage_noise_v == c.load_model.voltage_noise_v,
        d.load_model.frequency_noise_hz == c.load_model.frequency_noise_hz,
        d.load_model.power_factor_noise == c.load_model.power_factor_noise,
        d.load_model.power_factor_min == c.load_model.power_factor_min,
        d.load_model.power_factor_max == c.load_model.power_factor_max,
        d.load_model.phase_current_factors@ == c.load_model.phase_current_factors@,
{
    law_written_text_stands_for_its_tree(row.load_model_json@, stored.load_model, tree);
    law_alike_trees_mean_one_load_model(stored.load_model, tree, d.load_model);
    law_configuration_reads_back(c, stored, row, d);
}

} // verus!
