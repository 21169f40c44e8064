//! Saves of settings, one after the other, into the row of a meter.

use crate::persistence::json::{
    alike, is_empty_object, is_object_text, json_level, law_plain_text_reads_as_plain_tree,
    lemma_alike_field, lemma_plain_deeper, parse_json, plain_text, plain_tree, readable, reads_as, stands_for, tree_text, unfit,
    well_written, write_text, Json, LevelModel,
};
use crate::persistence::settings::{
    is_old_layout, part_of, settings_mean, slot_entries, stored_freeze, trees_of, FreezeSettings,
    MeterRow, RowTrees,
};
use crate::persistence::settings_tree::{
    baudrate_tree, freeze_tree, has_room, holds_freeze, holds_load_record, holds_number,
    holds_passwords, holds_settlement, holds_slots, is_part_name, law_baudrate_reads_back,
    law_freeze_settings_read_back, law_parts_do_not_disturb_each_other, law_slots_read_back,
    law_written_text_stands_for_its_tree, lemma_alike_byte_field, lemma_alike_freeze,
    lemma_alike_load_record, lemma_alike_number, lemma_alike_part, lemma_alike_passwords,
    lemma_alike_slots, lemma_all_passwords_read_back, lemma_bytes_read_back,
    lemma_intervals_read_back, load_record_tree, part_put, passwords_tree, put_part,
    settlement_tree, slots_tree,
};
use crate::persistence::types::PersistedMeterSettings;
use vstd::prelude::*;

verus! {

/// Why settings are not saved.
#[derive(Debug, Clone, Copy, PartialEq, Eq, Structural)]
pub enum SaveError {
    /// The stored text is JSON but no object.
    NotAnObject,
    /// The settings are nested too deep, or hold digits that are no number.
    Unwritable,
}

/// Parts can be put into the text: it is an object, it is null, or it cannot be read, and then
/// it stands for an object without entries.
pub open spec fn takes_text(text: Seq<char>) -> bool {
    !readable(text, 128) || match json_level(text) {
        Some(LevelModel::Object(_)) => true,
        Some(LevelModel::Null) => true,
        _ => false,
    }
}

/// A part was put into what a text stands for, and the whole was written as another text.
pub open spec fn part_saved(before: Seq<char>, after: Seq<char>, key: Seq<char>, part: Json) -> bool {
    exists|old_tree: Json, new_tree: Json|
        stands_for(before, old_tree) && #[trigger] part_put(old_tree, new_tree, key, part)
            && well_written(after, new_tree)
}

/// What a text stands for cannot be written with a part put in.
pub open spec fn part_unwritable(text: Seq<char>, key: Seq<char>, part: Json) -> bool {
    exists|old_tree: Json, new_tree: Json|
        stands_for(text, old_tree) && #[trigger] part_put(old_tree, new_tree, key, part)
            && tree_text(new_tree, 128) is None
}

/// A stored text that the library can read and write again without loss, with room for a part.
pub open spec fn is_tidy(text: Seq<char>) -> bool {
    readable(text, 128) ==> {
        &&& plain_text(text, 100)
        &&& forall|tree: Json| #[trigger]
            reads_as(text, tree, 128) && is_old_layout(tree) ==> plain_text(text, 99)
    }
}

proof fn lemma_tidy_has_room(text: Seq<char>, tree: Json)
    requires
        is_tidy(text),
        stands_for(text, tree),
    ensures
        has_room(tree, 99),
{
    if readable(text, 128) {
        law_plain_text_reads_as_plain_tree(text, tree, 100, 128);
        if is_old_layout(tree) {
            law_plain_text_reads_as_plain_tree(text, tree, 99, 128);
        }
    }
}

/// A stored text with a part put in.
pub fn put_in_text(text: &str, key: &str, part: Json) -> (r: Result<String, SaveError>)
    requires
        is_part_name(key@),
    ensures
        r matches Err(SaveError::NotAnObject) <==> !takes_text(text@),
        r matches Err(SaveError::Unwritable) ==> part_unwritable(text@, key@, part),
        r matches Ok(after) ==> part_saved(text@, after@, key@, part),
        is_tidy(text@) && takes_text(text@) && plain_tree(part, 4) ==> r is Ok,
{
    let tree = match parse_json(text) {
        Some(tree) => tree,
        None => Json::Object(Vec::new()),
    };
    let ghost before = tree;
    assert(stands_for(text@, tree));
    let takes: bool = match &tree {
        Json::Object(_) => true,
        Json::Null => true,
        _ => false,
    };
    if !takes {
        return Err(SaveError::NotAnObject);
    }
    let whole = put_part(tree, key, part);
    assert(part_put(before, whole, key@, part));
    proof {
        if is_tidy(text@) && plain_tree(part, 4) {
            lemma_tidy_has_room(text@, before);
            lemma_plain_deeper(part, 4, 99);
            assert(plain_tree(whole, 100));
        }
    }
    match write_text(&whole) {
        Some(after) => Ok(after),
        None => Err(SaveError::Unwritable),
    }
}

/// A save of settings.
pub ghost enum SettingsSave {
    Settlement { days: Seq<u8>, hours: Seq<u8> },
    Freeze { settings: FreezeSettings },
    LoadRecord { mode_word: u8, start: Seq<u8>, intervals: Seq<u16> },
    Protocol { baudrate: u8, passwords: Seq<[u8; 4]>, slots: Seq<(u8, u8, u8)> },
}

impl SettingsSave {
    /// As many numbers as the settings have.
    pub open spec fn is_whole(self) -> bool {
        match self {
            SettingsSave::Settlement { days, hours } => days.len() == 3 && hours.len() == 3,
            SettingsSave::Freeze { .. } => true,
            SettingsSave::LoadRecord { start, intervals, .. } => start.len() == 4
                && intervals.len() == 8,
            SettingsSave::Protocol { passwords, .. } => passwords.len() == 10,
        }
    }

    /// Which settings are saved, and under which name of the further settings.
    pub open spec fn key(self) -> Seq<char> {
        match self {
            SettingsSave::Settlement { .. } => "settlement"@,
            SettingsSave::Freeze { .. } => "freeze"@,
            SettingsSave::LoadRecord { .. } => "load_record"@,
            SettingsSave::Protocol { .. } => "tou"@,
        }
    }

    /// The part of the further settings that is saved.
    pub open spec fn is_part(self, part: Json) -> bool {
        match self {
            SettingsSave::Settlement { .. } => false,
            SettingsSave::Freeze { settings } => holds_freeze(part, settings),
            SettingsSave::LoadRecord { start, intervals, .. } => holds_load_record(
                part,
                start,
                intervals,
            ),
            SettingsSave::Protocol { slots, .. } => holds_slots(part, slots),
        }
    }
}

/// What was saved was put into the further settings of a row as a part.
pub open spec fn further_saved(r0: MeterRow, r1: MeterRow, save: SettingsSave) -> bool {
    exists|part: Json| #[trigger]
        save.is_part(part) && plain_tree(part, 4) && part_saved(
            r0.tou_config_json@,
            r1.tou_config_json@,
            save.key(),
            part,
        )
}

/// The settlement days were written.
pub open spec fn settlement_written(text: Seq<char>, days: Seq<u8>, hours: Seq<u8>) -> bool {
    exists|tree: Json| #[trigger]
        holds_settlement(tree, days, hours) && plain_tree(tree, 4) && well_written(text, tree)
}

/// The baud rate was written.
pub open spec fn baudrate_written(text: Seq<char>, baudrate: u8) -> bool {
    exists|tree: Json| #[trigger]
        holds_number(tree, "baudrate"@, baudrate as u64) && plain_tree(tree, 4) && well_written(
            text,
            tree,
        )
}

/// The passwords were written.
pub open spec fn passwords_written(text: Seq<char>, passwords: Seq<[u8; 4]>) -> bool {
    exists|tree: Json| #[trigger]
        holds_passwords(tree, passwords) && plain_tree(tree, 4) && well_written(text, tree)
}

/// Settings were saved in a row, and the rest of the row is as it was.
pub open spec fn saved(r0: MeterRow, r1: MeterRow, save: SettingsSave) -> bool {
    match save {
        SettingsSave::Settlement { days, hours } => {
            &&& settlement_written(r1.settlement_days_json@, days, hours)
            &&& r1 == (MeterRow { settlement_days_json: r1.settlement_days_json, ..r0 })
        },
        SettingsSave::Freeze { .. } => {
            &&& further_saved(r0, r1, save)
            &&& r1 == (MeterRow { tou_config_json: r1.tou_config_json, ..r0 })
        },
        SettingsSave::LoadRecord { mode_word, .. } => {
            &&& further_saved(r0, r1, save)
            &&& r1 == (MeterRow {
                tou_config_json: r1.tou_config_json,
                load_record_mode_word: mode_word as i64,
                ..r0
            })
        },
        SettingsSave::Protocol { baudrate, passwords, .. } => {
            &&& further_saved(r0, r1, save)
            &&& baudrate_written(r1.comm_baud_json@, baudrate)
            &&& passwords_written(r1.passwords_json@, passwords)
            &&& r1 == (MeterRow {
                tou_config_json: r1.tou_config_json,
                comm_baud_json: r1.comm_baud_json,
                passwords_json: r1.passwords_json,
                ..r0
            })
        },
    }
}

/// A part cannot be written into the further settings of a row.
pub open spec fn further_unwritable(row: MeterRow, save: SettingsSave) -> bool {
    exists|part: Json| #[trigger]
        save.is_part(part) && part_unwritable(row.tou_config_json@, save.key(), part)
}

/// What comes of a save of further settings.
pub open spec fn further_outcome(
    r0: MeterRow,
    r1: MeterRow,
    save: SettingsSave,
    r: Result<(), SaveError>,
) -> bool {
    &&& r == Err::<(), SaveError>(SaveError::NotAnObject) <==> !takes_text(r0.tou_config_json@)
    &&& r == Err::<(), SaveError>(SaveError::Unwritable) ==> further_unwritable(r0, save)
    &&& r is Err ==> r1 == r0
    &&& r is Ok ==> saved(r0, r1, save)
    &&& is_tidy(r0.tou_config_json@) && takes_text(r0.tou_config_json@) ==> r is Ok
}

/// Writes a tree that can be written.
fn written_text(tree: &Json) -> (r: String)
    requires
        plain_tree(*tree, 4),
    ensures
        well_written(r@, *tree),
{
    match write_text(tree) {
        Some(text) => text,
        None => {
            assert(unfit(*tree, 128));
            assert(!plain_tree(*tree, 4));
            String::new()
        },
    }
}

impl MeterRow {
    /// The row of a meter of which nothing was stored.
    pub fn new() -> (r: MeterRow)
        ensures
            r.meter_constant == 1600,
            r.rated_voltage_mv == 220_000,
            r.rated_current_ma == 5_000,
            r.demand_period_min == 15,
            r.time_scale == 1_000_000_000,
            r.rated_frequency_hz == 50_000_000_000,
            r.initial_power_factor == 950_000_000,
            r.load_record_mode_word == 0,
            is_tidy(r.tou_config_json@),
            is_object_text(r.tou_config_json@),
            exists|none: Json|
                is_empty_object(none) && #[trigger] well_written(r.tou_config_json@, none) && well_written(
                    r.load_model_json@,
                    none,
                ) && well_written(r.comm_baud_json@, none) && well_written(r.passwords_json@, none),
            exists|none: Json| #[trigger]
                is_bare_list(none) && well_written(r.settlement_days_json@, none),
    {
        let none = Json::Object(Vec::new());
        let list = Json::List(Vec::new());
        assert(plain_tree(none, 4));
        assert(plain_tree(list, 4));
        let text = written_text(&none);
        proof {
            assert(plain_tree(none, 99) && plain_tree(none, 100));
            assert(plain_text(text@, 99) && plain_text(text@, 100));
            assert(is_empty_object(none) && well_written(text@, none));
            assert(is_bare_list(list));
        }
        MeterRow {
            meter_constant: 1600,
            rated_voltage_mv: 220_000,
            rated_current_ma: 5_000,
            demand_period_min: 15,
            time_scale: 1_000_000_000,
            rated_frequency_hz: 50_000_000_000,
            initial_power_factor: 950_000_000,
            load_record_mode_word: 0,
            load_model_json: text.clone(),
            settlement_days_json: written_text(&list),
            tou_config_json: text.clone(),
            comm_baud_json: text.clone(),
            passwords_json: text,
        }
    }

    /// Saves the settlement days.
    pub fn save_settlement_days(&mut self, days: &[u8; 3], hours: &[u8; 3])
        ensures
            saved(
                *old(self),
                *final(self),
                SettingsSave::Settlement { days: days@, hours: hours@ },
            ),
    {
        let tree = settlement_tree(days, hours);
        let text = written_text(&tree);
        assert(holds_settlement(tree, days@, hours@) && well_written(text@, tree));
        self.settlement_days_json = text;
    }

    /// Saves the settings of freezing.
    pub fn save_freeze_config(&mut self, settings: &FreezeSettings) -> (r: Result<(), SaveError>)
        ensures
            further_outcome(
                *old(self),
                *final(self),
                SettingsSave::Freeze { settings: *settings },
                r,
            ),
    {
        let ghost save = SettingsSave::Freeze { settings: *settings };
        let part = freeze_tree(settings);
        let ghost tree = part;
        assert(save.is_part(tree));
        let text = put_in_text(self.tou_config_json.as_str(), "freeze", part)?;
        self.tou_config_json = text;
        Ok(())
    }

    /// Saves mode word, start and intervals of the load records.
    pub fn save_load_record_config(
        &mut self,
        mode_word: u8,
        start_time: &[u8; 4],
        intervals: &[u16; 8],
    ) -> (r: Result<(), SaveError>)
        ensures
            further_outcome(
                *old(self),
                *final(self),
                SettingsSave::LoadRecord { mode_word, start: start_time@, intervals: intervals@ },
                r,
            ),
    {
        let ghost save = SettingsSave::LoadRecord {
            mode_word,
            start: start_time@,
            intervals: intervals@,
        };
        let part = load_record_tree(start_time, intervals);
        let ghost tree = part;
        assert(save.is_part(tree));
        let text = put_in_text(self.tou_config_json.as_str(), "load_record", part)?;
        self.tou_config_json = text;
        self.load_record_mode_word = mode_word as i64;
        Ok(())
    }

    /// Saves baud rate, passwords and slots.
    pub fn save_protocol_parameters(
        &mut self,
        baudrate: u8,
        passwords: &[[u8; 4]; 10],
        time_slots: &Vec<(u8, u8, u8)>,
    ) -> (r: Result<(), SaveError>)
        ensures
            further_outcome(
                *old(self),
                *final(self),
                SettingsSave::Protocol {
                    baudrate,
                    passwords: passwords@,
                    slots: time_slots@,
                },
                r,
            ),
    {
        let ghost save = SettingsSave::Protocol {
            baudrate,
            passwords: passwords@,
            slots: time_slots@,
        };
        let part = slots_tree(time_slots);
        let ghost tree = part;
        assert(save.is_part(tree));
        let text = put_in_text(self.tou_config_json.as_str(), "tou", part)?;
        let baud = baudrate_tree(baudrate);
        let words = passwords_tree(passwords);
        self.tou_config_json = text;
        self.comm_baud_json = written_text(&baud);
        self.passwords_json = written_text(&words);
        assert(holds_number(baud, "baudrate"@, baudrate as u64));
        assert(holds_passwords(words, passwords@));
        Ok(())
    }
}

/// A list without items.
pub open spec fn is_bare_list(tree: Json) -> bool {
    tree matches Json::List(items) && items@.len() == 0
}

/// The further settings in a text have what was saved as a part.
pub open spec fn text_holds(text: Seq<char>, save: SettingsSave) -> bool {
    forall|tree: Json| #[trigger]
        stands_for(text, tree) ==> (part_of(tree, save.key()) matches Some(part) && save.is_part(
            part,
        ))
}

/// A row has what was saved: whatever its texts stand for holds it.
pub open spec fn row_holds(row: MeterRow, save: SettingsSave) -> bool {
    match save {
        SettingsSave::Settlement { days, hours } => forall|tree: Json| #[trigger]
            stands_for(row.settlement_days_json@, tree) ==> holds_settlement(tree, days, hours),
        SettingsSave::Freeze { .. } => text_holds(row.tou_config_json@, save),
        SettingsSave::LoadRecord { mode_word, .. } => text_holds(row.tou_config_json@, save)
            && row.load_record_mode_word == mode_word,
        SettingsSave::Protocol { baudrate, passwords, .. } => {
            &&& text_holds(row.tou_config_json@, save)
            &&& forall|tree: Json| #[trigger]
                stands_for(row.comm_baud_json@, tree) ==> holds_number(
                    tree,
                    "baudrate"@,
                    baudrate as u64,
                )
            &&& forall|tree: Json| #[trigger]
                stands_for(row.passwords_json@, tree) ==> holds_passwords(tree, passwords)
        },
    }
}

/// The stored settings show what was saved.
pub open spec fn settings_show(s: PersistedMeterSettings, save: SettingsSave) -> bool {
    match save {
        SettingsSave::Settlement { days, hours } => s.settlement_days@ == days
            && s.settlement_hours@ == hours,
        SettingsSave::Freeze { settings } => {
            &&& s.timed_freeze_mode == settings.timed_mode
            &&& s.instant_freeze_mode == settings.instant_mode
            &&& s.appointment_freeze_mode == settings.appointment_mode
            &&& s.hourly_freeze_mode == settings.hourly_mode
            &&& s.daily_freeze_mode == settings.daily_mode
            &&& s.daily_freeze_time@ == settings.daily_time@
            &&& s.hourly_freeze_start@ == settings.hourly_start@
            &&& s.hourly_freeze_interval_min == settings.hourly_interval_min
            &&& s.appointment_freeze_time@ == settings.appointment_time@
        },
        SettingsSave::LoadRecord { mode_word, start, intervals } => {
            &&& s.load_record_mode_word == mode_word
            &&& s.load_record_start_time@ == start
            &&& s.load_record_intervals@.take(6) == intervals.take(6)
        },
        SettingsSave::Protocol { baudrate, passwords, slots } => {
            &&& s.baudrate == Some(baudrate)
            &&& s.passwords matches Some(all) && forall|i: int|
                0 <= i < 10 ==> (#[trigger] all@[i])@ == passwords[i]@
            &&& s.tou_time_slots matches Some(all) && all@ == slots
        },
    }
}

proof fn lemma_keys_differ()
    ensures
        "settlement"@.len() == 10,
        "freeze"@.len() == 6,
        "load_record"@.len() == 11,
        "tou"@.len() == 3,
{
    reveal_strlit("settlement");
    reveal_strlit("freeze");
    reveal_strlit("load_record");
    reveal_strlit("tou");
}

proof fn lemma_alike_part_of(save: SettingsSave, part: Json, other: Json)
    requires
        save.is_whole(),
        save.is_part(part),
        alike(part, other),
    ensures
        save.is_part(other),
{
    match save {
        SettingsSave::Settlement { .. } => {},
        SettingsSave::Freeze { settings } => lemma_alike_freeze(part, other, settings),
        SettingsSave::LoadRecord { start, intervals, .. } => lemma_alike_load_record(
            part,
            other,
            start,
            intervals,
        ),
        SettingsSave::Protocol { slots, .. } => lemma_alike_slots(part, other, slots),
    }
}

/// A text into which a part was saved is tidy and takes further parts. It has the part, and the
/// others that it had.
proof fn lemma_part_saved(
    before: Seq<char>,
    after: Seq<char>,
    save: SettingsSave,
    part: Json,
    other: SettingsSave,
)
    requires
        is_tidy(before),
        save.is_whole(),
        other.is_whole(),
        save.is_part(part),
        plain_tree(part, 4),
        part_saved(before, after, save.key(), part),
    ensures
        is_tidy(after),
        is_object_text(after),
        text_holds(after, save),
        other.key() != save.key() && !(other is Settlement) && text_holds(before, other)
            ==> text_holds(after, other),
{
    lemma_keys_differ();
    let (old_tree, new_tree) = choose|old_tree: Json, new_tree: Json|
        stands_for(before, old_tree) && #[trigger] part_put(old_tree, new_tree, save.key(), part)
            && well_written(after, new_tree);
    let apart = if save.key() == "freeze"@ {
        "tou"@
    } else {
        "freeze"@
    };
    lemma_tidy_has_room(before, old_tree);
    lemma_plain_deeper(part, 4, 99);
    assert(has_room(old_tree, 99));
    assert(plain_tree(new_tree, 100));
    law_parts_do_not_disturb_each_other(old_tree, new_tree, save.key(), part, apart);
    assert forall|tree: Json| #[trigger] stands_for(after, tree) implies alike(new_tree, tree)
        && !is_old_layout(tree) by {
        law_written_text_stands_for_its_tree(after, new_tree, tree);
        lemma_alike_field(new_tree, tree, "freeze"@);
        lemma_alike_field(new_tree, tree, "timed_mode"@);
    }
    assert forall|tree: Json| #[trigger] reads_as(after, tree, 128) implies !is_old_layout(tree) by {
        assert(stands_for(after, tree));
    }
    assert forall|tree: Json| #[trigger] stands_for(after, tree) implies (part_of(
        tree,
        save.key(),
    ) matches Some(p) && save.is_part(p)) by {
        lemma_alike_part(new_tree, tree, save.key());
        lemma_alike_part_of(save, part, part_of(tree, save.key())->0);
    }
    if other.key() != save.key() && !(other is Settlement) && text_holds(before, other) {
        law_parts_do_not_disturb_each_other(old_tree, new_tree, save.key(), part, other.key());
        let kept = part_of(old_tree, other.key())->0;
        assert(other.is_part(kept));
        assert forall|tree: Json| #[trigger] stands_for(after, tree) implies (part_of(
            tree,
            other.key(),
        ) matches Some(p) && other.is_part(p)) by {
            lemma_alike_part(new_tree, tree, other.key());
            lemma_alike_part_of(other, kept, part_of(tree, other.key())->0);
        }
    }
}

/// A save is in the row after it; what was saved before under another name still is.
pub proof fn law_save_keeps_the_others(
    r0: MeterRow,
    r1: MeterRow,
    save: SettingsSave,
    other: SettingsSave,
)
    requires
        is_tidy(r0.tou_config_json@),
        save.is_whole(),
        other.is_whole(),
        saved(r0, r1, save),
    ensures
        is_tidy(r1.tou_config_json@),
        takes_text(r0.tou_config_json@) ==> takes_text(r1.tou_config_json@),
        row_holds(r1, save),
        other.key() != save.key() && row_holds(r0, other) ==> row_holds(r1, other),
{
    lemma_keys_differ();
    match save {
        SettingsSave::Settlement { days, hours } => {
            let tree = choose|tree: Json| #[trigger]
                holds_settlement(tree, days, hours) && plain_tree(tree, 4) && well_written(
                    r1.settlement_days_json@,
                    tree,
                );
            assert forall|read: Json| #[trigger]
                stands_for(r1.settlement_days_json@, read) implies holds_settlement(
                read,
                days,
                hours,
            ) by {
                law_written_text_stands_for_its_tree(r1.settlement_days_json@, tree, read);
                lemma_alike_byte_field(tree, read, "days"@, days);
                lemma_alike_byte_field(tree, read, "hours"@, hours);
            }
        },
        _ => {
            let part = choose|part: Json| #[trigger]
                save.is_part(part) && plain_tree(part, 4) && part_saved(
                    r0.tou_config_json@,
                    r1.tou_config_json@,
                    save.key(),
                    part,
                );
            lemma_part_saved(r0.tou_config_json@, r1.tou_config_json@, save, part, other);
            if let SettingsSave::Protocol { baudrate, passwords, .. } = save {
                let baud = choose|tree: Json| #[trigger]
                    holds_number(tree, "baudrate"@, baudrate as u64) && plain_tree(tree, 4)
                        && well_written(r1.comm_baud_json@, tree);
                let words = choose|tree: Json| #[trigger]
                    holds_passwords(tree, passwords) && plain_tree(tree, 4) && well_written(
                        r1.passwords_json@,
                        tree,
                    );
                assert forall|read: Json| #[trigger]
                    stands_for(r1.comm_baud_json@, read) implies holds_number(
                    read,
                    "baudrate"@,
                    baudrate as u64,
                ) by {
                    law_written_text_stands_for_its_tree(r1.comm_baud_json@, baud, read);
                    lemma_alike_number(baud, read, "baudrate"@, baudrate as u64);
                }
                assert forall|read: Json| #[trigger]
                    stands_for(r1.passwords_json@, read) implies holds_passwords(
                    read,
                    passwords,
                ) by {
                    law_written_text_stands_for_its_tree(r1.passwords_json@, words, read);
                    lemma_alike_passwords(words, read, passwords);
                }
            }
        },
    }
}

/// Saves one after the other, with the row before each of them and after the last.
pub open spec fn saves_made(rows: Seq<MeterRow>, saves: Seq<SettingsSave>) -> bool {
    &&& rows.len() == saves.len() + 1
    &&& forall|i: int| #![trigger saves[i]]
        0 <= i < saves.len() ==> saves[i].is_whole() && saved(rows[i], rows[i + 1], saves[i])
}

proof fn lemma_saves_keep_tidy(rows: Seq<MeterRow>, saves: Seq<SettingsSave>, n: int)
    requires
        saves_made(rows, saves),
        is_tidy(rows[0].tou_config_json@),
        0 <= n <= saves.len(),
    ensures
        is_tidy(rows[n].tou_config_json@),
    decreases n,
{
    if n > 0 {
        lemma_saves_keep_tidy(rows, saves, n - 1);
        let save = saves[n - 1];
        law_save_keeps_the_others(rows[n - 1], rows[n], save, save);
    }
}

proof fn lemma_save_stays(rows: Seq<MeterRow>, saves: Seq<SettingsSave>, i: int, n: int)
    requires
        saves_made(rows, saves),
        is_tidy(rows[0].tou_config_json@),
        0 <= i < n <= saves.len(),
        forall|j: int| i < j < saves.len() ==> (#[trigger] saves[j]).key() != saves[i].key(),
    ensures
        row_holds(rows[n], saves[i]),
    decreases n,
{
    let last = saves[n - 1];
    lemma_saves_keep_tidy(rows, saves, n - 1);
    law_save_keeps_the_others(rows[n - 1], rows[n], last, saves[i]);
    if i < n - 1 {
        lemma_save_stays(rows, saves, i, n - 1);
    }
}

/// A row that has what was saved gives settings that show it.
pub proof fn law_row_shows_what_it_holds(
    row: MeterRow,
    trees: RowTrees,
    s: PersistedMeterSettings,
    save: SettingsSave,
)
    requires
        save.is_whole(),
        row_holds(row, save),
        trees_of(row, trees),
        settings_mean(row, trees, s),
    ensures
        settings_show(s, save),
{
    match save {
        SettingsSave::Settlement { days, hours } => {
            lemma_bytes_read_back(trees.settlement_days, "days"@, days);
            lemma_bytes_read_back(trees.settlement_days, "hours"@, hours);
        },
        SettingsSave::Freeze { settings } => {
            let part = part_of(trees.tou_config, "freeze"@)->0;
            law_freeze_settings_read_back(part, settings, stored_freeze(s));
        },
        SettingsSave::LoadRecord { start, intervals, .. } => {
            let part = part_of(trees.tou_config, "load_record"@)->0;
            lemma_bytes_read_back(part, "start_time"@, start);
            lemma_intervals_read_back(part, intervals);
        },
        SettingsSave::Protocol { baudrate, passwords, slots } => {
            law_baudrate_reads_back(trees.comm_baud, baudrate);
            lemma_all_passwords_read_back(trees.passwords, passwords);
            law_slots_read_back(slot_entries(trees.tou_config)->0, slots);
        },
    }
}

/// However many saves follow one another, in any order: the settings read from the row show of
/// each kind what was saved last. No save loses what another saved.
pub proof fn law_successive_saves_are_read_back(
    rows: Seq<MeterRow>,
    saves: Seq<SettingsSave>,
    i: int,
    trees: RowTrees,
    s: PersistedMeterSettings,
)
    requires
        saves_made(rows, saves),
        is_tidy(rows[0].tou_config_json@),
        0 <= i < saves.len(),
        forall|j: int| i < j < saves.len() ==> (#[trigger] saves[j]).key() != saves[i].key(),
        trees_of(rows.last(), trees),
        settings_mean(rows.last(), trees, s),
    ensures
        settings_show(s, saves[i]),
{
    lemma_save_stays(rows, saves, i, saves.len() as int);
    law_row_shows_what_it_holds(rows.last(), trees, s, saves[i]);
}

} // verus!
