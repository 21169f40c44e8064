//! Load records: when samples are taken, what they hold, and how they are written.

use crate::laws::digits::{
    all_decimal, in_century, lemma_byte_digits, lemma_hundredths_show, lemma_powers,
    lemma_times_tell, minute_named, piece, shows, tells_second, two_digits,
};
use crate::laws::energies::read_energy;
use crate::laws::frames::{lemma_sum_of, sum_of};
use crate::laws::freezes::named_moment;
use crate::laws::readings::{read_demand, read_value};
use crate::protocol::format::{bcd_byte_value, is_bcd, law_bcd_write_read};
use crate::quantity::{scaled, Quantity};
use crate::simulation::di_handler::encoding::{
    clock_bytes, decimal_of, digits, year_byte, year_first_bytes,
};
use crate::simulation::di_handler::load_profile::{
    bad_digits, block_head, block_of, curve_bytes, curve_points, curve_value, demand_block_bytes,
    energy_block_bytes, minute_first_fields, pf_bytes, pq_bytes, quadrant_bytes, query_error,
    query_means, record_block, record_payload,
    vif_bytes, with_separator, RecordQuery,
};
use crate::simulation::di_handler::read_error::ReadError;
use crate::simulation::load_record::{sample_of, LoadRecordData, LoadRecordSample};
use crate::simulation::schedule::{
    class_due, class_sample, recent_of, samples_due, sampling_done, sampling_on, start_fields,
};
use crate::simulation::state::MeterState;
use crate::time::{days_in_month, lemma_calendar_of, Calendar, DateTime};
use vstd::prelude::*;

verus! {

/// The time that MMDDhhmm names in the present year.
pub open spec fn sampling_start(s: MeterState) -> Calendar {
    let b = s.load_record_start_time@;
    Calendar {
        year: s.virtual_time.cal().year,
        month: two_digits(b[0]) as u32,
        day: two_digits(b[1]) as u32,
        hour: two_digits(b[2]) as u32,
        minute: two_digits(b[3]) as u32,
        second: 0,
    }
}

/// The start of period number `k`, in seconds since the start of 1970.
pub open spec fn period_start(k: int, seconds: int) -> int {
    k * seconds
}

/// A new period has begun since the last sample. Without one, a period begins right now.
pub open spec fn period_begun(s: MeterState, class: int) -> bool {
    let seconds = 60 * s.load_record_config.intervals@[class];
    let now = s.virtual_time;
    seconds != 0 && match s.load_profile_state.last_sample_times@[class] {
        None => exists|k: int| #[trigger] period_start(k, seconds) == now.secs(),
        Some(last) => last.total_nanos() <= now.total_nanos() && exists|k: int|
            last.secs() < #[trigger] period_start(k, seconds) <= now.secs(),
    }
}

proof fn lemma_class_due(s: MeterState, class: int)
    requires
        0 <= class < 6,
    ensures
        class_due(s, class) == period_begun(s, class),
{
    let p = 60 * s.load_record_config.intervals@[class];
    let now = s.virtual_time.secs();
    if p != 0 {
        let b = now / p;
        vstd::arithmetic::div_mod::lemma_fundamental_div_mod(now, p);
        assert(b * p <= now < b * p + p) by (nonlinear_arith)
            requires
                now == p * b + now % p,
                0 <= now % p < p,
        ;
        match s.load_profile_state.last_sample_times@[class] {
            None => {
                if now % p == 0 {
                    assert(period_start(b, p) == now) by (nonlinear_arith)
                        requires
                            now == p * b + now % p,
                            now % p == 0,
                            period_start(b, p) == b * p,
                    ;
                }
                if exists|k: int| #[trigger] period_start(k, p) == now {
                    let k = choose|k: int| #[trigger] period_start(k, p) == now;
                    vstd::arithmetic::div_mod::lemma_mod_multiples_basic(k, p);
                }
            },
            Some(t) => {
                let last = t.secs();
                let a = last / p;
                vstd::arithmetic::div_mod::lemma_fundamental_div_mod(last, p);
                assert(a * p <= last < a * p + p) by (nonlinear_arith)
                    requires
                        last == p * a + last % p,
                        0 <= last % p < p,
                ;
                if b * p > a * p {
                    assert(last < b * p) by (nonlinear_arith)
                        requires
                            last < a * p + p,
                            b * p > a * p,
                            p > 0,
                    ;
                    assert(last < period_start(b, p) <= now);
                }
                if exists|k: int| last < #[trigger] period_start(k, p) <= now {
                    let k = choose|k: int| last < #[trigger] period_start(k, p) <= now;
                    assert(b * p > a * p) by (nonlinear_arith)
                        requires
                            a * p <= last < k * p,
                            k * p <= now,
                            now < b * p + p,
                            p > 0,
                    ;
                }
            },
        }
    }
}

/// Some sample is of the class with the given number.
pub open spec fn has_class(samples: Seq<LoadRecordSample>, class_id: int) -> bool {
    exists|j: int| 0 <= j < samples.len() && (#[trigger] samples[j]).class_id == class_id
}

proof fn lemma_samples_due(s: MeterState, n: nat, class: int)
    requires
        n <= 6,
        0 <= class < 6,
    ensures
        has_class(samples_due(s, n), class + 1) <==> class < n && class_due(s, class),
        samples_due(s, n).len() <= n,
        forall|j: int|
            0 <= j < samples_due(s, n).len() ==> (#[trigger] samples_due(s, n)[j]).sample_time
                == s.virtual_time && samples_due(s, n)[j].data == sample_of(
                s,
                s.load_record_config.mode_word,
            ) && 1 <= samples_due(s, n)[j].class_id <= n,
        forall|i: int, j: int|
            0 <= i < j < samples_due(s, n).len() ==> (#[trigger] samples_due(s, n)[i]).class_id < (
            #[trigger] samples_due(s, n)[j]).class_id,
    decreases n,
{
    if n > 0 {
        lemma_samples_due(s, (n - 1) as nat, class);
        let before = samples_due(s, (n - 1) as nat);
        let all = samples_due(s, n);
        if class_due(s, n - 1) {
            assert(all == before.push(class_sample(s, n - 1)));
            assert(all[before.len() as int].class_id == n);
            if has_class(before, class + 1) {
                let j = choose|j: int|
                    0 <= j < before.len() && (#[trigger] before[j]).class_id == class + 1;
                assert(all[j].class_id == class + 1);
            }
            if has_class(all, class + 1) {
                let j = choose|j: int|
                    0 <= j < all.len() && (#[trigger] all[j]).class_id == class + 1;
                if j < before.len() {
                    assert(before[j].class_id == class + 1);
                }
            }
            assert forall|j: int| 0 <= j < all.len() implies (#[trigger] all[j]).sample_time
                == s.virtual_time && all[j].data == sample_of(s, s.load_record_config.mode_word)
                && 1 <= all[j].class_id <= n by {
                if j < before.len() {
                    assert(all[j] == before[j]);
                }
            }
            assert forall|i: int, j: int| 0 <= i < j < all.len() implies (
            #[trigger] all[i]).class_id < (#[trigger] all[j]).class_id by {
                assert(all[i] == before[i]);
                if j < before.len() {
                    assert(all[j] == before[j]);
                }
            }
        }
    }
}

/// Before its start, or when nothing is selected, nothing is sampled.
#[verifier::rlimit(50)]
pub proof fn law_no_sampling_before_the_start(
    s0: MeterState,
    s1: MeterState,
    samples: Seq<LoadRecordSample>,
)
    requires
        sampling_done(s0, s1, samples),
        s0.load_record_config.mode_word == 0 || (sampling_start(s0).valid()
            && s0.virtual_time.total_nanos() < sampling_start(s0).seconds() * 1_000_000_000),
    ensures
        samples.len() == 0,
        s1 == s0,
{
    reveal(decimal_of);
    assert(sampling_start(s0) == start_fields(s0.load_record_start_time@, s0.virtual_time));
}

/// From its start on, a class is sampled exactly when a new period of its interval has begun:
/// one sample, of the present moment, which is the first of the recent ones afterwards. Samples
/// come in the order of their classes.
#[verifier::rlimit(50)]
pub proof fn law_classes_are_sampled_once_a_period(
    s0: MeterState,
    s1: MeterState,
    samples: Seq<LoadRecordSample>,
    class: int,
)
    requires
        sampling_done(s0, s1, samples),
        s0.load_record_config.mode_word != 0,
        !sampling_start(s0).valid() || s0.virtual_time.total_nanos() >= sampling_start(s0).seconds()
            * 1_000_000_000,
        0 <= class < 6,
    ensures
        has_class(samples, class + 1) <==> period_begun(s0, class),
        forall|j: int|
            0 <= j < samples.len() ==> (#[trigger] samples[j]).sample_time == s0.virtual_time,
        forall|i: int, j: int|
            0 <= i < j < samples.len() ==> (#[trigger] samples[i]).class_id < (
            #[trigger] samples[j]).class_id,
        period_begun(s0, class) ==> s1.load_profile_state.last_sample_times@[class] == Some(
            s0.virtual_time,
        ) && recent_of(s1, class).len() > 0 && recent_of(s1, class)[0].sample_time
            == s0.virtual_time && recent_of(s1, class)[0].class_id == class + 1,
        !period_begun(s0, class) ==> recent_of(s1, class) == recent_of(s0, class),
        recent_of(s0, class).len() <= 5 ==> recent_of(s1, class).len() <= 5,
        forall|j: int|
            1 <= j < recent_of(s1, class).len() && period_begun(s0, class) ==> #[trigger] recent_of(
                s1,
                class,
            )[j] == recent_of(s0, class)[j - 1],
{
    reveal(decimal_of);
    assert(sampling_start(s0) == start_fields(s0.load_record_start_time@, s0.virtual_time));
    assert(sampling_on(s0));
    lemma_class_due(s0, class);
    lemma_samples_due(s0, 6, class);
    assert(recent_of(s1, class) == crate::simulation::schedule::recent_after(s0, class));
    assert(s1.load_profile_state.last_sample_times@[class]
        == crate::simulation::schedule::last_sample_after(s0, class));
}

/// The bit of the mode word is set.
pub open spec fn selects(mode_word: u8, block: nat) -> bool {
    (mode_word as int / vstd::arithmetic::power::pow(2, block)) % 2 == 1
}

proof fn lemma_selects(m: u8)
    ensures
        selects(m, 0) == (m % 2 == 1),
        selects(m, 1) == (m / 2 % 2 == 1),
        selects(m, 2) == (m / 4 % 2 == 1),
        selects(m, 3) == (m / 8 % 2 == 1),
        selects(m, 4) == (m / 16 % 2 == 1),
        selects(m, 5) == (m / 32 % 2 == 1),
{
    reveal(vstd::arithmetic::power::pow);
    reveal_with_fuel(vstd::arithmetic::power::pow, 7);
    assert(vstd::arithmetic::power::pow(2, 0) == 1);
    assert(vstd::arithmetic::power::pow(2, 1) == 2);
    assert(vstd::arithmetic::power::pow(2, 2) == 4);
    assert(vstd::arithmetic::power::pow(2, 3) == 8);
    assert(vstd::arithmetic::power::pow(2, 4) == 16);
    assert(vstd::arithmetic::power::pow(2, 5) == 32);
}

/// A sample holds exactly the blocks whose bits are set in the mode word.
#[verifier::rlimit(50)]
pub proof fn law_mode_word_selects_the_blocks(s: MeterState, mode_word: u8)
    ensures
        ({
            let d = sample_of(s, mode_word);
            &&& d.vif is Some <==> selects(mode_word, 0)
            &&& d.pq is Some <==> selects(mode_word, 1)
            &&& d.pf is Some <==> selects(mode_word, 2)
            &&& d.energy is Some <==> selects(mode_word, 3)
            &&& d.quadrant is Some <==> selects(mode_word, 4)
            &&& d.demand is Some <==> selects(mode_word, 5)
        }),
{
    lemma_selects(mode_word);
}

/// A value of a sample is what a read of it gave when the sample was taken: voltages, currents,
/// powers and power factors.
#[verifier::rlimit(50)]
pub proof fn law_sampled_values_are_those_read(s: MeterState, mode_word: u8, phase: u8)
    requires
        phase <= 3,
    ensures
        ({
            let d = sample_of(s, mode_word);
            &&& selects(mode_word, 0) && phase > 0 ==> curve_value(0x01, phase, d) == read_value(
                s,
                0x01,
                phase,
                0x00,
            )
            &&& selects(mode_word, 0) && phase > 0 ==> curve_value(0x02, phase, d) == read_value(
                s,
                0x02,
                phase,
                0x00,
            )
            &&& selects(mode_word, 1) ==> curve_value(0x03, phase, d) == read_value(
                s,
                0x03,
                phase,
                0x00,
            )
            &&& selects(mode_word, 1) ==> curve_value(0x04, phase, d) == read_value(
                s,
                0x04,
                phase,
                0x00,
            )
            &&& selects(mode_word, 2) ==> curve_value(0x05, phase, d) == read_value(
                s,
                0x06,
                phase,
                0x00,
            )
            &&& !selects(mode_word, 0) ==> curve_value(0x01, phase, d) is Err && curve_value(
                0x02,
                phase,
                d,
            ) is Err
            &&& !selects(mode_word, 1) ==> curve_value(0x03, phase, d) is Err && curve_value(
                0x04,
                phase,
                d,
            ) is Err
            &&& !selects(mode_word, 2) ==> curve_value(0x05, phase, d) is Err
        }),
{
    lemma_selects(mode_word);
    if phase > 0 {
        crate::laws::readings::lemma_read_value(s, 0x01, phase, 0x00);
        crate::laws::readings::lemma_read_value(s, 0x02, phase, 0x00);
    }
    crate::laws::readings::lemma_read_value(s, 0x03, phase, 0x00);
    crate::laws::readings::lemma_read_value(s, 0x04, phase, 0x00);
    crate::laws::readings::lemma_read_value(s, 0x06, phase, 0x00);
}

/// Sampled energies are those that a read of the total gave when the sample was taken: active
/// and reactive ones, and those of the four quadrants.
#[verifier::rlimit(50)]
pub proof fn law_sampled_energies_are_those_read(s: MeterState, mode_word: u8, kind: u8)
    requires
        1 <= kind <= 4,
    ensures
        ({
            let d = sample_of(s, mode_word);
            &&& selects(mode_word, 3) ==> curve_value(0x06, kind, d) == read_energy(
                s,
                kind,
                0x00,
                0x00,
            )
            &&& selects(mode_word, 4) ==> curve_value(0x07, kind, d) == read_energy(
                s,
                (kind + 4) as u8,
                0x00,
                0x00,
            )
            &&& !selects(mode_word, 3) ==> curve_value(0x06, kind, d) is Err
            &&& !selects(mode_word, 4) ==> curve_value(0x07, kind, d) is Err
        }),
{
    lemma_selects(mode_word);
    reveal(decimal_of);
}

proof fn lemma_width(v: Quantity, bytes: nat, decimals: nat)
    requires
        1 <= decimals <= 4,
    ensures
        digits(v, bytes, decimals).len() == bytes,
{
    reveal(scaled);
    lemma_powers();
    law_bcd_write_read(scaled(v, decimals), bytes);
}

/// Sampled demands are those that a read gave when the sample was taken, without their time.
#[verifier::rlimit(50)]
pub proof fn law_sampled_demands_are_those_read(s: MeterState, mode_word: u8)
    ensures
        ({
            let d = sample_of(s, mode_word);
            let active = read_demand(s, 0x01, 0x00, 0x00);
            let reactive = read_demand(s, 0x03, 0x00, 0x00);
            &&& active is Ok
            &&& reactive is Ok
            &&& selects(mode_word, 5) ==> curve_value(0x08, 0x01, d) == Ok::<Seq<u8>, ReadError>(
                piece(active->Ok_0, 0, 3),
            )
            &&& selects(mode_word, 5) ==> curve_value(0x08, 0x02, d) == Ok::<Seq<u8>, ReadError>(
                piece(reactive->Ok_0, 0, 3),
            )
            &&& !selects(mode_word, 5) ==> curve_value(0x08, 0x01, d) is Err && curve_value(
                0x08,
                0x02,
                d,
            ) is Err
        }),
{
    lemma_selects(mode_word);
    let a = s.demand(0, 0, crate::simulation::state::EnergyType::ForwardActive, 0);
    let b = s.demand(0, 0, crate::simulation::state::EnergyType::ForwardReactive, 0);
    lemma_width(a.value, 3, 4);
    lemma_width(b.value, 3, 4);
    assert(piece(read_demand(s, 0x01, 0x00, 0x00)->Ok_0, 0, 3) =~= digits(a.value, 3, 4));
    assert(piece(read_demand(s, 0x03, 0x00, 0x00)->Ok_0, 0, 3) =~= digits(b.value, 3, 4));
}

/// How many bytes a block of a record has: 6 voltages and currents with the frequency, 8 powers,
/// 4 power factors, 4 energies, 4 quadrants and 2 demands.
pub open spec fn block_width(block: int) -> int {
    if block == 0 {
        17
    } else if block == 1 {
        24
    } else if block == 2 {
        8
    } else if block == 3 {
        16
    } else if block == 4 {
        16
    } else {
        6
    }
}

/// The record holds a block.
pub open spec fn holds_block(d: LoadRecordData, block: int) -> bool {
    if block == 0 {
        d.vif is Some
    } else if block == 1 {
        d.pq is Some
    } else if block == 2 {
        d.pf is Some
    } else if block == 3 {
        d.energy is Some
    } else if block == 4 {
        d.quadrant is Some
    } else if block == 5 {
        d.demand is Some
    } else {
        false
    }
}

/// How far a block reaches with its separator. Before a block that is there one stands even
/// where the block before it is missing.
pub open spec fn block_reach(d: LoadRecordData, block: int) -> int {
    if holds_block(d, block) {
        block_width(block) + 1
    } else if holds_block(d, block + 1) {
        1
    } else {
        0
    }
}

/// Where a block begins: behind the time and the blocks before it.
pub open spec fn block_start(d: LoadRecordData, block: int) -> int
    decreases block,
{
    if block <= 0 {
        5
    } else {
        block_start(d, block - 1) + block_reach(d, block - 1)
    }
}

proof fn lemma_block_widths(d: LoadRecordData)
    ensures
        d.vif matches Some(v) ==> vif_bytes(v).len() == 17,
        d.pq matches Some(v) ==> pq_bytes(v).len() == 24,
        d.pf matches Some(v) ==> pf_bytes(v).len() == 8,
        d.energy matches Some(v) ==> energy_block_bytes(v).len() == 16,
        d.quadrant matches Some(v) ==> quadrant_bytes(v).len() == 16,
        d.demand matches Some(v) ==> demand_block_bytes(v).len() == 6,
{
    if let Some(v) = d.vif {
        reveal(vif_bytes);
        lemma_width(v.voltage_a, 2, 1);
        lemma_width(v.voltage_b, 2, 1);
        lemma_width(v.voltage_c, 2, 1);
        lemma_width(v.current_a, 3, 3);
        lemma_width(v.current_b, 3, 3);
        lemma_width(v.current_c, 3, 3);
        lemma_width(v.frequency, 2, 2);
    }
    if let Some(v) = d.pq {
        reveal(pq_bytes);
        lemma_width(v.active_total, 3, 4);
        lemma_width(v.active_a, 3, 4);
        lemma_width(v.active_b, 3, 4);
        lemma_width(v.active_c, 3, 4);
        lemma_width(v.reactive_total, 3, 4);
        lemma_width(v.reactive_a, 3, 4);
        lemma_width(v.reactive_b, 3, 4);
        lemma_width(v.reactive_c, 3, 4);
    }
    if let Some(v) = d.pf {
        reveal(pf_bytes);
        lemma_width(v.total, 2, 3);
        lemma_width(v.a, 2, 3);
        lemma_width(v.b, 2, 3);
        lemma_width(v.c, 2, 3);
    }
    if let Some(v) = d.energy {
        reveal(energy_block_bytes);
        lemma_width(v.forward_active, 4, 2);
        lemma_width(v.reverse_active, 4, 2);
        lemma_width(v.combined_reactive1, 4, 2);
        lemma_width(v.combined_reactive2, 4, 2);
    }
    if let Some(v) = d.quadrant {
        reveal(quadrant_bytes);
        lemma_width(v.q1, 4, 2);
        lemma_width(v.q2, 4, 2);
        lemma_width(v.q3, 4, 2);
        lemma_width(v.q4, 4, 2);
    }
    if let Some(v) = d.demand {
        reveal(demand_block_bytes);
        lemma_width(v.active, 3, 4);
        lemma_width(v.reactive, 3, 4);
    }
}

/// The parts of a concatenation stand behind each other.
proof fn lemma_six_parts(
    t: Seq<u8>,
    a: Seq<u8>,
    b: Seq<u8>,
    c: Seq<u8>,
    d: Seq<u8>,
    e: Seq<u8>,
    f: Seq<u8>,
)
    ensures
        ({
            let all = t + a + b + c + d + e + f;
            let (p0, p1) = (t.len() as int, (t.len() + a.len()) as int);
            let (p2, p3) = (p1 + b.len(), p1 + b.len() + c.len());
            let (p4, p5) = (p3 + d.len(), p3 + d.len() + e.len());
            &&& all.len() == p5 + f.len()
            &&& piece(all, 0, p0) == t
            &&& piece(all, p0, a.len() as int) == a
            &&& piece(all, p1, b.len() as int) == b
            &&& piece(all, p2, c.len() as int) == c
            &&& piece(all, p3, d.len() as int) == d
            &&& piece(all, p4, e.len() as int) == e
            &&& piece(all, p5, f.len() as int) == f
        }),
{
    let all = t + a + b + c + d + e + f;
    let (p0, p1) = (t.len() as int, (t.len() + a.len()) as int);
    let (p2, p3) = (p1 + b.len(), p1 + b.len() + c.len());
    let (p4, p5) = (p3 + d.len(), p3 + d.len() + e.len());
    assert(piece(all, 0, p0) =~= t);
    assert(piece(all, p0, a.len() as int) =~= a);
    assert(piece(all, p1, b.len() as int) =~= b);
    assert(piece(all, p2, c.len() as int) =~= c);
    assert(piece(all, p3, d.len() as int) =~= d);
    assert(piece(all, p4, e.len() as int) =~= e);
    assert(piece(all, p5, f.len() as int) =~= f);
}

proof fn lemma_separated(block: Option<Seq<u8>>, next: bool)
    ensures
        ({
            let part = with_separator(block, next);
            &&& block matches Some(b) ==> part.len() == b.len() + 1 && piece(
                part,
                0,
                b.len() as int,
            ) == b && part.last() == 0xAA
            &&& block is None && next ==> part == seq![0xAAu8]
            &&& block is None && !next ==> part.len() == 0
        }),
{
    reveal(with_separator);
    if let Some(b) = block {
        assert(piece(with_separator(block, next), 0, b.len() as int) =~= b);
    }
}

proof fn lemma_part_of_part(data: Seq<u8>, at: int, bytes: int, inner: int)
    requires
        0 <= at,
        0 <= inner <= bytes,
        at + bytes <= data.len(),
    ensures
        piece(piece(data, at, bytes), 0, inner) == piece(data, at, inner),
{
    assert(piece(piece(data, at, bytes), 0, inner) =~= piece(data, at, inner));
}

/// A record's payload is its time to the minute, the year first, and then its blocks in their
/// order. Each block that is there ends with the separator.
#[verifier::rlimit(50)]
pub proof fn law_blocks_stand_in_order(time: DateTime, d: LoadRecordData)
    ensures
        ({
            let payload = record_payload(time, d);
            &&& payload.len() == block_start(d, 6)
            &&& piece(payload, 0, 5) == year_first_bytes(time.cal())
            &&& d.vif matches Some(v) ==> piece(payload, block_start(d, 0), 17) == vif_bytes(v)
                && payload[block_start(d, 0) + 17] == 0xAA
            &&& d.pq matches Some(v) ==> piece(payload, block_start(d, 1), 24) == pq_bytes(v)
                && payload[block_start(d, 1) + 24] == 0xAA
            &&& d.pf matches Some(v) ==> piece(payload, block_start(d, 2), 8) == pf_bytes(v)
                && payload[block_start(d, 2) + 8] == 0xAA
            &&& d.energy matches Some(v) ==> piece(payload, block_start(d, 3), 16)
                == energy_block_bytes(v) && payload[block_start(d, 3) + 16] == 0xAA
            &&& d.quadrant matches Some(v) ==> piece(payload, block_start(d, 4), 16)
                == quadrant_bytes(v) && payload[block_start(d, 4) + 16] == 0xAA
            &&& d.demand matches Some(v) ==> piece(payload, block_start(d, 5), 6)
                == demand_block_bytes(v) && payload[block_start(d, 5) + 6] == 0xAA
        }),
{
    reveal_with_fuel(block_start, 7);
    lemma_block_widths(d);
    let t = year_first_bytes(time.cal());
    let a = with_separator(crate::simulation::di_handler::load_profile::vif_part(d), d.pq is Some);
    let b = with_separator(crate::simulation::di_handler::load_profile::pq_part(d), d.pf is Some);
    let c = with_separator(
        crate::simulation::di_handler::load_profile::pf_part(d),
        d.energy is Some,
    );
    let e = with_separator(
        crate::simulation::di_handler::load_profile::energy_part(d),
        d.quadrant is Some,
    );
    let f = with_separator(
        crate::simulation::di_handler::load_profile::quadrant_part(d),
        d.demand is Some,
    );
    let g = with_separator(crate::simulation::di_handler::load_profile::demand_part(d), false);
    lemma_separated(crate::simulation::di_handler::load_profile::vif_part(d), d.pq is Some);
    lemma_separated(crate::simulation::di_handler::load_profile::pq_part(d), d.pf is Some);
    lemma_separated(crate::simulation::di_handler::load_profile::pf_part(d), d.energy is Some);
    lemma_separated(
        crate::simulation::di_handler::load_profile::energy_part(d),
        d.quadrant is Some,
    );
    lemma_separated(
        crate::simulation::di_handler::load_profile::quadrant_part(d),
        d.demand is Some,
    );
    lemma_separated(crate::simulation::di_handler::load_profile::demand_part(d), false);
    lemma_six_parts(t, a, b, c, e, f, g);
    let payload = record_payload(time, d);
    assert(payload == t + a + b + c + e + f + g);
    assert(a.len() == block_reach(d, 0));
    assert(b.len() == block_reach(d, 1));
    assert(c.len() == block_reach(d, 2));
    assert(e.len() == block_reach(d, 3));
    assert(f.len() == block_reach(d, 4));
    assert(g.len() == block_reach(d, 5));
    if d.vif is Some {
        lemma_part_of_part(payload, block_start(d, 0), 18, 17);
        assert(piece(payload, block_start(d, 0), 18)[17] == payload[block_start(d, 0) + 17]);
    }
    if d.pq is Some {
        lemma_part_of_part(payload, block_start(d, 1), 25, 24);
        assert(piece(payload, block_start(d, 1), 25)[24] == payload[block_start(d, 1) + 24]);
    }
    if d.pf is Some {
        lemma_part_of_part(payload, block_start(d, 2), 9, 8);
        assert(piece(payload, block_start(d, 2), 9)[8] == payload[block_start(d, 2) + 8]);
    }
    if d.energy is Some {
        lemma_part_of_part(payload, block_start(d, 3), 17, 16);
        assert(piece(payload, block_start(d, 3), 17)[16] == payload[block_start(d, 3) + 16]);
    }
    if d.quadrant is Some {
        lemma_part_of_part(payload, block_start(d, 4), 17, 16);
        assert(piece(payload, block_start(d, 4), 17)[16] == payload[block_start(d, 4) + 16]);
    }
    if d.demand is Some {
        lemma_part_of_part(payload, block_start(d, 5), 7, 6);
        assert(piece(payload, block_start(d, 5), 7)[6] == payload[block_start(d, 5) + 6]);
    }
}

/// A record on the line is A0H twice, the number of bytes that follow, the payload, the sum of
/// all these modulo 256, and E5H.
#[verifier::rlimit(50)]
pub proof fn law_record_on_the_line(time: DateTime, d: LoadRecordData)
    ensures
        ({
            let line = record_block(time, d);
            let n = line.len() as int;
            &&& n == record_payload(time, d).len() + 5
            &&& line[0] == 0xA0
            &&& line[1] == 0xA0
            &&& line[2] == n - 3
            &&& piece(line, 3, n - 5) == record_payload(time, d)
            &&& line[n - 2] == sum_of(line.take(n - 2)) % 256
            &&& line[n - 1] == 0xE5
        }),
{
    lemma_payload_length(time, d);
    lemma_block_line(record_payload(time, d));
}

proof fn lemma_payload_length(time: DateTime, d: LoadRecordData)
    ensures
        record_payload(time, d).len() <= 98,
{
    law_blocks_stand_in_order(time, d);
    reveal_with_fuel(block_start, 7);
}

proof fn lemma_block_line(payload: Seq<u8>)
    requires
        payload.len() <= 98,
    ensures
        ({
            let line = block_of(payload);
            let n = line.len() as int;
            &&& n == payload.len() + 5
            &&& line[0] == 0xA0
            &&& line[1] == 0xA0
            &&& line[2] == n - 3
            &&& piece(line, 3, n - 5) == payload
            &&& line[n - 2] == sum_of(line.take(n - 2)) % 256
            &&& line[n - 1] == 0xE5
        }),
{
    let head = block_head(payload);
    let line = block_of(payload);
    let n = line.len() as int;
    assert(line.take(n - 2) =~= head);
    lemma_sum_of(head);
    assert(piece(line, 3, n - 5) =~= payload);
}

/// The year, month, day, hour and minute at the beginning of a record name its minute.
#[verifier::rlimit(50)]
pub proof fn law_record_time(time: DateTime, d: LoadRecordData)
    requires
        in_century(time),
    ensures
        ({
            let b = piece(record_payload(time, d), 0, 5);
            &&& all_decimal(b)
            &&& named_moment(b).valid()
            &&& named_moment(b).seconds() <= time.secs() < named_moment(b).seconds() + 60
        }),
{
    law_blocks_stand_in_order(time, d);
    let c = time.cal();
    time.lemma_valid();
    lemma_calendar_of(time.secs());
    reveal(days_in_month);
    reveal(year_byte);
    lemma_byte_digits(c.minute as u8);
    lemma_byte_digits(c.hour as u8);
    lemma_byte_digits(c.day as u8);
    lemma_byte_digits(c.month as u8);
    lemma_byte_digits(year_byte(c.year as int));
    let b = year_first_bytes(c);
    assert(named_moment(b) == (Calendar { second: 0, ..c }));
    reveal(Calendar::seconds);
}

/// The blocks of a record hold the values of the curves in their order: voltages and currents of
/// the phases and the frequency; active and reactive powers; power factors; energies; quadrants;
/// demands.
#[verifier::rlimit(50)]
pub proof fn law_blocks_hold_the_curves(d: LoadRecordData, k: u8)
    requires
        k <= 3,
    ensures
        d.vif matches Some(v) ==> {
            &&& k > 0 ==> curve_value(0x01, k, d) == Ok::<Seq<u8>, ReadError>(
                piece(vif_bytes(v), 2 * (k - 1), 2),
            )
            &&& k > 0 ==> curve_value(0x02, k, d) == Ok::<Seq<u8>, ReadError>(
                piece(vif_bytes(v), 6 + 3 * (k - 1), 3),
            )
            &&& v.frequency < 99_990_000_000 ==> shows(
                piece(vif_bytes(v), 15, 2),
                v.frequency,
                2,
                10_000_000,
            )
        },
        d.pq matches Some(v) ==> {
            &&& curve_value(0x03, k, d) == Ok::<Seq<u8>, ReadError>(
                piece(pq_bytes(v), 3 * k as int, 3),
            )
            &&& curve_value(0x04, k, d) == Ok::<Seq<u8>, ReadError>(
                piece(pq_bytes(v), 12 + 3 * k as int, 3),
            )
        },
        d.pf matches Some(v) ==> curve_value(0x05, k, d) == Ok::<Seq<u8>, ReadError>(
            piece(pf_bytes(v), 2 * k as int, 2),
        ),
        d.energy matches Some(v) ==> curve_value(0x06, (k + 1) as u8, d) == Ok::<
            Seq<u8>,
            ReadError,
        >(piece(energy_block_bytes(v), 4 * k as int, 4)),
        d.quadrant matches Some(v) ==> curve_value(0x07, (k + 1) as u8, d) == Ok::<
            Seq<u8>,
            ReadError,
        >(piece(quadrant_bytes(v), 4 * k as int, 4)),
        d.demand matches Some(v) ==> (k < 2 ==> curve_value(0x08, (k + 1) as u8, d) == Ok::<
            Seq<u8>,
            ReadError,
        >(piece(demand_block_bytes(v), 3 * k as int, 3))),
{
    lemma_vif_pieces(d, k);
    lemma_pq_pieces(d, k);
    lemma_short_pieces(d, k);
    lemma_energy_pieces(d, k);
}

proof fn lemma_vif_pieces(d: LoadRecordData, k: u8)
    requires
        k <= 3,
    ensures
        d.vif matches Some(v) ==> {
            &&& k > 0 ==> curve_value(0x01, k, d) == Ok::<Seq<u8>, ReadError>(
                piece(vif_bytes(v), 2 * (k - 1), 2),
            )
            &&& k > 0 ==> curve_value(0x02, k, d) == Ok::<Seq<u8>, ReadError>(
                piece(vif_bytes(v), 6 + 3 * (k - 1), 3),
            )
            &&& v.frequency < 99_990_000_000 ==> shows(
                piece(vif_bytes(v), 15, 2),
                v.frequency,
                2,
                10_000_000,
            )
        },
{
    if let Some(v) = d.vif {
        reveal(vif_bytes);
        lemma_width(v.voltage_a, 2, 1);
        lemma_width(v.voltage_b, 2, 1);
        lemma_width(v.voltage_c, 2, 1);
        lemma_width(v.current_a, 3, 3);
        lemma_width(v.current_b, 3, 3);
        lemma_width(v.current_c, 3, 3);
        lemma_width(v.frequency, 2, 2);
        let b = vif_bytes(v);
        if k > 0 {
            assert(piece(b, 2 * (k - 1), 2) =~= curve_value(0x01, k, d)->Ok_0);
            assert(piece(b, 6 + 3 * (k - 1), 3) =~= curve_value(0x02, k, d)->Ok_0);
        }
        if v.frequency < 99_990_000_000 {
            lemma_hundredths_show(v.frequency);
            assert(piece(b, 15, 2) =~= digits(v.frequency, 2, 2));
        }
    }
}

proof fn lemma_pq_pieces(d: LoadRecordData, k: u8)
    requires
        k <= 3,
    ensures
        d.pq matches Some(v) ==> {
            &&& curve_value(0x03, k, d) == Ok::<Seq<u8>, ReadError>(
                piece(pq_bytes(v), 3 * k as int, 3),
            )
            &&& curve_value(0x04, k, d) == Ok::<Seq<u8>, ReadError>(
                piece(pq_bytes(v), 12 + 3 * k as int, 3),
            )
        },
{
    if let Some(v) = d.pq {
        reveal(pq_bytes);
        lemma_width(v.active_total, 3, 4);
        lemma_width(v.active_a, 3, 4);
        lemma_width(v.active_b, 3, 4);
        lemma_width(v.active_c, 3, 4);
        lemma_width(v.reactive_total, 3, 4);
        lemma_width(v.reactive_a, 3, 4);
        lemma_width(v.reactive_b, 3, 4);
        lemma_width(v.reactive_c, 3, 4);
        let b = pq_bytes(v);
        assert(piece(b, 3 * k as int, 3) =~= curve_value(0x03, k, d)->Ok_0);
        assert(piece(b, 12 + 3 * k as int, 3) =~= curve_value(0x04, k, d)->Ok_0);
    }
}

proof fn lemma_short_pieces(d: LoadRecordData, k: u8)
    requires
        k <= 3,
    ensures
        d.pf matches Some(v) ==> curve_value(0x05, k, d) == Ok::<Seq<u8>, ReadError>(
            piece(pf_bytes(v), 2 * k as int, 2),
        ),
        d.demand matches Some(v) ==> (k < 2 ==> curve_value(0x08, (k + 1) as u8, d) == Ok::<
            Seq<u8>,
            ReadError,
        >(piece(demand_block_bytes(v), 3 * k as int, 3))),
{
    if let Some(v) = d.pf {
        reveal(pf_bytes);
        lemma_width(v.total, 2, 3);
        lemma_width(v.a, 2, 3);
        lemma_width(v.b, 2, 3);
        lemma_width(v.c, 2, 3);
        assert(piece(pf_bytes(v), 2 * k as int, 2) =~= curve_value(0x05, k, d)->Ok_0);
    }
    if let Some(v) = d.demand {
        reveal(demand_block_bytes);
        lemma_width(v.active, 3, 4);
        lemma_width(v.reactive, 3, 4);
        if k < 2 {
            assert(piece(demand_block_bytes(v), 3 * k as int, 3) =~= curve_value(
                0x08,
                (k + 1) as u8,
                d,
            )->Ok_0);
        }
    }
}

proof fn lemma_energy_pieces(d: LoadRecordData, k: u8)
    requires
        k <= 3,
    ensures
        d.energy matches Some(v) ==> curve_value(0x06, (k + 1) as u8, d) == Ok::<
            Seq<u8>,
            ReadError,
        >(piece(energy_block_bytes(v), 4 * k as int, 4)),
        d.quadrant matches Some(v) ==> curve_value(0x07, (k + 1) as u8, d) == Ok::<
            Seq<u8>,
            ReadError,
        >(piece(quadrant_bytes(v), 4 * k as int, 4)),
{
    if let Some(v) = d.energy {
        reveal(energy_block_bytes);
        lemma_width(v.forward_active, 4, 2);
        lemma_width(v.reverse_active, 4, 2);
        lemma_width(v.combined_reactive1, 4, 2);
        lemma_width(v.combined_reactive2, 4, 2);
        assert(piece(energy_block_bytes(v), 4 * k as int, 4) =~= curve_value(
            0x06,
            (k + 1) as u8,
            d,
        )->Ok_0);
    }
    if let Some(v) = d.quadrant {
        reveal(quadrant_bytes);
        lemma_width(v.q1, 4, 2);
        lemma_width(v.q2, 4, 2);
        lemma_width(v.q3, 4, 2);
        lemma_width(v.q4, 4, 2);
        assert(piece(quadrant_bytes(v), 4 * k as int, 4) =~= curve_value(
            0x07,
            (k + 1) as u8,
            d,
        )->Ok_0);
    }
}

/// Every record has the value of a curve, in the same number of bytes.
pub open spec fn curve_runs(rows: Seq<LoadRecordSample>, di1: u8, di0: u8, bytes: nat) -> bool {
    forall|i: int|
        0 <= i < rows.len() ==> curve_value(di1, di0, (#[trigger] rows[i]).data) is Ok
            && curve_value(di1, di0, rows[i].data)->Ok_0.len() == bytes
}

proof fn lemma_curve_points(
    rows: Seq<LoadRecordSample>,
    di1: u8,
    di0: u8,
    bytes: nat,
    k: int,
)
    requires
        curve_runs(rows, di1, di0, bytes),
        0 <= k < rows.len(),
    ensures
        curve_points(di1, di0, rows) is Ok,
        curve_points(di1, di0, rows)->Ok_0.len() == rows.len() * (6 + bytes),
        0 <= k * (6 + bytes) <= (rows.len() - 1) * (6 + bytes),
        piece(curve_points(di1, di0, rows)->Ok_0, k * (6 + bytes), 6) == clock_bytes(
            rows[k].sample_time.cal(),
        ),
        piece(curve_points(di1, di0, rows)->Ok_0, k * (6 + bytes) + 6, bytes as int)
            == curve_value(di1, di0, rows[k].data)->Ok_0,
    decreases rows.len(),
{
    let w = 6 + bytes;
    let n = rows.len() as int;
    let before = rows.drop_last();
    assert forall|i: int| 0 <= i < before.len() implies curve_value(
        di1,
        di0,
        (#[trigger] before[i]).data,
    ) is Ok && curve_value(di1, di0, before[i].data)->Ok_0.len() == bytes by {
        assert(before[i] == rows[i]);
    }
    assert(n * w == (n - 1) * w + w) by (nonlinear_arith);
    assert(0 <= k * w <= (n - 1) * w) by (nonlinear_arith)
        requires
            0 <= k <= n - 1,
            0 <= w,
    ;
    assert(rows.last() == rows[n - 1]);
    let last = curve_value(di1, di0, rows.last().data)->Ok_0;
    if n > 1 {
        lemma_curve_points(
            before,
            di1,
            di0,
            bytes,
            if k < n - 1 {
                k
            } else {
                0
            },
        );
    } else {
        assert(before.len() == 0);
        assert(curve_points(di1, di0, before) == Ok::<Seq<u8>, ReadError>(seq![]));
        assert((n - 1) * w == 0) by (nonlinear_arith)
            requires
                n == 1,
        ;
    }
    let points = curve_points(di1, di0, rows)->Ok_0;
    let earlier = curve_points(di1, di0, before)->Ok_0;
    assert(earlier.len() == (n - 1) * w);
    assert(points == earlier + clock_bytes(rows.last().sample_time.cal()) + last);
    if k < n - 1 {
        assert(k * w + w <= (n - 1) * w) by (nonlinear_arith)
            requires
                k + 1 <= n - 1,
                0 <= w,
        ;
        assert(piece(points, k * w, 6) =~= piece(earlier, k * w, 6));
        assert(piece(points, k * w + 6, bytes as int) =~= piece(
            earlier,
            k * w + 6,
            bytes as int,
        ));
    } else {
        assert(piece(points, k * w, 6) =~= clock_bytes(rows[k].sample_time.cal()));
        assert(piece(points, k * w + 6, bytes as int) =~= last);
    }
}

/// A curve begins with the number of its points, the time of the first and the identifier. Each
/// point is the time of its record and the record's value.
#[verifier::rlimit(50)]
pub proof fn law_curve_on_the_line(
    rows: Seq<LoadRecordSample>,
    di1: u8,
    di0: u8,
    bytes: nat,
    k: int,
)
    requires
        curve_runs(rows, di1, di0, bytes),
        0 <= k < rows.len() <= 255,
        in_century(rows[0].sample_time),
        in_century(rows[k].sample_time),
    ensures
        ({
            let r = curve_bytes(di1, di0, rows);
            let data = r->Ok_0;
            &&& r is Ok
            &&& data.len() == 11 + rows.len() * (6 + bytes)
            &&& data[0] == rows.len()
            &&& tells_second(piece(data, 1, 6), rows[0].sample_time)
            &&& piece(data, 7, 4) == seq![di0, di1, 0x10u8, 0x06u8]
            &&& tells_second(piece(data, 11 + k * (6 + bytes), 6), rows[k].sample_time)
            &&& curve_value(di1, di0, rows[k].data) == Ok::<Seq<u8>, ReadError>(
                piece(data, 17 + k * (6 + bytes), bytes as int),
            )
        }),
{
    lemma_curve_points(rows, di1, di0, bytes, k);
    lemma_times_tell(rows[0].sample_time);
    lemma_times_tell(rows[k].sample_time);
    let points = curve_points(di1, di0, rows)->Ok_0;
    let data = curve_bytes(di1, di0, rows)->Ok_0;
    let w = 6 + bytes;
    assert(rows.len() * w == (rows.len() - 1) * w + w) by (nonlinear_arith);
    assert(piece(data, 1, 6) =~= clock_bytes(rows[0].sample_time.cal()));
    assert(piece(data, 7, 4) =~= seq![di0, di1, 0x10u8, 0x06u8]);
    assert(piece(data, 11 + k * w, 6) =~= piece(points, k * w, 6));
    assert(piece(data, 17 + k * w, bytes as int) =~= piece(points, k * w + 6, bytes as int));
}

/// A curve is asked for from the minute that the first five bytes name to the one that the
/// other five name. It is refused exactly when these are not ten bytes of digits that name two
/// minutes, or when all channels are asked for.
#[verifier::rlimit(50)]
pub proof fn law_curve_query(di: Seq<u8>, rest: Seq<u8>)
    requires
        di.len() == 4,
        di[2] == 0x10,
    ensures
        query_error(di, rest) is None <==> {
            &&& rest.len() == 10
            &&& all_decimal(rest)
            &&& minute_named(rest.take(5)).valid()
            &&& minute_named(rest.skip(5)).valid()
            &&& di[0] != 0xFF
        },
        forall|q: RecordQuery| #[trigger]
            query_means(di, rest, q) && query_error(di, rest) is None ==> (
            q matches RecordQuery::Curve { start, end, max_records } && start.cal()
                == minute_named(rest.take(5)) && end.cal() == minute_named(rest.skip(5))
                && start.subsec_nanos() == 0 && end.subsec_nanos() == 0 && max_records == 100),
{
    reveal(is_bcd);
    reveal(bcd_byte_value);
    if rest.len() == 10 {
        let (a, b) = (rest.take(5), rest.skip(5));
        assert(all_decimal(rest) <==> all_decimal(a) && all_decimal(b)) by {
            if all_decimal(a) && all_decimal(b) {
                assert forall|i: int| 0 <= i < 10 implies (#[trigger] rest[i]) as int / 16 < 10
                    && rest[i] as int % 16 < 10 by {
                    if i < 5 {
                        assert(a[i] == rest[i]);
                    } else {
                        assert(b[i - 5] == rest[i]);
                    }
                }
            }
            if all_decimal(rest) {
                assert forall|i: int| 0 <= i < 5 implies (#[trigger] a[i]) as int / 16 < 10
                    && a[i] as int % 16 < 10 by {
                    assert(a[i] == rest[i]);
                }
                assert forall|i: int| 0 <= i < 5 implies (#[trigger] b[i]) as int / 16 < 10
                    && b[i] as int % 16 < 10 by {
                    assert(b[i] == rest[i + 5]);
                }
            }
        }
        lemma_minute_first(a);
        lemma_minute_first(b);
    }
}

proof fn lemma_minute_first(b: Seq<u8>)
    requires
        b.len() == 5,
    ensures
        bad_digits(b) is None <==> all_decimal(b),
        all_decimal(b) ==> minute_first_fields(b) == minute_named(b),
{
    reveal(is_bcd);
    reveal(bcd_byte_value);
    if all_decimal(b) {
        assert(b[0] as int / 16 < 10 && b[1] as int / 16 < 10 && b[2] as int / 16 < 10
            && b[3] as int / 16 < 10 && b[4] as int / 16 < 10);
    }
    if bad_digits(b) is None {
        assert forall|i: int| 0 <= i < 5 implies (#[trigger] b[i]) as int / 16 < 10 && b[i] as int
            % 16 < 10 by {
            assert(i == 0 || i == 1 || i == 2 || i == 3 || i == 4);
        }
    }
}

/// A single record is asked for by its class, 1 to 6: the first, the last, or the one nearest to
/// the minute that five bytes name, the year first.
#[verifier::rlimit(50)]
pub proof fn law_record_query(di: Seq<u8>, rest: Seq<u8>)
    requires
        di.len() == 4,
        di[2] != 0x10,
    ensures
        query_error(di, rest) is None <==> {
            &&& 1 <= di[2] <= 6
            &&& di[1] == 0x00
            &&& di[0] <= 2
            &&& di[0] == 1 ==> rest.len() >= 5 && named_moment(rest).valid()
        },
        forall|q: RecordQuery| #[trigger]
            query_means(di, rest, q) && query_error(di, rest) is None ==> {
                &&& di[0] == 0 ==> q == (RecordQuery::Earliest { class_id: di[2] })
                &&& di[0] == 2 ==> q == (RecordQuery::Latest { class_id: di[2] })
                &&& di[0] == 1 ==> (q matches RecordQuery::AtTime { class_id, time } && class_id
                    == di[2] && time.cal() == named_moment(rest) && time.subsec_nanos() == 0)
            },
{
    reveal(decimal_of);
}

/// When the clock was put back behind the last sample of a class, that class is not sampled now
/// and forgets the sample; the next one comes when a period begins.
#[verifier::rlimit(50)]
pub proof fn law_clock_put_back(
    s0: MeterState,
    s1: MeterState,
    samples: Seq<LoadRecordSample>,
    class: int,
    last: DateTime,
)
    requires
        sampling_done(s0, s1, samples),
        sampling_on(s0),
        0 <= class < 6,
        s0.load_record_config.intervals@[class] > 0,
        s0.load_profile_state.last_sample_times@[class] == Some(last),
        s0.virtual_time.total_nanos() < last.total_nanos(),
    ensures
        !has_class(samples, class + 1),
        s1.load_profile_state.last_sample_times@[class] is None,
        recent_of(s1, class) == recent_of(s0, class),
{
    lemma_samples_due(s0, 6, class);
    assert(!class_due(s0, class));
    assert(recent_of(s1, class) == crate::simulation::schedule::recent_after(s0, class));
    assert(s1.load_profile_state.last_sample_times@[class]
        == crate::simulation::schedule::last_sample_after(s0, class));
}

} // verus!
