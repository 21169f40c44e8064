//! What energies read, told from what was put into the registers.

use crate::laws::digits::{lemma_energy_shows, piece, shows, two_digits};
use crate::protocol::format::law_bcd_write_read;
use crate::quantity::{clamped, scaled, Quantity};
use crate::simulation::di_handler::encoding::{decimal_of, energy_bytes};
use crate::simulation::di_handler::energy::{energy_item, slots_in_turn, total_and_rates};
use crate::simulation::di_handler::memory_read;
use crate::simulation::di_handler::read_error::ReadError;
use crate::simulation::state::{
    energy_key, rate_number, settlement_key, EnergyType, MeterState,
};
use vstd::prelude::*;

verus! {

/// The third identifier byte under which a kind of energy is read.
pub open spec fn kind_byte(t: EnergyType) -> u8 {
    if t == EnergyType::CombinedActive {
        0x00
    } else if t == EnergyType::ForwardActive {
        0x01
    } else if t == EnergyType::ReverseActive {
        0x02
    } else if t == EnergyType::ForwardReactive {
        0x03
    } else if t == EnergyType::ReverseReactive {
        0x04
    } else if t == EnergyType::Quadrant1Reactive {
        0x05
    } else if t == EnergyType::Quadrant2Reactive {
        0x06
    } else if t == EnergyType::Quadrant3Reactive {
        0x07
    } else if t == EnergyType::Quadrant4Reactive {
        0x08
    } else if t == EnergyType::ForwardApparent {
        0x09
    } else {
        0x0A
    }
}

/// What an energy identifier reads: kind, rate and settlement slot.
pub open spec fn read_energy(s: MeterState, kind: u8, rate: u8, slot: u8) -> Result<
    Seq<u8>,
    ReadError,
> {
    memory_read(seq![slot, rate, kind, 0x00u8], s)
}

/// A read gives the digits of an energy to the nearest hundredth.
pub open spec fn reads_energy(r: Result<Seq<u8>, ReadError>, v: Quantity) -> bool {
    r matches Ok(data) && shows(data, v, 4, 10_000_000)
}

/// An energy register was set, and nothing else changed.
pub open spec fn energy_set(
    s0: MeterState,
    s1: MeterState,
    t: EnergyType,
    rate: Option<u8>,
    v: Quantity,
) -> bool {
    &&& s1.energy_registers@ == s0.energy_registers@.insert(energy_key(t, rate_number(rate)), v)
    &&& s1 == (MeterState { energy_registers: s1.energy_registers, ..s0 })
}

/// A settled energy was set, and nothing else changed.
pub open spec fn settled_energy_set(
    s0: MeterState,
    s1: MeterState,
    slot: u8,
    t: EnergyType,
    rate: Option<u8>,
    v: Quantity,
) -> bool {
    &&& s1.settlement_energies@ == s0.settlement_energies@.insert(
        settlement_key(slot, t, rate_number(rate)),
        v,
    )
    &&& s1 == (MeterState { settlement_energies: s1.settlement_energies, ..s0 })
}

/// Once the energy of a rate is set, reading that rate of that kind in the present period gives
/// its digits, whatever the other registers hold. The identifier names the rate in digits.
#[verifier::rlimit(50)]
pub proof fn law_rate_energy_reads_as_set(
    s0: MeterState,
    s1: MeterState,
    t: EnergyType,
    n: u8,
    v: Quantity,
    di1: u8,
)
    requires
        t != EnergyType::CombinedActive,
        energy_set(s0, s1, t, Some(n), v),
        0x01 <= di1 <= 0x3F,
        two_digits(di1) == n,
        1 <= n <= s0.num_rates,
        v < 999_999_990_000_000,
    ensures
        reads_energy(read_energy(s1, kind_byte(t), di1, 0x00), v),
{
    reveal(decimal_of);
    lemma_energy_shows(v);
}

/// Once the total of a kind is set, reading it gives its digits.
#[verifier::rlimit(50)]
pub proof fn law_total_energy_reads_as_set(
    s0: MeterState,
    s1: MeterState,
    t: EnergyType,
    v: Quantity,
)
    requires
        t != EnergyType::CombinedActive,
        energy_set(s0, s1, t, None, v),
        v < 999_999_990_000_000,
    ensures
        reads_energy(read_energy(s1, kind_byte(t), 0x00, 0x00), v),
        t == EnergyType::ForwardActive ==> reads_energy(read_energy(s1, 0x80, 0x00, 0x00), v),
{
    reveal(decimal_of);
    lemma_energy_shows(v);
}

/// Setting one register changes no read of another kind or of another rate.
#[verifier::rlimit(50)]
pub proof fn law_other_energies_read_as_before(
    s0: MeterState,
    s1: MeterState,
    t: EnergyType,
    n: u8,
    v: Quantity,
    u: EnergyType,
    di1: u8,
)
    requires
        energy_set(s0, s1, t, Some(n), v),
        u != EnergyType::CombinedActive || (t != EnergyType::ForwardActive && t
            != EnergyType::ReverseActive) || two_digits(di1) != n,
        di1 <= 0x3F,
        u != t || two_digits(di1) != n,
    ensures
        read_energy(s1, kind_byte(u), di1, 0x00) == read_energy(s0, kind_byte(u), di1, 0x00),
{
    reveal(decimal_of);
}

/// Once a settled energy is set, reading it from its slot gives its digits, and setting it
/// changes nothing of the present period.
#[verifier::rlimit(50)]
pub proof fn law_settled_energy_reads_as_set(
    s0: MeterState,
    s1: MeterState,
    slot: u8,
    t: EnergyType,
    n: u8,
    v: Quantity,
    di1: u8,
    di0: u8,
    u: EnergyType,
)
    requires
        t != EnergyType::CombinedActive,
        settled_energy_set(s0, s1, slot, t, Some(n), v),
        di1 <= 0x3F,
        two_digits(di1) == n,
        n <= s0.num_rates,
        two_digits(di0) == slot,
        1 <= slot <= 12,
        v < 999_999_990_000_000,
    ensures
        reads_energy(read_energy(s1, kind_byte(t), di1, di0), v),
        read_energy(s1, kind_byte(u), di1, 0x00) == read_energy(s0, kind_byte(u), di1, 0x00),
{
    reveal(decimal_of);
    lemma_energy_shows(v);
}

/// Setting a settled energy changes no read of another slot, kind or rate.
#[verifier::rlimit(50)]
pub proof fn law_other_settled_energies_read_as_before(
    s0: MeterState,
    s1: MeterState,
    slot: u8,
    t: EnergyType,
    n: u8,
    v: Quantity,
    u: EnergyType,
    di1: u8,
    di0: u8,
)
    requires
        settled_energy_set(s0, s1, slot, t, Some(n), v),
        u != EnergyType::CombinedActive,
        di1 <= 0x3F,
        di0 != 0xFF,
        two_digits(di0) != slot || u != t || two_digits(di1) != n,
    ensures
        read_energy(s1, kind_byte(u), di1, di0) == read_energy(s0, kind_byte(u), di1, di0),
{
    reveal(decimal_of);
}

/// Energy that is added to a rate is read on top of what the rate had.
#[verifier::rlimit(50)]
pub proof fn law_added_energy_reads_as_the_sum(
    s0: MeterState,
    s1: MeterState,
    t: EnergyType,
    n: u8,
    delta: Quantity,
    di1: u8,
)
    requires
        t != EnergyType::CombinedActive,
        s1.energy_registers@ == s0.energy_registers@.insert(
            energy_key(t, rate_number(Some(n))),
            clamped(s0.energy(t, rate_number(Some(n))) + delta),
        ),
        s1 == (MeterState { energy_registers: s1.energy_registers, ..s0 }),
        0x01 <= di1 <= 0x3F,
        two_digits(di1) == n,
        1 <= n <= s0.num_rates,
        0 <= s0.energy(t, n) + delta < 999_999_990_000_000,
    ensures
        reads_energy(
            read_energy(s1, kind_byte(t), di1, 0x00),
            (s0.energy(t, n) + delta) as Quantity,
        ),
{
    let v = (s0.energy(t, n) + delta) as Quantity;
    assert(energy_set(s0, s1, t, Some(n), v));
    law_rate_energy_reads_as_set(s0, s1, t, n, v, di1);
}

/// Combined active energy is forward less reverse active energy, for the total and every rate.
#[verifier::rlimit(50)]
pub proof fn law_combined_energy_reads_the_difference(s: MeterState, n: u8, di1: u8)
    requires
        di1 <= 0x3F,
        two_digits(di1) == n,
        n <= s.num_rates,
        s.energy(EnergyType::ForwardActive, n) - s.energy(EnergyType::ReverseActive, n)
            < 999_999_990_000_000,
    ensures
        s.energy(EnergyType::ForwardActive, n) >= s.energy(EnergyType::ReverseActive, n)
            ==> reads_energy(
            read_energy(s, 0x00, di1, 0x00),
            (s.energy(EnergyType::ForwardActive, n) - s.energy(
                EnergyType::ReverseActive,
                n,
            )) as i64,
        ),
        s.energy(EnergyType::ForwardActive, n) <= s.energy(EnergyType::ReverseActive, n)
            ==> reads_energy(read_energy(s, 0x00, di1, 0x00), 0),
{
    reveal(decimal_of);
    let v = crate::quantity::clamped(
        s.energy(EnergyType::ForwardActive, n) - s.energy(EnergyType::ReverseActive, n),
    );
    lemma_energy_shows(v);
}

proof fn lemma_energy_length(v: Quantity)
    ensures
        energy_bytes(v).len() == 4,
{
    reveal(scaled);
    crate::laws::digits::lemma_powers();
    law_bcd_write_read(scaled(v, 2), 4);
}

proof fn lemma_block_pieces(s: MeterState, t: EnergyType, slot: u8, n: nat, k: nat)
    requires
        k <= n <= 255,
    ensures
        total_and_rates(s, t, slot, n).len() == 4 * (n + 1),
        piece(total_and_rates(s, t, slot, n), 4 * k as int, 4) == energy_bytes(
            s.settled_energy(slot, t, k as u8),
        ),
    decreases n,
{
    let block = total_and_rates(s, t, slot, n);
    lemma_energy_length(s.settled_energy(slot, t, n as u8));
    if n > 0 {
        let before = total_and_rates(s, t, slot, (n - 1) as nat);
        if k < n {
            lemma_block_pieces(s, t, slot, (n - 1) as nat, k);
            assert(piece(block, 4 * k as int, 4) =~= piece(before, 4 * k as int, 4));
        } else {
            lemma_block_pieces(s, t, slot, (n - 1) as nat, 0);
            assert(piece(block, 4 * k as int, 4) =~= energy_bytes(
                s.settled_energy(slot, t, n as u8),
            ));
        }
    } else {
        assert(piece(block, 0, 4) =~= block);
    }
}

/// The block read of a kind is the total and the rates in their order: every single read is its
/// four-byte piece.
#[verifier::rlimit(50)]
pub proof fn law_block_holds_the_single_reads(s: MeterState, t: EnergyType, di1: u8, slot: u8)
    requires
        di1 <= 0x3F,
        two_digits(di1) <= s.num_rates,
        slot != 0xFF,
        two_digits(slot) <= 12,
    ensures
        ({
            let block = read_energy(s, kind_byte(t), 0xFF, slot);
            let single = read_energy(s, kind_byte(t), di1, slot);
            &&& block is Ok
            &&& single is Ok
            &&& block->Ok_0.len() == 4 * (s.num_rates + 1)
            &&& single->Ok_0 == piece(block->Ok_0, 4 * two_digits(di1), 4)
        }),
{
    reveal(decimal_of);
    lemma_block_pieces(
        s,
        t,
        two_digits(slot) as u8,
        s.num_rates as nat,
        two_digits(di1) as nat,
    );
}

proof fn lemma_slot_pieces(s: MeterState, t: EnergyType, di1: u8, n: nat, k: nat, bytes: nat)
    requires
        k < n <= 13,
        forall|i: u8| i < 13 ==> (#[trigger] energy_item(s, t, di1, i)) is Ok,
        forall|i: u8| i < 13 ==> (#[trigger] energy_item(s, t, di1, i))->Ok_0.len() == bytes,
    ensures
        slots_in_turn(s, t, di1, n).len() == n * bytes,
        piece(slots_in_turn(s, t, di1, n), (k * bytes) as int, bytes as int) == energy_item(
            s,
            t,
            di1,
            k as u8,
        )->Ok_0,
    decreases n,
{
    let all = slots_in_turn(s, t, di1, n);
    let before = slots_in_turn(s, t, di1, (n - 1) as nat);
    let last = energy_item(s, t, di1, (n - 1) as u8)->Ok_0;
    assert(last.len() == bytes);
    assert(n * bytes == (n - 1) * bytes + bytes) by (nonlinear_arith);
    if n > 1 {
        if k < n - 1 {
            lemma_slot_pieces(s, t, di1, (n - 1) as nat, k, bytes);
            assert(k * bytes + bytes <= (n - 1) * bytes) by (nonlinear_arith)
                requires
                    k + 1 <= n - 1,
            ;
            assert(0 <= k * bytes) by (nonlinear_arith);
            assert(piece(all, (k * bytes) as int, bytes as int) =~= piece(
                before,
                (k * bytes) as int,
                bytes as int,
            ));
        } else {
            lemma_slot_pieces(s, t, di1, (n - 1) as nat, 0, bytes);
            assert(piece(all, (k * bytes) as int, bytes as int) =~= last);
        }
    } else {
        assert(before =~= seq![]);
        assert(0 * bytes == 0) by (nonlinear_arith);
        assert(piece(all, 0, bytes as int) =~= last);
    }
}

/// A read of all settlement slots is the present period and the twelve last ones in their
/// order: every read of one slot is its piece.
#[verifier::rlimit(50)]
pub proof fn law_all_slots_hold_the_single_slots(s: MeterState, t: EnergyType, di1: u8, slot: u8)
    requires
        di1 <= 0x3F || di1 == 0xFF,
        di1 <= 0x3F ==> two_digits(di1) <= s.num_rates,
        slot != 0xFF,
        two_digits(slot) <= 12,
    ensures
        ({
            let all = read_energy(s, kind_byte(t), di1, 0xFF);
            let single = read_energy(s, kind_byte(t), di1, slot);
            let bytes = if di1 == 0xFF {
                4 * (s.num_rates + 1)
            } else {
                4int
            };
            &&& all is Ok
            &&& single is Ok
            &&& all->Ok_0.len() == 13 * bytes
            &&& single->Ok_0 == piece(all->Ok_0, two_digits(slot) * bytes, bytes)
        }),
{
    reveal(decimal_of);
    let bytes: nat = if di1 == 0xFF {
        (4 * (s.num_rates + 1)) as nat
    } else {
        4
    };
    assert forall|i: u8| i < 13 implies (#[trigger] energy_item(s, t, di1, i)) is Ok
        && energy_item(s, t, di1, i)->Ok_0.len() == bytes by {
        if di1 == 0xFF {
            lemma_block_pieces(s, t, i, s.num_rates as nat, 0);
        } else {
            lemma_energy_length(s.settled_energy(i, t, two_digits(di1) as u8));
        }
    }
    lemma_slot_pieces(s, t, di1, 13, two_digits(slot) as nat, bytes);
}

/// A rate that the meter does not have is refused.
#[verifier::rlimit(50)]
pub proof fn law_missing_rate_is_refused(s: MeterState, t: EnergyType, di1: u8, slot: u8)
    requires
        0x01 <= di1 <= 0x3F,
        two_digits(di1) > s.num_rates,
        slot != 0xFF,
        two_digits(slot) <= 12,
    ensures
        read_energy(s, kind_byte(t), di1, slot) == Err::<Seq<u8>, ReadError>(
            ReadError::RateOutOfRange { rate: two_digits(di1) as u8, configured: s.num_rates },
        ),
{
    reveal(decimal_of);
}

/// There are twelve settlement slots: what names another one is refused.
#[verifier::rlimit(50)]
pub proof fn law_missing_slot_is_refused(s: MeterState, kind: u8, di1: u8, slot: u8)
    requires
        slot != 0xFF,
        two_digits(slot) > 12,
    ensures
        read_energy(s, kind, di1, slot) is Err,
{
    reveal(decimal_of);
}

/// The forward active energy of each phase reads as it is held.
#[verifier::rlimit(50)]
pub proof fn law_phase_energy_reads_as_held(s: MeterState, phase: u8)
    requires
        1 <= phase <= 3,
        s.phase_forward_active@[phase - 1] < 999_999_990_000_000,
    ensures
        reads_energy(
            read_energy(s, (0x15 + 20 * (phase - 1)) as u8, 0x00, 0x00),
            s.phase_forward_active@[phase - 1],
        ),
{
    reveal(decimal_of);
    lemma_energy_shows(s.phase_forward_active@[phase - 1]);
}

/// What is left to use, as an energy and as an amount, reads as it is held.
#[verifier::rlimit(50)]
pub proof fn law_remainders_read_as_held(s: MeterState)
    requires
        s.remaining_energy < 999_999_990_000_000,
        s.remaining_amount < 999_999_990_000_000,
    ensures
        reads_energy(read_energy(s, 0x90, 0x01, 0x00), s.remaining_energy),
        reads_energy(read_energy(s, 0x90, 0x02, 0x00), s.remaining_amount),
{
    reveal(decimal_of);
    lemma_energy_shows(s.remaining_energy);
    lemma_energy_shows(s.remaining_amount);
}

} // verus!
