# meter_core

A simulated three-phase electricity meter that speaks DL/T 645-2007, written in Verus: the
library's functions are executable Rust, and what they do is stated in contracts and proved.

## Layout

- `src/protocol`: frames, control codes and the number, time and address formats of the data
  field.
- `src/simulation`: the state of a meter, its physics (load, energy, demand, faults, freezes,
  load records), its data items (`di_handler`) and its commands (`commands`,
  `virtual_meter`).
- `src/actor`: a meter behind its messages. Commands of the protocol, answers sent in pieces,
  and commands of the administration.
- `src/router.rs`, `src/connection.rs`, `src/communication_log.rs`: which meters a frame
  reaches, which connections there are, and what went over the line.
- `src/persistence`: rows of the store, and the settings of a meter as JSON.
- `src/quantity.rs`, `src/angle.rs`, `src/time.rs`, `src/table.rs`, `src/sorting.rs`,
  `src/text.rs`: numbers in billionths, angles from cosines, calendar time, maps, a stable
  order, numbers as text.
- `app`: ordinary Rust around the library: message loops, TCP and serial lines, the database.
- `tests`: examples that run.

Measured values are whole billionths of their unit (`Quantity`), so that every calculation is
exact and can be stated. A meter's clock is an instant of the proleptic Gregorian calendar.

Functions that need the time or a random number come in two forms. One takes the value as an
argument and says exactly what follows from it; the other fetches the value and says what
holds for whatever came.

Laws that relate several functions are public proof functions whose names begin with `law_`.

## What is not proved

The library calls `chrono` for the calendar and the clock, `rand` for noise and `serde_json`
to read and write stored texts. These calls stand behind small functions marked
`#[verifier::external_body]` in `src/time.rs`, `src/simulation/measurement.rs` and
`src/persistence/json.rs`. Their contracts are believed, and each says what it claims.
