# energy_tariff

Types and rules for a site's electricity contracts, verified with Verus.

A tariff is data: a site alias, its contracts, and the charges each contract
lists (energy settlement, monthly demand, facilities, coincident peak, fixed).
The library checks every value a contract may hold and decides how each
charge is priced; the amounts themselves are `f64` and the arithmetic on them
lives in `app/`.

## Layout

- `src/` — the verified library.
  - `text.rs`: zero-padded decimal text and integer fields, with the proof that
    a padded number reads back as itself.
  - `calendar.rs`: calendar days (`YYYY-MM-DD` in and out), date ranges,
    billing months and the month before.
  - `contract.rs`: site alias, meter scope, minute lengths, hour windows, the
    charge enum, contracts, tariffs, and ledger names in contract order.
  - `tou.rs`: civil local time, time-of-use periods and schedules; no two
    periods of a schedule overlap, so a civil time has at most one rate.
  - `demand.rs`: the demand charge's shape and the history of prior peaks a
    ratchet looks back over.
  - `peak.rs`: coincident-peak rules and when their exposure is billed.
  - `facilities.rs`: which kilowatt quantity a facilities rate multiplies.
  - `settlement.rs`: which prices each load hour is billed at.
  - `error.rs`: the error every constructor and calculation answers with.
- `app/` — the same library in dollars and kilowatts: `f64` quantities and
  rates, the billing arithmetic, and the JSON / TOML schema (serde).
- `tests/` — tests of the library.

Every rate, peak and amount type in `src/` is a type parameter: the library
stores such values, hands them back and chooses among them, and never computes
with them.
