# ep_rs

Building energy simulation engine, split into a verified library and an
unverified floating-point side.

- `src/` — the library, written in Verus. Every function carries a
  `requires`/`ensures` contract that Verus proves, except one trusted
  wrapper, `unix_epoch` in `time.rs`, which calls chrono and states nothing
  of its result (chrono's `NaiveDateTime`, `serde_json::Error` and
  `std::io::Error` are declared as opaque outside types). The library covers
  calendar arithmetic and
  the simulation clock, rate-limited diagnostics, curve metadata, tariff
  periods and seasons, the Erl runtime of the energy management system
  (variables, sensors, actuators, trends, program control flow, program
  scheduling), FMI co-simulation bookkeeping, the node and equation
  numbering of the airflow network, comfort and ventilation
  classification, the variable table of the data-exchange interface, and
  the enumerations that name equipment kinds, control strategies and
  modes throughout the engine.
  Public `proof fn`s state the laws that span several operations (a week
  brings every day back, a read gives back a write, repeated messages are
  recorded at most `limit` times, every internal airflow node and no other
  gets an equation, ...).
- `app/` — plain Rust around the library: everything that computes on
  `f64` (curve evaluation, Erl arithmetic, comfort models, daylighting,
  envelope conduction and radiant exchange, fluid properties, on-site
  generation, demand management, bills) and the error type's `Display`
  impls. It calls the library for every decision the library makes.
- `tests/` — tests of the library, run against the compiled crate.
