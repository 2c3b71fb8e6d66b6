# utc2k

A small date/time library for UTC moments within the years 2000–2099,
verified with Verus.

- `src/` is the library. `Utc2k` holds a moment of the century, `FmtUtc2k`
  its `YYYY-MM-DD hh:mm:ss` text, and `Local2k` / `FmtLocal2k` a moment as
  the system's time zone shows it. Parsing (ASCII, RFC2822), formatting
  (RFC2822, RFC3339, custom templates), and the calendar arithmetic carry
  contracts over the model in `calendar.rs`; `laws.rs` proves the round
  trips between them.
- The time zone is read through the `tz` crate, and the clock through std;
  those calls sit behind small trusted wrappers in `lib.rs` and `local.rs`.
- `app/` holds what Verus cannot: `Display` and `Error` for the error types,
  and a printed report of the current moment.
- `tests/` runs the library, including comparisons against `chrono`.
