# fdate

Natural language date parsing for scheduling and journaling: absolute dates
(`2000-04-15`, `4/15/2000`, `15th April 2000`, `April 15th 00`) and dates
relative to a configurable today (`tomorrow`, `in 2 weeks`, `3 months ago`,
`next wednesday`, `last 14th`, `14th April`, `friday in 2 weeks`,
`17th in two months`, `1st May next year`). Interval values may be digits, `a`,
or the words `one` to `twelve`.

The library in `src/` is verified with Verus:

- `calendar` — the proleptic Gregorian calendar as specifications (valid
  days, day numbers, weekdays, month arithmetic), the `Date`, `Weekday` and
  `Month` types, and lemmas such as "day numbers are strictly increasing".
- `text` — the character-level recognizers (case-insensitive keywords,
  whitespace, numbers).
- `parser::syntax` — the grammar, one recognizer per form, each proved to
  compute its specification; `FdateExpression::parse` takes the first form that
  reads the start of the input and insists on the whole input.
- `parser` — resolution of an expression against `ParserConfig`: every step is
  specified over calendar triples, and `Parser::try_parse` reports when a
  result would leave the years a `Date` can hold.
- `properties` — proved statements about all inputs: distances of intervals,
  clamping of months, weekday and day-of-month semantics of `next`/`last` under
  each setting, closest occurrences, letter case, written dates reading back
  to themselves, and that every parsed date exists.
- `chrono_ops` — the calls into `chrono` for the calendar arithmetic, each with
  the contract chrono documents.

The crate-level `try_parse` reads today from the local clock and parses with
the default settings. `app/` holds the panicking `parse` function built on it,
and serde-enabled copies of the settings types.
