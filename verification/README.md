# roman_time

Roman timekeeping, verified with Verus. A wall-clock time, with the day's
sunrise and sunset on the same clock, becomes a Roman time: one of twelve
daylight hours from sunrise to sunset or one of twelve night hours from
sunset to the next sunrise, the date counted back from the Kalends, Nones and
Ides, and the year counted by the reign of a country's head of government.

- `src/calendar.rs`: wall-clock times, the proleptic Gregorian day count, and
  the calls into `chrono`.
- `src/roman.rs`: `RomanTime`, its model, its construction and its texts.
- `src/reign.rs`: finding the reign that counts a year.
- `src/terms.rs`: the rule that turns who took office when into reign
  charts (a year belongs to whoever held office on its first day), and the
  proof that such a chart gives every year exactly one reign.
- `src/rulers.rs`: who took office when in Australia and the United States.
- `src/text.rs`: numbers, ordinals and month names in words.
- `app/`: the unverified edges: the sun's times from the `sunrise` crate
  (floating-point coordinates), the time zone of a `chrono::DateTime`, and
  the fraction of the hour as a float.
