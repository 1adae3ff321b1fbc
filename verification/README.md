# fluent_schedule

A human-readable, fluent task scheduler, verified with Verus.

```rust
let job = Job::new().on_weekday().at("17:00").run(|| println!("5 PM on weekdays"));
let mut scheduler = Scheduler::new();
scheduler.add(job);
```

## Layout

- `src/time_units.rs`: spans of time (`Duration`) and `5u32.seconds()`-style constructors.
- `src/calendar.rs`: dates and times as plain numbers (day numbers, seconds past
  midnight, nanoseconds), date-time arithmetic, days of the week, and moments as
  the local time zone sees them (UTC date-time plus offset).
- `src/clock.rs`: the calls into chrono, each with the contract it is trusted to
  meet: reading the local clock, looking up the local offset, parsing times of day.
- `src/job.rs`: the fluent job builder and where a job runs next.
- `src/scheduler.rs`: one round (`tick`): the due jobs run and are rescheduled, and
  the sleep until the next round.
- `src/laws.rs`: proved properties, each for the inputs its premises name (the next run comes later and
  falls on a chosen day, a later start never runs earlier, builder steps commute,
  the sleep is the shortest wait).
- `app/lib.rs`: the blocking loop that calls `tick` with the real clock and sleeps,
  and conversions from std and chrono values.
