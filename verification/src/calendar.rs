//! Dates and times, as plain numbers.
//!
//! A date is its day number in the proleptic Gregorian calendar, counted
//! from January 1 of year 1 (day 1), and a time of day is the number of
//! seconds past midnight with a nanosecond part; a nanosecond part of one
//! second or more marks a leap second. A `NaiveDateTime` is a date and time
//! without a time zone; a `LocalDateTime` is a moment as the local time zone
//! sees it: its UTC date-time and the offset of local time from UTC there.
//! Arithmetic follows the rules of chrono's date and time types, including
//! their range of representable dates.

use vstd::prelude::*;

use crate::time_units::{Duration, NANOS_PER_SEC};

verus! {

/// Seconds in one day.
pub const SECS_PER_DAY: u32 = 86_400;

/// Day number of the earliest representable date (January 1 of year -262143).
pub const MIN_DAY: i32 = -95_746_129;

/// Day number of the latest representable date (December 31 of year 262142).
pub const MAX_DAY: i32 = 95_745_399;

/// Whether `day` is the number of a representable date.
pub open spec fn valid_day(day: int) -> bool {
    MIN_DAY <= day <= MAX_DAY
}

/// Whether `secs` past midnight with `nanos` is a valid time of day: a leap
/// second holds a nanosecond part of one second or more.
pub open spec fn valid_time(secs: int, nanos: int) -> bool {
    &&& 0 <= secs < SECS_PER_DAY
    &&& 0 <= nanos < 2 * NANOS_PER_SEC
}

/// Whether `offset` seconds is a valid offset of local time from UTC (less than a day either way).
pub open spec fn valid_offset(offset: int) -> bool {
    -(SECS_PER_DAY as int) < offset < SECS_PER_DAY
}

/// A day of the week.
#[derive(Clone, Copy, Debug, PartialEq, Eq, Structural, Hash)]
pub enum Weekday {
    Mon,
    Tue,
    Wed,
    Thu,
    Fri,
    Sat,
    Sun,
}

impl Weekday {
    /// Position in the week, Monday being 0.
    pub open spec fn index(self) -> int {
        match self {
            Weekday::Mon => 0,
            Weekday::Tue => 1,
            Weekday::Wed => 2,
            Weekday::Thu => 3,
            Weekday::Fri => 4,
            Weekday::Sat => 5,
            Weekday::Sun => 6,
        }
    }

    /// The day at position `i` of the week, Monday being 0.
    pub open spec fn at_index(i: int) -> Weekday {
        if i == 0 {
            Weekday::Mon
        } else if i == 1 {
            Weekday::Tue
        } else if i == 2 {
            Weekday::Wed
        } else if i == 3 {
            Weekday::Thu
        } else if i == 4 {
            Weekday::Fri
        } else if i == 5 {
            Weekday::Sat
        } else {
            Weekday::Sun
        }
    }

    /// Position in the week, Monday being 0.
    pub fn num_days_from_monday(&self) -> (n: u32)
        ensures
            n == self.index(),
            n < 7,
    {
        match self {
            Weekday::Mon => 0,
            Weekday::Tue => 1,
            Weekday::Wed => 2,
            Weekday::Thu => 3,
            Weekday::Fri => 4,
            Weekday::Sat => 5,
            Weekday::Sun => 6,
        }
    }

    fn from_index(i: u32) -> (w: Weekday)
        requires
            i < 7,
        ensures
            w == Weekday::at_index(i as int),
            w.index() == i,
    {
        if i == 0 {
            Weekday::Mon
        } else if i == 1 {
            Weekday::Tue
        } else if i == 2 {
            Weekday::Wed
        } else if i == 3 {
            Weekday::Thu
        } else if i == 4 {
            Weekday::Fri
        } else if i == 5 {
            Weekday::Sat
        } else {
            Weekday::Sun
        }
    }
}

/// The day of the week of day number `day` (day 1 was a Monday).
pub open spec fn weekday_of_day(day: int) -> Weekday {
    Weekday::at_index((day + 6) % 7)
}

/// Stepping one day ahead steps one day ahead in the week.
pub proof fn lemma_weekday_next_day(day: int)
    ensures
        weekday_of_day(day + 1).index() == (weekday_of_day(day).index() + 1) % 7,
{
}

/// A set of days of the week, each held once.
pub struct WeekdaySet {
    days: Vec<Weekday>,
}

impl View for WeekdaySet {
    type V = Set<Weekday>;

    closed spec fn view(&self) -> Set<Weekday> {
        Set::new(|d: Weekday| self.days@.contains(d))
    }
}

impl WeekdaySet {
    /// No day is held twice.
    #[verifier::type_invariant]
    spec fn each_day_once(self) -> bool {
        self.days@.no_duplicates()
    }

    /// The empty set.
    pub fn new() -> (s: WeekdaySet)
        ensures
            s@ == Set::<Weekday>::empty(),
    {
        let s = WeekdaySet { days: Vec::new() };
        assert(s@ =~= Set::<Weekday>::empty());
        s
    }

    /// Whether `day` is in the set.
    pub fn contains(&self, day: Weekday) -> (r: bool)
        ensures
            r == self@.contains(day),
    {
        let mut i: usize = 0;
        while i < self.days.len()
            invariant
                i <= self.days.len(),
                forall|j: int| 0 <= j < i ==> self.days@[j] != day,
            decreases self.days.len() - i,
        {
            if self.days[i] == day {
                return true;
            }
            i = i + 1;
        }
        false
    }

    /// Adds `day` to the set.
    pub fn insert(&mut self, day: Weekday)
        ensures
            final(self)@ == old(self)@.insert(day),
    {
        if !self.contains(day) {
            proof {
                use_type_invariant(&*self);
            }
            let ghost before = self.days@;
            let mut days = self.days.clone();
            assert(days@ =~= before);
            days.push(day);
            self.days = days;
            assert forall|d: Weekday| self.days@.contains(d) == (before.contains(d) || d == day) by {
                if before.contains(d) {
                    let j = choose|j: int| 0 <= j < before.len() && before[j] == d;
                    assert(self.days@[j] == d);
                }
                if d == day {
                    assert(self.days@[before.len() as int] == d);
                }
            }
        }
        assert(self@ =~= old(self)@.insert(day));
    }

    /// Whether the set is empty.
    pub fn is_empty(&self) -> (r: bool)
        ensures
            r == (self@ == Set::<Weekday>::empty()),
    {
        if self.days.len() == 0 {
            assert(self@ =~= Set::<Weekday>::empty());
            true
        } else {
            assert(self@.contains(self.days@[0]));
            false
        }
    }

    /// Removes every day from the set.
    pub fn clear(&mut self)
        ensures
            final(self)@ == Set::<Weekday>::empty(),
    {
        self.days = Vec::new();
        assert(self@ =~= Set::<Weekday>::empty());
    }
}

/// A time of day: seconds past midnight and a nanosecond part.
#[derive(Clone, Copy, Debug, PartialEq, Eq, Structural, Hash)]
pub struct TimeOfDay {
    pub secs: u32,
    pub nanos: u32,
}

impl TimeOfDay {
    /// The parts form a valid time of day.
    pub open spec fn wf(self) -> bool {
        valid_time(self.secs as int, self.nanos as int)
    }

    /// `self` comes no later than `other` in the day.
    pub open spec fn not_after(self, other: TimeOfDay) -> bool {
        self.secs < other.secs || (self.secs == other.secs && self.nanos <= other.nanos)
    }

    /// Whether `self` comes no later than `other` in the day.
    pub fn is_not_after(&self, other: &TimeOfDay) -> (r: bool)
        ensures
            r == self.not_after(*other),
    {
        self.secs < other.secs || (self.secs == other.secs && self.nanos <= other.nanos)
    }
}

/// A date and time without a time zone.
#[derive(Clone, Copy, Debug, PartialEq, Eq, Structural, Hash)]
pub struct NaiveDateTime {
    /// Day number of the date, January 1 of year 1 being day 1.
    pub day: i32,
    pub time: TimeOfDay,
}

/// Where chrono's naive date-time arithmetic puts a date-time of day `day`,
/// `secs` past midnight with `nanos`, after adding `add_secs` seconds and
/// `add_nanos` nanoseconds (both non-negative, `add_nanos` below a second):
/// the resulting day, seconds past midnight and nanoseconds. A leap second is
/// left as soon as the addition reaches the next second.
pub open spec fn shifted(day: int, secs: int, nanos: int, add_secs: int, add_nanos: int) -> (int, int, int) {
    if nanos >= NANOS_PER_SEC && add_secs == 0 && nanos + add_nanos < 2 * NANOS_PER_SEC {
        (day, secs, nanos + add_nanos)
    } else {
        let frac = (if nanos >= NANOS_PER_SEC { nanos - NANOS_PER_SEC } else { nanos }) + add_nanos;
        let carry: int = if frac >= NANOS_PER_SEC { 1 } else { 0 };
        let total = secs + add_secs + carry;
        (day + total / (SECS_PER_DAY as int), total % (SECS_PER_DAY as int), frac - carry * NANOS_PER_SEC)
    }
}

/// The signed distance in nanoseconds from `earlier` to `later`, as chrono
/// measures it between naive date-times (a leap second counts as the second
/// it extends).
pub open spec fn nanos_between(earlier: NaiveDateTime, later: NaiveDateTime) -> int {
    let adjust: int = if later.time.secs > earlier.time.secs && earlier.time.nanos >= NANOS_PER_SEC {
        1
    } else if later.time.secs < earlier.time.secs && later.time.nanos >= NANOS_PER_SEC {
        -1
    } else {
        0
    };
    let secs = (later.day - earlier.day) * (SECS_PER_DAY as int) + later.time.secs - earlier.time.secs + adjust;
    secs * (NANOS_PER_SEC as int) + later.time.nanos - earlier.time.nanos
}

impl NaiveDateTime {
    /// The date is representable and the time of day is valid.
    pub open spec fn wf(self) -> bool {
        valid_day(self.day as int) && self.time.wf()
    }

    /// The date-time with these parts.
    pub open spec fn from_parts(day: int, secs: int, nanos: int) -> NaiveDateTime {
        NaiveDateTime { day: day as i32, time: TimeOfDay { secs: secs as u32, nanos: nanos as u32 } }
    }

    /// `self` comes no later than `other`.
    pub open spec fn not_after(self, other: NaiveDateTime) -> bool {
        self.day < other.day || (self.day == other.day && self.time.not_after(other.time))
    }

    /// What chrono's naive arithmetic gives for `self` plus `add_secs`
    /// seconds and `add_nanos` nanoseconds, where the date stays representable.
    pub open spec fn plus(self, add_secs: int, add_nanos: int) -> Option<NaiveDateTime> {
        let r = shifted(self.day as int, self.time.secs as int, self.time.nanos as int, add_secs, add_nanos);
        if valid_day(r.0) {
            Some(NaiveDateTime::from_parts(r.0, r.1, r.2))
        } else {
            None
        }
    }

    /// The day of the week of the date.
    pub fn weekday(&self) -> (w: Weekday)
        requires
            self.wf(),
        ensures
            w == weekday_of_day(self.day as int),
    {
        // Shift by a multiple of seven so that the remainder is taken of a natural number.
        let shifted_day: u64 = (self.day as i64 + 95_746_133i64 + 6) as u64;
        let r: u32 = (shifted_day % 7) as u32;
        assert(r == (self.day + 6) % 7);
        Weekday::from_index(r)
    }

    /// The time of day.
    pub fn time_of_day(&self) -> (t: TimeOfDay)
        ensures
            t == self.time,
    {
        self.time
    }

    /// The day number of the date, January 1 of year 1 being day 1.
    pub fn num_days_from_ce(&self) -> (d: i32)
        ensures
            d == self.day,
    {
        self.day
    }

    /// Whether `self` comes no later than `other`.
    pub fn is_not_after(&self, other: &NaiveDateTime) -> (r: bool)
        ensures
            r == self.not_after(*other),
    {
        self.day < other.day || (self.day == other.day && self.time.is_not_after(&other.time))
    }

    /// `self` plus `span`, or `None` where the date would leave the representable range.
    pub fn checked_add(&self, span: Duration) -> (r: Option<NaiveDateTime>)
        requires
            self.wf(),
            span.wf(),
        ensures
            r == self.plus(span.secs as int, span.nanos as int),
            r matches Some(t) ==> t.wf(),
    {
        let ghost expect = shifted(self.day as int, self.time.secs as int, self.time.nanos as int, span.secs as int, span.nanos as int);
        let nanos = self.time.nanos;
        let secs = self.time.secs;
        if nanos >= NANOS_PER_SEC && span.secs == 0 && nanos + span.nanos < 2 * NANOS_PER_SEC {
            let t = NaiveDateTime { day: self.day, time: TimeOfDay { secs, nanos: nanos + span.nanos } };
            assert(valid_day(expect.0));
            return Some(t);
        }
        let frac0: u32 = if nanos >= NANOS_PER_SEC { nanos - NANOS_PER_SEC } else { nanos };
        let frac1: u32 = frac0 + span.nanos;
        let carry: u64 = if frac1 >= NANOS_PER_SEC { 1 } else { 0 };
        let frac: u32 = if frac1 >= NANOS_PER_SEC { frac1 - NANOS_PER_SEC } else { frac1 };
        let whole_days: u64 = span.secs / (SECS_PER_DAY as u64);
        let rest: u64 = span.secs % (SECS_PER_DAY as u64);
        let within: u64 = secs as u64 + rest + carry;
        let extra_days: u64 = within / (SECS_PER_DAY as u64);
        let new_secs: u64 = within % (SECS_PER_DAY as u64);
        proof {
            let total = secs + span.secs + carry;
            let a = span.secs as int;
            assert(a == whole_days * 86400 + rest) by (nonlinear_arith)
                requires
                    whole_days == a / 86400,
                    rest == a % 86400,
            ;
            assert(total == whole_days * 86400 + within);
            assert(total / 86400 == whole_days + extra_days && total % 86400 == new_secs) by (nonlinear_arith)
                requires
                    total == whole_days * 86400 + within,
                    extra_days == within / 86400,
                    new_secs == within % 86400,
                    whole_days >= 0,
                    within >= 0,
            ;
        }
        if whole_days > (MAX_DAY as u64) * 3 {
            assert(!valid_day(expect.0));
            return None;
        }
        let new_day: i64 = self.day as i64 + whole_days as i64 + extra_days as i64;
        if new_day > MAX_DAY as i64 {
            return None;
        }
        Some(NaiveDateTime { day: new_day as i32, time: TimeOfDay { secs: new_secs as u32, nanos: frac } })
    }

    /// What chrono gives for `self` moved by `offset` seconds, a leap second
    /// kept as it is, where the date stays representable.
    pub open spec fn plus_offset(self, offset: int) -> Option<NaiveDateTime> {
        let s = self.time.secs + offset;
        let day = self.day + s / (SECS_PER_DAY as int);
        if valid_day(day) {
            Some(NaiveDateTime::from_parts(day, s % (SECS_PER_DAY as int), self.time.nanos as int))
        } else {
            None
        }
    }

    /// `self` moved by `offset` seconds (a UTC offset), or `None` where the
    /// date would leave the representable range.
    pub fn checked_add_offset(&self, offset: i32) -> (r: Option<NaiveDateTime>)
        requires
            self.wf(),
            valid_offset(offset as int),
        ensures
            r == self.plus_offset(offset as int),
            r matches Some(t) ==> t.wf(),
    {
        let s: i32 = self.time.secs as i32 + offset;
        let (day_shift, secs): (i32, i32) = if s < 0 {
            (-1, s + SECS_PER_DAY as i32)
        } else if s >= SECS_PER_DAY as i32 {
            (1, s - SECS_PER_DAY as i32)
        } else {
            (0, s)
        };
        let day: i64 = self.day as i64 + day_shift as i64;
        if day < MIN_DAY as i64 || day > MAX_DAY as i64 {
            return None;
        }
        Some(NaiveDateTime { day: day as i32, time: TimeOfDay { secs: secs as u32, nanos: self.time.nanos } })
    }

    /// The span from `earlier` to `self`, or zero where `self` is not later.
    pub fn saturating_duration_since(&self, earlier: &NaiveDateTime) -> (d: Duration)
        requires
            self.wf(),
            earlier.wf(),
        ensures
            d.wf(),
            d.total_nanos() == if nanos_between(*earlier, *self) > 0 {
                nanos_between(*earlier, *self)
            } else {
                0
            },
    {
        let day_diff: i64 = self.day as i64 - earlier.day as i64;
        assert(-200_000_000 * 86400 <= day_diff * 86400 <= 200_000_000 * 86400) by (nonlinear_arith)
            requires
                -200_000_000 <= day_diff <= 200_000_000,
        ;
        let mut secs: i64 = day_diff * (SECS_PER_DAY as i64) + self.time.secs as i64 - earlier.time.secs as i64;
        if self.time.secs > earlier.time.secs && earlier.time.nanos >= NANOS_PER_SEC {
            secs = secs + 1;
        } else if self.time.secs < earlier.time.secs && self.time.nanos >= NANOS_PER_SEC {
            secs = secs - 1;
        }
        let frac: i64 = self.time.nanos as i64 - earlier.time.nanos as i64;
        let (whole, part): (i64, u32) = if frac < 0 {
            if frac + (NANOS_PER_SEC as i64) < 0 {
                (secs - 2, (frac + 2 * (NANOS_PER_SEC as i64)) as u32)
            } else {
                (secs - 1, (frac + (NANOS_PER_SEC as i64)) as u32)
            }
        } else if frac >= NANOS_PER_SEC as i64 {
            (secs + 1, (frac - (NANOS_PER_SEC as i64)) as u32)
        } else {
            (secs, frac as u32)
        };
        assert(whole * 1_000_000_000 + part == nanos_between(*earlier, *self));
        if whole < 0 {
            Duration { secs: 0, nanos: 0 }
        } else {
            Duration { secs: whole as u64, nanos: part }
        }
    }
}

/// A moment as the local time zone sees it: the UTC date-time and the
/// offset in seconds of local time from UTC at that moment. Moments are
/// ordered and measured by their UTC date-time.
#[derive(Clone, Copy, Debug, PartialEq, Eq, Structural, Hash)]
pub struct LocalDateTime {
    pub utc: NaiveDateTime,
    pub offset: i32,
}

impl LocalDateTime {
    /// The UTC date-time is valid and the offset is less than a day.
    pub open spec fn wf(self) -> bool {
        self.utc.wf() && valid_offset(self.offset as int)
    }

    /// The local date and time of the moment, where it is representable.
    pub open spec fn local(self) -> Option<NaiveDateTime> {
        self.utc.plus_offset(self.offset as int)
    }

    /// `self` comes no later than `other`.
    pub open spec fn not_after(self, other: LocalDateTime) -> bool {
        self.utc.not_after(other.utc)
    }

    /// The local date and time of the moment.
    pub fn naive_local(&self) -> (t: NaiveDateTime)
        requires
            self.wf(),
            self.local() is Some,
        ensures
            Some(t) == self.local(),
            t.wf(),
    {
        match self.utc.checked_add_offset(self.offset) {
            Some(t) => t,
            None => {
                assert(false);
                self.utc
            },
        }
    }

    /// The moment whose local date and time, at `offset` from UTC, is `local`;
    /// `None` where its UTC date-time would not be representable.
    pub fn from_local(local: NaiveDateTime, offset: i32) -> (r: Option<LocalDateTime>)
        requires
            local.wf(),
            valid_offset(offset as int),
        ensures
            r == (match local.plus_offset(-offset) {
                Some(utc) => Some(LocalDateTime { utc, offset }),
                None => None,
            }),
            r matches Some(m) ==> m.wf() && m.local() == Some(local),
    {
        match local.checked_add_offset(-offset) {
            Some(utc) => {
                let m = LocalDateTime { utc, offset };
                assert(m.local() == Some(local)) by {
                    let s0 = local.time.secs - offset;
                    assert(utc.day == local.day + s0 / 86400);
                    assert(utc.time.secs == s0 % 86400);
                }
                Some(m)
            },
            None => None,
        }
    }

    /// Whether `self` comes no later than `other`.
    pub fn is_not_after(&self, other: &LocalDateTime) -> (r: bool)
        ensures
            r == self.not_after(*other),
    {
        self.utc.is_not_after(&other.utc)
    }

    /// The span from `earlier` to `self`, or zero where `self` is not later.
    pub fn saturating_duration_since(&self, earlier: &LocalDateTime) -> (d: Duration)
        requires
            self.wf(),
            earlier.wf(),
        ensures
            d.wf(),
            d.total_nanos() == if nanos_between(earlier.utc, self.utc) > 0 {
                nanos_between(earlier.utc, self.utc)
            } else {
                0
            },
    {
        self.utc.saturating_duration_since(&earlier.utc)
    }
}

} // verus!
