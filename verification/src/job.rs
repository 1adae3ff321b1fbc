//! Jobs: a schedule built fluently, a task, and the time the job runs next.

use vstd::prelude::*;
use vstd::string::*;

use crate::calendar::{
    shifted, valid_day, valid_offset, valid_time, weekday_of_day, LocalDateTime, NaiveDateTime, TimeOfDay, Weekday,
    WeekdaySet, SECS_PER_DAY,
};
use crate::clock::{
    local_now, local_offset_at_local, local_offset_at_utc, naive_time_parse_from_str, parse_time_of_day,
};
use crate::error::SchedulerError;
use crate::time_units::{Duration, NANOS_PER_SEC};

verus! {

/// Something that can be run again and again: every `FnMut() + Send` closure is.
pub trait Runnable: Send {
    /// The thing may be run now.
    spec fn ready(&self) -> bool;

    /// A run from this state ends, meeting the thing's postcondition.
    spec fn run_completes(&self) -> bool;

    /// Runs the thing once.
    fn run_once(&mut self)
        requires
            old(self).ready(),
        ensures
            old(self).run_completes(),
    ;
}

impl<F: FnMut() + Send> Runnable for F {
    open spec fn ready(&self) -> bool {
        call_requires(*self, ())
    }

    open spec fn run_completes(&self) -> bool {
        call_ensures(*self, (), ())
    }

    fn run_once(&mut self) {
        self()
    }
}

/// The task of a job: a boxed closure, with a ghost identity that running
/// it keeps and a ghost count of its runs.
pub struct Task {
    body: Box<dyn Runnable + 'static>,
    id: Ghost<int>,
    runs: Ghost<nat>,
}

impl Task {
    /// Boxes `f` as a task that has not run yet: the task may run where `f`
    /// may, and a run of it completes where a call of `f` does. Its identity
    /// is its own: nothing is stated of it.
    pub fn new<F: FnMut() + Send + 'static>(f: F) -> (t: Task)
        ensures
            t.ready() == f.ready(),
            t.run_completes() == f.run_completes(),
            t.runs() == 0,
    {
        Task { body: Box::new(f), id: Ghost(arbitrary()), runs: Ghost(0) }
    }

    /// The task may be run now.
    pub closed spec fn ready(&self) -> bool {
        self.body.ready()
    }

    /// A run of the task from this state ends, meeting the closure's postcondition.
    pub closed spec fn run_completes(&self) -> bool {
        self.body.run_completes()
    }

    /// The identity of the task: running it keeps it.
    pub closed spec fn id(&self) -> int {
        self.id@
    }

    /// How many times the task has been run.
    pub closed spec fn runs(&self) -> nat {
        self.runs@
    }

    /// Runs the task once: the same task, with its closure's state as the run
    /// left it, and one more run counted.
    pub fn call(&mut self)
        requires
            old(self).ready(),
        ensures
            old(self).run_completes(),
            final(self).id() == old(self).id(),
            final(self).runs() == old(self).runs() + 1,
    {
        self.body.run_once();
        self.runs = Ghost(self.runs@ + 1);
    }
}

/// Everything a job holds, as plain values.
pub struct JobView {
    /// Run at this fixed interval.
    pub interval: Option<Duration>,
    /// Run at this time of day.
    pub at_time: Option<TimeOfDay>,
    /// Run only on these days of the week (on every day where it is empty).
    pub days: Set<Weekday>,
    /// The task, where one has been set.
    pub task: Option<Task>,
    /// The time of the next run.
    pub next_run: LocalDateTime,
}

impl JobView {
    /// The values are valid, and a job never has both an interval and a time of day.
    pub open spec fn wf(self) -> bool {
        &&& self.interval matches Some(d) ==> d.wf()
        &&& self.at_time matches Some(t) ==> t.wf()
        &&& !(self.interval is Some && self.at_time is Some)
        &&& self.next_run.wf()
    }
}

/// How many days after day `day` the first day lies whose day of the week is
/// in `days`, looking at most `budget` days ahead (`budget` where none is).
pub open spec fn days_until_allowed(day: int, days: Set<Weekday>, budget: nat) -> nat
    decreases budget,
{
    if budget == 0 || days.contains(weekday_of_day(day)) {
        0
    } else {
        1 + days_until_allowed(day + 1, days, (budget - 1) as nat)
    }
}

/// How many days after the date of the local date-time `from` a job that runs
/// at `at` (on the days of `days`, or on any day where `days` is empty) runs
/// next: from today where `at` is still ahead today, else from tomorrow, the
/// first allowed day.
pub open spec fn days_ahead(from: NaiveDateTime, at: TimeOfDay, days: Set<Weekday>) -> int {
    let first: int = if at.not_after(from.time) { 1 } else { 0 };
    if days == Set::<Weekday>::empty() {
        first
    } else {
        first + days_until_allowed(from.day + first, days, 6)
    }
}

/// Seconds in the year that a job without a schedule waits.
pub open spec fn year_secs() -> int {
    365 * SECS_PER_DAY
}

/// Where a job's next run falls, before the local time zone places it.
#[derive(Clone, Copy, Debug, PartialEq, Eq, Structural)]
pub enum NextRun {
    /// At this UTC date-time: a job that runs at an interval, or without a schedule.
    Utc(NaiveDateTime),
    /// At this local date-time: a job that runs at a time of day.
    Local(NaiveDateTime),
}

/// Where a job with the schedule of `v` runs next, counted from the moment
/// `from`; `None` where that date, or the local date of `from` that a time
/// of day is counted from, would not be representable.
/// - With an interval: at the UTC date-time of `from` plus the interval.
/// - With a time of day: at that local time on the day that `days_ahead`
///   names (moved forward by whole days, as date-time arithmetic moves it).
/// - With neither: one year of 365 days after `from`, which in effect
///   disables the job.
pub open spec fn next_run_plan(v: JobView, from: LocalDateTime) -> Option<NextRun> {
    match v.interval {
        Some(d) => match from.utc.plus(d.secs as int, d.nanos as int) {
            Some(u) => Some(NextRun::Utc(u)),
            None => None,
        },
        None => match v.at_time {
            Some(at) => match from.local() {
                Some(wall) => match (NaiveDateTime { day: wall.day, time: at }).plus(
                    SECS_PER_DAY * days_ahead(wall, at, v.days),
                    0,
                ) {
                    Some(w) => Some(NextRun::Local(w)),
                    None => None,
                },
                None => None,
            },
            None => match from.utc.plus(year_secs(), 0) {
                Some(u) => Some(NextRun::Utc(u)),
                None => None,
            },
        },
    }
}

/// The moment `t` is where the plan `p` puts a run: at the planned UTC
/// date-time, or at the planned local date-time in the offset that `t` holds.
pub open spec fn fulfils(t: LocalDateTime, p: NextRun) -> bool {
    match p {
        NextRun::Utc(u) => t.utc == u,
        NextRun::Local(w) => t.local() == Some(w),
    }
}

/// What `calculate_next_run` hands back for the plan `p`: nothing where there
/// is no plan; a valid moment that fulfils a UTC plan; and for a local plan,
/// where the time zone places it, a valid moment that fulfils it.
pub open spec fn placed(r: Option<LocalDateTime>, p: Option<NextRun>) -> bool {
    match p {
        None => r is None,
        Some(NextRun::Utc(u)) => r matches Some(t) && t.wf() && fulfils(t, NextRun::Utc(u)),
        Some(NextRun::Local(w)) => r matches Some(t) ==> t.wf() && fulfils(t, NextRun::Local(w)),
    }
}

/// The time of day that the text `s` gives, as the job's `at` reads it:
/// as `HH:MM` where it fits that format, else as `HH:MM:SS`.
pub open spec fn parsed_time(s: Seq<char>) -> Option<TimeOfDay> {
    match naive_time_parse_from_str(s, "%H:%M"@) {
        Some(p) => Some(TimeOfDay { secs: p.0, nanos: p.1 }),
        None => match naive_time_parse_from_str(s, "%H:%M:%S"@) {
            Some(p) => Some(TimeOfDay { secs: p.0, nanos: p.1 }),
            None => None,
        },
    }
}

/// The job `v` set to run every `interval`: a time of day and days of the
/// week, which do not go with an interval, are dropped.
pub open spec fn with_interval(v: JobView, interval: Duration) -> JobView {
    JobView { interval: Some(interval), at_time: None, days: Set::<Weekday>::empty(), ..v }
}

/// The job `v` set to run at `time` of day: an interval is dropped, the days
/// of the week stay.
pub open spec fn with_time(v: JobView, time: TimeOfDay) -> JobView {
    JobView { interval: None, at_time: Some(time), ..v }
}

/// The job `v` set to run on `day` too.
pub open spec fn with_day(v: JobView, day: Weekday) -> JobView {
    JobView { days: v.days.insert(day), ..v }
}

/// The job `v` set to run on the days of `days` too.
pub open spec fn with_days(v: JobView, days: Set<Weekday>) -> JobView {
    JobView { days: v.days.union(days), ..v }
}

/// The set of working days, Monday to Friday.
pub open spec fn weekdays() -> Set<Weekday> {
    set![Weekday::Mon, Weekday::Tue, Weekday::Wed, Weekday::Thu, Weekday::Fri]
}

/// The set of weekend days, Saturday and Sunday.
pub open spec fn weekend() -> Set<Weekday> {
    set![Weekday::Sat, Weekday::Sun]
}

/// Represents the set of rules for a schedule.
struct ScheduleRules {
    interval: Option<Duration>,
    at_time: Option<TimeOfDay>,
    days_of_week: WeekdaySet,
}

/// A configurable Job that can be added to a Scheduler.
pub struct Job {
    rules: ScheduleRules,
    task: Option<Task>,
    next_run: LocalDateTime,
}

impl View for Job {
    type V = JobView;

    closed spec fn view(&self) -> JobView {
        JobView {
            interval: self.rules.interval,
            at_time: self.rules.at_time,
            days: self.rules.days_of_week@,
            task: self.task,
            next_run: self.next_run,
        }
    }
}

/// Adding whole days to a valid time of day moves only the date, except
/// that a leap second turns into the second it extends.
pub proof fn lemma_shift_whole_days(day: int, secs: int, nanos: int, k: int)
    requires
        valid_time(secs, nanos),
        k >= 0,
    ensures
        shifted(day, secs, nanos, SECS_PER_DAY * k, 0) == (if k == 0 {
            (day, secs, nanos)
        } else {
            (day + k, secs, if nanos >= NANOS_PER_SEC { nanos - NANOS_PER_SEC } else { nanos })
        }),
{
    if k > 0 {
        let total = secs + SECS_PER_DAY * k;
        assert(total / 86400 == k && total % 86400 == secs) by (nonlinear_arith)
            requires
                total == secs + 86400 * k,
                0 <= secs < 86400,
        ;
    }
}

/// The day number and the day of the week advance together.
pub proof fn lemma_weekday_ahead(day: int, j: int)
    requires
        j >= 0,
    ensures
        weekday_of_day(day + j).index() == (weekday_of_day(day).index() + j) % 7,
        weekday_of_day(day).index() == (day + 6) % 7,
{
    assert((day + j + 6) % 7 == ((day + 6) % 7 + j) % 7) by (nonlinear_arith);
}

/// `days_until_allowed` finds the first allowed day within its budget.
pub proof fn lemma_days_until_allowed(day: int, days: Set<Weekday>, budget: nat)
    ensures
        days_until_allowed(day, days, budget) <= budget,
        forall|j: int|
            0 <= j < days_until_allowed(day, days, budget) ==> !days.contains(
                #[trigger] weekday_of_day(day + j),
            ),
        (exists|j: int| 0 <= j <= budget && days.contains(#[trigger] weekday_of_day(day + j)))
            ==> days.contains(weekday_of_day(day + days_until_allowed(day, days, budget))),
    decreases budget,
{
    if budget == 0 || days.contains(weekday_of_day(day)) {
        if budget == 0 {
            assert forall|j: int|
                0 <= j <= budget && days.contains(#[trigger] weekday_of_day(day + j)) implies days.contains(
                weekday_of_day(day + 0),
            ) by {
                assert(day + j == day + 0);
            }
        }
    } else {
        let r = days_until_allowed(day + 1, days, (budget - 1) as nat);
        lemma_days_until_allowed(day + 1, days, (budget - 1) as nat);
        assert forall|j: int|
            0 <= j < days_until_allowed(day, days, budget) implies !days.contains(
            #[trigger] weekday_of_day(day + j),
        ) by {
            if j > 0 {
                assert(weekday_of_day((day + 1) + (j - 1)) == weekday_of_day(day + j));
            } else {
                assert(day + j == day);
            }
        }
        if exists|j: int| 0 <= j <= budget && days.contains(#[trigger] weekday_of_day(day + j)) {
            let j = choose|j: int| 0 <= j <= budget && days.contains(#[trigger] weekday_of_day(day + j));
            assert(j != 0);
            assert(weekday_of_day((day + 1) + (j - 1)) == weekday_of_day(day + j));
            assert(days.contains(weekday_of_day((day + 1) + r)));
            assert((day + 1) + r == day + days_until_allowed(day, days, budget));
        }
    }
}

/// Every day of the week comes up within seven consecutive days.
pub proof fn lemma_week_covers(day: int, w: Weekday)
    ensures
        exists|j: int| 0 <= j <= 6 && #[trigger] weekday_of_day(day + j) == w,
{
    let j = (w.index() - (day + 6) % 7 + 7) % 7;
    lemma_weekday_ahead(day, j);
    assert(weekday_of_day(day + j).index() == w.index());
    assert(weekday_of_day(day + j) == w);
}

/// Where `days` is not empty, `days_until_allowed` with a week's budget lands
/// on an allowed day.
pub proof fn lemma_allowed_day_found(day: int, days: Set<Weekday>)
    requires
        days != Set::<Weekday>::empty(),
    ensures
        days.contains(weekday_of_day(day + days_until_allowed(day, days, 6))),
        days_until_allowed(day, days, 6) <= 6,
        forall|j: int|
            0 <= j < days_until_allowed(day, days, 6) ==> !days.contains(#[trigger] weekday_of_day(day + j)),
{
    let w = choose|w: Weekday| days.contains(w);
    assert(days.contains(w)) by {
        if !days.contains(w) {
            assert(days =~= Set::<Weekday>::empty());
        }
    }
    lemma_week_covers(day, w);
    lemma_days_until_allowed(day, days, 6);
}

/// The next run of a job that runs at `at` on the days of `days` (on any day
/// where `days` is empty), counted from `from`: that time on today's date,
/// moved a day ahead where `at` is not after the time of `from`, then a day
/// at a time until the day of the week is in `days`.
fn next_at_time(from: NaiveDateTime, at: TimeOfDay, days: &WeekdaySet) -> (next: Option<NaiveDateTime>)
    requires
        from.wf(),
        at.wf(),
    ensures
        next == (NaiveDateTime { day: from.day, time: at }).plus(SECS_PER_DAY * days_ahead(from, at, days@), 0),
        next matches Some(t) ==> t.wf(),
{
    let one_day = Duration::from_secs(SECS_PER_DAY as u64);
    let ghost d0 = from.day as int;
    let ghost s0 = at.secs as int;
    let ghost f0 = at.nanos as int;
    let ghost first: int = if at.not_after(from.time) { 1 } else { 0 };
    let ghost start: int = from.day + first;
    let ghost skip: int = if days@ == Set::<Weekday>::empty() {
        0
    } else {
        days_until_allowed(start, days@, 6) as int
    };
    let ghost target = shifted(d0, s0, f0, SECS_PER_DAY * (first + skip), 0);
    proof {
        lemma_shift_whole_days(d0, s0, f0, first + skip);
        lemma_shift_whole_days(d0, s0, f0, first);
        if days@ != Set::<Weekday>::empty() {
            lemma_allowed_day_found(start, days@);
        }
        assert(target.0 == d0 + first + skip);
        assert(days_ahead(from, at, days@) == first + skip);
    }
    let mut next = NaiveDateTime { day: from.day, time: at };
    if at.is_not_after(&from.time) {
        match next.checked_add(one_day) {
            Some(t) => next = t,
            None => return None,
        }
    }
    assert(next == NaiveDateTime::from_parts(
        shifted(d0, s0, f0, SECS_PER_DAY * first, 0).0,
        shifted(d0, s0, f0, SECS_PER_DAY * first, 0).1,
        shifted(d0, s0, f0, SECS_PER_DAY * first, 0).2,
    ));
    if days.is_empty() {
        return Some(next);
    }
    let ghost mut i: int = 0;
    while !days.contains(next.weekday())
        invariant
            0 <= i <= skip,
            0 <= first <= 1,
            start == d0 + first,
            skip == days_until_allowed(start, days@, 6),
            days@.contains(weekday_of_day(start + skip)),
            forall|j: int| 0 <= j < skip ==> !days@.contains(#[trigger] weekday_of_day(start + j)),
            valid_time(s0, f0),
            one_day.secs == SECS_PER_DAY,
            one_day.nanos == 0,
            next.wf(),
            next.day == start + i,
            next == NaiveDateTime::from_parts(
                shifted(d0, s0, f0, SECS_PER_DAY * (first + i), 0).0,
                shifted(d0, s0, f0, SECS_PER_DAY * (first + i), 0).1,
                shifted(d0, s0, f0, SECS_PER_DAY * (first + i), 0).2,
            ),
            target == shifted(d0, s0, f0, SECS_PER_DAY * (first + skip), 0),
            target.0 == d0 + first + skip,
            days_ahead(from, at, days@) == first + skip,
            d0 == from.day,
            from.wf(),
        decreases skip - i,
    {
        assert(i < skip) by {
            if i == skip {
                assert(days@.contains(weekday_of_day(next.day as int)));
            }
        }
        proof {
            lemma_shift_whole_days(d0, s0, f0, first + i);
            lemma_shift_whole_days(d0, s0, f0, first + i + 1);
            lemma_shift_whole_days(next.day as int, next.time.secs as int, next.time.nanos as int, 1);
        }
        match next.checked_add(one_day) {
            Some(t) => next = t,
            None => {
                assert(!valid_day(target.0));
                return None;
            },
        }
        proof {
            i = i + 1;
        }
    }
    assert(i == skip) by {
        if i < skip {
            assert(!days@.contains(weekday_of_day(start + i)));
        }
    }
    Some(next)
}

/// The moment of a run planned at the local date-time `w`, given what the
/// time zone answered for `w`: `offset` where `w` exists exactly once, `None`
/// where it is skipped or repeated. No moment where there is no offset, or
/// where the UTC date-time would not be representable.
pub fn place_local_run(w: NaiveDateTime, offset: Option<i32>) -> (r: Option<LocalDateTime>)
    requires
        w.wf(),
        offset matches Some(o) ==> valid_offset(o as int),
    ensures
        r == match offset {
            Some(o) => match w.plus_offset(-o) {
                Some(utc) => Some(LocalDateTime { utc, offset: o }),
                None => None,
            },
            None => None,
        },
        r matches Some(t) ==> t.wf() && t.local() == Some(w),
{
    match offset {
        Some(o) => LocalDateTime::from_local(w, o),
        None => None,
    }
}

impl Job {
    /// The job's values are valid (see `JobView::wf`).
    pub open spec fn wf(&self) -> bool {
        self@.wf()
    }

    /// Creates a new, empty job: no schedule, no task, next run now.
    pub fn new() -> (job: Job)
        ensures
            job.wf(),
            job@.interval is None,
            job@.at_time is None,
            job@.days == Set::<Weekday>::empty(),
            job@.task is None,
    {
        Job::new_at(local_now())
    }

    /// A new, empty job whose next run is `now`: no schedule, no task.
    pub fn new_at(now: LocalDateTime) -> (job: Job)
        requires
            now.wf(),
        ensures
            job.wf(),
            job@.interval is None,
            job@.at_time is None,
            job@.days == Set::<Weekday>::empty(),
            job@.task is None,
            job@.next_run == now,
    {
        Job {
            rules: ScheduleRules { interval: None, at_time: None, days_of_week: WeekdaySet::new() },
            task: None,
            next_run: now,
        }
    }

    /// Schedules the job to run at a fixed interval. This drops a time of day
    /// and the days of the week set before, which do not go with an interval.
    /// Example: `Job::new().every(5.minutes())`
    pub fn every(self, interval: Duration) -> (job: Job)
        requires
            self.wf(),
            interval.wf(),
        ensures
            job.wf(),
            job@ == with_interval(self@, interval),
    {
        let Job { rules, task, next_run } = self;
        let mut days = rules.days_of_week;
        days.clear();
        Job { rules: ScheduleRules { interval: Some(interval), at_time: None, days_of_week: days }, task, next_run }
    }

    /// Schedules the job to run at a specific time of day, given as "HH:MM"
    /// or "HH:MM:SS". This drops an interval set before; days of the week stay.
    /// Example: `Job::new().at("17:00")`.
    pub fn at(self, time_str: &str) -> (job: Job)
        requires
            self.wf(),
            parsed_time(time_str@) is Some,
        ensures
            job.wf(),
            job@ == with_time(self@, parsed_time(time_str@).unwrap()),
    {
        let time = match parse_time_of_day(time_str, "%H:%M") {
            Some(p) => TimeOfDay { secs: p.0, nanos: p.1 },
            None => match parse_time_of_day(time_str, "%H:%M:%S") {
                Some(p) => TimeOfDay { secs: p.0, nanos: p.1 },
                None => {
                    assert(false);
                    TimeOfDay { secs: 0, nanos: 0 }
                },
            },
        };
        let Job { rules, task, next_run } = self;
        Job {
            rules: ScheduleRules { interval: None, at_time: Some(time), days_of_week: rules.days_of_week },
            task,
            next_run,
        }
    }

    /// Like `at`, but reports a text that is neither "HH:MM" nor "HH:MM:SS"
    /// as `SchedulerError::InvalidTimeFormat` with that text.
    pub fn try_at(self, time_str: &str) -> (r: Result<Job, SchedulerError>)
        requires
            self.wf(),
        ensures
            match r {
                Ok(job) => parsed_time(time_str@) is Some && job.wf() && job@ == with_time(
                    self@,
                    parsed_time(time_str@).unwrap(),
                ),
                Err(e) => parsed_time(time_str@) is None && (e matches SchedulerError::InvalidTimeFormat(s)
                    && s@ == time_str@),
            },
    {
        let fits = match parse_time_of_day(time_str, "%H:%M") {
            Some(_) => true,
            None => parse_time_of_day(time_str, "%H:%M:%S").is_some(),
        };
        if fits {
            Ok(self.at(time_str))
        } else {
            Err(SchedulerError::InvalidTimeFormat(String::from_str(time_str)))
        }
    }

    /// Adds a day of the week for the job to run on; often used with `.at()`.
    /// Example: `Job::new().on(Weekday::Mon).at("09:00")`
    pub fn on(self, day: Weekday) -> (job: Job)
        requires
            self.wf(),
        ensures
            job.wf(),
            job@ == with_day(self@, day),
    {
        let Job { rules, task, next_run } = self;
        let mut days = rules.days_of_week;
        days.insert(day);
        Job { rules: ScheduleRules { interval: rules.interval, at_time: rules.at_time, days_of_week: days }, task, next_run }
    }

    /// Schedules the job for all working days, Monday to Friday.
    pub fn on_weekday(self) -> (job: Job)
        requires
            self.wf(),
        ensures
            job.wf(),
            job@ == with_days(self@, weekdays()),
            job@.days == self@.days.insert(Weekday::Mon).insert(Weekday::Tue).insert(Weekday::Wed).insert(
                Weekday::Thu,
            ).insert(Weekday::Fri),
            job@ == (JobView { days: job@.days, ..self@ }),
    {
        let job = self.on(Weekday::Mon).on(Weekday::Tue).on(Weekday::Wed).on(Weekday::Thu).on(Weekday::Fri);
        assert(job@.days =~= self@.days.union(weekdays()));
        job
    }

    /// Schedules the job for the weekend, Saturday and Sunday.
    pub fn on_weekend(self) -> (job: Job)
        requires
            self.wf(),
        ensures
            job.wf(),
            job@ == with_days(self@, weekend()),
            job@.days == self@.days.insert(Weekday::Sat).insert(Weekday::Sun),
            job@ == (JobView { days: job@.days, ..self@ }),
    {
        let job = self.on(Weekday::Sat).on(Weekday::Sun);
        assert(job@.days =~= self@.days.union(weekend()));
        job
    }

    /// Sets the task to be executed, and computes the first run from the
    /// current moment of the local clock, as `run_at` does from a given moment.
    /// What the clock reads, and the offset it reads in, depend on the machine,
    /// so the contract leaves that moment open: it states that some valid
    /// moment gives the stored next run, as `run_at` states for each moment.
    pub fn run<F: FnMut() + Send + 'static>(self, task: F) -> (job: Job)
        requires
            self.wf(),
        ensures
            job.wf(),
            job@.task matches Some(t) && t.ready() == task.ready() && t.run_completes()
                == task.run_completes() && t.runs() == 0,
            job@.interval == self@.interval,
            job@.at_time == self@.at_time,
            job@.days == self@.days,
            exists|now: LocalDateTime|
                now.wf() && (placed(Some(job@.next_run), #[trigger] next_run_plan(self@, now)) || (
                job@.next_run == self@.next_run && placed(None, next_run_plan(self@, now)))),
    {
        let now = local_now();
        let job = self.run_at(task, now);
        assert(now.wf() && (placed(Some(job@.next_run), next_run_plan(self@, now)) || (job@.next_run
            == self@.next_run && placed(None, next_run_plan(self@, now)))));
        job
    }

    /// Sets the task to be executed, and computes the first run counted from
    /// the moment `now`: where `calculate_next_run` places one, the next run
    /// is that one; where it places none, the next run stays as it was.
    pub fn run_at<F: FnMut() + Send + 'static>(self, task: F, now: LocalDateTime) -> (job: Job)
        requires
            self.wf(),
            now.wf(),
        ensures
            job.wf(),
            job@.task matches Some(t) && t.ready() == task.ready() && t.run_completes()
                == task.run_completes() && t.runs() == 0,
            job@.interval == self@.interval,
            job@.at_time == self@.at_time,
            job@.days == self@.days,
            placed(Some(job@.next_run), next_run_plan(self@, now)) || (job@.next_run == self@.next_run
                && placed(None, next_run_plan(self@, now))),
    {
        let next = self.calculate_next_run(now);
        let Job { rules, task: _, next_run } = self;
        let next_run = match next {
            Some(t) => t,
            None => next_run,
        };
        Job { rules, task: Some(Task::new(task)), next_run }
    }

    /// Takes the task out of the job, leaving none behind.
    pub fn take_task(&mut self) -> (task: Option<Task>)
        ensures
            task == old(self)@.task,
            final(self)@ == (JobView { task: None, ..old(self)@ }),
    {
        self.task.take()
    }

    /// Puts `task` (back) into the job.
    pub fn restore_task(&mut self, task: Task)
        ensures
            final(self)@ == (JobView { task: Some(task), ..old(self)@ }),
    {
        self.task = Some(task);
    }

    /// Where the job runs next, counted from the moment `from` (see `next_run_plan`).
    pub fn plan_next_run(&self, from: LocalDateTime) -> (p: Option<NextRun>)
        requires
            self.wf(),
            from.wf(),
        ensures
            p == next_run_plan(self@, from),
            p matches Some(NextRun::Utc(u)) ==> u.wf(),
            p matches Some(NextRun::Local(w)) ==> w.wf(),
    {
        if let Some(interval) = self.rules.interval {
            return match from.utc.checked_add(interval) {
                Some(u) => Some(NextRun::Utc(u)),
                None => None,
            };
        }
        match self.rules.at_time {
            Some(at) => match from.utc.checked_add_offset(from.offset) {
                Some(wall) => match next_at_time(wall, at, &self.rules.days_of_week) {
                    Some(w) => Some(NextRun::Local(w)),
                    None => None,
                },
                None => None,
            },
            None => match from.utc.checked_add(Duration::from_secs(365 * (SECS_PER_DAY as u64))) {
                Some(u) => Some(NextRun::Utc(u)),
                None => None,
            },
        }
    }

    /// Calculates the next execution time from the moment `from`, based on
    /// the rules, and places it in the local time zone: a UTC date-time gets
    /// the offset in effect there, a local date-time the offset under which
    /// it exists. `None` where there is no plan (see `next_run_plan`), and
    /// where the planned local date-time does not exist exactly once in the
    /// local time zone or its UTC date-time would not be representable.
    /// Which offset the time zone gives depends on the machine's time zone, so
    /// the contract leaves it open: it states that the moment is valid and
    /// fulfils the plan, and `place_local_run` states exactly which moment is
    /// built from a given answer of the time zone.
    pub fn calculate_next_run(&self, from: LocalDateTime) -> (next: Option<LocalDateTime>)
        requires
            self.wf(),
            from.wf(),
        ensures
            placed(next, next_run_plan(self@, from)),
    {
        match self.plan_next_run(from) {
            None => None,
            Some(NextRun::Utc(u)) => {
                let offset = local_offset_at_utc(u.day, u.time.secs);
                Some(LocalDateTime { utc: u, offset })
            },
            Some(NextRun::Local(w)) => place_local_run(w, local_offset_at_local(w.day, w.time.secs)),
        }
    }

    /// The fixed interval the job runs at, if any.
    pub fn interval(&self) -> (r: Option<Duration>)
        ensures
            r == self@.interval,
    {
        self.rules.interval
    }

    /// The time of day the job runs at, if any.
    pub fn at_time(&self) -> (r: Option<TimeOfDay>)
        ensures
            r == self@.at_time,
    {
        self.rules.at_time
    }

    /// The days of the week the job is restricted to (every day where empty).
    pub fn days_of_week(&self) -> (r: &WeekdaySet)
        ensures
            r@ == self@.days,
    {
        &self.rules.days_of_week
    }

    /// Whether a task has been set.
    pub fn has_task(&self) -> (r: bool)
        ensures
            r == self@.task is Some,
    {
        self.task.is_some()
    }

    /// The time of the next run.
    pub fn next_run(&self) -> (t: LocalDateTime)
        ensures
            t == self@.next_run,
    {
        self.next_run
    }

    /// Moves the next run to where `calculate_next_run` places it counted
    /// from `now`, and reports whether it could be placed; where it could not,
    /// the job stays as it was. The offset of the new next run is the time
    /// zone's answer, which the contract leaves open (see `calculate_next_run`).
    pub fn reschedule(&mut self, now: LocalDateTime) -> (placed_ok: bool)
        requires
            old(self).wf(),
            now.wf(),
        ensures
            final(self).wf(),
            placed(
                if placed_ok { Some(final(self)@.next_run) } else { None },
                next_run_plan(old(self)@, now),
            ),
            final(self)@ == (JobView { next_run: final(self)@.next_run, ..old(self)@ }),
            !placed_ok ==> final(self)@ == old(self)@,
    {
        match self.calculate_next_run(now) {
            Some(t) => {
                self.next_run = t;
                true
            },
            None => false,
        }
    }
}

impl Default for Job {
    /// A new, empty job, as `Job::new()`.
    fn default() -> (job: Job)
        ensures
            job.wf(),
            job@.interval is None,
            job@.at_time is None,
            job@.days == Set::<Weekday>::empty(),
            job@.task is None,
    {
        Job::new()
    }
}

} // verus!
