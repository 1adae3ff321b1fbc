//! Properties of schedules that hold for every input: where the next run
//! falls, how the fluent builder steps combine, and what a scheduler tick
//! decides.

use vstd::prelude::*;

use crate::calendar::{nanos_between, shifted, weekday_of_day, LocalDateTime, NaiveDateTime, TimeOfDay, Weekday};
use crate::job::{
    placed,
    days_ahead, days_until_allowed, lemma_allowed_day_found, lemma_shift_whole_days, next_run_plan,
    weekdays, weekend, with_day, with_days, with_interval, with_time, year_secs, JobView, NextRun,
};
use crate::scheduler::{after_round, is_due, lemma_shortest_wait_attained, shortest_wait, wait_nanos};
use crate::time_units::{Duration, NANOS_PER_SEC};

verus! {

/// `a` comes strictly before `b`.
pub open spec fn strictly_before(a: NaiveDateTime, b: NaiveDateTime) -> bool {
    a.not_after(b) && a != b
}

/// Adding a non-empty span to a date-time moves it strictly later.
pub proof fn lemma_plus_is_later(t: NaiveDateTime, add_secs: int, add_nanos: int)
    requires
        t.wf(),
        add_secs >= 0,
        0 <= add_nanos < NANOS_PER_SEC,
        add_secs > 0 || add_nanos > 0,
        t.plus(add_secs, add_nanos) is Some,
    ensures
        strictly_before(t, t.plus(add_secs, add_nanos).unwrap()),
{
    let r = shifted(t.day as int, t.time.secs as int, t.time.nanos as int, add_secs, add_nanos);
    let s = t.time.secs as int;
    let n = t.time.nanos as int;
    if !(n >= NANOS_PER_SEC && add_secs == 0 && n + add_nanos < 2 * NANOS_PER_SEC) {
        let frac = (if n >= NANOS_PER_SEC { n - NANOS_PER_SEC } else { n }) + add_nanos;
        let carry: int = if frac >= NANOS_PER_SEC { 1 } else { 0 };
        let total = s + add_secs + carry;
        if total < 86400 {
            assert(total / 86400 == 0 && total % 86400 == total);
        } else {
            assert(total / 86400 >= 1);
        }
    }
}

/// The next run of a job comes strictly after the moment it is counted from:
/// a run planned in UTC comes after its UTC date-time (unless the job runs at
/// an interval of zero), a run planned in local time after its local date-time.
pub proof fn law_next_run_is_later(v: JobView, from: LocalDateTime)
    requires
        v.wf(),
        from.wf(),
        next_run_plan(v, from) is Some,
        v.interval matches Some(d) ==> d.total_nanos() > 0,
    ensures
        match next_run_plan(v, from).unwrap() {
            NextRun::Utc(u) => strictly_before(from.utc, u),
            NextRun::Local(w) => strictly_before(from.local().unwrap(), w),
        },
{
    match v.interval {
        Some(d) => {
            lemma_plus_is_later(from.utc, d.secs as int, d.nanos as int);
        },
        None => match v.at_time {
            Some(at) => {
                let wall = from.local().unwrap();
                let k = days_ahead(wall, at, v.days);
                assert(k >= 0);
                lemma_shift_whole_days(wall.day as int, at.secs as int, at.nanos as int, k);
            },
            None => {
                lemma_plus_is_later(from.utc, year_secs(), 0);
            },
        },
    }
}

/// A job that runs at a time of day on chosen days of the week runs next on
/// one of those days (in local time).
pub proof fn law_next_run_on_chosen_day(v: JobView, from: LocalDateTime)
    requires
        v.wf(),
        from.wf(),
        v.interval is None,
        v.at_time is Some,
        v.days != Set::<Weekday>::empty(),
        next_run_plan(v, from) is Some,
    ensures
        next_run_plan(v, from).unwrap() matches NextRun::Local(w) && v.days.contains(
            weekday_of_day(w.day as int),
        ),
{
    let at = v.at_time.unwrap();
    let wall = from.local().unwrap();
    let first: int = if at.not_after(wall.time) { 1 } else { 0 };
    let start = wall.day + first;
    lemma_allowed_day_found(start, v.days);
    let k = days_ahead(wall, at, v.days);
    lemma_shift_whole_days(wall.day as int, at.secs as int, at.nanos as int, k);
    assert(wall.day + k == start + days_until_allowed(start, v.days, 6));
}

/// A job that runs at a time of day runs next at that local time, on the
/// first day from the local date of `from` on that the time is still ahead
/// and that is allowed by the days of the week (any day where none are
/// chosen); that day lies at most a week ahead. A leap-second time of day
/// keeps its leap second only on the date of `from`; on a later day it runs in
/// the second the leap second extends, as date-time arithmetic moves it.
pub proof fn law_next_run_is_first_occurrence(v: JobView, from: LocalDateTime)
    requires
        v.wf(),
        from.wf(),
        v.interval is None,
        v.at_time is Some,
        next_run_plan(v, from) is Some,
    ensures
        ({
            let at = v.at_time.unwrap();
            let wall = from.local().unwrap();
            &&& next_run_plan(v, from).unwrap() is Local
            &&& {
                let t = next_run_plan(v, from).unwrap()->Local_0;
                &&& t.time.secs == at.secs
                &&& t.time.nanos == if t.day == wall.day || at.nanos < NANOS_PER_SEC {
                    at.nanos
                } else {
                    (at.nanos - NANOS_PER_SEC) as u32
                }
                &&& wall.day <= t.day <= wall.day + 7
                &&& at.not_after(wall.time) ==> t.day > wall.day
                &&& v.days == Set::<Weekday>::empty() || v.days.contains(weekday_of_day(t.day as int))
                &&& forall|d: int|
                    wall.day <= d < t.day ==> (d == wall.day && at.not_after(wall.time)) || (v.days
                        != Set::<Weekday>::empty() && !v.days.contains(#[trigger] weekday_of_day(d)))
            }
        }),
{
    let at = v.at_time.unwrap();
    let wall = from.local().unwrap();
    let first: int = if at.not_after(wall.time) { 1 } else { 0 };
    let start = wall.day + first;
    let k = days_ahead(wall, at, v.days);
    lemma_shift_whole_days(wall.day as int, at.secs as int, at.nanos as int, k);
    let t = next_run_plan(v, from).unwrap()->Local_0;
    if v.days != Set::<Weekday>::empty() {
        lemma_allowed_day_found(start, v.days);
        let r = days_until_allowed(start, v.days, 6);
        assert(t.day == start + r);
        assert forall|d: int| wall.day <= d < t.day implies (d == wall.day && at.not_after(wall.time)) || (
        v.days != Set::<Weekday>::empty() && !v.days.contains(#[trigger] weekday_of_day(d))) by {
            if d >= start {
                assert(weekday_of_day(start + (d - start)) == weekday_of_day(d));
            }
        }
    }
}

/// Choosing a day of the week and choosing a time of day can come in either order.
pub proof fn law_day_and_time_commute(v: JobView, day: Weekday, time: TimeOfDay)
    ensures
        with_time(with_day(v, day), time) == with_day(with_time(v, time), day),
{
}

/// Choosing days of the week can come in any order, and choosing a day twice
/// is choosing it once.
pub proof fn law_days_commute_and_repeat(v: JobView, a: Weekday, b: Weekday)
    ensures
        with_day(with_day(v, a), b) == with_day(with_day(v, b), a),
        with_day(with_day(v, a), a) == with_day(v, a),
{
    assert(with_day(with_day(v, a), b).days =~= with_day(with_day(v, b), a).days);
    assert(with_day(with_day(v, a), a).days =~= with_day(v, a).days);
}

/// An interval set last wins: whatever time of day or days were chosen
/// before, the job is the same as if only the interval had been set.
pub proof fn law_interval_set_last_wins(v: JobView, time: TimeOfDay, day: Weekday, interval: Duration)
    ensures
        with_interval(with_day(with_time(v, time), day), interval) == with_interval(v, interval),
{
}

/// A time of day set after an interval drops the interval.
pub proof fn law_time_set_last_drops_interval(v: JobView, interval: Duration, time: TimeOfDay)
    ensures
        with_time(with_interval(v, interval), time).interval is None,
        with_time(with_interval(v, interval), time).at_time == Some(time),
{
}

/// Working days and weekend together are every day of the week.
pub proof fn law_weekdays_and_weekend_cover_the_week(v: JobView)
    ensures
        forall|w: Weekday| #[trigger] with_days(with_days(v, weekdays()), weekend()).days.contains(w),
        with_days(with_days(v, weekdays()), weekend()) == with_days(with_days(v, weekend()), weekdays()),
{
    assert forall|w: Weekday| #[trigger] with_days(with_days(v, weekdays()), weekend()).days.contains(w) by {
        match w {
            Weekday::Mon => assert(weekdays().contains(w)),
            Weekday::Tue => assert(weekdays().contains(w)),
            Weekday::Wed => assert(weekdays().contains(w)),
            Weekday::Thu => assert(weekdays().contains(w)),
            Weekday::Fri => assert(weekdays().contains(w)),
            Weekday::Sat => assert(weekend().contains(w)),
            Weekday::Sun => assert(weekend().contains(w)),
        }
    }
    assert(with_days(with_days(v, weekdays()), weekend()).days =~= with_days(
        with_days(v, weekend()),
        weekdays(),
    ).days);
}

/// Choosing the weekend adds exactly Saturday and Sunday, and choosing the
/// working days adds exactly Monday to Friday: any other day is chosen
/// afterwards only where it was chosen before. No day is both a working day
/// and a weekend day.
pub proof fn law_weekend_and_weekdays_add_exactly_their_days(v: JobView, d: Weekday)
    ensures
        with_days(v, weekend()).days.contains(d) <==> (v.days.contains(d) || d == Weekday::Sat || d
            == Weekday::Sun),
        with_days(v, weekdays()).days.contains(d) <==> (v.days.contains(d) || (d != Weekday::Sat && d
            != Weekday::Sun)),
        !(weekdays().contains(d) && weekend().contains(d)),
{
}

/// The sleep that a tick picks is positive, at most the cap, and no longer
/// than the wait until any job's next run that is still ahead.
pub proof fn law_sleep_is_shortest_wait(jobs: Seq<JobView>, now: LocalDateTime, cap: int)
    requires
        cap > 0,
    ensures
        0 < shortest_wait(jobs, now, cap) <= cap,
        forall|i: int|
            0 <= i < jobs.len() && 0 < wait_nanos(now, #[trigger] jobs[i].next_run) ==> shortest_wait(
                jobs,
                now,
                cap,
            ) <= wait_nanos(now, jobs[i].next_run),
    decreases jobs.len(),
{
    if jobs.len() > 0 {
        law_sleep_is_shortest_wait(jobs.drop_last(), now, cap);
        assert forall|i: int|
            0 <= i < jobs.len() && 0 < wait_nanos(now, #[trigger] jobs[i].next_run) implies shortest_wait(
            jobs,
            now,
            cap,
        ) <= wait_nanos(now, jobs[i].next_run) by {
            if i < jobs.len() - 1 {
                assert(jobs.drop_last()[i] == jobs[i]);
            }
        }
    }
}

/// A due job whose next run is planned in UTC (it runs at a non-zero
/// interval, or without a schedule) is no longer due once rescheduled at the
/// same moment.
pub proof fn law_rescheduled_job_is_not_due(job: JobView, now: LocalDateTime, next: LocalDateTime)
    requires
        job.wf(),
        now.wf(),
        job.at_time is None,
        job.interval matches Some(d) ==> d.total_nanos() > 0,
        next_run_plan(job, now) matches Some(NextRun::Utc(u)) && next.utc == u,
    ensures
        !is_due(JobView { next_run: next, ..job }, now),
{
    law_next_run_is_later(job, now);
}

/// A date-time outside a leap second.
pub open spec fn not_leap(t: NaiveDateTime) -> bool {
    t.time.nanos < NANOS_PER_SEC
}

/// The position of a date-time on a line of nanoseconds.
pub open spec fn timeline(t: NaiveDateTime) -> int {
    (t.day * 86400 + t.time.secs) * 1_000_000_000 + t.time.nanos
}

/// Outside leap seconds, date-times are ordered as their positions on the line.
pub proof fn lemma_timeline_order(a: NaiveDateTime, b: NaiveDateTime)
    requires
        a.wf(),
        b.wf(),
        not_leap(a),
        not_leap(b),
    ensures
        a.not_after(b) <==> timeline(a) <= timeline(b),
{
    let (da, sa, na) = (a.day as int, a.time.secs as int, a.time.nanos as int);
    let (db, sb, nb) = (b.day as int, b.time.secs as int, b.time.nanos as int);
    assert((da < db || (da == db && (sa < sb || (sa == sb && na <= nb)))) <==> ((da * 86400 + sa)
        * 1_000_000_000 + na <= (db * 86400 + sb) * 1_000_000_000 + nb)) by (nonlinear_arith)
        requires
            0 <= sa < 86400,
            0 <= sb < 86400,
            0 <= na < 1_000_000_000,
            0 <= nb < 1_000_000_000,
    ;
}

/// Outside leap seconds, the wait from `now` until a job's next run `next`
/// is the distance along the line from the one to the other where the run
/// is still ahead, and nothing where it is not: the date is part of the
/// distance, so a run just after midnight is waited for from the evening before.
pub proof fn law_wait_is_time_until_next_run(now: LocalDateTime, next: LocalDateTime)
    requires
        now.wf(),
        next.wf(),
        not_leap(now.utc),
        not_leap(next.utc),
    ensures
        wait_nanos(now, next) == if strictly_before(now.utc, next.utc) {
            timeline(next.utc) - timeline(now.utc)
        } else {
            0
        },
{
    let (a, b) = (now.utc, next.utc);
    lemma_timeline_order(a, b);
    lemma_timeline_order(b, a);
    let (da, sa, na) = (a.day as int, a.time.secs as int, a.time.nanos as int);
    let (db, sb, nb) = (b.day as int, b.time.secs as int, b.time.nanos as int);
    assert(((db - da) * 86400 + sb - sa) * 1_000_000_000 + nb - na == ((db * 86400 + sb) * 1_000_000_000
        + nb) - ((da * 86400 + sa) * 1_000_000_000 + na)) by (nonlinear_arith);
    assert(nanos_between(a, b) == timeline(b) - timeline(a));
    if timeline(a) == timeline(b) {
        assert(a.not_after(b) && b.not_after(a));
        assert(a == b);
    }
}

/// Outside leap seconds, the sleep that a tick picks lasts until the nearest
/// next run still ahead of `now`, or the cap where that is nearer: it is no
/// longer than the time until any run still ahead, and it is the cap or the
/// time until one of them.
pub proof fn law_sleep_reaches_nearest_run(jobs: Seq<JobView>, now: LocalDateTime, cap: int)
    requires
        cap > 0,
        now.wf(),
        not_leap(now.utc),
        forall|i: int| 0 <= i < jobs.len() ==> (#[trigger] jobs[i]).next_run.wf() && not_leap(jobs[i].next_run.utc),
    ensures
        forall|i: int|
            0 <= i < jobs.len() && strictly_before(now.utc, #[trigger] jobs[i].next_run.utc) ==> shortest_wait(
                jobs,
                now,
                cap,
            ) <= timeline(jobs[i].next_run.utc) - timeline(now.utc),
        shortest_wait(jobs, now, cap) == cap || exists|i: int|
            0 <= i < jobs.len() && strictly_before(now.utc, #[trigger] jobs[i].next_run.utc) && shortest_wait(
                jobs,
                now,
                cap,
            ) == timeline(jobs[i].next_run.utc) - timeline(now.utc),
{
    law_sleep_is_shortest_wait(jobs, now, cap);
    lemma_shortest_wait_attained(jobs, now, cap);
    assert forall|i: int|
        0 <= i < jobs.len() && strictly_before(now.utc, #[trigger] jobs[i].next_run.utc) implies shortest_wait(
        jobs,
        now,
        cap,
    ) <= timeline(jobs[i].next_run.utc) - timeline(now.utc) by {
        law_wait_is_time_until_next_run(now, jobs[i].next_run);
    }
    if shortest_wait(jobs, now, cap) != cap {
        let k = choose|k: int|
            0 <= k < jobs.len() && 0 < wait_nanos(now, #[trigger] jobs[k].next_run) && shortest_wait(jobs, now, cap)
                == wait_nanos(now, jobs[k].next_run);
        law_wait_is_time_until_next_run(now, jobs[k].next_run);
    }
}

/// Outside leap seconds, adding a span moves a date-time along the line by that span.
pub proof fn lemma_plus_timeline(t: NaiveDateTime, add_secs: int, add_nanos: int)
    requires
        t.wf(),
        not_leap(t),
        add_secs >= 0,
        0 <= add_nanos < NANOS_PER_SEC,
        t.plus(add_secs, add_nanos) is Some,
    ensures
        not_leap(t.plus(add_secs, add_nanos).unwrap()),
        timeline(t.plus(add_secs, add_nanos).unwrap()) == timeline(t) + add_secs * 1_000_000_000 + add_nanos,
{
    let r = t.plus(add_secs, add_nanos).unwrap();
    let frac = t.time.nanos + add_nanos;
    let carry: int = if frac >= NANOS_PER_SEC { 1 } else { 0 };
    let total = t.time.secs + add_secs + carry;
    let q = total / 86400;
    let m = total % 86400;
    assert(q * 86400 + m == total) by (nonlinear_arith)
        requires
            q == total / 86400,
            m == total % 86400,
    ;
    assert(r.day == t.day + q && r.time.secs == m && r.time.nanos == frac - carry * NANOS_PER_SEC);
    assert(timeline(r) == ((t.day + q) * 86400 + m) * 1_000_000_000 + frac - carry * 1_000_000_000);
    assert(((t.day + q) * 86400 + m) * 1_000_000_000 == (t.day * 86400 + total) * 1_000_000_000) by (nonlinear_arith)
        requires
            q * 86400 + m == total,
    ;
    assert((t.day * 86400 + total) * 1_000_000_000 == (t.day * 86400 + t.time.secs) * 1_000_000_000
        + add_secs * 1_000_000_000 + carry * 1_000_000_000) by (nonlinear_arith)
        requires
            total == t.time.secs + add_secs + carry,
    ;
}

/// Moving a date-time by a UTC offset moves it along the line by that many seconds.
pub proof fn lemma_offset_timeline(t: NaiveDateTime, offset: int)
    requires
        t.wf(),
        -86400 < offset < 86400,
        t.plus_offset(offset) is Some,
    ensures
        t.plus_offset(offset).unwrap().time.nanos == t.time.nanos,
        timeline(t.plus_offset(offset).unwrap()) == timeline(t) + offset * 1_000_000_000,
{
    let r = t.plus_offset(offset).unwrap();
    let s = t.time.secs + offset;
    let q = s / 86400;
    let m = s % 86400;
    assert(q * 86400 + m == s) by (nonlinear_arith)
        requires
            q == s / 86400,
            m == s % 86400,
    ;
    assert(((t.day + q) * 86400 + m) * 1_000_000_000 == (t.day * 86400 + t.time.secs) * 1_000_000_000
        + offset * 1_000_000_000) by (nonlinear_arith)
        requires
            q * 86400 + m == t.time.secs + offset,
    ;
}

/// Date-times are ordered by their whole seconds from the start of the day
/// count, then by their nanosecond parts.
pub proof fn lemma_order_by_seconds(a: NaiveDateTime, b: NaiveDateTime)
    requires
        a.wf(),
        b.wf(),
    ensures
        a.not_after(b) <==> (a.day * 86400 + a.time.secs < b.day * 86400 + b.time.secs || (a.day * 86400
            + a.time.secs == b.day * 86400 + b.time.secs && a.time.nanos <= b.time.nanos)),
{
    let (da, sa, db, sb) = (a.day as int, a.time.secs as int, b.day as int, b.time.secs as int);
    assert((da < db || (da == db && sa < sb)) <==> da * 86400 + sa < db * 86400 + sb) by (nonlinear_arith)
        requires
            0 <= sa < 86400,
            0 <= sb < 86400,
    ;
    assert((da == db && sa == sb) <==> da * 86400 + sa == db * 86400 + sb) by (nonlinear_arith)
        requires
            0 <= sa < 86400,
            0 <= sb < 86400,
    ;
}

/// Moving two date-times by the same UTC offset keeps their order.
pub proof fn lemma_offset_keeps_order(a: NaiveDateTime, b: NaiveDateTime, offset: int)
    requires
        a.wf(),
        b.wf(),
        -86400 < offset < 86400,
        a.plus_offset(offset) is Some,
        b.plus_offset(offset) is Some,
    ensures
        a.not_after(b) <==> a.plus_offset(offset).unwrap().not_after(b.plus_offset(offset).unwrap()),
{
    let ra = a.plus_offset(offset).unwrap();
    let rb = b.plus_offset(offset).unwrap();
    lemma_order_by_seconds(a, b);
    lemma_order_by_seconds(ra, rb);
    let sa = a.time.secs + offset;
    let sb = b.time.secs + offset;
    assert((sa / 86400) * 86400 + sa % 86400 == sa) by (nonlinear_arith);
    assert((sb / 86400) * 86400 + sb % 86400 == sb) by (nonlinear_arith);
    assert(ra.day * 86400 + ra.time.secs == a.day * 86400 + a.time.secs + offset) by (nonlinear_arith)
        requires
            ra.day == a.day + sa / 86400,
            ra.time.secs == sa % 86400,
            (sa / 86400) * 86400 + sa % 86400 == sa,
            sa == a.time.secs + offset,
    ;
    assert(rb.day * 86400 + rb.time.secs == b.day * 86400 + b.time.secs + offset) by (nonlinear_arith)
        requires
            rb.day == b.day + sb / 86400,
            rb.time.secs == sb % 86400,
            (sb / 86400) * 86400 + sb % 86400 == sb,
            sb == b.time.secs + offset,
    ;
}

/// A later starting moment never gives an earlier next run: for starting
/// moments outside leap seconds, where both starts, and both runs, see the
/// same offset of local time.
pub proof fn law_later_start_never_runs_earlier(
    v: JobView,
    from1: LocalDateTime,
    from2: LocalDateTime,
    t1: LocalDateTime,
    t2: LocalDateTime,
)
    requires
        v.wf(),
        from1.wf(),
        from2.wf(),
        not_leap(from1.utc),
        not_leap(from2.utc),
        from1.offset == from2.offset,
        t1.offset == t2.offset,
        from1.not_after(from2),
        placed(Some(t1), next_run_plan(v, from1)),
        placed(Some(t2), next_run_plan(v, from2)),
    ensures
        t1.not_after(t2),
{
    lemma_timeline_order(from1.utc, from2.utc);
    match v.interval {
        Some(d) => {
            lemma_plus_timeline(from1.utc, d.secs as int, d.nanos as int);
            lemma_plus_timeline(from2.utc, d.secs as int, d.nanos as int);
            lemma_timeline_order(t1.utc, t2.utc);
        },
        None => match v.at_time {
            Some(at) => {
                let wall1 = from1.local().unwrap();
                let wall2 = from2.local().unwrap();
                lemma_offset_timeline(from1.utc, from1.offset as int);
                lemma_offset_timeline(from2.utc, from2.offset as int);
                lemma_timeline_order(wall1, wall2);
                assert(wall1.not_after(wall2));
                law_next_run_is_first_occurrence(v, from1);
                law_next_run_is_first_occurrence(v, from2);
                let w1 = next_run_plan(v, from1).unwrap()->Local_0;
                let w2 = next_run_plan(v, from2).unwrap()->Local_0;
                assert(w1.day <= w2.day) by {
                    if w2.day < w1.day {
                        assert(wall1.day <= w2.day);
                        assert(v.days == Set::<Weekday>::empty() || v.days.contains(weekday_of_day(w2.day as int)));
                        assert(w2.day == wall1.day && at.not_after(wall1.time));
                    }
                }
                assert(w1.not_after(w2)) by {
                    if w1.day == w2.day && w2.day > wall2.day {
                        assert(w1.day > wall1.day);
                    }
                }
                lemma_offset_keeps_order(t1.utc, t2.utc, t1.offset as int);
            },
            None => {
                lemma_plus_timeline(from1.utc, year_secs(), 0);
                lemma_plus_timeline(from2.utc, year_secs(), 0);
                lemma_timeline_order(t1.utc, t2.utc);
            },
        },
    }
}

/// In a round, a job whose next run has come (is not after the round's
/// moment) has its task run exactly once, the same task put back, and is
/// rescheduled from that moment; a job whose next run has not come is left
/// exactly as it was, its task not run. So no job is passed over: every round
/// at or after a job's next run runs it.
pub proof fn law_round_runs_each_due_job_once(before: JobView, after: JobView, now: LocalDateTime)
    requires
        after_round(before, after, now),
    ensures
        before.next_run.not_after(now) ==> (before.task matches Some(t) ==> (after.task matches Some(u)
            && u.id() == t.id() && u.runs() == t.runs() + 1)),
        before.next_run.not_after(now) ==> placed(Some(after.next_run), next_run_plan(before, now)),
        !before.next_run.not_after(now) ==> after == before,
{
}

} // verus!
