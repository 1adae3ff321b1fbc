use std::sync::atomic::{AtomicUsize, Ordering as AtomicOrdering};
use std::sync::Arc;
use chrono::{DateTime, Datelike, FixedOffset, Local, NaiveDate, NaiveTime, Offset, TimeDelta, TimeZone, Timelike};
use fluent_schedule::calendar::{MAX_DAY, MIN_DAY};
use fluent_schedule::{
    Duration, FluentDuration, Job, LocalDateTime, NaiveDateTime, NextRun, Scheduler, SchedulerError,
    TimeOfDay, Weekday, WeekdaySet,
};

fn tod(t: NaiveTime) -> TimeOfDay {
    TimeOfDay { secs: t.num_seconds_from_midnight(), nanos: t.nanosecond() }
}

fn naive(n: chrono::NaiveDateTime) -> NaiveDateTime {
    NaiveDateTime { day: n.date().num_days_from_ce(), time: tod(n.time()) }
}

fn moment(t: DateTime<Local>) -> LocalDateTime {
    LocalDateTime { utc: naive(t.naive_utc()), offset: t.offset().fix().local_minus_utc() }
}

fn at(y: i32, mo: u32, d: u32, h: u32, mi: u32, s: u32) -> chrono::NaiveDateTime {
    NaiveDate::from_ymd_opt(y, mo, d).unwrap().and_hms_opt(h, mi, s).unwrap()
}

fn weekday_of(w: chrono::Weekday) -> Weekday {
    match w {
        chrono::Weekday::Mon => Weekday::Mon,
        chrono::Weekday::Tue => Weekday::Tue,
        chrono::Weekday::Wed => Weekday::Wed,
        chrono::Weekday::Thu => Weekday::Thu,
        chrono::Weekday::Fri => Weekday::Fri,
        chrono::Weekday::Sat => Weekday::Sat,
        chrono::Weekday::Sun => Weekday::Sun,
    }
}

/// The next run as chrono computes it for the same rules, step by step.
fn chrono_next_run(
    interval: Option<std::time::Duration>,
    at_time: Option<NaiveTime>,
    days: &[chrono::Weekday],
    from: DateTime<Local>,
) -> DateTime<Local> {
    if let Some(interval) = interval {
        return from + TimeDelta::from_std(interval).unwrap();
    }
    if let Some(time) = at_time {
        let mut next_run = from.date_naive().and_time(time);
        if from.time() >= time {
            next_run = next_run + TimeDelta::try_days(1).unwrap();
        }
        if !days.is_empty() {
            while !days.contains(&next_run.weekday()) {
                next_run = next_run + TimeDelta::try_days(1).unwrap();
            }
        }
        return next_run.and_local_timezone(Local).unwrap();
    }
    from + TimeDelta::try_days(365).unwrap()
}

// --- calendar arithmetic, held against chrono ---

#[test]
fn day_range_matches_chrono() {
    assert_eq!(NaiveDate::MIN.num_days_from_ce(), MIN_DAY);
    assert_eq!(NaiveDate::MAX.num_days_from_ce(), MAX_DAY);
}

#[test]
fn weekday_matches_chrono() {
    let mut dates = vec![NaiveDate::MIN, NaiveDate::MAX, NaiveDate::from_ymd_opt(1, 1, 1).unwrap()];
    let mut d = NaiveDate::from_ymd_opt(-3, 2, 20).unwrap();
    for _ in 0..20 {
        dates.push(d);
        d = d + TimeDelta::try_days(37).unwrap();
    }
    dates.push(NaiveDate::from_ymd_opt(2025, 11, 10).unwrap());
    for date in dates {
        let t = naive(date.and_hms_opt(0, 0, 0).unwrap());
        assert_eq!(t.weekday(), weekday_of(date.weekday()), "{}", date);
    }
    // 2025-11-10 was a Monday.
    assert_eq!(naive(at(2025, 11, 10, 0, 0, 0)).weekday(), Weekday::Mon);
    assert_eq!(Weekday::Sun.num_days_from_monday(), 6);
}

#[test]
fn checked_add_matches_chrono() {
    let starts = vec![
        at(2025, 11, 10, 12, 0, 0),
        at(2024, 2, 28, 23, 59, 59),
        NaiveDate::from_ymd_opt(2016, 12, 31).unwrap().and_hms_nano_opt(23, 59, 59, 1_500_000_000).unwrap(),
        NaiveDate::from_ymd_opt(2000, 1, 1).unwrap().and_hms_nano_opt(0, 0, 0, 999_999_999).unwrap(),
    ];
    let spans = vec![
        (0u64, 0u32),
        (0, 400_000_000),
        (0, 600_000_000),
        (1, 0),
        (59, 999_999_999),
        (86_400, 0),
        (86_400 * 365, 1),
        (3 * 86_400 + 17, 250),
    ];
    for s in &starts {
        for (secs, nanos) in &spans {
            let expected = s.checked_add_signed(TimeDelta::new(*secs as i64, *nanos).unwrap()).map(naive);
            let got = naive(*s).checked_add(Duration { secs: *secs, nanos: *nanos });
            assert_eq!(got, expected, "{} + {}s {}ns", s, secs, nanos);
        }
    }
}

#[test]
fn checked_add_leaves_range() {
    let last = NaiveDate::MAX.and_hms_opt(12, 0, 0).unwrap();
    assert_eq!(naive(last).checked_add(Duration::from_secs(86_400)), None);
    assert!(naive(last).checked_add(Duration::from_secs(3600)).is_some());
    assert_eq!(naive(at(2025, 1, 1, 0, 0, 0)).checked_add(Duration { secs: u64::MAX, nanos: 999_999_999 }), None);
}

#[test]
fn checked_add_offset_matches_chrono() {
    let starts = vec![
        at(2025, 11, 10, 0, 30, 0),
        at(2025, 11, 10, 23, 30, 0),
        NaiveDate::MIN.and_hms_opt(1, 0, 0).unwrap(),
        NaiveDate::MAX.and_hms_opt(22, 0, 0).unwrap(),
    ];
    for s in &starts {
        for offset in [-86_399, -18_000, -1, 0, 5_400, 7_200, 86_399] {
            let expected = s.checked_add_offset(FixedOffset::east_opt(offset).unwrap()).map(naive);
            assert_eq!(naive(*s).checked_add_offset(offset), expected, "{} {}", s, offset);
        }
    }
}

#[test]
fn local_moments_round_trip() {
    let wall = naive(at(2025, 11, 10, 14, 0, 0));
    let m = LocalDateTime::from_local(wall, 3600).unwrap();
    assert_eq!(m.utc, naive(at(2025, 11, 10, 13, 0, 0)));
    assert_eq!(m.naive_local(), wall);
    let early = naive(at(2025, 11, 10, 0, 30, 0));
    let m = LocalDateTime::from_local(early, 7200).unwrap();
    assert_eq!(m.utc, naive(at(2025, 11, 9, 22, 30, 0)));
    assert!(LocalDateTime::from_local(naive(NaiveDate::MIN.and_hms_opt(0, 0, 0).unwrap()), 60).is_none());
    let now = moment(Local.with_ymd_and_hms(2025, 11, 10, 12, 0, 0).unwrap());
    assert_eq!(now.naive_local(), naive(at(2025, 11, 10, 12, 0, 0)));
}

#[test]
fn duration_since_matches_chrono() {
    let points = vec![
        at(2025, 11, 10, 12, 0, 0),
        at(2025, 11, 10, 12, 0, 1),
        at(2025, 11, 12, 8, 30, 0),
        NaiveDate::from_ymd_opt(2025, 11, 10).unwrap().and_hms_nano_opt(11, 59, 59, 1_250_000_000).unwrap(),
        NaiveDate::from_ymd_opt(2025, 11, 10).unwrap().and_hms_nano_opt(12, 0, 0, 700_000_000).unwrap(),
    ];
    for a in &points {
        for b in &points {
            let expected = b.signed_duration_since(*a).to_std().unwrap_or(std::time::Duration::ZERO);
            let got = naive(*b).saturating_duration_since(&naive(*a));
            assert_eq!((got.as_secs(), got.subsec_nanos()), (expected.as_secs(), expected.subsec_nanos()));
            let got = LocalDateTime { utc: naive(*b), offset: 3600 }
                .saturating_duration_since(&LocalDateTime { utc: naive(*a), offset: -7200 });
            assert_eq!((got.as_secs(), got.subsec_nanos()), (expected.as_secs(), expected.subsec_nanos()));
        }
    }
}

#[test]
fn time_of_day_order() {
    let ten = TimeOfDay { secs: 36_000, nanos: 0 };
    let later = TimeOfDay { secs: 36_000, nanos: 1 };
    assert!(ten.is_not_after(&later));
    assert!(ten.is_not_after(&ten));
    assert!(!later.is_not_after(&ten));
    let a = LocalDateTime { utc: naive(at(2025, 1, 1, 10, 0, 0)), offset: 0 };
    let b = LocalDateTime { utc: naive(at(2025, 1, 1, 9, 0, 0)), offset: 7200 };
    assert!(b.is_not_after(&a));
    assert!(!a.is_not_after(&b));
}

#[test]
fn weekday_set_operations() {
    let mut set = WeekdaySet::new();
    assert!(set.is_empty());
    set.insert(Weekday::Tue);
    set.insert(Weekday::Tue);
    assert!(set.contains(Weekday::Tue));
    assert!(!set.contains(Weekday::Wed));
    assert!(!set.is_empty());
    set.clear();
    assert!(set.is_empty());
}

// --- durations ---

#[test]
fn fluent_durations() {
    assert_eq!(5u32.seconds(), Duration { secs: 5, nanos: 0 });
    assert_eq!(10u64.minutes(), Duration::from_secs(600));
    assert_eq!(2usize.hours(), Duration::from_secs(7200));
    assert_eq!(3u32.hours().as_secs(), 10_800);
    assert_eq!(u32::MAX.hours().as_secs(), u32::MAX as u64 * 3600);
    assert_eq!(7u64.seconds().subsec_nanos(), 0);
    assert!(Duration { secs: 1, nanos: 5 }.is_shorter_than(&Duration { secs: 1, nanos: 6 }));
    assert!(!Duration { secs: 2, nanos: 0 }.is_shorter_than(&Duration { secs: 1, nanos: 999_999_999 }));
    assert!(Duration::from_secs(0).is_zero());
    assert!(!Duration { secs: 0, nanos: 1 }.is_zero());
}

// --- errors ---

#[test]
fn try_at_reports_invalid_time() {
    let r = Job::new().try_at("not-a-time");
    assert!(matches!(&r, Err(SchedulerError::InvalidTimeFormat(s)) if s == "not-a-time"));
    let r = Job::new().try_at("25:00");
    assert!(r.is_err());
    let ok = Job::new().try_at("09:15").unwrap();
    assert_eq!(ok.at_time(), Some(TimeOfDay { secs: 9 * 3600 + 15 * 60, nanos: 0 }));
}

#[test]
fn error_messages() {
    let e = SchedulerError::InvalidTimeFormat("xx".to_string());
    assert_eq!(e.message(), "Invalid time format: 'xx'. Expected 'HH:MM' or 'HH:MM:SS'.");
    assert_eq!(
        SchedulerError::TaskNotSet.message(),
        "Job was not given a task to run. Call .run() to set a task."
    );
}

// --- parsing through chrono ---

#[test]
fn at_parses_like_chrono() {
    for text in ["00:00", "23:59", "7:05", "10:30:45", "23:59:60"] {
        let expected = NaiveTime::parse_from_str(text, "%H:%M")
            .or_else(|_| NaiveTime::parse_from_str(text, "%H:%M:%S"))
            .unwrap();
        assert_eq!(Job::new().at(text).at_time(), Some(tod(expected)), "{}", text);
    }
}

#[test]
fn leap_second_time_moves_to_last_second_on_later_days() {
    // Chrono leaves a leap second when a whole day is added to it.
    let now = LocalDateTime { utc: naive(at(2025, 11, 10, 23, 59, 59)), offset: 0 };
    let job = Job::new().at("23:59:60");
    let today = job.plan_next_run(now);
    assert_eq!(
        today,
        Some(NextRun::Local(NaiveDateTime {
            day: now.utc.day,
            time: TimeOfDay { secs: 86_399, nanos: 1_000_000_000 }
        }))
    );
    let later = LocalDateTime {
        utc: naive(NaiveDate::from_ymd_opt(2025, 11, 10).unwrap().and_hms_nano_opt(23, 59, 59, 1_500_000_000).unwrap()),
        offset: 0,
    };
    assert_eq!(job.plan_next_run(later), Some(NextRun::Local(naive(at(2025, 11, 11, 23, 59, 59)))));
}

// --- the next run, held against chrono ---

#[test]
fn next_run_matches_chrono() {
    let schedules: Vec<(Option<std::time::Duration>, Option<&str>, Vec<chrono::Weekday>)> = vec![
        (Some(std::time::Duration::from_secs(5)), None, vec![]),
        (Some(std::time::Duration::new(3 * 3600, 250_000_000)), None, vec![]),
        (None, Some("08:00"), vec![]),
        (None, Some("12:00"), vec![chrono::Weekday::Mon]),
        (None, Some("17:00"), vec![chrono::Weekday::Sat, chrono::Weekday::Sun]),
        (None, Some("06:30:15"), vec![chrono::Weekday::Wed]),
        (None, None, vec![]),
    ];
    let start = Local.with_ymd_and_hms(2025, 11, 10, 12, 0, 0).unwrap();
    for (interval, time, days) in &schedules {
        let mut job = Job::new();
        if let Some(i) = interval {
            job = job.every(Duration { secs: i.as_secs(), nanos: i.subsec_nanos() });
        }
        if let Some(t) = time {
            job = job.at(t);
        }
        for d in days {
            job = job.on(weekday_of(*d));
        }
        let at_time = time.map(|t| NaiveTime::parse_from_str(t, "%H:%M").or_else(|_| NaiveTime::parse_from_str(t, "%H:%M:%S")).unwrap());
        let mut from = start;
        for _ in 0..40 {
            let expected = chrono_next_run(*interval, at_time, days, from);
            let got = job.calculate_next_run(moment(from)).unwrap();
            assert_eq!(got, moment(expected), "from {}", from);
            from = from + TimeDelta::try_minutes(7 * 60 + 13).unwrap();
        }
    }
}

// --- laws on concrete values ---

#[test]
fn next_run_is_later_and_first_allowed_day() {
    let job = Job::new().on(Weekday::Sun).on(Weekday::Tue).at("08:00");
    let mut now = at(2025, 11, 10, 12, 0, 0); // a Monday
    for _ in 0..30 {
        let from = LocalDateTime { utc: naive(now), offset: 0 };
        let next = match job.plan_next_run(from) {
            Some(NextRun::Local(w)) => w,
            other => panic!("unexpected plan {:?}", other),
        };
        assert!(from.utc.is_not_after(&next) && from.utc != next);
        assert!(matches!(next.weekday(), Weekday::Sun | Weekday::Tue));
        assert_eq!(next.time_of_day(), TimeOfDay { secs: 8 * 3600, nanos: 0 });
        assert!(next.num_days_from_ce() - from.utc.num_days_from_ce() <= 7);
        // No earlier allowed day between `from` and `next`.
        let mut d = from.utc.num_days_from_ce();
        while d < next.num_days_from_ce() {
            let candidate = NaiveDateTime { day: d, time: TimeOfDay { secs: 8 * 3600, nanos: 0 } };
            let allowed = matches!(candidate.weekday(), Weekday::Sun | Weekday::Tue);
            assert!(!allowed || candidate.is_not_after(&from.utc));
            d += 1;
        }
        now = now + TimeDelta::try_hours(17).unwrap();
    }
}

#[test]
fn interval_run_is_later_in_utc() {
    let job = Job::new().every(1u32.seconds());
    let from = LocalDateTime { utc: naive(at(2025, 3, 30, 0, 59, 59)), offset: 3600 };
    let next = job.plan_next_run(from);
    assert_eq!(next, Some(NextRun::Utc(naive(at(2025, 3, 30, 1, 0, 0)))));
}

#[test]
fn builder_steps_commute() {
    let a = Job::new().on(Weekday::Mon).at("09:00");
    let b = Job::new().at("09:00").on(Weekday::Mon);
    assert_eq!(a.at_time(), b.at_time());
    assert_eq!(a.interval(), b.interval());
    for w in [Weekday::Mon, Weekday::Tue, Weekday::Sun] {
        assert_eq!(a.days_of_week().contains(w), b.days_of_week().contains(w));
    }
    let c = Job::new().at("09:00").on(Weekday::Mon).every(3u32.seconds());
    assert!(c.at_time().is_none());
    assert!(c.days_of_week().is_empty());
    assert_eq!(c.interval(), Some(3u32.seconds()));
    let d = Job::new().every(3u32.seconds()).at("09:00");
    assert!(d.interval().is_none());
    let all = Job::new().on_weekday().on_weekend();
    for w in [Weekday::Mon, Weekday::Tue, Weekday::Wed, Weekday::Thu, Weekday::Fri, Weekday::Sat, Weekday::Sun] {
        assert!(all.days_of_week().contains(w));
    }
}

#[test]
fn take_task_twice_gives_none() {
    let mut job = Job::new().run(|| {});
    assert!(job.take_task().is_some());
    assert!(job.take_task().is_none());
    job.restore_task(fluent_schedule::Task::new(|| {}));
    assert!(job.has_task());
}

// --- the scheduler ---

#[test]
fn scheduler_leaves_out_jobs_without_task() {
    let mut s = Scheduler::default();
    assert!(s.is_empty());
    s.add(Job::new().every(5u32.seconds()));
    assert_eq!(s.len(), 0);
    s.add(Job::new().every(5u32.seconds()).run(|| {}));
    assert_eq!(s.len(), 1);
}

#[test]
fn scheduler_reschedules_due_jobs_and_picks_sleep() {
    let mut s = Scheduler::new();
    s.add(Job::new().every(5u32.seconds()).run(|| {}));
    s.add(Job::new().at("12:00:30").run(|| {}));
    s.add(Job::new().every(10u32.minutes()).run(|| {}));
    // Far ahead of the first runs, every job is due.
    let later = moment(Local.with_ymd_and_hms(2030, 1, 1, 12, 0, 0).unwrap());
    for i in 0..s.len() {
        assert!(s.job_is_due(i, later));
        assert!(s.reschedule(i, later));
        assert!(!s.job_is_due(i, later));
    }
    // Next runs: +5 s, 12:00:30 local the same day, +10 min: the shortest wait is 5 s.
    assert_eq!(s.sleep_duration(later), Duration::from_secs(5));
}

#[test]
fn scheduler_sleep_is_capped_at_a_minute() {
    let mut s = Scheduler::new();
    s.add(Job::new().every(2u32.hours()).run(|| {}));
    let far = moment(Local.with_ymd_and_hms(2030, 1, 1, 0, 0, 0).unwrap());
    assert!(s.job_is_due(0, far));
    assert!(s.reschedule(0, far));
    assert_eq!(s.sleep_duration(far), Duration::from_secs(60));
}

#[test]
fn scheduler_tasks_can_be_taken_and_restored() {
    let mut s = Scheduler::new();
    s.add(Job::new().every(1u32.seconds()).run(|| {}));
    let mut task = s.take_task(0).unwrap();
    task.call();
    assert!(s.take_task(0).is_none());
    s.restore_task(0, task);
    assert!(s.take_task(0).is_some());
}

#[test]
fn scheduler_cannot_reschedule_past_last_date() {
    let mut s = Scheduler::new();
    s.add(Job::new().every(1u32.hours()).run(|| {}));
    let last = LocalDateTime { utc: naive(NaiveDate::MAX.and_hms_opt(23, 30, 0).unwrap()), offset: 0 };
    assert!(s.job_is_due(0, last));
    assert!(!s.reschedule(0, last));
    assert!(s.job_is_due(0, last));
}

#[test]
fn run_counts_the_first_run_from_the_clock() {
    let before = Local::now();
    let job = Job::new().every(60u32.seconds()).run(|| {});
    let after = Local::now();
    let next = job.next_run();
    let low = moment(before + TimeDelta::try_seconds(60).unwrap());
    let high = moment(after + TimeDelta::try_seconds(60).unwrap());
    assert!(low.is_not_after(&next) && next.is_not_after(&high));
    assert_eq!(next.offset, moment(after + TimeDelta::try_seconds(60).unwrap()).offset);
}

#[test]
fn run_stores_the_given_closure() {
    let count = Arc::new(AtomicUsize::new(0));
    let c = count.clone();
    let mut job = Job::new().every(1u32.seconds()).run(move || {
        c.fetch_add(1, AtomicOrdering::SeqCst);
    });
    let job2 = job.take_task();
    let mut task = job2.unwrap();
    task.call();
    task.call();
    assert_eq!(count.load(AtomicOrdering::SeqCst), 2);
    job.restore_task(task);
    let mut moved = Job::new().on(Weekday::Mon);
    moved.restore_task(job.take_task().unwrap());
    let mut again = moved.on(Weekday::Tue).at("10:00").take_task().unwrap();
    again.call();
    assert_eq!(count.load(AtomicOrdering::SeqCst), 3);
}

#[test]
fn tick_runs_due_tasks_once_and_reschedules() {
    let runs = Arc::new(AtomicUsize::new(0));
    let (r1, r2) = (runs.clone(), runs.clone());
    let mut s = Scheduler::new();
    s.add(Job::new().every(5u32.seconds()).run(move || {
        r1.fetch_add(1, AtomicOrdering::SeqCst);
    }));
    s.add(Job::new().every(10u32.minutes()).run(move || {
        r2.fetch_add(10, AtomicOrdering::SeqCst);
    }));
    let later = moment(Local.with_ymd_and_hms(2030, 1, 1, 12, 0, 0).unwrap());
    assert_eq!(s.tick(later), Ok(Duration::from_secs(5)));
    assert_eq!(runs.load(AtomicOrdering::SeqCst), 11);
    // Nothing is due at the same moment any more.
    assert_eq!(s.tick(later), Ok(Duration::from_secs(5)));
    assert_eq!(runs.load(AtomicOrdering::SeqCst), 11);
    let five_later = moment(Local.with_ymd_and_hms(2030, 1, 1, 12, 0, 5).unwrap());
    assert_eq!(s.tick(five_later), Ok(Duration::from_secs(5)));
    assert_eq!(runs.load(AtomicOrdering::SeqCst), 12);
}

#[test]
fn tick_stops_where_a_run_cannot_be_placed() {
    let mut s = Scheduler::new();
    s.add(Job::new().every(1u32.hours()).run(|| {}));
    s.add(Job::new().every(1u32.seconds()).run(|| {}));
    let last = LocalDateTime { utc: naive(NaiveDate::MAX.and_hms_opt(23, 30, 0).unwrap()), offset: 0 };
    assert_eq!(s.tick(last), Err(0));
    assert!(s.job_is_due(1, last));
}

#[test]
fn placing_a_local_run() {
    let w = naive(at(2025, 11, 10, 14, 0, 0));
    assert_eq!(fluent_schedule::job::place_local_run(w, None), None);
    let m = fluent_schedule::job::place_local_run(w, Some(-3600)).unwrap();
    assert_eq!(m.utc, naive(at(2025, 11, 10, 15, 0, 0)));
    assert_eq!(m.offset, -3600);
}

#[test]
fn later_start_never_runs_earlier() {
    let jobs = vec![
        Job::new().every(90u32.minutes()),
        Job::new().at("09:30").on(Weekday::Thu),
        Job::new().at("23:00"),
        Job::new(),
    ];
    for job in &jobs {
        let mut prev: Option<LocalDateTime> = None;
        let mut t = at(2025, 11, 10, 0, 0, 0);
        for _ in 0..60 {
            let from = LocalDateTime { utc: naive(t), offset: 0 };
            let next = job.calculate_next_run(from).unwrap();
            if let Some(p) = prev {
                assert!(p.is_not_after(&next));
            }
            prev = Some(next);
            t = t + TimeDelta::try_minutes(97).unwrap();
        }
    }
}

#[test]
fn new_at_and_run_at_count_from_the_given_moment() {
    let now = LocalDateTime { utc: naive(at(2025, 11, 10, 12, 0, 0)), offset: 0 };
    let job = Job::new_at(now);
    assert_eq!(job.next_run(), now);
    assert!(!job.has_task());
    let job = job.every(5u32.minutes()).run_at(|| {}, now);
    assert!(job.has_task());
    assert_eq!(job.next_run().utc, naive(at(2025, 11, 10, 12, 5, 0)));
    let last = LocalDateTime { utc: naive(NaiveDate::MAX.and_hms_opt(23, 59, 0).unwrap()), offset: 0 };
    let kept = Job::new_at(now).every(1u32.hours()).run_at(|| {}, last);
    assert_eq!(kept.next_run(), now);
}

#[test]
fn later_start_never_runs_earlier_for_a_leap_second_time() {
    let job = Job::new().at("23:59:60");
    let mut prev: Option<NaiveDateTime> = None;
    let mut t = at(2025, 11, 10, 23, 0, 0);
    for _ in 0..40 {
        let from = LocalDateTime { utc: naive(t), offset: 0 };
        let next = match job.plan_next_run(from) {
            Some(NextRun::Local(w)) => w,
            other => panic!("unexpected plan {:?}", other),
        };
        if let Some(p) = prev {
            assert!(p.is_not_after(&next));
        }
        prev = Some(next);
        t = t + TimeDelta::try_minutes(29).unwrap();
    }
}
