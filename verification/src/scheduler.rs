//! The scheduler: it holds the jobs and decides, tick by tick, which of them
//! are due, where each next runs, and how long to sleep until the next tick.

use vstd::prelude::*;

use crate::calendar::{nanos_between, LocalDateTime};
use crate::job::{next_run_plan, placed, Job, JobView, Task};
use crate::laws::law_sleep_is_shortest_wait;
use crate::time_units::{Duration, NANOS_PER_SEC};

verus! {

/// Seconds that the scheduler sleeps at most between two ticks.
pub const MAX_SLEEP_SECS: u64 = 60;

/// A job is due at `now` when its next run is not after `now`.
pub open spec fn is_due(job: JobView, now: LocalDateTime) -> bool {
    job.next_run.not_after(now)
}

/// Nanoseconds from `now` until `next`, or zero where `next` is not later.
pub open spec fn wait_nanos(now: LocalDateTime, next: LocalDateTime) -> int {
    if nanos_between(now.utc, next.utc) > 0 {
        nanos_between(now.utc, next.utc)
    } else {
        0
    }
}

/// The shortest positive wait from `now` until the next run of one of
/// `jobs`, where it is shorter than `cap`; else `cap`.
pub open spec fn shortest_wait(jobs: Seq<JobView>, now: LocalDateTime, cap: int) -> int
    decreases jobs.len(),
{
    if jobs.len() == 0 {
        cap
    } else {
        let rest = shortest_wait(jobs.drop_last(), now, cap);
        let w = wait_nanos(now, jobs.last().next_run);
        if 0 < w && w < rest {
            w
        } else {
            rest
        }
    }
}

/// `after` is the task `before` became by exactly one run: no task where
/// there was none, else the same task, run once more, whose run from
/// `before` completed.
pub open spec fn ran(before: Option<Task>, after: Option<Task>) -> bool {
    match before {
        Some(t) => after matches Some(u) && u.id() == t.id() && u.runs() == t.runs() + 1
            && t.run_completes(),
        None => after is None,
    }
}

/// `after` is the due job `before` after its turn in a round at `now`: same
/// rules, its task run once, and its next run placed counted from `now`.
pub open spec fn ran_and_rescheduled(before: JobView, after: JobView, now: LocalDateTime) -> bool {
    &&& after.interval == before.interval
    &&& after.at_time == before.at_time
    &&& after.days == before.days
    &&& ran(before.task, after.task)
    &&& placed(Some(after.next_run), next_run_plan(before, now))
}

/// `after` is the job `before` after its turn in a round at `now`: a due job
/// is run and rescheduled, any other job is left alone.
pub open spec fn after_round(before: JobView, after: JobView, now: LocalDateTime) -> bool {
    if is_due(before, now) {
        ran_and_rescheduled(before, after, now)
    } else {
        after == before
    }
}

/// The task of every job due at `now` may be run.
pub open spec fn due_tasks_ready(jobs: Seq<JobView>, now: LocalDateTime) -> bool {
    forall|i: int|
        0 <= i < jobs.len() && is_due(#[trigger] jobs[i], now) ==> (jobs[i].task matches Some(t) ==> t.ready())
}

/// The shortest wait is the cap itself, or the positive wait until the next
/// run of one of the jobs.
pub proof fn lemma_shortest_wait_attained(jobs: Seq<JobView>, now: LocalDateTime, cap: int)
    ensures
        shortest_wait(jobs, now, cap) == cap || exists|i: int|
            0 <= i < jobs.len() && 0 < wait_nanos(now, #[trigger] jobs[i].next_run) && shortest_wait(jobs, now, cap)
                == wait_nanos(now, jobs[i].next_run),
    decreases jobs.len(),
{
    if jobs.len() > 0 {
        let rest_jobs = jobs.drop_last();
        lemma_shortest_wait_attained(rest_jobs, now, cap);
        let rest = shortest_wait(rest_jobs, now, cap);
        let w = wait_nanos(now, jobs.last().next_run);
        if 0 < w && w < rest {
            assert(jobs[jobs.len() - 1] == jobs.last());
        } else if rest != cap {
            let i = choose|i: int|
                0 <= i < rest_jobs.len() && 0 < wait_nanos(now, #[trigger] rest_jobs[i].next_run) && rest
                    == wait_nanos(now, rest_jobs[i].next_run);
            assert(rest_jobs[i] == jobs[i]);
        }
    }
}

/// The main scheduler runtime. It holds all jobs and runs them at their scheduled times.
pub struct Scheduler {
    jobs: Vec<Job>,
}

impl View for Scheduler {
    type V = Seq<JobView>;

    closed spec fn view(&self) -> Seq<JobView> {
        Seq::new(self.jobs@.len(), |i: int| self.jobs@[i]@)
    }
}

impl Scheduler {
    /// Every job is valid.
    pub open spec fn wf(&self) -> bool {
        forall|i: int| 0 <= i < self@.len() ==> (#[trigger] self@[i]).wf()
    }

    /// Creates a new, empty Scheduler.
    pub fn new() -> (s: Scheduler)
        ensures
            s.wf(),
            s@ == Seq::<JobView>::empty(),
    {
        let s = Scheduler { jobs: Vec::new() };
        assert(s@ =~= Seq::<JobView>::empty());
        s
    }

    /// Adds a configured job; a job without a task (no `.run()`) is left out.
    pub fn add(&mut self, job: Job)
        requires
            old(self).wf(),
            job.wf(),
        ensures
            final(self).wf(),
            final(self)@ == if job@.task is Some {
                old(self)@.push(job@)
            } else {
                old(self)@
            },
    {
        if !job.has_task() {
            return;
        }
        let ghost j = job@;
        self.jobs.push(job);
        assert(self@ =~= old(self)@.push(j));
    }

    /// The number of jobs.
    pub fn len(&self) -> (n: usize)
        ensures
            n == self@.len(),
    {
        self.jobs.len()
    }

    /// Whether the scheduler holds no job.
    pub fn is_empty(&self) -> (r: bool)
        ensures
            r == (self@.len() == 0),
    {
        self.jobs.len() == 0
    }

    /// Takes the task out of job `i`, to run it.
    pub fn take_task(&mut self, i: usize) -> (task: Option<Task>)
        requires
            i < old(self)@.len(),
        ensures
            task == old(self)@[i as int].task,
            final(self)@ == old(self)@.update(i as int, JobView { task: None, ..old(self)@[i as int] }),
    {
        let task = self.jobs[i].take_task();
        assert(self@ =~= old(self)@.update(i as int, JobView { task: None, ..old(self)@[i as int] }));
        task
    }

    /// Puts `task` (back) into job `i`.
    pub fn restore_task(&mut self, i: usize, task: Task)
        requires
            i < old(self)@.len(),
        ensures
            final(self)@ == old(self)@.update(i as int, JobView { task: Some(task), ..old(self)@[i as int] }),
    {
        self.jobs[i].restore_task(task);
        assert(self@ =~= old(self)@.update(i as int, JobView { task: Some(task), ..old(self)@[i as int] }));
    }

    /// Whether job `i` is due at `now`.
    pub fn job_is_due(&self, i: usize, now: LocalDateTime) -> (r: bool)
        requires
            i < self@.len(),
        ensures
            r == is_due(self@[i as int], now),
    {
        assert(self@[i as int] == self.jobs@[i as int]@);
        self.jobs[i].next_run().is_not_after(&now)
    }

    /// Moves the next run of job `i` to where `Job::calculate_next_run`
    /// places it counted from `now`, and reports whether it could be placed;
    /// where it could not, the scheduler stays as it was.
    pub fn reschedule(&mut self, i: usize, now: LocalDateTime) -> (placed_ok: bool)
        requires
            old(self).wf(),
            i < old(self)@.len(),
            now.wf(),
        ensures
            final(self).wf(),
            final(self)@.len() == old(self)@.len(),
            placed(
                if placed_ok { Some(final(self)@[i as int].next_run) } else { None },
                next_run_plan(old(self)@[i as int], now),
            ),
            final(self)@ == old(self)@.update(
                i as int,
                JobView { next_run: final(self)@[i as int].next_run, ..old(self)@[i as int] },
            ),
            !placed_ok ==> final(self)@ == old(self)@,
    {
        assert(self@[i as int] == self.jobs@[i as int]@);
        assert(self.jobs@[i as int].wf());
        let placed_ok = self.jobs[i].reschedule(now);
        assert(self@[i as int] == self.jobs@[i as int]@);
        assert(self@ =~= old(self)@.update(
            i as int,
            JobView { next_run: self@[i as int].next_run, ..old(self)@[i as int] },
        ));
        assert forall|k: int| 0 <= k < self@.len() implies (#[trigger] self@[k]).wf() by {
            if k != i {
                assert(self@[k] == old(self)@[k]);
            }
        }
        placed_ok
    }

    /// One round of the scheduler at `now`: each due job, in order, runs its
    /// task once (where it has one) and is rescheduled counted from `now`;
    /// the other jobs are left alone. Hands back how long to sleep until the
    /// next round. Where a due job's next run cannot be placed (see
    /// `Job::calculate_next_run`), the round stops at that job, after its task
    /// ran, and hands back its position.
    pub fn tick(&mut self, now: LocalDateTime) -> (r: Result<Duration, usize>)
        requires
            old(self).wf(),
            now.wf(),
            due_tasks_ready(old(self)@, now),
        ensures
            final(self).wf(),
            final(self)@.len() == old(self)@.len(),
            match r {
                Ok(sleep) => {
                    &&& sleep.wf()
                    &&& sleep.total_nanos() == shortest_wait(final(self)@, now, MAX_SLEEP_SECS * NANOS_PER_SEC)
                    &&& 0 < sleep.total_nanos() <= MAX_SLEEP_SECS * NANOS_PER_SEC
                    &&& forall|i: int|
                        0 <= i < final(self)@.len() && 0 < #[trigger] nanos_between(now.utc, final(self)@[i].next_run.utc)
                            ==> sleep.total_nanos() <= nanos_between(now.utc, final(self)@[i].next_run.utc)
                    &&& (sleep.total_nanos() == MAX_SLEEP_SECS * NANOS_PER_SEC || exists|i: int|
                        0 <= i < final(self)@.len() && 0 < #[trigger] nanos_between(now.utc, final(self)@[i].next_run.utc)
                            && sleep.total_nanos() == nanos_between(now.utc, final(self)@[i].next_run.utc))
                    &&& forall|i: int|
                        0 <= i < old(self)@.len() ==> after_round(
                            old(self)@[i],
                            #[trigger] final(self)@[i],
                            now,
                        )
                },
                Err(k) => {
                    &&& k < old(self)@.len()
                    &&& is_due(old(self)@[k as int], now)
                    &&& placed(None, next_run_plan(old(self)@[k as int], now))
                    &&& ran(old(self)@[k as int].task, final(self)@[k as int].task)
                    &&& final(self)@[k as int] == (JobView {
                        task: final(self)@[k as int].task,
                        ..old(self)@[k as int]
                    })
                    &&& forall|i: int|
                        0 <= i < k ==> after_round(old(self)@[i], #[trigger] final(self)@[i], now)
                    &&& forall|i: int| k < i < old(self)@.len() ==> #[trigger] final(self)@[i] == old(self)@[i]
                },
            },
    {
        let mut i: usize = 0;
        while i < self.len()
            invariant
                self.wf(),
                now.wf(),
                i <= self@.len(),
                self@.len() == old(self)@.len(),
                due_tasks_ready(old(self)@, now),
                forall|k: int| 0 <= k < i ==> after_round(old(self)@[k], #[trigger] self@[k], now),
                forall|k: int| i <= k < self@.len() ==> #[trigger] self@[k] == old(self)@[k],
            decreases self@.len() - i,
        {
            if self.job_is_due(i, now) {
                let ghost before = self@;
                let task = self.take_task(i);
                match task {
                    Some(mut t) => {
                        assert(is_due(old(self)@[i as int], now));
                        t.call();
                        self.restore_task(i, t);
                    },
                    None => {},
                }
                assert forall|k: int| 0 <= k < self@.len() implies (#[trigger] self@[k]).wf() by {
                    assert(before[k].wf());
                }
                assert(ran(old(self)@[i as int].task, self@[i as int].task));
                let ghost mid = self@;
                if !self.reschedule(i, now) {
                    return Err(i);
                }
                assert(self@[i as int].task == mid[i as int].task);
            }
            i = i + 1;
        }
        Ok(self.sleep_duration(now))
    }

    /// How long to sleep at `now` until the next tick: the shortest positive
    /// wait until a job's next run, and at most a minute.
    pub fn sleep_duration(&self, now: LocalDateTime) -> (sleep: Duration)
        requires
            self.wf(),
            now.wf(),
        ensures
            sleep.wf(),
            sleep.total_nanos() == shortest_wait(self@, now, MAX_SLEEP_SECS * NANOS_PER_SEC),
            0 < sleep.total_nanos() <= MAX_SLEEP_SECS * NANOS_PER_SEC,
            forall|i: int|
                0 <= i < self@.len() && 0 < #[trigger] nanos_between(now.utc, self@[i].next_run.utc)
                    ==> sleep.total_nanos() <= nanos_between(now.utc, self@[i].next_run.utc),
            sleep.total_nanos() == MAX_SLEEP_SECS * NANOS_PER_SEC || exists|i: int|
                0 <= i < self@.len() && 0 < #[trigger] nanos_between(now.utc, self@[i].next_run.utc)
                    && sleep.total_nanos() == nanos_between(now.utc, self@[i].next_run.utc),
    {
        let mut sleep = Duration::from_secs(MAX_SLEEP_SECS);
        let mut i: usize = 0;
        while i < self.jobs.len()
            invariant
                self.wf(),
                now.wf(),
                i <= self@.len(),
                sleep.wf(),
                sleep.total_nanos() == shortest_wait(self@.take(i as int), now, MAX_SLEEP_SECS * NANOS_PER_SEC),
            decreases self@.len() - i,
        {
            assert(self@[i as int] == self.jobs@[i as int]@);
            assert(self@[i as int].wf());
            let next = self.jobs[i].next_run();
            let wait = next.saturating_duration_since(&now);
            if !wait.is_zero() && wait.is_shorter_than(&sleep) {
                sleep = wait;
            }
            assert(self@.take(i + 1).drop_last() =~= self@.take(i as int));
            assert(self@.take(i + 1).last() == self@[i as int]);
            i = i + 1;
        }
        assert(self@.take(i as int) =~= self@);
        proof {
            let cap = MAX_SLEEP_SECS * NANOS_PER_SEC;
            law_sleep_is_shortest_wait(self@, now, cap);
            lemma_shortest_wait_attained(self@, now, cap);
            assert forall|k: int|
                0 <= k < self@.len() && 0 < #[trigger] nanos_between(now.utc, self@[k].next_run.utc) implies sleep.total_nanos()
                <= nanos_between(now.utc, self@[k].next_run.utc) by {
                assert(0 < wait_nanos(now, self@[k].next_run));
            }
            if sleep.total_nanos() != cap {
                let k = choose|k: int|
                    0 <= k < self@.len() && 0 < wait_nanos(now, #[trigger] self@[k].next_run)
                        && shortest_wait(self@, now, cap) == wait_nanos(now, self@[k].next_run);
                assert(0 < nanos_between(now.utc, self@[k].next_run.utc));
            }
        }
        sleep
    }
}

impl Default for Scheduler {
    /// A new, empty scheduler, as `Scheduler::new()`.
    fn default() -> (s: Scheduler)
        ensures
            s.wf(),
            s@ == Seq::<JobView>::empty(),
    {
        Scheduler::new()
    }
}

} // verus!
