//! The scan scheduler: what to do at each round boundary.
//!
//! The scheduler does no work itself. Its owner runs the batches of a round
//! in parallel, waits for all of them, and hands their outcomes back
//! together with a reading of a monotonic clock. The scheduler folds the
//! outcomes into the tally, says whether a progress report is due, and
//! plans the next round.

use vstd::prelude::*;
use crate::counter::{tally, ScanCounter};
use crate::scan::BatchOutcome;

verus! {

/// Number of keys in one batch.
pub const BATCH_SIZE: usize = 5000;

/// Seconds between two progress reports.
pub const REPORT_INTERVAL_SECS: u64 = 10;

/// The number of batches to run side by side on a machine with `cpus`
/// processors: one processor is left free.
pub open spec fn workers_for(cpus: nat) -> nat {
    if cpus > 0 {
        (cpus - 1) as nat
    } else {
        0
    }
}

/// Calls `num_cpus::get`. Trusted: the count is at least one; it depends on
/// the machine and may differ from call to call.
#[verifier::external_body]
fn detected_cpus() -> (cpus: usize)
    ensures
        cpus >= 1,
{
    num_cpus::get()
}

/// What the owner of the scheduler does next.
#[derive(Clone, Copy, Debug, PartialEq, Eq, Structural)]
pub enum Step {
    /// Stop scanning.
    Stop,
    /// Run `workers` batches of `batch_size` keys side by side, and wait for
    /// all of them.
    Round { workers: usize, batch_size: usize },
}

/// The state of a scheduler.
pub struct SchedulerView {
    pub workers: usize,
    pub batch_size: usize,
    pub report_interval: u64,
    pub last_report: u64,
    pub processed: nat,
}

/// The sizes of the batches in `outcomes`, in order.
pub open spec fn processed_of(outcomes: Seq<BatchOutcome>) -> Seq<nat> {
    outcomes.map_values(|o: BatchOutcome| o.processed as nat)
}

/// Whether a report is due at `now`: the interval has passed since the last
/// report.
pub open spec fn report_due(state: SchedulerView, now: u64) -> bool {
    now - state.last_report >= state.report_interval
}

/// The scheduler of a scan.
#[derive(Debug)]
pub struct ScanScheduler {
    workers: usize,
    batch_size: usize,
    report_interval: u64,
    last_report: u64,
    counter: ScanCounter,
}

impl View for ScanScheduler {
    type V = SchedulerView;

    closed spec fn view(&self) -> SchedulerView {
        SchedulerView {
            workers: self.workers,
            batch_size: self.batch_size,
            report_interval: self.report_interval,
            last_report: self.last_report,
            processed: self.counter@,
        }
    }
}

/// The number of batches to run side by side on `cpus` processors.
pub fn worker_count(cpus: usize) -> (workers: usize)
    ensures
        workers == workers_for(cpus as nat),
{
    if cpus > 0 {
        cpus - 1
    } else {
        0
    }
}

impl ScanScheduler {
    /// A scheduler for a machine with `cpus` processors, started at clock
    /// reading `now`, with nothing processed yet.
    pub fn new(cpus: usize, batch_size: usize, report_interval: u64, now: u64) -> (scheduler:
        ScanScheduler)
        ensures
            scheduler@ == (SchedulerView {
                workers: workers_for(cpus as nat) as usize,
                batch_size,
                report_interval,
                last_report: now,
                processed: 0,
            }),
    {
        ScanScheduler {
            workers: worker_count(cpus),
            batch_size,
            report_interval,
            last_report: now,
            counter: ScanCounter::new(),
        }
    }

    /// A scheduler for the machine it runs on. The number of workers is one
    /// less than the number of processors found, whatever that is.
    pub fn for_this_machine(batch_size: usize, report_interval: u64, now: u64) -> (scheduler:
        ScanScheduler)
        ensures
            scheduler@.workers < usize::MAX,
            scheduler@.batch_size == batch_size,
            scheduler@.report_interval == report_interval,
            scheduler@.last_report == now,
            scheduler@.processed == 0,
    {
        ScanScheduler::new(detected_cpus(), batch_size, report_interval, now)
    }

    /// Plans the next round. A request to cancel is honoured here, at the
    /// round boundary, and nowhere else.
    pub fn plan(&self, cancelled: bool) -> (step: Step)
        ensures
            step == if cancelled {
                Step::Stop
            } else {
                Step::Round { workers: self@.workers, batch_size: self@.batch_size }
            },
    {
        if cancelled {
            Step::Stop
        } else {
            Step::Round { workers: self.workers, batch_size: self.batch_size }
        }
    }

    /// Takes in the outcomes of a finished round at clock reading `now`.
    ///
    /// Each batch is added to the tally once, as a whole. Then, if the
    /// report interval has passed since the last report, the new tally is
    /// returned to be reported and `now` becomes the time of the last
    /// report.
    pub fn finish_round(&mut self, outcomes: &Vec<BatchOutcome>, now: u64) -> (report: Option<
        usize,
    >)
        ensures
            final(self)@.processed == tally(old(self)@.processed, processed_of(outcomes@)),
            final(self)@.workers == old(self)@.workers,
            final(self)@.batch_size == old(self)@.batch_size,
            final(self)@.report_interval == old(self)@.report_interval,
            report.is_some() == report_due(old(self)@, now),
            report matches Some(total) ==> total == final(self)@.processed,
            final(self)@.last_report == if report_due(old(self)@, now) {
                now
            } else {
                old(self)@.last_report
            },
    {
        let ghost start = self.counter@;
        let mut i: usize = 0;
        while i < outcomes.len()
            invariant
                i <= outcomes@.len(),
                self.counter@ == tally(start, processed_of(outcomes@).take(i as int)),
                self.workers == old(self).workers,
                self.batch_size == old(self).batch_size,
                self.report_interval == old(self).report_interval,
                self.last_report == old(self).last_report,
            decreases outcomes@.len() - i,
        {
            proof {
                let sizes = processed_of(outcomes@);
                assert(sizes.take(i + 1).drop_last() =~= sizes.take(i as int));
            }
            self.counter.add_batch(outcomes[i].processed);
            i = i + 1;
        }
        proof {
            let sizes = processed_of(outcomes@);
            assert(sizes.take(outcomes@.len() as int) =~= sizes);
        }
        if now >= self.last_report && now - self.last_report >= self.report_interval {
            self.last_report = now;
            Some(self.counter.value())
        } else {
            None
        }
    }

    /// The tally of keys processed so far.
    pub fn processed(&self) -> (total: usize)
        ensures
            total == self@.processed,
    {
        self.counter.value()
    }
}

} // verus!
