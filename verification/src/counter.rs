//! The tally of keys processed.
//!
//! The tally grows by one whole batch at a time. It is a machine integer and
//! wraps around at `usize::MAX`; below that bound it is the exact number of
//! keys processed.

use vstd::prelude::*;

verus! {

/// The tally after a batch of `batch` keys is added to `total`.
pub open spec fn wrapped_sum(total: nat, batch: nat) -> nat {
    if total + batch <= usize::MAX {
        total + batch
    } else {
        (total + batch - usize::MAX - 1) as nat
    }
}

/// The sum of the batch sizes.
pub open spec fn sum(batches: Seq<nat>) -> nat
    decreases batches.len(),
{
    if batches.len() == 0 {
        0
    } else {
        sum(batches.drop_last()) + batches.last()
    }
}

/// The tally after the batches are added to `start` one by one.
pub open spec fn tally(start: nat, batches: Seq<nat>) -> nat
    decreases batches.len(),
{
    if batches.len() == 0 {
        start
    } else {
        wrapped_sum(tally(start, batches.drop_last()), batches.last())
    }
}

/// The batches of one round: `workers` batches of `batch` keys each.
pub open spec fn round_of(workers: nat, batch: nat) -> Seq<nat> {
    Seq::new(workers, |i: int| batch)
}

/// The tally after `rounds` rounds of `workers` batches of `batch` keys.
pub open spec fn after_rounds(start: nat, rounds: nat, workers: nat, batch: nat) -> nat
    decreases rounds,
{
    if rounds == 0 {
        start
    } else {
        tally(after_rounds(start, (rounds - 1) as nat, workers, batch), round_of(workers, batch))
    }
}

/// A tally of keys processed.
#[derive(Debug)]
pub struct ScanCounter {
    total: usize,
}

impl View for ScanCounter {
    type V = nat;

    closed spec fn view(&self) -> nat {
        self.total as nat
    }
}

impl ScanCounter {
    /// A tally of zero.
    pub fn new() -> (counter: ScanCounter)
        ensures
            counter@ == 0,
    {
        ScanCounter { total: 0 }
    }

    /// Adds one finished batch of `batch` keys to the tally, in one step.
    pub fn add_batch(&mut self, batch: usize)
        ensures
            final(self)@ == wrapped_sum(old(self)@, batch as nat),
    {
        let room: usize = usize::MAX - self.total;
        if batch <= room {
            self.total = self.total + batch;
        } else {
            self.total = batch - room - 1;
        }
    }

    /// The tally as it stands.
    pub fn value(&self) -> (total: usize)
        ensures
            total == self@,
    {
        self.total
    }
}

/// While the true total fits the machine integer, the tally is the true
/// total: the start plus the sum of the batches.
pub proof fn lemma_tally_exact(start: nat, batches: Seq<nat>)
    requires
        start + sum(batches) <= usize::MAX,
    ensures
        tally(start, batches) == start + sum(batches),
    decreases batches.len(),
{
    if batches.len() > 0 {
        lemma_tally_exact(start, batches.drop_last());
    }
}

/// A round of `workers` batches of `batch` keys sums to their product.
pub proof fn lemma_round_sum(workers: nat, batch: nat)
    ensures
        sum(round_of(workers, batch)) == workers * batch,
    decreases workers,
{
    if workers == 0 {
        assert(workers * batch == 0) by (nonlinear_arith)
            requires
                workers == 0,
        ;
    } else {
        let shorter = (workers - 1) as nat;
        assert(round_of(workers, batch).drop_last() =~= round_of(shorter, batch));
        lemma_round_sum(shorter, batch);
        assert(shorter * batch + batch == workers * batch) by (nonlinear_arith)
            requires
                shorter + 1 == workers,
        ;
    }
}

/// Round accounting: after `rounds` rounds, each of `workers` batches of
/// `batch` keys, a tally that started at zero stands at
/// `rounds * workers * batch`, as long as that fits the machine integer.
/// What the batches found plays no part.
pub proof fn lemma_round_accounting(rounds: nat, workers: nat, batch: nat)
    requires
        rounds * workers * batch <= usize::MAX,
    ensures
        after_rounds(0, rounds, workers, batch) == rounds * workers * batch,
    decreases rounds,
{
    if rounds == 0 {
        assert(rounds * workers * batch == 0) by (nonlinear_arith)
            requires
                rounds == 0,
        ;
    } else {
        let earlier = (rounds - 1) as nat;
        assert(earlier * workers * batch + workers * batch == rounds * workers * batch
            && earlier * workers * batch >= 0
            && workers * batch >= 0) by (nonlinear_arith)
            requires
                earlier + 1 == rounds,
        ;
        lemma_round_accounting(earlier, workers, batch);
        lemma_round_sum(workers, batch);
        lemma_tally_exact(earlier * workers * batch, round_of(workers, batch));
    }
}

} // verus!
