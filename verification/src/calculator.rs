//! Rolling average over the current window.
//!
//! Keeps an exact 128-bit running total and a count: each ingested
//! point's fee is added, each evicted point's fee subtracted, so
//! repeated add/subtract accumulates no drift. The average of an empty
//! window is defined to be 0 (never a division by zero).

use vstd::prelude::*;
use crate::stats::{avg_fee, lemma_avg_le_max, lemma_sum_bounds, lemma_sum_drop_first, sum_fees};

verus! {

/// Streaming sum/count aggregator whose model is the sequence of fees
/// it currently covers.
pub struct Calculator {
    sum: u128,
    count: usize,
    fees: Ghost<Seq<u64>>,
}

impl Calculator {
    /// The fees the running total currently covers.
    pub closed spec fn spec_fees(self) -> Seq<u64> {
        self.fees@
    }

    /// The running state is exactly the total and length of the model.
    pub closed spec fn wf(self) -> bool {
        &&& self.count == self.fees@.len()
        &&& self.sum == sum_fees(self.fees@)
    }

    /// An aggregator covering no fees.
    pub fn new() -> (r: Calculator)
        ensures
            r.wf(),
            r.spec_fees() == Seq::<u64>::empty(),
    {
        Calculator { sum: 0, count: 0, fees: Ghost(Seq::empty()) }
    }

    /// How many fees are covered.
    pub fn count(&self) -> (r: usize)
        requires
            self.wf(),
        ensures
            r == self.spec_fees().len(),
    {
        self.count
    }

    /// Fold one newly ingested fee into the running total.
    pub fn ingest(&mut self, fee: u64)
        requires
            old(self).wf(),
            old(self).spec_fees().len() < usize::MAX,
        ensures
            final(self).wf(),
            final(self).spec_fees() == old(self).spec_fees().push(fee),
    {
        proof {
            lemma_sum_bounds(self.fees@);
            assert(sum_fees(self.fees@) + fee <= (usize::MAX - 1) * u64::MAX + u64::MAX)
                by (nonlinear_arith)
                requires
                    sum_fees(self.fees@) <= self.fees@.len() * u64::MAX,
                    self.fees@.len() <= usize::MAX - 1,
                    fee <= u64::MAX,
            ;
            assert(self.fees@.push(fee).drop_last() =~= self.fees@);
        }
        self.sum = self.sum + fee as u128;
        self.count = self.count + 1;
        self.fees = Ghost(self.fees@.push(fee));
    }

    /// Subtract the oldest covered fee from the running total.
    pub fn evict_oldest(&mut self, fee: u64)
        requires
            old(self).wf(),
            old(self).spec_fees().len() > 0,
            fee == old(self).spec_fees()[0],
        ensures
            final(self).wf(),
            final(self).spec_fees() == old(self).spec_fees().drop_first(),
    {
        proof {
            lemma_sum_drop_first(self.fees@);
            lemma_sum_bounds(self.fees@.drop_first());
        }
        self.sum = self.sum - fee as u128;
        self.count = self.count - 1;
        self.fees = Ghost(self.fees@.drop_first());
    }

    /// The integer-truncated mean of the covered fees; 0 when none are
    /// covered.
    pub fn average(&self) -> (r: u64)
        requires
            self.wf(),
        ensures
            r == avg_fee(self.spec_fees()),
    {
        if self.count == 0 {
            0
        } else {
            proof {
                lemma_avg_le_max(self.fees@);
            }
            (self.sum / self.count as u128) as u64
        }
    }
}

} // verus!
