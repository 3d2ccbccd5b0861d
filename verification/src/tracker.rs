//! Running extremes over the current window.
//!
//! A single cached pair cannot survive eviction of an extremal point,
//! so the tracker keeps the cached minimum and maximum current on
//! ingestion, and rescans the live window whenever the point that left
//! was a cached extremum. Querying an empty window returns the
//! sentinel 0 for both extremes.

use vstd::prelude::*;
use crate::stats::{
    lemma_max_drop_first_non_extremal, lemma_max_ge_all, lemma_max_in,
    lemma_min_drop_first_non_extremal, lemma_min_le_all, lemma_min_in, max_fee, min_fee,
};
use crate::window::Window;

verus! {

/// The true minimum fee of the sequence, with 0 standing for "empty".
pub open spec fn min_or_zero(s: Seq<u64>) -> u64 {
    if s.len() == 0 {
        0
    } else {
        min_fee(s)
    }
}

/// The true maximum fee of the sequence, with 0 standing for "empty".
pub open spec fn max_or_zero(s: Seq<u64>) -> u64 {
    if s.len() == 0 {
        0
    } else {
        max_fee(s)
    }
}

/// Extremes aggregator whose model is the sequence of fees it covers.
pub struct Tracker {
    min: u64,
    max: u64,
    count: usize,
    fees: Ghost<Seq<u64>>,
}

impl Tracker {
    /// The fees the cached extremes currently cover.
    pub closed spec fn spec_fees(self) -> Seq<u64> {
        self.fees@
    }

    /// The cached values are exactly the true extremes of the model.
    pub closed spec fn wf(self) -> bool {
        &&& self.count == self.fees@.len()
        &&& self.min == min_or_zero(self.fees@)
        &&& self.max == max_or_zero(self.fees@)
    }

    /// A tracker covering no fees.
    pub fn new() -> (r: Tracker)
        ensures
            r.wf(),
            r.spec_fees() == Seq::<u64>::empty(),
    {
        Tracker { min: 0, max: 0, count: 0, fees: Ghost(Seq::empty()) }
    }

    /// The smallest covered fee, or 0 when none are covered.
    pub fn min(&self) -> (r: u64)
        requires
            self.wf(),
        ensures
            r == min_or_zero(self.spec_fees()),
    {
        self.min
    }

    /// The largest covered fee, or 0 when none are covered.
    pub fn max(&self) -> (r: u64)
        requires
            self.wf(),
        ensures
            r == max_or_zero(self.spec_fees()),
    {
        self.max
    }

    /// Fold one newly ingested fee into the cached extremes. Sound
    /// because adding a sample can only widen the extremes.
    pub fn ingest(&mut self, fee: u64)
        requires
            old(self).wf(),
            old(self).spec_fees().len() < usize::MAX,
        ensures
            final(self).wf(),
            final(self).spec_fees() == old(self).spec_fees().push(fee),
    {
        proof {
            assert(self.fees@.push(fee).drop_last() =~= self.fees@);
        }
        if self.count == 0 {
            self.min = fee;
            self.max = fee;
        } else {
            if fee < self.min {
                self.min = fee;
            }
            if fee > self.max {
                self.max = fee;
            }
        }
        self.count = self.count + 1;
        self.fees = Ghost(self.fees@.push(fee));
    }

    /// Account for the eviction of the oldest covered fee together with
    /// the ingestion of a new one, as a full window slides.
    ///
    /// When the departing fee was a cached extremum the extremes are
    /// rescanned from the live window; otherwise the cached pair stays
    /// valid and only the new fee is folded in.
    pub fn slide(&mut self, evicted: u64, fee: u64, window: &Window)
        requires
            old(self).wf(),
            old(self).spec_fees().len() >= 1,
            evicted == old(self).spec_fees()[0],
            window.fees() == old(self).spec_fees().drop_first().push(fee),
        ensures
            final(self).wf(),
            final(self).spec_fees() == window.fees(),
    {
        let ghost s = self.fees@;
        if evicted == self.min || evicted == self.max {
            self.rescan(window);
        } else {
            // The departing fee was not an extremum, so it occurred
            // strictly between the cached bounds and the cache is still
            // exact for the remaining fees.
            proof {
                lemma_min_drop_first_non_extremal(s);
                lemma_max_drop_first_non_extremal(s);
                assert(s.drop_first().push(fee).drop_last() =~= s.drop_first());
            }
            if fee < self.min {
                self.min = fee;
            }
            if fee > self.max {
                self.max = fee;
            }
            self.fees = Ghost(s.drop_first().push(fee));
        }
    }

    /// Rebuild the cached extremes by scanning the live window.
    pub fn rescan(&mut self, window: &Window)
        requires
            window.fees().len() >= 1,
        ensures
            final(self).wf(),
            final(self).spec_fees() == window.fees(),
    {
        let ghost s = window.fees();
        let points = window.points_ref();
        proof {
            assert(forall|j: int|
                0 <= j < s.len() ==> s[j] == window.spec_points()[j].fee_amount);
        }
        let mut mn: u64 = points[0].fee_amount;
        let mut mx: u64 = points[0].fee_amount;
        let mut i: usize = 1;
        while i < points.len()
            invariant
                1 <= i <= points.len(),
                s.len() == points@.len(),
                forall|j: int| 0 <= j < s.len() ==> s[j] == points@[j].fee_amount,
                mn == min_fee(s.take(i as int)),
                mx == max_fee(s.take(i as int)),
            decreases points.len() - i,
        {
            proof {
                assert(s.take(i + 1).drop_last() =~= s.take(i as int));
                assert(s.take(i + 1).last() == s[i as int]);
            }
            let f = points[i].fee_amount;
            if f < mn {
                mn = f;
            }
            if f > mx {
                mx = f;
            }
            i = i + 1;
        }
        proof {
            assert(s.take(s.len() as int) =~= s);
        }
        self.min = mn;
        self.max = mx;
        self.count = points.len();
        self.fees = Ghost(s);
    }
}

} // verus!
