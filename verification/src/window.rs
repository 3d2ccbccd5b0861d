//! The bounded, ordered sequence of recent fee samples that drives the
//! current aggregates.
//!
//! The bound is a sample count. Points are kept in arrival order:
//! out-of-order timestamps are accepted and folded into the aggregates,
//! not rejected or reordered. Pushing into a full window evicts the
//! oldest point.

use vstd::prelude::*;
use crate::types::FeeDataPoint;

verus! {

/// The bounded window of the most recent fee samples.
pub struct Window {
    points: Vec<FeeDataPoint>,
    capacity: usize,
}

impl Window {
    /// The points currently in the window, oldest first.
    pub closed spec fn spec_points(self) -> Seq<FeeDataPoint> {
        self.points@
    }

    /// The configured sample-count bound.
    pub closed spec fn spec_capacity(self) -> usize {
        self.capacity
    }

    /// The fee magnitudes of the windowed points, oldest first.
    pub open spec fn fees(self) -> Seq<u64> {
        self.spec_points().map(|_i: int, p: FeeDataPoint| p.fee_amount)
    }

    /// The window never exceeds its (positive) bound.
    pub open spec fn wf(self) -> bool {
        self.spec_capacity() >= 1 && self.spec_points().len() <= self.spec_capacity()
    }

    /// An empty window with the given sample-count bound.
    pub fn new(capacity: usize) -> (r: Window)
        requires
            capacity >= 1,
        ensures
            r.wf(),
            r.spec_points() == Seq::<FeeDataPoint>::empty(),
            r.spec_capacity() == capacity,
    {
        Window { points: Vec::new(), capacity }
    }

    /// Borrow the windowed points, oldest first.
    pub fn points_ref(&self) -> (r: &Vec<FeeDataPoint>)
        ensures
            r@ == self.spec_points(),
    {
        &self.points
    }

    /// How many points the window currently holds.
    pub fn len(&self) -> (r: usize)
        ensures
            r == self.spec_points().len(),
    {
        self.points.len()
    }

    /// Append a point; when the window is already full, the oldest
    /// point leaves and is returned.
    pub fn push(&mut self, p: FeeDataPoint) -> (evicted: Option<FeeDataPoint>)
        requires
            old(self).wf(),
        ensures
            final(self).wf(),
            final(self).spec_capacity() == old(self).spec_capacity(),
            old(self).spec_points().len() < old(self).spec_capacity() ==> {
                &&& final(self).spec_points() == old(self).spec_points().push(p)
                &&& evicted is None
            },
            old(self).spec_points().len() >= old(self).spec_capacity() ==> {
                &&& final(self).spec_points() == old(self).spec_points().drop_first().push(p)
                &&& evicted == Some(old(self).spec_points()[0])
            },
    {
        if self.points.len() < self.capacity {
            self.points.push(p);
            None
        } else {
            let out = self.points.remove(0);
            self.points.push(p);
            proof {
                assert(self.points@ =~= old(self).points@.drop_first().push(p));
            }
            Some(out)
        }
    }
}

} // verus!
