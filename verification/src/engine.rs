//! The insights engine: owns the window, the aggregators, the detector
//! state, the failure counter, and the authoritative current snapshot.
//!
//! One ingestion cycle is fetch → ingest → recompute → snapshot. The
//! fetch itself is network I/O and lives outside the library; the
//! engine is handed the fetch outcome and applies the whole cycle as
//! one mutation, so a reader of the current snapshot never observes a
//! half-applied cycle. A failed fetch aborts the cycle without touching
//! the window, the aggregates, the detector or the snapshot: only the
//! consecutive-failure counter moves, and past the configured threshold
//! the externally visible status turns `Degraded` while the last good
//! snapshot stays retrievable. The engine never gives up: the next tick
//! retries.

use vstd::prelude::*;
use crate::calculator::Calculator;
use crate::config::InsightsConfig;
use crate::detector::{CongestionState, Detector, spec_step};
use crate::error::AppError;
use crate::provider::ProviderError;
use crate::stats::avg_fee;
use crate::tracker::{Tracker, max_or_zero, min_or_zero};
use crate::types::{FeeDataPoint, FeeSnapshot, PointModel, UtcTime, points_model};
use crate::window::Window;

verus! {

/// Externally visible engine health.
#[derive(Clone, Copy, Debug, PartialEq, Eq, Structural)]
pub enum EngineStatus {
    Healthy,
    Degraded,
}

/// One bounded-window step: append a fee, dropping the oldest fee if
/// the window is already at its bound.
pub open spec fn push_bounded(s: Seq<u64>, fee: u64, cap: nat) -> Seq<u64> {
    if s.len() < cap {
        s.push(fee)
    } else {
        s.drop_first().push(fee)
    }
}

/// The window fees after ingesting a whole batch, oldest first.
pub open spec fn slide_fees(s: Seq<u64>, new: Seq<u64>, cap: nat) -> Seq<u64>
    decreases new.len(),
{
    if new.len() == 0 {
        s
    } else {
        slide_fees(push_bounded(s, new[0], cap), new.drop_first(), cap)
    }
}

/// Ingesting one more fee after a batch is one more bounded push.
pub proof fn lemma_slide_snoc(s: Seq<u64>, t: Seq<u64>, fee: u64, cap: nat)
    ensures
        slide_fees(s, t.push(fee), cap) == push_bounded(slide_fees(s, t, cap), fee, cap),
    decreases t.len(),
{
    reveal_with_fuel(slide_fees, 3);
    if t.len() == 0 {
        assert(t.push(fee).drop_first() =~= Seq::<u64>::empty());
        assert(t.push(fee)[0] == fee);
        assert(slide_fees(s, t, cap) == s);
    } else {
        assert(t.push(fee).drop_first() =~= t.drop_first().push(fee));
        assert(t.push(fee)[0] == t[0]);
        lemma_slide_snoc(push_bounded(s, t[0], cap), t.drop_first(), fee, cap);
        assert(slide_fees(s, t.push(fee), cap) == slide_fees(
            push_bounded(s, t[0], cap),
            t.drop_first().push(fee),
            cap,
        ));
        assert(slide_fees(s, t, cap) == slide_fees(
            push_bounded(s, t[0], cap),
            t.drop_first(),
            cap,
        ));
    }
}

/// Sliding a batch through the bounded window keeps exactly the newest
/// fees: the result is the longest suffix of "old window then batch"
/// that fits the bound.
pub proof fn lemma_slide_is_suffix(s: Seq<u64>, new: Seq<u64>, cap: nat)
    requires
        cap >= 1,
        s.len() <= cap,
    ensures
        slide_fees(s, new, cap) == if s.len() + new.len() <= cap {
            s + new
        } else {
            (s + new).skip(s.len() + new.len() - cap)
        },
    decreases new.len(),
{
    if new.len() == 0 {
        assert(s + new =~= s);
    } else {
        let s1 = push_bounded(s, new[0], cap);
        lemma_slide_is_suffix(s1, new.drop_first(), cap);
        if s.len() < cap {
            assert(s1 + new.drop_first() =~= s + new);
            if s1.len() + new.len() - 1 > cap {
                assert((s1 + new.drop_first()).skip(s1.len() + new.drop_first().len() - cap) =~= (s
                    + new).skip(s.len() + new.len() - cap));
            }
        } else {
            if s1.len() + new.len() - 1 <= cap {
                assert(s1 + new.drop_first() =~= (s + new).skip(s.len() + new.len() - cap));
            } else {
                assert((s1 + new.drop_first()).skip(s1.len() + new.drop_first().len() - cap) =~= (s
                    + new).skip(s.len() + new.len() - cap));
            }
        }
    }
}

/// The fee magnitudes of a batch of points, in arrival order.
pub open spec fn fees_of(points: Seq<FeeDataPoint>) -> Seq<u64> {
    points.map(|_i: int, p: FeeDataPoint| p.fee_amount)
}

/// The summary an engine cycle assembles over the given window fees.
pub open spec fn spec_snapshot_of(fees: Seq<u64>, base_fee: u64, now: UtcTime) -> FeeSnapshot {
    FeeSnapshot {
        base_fee,
        min_fee: min_or_zero(fees),
        max_fee: max_or_zero(fees),
        avg_fee: avg_fee(fees) as u64,
        captured_at: now,
    }
}

/// The fee insights engine, sole owner and sole mutator of the window,
/// the aggregates, the detector, and the current-snapshot cell.
pub struct FeeInsightsEngine {
    config: InsightsConfig,
    window: Window,
    calculator: Calculator,
    tracker: Tracker,
    detector: Detector,
    current_snapshot: Option<FeeSnapshot>,
    consecutive_failures: u32,
}

impl FeeInsightsEngine {
    /// The validated configuration the engine was built with.
    pub closed spec fn spec_config(self) -> InsightsConfig {
        self.config
    }

    /// Models of the points currently in the window, oldest first.
    pub closed spec fn spec_points(self) -> Seq<PointModel> {
        points_model(self.window.spec_points())
    }

    /// The fee magnitudes currently in the window, oldest first.
    pub closed spec fn spec_fees(self) -> Seq<u64> {
        self.window.fees()
    }

    /// The published snapshot, if a cycle has produced one.
    pub closed spec fn spec_snapshot(self) -> Option<FeeSnapshot> {
        self.current_snapshot
    }

    /// Consecutive failed fetches since the last successful cycle.
    pub closed spec fn spec_failures(self) -> u32 {
        self.consecutive_failures
    }

    /// The detector's carried condition.
    pub closed spec fn spec_detector_state(self) -> CongestionState {
        self.detector.spec_state()
    }

    /// Coherence of the engine: the configuration is valid, the window
    /// respects its bound, and both aggregators cover exactly the
    /// window's fees — so their cached answers are the true aggregates.
    pub closed spec fn wf(self) -> bool {
        &&& self.config.wf()
        &&& self.window.wf()
        &&& self.window.spec_capacity() == self.config.window_size
        &&& self.calculator.wf()
        &&& self.calculator.spec_fees() == self.window.fees()
        &&& self.tracker.wf()
        &&& self.tracker.spec_fees() == self.window.fees()
    }

    /// Degraded exactly when the consecutive-failure count has reached
    /// the configured threshold.
    pub open spec fn spec_status(self) -> EngineStatus {
        if self.spec_failures() >= self.spec_config().failure_threshold {
            EngineStatus::Degraded
        } else {
            EngineStatus::Healthy
        }
    }

    /// Build an engine from a configuration; rejects exactly the
    /// configurations that `InsightsConfig::validate` rejects.
    pub fn new(config: InsightsConfig) -> (r: Result<FeeInsightsEngine, AppError>)
        ensures
            r is Ok <==> config.wf(),
            r matches Err(e) ==> e is Config,
            r matches Ok(engine) ==> {
                &&& engine.wf()
                &&& engine.spec_config() == config
                &&& engine.spec_fees() == Seq::<u64>::empty()
                &&& engine.spec_points() == Seq::<PointModel>::empty()
                &&& engine.spec_snapshot() is None
                &&& engine.spec_failures() == 0
                &&& engine.spec_detector_state() == CongestionState::Normal
            },
    {
        match config.validate() {
            Err(e) => Err(e),
            Ok(()) => {
                let engine = FeeInsightsEngine {
                    config,
                    window: Window::new(config.window_size),
                    calculator: Calculator::new(),
                    tracker: Tracker::new(),
                    detector: Detector::new(),
                    current_snapshot: None,
                    consecutive_failures: 0,
                };
                proof {
                    assert(engine.window.fees() =~= Seq::<u64>::empty());
                    assert(points_model(engine.window.spec_points()) =~= Seq::<
                        PointModel,
                    >::empty());
                }
                Ok(engine)
            },
        }
    }

    /// Fold one fetched point into the window and both aggregators.
    fn ingest_point(&mut self, p: FeeDataPoint)
        requires
            old(self).wf(),
        ensures
            final(self).wf(),
            final(self).spec_fees() == push_bounded(
                old(self).spec_fees(),
                p.fee_amount,
                old(self).spec_config().window_size as nat,
            ),
            final(self).spec_config() == old(self).spec_config(),
            final(self).spec_snapshot() == old(self).spec_snapshot(),
            final(self).spec_failures() == old(self).spec_failures(),
            final(self).spec_detector_state() == old(self).spec_detector_state(),
    {
        let fee = p.fee_amount;
        let ghost before = self.window.fees();
        let was_full = self.window.len() >= self.config.window_size;
        let evicted = self.window.push(p);
        proof {
            if was_full {
                assert(self.window.fees() =~= before.drop_first().push(fee));
            } else {
                assert(self.window.fees() =~= before.push(fee));
            }
        }
        match evicted {
            None => {
                self.calculator.ingest(fee);
                self.tracker.ingest(fee);
            },
            Some(out) => {
                proof {
                    assert(out.fee_amount == before[0]);
                }
                self.calculator.evict_oldest(out.fee_amount);
                self.calculator.ingest(fee);
                proof {
                    assert(before.drop_first().push(fee) =~= self.calculator.spec_fees());
                }
                self.tracker.slide(out.fee_amount, fee, &self.window);
            },
        }
    }

    /// Apply one successful cycle: ingest the batch, reset the failure
    /// counter, re-evaluate congestion, and publish a fresh snapshot —
    /// unless the batch was empty and the configuration says to
    /// snapshot only on change, in which case the previous snapshot
    /// stays current.
    pub fn apply_fetch_success(&mut self, points: Vec<FeeDataPoint>, now: UtcTime)
        requires
            old(self).wf(),
        ensures
            final(self).wf(),
            final(self).spec_config() == old(self).spec_config(),
            final(self).spec_fees() == slide_fees(
                old(self).spec_fees(),
                fees_of(points@),
                old(self).spec_config().window_size as nat,
            ),
            final(self).spec_failures() == 0,
            final(self).spec_detector_state() == spec_step(
                old(self).spec_detector_state(),
                avg_fee(final(self).spec_fees()) as u64,
                old(self).spec_config().congestion_high_threshold,
                old(self).spec_config().congestion_low_threshold,
            ),
            final(self).spec_snapshot() == if points@.len() == 0 && old(
                self,
            ).spec_config().snapshot_on_change_only {
                old(self).spec_snapshot()
            } else {
                Some(
                    spec_snapshot_of(
                        final(self).spec_fees(),
                        old(self).spec_config().base_fee,
                        now,
                    ),
                )
            },
    {
        let ghost orig_fees = self.window.fees();
        let ghost all = points@;
        let ghost cap = self.config.window_size as nat;
        let mut points = points;
        let had_points = points.len() > 0;
        let ghost mut k: int = 0;
        while points.len() > 0
            invariant
                self.wf(),
                self.spec_config() == old(self).spec_config(),
                self.spec_snapshot() == old(self).spec_snapshot(),
                self.spec_failures() == old(self).spec_failures(),
                self.spec_detector_state() == old(self).spec_detector_state(),
                0 <= k <= all.len(),
                points@ == all.skip(k),
                cap == self.spec_config().window_size as nat,
                self.spec_fees() == slide_fees(orig_fees, fees_of(all.take(k)), cap),
            decreases points@.len(),
        {
            let p = points.remove(0);
            proof {
                assert(all.skip(k).remove(0) =~= all.skip(k + 1));
                assert(p == all[k]);
            }
            self.ingest_point(p);
            proof {
                lemma_slide_snoc(orig_fees, fees_of(all.take(k)), p.fee_amount, cap);
                assert(fees_of(all.take(k)).push(p.fee_amount) =~= fees_of(all.take(k + 1)));
                k = k + 1;
            }
        }
        proof {
            assert(all.take(k) =~= all);
        }
        self.consecutive_failures = 0;
        let avg = self.calculator.average();
        self.detector.step(
            avg,
            self.config.congestion_high_threshold,
            self.config.congestion_low_threshold,
        );
        if had_points || !self.config.snapshot_on_change_only {
            let snapshot = FeeSnapshot {
                base_fee: self.config.base_fee,
                min_fee: self.tracker.min(),
                max_fee: self.tracker.max(),
                avg_fee: avg,
                captured_at: now,
            };
            self.current_snapshot = Some(snapshot);
        }
    }

    /// Abort the cycle on a failed fetch: nothing but the
    /// consecutive-failure counter moves, and that saturates at its
    /// machine bound. The previous snapshot remains current, so readers
    /// keep seeing stale-but-available data through an outage.
    pub fn record_fetch_failure(&mut self)
        requires
            old(self).wf(),
        ensures
            final(self).wf(),
            final(self).spec_config() == old(self).spec_config(),
            final(self).spec_fees() == old(self).spec_fees(),
            final(self).spec_points() == old(self).spec_points(),
            final(self).spec_snapshot() == old(self).spec_snapshot(),
            final(self).spec_detector_state() == old(self).spec_detector_state(),
            final(self).spec_failures() == if old(self).spec_failures() < u32::MAX {
                old(self).spec_failures() + 1
            } else {
                old(self).spec_failures() as int
            },
    {
        if self.consecutive_failures < u32::MAX {
            self.consecutive_failures = self.consecutive_failures + 1;
        }
    }

    /// Apply one whole cycle from the provider's fetch outcome: a
    /// success runs ingest/recompute/snapshot, any provider error
    /// aborts the cycle and only counts the failure.
    pub fn on_fetch_result(
        &mut self,
        outcome: Result<Vec<FeeDataPoint>, ProviderError>,
        now: UtcTime,
    )
        requires
            old(self).wf(),
        ensures
            final(self).wf(),
            final(self).spec_config() == old(self).spec_config(),
            outcome matches Ok(points) ==> {
                &&& final(self).spec_fees() == slide_fees(
                    old(self).spec_fees(),
                    fees_of(points@),
                    old(self).spec_config().window_size as nat,
                )
                &&& final(self).spec_failures() == 0
                &&& final(self).spec_detector_state() == spec_step(
                    old(self).spec_detector_state(),
                    avg_fee(final(self).spec_fees()) as u64,
                    old(self).spec_config().congestion_high_threshold,
                    old(self).spec_config().congestion_low_threshold,
                )
                &&& final(self).spec_snapshot() == if points@.len() == 0 && old(
                    self,
                ).spec_config().snapshot_on_change_only {
                    old(self).spec_snapshot()
                } else {
                    Some(
                        spec_snapshot_of(
                            final(self).spec_fees(),
                            old(self).spec_config().base_fee,
                            now,
                        ),
                    )
                }
            },
            outcome is Err ==> {
                &&& final(self).spec_fees() == old(self).spec_fees()
                &&& final(self).spec_points() == old(self).spec_points()
                &&& final(self).spec_snapshot() == old(self).spec_snapshot()
                &&& final(self).spec_detector_state() == old(self).spec_detector_state()
                &&& final(self).spec_failures() == if old(self).spec_failures() < u32::MAX {
                    old(self).spec_failures() + 1
                } else {
                    old(self).spec_failures() as int
                }
            },
    {
        match outcome {
            Ok(points) => self.apply_fetch_success(points, now),
            Err(_) => self.record_fetch_failure(),
        }
    }

    /// The current snapshot, immutable and whole: the engine replaces
    /// it, never edits it, so a reader can hold a copy across cycles.
    pub fn current_snapshot(&self) -> (r: Option<FeeSnapshot>)
        ensures
            r == self.spec_snapshot(),
    {
        self.current_snapshot
    }

    /// Externally visible health: `Degraded` at or beyond the
    /// configured consecutive-failure threshold, else `Healthy`.
    pub fn status(&self) -> (r: EngineStatus)
        ensures
            r == self.spec_status(),
    {
        if self.consecutive_failures >= self.config.failure_threshold {
            EngineStatus::Degraded
        } else {
            EngineStatus::Healthy
        }
    }

    /// Consecutive failed fetches since the last successful cycle.
    pub fn consecutive_failures(&self) -> (r: u32)
        ensures
            r == self.spec_failures(),
    {
        self.consecutive_failures
    }

    /// The detector's current condition.
    pub fn congestion_state(&self) -> (r: CongestionState)
        ensures
            r == self.spec_detector_state(),
    {
        self.detector.state()
    }

    /// The configuration the engine runs with.
    pub fn config(&self) -> (r: InsightsConfig)
        ensures
            r == self.spec_config(),
    {
        self.config
    }

    /// The true rolling average over the window, 0 when it is empty.
    pub fn average_fee(&self) -> (r: u64)
        requires
            self.wf(),
        ensures
            r == avg_fee(self.spec_fees()),
    {
        self.calculator.average()
    }

    /// The true minimum fee in the window, 0 when it is empty.
    pub fn min_fee(&self) -> (r: u64)
        requires
            self.wf(),
        ensures
            r == min_or_zero(self.spec_fees()),
    {
        self.tracker.min()
    }

    /// The true maximum fee in the window, 0 when it is empty.
    pub fn max_fee(&self) -> (r: u64)
        requires
            self.wf(),
        ensures
            r == max_or_zero(self.spec_fees()),
    {
        self.tracker.max()
    }

    /// How many points the window currently holds.
    pub fn window_len(&self) -> (r: usize)
        ensures
            r == self.spec_fees().len(),
    {
        self.window.len()
    }
}

} // verus!
