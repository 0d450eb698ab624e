//! Lazy aggregation of per-detector result batches into one stream of
//! detections, with every error routed to the injected handler.
//!
//! Batches are consumed from the back, and each batch from its back, as the
//! collection strategy pops them; a batch that failed as a whole is reported
//! and skipped, a failed element inside a batch is reported and skipped, and
//! every successful detection is yielded.

use vstd::prelude::*;

use crate::detection::{Detection, DetectionError, FailableDetection};
use crate::handler::{ErrorHandler, RunError};

verus! {

/// The result of one detector's whole run: its ordered outcomes, or the
/// error that aborted it.
pub type Batch = Result<Vec<FailableDetection>, DetectionError>;

/// The merged, lazily consumed estimates of all detectors.
pub struct Estimates {
    batches: Vec<Batch>,
    current: Vec<FailableDetection>,
}

/// The events one batch contributes, in consumption order: its outcomes
/// from the back, or its single aborting error.
pub open spec fn batch_events(b: Batch) -> Seq<FailableDetection> {
    match b {
        Ok(v) => v@.reverse(),
        Err(e) => seq![Err(e)],
    }
}

/// The events a batch list contributes, in consumption order: batches from
/// the back.
pub open spec fn batches_events(bs: Seq<Batch>) -> Seq<FailableDetection>
    decreases bs.len(),
{
    if bs.len() == 0 {
        Seq::empty()
    } else {
        batch_events(bs.last()) + batches_events(bs.drop_last())
    }
}

/// The errors standing before the next detection.
pub open spec fn lead_errors(evs: Seq<FailableDetection>) -> Seq<DetectionError>
    decreases evs.len(),
{
    if evs.len() > 0 && evs[0] is Err {
        seq![evs[0]->Err_0] + lead_errors(evs.drop_first())
    } else {
        Seq::empty()
    }
}

/// The events from the next detection on.
pub open spec fn after_errors(evs: Seq<FailableDetection>) -> Seq<FailableDetection>
    decreases evs.len(),
{
    if evs.len() > 0 && evs[0] is Err {
        after_errors(evs.drop_first())
    } else {
        evs
    }
}

/// Wraps a detection error for the handler.
pub open spec fn wrap_errors(es: Seq<DetectionError>) -> Seq<RunError> {
    es.map_values(|e: DetectionError| RunError::Detection(e))
}

impl Estimates {
    /// The outcomes still to consume, in consumption order.
    pub closed spec fn events(&self) -> Seq<FailableDetection> {
        self.current@.reverse() + batches_events(self.batches@)
    }

    /// The total element count of the unconsumed batches.
    pub closed spec fn remaining_upper(&self) -> int {
        spec_remaining(self.batches@, self.current@.len() as int)
    }

    /// Takes over the detectors' batches; nothing is consumed or reported
    /// yet.
    pub fn new(batches: Vec<Batch>) -> (r: Estimates)
        ensures
            r.events() == batches_events(batches@),
            r.remaining_upper() == spec_remaining(batches@, 0),
    {
        let r = Estimates { batches, current: Vec::new() };
        proof {
            assert(r.current@.reverse() =~= Seq::<FailableDetection>::empty());
            assert(r.events() =~= batches_events(r.batches@));
        }
        r
    }

    /// The next successful detection. Every error standing before it is
    /// reported to the handler, one call per error, then the detection is
    /// yielded; `None` once nothing is left.
    pub fn next<H: ErrorHandler>(&mut self, handler: &mut H) -> (r: Option<Detection>)
        ensures
            final(handler).handled() == old(handler).handled() + wrap_errors(
                lead_errors(old(self).events()),
            ),
            match r {
                Some(d) => after_errors(old(self).events()).len() > 0 && after_errors(
                    old(self).events(),
                )[0] == Ok::<Detection, DetectionError>(d) && final(self).events() == after_errors(
                    old(self).events(),
                ).drop_first() && final(self).remaining_upper() < old(self).remaining_upper(),
                None => after_errors(old(self).events()).len() == 0
                    && final(self).events().len() == 0,
            },
            final(self).remaining_upper() <= old(self).remaining_upper(),
    {
        loop
            invariant
                after_errors(self.events()) == after_errors(old(self).events()),
                old(handler).handled() + wrap_errors(lead_errors(old(self).events())) == handler
                    .handled() + wrap_errors(lead_errors(self.events())),
                self.remaining_upper() <= old(self).remaining_upper(),
            decreases self.events().len() + self.batches@.len(),
        {
            let ghost evs = self.events();
            let ghost upper = self.remaining_upper();
            match self.current.pop() {
                Some(outcome) => {
                    proof {
                        lemma_remaining_base(self.batches@, self.current@.len() as int + 1);
                        lemma_remaining_base(self.batches@, self.current@.len() as int);
                        assert(self.remaining_upper() == upper - 1);
                        lemma_pop_current(self.current@.push(outcome), self.batches@);
                        assert(evs == self.current@.push(outcome).reverse() + batches_events(
                            self.batches@,
                        ));
                        assert(self.current@.push(outcome).last() == outcome);
                        assert(evs[0] == outcome);
                        assert(self.events() == evs.drop_first());
                    }
                    match outcome {
                        Ok(detection) => {
                            proof {
                                assert(lead_errors(evs) =~= Seq::<DetectionError>::empty());
                                assert(after_errors(evs) == evs);
                                assert(wrap_errors(Seq::<DetectionError>::empty())
                                    =~= Seq::<RunError>::empty());
                                assert(handler.handled() + wrap_errors(Seq::<
                                    DetectionError,
                                >::empty()) =~= handler.handled());
                            }
                            return Some(detection);
                        },
                        Err(error) => {
                            proof {
                                assert(lead_errors(evs) == seq![error] + lead_errors(
                                    evs.drop_first(),
                                ));
                                assert(after_errors(evs) == after_errors(evs.drop_first()));
                                lemma_wrap_cons(error, lead_errors(evs.drop_first()));
                            }
                            let ghost before = handler.handled();
                            handler.handle(RunError::Detection(error));
                            proof {
                                assert(handler.handled() =~= before + seq![
                                    RunError::Detection(error),
                                ]);
                                assert(before + (seq![RunError::Detection(error)] + wrap_errors(
                                    lead_errors(evs.drop_first()),
                                )) =~= handler.handled() + wrap_errors(
                                    lead_errors(evs.drop_first()),
                                ));
                                assert(after_errors(self.events()) == after_errors(
                                    old(self).events(),
                                ));
                            }
                        },
                    }
                },
                None => {
                    proof {
                        assert(self.current@.reverse() =~= Seq::<FailableDetection>::empty());
                        assert(evs =~= batches_events(self.batches@));
                    }
                    match self.batches.pop() {
                        Some(batch) => {
                            proof {
                                lemma_pop_batches(self.batches@.push(batch));
                                assert(evs == batch_events(batch) + batches_events(
                                    self.batches@,
                                ));
                                assert(self.batches@.push(batch).drop_last() =~= self.batches@);
                            }
                            match batch {
                                Ok(outcomes) => {
                                    self.current = outcomes;
                                    proof {
                                        assert(self.events() =~= evs);
                                        lemma_remaining_base(
                                            self.batches@,
                                            self.current@.len() as int,
                                        );
                                        lemma_remaining_base(self.batches@, 0);
                                        assert(self.remaining_upper() == upper);
                                    }
                                },
                                Err(error) => {
                                    proof {
                                        assert(evs == seq![
                                            Err::<Detection, DetectionError>(error),
                                        ] + batches_events(self.batches@));
                                        assert(evs[0] == Err::<Detection, DetectionError>(error));
                                        assert(evs.drop_first() =~= batches_events(
                                            self.batches@,
                                        ));
                                        assert(lead_errors(evs) == seq![error] + lead_errors(
                                            evs.drop_first(),
                                        ));
                                        assert(after_errors(evs) == after_errors(
                                            evs.drop_first(),
                                        ));
                                        lemma_wrap_cons(error, lead_errors(evs.drop_first()));
                                    }
                                    let ghost before = handler.handled();
                                    handler.handle(RunError::Detection(error));
                                    proof {
                                        assert(self.events() =~= evs.drop_first());
                                        assert(handler.handled() =~= before + seq![
                                            RunError::Detection(error),
                                        ]);
                                        assert(before + (seq![RunError::Detection(error)]
                                            + wrap_errors(lead_errors(evs.drop_first())))
                                            =~= handler.handled() + wrap_errors(
                                            lead_errors(evs.drop_first()),
                                        ));
                                    }
                                },
                            }
                        },
                        None => {
                            proof {
                                assert(evs.len() == 0);
                                assert(lead_errors(evs) =~= Seq::<DetectionError>::empty());
                                assert(after_errors(evs) == evs);
                                assert(handler.handled() + wrap_errors(Seq::<
                                    DetectionError,
                                >::empty()) =~= handler.handled());
                            }
                            return None;
                        },
                    }
                },
            }
        }
    }

    /// A conservative upper bound on how many detections remain: the total
    /// element count of the unconsumed batches, saturated at the machine
    /// limit.
    pub fn size_hint(&self) -> (r: (usize, Option<usize>))
        ensures
            r.0 == 0,
            r.1 matches Some(n) && (n == self.remaining_upper() || (n == usize::MAX
                && self.remaining_upper() > usize::MAX)),
    {
        let mut total: usize = self.current.len();
        let mut i: usize = 0;
        while i < self.batches.len()
            invariant
                i <= self.batches@.len(),
                total == spec_remaining(self.batches@.take(i as int), self.current@.len() as int)
                    || (total == usize::MAX && spec_remaining(
                    self.batches@.take(i as int),
                    self.current@.len() as int,
                ) > usize::MAX),
            decreases self.batches@.len() - i,
        {
            let add = match &self.batches[i] {
                Ok(v) => v.len(),
                Err(_) => 0,
            };
            proof {
                assert(self.batches@.take(i + 1).drop_last() =~= self.batches@.take(i as int));
                lemma_remaining_take(self.batches@, i as int, self.current@.len() as int);
            }
            total = if usize::MAX - total >= add {
                total + add
            } else {
                usize::MAX
            };
            i += 1;
        }
        proof {
            assert(self.batches@.take(self.batches@.len() as int) =~= self.batches@);
        }
        (0, Some(total))
    }
}

/// The total element count of the batches plus `base`.
pub open spec fn spec_remaining(bs: Seq<Batch>, base: int) -> int
    decreases bs.len(),
{
    if bs.len() == 0 {
        base
    } else {
        spec_remaining(bs.drop_last(), base) + (match bs.last() {
            Ok(v) => v@.len() as int,
            Err(_) => 0,
        })
    }
}

proof fn lemma_remaining_take(bs: Seq<Batch>, i: int, base: int)
    requires
        0 <= i < bs.len(),
    ensures
        spec_remaining(bs.take(i + 1), base) == spec_remaining(bs.take(i), base) + (match bs[i] {
            Ok(v) => v@.len() as int,
            Err(_) => 0,
        }),
{
    assert(bs.take(i + 1).drop_last() =~= bs.take(i));
    assert(bs.take(i + 1).last() == bs[i]);
}

proof fn lemma_wrap_cons(e: DetectionError, rest: Seq<DetectionError>)
    ensures
        wrap_errors(seq![e] + rest) == seq![RunError::Detection(e)] + wrap_errors(rest),
{
    assert(wrap_errors(seq![e] + rest) =~= seq![RunError::Detection(e)] + wrap_errors(rest));
}

/// Popping the last outcome of the current batch removes the first event.
proof fn lemma_pop_current(current: Seq<FailableDetection>, bs: Seq<Batch>)
    requires
        current.len() > 0,
    ensures
        (current.reverse() + batches_events(bs)).drop_first() == current.drop_last().reverse()
            + batches_events(bs),
        (current.reverse() + batches_events(bs))[0] == current.last(),
{
    assert((current.reverse() + batches_events(bs)).drop_first() =~= current.drop_last().reverse()
        + batches_events(bs));
}

/// Popping the last batch exposes its events first.
proof fn lemma_pop_batches(bs: Seq<Batch>)
    requires
        bs.len() > 0,
    ensures
        batches_events(bs) == batch_events(bs.last()) + batches_events(bs.drop_last()),
{
}

// ---------------------------------------------------------------------------
// The law of a full drain
// ---------------------------------------------------------------------------

/// The successful detections among the events, in consumption order.
pub open spec fn spec_all_detections(evs: Seq<FailableDetection>) -> Seq<Detection>
    decreases evs.len(),
{
    if evs.len() == 0 {
        Seq::empty()
    } else {
        (match evs[0] {
            Ok(d) => seq![d],
            Err(_) => Seq::empty(),
        }) + spec_all_detections(evs.drop_first())
    }
}

/// The failures among the events, in consumption order.
pub open spec fn spec_all_errors(evs: Seq<FailableDetection>) -> Seq<DetectionError>
    decreases evs.len(),
{
    if evs.len() == 0 {
        Seq::empty()
    } else {
        (match evs[0] {
            Ok(_) => Seq::<DetectionError>::empty(),
            Err(e) => seq![e],
        }) + spec_all_errors(evs.drop_first())
    }
}

/// What a consumer receives who calls `next` until it answers `None`: the
/// detections yielded, one per call that answered `Some`.
pub open spec fn spec_drain_detections(evs: Seq<FailableDetection>) -> Seq<Detection>
    decreases evs.len(),
{
    let rest = after_errors(evs);
    if rest.len() == 0 {
        Seq::empty()
    } else if rest.len() <= evs.len() {
        seq![rest[0]->Ok_0] + spec_drain_detections(rest.drop_first())
    } else {
        Seq::empty()
    }
}

/// What the handler receives over such a drain, in call order.
pub open spec fn spec_drain_errors(evs: Seq<FailableDetection>) -> Seq<DetectionError>
    decreases evs.len(),
{
    let rest = after_errors(evs);
    if rest.len() == 0 {
        lead_errors(evs)
    } else if rest.len() <= evs.len() {
        lead_errors(evs) + spec_drain_errors(rest.drop_first())
    } else {
        Seq::empty()
    }
}

proof fn lemma_after_errors_shape(evs: Seq<FailableDetection>)
    ensures
        after_errors(evs).len() <= evs.len(),
        after_errors(evs).len() > 0 ==> after_errors(evs)[0] is Ok,
        lead_errors(evs).len() + after_errors(evs).len() == evs.len(),
        spec_all_errors(evs) == lead_errors(evs) + spec_all_errors(after_errors(evs)),
        spec_all_detections(evs) == spec_all_detections(after_errors(evs)),
    decreases evs.len(),
{
    if evs.len() > 0 && evs[0] is Err {
        lemma_after_errors_shape(evs.drop_first());
        assert(spec_all_errors(evs) =~= lead_errors(evs) + spec_all_errors(after_errors(evs)));
        assert(lead_errors(evs) =~= seq![evs[0]->Err_0] + lead_errors(evs.drop_first()));
    } else {
        assert(lead_errors(evs) =~= Seq::<DetectionError>::empty());
        assert(spec_all_errors(evs) =~= lead_errors(evs) + spec_all_errors(after_errors(evs)));
    }
}

/// Draining the estimates loses nothing and invents nothing: the consumer
/// receives exactly the successful detections among the pending outcomes, in
/// consumption order, and the handler exactly the failures — detector-scoped
/// and sample-scoped alike — in consumption order.
pub proof fn lemma_drain_complete(evs: Seq<FailableDetection>)
    ensures
        spec_drain_detections(evs) == spec_all_detections(evs),
        spec_drain_errors(evs) == spec_all_errors(evs),
    decreases evs.len(),
{
    lemma_after_errors_shape(evs);
    let rest = after_errors(evs);
    if rest.len() == 0 {
        assert(spec_all_detections(rest) =~= Seq::<Detection>::empty());
        assert(spec_all_errors(rest) =~= Seq::<DetectionError>::empty());
        assert(spec_all_errors(evs) =~= lead_errors(evs));
    } else {
        lemma_drain_complete(rest.drop_first());
        assert(spec_all_detections(rest) == seq![rest[0]->Ok_0] + spec_all_detections(
            rest.drop_first(),
        ));
        assert(spec_all_errors(rest) == spec_all_errors(rest.drop_first()));
        assert(spec_drain_errors(evs) =~= spec_all_errors(evs));
    }
}

/// The base flows through the remaining count additively.
proof fn lemma_remaining_base(bs: Seq<Batch>, base: int)
    ensures
        spec_remaining(bs, base) == base + spec_remaining(bs, 0),
    decreases bs.len(),
{
    if bs.len() > 0 {
        lemma_remaining_base(bs.drop_last(), base);
        lemma_remaining_base(bs.drop_last(), 0);
    }
}

proof fn lemma_all_detections_concat(a: Seq<FailableDetection>, b: Seq<FailableDetection>)
    ensures
        spec_all_detections(a + b) == spec_all_detections(a) + spec_all_detections(b),
    decreases a.len(),
{
    if a.len() == 0 {
        assert(a + b =~= b);
        assert(spec_all_detections(a) =~= Seq::<Detection>::empty());
        assert(spec_all_detections(a) + spec_all_detections(b) =~= spec_all_detections(b));
    } else {
        lemma_all_detections_concat(a.drop_first(), b);
        assert((a + b).drop_first() =~= a.drop_first() + b);
        assert((a + b)[0] == a[0]);
        match a[0] {
            Ok(d) => {
                assert(spec_all_detections(a + b) =~= spec_all_detections(a)
                    + spec_all_detections(b));
            },
            Err(_) => {
                assert(spec_all_detections(a + b) =~= spec_all_detections(a)
                    + spec_all_detections(b));
            },
        }
    }
}

proof fn lemma_all_detections_len(evs: Seq<FailableDetection>)
    ensures
        spec_all_detections(evs).len() <= evs.len(),
    decreases evs.len(),
{
    if evs.len() > 0 {
        lemma_all_detections_len(evs.drop_first());
    }
}

proof fn lemma_all_detections_batches(bs: Seq<Batch>)
    ensures
        spec_all_detections(batches_events(bs)).len() <= spec_remaining(bs, 0),
    decreases bs.len(),
{
    reveal_with_fuel(spec_all_detections, 3);
    if bs.len() == 0 {
        assert(spec_all_detections(batches_events(bs)) =~= Seq::<Detection>::empty());
    } else {
        lemma_all_detections_batches(bs.drop_last());
        lemma_all_detections_concat(batch_events(bs.last()), batches_events(bs.drop_last()));
        match bs.last() {
            Ok(v) => {
                lemma_all_detections_len(v@.reverse());
                assert(batch_events(bs.last()) == v@.reverse());
                assert(spec_all_detections(batch_events(bs.last())).len() <= v@.len());
                assert(spec_remaining(bs, 0) == spec_remaining(bs.drop_last(), 0) + v@.len());
            },
            Err(e) => {
                assert(batch_events(bs.last()) == seq![Err::<Detection, DetectionError>(e)]);
                assert(seq![Err::<Detection, DetectionError>(e)].drop_first()
                    =~= Seq::<FailableDetection>::empty());
                assert(spec_all_detections(Seq::<FailableDetection>::empty())
                    =~= Seq::<Detection>::empty());
                assert(seq![Err::<Detection, DetectionError>(e)][0] == Err::<
                    Detection,
                    DetectionError,
                >(e));
                assert(spec_all_detections(seq![Err::<Detection, DetectionError>(e)])
                    =~= Seq::<Detection>::empty());
                assert(spec_remaining(bs, 0) == spec_remaining(bs.drop_last(), 0));
            },
        }
        assert(spec_all_detections(batches_events(bs)).len() == spec_all_detections(
            batch_events(bs.last()),
        ).len() + spec_all_detections(batches_events(bs.drop_last())).len());
    }
}

/// The size hint is a conservative upper bound: no more detections remain
/// to be yielded than it says.
pub proof fn lemma_remaining_is_conservative(estimates: &Estimates)
    ensures
        spec_all_detections(estimates.events()).len() <= estimates.remaining_upper(),
{
    lemma_all_detections_concat(
        estimates.current@.reverse(),
        batches_events(estimates.batches@),
    );
    lemma_all_detections_len(estimates.current@.reverse());
    lemma_all_detections_batches(estimates.batches@);
    lemma_remaining_base(estimates.batches@, estimates.current@.len() as int);
}

} // verus!
