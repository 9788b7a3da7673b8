//! The evaluation scheduler's work queue.
//!
//! Signals are split into two priority classes by the signaled cell's
//! current formula: formulas that invoke the deliberate-delay primitive
//! go to the delayed queue, all others to the immediate queue. The
//! worker always drains the immediate queue fully before touching the
//! delayed queue, and only blocks for a new signal when both are empty.

use std::collections::VecDeque;
use vstd::prelude::*;

use crate::sheet::SignalClass;

verus! {

/// The pair of pending-work lanes, each first-in first-out.
pub struct WorkQueue {
    immediate: VecDeque<u64>,
    delayed: VecDeque<u64>,
}

/// The queue states after enqueuing `key` with the given class.
pub open spec fn spec_enqueue(
    iq: Seq<u64>,
    dq: Seq<u64>,
    key: u64,
    class: SignalClass,
) -> (Seq<u64>, Seq<u64>) {
    match class {
        SignalClass::Immediate => (iq.push(key), dq),
        SignalClass::Delayed => (iq, dq.push(key)),
    }
}

/// The queue states and the served key after one `pop`: the front of
/// the immediate lane if any, else the front of the delayed lane, else
/// nothing.
pub open spec fn spec_pop(iq: Seq<u64>, dq: Seq<u64>) -> (Seq<u64>, Seq<u64>, Option<u64>) {
    if iq.len() > 0 {
        (iq.drop_first(), dq, Option::Some(iq[0]))
    } else if dq.len() > 0 {
        (iq, dq.drop_first(), Option::Some(dq[0]))
    } else {
        (iq, dq, Option::None)
    }
}

impl WorkQueue {
    /// The immediate lane, front first.
    pub closed spec fn immediate_q(&self) -> Seq<u64> {
        self.immediate@
    }

    /// The delayed lane, front first.
    pub closed spec fn delayed_q(&self) -> Seq<u64> {
        self.delayed@
    }

    /// An empty queue.
    pub fn new() -> (q: WorkQueue)
        ensures
            q.immediate_q() == Seq::<u64>::empty(),
            q.delayed_q() == Seq::<u64>::empty(),
    {
        WorkQueue { immediate: VecDeque::new(), delayed: VecDeque::new() }
    }

    /// Whether both lanes are empty, so the worker may block for a signal.
    pub fn is_empty(&self) -> (r: bool)
        ensures
            r == (self.immediate_q().len() == 0 && self.delayed_q().len() == 0),
    {
        self.immediate.len() == 0 && self.delayed.len() == 0
    }

    /// Enqueues a signaled key into the lane its class selects.
    pub fn enqueue(&mut self, key: u64, class: SignalClass)
        ensures
            (final(self).immediate_q(), final(self).delayed_q()) == spec_enqueue(
                old(self).immediate_q(),
                old(self).delayed_q(),
                key,
                class,
            ),
    {
        match class {
            SignalClass::Immediate => self.immediate.push_back(key),
            SignalClass::Delayed => self.delayed.push_back(key),
        }
    }

    /// Serves the next key to evaluate, immediate work first.
    pub fn pop(&mut self) -> (r: Option<u64>)
        ensures
            (final(self).immediate_q(), final(self).delayed_q(), r) == spec_pop(
                old(self).immediate_q(),
                old(self).delayed_q(),
            ),
    {
        match self.immediate.pop_front() {
            Some(k) => {
                proof {
                    assert(old(self).immediate_q().subrange(
                        1,
                        old(self).immediate_q().len() as int,
                    ) =~= old(self).immediate_q().drop_first());
                }
                Some(k)
            },
            None => match self.delayed.pop_front() {
                Some(k) => {
                    proof {
                        assert(old(self).delayed_q().subrange(
                            1,
                            old(self).delayed_q().len() as int,
                        ) =~= old(self).delayed_q().drop_first());
                    }
                    Some(k)
                },
                None => None,
            },
        }
    }
}

/// Immediate work overtakes delayed work queued before it: when the
/// immediate lane is empty and two delayed signals arrive followed by
/// one immediate signal, the next key the queue serves is the immediate
/// one, ahead of both earlier delayed keys.
pub proof fn lemma_immediate_served_first(dq: Seq<u64>, d1: u64, d2: u64, im: u64)
    ensures
        ({
            let (iq1, dq1) = spec_enqueue(Seq::empty(), dq, d1, SignalClass::Delayed);
            let (iq2, dq2) = spec_enqueue(iq1, dq1, d2, SignalClass::Delayed);
            let (iq3, dq3) = spec_enqueue(iq2, dq2, im, SignalClass::Immediate);
            spec_pop(iq3, dq3).2 == Option::Some(im)
        }),
{
}

} // verus!
