//! The batch updater: walks a fixed list of update targets in order, hands
//! each one out for a single invocation of the external tool, and collects
//! the failures without ever letting one entry's failure block the rest.
//!
//! The machine is deliberately dumb: the cursor advances on every recorded
//! outcome, whatever it was, and the target list never changes.  That is the
//! whole point — [`lemma_batch_resilience`] states it over any outcome
//! sequence.

use vstd::prelude::*;
use crate::errors::{Error, ErrorV};

verus! {

/// The mathematical shape of a [`BatchUpdater`]: the planned targets (name
/// and location of each entry), the cursor, and the failures so far.
pub struct BatchView {
    pub targets: Seq<(Seq<char>, Seq<char>)>,
    pub next: int,
    pub failures: Seq<(Seq<char>, Seq<ErrorV>)>,
}

/// The mathematical shape of a target list.
pub open spec fn targets_view(ts: Seq<(String, String)>) -> Seq<(Seq<char>, Seq<char>)> {
    ts.map_values(|t: (String, String)| (t.0@, t.1@))
}

/// The mathematical shape of a failure list.
pub open spec fn failures_view(fs: Seq<(String, Vec<Error>)>) -> Seq<(Seq<char>, Seq<ErrorV>)> {
    fs.map_values(|f: (String, Vec<Error>)| (f.0@, f.1.deep_view()))
}

/// Walks update targets in order and aggregates per-entry failures.
#[derive(Debug)]
pub struct BatchUpdater {
    /// The entries to update: name and location, in registry order.
    targets: Vec<(String, String)>,
    /// How many targets have had their outcome recorded.
    next: usize,
    /// The failing entries seen so far: name and classified errors.
    failures: Vec<(String, Vec<Error>)>,
}

impl View for BatchUpdater {
    type V = BatchView;

    closed spec fn view(&self) -> BatchView {
        BatchView {
            targets: targets_view(self.targets@),
            next: self.next as int,
            failures: failures_view(self.failures@),
        }
    }
}

/// An invocation outcome as the machine sees it: `None` for success,
/// otherwise the errors classified from the invocation.
pub open spec fn outcome_view(o: Result<(), Vec<Error>>) -> Option<Seq<ErrorV>> {
    match o {
        Ok(_) => None,
        Err(es) => Some(es.deep_view()),
    }
}

/// One step of the batch: the cursor advances whatever the outcome was, the
/// targets stay, and a failure is recorded against the entry's name.
pub open spec fn spec_step(b: BatchView, outcome: Option<Seq<ErrorV>>) -> BatchView {
    BatchView {
        targets: b.targets,
        next: b.next + 1,
        failures: match outcome {
            Some(es) => b.failures.push((b.targets[b.next].0, es)),
            None => b.failures,
        },
    }
}

/// A whole run: the steps of each outcome in order.
pub open spec fn spec_run(b: BatchView, outcomes: Seq<Option<Seq<ErrorV>>>) -> BatchView
    decreases outcomes.len(),
{
    if outcomes.len() == 0 {
        b
    } else {
        spec_run(spec_step(b, outcomes[0]), outcomes.drop_first())
    }
}

/// The failures a target list collects under an outcome sequence: exactly
/// the failing entries, each under its own name, in target order.
pub open spec fn spec_failures_of(
    targets: Seq<(Seq<char>, Seq<char>)>,
    outcomes: Seq<Option<Seq<ErrorV>>>,
) -> Seq<(Seq<char>, Seq<ErrorV>)>
    decreases outcomes.len(),
{
    if outcomes.len() == 0 || targets.len() == 0 {
        Seq::empty()
    } else {
        (match outcomes[0] {
            Some(es) => seq![(targets[0].0, es)],
            None => Seq::empty(),
        }) + spec_failures_of(targets.drop_first(), outcomes.drop_first())
    }
}

/// Batch resilience: whatever each invocation's outcome is, the machine
/// still reaches every remaining target — no failure removes, reorders or
/// blocks a later entry — and the failures it aggregates are exactly those
/// of the failing entries, in order.
pub proof fn lemma_batch_resilience(b: BatchView, outcomes: Seq<Option<Seq<ErrorV>>>)
    requires
        0 <= b.next,
        b.next + outcomes.len() <= b.targets.len(),
    ensures
        spec_run(b, outcomes).targets == b.targets,
        spec_run(b, outcomes).next == b.next + outcomes.len(),
        spec_run(b, outcomes).failures == b.failures + spec_failures_of(
            b.targets.skip(b.next),
            outcomes,
        ),
    decreases outcomes.len(),
{
    let rest = b.targets.skip(b.next);
    if outcomes.len() == 0 {
        assert(b.failures + spec_failures_of(rest, outcomes) =~= b.failures);
    } else {
        let b1 = spec_step(b, outcomes[0]);
        lemma_batch_resilience(b1, outcomes.drop_first());
        assert(rest.drop_first() =~= b.targets.skip(b.next + 1));
        assert(rest[0] == b.targets[b.next]);
        match outcomes[0] {
            Some(es) => {
                assert(b1.failures + spec_failures_of(
                    b.targets.skip(b.next + 1),
                    outcomes.drop_first(),
                ) =~= b.failures + (seq![(b.targets[b.next].0, es)] + spec_failures_of(
                    rest.drop_first(),
                    outcomes.drop_first(),
                )));
            }
            None => {
                assert(b1.failures + spec_failures_of(
                    b.targets.skip(b.next + 1),
                    outcomes.drop_first(),
                ) =~= b.failures + (Seq::empty() + spec_failures_of(
                    rest.drop_first(),
                    outcomes.drop_first(),
                )));
            }
        }
    }
}

impl BatchUpdater {
    /// The cursor never passes the end of the target list.
    pub open spec fn wf(&self) -> bool {
        self@.next <= self@.targets.len()
    }

    /// A fresh machine over the given targets, nothing issued yet.
    pub fn new(targets: Vec<(String, String)>) -> (b: BatchUpdater)
        ensures
            b@.targets == targets_view(targets@),
            b@.next == 0,
            b@.failures.len() == 0,
            b.wf(),
    {
        let b = BatchUpdater { targets, next: 0, failures: Vec::new() };
        proof {
            assert(b@.failures =~= Seq::<(Seq<char>, Seq<ErrorV>)>::empty());
        }
        b
    }

    /// Whether every target's outcome has been recorded.
    pub fn done(&self) -> (r: bool)
        ensures
            r == (self@.next >= self@.targets.len()),
    {
        self.next >= self.targets.len()
    }

    /// A copy of the target the next invocation must act on, if one is left.
    pub fn next_target(&self) -> (r: Option<(String, String)>)
        ensures
            self@.next < self@.targets.len() ==> (r matches Some(t) && (t.0@, t.1@)
                == self@.targets[self@.next]),
            self@.next >= self@.targets.len() ==> r is None,
    {
        if self.next < self.targets.len() {
            let t = (self.targets[self.next].0.clone(), self.targets[self.next].1.clone());
            proof {
                assert(self@.targets[self@.next] == (
                    self.targets@[self.next as int].0@,
                    self.targets@[self.next as int].1@,
                ));
            }
            Some(t)
        } else {
            None
        }
    }

    /// How far the batch has come: outcomes recorded so far, and the total
    /// count of targets, for per-entry progress reporting.
    pub fn progress(&self) -> (r: (usize, usize))
        ensures
            r.0 == self@.next,
            r.1 == self@.targets.len(),
    {
        (self.next, self.targets.len())
    }

    /// Records the outcome of the invocation of the current target and moves
    /// to the next one; a failure is kept, with the entry's name.
    pub fn record_outcome(&mut self, outcome: Result<(), Vec<Error>>)
        requires
            old(self)@.next < old(self)@.targets.len(),
        ensures
            final(self)@ == spec_step(old(self)@, outcome_view(outcome)),
            final(self).wf(),
    {
        let total = self.targets.len();
        proof {
            assert(self.next < total);
        }
        match outcome {
            Ok(_) => {
                self.next += 1;
            }
            Err(es) => {
                let ghost es_view = es.deep_view();
                let ghost f0 = self@.failures;
                let name = self.targets[self.next].0.clone();
                self.failures.push((name, es));
                self.next += 1;
                proof {
                    assert(self@.failures =~= f0.push(
                        (old(self)@.targets[old(self)@.next].0, es_view),
                    ));
                }
            }
        }
    }

    /// How many entries have failed so far.
    pub fn failure_count(&self) -> (n: usize)
        ensures
            n == self@.failures.len(),
    {
        self.failures.len()
    }

    /// Hands the aggregated failures out, consuming the machine.
    pub fn into_failures(self) -> (r: Vec<(String, Vec<Error>)>)
        ensures
            failures_view(r@) == self@.failures,
    {
        self.failures
    }
}

} // verus!
