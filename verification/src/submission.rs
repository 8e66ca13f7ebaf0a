//! The order in which the pending creations are submitted.
//!
//! Creations go out one at a time. The caller asks for the next one, sends it,
//! and reports how it ended; only then is the one after it handed out. A
//! creation that failed is counted and left behind: it never holds up the
//! ones that follow. A run that was not approved hands out nothing.

use vstd::prelude::*;
use crate::creator::{pending_view, PendingCreation, PendingCreationView};

verus! {

/// The state of a run of creations, as plain values.
pub struct CreationRunView {
    /// What the run submits, in order.
    pub pending: Seq<PendingCreationView>,
    /// How many creations were submitted and reported.
    pub attempted: nat,
    /// How many of those succeeded.
    pub created: nat,
    /// How many of those failed.
    pub failed: nat,
}

impl CreationRunView {
    /// What holds of every run: no more is attempted than is pending, and
    /// every attempt either succeeded or failed.
    pub open spec fn wf(self) -> bool {
        &&& self.attempted <= self.pending.len()
        &&& self.created + self.failed == self.attempted
    }

    /// Nothing is left to submit.
    pub open spec fn finished(self) -> bool {
        self.attempted >= self.pending.len()
    }

    /// The creation to submit next, if any is left.
    pub open spec fn next(self) -> Option<PendingCreationView> {
        if self.attempted < self.pending.len() {
            Some(self.pending[self.attempted as int])
        } else {
            None
        }
    }

    /// The run after the creation handed out last was reported. Whether it
    /// succeeded only decides which count grows. A report on a finished run
    /// changes nothing.
    pub open spec fn record(self, succeeded: bool) -> CreationRunView {
        if self.finished() {
            self
        } else if succeeded {
            CreationRunView {
                attempted: self.attempted + 1,
                created: self.created + 1,
                ..self
            }
        } else {
            CreationRunView { attempted: self.attempted + 1, failed: self.failed + 1, ..self }
        }
    }

    /// The run after a series of reports, one for each creation handed out.
    pub open spec fn record_all(self, outcomes: Seq<bool>) -> CreationRunView
        decreases outcomes.len(),
    {
        if outcomes.len() == 0 {
            self
        } else {
            self.record_all(outcomes.drop_last()).record(outcomes.last())
        }
    }
}

/// The run at its start: everything pending where the run was approved,
/// nothing at all where it was declined.
pub open spec fn spec_start(pending: Seq<PendingCreationView>, approved: bool) -> CreationRunView {
    CreationRunView {
        pending: if approved {
            pending
        } else {
            Seq::empty()
        },
        attempted: 0,
        created: 0,
        failed: 0,
    }
}

/// The test that an outcome is `wanted`.
pub open spec fn is_outcome(wanted: bool) -> spec_fn(bool) -> bool {
    |outcome: bool| outcome == wanted
}

/// How many of the outcomes are `wanted`.
pub open spec fn count_outcomes(outcomes: Seq<bool>, wanted: bool) -> nat {
    outcomes.filter(is_outcome(wanted)).len()
}

/// A run of creations: what is to be submitted, how far the run has come, and
/// how the attempts ended.
#[derive(Debug)]
pub struct CreationRun {
    pending: Vec<PendingCreation>,
    created: usize,
    failed: usize,
}

impl View for CreationRun {
    type V = CreationRunView;

    closed spec fn view(&self) -> CreationRunView {
        CreationRunView {
            pending: pending_view(self.pending@),
            attempted: (self.created + self.failed) as nat,
            created: self.created as nat,
            failed: self.failed as nat,
        }
    }
}

impl CreationRun {
    #[verifier::type_invariant]
    spec fn well_formed(&self) -> bool {
        self.created + self.failed <= self.pending.len()
    }

    /// Starts a run over the pending creations. A run that was not approved
    /// holds nothing: no creation is ever handed out of it.
    pub fn start(pending: Vec<PendingCreation>, approved: bool) -> (run: CreationRun)
        ensures
            run@ == spec_start(pending_view(pending@), approved),
            run@.wf(),
    {
        let kept = if approved {
            pending
        } else {
            Vec::new()
        };
        assert(!approved ==> pending_view(kept@) =~= Seq::<PendingCreationView>::empty());
        CreationRun { pending: kept, created: 0, failed: 0 }
    }

    /// Whether nothing is left to submit.
    pub fn is_finished(&self) -> (finished: bool)
        ensures
            finished == self@.finished(),
            self@.wf(),
    {
        proof {
            use_type_invariant(self);
            assert(pending_view(self.pending@).len() == self.pending.len());
        }
        self.created + self.failed >= self.pending.len()
    }

    /// The creation to submit next, or `None` when the run is finished. It
    /// stays the same until its outcome is recorded.
    pub fn next_creation(&self) -> (next: Option<&PendingCreation>)
        ensures
            match next {
                Some(creation) => self@.next() == Some(creation@),
                None => self@.next() is None,
            },
            self@.wf(),
    {
        proof {
            use_type_invariant(self);
            assert(pending_view(self.pending@).len() == self.pending.len());
        }
        let attempted = self.created + self.failed;
        if attempted < self.pending.len() {
            Some(&self.pending[attempted])
        } else {
            None
        }
    }

    /// Records how the creation handed out last ended, and moves on to the
    /// one after it, whether it succeeded or failed.
    pub fn record(&mut self, succeeded: bool)
        ensures
            final(self)@ == old(self)@.record(succeeded),
            old(self)@.wf(),
            final(self)@.wf(),
    {
        proof {
            use_type_invariant(&*self);
            assert(pending_view(self.pending@).len() == self.pending.len());
        }
        if self.created + self.failed < self.pending.len() {
            if succeeded {
                self.created = self.created + 1;
            } else {
                self.failed = self.failed + 1;
            }
        }
    }

    /// How many creations were submitted and reported.
    pub fn attempted_count(&self) -> (count: usize)
        ensures
            count == self@.attempted,
    {
        proof {
            use_type_invariant(self);
        }
        self.created + self.failed
    }

    /// How many creations succeeded.
    pub fn created_count(&self) -> (count: usize)
        ensures
            count == self@.created,
    {
        self.created
    }

    /// How many creations failed.
    pub fn failed_count(&self) -> (count: usize)
        ensures
            count == self@.failed,
    {
        self.failed
    }

    /// How many creations the run holds in all.
    pub fn pending_count(&self) -> (count: usize)
        ensures
            count == self@.pending.len(),
    {
        proof {
            assert(pending_view(self.pending@).len() == self.pending.len());
        }
        self.pending.len()
    }
}

/// No failure holds up a later creation. In an approved run, after any series
/// of reports, as many creations were attempted as were reported, the next one
/// handed out is the one that follows them in the list, whatever the reports
/// said, and each report was counted as a success or as a failure.
pub proof fn lemma_failures_do_not_block(pending: Seq<PendingCreationView>, outcomes: Seq<bool>)
    requires
        outcomes.len() <= pending.len(),
    ensures
        spec_start(pending, true).record_all(outcomes).pending == pending,
        spec_start(pending, true).record_all(outcomes).attempted == outcomes.len(),
        spec_start(pending, true).record_all(outcomes).created == count_outcomes(outcomes, true),
        spec_start(pending, true).record_all(outcomes).failed == count_outcomes(outcomes, false),
        spec_start(pending, true).record_all(outcomes).next() == if outcomes.len()
            < pending.len() {
            Some(pending[outcomes.len() as int])
        } else {
            None
        },
    decreases outcomes.len(),
{
    let start = spec_start(pending, true);
    if outcomes.len() == 0 {
        outcomes.lemma_filter_len(is_outcome(true));
        outcomes.lemma_filter_len(is_outcome(false));
    } else {
        let rest = outcomes.drop_last();
        let last = outcomes.last();
        lemma_failures_do_not_block(pending, rest);
        let before = start.record_all(rest);
        assert(start.record_all(outcomes) == before.record(last));
        assert(!before.finished());
        assert(rest.push(last) =~= outcomes);
        rest.lemma_filter_push(last, is_outcome(true));
        rest.lemma_filter_push(last, is_outcome(false));
    }
}

/// A declined run submits nothing: it is finished from the start, and stays
/// so whatever is reported to it.
pub proof fn lemma_declined_run_submits_nothing(
    pending: Seq<PendingCreationView>,
    outcomes: Seq<bool>,
)
    ensures
        spec_start(pending, false).record_all(outcomes) == spec_start(pending, false),
        spec_start(pending, false).next() is None,
    decreases outcomes.len(),
{
    if outcomes.len() > 0 {
        lemma_declined_run_submits_nothing(pending, outcomes.drop_last());
    }
}

} // verus!
