//! A run: the dispatcher and the aggregator of one load profile, driven
//! together. A completion frees its slot, goes into the statistics and makes
//! the dispatcher look for new admissions, all in one step.

use vstd::prelude::*;
use crate::aggregator::ResultAggregator;
use crate::aggregator::Snapshot;
use crate::aggregator::Tally;
use crate::aggregator::lemma_tally_counts;
use crate::dispatcher::Admission;
use crate::dispatcher::DispatchError;
use crate::dispatcher::Dispatcher;
use crate::dispatcher::Event;
use crate::dispatcher::Schedule;
use crate::profile::LoadProfile;
use crate::record::CompletionRecord;

verus! {

/// What a finished run hands to whoever renders it: the statistics, and
/// the records in the order of their arrival where the run kept them.
#[derive(Clone, Debug, PartialEq, Eq)]
pub struct Report {
    pub snapshot: Snapshot,
    pub records: Vec<CompletionRecord>,
}

/// What a run is made of.
struct Parts {
    dispatcher: Dispatcher,
    aggregator: ResultAggregator,
    keep_records: bool,
    records: Vec<CompletionRecord>,
    history: Ghost<Seq<CompletionRecord>>,
}

impl Parts {
    spec fn coherent(self) -> bool {
        &&& self.dispatcher@.well_formed()
        &&& self.aggregator@ == Tally::of(self.history@)
        &&& self.history@.len() == self.dispatcher@.completed
        &&& self.records@ == if self.keep_records {
            self.history@
        } else {
            Seq::empty()
        }
    }

    /// The parts of no run at all. They stand in while the parts of a run
    /// are being worked on.
    fn idle() -> (parts: Parts)
        ensures
            parts.coherent(),
    {
        let parts = Parts {
            dispatcher: Dispatcher::idle(),
            aggregator: ResultAggregator::new(),
            keep_records: false,
            records: Vec::new(),
            history: Ghost(Seq::empty()),
        };
        assert(parts.records@ =~= Seq::empty());
        parts
    }
}

/// One end-to-end execution of a load profile, from the first admission to
/// the last completion. At all times the bounds of the dispatcher hold of
/// it, and its statistics are those of the records it has taken.
pub struct Run {
    parts: Parts,
}

impl Run {
    #[verifier::type_invariant]
    spec fn coherent(self) -> bool {
        self.parts.coherent()
    }

    /// The dispatcher's state as numbers.
    pub closed spec fn schedule(&self) -> Schedule {
        self.parts.dispatcher@
    }

    /// What has gone into the statistics.
    pub closed spec fn tally(&self) -> Tally {
        self.parts.aggregator@
    }

    /// The records taken so far, in the order of their arrival.
    pub closed spec fn history(&self) -> Seq<CompletionRecord> {
        self.parts.history@
    }

    /// Whether the run keeps the records themselves beside the statistics.
    pub closed spec fn keeps_records(&self) -> bool {
        self.parts.keep_records
    }

    /// The records that the run holds.
    pub closed spec fn kept(&self) -> Seq<CompletionRecord> {
        self.parts.records@
    }

    /// The bounds of the dispatcher hold; every completion that the
    /// dispatcher has counted has gone into the statistics, and nothing
    /// else; and the run holds the records taken if it keeps them, none if
    /// it does not.
    pub open spec fn well_formed(&self) -> bool {
        &&& self.schedule().well_formed()
        &&& self.tally() == Tally::of(self.history())
        &&& self.history().len() == self.schedule().completed
        &&& self.kept() == if self.keeps_records() {
            self.history()
        } else {
            Seq::empty()
        }
    }

    /// Opens a run with its first admission. With `keep_records` the run
    /// holds every record it takes, for a report by request.
    pub fn start(profile: &LoadProfile, keep_records: bool) -> (opened: (Run, Admission))
        ensures
            opened.0.well_formed(),
            opened.0.keeps_records() == keep_records,
            opened.0.history() == Seq::<CompletionRecord>::empty(),
            opened.0.schedule() == Schedule::initial(
                profile@.total_requests,
                profile@.concurrency,
                profile@.rate_per_second,
            ).dispatch(),
            opened.0.tally() == Tally::empty(),
            opened.1.sequence_numbers() == Schedule::initial(
                profile@.total_requests,
                profile@.concurrency,
                profile@.rate_per_second,
            ).admission(),
            opened.1.first_sequence_number == 0,
            opened.1.count == opened.0.schedule().issued,
    {
        let mut dispatcher = Dispatcher::new(profile);
        let batch = dispatcher.dispatch();
        let parts = Parts {
            dispatcher,
            aggregator: ResultAggregator::new(),
            keep_records,
            records: Vec::new(),
            history: Ghost(Seq::empty()),
        };
        assert(parts.records@ =~= Seq::empty());
        (Run { parts }, batch)
    }

    /// Reacts to a tick of the clock.
    pub fn on_tick(&mut self) -> (batch: Admission)
        ensures
            old(self).well_formed(),
            final(self).well_formed(),
            final(self).schedule() == old(self).schedule().step(Event::Tick),
            final(self).tally() == old(self).tally(),
            final(self).history() == old(self).history(),
            final(self).kept() == old(self).kept(),
            final(self).keeps_records() == old(self).keeps_records(),
            batch.sequence_numbers() == old(self).schedule().step_admission(Event::Tick),
            batch.first_sequence_number == old(self).schedule().issued,
            batch.first_sequence_number + batch.count == final(self).schedule().issued,
    {
        proof {
            use_type_invariant(&*self);
        }
        let mut parts = Parts::idle();
        std::mem::swap(&mut parts, &mut self.parts);
        let batch = parts.dispatcher.on_tick();
        self.parts = parts;
        batch
    }

    /// Reacts to a finished execution: counts it as completed, takes its
    /// record into the statistics and admits what may start now. A record
    /// that the dispatcher turns away changes nothing.
    pub fn on_completion(&mut self, record: CompletionRecord) -> (r: Result<
        Admission,
        DispatchError,
    >)
        ensures
            old(self).well_formed(),
            final(self).well_formed(),
            final(self).schedule() == old(self).schedule().step(
                Event::Completion { sequence_number: record.sequence_number },
            ),
            final(self).keeps_records() == old(self).keeps_records(),
            match r {
                Ok(batch) => {
                    &&& old(self).schedule().accepts(
                        Event::Completion { sequence_number: record.sequence_number },
                    )
                    &&& final(self).tally() == old(self).tally().add(record)
                    &&& final(self).history() == old(self).history().push(record)
                    &&& batch.sequence_numbers() == old(self).schedule().step_admission(
                        Event::Completion { sequence_number: record.sequence_number },
                    )
                    &&& batch.first_sequence_number == old(self).schedule().issued
                    &&& batch.first_sequence_number + batch.count == final(self).schedule().issued
                },
                Err(e) => {
                    &&& !old(self).schedule().accepts(
                        Event::Completion { sequence_number: record.sequence_number },
                    )
                    &&& e == old(self).schedule().rejection()
                    &&& final(self).tally() == old(self).tally()
                    &&& final(self).history() == old(self).history()
                    &&& final(self).kept() == old(self).kept()
                },
            },
    {
        proof {
            use_type_invariant(&*self);
        }
        let mut parts = Parts::idle();
        std::mem::swap(&mut parts, &mut self.parts);
        let ghost before = parts.history@;
        let r = match parts.dispatcher.on_completion(record.sequence_number) {
            Ok(batch) => {
                parts.aggregator.record(record);
                if parts.keep_records {
                    parts.records.push(record);
                }
                proof {
                    parts.history@ = before.push(record);
                    assert(before.push(record).drop_last() =~= before);
                }
                Ok(batch)
            },
            Err(e) => Err(e),
        };
        self.parts = parts;
        r
    }

    /// The records that the run holds, in the order of their arrival: all
    /// that it has taken if it keeps records, none if it does not.
    pub fn records(&self) -> (records: &Vec<CompletionRecord>)
        ensures
            records@ == self.kept(),
            self.well_formed(),
    {
        proof {
            use_type_invariant(self);
        }
        &self.parts.records
    }

    /// Whether every request has completed. The clock can stop then.
    pub fn is_finished(&self) -> (done: bool)
        ensures
            done == self.schedule().finished(),
    {
        self.parts.dispatcher.is_finished()
    }

    /// The number of executions started and not yet finished.
    pub fn in_flight_count(&self) -> (n: u64)
        ensures
            n == self.schedule().in_flight(),
            n <= self.schedule().concurrency,
    {
        self.parts.dispatcher.in_flight_count()
    }

    /// The number of executions started so far.
    pub fn issued_count(&self) -> (n: u64)
        ensures
            n == self.schedule().issued,
    {
        self.parts.dispatcher.issued_count()
    }

    /// The number of executions finished so far.
    pub fn completed_count(&self) -> (n: u64)
        ensures
            n == self.schedule().completed,
    {
        self.parts.dispatcher.completed_count()
    }

    /// The statistics so far. Before the run is finished they are partial.
    pub fn snapshot(&self) -> (snap: Snapshot)
        ensures
            self.well_formed(),
            snap == Tally::of(self.history()).summary(),
            snap.total == self.schedule().completed,
    {
        proof {
            use_type_invariant(self);
            lemma_tally_counts(self.history());
        }
        self.parts.aggregator.snapshot()
    }

    /// Ends the run. A finished run gives its final statistics, which count
    /// every request of the profile, and the records it kept; nothing can be
    /// recorded after that. A run that is not finished is handed back
    /// unchanged.
    pub fn finish(self) -> (r: Result<Report, Run>)
        ensures
            self.well_formed(),
            match r {
                Ok(report) => {
                    &&& self.schedule().finished()
                    &&& report.snapshot == Tally::of(self.history()).summary()
                    &&& report.snapshot.total == self.schedule().total
                    &&& report.records@ == self.kept()
                },
                Err(run) => !self.schedule().finished() && run == self,
            },
    {
        proof {
            use_type_invariant(&self);
            lemma_tally_counts(self.history());
        }
        if self.parts.dispatcher.is_finished() {
            let parts = self.parts;
            let snapshot = parts.aggregator.snapshot();
            Ok(Report { snapshot, records: parts.records })
        } else {
            Err(self)
        }
    }
}

} // verus!
