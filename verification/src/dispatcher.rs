//! The dispatcher: decides, on every clock tick and on every completion, how
//! many new executions may start, under a concurrency gate and a token bucket.
//!
//! The clock ticks once per second. A tick refills the bucket to one second's
//! allowance; tokens left over from the second before are not carried along.
//! With a rate of zero the bucket is not consulted at all.

use vstd::prelude::*;
use crate::profile::LoadProfile;

verus! {

/// What is reported to the dispatcher.
#[derive(Clone, Copy, Debug, PartialEq, Eq, Structural)]
pub enum Event {
    /// One second has passed on the clock.
    Tick,
    /// The execution with this sequence number has finished.
    Completion { sequence_number: u64 },
}

/// Why a completion was turned away. The dispatcher is unchanged by it.
#[derive(Clone, Copy, Debug, PartialEq, Eq, Structural)]
pub enum DispatchError {
    /// No execution is in flight.
    NothingInFlight,
    /// The sequence number has not been issued yet.
    UnknownSequence,
}

/// The dispatcher's state as numbers: the three parameters of the run, the
/// two counters, and the admissions still allowed in the current second.
pub struct Schedule {
    pub total: nat,
    pub concurrency: nat,
    pub rate: nat,
    pub issued: nat,
    pub completed: nat,
    pub tokens: nat,
}

impl Schedule {
    /// The number of executions started and not yet finished.
    pub open spec fn in_flight(self) -> int {
        self.issued - self.completed
    }

    /// The bounds that hold at all times during a run.
    pub open spec fn well_formed(self) -> bool {
        &&& 1 <= self.concurrency <= self.total
        &&& self.completed <= self.issued <= self.total
        &&& 0 <= self.in_flight() <= self.concurrency
        &&& self.tokens <= self.rate
    }

    /// The state before anything is issued: a full bucket and no request.
    pub open spec fn initial(total: nat, concurrency: nat, rate: nat) -> Schedule {
        Schedule { total, concurrency, rate, issued: 0, completed: 0, tokens: rate }
    }

    /// The run is over when every request has completed.
    pub open spec fn finished(self) -> bool {
        self.completed == self.total
    }

    /// How many executions may start now: the smallest of the free
    /// concurrency slots, the requests not yet issued and, where a rate is
    /// set, the tokens in the bucket.
    pub open spec fn admissible(self) -> nat {
        let slots = self.concurrency - self.in_flight();
        let unissued = self.total - self.issued;
        let room = if slots <= unissued {
            slots
        } else {
            unissued
        };
        let granted = if self.rate > 0 && self.tokens < room {
            self.tokens as int
        } else {
            room
        };
        if granted > 0 {
            granted as nat
        } else {
            0
        }
    }

    /// The sequence numbers that an admission hands out now, in order.
    pub open spec fn admission(self) -> Seq<nat> {
        Seq::new(self.admissible(), |i: int| (self.issued + i) as nat)
    }

    /// The state after admitting as many executions as may start.
    pub open spec fn dispatch(self) -> Schedule {
        let k = self.admissible();
        Schedule {
            issued: self.issued + k,
            tokens: if self.rate > 0 {
                (self.tokens - k) as nat
            } else {
                self.tokens
            },
            ..self
        }
    }

    /// Whether an event is taken. A tick always is; a completion is taken
    /// when something is in flight and its sequence number has been issued.
    pub open spec fn accepts(self, event: Event) -> bool {
        match event {
            Event::Tick => true,
            Event::Completion { sequence_number } => self.in_flight() > 0 && sequence_number
                < self.issued,
        }
    }

    /// Which error a completion that is not taken gets: that nothing is in
    /// flight where that is so, else that its sequence number is unknown.
    pub open spec fn rejection(self) -> DispatchError {
        if self.in_flight() <= 0 {
            DispatchError::NothingInFlight
        } else {
            DispatchError::UnknownSequence
        }
    }

    /// The state once an accepted event is noted, before admission is
    /// checked again: a tick refills the bucket, a completion frees a slot.
    pub open spec fn note(self, event: Event) -> Schedule {
        match event {
            Event::Tick => Schedule { tokens: self.rate, ..self },
            Event::Completion { .. } => Schedule { completed: self.completed + 1, ..self },
        }
    }

    /// The state after an event: unchanged where the event is not taken,
    /// else noted and followed by an admission.
    pub open spec fn step(self, event: Event) -> Schedule {
        if self.accepts(event) {
            self.note(event).dispatch()
        } else {
            self
        }
    }

    /// The sequence numbers handed out in reaction to one event.
    pub open spec fn step_admission(self, event: Event) -> Seq<nat> {
        if self.accepts(event) {
            self.note(event).admission()
        } else {
            Seq::empty()
        }
    }

    /// The state after a sequence of events.
    pub open spec fn run(self, events: Seq<Event>) -> Schedule
        decreases events.len(),
    {
        if events.len() == 0 {
            self
        } else {
            self.run(events.drop_last()).step(events.last())
        }
    }

    /// All sequence numbers handed out over a sequence of events, in the
    /// order in which they were handed out.
    pub open spec fn handed_out(self, events: Seq<Event>) -> Seq<nat>
        decreases events.len(),
    {
        if events.len() == 0 {
            Seq::empty()
        } else {
            self.handed_out(events.drop_last()) + self.run(events.drop_last()).step_admission(
                events.last(),
            )
        }
    }
}

/// The number of ticks among some events.
pub open spec fn ticks_in(events: Seq<Event>) -> nat
    decreases events.len(),
{
    if events.len() == 0 {
        0
    } else {
        ticks_in(events.drop_last()) + if events.last() is Tick {
            1nat
        } else {
            0nat
        }
    }
}

/// The consecutive numbers `first, first + 1, ..` up to `first + count - 1`.
pub open spec fn consecutive(first: nat, count: nat) -> Seq<nat> {
    Seq::new(count, |i: int| (first + i) as nat)
}

/// Every event leaves the bounds of a run intact: at no time are more
/// executions in flight than the concurrency level allows, and at no time is
/// more completed than issued or more issued than asked for.
pub proof fn lemma_step_keeps_bounds(s: Schedule, event: Event)
    requires
        s.well_formed(),
    ensures
        s.step(event).well_formed(),
        s.step(event).total == s.total,
        s.step(event).concurrency == s.concurrency,
        s.step(event).rate == s.rate,
        s.step(event).issued >= s.issued,
        s.step(event).completed >= s.completed,
{
}

/// The bounds hold in every state that a run reaches, whatever events
/// arrive and in whatever order.
pub proof fn lemma_run_keeps_bounds(s: Schedule, events: Seq<Event>)
    requires
        s.well_formed(),
    ensures
        s.run(events).well_formed(),
        0 <= s.run(events).in_flight() <= s.concurrency,
        s.run(events).completed <= s.run(events).issued <= s.total,
        s.run(events).total == s.total,
        s.run(events).concurrency == s.concurrency,
        s.run(events).rate == s.rate,
        s.run(events).issued >= s.issued,
        s.run(events).completed >= s.completed,
    decreases events.len(),
{
    if events.len() > 0 {
        lemma_run_keeps_bounds(s, events.drop_last());
        lemma_step_keeps_bounds(s.run(events.drop_last()), events.last());
    }
}

/// The first admission of a run leaves the bounds intact as well.
pub proof fn lemma_dispatch_keeps_bounds(s: Schedule)
    requires
        s.well_formed(),
    ensures
        s.dispatch().well_formed(),
        s.dispatch().issued == s.issued + s.admissible(),
        s.dispatch().completed == s.completed,
{
}

/// With a rate set, a stretch of a run admits no more than the tokens that
/// were in the bucket at its start plus one second's allowance for each tick
/// in it. A window of one second holds at most one tick, so it sees at most
/// the rate plus the allowance of that one tick; a stretch without a tick
/// sees at most the rate.
pub proof fn lemma_rate_bound(s: Schedule, events: Seq<Event>)
    requires
        s.well_formed(),
        s.rate > 0,
    ensures
        s.run(events).issued - s.issued + s.run(events).tokens <= s.tokens + ticks_in(events)
            * s.rate,
        s.run(events).issued - s.issued <= (1 + ticks_in(events)) * s.rate,
        ticks_in(events) == 0 ==> s.run(events).issued - s.issued <= s.rate,
        ticks_in(events) <= 1 ==> s.run(events).issued - s.issued <= 2 * s.rate,
    decreases events.len(),
{
    if events.len() > 0 {
        let before = s.run(events.drop_last());
        lemma_rate_bound(s, events.drop_last());
        lemma_run_keeps_bounds(s, events.drop_last());
        let n = ticks_in(events.drop_last());
        assert((n + 1) * s.rate == n * s.rate + s.rate) by (nonlinear_arith);
        assert((1 + ticks_in(events)) * s.rate == s.rate + ticks_in(events) * s.rate)
            by (nonlinear_arith);
        if ticks_in(events) == 1 {
            assert(ticks_in(events) * s.rate == s.rate) by (nonlinear_arith)
                requires
                    ticks_in(events) == 1,
            ;
        }
        if ticks_in(events) == 0 {
            assert(ticks_in(events) * s.rate == 0) by (nonlinear_arith)
                requires
                    ticks_in(events) == 0,
            ;
        }
    } else {
        assert(ticks_in(events) * s.rate == 0) by (nonlinear_arith)
            requires
                ticks_in(events) == 0,
        ;
        assert((1 + ticks_in(events)) * s.rate == s.rate) by (nonlinear_arith)
            requires
                ticks_in(events) == 0,
        ;
    }
}

/// An event together with the time at which it was reported, in
/// milliseconds since the run began.
pub struct Timed {
    pub at: nat,
    pub event: Event,
}

/// The events of a timed trace, without their times.
pub open spec fn events_of(trace: Seq<Timed>) -> Seq<Event> {
    trace.map_values(|timed: Timed| timed.event)
}

/// What a trace owes to its clock: time never runs backwards, and any two
/// ticks are at least one second apart.
pub open spec fn clocked(trace: Seq<Timed>) -> bool {
    &&& forall|i: int, j: int| 0 <= i <= j < trace.len() ==> trace[i].at <= trace[j].at
    &&& forall|i: int, j: int|
        0 <= i < j < trace.len() && trace[i].event is Tick && trace[j].event is Tick
            ==> trace[j].at >= trace[i].at + 1000
}

/// Running through two sequences of events one after the other is running
/// through both as one.
pub proof fn lemma_run_concat(s: Schedule, first: Seq<Event>, second: Seq<Event>)
    ensures
        s.run(first + second) == s.run(first).run(second),
    decreases second.len(),
{
    if second.len() == 0 {
        assert(first + second =~= first);
    } else {
        lemma_run_concat(s, first, second.drop_last());
        assert((first + second).drop_last() =~= first + second.drop_last());
        assert((first + second).last() == second.last());
    }
}

/// A stretch of a clocked trace that lasts less than a second holds at most
/// one tick.
proof fn lemma_one_tick_a_second(trace: Seq<Timed>, from: int, to: int)
    requires
        clocked(trace),
        0 <= from <= to <= trace.len(),
        from < to ==> trace[to - 1].at < trace[from].at + 1000,
    ensures
        ticks_in(events_of(trace).subrange(from, to)) <= 1,
        (forall|i: int| from <= i < to ==> !(trace[i].event is Tick)) ==> ticks_in(
            events_of(trace).subrange(from, to),
        ) == 0,
    decreases to - from,
{
    let events = events_of(trace);
    if from < to {
        let stretch = events.subrange(from, to);
        assert(stretch.drop_last() =~= events.subrange(from, to - 1));
        assert(stretch.last() == trace[to - 1].event);
        if from < to - 1 {
            assert(trace[to - 2].at <= trace[to - 1].at);
        }
        lemma_one_tick_a_second(trace, from, to - 1);
        if trace[to - 1].event is Tick {
            assert forall|i: int| from <= i < to - 1 implies !(trace[i].event is Tick) by {
                if trace[i].event is Tick {
                    assert(trace[to - 1].at >= trace[i].at + 1000);
                    assert(trace[from].at <= trace[i].at);
                }
            }
        }
    }
}

/// The rate bound over time. Take a run whose clock ticks once a second,
/// and any stretch of it that lasts less than one second. With a rate set,
/// the executions admitted during the stretch are no more than the rate
/// plus the allowance of one tick, which is the rate again; if no tick falls
/// into the stretch they are no more than the rate.
pub proof fn lemma_rate_bound_in_window(s: Schedule, trace: Seq<Timed>, from: int, to: int)
    requires
        s.well_formed(),
        s.rate > 0,
        clocked(trace),
        0 <= from <= to <= trace.len(),
        from < to ==> trace[to - 1].at < trace[from].at + 1000,
    ensures
        s.run(events_of(trace).take(to)).issued - s.run(events_of(trace).take(from)).issued <= 2
            * s.rate,
        (forall|i: int| from <= i < to ==> !(trace[i].event is Tick)) ==> s.run(
            events_of(trace).take(to),
        ).issued - s.run(events_of(trace).take(from)).issued <= s.rate,
{
    let events = events_of(trace);
    let before = s.run(events.take(from));
    let stretch = events.subrange(from, to);
    assert(events.take(to) =~= events.take(from) + stretch);
    lemma_run_concat(s, events.take(from), stretch);
    lemma_run_keeps_bounds(s, events.take(from));
    lemma_one_tick_a_second(trace, from, to);
    lemma_rate_bound(before, stretch);
}

/// The sequence numbers handed out over any stretch of a run are consecutive
/// and start where the stretch found the counter: none is skipped and none is
/// handed out twice.
pub proof fn lemma_handed_out_consecutive(s: Schedule, events: Seq<Event>)
    requires
        s.well_formed(),
    ensures
        s.handed_out(events) == consecutive(s.issued, (s.run(events).issued - s.issued) as nat),
    decreases events.len(),
{
    if events.len() > 0 {
        let before = s.run(events.drop_last());
        lemma_handed_out_consecutive(s, events.drop_last());
        lemma_run_keeps_bounds(s, events.drop_last());
        lemma_step_keeps_bounds(before, events.last());
        let after = before.step(events.last());
        assert(s.handed_out(events) =~= consecutive(s.issued, (after.issued - s.issued) as nat));
    } else {
        assert(s.handed_out(events) =~= consecutive(s.issued, 0));
    }
}

/// Over a whole run, which opens with an admission and then reacts to
/// events, the sequence numbers handed out are `0, 1, 2, ..` in this order,
/// as many as were issued. When the run is finished these are exactly the
/// numbers below the total, each handed out once.
pub proof fn lemma_sequence_integrity(
    total: nat,
    concurrency: nat,
    rate: nat,
    events: Seq<Event>,
)
    requires
        1 <= concurrency <= total,
    ensures
        ({
            let opening = Schedule::initial(total, concurrency, rate);
            let end = opening.dispatch().run(events);
            &&& opening.admission() + opening.dispatch().handed_out(events) == consecutive(
                0,
                end.issued,
            )
            &&& end.finished() ==> end.issued == total
        }),
{
    let opening = Schedule::initial(total, concurrency, rate);
    let started = opening.dispatch();
    let end = started.run(events);
    lemma_dispatch_keeps_bounds(opening);
    lemma_handed_out_consecutive(started, events);
    lemma_run_keeps_bounds(started, events);
    assert(opening.admission() + started.handed_out(events) =~= consecutive(0, end.issued));
}

/// A run ends exactly when the last request completes, and it cannot stall
/// before: as long as it is not finished, either an execution is in flight,
/// whose completion will be reported, or the next tick admits at least one.
/// Once it is finished nothing is in flight and no event admits anything.
pub proof fn lemma_progress(s: Schedule)
    requires
        s.well_formed(),
    ensures
        !s.finished() ==> s.in_flight() > 0 || s.step(Event::Tick).issued > s.issued,
        s.finished() ==> s.in_flight() == 0 && s.issued == s.total,
        s.finished() ==> forall|event: Event| #[trigger] s.step(event).issued == s.issued,
{
}

/// A batch of executions to start: `count` of them, numbered consecutively
/// from `first_sequence_number`.
#[derive(Clone, Copy, Debug, PartialEq, Eq, Structural)]
pub struct Admission {
    pub first_sequence_number: u64,
    pub count: u64,
}

impl Admission {
    /// The sequence numbers of the batch, in order.
    pub open spec fn sequence_numbers(self) -> Seq<nat> {
        consecutive(self.first_sequence_number as nat, self.count as nat)
    }
}

/// The scheduling authority of one run. It alone owns the counters; the
/// bounds of `Schedule::well_formed` hold of it at all times.
#[derive(Debug)]
pub struct Dispatcher {
    total: u64,
    concurrency: u64,
    rate: u64,
    issued: u64,
    completed: u64,
    tokens: u64,
}

impl View for Dispatcher {
    type V = Schedule;

    closed spec fn view(&self) -> Schedule {
        Schedule {
            total: self.total as nat,
            concurrency: self.concurrency as nat,
            rate: self.rate as nat,
            issued: self.issued as nat,
            completed: self.completed as nat,
            tokens: self.tokens as nat,
        }
    }
}

impl Dispatcher {
    #[verifier::type_invariant]
    spec fn bounded(self) -> bool {
        self@.well_formed()
    }

    /// A dispatcher for the profile, with nothing issued yet.
    pub fn new(profile: &LoadProfile) -> (d: Dispatcher)
        ensures
            d@ == Schedule::initial(
                profile@.total_requests,
                profile@.concurrency,
                profile@.rate_per_second,
            ),
            d@.well_formed(),
    {
        let total: u64 = profile.total_requests() as u64;
        let concurrency: u64 = profile.concurrency() as u64;
        let rate: u64 = profile.rate_per_second() as u64;
        Dispatcher { total, concurrency, rate, issued: 0, completed: 0, tokens: rate }
    }

    /// A dispatcher that stands for no run: one request, not yet issued.
    pub(crate) fn idle() -> (d: Dispatcher)
        ensures
            d@ == Schedule::initial(1, 1, 0),
            d@.well_formed(),
    {
        Dispatcher { total: 1, concurrency: 1, rate: 0, issued: 0, completed: 0, tokens: 0 }
    }

    /// Admits as many executions as may start now. A run opens with this.
    pub fn dispatch(&mut self) -> (batch: Admission)
        ensures
            final(self)@ == old(self)@.dispatch(),
            final(self)@.well_formed(),
            batch.sequence_numbers() == old(self)@.admission(),
            batch.first_sequence_number == old(self)@.issued,
            batch.count == old(self)@.admissible(),
    {
        proof {
            use_type_invariant(&*self);
        }
        let slots: u64 = self.concurrency - (self.issued - self.completed);
        let unissued: u64 = self.total - self.issued;
        let mut count: u64 = if slots <= unissued {
            slots
        } else {
            unissued
        };
        if self.rate > 0 && self.tokens < count {
            count = self.tokens;
        }
        let first: u64 = self.issued;
        if self.rate > 0 {
            self.tokens = self.tokens - count;
        }
        self.issued = self.issued + count;
        let batch = Admission { first_sequence_number: first, count };
        assert(batch.sequence_numbers() =~= old(self)@.admission());
        batch
    }

    /// Reacts to a tick of the clock: refills the bucket and admits.
    pub fn on_tick(&mut self) -> (batch: Admission)
        ensures
            final(self)@ == old(self)@.step(Event::Tick),
            final(self)@.well_formed(),
            batch.sequence_numbers() == old(self)@.step_admission(Event::Tick),
            batch.first_sequence_number == old(self)@.issued,
            batch.first_sequence_number + batch.count == final(self)@.issued,
    {
        proof {
            use_type_invariant(&*self);
        }
        self.tokens = self.rate;
        self.dispatch()
    }

    /// Reacts to the completion of an execution: frees its slot and admits.
    /// A completion is turned away, and nothing changes, when nothing is in
    /// flight or when the sequence number was never issued.
    pub fn on_completion(&mut self, sequence_number: u64) -> (r: Result<Admission, DispatchError>)
        ensures
            final(self)@ == old(self)@.step(Event::Completion { sequence_number }),
            final(self)@.well_formed(),
            match r {
                Ok(batch) => {
                    &&& old(self)@.accepts(Event::Completion { sequence_number })
                    &&& batch.sequence_numbers() == old(self)@.step_admission(
                        Event::Completion { sequence_number },
                    )
                    &&& batch.first_sequence_number == old(self)@.issued
                    &&& batch.first_sequence_number + batch.count == final(self)@.issued
                    &&& final(self)@.completed == old(self)@.completed + 1
                },
                Err(e) => {
                    &&& !old(self)@.accepts(Event::Completion { sequence_number })
                    &&& e == old(self)@.rejection()
                },
            },
    {
        proof {
            use_type_invariant(&*self);
        }
        if self.issued == self.completed {
            Err(DispatchError::NothingInFlight)
        } else if sequence_number >= self.issued {
            Err(DispatchError::UnknownSequence)
        } else {
            self.completed = self.completed + 1;
            Ok(self.dispatch())
        }
    }

    /// Reacts to an event, whichever it is.
    pub fn handle(&mut self, event: Event) -> (r: Result<Admission, DispatchError>)
        ensures
            final(self)@ == old(self)@.step(event),
            final(self)@.well_formed(),
            match r {
                Ok(batch) => {
                    &&& old(self)@.accepts(event)
                    &&& batch.sequence_numbers() == old(self)@.step_admission(event)
                    &&& batch.first_sequence_number == old(self)@.issued
                    &&& batch.first_sequence_number + batch.count == final(self)@.issued
                },
                Err(e) => {
                    &&& event matches Event::Completion { sequence_number }
                    &&& !old(self)@.accepts(event)
                    &&& e == old(self)@.rejection()
                },
            },
    {
        match event {
            Event::Tick => Ok(self.on_tick()),
            Event::Completion { sequence_number } => self.on_completion(sequence_number),
        }
    }

    /// Whether every request has completed. The clock can stop then.
    pub fn is_finished(&self) -> (done: bool)
        ensures
            done == self@.finished(),
            self@.well_formed(),
    {
        proof {
            use_type_invariant(self);
        }
        self.completed == self.total
    }

    /// The number of executions started so far.
    pub fn issued_count(&self) -> (n: u64)
        ensures
            n == self@.issued,
    {
        self.issued
    }

    /// The number of executions finished so far.
    pub fn completed_count(&self) -> (n: u64)
        ensures
            n == self@.completed,
    {
        self.completed
    }

    /// The number of executions started and not yet finished.
    pub fn in_flight_count(&self) -> (n: u64)
        ensures
            n == self@.in_flight(),
            n <= self@.concurrency,
    {
        proof {
            use_type_invariant(self);
        }
        self.issued - self.completed
    }
}

} // verus!
