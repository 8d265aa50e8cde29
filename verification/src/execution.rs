//! One request execution: follows what the transport reports of a single
//! exchange and resolves it, once, to a completion record.
//!
//! The transport does the sending and the reading. Each time it has
//! something to report it says so here, with the time that has passed since
//! the send; what is decided here is whether the exchange goes on, and how it
//! ended.

use vstd::prelude::*;
use crate::record::CompletionRecord;
use crate::record::ErrorKind;
use crate::record::Outcome;

verus! {

/// What the transport reports of an exchange.
#[derive(Clone, Copy, Debug, PartialEq, Eq, Structural)]
pub enum TransportEvent {
    /// The status line and the headers of the response have arrived.
    Head { status_code: u16 },
    /// A part of the response body has been read and dropped.
    Chunk { len: u64 },
    /// The response body has been read to its end.
    End,
    /// The exchange broke off.
    Failed { error_kind: ErrorKind },
    /// The timer set for the per-request timeout has fired.
    Deadline,
}

/// How far an exchange has come.
#[derive(Clone, Copy, Debug, PartialEq, Eq, Structural)]
pub enum Phase {
    /// The request is sent; no response has arrived yet.
    AwaitingHead,
    /// The head has arrived; the body is being read.
    ReadingBody { status_code: u16, received: u64 },
    /// The exchange is resolved; its record has been handed out.
    Done,
}

/// The state of one execution. A timeout of zero means that none is set.
#[derive(Clone, Copy, Debug, PartialEq, Eq, Structural)]
pub struct Execution {
    pub sequence_number: u64,
    pub timeout_micros: u64,
    pub phase: Phase,
}

/// The sum of two byte counts, held at the largest count that fits.
pub open spec fn capped_sum(a: u64, b: u64) -> u64 {
    if a + b > u64::MAX {
        u64::MAX
    } else {
        (a + b) as u64
    }
}

impl Execution {
    /// The execution of a request that has just been sent.
    pub open spec fn started(sequence_number: u64, timeout_micros: u64) -> Execution {
        Execution { sequence_number, timeout_micros, phase: Phase::AwaitingHead }
    }

    /// Whether more time has passed than the timeout allows.
    pub open spec fn expired(self, elapsed_micros: u64) -> bool {
        self.timeout_micros > 0 && elapsed_micros > self.timeout_micros
    }

    /// How the exchange ends with an event, if it ends with it. Nothing ends
    /// an exchange that is resolved already. Otherwise an exchange that has
    /// run beyond its timeout ends as timed out, whatever the event; a
    /// failure ends it as that failure; the end of the body ends it as a
    /// success, with the status and the bytes counted so far; and whatever
    /// comes out of turn (a second head, a body without a head) ends it as a
    /// protocol error.
    pub open spec fn resolution(self, event: TransportEvent, elapsed_micros: u64) -> Option<
        Outcome,
    > {
        if self.phase is Done {
            None
        } else if self.expired(elapsed_micros) {
            Some(Outcome::Failure { error_kind: ErrorKind::Timeout, latency_micros: elapsed_micros })
        } else {
            match (event, self.phase) {
                (TransportEvent::Deadline, _) => None,
                (TransportEvent::Failed { error_kind }, _) => Some(
                    Outcome::Failure { error_kind, latency_micros: elapsed_micros },
                ),
                (TransportEvent::Head { .. }, Phase::AwaitingHead) => None,
                (TransportEvent::Chunk { .. }, Phase::ReadingBody { .. }) => None,
                (TransportEvent::End, Phase::ReadingBody { status_code, received }) => Some(
                    Outcome::Success {
                        status_code,
                        latency_micros: elapsed_micros,
                        response_bytes: received,
                    },
                ),
                _ => Some(
                    Outcome::Failure {
                        error_kind: ErrorKind::ProtocolError,
                        latency_micros: elapsed_micros,
                    },
                ),
            }
        }
    }

    /// The state after an event.
    pub open spec fn after(self, event: TransportEvent, elapsed_micros: u64) -> Execution {
        if self.phase is Done {
            self
        } else if self.resolution(event, elapsed_micros) is Some {
            Execution { phase: Phase::Done, ..self }
        } else {
            match (event, self.phase) {
                (TransportEvent::Head { status_code }, Phase::AwaitingHead) => Execution {
                    phase: Phase::ReadingBody { status_code, received: 0 },
                    ..self
                },
                (TransportEvent::Chunk { len }, Phase::ReadingBody { status_code, received }) => {
                    Execution {
                        phase: Phase::ReadingBody {
                            status_code,
                            received: capped_sum(received, len),
                        },
                        ..self
                    }
                },
                _ => self,
            }
        }
    }

    /// The record handed out with an event, if the exchange ends with it.
    pub open spec fn record(self, event: TransportEvent, elapsed_micros: u64) -> Option<
        CompletionRecord,
    > {
        match self.resolution(event, elapsed_micros) {
            Some(outcome) => Some(
                CompletionRecord { sequence_number: self.sequence_number, outcome },
            ),
            None => None,
        }
    }

    /// The state after a sequence of events, each with the time at which it
    /// was reported.
    pub open spec fn after_all(self, events: Seq<(TransportEvent, u64)>) -> Execution
        decreases events.len(),
    {
        if events.len() == 0 {
            self
        } else {
            self.after_all(events.drop_last()).after(events.last().0, events.last().1)
        }
    }

    /// The records handed out over a sequence of events.
    pub open spec fn records(self, events: Seq<(TransportEvent, u64)>) -> Seq<CompletionRecord>
        decreases events.len(),
    {
        if events.len() == 0 {
            Seq::empty()
        } else {
            let before = self.after_all(events.drop_last());
            match before.record(events.last().0, events.last().1) {
                Some(record) => self.records(events.drop_last()).push(record),
                None => self.records(events.drop_last()),
            }
        }
    }

    /// Begins the execution of a request that has just been sent.
    pub fn begin(sequence_number: u64, timeout_micros: u64) -> (execution: Execution)
        ensures
            execution == Execution::started(sequence_number, timeout_micros),
    {
        Execution { sequence_number, timeout_micros, phase: Phase::AwaitingHead }
    }

    /// Whether the exchange is resolved.
    pub fn is_done(&self) -> (done: bool)
        ensures
            done == (self.phase is Done),
    {
        match self.phase {
            Phase::Done => true,
            _ => false,
        }
    }

    /// Takes note of an event reported `elapsed_micros` after the send, and
    /// hands out the completion record if the exchange ends with it. After a
    /// timeout the connection of the exchange is to be dropped, not reused.
    pub fn on_event(&mut self, event: TransportEvent, elapsed_micros: u64) -> (finished: Option<
        CompletionRecord,
    >)
        ensures
            *final(self) == old(self).after(event, elapsed_micros),
            finished == old(self).record(event, elapsed_micros),
            finished is Some ==> final(self).phase is Done,
    {
        let sequence_number: u64 = self.sequence_number;
        match self.phase {
            Phase::Done => {
                return None;
            },
            _ => {},
        }
        if self.timeout_micros > 0 && elapsed_micros > self.timeout_micros {
            self.phase = Phase::Done;
            return Some(
                CompletionRecord {
                    sequence_number,
                    outcome: Outcome::Failure {
                        error_kind: ErrorKind::Timeout,
                        latency_micros: elapsed_micros,
                    },
                },
            );
        }
        let protocol_error = CompletionRecord {
            sequence_number,
            outcome: Outcome::Failure {
                error_kind: ErrorKind::ProtocolError,
                latency_micros: elapsed_micros,
            },
        };
        match event {
            TransportEvent::Deadline => None,
            TransportEvent::Failed { error_kind } => {
                self.phase = Phase::Done;
                Some(
                    CompletionRecord {
                        sequence_number,
                        outcome: Outcome::Failure { error_kind, latency_micros: elapsed_micros },
                    },
                )
            },
            TransportEvent::Head { status_code } => {
                match self.phase {
                    Phase::AwaitingHead => {
                        self.phase = Phase::ReadingBody { status_code, received: 0 };
                        None
                    },
                    _ => {
                        self.phase = Phase::Done;
                        Some(protocol_error)
                    },
                }
            },
            TransportEvent::Chunk { len } => {
                match self.phase {
                    Phase::ReadingBody { status_code, received } => {
                        let total: u64 = if u64::MAX - received < len {
                            u64::MAX
                        } else {
                            received + len
                        };
                        self.phase = Phase::ReadingBody { status_code, received: total };
                        None
                    },
                    _ => {
                        self.phase = Phase::Done;
                        Some(protocol_error)
                    },
                }
            },
            TransportEvent::End => {
                match self.phase {
                    Phase::ReadingBody { status_code, received } => {
                        self.phase = Phase::Done;
                        Some(
                            CompletionRecord {
                                sequence_number,
                                outcome: Outcome::Success {
                                    status_code,
                                    latency_micros: elapsed_micros,
                                    response_bytes: received,
                                },
                            },
                        )
                    },
                    _ => {
                        self.phase = Phase::Done;
                        Some(protocol_error)
                    },
                }
            },
        }
    }
}

/// An execution hands out at most one record, whatever is reported to it and
/// however often: exactly one once it is resolved, none before. The record
/// carries the sequence number of the execution.
pub proof fn lemma_one_record(execution: Execution, events: Seq<(TransportEvent, u64)>)
    requires
        !(execution.phase is Done),
    ensures
        execution.records(events).len() <= 1,
        execution.after_all(events).phase is Done <==> execution.records(events).len() == 1,
        execution.after_all(events).sequence_number == execution.sequence_number,
        execution.after_all(events).timeout_micros == execution.timeout_micros,
        forall|i: int|
            0 <= i < execution.records(events).len() ==> (#[trigger] execution.records(
                events,
            )[i]).sequence_number == execution.sequence_number,
    decreases events.len(),
{
    if events.len() > 0 {
        lemma_one_record(execution, events.drop_last());
    }
}

/// An exchange never goes on beyond its end: the end of the body, a failure,
/// or any report that comes after the timeout has run out resolves it.
pub proof fn lemma_always_resolves(execution: Execution, event: TransportEvent, elapsed_micros: u64)
    requires
        !(execution.phase is Done),
        event is End || event is Failed || execution.expired(elapsed_micros),
    ensures
        execution.record(event, elapsed_micros) is Some,
        execution.after(event, elapsed_micros).phase is Done,
        execution.expired(elapsed_micros) ==> execution.record(event, elapsed_micros)
            == Some(
            CompletionRecord {
                sequence_number: execution.sequence_number,
                outcome: Outcome::Failure {
                    error_kind: ErrorKind::Timeout,
                    latency_micros: elapsed_micros,
                },
            },
        ),
{
}

} // verus!
