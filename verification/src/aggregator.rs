//! The result aggregator: folds completion records into counts and a latency
//! distribution, in whatever order they arrive.

use vstd::prelude::*;
use vstd::multiset::Multiset;
use crate::record::CompletionRecord;
use crate::record::ErrorKind;
use crate::record::Outcome;
use crate::record::StatusClass;
use crate::record::class_of;
use crate::record::status_class;
use crate::sorting::ascending;
use crate::sorting::sorted_copy;

verus! {

/// Responses counted by the class of their status code.
#[derive(Clone, Copy, Debug, PartialEq, Eq)]
pub struct StatusCounts {
    pub informational: u64,
    pub successful: u64,
    pub redirection: u64,
    pub client_error: u64,
    pub server_error: u64,
    pub other: u64,
}

/// Failed attempts counted by the kind of failure.
#[derive(Clone, Copy, Debug, PartialEq, Eq)]
pub struct FailureCounts {
    pub timeouts: u64,
    pub connection_errors: u64,
    pub protocol_errors: u64,
}

/// The statistics of a run, fixed at the moment they were taken. Latencies
/// are in microseconds; the latency fields are `None` while nothing has
/// been recorded.
#[derive(Clone, Copy, Debug, PartialEq, Eq)]
pub struct Snapshot {
    pub total: u64,
    pub success_count: u64,
    pub failure_count: u64,
    pub success_by_class: StatusCounts,
    pub failure_by_kind: FailureCounts,
    pub latency_min: Option<u64>,
    pub latency_max: Option<u64>,
    pub latency_mean: Option<u64>,
    pub latency_p50: Option<u64>,
    pub latency_p90: Option<u64>,
    pub latency_p99: Option<u64>,
}

/// The position, counted from zero, of a percentile among `count` values in
/// ascending order, by the nearest-rank rule: the smallest position such
/// that at least `percent` in a hundred of the values stand at or before it.
pub open spec fn nearest_rank(count: nat, percent: nat) -> int {
    (percent * count + 99) / 100 - 1
}

/// What an aggregator has seen, as numbers: a count for each class of
/// status code and for each kind of failure, the sum of all latencies, and
/// the latencies themselves without their order.
pub struct Tally {
    pub informational: nat,
    pub successful: nat,
    pub redirection: nat,
    pub client_error: nat,
    pub server_error: nat,
    pub other_status: nat,
    pub timeouts: nat,
    pub connection_errors: nat,
    pub protocol_errors: nat,
    pub latency_sum: nat,
    pub latencies: Multiset<u64>,
}

impl Tally {
    /// The tally of nothing.
    pub open spec fn empty() -> Tally {
        Tally {
            informational: 0,
            successful: 0,
            redirection: 0,
            client_error: 0,
            server_error: 0,
            other_status: 0,
            timeouts: 0,
            connection_errors: 0,
            protocol_errors: 0,
            latency_sum: 0,
            latencies: Multiset::empty(),
        }
    }

    /// The number of attempts that got a response.
    pub open spec fn success_count(self) -> nat {
        self.informational + self.successful + self.redirection + self.client_error
            + self.server_error + self.other_status
    }

    /// The number of attempts that failed.
    pub open spec fn failure_count(self) -> nat {
        self.timeouts + self.connection_errors + self.protocol_errors
    }

    /// The number of attempts.
    pub open spec fn total(self) -> nat {
        self.success_count() + self.failure_count()
    }

    /// The tally with the latency of one more attempt, its counts unchanged.
    pub open spec fn with_latency(self, latency_micros: u64) -> Tally {
        Tally {
            latency_sum: self.latency_sum + latency_micros as nat,
            latencies: self.latencies.insert(latency_micros),
            ..self
        }
    }

    /// The tally with one more response of the given class counted.
    pub open spec fn with_response(self, class: StatusClass) -> Tally {
        match class {
            StatusClass::Informational => Tally { informational: self.informational + 1nat, ..self },
            StatusClass::Successful => Tally { successful: self.successful + 1nat, ..self },
            StatusClass::Redirection => Tally { redirection: self.redirection + 1nat, ..self },
            StatusClass::ClientError => Tally { client_error: self.client_error + 1nat, ..self },
            StatusClass::ServerError => Tally { server_error: self.server_error + 1nat, ..self },
            StatusClass::Other => Tally { other_status: self.other_status + 1nat, ..self },
        }
    }

    /// The tally with one more failure of the given kind counted.
    pub open spec fn with_failure(self, kind: ErrorKind) -> Tally {
        match kind {
            ErrorKind::Timeout => Tally { timeouts: self.timeouts + 1nat, ..self },
            ErrorKind::ConnectionError => Tally {
                connection_errors: self.connection_errors + 1nat,
                ..self
            },
            ErrorKind::ProtocolError => Tally { protocol_errors: self.protocol_errors + 1nat, ..self },
        }
    }

    /// The tally after one more record.
    pub open spec fn add(self, record: CompletionRecord) -> Tally {
        match record.outcome {
            Outcome::Success { status_code, latency_micros, .. } => self.with_latency(
                latency_micros,
            ).with_response(class_of(status_code)),
            Outcome::Failure { error_kind, latency_micros } => self.with_latency(
                latency_micros,
            ).with_failure(error_kind),
        }
    }

    /// The tally of a sequence of records, taken one after the other.
    pub open spec fn of(records: Seq<CompletionRecord>) -> Tally
        decreases records.len(),
    {
        if records.len() == 0 {
            Tally::empty()
        } else {
            Tally::of(records.drop_last()).add(records.last())
        }
    }

    /// The latency at a percentile, by the nearest-rank rule.
    pub open spec fn percentile(self, percent: nat) -> Option<u64> {
        if self.latencies.len() == 0 {
            None
        } else {
            Some(ascending(self.latencies)[nearest_rank(self.latencies.len(), percent)])
        }
    }

    /// The smallest latency.
    pub open spec fn least(self) -> Option<u64> {
        if self.latencies.len() == 0 {
            None
        } else {
            Some(ascending(self.latencies).first())
        }
    }

    /// The largest latency.
    pub open spec fn greatest(self) -> Option<u64> {
        if self.latencies.len() == 0 {
            None
        } else {
            Some(ascending(self.latencies).last())
        }
    }

    /// The mean latency, rounded down.
    pub open spec fn mean(self) -> Option<u64> {
        if self.latencies.len() == 0 {
            None
        } else {
            Some((self.latency_sum / self.latencies.len()) as u64)
        }
    }

    /// The statistics that a snapshot reports of this tally.
    pub open spec fn summary(self) -> Snapshot {
        Snapshot {
            total: self.total() as u64,
            success_count: self.success_count() as u64,
            failure_count: self.failure_count() as u64,
            success_by_class: StatusCounts {
                informational: self.informational as u64,
                successful: self.successful as u64,
                redirection: self.redirection as u64,
                client_error: self.client_error as u64,
                server_error: self.server_error as u64,
                other: self.other_status as u64,
            },
            failure_by_kind: FailureCounts {
                timeouts: self.timeouts as u64,
                connection_errors: self.connection_errors as u64,
                protocol_errors: self.protocol_errors as u64,
            },
            latency_min: self.least(),
            latency_max: self.greatest(),
            latency_mean: self.mean(),
            latency_p50: self.percentile(50),
            latency_p90: self.percentile(90),
            latency_p99: self.percentile(99),
        }
    }
}

/// Two records can be added in either order.
pub proof fn lemma_add_commutes(t: Tally, a: CompletionRecord, b: CompletionRecord)
    ensures
        t.add(a).add(b) == t.add(b).add(a),
{
    broadcast use vstd::multiset::group_multiset_axioms;

    let la = a.outcome.latency();
    let lb = b.outcome.latency();
    assert(t.latencies.insert(la).insert(lb) =~= t.latencies.insert(lb).insert(la));
    assert(t.add(a).add(b).latencies == t.add(b).add(a).latencies);
}

/// Taking one record out of a sequence and adding it at the end gives the
/// tally of the sequence.
pub proof fn lemma_tally_remove(records: Seq<CompletionRecord>, index: int)
    requires
        0 <= index < records.len(),
    ensures
        Tally::of(records) == Tally::of(records.remove(index)).add(records[index]),
    decreases records.len(),
{
    if index == records.len() - 1 {
        assert(records.remove(index) =~= records.drop_last());
    } else {
        let front = records.drop_last();
        lemma_tally_remove(front, index);
        assert(records.remove(index).drop_last() =~= front.remove(index));
        assert(records.remove(index).last() == records.last());
        lemma_add_commutes(Tally::of(front.remove(index)), records[index], records.last());
    }
}

/// Feeding the same records in any order gives the same tally, and with it
/// the same snapshot.
pub proof fn lemma_order_independent(a: Seq<CompletionRecord>, b: Seq<CompletionRecord>)
    requires
        a.to_multiset() == b.to_multiset(),
    ensures
        Tally::of(a) == Tally::of(b),
        Tally::of(a).summary() == Tally::of(b).summary(),
    decreases a.len(),
{
    broadcast use vstd::multiset::group_multiset_axioms;

    vstd::seq_lib::to_multiset_len(a);
    vstd::seq_lib::to_multiset_len(b);
    if a.len() > 0 {
        let x = a.last();
        let last = a.len() - 1;
        assert(a[last] == x);
        vstd::seq_lib::to_multiset_contains(a, x);
        vstd::seq_lib::to_multiset_contains(b, x);
        assert(a.contains(x));
        assert(b.contains(x));
        let j = choose|j: int| 0 <= j < b.len() && b[j] == x;
        vstd::seq_lib::to_multiset_remove(a, last);
        vstd::seq_lib::to_multiset_remove(b, j);
        assert(a.remove(last) =~= a.drop_last());
        lemma_order_independent(a.drop_last(), b.remove(j));
        lemma_tally_remove(b, j);
    }
}

/// A tally counts every record once: the counts by class and by kind add up
/// to the number of records, and so does the number of latencies.
pub proof fn lemma_tally_counts(records: Seq<CompletionRecord>)
    ensures
        Tally::of(records).total() == records.len(),
        Tally::of(records).latencies.len() == records.len(),
        Tally::of(records).latency_sum <= records.len() * u64::MAX,
    decreases records.len(),
{
    broadcast use vstd::multiset::group_multiset_axioms;

    if records.len() > 0 {
        lemma_tally_counts(records.drop_last());
    }
}

/// The mutable part of an aggregator.
struct Counters {
    by_class: StatusCounts,
    by_kind: FailureCounts,
    latency_sum: u128,
    latencies: Vec<u64>,
}

impl Counters {
    spec fn tally(self) -> Tally {
        Tally {
            informational: self.by_class.informational as nat,
            successful: self.by_class.successful as nat,
            redirection: self.by_class.redirection as nat,
            client_error: self.by_class.client_error as nat,
            server_error: self.by_class.server_error as nat,
            other_status: self.by_class.other as nat,
            timeouts: self.by_kind.timeouts as nat,
            connection_errors: self.by_kind.connection_errors as nat,
            protocol_errors: self.by_kind.protocol_errors as nat,
            latency_sum: self.latency_sum as nat,
            latencies: self.latencies@.to_multiset(),
        }
    }

    spec fn consistent(self) -> bool {
        &&& self.tally().total() == self.latencies@.len()
        &&& self.latency_sum <= self.latencies@.len() * u64::MAX
    }

    fn empty() -> (c: Counters)
        ensures
            c.consistent(),
            c.tally() == Tally::empty(),
    {
        let c = Counters {
            by_class: StatusCounts {
                informational: 0,
                successful: 0,
                redirection: 0,
                client_error: 0,
                server_error: 0,
                other: 0,
            },
            by_kind: FailureCounts { timeouts: 0, connection_errors: 0, protocol_errors: 0 },
            latency_sum: 0,
            latencies: Vec::new(),
        };
        proof {
            let nothing = Seq::<u64>::empty();
            assert(c.latencies@ =~= nothing);
            vstd::seq_lib::to_multiset_len(nothing);
            assert(nothing.to_multiset() =~= Multiset::<u64>::empty());
        }
        c
    }
}

/// Computes the position of a percentile among `count` values.
fn rank_index(count: usize, percent: u8) -> (index: usize)
    requires
        count >= 1,
        1 <= percent <= 100,
    ensures
        index == nearest_rank(count as nat, percent as nat),
        index < count,
{
    assert(percent * count >= count && percent * count <= 100 * count) by (nonlinear_arith)
        requires
            1 <= percent <= 100,
            count >= 1,
    ;
    let scaled: u128 = percent as u128 * count as u128 + 99;
    let rank: u128 = scaled / 100;
    (rank - 1) as usize
}

/// Accumulates completion records. It has a single owner, so records are
/// taken one at a time; the order in which they come does not matter.
pub struct ResultAggregator {
    counters: Counters,
}

impl View for ResultAggregator {
    type V = Tally;

    closed spec fn view(&self) -> Tally {
        self.counters.tally()
    }
}

impl ResultAggregator {
    #[verifier::type_invariant]
    spec fn consistent(self) -> bool {
        self.counters.consistent()
    }

    /// An aggregator that has seen nothing.
    pub fn new() -> (aggregator: ResultAggregator)
        ensures
            aggregator@ == Tally::empty(),
    {
        ResultAggregator { counters: Counters::empty() }
    }

    /// Takes one record into the statistics.
    pub fn record(&mut self, record: CompletionRecord)
        ensures
            final(self)@ == old(self)@.add(record),
            final(self)@.total() == old(self)@.total() + 1,
    {
        proof {
            use_type_invariant(&*self);
        }
        let mut counters = Counters::empty();
        std::mem::swap(&mut counters, &mut self.counters);
        let ghost before = counters;
        let latency: u64 = record.outcome.latency_micros();
        counters.latencies.push(latency);
        let count: usize = counters.latencies.len();
        counters.latency_sum = counters.latency_sum + latency as u128;
        match record.outcome {
            Outcome::Success { status_code, .. } => {
                match status_class(status_code) {
                    StatusClass::Informational => {
                        counters.by_class.informational = counters.by_class.informational + 1;
                    },
                    StatusClass::Successful => {
                        counters.by_class.successful = counters.by_class.successful + 1;
                    },
                    StatusClass::Redirection => {
                        counters.by_class.redirection = counters.by_class.redirection + 1;
                    },
                    StatusClass::ClientError => {
                        counters.by_class.client_error = counters.by_class.client_error + 1;
                    },
                    StatusClass::ServerError => {
                        counters.by_class.server_error = counters.by_class.server_error + 1;
                    },
                    StatusClass::Other => {
                        counters.by_class.other = counters.by_class.other + 1;
                    },
                }
            },
            Outcome::Failure { error_kind, .. } => {
                match error_kind {
                    ErrorKind::Timeout => {
                        counters.by_kind.timeouts = counters.by_kind.timeouts + 1;
                    },
                    ErrorKind::ConnectionError => {
                        counters.by_kind.connection_errors = counters.by_kind.connection_errors
                            + 1;
                    },
                    ErrorKind::ProtocolError => {
                        counters.by_kind.protocol_errors = counters.by_kind.protocol_errors + 1;
                    },
                }
            },
        }
        proof {
            vstd::seq_lib::to_multiset_build(before.latencies@, latency);
            assert(counters.tally() == before.tally().add(record));
        }
        self.counters = counters;
    }

    /// The number of records taken so far.
    pub fn total(&self) -> (n: u64)
        ensures
            n == self@.total(),
    {
        proof {
            use_type_invariant(self);
        }
        self.counters.latencies.len() as u64
    }

    /// The statistics of everything recorded so far.
    pub fn snapshot(&self) -> (snap: Snapshot)
        ensures
            snap == self@.summary(),
            snap.total == self@.total(),
            snap.success_count + snap.failure_count == snap.total,
    {
        proof {
            use_type_invariant(self);
            vstd::seq_lib::to_multiset_len(self.counters.latencies@);
        }
        let sorted = sorted_copy(&self.counters.latencies);
        let count: usize = sorted.len();
        let by_class = self.counters.by_class;
        let by_kind = self.counters.by_kind;
        let success_count: u64 = by_class.informational + by_class.successful
            + by_class.redirection + by_class.client_error + by_class.server_error
            + by_class.other;
        let failure_count: u64 = by_kind.timeouts + by_kind.connection_errors
            + by_kind.protocol_errors;
        let total: u64 = success_count + failure_count;
        if count == 0 {
            Snapshot {
                total,
                success_count,
                failure_count,
                success_by_class: by_class,
                failure_by_kind: by_kind,
                latency_min: None,
                latency_max: None,
                latency_mean: None,
                latency_p50: None,
                latency_p90: None,
                latency_p99: None,
            }
        } else {
            let sum: u128 = self.counters.latency_sum;
            assert(sum / (count as u128) <= u64::MAX) by (nonlinear_arith)
                requires
                    count >= 1,
                    sum <= count * u64::MAX,
            ;
            let mean: u64 = (sum / count as u128) as u64;
            Snapshot {
                total,
                success_count,
                failure_count,
                success_by_class: by_class,
                failure_by_kind: by_kind,
                latency_min: Some(sorted[0]),
                latency_max: Some(sorted[count - 1]),
                latency_mean: Some(mean),
                latency_p50: Some(sorted[rank_index(count, 50)]),
                latency_p90: Some(sorted[rank_index(count, 90)]),
                latency_p99: Some(sorted[rank_index(count, 99)]),
            }
        }
    }
}

} // verus!
