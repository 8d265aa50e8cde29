use rhi::aggregator::FailureCounts;
use rhi::aggregator::StatusCounts;
use rhi::dispatcher::Admission;
use rhi::dispatcher::DispatchError;
use rhi::execution::Execution;
use rhi::execution::TransportEvent;
use rhi::profile::LoadProfile;
use rhi::record::CompletionRecord;
use rhi::record::ErrorKind;
use rhi::record::Outcome;
use rhi::run::Run;

/// Performs one exchange that answers `status_code` after `latency_micros`.
fn exchange(sequence_number: u64, timeout_micros: u64, latency_micros: u64) -> CompletionRecord {
    let mut execution = Execution::begin(sequence_number, timeout_micros);
    let head = execution.on_event(TransportEvent::Head { status_code: 200 }, latency_micros / 2);
    if let Some(record) = head {
        return record;
    }
    execution.on_event(TransportEvent::End, latency_micros).unwrap()
}

#[test]
fn fifty_requests_ten_at_once_all_succeed() {
    let profile = LoadProfile::new(50, 10, 0).unwrap();
    let (mut run, opening) = Run::start(&profile, false);
    assert_eq!(opening, Admission { first_sequence_number: 0, count: 10 });
    let mut in_flight: Vec<u64> = (0..10).collect();
    let mut highest_in_flight = run.in_flight_count();
    while let Some(sequence_number) = in_flight.pop() {
        let record = exchange(sequence_number, 0, 10_000);
        let batch = run.on_completion(record).unwrap();
        for i in 0..batch.count {
            in_flight.push(batch.first_sequence_number + i);
        }
        highest_in_flight = highest_in_flight.max(run.in_flight_count());
        assert!(run.in_flight_count() <= 10);
    }
    assert!(run.is_finished());
    assert_eq!(highest_in_flight, 10);
    assert_eq!(run.completed_count(), 50);
    let report = run.finish().ok().unwrap();
    let snap = report.snapshot;
    assert_eq!(snap.total, 50);
    assert_eq!(snap.success_count, 50);
    assert_eq!(snap.failure_count, 0);
    assert_eq!(snap.success_by_class.successful, 50);
    assert_eq!(snap.latency_min, Some(10_000));
    assert_eq!(snap.latency_max, Some(10_000));
    assert_eq!(snap.latency_mean, Some(10_000));
    assert_eq!(snap.latency_p99, Some(10_000));
    assert!(report.records.is_empty());
}

#[test]
fn twenty_requests_twenty_at_once_start_in_one_batch() {
    for rate in [0u32, 20, 500] {
        let profile = LoadProfile::new(20, 20, rate).unwrap();
        let (run, opening) = Run::start(&profile, false);
        assert_eq!(opening, Admission { first_sequence_number: 0, count: 20 });
        assert_eq!(run.issued_count(), 20);
        assert_eq!(run.in_flight_count(), 20);
    }
}

#[test]
fn one_execution_times_out_and_the_others_complete() {
    let timeout = 1_000_000;
    let profile = LoadProfile::new(10, 1, 0).unwrap().with_timeout_micros(timeout);
    let (mut run, opening) = Run::start(&profile, true);
    assert_eq!(opening, Admission { first_sequence_number: 0, count: 1 });
    let mut next = Some(0u64);
    let mut seen_timeout = None;
    while let Some(sequence_number) = next {
        let latency = if sequence_number == 4 { timeout + 1 } else { 10_000 };
        let record = exchange(sequence_number, profile.per_request_timeout_micros(), latency);
        if sequence_number == 4 {
            seen_timeout = Some(record);
        }
        let batch = run.on_completion(record).unwrap();
        assert!(batch.count <= 1);
        assert!(run.in_flight_count() <= 1);
        next = if batch.count == 1 { Some(batch.first_sequence_number) } else { None };
    }
    assert_eq!(
        seen_timeout,
        Some(CompletionRecord {
            sequence_number: 4,
            outcome: Outcome::Failure { error_kind: ErrorKind::Timeout, latency_micros: timeout + 1 },
        })
    );
    assert!(run.is_finished());
    let report = run.finish().ok().unwrap();
    assert_eq!(report.snapshot.total, 10);
    assert_eq!(report.snapshot.success_count, 9);
    assert_eq!(report.snapshot.failure_count, 1);
    assert_eq!(
        report.snapshot.failure_by_kind,
        FailureCounts { timeouts: 1, connection_errors: 0, protocol_errors: 0 }
    );
    assert_eq!(
        report.snapshot.success_by_class,
        StatusCounts {
            informational: 0,
            successful: 9,
            redirection: 0,
            client_error: 0,
            server_error: 0,
            other: 0,
        }
    );
    assert_eq!(report.records.len(), 10);
    let numbers: Vec<u64> = report.records.iter().map(|r| r.sequence_number).collect();
    assert_eq!(numbers, (0..10).collect::<Vec<u64>>());
}

#[test]
fn a_failure_does_not_stop_the_run_or_the_other_executions() {
    let profile = LoadProfile::new(6, 3, 0).unwrap();
    let (mut run, _) = Run::start(&profile, false);
    let broken = CompletionRecord {
        sequence_number: 1,
        outcome: Outcome::Failure { error_kind: ErrorKind::ConnectionError, latency_micros: 5 },
    };
    assert_eq!(run.on_completion(broken), Ok(Admission { first_sequence_number: 3, count: 1 }));
    assert_eq!(run.in_flight_count(), 3);
    assert!(!run.is_finished());
    for sequence_number in [0, 2, 3, 4, 5] {
        run.on_completion(exchange(sequence_number, 0, 100)).unwrap();
    }
    let report = run.finish().ok().unwrap();
    assert_eq!(report.snapshot.total, 6);
    assert_eq!(report.snapshot.success_count, 5);
    assert_eq!(report.snapshot.failure_by_kind.connection_errors, 1);
}

#[test]
fn a_record_that_is_turned_away_leaves_the_statistics_alone() {
    let profile = LoadProfile::new(4, 2, 0).unwrap();
    let (mut run, _) = Run::start(&profile, true);
    assert_eq!(run.on_completion(exchange(9, 0, 1)), Err(DispatchError::UnknownSequence));
    assert_eq!(run.snapshot().total, 0);
    assert!(run.records().is_empty());
    for sequence_number in 0..4 {
        run.on_completion(exchange(sequence_number, 0, 1)).unwrap();
    }
    assert_eq!(run.on_completion(exchange(0, 0, 1)), Err(DispatchError::NothingInFlight));
    assert_eq!(run.snapshot().total, 4);
    assert_eq!(run.records().len(), 4);
}

#[test]
fn an_unfinished_run_is_handed_back_and_can_go_on() {
    let profile = LoadProfile::new(2, 1, 0).unwrap();
    let (mut run, _) = Run::start(&profile, false);
    run.on_completion(exchange(0, 0, 3)).unwrap();
    assert_eq!(run.snapshot().total, 1);
    let mut run = match run.finish() {
        Ok(_) => panic!("the run is not finished"),
        Err(run) => run,
    };
    assert_eq!(run.completed_count(), 1);
    assert_eq!(run.issued_count(), 2);
    run.on_completion(exchange(1, 0, 5)).unwrap();
    let report = run.finish().ok().unwrap();
    assert_eq!(report.snapshot.total, 2);
    assert_eq!(report.snapshot.latency_max, Some(5));
}

#[test]
fn ticks_admit_what_the_rate_held_back() {
    let profile = LoadProfile::new(6, 6, 2).unwrap();
    let (mut run, opening) = Run::start(&profile, false);
    assert_eq!(opening.count, 2);
    assert_eq!(run.on_tick(), Admission { first_sequence_number: 2, count: 2 });
    assert_eq!(run.on_tick(), Admission { first_sequence_number: 4, count: 2 });
    assert_eq!(run.on_tick(), Admission { first_sequence_number: 6, count: 0 });
    assert_eq!(run.in_flight_count(), 6);
    assert_eq!(run.snapshot().total, 0);
}

#[test]
fn kept_records_come_in_the_order_of_their_arrival() {
    let profile = LoadProfile::new(3, 3, 0).unwrap();
    let (mut run, _) = Run::start(&profile, true);
    let arrivals = vec![exchange(2, 0, 30), exchange(0, 0, 10), exchange(1, 0, 20)];
    for record in &arrivals {
        run.on_completion(*record).unwrap();
    }
    assert_eq!(run.records(), &arrivals);
    let report = run.finish().ok().unwrap();
    assert_eq!(report.records, arrivals);
    assert_eq!(report.snapshot.latency_p50, Some(20));
}
