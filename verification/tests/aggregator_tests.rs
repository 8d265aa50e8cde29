use rhi::aggregator::FailureCounts;
use rhi::aggregator::ResultAggregator;
use rhi::aggregator::Snapshot;
use rhi::aggregator::StatusCounts;
use rhi::record::status_class;
use rhi::record::CompletionRecord;
use rhi::record::ErrorKind;
use rhi::record::Outcome;
use rhi::record::StatusClass;
use rhi::sorting::sorted_copy;

fn success(sequence_number: u64, status_code: u16, latency_micros: u64) -> CompletionRecord {
    CompletionRecord {
        sequence_number,
        outcome: Outcome::Success { status_code, latency_micros, response_bytes: 0 },
    }
}

fn failure(sequence_number: u64, error_kind: ErrorKind, latency_micros: u64) -> CompletionRecord {
    CompletionRecord { sequence_number, outcome: Outcome::Failure { error_kind, latency_micros } }
}

fn snapshot_of(records: &Vec<CompletionRecord>) -> Snapshot {
    let mut aggregator = ResultAggregator::new();
    for record in records {
        aggregator.record(*record);
    }
    aggregator.snapshot()
}

#[test]
fn an_empty_aggregator_reports_zeros_and_no_latency() {
    let aggregator = ResultAggregator::new();
    assert_eq!(aggregator.total(), 0);
    assert_eq!(
        aggregator.snapshot(),
        Snapshot {
            total: 0,
            success_count: 0,
            failure_count: 0,
            success_by_class: StatusCounts {
                informational: 0,
                successful: 0,
                redirection: 0,
                client_error: 0,
                server_error: 0,
                other: 0,
            },
            failure_by_kind: FailureCounts { timeouts: 0, connection_errors: 0, protocol_errors: 0 },
            latency_min: None,
            latency_max: None,
            latency_mean: None,
            latency_p50: None,
            latency_p90: None,
            latency_p99: None,
        }
    );
}

#[test]
fn status_codes_fall_into_their_classes() {
    assert_eq!(status_class(0), StatusClass::Other);
    assert_eq!(status_class(99), StatusClass::Other);
    assert_eq!(status_class(100), StatusClass::Informational);
    assert_eq!(status_class(199), StatusClass::Informational);
    assert_eq!(status_class(200), StatusClass::Successful);
    assert_eq!(status_class(299), StatusClass::Successful);
    assert_eq!(status_class(300), StatusClass::Redirection);
    assert_eq!(status_class(399), StatusClass::Redirection);
    assert_eq!(status_class(400), StatusClass::ClientError);
    assert_eq!(status_class(499), StatusClass::ClientError);
    assert_eq!(status_class(500), StatusClass::ServerError);
    assert_eq!(status_class(599), StatusClass::ServerError);
    assert_eq!(status_class(600), StatusClass::Other);
    assert_eq!(status_class(u16::MAX), StatusClass::Other);
}

#[test]
fn records_are_counted_by_class_and_by_kind() {
    let records = vec![
        success(0, 101, 1),
        success(1, 200, 2),
        success(2, 204, 3),
        success(3, 302, 4),
        success(4, 404, 5),
        success(5, 404, 6),
        success(6, 418, 7),
        success(7, 503, 8),
        success(8, 700, 9),
        failure(9, ErrorKind::Timeout, 10),
        failure(10, ErrorKind::Timeout, 11),
        failure(11, ErrorKind::ConnectionError, 12),
        failure(12, ErrorKind::ProtocolError, 13),
        failure(13, ErrorKind::ProtocolError, 14),
        failure(14, ErrorKind::ProtocolError, 15),
    ];
    let snap = snapshot_of(&records);
    assert_eq!(snap.total, 15);
    assert_eq!(snap.success_count, 9);
    assert_eq!(snap.failure_count, 6);
    assert_eq!(
        snap.success_by_class,
        StatusCounts {
            informational: 1,
            successful: 2,
            redirection: 1,
            client_error: 3,
            server_error: 1,
            other: 1,
        }
    );
    assert_eq!(
        snap.failure_by_kind,
        FailureCounts { timeouts: 2, connection_errors: 1, protocol_errors: 3 }
    );
    assert_eq!(snap.latency_min, Some(1));
    assert_eq!(snap.latency_max, Some(15));
    assert_eq!(snap.latency_mean, Some(8));
}

#[test]
fn percentiles_follow_the_nearest_rank_rule() {
    // ten, twenty, .. a thousand, fed backwards
    let records: Vec<CompletionRecord> =
        (1..=100u64).rev().map(|i| success(i, 200, i * 10)).collect();
    let snap = snapshot_of(&records);
    assert_eq!(snap.latency_min, Some(10));
    assert_eq!(snap.latency_p50, Some(500));
    assert_eq!(snap.latency_p90, Some(900));
    assert_eq!(snap.latency_p99, Some(990));
    assert_eq!(snap.latency_max, Some(1000));
    assert_eq!(snap.latency_mean, Some(505));
}

#[test]
fn percentiles_of_a_few_values() {
    let one = snapshot_of(&vec![success(0, 200, 42)]);
    assert_eq!(one.latency_min, Some(42));
    assert_eq!(one.latency_p50, Some(42));
    assert_eq!(one.latency_p90, Some(42));
    assert_eq!(one.latency_p99, Some(42));
    assert_eq!(one.latency_max, Some(42));
    assert_eq!(one.latency_mean, Some(42));

    let two = snapshot_of(&vec![success(0, 200, 2), failure(1, ErrorKind::Timeout, 1)]);
    assert_eq!(two.latency_p50, Some(1));
    assert_eq!(two.latency_p90, Some(2));
    assert_eq!(two.latency_p99, Some(2));
    assert_eq!(two.latency_mean, Some(1));

    let three = snapshot_of(&vec![success(0, 200, 5), success(1, 200, 1), success(2, 200, 9)]);
    assert_eq!(three.latency_min, Some(1));
    assert_eq!(three.latency_p50, Some(5));
    assert_eq!(three.latency_p90, Some(9));
    assert_eq!(three.latency_p99, Some(9));
    assert_eq!(three.latency_max, Some(9));
    assert_eq!(three.latency_mean, Some(5));

    let ten: Vec<CompletionRecord> = (0..10u64).map(|i| success(i, 200, 100 + i)).collect();
    let snap = snapshot_of(&ten);
    assert_eq!(snap.latency_p50, Some(104));
    assert_eq!(snap.latency_p90, Some(108));
    assert_eq!(snap.latency_p99, Some(109));
}

#[test]
fn the_mean_of_the_largest_latencies_does_not_overflow() {
    let records = vec![
        success(0, 200, u64::MAX),
        success(1, 200, u64::MAX),
        success(2, 200, u64::MAX - 3),
    ];
    let snap = snapshot_of(&records);
    assert_eq!(snap.latency_mean, Some(u64::MAX - 1));
    assert_eq!(snap.latency_max, Some(u64::MAX));
    assert_eq!(snap.latency_min, Some(u64::MAX - 3));
}

#[test]
fn the_order_of_the_records_does_not_change_the_snapshot() {
    let records = vec![
        success(0, 200, 700),
        failure(1, ErrorKind::ConnectionError, 30),
        success(2, 500, 700),
        success(3, 301, 12),
        failure(4, ErrorKind::Timeout, 2_000_000),
        success(5, 200, 1),
        success(6, 99, 55),
    ];
    let reference = snapshot_of(&records);
    let mut reversed = records.clone();
    reversed.reverse();
    assert_eq!(snapshot_of(&reversed), reference);
    // every rotation, and every rotation with two neighbours swapped
    for shift in 0..records.len() {
        let mut rotated = records.clone();
        rotated.rotate_left(shift);
        assert_eq!(snapshot_of(&rotated), reference);
        rotated.swap(0, 1);
        assert_eq!(snapshot_of(&rotated), reference);
        rotated.swap(2, 5);
        assert_eq!(snapshot_of(&rotated), reference);
    }
}

#[test]
fn a_snapshot_does_not_change_with_later_records() {
    let mut aggregator = ResultAggregator::new();
    aggregator.record(success(0, 200, 10));
    let first = aggregator.snapshot();
    aggregator.record(failure(1, ErrorKind::Timeout, 99));
    assert_eq!(first.total, 1);
    assert_eq!(first.latency_max, Some(10));
    assert_eq!(aggregator.total(), 2);
    assert_eq!(aggregator.snapshot().latency_max, Some(99));
}

#[test]
fn sorted_copy_sorts_and_keeps_every_element() {
    assert_eq!(sorted_copy(&vec![]), Vec::<u64>::new());
    assert_eq!(sorted_copy(&vec![3]), vec![3]);
    assert_eq!(sorted_copy(&vec![2, 1]), vec![1, 2]);
    assert_eq!(sorted_copy(&vec![5, 1, 4, 1, 5, 9, 2, 6, 5, 3]), vec![1, 1, 2, 3, 4, 5, 5, 5, 6, 9]);
    assert_eq!(sorted_copy(&vec![u64::MAX, 0, u64::MAX, 0]), vec![0, 0, u64::MAX, u64::MAX]);
    let mut scrambled: Vec<u64> = (0..1000u64).map(|i| (i * 7919) % 1009).collect();
    let sorted = sorted_copy(&scrambled);
    scrambled.sort();
    assert_eq!(sorted, scrambled);
}

#[test]
fn only_a_timeout_poisons_the_connection() {
    assert!(failure(0, ErrorKind::Timeout, 1).outcome.poisons_connection());
    assert!(!failure(0, ErrorKind::ConnectionError, 1).outcome.poisons_connection());
    assert!(!failure(0, ErrorKind::ProtocolError, 1).outcome.poisons_connection());
    assert!(!success(0, 200, 1).outcome.poisons_connection());
}

#[test]
fn an_outcome_knows_its_latency_and_its_kind() {
    assert_eq!(success(0, 500, 77).outcome.latency_micros(), 77);
    assert_eq!(failure(0, ErrorKind::ProtocolError, 78).outcome.latency_micros(), 78);
    assert!(success(0, 500, 77).outcome.is_success());
    assert!(!failure(0, ErrorKind::ProtocolError, 78).outcome.is_success());
}
