use rhi::dispatcher::Admission;
use rhi::dispatcher::DispatchError;
use rhi::dispatcher::Dispatcher;
use rhi::dispatcher::Event;
use rhi::profile::LoadProfile;

fn dispatcher(total: u32, concurrency: u32, rate: u32) -> Dispatcher {
    Dispatcher::new(&LoadProfile::new(total, concurrency, rate).unwrap())
}

#[test]
fn a_new_dispatcher_has_issued_nothing() {
    let d = dispatcher(50, 10, 0);
    assert_eq!(d.issued_count(), 0);
    assert_eq!(d.completed_count(), 0);
    assert_eq!(d.in_flight_count(), 0);
    assert!(!d.is_finished());
}

#[test]
fn the_first_admission_fills_the_concurrency_level() {
    let mut d = dispatcher(50, 10, 0);
    assert_eq!(d.dispatch(), Admission { first_sequence_number: 0, count: 10 });
    assert_eq!(d.in_flight_count(), 10);
    assert_eq!(d.dispatch(), Admission { first_sequence_number: 10, count: 0 });
}

#[test]
fn total_equal_to_concurrency_is_one_batch() {
    for rate in [0u32, 20, 21, 1000] {
        let mut d = dispatcher(20, 20, rate);
        assert_eq!(d.dispatch(), Admission { first_sequence_number: 0, count: 20 });
        assert_eq!(d.issued_count(), 20);
        assert_eq!(d.on_tick().count, 0);
    }
}

#[test]
fn a_rate_below_the_concurrency_level_holds_the_first_batch_back() {
    let mut d = dispatcher(20, 20, 5);
    assert_eq!(d.dispatch(), Admission { first_sequence_number: 0, count: 5 });
    assert_eq!(d.dispatch().count, 0);
    assert_eq!(d.on_tick(), Admission { first_sequence_number: 5, count: 5 });
    assert_eq!(d.on_tick(), Admission { first_sequence_number: 10, count: 5 });
    assert_eq!(d.on_tick(), Admission { first_sequence_number: 15, count: 5 });
    assert_eq!(d.on_tick(), Admission { first_sequence_number: 20, count: 0 });
}

#[test]
fn the_admission_is_the_smallest_of_slots_tokens_and_unissued() {
    // slots 4, tokens 3, unissued 10
    let mut d = dispatcher(10, 4, 3);
    assert_eq!(d.dispatch().count, 3);
    // slots 1, tokens 3 after the tick, unissued 7
    assert_eq!(d.on_tick().count, 1);
    // three completions free three slots; two tokens are left
    assert_eq!(d.on_completion(0), Ok(Admission { first_sequence_number: 4, count: 1 }));
    assert_eq!(d.on_completion(1), Ok(Admission { first_sequence_number: 5, count: 1 }));
    assert_eq!(d.on_completion(2), Ok(Admission { first_sequence_number: 6, count: 0 }));
    assert_eq!(d.in_flight_count(), 3);
    // slots 1, tokens 3, unissued 4
    assert_eq!(d.on_tick(), Admission { first_sequence_number: 6, count: 1 });
    // all slots free, tokens 3 after each tick, unissued 3, then 0
    for seq in 3..7 {
        d.on_completion(seq).unwrap();
    }
    assert_eq!(d.issued_count(), 9);
    assert_eq!(d.on_tick(), Admission { first_sequence_number: 9, count: 1 });
    assert_eq!(d.on_tick(), Admission { first_sequence_number: 10, count: 0 });
}

#[test]
fn a_tick_refills_the_bucket_and_does_not_carry_tokens_over() {
    let mut d = dispatcher(100, 2, 4);
    assert_eq!(d.dispatch(), Admission { first_sequence_number: 0, count: 2 });
    // three ticks with no free slot: tokens that were carried over would
    // pile up to twelve
    assert_eq!(d.on_tick().count, 0);
    assert_eq!(d.on_tick().count, 0);
    assert_eq!(d.on_tick().count, 0);
    let mut in_flight: Vec<u64> = vec![0, 1];
    let mut admitted_since_tick = 0;
    while let Some(seq) = in_flight.pop() {
        let batch = d.on_completion(seq).unwrap();
        for i in 0..batch.count {
            in_flight.push(batch.first_sequence_number + i);
        }
        admitted_since_tick += batch.count;
    }
    assert_eq!(admitted_since_tick, 4);
    assert_eq!(d.issued_count(), 6);
    assert_eq!(d.in_flight_count(), 0);
    assert_eq!(d.on_tick(), Admission { first_sequence_number: 6, count: 2 });
}

#[test]
fn with_rate_zero_only_the_concurrency_level_bounds_admission() {
    let mut d = dispatcher(1000, 7, 0);
    assert_eq!(d.dispatch().count, 7);
    for seq in 0..993 {
        assert_eq!(
            d.on_completion(seq),
            Ok(Admission { first_sequence_number: seq + 7, count: 1 })
        );
        assert_eq!(d.in_flight_count(), 7);
    }
    for seq in 993..1000 {
        assert_eq!(d.on_completion(seq).unwrap().count, 0);
    }
    assert!(d.is_finished());
}

#[test]
fn a_completion_with_nothing_in_flight_is_turned_away() {
    let mut d = dispatcher(3, 1, 0);
    assert_eq!(d.on_completion(0), Err(DispatchError::NothingInFlight));
    assert_eq!(d.issued_count(), 0);
    assert_eq!(d.completed_count(), 0);
    d.dispatch();
    d.on_completion(0).unwrap();
    d.on_completion(1).unwrap();
    d.on_completion(2).unwrap();
    assert!(d.is_finished());
    assert_eq!(d.on_completion(2), Err(DispatchError::NothingInFlight));
    assert_eq!(d.completed_count(), 3);
}

#[test]
fn a_completion_of_a_number_never_issued_is_turned_away() {
    let mut d = dispatcher(10, 2, 0);
    d.dispatch();
    assert_eq!(d.on_completion(2), Err(DispatchError::UnknownSequence));
    assert_eq!(d.on_completion(u64::MAX), Err(DispatchError::UnknownSequence));
    assert_eq!(d.issued_count(), 2);
    assert_eq!(d.completed_count(), 0);
    assert_eq!(d.in_flight_count(), 2);
}

#[test]
fn handle_does_what_the_two_reactions_do() {
    let mut a = dispatcher(9, 3, 2);
    let mut b = dispatcher(9, 3, 2);
    assert_eq!(a.dispatch(), b.dispatch());
    let events = vec![
        Event::Tick,
        Event::Completion { sequence_number: 0 },
        Event::Completion { sequence_number: 77 },
        Event::Tick,
        Event::Completion { sequence_number: 1 },
    ];
    for event in events {
        let expected = match event {
            Event::Tick => Ok(b.on_tick()),
            Event::Completion { sequence_number } => b.on_completion(sequence_number),
        };
        assert_eq!(a.handle(event), expected);
        assert_eq!(a.issued_count(), b.issued_count());
        assert_eq!(a.completed_count(), b.completed_count());
    }
}

/// Drives a run to its end with a fixed pattern of events and checks the
/// bounds after every step.
fn drive(total: u32, concurrency: u32, rate: u32, completions_per_tick: u64) -> Vec<u64> {
    let mut d = dispatcher(total, concurrency, rate);
    let mut handed_out: Vec<u64> = Vec::new();
    let mut in_flight: Vec<u64> = Vec::new();
    let mut take = |batch: Admission, in_flight: &mut Vec<u64>, since_tick: &mut u64| {
        for i in 0..batch.count {
            handed_out.push(batch.first_sequence_number + i);
            in_flight.push(batch.first_sequence_number + i);
        }
        *since_tick += batch.count;
    };
    let mut since_tick = 0u64;
    take(d.dispatch(), &mut in_flight, &mut since_tick);
    let mut steps = 0;
    while !d.is_finished() {
        steps += 1;
        assert!(steps < 100_000);
        if rate > 0 {
            assert!(since_tick <= rate as u64);
        }
        since_tick = 0;
        take(d.on_tick(), &mut in_flight, &mut since_tick);
        for _ in 0..completions_per_tick {
            if in_flight.is_empty() {
                break;
            }
            // complete the youngest first, so that completions come out of order
            let seq = in_flight.pop().unwrap();
            take(d.on_completion(seq).unwrap(), &mut in_flight, &mut since_tick);
            assert!(d.in_flight_count() <= concurrency as u64);
            assert_eq!(d.in_flight_count(), in_flight.len() as u64);
            assert!(d.completed_count() <= d.issued_count());
            assert!(d.issued_count() <= total as u64);
            if rate > 0 {
                assert!(since_tick <= rate as u64);
            }
        }
    }
    assert_eq!(d.completed_count(), total as u64);
    assert_eq!(d.in_flight_count(), 0);
    drop(take);
    handed_out
}

#[test]
fn the_bounds_hold_at_every_step_of_a_run() {
    drive(50, 10, 0, 3);
    drive(50, 10, 3, 5);
    drive(64, 64, 1, 64);
    drive(17, 1, 0, 1);
    drive(100, 7, 100, 2);
}

#[test]
fn the_rate_is_kept_between_ticks() {
    // with eight completions after every tick the concurrency level would
    // allow eight admissions a second; the rate allows three
    let numbers = drive(40, 8, 3, 8);
    assert_eq!(numbers.len(), 40);
}

#[test]
fn sequence_numbers_are_handed_out_once_each_and_in_order() {
    for (total, concurrency, rate, per_tick) in
        [(50u32, 10u32, 0u32, 3u64), (33, 4, 2, 4), (20, 20, 5, 1), (1, 1, 1, 1)]
    {
        let numbers = drive(total, concurrency, rate, per_tick);
        let expected: Vec<u64> = (0..total as u64).collect();
        assert_eq!(numbers, expected);
    }
}

#[test]
fn a_run_is_finished_exactly_when_all_have_completed() {
    let mut d = dispatcher(3, 3, 0);
    d.dispatch();
    assert!(!d.is_finished());
    d.on_completion(2).unwrap();
    assert!(!d.is_finished());
    d.on_completion(0).unwrap();
    assert!(!d.is_finished());
    d.on_completion(1).unwrap();
    assert!(d.is_finished());
    assert_eq!(d.on_tick().count, 0);
    assert!(d.is_finished());
}
