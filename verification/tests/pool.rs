use hopr_utilities::parallelize::cpu::{
    admit_decode, cancellable_task, configure_arbitration, configure_arbitration_once, decode_admit_cap,
    decode_timeout_drop_count, encode_timeout_drop_count, init_thread_pool, outstanding_tasks, parse_queue_limit,
    pool_thread_count, queue_limit, thread_pool_built, Admission, Pool, SlotGuard, SpawnError, TaskOutcome, Wakeups,
};
use hopr_utilities::parallelize::encode_pool_has_headroom;

const N: usize = 8;
const OCC: u32 = 75; // occupancy threshold percent
const RES: u32 = 50; // encode reserve percent
const FLOOD: usize = N * 4; // decode_outstanding well above enc*FLOOD_FACTOR

#[test]
fn mod_below_occupancy_threshold_decode_is_never_throttled() {
    // 75% of 8 == 6 running threads; anything below leaves decode unconstrained.
    for running in 0..(N * OCC as usize / 100) {
        assert_eq!(
            decode_admit_cap(N, running, FLOOD, 4, OCC, RES),
            None,
            "decode must be free below the occupancy threshold (running={running})",
        );
    }
}

#[test]
fn mod_saturated_but_no_encode_is_never_throttled() {
    // Pure forwarding relay: pool full of decode, zero encode → nothing to protect.
    assert_eq!(decode_admit_cap(N, N, FLOOD, 0, OCC, RES), None);
}

#[test]
fn mod_balanced_load_is_not_throttled() {
    // Saturated with encode present, but decode is comparable to encode (not a flood) → FIFO is
    // already fair, throttling would only cut delivery. Only a genuine flood engages.
    assert_eq!(decode_admit_cap(N, N, N, N, OCC, RES), None); // dec == enc
    assert_eq!(decode_admit_cap(N, N, 2 * N, N, OCC, RES), None); // dec == enc * FLOOD_FACTOR
    assert!(decode_admit_cap(N, N, 2 * N + 1, N, OCC, RES).is_some()); // just over the threshold
}

#[test]
fn mod_decode_flood_reserves_threads_for_encode() {
    // Decode floods (>> encode) → decode capped so 50% is left for encode.
    assert_eq!(decode_admit_cap(N, N, FLOOD, N, OCC, RES), Some(N / 2));
    // Reserve never exceeds actual encode demand: only 1 encode task → reserve just 1 thread.
    assert_eq!(decode_admit_cap(N, N, FLOOD, 1, OCC, RES), Some(N - 1));
}

#[test]
fn mod_cap_is_never_zero_liveness() {
    // A full encode reserve on a tiny pool still admits at least one decode task.
    assert_eq!(decode_admit_cap(2, 2, 50, 10, OCC, 100), Some(1));
    for running in 0..=N {
        for enc in 1..=N {
            if let Some(cap) = decode_admit_cap(N, running, FLOOD, enc, OCC, RES) {
                assert!(cap >= 1, "cap must never be zero (running={running}, enc={enc})");
            }
        }
    }
}

#[test]
fn mod_admit_decode_is_passthrough_when_disabled_or_pool_uninitialised() {
    let mut pool = Pool::new(None);
    assert_eq!(
        admit_decode(&mut pool, Admission::Fresh),
        Admission::Admitted,
        "admit_decode must not block with an uninitialised pool"
    );
    pool.decode_outstanding -= 1;

    configure_arbitration(&mut pool, false, OCC, RES);
    assert_eq!(
        admit_decode(&mut pool, Admission::Fresh),
        Admission::Admitted,
        "admit_decode must not block when disabled"
    );
    pool.decode_outstanding -= 1;
    configure_arbitration(&mut pool, true, OCC, RES);
    assert_eq!(pool.decode_outstanding, 0);
}

#[test]
fn configure_arbitration_once_is_first_wins() {
    let mut pool = Pool::new(None);

    assert!(
        configure_arbitration_once(&mut pool, false, OCC, RES),
        "first call must apply"
    );
    assert!(!pool.arbitration_enabled, "first call's value must stick");

    // A later differing call is ignored — the first configuration wins.
    assert!(
        !configure_arbitration_once(&mut pool, true, OCC, RES),
        "second call must be a no-op"
    );
    assert!(!pool.arbitration_enabled, "second call must not overwrite");

    // An explicit `configure_arbitration` still overrides unconditionally (last-write-wins).
    configure_arbitration(&mut pool, true, OCC, RES);
    assert!(pool.arbitration_enabled, "explicit config must override");
}

#[test]
fn a_disabled_configuration_still_stores_its_percentages() {
    let mut pool = Pool::new(None);
    configure_arbitration(&mut pool, false, 0, 101);
    assert_eq!((pool.occupancy_pct, pool.encode_reserve_pct), (1, 100));
    assert_eq!(pool.wakeups, Wakeups::Additional(0));
}

#[test]
fn a_full_queue_refuses_and_recovers() {
    let mut pool = Pool::new(Some(2));
    let first = SlotGuard::try_acquire_slot(&mut pool).expect("a free slot");
    let _second = SlotGuard::try_acquire_slot(&mut pool).expect("a free slot");
    let error = SlotGuard::try_acquire_slot(&mut pool).unwrap_err();
    assert_eq!(error, SpawnError::QueueFull { current: 2, limit: 2 });
    assert_eq!(error.message(), "rayon queue full: 2/2 tasks outstanding");
    assert_eq!(outstanding_tasks(&pool), 2);
    first.release(&mut pool);
    assert!(SlotGuard::try_acquire_slot(&mut pool).is_ok());
    assert_eq!(queue_limit(&pool), Some(2));
}

#[test]
fn an_unlimited_queue_takes_every_task() {
    let mut pool = Pool::new(None);
    for i in 0..100 {
        assert_eq!(outstanding_tasks(&pool), i);
        assert!(cancellable_task(&mut pool).is_ok());
    }
}

#[test]
fn a_task_is_skipped_where_its_receiver_is_gone() {
    let mut pool = Pool::new(Some(1));
    let task = cancellable_task(&mut pool).expect("a free slot");
    assert!(cancellable_task(&mut pool).is_err());
    assert!(task.start(&mut pool, true).is_none());
    assert_eq!(outstanding_tasks(&pool), 0);
    assert_eq!(pool.take_wakeups(), Wakeups::Additional(0));
}

#[test]
fn a_task_runs_and_frees_its_thread() {
    let mut pool = Pool::new(Some(1));
    for (delivered, outcome) in [(true, TaskOutcome::Completed), (false, TaskOutcome::Orphaned)] {
        let task = cancellable_task(&mut pool).expect("a free slot");
        let task = task.start(&mut pool, false).expect("a live receiver");
        assert_eq!(pool.running, 1);
        assert_eq!(outstanding_tasks(&pool), 1);
        let task = task.run(
            || Ok::<u8, String>(1),
            |result| if delivered { Ok(()) } else { Err(result) },
        );
        assert_eq!(pool.running, 1);
        assert_eq!(outstanding_tasks(&pool), 1);
        assert_eq!(task.finish(&mut pool), outcome);
        assert_eq!(pool.running, 0);
        assert_eq!(outstanding_tasks(&pool), 0);
        assert_eq!(pool.take_wakeups(), Wakeups::Additional(1));
    }
}

#[test]
fn a_task_hands_on_what_its_work_gave() {
    let mut pool = Pool::new(None);
    for gave in [Ok(42), Err("a panic".to_string())] {
        for receiver_there in [true, false] {
            let task = cancellable_task(&mut pool).expect("a free slot");
            let task = task.start(&mut pool, false).expect("a live receiver");
            let mut calls = 0;
            let mut inbox = None;
            let ended = task.run(
                || {
                    calls += 1;
                    gave.clone()
                },
                |result| {
                    if receiver_there {
                        inbox = Some(result);
                        Ok(())
                    } else {
                        Err(result)
                    }
                },
            );
            let outcome = ended.finish(&mut pool);
            assert_eq!(calls, 1, "the work is done once, receiver or not");
            if receiver_there {
                assert_eq!(inbox, Some(gave.clone()));
                assert_eq!(outcome, TaskOutcome::Completed);
            } else {
                assert_eq!(inbox, None);
                assert_eq!(outcome, TaskOutcome::Orphaned);
            }
            assert_eq!((pool.running, outstanding_tasks(&pool)), (0, 0));
        }
    }
}

#[test]
fn encode_headroom_ends_above_half_the_pool() {
    let mut pool = Pool::new(None);
    assert!(encode_pool_has_headroom(&pool), "no threads yet");
    init_thread_pool(&mut pool, 8);
    assert_eq!(pool_thread_count(&pool), 8);
    pool.encode_outstanding = 3;
    assert!(encode_pool_has_headroom(&pool));
    pool.encode_outstanding = 4;
    assert!(encode_pool_has_headroom(&pool), "exactly half is not above half");
    pool.encode_outstanding = 5;
    assert!(!encode_pool_has_headroom(&pool));
    pool.pool_threads = 9;
    assert!(!encode_pool_has_headroom(&pool));
    pool.encode_outstanding = 4;
    assert!(encode_pool_has_headroom(&pool));
    pool.encode_outstanding = usize::MAX;
    assert!(!encode_pool_has_headroom(&pool));
}

#[test]
fn a_refused_initialisation_keeps_the_thread_count() {
    let mut pool = Pool::new(None);
    let previous = init_thread_pool(&mut pool, 4);
    assert_eq!(previous, 0);
    assert_eq!(pool_thread_count(&pool), 4, "the count is there before the pool is");
    thread_pool_built(&mut pool, previous, true);
    assert_eq!(pool_thread_count(&pool), 4);

    let previous = init_thread_pool(&mut pool, 8);
    assert_eq!(pool_thread_count(&pool), 8);
    thread_pool_built(&mut pool, previous, false);
    assert_eq!(pool_thread_count(&pool), 4);
}

#[test]
fn the_queue_limit_is_a_positive_number() {
    assert_eq!(parse_queue_limit(Some("128")), Some(128));
    assert_eq!(parse_queue_limit(Some("+7")), Some(7));
    assert_eq!(parse_queue_limit(Some("007")), Some(7));
    for text in ["0", "", "+", "-1", " 1", "1 ", "1_000", "x", "99999999999999999999999"] {
        assert_eq!(parse_queue_limit(Some(text)), None, "{text:?}");
    }
    assert_eq!(parse_queue_limit(None), None);
}

#[test]
fn timeouts_are_counted() {
    let mut pool = Pool::new(None);
    pool.count_decode_timeout();
    pool.count_decode_timeout();
    pool.count_encode_timeout();
    assert_eq!(decode_timeout_drop_count(&pool), 2);
    assert_eq!(encode_timeout_drop_count(&pool), 1);
}
