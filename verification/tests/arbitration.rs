use hopr_utilities::parallelize::cpu::arbitration::{
    admit_decode, decode_admit_cap, running_tasks, try_reserve_decode, with_arbitration, with_arbitration_once,
    Admission, ArbitrationConfig, ArbitrationConfigError, Path, RunningGuard, TaggedGuard,
};
use hopr_utilities::parallelize::cpu::{
    decode_outstanding_tasks, encode_outstanding_tasks, init_thread_pool, thread_pool_built, Pool, Wakeups,
};

const N: usize = 8;
const OCC: u32 = 75; // occupancy threshold percent
const RES: u32 = 50; // encode reserve percent
const FLOOD: usize = N * 4; // decode_outstanding well above enc*FLOOD_FACTOR

const ENABLED: ArbitrationConfig = ArbitrationConfig::Enabled {
    occupancy_pct: OCC,
    encode_reserve_pct: RES,
};

#[test]
fn arbitration_below_occupancy_threshold_decode_is_never_throttled() {
    // 75% of 8 == 6 running threads; anything below leaves decode unconstrained.
    for running in 0..(N * OCC as usize / 100) {
        assert_eq!(
            decode_admit_cap(N, running, FLOOD, 4, OCC, RES),
            None,
            "decode must be free below the occupancy threshold (running={running})",
        );
    }
}

#[test]
fn arbitration_saturated_but_no_encode_is_never_throttled() {
    // Pure forwarding relay: pool full of decode, zero encode → nothing to protect.
    assert_eq!(decode_admit_cap(N, N, FLOOD, 0, OCC, RES), None);
}

#[test]
fn arbitration_balanced_load_is_not_throttled() {
    // Saturated with encode present, but decode is comparable to encode (not a flood) → FIFO is
    // already fair, throttling would only cut delivery. Only a genuine flood engages.
    assert_eq!(decode_admit_cap(N, N, N, N, OCC, RES), None); // dec == enc
    assert_eq!(decode_admit_cap(N, N, 2 * N, N, OCC, RES), None); // dec == enc * FLOOD_FACTOR
    assert!(decode_admit_cap(N, N, 2 * N + 1, N, OCC, RES).is_some()); // just over the threshold
}

#[test]
fn arbitration_decode_flood_reserves_threads_for_encode() {
    // Decode floods (>> encode) → decode capped so 50% is left for encode.
    assert_eq!(decode_admit_cap(N, N, FLOOD, N, OCC, RES), Some(N / 2));
    // Reserve never exceeds actual encode demand: only 1 encode task → reserve just 1 thread.
    assert_eq!(decode_admit_cap(N, N, FLOOD, 1, OCC, RES), Some(N - 1));
}

#[test]
fn arbitration_cap_is_never_zero_liveness() {
    // A full encode reserve on a tiny pool still admits at least one decode task.
    assert_eq!(decode_admit_cap(2, 2, 50, 10, OCC, 100), Some(1));
    for running in 0..=N {
        for enc in 1..=N {
            if let Some(cap) = decode_admit_cap(N, running, FLOOD, enc, OCC, RES) {
                assert!(cap >= 1, "cap must never be zero (running={running}, enc={enc})");
            }
        }
    }
}

#[test]
fn config_validation_rejects_out_of_range_percentages() {
    assert!(ENABLED.validate().is_ok());
    assert!(ArbitrationConfig::Disabled.validate().is_ok());
    assert!(ArbitrationConfig::Enabled {
        occupancy_pct: 0,
        encode_reserve_pct: 50
    }
    .validate()
    .is_err());
    assert!(ArbitrationConfig::Enabled {
        occupancy_pct: 75,
        encode_reserve_pct: 101
    }
    .validate()
    .is_err());
}

#[test]
fn config_errors_say_what_is_out_of_range() {
    let occupancy = ArbitrationConfig::Enabled {
        occupancy_pct: 0,
        encode_reserve_pct: 0,
    }
    .validate();
    assert_eq!(occupancy, Err(ArbitrationConfigError::OccupancyOutOfRange(0)));
    assert_eq!(
        occupancy.unwrap_err().message(),
        "occupancy_pct must be in 1..=100, got 0"
    );
    let reserve = ArbitrationConfig::Enabled {
        occupancy_pct: 100,
        encode_reserve_pct: 101,
    }
    .validate();
    assert_eq!(reserve, Err(ArbitrationConfigError::EncodeReserveOutOfRange(101)));
    assert_eq!(
        reserve.unwrap_err().message(),
        "encode_reserve_pct must be in 1..=100, got 101"
    );
}

#[test]
fn try_reserve_decode_refuses_under_flood_and_admits_otherwise() {
    let mut pool = Pool::new(None);

    // Saturated pool + encode present + decode flooding → the cap engages and decode is already
    // over it, so a fresh reservation is refused and the counter is left untouched.
    pool.running = N;
    pool.encode_outstanding = N;
    pool.decode_outstanding = FLOOD;
    assert!(!try_reserve_decode(&mut pool, N, OCC, RES), "must refuse a decode flood");
    assert_eq!(pool.decode_outstanding, FLOOD, "a refused call must not reserve");

    // Same saturation, but decode is only comparable to encode (not a flood) → unconstrained, so
    // the reservation succeeds and increments the counter by exactly one.
    pool.decode_outstanding = N;
    assert!(
        try_reserve_decode(&mut pool, N, OCC, RES),
        "must admit when decode is not flooding"
    );
    assert_eq!(pool.decode_outstanding, N + 1, "an admitted call reserves one slot");

    // Below the occupancy threshold decode is never throttled, even while flooding.
    pool.running = 0;
    pool.decode_outstanding = FLOOD;
    assert!(
        try_reserve_decode(&mut pool, N, OCC, RES),
        "must admit below the occupancy threshold"
    );
    assert_eq!(pool.decode_outstanding, FLOOD + 1);
}

#[test]
fn with_arbitration_once_is_first_wins() {
    let mut pool = Pool::new(None);

    assert!(
        with_arbitration_once(&mut pool, ArbitrationConfig::Disabled),
        "first call must apply"
    );
    assert!(!pool.arbitration_enabled, "first call's value must stick");

    // A later differing call is ignored — the first configuration wins.
    assert!(
        !with_arbitration_once(&mut pool, ENABLED),
        "second call must be a no-op"
    );
    assert!(!pool.arbitration_enabled, "second call must not overwrite");

    // An explicit `with_arbitration` still overrides unconditionally (last-write-wins).
    with_arbitration(&mut pool, ENABLED);
    assert!(pool.arbitration_enabled, "explicit config must override");
}

#[test]
fn arbitration_admit_decode_is_passthrough_when_disabled_or_pool_uninitialised() {
    let mut pool = Pool::new(None);

    // The pool has no threads → immediate return.
    assert_eq!(
        admit_decode(&mut pool, Admission::Fresh),
        Admission::Admitted,
        "admit_decode must not block with an uninitialised pool"
    );
    assert_eq!(pool.decode_outstanding, 1);
    TaggedGuard::new(Path::Decode).release(&mut pool);

    with_arbitration(&mut pool, ArbitrationConfig::Disabled);
    assert_eq!(
        admit_decode(&mut pool, Admission::Fresh),
        Admission::Admitted,
        "admit_decode must not block when disabled"
    );
    TaggedGuard::new(Path::Decode).release(&mut pool);
    assert_eq!(pool.decode_outstanding, 0);
}

fn flooded() -> Pool {
    let mut pool = Pool::new(None);
    pool.pool_threads = N;
    pool.running = N;
    pool.encode_outstanding = N;
    pool.decode_outstanding = FLOOD;
    pool
}

#[test]
fn a_refused_admitter_listens_asks_again_and_waits() {
    let mut pool = flooded();
    let before = pool;
    let step = admit_decode(&mut pool, Admission::Fresh);
    assert_eq!(step, Admission::Listen { pool_threads: N });
    let step = admit_decode(&mut pool, step);
    assert_eq!(step, Admission::Wait { pool_threads: N });
    assert_eq!(pool, before);
    let step = admit_decode(&mut pool, step);
    assert_eq!(step, Admission::Listen { pool_threads: N });

    // Every thread runs, so that no occupancy threshold lets it through; turning arbitration off does.
    with_arbitration(&mut pool, ArbitrationConfig::Disabled);
    assert_eq!(pool.take_wakeups(), Wakeups::All);
    assert_eq!(admit_decode(&mut pool, step), Admission::Admitted);
    assert_eq!(pool.decode_outstanding, FLOOD + 1);
    assert_eq!(admit_decode(&mut pool, Admission::Admitted), Admission::Admitted);
    assert_eq!(pool.decode_outstanding, FLOOD + 1);
}

#[test]
fn a_waiting_admitter_keeps_the_thread_count_it_asked_with() {
    // Four of four threads run: refused.
    let mut pool = Pool::new(None);
    let previous = init_thread_pool(&mut pool, 4);
    thread_pool_built(&mut pool, previous, true);
    pool.running = 4;
    pool.encode_outstanding = 4;
    pool.decode_outstanding = 32;
    let step = admit_decode(&mut pool, Admission::Fresh);
    assert_eq!(step, Admission::Listen { pool_threads: 4 });

    // While a second initialisation is under way, a new task sees eight threads, the refused one its four.
    let previous = init_thread_pool(&mut pool, 8);
    assert_eq!(admit_decode(&mut pool, step), Admission::Wait { pool_threads: 4 });
    assert_eq!(pool.decode_outstanding, 32);
    assert_eq!(admit_decode(&mut pool, Admission::Fresh), Admission::Admitted);
    thread_pool_built(&mut pool, previous, false);
    assert_eq!(
        admit_decode(&mut pool, Admission::Wait { pool_threads: 4 }),
        Admission::Listen { pool_threads: 4 }
    );
}

#[test]
fn a_loosened_policy_reaches_a_waiting_admitter() {
    for waits in [1, 2] {
        let mut pool = Pool::new(None);
        pool.pool_threads = 8;
        pool.running = 6;
        pool.encode_outstanding = 8;
        pool.decode_outstanding = 32;
        with_arbitration(
            &mut pool,
            ArbitrationConfig::Enabled {
                occupancy_pct: 75,
                encode_reserve_pct: 50,
            },
        );
        let mut step = Admission::Fresh;
        for _ in 0..waits {
            step = admit_decode(&mut pool, step);
            assert_ne!(step, Admission::Admitted);
            assert_eq!(pool.decode_outstanding, 32);
        }
        pool.take_wakeups();
        // Six of eight running threads are below all of them.
        with_arbitration(
            &mut pool,
            ArbitrationConfig::Enabled {
                occupancy_pct: 100,
                encode_reserve_pct: 50,
            },
        );
        assert_eq!(pool.take_wakeups(), Wakeups::All);
        assert_eq!(admit_decode(&mut pool, step), Admission::Admitted);
        assert_eq!(pool.decode_outstanding, 33);
    }
}

#[test]
fn the_occupancy_threshold_is_not_rounded_down() {
    // 75 % of seven threads are five and a quarter: five running tasks are below it, six are not.
    assert_eq!(decode_admit_cap(7, 5, 100, 7, 75, 50), None);
    assert_eq!(decode_admit_cap(7, 6, 100, 7, 75, 50), Some(3));
    // A share that comes out even is reached by as many tasks as it counts.
    assert_eq!(decode_admit_cap(8, 5, 100, 8, 75, 50), None);
    assert_eq!(decode_admit_cap(8, 6, 100, 8, 75, 50), Some(4));
    // Where the share is below one thread, an idle pool is still free.
    assert_eq!(decode_admit_cap(1, 0, 100, 7, 1, 50), None);
    assert_eq!(decode_admit_cap(1, 1, 100, 7, 1, 50), Some(1));
}

#[test]
fn a_cap_is_a_hard_limit() {
    let mut pool = Pool::new(None);
    pool.pool_threads = N;
    pool.running = N;
    pool.encode_outstanding = 1;
    pool.decode_outstanding = 3;
    // One thread is reserved for the one encode task, seven are left.
    let mut admitted = 0;
    while try_reserve_decode(&mut pool, N, OCC, RES) {
        admitted += 1;
    }
    assert_eq!(admitted, 4);
    assert_eq!(pool.decode_outstanding, 7);
}

#[test]
fn percentages_are_clamped_and_survive_a_disabled_spell() {
    let mut pool = Pool::new(None);
    with_arbitration(
        &mut pool,
        ArbitrationConfig::Enabled {
            occupancy_pct: 0,
            encode_reserve_pct: 1_000,
        },
    );
    assert_eq!((pool.occupancy_pct, pool.encode_reserve_pct), (1, 100));
    with_arbitration(&mut pool, ArbitrationConfig::Disabled);
    assert_eq!((pool.occupancy_pct, pool.encode_reserve_pct), (1, 100));
    assert!(!pool.arbitration_enabled);
    assert!(pool.arbitration_configured);
}

#[test]
fn guards_count_and_give_back() {
    let mut pool = Pool::new(None);
    let encode = TaggedGuard::enter_encode(&mut pool);
    let running = RunningGuard::enter(&mut pool);
    assert_eq!(encode_outstanding_tasks(&pool), 1);
    assert_eq!(running_tasks(&pool), 1);
    running.release(&mut pool);
    encode.release(&mut pool);
    assert_eq!(encode_outstanding_tasks(&pool), 0);
    assert_eq!(decode_outstanding_tasks(&pool), 0);
    assert_eq!(running_tasks(&pool), 0);
    // Each freed slot wakes a distinct waiter.
    assert_eq!(pool.take_wakeups(), Wakeups::Additional(2));
    assert_eq!(pool.take_wakeups(), Wakeups::Additional(0));
}
