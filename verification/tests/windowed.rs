use hopr_utilities::statistics::moving::windowed::{Ratio, WindowedRatio};
use hopr_utilities::time::{Duration, Instant};

/// 4 slices of 1 s — a 4 s window, small enough to reason about slice by slice.
fn ratio(epoch: Instant) -> WindowedRatio<4> {
    WindowedRatio::new(Duration::from_secs(1), epoch)
}

fn start() -> Instant {
    Instant::from_origin(1_000, 500_000_000)
}

fn at(epoch: Instant, secs: u64) -> Instant {
    epoch.checked_add(Duration::from_secs(secs)).expect("the clock reaches it")
}

fn fraction(ratio: Option<Ratio>) -> Option<f64> {
    ratio.map(|r| r.observed as f64 / r.expected as f64)
}

#[test]
fn recent_value_should_see_a_collapse_the_full_window_still_dilutes() {
    let epoch = start();
    let mut r = ratio(epoch);

    // Three healthy slices, then one where nothing comes back.
    for sec in 0..3 {
        r.record_expected(100, at(epoch, sec));
        r.record_observed(100, at(epoch, sec));
    }
    r.record_expected(100, at(epoch, 3));

    let now = at(epoch, 3);
    let full = fraction(r.value(now)).expect("window holds evidence");
    let recent = fraction(r.recent_value(1, now)).expect("newest slice holds evidence");

    // 300/400 against 0/100 -- the full window is still mostly healthy history.
    assert_eq!(recent, 0.0, "the newest slice saw nothing come back");
    assert!(
        full > 0.5,
        "the full window should still be dominated by healthy history, got {full}"
    );
    assert_eq!(r.value(now), Some(Ratio { observed: 300, expected: 400 }));
}

#[test]
fn recent_value_should_match_the_full_window_when_asked_for_every_slice() {
    let epoch = start();
    let mut r = ratio(epoch);
    for sec in 0..4 {
        r.record_expected(10, at(epoch, sec));
        r.record_observed(5, at(epoch, sec));
    }

    let now = at(epoch, 3);
    assert_eq!(r.recent_value(4, now), r.value(now));
    // Clamped, so over-asking is the same as asking for the whole ring.
    assert_eq!(r.recent_value(999, now), r.value(now));
}

#[test]
fn recent_value_should_be_none_when_the_recent_slices_hold_nothing() {
    let epoch = start();
    let mut r = ratio(epoch);
    r.record_expected(100, at(epoch, 0));
    r.record_observed(100, at(epoch, 0));

    // Two slices later nothing has been expected, so there is no evidence either way --
    // which must read as "no data", never as a failing peer.
    assert_eq!(fraction(r.recent_value(1, at(epoch, 2))), None);
    assert!(
        r.value(at(epoch, 2)).is_some(),
        "the full window still holds the old slice"
    );
}

#[test]
fn recent_value_should_climb_back_before_the_full_window_does() {
    let epoch = start();
    let mut r = ratio(epoch);

    for sec in 0..3 {
        r.record_expected(100, at(epoch, sec));
    }
    r.record_expected(100, at(epoch, 3));
    r.record_observed(100, at(epoch, 3));

    let now = at(epoch, 3);
    let full = fraction(r.value(now)).expect("window holds evidence");
    let recent = fraction(r.recent_value(1, now)).expect("newest slice holds evidence");
    assert_eq!(recent, 1.0, "the newest slice is fully recovered");
    assert!(full < 0.5, "the full window still carries the outage, got {full}");
}

#[test]
fn value_should_be_none_until_something_is_expected() {
    let epoch = start();
    let mut r = ratio(epoch);

    assert_eq!(None, fraction(r.value(epoch)), "an empty window holds no evidence");

    // An observation with nothing expected still leaves the denominator at zero.
    r.record_observed(1, epoch);
    assert_eq!(None, fraction(r.value(epoch)));
}

#[test]
fn value_should_be_one_when_everything_expected_is_observed() {
    let epoch = start();
    let mut r = ratio(epoch);

    for _ in 0..10 {
        r.record_expected(1, epoch);
        r.record_observed(1, epoch);
    }

    assert_eq!(Some(1.0), fraction(r.value(epoch)));
}

#[test]
fn value_should_be_zero_when_nothing_expected_is_observed() {
    let epoch = start();
    let mut r = ratio(epoch);

    for _ in 0..10 {
        r.record_expected(1, epoch);
    }

    assert_eq!(Some(0.0), fraction(r.value(epoch)));
}

#[test]
fn value_should_recover_upward_once_healthy_slices_enter() {
    let epoch = start();
    let mut r = ratio(epoch);

    // Two bad seconds: everything expected, nothing observed.
    for sec in 0..2 {
        for _ in 0..10 {
            r.record_expected(1, at(epoch, sec));
        }
    }
    assert_eq!(Some(0.0), fraction(r.value(at(epoch, 1))));

    // Then two good ones. This is the property a decay-to-zero cannot provide.
    for sec in 2..4 {
        for _ in 0..10 {
            r.record_expected(1, at(epoch, sec));
            r.record_observed(1, at(epoch, sec));
        }
    }
    assert_eq!(
        Some(0.5),
        fraction(r.value(at(epoch, 3))),
        "half the window is now healthy"
    );

    // Once the bad slices age out entirely, the value is back to full health.
    for sec in 4..8 {
        for _ in 0..10 {
            r.record_expected(1, at(epoch, sec));
            r.record_observed(1, at(epoch, sec));
        }
    }
    assert_eq!(Some(1.0), fraction(r.value(at(epoch, 7))));
}

#[test]
fn stale_slices_should_age_out_of_the_window() {
    let epoch = start();
    let mut r = ratio(epoch);

    for _ in 0..10 {
        r.record_expected(1, epoch);
    }
    assert_eq!(Some(0.0), fraction(r.value(epoch)));

    // A full window later, nothing from that slice counts — and with no newer evidence the
    // window is empty rather than bad.
    assert_eq!(None, fraction(r.value(at(epoch, 10))));
}

#[test]
fn value_should_be_clamped_when_observations_outrun_expectations() {
    let epoch = start();
    let mut r = ratio(epoch);

    // An expectation raised just before the window edge, observed after it aged out: the
    // observation is real but its expectation is gone, so the raw ratio would exceed 1.
    r.record_expected(1, epoch);
    r.record_expected(1, at(epoch, 5));
    r.record_observed(2, at(epoch, 5));

    assert_eq!(Some(1.0), fraction(r.value(at(epoch, 5))));
}

#[test]
fn window_should_be_width_times_count() {
    let epoch = start();
    assert_eq!(Duration::from_secs(4), ratio(epoch).window());
}

#[test]
fn window_should_saturate_rather_than_overflow_on_an_absurd_slice_width() {
    let epoch = start();
    let r: WindowedRatio<4> = WindowedRatio::new(Duration::max_value(), epoch);

    // Four times the longest span overflows; multiplying it out would panic instead of answering.
    assert_eq!(Duration::max_value(), r.window());
}

#[test]
fn a_late_record_should_not_erase_a_newer_slice() {
    let epoch = start();
    let mut r = ratio(epoch);

    // Slices 0 and 4 share a slot in a 4-slice ring.
    r.record_expected(100, at(epoch, 4));
    r.record_observed(100, at(epoch, 4));

    r.record_expected(50, epoch);
    r.record_observed(0, epoch);

    assert_eq!(
        Some(1.0),
        fraction(r.value(at(epoch, 4))),
        "the late record must not displace the newer slice"
    );
}

#[test]
fn a_late_record_should_still_land_in_a_slice_that_is_still_live() {
    let epoch = start();
    let mut r = ratio(epoch);

    // Out of order, but slice 0 is still the one that slot holds -- so this is a genuine
    // in-window observation and must be counted, not dropped along with the stale ones.
    r.record_expected(10, at(epoch, 1));
    r.record_expected(10, epoch);
    r.record_observed(10, epoch);

    assert_eq!(Some(0.5), fraction(r.value(at(epoch, 1))));
}

#[test]
fn counters_should_saturate_rather_than_overflow() {
    let epoch = start();
    let mut r = ratio(epoch);

    // Wrapping here would not merely lose precision: the denominator would fall below the
    // numerator and a perfectly healthy window would read as a collapse.
    r.record_expected(u64::MAX, epoch);
    r.record_expected(1, epoch);
    r.record_observed(u64::MAX, epoch);
    r.record_observed(1, epoch);

    assert_eq!(Some(1.0), fraction(r.value(epoch)));
}

#[test]
fn totals_should_saturate_across_slices() {
    let epoch = start();
    let mut r = ratio(epoch);

    // Each slice fits in a `u64`; their sum does not.
    for sec in 0..4 {
        r.record_expected(u64::MAX, at(epoch, sec));
        r.record_observed(u64::MAX / 2, at(epoch, sec));
    }

    let value = fraction(r.value(at(epoch, 3))).expect("the window holds evidence");
    assert!(
        (0.0..=1.0).contains(&value),
        "a saturated total must stay a ratio, got {value}"
    );
}

#[test]
fn should_be_copy_so_it_can_live_inside_a_copy_observation() {
    let epoch = start();
    let mut r = ratio(epoch);
    r.record_expected(4, epoch);
    r.record_observed(2, epoch);

    let snapshot = r;
    r.record_observed(2, epoch);

    assert_eq!(
        Some(0.5),
        fraction(snapshot.value(epoch)),
        "the copy must not see later writes"
    );
    assert_eq!(Some(1.0), fraction(r.value(epoch)));
}

#[test]
fn a_zero_width_slice_should_be_clamped_rather_than_divide_by_zero() {
    let epoch = start();
    let mut r: WindowedRatio<4> = WindowedRatio::new(Duration::zero(), epoch);

    r.record_expected(1, epoch);
    r.record_observed(1, epoch);
    assert_eq!(Some(1.0), fraction(r.value(epoch)));
    assert_eq!(Duration::from_millis(4), r.window());
}

#[test]
fn instants_before_the_epoch_count_for_the_first_slice() {
    let epoch = start();
    let mut r = ratio(epoch);
    r.record_expected(3, Instant::from_origin(1, 0));
    r.record_observed(1, Instant::from_origin(i64::MIN, 0));
    assert_eq!(Some(Ratio { observed: 1, expected: 3 }), r.value(epoch));
}

#[test]
fn asking_for_no_slice_should_read_the_newest() {
    let epoch = start();
    let mut r = ratio(epoch);
    r.record_expected(7, at(epoch, 2));
    r.record_expected(9, at(epoch, 3));
    let now = at(epoch, 3);
    assert_eq!(r.recent_value(0, now), Some(Ratio { observed: 0, expected: 9 }));
    assert_eq!(r.recent_value(0, now), r.recent_value(1, now));
    assert_eq!(r.recent_value(2, now), Some(Ratio { observed: 0, expected: 16 }));
}

#[test]
fn records_in_any_order_should_read_the_same() {
    let epoch = start();
    let mut forward = ratio(epoch);
    let mut backward = ratio(epoch);
    for sec in 0..4 {
        forward.record_expected(sec + 1, at(epoch, sec));
    }
    for sec in (0..4).rev() {
        backward.record_expected(sec + 1, at(epoch, sec));
    }
    let now = at(epoch, 3);
    assert_eq!(forward.value(now), Some(Ratio { observed: 0, expected: 10 }));
    assert_eq!(forward.value(now), backward.value(now));
}

#[test]
fn records_at_one_time_should_add_up_in_either_order() {
    let epoch = start();
    let now = at(epoch, 5);
    let mut r = ratio(epoch);
    r.record_expected(2, at(epoch, 1));

    let (mut twice, mut once) = (r, r);
    twice.record_expected(u64::MAX, now);
    twice.record_expected(9, now);
    once.record_expected(u64::MAX, now);
    assert_eq!(twice, once, "held at the largest count");

    let (mut twice, mut once) = (r, r);
    twice.record_observed(3, now);
    twice.record_observed(4, now);
    once.record_observed(7, now);
    assert_eq!(twice, once);
    twice.record_expected(8, now);
    let mut swapped = r;
    swapped.record_expected(8, now);
    swapped.record_observed(7, now);
    assert_eq!(twice, swapped);
    assert_eq!(twice.value(now), Some(Ratio { observed: 7, expected: 8 }));
}

#[test]
fn observations_alone_should_leave_no_data_and_readings_alone() {
    let epoch = start();
    let mut r = ratio(epoch);
    r.record_observed(5, at(epoch, 0));
    assert_eq!(r.value(at(epoch, 0)), None);
    r.record_expected(10, at(epoch, 3));
    // Slice 7 takes the slot of slice 3, which no window that ends there sees any more.
    assert!(r.value(at(epoch, 6)).is_some());
    assert_eq!(r.value(at(epoch, 7)), None);
    r.record_observed(5, at(epoch, 7));
    assert_eq!(r.value(at(epoch, 7)), None);
}

#[test]
fn spans_and_instants_should_add_up() {
    assert_eq!(Duration::new(1, 500_000_000).as_nanos(), 1_500_000_000);
    assert_eq!(Duration::new(7, 999_999_999).as_secs(), 7);
    assert_eq!(Duration::from_millis(1_500), Duration::new(1, 500_000_000));
    assert_eq!(Duration::from_secs(2).saturating_mul(3), Duration::from_secs(6));
    let earlier = Instant::from_origin(-2, 250_000_000);
    let later = earlier.checked_add(Duration::from_secs(5)).unwrap();
    assert_eq!(later.saturating_duration_since(earlier), Duration::from_secs(5));
    assert_eq!(earlier.saturating_duration_since(later), Duration::zero());
    assert_eq!(Instant::from_origin(i64::MAX, 0).checked_add(Duration::from_secs(1)), None);
}
