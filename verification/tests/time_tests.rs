use simkernel::time::{DayTime, GameTime, RecTimeInterval, Tick, TimeInterval};

#[test]
fn daytime_breakdown() {
    let dt = DayTime::new(2 * 86400 + 5 * 3600 + 90);
    assert_eq!(dt.day, 2);
    assert_eq!(dt.hour, 5);
    assert_eq!(dt.second, 90);
}

#[test]
fn daytime_roundtrip_zero() {
    assert_eq!(DayTime::new(0).gamesec(), 0);
}

#[test]
fn daytime_roundtrip_various() {
    for &s in &[1, 59, 3600, 86399, 86400, 123456, 2_000_000_000] {
        assert_eq!(DayTime::new(s).gamesec(), s);
    }
}

#[test]
fn daytime_daysec_and_dist() {
    let a = DayTime::new(86400 + 3600);
    assert_eq!(a.daysec(), 3600);
    let b = DayTime::new(86400);
    assert_eq!(a.dist(&b), 3600);
    assert_eq!(b.dist(&a), 3600);
    assert_eq!(a.dist(&a), 0);
}

#[test]
fn time_interval_dist() {
    let itv = TimeInterval::new(
        DayTime { day: 0, hour: 1, second: 0 },
        DayTime { day: 0, hour: 2, second: 0 },
    );
    assert_eq!(itv.dist(DayTime { day: 0, hour: 0, second: 1800 }), 1800);
    assert_eq!(itv.dist(DayTime { day: 0, hour: 1, second: 30 }), 0);
    assert_eq!(itv.dist(DayTime { day: 0, hour: 3, second: 0 }), 3600);
}

#[test]
fn rec_interval_overlap_flag() {
    let plain = RecTimeInterval::new((9, 0), (18, 0));
    assert!(!plain.overlap);
    let wrapping = RecTimeInterval::new((22, 0), (5, 0));
    assert!(wrapping.overlap);
    let same_hour_wrap = RecTimeInterval::new((9, 30), (9, 10));
    assert!(same_hour_wrap.overlap);
}

#[test]
fn rec_interval_dist_until_plain() {
    let itv = RecTimeInterval::new((9, 0), (18, 0));
    assert_eq!(itv.dist_until(DayTime { day: 3, hour: 12, second: 0 }), 0);
    assert_eq!(itv.dist_until(DayTime { day: 3, hour: 8, second: 0 }), 3600);
    // after the end: the distance goes to the next day's start
    assert_eq!(
        itv.dist_until(DayTime { day: 3, hour: 19, second: 0 }),
        9 * 3600 + 86400 - 19 * 3600
    );
}

#[test]
fn rec_interval_dist_until_wrapping() {
    let itv = RecTimeInterval::new((22, 0), (5, 0));
    assert_eq!(itv.dist_until(DayTime { day: 0, hour: 23, second: 0 }), 0);
    assert_eq!(itv.dist_until(DayTime { day: 1, hour: 2, second: 0 }), 0);
    assert_eq!(itv.dist_until(DayTime { day: 0, hour: 12, second: 0 }), 36000);
}

#[test]
fn game_time_fields() {
    let t = GameTime::new(0, 0);
    assert_eq!(t.seconds, 0);
    assert_eq!(t.daytime, DayTime { day: 0, hour: 0, second: 0 });
    let t2 = GameTime::new(50, 50 * 90000);
    assert_eq!(t2.seconds, 90000);
    assert_eq!(t2.daytime, DayTime { day: 1, hour: 1, second: 0 });
    assert!(!t2.near_limit());
}

#[test]
fn game_time_tick_fires_once_per_boundary() {
    // Start just before a 4-second boundary (ticks run at 50 per second).
    let before = GameTime::new(0, 190);
    assert!(!before.tick(4));
    // One advance crosses the boundary at 200 ticks exactly once.
    let crossing = before.advance(2, 1);
    assert_eq!(crossing.timestamp, 220);
    assert!(crossing.tick(4));
    // The neighboring advances do not cross a boundary.
    let after = crossing.advance(2, 1);
    assert!(!after.tick(4));
}

#[test]
fn game_time_instant_elapsed() {
    let t0 = GameTime::new(0, 100);
    let instant = t0.instant();
    let t1 = GameTime::new(0, 350);
    assert_eq!(instant.elapsed(&t1), 250);
}

#[test]
fn game_time_daysec_wraps_at_day() {
    let t = GameTime::new(0, 86400 * 50 + 75);
    assert_eq!(t.daysec(), 75);
}

#[test]
fn tick_counter_default() {
    let t = Tick::default();
    assert_eq!(t.0, 0);
    assert_eq!(Tick(7), Tick(7));
}

#[test]
fn my_hash_is_stable_per_schema() {
    assert_eq!(simkernel::my_hash("Transform"), simkernel::my_hash("Transform"));
    assert_ne!(simkernel::my_hash("Transform"), simkernel::my_hash("Collider"));
}
