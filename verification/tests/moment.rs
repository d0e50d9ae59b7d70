use esbat::{
    clamp_angle, close_to_quarter, CivilTime, Timestamp, FULL_TURN, MAX_DAY, MIN_DAY,
    NANOS_PER_DAY, UNITS_PER_DEGREE,
};

const DEG: i64 = UNITS_PER_DEGREE;

#[test]
fn test_civil_round_trip() {
    // 2000-01-01 12:00 UTC, the reference epoch at noon
    let c = CivilTime {
        year: 2000,
        month: 1,
        day: 1,
        hour: 12,
        minute: 0,
        second: 0,
        nanosecond: 0,
    };
    let t = Timestamp::from_civil(&c);
    assert_eq!(t.day, 730120);
    assert_eq!(t.nanos, 43_200_000_000_000);
    assert_eq!(t.to_civil(), c);

    // -168-12-05 00:05:37.5 UTC: 1/256 of a day past midnight
    let c = CivilTime {
        year: -168,
        month: 12,
        day: 5,
        hour: 0,
        minute: 5,
        second: 37,
        nanosecond: 500_000_000,
    };
    let t = Timestamp::from_civil(&c);
    assert_eq!(t.day, -61387);
    assert_eq!(t.nanos, NANOS_PER_DAY / 256);
    assert_eq!(t.to_civil(), c);
}

#[test]
fn test_new_rejects_unrepresentable() {
    assert!(Timestamp::new(MIN_DAY, 0).is_some());
    assert!(Timestamp::new(MAX_DAY, NANOS_PER_DAY - 1).is_some());
    assert!(Timestamp::new(MIN_DAY - 1, 0).is_none());
    assert!(Timestamp::new(MAX_DAY + 1, 0).is_none());
    assert!(Timestamp::new(0, NANOS_PER_DAY).is_none());
}

#[test]
fn test_time_extremes() {
    let min = Timestamp::min_time();
    let max = Timestamp::max_time();
    assert_eq!(min.day, MIN_DAY);
    assert_eq!(min.nanos, 0);
    assert_eq!(max.day, MAX_DAY);
    assert_eq!(max.nanos, NANOS_PER_DAY - 1);
    assert!(min.le(&max));
    assert!(!max.le(&min));
    assert_eq!(min.to_civil().year, -262144);
    assert_eq!(max.to_civil().year, 262143);
}

#[test]
fn test_add_day_and_clamping() {
    let t = Timestamp { day: 100, nanos: 7 };
    assert_eq!(t.add_day(true), Timestamp { day: 101, nanos: 7 });
    assert_eq!(t.add_day(false), Timestamp { day: 99, nanos: 7 });
    // saturates at the range's extreme instants
    let late = Timestamp { day: MAX_DAY, nanos: 5 };
    assert_eq!(late.add_day(true), Timestamp::max_time());
    let early = Timestamp { day: MIN_DAY, nanos: 5 };
    assert_eq!(early.add_day(false), Timestamp::min_time());
}

#[test]
fn test_ordering() {
    let a = Timestamp { day: 1, nanos: 5 };
    let b = Timestamp { day: 1, nanos: 6 };
    let c = Timestamp { day: 2, nanos: 0 };
    assert!(a.le(&a));
    assert!(a.le(&b));
    assert!(!b.le(&a));
    assert!(b.le(&c));
    assert!(!c.le(&b));
}

#[test]
fn test_clamp_angle() {
    assert_eq!(clamp_angle(0), 0);
    assert_eq!(clamp_angle(359 * DEG), 359 * DEG);
    assert_eq!(clamp_angle(360 * DEG), 0);
    assert_eq!(clamp_angle(725 * DEG), 5 * DEG);
    assert_eq!(clamp_angle(-10 * DEG), 350 * DEG);
    // periodicity on a sample of values
    for x in [-720 * DEG, -1, 0, 1, 123 * DEG + 456, 359 * DEG] {
        let r = clamp_angle(x);
        assert!(0 <= r && r < FULL_TURN);
        assert_eq!(clamp_angle(x + FULL_TURN), r);
    }
}

#[test]
fn test_close_to_quarter() {
    assert!(close_to_quarter(0));
    assert!(close_to_quarter(90 * DEG));
    assert!(close_to_quarter(90 * DEG + 9_999));
    assert!(close_to_quarter(90 * DEG - 9_999));
    assert!(close_to_quarter(270 * DEG + 1));
    assert!(!close_to_quarter(90 * DEG + 10_000));
    assert!(!close_to_quarter(45 * DEG));
    assert!(!close_to_quarter(179 * DEG));
}
