use esbat::{
    fixed_from_gregorian, gregorian_from_fixed, gregorian_new_year, gregorian_year_from_fixed,
    is_gregorian_leap_year, nonneg, MAX_DAY, MAX_YEAR, MIN_DAY, MIN_YEAR,
};

const SAMPLE: [(i32, (i32, u32, u32)); 33] = [
    (-214193, (-586, 7, 24)),
    (-61387, (-168, 12, 5)),
    (25469, (70, 9, 24)),
    (49217, (135, 10, 2)),
    (171307, (470, 1, 8)),
    (210155, (576, 5, 20)),
    (253427, (694, 11, 10)),
    (369740, (1013, 4, 25)),
    (400085, (1096, 5, 24)),
    (434355, (1190, 3, 23)),
    (452605, (1240, 3, 10)),
    (470160, (1288, 4, 2)),
    (473837, (1298, 4, 27)),
    (507850, (1391, 6, 12)),
    (524156, (1436, 2, 3)),
    (544676, (1492, 4, 9)),
    (567118, (1553, 9, 19)),
    (569477, (1560, 3, 5)),
    (601716, (1648, 6, 10)),
    (613424, (1680, 6, 30)),
    (626596, (1716, 7, 24)),
    (645554, (1768, 6, 19)),
    (664224, (1819, 8, 2)),
    (671401, (1839, 3, 27)),
    (694799, (1903, 4, 19)),
    (704424, (1929, 8, 25)),
    (708842, (1941, 9, 29)),
    (709409, (1943, 4, 19)),
    (709580, (1943, 10, 7)),
    (727274, (1992, 3, 17)),
    (728714, (1996, 2, 25)),
    (744313, (2038, 11, 10)),
    (764652, (2094, 7, 18)),
];

#[test]
fn test_sample_data() {
    for (rd, (y, m, d)) in SAMPLE.iter().copied() {
        assert_eq!(gregorian_from_fixed(rd), (y, m, d));
        assert_eq!(fixed_from_gregorian(y, m, d), rd);
    }
}

#[test]
fn test_epoch_and_golden_dates() {
    assert_eq!(fixed_from_gregorian(1, 1, 1), 1);
    assert_eq!(gregorian_from_fixed(1), (1, 1, 1));
    assert_eq!(fixed_from_gregorian(2000, 1, 1), 730120);
    assert_eq!(gregorian_from_fixed(730120), (2000, 1, 1));
    assert_eq!(fixed_from_gregorian(-586, 7, 24), -214193);
    assert_eq!(fixed_from_gregorian(2020, 10, 31), 737729);
    assert_eq!(gregorian_new_year(2000), 730120);
    assert_eq!(gregorian_new_year(1), 1);
}

#[test]
fn test_leap_years() {
    assert!(is_gregorian_leap_year(2000));
    assert!(is_gregorian_leap_year(2020));
    assert!(is_gregorian_leap_year(-4));
    assert!(!is_gregorian_leap_year(1900));
    assert!(!is_gregorian_leap_year(2100));
    assert!(!is_gregorian_leap_year(2021));
    assert!(is_gregorian_leap_year(400));
    assert!(!is_gregorian_leap_year(100));
}

#[test]
fn test_round_trip_across_february() {
    // leap year: Feb 28, Feb 29, Mar 1 are consecutive days
    let feb28 = fixed_from_gregorian(2020, 2, 28);
    assert_eq!(gregorian_from_fixed(feb28 + 1), (2020, 2, 29));
    assert_eq!(gregorian_from_fixed(feb28 + 2), (2020, 3, 1));
    // common year: Feb 28 is directly followed by Mar 1
    let feb28c = fixed_from_gregorian(2021, 2, 28);
    assert_eq!(gregorian_from_fixed(feb28c + 1), (2021, 3, 1));
    // century rule
    let feb28x = fixed_from_gregorian(1900, 2, 28);
    assert_eq!(gregorian_from_fixed(feb28x + 1), (1900, 3, 1));
}

#[test]
fn test_round_trip_range_extremes() {
    assert_eq!(gregorian_from_fixed(MIN_DAY), (MIN_YEAR, 1, 1));
    assert_eq!(fixed_from_gregorian(MIN_YEAR, 1, 1), MIN_DAY);
    assert_eq!(gregorian_from_fixed(MAX_DAY), (MAX_YEAR, 12, 31));
    assert_eq!(fixed_from_gregorian(MAX_YEAR, 12, 31), MAX_DAY);
    // every day of a whole 400-year cycle round-trips
    let start = fixed_from_gregorian(2000, 1, 1);
    for rd in start..start + 146097 {
        let (y, m, d) = gregorian_from_fixed(rd);
        assert_eq!(fixed_from_gregorian(y, m, d), rd);
    }
}

#[test]
fn test_year_from_fixed() {
    assert_eq!(gregorian_year_from_fixed(1), 1);
    assert_eq!(gregorian_year_from_fixed(365), 1);
    assert_eq!(gregorian_year_from_fixed(366), 2);
    assert_eq!(gregorian_year_from_fixed(0), 0);
    assert_eq!(gregorian_year_from_fixed(-365), 0);
    assert_eq!(gregorian_year_from_fixed(-366), -1);
    assert_eq!(gregorian_year_from_fixed(730120), 2000);
    assert_eq!(gregorian_year_from_fixed(146097), 400);
    assert_eq!(gregorian_year_from_fixed(146098), 401);
}

#[test]
fn test_nonneg() {
    assert_eq!(nonneg(0), 0);
    assert_eq!(nonneg(31), 31);
    assert_eq!(nonneg(i32::MAX), i32::MAX as u32);
}
