use tilecap::calendar::{civil_from_days, is_leap, stem_for_time, timestamp_stem};

#[test]
fn is_leap_known() {
    assert!(is_leap(2000));
    assert!(!is_leap(1900));
    assert!(is_leap(2024));
    assert!(!is_leap(2023));
    assert!(is_leap(2400));
    assert!(!is_leap(2100));
}

#[test]
fn timestamp_stem_length() {
    let stem = timestamp_stem();
    assert!(stem.starts_with("Screenshot_"));
    assert_eq!(stem.len(), 26);
}

#[test]
fn timestamp_stem_contains_digits() {
    let stem = timestamp_stem();
    let suffix = stem.strip_prefix("Screenshot_").unwrap();
    assert_eq!(suffix.len(), 15);
    assert!(suffix.chars().all(|c| c.is_ascii_digit() || c == '_'));
}

#[test]
fn civil_dates() {
    assert_eq!(civil_from_days(0), (1970, 1, 1));
    assert_eq!(civil_from_days(31), (1970, 2, 1));
    assert_eq!(civil_from_days(365), (1971, 1, 1));
    assert_eq!(civil_from_days(789), (1972, 2, 29));
    assert_eq!(civil_from_days(10957), (2000, 1, 1));
    assert_eq!(civil_from_days(11016), (2000, 2, 29));
    assert_eq!(civil_from_days(19782), (2024, 2, 29));
    assert_eq!(civil_from_days(19723), (2024, 1, 1));
    assert_eq!(civil_from_days(20088), (2024, 12, 31));
}

#[test]
fn stems_for_known_times() {
    assert_eq!(stem_for_time(0), "Screenshot_19700101_000100");
    // 2024-02-29 13:45:07 UTC: the pair after the hour is the month.
    assert_eq!(stem_for_time(1709214307), "Screenshot_20240229_130207");
    // 2000-12-31 23:59:59 UTC.
    assert_eq!(stem_for_time(978307199), "Screenshot_20001231_231259");
}

#[test]
fn stem_shape_over_many_times() {
    let mut t: u64 = 0;
    while t < 253_402_300_800 {
        let s = stem_for_time(t);
        assert_eq!(s.len(), 26);
        let suffix = s.strip_prefix("Screenshot_").unwrap();
        for (i, c) in suffix.chars().enumerate() {
            if i == 8 {
                assert_eq!(c, '_');
            } else {
                assert!(c.is_ascii_digit());
            }
        }
        t += 1_234_567_891;
    }
}

#[test]
fn stem_past_year_9999_is_longer() {
    // 10000-01-01: the year takes five digits.
    assert_eq!(stem_for_time(253_402_300_800).len(), 27);
}
