use hazelnut::date::{date_of_day, date_of_timestamp, iso_date, Date};

#[test]
fn epoch_is_the_first_of_january_1970() {
    assert_eq!(date_of_day(0), Date { year: 1970, month: 1, day: 1 });
    assert_eq!(date_of_day(30), Date { year: 1970, month: 1, day: 31 });
    assert_eq!(date_of_day(31), Date { year: 1970, month: 2, day: 1 });
    assert_eq!(date_of_day(58), Date { year: 1970, month: 2, day: 28 });
    assert_eq!(date_of_day(59), Date { year: 1970, month: 3, day: 1 });
    assert_eq!(date_of_day(364), Date { year: 1970, month: 12, day: 31 });
    assert_eq!(date_of_day(365), Date { year: 1971, month: 1, day: 1 });
}

#[test]
fn leap_days_are_counted() {
    assert_eq!(date_of_day(789), Date { year: 1972, month: 2, day: 29 });
    assert_eq!(date_of_day(790), Date { year: 1972, month: 3, day: 1 });
    assert_eq!(date_of_day(11016), Date { year: 2000, month: 2, day: 29 });
    assert_eq!(date_of_day(19782), Date { year: 2024, month: 2, day: 29 });
    assert_eq!(date_of_day(19783), Date { year: 2024, month: 3, day: 1 });
    assert_eq!(date_of_day(47540), Date { year: 2100, month: 2, day: 28 });
    assert_eq!(date_of_day(47541), Date { year: 2100, month: 3, day: 1 });
}

#[test]
fn calendar_repeats_after_four_hundred_years() {
    assert_eq!(date_of_day(146097), Date { year: 2370, month: 1, day: 1 });
    assert_eq!(date_of_day(146096), Date { year: 2369, month: 12, day: 31 });
    assert_eq!(date_of_day(2 * 146097 + 59), Date { year: 2770, month: 3, day: 1 });
    let far = date_of_day(u64::MAX);
    assert!(far.month >= 1 && far.month <= 12 && far.day >= 1 && far.day <= 31);
}

#[test]
fn timestamps_fall_into_their_day() {
    assert_eq!(date_of_timestamp(0), Date { year: 1970, month: 1, day: 1 });
    assert_eq!(date_of_timestamp(86399), Date { year: 1970, month: 1, day: 1 });
    assert_eq!(date_of_timestamp(86400), Date { year: 1970, month: 1, day: 2 });
    assert_eq!(date_of_timestamp(1_700_000_000), Date { year: 2023, month: 11, day: 14 });
    assert_eq!(date_of_timestamp(951_782_400), Date { year: 2000, month: 2, day: 29 });
}

#[test]
fn iso_dates_are_padded() {
    assert_eq!(iso_date(&Date { year: 2024, month: 3, day: 1 }), "2024-03-01");
    assert_eq!(iso_date(&Date { year: 1970, month: 12, day: 31 }), "1970-12-31");
    assert_eq!(iso_date(&Date { year: 12345, month: 1, day: 9 }), "12345-01-09");
    assert_eq!(iso_date(&Date { year: 7, month: 10, day: 10 }), "0007-10-10");
    assert_eq!(iso_date(&date_of_timestamp(1_700_000_000)), "2023-11-14");
}
