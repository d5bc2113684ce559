use homebank_db::date::{epoch_plus, Date, MAX_DATE_OFFSET};
use homebank_db::numeric::{parse_amount, parse_u32, parse_usize, text_eq};

#[test]
fn amounts_in_hundredths() {
    assert_eq!(parse_amount("-50.0"), Some(-5000));
    assert_eq!(parse_amount("200"), Some(20000));
    assert_eq!(parse_amount("+3.5"), Some(350));
    assert_eq!(parse_amount(".25"), Some(25));
    assert_eq!(parse_amount("7."), Some(700));
    assert_eq!(parse_amount("1.005"), Some(101));
    assert_eq!(parse_amount("1.0049"), Some(100));
    assert_eq!(parse_amount("-12.339999999"), Some(-1234));
    assert_eq!(parse_amount("10000000000000"), Some(1_000_000_000_000_000));
    assert_eq!(parse_amount("10000000000001"), None);
    assert_eq!(parse_amount(""), None);
    assert_eq!(parse_amount("-"), None);
    assert_eq!(parse_amount("."), None);
    assert_eq!(parse_amount("1e3"), None);
    assert_eq!(parse_amount("abc"), None);
}

#[test]
fn whole_numbers() {
    assert_eq!(parse_usize("42"), Some(42));
    assert_eq!(parse_usize("+7"), Some(7));
    assert_eq!(parse_usize("007"), Some(7));
    assert_eq!(parse_usize(""), None);
    assert_eq!(parse_usize("+"), None);
    assert_eq!(parse_usize("-1"), None);
    assert_eq!(parse_usize("18446744073709551615"), Some(18446744073709551615));
    assert_eq!(parse_usize("18446744073709551616"), None);
    assert_eq!(parse_u32("4294967295"), Some(4294967295));
    assert_eq!(parse_u32("4294967296"), None);
}

#[test]
fn text_equality() {
    assert!(text_eq("abc", "abc"));
    assert!(!text_eq("abc", "abd"));
    assert!(!text_eq("ab", "abc"));
}

#[test]
fn day_offsets_round_trip() {
    for d in [0u32, 1, 59, 60, 365, 366, 730485, 737860, 1_000_000, MAX_DATE_OFFSET] {
        let date = epoch_plus(d).unwrap();
        assert_eq!(date.offset(), d as i64);
    }
}

#[test]
fn day_offsets_are_dates() {
    assert_eq!(epoch_plus(0), Some(Date { year: 0, month: 1, day: 1 }));
    assert_eq!(epoch_plus(59), Some(Date { year: 0, month: 2, day: 29 }));
    assert_eq!(epoch_plus(737860), Some(Date { year: 2020, month: 3, day: 11 }));
    assert_eq!(epoch_plus(MAX_DATE_OFFSET + 1), None);
}

#[test]
fn month_boundaries() {
    let d = Date { year: 2021, month: 12, day: 17 };
    assert_eq!(d.first_of_month(), Date { year: 2021, month: 12, day: 1 });
    assert_eq!(d.first_of_next_month(), Date { year: 2022, month: 1, day: 1 });
    let d = Date { year: 2020, month: 2, day: 29 };
    assert_eq!(d.first_of_next_month(), Date { year: 2020, month: 3, day: 1 });
    assert!(Date { year: 2020, month: 2, day: 29 }.is_before(&Date { year: 2020, month: 3, day: 1 }));
    assert!(!Date { year: 2020, month: 3, day: 1 }.is_before(&Date { year: 2020, month: 3, day: 1 }));
}
