use pdw_rust::date::{parse_date_chars, serial_to_date, date_to_serial, weekday_index, Date};
use pdw_rust::money::{amount_chars, cents_chars, parse_amount, round_to_cents};

fn chars(s: &str) -> Vec<char> {
    s.chars().collect()
}

#[test]
fn test_date_parsing() {
    let date = parse_date_chars(&chars("2024-01-15"));
    assert!(date.is_some());

    let date = parse_date_chars(&chars("15/01/2024"));
    assert!(date.is_some());

    let date = parse_date_chars(&chars("invalid"));
    assert!(date.is_none());
}

#[test]
fn test_date_format_order() {
    // day/month/year is tried before month/day/year
    let d = parse_date_chars(&chars("03/04/2024")).unwrap();
    assert_eq!(d, Date { year: 2024, month: 4, day: 3 });
    // an impossible day/month reading falls through to month/day/year
    let d = parse_date_chars(&chars("04/27/2024")).unwrap();
    assert_eq!(d, Date { year: 2024, month: 4, day: 27 });
    // dashed day-month-year
    let d = parse_date_chars(&chars("15-01-2024")).unwrap();
    assert_eq!(d, Date { year: 2024, month: 1, day: 15 });
    // leap-year check
    assert!(parse_date_chars(&chars("2023-02-29")).is_none());
    assert!(parse_date_chars(&chars("2024-02-29")).is_some());
}

#[test]
fn test_day_serials() {
    // the epoch convention puts 1900-01-01 at serial 2
    let d = serial_to_date(2).unwrap();
    assert_eq!(d, Date { year: 1900, month: 1, day: 1 });
    // a modern date round-trips
    let d = Date { year: 2024, month: 1, day: 15 };
    let s = date_to_serial(&d);
    assert_eq!(s, 45306);
    assert_eq!(serial_to_date(s as i64).unwrap(), d);
    // out of range
    assert!(serial_to_date(1).is_none());
    assert!(serial_to_date(-5).is_none());
}

#[test]
fn test_weekday_index() {
    // 2024-01-15 was a Monday, 2024-01-20 a Saturday
    assert_eq!(weekday_index(&Date { year: 2024, month: 1, day: 15 }), 2);
    assert_eq!(weekday_index(&Date { year: 2024, month: 1, day: 20 }), 0);
}

#[test]
fn test_rounding_half_away_from_zero() {
    // micro-units in, cents out
    assert_eq!(round_to_cents(100_555_000), 10056);
    assert_eq!(round_to_cents(50_999_000), 5100);
    assert_eq!(round_to_cents(-100_555_000), -10056);
    assert_eq!(round_to_cents(10_050_00), 101); // 1.005 rounds up
    assert_eq!(round_to_cents(0), 0);
}

#[test]
fn test_amount_text_round_trip() {
    let rendered = amount_chars(100_555_000, '.');
    assert_eq!(rendered, chars("100.555"));
    assert_eq!(parse_amount(&rendered, '.'), Some(100_555_000));

    let rendered = amount_chars(-42_000_000, '.');
    assert_eq!(rendered, chars("-42"));
    assert_eq!(parse_amount(&rendered, '.'), Some(-42_000_000));

    // the comma localisation round-trips the same way
    let rendered = amount_chars(1_500_000, ',');
    assert_eq!(rendered, chars("1,5"));
    assert_eq!(parse_amount(&rendered, ','), Some(1_500_000));
}

#[test]
fn test_cents_text() {
    assert_eq!(cents_chars(10056, '.'), chars("100.56"));
    assert_eq!(cents_chars(5100, '.'), chars("51.00"));
    assert_eq!(cents_chars(-7, ','), chars("-0,07"));
}

#[test]
fn test_parse_amount_rejects_malformed() {
    assert_eq!(parse_amount(&chars(""), '.'), None);
    assert_eq!(parse_amount(&chars("12.34.56"), '.'), None);
    assert_eq!(parse_amount(&chars("abc"), '.'), None);
    assert_eq!(parse_amount(&chars("1."), '.'), None);
    assert_eq!(parse_amount(&chars(".5"), '.'), None);
}
