use spidy_fetch::data::Rarity;
use spidy_fetch::timestamp::Timestamp;

#[test]
fn parses_the_fixed_format() {
    assert_eq!(
        Timestamp::parse("2018-07-14 09:05:59 UTC"),
        Some(Timestamp { year: 2018, month: 7, day: 14, hour: 9, minute: 5, second: 59 })
    );
}

#[test]
fn rejects_other_shapes() {
    assert_eq!(Timestamp::parse(""), None);
    assert_eq!(Timestamp::parse("2018-07-14 09:05:59"), None);
    assert_eq!(Timestamp::parse("2018-07-14T09:05:59 UTC"), None);
    assert_eq!(Timestamp::parse("2018-07-14 09:05:59 GMT"), None);
    assert_eq!(Timestamp::parse("2018-0a-14 09:05:59 UTC"), None);
}

#[test]
fn rejects_impossible_dates_and_times() {
    assert_eq!(Timestamp::parse("2018-13-01 00:00:00 UTC"), None);
    assert_eq!(Timestamp::parse("2018-00-01 00:00:00 UTC"), None);
    assert_eq!(Timestamp::parse("2018-04-31 00:00:00 UTC"), None);
    assert_eq!(Timestamp::parse("2018-02-29 00:00:00 UTC"), None);
    assert!(Timestamp::parse("2016-02-29 00:00:00 UTC").is_some());
    assert!(Timestamp::parse("2000-02-29 00:00:00 UTC").is_some());
    assert_eq!(Timestamp::parse("1900-02-29 00:00:00 UTC"), None);
    assert_eq!(Timestamp::parse("2018-01-01 24:00:00 UTC"), None);
    assert_eq!(Timestamp::parse("2018-01-01 00:60:00 UTC"), None);
    assert_eq!(Timestamp::parse("2018-01-01 00:00:60 UTC"), None);
}

#[test]
fn orders_by_time() {
    let a = Timestamp::parse("2018-01-01 00:00:00 UTC").unwrap();
    let b = Timestamp::parse("2018-01-01 00:00:01 UTC").unwrap();
    let c = Timestamp::parse("2017-12-31 23:59:59 UTC").unwrap();
    assert!(a.not_later_than(&b));
    assert!(!b.not_later_than(&a));
    assert!(c.not_later_than(&a));
    assert!(a.not_later_than(&a));
}

#[test]
fn rarity_numbers() {
    assert_eq!(Rarity::from_number(0), Some(Rarity::Junk));
    assert_eq!(Rarity::from_number(4), Some(Rarity::Rare));
    assert_eq!(Rarity::from_number(7), Some(Rarity::Legendary));
    assert_eq!(Rarity::from_number(8), None);
    assert_eq!(Rarity::Exotic.number(), 5);
}
