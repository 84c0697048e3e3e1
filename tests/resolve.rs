use spidy_fetch::data::{Item, Rarity};
use spidy_fetch::progress::Total;
use spidy_fetch::resolve::{classify_search, resolve, unique_ids, unique_items, SearchOutcome};
use spidy_fetch::timestamp::Timestamp;

fn item(id: u64, name: &str) -> Item {
    Item {
        id,
        name: name.to_string(),
        rarity: Rarity::Fine,
        restriction_level: 0,
        img: String::new(),
        price_last_changed: Timestamp { year: 2018, month: 1, day: 1, hour: 0, minute: 0, second: 0 },
        max_offer_unit_price: 0,
        min_sale_unit_price: 0,
        offer_availability: 0,
        sale_availability: 0,
        sale_price_change_last_hour: 0,
        offer_price_change_last_hour: 0,
        type_id: 0,
        sub_type_id: 0,
    }
}

#[test]
fn identifiers_and_search_resolve_once_each() {
    let ids = unique_ids(&vec![7, 7, 9]);
    assert_eq!(ids, vec![7, 9]);
    let looked_up: Vec<Item> = ids.iter().map(|&id| item(id, "looked up")).collect();
    let found = vec![item(7, "found")];
    let r = resolve(found, looked_up);
    let got: Vec<u64> = r.iter().map(|i| i.id).collect();
    assert_eq!(got, vec![7, 9]);
    assert_eq!(r[0].name, "found");
}

#[test]
fn duplicates_keep_the_first() {
    let r = unique_items(vec![item(3, "a"), item(1, "b"), item(3, "c"), item(2, "d"), item(1, "e")]);
    let names: Vec<&str> = r.iter().map(|i| i.name.as_str()).collect();
    assert_eq!(names, vec!["a", "b", "d"]);
    assert!(unique_items(vec![]).is_empty());
    assert!(unique_ids(&vec![]).is_empty());
}

#[test]
fn search_outcomes() {
    assert_eq!(classify_search(0), SearchOutcome::NoMatch);
    assert_eq!(classify_search(1), SearchOutcome::Unique);
    assert_eq!(classify_search(5), SearchOutcome::Ambiguous);
}

#[test]
fn total_text() {
    assert_eq!(Total::default().to_string(), "unknown");
    assert_eq!(Total::from(Some(42)).to_string(), "42");
    assert_eq!(*Total::from(None).deref(), None);
    assert_eq!(*Total::from(Some(3)).deref(), Some(3));
}
