use spidy_fetch::api::{Api, ApiFormat, ListingType};
use spidy_fetch::paging::Pull;
use spidy_fetch::text::decimal;

fn first_url<T>(seq: &mut spidy_fetch::paging::PaginatedIterator<T>) -> String {
    match seq.next() {
        Pull::Fetch { url, .. } => url,
        _ => panic!("expected a fetch"),
    }
}

#[test]
fn method_urls() {
    let api = Api::new(ApiFormat::Json, 1);
    assert_eq!(
        api.api_method_url("items"),
        "https://www.gw2spidy.com/api/v0.9/json/items"
    );
    let csv = Api::new(ApiFormat::Csv, 1);
    assert_eq!(
        csv.api_method_url("item"),
        "https://www.gw2spidy.com/api/v0.9/csv/item"
    );
}

#[test]
fn sequence_urls() {
    let api = Api::default();
    assert_eq!(
        first_url(&mut api.listings(42, ListingType::Sell)),
        "https://www.gw2spidy.com/api/v0.9/json/listings/42/sell/1"
    );
    assert_eq!(
        first_url(&mut api.item_search("Mystic Coin")),
        "https://www.gw2spidy.com/api/v0.9/json/item-search/Mystic Coin/1"
    );
    assert_eq!(
        first_url(&mut api.items()),
        "https://www.gw2spidy.com/api/v0.9/json/items/all/1"
    );
    assert_eq!(
        api.item_url(19721),
        "https://www.gw2spidy.com/api/v0.9/json/item/19721"
    );
}

#[test]
fn names_of_formats_and_sides() {
    assert_eq!(ApiFormat::Csv.to_string(), "csv");
    assert_eq!(ApiFormat::Json.to_string(), "json");
    assert_eq!(ListingType::Buy.to_string(), "buy");
    assert_eq!(ListingType::Sell.to_string(), "sell");
}

#[test]
fn decimal_text() {
    assert_eq!(decimal(0), "0");
    assert_eq!(decimal(7), "7");
    assert_eq!(decimal(10), "10");
    assert_eq!(decimal(1234567890), "1234567890");
    assert_eq!(decimal(u64::MAX), "18446744073709551615");
}

#[test]
fn backoff_of_api_uses_its_interval() {
    let api = Api::new(ApiFormat::Json, 3);
    let mut b = api.new_backoff();
    assert_eq!(b.max_delay(), 3000);
    assert_eq!(b.next_delay(), 500);
}
