use spidy_fetch::api::{Api, ApiFormat, ItemListings, ListingType};
use spidy_fetch::data::ItemListing;
use spidy_fetch::paging::{estimate, FetchError, PaginatedIterator, Pull};
use spidy_fetch::pacing::Backoff;
use spidy_fetch::progress::Stage;
use spidy_fetch::timestamp::Timestamp;

fn ts(day: u8) -> Timestamp {
    Timestamp { year: 2018, month: 3, day, hour: 12, minute: 0, second: 0 }
}

fn rec(day: u8, price: u64) -> ItemListing {
    ItemListing { timestamp: ts(day), unit_price: price, quantity: 1, listings: 1 }
}

fn page(page: u64, last_page: u64, results: Vec<ItemListing>) -> ItemListings {
    ItemListings {
        listing_type: ListingType::Buy,
        count: 2,
        page,
        last_page,
        total: 3,
        results,
    }
}

/// Drives a sequence against `pages` (page `k` at index `k - 1`); returns the
/// records, the pages fetched and the error that ended it, if any.
fn drive(
    seq: &mut PaginatedIterator<ItemListing>,
    pages: Vec<Result<ItemListings, FetchError>>,
) -> (Vec<ItemListing>, Vec<u64>, Option<FetchError>) {
    let mut out = vec![];
    let mut fetched = vec![];
    let mut error = None;
    let mut pages: Vec<Option<Result<ItemListings, FetchError>>> =
        pages.into_iter().map(Some).collect();
    loop {
        match seq.next() {
            Pull::Record(r) => out.push(r),
            Pull::End => break,
            Pull::Fetch { page, .. } => {
                fetched.push(page);
                let answer = pages[(page - 1) as usize].take().expect("page fetched twice");
                if let Err(e) = seq.deliver(answer) {
                    error = Some(e);
                }
            }
        }
    }
    (out, fetched, error)
}

#[test]
fn two_pages_yield_all_records_then_end() {
    let api = Api::default();
    let mut seq = api.listings(19976, ListingType::Buy);
    match seq.next() {
        Pull::Fetch { url, page, delay_ms } => {
            assert_eq!(
                url,
                "https://www.gw2spidy.com/api/v0.9/json/listings/19976/buy/1"
            );
            assert_eq!(page, 1);
            assert_eq!(delay_ms, 500);
        }
        _ => panic!("expected a fetch"),
    }
    assert_eq!(seq.deliver(Ok(page(1, 2, vec![rec(1, 10), rec(2, 20)]))), Ok(()));
    assert_eq!(seq.size_hint(), (0, Some(4)));
    assert!(matches!(seq.next(), Pull::Record(r) if r == rec(1, 10)));
    assert!(matches!(seq.next(), Pull::Record(r) if r == rec(2, 20)));
    match seq.next() {
        Pull::Fetch { url, page, delay_ms } => {
            assert_eq!(
                url,
                "https://www.gw2spidy.com/api/v0.9/json/listings/19976/buy/2"
            );
            assert_eq!(page, 2);
            assert_eq!(delay_ms, 750);
        }
        _ => panic!("expected a fetch"),
    }
    assert_eq!(seq.deliver(Ok(page(2, 2, vec![rec(3, 30)]))), Ok(()));
    assert!(matches!(seq.next(), Pull::Record(r) if r == rec(3, 30)));
    assert!(matches!(seq.next(), Pull::End));
    assert!(matches!(seq.next(), Pull::End));
}

#[test]
fn pages_of_any_size_are_concatenated() {
    let mut seq = PaginatedIterator::new("http://h/x".to_string(), Backoff::new(1));
    let pages = vec![
        Ok(page(1, 4, vec![rec(1, 1), rec(2, 2), rec(3, 3)])),
        Ok(page(2, 4, vec![])),
        Ok(page(3, 4, vec![rec(4, 4)])),
        Ok(page(4, 4, vec![rec(5, 5), rec(6, 6)])),
    ];
    let (out, fetched, error) = drive(&mut seq, pages);
    assert_eq!(
        out,
        vec![rec(1, 1), rec(2, 2), rec(3, 3), rec(4, 4), rec(5, 5), rec(6, 6)]
    );
    assert_eq!(fetched, vec![1, 2, 3, 4]);
    assert_eq!(error, None);
}

#[test]
fn single_empty_page_ends_after_one_fetch() {
    let mut seq = PaginatedIterator::new("http://h/x".to_string(), Backoff::new(1));
    let (out, fetched, error) = drive(&mut seq, vec![Ok(page(1, 1, vec![]))]);
    assert!(out.is_empty());
    assert_eq!(fetched, vec![1]);
    assert_eq!(error, None);
}

#[test]
fn failed_fetch_ends_the_sequence() {
    let mut seq = PaginatedIterator::new("http://h/x".to_string(), Backoff::new(1));
    let pages = vec![
        Ok(page(1, 3, vec![rec(1, 1)])),
        Err(FetchError::Transport("connection reset".to_string())),
        Ok(page(3, 3, vec![rec(3, 3)])),
    ];
    let (out, fetched, error) = drive(&mut seq, pages);
    assert_eq!(out, vec![rec(1, 1)]);
    assert_eq!(fetched, vec![1, 2]);
    assert_eq!(error, Some(FetchError::Transport("connection reset".to_string())));
    assert!(seq.is_failed());
    assert_eq!(
        seq.deliver(Ok(page(3, 3, vec![]))),
        Err(FetchError::Closed)
    );
    assert!(matches!(seq.next(), Pull::End));
}

#[test]
fn page_that_does_not_advance_is_inconsistent() {
    let mut seq = PaginatedIterator::new("http://h/x".to_string(), Backoff::new(1));
    let pages = vec![Ok(page(1, 3, vec![rec(1, 1)])), Ok(page(1, 3, vec![rec(1, 1)]))];
    let (out, fetched, error) = drive(&mut seq, pages);
    assert_eq!(out, vec![rec(1, 1)]);
    assert_eq!(fetched, vec![1, 2]);
    assert_eq!(
        error,
        Some(FetchError::Inconsistent { requested: 2, page: 1, last_page: 3 })
    );
}

#[test]
fn regressing_last_page_is_inconsistent() {
    let mut seq = PaginatedIterator::new("http://h/x".to_string(), Backoff::new(1));
    let pages = vec![Ok(page(1, 3, vec![])), Ok(page(2, 1, vec![rec(2, 2)]))];
    let (out, _, error) = drive(&mut seq, pages);
    assert!(out.is_empty());
    assert_eq!(
        error,
        Some(FetchError::Inconsistent { requested: 2, page: 2, last_page: 1 })
    );
}

#[test]
fn status_and_decode_errors_are_passed_on() {
    let mut seq = PaginatedIterator::new("http://h/x".to_string(), Backoff::new(1));
    let (_, _, error) = drive(&mut seq, vec![Err(FetchError::Status(503))]);
    assert_eq!(error, Some(FetchError::Status(503)));
    let mut seq = PaginatedIterator::new("http://h/x".to_string(), Backoff::new(1));
    let (_, _, error) = drive(&mut seq, vec![Err(FetchError::Decode("bad".to_string()))]);
    assert_eq!(error, Some(FetchError::Decode("bad".to_string())));
}

#[test]
fn estimate_is_set_once_from_first_page() {
    let mut seq = PaginatedIterator::new("http://h/x".to_string(), Backoff::new(1));
    assert_eq!(seq.size_hint(), (0, None));
    let _ = seq.next();
    let mut first = page(1, 2, vec![rec(1, 1)]);
    first.count = 50;
    seq.deliver(Ok(first)).unwrap();
    assert_eq!(seq.size_hint(), (0, Some(100)));
    let _ = seq.next();
    let _ = seq.next();
    let mut second = page(2, 2, vec![rec(2, 2)]);
    second.count = 7;
    seq.deliver(Ok(second)).unwrap();
    assert_eq!(seq.size_hint(), (0, Some(100)));
}

#[test]
fn estimate_saturates() {
    assert_eq!(estimate(3, 4), 12);
    assert_eq!(estimate(0, 9), 0);
    assert_eq!(estimate(u64::MAX, 2), usize::MAX);
}

fn run_entity(fail_on_page: Option<u64>) -> Stage {
    let api = Api::new(ApiFormat::Json, 0);
    let mut stage = Stage::Pending.advance(true);
    assert_eq!(stage, Stage::FetchingBuy);
    for side in [ListingType::Buy, ListingType::Sell] {
        let mut seq = api.listings(1, side);
        let pages: Vec<Result<ItemListings, FetchError>> = (1..=2)
            .map(|p| {
                if Some(p) == fail_on_page {
                    Err(FetchError::Transport("timed out".to_string()))
                } else {
                    Ok(page(p, 2, vec![rec(p as u8, p)]))
                }
            })
            .collect();
        let (_, _, error) = drive(&mut seq, pages);
        stage = stage.advance(error.is_none());
        if stage.is_final() {
            return stage;
        }
    }
    assert_eq!(stage, Stage::Merging);
    stage.advance(true)
}

#[test]
fn failed_entity_does_not_stop_the_next() {
    let x = run_entity(Some(2));
    assert_eq!(x, Stage::Failed);
    let y = run_entity(None);
    assert_eq!(y, Stage::Written);
}

#[test]
fn stages_advance_in_order() {
    assert_eq!(Stage::Pending.advance(true), Stage::FetchingBuy);
    assert_eq!(Stage::FetchingBuy.advance(true), Stage::FetchingSell);
    assert_eq!(Stage::FetchingSell.advance(true), Stage::Merging);
    assert_eq!(Stage::Merging.advance(true), Stage::Written);
    assert_eq!(Stage::FetchingSell.advance(false), Stage::Failed);
    assert_eq!(Stage::Written.advance(false), Stage::Written);
    assert_eq!(Stage::Failed.advance(true), Stage::Failed);
    assert!(!Stage::Merging.is_final());
}
