//! The remote price service: request addresses, page envelopes and the
//! sequences that walk its paginated endpoints.
use vstd::prelude::*;
use vstd::string::StringExecFns;

use crate::data::{Item, ItemListing};
use crate::pacing::{backoff_start, cap_of_secs, Backoff};
use crate::paging::{
    cursor_start, estimate, estimate_of, PageView, PaginatedIterator, PaginatedResult,
};
use crate::text::{decimal, decimal_spec};

verus! {

/// `a/b`.
pub open spec fn slash(a: Seq<char>, b: Seq<char>) -> Seq<char> {
    a + seq!['/'] + b
}

fn append_segment(s: &mut String, segment: &str)
    ensures
        final(s)@ == slash(old(s)@, segment@),
{
    s.append("/");
    s.append(segment);
    proof {
        reveal_strlit("/");
    }
    assert(final(s)@ =~= slash(old(s)@, segment@));
}

/// The encoding the service is asked to answer in.
#[derive(Clone, Copy, Debug, PartialEq, Eq, Structural)]
pub enum ApiFormat {
    Csv,
    Json,
}

pub open spec fn format_text(f: ApiFormat) -> Seq<char> {
    match f {
        ApiFormat::Csv => "csv"@,
        ApiFormat::Json => "json"@,
    }
}

impl ApiFormat {
    /// The name of the encoding as it stands in request addresses.
    pub fn to_string(&self) -> (r: String)
        ensures
            r@ == format_text(*self),
    {
        match self {
            ApiFormat::Csv => String::from_str("csv"),
            ApiFormat::Json => String::from_str("json"),
        }
    }
}

/// The side of the market a price record belongs to.
#[derive(Clone, Copy, Debug, PartialEq, Eq, Structural)]
pub enum ListingType {
    Sell,
    Buy,
}

pub open spec fn listing_type_text(t: ListingType) -> Seq<char> {
    match t {
        ListingType::Sell => "sell"@,
        ListingType::Buy => "buy"@,
    }
}

impl ListingType {
    /// The name of the side as it stands in request addresses and output.
    pub fn to_string(&self) -> (r: String)
        ensures
            r@ == listing_type_text(*self),
    {
        match self {
            ListingType::Sell => String::from_str("sell"),
            ListingType::Buy => String::from_str("buy"),
        }
    }
}

/// A client of the price service: where it lives, which version and encoding
/// are asked for, and the longest pause between requests.
pub struct Api {
    version: String,
    format: ApiFormat,
    base_url: String,
    max_interval: u64,
}

/// The address of the service.
pub open spec fn service_root() -> Seq<char> {
    "https://www.gw2spidy.com/api"@
}

/// The version of the service asked for.
pub open spec fn service_version() -> Seq<char> {
    "v0.9"@
}

impl Api {
    pub closed spec fn spec_version(&self) -> Seq<char> {
        self.version@
    }

    pub closed spec fn spec_format(&self) -> ApiFormat {
        self.format
    }

    pub closed spec fn spec_base_url(&self) -> Seq<char> {
        self.base_url@
    }

    pub closed spec fn spec_max_interval(&self) -> u64 {
        self.max_interval
    }

    /// The address of endpoint `method`.
    pub open spec fn method_url(&self, method: Seq<char>) -> Seq<char> {
        slash(
            slash(slash(self.spec_base_url(), self.spec_version()), format_text(self.spec_format())),
            method,
        )
    }

    /// A client of the service in encoding `format`, pausing at most
    /// `max_interval` seconds between requests.
    pub fn new(format: ApiFormat, max_interval: u64) -> (r: Self)
        ensures
            r.spec_version() == service_version(),
            r.spec_base_url() == service_root(),
            r.spec_format() == format,
            r.spec_max_interval() == max_interval,
    {
        Api {
            version: String::from_str("v0.9"),
            format,
            base_url: String::from_str("https://www.gw2spidy.com/api"),
            max_interval,
        }
    }

    /// A fresh pacing policy for one sequence.
    pub fn new_backoff(&self) -> (r: Backoff)
        ensures
            r.wf(),
            r.view() == backoff_start(cap_of_secs(self.spec_max_interval() as nat)),
    {
        Backoff::new(self.max_interval)
    }

    /// The address of endpoint `method`.
    pub fn api_method_url(&self, method: &str) -> (r: String)
        ensures
            r@ == self.method_url(method@),
    {
        let mut r = self.base_url.clone();
        append_segment(&mut r, self.version.as_str());
        let f = self.format.to_string();
        append_segment(&mut r, f.as_str());
        append_segment(&mut r, method);
        r
    }

    /// A sequence over the pages under `base_url`, with its own pacing.
    pub fn paginate_api_lazy<T>(&self, base_url: String) -> (r: PaginatedIterator<T>)
        ensures
            r.wf(),
            r.view() == cursor_start::<T>(
                base_url@,
                backoff_start(cap_of_secs(self.spec_max_interval() as nat)),
            ),
    {
        PaginatedIterator::new(base_url, self.new_backoff())
    }

    /// The price records of one side of entity `item_id`, newest first.
    pub fn listings(&self, item_id: u64, listing_type: ListingType) -> (r: PaginatedIterator<
        ItemListing,
    >)
        ensures
            r.wf(),
            r.view() == cursor_start::<ItemListing>(
                slash(
                    slash(self.method_url("listings"@), decimal_spec(item_id as nat)),
                    listing_type_text(listing_type),
                ),
                backoff_start(cap_of_secs(self.spec_max_interval() as nat)),
            ),
    {
        let mut url = self.api_method_url("listings");
        let id = decimal(item_id);
        append_segment(&mut url, id.as_str());
        let side = listing_type.to_string();
        append_segment(&mut url, side.as_str());
        self.paginate_api_lazy(url)
    }

    /// The entities that match the search term `search`.
    pub fn item_search(&self, search: &str) -> (r: PaginatedIterator<Item>)
        ensures
            r.wf(),
            r.view() == cursor_start::<Item>(
                slash(self.method_url("item-search"@), search@),
                backoff_start(cap_of_secs(self.spec_max_interval() as nat)),
            ),
    {
        let mut url = self.api_method_url("item-search");
        append_segment(&mut url, search);
        self.paginate_api_lazy(url)
    }

    /// All entities of the catalog.
    pub fn items(&self) -> (r: PaginatedIterator<Item>)
        ensures
            r.wf(),
            r.view() == cursor_start::<Item>(
                slash(self.method_url("items"@), "all"@),
                backoff_start(cap_of_secs(self.spec_max_interval() as nat)),
            ),
    {
        let mut url = self.api_method_url("items");
        append_segment(&mut url, "all");
        self.paginate_api_lazy(url)
    }

    /// The address of the single-entity lookup of `id`.
    pub fn item_url(&self, id: u64) -> (r: String)
        ensures
            r@ == slash(self.method_url("item"@), decimal_spec(id as nat)),
    {
        let mut url = self.api_method_url("item");
        let n = decimal(id);
        append_segment(&mut url, n.as_str());
        url
    }
}

impl Default for Api {
    /// A client asking for JSON, pausing at most one second between requests.
    fn default() -> (r: Self)
        ensures
            r.spec_version() == service_version(),
            r.spec_base_url() == service_root(),
            r.spec_format() == ApiFormat::Json,
            r.spec_max_interval() == 1,
    {
        Self::new(ApiFormat::Json, 1)
    }
}

/// One page of entities.
#[derive(Debug, PartialEq, Eq)]
pub struct Items {
    pub count: u64,
    pub page: u64,
    pub last_page: u64,
    pub results: Vec<Item>,
}

impl PaginatedResult<Item> for Items {
    open spec fn page_view(&self) -> PageView<Item> {
        PageView {
            page: self.page,
            last_page: self.last_page,
            count: Some(estimate_of(self.count as nat, self.last_page as nat)),
            results: self.results@,
        }
    }

    fn page(&self) -> (r: u64) {
        self.page
    }

    fn last_page(&self) -> (r: u64) {
        self.last_page
    }

    fn results(self) -> (r: Vec<Item>) {
        self.results
    }

    fn count(&self) -> (r: Option<usize>) {
        Some(estimate(self.count, self.last_page))
    }
}

/// One page of price records of one side of an entity.
#[derive(Debug, PartialEq, Eq)]
pub struct ItemListings {
    pub listing_type: ListingType,
    pub count: u64,
    pub page: u64,
    pub last_page: u64,
    pub total: u64,
    pub results: Vec<ItemListing>,
}

impl PaginatedResult<ItemListing> for ItemListings {
    open spec fn page_view(&self) -> PageView<ItemListing> {
        PageView {
            page: self.page,
            last_page: self.last_page,
            count: Some(estimate_of(self.count as nat, self.last_page as nat)),
            results: self.results@,
        }
    }

    fn page(&self) -> (r: u64) {
        self.page
    }

    fn last_page(&self) -> (r: u64) {
        self.last_page
    }

    fn results(self) -> (r: Vec<ItemListing>) {
        self.results
    }

    fn count(&self) -> (r: Option<usize>) {
        Some(estimate(self.count, self.last_page))
    }
}

} // verus!
