//! Paginated retrieval of market-price records: request pacing, a pull-based
//! page sequence, entity resolution and the chronological merge of the buy and
//! sell sides of one entity.
use vstd::prelude::*;

pub mod api;
pub mod data;
pub mod merge;
pub mod pacing;
pub mod paging;
pub mod progress;
pub mod resolve;
pub mod text;
pub mod timestamp;

verus! {

} // verus!
