//! Entities and their price records.
use vstd::prelude::*;

use crate::timestamp::Timestamp;

verus! {

/// The rarity classification of an entity.
#[derive(Clone, Copy, Debug, PartialEq, Eq, Structural)]
pub enum Rarity {
    Junk,
    Common,
    Fine,
    Masterwork,
    Rare,
    Exotic,
    Ascended,
    Legendary,
}

/// The rarity that the number `n` stands for, if any.
pub open spec fn rarity_of(n: u64) -> Option<Rarity> {
    if n == 0 { Some(Rarity::Junk) }
    else if n == 1 { Some(Rarity::Common) }
    else if n == 2 { Some(Rarity::Fine) }
    else if n == 3 { Some(Rarity::Masterwork) }
    else if n == 4 { Some(Rarity::Rare) }
    else if n == 5 { Some(Rarity::Exotic) }
    else if n == 6 { Some(Rarity::Ascended) }
    else if n == 7 { Some(Rarity::Legendary) }
    else { None }
}

/// The number that stands for rarity `r`.
pub open spec fn rarity_number(r: Rarity) -> u64 {
    match r {
        Rarity::Junk => 0,
        Rarity::Common => 1,
        Rarity::Fine => 2,
        Rarity::Masterwork => 3,
        Rarity::Rare => 4,
        Rarity::Exotic => 5,
        Rarity::Ascended => 6,
        Rarity::Legendary => 7,
    }
}

impl Rarity {
    /// Decodes a rarity; an unknown number is an error, not a default.
    pub fn from_number(n: u64) -> (r: Option<Rarity>)
        ensures
            r == rarity_of(n),
    {
        if n == 0 { Some(Rarity::Junk) }
        else if n == 1 { Some(Rarity::Common) }
        else if n == 2 { Some(Rarity::Fine) }
        else if n == 3 { Some(Rarity::Masterwork) }
        else if n == 4 { Some(Rarity::Rare) }
        else if n == 5 { Some(Rarity::Exotic) }
        else if n == 6 { Some(Rarity::Ascended) }
        else if n == 7 { Some(Rarity::Legendary) }
        else { None }
    }

    /// The number that stands for this rarity.
    pub fn number(&self) -> (r: u64)
        ensures
            r == rarity_number(*self),
            rarity_of(r) == Some(*self),
    {
        match self {
            Rarity::Junk => 0,
            Rarity::Common => 1,
            Rarity::Fine => 2,
            Rarity::Masterwork => 3,
            Rarity::Rare => 4,
            Rarity::Exotic => 5,
            Rarity::Ascended => 6,
            Rarity::Legendary => 7,
        }
    }
}

/// A priced entity; `id` is its identity.
#[derive(Debug, PartialEq, Eq)]
pub struct Item {
    pub id: u64,
    pub name: String,
    pub rarity: Rarity,
    pub restriction_level: u32,
    pub img: String,
    pub price_last_changed: Timestamp,
    pub max_offer_unit_price: u64,
    pub min_sale_unit_price: u64,
    pub offer_availability: u64,
    pub sale_availability: u64,
    pub sale_price_change_last_hour: i32,
    pub offer_price_change_last_hour: i32,
    pub type_id: u64,
    pub sub_type_id: u64,
}

/// One historical market data point of one side of an entity.
#[derive(Clone, Copy, Debug, PartialEq, Eq, Structural)]
pub struct ItemListing {
    pub timestamp: Timestamp,
    pub unit_price: u64,
    pub quantity: u64,
    pub listings: u64,
}

} // verus!
