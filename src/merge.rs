//! The dual-stream merge: the buy side and the sell side of one entity, each
//! walked oldest first, interleaved into one chronological stream.
use itertools::Itertools;
use vstd::multiset::Multiset;
use vstd::prelude::*;
use vstd::seq_lib::lemma_multiset_commutative;

use crate::api::ListingType;
use crate::data::ItemListing;
use crate::timestamp::{lemma_ts_order, ts_le, Timestamp};

verus! {

/// A price record tagged with the side it came from.
#[derive(Clone, Copy, Debug, PartialEq, Eq, Structural)]
pub struct ListingOutput {
    pub timestamp: Timestamp,
    pub listing_type: ListingType,
    pub unit_price: u64,
    pub quantity: u64,
    pub listings: u64,
}

pub open spec fn output_of(l: ItemListing, t: ListingType) -> ListingOutput {
    ListingOutput {
        timestamp: l.timestamp,
        listing_type: t,
        unit_price: l.unit_price,
        quantity: l.quantity,
        listings: l.listings,
    }
}

impl ListingOutput {
    /// `listing`, tagged with side `listing_type`.
    pub fn from_listing(listing: &ItemListing, listing_type: ListingType) -> (r: Self)
        ensures
            r == output_of(*listing, listing_type),
    {
        ListingOutput {
            timestamp: listing.timestamp,
            listing_type,
            unit_price: listing.unit_price,
            quantity: listing.quantity,
            listings: listing.listings,
        }
    }

    /// `self` is not later than `other`.
    pub fn not_later_than(&self, other: &ListingOutput) -> (r: bool)
        ensures
            r == ts_le(self.timestamp, other.timestamp),
    {
        self.timestamp.not_later_than(&other.timestamp)
    }
}

/// The two-pointer merge: the earlier head goes first, the left head on a tie.
pub open spec fn merge_spec(a: Seq<ListingOutput>, b: Seq<ListingOutput>) -> Seq<ListingOutput>
    decreases a.len() + b.len(),
{
    if a.len() == 0 {
        b
    } else if b.len() == 0 {
        a
    } else if ts_le(a[0].timestamp, b[0].timestamp) {
        seq![a[0]] + merge_spec(a.drop_first(), b)
    } else {
        seq![b[0]] + merge_spec(a, b.drop_first())
    }
}

/// Relies on itertools::Itertools::merge_by: while both inputs have items, it
/// takes the left head when the predicate holds of the two heads and the right
/// head otherwise; then the rest of the input that is left.
#[verifier::external_body]
fn merge_by_time(left: Vec<ListingOutput>, right: Vec<ListingOutput>) -> (r: Vec<ListingOutput>)
    ensures
        r@ == merge_spec(left@, right@),
{
    left.into_iter().merge_by(right, |a, b| a.not_later_than(b)).collect()
}

/// Each record is not later than the ones after it.
pub open spec fn ascending(s: Seq<ListingOutput>) -> bool {
    forall|i: int, j: int| 0 <= i < j < s.len() ==> ts_le(s[i].timestamp, s[j].timestamp)
}

/// Each record is not earlier than the ones after it.
pub open spec fn newest_first(s: Seq<ItemListing>) -> bool {
    forall|i: int, j: int| 0 <= i < j < s.len() ==> ts_le(s[j].timestamp, s[i].timestamp)
}

/// The records of `s` that belong to side `t`, in order.
pub open spec fn only_side(s: Seq<ListingOutput>, t: ListingType) -> Seq<ListingOutput>
    decreases s.len(),
{
    if s.len() == 0 {
        Seq::empty()
    } else {
        (if s[0].listing_type == t { seq![s[0]] } else { Seq::empty() }) + only_side(
            s.drop_first(),
            t,
        )
    }
}

pub open spec fn all_of_side(s: Seq<ListingOutput>, t: ListingType) -> bool {
    forall|i: int| 0 <= i < s.len() ==> #[trigger] s[i].listing_type == t
}

/// `l`, walked oldest first, each record tagged with side `t`.
pub open spec fn oldest_first_tagged(l: Seq<ItemListing>, t: ListingType) -> Seq<ListingOutput> {
    Seq::new(l.len(), |i: int| output_of(l[l.len() - 1 - i], t))
}

pub open spec fn not_before_all(t: Timestamp, s: Seq<ListingOutput>) -> bool {
    forall|i: int| 0 <= i < s.len() ==> ts_le(t, #[trigger] s[i].timestamp)
}

proof fn lemma_merge_bound(t: Timestamp, a: Seq<ListingOutput>, b: Seq<ListingOutput>)
    requires
        not_before_all(t, a),
        not_before_all(t, b),
    ensures
        not_before_all(t, merge_spec(a, b)),
    decreases a.len() + b.len(),
{
    if a.len() > 0 && b.len() > 0 {
        if ts_le(a[0].timestamp, b[0].timestamp) {
            lemma_merge_bound(t, a.drop_first(), b);
            assert(a[0] == a[0]);
            let m = merge_spec(a, b);
            assert forall|i: int| 0 <= i < m.len() implies ts_le(t, #[trigger] m[i].timestamp) by {
                if i > 0 {
                    assert(m[i] == merge_spec(a.drop_first(), b)[i - 1]);
                }
            }
        } else {
            lemma_merge_bound(t, a, b.drop_first());
            let m = merge_spec(a, b);
            assert forall|i: int| 0 <= i < m.len() implies ts_le(t, #[trigger] m[i].timestamp) by {
                if i > 0 {
                    assert(m[i] == merge_spec(a, b.drop_first())[i - 1]);
                }
            }
        }
    }
}

proof fn lemma_merge_ascending(a: Seq<ListingOutput>, b: Seq<ListingOutput>)
    requires
        ascending(a),
        ascending(b),
    ensures
        ascending(merge_spec(a, b)),
    decreases a.len() + b.len(),
{
    if a.len() > 0 && b.len() > 0 {
        let m = merge_spec(a, b);
        if ts_le(a[0].timestamp, b[0].timestamp) {
            let rest = merge_spec(a.drop_first(), b);
            lemma_merge_ascending(a.drop_first(), b);
            assert forall|i: int| 0 <= i < b.len() implies ts_le(
                a[0].timestamp,
                #[trigger] b[i].timestamp,
            ) by {
                if i > 0 {
                    lemma_ts_order(a[0].timestamp, b[0].timestamp, b[i].timestamp);
                }
            }
            assert(not_before_all(a[0].timestamp, a.drop_first()));
            lemma_merge_bound(a[0].timestamp, a.drop_first(), b);
            assert forall|i: int, j: int| 0 <= i < j < m.len() implies ts_le(
                m[i].timestamp,
                m[j].timestamp,
            ) by {
                assert(m[j] == rest[j - 1]);
                if i > 0 {
                    assert(m[i] == rest[i - 1]);
                }
            }
        } else {
            let rest = merge_spec(a, b.drop_first());
            lemma_merge_ascending(a, b.drop_first());
            lemma_ts_order(a[0].timestamp, b[0].timestamp, b[0].timestamp);
            assert forall|i: int| 0 <= i < a.len() implies ts_le(
                b[0].timestamp,
                #[trigger] a[i].timestamp,
            ) by {
                if i > 0 {
                    lemma_ts_order(b[0].timestamp, a[0].timestamp, a[i].timestamp);
                }
            }
            assert(not_before_all(b[0].timestamp, b.drop_first()));
            lemma_merge_bound(b[0].timestamp, a, b.drop_first());
            assert forall|i: int, j: int| 0 <= i < j < m.len() implies ts_le(
                m[i].timestamp,
                m[j].timestamp,
            ) by {
                assert(m[j] == rest[j - 1]);
                if i > 0 {
                    assert(m[i] == rest[i - 1]);
                }
            }
        }
    }
}

proof fn lemma_merge_multiset(a: Seq<ListingOutput>, b: Seq<ListingOutput>)
    ensures
        merge_spec(a, b).to_multiset() =~= a.to_multiset().add(b.to_multiset()),
        merge_spec(a, b).len() == a.len() + b.len(),
    decreases a.len() + b.len(),
{
    broadcast use vstd::seq_lib::group_to_multiset_ensures;

    if a.len() == 0 {
        assert(a.to_multiset() =~= Multiset::empty());
    } else if b.len() == 0 {
        assert(b.to_multiset() =~= Multiset::empty());
    } else if ts_le(a[0].timestamp, b[0].timestamp) {
        lemma_merge_multiset(a.drop_first(), b);
        lemma_multiset_commutative(seq![a[0]], merge_spec(a.drop_first(), b));
        lemma_multiset_commutative(seq![a[0]], a.drop_first());
        assert(seq![a[0]] + a.drop_first() =~= a);
    } else {
        lemma_merge_multiset(a, b.drop_first());
        lemma_multiset_commutative(seq![b[0]], merge_spec(a, b.drop_first()));
        lemma_multiset_commutative(seq![b[0]], b.drop_first());
        assert(seq![b[0]] + b.drop_first() =~= b);
    }
}

proof fn lemma_only_side_prepend(x: ListingOutput, s: Seq<ListingOutput>, t: ListingType)
    ensures
        only_side(seq![x] + s, t) == (if x.listing_type == t { seq![x] } else { Seq::empty() })
            + only_side(s, t),
{
    assert((seq![x] + s).drop_first() =~= s);
}

proof fn lemma_only_side_all(s: Seq<ListingOutput>, t: ListingType, u: ListingType)
    requires
        all_of_side(s, t),
    ensures
        only_side(s, u) == (if t == u { s } else { Seq::empty() }),
    decreases s.len(),
{
    if s.len() > 0 {
        lemma_only_side_all(s.drop_first(), t, u);
        assert(s[0].listing_type == t);
        if t == u {
            assert(seq![s[0]] + s.drop_first() =~= s);
        } else {
            assert(Seq::<ListingOutput>::empty() + Seq::<ListingOutput>::empty() =~= Seq::<
                ListingOutput,
            >::empty());
        }
    }
}

proof fn lemma_only_side_merge(a: Seq<ListingOutput>, b: Seq<ListingOutput>, t: ListingType)
    ensures
        only_side(merge_spec(a, b), t) =~= only_side(a, t) + only_side(b, t)
            || (only_side(a, t).len() > 0 && only_side(b, t).len() > 0),
    decreases a.len() + b.len(),
{
    if a.len() == 0 {
        assert(only_side(a, t) =~= Seq::<ListingOutput>::empty());
    } else if b.len() == 0 {
        assert(only_side(b, t) =~= Seq::<ListingOutput>::empty());
    } else if ts_le(a[0].timestamp, b[0].timestamp) {
        lemma_only_side_merge(a.drop_first(), b, t);
        lemma_only_side_prepend(a[0], merge_spec(a.drop_first(), b), t);
        assert(only_side(a, t) == (if a[0].listing_type == t { seq![a[0]] } else { Seq::empty() })
            + only_side(a.drop_first(), t));
    } else {
        lemma_only_side_merge(a, b.drop_first(), t);
        lemma_only_side_prepend(b[0], merge_spec(a, b.drop_first()), t);
        assert(only_side(b, t) == (if b[0].listing_type == t { seq![b[0]] } else { Seq::empty() })
            + only_side(b.drop_first(), t));
    }
}

/// Merging two ascending streams gives an ascending stream of length
/// `|a| + |b|` that holds exactly the records of both; when `a` is all buy
/// records and `b` all sell records, taking the records of either side out of
/// the result gives back that input in its own order (the merge is stable);
/// and merging an empty stream with `b` gives `b` unchanged.
pub proof fn lemma_merge_laws(a: Seq<ListingOutput>, b: Seq<ListingOutput>)
    requires
        ascending(a),
        ascending(b),
    ensures
        ascending(merge_spec(a, b)),
        merge_spec(a, b).len() == a.len() + b.len(),
        merge_spec(a, b).to_multiset() == a.to_multiset().add(b.to_multiset()),
        all_of_side(a, ListingType::Buy) && all_of_side(b, ListingType::Sell) ==> only_side(
            merge_spec(a, b),
            ListingType::Buy,
        ) == a && only_side(merge_spec(a, b), ListingType::Sell) == b,
        merge_spec(Seq::empty(), b) == b,
{
    lemma_merge_ascending(a, b);
    lemma_merge_multiset(a, b);
    if all_of_side(a, ListingType::Buy) && all_of_side(b, ListingType::Sell) {
        lemma_only_side_all(a, ListingType::Buy, ListingType::Buy);
        lemma_only_side_all(a, ListingType::Buy, ListingType::Sell);
        lemma_only_side_all(b, ListingType::Sell, ListingType::Buy);
        lemma_only_side_all(b, ListingType::Sell, ListingType::Sell);
        lemma_only_side_merge(a, b, ListingType::Buy);
        lemma_only_side_merge(a, b, ListingType::Sell);
        assert(a + Seq::<ListingOutput>::empty() =~= a);
        assert(Seq::<ListingOutput>::empty() + b =~= b);
    }
}

fn oldest_first(l: &Vec<ItemListing>, t: ListingType) -> (r: Vec<ListingOutput>)
    ensures
        r@ == oldest_first_tagged(l@, t),
{
    let mut r: Vec<ListingOutput> = Vec::new();
    let mut i: usize = l.len();
    while i > 0
        invariant
            i <= l@.len(),
            r@.len() == l@.len() - i,
            forall|k: int| 0 <= k < r@.len() ==> #[trigger] r@[k] == output_of(l@[l@.len() - 1 - k], t),
        decreases i,
    {
        i = i - 1;
        r.push(ListingOutput::from_listing(&l[i], t));
    }
    assert(r@ =~= oldest_first_tagged(l@, t));
    r
}

proof fn lemma_oldest_first_ascending(l: Seq<ItemListing>, t: ListingType)
    requires
        newest_first(l),
    ensures
        ascending(oldest_first_tagged(l, t)),
        all_of_side(oldest_first_tagged(l, t), t),
{
    let s = oldest_first_tagged(l, t);
    assert forall|i: int, j: int| 0 <= i < j < s.len() implies ts_le(
        s[i].timestamp,
        s[j].timestamp,
    ) by {
        assert(s[i].timestamp == l[l.len() - 1 - i].timestamp);
        assert(s[j].timestamp == l[l.len() - 1 - j].timestamp);
    }
}

/// The records of both sides of one entity in one chronological stream.
/// Each side comes as the server sends it, newest first, and is walked oldest
/// first; a buy record goes before a sell record of the same time.
pub fn merged_listings(buy: &Vec<ItemListing>, sell: &Vec<ItemListing>) -> (r: Vec<ListingOutput>)
    ensures
        r@ == merge_spec(
            oldest_first_tagged(buy@, ListingType::Buy),
            oldest_first_tagged(sell@, ListingType::Sell),
        ),
        r@.len() == buy@.len() + sell@.len(),
        newest_first(buy@) && newest_first(sell@) ==> ascending(r@),
{
    let b = oldest_first(buy, ListingType::Buy);
    let s = oldest_first(sell, ListingType::Sell);
    proof {
        lemma_merge_multiset(b@, s@);
        if newest_first(buy@) && newest_first(sell@) {
            lemma_oldest_first_ascending(buy@, ListingType::Buy);
            lemma_oldest_first_ascending(sell@, ListingType::Sell);
            lemma_merge_ascending(b@, s@);
        }
    }
    merge_by_time(b, s)
}

} // verus!
