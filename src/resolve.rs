//! Entity resolution: turning identifiers and search results into one list
//! of entities with no identity twice.
use vstd::prelude::*;

use crate::data::Item;

verus! {

/// Some entity of `s` has identity `id`.
pub open spec fn has_id(s: Seq<Item>, id: u64) -> bool {
    exists|i: int| 0 <= i < s.len() && #[trigger] s[i].id == id
}

/// The first entity of each identity in `s`, in order.
pub open spec fn unique_by_id(s: Seq<Item>) -> Seq<Item>
    decreases s.len(),
{
    if s.len() == 0 {
        Seq::empty()
    } else {
        let p = unique_by_id(s.drop_last());
        if has_id(p, s.last().id) { p } else { p.push(s.last()) }
    }
}

/// The first occurrence of each identifier in `s`, in order.
pub open spec fn unique_ids_spec(s: Seq<u64>) -> Seq<u64>
    decreases s.len(),
{
    if s.len() == 0 {
        Seq::empty()
    } else {
        let p = unique_ids_spec(s.drop_last());
        if p.contains(s.last()) { p } else { p.push(s.last()) }
    }
}

fn contains_id(s: &Vec<Item>, id: u64) -> (r: bool)
    ensures
        r == has_id(s@, id),
{
    let mut i: usize = 0;
    while i < s.len()
        invariant
            i <= s@.len(),
            forall|k: int| 0 <= k < i ==> s@[k].id != id,
        decreases s@.len() - i,
    {
        if s[i].id == id {
            return true;
        }
        i = i + 1;
    }
    false
}

/// Keeps the first entity of each identity, in order.
pub fn unique_items(items: Vec<Item>) -> (r: Vec<Item>)
    ensures
        r@ == unique_by_id(items@),
{
    let ghost all = items@;
    let mut rest = items;
    let mut r: Vec<Item> = Vec::new();
    let mut k: usize = 0;
    let n = rest.len();
    assert(all.take(0) =~= Seq::<Item>::empty());
    while k < n
        invariant
            n == all.len(),
            k <= n,
            rest@ == all.skip(k as int),
            r@ == unique_by_id(all.take(k as int)),
        decreases n - k,
    {
        let x = rest.remove(0);
        assert(all.take(k + 1).drop_last() =~= all.take(k as int));
        assert(all.take(k + 1).last() == x);
        if !contains_id(&r, x.id) {
            r.push(x);
        }
        assert(rest@ =~= all.skip(k + 1));
        k = k + 1;
    }
    assert(all.take(n as int) =~= all);
    r
}

/// Keeps the first occurrence of each identifier, in order.
pub fn unique_ids(ids: &Vec<u64>) -> (r: Vec<u64>)
    ensures
        r@ == unique_ids_spec(ids@),
{
    let mut r: Vec<u64> = Vec::new();
    let mut k: usize = 0;
    assert(ids@.take(0) =~= Seq::<u64>::empty());
    while k < ids.len()
        invariant
            k <= ids@.len(),
            r@ == unique_ids_spec(ids@.take(k as int)),
        decreases ids@.len() - k,
    {
        let x = ids[k];
        assert(ids@.take(k + 1).drop_last() =~= ids@.take(k as int));
        let mut seen = false;
        let mut j: usize = 0;
        while j < r.len()
            invariant
                j <= r@.len(),
                seen <==> exists|i: int| 0 <= i < j && r@[i] == x,
            decreases r@.len() - j,
        {
            if r[j] == x {
                seen = true;
            }
            j = j + 1;
        }
        assert(seen <==> r@.contains(x));
        if !seen {
            r.push(x);
        }
        k = k + 1;
    }
    assert(ids@.take(ids@.len() as int) =~= ids@);
    r
}

/// The entities to process: those found by search terms, then those looked
/// up by identifier, with no identity twice (the first one is kept).
pub fn resolve(found: Vec<Item>, looked_up: Vec<Item>) -> (r: Vec<Item>)
    ensures
        r@ == unique_by_id(found@ + looked_up@),
{
    let mut all = found;
    let mut more = looked_up;
    all.append(&mut more);
    unique_items(all)
}

/// The entities kept have distinct identities, and every identity of the
/// input is kept.
pub proof fn lemma_unique_by_id(s: Seq<Item>)
    ensures
        forall|i: int, j: int|
            0 <= i < j < unique_by_id(s).len() ==> unique_by_id(s)[i].id != unique_by_id(s)[j].id,
        forall|i: int| 0 <= i < s.len() ==> has_id(unique_by_id(s), #[trigger] s[i].id),
        forall|i: int|
            0 <= i < unique_by_id(s).len() ==> has_id(s, #[trigger] unique_by_id(s)[i].id),
    decreases s.len(),
{
    if s.len() > 0 {
        let init = s.drop_last();
        lemma_unique_by_id(init);
        let p = unique_by_id(init);
        let u = unique_by_id(s);
        assert forall|i: int| 0 <= i < s.len() implies has_id(u, #[trigger] s[i].id) by {
            if i < s.len() - 1 {
                assert(init[i] == s[i]);
                let w = choose|w: int| 0 <= w < p.len() && #[trigger] p[w].id == s[i].id;
                if !has_id(p, s.last().id) {
                    assert(u[w] == p[w]);
                }
            } else if !has_id(p, s.last().id) {
                assert(u[p.len() as int] == s.last());
            }
        }
        assert forall|i: int| 0 <= i < u.len() implies has_id(s, #[trigger] u[i].id) by {
            if i < p.len() {
                assert(u[i] == p[i]);
                let w = choose|w: int| 0 <= w < init.len() && #[trigger] init[w].id == p[i].id;
                assert(s[w] == init[w]);
            } else {
                assert(u[i] == s[s.len() - 1]);
            }
        }
    }
}

/// How a search term resolved.
#[derive(Clone, Copy, Debug, PartialEq, Eq, Structural)]
pub enum SearchOutcome {
    /// Nothing matched: a warning, not an error.
    NoMatch,
    /// Exactly one entity matched.
    Unique,
    /// Several entities matched: all are kept, and the caller is warned.
    Ambiguous,
}

/// How a search term with `matches` results resolved.
pub fn classify_search(matches: usize) -> (r: SearchOutcome)
    ensures
        matches == 0 <==> r == SearchOutcome::NoMatch,
        matches == 1 <==> r == SearchOutcome::Unique,
        matches > 1 <==> r == SearchOutcome::Ambiguous,
{
    if matches == 0 {
        SearchOutcome::NoMatch
    } else if matches == 1 {
        SearchOutcome::Unique
    } else {
        SearchOutcome::Ambiguous
    }
}

} // verus!
