//! The lazy page sequence: one logical stream of records over a page-numbered
//! remote resource. The sequence decides what to do next; the caller performs
//! the pause and the request it asks for and hands the outcome back.
use std::collections::VecDeque;
use vstd::prelude::*;
use vstd::string::StringExecFns;

use crate::pacing::{backoff_step, Backoff, BackoffView};
use crate::text::{decimal, decimal_spec};

verus! {

/// Why a page could not be had.
#[derive(Debug, PartialEq, Eq)]
pub enum FetchError {
    /// The request did not reach the server or its answer did not arrive.
    Transport(String),
    /// The server answered with a status other than success.
    Status(u16),
    /// The answer could not be decoded as a page.
    Decode(String),
    /// The server reported a page other than the one requested, or a last
    /// page below one it reported before.
    Inconsistent { requested: u64, page: u64, last_page: u64 },
    /// A page was handed to a sequence that has already ended.
    Closed,
}

/// What one decoded page holds.
pub struct PageView<T> {
    pub page: u64,
    pub last_page: u64,
    pub count: Option<usize>,
    pub results: Seq<T>,
}

/// One decoded page of a paginated answer.
pub trait PaginatedResult<T>: Sized {
    spec fn page_view(&self) -> PageView<T>;

    /// The 1-based number of this page.
    fn page(&self) -> (r: u64)
        ensures
            r == self.page_view().page,
    ;

    /// The 1-based number of the last page, as this page reports it.
    fn last_page(&self) -> (r: u64)
        ensures
            r == self.page_view().last_page,
    ;

    /// The records of this page, in the order the server sent them.
    fn results(self) -> (r: Vec<T>)
        ensures
            r@ == self.page_view().results,
    ;

    /// An estimate of the number of records over all pages, if the page
    /// allows one.
    fn count(&self) -> (r: Option<usize>)
        ensures
            r == self.page_view().count,
    ;
}

/// The estimate `per_page * last_page`, saturated to the largest `usize`.
pub open spec fn estimate_of(per_page: nat, last_page: nat) -> usize {
    if per_page * last_page <= usize::MAX { (per_page * last_page) as usize } else { usize::MAX }
}

/// Computes [`estimate_of`].
pub fn estimate(per_page: u64, last_page: u64) -> (r: usize)
    ensures
        r == estimate_of(per_page as nat, last_page as nat),
{
    match per_page.checked_mul(last_page) {
        Some(p) => {
            if p <= usize::MAX as u64 {
                p as usize
            } else {
                usize::MAX
            }
        },
        None => {
            assert(per_page * last_page > u64::MAX) by (nonlinear_arith)
                requires per_page * last_page > u64::MAX;
            usize::MAX
        },
    }
}

/// The address of page `page` under `base`.
pub open spec fn page_url(base: Seq<char>, page: nat) -> Seq<char> {
    base + seq!['/'] + decimal_spec(page)
}

/// What one step of a sequence asks of its caller.
pub enum Pull<T> {
    /// The next record.
    Record(T),
    /// Pause `delay_ms` milliseconds, then fetch `url`, which is page `page`,
    /// and hand the outcome to `deliver`.
    Fetch { url: String, page: u64, delay_ms: u64 },
    /// The sequence is over.
    End,
}

/// What a sequence holds.
pub struct CursorView<T> {
    pub base: Seq<char>,
    pub next_page: nat,
    pub last_page: nat,
    pub buffer: Seq<T>,
    pub finished: bool,
    pub estimate: Option<usize>,
    pub pacing: BackoffView,
}

/// The state of a new sequence over `base`.
pub open spec fn cursor_start<T>(base: Seq<char>, pacing: BackoffView) -> CursorView<T> {
    CursorView {
        base,
        next_page: 1,
        last_page: 1,
        buffer: Seq::empty(),
        finished: false,
        estimate: None,
        pacing,
    }
}

/// No record is waiting and no page is left to fetch.
pub open spec fn exhausted<T>(v: CursorView<T>) -> bool {
    v.buffer.len() == 0 && (v.finished || v.next_page > v.last_page)
}

/// The state after one call of `next`.
pub open spec fn after_pull<T>(v: CursorView<T>) -> CursorView<T> {
    if v.buffer.len() > 0 {
        CursorView { buffer: v.buffer.drop_first(), ..v }
    } else if exhausted(v) {
        v
    } else {
        CursorView { pacing: backoff_step(v.pacing), ..v }
    }
}

/// `r` is what `next` returns in state `v`.
pub open spec fn pull_agrees<T>(r: Pull<T>, v: CursorView<T>) -> bool {
    if v.buffer.len() > 0 {
        r == Pull::<T>::Record(v.buffer[0])
    } else if exhausted(v) {
        r is End
    } else {
        match r {
            Pull::Fetch { url, page, delay_ms } => {
                &&& url@ == page_url(v.base, v.next_page)
                &&& page == v.next_page
                &&& delay_ms == v.pacing.current
            },
            _ => false,
        }
    }
}

/// `p` does not fit the state `v` it was fetched in.
pub open spec fn inconsistent<T>(v: CursorView<T>, p: PageView<T>) -> bool {
    ||| p.page != v.next_page
    ||| (v.next_page > 1 && p.last_page < v.last_page)
    ||| p.page == u64::MAX
}

/// The state after `deliver`, and what it returns.
pub open spec fn deliver_spec<T>(v: CursorView<T>, outcome: Result<PageView<T>, FetchError>) -> (
    CursorView<T>,
    Result<(), FetchError>,
) {
    match outcome {
        Err(e) => (CursorView { finished: true, ..v }, Err(e)),
        Ok(p) => {
            if v.finished {
                (v, Err(FetchError::Closed))
            } else if inconsistent(v, p) {
                (
                    CursorView { finished: true, ..v },
                    Err(
                        FetchError::Inconsistent {
                            requested: v.next_page as u64,
                            page: p.page,
                            last_page: p.last_page,
                        },
                    ),
                )
            } else {
                (
                    CursorView {
                        next_page: (p.page + 1) as nat,
                        last_page: p.last_page as nat,
                        buffer: v.buffer + p.results,
                        estimate: if v.estimate is None { p.count } else { v.estimate },
                        ..v
                    },
                    Ok(()),
                )
            }
        },
    }
}

/// A pull-based sequence of the records of a paginated resource.
pub struct PaginatedIterator<T> {
    base_url: String,
    page_number: u64,
    total_pages: u64,
    page: VecDeque<T>,
    backoff: Backoff,
    size_hint: Option<usize>,
    finished: bool,
}

impl<T> PaginatedIterator<T> {
    pub closed spec fn view(&self) -> CursorView<T> {
        CursorView {
            base: self.base_url@,
            next_page: self.page_number as nat,
            last_page: self.total_pages as nat,
            buffer: self.page@,
            finished: self.finished,
            estimate: self.size_hint,
            pacing: self.backoff.view(),
        }
    }

    pub closed spec fn wf(&self) -> bool {
        &&& self.backoff.wf()
        &&& self.page_number >= 1
    }

    /// A sequence over the pages `base_url/1`, `base_url/2`, ... paced by
    /// `backoff`.
    pub fn new(base_url: String, backoff: Backoff) -> (r: Self)
        requires
            backoff.wf(),
        ensures
            r.wf(),
            r.view() == cursor_start::<T>(base_url@, backoff.view()),
    {
        PaginatedIterator {
            base_url,
            page_number: 1,
            total_pages: 1,
            page: VecDeque::new(),
            backoff,
            size_hint: None,
            finished: false,
        }
    }

    /// The next step: a record of the current page, a request for the next
    /// page, or the end of the sequence.
    pub fn next(&mut self) -> (r: Pull<T>)
        requires
            old(self).wf(),
        ensures
            final(self).wf(),
            final(self).view() == after_pull(old(self).view()),
            pull_agrees(r, old(self).view()),
    {
        if let Some(t) = self.page.pop_front() {
            return Pull::Record(t);
        }
        if self.finished || self.page_number > self.total_pages {
            return Pull::End;
        }
        let delay_ms = self.backoff.next_delay();
        let mut url = self.base_url.clone();
        url.append("/");
        let number = decimal(self.page_number);
        url.append(number.as_str());
        proof {
            reveal_strlit("/");
        }
        assert(url@ =~= page_url(old(self).view().base, old(self).view().next_page));
        Pull::Fetch { url, page: self.page_number, delay_ms }
    }

    /// Takes the outcome of the fetch that `next` asked for. A failed fetch,
    /// or a page that does not fit the sequence, ends the sequence and is
    /// returned as the error.
    pub fn deliver<R: PaginatedResult<T>>(&mut self, fetched: Result<R, FetchError>) -> (r: Result<
        (),
        FetchError,
    >)
        requires
            old(self).wf(),
        ensures
            final(self).wf(),
            (final(self).view(), r) == deliver_spec(
                old(self).view(),
                match fetched {
                    Ok(p) => Ok(p.page_view()),
                    Err(e) => Err(e),
                },
            ),
    {
        match fetched {
            Err(e) => {
                self.finished = true;
                Err(e)
            },
            Ok(p) => {
                if self.finished {
                    return Err(FetchError::Closed);
                }
                let page = p.page();
                let last_page = p.last_page();
                if page != self.page_number || (self.page_number > 1 && last_page
                    < self.total_pages) || page == u64::MAX {
                    self.finished = true;
                    return Err(
                        FetchError::Inconsistent { requested: self.page_number, page, last_page },
                    );
                }
                if self.size_hint.is_none() {
                    self.size_hint = p.count();
                }
                let ghost pv = p.page_view();
                let mut results = p.results();
                let ghost before = self.page@;
                let ghost added = results@;
                let mut tail: VecDeque<T> = VecDeque::new();
                while results.len() > 0
                    invariant
                        results@ + tail@ == added,
                    decreases results.len(),
                {
                    let t = results.pop().unwrap();
                    tail.push_front(t);
                    assert(results@ + tail@ =~= added);
                }
                assert(tail@ =~= added);
                while tail.len() > 0
                    invariant
                        self.page@ + tail@ == before + added,
                        self.backoff == old(self).backoff,
                        self.base_url == old(self).base_url,
                        self.page_number == old(self).page_number,
                        self.total_pages == old(self).total_pages,
                        self.finished == old(self).finished,
                        self.size_hint == (if old(self).size_hint is None {
                            pv.count
                        } else {
                            old(self).size_hint
                        }),
                    decreases tail.len(),
                {
                    let t = tail.pop_front().unwrap();
                    self.page.push_back(t);
                    assert(self.page@ + tail@ =~= before + added);
                }
                assert(self.page@ =~= before + added);
                self.total_pages = last_page;
                self.page_number = page + 1;
                Ok(())
            },
        }
    }

    /// Bounds on the number of records left: none below, and the estimate
    /// from the first page above, once it is known. The estimate is advisory:
    /// the last page is usually not full.
    pub fn size_hint(&self) -> (r: (usize, Option<usize>))
        ensures
            r == (0usize, self.view().estimate),
    {
        (0, self.size_hint)
    }

    /// The sequence has ended after a failed or inconsistent fetch.
    pub fn is_failed(&self) -> (r: bool)
        ensures
            r == self.view().finished,
    {
        self.finished
    }
}

/// The records of `pages`, page after page.
pub open spec fn concat_pages<T>(pages: Seq<PageView<T>>) -> Seq<T>
    decreases pages.len(),
{
    if pages.len() == 0 {
        Seq::empty()
    } else {
        pages[0].results + concat_pages(pages.drop_first())
    }
}

/// The number of steps a sequence takes over `pages`: one per record and one
/// per fetch.
pub open spec fn steps_for<T>(pages: Seq<PageView<T>>) -> nat
    decreases pages.len(),
{
    if pages.len() == 0 {
        0
    } else {
        pages[0].results.len() + 1 + steps_for(pages.drop_first())
    }
}

/// What a server that holds `pages` answers to a request for page `n`.
pub open spec fn served<T>(pages: Seq<PageView<T>>, n: nat) -> Result<PageView<T>, FetchError> {
    if 1 <= n <= pages.len() {
        Ok(pages[n - 1])
    } else {
        Err(FetchError::Status(404))
    }
}

/// Runs a sequence from state `v` for at most `fuel` steps against a server
/// that holds `pages`: the records it yields, the number of fetches it makes,
/// and whether it reached its end.
pub open spec fn drive<T>(v: CursorView<T>, pages: Seq<PageView<T>>, fuel: nat) -> (Seq<T>, nat, bool)
    decreases fuel,
{
    if fuel == 0 {
        (Seq::empty(), 0, false)
    } else if v.buffer.len() > 0 {
        let (out, fetches, ended) = drive(after_pull(v), pages, (fuel - 1) as nat);
        (seq![v.buffer[0]] + out, fetches, ended)
    } else if exhausted(v) {
        (Seq::empty(), 0, true)
    } else {
        let w = deliver_spec(after_pull(v), served(pages, v.next_page)).0;
        let (out, fetches, ended) = drive(w, pages, (fuel - 1) as nat);
        (out, fetches + 1, ended)
    }
}

/// Page `i` (from zero) reports itself as page `i + 1` of `pages.len()`.
pub open spec fn consistent_pages<T>(pages: Seq<PageView<T>>) -> bool {
    forall|i: int|
        0 <= i < pages.len() ==> #[trigger] pages[i].page == i + 1 && pages[i].last_page
            == pages.len()
}

proof fn lemma_drive_from<T>(v: CursorView<T>, pages: Seq<PageView<T>>, fuel: nat)
    requires
        consistent_pages(pages),
        1 <= pages.len() < u64::MAX,
        1 <= v.next_page <= pages.len() + 1,
        v.next_page == 1 ==> v.last_page == 1,
        v.next_page > 1 ==> v.last_page == pages.len(),
        !v.finished,
        fuel >= v.buffer.len() + steps_for(pages.skip(v.next_page - 1)) + 1,
    ensures
        drive(v, pages, fuel) == (
            v.buffer + concat_pages(pages.skip(v.next_page - 1)),
            (pages.len() + 1 - v.next_page) as nat,
            true,
        ),
    decreases fuel,
{
    let rest = pages.skip(v.next_page - 1);
    if v.buffer.len() > 0 {
        let w = after_pull(v);
        lemma_drive_from(w, pages, (fuel - 1) as nat);
        assert(seq![v.buffer[0]] + (w.buffer + concat_pages(rest)) =~= v.buffer + concat_pages(
            rest,
        ));
    } else if exhausted(v) {
        assert(rest =~= Seq::<PageView<T>>::empty());
        assert(v.buffer + concat_pages(rest) =~= Seq::<T>::empty());
    } else {
        let k = v.next_page;
        let p = pages[k - 1];
        assert(p.page == k && p.last_page == pages.len());
        let w = deliver_spec(after_pull(v), served(pages, k)).0;
        assert(rest[0] == p);
        assert(rest.drop_first() =~= pages.skip(k as int));
        lemma_drive_from(w, pages, (fuel - 1) as nat);
        assert(w.buffer =~= p.results);
        assert(w.buffer + concat_pages(pages.skip(k as int)) =~= v.buffer + concat_pages(rest));
    }
}

/// Over a server whose pages report themselves consistently, page `k` of
/// `N`, a new sequence yields exactly the records of all pages, page after
/// page and in the order of each page, fetches exactly `N` times, and then
/// ends; how many records a page holds does not matter.
pub proof fn lemma_sequence_yields_all_pages<T>(
    base: Seq<char>,
    pacing: BackoffView,
    pages: Seq<PageView<T>>,
    fuel: nat,
)
    requires
        consistent_pages(pages),
        1 <= pages.len() < u64::MAX,
        fuel > steps_for(pages),
    ensures
        drive(cursor_start::<T>(base, pacing), pages, fuel) == (
            concat_pages(pages),
            pages.len(),
            true,
        ),
{
    let v = cursor_start::<T>(base, pacing);
    assert(pages.skip(0) =~= pages);
    lemma_drive_from(v, pages, fuel);
    assert(v.buffer + concat_pages(pages) =~= concat_pages(pages));
}

} // verus!
