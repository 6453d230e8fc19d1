//! Paginated collection of user logins from a page-based endpoint.
//!
//! The collector is a state machine: the caller asks `next_action` which page
//! to request, performs the request however it likes, and hands the decoded
//! page back through `feed_page`.  `collect_pages` runs the same machine over
//! a sequence of already-available page outcomes, and is proved equal to the
//! mathematical model `spec_collect`.

use vstd::prelude::*;

verus! {

/// GitHub's documented maximum page size, used to minimize request count.
pub const PAGE_SIZE: usize = 100;

/// Cap on total fetched records when the caller supplies none.
pub const DEFAULT_LIMIT: usize = 10000;

/// Why a collection run failed: a non-success HTTP status (with its body), or
/// a response body that did not decode to the expected shape.
#[derive(PartialEq, Eq, Debug)]
pub enum FetchError {
    Http(u16, String),
    Decode,
}

/// Mathematical model of a `FetchError`.
pub enum SpecFetchError {
    Http(u16, Seq<char>),
    Decode,
}

impl View for FetchError {
    type V = SpecFetchError;

    open spec fn view(&self) -> SpecFetchError {
        match self {
            FetchError::Http(status, body) => SpecFetchError::Http(*status, body@),
            FetchError::Decode => SpecFetchError::Decode,
        }
    }
}

/// What one page request produced: the decoded logins of the page, a
/// non-success HTTP status with its body, or an undecodable body.
#[derive(PartialEq, Eq, Debug)]
pub enum PageOutcome {
    Items(Vec<String>),
    Http(u16, String),
    Decode,
}

/// Mathematical model of a `PageOutcome`.
pub enum SpecPageOutcome {
    Items(Seq<Seq<char>>),
    Http(u16, Seq<char>),
    Decode,
}

impl View for PageOutcome {
    type V = SpecPageOutcome;

    open spec fn view(&self) -> SpecPageOutcome {
        match self {
            PageOutcome::Items(v) => SpecPageOutcome::Items(v.deep_view()),
            PageOutcome::Http(status, body) => SpecPageOutcome::Http(*status, body@),
            PageOutcome::Decode => SpecPageOutcome::Decode,
        }
    }
}

impl DeepView for PageOutcome {
    type V = SpecPageOutcome;

    open spec fn deep_view(&self) -> SpecPageOutcome {
        self.view()
    }
}

/// What the collector wants next: request the given page number, or stop.
#[derive(PartialEq, Eq, Structural, Debug, Clone, Copy)]
pub enum CollectorAction {
    Request(usize),
    Finished,
}

/// The result of running the collection to completion over a sequence of page
/// outcomes, starting from page number `page` with `acc` already accumulated.
/// A page number past the end of the sequence stands for an endpoint that has
/// run out: it answers with an empty page, which exhausts the collection.
pub open spec fn spec_collect_from(
    pages: Seq<SpecPageOutcome>,
    per_page: nat,
    limit: nat,
    page: nat,
    acc: Seq<Seq<char>>,
) -> Result<Seq<Seq<char>>, SpecFetchError>
    decreases pages.len() + 1 - page,
{
    if page < 1 || page > pages.len() {
        Ok(acc)
    } else {
        match pages[page - 1] {
            SpecPageOutcome::Http(status, body) => Err(SpecFetchError::Http(status, body)),
            SpecPageOutcome::Decode => Err(SpecFetchError::Decode),
            SpecPageOutcome::Items(s) => {
                let acc2 = acc + s;
                if acc2.len() >= limit {
                    Ok(acc2)
                } else if s.len() < per_page {
                    Ok(acc2)
                } else {
                    spec_collect_from(pages, per_page, limit, (page + 1) as nat, acc2)
                }
            },
        }
    }
}

/// How many page requests the run starting at `page` with `acc_len` items
/// already accumulated makes before it stops (a failed request counts too).
pub open spec fn spec_requests_from(
    pages: Seq<SpecPageOutcome>,
    per_page: nat,
    limit: nat,
    page: nat,
    acc_len: nat,
) -> nat
    decreases pages.len() + 1 - page,
{
    if page < 1 || page > pages.len() {
        1
    } else {
        match pages[page - 1] {
            SpecPageOutcome::Http(status, body) => 1,
            SpecPageOutcome::Decode => 1,
            SpecPageOutcome::Items(s) => {
                let len2 = acc_len + s.len();
                if len2 >= limit {
                    1
                } else if s.len() < per_page {
                    1
                } else {
                    1 + spec_requests_from(pages, per_page, limit, (page + 1) as nat, len2)
                }
            },
        }
    }
}

/// The whole collection run: pages are numbered from 1, nothing accumulated.
pub open spec fn spec_collect(
    pages: Seq<SpecPageOutcome>,
    per_page: nat,
    limit: nat,
) -> Result<Seq<Seq<char>>, SpecFetchError> {
    spec_collect_from(pages, per_page, limit, 1, Seq::empty())
}

/// The number of page requests the whole collection run makes.
pub open spec fn spec_requests(pages: Seq<SpecPageOutcome>, per_page: nat, limit: nat) -> nat {
    spec_requests_from(pages, per_page, limit, 1, 0)
}

/// Whether the endpoint is exhausted at the given page: the page lies past
/// the end, or it answered with fewer items than the page size.
pub open spec fn exhausted_at(pages: Seq<SpecPageOutcome>, per_page: nat, page: nat) -> bool {
    ||| page < 1
    ||| page > pages.len()
    ||| (pages[page - 1] matches SpecPageOutcome::Items(s) && s.len() < per_page)
}

proof fn lemma_stop_reason_from(
    pages: Seq<SpecPageOutcome>,
    per_page: nat,
    limit: nat,
    page: nat,
    acc: Seq<Seq<char>>,
)
    requires
        page >= 1,
    ensures
        spec_collect_from(pages, per_page, limit, page, acc) matches Ok(items) ==> items.len()
            >= limit || exhausted_at(
            pages,
            per_page,
            (page + spec_requests_from(pages, per_page, limit, page, acc.len()) - 1) as nat,
        ),
    decreases pages.len() + 1 - page,
{
    if 1 <= page <= pages.len() {
        if let SpecPageOutcome::Items(s) = pages[page - 1] {
            let acc2 = acc + s;
            if acc2.len() < limit && s.len() >= per_page {
                lemma_stop_reason_from(pages, per_page, limit, (page + 1) as nat, acc2);
            }
        }
    }
}

/// A successful collection stops only for one of the two stated reasons: it
/// returns fewer items than the limit only when the endpoint was exhausted at
/// the last requested page, and so never requests a page beyond the first one
/// where a stop condition held.
pub proof fn lemma_short_result_means_exhausted(
    pages: Seq<SpecPageOutcome>,
    per_page: nat,
    limit: nat,
)
    ensures
        spec_collect(pages, per_page, limit) matches Ok(items) ==> items.len() >= limit
            || exhausted_at(pages, per_page, spec_requests(pages, per_page, limit)),
{
    lemma_stop_reason_from(pages, per_page, limit, 1, Seq::empty());
}

proof fn lemma_overshoot_from(
    pages: Seq<SpecPageOutcome>,
    per_page: nat,
    limit: nat,
    page: nat,
    acc: Seq<Seq<char>>,
)
    requires
        page >= 1,
        acc.len() < limit,
        forall|i: int|
            0 <= i < pages.len() ==> (#[trigger] pages[i] matches SpecPageOutcome::Items(s)
                ==> s.len() <= per_page),
    ensures
        spec_collect_from(pages, per_page, limit, page, acc) matches Ok(items) ==> items.len()
            < limit + per_page,
    decreases pages.len() + 1 - page,
{
    if 1 <= page <= pages.len() {
        if let SpecPageOutcome::Items(s) = pages[page - 1] {
            let acc2 = acc + s;
            if acc2.len() < limit && s.len() >= per_page {
                lemma_overshoot_from(pages, per_page, limit, (page + 1) as nat, acc2);
            }
        }
    }
}

/// The limit is overshot by less than one page: when every page holds at most
/// `per_page` items, a successful collection returns fewer than `limit +
/// per_page` items.  (The whole last page is kept, so up to one page's worth
/// above the limit can be returned; never more.)
pub proof fn lemma_overshoot_bounded(pages: Seq<SpecPageOutcome>, per_page: nat, limit: nat)
    requires
        limit >= 1,
        forall|i: int|
            0 <= i < pages.len() ==> (#[trigger] pages[i] matches SpecPageOutcome::Items(s)
                ==> s.len() <= per_page),
    ensures
        spec_collect(pages, per_page, limit) matches Ok(items) ==> items.len() < limit + per_page,
{
    lemma_overshoot_from(pages, per_page, limit, 1, Seq::empty());
}

/// The items of the `count` pages from page number `page` on, in delivery
/// order.  A page past the end of the sequence contributes nothing, and a
/// failed page cuts the concatenation short (a successful run consumes none).
pub open spec fn concat_page_items(pages: Seq<SpecPageOutcome>, page: nat, count: nat) -> Seq<
    Seq<char>,
>
    decreases count,
{
    if count == 0 || page < 1 || page > pages.len() {
        Seq::empty()
    } else {
        match pages[page - 1] {
            SpecPageOutcome::Items(s) => s + concat_page_items(
                pages,
                (page + 1) as nat,
                (count - 1) as nat,
            ),
            SpecPageOutcome::Http(status, body) => Seq::empty(),
            SpecPageOutcome::Decode => Seq::empty(),
        }
    }
}

proof fn lemma_whole_pages_from(
    pages: Seq<SpecPageOutcome>,
    per_page: nat,
    limit: nat,
    page: nat,
    acc: Seq<Seq<char>>,
)
    requires
        page >= 1,
    ensures
        spec_collect_from(pages, per_page, limit, page, acc) matches Ok(items) ==> items == acc
            + concat_page_items(
            pages,
            page,
            spec_requests_from(pages, per_page, limit, page, acc.len()),
        ),
    decreases pages.len() + 1 - page,
{
    if page > pages.len() {
        assert(acc + Seq::<Seq<char>>::empty() =~= acc);
    } else if let SpecPageOutcome::Items(s) = pages[page - 1] {
        let acc2 = acc + s;
        let n = spec_requests_from(pages, per_page, limit, page, acc.len());
        if acc2.len() < limit && s.len() >= per_page {
            lemma_whole_pages_from(pages, per_page, limit, (page + 1) as nat, acc2);
            let rest = concat_page_items(pages, (page + 1) as nat, (n - 1) as nat);
            assert((acc + s) + rest =~= acc + (s + rest));
        } else {
            assert(concat_page_items(pages, (page + 1) as nat, 0) =~= Seq::<Seq<char>>::empty());
            assert(s + Seq::<Seq<char>>::empty() =~= s);
        }
    }
}

/// A successful collection returns exactly the concatenation, in delivery
/// order, of the whole pages it consumed: the limit only stops the run after
/// a page, it never truncates a page part-way through.
pub proof fn lemma_collect_keeps_whole_pages_in_order(
    pages: Seq<SpecPageOutcome>,
    per_page: nat,
    limit: nat,
)
    ensures
        spec_collect(pages, per_page, limit) matches Ok(items) ==> items == concat_page_items(
            pages,
            1,
            spec_requests(pages, per_page, limit),
        ),
{
    lemma_whole_pages_from(pages, per_page, limit, 1, Seq::empty());
    if spec_collect(pages, per_page, limit) matches Ok(items) {
        assert(Seq::<Seq<char>>::empty() + concat_page_items(
            pages,
            1,
            spec_requests(pages, per_page, limit),
        ) =~= concat_page_items(pages, 1, spec_requests(pages, per_page, limit)));
    }
}

/// Idempotence: two collection runs over the same pages, page size and limit
/// come to the identical result — the outcome is a function of those inputs
/// alone, with no hidden state or randomness.
pub proof fn lemma_collect_idempotent(
    pages: Seq<SpecPageOutcome>,
    per_page: nat,
    limit: nat,
    r1: Result<Seq<Seq<char>>, SpecFetchError>,
    r2: Result<Seq<Seq<char>>, SpecFetchError>,
)
    requires
        r1 == spec_collect(pages, per_page, limit),
        r2 == spec_collect(pages, per_page, limit),
    ensures
        r1 == r2,
{
}

/// The paginated collector: accumulates the logins of successive pages until
/// the record limit is reached or a short page signals exhaustion.
pub struct Collector {
    /// Logins accumulated so far, in API delivery order (not deduplicated).
    pub items: Vec<String>,
    /// The page number the collector wants next (pages are numbered from 1).
    pub next_page: usize,
    /// How many pages have been fed in so far.
    pub pages_fetched: usize,
    /// The fixed page size the endpoint is asked for.
    pub per_page: usize,
    /// Cap on total accumulated records, checked after each whole page.
    pub limit: usize,
    /// Whether the collection has stopped.
    pub finished: bool,
}

impl Collector {
    /// Internal consistency: positive page size and limit, and while the
    /// collection is running, the accumulated count is below the limit and
    /// every past page contributed at least one item.
    pub open spec fn wf(&self) -> bool {
        &&& self.per_page >= 1
        &&& self.limit >= 1
        &&& self.next_page >= 1
        &&& !self.finished ==> {
            &&& self.items@.len() < self.limit
            &&& self.next_page - 1 <= self.items@.len()
            &&& self.pages_fetched + 1 == self.next_page
        }
    }

    /// A fresh collector that will ask for page 1 first.
    pub fn new(per_page: usize, limit: usize) -> (c: Collector)
        requires
            per_page >= 1,
            limit >= 1,
        ensures
            c.wf(),
            c.per_page == per_page,
            c.limit == limit,
            c.items.deep_view() == Seq::<Seq<char>>::empty(),
            c.next_page == 1,
            c.pages_fetched == 0,
            !c.finished,
    {
        let c = Collector {
            items: Vec::new(),
            next_page: 1,
            pages_fetched: 0,
            per_page,
            limit,
            finished: false,
        };
        proof {
            assert(c.items.deep_view() =~= Seq::<Seq<char>>::empty());
        }
        c
    }

    /// What the caller should do next: request the page numbered
    /// `self.next_page`, or stop because the collection is finished.
    pub fn next_action(&self) -> (a: CollectorAction)
        ensures
            a == (if self.finished {
                CollectorAction::Finished
            } else {
                CollectorAction::Request(self.next_page)
            }),
    {
        if self.finished {
            CollectorAction::Finished
        } else {
            CollectorAction::Request(self.next_page)
        }
    }

    /// Hand the collector the decoded items of the page it asked for.  The
    /// page is appended whole; then, in this priority: if the accumulated
    /// count has reached the limit the collection stops, else if the page was
    /// short of the page size the endpoint is exhausted and the collection
    /// stops, else the collector moves on to the next page number.
    pub fn feed_page(&mut self, page: Vec<String>)
        requires
            old(self).wf(),
            !old(self).finished,
        ensures
            final(self).wf(),
            final(self).per_page == old(self).per_page,
            final(self).limit == old(self).limit,
            final(self).items.deep_view() == old(self).items.deep_view() + page.deep_view(),
            final(self).items@.len() == old(self).items@.len() + page@.len(),
            final(self).pages_fetched == old(self).pages_fetched + 1,
            final(self).finished == (final(self).items@.len() >= final(self).limit || page@.len()
                < final(self).per_page),
            final(self).finished ==> final(self).next_page == old(self).next_page,
            !final(self).finished ==> final(self).next_page == old(self).next_page + 1,
    {
        let ghost old_items = self.items.deep_view();
        let ghost page_view = page.deep_view();
        let page_len = page.len();
        let mut page_mut = page;
        self.items.append(&mut page_mut);
        proof {
            assert(self.items.deep_view() =~= old_items + page_view);
        }
        self.pages_fetched = self.pages_fetched + 1;
        if self.items.len() >= self.limit {
            self.finished = true;
        } else if page_len < self.per_page {
            self.finished = true;
        } else {
            self.next_page = self.next_page + 1;
        }
    }
}

/// Run the collection over pages that are already at hand: `pages[n - 1]`
/// answers the request for page `n`, and a request past the end of `pages` is
/// answered by an empty page.  Returns the accumulated logins and the number
/// of requests made, or the first error encountered; on an error no partial
/// result is returned.
pub fn collect_pages(pages: &Vec<PageOutcome>, per_page: usize, limit: usize) -> (r: Result<
    (Vec<String>, usize),
    FetchError,
>)
    requires
        per_page >= 1,
        limit >= 1,
    ensures
        match r {
            Ok(p) => Ok::<Seq<Seq<char>>, SpecFetchError>(p.0.deep_view()) == spec_collect(
                pages.deep_view(),
                per_page as nat,
                limit as nat,
            ) && p.1 == spec_requests(pages.deep_view(), per_page as nat, limit as nat),
            Err(e) => Err::<Seq<Seq<char>>, SpecFetchError>(e@) == spec_collect(
                pages.deep_view(),
                per_page as nat,
                limit as nat,
            ),
        },
{
    let ghost pv = pages.deep_view();
    let ghost pp = per_page as nat;
    let ghost ll = limit as nat;
    let mut c = Collector::new(per_page, limit);
    loop
        invariant
            c.wf(),
            c.per_page == per_page,
            c.limit == limit,
            per_page >= 1,
            limit >= 1,
            pv == pages.deep_view(),
            pp == per_page as nat,
            ll == limit as nat,
            !c.finished ==> spec_collect_from(pv, pp, ll, c.next_page as nat, c.items.deep_view())
                == spec_collect(pv, pp, ll),
            !c.finished ==> c.pages_fetched + spec_requests_from(
                pv,
                pp,
                ll,
                c.next_page as nat,
                c.items@.len(),
            ) == spec_requests(pv, pp, ll),
            c.finished ==> Ok::<Seq<Seq<char>>, SpecFetchError>(c.items.deep_view())
                == spec_collect(pv, pp, ll),
            c.finished ==> c.pages_fetched == spec_requests(pv, pp, ll),
            c.items@.len() == c.items.deep_view().len(),
            c.next_page <= pages@.len() + 1,
        decreases pages@.len() + 2 - c.next_page - (if c.finished {
            1int
        } else {
            0int
        }),
    {
        match c.next_action() {
            CollectorAction::Finished => {
                let reqs = c.pages_fetched;
                return Ok((c.items, reqs));
            },
            CollectorAction::Request(p) => {
                proof {
                    assert(c.items@.len() == c.items.deep_view().len());
                }
                if p <= pages.len() {
                    proof {
                        assert(pv[p - 1] == pages@[p - 1].deep_view());
                    }
                    match &pages[p - 1] {
                        PageOutcome::Http(status, body) => {
                            return Err(FetchError::Http(*status, body.clone()));
                        },
                        PageOutcome::Decode => {
                            return Err(FetchError::Decode);
                        },
                        PageOutcome::Items(v) => {
                            let page_items = v.clone();
                            proof {
                                assert(page_items.deep_view() =~= v.deep_view());
                            }
                            c.feed_page(page_items);
                        },
                    }
                } else {
                    let ghost pre = c;
                    let empty_page: Vec<String> = Vec::new();
                    proof {
                        assert(empty_page.deep_view() =~= Seq::<Seq<char>>::empty());
                        assert(pre.items.deep_view() + empty_page.deep_view()
                            =~= pre.items.deep_view());
                    }
                    c.feed_page(empty_page);
                }
            },
        }
    }
}

} // verus!
