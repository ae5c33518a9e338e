//! Collecting all entries of one kind, page by page.
//!
//! The collector decides; its caller talks to the query service. The caller sends the
//! request that the collector names and reports what came back: a page of rows, or a
//! failure. Collection ends with the first page that is shorter than the page size.

use vstd::prelude::*;
use crate::graphql::{
    DebtEntry,
    ExchangeEntry,
    ParseError,
    PerpFeeEntry,
    RawEntry,
    RewardClaim,
    convert_page,
    first_malformed,
    page_converts_to,
};
use crate::retry::{GRAPHQL_RETRY_COUNT, RetryBudget};

verus! {

/// The number of entries asked for with each request.
pub const QUERY_ENTRY_COUNT: usize = 1000;

/// The variables of one request to the query service.
#[derive(Clone, Copy, Debug, PartialEq, Eq, Structural)]
pub struct PageRequest {
    pub block: u64,
    pub first: usize,
    pub skip: usize,
}

/// Why a collection was given up.
#[derive(Clone, Copy, Debug, PartialEq, Eq, Structural)]
pub enum CollectError {
    /// The request for one page failed more often than is tolerated.
    RetriesExhausted,
    /// A row of a page could not be read.
    Malformed(ParseError),
}

/// What the caller of the collector has to do next.
#[derive(Clone, Copy, Debug, PartialEq, Eq, Structural)]
pub enum CollectorAction {
    /// Send this request and report what came back.
    Fetch(PageRequest),
    /// The collection is complete.
    Finish,
    /// The collection is given up.
    Abort(CollectError),
}

/// What came back for a request.
pub enum PageEvent<R> {
    /// The rows of the page.
    Fetched(Vec<R>),
    /// The request failed.
    Failed,
}

/// The state of a collection.
pub struct Collector<T> {
    pub anchor_block: u64,
    pub page_size: usize,
    pub tolerated: u32,
    pub entries: Vec<T>,
    pub budget: RetryBudget,
    pub closed: bool,
}

/// Whether a page of this length ends the collection.
pub open spec fn is_last_page(page_len: int, page_size: int) -> bool {
    page_len < page_size
}

impl<T> Collector<T> {
    /// A collector can work where its pages have room for an entry.
    pub open spec fn wf(self) -> bool {
        self.page_size > 0
    }

    /// The request that the collector waits for.
    pub open spec fn pending(self) -> PageRequest {
        PageRequest {
            block: self.anchor_block,
            first: self.page_size,
            skip: self.entries@.len() as usize,
        }
    }

    /// A collector for the data as of `anchor_block`, with the page size and the
    /// tolerance of the protocol.
    pub fn new(anchor_block: u64) -> (r: Collector<T>)
        ensures
            r.wf(),
            !r.closed,
            r.anchor_block == anchor_block,
            r.page_size == QUERY_ENTRY_COUNT,
            r.tolerated == GRAPHQL_RETRY_COUNT,
            r.budget.remaining == GRAPHQL_RETRY_COUNT,
            r.entries@.len() == 0,
    {
        Collector {
            anchor_block,
            page_size: QUERY_ENTRY_COUNT,
            tolerated: GRAPHQL_RETRY_COUNT,
            entries: Vec::new(),
            budget: RetryBudget::new(GRAPHQL_RETRY_COUNT),
            closed: false,
        }
    }

    /// A collector with a page size and a tolerance of its own.
    pub fn with_limits(anchor_block: u64, page_size: usize, tolerated: u32) -> (r: Collector<T>)
        requires
            page_size > 0,
        ensures
            r.wf(),
            !r.closed,
            r.anchor_block == anchor_block,
            r.page_size == page_size,
            r.tolerated == tolerated,
            r.budget.remaining == tolerated,
            r.entries@.len() == 0,
    {
        Collector {
            anchor_block,
            page_size,
            tolerated,
            entries: Vec::new(),
            budget: RetryBudget::new(tolerated),
            closed: false,
        }
    }

    /// The request to send: for the next page after the entries that are there.
    pub fn request(&self) -> (r: PageRequest)
        ensures
            r == self.pending(),
    {
        PageRequest { block: self.anchor_block, first: self.page_size, skip: self.entries.len() }
    }

    /// Takes what came back for the pending request and says what to do next.
    ///
    /// A page that can be read is added to the entries; it ends the collection where it
    /// is shorter than the page size, and otherwise the next page is asked for, with the
    /// full tolerance for failures again. A page with a row that cannot be read gives the
    /// collection up. A failed request is sent again unless the tolerance is used up.
    pub fn step<R: RawEntry<Entry = T>>(&mut self, event: PageEvent<R>) -> (action: CollectorAction)
        requires
            old(self).wf(),
            !old(self).closed,
        ensures
            final(self).anchor_block == old(self).anchor_block,
            final(self).page_size == old(self).page_size,
            final(self).tolerated == old(self).tolerated,
            final(self).closed == !(action is Fetch),
            action matches CollectorAction::Fetch(r) ==> r == final(self).pending(),
            match event {
                PageEvent::Fetched(page) => {
                    if first_malformed(page@) < page@.len() {
                        &&& action == CollectorAction::Abort(
                            CollectError::Malformed(page@[first_malformed(page@)].failure()),
                        )
                        &&& final(self).entries@ == old(self).entries@
                    } else {
                        &&& final(self).entries@.len() == old(self).entries@.len() + page@.len()
                        &&& final(self).entries@.take(old(self).entries@.len() as int) == old(
                            self,
                        ).entries@
                        &&& page_converts_to(
                            page@,
                            final(self).entries@.skip(old(self).entries@.len() as int),
                        )
                        &&& final(self).budget.remaining == old(self).tolerated
                        &&& (action is Finish) == is_last_page(
                            page@.len() as int,
                            old(self).page_size as int,
                        )
                        &&& !(action is Abort)
                    }
                },
                PageEvent::Failed => {
                    &&& final(self).entries@ == old(self).entries@
                    &&& match old(self).budget.after_failure() {
                        Some(b) => action is Fetch && final(self).budget == b,
                        None => action == CollectorAction::Abort(CollectError::RetriesExhausted),
                    }
                },
            },
    {
        match event {
            PageEvent::Fetched(page) => {
                match convert_page(&page) {
                    Ok(mut converted) => {
                        let ghost before = self.entries@;
                        let ghost added = converted@;
                        self.entries.append(&mut converted);
                        proof {
                            assert(self.entries@.take(before.len() as int) =~= before);
                            assert(self.entries@.skip(before.len() as int) =~= added);
                        }
                        self.budget = RetryBudget::new(self.tolerated);
                        if page.len() < self.page_size {
                            self.closed = true;
                            CollectorAction::Finish
                        } else {
                            CollectorAction::Fetch(self.request())
                        }
                    },
                    Err(x) => {
                        self.closed = true;
                        CollectorAction::Abort(CollectError::Malformed(x))
                    },
                }
            },
            PageEvent::Failed => {
                if self.budget.fail() {
                    CollectorAction::Fetch(self.request())
                } else {
                    self.closed = true;
                    CollectorAction::Abort(CollectError::RetriesExhausted)
                }
            },
        }
    }

    /// The entries that were collected.
    pub fn into_entries(self) -> (r: Vec<T>)
        ensures
            r@ == self.entries@,
    {
        self.entries
    }
}

/// The query service as a node sees it: where it is, and as of which block it is asked.
#[derive(Clone, Debug, PartialEq, Eq)]
pub struct GraphqlClient {
    pub query_url: String,
    pub anchor_block: u64,
    pub timeout_secs: u64,
}

/// A collection that is about to start: the query to send with every request, and the
/// collector that says which requests to send.
pub struct EntryQuery<T> {
    pub query: String,
    pub collector: Collector<T>,
}

/// The query for debt snapshots.
pub open spec fn debt_entries_query() -> Seq<char> {
    "query ($block: Int!, $first: Int!, $skip: Int!) { entries: debtEntries(block: \
     { number: $block }, first: $first, skip: $skip, orderBy: index, \
     orderDirection: asc) { id index address debtFactor debtProportion timestamp } \
     }"@
}

/// The query for exchanges.
pub open spec fn exchange_entries_query() -> Seq<char> {
    "query ($block: Int!, $first: Int!, $skip: Int!) { entries: \
     exchangeEntries(block: { number: $block }, first: $first, skip: $skip, \
     orderBy: index, orderDirection: asc) { id index fromAddr sourceKey \
     sourceAmount destAddr destKey destRecived feeForPool feeForFoundation \
     timestamp } }"@
}

/// The query for derivative fees.
pub open spec fn perp_fee_entries_query() -> Seq<char> {
    "query ($block: Int!, $first: Int!, $skip: Int!) { entries: \
     perpFeeEntries(block: { number: $block }, first: $first, skip: $skip, orderBy: \
     index, orderDirection: asc) { id index feeForPool feeForFoundation timestamp } \
     }"@
}

/// The query for reward claims.
pub open spec fn reward_claims_query() -> Seq<char> {
    "query ($block: Int!, $first: Int!, $skip: Int!) { entries: rewardClaims(block: \
     { number: $block }, first: $first, skip: $skip, orderBy: index, \
     orderDirection: asc) { id index recipient periodId stakingReward feeReward } }"@
}

/// Whether `q` starts a collection with the query `text` as of `anchor_block`.
pub open spec fn starts_collection<T>(
    q: EntryQuery<T>,
    text: Seq<char>,
    anchor_block: u64,
) -> bool {
    &&& q.query@ == text
    &&& q.collector.wf()
    &&& !q.collector.closed
    &&& q.collector.anchor_block == anchor_block
    &&& q.collector.page_size == QUERY_ENTRY_COUNT
    &&& q.collector.tolerated == GRAPHQL_RETRY_COUNT
    &&& q.collector.budget.remaining == GRAPHQL_RETRY_COUNT
    &&& q.collector.entries@.len() == 0
}

impl GraphqlClient {
    /// A client for the service at `query_url`, asked as of `anchor_block`.
    pub fn new(query_url: String, anchor_block: u64, timeout_secs: u64) -> (r: GraphqlClient)
        ensures
            r.query_url == query_url,
            r.anchor_block == anchor_block,
            r.timeout_secs == timeout_secs,
    {
        GraphqlClient { query_url, anchor_block, timeout_secs }
    }

    /// Starts the collection of the debt snapshots.
    pub fn get_debt_entries(&self) -> (r: EntryQuery<DebtEntry>)
        ensures
            starts_collection(r, debt_entries_query(), self.anchor_block),
    {
        EntryQuery {
            query: "query ($block: Int!, $first: Int!, $skip: Int!) { entries: debtEntries(block: \
             { number: $block }, first: $first, skip: $skip, orderBy: index, \
             orderDirection: asc) { id index address debtFactor debtProportion timestamp } \
             }".to_owned(),
            collector: Collector::new(self.anchor_block),
        }
    }

    /// Starts the collection of the exchanges.
    pub fn get_exchange_entries(&self) -> (r: EntryQuery<ExchangeEntry>)
        ensures
            starts_collection(r, exchange_entries_query(), self.anchor_block),
    {
        EntryQuery {
            query: "query ($block: Int!, $first: Int!, $skip: Int!) { entries: \
             exchangeEntries(block: { number: $block }, first: $first, skip: $skip, \
             orderBy: index, orderDirection: asc) { id index fromAddr sourceKey \
             sourceAmount destAddr destKey destRecived feeForPool feeForFoundation \
             timestamp } }".to_owned(),
            collector: Collector::new(self.anchor_block),
        }
    }

    /// Starts the collection of the derivative fees.
    pub fn get_perp_fee_entries(&self) -> (r: EntryQuery<PerpFeeEntry>)
        ensures
            starts_collection(r, perp_fee_entries_query(), self.anchor_block),
    {
        EntryQuery {
            query: "query ($block: Int!, $first: Int!, $skip: Int!) { entries: \
             perpFeeEntries(block: { number: $block }, first: $first, skip: $skip, orderBy: \
             index, orderDirection: asc) { id index feeForPool feeForFoundation timestamp } \
             }".to_owned(),
            collector: Collector::new(self.anchor_block),
        }
    }

    /// Starts the collection of the reward claims.
    pub fn get_reward_claims(&self) -> (r: EntryQuery<RewardClaim>)
        ensures
            starts_collection(r, reward_claims_query(), self.anchor_block),
    {
        EntryQuery {
            query: "query ($block: Int!, $first: Int!, $skip: Int!) { entries: rewardClaims(block: \
             { number: $block }, first: $first, skip: $skip, orderBy: index, \
             orderDirection: asc) { id index recipient periodId stakingReward feeReward } \
             }".to_owned(),
            collector: Collector::new(self.anchor_block),
        }
    }
}

/// The page that a service holding `total` sends for a request.
pub open spec fn served_page<T>(total: Seq<T>, skip: int, first: int) -> Seq<T> {
    let from = if skip < total.len() {
        skip
    } else {
        total.len() as int
    };
    let to = if skip + first < total.len() {
        skip + first
    } else {
        total.len() as int
    };
    total.subrange(from, to)
}

/// What a collection that starts with the entries `have` ends with, and how many requests
/// it sends, where every request is answered from `total` and every row can be read.
pub open spec fn collected<T>(total: Seq<T>, page_size: int, have: Seq<T>) -> (Seq<T>, int)
    decreases total.len() - have.len(),
{
    let page = served_page(total, have.len() as int, page_size);
    if page_size <= 0 || is_last_page(page.len() as int, page_size) {
        (have + page, 1)
    } else {
        let rest = collected(total, page_size, have + page);
        (rest.0, rest.1 + 1)
    }
}

/// A collection that has the first entries of `total` ends with all of them.
proof fn lemma_collected_from<T>(total: Seq<T>, page_size: int, have: Seq<T>)
    requires
        page_size > 0,
        have.len() <= total.len(),
        have == total.take(have.len() as int),
    ensures
        collected(total, page_size, have).0 == total,
        collected(total, page_size, have).1 == (total.len() - have.len()) / page_size + 1,
    decreases total.len() - have.len(),
{
    let left = total.len() - have.len();
    let page = served_page(total, have.len() as int, page_size);
    if is_last_page(page.len() as int, page_size) {
        assert(have + page =~= total);
        assert(left / page_size == 0) by {
            vstd::arithmetic::div_mod::lemma_basic_div(left, page_size);
        }
    } else {
        let next = have + page;
        assert(next =~= total.take(next.len() as int));
        lemma_collected_from(total, page_size, next);
        assert((left - page_size) / page_size + 1 == left / page_size) by {
            vstd::arithmetic::div_mod::lemma_div_plus_one(left - page_size, page_size);
        }
    }
}

/// Pagination: against a service that holds `n` entries, a collection with pages of `p`
/// entries ends with exactly those entries, after `n / p + 1` requests. The last request
/// is the one that brings a page shorter than `p`, which is empty where `p` divides `n`.
pub proof fn lemma_pagination<T>(total: Seq<T>, page_size: int)
    requires
        page_size > 0,
    ensures
        collected(total, page_size, Seq::<T>::empty()).0 == total,
        collected(total, page_size, Seq::<T>::empty()).1 == (total.len() as int) / page_size + 1,
        (total.len() as int) % page_size != 0 ==> collected(
            total,
            page_size,
            Seq::<T>::empty(),
        ).1 == (total.len() + page_size - 1) / page_size,
{
    assert(Seq::<T>::empty() =~= total.take(0));
    lemma_collected_from(total, page_size, Seq::<T>::empty());
    let n = total.len() as int;
    if n % page_size != 0 {
        vstd::arithmetic::div_mod::lemma_fundamental_div_mod(n, page_size);
        vstd::arithmetic::div_mod::lemma_mod_bound(n, page_size);
        let q = n / page_size;
        let r = n % page_size;
        assert(n + page_size - 1 == page_size * (q + 1) + (r - 1)) by (nonlinear_arith)
            requires
                n == page_size * q + r,
        ;
        vstd::arithmetic::div_mod::lemma_fundamental_div_mod_converse(
            n + page_size - 1,
            page_size,
            q + 1,
            r - 1,
        );
    }
}

} // verus!
