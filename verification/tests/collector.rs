use reward_oracle::collector::{
    CollectError, Collector, CollectorAction, GraphqlClient, PageEvent, PageRequest,
    QUERY_ENTRY_COUNT,
};
use reward_oracle::graphql::{ParseError, PerpFeeEntry, RawPerpFeeEntry};
use reward_oracle::retry::{
    page_budget, signing_budget, RetryBudget, GRAPHQL_RETRY_COUNT, SIGNING_ATTEMPTS,
    SIGNING_RETRY_DELAY_SECS,
};

fn row(index: usize) -> RawPerpFeeEntry {
    RawPerpFeeEntry {
        id: format!("perp-{index}"),
        index: index.to_string(),
        fee_for_pool: "1".to_string(),
        fee_for_foundation: "0".to_string(),
        timestamp: "100".to_string(),
    }
}

fn serve(total: &[RawPerpFeeEntry], request: &PageRequest) -> Vec<RawPerpFeeEntry> {
    total.iter().skip(request.skip).take(request.first).cloned().collect()
}

fn collect(n: usize, page_size: usize) -> (Vec<PerpFeeEntry>, usize) {
    let total: Vec<RawPerpFeeEntry> = (0..n).map(row).collect();
    let mut collector: Collector<PerpFeeEntry> = Collector::with_limits(77, page_size, 5);
    let mut request = collector.request();
    let mut requests = 0;
    loop {
        assert_eq!(request.block, 77);
        assert_eq!(request.first, page_size);
        requests += 1;
        assert!(requests <= n + 1);
        match collector.step(PageEvent::Fetched(serve(&total, &request))) {
            CollectorAction::Fetch(next) => request = next,
            CollectorAction::Finish => break,
            CollectorAction::Abort(e) => panic!("aborted: {e:?}"),
        }
    }
    assert!(collector.closed);
    (collector.into_entries(), requests)
}

#[test]
fn protocol_constants() {
    assert_eq!(QUERY_ENTRY_COUNT, 1000);
    assert_eq!(GRAPHQL_RETRY_COUNT, 5);
    assert_eq!(SIGNING_ATTEMPTS, 10);
    assert_eq!(SIGNING_RETRY_DELAY_SECS, 10);
    let c: Collector<PerpFeeEntry> = Collector::new(9);
    assert_eq!(c.request(), PageRequest { block: 9, first: 1000, skip: 0 });
    assert_eq!(c.budget, page_budget());
    assert!(!c.closed);
}

#[test]
fn empty_service_takes_one_request() {
    let (entries, requests) = collect(0, 3);
    assert!(entries.is_empty());
    assert_eq!(requests, 1);
}

#[test]
fn short_last_page_ends_the_collection() {
    let (entries, requests) = collect(7, 3);
    assert_eq!(entries.iter().map(|e| e.index).collect::<Vec<_>>(), vec![0, 1, 2, 3, 4, 5, 6]);
    assert_eq!(requests, 3);
    let (entries, requests) = collect(2, 3);
    assert_eq!(entries.len(), 2);
    assert_eq!(requests, 1);
}

#[test]
fn full_last_page_is_followed_by_an_empty_one() {
    let (entries, requests) = collect(6, 3);
    assert_eq!(entries.len(), 6);
    assert_eq!(requests, 3);
    let (entries, requests) = collect(3, 3);
    assert_eq!(entries.len(), 3);
    assert_eq!(requests, 2);
}

#[test]
fn every_count_is_collected_in_full() {
    for page_size in 1..=5usize {
        for n in 0..=17usize {
            let (entries, requests) = collect(n, page_size);
            assert_eq!(entries.len(), n);
            assert_eq!(requests, n / page_size + 1);
            if n % page_size != 0 {
                assert_eq!(requests, (n + page_size - 1) / page_size);
            }
        }
    }
}

#[test]
fn requests_skip_what_is_there() {
    let total: Vec<RawPerpFeeEntry> = (0..5).map(row).collect();
    let mut c: Collector<PerpFeeEntry> = Collector::with_limits(1, 2, 5);
    assert_eq!(c.request(), PageRequest { block: 1, first: 2, skip: 0 });
    let a = c.step(PageEvent::Fetched(serve(&total, &c.request())));
    assert_eq!(a, CollectorAction::Fetch(PageRequest { block: 1, first: 2, skip: 2 }));
    let a = c.step(PageEvent::Fetched(serve(&total, &c.request())));
    assert_eq!(a, CollectorAction::Fetch(PageRequest { block: 1, first: 2, skip: 4 }));
    let a = c.step(PageEvent::Fetched(serve(&total, &c.request())));
    assert_eq!(a, CollectorAction::Finish);
    assert_eq!(c.entries.len(), 5);
}

#[test]
fn tolerated_failures_are_retried() {
    let total: Vec<RawPerpFeeEntry> = (0..1).map(row).collect();
    let mut c: Collector<PerpFeeEntry> = Collector::new(1);
    for _ in 0..GRAPHQL_RETRY_COUNT {
        let a = c.step(PageEvent::<RawPerpFeeEntry>::Failed);
        assert_eq!(a, CollectorAction::Fetch(PageRequest { block: 1, first: 1000, skip: 0 }));
        assert!(!c.closed);
    }
    let a = c.step(PageEvent::Fetched(serve(&total, &c.request())));
    assert_eq!(a, CollectorAction::Finish);
    assert_eq!(c.into_entries().len(), 1);
}

#[test]
fn one_failure_more_gives_up() {
    let mut c: Collector<PerpFeeEntry> = Collector::new(1);
    for _ in 0..GRAPHQL_RETRY_COUNT {
        assert!(matches!(c.step(PageEvent::<RawPerpFeeEntry>::Failed), CollectorAction::Fetch(_)));
    }
    let a = c.step(PageEvent::<RawPerpFeeEntry>::Failed);
    assert_eq!(a, CollectorAction::Abort(CollectError::RetriesExhausted));
    assert!(c.closed);
}

#[test]
fn tolerance_starts_anew_with_each_page() {
    let total: Vec<RawPerpFeeEntry> = (0..4).map(row).collect();
    let mut c: Collector<PerpFeeEntry> = Collector::with_limits(1, 2, 2);
    assert!(matches!(c.step(PageEvent::<RawPerpFeeEntry>::Failed), CollectorAction::Fetch(_)));
    assert!(matches!(c.step(PageEvent::<RawPerpFeeEntry>::Failed), CollectorAction::Fetch(_)));
    assert!(matches!(
        c.step(PageEvent::Fetched(serve(&total, &c.request()))),
        CollectorAction::Fetch(_)
    ));
    assert_eq!(c.budget, RetryBudget::new(2));
    assert!(matches!(c.step(PageEvent::<RawPerpFeeEntry>::Failed), CollectorAction::Fetch(_)));
    assert!(matches!(c.step(PageEvent::<RawPerpFeeEntry>::Failed), CollectorAction::Fetch(_)));
    assert_eq!(
        c.step(PageEvent::<RawPerpFeeEntry>::Failed),
        CollectorAction::Abort(CollectError::RetriesExhausted)
    );
    assert_eq!(c.entries.len(), 2);
}

#[test]
fn malformed_row_gives_the_collection_up() {
    let mut page: Vec<RawPerpFeeEntry> = (0..3).map(row).collect();
    page[1].timestamp = "yesterday".to_string();
    let mut c: Collector<PerpFeeEntry> = Collector::with_limits(1, 3, 5);
    let a = c.step(PageEvent::Fetched(page));
    assert_eq!(a, CollectorAction::Abort(CollectError::Malformed(ParseError::Integer)));
    assert!(c.closed);
    assert!(c.entries.is_empty());
}

#[test]
fn budget_counts_down_to_the_ceiling() {
    let mut b = RetryBudget::new(2);
    assert!(b.fail());
    assert_eq!(b.remaining, 1);
    assert!(b.fail());
    assert_eq!(b.remaining, 0);
    assert!(!b.fail());
    assert_eq!(b.remaining, 0);
    let mut none = RetryBudget::new(0);
    assert!(!none.fail());
    assert_eq!(signing_budget().remaining, 9);
}

#[test]
fn each_kind_of_entry_has_its_query() {
    let client = GraphqlClient::new("https://graph.example/query".to_string(), 1234, 10);
    assert_eq!(client.query_url, "https://graph.example/query");
    assert_eq!(client.anchor_block, 1234);
    assert_eq!(client.timeout_secs, 10);
    let debts = client.get_debt_entries();
    assert!(debts.query.contains("entries: debtEntries("));
    assert!(debts.query.contains("{ id index address debtFactor debtProportion timestamp }"));
    assert_eq!(debts.collector.request(), PageRequest { block: 1234, first: 1000, skip: 0 });
    let exchanges = client.get_exchange_entries();
    assert!(exchanges.query.contains("entries: exchangeEntries("));
    assert!(exchanges.query.contains(
        "{ id index fromAddr sourceKey sourceAmount destAddr destKey destRecived feeForPool \
         feeForFoundation timestamp }"
    ));
    assert_eq!(exchanges.collector.request(), PageRequest { block: 1234, first: 1000, skip: 0 });
    let perps = client.get_perp_fee_entries();
    assert!(perps.query.contains("entries: perpFeeEntries("));
    assert!(perps.query.contains("{ id index feeForPool feeForFoundation timestamp }"));
    let claims = client.get_reward_claims();
    assert!(claims.query.contains("entries: rewardClaims("));
    assert!(claims.query.contains("{ id index recipient periodId stakingReward feeReward }"));
    for query in [&debts.query, &exchanges.query, &perps.query, &claims.query] {
        assert!(query.starts_with("query ($block: Int!, $first: Int!, $skip: Int!)"));
        assert!(query.contains("block: { number: $block }, first: $first, skip: $skip"));
        assert!(query.contains("orderBy: index, orderDirection: asc"));
    }
    assert!(!claims.collector.closed);
}
