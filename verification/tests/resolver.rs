use stock_tracker::error::{ProviderError, ResolverError, StoreError};
use stock_tracker::model::{PricePoint, Quote};
use stock_tracker::provider::DailyClose;
use stock_tracker::resolver::{Action, Event, Resolved, Resolver};
use stock_tracker::store::StoreCommand;

const DAY: i64 = 86_400_000;
const JAN_1: i64 = 1_704_067_200_000;
const JAN_2: i64 = JAN_1 + DAY;
const JAN_3: i64 = JAN_2 + DAY;

fn entry(date: &str, close: &str) -> DailyClose {
    DailyClose { date: String::from(date), close: close.parse::<f64>().ok().map(f64::to_bits) }
}

fn point(timestamp: i64, price: f64) -> PricePoint {
    PricePoint { symbol: String::from("AAPL"), timestamp, price_bits: price.to_bits() }
}

fn insert(timestamp: i64, price: f64) -> Action {
    Action::Store(StoreCommand::Insert {
        symbol: String::from("AAPL"),
        timestamp,
        price_bits: price.to_bits(),
    })
}

fn lookup() -> (Resolver, Action) {
    Resolver::lookup(String::from("AAPL"), JAN_1, JAN_3, 50)
}

fn at_requesting() -> Resolver {
    let (resolver, _) = lookup();
    let (resolver, action) = resolver.step(Event::Counted(Ok(0)));
    assert_eq!(action, Action::Fetch { symbol: String::from("AAPL") });
    resolver
}

fn at_decoding() -> Resolver {
    let (resolver, action) = at_requesting().step(Event::Responded(Ok(200)));
    assert_eq!(action, Action::Decode);
    resolver
}

#[test]
fn a_lookup_begins_with_the_count_of_its_window() {
    let (resolver, action) = lookup();
    assert_eq!(
        action,
        Action::Store(StoreCommand::Count { symbol: String::from("AAPL"), start: JAN_1, end: JAN_3 })
    );
    assert_eq!(resolver.symbol(), "AAPL");
}

#[test]
fn a_window_with_data_is_served_from_the_store() {
    let (resolver, _) = lookup();
    let (resolver, action) = resolver.step(Event::Counted(Ok(2)));
    assert_eq!(
        action,
        Action::Store(StoreCommand::Select {
            symbol: String::from("AAPL"),
            start: JAN_1,
            end: JAN_3,
            limit: 50,
        })
    );
    let rows = vec![
        Quote { timestamp: JAN_3, price_bits: 151.25f64.to_bits() },
        Quote { timestamp: JAN_2, price_bits: 150.0f64.to_bits() },
    ];
    let (_, action) = resolver.step(Event::Scanned(Ok(rows)));
    assert_eq!(
        action,
        Action::Reply(Ok(Resolved::Cached(vec![point(JAN_3, 151.25), point(JAN_2, 150.0)])))
    );
}

#[test]
fn a_window_without_data_goes_to_the_provider() {
    let resolver = at_decoding();
    let entries = vec![entry("2024-01-02", "150.00"), entry("2024-01-03", "151.25")];
    let (resolver, action) = resolver.step(Event::Decoded(Ok(entries)));
    assert_eq!(action, insert(JAN_2, 150.0));
    let (resolver, action) = resolver.step(Event::Stored(Ok(())));
    assert_eq!(action, insert(JAN_3, 151.25));
    let (_, action) = resolver.step(Event::Stored(Ok(())));
    assert_eq!(
        action,
        Action::Reply(Ok(Resolved::Fetched(vec![point(JAN_2, 150.0), point(JAN_3, 151.25)])))
    );
}

#[test]
fn a_negative_count_is_no_data() {
    let (resolver, _) = lookup();
    let (_, action) = resolver.step(Event::Counted(Ok(-3)));
    assert_eq!(action, Action::Fetch { symbol: String::from("AAPL") });
}

#[test]
fn a_failed_count_ends_the_request() {
    let (resolver, _) = lookup();
    let failure = StoreError::Failure(String::from("no connection"));
    let (resolver, action) = resolver.step(Event::Counted(Err(failure.clone())));
    assert_eq!(action, Action::Reply(Err(ResolverError::Store(failure))));
    let (_, action) = resolver.step(Event::Counted(Ok(1)));
    assert_eq!(action, Action::Ignore);
}

#[test]
fn a_failed_scan_ends_the_request() {
    let (resolver, _) = lookup();
    let (resolver, _) = resolver.step(Event::Counted(Ok(1)));
    let failure = StoreError::Failure(String::from("timeout"));
    let (_, action) = resolver.step(Event::Scanned(Err(failure.clone())));
    assert_eq!(action, Action::Reply(Err(ResolverError::Store(failure))));
}

#[test]
fn a_scan_without_a_row_set_is_the_resolvers_not_found() {
    let (resolver, _) = lookup();
    let (resolver, _) = resolver.step(Event::Counted(Ok(1)));
    let (_, action) = resolver.step(Event::Scanned(Err(StoreError::NotFound)));
    assert_eq!(action, Action::Reply(Err(ResolverError::NotFound)));
}

#[test]
fn an_empty_scan_is_an_empty_reply() {
    let (resolver, _) = lookup();
    let (resolver, _) = resolver.step(Event::Counted(Ok(1)));
    let (_, action) = resolver.step(Event::Scanned(Ok(Vec::new())));
    assert_eq!(action, Action::Reply(Ok(Resolved::Cached(Vec::new()))));
}

#[test]
fn a_request_that_gets_no_answer_fails_with_the_transport() {
    let failure = ProviderError::Http(String::from("connection reset"));
    let (_, action) = at_requesting().step(Event::Responded(Err(failure.clone())));
    assert_eq!(action, Action::Reply(Err(ResolverError::Provider(failure))));
}

#[test]
fn a_status_outside_the_successes_fails_with_the_status() {
    for status in [199, 300, 301, 404, 429, 500] {
        let (_, action) = at_requesting().step(Event::Responded(Ok(status)));
        assert_eq!(
            action,
            Action::Reply(Err(ResolverError::Provider(ProviderError::Status(status))))
        );
    }
    for status in [200, 201, 299] {
        let (_, action) = at_requesting().step(Event::Responded(Ok(status)));
        assert_eq!(action, Action::Decode);
    }
}

#[test]
fn a_payload_that_cannot_be_read_fails_with_the_decoder() {
    let failure = ProviderError::Decode(String::from("missing field `Time Series (Daily)`"));
    let (_, action) = at_decoding().step(Event::Decoded(Err(failure.clone())));
    assert_eq!(action, Action::Reply(Err(ResolverError::Provider(failure))));
}

#[test]
fn an_empty_series_is_answered_without_a_write() {
    let (_, action) = at_decoding().step(Event::Decoded(Ok(Vec::new())));
    assert_eq!(action, Action::Reply(Ok(Resolved::Fetched(Vec::new()))));
    let (_, action) = at_decoding().step(Event::Decoded(Ok(vec![entry("never", "1.0")])));
    assert_eq!(action, Action::Reply(Ok(Resolved::Fetched(Vec::new()))));
}

#[test]
fn a_failed_write_ends_the_request_and_writes_no_more() {
    let entries = vec![
        entry("2024-01-01", "149.00"),
        entry("2024-01-02", "150.00"),
        entry("2024-01-03", "151.25"),
    ];
    let (resolver, action) = at_decoding().step(Event::Decoded(Ok(entries)));
    assert_eq!(action, insert(JAN_1, 149.0));
    let (resolver, action) = resolver.step(Event::Stored(Ok(())));
    assert_eq!(action, insert(JAN_2, 150.0));
    let failure = StoreError::Failure(String::from("write timeout"));
    let (resolver, action) = resolver.step(Event::Stored(Err(failure.clone())));
    assert_eq!(action, Action::Reply(Err(ResolverError::Store(failure))));
    let (_, action) = resolver.step(Event::Stored(Ok(())));
    assert_eq!(action, Action::Ignore);
}

#[test]
fn a_lookup_stores_what_lies_outside_its_window_too() {
    let (resolver, _) = Resolver::lookup(String::from("AAPL"), JAN_2, JAN_2, 50);
    let (resolver, _) = resolver.step(Event::Counted(Ok(0)));
    let (resolver, _) = resolver.step(Event::Responded(Ok(200)));
    let entries = vec![entry("2024-01-01", "149.00"), entry("2024-01-03", "151.25")];
    let (resolver, action) = resolver.step(Event::Decoded(Ok(entries)));
    assert_eq!(action, insert(JAN_1, 149.0));
    let (_, action) = resolver.step(Event::Stored(Ok(())));
    assert_eq!(action, insert(JAN_3, 151.25));
}

#[test]
fn a_prefetch_asks_the_provider_at_once_and_stores_only_its_window() {
    let (resolver, action) = Resolver::prefetch(String::from("AAPL"), JAN_2, JAN_3);
    assert_eq!(action, Action::Fetch { symbol: String::from("AAPL") });
    let (resolver, action) = resolver.step(Event::Responded(Ok(200)));
    assert_eq!(action, Action::Decode);
    let entries = vec![
        entry("2024-01-01", "149.00"),
        entry("2024-01-02", "150.00"),
        entry("2024-01-04", "152.00"),
        entry("2024-01-03", "bad"),
    ];
    let (resolver, action) = resolver.step(Event::Decoded(Ok(entries)));
    assert_eq!(action, insert(JAN_2, 150.0));
    let (resolver, action) = resolver.step(Event::Stored(Ok(())));
    assert_eq!(action, insert(JAN_3, 0.0));
    let (_, action) = resolver.step(Event::Stored(Ok(())));
    assert_eq!(
        action,
        Action::Reply(Ok(Resolved::Fetched(vec![point(JAN_2, 150.0), point(JAN_3, 0.0)])))
    );
}

#[test]
fn an_event_that_answers_nothing_changes_nothing() {
    let (resolver, _) = lookup();
    let (resolver, action) = resolver.step(Event::Stored(Ok(())));
    assert_eq!(action, Action::Ignore);
    let (resolver, action) = resolver.step(Event::Responded(Ok(200)));
    assert_eq!(action, Action::Ignore);
    let (resolver, action) = resolver.step(Event::Decoded(Ok(Vec::new())));
    assert_eq!(action, Action::Ignore);
    let (resolver, action) = resolver.step(Event::Scanned(Ok(Vec::new())));
    assert_eq!(action, Action::Ignore);
    let (_, action) = resolver.step(Event::Counted(Ok(1)));
    assert_eq!(
        action,
        Action::Store(StoreCommand::Select {
            symbol: String::from("AAPL"),
            start: JAN_1,
            end: JAN_3,
            limit: 50,
        })
    );
}
