use stock_tracker::error::{ProviderError, ResolverError, StoreError};
use stock_tracker::model::PricePoint;
use stock_tracker::resolver::{Action, Resolved};
use stock_tracker::store::StoreCommand;
use stock_tracker::surface::{
    begin_history, confirmation, history_reply, HistoryReply, PortfolioChange, FETCHED_AND_STORED,
    SCAN_LIMIT, TRAILING_DAYS,
};

fn point(timestamp: i64, price: f64) -> PricePoint {
    PricePoint { symbol: String::from("AAPL"), timestamp, price_bits: price.to_bits() }
}

#[test]
fn a_request_for_history_looks_thirty_days_back() {
    let now = 1_704_240_000_000;
    let (resolver, action) = begin_history(String::from("AAPL"), now).unwrap();
    assert_eq!(
        action,
        Action::Store(StoreCommand::Count {
            symbol: String::from("AAPL"),
            start: now - 30 * 86_400_000,
            end: now,
        })
    );
    let (_, action) = resolver.step(stock_tracker::resolver::Event::Counted(Ok(1)));
    assert_eq!(
        action,
        Action::Store(StoreCommand::Select {
            symbol: String::from("AAPL"),
            start: 1_701_648_000_000,
            end: now,
            limit: 50,
        })
    );
    assert_eq!(TRAILING_DAYS, 30);
    assert_eq!(SCAN_LIMIT, 50);
}

#[test]
fn a_request_for_history_before_all_time_begins_nothing() {
    assert!(begin_history(String::from("AAPL"), i64::MIN).is_none());
    assert!(begin_history(String::from("AAPL"), i64::MIN + 30 * 86_400_000 - 1).is_none());
    assert!(begin_history(String::from("AAPL"), i64::MIN + 30 * 86_400_000).is_some());
}

#[test]
fn cached_points_are_shown_as_they_are() {
    let points = vec![point(2, 151.25), point(1, 150.0)];
    match history_reply(Ok(Resolved::Cached(points.clone()))) {
        HistoryReply::Points(shown) => assert_eq!(shown, points),
        other => panic!("unexpected reply {:?}", other),
    }
    match history_reply(Ok(Resolved::Cached(Vec::new()))) {
        HistoryReply::Points(shown) => assert_eq!(shown, Vec::new()),
        other => panic!("unexpected reply {:?}", other),
    }
}

#[test]
fn fetched_points_are_answered_with_a_message() {
    match history_reply(Ok(Resolved::Fetched(vec![point(1, 150.0)]))) {
        HistoryReply::Message(text) => assert_eq!(text, "Data fetched and stored"),
        other => panic!("unexpected reply {:?}", other),
    }
    assert_eq!(FETCHED_AND_STORED, "Data fetched and stored");
}

#[test]
fn a_failure_is_answered_with_its_message() {
    let failures = [
        (ResolverError::Store(StoreError::Failure(String::from("down"))), "down"),
        (ResolverError::NotFound, "No rows found"),
        (ResolverError::Provider(ProviderError::Status(500)), "Failed to fetch data: HTTP 500"),
        (ResolverError::Provider(ProviderError::Http(String::from("reset"))), "reset"),
        (ResolverError::Provider(ProviderError::Decode(String::from("eof"))), "eof"),
    ];
    for (failure, message) in failures {
        match history_reply(Err(failure)) {
            HistoryReply::Rejected(rejection) => assert_eq!(rejection.message, message),
            other => panic!("unexpected reply {:?}", other),
        }
    }
}

#[test]
fn each_change_to_a_portfolio_has_its_confirmation() {
    assert_eq!(confirmation(PortfolioChange::Added), (201, "Portfolio added"));
    assert_eq!(confirmation(PortfolioChange::Updated), (200, "Portfolio updated"));
    assert_eq!(confirmation(PortfolioChange::Deleted), (200, "Portfolio deleted"));
}
