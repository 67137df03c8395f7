use stock_tracker::error::{ProviderError, ResolverError};
use stock_tracker::model::{FetchWindow, PricePoint, Quote};
use stock_tracker::provider::DailyClose;
use stock_tracker::resolver::{Action, Event, Resolved, Resolver};
use stock_tracker::error::StoreError;
use stock_tracker::run::{
    drain, execute, prefetch, resolve, Failure, PrefetchJob, ProviderAnswer, Resolution, Store,
};
use stock_tracker::store::StoreCommand;
use stock_tracker::table::PriceTable;

const DAY: i64 = 86_400_000;
const JAN_1: i64 = 1_704_067_200_000;
const JAN_2: i64 = JAN_1 + DAY;
const JAN_3: i64 = JAN_2 + DAY;

fn entry(date: &str, close: &str) -> DailyClose {
    DailyClose { date: String::from(date), close: close.parse::<f64>().ok().map(f64::to_bits) }
}

fn quote(timestamp: i64, price: f64) -> Quote {
    Quote { timestamp, price_bits: price.to_bits() }
}

fn point(symbol: &str, timestamp: i64, price: f64) -> PricePoint {
    PricePoint { symbol: String::from(symbol), timestamp, price_bits: price.to_bits() }
}

fn serving(entries: Vec<DailyClose>) -> ProviderAnswer {
    ProviderAnswer { response: Ok(200), payload: Ok(entries) }
}

fn month() -> Vec<DailyClose> {
    let mut entries = Vec::new();
    for day in 1..=30 {
        entries.push(entry(&format!("2024-01-{:02}", day), &format!("{}.5", 100 + day)));
    }
    entries
}

#[test]
fn resolve_on_an_empty_store_fetches_once_and_stores_the_series() {
    let symbol = String::from("AAPL");
    let mut store = Store::new();
    let provider = serving(vec![entry("2024-01-02", "150.00"), entry("2024-01-03", "151.25")]);
    let run = resolve(&mut store, &provider, symbol.clone(), JAN_1, JAN_3, 50);
    assert_eq!(
        run,
        Resolution {
            reply: Ok(Resolved::Fetched(vec![
                point("AAPL", JAN_2, 150.0),
                point("AAPL", JAN_3, 151.25),
            ])),
            fetches: 1,
        }
    );
    assert!(store.table.data_exists(&symbol, JAN_1, JAN_3));
    assert_eq!(store.table.scan(&symbol, JAN_1, JAN_3, 50), vec![quote(JAN_3, 151.25), quote(JAN_2, 150.0)]);
}

#[test]
fn resolve_on_a_store_with_data_does_not_ask_the_provider() {
    let symbol = String::from("AAPL");
    let mut store = Store::new();
    store.table.upsert(&symbol, quote(JAN_2, 150.0));
    let provider = serving(vec![entry("2024-01-03", "151.25")]);
    let run = resolve(&mut store, &provider, symbol.clone(), JAN_1, JAN_3, 50);
    assert_eq!(
        run,
        Resolution { reply: Ok(Resolved::Cached(vec![point("AAPL", JAN_2, 150.0)])), fetches: 0 }
    );
    assert_eq!(store.table.count(&symbol, i64::MIN, i64::MAX), 1);
    let failing = ProviderAnswer {
        response: Err(ProviderError::Http(String::from("unreachable"))),
        payload: Err(ProviderError::Decode(String::from("unread"))),
    };
    let again = resolve(&mut store, &failing, symbol.clone(), JAN_1, JAN_3, 50);
    assert_eq!(again.fetches, 0);
    assert_eq!(again.reply, Ok(Resolved::Cached(vec![point("AAPL", JAN_2, 150.0)])));
}

#[test]
fn a_second_resolve_is_served_from_the_store() {
    let symbol = String::from("AAPL");
    let mut store = Store::new();
    let provider = serving(vec![entry("2024-01-02", "150.00"), entry("2024-01-03", "151.25")]);
    assert_eq!(resolve(&mut store, &provider, symbol.clone(), JAN_1, JAN_3, 50).fetches, 1);
    let second = resolve(&mut store, &provider, symbol.clone(), JAN_1, JAN_3, 50);
    assert_eq!(
        second,
        Resolution {
            reply: Ok(Resolved::Cached(vec![
                point("AAPL", JAN_3, 151.25),
                point("AAPL", JAN_2, 150.0),
            ])),
            fetches: 0,
        }
    );
}

#[test]
fn a_miss_returns_every_point_of_the_provider_not_only_the_window() {
    let symbol = String::from("X");
    let mut store = Store::new();
    let run = resolve(&mut store, &serving(month()), symbol.clone(), JAN_1, JAN_1, 50);
    assert_eq!(run.fetches, 1);
    let points = match run.reply {
        Ok(Resolved::Fetched(points)) => points,
        other => panic!("unexpected reply {:?}", other),
    };
    assert_eq!(points.len(), 30);
    for day in 0..30 {
        assert_eq!(points[day], point("X", JAN_1 + day as i64 * DAY, 101.5 + day as f64));
    }
    assert_eq!(store.table.count(&symbol, i64::MIN, i64::MAX), 30);
    assert_eq!(store.table.count(&symbol, JAN_1, JAN_1), 1);
}

#[test]
fn a_miss_whose_series_lies_outside_the_window_leaves_the_window_empty() {
    let symbol = String::from("AAPL");
    let mut store = Store::new();
    let provider = serving(vec![entry("2024-01-03", "151.25")]);
    let first = resolve(&mut store, &provider, symbol.clone(), JAN_1, JAN_2, 50);
    assert_eq!(first.reply, Ok(Resolved::Fetched(vec![point("AAPL", JAN_3, 151.25)])));
    assert!(!store.table.data_exists(&symbol, JAN_1, JAN_2));
    let second = resolve(&mut store, &provider, symbol.clone(), JAN_1, JAN_2, 50);
    assert_eq!(second.fetches, 1);
    assert_eq!(store.table.count(&symbol, i64::MIN, i64::MAX), 1);
}

#[test]
fn a_close_that_is_not_a_number_is_stored_as_zero() {
    let symbol = String::from("AAPL");
    let mut store = Store::new();
    let provider = serving(vec![entry("2024-01-02", "not a number")]);
    let run = resolve(&mut store, &provider, symbol.clone(), JAN_1, JAN_3, 50);
    assert_eq!(run.reply, Ok(Resolved::Fetched(vec![point("AAPL", JAN_2, 0.0)])));
    let stored = store.table.scan(&symbol, JAN_2, JAN_2, 50);
    assert_eq!(stored.len(), 1);
    assert_eq!(f64::from_bits(stored[0].price_bits), 0.0);
}

#[test]
fn the_cached_reply_stops_at_the_limit() {
    let symbol = String::from("AAPL");
    let mut store = Store::new();
    for day in 0..60 {
        store.table.upsert(&symbol, quote(day * DAY, day as f64));
    }
    let run = resolve(&mut store, &serving(Vec::new()), symbol.clone(), 0, 59 * DAY, 50);
    match run.reply {
        Ok(Resolved::Cached(points)) => {
            assert_eq!(points.len(), 50);
            assert_eq!(points[0], point("AAPL", 59 * DAY, 59.0));
            assert_eq!(points[49], point("AAPL", 10 * DAY, 10.0));
        },
        other => panic!("unexpected reply {:?}", other),
    }
    assert_eq!(run.fetches, 0);
}

#[test]
fn a_provider_that_is_unreachable_fails_the_lookup_and_stores_nothing() {
    let symbol = String::from("AAPL");
    let mut store = Store::new();
    let failure = ProviderError::Http(String::from("connection refused"));
    let provider = ProviderAnswer {
        response: Err(failure.clone()),
        payload: Ok(vec![entry("2024-01-02", "150.00")]),
    };
    let run = resolve(&mut store, &provider, symbol.clone(), JAN_1, JAN_3, 50);
    assert_eq!(run, Resolution { reply: Err(ResolverError::Provider(failure)), fetches: 1 });
    assert_eq!(store.table.count(&symbol, i64::MIN, i64::MAX), 0);
}

#[test]
fn a_bad_status_fails_the_lookup_without_reading_the_payload() {
    let symbol = String::from("AAPL");
    let mut store = Store::new();
    let provider =
        ProviderAnswer { response: Ok(503), payload: Ok(vec![entry("2024-01-02", "150.00")]) };
    let run = resolve(&mut store, &provider, symbol.clone(), JAN_1, JAN_3, 50);
    assert_eq!(
        run,
        Resolution { reply: Err(ResolverError::Provider(ProviderError::Status(503))), fetches: 1 }
    );
    assert_eq!(store.table.count(&symbol, i64::MIN, i64::MAX), 0);
}

#[test]
fn a_malformed_payload_fails_the_lookup() {
    let symbol = String::from("AAPL");
    let mut store = Store::new();
    let failure = ProviderError::Decode(String::from("expected value at line 1 column 1"));
    let provider = ProviderAnswer { response: Ok(200), payload: Err(failure.clone()) };
    let run = resolve(&mut store, &provider, symbol.clone(), JAN_1, JAN_3, 50);
    assert_eq!(run, Resolution { reply: Err(ResolverError::Provider(failure)), fetches: 1 });
    assert!(!store.table.data_exists(&symbol, i64::MIN, i64::MAX));
}

#[test]
fn a_prefetch_stores_only_the_window_even_over_data() {
    let symbol = String::from("AAPL");
    let mut store = Store::new();
    store.table.upsert(&symbol, quote(JAN_2, 1.0));
    let window = FetchWindow { symbol: symbol.clone(), start: JAN_2, end: JAN_3 };
    let provider = serving(vec![
        entry("2024-01-01", "149.00"),
        entry("2024-01-02", "150.00"),
        entry("2024-01-03", "151.25"),
        entry("2024-01-04", "152.00"),
    ]);
    let run = prefetch(&mut store, &provider, window);
    assert_eq!(
        run,
        Resolution {
            reply: Ok(Resolved::Fetched(vec![
                point("AAPL", JAN_2, 150.0),
                point("AAPL", JAN_3, 151.25),
            ])),
            fetches: 1,
        }
    );
    assert_eq!(
        store.table.scan(&symbol, i64::MIN, i64::MAX, 50),
        vec![quote(JAN_3, 151.25), quote(JAN_2, 150.0)]
    );
}

#[test]
fn the_table_answers_each_command() {
    let symbol = String::from("AAPL");
    let mut table = PriceTable::new();
    assert_eq!(
        execute(&mut table, StoreCommand::Count { symbol: symbol.clone(), start: 0, end: 10 }),
        Event::Counted(Ok(0))
    );
    for timestamp in [3, 1, 2] {
        assert_eq!(
            execute(
                &mut table,
                StoreCommand::Insert { symbol: symbol.clone(), timestamp, price_bits: 7 }
            ),
            Event::Stored(Ok(()))
        );
    }
    assert_eq!(
        execute(&mut table, StoreCommand::Count { symbol: symbol.clone(), start: 0, end: 10 }),
        Event::Counted(Ok(3))
    );
    assert_eq!(
        execute(&mut table, StoreCommand::Count { symbol: symbol.clone(), start: 2, end: 10 }),
        Event::Counted(Ok(2))
    );
    assert_eq!(
        execute(
            &mut table,
            StoreCommand::Select { symbol: symbol.clone(), start: 0, end: 10, limit: 2 }
        ),
        Event::Scanned(Ok(vec![
            Quote { timestamp: 3, price_bits: 7 },
            Quote { timestamp: 2, price_bits: 7 },
        ]))
    );
}

#[test]
fn a_drained_queue_has_every_window_handled() {
    let mut store = Store::new();
    let mut jobs = Vec::new();
    for symbol in ["AAPL", "GOOGL", "MSFT", "ABNB", "ADBE"] {
        for (start, end) in [(JAN_2, JAN_3), (JAN_1, JAN_1)] {
            jobs.push(PrefetchJob {
                window: FetchWindow { symbol: String::from(symbol), start, end },
                answer: serving(vec![
                    entry("2024-01-01", "149.00"),
                    entry("2024-01-02", "150.00"),
                    entry("2024-01-03", "151.25"),
                ]),
            });
        }
    }
    let log = drain(&mut store, &jobs);
    assert_eq!(log.handled, 10);
    assert_eq!(log.failures, Vec::new());
    for symbol in ["AAPL", "GOOGL", "MSFT", "ABNB", "ADBE"] {
        assert_eq!(
            store.table.scan(&String::from(symbol), i64::MIN, i64::MAX, 50),
            vec![quote(JAN_3, 151.25), quote(JAN_2, 150.0), quote(JAN_1, 149.0)]
        );
    }
}

#[test]
fn a_failed_prefetch_is_put_on_record_and_the_next_window_is_taken() {
    let mut store = Store::new();
    let window = |symbol: &str| FetchWindow { symbol: String::from(symbol), start: JAN_1, end: JAN_3 };
    let jobs = vec![
        PrefetchJob {
            window: window("AAPL"),
            answer: ProviderAnswer {
                response: Err(ProviderError::Http(String::from("timed out"))),
                payload: Ok(Vec::new()),
            },
        },
        PrefetchJob { window: window("GOOGL"), answer: serving(vec![entry("2024-01-02", "140.00")]) },
        PrefetchJob {
            window: window("MSFT"),
            answer: ProviderAnswer { response: Ok(429), payload: Ok(Vec::new()) },
        },
        PrefetchJob {
            window: window("ABNB"),
            answer: ProviderAnswer {
                response: Ok(200),
                payload: Err(ProviderError::Decode(String::from("not json"))),
            },
        },
        PrefetchJob { window: window("ADBE"), answer: serving(vec![entry("2024-01-03", "x")]) },
    ];
    let log = drain(&mut store, &jobs);
    assert_eq!(log.handled, 5);
    assert_eq!(
        log.failures,
        vec![
            Failure {
                symbol: String::from("AAPL"),
                error: ResolverError::Provider(ProviderError::Http(String::from("timed out"))),
            },
            Failure {
                symbol: String::from("MSFT"),
                error: ResolverError::Provider(ProviderError::Status(429)),
            },
            Failure {
                symbol: String::from("ABNB"),
                error: ResolverError::Provider(ProviderError::Decode(String::from("not json"))),
            },
        ]
    );
    assert_eq!(store.table.scan(&String::from("GOOGL"), JAN_1, JAN_3, 50), vec![quote(JAN_2, 140.0)]);
    assert_eq!(store.table.scan(&String::from("ADBE"), JAN_1, JAN_3, 50), vec![quote(JAN_3, 0.0)]);
    assert!(!store.table.data_exists(&String::from("AAPL"), i64::MIN, i64::MAX));
}

#[test]
fn an_empty_queue_is_drained_at_once() {
    let mut store = Store::new();
    let log = drain(&mut store, &Vec::new());
    assert_eq!(log.handled, 0);
    assert_eq!(log.failures, Vec::new());
}

#[test]
fn fetching_the_same_window_again_rewrites_the_same_points() {
    let symbol = String::from("AAPL");
    let mut store = Store::new();
    let provider = serving(vec![entry("2024-01-02", "150.00"), entry("2024-01-03", "151.25")]);
    let window = || FetchWindow { symbol: String::from("AAPL"), start: JAN_1, end: JAN_3 };
    prefetch(&mut store, &provider, window());
    let once = store.table.scan(&symbol, i64::MIN, i64::MAX, 50);
    prefetch(&mut store, &provider, window());
    assert_eq!(store.table.scan(&symbol, i64::MIN, i64::MAX, 50), once);
    let overlapping = FetchWindow { symbol: String::from("AAPL"), start: JAN_2, end: JAN_3 + DAY };
    prefetch(&mut store, &provider, overlapping);
    assert_eq!(store.table.scan(&symbol, i64::MIN, i64::MAX, 50), once);
}

#[test]
fn two_requests_that_both_miss_both_fetch_and_leave_one_point_per_day() {
    let symbol = String::from("AAPL");
    let mut table = PriceTable::new();
    let (first, first_action) = Resolver::lookup(symbol.clone(), JAN_1, JAN_3, 50);
    let (second, second_action) = Resolver::lookup(symbol.clone(), JAN_1, JAN_3, 50);
    let count = |action: Action, table: &mut PriceTable| match action {
        Action::Store(command) => execute(table, command),
        other => panic!("unexpected action {:?}", other),
    };
    let (first, first_action) = first.step(count(first_action, &mut table));
    let (second, second_action) = second.step(count(second_action, &mut table));
    assert_eq!(first_action, Action::Fetch { symbol: symbol.clone() });
    assert_eq!(second_action, Action::Fetch { symbol: symbol.clone() });
    let series = || vec![entry("2024-01-02", "150.00"), entry("2024-01-03", "151.25")];
    let (first, _) = first.step(Event::Responded(Ok(200)));
    let (second, _) = second.step(Event::Responded(Ok(200)));
    let (mut first, mut first_action) = first.step(Event::Decoded(Ok(series())));
    let (mut second, mut second_action) = second.step(Event::Decoded(Ok(series())));
    let mut writes = 0;
    loop {
        let mut moved = false;
        if let Action::Store(command) = first_action {
            (first, first_action) = first.step(execute(&mut table, command));
            writes += 1;
            moved = true;
        }
        if let Action::Store(command) = second_action {
            (second, second_action) = second.step(execute(&mut table, command));
            writes += 1;
            moved = true;
        }
        if !moved {
            break;
        }
    }
    assert_eq!(writes, 4);
    let expected = Ok(Resolved::Fetched(vec![
        point("AAPL", JAN_2, 150.0),
        point("AAPL", JAN_3, 151.25),
    ]));
    assert_eq!(first_action, Action::Reply(expected.clone()));
    assert_eq!(second_action, Action::Reply(expected));
    assert_eq!(
        table.scan(&symbol, i64::MIN, i64::MAX, 50),
        vec![quote(JAN_3, 151.25), quote(JAN_2, 150.0)]
    );
}

#[test]
fn a_broken_store_fails_the_lookup_before_the_provider_is_asked() {
    let failure = StoreError::Failure(String::from("connection lost"));
    let mut store = Store::breaking_after(0, failure.clone());
    let provider = serving(vec![entry("2024-01-02", "150.00")]);
    let run = resolve(&mut store, &provider, String::from("AAPL"), JAN_1, JAN_3, 50);
    assert_eq!(run, Resolution { reply: Err(ResolverError::Store(failure)), fetches: 0 });
    assert_eq!(store.healthy_for, Some(0));
    assert_eq!(store.table.count(&String::from("AAPL"), i64::MIN, i64::MAX), 0);
}

#[test]
fn a_store_that_breaks_at_the_scan_fails_the_lookup() {
    let symbol = String::from("AAPL");
    let failure = StoreError::Failure(String::from("read timeout"));
    let mut store = Store::breaking_after(2, failure.clone());
    assert_eq!(
        store.run(StoreCommand::Insert { symbol: symbol.clone(), timestamp: JAN_2, price_bits: 1 }),
        Event::Stored(Ok(()))
    );
    let provider = serving(vec![entry("2024-01-03", "151.25")]);
    let run = resolve(&mut store, &provider, symbol.clone(), JAN_1, JAN_3, 50);
    assert_eq!(run, Resolution { reply: Err(ResolverError::Store(failure)), fetches: 0 });
    assert_eq!(store.table.count(&symbol, i64::MIN, i64::MAX), 1);
}

#[test]
fn a_store_that_breaks_between_writes_keeps_the_earlier_writes() {
    let symbol = String::from("AAPL");
    let failure = StoreError::Failure(String::from("write timeout"));
    let mut store = Store::breaking_after(3, failure.clone());
    let provider = serving(vec![
        entry("2024-01-01", "149.00"),
        entry("2024-01-02", "150.00"),
        entry("2024-01-03", "151.25"),
        entry("2024-01-04", "152.00"),
    ]);
    let run = resolve(&mut store, &provider, symbol.clone(), JAN_1, JAN_3, 50);
    assert_eq!(run, Resolution { reply: Err(ResolverError::Store(failure.clone())), fetches: 1 });
    assert_eq!(
        store.table.scan(&symbol, i64::MIN, i64::MAX, 50),
        vec![quote(JAN_2, 150.0), quote(JAN_1, 149.0)]
    );
    assert_eq!(store.healthy_for, Some(0));
    assert_eq!(
        store.run(StoreCommand::Count { symbol: symbol.clone(), start: JAN_1, end: JAN_3 }),
        Event::Counted(Err(failure.clone()))
    );
    assert_eq!(
        store.run(StoreCommand::Select { symbol: symbol.clone(), start: JAN_1, end: JAN_3, limit: 5 }),
        Event::Scanned(Err(failure.clone()))
    );
    assert_eq!(
        store.run(StoreCommand::Insert { symbol, timestamp: 0, price_bits: 0 }),
        Event::Stored(Err(failure))
    );
}

#[test]
fn a_store_that_carries_every_write_of_a_lookup_serves_it() {
    let symbol = String::from("AAPL");
    let mut store = Store::breaking_after(3, StoreError::NotFound);
    let provider = serving(vec![entry("2024-01-02", "150.00"), entry("2024-01-03", "151.25")]);
    let run = resolve(&mut store, &provider, symbol.clone(), JAN_1, JAN_3, 50);
    assert_eq!(
        run.reply,
        Ok(Resolved::Fetched(vec![point("AAPL", JAN_2, 150.0), point("AAPL", JAN_3, 151.25)]))
    );
    assert_eq!(store.healthy_for, Some(0));
    let again = resolve(&mut store, &provider, symbol, JAN_1, JAN_3, 50);
    assert_eq!(again, Resolution { reply: Err(ResolverError::NotFound), fetches: 0 });
}

#[test]
fn a_worker_goes_on_over_a_broken_store_and_records_every_failure() {
    let failure = StoreError::Failure(String::from("node down"));
    let mut store = Store::breaking_after(1, failure.clone());
    let window = |symbol: &str| FetchWindow { symbol: String::from(symbol), start: JAN_1, end: JAN_3 };
    let jobs = vec![
        PrefetchJob {
            window: window("AAPL"),
            answer: serving(vec![entry("2024-01-02", "150.00"), entry("2024-01-03", "151.25")]),
        },
        PrefetchJob { window: window("GOOGL"), answer: serving(vec![entry("2024-01-02", "140.00")]) },
        PrefetchJob { window: window("MSFT"), answer: serving(Vec::new()) },
    ];
    let log = drain(&mut store, &jobs);
    assert_eq!(log.handled, 3);
    assert_eq!(
        log.failures,
        vec![
            Failure { symbol: String::from("AAPL"), error: ResolverError::Store(failure.clone()) },
            Failure { symbol: String::from("GOOGL"), error: ResolverError::Store(failure) },
        ]
    );
    assert_eq!(store.table.scan(&String::from("AAPL"), JAN_1, JAN_3, 50), vec![quote(JAN_2, 150.0)]);
    assert_eq!(store.table.count(&String::from("GOOGL"), JAN_1, JAN_3), 0);
}

#[test]
fn a_new_store_is_empty_and_never_breaks() {
    let mut store = Store::new();
    assert_eq!(store.healthy_for, None);
    assert_eq!(store.failure, StoreError::NotFound);
    assert_eq!(store.table.count(&String::from("AAPL"), i64::MIN, i64::MAX), 0);
    for timestamp in 0..200 {
        assert_eq!(
            store.run(StoreCommand::Insert { symbol: String::from("AAPL"), timestamp, price_bits: 1 }),
            Event::Stored(Ok(()))
        );
    }
    assert_eq!(store.healthy_for, None);
    assert_eq!(store.table.count(&String::from("AAPL"), i64::MIN, i64::MAX), 200);
}
