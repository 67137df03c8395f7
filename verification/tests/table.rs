use stock_tracker::model::{PricePoint, Quote};
use stock_tracker::table::PriceTable;

fn quote(timestamp: i64, price: f64) -> Quote {
    Quote { timestamp, price_bits: price.to_bits() }
}

fn point(symbol: &str, timestamp: i64, price: f64) -> PricePoint {
    PricePoint { symbol: String::from(symbol), timestamp, price_bits: price.to_bits() }
}

#[test]
fn new_table_holds_nothing() {
    let table = PriceTable::new();
    let symbol = String::from("AAPL");
    assert_eq!(table.count(&symbol, i64::MIN, i64::MAX), 0);
    assert!(!table.data_exists(&symbol, i64::MIN, i64::MAX));
    assert_eq!(table.scan(&symbol, i64::MIN, i64::MAX, 50), Vec::<Quote>::new());
}

#[test]
fn upsert_twice_leaves_one_point_with_the_latest_price() {
    let symbol = String::from("AAPL");
    let mut table = PriceTable::new();
    table.upsert(&symbol, quote(1_000, 150.0));
    table.upsert(&symbol, quote(1_000, 150.0));
    assert_eq!(table.count(&symbol, i64::MIN, i64::MAX), 1);
    assert_eq!(table.query(&symbol, 1_000, 1_000, 50), vec![point("AAPL", 1_000, 150.0)]);
    table.upsert(&symbol, quote(1_000, 151.25));
    assert_eq!(table.count(&symbol, i64::MIN, i64::MAX), 1);
    assert_eq!(table.query(&symbol, 1_000, 1_000, 50), vec![point("AAPL", 1_000, 151.25)]);
}

#[test]
fn query_without_matching_rows_is_empty_not_an_error() {
    let symbol = String::from("MSFT");
    let mut table = PriceTable::new();
    assert_eq!(table.query(&symbol, 0, 10, 50), Vec::<PricePoint>::new());
    table.upsert(&symbol, quote(20, 1.0));
    table.upsert(&String::from("AAPL"), quote(5, 2.0));
    assert_eq!(table.query(&symbol, 0, 10, 50), Vec::<PricePoint>::new());
    assert!(!table.data_exists(&symbol, 0, 10));
    assert_eq!(table.count(&symbol, 0, 10), 0);
}

#[test]
fn query_is_newest_first_whatever_the_order_of_writes() {
    let symbol = String::from("GOOGL");
    let mut table = PriceTable::new();
    for (timestamp, price) in [(30, 3.0), (10, 1.0), (50, 5.0), (20, 2.0), (40, 4.0)] {
        table.upsert(&symbol, quote(timestamp, price));
    }
    assert_eq!(
        table.query(&symbol, 0, 100, 50),
        vec![
            point("GOOGL", 50, 5.0),
            point("GOOGL", 40, 4.0),
            point("GOOGL", 30, 3.0),
            point("GOOGL", 20, 2.0),
            point("GOOGL", 10, 1.0),
        ]
    );
}

#[test]
fn window_includes_both_ends() {
    let symbol = String::from("ADBE");
    let mut table = PriceTable::new();
    for timestamp in [10, 20, 30, 40] {
        table.upsert(&symbol, quote(timestamp, 1.5));
    }
    assert_eq!(table.count(&symbol, 20, 30), 2);
    assert_eq!(table.scan(&symbol, 20, 30, 50), vec![quote(30, 1.5), quote(20, 1.5)]);
    assert!(table.data_exists(&symbol, 40, 40));
    assert!(table.data_exists(&symbol, 10, 10));
    assert!(!table.data_exists(&symbol, 41, 100));
    assert!(!table.data_exists(&symbol, 0, 9));
    assert!(!table.data_exists(&symbol, 21, 29));
    assert!(!table.data_exists(&symbol, 30, 20));
    assert_eq!(table.count(&symbol, 30, 20), 0);
}

#[test]
fn query_stops_at_the_limit() {
    let symbol = String::from("ABNB");
    let mut table = PriceTable::new();
    for timestamp in 1..=60 {
        table.upsert(&symbol, quote(timestamp, timestamp as f64));
    }
    let newest = table.scan(&symbol, 1, 60, 50);
    assert_eq!(newest.len(), 50);
    assert_eq!(newest[0], quote(60, 60.0));
    assert_eq!(newest[49], quote(11, 11.0));
    assert_eq!(table.scan(&symbol, 1, 60, 3), vec![quote(60, 60.0), quote(59, 59.0), quote(58, 58.0)]);
    assert_eq!(table.scan(&symbol, 1, 60, 60).len(), 60);
    assert_eq!(table.scan(&symbol, 1, 60, i32::MAX).len(), 60);
    assert_eq!(table.count(&symbol, 1, 60), 60);
}

#[test]
fn limit_that_is_not_positive_gives_nothing() {
    let symbol = String::from("AAPL");
    let mut table = PriceTable::new();
    table.upsert(&symbol, quote(1, 1.0));
    assert_eq!(table.scan(&symbol, 0, 10, 0), Vec::<Quote>::new());
    assert_eq!(table.scan(&symbol, 0, 10, -5), Vec::<Quote>::new());
    assert_eq!(table.scan(&symbol, 0, 10, i32::MIN), Vec::<Quote>::new());
}

#[test]
fn symbols_do_not_mix() {
    let apple = String::from("AAPL");
    let microsoft = String::from("MSFT");
    let mut table = PriceTable::new();
    table.upsert(&apple, quote(100, 150.0));
    table.upsert(&microsoft, quote(100, 300.0));
    table.upsert(&microsoft, quote(200, 310.0));
    assert_eq!(table.query(&apple, 0, 1_000, 50), vec![point("AAPL", 100, 150.0)]);
    assert_eq!(
        table.query(&microsoft, 0, 1_000, 50),
        vec![point("MSFT", 200, 310.0), point("MSFT", 100, 300.0)]
    );
    assert_eq!(table.count(&String::from("aapl"), 0, 1_000), 0);
}

#[test]
fn upsert_many_writes_in_order_and_the_last_write_wins() {
    let symbol = String::from("AAPL");
    let mut table = PriceTable::new();
    table.upsert(&symbol, quote(5, 0.5));
    table.upsert_many(
        &symbol,
        &vec![quote(10, 1.0), quote(20, 2.0), quote(10, 1.5), quote(5, 0.75)],
    );
    assert_eq!(
        table.scan(&symbol, i64::MIN, i64::MAX, 50),
        vec![quote(20, 2.0), quote(10, 1.5), quote(5, 0.75)]
    );
    table.upsert_many(&symbol, &Vec::new());
    assert_eq!(table.count(&symbol, i64::MIN, i64::MAX), 3);
}

#[test]
fn extreme_instants_are_held() {
    let symbol = String::from("AAPL");
    let mut table = PriceTable::new();
    table.upsert(&symbol, quote(i64::MAX, 1.0));
    table.upsert(&symbol, quote(i64::MIN, 2.0));
    table.upsert(&symbol, quote(0, 3.0));
    assert_eq!(
        table.scan(&symbol, i64::MIN, i64::MAX, 50),
        vec![quote(i64::MAX, 1.0), quote(0, 3.0), quote(i64::MIN, 2.0)]
    );
    assert!(table.data_exists(&symbol, i64::MIN, i64::MIN));
    assert!(table.data_exists(&symbol, i64::MAX, i64::MAX));
}
