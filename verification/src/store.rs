//! The historical store's side: the statements that stand for each
//! command, and how the rows of a scan become quotes.

use crate::error::StoreError;
use crate::model::{Quote, MILLIS_PER_DAY};
use vstd::prelude::*;

verus! {

/// Creates the keyspace of the tables.
pub const CREATE_KEYSPACE: &'static str =
    "CREATE KEYSPACE IF NOT EXISTS stock_tracker WITH REPLICATION = {'class': 'SimpleStrategy', 'replication_factor': 1}";

/// Creates the table of price points, keyed by symbol and instant and
/// clustered by instant, newest first.
pub const CREATE_HISTORICAL_DATA: &'static str =
    "CREATE TABLE IF NOT EXISTS stock_tracker.historical_data (symbol TEXT, timestamp TIMESTAMP, price DOUBLE, PRIMARY KEY (symbol, timestamp)) WITH CLUSTERING ORDER BY (timestamp DESC)";

/// Counts the points of a symbol between two instants.
pub const COUNT_POINTS: &'static str =
    "SELECT COUNT(*) FROM stock_tracker.historical_data WHERE symbol = ? AND timestamp >= ? AND timestamp <= ?";

/// Scans the points of a symbol between two instants, up to a limit.
pub const SELECT_POINTS: &'static str =
    "SELECT timestamp, price FROM stock_tracker.historical_data WHERE symbol = ? AND timestamp >= ? AND timestamp <= ? LIMIT ?";

/// Writes one point over whatever its key held.
pub const INSERT_POINT: &'static str =
    "INSERT INTO stock_tracker.historical_data (symbol, timestamp, price) VALUES (?, ?, ?)";

/// The earliest instant that `chrono` holds: the first millisecond of
/// 1 January of the year -262143, which is 96,465,292 days before the epoch.
pub const EARLIEST_INSTANT: i64 = -96_465_292 * MILLIS_PER_DAY;

/// The latest instant that `chrono` holds, to the millisecond: the last one
/// of 31 December of the year 262142, which ends 95,026,237 days after the
/// epoch.
pub const LATEST_INSTANT: i64 = 95_026_237 * MILLIS_PER_DAY - 1;

/// A command to the historical store. The values are bound to the
/// statement's markers in the order of the fields.
#[derive(Clone, Debug, PartialEq, Eq)]
pub enum StoreCommand {
    /// How many points of the symbol lie from `start` to `end`?
    Count { symbol: String, start: i64, end: i64 },
    /// The points of the symbol from `start` to `end`, at most `limit`.
    Select { symbol: String, start: i64, end: i64, limit: i32 },
    /// Write this point.
    Insert { symbol: String, timestamp: i64, price_bits: u64 },
}

/// One value of a row, as far as the cache tells values apart.
#[derive(Clone, Copy, Debug, PartialEq, Eq, Structural)]
pub enum Cell {
    /// No value.
    Null,
    /// A 64-bit integer.
    BigInt(i64),
    /// A double, by its bit pattern.
    Double(u64),
    /// An instant, in milliseconds since the epoch.
    Timestamp(i64),
    /// A value of any other type.
    Other,
}

/// One row of a scan: its first two values.
#[derive(Clone, Copy, Debug, PartialEq, Eq, Structural)]
pub struct PriceRow {
    pub timestamp: Cell,
    pub price: Cell,
}

/// The instant that a stored timestamp stands for: itself where `chrono`
/// holds it, the epoch where it does not.
pub open spec fn stored_instant(millis: i64) -> i64 {
    if EARLIEST_INSTANT <= millis <= LATEST_INSTANT {
        millis
    } else {
        0
    }
}

/// The quote that a row stands for: none unless the first value is an
/// instant and the second a double.
pub open spec fn decoded(row: PriceRow) -> Option<Quote> {
    match (row.timestamp, row.price) {
        (Cell::Timestamp(millis), Cell::Double(bits)) => Some(
            Quote { timestamp: stored_instant(millis), price_bits: bits },
        ),
        _ => None,
    }
}

/// The quotes that `rows` stand for, in the order of the rows; a row with a
/// missing or mistyped value leaves no quote.
pub open spec fn decoded_rows(rows: Seq<PriceRow>) -> Seq<Quote>
    decreases rows.len(),
{
    if rows.len() == 0 {
        Seq::empty()
    } else {
        let earlier = decoded_rows(rows.drop_last());
        match decoded(rows.last()) {
            Some(quote) => earlier.push(quote),
            None => earlier,
        }
    }
}

/// Calls `chrono::DateTime::<Utc>::from_timestamp_millis` and says whether
/// it returned a value. Trusted: chrono holds exactly the instants of the
/// years -262143 to 262142, so the call succeeds on the milliseconds from
/// `EARLIEST_INSTANT` to `LATEST_INSTANT` and on no others.
#[verifier::external_body]
fn chrono_holds(millis: i64) -> (held: bool)
    ensures
        held == (EARLIEST_INSTANT <= millis <= LATEST_INSTANT),
{
    match chrono::DateTime::<chrono::Utc>::from_timestamp_millis(millis) {
        Some(_) => true,
        None => false,
    }
}

impl StoreCommand {
    /// The statement of the command.
    pub open spec fn statement_text(self) -> Seq<char> {
        match self {
            StoreCommand::Count { .. } => COUNT_POINTS@,
            StoreCommand::Select { .. } => SELECT_POINTS@,
            StoreCommand::Insert { .. } => INSERT_POINT@,
        }
    }

    /// The statement that stands for the command.
    pub fn statement(&self) -> (text: &'static str)
        ensures
            text@ == self.statement_text(),
    {
        match self {
            StoreCommand::Count { .. } => COUNT_POINTS,
            StoreCommand::Select { .. } => SELECT_POINTS,
            StoreCommand::Insert { .. } => INSERT_POINT,
        }
    }
}

/// Whether a count of rows means that the window holds data.
pub fn presence(count: i64) -> (present: bool)
    ensures
        present == (count > 0),
{
    count > 0
}

/// The instant that a stored timestamp stands for.
pub fn instant_or_epoch(millis: i64) -> (instant: i64)
    ensures
        instant == stored_instant(millis),
{
    if chrono_holds(millis) {
        millis
    } else {
        0
    }
}

/// The quote that a row stands for.
pub fn decode_row(row: &PriceRow) -> (quote: Option<Quote>)
    ensures
        quote == decoded(*row),
{
    match (row.timestamp, row.price) {
        (Cell::Timestamp(millis), Cell::Double(bits)) => Some(
            Quote { timestamp: instant_or_epoch(millis), price_bits: bits },
        ),
        _ => None,
    }
}

/// The quotes of a scan. A scan that came back without a row set is not
/// found; one with a row set gives the quotes of its rows, which may be
/// none.
pub fn decode_rows(rows: &Option<Vec<PriceRow>>) -> (quotes: Result<Vec<Quote>, StoreError>)
    ensures
        match *rows {
            Some(given) => quotes matches Ok(found) && found@ == decoded_rows(given@),
            None => quotes == Err::<Vec<Quote>, StoreError>(StoreError::NotFound),
        },
{
    match rows {
        None => Err(StoreError::NotFound),
        Some(given) => {
            let mut found: Vec<Quote> = Vec::new();
            let mut i: usize = 0;
            while i < given.len()
                invariant
                    i <= given.len(),
                    found@ == decoded_rows(given@.take(i as int)),
                decreases given.len() - i,
            {
                assert(given@.take(i + 1).drop_last() == given@.take(i as int));
                match decode_row(&given[i]) {
                    Some(quote) => {
                        found.push(quote);
                    },
                    None => {},
                }
                i += 1;
            }
            assert(given@.take(i as int) == given@);
            Ok(found)
        },
    }
}

} // verus!
