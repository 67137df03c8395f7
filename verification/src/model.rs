//! The values that travel between the store, the provider and the resolver.
//!
//! Instants are milliseconds since 1970-01-01T00:00:00Z. A price is kept as
//! the bit pattern of an IEEE-754 double, which the library stores and hands
//! back without ever doing arithmetic on it.

use vstd::prelude::*;

verus! {

/// Milliseconds in one calendar day.
pub const MILLIS_PER_DAY: i64 = 86_400_000;

/// The bit pattern of the price `0.0`.
pub const ZERO_PRICE_BITS: u64 = 0;

/// A closing price at an instant, for a symbol that the context names.
#[derive(Clone, Copy, Debug, PartialEq, Eq, Structural)]
pub struct Quote {
    pub timestamp: i64,
    pub price_bits: u64,
}

/// One symbol's closing price at one instant. The natural key is the symbol
/// together with the timestamp.
#[derive(Clone, Debug, PartialEq, Eq)]
pub struct PricePoint {
    pub symbol: String,
    pub timestamp: i64,
    pub price_bits: u64,
}

/// A request for the prices of one symbol between two instants, both ends
/// included.
#[derive(Clone, Debug, PartialEq, Eq)]
pub struct FetchWindow {
    pub symbol: String,
    pub start: i64,
    pub end: i64,
}

/// Whether `timestamp` lies in the closed interval from `start` to `end`.
pub open spec fn in_window(timestamp: int, start: int, end: int) -> bool {
    start <= timestamp <= end
}

/// The price points of `symbol` that `quotes` stand for, in the same order.
pub open spec fn points_of(symbol: String, quotes: Seq<Quote>) -> Seq<PricePoint> {
    Seq::new(
        quotes.len(),
        |i: int|
            PricePoint {
                symbol,
                timestamp: quotes[i].timestamp,
                price_bits: quotes[i].price_bits,
            },
    )
}

impl Quote {
    /// Whether the quote's instant lies between `start` and `end`, both
    /// included.
    pub fn within(&self, start: i64, end: i64) -> (inside: bool)
        ensures
            inside == in_window(self.timestamp as int, start as int, end as int),
    {
        start <= self.timestamp && self.timestamp <= end
    }
}

impl FetchWindow {
    /// The window that ends at `now` and reaches `days` days back, or `None`
    /// where its start would lie before the earliest instant an `i64` holds.
    pub fn trailing(symbol: String, now: i64, days: u32) -> (window: Option<FetchWindow>)
        ensures
            match window {
                Some(w) => w.symbol == symbol && w.end == now && w.start == now - days
                    * MILLIS_PER_DAY,
                None => now - days * MILLIS_PER_DAY < i64::MIN,
            },
    {
        let span: i64 = (days as i64) * MILLIS_PER_DAY;
        match now.checked_sub(span) {
            Some(start) => Some(FetchWindow { symbol, start, end: now }),
            None => None,
        }
    }
}

/// Attaches `symbol` to each quote, keeping the order.
pub fn attach_symbol(symbol: &String, quotes: &Vec<Quote>) -> (points: Vec<PricePoint>)
    ensures
        points@ == points_of(*symbol, quotes@),
{
    let mut points: Vec<PricePoint> = Vec::new();
    let mut i: usize = 0;
    while i < quotes.len()
        invariant
            i <= quotes.len(),
            points@ == points_of(*symbol, quotes@.take(i as int)),
        decreases quotes.len() - i,
    {
        let quote = quotes[i];
        points.push(
            PricePoint {
                symbol: symbol.clone(),
                timestamp: quote.timestamp,
                price_bits: quote.price_bits,
            },
        );
        i += 1;
    }
    points
}

} // verus!
