//! The provider's side: where a symbol's daily series is asked for, when a
//! response counts, and how its entries become quotes.

use crate::error::ProviderError;
use crate::model::{in_window, Quote, ZERO_PRICE_BITS};
use vstd::prelude::*;
use vstd::string::*;

verus! {

/// The provider's address for a daily series, up to the symbol.
pub const SERIES_QUERY: &'static str =
    "https://www.alphavantage.co/query?function=TIME_SERIES_DAILY&symbol=";

/// What stands between the symbol and the key in the provider's address.
pub const KEY_PARAMETER: &'static str = "&apikey=";

/// What a calendar date lacks to be an instant: the time of day and the zone
/// of midnight UTC.
pub const MIDNIGHT_UTC: &'static str = "T00:00:00Z";

/// One day of a provider's series, as far as the cache reads it.
#[derive(Clone, Debug, PartialEq, Eq)]
pub struct DailyClose {
    /// The calendar date, as the provider wrote it.
    pub date: String,
    /// The bit pattern of the closing price, or `None` where the provider's
    /// text for it was not a number.
    pub close: Option<u64>,
}

/// The instant that `chrono` reads from `text` as an RFC 3339 date and time,
/// in milliseconds since the epoch, or `None` where it rejects the text.
pub uninterp spec fn rfc3339_instant(text: Seq<char>) -> Option<i64>;

/// Calls `chrono::DateTime::parse_from_rfc3339` and, on success,
/// `DateTime::timestamp_millis` on what it returned. Trusted: the result is
/// the function `rfc3339_instant` of the text, which is to say that chrono's
/// parser reads its argument and nothing else.
#[verifier::external_body]
fn parse_rfc3339(text: &str) -> (millis: Option<i64>)
    ensures
        millis == rfc3339_instant(text@),
{
    match chrono::DateTime::parse_from_rfc3339(text) {
        Ok(instant) => Some(instant.timestamp_millis()),
        Err(_) => None,
    }
}

/// Midnight UTC at the start of the calendar day `date`, or `None` where the
/// text is not a date.
pub open spec fn day_start(date: Seq<char>) -> Option<i64> {
    rfc3339_instant(date + MIDNIGHT_UTC@)
}

/// The quote that an entry stands for, given the instant read from its date:
/// none without an instant, and the price `0.0` where the close was not a
/// number.
pub open spec fn quote_from(instant: Option<i64>, close: Option<u64>) -> Option<Quote> {
    match instant {
        Some(timestamp) => Some(
            Quote {
                timestamp,
                price_bits: match close {
                    Some(bits) => bits,
                    None => ZERO_PRICE_BITS,
                },
            },
        ),
        None => None,
    }
}

/// The quote that `entry` stands for.
pub open spec fn normalized(entry: DailyClose) -> Option<Quote> {
    quote_from(day_start(entry.date@), entry.close)
}

/// The quotes that `entries` stand for, in the order of the entries; an
/// entry whose date is no date leaves no quote.
pub open spec fn normalized_series(entries: Seq<DailyClose>) -> Seq<Quote>
    decreases entries.len(),
{
    if entries.len() == 0 {
        Seq::empty()
    } else {
        let earlier = normalized_series(entries.drop_last());
        match normalized(entries.last()) {
            Some(quote) => earlier.push(quote),
            None => earlier,
        }
    }
}

/// Those of `quotes` whose instant lies from `start` to `end`, both
/// included, in the same order.
pub open spec fn window_of(quotes: Seq<Quote>, start: i64, end: i64) -> Seq<Quote>
    decreases quotes.len(),
{
    if quotes.len() == 0 {
        Seq::empty()
    } else {
        let earlier = window_of(quotes.drop_last(), start, end);
        if in_window(quotes.last().timestamp as int, start as int, end as int) {
            earlier.push(quotes.last())
        } else {
            earlier
        }
    }
}

/// The address of the provider's daily series for `symbol`, asked with
/// `api_key`.
pub fn series_url(symbol: &str, api_key: &str) -> (url: String)
    ensures
        url@ == SERIES_QUERY@ + symbol@ + KEY_PARAMETER@ + api_key@,
{
    String::from_str(SERIES_QUERY).concat(symbol).concat(KEY_PARAMETER).concat(api_key)
}

/// Whether a response with this status carries a series: the statuses from
/// 200 to 299 do.
pub fn is_success(status: u16) -> (success: bool)
    ensures
        success == (200 <= status < 300),
{
    200 <= status && status < 300
}

/// The failure that a response with this status stands for, if any.
pub fn check_status(status: u16) -> (checked: Result<(), ProviderError>)
    ensures
        checked == if 200 <= status < 300 {
            Ok::<(), ProviderError>(())
        } else {
            Err(ProviderError::Status(status))
        },
{
    if is_success(status) {
        Ok(())
    } else {
        Err(ProviderError::Status(status))
    }
}

/// Midnight UTC at the start of the calendar day `date`, in milliseconds
/// since the epoch.
pub fn day_start_millis(date: &str) -> (instant: Option<i64>)
    ensures
        instant == day_start(date@),
{
    let text = String::from_str(date).concat(MIDNIGHT_UTC);
    parse_rfc3339(text.as_str())
}

/// The quote for an instant and a close: the close where it was a number,
/// the price `0.0` where it was not, and no quote without an instant.
pub fn quote_of(instant: Option<i64>, close: Option<u64>) -> (quote: Option<Quote>)
    ensures
        quote == quote_from(instant, close),
{
    match instant {
        Some(timestamp) => {
            let price_bits = match close {
                Some(bits) => bits,
                None => ZERO_PRICE_BITS,
            };
            Some(Quote { timestamp, price_bits })
        },
        None => None,
    }
}

/// The quote that one entry of a series stands for.
pub fn normalize_entry(entry: &DailyClose) -> (quote: Option<Quote>)
    ensures
        quote == normalized(*entry),
        entry.close is None && quote is Some ==> quote->0.price_bits == ZERO_PRICE_BITS,
{
    quote_of(day_start_millis(entry.date.as_str()), entry.close)
}

/// The quotes that a series stands for, entry by entry.
pub fn normalize_series(entries: &Vec<DailyClose>) -> (quotes: Vec<Quote>)
    ensures
        quotes@ == normalized_series(entries@),
{
    let mut quotes: Vec<Quote> = Vec::new();
    let mut i: usize = 0;
    while i < entries.len()
        invariant
            i <= entries.len(),
            quotes@ == normalized_series(entries@.take(i as int)),
        decreases entries.len() - i,
    {
        assert(entries@.take(i + 1).drop_last() == entries@.take(i as int));
        match normalize_entry(&entries[i]) {
            Some(quote) => {
                quotes.push(quote);
            },
            None => {},
        }
        i += 1;
    }
    assert(entries@.take(i as int) == entries@);
    quotes
}

/// Keeps the quotes whose instant lies from `start` to `end`, both
/// included.
pub fn keep_window(quotes: &Vec<Quote>, start: i64, end: i64) -> (kept: Vec<Quote>)
    ensures
        kept@ == window_of(quotes@, start, end),
{
    let mut kept: Vec<Quote> = Vec::new();
    let mut i: usize = 0;
    while i < quotes.len()
        invariant
            i <= quotes.len(),
            kept@ == window_of(quotes@.take(i as int), start, end),
        decreases quotes.len() - i,
    {
        assert(quotes@.take(i + 1).drop_last() == quotes@.take(i as int));
        if quotes[i].within(start, end) {
            kept.push(quotes[i]);
        }
        i += 1;
    }
    assert(quotes@.take(i as int) == quotes@);
    kept
}

/// Whether `quote` is the quote of an entry behind the entry `i`.
pub open spec fn from_behind(entries: Seq<DailyClose>, i: int, quote: Quote) -> bool {
    exists|m: int| i < m < entries.len() && normalized(#[trigger] entries[m]) == Some(quote)
}

/// Every entry whose date is a date leaves its quote in the series, and the
/// quotes behind it come from the entries behind it: `at` is the place of
/// the quote of entry `i`.
pub proof fn lemma_normalized_place(entries: Seq<DailyClose>, i: int) -> (at: int)
    requires
        0 <= i < entries.len(),
        normalized(entries[i]) is Some,
    ensures
        0 <= at < normalized_series(entries).len(),
        normalized_series(entries)[at] == normalized(entries[i])->0,
        forall|k: int|
            at < k < normalized_series(entries).len() ==> from_behind(
                entries,
                i,
                #[trigger] normalized_series(entries)[k],
            ),
    decreases entries.len(),
{
    let earlier = normalized_series(entries.drop_last());
    let last = entries.len() - 1;
    if i == last {
        earlier.len() as int
    } else {
        let at = lemma_normalized_place(entries.drop_last(), i);
        assert forall|k: int| at < k < normalized_series(entries).len() implies from_behind(
            entries,
            i,
            #[trigger] normalized_series(entries)[k],
        ) by {
            if k < earlier.len() {
                assert(from_behind(entries.drop_last(), i, earlier[k]));
                let m = choose|m: int|
                    i < m < entries.drop_last().len() && normalized(
                        #[trigger] entries.drop_last()[m],
                    ) == Some(earlier[k]);
                assert(entries[m] == entries.drop_last()[m]);
            } else {
                assert(normalized(entries[last]) == Some(normalized_series(entries)[k]));
            }
        }
        at
    }
}

/// An entry whose close was not a number is kept, with the price `0.0`.
pub proof fn lemma_unread_close_is_zero(entries: Seq<DailyClose>, i: int)
    requires
        0 <= i < entries.len(),
        entries[i].close is None,
        day_start(entries[i].date@) is Some,
    ensures
        normalized_series(entries).contains(
            Quote { timestamp: day_start(entries[i].date@)->0, price_bits: ZERO_PRICE_BITS },
        ),
{
    let at = lemma_normalized_place(entries, i);
    assert(normalized_series(entries)[at] == Quote {
        timestamp: day_start(entries[i].date@)->0,
        price_bits: ZERO_PRICE_BITS,
    });
}

} // verus!
