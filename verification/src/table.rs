//! An in-memory table of price points, keyed by symbol and instant and
//! clustered by instant, newest first.
//!
//! The table is the reference against which the store commands of this crate
//! are understood: counting a window, scanning a window with a limit, and
//! writing one point over whatever the key held before.

use crate::model::{attach_symbol, points_of, PricePoint, Quote};
use vstd::prelude::*;

verus! {

/// What a table holds: the price bits under each symbol and instant.
pub type Prices = Map<(Seq<char>, i64), u64>;

/// Whether `prices` holds a point of `symbol` at some instant from `start`
/// to `end`, both included.
pub open spec fn stored_in(prices: Prices, symbol: Seq<char>, start: int, end: int) -> bool {
    exists|t: i64| start <= t <= end && #[trigger] prices.contains_key((symbol, t))
}

/// The points of `symbol` from `start` to `end`, both included, the newest
/// first.
pub open spec fn newest_first(prices: Prices, symbol: Seq<char>, start: int, end: int) -> Seq<
    Quote,
>
    decreases end - start + 1,
{
    if end < start {
        Seq::empty()
    } else {
        let older = newest_first(prices, symbol, start, end - 1);
        if i64::MIN <= end <= i64::MAX && prices.contains_key((symbol, end as i64)) {
            seq![Quote { timestamp: end as i64, price_bits: prices[(symbol, end as i64)] }] + older
        } else {
            older
        }
    }
}

/// The first `limit` of `quotes`, all of them where there are fewer, none
/// where `limit` is not positive.
pub open spec fn truncated(quotes: Seq<Quote>, limit: int) -> Seq<Quote> {
    if limit <= 0 {
        Seq::empty()
    } else if limit < quotes.len() {
        quotes.take(limit)
    } else {
        quotes
    }
}

/// `prices` after each of `quotes` was written for `symbol`, in order, a
/// later write replacing an earlier one at the same instant.
pub open spec fn upsert_all(prices: Prices, symbol: Seq<char>, quotes: Seq<Quote>) -> Prices
    decreases quotes.len(),
{
    if quotes.len() == 0 {
        prices
    } else {
        upsert_all(prices, symbol, quotes.drop_last()).insert(
            (symbol, quotes.last().timestamp),
            quotes.last().price_bits,
        )
    }
}

/// The rows of one symbol, newest first.
struct Series {
    symbol: String,
    quotes: Vec<Quote>,
}

/// A table of price points with at most one point per symbol and instant.
pub struct PriceTable {
    series: Vec<Series>,
    contents: Ghost<Prices>,
}

spec fn descending(quotes: Seq<Quote>) -> bool {
    forall|a: int, b: int| 0 <= a < b < quotes.len() ==> quotes[a].timestamp > quotes[b].timestamp
}

spec fn row(series: Seq<Series>, a: int, k: int) -> Quote {
    series[a].quotes@[k]
}

spec fn held(series: Seq<Series>, key: (Seq<char>, i64)) -> bool {
    exists|a: int, k: int|
        0 <= a < series.len() && 0 <= k < series[a].quotes@.len() && series[a].symbol@ == key.0
            && (#[trigger] row(series, a, k)).timestamp == key.1
}

spec fn distinct_symbols(series: Seq<Series>) -> bool {
    forall|a: int, b: int|
        0 <= a < b < series.len() ==> (#[trigger] series[a]).symbol@ != (#[trigger] series[b]).symbol@
}

spec fn all_descending(series: Seq<Series>) -> bool {
    forall|a: int| 0 <= a < series.len() ==> descending((#[trigger] series[a]).quotes@)
}

spec fn recorded(series: Seq<Series>, prices: Prices) -> bool {
    forall|a: int, k: int|
        0 <= a < series.len() && 0 <= k < series[a].quotes@.len() ==> {
            let quote = #[trigger] row(series, a, k);
            prices.contains_key((series[a].symbol@, quote.timestamp)) && prices[(
                series[a].symbol@,
                quote.timestamp,
            )] == quote.price_bits
        }
}

spec fn backed(series: Seq<Series>, prices: Prices) -> bool {
    forall|key: (Seq<char>, i64)| #[trigger] prices.contains_key(key) ==> held(series, key)
}

/// The rows that `quotes` must hold to be all that `prices` has of `symbol`.
spec fn is_column(prices: Prices, symbol: Seq<char>, quotes: Seq<Quote>) -> bool {
    &&& descending(quotes)
    &&& forall|k: int|
        0 <= k < quotes.len() ==> prices.contains_key((symbol, (#[trigger] quotes[k]).timestamp))
            && prices[(symbol, quotes[k].timestamp)] == quotes[k].price_bits
    &&& forall|t: i64| #[trigger]
        prices.contains_key((symbol, t)) ==> exists|k: int|
            0 <= k < quotes.len() && (#[trigger] quotes[k]).timestamp == t
}

/// A column whose rows from `i` up to `j` are those of the window, with only
/// newer rows before them and only older rows after them, scans to the
/// window's points.
proof fn lemma_window_is_subrange(
    prices: Prices,
    symbol: Seq<char>,
    quotes: Seq<Quote>,
    start: int,
    end: int,
    i: int,
    j: int,
)
    requires
        is_column(prices, symbol, quotes),
        0 <= i <= j <= quotes.len(),
        forall|k: int| i <= k < j ==> start <= (#[trigger] quotes[k]).timestamp <= end,
        forall|k: int| 0 <= k < i ==> (#[trigger] quotes[k]).timestamp > end,
        forall|k: int| j <= k < quotes.len() ==> (#[trigger] quotes[k]).timestamp < start,
    ensures
        newest_first(prices, symbol, start, end) == quotes.subrange(i, j),
    decreases end - start + 1,
{
    if end < start {
        // No row lies in an empty window.
    } else if i64::MIN <= end <= i64::MAX && prices.contains_key((symbol, end as i64)) {
        // The row at `end` is the first of the window.
        let k = choose|k: int| 0 <= k < quotes.len() && (#[trigger] quotes[k]).timestamp == end;
        if i < k {
            assert(quotes[i].timestamp > quotes[k].timestamp);
        }
        lemma_window_is_subrange(prices, symbol, quotes, start, end - 1, i + 1, j);
        assert(quotes.subrange(i, j) =~= seq![quotes[i]] + quotes.subrange(i + 1, j));
    } else {
        lemma_window_is_subrange(prices, symbol, quotes, start, end - 1, i, j);
    }
}

/// The index of the first row that is not newer than `bound`, or the number
/// of rows where every row is newer.
fn first_not_after(quotes: &Vec<Quote>, bound: i64) -> (at: usize)
    requires
        descending(quotes@),
    ensures
        at <= quotes.len(),
        forall|k: int| 0 <= k < at ==> (#[trigger] quotes[k]).timestamp > bound,
        forall|k: int| at <= k < quotes.len() ==> (#[trigger] quotes[k]).timestamp <= bound,
{
    let mut at: usize = 0;
    while at < quotes.len() && quotes[at].timestamp > bound
        invariant
            at <= quotes.len(),
            forall|k: int| 0 <= k < at ==> (#[trigger] quotes[k]).timestamp > bound,
        decreases quotes.len() - at,
    {
        at += 1;
    }
    at
}

/// The index of the first row at or after `from` that is older than `bound`,
/// or the number of rows where there is none.
fn first_before(quotes: &Vec<Quote>, from: usize, bound: i64) -> (at: usize)
    requires
        descending(quotes@),
        from <= quotes.len(),
    ensures
        from <= at <= quotes.len(),
        forall|k: int| from <= k < at ==> (#[trigger] quotes[k]).timestamp >= bound,
        forall|k: int| at <= k < quotes.len() ==> (#[trigger] quotes[k]).timestamp < bound,
{
    let mut at: usize = from;
    while at < quotes.len() && quotes[at].timestamp >= bound
        invariant
            from <= at <= quotes.len(),
            forall|k: int| from <= k < at ==> (#[trigger] quotes[k]).timestamp >= bound,
        decreases quotes.len() - at,
    {
        at += 1;
    }
    at
}

impl View for PriceTable {
    type V = Prices;

    closed spec fn view(&self) -> Prices {
        self.contents@
    }
}

impl PriceTable {
    /// Whether the rows are clustered as the table promises: one series per
    /// symbol, each strictly newest first, holding exactly what the view
    /// says.
    pub closed spec fn wf(&self) -> bool {
        &&& distinct_symbols(self.series@)
        &&& all_descending(self.series@)
        &&& recorded(self.series@, self.contents@)
        &&& backed(self.series@, self.contents@)
    }

    /// A table without rows.
    pub fn new() -> (table: PriceTable)
        ensures
            table.wf(),
            table@ == Prices::empty(),
    {
        PriceTable { series: Vec::new(), contents: Ghost(Map::empty()) }
    }

    /// Writes one point of `symbol`, replacing whatever the table held at
    /// that instant.
    pub fn upsert(&mut self, symbol: &String, quote: Quote)
        requires
            old(self).wf(),
        ensures
            final(self).wf(),
            final(self)@ == old(self)@.insert((symbol@, quote.timestamp), quote.price_bits),
    {
        let ghost before = self.series@;
        let ghost prices = self.contents@;
        match self.find(symbol) {
            None => {
                let mut quotes: Vec<Quote> = Vec::new();
                quotes.push(quote);
                self.series.push(Series { symbol: symbol.clone(), quotes });
                proof {
                    lemma_series_opened(before, self.series@, prices, symbol@, quote);
                }
            },
            Some(a) => {
                let mut entry = self.series.remove(a);
                proof {
                    lemma_series_descends(before, a as int);
                }
                let at = first_not_after(&entry.quotes, quote.timestamp);
                if at < entry.quotes.len() && entry.quotes[at].timestamp == quote.timestamp {
                    entry.quotes.set(at, quote);
                } else {
                    entry.quotes.insert(at, quote);
                }
                self.series.insert(a, entry);
                proof {
                    lemma_series_rewritten(before, self.series@, prices, a as int, at as int, quote);
                }
            },
        }
        self.contents = Ghost(prices.insert((symbol@, quote.timestamp), quote.price_bits));
    }

    /// Writes each of `quotes` for `symbol`, in order. A later quote replaces
    /// an earlier one at the same instant.
    pub fn upsert_many(&mut self, symbol: &String, quotes: &Vec<Quote>)
        requires
            old(self).wf(),
        ensures
            final(self).wf(),
            final(self)@ == upsert_all(old(self)@, symbol@, quotes@),
    {
        let mut i: usize = 0;
        while i < quotes.len()
            invariant
                i <= quotes.len(),
                self.wf(),
                self@ == upsert_all(old(self)@, symbol@, quotes@.take(i as int)),
            decreases quotes.len() - i,
        {
            assert(quotes@.take(i + 1).drop_last() == quotes@.take(i as int));
            self.upsert(symbol, quotes[i]);
            i += 1;
        }
        assert(quotes@.take(i as int) == quotes@);
    }

    /// The index of the series of `symbol`, where the table has one.
    fn find(&self, symbol: &String) -> (found: Option<usize>)
        ensures
            match found {
                Some(a) => a < self.series.len() && self.series[a as int].symbol@ == symbol@,
                None => forall|a: int|
                    0 <= a < self.series.len() ==> (#[trigger] self.series[a]).symbol@ != symbol@,
            },
    {
        let mut a: usize = 0;
        while a < self.series.len()
            invariant
                a <= self.series.len(),
                forall|b: int| 0 <= b < a ==> (#[trigger] self.series[b]).symbol@ != symbol@,
            decreases self.series.len() - a,
        {
            if self.series[a].symbol == *symbol {
                return Some(a);
            }
            a += 1;
        }
        None
    }

    /// The rows of `symbol` are a column of the view.
    proof fn lemma_series_is_column(&self, a: int)
        requires
            self.wf(),
            0 <= a < self.series.len(),
        ensures
            is_column(self@, self.series[a].symbol@, self.series[a].quotes@),
    {
        let symbol = self.series[a].symbol@;
        let quotes = self.series[a].quotes@;
        assert forall|k: int| 0 <= k < quotes.len() implies self@.contains_key(
            (symbol, (#[trigger] quotes[k]).timestamp),
        ) && self@[(symbol, quotes[k].timestamp)] == quotes[k].price_bits by {
            assert(row(self.series@, a, k) == quotes[k]);
        }
        assert forall|t: i64| #[trigger] self@.contains_key((symbol, t)) implies exists|k: int|
            0 <= k < quotes.len() && (#[trigger] quotes[k]).timestamp == t by {
            assert(held(self.series@, (symbol, t)));
            let (b, k) = choose|b: int, k: int|
                0 <= b < self.series.len() && 0 <= k < self.series[b].quotes@.len()
                    && self.series[b].symbol@ == symbol && (#[trigger] row(
                    self.series@,
                    b,
                    k,
                )).timestamp == t;
            assert(b == a);
            assert(quotes[k].timestamp == t);
        }
    }

    /// A symbol without a series has no rows in the view.
    proof fn lemma_absent_is_column(&self, symbol: Seq<char>)
        requires
            self.wf(),
            forall|a: int|
                0 <= a < self.series.len() ==> (#[trigger] self.series[a]).symbol@ != symbol,
        ensures
            is_column(self@, symbol, Seq::<Quote>::empty()),
    {
        assert forall|t: i64| #[trigger] self@.contains_key((symbol, t)) implies false by {
            assert(held(self.series@, (symbol, t)));
        }
    }

    /// The number of points of `symbol` from `start` to `end`, both
    /// included.
    pub fn count(&self, symbol: &String, start: i64, end: i64) -> (rows: usize)
        requires
            self.wf(),
        ensures
            rows == newest_first(self@, symbol@, start as int, end as int).len(),
    {
        match self.find(symbol) {
            Some(a) => {
                let quotes = &self.series[a].quotes;
                proof {
                    lemma_series_descends(self.series@, a as int);
                }
                let i = first_not_after(quotes, end);
                let j = first_before(quotes, i, start);
                proof {
                    self.lemma_series_is_column(a as int);
                    lemma_window_is_subrange(
                        self@,
                        symbol@,
                        quotes@,
                        start as int,
                        end as int,
                        i as int,
                        j as int,
                    );
                }
                j - i
            },
            None => {
                proof {
                    self.lemma_absent_is_column(symbol@);
                    lemma_window_is_subrange(
                        self@,
                        symbol@,
                        Seq::<Quote>::empty(),
                        start as int,
                        end as int,
                        0,
                        0,
                    );
                }
                0
            },
        }
    }

    /// Whether the table holds a point of `symbol` from `start` to `end`,
    /// both included.
    pub fn data_exists(&self, symbol: &String, start: i64, end: i64) -> (present: bool)
        requires
            self.wf(),
        ensures
            present == stored_in(self@, symbol@, start as int, end as int),
    {
        let rows = self.count(symbol, start, end);
        proof {
            lemma_presence_is_a_row(self@, symbol@, start as int, end as int);
        }
        rows > 0
    }

    /// The quotes of `symbol` from `start` to `end`, both included, the
    /// newest first, cut off after `limit` quotes. An empty window gives an
    /// empty result.
    pub fn scan(&self, symbol: &String, start: i64, end: i64, limit: i32) -> (rows: Vec<Quote>)
        requires
            self.wf(),
        ensures
            rows@ == truncated(newest_first(self@, symbol@, start as int, end as int), limit as int),
    {
        let mut rows: Vec<Quote> = Vec::new();
        let found = self.find(symbol);
        if found.is_none() {
            proof {
                self.lemma_absent_is_column(symbol@);
                lemma_window_is_subrange(
                    self@,
                    symbol@,
                    Seq::<Quote>::empty(),
                    start as int,
                    end as int,
                    0,
                    0,
                );
            }
            return rows;
        }
        let a = found.unwrap();
        let quotes = &self.series[a].quotes;
        proof {
            lemma_series_descends(self.series@, a as int);
        }
        let i = first_not_after(quotes, end);
        let j = first_before(quotes, i, start);
        proof {
            self.lemma_series_is_column(a as int);
            lemma_window_is_subrange(
                self@,
                symbol@,
                quotes@,
                start as int,
                end as int,
                i as int,
                j as int,
            );
        }
        let ghost wanted = truncated(quotes@.subrange(i as int, j as int), limit as int);
        let mut at: usize = i;
        while at < j && limit > 0 && at - i < limit as usize
            invariant
                i <= at <= j <= quotes.len(),
                at - i <= wanted.len(),
                wanted == truncated(quotes@.subrange(i as int, j as int), limit as int),
                rows@ == wanted.take(at - i),
            decreases j - at,
        {
            rows.push(quotes[at]);
            at += 1;
        }
        assert(wanted.take(at - i) == wanted);
        rows
    }

    /// The points of `symbol` from `start` to `end`, both included, the
    /// newest first, cut off after `limit` points. A window without points
    /// gives an empty result, not an error.
    pub fn query(&self, symbol: &String, start: i64, end: i64, limit: i32) -> (points: Vec<
        PricePoint,
    >)
        requires
            self.wf(),
        ensures
            points@ == points_of(
                *symbol,
                truncated(newest_first(self@, symbol@, start as int, end as int), limit as int),
            ),
    {
        let rows = self.scan(symbol, start, end, limit);
        attach_symbol(symbol, &rows)
    }
}

/// A first row for a symbol that had none keeps the table in shape.
proof fn lemma_series_opened(
    before: Seq<Series>,
    after: Seq<Series>,
    prices: Prices,
    symbol: Seq<char>,
    quote: Quote,
)
    requires
        distinct_symbols(before),
        all_descending(before),
        recorded(before, prices),
        backed(before, prices),
        forall|a: int| 0 <= a < before.len() ==> (#[trigger] before[a]).symbol@ != symbol,
        after.len() == before.len() + 1,
        forall|a: int| 0 <= a < before.len() ==> #[trigger] after[a] == before[a],
        after[before.len() as int].symbol@ == symbol,
        after[before.len() as int].quotes@ == seq![quote],
    ensures
        distinct_symbols(after),
        all_descending(after),
        recorded(after, prices.insert((symbol, quote.timestamp), quote.price_bits)),
        backed(after, prices.insert((symbol, quote.timestamp), quote.price_bits)),
{
    let grown = prices.insert((symbol, quote.timestamp), quote.price_bits);
    let last = before.len() as int;
    assert forall|a: int, k: int|
        0 <= a < after.len() && 0 <= k < after[a].quotes@.len() implies {
        let q = #[trigger] row(after, a, k);
        grown.contains_key((after[a].symbol@, q.timestamp)) && grown[(
            after[a].symbol@,
            q.timestamp,
        )] == q.price_bits
    } by {
        if a < last {
            assert(after[a] == before[a]);
            assert(row(before, a, k) == row(after, a, k));
        }
    }
    assert forall|key: (Seq<char>, i64)| #[trigger] grown.contains_key(key) implies held(
        after,
        key,
    ) by {
        if key == (symbol, quote.timestamp) {
            assert(row(after, last, 0).timestamp == key.1);
        } else {
            assert(held(before, key));
            let (a, k) = choose|a: int, k: int|
                0 <= a < before.len() && 0 <= k < before[a].quotes@.len() && before[a].symbol@
                    == key.0 && (#[trigger] row(before, a, k)).timestamp == key.1;
            assert(after[a] == before[a]);
            assert(row(after, a, k).timestamp == key.1);
        }
    }
}

/// Writing a quote into the series at `a`, over the row of the same instant
/// where there is one and in its place by age where there is none, keeps the
/// table in shape.
proof fn lemma_series_rewritten(
    before: Seq<Series>,
    after: Seq<Series>,
    prices: Prices,
    a: int,
    at: int,
    quote: Quote,
)
    requires
        distinct_symbols(before),
        all_descending(before),
        recorded(before, prices),
        backed(before, prices),
        0 <= a < before.len(),
        after.len() == before.len(),
        forall|b: int| 0 <= b < before.len() && b != a ==> #[trigger] after[b] == before[b],
        after[a].symbol == before[a].symbol,
        0 <= at <= before[a].quotes@.len(),
        forall|k: int| 0 <= k < at ==> (#[trigger] before[a].quotes@[k]).timestamp > quote.timestamp,
        ({
            let rows = before[a].quotes@;
            ||| (at < rows.len() && rows[at].timestamp == quote.timestamp && after[a].quotes@
                == rows.update(at, quote))
            ||| ((forall|k: int| at <= k < rows.len() ==> (#[trigger] rows[k]).timestamp
                < quote.timestamp) && after[a].quotes@ == rows.insert(at, quote))
        }),
    ensures
        distinct_symbols(after),
        all_descending(after),
        recorded(after, prices.insert((before[a].symbol@, quote.timestamp), quote.price_bits)),
        backed(after, prices.insert((before[a].symbol@, quote.timestamp), quote.price_bits)),
{
    let symbol = before[a].symbol@;
    let grown = prices.insert((symbol, quote.timestamp), quote.price_bits);
    let rows = before[a].quotes@;
    let fresh = after[a].quotes@;
    let replaced = at < rows.len() && rows[at].timestamp == quote.timestamp;
    assert(descending(rows));
    assert forall|b: int, c: int| 0 <= b < c < after.len() implies (#[trigger] after[b]).symbol@
        != (#[trigger] after[c]).symbol@ by {
        assert(after[b].symbol@ == before[b].symbol@);
        assert(after[c].symbol@ == before[c].symbol@);
    }
    assert(descending(fresh)) by {
        assert forall|m: int, n: int| 0 <= m < n < fresh.len() implies fresh[m].timestamp
            > fresh[n].timestamp by {
            if replaced {
                assert(fresh[m].timestamp == rows[m].timestamp);
                assert(fresh[n].timestamp == rows[n].timestamp);
            } else {
                let m0 = if m < at { m } else { m - 1 };
                let n0 = if n < at { n } else { n - 1 };
                if m != at && n != at {
                    assert(fresh[m] == rows[m0]);
                    assert(fresh[n] == rows[n0]);
                } else if m == at {
                    assert(fresh[n] == rows[n0]);
                } else {
                    assert(fresh[m] == rows[m0]);
                }
            }
        }
    }
    assert forall|b: int| 0 <= b < after.len() implies descending((#[trigger] after[b]).quotes@) by {
        if b != a {
            assert(after[b] == before[b]);
        }
    }
    assert forall|b: int, k: int|
        0 <= b < after.len() && 0 <= k < after[b].quotes@.len() implies {
        let q = #[trigger] row(after, b, k);
        grown.contains_key((after[b].symbol@, q.timestamp)) && grown[(
            after[b].symbol@,
            q.timestamp,
        )] == q.price_bits
    } by {
        if b != a {
            assert(after[b] == before[b]);
            assert(row(before, b, k) == row(after, b, k));
            assert(before[b].symbol@ != symbol);
        } else if replaced {
            if k != at {
                assert(row(before, a, k) == fresh[k]);
                assert(rows[k].timestamp != rows[at].timestamp);
            }
        } else {
            if k != at {
                let k0 = if k < at { k } else { k - 1 };
                assert(row(before, a, k0) == fresh[k]);
            }
        }
    }
    assert forall|key: (Seq<char>, i64)| #[trigger] grown.contains_key(key) implies held(
        after,
        key,
    ) by {
        if key == (symbol, quote.timestamp) {
            assert(row(after, a, at).timestamp == key.1);
        } else {
            assert(held(before, key));
            let (b, k) = choose|b: int, k: int|
                0 <= b < before.len() && 0 <= k < before[b].quotes@.len() && before[b].symbol@
                    == key.0 && (#[trigger] row(before, b, k)).timestamp == key.1;
            if b != a {
                assert(after[b] == before[b]);
                assert(row(after, b, k).timestamp == key.1);
            } else if replaced {
                assert(k != at);
                assert(row(after, a, k).timestamp == key.1);
            } else {
                let k1 = if k < at { k } else { k + 1 };
                assert(row(after, a, k1) == rows[k]);
            }
        }
    }
}

/// Each series of a table in shape is newest first.
proof fn lemma_series_descends(series: Seq<Series>, a: int)
    requires
        all_descending(series),
        0 <= a < series.len(),
    ensures
        descending(series[a].quotes@),
{
}

/// A window holds a point exactly when its scan is not empty.
pub proof fn lemma_presence_is_a_row(prices: Prices, symbol: Seq<char>, start: int, end: int)
    ensures
        stored_in(prices, symbol, start, end) <==> newest_first(prices, symbol, start, end).len()
            > 0,
    decreases end - start + 1,
{
    if end < start {
    } else {
        lemma_presence_is_a_row(prices, symbol, start, end - 1);
        if i64::MIN <= end <= i64::MAX && prices.contains_key((symbol, end as i64)) {
        } else if stored_in(prices, symbol, start, end) {
            let t = choose|t: i64| start <= t <= end && #[trigger] prices.contains_key((symbol, t));
            assert(start <= t <= end - 1);
        }
    }
}

/// Writing a point twice under one symbol and instant leaves exactly one
/// point there, with the price written last: the table is as if only the
/// second write had happened, and a scan of that instant gives that point
/// alone.
pub proof fn lemma_upsert_is_idempotent(
    prices: Prices,
    symbol: Seq<char>,
    timestamp: i64,
    first: u64,
    second: u64,
)
    ensures
        upsert_all(
            prices,
            symbol,
            seq![
                Quote { timestamp, price_bits: first },
                Quote { timestamp, price_bits: second },
            ],
        ) == prices.insert((symbol, timestamp), second),
        upsert_all(
            prices,
            symbol,
            seq![
                Quote { timestamp, price_bits: second },
                Quote { timestamp, price_bits: second },
            ],
        ) == upsert_all(prices, symbol, seq![Quote { timestamp, price_bits: second }]),
        newest_first(
            prices.insert((symbol, timestamp), first).insert((symbol, timestamp), second),
            symbol,
            timestamp as int,
            timestamp as int,
        ) == seq![Quote { timestamp, price_bits: second }],
{
    let key = (symbol, timestamp);
    let once = seq![Quote { timestamp, price_bits: second }];
    let twice = seq![Quote { timestamp, price_bits: second }, Quote { timestamp, price_bits: second }];
    let both = seq![Quote { timestamp, price_bits: first }, Quote { timestamp, price_bits: second }];
    assert(upsert_all(prices, symbol, once) == prices.insert(key, second)) by {
        reveal_with_fuel(upsert_all, 2);
    }
    assert(twice.drop_last() == once);
    assert(upsert_all(prices, symbol, both) == prices.insert(key, first).insert(key, second)) by {
        reveal_with_fuel(upsert_all, 3);
    }
    assert(newest_first(prices.insert(key, second), symbol, timestamp as int, timestamp as int)
        == once) by {
        reveal_with_fuel(newest_first, 2);
    }
}

/// After a run of writes the table holds a point at every instant that was
/// written, with the price of the last write to that instant.
pub proof fn lemma_upsert_all_holds_each(
    prices: Prices,
    symbol: Seq<char>,
    quotes: Seq<Quote>,
    i: int,
)
    requires
        0 <= i < quotes.len(),
    ensures
        upsert_all(prices, symbol, quotes).contains_key((symbol, quotes[i].timestamp)),
        (forall|j: int| i < j < quotes.len() ==> quotes[j].timestamp != quotes[i].timestamp)
            ==> upsert_all(prices, symbol, quotes)[(symbol, quotes[i].timestamp)]
            == quotes[i].price_bits,
    decreases quotes.len(),
{
    if i < quotes.len() - 1 {
        lemma_upsert_all_holds_each(prices, symbol, quotes.drop_last(), i);
    }
}

/// A run of writes changes nothing under another symbol, nor at an instant
/// that none of the writes names.
pub proof fn lemma_upsert_all_leaves_others(
    prices: Prices,
    symbol: Seq<char>,
    quotes: Seq<Quote>,
    key: (Seq<char>, i64),
)
    requires
        key.0 != symbol || forall|j: int| 0 <= j < quotes.len() ==> quotes[j].timestamp != key.1,
    ensures
        upsert_all(prices, symbol, quotes).contains_key(key) == prices.contains_key(key),
        prices.contains_key(key) ==> upsert_all(prices, symbol, quotes)[key] == prices[key],
    decreases quotes.len(),
{
    if quotes.len() > 0 {
        lemma_upsert_all_leaves_others(prices, symbol, quotes.drop_last(), key);
    }
}

/// A run of writes removes nothing: a key that the table held is held
/// afterwards.
pub proof fn lemma_upsert_all_keeps_keys(
    prices: Prices,
    symbol: Seq<char>,
    quotes: Seq<Quote>,
    key: (Seq<char>, i64),
)
    requires
        prices.contains_key(key),
    ensures
        upsert_all(prices, symbol, quotes).contains_key(key),
    decreases quotes.len(),
{
    if quotes.len() > 0 {
        lemma_upsert_all_keeps_keys(prices, symbol, quotes.drop_last(), key);
    }
}

/// The price that the last of `quotes` at the instant `timestamp` carries,
/// or `None` where none of them is at that instant.
pub open spec fn last_written(quotes: Seq<Quote>, timestamp: i64) -> Option<u64>
    decreases quotes.len(),
{
    if quotes.len() == 0 {
        None
    } else if quotes.last().timestamp == timestamp {
        Some(quotes.last().price_bits)
    } else {
        last_written(quotes.drop_last(), timestamp)
    }
}

/// After a run of writes, a key of the symbol holds the price written to it
/// last, and what it held before where nothing was written to it.
pub proof fn lemma_last_write_wins(
    prices: Prices,
    symbol: Seq<char>,
    quotes: Seq<Quote>,
    timestamp: i64,
)
    ensures
        match last_written(quotes, timestamp) {
            Some(price) => upsert_all(prices, symbol, quotes).contains_key((symbol, timestamp))
                && upsert_all(prices, symbol, quotes)[(symbol, timestamp)] == price,
            None => upsert_all(prices, symbol, quotes).contains_key((symbol, timestamp))
                == prices.contains_key((symbol, timestamp)) && (prices.contains_key(
                (symbol, timestamp),
            ) ==> upsert_all(prices, symbol, quotes)[(symbol, timestamp)] == prices[(
                symbol,
                timestamp,
            )]),
        },
    decreases quotes.len(),
{
    if quotes.len() > 0 {
        lemma_last_write_wins(prices, symbol, quotes.drop_last(), timestamp);
    }
}

/// Writing the same run of quotes a second time changes nothing: two
/// requests that fetch the same series leave the table as one of them does.
pub proof fn lemma_upsert_all_is_idempotent(prices: Prices, symbol: Seq<char>, quotes: Seq<Quote>)
    ensures
        upsert_all(upsert_all(prices, symbol, quotes), symbol, quotes) == upsert_all(
            prices,
            symbol,
            quotes,
        ),
{
    let once = upsert_all(prices, symbol, quotes);
    let twice = upsert_all(once, symbol, quotes);
    assert forall|key: (Seq<char>, i64)|
        #[trigger] twice.dom().contains(key) == once.dom().contains(key) && (once.dom().contains(
            key,
        ) ==> twice[key] == once[key]) by {
        if key.0 == symbol {
            lemma_last_write_wins(prices, symbol, quotes, key.1);
            lemma_last_write_wins(once, symbol, quotes, key.1);
            assert(key == (symbol, key.1));
        } else {
            lemma_upsert_all_leaves_others(once, symbol, quotes, key);
        }
    }
    assert(twice =~= once);
}

/// A scan gives each point of the window once, the newest first: its
/// instants fall strictly, lie in the window, and carry the prices that the
/// table holds for them.
pub proof fn lemma_scan_descends(prices: Prices, symbol: Seq<char>, start: int, end: int)
    ensures
        forall|i: int|
            0 <= i < newest_first(prices, symbol, start, end).len() ==> {
                let quote = #[trigger] newest_first(prices, symbol, start, end)[i];
                start <= quote.timestamp <= end && prices.contains_key((symbol, quote.timestamp))
                    && prices[(symbol, quote.timestamp)] == quote.price_bits
            },
        forall|i: int, j: int|
            0 <= i < j < newest_first(prices, symbol, start, end).len() ==> newest_first(
                prices,
                symbol,
                start,
                end,
            )[i].timestamp > newest_first(prices, symbol, start, end)[j].timestamp,
    decreases end - start + 1,
{
    if end >= start {
        lemma_scan_descends(prices, symbol, start, end - 1);
    }
}

/// A run of writes adds nothing but what it writes: a key that the table
/// holds afterwards was held before or is the key of one of the writes.
pub proof fn lemma_upsert_all_adds_only_written(
    prices: Prices,
    symbol: Seq<char>,
    quotes: Seq<Quote>,
    key: (Seq<char>, i64),
)
    requires
        upsert_all(prices, symbol, quotes).contains_key(key),
    ensures
        prices.contains_key(key) || (key.0 == symbol && exists|j: int|
            0 <= j < quotes.len() && (#[trigger] quotes[j]).timestamp == key.1),
{
    if !(key.0 == symbol && exists|j: int|
        0 <= j < quotes.len() && (#[trigger] quotes[j]).timestamp == key.1) {
        lemma_upsert_all_leaves_others(prices, symbol, quotes, key);
    }
}

} // verus!
