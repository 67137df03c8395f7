//! The cache-aside resolver as a state machine.
//!
//! The resolver never touches the store or the provider. It names the next
//! thing to do as an [`Action`]; whoever runs it does that and hands the
//! outcome back as an [`Event`]. One resolver serves one request: a lookup
//! that falls through to the provider when the store holds nothing in the
//! window, or a prefetch that goes to the provider at once and stores only
//! what lies in the window.

use crate::error::{ProviderError, ResolverError, StoreError};
use crate::model::{attach_symbol, points_of, PricePoint, Quote};
use crate::provider::{
    check_status, keep_window, normalize_series, normalized_series, window_of, DailyClose,
};
use crate::store::{presence, StoreCommand};
use vstd::prelude::*;

verus! {

/// Where a resolver stands.
#[derive(Clone, Copy, Debug, PartialEq, Eq, Structural)]
pub enum Phase {
    /// The store was asked how many points the window holds.
    Counting,
    /// The store was asked for the points of the window.
    Scanning,
    /// The provider was asked for the symbol's series.
    Requesting,
    /// The provider answered with a success; its payload is being read.
    Decoding,
    /// The quote at `next` was handed to the store; the ones before it are
    /// written.
    Writing { next: usize },
    /// The request is answered.
    Done,
}

/// What a request came to.
#[derive(Clone, Debug, PartialEq, Eq)]
pub enum Resolved {
    /// The store held data in the window: these are its points, newest
    /// first, up to the limit.
    Cached(Vec<PricePoint>),
    /// The provider was asked: these are the points that were stored, in the
    /// order of the provider's entries.
    Fetched(Vec<PricePoint>),
}

/// What the resolver wants done next.
#[derive(Debug, PartialEq, Eq)]
pub enum Action {
    /// Run the command against the store: a count is answered with
    /// `Counted`, a scan with `Scanned`, a write with `Stored`.
    Store(StoreCommand),
    /// Ask the provider for the daily series of the symbol and report the
    /// status of its response with `Responded`.
    Fetch { symbol: String },
    /// Read the payload of that response and report its entries with
    /// `Decoded`.
    Decode,
    /// The request is answered with this.
    Reply(Result<Resolved, ResolverError>),
    /// The event answered nothing that was asked; nothing changed.
    Ignore,
}

/// What came of an action.
#[derive(Debug, PartialEq, Eq)]
pub enum Event {
    Counted(Result<i64, StoreError>),
    Scanned(Result<Vec<Quote>, StoreError>),
    Responded(Result<u16, ProviderError>),
    Decoded(Result<Vec<DailyClose>, ProviderError>),
    Stored(Result<(), StoreError>),
}

/// The state of one request.
pub struct Resolver {
    symbol: String,
    start: i64,
    end: i64,
    limit: i32,
    windowed: bool,
    phase: Phase,
    quotes: Vec<Quote>,
}

/// What a request came to, as mathematics.
pub ghost enum ResolvedModel {
    Cached(Seq<PricePoint>),
    Fetched(Seq<PricePoint>),
}

/// An action, as mathematics.
pub ghost enum ActionModel {
    Store(StoreCommand),
    Fetch { symbol: String },
    Decode,
    Reply(Result<ResolvedModel, ResolverError>),
    Ignore,
}

/// A resolver, as mathematics.
pub ghost struct ResolverState {
    pub symbol: String,
    pub start: i64,
    pub end: i64,
    pub limit: i32,
    /// Whether only the quotes of the window are stored and returned.
    pub windowed: bool,
    pub phase: Phase,
    /// The quotes to store, once the provider's payload was read.
    pub quotes: Seq<Quote>,
}

impl View for Resolved {
    type V = ResolvedModel;

    open spec fn view(&self) -> ResolvedModel {
        match *self {
            Resolved::Cached(points) => ResolvedModel::Cached(points@),
            Resolved::Fetched(points) => ResolvedModel::Fetched(points@),
        }
    }
}

impl View for Action {
    type V = ActionModel;

    open spec fn view(&self) -> ActionModel {
        match *self {
            Action::Store(command) => ActionModel::Store(command),
            Action::Fetch { symbol } => ActionModel::Fetch { symbol },
            Action::Decode => ActionModel::Decode,
            Action::Reply(Ok(resolved)) => ActionModel::Reply(Ok(resolved@)),
            Action::Reply(Err(error)) => ActionModel::Reply(Err(error)),
            Action::Ignore => ActionModel::Ignore,
        }
    }
}

impl View for Resolver {
    type V = ResolverState;

    closed spec fn view(&self) -> ResolverState {
        ResolverState {
            symbol: self.symbol,
            start: self.start,
            end: self.end,
            limit: self.limit,
            windowed: self.windowed,
            phase: self.phase,
            quotes: self.quotes@,
        }
    }
}

impl ResolverState {
    /// The state of a lookup that has just asked for the count.
    pub open spec fn lookup(symbol: String, start: i64, end: i64, limit: i32) -> ResolverState {
        ResolverState {
            symbol,
            start,
            end,
            limit,
            windowed: false,
            phase: Phase::Counting,
            quotes: Seq::empty(),
        }
    }

    /// The state of a prefetch that has just asked the provider.
    pub open spec fn prefetch(symbol: String, start: i64, end: i64) -> ResolverState {
        ResolverState {
            symbol,
            start,
            end,
            limit: 0,
            windowed: true,
            phase: Phase::Requesting,
            quotes: Seq::empty(),
        }
    }

    /// Whether the quotes of the request are few enough to be held.
    pub open spec fn fits(self) -> bool {
        self.quotes.len() <= usize::MAX
    }

    /// The same request in another phase.
    pub open spec fn at(self, phase: Phase) -> ResolverState {
        ResolverState { phase, ..self }
    }

    /// The count of the request's window.
    pub open spec fn count(self) -> ActionModel {
        ActionModel::Store(
            StoreCommand::Count { symbol: self.symbol, start: self.start, end: self.end },
        )
    }

    /// The scan of the request's window.
    pub open spec fn select(self) -> ActionModel {
        ActionModel::Store(
            StoreCommand::Select {
                symbol: self.symbol,
                start: self.start,
                end: self.end,
                limit: self.limit,
            },
        )
    }

    /// The write of one quote of the request's symbol.
    pub open spec fn insert(self, quote: Quote) -> ActionModel {
        ActionModel::Store(
            StoreCommand::Insert {
                symbol: self.symbol,
                timestamp: quote.timestamp,
                price_bits: quote.price_bits,
            },
        )
    }

    /// The quotes of a series that the request stores: all of them for a
    /// lookup, those of the window for a prefetch.
    pub open spec fn chosen(self, series: Seq<Quote>) -> Seq<Quote> {
        if self.windowed {
            window_of(series, self.start, self.end)
        } else {
            series
        }
    }

    /// The request ended by a failure.
    pub open spec fn failed(self, error: ResolverError) -> (ResolverState, ActionModel) {
        (self.at(Phase::Done), ActionModel::Reply(Err(error)))
    }

    /// The request ended with the quotes it stored.
    pub open spec fn fetched(self, quotes: Seq<Quote>) -> (ResolverState, ActionModel) {
        (
            ResolverState { phase: Phase::Done, quotes, ..self },
            ActionModel::Reply(Ok(ResolvedModel::Fetched(points_of(self.symbol, quotes)))),
        )
    }

    /// The state after `event` and the action to take then.
    ///
    /// A count above zero leads to a scan, whose quotes end the request; a
    /// count of zero leads to the provider. A response outside the
    /// successes, a payload that cannot be read, and any failure of the
    /// store end the request with that failure. The quotes of a payload are
    /// written one by one, in order, each after the one before was stored.
    pub open spec fn next(self, event: Event) -> (ResolverState, ActionModel) {
        match (self.phase, event) {
            (Phase::Counting, Event::Counted(Ok(rows))) => if rows > 0 {
                (self.at(Phase::Scanning), self.select())
            } else {
                (self.at(Phase::Requesting), ActionModel::Fetch { symbol: self.symbol })
            },
            (Phase::Counting, Event::Counted(Err(error))) => self.failed(
                ResolverError::of_store(error),
            ),
            (Phase::Scanning, Event::Scanned(Ok(rows))) => (
                self.at(Phase::Done),
                ActionModel::Reply(Ok(ResolvedModel::Cached(points_of(self.symbol, rows@)))),
            ),
            (Phase::Scanning, Event::Scanned(Err(error))) => self.failed(
                ResolverError::of_store(error),
            ),
            (Phase::Requesting, Event::Responded(Ok(status))) => if 200 <= status < 300 {
                (self.at(Phase::Decoding), ActionModel::Decode)
            } else {
                self.failed(ResolverError::Provider(ProviderError::Status(status)))
            },
            (Phase::Requesting, Event::Responded(Err(error))) => self.failed(
                ResolverError::Provider(error),
            ),
            (Phase::Decoding, Event::Decoded(Ok(entries))) => {
                let quotes = self.chosen(normalized_series(entries@));
                if quotes.len() > 0 {
                    (
                        ResolverState { phase: Phase::Writing { next: 0 }, quotes, ..self },
                        self.insert(quotes[0]),
                    )
                } else {
                    self.fetched(quotes)
                }
            },
            (Phase::Decoding, Event::Decoded(Err(error))) => self.failed(
                ResolverError::Provider(error),
            ),
            (Phase::Writing { next }, Event::Stored(Ok(_))) => if next + 1 < self.quotes.len() {
                (
                    self.at(Phase::Writing { next: (next + 1) as usize }),
                    self.insert(self.quotes[next + 1]),
                )
            } else {
                self.fetched(self.quotes)
            },
            (Phase::Writing { next }, Event::Stored(Err(error))) => self.failed(
                ResolverError::of_store(error),
            ),
            _ => (self, ActionModel::Ignore),
        }
    }
}

impl Resolver {
    /// Begins a lookup of `symbol` from `start` to `end`: the store is asked
    /// first, and a scan returns at most `limit` points.
    pub fn lookup(symbol: String, start: i64, end: i64, limit: i32) -> (begun: (Resolver, Action))
        ensures
            begun.0@ == ResolverState::lookup(symbol, start, end, limit),
            begun.1@ == begun.0@.count(),
    {
        let action = Action::Store(StoreCommand::Count { symbol: symbol.clone(), start, end });
        let resolver = Resolver {
            symbol,
            start,
            end,
            limit,
            windowed: false,
            phase: Phase::Counting,
            quotes: Vec::new(),
        };
        (resolver, action)
    }

    /// Begins a prefetch of `symbol` from `start` to `end`: the provider is
    /// asked at once, and only the quotes of the window are stored.
    pub fn prefetch(symbol: String, start: i64, end: i64) -> (begun: (Resolver, Action))
        ensures
            begun.0@ == ResolverState::prefetch(symbol, start, end),
            begun.1@ == (ActionModel::Fetch { symbol }),
    {
        let action = Action::Fetch { symbol: symbol.clone() };
        let resolver = Resolver {
            symbol,
            start,
            end,
            limit: 0,
            windowed: true,
            phase: Phase::Requesting,
            quotes: Vec::new(),
        };
        (resolver, action)
    }

    /// The symbol of the request.
    pub fn symbol(&self) -> (symbol: String)
        ensures
            symbol == self@.symbol,
    {
        self.symbol.clone()
    }

    /// The quotes that a resolver holds are few enough to be held.
    pub proof fn lemma_fits(&self)
        ensures
            self@.fits(),
    {
        assert(self.quotes.len() == self.quotes@.len());
    }

    /// The request ended by a failure.
    fn fail(self, error: ResolverError) -> (ended: (Resolver, Action))
        ensures
            ended.0@ == self@.failed(error).0,
            ended.1@ == self@.failed(error).1,
    {
        let mut resolver = self;
        resolver.phase = Phase::Done;
        (resolver, Action::Reply(Err(error)))
    }

    /// The request ended with the quotes it stored.
    fn finish(self) -> (ended: (Resolver, Action))
        ensures
            ended.0@ == self@.fetched(self@.quotes).0,
            ended.1@ == self@.fetched(self@.quotes).1,
    {
        let mut resolver = self;
        resolver.phase = Phase::Done;
        let points = attach_symbol(&resolver.symbol, &resolver.quotes);
        (resolver, Action::Reply(Ok(Resolved::Fetched(points))))
    }

    /// The write of the quote at `at`.
    fn write(&self, at: usize) -> (action: Action)
        requires
            at < self@.quotes.len(),
        ensures
            action@ == self@.insert(self@.quotes[at as int]),
    {
        let quote = self.quotes[at];
        Action::Store(
            StoreCommand::Insert {
                symbol: self.symbol.clone(),
                timestamp: quote.timestamp,
                price_bits: quote.price_bits,
            },
        )
    }

    /// Takes the outcome of the last action and names the next one.
    pub fn step(self, event: Event) -> (next: (Resolver, Action))
        ensures
            next.0@ == self@.next(event).0,
            next.1@ == self@.next(event).1,
    {
        let mut resolver = self;
        match (resolver.phase, event) {
            (Phase::Counting, Event::Counted(Ok(rows))) => {
                if presence(rows) {
                    resolver.phase = Phase::Scanning;
                    let action = Action::Store(
                        StoreCommand::Select {
                            symbol: resolver.symbol.clone(),
                            start: resolver.start,
                            end: resolver.end,
                            limit: resolver.limit,
                        },
                    );
                    (resolver, action)
                } else {
                    resolver.phase = Phase::Requesting;
                    let action = Action::Fetch { symbol: resolver.symbol.clone() };
                    (resolver, action)
                }
            },
            (Phase::Counting, Event::Counted(Err(error))) => resolver.fail(
                ResolverError::from_store(error),
            ),
            (Phase::Scanning, Event::Scanned(Ok(rows))) => {
                resolver.phase = Phase::Done;
                let points = attach_symbol(&resolver.symbol, &rows);
                (resolver, Action::Reply(Ok(Resolved::Cached(points))))
            },
            (Phase::Scanning, Event::Scanned(Err(error))) => resolver.fail(
                ResolverError::from_store(error),
            ),
            (Phase::Requesting, Event::Responded(Ok(status))) => {
                match check_status(status) {
                    Ok(_) => {
                        resolver.phase = Phase::Decoding;
                        (resolver, Action::Decode)
                    },
                    Err(error) => resolver.fail(ResolverError::from_provider(error)),
                }
            },
            (Phase::Requesting, Event::Responded(Err(error))) => resolver.fail(
                ResolverError::from_provider(error),
            ),
            (Phase::Decoding, Event::Decoded(Ok(entries))) => {
                let series = normalize_series(&entries);
                let quotes = if resolver.windowed {
                    keep_window(&series, resolver.start, resolver.end)
                } else {
                    series
                };
                resolver.quotes = quotes;
                if resolver.quotes.len() > 0 {
                    resolver.phase = Phase::Writing { next: 0 };
                    let action = resolver.write(0);
                    (resolver, action)
                } else {
                    resolver.finish()
                }
            },
            (Phase::Decoding, Event::Decoded(Err(error))) => resolver.fail(
                ResolverError::from_provider(error),
            ),
            (Phase::Writing { next }, Event::Stored(Ok(_))) => {
                if next < resolver.quotes.len() && next + 1 < resolver.quotes.len() {
                    resolver.phase = Phase::Writing { next: next + 1 };
                    let action = resolver.write(next + 1);
                    (resolver, action)
                } else {
                    resolver.finish()
                }
            },
            (Phase::Writing { next }, Event::Stored(Err(error))) => resolver.fail(
                ResolverError::from_store(error),
            ),
            (_, _) => (resolver, Action::Ignore),
        }
    }
}

} // verus!
