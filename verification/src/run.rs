//! Whole runs of a resolver and of a worker against a store in memory and a
//! provider whose answer is given.
//!
//! Here the actions of a resolver are carried out one after another until it
//! replies, and what that comes to is stated over the store before and
//! after: when the provider is asked and how often, what the table holds
//! afterwards, and what the caller gets. The store may break after a number
//! of commands, so that the runs show what a failure leaves behind.

use crate::error::{ProviderError, ResolverError, StoreError};
use crate::model::{points_of, FetchWindow, Quote, ZERO_PRICE_BITS};
use crate::provider::{
    day_start, from_behind, lemma_normalized_place, normalized, normalized_series, window_of,
    DailyClose,
};
use crate::resolver::{
    Action, ActionModel, Event, Phase, Resolved, ResolvedModel, Resolver, ResolverState,
};
use crate::store::StoreCommand;
use crate::table::{
    lemma_presence_is_a_row, lemma_upsert_all_adds_only_written, lemma_upsert_all_holds_each,
    lemma_upsert_all_is_idempotent, lemma_upsert_all_keeps_keys, newest_first, stored_in,
    truncated, upsert_all, PriceTable, Prices,
};
use crate::worker::{Worker, WorkerAction, WorkerActionModel, WorkerEvent, WorkerState};
use vstd::pervasive::unreached;
use vstd::prelude::*;

verus! {

/// A store in memory: a table behind a connection that may break.
pub struct Store {
    /// What the store holds.
    pub table: PriceTable,
    /// How many more commands the connection carries out before it breaks;
    /// `None` where it never breaks. A broken connection stays broken.
    pub healthy_for: Option<usize>,
    /// What every command fails with once the connection is broken.
    pub failure: StoreError,
}

/// What the provider answers when it is asked for a series.
#[derive(Debug, PartialEq, Eq)]
pub struct ProviderAnswer {
    /// The status of the response, or the failure to get one.
    pub response: Result<u16, ProviderError>,
    /// The entries of the payload, or the failure to read them. Only a
    /// response with a success status has its payload read.
    pub payload: Result<Vec<DailyClose>, ProviderError>,
}

/// How a run ended.
#[derive(Debug, PartialEq, Eq)]
pub struct Resolution {
    /// What the caller gets.
    pub reply: Result<Resolved, ResolverError>,
    /// How often the provider was asked.
    pub fetches: usize,
}

/// A window on the queue, and what the provider answers when its series is
/// asked for.
#[derive(Debug, PartialEq, Eq)]
pub struct PrefetchJob {
    pub window: FetchWindow,
    pub answer: ProviderAnswer,
}

/// A prefetch that failed.
#[derive(Clone, Debug, PartialEq, Eq)]
pub struct Failure {
    pub symbol: String,
    pub error: ResolverError,
}

/// What a worker did until its queue was empty.
#[derive(Debug, PartialEq, Eq)]
pub struct WorkerLog {
    /// How many windows it took off the queue.
    pub handled: usize,
    /// The prefetches that failed, in the order of the queue.
    pub failures: Vec<Failure>,
}

/// A store, as mathematics.
pub ghost struct StoreModel {
    /// What the table holds.
    pub prices: Prices,
    /// How many more commands are carried out; `None` for all of them.
    pub left: Option<nat>,
    /// What a command fails with once none is left.
    pub failure: StoreError,
}

/// How a run ends, as mathematics.
pub ghost struct Outcome {
    /// The store afterwards.
    pub store: StoreModel,
    /// What the caller gets.
    pub reply: Result<ResolvedModel, ResolverError>,
    /// How often the provider was asked.
    pub fetches: nat,
}

/// A reply, as mathematics.
pub open spec fn reply_model(reply: Result<Resolved, ResolverError>) -> Result<
    ResolvedModel,
    ResolverError,
> {
    match reply {
        Ok(resolved) => Ok(resolved@),
        Err(error) => Err(error),
    }
}

/// The count that a store reports for a number of rows: the number, held
/// to what an `i64` can say.
pub open spec fn reported_count(rows: nat) -> i64 {
    if rows > i64::MAX {
        i64::MAX
    } else {
        rows as i64
    }
}

/// What a broken store answers to a command.
pub open spec fn refusal(command: StoreCommand, failure: StoreError) -> Event {
    match command {
        StoreCommand::Count { .. } => Event::Counted(Err(failure)),
        StoreCommand::Select { .. } => Event::Scanned(Err(failure)),
        StoreCommand::Insert { .. } => Event::Stored(Err(failure)),
    }
}

/// Whether `event` is what a table that holds `prices` answers to
/// `command`, holding `after` then: a count reports the number of points in
/// the window, a scan reports them, newest first and up to the limit, and a
/// write puts its point over whatever the key held.
pub open spec fn answers(prices: Prices, command: StoreCommand, event: Event, after: Prices) -> bool {
    match command {
        StoreCommand::Count { symbol, start, end } => after == prices && event == Event::Counted(
            Ok(reported_count(newest_first(prices, symbol@, start as int, end as int).len())),
        ),
        StoreCommand::Select { symbol, start, end, limit } => after == prices && (
        event matches Event::Scanned(Ok(rows)) && rows@ == truncated(
            newest_first(prices, symbol@, start as int, end as int),
            limit as int,
        )),
        StoreCommand::Insert { symbol, timestamp, price_bits } => after == prices.insert(
            (symbol@, timestamp),
            price_bits,
        ) && event == Event::Stored(Ok(())),
    }
}

impl StoreModel {
    /// Whether the store carries out `commands` more commands.
    pub open spec fn carries(self, commands: nat) -> bool {
        match self.left {
            Some(left) => left >= commands,
            None => true,
        }
    }

    /// The store after it carried out `commands` more commands.
    pub open spec fn spent(self, commands: nat) -> StoreModel {
        StoreModel {
            left: match self.left {
                Some(left) => Some((left - commands) as nat),
                None => None,
            },
            ..self
        }
    }

    /// The store holding `prices`.
    pub open spec fn holding(self, prices: Prices) -> StoreModel {
        StoreModel { prices, ..self }
    }

    /// Whether `event` is what the store answers to `command`, being `after`
    /// then: a store whose connection is broken refuses and stays as it is;
    /// any other answers as its table does, with one command less to go.
    pub open spec fn answers(self, command: StoreCommand, event: Event, after: StoreModel) -> bool {
        if self.carries(1) {
            after == self.spent(1).holding(after.prices) && answers(
                self.prices,
                command,
                event,
                after.prices,
            )
        } else {
            after == self && event == refusal(command, self.failure)
        }
    }
}

impl View for Store {
    type V = StoreModel;

    open spec fn view(&self) -> StoreModel {
        StoreModel {
            prices: self.table@,
            left: match self.healthy_for {
                Some(left) => Some(left as nat),
                None => None,
            },
            failure: self.failure,
        }
    }
}

impl ProviderAnswer {
    /// The series that the provider serves: the entries of the payload
    /// where the response came and its status is a success, and otherwise
    /// the first failure on the way.
    pub open spec fn served(self) -> Result<Seq<DailyClose>, ProviderError> {
        match self.response {
            Err(error) => Err(error),
            Ok(status) => if 200 <= status < 300 {
                match self.payload {
                    Ok(entries) => Ok(entries@),
                    Err(error) => Err(error),
                }
            } else {
                Err(ProviderError::Status(status))
            },
        }
    }

    /// The response, once more.
    fn respond(&self) -> (response: Result<u16, ProviderError>)
        ensures
            response == self.response,
    {
        match &self.response {
            Ok(status) => Ok(*status),
            Err(error) => Err(copy_provider_failure(error)),
        }
    }

    /// The payload, once more.
    fn read(&self) -> (payload: Result<Vec<DailyClose>, ProviderError>)
        ensures
            match (payload, self.payload) {
                (Ok(read), Ok(entries)) => read@ == entries@,
                (Err(met), Err(error)) => met == error,
                _ => false,
            },
    {
        match &self.payload {
            Ok(entries) => {
                let mut read: Vec<DailyClose> = Vec::new();
                let mut i: usize = 0;
                while i < entries.len()
                    invariant
                        i <= entries.len(),
                        read@ == entries@.take(i as int),
                    decreases entries.len() - i,
                {
                    let entry = &entries[i];
                    read.push(DailyClose { date: entry.date.clone(), close: entry.close });
                    i += 1;
                }
                Ok(read)
            },
            Err(error) => Err(copy_provider_failure(error)),
        }
    }
}

fn copy_provider_failure(error: &ProviderError) -> (copy: ProviderError)
    ensures
        copy == *error,
{
    match error {
        ProviderError::Http(message) => ProviderError::Http(message.clone()),
        ProviderError::Status(code) => ProviderError::Status(*code),
        ProviderError::Decode(message) => ProviderError::Decode(message.clone()),
    }
}

fn copy_store_failure(error: &StoreError) -> (copy: StoreError)
    ensures
        copy == *error,
{
    match error {
        StoreError::Failure(message) => StoreError::Failure(message.clone()),
        StoreError::NotFound => StoreError::NotFound,
    }
}

/// The number of quotes that the store has written when a request has handed
/// it `quotes` of them one by one: all of them, or as many as the store
/// carried out before its connection broke.
pub open spec fn written(store: StoreModel, quotes: nat) -> nat {
    if store.carries(quotes) {
        quotes
    } else {
        store.left->0
    }
}

/// What going to the provider comes to for a request. On a failure of the
/// provider the store stays as it is and the failure is the reply. On a
/// series, the quotes that the request chooses from it are written, in
/// order, and are the reply; where the store breaks on the way, the quotes
/// written before stay written, no further one is, and the store's failure
/// is the reply.
pub open spec fn fetched_and_stored(
    store: StoreModel,
    served: Result<Seq<DailyClose>, ProviderError>,
    request: ResolverState,
) -> Outcome {
    match served {
        Err(error) => Outcome { store, reply: Err(ResolverError::Provider(error)), fetches: 1 },
        Ok(entries) => {
            let quotes = request.chosen(normalized_series(entries));
            let done = written(store, quotes.len());
            Outcome {
                store: store.spent(done).holding(
                    upsert_all(store.prices, request.symbol@, quotes.take(done as int)),
                ),
                reply: if done == quotes.len() {
                    Ok(ResolvedModel::Fetched(points_of(request.symbol, quotes)))
                } else {
                    Err(ResolverError::of_store(store.failure))
                },
                fetches: 1,
            }
        },
    }
}

/// What a lookup comes to. Where the table holds a point of the symbol in
/// the window, its scan is the reply, the provider is not asked and the
/// table stays as it is. Where it holds none, the provider is asked once,
/// and every quote of its series is written and returned, whether or not it
/// lies in the window. A store that breaks at the count or at the scan
/// fails the lookup before the provider is asked.
pub open spec fn resolved(
    store: StoreModel,
    served: Result<Seq<DailyClose>, ProviderError>,
    symbol: String,
    start: i64,
    end: i64,
    limit: i32,
) -> Outcome {
    if !store.carries(1) {
        Outcome { store, reply: Err(ResolverError::of_store(store.failure)), fetches: 0 }
    } else if !stored_in(store.prices, symbol@, start as int, end as int) {
        fetched_and_stored(store.spent(1), served, ResolverState::lookup(symbol, start, end, limit))
    } else if !store.carries(2) {
        Outcome { store: store.spent(1), reply: Err(ResolverError::of_store(store.failure)), fetches: 0 }
    } else {
        Outcome {
            store: store.spent(2),
            reply: Ok(
                ResolvedModel::Cached(
                    points_of(
                        symbol,
                        truncated(
                            newest_first(store.prices, symbol@, start as int, end as int),
                            limit as int,
                        ),
                    ),
                ),
            ),
            fetches: 0,
        }
    }
}

/// What a request that stands at its beginning comes to.
spec fn expected(
    store: StoreModel,
    served: Result<Seq<DailyClose>, ProviderError>,
    first: ResolverState,
) -> Outcome {
    if first.phase == Phase::Counting {
        resolved(store, served, first.symbol, first.start, first.end, first.limit)
    } else {
        fetched_and_stored(store, served, first)
    }
}

/// Whether a request stands at its beginning with its first action.
spec fn begins(first: ResolverState, action: ActionModel) -> bool {
    ||| first == ResolverState::lookup(first.symbol, first.start, first.end, first.limit)
        && action == first.count()
    ||| first == ResolverState::prefetch(first.symbol, first.start, first.end) && action
        == (ActionModel::Fetch { symbol: first.symbol })
}

/// The store as a request finds it when it turns to the provider: after the
/// count for a lookup, untouched for a prefetch.
spec fn at_fetch(before: StoreModel, first: ResolverState) -> StoreModel {
    if first.phase == Phase::Counting {
        before.spent(1)
    } else {
        before
    }
}

/// Whether a run that began in `first` over the store `before` may stand in
/// `now`, about to take `action`, with the store being `store`.
spec fn on_track(
    before: StoreModel,
    provider: ProviderAnswer,
    first: ResolverState,
    store: StoreModel,
    now: ResolverState,
    action: ActionModel,
    fetches: nat,
) -> bool {
    let lookup = first.phase == Phase::Counting;
    let present = stored_in(before.prices, first.symbol@, first.start as int, first.end as int);
    &&& now.symbol == first.symbol
    &&& now.start == first.start
    &&& now.end == first.end
    &&& now.limit == first.limit
    &&& now.windowed == first.windowed
    &&& now.fits()
    &&& (lookup ==> !first.windowed)
    &&& match now.phase {
        Phase::Counting => lookup && store == before && fetches == 0 && action == now.count(),
        Phase::Scanning => lookup && present && before.carries(1) && store == before.spent(1)
            && fetches == 0 && action == now.select(),
        Phase::Requesting => (lookup ==> !present && before.carries(1)) && store == at_fetch(
            before,
            first,
        ) && fetches == 0 && action == (ActionModel::Fetch { symbol: now.symbol }),
        Phase::Decoding => (lookup ==> !present && before.carries(1)) && store == at_fetch(
            before,
            first,
        ) && fetches == 1 && action == ActionModel::Decode && (provider.response matches Ok(
            status,
        ) && 200 <= status < 300),
        Phase::Writing { next } => (lookup ==> !present && before.carries(1)) && fetches == 1 && (
        provider.served() matches Ok(entries) && now.quotes == first.chosen(
            normalized_series(entries),
        )) && next < now.quotes.len() && at_fetch(before, first).carries(next as nat) && store
            == at_fetch(before, first).spent(next as nat).holding(
            upsert_all(before.prices, now.symbol@, now.quotes.take(next as int)),
        ) && action == now.insert(now.quotes[next as int]),
        Phase::Done => action matches ActionModel::Reply(reply) && (Outcome {
            store,
            reply,
            fetches,
        }) == expected(before, provider.served(), first),
    }
}

/// How far a request is from its reply.
spec fn rank(phase: Phase) -> nat {
    match phase {
        Phase::Counting => 5,
        Phase::Requesting => 4,
        Phase::Decoding => 3,
        Phase::Writing { .. } => 2,
        Phase::Scanning => 1,
        Phase::Done => 0,
    }
}

/// The writes that a request still has to see stored.
spec fn pending(now: ResolverState) -> nat {
    match now.phase {
        Phase::Writing { next } => (now.quotes.len() - next) as nat,
        _ => 0,
    }
}

/// Runs one command against the table: a count reports the number of
/// points in the window, a scan reports them, newest first and up to the
/// limit, and a write puts its point over whatever the key held. The table
/// never fails.
pub fn execute(table: &mut PriceTable, command: StoreCommand) -> (event: Event)
    requires
        old(table).wf(),
    ensures
        final(table).wf(),
        answers(old(table)@, command, event, final(table)@),
{
    match command {
        StoreCommand::Count { symbol, start, end } => {
            let rows = table.count(&symbol, start, end) as u64;
            let count: i64 = if rows > 0x7fff_ffff_ffff_ffff {
                i64::MAX
            } else {
                rows as i64
            };
            Event::Counted(Ok(count))
        },
        StoreCommand::Select { symbol, start, end, limit } => {
            Event::Scanned(Ok(table.scan(&symbol, start, end, limit)))
        },
        StoreCommand::Insert { symbol, timestamp, price_bits } => {
            table.upsert(&symbol, Quote { timestamp, price_bits });
            Event::Stored(Ok(()))
        },
    }
}

impl Store {
    /// Whether the table of the store is in shape.
    pub open spec fn wf(&self) -> bool {
        self.table.wf()
    }

    /// An empty store whose connection never breaks. The failure it holds
    /// is that of a missing row set; no command ever meets it.
    pub fn new() -> (store: Store)
        ensures
            store.wf(),
            store@ == (StoreModel {
                prices: Prices::empty(),
                left: None,
                failure: StoreError::NotFound,
            }),
    {
        Store { table: PriceTable::new(), healthy_for: None, failure: StoreError::NotFound }
    }

    /// An empty store whose connection breaks after `commands` commands and
    /// fails every command from then on with `failure`.
    pub fn breaking_after(commands: usize, failure: StoreError) -> (store: Store)
        ensures
            store.wf(),
            store@.prices == Prices::empty(),
            store@.left == Some(commands as nat),
            store@.failure == failure,
    {
        Store { table: PriceTable::new(), healthy_for: Some(commands), failure }
    }

    /// Runs one command against the store. A store whose connection is
    /// broken refuses the command and stays as it is; any other answers as
    /// its table does.
    pub fn run(&mut self, command: StoreCommand) -> (event: Event)
        requires
            old(self).wf(),
        ensures
            final(self).wf(),
            old(self)@.answers(command, event, final(self)@),
    {
        match self.healthy_for {
            Some(0) => {
                let failure = copy_store_failure(&self.failure);
                match command {
                    StoreCommand::Count { .. } => Event::Counted(Err(failure)),
                    StoreCommand::Select { .. } => Event::Scanned(Err(failure)),
                    StoreCommand::Insert { .. } => Event::Stored(Err(failure)),
                }
            },
            Some(left) => {
                self.healthy_for = Some(left - 1);
                execute(&mut self.table, command)
            },
            None => execute(&mut self.table, command),
        }
    }
}

/// Whether `event` is what carrying out `action` gives, the store going
/// from `store` to `after`.
spec fn carried_out(
    provider: ProviderAnswer,
    action: ActionModel,
    store: StoreModel,
    event: Event,
    after: StoreModel,
) -> bool {
    match action {
        ActionModel::Store(command) => store.answers(command, event, after),
        ActionModel::Fetch { .. } => after == store && event == Event::Responded(
            provider.response,
        ),
        ActionModel::Decode => after == store && (match (event, provider.payload) {
            (Event::Decoded(Ok(read)), Ok(entries)) => read@ == entries@,
            (Event::Decoded(Err(met)), Err(error)) => met == error,
            _ => false,
        }),
        _ => false,
    }
}

/// The number of fetches after `action`, where it was `fetches` before.
spec fn counted_after(action: ActionModel, fetches: nat) -> nat {
    if action is Fetch {
        fetches + 1
    } else {
        fetches
    }
}

/// Whether a run that was on track in `now` is on track again after
/// `event`, and closer to its reply.
spec fn advanced(
    before: StoreModel,
    provider: ProviderAnswer,
    first: ResolverState,
    now: ResolverState,
    action: ActionModel,
    fetches: nat,
    event: Event,
    after: StoreModel,
) -> bool {
    &&& on_track(
        before,
        provider,
        first,
        after,
        now.next(event).0,
        now.next(event).1,
        counted_after(action, fetches),
    )
    &&& (rank(now.next(event).0.phase) < rank(now.phase) || (rank(now.next(event).0.phase) == rank(
        now.phase,
    ) && pending(now.next(event).0) < pending(now)))
}

/// A lookup that has asked for the count stays on track when the count
/// comes.
proof fn lemma_counted(
    before: StoreModel,
    provider: ProviderAnswer,
    first: ResolverState,
    store: StoreModel,
    now: ResolverState,
    action: ActionModel,
    fetches: nat,
    event: Event,
    after: StoreModel,
)
    requires
        now.phase is Counting,
        on_track(before, provider, first, store, now, action, fetches),
        carried_out(provider, action, store, event, after),
        now.next(event).0.fits(),
    ensures
        advanced(before, provider, first, now, action, fetches, event, after),
{
    lemma_presence_is_a_row(before.prices, first.symbol@, first.start as int, first.end as int);
}

/// A lookup that has asked for the scan stays on track when the scan
/// comes.
proof fn lemma_scanned(
    before: StoreModel,
    provider: ProviderAnswer,
    first: ResolverState,
    store: StoreModel,
    now: ResolverState,
    action: ActionModel,
    fetches: nat,
    event: Event,
    after: StoreModel,
)
    requires
        now.phase is Scanning,
        on_track(before, provider, first, store, now, action, fetches),
        carried_out(provider, action, store, event, after),
        now.next(event).0.fits(),
    ensures
        advanced(before, provider, first, now, action, fetches, event, after),
{
}

/// A request that has asked the provider stays on track when the response
/// comes.
proof fn lemma_responded(
    before: StoreModel,
    provider: ProviderAnswer,
    first: ResolverState,
    store: StoreModel,
    now: ResolverState,
    action: ActionModel,
    fetches: nat,
    event: Event,
    after: StoreModel,
)
    requires
        now.phase is Requesting,
        on_track(before, provider, first, store, now, action, fetches),
        carried_out(provider, action, store, event, after),
        now.next(event).0.fits(),
    ensures
        advanced(before, provider, first, now, action, fetches, event, after),
{
}

/// A request that reads the payload stays on track when its entries come.
proof fn lemma_decoded(
    before: StoreModel,
    provider: ProviderAnswer,
    first: ResolverState,
    store: StoreModel,
    now: ResolverState,
    action: ActionModel,
    fetches: nat,
    event: Event,
    after: StoreModel,
)
    requires
        now.phase is Decoding,
        on_track(before, provider, first, store, now, action, fetches),
        carried_out(provider, action, store, event, after),
        now.next(event).0.fits(),
    ensures
        advanced(before, provider, first, now, action, fetches, event, after),
{
    let found = at_fetch(before, first);
    assert(store == found);
    assert(after == found);
    match provider.payload {
        Ok(entries) => {
            let quotes = first.chosen(normalized_series(entries@));
            assert(provider.served() == Ok::<Seq<DailyClose>, ProviderError>(entries@));
            assert(quotes.take(0) == Seq::<Quote>::empty());
            assert(upsert_all(found.prices, first.symbol@, Seq::<Quote>::empty()) == found.prices);
            assert(found.spent(0).holding(found.prices) == found);
            if quotes.len() == 0 {
                assert(written(found, 0) == 0);
            }
        },
        Err(error) => {
            assert(provider.served() == Err::<Seq<DailyClose>, ProviderError>(error));
        },
    }
}

/// A request that has handed a quote to the store stays on track when the
/// store answers.
proof fn lemma_stored(
    before: StoreModel,
    provider: ProviderAnswer,
    first: ResolverState,
    store: StoreModel,
    now: ResolverState,
    action: ActionModel,
    fetches: nat,
    event: Event,
    after: StoreModel,
)
    requires
        now.phase is Writing,
        on_track(before, provider, first, store, now, action, fetches),
        carried_out(provider, action, store, event, after),
        now.next(event).0.fits(),
    ensures
        advanced(before, provider, first, now, action, fetches, event, after),
{
    let next = now.phase->next;
    let found = at_fetch(before, first);
    let quotes = now.quotes;
    let symbol = now.symbol@;
    let command = StoreCommand::Insert {
        symbol: now.symbol,
        timestamp: quotes[next as int].timestamp,
        price_bits: quotes[next as int].price_bits,
    };
    assert(action == ActionModel::Store(command));
    assert(store.answers(command, event, after));
    assert(quotes.take(next + 1).drop_last() == quotes.take(next as int));
    assert(quotes.take(next + 1).last() == quotes[next as int]);
    if store.carries(1) {
        // The quote is written.
        assert(found.carries((next + 1) as nat));
        assert(after.prices == upsert_all(before.prices, symbol, quotes.take(next + 1)));
        assert(after == found.spent((next + 1) as nat).holding(after.prices));
        if next + 1 == quotes.len() {
            assert(quotes.take(next + 1) == quotes);
            assert(written(found, quotes.len()) == quotes.len());
        }
    } else {
        // The store is broken: the quotes before stay written.
        assert(found.left == Some(next as nat));
        assert(written(found, quotes.len()) == next);
        assert(after == store);
        assert(event == Event::Stored(Err(store.failure)));
    }
}

/// A run that is on track stays on track when its action is carried out,
/// and comes closer to its reply.
proof fn lemma_stays_on_track(
    before: StoreModel,
    provider: ProviderAnswer,
    first: ResolverState,
    store: StoreModel,
    now: ResolverState,
    action: ActionModel,
    fetches: nat,
    event: Event,
    after: StoreModel,
)
    requires
        on_track(before, provider, first, store, now, action, fetches),
        carried_out(provider, action, store, event, after),
        now.next(event).0.fits(),
    ensures
        advanced(before, provider, first, now, action, fetches, event, after),
{
    match now.phase {
        Phase::Counting => lemma_counted(
            before,
            provider,
            first,
            store,
            now,
            action,
            fetches,
            event,
            after,
        ),
        Phase::Scanning => lemma_scanned(
            before,
            provider,
            first,
            store,
            now,
            action,
            fetches,
            event,
            after,
        ),
        Phase::Requesting => lemma_responded(
            before,
            provider,
            first,
            store,
            now,
            action,
            fetches,
            event,
            after,
        ),
        Phase::Decoding => lemma_decoded(
            before,
            provider,
            first,
            store,
            now,
            action,
            fetches,
            event,
            after,
        ),
        Phase::Writing { .. } => lemma_stored(
            before,
            provider,
            first,
            store,
            now,
            action,
            fetches,
            event,
            after,
        ),
        Phase::Done => {},
    }
}

/// Carries out one action of a request: a command against the store, a
/// question to the provider, or the reading of its payload.
fn perform(store: &mut Store, provider: &ProviderAnswer, action: Action) -> (event: Event)
    requires
        old(store).wf(),
        action@ is Store || action@ is Fetch || action@ is Decode,
    ensures
        final(store).wf(),
        carried_out(*provider, action@, old(store)@, event, final(store)@),
{
    match action {
        Action::Store(command) => store.run(command),
        Action::Fetch { symbol } => Event::Responded(provider.respond()),
        Action::Decode => Event::Decoded(provider.read()),
        _ => unreached(),
    }
}

/// Carries out the actions of a request that stands at its beginning, one
/// after another, until it replies.
fn drive(store: &mut Store, provider: &ProviderAnswer, resolver: Resolver, action: Action) -> (run:
    Resolution)
    requires
        old(store).wf(),
        begins(resolver@, action@),
    ensures
        final(store).wf(),
        (Outcome {
            store: final(store)@,
            reply: reply_model(run.reply),
            fetches: run.fetches as nat,
        }) == expected(old(store)@, provider.served(), resolver@),
{
    let ghost before = store@;
    let ghost first = resolver@;
    let mut machine = resolver;
    let mut action = action;
    let mut fetches: usize = 0;
    proof {
        machine.lemma_fits();
    }
    loop
        invariant
            store.wf(),
            fetches <= 1,
            before == old(store)@,
            first == resolver@,
            on_track(before, *provider, first, store@, machine@, action@, fetches as nat),
        decreases rank(machine@.phase), pending(machine@),
    {
        let ghost now = machine@;
        let ghost held = store@;
        let ghost asked = action@;
        let ghost fetched = fetches as nat;
        let event = match action {
            Action::Reply(reply) => {
                return Resolution { reply, fetches };
            },
            Action::Fetch { symbol } => {
                fetches = fetches + 1;
                perform(store, provider, Action::Fetch { symbol })
            },
            other => perform(store, provider, other),
        };
        let next = machine.step(event);
        machine = next.0;
        action = next.1;
        proof {
            machine.lemma_fits();
            lemma_stays_on_track(
                before,
                *provider,
                first,
                held,
                now,
                asked,
                fetched,
                event,
                store@,
            );
        }
    }
}

/// Looks up the points of `symbol` from `start` to `end` in the store and
/// falls through to the provider where the store holds none.
pub fn resolve(
    store: &mut Store,
    provider: &ProviderAnswer,
    symbol: String,
    start: i64,
    end: i64,
    limit: i32,
) -> (run: Resolution)
    requires
        old(store).wf(),
    ensures
        final(store).wf(),
        (Outcome {
            store: final(store)@,
            reply: reply_model(run.reply),
            fetches: run.fetches as nat,
        }) == resolved(old(store)@, provider.served(), symbol, start, end, limit),
{
    let begun = Resolver::lookup(symbol, start, end, limit);
    drive(store, provider, begun.0, begun.1)
}

/// Fetches the series of the window's symbol and stores the quotes that lie
/// in the window, whatever the store holds already.
pub fn prefetch(store: &mut Store, provider: &ProviderAnswer, window: FetchWindow) -> (run:
    Resolution)
    requires
        old(store).wf(),
    ensures
        final(store).wf(),
        (Outcome {
            store: final(store)@,
            reply: reply_model(run.reply),
            fetches: run.fetches as nat,
        }) == fetched_and_stored(
            old(store)@,
            provider.served(),
            ResolverState::prefetch(window.symbol, window.start, window.end),
        ),
{
    let begun = Resolver::prefetch(window.symbol, window.start, window.end);
    drive(store, provider, begun.0, begun.1)
}

impl PrefetchJob {
    /// The prefetch of the job's window at its beginning.
    pub open spec fn request(self) -> ResolverState {
        ResolverState::prefetch(self.window.symbol, self.window.start, self.window.end)
    }

    /// What the job's prefetch comes to over `store`.
    pub open spec fn outcome(self, store: StoreModel) -> Outcome {
        fetched_and_stored(store, self.answer.served(), self.request())
    }
}

/// The store after the prefetches of `jobs`, one after another.
pub open spec fn prefetched(store: StoreModel, jobs: Seq<PrefetchJob>) -> StoreModel
    decreases jobs.len(),
{
    if jobs.len() == 0 {
        store
    } else {
        jobs.last().outcome(prefetched(store, jobs.drop_last())).store
    }
}

/// The prefetches of `jobs` that fail over `store`, in order, each with
/// what it failed with.
pub open spec fn failures_of(store: StoreModel, jobs: Seq<PrefetchJob>) -> Seq<Failure>
    decreases jobs.len(),
{
    if jobs.len() == 0 {
        Seq::empty()
    } else {
        let earlier = failures_of(store, jobs.drop_last());
        match jobs.last().outcome(prefetched(store, jobs.drop_last())).reply {
            Err(error) => earlier.push(Failure { symbol: jobs.last().window.symbol, error }),
            Ok(_) => earlier,
        }
    }
}

/// Whether a worker that has taken `taken` of `jobs` off the queue may
/// stand in `state`, about to take `action`, with the store being `store`
/// and `failures` on record. While a prefetch runs, the store was
/// `item_before` when it began and the provider was asked `asked` times
/// since.
spec fn worker_on_track(
    before: StoreModel,
    jobs: Seq<PrefetchJob>,
    taken: nat,
    item_before: StoreModel,
    asked: nat,
    store: StoreModel,
    state: WorkerState,
    action: WorkerActionModel,
    failures: Seq<Failure>,
) -> bool {
    &&& taken <= jobs.len()
    &&& state.fits()
    &&& match state {
        WorkerState::Idle => false,
        WorkerState::Waiting => action == WorkerActionModel::Receive && store == prefetched(
            before,
            jobs.take(taken as int),
        ) && failures == failures_of(before, jobs.take(taken as int)),
        WorkerState::Working(job) => taken > 0 && item_before == prefetched(
            before,
            jobs.take(taken - 1),
        ) && failures == failures_of(before, jobs.take(taken - 1)) && job.phase != Phase::Done && (
        action matches WorkerActionModel::Perform(inner) && on_track(
            item_before,
            jobs[taken - 1].answer,
            jobs[taken - 1].request(),
            store,
            job,
            inner,
            asked,
        )),
        WorkerState::Reporting => taken > 0 && store == prefetched(
            before,
            jobs.take(taken as int),
        ) && (action matches WorkerActionModel::Report { symbol, error } && failures.push(
            Failure { symbol, error },
        ) == failures_of(before, jobs.take(taken as int))),
        WorkerState::Stopped => action == WorkerActionModel::Stop && taken == jobs.len() && store
            == prefetched(before, jobs) && failures == failures_of(before, jobs),
    }
}

/// How far a worker is from waiting again.
spec fn stage_rank(state: WorkerState) -> nat {
    match state {
        WorkerState::Idle => 4,
        WorkerState::Working(_) => 3,
        WorkerState::Reporting => 2,
        WorkerState::Waiting => 1,
        WorkerState::Stopped => 0,
    }
}

/// How far the prefetch at hand is from its reply.
spec fn job_rank(state: WorkerState) -> nat {
    match state {
        WorkerState::Working(job) => rank(job.phase),
        _ => 0,
    }
}

/// The writes that the prefetch at hand still has to see stored.
spec fn job_pending(state: WorkerState) -> nat {
    match state {
        WorkerState::Working(job) => pending(job),
        _ => 0,
    }
}

/// A worker that is on track stays on track when the prefetch at hand has
/// one of its actions carried out, and comes closer to waiting again.
proof fn lemma_worker_performs(
    before: StoreModel,
    jobs: Seq<PrefetchJob>,
    taken: nat,
    item_before: StoreModel,
    asked: nat,
    store: StoreModel,
    state: WorkerState,
    action: WorkerActionModel,
    failures: Seq<Failure>,
    event: Event,
    after: StoreModel,
)
    requires
        worker_on_track(before, jobs, taken, item_before, asked, store, state, action, failures),
        state is Working,
        action matches WorkerActionModel::Perform(inner) && carried_out(
            jobs[taken - 1].answer,
            inner,
            store,
            event,
            after,
        ),
        state.next(WorkerEvent::Performed(event)).0.fits(),
    ensures
        worker_on_track(
            before,
            jobs,
            taken,
            item_before,
            counted_after(action->Perform_0, asked),
            after,
            state.next(WorkerEvent::Performed(event)).0,
            state.next(WorkerEvent::Performed(event)).1,
            failures,
        ),
        stage_rank(state.next(WorkerEvent::Performed(event)).0) < stage_rank(state) || (
        state.next(WorkerEvent::Performed(event)).0 is Working && (job_rank(
            state.next(WorkerEvent::Performed(event)).0,
        ) < job_rank(state) || (job_rank(state.next(WorkerEvent::Performed(event)).0) == job_rank(
            state,
        ) && job_pending(state.next(WorkerEvent::Performed(event)).0) < job_pending(state)))),
{
    let current = jobs[taken - 1];
    assert(jobs.take(taken as int).drop_last() == jobs.take(taken - 1));
    lemma_stays_on_track(
        item_before,
        current.answer,
        current.request(),
        store,
        state->Working_0,
        action->Perform_0,
        asked,
        event,
        after,
    );
}

/// Runs a worker over a queue that holds `jobs` and is then closed: every
/// window is taken off the queue, in order, and gets its prefetch. A
/// prefetch that fails goes on record and does not keep the worker from
/// the windows behind it.
pub fn drain(store: &mut Store, jobs: &Vec<PrefetchJob>) -> (log: WorkerLog)
    requires
        old(store).wf(),
    ensures
        final(store).wf(),
        final(store)@ == prefetched(old(store)@, jobs@),
        log.handled == jobs.len(),
        log.failures@ == failures_of(old(store)@, jobs@),
{
    let ghost before = store@;
    let begun = Worker::new().step(WorkerEvent::Started);
    let mut worker = begun.0;
    let mut action = begun.1;
    let mut taken: usize = 0;
    let mut failures: Vec<Failure> = Vec::new();
    let ghost mut item_before = store@;
    let ghost mut asked: nat = 0;
    proof {
        worker.lemma_fits();
    }
    loop
        invariant
            store.wf(),
            before == old(store)@,
            taken <= jobs.len(),
            worker_on_track(
                before,
                jobs@,
                taken as nat,
                item_before,
                asked,
                store@,
                worker@,
                action@,
                failures@,
            ),
        decreases jobs.len() - taken, stage_rank(worker@), job_rank(worker@), job_pending(worker@),
    {
        let ghost state = worker@;
        let ghost held = store@;
        let ghost wanted = action@;
        let ghost recorded = failures@;
        let ghost asked_before = asked;
        let event = match action {
            WorkerAction::Stop => {
                return WorkerLog { handled: taken, failures };
            },
            WorkerAction::Receive => {
                if taken < jobs.len() {
                    let window = &jobs[taken].window;
                    let next = FetchWindow {
                        symbol: window.symbol.clone(),
                        start: window.start,
                        end: window.end,
                    };
                    taken = taken + 1;
                    proof {
                        item_before = held;
                        asked = 0;
                    }
                    WorkerEvent::Received(Some(next))
                } else {
                    assert(jobs@.take(taken as int) == jobs@);
                    WorkerEvent::Received(None)
                }
            },
            WorkerAction::Perform(inner) => {
                proof {
                    asked = counted_after(inner@, asked);
                }
                WorkerEvent::Performed(perform(store, &jobs[taken - 1].answer, inner))
            },
            WorkerAction::Report { symbol, error } => {
                failures.push(Failure { symbol, error });
                WorkerEvent::Reported
            },
            WorkerAction::Ignore => unreached(),
        };
        let ghost happened = event;
        let next = worker.step(event);
        worker = next.0;
        action = next.1;
        proof {
            worker.lemma_fits();
            if let WorkerEvent::Performed(outcome) = happened {
                lemma_worker_performs(
                    before,
                    jobs@,
                    taken as nat,
                    item_before,
                    asked_before,
                    held,
                    state,
                    wanted,
                    recorded,
                    outcome,
                    store@,
                );
            }
        }
    }
}

/// Cache-aside. Over a store that does not break, a lookup whose window
/// holds a point of the symbol does not ask the provider and leaves the
/// table as it is. A lookup whose window holds none asks the provider
/// exactly once, and where the provider serves a series, the table
/// afterwards holds a point at the instant of every quote of that series.
pub proof fn lemma_cache_aside(
    store: StoreModel,
    served: Result<Seq<DailyClose>, ProviderError>,
    symbol: String,
    start: i64,
    end: i64,
    limit: i32,
)
    requires
        store.left is None,
    ensures
        stored_in(store.prices, symbol@, start as int, end as int) ==> resolved(
            store,
            served,
            symbol,
            start,
            end,
            limit,
        ).fetches == 0 && resolved(store, served, symbol, start, end, limit).store == store,
        !stored_in(store.prices, symbol@, start as int, end as int) ==> resolved(
            store,
            served,
            symbol,
            start,
            end,
            limit,
        ).fetches == 1,
        !stored_in(store.prices, symbol@, start as int, end as int) ==> (served matches Ok(entries)
            ==> forall|i: int|
            0 <= i < normalized_series(entries).len() ==> resolved(
                store,
                served,
                symbol,
                start,
                end,
                limit,
            ).store.prices.contains_key(
                (symbol@, #[trigger] normalized_series(entries)[i].timestamp),
            )),
{
    if !stored_in(store.prices, symbol@, start as int, end as int) {
        if let Ok(entries) = served {
            let quotes = normalized_series(entries);
            assert(quotes.take(quotes.len() as int) == quotes);
            assert forall|i: int| 0 <= i < quotes.len() implies upsert_all(
                store.prices,
                symbol@,
                quotes,
            ).contains_key((symbol@, #[trigger] quotes[i].timestamp)) by {
                lemma_upsert_all_holds_each(store.prices, symbol@, quotes, i);
            }
        }
    }
}

/// The window of a lookup does not bound what a miss returns: whatever the
/// window, a lookup that goes to the provider over a store that does not
/// break returns a point for every quote of the series it was served, in
/// the order of the series.
pub proof fn lemma_miss_returns_whole_series(
    store: StoreModel,
    entries: Seq<DailyClose>,
    symbol: String,
    start: i64,
    end: i64,
    limit: i32,
)
    requires
        store.left is None,
        !stored_in(store.prices, symbol@, start as int, end as int),
    ensures
        resolved(store, Ok(entries), symbol, start, end, limit).reply == Ok::<
            ResolvedModel,
            ResolverError,
        >(ResolvedModel::Fetched(points_of(symbol, normalized_series(entries)))),
        points_of(symbol, normalized_series(entries)).len() == normalized_series(entries).len(),
        forall|i: int|
            0 <= i < normalized_series(entries).len() ==> (#[trigger] points_of(
                symbol,
                normalized_series(entries),
            )[i]).timestamp == normalized_series(entries)[i].timestamp,
{
}

/// Presence after a miss. A lookup that went to the provider leaves data in
/// its window exactly when the series it was served has a quote there: a
/// series that lies outside the window is stored all the same, and the next
/// lookup of that window goes to the provider again.
pub proof fn lemma_presence_after_a_miss(
    store: StoreModel,
    entries: Seq<DailyClose>,
    symbol: String,
    start: i64,
    end: i64,
    limit: i32,
)
    requires
        store.left is None,
        !stored_in(store.prices, symbol@, start as int, end as int),
    ensures
        stored_in(
            resolved(store, Ok(entries), symbol, start, end, limit).store.prices,
            symbol@,
            start as int,
            end as int,
        ) <==> exists|i: int|
            0 <= i < normalized_series(entries).len() && start <= (#[trigger] normalized_series(
                entries,
            )[i]).timestamp <= end,
{
    let quotes = normalized_series(entries);
    let after = upsert_all(store.prices, symbol@, quotes);
    assert(quotes.take(quotes.len() as int) == quotes);
    if exists|i: int| 0 <= i < quotes.len() && start <= (#[trigger] quotes[i]).timestamp <= end {
        let i = choose|i: int|
            0 <= i < quotes.len() && start <= (#[trigger] quotes[i]).timestamp <= end;
        lemma_upsert_all_holds_each(store.prices, symbol@, quotes, i);
    }
    if stored_in(after, symbol@, start as int, end as int) {
        let t = choose|t: i64| start <= t <= end && #[trigger] after.contains_key((symbol@, t));
        lemma_upsert_all_adds_only_written(store.prices, symbol@, quotes, (symbol@, t));
    }
}

/// A close that was not a number does not fail a lookup. The entry is
/// stored like any other, and unless an entry behind it names the same day,
/// the table afterwards holds the price `0.0` at the start of its day.
pub proof fn lemma_unread_close_is_stored_as_zero(
    store: StoreModel,
    entries: Seq<DailyClose>,
    i: int,
    symbol: String,
    start: i64,
    end: i64,
    limit: i32,
)
    requires
        store.left is None,
        !stored_in(store.prices, symbol@, start as int, end as int),
        0 <= i < entries.len(),
        entries[i].close is None,
        day_start(entries[i].date@) is Some,
    ensures
        resolved(store, Ok(entries), symbol, start, end, limit).reply is Ok,
        resolved(store, Ok(entries), symbol, start, end, limit).store.prices.contains_key(
            (symbol@, day_start(entries[i].date@)->0),
        ),
        (forall|m: int|
            i < m < entries.len() ==> day_start(#[trigger] entries[m].date@) != day_start(
                entries[i].date@,
            )) ==> resolved(store, Ok(entries), symbol, start, end, limit).store.prices[(
            symbol@,
            day_start(entries[i].date@)->0,
        )] == ZERO_PRICE_BITS,
{
    let quotes = normalized_series(entries);
    let at = lemma_normalized_place(entries, i);
    assert(quotes.take(quotes.len() as int) == quotes);
    lemma_upsert_all_holds_each(store.prices, symbol@, quotes, at);
    if forall|m: int|
        i < m < entries.len() ==> day_start(#[trigger] entries[m].date@) != day_start(
            entries[i].date@,
        ) {
        assert forall|k: int| at < k < quotes.len() implies quotes[k].timestamp
            != quotes[at].timestamp by {
            assert(from_behind(entries, i, quotes[k]));
            let m = choose|m: int|
                i < m < entries.len() && normalized(#[trigger] entries[m]) == Some(quotes[k]);
            assert(day_start(entries[m].date@) != day_start(entries[i].date@));
        }
    }
}

/// A failure of the store surfaces and is not rolled back. A lookup over a
/// store whose connection is broken fails before the provider is asked. A
/// lookup that goes to the provider over a store that carries out the count
/// and `written` writes and then breaks leaves the first `written` quotes of
/// the series in the table, writes no further one, and fails with the
/// store's failure.
pub proof fn lemma_store_failure_is_not_rolled_back(
    store: StoreModel,
    entries: Seq<DailyClose>,
    symbol: String,
    start: i64,
    end: i64,
    limit: i32,
    written: nat,
)
    requires
        !stored_in(store.prices, symbol@, start as int, end as int),
        written < normalized_series(entries).len(),
    ensures
        store.left == Some(0nat) ==> resolved(store, Ok(entries), symbol, start, end, limit) == (
        Outcome { store, reply: Err(ResolverError::of_store(store.failure)), fetches: 0 }),
        store.left == Some(written + 1) ==> {
            let run = resolved(store, Ok(entries), symbol, start, end, limit);
            &&& run.fetches == 1
            &&& run.reply == Err::<ResolvedModel, ResolverError>(
                ResolverError::of_store(store.failure),
            )
            &&& run.store.left == Some(0nat)
            &&& run.store.prices == upsert_all(
                store.prices,
                symbol@,
                normalized_series(entries).take(written as int),
            )
            &&& forall|i: int|
                0 <= i < written ==> run.store.prices.contains_key(
                    (symbol@, #[trigger] normalized_series(entries)[i].timestamp),
                )
        },
{
    if store.left == Some(written + 1) {
        let quotes = normalized_series(entries);
        let kept = quotes.take(written as int);
        assert forall|i: int| 0 <= i < written implies upsert_all(
            store.prices,
            symbol@,
            kept,
        ).contains_key((symbol@, #[trigger] quotes[i].timestamp)) by {
            lemma_upsert_all_holds_each(store.prices, symbol@, kept, i);
        }
    }
}

/// Fetching again is harmless. Over a store that does not break, a request
/// that goes to the provider a second time and is served the same series
/// leaves the table as the first time did: two requests that both miss
/// write the same points twice and corrupt nothing.
pub proof fn lemma_fetching_again_changes_nothing(
    store: StoreModel,
    served: Result<Seq<DailyClose>, ProviderError>,
    request: ResolverState,
)
    requires
        store.left is None,
    ensures
        fetched_and_stored(fetched_and_stored(store, served, request).store, served, request).store
            == fetched_and_stored(store, served, request).store,
{
    if let Ok(entries) = served {
        let quotes = request.chosen(normalized_series(entries));
        assert(quotes.take(quotes.len() as int) == quotes);
        lemma_upsert_all_is_idempotent(store.prices, request.symbol@, quotes);
    }
}

/// A store that does not break does not break over any number of
/// prefetches.
pub proof fn lemma_prefetched_stays_healthy(store: StoreModel, jobs: Seq<PrefetchJob>)
    requires
        store.left is None,
    ensures
        prefetched(store, jobs).left is None,
    decreases jobs.len(),
{
    if jobs.len() > 0 {
        lemma_prefetched_stays_healthy(store, jobs.drop_last());
    }
}

/// A worker loses no window: after the queue is drained over a store that
/// does not break, the table holds a point at the instant of every quote
/// that any of the prefetches chose to store.
pub proof fn lemma_no_window_is_lost(store: StoreModel, jobs: Seq<PrefetchJob>, i: int, k: int)
    requires
        store.left is None,
        0 <= i < jobs.len(),
        jobs[i].answer.served() matches Ok(entries) && 0 <= k < window_of(
            normalized_series(entries),
            jobs[i].window.start,
            jobs[i].window.end,
        ).len(),
    ensures
        prefetched(store, jobs).prices.contains_key(
            (
                jobs[i].window.symbol@,
                window_of(
                    normalized_series(jobs[i].answer.served()->Ok_0),
                    jobs[i].window.start,
                    jobs[i].window.end,
                )[k].timestamp,
            ),
        ),
    decreases jobs.len(),
{
    let last = jobs.len() - 1;
    let earlier = prefetched(store, jobs.drop_last());
    let quotes = window_of(
        normalized_series(jobs[i].answer.served()->Ok_0),
        jobs[i].window.start,
        jobs[i].window.end,
    );
    let key = (jobs[i].window.symbol@, quotes[k].timestamp);
    lemma_prefetched_stays_healthy(store, jobs.drop_last());
    if i == last {
        assert(quotes.take(quotes.len() as int) == quotes);
        lemma_upsert_all_holds_each(earlier.prices, jobs[i].window.symbol@, quotes, k);
    } else {
        lemma_no_window_is_lost(store, jobs.drop_last(), i, k);
        if let Ok(entries) = jobs[last].answer.served() {
            let written = jobs[last].request().chosen(normalized_series(entries));
            assert(written.take(written.len() as int) == written);
            lemma_upsert_all_keeps_keys(earlier.prices, jobs[last].window.symbol@, written, key);
        }
    }
}

} // verus!
