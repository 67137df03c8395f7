//! The prefetch worker as a state machine, and the windows it is seeded
//! with.
//!
//! The worker takes one window after another from a queue and runs a
//! prefetch for each. A prefetch that fails is reported and left behind;
//! the worker goes on to the next window and stops only when the queue is
//! closed and empty.

use crate::error::ResolverError;
use crate::model::{FetchWindow, MILLIS_PER_DAY};
use crate::resolver::{Action, ActionModel, Event, Resolver, ResolverState};
use vstd::prelude::*;

verus! {

/// What the worker wants done next.
#[derive(Debug, PartialEq, Eq)]
pub enum WorkerAction {
    /// Wait for the next window of the queue and report it with `Received`:
    /// the window, or `None` once the queue is closed and empty.
    Receive,
    /// Carry out this action of the prefetch at hand and report what came
    /// of it with `Performed`.
    Perform(Action),
    /// Put on record that the prefetch of `symbol` failed with `error`, and
    /// confirm with `Reported`.
    Report { symbol: String, error: ResolverError },
    /// The queue is closed and empty: the worker is done.
    Stop,
    /// The event answered nothing that was asked; nothing changed.
    Ignore,
}

/// What came of a worker's action.
#[derive(Debug, PartialEq, Eq)]
pub enum WorkerEvent {
    Started,
    Received(Option<FetchWindow>),
    Performed(Event),
    Reported,
}

/// Where a worker stands.
enum Stage {
    Idle,
    Waiting,
    Working(Resolver),
    Reporting,
    Stopped,
}

/// The consumer of the prefetch queue.
pub struct Worker {
    stage: Stage,
}

/// A worker's action, as mathematics.
pub ghost enum WorkerActionModel {
    Receive,
    Perform(ActionModel),
    Report { symbol: String, error: ResolverError },
    Stop,
    Ignore,
}

/// A worker, as mathematics.
pub ghost enum WorkerState {
    /// Not started yet.
    Idle,
    /// Waiting for the next window.
    Waiting,
    /// Running the prefetch of a window.
    Working(ResolverState),
    /// Putting a failed prefetch on record.
    Reporting,
    /// Done: the queue was closed and empty.
    Stopped,
}

impl View for WorkerAction {
    type V = WorkerActionModel;

    open spec fn view(&self) -> WorkerActionModel {
        match *self {
            WorkerAction::Receive => WorkerActionModel::Receive,
            WorkerAction::Perform(action) => WorkerActionModel::Perform(action@),
            WorkerAction::Report { symbol, error } => WorkerActionModel::Report { symbol, error },
            WorkerAction::Stop => WorkerActionModel::Stop,
            WorkerAction::Ignore => WorkerActionModel::Ignore,
        }
    }
}

impl View for Worker {
    type V = WorkerState;

    closed spec fn view(&self) -> WorkerState {
        match self.stage {
            Stage::Idle => WorkerState::Idle,
            Stage::Waiting => WorkerState::Waiting,
            Stage::Working(resolver) => WorkerState::Working(resolver@),
            Stage::Reporting => WorkerState::Reporting,
            Stage::Stopped => WorkerState::Stopped,
        }
    }
}

impl WorkerState {
    /// Whether the quotes of the prefetch at hand are few enough to be
    /// held.
    pub open spec fn fits(self) -> bool {
        self matches WorkerState::Working(job) ==> job.fits()
    }

    /// The state after `event` and the action to take then.
    ///
    /// Every window that is received gets its prefetch, which is carried
    /// out action by action. When the prefetch replies, the worker waits for
    /// the next window: at once after a success, after the report after a
    /// failure. Only the end of the queue stops it.
    pub open spec fn next(self, event: WorkerEvent) -> (WorkerState, WorkerActionModel) {
        match (self, event) {
            (WorkerState::Idle, WorkerEvent::Started) => (
                WorkerState::Waiting,
                WorkerActionModel::Receive,
            ),
            (WorkerState::Waiting, WorkerEvent::Received(Some(window))) => (
                WorkerState::Working(
                    ResolverState::prefetch(window.symbol, window.start, window.end),
                ),
                WorkerActionModel::Perform(ActionModel::Fetch { symbol: window.symbol }),
            ),
            (WorkerState::Waiting, WorkerEvent::Received(None)) => (
                WorkerState::Stopped,
                WorkerActionModel::Stop,
            ),
            (WorkerState::Working(job), WorkerEvent::Performed(outcome)) => {
                let (then, action) = job.next(outcome);
                match action {
                    ActionModel::Reply(Ok(_)) => (WorkerState::Waiting, WorkerActionModel::Receive),
                    ActionModel::Reply(Err(error)) => (
                        WorkerState::Reporting,
                        WorkerActionModel::Report { symbol: job.symbol, error },
                    ),
                    ActionModel::Ignore => (self, WorkerActionModel::Ignore),
                    _ => (WorkerState::Working(then), WorkerActionModel::Perform(action)),
                }
            },
            (WorkerState::Reporting, WorkerEvent::Reported) => (
                WorkerState::Waiting,
                WorkerActionModel::Receive,
            ),
            _ => (self, WorkerActionModel::Ignore),
        }
    }
}

/// The worker's cycle. It waits for a window only between prefetches,
/// never in the middle of one, and it stops only when it is waiting and
/// the queue turns out closed and empty.
pub proof fn lemma_worker_cycle(state: WorkerState, event: WorkerEvent)
    ensures
        state.next(event).1 is Receive ==> state.next(event).0 is Waiting,
        state.next(event).1 is Stop <==> state is Waiting && event == WorkerEvent::Received(None),
        state.next(event).0 is Stopped ==> state is Stopped || (state is Waiting && event
            == WorkerEvent::Received(None)),
        state is Waiting ==> (event matches WorkerEvent::Received(Some(window)) ==> state.next(
            event,
        ).0 == WorkerState::Working(
            ResolverState::prefetch(window.symbol, window.start, window.end),
        )),
{
}

/// The windows that a worker is seeded with: for each symbol, in order,
/// each interval, in order.
pub open spec fn seeded(symbols: Seq<String>, intervals: Seq<(i64, i64)>) -> Seq<FetchWindow> {
    Seq::new(
        symbols.len() * intervals.len(),
        |i: int|
            FetchWindow {
                symbol: symbols[i / intervals.len() as int],
                start: intervals[i % intervals.len() as int].0,
                end: intervals[i % intervals.len() as int].1,
            },
    )
}

/// The intervals that are warmed when nothing else is asked for: the last
/// thirty days before `now`, and the thirty days before those.
pub open spec fn warm_intervals(now: i64) -> Seq<(i64, i64)> {
    seq![
        ((now - 30 * MILLIS_PER_DAY) as i64, now),
        ((now - 60 * MILLIS_PER_DAY) as i64, (now - 30 * MILLIS_PER_DAY) as i64),
    ]
}

impl Worker {
    /// A worker that has not started.
    pub fn new() -> (worker: Worker)
        ensures
            worker@ == WorkerState::Idle,
    {
        Worker { stage: Stage::Idle }
    }

    /// The quotes of the prefetch that a worker has at hand are few enough
    /// to be held.
    pub proof fn lemma_fits(&self)
        ensures
            self@.fits(),
    {
        match self.stage {
            Stage::Working(job) => {
                job.lemma_fits();
            },
            _ => {},
        }
    }

    /// Takes the outcome of the last action and names the next one.
    pub fn step(self, event: WorkerEvent) -> (next: (Worker, WorkerAction))
        ensures
            next.0@ == self@.next(event).0,
            next.1@ == self@.next(event).1,
    {
        match (self.stage, event) {
            (Stage::Idle, WorkerEvent::Started) => (
                Worker { stage: Stage::Waiting },
                WorkerAction::Receive,
            ),
            (Stage::Waiting, WorkerEvent::Received(Some(window))) => {
                let begun = Resolver::prefetch(window.symbol, window.start, window.end);
                (Worker { stage: Stage::Working(begun.0) }, WorkerAction::Perform(begun.1))
            },
            (Stage::Waiting, WorkerEvent::Received(None)) => (
                Worker { stage: Stage::Stopped },
                WorkerAction::Stop,
            ),
            (Stage::Working(job), WorkerEvent::Performed(outcome)) => {
                let symbol = job.symbol();
                let stepped = job.step(outcome);
                match stepped.1 {
                    Action::Reply(Ok(_)) => (
                        Worker { stage: Stage::Waiting },
                        WorkerAction::Receive,
                    ),
                    Action::Reply(Err(error)) => (
                        Worker { stage: Stage::Reporting },
                        WorkerAction::Report { symbol, error },
                    ),
                    Action::Ignore => (
                        Worker { stage: Stage::Working(stepped.0) },
                        WorkerAction::Ignore,
                    ),
                    action => (
                        Worker { stage: Stage::Working(stepped.0) },
                        WorkerAction::Perform(action),
                    ),
                }
            },
            (Stage::Reporting, WorkerEvent::Reported) => (
                Worker { stage: Stage::Waiting },
                WorkerAction::Receive,
            ),
            (stage, _) => (Worker { stage }, WorkerAction::Ignore),
        }
    }
}

/// The intervals that are warmed at `now`, or `None` where they would begin
/// before the earliest instant an `i64` holds.
pub fn warm_intervals_at(now: i64) -> (intervals: Option<Vec<(i64, i64)>>)
    ensures
        match intervals {
            Some(found) => found@ == warm_intervals(now) && now - 60 * MILLIS_PER_DAY >= i64::MIN,
            None => now - 60 * MILLIS_PER_DAY < i64::MIN,
        },
{
    match now.checked_sub(60 * MILLIS_PER_DAY) {
        Some(far) => {
            let near: i64 = now - 30 * MILLIS_PER_DAY;
            let mut found: Vec<(i64, i64)> = Vec::new();
            found.push((near, now));
            found.push((far, near));
            Some(found)
        },
        None => None,
    }
}

/// The windows to put on the queue: every interval for the first symbol,
/// then every interval for the second, and so on.
pub fn seed_windows(symbols: &Vec<String>, intervals: &Vec<(i64, i64)>) -> (windows: Vec<
    FetchWindow,
>)
    ensures
        windows@ == seeded(symbols@, intervals@),
{
    let mut windows: Vec<FetchWindow> = Vec::new();
    let mut s: usize = 0;
    while s < symbols.len()
        invariant
            s <= symbols.len(),
            windows@.len() == s * intervals.len(),
            forall|i: int|
                0 <= i < windows@.len() ==> #[trigger] windows@[i] == seeded(
                    symbols@,
                    intervals@,
                )[i],
        decreases symbols.len() - s,
    {
        let mut k: usize = 0;
        while k < intervals.len()
            invariant
                s < symbols.len(),
                k <= intervals.len(),
                windows@.len() == s * intervals.len() + k,
                forall|i: int|
                    0 <= i < windows@.len() ==> #[trigger] windows@[i] == seeded(
                        symbols@,
                        intervals@,
                    )[i],
            decreases intervals.len() - k,
        {
            proof {
                lemma_cell(s as int, k as int, symbols.len() as int, intervals.len() as int);
            }
            windows.push(
                FetchWindow {
                    symbol: symbols[s].clone(),
                    start: intervals[k].0,
                    end: intervals[k].1,
                },
            );
            k += 1;
        }
        assert((s + 1) * intervals.len() == s * intervals.len() + intervals.len())
            by (nonlinear_arith);
        s += 1;
    }
    windows
}

/// The cell of row `s` and column `k` in a grid of `width` columns is the
/// cell numbered `s * width + k`, and lies in the grid.
proof fn lemma_cell(s: int, k: int, height: int, width: int)
    requires
        0 <= s < height,
        0 <= k < width,
    ensures
        0 <= s * width + k < height * width,
        (s * width + k) / width == s,
        (s * width + k) % width == k,
{
    assert(0 <= s * width + k < height * width) by (nonlinear_arith)
        requires
            0 <= s < height,
            0 <= k < width,
    ;
    vstd::arithmetic::div_mod::lemma_fundamental_div_mod_converse(s * width + k, width, s, k);
}

} // verus!
