//! The rules of the request surface: what a request for a symbol's history
//! asks of the resolver, and what a client is told.

use crate::error::{CustomError, ResolverError};
use crate::model::{FetchWindow, PricePoint, MILLIS_PER_DAY};
use crate::resolver::{Action, Resolved, Resolver, ResolverState};
use vstd::prelude::*;

verus! {

/// How many days back from now a request for history reaches.
pub const TRAILING_DAYS: u32 = 30;

/// How many points a request for history is served from the store at most.
pub const SCAN_LIMIT: i32 = 50;

/// What a client is told when the history was fetched from the provider.
pub const FETCHED_AND_STORED: &'static str = "Data fetched and stored";

/// The status of a portfolio that was created.
pub const STATUS_CREATED: u16 = 201;

/// The status of a portfolio that was changed or removed.
pub const STATUS_OK: u16 = 200;

/// What was done to a portfolio.
#[derive(Clone, Copy, Debug, PartialEq, Eq, Structural)]
pub enum PortfolioChange {
    Added,
    Updated,
    Deleted,
}

/// What a client is told about a symbol's history.
#[derive(Debug)]
pub enum HistoryReply {
    /// The points that the store held, newest first.
    Points(Vec<PricePoint>),
    /// The history was fetched and stored; the client gets this message and
    /// finds the points with its next request.
    Message(&'static str),
    /// The request failed; the client gets the failure's message.
    Rejected(CustomError),
}

/// The text that confirms a change to a portfolio.
pub open spec fn confirmation_text(change: PortfolioChange) -> Seq<char> {
    match change {
        PortfolioChange::Added => "Portfolio added"@,
        PortfolioChange::Updated => "Portfolio updated"@,
        PortfolioChange::Deleted => "Portfolio deleted"@,
    }
}

/// The status and the text that confirm a change to a portfolio: a new
/// portfolio is created, a changed or removed one is fine.
pub fn confirmation(change: PortfolioChange) -> (confirmed: (u16, &'static str))
    ensures
        confirmed.0 == if change == PortfolioChange::Added {
            STATUS_CREATED
        } else {
            STATUS_OK
        },
        confirmed.1@ == confirmation_text(change),
{
    match change {
        PortfolioChange::Added => (STATUS_CREATED, "Portfolio added"),
        PortfolioChange::Updated => (STATUS_OK, "Portfolio updated"),
        PortfolioChange::Deleted => (STATUS_OK, "Portfolio deleted"),
    }
}

/// Begins the lookup that serves a request for the history of `symbol` made
/// at `now`: over the days from `TRAILING_DAYS` back until now, with at most
/// `SCAN_LIMIT` points from the store. `None` where that window would begin
/// before the earliest instant an `i64` holds.
pub fn begin_history(symbol: String, now: i64) -> (begun: Option<(Resolver, Action)>)
    ensures
        match begun {
            Some(lookup) => now - TRAILING_DAYS * MILLIS_PER_DAY >= i64::MIN && lookup.0@
                == ResolverState::lookup(
                symbol,
                (now - TRAILING_DAYS * MILLIS_PER_DAY) as i64,
                now,
                SCAN_LIMIT,
            ) && lookup.1@ == lookup.0@.count(),
            None => now - TRAILING_DAYS * MILLIS_PER_DAY < i64::MIN,
        },
{
    match FetchWindow::trailing(symbol, now, TRAILING_DAYS) {
        Some(window) => Some(Resolver::lookup(window.symbol, window.start, window.end, SCAN_LIMIT)),
        None => None,
    }
}

/// What the client is told when the lookup has replied: the points of the
/// store where it held any, a message where the provider was asked, and the
/// failure's message where the lookup failed.
pub fn history_reply(outcome: Result<Resolved, ResolverError>) -> (reply: HistoryReply)
    ensures
        match outcome {
            Ok(Resolved::Cached(points)) => reply matches HistoryReply::Points(shown) && shown@
                == points@,
            Ok(Resolved::Fetched(_)) => reply matches HistoryReply::Message(text) && text@
                == FETCHED_AND_STORED@,
            Err(error) => reply matches HistoryReply::Rejected(rejection) && rejection.message@
                == error.text(),
        },
{
    match outcome {
        Ok(Resolved::Cached(points)) => HistoryReply::Points(points),
        Ok(Resolved::Fetched(_)) => HistoryReply::Message(FETCHED_AND_STORED),
        Err(error) => HistoryReply::Rejected(CustomError::rejection(&error)),
    }
}

} // verus!
