//! Error values of the store, the provider and the resolver, and the flat
//! message that the request surface reports.

use vstd::prelude::*;
use vstd::string::*;

verus! {

/// What the store reports when a scan comes back without a row set.
pub const NO_ROWS: &'static str = "No rows found";

/// What leads the message of a response whose status is not a success.
pub const BAD_STATUS: &'static str = "Failed to fetch data: HTTP ";

/// A failure of the historical store.
#[derive(Clone, Debug, PartialEq, Eq)]
pub enum StoreError {
    /// The store could not be reached or refused the statement; the text is
    /// the store's own.
    Failure(String),
    /// A scan came back without a row set.
    NotFound,
}

/// A failure of the price provider.
#[derive(Clone, Debug, PartialEq, Eq)]
pub enum ProviderError {
    /// The request did not get an answer; the text is the transport's own.
    Http(String),
    /// The answer carried this status, which is not a success.
    Status(u16),
    /// The payload was not a daily series; the text is the decoder's own.
    Decode(String),
}

/// A failure of the resolver: the first failure of the store or of the
/// provider on the way, unchanged.
#[derive(Clone, Debug, PartialEq, Eq)]
pub enum ResolverError {
    Store(StoreError),
    Provider(ProviderError),
    /// The store's scan came back without a row set.
    NotFound,
}

/// A failure reported to a client as a bare message.
#[derive(Debug)]
pub struct CustomError {
    pub message: String,
}

/// The text of a single decimal digit.
pub open spec fn digit_text(digit: int) -> Seq<char> {
    if digit == 0 {
        "0"@
    } else if digit == 1 {
        "1"@
    } else if digit == 2 {
        "2"@
    } else if digit == 3 {
        "3"@
    } else if digit == 4 {
        "4"@
    } else if digit == 5 {
        "5"@
    } else if digit == 6 {
        "6"@
    } else if digit == 7 {
        "7"@
    } else if digit == 8 {
        "8"@
    } else {
        "9"@
    }
}

/// The decimal text of `number`, without leading zeros.
pub open spec fn decimal_text(number: nat) -> Seq<char>
    decreases number,
{
    if number < 10 {
        digit_text(number as int)
    } else {
        decimal_text(number / 10) + digit_text((number % 10) as int)
    }
}

fn digit_str(digit: u16) -> (text: &'static str)
    requires
        digit < 10,
    ensures
        text@ == digit_text(digit as int),
{
    if digit == 0 {
        "0"
    } else if digit == 1 {
        "1"
    } else if digit == 2 {
        "2"
    } else if digit == 3 {
        "3"
    } else if digit == 4 {
        "4"
    } else if digit == 5 {
        "5"
    } else if digit == 6 {
        "6"
    } else if digit == 7 {
        "7"
    } else if digit == 8 {
        "8"
    } else {
        "9"
    }
}

/// Writes `number` in decimal.
pub fn decimal(number: u16) -> (text: String)
    ensures
        text@ == decimal_text(number as nat),
    decreases number,
{
    if number < 10 {
        String::from_str(digit_str(number))
    } else {
        decimal(number / 10).concat(digit_str(number % 10))
    }
}

impl StoreError {
    /// The message of the error.
    pub open spec fn text(self) -> Seq<char> {
        match self {
            StoreError::Failure(message) => message@,
            StoreError::NotFound => NO_ROWS@,
        }
    }

    /// The message of the error: the store's own text, or the fixed text of
    /// a missing row set.
    pub fn describe(&self) -> (text: String)
        ensures
            text@ == self.text(),
    {
        match self {
            StoreError::Failure(message) => message.clone(),
            StoreError::NotFound => String::from_str(NO_ROWS),
        }
    }
}

impl ProviderError {
    /// The message of the error.
    pub open spec fn text(self) -> Seq<char> {
        match self {
            ProviderError::Http(message) => message@,
            ProviderError::Status(code) => BAD_STATUS@ + decimal_text(code as nat),
            ProviderError::Decode(message) => message@,
        }
    }

    /// The message of the error: the transport's or the decoder's own text,
    /// or the status in decimal behind a fixed lead.
    pub fn describe(&self) -> (text: String)
        ensures
            text@ == self.text(),
    {
        match self {
            ProviderError::Http(message) => message.clone(),
            ProviderError::Status(code) => {
                let digits = decimal(*code);
                String::from_str(BAD_STATUS).concat(digits.as_str())
            },
            ProviderError::Decode(message) => message.clone(),
        }
    }
}

impl ResolverError {
    /// The message of the error.
    pub open spec fn text(self) -> Seq<char> {
        match self {
            ResolverError::Store(error) => error.text(),
            ResolverError::Provider(error) => error.text(),
            ResolverError::NotFound => NO_ROWS@,
        }
    }

    /// A store failure as the resolver passes it on: a missing row set
    /// becomes the resolver's own not-found, anything else is wrapped.
    pub open spec fn of_store(error: StoreError) -> ResolverError {
        match error {
            StoreError::NotFound => ResolverError::NotFound,
            other => ResolverError::Store(other),
        }
    }

    /// Passes a store failure on.
    pub fn from_store(error: StoreError) -> (wrapped: ResolverError)
        ensures
            wrapped == ResolverError::of_store(error),
            wrapped.text() == error.text(),
    {
        match error {
            StoreError::NotFound => ResolverError::NotFound,
            other => ResolverError::Store(other),
        }
    }

    /// Passes a provider failure on.
    pub fn from_provider(error: ProviderError) -> (wrapped: ResolverError)
        ensures
            wrapped == ResolverError::Provider(error),
            wrapped.text() == error.text(),
    {
        ResolverError::Provider(error)
    }

    /// The message of the underlying failure, unchanged.
    pub fn describe(&self) -> (text: String)
        ensures
            text@ == self.text(),
    {
        match self {
            ResolverError::Store(error) => error.describe(),
            ResolverError::Provider(error) => error.describe(),
            ResolverError::NotFound => String::from_str(NO_ROWS),
        }
    }
}

impl CustomError {
    /// The failure that the request surface reports for `error`: its
    /// message and nothing else.
    pub fn rejection(error: &ResolverError) -> (rejected: CustomError)
        ensures
            rejected.message@ == error.text(),
    {
        CustomError { message: error.describe() }
    }

    /// The text shown to the client: the message, unchanged.
    pub fn describe(&self) -> (text: String)
        ensures
            text@ == self.message@,
    {
        self.message.clone()
    }
}

} // verus!
