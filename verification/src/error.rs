//! Errors of the relay client and its event store.

use vstd::prelude::*;
use crate::text::labelled;

verus! {

/// What can go wrong when fetching, storing or reading back events.
#[derive(Debug, Clone)]
pub enum Error {
    /// A requested item does not exist.
    NotFound(String),
    /// The relay could not be reached or answered with an error.
    Relay(String),
    /// The event store failed.
    Database(String),
    /// The event store's schema could not be brought up to date.
    Migration(String),
}

/// The message of `e`: a label for its kind, a colon, and its detail.
pub open spec fn error_text(e: Error) -> Seq<char> {
    match e {
        Error::NotFound(m) => "not found: "@ + m@,
        Error::Relay(m) => "relay error: "@ + m@,
        Error::Database(m) => "database error: "@ + m@,
        Error::Migration(m) => "migration error: "@ + m@,
    }
}

impl Error {
    /// The error's message, as shown to users.
    pub fn message(&self) -> (r: String)
        ensures
            r@ == error_text(*self),
    {
        match self {
            Error::NotFound(m) => labelled("not found: ", m),
            Error::Relay(m) => labelled("relay error: ", m),
            Error::Database(m) => labelled("database error: ", m),
            Error::Migration(m) => labelled("migration error: ", m),
        }
    }
}

} // verus!
