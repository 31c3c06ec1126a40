//! The error and event records handed across the boundary to native
//! front ends.

use vstd::prelude::*;
use crate::text::labelled;
use crate::error::{error_text, Error};
use crate::models::RelayEvent;
use crate::time::{age_seen_at, relative_time, relative_time_at};

verus! {

/// The error returned to native code.
#[derive(Debug, Clone)]
pub enum FfiError {
    NotFound(String),
    Relay(String),
    Internal(String),
}

/// The message shown for an `FfiError`.
pub open spec fn ffi_error_text(e: FfiError) -> Seq<char> {
    match e {
        FfiError::NotFound(m) => "Not found: "@ + m@,
        FfiError::Relay(m) => "Could not connect to relay: "@ + m@,
        FfiError::Internal(m) => "Something went wrong: "@ + m@,
    }
}

impl FfiError {
    /// The error's message, as shown to users.
    pub fn message(&self) -> (r: String)
        ensures
            r@ == ffi_error_text(*self),
    {
        match self {
            FfiError::NotFound(m) => labelled("Not found: ", m),
            FfiError::Relay(m) => labelled("Could not connect to relay: ", m),
            FfiError::Internal(m) => labelled("Something went wrong: ", m),
        }
    }

    /// Maps a core error to the error exported to native code: not-found and
    /// relay errors keep their detail, every other error becomes an internal
    /// error carrying its message.
    pub fn from_core(e: Error) -> (r: FfiError)
        ensures
            match e {
                Error::NotFound(m) => r matches FfiError::NotFound(x) && x@ == m@,
                Error::Relay(m) => r matches FfiError::Relay(x) && x@ == m@,
                _ => r matches FfiError::Internal(x) && x@ == error_text(e),
            },
    {
        match e {
            Error::NotFound(msg) => FfiError::NotFound(msg),
            Error::Relay(msg) => FfiError::Relay(msg),
            other => FfiError::Internal(other.message()),
        }
    }
}

/// FFI record for a relay event — includes computed fields for display.
#[derive(Debug, Clone)]
pub struct FfiRelayEvent {
    pub id: String,
    pub pubkey: String,
    pub kind: u32,
    pub content: String,
    pub created_at: i64,
    /// Resolved profile name or truncated npub.
    pub display_name: String,
    /// Human-readable kind name (e.g. "Text Note", "Reaction").
    pub kind_name: String,
    /// Human-readable relative timestamp (e.g. "2m ago", "3h ago").
    pub relative_time: String,
}

/// Whether `r` carries the fields of `e` unchanged.
pub open spec fn carries(r: FfiRelayEvent, e: RelayEvent) -> bool {
    &&& r.id@ == e.id@
    &&& r.pubkey@ == e.pubkey@
    &&& r.kind == e.kind
    &&& r.content@ == e.content@
    &&& r.created_at == e.created_at
    &&& r.display_name@ == e.display_name@
    &&& r.kind_name@ == e.kind_name@
}

impl FfiRelayEvent {
    /// The record for `e` with its relative timestamp as seen at time `now`
    /// (Unix seconds).
    pub fn from_relay_event_at(e: RelayEvent, now: i64) -> (r: FfiRelayEvent)
        ensures
            carries(r, e),
            r.relative_time@ == age_seen_at(now, e.created_at),
    {
        let rel = relative_time_at(now, e.created_at);
        FfiRelayEvent {
            id: e.id,
            pubkey: e.pubkey,
            kind: e.kind,
            content: e.content,
            created_at: e.created_at,
            display_name: e.display_name,
            kind_name: e.kind_name,
            relative_time: rel,
        }
    }

    /// The record for `e` with its relative timestamp against the machine's
    /// clock.
    pub fn from_relay_event(e: RelayEvent) -> (r: FfiRelayEvent)
        ensures
            carries(r, e),
            exists|now: i64| r.relative_time@ == #[trigger] age_seen_at(now, e.created_at),
    {
        let rel = relative_time(e.created_at);
        FfiRelayEvent {
            id: e.id,
            pubkey: e.pubkey,
            kind: e.kind,
            content: e.content,
            created_at: e.created_at,
            display_name: e.display_name,
            kind_name: e.kind_name,
            relative_time: rel,
        }
    }
}

} // verus!
