//! Display logic for a Nostr relay event viewer: event-kind names, relative
//! timestamps, shortened author keys, display-name resolution and the records
//! handed to native front ends.

pub mod text;
pub mod kinds;
pub mod time;
pub mod npub;
pub mod models;
pub mod names;
pub mod error;
pub mod ffi;
