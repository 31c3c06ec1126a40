//! The event records the viewer works with.

use vstd::prelude::*;
use crate::kinds::{kind_label, kind_name};
use crate::npub::{decoded_key, head_cut_ok, npub_prefix, short_author, truncated_npub};

verus! {

/// A Nostr relay event with resolved display metadata.
#[derive(Debug, Clone)]
pub struct RelayEvent {
    pub id: String,
    pub pubkey: String,
    pub kind: u32,
    pub content: String,
    pub created_at: i64,
    /// Resolved profile name or truncated npub.
    pub display_name: String,
    /// Human-readable kind name (e.g. "Text Note", "Reaction").
    pub kind_name: String,
}

/// The contents of a `RelayEvent`, each text taken as its characters.
pub struct RelayEventView {
    pub id: Seq<char>,
    pub pubkey: Seq<char>,
    pub kind: u32,
    pub content: Seq<char>,
    pub created_at: i64,
    pub display_name: Seq<char>,
    pub kind_name: Seq<char>,
}

impl View for RelayEvent {
    type V = RelayEventView;

    open spec fn view(&self) -> RelayEventView {
        RelayEventView {
            id: self.id@,
            pubkey: self.pubkey@,
            kind: self.kind,
            content: self.content@,
            created_at: self.created_at,
            display_name: self.display_name@,
            kind_name: self.kind_name@,
        }
    }
}

/// A signed Nostr event as received from a relay, reduced to what the viewer
/// reads of it: its id and author key in lowercase hex, its kind, its
/// content and its creation time in Unix seconds.
#[derive(Debug, Clone)]
pub struct NostrEvent {
    pub id: String,
    pub pubkey: String,
    pub kind: u16,
    pub content: String,
    pub created_at: u64,
}

/// The contents of a `NostrEvent`, each text taken as its characters.
pub struct NostrEventView {
    pub id: Seq<char>,
    pub pubkey: Seq<char>,
    pub kind: u16,
    pub content: Seq<char>,
    pub created_at: u64,
}

impl View for NostrEvent {
    type V = NostrEventView;

    open spec fn view(&self) -> NostrEventView {
        NostrEventView {
            id: self.id@,
            pubkey: self.pubkey@,
            kind: self.kind,
            content: self.content@,
            created_at: self.created_at,
        }
    }
}

/// The record shown for `event` under the display name `display`: the kind
/// widened to `u32` and named, the creation time reinterpreted as `i64` as a
/// cast does.
pub open spec fn relay_view_of(event: NostrEventView, display: Seq<char>) -> RelayEventView {
    RelayEventView {
        id: event.id,
        pubkey: event.pubkey,
        kind: event.kind as u32,
        content: event.content,
        created_at: event.created_at as i64,
        display_name: display,
        kind_name: kind_label(event.kind as u32),
    }
}

/// The record shown for `event` under the display name `display_name`.
pub fn event_to_relay_event(event: &NostrEvent, display_name: &str) -> (r: RelayEvent)
    ensures
        r@ == relay_view_of(event@, display_name@),
{
    let kind_num = event.kind as u32;
    RelayEvent {
        id: event.id.clone(),
        pubkey: event.pubkey.clone(),
        kind: kind_num,
        content: event.content.clone(),
        created_at: event.created_at as i64,
        display_name: String::from_str(display_name),
        kind_name: kind_name(kind_num),
    }
}

/// The display name kept in storage for an event, or, where none was kept
/// (the empty text), the short form of its author key.
pub open spec fn stored_display(pubkey: Seq<char>, display_name: Seq<char>) -> Seq<char> {
    if display_name.len() == 0 {
        short_author(pubkey)
    } else {
        display_name
    }
}

/// The record for an event read back from storage: the stored display name,
/// or the truncated npub of the author where the stored one is empty; the
/// kind name derived from the kind.
pub fn relay_event_from_row(
    id: String,
    pubkey: String,
    kind: u32,
    content: String,
    created_at: i64,
    display_name: String,
) -> (r: RelayEvent)
    requires
        display_name@.len() == 0 ==> head_cut_ok(pubkey@),
    ensures
        r@ == (RelayEventView {
            id: id@,
            pubkey: pubkey@,
            kind,
            content: content@,
            created_at,
            display_name: stored_display(pubkey@, display_name@),
            kind_name: kind_label(kind),
        }),
        display_name@.len() > 0 ==> r.display_name@ == display_name@,
        display_name@.len() == 0 ==> r.display_name@ == short_author(pubkey@),
        display_name@.len() == 0 && decoded_key(pubkey@) is Some ==> r.display_name@.len() == 17
            && r.display_name@.take(5) == npub_prefix(),
{
    let display = if display_name.as_str().is_empty() {
        truncated_npub(pubkey.as_str())
    } else {
        display_name
    };
    RelayEvent {
        id,
        pubkey,
        kind,
        content,
        created_at,
        display_name: display,
        kind_name: kind_name(kind),
    }
}

/// A stored display name that is not empty is shown exactly as stored; an
/// empty one is replaced by the short form of the author key.
pub proof fn lemma_stored_display_kept(pubkey: Seq<char>, display_name: Seq<char>)
    ensures
        display_name.len() > 0 ==> stored_display(pubkey, display_name) == display_name,
        display_name.len() == 0 ==> stored_display(pubkey, display_name) == short_author(pubkey),
{
}

} // verus!
