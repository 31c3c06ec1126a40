//! Display names for event authors: the newest profile metadata of each
//! author, else the short form of the author's key.

use vstd::prelude::*;
use nostr_sdk::{JsonUtil, Metadata};
use crate::models::{event_to_relay_event, relay_view_of, NostrEvent, RelayEvent};
use crate::npub::{decoded_key, head_cut_ok, npub_prefix, short_author, truncated_npub};

verus! {

/// A table from author keys (hex) to display names, each key at most once.
pub struct DisplayNames {
    entries: Vec<(String, String)>,
    names: Ghost<Map<Seq<char>, Seq<char>>>,
}

impl View for DisplayNames {
    type V = Map<Seq<char>, Seq<char>>;

    closed spec fn view(&self) -> Map<Seq<char>, Seq<char>> {
        self.names@
    }
}

impl DisplayNames {
    /// The entries hold each key once and spell exactly the table's map.
    pub closed spec fn wf(&self) -> bool {
        &&& forall|i: int, j: int|
            0 <= i < j < self.entries@.len() ==> #[trigger] self.entries@[i].0@
                != #[trigger] self.entries@[j].0@
        &&& forall|i: int|
            0 <= i < self.entries@.len() ==> self.names@.contains_key(
                #[trigger] self.entries@[i].0@,
            ) && self.names@[self.entries@[i].0@] == self.entries@[i].1@
        &&& forall|k: Seq<char>|
            #[trigger] self.names@.contains_key(k) ==> exists|i: int|
                0 <= i < self.entries@.len() && #[trigger] self.entries@[i].0@ == k
    }

    /// An empty table.
    pub fn new() -> (r: Self)
        ensures
            r.wf(),
            r@ == Map::<Seq<char>, Seq<char>>::empty(),
    {
        DisplayNames { entries: Vec::new(), names: Ghost(Map::empty()) }
    }

    /// Where `key` stands among the entries, if it does.
    fn position(&self, key: &String) -> (r: Option<usize>)
        requires
            self.wf(),
        ensures
            match r {
                Some(i) => i < self.entries@.len() && self.entries@[i as int].0@ == key@,
                None => !self@.contains_key(key@),
            },
    {
        let mut i: usize = 0;
        while i < self.entries.len()
            invariant
                self.wf(),
                i <= self.entries@.len(),
                forall|k: int| 0 <= k < i ==> #[trigger] self.entries@[k].0@ != key@,
            decreases self.entries@.len() - i,
        {
            if self.entries[i].0 == *key {
                return Some(i);
            }
            i = i + 1;
        }
        None
    }

    /// The display name kept for `key`, if any.
    pub fn get(&self, key: &String) -> (r: Option<&String>)
        requires
            self.wf(),
        ensures
            match r {
                Some(v) => self@.contains_key(key@) && v@ == self@[key@],
                None => !self@.contains_key(key@),
            },
    {
        match self.position(key) {
            Some(i) => Some(&self.entries[i].1),
            None => None,
        }
    }

    /// Keep `value` as the display name of `key`, replacing any earlier one.
    pub fn insert(&mut self, key: String, value: String)
        requires
            old(self).wf(),
        ensures
            final(self).wf(),
            final(self)@ == old(self)@.insert(key@, value@),
    {
        let ghost k = key@;
        let ghost v = value@;
        let ghost idx: int;
        match self.position(&key) {
            Some(i) => {
                self.entries.set(i, (key, value));
                proof {
                    idx = i as int;
                }
            },
            None => {
                self.entries.push((key, value));
                proof {
                    idx = self.entries@.len() - 1;
                }
            },
        }
        self.names = Ghost(self.names@.insert(k, v));
        proof {
            assert(self.entries@[idx].0@ == k);
            assert forall|j: Seq<char>| #[trigger] self.names@.contains_key(j) implies exists|i: int|
                0 <= i < self.entries@.len() && #[trigger] self.entries@[i].0@ == j by {
                if j != k {
                    let i = choose|i: int|
                        0 <= i < old(self).entries@.len() && #[trigger] old(self).entries@[i].0@ == j;
                    assert(self.entries@[i].0@ == j);
                } else {
                    assert(self.entries@[idx].0@ == j);
                }
            }
        }
    }

    /// Keep `value` as the display name of `key` unless `key` has one already.
    pub fn insert_if_absent(&mut self, key: String, value: String)
        requires
            old(self).wf(),
        ensures
            final(self).wf(),
            final(self)@ == if old(self)@.contains_key(key@) {
                old(self)@
            } else {
                old(self)@.insert(key@, value@)
            },
    {
        if self.position(&key).is_none() {
            self.insert(key, value);
        }
    }
}


/// Whether `events[j]` is the newest among the first `n` events by its
/// author: no event among them by the same author is later, and every
/// earlier one by that author is strictly older (of equally new events the
/// first counts).
pub open spec fn newest_within(events: Seq<NostrEvent>, n: int, j: int) -> bool {
    &&& 0 <= j < n <= events.len()
    &&& forall|k: int|
        0 <= k < n && #[trigger] events[k].pubkey@ == events[j].pubkey@ ==> events[k].created_at
            <= events[j].created_at
    &&& forall|k: int|
        0 <= k < j && #[trigger] events[k].pubkey@ == events[j].pubkey@ ==> events[k].created_at
            < events[j].created_at
}

/// Whether `events[j]` is the newest event by its author.
pub open spec fn is_newest(events: Seq<NostrEvent>, j: int) -> bool {
    newest_within(events, events.len() as int, j)
}

/// Whether `p` wrote one of `events`.
pub open spec fn wrote_one(events: Seq<NostrEvent>, p: Seq<char>) -> bool {
    exists|k: int| 0 <= k < events.len() && #[trigger] events[k].pubkey@ == p
}

/// Whether `best` holds, for each author of the first `n` events, exactly
/// one index: that of the author's newest event among them.
pub open spec fn newest_table(events: Seq<NostrEvent>, n: int, best: Seq<usize>) -> bool {
    &&& forall|q: int| 0 <= q < best.len() ==> newest_within(events, n, #[trigger] best[q] as int)
    &&& forall|q: int, r: int|
        0 <= q < r < best.len() ==> events[#[trigger] best[q] as int].pubkey@
            != events[#[trigger] best[r] as int].pubkey@
    &&& forall|k: int|
        0 <= k < n ==> exists|q: int|
            0 <= q < best.len() && events[#[trigger] best[q] as int].pubkey@
                == #[trigger] events[k].pubkey@
}

/// Where the author of `events[i]` stands in `best`, if there.
fn find_author(events: &Vec<NostrEvent>, best: &Vec<usize>, i: usize) -> (r: Option<usize>)
    requires
        i < events@.len(),
        forall|x: int| 0 <= x < best@.len() ==> #[trigger] best@[x] < events@.len(),
    ensures
        match r {
            Some(f) => f < best@.len() && events@[best@[f as int] as int].pubkey@
                == events@[i as int].pubkey@,
            None => forall|x: int|
                0 <= x < best@.len() ==> events@[#[trigger] best@[x] as int].pubkey@
                    != events@[i as int].pubkey@,
        },
{
    let mut q: usize = 0;
    while q < best.len()
        invariant
            i < events@.len(),
            q <= best@.len(),
            forall|x: int| 0 <= x < best@.len() ==> #[trigger] best@[x] < events@.len(),
            forall|x: int|
                0 <= x < q ==> events@[#[trigger] best@[x] as int].pubkey@
                    != events@[i as int].pubkey@,
        decreases best@.len() - q,
    {
        if events[best[q]].pubkey == events[i].pubkey {
            return Some(q);
        }
        q = q + 1;
    }
    None
}

/// Taking in `events[n]`: where its author is new, its index is added;
/// where its author's entry is older, the entry moves to `n`; otherwise
/// the table stays.
proof fn lemma_newest_table_step(
    events: Seq<NostrEvent>,
    n: usize,
    old_best: Seq<usize>,
    best: Seq<usize>,
    found: Option<usize>,
)
    requires
        0 <= n < events.len(),
        newest_table(events, n as int, old_best),
        match found {
            Some(f) => {
                &&& f < old_best.len()
                &&& events[old_best[f as int] as int].pubkey@ == events[n as int].pubkey@
                &&& best == if events[n as int].created_at > events[old_best[f as int] as int].created_at {
                    old_best.update(f as int, n)
                } else {
                    old_best
                }
            },
            None => {
                &&& forall|x: int|
                    0 <= x < old_best.len() ==> events[#[trigger] old_best[x] as int].pubkey@
                        != events[n as int].pubkey@
                &&& best == old_best.push(n)
            },
        },
    ensures
        newest_table(events, n + 1, best),
{
    assert forall|q: int| 0 <= q < best.len() implies newest_within(
        events,
        n + 1,
        #[trigger] best[q] as int,
    ) by {
        if q < old_best.len() {
            assert(newest_within(events, n as int, old_best[q] as int));
        }
        if let Some(f) = found {
            assert(newest_within(events, n as int, old_best[f as int] as int));
        }
        if found is None && q == old_best.len() {
            assert forall|k: int|
                0 <= k < n && #[trigger] events[k].pubkey@ == events[n as int].pubkey@ implies false by {
                let x = choose|x: int|
                    0 <= x < old_best.len() && events[#[trigger] old_best[x] as int].pubkey@
                        == events[k].pubkey@;
                assert(events[old_best[x] as int].pubkey@ != events[n as int].pubkey@);
            }
        }
    }
    assert forall|q: int| 0 <= q < old_best.len() implies events[#[trigger] best[q] as int].pubkey@
        == events[old_best[q] as int].pubkey@ by {}
    assert forall|q: int, r: int|
        0 <= q < r < best.len() implies events[#[trigger] best[q] as int].pubkey@
            != events[#[trigger] best[r] as int].pubkey@ by {
        assert(events[best[q] as int].pubkey@ == events[old_best[q] as int].pubkey@);
        if r < old_best.len() {
            assert(events[best[r] as int].pubkey@ == events[old_best[r] as int].pubkey@);
        }
    }
    assert forall|k: int| 0 <= k < n + 1 implies exists|q: int|
        0 <= q < best.len() && events[#[trigger] best[q] as int].pubkey@
            == #[trigger] events[k].pubkey@ by {
        if k < n {
            let x = choose|x: int|
                0 <= x < old_best.len() && events[#[trigger] old_best[x] as int].pubkey@
                    == events[k].pubkey@;
            assert(events[best[x] as int].pubkey@ == events[k].pubkey@);
        } else {
            match found {
                Some(f) => {
                    assert(events[best[f as int] as int].pubkey@ == events[k].pubkey@);
                },
                None => {
                    assert(events[best[old_best.len() as int] as int].pubkey@ == events[k].pubkey@);
                },
            }
        }
    }
}

/// The indices of the newest event of each author among `events`, one per
/// author.
fn newest_per_author(events: &Vec<NostrEvent>) -> (best: Vec<usize>)
    ensures
        newest_table(events@, events@.len() as int, best@),
{
    let mut best: Vec<usize> = Vec::new();
    let mut i: usize = 0;
    while i < events.len()
        invariant
            i <= events@.len(),
            newest_table(events@, i as int, best@),
        decreases events@.len() - i,
    {
        let ghost old_best = best@;
        proof {
            assert forall|x: int| 0 <= x < best@.len() implies #[trigger] best@[x] < events@.len() by {
                assert(newest_within(events@, i as int, best@[x] as int));
            }
        }
        let found = find_author(events, &best, i);
        match found {
            Some(f) => {
                if events[i].created_at > events[best[f]].created_at {
                    best.set(f, i);
                }
            },
            None => {
                best.push(i);
            },
        }
        proof {
            lemma_newest_table_step(events@, i, old_best, best@, found);
        }
        i = i + 1;
    }
    best
}

/// Two newest events by one author are the same event.
pub proof fn lemma_newest_is_unique(events: Seq<NostrEvent>, j1: int, j2: int)
    requires
        is_newest(events, j1),
        is_newest(events, j2),
        events[j1].pubkey@ == events[j2].pubkey@,
    ensures
        j1 == j2,
{
    if j1 < j2 {
        assert(events[j1].created_at < events[j2].created_at);
    } else if j2 < j1 {
        assert(events[j2].created_at < events[j1].created_at);
    }
}

/// The display name and name that the profile metadata `content` (kind 0
/// JSON) declares, or `None` where the content is no such metadata, as read
/// by the Nostr SDK.
pub uninterp spec fn profile_names(content: Seq<char>) -> Option<(Option<Seq<char>>, Option<Seq<char>>)>;

/// The characters of an optional text.
pub open spec fn opt_text(o: Option<String>) -> Option<Seq<char>> {
    match o {
        Some(s) => Some(s@),
        None => None,
    }
}

/// Trusted: wraps `Metadata::from_json` of the Nostr SDK (what
/// `Metadata::try_from(&Event)` calls on the event's content), keeping the
/// `display_name` and `name` fields; `None` where the JSON is refused. The
/// result depends on the content alone and is named `profile_names`.
#[verifier::external_body]
fn parse_profile_names(content: &str) -> (r: Option<(Option<String>, Option<String>)>)
    ensures
        profile_names(content@) == match r {
            Some((d, n)) => Some((opt_text(d), opt_text(n))),
            None => None,
        },
{
    match Metadata::from_json(content) {
        Ok(meta) => Some((meta.display_name, meta.name)),
        Err(_) => None,
    }
}

/// The name shown for author `hex` from its profile's display name and name:
/// the display name, else the name, else the truncated npub of `hex`.
pub fn profile_display_name(hex: &str, display_name: Option<String>, name: Option<String>) -> (r: String)
    requires
        display_name is None && name is None ==> head_cut_ok(hex@),
    ensures
        r@ == match (opt_text(display_name), opt_text(name)) {
            (Some(d), _) => d,
            (None, Some(n)) => n,
            (None, None) => short_author(hex@),
        },
{
    match display_name {
        Some(d) => d,
        None => match name {
            Some(n) => n,
            None => truncated_npub(hex),
        },
    }
}

/// The name that the profile metadata `content` of author `p` gives: its
/// display name, else its name, else the short form of `p`; `None` where
/// the content is no profile metadata.
pub open spec fn profile_display(p: Seq<char>, content: Seq<char>) -> Option<Seq<char>> {
    match profile_names(content) {
        Some((Some(d), _)) => Some(d),
        Some((None, Some(n))) => Some(n),
        Some((None, None)) => Some(short_author(p)),
        None => None,
    }
}

/// The name given by the newest metadata event of author `p`, if `p` wrote
/// one and it reads as profile metadata.
pub open spec fn newest_profile_name(events: Seq<NostrEvent>, p: Seq<char>) -> Option<Seq<char>> {
    if exists|j: int| is_newest(events, j) && #[trigger] events[j].pubkey@ == p {
        let j = choose|j: int| is_newest(events, j) && #[trigger] events[j].pubkey@ == p;
        profile_display(p, events[j].content@)
    } else {
        None
    }
}

/// Whether `p` is one of `keys`.
pub open spec fn lists(keys: Seq<String>, p: Seq<char>) -> bool {
    exists|i: int| 0 <= i < keys.len() && #[trigger] keys[i]@ == p
}

/// The display name resolved for author `p`: the one from the author's
/// newest profile metadata, else, for a requested author, the short form of
/// the author's key; no name for any other key.
pub open spec fn resolved_name(events: Seq<NostrEvent>, requested: Seq<String>, p: Seq<char>) -> Option<Seq<char>> {
    match newest_profile_name(events, p) {
        Some(n) => Some(n),
        None => if lists(requested, p) {
            Some(short_author(p))
        } else {
            None
        },
    }
}

/// The table of all resolved display names.
pub open spec fn resolved_names(events: Seq<NostrEvent>, requested: Seq<String>) -> Map<Seq<char>, Seq<char>> {
    Map::new(
        |p: Seq<char>| resolved_name(events, requested, p) is Some,
        |p: Seq<char>| resolved_name(events, requested, p)->0,
    )
}

/// Whether every key written in `keys` can be shortened without panicking.
pub open spec fn keys_cut_ok(keys: Seq<String>) -> bool {
    forall|i: int| 0 <= i < keys.len() ==> head_cut_ok(#[trigger] keys[i]@)
}

/// Whether every author key of `events` can be shortened without panicking.
pub open spec fn authors_cut_ok(events: Seq<NostrEvent>) -> bool {
    forall|k: int| 0 <= k < events.len() ==> head_cut_ok(#[trigger] events[k].pubkey@)
}

/// Resolve display names for the `requested` author keys (hex) from the
/// metadata events fetched for them: the newest metadata event of each
/// author names it by its display name, else its name, else the truncated
/// npub; every requested author without such metadata gets the truncated
/// npub.
pub fn resolve_display_names(requested: &Vec<String>, metadata_events: &Vec<NostrEvent>) -> (r: DisplayNames)
    requires
        keys_cut_ok(requested@),
        authors_cut_ok(metadata_events@),
    ensures
        r.wf(),
        r@ == resolved_names(metadata_events@, requested@),
{
    let ghost events = metadata_events@;
    let best = newest_per_author(metadata_events);
    let mut names = DisplayNames::new();
    let mut q: usize = 0;
    while q < best.len()
        invariant
            events == metadata_events@,
            authors_cut_ok(events),
            newest_table(events, events.len() as int, best@),
            q <= best@.len(),
            names.wf(),
            forall|p: Seq<char>| #[trigger] names@.contains_key(p) ==> exists|x: int|
                0 <= x < q && events[#[trigger] best@[x] as int].pubkey@ == p
                    && profile_names(events[best@[x] as int].content@) is Some,
            forall|x: int| 0 <= x < q && profile_names(events[#[trigger] best@[x] as int].content@) is Some
                ==> names@.contains_key(events[best@[x] as int].pubkey@)
                    && names@[events[best@[x] as int].pubkey@] == profile_display(
                        events[best@[x] as int].pubkey@,
                        events[best@[x] as int].content@,
                    )->0,
        decreases best@.len() - q,
    {
        let e = &metadata_events[best[q]];
        let ghost old_names = names@;
        proof {
            assert(newest_within(events, events.len() as int, best@[q as int] as int));
        }
        match parse_profile_names(e.content.as_str()) {
            Some((display, name)) => {
                let shown = profile_display_name(e.pubkey.as_str(), display, name);
                names.insert(e.pubkey.clone(), shown);
            },
            None => {},
        }
        proof {
            assert forall|x: int| 0 <= x < q + 1 && profile_names(events[#[trigger] best@[x] as int].content@) is Some
                implies names@.contains_key(events[best@[x] as int].pubkey@)
                    && names@[events[best@[x] as int].pubkey@] == profile_display(
                        events[best@[x] as int].pubkey@,
                        events[best@[x] as int].content@,
                    )->0 by {
                if x < q {
                    assert(events[best@[x] as int].pubkey@ != events[best@[q as int] as int].pubkey@);
                }
            }
            assert forall|p: Seq<char>| #[trigger] names@.contains_key(p) implies exists|x: int|
                0 <= x < q + 1 && events[#[trigger] best@[x] as int].pubkey@ == p
                    && profile_names(events[best@[x] as int].content@) is Some by {
                if old_names.contains_key(p) {
                    let x = choose|x: int|
                        0 <= x < q && events[#[trigger] best@[x] as int].pubkey@ == p
                            && profile_names(events[best@[x] as int].content@) is Some;
                    assert(events[best@[x] as int].pubkey@ == p);
                } else {
                    assert(events[best@[q as int] as int].pubkey@ == p);
                }
            }
        }
        q = q + 1;
    }
    proof {
        lemma_profile_table(events, best@, names@);
    }
    let mut i: usize = 0;
    while i < requested.len()
        invariant
            keys_cut_ok(requested@),
            i <= requested@.len(),
            names.wf(),
            names@ == resolved_names(events, requested@.take(i as int)),
            events == metadata_events@,
        decreases requested@.len() - i,
    {
        let key = &requested[i];
        let ghost old_names = names@;
        if names.get(key).is_none() {
            let short = truncated_npub(key.as_str());
            names.insert(key.clone(), short);
        }
        proof {
            let before = requested@.take(i as int);
            let after = requested@.take(i + 1);
            assert forall|p: Seq<char>| lists(after, p) <==> lists(before, p) || p == requested@[i as int]@ by {
                if lists(after, p) {
                    let k = choose|k: int| 0 <= k < after.len() && #[trigger] after[k]@ == p;
                    if k < i {
                        assert(before[k]@ == p);
                    }
                }
                if lists(before, p) {
                    let k = choose|k: int| 0 <= k < before.len() && #[trigger] before[k]@ == p;
                    assert(after[k]@ == p);
                }
                if p == requested@[i as int]@ {
                    assert(after[i as int]@ == p);
                }
            }
            assert(names@ =~= resolved_names(events, after));
        }
        i = i + 1;
    }
    proof {
        assert(requested@.take(requested@.len() as int) =~= requested@);
    }
    names
}

/// After the profile pass, the table holds exactly the names given by each
/// author's newest profile metadata.
proof fn lemma_profile_table(events: Seq<NostrEvent>, best: Seq<usize>, names: Map<Seq<char>, Seq<char>>)
    requires
        newest_table(events, events.len() as int, best),
        forall|p: Seq<char>| #[trigger] names.contains_key(p) ==> exists|x: int|
            0 <= x < best.len() && events[#[trigger] best[x] as int].pubkey@ == p
                && profile_names(events[best[x] as int].content@) is Some,
        forall|x: int| 0 <= x < best.len() && profile_names(events[#[trigger] best[x] as int].content@) is Some
            ==> names.contains_key(events[best[x] as int].pubkey@)
                && names[events[best[x] as int].pubkey@] == profile_display(
                    events[best[x] as int].pubkey@,
                    events[best[x] as int].content@,
                )->0,
    ensures
        names == resolved_names(events, Seq::<String>::empty()),
{
    assert forall|p: Seq<char>| #[trigger] names.contains_key(p) <==> newest_profile_name(events, p) is Some by {
        if names.contains_key(p) {
            let x = choose|x: int|
                0 <= x < best.len() && events[#[trigger] best[x] as int].pubkey@ == p
                    && profile_names(events[best[x] as int].content@) is Some;
            assert(newest_within(events, events.len() as int, best[x] as int));
            let j = choose|j: int| is_newest(events, j) && #[trigger] events[j].pubkey@ == p;
            lemma_newest_is_unique(events, j, best[x] as int);
        }
        if newest_profile_name(events, p) is Some {
            let j = choose|j: int| is_newest(events, j) && #[trigger] events[j].pubkey@ == p;
            let x = choose|x: int|
                0 <= x < best.len() && events[#[trigger] best[x] as int].pubkey@ == events[j].pubkey@;
            assert(newest_within(events, events.len() as int, best[x] as int));
            lemma_newest_is_unique(events, j, best[x] as int);
        }
    }
    assert forall|p: Seq<char>| #[trigger] names.contains_key(p) implies names[p] == newest_profile_name(events, p)->0 by {
        let x = choose|x: int|
            0 <= x < best.len() && events[#[trigger] best[x] as int].pubkey@ == p
                && profile_names(events[best[x] as int].content@) is Some;
        assert(newest_within(events, events.len() as int, best[x] as int));
        let j = choose|j: int| is_newest(events, j) && #[trigger] events[j].pubkey@ == p;
        lemma_newest_is_unique(events, j, best[x] as int);
    }
    assert(names =~= resolved_names(events, Seq::<String>::empty()));
}

/// The author keys of `events`, each once.
pub fn event_authors(events: &Vec<NostrEvent>) -> (r: Vec<String>)
    ensures
        forall|i: int, j: int| 0 <= i < j < r@.len() ==> #[trigger] r@[i]@ != #[trigger] r@[j]@,
        forall|i: int| 0 <= i < r@.len() ==> wrote_one(events@, #[trigger] r@[i]@),
        forall|k: int| 0 <= k < events@.len() ==> lists(r@, #[trigger] events@[k].pubkey@),
{
    let mut authors: Vec<String> = Vec::new();
    let mut k: usize = 0;
    while k < events.len()
        invariant
            k <= events@.len(),
            forall|i: int, j: int| 0 <= i < j < authors@.len() ==> #[trigger] authors@[i]@ != #[trigger] authors@[j]@,
            forall|i: int| 0 <= i < authors@.len() ==> wrote_one(events@, #[trigger] authors@[i]@),
            forall|x: int| 0 <= x < k ==> lists(authors@, #[trigger] events@[x].pubkey@),
        decreases events@.len() - k,
    {
        let key = &events[k].pubkey;
        let mut seen = false;
        let mut i: usize = 0;
        while i < authors.len()
            invariant
                i <= authors@.len(),
                seen ==> lists(authors@, key@),
                !seen ==> forall|x: int| 0 <= x < i ==> #[trigger] authors@[x]@ != key@,
            decreases authors@.len() - i,
        {
            if authors[i] == *key {
                seen = true;
            }
            i = i + 1;
        }
        let ghost before = authors@;
        if !seen {
            authors.push(key.clone());
            proof {
                assert(wrote_one(events@, events@[k as int].pubkey@));
                assert forall|x: int| 0 <= x <= k implies lists(authors@, #[trigger] events@[x].pubkey@) by {
                    if x < k {
                        let i = choose|i: int| 0 <= i < before.len() && #[trigger] before[i]@ == events@[x].pubkey@;
                        assert(authors@[i]@ == events@[x].pubkey@);
                    } else {
                        assert(authors@[before.len() as int]@ == events@[x].pubkey@);
                    }
                }
            }
        }
        k = k + 1;
    }
    authors
}

/// The name shown for author `p` with table `names`: the name kept there,
/// else the short form of `p`.
pub open spec fn shown_name(names: Map<Seq<char>, Seq<char>>, p: Seq<char>) -> Seq<char> {
    if names.contains_key(p) {
        names[p]
    } else {
        short_author(p)
    }
}

/// The records for `events`, in their order, each under the display name
/// that `names` holds for its author (the truncated npub where it holds
/// none).
pub fn relay_events_for(events: &Vec<NostrEvent>, names: &DisplayNames) -> (r: Vec<RelayEvent>)
    requires
        names.wf(),
        forall|k: int|
            0 <= k < events@.len() && !names@.contains_key(#[trigger] events@[k].pubkey@)
                ==> head_cut_ok(events@[k].pubkey@),
    ensures
        r@.len() == events@.len(),
        forall|k: int|
            0 <= k < events@.len() ==> #[trigger] r@[k]@ == relay_view_of(
                events@[k]@,
                shown_name(names@, events@[k].pubkey@),
            ),
        forall|k: int|
            0 <= k < events@.len() && names@.contains_key(events@[k].pubkey@) ==> (#[trigger] r@[k]).display_name@
                == names@[events@[k].pubkey@],
        forall|k: int|
            0 <= k < events@.len() && !names@.contains_key(events@[k].pubkey@) ==> (#[trigger] r@[k]).display_name@
                == short_author(events@[k].pubkey@),
        forall|k: int|
            0 <= k < events@.len() && !names@.contains_key(events@[k].pubkey@) && decoded_key(
                events@[k].pubkey@,
            ) is Some ==> (#[trigger] r@[k]).display_name@.len() == 17 && r@[k].display_name@.take(5)
                == npub_prefix(),
{
    let mut out: Vec<RelayEvent> = Vec::new();
    let mut k: usize = 0;
    while k < events.len()
        invariant
            names.wf(),
            forall|x: int|
                0 <= x < events@.len() && !names@.contains_key(#[trigger] events@[x].pubkey@)
                    ==> head_cut_ok(events@[x].pubkey@),
            k <= events@.len(),
            out@.len() == k,
            forall|x: int|
                0 <= x < k ==> #[trigger] out@[x]@ == relay_view_of(
                    events@[x]@,
                    shown_name(names@, events@[x].pubkey@),
                ),
            forall|x: int|
                0 <= x < k && !names@.contains_key(events@[x].pubkey@) && decoded_key(
                    events@[x].pubkey@,
                ) is Some ==> (#[trigger] out@[x]).display_name@.len() == 17 && out@[x].display_name@.take(5)
                    == npub_prefix(),
        decreases events@.len() - k,
    {
        let event = &events[k];
        let display = match names.get(&event.pubkey) {
            Some(name) => name.clone(),
            None => truncated_npub(event.pubkey.as_str()),
        };
        out.push(event_to_relay_event(event, display.as_str()));
        k = k + 1;
    }
    proof {
        assert forall|k: int| 0 <= k < events@.len() implies (#[trigger] out@[k]).display_name@
            == shown_name(names@, events@[k].pubkey@) by {
            assert(out@[k]@ == relay_view_of(events@[k]@, shown_name(names@, events@[k].pubkey@)));
        }
    }
    out
}

/// Every requested author gets a display name.
pub proof fn lemma_requested_authors_named(events: Seq<NostrEvent>, requested: Seq<String>, p: Seq<char>)
    requires
        lists(requested, p),
    ensures
        resolved_names(events, requested).contains_key(p),
{
}

/// When the authors of the fetched events are the ones requested (as
/// `event_authors` gives them), the author of every fetched event has a
/// resolved display name, so no record falls back to the short key.
pub proof fn lemma_fetched_authors_resolved(
    fetched: Seq<NostrEvent>,
    metadata: Seq<NostrEvent>,
    requested: Seq<String>,
)
    requires
        forall|k: int| 0 <= k < fetched.len() ==> lists(requested, #[trigger] fetched[k].pubkey@),
    ensures
        forall|k: int|
            0 <= k < fetched.len() ==> shown_name(resolved_names(metadata, requested), #[trigger] fetched[k].pubkey@)
                == resolved_name(metadata, requested, fetched[k].pubkey@)->0,
{
    assert forall|k: int| 0 <= k < fetched.len() implies shown_name(
        resolved_names(metadata, requested),
        #[trigger] fetched[k].pubkey@,
    ) == resolved_name(metadata, requested, fetched[k].pubkey@)->0 by {
        lemma_requested_authors_named(metadata, requested, fetched[k].pubkey@);
    }
}

/// An author without an entry in the table is shown under the short form of
/// its own key; an author with one, under that entry.
pub proof fn lemma_unlisted_author_shown_short(names: Map<Seq<char>, Seq<char>>, p: Seq<char>)
    ensures
        !names.contains_key(p) ==> shown_name(names, p) == short_author(p),
        names.contains_key(p) ==> shown_name(names, p) == names[p],
{
}

} // verus!
