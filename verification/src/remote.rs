//! What is known of each peer's health: the record kept for a peer, how one
//! poll turns into such a record, and the store that holds the records.

use crate::config_manager::{clone_text, text_view, PeerView, RemotePylonConfig};
use crate::json::{json_doc, json_parse, parse_value};
use crate::registry::PeerKey;
use serde_json::Value;
use vstd::prelude::*;

verus! {

/// A point in time: whole seconds since the start of 1970 in UTC, and the
/// nanoseconds past that second.
#[derive(Clone, Copy, Debug, PartialEq, Eq, Structural)]
pub struct Timestamp {
    pub secs: i64,
    pub nanos: u32,
}

/// The health record of one peer.
///
/// `name` is the peer's name as the poll set had it when the peer was last
/// polled; `last_seen` is the time of the last poll that reached it; `data`
/// is the document it answered with, held only while it is `online`.
#[derive(Debug)]
pub struct RemoteStatus {
    pub ip: String,
    pub port: u16,
    pub last_seen: Option<Timestamp>,
    pub data: Option<Value>,
    pub online: bool,
    pub name: Option<String>,
}

/// A health record, with its strings as sequences of characters.
pub struct StatusView {
    pub ip: Seq<char>,
    pub port: u16,
    pub last_seen: Option<Timestamp>,
    pub data: Option<Value>,
    pub online: bool,
    pub name: Option<Seq<char>>,
}

impl View for RemoteStatus {
    type V = StatusView;

    open spec fn view(&self) -> StatusView {
        StatusView {
            ip: self.ip@,
            port: self.port,
            last_seen: self.last_seen,
            data: self.data,
            online: self.online,
            name: text_view(self.name),
        }
    }
}

impl Clone for RemoteStatus {
    fn clone(&self) -> (r: Self)
        ensures
            r == *self,
    {
        RemoteStatus {
            ip: self.ip.clone(),
            port: self.port,
            last_seen: self.last_seen,
            data: match &self.data {
                Some(v) => Some(v.clone()),
                None => None,
            },
            online: self.online,
            name: clone_text(&self.name),
        }
    }
}

/// What came back from one request to a peer.
pub enum PollReply {
    /// No answer: the connection failed, the request timed out, or the
    /// answer could not be read to its end.
    Failed,
    /// An answer, with its HTTP status and the bytes of its body.
    Answered { status: u16, body: Vec<u8> },
}

/// The outcome of polling one peer.
pub enum PollOutcome {
    /// The peer answered in time, with a success status and a body that
    /// parses as JSON.
    Reached { body: Value },
    /// Anything else.
    Unreachable,
}

/// A success status: 200 to 299.
pub open spec fn is_success(status: u16) -> bool {
    200 <= status < 300
}

/// The outcome of an answer with the given status, whose body parsed to
/// `document`, or did not parse: the peer was reached iff the status is a
/// success and there is a document, and the outcome then carries it.
pub fn outcome_of(status: u16, document: Option<Value>) -> (r: PollOutcome)
    ensures
        r == (match document {
            Some(body) => if is_success(status) {
                PollOutcome::Reached { body }
            } else {
                PollOutcome::Unreachable
            },
            None => PollOutcome::Unreachable,
        }),
{
    match document {
        Some(body) => {
            if 200 <= status && status < 300 {
                PollOutcome::Reached { body }
            } else {
                PollOutcome::Unreachable
            }
        },
        None => PollOutcome::Unreachable,
    }
}

/// Classifies a reply. The peer was reached iff it answered with a success
/// status and a body that `serde_json` parses; the outcome then carries the
/// parsed document.
pub fn classify(reply: PollReply) -> (r: PollOutcome)
    ensures
        match reply {
            PollReply::Answered { status, body } => if is_success(status) {
                match json_parse(body@) {
                    Some(doc) => r matches PollOutcome::Reached { body: v } && json_doc(v) == doc,
                    None => r is Unreachable,
                }
            } else {
                r is Unreachable
            },
            PollReply::Failed => r is Unreachable,
        },
{
    match reply {
        PollReply::Answered { status, body } => {
            let document = match parse_value(body.as_slice()) {
                Ok(v) => Some(v),
                Err(_) => None,
            };
            outcome_of(status, document)
        },
        PollReply::Failed => PollOutcome::Unreachable,
    }
}

/// The record that a poll leaves for a peer.
///
/// A peer that was reached is online, seen now, and has its answer as
/// data. A peer that was not is offline and has no data; the time it was
/// last seen stays what the previous record says, and stays unset where
/// there is no previous record or it was never seen.
pub open spec fn status_for(
    peer: PeerView,
    outcome: PollOutcome,
    previous: Option<StatusView>,
    now: Timestamp,
) -> StatusView {
    match outcome {
        PollOutcome::Reached { body } => StatusView {
            ip: peer.ip,
            port: peer.port,
            last_seen: Some(now),
            data: Some(body),
            online: true,
            name: peer.name,
        },
        PollOutcome::Unreachable => StatusView {
            ip: peer.ip,
            port: peer.port,
            last_seen: match previous {
                Some(p) => p.last_seen,
                None => None,
            },
            data: None,
            online: false,
            name: peer.name,
        },
    }
}

/// A record by its view, where there is one.
pub open spec fn status_view_of(status: Option<&RemoteStatus>) -> Option<StatusView> {
    match status {
        Some(s) => Some(s@),
        None => None,
    }
}

/// Builds the record that a poll leaves for a peer; see [`status_for`].
pub fn status_after(
    peer: &RemotePylonConfig,
    outcome: PollOutcome,
    previous: Option<&RemoteStatus>,
    now: Timestamp,
) -> (r: RemoteStatus)
    ensures
        r@ == status_for(peer@, outcome, status_view_of(previous), now),
{
    match outcome {
        PollOutcome::Reached { body } => RemoteStatus {
            ip: peer.ip.clone(),
            port: peer.port,
            last_seen: Some(now),
            data: Some(body),
            online: true,
            name: clone_text(&peer.name),
        },
        PollOutcome::Unreachable => RemoteStatus {
            ip: peer.ip.clone(),
            port: peer.port,
            last_seen: match previous {
                Some(p) => p.last_seen,
                None => None,
            },
            data: None,
            online: false,
            name: clone_text(&peer.name),
        },
    }
}

/// Some record of `s` is kept under the key `k`.
pub open spec fn holds(s: Seq<((Seq<char>, u16), StatusView)>, k: (Seq<char>, u16)) -> bool {
    exists|i: int| 0 <= i < s.len() && (#[trigger] s[i]).0 == k
}

/// A place in `s` where a record is kept under the key `k`.
pub open spec fn place(s: Seq<((Seq<char>, u16), StatusView)>, k: (Seq<char>, u16)) -> int {
    choose|i: int| 0 <= i < s.len() && (#[trigger] s[i]).0 == k
}

/// The record kept under the key `k`.
pub open spec fn status_of(s: Seq<((Seq<char>, u16), StatusView)>, k: (Seq<char>, u16)) -> Option<
    StatusView,
> {
    if holds(s, k) {
        Some(s[place(s, k)].1)
    } else {
        None
    }
}

/// No two records of `s` are kept under the same key.
pub open spec fn one_record_per_key(s: Seq<((Seq<char>, u16), StatusView)>) -> bool {
    forall|i: int, j: int| 0 <= i < j < s.len() ==> (#[trigger] s[i]).0 != (#[trigger] s[j]).0
}

/// `s` with `status` as the record under `k`: in the place of the record
/// that was there, or behind all others where there was none.
pub open spec fn upserted(
    s: Seq<((Seq<char>, u16), StatusView)>,
    k: (Seq<char>, u16),
    status: StatusView,
) -> Seq<((Seq<char>, u16), StatusView)> {
    if holds(s, k) {
        s.update(place(s, k), (k, status))
    } else {
        s.push((k, status))
    }
}

/// The records of `s` without their keys.
pub open spec fn records(s: Seq<((Seq<char>, u16), StatusView)>) -> Seq<StatusView> {
    s.map_values(|e: ((Seq<char>, u16), StatusView)| e.1)
}

/// A list of records, each by its view.
pub open spec fn status_views(s: Seq<RemoteStatus>) -> Seq<StatusView> {
    s.map_values(|r: RemoteStatus| r@)
}

struct StoreEntry {
    key: PeerKey,
    status: RemoteStatus,
}

spec fn entry_views(s: Seq<StoreEntry>) -> Seq<((Seq<char>, u16), StatusView)> {
    s.map_values(|e: StoreEntry| (e.key@, e.status@))
}

/// The status store: one record for each peer ever polled, in the order in
/// which the peers were first polled. Records are replaced, never removed.
pub struct StatusStore {
    entries: Vec<StoreEntry>,
}

impl View for StatusStore {
    type V = Seq<((Seq<char>, u16), StatusView)>;

    closed spec fn view(&self) -> Seq<((Seq<char>, u16), StatusView)> {
        entry_views(self.entries@)
    }
}

impl StatusStore {
    #[verifier::type_invariant]
    spec fn keyed_once(self) -> bool {
        one_record_per_key(entry_views(self.entries@))
    }

    /// A store without records.
    pub fn new() -> (r: StatusStore)
        ensures
            r@.len() == 0,
    {
        StatusStore { entries: Vec::new() }
    }

    /// The number of records.
    pub fn len(&self) -> (r: usize)
        ensures
            r == self@.len(),
            one_record_per_key(self@),
    {
        proof {
            use_type_invariant(self);
        }
        self.entries.len()
    }

    fn find(&self, key: &PeerKey) -> (r: Option<usize>)
        ensures
            one_record_per_key(self@),
            match r {
                Some(i) => holds(self@, key@) && i == place(self@, key@) && i < self.entries@.len(),
                None => !holds(self@, key@),
            },
    {
        proof {
            use_type_invariant(self);
        }
        let mut i: usize = 0;
        while i < self.entries.len()
            invariant
                i <= self.entries.len(),
                self.entries@.len() == self@.len(),
                one_record_per_key(self@),
                forall|j: int| 0 <= j < i ==> (#[trigger] self@[j]).0 != key@,
            decreases self.entries.len() - i,
        {
            if self.entries[i].key.same(key) {
                assert(self@[i as int].0 == key@);
                let ghost at = place(self@, key@);
                assert(self@[at].0 == key@);
                assert(at == i) by {
                    if at < i {
                        assert(self@[at].0 != self@[i as int].0);
                    } else if i < at {
                        assert(self@[i as int].0 != self@[at].0);
                    }
                }
                return Some(i);
            }
            i += 1;
        }
        None
    }

    /// The record kept under `key`.
    pub fn get(&self, key: &PeerKey) -> (r: Option<&RemoteStatus>)
        ensures
            status_view_of(r) == status_of(self@, key@),
    {
        match self.find(key) {
            Some(i) => Some(&self.entries[i].status),
            None => None,
        }
    }

    /// Puts `status` under `key`. A record that was there is replaced as a
    /// whole; otherwise the new record comes behind all others.
    pub fn upsert(&mut self, key: PeerKey, status: RemoteStatus)
        ensures
            final(self)@ == upserted(old(self)@, key@, status@),
            one_record_per_key(final(self)@),
    {
        let found = self.find(&key);
        proof {
            law_upsert_keeps_one_per_key(self@, key@, status@);
        }
        let ghost before = self.entries@;
        let mut entries: Vec<StoreEntry> = Vec::new();
        std::mem::swap(&mut self.entries, &mut entries);
        match found {
            Some(i) => {
                entries.set(i, StoreEntry { key, status });
                assert(entry_views(entries@) =~= entry_views(before).update(
                    i as int,
                    (key@, status@),
                ));
            },
            None => {
                entries.push(StoreEntry { key, status });
                assert(entry_views(entries@) =~= entry_views(before).push((key@, status@)));
            },
        }
        std::mem::swap(&mut self.entries, &mut entries);
    }

    /// A copy of all records as they are now, in the order in which their
    /// peers were first recorded.
    pub fn snapshot(&self) -> (r: Vec<RemoteStatus>)
        ensures
            status_views(r@) == records(self@),
            one_record_per_key(self@),
    {
        proof {
            use_type_invariant(self);
        }
        let mut out: Vec<RemoteStatus> = Vec::new();
        let mut i: usize = 0;
        assert(status_views(out@) =~= records(self@).take(0));
        while i < self.entries.len()
            invariant
                i <= self.entries.len(),
                self.entries@.len() == self@.len(),
                status_views(out@) == records(self@).take(i as int),
            decreases self.entries.len() - i,
        {
            let ghost shorter = out@;
            let copy = self.entries[i].status.clone();
            out.push(copy);
            assert(status_views(out@) =~= status_views(shorter).push(copy@));
            assert(records(self@).take(i + 1) =~= records(self@).take(i as int).push(
                self.entries@[i as int].status@,
            ));
            i += 1;
        }
        assert(records(self@).take(self.entries.len() as int) =~= records(self@));
        out
    }
}

/// After `upsert`, the key holds the new record and every other key holds
/// what it held before.
pub proof fn law_upsert_reads_back(
    s: Seq<((Seq<char>, u16), StatusView)>,
    k: (Seq<char>, u16),
    status: StatusView,
    other: (Seq<char>, u16),
)
    requires
        one_record_per_key(s),
    ensures
        status_of(upserted(s, k, status), k) == Some(status),
        other != k ==> status_of(upserted(s, k, status), other) == status_of(s, other),
{
    let after = upserted(s, k, status);
    law_upsert_keeps_one_per_key(s, k, status);
    if holds(s, k) {
        let at = place(s, k);
        assert(after[at].0 == k);
        assert(after[place(after, k)].0 == k);
        if other != k {
            if holds(s, other) {
                let o = place(s, other);
                assert(after[o] == s[o]);
                let o2 = place(after, other);
                assert(s[o2] == after[o2]);
            }
            if holds(after, other) {
                let o2 = place(after, other);
                assert(s[o2].0 == other);
            }
        }
    } else {
        assert(after[s.len() as int].0 == k);
        let at = place(after, k);
        if at < s.len() {
            assert(s[at].0 == k);
        }
        if other != k {
            if holds(s, other) {
                let o = place(s, other);
                assert(after[o] == s[o]);
                let o2 = place(after, other);
                assert(s[o2] == after[o2]);
            }
            if holds(after, other) {
                let o2 = place(after, other);
                assert(s[o2].0 == other);
            }
        }
    }
}

/// `upsert` keeps one record for each key, and removes none: every key that
/// held a record holds one afterwards.
pub proof fn law_upsert_keeps_one_per_key(
    s: Seq<((Seq<char>, u16), StatusView)>,
    k: (Seq<char>, u16),
    status: StatusView,
)
    requires
        one_record_per_key(s),
    ensures
        one_record_per_key(upserted(s, k, status)),
        holds(upserted(s, k, status), k),
        forall|other: (Seq<char>, u16)| holds(s, other) ==> holds(upserted(s, k, status), other),
        s.len() <= upserted(s, k, status).len() <= s.len() + 1,
{
    let after = upserted(s, k, status);
    if holds(s, k) {
        let at = place(s, k);
        assert(after[at].0 == k);
        assert forall|i: int, j: int| 0 <= i < j < after.len() implies (#[trigger] after[i]).0 != (
        #[trigger] after[j]).0 by {
            assert(s[i].0 != s[j].0);
        }
        assert forall|other: (Seq<char>, u16)| holds(s, other) implies holds(after, other) by {
            let o = place(s, other);
            assert(after[o].0 == other);
        }
    } else {
        assert(after[s.len() as int].0 == k);
        assert forall|i: int, j: int| 0 <= i < j < after.len() implies (#[trigger] after[i]).0 != (
        #[trigger] after[j]).0 by {
            if j < s.len() {
                assert(s[i].0 != s[j].0);
            } else {
                assert(s[i].0 != k);
            }
        }
        assert forall|other: (Seq<char>, u16)| holds(s, other) implies holds(after, other) by {
            let o = place(s, other);
            assert(after[o].0 == other);
        }
    }
}

} // verus!
