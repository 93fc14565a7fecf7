//! The polling task as a state machine.
//!
//! The caller owns the timer, the clock and the network. It asks the poller
//! what to do next, does it, and hands back what happened:
//!
//! 1. [`Poller::begin_cycle`] with the configured peers as they are now;
//! 2. for each [`Action::Poll`], one request to that peer, [`classify`] on
//!    the reply, and [`Poller::record_outcome_at`] with the outcome and the
//!    time at which it was had;
//! 3. on [`Action::Wait`], a wait of [`POLL_INTERVAL_SECS`] that a shutdown
//!    signal cuts short, then step 1 again;
//! 4. on [`Action::Stop`], the end of the task.
//!
//! Each of these calls is told whether the shutdown signal has been seen.
//! The status store is handed to the poller for the length of one call
//! only: a caller that shares it takes its lock for that call and not for
//! the request before it.
//!
//! [`classify`]: crate::remote::classify

use crate::config_manager::{peer_views, PeerView, RemotePylonConfig};
use crate::discovery::{candidates, extract};
use crate::json::json_doc;
use crate::registry::{
    distinct_keys, law_poll_set_distinct, poll_set, record_all, PeerKey, RegistryState, RegistryView,
};
use crate::remote::{
    holds, law_upsert_keeps_one_per_key, law_upsert_reads_back, one_record_per_key, status_after,
    status_for, status_of, upserted, PollOutcome, StatusStore, StatusView, Timestamp,
};
use vstd::prelude::*;

verus! {

/// Seconds after which a request to a peer is given up.
pub const REQUEST_TIMEOUT_SECS: u64 = 5;

/// Seconds between the end of one cycle and the start of the next.
pub const POLL_INTERVAL_SECS: u64 = 10;

/// The two states of the polling task. `ShuttingDown` is final.
#[derive(Clone, Copy, Debug, PartialEq, Eq, Structural)]
pub enum SchedulerState {
    Polling,
    ShuttingDown,
}

/// What the caller is to do next.
#[derive(Debug)]
pub enum Action {
    /// Send one request to this peer, with its token as bearer credential,
    /// and report the outcome.
    Poll(RemotePylonConfig),
    /// The cycle is over: wait for the interval or the shutdown signal, then
    /// begin the next cycle.
    Wait,
    /// The task has ended.
    Stop,
}

/// An action, with its peer by its view.
pub enum ActionView {
    Poll(PeerView),
    Wait,
    Stop,
}

impl View for Action {
    type V = ActionView;

    open spec fn view(&self) -> ActionView {
        match self {
            Action::Poll(peer) => ActionView::Poll(peer@),
            Action::Wait => ActionView::Wait,
            Action::Stop => ActionView::Stop,
        }
    }
}

/// What a poller holds: its registry, its state, the peers of the cycle in
/// the order in which they are polled, and how many of them have been
/// polled.
pub struct PollerView {
    pub registry: RegistryView,
    pub state: SchedulerState,
    pub queue: Seq<PeerView>,
    pub next: nat,
}

/// A peer is being polled: the task runs, and the cycle has a peer left.
pub open spec fn in_flight(v: PollerView) -> bool {
    v.state is Polling && v.next < v.queue.len()
}

/// What is to be done in the state `v`.
pub open spec fn pending(v: PollerView) -> ActionView {
    if v.state is ShuttingDown {
        ActionView::Stop
    } else if v.next < v.queue.len() {
        ActionView::Poll(v.queue[v.next as int])
    } else {
        ActionView::Wait
    }
}

/// The poller after the start of a cycle was asked for.
///
/// Once the shutdown signal has been seen, no cycle starts. Otherwise the
/// configured peers are taken as given, and the cycle's peers are the poll
/// set of that moment.
pub open spec fn begun(v: PollerView, configured: Seq<PeerView>, shutdown: bool) -> PollerView {
    if v.state is ShuttingDown || shutdown {
        PollerView { state: SchedulerState::ShuttingDown, ..v }
    } else {
        PollerView {
            registry: RegistryView { configured, discovered: v.registry.discovered },
            state: SchedulerState::Polling,
            queue: poll_set(configured, v.registry.discovered),
            next: 0,
        }
    }
}

/// The poller after the outcome of a poll was reported.
///
/// The peers that a reached peer reports are offered to the registry; they
/// are polled from the next cycle on. The cycle moves on to its next peer,
/// unless the shutdown signal has been seen: then the task ends here.
pub open spec fn recorded(
    v: PollerView,
    outcome: PollOutcome,
    me: (Seq<char>, u16),
    shutdown: bool,
) -> PollerView {
    let state = if shutdown {
        SchedulerState::ShuttingDown
    } else {
        v.state
    };
    if in_flight(v) {
        PollerView {
            registry: match outcome {
                PollOutcome::Reached { body } => record_all(
                    v.registry,
                    candidates(json_doc(body), me),
                    me,
                ),
                PollOutcome::Unreachable => v.registry,
            },
            state,
            queue: v.queue,
            next: v.next + 1,
        }
    } else {
        PollerView { state, ..v }
    }
}

/// The status store after the outcome of a poll was reported: the record of
/// the peer that was being polled is replaced, and nothing else changes.
pub open spec fn stored(
    s: Seq<((Seq<char>, u16), StatusView)>,
    v: PollerView,
    outcome: PollOutcome,
    now: Timestamp,
) -> Seq<((Seq<char>, u16), StatusView)> {
    if in_flight(v) {
        let peer = v.queue[v.next as int];
        upserted(s, peer.key(), status_for(peer, outcome, status_of(s, peer.key()), now))
    } else {
        s
    }
}

/// The polling task: registry, state, and progress through the cycle.
pub struct Poller {
    registry: RegistryState,
    state: SchedulerState,
    queue: Vec<RemotePylonConfig>,
    next: usize,
}

impl View for Poller {
    type V = PollerView;

    closed spec fn view(&self) -> PollerView {
        PollerView {
            registry: self.registry@,
            state: self.state,
            queue: peer_views(self.queue@),
            next: self.next as nat,
        }
    }
}

impl Poller {
    /// A poller that has polled nothing and knows no peer.
    pub fn new() -> (r: Poller)
        ensures
            r@.state is Polling,
            r@.queue.len() == 0,
            r@.next == 0,
            r@.registry.configured.len() == 0,
            r@.registry.discovered.len() == 0,
    {
        Poller {
            registry: RegistryState::new(),
            state: SchedulerState::Polling,
            queue: Vec::new(),
            next: 0,
        }
    }

    /// The state of the task.
    pub fn state(&self) -> (r: SchedulerState)
        ensures
            r == self@.state,
    {
        self.state
    }

    /// The registry.
    pub fn registry(&self) -> (r: &RegistryState)
        ensures
            r@ == self@.registry,
    {
        &self.registry
    }

    /// What is to be done now.
    pub fn pending_action(&self) -> (r: Action)
        ensures
            r@ == pending(self@),
    {
        match self.state {
            SchedulerState::ShuttingDown => Action::Stop,
            SchedulerState::Polling => {
                if self.next < self.queue.len() {
                    Action::Poll(self.queue[self.next].clone())
                } else {
                    Action::Wait
                }
            },
        }
    }

    /// Starts a cycle, unless the shutdown signal has been seen; see
    /// [`begun`]. The result is the first thing to do.
    pub fn begin_cycle(&mut self, configured: Vec<RemotePylonConfig>, shutdown: bool) -> (r: Action)
        ensures
            final(self)@ == begun(old(self)@, peer_views(configured@), shutdown),
            r@ == pending(final(self)@),
    {
        if shutdown {
            self.state = SchedulerState::ShuttingDown;
        }
        match self.state {
            SchedulerState::ShuttingDown => {},
            SchedulerState::Polling => {
                self.queue = self.registry.snapshot_poll_set(configured);
                self.next = 0;
            },
        }
        self.pending_action()
    }

    /// Takes the outcome of the poll that was asked for, at the time `now`:
    /// puts the peer's new record into the store, offers the peers it
    /// reported to the registry, and moves on; see [`recorded`] and
    /// [`stored`]. Where no poll was asked for, only the shutdown signal is
    /// taken note of. The result is the next thing to do.
    pub fn record_outcome_at(
        &mut self,
        store: &mut StatusStore,
        outcome: PollOutcome,
        self_key: &PeerKey,
        now: Timestamp,
        shutdown: bool,
    ) -> (r: Action)
        ensures
            final(self)@ == recorded(old(self)@, outcome, self_key@, shutdown),
            final(store)@ == stored(old(store)@, old(self)@, outcome, now),
            r@ == pending(final(self)@),
    {
        let polling = match self.state {
            SchedulerState::Polling => true,
            SchedulerState::ShuttingDown => false,
        };
        if polling && self.next < self.queue.len() {
            let peer = &self.queue[self.next];
            let key = PeerKey::of(peer);
            let found = match &outcome {
                PollOutcome::Reached { body } => extract(body, self_key),
                PollOutcome::Unreachable => Vec::new(),
            };
            let status = status_after(peer, outcome, store.get(&key), now);
            store.upsert(key, status);
            self.registry.record_discoveries(found, self_key);
            self.next = self.next + 1;
        }
        if shutdown {
            self.state = SchedulerState::ShuttingDown;
        }
        self.pending_action()
    }
}

/// The time a key was last seen, as the store has it.
pub open spec fn last_seen_of(s: Seq<((Seq<char>, u16), StatusView)>, k: (Seq<char>, u16)) -> Option<
    Timestamp,
> {
    match status_of(s, k) {
        Some(status) => status.last_seen,
        None => None,
    }
}

/// Poller and store after a run of polls, none of which saw the shutdown
/// signal: the outcomes are reported one after the other, each at its time.
pub open spec fn after_polls(
    v: PollerView,
    s: Seq<((Seq<char>, u16), StatusView)>,
    outcomes: Seq<PollOutcome>,
    times: Seq<Timestamp>,
    me: (Seq<char>, u16),
) -> (PollerView, Seq<((Seq<char>, u16), StatusView)>)
    decreases outcomes.len(),
{
    if outcomes.len() == 0 {
        (v, s)
    } else {
        let before = after_polls(v, s, outcomes.drop_last(), times.drop_last(), me);
        (
            recorded(before.0, outcomes.last(), me, false),
            stored(before.1, before.0, outcomes.last(), times.last()),
        )
    }
}

/// `ShuttingDown` is final: whatever is reported to a task that is shutting
/// down, it stays as it is, and all it asks for is to stop.
pub proof fn law_shutdown_is_final(
    v: PollerView,
    configured: Seq<PeerView>,
    outcome: PollOutcome,
    me: (Seq<char>, u16),
    shutdown: bool,
    s: Seq<((Seq<char>, u16), StatusView)>,
    now: Timestamp,
)
    requires
        v.state is ShuttingDown,
    ensures
        pending(v) is Stop,
        begun(v, configured, shutdown) == v,
        recorded(v, outcome, me, shutdown) == v,
        stored(s, v, outcome, now) == s,
{
}

/// Once the shutdown signal is set, no cycle starts: the task shuts down,
/// the cycle's peers and the registry stay as they were, and no peer is
/// asked for.
pub proof fn law_no_cycle_after_shutdown(v: PollerView, configured: Seq<PeerView>)
    ensures
        begun(v, configured, true) == (PollerView { state: SchedulerState::ShuttingDown, ..v }),
        pending(begun(v, configured, true)) is Stop,
{
}

/// A shutdown signal that is seen while a peer is polled ends the cycle
/// there: the outcome of that poll is still recorded, and the peers behind
/// it in the cycle are not asked for.
pub proof fn law_shutdown_ends_cycle(
    v: PollerView,
    s: Seq<((Seq<char>, u16), StatusView)>,
    outcome: PollOutcome,
    me: (Seq<char>, u16),
    now: Timestamp,
)
    requires
        in_flight(v),
        one_record_per_key(s),
    ensures
        recorded(v, outcome, me, true).state is ShuttingDown,
        pending(recorded(v, outcome, me, true)) is Stop,
        status_of(stored(s, v, outcome, now), v.queue[v.next as int].key()) == Some(
            status_for(
                v.queue[v.next as int],
                outcome,
                status_of(s, v.queue[v.next as int].key()),
                now,
            ),
        ),
{
    let peer = v.queue[v.next as int];
    law_upsert_reads_back(
        s,
        peer.key(),
        status_for(peer, outcome, status_of(s, peer.key()), now),
        peer.key(),
    );
}

/// A peer that was not reached is recorded as offline and without data, and
/// the time it was last seen stays what it was: unset where it was never
/// seen.
pub proof fn law_unreachable_is_offline(
    v: PollerView,
    s: Seq<((Seq<char>, u16), StatusView)>,
    me: (Seq<char>, u16),
    now: Timestamp,
)
    requires
        in_flight(v),
        one_record_per_key(s),
    ensures
        ({
            let key = v.queue[v.next as int].key();
            let after = stored(s, v, PollOutcome::Unreachable, now);
            &&& status_of(after, key) matches Some(status)
            &&& !status.online
            &&& status.data is None
            &&& status.last_seen == last_seen_of(s, key)
        }),
        recorded(v, PollOutcome::Unreachable, me, false).registry == v.registry,
{
    let peer = v.queue[v.next as int];
    law_upsert_reads_back(
        s,
        peer.key(),
        status_for(peer, PollOutcome::Unreachable, status_of(s, peer.key()), now),
        peer.key(),
    );
}

/// A record, once it is in the store, stays there: a poll replaces the
/// record of the peer polled and removes none, whatever its outcome. Every
/// other record stays as it was.
pub proof fn law_records_persist(
    v: PollerView,
    s: Seq<((Seq<char>, u16), StatusView)>,
    outcome: PollOutcome,
    now: Timestamp,
    k: (Seq<char>, u16),
)
    requires
        one_record_per_key(s),
    ensures
        one_record_per_key(stored(s, v, outcome, now)),
        holds(s, k) ==> holds(stored(s, v, outcome, now), k),
        in_flight(v) ==> holds(stored(s, v, outcome, now), v.queue[v.next as int].key()),
        !(in_flight(v) && k == v.queue[v.next as int].key()) ==> status_of(
            stored(s, v, outcome, now),
            k,
        ) == status_of(s, k),
{
    if in_flight(v) {
        let peer = v.queue[v.next as int];
        let status = status_for(peer, outcome, status_of(s, peer.key()), now);
        law_upsert_keeps_one_per_key(s, peer.key(), status);
        law_upsert_reads_back(s, peer.key(), status, k);
    }
}

/// What holds after the first `n` polls of a cycle.
proof fn lemma_after_polls(
    v: PollerView,
    s: Seq<((Seq<char>, u16), StatusView)>,
    outcomes: Seq<PollOutcome>,
    times: Seq<Timestamp>,
    me: (Seq<char>, u16),
)
    requires
        v.state is Polling,
        v.next == 0,
        distinct_keys(v.queue),
        one_record_per_key(s),
        outcomes.len() == times.len(),
        outcomes.len() <= v.queue.len(),
    ensures
        ({
            let after = after_polls(v, s, outcomes, times, me);
            &&& after.0.state is Polling
            &&& after.0.queue == v.queue
            &&& after.0.next == outcomes.len()
            &&& one_record_per_key(after.1)
            &&& forall|k: (Seq<char>, u16)| holds(s, k) ==> holds(after.1, k)
            &&& forall|i: int|
                0 <= i < outcomes.len() ==> status_of(after.1, (#[trigger] v.queue[i]).key()) == Some(
                    status_for(v.queue[i], outcomes[i], status_of(s, v.queue[i].key()), times[i]),
                )
        }),
    decreases outcomes.len(),
{
    if outcomes.len() > 0 {
        let n = outcomes.len() - 1;
        let before = after_polls(v, s, outcomes.drop_last(), times.drop_last(), me);
        lemma_after_polls(v, s, outcomes.drop_last(), times.drop_last(), me);
        let peer = v.queue[n];
        let after = after_polls(v, s, outcomes, times, me);
        assert(in_flight(before.0));
        assert(before.0.queue[before.0.next as int] == peer);
        // The peer polled now was not polled before in this cycle, so the
        // store still has for it what it had when the cycle began.
        assert(status_of(before.1, peer.key()) == status_of(s, peer.key())) by {
            lemma_untouched(v, s, outcomes.drop_last(), times.drop_last(), me, peer.key());
        }
        assert forall|k: (Seq<char>, u16)| holds(s, k) implies holds(after.1, k) by {
            law_records_persist(before.0, before.1, outcomes.last(), times.last(), k);
        }
        law_records_persist(before.0, before.1, outcomes.last(), times.last(), peer.key());
        assert forall|i: int| 0 <= i < outcomes.len() implies status_of(
            after.1,
            (#[trigger] v.queue[i]).key(),
        ) == Some(
            status_for(v.queue[i], outcomes[i], status_of(s, v.queue[i].key()), times[i]),
        ) by {
            let status = status_for(peer, outcomes.last(), status_of(before.1, peer.key()), times.last());
            law_upsert_reads_back(before.1, peer.key(), status, v.queue[i].key());
            if i < n {
                assert(v.queue[i].key() != v.queue[n].key());
                assert(outcomes.drop_last()[i] == outcomes[i]);
                assert(times.drop_last()[i] == times[i]);
            }
        }
    }
}

/// A run of polls leaves alone the record of every key that it did not poll.
proof fn lemma_untouched(
    v: PollerView,
    s: Seq<((Seq<char>, u16), StatusView)>,
    outcomes: Seq<PollOutcome>,
    times: Seq<Timestamp>,
    me: (Seq<char>, u16),
    k: (Seq<char>, u16),
)
    requires
        v.state is Polling,
        v.next == 0,
        one_record_per_key(s),
        outcomes.len() == times.len(),
        outcomes.len() <= v.queue.len(),
        forall|i: int| 0 <= i < outcomes.len() ==> (#[trigger] v.queue[i]).key() != k,
    ensures
        ({
            let after = after_polls(v, s, outcomes, times, me);
            &&& after.0.state is Polling
            &&& after.0.queue == v.queue
            &&& after.0.next == outcomes.len()
            &&& one_record_per_key(after.1)
            &&& status_of(after.1, k) == status_of(s, k)
        }),
    decreases outcomes.len(),
{
    if outcomes.len() > 0 {
        let before = after_polls(v, s, outcomes.drop_last(), times.drop_last(), me);
        lemma_untouched(v, s, outcomes.drop_last(), times.drop_last(), me, k);
        assert(v.queue[outcomes.len() - 1].key() != k);
        law_records_persist(before.0, before.1, outcomes.last(), times.last(), k);
    }
}

/// After a cycle that ran to its end, every peer of the poll set has its
/// record in the store, one for each key, and that record shows the outcome
/// of this cycle's poll: online iff the peer was reached. Records of peers
/// that were not in the poll set are still there. The task then waits.
pub proof fn law_cycle_records_every_peer(
    v: PollerView,
    configured: Seq<PeerView>,
    s: Seq<((Seq<char>, u16), StatusView)>,
    outcomes: Seq<PollOutcome>,
    times: Seq<Timestamp>,
    me: (Seq<char>, u16),
)
    requires
        v.state is Polling,
        one_record_per_key(s),
        outcomes.len() == times.len(),
        outcomes.len() == poll_set(configured, v.registry.discovered).len(),
    ensures
        ({
            let start = begun(v, configured, false);
            let after = after_polls(start, s, outcomes, times, me);
            &&& start.queue == poll_set(configured, v.registry.discovered)
            &&& pending(after.0) is Wait
            &&& one_record_per_key(after.1)
            &&& forall|k: (Seq<char>, u16)| holds(s, k) ==> holds(after.1, k)
            &&& forall|i: int|
                0 <= i < start.queue.len() ==> {
                    let key = (#[trigger] start.queue[i]).key();
                    &&& status_of(after.1, key) matches Some(status)
                    &&& status.online == (outcomes[i] is Reached)
                    &&& status == status_for(start.queue[i], outcomes[i], status_of(s, key), times[i])
                }
        }),
{
    let start = begun(v, configured, false);
    law_poll_set_distinct(configured, v.registry.discovered);
    lemma_after_polls(start, s, outcomes, times, me);
}

} // verus!
