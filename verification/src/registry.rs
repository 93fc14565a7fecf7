//! The peer registry: the peers named by configuration, the peers learned
//! from other peers, and the set polled in each cycle.

use crate::config_manager::{clone_peers, peer_views, PeerView, RemotePylonConfig};
use vstd::prelude::*;

verus! {

/// The identity of a peer: host and port.
pub struct PeerKey {
    pub host: String,
    pub port: u16,
}

impl View for PeerKey {
    type V = (Seq<char>, u16);

    open spec fn view(&self) -> (Seq<char>, u16) {
        (self.host@, self.port)
    }
}

impl Clone for PeerKey {
    fn clone(&self) -> (r: Self)
        ensures
            r == *self,
    {
        PeerKey { host: self.host.clone(), port: self.port }
    }
}

impl PeerKey {
    pub fn new(host: String, port: u16) -> (r: PeerKey)
        ensures
            r.host == host,
            r.port == port,
    {
        PeerKey { host, port }
    }

    /// The key of a peer.
    pub fn of(peer: &RemotePylonConfig) -> (r: PeerKey)
        ensures
            r@ == peer.key(),
    {
        PeerKey { host: peer.ip.clone(), port: peer.port }
    }

    /// Tells whether two keys name the same endpoint.
    pub fn same(&self, other: &PeerKey) -> (r: bool)
        ensures
            r == (self@ == other@),
    {
        self.port == other.port && self.host == other.host
    }
}

/// Some entry of `s` has the key `k`.
pub open spec fn has_key(s: Seq<PeerView>, k: (Seq<char>, u16)) -> bool {
    exists|i: int| 0 <= i < s.len() && #[trigger] s[i].key() == k
}

/// No two entries of `s` have the same key.
pub open spec fn distinct_keys(s: Seq<PeerView>) -> bool {
    forall|i: int, j: int| 0 <= i < j < s.len() ==> #[trigger] s[i].key() != #[trigger] s[j].key()
}

/// The first entry of `s` with the key `k`.
pub open spec fn lookup(s: Seq<PeerView>, k: (Seq<char>, u16)) -> Option<PeerView>
    decreases s.len(),
{
    if s.len() == 0 {
        None
    } else {
        match lookup(s.drop_last(), k) {
            Some(e) => Some(e),
            None => if s.last().key() == k {
                Some(s.last())
            } else {
                None
            },
        }
    }
}

/// `s` without every entry whose key occurred earlier in `s`; what remains
/// keeps its order.
pub open spec fn first_of_each_key(s: Seq<PeerView>) -> Seq<PeerView>
    decreases s.len(),
{
    if s.len() == 0 {
        Seq::empty()
    } else {
        let init = first_of_each_key(s.drop_last());
        if has_key(init, s.last().key()) {
            init
        } else {
            init.push(s.last())
        }
    }
}

/// The peers to poll in a cycle: the configured ones, then the discovered
/// ones, one entry for each key.
pub open spec fn poll_set(
    configured: Seq<PeerView>,
    discovered: Seq<PeerView>,
) -> Seq<PeerView> {
    first_of_each_key(configured + discovered)
}

/// `lookup` finds an entry exactly when one has the key, and the entry
/// found has that key.
pub proof fn lemma_lookup_has_key(s: Seq<PeerView>, k: (Seq<char>, u16))
    ensures
        lookup(s, k) is Some <==> has_key(s, k),
        lookup(s, k) matches Some(e) ==> e.key() == k && s.contains(e),
    decreases s.len(),
{
    if s.len() > 0 {
        let init = s.drop_last();
        lemma_lookup_has_key(init, k);
        if has_key(s, k) {
            let i = choose|i: int| 0 <= i < s.len() && #[trigger] s[i].key() == k;
            if i < init.len() {
                assert(init[i].key() == k);
            }
        }
        if has_key(init, k) {
            let i = choose|i: int| 0 <= i < init.len() && #[trigger] init[i].key() == k;
            assert(s[i].key() == k);
        }
        if lookup(init, k) is Some {
            let e = lookup(init, k).unwrap();
            let i = choose|i: int| 0 <= i < init.len() && init[i] == e;
            assert(s[i] == e);
        } else if s.last().key() == k {
            assert(s[s.len() - 1] == s.last());
        }
    }
}

/// Looking a key up in `a + b` finds the entry of `a`, and that of `b` only
/// where `a` has none.
pub proof fn lemma_lookup_concat(
    a: Seq<PeerView>,
    b: Seq<PeerView>,
    k: (Seq<char>, u16),
)
    ensures
        lookup(a + b, k) == (match lookup(a, k) {
            Some(e) => Some(e),
            None => lookup(b, k),
        }),
    decreases b.len(),
{
    if b.len() == 0 {
        assert(a + b =~= a);
    } else {
        lemma_lookup_concat(a, b.drop_last(), k);
        assert((a + b).drop_last() =~= a + b.drop_last());
        assert((a + b).last() == b.last());
    }
}

/// Dropping later duplicates leaves no two entries with one key, keeps every
/// key, and keeps for each key the entry that came first.
pub proof fn lemma_first_of_each_key(s: Seq<PeerView>)
    ensures
        distinct_keys(first_of_each_key(s)),
        forall|k: (Seq<char>, u16)| has_key(first_of_each_key(s), k) <==> has_key(s, k),
        forall|k: (Seq<char>, u16)| lookup(first_of_each_key(s), k) == lookup(s, k),
        forall|i: int|
            0 <= i < first_of_each_key(s).len() ==> s.contains(#[trigger] first_of_each_key(s)[i]),
    decreases s.len(),
{
    let out = first_of_each_key(s);
    if s.len() > 0 {
        let init_in = s.drop_last();
        let init = first_of_each_key(init_in);
        let x = s.last();
        lemma_first_of_each_key(init_in);
        assert forall|k: (Seq<char>, u16)| lookup(out, k) == lookup(s, k) by {
            lemma_lookup_has_key(init, k);
            lemma_lookup_has_key(init_in, k);
            if !has_key(init, x.key()) {
                assert(out.drop_last() =~= init);
            }
        }
        assert forall|k: (Seq<char>, u16)| has_key(out, k) <==> has_key(s, k) by {
            lemma_lookup_has_key(out, k);
            lemma_lookup_has_key(s, k);
        }
        assert forall|i: int| 0 <= i < out.len() implies s.contains(#[trigger] out[i]) by {
            if i < init.len() {
                assert(init_in.contains(init[i]));
                let j = choose|j: int| 0 <= j < init_in.len() && init_in[j] == init[i];
                assert(s[j] == out[i]);
            } else {
                assert(s[s.len() - 1] == out[i]);
            }
        }
        if !has_key(init, x.key()) {
            assert forall|i: int, j: int| 0 <= i < j < out.len() implies #[trigger] out[i].key()
                != #[trigger] out[j].key() by {
                if j == out.len() - 1 {
                    assert(init[i].key() == out[i].key());
                } else {
                    assert(init[i].key() != init[j].key());
                }
            }
        }
    }
}

/// A list in which no key occurs twice is its own poll set.
pub proof fn lemma_first_of_each_key_distinct(s: Seq<PeerView>)
    requires
        distinct_keys(s),
    ensures
        first_of_each_key(s) == s,
    decreases s.len(),
{
    if s.len() > 0 {
        let init = s.drop_last();
        assert forall|i: int, j: int| 0 <= i < j < init.len() implies #[trigger] init[i].key()
            != #[trigger] init[j].key() by {
            assert(s[i].key() != s[j].key());
        }
        lemma_first_of_each_key_distinct(init);
        if has_key(init, s.last().key()) {
            let i = choose|i: int| 0 <= i < init.len() && #[trigger] init[i].key() == s.last().key();
            assert(s[i].key() != s[s.len() - 1].key());
        }
        assert(init.push(s.last()) =~= s);
    }
}

/// Tells whether some entry of `list` has the given host and port.
pub fn contains_key(list: &Vec<RemotePylonConfig>, host: &String, port: u16) -> (r: bool)
    ensures
        r == has_key(peer_views(list@), (host@, port)),
{
    let mut i: usize = 0;
    while i < list.len()
        invariant
            i <= list.len(),
            forall|j: int| 0 <= j < i ==> #[trigger] peer_views(list@)[j].key() != (host@, port),
        decreases list.len() - i,
    {
        if list[i].is_at(host, port) {
            assert(peer_views(list@)[i as int].key() == (host@, port));
            return true;
        }
        i += 1;
    }
    false
}

/// Appends to `out` the entries of `list` whose key `out` does not hold yet.
fn append_new_keys(out: &mut Vec<RemotePylonConfig>, list: &Vec<RemotePylonConfig>, Ghost(before): Ghost<
    Seq<PeerView>,
>)
    requires
        peer_views(old(out)@) == first_of_each_key(before),
    ensures
        peer_views(final(out)@) == first_of_each_key(before + peer_views(list@)),
{
    let mut i: usize = 0;
    let ghost views = peer_views(list@);
    assert(before + views.take(0) =~= before);
    while i < list.len()
        invariant
            i <= list.len(),
            views == peer_views(list@),
            peer_views(out@) == first_of_each_key(before + views.take(i as int)),
        decreases list.len() - i,
    {
        let peer = &list[i];
        proof {
            let next = before + views.take(i + 1);
            assert(next.drop_last() =~= before + views.take(i as int));
            assert(next.last() == list@[i as int]@);
        }
        if !contains_key(out, &peer.ip, peer.port) {
            let ghost shorter = out@;
            out.push(peer.clone());
            assert(peer_views(out@) =~= peer_views(shorter).push(peer@));
        }
        i += 1;
    }
    assert(views.take(list.len() as int) =~= views);
}

/// What the registry holds: the configured peers as last read, and the
/// peers discovered so far, oldest first.
pub struct RegistryView {
    pub configured: Seq<PeerView>,
    pub discovered: Seq<PeerView>,
}

/// A candidate is admitted when it is not this instance itself and its key
/// is not known yet, neither from configuration nor from discovery.
pub open spec fn admits(v: RegistryView, candidate: PeerView, me: (Seq<char>, u16)) -> bool {
    &&& candidate.key() != me
    &&& !has_key(v.configured, candidate.key())
    &&& !has_key(v.discovered, candidate.key())
}

/// The registry after one candidate was offered to it.
pub open spec fn record(v: RegistryView, candidate: PeerView, me: (Seq<char>, u16)) -> RegistryView {
    if admits(v, candidate, me) {
        RegistryView { configured: v.configured, discovered: v.discovered.push(candidate) }
    } else {
        v
    }
}

/// The registry after a list of candidates was offered to it, first to last.
pub open spec fn record_all(
    v: RegistryView,
    candidates: Seq<PeerView>,
    me: (Seq<char>, u16),
) -> RegistryView
    decreases candidates.len(),
{
    if candidates.len() == 0 {
        v
    } else {
        record(record_all(v, candidates.drop_last(), me), candidates.last(), me)
    }
}

/// The registry of one polling task.
pub struct RegistryState {
    configured: Vec<RemotePylonConfig>,
    discovered: Vec<RemotePylonConfig>,
}

impl View for RegistryState {
    type V = RegistryView;

    closed spec fn view(&self) -> RegistryView {
        RegistryView {
            configured: peer_views(self.configured@),
            discovered: peer_views(self.discovered@),
        }
    }
}

impl RegistryState {
    #[verifier::type_invariant]
    spec fn discovered_once(self) -> bool {
        distinct_keys(peer_views(self.discovered@))
    }

    /// A registry that knows no peer.
    pub fn new() -> (r: RegistryState)
        ensures
            r@.configured.len() == 0,
            r@.discovered.len() == 0,
    {
        RegistryState { configured: Vec::new(), discovered: Vec::new() }
    }

    /// Takes the configured peers as they are now and gives the peers to
    /// poll: one entry for each key, configured entries first and before any
    /// discovered entry with the same key.
    pub fn snapshot_poll_set(&mut self, configured: Vec<RemotePylonConfig>) -> (r: Vec<
        RemotePylonConfig,
    >)
        ensures
            final(self)@.configured == peer_views(configured@),
            final(self)@.discovered == old(self)@.discovered,
            peer_views(r@) == poll_set(peer_views(configured@), old(self)@.discovered),
            distinct_keys(peer_views(r@)),
            forall|k: (Seq<char>, u16)|
                has_key(peer_views(configured@), k) ==> lookup(peer_views(r@), k) == lookup(
                    peer_views(configured@),
                    k,
                ),
    {
        proof {
            use_type_invariant(&*self);
        }
        let mut out: Vec<RemotePylonConfig> = Vec::new();
        let ghost none = Seq::<PeerView>::empty();
        let ghost given = peer_views(configured@);
        assert(none + given =~= given);
        assert(peer_views(out@) =~= none);
        append_new_keys(&mut out, &configured, Ghost(none));
        append_new_keys(&mut out, &self.discovered, Ghost(given));
        proof {
            law_poll_set_distinct(given, self@.discovered);
            assert forall|k: (Seq<char>, u16)| has_key(given, k) implies lookup(
                peer_views(out@),
                k,
            ) == lookup(given, k) by {
                law_configured_wins(given, self@.discovered, k);
            }
        }
        self.configured = configured;
        out
    }

    /// Offers one discovered candidate to the registry. It is added, behind
    /// the peers discovered earlier, iff it is not this instance itself and
    /// its key is not known yet; the result tells whether it was added.
    pub fn record_discovery(&mut self, candidate: RemotePylonConfig, self_key: &PeerKey) -> (added:
        bool)
        ensures
            added == admits(old(self)@, candidate@, self_key@),
            final(self)@ == record(old(self)@, candidate@, self_key@),
            distinct_keys(final(self)@.discovered),
    {
        proof {
            use_type_invariant(&*self);
        }
        let known = candidate.is_at(&self_key.host, self_key.port) || contains_key(
            &self.configured,
            &candidate.ip,
            candidate.port,
        ) || contains_key(&self.discovered, &candidate.ip, candidate.port);
        if !known {
            proof {
                law_record_keeps_distinct(self@, candidate@, self_key@);
            }
            let ghost before = self.discovered@;
            let mut grown: Vec<RemotePylonConfig> = Vec::new();
            std::mem::swap(&mut self.discovered, &mut grown);
            grown.push(candidate);
            assert(peer_views(grown@) =~= peer_views(before).push(candidate@));
            std::mem::swap(&mut self.discovered, &mut grown);
        }
        !known
    }

    /// Offers a list of candidates, first to last, and gives the number of
    /// those that were added.
    pub fn record_discoveries(&mut self, candidates: Vec<RemotePylonConfig>, self_key: &PeerKey) -> (added:
        usize)
        ensures
            final(self)@ == record_all(old(self)@, peer_views(candidates@), self_key@),
            final(self)@.discovered.len() == old(self)@.discovered.len() + added,
            distinct_keys(final(self)@.discovered),
    {
        proof {
            use_type_invariant(&*self);
        }
        let ghost offered = peer_views(candidates@);
        let mut added: usize = 0;
        let mut i: usize = 0;
        while i < candidates.len()
            invariant
                i <= candidates.len(),
                added <= i,
                offered == peer_views(candidates@),
                self@ == record_all(old(self)@, offered.take(i as int), self_key@),
                self@.discovered.len() == old(self)@.discovered.len() + added,
                distinct_keys(self@.discovered),
            decreases candidates.len() - i,
        {
            proof {
                assert(offered.take(i + 1).drop_last() =~= offered.take(i as int));
                assert(offered.take(i + 1).last() == candidates@[i as int]@);
            }
            if self.record_discovery(candidates[i].clone(), self_key) {
                added += 1;
            }
            i += 1;
        }
        assert(offered.take(candidates.len() as int) =~= offered);
        added
    }

    /// Tells whether the key is known, from configuration or from discovery.
    pub fn knows(&self, key: &PeerKey) -> (r: bool)
        ensures
            r == (has_key(self@.configured, key@) || has_key(self@.discovered, key@)),
    {
        contains_key(&self.configured, &key.host, key.port) || contains_key(
            &self.discovered,
            &key.host,
            key.port,
        )
    }

    /// The configured peers as last read.
    pub fn configured(&self) -> (r: Vec<RemotePylonConfig>)
        ensures
            peer_views(r@) == self@.configured,
    {
        clone_peers(&self.configured)
    }

    /// The peers discovered so far, oldest first; no key occurs twice.
    pub fn discovered(&self) -> (r: Vec<RemotePylonConfig>)
        ensures
            peer_views(r@) == self@.discovered,
            distinct_keys(peer_views(r@)),
    {
        proof {
            use_type_invariant(self);
        }
        clone_peers(&self.discovered)
    }
}

/// No two entries of a poll set have the same host and port.
pub proof fn law_poll_set_distinct(configured: Seq<PeerView>, discovered: Seq<PeerView>)
    ensures
        distinct_keys(poll_set(configured, discovered)),
{
    lemma_first_of_each_key(configured + discovered);
}

/// A poll set holds exactly the keys that are configured or discovered, and
/// each of its entries is one of the configured or discovered entries.
pub proof fn law_poll_set_covers(
    configured: Seq<PeerView>,
    discovered: Seq<PeerView>,
    k: (Seq<char>, u16),
)
    ensures
        has_key(poll_set(configured, discovered), k) <==> has_key(configured, k) || has_key(
            discovered,
            k,
        ),
        forall|i: int|
            0 <= i < poll_set(configured, discovered).len() ==> {
                let e = #[trigger] poll_set(configured, discovered)[i];
                configured.contains(e) || discovered.contains(e)
            },
{
    let all = configured + discovered;
    lemma_first_of_each_key(all);
    lemma_lookup_concat(configured, discovered, k);
    lemma_lookup_has_key(all, k);
    lemma_lookup_has_key(configured, k);
    lemma_lookup_has_key(discovered, k);
    assert forall|i: int| 0 <= i < poll_set(configured, discovered).len() implies {
        let e = #[trigger] poll_set(configured, discovered)[i];
        configured.contains(e) || discovered.contains(e)
    } by {
        let e = poll_set(configured, discovered)[i];
        assert(all.contains(e));
        let j = choose|j: int| 0 <= j < all.len() && all[j] == e;
        if j < configured.len() {
            assert(configured[j] == e);
        } else {
            assert(discovered[j - configured.len()] == e);
        }
    }
}

/// Where a key is configured, the poll set's entry for it is the configured
/// one, whatever was discovered under that key; where it is not, it is the
/// discovered one.
pub proof fn law_configured_wins(
    configured: Seq<PeerView>,
    discovered: Seq<PeerView>,
    k: (Seq<char>, u16),
)
    ensures
        has_key(configured, k) ==> lookup(poll_set(configured, discovered), k) == lookup(
            configured,
            k,
        ),
        !has_key(configured, k) ==> lookup(poll_set(configured, discovered), k) == lookup(
            discovered,
            k,
        ),
{
    lemma_first_of_each_key(configured + discovered);
    lemma_lookup_concat(configured, discovered, k);
    lemma_lookup_has_key(configured, k);
}

/// The poll set begins with the configured peers, in their order, where no
/// key is configured twice.
pub proof fn law_poll_set_starts_with_configured(
    configured: Seq<PeerView>,
    discovered: Seq<PeerView>,
)
    requires
        distinct_keys(configured),
    ensures
        configured.len() <= poll_set(configured, discovered).len(),
        poll_set(configured, discovered).take(configured.len() as int) == configured,
    decreases discovered.len(),
{
    if discovered.len() == 0 {
        assert(configured + discovered =~= configured);
        lemma_first_of_each_key_distinct(configured);
        assert(configured.take(configured.len() as int) =~= configured);
    } else {
        let init = discovered.drop_last();
        law_poll_set_starts_with_configured(configured, init);
        assert((configured + discovered).drop_last() =~= configured + init);
        let shorter = poll_set(configured, init);
        let longer = poll_set(configured, discovered);
        assert(longer.take(configured.len() as int) =~= shorter.take(configured.len() as int));
    }
}

/// This instance's own key never enters the discovered peers: a candidate
/// with that key changes nothing, and no other candidate brings it in.
pub proof fn law_self_never_recorded(v: RegistryView, candidate: PeerView, me: (Seq<char>, u16))
    ensures
        candidate.key() == me ==> record(v, candidate, me) == v,
        !has_key(v.discovered, me) ==> !has_key(record(v, candidate, me).discovered, me),
{
    let after = record(v, candidate, me).discovered;
    if has_key(after, me) && !has_key(v.discovered, me) {
        let i = choose|i: int| 0 <= i < after.len() && #[trigger] after[i].key() == me;
        if i < v.discovered.len() {
            assert(v.discovered[i].key() == me);
        }
    }
}

/// Recording keeps the discovered peers free of repeated keys, and adds no
/// key that is configured.
pub proof fn law_record_keeps_distinct(v: RegistryView, candidate: PeerView, me: (Seq<char>, u16))
    requires
        distinct_keys(v.discovered),
    ensures
        distinct_keys(record(v, candidate, me).discovered),
        record(v, candidate, me).configured == v.configured,
{
    if admits(v, candidate, me) {
        let after = v.discovered.push(candidate);
        assert forall|i: int, j: int| 0 <= i < j < after.len() implies #[trigger] after[i].key()
            != #[trigger] after[j].key() by {
            if j == after.len() - 1 {
                assert(v.discovered[i].key() == after[i].key());
            } else {
                assert(v.discovered[i].key() != v.discovered[j].key());
            }
        }
    }
}

/// A candidate that was offered once is not admitted again, nor is any other
/// candidate with its key.
pub proof fn law_record_idempotent(
    v: RegistryView,
    candidate: PeerView,
    again: PeerView,
    me: (Seq<char>, u16),
)
    requires
        again.key() == candidate.key(),
    ensures
        !admits(record(v, candidate, me), again, me),
        record(record(v, candidate, me), again, me) == record(v, candidate, me),
{
    if admits(v, candidate, me) {
        let after = v.discovered.push(candidate);
        assert(after[after.len() - 1].key() == again.key());
    }
}

/// What the registry refuses it goes on refusing as it grows.
proof fn lemma_refusal_lasts(
    v: RegistryView,
    candidate: PeerView,
    other: PeerView,
    me: (Seq<char>, u16),
)
    requires
        !admits(v, other, me),
    ensures
        !admits(record(v, candidate, me), other, me),
{
    if has_key(v.discovered, other.key()) && admits(v, candidate, me) {
        let i = choose|i: int| 0 <= i < v.discovered.len() && #[trigger] v.discovered[i].key()
            == other.key();
        assert(v.discovered.push(candidate)[i].key() == other.key());
    }
}

/// After a list was offered, none of its candidates is admitted any more.
proof fn lemma_offered_are_refused(
    v: RegistryView,
    candidates: Seq<PeerView>,
    me: (Seq<char>, u16),
    i: int,
)
    requires
        0 <= i < candidates.len(),
    ensures
        !admits(record_all(v, candidates, me), candidates[i], me),
    decreases candidates.len(),
{
    let before = record_all(v, candidates.drop_last(), me);
    if i == candidates.len() - 1 {
        law_record_idempotent(before, candidates.last(), candidates.last(), me);
    } else {
        lemma_offered_are_refused(v, candidates.drop_last(), me, i);
        lemma_refusal_lasts(before, candidates.last(), candidates[i], me);
    }
}

/// Offering candidates of which none is admitted changes nothing.
proof fn lemma_refused_change_nothing(
    v: RegistryView,
    candidates: Seq<PeerView>,
    me: (Seq<char>, u16),
)
    requires
        forall|i: int| 0 <= i < candidates.len() ==> !admits(v, #[trigger] candidates[i], me),
    ensures
        record_all(v, candidates, me) == v,
    decreases candidates.len(),
{
    if candidates.len() > 0 {
        let init = candidates.drop_last();
        assert forall|i: int| 0 <= i < init.len() implies !admits(v, #[trigger] init[i], me) by {
            assert(init[i] == candidates[i]);
        }
        lemma_refused_change_nothing(v, init, me);
        assert(candidates.last() == candidates[candidates.len() - 1]);
    }
}

/// Offering the same list of candidates a second time, in the same cycle or
/// a later one, leaves the registry as the first time left it.
pub proof fn law_discovery_idempotent(
    v: RegistryView,
    candidates: Seq<PeerView>,
    me: (Seq<char>, u16),
)
    ensures
        record_all(record_all(v, candidates, me), candidates, me) == record_all(v, candidates, me),
{
    let once = record_all(v, candidates, me);
    assert forall|i: int| 0 <= i < candidates.len() implies !admits(
        once,
        #[trigger] candidates[i],
        me,
    ) by {
        lemma_offered_are_refused(v, candidates, me, i);
    }
    lemma_refused_change_nothing(once, candidates, me);
}

/// Offering a list keeps the discovered peers free of repeated keys and of
/// this instance's own key, and leaves the configured peers alone.
pub proof fn law_record_all_invariant(
    v: RegistryView,
    candidates: Seq<PeerView>,
    me: (Seq<char>, u16),
)
    requires
        distinct_keys(v.discovered),
    ensures
        distinct_keys(record_all(v, candidates, me).discovered),
        record_all(v, candidates, me).configured == v.configured,
        !has_key(v.discovered, me) ==> !has_key(record_all(v, candidates, me).discovered, me),
    decreases candidates.len(),
{
    if candidates.len() > 0 {
        let before = record_all(v, candidates.drop_last(), me);
        law_record_all_invariant(v, candidates.drop_last(), me);
        law_record_keeps_distinct(before, candidates.last(), me);
        law_self_never_recorded(before, candidates.last(), me);
    }
}

/// Discovered peers are never given up: what was discovered before a list
/// was offered is still there afterwards, in the same places, and what the
/// list added stands behind it.
pub proof fn law_discovered_grows(v: RegistryView, candidates: Seq<PeerView>, me: (Seq<char>, u16))
    ensures
        v.discovered.len() <= record_all(v, candidates, me).discovered.len(),
        record_all(v, candidates, me).discovered.take(v.discovered.len() as int) == v.discovered,
    decreases candidates.len(),
{
    if candidates.len() == 0 {
        assert(v.discovered.take(v.discovered.len() as int) =~= v.discovered);
    } else {
        let before = record_all(v, candidates.drop_last(), me);
        law_discovered_grows(v, candidates.drop_last(), me);
        let after = record(before, candidates.last(), me);
        assert(after.discovered.take(v.discovered.len() as int) =~= before.discovered.take(
            v.discovered.len() as int,
        ));
    }
}

} // verus!
