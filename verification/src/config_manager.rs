//! The agent's configuration: its own settings and the peers it is told to
//! poll.

use crate::registry::PeerKey;
use vstd::prelude::*;

verus! {

/// Copies an optional string.
pub fn clone_text(o: &Option<String>) -> (r: Option<String>)
    ensures
        r == *o,
{
    match o {
        Some(s) => Some(s.clone()),
        None => None,
    }
}

/// The characters of an optional string.
pub open spec fn text_view(o: Option<String>) -> Option<Seq<char>> {
    match o {
        Some(s) => Some(s@),
        None => None,
    }
}

/// One peer: where it listens, the credential it expects, and how it is
/// described. Two peers are the same peer when host and port agree; see
/// [`RemotePylonConfig::key`].
#[derive(Debug)]
pub struct RemotePylonConfig {
    pub ip: String,
    pub port: u16,
    pub token: String,
    pub name: Option<String>,
    pub location: Option<String>,
    pub description: Option<String>,
}

/// A peer, with its strings as sequences of characters.
pub struct PeerView {
    pub ip: Seq<char>,
    pub port: u16,
    pub token: Seq<char>,
    pub name: Option<Seq<char>>,
    pub location: Option<Seq<char>>,
    pub description: Option<Seq<char>>,
}

impl View for RemotePylonConfig {
    type V = PeerView;

    open spec fn view(&self) -> PeerView {
        PeerView {
            ip: self.ip@,
            port: self.port,
            token: self.token@,
            name: text_view(self.name),
            location: text_view(self.location),
            description: text_view(self.description),
        }
    }
}

impl PeerView {
    /// The identity of the peer: its host and port. Token, name, location
    /// and description are not part of it.
    pub open spec fn key(self) -> (Seq<char>, u16) {
        (self.ip, self.port)
    }
}

/// A list of peers, each by its view.
pub open spec fn peer_views(s: Seq<RemotePylonConfig>) -> Seq<PeerView> {
    s.map_values(|p: RemotePylonConfig| p@)
}

impl RemotePylonConfig {
    /// The identity of the peer: its host and port.
    pub open spec fn key(&self) -> (Seq<char>, u16) {
        self@.key()
    }

    /// Tells whether this peer listens at `host:port`.
    pub fn is_at(&self, host: &String, port: u16) -> (r: bool)
        ensures
            r == (self.key() == (host@, port)),
    {
        self.port == port && self.ip == *host
    }

    /// Tells whether two descriptors name the same peer.
    pub fn same_peer(&self, other: &RemotePylonConfig) -> (r: bool)
        ensures
            r == (self.key() == other.key()),
    {
        self.port == other.port && self.ip == other.ip
    }
}

impl Clone for RemotePylonConfig {
    fn clone(&self) -> (r: Self)
        ensures
            r == *self,
    {
        RemotePylonConfig {
            ip: self.ip.clone(),
            port: self.port,
            token: self.token.clone(),
            name: clone_text(&self.name),
            location: clone_text(&self.location),
            description: clone_text(&self.description),
        }
    }
}

/// Copies a list of peers.
pub fn clone_peers(list: &Vec<RemotePylonConfig>) -> (r: Vec<RemotePylonConfig>)
    ensures
        r@ == list@,
{
    let mut out: Vec<RemotePylonConfig> = Vec::new();
    let mut i: usize = 0;
    while i < list.len()
        invariant
            i <= list.len(),
            out@ == list@.take(i as int),
        decreases list.len() - i,
    {
        out.push(list[i].clone());
        i += 1;
    }
    out
}

/// The port that an agent listens on where its configuration names none.
pub const DEFAULT_PORT: u16 = 6989;

/// The settings of one agent.
#[derive(Debug)]
pub struct Config {
    /// The port the agent tries to listen on.
    pub local_port: Option<u16>,
    /// The address under which the peers know this agent.
    pub local_host: Option<String>,
    /// The token that others must present to read this agent's metrics.
    pub token: String,
    /// The name of this agent.
    pub name: Option<String>,
    /// The peers to poll.
    pub remote_pylons: Option<Vec<RemotePylonConfig>>,
    pub description: Option<String>,
    pub location: Option<String>,
    /// Whether the agent looks for newer versions of itself.
    pub auto_update: Option<bool>,
    /// Where it looks for them.
    pub master_update_url: Option<String>,
}

/// The settings of an agent, with strings and lists as sequences.
pub struct ConfigView {
    pub local_port: Option<u16>,
    pub local_host: Option<Seq<char>>,
    pub token: Seq<char>,
    pub name: Option<Seq<char>>,
    pub remote_pylons: Option<Seq<PeerView>>,
    pub description: Option<Seq<char>>,
    pub location: Option<Seq<char>>,
    pub auto_update: Option<bool>,
    pub master_update_url: Option<Seq<char>>,
}

impl View for Config {
    type V = ConfigView;

    open spec fn view(&self) -> ConfigView {
        ConfigView {
            local_port: self.local_port,
            local_host: text_view(self.local_host),
            token: self.token@,
            name: text_view(self.name),
            remote_pylons: match self.remote_pylons {
                Some(list) => Some(peer_views(list@)),
                None => None,
            },
            description: text_view(self.description),
            location: text_view(self.location),
            auto_update: self.auto_update,
            master_update_url: text_view(self.master_update_url),
        }
    }
}

impl Clone for Config {
    fn clone(&self) -> (r: Self)
        ensures
            r@ == self@,
    {
        Config {
            local_port: self.local_port,
            local_host: clone_text(&self.local_host),
            token: self.token.clone(),
            name: clone_text(&self.name),
            remote_pylons: match &self.remote_pylons {
                Some(list) => Some(clone_peers(list)),
                None => None,
            },
            description: clone_text(&self.description),
            location: clone_text(&self.location),
            auto_update: self.auto_update,
            master_update_url: clone_text(&self.master_update_url),
        }
    }
}

impl Default for Config {
    /// The settings of an agent that was given none: port 6989, a
    /// placeholder token, no peers, and updates switched off.
    fn default() -> (r: Self)
        ensures
            r@ == (ConfigView {
                local_port: Some(6989u16),
                local_host: None,
                token: "default_token"@,
                name: Some("Local Pylon"@),
                remote_pylons: None,
                description: None,
                location: None,
                auto_update: Some(false),
                master_update_url: Some("https://brinstar.top/pylon"@),
            }),
    {
        Config {
            local_port: Some(DEFAULT_PORT),
            local_host: None,
            token: "default_token".to_owned(),
            name: Some("Local Pylon".to_owned()),
            remote_pylons: None,
            description: None,
            location: None,
            auto_update: Some(false),
            master_update_url: Some("https://brinstar.top/pylon".to_owned()),
        }
    }
}

impl ConfigView {
    /// The configured peers: the list, or none where there is no list.
    pub open spec fn peers(self) -> Seq<PeerView> {
        match self.remote_pylons {
            Some(list) => list,
            None => Seq::empty(),
        }
    }
}

/// `list` without the peers at `key`.
pub open spec fn without_key(list: Seq<PeerView>, key: (Seq<char>, u16)) -> Seq<PeerView> {
    list.filter(|p: PeerView| p.key() != key)
}

impl Config {
    /// The configured peers, in their order; none where no list is
    /// configured.
    pub fn remote_list(&self) -> (r: Vec<RemotePylonConfig>)
        ensures
            peer_views(r@) == self@.peers(),
    {
        match &self.remote_pylons {
            Some(list) => clone_peers(list),
            None => {
                let none: Vec<RemotePylonConfig> = Vec::new();
                assert(peer_views(none@) =~= Seq::<PeerView>::empty());
                none
            },
        }
    }

    /// Adds a peer behind the configured ones. A configuration without a
    /// list gets one. Nothing is checked: a peer may be listed twice.
    pub fn add_pylon(&mut self, pylon: RemotePylonConfig)
        ensures
            final(self)@ == (ConfigView {
                remote_pylons: Some(old(self)@.peers().push(pylon@)),
                ..old(self)@
            }),
    {
        let mut list = match self.remote_pylons.take() {
            Some(list) => list,
            None => Vec::new(),
        };
        let ghost before = list@;
        assert(peer_views(before) =~= old(self)@.peers());
        list.push(pylon);
        assert(peer_views(list@) =~= peer_views(before).push(pylon@));
        self.remote_pylons = Some(list);
    }

    /// Removes every configured peer at `ip:port`; the others keep their
    /// order. A configuration without a list stays without one.
    pub fn remove_pylon(&mut self, ip: &String, port: u16)
        ensures
            final(self)@ == (ConfigView {
                remote_pylons: match old(self)@.remote_pylons {
                    Some(list) => Some(without_key(list, (ip@, port))),
                    None => None,
                },
                ..old(self)@
            }),
    {
        match self.remote_pylons.take() {
            Some(list) => {
                let ghost all = peer_views(list@);
                let ghost keep = |p: PeerView| p.key() != (ip@, port);
                let mut kept: Vec<RemotePylonConfig> = Vec::new();
                let mut i: usize = 0;
                proof {
                    reveal(Seq::filter);
                    assert(all.take(0).filter(keep) =~= Seq::<PeerView>::empty());
                    assert(peer_views(kept@) =~= Seq::<PeerView>::empty());
                }
                while i < list.len()
                    invariant
                        i <= list.len(),
                        all == peer_views(list@),
                        keep == (|p: PeerView| p.key() != (ip@, port)),
                        peer_views(kept@) == all.take(i as int).filter(keep),
                    decreases list.len() - i,
                {
                    proof {
                        all.take(i as int).lemma_filter_push(all[i as int], keep);
                        assert(all.take(i as int).push(all[i as int]) =~= all.take(i + 1));
                    }
                    if !list[i].is_at(ip, port) {
                        let ghost shorter = kept@;
                        kept.push(list[i].clone());
                        assert(peer_views(kept@) =~= peer_views(shorter).push(list@[i as int]@));
                    }
                    i += 1;
                }
                assert(all.take(list.len() as int) =~= all);
                self.remote_pylons = Some(kept);
            },
            None => {},
        }
    }

    /// The port to listen on: the configured one, or 6989.
    pub fn port(&self) -> (r: u16)
        ensures
            r == (match self@.local_port {
                Some(p) => p,
                None => 6989u16,
            }),
    {
        match self.local_port {
            Some(p) => p,
            None => DEFAULT_PORT,
        }
    }

    /// The key under which this agent knows itself: its configured address
    /// and its port. An agent without a configured address knows itself as
    /// `127.0.0.1`.
    pub fn self_key(&self) -> (r: PeerKey)
        ensures
            r@ == (
                match self@.local_host {
                    Some(host) => host,
                    None => "127.0.0.1"@,
                },
                match self@.local_port {
                    Some(port) => port,
                    None => 6989u16,
                },
            ),
    {
        let host = match &self.local_host {
            Some(host) => host.clone(),
            None => "127.0.0.1".to_owned(),
        };
        PeerKey::new(host, self.port())
    }

    /// Tells whether `token` is this agent's token.
    pub fn accepts_token(&self, token: &String) -> (r: bool)
        ensures
            r == (token@ == self@.token),
    {
        self.token == *token
    }

    /// Tells whether updates are switched on. They are off where the
    /// configuration does not say.
    pub fn auto_update_enabled(&self) -> (r: bool)
        ensures
            r == (self@.auto_update == Some(true)),
    {
        match self.auto_update {
            Some(on) => on,
            None => false,
        }
    }

    /// Switches updates off.
    pub fn disable_auto_update(&mut self)
        ensures
            final(self)@ == (ConfigView { auto_update: Some(false), ..old(self)@ }),
    {
        self.auto_update = Some(false);
    }

    /// The name to show for this agent: its own, or `Local Pylon`.
    pub fn display_name(&self) -> (r: String)
        ensures
            r@ == (match self@.name {
                Some(s) => s,
                None => "Local Pylon"@,
            }),
    {
        match &self.name {
            Some(s) => s.clone(),
            None => "Local Pylon".to_owned(),
        }
    }

    /// The description to show for this agent: its own, or a sentence that
    /// says there is none.
    pub fn display_description(&self) -> (r: String)
        ensures
            r@ == (match self@.description {
                Some(s) => s,
                None => "Sorry, no description was provided for this Pylon."@,
            }),
    {
        match &self.description {
            Some(s) => s.clone(),
            None => "Sorry, no description was provided for this Pylon.".to_owned(),
        }
    }

    /// The location to show for this agent: its own, or `Unknown Location`.
    pub fn display_location(&self) -> (r: String)
        ensures
            r@ == (match self@.location {
                Some(s) => s,
                None => "Unknown Location"@,
            }),
    {
        match &self.location {
            Some(s) => s.clone(),
            None => "Unknown Location".to_owned(),
        }
    }
}

} // verus!
