//! The request that polls a peer: where it goes.
//!
//! A peer is polled with one `GET` to `http://<ip>:<port>/api/metrics`, with
//! the peer's token as bearer credential.

use crate::config_manager::{PeerView, RemotePylonConfig};
use vstd::prelude::*;
use vstd::string::StringExecFns;

verus! {

/// The character of a decimal digit.
pub open spec fn digit(d: nat) -> char {
    if d == 0 {
        '0'
    } else if d == 1 {
        '1'
    } else if d == 2 {
        '2'
    } else if d == 3 {
        '3'
    } else if d == 4 {
        '4'
    } else if d == 5 {
        '5'
    } else if d == 6 {
        '6'
    } else if d == 7 {
        '7'
    } else if d == 8 {
        '8'
    } else {
        '9'
    }
}

/// A number in decimal, without sign and without leading zeros.
pub open spec fn decimal(n: nat) -> Seq<char>
    decreases n,
{
    if n < 10 {
        seq![digit(n)]
    } else {
        decimal(n / 10).push(digit(n % 10))
    }
}

/// The address that a peer is known by in messages: `<ip>:<port>`.
pub open spec fn label_of(peer: PeerView) -> Seq<char> {
    peer.ip + seq![':'] + decimal(peer.port as nat)
}

/// The address that a peer is polled at.
pub open spec fn url_of(peer: PeerView) -> Seq<char> {
    "http://"@ + label_of(peer) + "/api/metrics"@
}

fn digit_text(d: u16) -> (r: &'static str)
    requires
        d < 10,
    ensures
        r@ == seq![digit(d as nat)],
{
    proof {
        reveal_strlit("0");
        reveal_strlit("1");
        reveal_strlit("2");
        reveal_strlit("3");
        reveal_strlit("4");
        reveal_strlit("5");
        reveal_strlit("6");
        reveal_strlit("7");
        reveal_strlit("8");
        reveal_strlit("9");
    }
    let r = if d == 0 {
        "0"
    } else if d == 1 {
        "1"
    } else if d == 2 {
        "2"
    } else if d == 3 {
        "3"
    } else if d == 4 {
        "4"
    } else if d == 5 {
        "5"
    } else if d == 6 {
        "6"
    } else if d == 7 {
        "7"
    } else if d == 8 {
        "8"
    } else {
        "9"
    };
    assert(r@ =~= seq![digit(d as nat)]);
    r
}

/// Writes a port in decimal.
pub fn decimal_text(n: u16) -> (r: String)
    ensures
        r@ == decimal(n as nat),
    decreases n,
{
    if n < 10 {
        digit_text(n).to_owned()
    } else {
        let mut s = decimal_text(n / 10);
        s.append(digit_text(n % 10));
        assert(s@ =~= decimal(n as nat));
        s
    }
}

/// Writes the address that a peer is known by in messages.
pub fn peer_label(peer: &RemotePylonConfig) -> (r: String)
    ensures
        r@ == label_of(peer@),
{
    proof {
        reveal_strlit(":");
    }
    let mut s = peer.ip.clone();
    s.append(":");
    assert(":"@ =~= seq![':']);
    s.append(decimal_text(peer.port).as_str());
    s
}

/// Writes the address that a peer is polled at.
pub fn metrics_url(peer: &RemotePylonConfig) -> (r: String)
    ensures
        r@ == url_of(peer@),
{
    let mut s = "http://".to_owned();
    s.append(peer_label(peer).as_str());
    s.append("/api/metrics");
    s
}

/// The port to try when `port` is taken: the next higher one, and none
/// behind the highest.
pub fn next_port(port: u16) -> (r: Option<u16>)
    ensures
        r == (if port < 0xffff {
            Some((port + 1) as u16)
        } else {
            None
        }),
{
    if port < 0xffff {
        Some(port + 1)
    } else {
        None
    }
}

} // verus!
