//! Reading the peers that a peer reports: the `remote_pylons` list of its
//! answer, entry by entry.
//!
//! An entry is an object with the members `ip` (a string), `port` (an
//! unsigned integer up to 65535), `token` (a string) and, each optional and
//! possibly `null`, `name`, `location` and `description` (strings). The
//! address may stand under `host` instead of `ip`; where both are there,
//! `ip` counts. Members with other names are ignored. An array of exactly
//! six elements, holding those fields in that order, is read the same way.
//! Anything else is malformed, and a malformed entry is passed over without
//! a word.

use crate::config_manager::{peer_views, PeerView, RemotePylonConfig};
use crate::json::{
    json_doc, member, value_as_array, value_as_str, value_as_u64, value_get, value_is_null, JsonDoc,
};
use crate::registry::PeerKey;
use serde_json::Value;
use vstd::prelude::*;

verus! {

/// The field of an entry: by name in an object, by position in an array of
/// six elements.
pub open spec fn entry_field(entry: JsonDoc, name: Seq<char>, at: int) -> Option<JsonDoc> {
    match entry {
        JsonDoc::Object(_) => member(entry, name),
        JsonDoc::Array(items) => if items.len() == 6 {
            Some(items[at])
        } else {
            None
        },
        _ => None,
    }
}

/// The address of an entry: its field `ip`, or its member `host` where it
/// has no such field.
pub open spec fn address_field(entry: JsonDoc) -> Option<JsonDoc> {
    match entry_field(entry, "ip"@, 0) {
        Some(address) => Some(address),
        None => member(entry, "host"@),
    }
}

/// A field that must be there and be a string.
pub open spec fn required_text(field: Option<JsonDoc>) -> Option<Seq<char>> {
    match field {
        Some(JsonDoc::Text(s)) => Some(s),
        _ => None,
    }
}

/// A field that must be there and be an unsigned integer that fits a port.
pub open spec fn required_port(field: Option<JsonDoc>) -> Option<u16> {
    match field {
        Some(JsonDoc::Number(Some(n))) => if n <= 0xffff {
            Some(n as u16)
        } else {
            None
        },
        _ => None,
    }
}

/// A field that may be missing or `null`, and is a string otherwise. The
/// outer `None` stands for a field of another type.
pub open spec fn optional_text(field: Option<JsonDoc>) -> Option<Option<Seq<char>>> {
    match field {
        None => Some(None),
        Some(JsonDoc::Null) => Some(None),
        Some(JsonDoc::Text(s)) => Some(Some(s)),
        Some(_) => None,
    }
}

/// The peer that an entry describes, `None` for a malformed entry.
pub open spec fn decode_entry(entry: JsonDoc) -> Option<PeerView> {
    let ip = required_text(address_field(entry));
    let port = required_port(entry_field(entry, "port"@, 1));
    let token = required_text(entry_field(entry, "token"@, 2));
    let name = optional_text(entry_field(entry, "name"@, 3));
    let location = optional_text(entry_field(entry, "location"@, 4));
    let description = optional_text(entry_field(entry, "description"@, 5));
    if ip is Some && port is Some && token is Some && name is Some && location is Some
        && description is Some {
        Some(
            PeerView {
                ip: ip.unwrap(),
                port: port.unwrap(),
                token: token.unwrap(),
                name: name.unwrap(),
                location: location.unwrap(),
                description: description.unwrap(),
            },
        )
    } else {
        None
    }
}

/// The entries that an answer lists: the elements of its member
/// `remote_pylons` where that is an array, none otherwise.
pub open spec fn listed_entries(body: JsonDoc) -> Seq<JsonDoc> {
    match member(body, "remote_pylons"@) {
        Some(JsonDoc::Array(items)) => items,
        _ => Seq::empty(),
    }
}

/// The peer of a well-formed entry, unless it is this instance itself.
pub open spec fn candidate(entry: JsonDoc, me: (Seq<char>, u16)) -> Option<PeerView> {
    match decode_entry(entry) {
        Some(p) => if p.key() != me {
            Some(p)
        } else {
            None
        },
        None => None,
    }
}

/// The candidates of an answer: the peers of its well-formed entries, in the
/// order of the list, without this instance itself.
pub open spec fn candidates(body: JsonDoc, me: (Seq<char>, u16)) -> Seq<PeerView> {
    listed_entries(body).filter_map(|entry: JsonDoc| candidate(entry, me))
}

fn field_of<'a>(entry: &'a Value, name: &str, at: usize) -> (r: Option<&'a Value>)
    requires
        at < 6,
    ensures
        match r {
            Some(x) => entry_field(json_doc(*entry), name@, at as int) == Some(json_doc(*x)),
            None => entry_field(json_doc(*entry), name@, at as int) is None,
        },
{
    match value_as_array(entry) {
        Some(items) => if items.len() == 6 {
            Some(&items[at])
        } else {
            None
        },
        None => value_get(entry, name),
    }
}

fn read_text(field: Option<&Value>) -> (r: Option<String>)
    ensures
        match r {
            Some(s) => required_text(doc_of(field)) == Some(s@),
            None => required_text(doc_of(field)) is None,
        },
{
    match field {
        Some(v) => match value_as_str(v) {
            Some(s) => Some(s.to_owned()),
            None => None,
        },
        None => None,
    }
}

fn read_port(field: Option<&Value>) -> (r: Option<u16>)
    ensures
        r == required_port(doc_of(field)),
{
    match field {
        Some(v) => match value_as_u64(v) {
            Some(n) => if n <= 0xffff {
                Some(n as u16)
            } else {
                None
            },
            None => None,
        },
        None => None,
    }
}

fn read_optional_text(field: Option<&Value>) -> (r: Option<Option<String>>)
    ensures
        match r {
            Some(Some(s)) => optional_text(doc_of(field)) == Some(Some(s@)),
            Some(None) => optional_text(doc_of(field)) == Some(None::<Seq<char>>),
            None => optional_text(doc_of(field)) is None,
        },
{
    match field {
        None => Some(None),
        Some(v) => if value_is_null(v) {
            Some(None)
        } else {
            match value_as_str(v) {
                Some(s) => Some(Some(s.to_owned())),
                None => None,
            }
        },
    }
}

/// What a field holds, where there is one.
pub open spec fn doc_of(field: Option<&Value>) -> Option<JsonDoc> {
    match field {
        Some(v) => Some(json_doc(*v)),
        None => None,
    }
}

/// Reads one entry of a peer list.
pub fn decode_peer(entry: &Value) -> (r: Option<RemotePylonConfig>)
    ensures
        match r {
            Some(p) => decode_entry(json_doc(*entry)) == Some(p@),
            None => decode_entry(json_doc(*entry)) is None,
        },
{
    let address = match field_of(entry, "ip", 0) {
        Some(address) => Some(address),
        None => value_get(entry, "host"),
    };
    let ip = read_text(address);
    let port = read_port(field_of(entry, "port", 1));
    let token = read_text(field_of(entry, "token", 2));
    let name = read_optional_text(field_of(entry, "name", 3));
    let location = read_optional_text(field_of(entry, "location", 4));
    let description = read_optional_text(field_of(entry, "description", 5));
    match (ip, port, token, name, location, description) {
        (Some(ip), Some(port), Some(token), Some(name), Some(location), Some(description)) => Some(
            RemotePylonConfig { ip, port, token, name, location, description },
        ),
        _ => None,
    }
}

/// Reads the peers that an answer reports: every well-formed entry of its
/// `remote_pylons` list, in order, except entries for this instance itself.
/// An answer without such a list reports none.
pub fn extract(body: &Value, self_key: &PeerKey) -> (r: Vec<RemotePylonConfig>)
    ensures
        peer_views(r@) == candidates(json_doc(*body), self_key@),
{
    let mut out: Vec<RemotePylonConfig> = Vec::new();
    let ghost me = self_key@;
    let ghost pick = |entry: JsonDoc| candidate(entry, me);
    let ghost entries = listed_entries(json_doc(*body));
    assert(peer_views(out@) =~= Seq::<PeerView>::empty());
    let listed = match value_get(body, "remote_pylons") {
        Some(list) => value_as_array(list),
        None => None,
    };
    match listed {
        Some(items) => {
            let mut i: usize = 0;
            assert(entries.take(0) =~= Seq::<JsonDoc>::empty());
            while i < items.len()
                invariant
                    i <= items.len(),
                    items@.len() == entries.len(),
                    forall|j: int| 0 <= j < entries.len() ==> json_doc(#[trigger] items@[j]) == entries[j],
                    pick == (|entry: JsonDoc| candidate(entry, me)),
                    me == self_key@,
                    peer_views(out@) == entries.take(i as int).filter_map(pick),
                decreases items.len() - i,
            {
                proof {
                    entries.lemma_filter_map_take_succ(pick, i as int);
                    assert(json_doc(items@[i as int]) == entries[i as int]);
                }
                match decode_peer(&items[i]) {
                    Some(peer) => {
                        if !peer.is_at(&self_key.host, self_key.port) {
                            let ghost shorter = out@;
                            out.push(peer);
                            assert(peer_views(out@) =~= peer_views(shorter).push(peer@));
                        }
                    },
                    None => {},
                }
                i += 1;
            }
            assert(entries.take(items.len() as int) =~= entries);
        },
        None => {
            assert(entries =~= Seq::<JsonDoc>::empty());
        },
    }
    out
}

} // verus!
