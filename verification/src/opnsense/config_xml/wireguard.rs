//! `<OPNsense><wireguard>`: whether WireGuard is on, and the names of its
//! peers by public key.
use vstd::prelude::*;

use super::enabled::{EnabledFlag, MvcGeneral};
use crate::text::{chars_of, eq_chars};

verus! {

pub struct WireguardSection {
    pub general: MvcGeneral,
    pub client: WireguardClientHolder,
}

pub struct WireguardClientHolder {
    pub clients: WireguardPeers,
}

pub struct WireguardPeers {
    pub peers: Vec<WireguardPeer>,
}

pub struct WireguardPeer {
    pub enabled: EnabledFlag,
    pub name: Option<String>,
    pub pubkey: Option<String>,
}

/// The peer the name is taken from: the first enabled one with this key.
pub open spec fn peer_matches(p: WireguardPeer, pubkey: Seq<char>) -> bool {
    p.enabled.0 == Some(true) && (p.pubkey matches Some(k) && k@ == pubkey)
}

/// The name of the first enabled peer with this public key (none when that
/// peer has no name, or there is no such peer).
pub open spec fn peer_name_spec(peers: Seq<WireguardPeer>, pubkey: Seq<char>) -> Option<Seq<char>>
    decreases peers.len(),
{
    if peers.len() == 0 {
        None
    } else if peer_matches(peers[0], pubkey) {
        match peers[0].name {
            Some(n) => Some(n@),
            None => None,
        }
    } else {
        peer_name_spec(peers.drop_first(), pubkey)
    }
}

impl WireguardSection {
    pub fn is_enabled_or_present(&self) -> (r: bool)
        ensures
            r == (self.general.enabled.0 != Some(false)),
    {
        self.general.is_enabled_or_present()
    }

    pub fn find_peer_name(&self, pubkey: &str) -> (r: Option<&str>)
        ensures
            r matches Some(n) ==> peer_name_spec(self.client.clients.peers@, pubkey@) == Some(n@),
            r is None ==> peer_name_spec(self.client.clients.peers@, pubkey@) is None,
    {
        let peers = &self.client.clients.peers;
        let key = chars_of(pubkey);
        let mut i: usize = 0;
        assert(peers@.skip(0) =~= peers@);
        while i < peers.len()
            invariant
                i <= peers.len(),
                key@ == pubkey@,
                peers@ == self.client.clients.peers@,
                peer_name_spec(peers@, pubkey@) == peer_name_spec(peers@.skip(i as int), pubkey@),
            decreases peers.len() - i,
        {
            let p = &peers[i];
            assert(peers@.skip(i as int)[0] == *p);
            assert(peers@.skip(i as int).drop_first() == peers@.skip(i + 1));
            let matched = p.enabled.is_enabled() && match &p.pubkey {
                Some(k) => eq_chars(chars_of(k.as_str()).as_slice(), key.as_slice()),
                None => false,
            };
            assert(matched == peer_matches(*p, pubkey@));
            if matched {
                assert(peers@.skip(i as int).len() > 0);
                assert(peer_name_spec(peers@.skip(i as int), pubkey@) == match p.name {
                    Some(n) => Some(n@),
                    None => None::<Seq<char>>,
                });
                return match &p.name {
                    Some(n) => Some(n.as_str()),
                    None => None,
                };
            }
            i = i + 1;
        }
        None
    }
}

} // verus!
