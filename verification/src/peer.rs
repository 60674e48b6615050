//! A node of the cluster.

use vstd::prelude::*;
use vstd::std_specs::cmp::PartialEqSpecImpl;
use vstd::std_specs::convert::FromSpecImpl;

use crate::pb;

verus! {

/// What a peer is: its identifier and its address.
pub struct PeerView {
    pub id: u64,
    pub addr: Seq<char>,
}

/// A node of the cluster.
#[derive(Debug, Default, Eq, Hash)]
pub struct Peer {
    /// Node identifier. Unique in a cluster.
    pub id: u64,
    pub addr: String,
}

impl View for Peer {
    type V = PeerView;

    open spec fn view(&self) -> PeerView {
        PeerView { id: self.id, addr: self.addr@ }
    }
}

impl DeepView for Peer {
    type V = PeerView;

    open spec fn deep_view(&self) -> PeerView {
        self@
    }
}

impl Clone for Peer {
    fn clone(&self) -> (res: Self)
        ensures
            res == *self,
    {
        Peer { id: self.id, addr: self.addr.clone() }
    }
}

impl PartialEqSpecImpl for Peer {
    open spec fn obeys_eq_spec() -> bool {
        true
    }

    open spec fn eq_spec(&self, other: &Self) -> bool {
        self@ == other@
    }
}

impl PartialEq for Peer {
    fn eq(&self, other: &Self) -> (res: bool) {
        self.id == other.id && self.addr == other.addr
    }
}

impl FromSpecImpl<pb::Peer> for Peer {
    open spec fn obeys_from_spec() -> bool {
        true
    }

    open spec fn from_spec(peer: pb::Peer) -> Self {
        Peer { id: peer.id, addr: peer.addr }
    }
}

impl From<pb::Peer> for Peer {
    fn from(peer: pb::Peer) -> (res: Self) {
        Peer { id: peer.id, addr: peer.addr }
    }
}

impl FromSpecImpl<Peer> for pb::Peer {
    open spec fn obeys_from_spec() -> bool {
        true
    }

    open spec fn from_spec(peer: Peer) -> Self {
        pb::Peer { id: peer.id, addr: peer.addr }
    }
}

impl From<Peer> for pb::Peer {
    fn from(peer: Peer) -> (res: Self) {
        pb::Peer { id: peer.id, addr: peer.addr }
    }
}

impl Peer {
    pub fn new(id: u64, addr: &str) -> (res: Self)
        ensures
            res@ == (PeerView { id, addr: addr@ }),
    {
        Peer { id, addr: addr.to_owned() }
    }
}

} // verus!
