//! Where OSC messages are sent: the set of peers of the UDP transport.

use vstd::prelude::*;

verus! {

/// The address of a peer, as plain numbers: an IPv4 address with its port,
/// or an IPv6 address with its port, flow information and scope.
#[derive(Clone, Copy, Debug, PartialEq, Eq, Hash, Structural)]
pub enum Peer {
    V4 { octets: u32, port: u16 },
    V6 { segments: u128, port: u16, flowinfo: u32, scope_id: u32 },
}

/// The peers that reports are sent to.
#[derive(Debug)]
pub struct Destinations {
    peers: Vec<Peer>,
}

spec fn peer_set(peers: Seq<Peer>) -> Set<Peer> {
    Set::new(|p: Peer| exists|i: int| 0 <= i < peers.len() && #[trigger] peers[i] == p)
}

proof fn lemma_peer_set_push(peers: Seq<Peer>, p: Peer)
    ensures
        peer_set(peers.push(p)) == peer_set(peers).insert(p),
{
    let longer = peers.push(p);
    assert forall|x: Peer| peer_set(longer).contains(x) == peer_set(peers).insert(p).contains(
        x,
    ) by {
        if peer_set(peers).contains(x) {
            let i = choose|i: int| 0 <= i < peers.len() && #[trigger] peers[i] == x;
            assert(longer[i] == x);
        }
        if p == x {
            assert(longer[peers.len() as int] == x);
        }
    }
}

fn has_peer(peers: &Vec<Peer>, peer: Peer) -> (r: bool)
    ensures
        r == peer_set(peers@).contains(peer),
{
    let mut i: usize = 0;
    while i < peers.len()
        invariant
            i <= peers@.len(),
            forall|j: int| 0 <= j < i ==> peers@[j] != peer,
        decreases peers@.len() - i,
    {
        if peers[i] == peer {
            return true;
        }
        i += 1;
    }
    false
}

impl View for Destinations {
    type V = Set<Peer>;

    closed spec fn view(&self) -> Set<Peer> {
        peer_set(self.peers@)
    }
}

impl Destinations {
    /// No peers.
    pub fn new() -> (d: Destinations)
        ensures
            d@ == Set::<Peer>::empty(),
    {
        let d = Destinations { peers: Vec::new() };
        d
    }

    /// Whether `peer` is among the destinations.
    pub fn contains(&self, peer: Peer) -> (r: bool)
        ensures
            r == self@.contains(peer),
    {
        has_peer(&self.peers, peer)
    }

    /// Makes `peer` a destination. Returns whether it was none before.
    pub fn add(&mut self, peer: Peer) -> (added: bool)
        ensures
            final(self)@ == old(self)@.insert(peer),
            added == !old(self)@.contains(peer),
    {
        if has_peer(&self.peers, peer) {
            false
        } else {
            proof {
                lemma_peer_set_push(self.peers@, peer);
            }
            self.peers.push(peer);
            true
        }
    }

    /// Takes `peer` from the destinations. Returns whether it was one.
    pub fn remove(&mut self, peer: Peer) -> (removed: bool)
        ensures
            final(self)@ == old(self)@.remove(peer),
            removed == old(self)@.contains(peer),
    {
        let mut kept: Vec<Peer> = Vec::new();
        let mut removed = false;
        while self.peers.len() > 0
            invariant
                peer_set(kept@).union(peer_set(self.peers@).remove(peer)) == peer_set(
                    old(self).peers@,
                ).remove(peer),
                removed || peer_set(self.peers@).contains(peer) <==> peer_set(
                    old(self).peers@,
                ).contains(peer),
            decreases self.peers@.len(),
        {
            let ghost before = self.peers@;
            let p = self.peers.pop().unwrap();
            proof {
                assert(before =~= self.peers@.push(p));
                lemma_peer_set_push(self.peers@, p);
            }
            if p == peer {
                removed = true;
            } else {
                proof {
                    lemma_peer_set_push(kept@, p);
                    assert(peer_set(kept@.push(p)).union(peer_set(self.peers@).remove(peer))
                        =~= peer_set(kept@).union(peer_set(before).remove(peer)));
                }
                kept.push(p);
            }
        }
        self.peers = kept;
        removed
    }

    /// The destinations, each once.
    pub fn list(&self) -> (r: Vec<Peer>)
        ensures
            r@.no_duplicates(),
            forall|p: Peer| r@.contains(p) <==> self@.contains(p),
    {
        let mut out: Vec<Peer> = Vec::new();
        let mut i: usize = 0;
        while i < self.peers.len()
            invariant
                i <= self.peers@.len(),
                out@.no_duplicates(),
                forall|p: Peer|
                    peer_set(out@).contains(p) <==> peer_set(self.peers@.take(i as int)).contains(p),
            decreases self.peers@.len() - i,
        {
            let p = self.peers[i];
            proof {
                assert(self.peers@.take(i + 1) =~= self.peers@.take(i as int).push(p));
                lemma_peer_set_push(self.peers@.take(i as int), p);
            }
            if !has_peer(&out, p) {
                proof {
                    lemma_peer_set_push(out@, p);
                }
                out.push(p);
            }
            i += 1;
        }
        proof {
            assert(self.peers@.take(i as int) =~= self.peers@);
            assert forall|p: Peer| out@.contains(p) <==> self@.contains(p) by {
                assert(out@.contains(p) <==> peer_set(out@).contains(p));
            }
        }
        out
    }
}

} // verus!
