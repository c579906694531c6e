use vstd::prelude::*;

use crate::address::PeerAddress;

verus! {

/// The peers after `p` has been seen: unchanged when `p` is already among
/// them, else `p` appended at the end.
pub open spec fn with_peer(peers: Seq<PeerAddress>, p: PeerAddress) -> Seq<PeerAddress> {
    if peers.contains(p) {
        peers
    } else {
        peers.push(p)
    }
}

/// A message from `p` reaches every peer registered before it and `p`
/// itself, and no one else; the peers registered before it come first, in
/// their order.
pub proof fn lemma_broadcast_reaches_registered(peers: Seq<PeerAddress>, p: PeerAddress)
    ensures
        with_peer(peers, p).contains(p),
        forall|q: PeerAddress| peers.contains(q) ==> with_peer(peers, p).contains(q),
        forall|q: PeerAddress| with_peer(peers, p).contains(q) ==> peers.contains(q) || q == p,
        with_peer(peers, p).subrange(0, peers.len() as int) == peers,
{
    if !peers.contains(p) {
        assert(peers.push(p)[peers.len() as int] == p);
        assert forall|q: PeerAddress| peers.contains(q) implies peers.push(p).contains(q) by {
            let j = choose|j: int| 0 <= j < peers.len() && peers[j] == q;
            assert(peers.push(p)[j] == q);
        }
        assert forall|q: PeerAddress| peers.push(p).contains(q) implies peers.contains(q) || q
            == p by {
            let j = choose|j: int| 0 <= j < peers.len() + 1 && peers.push(p)[j] == q;
            if j < peers.len() {
                assert(peers[j] == q);
            }
        }
        assert(peers.push(p).subrange(0, peers.len() as int) =~= peers);
    } else {
        assert(peers.subrange(0, peers.len() as int) =~= peers);
    }
}

/// Seeing a peer again leaves the registry as it is, and a registry without
/// duplicates stays without them.
pub proof fn lemma_with_peer_idempotent(peers: Seq<PeerAddress>, p: PeerAddress)
    ensures
        with_peer(with_peer(peers, p), p) == with_peer(peers, p),
        peers.no_duplicates() ==> with_peer(peers, p).no_duplicates(),
{
    lemma_broadcast_reaches_registered(peers, p);
    if peers.no_duplicates() && !peers.contains(p) {
        let s = peers.push(p);
        assert forall|i: int, j: int| 0 <= i < s.len() && 0 <= j < s.len() && i != j implies s[i]
            != s[j] by {
            if i < peers.len() && j < peers.len() {
            } else if i < peers.len() {
                assert(peers.contains(s[i]));
            } else {
                assert(peers.contains(s[j]));
            }
        }
    }
}

/// The peers a relay has heard from, each once, in the order first seen.
pub struct PeerRegistry {
    peers: Vec<PeerAddress>,
}

impl View for PeerRegistry {
    type V = Seq<PeerAddress>;

    closed spec fn view(&self) -> Seq<PeerAddress> {
        self.peers@
    }
}

impl PeerRegistry {
    /// No address is registered twice.
    pub open spec fn wf(&self) -> bool {
        self@.no_duplicates()
    }

    pub fn new() -> (r: PeerRegistry)
        ensures
            r@ == Seq::<PeerAddress>::empty(),
            r.wf(),
    {
        PeerRegistry { peers: Vec::new() }
    }

    pub fn len(&self) -> (r: usize)
        ensures
            r == self@.len(),
    {
        self.peers.len()
    }

    /// The peer registered in position `i`.
    pub fn get(&self, i: usize) -> (r: PeerAddress)
        requires
            i < self@.len(),
        ensures
            r == self@[i as int],
    {
        self.peers[i]
    }

    pub fn contains(&self, p: &PeerAddress) -> (r: bool)
        ensures
            r == self@.contains(*p),
    {
        let mut i: usize = 0;
        while i < self.peers.len()
            invariant
                i <= self.peers@.len(),
                forall|j: int| 0 <= j < i ==> self.peers@[j] != *p,
            decreases self.peers@.len() - i,
        {
            if self.peers[i] == *p {
                return true;
            }
            i += 1;
        }
        false
    }

    /// Registers `p` unless it is already registered; tells whether it was
    /// new.
    pub fn add(&mut self, p: PeerAddress) -> (r: bool)
        requires
            old(self).wf(),
        ensures
            final(self).wf(),
            final(self)@ == with_peer(old(self)@, p),
            r == !old(self)@.contains(p),
    {
        if self.contains(&p) {
            false
        } else {
            self.peers.push(p);
            true
        }
    }

    /// The registered peers, in registration order.
    pub fn to_vec(&self) -> (r: Vec<PeerAddress>)
        ensures
            r@ == self@,
    {
        self.peers.clone()
    }
}

} // verus!
