//! The master's registry of replicas, and the values that wait to be sent
//! to them.

use crate::resp::types::{views_of, RespType, RespValue};
use crate::text::str_eq;
use rand::distributions::{Alphanumeric, DistString};
use vstd::prelude::*;
use vstd::string::*;

verus! {

/// Whether a character is an ASCII letter or digit.
pub open spec fn is_alphanumeric(c: char) -> bool {
    ('0' <= c <= '9') || ('A' <= c <= 'Z') || ('a' <= c <= 'z')
}

/// Whether a text is made of `len` ASCII letters and digits.
pub open spec fn is_alphanumeric_id(text: Seq<char>, len: nat) -> bool {
    &&& text.len() == len
    &&& forall|i: int| 0 <= i < text.len() ==> is_alphanumeric(#[trigger] text[i])
}

/// Calls `DistString::sample_string` on `rand`'s `Alphanumeric` with the
/// thread's generator: a string of `len` characters, each drawn from the
/// ASCII letters and digits. Which ones is left to chance.
#[verifier::external_body]
pub(crate) fn random_alphanumeric(len: usize) -> (res: String)
    ensures
        is_alphanumeric_id(res@, len as nat),
{
    Alphanumeric.sample_string(&mut rand::thread_rng(), len)
}

/// The length of a peer's identifier.
pub const PEER_ID_LEN: usize = 10;

/// One replica as the master knows it.
#[derive(Debug)]
pub struct Peer {
    id: String,
}

impl View for Peer {
    type V = Seq<char>;

    closed spec fn view(&self) -> Seq<char> {
        self.id@
    }
}

impl Peer {
    /// A peer under a fresh random identifier of ten letters and digits.
    pub fn new() -> (res: Peer)
        ensures
            is_alphanumeric_id(res@, 10),
    {
        Peer { id: random_alphanumeric(PEER_ID_LEN) }
    }

    /// The peer's identifier.
    pub fn id(&self) -> (res: &String)
        ensures
            res@ == self@,
    {
        &self.id
    }
}

/// The identifiers that a list of peers carries.
pub open spec fn ids_of(peers: Seq<Peer>) -> Seq<Seq<char>> {
    Seq::new(peers.len(), |i: int| peers[i]@)
}

/// The registry as a mathematical value.
pub struct PeersState {
    /// The identifiers of the connected replicas, in the order they joined.
    pub peers: Seq<Seq<char>>,
    /// The values published and not yet taken for sending, oldest first.
    pub pending: Seq<RespValue>,
}

impl PeersState {
    /// The registry after a value was handed over for broadcast: it is
    /// published once if at least one replica is connected, else dropped.
    pub open spec fn after_replicate(self, data: RespValue) -> PeersState {
        if self.peers.len() == 0 {
            self
        } else {
            PeersState { peers: self.peers, pending: self.pending.push(data) }
        }
    }

    /// The registry after the first peer with the identifier left.
    pub open spec fn after_remove(self, id: Seq<char>) -> PeersState {
        match self.peers.index_of_first(id) {
            Some(i) => PeersState { peers: self.peers.remove(i), pending: self.pending },
            None => self,
        }
    }
}

/// The list of connected replicas with the values that wait to be sent to
/// all of them.
#[derive(Debug)]
pub struct ReplicaPeers {
    peers: Vec<Peer>,
    pending: Vec<RespType>,
}

impl View for ReplicaPeers {
    type V = PeersState;

    closed spec fn view(&self) -> PeersState {
        PeersState { peers: ids_of(self.peers@), pending: views_of(self.pending@) }
    }
}

impl ReplicaPeers {
    /// A registry without replicas.
    pub fn new() -> (res: ReplicaPeers)
        ensures
            res@.peers.len() == 0,
            res@.pending.len() == 0,
    {
        ReplicaPeers { peers: Vec::new(), pending: Vec::new() }
    }

    /// Registers a new replica under a fresh identifier, which is returned.
    pub fn add_peer(&mut self) -> (res: String)
        ensures
            is_alphanumeric_id(res@, 10),
            final(self)@.peers == old(self)@.peers.push(res@),
            final(self)@.pending == old(self)@.pending,
    {
        let peer = Peer::new();
        let id = peer.id.clone();
        self.peers.push(peer);
        assert(ids_of(self.peers@) =~= ids_of(old(self).peers@).push(id@));
        id
    }

    /// Removes the first replica with the identifier; says whether there was
    /// one.
    pub fn remove_peer(&mut self, id: &str) -> (res: bool)
        ensures
            res == old(self)@.peers.contains(id@),
            final(self)@ == old(self)@.after_remove(id@),
    {
        let ghost ids = ids_of(self.peers@);
        let mut i: usize = 0;
        while i < self.peers.len()
            invariant
                i <= self.peers.len(),
                *self == *old(self),
                ids == ids_of(self.peers@),
                forall|j: int| 0 <= j < i ==> ids[j] != id@,
            decreases self.peers.len() - i,
        {
            if str_eq(self.peers[i].id.as_str(), id) {
                proof {
                    assert(ids[i as int] == id@);
                    ids.index_of_first_ensures(id@);
                }
                self.peers.remove(i);
                assert(ids_of(self.peers@) =~= ids.remove(i as int));
                return true;
            }
            i += 1;
        }
        proof {
            ids.index_of_first_ensures(id@);
        }
        false
    }

    /// Hands a value over for broadcast to all replicas. With no replica
    /// connected it is dropped, so that nothing piles up.
    pub fn replicate(&mut self, resp_data: RespType)
        ensures
            final(self)@ == old(self)@.after_replicate(resp_data@),
    {
        if self.peers.len() == 0 {
            return ;
        }
        let ghost before = views_of(self.pending@);
        self.pending.push(resp_data);
        assert(views_of(self.pending@) =~= before.push(resp_data@));
    }

    /// The number of connected replicas.
    pub fn peer_count(&self) -> (res: usize)
        ensures
            res == self@.peers.len(),
    {
        self.peers.len()
    }

    /// Takes the values that wait to be sent, oldest first.
    pub fn take_pending(&mut self) -> (res: Vec<RespType>)
        ensures
            views_of(res@) == old(self)@.pending,
            final(self)@ == (PeersState { peers: old(self)@.peers, pending: Seq::empty() }),
    {
        let mut out: Vec<RespType> = Vec::new();
        core::mem::swap(&mut out, &mut self.pending);
        assert(views_of(self.pending@) =~= Seq::<RespValue>::empty());
        out
    }
}

} // verus!
