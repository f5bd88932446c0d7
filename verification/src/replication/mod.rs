//! What a server knows of replication: its own identifier and offset, the
//! master it follows if it is a replica, and the replicas it feeds if it is
//! a master.

use crate::resp::types::RespType;
use crate::text::{decimal_text, u64_to_string};
use vstd::prelude::*;
use vstd::string::*;

pub mod master;
pub mod peer;

use peer::{is_alphanumeric_id, random_alphanumeric, PeersState, ReplicaPeers};

verus! {

/// The length of a server's replication identifier.
pub const REPLICATION_ID_LEN: usize = 40;

/// The replication side of a server as a mathematical value.
pub struct ReplicationState {
    /// The server's identifier.
    pub id: Seq<char>,
    /// The replication offset.
    pub offset: nat,
    /// The master's host and port, for a replica.
    pub master: Option<(Seq<char>, nat)>,
    /// The replicas that a master feeds.
    pub replicas: PeersState,
}

impl ReplicationState {
    /// Whether the server follows a master.
    pub open spec fn is_slave(self) -> bool {
        self.master is Some
    }

    /// The replication section of the server's info, one `key:value` line
    /// after another.
    pub open spec fn info(self) -> Seq<char> {
        if self.is_slave() {
            "role:slave"@
        } else {
            "role:master\n"@ + "master_replid:"@ + self.id + "\n"@ + "master_repl_offset:"@
                + decimal_text(self.offset) + "\n"@
        }
    }
}

/// The replication side of a server.
#[derive(Debug)]
pub struct Replication {
    id: String,
    offset: u64,
    master_host: Option<String>,
    master_port: Option<u16>,
    replica_peers: ReplicaPeers,
}

impl View for Replication {
    type V = ReplicationState;

    closed spec fn view(&self) -> ReplicationState {
        ReplicationState {
            id: self.id@,
            offset: self.offset as nat,
            master: match (self.master_host, self.master_port) {
                (Some(host), Some(port)) => Some((host@, port as nat)),
                _ => None,
            },
            replicas: self.replica_peers@,
        }
    }
}

impl Replication {
    /// The identifier assigned to the server.
    pub fn id(&self) -> (res: &String)
        ensures
            res@ == self@.id,
    {
        &self.id
    }

    /// A fresh random replication identifier of forty letters and digits.
    pub fn generate_id() -> (res: String)
        ensures
            is_alphanumeric_id(res@, 40),
    {
        random_alphanumeric(REPLICATION_ID_LEN)
    }

    /// The replication side of a server with the given identifier: a replica
    /// of the master at the host and port, or a master without replicas.
    pub fn new(id: String, master_host_port: Option<(String, u16)>) -> (res: Replication)
        ensures
            res@.id == id@,
            res@.offset == 0,
            res@.master == match master_host_port {
                Some((host, port)) => Some((host@, port as nat)),
                None => None,
            },
            res@.replicas.peers.len() == 0,
            res@.replicas.pending.len() == 0,
    {
        let (master_host, master_port) = match master_host_port {
            Some((h, p)) => (Some(h), Some(p)),
            None => (None, None),
        };
        Replication { id, offset: 0, master_host, master_port, replica_peers: ReplicaPeers::new() }
    }

    /// Whether the server follows a master.
    pub fn is_slave(&self) -> (res: bool)
        ensures
            res == self@.is_slave(),
    {
        self.master_host.is_some() && self.master_port.is_some()
    }

    /// The replication section of the server's info.
    pub fn info_str(&self) -> (res: String)
        ensures
            res@ == self@.info(),
    {
        if self.is_slave() {
            String::from_str("role:slave")
        } else {
            let mut s = String::from_str("role:master\n");
            s.append("master_replid:");
            s.append(self.id.as_str());
            s.append("\n");
            s.append("master_repl_offset:");
            s.append(u64_to_string(self.offset).as_str());
            s.append("\n");
            s
        }
    }

    /// Adds the number of bytes written to the replication stream to the
    /// offset, which wraps around at 64 bits.
    pub fn incr_offset(&mut self, incr_by: u64)
        ensures
            final(self)@ == (ReplicationState {
                offset: ((old(self)@.offset + incr_by) % 0x1_0000_0000_0000_0000) as nat,
                ..old(self)@
            }),
    {
        self.offset = self.offset.wrapping_add(incr_by);
    }

    /// Registers a new replica and returns its identifier.
    pub fn add_replica_peer(&mut self) -> (res: String)
        ensures
            is_alphanumeric_id(res@, 10),
            final(self)@ == (ReplicationState {
                replicas: PeersState {
                    peers: old(self)@.replicas.peers.push(res@),
                    pending: old(self)@.replicas.pending,
                },
                ..old(self)@
            }),
    {
        self.replica_peers.add_peer()
    }

    /// Removes the replica with the identifier; says whether there was one.
    pub fn remove_replica_peer(&mut self, id: &str) -> (res: bool)
        ensures
            res == old(self)@.replicas.peers.contains(id@),
            final(self)@ == (ReplicationState {
                replicas: old(self)@.replicas.after_remove(id@),
                ..old(self)@
            }),
    {
        self.replica_peers.remove_peer(id)
    }

    /// Hands a value over for broadcast to all replicas and returns the
    /// number of replicas it will go to.
    pub fn write_to_replicas(&mut self, resp_data: RespType) -> (res: usize)
        ensures
            res == old(self)@.replicas.peers.len(),
            final(self)@ == (ReplicationState {
                replicas: old(self)@.replicas.after_replicate(resp_data@),
                ..old(self)@
            }),
    {
        let n = self.replica_peers.peer_count();
        self.replica_peers.replicate(resp_data);
        n
    }

    /// Takes the values that wait to be sent to the replicas, oldest first.
    pub fn take_pending(&mut self) -> (res: Vec<RespType>)
        ensures
            crate::resp::types::views_of(res@) == old(self)@.replicas.pending,
            final(self)@ == (ReplicationState {
                replicas: PeersState {
                    peers: old(self)@.replicas.peers,
                    pending: Seq::empty(),
                },
                ..old(self)@
            }),
    {
        self.replica_peers.take_pending()
    }
}

} // verus!
