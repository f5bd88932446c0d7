//! The server's edge: its command-line settings, and the decision on each
//! accepted connection whether it is admitted.

use crate::resp::types::{RespType, RespValue};
use crate::text::{
    lowercase, parse_u16, parse_u16_text, split_whitespace, str_eq, texts,
    to_lowercase, trim, trimmed, words,
};
use vstd::prelude::*;
use vstd::string::*;

verus! {

/// The port that the server listens on unless another is given.
pub const DEFAULT_PORT: u16 = 6379;

/// The number of clients that may be connected at once unless another is
/// given.
pub const DEFAULT_MAX_CONNECTIONS: usize = 64;

/// For how many seconds an accepted connection waits for a free place.
pub const PERMIT_WAIT_SECS: u64 = 5;

/// After how many seconds of silence, and then how often, a connection is
/// probed.
pub const KEEPALIVE_SECS: u64 = 60;

/// The capacity that a connection's read buffer starts with.
pub const READ_BUFFER_CAPACITY: usize = 8192;

/// Why a connection was not established.
#[derive(Debug)]
pub enum ConnectionError {
    /// No place could be had for the connection: the server shuts down.
    CannotAcquirePermit,
    /// No place became free in time: the server is full.
    Timeout,
    /// Any other fault, with its description.
    Other(String),
}

/// The mathematical value of a [`ConnectionError`].
pub enum ConnectionFault {
    CannotAcquirePermit,
    Timeout,
    Other(Seq<char>),
}

impl ConnectionFault {
    /// The text shown for this fault.
    pub open spec fn message(self) -> Seq<char> {
        match self {
            ConnectionFault::CannotAcquirePermit => "Cannot acquire permit for new connection"@,
            ConnectionFault::Timeout => "Timed out! cannot connect"@,
            ConnectionFault::Other(m) => m,
        }
    }
}

impl View for ConnectionError {
    type V = ConnectionFault;

    open spec fn view(&self) -> ConnectionFault {
        match self {
            ConnectionError::CannotAcquirePermit => ConnectionFault::CannotAcquirePermit,
            ConnectionError::Timeout => ConnectionFault::Timeout,
            ConnectionError::Other(m) => ConnectionFault::Other(m@),
        }
    }
}

impl ConnectionError {
    /// The text shown for this error.
    pub fn message(&self) -> (res: String)
        ensures
            res@ == self@.message(),
    {
        match self {
            ConnectionError::CannotAcquirePermit => String::from_str(
                "Cannot acquire permit for new connection",
            ),
            ConnectionError::Timeout => String::from_str("Timed out! cannot connect"),
            ConnectionError::Other(m) => m.clone(),
        }
    }
}

/// How the wait of an accepted connection for a free place ended.
#[derive(Clone, Copy, Debug, PartialEq, Eq, Structural)]
pub enum PermitOutcome {
    /// A place was had.
    Acquired,
    /// The pool of places was closed.
    Closed,
    /// No place became free in time.
    TimedOut,
}

/// A connection that is turned away.
#[derive(Debug)]
pub struct Refusal {
    /// Why it is turned away.
    pub error: ConnectionError,
    /// What to write to the client before the connection is closed.
    pub notice: Option<RespType>,
}

/// The decision on an accepted connection whose wait for a place ended as
/// given: whether it is admitted, and if not, why and with which notice.
pub open spec fn admission(outcome: PermitOutcome) -> Option<(ConnectionFault, Option<RespValue>)> {
    match outcome {
        PermitOutcome::Acquired => None,
        PermitOutcome::Closed => Some((ConnectionFault::CannotAcquirePermit, None)),
        PermitOutcome::TimedOut => Some(
            (
                ConnectionFault::Timeout,
                Some(RespValue::SimpleError("max number of clients reached"@)),
            ),
        ),
    }
}

/// Decides on an accepted connection. With a place it is admitted. When no
/// place became free in time the client is told that the server is full;
/// when the pool was closed the connection is dropped without a word.
pub fn accept_conn(outcome: PermitOutcome) -> (res: Result<(), Refusal>)
    ensures
        match res {
            Ok(_) => admission(outcome) is None,
            Err(refusal) => admission(outcome) == Some(
                (
                    refusal.error@,
                    match refusal.notice {
                        Some(n) => Some(n@),
                        None => None,
                    },
                ),
            ),
        },
{
    match outcome {
        PermitOutcome::Acquired => Ok(()),
        PermitOutcome::Closed => Err(
            Refusal { error: ConnectionError::CannotAcquirePermit, notice: None },
        ),
        PermitOutcome::TimedOut => Err(
            Refusal {
                error: ConnectionError::Timeout,
                notice: Some(
                    RespType::SimpleError(String::from_str("max number of clients reached")),
                ),
            },
        ),
    }
}

/// The master that the words of a `replicaof` setting name: a host, then a
/// port.
pub open spec fn master_in(parts: Seq<Seq<char>>) -> Result<
    Option<(Seq<char>, nat)>,
    ConnectionFault,
> {
    if parts.len() == 0 {
        Err(
            ConnectionFault::Other(
                "Invalid value for replicaof. replicaof should be in '<MASTER_HOST> <MASTER_PORT>' format"@,
            ),
        )
    } else if parts.len() == 1 {
        Err(ConnectionFault::Other("Master port is not specified in replicaof"@))
    } else {
        match parse_u16_text(parts[1]) {
            None => Err(ConnectionFault::Other("Invalid value for master port in replicaof"@)),
            Some(port) => Ok(Some((parts[0], port))),
        }
    }
}

/// The master that a `replicaof` setting names: none where the setting,
/// trimmed and whatever its case, is `master`; else the host and the port
/// that are its first two words.
pub open spec fn master_of(replica_of: Seq<char>) -> Result<
    Option<(Seq<char>, nat)>,
    ConnectionFault,
> {
    if trimmed(lowercase(replica_of)) == "master"@ {
        Ok(None)
    } else {
        master_in(words(replica_of))
    }
}

/// Whether an executable choice of master is the given mathematical one.
pub open spec fn master_as(
    res: Result<Option<(String, u16)>, ConnectionError>,
    want: Result<Option<(Seq<char>, nat)>, ConnectionFault>,
) -> bool {
    match res {
        Ok(Some((host, port))) => want == Ok::<Option<(Seq<char>, nat)>, ConnectionFault>(
            Some((host@, port as nat)),
        ),
        Ok(None) => want == Ok::<Option<(Seq<char>, nat)>, ConnectionFault>(None),
        Err(e) => want == Err::<Option<(Seq<char>, nat)>, ConnectionFault>(e@),
    }
}

/// The settings that the server is started with.
#[derive(Debug)]
pub struct Cli {
    /// The port to listen on.
    pub port: Option<u16>,
    /// The server's role: `master`, or the host and port of the master to
    /// follow.
    pub replica_of: String,
    /// The number of clients that may be connected at once.
    pub maxclients: Option<usize>,
}

impl Cli {
    /// The port to listen on.
    pub fn listen_port(&self) -> (res: u16)
        ensures
            res == match self.port {
                Some(p) => p,
                None => DEFAULT_PORT,
            },
    {
        match self.port {
            Some(p) => p,
            None => DEFAULT_PORT,
        }
    }

    /// The number of clients that may be connected at once.
    pub fn max_connections(&self) -> (res: usize)
        ensures
            res == match self.maxclients {
                Some(n) => n,
                None => DEFAULT_MAX_CONNECTIONS,
            },
    {
        match self.maxclients {
            Some(n) => n,
            None => DEFAULT_MAX_CONNECTIONS,
        }
    }

    /// The master to follow, as the `replicaof` setting names it; `None` for
    /// a server that is a master itself.
    pub fn parse_master_host_port(&self) -> (res: Result<Option<(String, u16)>, ConnectionError>)
        ensures
            master_as(res, master_of(self.replica_of@)),
    {
        let lower = to_lowercase(self.replica_of.as_str());
        if str_eq(trim(lower.as_str()), "master") {
            return Ok(None);
        }
        let parts = split_whitespace(self.replica_of.as_str());
        Self::master_from_words(&parts)
    }

    /// The master that the words of a `replicaof` setting name.
    pub fn master_from_words(parts: &Vec<String>) -> (res: Result<
        Option<(String, u16)>,
        ConnectionError,
    >)
        ensures
            master_as(res, master_in(texts(parts@))),
    {
        if parts.len() == 0 {
            return Err(
                ConnectionError::Other(
                    String::from_str(
                        "Invalid value for replicaof. replicaof should be in '<MASTER_HOST> <MASTER_PORT>' format",
                    ),
                ),
            );
        }
        if parts.len() == 1 {
            return Err(
                ConnectionError::Other(
                    String::from_str("Master port is not specified in replicaof"),
                ),
            );
        }
        match parse_u16(parts[1].as_str()) {
            Some(port) => Ok(Some((parts[0].clone(), port))),
            None => Err(
                ConnectionError::Other(
                    String::from_str("Invalid value for master port in replicaof"),
                ),
            ),
        }
    }
}

} // verus!
