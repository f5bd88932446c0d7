//! An in-memory key/value cache that speaks RESP2: the wire codec, the keyspace
//! store with its expiry index, the command model and the replication plane,
//! each stated as a contract over a mathematical model and proved.

pub mod replication;
pub mod resp;
pub mod server;
pub mod storage;
pub mod text;
pub mod clock;
pub mod command;
pub mod handler;
