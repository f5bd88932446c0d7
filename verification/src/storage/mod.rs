//! The keyspace store, the events it publishes, and the expiry index that
//! evicts keys whose deadline has passed.

use crate::clock::Timestamp;
use vstd::prelude::*;
use vstd::string::*;

pub mod db;
pub mod ttl;

verus! {

/// What the store tells the expiry index.
#[derive(Debug)]
pub enum DBEvent {
    /// A key was set with a deadline: the deadline and the key's name.
    SetKeyExpiry((Timestamp, String)),
    /// Keys that carried a deadline were deleted: each with its deadline.
    BulkDelKeys(Vec<(Timestamp, String)>),
}

/// The mathematical value of a [`DBEvent`].
pub enum DBEventView {
    SetKeyExpiry(int, Seq<char>),
    BulkDelKeys(Seq<(int, Seq<char>)>),
}

/// The deadlines and names that a list of pairs stands for.
pub open spec fn pairs_view(pairs: Seq<(Timestamp, String)>) -> Seq<(int, Seq<char>)> {
    Seq::new(pairs.len(), |i: int| (pairs[i].0@, pairs[i].1@))
}

impl View for DBEvent {
    type V = DBEventView;

    open spec fn view(&self) -> DBEventView {
        match self {
            DBEvent::SetKeyExpiry(pair) => DBEventView::SetKeyExpiry(pair.0@, pair.1@),
            DBEvent::BulkDelKeys(pairs) => DBEventView::BulkDelKeys(pairs_view(pairs@)),
        }
    }
}

/// Why an operation on the store failed.
#[derive(Debug)]
pub enum DBError {
    /// The key holds a value of another kind than the operation works on.
    WrongType,
    /// Any other fault, with its description.
    Other(String),
}

/// The mathematical value of a [`DBError`].
pub enum DBFault {
    WrongType,
    Other(Seq<char>),
}

impl DBFault {
    /// The text shown for this fault.
    pub open spec fn message(self) -> Seq<char> {
        match self {
            DBFault::WrongType =>
                "WRONGTYPE Operation against a key holding the wrong kind of value"@,
            DBFault::Other(m) => m,
        }
    }
}

impl View for DBError {
    type V = DBFault;

    open spec fn view(&self) -> DBFault {
        match self {
            DBError::WrongType => DBFault::WrongType,
            DBError::Other(m) => DBFault::Other(m@),
        }
    }
}

impl DBError {
    /// The text shown for this error.
    pub fn message(&self) -> (res: String)
        ensures
            res@ == self@.message(),
    {
        match self {
            DBError::WrongType => String::from_str(
                "WRONGTYPE Operation against a key holding the wrong kind of value",
            ),
            DBError::Other(m) => m.clone(),
        }
    }
}

} // verus!
