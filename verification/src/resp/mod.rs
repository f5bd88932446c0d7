//! The RESP2 wire format: values, their byte encoding, a streaming parser,
//! and the per-connection framing of command arrays.

use vstd::prelude::*;
use vstd::string::*;

pub mod buffer;
pub mod frame;
pub mod types;

verus! {

/// Why a byte buffer did not yield a RESP value.
#[derive(Debug)]
pub enum RespError {
    /// The buffer holds only the beginning of a value: read more and retry.
    Incomplete,
    /// The first byte names no RESP type that is accepted here.
    InvalidDataTypePrefix,
    /// A bulk string is malformed.
    InvalidBulkString(String),
    /// An array is malformed.
    InvalidArray(String),
    /// Any other fault, with its description.
    Other(String),
}

/// The mathematical value of a [`RespError`].
pub enum RespFault {
    Incomplete,
    InvalidDataTypePrefix,
    InvalidBulkString(Seq<char>),
    InvalidArray(Seq<char>),
    Other(Seq<char>),
}

impl RespFault {
    /// The text shown for this fault.
    pub open spec fn message(self) -> Seq<char> {
        match self {
            RespFault::Incomplete => "Incomplete RESP value"@,
            RespFault::InvalidDataTypePrefix => "Invalid RESP data type prefix"@,
            RespFault::InvalidBulkString(m) => m,
            RespFault::InvalidArray(m) => m,
            RespFault::Other(m) => m,
        }
    }
}

impl View for RespError {
    type V = RespFault;

    open spec fn view(&self) -> RespFault {
        match self {
            RespError::Incomplete => RespFault::Incomplete,
            RespError::InvalidDataTypePrefix => RespFault::InvalidDataTypePrefix,
            RespError::InvalidBulkString(m) => RespFault::InvalidBulkString(m@),
            RespError::InvalidArray(m) => RespFault::InvalidArray(m@),
            RespError::Other(m) => RespFault::Other(m@),
        }
    }
}

impl RespError {
    /// The text shown for this error.
    pub fn message(&self) -> (res: String)
        ensures
            res@ == self@.message(),
    {
        match self {
            RespError::Incomplete => String::from_str("Incomplete RESP value"),
            RespError::InvalidDataTypePrefix => String::from_str("Invalid RESP data type prefix"),
            RespError::InvalidBulkString(m) => m.clone(),
            RespError::InvalidArray(m) => m.clone(),
            RespError::Other(m) => m.clone(),
        }
    }
}

} // verus!
