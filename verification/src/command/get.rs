//! `GET key`.

use super::{bulk_arg, bulk_text, error, fault, read_as, CommandError, CommandFault};
use crate::resp::types::{views_of, RespType, RespValue};
use crate::storage::db::{DBState, DB};
use vstd::prelude::*;
use vstd::string::*;

verus! {

/// The `GET` command.
#[derive(Debug)]
pub struct Get {
    /// The key to look up.
    key: String,
}

/// The mathematical value of a [`Get`].
pub struct GetView {
    pub key: Seq<char>,
}

impl View for Get {
    type V = GetView;

    closed spec fn view(&self) -> GetView {
        GetView { key: self.key@ }
    }
}

impl GetView {
    /// The command that the arguments spell: the first argument is the key,
    /// and has to be a bulk string.
    pub open spec fn read(args: Seq<RespValue>) -> Result<GetView, CommandFault> {
        if args.len() == 0 {
            Err(fault("Wrong number of arguments specified for 'GET' command"@))
        } else {
            match bulk_text(args[0]) {
                Some(key) => Ok(GetView { key }),
                None => Err(fault("Invalid argument. Key must be a bulk string"@)),
            }
        }
    }

    /// The reply: the string under the key as a bulk string, the null bulk
    /// string where the key holds nothing, an error where it holds a list.
    pub open spec fn reply(self, db: DBState) -> RespValue {
        match db.get(self.key) {
            Ok(Some(s)) => RespValue::BulkString(s),
            Ok(None) => RespValue::NullBulkString,
            Err(e) => RespValue::SimpleError(e.message()),
        }
    }
}

impl Get {
    /// Reads the command from its arguments.
    pub fn with_args(args: Vec<RespType>) -> (res: Result<Get, CommandError>)
        ensures
            read_as(res, GetView::read(views_of(args@))),
    {
        if args.len() == 0 {
            return Err(error("Wrong number of arguments specified for 'GET' command"));
        }
        match bulk_arg(&args, 0) {
            Some(key) => Ok(Get { key }),
            None => Err(error("Invalid argument. Key must be a bulk string")),
        }
    }

    /// Carries the command out on the store.
    pub fn apply(&self, db: &DB) -> (res: RespType)
        ensures
            res@ == self@.reply(db@),
    {
        match db.get(self.key.clone()) {
            Ok(val) => match val {
                Some(s) => RespType::BulkString(s),
                None => RespType::NullBulkString,
            },
            Err(e) => RespType::SimpleError(e.message()),
        }
    }
}

} // verus!
