//! `LRANGE key start stop`.

use super::{
    bulk_arg, bulk_array, bulk_strings, bulk_text, error, fault, read_as, CommandError,
    CommandFault,
};
use crate::resp::types::{views_of, RespType, RespValue};
use crate::storage::db::{DBState, DB};
use crate::text::{parse_i64, parse_i64_text};
use vstd::prelude::*;
use vstd::string::*;

verus! {

/// The `LRANGE` command.
#[derive(Debug)]
pub struct LRange {
    key: String,
    start_idx: i64,
    stop_idx: i64,
}

/// The mathematical value of an [`LRange`].
pub struct LRangeView {
    pub key: Seq<char>,
    pub start: int,
    pub stop: int,
}

impl View for LRange {
    type V = LRangeView;

    closed spec fn view(&self) -> LRangeView {
        LRangeView { key: self.key@, start: self.start_idx as int, stop: self.stop_idx as int }
    }
}

impl LRangeView {
    /// The command that the arguments spell: a key, then the first and the
    /// last index as signed decimal numbers, each argument a bulk string.
    pub open spec fn read(args: Seq<RespValue>) -> Result<LRangeView, CommandFault> {
        if args.len() < 3 {
            Err(fault("Wrong number of arguments specified for 'LRANGE' command"@))
        } else {
            match bulk_text(args[0]) {
                None => Err(fault("Invalid argument. Key must be a bulk string"@)),
                Some(key) => match Self::read_index(args[1], "Start index should be an integer"@) {
                    Err(e) => Err(e),
                    Ok(start) => match Self::read_index(
                        args[2],
                        "Stop index should be an integer"@,
                    ) {
                        Err(e) => Err(e),
                        Ok(stop) => Ok(LRangeView { key, start, stop }),
                    },
                },
            }
        }
    }

    /// The index that an argument spells.
    pub open spec fn read_index(arg: RespValue, complaint: Seq<char>) -> Result<int, CommandFault> {
        match bulk_text(arg) {
            None => Err(fault("Invalid argument. Value must be an integer in bulk string format"@)),
            Some(t) => match parse_i64_text(t) {
                Some(n) => Ok(n),
                None => Err(fault(complaint)),
            },
        }
    }

    /// The reply: the selected items as an array of bulk strings, or an
    /// error where the key holds a string.
    pub open spec fn reply(self, db: DBState) -> RespValue {
        match db.lrange(self.key, self.start, self.stop) {
            Ok(items) => RespValue::Array(bulk_strings(items)),
            Err(e) => RespValue::SimpleError(e.message()),
        }
    }
}

/// Reads the index that an argument spells.
fn index_arg(args: &Vec<RespType>, i: usize, complaint: &str) -> (res: Result<i64, CommandError>)
    requires
        i < args@.len(),
    ensures
        match res {
            Ok(n) => LRangeView::read_index(args@[i as int]@, complaint@) == Ok::<
                int,
                CommandFault,
            >(n as int),
            Err(e) => LRangeView::read_index(args@[i as int]@, complaint@) == Err::<
                int,
                CommandFault,
            >(e@),
        },
{
    match bulk_arg(args, i) {
        None => Err(error("Invalid argument. Value must be an integer in bulk string format")),
        Some(t) => match parse_i64(t.as_str()) {
            Some(n) => Ok(n),
            None => Err(error(complaint)),
        },
    }
}

impl LRange {
    /// Reads the command from its arguments.
    pub fn with_args(args: Vec<RespType>) -> (res: Result<LRange, CommandError>)
        ensures
            read_as(res, LRangeView::read(views_of(args@))),
    {
        if args.len() < 3 {
            return Err(error("Wrong number of arguments specified for 'LRANGE' command"));
        }
        let key = match bulk_arg(&args, 0) {
            Some(key) => key,
            None => {
                return Err(error("Invalid argument. Key must be a bulk string"));
            },
        };
        let start_idx = match index_arg(&args, 1, "Start index should be an integer") {
            Ok(n) => n,
            Err(e) => {
                return Err(e);
            },
        };
        let stop_idx = match index_arg(&args, 2, "Stop index should be an integer") {
            Ok(n) => n,
            Err(e) => {
                return Err(e);
            },
        };
        Ok(LRange { key, start_idx, stop_idx })
    }

    /// Carries the command out on the store.
    pub fn apply(&self, db: &DB) -> (res: RespType)
        ensures
            res@ == self@.reply(db@),
    {
        match db.lrange(self.key.clone(), self.start_idx, self.stop_idx) {
            Ok(items) => bulk_array(items),
            Err(e) => RespType::SimpleError(e.message()),
        }
    }
}

} // verus!
