//! `RPUSH key value [value ...]`.

use super::{
    all_bulk, build_frame, bulk_arg, bulk_args_from, bulk_text, bulk_texts, count_reply, error,
    fault, frame_of, integer_of, read_as, CommandError, CommandFault,
};
use crate::resp::types::{views_of, RespType, RespValue};
use crate::storage::db::{DBState, DB};
use crate::storage::DBFault;
use crate::text::{clone_strings, texts};
use vstd::prelude::*;
use vstd::string::*;

verus! {

/// The `RPUSH` command.
#[derive(Debug)]
pub struct RPush {
    key: String,
    values: Vec<String>,
}

/// The mathematical value of a [`RPush`].
pub struct RPushView {
    pub key: Seq<char>,
    pub values: Seq<Seq<char>>,
}

impl View for RPush {
    type V = RPushView;

    closed spec fn view(&self) -> RPushView {
        RPushView { key: self.key@, values: texts(self.values@) }
    }
}

impl RPushView {
    /// The command that the arguments spell: a key, then one value or more,
    /// each a bulk string.
    pub open spec fn read(args: Seq<RespValue>) -> Result<RPushView, CommandFault> {
        if args.len() < 2 {
            Err(fault("Wrong number of arguments specified for 'RPUSH' command"@))
        } else {
            match bulk_text(args[0]) {
                None => Err(fault("Invalid argument. Key must be a bulk string"@)),
                Some(key) => if all_bulk(args, 1) {
                    Ok(RPushView { key, values: bulk_texts(args, 1) })
                } else {
                    Err(fault("Invalid argument. Value must be a bulk string"@))
                },
            }
        }
    }

    /// The reply: the length of the list after the push, or an error where
    /// the key holds a string.
    pub open spec fn reply(self, db: DBState) -> RespValue {
        if db.takes_list(self.key) {
            count_reply(self.after(db).list_at(self.key).len())
        } else {
            RespValue::SimpleError(DBFault::WrongType.message())
        }
    }

    /// The store after the command: the values are at the tail of the
    /// list, unless the key holds a string.
    pub open spec fn after(self, db: DBState) -> DBState {
        if db.takes_list(self.key) {
            db.after_rpush(self.key, self.values)
        } else {
            db
        }
    }

    /// The frame that repeats the command on a replica.
    pub open spec fn command(self) -> RespValue {
        frame_of("RPUSH"@, self.key, self.values)
    }
}

impl RPush {
    /// Reads the command from its arguments.
    pub fn with_args(args: Vec<RespType>) -> (res: Result<RPush, CommandError>)
        ensures
            read_as(res, RPushView::read(views_of(args@))),
    {
        if args.len() < 2 {
            return Err(error("Wrong number of arguments specified for 'RPUSH' command"));
        }
        let key = match bulk_arg(&args, 0) {
            Some(key) => key,
            None => {
                return Err(error("Invalid argument. Key must be a bulk string"));
            },
        };
        match bulk_args_from(&args, 1) {
            Some(values) => Ok(RPush { key, values }),
            None => Err(error("Invalid argument. Value must be a bulk string")),
        }
    }

    /// Carries the command out on the store.
    pub fn apply(&self, db: &mut DB) -> (res: RespType)
        ensures
            res@ == self@.reply(old(db)@),
            final(db)@ == self@.after(old(db)@),
    {
        match db.rpush(self.key.clone(), clone_strings(&self.values)) {
            Ok(len) => integer_of(len),
            Err(e) => RespType::SimpleError(e.message()),
        }
    }

    /// The frame that repeats the command on a replica.
    pub fn build_command(&self) -> (res: RespType)
        ensures
            res@ == self@.command(),
    {
        build_frame("RPUSH", &self.key, &self.values)
    }
}

} // verus!
