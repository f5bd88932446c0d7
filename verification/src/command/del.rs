//! `DEL key [key ...]`.

use super::{
    all_bulk, bulk_args_from, bulk_texts, count_reply, error, fault, integer_of, read_as,
    CommandError, CommandFault,
};
use crate::resp::types::{views_of, RespType, RespValue};
use crate::storage::db::{names_of, DBState, DB};
use crate::text::texts;
use vstd::prelude::*;
use vstd::string::*;

verus! {

/// The `DEL` command.
#[derive(Debug)]
pub struct Del {
    keys: Vec<String>,
}

/// The mathematical value of a [`Del`].
pub struct DelView {
    pub keys: Seq<Seq<char>>,
}

impl View for Del {
    type V = DelView;

    closed spec fn view(&self) -> DelView {
        DelView { keys: texts(self.keys@) }
    }
}

impl DelView {
    /// The command that the arguments spell: one key or more, each a bulk
    /// string.
    pub open spec fn read(args: Seq<RespValue>) -> Result<DelView, CommandFault> {
        if args.len() == 0 {
            Err(fault("Wrong number of arguments specified for 'DEL' command"@))
        } else if !all_bulk(args, 0) {
            Err(fault("Invalid argument. Key must be a bulk string"@))
        } else {
            Ok(DelView { keys: bulk_texts(args, 0) })
        }
    }

    /// The reply: how many of the keys were there.
    pub open spec fn reply(self, db: DBState) -> RespValue {
        count_reply(db.bulk_del_first(self.keys, self.keys.len()).count)
    }

    /// The store after the command.
    pub open spec fn after(self, db: DBState) -> DBState {
        db.after_bulk_del(self.keys)
    }
}

impl Del {
    /// Reads the command from its arguments.
    pub fn with_args(args: Vec<RespType>) -> (res: Result<Del, CommandError>)
        ensures
            read_as(res, DelView::read(views_of(args@))),
    {
        if args.len() == 0 {
            return Err(error("Wrong number of arguments specified for 'DEL' command"));
        }
        match bulk_args_from(&args, 0) {
            Some(keys) => Ok(Del { keys }),
            None => Err(error("Invalid argument. Key must be a bulk string")),
        }
    }

    /// Carries the command out on the store.
    pub fn apply(&self, db: &mut DB) -> (res: RespType)
        ensures
            res@ == self@.reply(old(db)@),
            final(db)@ == self@.after(old(db)@),
    {
        let mut names: Vec<&str> = Vec::new();
        let mut i: usize = 0;
        while i < self.keys.len()
            invariant
                i <= self.keys.len(),
                names@.len() == i,
                forall|j: int| 0 <= j < i ==> names@[j]@ == self.keys@[j]@,
            decreases self.keys.len() - i,
        {
            names.push(self.keys[i].as_str());
            i += 1;
        }
        assert(names_of(names@) =~= texts(self.keys@));
        match db.bulk_del(names.as_slice()) {
            Ok(count) => integer_of(count),
            Err(e) => RespType::SimpleError(e.message()),
        }
    }
}

} // verus!
