//! `PSYNC replication-id offset`.

use super::{bulk_arg, bulk_text, error, fault, read_as, CommandError, CommandFault};
use crate::replication::{Replication, ReplicationState};
use crate::resp::types::{lemma_array_view, views_of, RespType, RespValue};
use crate::text::{decimal_text, parse_u64, parse_u64_text, str_eq, u64_to_string};
use vstd::prelude::*;
use vstd::string::*;

verus! {

/// The `PSYNC` command.
#[derive(Debug)]
pub struct Psync {
    replication_id: String,
    offset: Option<u64>,
}

/// The mathematical value of a [`Psync`].
pub struct PsyncView {
    pub replication_id: Seq<char>,
    pub offset: Option<nat>,
}

impl View for Psync {
    type V = PsyncView;

    closed spec fn view(&self) -> PsyncView {
        PsyncView {
            replication_id: self.replication_id@,
            offset: match self.offset {
                Some(n) => Some(n as nat),
                None => None,
            },
        }
    }
}

impl PsyncView {
    /// The command that the arguments spell: the replication identifier,
    /// then the offset as an unsigned decimal number, or `-1` for none; each
    /// argument a bulk string.
    pub open spec fn read(args: Seq<RespValue>) -> Result<PsyncView, CommandFault> {
        if args.len() < 2 {
            Err(fault("Wrong number of arguments specified for 'PSYNC' command"@))
        } else {
            match bulk_text(args[0]) {
                None => Err(fault("Invalid argument. replication id must be a bulk string"@)),
                Some(replication_id) => match bulk_text(args[1]) {
                    None => Err(fault("Invalid argument. Value must be in bulk string format"@)),
                    Some(t) => if t == "-1"@ {
                        Ok(PsyncView { replication_id, offset: None })
                    } else {
                        match parse_u64_text(t) {
                            Some(n) => Ok(PsyncView { replication_id, offset: Some(n) }),
                            None => Err(fault("Offset should be an integer"@)),
                        }
                    },
                },
            }
        }
    }

    /// The offset as it is written: the number, or `-1` for none.
    pub open spec fn offset_text(self) -> Seq<char> {
        match self.offset {
            Some(n) => decimal_text(n),
            None => "-1"@,
        }
    }

    /// The reply of a master: a full resynchronisation under the master's
    /// identifier, with the offset that was asked for.
    pub open spec fn reply(self, replication: ReplicationState) -> RespValue {
        RespValue::SimpleString("FULLRESYNC "@ + replication.id + " "@ + self.offset_text())
    }

    /// The frame that sends the command.
    pub open spec fn command(self) -> RespValue {
        RespValue::Array(
            seq![
                RespValue::BulkString("PSYNC"@),
                RespValue::BulkString(self.replication_id),
                RespValue::BulkString(self.offset_text()),
            ],
        )
    }
}

impl Psync {
    /// The command with a replication identifier and an offset.
    pub fn new(replication_id: String, offset: Option<u64>) -> (res: Psync)
        ensures
            res@ == (PsyncView {
                replication_id: replication_id@,
                offset: match offset {
                    Some(n) => Some(n as nat),
                    None => None,
                },
            }),
    {
        Psync { replication_id, offset }
    }

    /// Reads the command from its arguments.
    pub fn with_args(args: Vec<RespType>) -> (res: Result<Psync, CommandError>)
        ensures
            read_as(res, PsyncView::read(views_of(args@))),
    {
        if args.len() < 2 {
            return Err(error("Wrong number of arguments specified for 'PSYNC' command"));
        }
        let replication_id = match bulk_arg(&args, 0) {
            Some(id) => id,
            None => {
                return Err(error("Invalid argument. replication id must be a bulk string"));
            },
        };
        let offset = match bulk_arg(&args, 1) {
            None => {
                return Err(error("Invalid argument. Value must be in bulk string format"));
            },
            Some(t) => {
                if str_eq(t.as_str(), "-1") {
                    None
                } else {
                    match parse_u64(t.as_str()) {
                        Some(n) => Some(n),
                        None => {
                            return Err(error("Offset should be an integer"));
                        },
                    }
                }
            },
        };
        Ok(Psync { replication_id, offset })
    }

    fn offset_string(&self) -> (res: String)
        ensures
            res@ == self@.offset_text(),
    {
        match self.offset {
            Some(n) => u64_to_string(n),
            None => String::from_str("-1"),
        }
    }

    /// Carries the command out: the reply of a master, which is always a
    /// full resynchronisation.
    pub fn apply(&self, replication: &Replication) -> (res: RespType)
        ensures
            res@ == self@.reply(replication@),
    {
        let mut text = String::from_str("FULLRESYNC ");
        text.append(replication.id().as_str());
        text.append(" ");
        text.append(self.offset_string().as_str());
        RespType::SimpleString(text)
    }

    /// The frame that sends the command.
    pub fn build_command(&self) -> (res: RespType)
        ensures
            res@ == self@.command(),
    {
        let mut items: Vec<RespType> = Vec::new();
        items.push(RespType::BulkString(String::from_str("PSYNC")));
        items.push(RespType::BulkString(self.replication_id.clone()));
        items.push(RespType::BulkString(self.offset_string()));
        proof {
            lemma_array_view(items);
            assert(views_of(items@) =~= self@.command()->Array_0);
        }
        RespType::Array(items)
    }
}

} // verus!
