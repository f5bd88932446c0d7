//! `PING [msg]`.

use super::{bulk_arg, bulk_text, error, fault, read_as, CommandError, CommandFault};
use crate::resp::types::{lemma_array_view, views_of, RespType, RespValue};
use vstd::prelude::*;
use vstd::string::*;

verus! {

/// The `PING` command.
#[derive(Debug)]
pub struct Ping {
    /// The message to send back, if one was given.
    msg: Option<String>,
}

/// The mathematical value of a [`Ping`].
pub struct PingView {
    pub msg: Option<Seq<char>>,
}

impl View for Ping {
    type V = PingView;

    closed spec fn view(&self) -> PingView {
        PingView {
            msg: match self.msg {
                Some(m) => Some(m@),
                None => None,
            },
        }
    }
}

impl PingView {
    /// The command that the arguments spell: the first argument is the
    /// message, and has to be a bulk string.
    pub open spec fn read(args: Seq<RespValue>) -> Result<PingView, CommandFault> {
        if args.len() == 0 {
            Ok(PingView { msg: None })
        } else {
            match bulk_text(args[0]) {
                Some(m) => Ok(PingView { msg: Some(m) }),
                None => Err(fault("Invalid message"@)),
            }
        }
    }

    /// The reply: the message as a bulk string, or `PONG` as a simple string
    /// where none was given.
    pub open spec fn reply(self) -> RespValue {
        match self.msg {
            Some(m) => RespValue::BulkString(m),
            None => RespValue::SimpleString("PONG"@),
        }
    }

    /// The frame of a `PING` without message.
    pub open spec fn command() -> RespValue {
        RespValue::Array(seq![RespValue::BulkString("PING"@)])
    }
}

impl Ping {
    /// Reads the command from its arguments.
    pub fn with_args(args: Vec<RespType>) -> (res: Result<Ping, CommandError>)
        ensures
            read_as(res, PingView::read(views_of(args@))),
    {
        if args.len() == 0 {
            return Ok(Ping { msg: None });
        }
        match bulk_arg(&args, 0) {
            Some(m) => Ok(Ping { msg: Some(m) }),
            None => Err(error("Invalid message")),
        }
    }

    /// Carries the command out.
    pub fn apply(&self) -> (res: RespType)
        ensures
            res@ == self@.reply(),
    {
        match &self.msg {
            Some(m) => RespType::BulkString(m.clone()),
            None => RespType::SimpleString(String::from_str("PONG")),
        }
    }

    /// The frame that sends a `PING` without message.
    pub fn build_command() -> (res: RespType)
        ensures
            res@ == PingView::command(),
    {
        let mut items: Vec<RespType> = Vec::new();
        items.push(RespType::BulkString(String::from_str("PING")));
        proof {
            lemma_array_view(items);
            assert(views_of(items@) =~= seq![RespValue::BulkString("PING"@)]);
        }
        RespType::Array(items)
    }
}

} // verus!
