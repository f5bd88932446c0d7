//! The commands that the server understands: how each is read from a
//! command frame, what it does to the store, and what it replies.

use crate::clock::Timestamp;
use crate::replication::{Replication, ReplicationState};
use crate::resp::types::{lemma_array_view, views_of, RespType, RespValue};
use crate::storage::db::{DBState, DB};
use crate::text::{lowercase, str_eq, texts, to_lowercase};
use del::{Del, DelView};
use get::{Get, GetView};
use info::{Info, InfoView};
use lpush::{LPush, LPushView};
use lrange::{LRange, LRangeView};
use ping::{Ping, PingView};
use psync::{Psync, PsyncView};
use rpush::{RPush, RPushView};
use set::{SetValue, SetView};
use vstd::prelude::*;
use vstd::string::*;

pub mod del;
pub mod get;
pub mod info;
pub mod lpush;
pub mod lrange;
pub mod ping;
pub mod pipelining;
pub mod psync;
pub mod rpush;
pub mod set;

verus! {

/// The name of a command that is not known.
#[derive(Debug)]
pub struct ErrUnknownCommand {
    /// The name as the client wrote it.
    pub cmd: String,
}

/// Why a command frame is no command, or a command could not be carried out.
#[derive(Debug)]
pub enum CommandError {
    /// The frame does not have the form of a command.
    InvalidFormat,
    /// The command's name is not known.
    UnknownCommand(ErrUnknownCommand),
    /// Any other fault, with its description.
    Other(String),
}

/// The mathematical value of a [`CommandError`].
pub enum CommandFault {
    InvalidFormat,
    UnknownCommand(Seq<char>),
    Other(Seq<char>),
}

impl CommandFault {
    /// The text shown for this fault.
    pub open spec fn message(self) -> Seq<char> {
        match self {
            CommandFault::InvalidFormat => "Invalid command format"@,
            CommandFault::UnknownCommand(name) => "Unknown command: "@ + name,
            CommandFault::Other(m) => m,
        }
    }
}

impl View for CommandError {
    type V = CommandFault;

    open spec fn view(&self) -> CommandFault {
        match self {
            CommandError::InvalidFormat => CommandFault::InvalidFormat,
            CommandError::UnknownCommand(e) => CommandFault::UnknownCommand(e.cmd@),
            CommandError::Other(m) => CommandFault::Other(m@),
        }
    }
}

impl CommandError {
    /// The text shown for this error.
    pub fn message(&self) -> (res: String)
        ensures
            res@ == self@.message(),
    {
        match self {
            CommandError::InvalidFormat => String::from_str("Invalid command format"),
            CommandError::UnknownCommand(e) => {
                let mut s = String::from_str("Unknown command: ");
                s.append(e.cmd.as_str());
                s
            },
            CommandError::Other(m) => m.clone(),
        }
    }
}

/// A command of the server.
#[derive(Debug)]
pub enum Command {
    /// `PING`.
    Ping(Ping),
    /// `INFO`.
    Info(Info),
    /// `MULTI`.
    Multi,
    /// `EXEC`.
    Exec,
    /// `DISCARD`.
    Discard,
    /// `SET`.
    SetValue(SetValue),
    /// `GET`.
    Get(Get),
    /// `DEL`.
    Del(Del),
    /// `LPUSH`.
    LPush(LPush),
    /// `RPUSH`.
    RPush(RPush),
    /// `LRANGE`.
    LRange(LRange),
    /// `PSYNC`.
    Psync(Psync),
}

/// The mathematical value of a [`Command`].
pub enum CommandView {
    Ping(PingView),
    Info(InfoView),
    Multi,
    Exec,
    Discard,
    SetValue(SetView),
    Get(GetView),
    Del(DelView),
    LPush(LPushView),
    RPush(RPushView),
    LRange(LRangeView),
    Psync(PsyncView),
}

impl View for Command {
    type V = CommandView;

    open spec fn view(&self) -> CommandView {
        match self {
            Command::Ping(c) => CommandView::Ping(c@),
            Command::Info(c) => CommandView::Info(c@),
            Command::Multi => CommandView::Multi,
            Command::Exec => CommandView::Exec,
            Command::Discard => CommandView::Discard,
            Command::SetValue(c) => CommandView::SetValue(c@),
            Command::Get(c) => CommandView::Get(c@),
            Command::Del(c) => CommandView::Del(c@),
            Command::LPush(c) => CommandView::LPush(c@),
            Command::RPush(c) => CommandView::RPush(c@),
            Command::LRange(c) => CommandView::LRange(c@),
            Command::Psync(c) => CommandView::Psync(c@),
        }
    }
}

/// The command that a command's own reading gives, or its fault.
pub open spec fn lift<V>(
    read: Result<V, CommandFault>,
    wrap: spec_fn(V) -> CommandView,
) -> Result<CommandView, CommandFault> {
    match read {
        Ok(c) => Ok(wrap(c)),
        Err(e) => Err(e),
    }
}

impl CommandView {
    /// The command with the given name and arguments, read at the instant
    /// `now`. The name is matched in its lower-case form `lower`; a name that
    /// is not known is reported as the client wrote it.
    pub open spec fn named(lower: Seq<char>, name: Seq<char>, args: Seq<RespValue>, now: int)
        -> Result<CommandView, CommandFault> {
        if lower == "ping"@ {
            lift(PingView::read(args), |c: PingView| CommandView::Ping(c))
        } else if lower == "info"@ {
            lift(InfoView::read(args), |c: InfoView| CommandView::Info(c))
        } else if lower == "multi"@ {
            Ok(CommandView::Multi)
        } else if lower == "exec"@ {
            Ok(CommandView::Exec)
        } else if lower == "discard"@ {
            Ok(CommandView::Discard)
        } else if lower == "set"@ {
            lift(SetView::read(args, now), |c: SetView| CommandView::SetValue(c))
        } else if lower == "get"@ {
            lift(GetView::read(args), |c: GetView| CommandView::Get(c))
        } else if lower == "del"@ {
            lift(DelView::read(args), |c: DelView| CommandView::Del(c))
        } else if lower == "lpush"@ {
            lift(LPushView::read(args), |c: LPushView| CommandView::LPush(c))
        } else if lower == "rpush"@ {
            lift(RPushView::read(args), |c: RPushView| CommandView::RPush(c))
        } else if lower == "lrange"@ {
            lift(LRangeView::read(args), |c: LRangeView| CommandView::LRange(c))
        } else if lower == "psync"@ {
            lift(PsyncView::read(args), |c: PsyncView| CommandView::Psync(c))
        } else {
            Err(CommandFault::UnknownCommand(name))
        }
    }

    /// The command that a frame spells when it is read at the instant `now`:
    /// the first part is the command's name, a bulk string that is matched
    /// whatever its case; the other parts are the arguments.
    pub open spec fn read(frame: Seq<RespValue>, now: int) -> Result<CommandView, CommandFault> {
        if frame.len() == 0 {
            Err(CommandFault::InvalidFormat)
        } else {
            match bulk_text(frame[0]) {
                None => Err(CommandFault::InvalidFormat),
                Some(name) => Self::named(lowercase(name), name, frame.skip(1), now),
            }
        }
    }

    /// What the command replies when it is carried out on a store by a
    /// server.
    pub open spec fn reply(self, db: DBState, replication: ReplicationState) -> RespValue {
        match self {
            CommandView::Ping(c) => c.reply(),
            CommandView::Info(c) => c.reply(replication),
            CommandView::Multi => RespValue::SimpleString("OK"@),
            CommandView::Exec => RespValue::NullBulkString,
            CommandView::Discard => RespValue::SimpleString("OK"@),
            CommandView::SetValue(c) => c.reply(db),
            CommandView::Get(c) => c.reply(db),
            CommandView::Del(c) => c.reply(db),
            CommandView::LPush(c) => c.reply(db),
            CommandView::RPush(c) => c.reply(db),
            CommandView::LRange(c) => c.reply(db),
            CommandView::Psync(c) => c.reply(replication),
        }
    }

    /// The store after the command was carried out on it.
    pub open spec fn after(self, db: DBState) -> DBState {
        match self {
            CommandView::SetValue(c) => c.after(db),
            CommandView::Del(c) => c.after(db),
            CommandView::LPush(c) => c.after(db),
            CommandView::RPush(c) => c.after(db),
            _ => db,
        }
    }

    /// The frame that repeats a write command on the replicas; nothing for a
    /// command that reads or controls.
    pub open spec fn replication_command(self) -> Option<RespValue> {
        match self {
            CommandView::SetValue(c) => Some(c.command()),
            CommandView::LPush(c) => Some(c.command()),
            CommandView::RPush(c) => Some(c.command()),
            _ => None,
        }
    }

    /// The server's replication side after the command was carried out on a
    /// store: a write that did not reply with an error is handed over once
    /// for broadcast to the replicas.
    pub open spec fn fanout(self, db: DBState, replication: ReplicationState) -> ReplicationState {
        match self.replication_command() {
            Some(frame) => if self.reply(db, replication) is SimpleError {
                replication
            } else {
                ReplicationState {
                    replicas: replication.replicas.after_replicate(frame),
                    ..replication
                }
            },
            None => replication,
        }
    }
}

impl Command {
    /// Reads a command from a command frame. A time to live counts from the
    /// wall clock's time, which is read here.
    pub fn from_resp_command_frame(frame: Vec<RespType>) -> (res: Result<Command, CommandError>)
        ensures
            exists|now: int| read_as(res, #[trigger] CommandView::read(views_of(frame@), now)),
    {
        let now = Timestamp::now_utc();
        Self::from_frame_at(frame, now)
    }

    /// Reads a command from a command frame at the instant `now`.
    pub fn from_frame_at(frame: Vec<RespType>, now: Timestamp) -> (res: Result<
        Command,
        CommandError,
    >)
        ensures
            read_as(res, CommandView::read(views_of(frame@), now@)),
    {
        if frame.len() == 0 {
            return Err(CommandError::InvalidFormat);
        }
        let name = match bulk_arg(&frame, 0) {
            Some(s) => s,
            None => {
                return Err(CommandError::InvalidFormat);
            },
        };
        let mut frame = frame;
        let ghost whole = views_of(frame@);
        let args = frame.split_off(1);
        assert(views_of(args@) =~= whole.skip(1));
        let lower = to_lowercase(name.as_str());
        Self::with_name(lower.as_str(), name, args, now)
    }

    /// The command with the given name and arguments, read at the instant
    /// `now`. `lower` is the name in lower case, by which it is matched.
    pub fn with_name(lower: &str, name: String, args: Vec<RespType>, now: Timestamp) -> (res:
        Result<Command, CommandError>)
        ensures
            read_as(res, CommandView::named(lower@, name@, views_of(args@), now@)),
    {
        if str_eq(lower, "ping") {
            match Ping::with_args(args) {
                Ok(c) => Ok(Command::Ping(c)),
                Err(e) => Err(e),
            }
        } else if str_eq(lower, "info") {
            match Info::with_args(args) {
                Ok(c) => Ok(Command::Info(c)),
                Err(e) => Err(e),
            }
        } else if str_eq(lower, "multi") {
            Ok(Command::Multi)
        } else if str_eq(lower, "exec") {
            Ok(Command::Exec)
        } else if str_eq(lower, "discard") {
            Ok(Command::Discard)
        } else if str_eq(lower, "set") {
            match SetValue::with_args_at(args, now) {
                Ok(c) => Ok(Command::SetValue(c)),
                Err(e) => Err(e),
            }
        } else if str_eq(lower, "get") {
            match Get::with_args(args) {
                Ok(c) => Ok(Command::Get(c)),
                Err(e) => Err(e),
            }
        } else if str_eq(lower, "del") {
            match Del::with_args(args) {
                Ok(c) => Ok(Command::Del(c)),
                Err(e) => Err(e),
            }
        } else if str_eq(lower, "lpush") {
            match LPush::with_args(args) {
                Ok(c) => Ok(Command::LPush(c)),
                Err(e) => Err(e),
            }
        } else if str_eq(lower, "rpush") {
            match RPush::with_args(args) {
                Ok(c) => Ok(Command::RPush(c)),
                Err(e) => Err(e),
            }
        } else if str_eq(lower, "lrange") {
            match LRange::with_args(args) {
                Ok(c) => Ok(Command::LRange(c)),
                Err(e) => Err(e),
            }
        } else if str_eq(lower, "psync") {
            match Psync::with_args(args) {
                Ok(c) => Ok(Command::Psync(c)),
                Err(e) => Err(e),
            }
        } else {
            Err(CommandError::UnknownCommand(ErrUnknownCommand { cmd: name }))
        }
    }

    /// Carries the command out on the store and returns its reply. `MULTI`,
    /// `EXEC` and `DISCARD` only reply here: the queue they work on belongs
    /// to the connection.
    pub fn execute(&self, db: &mut DB, replication: &Replication) -> (res: RespType)
        ensures
            res@ == self@.reply(old(db)@, replication@),
            final(db)@ == self@.after(old(db)@),
    {
        match self {
            Command::Ping(ping) => ping.apply(),
            Command::Info(info) => info.apply(replication),
            Command::Multi => RespType::SimpleString(String::from_str("OK")),
            Command::Exec => RespType::NullBulkString,
            Command::Discard => RespType::SimpleString(String::from_str("OK")),
            Command::SetValue(set) => set.apply(db),
            Command::Get(get) => get.apply(db),
            Command::Del(del) => del.apply(db),
            Command::LPush(lpush) => lpush.apply(db),
            Command::RPush(rpush) => rpush.apply(db),
            Command::LRange(lrange) => lrange.apply(db),
            Command::Psync(psync) => psync.apply(replication),
        }
    }

    /// Carries the command out on the store, hands a write that succeeded
    /// over for broadcast to the replicas, and returns the reply.
    pub fn execute_and_replicate(&self, db: &mut DB, replication: &mut Replication) -> (res:
        RespType)
        ensures
            res@ == self@.reply(old(db)@, old(replication)@),
            final(db)@ == self@.after(old(db)@),
            final(replication)@ == self@.fanout(old(db)@, old(replication)@),
    {
        let res = self.execute(db, replication);
        let failed = match &res {
            RespType::SimpleError(_) => true,
            _ => false,
        };
        if !failed {
            if let Some(frame) = self.replication_cmd() {
                replication.write_to_replicas(frame);
            }
        }
        res
    }

    /// The frame that repeats a write command on the replicas; `None` for a
    /// command that reads or controls.
    pub fn replication_cmd(&self) -> (res: Option<RespType>)
        ensures
            match res {
                Some(frame) => self@.replication_command() == Some(frame@),
                None => self@.replication_command() is None,
            },
    {
        match self {
            Command::SetValue(set) => Some(set.build_command()),
            Command::LPush(lpush) => Some(lpush.build_command()),
            Command::RPush(rpush) => Some(rpush.build_command()),
            _ => None,
        }
    }
}

/// Whether an executable result of reading a command is the given
/// mathematical one.
pub open spec fn read_as<T: View>(
    res: Result<T, CommandError>,
    want: Result<T::V, CommandFault>,
) -> bool {
    match res {
        Ok(c) => want == Ok::<T::V, CommandFault>(c@),
        Err(e) => want == Err::<T::V, CommandFault>(e@),
    }
}

/// The text of a bulk string, nothing for any other value.
pub open spec fn bulk_text(v: RespValue) -> Option<Seq<char>> {
    match v {
        RespValue::BulkString(s) => Some(s),
        _ => None,
    }
}

/// The fault with the given description.
pub open spec fn fault(msg: Seq<char>) -> CommandFault {
    CommandFault::Other(msg)
}

/// The error with the given description.
pub fn error(msg: &str) -> (res: CommandError)
    ensures
        res@ == fault(msg@),
{
    CommandError::Other(String::from_str(msg))
}

/// The text of the argument at an index, if it is a bulk string.
pub fn bulk_arg(args: &Vec<RespType>, i: usize) -> (res: Option<String>)
    requires
        i < args@.len(),
    ensures
        match res {
            Some(s) => bulk_text(args@[i as int]@) == Some(s@),
            None => bulk_text(args@[i as int]@) is None,
        },
{
    match &args[i] {
        RespType::BulkString(s) => Some(s.clone()),
        _ => None,
    }
}

/// A simple error reply with the given text.
pub open spec fn simple_error(msg: Seq<char>) -> RespValue {
    RespValue::SimpleError(msg)
}

/// The bulk strings that a list of texts makes.
pub open spec fn bulk_strings(items: Seq<Seq<char>>) -> Seq<RespValue> {
    Seq::new(items.len(), |i: int| RespValue::BulkString(items[i]))
}


/// Whether every argument from an index on is a bulk string.
pub open spec fn all_bulk(args: Seq<RespValue>, from: int) -> bool {
    forall|i: int| from <= i < args.len() ==> bulk_text(#[trigger] args[i]) is Some
}

/// The texts of the arguments from an index on.
pub open spec fn bulk_texts(args: Seq<RespValue>, from: int) -> Seq<Seq<char>> {
    Seq::new((args.len() - from) as nat, |i: int| bulk_text(args[from + i])->Some_0)
}

/// The texts of the arguments from an index on, if each is a bulk string.
pub fn bulk_args_from(args: &Vec<RespType>, from: usize) -> (res: Option<Vec<String>>)
    requires
        from <= args@.len(),
    ensures
        match res {
            Some(items) => all_bulk(views_of(args@), from as int) && texts(items@) == bulk_texts(
                views_of(args@),
                from as int,
            ),
            None => !all_bulk(views_of(args@), from as int),
        },
{
    let mut out: Vec<String> = Vec::new();
    let mut i: usize = from;
    while i < args.len()
        invariant
            from <= i <= args@.len(),
            out@.len() == i - from,
            forall|j: int| from <= j < i ==> bulk_text(#[trigger] views_of(args@)[j]) == Some(
                out@[j - from]@,
            ),
        decreases args.len() - i,
    {
        match bulk_arg(args, i) {
            Some(s) => {
                out.push(s);
            },
            None => {
                assert(bulk_text(views_of(args@)[i as int]) is None);
                return None;
            },
        }
        i += 1;
    }
    assert(texts(out@) =~= bulk_texts(views_of(args@), from as int));
    Some(out)
}

/// The reply that carries a count: an integer, held at the largest that the
/// reply can carry.
pub open spec fn count_reply(n: nat) -> RespValue {
    if n > i64::MAX {
        RespValue::Integer(i64::MAX as int)
    } else {
        RespValue::Integer(n as int)
    }
}

/// The reply that carries a count.
pub fn integer_of(n: usize) -> (res: RespType)
    ensures
        res@ == count_reply(n as nat),
{
    if n as u64 > i64::MAX as u64 {
        RespType::Integer(i64::MAX)
    } else {
        RespType::Integer(n as i64)
    }
}

/// The array of bulk strings that carries a list of texts.
pub fn bulk_array(items: Vec<String>) -> (res: RespType)
    ensures
        res@ == RespValue::Array(bulk_strings(texts(items@))),
{
    let mut out: Vec<RespType> = Vec::new();
    let mut i: usize = 0;
    while i < items.len()
        invariant
            i <= items.len(),
            out@.len() == i,
            forall|j: int| 0 <= j < i ==> out@[j]@ == RespValue::BulkString(items@[j]@),
        decreases items.len() - i,
    {
        out.push(RespType::BulkString(items[i].clone()));
        i += 1;
    }
    proof {
        lemma_array_view(out);
        assert(views_of(out@) =~= bulk_strings(texts(items@)));
    }
    RespType::Array(out)
}

/// The frame of a command with a name, a key and further texts.
pub open spec fn frame_of(name: Seq<char>, key: Seq<char>, rest: Seq<Seq<char>>) -> RespValue {
    RespValue::Array(
        seq![RespValue::BulkString(name), RespValue::BulkString(key)] + bulk_strings(rest),
    )
}

/// Builds the frame of a command with a name, a key and further texts.
pub fn build_frame(name: &str, key: &String, rest: &Vec<String>) -> (res: RespType)
    ensures
        res@ == frame_of(name@, key@, texts(rest@)),
{
    let mut out: Vec<RespType> = Vec::new();
    out.push(RespType::BulkString(String::from_str(name)));
    out.push(RespType::BulkString(key.clone()));
    let mut i: usize = 0;
    while i < rest.len()
        invariant
            i <= rest.len(),
            out@.len() == i + 2,
            out@[0]@ == RespValue::BulkString(name@),
            out@[1]@ == RespValue::BulkString(key@),
            forall|j: int| 0 <= j < i ==> out@[j + 2]@ == RespValue::BulkString(rest@[j]@),
        decreases rest.len() - i,
    {
        out.push(RespType::BulkString(rest[i].clone()));
        i += 1;
    }
    proof {
        lemma_array_view(out);
        assert(views_of(out@) =~= seq![RespValue::BulkString(name@), RespValue::BulkString(key@)]
            + bulk_strings(texts(rest@)));
    }
    RespType::Array(out)
}


/// The values that a sequence of borrowed RESP values stands for.
pub open spec fn ref_views(items: Seq<&RespType>) -> Seq<RespValue> {
    Seq::new(items.len(), |i: int| (*items[i])@)
}

} // verus!
