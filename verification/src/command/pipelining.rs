//! `MULTI`, `EXEC` and `DISCARD`: the queue of commands of one connection,
//! carried out in one go.

use super::{Command, CommandView};
use crate::replication::{Replication, ReplicationState};
use crate::resp::types::{lemma_array_view, views_of, RespType, RespValue};
use crate::storage::db::{DBState, DB};
use vstd::prelude::*;
use vstd::string::*;

verus! {

/// Why an operation on the queue failed.
#[derive(Debug)]
pub enum PipelineError {
    /// `MULTI` was sent while a queue was already open.
    CannotNestMulti,
}

impl PipelineError {
    /// The text shown for this error.
    pub open spec fn text(self) -> Seq<char> {
        "MULTI calls cannot be nested"@
    }

    /// The text shown for this error.
    pub fn message(&self) -> (res: String)
        ensures
            res@ == self.text(),
    {
        String::from_str("MULTI calls cannot be nested")
    }
}

/// The queue of one connection as a mathematical value.
pub struct MultiView {
    /// Whether a queue is open.
    pub active: bool,
    /// The queued commands, oldest first.
    pub queued: Seq<CommandView>,
}

/// The queue that is closed and empty.
pub open spec fn closed_queue() -> MultiView {
    MultiView { active: false, queued: Seq::empty() }
}

/// The outcome of carrying out commands one after another.
pub struct Run {
    /// The store after the commands.
    pub db: DBState,
    /// The server's replication side after the commands.
    pub replication: ReplicationState,
    /// The replies of the commands, in their order.
    pub replies: Seq<RespValue>,
}

/// The outcome of carrying out the first `n` commands of a list in turn,
/// each on the store and the server as the one before left them.
pub open spec fn run_first(
    commands: Seq<CommandView>,
    n: nat,
    db: DBState,
    replication: ReplicationState,
) -> Run
    decreases n,
{
    if n == 0 {
        Run { db, replication, replies: Seq::empty() }
    } else {
        let before = run_first(commands, (n - 1) as nat, db, replication);
        let command = commands[n - 1];
        Run {
            db: command.after(before.db),
            replication: command.fanout(before.db, before.replication),
            replies: before.replies.push(command.reply(before.db, before.replication)),
        }
    }
}

/// The values that a list of commands stands for.
pub open spec fn command_views(commands: Seq<Command>) -> Seq<CommandView> {
    Seq::new(commands.len(), |i: int| commands[i]@)
}

/// The queue of commands of one connection.
#[derive(Debug)]
pub struct MultiCommand {
    commands: Vec<Command>,
    is_active: bool,
}

impl View for MultiCommand {
    type V = MultiView;

    closed spec fn view(&self) -> MultiView {
        MultiView { active: self.is_active, queued: command_views(self.commands@) }
    }
}

impl MultiCommand {
    /// A queue that is closed and empty.
    pub fn new() -> (res: MultiCommand)
        ensures
            res@ == closed_queue(),
    {
        let res = MultiCommand { commands: Vec::new(), is_active: false };
        assert(res@.queued =~= Seq::<CommandView>::empty());
        res
    }

    /// Opens the queue. It is an error if the queue is open already, and
    /// nothing changes then.
    pub fn init(&mut self) -> (res: Result<(), PipelineError>)
        ensures
            old(self)@.active ==> res is Err && final(self)@ == old(self)@,
            !old(self)@.active ==> res is Ok && final(self)@ == (MultiView {
                active: true,
                ..old(self)@
            }),
    {
        if self.is_active {
            return Err(PipelineError::CannotNestMulti);
        }
        self.is_active = true;
        Ok(())
    }

    /// Puts a command at the end of the queue.
    pub fn add_command(&mut self, cmd: Command)
        ensures
            final(self)@ == (MultiView {
                queued: old(self)@.queued.push(cmd@),
                ..old(self)@
            }),
    {
        self.commands.push(cmd);
        assert(command_views(self.commands@) =~= command_views(old(self).commands@).push(cmd@));
    }

    /// Whether the queue is open.
    pub fn is_active(&self) -> (res: bool)
        ensures
            res == self@.active,
    {
        self.is_active
    }

    /// Carries out the queued commands in their order, hands each write that
    /// succeeded over for broadcast to the replicas, and replies with the
    /// array of the commands' replies. The queue is closed and empty
    /// afterwards.
    pub fn exec(&mut self, db: &mut DB, replication: &mut Replication) -> (res: RespType)
        ensures
            ({
                let run = run_first(
                    old(self)@.queued,
                    old(self)@.queued.len(),
                    old(db)@,
                    old(replication)@,
                );
                &&& res@ == RespValue::Array(run.replies)
                &&& final(db)@ == run.db
                &&& final(replication)@ == run.replication
            }),
            final(self)@ == closed_queue(),
    {
        let ghost queued = self@.queued;
        let ghost db0 = db@;
        let ghost replication0 = replication@;
        let mut responses: Vec<RespType> = Vec::new();
        let mut i: usize = 0;
        assert(views_of(responses@) =~= Seq::<RespValue>::empty());
        while i < self.commands.len()
            invariant
                i <= self.commands.len(),
                queued == command_views(self.commands@),
                db@ == run_first(queued, i as nat, db0, replication0).db,
                replication@ == run_first(queued, i as nat, db0, replication0).replication,
                views_of(responses@) == run_first(queued, i as nat, db0, replication0).replies,
            decreases self.commands.len() - i,
        {
            let ghost before = views_of(responses@);
            let res = self.commands[i].execute_and_replicate(db, replication);
            assert(queued[i as int] == self.commands@[i as int]@);
            responses.push(res);
            assert(views_of(responses@) =~= before.push(res@));
            i += 1;
        }
        self.discard();
        proof {
            lemma_array_view(responses);
        }
        RespType::Array(responses)
    }

    /// Closes the queue and drops what it holds.
    pub fn discard(&mut self)
        ensures
            final(self)@ == closed_queue(),
    {
        self.commands = Vec::new();
        self.is_active = false;
        assert(self@.queued =~= Seq::<CommandView>::empty());
    }
}

} // verus!
