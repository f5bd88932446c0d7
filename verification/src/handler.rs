//! What a connection does with each command frame it reads: the decisions of
//! the connection's loop, from the connection's state and a frame to the
//! next state and the reply.

use crate::command::pipelining::{closed_queue, run_first, MultiCommand, MultiView};
use crate::command::{Command, CommandError, CommandFault, CommandView};
use crate::replication::{Replication, ReplicationState};
use crate::resp::types::{views_of, RespType, RespValue};
use crate::storage::db::{DBState, DB};
use vstd::prelude::*;
use vstd::string::*;

verus! {

/// What a connection is to do after a frame was handled.
#[derive(Debug)]
pub struct Handled {
    /// The reply to write to the client.
    pub response: RespType,
    /// Whether the connection becomes a replica stream once the reply is
    /// written: the master then registers it as a peer and reads no more
    /// commands from it.
    pub become_replica: bool,
}

/// The outcome of handling one frame.
pub struct Outcome {
    /// The connection's queue afterwards.
    pub multi: MultiView,
    /// The store afterwards.
    pub db: DBState,
    /// The server's replication side afterwards.
    pub replication: ReplicationState,
    /// The reply to the client.
    pub reply: RespValue,
    /// Whether the connection becomes a replica stream.
    pub become_replica: bool,
}

/// The outcome of handling a frame that was read as `parsed`, on a
/// connection whose queue is `multi`.
pub open spec fn handle_parsed(
    multi: MultiView,
    parsed: Result<CommandView, CommandFault>,
    db: DBState,
    replication: ReplicationState,
) -> Outcome {
    match parsed {
        Err(e) => Outcome {
            multi: if multi.active {
                closed_queue()
            } else {
                multi
            },
            db,
            replication,
            reply: RespValue::SimpleError(e.message()),
            become_replica: false,
        },
        Ok(CommandView::Multi) => if multi.active {
            Outcome {
                multi,
                db,
                replication,
                reply: RespValue::SimpleError("MULTI calls cannot be nested"@),
                become_replica: false,
            }
        } else {
            Outcome {
                multi: MultiView { active: true, ..multi },
                db,
                replication,
                reply: RespValue::SimpleString("OK"@),
                become_replica: false,
            }
        },
        Ok(CommandView::Exec) => if multi.active {
            let run = run_first(multi.queued, multi.queued.len(), db, replication);
            Outcome {
                multi: closed_queue(),
                db: run.db,
                replication: run.replication,
                reply: RespValue::Array(run.replies),
                become_replica: false,
            }
        } else {
            Outcome {
                multi,
                db,
                replication,
                reply: RespValue::SimpleError("EXEC without MULTI"@),
                become_replica: false,
            }
        },
        Ok(CommandView::Discard) => if multi.active {
            Outcome {
                multi: closed_queue(),
                db,
                replication,
                reply: RespValue::SimpleString("OK"@),
                become_replica: false,
            }
        } else {
            Outcome {
                multi,
                db,
                replication,
                reply: RespValue::SimpleError("DISCARD without MULTI"@),
                become_replica: false,
            }
        },
        Ok(CommandView::Psync(psync)) => Outcome {
            multi,
            db,
            replication,
            reply: psync.reply(replication),
            become_replica: true,
        },
        Ok(command) => if multi.active {
            Outcome {
                multi: MultiView { queued: multi.queued.push(command), ..multi },
                db,
                replication,
                reply: RespValue::SimpleString("QUEUED"@),
                become_replica: false,
            }
        } else {
            Outcome {
                multi,
                db: command.after(db),
                replication: command.fanout(db, replication),
                reply: command.reply(db, replication),
                become_replica: false,
            }
        },
    }
}

/// The store after a frame of the replication stream, read as `parsed`, was
/// applied: the command is carried out, a frame that is no command is
/// skipped.
pub open spec fn replay_parsed(parsed: Result<CommandView, CommandFault>, db: DBState) -> DBState {
    match parsed {
        Ok(command) => command.after(db),
        Err(_) => db,
    }
}

/// The command handling of one connection.
#[derive(Debug)]
pub struct FrameHandler {
    multicommand: MultiCommand,
}

impl View for FrameHandler {
    type V = MultiView;

    closed spec fn view(&self) -> MultiView {
        self.multicommand@
    }
}

impl FrameHandler {
    /// The handling of a new connection: no queue is open.
    pub fn new() -> (res: FrameHandler)
        ensures
            res@ == closed_queue(),
    {
        FrameHandler { multicommand: MultiCommand::new() }
    }

    /// Handles one command frame of a client: reads the command, queues it
    /// or carries it out, and says what to reply. The wall clock, from which
    /// a time to live counts, is read here.
    pub fn handle(&mut self, frame: Vec<RespType>, db: &mut DB, replication: &mut Replication)
        -> (res: Handled)
        ensures
            exists|now: int|
                {
                    let outcome = handle_parsed(
                        old(self)@,
                        #[trigger] CommandView::read(views_of(frame@), now),
                        old(db)@,
                        old(replication)@,
                    );
                    &&& final(self)@ == outcome.multi
                    &&& final(db)@ == outcome.db
                    &&& final(replication)@ == outcome.replication
                    &&& res.response@ == outcome.reply
                    &&& res.become_replica == outcome.become_replica
                },
    {
        let parsed = Command::from_resp_command_frame(frame);
        self.handle_command(parsed, db, replication)
    }

    /// Handles a frame that was read already, as a command or as an error.
    pub fn handle_command(
        &mut self,
        parsed: Result<Command, CommandError>,
        db: &mut DB,
        replication: &mut Replication,
    ) -> (res: Handled)
        ensures
            ({
                let outcome = handle_parsed(
                    old(self)@,
                    parsed_view(parsed),
                    old(db)@,
                    old(replication)@,
                );
                &&& final(self)@ == outcome.multi
                &&& final(db)@ == outcome.db
                &&& final(replication)@ == outcome.replication
                &&& res.response@ == outcome.reply
                &&& res.become_replica == outcome.become_replica
            }),
    {
        let cmd = match parsed {
            Ok(cmd) => cmd,
            Err(e) => {
                if self.multicommand.is_active() {
                    self.multicommand.discard();
                }
                return Handled {
                    response: RespType::SimpleError(e.message()),
                    become_replica: false,
                };
            },
        };
        match cmd {
            Command::Multi => {
                match self.multicommand.init() {
                    Ok(_) => Handled {
                        response: cmd.execute(db, replication),
                        become_replica: false,
                    },
                    Err(e) => Handled {
                        response: RespType::SimpleError(e.message()),
                        become_replica: false,
                    },
                }
            },
            Command::Exec => {
                if self.multicommand.is_active() {
                    Handled {
                        response: self.multicommand.exec(db, replication),
                        become_replica: false,
                    }
                } else {
                    Handled {
                        response: RespType::SimpleError(String::from_str("EXEC without MULTI")),
                        become_replica: false,
                    }
                }
            },
            Command::Discard => {
                if self.multicommand.is_active() {
                    self.multicommand.discard();
                    Handled { response: cmd.execute(db, replication), become_replica: false }
                } else {
                    Handled {
                        response: RespType::SimpleError(String::from_str("DISCARD without MULTI")),
                        become_replica: false,
                    }
                }
            },
            Command::Psync(psync) => Handled {
                response: psync.apply(replication),
                become_replica: true,
            },
            _ => {
                if self.multicommand.is_active() {
                    self.multicommand.add_command(cmd);
                    Handled {
                        response: RespType::SimpleString(String::from_str("QUEUED")),
                        become_replica: false,
                    }
                } else {
                    Handled {
                        response: cmd.execute_and_replicate(db, replication),
                        become_replica: false,
                    }
                }
            },
        }
    }

    /// Applies one frame of the replication stream that a replica reads from
    /// its master: the command is carried out on the store, and nothing is
    /// replied. A frame that is no command is skipped, and the error is
    /// returned for the record.
    pub fn handle_replication_stream(&mut self, frame: Vec<RespType>, db: &mut DB, replication:
        &Replication) -> (res: Result<(), CommandError>)
        ensures
            final(self)@ == old(self)@,
            exists|now: int|
                {
                    let parsed = #[trigger] CommandView::read(views_of(frame@), now);
                    &&& final(db)@ == replay_parsed(parsed, old(db)@)
                    &&& match res {
                        Ok(_) => parsed is Ok,
                        Err(e) => parsed == Err::<CommandView, CommandFault>(e@),
                    }
                },
    {
        let parsed = Command::from_resp_command_frame(frame);
        Self::replay_command(parsed, db, replication)
    }

    /// Applies a frame of the replication stream that was read already.
    pub fn replay_command(
        parsed: Result<Command, CommandError>,
        db: &mut DB,
        replication: &Replication,
    ) -> (res: Result<(), CommandError>)
        ensures
            final(db)@ == replay_parsed(parsed_view(parsed), old(db)@),
            match res {
                Ok(_) => parsed is Ok,
                Err(e) => parsed matches Err(f) && f@ == e@,
            },
    {
        match parsed {
            Ok(cmd) => {
                cmd.execute(db, replication);
                Ok(())
            },
            Err(e) => Err(e),
        }
    }
}

/// The mathematical value of a frame that was read.
pub open spec fn parsed_view(parsed: Result<Command, CommandError>) -> Result<
    CommandView,
    CommandFault,
> {
    match parsed {
        Ok(c) => Ok(c@),
        Err(e) => Err(e@),
    }
}


/// Whether a command is queued while a queue is open: any command but
/// `MULTI`, `EXEC`, `DISCARD` and `PSYNC`.
pub open spec fn is_queued(command: CommandView) -> bool {
    !(command is Multi || command is Exec || command is Discard || command is Psync)
}

/// The connection's queue after the first `n` of a list of commands were
/// handled in turn.
pub open spec fn multi_after(
    multi: MultiView,
    commands: Seq<CommandView>,
    n: nat,
    db: DBState,
    replication: ReplicationState,
) -> MultiView
    decreases n,
{
    if n == 0 {
        multi
    } else {
        handle_parsed(
            multi_after(multi, commands, (n - 1) as nat, db, replication),
            Ok(commands[n - 1]),
            db,
            replication,
        ).multi
    }
}

/// While a queue is open, commands are queued in the order they come, each
/// is answered with `QUEUED`, and the store and the replicas see nothing of
/// them.
pub proof fn lemma_queueing(
    commands: Seq<CommandView>,
    n: nat,
    db: DBState,
    replication: ReplicationState,
)
    requires
        n <= commands.len(),
        forall|i: int| 0 <= i < commands.len() ==> is_queued(#[trigger] commands[i]),
    ensures
        multi_after(
            MultiView { active: true, queued: Seq::empty() },
            commands,
            n,
            db,
            replication,
        ) == (MultiView { active: true, queued: commands.subrange(0, n as int) }),
        n > 0 ==> ({
            let step = handle_parsed(
                multi_after(
                    MultiView { active: true, queued: Seq::empty() },
                    commands,
                    (n - 1) as nat,
                    db,
                    replication,
                ),
                Ok(commands[n - 1]),
                db,
                replication,
            );
            &&& step.reply == RespValue::SimpleString("QUEUED"@)
            &&& step.db == db
            &&& step.replication == replication
        }),
    decreases n,
{
    let open = MultiView { active: true, queued: Seq::empty() };
    if n == 0 {
        assert(commands.subrange(0, 0) =~= Seq::<CommandView>::empty());
    } else {
        lemma_queueing(commands, (n - 1) as nat, db, replication);
        assert(is_queued(commands[n - 1]));
        assert(commands.subrange(0, n - 1).push(commands[n - 1]) =~= commands.subrange(
            0,
            n as int,
        ));
    }
}

/// Carrying out `n` commands gives `n` replies, each the reply of its
/// command on the store and the server as the commands before left them.
pub proof fn lemma_run_replies(
    commands: Seq<CommandView>,
    n: nat,
    db: DBState,
    replication: ReplicationState,
)
    requires
        n <= commands.len(),
    ensures
        run_first(commands, n, db, replication).replies.len() == n,
        forall|i: int|
            0 <= i < n ==> #[trigger] run_first(commands, n, db, replication).replies[i]
                == commands[i].reply(
                run_first(commands, i as nat, db, replication).db,
                run_first(commands, i as nat, db, replication).replication,
            ),
    decreases n,
{
    if n > 0 {
        lemma_run_replies(commands, (n - 1) as nat, db, replication);
    }
}

/// `MULTI`, then commands, then `EXEC`: the reply to `EXEC` is an array with
/// one reply for each command, in the order the commands were sent, and the
/// queue is closed and empty afterwards.
pub proof fn lemma_multi_exec(
    commands: Seq<CommandView>,
    db: DBState,
    replication: ReplicationState,
)
    requires
        forall|i: int| 0 <= i < commands.len() ==> is_queued(#[trigger] commands[i]),
    ensures
        ({
            let opened = handle_parsed(closed_queue(), Ok(CommandView::Multi), db, replication);
            let queued = multi_after(opened.multi, commands, commands.len(), db, replication);
            let done = handle_parsed(queued, Ok(CommandView::Exec), db, replication);
            let run = run_first(commands, commands.len(), db, replication);
            &&& opened.reply == RespValue::SimpleString("OK"@)
            &&& done.reply == RespValue::Array(run.replies)
            &&& run.replies.len() == commands.len()
            &&& forall|i: int|
                0 <= i < commands.len() ==> #[trigger] run.replies[i] == commands[i].reply(
                    run_first(commands, i as nat, db, replication).db,
                    run_first(commands, i as nat, db, replication).replication,
                )
            &&& done.multi == closed_queue()
        }),
{
    lemma_queueing(commands, commands.len(), db, replication);
    lemma_run_replies(commands, commands.len(), db, replication);
    assert(commands.subrange(0, commands.len() as int) =~= commands);
}

/// A command is handed over for broadcast to the replicas at most once: once
/// where it is a write that succeeded and a replica is connected, else not
/// at all. The list of replicas is left as it is.
pub proof fn lemma_one_broadcast(
    command: CommandView,
    db: DBState,
    replication: ReplicationState,
)
    ensures
        ({
            let after = command.fanout(db, replication);
            let sent = command.replication_command() is Some && !(command.reply(
                db,
                replication,
            ) is SimpleError) && replication.replicas.peers.len() > 0;
            &&& after.replicas.peers == replication.replicas.peers
            &&& sent ==> after.replicas.pending == replication.replicas.pending.push(
                command.replication_command()->Some_0,
            )
            &&& !sent ==> after.replicas.pending == replication.replicas.pending
        }),
{
}

} // verus!
