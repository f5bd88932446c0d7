//! `INFO [section ...]`.

use super::{bulk_text, error, fault, CommandError, CommandFault};
use crate::replication::{Replication, ReplicationState};
use crate::resp::types::{views_of, RespType, RespValue};
use crate::text::{lowercase, str_eq, to_lowercase};
use vstd::prelude::*;
use vstd::string::*;

verus! {

/// A section of the server's info.
#[derive(Clone, Copy, Debug, PartialEq, Eq, Structural)]
pub enum InfoArg {
    /// What the server knows of replication.
    REPLICATION,
}

/// The `INFO` command.
#[derive(Debug)]
pub struct Info {
    args: Vec<InfoArg>,
}

/// The mathematical value of an [`Info`]: the sections asked for, in order.
pub struct InfoView {
    pub sections: Seq<InfoArg>,
}

impl View for Info {
    type V = InfoView;

    closed spec fn view(&self) -> InfoView {
        InfoView { sections: self.args@ }
    }
}

impl InfoArg {
    /// The section with the given name in lower case.
    pub open spec fn named(lower: Seq<char>) -> Result<InfoArg, CommandFault> {
        if lower == "replication"@ {
            Ok(InfoArg::REPLICATION)
        } else {
            Err(fault("Invalid argument for INFO command"@))
        }
    }

    /// The section that an argument names: a bulk string whose lower-case
    /// form is the name of a section.
    pub open spec fn read(arg: RespValue) -> Result<InfoArg, CommandFault> {
        match bulk_text(arg) {
            None => Err(fault("Invalid argument. INFO parameters must be in bulk string format"@)),
            Some(name) => Self::named(lowercase(name)),
        }
    }

    /// The text of this section for a server.
    pub open spec fn text(self, replication: ReplicationState) -> Seq<char> {
        match self {
            InfoArg::REPLICATION => "# Replication\n"@ + replication.info() + "\n"@,
        }
    }

    /// The section with the given name, which is taken to be in lower case.
    pub fn from_name(lower: &str) -> (res: Result<InfoArg, CommandError>)
        ensures
            match res {
                Ok(a) => Self::named(lower@) == Ok::<InfoArg, CommandFault>(a),
                Err(e) => Self::named(lower@) == Err::<InfoArg, CommandFault>(e@),
            },
    {
        if str_eq(lower, "replication") {
            Ok(InfoArg::REPLICATION)
        } else {
            Err(error("Invalid argument for INFO command"))
        }
    }

    /// Reads the section that an argument names, whatever its case.
    pub fn parse(arg: &RespType) -> (res: Result<InfoArg, CommandError>)
        ensures
            match res {
                Ok(a) => Self::read(arg@) == Ok::<InfoArg, CommandFault>(a),
                Err(e) => Self::read(arg@) == Err::<InfoArg, CommandFault>(e@),
            },
    {
        let name = match arg {
            RespType::BulkString(s) => s,
            _ => {
                return Err(
                    error("Invalid argument. INFO parameters must be in bulk string format"),
                );
            },
        };
        let lower = to_lowercase(name.as_str());
        Self::from_name(lower.as_str())
    }
}

impl InfoView {
    /// All sections, as an `INFO` without arguments asks for them.
    pub open spec fn all() -> Seq<InfoArg> {
        seq![InfoArg::REPLICATION]
    }

    /// The sections that the first `n` arguments name, or the fault of the
    /// first argument that names none.
    pub open spec fn read_first(args: Seq<RespValue>, n: nat) -> Result<Seq<InfoArg>, CommandFault>
        decreases n,
    {
        if n == 0 {
            Ok(Seq::empty())
        } else {
            match Self::read_first(args, (n - 1) as nat) {
                Err(e) => Err(e),
                Ok(sections) => match InfoArg::read(args[n - 1]) {
                    Err(e) => Err(e),
                    Ok(section) => Ok(sections.push(section)),
                },
            }
        }
    }

    /// The command that the arguments spell: the sections they name, or all
    /// sections where there is no argument.
    pub open spec fn read(args: Seq<RespValue>) -> Result<InfoView, CommandFault> {
        if args.len() == 0 {
            Ok(InfoView { sections: Self::all() })
        } else {
            match Self::read_first(args, args.len()) {
                Err(e) => Err(e),
                Ok(sections) => Ok(InfoView { sections }),
            }
        }
    }

    /// The texts of the first `n` sections, one after another.
    pub open spec fn text_first(self, replication: ReplicationState, n: nat) -> Seq<char>
        decreases n,
    {
        if n == 0 {
            Seq::empty()
        } else {
            self.text_first(replication, (n - 1) as nat) + self.sections[n - 1].text(replication)
        }
    }

    /// The reply: the texts of the sections as one bulk string.
    pub open spec fn reply(self, replication: ReplicationState) -> RespValue {
        RespValue::BulkString(self.text_first(replication, self.sections.len()))
    }
}

impl Info {
    /// Reads the command from its arguments.
    pub fn with_args(args: Vec<RespType>) -> (res: Result<Info, CommandError>)
        ensures
            match res {
                Ok(c) => InfoView::read(views_of(args@)) == Ok::<InfoView, CommandFault>(c@),
                Err(e) => InfoView::read(views_of(args@)) == Err::<InfoView, CommandFault>(e@),
            },
    {
        let mut info_args: Vec<InfoArg> = Vec::new();
        if args.len() == 0 {
            info_args.push(InfoArg::REPLICATION);
            assert(info_args@ =~= InfoView::all());
            return Ok(Info { args: info_args });
        }
        let mut i: usize = 0;
        while i < args.len()
            invariant
                i <= args.len(),
                InfoView::read_first(views_of(args@), i as nat) == Ok::<
                    Seq<InfoArg>,
                    CommandFault,
                >(info_args@),
            decreases args.len() - i,
        {
            match InfoArg::parse(&args[i]) {
                Ok(section) => {
                    info_args.push(section);
                },
                Err(e) => {
                    proof {
                        lemma_read_first_fails(views_of(args@), (i + 1) as nat, args@.len() as nat);
                    }
                    return Err(e);
                },
            }
            i += 1;
        }
        Ok(Info { args: info_args })
    }

    /// Carries the command out.
    pub fn apply(&self, replication: &Replication) -> (res: RespType)
        ensures
            res@ == self@.reply(replication@),
    {
        let mut info = String::new();
        let mut i: usize = 0;
        while i < self.args.len()
            invariant
                i <= self.args.len(),
                info@ == self@.text_first(replication@, i as nat),
            decreases self.args.len() - i,
        {
            match self.args[i] {
                InfoArg::REPLICATION => {
                    info.append("# Replication\n");
                    info.append(replication.info_str().as_str());
                    info.append("\n");
                },
            }
            proof {
                assert(info@ =~= self@.text_first(replication@, (i + 1) as nat));
            }
            i += 1;
        }
        RespType::BulkString(info)
    }
}

/// Once an argument names no section, reading more arguments gives the same
/// fault.
proof fn lemma_read_first_fails(args: Seq<RespValue>, n: nat, m: nat)
    requires
        n <= m,
        InfoView::read_first(args, n) is Err,
    ensures
        InfoView::read_first(args, m) == InfoView::read_first(args, n),
    decreases m - n,
{
    if n < m {
        lemma_read_first_fails(args, n, (m - 1) as nat);
    }
}

} // verus!
