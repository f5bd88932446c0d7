//! `SET key value [PX ms | PXAT unix-ms]`.

use super::{
    bulk_arg, bulk_text, error, fault, read_as, ref_views, CommandError, CommandFault,
};
use crate::clock::{plus_millis, whole_millis, Timestamp};
use crate::resp::types::{lemma_array_view, views_of, RespType, RespValue};
use crate::storage::db::{deadline_of, DBState, Value, ValueView, DB};
use crate::storage::DBFault;
use crate::text::{
    decimal_text, lowercase, parse_u64, parse_u64_text, str_eq, to_lowercase, u64_to_string,
};
use vstd::prelude::*;
use vstd::string::*;

verus! {

/// An option of the `SET` command.
#[derive(Clone, Copy, Debug, PartialEq, Eq, Structural)]
pub enum SetOption {
    /// The key's time to live in milliseconds.
    PX(u64),
    /// The key's deadline in milliseconds since the Unix epoch.
    PXAT(u64),
}

/// The `SET` command.
#[derive(Debug)]
pub struct SetValue {
    key: String,
    value: String,
    expiry: Option<Timestamp>,
}

/// The mathematical value of a [`SetValue`].
pub struct SetView {
    pub key: Seq<char>,
    pub value: Seq<char>,
    /// The deadline in nanoseconds since the Unix epoch.
    pub expiry: Option<int>,
}

impl View for SetValue {
    type V = SetView;

    closed spec fn view(&self) -> SetView {
        SetView { key: self.key@, value: self.value@, expiry: deadline_of(self.expiry) }
    }
}

/// Whether an executable result of reading an option is the given
/// mathematical one.
pub open spec fn option_as(
    res: Result<(SetOption, usize), CommandError>,
    want: Result<(SetOption, nat), CommandFault>,
) -> bool {
    match res {
        Ok((opt, next)) => want == Ok::<(SetOption, nat), CommandFault>((opt, next as nat)),
        Err(e) => want == Err::<(SetOption, nat), CommandFault>(e@),
    }
}

impl SetOption {
    /// The deadline that the option sets for a command read at the instant
    /// `now`.
    pub open spec fn deadline(self, now: int) -> int {
        match self {
            SetOption::PX(ttl) => plus_millis(now, ttl as int),
            SetOption::PXAT(at) => plus_millis(0, at as int),
        }
    }

    /// The number that follows an option's name at index `start`, a bulk
    /// string of decimal digits, and the index after it.
    pub open spec fn read_number(
        opts: Seq<RespValue>,
        start: int,
        missing: Seq<char>,
        no_bulk: Seq<char>,
        no_number: Seq<char>,
    ) -> Result<(u64, nat), CommandFault> {
        if start + 1 >= opts.len() {
            Err(fault(missing))
        } else {
            match bulk_text(opts[start + 1]) {
                None => Err(fault(no_bulk)),
                Some(t) => match parse_u64_text(t) {
                    None => Err(fault(no_number)),
                    Some(v) => Ok((v as u64, (start + 2) as nat)),
                },
            }
        }
    }

    /// The option `PX` at index `start`, and the index after it.
    pub open spec fn read_px(opts: Seq<RespValue>, start: int) -> Result<
        (SetOption, nat),
        CommandFault,
    > {
        match Self::read_number(
            opts,
            start,
            "Value for PX is not specified. Provide an integer value"@,
            "Value for PX should be in bulk string format"@,
            "Value for PX should be an integer"@,
        ) {
            Ok((v, next)) => Ok((SetOption::PX(v), next)),
            Err(e) => Err(e),
        }
    }

    /// The option `PXAT` at index `start`, and the index after it.
    pub open spec fn read_pxat(opts: Seq<RespValue>, start: int) -> Result<
        (SetOption, nat),
        CommandFault,
    > {
        match Self::read_number(
            opts,
            start,
            "Value for PXAT is not specified. Provide an integer value"@,
            "Value for PXAT should be in bulk string format"@,
            "Value for PXAT should be an integer"@,
        ) {
            Ok((v, next)) => Ok((SetOption::PXAT(v), next)),
            Err(e) => Err(e),
        }
    }

    /// The option at index `start` whose name in lower case is given, and
    /// the index after it.
    pub open spec fn read_named(lower: Seq<char>, opts: Seq<RespValue>, start: int) -> Result<
        (SetOption, nat),
        CommandFault,
    > {
        if lower == "px"@ {
            Self::read_px(opts, start)
        } else if lower == "pxat"@ {
            Self::read_pxat(opts, start)
        } else {
            Err(fault("Invalid option specified"@))
        }
    }

    /// The option at index `start`, and the index after it.
    pub open spec fn read(opts: Seq<RespValue>, start: int) -> Result<
        (SetOption, nat),
        CommandFault,
    > {
        if start < 0 || start >= opts.len() {
            Err(fault("Invalid arguments"@))
        } else {
            match bulk_text(opts[start]) {
                None => Err(
                    fault("Invalid argument. All arguments should be in bulk string format"@),
                ),
                Some(name) => Self::read_named(lowercase(name), opts, start),
            }
        }
    }

    /// Reads the option that begins at `start_idx`, and says where the next
    /// one begins.
    pub fn parse(opts: &[&RespType], start_idx: usize) -> (res: Result<
        (SetOption, usize),
        CommandError,
    >)
        ensures
            option_as(res, Self::read(ref_views(opts@), start_idx as int)),
    {
        if start_idx >= opts.len() {
            return Err(error("Invalid arguments"));
        }
        let name = match opts[start_idx] {
            RespType::BulkString(o) => o,
            _ => {
                return Err(
                    error("Invalid argument. All arguments should be in bulk string format"),
                );
            },
        };
        let lower = to_lowercase(name.as_str());
        Self::parse_named(lower.as_str(), opts, start_idx)
    }

    /// Reads the option that begins at `start_idx`, whose name in lower case
    /// is given, and says where the next one begins.
    pub fn parse_named(lower: &str, opts: &[&RespType], start_idx: usize) -> (res: Result<
        (SetOption, usize),
        CommandError,
    >)
        ensures
            option_as(res, Self::read_named(lower@, ref_views(opts@), start_idx as int)),
    {
        if str_eq(lower, "px") {
            Self::get_px(opts, start_idx)
        } else if str_eq(lower, "pxat") {
            Self::get_pxat(opts, start_idx)
        } else {
            Err(error("Invalid option specified"))
        }
    }

    fn get_number(
        opts: &[&RespType],
        start_idx: usize,
        missing: &str,
        no_bulk: &str,
        no_number: &str,
    ) -> (res: Result<(u64, usize), CommandError>)
        ensures
            match res {
                Ok((v, next)) => Self::read_number(
                    ref_views(opts@),
                    start_idx as int,
                    missing@,
                    no_bulk@,
                    no_number@,
                ) == Ok::<(u64, nat), CommandFault>((v, next as nat)),
                Err(e) => Self::read_number(
                    ref_views(opts@),
                    start_idx as int,
                    missing@,
                    no_bulk@,
                    no_number@,
                ) == Err::<(u64, nat), CommandFault>(e@),
            },
    {
        let held = opts.len();
        let value_idx = match start_idx.checked_add(1) {
            Some(i) => i,
            None => {
                return Err(error(missing));
            },
        };
        if value_idx >= held {
            return Err(error(missing));
        }
        let text = match opts[value_idx] {
            RespType::BulkString(p) => p,
            _ => {
                return Err(error(no_bulk));
            },
        };
        match parse_u64(text.as_str()) {
            Some(v) => Ok((v, value_idx + 1)),
            None => Err(error(no_number)),
        }
    }

    /// Reads the number of a `PX` option, and says where the next option
    /// begins.
    pub fn get_px(opts: &[&RespType], start_idx: usize) -> (res: Result<
        (SetOption, usize),
        CommandError,
    >)
        ensures
            option_as(res, Self::read_px(ref_views(opts@), start_idx as int)),
    {
        match Self::get_number(
            opts,
            start_idx,
            "Value for PX is not specified. Provide an integer value",
            "Value for PX should be in bulk string format",
            "Value for PX should be an integer",
        ) {
            Ok((v, next)) => Ok((SetOption::PX(v), next)),
            Err(e) => Err(e),
        }
    }

    /// Reads the number of a `PXAT` option, and says where the next option
    /// begins.
    pub fn get_pxat(opts: &[&RespType], start_idx: usize) -> (res: Result<
        (SetOption, usize),
        CommandError,
    >)
        ensures
            option_as(res, Self::read_pxat(ref_views(opts@), start_idx as int)),
    {
        match Self::get_number(
            opts,
            start_idx,
            "Value for PXAT is not specified. Provide an integer value",
            "Value for PXAT should be in bulk string format",
            "Value for PXAT should be an integer",
        ) {
            Ok((v, next)) => Ok((SetOption::PXAT(v), next)),
            Err(e) => Err(e),
        }
    }

    /// The instant that the option sets as deadline for a command read at
    /// the instant `now`.
    pub fn deadline_at(&self, now: Timestamp) -> (res: Timestamp)
        ensures
            res@ == self.deadline(now@),
    {
        match self {
            SetOption::PX(ttl) => now.add_millis(*ttl),
            SetOption::PXAT(at) => Timestamp::from_unix_millis(*at),
        }
    }
}

impl SetView {
    /// The deadline that the options from index `at` on set, one after
    /// another, the last one winning; `so_far` where there is none.
    pub open spec fn read_expiry(opts: Seq<RespValue>, at: nat, now: int, so_far: Option<int>)
        -> Result<Option<int>, CommandFault>
        decreases opts.len() - at,
    {
        if at >= opts.len() {
            Ok(so_far)
        } else {
            match SetOption::read(opts, at as int) {
                Err(e) => Err(fault(e.message())),
                Ok((opt, next)) => if next > at {
                    Self::read_expiry(opts, next, now, Some(opt.deadline(now)))
                } else {
                    Ok(so_far)
                },
            }
        }
    }

    /// The command that the arguments spell when they are read at the
    /// instant `now`: the key, the value, then options, each argument a bulk
    /// string.
    pub open spec fn read(args: Seq<RespValue>, now: int) -> Result<SetView, CommandFault> {
        if args.len() < 2 {
            Err(fault("Wrong number of arguments specified for 'SET' command"@))
        } else {
            match bulk_text(args[0]) {
                None => Err(fault("Invalid argument. Key must be a bulk string"@)),
                Some(key) => match bulk_text(args[1]) {
                    None => Err(fault("Invalid argument. Value must be a bulk string"@)),
                    Some(value) => match Self::read_expiry(args.skip(2), 0, now, None) {
                        Err(e) => Err(e),
                        Ok(expiry) => Ok(SetView { key, value, expiry }),
                    },
                },
            }
        }
    }

    /// The reply: `OK` as a bulk string, or an error where the key holds a
    /// list.
    pub open spec fn reply(self, db: DBState) -> RespValue {
        if db.takes_string(self.key) {
            RespValue::BulkString("OK"@)
        } else {
            RespValue::SimpleError(DBFault::WrongType.message())
        }
    }

    /// The store after the command: the key holds the value, unless it held
    /// a list.
    pub open spec fn after(self, db: DBState) -> DBState {
        if db.takes_string(self.key) {
            db.after_set(self.key, ValueView::String(self.value), self.expiry)
        } else {
            db
        }
    }

    /// The frame that repeats the command on a replica: the deadline goes
    /// along as `PXAT` with its milliseconds since the Unix epoch.
    pub open spec fn command(self) -> RespValue {
        let head = seq![
            RespValue::BulkString("SET"@),
            RespValue::BulkString(self.key),
            RespValue::BulkString(self.value),
        ];
        match self.expiry {
            Some(d) => RespValue::Array(
                head + seq![
                    RespValue::BulkString("PXAT"@),
                    RespValue::BulkString(decimal_text(whole_millis(d) as nat)),
                ],
            ),
            None => RespValue::Array(head),
        }
    }
}

impl SetValue {
    /// Reads the command from its arguments. A time to live counts from the
    /// wall clock's time, which is read here.
    pub fn with_args(args: Vec<RespType>) -> (res: Result<SetValue, CommandError>)
        ensures
            exists|now: int| read_as(res, #[trigger] SetView::read(views_of(args@), now)),
    {
        let now = Timestamp::now_utc();
        Self::with_args_at(args, now)
    }

    /// Reads the command from its arguments at the instant `now`, from which
    /// a time to live counts.
    pub fn with_args_at(args: Vec<RespType>, now: Timestamp) -> (res: Result<SetValue, CommandError>)
        ensures
            read_as(res, SetView::read(views_of(args@), now@)),
    {
        if args.len() < 2 {
            return Err(error("Wrong number of arguments specified for 'SET' command"));
        }
        let key = match bulk_arg(&args, 0) {
            Some(k) => k,
            None => {
                return Err(error("Invalid argument. Key must be a bulk string"));
            },
        };
        let value = match bulk_arg(&args, 1) {
            Some(v) => v,
            None => {
                return Err(error("Invalid argument. Value must be a bulk string"));
            },
        };
        let mut option_args: Vec<&RespType> = Vec::new();
        let mut i: usize = 2;
        while i < args.len()
            invariant
                2 <= i <= args.len(),
                option_args@.len() == i - 2,
                forall|j: int| 0 <= j < i - 2 ==> *option_args@[j] == args@[j + 2],
            decreases args.len() - i,
        {
            option_args.push(&args[i]);
            i += 1;
        }
        let ghost opts = views_of(args@).skip(2);
        assert(ref_views(option_args@) =~= opts);
        let mut expiry: Option<Timestamp> = None;
        let mut start_idx: usize = 0;
        while start_idx < option_args.len()
            invariant
                args@.len() >= 2,
                bulk_text(views_of(args@)[0]) == Some(key@),
                bulk_text(views_of(args@)[1]) == Some(value@),
                opts == views_of(args@).skip(2),
                ref_views(option_args@) == opts,
                SetView::read_expiry(opts, 0, now@, None) == SetView::read_expiry(
                    opts,
                    start_idx as nat,
                    now@,
                    deadline_of(expiry),
                ),
            decreases option_args.len() - start_idx,
        {
            let (opt, next) = match SetOption::parse(option_args.as_slice(), start_idx) {
                Ok(pair) => pair,
                Err(e) => {
                    return Err(CommandError::Other(e.message()));
                },
            };
            expiry = Some(opt.deadline_at(now));
            start_idx = next;
        }
        Ok(SetValue { key, value, expiry })
    }

    /// Carries the command out on the store.
    pub fn apply(&self, db: &mut DB) -> (res: RespType)
        ensures
            res@ == self@.reply(old(db)@),
            final(db)@ == self@.after(old(db)@),
    {
        match db.set(self.key.clone(), Value::String(self.value.clone()), self.expiry) {
            Ok(_) => RespType::BulkString(String::from_str("OK")),
            Err(e) => RespType::SimpleError(e.message()),
        }
    }

    /// The frame that repeats the command on a replica.
    pub fn build_command(&self) -> (res: RespType)
        ensures
            res@ == self@.command(),
    {
        let mut cmd: Vec<RespType> = Vec::new();
        cmd.push(RespType::BulkString(String::from_str("SET")));
        cmd.push(RespType::BulkString(self.key.clone()));
        cmd.push(RespType::BulkString(self.value.clone()));
        if let Some(exp_ts) = self.expiry {
            let ms_from_epoch = exp_ts.unix_millis();
            cmd.push(RespType::BulkString(String::from_str("PXAT")));
            cmd.push(RespType::BulkString(u64_to_string(ms_from_epoch)));
        }
        proof {
            lemma_array_view(cmd);
            assert(views_of(cmd@) =~= self@.command()->Array_0);
        }
        RespType::Array(cmd)
    }
}

} // verus!
