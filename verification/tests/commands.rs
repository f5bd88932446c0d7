use nimblecache::clock::Timestamp;
use nimblecache::command::del::Del;
use nimblecache::command::get::Get;
use nimblecache::command::info::{Info, InfoArg};
use nimblecache::command::lpush::LPush;
use nimblecache::command::lrange::LRange;
use nimblecache::command::ping::Ping;
use nimblecache::command::pipelining::{MultiCommand, PipelineError};
use nimblecache::command::psync::Psync;
use nimblecache::command::rpush::RPush;
use nimblecache::command::set::{SetOption, SetValue};
use nimblecache::command::{Command, CommandError, ErrUnknownCommand};
use nimblecache::replication::Replication;
use nimblecache::resp::types::RespType;
use nimblecache::storage::db::{Value, DB};
use nimblecache::storage::DBEvent;

fn cmd_bulk(text: &str) -> RespType {
    RespType::BulkString(text.to_string())
}

fn cmd_args(items: &[&str]) -> Vec<RespType> {
    items.iter().map(|s| cmd_bulk(s)).collect()
}

fn cmd_wire(v: &RespType) -> String {
    String::from_utf8(v.to_vec()).unwrap()
}

fn cmd_other<T: std::fmt::Debug>(res: Result<T, CommandError>) -> String {
    match res {
        Err(CommandError::Other(m)) => m,
        other => panic!("expected an error with a description, got {:?}", other),
    }
}

fn cmd_master() -> Replication {
    Replication::new("0123456789012345678901234567890123456789".to_string(), None)
}

#[test]
fn ping_without_message_replies_pong() {
    let ping = Ping::with_args(vec![]).unwrap();
    assert_eq!(cmd_wire(&ping.apply()), "+PONG\r\n");
}

#[test]
fn ping_with_message_replies_the_message() {
    let ping = Ping::with_args(cmd_args(&["hello"])).unwrap();
    assert_eq!(cmd_wire(&ping.apply()), "$5\r\nhello\r\n");
    let ping = Ping::with_args(cmd_args(&["hello", "ignored"])).unwrap();
    assert_eq!(cmd_wire(&ping.apply()), "$5\r\nhello\r\n");
}

#[test]
fn ping_message_must_be_a_bulk_string() {
    assert_eq!(cmd_other(Ping::with_args(vec![RespType::Integer(1)])), "Invalid message");
}

#[test]
fn ping_build_command() {
    assert_eq!(cmd_wire(&Ping::build_command()), "*1\r\n$4\r\nPING\r\n");
}

#[test]
fn get_reads_its_key() {
    let mut db = DB::new();
    db.set("foo".to_string(), Value::String("bar".to_string()), None).unwrap();
    let get = Get::with_args(cmd_args(&["foo"])).unwrap();
    assert_eq!(cmd_wire(&get.apply(&db)), "$3\r\nbar\r\n");
    let get = Get::with_args(cmd_args(&["nope"])).unwrap();
    assert_eq!(cmd_wire(&get.apply(&db)), "$-1\r\n");
}

#[test]
fn get_argument_errors() {
    assert_eq!(
        cmd_other(Get::with_args(vec![])),
        "Wrong number of arguments specified for 'GET' command"
    );
    assert_eq!(
        cmd_other(Get::with_args(vec![RespType::NullBulkString])),
        "Invalid argument. Key must be a bulk string"
    );
}

#[test]
fn get_on_a_list_replies_wrong_type() {
    let mut db = DB::new();
    db.rpush("l".to_string(), vec!["a".to_string()]).unwrap();
    let get = Get::with_args(cmd_args(&["l"])).unwrap();
    assert_eq!(
        cmd_wire(&get.apply(&db)),
        "-WRONGTYPE Operation against a key holding the wrong kind of value\r\n"
    );
}

#[test]
fn set_stores_and_replies_ok() {
    let mut db = DB::new();
    let set = SetValue::with_args(cmd_args(&["foo", "bar"])).unwrap();
    assert_eq!(cmd_wire(&set.apply(&mut db)), "$2\r\nOK\r\n");
    assert_eq!(db.get("foo".to_string()).unwrap(), Some("bar".to_string()));
    assert!(db.take_events().is_empty());
    assert_eq!(cmd_wire(&set.build_command()), "*3\r\n$3\r\nSET\r\n$3\r\nfoo\r\n$3\r\nbar\r\n");
}

#[test]
fn set_on_a_list_replies_wrong_type() {
    let mut db = DB::new();
    db.rpush("l".to_string(), vec!["a".to_string()]).unwrap();
    let set = SetValue::with_args(cmd_args(&["l", "v"])).unwrap();
    assert_eq!(
        cmd_wire(&set.apply(&mut db)),
        "-WRONGTYPE Operation against a key holding the wrong kind of value\r\n"
    );
}

#[test]
fn set_px_counts_from_the_instant_of_reading() {
    let now = Timestamp::from_unix_nanos(1_000_000_000_123);
    let set = SetValue::with_args_at(cmd_args(&["k", "v", "PX", "100"]), now).unwrap();
    let mut db = DB::new();
    set.apply(&mut db);
    let events = db.take_events();
    assert_eq!(events.len(), 1);
    match &events[0] {
        DBEvent::SetKeyExpiry((at, name)) => {
            assert_eq!(at.unix_nanos(), 1_000_100_000_123);
            assert_eq!(name, "k");
        }
        other => panic!("unexpected event {:?}", other),
    }
    // The replica is told the deadline, in whole milliseconds.
    assert_eq!(
        cmd_wire(&set.build_command()),
        "*5\r\n$3\r\nSET\r\n$1\r\nk\r\n$1\r\nv\r\n$4\r\nPXAT\r\n$7\r\n1000100\r\n"
    );
}

#[test]
fn set_pxat_counts_from_the_epoch() {
    let now = Timestamp::from_unix_nanos(77);
    let set = SetValue::with_args_at(cmd_args(&["k", "v", "pxat", "1700000000000"]), now).unwrap();
    assert_eq!(
        cmd_wire(&set.build_command()),
        "*5\r\n$3\r\nSET\r\n$1\r\nk\r\n$1\r\nv\r\n$4\r\nPXAT\r\n$13\r\n1700000000000\r\n"
    );
}

#[test]
fn set_last_option_wins() {
    let now = Timestamp::from_unix_nanos(0);
    let set =
        SetValue::with_args_at(cmd_args(&["k", "v", "PXAT", "5000", "Px", "7"]), now).unwrap();
    assert_eq!(
        cmd_wire(&set.build_command()),
        "*5\r\n$3\r\nSET\r\n$1\r\nk\r\n$1\r\nv\r\n$4\r\nPXAT\r\n$1\r\n7\r\n"
    );
}

#[test]
fn set_with_wall_clock() {
    let before = Timestamp::now_utc();
    let set = SetValue::with_args(cmd_args(&["k", "v", "PX", "1000"])).unwrap();
    let after = Timestamp::now_utc();
    let mut db = DB::new();
    set.apply(&mut db);
    match &db.take_events()[0] {
        DBEvent::SetKeyExpiry((at, _)) => {
            assert!(at.unix_nanos() >= before.unix_nanos() + 1_000_000_000);
            assert!(at.unix_nanos() <= after.unix_nanos() + 1_000_000_000);
        }
        other => panic!("unexpected event {:?}", other),
    }
}

#[test]
fn set_argument_errors() {
    assert_eq!(
        cmd_other(SetValue::with_args(cmd_args(&["k"]))),
        "Wrong number of arguments specified for 'SET' command"
    );
    assert_eq!(
        cmd_other(SetValue::with_args(vec![RespType::Integer(1), cmd_bulk("v")])),
        "Invalid argument. Key must be a bulk string"
    );
    assert_eq!(
        cmd_other(SetValue::with_args(vec![cmd_bulk("k"), RespType::Integer(1)])),
        "Invalid argument. Value must be a bulk string"
    );
    assert_eq!(
        cmd_other(SetValue::with_args(cmd_args(&["k", "v", "EX", "1"]))),
        "Invalid option specified"
    );
    assert_eq!(
        cmd_other(SetValue::with_args(cmd_args(&["k", "v", "PX"]))),
        "Value for PX is not specified. Provide an integer value"
    );
    assert_eq!(
        cmd_other(SetValue::with_args(cmd_args(&["k", "v", "PX", "soon"]))),
        "Value for PX should be an integer"
    );
    assert_eq!(
        cmd_other(SetValue::with_args(cmd_args(&["k", "v", "PX", "-1"]))),
        "Value for PX should be an integer"
    );
    assert_eq!(
        cmd_other(SetValue::with_args(vec![
            cmd_bulk("k"),
            cmd_bulk("v"),
            cmd_bulk("PX"),
            RespType::Integer(5)
        ])),
        "Value for PX should be in bulk string format"
    );
    assert_eq!(
        cmd_other(SetValue::with_args(cmd_args(&["k", "v", "PXAT"]))),
        "Value for PXAT is not specified. Provide an integer value"
    );
    assert_eq!(
        cmd_other(SetValue::with_args(cmd_args(&["k", "v", "PXAT", "x"]))),
        "Value for PXAT should be an integer"
    );
    assert_eq!(
        cmd_other(SetValue::with_args(vec![
            cmd_bulk("k"),
            cmd_bulk("v"),
            cmd_bulk("pxat"),
            RespType::NullBulkString
        ])),
        "Value for PXAT should be in bulk string format"
    );
    assert_eq!(
        cmd_other(SetValue::with_args(vec![cmd_bulk("k"), cmd_bulk("v"), RespType::Integer(5)])),
        "Invalid argument. All arguments should be in bulk string format"
    );
}

#[test]
fn set_option_parse() {
    let a = cmd_bulk("px");
    let b = cmd_bulk("250");
    let c = cmd_bulk("PXAT");
    let d = cmd_bulk("9");
    let opts = vec![&a, &b, &c, &d];
    assert_eq!(SetOption::parse(&opts, 0).unwrap(), (SetOption::PX(250), 2));
    assert_eq!(SetOption::parse(&opts, 2).unwrap(), (SetOption::PXAT(9), 4));
    assert_eq!(cmd_other(SetOption::parse(&opts, 4)), "Invalid arguments");
    assert_eq!(cmd_other(SetOption::parse(&opts, 1)), "Invalid option specified");
    assert_eq!(
        cmd_other(SetOption::parse(&opts[..3], 2)),
        "Value for PXAT is not specified. Provide an integer value"
    );
    assert_eq!(SetOption::parse_named("px", &opts, 2).unwrap(), (SetOption::PX(9), 4));
    assert_eq!(SetOption::get_px(&opts, 0).unwrap(), (SetOption::PX(250), 2));
    assert_eq!(SetOption::get_pxat(&opts, 0).unwrap(), (SetOption::PXAT(250), 2));
    let now = Timestamp::from_unix_nanos(1_000);
    assert_eq!(SetOption::PX(2).deadline_at(now).unix_nanos(), 2_001_000);
    assert_eq!(SetOption::PXAT(2).deadline_at(now).unix_nanos(), 2_000_000);
}

#[test]
fn del_counts_removed_keys() {
    let mut db = DB::new();
    db.set("foo".to_string(), Value::String("1".to_string()), None).unwrap();
    db.set("bar".to_string(), Value::String("2".to_string()), None).unwrap();
    let del = Del::with_args(cmd_args(&["foo", "baz"])).unwrap();
    assert_eq!(cmd_wire(&del.apply(&mut db)), ":1\r\n");
    assert_eq!(cmd_wire(&del.apply(&mut db)), ":0\r\n");
    assert_eq!(db.get("bar".to_string()).unwrap(), Some("2".to_string()));
}

#[test]
fn del_argument_errors() {
    assert_eq!(
        cmd_other(Del::with_args(vec![])),
        "Wrong number of arguments specified for 'DEL' command"
    );
    assert_eq!(
        cmd_other(Del::with_args(vec![cmd_bulk("a"), RespType::Integer(1)])),
        "Invalid argument. Key must be a bulk string"
    );
}

#[test]
fn lpush_and_rpush_reply_the_length() {
    let mut db = DB::new();
    let lpush = LPush::with_args(cmd_args(&["L", "a", "b"])).unwrap();
    assert_eq!(cmd_wire(&lpush.apply(&mut db)), ":2\r\n");
    let rpush = RPush::with_args(cmd_args(&["L", "c"])).unwrap();
    assert_eq!(cmd_wire(&rpush.apply(&mut db)), ":3\r\n");
    assert_eq!(
        db.lrange("L".to_string(), 0, 2).unwrap(),
        vec!["b".to_string(), "a".to_string(), "c".to_string()]
    );
    assert_eq!(
        cmd_wire(&lpush.build_command()),
        "*4\r\n$5\r\nLPUSH\r\n$1\r\nL\r\n$1\r\na\r\n$1\r\nb\r\n"
    );
    assert_eq!(cmd_wire(&rpush.build_command()), "*3\r\n$5\r\nRPUSH\r\n$1\r\nL\r\n$1\r\nc\r\n");
}

#[test]
fn push_argument_errors() {
    assert_eq!(
        cmd_other(LPush::with_args(cmd_args(&["L"]))),
        "Wrong number of arguments specified for 'LPUSH' command"
    );
    assert_eq!(
        cmd_other(RPush::with_args(cmd_args(&["L"]))),
        "Wrong number of arguments specified for 'RPUSH' command"
    );
    assert_eq!(
        cmd_other(LPush::with_args(vec![RespType::Integer(1), cmd_bulk("a")])),
        "Invalid argument. Key must be a bulk string"
    );
    assert_eq!(
        cmd_other(RPush::with_args(vec![cmd_bulk("L"), cmd_bulk("a"), RespType::Integer(1)])),
        "Invalid argument. Value must be a bulk string"
    );
}

#[test]
fn push_on_a_string_replies_wrong_type() {
    let mut db = DB::new();
    db.set("s".to_string(), Value::String("v".to_string()), None).unwrap();
    let lpush = LPush::with_args(cmd_args(&["s", "a"])).unwrap();
    assert_eq!(
        cmd_wire(&lpush.apply(&mut db)),
        "-WRONGTYPE Operation against a key holding the wrong kind of value\r\n"
    );
}

#[test]
fn lrange_replies_an_array_of_bulk_strings() {
    let mut db = DB::new();
    db.rpush("L".to_string(), vec!["a".to_string(), "b".to_string(), "c".to_string()]).unwrap();
    let lrange = LRange::with_args(cmd_args(&["L", "0", "1"])).unwrap();
    assert_eq!(cmd_wire(&lrange.apply(&db)), "*2\r\n$1\r\na\r\n$1\r\nb\r\n");
    let lrange = LRange::with_args(cmd_args(&["L", "-2", "+5"])).unwrap();
    assert_eq!(cmd_wire(&lrange.apply(&db)), "*2\r\n$1\r\nb\r\n$1\r\nc\r\n");
    let lrange = LRange::with_args(cmd_args(&["nope", "0", "1"])).unwrap();
    assert_eq!(cmd_wire(&lrange.apply(&db)), "*0\r\n");
}

#[test]
fn lrange_argument_errors() {
    assert_eq!(
        cmd_other(LRange::with_args(cmd_args(&["L", "0"]))),
        "Wrong number of arguments specified for 'LRANGE' command"
    );
    assert_eq!(
        cmd_other(LRange::with_args(vec![RespType::Integer(0), cmd_bulk("0"), cmd_bulk("1")])),
        "Invalid argument. Key must be a bulk string"
    );
    assert_eq!(
        cmd_other(LRange::with_args(cmd_args(&["L", "x", "1"]))),
        "Start index should be an integer"
    );
    assert_eq!(
        cmd_other(LRange::with_args(cmd_args(&["L", "0", "1.5"]))),
        "Stop index should be an integer"
    );
    assert_eq!(
        cmd_other(LRange::with_args(vec![cmd_bulk("L"), RespType::Integer(0), cmd_bulk("1")])),
        "Invalid argument. Value must be an integer in bulk string format"
    );
}

#[test]
fn psync_replies_full_resync() {
    let master = cmd_master();
    let psync = Psync::with_args(cmd_args(&["?", "-1"])).unwrap();
    assert_eq!(
        cmd_wire(&psync.apply(&master)),
        "+FULLRESYNC 0123456789012345678901234567890123456789 -1\r\n"
    );
    let psync = Psync::with_args(cmd_args(&["abc", "42"])).unwrap();
    assert_eq!(
        cmd_wire(&psync.apply(&master)),
        "+FULLRESYNC 0123456789012345678901234567890123456789 42\r\n"
    );
    assert_eq!(cmd_wire(&psync.build_command()), "*3\r\n$5\r\nPSYNC\r\n$3\r\nabc\r\n$2\r\n42\r\n");
    let first = Psync::new("?".to_string(), None);
    assert_eq!(cmd_wire(&first.build_command()), "*3\r\n$5\r\nPSYNC\r\n$1\r\n?\r\n$2\r\n-1\r\n");
}

#[test]
fn psync_argument_errors() {
    assert_eq!(
        cmd_other(Psync::with_args(cmd_args(&["?"]))),
        "Wrong number of arguments specified for 'PSYNC' command"
    );
    assert_eq!(
        cmd_other(Psync::with_args(vec![RespType::Integer(1), cmd_bulk("-1")])),
        "Invalid argument. replication id must be a bulk string"
    );
    assert_eq!(
        cmd_other(Psync::with_args(vec![cmd_bulk("?"), RespType::Integer(1)])),
        "Invalid argument. Value must be in bulk string format"
    );
    assert_eq!(cmd_other(Psync::with_args(cmd_args(&["?", "-2"]))), "Offset should be an integer");
}

#[test]
fn info_of_a_master() {
    let master = cmd_master();
    let want = "# Replication\nrole:master\nmaster_replid:0123456789012345678901234567890123456789\nmaster_repl_offset:0\n\n";
    let info = Info::with_args(vec![]).unwrap();
    assert_eq!(info.apply(&master).to_vec(), RespType::BulkString(want.to_string()).to_vec());
    let info = Info::with_args(cmd_args(&["REPLICATION"])).unwrap();
    assert_eq!(info.apply(&master).to_vec(), RespType::BulkString(want.to_string()).to_vec());
    let info = Info::with_args(cmd_args(&["replication", "Replication"])).unwrap();
    assert_eq!(
        info.apply(&master).to_vec(),
        RespType::BulkString(format!("{}{}", want, want)).to_vec()
    );
}

#[test]
fn info_of_a_replica() {
    let replica = Replication::new("id".to_string(), Some(("localhost".to_string(), 6379)));
    let info = Info::with_args(vec![]).unwrap();
    assert_eq!(
        info.apply(&replica).to_vec(),
        RespType::BulkString("# Replication\nrole:slave\n".to_string()).to_vec()
    );
}

#[test]
fn info_argument_errors() {
    assert_eq!(
        cmd_other(Info::with_args(cmd_args(&["memory"]))),
        "Invalid argument for INFO command"
    );
    assert_eq!(
        cmd_other(Info::with_args(vec![cmd_bulk("replication"), RespType::Integer(1)])),
        "Invalid argument. INFO parameters must be in bulk string format"
    );
    assert_eq!(InfoArg::parse(&cmd_bulk("RePlIcAtIoN")).unwrap(), InfoArg::REPLICATION);
    assert_eq!(InfoArg::from_name("replication").unwrap(), InfoArg::REPLICATION);
    assert!(InfoArg::from_name("REPLICATION").is_err());
}

#[test]
fn command_names_are_matched_whatever_their_case() {
    for name in ["ping", "PING", "PiNg"] {
        let cmd = Command::from_resp_command_frame(cmd_args(&[name])).unwrap();
        assert!(matches!(cmd, Command::Ping(_)));
    }
    assert!(matches!(Command::from_resp_command_frame(cmd_args(&["MULTI"])), Ok(Command::Multi)));
    assert!(matches!(Command::from_resp_command_frame(cmd_args(&["exec"])), Ok(Command::Exec)));
    assert!(matches!(
        Command::from_resp_command_frame(cmd_args(&["Discard"])),
        Ok(Command::Discard)
    ));
    assert!(matches!(
        Command::from_resp_command_frame(cmd_args(&["SET", "k", "v"])),
        Ok(Command::SetValue(_))
    ));
    assert!(matches!(
        Command::from_resp_command_frame(cmd_args(&["GET", "k"])),
        Ok(Command::Get(_))
    ));
    assert!(matches!(
        Command::from_resp_command_frame(cmd_args(&["DEL", "k"])),
        Ok(Command::Del(_))
    ));
    assert!(matches!(
        Command::from_resp_command_frame(cmd_args(&["LPUSH", "k", "v"])),
        Ok(Command::LPush(_))
    ));
    assert!(matches!(
        Command::from_resp_command_frame(cmd_args(&["RPUSH", "k", "v"])),
        Ok(Command::RPush(_))
    ));
    assert!(matches!(
        Command::from_resp_command_frame(cmd_args(&["LRANGE", "k", "0", "1"])),
        Ok(Command::LRange(_))
    ));
    assert!(matches!(
        Command::from_resp_command_frame(cmd_args(&["PSYNC", "?", "-1"])),
        Ok(Command::Psync(_))
    ));
    assert!(matches!(Command::from_resp_command_frame(cmd_args(&["info"])), Ok(Command::Info(_))));
}

#[test]
fn unknown_command_is_reported_as_written() {
    match Command::from_resp_command_frame(cmd_args(&["FlushAll", "now"])) {
        Err(CommandError::UnknownCommand(e)) => assert_eq!(e.cmd, "FlushAll"),
        other => panic!("unexpected {:?}", other),
    }
    let e = CommandError::UnknownCommand(ErrUnknownCommand { cmd: "NOPE".to_string() });
    assert_eq!(e.message(), "Unknown command: NOPE");
    assert_eq!(CommandError::InvalidFormat.message(), "Invalid command format");
    assert_eq!(CommandError::Other("x".to_string()).message(), "x");
}

#[test]
fn frame_that_is_no_command() {
    assert!(matches!(Command::from_resp_command_frame(vec![]), Err(CommandError::InvalidFormat)));
    assert!(matches!(
        Command::from_resp_command_frame(vec![RespType::Integer(1)]),
        Err(CommandError::InvalidFormat)
    ));
}

#[test]
fn command_argument_errors_come_through() {
    assert_eq!(
        cmd_other(Command::from_resp_command_frame(cmd_args(&["GET"]))),
        "Wrong number of arguments specified for 'GET' command"
    );
    assert_eq!(
        cmd_other(Command::from_frame_at(cmd_args(&["set", "k"]), Timestamp::unix_epoch())),
        "Wrong number of arguments specified for 'SET' command"
    );
    assert!(matches!(
        Command::with_name("get", "GET".to_string(), cmd_args(&["k"]), Timestamp::unix_epoch()),
        Ok(Command::Get(_))
    ));
    assert!(matches!(
        Command::with_name("GET", "GET".to_string(), cmd_args(&["k"]), Timestamp::unix_epoch()),
        Err(CommandError::UnknownCommand(_))
    ));
}

#[test]
fn only_writes_are_repeated_on_replicas() {
    let frames: Vec<(Vec<RespType>, bool)> = vec![
        (cmd_args(&["PING"]), false),
        (cmd_args(&["INFO"]), false),
        (cmd_args(&["MULTI"]), false),
        (cmd_args(&["EXEC"]), false),
        (cmd_args(&["DISCARD"]), false),
        (cmd_args(&["GET", "k"]), false),
        (cmd_args(&["DEL", "k"]), false),
        (cmd_args(&["LRANGE", "k", "0", "1"]), false),
        (cmd_args(&["PSYNC", "?", "-1"]), false),
        (cmd_args(&["SET", "k", "v"]), true),
        (cmd_args(&["LPUSH", "k", "v"]), true),
        (cmd_args(&["RPUSH", "k", "v"]), true),
    ];
    for (frame, write) in frames {
        let cmd = Command::from_resp_command_frame(frame).unwrap();
        assert_eq!(cmd.replication_cmd().is_some(), write, "{:?}", cmd);
    }
}

#[test]
fn execute_of_control_commands_only_replies() {
    let mut db = DB::new();
    let master = cmd_master();
    assert_eq!(cmd_wire(&Command::Multi.execute(&mut db, &master)), "+OK\r\n");
    assert_eq!(cmd_wire(&Command::Discard.execute(&mut db, &master)), "+OK\r\n");
    assert_eq!(cmd_wire(&Command::Exec.execute(&mut db, &master)), "$-1\r\n");
}

#[test]
fn successful_writes_are_handed_over_for_broadcast() {
    let mut db = DB::new();
    let mut master = cmd_master();
    let set = Command::from_resp_command_frame(cmd_args(&["SET", "k", "v"])).unwrap();
    // Without a replica nothing is kept for sending.
    set.execute_and_replicate(&mut db, &mut master);
    assert!(master.take_pending().is_empty());
    master.add_replica_peer();
    set.execute_and_replicate(&mut db, &mut master);
    let get = Command::from_resp_command_frame(cmd_args(&["GET", "k"])).unwrap();
    get.execute_and_replicate(&mut db, &mut master);
    // A write that fails is not sent on.
    let lpush = Command::from_resp_command_frame(cmd_args(&["LPUSH", "k", "x"])).unwrap();
    let reply = lpush.execute_and_replicate(&mut db, &mut master);
    assert!(matches!(reply, RespType::SimpleError(_)));
    let pending = master.take_pending();
    assert_eq!(pending.len(), 1);
    assert_eq!(cmd_wire(&pending[0]), "*3\r\n$3\r\nSET\r\n$1\r\nk\r\n$1\r\nv\r\n");
}

#[test]
fn queue_opens_once() {
    let mut multi = MultiCommand::new();
    assert!(!multi.is_active());
    assert!(multi.init().is_ok());
    assert!(multi.is_active());
    assert!(matches!(multi.init(), Err(PipelineError::CannotNestMulti)));
    assert!(multi.is_active());
    assert_eq!(PipelineError::CannotNestMulti.message(), "MULTI calls cannot be nested");
    multi.discard();
    assert!(!multi.is_active());
}

#[test]
fn queue_executes_in_order_and_empties() {
    let mut db = DB::new();
    let mut master = cmd_master();
    master.add_replica_peer();
    let mut multi = MultiCommand::new();
    multi.init().unwrap();
    for frame in [
        cmd_args(&["SET", "x", "1"]),
        cmd_args(&["GET", "x"]),
        cmd_args(&["RPUSH", "x", "a"]),
        cmd_args(&["SET", "x", "2"]),
        cmd_args(&["GET", "x"]),
    ] {
        multi.add_command(Command::from_resp_command_frame(frame).unwrap());
    }
    let reply = multi.exec(&mut db, &mut master);
    assert_eq!(
        cmd_wire(&reply),
        "*5\r\n$2\r\nOK\r\n$1\r\n1\r\n-WRONGTYPE Operation against a key holding the wrong kind of value\r\n$2\r\nOK\r\n$1\r\n2\r\n"
    );
    assert!(!multi.is_active());
    assert_eq!(master.take_pending().len(), 2);
    // The queue is empty: another run replies with an empty array.
    multi.init().unwrap();
    assert_eq!(cmd_wire(&multi.exec(&mut db, &mut master)), "*0\r\n");
}
