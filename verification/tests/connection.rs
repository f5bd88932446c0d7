use bytes::BytesMut;
use nimblecache::clock::Timestamp;
use nimblecache::command::{Command, CommandError};
use nimblecache::handler::{FrameHandler, Handled};
use nimblecache::replication::Replication;
use nimblecache::resp::frame::RespCommandFrame;
use nimblecache::resp::types::RespType;
use nimblecache::storage::db::DB;
use nimblecache::storage::ttl::KeyEvictor;

struct Conn {
    frame: RespCommandFrame,
    handler: FrameHandler,
    db: DB,
    replication: Replication,
}

fn conn_new() -> Conn {
    Conn {
        frame: RespCommandFrame::new(),
        handler: FrameHandler::new(),
        db: DB::new(),
        replication: Replication::new("m".repeat(40), None),
    }
}

/// Feeds the bytes of one command to the connection and returns the bytes
/// of the reply.
fn conn_send(conn: &mut Conn, wire: &[u8]) -> Vec<u8> {
    let mut buf = BytesMut::from(wire);
    let parts = conn.frame.decode(&mut buf).unwrap().unwrap();
    assert!(buf.is_empty());
    let Handled { response, become_replica } =
        conn.handler.handle(parts, &mut conn.db, &mut conn.replication);
    assert!(!become_replica);
    let mut out = BytesMut::new();
    conn.frame.encode(response, &mut out);
    out.to_vec()
}

fn conn_text(bytes: Vec<u8>) -> String {
    String::from_utf8(bytes).unwrap()
}

#[test]
fn wire_ping_without_argument() {
    let mut conn = conn_new();
    assert_eq!(conn_send(&mut conn, b"*1\r\n$4\r\nPING\r\n"), b"+PONG\r\n".to_vec());
}

#[test]
fn wire_set_then_get() {
    let mut conn = conn_new();
    assert_eq!(
        conn_send(&mut conn, b"*3\r\n$3\r\nSET\r\n$3\r\nfoo\r\n$3\r\nbar\r\n"),
        b"$2\r\nOK\r\n".to_vec()
    );
    assert_eq!(conn_send(&mut conn, b"*2\r\n$3\r\nGET\r\n$3\r\nfoo\r\n"), b"$3\r\nbar\r\n".to_vec());
}

#[test]
fn wire_lpush_then_lrange() {
    let mut conn = conn_new();
    assert_eq!(
        conn_send(&mut conn, b"*4\r\n$5\r\nLPUSH\r\n$1\r\nL\r\n$1\r\na\r\n$1\r\nb\r\n"),
        b":2\r\n".to_vec()
    );
    // From the first index to the last: the last value pushed is the head.
    assert_eq!(
        conn_send(&mut conn, b"*4\r\n$6\r\nLRANGE\r\n$1\r\nL\r\n$1\r\n0\r\n$1\r\n1\r\n"),
        b"*2\r\n$1\r\nb\r\n$1\r\na\r\n".to_vec()
    );
    // Index -1 is below index 0 as the two are given, so this range is empty.
    assert_eq!(
        conn_send(&mut conn, b"*4\r\n$6\r\nLRANGE\r\n$1\r\nL\r\n$1\r\n0\r\n$2\r\n-1\r\n"),
        b"*0\r\n".to_vec()
    );
    assert_eq!(
        conn_send(&mut conn, b"*4\r\n$6\r\nLRANGE\r\n$1\r\nL\r\n$2\r\n-2\r\n$2\r\n-1\r\n"),
        b"*2\r\n$1\r\nb\r\n$1\r\na\r\n".to_vec()
    );
}

#[test]
fn wire_lpush_three_values() {
    let mut conn = conn_new();
    assert_eq!(
        conn_send(&mut conn, b"*5\r\n$5\r\nLPUSH\r\n$1\r\nk\r\n$1\r\na\r\n$1\r\nb\r\n$1\r\nc\r\n"),
        b":3\r\n".to_vec()
    );
    assert_eq!(
        conn_send(&mut conn, b"*4\r\n$6\r\nLRANGE\r\n$1\r\nk\r\n$1\r\n0\r\n$1\r\n2\r\n"),
        b"*3\r\n$1\r\nc\r\n$1\r\nb\r\n$1\r\na\r\n".to_vec()
    );
}

#[test]
fn wire_del_count() {
    let mut conn = conn_new();
    conn_send(&mut conn, b"*3\r\n$3\r\nSET\r\n$3\r\nfoo\r\n$1\r\n1\r\n");
    conn_send(&mut conn, b"*3\r\n$3\r\nSET\r\n$3\r\nbar\r\n$1\r\n2\r\n");
    assert_eq!(
        conn_send(&mut conn, b"*3\r\n$3\r\nDEL\r\n$3\r\nfoo\r\n$3\r\nbaz\r\n"),
        b":1\r\n".to_vec()
    );
}

#[test]
fn wire_del_then_get() {
    let mut conn = conn_new();
    conn_send(&mut conn, b"*3\r\n$3\r\nSET\r\n$3\r\nfoo\r\n$1\r\n1\r\n");
    conn_send(&mut conn, b"*2\r\n$3\r\nDEL\r\n$3\r\nfoo\r\n");
    assert_eq!(conn_send(&mut conn, b"*2\r\n$3\r\nGET\r\n$3\r\nfoo\r\n"), b"$-1\r\n".to_vec());
}

#[test]
fn wire_multi_batch() {
    let mut conn = conn_new();
    assert_eq!(conn_send(&mut conn, b"*1\r\n$5\r\nMULTI\r\n"), b"+OK\r\n".to_vec());
    assert_eq!(
        conn_send(&mut conn, b"*3\r\n$3\r\nSET\r\n$1\r\nx\r\n$1\r\n1\r\n"),
        b"+QUEUED\r\n".to_vec()
    );
    assert_eq!(
        conn_send(&mut conn, b"*3\r\n$3\r\nSET\r\n$1\r\ny\r\n$1\r\n2\r\n"),
        b"+QUEUED\r\n".to_vec()
    );
    // Nothing is stored before EXEC.
    assert_eq!(conn.db.get("x".to_string()).unwrap(), None);
    assert_eq!(
        conn_send(&mut conn, b"*1\r\n$4\r\nEXEC\r\n"),
        b"*2\r\n$2\r\nOK\r\n$2\r\nOK\r\n".to_vec()
    );
    assert_eq!(conn.db.get("x".to_string()).unwrap(), Some("1".to_string()));
    assert_eq!(conn.db.get("y".to_string()).unwrap(), Some("2".to_string()));
    // The queue is closed and empty afterwards.
    assert_eq!(conn_text(conn_send(&mut conn, b"*1\r\n$4\r\nEXEC\r\n")), "-EXEC without MULTI\r\n");
}

#[test]
fn wire_expiry() {
    let mut conn = conn_new();
    let mut evictor = KeyEvictor::new();
    let start = Timestamp::now_utc();
    assert_eq!(
        conn_send(&mut conn, b"*5\r\n$3\r\nSET\r\n$1\r\nk\r\n$1\r\nv\r\n$2\r\nPX\r\n$3\r\n100\r\n"),
        b"$2\r\nOK\r\n".to_vec()
    );
    for event in conn.db.take_events() {
        evictor.on_event(event);
    }
    // Before the time to live has passed, the sweeper leaves the key alone.
    let wait = evictor.run(&mut conn.db, start);
    assert!(matches!(wait, Some(ms) if ms >= 99 && ms <= 200));
    assert_eq!(conn_send(&mut conn, b"*2\r\n$3\r\nGET\r\n$1\r\nk\r\n"), b"$1\r\nv\r\n".to_vec());
    // 200 ms later it is gone.
    let later = Timestamp::now_utc().add_millis(200);
    assert_eq!(evictor.run(&mut conn.db, later), None);
    assert_eq!(conn_send(&mut conn, b"*2\r\n$3\r\nGET\r\n$1\r\nk\r\n"), b"$-1\r\n".to_vec());
}

#[test]
fn multi_cannot_be_nested() {
    let mut conn = conn_new();
    conn_send(&mut conn, b"*1\r\n$5\r\nMULTI\r\n");
    assert_eq!(
        conn_text(conn_send(&mut conn, b"*1\r\n$5\r\nMULTI\r\n")),
        "-MULTI calls cannot be nested\r\n"
    );
    // The queue stays open.
    assert_eq!(conn_send(&mut conn, b"*1\r\n$4\r\nPING\r\n"), b"+QUEUED\r\n".to_vec());
    assert_eq!(conn_send(&mut conn, b"*1\r\n$4\r\nEXEC\r\n"), b"*1\r\n+PONG\r\n".to_vec());
}

#[test]
fn exec_and_discard_need_multi() {
    let mut conn = conn_new();
    assert_eq!(conn_text(conn_send(&mut conn, b"*1\r\n$4\r\nEXEC\r\n")), "-EXEC without MULTI\r\n");
    assert_eq!(
        conn_text(conn_send(&mut conn, b"*1\r\n$7\r\nDISCARD\r\n")),
        "-DISCARD without MULTI\r\n"
    );
}

#[test]
fn discard_drops_the_queue() {
    let mut conn = conn_new();
    conn_send(&mut conn, b"*1\r\n$5\r\nMULTI\r\n");
    conn_send(&mut conn, b"*3\r\n$3\r\nSET\r\n$1\r\nx\r\n$1\r\n1\r\n");
    assert_eq!(conn_send(&mut conn, b"*1\r\n$7\r\nDISCARD\r\n"), b"+OK\r\n".to_vec());
    assert_eq!(conn.db.get("x".to_string()).unwrap(), None);
    assert_eq!(conn_text(conn_send(&mut conn, b"*1\r\n$4\r\nEXEC\r\n")), "-EXEC without MULTI\r\n");
}

#[test]
fn command_error_drops_the_queue() {
    let mut conn = conn_new();
    conn_send(&mut conn, b"*1\r\n$5\r\nMULTI\r\n");
    conn_send(&mut conn, b"*3\r\n$3\r\nSET\r\n$1\r\nx\r\n$1\r\n1\r\n");
    assert_eq!(
        conn_text(conn_send(&mut conn, b"*1\r\n$5\r\nBOGUS\r\n")),
        "-Unknown command: BOGUS\r\n"
    );
    assert_eq!(conn_text(conn_send(&mut conn, b"*1\r\n$4\r\nEXEC\r\n")), "-EXEC without MULTI\r\n");
    assert_eq!(conn.db.get("x".to_string()).unwrap(), None);
}

#[test]
fn command_error_outside_a_queue() {
    let mut conn = conn_new();
    assert_eq!(
        conn_text(conn_send(&mut conn, b"*1\r\n$3\r\nGET\r\n")),
        "-Wrong number of arguments specified for 'GET' command\r\n"
    );
    assert_eq!(conn_text(conn_send(&mut conn, b"*0\r\n")), "-Invalid command format\r\n");
    assert_eq!(conn_send(&mut conn, b"*1\r\n$4\r\nPING\r\n"), b"+PONG\r\n".to_vec());
}

#[test]
fn wrong_type_reply() {
    let mut conn = conn_new();
    conn_send(&mut conn, b"*3\r\n$5\r\nRPUSH\r\n$1\r\nl\r\n$1\r\na\r\n");
    let want = "-WRONGTYPE Operation against a key holding the wrong kind of value\r\n";
    assert_eq!(conn_text(conn_send(&mut conn, b"*2\r\n$3\r\nGET\r\n$1\r\nl\r\n")), want);
    assert_eq!(
        conn_text(conn_send(&mut conn, b"*3\r\n$3\r\nSET\r\n$1\r\nl\r\n$1\r\nv\r\n")),
        want
    );
}

#[test]
fn psync_turns_the_connection_into_a_replica_stream() {
    let mut conn = conn_new();
    let mut buf = BytesMut::from(&b"*3\r\n$5\r\nPSYNC\r\n$1\r\n?\r\n$2\r\n-1\r\n"[..]);
    let parts = conn.frame.decode(&mut buf).unwrap().unwrap();
    let handled = conn.handler.handle(parts, &mut conn.db, &mut conn.replication);
    assert!(handled.become_replica);
    assert_eq!(
        conn_text(handled.response.to_vec()),
        format!("+FULLRESYNC {} -1\r\n", "m".repeat(40))
    );
}

#[test]
fn each_write_is_broadcast_once() {
    let mut conn = conn_new();
    conn_send(&mut conn, b"*3\r\n$3\r\nSET\r\n$1\r\na\r\n$1\r\n1\r\n");
    assert!(conn.replication.take_pending().is_empty());
    let id = conn.replication.add_replica_peer();
    conn_send(&mut conn, b"*3\r\n$3\r\nSET\r\n$1\r\na\r\n$1\r\n2\r\n");
    conn_send(&mut conn, b"*2\r\n$3\r\nGET\r\n$1\r\na\r\n");
    conn_send(&mut conn, b"*3\r\n$5\r\nLPUSH\r\n$1\r\nl\r\n$1\r\nx\r\n");
    conn_send(&mut conn, b"*2\r\n$3\r\nDEL\r\n$1\r\na\r\n");
    let pending = conn.replication.take_pending();
    assert_eq!(pending.len(), 2);
    assert_eq!(pending[0].to_vec(), b"*3\r\n$3\r\nSET\r\n$1\r\na\r\n$1\r\n2\r\n".to_vec());
    assert_eq!(pending[1].to_vec(), b"*3\r\n$5\r\nLPUSH\r\n$1\r\nl\r\n$1\r\nx\r\n".to_vec());
    // Queued writes are broadcast when they are carried out.
    conn_send(&mut conn, b"*1\r\n$5\r\nMULTI\r\n");
    conn_send(&mut conn, b"*3\r\n$5\r\nRPUSH\r\n$1\r\nl\r\n$1\r\ny\r\n");
    assert!(conn.replication.take_pending().is_empty());
    conn_send(&mut conn, b"*1\r\n$4\r\nEXEC\r\n");
    assert_eq!(conn.replication.take_pending().len(), 1);
    assert!(conn.replication.remove_replica_peer(&id));
    conn_send(&mut conn, b"*3\r\n$3\r\nSET\r\n$1\r\na\r\n$1\r\n3\r\n");
    assert!(conn.replication.take_pending().is_empty());
}

#[test]
fn handle_command_takes_a_parsed_frame() {
    let mut conn = conn_new();
    let parsed = Command::from_frame_at(
        vec![RespType::BulkString("PING".to_string())],
        Timestamp::unix_epoch(),
    );
    let handled = conn.handler.handle_command(parsed, &mut conn.db, &mut conn.replication);
    assert_eq!(handled.response.to_vec(), b"+PONG\r\n".to_vec());
    let handled = conn.handler.handle_command(
        Err(CommandError::InvalidFormat),
        &mut conn.db,
        &mut conn.replication,
    );
    assert_eq!(handled.response.to_vec(), b"-Invalid command format\r\n".to_vec());
}

#[test]
fn replica_applies_the_stream_without_replying() {
    let mut conn = conn_new();
    let mut buf = BytesMut::from(
        &b"*3\r\n$3\r\nSET\r\n$1\r\nk\r\n$1\r\nv\r\n*1\r\n$5\r\nBOGUS\r\n*3\r\n$5\r\nRPUSH\r\n$1\r\nl\r\n$1\r\na\r\n"[..],
    );
    let mut results = vec![];
    while let Some(parts) = conn.frame.decode(&mut buf).unwrap() {
        results.push(conn.handler.handle_replication_stream(parts, &mut conn.db, &conn.replication));
    }
    assert_eq!(results.len(), 3);
    assert!(results[0].is_ok());
    assert!(matches!(results[1], Err(CommandError::UnknownCommand(_))));
    assert!(results[2].is_ok());
    assert_eq!(conn.db.get("k".to_string()).unwrap(), Some("v".to_string()));
    assert_eq!(conn.db.lrange("l".to_string(), 0, 0).unwrap(), vec!["a".to_string()]);
}
