use bytes::BytesMut;
use nimblecache::replication::master::{
    HandshakeAction, HandshakeEvent, HandshakeState, MasterServer,
};
use nimblecache::replication::peer::{Peer, ReplicaPeers};
use nimblecache::replication::Replication;
use nimblecache::resp::types::RespType;

fn rep_received(bytes: &[u8]) -> HandshakeEvent {
    HandshakeEvent::Received(BytesMut::from(bytes))
}

fn rep_failure(action: HandshakeAction) -> String {
    match action {
        HandshakeAction::Fail(m) => m,
        other => panic!("expected a failure, got {:?}", other),
    }
}

#[test]
fn handshake_runs_through() {
    let (state, action) =
        MasterServer::perform_handshake(HandshakeState::Start, HandshakeEvent::Connected);
    assert_eq!(state, HandshakeState::AwaitingPong);
    match action {
        HandshakeAction::Send(bytes) => assert_eq!(&bytes[..], b"*1\r\n$4\r\nPING\r\n"),
        other => panic!("unexpected {:?}", other),
    }
    let (state, action) = MasterServer::perform_handshake(state, rep_received(b"+PONG\r\n"));
    assert_eq!(state, HandshakeState::AwaitingFullResync);
    match action {
        HandshakeAction::Send(bytes) => {
            assert_eq!(&bytes[..], b"*3\r\n$5\r\nPSYNC\r\n$1\r\n?\r\n$2\r\n-1\r\n")
        }
        other => panic!("unexpected {:?}", other),
    }
    let (state, action) =
        MasterServer::perform_handshake(state, rep_received(b"+FULLRESYNC abc123 -1\r\n"));
    assert_eq!(state, HandshakeState::Done);
    assert!(matches!(action, HandshakeAction::Finished));
}

#[test]
fn handshake_needs_pong() {
    for answer in [&b"+PING\r\n"[..], b"+pong\r\n", b"+PONG \r\n", b"+\r\n"] {
        let (state, action) =
            MasterServer::perform_handshake(HandshakeState::AwaitingPong, rep_received(answer));
        assert_eq!(state, HandshakeState::Failed);
        assert_eq!(
            rep_failure(action),
            "Invalid response for PING request to master during handshake"
        );
    }
    let (state, action) = MasterServer::perform_handshake(
        HandshakeState::AwaitingPong,
        rep_received(b"$4\r\nPONG\r\n"),
    );
    assert_eq!(state, HandshakeState::Failed);
    assert_eq!(
        rep_failure(action),
        "Error response for PING request to master during handshake: Invalid RESP data type prefix"
    );
    let (_, action) =
        MasterServer::perform_handshake(HandshakeState::AwaitingPong, rep_received(b"+PON"));
    assert_eq!(
        rep_failure(action),
        "Error response for PING request to master during handshake: Incomplete RESP value"
    );
}

#[test]
fn handshake_needs_full_resync() {
    for answer in [&b"+CONTINUE\r\n"[..], b"+fullresync x 0\r\n", b"+ FULLRESYNC x 0\r\n", b"+FULLRESYN\r\n"] {
        let (state, action) = MasterServer::perform_handshake(
            HandshakeState::AwaitingFullResync,
            rep_received(answer),
        );
        assert_eq!(state, HandshakeState::Failed);
        assert_eq!(
            rep_failure(action),
            "Invalid response for PSYNC request to master during handshake"
        );
    }
    let (state, action) = MasterServer::perform_handshake(
        HandshakeState::AwaitingFullResync,
        rep_received(b"+FULLRESYNC\r\n"),
    );
    assert_eq!(state, HandshakeState::Done);
    assert!(matches!(action, HandshakeAction::Finished));
    let (_, action) = MasterServer::perform_handshake(
        HandshakeState::AwaitingFullResync,
        rep_received(b"-ERR\r\n"),
    );
    assert_eq!(
        rep_failure(action),
        "Error response for PSYNC request to master during handshake: Invalid RESP data type prefix"
    );
}

#[test]
fn handshake_fails_on_stream_errors() {
    let cases: Vec<(HandshakeState, HandshakeEvent, &str)> = vec![
        (
            HandshakeState::AwaitingPong,
            HandshakeEvent::SendFailed("broken pipe".to_string()),
            "Failed to send PING to master during handshake: broken pipe",
        ),
        (
            HandshakeState::AwaitingPong,
            HandshakeEvent::ReceiveFailed("reset".to_string()),
            "Failed to receive response for PING request to master during handshake: reset",
        ),
        (
            HandshakeState::AwaitingPong,
            HandshakeEvent::Closed,
            "No response for PING request to master during handshake",
        ),
        (
            HandshakeState::AwaitingFullResync,
            HandshakeEvent::SendFailed("broken pipe".to_string()),
            "Failed to send PSYNC to master during handshake: broken pipe",
        ),
        (
            HandshakeState::AwaitingFullResync,
            HandshakeEvent::ReceiveFailed("reset".to_string()),
            "Failed to receive response for PSYNC request to master during handshake: reset",
        ),
        (
            HandshakeState::AwaitingFullResync,
            HandshakeEvent::Closed,
            "No response for PSYNC request to master during handshake",
        ),
        (
            HandshakeState::Start,
            HandshakeEvent::Closed,
            "Unexpected event during handshake with master",
        ),
        (
            HandshakeState::Done,
            HandshakeEvent::Connected,
            "Unexpected event during handshake with master",
        ),
        (
            HandshakeState::Failed,
            HandshakeEvent::Connected,
            "Unexpected event during handshake with master",
        ),
    ];
    for (state, event, want) in cases {
        let (next, action) = MasterServer::perform_handshake(state, event);
        assert_eq!(next, HandshakeState::Failed);
        assert_eq!(rep_failure(action), want);
    }
}

#[test]
fn peers_get_random_identifiers() {
    let a = Peer::new();
    let b = Peer::new();
    for id in [a.id(), b.id()] {
        assert_eq!(id.len(), 10);
        assert!(id.chars().all(|c| c.is_ascii_alphanumeric()));
    }
    let ids: Vec<String> = (0..20).map(|_| Peer::new().id().clone()).collect();
    assert!(ids.iter().any(|id| id != &ids[0]));
    let id = Replication::generate_id();
    assert_eq!(id.len(), 40);
    assert!(id.chars().all(|c| c.is_ascii_alphanumeric()));
}

#[test]
fn registry_adds_and_removes_peers() {
    let mut peers = ReplicaPeers::new();
    assert_eq!(peers.peer_count(), 0);
    let a = peers.add_peer();
    let b = peers.add_peer();
    assert_eq!(peers.peer_count(), 2);
    assert!(!peers.remove_peer("nobody"));
    assert_eq!(peers.peer_count(), 2);
    assert!(peers.remove_peer(&a));
    assert!(!peers.remove_peer(&a) || a == b);
    assert!(peers.peer_count() <= 1);
}

#[test]
fn registry_publishes_only_to_connected_replicas() {
    let mut peers = ReplicaPeers::new();
    peers.replicate(RespType::Integer(1));
    assert!(peers.take_pending().is_empty());
    let id = peers.add_peer();
    peers.replicate(RespType::Integer(2));
    peers.replicate(RespType::Integer(3));
    let pending = peers.take_pending();
    assert_eq!(pending.len(), 2);
    assert_eq!(pending[0].to_vec(), b":2\r\n".to_vec());
    assert_eq!(pending[1].to_vec(), b":3\r\n".to_vec());
    assert!(peers.take_pending().is_empty());
    peers.remove_peer(&id);
    peers.replicate(RespType::Integer(4));
    assert!(peers.take_pending().is_empty());
}

#[test]
fn replication_of_a_master() {
    let mut r = Replication::new("abc".to_string(), None);
    assert!(!r.is_slave());
    assert_eq!(r.id(), "abc");
    assert_eq!(r.info_str(), "role:master\nmaster_replid:abc\nmaster_repl_offset:0\n");
    r.incr_offset(41);
    r.incr_offset(1);
    assert_eq!(r.info_str(), "role:master\nmaster_replid:abc\nmaster_repl_offset:42\n");
    r.incr_offset(u64::MAX);
    assert_eq!(r.info_str(), "role:master\nmaster_replid:abc\nmaster_repl_offset:41\n");
    assert_eq!(r.write_to_replicas(RespType::Integer(1)), 0);
    let id = r.add_replica_peer();
    assert_eq!(r.write_to_replicas(RespType::Integer(1)), 1);
    assert_eq!(r.take_pending().len(), 1);
    assert!(r.remove_replica_peer(&id));
    assert!(!r.remove_replica_peer(&id));
}

#[test]
fn replication_of_a_replica() {
    let r = Replication::new("abc".to_string(), Some(("10.0.0.1".to_string(), 7000)));
    assert!(r.is_slave());
    assert_eq!(r.info_str(), "role:slave");
}
