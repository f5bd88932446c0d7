use nimblecache::server::{
    accept_conn, Cli, ConnectionError, PermitOutcome, DEFAULT_MAX_CONNECTIONS, DEFAULT_PORT,
};

fn edge_cli(replica_of: &str) -> Cli {
    Cli { port: None, replica_of: replica_of.to_string(), maxclients: None }
}

fn edge_other(res: Result<Option<(String, u16)>, ConnectionError>) -> String {
    match res {
        Err(ConnectionError::Other(m)) => m,
        other => panic!("unexpected {:?}", other),
    }
}

#[test]
fn defaults() {
    let cli = edge_cli("master");
    assert_eq!(cli.listen_port(), 6379);
    assert_eq!(cli.max_connections(), 64);
    assert_eq!(DEFAULT_PORT, 6379);
    assert_eq!(DEFAULT_MAX_CONNECTIONS, 64);
    let cli = Cli { port: Some(7000), replica_of: "master".to_string(), maxclients: Some(3) };
    assert_eq!(cli.listen_port(), 7000);
    assert_eq!(cli.max_connections(), 3);
}

#[test]
fn replicaof_master_names_no_master() {
    for text in ["master", "MASTER", "  Master \n", "\tmaster"] {
        assert_eq!(edge_cli(text).parse_master_host_port().unwrap(), None);
    }
}

#[test]
fn replicaof_names_host_and_port() {
    assert_eq!(
        edge_cli("localhost 6379").parse_master_host_port().unwrap(),
        Some(("localhost".to_string(), 6379))
    );
    assert_eq!(
        edge_cli("  10.0.0.7 \t 7001  extra").parse_master_host_port().unwrap(),
        Some(("10.0.0.7".to_string(), 7001))
    );
    assert_eq!(
        edge_cli("Master 1").parse_master_host_port().unwrap(),
        Some(("Master".to_string(), 1))
    );
}

#[test]
fn replicaof_errors() {
    assert_eq!(
        edge_other(edge_cli("").parse_master_host_port()),
        "Invalid value for replicaof. replicaof should be in '<MASTER_HOST> <MASTER_PORT>' format"
    );
    assert_eq!(
        edge_other(edge_cli("   ").parse_master_host_port()),
        "Invalid value for replicaof. replicaof should be in '<MASTER_HOST> <MASTER_PORT>' format"
    );
    assert_eq!(
        edge_other(edge_cli("localhost").parse_master_host_port()),
        "Master port is not specified in replicaof"
    );
    assert_eq!(
        edge_other(edge_cli("localhost port").parse_master_host_port()),
        "Invalid value for master port in replicaof"
    );
    assert_eq!(
        edge_other(edge_cli("localhost 65536").parse_master_host_port()),
        "Invalid value for master port in replicaof"
    );
    assert_eq!(
        edge_other(Cli::master_from_words(&vec!["h".to_string(), "-1".to_string()])),
        "Invalid value for master port in replicaof"
    );
}

#[test]
fn admission_with_a_place() {
    assert!(accept_conn(PermitOutcome::Acquired).is_ok());
}

#[test]
fn admission_when_full() {
    let refusal = accept_conn(PermitOutcome::TimedOut).unwrap_err();
    assert!(matches!(refusal.error, ConnectionError::Timeout));
    assert_eq!(refusal.notice.unwrap().to_vec(), b"-max number of clients reached\r\n".to_vec());
}

#[test]
fn admission_when_shutting_down() {
    let refusal = accept_conn(PermitOutcome::Closed).unwrap_err();
    assert!(matches!(refusal.error, ConnectionError::CannotAcquirePermit));
    assert!(refusal.notice.is_none());
}

#[test]
fn connection_error_messages() {
    assert_eq!(
        ConnectionError::CannotAcquirePermit.message(),
        "Cannot acquire permit for new connection"
    );
    assert_eq!(ConnectionError::Timeout.message(), "Timed out! cannot connect");
    assert_eq!(ConnectionError::Other("x".to_string()).message(), "x");
}
