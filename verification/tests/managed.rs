use ts3_query::error::{ErrorResponse, IoErrorKind, Ts3Error};
use ts3_query::managed::{
    calc_name_retry_at, ConnectStage, ConnectStep, HealthAction, HealthEvent, ManagedConfig,
    ManagedConnection, MAX_LEN_NAME, PING_INTERVAL,
};

#[test]
fn test_name_empty() {
    let name = ManagedConnection::calc_name_retry("");
    assert!(name.len() <= MAX_LEN_NAME);
    assert!(name.len() > 0);
}

#[test]
fn test_name_fallback_normal() {
    // normal name, enough space for time-digits
    let name = ManagedConnection::calc_name_retry("ct_bot-fallback");

    assert!(name.starts_with("ct_bot-fallback"));
    assert!(name.len() <= MAX_LEN_NAME);
    assert!(name.len() > "ct_bot-fallback".len());
}

#[test]
fn test_name_fallback_underflow() {
    // don't take timeString[-1...], just timeStirng[0...] in that case
    let name = ManagedConnection::calc_name_retry("ct_bot");

    assert!(name.starts_with("ct_bot"));
    assert!(name.len() <= MAX_LEN_NAME);
    assert!(name.len() > "ct_bot".len());
}

#[test]
fn test_name_fallback_fit() {
    {
        // no space left, should make space for name
        let name_input = "1234567890123456789D";
        let name = ManagedConnection::calc_name_retry(name_input);
        assert!(name.starts_with(&name_input[..MAX_LEN_NAME / 2]));
        assert!(name.len() <= MAX_LEN_NAME);
    }

    // required for near-fit invariant
    assert!(MAX_LEN_NAME > 3);
    {
        // assert even for non-fit we have at least 2 random digits at the end
        let name_input = "123456789012345678";
        let name = ManagedConnection::calc_name_retry(name_input);
        assert!(name.starts_with(&name_input[..MAX_LEN_NAME / 2]));
        assert!(name.len() <= MAX_LEN_NAME);
    }
}

#[test]
fn test_name_fallback_overflow() {
    // assert even for non-fit we have at least 2 random digits at the end
    let name_input = "1234567890123456789012345678901234567890";
    assert!(name_input.len() > MAX_LEN_NAME);
    let name = ManagedConnection::calc_name_retry(name_input);
    assert!(name.starts_with(&name_input[..MAX_LEN_NAME / 2]));
    assert!(name.len() <= MAX_LEN_NAME);
}

#[test]
fn fallback_name_at_a_given_time() {
    // room for the whole time stamp
    assert_eq!(calc_name_retry_at("ct_bot", 20, 1_600_000_000_123), "ct_bot1600000000123");
    // room for its last five digits only
    assert_eq!(calc_name_retry_at("ct_bot-fallback", 20, 1_600_000_000_123), "ct_bot-fallback00123");
    // 17 characters leave room for exactly three digits
    assert_eq!(calc_name_retry_at("12345678901234567", 20, 1_600_000_000_123), "12345678901234567123");
    // from 18 characters on the name is cut to ten
    assert_eq!(calc_name_retry_at("123456789012345678", 20, 987), "1234567890987");
    assert_eq!(
        calc_name_retry_at("123456789012345678901", 20, 1_600_000_000_123),
        "12345678900000000123"
    );
    assert_eq!(calc_name_retry_at("", 20, 0), "0");
}

#[test]
fn fallback_name_counts_characters_not_bytes() {
    let name = "ÄÖÜäöüßÄÖÜäöüßÄÖÜäöüß";
    let got = calc_name_retry_at(name, 20, 42);
    assert_eq!(got, "ÄÖÜäöüßÄÖÜ42");
    assert_eq!(calc_name_retry_at("äöü", 20, 7), "äöü7");
}

#[test]
fn fallback_name_with_small_limits() {
    assert_eq!(calc_name_retry_at("abc", 0, 1234), "");
    assert_eq!(calc_name_retry_at("abc", 1, 1234), "4");
    assert_eq!(calc_name_retry_at("abc", 4, 1234), "ab34");
    assert_eq!(calc_name_retry_at("a", 4, 1234), "a234");
}

fn config() -> ManagedConfig {
    ManagedConfig::new("127.0.0.1:10011".to_string(), 9987, "server admin".to_string(), "pass|word".to_string())
}

fn sent(step: ConnectStep) -> (ConnectStage, String) {
    match step {
        ConnectStep::Send { stage, command } => (stage, command),
        other => panic!("unexpected {:?}", other),
    }
}

fn name_taken() -> Ts3Error {
    Ts3Error::ServerError {
        response: ErrorResponse { id: 513, msg: "nickname is already in use".to_string() },
    }
}

#[test]
fn handshake_without_name() {
    let cfg = config();
    let (stage, cmd) = sent(ManagedConnection::connect(&cfg));
    assert_eq!(stage, ConnectStage::Login);
    assert_eq!(cmd, "login server\\sadmin pass\\pword");
    let (stage, cmd) = sent(ManagedConnection::connect_next(&cfg, stage, Ok(()), 0));
    assert_eq!(stage, ConnectStage::SelectServer);
    assert_eq!(cmd, "use port=9987");
    assert!(matches!(ManagedConnection::connect_next(&cfg, stage, Ok(()), 0), ConnectStep::Ready));
}

#[test]
fn handshake_with_name_taken_retries_once() {
    let cfg = config().name("my bot".to_string());
    let (stage, cmd) = sent(ManagedConnection::connect_next(&cfg, ConnectStage::SelectServer, Ok(()), 0));
    assert_eq!(stage, ConnectStage::Rename);
    assert_eq!(cmd, "clientupdate client_nickname=my\\sbot");
    let (stage, cmd) = sent(ManagedConnection::connect_next(&cfg, stage, Err(name_taken()), 1_600_000_000_123));
    assert_eq!(stage, ConnectStage::RenameRetry);
    assert_eq!(cmd, "clientupdate client_nickname=my\\sbot1600000000123");
    // a second failure is handed on
    match ManagedConnection::connect_next(&cfg, stage, Err(name_taken()), 1_600_000_000_999) {
        ConnectStep::Failed(Ts3Error::ServerError { response }) => assert_eq!(response.id, 513),
        other => panic!("unexpected {:?}", other),
    }
    assert!(matches!(
        ManagedConnection::connect_next(&cfg, ConnectStage::RenameRetry, Ok(()), 0),
        ConnectStep::Ready
    ));
    assert!(matches!(
        ManagedConnection::connect_next(&cfg, ConnectStage::Rename, Ok(()), 0),
        ConnectStep::Ready
    ));
}

#[test]
fn handshake_hands_other_failures_on() {
    let cfg = config().name("my bot".to_string());
    let other = Ts3Error::ServerError {
        response: ErrorResponse { id: 520, msg: "invalid loginname or password".to_string() },
    };
    match ManagedConnection::connect_next(&cfg, ConnectStage::Login, Err(other), 0) {
        ConnectStep::Failed(Ts3Error::ServerError { response }) => assert_eq!(response.id, 520),
        other => panic!("unexpected {:?}", other),
    }
    let io = Ts3Error::Io { context: "reading response: ", kind: IoErrorKind::TimedOut, message: "timed out".to_string() };
    assert!(matches!(
        ManagedConnection::connect_next(&cfg, ConnectStage::Rename, Err(io), 0),
        ConnectStep::Failed(Ts3Error::Io { kind: IoErrorKind::TimedOut, .. })
    ));
    assert!(matches!(
        ManagedConnection::set_name_fallback("x", Err(Ts3Error::ConnectionClosed), 0),
        ConnectStep::Failed(Ts3Error::ConnectionClosed)
    ));
}

#[test]
fn handshake_refuses_a_long_name_after_the_server_was_selected() {
    let cfg = config().name("123456789012345678901".to_string());
    assert!(matches!(
        ManagedConnection::connect_next(&cfg, ConnectStage::SelectServer, Ok(()), 0),
        ConnectStep::Failed(Ts3Error::InvalidNameLength { length: 21, expected: 20 })
    ));
    let cfg = config().name("12345678901234567890".to_string());
    assert!(matches!(
        ManagedConnection::connect_next(&cfg, ConnectStage::SelectServer, Ok(()), 0),
        ConnectStep::Send { stage: ConnectStage::Rename, .. }
    ));
}

#[test]
fn health_check_and_reconnect() {
    let mut conn = ManagedConnection::new(config(), 1000);
    assert_eq!(conn.conn_id(), None);
    let whoami = vec!["virtualserver_status=online client_id=42 client_nickname=bot".to_string()];
    assert_eq!(conn.read_conn_id(whoami).unwrap(), 42);
    assert_eq!(conn.conn_id(), Some(42));

    // a connection that was checked a second ago or less is used as it is
    assert_eq!(conn.get(HealthEvent::Access, 1000), HealthAction::Use);
    assert_eq!(conn.get(HealthEvent::Access, 1500), HealthAction::Use);
    assert_eq!(conn.get(HealthEvent::Access, 2000), HealthAction::Use);
    // after more than a second it is checked
    assert_eq!(conn.get(HealthEvent::Access, 2001), HealthAction::Ping);
    assert_eq!(conn.get(HealthEvent::PingOk, 2001), HealthAction::Use);
    assert_eq!(conn.conn_id(), Some(42));
    // the check counts from its own time
    assert_eq!(conn.get(HealthEvent::Access, 2500), HealthAction::Use);
    assert_eq!(conn.get(HealthEvent::Access, 3001), HealthAction::Use);
    assert_eq!(conn.get(HealthEvent::Access, 3002), HealthAction::Ping);
    assert_eq!(conn.get(HealthEvent::PingFailed, 3002), HealthAction::Reconnect);
    assert_eq!(conn.conn_id(), Some(42));
    // a failed check does not count: the next access asks again
    assert_eq!(conn.get(HealthEvent::Access, 3002), HealthAction::Ping);
    assert_eq!(conn.get(HealthEvent::PingFailed, 3002), HealthAction::Reconnect);
    assert_eq!(conn.get(HealthEvent::Reconnected, 3100), HealthAction::Use);
    assert_eq!(conn.conn_id(), None);
    assert_eq!(conn.get(HealthEvent::Access, 4100), HealthAction::Use);
    assert_eq!(conn.get(HealthEvent::Access, 4101), HealthAction::Ping);
    // a clock that went back counts as no time passed
    assert_eq!(conn.get(HealthEvent::Access, 0), HealthAction::Use);
}

#[test]
fn access_does_not_change_the_state() {
    let mut conn = ManagedConnection::new(config(), 0);
    conn.read_conn_id(vec!["client_id=9".to_string()]).unwrap();
    for now in [0, 1, 999, 1000] {
        assert_eq!(conn.get(HealthEvent::Access, now), HealthAction::Use);
        assert_eq!(conn.conn_id(), Some(9));
    }
    // asking for a check does not note one: the same access asks again
    assert_eq!(conn.get(HealthEvent::Access, 5000), HealthAction::Ping);
    assert_eq!(conn.get(HealthEvent::Access, 5000), HealthAction::Ping);
    assert_eq!(conn.get(HealthEvent::Access, 1000), HealthAction::Use);
    assert_eq!(conn.conn_id(), Some(9));
    assert_eq!(PING_INTERVAL, 1000);
}

#[test]
fn conn_id_needs_the_field() {
    let mut conn = ManagedConnection::new(config(), 0);
    assert!(matches!(
        conn.read_conn_id(vec!["client_nickname=bot".to_string()]),
        Err(Ts3Error::NoEntryResponse { key: "client_id" })
    ));
    assert!(matches!(
        conn.read_conn_id(vec!["client_id=70000".to_string()]),
        Err(Ts3Error::InvalidIntResponse { data }) if data == "70000"
    ));
    assert_eq!(conn.conn_id(), None);
    conn.read_conn_id(vec!["client_id=7".to_string()]).unwrap();
    conn.force_reconnect();
    assert_eq!(conn.conn_id(), None);
}

#[test]
fn sibling_configuration_overrides_only_the_name() {
    let conn = ManagedConnection::new(config().name("first".to_string()).timeout(10).connection_timeout(20), 0);
    let same = conn.clone(None);
    assert_eq!(same.addr(), "127.0.0.1:10011");
    assert_eq!(same.timeouts(), (20, 10));
    let (_, cmd) = sent(ManagedConnection::connect_next(&same, ConnectStage::SelectServer, Ok(()), 0));
    assert_eq!(cmd, "clientupdate client_nickname=first");
    let other = conn.clone(Some("second".to_string()));
    assert_eq!(other.timeouts(), (20, 10));
    let (_, cmd) = sent(ManagedConnection::connect_next(&other, ConnectStage::SelectServer, Ok(()), 0));
    assert_eq!(cmd, "clientupdate client_nickname=second");
    let (_, cmd) = sent(ManagedConnection::connect(&other));
    assert_eq!(cmd, "login server\\sadmin pass\\pword");
    assert_eq!(conn.config().timeouts(), (20, 10));
}

#[test]
fn default_timeouts() {
    assert_eq!(config().timeouts(), (1500, 1500));
}
