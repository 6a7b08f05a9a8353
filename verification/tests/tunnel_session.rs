use bytes::Bytes;
use zks_tunnel::stream_manager::StreamStatus;
use zks_tunnel::tunnel_session::{FetchDecision, SessionAction, TunnelSession, UdpAction};
use zks_tunnel::TunnelMessage;

fn connect(stream_id: u32, host: &str, port: u16) -> Bytes {
    TunnelMessage::Connect { stream_id, host: host.to_string(), port }.encode()
}

fn open(session: &mut TunnelSession, stream_id: u32) {
    match session.handle_binary_message(&connect(stream_id, "example.com", 443)) {
        SessionAction::Dial { stream_id: id, host, port } => {
            assert_eq!(id, stream_id);
            assert_eq!(host, "example.com");
            assert_eq!(port, 443);
        }
        other => panic!("expected a dial, got {:?}", other),
    }
    match session.connect_finished(stream_id, Ok(())) {
        SessionAction::StartReader { stream_id: id } => assert_eq!(id, stream_id),
        other => panic!("expected a reader, got {:?}", other),
    }
}

fn expect_error(action: SessionAction, stream_id: u32, code: u16, message: &str) {
    match action {
        SessionAction::Reply(TunnelMessage::ErrorReply { stream_id: id, code: c, message: m }) => {
            assert_eq!(id, stream_id);
            assert_eq!(c, code);
            assert_eq!(m, message);
        }
        other => panic!("expected error {}, got {:?}", code, other),
    }
}

#[test]
fn ssrf_deny_replies_400_and_registers_nothing() {
    let mut session = TunnelSession::new();
    let action = session.handle_binary_message(&connect(1, "127.0.0.1", 80));
    expect_error(action, 1, 400, "Invalid host");
    assert!(!session.is_active(1));
    assert_eq!(session.active_stream_count(), 0);
}

#[test]
fn blocked_prefixes_are_denied() {
    let denied = [
        "127.0.0.1", "10.1.2.3", "192.168.0.1", "172.16.0.1", "172.17.0.1", "172.18.0.1",
        "172.19.0.1", "172.20.0.1", "172.21.0.1", "172.22.0.1", "172.23.0.1", "172.24.0.1",
        "172.25.0.1", "172.26.0.1", "172.27.0.1", "172.28.0.1", "172.29.0.1", "172.30.0.1",
        "172.31.255.255", "169.254.169.254", "0.0.0.0", "localhost", "LOCALHOST",
        "LocalHost.example",
        "::1", "fc00::1", "FD12::1", "fe80::1", "FE80::abcd", "fcbarcelona.com",
    ];
    for host in denied {
        assert!(!TunnelSession::is_valid_host(host), "{} must be denied", host);
    }
}

#[test]
fn public_hosts_are_allowed() {
    let allowed = [
        "google.com", "example.org", "8.8.8.8", "172.15.0.1", "172.32.0.1", "1.1.1.1",
        "192.169.0.1", "100.64.0.1", "11.0.0.1", "a", "f.example", "2001:db8::1",
    ];
    for host in allowed {
        assert!(TunnelSession::is_valid_host(host), "{} must be allowed", host);
    }
}

#[test]
fn empty_and_overlong_hosts_are_denied() {
    assert!(!TunnelSession::is_valid_host(""));
    let longest = "a".repeat(253);
    assert!(TunnelSession::is_valid_host(&longest));
    let too_long = "a".repeat(254);
    assert!(!TunnelSession::is_valid_host(&too_long));
    // 127 two-byte characters are 254 bytes.
    let wide = "é".repeat(127);
    assert!(!TunnelSession::is_valid_host(&wide));
    let wide_ok = format!("{}a", "é".repeat(126));
    assert!(TunnelSession::is_valid_host(&wide_ok));
}

#[test]
fn the_rule_reads_the_lower_case_form_it_is_given() {
    assert!(!TunnelSession::is_valid_host_lowered("Example", "localhost"));
    assert!(TunnelSession::is_valid_host_lowered("LOCALHOST", "example"));
    assert!(!TunnelSession::is_valid_host_lowered("", "example"));
}

#[test]
fn duplicate_stream_yields_409_and_the_first_stays_usable() {
    let mut session = TunnelSession::new();
    open(&mut session, 5);
    let action = session.handle_binary_message(&connect(5, "example.com", 443));
    expect_error(action, 5, 409, "Stream ID already in use");
    assert!(session.is_active(5));
    let data = TunnelMessage::Data { stream_id: 5, payload: Bytes::from("abc") }.encode();
    match session.handle_binary_message(&data) {
        SessionAction::Write { stream_id, payload } => {
            assert_eq!(stream_id, 5);
            assert_eq!(payload, Bytes::from("abc"));
        }
        other => panic!("expected a write, got {:?}", other),
    }
}

#[test]
fn a_duplicate_is_refused_before_the_host_is_looked_at() {
    let mut session = TunnelSession::new();
    open(&mut session, 5);
    let action = session.handle_binary_message(&connect(5, "127.0.0.1", 80));
    expect_error(action, 5, 409, "Stream ID already in use");
}

#[test]
fn dial_failure_replies_502_with_the_cause() {
    let mut session = TunnelSession::new();
    assert!(matches!(
        session.handle_binary_message(&connect(9, "example.com", 1)),
        SessionAction::Dial { .. }
    ));
    let action = session.connect_finished(9, Err("refused".to_string()));
    expect_error(action, 9, 502, "Connection failed: refused");
    assert!(!session.is_active(9));
}

#[test]
fn a_dial_that_ends_after_its_identifier_was_taken_is_dropped() {
    let mut session = TunnelSession::new();
    open(&mut session, 3);
    assert!(matches!(
        session.connect_finished(3, Ok(())),
        SessionAction::DropOrigin { stream_id: 3 }
    ));
    assert_eq!(session.active_stream_count(), 1);
}

#[test]
fn data_for_an_unknown_stream_replies_404() {
    let mut session = TunnelSession::new();
    let data = TunnelMessage::Data { stream_id: 77, payload: Bytes::from("x") }.encode();
    let action = session.handle_binary_message(&data);
    expect_error(action, 77, 404, "Stream not found");
    assert!(!session.is_active(77));
}

#[test]
fn write_failure_replies_500_and_removes_the_stream() {
    let mut session = TunnelSession::new();
    open(&mut session, 4);
    assert!(matches!(session.write_finished(4, Ok(())), SessionAction::Ignore));
    assert!(session.is_active(4));
    let action = session.write_finished(4, Err("broken pipe".to_string()));
    expect_error(action, 4, 500, "Write error: broken pipe");
    assert!(!session.is_active(4));
}

#[test]
fn close_removes_the_stream_and_a_second_close_does_nothing() {
    let mut session = TunnelSession::new();
    open(&mut session, 8);
    let close = TunnelMessage::Close { stream_id: 8 }.encode();
    assert!(matches!(
        session.handle_binary_message(&close),
        SessionAction::CloseOrigin { stream_id: 8 }
    ));
    assert!(!session.is_active(8));
    assert!(matches!(session.handle_binary_message(&close), SessionAction::Ignore));
    // Payload that follows the CLOSE is written nowhere.
    let late = TunnelMessage::Data { stream_id: 8, payload: Bytes::from("late") }.encode();
    let action = session.handle_binary_message(&late);
    expect_error(action, 8, 404, "Stream not found");
    assert!(!session.is_active(8));
}

#[test]
fn half_close_drains_the_origin_and_then_closes() {
    let mut session = TunnelSession::new();
    assert_eq!(session.stream_status(2), StreamStatus::Closed);
    open(&mut session, 2);
    assert_eq!(session.stream_status(2), StreamStatus::Opening);
    // The client saw its local end and sent CLOSE.
    let close = TunnelMessage::Close { stream_id: 2 }.encode();
    assert!(matches!(
        session.handle_binary_message(&close),
        SessionAction::CloseOrigin { stream_id: 2 }
    ));
    assert!(!session.is_active(2));
    assert_eq!(session.stream_status(2), StreamStatus::HalfClosed);
    // The reader still drains what the origin had pending.
    match session.origin_read(2, Ok(Bytes::from("tail"))) {
        SessionAction::Reply(TunnelMessage::Data { stream_id, payload }) => {
            assert_eq!(stream_id, 2);
            assert_eq!(payload, Bytes::from("tail"));
        }
        other => panic!("expected data, got {:?}", other),
    }
    // Then the origin ends and the client is told.
    assert_eq!(session.stream_status(2), StreamStatus::HalfClosed);
    assert!(matches!(
        session.origin_read(2, Ok(Bytes::new())),
        SessionAction::Reply(TunnelMessage::Close { stream_id: 2 })
    ));
    assert!(!session.is_active(2));
    assert_eq!(session.stream_status(2), StreamStatus::Closed);
}

#[test]
fn origin_end_and_failure_remove_the_stream() {
    let mut session = TunnelSession::new();
    open(&mut session, 1);
    open(&mut session, 2);
    assert!(matches!(
        session.origin_read(1, Ok(Bytes::new())),
        SessionAction::Reply(TunnelMessage::Close { stream_id: 1 })
    ));
    assert!(!session.is_active(1));
    let action = session.origin_read(2, Err("reset".to_string()));
    expect_error(action, 2, 500, "Socket read error");
    assert!(!session.is_active(2));
}

#[test]
fn ping_is_answered_with_pong_and_changes_nothing() {
    let mut session = TunnelSession::new();
    open(&mut session, 1);
    let ping = TunnelMessage::Ping.encode();
    assert!(matches!(
        session.handle_binary_message(&ping),
        SessionAction::Reply(TunnelMessage::Pong)
    ));
    assert_eq!(session.active_stream_count(), 1);
    assert!(session.is_active(1));
}

#[test]
fn pong_error_and_garbage_are_ignored() {
    let mut session = TunnelSession::new();
    open(&mut session, 1);
    assert!(matches!(
        session.handle_binary_message(&TunnelMessage::Pong.encode()),
        SessionAction::Ignore
    ));
    let error = TunnelMessage::ErrorReply { stream_id: 1, code: 1, message: "x".to_string() };
    assert!(matches!(session.handle_binary_message(&error.encode()), SessionAction::Ignore));
    assert!(matches!(session.handle_binary_message(&[0x01, 0x02]), SessionAction::Ignore));
    assert!(matches!(session.handle_binary_message(&[]), SessionAction::Ignore));
    assert!(session.is_active(1));
}

#[test]
fn only_a_websocket_upgrade_is_accepted() {
    let mut session = TunnelSession::new();
    assert_eq!(session.fetch(None), FetchDecision::Refuse(426));
    assert_eq!(session.fetch(Some("h2c")), FetchDecision::Refuse(426));
    assert_eq!(session.fetch(Some("websocket")), FetchDecision::Accept(1));
    assert_eq!(session.fetch(Some("websocket")), FetchDecision::Accept(2));
}

#[test]
fn closing_the_channel_releases_every_stream() {
    let mut session = TunnelSession::new();
    open(&mut session, 1);
    open(&mut session, 2);
    open(&mut session, 3);
    assert_eq!(session.websocket_close(), 3);
    assert_eq!(session.active_stream_count(), 0);
}

#[test]
fn datagrams_go_to_the_resolver_or_are_refused() {
    assert!(matches!(TunnelSession::handle_udp_datagram(7, 53), UdpAction::Resolve));
    match TunnelSession::handle_udp_datagram(7, 123) {
        UdpAction::Reply(TunnelMessage::ErrorReply { stream_id, code, message }) => {
            assert_eq!(stream_id, 7);
            assert_eq!(code, 501);
            assert_eq!(message, "UDP not supported (except DNS via DoH)");
        }
        other => panic!("expected error 501, got {:?}", other),
    }
}

#[test]
fn resolver_answers_pass_and_failures_become_503() {
    assert_eq!(TunnelSession::handle_dns_query(1, Ok(vec![1, 2, 3])).unwrap(), vec![1, 2, 3]);
    match TunnelSession::handle_dns_query(1, Err("timeout".to_string())) {
        Err(TunnelMessage::ErrorReply { stream_id, code, message }) => {
            assert_eq!(stream_id, 1);
            assert_eq!(code, 503);
            assert_eq!(message, "DNS resolution failed: timeout");
        }
        other => panic!("expected error 503, got {:?}", other),
    }
}

#[test]
fn the_first_payload_opens_a_stream() {
    let mut session = TunnelSession::new();
    open(&mut session, 6);
    let data = TunnelMessage::Data { stream_id: 6, payload: Bytes::from("x") };
    assert_eq!(session.stream_status(6), StreamStatus::Opening);
    assert!(matches!(
        session.handle_binary_message(&data.encode()),
        SessionAction::Write { .. }
    ));
    assert_eq!(session.stream_status(6), StreamStatus::Open);
}
