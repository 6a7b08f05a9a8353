use zks_tunnel::socks5::{
    handle_socks5_connection, ipv4_host, send_reply, Phase, Socks5Action, Socks5Error,
    Socks5Server, REP_SUCCESS,
};

fn expect_close(action: Socks5Action, reply: &[u8], error: Socks5Error) {
    match action {
        Socks5Action::Close { reply: r, error: e } => {
            assert_eq!(r, reply);
            assert_eq!(e, error);
        }
        other => panic!("expected the end, got {:?}", other),
    }
}

#[test]
fn a_domain_target_is_admitted() {
    let mut s = Socks5Server::new();
    assert_eq!(s.expects(), 2);
    assert!(matches!(s.run(&[0x05, 0x02]), Socks5Action::Read));
    assert_eq!(s.expects(), 2);
    match s.run(&[0x02, 0x00]) {
        Socks5Action::Write(bytes) => assert_eq!(bytes, vec![0x05, 0x00]),
        other => panic!("expected the method choice, got {:?}", other),
    }
    assert_eq!(s.expects(), 4);
    assert!(matches!(s.run(&[0x05, 0x01, 0x00, 0x03]), Socks5Action::Read));
    assert_eq!(s.expects(), 1);
    assert!(matches!(s.run(&[11]), Socks5Action::Read));
    assert_eq!(s.expects(), 13);
    let mut target = b"example.com".to_vec();
    target.extend_from_slice(&[0x01, 0xBB]);
    match s.run(&target) {
        Socks5Action::Open { host, port } => {
            assert_eq!(host, "example.com");
            assert_eq!(port, 443);
        }
        other => panic!("expected an open, got {:?}", other),
    }
    assert_eq!(s.phase(), Phase::Opening);
    assert_eq!(s.expects(), 0);
    assert_eq!(s.opened(true), vec![0x05, 0x00, 0x00, 0x01, 0, 0, 0, 0, 0, 0]);
    assert_eq!(s.phase(), Phase::Relaying);
}

#[test]
fn an_ipv4_target_is_admitted_in_dotted_form() {
    let mut s = Socks5Server::new();
    s.run(&[0x05, 0x01]);
    s.run(&[0x00]);
    assert!(matches!(s.run(&[0x05, 0x01, 0x00, 0x01]), Socks5Action::Read));
    assert_eq!(s.expects(), 6);
    match s.run(&[93, 184, 216, 34, 0x00, 0x50]) {
        Socks5Action::Open { host, port } => {
            assert_eq!(host, "93.184.216.34");
            assert_eq!(port, 80);
        }
        other => panic!("expected an open, got {:?}", other),
    }
}

#[test]
fn dotted_form_has_no_leading_zeros() {
    assert_eq!(ipv4_host(0, 0, 0, 0), "0.0.0.0");
    assert_eq!(ipv4_host(255, 255, 255, 255), "255.255.255.255");
    assert_eq!(ipv4_host(1, 10, 100, 9), "1.10.100.9");
    assert_eq!(ipv4_host(99, 101, 200, 7), "99.101.200.7");
}

#[test]
fn another_version_is_refused_without_a_reply() {
    let mut s = Socks5Server::new();
    expect_close(s.run(&[0x04, 0x01]), &[], Socks5Error::InvalidVersion(4));
    assert_eq!(s.phase(), Phase::Closed);
}

#[test]
fn missing_no_auth_is_answered_with_ff() {
    let mut s = Socks5Server::new();
    s.run(&[0x05, 0x02]);
    expect_close(s.run(&[0x01, 0x02]), &[0x05, 0xFF], Socks5Error::NoSupportedAuth);
    let mut none = Socks5Server::new();
    none.run(&[0x05, 0x00]);
    assert_eq!(none.expects(), 0);
    expect_close(none.run(&[]), &[0x05, 0xFF], Socks5Error::NoSupportedAuth);
}

fn at_request() -> Socks5Server {
    let mut s = Socks5Server::new();
    s.run(&[0x05, 0x01]);
    s.run(&[0x00]);
    s
}

#[test]
fn other_commands_are_answered_with_07() {
    let mut s = at_request();
    expect_close(
        s.run(&[0x05, 0x02, 0x00, 0x01]),
        &[0x05, 0x07, 0x00, 0x01, 0, 0, 0, 0, 0, 0],
        Socks5Error::CommandNotSupported,
    );
    let mut udp = at_request();
    expect_close(
        udp.run(&[0x05, 0x03, 0x00, 0x03]),
        &[0x05, 0x07, 0x00, 0x01, 0, 0, 0, 0, 0, 0],
        Socks5Error::CommandNotSupported,
    );
}

#[test]
fn ipv6_and_unknown_address_types_are_answered_with_08() {
    let mut s = at_request();
    expect_close(
        s.run(&[0x05, 0x01, 0x00, 0x04]),
        &[0x05, 0x08, 0x00, 0x01, 0, 0, 0, 0, 0, 0],
        Socks5Error::Ipv6NotSupported,
    );
    let mut unknown = at_request();
    expect_close(
        unknown.run(&[0x05, 0x01, 0x00, 0x09]),
        &[0x05, 0x08, 0x00, 0x01, 0, 0, 0, 0, 0, 0],
        Socks5Error::UnknownAddressType(9),
    );
}

#[test]
fn a_request_of_another_version_is_refused_without_a_reply() {
    let mut s = at_request();
    expect_close(s.run(&[0x04, 0x01, 0x00, 0x01]), &[], Socks5Error::InvalidRequestVersion);
}

#[test]
fn a_domain_that_is_not_utf8_is_refused() {
    let mut s = at_request();
    s.run(&[0x05, 0x01, 0x00, 0x03]);
    s.run(&[2]);
    expect_close(s.run(&[0xC3, 0x28, 0x00, 0x50]), &[], Socks5Error::InvalidUtf8);
}

#[test]
fn an_empty_domain_is_passed_on() {
    let mut s = at_request();
    s.run(&[0x05, 0x01, 0x00, 0x03]);
    s.run(&[0]);
    assert_eq!(s.expects(), 2);
    match s.run(&[0x1F, 0x90]) {
        Socks5Action::Open { host, port } => {
            assert_eq!(host, "");
            assert_eq!(port, 8080);
        }
        other => panic!("expected an open, got {:?}", other),
    }
}

#[test]
fn input_of_the_wrong_length_ends_the_handshake() {
    let mut s = Socks5Server::new();
    expect_close(s.run(&[0x05]), &[], Socks5Error::WrongLength);
    let mut t = at_request();
    expect_close(t.run(&[0x05, 0x01, 0x00]), &[], Socks5Error::WrongLength);
}

#[test]
fn a_failed_open_is_answered_with_host_unreachable() {
    let mut s = at_request();
    s.run(&[0x05, 0x01, 0x00, 0x01]);
    s.run(&[1, 2, 3, 4, 0, 80]);
    assert_eq!(s.opened(false), vec![0x05, 0x04, 0x00, 0x01, 0, 0, 0, 0, 0, 0]);
    assert_eq!(s.phase(), Phase::Closed);
    expect_close(s.run(&[]), &[], Socks5Error::UnexpectedInput);
}

#[test]
fn an_open_that_was_not_asked_for_is_a_general_failure() {
    let mut s = Socks5Server::new();
    assert_eq!(s.opened(true), vec![0x05, 0x01, 0x00, 0x01, 0, 0, 0, 0, 0, 0]);
    assert_eq!(s.phase(), Phase::Closed);
}

#[test]
fn replies_carry_address_and_port_in_network_order() {
    assert_eq!(
        send_reply(REP_SUCCESS, &[192, 0, 2, 1], 0x1F90),
        vec![0x05, 0x00, 0x00, 0x01, 192, 0, 2, 1, 0x1F, 0x90]
    );
}

#[test]
fn one_step_is_a_function_of_phase_and_input() {
    let (phase, action) = handle_socks5_connection(Phase::DomainLength, &[255]);
    assert_eq!(phase, Phase::DomainTarget { length: 255 });
    assert!(matches!(action, Socks5Action::Read));
    let (phase, action) = handle_socks5_connection(Phase::Relaying, &[1]);
    assert_eq!(phase, Phase::Closed);
    assert!(matches!(
        action,
        Socks5Action::Close { error: Socks5Error::UnexpectedInput, .. }
    ));
}
