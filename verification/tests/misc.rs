use zks_tunnel::cli::{Args, Mode, RoomRule};
use zks_tunnel::clock::{elapsed_since, Clock};
use zks_tunnel::entropy_events::EntropyEvent;
use zks_tunnel::kill_switch::{KillSwitch, KillSwitchAction};
use zks_tunnel::vpn::{VpnConfig, VpnController, VpnError, VpnState};

#[test]
fn commitments_are_sent_in_lower_case_hexadecimal() {
    let event = EntropyEvent::commit("peer1".to_string(), [0xAB; 32]);
    match event {
        EntropyEvent::Commit { peer_id, commitment } => {
            assert_eq!(peer_id, "peer1");
            assert_eq!(commitment, "ab".repeat(32));
        }
        _ => panic!("Wrong event type"),
    }
}

#[test]
fn entropy_is_revealed_in_lower_case_hexadecimal() {
    let mut entropy = [0u8; 32];
    entropy[0] = 0x0F;
    entropy[1] = 0xF0;
    entropy[31] = 0x9A;
    match EntropyEvent::reveal_entropy("peer2".to_string(), entropy) {
        EntropyEvent::Reveal { peer_id, entropy: e } => {
            assert_eq!(peer_id, "peer2");
            assert_eq!(e.len(), 64);
            assert_eq!(&e[..4], "0ff0");
            assert_eq!(&e[62..], "9a");
            assert_eq!(&e[4..62], "0".repeat(58));
        }
        _ => panic!("Wrong event type"),
    }
}

#[test]
fn the_kill_switch_turns_on_only_when_the_platform_succeeds() {
    let mut switch = KillSwitch::new();
    assert!(!switch.is_enabled());
    assert_eq!(switch.disable(), KillSwitchAction::Nothing);
    assert_eq!(switch.enable(), KillSwitchAction::Enable);
    switch.enable_finished(false);
    assert!(!switch.is_enabled());
    switch.enable_finished(true);
    assert!(switch.is_enabled());
    assert_eq!(switch.enable(), KillSwitchAction::UpdateAllowedIps);
    assert_eq!(switch.disable(), KillSwitchAction::Disable);
    switch.disable_finished(false);
    assert!(switch.is_enabled());
    switch.disable_finished(true);
    assert!(!switch.is_enabled());
}

#[test]
fn the_vpn_goes_through_its_states_in_order() {
    let mut vpn = VpnController::new(VpnConfig::default());
    assert_eq!(vpn.state(), VpnState::Disconnected);
    assert_eq!(vpn.stop(), Err(VpnError::NotRunning));
    assert_eq!(vpn.start(), Ok(()));
    assert_eq!(vpn.state(), VpnState::Connecting);
    assert_eq!(vpn.start(), Err(VpnError::AlreadyRunning));
    assert_eq!(vpn.stop(), Err(VpnError::NotRunning));
    assert!(!vpn.keeps_processing());
    vpn.started();
    assert_eq!(vpn.state(), VpnState::Connected);
    assert!(vpn.keeps_processing());
    assert_eq!(vpn.start(), Err(VpnError::AlreadyRunning));
    assert_eq!(vpn.stop(), Ok(()));
    assert_eq!(vpn.state(), VpnState::Disconnecting);
    vpn.started();
    assert_eq!(vpn.state(), VpnState::Disconnecting);
    vpn.stopped();
    assert_eq!(vpn.state(), VpnState::Disconnected);
    vpn.stopped();
    assert_eq!(vpn.state(), VpnState::Disconnected);
}

#[test]
fn the_default_vpn_configuration() {
    let config = VpnConfig::default();
    assert_eq!(config.device_name, "zks0");
    assert_eq!(config.address, [10, 0, 85, 1]);
    assert_eq!(config.netmask, [255, 255, 255, 0]);
    assert_eq!(config.mtu, 1500);
    assert!(config.dns_protection);
    assert!(config.kill_switch);
    let vpn = VpnController::new(config);
    assert_eq!(vpn.config().mtu, 1500);
}

#[test]
fn the_default_settings() {
    let args = Args::default();
    assert_eq!(args.worker, "wss://zks-tunnel-relay.md-wasif-faisal.workers.dev");
    assert_eq!(args.mode, Mode::Socks5);
    assert_eq!(args.port, 1080);
    assert_eq!(args.bind, "127.0.0.1");
    assert_eq!(args.tun_name, "zks0");
    assert_eq!(args.exit_peer_address, "10.0.85.2");
    assert_eq!(args.relay, "wss://zks-tunnel-relay.md-wasif-faisal.workers.dev");
    assert_eq!(args.vernam, "https://zks-key.md-wasif-faisal.workers.dev");
    assert_eq!(args.exit_node, "213.35.103.204:51820");
    assert_eq!(args.listen_port, 51820);
    assert_eq!(args.padding, 0);
    assert!(args.room.is_none() && args.vpn_address.is_none() && args.proxy.is_none());
    assert!(!args.kill_switch && !args.verbose && !args.service);
}

#[test]
fn modes_have_their_names_and_rules() {
    let modes = [
        (Mode::Socks5, "socks5", true, RoomRule::Unused),
        (Mode::Http, "http", true, RoomRule::Unused),
        (Mode::Vpn, "vpn", true, RoomRule::Unused),
        (Mode::P2pClient, "p2p-client", false, RoomRule::Required),
        (Mode::P2pVpn, "p2p-vpn", false, RoomRule::Required),
        (Mode::ExitPeer, "exit-peer", false, RoomRule::Required),
        (Mode::ExitPeerVpn, "exit-peer-vpn", false, RoomRule::Required),
        (Mode::EntryNode, "entry-node", false, RoomRule::Unused),
        (Mode::ExitNodeUdp, "exit-node-udp", false, RoomRule::Unused),
        (Mode::ExitPeerHybrid, "exit-peer-hybrid", false, RoomRule::Defaulted),
        (Mode::Swarm, "swarm", false, RoomRule::Defaulted),
        (Mode::SendFile, "send-file", false, RoomRule::Required),
        (Mode::ReceiveFile, "receive-file", false, RoomRule::Defaulted),
    ];
    for (mode, name, worker, rule) in modes {
        assert_eq!(mode.name(), name);
        assert_eq!(mode.uses_worker(), worker);
        assert_eq!(mode.room_rule(), rule);
    }
}

#[test]
fn the_room_is_given_defaulted_or_missing() {
    let mut args = Args::default();
    args.mode = Mode::Swarm;
    assert_eq!(args.room_id(), Some("default".to_string()));
    args.mode = Mode::P2pClient;
    assert_eq!(args.room_id(), None);
    args.room = Some("blue".to_string());
    assert_eq!(args.room_id(), Some("blue".to_string()));
    args.mode = Mode::Socks5;
    assert_eq!(args.room_id(), Some("blue".to_string()));
}

#[test]
fn time_never_runs_backwards_in_a_span() {
    assert_eq!(elapsed_since(10, 3), 7);
    assert_eq!(elapsed_since(3, 10), 0);
    assert_eq!(elapsed_since(5, 5), 0);
    let clock = Clock::new();
    let first = clock.now();
    let second = clock.now();
    assert!(second >= first);
}
