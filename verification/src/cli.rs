//! The client's operating modes and settings, as plain values.

use vstd::prelude::*;

verus! {

/// Operating mode.
#[derive(Debug, Clone, Copy, PartialEq, Eq, Structural)]
pub enum Mode {
    /// SOCKS5 proxy mode (browser only).
    Socks5,
    /// HTTP proxy mode (HTTPS via fetch).
    Http,
    /// System-wide VPN mode (requires admin/root).
    Vpn,
    /// P2P client mode (connects to exit peer).
    P2pClient,
    /// P2P VPN mode.
    P2pVpn,
    /// Exit peer mode (forward traffic for others).
    ExitPeer,
    /// Exit peer VPN mode (layer 3 forwarding).
    ExitPeerVpn,
    /// Entry node mode (UDP relay).
    EntryNode,
    /// Exit node UDP mode (TUN interface).
    ExitNodeUdp,
    /// Exit peer hybrid mode: worker signaling, tunnel data.
    ExitPeerHybrid,
    /// Swarm mode: P2P mesh with hole-punching and bandwidth sharing.
    Swarm,
    /// Send file to peer.
    SendFile,
    /// Receive file from peer.
    ReceiveFile,
}

/// Where a mode's room identifier comes from when none is given.
#[derive(Debug, Clone, Copy, PartialEq, Eq, Structural)]
pub enum RoomRule {
    /// The mode uses no room.
    Unused,
    /// The mode cannot run without a room identifier.
    Required,
    /// The mode falls back on the room `default`.
    Defaulted,
}

impl Mode {
    /// The name that selects the mode on the command line.
    pub open spec fn spec_name(self) -> Seq<char> {
        match self {
            Mode::Socks5 => "socks5"@,
            Mode::Http => "http"@,
            Mode::Vpn => "vpn"@,
            Mode::P2pClient => "p2p-client"@,
            Mode::P2pVpn => "p2p-vpn"@,
            Mode::ExitPeer => "exit-peer"@,
            Mode::ExitPeerVpn => "exit-peer-vpn"@,
            Mode::EntryNode => "entry-node"@,
            Mode::ExitNodeUdp => "exit-node-udp"@,
            Mode::ExitPeerHybrid => "exit-peer-hybrid"@,
            Mode::Swarm => "swarm"@,
            Mode::SendFile => "send-file"@,
            Mode::ReceiveFile => "receive-file"@,
        }
    }

    /// The name that selects the mode on the command line.
    pub fn name(self) -> (n: &'static str)
        ensures
            n@ == self.spec_name(),
    {
        match self {
            Mode::Socks5 => "socks5",
            Mode::Http => "http",
            Mode::Vpn => "vpn",
            Mode::P2pClient => "p2p-client",
            Mode::P2pVpn => "p2p-vpn",
            Mode::ExitPeer => "exit-peer",
            Mode::ExitPeerVpn => "exit-peer-vpn",
            Mode::EntryNode => "entry-node",
            Mode::ExitNodeUdp => "exit-node-udp",
            Mode::ExitPeerHybrid => "exit-peer-hybrid",
            Mode::Swarm => "swarm",
            Mode::SendFile => "send-file",
            Mode::ReceiveFile => "receive-file",
        }
    }

    /// Whether the mode runs over the tunnel worker; the others run over
    /// the relay or over UDP.
    pub open spec fn spec_uses_worker(self) -> bool {
        self == Mode::Socks5 || self == Mode::Http || self == Mode::Vpn
    }

    /// Whether the mode runs over the tunnel worker.
    pub fn uses_worker(self) -> (b: bool)
        ensures
            b == self.spec_uses_worker(),
    {
        match self {
            Mode::Socks5 => true,
            Mode::Http => true,
            Mode::Vpn => true,
            _ => false,
        }
    }

    /// Where the mode's room identifier comes from when none is given.
    pub open spec fn spec_room_rule(self) -> RoomRule {
        match self {
            Mode::P2pClient => RoomRule::Required,
            Mode::P2pVpn => RoomRule::Required,
            Mode::ExitPeer => RoomRule::Required,
            Mode::ExitPeerVpn => RoomRule::Required,
            Mode::SendFile => RoomRule::Required,
            Mode::ExitPeerHybrid => RoomRule::Defaulted,
            Mode::Swarm => RoomRule::Defaulted,
            Mode::ReceiveFile => RoomRule::Defaulted,
            _ => RoomRule::Unused,
        }
    }

    /// Where the mode's room identifier comes from when none is given.
    pub fn room_rule(self) -> (r: RoomRule)
        ensures
            r == self.spec_room_rule(),
    {
        match self {
            Mode::P2pClient => RoomRule::Required,
            Mode::P2pVpn => RoomRule::Required,
            Mode::ExitPeer => RoomRule::Required,
            Mode::ExitPeerVpn => RoomRule::Required,
            Mode::SendFile => RoomRule::Required,
            Mode::ExitPeerHybrid => RoomRule::Defaulted,
            Mode::Swarm => RoomRule::Defaulted,
            Mode::ReceiveFile => RoomRule::Defaulted,
            _ => RoomRule::Unused,
        }
    }
}

/// The client's settings.
#[derive(Debug, Clone)]
pub struct Args {
    /// Tunnel worker WebSocket URL.
    pub worker: String,
    /// Operating mode.
    pub mode: Mode,
    /// Local SOCKS5 proxy port (socks5 mode only).
    pub port: u16,
    /// Bind address (socks5 mode only).
    pub bind: String,
    /// TUN device name (vpn mode only).
    pub tun_name: String,
    /// VPN IP address (auto-generated if not provided).
    pub vpn_address: Option<String>,
    /// Exit peer VPN IP address (gateway for routing).
    pub exit_peer_address: String,
    /// Enable kill switch: block traffic if VPN disconnects (vpn mode only).
    pub kill_switch: bool,
    /// Enable DNS leak protection (vpn mode only).
    pub dns_protection: bool,
    /// Room ID for P2P mode (shared between client and exit peer).
    pub room: Option<String>,
    /// Relay URL for P2P mode.
    pub relay: String,
    /// Key server URL (for double-key encryption).
    pub vernam: String,
    /// Constant rate padding in Kbps; 0 disables it.
    pub padding: u32,
    /// Enable verbose logging.
    pub verbose: bool,
    /// Swarm: consent to run as exit node.
    pub exit_consent: bool,
    /// Swarm: disable relay service.
    pub no_relay: bool,
    /// Swarm: disable exit service.
    pub no_exit: bool,
    /// Swarm: disable VPN client.
    pub no_client: bool,
    /// Swarm: run in server mode.
    pub server: bool,
    /// Upstream SOCKS5 proxy to route traffic through.
    pub proxy: Option<String>,
    /// Exit node address for entry node mode.
    pub exit_node: String,
    /// Listen port for entry node mode (UDP).
    pub listen_port: u16,
    /// File path for transfer.
    pub file: Option<String>,
    /// Destination peer ID (send-file mode).
    pub dest: Option<String>,
    /// Transfer ticket (receive-file mode).
    pub ticket: Option<String>,
    /// Run as a service.
    pub service: bool,
    /// Install as a service.
    pub install_service: bool,
    /// Uninstall the service.
    pub uninstall_service: bool,
}

impl Default for Args {
    /// The settings of a client that was told nothing.
    fn default() -> (a: Self)
        ensures
            a.worker@ == "wss://zks-tunnel-relay.md-wasif-faisal.workers.dev"@,
            a.mode == Mode::Socks5,
            a.port == 1080,
            a.bind@ == "127.0.0.1"@,
            a.tun_name@ == "zks0"@,
            a.vpn_address is None,
            a.exit_peer_address@ == "10.0.85.2"@,
            !a.kill_switch && !a.dns_protection,
            a.room is None,
            a.relay@ == "wss://zks-tunnel-relay.md-wasif-faisal.workers.dev"@,
            a.vernam@ == "https://zks-key.md-wasif-faisal.workers.dev"@,
            a.padding == 0,
            !a.verbose && !a.exit_consent && !a.no_relay && !a.no_exit && !a.no_client && !a.server,
            a.proxy is None,
            a.exit_node@ == "213.35.103.204:51820"@,
            a.listen_port == 51820,
            a.file is None && a.dest is None && a.ticket is None,
            !a.service && !a.install_service && !a.uninstall_service,
    {
        Args {
            worker: "wss://zks-tunnel-relay.md-wasif-faisal.workers.dev".to_owned(),
            mode: Mode::Socks5,
            port: 1080,
            bind: "127.0.0.1".to_owned(),
            tun_name: "zks0".to_owned(),
            vpn_address: None,
            exit_peer_address: "10.0.85.2".to_owned(),
            kill_switch: false,
            dns_protection: false,
            room: None,
            relay: "wss://zks-tunnel-relay.md-wasif-faisal.workers.dev".to_owned(),
            vernam: "https://zks-key.md-wasif-faisal.workers.dev".to_owned(),
            padding: 0,
            verbose: false,
            exit_consent: false,
            no_relay: false,
            no_exit: false,
            no_client: false,
            server: false,
            proxy: None,
            exit_node: "213.35.103.204:51820".to_owned(),
            listen_port: 51820,
            file: None,
            dest: None,
            ticket: None,
            service: false,
            install_service: false,
            uninstall_service: false,
        }
    }
}

impl Args {
    /// The room that the mode runs in: the one that was given; else
    /// `default` where the mode falls back on it; else none, which a mode
    /// that requires a room cannot run with.
    pub fn room_id(&self) -> (room: Option<String>)
        ensures
            match self.room {
                Some(given) => room matches Some(r) && r@ == given@,
                None => if self.mode.spec_room_rule() == RoomRule::Defaulted {
                    room matches Some(r) && r@ == "default"@
                } else {
                    room is None
                },
            },
    {
        match &self.room {
            Some(given) => Some(given.clone()),
            None => match self.mode.room_rule() {
                RoomRule::Defaulted => Some("default".to_owned()),
                _ => None,
            },
        }
    }
}

} // verus!
