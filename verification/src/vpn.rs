//! System-wide VPN: its configuration and the life cycle of its controller.
//!
//! The controller decides which transitions are allowed; creating the
//! virtual interface and routing traffic belong to the platform.

use vstd::prelude::*;

verus! {

/// VPN configuration.
#[derive(Debug, Clone)]
pub struct VpnConfig {
    /// TUN device name (e.g., "zks0", "utun5").
    pub device_name: String,
    /// Virtual IP address for the TUN interface.
    pub address: [u8; 4],
    /// Netmask for the TUN interface.
    pub netmask: [u8; 4],
    /// MTU for the TUN interface.
    pub mtu: u16,
    /// Enable DNS leak protection.
    pub dns_protection: bool,
    /// Enable kill switch (block traffic if disconnected).
    pub kill_switch: bool,
}

impl Default for VpnConfig {
    fn default() -> (c: Self)
        ensures
            c.device_name@ == "zks0"@,
            c.address@ == seq![10u8, 0u8, 85u8, 1u8],
            c.netmask@ == seq![255u8, 255u8, 255u8, 0u8],
            c.mtu == 1500,
            c.dns_protection,
            c.kill_switch,
    {
        let address: [u8; 4] = [10, 0, 85, 1];
        let netmask: [u8; 4] = [255, 255, 255, 0];
        assert(address@ =~= seq![10u8, 0u8, 85u8, 1u8]);
        assert(netmask@ =~= seq![255u8, 255u8, 255u8, 0u8]);
        VpnConfig {
            device_name: "zks0".to_owned(),
            address,
            netmask,
            mtu: 1500,
            dns_protection: true,
            kill_switch: true,
        }
    }
}

/// VPN connection state.
#[derive(Debug, Clone, Copy, PartialEq, Eq, Structural)]
pub enum VpnState {
    Disconnected,
    Connecting,
    Connected,
    Disconnecting,
}

/// Why a transition was refused.
#[derive(Debug, Clone, Copy, PartialEq, Eq, Structural)]
pub enum VpnError {
    /// The VPN is already running.
    AlreadyRunning,
    /// The VPN is not running.
    NotRunning,
}

/// System-wide VPN controller.
pub struct VpnController {
    config: VpnConfig,
    state: VpnState,
}

impl View for VpnController {
    type V = VpnState;

    closed spec fn view(&self) -> VpnState {
        self.state
    }
}

impl VpnController {
    /// The configuration that the controller was made with.
    pub closed spec fn configuration(&self) -> VpnConfig {
        self.config
    }

    /// Create a new VPN controller.
    pub fn new(config: VpnConfig) -> (c: Self)
        ensures
            c@ == VpnState::Disconnected,
            c.configuration() == config,
    {
        VpnController { config, state: VpnState::Disconnected }
    }

    /// The configuration that the controller was made with.
    pub fn config(&self) -> (config: &VpnConfig)
        ensures
            *config == self.configuration(),
    {
        &self.config
    }

    /// Start the VPN: allowed only while it is disconnected, and it is
    /// connecting from then on.
    pub fn start(&mut self) -> (r: Result<(), VpnError>)
        ensures
            final(self).configuration() == old(self).configuration(),
            old(self)@ == VpnState::Disconnected ==> r is Ok && final(self)@
                == VpnState::Connecting,
            old(self)@ != VpnState::Disconnected ==> r == Err::<(), VpnError>(
                VpnError::AlreadyRunning,
            ) && final(self)@ == old(self)@,
    {
        if self.state != VpnState::Disconnected {
            return Err(VpnError::AlreadyRunning);
        }
        self.state = VpnState::Connecting;
        Ok(())
    }

    /// The interface is up and traffic is routed: a VPN that was
    /// connecting is connected.
    pub fn started(&mut self)
        ensures
            final(self).configuration() == old(self).configuration(),
            final(self)@ == (if old(self)@ == VpnState::Connecting {
                VpnState::Connected
            } else {
                old(self)@
            }),
    {
        if self.state == VpnState::Connecting {
            self.state = VpnState::Connected;
        }
    }

    /// Stop the VPN: allowed only while it is connected, and it is
    /// disconnecting from then on.
    pub fn stop(&mut self) -> (r: Result<(), VpnError>)
        ensures
            final(self).configuration() == old(self).configuration(),
            old(self)@ == VpnState::Connected ==> r is Ok && final(self)@
                == VpnState::Disconnecting,
            old(self)@ != VpnState::Connected ==> r == Err::<(), VpnError>(VpnError::NotRunning)
                && final(self)@ == old(self)@,
    {
        if self.state != VpnState::Connected {
            return Err(VpnError::NotRunning);
        }
        self.state = VpnState::Disconnecting;
        Ok(())
    }

    /// Routing is restored and the interface is gone: a VPN that was
    /// disconnecting is disconnected.
    pub fn stopped(&mut self)
        ensures
            final(self).configuration() == old(self).configuration(),
            final(self)@ == (if old(self)@ == VpnState::Disconnecting {
                VpnState::Disconnected
            } else {
                old(self)@
            }),
    {
        if self.state == VpnState::Disconnecting {
            self.state = VpnState::Disconnected;
        }
    }

    /// Get current VPN state.
    pub fn state(&self) -> (s: VpnState)
        ensures
            s == self@,
    {
        self.state
    }

    /// Whether the packet processor goes on: only while the VPN is
    /// connected.
    pub fn keeps_processing(&self) -> (b: bool)
        ensures
            b == (self@ == VpnState::Connected),
    {
        self.state == VpnState::Connected
    }
}

} // verus!
