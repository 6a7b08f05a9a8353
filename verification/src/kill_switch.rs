//! Kill switch: whether traffic outside the tunnel is blocked, and what to
//! ask of the platform's firewall.

use vstd::prelude::*;

verus! {

/// What the kill switch asks of the platform's firewall.
#[derive(Debug, Clone, Copy, PartialEq, Eq, Structural)]
pub enum KillSwitchAction {
    /// Nothing to do.
    Nothing,
    /// Block everything but the allowed addresses, then report with
    /// `enable_finished`.
    Enable,
    /// The block is in place: only replace the allowed addresses.
    UpdateAllowedIps,
    /// Lift the block, then report with `disable_finished`.
    Disable,
}

/// Whether traffic outside the tunnel is blocked.
pub struct KillSwitch {
    enabled: bool,
}

impl View for KillSwitch {
    type V = bool;

    closed spec fn view(&self) -> bool {
        self.enabled
    }
}

impl KillSwitch {
    /// A kill switch that blocks nothing.
    pub fn new() -> (k: Self)
        ensures
            !k@,
    {
        KillSwitch { enabled: false }
    }

    /// Whether the block is in place.
    pub fn is_enabled(&self) -> (b: bool)
        ensures
            b == self@,
    {
        self.enabled
    }

    /// What enabling asks for: if already enabled, just update the allowed
    /// addresses.
    pub fn enable(&self) -> (action: KillSwitchAction)
        ensures
            action == (if self@ {
                KillSwitchAction::UpdateAllowedIps
            } else {
                KillSwitchAction::Enable
            }),
    {
        if self.enabled {
            KillSwitchAction::UpdateAllowedIps
        } else {
            KillSwitchAction::Enable
        }
    }

    /// The platform has tried what `enable` asked for: the switch is
    /// enabled once that has succeeded.
    pub fn enable_finished(&mut self, ok: bool)
        ensures
            final(self)@ == (old(self)@ || ok),
    {
        if ok {
            self.enabled = true;
        }
    }

    /// What disabling asks for: nothing where nothing is blocked.
    pub fn disable(&self) -> (action: KillSwitchAction)
        ensures
            action == (if self@ {
                KillSwitchAction::Disable
            } else {
                KillSwitchAction::Nothing
            }),
    {
        if self.enabled {
            KillSwitchAction::Disable
        } else {
            KillSwitchAction::Nothing
        }
    }

    /// The platform has tried what `disable` asked for: the switch is
    /// disabled once that has succeeded.
    pub fn disable_finished(&mut self, ok: bool)
        ensures
            final(self)@ == (old(self)@ && !ok),
    {
        if ok {
            self.enabled = false;
        }
    }
}

} // verus!
