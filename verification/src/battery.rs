//! Battery and Bluetooth state as the keyboard reports it.

use vstd::prelude::*;

verus! {

/// Whether a battery is being charged.
#[derive(Clone, Copy, Debug, PartialEq, Eq, Structural)]
pub enum ChargeState {
    Charging,
    Discharging,
    Unknown,
}

/// What is known of a battery: nothing, or its charge state and, once a
/// reading has been taken, its level in percent.
#[derive(Clone, Copy, Debug, PartialEq, Eq, Structural)]
pub enum BatteryStatus {
    Unavailable,
    Available { charge_state: ChargeState, level: Option<u8> },
}

/// State of the link to the active Bluetooth host.
#[derive(Clone, Copy, Debug, PartialEq, Eq, Structural)]
pub enum BleState {
    Inactive,
    Advertising,
    Connected,
}

/// The active Bluetooth profile and the state of its link.
#[derive(Clone, Copy, Debug, PartialEq, Eq, Structural)]
pub struct BleStatus {
    pub profile: u8,
    pub state: BleState,
}

/// Connection status published whenever it changes.
#[derive(Clone, Copy, Debug, PartialEq, Eq, Structural)]
pub struct ConnectionStatus {
    pub ble: BleStatus,
}

impl ConnectionStatus {
    /// No link: profile 0, inactive.
    pub fn new() -> (status: ConnectionStatus)
        ensures
            status == (ConnectionStatus { ble: BleStatus { profile: 0, state: BleState::Inactive } }),
    {
        ConnectionStatus { ble: BleStatus { profile: 0, state: BleState::Inactive } }
    }
}

} // verus!
