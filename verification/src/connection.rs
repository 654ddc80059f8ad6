//! Connection related events.

use vstd::prelude::*;

use crate::battery::ConnectionStatus;

verus! {

/// Host advertising mode used by runtime indicators.
///
/// Kept apart from [`crate::battery::BleState`] so that the public
/// connection-status wire format stays stable.
#[derive(Clone, Copy, Debug, PartialEq, Eq, Structural)]
pub enum BleAdvertisingMode {
    /// No bond exists for the active profile; advertise for a new host.
    Pairing,
    /// A bond exists for the active profile; reconnect to that host.
    Reconnecting,
}

/// Runtime host-advertising mode changed event.
#[derive(Clone, Copy, Debug, PartialEq, Eq, Structural)]
pub struct BleAdvertisingModeEvent(pub BleAdvertisingMode);

/// `ConnectionStatus` changed event, published whenever the connection status
/// updates.
#[derive(Clone, Copy, Debug, PartialEq, Eq, Structural)]
pub struct ConnectionStatusChangeEvent(pub ConnectionStatus);

} // verus!
