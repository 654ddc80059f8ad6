//! Verified core of the Ergohaven keyboard firmware: host data feed, the VIA
//! protocol handler, the layer LED indicator, the Qube status screen's state and
//! the split peripheral's pairing rules.

pub mod battery;
pub mod bytes;
pub mod connection;
pub mod display;
pub mod clock;
pub mod text;
pub mod host_data;
pub mod layer_led;
pub mod split;
pub mod via;
