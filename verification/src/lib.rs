//! The real-time core of a small multirotor flight controller: bias
//! calibration and windowed smoothing in front of a quaternion attitude
//! estimator, a self-framing and resynchronizing wire codec for the
//! telemetry protocol, and the pieces the concurrent pipeline is built
//! from. Analog quantities are fixed-point integers (thousandths of the
//! physical unit); the hardware and transport shell converts at the edge.

pub mod calibrate;
pub mod comms;
pub mod console;
pub mod data;
pub mod estimator;
pub mod filter;
pub mod frame;
pub mod le;
pub mod ppp;
pub mod stat;
pub mod stuffing;
pub mod wire;

use vstd::prelude::*;

verus! {

/// Errors raised while bringing up the flight-controller hardware.
#[derive(Debug, Clone, Copy, PartialEq, Eq, Structural)]
pub enum IcarusError {
    HardwareInitError,
}

} // verus!
