//! Types around the attitude estimator.
//!
//! The quaternion fusion step itself runs on floating point in the
//! unverified shell; this module fixes the shapes and the stubbed fields
//! that the rest of the pipeline relies on.

use vstd::prelude::*;
use crate::data::{AccelerometerData, Attitude, GyroscopeData};

verus! {

/// Failures of the sensor-fusion step; the owning loop skips the tick.
#[derive(Debug, Clone, Copy, PartialEq, Eq, Structural)]
pub enum EstimatorError {
    AhrsError,
}

/// Estimated state
#[derive(Debug, Clone, Copy, PartialEq, Eq, Structural)]
pub struct EstimatedState {
    /// Orientation
    pub attitude: Attitude,
    /// Vertical velocity. Never estimated: the field is kept for the wire
    /// format and is always zero.
    pub z_vel: i32,
}

/// Input data for the state estimator
#[derive(Debug, Clone, Copy, PartialEq, Eq, Structural)]
pub struct EstimatorInput {
    pub accel: AccelerometerData,
    pub gyro: GyroscopeData,
    /// Altitude above the reference plane, in thousandths of a meter.
    pub altitude: i32,
}

impl core::default::Default for EstimatorInput {
    fn default() -> (r: Self)
        ensures
            r.accel == (AccelerometerData { x: 0, y: 0, z: 0 }),
            r.gyro == (GyroscopeData { x: 0, y: 0, z: 0 }),
            r.altitude == 0,
    {
        EstimatorInput {
            accel: AccelerometerData { x: 0, y: 0, z: 0 },
            gyro: GyroscopeData { x: 0, y: 0, z: 0 },
            altitude: 0,
        }
    }
}

impl EstimatedState {
    /// Publishes an orientation as an estimated state. The vertical-velocity
    /// field is not computed anywhere; it is always the zero stub.
    pub fn from_attitude(attitude: Attitude) -> (r: EstimatedState)
        ensures
            r.attitude == attitude,
            r.z_vel == 0,
    {
        EstimatedState { attitude, z_vel: 0 }
    }
}

impl core::default::Default for EstimatedState {
    fn default() -> (r: Self)
        ensures
            r.attitude == (Attitude { pitch: 0, roll: 0, yaw: 0 }),
            r.z_vel == 0,
    {
        EstimatedState { attitude: Attitude { pitch: 0, roll: 0, yaw: 0 }, z_vel: 0 }
    }
}

} // verus!
