//! Sensor data carried through the estimation pipeline.
//!
//! Analog quantities are fixed-point integers (thousandths of the sensor's
//! physical unit) so that the filtering and calibration arithmetic is exact;
//! the hardware shell converts raw readings at the boundary.

use vstd::prelude::*;

verus! {

/// Raw accelerometer data
#[derive(Debug, Clone, Copy, PartialEq, Eq, Structural)]
pub struct AccelerometerData {
    pub x: i32,
    pub y: i32,
    pub z: i32,
}

impl AccelerometerData {
    /// The three axes in declared order.
    pub fn as_tuple(&self) -> (t: (i32, i32, i32))
        ensures
            t == (self.x, self.y, self.z),
    {
        (self.x, self.y, self.z)
    }
}

impl core::default::Default for AccelerometerData {
    fn default() -> (r: Self)
        ensures
            r == (AccelerometerData { x: 0, y: 0, z: 0 }),
    {
        AccelerometerData { x: 0, y: 0, z: 0 }
    }
}

/// Raw gyroscope data
#[derive(Debug, Clone, Copy, PartialEq, Eq, Structural)]
pub struct GyroscopeData {
    pub x: i32,
    pub y: i32,
    pub z: i32,
}

impl GyroscopeData {
    /// The three axes in declared order.
    pub fn as_tuple(&self) -> (t: (i32, i32, i32))
        ensures
            t == (self.x, self.y, self.z),
    {
        (self.x, self.y, self.z)
    }
}

impl core::default::Default for GyroscopeData {
    fn default() -> (r: Self)
        ensures
            r == (GyroscopeData { x: 0, y: 0, z: 0 }),
    {
        GyroscopeData { x: 0, y: 0, z: 0 }
    }
}

/// Raw IMU data
#[derive(Debug, Clone, Copy, PartialEq, Eq, Structural)]
pub struct ImuData {
    pub accel: AccelerometerData,
    pub gyro: GyroscopeData,
}

impl core::default::Default for ImuData {
    fn default() -> (r: Self)
        ensures
            r.accel == (AccelerometerData { x: 0, y: 0, z: 0 }),
            r.gyro == (GyroscopeData { x: 0, y: 0, z: 0 }),
    {
        ImuData {
            accel: AccelerometerData { x: 0, y: 0, z: 0 },
            gyro: GyroscopeData { x: 0, y: 0, z: 0 },
        }
    }
}

/// Magnetometer data
#[derive(Debug, Clone, Copy, PartialEq, Eq, Structural)]
pub struct MagnetometerData {
    pub x: i32,
    pub y: i32,
    pub z: i32,
}

impl MagnetometerData {
    /// The three axes in declared order.
    pub fn as_tuple(&self) -> (t: (i32, i32, i32))
        ensures
            t == (self.x, self.y, self.z),
    {
        (self.x, self.y, self.z)
    }
}

/// Orientation - pitch, roll and yaw, in thousandths of a radian.
#[derive(Debug, Clone, Copy, PartialEq, Eq, Structural)]
pub struct Attitude {
    pub pitch: i32,
    pub roll: i32,
    pub yaw: i32,
}

impl core::default::Default for Attitude {
    fn default() -> (r: Self)
        ensures
            r == (Attitude { pitch: 0, roll: 0, yaw: 0 }),
    {
        Attitude { pitch: 0, roll: 0, yaw: 0 }
    }
}

} // verus!
