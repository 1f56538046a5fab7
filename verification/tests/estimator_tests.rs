use icarus::data::{AccelerometerData, Attitude, GyroscopeData, MagnetometerData};
use icarus::estimator::{EstimatedState, EstimatorInput};

/// The vertical-velocity field is a stub: always zero.
#[test]
fn estimated_state_stubs_z_vel() {
    let attitude = Attitude { pitch: 10, roll: -20, yaw: 30 };
    let state = EstimatedState::from_attitude(attitude);
    assert_eq!(state.attitude, attitude);
    assert_eq!(state.z_vel, 0);
    assert_eq!(EstimatedState::default().z_vel, 0);
}

/// Each tri-axial reading maps to its tuple in declared order.
#[test]
fn tuples_keep_their_axes() {
    let a = AccelerometerData { x: 1, y: 2, z: 3 };
    assert_eq!(a.as_tuple(), (1, 2, 3));
    let g = GyroscopeData { x: -4, y: -5, z: -6 };
    assert_eq!(g.as_tuple(), (-4, -5, -6));
    let m = MagnetometerData { x: 7, y: 8, z: 9 };
    assert_eq!(m.as_tuple(), (7, 8, 9));
}

#[test]
fn defaults_are_zeroed() {
    let input = EstimatorInput::default();
    assert_eq!(input.accel, AccelerometerData { x: 0, y: 0, z: 0 });
    assert_eq!(input.gyro, GyroscopeData { x: 0, y: 0, z: 0 });
    assert_eq!(input.altitude, 0);
}
