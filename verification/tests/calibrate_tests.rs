use icarus::calibrate::{calibrate_imu, ImuCalibrationOffset};
use icarus::data::{AccelerometerData, GyroscopeData, ImuData};

fn sample(ax: i32, ay: i32, az: i32, gx: i32, gy: i32, gz: i32) -> ImuData {
    ImuData {
        accel: AccelerometerData { x: ax, y: ay, z: az },
        gyro: GyroscopeData { x: gx, y: gy, z: gz },
    }
}

/// A constant signal calibrates to exactly that constant, with one sample.
#[test]
fn constant_signal_single_sample() {
    let samples = vec![sample(5, -7, 9810, 1, -2, 3)];
    let offsets = calibrate_imu(&samples);
    assert_eq!(
        offsets,
        ImuCalibrationOffset {
            ax_offset: 5,
            ay_offset: -7,
            az_offset: 9810,
            gx_offset: 1,
            gy_offset: -2,
            gz_offset: 3,
        }
    );
}

/// A constant signal calibrates to exactly that constant, for any count.
#[test]
fn constant_signal_many_samples() {
    let samples = vec![sample(-41, 0, 12, 7, 7, -7); 50];
    let offsets = calibrate_imu(&samples);
    assert_eq!(
        offsets,
        ImuCalibrationOffset {
            ax_offset: -41,
            ay_offset: 0,
            az_offset: 12,
            gx_offset: 7,
            gy_offset: 7,
            gz_offset: -7,
        }
    );
}

/// The offset is the midpoint of the observed swing, per axis.
#[test]
fn midpoint_of_swing() {
    let samples = vec![
        sample(10, -10, 0, 100, 0, -3),
        sample(20, -30, 5, 104, 0, -3),
        sample(12, -20, 1, 102, 0, -3),
    ];
    let offsets = calibrate_imu(&samples);
    // Per axis: min + (max - min) / 2.
    assert_eq!(offsets.ax_offset, 10 + (20 - 10) / 2);
    assert_eq!(offsets.ay_offset, -30 + (-10 - -30) / 2);
    assert_eq!(offsets.az_offset, 0 + (5 - 0) / 2);
    assert_eq!(offsets.gx_offset, 100 + (104 - 100) / 2);
    assert_eq!(offsets.gy_offset, 0);
    assert_eq!(offsets.gz_offset, -3);
}

/// An odd swing width rounds its halving down, as integer division does.
#[test]
fn odd_swing_rounds_down() {
    let samples = vec![sample(0, 0, 0, 0, 0, 0), sample(5, 0, 0, 0, 0, 0)];
    let offsets = calibrate_imu(&samples);
    assert_eq!(offsets.ax_offset, 2);
}

/// The extreme ends of the sample range calibrate without overflow.
#[test]
fn full_range_swing() {
    let samples = vec![
        sample(i32::MIN, 0, 0, 0, 0, 0),
        sample(i32::MAX, 0, 0, 0, 0, 0),
    ];
    let offsets = calibrate_imu(&samples);
    let expected = i32::MIN + (((i32::MAX as i64 - i32::MIN as i64) / 2) as i32);
    assert_eq!(offsets.ax_offset, expected);
}

/// Applying an offset removes the bias axis by axis.
#[test]
fn apply_removes_bias() {
    let offsets = ImuCalibrationOffset {
        ax_offset: 5,
        ay_offset: -7,
        az_offset: 0,
        gx_offset: 1,
        gy_offset: -2,
        gz_offset: 3,
    };
    let corrected = offsets.apply(sample(15, -14, 9810, 2, -4, 6));
    assert_eq!(corrected, sample(10, -7, 9810, 1, -2, 3));
}

/// The correction saturates instead of wrapping.
#[test]
fn apply_saturates() {
    let offsets = ImuCalibrationOffset {
        ax_offset: -1,
        ay_offset: 1,
        az_offset: 0,
        gx_offset: 0,
        gy_offset: 0,
        gz_offset: 0,
    };
    let corrected = offsets.apply(sample(i32::MAX, i32::MIN, 0, 0, 0, 0));
    assert_eq!(corrected.accel.x, i32::MAX);
    assert_eq!(corrected.accel.y, i32::MIN);
}
