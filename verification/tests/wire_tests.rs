use icarus::data::{AccelerometerData, Attitude, GyroscopeData};
use icarus::estimator::{EstimatedState, EstimatorInput};
use icarus::frame::{decode_command, decode_state, encode_command, encode_state, encode_state_into, CodecError};
use icarus::wire::{BatteryState, IcarusCommand, IcarusState};

fn sample_sensors() -> IcarusState {
    IcarusState::Sensors(EstimatorInput {
        accel: AccelerometerData { x: 12, y: -34, z: 9810 },
        gyro: GyroscopeData { x: -1, y: 2, z: -3 },
        altitude: 1500,
    })
}

fn sample_estimated() -> IcarusState {
    IcarusState::EstimatedState(EstimatedState {
        attitude: Attitude { pitch: -314, roll: 158, yaw: 2718 },
        z_vel: 0,
    })
}

fn sample_battery() -> IcarusState {
    IcarusState::Battery(BatteryState { voltage: 3700, adc_raw: 2048, charge_complete: true })
}

fn sample_log() -> IcarusState {
    IcarusState::Log(vec![1, 0, 255, 42])
}

#[test]
fn round_trip_sensors() {
    let msg = sample_sensors();
    let frame = encode_state(&msg);
    let (decoded, used) = decode_state(&frame).expect("frame should decode");
    assert_eq!(decoded, msg);
    assert_eq!(used, frame.len());
}

#[test]
fn round_trip_estimated_state() {
    let msg = sample_estimated();
    let frame = encode_state(&msg);
    let (decoded, used) = decode_state(&frame).expect("frame should decode");
    assert_eq!(decoded, msg);
    assert_eq!(used, frame.len());
}

#[test]
fn round_trip_battery() {
    let msg = sample_battery();
    let frame = encode_state(&msg);
    let (decoded, used) = decode_state(&frame).expect("frame should decode");
    assert_eq!(decoded, msg);
    assert_eq!(used, frame.len());
}

#[test]
fn round_trip_log() {
    let msg = sample_log();
    let frame = encode_state(&msg);
    let (decoded, used) = decode_state(&frame).expect("frame should decode");
    assert_eq!(decoded, msg);
    assert_eq!(used, frame.len());
}

#[test]
fn round_trip_cycle_led() {
    let frame = encode_command(&IcarusCommand::CycleLed);
    let (decoded, used) = decode_command(&frame).expect("frame should decode");
    assert_eq!(decoded, IcarusCommand::CycleLed);
    assert_eq!(used, frame.len());
}

#[test]
fn round_trip_throttle() {
    let cmd = IcarusCommand::Throttle(10, -5, 0);
    let frame = encode_command(&cmd);
    let (decoded, used) = decode_command(&frame).expect("frame should decode");
    assert_eq!(decoded, cmd);
    assert_eq!(used, frame.len());
}

#[test]
fn throttle_frame_exact_bytes() {
    // Payload: tag 1, then 10, -5 and 0 in two's complement. The tag byte 1
    // and the payload byte 0 both get stuffed; the frame ends in the
    // terminator.
    let frame = encode_command(&IcarusCommand::Throttle(10, -5, 0));
    assert_eq!(frame, vec![1, 3, 10, 251, 1, 2, 0]);
}

#[test]
fn battery_frame_exact_bytes() {
    // Payload: tag 2, voltage 0x0ABC little-endian, adc 0x0102, charge byte.
    let msg = IcarusState::Battery(BatteryState {
        voltage: 0x0ABC,
        adc_raw: 0x0102,
        charge_complete: false,
    });
    let frame = encode_state(&msg);
    // 0x01 is stuffed to [1, 3]; 0x00 bytes are stuffed to [1, 2].
    assert_eq!(frame, vec![2, 0xBC, 0x0A, 2, 1, 3, 1, 2, 0]);
}

#[test]
fn encode_into_counts_bytes() {
    let msg = sample_battery();
    let frame = encode_state(&msg);
    let mut buf = vec![0xEEu8; 64];
    let n = encode_state_into(&msg, &mut buf).expect("buffer is large enough");
    assert_eq!(n, frame.len());
    assert_eq!(&buf[..n], &frame[..]);
    assert!(buf[n..].iter().all(|&b| b == 0xEE));
}

#[test]
fn encode_into_refuses_small_buffer() {
    let msg = sample_sensors();
    let mut buf = vec![0u8; 4];
    let before = buf.clone();
    let err = encode_state_into(&msg, &mut buf).unwrap_err();
    assert_eq!(err, CodecError::BufferTooSmall);
    assert_eq!(buf, before);
}

#[test]
fn unknown_tag_is_rejected() {
    // A frame whose payload carries an unknown tag byte.
    let frame = vec![9, 0];
    assert!(decode_state(&frame).is_none());
    assert!(decode_command(&frame).is_none());
}

#[test]
fn wrong_length_is_rejected() {
    // A sensors tag with a truncated payload [0, 1, 2, 3], stuffed by hand.
    let frame = vec![1, 2, 1, 3, 2, 3, 0];
    assert!(decode_state(&frame).is_none());
}

#[test]
fn bad_bool_byte_is_rejected() {
    // Battery frame with a charge byte of 2: strict decode refuses it.
    let frame = vec![2, 0xBC, 0x0A, 2, 3, 2, 0];
    assert!(decode_state(&frame).is_none());
}

#[test]
fn missing_terminator_is_incomplete() {
    let msg = sample_battery();
    let mut frame = encode_state(&msg);
    frame.pop();
    assert!(decode_state(&frame).is_none());
}
