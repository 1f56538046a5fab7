use icarus::data::{AccelerometerData, Attitude, GyroscopeData};
use icarus::estimator::{EstimatedState, EstimatorInput};
use icarus::frame::{encode_command, encode_state, DecodeAccumulator, FeedResult};
use icarus::wire::{BatteryState, IcarusCommand, IcarusState};

fn sensors_msg() -> IcarusState {
    IcarusState::Sensors(EstimatorInput {
        accel: AccelerometerData { x: 1, y: 0, z: -9810 },
        gyro: GyroscopeData { x: 100, y: -100, z: 0 },
        altitude: -25,
    })
}

fn battery_msg() -> IcarusState {
    IcarusState::Battery(BatteryState { voltage: 4200, adc_raw: 777, charge_complete: false })
}

fn estimated_msg() -> IcarusState {
    IcarusState::EstimatedState(EstimatedState {
        attitude: Attitude { pitch: 1, roll: 2, yaw: 3 },
        z_vel: 0,
    })
}

/// Feeding a frame split at every possible byte boundary decodes the same
/// message as feeding it whole.
#[test]
fn chunked_delivery_every_split() {
    let msg = sensors_msg();
    let frame = encode_state(&msg);
    for split in 0..=frame.len() {
        let mut acc = DecodeAccumulator::new();
        let mut results: Vec<FeedResult<IcarusState>> = Vec::new();
        results.push(acc.feed_state(&frame[..split]));
        results.push(acc.feed_state(&frame[split..]));
        let mut successes = 0;
        for r in results {
            match r {
                FeedResult::Consumed => {}
                FeedResult::Success { msg: decoded, remaining } => {
                    successes += 1;
                    assert_eq!(decoded, msg);
                    assert!(remaining.is_empty());
                }
                other => panic!("split {split} gave unexpected result {other:?}"),
            }
        }
        assert_eq!(successes, 1, "split {split}");
    }
}

/// Encode `Throttle(10, -5, 0)`, feed it in two arbitrary chunks: exactly one
/// `Success` with the same command and nothing remaining.
#[test]
fn throttle_in_two_chunks() {
    let cmd = IcarusCommand::Throttle(10, -5, 0);
    let frame = encode_command(&cmd);
    let mut acc = DecodeAccumulator::new();
    assert!(matches!(acc.feed_command(&frame[..3]), FeedResult::Consumed));
    match acc.feed_command(&frame[3..]) {
        FeedResult::Success { msg, remaining } => {
            assert_eq!(msg, IcarusCommand::Throttle(10, -5, 0));
            assert!(remaining.is_empty());
        }
        other => panic!("expected success, got {other:?}"),
    }
}

/// Two concatenated frames fed in one call yield both messages in order via
/// repeated `Success` results consuming `remaining` each time.
#[test]
fn two_frames_in_one_window() {
    let m1 = sensors_msg();
    let m2 = battery_msg();
    let mut window = encode_state(&m1);
    window.extend_from_slice(&encode_state(&m2));
    let mut acc = DecodeAccumulator::new();
    let first = acc.feed_state(&window);
    let remaining = match first {
        FeedResult::Success { msg, remaining } => {
            assert_eq!(msg, m1);
            assert!(!remaining.is_empty());
            remaining
        }
        other => panic!("expected first success, got {other:?}"),
    };
    match acc.feed_state(&remaining) {
        FeedResult::Success { msg, remaining } => {
            assert_eq!(msg, m2);
            assert!(remaining.is_empty());
        }
        other => panic!("expected second success, got {other:?}"),
    }
}

/// The drain loop yields both messages of one window, in order.
#[test]
fn drain_yields_messages_in_order() {
    let m1 = estimated_msg();
    let m2 = battery_msg();
    let mut window = encode_state(&m1);
    window.extend_from_slice(&encode_state(&m2));
    // A partial third frame stays buffered.
    let tail = encode_state(&sensors_msg());
    window.extend_from_slice(&tail[..5]);
    let mut acc = DecodeAccumulator::new();
    let msgs = acc.feed_states_all(&window);
    assert_eq!(msgs, vec![m1, m2]);
    // Completing the third frame yields it.
    let msgs = acc.feed_states_all(&tail[5..]);
    assert_eq!(msgs, vec![sensors_msg()]);
}

/// A corrupted frame (byte inserted before its terminator) followed by a
/// valid frame still yields the valid message.
#[test]
fn resynchronizes_after_inserted_byte() {
    let good = battery_msg();
    let bad_src = encode_state(&sensors_msg());
    let mut window: Vec<u8> = Vec::new();
    window.extend_from_slice(&bad_src[..bad_src.len() - 1]);
    window.push(0x55); // corruption: an extra byte before the terminator
    window.push(0); // the corrupted frame's terminator
    window.extend_from_slice(&encode_state(&good));
    let mut acc = DecodeAccumulator::new();
    let msgs = acc.feed_states_all(&window);
    assert_eq!(msgs.last(), Some(&good));
}

/// A corrupted frame (byte removed before its terminator) followed by a
/// valid frame still yields the valid message.
#[test]
fn resynchronizes_after_removed_byte() {
    let good = battery_msg();
    let bad_src = encode_state(&sensors_msg());
    let mut window: Vec<u8> = Vec::new();
    window.extend_from_slice(&bad_src[..bad_src.len() - 2]); // drop one payload byte
    window.push(0); // the corrupted frame's terminator
    window.extend_from_slice(&encode_state(&good));
    let mut acc = DecodeAccumulator::new();
    let msgs = acc.feed_states_all(&window);
    assert_eq!(msgs, vec![good]);
}

/// An unterminated run past the buffer capacity is reported as overflow, the
/// buffer resets, and a later frame still decodes.
#[test]
fn overflow_resets_and_recovers() {
    let mut acc = DecodeAccumulator::new();
    let noise = vec![0x41u8; 300];
    match acc.feed_state(&noise) {
        FeedResult::OverFull(remaining) => assert!(remaining.is_empty()),
        other => panic!("expected overflow, got {other:?}"),
    }
    let msg = battery_msg();
    match acc.feed_state(&encode_state(&msg)) {
        FeedResult::Success { msg: decoded, remaining } => {
            assert_eq!(decoded, msg);
            assert!(remaining.is_empty());
        }
        other => panic!("expected success, got {other:?}"),
    }
}

/// An empty frame is malformed and is skipped.
#[test]
fn empty_frame_is_decode_error() {
    let mut acc = DecodeAccumulator::new();
    match acc.feed_state(&[0u8]) {
        FeedResult::DecodeError(remaining) => assert!(remaining.is_empty()),
        other => panic!("expected decode error, got {other:?}"),
    }
}

/// The command drain loop mirrors the state one.
#[test]
fn drain_commands_in_order() {
    let mut window = encode_command(&IcarusCommand::CycleLed);
    window.extend_from_slice(&encode_command(&IcarusCommand::Throttle(1, 2, 3)));
    let mut acc = DecodeAccumulator::new();
    let cmds = acc.feed_commands_all(&window);
    assert_eq!(cmds, vec![IcarusCommand::CycleLed, IcarusCommand::Throttle(1, 2, 3)]);
}

/// Feeding a frame one byte at a time decodes it exactly once.
#[test]
fn chunked_delivery_byte_by_byte() {
    let msg = sensors_msg();
    let frame = encode_state(&msg);
    let mut acc = DecodeAccumulator::new();
    let mut decoded: Vec<IcarusState> = Vec::new();
    for chunk in frame.chunks(1) {
        match acc.feed_state(chunk) {
            FeedResult::Consumed => {}
            FeedResult::Success { msg, remaining } => {
                decoded.push(msg);
                assert!(remaining.is_empty());
            }
            other => panic!("unexpected result {other:?}"),
        }
    }
    assert_eq!(decoded, vec![msg]);
}
