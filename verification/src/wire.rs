//! The tagged binary payload of one wire message.
//!
//! A message is a tag byte followed by the active variant's fields in
//! declared order: `i32` and `u16` fields as little-endian two's complement,
//! `bool` as one byte (0 or 1), and log bytes with a one-byte length prefix.
//! Framing (byte stuffing and the terminator) is layered on top by
//! `crate::frame`.

use vstd::prelude::*;
use vstd::bytes::{spec_u16_from_le_bytes, spec_u16_to_le_bytes, lemma_auto_spec_u16_to_from_le_bytes};
use crate::le::{
    i32_of_le_bytes, i8_of_u8, le_bytes_of_i32, lemma_i32_le_roundtrip, lemma_i8_u8_roundtrip,
    push_i32_le, push_u16_le, read_i32_le, read_u16_le, u8_of_i8, u8_to_i8, i8_to_u8,
};
use crate::data::{AccelerometerData, Attitude, GyroscopeData};
use crate::estimator::{EstimatedState, EstimatorInput};

verus! {

/// Raw barometer reading: altitude and temperature in thousandths.
#[derive(Debug, Clone, Copy, PartialEq, Eq, Structural)]
pub struct BarometerRaw {
    pub altitude: i32,
    pub temp: i32,
}

#[derive(Debug, Clone, Copy, PartialEq, Eq, Structural)]
pub struct BatteryState {
    /// Battery voltage
    pub voltage: u16,
    /// Raw value from ADC
    pub adc_raw: u16,
    /// Charge state from the LiPo charger
    pub charge_complete: bool,
}

/// Data reporting channels for Icarus
#[derive(Debug, Clone, PartialEq, Eq)]
pub enum IcarusState {
    Sensors(EstimatorInput),
    EstimatedState(EstimatedState),
    Battery(BatteryState),
    Log(Vec<u8>),
}

/// Mathematical shape of an `IcarusState`: log bytes become a sequence.
pub enum StateModel {
    Sensors(EstimatorInput),
    EstimatedState(EstimatedState),
    Battery(BatteryState),
    Log(Seq<u8>),
}

impl View for IcarusState {
    type V = StateModel;

    open spec fn view(&self) -> StateModel {
        match self {
            IcarusState::Sensors(inp) => StateModel::Sensors(*inp),
            IcarusState::EstimatedState(es) => StateModel::EstimatedState(*es),
            IcarusState::Battery(b) => StateModel::Battery(*b),
            IcarusState::Log(bytes) => StateModel::Log(bytes@),
        }
    }
}

/// Icarus command channels
#[derive(Debug, Clone, Copy, PartialEq, Eq, Structural)]
pub enum IcarusCommand {
    CycleLed,
    Throttle(i8, i8, i8),
}

pub const TAG_SENSORS: u8 = 0;
pub const TAG_ESTIMATED_STATE: u8 = 1;
pub const TAG_BATTERY: u8 = 2;
pub const TAG_LOG: u8 = 3;

pub const TAG_CYCLE_LED: u8 = 0;
pub const TAG_THROTTLE: u8 = 1;

/// Log payloads carry a one-byte length prefix, so a message is encodable
/// only while its log bytes fit that prefix.
pub open spec fn state_encodable(m: StateModel) -> bool {
    match m {
        StateModel::Log(bytes) => bytes.len() <= 255,
        _ => true,
    }
}

pub open spec fn bool_byte(b: bool) -> u8 {
    if b {
        1u8
    } else {
        0u8
    }
}

/// The tagged payload bytes of one outbound message.
pub open spec fn state_payload(m: StateModel) -> Seq<u8> {
    match m {
        StateModel::Sensors(inp) => seq![TAG_SENSORS] + le_bytes_of_i32(inp.accel.x)
            + le_bytes_of_i32(inp.accel.y) + le_bytes_of_i32(inp.accel.z)
            + le_bytes_of_i32(inp.gyro.x) + le_bytes_of_i32(inp.gyro.y)
            + le_bytes_of_i32(inp.gyro.z) + le_bytes_of_i32(inp.altitude),
        StateModel::EstimatedState(es) => seq![TAG_ESTIMATED_STATE]
            + le_bytes_of_i32(es.attitude.pitch) + le_bytes_of_i32(es.attitude.roll)
            + le_bytes_of_i32(es.attitude.yaw) + le_bytes_of_i32(es.z_vel),
        StateModel::Battery(b) => seq![TAG_BATTERY] + spec_u16_to_le_bytes(b.voltage)
            + spec_u16_to_le_bytes(b.adc_raw) + seq![bool_byte(b.charge_complete)],
        StateModel::Log(bytes) => seq![TAG_LOG, bytes.len() as u8] + bytes,
    }
}

/// The tagged payload bytes of one inbound command.
pub open spec fn command_payload(c: IcarusCommand) -> Seq<u8> {
    match c {
        IcarusCommand::CycleLed => seq![TAG_CYCLE_LED],
        IcarusCommand::Throttle(x, y, z) => seq![TAG_THROTTLE, u8_of_i8(x), u8_of_i8(y), u8_of_i8(z)],
    }
}

/// Reads one outbound message back out of payload bytes; `None` on any
/// malformed payload (unknown tag, wrong length, bad bool byte).
pub open spec fn parse_state(p: Seq<u8>) -> Option<StateModel> {
    if p.len() == 0 {
        None
    } else if p[0] == TAG_SENSORS {
        if p.len() == 29 {
            Some(StateModel::Sensors(EstimatorInput {
                accel: AccelerometerData {
                    x: i32_of_le_bytes(p.subrange(1, 5)),
                    y: i32_of_le_bytes(p.subrange(5, 9)),
                    z: i32_of_le_bytes(p.subrange(9, 13)),
                },
                gyro: GyroscopeData {
                    x: i32_of_le_bytes(p.subrange(13, 17)),
                    y: i32_of_le_bytes(p.subrange(17, 21)),
                    z: i32_of_le_bytes(p.subrange(21, 25)),
                },
                altitude: i32_of_le_bytes(p.subrange(25, 29)),
            }))
        } else {
            None
        }
    } else if p[0] == TAG_ESTIMATED_STATE {
        if p.len() == 17 {
            Some(StateModel::EstimatedState(EstimatedState {
                attitude: Attitude {
                    pitch: i32_of_le_bytes(p.subrange(1, 5)),
                    roll: i32_of_le_bytes(p.subrange(5, 9)),
                    yaw: i32_of_le_bytes(p.subrange(9, 13)),
                },
                z_vel: i32_of_le_bytes(p.subrange(13, 17)),
            }))
        } else {
            None
        }
    } else if p[0] == TAG_BATTERY {
        if p.len() == 6 && (p[5] == 0 || p[5] == 1) {
            Some(StateModel::Battery(BatteryState {
                voltage: spec_u16_from_le_bytes(p.subrange(1, 3)),
                adc_raw: spec_u16_from_le_bytes(p.subrange(3, 5)),
                charge_complete: p[5] == 1,
            }))
        } else {
            None
        }
    } else if p[0] == TAG_LOG {
        if p.len() >= 2 && p.len() == 2 + p[1] {
            Some(StateModel::Log(p.skip(2)))
        } else {
            None
        }
    } else {
        None
    }
}

/// Reads one inbound command back out of payload bytes.
pub open spec fn parse_command(p: Seq<u8>) -> Option<IcarusCommand> {
    if p.len() == 0 {
        None
    } else if p[0] == TAG_CYCLE_LED {
        if p.len() == 1 {
            Some(IcarusCommand::CycleLed)
        } else {
            None
        }
    } else if p[0] == TAG_THROTTLE {
        if p.len() == 4 {
            Some(IcarusCommand::Throttle(i8_of_u8(p[1]), i8_of_u8(p[2]), i8_of_u8(p[3])))
        } else {
            None
        }
    } else {
        None
    }
}

/// Every encodable outbound message reads back as itself.
pub proof fn lemma_state_payload_roundtrip(m: StateModel)
    requires
        state_encodable(m),
    ensures
        parse_state(state_payload(m)) == Some(m),
{
    let p = state_payload(m);
    match m {
        StateModel::Sensors(inp) => {
            lemma_i32_le_roundtrip(inp.accel.x);
            lemma_i32_le_roundtrip(inp.accel.y);
            lemma_i32_le_roundtrip(inp.accel.z);
            lemma_i32_le_roundtrip(inp.gyro.x);
            lemma_i32_le_roundtrip(inp.gyro.y);
            lemma_i32_le_roundtrip(inp.gyro.z);
            lemma_i32_le_roundtrip(inp.altitude);
            assert(p.subrange(1, 5) =~= le_bytes_of_i32(inp.accel.x));
            assert(p.subrange(5, 9) =~= le_bytes_of_i32(inp.accel.y));
            assert(p.subrange(9, 13) =~= le_bytes_of_i32(inp.accel.z));
            assert(p.subrange(13, 17) =~= le_bytes_of_i32(inp.gyro.x));
            assert(p.subrange(17, 21) =~= le_bytes_of_i32(inp.gyro.y));
            assert(p.subrange(21, 25) =~= le_bytes_of_i32(inp.gyro.z));
            assert(p.subrange(25, 29) =~= le_bytes_of_i32(inp.altitude));
        },
        StateModel::EstimatedState(es) => {
            lemma_i32_le_roundtrip(es.attitude.pitch);
            lemma_i32_le_roundtrip(es.attitude.roll);
            lemma_i32_le_roundtrip(es.attitude.yaw);
            lemma_i32_le_roundtrip(es.z_vel);
            assert(p.subrange(1, 5) =~= le_bytes_of_i32(es.attitude.pitch));
            assert(p.subrange(5, 9) =~= le_bytes_of_i32(es.attitude.roll));
            assert(p.subrange(9, 13) =~= le_bytes_of_i32(es.attitude.yaw));
            assert(p.subrange(13, 17) =~= le_bytes_of_i32(es.z_vel));
        },
        StateModel::Battery(b) => {
            lemma_auto_spec_u16_to_from_le_bytes();
            assert(p.subrange(1, 3) =~= spec_u16_to_le_bytes(b.voltage));
            assert(p.subrange(3, 5) =~= spec_u16_to_le_bytes(b.adc_raw));
        },
        StateModel::Log(bytes) => {
            assert(p.skip(2) =~= bytes);
        },
    }
}

/// Every inbound command reads back as itself.
pub proof fn lemma_command_payload_roundtrip(c: IcarusCommand)
    ensures
        parse_command(command_payload(c)) == Some(c),
{
    match c {
        IcarusCommand::CycleLed => {},
        IcarusCommand::Throttle(x, y, z) => {
            lemma_i8_u8_roundtrip(x);
            lemma_i8_u8_roundtrip(y);
            lemma_i8_u8_roundtrip(z);
        },
    }
}

/// Serializes one outbound message to its tagged payload.
pub fn encode_state_payload(msg: &IcarusState) -> (out: Vec<u8>)
    requires
        state_encodable(msg@),
    ensures
        out@ == state_payload(msg@),
{
    let mut out: Vec<u8> = Vec::new();
    match msg {
        IcarusState::Sensors(inp) => {
            out.push(TAG_SENSORS);
            push_i32_le(&mut out, inp.accel.x);
            push_i32_le(&mut out, inp.accel.y);
            push_i32_le(&mut out, inp.accel.z);
            push_i32_le(&mut out, inp.gyro.x);
            push_i32_le(&mut out, inp.gyro.y);
            push_i32_le(&mut out, inp.gyro.z);
            push_i32_le(&mut out, inp.altitude);
            assert(out@ =~= state_payload(msg@));
        },
        IcarusState::EstimatedState(es) => {
            out.push(TAG_ESTIMATED_STATE);
            push_i32_le(&mut out, es.attitude.pitch);
            push_i32_le(&mut out, es.attitude.roll);
            push_i32_le(&mut out, es.attitude.yaw);
            push_i32_le(&mut out, es.z_vel);
            assert(out@ =~= state_payload(msg@));
        },
        IcarusState::Battery(b) => {
            out.push(TAG_BATTERY);
            push_u16_le(&mut out, b.voltage);
            push_u16_le(&mut out, b.adc_raw);
            if b.charge_complete {
                out.push(1);
            } else {
                out.push(0);
            }
            assert(out@ =~= state_payload(msg@));
        },
        IcarusState::Log(bytes) => {
            out.push(TAG_LOG);
            out.push(bytes.len() as u8);
            let mut i: usize = 0;
            while i < bytes.len()
                invariant
                    i <= bytes@.len(),
                    bytes@.len() <= 255,
                    out@ == seq![TAG_LOG, bytes@.len() as u8] + bytes@.take(i as int),
                decreases bytes@.len() - i,
            {
                out.push(bytes[i]);
                assert(out@ =~= seq![TAG_LOG, bytes@.len() as u8] + bytes@.take(i + 1));
                i = i + 1;
            }
            assert(bytes@.take(bytes@.len() as int) =~= bytes@);
            assert(out@ =~= state_payload(msg@));
        },
    }
    out
}

/// Serializes one inbound command to its tagged payload.
pub fn encode_command_payload(cmd: &IcarusCommand) -> (out: Vec<u8>)
    ensures
        out@ == command_payload(*cmd),
{
    let mut out: Vec<u8> = Vec::new();
    match cmd {
        IcarusCommand::CycleLed => {
            out.push(TAG_CYCLE_LED);
            assert(out@ =~= command_payload(*cmd));
        },
        IcarusCommand::Throttle(x, y, z) => {
            out.push(TAG_THROTTLE);
            out.push(i8_to_u8(*x));
            out.push(i8_to_u8(*y));
            out.push(i8_to_u8(*z));
            assert(out@ =~= command_payload(*cmd));
        },
    }
    out
}

/// Deserializes one outbound message from payload bytes; `None` exactly on
/// the payloads that `parse_state` rejects.
pub fn decode_state_payload(p: &[u8]) -> (r: Option<IcarusState>)
    ensures
        r matches Some(m) ==> parse_state(p@) == Some(m@),
        r is None ==> parse_state(p@) is None,
{
    let n = p.len();
    if n == 0 {
        return None;
    }
    let tag = p[0];
    if tag == TAG_SENSORS {
        if n == 29 {
            let msg = IcarusState::Sensors(EstimatorInput {
                accel: AccelerometerData {
                    x: read_i32_le(p, 1),
                    y: read_i32_le(p, 5),
                    z: read_i32_le(p, 9),
                },
                gyro: GyroscopeData {
                    x: read_i32_le(p, 13),
                    y: read_i32_le(p, 17),
                    z: read_i32_le(p, 21),
                },
                altitude: read_i32_le(p, 25),
            });
            Some(msg)
        } else {
            None
        }
    } else if tag == TAG_ESTIMATED_STATE {
        if n == 17 {
            let msg = IcarusState::EstimatedState(EstimatedState {
                attitude: Attitude {
                    pitch: read_i32_le(p, 1),
                    roll: read_i32_le(p, 5),
                    yaw: read_i32_le(p, 9),
                },
                z_vel: read_i32_le(p, 13),
            });
            Some(msg)
        } else {
            None
        }
    } else if tag == TAG_BATTERY {
        if n == 6 && (p[5] == 0 || p[5] == 1) {
            let msg = IcarusState::Battery(BatteryState {
                voltage: read_u16_le(p, 1),
                adc_raw: read_u16_le(p, 3),
                charge_complete: p[5] == 1,
            });
            Some(msg)
        } else {
            None
        }
    } else if tag == TAG_LOG {
        if n >= 2 && n == 2 + (p[1] as usize) {
            let mut bytes: Vec<u8> = Vec::new();
            let mut i: usize = 2;
            while i < n
                invariant
                    2 <= i <= n,
                    n == p@.len(),
                    bytes@ == p@.subrange(2, i as int),
                decreases n - i,
            {
                bytes.push(p[i]);
                assert(bytes@ =~= p@.subrange(2, i + 1));
                i = i + 1;
            }
            assert(bytes@ =~= p@.skip(2));
            Some(IcarusState::Log(bytes))
        } else {
            None
        }
    } else {
        None
    }
}

/// Deserializes one inbound command from payload bytes; `None` exactly on
/// the payloads that `parse_command` rejects.
pub fn decode_command_payload(p: &[u8]) -> (r: Option<IcarusCommand>)
    ensures
        r == parse_command(p@),
{
    let n = p.len();
    if n == 0 {
        return None;
    }
    let tag = p[0];
    if tag == TAG_CYCLE_LED {
        if n == 1 {
            Some(IcarusCommand::CycleLed)
        } else {
            None
        }
    } else if tag == TAG_THROTTLE {
        if n == 4 {
            Some(IcarusCommand::Throttle(u8_to_i8(p[1]), u8_to_i8(p[2]), u8_to_i8(p[3])))
        } else {
            None
        }
    } else {
        None
    }
}

} // verus!
