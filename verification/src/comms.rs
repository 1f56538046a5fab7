//! Messages of the header-framed serial link, and their payload encoding:
//! a tag byte, then the variant's fields as little-endian two's complement.

use vstd::prelude::*;
use crate::le::{
    i32_of_le_bytes, le_bytes_of_i32, lemma_i32_le_roundtrip, push_i32_le, read_i32_le,
};

verus! {

#[derive(Debug, Clone, Copy, PartialEq, Eq, Structural)]
pub enum IcarusState {
    Heartbeat,
    Accel(i32, i32, i32),
    Gyro(i32, i32, i32),
}

#[derive(Debug, Clone, Copy, PartialEq, Eq, Structural)]
pub enum IcarusCommand {
    LedSet(bool),
}

pub const TAG_HEARTBEAT: u8 = 0;
pub const TAG_ACCEL: u8 = 1;
pub const TAG_GYRO: u8 = 2;

pub const TAG_LED_SET: u8 = 0;

/// The payload bytes of one link report.
pub open spec fn comms_state_payload(m: IcarusState) -> Seq<u8> {
    match m {
        IcarusState::Heartbeat => seq![TAG_HEARTBEAT],
        IcarusState::Accel(x, y, z) => seq![TAG_ACCEL] + le_bytes_of_i32(x) + le_bytes_of_i32(y)
            + le_bytes_of_i32(z),
        IcarusState::Gyro(x, y, z) => seq![TAG_GYRO] + le_bytes_of_i32(x) + le_bytes_of_i32(y)
            + le_bytes_of_i32(z),
    }
}

/// The payload bytes of one link command.
pub open spec fn comms_command_payload(c: IcarusCommand) -> Seq<u8> {
    match c {
        IcarusCommand::LedSet(on) => seq![TAG_LED_SET, if on { 1u8 } else { 0u8 }],
    }
}

/// Reads a link report back out of payload bytes.
pub open spec fn parse_comms_state(p: Seq<u8>) -> Option<IcarusState> {
    if p.len() == 0 {
        None
    } else if p[0] == TAG_HEARTBEAT {
        if p.len() == 1 {
            Some(IcarusState::Heartbeat)
        } else {
            None
        }
    } else if p[0] == TAG_ACCEL {
        if p.len() == 13 {
            Some(IcarusState::Accel(
                i32_of_le_bytes(p.subrange(1, 5)),
                i32_of_le_bytes(p.subrange(5, 9)),
                i32_of_le_bytes(p.subrange(9, 13)),
            ))
        } else {
            None
        }
    } else if p[0] == TAG_GYRO {
        if p.len() == 13 {
            Some(IcarusState::Gyro(
                i32_of_le_bytes(p.subrange(1, 5)),
                i32_of_le_bytes(p.subrange(5, 9)),
                i32_of_le_bytes(p.subrange(9, 13)),
            ))
        } else {
            None
        }
    } else {
        None
    }
}

/// Reads a link command back out of payload bytes.
pub open spec fn parse_comms_command(p: Seq<u8>) -> Option<IcarusCommand> {
    if p.len() == 2 && p[0] == TAG_LED_SET && (p[1] == 0 || p[1] == 1) {
        Some(IcarusCommand::LedSet(p[1] == 1))
    } else {
        None
    }
}

/// Every link report reads back as itself.
pub proof fn lemma_comms_state_roundtrip(m: IcarusState)
    ensures
        parse_comms_state(comms_state_payload(m)) == Some(m),
{
    let p = comms_state_payload(m);
    match m {
        IcarusState::Heartbeat => {},
        IcarusState::Accel(x, y, z) => {
            lemma_i32_le_roundtrip(x);
            lemma_i32_le_roundtrip(y);
            lemma_i32_le_roundtrip(z);
            assert(p.subrange(1, 5) =~= le_bytes_of_i32(x));
            assert(p.subrange(5, 9) =~= le_bytes_of_i32(y));
            assert(p.subrange(9, 13) =~= le_bytes_of_i32(z));
        },
        IcarusState::Gyro(x, y, z) => {
            lemma_i32_le_roundtrip(x);
            lemma_i32_le_roundtrip(y);
            lemma_i32_le_roundtrip(z);
            assert(p.subrange(1, 5) =~= le_bytes_of_i32(x));
            assert(p.subrange(5, 9) =~= le_bytes_of_i32(y));
            assert(p.subrange(9, 13) =~= le_bytes_of_i32(z));
        },
    }
}

/// Every link command reads back as itself.
pub proof fn lemma_comms_command_roundtrip(c: IcarusCommand)
    ensures
        parse_comms_command(comms_command_payload(c)) == Some(c),
{
}

/// Serializes one link report.
pub fn encode_comms_state_payload(msg: &IcarusState) -> (out: Vec<u8>)
    ensures
        out@ == comms_state_payload(*msg),
{
    let mut out: Vec<u8> = Vec::new();
    match msg {
        IcarusState::Heartbeat => {
            out.push(TAG_HEARTBEAT);
            assert(out@ =~= comms_state_payload(*msg));
        },
        IcarusState::Accel(x, y, z) => {
            out.push(TAG_ACCEL);
            push_i32_le(&mut out, *x);
            push_i32_le(&mut out, *y);
            push_i32_le(&mut out, *z);
            assert(out@ =~= comms_state_payload(*msg));
        },
        IcarusState::Gyro(x, y, z) => {
            out.push(TAG_GYRO);
            push_i32_le(&mut out, *x);
            push_i32_le(&mut out, *y);
            push_i32_le(&mut out, *z);
            assert(out@ =~= comms_state_payload(*msg));
        },
    }
    out
}

/// Serializes one link command.
pub fn encode_comms_command_payload(cmd: &IcarusCommand) -> (out: Vec<u8>)
    ensures
        out@ == comms_command_payload(*cmd),
{
    let mut out: Vec<u8> = Vec::new();
    match cmd {
        IcarusCommand::LedSet(on) => {
            out.push(TAG_LED_SET);
            if *on {
                out.push(1);
            } else {
                out.push(0);
            }
            assert(out@ =~= comms_command_payload(*cmd));
        },
    }
    out
}

/// Deserializes one link report; `None` exactly on malformed payloads.
pub fn decode_comms_state_payload(p: &[u8]) -> (r: Option<IcarusState>)
    ensures
        r == parse_comms_state(p@),
{
    let n = p.len();
    if n == 0 {
        return None;
    }
    let tag = p[0];
    if tag == TAG_HEARTBEAT {
        if n == 1 {
            Some(IcarusState::Heartbeat)
        } else {
            None
        }
    } else if tag == TAG_ACCEL {
        if n == 13 {
            Some(IcarusState::Accel(read_i32_le(p, 1), read_i32_le(p, 5), read_i32_le(p, 9)))
        } else {
            None
        }
    } else if tag == TAG_GYRO {
        if n == 13 {
            Some(IcarusState::Gyro(read_i32_le(p, 1), read_i32_le(p, 5), read_i32_le(p, 9)))
        } else {
            None
        }
    } else {
        None
    }
}

/// Deserializes one link command; `None` exactly on malformed payloads.
pub fn decode_comms_command_payload(p: &[u8]) -> (r: Option<IcarusCommand>)
    ensures
        r == parse_comms_command(p@),
{
    if p.len() == 2 && p[0] == TAG_LED_SET && (p[1] == 0 || p[1] == 1) {
        Some(IcarusCommand::LedSet(p[1] == 1))
    } else {
        None
    }
}

} // verus!
