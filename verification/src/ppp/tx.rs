//! Encoding link reports into the header framing.

use vstd::prelude::*;
use crate::comms::{comms_state_payload, encode_comms_state_payload, IcarusState};
use crate::ppp::error::Error;
use crate::ppp::{CRC_PLACEHOLDER, SYNC};

verus! {

/// The full header frame of one link report: sync byte, payload length,
/// payload, and the two reserved CRC placeholder bytes.
pub open spec fn header_frame(msg: IcarusState) -> Seq<u8> {
    let payload = comms_state_payload(msg);
    seq![SYNC, payload.len() as u8] + payload + seq![CRC_PLACEHOLDER, CRC_PLACEHOLDER]
}

/// Encode a value in a slice
pub struct Transmitter {}

impl core::default::Default for Transmitter {
    fn default() -> (r: Self)
        ensures
            r == (Transmitter {  }),
    {
        Transmitter {  }
    }
}

impl Transmitter {
    /// Encode the message into the front of the specified buffer: `Ok` holds
    /// the frame length, and exactly the buffers shorter than the frame are
    /// refused, untouched.
    pub fn encode(&self, buf: &mut Vec<u8>, msg: IcarusState) -> (r: Result<usize, Error>)
        ensures
            r matches Ok(n) ==> ({
                &&& n == header_frame(msg).len()
                &&& n <= old(buf)@.len()
                &&& final(buf)@ == header_frame(msg) + old(buf)@.skip(n as int)
                &&& final(buf)@.len() == old(buf)@.len()
            }),
            r matches Err(e) ==> ({
                &&& e == Error::EncodeError
                &&& old(buf)@.len() < header_frame(msg).len()
                &&& final(buf)@ == old(buf)@
            }),
            r is Ok <==> old(buf)@.len() >= header_frame(msg).len(),
    {
        let payload = encode_comms_state_payload(&msg);
        proof {
            match msg {
                IcarusState::Heartbeat => {},
                IcarusState::Accel(x, y, z) => {
                    crate::le::lemma_i32_le_roundtrip(x);
                    crate::le::lemma_i32_le_roundtrip(y);
                    crate::le::lemma_i32_le_roundtrip(z);
                },
                IcarusState::Gyro(x, y, z) => {
                    crate::le::lemma_i32_le_roundtrip(x);
                    crate::le::lemma_i32_le_roundtrip(y);
                    crate::le::lemma_i32_le_roundtrip(z);
                },
            }
            assert(payload@.len() <= 13);
        }
        let plen = payload.len();
        let total = plen + 4;
        if total > buf.len() {
            return Err(Error::EncodeError);
        }
        let mut frame: Vec<u8> = Vec::new();
        frame.push(SYNC);
        frame.push(plen as u8);
        let mut i: usize = 0;
        while i < plen
            invariant
                i <= plen,
                plen == payload@.len(),
                frame@ == seq![SYNC, plen as u8] + payload@.take(i as int),
            decreases plen - i,
        {
            frame.push(payload[i]);
            assert(frame@ =~= seq![SYNC, plen as u8] + payload@.take(i + 1));
            i = i + 1;
        }
        frame.push(CRC_PLACEHOLDER);
        frame.push(CRC_PLACEHOLDER);
        proof {
            assert(payload@.take(plen as int) =~= payload@);
            assert(frame@ =~= header_frame(msg));
        }
        let n = frame.len();
        let mut j: usize = 0;
        while j < n
            invariant
                j <= n,
                n == frame@.len(),
                n <= buf@.len(),
                buf@.len() == old(buf)@.len(),
                buf@ == frame@.take(j as int) + old(buf)@.skip(j as int),
            decreases n - j,
        {
            buf.set(j, frame[j]);
            assert(buf@ =~= frame@.take(j + 1) + old(buf)@.skip(j + 1));
            j = j + 1;
        }
        assert(buf@ =~= frame@ + old(buf)@.skip(n as int));
        Ok(n)
    }
}

} // verus!
