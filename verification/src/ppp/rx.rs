//! The receive side of the header framing: a three-state machine consuming
//! one byte at a time into a ring buffer, decoding each completed frame in
//! place and queuing the command on a bounded single-producer queue.
//!
//! The two CRC bytes at the end of each frame are counted but never
//! validated. A frame whose payload does not decode, or that arrives while
//! the command queue is full, is dropped and the machine resynchronizes on
//! the next sync byte.

use vstd::prelude::*;
use crate::comms::{decode_comms_command_payload, parse_comms_command, IcarusCommand};
use crate::ppp::error::Error;
use crate::ppp::reader::{ring_read, RingBufferReader};
use crate::ppp::SYNC;

verus! {

/// Bytes the receive ring buffer holds.
pub const RX_BUFFER_SIZE: usize = 64;

/// How many decoded commands the stream can hold at once.
pub const RX_STREAM_DEPTH: usize = 3;

/// heapless::spsc::Queue, the bounded handoff holding decoded commands; it
/// stores at most `N - 1` items, and is described only through
/// `stream_contents`.
#[verifier::external_type_specification]
#[verifier::external_body]
#[verifier::reject_recursive_types(T)]
pub struct ExSpscQueue<T, const N: usize>(heapless::spsc::Queue<T, N>);

/// What the command stream holds, front of the queue first.
pub uninterp spec fn stream_contents(
    q: &heapless::spsc::Queue<IcarusCommand, 4>,
) -> Seq<IcarusCommand>;

/// Relies on heapless::spsc::Queue::new: a fresh queue is empty.
#[verifier::external_body]
fn stream_new() -> (q: heapless::spsc::Queue<IcarusCommand, 4>)
    ensures
        stream_contents(&q) == Seq::<IcarusCommand>::empty(),
{
    heapless::spsc::Queue::new()
}

/// Relies on heapless::spsc::Queue::enqueue: appends while fewer than `N - 1`
/// items are held, and hands the value back unqueued when full.
#[verifier::external_body]
fn stream_enqueue(
    q: &mut heapless::spsc::Queue<IcarusCommand, 4>,
    v: IcarusCommand,
) -> (r: Result<(), IcarusCommand>)
    ensures
        stream_contents(old(q)).len() < 3 ==> (r is Ok && stream_contents(final(q))
            == stream_contents(old(q)).push(v)),
        stream_contents(old(q)).len() >= 3 ==> (r == Err::<(), IcarusCommand>(v)
            && stream_contents(final(q)) == stream_contents(old(q))),
{
    q.enqueue(v)
}

/// Relies on heapless::spsc::Queue::dequeue: pops the oldest item, if any.
#[verifier::external_body]
fn stream_dequeue(q: &mut heapless::spsc::Queue<IcarusCommand, 4>) -> (r: Option<IcarusCommand>)
    ensures
        stream_contents(old(q)).len() == 0 ==> (r is None && stream_contents(final(q))
            == stream_contents(old(q))),
        stream_contents(old(q)).len() > 0 ==> (r == Some(stream_contents(old(q))[0])
            && stream_contents(final(q)) == stream_contents(old(q)).drop_first()),
{
    q.dequeue()
}

/// State machine for receiving bytes
#[derive(Debug, Clone, Copy, PartialEq, Eq, Structural)]
pub enum RxState {
    Sync,
    Length,
    Transfer,
}

/// The whole receiver, on the model level.
pub struct RxModel {
    pub state: RxState,
    pub buf: Seq<u8>,
    pub read_idx: int,
    pub write_idx: int,
    pub remaining: int,
    pub payload_len: int,
    pub commands: Seq<IcarusCommand>,
}

/// A receiver model the machine keeps returning to.
pub open spec fn rx_model_wf(m: RxModel) -> bool {
    &&& m.buf.len() == RX_BUFFER_SIZE
    &&& 0 <= m.write_idx < RX_BUFFER_SIZE
    &&& 0 <= m.read_idx < RX_BUFFER_SIZE
    &&& 0 <= m.payload_len <= 255
    &&& 0 <= m.remaining <= 257
    &&& (m.state is Transfer ==> m.remaining >= 1)
    &&& m.commands.len() <= RX_STREAM_DEPTH
}

/// One byte's worth of the receive state machine: store the byte in the ring,
/// then hunt for the sync byte, latch the length, or count the transfer down;
/// a completed frame is decoded out of the ring and queued.
pub open spec fn rx_step(m: RxModel, byte: u8) -> (RxModel, Result<(), Error>) {
    let stored = m.buf.update(m.write_idx, byte);
    let wnext = (m.write_idx + 1) % (RX_BUFFER_SIZE as int);
    match m.state {
        RxState::Sync => (
            RxModel {
                state: if byte == SYNC {
                    RxState::Length
                } else {
                    RxState::Sync
                },
                buf: stored,
                read_idx: m.read_idx,
                write_idx: wnext,
                remaining: m.remaining,
                payload_len: m.payload_len,
                commands: m.commands,
            },
            Ok(()),
        ),
        RxState::Length => (
            RxModel {
                state: RxState::Transfer,
                buf: stored,
                read_idx: m.read_idx,
                write_idx: wnext,
                remaining: byte as int + 2,
                payload_len: byte as int,
                commands: m.commands,
            },
            Ok(()),
        ),
        RxState::Transfer => {
            if m.remaining > 1 {
                (
                    RxModel {
                        state: RxState::Transfer,
                        buf: stored,
                        read_idx: m.read_idx,
                        write_idx: wnext,
                        remaining: m.remaining - 1,
                        payload_len: m.payload_len,
                        commands: m.commands,
                    },
                    Ok(()),
                )
            } else {
                let payload = ring_read(stored, m.read_idx + 2, m.payload_len);
                let reset = RxModel {
                    state: RxState::Sync,
                    buf: stored,
                    read_idx: wnext,
                    write_idx: wnext,
                    remaining: 0,
                    payload_len: m.payload_len,
                    commands: m.commands,
                };
                match parse_comms_command(payload) {
                    Some(cmd) => {
                        if m.commands.len() < RX_STREAM_DEPTH {
                            (
                                RxModel { commands: m.commands.push(cmd), ..reset },
                                Ok(()),
                            )
                        } else {
                            (reset, Err(Error::QueueError))
                        }
                    },
                    None => (reset, Err(Error::DecodeError)),
                }
            }
        },
    }
}

/// The state machine run over a window of bytes, stopping at the first
/// error as the byte-wise feed does.
pub open spec fn rx_run(m: RxModel, bytes: Seq<u8>) -> (RxModel, Result<(), Error>)
    decreases bytes.len(),
{
    if bytes.len() == 0 {
        (m, Ok(()))
    } else {
        let s = rx_step(m, bytes[0]);
        if s.1 is Err {
            s
        } else {
            rx_run(s.0, bytes.drop_first())
        }
    }
}

/// Convert a stream of bytes into a stream of decoded commands.
pub struct ReceiveQueue {
    stream: heapless::spsc::Queue<IcarusCommand, 4>,
    state: RxState,
    buf: Vec<u8>,
    read_idx: usize,
    write_idx: usize,
    remaining_bytes: usize,
    payload_len: usize,
}

impl ReceiveQueue {
    /// The receiver as its model.
    pub closed spec fn model(&self) -> RxModel {
        RxModel {
            state: self.state,
            buf: self.buf@,
            read_idx: self.read_idx as int,
            write_idx: self.write_idx as int,
            remaining: self.remaining_bytes as int,
            payload_len: self.payload_len as int,
            commands: stream_contents(&self.stream),
        }
    }

    pub open spec fn wf(&self) -> bool {
        rx_model_wf(self.model())
    }

    /// Construct a new [ReceiveQueue] with an empty ring buffer and an empty
    /// command stream.
    pub fn new() -> (r: ReceiveQueue)
        ensures
            r.wf(),
            r.model().state == RxState::Sync,
            r.model().commands == Seq::<IcarusCommand>::empty(),
            r.model().read_idx == 0,
            r.model().write_idx == 0,
            r.model().remaining == 0,
    {
        let buf = vec![0u8; RX_BUFFER_SIZE];
        ReceiveQueue {
            stream: stream_new(),
            state: RxState::Sync,
            buf,
            read_idx: 0,
            write_idx: 0,
            remaining_bytes: 0,
            payload_len: 0,
        }
    }

    /// Update the queue with the given byte
    pub fn update(&mut self, byte: u8) -> (r: Result<(), Error>)
        requires
            old(self).wf(),
        ensures
            final(self).wf(),
            final(self).model() == rx_step(old(self).model(), byte).0,
            r == rx_step(old(self).model(), byte).1,
    {
        self.buf.set(self.write_idx, byte);
        let wnext = (self.write_idx + 1) % RX_BUFFER_SIZE;
        match self.state {
            RxState::Sync => {
                if byte == SYNC {
                    self.state = RxState::Length;
                }
                self.write_idx = wnext;
                Ok(())
            },
            RxState::Length => {
                self.remaining_bytes = (byte as usize) + 2;
                self.payload_len = byte as usize;
                self.state = RxState::Transfer;
                self.write_idx = wnext;
                Ok(())
            },
            RxState::Transfer => {
                if self.remaining_bytes > 1 {
                    self.remaining_bytes = self.remaining_bytes - 1;
                    self.write_idx = wnext;
                    Ok(())
                } else {
                    let mut reader = RingBufferReader::new(self.buf.as_slice(), self.read_idx + 2);
                    let payload = reader.read(self.payload_len);
                    let decoded = decode_comms_command_payload(payload.as_slice());
                    self.state = RxState::Sync;
                    self.read_idx = wnext;
                    self.write_idx = wnext;
                    self.remaining_bytes = 0;
                    match decoded {
                        Some(cmd) => {
                            match stream_enqueue(&mut self.stream, cmd) {
                                Ok(()) => Ok(()),
                                Err(_) => Err(Error::QueueError),
                            }
                        },
                        None => Err(Error::DecodeError),
                    }
                }
            },
        }
    }

    /// Update the queue with the given slice, stopping at the first error
    pub fn update_from_slice(&mut self, bytes: &[u8]) -> (r: Result<(), Error>)
        requires
            old(self).wf(),
        ensures
            final(self).wf(),
            final(self).model() == rx_run(old(self).model(), bytes@).0,
            r == rx_run(old(self).model(), bytes@).1,
    {
        let ghost m0 = old(self).model();
        let n = bytes.len();
        let mut i: usize = 0;
        proof {
            assert(bytes@.skip(0) =~= bytes@);
        }
        while i < n
            invariant
                i <= n,
                n == bytes@.len(),
                m0 == old(self).model(),
                self.wf(),
                rx_run(m0, bytes@) == rx_run(self.model(), bytes@.skip(i as int)),
            decreases n - i,
        {
            let ghost pre = self.model();
            let ghost tail = bytes@.skip(i as int);
            let r = self.update(bytes[i]);
            proof {
                assert(tail[0] == bytes@[i as int]);
                assert(tail.drop_first() =~= bytes@.skip(i + 1));
            }
            if let Err(e) = r {
                proof {
                    assert(rx_run(pre, tail) == (self.model(), r));
                }
                return Err(e);
            }
            i = i + 1;
        }
        proof {
            assert(bytes@.skip(n as int) =~= Seq::<u8>::empty());
        }
        Ok(())
    }

    /// Pops the oldest decoded command, if one is queued.
    pub fn pop_command(&mut self) -> (r: Option<IcarusCommand>)
        requires
            old(self).wf(),
        ensures
            final(self).wf(),
            old(self).model().commands.len() == 0 ==> (r is None && final(self).model()
                == old(self).model()),
            old(self).model().commands.len() > 0 ==> ({
                &&& r == Some(old(self).model().commands[0])
                &&& final(self).model() == (RxModel {
                    commands: old(self).model().commands.drop_first(),
                    ..old(self).model()
                })
            }),
    {
        stream_dequeue(&mut self.stream)
    }
}

} // verus!
