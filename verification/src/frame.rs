//! Self-delimiting frames and the incremental decoder.
//!
//! One frame is the stuffed payload of one message followed by the
//! terminator byte. `DecodeAccumulator` carries the bytes of at most one
//! partially received frame across calls, resynchronizes after malformed
//! frames, and treats a full buffer without a terminator as a recoverable
//! overflow.

use vstd::prelude::*;
use crate::stuffing::{
    find_terminator, first_terminator, lemma_first_terminator, lemma_first_terminator_is,
    lemma_stuff_no_terminator, lemma_unstuff_stuff, stuff, stuff_bytes, unstuff, unstuff_bytes,
    FRAME_TERMINATOR,
};
use crate::wire::{
    command_payload, decode_command_payload, decode_state_payload, encode_command_payload,
    encode_state_payload, parse_command, parse_state, state_encodable, state_payload,
    IcarusCommand, IcarusState, StateModel,
};

verus! {

/// Bytes the accumulator can hold before an unterminated frame is dropped.
pub const ACCUMULATOR_CAPACITY: usize = 256;

/// Errors of the encoding direction.
#[derive(Debug, Clone, Copy, PartialEq, Eq, Structural)]
pub enum CodecError {
    /// The caller's buffer cannot hold the encoded frame.
    BufferTooSmall,
}

/// Outcome of feeding one window of bytes to the accumulator.
#[derive(Debug, Clone, PartialEq, Eq)]
pub enum FeedResult<M> {
    /// All bytes absorbed; no complete frame yet.
    Consumed,
    /// Capacity ran out before a terminator; the buffer was reset and the
    /// unconsumed tail is returned.
    OverFull(Vec<u8>),
    /// A malformed frame was skipped; the unconsumed tail is returned.
    DecodeError(Vec<u8>),
    /// One frame decoded; the unconsumed tail may hold further frames.
    Success { msg: M, remaining: Vec<u8> },
}

/// One step of the accumulator on the model level.
pub enum FrameStep {
    /// No terminator in the window and the bytes fit: they are buffered.
    Absorbed { buf: Seq<u8> },
    /// The pending frame outgrew the buffer and was dropped.
    Dropped { remaining: Seq<u8> },
    /// A terminator closed a frame of buffered plus window bytes.
    Framed { frame: Seq<u8>, remaining: Seq<u8> },
}

/// What feeding window `w` to an accumulator holding `buf` does.
pub open spec fn accumulate(buf: Seq<u8>, w: Seq<u8>) -> FrameStep {
    let t = first_terminator(w);
    if t == w.len() {
        if buf.len() + w.len() <= ACCUMULATOR_CAPACITY {
            FrameStep::Absorbed { buf: buf + w }
        } else {
            FrameStep::Dropped { remaining: Seq::<u8>::empty() }
        }
    } else {
        let frame = buf + w.take(t);
        let remaining = w.skip(t + 1);
        if frame.len() > ACCUMULATOR_CAPACITY {
            FrameStep::Dropped { remaining }
        } else {
            FrameStep::Framed { frame, remaining }
        }
    }
}

/// The unconsumed tail a step hands back to the caller.
pub open spec fn step_remaining(s: FrameStep) -> Seq<u8> {
    match s {
        FrameStep::Absorbed { .. } => Seq::<u8>::empty(),
        FrameStep::Dropped { remaining } => remaining,
        FrameStep::Framed { remaining, .. } => remaining,
    }
}

/// The outbound message carried by one terminator-free frame body.
pub open spec fn frame_message_state(frame: Seq<u8>) -> Option<StateModel> {
    match unstuff(frame) {
        Some(p) => parse_state(p),
        None => None,
    }
}

/// The inbound command carried by one terminator-free frame body.
pub open spec fn frame_message_command(frame: Seq<u8>) -> Option<IcarusCommand> {
    match unstuff(frame) {
        Some(p) => parse_command(p),
        None => None,
    }
}

/// The full wire frame of one outbound message.
pub open spec fn state_frame(m: StateModel) -> Seq<u8> {
    stuff(state_payload(m)) + seq![FRAME_TERMINATOR]
}

/// The full wire frame of one inbound command.
pub open spec fn command_frame(c: IcarusCommand) -> Seq<u8> {
    stuff(command_payload(c)) + seq![FRAME_TERMINATOR]
}

/// Incremental frame decoder: buffers at most one partial frame at a time.
pub struct DecodeAccumulator {
    buf: Vec<u8>,
}

impl View for DecodeAccumulator {
    type V = Seq<u8>;

    closed spec fn view(&self) -> Seq<u8> {
        self.buf@
    }
}

/// Outcome of the untyped buffering step.
enum RawOutcome {
    Absorbed,
    Dropped(Vec<u8>),
    Framed(Vec<u8>, Vec<u8>),
}

impl DecodeAccumulator {
    /// The buffer never holds more than its capacity.
    pub open spec fn wf(&self) -> bool {
        self@.len() <= ACCUMULATOR_CAPACITY
    }

    pub fn new() -> (r: DecodeAccumulator)
        ensures
            r@ == Seq::<u8>::empty(),
            r.wf(),
    {
        DecodeAccumulator { buf: Vec::new() }
    }

    /// Buffers window bytes up to the first terminator and hands a closed
    /// frame back; exactly the step that `accumulate` describes.
    fn feed_raw(&mut self, w: &[u8]) -> (res: RawOutcome)
        requires
            old(self).wf(),
        ensures
            final(self).wf(),
            accumulate(old(self)@, w@) matches FrameStep::Absorbed { buf } ==> (res is Absorbed
                && final(self)@ == buf),
            accumulate(old(self)@, w@) matches FrameStep::Dropped { remaining } ==> (res matches
                RawOutcome::Dropped(rem) && rem@ == remaining && final(self)@ == Seq::<u8>::empty()),
            accumulate(old(self)@, w@) matches FrameStep::Framed { frame, remaining } ==> (res
                matches RawOutcome::Framed(f, rem) && f@ == frame && rem@ == remaining
                && final(self)@ == Seq::<u8>::empty()),
    {
        let n = w.len();
        let t = find_terminator(w);
        proof {
            lemma_first_terminator(w@);
        }
        if t == n {
            if n <= ACCUMULATOR_CAPACITY && self.buf.len() + n <= ACCUMULATOR_CAPACITY {
                self.buf.extend_from_slice(w);
                RawOutcome::Absorbed
            } else {
                self.buf.clear();
                RawOutcome::Dropped(Vec::new())
            }
        } else {
            let mut remaining: Vec<u8> = Vec::new();
            remaining.extend_from_slice(&w[t + 1..n]);
            assert(remaining@ =~= w@.skip(t + 1));
            if t > ACCUMULATOR_CAPACITY || self.buf.len() + t > ACCUMULATOR_CAPACITY {
                self.buf.clear();
                RawOutcome::Dropped(remaining)
            } else {
                let mut frame: Vec<u8> = Vec::new();
                frame.append(&mut self.buf);
                frame.extend_from_slice(&w[0..t]);
                assert(frame@ =~= old(self)@ + w@.take(t as int));
                RawOutcome::Framed(frame, remaining)
            }
        }
    }

    /// Feeds a window of transport bytes, decoding outbound messages.
    pub fn feed_state(&mut self, w: &[u8]) -> (r: FeedResult<IcarusState>)
        requires
            old(self).wf(),
        ensures
            final(self).wf(),
            accumulate(old(self)@, w@) matches FrameStep::Absorbed { buf } ==> (r is Consumed
                && final(self)@ == buf),
            accumulate(old(self)@, w@) matches FrameStep::Dropped { remaining } ==> (r matches
                FeedResult::OverFull(rem) && rem@ == remaining
                && final(self)@ == Seq::<u8>::empty()),
            accumulate(old(self)@, w@) matches FrameStep::Framed { frame, remaining } ==> ({
                &&& final(self)@ == Seq::<u8>::empty()
                &&& (frame_message_state(frame) matches Some(m) ==> (r matches FeedResult::Success {
                    msg,
                    remaining: rem,
                } && msg@ == m && rem@ == remaining))
                &&& (frame_message_state(frame) is None ==> (r matches FeedResult::DecodeError(rem)
                    && rem@ == remaining))
            }),
    {
        match self.feed_raw(w) {
            RawOutcome::Absorbed => FeedResult::Consumed,
            RawOutcome::Dropped(rem) => FeedResult::OverFull(rem),
            RawOutcome::Framed(frame, rem) => {
                match unstuff_bytes(frame.as_slice()) {
                    Some(payload) => {
                        match decode_state_payload(payload.as_slice()) {
                            Some(msg) => FeedResult::Success { msg, remaining: rem },
                            None => FeedResult::DecodeError(rem),
                        }
                    },
                    None => FeedResult::DecodeError(rem),
                }
            },
        }
    }

    /// Feeds a window of transport bytes, decoding inbound commands.
    pub fn feed_command(&mut self, w: &[u8]) -> (r: FeedResult<IcarusCommand>)
        requires
            old(self).wf(),
        ensures
            final(self).wf(),
            accumulate(old(self)@, w@) matches FrameStep::Absorbed { buf } ==> (r is Consumed
                && final(self)@ == buf),
            accumulate(old(self)@, w@) matches FrameStep::Dropped { remaining } ==> (r matches
                FeedResult::OverFull(rem) && rem@ == remaining
                && final(self)@ == Seq::<u8>::empty()),
            accumulate(old(self)@, w@) matches FrameStep::Framed { frame, remaining } ==> ({
                &&& final(self)@ == Seq::<u8>::empty()
                &&& (frame_message_command(frame) matches Some(m) ==> (r matches FeedResult::Success {
                    msg,
                    remaining: rem,
                } && msg == m && rem@ == remaining))
                &&& (frame_message_command(frame) is None ==> (r matches FeedResult::DecodeError(rem)
                    && rem@ == remaining))
            }),
    {
        match self.feed_raw(w) {
            RawOutcome::Absorbed => FeedResult::Consumed,
            RawOutcome::Dropped(rem) => FeedResult::OverFull(rem),
            RawOutcome::Framed(frame, rem) => {
                match unstuff_bytes(frame.as_slice()) {
                    Some(payload) => {
                        match decode_command_payload(payload.as_slice()) {
                            Some(msg) => FeedResult::Success { msg, remaining: rem },
                            None => FeedResult::DecodeError(rem),
                        }
                    },
                    None => FeedResult::DecodeError(rem),
                }
            },
        }
    }
}

/// Encodes one outbound message as a full frame.
pub fn encode_state(msg: &IcarusState) -> (out: Vec<u8>)
    requires
        state_encodable(msg@),
    ensures
        out@ == state_frame(msg@),
{
    let payload = encode_state_payload(msg);
    let mut out = stuff_bytes(payload.as_slice());
    out.push(FRAME_TERMINATOR);
    assert(out@ =~= state_frame(msg@));
    out
}

/// Encodes one inbound command as a full frame.
pub fn encode_command(cmd: &IcarusCommand) -> (out: Vec<u8>)
    ensures
        out@ == command_frame(*cmd),
{
    let payload = encode_command_payload(cmd);
    let mut out = stuff_bytes(payload.as_slice());
    out.push(FRAME_TERMINATOR);
    assert(out@ =~= command_frame(*cmd));
    out
}

/// Encodes one outbound message into the front of a caller-supplied buffer;
/// `Ok` holds the frame length, and exactly the buffers shorter than the
/// frame are refused, untouched.
pub fn encode_state_into(msg: &IcarusState, out: &mut Vec<u8>) -> (r: Result<usize, CodecError>)
    requires
        state_encodable(msg@),
    ensures
        r matches Ok(n) ==> ({
            &&& n == state_frame(msg@).len()
            &&& n <= old(out)@.len()
            &&& final(out)@ == state_frame(msg@) + old(out)@.skip(n as int)
            &&& final(out)@.len() == old(out)@.len()
        }),
        r matches Err(e) ==> ({
            &&& e == CodecError::BufferTooSmall
            &&& old(out)@.len() < state_frame(msg@).len()
            &&& final(out)@ == old(out)@
        }),
        r is Ok <==> old(out)@.len() >= state_frame(msg@).len(),
    {
    let frame = encode_state(msg);
    let n = frame.len();
    if n > out.len() {
        return Err(CodecError::BufferTooSmall);
    }
    let mut i: usize = 0;
    while i < n
        invariant
            i <= n,
            n == frame@.len(),
            n <= out@.len(),
            out@.len() == old(out)@.len(),
            out@ == frame@.take(i as int) + old(out)@.skip(i as int),
        decreases n - i,
    {
        out.set(i, frame[i]);
        assert(out@ =~= frame@.take(i + 1) + old(out)@.skip(i + 1));
        i = i + 1;
    }
    assert(out@ =~= frame@ + old(out)@.skip(n as int));
    Ok(n)
}

/// Decodes the first frame out of a byte window; `Some` carries the message
/// and how many bytes the frame used.
pub fn decode_state(bytes: &[u8]) -> (r: Option<(IcarusState, usize)>)
    ensures
        r matches Some(p) ==> ({
            &&& first_terminator(bytes@) < bytes@.len()
            &&& frame_message_state(bytes@.take(first_terminator(bytes@))) == Some(p.0@)
            &&& p.1 == first_terminator(bytes@) + 1
        }),
        r is None ==> (first_terminator(bytes@) == bytes@.len() || frame_message_state(
            bytes@.take(first_terminator(bytes@)),
        ) is None),
{
    let n = bytes.len();
    let t = find_terminator(bytes);
    proof {
        lemma_first_terminator(bytes@);
    }
    if t == n {
        return None;
    }
    match unstuff_bytes(&bytes[0..t]) {
        Some(payload) => {
            proof {
                assert(bytes@.subrange(0, t as int) =~= bytes@.take(t as int));
            }
            match decode_state_payload(payload.as_slice()) {
                Some(msg) => Some((msg, t + 1)),
                None => None,
            }
        },
        None => {
            proof {
                assert(bytes@.subrange(0, t as int) =~= bytes@.take(t as int));
            }
            None
        },
    }
}

/// Decodes the first frame of a byte window as an inbound command.
pub fn decode_command(bytes: &[u8]) -> (r: Option<(IcarusCommand, usize)>)
    ensures
        r matches Some(p) ==> ({
            &&& first_terminator(bytes@) < bytes@.len()
            &&& frame_message_command(bytes@.take(first_terminator(bytes@))) == Some(p.0)
            &&& p.1 == first_terminator(bytes@) + 1
        }),
        r is None ==> (first_terminator(bytes@) == bytes@.len() || frame_message_command(
            bytes@.take(first_terminator(bytes@)),
        ) is None),
{
    let n = bytes.len();
    let t = find_terminator(bytes);
    proof {
        lemma_first_terminator(bytes@);
    }
    if t == n {
        return None;
    }
    match unstuff_bytes(&bytes[0..t]) {
        Some(payload) => {
            proof {
                assert(bytes@.subrange(0, t as int) =~= bytes@.take(t as int));
            }
            match decode_command_payload(payload.as_slice()) {
                Some(msg) => Some((msg, t + 1)),
                None => None,
            }
        },
        None => {
            proof {
                assert(bytes@.subrange(0, t as int) =~= bytes@.take(t as int));
            }
            None
        },
    }
}

/// The views of a vector of decoded messages.
pub open spec fn state_views(v: Seq<IcarusState>) -> Seq<StateModel> {
    v.map_values(|m: IcarusState| m@)
}

/// Everything a whole window yields when fed repeatedly until it is empty:
/// the decoded messages in order, and the bytes left buffered.
pub open spec fn drain_states(buf: Seq<u8>, w: Seq<u8>) -> (Seq<StateModel>, Seq<u8>)
    decreases w.len(), buf.len(),
    via drain_states_decreases
{
    match accumulate(buf, w) {
        FrameStep::Absorbed { buf: b } => (Seq::<StateModel>::empty(), b),
        FrameStep::Dropped { remaining } => drain_states(Seq::<u8>::empty(), remaining),
        FrameStep::Framed { frame, remaining } => {
            let rest = drain_states(Seq::<u8>::empty(), remaining);
            match frame_message_state(frame) {
                Some(m) => (seq![m] + rest.0, rest.1),
                None => rest,
            }
        },
    }
}

#[via_fn]
proof fn drain_states_decreases(buf: Seq<u8>, w: Seq<u8>) {
    lemma_first_terminator(w);
}

/// As `drain_states`, for the inbound command direction.
pub open spec fn drain_commands(buf: Seq<u8>, w: Seq<u8>) -> (Seq<IcarusCommand>, Seq<u8>)
    decreases w.len(), buf.len(),
    via drain_commands_decreases
{
    match accumulate(buf, w) {
        FrameStep::Absorbed { buf: b } => (Seq::<IcarusCommand>::empty(), b),
        FrameStep::Dropped { remaining } => drain_commands(Seq::<u8>::empty(), remaining),
        FrameStep::Framed { frame, remaining } => {
            let rest = drain_commands(Seq::<u8>::empty(), remaining);
            match frame_message_command(frame) {
                Some(m) => (seq![m] + rest.0, rest.1),
                None => rest,
            }
        },
    }
}

#[via_fn]
proof fn drain_commands_decreases(buf: Seq<u8>, w: Seq<u8>) {
    lemma_first_terminator(w);
}


/// Round trip: the frame body of an encodable message reads back as exactly
/// that message, and the terminator that closes the frame is the first one
/// on the wire.
pub proof fn lemma_state_frame_roundtrip(m: StateModel)
    requires
        state_encodable(m),
    ensures
        frame_message_state(stuff(state_payload(m))) == Some(m),
        first_terminator(state_frame(m)) == stuff(state_payload(m)).len(),
        state_frame(m).take(stuff(state_payload(m)).len() as int) == stuff(state_payload(m)),
{
    lemma_unstuff_stuff(state_payload(m));
    crate::wire::lemma_state_payload_roundtrip(m);
    let body = stuff(state_payload(m));
    let f = state_frame(m);
    lemma_stuff_no_terminator(state_payload(m));
    assert(f[body.len() as int] == FRAME_TERMINATOR);
    assert forall|j: int| 0 <= j < body.len() implies f[j] != FRAME_TERMINATOR by {
        assert(f[j] == body[j]);
    }
    lemma_first_terminator_is(f, body.len() as int);
    assert(f.take(body.len() as int) =~= body);
}

/// Round trip for the inbound direction.
pub proof fn lemma_command_frame_roundtrip(c: IcarusCommand)
    ensures
        frame_message_command(stuff(command_payload(c))) == Some(c),
        first_terminator(command_frame(c)) == stuff(command_payload(c)).len(),
        command_frame(c).take(stuff(command_payload(c)).len() as int) == stuff(command_payload(c)),
{
    lemma_unstuff_stuff(command_payload(c));
    crate::wire::lemma_command_payload_roundtrip(c);
    let body = stuff(command_payload(c));
    let f = command_frame(c);
    lemma_stuff_no_terminator(command_payload(c));
    assert(f[body.len() as int] == FRAME_TERMINATOR);
    assert forall|j: int| 0 <= j < body.len() implies f[j] != FRAME_TERMINATOR by {
        assert(f[j] == body[j]);
    }
    lemma_first_terminator_is(f, body.len() as int);
    assert(f.take(body.len() as int) =~= body);
}

/// Chunked delivery: splitting a frame at any byte boundary and feeding the
/// two pieces to an empty accumulator decodes the same message as feeding
/// the frame whole, with nothing left over.
pub proof fn lemma_chunked_delivery(m: StateModel, j: int)
    requires
        state_encodable(m),
        stuff(state_payload(m)).len() <= ACCUMULATOR_CAPACITY,
        0 <= j <= state_frame(m).len(),
    ensures
        j < state_frame(m).len() ==> ({
            let first = accumulate(Seq::<u8>::empty(), state_frame(m).take(j));
            let second = accumulate(state_frame(m).take(j), state_frame(m).skip(j));
            &&& first == (FrameStep::Absorbed { buf: state_frame(m).take(j) })
            &&& second matches FrameStep::Framed { frame, remaining } && frame_message_state(frame)
                == Some(m) && remaining == Seq::<u8>::empty()
        }),
        j == state_frame(m).len() ==> (accumulate(Seq::<u8>::empty(), state_frame(m)) matches
            FrameStep::Framed { frame, remaining } && frame_message_state(frame) == Some(m)
            && remaining == Seq::<u8>::empty()),
{
    lemma_state_frame_roundtrip(m);
    let body = stuff(state_payload(m));
    let f = state_frame(m);
    lemma_first_terminator(f);
    if j < f.len() {
        let w1 = f.take(j);
        let w2 = f.skip(j);
        assert forall|i: int| 0 <= i < j implies w1[i] != FRAME_TERMINATOR by {
            assert(w1[i] == f[i]);
        }
        lemma_first_terminator_is(w1, j);
        assert(Seq::<u8>::empty() + w1 =~= w1);
        assert(accumulate(Seq::<u8>::empty(), w1) == (FrameStep::Absorbed { buf: w1 }));
        let t2 = body.len() - j;
        assert forall|i: int| 0 <= i < t2 implies w2[i] != FRAME_TERMINATOR by {
            assert(w2[i] == f[i + j]);
        }
        assert(w2[t2] == f[body.len() as int]);
        lemma_first_terminator_is(w2, t2);
        assert(w1 + w2.take(t2) =~= body);
        assert(w2.skip(t2 + 1) =~= Seq::<u8>::empty());
    } else {
        assert(Seq::<u8>::empty() + f.take(body.len() as int) =~= body);
        assert(f.skip(body.len() as int + 1) =~= Seq::<u8>::empty());
    }
}

/// Any terminator-free span of a frame is absorbed verbatim: feeding a
/// frame in arbitrarily many pieces keeps the buffer equal to the prefix
/// delivered so far, until the piece carrying the terminator closes the
/// frame (the two-piece case above).
pub proof fn lemma_frame_pieces_absorb(m: StateModel, i: int, j: int)
    requires
        state_encodable(m),
        stuff(state_payload(m)).len() <= ACCUMULATOR_CAPACITY,
        0 <= i <= j <= stuff(state_payload(m)).len(),
    ensures
        accumulate(state_frame(m).take(i), state_frame(m).subrange(i, j)) == (FrameStep::Absorbed {
            buf: state_frame(m).take(j),
        }),
{
    lemma_state_frame_roundtrip(m);
    let body = stuff(state_payload(m));
    let f = state_frame(m);
    let piece = f.subrange(i, j);
    lemma_stuff_no_terminator(state_payload(m));
    assert forall|k: int| 0 <= k < piece.len() implies piece[k] != FRAME_TERMINATOR by {
        assert(piece[k] == f[i + k] && f[i + k] == body[i + k]);
    }
    lemma_first_terminator_is(piece, piece.len() as int);
    assert(f.take(i) + piece =~= f.take(j));
}

/// Two frames fed in one window decode to both messages, in order.
pub proof fn lemma_multi_frame(m1: StateModel, m2: StateModel)
    requires
        state_encodable(m1),
        state_encodable(m2),
        stuff(state_payload(m1)).len() <= ACCUMULATOR_CAPACITY,
        stuff(state_payload(m2)).len() <= ACCUMULATOR_CAPACITY,
    ensures
        drain_states(Seq::<u8>::empty(), state_frame(m1) + state_frame(m2)) == (seq![m1, m2],
            Seq::<u8>::empty()),
{
    reveal_with_fuel(drain_states, 4);
    lemma_state_frame_roundtrip(m1);
    lemma_state_frame_roundtrip(m2);
    let body1 = stuff(state_payload(m1));
    let f1 = state_frame(m1);
    let f2 = state_frame(m2);
    let w = f1 + f2;
    lemma_stuff_no_terminator(state_payload(m1));
    assert forall|i: int| 0 <= i < body1.len() implies w[i] != FRAME_TERMINATOR by {
        assert(w[i] == f1[i] && f1[i] == body1[i]);
    }
    assert(w[body1.len() as int] == f1[body1.len() as int]);
    lemma_first_terminator_is(w, body1.len() as int);
    assert(Seq::<u8>::empty() + w.take(body1.len() as int) =~= body1);
    assert(w.skip(body1.len() as int + 1) =~= f2);
    lemma_chunked_delivery(m2, f2.len() as int);
    let d2 = drain_states(Seq::<u8>::empty(), f2);
    assert(accumulate(Seq::<u8>::empty(), Seq::<u8>::empty()) == (FrameStep::Absorbed {
        buf: Seq::<u8>::empty() + Seq::<u8>::empty(),
    }));
    assert(Seq::<u8>::empty() + Seq::<u8>::empty() =~= Seq::<u8>::empty());
    assert(d2.0 =~= seq![m2]);
    assert(d2.1 =~= Seq::<u8>::empty());
    assert(drain_states(Seq::<u8>::empty(), w).0 =~= seq![m1, m2]);
}

/// Resynchronization: after any corrupted, terminator-free run of bytes and
/// its closing terminator, the next valid frame still decodes; the corrupt
/// frame yields at most one spurious message and nothing stays buffered.
pub proof fn lemma_resynchronization(junk: Seq<u8>, m: StateModel)
    requires
        forall|j: int| 0 <= j < junk.len() ==> junk[j] != FRAME_TERMINATOR,
        state_encodable(m),
        stuff(state_payload(m)).len() <= ACCUMULATOR_CAPACITY,
    ensures
        !(accumulate(Seq::<u8>::empty(), junk + seq![FRAME_TERMINATOR] + state_frame(m))
            is Absorbed),
        step_remaining(accumulate(Seq::<u8>::empty(), junk + seq![FRAME_TERMINATOR]
            + state_frame(m))) == state_frame(m),
        ({
            let d = drain_states(Seq::<u8>::empty(), junk + seq![FRAME_TERMINATOR]
                + state_frame(m));
            &&& d.1 == Seq::<u8>::empty()
            &&& 1 <= d.0.len() <= 2
            &&& d.0[d.0.len() - 1] == m
        }),
{
    reveal_with_fuel(drain_states, 4);
    lemma_state_frame_roundtrip(m);
    let f = state_frame(m);
    let w = junk + seq![FRAME_TERMINATOR] + f;
    assert forall|i: int| 0 <= i < junk.len() implies w[i] != FRAME_TERMINATOR by {
        assert(w[i] == junk[i]);
    }
    assert(w[junk.len() as int] == FRAME_TERMINATOR);
    lemma_first_terminator_is(w, junk.len() as int);
    assert(w.skip(junk.len() as int + 1) =~= f);
    assert(Seq::<u8>::empty() + w.take(junk.len() as int) =~= junk);
    lemma_chunked_delivery(m, f.len() as int);
    let df = drain_states(Seq::<u8>::empty(), f);
    assert(accumulate(Seq::<u8>::empty(), Seq::<u8>::empty()) == (FrameStep::Absorbed {
        buf: Seq::<u8>::empty() + Seq::<u8>::empty(),
    }));
    assert(Seq::<u8>::empty() + Seq::<u8>::empty() =~= Seq::<u8>::empty());
    assert(df.0 =~= seq![m]);
    assert(df.1 =~= Seq::<u8>::empty());
    let d = drain_states(Seq::<u8>::empty(), w);
    if junk.len() > ACCUMULATOR_CAPACITY {
        assert(d == df);
    } else {
        match frame_message_state(junk) {
            Some(spurious) => {
                assert(d.0 =~= seq![spurious] + seq![m]);
            },
            None => {
                assert(d == df);
            },
        }
    }
}



impl DecodeAccumulator {
    /// Feeds one window and keeps re-feeding the unconsumed tail until it is
    /// empty, as the ingestion loop does: all messages the window completes,
    /// in order.
    pub fn feed_states_all(&mut self, w: &[u8]) -> (msgs: Vec<IcarusState>)
        requires
            old(self).wf(),
        ensures
            final(self).wf(),
            state_views(msgs@) == drain_states(old(self)@, w@).0,
            final(self)@ == drain_states(old(self)@, w@).1,
    {
        let ghost d = drain_states(old(self)@, w@);
        let mut msgs: Vec<IcarusState> = Vec::new();
        let mut pending: Vec<u8> = Vec::new();
        pending.extend_from_slice(w);
        assert(pending@ =~= w@);
        assert(state_views(msgs@) =~= Seq::<StateModel>::empty());
        loop
            invariant_except_break
                self.wf(),
                d.0 == state_views(msgs@) + drain_states(self@, pending@).0,
                d.1 == drain_states(self@, pending@).1,
            ensures
                self.wf(),
                d.0 == state_views(msgs@),
                d.1 == self@,
            decreases pending@.len(),
        {
            let ghost pre_buf = self@;
            let ghost pre_pending = pending@;
            proof {
                lemma_first_terminator(pre_pending);
            }
            let r = self.feed_state(pending.as_slice());
            match r {
                FeedResult::Consumed => {
                    proof {
                        assert(drain_states(pre_buf, pre_pending).0
                            =~= Seq::<StateModel>::empty());
                        assert(state_views(msgs@) + Seq::<StateModel>::empty()
                            =~= state_views(msgs@));
                    }
                    break;
                },
                FeedResult::OverFull(rem) => {
                    pending = rem;
                },
                FeedResult::DecodeError(rem) => {
                    pending = rem;
                },
                FeedResult::Success { msg, remaining } => {
                    proof {
                        assert(state_views(msgs@.push(msg)) =~= state_views(msgs@) + seq![msg@]);
                        assert(state_views(msgs@) + (seq![msg@] + drain_states(
                            Seq::<u8>::empty(),
                            remaining@,
                        ).0) =~= (state_views(msgs@) + seq![msg@]) + drain_states(
                            Seq::<u8>::empty(),
                            remaining@,
                        ).0);
                    }
                    msgs.push(msg);
                    pending = remaining;
                },
            }
        }
        msgs
    }

    /// As `feed_states_all`, for the inbound command direction.
    pub fn feed_commands_all(&mut self, w: &[u8]) -> (cmds: Vec<IcarusCommand>)
        requires
            old(self).wf(),
        ensures
            final(self).wf(),
            cmds@ == drain_commands(old(self)@, w@).0,
            final(self)@ == drain_commands(old(self)@, w@).1,
    {
        let ghost d = drain_commands(old(self)@, w@);
        let mut cmds: Vec<IcarusCommand> = Vec::new();
        let mut pending: Vec<u8> = Vec::new();
        pending.extend_from_slice(w);
        assert(pending@ =~= w@);
        loop
            invariant_except_break
                self.wf(),
                d.0 == cmds@ + drain_commands(self@, pending@).0,
                d.1 == drain_commands(self@, pending@).1,
            ensures
                self.wf(),
                d.0 == cmds@,
                d.1 == self@,
            decreases pending@.len(),
        {
            let ghost pre_buf = self@;
            let ghost pre_pending = pending@;
            proof {
                lemma_first_terminator(pre_pending);
            }
            let r = self.feed_command(pending.as_slice());
            match r {
                FeedResult::Consumed => {
                    proof {
                        assert(drain_commands(pre_buf, pre_pending).0
                            =~= Seq::<IcarusCommand>::empty());
                        assert(cmds@ + Seq::<IcarusCommand>::empty() =~= cmds@);
                    }
                    break;
                },
                FeedResult::OverFull(rem) => {
                    pending = rem;
                },
                FeedResult::DecodeError(rem) => {
                    pending = rem;
                },
                FeedResult::Success { msg, remaining } => {
                    proof {
                        assert(cmds@.push(msg) =~= cmds@ + seq![msg]);
                        assert(cmds@ + (seq![msg] + drain_commands(
                            Seq::<u8>::empty(),
                            remaining@,
                        ).0) =~= (cmds@ + seq![msg]) + drain_commands(
                            Seq::<u8>::empty(),
                            remaining@,
                        ).0);
                    }
                    cmds.push(msg);
                    pending = remaining;
                },
            }
        }
        cmds
    }
}

} // verus!
