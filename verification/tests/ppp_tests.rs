use icarus::comms::{IcarusCommand, IcarusState};
use icarus::ppp::error::Error;
use icarus::ppp::reader::RingBufferReader;
use icarus::ppp::rx::ReceiveQueue;
use icarus::ppp::tx::Transmitter;
use icarus::ppp::SYNC;

#[derive(PartialEq, Debug)]
enum Bar {
    A,
    B,
    C,
}

#[derive(PartialEq, Debug)]
struct Foo {
    x: u8,
    b: Bar,
}

fn encode_foo(foo: &Foo, buf: &mut [u8]) -> usize {
    buf[0] = foo.x;
    buf[1] = match foo.b {
        Bar::A => 0,
        Bar::B => 1,
        Bar::C => 2,
    };
    2
}

fn decode_foo(reader: &mut RingBufferReader) -> Foo {
    let bytes = reader.read(2);
    let b = match bytes[1] {
        0 => Bar::A,
        1 => Bar::B,
        2 => Bar::C,
        other => panic!("unknown variant {other}"),
    };
    Foo { x: bytes[0], b }
}

#[test]
fn ring_buffer_no_wrap() {
    let mut buf: [u8; 10] = [0; 10];

    let foo = Foo { x: 10, b: Bar::B };
    let _ = encode_foo(&foo, &mut buf);

    let mut reader = RingBufferReader::new(&buf, 0);
    let foo = decode_foo(&mut reader);

    assert_eq!(foo, Foo { x: 10, b: Bar::B });
}

#[test]
fn ring_buffer_wrap() {
    let mut buf1: [u8; 10] = [0; 10];
    let mut buf2: [u8; 10] = [0; 10];

    let foo = Foo { x: 10, b: Bar::B };
    let len = encode_foo(&foo, &mut buf1);

    // shift bytes to the end and wrap around
    let mut idx = buf2.len() - 1;
    for i in 0..len {
        buf2[idx] = buf1[i];
        idx = (idx + 1) % buf1.len();
    }

    let mut reader = RingBufferReader::new(&buf2, 9);
    let foo = decode_foo(&mut reader);

    assert_eq!(foo, Foo { x: 10, b: Bar::B });
}

#[test]
fn receive_queue() {
    let mut cmd_queue = ReceiveQueue::new();

    let in_cmd = IcarusCommand::LedSet(true);
    let mut in_cmd_buf = [0u8; 50];
    in_cmd_buf[0] = 0; // LedSet tag
    in_cmd_buf[1] = 1; // on
    let len = 2;

    cmd_queue.update(SYNC).unwrap();
    cmd_queue.update(len as u8).unwrap();
    cmd_queue.update_from_slice(&in_cmd_buf[0..len]).unwrap();
    cmd_queue.update(0xFF).unwrap();
    cmd_queue.update(0xFF).unwrap();

    let cmd = cmd_queue.pop_command().unwrap();
    assert_eq!(cmd, in_cmd);
    assert!(cmd_queue.pop_command().is_none());
}

/// Bytes before the sync marker cost the first frame: the ring-buffer read
/// anchor only advances on a completed frame, so that frame decodes stale
/// bytes and is dropped, and the machine recovers on the next one.
#[test]
fn junk_before_sync_drops_one_frame() {
    let mut q = ReceiveQueue::new();
    q.update_from_slice(&[0x11, 0x22, 0x33]).unwrap();
    let r = q.update_from_slice(&[SYNC, 2, 0, 0, 0xFF, 0xFF]);
    assert_eq!(r, Err(Error::DecodeError));
    assert!(q.pop_command().is_none());
    q.update_from_slice(&[SYNC, 2, 0, 0, 0xFF, 0xFF]).unwrap();
    assert_eq!(q.pop_command(), Some(IcarusCommand::LedSet(false)));
}

/// A frame whose payload does not decode reports an error and the machine
/// recovers on the next frame.
#[test]
fn bad_payload_reports_decode_error() {
    let mut q = ReceiveQueue::new();
    let r = q.update_from_slice(&[SYNC, 2, 9, 9, 0xFF, 0xFF]);
    assert_eq!(r, Err(Error::DecodeError));
    q.update_from_slice(&[SYNC, 2, 0, 1, 0xFF, 0xFF]).unwrap();
    assert_eq!(q.pop_command(), Some(IcarusCommand::LedSet(true)));
}

/// A fourth command overflows the bounded stream.
#[test]
fn full_stream_reports_queue_error() {
    let mut q = ReceiveQueue::new();
    let frame = [SYNC, 2, 0, 1, 0xFF, 0xFF];
    for _ in 0..3 {
        q.update_from_slice(&frame).unwrap();
    }
    assert_eq!(q.update_from_slice(&frame), Err(Error::QueueError));
    assert_eq!(q.pop_command(), Some(IcarusCommand::LedSet(true)));
}

#[test]
fn transmitter_exact_bytes() {
    let tx = Transmitter::default();
    let mut buf = vec![0u8; 32];
    let n = tx.encode(&mut buf, IcarusState::Heartbeat).unwrap();
    assert_eq!(n, 5);
    assert_eq!(&buf[..n], &[SYNC, 1, 0, 0xFF, 0xFF]);

    let n = tx.encode(&mut buf, IcarusState::Accel(1, -1, 0)).unwrap();
    assert_eq!(n, 17);
    assert_eq!(
        &buf[..n],
        &[
            SYNC, 13, 1, // accel tag
            1, 0, 0, 0, // 1
            0xFF, 0xFF, 0xFF, 0xFF, // -1
            0, 0, 0, 0, // 0
            0xFF, 0xFF, // CRC placeholder
        ]
    );
}

#[test]
fn transmitter_refuses_small_buffer() {
    let tx = Transmitter::default();
    let mut buf = vec![0u8; 4];
    assert_eq!(tx.encode(&mut buf, IcarusState::Heartbeat), Err(Error::EncodeError));
}

/// A transmitted report decodes back through the comms payload codec.
#[test]
fn transmit_round_trip() {
    let tx = Transmitter::default();
    let mut buf = vec![0u8; 32];
    let msg = IcarusState::Gyro(-100, 200, -300);
    let n = tx.encode(&mut buf, msg).unwrap();
    let payload_len = buf[1] as usize;
    assert_eq!(n, payload_len + 4);
    let decoded = icarus::comms::decode_comms_state_payload(&buf[2..2 + payload_len]);
    assert_eq!(decoded, Some(msg));
}
