use msp_link::engine::{ChunkStats, Core, WriteResult};
use msp_link::frame::{Frame, FrameDirection};

fn frame(cmd: u16, payload: Vec<u8>) -> Frame {
    Frame::new(FrameDirection::ToFlightController, cmd, payload)
}

/// Serialize one frame through the engine's own outbound path.
fn wire(cmd: u16, payload: Vec<u8>) -> Vec<u8> {
    let mut c = Core::new();
    c.start(1);
    assert!(c.write(frame(cmd, payload)));
    let (_f, w) = c.process_output().expect("credit and frame present");
    w
}

fn feed(c: &mut Core, bytes: &[u8]) -> ChunkStats {
    let buf: Vec<u8> = bytes.to_vec();
    let n = buf.len();
    c.process_input(&buf, n)
}

#[test]
fn credit_stays_within_bounds() {
    let mut c = Core::new();
    c.start(2);
    assert_eq!(c.credit.count, 2);
    assert_eq!(c.credit.capacity, 2);
    assert!(c.credit.try_acquire());
    assert!(c.credit.try_acquire());
    assert!(!c.credit.try_acquire());
    assert_eq!(c.credit.count, 0);
    c.credit.release();
    c.credit.release();
    c.credit.release();
    assert_eq!(c.credit.count, 2, "release saturates at the capacity");
}

#[test]
fn submit_rejected_only_when_queue_full() {
    let mut c = Core::new();
    c.start(4);
    for i in 0..1024 {
        assert!(c.write(frame(i as u16, vec![])), "room up to the capacity");
    }
    assert!(!c.write(frame(9, vec![])), "the 1025th submission finds no room");
}

#[test]
fn wire_bytes_have_v2_shape() {
    let w = wire(0x42, vec![1, 2, 3]);
    assert_eq!(w.len(), 9 + 3);
    assert_eq!(w[0], b'$');
    assert_eq!(w[1], b'X');
    assert_eq!(&w[8..11], &[1, 2, 3], "payload sits just before the checksum");
}

#[test]
fn round_trip_preserves_frame() {
    let w = wire(77, vec![10, 20, 30, 40]);
    let mut c = Core::new();
    c.start(8);
    let stats = feed(&mut c, &w);
    assert_eq!(stats.frames, 1);
    assert_eq!(stats.errors, 0);
    let f = c.read().expect("one frame decoded");
    assert_eq!(f.cmd, 77);
    assert_eq!(f.payload, vec![10, 20, 30, 40]);
    assert!(matches!(f.direction, FrameDirection::ToFlightController));
    assert!(c.read().is_none());
}

#[test]
fn delivery_order_matches_decode_order() {
    let mut bytes = wire(1, vec![0xaa]);
    bytes.extend(wire(2, vec![0xbb]));
    bytes.extend(wire(3, vec![]));
    let mut c = Core::new();
    c.start(8);
    let stats = feed(&mut c, &bytes);
    assert_eq!(stats.frames, 3);
    assert_eq!(c.read().unwrap().cmd, 1);
    assert_eq!(c.read().unwrap().cmd, 2);
    assert_eq!(c.read().unwrap().cmd, 3);
    assert!(c.read().is_none());
}

#[test]
fn chunk_boundaries_do_not_matter() {
    let mut bytes = wire(21, vec![5, 6]);
    bytes.extend(wire(22, vec![7]));
    // One byte at a time.
    let mut one = Core::new();
    one.start(8);
    for b in &bytes {
        feed(&mut one, &[*b]);
    }
    // All at once.
    let mut all = Core::new();
    all.start(8);
    feed(&mut all, &bytes);
    for c in [&mut one, &mut all] {
        let f1 = c.read().unwrap();
        let f2 = c.read().unwrap();
        assert_eq!((f1.cmd, f1.payload.clone()), (21, vec![5, 6]));
        assert_eq!((f2.cmd, f2.payload.clone()), (22, vec![7]));
        assert!(c.read().is_none());
    }
}

#[test]
fn corrupted_checksum_costs_one_error_not_the_next_frame() {
    let mut bad = wire(31, vec![1, 2]);
    let last = bad.len() - 1;
    bad[last] ^= 0xff; // corrupt the checksum byte
    bad.extend(wire(32, vec![3]));
    let mut c = Core::new();
    c.start(8);
    let stats = feed(&mut c, &bad);
    assert_eq!(stats.errors, 1, "exactly one decode error");
    assert_eq!(stats.frames, 1, "the valid frame right after it survives");
    assert_eq!(c.read().unwrap().cmd, 32);
    assert!(c.read().is_none());
}

#[test]
fn bad_second_header_byte_costs_one_error() {
    let mut bytes = vec![b'$', b'Z']; // '$' then an invalid version byte
    bytes.extend(wire(33, vec![9]));
    let mut c = Core::new();
    c.start(8);
    let stats = feed(&mut c, &bytes);
    assert_eq!(stats.errors, 1);
    assert_eq!(stats.frames, 1);
    assert_eq!(c.read().unwrap().cmd, 33);
}

#[test]
fn stray_bytes_before_a_frame_are_skipped() {
    // The codec hunts for '$' silently: bytes that match no header are
    // discarded without a decode-error signal.
    let mut bytes = vec![0x00, 0xff];
    bytes.extend(wire(34, vec![1, 2, 3, 4, 5, 6, 7, 8, 9, 10]));
    let mut c = Core::new();
    c.start(8);
    let stats = feed(&mut c, &bytes);
    assert_eq!(stats.frames, 1, "exactly one frame comes through");
    assert_eq!(stats.errors, 0, "header hunting signals no error");
    let f = c.read().unwrap();
    assert_eq!(f.cmd, 34);
    assert!(c.read().is_none());
}

#[test]
fn reset_parser_discards_partial_frame() {
    let w = wire(40, vec![1, 2, 3, 4]);
    let mut c = Core::new();
    c.start(8);
    // Feed a truncated prefix, drop the rest by resetting the parser.
    feed(&mut c, &w[..6]);
    c.reset_parser();
    // The continuation of the truncated frame must not become a frame.
    let stats = feed(&mut c, &w[6..]);
    assert_eq!(stats.frames, 0);
    assert!(c.read().is_none());
    // The parser is clean: a whole frame right after decodes normally.
    let stats2 = feed(&mut c, &w);
    assert_eq!(stats2.frames, 1);
    assert_eq!(c.read().unwrap().cmd, 40);
}

#[test]
fn single_credit_blocks_second_frame_until_inbound_decode() {
    let mut c = Core::new();
    c.start(1);
    assert!(c.write(frame(1, vec![])));
    assert!(c.write(frame(2, vec![])));
    // F1 goes out at once on the single credit.
    let (f1, _w1) = c.process_output().expect("first frame written immediately");
    assert_eq!(f1.cmd, 1);
    // F2 stays queued: no credit is left.
    assert!(c.process_output().is_none());
    assert_eq!(c.credit.count, 0);
    // One inbound frame decoded releases a credit and unblocks F2.
    let inbound = wire(99, vec![]);
    let stats = feed(&mut c, &inbound);
    assert_eq!(stats.frames, 1);
    assert_eq!(c.credit.count, 1);
    let (f2, _w2) = c.process_output().expect("second frame unblocked");
    assert_eq!(f2.cmd, 2);
}

#[test]
fn three_timeouts_then_success_write_one_frame_without_credit_leak() {
    let mut c = Core::new();
    c.start(1);
    assert!(c.write(frame(5, vec![1])));
    let (_f, _w) = c.process_output().expect("frame and credit available");
    assert_eq!(c.credit.count, 0);
    for _ in 0..3 {
        let done = c.handle_write_result(WriteResult::TimedOut);
        assert!(!done, "a timeout retries the same frame");
        assert_eq!(c.credit.count, 0, "a timeout neither leaks nor refunds credit");
    }
    assert!(c.handle_write_result(WriteResult::Written));
    assert_eq!(c.credit.count, 0, "success keeps the credit spent");
    // Exactly one frame reached the wire: nothing is left to write.
    assert!(c.process_output().is_none());
}

#[test]
fn hard_write_error_refunds_credit() {
    let mut c = Core::new();
    c.start(2);
    assert!(c.write(frame(6, vec![])));
    let _ = c.process_output().expect("frame taken");
    assert_eq!(c.credit.count, 1);
    let done = c.handle_write_result(WriteResult::Failed);
    assert!(!done);
    assert_eq!(c.credit.count, 2, "the unused credit is refunded");
}

#[test]
fn drain_ready_writes_submitted_prefix_in_order() {
    let mut c = Core::new();
    c.start(2);
    assert!(c.write(frame(1, vec![])));
    assert!(c.write(frame(2, vec![])));
    assert!(c.write(frame(3, vec![])));
    let burst = c.drain_ready();
    assert_eq!(burst.len(), 2, "credit covers only two frames");
    assert_eq!(burst[0].cmd, 1);
    assert_eq!(burst[1].cmd, 2);
    assert_eq!(c.credit.count, 0);
    // With credit for everything, the rest follows in submission order.
    c.credit.release();
    c.credit.release();
    let rest = c.drain_ready();
    assert_eq!(rest.len(), 1);
    assert_eq!(rest[0].cmd, 3);
}

#[test]
fn credit_replenishment_saturates_at_buffer_size() {
    let mut c = Core::new();
    c.start(1);
    let mut bytes = wire(7, vec![]);
    bytes.extend(wire(8, vec![]));
    bytes.extend(wire(9, vec![]));
    let stats = feed(&mut c, &bytes);
    assert_eq!(stats.frames, 3);
    assert_eq!(c.credit.count, 1, "replenishment never exceeds the buffer size");
}

#[test]
fn inert_engine_moves_nothing() {
    let mut c = Core::new();
    assert!(c.read().is_none());
    assert!(c.process_output().is_none(), "no credit before start");
    assert_eq!(c.credit.count, 0);
}

#[test]
fn full_inbound_queue_pauses_consumption_without_dropping() {
    let mut c = Core::new();
    c.start(2);
    let one = wire(50, vec![]); // 9 bytes per frame
    let mut bytes = Vec::new();
    for _ in 0..4097 {
        bytes.extend(one.iter().copied());
    }
    let n = bytes.len();
    let stats = c.process_input(&bytes, n);
    assert_eq!(stats.frames, 4096, "consumption stops when the queue is full");
    assert_eq!(stats.consumed, 4096 * 9);
    assert_eq!(stats.errors, 0);
    // Drain one frame, then resume exactly where process_input stopped.
    assert_eq!(c.read().unwrap().cmd, 50);
    let rest: Vec<u8> = bytes[stats.consumed..].to_vec();
    let m = rest.len();
    let stats2 = c.process_input(&rest, m);
    assert_eq!(stats2.frames, 1, "the frame that found no room was never lost");
    assert_eq!(stats2.consumed, m);
}
