use vstd::prelude::*;

use crate::frame::{direction_byte, frame_wf, wire_len, Frame, FrameDirection, FrameView};
use crate::inbound::{FeedEvent, FeedOutcome};
use multiwii_serial_protocol_v2::{MspPacket, MspPacketDirection, MspParser};

verus! {

/// The incremental frame parser of the codec crate, opaque to verification:
/// its decode state is read and advanced only through the wrappers below.
#[verifier::external_type_specification]
#[verifier::external_body]
pub struct ExMspParser(MspParser);

/// The wire bytes of a frame under the v2 encoding. They are fixed by the
/// frame alone; the trailing checksum keeps them from being written out here.
pub uninterp spec fn wire_of(f: FrameView) -> Seq<u8>;

/// The bytes the parser holds toward an in-progress frame: what it was fed
/// since it last stood in its initial, waiting-for-header state. The
/// parser's whole decode state is a function of these bytes, so the two
/// names below are functions of them and the next byte alone.
pub uninterp spec fn pending_of(p: MspParser) -> Seq<u8>;

/// The outcome the parser produces when, holding `pending`, it is fed `byte`.
pub uninterp spec fn feed_event(pending: Seq<u8>, byte: u8) -> FeedEvent;

/// The bytes the parser holds after, holding `pending`, it is fed `byte`.
pub uninterp spec fn feed_pending(pending: Seq<u8>, byte: u8) -> Seq<u8>;

/// The parser's buffered bytes after feeding `bytes` in order, having held
/// `pending0` at the start.
pub open spec fn pending_after(pending0: Seq<u8>, bytes: Seq<u8>) -> Seq<u8>
    decreases bytes.len(),
{
    if bytes.len() == 0 {
        pending0
    } else {
        feed_pending(pending_after(pending0, bytes.drop_last()), bytes.last())
    }
}

/// The outcomes the parser produces feeding `bytes` in order, having held
/// `pending0` at the start.
pub open spec fn events_of(pending0: Seq<u8>, bytes: Seq<u8>) -> Seq<FeedEvent>
    decreases bytes.len(),
{
    if bytes.len() == 0 {
        Seq::empty()
    } else {
        events_of(pending0, bytes.drop_last()).push(
            feed_event(pending_after(pending0, bytes.drop_last()), bytes.last()),
        )
    }
}

/// One more byte extends the outcome stream by its own outcome, from the
/// pending bytes the stream so far left behind.
pub proof fn lemma_feed_chain_step(pending0: Seq<u8>, bytes: Seq<u8>, b: u8)
    ensures
        pending_after(pending0, bytes.push(b)) == feed_pending(pending_after(pending0, bytes), b),
        events_of(pending0, bytes.push(b)) == events_of(pending0, bytes).push(
            feed_event(pending_after(pending0, bytes), b),
        ),
{
    assert(bytes.push(b).drop_last() =~= bytes);
    assert(bytes.push(b).last() == b);
}

/// Relies on MspParser::new: a fresh parser, waiting for the first header
/// byte of a new frame, holding nothing.
#[verifier::external_body]
pub(crate) fn parser_new() -> (r: MspParser)
    ensures
        pending_of(r).len() == 0,
{
    MspParser::new()
}

/// Relies on MspParser::parse: one byte either completes a packet, ends one
/// whose checksum or framing was wrong, or leaves the parse in progress.
/// The parser is a deterministic state machine, so the outcome and the new
/// buffered bytes are functions of the old buffered bytes and the input
/// byte; on a completed or bad packet it resets itself and holds nothing;
/// a completed packet's payload length was read from at most sixteen bits,
/// so it fits the wire format.
#[verifier::external_body]
pub(crate) fn parser_feed(parser: &mut MspParser, byte: u8) -> (r: FeedOutcome)
    ensures
        r@ == feed_event(pending_of(*old(parser)), byte),
        pending_of(*final(parser)) == feed_pending(pending_of(*old(parser)), byte),
        r matches FeedOutcome::Decoded(f) ==> frame_wf(f@),
        !(r is Pending) ==> pending_of(*final(parser)).len() == 0,
{
    match parser.parse(byte) {
        Ok(Some(p)) => {
            let direction = match p.direction {
                MspPacketDirection::ToFlightController => FrameDirection::ToFlightController,
                MspPacketDirection::FromFlightController => FrameDirection::FromFlightController,
                MspPacketDirection::Unsupported => FrameDirection::Unsupported,
            };
            FeedOutcome::Decoded(Frame { direction, cmd: p.cmd, payload: p.data })
        }
        Ok(None) => FeedOutcome::Pending,
        Err(_) => FeedOutcome::BadFrame,
    }
}

/// Relies on MspParser::reset: the parser drops any partial frame, holds
/// nothing, and waits for the header of a new one.
#[verifier::external_body]
pub(crate) fn parser_reset(parser: &mut MspParser)
    ensures
        pending_of(*final(parser)).len() == 0,
{
    parser.reset();
}

/// Relies on MspPacket::serialize_v2 and MspPacket::packet_size_bytes_v2: a
/// v2 packet occupies 9 bytes plus its payload; its first eight bytes are
/// `$X`, the direction byte, a zero flag, the command and the payload length
/// little-endian; the payload sits verbatim just before the checksum byte;
/// serializing into a buffer of exactly that size always succeeds; and the
/// bytes are a function of the frame alone.
#[verifier::external_body]
pub(crate) fn serialize_frame(f: &Frame) -> (r: Vec<u8>)
    requires
        frame_wf(f@),
    ensures
        r@ == wire_of(f@),
        r@.len() == wire_len(f@),
        r@[0] == 36u8,
        r@[1] == 88u8,
        r@[2] == direction_byte(f@.direction),
        r@[3] == 0u8,
        r@[4] == (f@.cmd as int) % 256,
        r@[5] == (f@.cmd as int) / 256,
        r@[6] == (f@.payload.len() as int) % 256,
        r@[7] == (f@.payload.len() as int) / 256,
        r@.subrange(8, 8 + f@.payload.len() as int) == f@.payload,
{
    let direction = match f.direction {
        FrameDirection::ToFlightController => MspPacketDirection::ToFlightController,
        FrameDirection::FromFlightController => MspPacketDirection::FromFlightController,
        FrameDirection::Unsupported => MspPacketDirection::Unsupported,
    };
    let packet = MspPacket { cmd: f.cmd, direction, data: f.payload.clone() };
    let mut out = vec![0u8; packet.packet_size_bytes_v2()];
    packet.serialize_v2(&mut out).expect("buffer sized to packet_size_bytes_v2");
    out
}

} // verus!
