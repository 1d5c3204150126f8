use vstd::prelude::*;

verus! {

/// Direction of a frame on the wire, as the protocol marks it.
#[derive(Clone, Copy, PartialEq, Eq, Structural, Debug)]
pub enum FrameDirection {
    ToFlightController,
    FromFlightController,
    Unsupported,
}

/// One decoded protocol frame, or its caller-built outbound equivalent:
/// a direction, a command code, and a payload.
#[derive(Clone, Debug)]
pub struct Frame {
    pub direction: FrameDirection,
    pub cmd: u16,
    pub payload: Vec<u8>,
}

/// Mathematical image of a frame.
pub struct FrameView {
    pub direction: FrameDirection,
    pub cmd: u16,
    pub payload: Seq<u8>,
}

impl View for Frame {
    type V = FrameView;

    open spec fn view(&self) -> FrameView {
        FrameView { direction: self.direction, cmd: self.cmd, payload: self.payload@ }
    }
}

/// A frame the v2 wire format can carry: its payload length field is 16 bits.
pub open spec fn frame_wf(f: FrameView) -> bool {
    f.payload.len() <= 0xFFFF
}

/// The byte that marks a frame's direction on the wire: `<`, `>` or `!`.
pub open spec fn direction_byte(d: FrameDirection) -> u8 {
    match d {
        FrameDirection::ToFlightController => 60u8,
        FrameDirection::FromFlightController => 62u8,
        FrameDirection::Unsupported => 33u8,
    }
}

/// Bytes a frame occupies on the wire: three header bytes, a flag byte, a
/// two-byte command, a two-byte size, the payload, and a checksum byte.
pub open spec fn wire_len(f: FrameView) -> int {
    9 + f.payload.len() as int
}

impl Frame {
    pub fn new(direction: FrameDirection, cmd: u16, payload: Vec<u8>) -> (f: Frame)
        requires
            payload@.len() <= 0xFFFF,
        ensures
            f@ == (FrameView { direction, cmd, payload: payload@ }),
            frame_wf(f@),
    {
        Frame { direction, cmd, payload }
    }
}

} // verus!
