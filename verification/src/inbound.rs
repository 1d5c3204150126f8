use vstd::prelude::*;

use crate::frame::{Frame, FrameView};

verus! {

/// What feeding one byte to the frame codec produced.
pub enum FeedOutcome {
    /// The byte completed a frame.
    Decoded(Frame),
    /// The byte ended a frame whose checksum or framing was wrong; the codec
    /// has already resynchronized.
    BadFrame,
    /// The byte extended an in-progress frame, or was skipped while hunting
    /// for a header.
    Pending,
}

/// Mathematical image of a feed outcome.
pub enum FeedEvent {
    Decoded(FrameView),
    BadFrame,
    Pending,
}

impl View for FeedOutcome {
    type V = FeedEvent;

    open spec fn view(&self) -> FeedEvent {
        match self {
            FeedOutcome::Decoded(f) => FeedEvent::Decoded(f@),
            FeedOutcome::BadFrame => FeedEvent::BadFrame,
            FeedOutcome::Pending => FeedEvent::Pending,
        }
    }
}

/// The frames a stream of feed outcomes decoded, in decode order.
pub open spec fn frames_of(os: Seq<FeedEvent>) -> Seq<FrameView>
    decreases os.len(),
{
    if os.len() == 0 {
        Seq::empty()
    } else {
        frames_of(os.drop_last()) + (match os.last() {
            FeedEvent::Decoded(f) => seq![f],
            _ => Seq::empty(),
        })
    }
}

/// How many decode errors a stream of feed outcomes signalled.
pub open spec fn errors_of(os: Seq<FeedEvent>) -> nat
    decreases os.len(),
{
    if os.len() == 0 {
        0
    } else {
        errors_of(os.drop_last()) + (if os.last() is BadFrame {
            1nat
        } else {
            0nat
        })
    }
}

/// One more outcome extends the decoded frames by at most that one frame,
/// and the error count by at most one.
pub proof fn lemma_feed_step(os: Seq<FeedEvent>, e: FeedEvent)
    ensures
        frames_of(os.push(e)) == frames_of(os) + (match e {
            FeedEvent::Decoded(f) => seq![f],
            _ => Seq::<FrameView>::empty(),
        }),
        errors_of(os.push(e)) == errors_of(os) + (if e is BadFrame {
            1nat
        } else {
            0nat
        }),
{
    assert(os.push(e).drop_last() =~= os);
    assert(os.push(e).last() == e);
}

/// Law: decoding a byte stream in two chunks yields the same frames, in the
/// same order, as decoding it in one — chunk boundaries in the underlying
/// reads do not matter to what is delivered.
pub proof fn lemma_frames_of_concat(a: Seq<FeedEvent>, b: Seq<FeedEvent>)
    ensures
        frames_of(a + b) == frames_of(a) + frames_of(b),
    decreases b.len(),
{
    if b.len() == 0 {
        assert(a + b =~= a);
        assert(frames_of(a) + frames_of(b) =~= frames_of(a));
    } else {
        lemma_frames_of_concat(a, b.drop_last());
        assert((a + b).drop_last() =~= a + b.drop_last());
        assert(frames_of(a + b) =~= frames_of(a) + frames_of(b));
    }
}

/// Error counts add up the same way over chunk boundaries.
pub proof fn lemma_errors_of_concat(a: Seq<FeedEvent>, b: Seq<FeedEvent>)
    ensures
        errors_of(a + b) == errors_of(a) + errors_of(b),
    decreases b.len(),
{
    if b.len() == 0 {
        assert(a + b =~= a);
    } else {
        lemma_errors_of_concat(a, b.drop_last());
        assert((a + b).drop_last() =~= a + b.drop_last());
    }
}

/// Law: a single corrupted frame signalled between two stretches of the
/// stream adds exactly one decode error and changes no decoded frame on
/// either side — in particular it does not prevent delivery of the valid
/// frame immediately following it.
pub proof fn lemma_error_between(a: Seq<FeedEvent>, b: Seq<FeedEvent>)
    ensures
        frames_of(a + seq![FeedEvent::BadFrame] + b) == frames_of(a) + frames_of(b),
        errors_of(a + seq![FeedEvent::BadFrame] + b) == errors_of(a) + errors_of(b) + 1,
{
    let e = seq![FeedEvent::BadFrame];
    lemma_frames_of_concat(a, e);
    lemma_frames_of_concat(a + e, b);
    lemma_errors_of_concat(a, e);
    lemma_errors_of_concat(a + e, b);
    assert(e.drop_last() =~= Seq::<FeedEvent>::empty());
    assert(e.last() is BadFrame);
    assert(frames_of(Seq::<FeedEvent>::empty()) =~= Seq::<FrameView>::empty());
    assert(errors_of(Seq::<FeedEvent>::empty()) == 0);
    assert(frames_of(e) =~= Seq::<FrameView>::empty());
    assert(errors_of(e) == 1);
    assert(frames_of(a) + frames_of(e) =~= frames_of(a));
    assert(frames_of(a) + frames_of(b) =~= (frames_of(a) + frames_of(e)) + frames_of(b));
}

/// Law: frames appended to the inbound queue land after what was already
/// queued, each at its decode position — with the queue read from the front,
/// delivery order is decode order.
pub proof fn lemma_delivery_order(q: Seq<FrameView>, ds: Seq<FrameView>)
    ensures
        forall|i: int| 0 <= i < ds.len() ==> (q + ds)[q.len() + i] == ds[i],
{
}

} // verus!
