use vstd::prelude::*;

use crate::codec::{
    events_of, lemma_feed_chain_step, parser_feed, parser_new, parser_reset, pending_after,
    pending_of, serialize_frame, wire_of,
};
use crate::credit::FlowCredit;
use crate::frame::{frame_wf, wire_len, Frame, FrameView};
use crate::inbound::{
    errors_of, frames_of, lemma_feed_step, FeedOutcome,
};
use crate::queue::FrameQueue;
use multiwii_serial_protocol_v2::MspParser;

verus! {

/// Capacity of the inbound frame queue.
pub const INBOUND_CAPACITY: usize = 4096;

/// Capacity of the outbound frame queue.
pub const OUTBOUND_CAPACITY: usize = 1024;

/// What one attempt to write a serialized frame to the transport reported.
#[derive(Clone, Copy, PartialEq, Eq, Structural, Debug)]
pub enum WriteResult {
    /// The transport accepted the whole buffer.
    Written,
    /// The transport was busy; the same frame is tried again.
    TimedOut,
    /// A hard transport error; the frame's credit is refunded before the
    /// retry, so a stuck frame cannot starve future sends.
    Failed,
}

/// Counts reported after feeding one chunk of raw bytes inbound.
#[derive(Clone, Copy, PartialEq, Eq, Structural, Debug)]
pub struct ChunkStats {
    /// Bytes of the chunk actually fed to the codec. Short of the chunk only
    /// when the inbound queue filled up; the rest of the chunk waits there.
    pub consumed: usize,
    /// Frames decoded and enqueued on the inbound queue.
    pub frames: usize,
    /// Decode errors (bad checksum or framing) signalled in the chunk.
    pub errors: usize,
}

/// The prefix of the outbound queue that the writer drains with the credit
/// it holds: everything, when credit covers the queue.
pub open spec fn written_of(q: Seq<FrameView>, credit: nat) -> Seq<FrameView> {
    q.take(if credit < q.len() { credit as int } else { q.len() as int })
}

/// Law: frames submitted in order, with credit for every one of them, are
/// handed to the transport in exactly that order.
pub proof fn lemma_submission_order_kept(q: Seq<FrameView>, credit: nat)
    requires
        q.len() <= credit,
    ensures
        written_of(q, credit) == q,
{
    assert(written_of(q, credit) =~= q);
}

/// The engine facade: the codec's parser state, the two bounded frame
/// queues, and the send-credit counter, with the decision logic of the two
/// pipelines. The transport itself and the scheduling of the pipelines live
/// outside, around this type.
pub struct Core {
    pub parser: MspParser,
    pub inbound: FrameQueue,
    pub outbound: FrameQueue,
    pub credit: FlowCredit,
    pub started: bool,
}

impl Core {
    pub open spec fn wf(self) -> bool {
        &&& self.inbound.wf()
        &&& self.outbound.wf()
        &&& self.credit.wf()
        &&& self.inbound.capacity == INBOUND_CAPACITY
        &&& self.outbound.capacity == OUTBOUND_CAPACITY
    }

    /// An inert engine: empty queues, a fresh parser holding nothing, no
    /// credit until `start` arms it.
    pub fn new() -> (c: Core)
        ensures
            c.wf(),
            c.inbound@ == Seq::<FrameView>::empty(),
            c.outbound@ == Seq::<FrameView>::empty(),
            pending_of(c.parser).len() == 0,
            c.credit.count == 0,
            c.credit.capacity == 0,
            !c.started,
    {
        Core {
            parser: parser_new(),
            inbound: FrameQueue::new(INBOUND_CAPACITY),
            outbound: FrameQueue::new(OUTBOUND_CAPACITY),
            credit: FlowCredit::new(0),
            started: false,
        }
    }

    /// Arm the engine with `buffer_size` send credits; called at most once.
    /// Clearing the transport's buffers and launching the two pipelines is
    /// the surrounding driver's part.
    pub fn start(&mut self, buffer_size: usize)
        requires
            old(self).wf(),
            !old(self).started,
        ensures
            final(self).wf(),
            final(self).started,
            final(self).credit.count == buffer_size,
            final(self).credit.capacity == buffer_size,
            final(self).inbound@ == old(self).inbound@,
            final(self).outbound@ == old(self).outbound@,
            final(self).parser == old(self).parser,
    {
        self.credit = FlowCredit::new(buffer_size);
        self.started = true;
    }

    /// Submit one frame for transmission; reports whether the outbound
    /// queue had room. Nothing else moves.
    pub fn write(&mut self, frame: Frame) -> (accepted: bool)
        requires
            old(self).wf(),
            frame_wf(frame@),
        ensures
            final(self).wf(),
            accepted == (old(self).outbound@.len() < OUTBOUND_CAPACITY),
            accepted ==> final(self).outbound@ == old(self).outbound@.push(frame@),
            !accepted ==> final(self).outbound@ == old(self).outbound@,
            final(self).inbound@ == old(self).inbound@,
            final(self).credit.count == old(self).credit.count,
            final(self).credit.capacity == old(self).credit.capacity,
            final(self).started == old(self).started,
            final(self).parser == old(self).parser,
    {
        self.outbound.push(frame)
    }

    /// Receive the oldest decoded frame; `None` when none is waiting.
    pub fn read(&mut self) -> (r: Option<Frame>)
        requires
            old(self).wf(),
        ensures
            final(self).wf(),
            old(self).inbound@.len() == 0 ==> r is None && final(self).inbound@ == old(self).inbound@,
            old(self).inbound@.len() > 0 ==> (r matches Some(f) && f@ == old(self).inbound@.first()
                && final(self).inbound@ == old(self).inbound@.drop_first()),
            final(self).outbound@ == old(self).outbound@,
            final(self).credit.count == old(self).credit.count,
            final(self).credit.capacity == old(self).credit.capacity,
            final(self).started == old(self).started,
            final(self).parser == old(self).parser,
    {
        self.inbound.pop()
    }

    /// Drop any in-progress partial frame in the codec: the parser holds no
    /// buffered bytes afterwards. Queues and credit are untouched.
    pub fn reset_parser(&mut self)
        requires
            old(self).wf(),
        ensures
            final(self).wf(),
            pending_of(final(self).parser).len() == 0,
            final(self).inbound@ == old(self).inbound@,
            final(self).outbound@ == old(self).outbound@,
            final(self).credit.count == old(self).credit.count,
            final(self).credit.capacity == old(self).credit.capacity,
            final(self).started == old(self).started,
    {
        parser_reset(&mut self.parser);
    }

    /// Inbound pipeline body for one transport read: feed the first `n`
    /// bytes of `buf` to the codec in order, stopping early only when the
    /// inbound queue is full. Every frame decoded from the consumed bytes is
    /// appended to the inbound queue, in decode order, and releases one send
    /// credit; decode errors are counted and the stream goes on. `consumed`
    /// says where the caller resumes once the queue has been drained, so no
    /// decoded frame is ever dropped.
    pub fn process_input(&mut self, buf: &Vec<u8>, n: usize) -> (stats: ChunkStats)
        requires
            old(self).wf(),
            n <= buf@.len(),
        ensures
            final(self).wf(),
            final(self).outbound@ == old(self).outbound@,
            final(self).started == old(self).started,
            final(self).credit.capacity == old(self).credit.capacity,
            stats.consumed <= n,
            stats.consumed == n || final(self).inbound@.len() == INBOUND_CAPACITY,
            final(self).inbound@ == old(self).inbound@ + frames_of(
                events_of(pending_of(old(self).parser), buf@.take(stats.consumed as int)),
            ),
            stats.frames == frames_of(
                events_of(pending_of(old(self).parser), buf@.take(stats.consumed as int)),
            ).len(),
            stats.errors == errors_of(
                events_of(pending_of(old(self).parser), buf@.take(stats.consumed as int)),
            ),
            pending_of(final(self).parser) == pending_after(
                pending_of(old(self).parser),
                buf@.take(stats.consumed as int),
            ),
            final(self).credit.count == (if old(self).credit.count + stats.frames
                <= old(self).credit.capacity {
                old(self).credit.count + stats.frames
            } else {
                old(self).credit.capacity as int
            }),
    {
        let ghost q0 = old(self).inbound@;
        let ghost p0 = pending_of(old(self).parser);
        let ghost c0 = old(self).credit.count as int;
        let ghost ccap = old(self).credit.capacity as int;
        let mut stats = ChunkStats { consumed: 0, frames: 0, errors: 0 };
        let mut i: usize = 0;
        let mut stop = false;
        while i < n && !stop
            invariant
                i <= n,
                n <= buf@.len(),
                self.wf(),
                self.outbound@ == old(self).outbound@,
                self.started == old(self).started,
                self.credit.capacity == old(self).credit.capacity,
                q0 == old(self).inbound@,
                p0 == pending_of(old(self).parser),
                c0 == old(self).credit.count,
                ccap == old(self).credit.capacity,
                frames_of(events_of(p0, buf@.take(i as int))).len() <= i,
                errors_of(events_of(p0, buf@.take(i as int))) <= i,
                pending_of(self.parser) == pending_after(p0, buf@.take(i as int)),
                self.inbound@ == q0 + frames_of(events_of(p0, buf@.take(i as int))),
                stats.consumed == i,
                stats.frames == frames_of(events_of(p0, buf@.take(i as int))).len(),
                stats.errors == errors_of(events_of(p0, buf@.take(i as int))),
                self.credit.count == (if c0 + stats.frames <= ccap {
                    c0 + stats.frames
                } else {
                    ccap
                }),
                stop ==> self.inbound@.len() == INBOUND_CAPACITY,
            decreases n - i + (if stop {
                0int
            } else {
                1int
            }),
        {
            if self.inbound.len() == INBOUND_CAPACITY {
                stop = true;
            } else {
                let ghost os = events_of(p0, buf@.take(i as int));
                let b = buf[i];
                let outcome = parser_feed(&mut self.parser, b);
                let ghost ev = outcome@;
                proof {
                    lemma_feed_chain_step(p0, buf@.take(i as int), b);
                    assert(buf@.take(i as int).push(b) =~= buf@.take(i + 1));
                    lemma_feed_step(os, ev);
                }
                match outcome {
                    FeedOutcome::Decoded(f) => {
                        let ghost fv = f@;
                        let accepted = self.inbound.push(f);
                        proof {
                            assert(accepted);
                            assert(frames_of(os.push(ev)) =~= frames_of(os) + seq![fv]);
                            assert(self.inbound@ =~= q0 + frames_of(os.push(ev)));
                        }
                        self.credit.release();
                        stats.frames = stats.frames + 1;
                    }
                    FeedOutcome::BadFrame => {
                        proof {
                            assert(frames_of(os.push(ev)) =~= frames_of(os));
                        }
                        stats.errors = stats.errors + 1;
                    }
                    FeedOutcome::Pending => {
                        proof {
                            assert(frames_of(os.push(ev)) =~= frames_of(os));
                        }
                    }
                }
                i = i + 1;
                stats.consumed = i;
            }
        }
        stats
    }

    /// Outbound step: take one credit and the oldest submitted frame
    /// together, or take nothing and change nothing.
    pub fn take_next(&mut self) -> (r: Option<Frame>)
        requires
            old(self).wf(),
        ensures
            final(self).wf(),
            final(self).inbound@ == old(self).inbound@,
            final(self).started == old(self).started,
            final(self).credit.capacity == old(self).credit.capacity,
            old(self).credit.count > 0 && old(self).outbound@.len() > 0 ==> (r matches Some(f)
                && f@ == old(self).outbound@.first()
                && frame_wf(f@)
                && final(self).outbound@ == old(self).outbound@.drop_first()
                && final(self).credit.count == old(self).credit.count - 1),
            !(old(self).credit.count > 0 && old(self).outbound@.len() > 0) ==> (r is None
                && final(self).outbound@ == old(self).outbound@
                && final(self).credit.count == old(self).credit.count),
    {
        if self.outbound.len() > 0 {
            if self.credit.try_acquire() {
                proof {
                    assert(frame_wf(old(self).outbound@[0]));
                }
                self.outbound.pop()
            } else {
                None
            }
        } else {
            None
        }
    }

    /// Outbound pipeline body up to the transport: take one credit, dequeue
    /// the oldest submitted frame, and serialize it into exactly its wire
    /// bytes. `None` when no credit or no frame is waiting.
    pub fn process_output(&mut self) -> (r: Option<(Frame, Vec<u8>)>)
        requires
            old(self).wf(),
        ensures
            final(self).wf(),
            final(self).inbound@ == old(self).inbound@,
            final(self).started == old(self).started,
            final(self).credit.capacity == old(self).credit.capacity,
            old(self).credit.count > 0 && old(self).outbound@.len() > 0 ==> (r matches Some(
                (f, w),
            )
                && f@ == old(self).outbound@.first()
                && w@ == wire_of(f@)
                && w@.len() == wire_len(f@)
                && final(self).outbound@ == old(self).outbound@.drop_first()
                && final(self).credit.count == old(self).credit.count - 1),
            !(old(self).credit.count > 0 && old(self).outbound@.len() > 0) ==> (r is None
                && final(self).outbound@ == old(self).outbound@
                && final(self).credit.count == old(self).credit.count),
    {
        match self.take_next() {
            Some(f) => {
                let w = serialize_frame(&f);
                Some((f, w))
            }
            None => None,
        }
    }

    /// Outbound retry policy for one write attempt: success finishes the
    /// frame; a timeout keeps the credit and retries the same frame; a hard
    /// error refunds the credit before the retry. Queues never move here.
    pub fn handle_write_result(&mut self, result: WriteResult) -> (done: bool)
        requires
            old(self).wf(),
        ensures
            final(self).wf(),
            final(self).inbound@ == old(self).inbound@,
            final(self).outbound@ == old(self).outbound@,
            final(self).started == old(self).started,
            final(self).credit.capacity == old(self).credit.capacity,
            done == (result == WriteResult::Written),
            result == WriteResult::Failed ==> final(self).credit.count == (if old(self).credit.count
                < old(self).credit.capacity {
                old(self).credit.count + 1
            } else {
                old(self).credit.count as int
            }),
            result != WriteResult::Failed ==> final(self).credit.count == old(self).credit.count,
    {
        match result {
            WriteResult::Written => true,
            WriteResult::TimedOut => false,
            WriteResult::Failed => {
                self.credit.release();
                false
            }
        }
    }

    /// Writer's view of one burst: dequeue frames while credit lasts. What
    /// comes out is the submitted prefix the credit covers, in submission
    /// order.
    pub fn drain_ready(&mut self) -> (fs: Vec<Frame>)
        requires
            old(self).wf(),
        ensures
            final(self).wf(),
            fs@.map_values(|f: Frame| f@) == written_of(
                old(self).outbound@,
                old(self).credit.count as nat,
            ),
            final(self).outbound@ == old(self).outbound@.skip(fs@.len() as int),
            final(self).credit.count == old(self).credit.count - fs@.len(),
            final(self).credit.capacity == old(self).credit.capacity,
            final(self).inbound@ == old(self).inbound@,
            final(self).started == old(self).started,
    {
        let mut fs: Vec<Frame> = Vec::new();
        let avail = self.outbound.len();
        let k = if self.credit.count < avail {
            self.credit.count
        } else {
            avail
        };
        let mut i: usize = 0;
        while i < k
            invariant
                i <= k,
                self.wf(),
                self.inbound@ == old(self).inbound@,
                self.started == old(self).started,
                self.credit.capacity == old(self).credit.capacity,
                k == (if old(self).credit.count < old(self).outbound@.len() {
                    old(self).credit.count as int
                } else {
                    old(self).outbound@.len() as int
                }),
                fs@.len() == i,
                fs@.map_values(|f: Frame| f@) == old(self).outbound@.take(i as int),
                self.outbound@ == old(self).outbound@.skip(i as int),
                self.credit.count == old(self).credit.count - i,
            decreases k - i,
        {
            let ghost pre = self.outbound@;
            let r = self.take_next();
            match r {
                Some(f) => {
                    proof {
                        assert(pre.first() == old(self).outbound@[i as int]);
                        assert(fs@.map_values(|g: Frame| g@).push(f@) =~= old(
                            self,
                        ).outbound@.take(i + 1));
                        assert(pre.drop_first() =~= old(self).outbound@.skip(i + 1));
                    }
                    fs.push(f);
                    proof {
                        assert(fs@.map_values(|g: Frame| g@) =~= old(self).outbound@.take(i + 1));
                    }
                }
                None => {
                    proof {
                        assert(false);
                    }
                }
            }
            i = i + 1;
        }
        proof {
            assert(fs@.map_values(|f: Frame| f@) =~= written_of(
                old(self).outbound@,
                old(self).credit.count as nat,
            ));
        }
        fs
    }
}

} // verus!
