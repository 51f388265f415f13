//! Hand-over of decoded frames to the consumer: a bounded, latest-wins
//! queue, and the slot that holds the handle of the running pipeline.
use vstd::prelude::*;

verus! {

/// One decoded picture.
#[derive(Debug, Clone)]
pub struct DecodedFrame {
    /// RGBA pixels, row by row.
    pub pixels: Vec<u8>,
    pub width: u32,
    pub height: u32,
    /// Size of the compressed unit the picture came from.
    pub source_byte_size: usize,
}

/// Queue length used between the decoder and the display.
pub const DEFAULT_SINK_CAPACITY: usize = 2;

/// Frames of `q` after `f` is offered to a queue of capacity `cap`: when the
/// queue is full the oldest frame makes room.
pub open spec fn pushed(q: Seq<DecodedFrame>, cap: nat, f: DecodedFrame) -> Seq<DecodedFrame> {
    if q.len() < cap {
        q.push(f)
    } else {
        q.drop_first().push(f)
    }
}

/// Frames of `q` after each frame of `fs` is offered in turn.
pub open spec fn pushed_all(q: Seq<DecodedFrame>, cap: nat, fs: Seq<DecodedFrame>) -> Seq<
    DecodedFrame,
>
    decreases fs.len(),
{
    if fs.len() == 0 {
        q
    } else {
        pushed(pushed_all(q, cap, fs.drop_last()), cap, fs.last())
    }
}

/// Sum of the source sizes of the frames of `q`.
pub open spec fn source_total(q: Seq<DecodedFrame>) -> int
    decreases q.len(),
{
    if q.len() == 0 {
        0
    } else {
        source_total(q.drop_last()) + q.last().source_byte_size
    }
}

/// What one drain of the sink hands to the consumer.
#[derive(Debug, Clone)]
pub struct Drained {
    /// The newest frame that was queued, if any.
    pub latest: Option<DecodedFrame>,
    /// How many frames were queued.
    pub frames: usize,
    /// Their source sizes added up, held at the largest `u64`.
    pub source_bytes: u64,
}

/// A bounded queue of decoded frames in which offering a frame never waits:
/// when the queue is full its oldest frame is dropped.
pub struct FrameSink {
    frames: Vec<DecodedFrame>,
    capacity: usize,
}

impl View for FrameSink {
    type V = Seq<DecodedFrame>;

    closed spec fn view(&self) -> Seq<DecodedFrame> {
        self.frames@
    }
}

impl FrameSink {
    /// The number of frames the sink holds at most.
    pub closed spec fn cap(&self) -> nat {
        self.capacity as nat
    }

    /// At least one place, and no more frames than places.
    pub closed spec fn wf(&self) -> bool {
        0 < self.capacity && self.frames@.len() <= self.capacity
    }

    /// An empty sink with `capacity` places.
    pub fn new(capacity: usize) -> (r: FrameSink)
        requires
            capacity > 0,
        ensures
            r.wf(),
            r@ == Seq::<DecodedFrame>::empty(),
            r.cap() == capacity,
    {
        FrameSink { frames: Vec::new(), capacity }
    }

    pub fn capacity(&self) -> (r: usize)
        ensures
            r == self.cap(),
    {
        self.capacity
    }

    pub fn len(&self) -> (r: usize)
        ensures
            r == self@.len(),
    {
        self.frames.len()
    }

    /// Offers a frame; never waits. Returns whether the oldest frame was
    /// dropped to make room.
    pub fn push(&mut self, frame: DecodedFrame) -> (dropped: bool)
        requires
            old(self).wf(),
        ensures
            final(self).wf(),
            final(self).cap() == old(self).cap(),
            final(self)@ == pushed(old(self)@, old(self).cap(), frame),
            dropped == (old(self)@.len() == old(self).cap()),
    {
        let full = self.frames.len() >= self.capacity;
        if full {
            let _oldest = self.frames.remove(0);
        }
        self.frames.push(frame);
        proof {
            if full {
                assert(old(self)@.remove(0) =~= old(self)@.drop_first());
            }
        }
        full
    }

    /// Empties the sink and hands over its newest frame, with the count and
    /// the source sizes of all the frames it held.
    pub fn drain_latest(&mut self) -> (r: Drained)
        requires
            old(self).wf(),
        ensures
            final(self).wf(),
            final(self).cap() == old(self).cap(),
            final(self)@ == Seq::<DecodedFrame>::empty(),
            r.frames == old(self)@.len(),
            r.latest == (if old(self)@.len() == 0 {
                None::<DecodedFrame>
            } else {
                Some(old(self)@.last())
            }),
            r.source_bytes == (if source_total(old(self)@) <= u64::MAX {
                source_total(old(self)@)
            } else {
                u64::MAX as int
            }),
    {
        let n = self.frames.len();
        let mut total: u64 = 0;
        let mut i: usize = 0;
        while i < n
            invariant
                i <= n,
                n == self.frames@.len(),
                self.frames@ == old(self)@,
                total == (if source_total(self.frames@.subrange(0, i as int)) <= u64::MAX {
                    source_total(self.frames@.subrange(0, i as int))
                } else {
                    u64::MAX as int
                }),
            decreases n - i,
        {
            let size = self.frames[i].source_byte_size;
            proof {
                assert(self.frames@.subrange(0, i + 1).drop_last() =~= self.frames@.subrange(
                    0,
                    i as int,
                ));
            }
            total = if (size as u64) <= u64::MAX - total {
                total + size as u64
            } else {
                u64::MAX
            };
            i = i + 1;
        }
        assert(self.frames@.subrange(0, n as int) =~= old(self)@);
        let latest = self.frames.pop();
        self.frames = Vec::new();
        Drained { latest, frames: n, source_bytes: total }
    }
}

/// Burst: however many frames are offered in a row, none waits, the sink
/// never holds more than its capacity, and a drain right after a non-empty
/// burst yields the last frame offered.
pub proof fn lemma_burst_keeps_latest(q: Seq<DecodedFrame>, cap: nat, fs: Seq<DecodedFrame>)
    requires
        0 < cap,
        q.len() <= cap,
    ensures
        pushed_all(q, cap, fs).len() <= cap,
        fs.len() > 0 ==> pushed_all(q, cap, fs).len() > 0 && pushed_all(q, cap, fs).last()
            == fs.last(),
    decreases fs.len(),
{
    if fs.len() > 0 {
        lemma_burst_keeps_latest(q, cap, fs.drop_last());
    }
}

/// The handle of the running pipeline, shared by the supervisor and the
/// consumer: at most one is held at a time, and taking it twice yields
/// nothing the second time.
pub struct PipelineSlot<T> {
    current: Option<T>,
}

impl<T> View for PipelineSlot<T> {
    type V = Option<T>;

    closed spec fn view(&self) -> Option<T> {
        self.current
    }
}

impl<T> PipelineSlot<T> {
    /// A slot that holds no handle.
    pub fn new() -> (r: PipelineSlot<T>)
        ensures
            r@ is None,
    {
        PipelineSlot { current: None }
    }

    /// Publishes `handle`, returning the one it replaces.
    pub fn set(&mut self, handle: T) -> (prev: Option<T>)
        ensures
            final(self)@ == Some(handle),
            prev == old(self)@,
    {
        let prev = self.current.take();
        self.current = Some(handle);
        prev
    }

    /// Clears the slot and returns what it held.
    pub fn take(&mut self) -> (r: Option<T>)
        ensures
            final(self)@ is None,
            r == old(self)@,
    {
        self.current.take()
    }

    /// Whether a handle is held.
    pub fn is_active(&self) -> (r: bool)
        ensures
            r == self@ is Some,
    {
        self.current.is_some()
    }
}

} // verus!
