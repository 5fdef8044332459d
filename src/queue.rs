use vstd::prelude::*;
use crate::segments::SampleFrame;
use thingbuf::ThingBuf;

verus! {

#[verifier::external_type_specification]
#[verifier::external_body]
#[verifier::reject_recursive_types(T)]
#[verifier::reject_recursive_types(R)]
pub struct ExThingBuf<T, R>(ThingBuf<T, R>);

#[verifier::external_type_specification]
#[verifier::external_body]
pub struct ExDefaultRecycle(thingbuf::recycling::DefaultRecycle);

/// The frames that a ring buffer holds, oldest first.
pub uninterp spec fn ring_items(b: ThingBuf<(i16, i16)>) -> Seq<(i16, i16)>;

/// The number of frames that a ring buffer was made to hold.
pub uninterp spec fn ring_capacity(b: ThingBuf<(i16, i16)>) -> nat;

/// Relies on `ThingBuf::new`: an empty queue with room for `capacity`
/// elements. It panics on zero; the upper bound keeps the slot index and the
/// generation that it packs into one word far from overflowing.
#[verifier::external_body]
fn ring_new(capacity: usize) -> (r: ThingBuf<(i16, i16)>)
    requires
        0 < capacity <= 0x1_0000,
    ensures
        ring_items(r) == Seq::<(i16, i16)>::empty(),
        ring_capacity(r) == capacity,
{
    ThingBuf::new(capacity)
}

/// Relies on `ThingBuf::push`: the element is enqueued at the back when the
/// queue holds fewer than its capacity, and is refused otherwise.
#[verifier::external_body]
fn ring_push(b: &mut ThingBuf<(i16, i16)>, v: (i16, i16)) -> (r: bool)
    ensures
        r == (ring_items(*old(b)).len() < ring_capacity(*old(b))),
        r ==> ring_items(*final(b)) == ring_items(*old(b)).push(v),
        !r ==> ring_items(*final(b)) == ring_items(*old(b)),
        ring_capacity(*final(b)) == ring_capacity(*old(b)),
{
    b.push(v).is_ok()
}

/// Relies on `ThingBuf::pop`: the element at the front is dequeued, or
/// `None` comes back when the queue is empty.
#[verifier::external_body]
fn ring_pop(b: &mut ThingBuf<(i16, i16)>) -> (r: Option<(i16, i16)>)
    ensures
        ring_items(*old(b)).len() == 0 ==> r is None && ring_items(*final(b)) == ring_items(
            *old(b),
        ),
        ring_items(*old(b)).len() > 0 ==> r == Some(ring_items(*old(b))[0]) && ring_items(
            *final(b),
        ) == ring_items(*old(b)).drop_first(),
        ring_capacity(*final(b)) == ring_capacity(*old(b)),
{
    b.pop()
}

/// Error of a push into a full queue: the frame was dropped.
#[derive(Clone, Copy, Debug, PartialEq, Eq, Structural)]
pub struct QueueFull;

/// A bounded first-in first-out queue of sample frames, from the audio
/// producer to the frame driver. Its capacity is fixed when it is made.
pub struct SampleQueue {
    buf: ThingBuf<(i16, i16)>,
    capacity: usize,
}

pub open spec fn frame_of(p: (i16, i16)) -> SampleFrame {
    SampleFrame { x: p.0, y: p.1 }
}

/// The queue that a push of `f` leaves: `f` at the back, unless the queue is
/// full, in which case it is unchanged.
pub open spec fn after_push(q: Seq<SampleFrame>, cap: nat, f: SampleFrame) -> Seq<SampleFrame> {
    if q.len() < cap {
        q.push(f)
    } else {
        q
    }
}

impl View for SampleQueue {
    type V = Seq<SampleFrame>;

    /// The frames in the queue, oldest first.
    closed spec fn view(&self) -> Seq<SampleFrame> {
        ring_items(self.buf).map_values(|p: (i16, i16)| frame_of(p))
    }
}

impl SampleQueue {
    /// The number of frames that the queue can hold.
    pub closed spec fn cap(&self) -> nat {
        self.capacity as nat
    }

    pub closed spec fn wf(&self) -> bool {
        self.capacity == ring_capacity(self.buf) && self.capacity > 0
    }

    /// An empty queue with room for `capacity` frames.
    pub fn new(capacity: usize) -> (r: SampleQueue)
        requires
            0 < capacity <= 0x1_0000,
        ensures
            r.wf(),
            r@ == Seq::<SampleFrame>::empty(),
            r.cap() == capacity,
    {
        let buf = ring_new(capacity);
        let r = SampleQueue { buf, capacity };
        assert(r@ =~= Seq::<SampleFrame>::empty());
        r
    }

    /// The number of frames that the queue can hold.
    pub fn capacity(&self) -> (r: usize)
        ensures
            r == self.cap(),
    {
        self.capacity
    }

    /// Enqueues `frame` at the back; when the queue is full the frame is
    /// dropped and `QueueFull` comes back at once.
    pub fn push(&mut self, frame: SampleFrame) -> (r: Result<(), QueueFull>)
        requires
            old(self).wf(),
        ensures
            final(self).wf(),
            final(self).cap() == old(self).cap(),
            r is Ok <==> old(self)@.len() < old(self).cap(),
            final(self)@ == after_push(old(self)@, old(self).cap(), frame),
    {
        let ok = ring_push(&mut self.buf, (frame.x, frame.y));
        proof {
            if ok {
                assert(self@ =~= old(self)@.push(frame));
            } else {
                assert(self@ =~= old(self)@);
            }
        }
        if ok {
            Ok(())
        } else {
            Err(QueueFull)
        }
    }

    /// Dequeues the oldest frame, or returns `None` when the queue is empty.
    pub fn pop(&mut self) -> (r: Option<SampleFrame>)
        requires
            old(self).wf(),
        ensures
            final(self).wf(),
            final(self).cap() == old(self).cap(),
            old(self)@.len() == 0 ==> r is None && final(self)@ == old(self)@,
            old(self)@.len() > 0 ==> r == Some(old(self)@[0]) && final(self)@
                == old(self)@.drop_first(),
    {
        let p = ring_pop(&mut self.buf);
        proof {
            assert(self@ =~= old(self)@ || old(self)@.len() > 0);
            if old(self)@.len() > 0 {
                assert(self@ =~= old(self)@.drop_first());
            }
        }
        match p {
            Some(v) => Some(SampleFrame { x: v.0, y: v.1 }),
            None => None,
        }
    }

    /// Moves every frame of the queue, oldest first, to the back of `out`.
    pub fn drain_into(&mut self, out: &mut Vec<SampleFrame>)
        requires
            old(self).wf(),
        ensures
            final(self).wf(),
            final(self).cap() == old(self).cap(),
            final(self)@ == Seq::<SampleFrame>::empty(),
            final(out)@ == old(out)@ + old(self)@,
    {
        loop
            invariant
                self.wf(),
                self.cap() == old(self).cap(),
                out@ + self@ == old(out)@ + old(self)@,
            ensures
                self.wf(),
                self.cap() == old(self).cap(),
                self@ == Seq::<SampleFrame>::empty(),
                out@ == old(out)@ + old(self)@,
            decreases self@.len(),
        {
            let ghost before = self@;
            match self.pop() {
                Some(f) => {
                    out.push(f);
                    assert(before =~= seq![f] + self@);
                    assert(out@ + self@ =~= old(out)@ + old(self)@);
                },
                None => {
                    assert(out@ =~= old(out)@ + old(self)@);
                    break ;
                },
            }
        }
    }
}

/// One operation on a sample queue.
pub enum QueueOp {
    Push(SampleFrame),
    Pop,
}

/// What a run of operations does to a queue with contents `q` and capacity
/// `cap`: the contents it leaves, the frames that the pops returned, and the
/// frames that the pushes got in, each in order.
pub open spec fn run_ops(q: Seq<SampleFrame>, cap: nat, ops: Seq<QueueOp>) -> (
    Seq<SampleFrame>,
    Seq<SampleFrame>,
    Seq<SampleFrame>,
)
    decreases ops.len(),
{
    if ops.len() == 0 {
        (q, Seq::empty(), Seq::empty())
    } else {
        let (c, popped, pushed) = run_ops(q, cap, ops.drop_last());
        match ops.last() {
            QueueOp::Push(f) => (
                after_push(c, cap, f),
                popped,
                if c.len() < cap {
                    pushed.push(f)
                } else {
                    pushed
                },
            ),
            QueueOp::Pop => if c.len() > 0 {
                (c.drop_first(), popped.push(c[0]), pushed)
            } else {
                (c, popped, pushed)
            },
        }
    }
}

/// First in, first out, nothing lost or made up: over any run of pushes and
/// pops, the frames that the pops returned, followed by those still queued,
/// are the frames first queued followed by those that the pushes got in.
pub proof fn lemma_queue_fifo(q: Seq<SampleFrame>, cap: nat, ops: Seq<QueueOp>)
    ensures
        run_ops(q, cap, ops).1 + run_ops(q, cap, ops).0 == q + run_ops(q, cap, ops).2,
    decreases ops.len(),
{
    if ops.len() > 0 {
        lemma_queue_fifo(q, cap, ops.drop_last());
        let (c, popped, pushed) = run_ops(q, cap, ops.drop_last());
        match ops.last() {
            QueueOp::Push(f) => {
                if c.len() < cap {
                    assert(popped + c.push(f) =~= (popped + c).push(f));
                    assert(q + pushed.push(f) =~= (q + pushed).push(f));
                }
            },
            QueueOp::Pop => {
                if c.len() > 0 {
                    assert(popped.push(c[0]) + c.drop_first() =~= popped + c);
                }
            },
        }
    }
}

} // verus!
