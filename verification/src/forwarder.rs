//! The outbound half of one connection: an unbounded, strictly ordered queue
//! of pre-encoded frames, drained to the socket's write side in arrival
//! order. Delivery order equals enqueue order within one connection (see
//! `lemma_outbound_ordering`); the drain stops when the queue is empty.

use vstd::prelude::*;

verus! {

broadcast use {vstd::std_specs::vec::group_vec_axioms, vstd::seq::group_seq_axioms};

/// The character sequences a list of frames holds, in order.
pub open spec fn frames_view(v: Seq<String>) -> Seq<Seq<char>> {
    Seq::new(v.len(), |i: int| if 0 <= i < v.len() { v[i]@ } else { Seq::empty() })
}

/// The model of the queue: the frames still to deliver, oldest first, and
/// whether the writing side has closed it.
pub struct OutboundQueueV {
    pub frames: Seq<Seq<char>>,
    pub closed: bool,
}

/// The queue one session feeds and one forwarder drains.
pub struct OutboundQueue {
    frames: Vec<String>,
    closed: bool,
}

impl View for OutboundQueue {
    type V = OutboundQueueV;

    closed spec fn view(&self) -> OutboundQueueV {
        OutboundQueueV { frames: frames_view(self.frames@), closed: self.closed }
    }
}

impl OutboundQueue {
    /// An open, empty queue.
    pub fn new() -> (r: OutboundQueue)
        ensures
            r@.frames == Seq::<Seq<char>>::empty(),
            !r@.closed,
    {
        let r = OutboundQueue { frames: Vec::new(), closed: false };
        proof {
            assert(r@.frames =~= Seq::<Seq<char>>::empty());
        }
        r
    }

    /// Queues one frame behind everything queued before it.
    pub fn enqueue(&mut self, frame: String)
        requires
            !old(self)@.closed,
        ensures
            final(self)@.frames == old(self)@.frames.push(frame@),
            !final(self)@.closed,
    {
        self.frames.push(frame);
        proof {
            assert(self@.frames =~= old(self)@.frames.push(self.frames@.last()@));
        }
    }

    /// Closes the queue: nothing more will be queued, and the forwarder
    /// terminates once what is left has drained.
    pub fn close(&mut self)
        ensures
            final(self)@.frames == old(self)@.frames,
            final(self)@.closed,
    {
        self.closed = true;
        proof {
            assert(self@.frames =~= old(self)@.frames);
        }
    }

    /// Whether the writing side has closed the queue.
    pub fn is_closed(&self) -> (r: bool)
        ensures
            r == self@.closed,
    {
        self.closed
    }

    /// Takes the oldest queued frame, if any.
    pub fn dequeue(&mut self) -> (r: Option<String>)
        ensures
            final(self)@.closed == old(self)@.closed,
            match r {
                Some(f) => old(self)@.frames.len() > 0 && f@ == old(self)@.frames[0]
                    && final(self)@.frames == old(self)@.frames.drop_first(),
                None => old(self)@.frames.len() == 0 && final(self)@.frames == old(self)@.frames,
            },
    {
        if self.frames.len() == 0 {
            None
        } else {
            let f = self.frames.remove(0);
            proof {
                assert(self@.frames =~= old(self)@.frames.drop_first());
            }
            Some(f)
        }
    }
}

/// One pass of the forwarder: writes every queued frame onto the socket's
/// write side (modelled as the list of frames written so far), in arrival
/// order, leaving the queue empty.
#[verifier::loop_isolation(false)]
pub fn forwarder_drain(q: &mut OutboundQueue, written: &mut Vec<String>)
    ensures
        frames_view(final(written)@) == frames_view(old(written)@) + old(q)@.frames,
        final(q)@.frames == Seq::<Seq<char>>::empty(),
        final(q)@.closed == old(q)@.closed,
{
    loop
        invariant
            frames_view(written@) + q@.frames == frames_view(old(written)@) + old(q)@.frames,
            q@.closed == old(q)@.closed,
        decreases q@.frames.len(),
    {
        let ghost wv0 = frames_view(written@);
        let ghost qf0 = q@.frames;
        match q.dequeue() {
            Some(f) => {
                written.push(f);
                proof {
                    assert(frames_view(written@) =~= wv0.push(qf0[0]));
                    assert(wv0.push(qf0[0]) + qf0.drop_first() =~= wv0 + qf0);
                }
            },
            None => {
                proof {
                    assert(q@.frames =~= Seq::<Seq<char>>::empty());
                    assert(frames_view(written@) =~= frames_view(written@) + q@.frames);
                }
                break ;
            },
        }
    }
}

/// Law: within one connection, enqueuing one frame and then another means the
/// peer observes the first strictly before the second: after a drain, the
/// written list holds them at consecutive positions, in enqueue order.
pub proof fn lemma_outbound_ordering(
    queued: Seq<Seq<char>>,
    f1: Seq<char>,
    f2: Seq<char>,
    written: Seq<Seq<char>>,
)
    ensures
        ({
            let delivered = written + queued.push(f1).push(f2);
            let i = (written.len() + queued.len()) as int;
            delivered[i] == f1 && delivered[i + 1] == f2 && i + 1 < delivered.len()
        }),
{
}

} // verus!
