use std::collections::VecDeque;
use vstd::multiset::Multiset;
use vstd::prelude::*;

verus! {

/// A first-in, first-out queue of available frame indices.
#[derive(Clone, Debug)]
pub struct Queue {
    available_queue: VecDeque<usize>,
}

impl View for Queue {
    type V = Seq<usize>;

    closed spec fn view(&self) -> Seq<usize> {
        self.available_queue@
    }
}

impl Queue {
    /// Builds a queue whose available frames are those of `q`, front first.
    pub fn init_queue(q: VecDeque<usize>) -> (res: Self)
        ensures
            res@ == q@,
    {
        Queue { available_queue: q }
    }

    /// Takes the frame at the front of the queue, if there is one.
    pub fn get_frame(&mut self) -> (res: Option<usize>)
        ensures
            old(self)@.len() == 0 ==> res is None && final(self)@ == old(self)@,
            old(self)@.len() > 0 ==> res == Some(old(self)@[0])
                && final(self)@ == old(self)@.drop_first(),
            forall|out: Multiset<usize>|
                #[trigger] frame_step(old(self)@, out, FrameOp::Take) == (
                    final(self)@,
                    match res {
                        Some(x) => out.insert(x),
                        None => out,
                    },
                ),
    {
        self.available_queue.pop_front()
    }

    /// Whether the queue holds at least `count` frames and the first `count`
    /// of them are all below `bound`.
    pub fn holds_frames_below(&self, count: usize, bound: usize) -> (res: bool)
        ensures
            res == (count <= self@.len() && forall|k: int|
                0 <= k < count ==> #[trigger] self@[k] < bound),
    {
        if count > self.available_queue.len() {
            return false;
        }
        let mut k: usize = 0;
        while k < count
            invariant
                count <= self@.len(),
                k <= count,
                forall|j: int| 0 <= j < k ==> #[trigger] self@[j] < bound,
            decreases count - k,
        {
            if self.available_queue[k] >= bound {
                return false;
            }
            k = k + 1;
        }
        true
    }

    /// Puts a frame back at the end of the queue.
    pub fn release_frame(&mut self, desc: usize)
        ensures
            final(self)@ == old(self)@.push(desc),
            forall|out: Multiset<usize>|
                #[trigger] frame_step(old(self)@, out, FrameOp::Release(desc)) == (
                    final(self)@,
                    out.remove(desc),
                ),
    {
        self.available_queue.push_back(desc);
    }
}

impl Default for Queue {
    /// An empty queue.
    fn default() -> (res: Self)
        ensures
            res@ == Seq::<usize>::empty(),
    {
        Queue { available_queue: VecDeque::new() }
    }
}

/// First in, first out: releasing `x` and then taking a frame gives back `x`
/// from an empty queue, and otherwise gives back the old front while `x`
/// waits at the end behind the others.
pub proof fn lemma_release_then_get<T>(q: Seq<T>, x: T)
    ensures
        q.push(x).len() > 0,
        q.len() == 0 ==> q.push(x)[0] == x && q.push(x).drop_first() == q,
        q.len() > 0 ==> q.push(x)[0] == q[0] && q.push(x).drop_first() == q.drop_first().push(x),
{
    if q.len() > 0 {
        assert(q.push(x).drop_first() =~= q.drop_first().push(x));
    } else {
        assert(q.push(x).drop_first() =~= q);
    }
}

/// Taking the front frame and releasing it again loses no frame and adds
/// none: the queue holds the same frames, the front one moved to the end.
pub proof fn lemma_get_then_release_keeps_frames<T>(q: Seq<T>)
    requires
        q.len() > 0,
    ensures
        q.drop_first().push(q[0]).len() == q.len(),
        q.drop_first().push(q[0]).to_multiset() == q.to_multiset(),
{
    broadcast use vstd::multiset::group_multiset_axioms;

    q.to_multiset_ensures();
    q.drop_first().to_multiset_ensures();

    assert(q.drop_first() =~= q.remove(0));
    assert(q.to_multiset().remove(q[0]).insert(q[0]) =~= q.to_multiset());
}

/// One call on a queue of frames: taking the front frame, or releasing a
/// frame.
pub enum FrameOp<T> {
    Take,
    Release(T),
}

/// The queue and the multiset of frames taken and not yet released, after
/// the call `op`, as `get_frame` and `release_frame` state it.
pub open spec fn frame_step<T>(q: Seq<T>, out: Multiset<T>, op: FrameOp<T>) -> (Seq<T>, Multiset<T>) {
    match op {
        FrameOp::Take => if q.len() == 0 {
            (q, out)
        } else {
            (q.drop_first(), out.insert(q[0]))
        },
        FrameOp::Release(x) => (q.push(x), out.remove(x)),
    }
}

/// The queue and the taken frames after the calls `ops`, in order.
pub open spec fn frame_run<T>(q: Seq<T>, out: Multiset<T>, ops: Seq<FrameOp<T>>) -> (
    Seq<T>,
    Multiset<T>,
)
    decreases ops.len(),
{
    if ops.len() == 0 {
        (q, out)
    } else {
        let (q1, out1) = frame_step(q, out, ops[0]);
        frame_run(q1, out1, ops.drop_first())
    }
}

/// Every frame that `ops` releases has been taken and not released since.
pub open spec fn releases_taken_frames<T>(q: Seq<T>, out: Multiset<T>, ops: Seq<FrameOp<T>>) -> bool
    decreases ops.len(),
{
    if ops.len() == 0 {
        true
    } else {
        &&& (ops[0] matches FrameOp::Release(x) ==> out.count(x) > 0)
        &&& {
            let (q1, out1) = frame_step(q, out, ops[0]);
            releases_taken_frames(q1, out1, ops.drop_first())
        }
    }
}

/// No run of takes and releases loses or duplicates a frame: where each
/// frame released was taken and not released since, the frames in the queue
/// together with those taken and not yet released are, after every call,
/// those the queue began with together with those taken before it.
pub proof fn lemma_frames_conserved<T>(q: Seq<T>, out: Multiset<T>, ops: Seq<FrameOp<T>>)
    requires
        releases_taken_frames(q, out, ops),
    ensures
        frame_run(q, out, ops).0.to_multiset().add(frame_run(q, out, ops).1) == q.to_multiset().add(
            out,
        ),
    decreases ops.len(),
{
    broadcast use vstd::multiset::group_multiset_axioms;

    if ops.len() > 0 {
        let (q1, out1) = frame_step(q, out, ops[0]);
        lemma_frames_conserved(q1, out1, ops.drop_first());
        match ops[0] {
            FrameOp::Take => {
                if q.len() > 0 {
                    q.to_multiset_ensures();
                    assert(q.drop_first() =~= q.remove(0));
                    assert(q1.to_multiset().add(out1) =~= q.to_multiset().add(out));
                }
            },
            FrameOp::Release(x) => {
                q.to_multiset_ensures();
                assert(q1.to_multiset().add(out1) =~= q.to_multiset().add(out));
            },
        }
    }
}

} // verus!
