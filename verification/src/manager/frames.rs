//! Frames on their way out.
//!
//! Destroying a frame's texture takes effect at once, while the GPU may still be
//! reading it for the frame being drawn; that faults the device and wedges the
//! whole window. So a frame is kept for some repaints after its last use.

use std::collections::VecDeque;
use vstd::prelude::*;

use crate::manager::tabs::Frame;
use crate::manager::IncusManager;

verus! {

/// How many repaints a frame is kept for. The renderer waits for the previous
/// frame before it records the next, so two are past anything it still holds.
pub const KEEP_FOR_REPAINTS: u64 = 2;

/// Whether a frame that was retired at repaint `at` may be destroyed.
pub open spec fn due(at: u64, now: u64) -> bool {
    now - at >= KEEP_FOR_REPAINTS
}

/// How many frames at the head of the queue may be destroyed.
pub open spec fn due_count(queue: Seq<(u64, u64)>, now: u64) -> int
    decreases queue.len(),
{
    if queue.len() > 0 && due(queue[0].0, now) {
        1 + due_count(queue.drop_first(), now)
    } else {
        0
    }
}

/// The keys of some frames of the queue.
pub open spec fn keys_of(queue: Seq<(u64, u64)>) -> Seq<u64> {
    Seq::new(queue.len(), |i: int| queue[i].1)
}

proof fn due_count_bounds(queue: Seq<(u64, u64)>, now: u64)
    ensures
        0 <= due_count(queue, now) <= queue.len(),
        forall|i: int| 0 <= i < due_count(queue, now) ==> due((#[trigger] queue[i]).0, now),
        due_count(queue, now) < queue.len() ==> !due(queue[due_count(queue, now)].0, now),
    decreases queue.len(),
{
    if queue.len() > 0 && due(queue[0].0, now) {
        let rest = queue.drop_first();
        due_count_bounds(rest, now);
        assert forall|i: int| 0 <= i < due_count(queue, now) implies due(
            (#[trigger] queue[i]).0,
            now,
        ) by {
            if i > 0 {
                assert(rest[i - 1] == queue[i]);
            }
        }
    }
}

/// The queue with one more frame, where there is one.
pub open spec fn retired(queue: Seq<(u64, u64)>, now: u64, frame: Option<Frame>) -> Seq<
    (u64, u64),
> {
    match frame {
        Some(frame) => queue.push((now, frame.key)),
        None => queue,
    }
}

impl IncusManager {
    /// Hands a frame over for delayed destruction.
    pub fn retire_frame(&mut self, frame: Option<Frame>)
        ensures
            final(self).retired_frames@ == retired(
                old(self).retired_frames@,
                old(self).render_seq,
                frame,
            ),
            *final(self) == (IncusManager {
                retired_frames: final(self).retired_frames,
                ..*old(self)
            }),
            old(self).wf() ==> final(self).wf(),
    {
        if let Some(frame) = frame {
            self.retired_frames.push_back((self.render_seq, frame.key));
        }
    }

    /// Takes the frames from the queue that can no longer be in use, oldest
    /// first.
    pub fn release_retired_frames(&mut self) -> (r: Vec<u64>)
        ensures
            ({
                let queue = old(self).retired_frames@;
                let n = due_count(queue, old(self).render_seq);
                &&& r@ == keys_of(queue.take(n))
                &&& final(self).retired_frames@ == queue.skip(n)
            }),
            *final(self) == (IncusManager {
                retired_frames: final(self).retired_frames,
                ..*old(self)
            }),
            old(self).wf() ==> final(self).wf(),
    {
        let ghost queue = self.retired_frames@;
        let ghost n = due_count(queue, self.render_seq);
        let mut out: Vec<u64> = Vec::new();
        proof {
            due_count_bounds(queue, self.render_seq);
            assert(queue.skip(0) =~= queue);
            assert(keys_of(queue.take(0)) =~= Seq::empty());
        }
        while self.retired_frames.len() > 0 && self.render_seq >= KEEP_FOR_REPAINTS
            && self.retired_frames[0].0 <= self.render_seq - KEEP_FOR_REPAINTS
            invariant
                out@.len() <= queue.len(),
                queue == old(self).retired_frames@,
                n == due_count(queue, old(self).render_seq),
                self.retired_frames@ == queue.skip(out@.len() as int),
                out@ == keys_of(queue.take(out@.len() as int)),
                n == out@.len() + due_count(self.retired_frames@, self.render_seq),
                *self == (IncusManager { retired_frames: self.retired_frames, ..*old(self) }),
            decreases self.retired_frames@.len(),
        {
            let ghost k = out@.len() as int;
            let ghost rest = self.retired_frames@;
            if let Some((_, key)) = self.retired_frames.pop_front() {
                out.push(key);
            }
            assert(rest.drop_first() =~= queue.skip(k + 1));
            assert(keys_of(queue.take(k + 1)) =~= keys_of(queue.take(k)).push(queue[k].1));
        }
        out
    }

    /// A repaint begins: counts it, and takes the frames that may be destroyed.
    pub fn begin_repaint(&mut self) -> (r: Vec<u64>)
        ensures
            ({
                let queue = old(self).retired_frames@;
                let now = final(self).render_seq;
                let n = due_count(queue, now);
                &&& now as int == (if old(self).render_seq == u64::MAX {
                    0
                } else {
                    old(self).render_seq + 1
                })
                &&& r@ == keys_of(queue.take(n))
                &&& final(self).retired_frames@ == queue.skip(n)
            }),
            *final(self) == (IncusManager {
                retired_frames: final(self).retired_frames,
                render_seq: final(self).render_seq,
                ..*old(self)
            }),
            old(self).wf() ==> final(self).wf(),
    {
        self.render_seq = self.render_seq.wrapping_add(1);
        self.release_retired_frames()
    }
}

/// Whether a queue is in the order in which its frames were retired, none of
/// them after repaint `now`.
pub open spec fn queue_in_order(queue: Seq<(u64, u64)>, now: u64) -> bool {
    &&& forall|i: int| 0 <= i < queue.len() ==> (#[trigger] queue[i]).0 <= now
    &&& forall|i: int, j: int|
        0 <= i <= j < queue.len() ==> (#[trigger] queue[i]).0 <= (#[trigger] queue[j]).0
}

/// A frame that is destroyed was retired two repaints ago or earlier, and every
/// such frame of the queue is destroyed.
pub proof fn frames_outlive_two_repaints(queue: Seq<(u64, u64)>, now: u64)
    requires
        queue_in_order(queue, now),
    ensures
        forall|i: int|
            0 <= i < queue.len() ==> (i < due_count(queue, now) <==> (#[trigger] queue[i]).0 + 2
                <= now),
{
    due_count_bounds(queue, now);
    let n = due_count(queue, now);
    assert forall|i: int| 0 <= i < queue.len() implies (i < due_count(queue, now) <==> (
    #[trigger] queue[i]).0 + 2 <= now) by {
        if i >= n {
            assert(queue[n].0 <= queue[i].0);
        }
    }
}

/// The queue stays in the order of retirement, whatever is retired and released.
pub proof fn queue_stays_in_order(
    queue: Seq<(u64, u64)>,
    now: u64,
    later: u64,
    frame: Option<Frame>,
)
    requires
        queue_in_order(queue, now),
        now <= later,
    ensures
        queue_in_order(retired(queue, now, frame), now),
        queue_in_order(queue.skip(due_count(queue, later)), later),
{
    due_count_bounds(queue, later);
}

/// A retired frame waits behind all that wait already, from the present repaint
/// on; where there is no frame, nothing changes.
pub proof fn retired_frames_wait_in_line(queue: Seq<(u64, u64)>, now: u64, frame: Frame)
    ensures
        retired(queue, now, Some(frame)).len() == queue.len() + 1,
        retired(queue, now, Some(frame)).last() == (now, frame.key),
        forall|i: int|
            0 <= i < queue.len() ==> #[trigger] retired(queue, now, Some(frame))[i] == queue[i],
        retired(queue, now, None) == queue,
{
}

/// What is released is what waited longest: the keys at the head of the queue, in
/// its order; and nothing that was retired less than two repaints ago.
pub proof fn the_oldest_frames_go_first(queue: Seq<(u64, u64)>, now: u64, i: int)
    ensures
        0 <= due_count(queue, now) <= queue.len(),
        keys_of(queue.take(due_count(queue, now))).len() == due_count(queue, now),
        0 <= i < due_count(queue, now) ==> keys_of(queue.take(due_count(queue, now)))[i]
            == queue[i].1 && queue[i].0 + 2 <= now,
        due_count(queue, now) < queue.len() ==> queue[due_count(queue, now)].0 + 2 > now,
{
    due_count_bounds(queue, now);
}

} // verus!
