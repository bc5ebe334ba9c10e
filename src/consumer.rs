use vstd::prelude::*;
use crate::pacer::{Pacer, delay_spec};
use crate::timing::{Timebase, pts_convertible, pts_nanos_spec, pts_to_nanos};

verus! {

/// What the video consumer does next.
#[derive(Clone, Copy, Debug, PartialEq, Eq, Structural)]
pub enum ConsumerAction {
    /// Wait this many nanoseconds, then show the frame.
    Show(u64),
    /// The frame channel is closed: stop receiving.
    Finish,
}

/// The receiving side of the video frames: paces each frame by its
/// timestamp, and ends once the producer is gone.
#[derive(Clone, Copy, Debug, PartialEq, Eq, Structural)]
pub struct VideoConsumer {
    pub pacer: Pacer,
    pub closed: bool,
}

/// The timestamp of a frame in nanoseconds, where it has one that converts.
pub open spec fn frame_nanos(pts: Option<i64>, tb: Option<Timebase>) -> Option<i64> {
    match (pts, tb) {
        (Some(p), Some(t)) => if pts_convertible(p as int, t) {
            Some(pts_nanos_spec(p as int, t) as i64)
        } else {
            None
        },
        _ => None,
    }
}

/// A frame with a timestamp is paced by it and recorded; one without is shown
/// at once and leaves the pacer as it was.
pub open spec fn frame_outcome(pacer: Pacer, pts: Option<i64>, tb: Option<Timebase>, elapsed: u64) -> (
    u64,
    Pacer,
) {
    match frame_nanos(pts, tb) {
        Some(ns) => (delay_spec(pacer.prev_pts, ns, elapsed) as u64, Pacer { prev_pts: Some(ns) }),
        None => (0, pacer),
    }
}

/// The timing attached to a received video frame.
#[derive(Clone, Copy, Debug, PartialEq, Eq, Structural)]
pub struct FrameStamp {
    pub pts: Option<i64>,
    pub timebase: Option<Timebase>,
}

/// One receive of the consumer: `None` is the channel found closed.
pub open spec fn consumer_step(c: VideoConsumer, msg: Option<FrameStamp>, elapsed: u64) -> (
    ConsumerAction,
    VideoConsumer,
) {
    if c.closed {
        (ConsumerAction::Finish, c)
    } else {
        match msg {
            None => (ConsumerAction::Finish, VideoConsumer { pacer: c.pacer, closed: true }),
            Some(f) => {
                let (d, p) = frame_outcome(c.pacer, f.pts, f.timebase, elapsed);
                (ConsumerAction::Show(d), VideoConsumer { pacer: p, closed: false })
            },
        }
    }
}

/// The state after a run of receives.
pub open spec fn consumer_after(c: VideoConsumer, msgs: Seq<Option<FrameStamp>>, elapsed: Seq<u64>) -> VideoConsumer
    decreases msgs.len(),
{
    if msgs.len() == 0 {
        c
    } else {
        consumer_step(consumer_after(c, msgs.drop_last(), elapsed), msgs.last(), elapsed[msgs.len() - 1]).1
    }
}

/// The action of the last receive of a non-empty run.
pub open spec fn consumer_last_action(c: VideoConsumer, msgs: Seq<Option<FrameStamp>>, elapsed: Seq<u64>) -> ConsumerAction
    recommends
        msgs.len() > 0,
{
    consumer_step(consumer_after(c, msgs.drop_last(), elapsed), msgs.last(), elapsed[msgs.len() - 1]).0
}

/// Channel closure propagates as a graceful end: in any run of receives, the
/// receive that finds the channel closed finishes the loop, and so does every
/// later one.
pub proof fn lemma_closure_finishes(
    c: VideoConsumer,
    msgs: Seq<Option<FrameStamp>>,
    elapsed: Seq<u64>,
    k: int,
    j: int,
)
    requires
        0 <= k <= j < msgs.len(),
        msgs[k].is_none(),
    ensures
        consumer_last_action(c, msgs.take(j + 1), elapsed) == ConsumerAction::Finish,
        consumer_after(c, msgs.take(j + 1), elapsed).closed,
    decreases j - k,
{
    assert(msgs.take(j + 1).drop_last() =~= msgs.take(j));
    assert(msgs.take(j + 1).last() == msgs[j]);
    if j > k {
        lemma_closure_finishes(c, msgs, elapsed, k, j - 1);
        assert(msgs.take(j) == msgs.take((j - 1) + 1));
    }
}

impl VideoConsumer {
    /// A consumer that has received nothing.
    pub fn new() -> (r: VideoConsumer)
        ensures
            r.pacer.prev_pts.is_none(),
            !r.closed,
    {
        VideoConsumer { pacer: Pacer::new(), closed: false }
    }

    /// Handles one receive: a frame is paced by its timestamp; `None`, the
    /// channel found closed, finishes the consumer for good.
    pub fn on_receive(&mut self, msg: Option<FrameStamp>, elapsed_ns: u64) -> (r: ConsumerAction)
        ensures
            (r, *final(self)) == consumer_step(*old(self), msg, elapsed_ns),
    {
        if self.closed {
            return ConsumerAction::Finish;
        }
        match msg {
            None => self.on_closed(),
            Some(f) => self.on_frame(f.pts, f.timebase, elapsed_ns),
        }
    }

    /// Handles a frame with timestamp `pts` in ticks of `tb`, `elapsed_ns`
    /// after the previous frame was shown.
    pub fn on_frame(&mut self, pts: Option<i64>, tb: Option<Timebase>, elapsed_ns: u64) -> (r:
        ConsumerAction)
        ensures
            old(self).closed ==> r == ConsumerAction::Finish && *final(self) == *old(self),
            !old(self).closed ==> r == ConsumerAction::Show(
                frame_outcome(old(self).pacer, pts, tb, elapsed_ns).0,
            ) && final(self).pacer == frame_outcome(old(self).pacer, pts, tb, elapsed_ns).1
                && !final(self).closed,
    {
        if self.closed {
            return ConsumerAction::Finish;
        }
        let ns = match (pts, tb) {
            (Some(p), Some(t)) => pts_to_nanos(p, t),
            _ => None,
        };
        match ns {
            Some(n) => ConsumerAction::Show(self.pacer.schedule(n, elapsed_ns)),
            None => ConsumerAction::Show(0),
        }
    }

    /// Handles the closing of the frame channel: the producer is gone.
    pub fn on_closed(&mut self) -> (r: ConsumerAction)
        ensures
            r == ConsumerAction::Finish,
            final(self).closed,
            final(self).pacer == old(self).pacer,
    {
        self.closed = true;
        ConsumerAction::Finish
    }
}

} // verus!
