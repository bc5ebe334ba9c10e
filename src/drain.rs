use vstd::prelude::*;
use std::collections::VecDeque;

verus! {

/// The samples of a run of frames, one after the other.
pub open spec fn flat(q: Seq<Vec<i16>>) -> Seq<i16>
    decreases q.len(),
{
    if q.len() == 0 {
        Seq::empty()
    } else {
        q[0]@ + flat(q.skip(1))
    }
}

/// `n` samples of silence.
pub open spec fn zeros(n: nat) -> Seq<i16> {
    Seq::new(n, |i: int| 0i16)
}

/// The first `n` samples of `s`, with silence after its end.
pub open spec fn padded(s: Seq<i16>, n: nat) -> Seq<i16> {
    if n <= s.len() {
        s.take(n as int)
    } else {
        s + zeros((n - s.len()) as nat)
    }
}

/// What is left of `s` once `n` samples have been taken from it.
pub open spec fn rest(s: Seq<i16>, n: nat) -> Seq<i16> {
    if n <= s.len() {
        s.skip(n as int)
    } else {
        Seq::empty()
    }
}

/// A frame appended to a run adds its samples at the end.
pub proof fn lemma_flat_push(q: Seq<Vec<i16>>, x: Vec<i16>)
    ensures
        flat(q.push(x)) == flat(q) + x@,
    decreases q.len(),
{
    if q.len() == 0 {
        assert(q.push(x).skip(1) =~= Seq::<Vec<i16>>::empty());
        assert(q.push(x)[0] == x);
        assert(flat(q.push(x).skip(1)) =~= Seq::<i16>::empty());
        assert(flat(q) =~= Seq::<i16>::empty());
        assert(flat(q.push(x)) =~= x@);
    } else {
        assert(q.push(x).skip(1) =~= q.skip(1).push(x));
        lemma_flat_push(q.skip(1), x);
        assert(flat(q.push(x)) =~= flat(q) + x@);
    }
}

/// The samples of the first `i` frames of a run are a prefix of its samples.
proof fn lemma_flat_prefix_len(q: Seq<Vec<i16>>, i: int)
    requires
        0 <= i <= q.len(),
    ensures
        flat(q.take(i)).len() <= flat(q).len(),
    decreases q.len(),
{
    if i > 0 {
        assert(q.take(i).skip(1) =~= q.skip(1).take(i - 1));
        lemma_flat_prefix_len(q.skip(1), i - 1);
    }
}

/// Taking `k` more samples of a stream of which `pos` were taken.
proof fn lemma_advance(s: Seq<i16>, pos: nat, k: nat)
    requires
        pos + k <= s.len(),
    ensures
        padded(s, pos + k) =~= padded(s, pos) + rest(s, pos).take(k as int),
        rest(s, pos + k) =~= rest(s, pos).skip(k as int),
{
}

/// Once a stream is used up, what follows is silence.
proof fn lemma_pad_end(s: Seq<i16>, pos: nat, n: nat)
    requires
        rest(s, pos).len() == 0,
        pos <= n,
    ensures
        padded(s, pos) + zeros((n - pos) as nat) =~= padded(s, n),
        rest(s, n) =~= Seq::<i16>::empty(),
{
}

/// The samples that `k` successive callbacks, each with an output of `len`
/// samples, deliver from the stream `s`: each takes its silence-padded share
/// of what the earlier ones left.
pub open spec fn delivered(s: Seq<i16>, len: nat, k: nat) -> Seq<i16>
    decreases k,
{
    if k == 0 {
        Seq::empty()
    } else {
        padded(s, len) + delivered(rest(s, len), len, (k - 1) as nat)
    }
}

/// Two successive takes deliver what one take of their joint length does.
proof fn lemma_two_takes(s: Seq<i16>, a: nat, b: nat)
    ensures
        padded(s, a) + padded(rest(s, a), b) =~= padded(s, a + b),
        rest(rest(s, a), b) =~= rest(s, a + b),
{
}

/// Audio drain exactness: however the decoded frames are cut and whatever the
/// callback length, successive callbacks deliver the frames' samples exactly
/// once, in order, without gap or repetition, and silence after them.
pub proof fn lemma_drain_exact(frames: Seq<Vec<i16>>, len: nat, k: nat)
    ensures
        delivered(flat(frames), len, k) == padded(flat(frames), len * k),
{
    lemma_delivered(flat(frames), len, k);
}

proof fn lemma_delivered(s: Seq<i16>, len: nat, k: nat)
    ensures
        delivered(s, len, k) == padded(s, len * k),
    decreases k,
{
    if k == 0 {
        assert(padded(s, 0) =~= Seq::<i16>::empty());
    } else {
        lemma_delivered(rest(s, len), len, (k - 1) as nat);
        lemma_two_takes(s, len, len * (k - 1) as nat);
        assert(len + len * (k - 1) as nat == len * k) by (nonlinear_arith)
            requires
                k > 0,
        ;
    }
}

/// The number of interleaved values in an audio frame of `samples` samples
/// per channel over `channels` channels, where it fits in `usize`.
pub fn frame_values(samples: usize, channels: usize) -> (r: Option<usize>)
    ensures
        r.is_some() <==> samples * channels <= usize::MAX,
        r.is_some() ==> r.unwrap() == samples * channels,
{
    samples.checked_mul(channels)
}

/// The cursor of the audio output over the frame it is playing.
///
/// A frame is held only while some of its samples are still to be played:
/// the offset is always below its length, and a frame is let go as soon as
/// its last sample is taken.
#[derive(Debug)]
pub struct AudioDrain {
    pub current: Option<Vec<i16>>,
    pub offset: usize,
}

impl AudioDrain {
    /// The cursor stands inside the held frame, or at zero with none held.
    pub open spec fn inv(&self) -> bool {
        match self.current {
            None => self.offset == 0,
            Some(f) => self.offset < f.len(),
        }
    }

    /// The samples of the held frame that are still to be played.
    pub open spec fn pending(&self) -> Seq<i16> {
        match self.current {
            None => Seq::empty(),
            Some(f) => f@.skip(self.offset as int),
        }
    }

    /// All that is still to be played: the rest of the held frame, then the
    /// queued frames in order.
    pub open spec fn stream(&self, queue: Seq<Vec<i16>>) -> Seq<i16> {
        self.pending() + flat(queue)
    }

    /// A cursor that holds no frame.
    pub fn new() -> (r: AudioDrain)
        ensures
            r.inv(),
            r.current.is_none(),
            r.pending() == Seq::<i16>::empty(),
    {
        AudioDrain { current: None, offset: 0 }
    }

    /// Whether a new frame must be fetched before more samples can be played.
    pub fn needs_frame(&self) -> (r: bool)
        requires
            self.inv(),
        ensures
            r == self.current.is_none(),
            r <==> self.pending().len() == 0,
    {
        self.current.is_none()
    }

    /// Takes the next frame to play; a frame with no samples is let go at once.
    pub fn load(&mut self, frame: Vec<i16>)
        requires
            old(self).inv(),
            old(self).current.is_none(),
        ensures
            final(self).inv(),
            final(self).pending() == frame@,
    {
        if frame.len() > 0 {
            self.current = Some(frame);
            self.offset = 0;
            assert(frame@.skip(0) =~= frame@);
        } else {
            assert(frame@ =~= Seq::<i16>::empty());
        }
    }

    /// Copies as many pending samples as fit into `out` from position `pos`,
    /// and returns the position after the last one copied.
    pub fn drain_into(&mut self, out: &mut Vec<i16>, pos: usize) -> (r: usize)
        requires
            old(self).inv(),
            pos <= old(out).len(),
        ensures
            final(self).inv(),
            final(out).len() == old(out).len(),
            r - pos == if old(self).pending().len() < old(out).len() - pos {
                old(self).pending().len() as int
            } else {
                old(out).len() - pos
            },
            final(out)@ =~= old(out)@.take(pos as int) + old(self).pending().take(r - pos)
                + old(out)@.skip(r as int),
            final(self).pending() =~= old(self).pending().skip(r - pos),
    {
        let ghost out0 = out@;
        let ghost p0 = self.pending();
        let (k, exhausted) = match &self.current {
            None => (0, false),
            Some(f) => {
                let avail = f.len() - self.offset;
                let room = out.len() - pos;
                let k: usize = if avail < room { avail } else { room };
                let mut i: usize = 0;
                while i < k
                    invariant
                        i <= k,
                        k <= room,
                        room == out.len() - pos,
                        pos <= out.len(),
                        out.len() == out0.len(),
                        self.offset + k <= f.len(),
                        p0 == f@.skip(self.offset as int),
                        out@ =~= out0.take(pos as int) + p0.take(i as int) + out0.skip(pos + i),
                    decreases k - i,
                {
                    out.set(pos + i, f[self.offset + i]);
                    i = i + 1;
                }
                (k, k == avail)
            },
        };
        if exhausted {
            self.current = None;
            self.offset = 0;
        } else {
            self.offset = self.offset + k;
        }
        pos + k
    }

    /// Fills `out` with silence from position `pos` to its end.
    pub fn fill_silence(out: &mut Vec<i16>, pos: usize)
        requires
            pos <= old(out).len(),
        ensures
            final(out)@ =~= old(out)@.take(pos as int) + zeros((old(out).len() - pos) as nat),
    {
        let ghost out0 = out@;
        let mut i: usize = pos;
        while i < out.len()
            invariant
                pos <= i <= out.len(),
                out.len() == out0.len(),
                out@ =~= out0.take(pos as int) + zeros((i - pos) as nat) + out0.skip(i as int),
            decreases out.len() - i,
        {
            out.set(i, 0);
            i = i + 1;
        }
    }

    /// Whether what is still to be played, the held frame and then `queue`,
    /// holds at least `need` samples.
    pub fn covers(&self, queue: &VecDeque<Vec<i16>>, need: usize) -> (r: bool)
        requires
            self.inv(),
        ensures
            r == (self.stream(queue@).len() >= need),
    {
        let mut total: usize = match &self.current {
            None => 0,
            Some(f) => f.len() - self.offset,
        };
        if total >= need {
            return true;
        }
        let mut i: usize = 0;
        while i < queue.len()
            invariant
                i <= queue@.len(),
                total < need,
                total == self.pending().len() + flat(queue@.take(i as int)).len(),
            decreases queue@.len() - i,
        {
            proof {
                assert(queue@.take(i + 1) =~= queue@.take(i as int).push(queue@[i as int]));
                lemma_flat_push(queue@.take(i as int), queue@[i as int]);
            }
            let len = queue[i].len();
            if len >= need - total {
                proof {
                    lemma_flat_prefix_len(queue@, i + 1);
                }
                return true;
            }
            total = total + len;
            i = i + 1;
        }
        assert(queue@.take(i as int) =~= queue@);
        false
    }

    /// Fills the whole of `out` from the held frame and then from `queue`,
    /// frame after frame, and with silence once both are used up.
    ///
    /// `out` receives the first samples of what was still to be played,
    /// silence-padded, and exactly those samples are no longer pending.
    pub fn callback(&mut self, out: &mut Vec<i16>, queue: &mut VecDeque<Vec<i16>>)
        requires
            old(self).inv(),
        ensures
            final(self).inv(),
            final(out).len() == old(out).len(),
            final(out)@ == padded(old(self).stream(old(queue)@), old(out).len() as nat),
            final(self).stream(final(queue)@) == rest(
                old(self).stream(old(queue)@),
                old(out).len() as nat,
            ),
    {
        let ghost s0 = self.stream(queue@);
        let n = out.len();
        let mut pos: usize = 0;
        assert(out@.take(0) =~= padded(s0, 0));
        assert(rest(s0, 0) =~= s0);
        while pos < n
            invariant
                self.inv(),
                pos <= n,
                out.len() == n,
                out@.take(pos as int) =~= padded(s0, pos as nat),
                self.stream(queue@) =~= rest(s0, pos as nat),
            decreases n - pos, queue@.len(),
        {
            if self.needs_frame() {
                let ghost q_before = queue@;
                match queue.pop_front() {
                    Some(f) => {
                        proof {
                            assert(flat(q_before) == q_before[0]@ + flat(q_before.skip(1)));
                            assert(queue@ =~= q_before.skip(1));
                        }
                        self.load(f);
                        assert(self.stream(queue@) =~= rest(s0, pos as nat));
                    },
                    None => {
                        proof {
                            lemma_pad_end(s0, pos as nat, n as nat);
                        }
                        let ghost before = out@;
                        AudioDrain::fill_silence(out, pos);
                        assert(out@.take(n as int) =~= before.take(pos as int) + zeros((n - pos) as nat));
                        pos = n;
                        assert(self.stream(queue@) =~= rest(s0, pos as nat));
                    },
                }
            }
            if pos < n {
                let ghost before = out@;
                let ghost p = self.pending();
                let next = self.drain_into(out, pos);
                proof {
                    let k = (next - pos) as nat;
                    assert(rest(s0, pos as nat) =~= p + flat(queue@));
                    if k > 0 {
                        assert(rest(s0, pos as nat).len() > 0);
                        lemma_advance(s0, pos as nat, k);
                        assert(out@.take(next as int) =~= before.take(pos as int) + p.take(k as int));
                        assert(self.stream(queue@) =~= rest(s0, pos as nat).skip(k as int));
                    } else {
                        assert(out@ =~= before);
                        assert(self.stream(queue@) =~= rest(s0, pos as nat));
                    }
                }
                pos = next;
            }
        }
        assert(out@.take(n as int) =~= out@);
    }
}

} // verus!
