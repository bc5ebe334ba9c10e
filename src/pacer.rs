use vstd::prelude::*;

verus! {

/// How long to wait, in nanoseconds, before showing a frame stamped `pts`,
/// given the timestamp `prev` of the frame shown last and the time `elapsed`
/// since it was shown: what is left of the timestamp gap, never negative.
pub open spec fn delay_spec(prev: Option<i64>, pts: i64, elapsed: u64) -> int {
    match prev {
        None => 0,
        Some(p) => {
            let gap = pts - p;
            if gap > 0 && elapsed < gap {
                gap - elapsed
            } else {
                0
            }
        },
    }
}

/// Paces video frames by their presentation timestamps, in nanoseconds.
///
/// It remembers the timestamp of the frame shown last; the wall-clock time
/// since that frame was shown is measured by the caller and handed in.
#[derive(Clone, Copy, Debug, PartialEq, Eq, Structural)]
pub struct Pacer {
    pub prev_pts: Option<i64>,
}

impl Pacer {
    /// A pacer that has shown no frame yet.
    pub fn new() -> (r: Pacer)
        ensures
            r.prev_pts.is_none(),
    {
        Pacer { prev_pts: None }
    }

    /// The wait before a frame stamped `pts` is shown, `elapsed_ns` after the
    /// previous one: none for the first frame, none where the timestamp does
    /// not move forward, else the timestamp gap less the time already gone.
    pub fn delay_for(&self, pts: i64, elapsed_ns: u64) -> (r: u64)
        ensures
            r as int == delay_spec(self.prev_pts, pts, elapsed_ns),
            self.prev_pts.is_none() ==> r == 0,
            self.prev_pts.is_some() && pts <= self.prev_pts.unwrap() ==> r == 0,
    {
        match self.prev_pts {
            None => 0,
            Some(prev) => {
                let gap: i128 = pts as i128 - prev as i128;
                if gap > 0 && (elapsed_ns as i128) < gap {
                    (gap - elapsed_ns as i128) as u64
                } else {
                    0
                }
            },
        }
    }

    /// Records that the frame stamped `pts` has just been shown.
    pub fn shown(&mut self, pts: i64)
        ensures
            final(self).prev_pts == Some(pts),
    {
        self.prev_pts = Some(pts);
    }

    /// Decides the wait before a frame stamped `pts` and records it as shown:
    /// the caller waits the returned nanoseconds, then shows the frame.
    pub fn schedule(&mut self, pts: i64, elapsed_ns: u64) -> (r: u64)
        ensures
            r as int == delay_spec(old(self).prev_pts, pts, elapsed_ns),
            final(self).prev_pts == Some(pts),
    {
        let r = self.delay_for(pts, elapsed_ns);
        self.shown(pts);
        r
    }
}

} // verus!
