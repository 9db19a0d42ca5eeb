//! The frame clock: the time that a frame steps through, and a smoothed
//! frame rate for display. The rate is for the eye alone; nothing in the
//! simulation reads it.
use vstd::prelude::*;
use crate::fixed::MICROS_PER_SECOND;

verus! {

/// The time that a frame steps through when the host reports `raw`
/// microseconds since the frame before: `raw` itself, or `max_delta`
/// after a stall.
pub open spec fn clamped_delta(raw: u64, max_delta: u64) -> u64 {
    if raw > max_delta {
        max_delta
    } else {
        raw
    }
}

/// The time that a frame steps through when the host reports `raw`
/// microseconds.
pub fn frame_delta(raw: u64, max_delta: u64) -> (dt: u64)
    ensures
        dt == clamped_delta(raw, max_delta),
        dt <= raw,
        dt <= max_delta,
{
    if raw > max_delta {
        max_delta
    } else {
        raw
    }
}

/// The time that the frames `samples` took together, in microseconds.
pub open spec fn span(samples: Seq<u64>) -> nat
    decreases samples.len(),
{
    if samples.len() == 0 {
        0
    } else {
        span(samples.drop_last()) + samples.last() as nat
    }
}

/// The last `capacity` of `samples`, or all of them if they are fewer.
pub open spec fn latest(samples: Seq<u64>, capacity: nat) -> Seq<u64> {
    if samples.len() > capacity {
        samples.skip(samples.len() - capacity)
    } else {
        samples
    }
}

/// Frames per second over the frames `samples`, rounded down: their
/// number divided by the time they took. There is no rate while no time
/// has passed.
pub open spec fn rate(samples: Seq<u64>) -> Option<u64> {
    if span(samples) == 0 {
        None
    } else {
        Some((samples.len() * MICROS_PER_SECOND / (span(samples) as int)) as u64)
    }
}

/// The durations of the most recent frames, oldest first, for a moving
/// average of the frame rate.
#[derive(Clone, Debug)]
pub struct FrameRate {
    pub samples: Vec<u64>,
    pub capacity: u32,
}

impl FrameRate {
    /// The window holds a frame at least, and no more than it may.
    pub open spec fn wf(self) -> bool {
        0 < self.capacity && self.samples@.len() <= self.capacity
    }

    /// An empty window over `capacity` frames, or `None` for a window
    /// over no frame.
    pub fn new(capacity: u32) -> (r: Option<FrameRate>)
        ensures
            r is Some <==> capacity > 0,
            r matches Some(f) ==> f.wf() && f.capacity == capacity && f.samples@ == Seq::<
                u64,
            >::empty(),
    {
        if capacity == 0 {
            None
        } else {
            Some(FrameRate { samples: Vec::new(), capacity })
        }
    }

    /// Whether the window is well formed.
    pub fn is_wf(&self) -> (b: bool)
        ensures
            b == self.wf(),
    {
        0 < self.capacity && self.samples.len() <= self.capacity as usize
    }

    /// Takes in the duration of one more frame, in microseconds, and
    /// forgets the oldest one if the window is full.
    pub fn record(&mut self, delta: u64)
        requires
            old(self).wf(),
        ensures
            final(self).wf(),
            final(self).capacity == old(self).capacity,
            final(self).samples@ == latest(old(self).samples@.push(delta), old(self).capacity as nat),
    {
        if self.samples.len() >= self.capacity as usize {
            self.samples.remove(0);
        }
        self.samples.push(delta);
        assert(self.samples@ =~= latest(old(self).samples@.push(delta), old(self).capacity as nat));
    }

    /// Frames per second, averaged over the window and rounded down.
    pub fn average(&self) -> (fps: Option<u64>)
        requires
            self.wf(),
        ensures
            fps == rate(self.samples@),
    {
        let n = self.samples.len();
        let mut sum: u128 = 0;
        let mut i: usize = 0;
        assert(self.samples@.take(0) =~= Seq::<u64>::empty());
        while i < n
            invariant
                i <= n,
                n == self.samples@.len(),
                n <= u32::MAX,
                sum == span(self.samples@.take(i as int)),
                sum <= i * u64::MAX,
            decreases n - i,
        {
            assert(self.samples@.take(i + 1).drop_last() =~= self.samples@.take(i as int));
            sum = sum + self.samples[i] as u128;
            i += 1;
        }
        assert(self.samples@.take(n as int) =~= self.samples@);
        if sum == 0 {
            None
        } else {
            let frames: u128 = n as u128 * MICROS_PER_SECOND as u128;
            assert(frames / sum <= frames) by (nonlinear_arith)
                requires
                    frames >= 0,
                    sum >= 1,
            ;
            Some((frames / sum) as u64)
        }
    }
}

/// Takes in the duration of the frame that has passed and gives the
/// smoothed frame rate to show.
pub fn framerate(sink: &mut FrameRate, delta: u64) -> (fps: Option<u64>)
    requires
        old(sink).wf(),
    ensures
        final(sink).wf(),
        final(sink).capacity == old(sink).capacity,
        final(sink).samples@ == latest(old(sink).samples@.push(delta), old(sink).capacity as nat),
        fps == rate(final(sink).samples@),
{
    sink.record(delta);
    sink.average()
}

} // verus!
