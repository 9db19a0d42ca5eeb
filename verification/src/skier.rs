//! The skier: a sprite that cycles through its frames at a fixed cadence,
//! whatever the snow does.
use vstd::prelude::*;
use vstd::arithmetic::div_mod::{lemma_fundamental_div_mod, lemma_hoist_over_denominator,
    lemma_mod_multiples_vanish};

verus! {

/// Frames in the skier's sprite sheet.
pub const FRAMES: u32 = 12;

/// Microseconds that the skier stays on a frame.
pub const PERIOD: u64 = 100_000;

/// The skier's animation: the frame on show, the time since it came on,
/// and how long a frame stays, both in microseconds.
#[derive(Clone, Copy, Debug, PartialEq, Eq, Structural)]
pub struct SkiLoop {
    pub frame: u32,
    pub elapsed: u64,
    pub period: u64,
}

impl SkiLoop {
    /// The frame is one of the sheet, the period is not zero, and less
    /// than a period has passed since the frame came on.
    pub open spec fn wf(self) -> bool {
        self.frame < FRAMES && 0 < self.period && self.elapsed < self.period
    }

    /// The animation that starts at the first frame.
    pub open spec fn start(period: u64) -> SkiLoop {
        SkiLoop { frame: 0, elapsed: 0, period }
    }

    /// The animation after `delta` more microseconds. The skier moves on
    /// by one frame for each period that has ended, the first frame after
    /// the last, and what is left of the time counts toward the next.
    pub open spec fn incremented(self, delta: u64) -> SkiLoop {
        let total = self.elapsed + delta;
        SkiLoop {
            frame: ((self.frame + total / (self.period as int)) % (FRAMES as int)) as u32,
            elapsed: (total % (self.period as int)) as u64,
            period: self.period,
        }
    }

    /// The animation with the given period that starts at the first
    /// frame, or `None` for a period of zero.
    pub fn new(period: u64) -> (r: Option<SkiLoop>)
        ensures
            r == if period == 0 { None } else { Some(SkiLoop::start(period)) },
            r matches Some(s) ==> s.wf(),
    {
        if period == 0 {
            None
        } else {
            Some(SkiLoop { frame: 0, elapsed: 0, period })
        }
    }

    /// Whether the animation is well formed.
    pub fn is_wf(&self) -> (b: bool)
        ensures
            b == self.wf(),
    {
        self.frame < FRAMES && 0 < self.period && self.elapsed < self.period
    }

    /// Lets `delta` microseconds pass.
    pub fn increment(&mut self, delta: u64)
        requires
            old(self).wf(),
        ensures
            *final(self) == old(self).incremented(delta),
            final(self).wf(),
    {
        let total: u128 = self.elapsed as u128 + delta as u128;
        let period: u128 = self.period as u128;
        let ended: u128 = total / period;
        assert(ended <= total) by (nonlinear_arith)
            requires
                ended == total / period,
                0 <= total,
                1 <= period,
        ;
        self.frame = ((self.frame as u128 + ended) % (FRAMES as u128)) as u32;
        self.elapsed = (total % period) as u64;
    }
}

impl Default for SkiLoop {
    /// The animation that starts at the first frame and stays `PERIOD`
    /// microseconds on each.
    fn default() -> (s: SkiLoop)
        ensures
            s == SkiLoop::start(PERIOD),
            s.wf(),
    {
        SkiLoop { frame: 0, elapsed: 0, period: PERIOD }
    }
}

/// Lets `delta` microseconds pass for the skier and gives the frame of
/// the sprite sheet that is then on show.
pub fn animation(ski: &mut SkiLoop, delta: u64) -> (index: u32)
    requires
        old(ski).wf(),
    ensures
        *final(ski) == old(ski).incremented(delta),
        final(ski).wf(),
        index == final(ski).frame,
        index < FRAMES,
{
    ski.increment(delta);
    ski.frame
}

/// The animation after the steps `deltas`, taken in their order.
pub open spec fn run(s: SkiLoop, deltas: Seq<u64>) -> SkiLoop
    decreases deltas.len(),
{
    if deltas.len() == 0 {
        s
    } else {
        run(s.incremented(deltas.first()), deltas.drop_first())
    }
}

/// The time that the steps `deltas` take together.
pub open spec fn total(deltas: Seq<u64>) -> nat
    decreases deltas.len(),
{
    if deltas.len() == 0 {
        0
    } else {
        deltas.first() as nat + total(deltas.drop_first())
    }
}

/// Whole periods can be taken out of one part of a sum before the rest is
/// added, for the quotient and for the remainder.
proof fn lemma_split_quotient(a: int, b: int, p: int)
    requires
        0 < p,
    ensures
        (a + b) / p == a / p + (a % p + b) / p,
        (a + b) % p == (a % p + b) % p,
{
    lemma_fundamental_div_mod(a, p);
    lemma_hoist_over_denominator(a % p + b, a / p, p as nat);
    lemma_mod_multiples_vanish(a / p, a % p + b, p);
    assert((a / p) * p == p * (a / p)) by (nonlinear_arith);
}

/// The skier keeps time with the clock: it has moved on by one frame for
/// each period that has ended, and carries what is left of the time,
/// however the time was split into steps.
pub proof fn lemma_run_keeps_time(s: SkiLoop, deltas: Seq<u64>)
    requires
        s.wf(),
    ensures
        run(s, deltas).wf(),
        run(s, deltas).period == s.period,
        run(s, deltas).frame == (s.frame + (s.elapsed + total(deltas)) / (s.period as int)) % (
        FRAMES as int),
        run(s, deltas).elapsed == (s.elapsed + total(deltas)) % (s.period as int),
    decreases deltas.len(),
{
    let p = s.period as int;
    if deltas.len() == 0 {
        assert(s.elapsed as int / p == 0 && s.elapsed as int % p == s.elapsed) by (nonlinear_arith)
            requires
                0 <= s.elapsed < p,
        ;
    } else {
        let d = deltas.first();
        let next = s.incremented(d);
        let rest = deltas.drop_first();
        let sum = s.elapsed + d;
        assert(0 <= sum % p < p && 0 <= sum / p) by (nonlinear_arith)
            requires
                0 <= sum,
                0 < p,
        ;
        lemma_run_keeps_time(next, rest);
        lemma_split_quotient(sum, total(rest) as int, p);
    }
}

/// Steps that take as long together leave the skier in the same state,
/// however each of the two times was split.
pub proof fn lemma_run_depends_on_total(s: SkiLoop, first: Seq<u64>, second: Seq<u64>)
    requires
        s.wf(),
        total(first) == total(second),
    ensures
        run(s, first) == run(s, second),
{
    lemma_run_keeps_time(s, first);
    lemma_run_keeps_time(s, second);
}

/// After steps that take `cycles` times as long as the whole sheet does,
/// the skier shows again the frame it showed before, with as much time
/// gone on it as before, however the time was split into steps.
pub proof fn lemma_whole_cycles_return(s: SkiLoop, deltas: Seq<u64>, cycles: nat)
    requires
        s.wf(),
        total(deltas) == cycles * FRAMES * s.period,
    ensures
        run(s, deltas) == s,
{
    lemma_run_keeps_time(s, deltas);
    let p = s.period as int;
    let k = (cycles * FRAMES) as int;
    assert(cycles * FRAMES * s.period == p * k) by (nonlinear_arith)
        requires
            p == s.period,
            k == cycles * FRAMES,
    ;
    lemma_mod_multiples_vanish(k, s.elapsed as int, p);
    lemma_hoist_over_denominator(s.elapsed as int, k, p as nat);
    assert(k * p == p * k) by (nonlinear_arith);
    assert(s.elapsed as int / p == 0 && s.elapsed as int % p == s.elapsed) by (nonlinear_arith)
        requires
            0 <= s.elapsed < p,
    ;
}

} // verus!
