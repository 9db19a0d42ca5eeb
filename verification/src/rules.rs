//! The policies of a simulation: what becomes of a flake that falls out
//! of view, and how the field is replenished.
use vstd::prelude::*;
use crate::fixed::in_range;

verus! {

/// Flakes in a field at the start.
pub const POPULATION: usize = 200;

/// Flakes that an unconditional batch adds in a frame.
pub const BATCH: usize = 10;

/// The height below which a flake is removed, where flakes are removed.
pub const DESPAWN_BELOW: i64 = -200_000_000;

/// The height at which new flakes appear.
pub const SPAWN_LINE: i64 = 200_000_000;

/// The longest frame that the simulation steps through at once, in
/// microseconds. A longer one, after a stall, counts as this long.
pub const MAX_DELTA: u64 = 100_000;

/// What becomes of a flake that falls out of view.
#[derive(Clone, Copy, Debug, PartialEq, Eq, Structural)]
pub enum Boundary {
    /// It comes back one height further up, with a fresh velocity.
    Wrap,
    /// It is removed once it is lower than `below`. The bottom edge of
    /// the viewport plays no part; the left and the right edge still
    /// send flakes back.
    Despawn { below: i64 },
}

/// How the field is replenished at the end of a frame.
#[derive(Clone, Copy, Debug, PartialEq, Eq, Structural)]
pub enum Replenish {
    /// No flake is ever added.
    Never,
    /// As many flakes are added as the field is short of `target`.
    TopUp { target: usize },
    /// `size` flakes are added, whether or not any was removed, so the
    /// field may grow.
    Batch { size: usize },
}

/// The policies of one simulation.
#[derive(Clone, Copy, Debug, PartialEq, Eq, Structural)]
pub struct Rules {
    pub boundary: Boundary,
    pub replenish: Replenish,
    /// The height at which new flakes appear.
    pub spawn_line: i64,
    /// Flakes scattered over the viewport at the start.
    pub population: usize,
    /// The longest frame stepped through at once, in microseconds.
    pub max_delta: u64,
}

/// How many flakes `replenish` adds to a field of `present` flakes.
pub open spec fn quota(replenish: Replenish, present: nat) -> nat {
    match replenish {
        Replenish::Never => 0,
        Replenish::TopUp { target } => if present < target {
            (target - present) as nat
        } else {
            0
        },
        Replenish::Batch { size } => size as nat,
    }
}

/// How many flakes `replenish` adds to a field of `present` flakes.
pub fn spawn_quota(replenish: Replenish, present: usize) -> (n: usize)
    ensures
        n == quota(replenish, present as nat),
{
    match replenish {
        Replenish::Never => 0,
        Replenish::TopUp { target } => if present < target {
            target - present
        } else {
            0
        },
        Replenish::Batch { size } => size,
    }
}

impl Boundary {
    /// Whether the bottom edge sends flakes back.
    pub open spec fn wraps_bottom(self) -> bool {
        self is Wrap
    }
}

impl Rules {
    /// The spawn line is a representable height.
    pub open spec fn wf(self) -> bool {
        in_range(self.spawn_line as int)
    }

    /// A field of fixed size whose flakes come back from every edge but
    /// the top.
    pub fn wrapping() -> (r: Rules)
        ensures
            r == (Rules {
                boundary: Boundary::Wrap,
                replenish: Replenish::Never,
                spawn_line: SPAWN_LINE,
                population: POPULATION,
                max_delta: MAX_DELTA,
            }),
            r.wf(),
    {
        Rules {
            boundary: Boundary::Wrap,
            replenish: Replenish::Never,
            spawn_line: SPAWN_LINE,
            population: POPULATION,
            max_delta: MAX_DELTA,
        }
    }

    /// A field whose flakes are removed below `DESPAWN_BELOW` and that
    /// gains a batch of `BATCH` flakes at `SPAWN_LINE` in every frame.
    pub fn despawning() -> (r: Rules)
        ensures
            r == (Rules {
                boundary: Boundary::Despawn { below: DESPAWN_BELOW },
                replenish: Replenish::Batch { size: BATCH },
                spawn_line: SPAWN_LINE,
                population: POPULATION,
                max_delta: MAX_DELTA,
            }),
            r.wf(),
    {
        Rules {
            boundary: Boundary::Despawn { below: DESPAWN_BELOW },
            replenish: Replenish::Batch { size: BATCH },
            spawn_line: SPAWN_LINE,
            population: POPULATION,
            max_delta: MAX_DELTA,
        }
    }
}

} // verus!
