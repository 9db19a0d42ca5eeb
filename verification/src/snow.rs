//! The field of snow: the stages that a frame runs over all flakes.
//!
//! A stage that draws random numbers cannot say which flakes come out of
//! it, only how each relates to the flake that went in. The relations are
//! the spec functions of this module.
use vstd::prelude::*;
use rand::rngs::StdRng;
use crate::drift::{draw, is_drift, lemma_drift_is_unit, randomish_velocity};
use crate::fixed::in_range;
use crate::particle::{lemma_zero_step_is_identity, Particle};
use crate::rules::{quota, spawn_quota, Boundary, Replenish};
use crate::vec2::{is_unit, Vec2};
use crate::viewport::{lemma_wrap_in_range, Viewport};

verus! {

/// Whether `after` is `before` with some drift added to its velocity.
pub open spec fn is_perturbed(before: Particle, after: Particle) -> bool {
    exists|d: Vec2| is_drift(d) && after == #[trigger] before.perturbed_spec(d)
}

/// Whether each flake of `after` is the flake at the same place of
/// `before` with some drift added to its velocity.
pub open spec fn all_perturbed(before: Seq<Particle>, after: Seq<Particle>) -> bool {
    &&& after.len() == before.len()
    &&& forall|i: int| 0 <= i < before.len() ==> is_perturbed(before[i], #[trigger] after[i])
}

/// Whether `after` is `before` moved for `dt` microseconds and sent back
/// into view where it went beyond an edge: with its old velocity where it
/// did not, with a drift for its velocity where it did.
pub open spec fn is_advanced(
    before: Particle,
    after: Particle,
    viewport: Viewport,
    dt: u64,
    bottom: bool,
) -> bool {
    &&& after.position == before.advanced_spec(viewport, dt, bottom).position
    &&& if before.respawns(viewport, dt, bottom) {
        is_drift(after.velocity)
    } else {
        after.velocity == before.velocity
    }
}

/// Whether each flake of `after` is the flake at the same place of
/// `before`, advanced.
pub open spec fn all_advanced(
    before: Seq<Particle>,
    after: Seq<Particle>,
    viewport: Viewport,
    dt: u64,
    bottom: bool,
) -> bool {
    &&& after.len() == before.len()
    &&& forall|i: int|
        0 <= i < before.len() ==> is_advanced(before[i], #[trigger] after[i], viewport, dt, bottom)
}

/// Whether a flake at this height stays in a field that removes flakes
/// lower than `below`.
pub open spec fn survives(p: Particle, below: i64) -> bool {
    p.position.y >= below
}

/// The flakes of `field` that are not lower than `below`, in their order.
pub open spec fn survivors(field: Seq<Particle>, below: i64) -> Seq<Particle> {
    field.filter(|p: Particle| survives(p, below))
}

/// Whether `after` is what a frame of `dt` microseconds makes of the
/// positions in `before` under `boundary`.
pub open spec fn positions_updated(
    before: Seq<Particle>,
    after: Seq<Particle>,
    viewport: Viewport,
    dt: u64,
    boundary: Boundary,
) -> bool {
    match boundary {
        Boundary::Wrap => all_advanced(before, after, viewport, dt, true),
        Boundary::Despawn { below } => exists|moved: Seq<Particle>|
            all_advanced(before, moved, viewport, dt, false) && after == #[trigger] survivors(
                moved,
                below,
            ),
    }
}

/// Whether `p` is a flake as they appear on the line at height `line`:
/// somewhere between the left and the right edge, with a drift for its
/// velocity.
pub open spec fn is_spawned(p: Particle, viewport: Viewport, line: i64) -> bool {
    &&& p.position.y == line
    &&& viewport.spans(p.position.x as int)
    &&& is_drift(p.velocity)
}

/// Whether `after` is `before` followed by `count` flakes that appeared
/// on the line at height `line`.
pub open spec fn is_replenished(
    before: Seq<Particle>,
    after: Seq<Particle>,
    viewport: Viewport,
    line: i64,
    count: nat,
) -> bool {
    &&& after.len() == before.len() + count
    &&& after.subrange(0, before.len() as int) == before
    &&& forall|i: int|
        before.len() <= i < after.len() ==> is_spawned(#[trigger] after[i], viewport, line)
}

/// Whether `p` is a flake as the first scatter places them: somewhere in
/// the viewport, with a drift for its velocity.
pub open spec fn is_scattered(p: Particle, viewport: Viewport) -> bool {
    viewport.contains(p.position) && is_drift(p.velocity)
}

/// Whether every flake of `field` has a representable position and a
/// representable velocity.
pub open spec fn all_in_range(field: Seq<Particle>) -> bool {
    forall|i: int|
        0 <= i < field.len() ==> (#[trigger] field[i]).position.in_range()
            && field[i].velocity.in_range()
}

/// Whether every flake of `field` has a representable velocity.
pub open spec fn all_finite(field: Seq<Particle>) -> bool {
    forall|i: int| 0 <= i < field.len() ==> (#[trigger] field[i]).velocity.in_range()
}

/// Adds a fresh drift to the velocity of every flake.
pub fn snow_velocity(snow: &mut Vec<Particle>, rng: &mut StdRng)
    ensures
        all_perturbed(old(snow)@, final(snow)@),
        all_finite(final(snow)@),
{
    let n = snow.len();
    let ghost before = snow@;
    let mut i: usize = 0;
    while i < n
        invariant
            i <= n,
            snow@.len() == n,
            before.len() == n,
            forall|j: int|
                0 <= j < i ==> is_perturbed(before[j], #[trigger] snow@[j])
                    && snow@[j].velocity.in_range(),
            forall|j: int| i <= j < n ==> #[trigger] snow@[j] == before[j],
        decreases n - i,
    {
        let drift = randomish_velocity(rng);
        let flake = snow[i].perturbed(drift);
        snow.set(i, flake);
        i += 1;
    }
}

/// Moves every flake for `dt` microseconds and sends back into view those
/// that went beyond an edge, each with a fresh drift for its velocity.
fn advance_all(
    snow: &mut Vec<Particle>,
    viewport: &Viewport,
    dt: u64,
    bottom: bool,
    rng: &mut StdRng,
)
    requires
        viewport.wf(),
    ensures
        all_advanced(old(snow)@, final(snow)@, *viewport, dt, bottom),
{
    let n = snow.len();
    let ghost before = snow@;
    let mut i: usize = 0;
    while i < n
        invariant
            i <= n,
            snow@.len() == n,
            before.len() == n,
            viewport.wf(),
            forall|j: int|
                0 <= j < i ==> is_advanced(before[j], #[trigger] snow@[j], *viewport, dt, bottom),
            forall|j: int| i <= j < n ==> #[trigger] snow@[j] == before[j],
        decreases n - i,
    {
        let (mut flake, crossed) = snow[i].advanced(viewport, dt, bottom);
        if crossed {
            flake.velocity = randomish_velocity(rng);
        }
        snow.set(i, flake);
        i += 1;
    }
}

/// Removes the flakes that are lower than `below` and keeps the others in
/// their order.
pub fn despawn_below(snow: &mut Vec<Particle>, below: i64)
    ensures
        final(snow)@ == survivors(old(snow)@, below),
{
    let n = snow.len();
    let ghost before = snow@;
    let mut kept: Vec<Particle> = Vec::new();
    let mut i: usize = 0;
    assert(before.take(0) =~= Seq::<Particle>::empty());
    assert(survivors(Seq::<Particle>::empty(), below) =~= Seq::<Particle>::empty()) by {
        reveal(Seq::filter);
    }
    while i < n
        invariant
            i <= n,
            snow@ == before,
            before.len() == n,
            kept@ == survivors(before.take(i as int), below),
        decreases n - i,
    {
        let flake = snow[i];
        proof {
            assert(before.take(i + 1) =~= before.take(i as int).push(flake));
            before.take(i as int).lemma_filter_push(flake, |p: Particle| survives(p, below));
        }
        if flake.position.y >= below {
            kept.push(flake);
        }
        i += 1;
    }
    assert(before.take(n as int) =~= before);
    *snow = kept;
}

/// What a frame of `dt` microseconds does to the positions: every flake
/// moves at its velocity, and one that went beyond the left or the right
/// edge comes back at the other with a fresh drift for its velocity.
/// Under `Boundary::Wrap` the same holds of the bottom edge; under
/// `Boundary::Despawn` the flakes that are then lower than `below` leave
/// the field.
pub fn update_position(
    snow: &mut Vec<Particle>,
    viewport: &Viewport,
    dt: u64,
    boundary: Boundary,
    rng: &mut StdRng,
)
    requires
        viewport.wf(),
    ensures
        positions_updated(old(snow)@, final(snow)@, *viewport, dt, boundary),
        boundary is Wrap ==> final(snow)@.len() == old(snow)@.len(),
        final(snow)@.len() <= old(snow)@.len(),
        all_finite(old(snow)@) ==> all_in_range(final(snow)@),
{
    let ghost before = snow@;
    match boundary {
        Boundary::Wrap => {
            advance_all(snow, viewport, dt, true, rng);
        },
        Boundary::Despawn { below } => {
            advance_all(snow, viewport, dt, false, rng);
            let ghost moved = snow@;
            despawn_below(snow, below);
            proof {
                moved.lemma_filter_len(|p: Particle| survives(p, below));
            }
        },
    }
    proof {
        if all_finite(before) {
            lemma_updated_is_in_range(before, snow@, *viewport, dt, boundary);
        }
    }
}

/// Adds `count` flakes on the line at height `line`, each at a random
/// place between the left and the right edge and with a fresh drift for
/// its velocity.
pub fn spawn_batch(
    snow: &mut Vec<Particle>,
    viewport: &Viewport,
    line: i64,
    count: usize,
    rng: &mut StdRng,
)
    requires
        viewport.wf(),
    ensures
        is_replenished(old(snow)@, final(snow)@, *viewport, line, count as nat),
        in_range(line as int) && all_in_range(old(snow)@) ==> all_in_range(final(snow)@),
{
    let ghost before = snow@;
    let mut made: usize = 0;
    assert(snow@.subrange(0, before.len() as int) =~= before);
    while made < count
        invariant
            made <= count,
            viewport.wf(),
            is_replenished(before, snow@, *viewport, line, made as nat),
        decreases count - made,
    {
        let x: i64 = draw(rng, -(viewport.width / 2), (viewport.width + 1) / 2);
        let velocity = randomish_velocity(rng);
        let ghost so_far = snow@;
        snow.push(Particle { position: Vec2 { x, y: line }, velocity });
        made += 1;
        assert(snow@.subrange(0, before.len() as int) =~= so_far.subrange(0, before.len() as int));
    }
    proof {
        if in_range(line as int) && all_in_range(before) {
            lemma_replenished_is_in_range(before, snow@, *viewport, line, count as nat);
        }
    }
}

/// Scatters `count` flakes over the viewport, each at a random place and
/// with a fresh drift for its velocity.
pub fn scatter(viewport: &Viewport, count: usize, rng: &mut StdRng) -> (snow: Vec<Particle>)
    requires
        viewport.wf(),
    ensures
        snow@.len() == count,
        forall|i: int| 0 <= i < count ==> is_scattered(#[trigger] snow@[i], *viewport),
        all_in_range(snow@),
{
    let mut snow: Vec<Particle> = Vec::new();
    let mut made: usize = 0;
    while made < count
        invariant
            made <= count,
            viewport.wf(),
            snow@.len() == made,
            forall|i: int| 0 <= i < made ==> is_scattered(#[trigger] snow@[i], *viewport),
            all_in_range(snow@),
        decreases count - made,
    {
        let x: i64 = draw(rng, -(viewport.width / 2), (viewport.width + 1) / 2);
        let y: i64 = draw(rng, -(viewport.height / 2), (viewport.height + 1) / 2);
        let velocity = randomish_velocity(rng);
        snow.push(Particle { position: Vec2 { x, y }, velocity });
        made += 1;
    }
    snow
}

/// Replenishes the field at the end of a frame: adds, on the line at
/// height `line`, as many flakes as `replenish` asks for a field of the
/// present size.
pub fn recycle(
    snow: &mut Vec<Particle>,
    viewport: &Viewport,
    line: i64,
    replenish: Replenish,
    rng: &mut StdRng,
)
    requires
        viewport.wf(),
    ensures
        is_replenished(
            old(snow)@,
            final(snow)@,
            *viewport,
            line,
            quota(replenish, old(snow)@.len()),
        ),
        in_range(line as int) && all_in_range(old(snow)@) ==> all_in_range(final(snow)@),
{
    let count = spawn_quota(replenish, snow.len());
    spawn_batch(snow, viewport, line, count, rng);
}

/// A field of flakes that all stay is its own survivors.
proof fn lemma_all_survive(field: Seq<Particle>, below: i64)
    requires
        forall|i: int| 0 <= i < field.len() ==> survives(#[trigger] field[i], below),
    ensures
        survivors(field, below) == field,
    decreases field.len(),
{
    if field.len() == 0 {
        reveal(Seq::filter);
    } else {
        let front = field.drop_last();
        lemma_all_survive(front, below);
        front.lemma_filter_push(field.last(), |p: Particle| survives(p, below));
        assert(front.push(field.last()) =~= field);
    }
}

/// The velocities that come out of the first stage are representable,
/// whatever went in.
pub proof fn lemma_perturbed_is_finite(before: Seq<Particle>, after: Seq<Particle>)
    requires
        all_perturbed(before, after),
    ensures
        all_finite(after),
{
    assert forall|i: int| 0 <= i < after.len() implies (#[trigger] after[i]).velocity.in_range() by {
        assert(is_perturbed(before[i], after[i]));
    }
}

/// The flakes that come out of the second stage are representable, if
/// the velocities that went in were.
pub proof fn lemma_updated_is_in_range(
    before: Seq<Particle>,
    after: Seq<Particle>,
    viewport: Viewport,
    dt: u64,
    boundary: Boundary,
)
    requires
        viewport.wf(),
        all_finite(before),
        positions_updated(before, after, viewport, dt, boundary),
    ensures
        all_in_range(after),
{
    match boundary {
        Boundary::Wrap => {
            lemma_advanced_is_in_range(before, after, viewport, dt, true);
        },
        Boundary::Despawn { below } => {
            let moved = choose|moved: Seq<Particle>|
                all_advanced(before, moved, viewport, dt, false) && after == #[trigger] survivors(
                    moved,
                    below,
                );
            lemma_advanced_is_in_range(before, moved, viewport, dt, false);
            assert forall|i: int| 0 <= i < after.len() implies (#[trigger] after[i]).position.in_range()
                && after[i].velocity.in_range() by {
                assert(after.contains(after[i]));
                moved.lemma_filter_contains_rev(|p: Particle| survives(p, below), after[i]);
            }
        },
    }
}

/// The flakes that have been advanced are representable, if the
/// velocities that went in were.
proof fn lemma_advanced_is_in_range(
    before: Seq<Particle>,
    after: Seq<Particle>,
    viewport: Viewport,
    dt: u64,
    bottom: bool,
)
    requires
        viewport.wf(),
        all_finite(before),
        all_advanced(before, after, viewport, dt, bottom),
    ensures
        all_in_range(after),
{
    assert forall|i: int| 0 <= i < after.len() implies (#[trigger] after[i]).position.in_range()
        && after[i].velocity.in_range() by {
        assert(is_advanced(before[i], after[i], viewport, dt, bottom));
        lemma_wrap_in_range(viewport, before[i].moved_to(dt), bottom);
        if before[i].respawns(viewport, dt, bottom) {
            lemma_drift_is_unit(after[i].velocity);
        }
    }
}

/// The flakes that come out of the third stage are representable, if
/// those that went in were and the line is at a representable height.
pub proof fn lemma_replenished_is_in_range(
    before: Seq<Particle>,
    after: Seq<Particle>,
    viewport: Viewport,
    line: i64,
    count: nat,
)
    requires
        viewport.wf(),
        in_range(line as int),
        all_in_range(before),
        is_replenished(before, after, viewport, line, count),
    ensures
        all_in_range(after),
{
    assert forall|i: int| 0 <= i < after.len() implies (#[trigger] after[i]).position.in_range()
        && after[i].velocity.in_range() by {
        if i < before.len() {
            assert(after.subrange(0, before.len() as int)[i] == after[i]);
        } else {
            assert(is_spawned(after[i], viewport, line));
            lemma_drift_is_unit(after[i].velocity);
        }
    }
}

/// A frame of no duration leaves the field as it is, if every flake is in
/// view and, where flakes are removed, none is low enough to be.
pub proof fn lemma_zero_step_keeps_field(
    before: Seq<Particle>,
    after: Seq<Particle>,
    viewport: Viewport,
    boundary: Boundary,
)
    requires
        viewport.wf(),
        positions_updated(before, after, viewport, 0, boundary),
        forall|i: int|
            0 <= i < before.len() ==> (#[trigger] before[i]).position.in_range()
                && !viewport.crosses(before[i].position, boundary.wraps_bottom()),
        boundary matches Boundary::Despawn { below } ==> forall|i: int|
            0 <= i < before.len() ==> survives(#[trigger] before[i], below),
    ensures
        after == before,
{
    match boundary {
        Boundary::Wrap => {
            lemma_zero_advance(before, after, viewport, true);
        },
        Boundary::Despawn { below } => {
            let moved = choose|moved: Seq<Particle>|
                all_advanced(before, moved, viewport, 0, false) && after == #[trigger] survivors(
                    moved,
                    below,
                );
            lemma_zero_advance(before, moved, viewport, false);
            lemma_all_survive(before, below);
        },
    }
}

/// Advancing by no time leaves flakes in view as they are.
proof fn lemma_zero_advance(
    before: Seq<Particle>,
    after: Seq<Particle>,
    viewport: Viewport,
    bottom: bool,
)
    requires
        viewport.wf(),
        all_advanced(before, after, viewport, 0, bottom),
        forall|i: int|
            0 <= i < before.len() ==> (#[trigger] before[i]).position.in_range()
                && !viewport.crosses(before[i].position, bottom),
    ensures
        after == before,
{
    assert forall|i: int| 0 <= i < before.len() implies after[i] == before[i] by {
        assert(is_advanced(before[i], after[i], viewport, 0, bottom));
        lemma_zero_step_is_identity(before[i], viewport, bottom);
    }
    assert(after =~= before);
}

/// A field of flakes of which none stays has no survivors.
proof fn lemma_none_survive(field: Seq<Particle>, below: i64)
    requires
        forall|i: int| 0 <= i < field.len() ==> !survives(#[trigger] field[i], below),
    ensures
        survivors(field, below).len() == 0,
    decreases field.len(),
{
    if field.len() == 0 {
        reveal(Seq::filter);
    } else {
        let front = field.drop_last();
        lemma_none_survive(front, below);
        front.lemma_filter_push(field.last(), |p: Particle| survives(p, below));
        assert(front.push(field.last()) =~= field);
    }
}

/// Where flakes are removed and a frame carries every flake lower than
/// `below`, none is left after it; and a batch of `size` on the empty
/// field leaves exactly `size` flakes, each on the line, between the left
/// and the right edge, and with a drift of unit length that does not
/// rise.
pub proof fn lemma_despawn_then_batch(
    before: Seq<Particle>,
    placed: Seq<Particle>,
    after: Seq<Particle>,
    viewport: Viewport,
    dt: u64,
    below: i64,
    line: i64,
    size: usize,
)
    requires
        viewport.wf(),
        forall|i: int| 0 <= i < before.len() ==> (#[trigger] before[i]).moved_to(dt).y < below,
        positions_updated(before, placed, viewport, dt, Boundary::Despawn { below }),
        is_replenished(
            placed,
            after,
            viewport,
            line,
            quota(Replenish::Batch { size }, placed.len()),
        ),
    ensures
        placed.len() == 0,
        after.len() == size,
        forall|i: int|
            0 <= i < after.len() ==> {
                &&& is_spawned(#[trigger] after[i], viewport, line)
                &&& is_unit(after[i].velocity.x as int, after[i].velocity.y as int)
                &&& after[i].velocity.y <= 0
            },
{
    let moved = choose|moved: Seq<Particle>|
        all_advanced(before, moved, viewport, dt, false) && placed == #[trigger] survivors(
            moved,
            below,
        );
    assert forall|i: int| 0 <= i < moved.len() implies !survives(#[trigger] moved[i], below) by {
        assert(is_advanced(before[i], moved[i], viewport, dt, false));
    }
    lemma_none_survive(moved, below);
    assert forall|i: int| 0 <= i < after.len() implies {
        &&& is_spawned(#[trigger] after[i], viewport, line)
        &&& is_unit(after[i].velocity.x as int, after[i].velocity.y as int)
        &&& after[i].velocity.y <= 0
    } by {
        lemma_drift_is_unit(after[i].velocity);
    }
}

} // verus!
