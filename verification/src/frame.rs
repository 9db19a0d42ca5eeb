//! The frame: the stages in their order, run once per tick of the host.
use vstd::prelude::*;
use rand::rngs::StdRng;
use crate::clock::{clamped_delta, frame_delta};
use crate::particle::Particle;
use crate::rules::{quota, Boundary, Replenish, Rules};
use crate::skier::{animation, SkiLoop, PERIOD};
use crate::snow::{all_advanced, all_in_range, all_perturbed, is_replenished, is_scattered,
    lemma_perturbed_is_finite, lemma_replenished_is_in_range, lemma_updated_is_in_range,
    positions_updated, recycle, scatter, snow_velocity, survives, survivors, update_position};
use crate::viewport::Viewport;

verus! {

/// All that a frame changes: the field of snow and the skier.
#[derive(Clone, Debug)]
pub struct World {
    pub snow: Vec<Particle>,
    pub skier: SkiLoop,
}

/// Whether `after` is what a frame of `dt` microseconds makes of the
/// field `before`: every flake gets a drift added to its velocity, then
/// moves and is sent back or removed as the boundary has it, and then the
/// field is replenished.
pub open spec fn is_snow_frame(
    before: Seq<Particle>,
    after: Seq<Particle>,
    viewport: Viewport,
    rules: Rules,
    dt: u64,
) -> bool {
    exists|perturbed: Seq<Particle>, placed: Seq<Particle>|
        {
            &&& all_perturbed(before, perturbed)
            &&& #[trigger] positions_updated(perturbed, placed, viewport, dt, rules.boundary)
            &&& is_replenished(
                placed,
                after,
                viewport,
                rules.spawn_line,
                quota(rules.replenish, placed.len()),
            )
        }
}

/// Whether the field `after` and the skier `skier_after` are what a frame
/// makes of `before` and `skier_before` when the host reports `raw`
/// microseconds. The snow steps through no more than `rules.max_delta`
/// of them; the skier goes by the clock and takes them all.
pub open spec fn is_frame(
    before: Seq<Particle>,
    skier_before: SkiLoop,
    after: Seq<Particle>,
    skier_after: SkiLoop,
    viewport: Viewport,
    rules: Rules,
    raw: u64,
) -> bool {
    let dt = clamped_delta(raw, rules.max_delta);
    is_snow_frame(before, after, viewport, rules, dt) && skier_after == skier_before.incremented(
        raw,
    )
}

/// The world at the start: `rules.population` flakes scattered over the
/// viewport, and the skier on its first frame.
pub fn setup(viewport: &Viewport, rules: &Rules, rng: &mut StdRng) -> (world: World)
    requires
        viewport.wf(),
    ensures
        world.snow@.len() == rules.population,
        forall|i: int|
            0 <= i < world.snow@.len() ==> is_scattered(#[trigger] world.snow@[i], *viewport),
        all_in_range(world.snow@),
        world.skier == SkiLoop::start(PERIOD),
        world.skier.wf(),
{
    World { snow: scatter(viewport, rules.population, rng), skier: SkiLoop::default() }
}

/// Runs one frame: velocities, positions, replenishing, and the skier, in
/// this order. After a stall the snow steps through `rules.max_delta`
/// microseconds only, while the skier takes all of `raw` and so keeps
/// time with the clock. The result is the frame of the sprite sheet to
/// show.
pub fn tick(
    world: &mut World,
    viewport: &Viewport,
    raw: u64,
    rules: &Rules,
    rng: &mut StdRng,
) -> (index: u32)
    requires
        viewport.wf(),
        old(world).skier.wf(),
    ensures
        is_frame(
            old(world).snow@,
            old(world).skier,
            final(world).snow@,
            final(world).skier,
            *viewport,
            *rules,
            raw,
        ),
        final(world).skier.wf(),
        index == final(world).skier.frame,
        rules.boundary is Wrap && rules.replenish is Never ==> final(world).snow@.len() == old(
            world,
        ).snow@.len(),
        rules.wf() ==> all_in_range(final(world).snow@),
{
    let dt = frame_delta(raw, rules.max_delta);
    snow_velocity(&mut world.snow, rng);
    update_position(&mut world.snow, viewport, dt, rules.boundary, rng);
    recycle(&mut world.snow, viewport, rules.spawn_line, rules.replenish, rng);
    animation(&mut world.skier, raw)
}

/// A frame of a field that sends its flakes back and is never replenished
/// neither loses nor gains a flake.
pub proof fn lemma_wrapping_frame_keeps_count(
    before: Seq<Particle>,
    after: Seq<Particle>,
    viewport: Viewport,
    rules: Rules,
    dt: u64,
)
    requires
        rules.boundary is Wrap,
        rules.replenish is Never,
        is_snow_frame(before, after, viewport, rules, dt),
    ensures
        after.len() == before.len(),
{
}

/// However many frames a field runs through that sends its flakes back
/// and is never replenished, whatever the viewport and the time of each,
/// it holds as many flakes after every one of them as at the start.
pub proof fn lemma_population_is_conserved(
    fields: Seq<Seq<Particle>>,
    viewports: Seq<Viewport>,
    deltas: Seq<u64>,
    rules: Rules,
    k: int,
)
    requires
        rules.boundary is Wrap,
        rules.replenish is Never,
        fields.len() == deltas.len() + 1,
        viewports.len() == deltas.len(),
        forall|i: int|
            0 <= i < deltas.len() ==> is_snow_frame(
                #[trigger] fields[i],
                fields[i + 1],
                viewports[i],
                rules,
                deltas[i],
            ),
        0 <= k < fields.len(),
    ensures
        fields[k].len() == fields[0].len(),
    decreases k,
{
    if k > 0 {
        lemma_population_is_conserved(fields, viewports, deltas, rules, k - 1);
        lemma_wrapping_frame_keeps_count(
            fields[k - 1],
            fields[k],
            viewports[k - 1],
            rules,
            deltas[k - 1],
        );
    }
}

/// After a frame every flake has a representable position and a
/// representable velocity, whatever the field was before: a sum that
/// leaves the range is cut to it, and nothing beyond it is carried on.
pub proof fn lemma_frame_keeps_flakes_in_range(
    before: Seq<Particle>,
    after: Seq<Particle>,
    viewport: Viewport,
    rules: Rules,
    dt: u64,
)
    requires
        viewport.wf(),
        rules.wf(),
        is_snow_frame(before, after, viewport, rules, dt),
    ensures
        all_in_range(after),
{
    let (perturbed, placed) = choose|perturbed: Seq<Particle>, placed: Seq<Particle>|
        {
            &&& all_perturbed(before, perturbed)
            &&& #[trigger] positions_updated(perturbed, placed, viewport, dt, rules.boundary)
            &&& is_replenished(
                placed,
                after,
                viewport,
                rules.spawn_line,
                quota(rules.replenish, placed.len()),
            )
        };
    lemma_perturbed_is_finite(before, perturbed);
    lemma_updated_is_in_range(perturbed, placed, viewport, dt, rules.boundary);
    lemma_replenished_is_in_range(
        placed,
        after,
        viewport,
        rules.spawn_line,
        quota(rules.replenish, placed.len()),
    );
}

/// A field that is topped up holds its target: it comes out of a frame
/// with exactly `target` flakes if it went in with no more, however many
/// of them the frame removed.
pub proof fn lemma_top_up_holds_target(
    before: Seq<Particle>,
    after: Seq<Particle>,
    viewport: Viewport,
    rules: Rules,
    dt: u64,
    target: usize,
)
    requires
        rules.replenish == (Replenish::TopUp { target }),
        before.len() <= target,
        is_snow_frame(before, after, viewport, rules, dt),
    ensures
        after.len() == target,
{
    let (perturbed, placed) = choose|perturbed: Seq<Particle>, placed: Seq<Particle>|
        {
            &&& all_perturbed(before, perturbed)
            &&& #[trigger] positions_updated(perturbed, placed, viewport, dt, rules.boundary)
            &&& is_replenished(
                placed,
                after,
                viewport,
                rules.spawn_line,
                quota(rules.replenish, placed.len()),
            )
        };
    match rules.boundary {
        Boundary::Wrap => {},
        Boundary::Despawn { below } => {
            let moved = choose|moved: Seq<Particle>|
                all_advanced(perturbed, moved, viewport, dt, false) && placed
                    == #[trigger] survivors(moved, below);
            moved.lemma_filter_len(|p: Particle| survives(p, below));
        },
    }
}

} // verus!
