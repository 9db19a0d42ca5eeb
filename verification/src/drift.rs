//! The random drift of a snowflake: a unit vector that points downward and
//! a little to one side.
use vstd::prelude::*;
use rand::rngs::StdRng;
use rand::Rng;
use crate::fixed::{in_range, SCALE};
use crate::vec2::{is_unit, lemma_unit_length, unit_part, Vec2};

verus! {

/// `rand::rngs::StdRng`, the generator that the host seeds and hands in.
/// It is carried through to `draw` and nothing is known of what is inside.
#[verifier::external_type_specification]
#[verifier::external_body]
pub struct ExStdRng(StdRng);

/// `Rng::gen_range` of the rand crate, called on the half-open range
/// `low..high` of `i64`. The call panics on an empty range, which
/// `requires` leaves out, and its result lies in the range. Nothing else
/// is claimed of it, not even that the draws are spread evenly: two calls
/// on one range may differ. The generator takes its numbers from its own
/// state alone, so no draw depends on the operating system.
#[verifier::external_body]
pub(crate) fn draw(rng: &mut StdRng, low: i64, high: i64) -> (r: i64)
    requires
        low < high,
    ensures
        low <= r < high,
{
    rng.gen_range(low..high)
}

/// The unit vector that points straight down.
pub open spec fn down() -> Vec2 {
    Vec2 { x: 0, y: (0 - SCALE) as i64 }
}

/// Whether `(x, y)` can be drawn for a drift: `x` from half a unit to the
/// left up to, but not including, half a unit to the right, and `y` from
/// one unit down up to, but not including, zero.
pub open spec fn is_draw(x: int, y: int) -> bool {
    -SCALE / 2 <= x < SCALE / 2 && -SCALE <= y < 0
}

/// Whether `v` is the drift that the draw `(x, y)` gives: the unit vector
/// along `(x, y)`, or straight down where `(x, y)` has no direction.
pub open spec fn is_drift_of(v: Vec2, x: int, y: int) -> bool {
    if x == 0 && y == 0 {
        v == down()
    } else {
        v.x == unit_part(x, y) && v.y == unit_part(y, x)
    }
}

/// Whether some draw gives the drift `v`.
pub open spec fn is_drift(v: Vec2) -> bool {
    exists|x: int, y: int| is_draw(x, y) && #[trigger] is_drift_of(v, x, y)
}

/// Every drift has unit length, up to the rounding of its components, and
/// does not point upward.
pub proof fn lemma_drift_is_unit(v: Vec2)
    requires
        is_drift(v),
    ensures
        is_unit(v.x as int, v.y as int),
        v.y <= 0,
        v.in_range(),
{
    let (x, y) = choose|x: int, y: int| is_draw(x, y) && #[trigger] is_drift_of(v, x, y);
    lemma_unit_length(x, y);
}

/// The drift that the draw `(x, y)` gives. A draw without direction gives
/// the vector straight down.
pub fn drift_from_draw(x: i64, y: i64) -> (v: Vec2)
    requires
        in_range(x as int),
        in_range(y as int),
    ensures
        is_drift_of(v, x as int, y as int),
        is_unit(v.x as int, v.y as int),
        y <= 0 ==> v.y <= 0,
        is_draw(x as int, y as int) ==> is_drift(v),
{
    match (Vec2 { x, y }).try_normalize() {
        Some(unit) => {
            proof {
                lemma_unit_length(x as int, y as int);
            }
            unit
        },
        None => {
            let v = Vec2 { x: 0, y: -SCALE };
            assert(is_unit(v.x as int, v.y as int)) by (nonlinear_arith)
                requires
                    v.x == 0,
                    v.y == -1_000_000,
            ;
            v
        },
    }
}

/// Draws a drift: `x` and `y` uniformly from the ranges of `is_draw`, then
/// the unit vector along them.
pub fn randomish_velocity(rng: &mut StdRng) -> (v: Vec2)
    ensures
        is_drift(v),
        is_unit(v.x as int, v.y as int),
        v.y <= 0,
        v.in_range(),
{
    let x: i64 = draw(rng, -(SCALE / 2), SCALE / 2);
    let y: i64 = draw(rng, -SCALE, 0);
    let v = drift_from_draw(x, y);
    proof {
        lemma_drift_is_unit(v);
    }
    v
}

} // verus!
