//! The viewport: the rectangle, centred on the origin, that the snow
//! crosses, and how a point that leaves it comes back.
use vstd::prelude::*;
use crate::fixed::LIMIT;
use crate::vec2::Vec2;

verus! {

/// The size of the host's window, in sub-units. The window spans
/// `-width / 2` to `width / 2` and `-height / 2` to `height / 2`; the
/// bounds are compared without rounding, as `2 * x` against `width`.
#[derive(Clone, Copy, Debug, PartialEq, Eq, Structural)]
pub struct Viewport {
    pub width: i64,
    pub height: i64,
}

impl Viewport {
    /// A viewport has an extent on both axes, and both are representable.
    pub open spec fn wf(self) -> bool {
        0 < self.width <= LIMIT && 0 < self.height <= LIMIT
    }

    /// Whether `x` lies between the left edge and the right edge, the
    /// right edge excluded.
    pub open spec fn spans(self, x: int) -> bool {
        -self.width <= 2 * x < self.width
    }

    /// Whether `y` lies between the bottom edge and the top edge, the top
    /// edge excluded.
    pub open spec fn rises(self, y: int) -> bool {
        -self.height <= 2 * y < self.height
    }

    /// Whether `p` lies in the viewport.
    pub open spec fn contains(self, p: Vec2) -> bool {
        self.spans(p.x as int) && self.rises(p.y as int)
    }

    /// Whether `p` is beyond an edge that sends it back: the left and the
    /// right edge always, the bottom edge where `bottom` is set. No point
    /// is sent back from the top.
    pub open spec fn crosses(self, p: Vec2, bottom: bool) -> bool {
        ||| bottom && 2 * p.y < -self.height
        ||| 2 * p.x > self.width
        ||| 2 * p.x < -self.width
    }

    /// Where `p` comes back: one height up from below the bottom edge,
    /// where `bottom` is set, and one width across from beyond the right
    /// or the left edge. The three rules apply one after the other, each
    /// to what the one before left.
    pub open spec fn wrap_spec(self, p: Vec2, bottom: bool) -> Vec2 {
        let y = if bottom && 2 * p.y < -self.height {
            p.y + self.height
        } else {
            p.y as int
        };
        let x1 = if 2 * p.x > self.width {
            p.x - self.width
        } else {
            p.x as int
        };
        let x = if 2 * x1 < -self.width {
            x1 + self.width
        } else {
            x1
        };
        Vec2 { x: x as i64, y: y as i64 }
    }

    /// The viewport of the given size, if it is one.
    pub fn new(width: i64, height: i64) -> (r: Option<Viewport>)
        ensures
            r is Some <==> (0 < width <= LIMIT && 0 < height <= LIMIT),
            r matches Some(v) ==> v.width == width && v.height == height && v.wf(),
    {
        if 0 < width && width <= LIMIT && 0 < height && height <= LIMIT {
            Some(Viewport { width, height })
        } else {
            None
        }
    }

    /// Sends `p` back into view where it is beyond an edge, and says
    /// whether it was.
    pub fn wrap(&self, p: Vec2, bottom: bool) -> (r: (Vec2, bool))
        requires
            self.wf(),
            p.in_range(),
        ensures
            r.0 == self.wrap_spec(p, bottom),
            r.1 == self.crosses(p, bottom),
            r.0.in_range(),
            !r.1 ==> r.0 == p,
    {
        let mut q = p;
        let mut crossed = false;
        if bottom && 2 * q.y < -self.height {
            q.y = q.y + self.height;
            crossed = true;
        }
        if 2 * q.x > self.width {
            q.x = q.x - self.width;
            crossed = true;
        }
        if 2 * q.x < -self.width {
            q.x = q.x + self.width;
            crossed = true;
        }
        (q, crossed)
    }
}

/// A point that is sent back stays representable, and one that was in
/// view is not sent anywhere.
pub proof fn lemma_wrap_in_range(viewport: Viewport, p: Vec2, bottom: bool)
    requires
        viewport.wf(),
        p.in_range(),
    ensures
        viewport.wrap_spec(p, bottom).in_range(),
        !viewport.crosses(p, bottom) ==> viewport.wrap_spec(p, bottom) == p,
{
}

} // verus!
