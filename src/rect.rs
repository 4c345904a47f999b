//! Corner-and-size rectangles, their intersection, and the swept-rectangle corrector.

use vstd::prelude::*;

use crate::geometry::{in_unit_range, Unit};

verus! {

/// An axis-aligned rectangle given by its top-left corner and its size.
#[derive(Clone, Copy, Debug, PartialEq, Eq, Structural)]
pub struct Rect {
    /// Left edge.
    pub x: Unit,
    /// Top edge.
    pub y: Unit,
    /// Width.
    pub w: Unit,
    /// Height.
    pub h: Unit,
}

/// The larger of `a` and `b`.
pub open spec fn max(a: int, b: int) -> int {
    if a >= b {
        a
    } else {
        b
    }
}

/// The smaller of `a` and `b`.
pub open spec fn min(a: int, b: int) -> int {
    if a <= b {
        a
    } else {
        b
    }
}

impl Rect {
    /// The right and bottom edges are representable.
    pub open spec fn fits(&self) -> bool {
        in_unit_range(self.x + self.w) && in_unit_range(self.y + self.h)
    }

    /// Creates a rectangle, or `None` when the width or the height is negative, or when
    /// the right or bottom edge lies beyond the range of `Unit`.
    pub fn new(x: Unit, y: Unit, w: Unit, h: Unit) -> (r: Option<Rect>)
        ensures
            r == (if w >= 0 && h >= 0 && in_unit_range(x + w) && in_unit_range(y + h) {
                Some(Rect { x, y, w, h })
            } else {
                None
            }),
    {
        if w < 0 || h < 0 || x > Unit::MAX - w || y > Unit::MAX - h {
            None
        } else {
            Some(Rect { x, y, w, h })
        }
    }
}

/// The common part of `a` and `b`, if it has a positive area.
///
/// Rectangles whose edges merely touch have no intersection.
pub open spec fn intersection(a: Rect, b: Rect) -> Option<Rect> {
    let left = max(a.x as int, b.x as int);
    let right = min(a.x + a.w, b.x + b.w);
    let top = max(a.y as int, b.y as int);
    let bottom = min(a.y + a.h, b.y + b.h);
    if left < right && top < bottom {
        Some(
            Rect {
                x: left as Unit,
                y: top as Unit,
                w: (right - left) as Unit,
                h: (bottom - top) as Unit,
            },
        )
    } else {
        None
    }
}

/// Returns the intersection of `a` and `b`, or `None` when it has no area.
pub fn intersect(a: Rect, b: Rect) -> (r: Option<Rect>)
    requires
        a.fits(),
        b.fits(),
    ensures
        r == intersection(a, b),
{
    let left = if a.x >= b.x {
        a.x
    } else {
        b.x
    };
    let right = if a.x + a.w <= b.x + b.w {
        a.x + a.w
    } else {
        b.x + b.w
    };
    let top = if a.y >= b.y {
        a.y
    } else {
        b.y
    };
    let bottom = if a.y + a.h <= b.y + b.h {
        a.y + a.h
    } else {
        b.y + b.h
    };
    if left < right && top < bottom {
        Some(Rect { x: left, y: top, w: right - left, h: bottom - top })
    } else {
        None
    }
}

/// Whether `r` intersects any of `solids`.
pub open spec fn hits_any(r: Rect, solids: Seq<Rect>) -> bool {
    exists|i: int| 0 <= i < solids.len() && #[trigger] intersection(r, solids[i]) is Some
}

/// Returns `projected` when it intersects none of `solids`, else `original` unchanged.
///
/// Only the destination is tested, not the path to it: a large displacement can pass
/// through a thin solid.
pub fn resolve(original: Rect, projected: Rect, solids: &[Rect]) -> (r: Rect)
    requires
        projected.fits(),
        forall|i: int| 0 <= i < solids@.len() ==> (#[trigger] solids@[i]).fits(),
    ensures
        r == (if hits_any(projected, solids@) {
            original
        } else {
            projected
        }),
{
    let mut i: usize = 0;
    while i < solids.len()
        invariant
            projected.fits(),
            forall|j: int| 0 <= j < solids@.len() ==> (#[trigger] solids@[j]).fits(),
            0 <= i <= solids@.len(),
            forall|j: int| 0 <= j < i ==> #[trigger] intersection(projected, solids@[j]) is None,
        decreases solids@.len() - i,
    {
        if intersect(projected, solids[i]).is_some() {
            return original;
        }
        i = i + 1;
    }
    projected
}

/// Intersection does not depend on the order of its arguments.
pub proof fn lemma_intersection_commutes(a: Rect, b: Rect)
    ensures
        intersection(a, b) == intersection(b, a),
{
}

} // verus!
