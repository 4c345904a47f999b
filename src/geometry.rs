//! Points, center-and-half-extent boxes and the overlap test between them.

use vstd::prelude::*;

verus! {

/// The integer type of positions and extents.
pub type Unit = i32;

/// A 2 dimensional mathematical vector (x, y).
#[derive(Clone, Copy, Debug, PartialEq, Eq, Structural)]
pub struct Vec2 {
    /// x component (horizontal)
    pub x: Unit,
    /// y component (vertical)
    pub y: Unit,
}

/// Creates a `Vec2` from its components.
pub fn vec2(x: Unit, y: Unit) -> (r: Vec2)
    ensures
        r.x == x,
        r.y == y,
{
    Vec2 { x, y }
}

/// The midpoint of `a` and `b`, rounded toward `a`.
pub open spec fn center_of(a: int, b: int) -> int {
    if a <= b {
        a + (b - a) / 2
    } else {
        a - (a - b) / 2
    }
}

/// Half the distance between `a` and `b`, rounded down.
pub open spec fn half_extent_of(a: int, b: int) -> int {
    if a <= b {
        (b - a) / 2
    } else {
        (a - b) / 2
    }
}

fn center(v1: Unit, v2: Unit) -> (r: Unit)
    ensures
        r == center_of(v1 as int, v2 as int),
{
    let a = v1 as i64;
    let b = v2 as i64;
    let c = if a <= b {
        a + (b - a) / 2
    } else {
        a - (a - b) / 2
    };
    c as Unit
}

fn halfextent(v1: Unit, v2: Unit) -> (r: Unit)
    ensures
        r == half_extent_of(v1 as int, v2 as int),
{
    let a = v1 as i64;
    let b = v2 as i64;
    let h = if a <= b {
        (b - a) / 2
    } else {
        (a - b) / 2
    };
    h as Unit
}

/// 2D collision entity: a position and a bounding box centered on it.
///
/// `bb` holds the half-extents; the box spans `pos - bb ..= pos + bb` on each axis.
#[derive(Clone, Copy, Debug, PartialEq, Eq, Structural)]
pub struct Entity {
    /// Position. This is the center point of the entity.
    pub pos: Vec2,
    /// Bounding box half-extents, centered on `pos`.
    pub bb: Vec2,
}

/// Whether `a`, displaced by `(dx, dy)`, overlaps `b`.
///
/// Boxes whose edges merely touch do not overlap.
pub open spec fn overlaps(a: Entity, b: Entity, dx: int, dy: int) -> bool {
    &&& abs(a.pos.x + dx - b.pos.x) < a.bb.x + b.bb.x
    &&& abs(a.pos.y + dy - b.pos.y) < a.bb.y + b.bb.y
}

/// Some solid overlaps `e` displaced by `(dx, dy)`.
pub open spec fn blocked_by(solids: Seq<Entity>, e: Entity, dx: int, dy: int) -> bool {
    exists|i: int| 0 <= i < solids.len() && #[trigger] overlaps(e, solids[i], dx, dy)
}

/// The absolute value of `v`.
pub open spec fn abs(v: int) -> int {
    if v < 0 {
        -v
    } else {
        v
    }
}

/// The box of `e` as (left, top, width, height).
pub open spec fn xywh_of(e: Entity) -> (int, int, int, int) {
    (e.pos.x - e.bb.x, e.pos.y - e.bb.y, 2 * e.bb.x, 2 * e.bb.y)
}

/// `v` is representable as a `Unit`.
pub open spec fn in_unit_range(v: int) -> bool {
    Unit::MIN <= v <= Unit::MAX
}

impl Entity {
    /// Creates an entity from two opposite corners `(x1, y1)` and `(x2, y2)` of a rectangle.
    ///
    /// The center is rounded toward the first corner, the half-extents down.
    pub fn from_rect_corners(x1: Unit, y1: Unit, x2: Unit, y2: Unit) -> (r: Self)
        ensures
            r.pos.x == center_of(x1 as int, x2 as int),
            r.pos.y == center_of(y1 as int, y2 as int),
            r.bb.x == half_extent_of(x1 as int, x2 as int),
            r.bb.y == half_extent_of(y1 as int, y2 as int),
    {
        let cx = center(x1, x2);
        let cy = center(y1, y2);
        let hhe = halfextent(x1, x2);
        let vhe = halfextent(y1, y2);
        Self { pos: vec2(cx, cy), bb: vec2(hhe, vhe) }
    }

    /// Creates an entity from its position and bounding box.
    pub fn from_pos_and_bb(pos: Vec2, bb: Vec2) -> (r: Self)
        ensures
            r.pos == pos,
            r.bb == bb,
    {
        Self { pos, bb }
    }

    /// Returns the (x, y, width, height) of the rectangle of this entity.
    pub fn xywh(&self) -> (r: (Unit, Unit, Unit, Unit))
        requires
            in_unit_range(xywh_of(*self).0),
            in_unit_range(xywh_of(*self).1),
            in_unit_range(xywh_of(*self).2),
            in_unit_range(xywh_of(*self).3),
        ensures
            (r.0 as int, r.1 as int, r.2 as int, r.3 as int) == xywh_of(*self),
    {
        (self.pos.x - self.bb.x, self.pos.y - self.bb.y, self.bb.x * 2, self.bb.y * 2)
    }

    /// Returns whether this entity would collide with `other` if its position was offset
    /// by `offset`.
    pub fn would_collide(&self, other: &Entity, offset: Vec2) -> (r: bool)
        ensures
            r == overlaps(*self, *other, offset.x as int, offset.y as int),
    {
        let x = self.pos.x as i64 + offset.x as i64;
        let y = self.pos.y as i64 + offset.y as i64;
        x + (self.bb.x as i64) > other.pos.x as i64 - other.bb.x as i64 && x - (self.bb.x as i64)
            < other.pos.x as i64 + other.bb.x as i64 && y + (self.bb.y as i64) > other.pos.y as i64
            - other.bb.y as i64 && y - (self.bb.y as i64) < other.pos.y as i64 + other.bb.y as i64
    }

    /// Returns whether this entity would collide with any of `solids` if its position was
    /// offset by `offset`.
    pub fn would_collide_any(&self, solids: &[Entity], offset: Vec2) -> (r: bool)
        ensures
            r == blocked_by(solids@, *self, offset.x as int, offset.y as int),
    {
        let mut i: usize = 0;
        while i < solids.len()
            invariant
                0 <= i <= solids@.len(),
                forall|j: int|
                    0 <= j < i ==> !#[trigger] overlaps(
                        *self,
                        solids@[j],
                        offset.x as int,
                        offset.y as int,
                    ),
            decreases solids@.len() - i,
        {
            if self.would_collide(&solids[i], offset) {
                return true;
            }
            i = i + 1;
        }
        false
    }
}

/// Overlap is symmetric: `a` displaced by `(dx, dy)` overlaps `b` exactly when `b`
/// displaced by `(-dx, -dy)` overlaps `a`.
pub proof fn lemma_overlap_symmetric(a: Entity, b: Entity, dx: int, dy: int)
    ensures
        overlaps(a, b, dx, dy) == overlaps(b, a, -dx, -dy),
{
}

} // verus!
