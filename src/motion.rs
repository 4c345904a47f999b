//! Movement with sub-unit accumulation, resolved one whole unit at a time.

use vstd::prelude::*;

use crate::geometry::{abs, blocked_by, in_unit_range, overlaps, vec2, Entity, Unit, Vec2};

verus! {

/// Sub-units in one whole unit: requested motion is given in thousandths of a unit.
pub const SUBUNITS: i32 = 1000;

/// `a` sub-units rounded to the nearest whole unit, ties to the even unit.
pub open spec fn nearest_whole(a: int) -> int {
    if a >= 0 {
        nearest_whole_nonneg(a)
    } else {
        -nearest_whole_nonneg(-a)
    }
}

/// `a >= 0` sub-units rounded to the nearest whole unit, ties to the even unit.
pub open spec fn nearest_whole_nonneg(a: int) -> int {
    let q = a / (SUBUNITS as int);
    let r = a % (SUBUNITS as int);
    if r > SUBUNITS / 2 || (r == SUBUNITS / 2 && q % 2 == 1) {
        q + 1
    } else {
        q
    }
}

/// The coordinate of `e` along the horizontal or the vertical axis.
pub open spec fn coord(e: Entity, horizontal: bool) -> int {
    if horizontal {
        e.pos.x as int
    } else {
        e.pos.y as int
    }
}

/// One unit of displacement in direction `dir` (1 or -1) along an axis.
pub open spec fn unit_step(horizontal: bool, dir: int) -> Vec2 {
    if horizontal {
        Vec2 { x: dir as Unit, y: 0 }
    } else {
        Vec2 { x: 0, y: dir as Unit }
    }
}

/// `e` moved `i` units in direction `dir` (1 or -1) along an axis.
pub open spec fn shifted(e: Entity, horizontal: bool, dir: int, i: int) -> Entity {
    let d = if dir >= 0 {
        i
    } else {
        -i
    };
    if horizontal {
        Entity { pos: Vec2 { x: (e.pos.x + d) as Unit, y: e.pos.y }, bb: e.bb }
    } else {
        Entity { pos: Vec2 { x: e.pos.x, y: (e.pos.y + d) as Unit }, bb: e.bb }
    }
}

/// The direction of `n` unit steps: 1 for a non-negative count, else -1.
pub open spec fn direction(n: int) -> int {
    if n >= 0 {
        1
    } else {
        -1
    }
}

/// The outcomes of asking to move `start` by `n` unit steps along an axis, consulting
/// `blocked` before each step: `end` is `start` moved some `k <= |n|` units toward `n`;
/// `blocked` reported each of those `k` steps free; and either all `|n|` steps were taken
/// (`complete`) or `blocked` reported the next step from `end` obstructed.
pub open spec fn walked<F: Fn(&Entity, Vec2) -> bool>(
    blocked: F,
    start: Entity,
    horizontal: bool,
    n: int,
    end: Entity,
    complete: bool,
) -> bool {
    let dir = direction(n);
    let k = if n >= 0 {
        coord(end, horizontal) - coord(start, horizontal)
    } else {
        coord(start, horizontal) - coord(end, horizontal)
    };
    &&& 0 <= k <= abs(n)
    &&& end == shifted(start, horizontal, dir, k)
    &&& complete == (k == abs(n))
    &&& forall|i: int|
        0 <= i < k ==> blocked.ensures(
            (&#[trigger] shifted(start, horizontal, dir, i), unit_step(horizontal, dir)),
            false,
        )
    &&& !complete ==> blocked.ensures((&end, unit_step(horizontal, dir)), true)
}

/// Adds `amount` to the accumulator and takes out the nearest whole number of units.
fn take_whole_units(accum: &mut i32, amount: i32) -> (n: i32)
    ensures
        n == nearest_whole(*old(accum) + amount),
        *final(accum) == *old(accum) + amount - SUBUNITS * n,
        -(SUBUNITS / 2) <= *final(accum) <= SUBUNITS / 2,
{
    let total = *accum as i64 + amount as i64;
    let mag: i64 = if total >= 0 {
        total
    } else {
        -total
    };
    let q = mag / (SUBUNITS as i64);
    let rem = mag % (SUBUNITS as i64);
    let up: i64 = if rem > (SUBUNITS / 2) as i64 || (rem == (SUBUNITS / 2) as i64 && q % 2 == 1) {
        q + 1
    } else {
        q
    };
    let n: i64 = if total >= 0 {
        up
    } else {
        -up
    };
    *accum = (total - n * (SUBUNITS as i64)) as i32;
    n as i32
}

/// Moves `en` up to `n` unit steps along an axis, stopping before the first step that
/// `blocked` reports obstructed. Returns whether all steps were taken.
fn walk<F: Fn(&Entity, Vec2) -> bool>(
    en: &mut Entity,
    horizontal: bool,
    n: i32,
    blocked: F,
) -> (complete: bool)
    requires
        forall|e: Entity, o: Vec2| blocked.requires((&e, o)),
        in_unit_range(coord(*old(en), horizontal) + n),
    ensures
        walked(blocked, *old(en), horizontal, n as int, *final(en), complete),
{
    let ghost start = *en;
    let dir: i32 = if n >= 0 {
        1
    } else {
        -1
    };
    let count: i64 = if n >= 0 {
        n as i64
    } else {
        -(n as i64)
    };
    let step = if horizontal {
        vec2(dir, 0)
    } else {
        vec2(0, dir)
    };
    let mut k: i64 = 0;
    let mut free = true;
    while free && k < count
        invariant
            forall|e: Entity, o: Vec2| blocked.requires((&e, o)),
            in_unit_range(coord(start, horizontal) + n),
            dir == direction(n as int),
            count == abs(n as int),
            step == unit_step(horizontal, dir as int),
            0 <= k <= count,
            *en == shifted(start, horizontal, dir as int, k as int),
            forall|i: int|
                0 <= i < k ==> blocked.ensures(
                    (&#[trigger] shifted(start, horizontal, dir as int, i), step),
                    false,
                ),
            !free ==> k < count && blocked.ensures((&*en, step), true),
        decreases count - k + (if free { 1int } else { 0int }),
    {
        let here: Entity = *en;
        if blocked(&here, step) {
            free = false;
        } else {
            if horizontal {
                en.pos.x = en.pos.x + dir;
            } else {
                en.pos.y = en.pos.y + dir;
            }
            k = k + 1;
        }
    }
    free
}

/// An [`Entity`] that can move.
///
/// Each axis keeps the part of the requested motion, in sub-units, that has not yet
/// been turned into whole-unit steps.
pub struct MobileEntity {
    /// The [`Entity`] component of this `MobileEntity`.
    pub en: Entity,
    accum_x: i32,
    accum_y: i32,
}

impl MobileEntity {
    /// The entity being moved.
    pub closed spec fn entity(&self) -> Entity {
        self.en
    }

    /// The horizontal motion, in sub-units, not yet taken as whole steps.
    pub closed spec fn residue_x(&self) -> int {
        self.accum_x as int
    }

    /// The vertical motion, in sub-units, not yet taken as whole steps.
    pub closed spec fn residue_y(&self) -> int {
        self.accum_y as int
    }

    /// Each residue is within half a unit of zero.
    pub open spec fn wf(&self) -> bool {
        &&& -(SUBUNITS / 2) <= self.residue_x() <= SUBUNITS / 2
        &&& -(SUBUNITS / 2) <= self.residue_y() <= SUBUNITS / 2
    }

    /// Creates a mobile entity, at rest, from a position and bounding box.
    pub fn from_pos_and_bb(pos: Vec2, bb: Vec2) -> (r: Self)
        ensures
            r.entity().pos == pos,
            r.entity().bb == bb,
            r.residue_x() == 0,
            r.residue_y() == 0,
            r.wf(),
    {
        Self { en: Entity::from_pos_and_bb(pos, bb), accum_x: 0, accum_y: 0 }
    }

    /// The residue along the horizontal or the vertical axis.
    pub open spec fn residue(&self, horizontal: bool) -> int {
        if horizontal {
            self.residue_x()
        } else {
            self.residue_y()
        }
    }

    /// Moves `amount` sub-units horizontally, taking collisions into account.
    ///
    /// `amount` is added to the horizontal residue, and the nearest whole number of
    /// units (ties to even) is taken out of it and stepped one unit at a time. Before each
    /// step `would_collide` is asked whether this entity, offset by that unit step, would
    /// collide; at the first `true` the remaining steps are dropped.
    ///
    /// The usual way to answer is to keep a list of `Entity` that are the solids, and
    /// call `entity.would_collide(solid, offset)` for each.
    ///
    /// Returns `true` if the move was unobstructed, `false` if there was a collision.
    pub fn move_x<F: Fn(&Entity, Vec2) -> bool>(
        &mut self,
        amount: i32,
        would_collide: F,
    ) -> (r: bool)
        requires
            forall|e: Entity, o: Vec2| would_collide.requires((&e, o)),
            in_unit_range(old(self).entity().pos.x + nearest_whole(old(self).residue_x() + amount)),
        ensures
            axis_move(would_collide, *old(self), true, amount as int, *final(self), r),
            -(SUBUNITS / 2) <= final(self).residue_x() <= SUBUNITS / 2,
            old(self).wf() ==> final(self).wf(),
            old(self).wf() && amount == 0 ==> r && *final(self) == *old(self),
    {
        let n = take_whole_units(&mut self.accum_x, amount);
        walk(&mut self.en, true, n, would_collide)
    }

    /// Moves `amount` sub-units vertically, taking collisions into account.
    ///
    /// Works as [`MobileEntity::move_x`] does, on the vertical axis and its residue.
    ///
    /// Returns `true` if the move was unobstructed, `false` if there was a collision.
    pub fn move_y<F: Fn(&Entity, Vec2) -> bool>(
        &mut self,
        amount: i32,
        would_collide: F,
    ) -> (r: bool)
        requires
            forall|e: Entity, o: Vec2| would_collide.requires((&e, o)),
            in_unit_range(old(self).entity().pos.y + nearest_whole(old(self).residue_y() + amount)),
        ensures
            axis_move(would_collide, *old(self), false, amount as int, *final(self), r),
            -(SUBUNITS / 2) <= final(self).residue_y() <= SUBUNITS / 2,
            old(self).wf() ==> final(self).wf(),
            old(self).wf() && amount == 0 ==> r && *final(self) == *old(self),
    {
        let n = take_whole_units(&mut self.accum_y, amount);
        walk(&mut self.en, false, n, would_collide)
    }
}

/// What a move of `amount` sub-units along an axis does to `before`, giving `after`:
/// the amount joins that axis's residue, the nearest whole number of units is taken out
/// of it, and the entity walks toward them as far as `blocked` lets it. The other
/// axis's residue is kept.
pub open spec fn axis_move<F: Fn(&Entity, Vec2) -> bool>(
    blocked: F,
    before: MobileEntity,
    horizontal: bool,
    amount: int,
    after: MobileEntity,
    complete: bool,
) -> bool {
    let n = nearest_whole(before.residue(horizontal) + amount);
    &&& after.residue(horizontal) == before.residue(horizontal) + amount - SUBUNITS * n
    &&& after.residue(!horizontal) == before.residue(!horizontal)
    &&& walked(blocked, before.entity(), horizontal, n, after.entity(), complete)
}

/// `e` overlaps none of `solids`.
pub open spec fn clear_of(solids: Seq<Entity>, e: Entity) -> bool {
    forall|i: int| 0 <= i < solids.len() ==> !#[trigger] overlaps(e, solids[i], 0, 0)
}

/// The face of `e` toward `dir` along an axis lies against the opposite face of `s`,
/// and the two overlap across the other axis.
pub open spec fn flush_against(e: Entity, s: Entity, horizontal: bool, dir: int) -> bool {
    if horizontal {
        &&& if dir > 0 {
            e.pos.x + e.bb.x == s.pos.x - s.bb.x
        } else {
            e.pos.x - e.bb.x == s.pos.x + s.bb.x
        }
        &&& abs(e.pos.y - s.pos.y) < e.bb.y + s.bb.y
    } else {
        &&& if dir > 0 {
            e.pos.y + e.bb.y == s.pos.y - s.bb.y
        } else {
            e.pos.y - e.bb.y == s.pos.y + s.bb.y
        }
        &&& abs(e.pos.x - s.pos.x) < e.bb.x + s.bb.x
    }
}

/// No tunneling: when `blocked` reports exactly the overlaps with `solids`, a walk that
/// starts clear of every solid ends clear of every solid, whatever the number of steps
/// asked for; and a walk that stops short ends flush against a solid.
pub proof fn lemma_no_tunneling<F: Fn(&Entity, Vec2) -> bool>(
    blocked: F,
    solids: Seq<Entity>,
    start: Entity,
    horizontal: bool,
    n: int,
    end: Entity,
    complete: bool,
)
    requires
        forall|e: Entity, o: Vec2, b: bool|
            blocked.ensures((&e, o), b) ==> b == blocked_by(solids, e, o.x as int, o.y as int),
        clear_of(solids, start),
        walked(blocked, start, horizontal, n, end, complete),
    ensures
        clear_of(solids, end),
        !complete ==> exists|i: int|
            0 <= i < solids.len() && flush_against(
                end,
                #[trigger] solids[i],
                horizontal,
                direction(n),
            ),
{
    let dir = direction(n);
    let k = if n >= 0 {
        coord(end, horizontal) - coord(start, horizontal)
    } else {
        coord(start, horizontal) - coord(end, horizontal)
    };
    let u = unit_step(horizontal, dir);
    if k > 0 {
        let p = shifted(start, horizontal, dir, k - 1);
        assert(blocked.ensures((&p, u), false));
        assert forall|i: int| 0 <= i < solids.len() implies !#[trigger] overlaps(
            end,
            solids[i],
            0,
            0,
        ) by {
            assert(!overlaps(p, solids[i], u.x as int, u.y as int));
        }
    }
    if !complete {
        let i = choose|i: int|
            0 <= i < solids.len() && #[trigger] overlaps(end, solids[i], u.x as int, u.y as int);
        assert(!overlaps(end, solids[i], 0, 0));
    }
}

/// The sum of `s`.
pub open spec fn sum(s: Seq<int>) -> int
    decreases s.len(),
{
    if s.len() == 0 {
        0
    } else {
        sum(s.drop_last()) + s.last()
    }
}

/// Motion is conserved: over a run of moves along one axis that nothing obstructs, the
/// whole units travelled, in sub-units, plus the final residue, equal the first residue
/// plus the sum of the amounts asked for.
pub proof fn lemma_unobstructed_moves_conserve<F: Fn(&Entity, Vec2) -> bool>(
    blocked: F,
    states: Seq<MobileEntity>,
    results: Seq<bool>,
    horizontal: bool,
    amounts: Seq<int>,
)
    requires
        forall|e: Entity, o: Vec2, b: bool| blocked.ensures((&e, o), b) ==> !b,
        states.len() == amounts.len() + 1,
        results.len() == amounts.len(),
        forall|i: int|
            0 <= i < amounts.len() ==> axis_move(
                blocked,
                #[trigger] states[i],
                horizontal,
                amounts[i],
                states[i + 1],
                results[i],
            ),
    ensures
        SUBUNITS * coord(states.last().entity(), horizontal) + states.last().residue(horizontal)
            == SUBUNITS * coord(states[0].entity(), horizontal) + states[0].residue(horizontal)
            + sum(amounts),
    decreases amounts.len(),
{
    let m = amounts.len();
    if m > 0 {
        lemma_unobstructed_moves_conserve(
            blocked,
            states.drop_last(),
            results.drop_last(),
            horizontal,
            amounts.drop_last(),
        );
        let before = states[m - 1];
        let after = states[m as int];
        let n = nearest_whole(before.residue(horizontal) + amounts[m - 1]);
        if !results[m - 1] {
            assert(blocked.ensures((&after.entity(), unit_step(horizontal, direction(n))), true));
        }
    }
}

} // verus!
