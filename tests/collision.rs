use std::cell::Cell;

use s2dc::{MobileEntity, SUBUNITS};
use s2dc::{intersect, resolve, Rect};
use s2dc::{vec2, Entity, Vec2};

fn rect(x: i32, y: i32, w: i32, h: i32) -> Rect {
    Rect { x, y, w, h }
}

fn never(_: &Entity, _: Vec2) -> bool {
    false
}

#[test]
fn vec2_holds_components() {
    let v = vec2(3, -4);
    assert_eq!(v.x, 3);
    assert_eq!(v.y, -4);
}

#[test]
fn from_rect_corners_centers_and_halves() {
    let e = Entity::from_rect_corners(0, 0, 10, 20);
    assert_eq!((e.pos.x, e.pos.y, e.bb.x, e.bb.y), (5, 10, 5, 10));
    let e = Entity::from_rect_corners(10, 20, 0, 0);
    assert_eq!((e.pos.x, e.pos.y, e.bb.x, e.bb.y), (5, 10, 5, 10));
}

#[test]
fn from_rect_corners_rounds_toward_first_corner() {
    let e = Entity::from_rect_corners(0, 3, 5, 0);
    assert_eq!((e.pos.x, e.pos.y), (2, 2));
    assert_eq!((e.bb.x, e.bb.y), (2, 1));
}

#[test]
fn from_rect_corners_full_range() {
    let e = Entity::from_rect_corners(i32::MIN, i32::MAX, i32::MAX, i32::MIN);
    assert_eq!((e.pos.x, e.pos.y), (-1, 0));
    assert_eq!((e.bb.x, e.bb.y), (i32::MAX, i32::MAX));
}

#[test]
fn xywh_gives_corner_and_size() {
    let e = Entity::from_pos_and_bb(vec2(10, 20), vec2(3, 4));
    assert_eq!(e.xywh(), (7, 16, 6, 8));
}

#[test]
fn would_collide_detects_overlap() {
    let a = Entity::from_pos_and_bb(vec2(0, 0), vec2(2, 2));
    let b = Entity::from_pos_and_bb(vec2(3, 1), vec2(2, 2));
    assert!(a.would_collide(&b, vec2(0, 0)));
    assert!(b.would_collide(&a, vec2(0, 0)));
}

#[test]
fn touching_edges_do_not_collide() {
    let a = Entity::from_pos_and_bb(vec2(0, 0), vec2(2, 2));
    let b = Entity::from_pos_and_bb(vec2(4, 0), vec2(2, 2));
    assert!(!a.would_collide(&b, vec2(0, 0)));
    assert!(a.would_collide(&b, vec2(1, 0)));
    assert!(!a.would_collide(&b, vec2(1, 4)));
}

#[test]
fn zero_extent_point_inside_and_outside() {
    let p = Entity::from_pos_and_bb(vec2(0, 0), vec2(0, 0));
    let b = Entity::from_pos_and_bb(vec2(5, 5), vec2(2, 2));
    assert!(p.would_collide(&b, vec2(4, 6)));
    assert!(!p.would_collide(&b, vec2(3, 5)));
}

#[test]
fn overlap_is_symmetric_under_negated_offset() {
    let a = Entity::from_pos_and_bb(vec2(1, 2), vec2(3, 1));
    let b = Entity::from_pos_and_bb(vec2(8, -1), vec2(2, 2));
    for dx in -12..12 {
        for dy in -6..6 {
            assert_eq!(a.would_collide(&b, vec2(dx, dy)), b.would_collide(&a, vec2(-dx, -dy)));
        }
    }
}

#[test]
fn would_collide_far_apart_does_not_overflow() {
    let a = Entity::from_pos_and_bb(vec2(i32::MAX, i32::MAX), vec2(i32::MAX, i32::MAX));
    let b = Entity::from_pos_and_bb(vec2(i32::MIN, i32::MIN), vec2(1, 1));
    assert!(!a.would_collide(&b, vec2(i32::MAX, 0)));
    assert!(a.would_collide(&b, vec2(i32::MIN, i32::MIN)));
}

#[test]
fn would_collide_any_checks_every_solid() {
    let e = Entity::from_pos_and_bb(vec2(0, 0), vec2(1, 1));
    let solids = [
        Entity::from_pos_and_bb(vec2(10, 0), vec2(1, 1)),
        Entity::from_pos_and_bb(vec2(0, 4), vec2(1, 1)),
    ];
    assert!(!e.would_collide_any(&solids, vec2(0, 0)));
    assert!(e.would_collide_any(&solids, vec2(0, 3)));
    assert!(e.would_collide_any(&solids, vec2(9, 0)));
    assert!(!e.would_collide_any(&solids, vec2(8, 0)));
    assert!(!e.would_collide_any(&[], vec2(0, 0)));
}

#[test]
fn fractional_moves_accumulate() {
    let mut m = MobileEntity::from_pos_and_bb(vec2(0, 0), vec2(1, 1));
    let mut seen = Vec::new();
    for _ in 0..10 {
        assert!(m.move_x(300, never));
        seen.push(m.en.pos.x);
    }
    assert_eq!(m.en.pos.x, 3);
    assert_eq!(seen, vec![0, 1, 1, 1, 1, 2, 2, 2, 3, 3]);
    assert_eq!(m.en.pos.y, 0);
}

#[test]
fn zero_amount_neither_moves_nor_asks() {
    let calls = Cell::new(0u32);
    let counting = |_: &Entity, _: Vec2| {
        calls.set(calls.get() + 1);
        true
    };
    let mut m = MobileEntity::from_pos_and_bb(vec2(7, -3), vec2(1, 1));
    assert!(m.move_x(0, counting));
    assert!(m.move_y(0, counting));
    assert_eq!((m.en.pos.x, m.en.pos.y), (7, -3));
    assert_eq!(calls.get(), 0);
    // a residue of exactly half a unit stays put on a zero move
    assert!(m.move_x(SUBUNITS / 2, counting));
    assert!(m.move_x(0, counting));
    assert_eq!(m.en.pos.x, 7);
    assert_eq!(calls.get(), 0);
}

#[test]
fn ties_round_to_even() {
    let mut m = MobileEntity::from_pos_and_bb(vec2(0, 0), vec2(1, 1));
    assert!(m.move_x(1500, never));
    assert_eq!(m.en.pos.x, 2);
    assert!(m.move_x(0, never));
    assert_eq!(m.en.pos.x, 2);
    let mut m = MobileEntity::from_pos_and_bb(vec2(0, 0), vec2(1, 1));
    assert!(m.move_x(2500, never));
    assert_eq!(m.en.pos.x, 2);
    let mut m = MobileEntity::from_pos_and_bb(vec2(0, 0), vec2(1, 1));
    assert!(m.move_y(-1500, never));
    assert_eq!(m.en.pos.y, -2);
    assert!(m.move_y(-500, never));
    assert_eq!(m.en.pos.y, -2);
    assert!(m.move_y(-1000, never));
    assert_eq!(m.en.pos.y, -3);
}

#[test]
fn blocked_step_discards_remaining_motion() {
    let solid = Entity::from_pos_and_bb(vec2(5, 0), vec2(2, 2));
    let solids = vec![solid];
    let collider = |en: &Entity, offs: Vec2| en.would_collide_any(&solids, offs);
    let mut m = MobileEntity::from_pos_and_bb(vec2(0, 0), vec2(1, 1));
    assert!(!m.move_x(5 * SUBUNITS, collider));
    assert_eq!(m.en.pos.x, 2);
    assert!(!m.en.would_collide(&solid, vec2(0, 0)));
    // the three dropped units are not refunded: a zero move stays put
    assert!(m.move_x(0, collider));
    assert_eq!(m.en.pos.x, 2);
    assert!(!m.move_x(5 * SUBUNITS, collider));
    assert_eq!(m.en.pos.x, 2);
}

#[test]
fn steps_probe_nearest_first() {
    let probes = Cell::new(0u32);
    let wall_at_three = |en: &Entity, offs: Vec2| {
        probes.set(probes.get() + 1);
        en.pos.y + offs.y == -3
    };
    let mut m = MobileEntity::from_pos_and_bb(vec2(4, 0), vec2(0, 0));
    assert!(!m.move_y(-10 * SUBUNITS, wall_at_three));
    assert_eq!((m.en.pos.x, m.en.pos.y), (4, -2));
    assert_eq!(probes.get(), 3);
}

#[test]
fn fast_move_does_not_tunnel_thin_solid() {
    let solid = Entity::from_pos_and_bb(vec2(50, 0), vec2(0, 4));
    let collider = |en: &Entity, offs: Vec2| en.would_collide(&solid, offs);
    let mut m = MobileEntity::from_pos_and_bb(vec2(0, 0), vec2(2, 2));
    assert!(m.move_x(17620, collider));
    assert_eq!(m.en.pos.x, 18);
    assert!(m.move_x(17620, collider));
    assert_eq!(m.en.pos.x, 35);
    assert!(!m.move_x(17620, collider));
    assert_eq!(m.en.pos.x, 48);
    assert_eq!(m.en.pos.x + m.en.bb.x, solid.pos.x - solid.bb.x);
}

#[test]
fn intersection_concrete_scenario() {
    let a = rect(12, 31, 20, 21);
    let b = rect(19, 42, 37, 31);
    let c = rect(41, 30, 34, 55);
    assert_eq!(intersect(a, b), Some(rect(19, 42, 13, 10)));
    assert_eq!(intersect(b, c), Some(rect(41, 42, 15, 31)));
    assert_eq!(intersect(a, c), None);
}

#[test]
fn intersection_commutes() {
    let rs = [
        rect(12, 31, 20, 21),
        rect(19, 42, 37, 31),
        rect(41, 30, 34, 55),
        rect(0, 0, 0, 0),
        rect(-5, -5, 10, 10),
    ];
    for a in rs.iter() {
        for b in rs.iter() {
            assert_eq!(intersect(*a, *b), intersect(*b, *a));
        }
    }
}

#[test]
fn touching_rectangles_do_not_intersect() {
    assert_eq!(intersect(rect(0, 0, 10, 10), rect(10, 0, 10, 10)), None);
    assert_eq!(intersect(rect(0, 0, 10, 10), rect(0, 10, 10, 10)), None);
    assert_eq!(intersect(rect(0, 0, 10, 10), rect(9, 9, 10, 10)), Some(rect(9, 9, 1, 1)));
}

#[test]
fn rect_new_validates_extents() {
    assert_eq!(Rect::new(1, 2, 3, 4), Some(rect(1, 2, 3, 4)));
    assert_eq!(Rect::new(1, 2, 0, 0), Some(rect(1, 2, 0, 0)));
    assert_eq!(Rect::new(1, 2, -1, 4), None);
    assert_eq!(Rect::new(1, 2, 3, -4), None);
    assert_eq!(Rect::new(i32::MAX, 0, 1, 0), None);
    assert_eq!(Rect::new(0, i32::MAX - 1, 0, 1), Some(rect(0, i32::MAX - 1, 0, 1)));
}

#[test]
fn swept_corrector_rejects_overlapping_move() {
    let original = rect(0, 0, 10, 10);
    let projected = rect(5, 0, 10, 10);
    let solids = [rect(8, 0, 10, 10)];
    assert_eq!(resolve(original, projected, &solids), original);
}

#[test]
fn swept_corrector_accepts_free_move() {
    let original = rect(0, 0, 10, 10);
    let projected = rect(5, 0, 10, 10);
    assert_eq!(resolve(original, projected, &[rect(15, 0, 10, 10), rect(0, 20, 5, 5)]), projected);
    assert_eq!(resolve(original, projected, &[]), projected);
}

#[test]
fn swept_corrector_tunnels_through_thin_solid() {
    let original = rect(0, 0, 10, 10);
    let projected = rect(30, 0, 10, 10);
    assert_eq!(resolve(original, projected, &[rect(20, 0, 1, 10)]), projected);
}
