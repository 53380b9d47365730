//! Geometry and picking-state basics: vector arithmetic, line placement
//! formulas, cursor sampling and hover bookkeeping.

use mesh_sketch::cursor::{
    hover_entity, is_cursor_moving, reset_picking, same_id, update_cursor, Cursor, Picking,
};
use mesh_sketch::geom::Vec3i;
use mesh_sketch::line::{get_line_ending_positions, get_line_mesh_transform};
use mesh_sketch::dot::spawn_temporary_dot;
use mesh_sketch::sketch::is_dragging;
use mesh_sketch::store::{Entry, Line, LineFrame, Shape, Store};

fn v(x: i64, y: i64, z: i64) -> Vec3i {
    Vec3i { x, y, z }
}

#[test]
fn vector_arithmetic_is_componentwise() {
    let a = v(1, -2, 3);
    let b = v(10, 20, -30);
    assert_eq!(a.add(b), v(11, 18, -27));
    assert_eq!(b.sub(a), v(9, 22, -33));
    assert_eq!(Vec3i::zero(), v(0, 0, 0));
}

#[test]
fn line_frame_carries_doubled_midpoint_and_axis() {
    let a = v(2, 4, 0);
    let b = v(6, -2, 0);
    let frame = get_line_mesh_transform(a, b);
    // The midpoint is (4, 1, 0); the frame stores twice that, exactly.
    assert_eq!(frame.center_doubled, v(8, 2, 0));
    assert_eq!(frame.axis, v(4, -6, 0));
    let degenerate = get_line_mesh_transform(a, a);
    assert_eq!(degenerate.axis, v(0, 0, 0));
}

#[test]
fn line_ending_positions_fall_back_when_unresolved() {
    let mut store = Store::new();
    let a = spawn_temporary_dot(&mut store, v(1, 1, 0));
    let b = spawn_temporary_dot(&mut store, v(2, 2, 0));
    let l = store.spawn(Entry {
        shape: Shape::Line(Line {
            start: a,
            end: b,
            finalized: false,
            frame: LineFrame { center_doubled: v(0, 0, 0), axis: v(0, 0, 0) },
        }),
        selected: false,
        moving: false,
        changing: false,
        doomed: false,
    });
    assert_eq!(get_line_ending_positions(&store, l), (v(1, 1, 0), v(2, 2, 0)));
    store.despawn(b);
    assert_eq!(get_line_ending_positions(&store, l), (v(0, 0, 0), v(0, 0, 0)));
    assert_eq!(get_line_ending_positions(&store, 99), (v(0, 0, 0), v(0, 0, 0)));
}

#[test]
fn cursor_sampling_retains_state_without_new_information() {
    let mut cursor = Cursor::default();
    update_cursor(&mut cursor, Some(v(3, 3, 0)));
    assert_eq!(cursor.position, v(3, 3, 0));
    assert_eq!(cursor.prev_position, v(0, 0, 0));
    assert!(is_cursor_moving(&cursor));
    update_cursor(&mut cursor, None);
    assert_eq!(cursor.position, v(3, 3, 0));
    assert_eq!(cursor.prev_position, v(3, 3, 0));
    assert!(!is_cursor_moving(&cursor));
}

#[test]
fn dragging_needs_both_the_button_and_movement() {
    let mut cursor = Cursor::default();
    update_cursor(&mut cursor, Some(v(1, 0, 0)));
    assert!(is_dragging(true, &cursor));
    assert!(!is_dragging(false, &cursor));
    update_cursor(&mut cursor, None);
    assert!(!is_dragging(true, &cursor));
}

#[test]
fn hover_keeps_a_two_tick_window() {
    let mut picking = Picking::default();
    hover_entity(&mut picking, Some(4));
    assert_eq!(picking.hovered, Some(4));
    assert_eq!(picking.prev_hovered, None);
    hover_entity(&mut picking, None);
    assert_eq!(picking.hovered, None);
    assert_eq!(picking.prev_hovered, Some(4));
    reset_picking(&mut picking);
    assert_eq!(picking.hovered, None);
    assert_eq!(picking.prev_hovered, None);
}

#[test]
fn optional_identities_compare_by_value() {
    assert!(same_id(None, None));
    assert!(same_id(Some(3), Some(3)));
    assert!(!same_id(Some(3), Some(4)));
    assert!(!same_id(Some(3), None));
}
