//! Pass-level behaviour: chain resets, the redundancy checker, the
//! deletion cascade and drag application, driven directly on the arena.

use mesh_sketch::cursor::Picking;
use mesh_sketch::dot::{finalize_dot, finalize_dots, spawn_temporary_dot};
use mesh_sketch::materials::{get_ui_material, update_material_on, Visual};
use mesh_sketch::geom::{Vec3i, COORD_LIMIT};
use mesh_sketch::line::{
    clear_redundant, delete_dependent_lines, delete_selected_entities, swap_line_end,
};
use mesh_sketch::sketch::{
    can_apply_delta, is_defined, default_pos, remove_moving, reset_current,
    update_moving_transforms, Checked, Current, SketchMode,
};
use mesh_sketch::store::{Dot, DotMode, Entry, Line, LineFrame, Shape, Store};

fn v(x: i64, y: i64, z: i64) -> Vec3i {
    Vec3i { x, y, z }
}

fn dot_entry(pos: Vec3i, mode: DotMode) -> Entry {
    Entry {
        shape: Shape::Dot(Dot { position: pos, mode }),
        selected: false,
        moving: false,
        changing: false,
        doomed: false,
    }
}

fn line_entry(start: usize, end: usize) -> Entry {
    Entry {
        shape: Shape::Line(Line {
            start,
            end,
            finalized: false,
            frame: LineFrame { center_doubled: v(0, 0, 0), axis: v(0, 0, 0) },
        }),
        selected: false,
        moving: false,
        changing: false,
        doomed: false,
    }
}

fn fresh_current() -> Current {
    Current { position: [default_pos(), default_pos(), default_pos()], dots: Vec::new(), lines: Vec::new() }
}

#[test]
fn reset_current_is_idempotent() {
    let mut store = Store::new();
    let d0 = spawn_temporary_dot(&mut store, v(1, 2, 0));
    let d1 = spawn_temporary_dot(&mut store, v(3, 4, 0));
    let l = store.spawn(line_entry(d0, d1));
    let mut current = fresh_current();
    current.dots.push(d1);
    current.lines.push(l);

    reset_current(&mut store, &mut current);
    assert!(current.dots.is_empty());
    assert!(current.lines.is_empty());
    assert_eq!(current.position[0], default_pos());
    assert!(store.get(d1).unwrap().doomed);
    assert!(store.get(l).unwrap().doomed);
    assert!(!store.get(d0).unwrap().doomed);
    let snapshot = (store.get(d0), store.get(d1), store.get(l));

    // The second reset despawns nothing and leaves everything as it was.
    reset_current(&mut store, &mut current);
    assert!(current.dots.is_empty());
    assert!(current.lines.is_empty());
    assert_eq!(snapshot, (store.get(d0), store.get(d1), store.get(l)));
}

#[test]
fn degenerate_line_is_cleared() {
    let mut store = Store::new();
    let d = spawn_temporary_dot(&mut store, v(0, 0, 0));
    let l = store.spawn(line_entry(d, d));
    let mut checked = Checked { lines: vec![Some(l)] };
    clear_redundant(&mut store, &mut checked);
    assert!(store.get(l).unwrap().doomed);
    assert!(checked.lines.is_empty());
    store.flush();
    assert!(store.get(l).is_none());
    assert!(store.get(d).is_some());
}

#[test]
fn duplicate_line_is_cleared_when_checked() {
    let mut store = Store::new();
    let a = spawn_temporary_dot(&mut store, v(0, 0, 0));
    let b = spawn_temporary_dot(&mut store, v(5, 0, 0));
    let l1 = store.spawn(line_entry(a, b));
    let l2 = store.spawn(line_entry(b, a));
    let mut checked = Checked { lines: vec![Some(l2)] };
    clear_redundant(&mut store, &mut checked);
    assert!(store.get(l2).unwrap().doomed);
    assert!(!store.get(l1).unwrap().doomed);
    assert!(checked.lines.is_empty());
}

#[test]
fn sound_line_survives_check() {
    let mut store = Store::new();
    let a = spawn_temporary_dot(&mut store, v(0, 0, 0));
    let b = spawn_temporary_dot(&mut store, v(5, 0, 0));
    let c = spawn_temporary_dot(&mut store, v(9, 0, 0));
    let l1 = store.spawn(line_entry(a, b));
    let l2 = store.spawn(line_entry(b, c));
    let mut checked = Checked { lines: vec![Some(l2)] };
    clear_redundant(&mut store, &mut checked);
    assert!(!store.get(l2).unwrap().doomed);
    assert!(!store.get(l1).unwrap().doomed);
    // A sound line stays queued.
    assert_eq!(checked.lines, vec![Some(l2)]);
}

#[test]
fn empty_and_absent_check_queue_is_a_no_op() {
    let mut store = Store::new();
    let a = spawn_temporary_dot(&mut store, v(0, 0, 0));
    let l = store.spawn(line_entry(a, a));
    let mut checked = Checked { lines: Vec::new() };
    clear_redundant(&mut store, &mut checked);
    assert!(!store.get(l).unwrap().doomed);
    // The absent marker queued by a chain's first segment is skipped too.
    let mut checked = Checked { lines: vec![None] };
    clear_redundant(&mut store, &mut checked);
    assert!(!store.get(l).unwrap().doomed);
    assert_eq!(checked.lines, vec![None]);
}

#[test]
fn unresolvable_check_target_is_skipped_silently() {
    let mut store = Store::new();
    let a = spawn_temporary_dot(&mut store, v(0, 0, 0));
    let l = store.spawn(line_entry(a, a));
    store.despawn(l);
    let mut checked = Checked { lines: vec![Some(l)] };
    clear_redundant(&mut store, &mut checked);
    assert_eq!(checked.lines, vec![Some(l)]);
}

#[test]
fn deletion_cascade_closes_over_orphaned_lines() {
    let mut store = Store::new();
    let a = spawn_temporary_dot(&mut store, v(0, 0, 0));
    let b = spawn_temporary_dot(&mut store, v(5, 0, 0));
    let c = spawn_temporary_dot(&mut store, v(9, 0, 0));
    let lab = store.spawn(line_entry(a, b));
    let lbc = store.spawn(line_entry(b, c));
    let mut e = store.get(a).unwrap();
    e.selected = true;
    store.put(a, e);

    delete_selected_entities(&mut store);
    delete_dependent_lines(&mut store);
    store.flush();

    assert!(store.get(a).is_none());
    assert!(store.get(lab).is_none());
    assert!(store.get(b).is_some());
    assert!(store.get(c).is_some());
    assert!(store.get(lbc).is_some());
}

#[test]
fn drag_delta_is_conserved_exactly() {
    let mut store = Store::new();
    let d = spawn_temporary_dot(&mut store, v(10, 20, 0));
    let other = spawn_temporary_dot(&mut store, v(7, 7, 7));
    let mut e = store.get(d).unwrap();
    e.moving = true;
    store.put(d, e);

    let delta = v(2, -3, 1);
    assert!(can_apply_delta(&store, delta));
    update_moving_transforms(&mut store, delta);
    match store.get(d).unwrap().shape {
        Shape::Dot(dot) => assert_eq!(dot.position, v(12, 17, 1)),
        Shape::Line(_) => panic!("dot expected"),
    }
    match store.get(other).unwrap().shape {
        Shape::Dot(dot) => assert_eq!(dot.position, v(7, 7, 7)),
        Shape::Line(_) => panic!("dot expected"),
    }
}

#[test]
fn oversized_drag_delta_is_refused() {
    let mut store = Store::new();
    let d = spawn_temporary_dot(&mut store, v(COORD_LIMIT, 0, 0));
    let mut e = store.get(d).unwrap();
    e.moving = true;
    store.put(d, e);
    assert!(!can_apply_delta(&store, v(1, 0, 0)));
    assert!(can_apply_delta(&store, v(-1, 0, 0)));
}

#[test]
fn remove_moving_sweeps_all_tags() {
    let mut store = Store::new();
    let d0 = spawn_temporary_dot(&mut store, v(0, 0, 0));
    let d1 = spawn_temporary_dot(&mut store, v(1, 0, 0));
    for id in [d0, d1] {
        let mut e = store.get(id).unwrap();
        e.moving = true;
        store.put(id, e);
    }
    remove_moving(&mut store);
    assert!(!store.get(d0).unwrap().moving);
    assert!(!store.get(d1).unwrap().moving);
}

#[test]
fn finalize_dot_promotes_only_temporary_dots() {
    let mut store = Store::new();
    let d = spawn_temporary_dot(&mut store, v(1, 1, 0));
    let got = finalize_dot(&mut store, d);
    assert_eq!(got, d);
    match store.get(d).unwrap().shape {
        Shape::Dot(dot) => {
            assert_eq!(dot.mode, DotMode::Final);
            assert_eq!(dot.position, v(1, 1, 0));
        },
        Shape::Line(_) => panic!("dot expected"),
    }
    // Finalizing again, or finalizing a missing identity, changes nothing.
    let before = store.get(d);
    finalize_dot(&mut store, d);
    assert_eq!(before, store.get(d));
    finalize_dot(&mut store, 999);
    assert_eq!(before, store.get(d));
}

#[test]
fn finalize_dots_covers_the_chain_list() {
    let mut store = Store::new();
    let d0 = spawn_temporary_dot(&mut store, v(1, 0, 0));
    let d1 = spawn_temporary_dot(&mut store, v(2, 0, 0));
    let mut current = fresh_current();
    current.dots.push(d0);
    current.dots.push(d1);
    current.lines.push(store.spawn(line_entry(d0, d1)));
    finalize_dots(&mut store, &current);
    for id in [d0, d1] {
        match store.get(id).unwrap().shape {
            Shape::Dot(dot) => assert_eq!(dot.mode, DotMode::Final),
            Shape::Line(_) => panic!("dot expected"),
        }
    }
}

#[test]
fn swap_line_end_redirects_and_returns_the_orphan() {
    let mut store = Store::new();
    let a = spawn_temporary_dot(&mut store, v(0, 0, 0));
    let b = spawn_temporary_dot(&mut store, v(5, 0, 0));
    let c = spawn_temporary_dot(&mut store, v(9, 9, 0));
    let l = store.spawn(line_entry(a, b));
    let mut current = fresh_current();
    current.dots.push(b);
    current.lines.push(l);

    let orphan = swap_line_end(&mut store, c, &current);
    assert_eq!(orphan, b);
    match store.get(l).unwrap().shape {
        Shape::Line(line) => {
            assert_eq!(line.start, a);
            assert_eq!(line.end, c);
        },
        Shape::Dot(_) => panic!("line expected"),
    }
}

#[test]
fn swap_line_end_falls_back_when_the_line_is_gone() {
    let mut store = Store::new();
    let a = spawn_temporary_dot(&mut store, v(0, 0, 0));
    let b = spawn_temporary_dot(&mut store, v(5, 0, 0));
    let l = store.spawn(line_entry(a, b));
    store.despawn(l);
    let mut current = fresh_current();
    current.dots.push(b);
    current.lines.push(l);
    let orphan = swap_line_end(&mut store, a, &current);
    assert_eq!(orphan, b);
}

#[test]
fn store_identities_are_stable_across_flush() {
    let mut store = Store::new();
    let d0 = spawn_temporary_dot(&mut store, v(0, 0, 0));
    let d1 = spawn_temporary_dot(&mut store, v(1, 0, 0));
    store.despawn(d0);
    store.flush();
    assert!(store.get(d0).is_none());
    assert!(store.get(d1).is_some());
    // The vacated slot is never reused.
    let d2 = spawn_temporary_dot(&mut store, v(2, 0, 0));
    assert_eq!(d2, 2);
    assert_eq!(store.len(), 3);
    assert!(store.get(d0).is_none());
}

#[test]
fn visual_state_prefers_selection_then_hover() {
    assert_eq!(get_ui_material(false, false, false), Visual::DotBase);
    assert_eq!(get_ui_material(true, false, false), Visual::LineBase);
    assert_eq!(get_ui_material(false, false, true), Visual::Hovered);
    assert_eq!(get_ui_material(true, true, false), Visual::Selected);
    assert_eq!(get_ui_material(false, true, true), Visual::SelectedAndHovered);

    let mut store = Store::new();
    let d = spawn_temporary_dot(&mut store, v(0, 0, 0));
    let mut e = store.get(d).unwrap();
    e.selected = true;
    e.changing = true;
    store.put(d, e);
    let picking = Picking { hovered: Some(d), prev_hovered: None };
    let visual = update_material_on(&mut store, &picking, d);
    assert_eq!(visual, Some(Visual::SelectedAndHovered));
    // The refresh mark is acknowledged.
    assert!(!store.get(d).unwrap().changing);
    assert_eq!(update_material_on(&mut store, &picking, 42), None);
}

#[test]
fn scratch_positions_default_to_the_unset_marker() {
    assert!(!is_defined(default_pos()));
    assert!(is_defined(Vec3i { x: 0, y: 0, z: 0 }));
    let current = fresh_current();
    assert!(!is_defined(current.position[2]));
    let _ = SketchMode::Idle;
}
