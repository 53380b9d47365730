//! End-to-end session behaviour, driven tick by tick: the drawing
//! scenarios, mode switching, selection, and the deletion cascade.

use mesh_sketch::geom::Vec3i;
use mesh_sketch::session::{FrameInput, SketchSession};
use mesh_sketch::sketch::SketchMode;
use mesh_sketch::store::{DotMode, Shape};

fn v(x: i64, y: i64, z: i64) -> Vec3i {
    Vec3i { x, y, z }
}

fn idle_input() -> FrameInput {
    FrameInput {
        cursor_sample: None,
        hover_hit: None,
        left_just_pressed: false,
        left_held: false,
        right_just_pressed: false,
        escape_pressed: false,
        dot_key_pressed: false,
        line_key_pressed: false,
        delete_key_pressed: false,
        chain_select_held: false,
    }
}

fn click_at(p: Vec3i) -> FrameInput {
    FrameInput { cursor_sample: Some(p), left_just_pressed: true, ..idle_input() }
}

fn dot_mode_of(session: &SketchSession, id: usize) -> (Vec3i, DotMode) {
    match session.store.get(id).expect("live dot").shape {
        Shape::Dot(d) => (d.position, d.mode),
        Shape::Line(_) => panic!("dot expected"),
    }
}

fn line_refs_of(session: &SketchSession, id: usize) -> (usize, usize) {
    match session.store.get(id).expect("live line").shape {
        Shape::Line(l) => (l.start, l.end),
        Shape::Dot(_) => panic!("line expected"),
    }
}

/// Draws one segment from `a` to `b` in a fresh session and returns it:
/// dots 0 and 1, line 2, pending end dot 3, preview line 4.
fn draw_segment(a: Vec3i, b: Vec3i) -> SketchSession {
    let mut session = SketchSession::new();
    session.tick(FrameInput { line_key_pressed: true, ..idle_input() });
    assert_eq!(session.mode, SketchMode::Line);
    session.tick(click_at(a));
    session.tick(FrameInput { cursor_sample: Some(b), ..idle_input() });
    session.tick(click_at(b));
    session
}

#[test]
fn scenario_first_click_opens_a_chain() {
    let mut session = SketchSession::new();
    session.tick(FrameInput { line_key_pressed: true, ..idle_input() });
    let p1 = v(10, 0, 0);
    session.tick(click_at(p1));

    // One temporary start dot and the temporary end dot, both at the click
    // point, joined by the preview line; nothing queued to check yet.
    assert_eq!(dot_mode_of(&session, 0), (p1, DotMode::Temporary));
    assert_eq!(dot_mode_of(&session, 1), (p1, DotMode::Temporary));
    assert_eq!(line_refs_of(&session, 2), (0, 1));
    assert_eq!(session.current.dots, vec![0, 1]);
    assert_eq!(session.current.lines, vec![2]);
    assert_eq!(session.checked.lines, vec![None]);
}

#[test]
fn scenario_second_click_commits_the_segment() {
    let p1 = v(10, 0, 0);
    let p2 = v(10, 30, 0);
    let session = draw_segment(p1, p2);

    // Both chain dots are committed where they were drawn; the preview end
    // dot followed the cursor to the second click point.
    assert_eq!(dot_mode_of(&session, 0), (p1, DotMode::Final));
    assert_eq!(dot_mode_of(&session, 1), (p2, DotMode::Final));
    // The committed segment survived its redundancy check; the chain went
    // on from its end with a fresh preview pair.
    assert_eq!(line_refs_of(&session, 2), (0, 1));
    assert_eq!(dot_mode_of(&session, 3), (p2, DotMode::Temporary));
    assert_eq!(line_refs_of(&session, 4), (1, 3));
    assert_eq!(session.current.dots, vec![3]);
    assert_eq!(session.current.lines, vec![4]);
    assert_eq!(session.checked.lines, vec![Some(2)]);
}

#[test]
fn scenario_redirect_onto_existing_dot_drops_the_duplicate() {
    let p1 = v(10, 0, 0);
    let p2 = v(10, 30, 0);
    let mut session = draw_segment(p1, p2);

    // Click on the chain's first dot while the chain is active at the
    // second: the preview line is redirected onto dot 0, its orphaned end
    // dot despawns, and the redirected segment duplicates segment 2, so
    // the redundancy check removes it.
    session.tick(FrameInput { hover_hit: Some(0), ..click_at(p1) });
    assert!(session.store.get(3).is_none());
    assert!(session.store.get(4).is_none());
    assert_eq!(line_refs_of(&session, 2), (0, 1));
    // The chain goes on from the hovered dot.
    assert_eq!(dot_mode_of(&session, 5), (p1, DotMode::Temporary));
    assert_eq!(line_refs_of(&session, 6), (0, 5));
    assert_eq!(session.current.dots, vec![5]);
    assert_eq!(session.current.lines, vec![6]);
}

#[test]
fn scenario_drag_moves_the_connected_dots_by_the_full_delta() {
    let p1 = v(10, 0, 0);
    let p2 = v(10, 30, 0);
    let mut session = draw_segment(p1, p2);
    // Leave line mode; this abandons the pending preview pair.
    session.tick(FrameInput { escape_pressed: true, ..idle_input() });
    assert_eq!(session.mode, SketchMode::Idle);
    assert!(session.store.get(3).is_none());
    assert!(session.store.get(4).is_none());

    // Select both committed dots (the second with the chain-select
    // modifier held).
    session.tick(FrameInput { hover_hit: Some(0), ..click_at(p1) });
    session.tick(FrameInput {
        hover_hit: Some(1),
        chain_select_held: true,
        ..click_at(p2)
    });
    assert!(session.store.get(0).unwrap().selected);
    assert!(session.store.get(1).unwrap().selected);

    // Drag for three ticks with a constant per-tick delta.
    let mut cursor = p2;
    for _ in 0..3 {
        cursor = v(cursor.x + 2, cursor.y, cursor.z);
        session.tick(FrameInput {
            cursor_sample: Some(cursor),
            left_held: true,
            ..idle_input()
        });
    }
    assert_eq!(dot_mode_of(&session, 0).0, v(16, 0, 0));
    assert_eq!(dot_mode_of(&session, 1).0, v(16, 30, 0));

    // The line's placement was recomputed from the moved endpoints.
    match session.store.get(2).unwrap().shape {
        Shape::Line(l) => {
            assert!(l.finalized);
            assert_eq!(l.frame.center_doubled, v(32, 30, 0));
            assert_eq!(l.frame.axis, v(0, 30, 0));
        },
        Shape::Dot(_) => panic!("line expected"),
    }

    // Once the cursor rests, the moving tags are swept.
    session.tick(idle_input());
    assert!(!session.store.get(0).unwrap().moving);
    assert!(!session.store.get(1).unwrap().moving);
}

#[test]
fn scenario_delete_key_cascades_to_referencing_lines() {
    let p1 = v(10, 0, 0);
    let p2 = v(10, 30, 0);
    let mut session = draw_segment(p1, p2);
    session.tick(FrameInput { escape_pressed: true, ..idle_input() });

    // Select the segment's first dot and press the delete key: the dot
    // despawns, and the line referencing it despawns in the same step.
    session.tick(FrameInput { hover_hit: Some(0), ..click_at(p1) });
    session.tick(FrameInput { delete_key_pressed: true, ..idle_input() });
    assert!(session.store.get(0).is_none());
    assert!(session.store.get(2).is_none());
    assert!(session.store.get(1).is_some());
}

#[test]
fn mode_shortcuts_follow_escape_dot_line_priority() {
    let mut session = SketchSession::new();
    session.tick(FrameInput { dot_key_pressed: true, ..idle_input() });
    assert_eq!(session.mode, SketchMode::Dot);
    session.tick(FrameInput { line_key_pressed: true, ..idle_input() });
    assert_eq!(session.mode, SketchMode::Line);
    session.tick(FrameInput {
        escape_pressed: true,
        dot_key_pressed: true,
        line_key_pressed: true,
        ..idle_input()
    });
    assert_eq!(session.mode, SketchMode::Idle);
    session.tick(FrameInput {
        dot_key_pressed: true,
        line_key_pressed: true,
        ..idle_input()
    });
    assert_eq!(session.mode, SketchMode::Dot);
    session.tick(idle_input());
    assert_eq!(session.mode, SketchMode::Dot);
}

#[test]
fn right_click_abandons_the_chain_without_leaving_line_mode() {
    let mut session = SketchSession::new();
    session.tick(FrameInput { line_key_pressed: true, ..idle_input() });
    session.tick(click_at(v(5, 5, 0)));
    assert_eq!(session.current.dots.len(), 2);
    session.tick(FrameInput { right_just_pressed: true, ..idle_input() });
    assert_eq!(session.mode, SketchMode::Line);
    assert!(session.current.dots.is_empty());
    assert!(session.current.lines.is_empty());
    assert!(session.store.get(0).is_none());
    assert!(session.store.get(1).is_none());
    assert!(session.store.get(2).is_none());
}

#[test]
fn dot_tool_places_committed_dots() {
    let mut session = SketchSession::new();
    session.tick(FrameInput { dot_key_pressed: true, ..idle_input() });
    session.tick(click_at(v(1, 2, 0)));
    session.tick(click_at(v(3, 4, 0)));
    assert_eq!(dot_mode_of(&session, 0), (v(1, 2, 0), DotMode::Final));
    assert_eq!(dot_mode_of(&session, 1), (v(3, 4, 0), DotMode::Final));
    assert!(session.current.dots.is_empty());
}

#[test]
fn plain_click_selects_exactly_one_entity() {
    let mut session = SketchSession::new();
    session.tick(FrameInput { dot_key_pressed: true, ..idle_input() });
    session.tick(click_at(v(0, 0, 0)));
    session.tick(click_at(v(9, 0, 0)));
    session.tick(FrameInput { escape_pressed: true, ..idle_input() });

    session.tick(FrameInput { hover_hit: Some(0), ..click_at(v(0, 0, 0)) });
    assert!(session.store.get(0).unwrap().selected);
    // A plain click elsewhere moves the selection.
    session.tick(FrameInput { hover_hit: Some(1), ..click_at(v(9, 0, 0)) });
    assert!(!session.store.get(0).unwrap().selected);
    assert!(session.store.get(1).unwrap().selected);
    // Clicking the selected entity again deselects it.
    session.tick(FrameInput { hover_hit: Some(1), ..click_at(v(9, 0, 0)) });
    assert!(!session.store.get(1).unwrap().selected);
    // A click on empty space clears the selection.
    session.tick(FrameInput { hover_hit: Some(0), ..click_at(v(0, 0, 0)) });
    session.tick(click_at(v(50, 50, 0)));
    assert!(!session.store.get(0).unwrap().selected);
}

#[test]
fn hover_transitions_mark_both_sides_for_refresh() {
    let mut session = SketchSession::new();
    session.tick(FrameInput { dot_key_pressed: true, ..idle_input() });
    session.tick(click_at(v(0, 0, 0)));
    session.tick(click_at(v(9, 0, 0)));
    session.tick(FrameInput { hover_hit: Some(0), ..idle_input() });
    assert!(session.store.get(0).unwrap().changing);
    assert_eq!(session.picking.hovered, Some(0));
    session.tick(FrameInput { hover_hit: Some(1), ..idle_input() });
    assert!(session.store.get(1).unwrap().changing);
    assert_eq!(session.picking.prev_hovered, Some(0));
    assert_eq!(session.picking.hovered, Some(1));
}

#[test]
fn missing_cursor_sample_keeps_the_previous_position() {
    let mut session = SketchSession::new();
    session.tick(FrameInput { cursor_sample: Some(v(4, 4, 0)), ..idle_input() });
    assert_eq!(session.cursor.position, v(4, 4, 0));
    session.tick(idle_input());
    assert_eq!(session.cursor.position, v(4, 4, 0));
    assert_eq!(session.cursor.prev_position, v(4, 4, 0));
}

#[test]
fn stale_hover_identities_are_harmless() {
    let mut session = SketchSession::new();
    session.tick(FrameInput { line_key_pressed: true, ..idle_input() });
    // A hover identity that names no live entity reads as empty space.
    session.tick(FrameInput { hover_hit: Some(77), ..click_at(v(1, 1, 0)) });
    assert_eq!(session.current.dots, vec![0, 1]);
    assert_eq!(line_refs_of(&session, 2), (0, 1));
}

#[test]
fn hovering_a_line_reads_as_empty_space_to_the_chain() {
    let p1 = v(10, 0, 0);
    let p2 = v(10, 30, 0);
    let mut session = draw_segment(p1, p2);
    // Click while hovering the committed line (entity 2): the chain
    // continues with a new dot instead of snapping onto the line.
    let p3 = v(20, 30, 0);
    session.tick(FrameInput { hover_hit: Some(2), ..click_at(p3) });
    assert_eq!(dot_mode_of(&session, 5), (p3, DotMode::Temporary));
    assert_eq!(line_refs_of(&session, 6), (3, 5));
    assert_eq!(session.current.dots, vec![5]);
}
