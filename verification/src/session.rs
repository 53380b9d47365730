//! The sketch session controller: all per-session state in one place, and
//! the fixed per-tick pipeline of passes over it.
//!
//! One `tick` consumes the tick's plain input facts and runs the passes in
//! a fixed total order — picking, selection, mode switching, chaining,
//! redundancy check, drag propagation, mesh refresh, deletion — and ends
//! with the single flush that vacates every slot doomed during the tick.
//! Passes never interleave, and destruction stays deferred until that
//! flush, so a pass never assumes an entity despawned earlier in the same
//! tick is already gone. The pipeline is split into four groups — input,
//! mode, tools, motion — and each group's effect is pinned down by its own
//! post-state function; a tick is exactly their composition.

use vstd::prelude::*;

use crate::cursor::{cursor_wf, mark_hovered_post, Cursor, Picking};
use crate::dot::{finalize_dots_post, mark_moving_dots_post};
use crate::geom::{in_bounds, Vec3i};
use crate::line::{
    clear_redundant_post, delete_dependent_post, delete_selected_post, finalize_lines_post,
    handle_sketch_line_post, lemma_finalize_line_preserves_wf, mark_moving_lines_post,
    move_preview_post, refresh_frames_post,
};
use crate::selection::{deselect_others_post, toggle_select_post};
use crate::sketch::{
    apply_delta_post, delta_applicable, doom_ids, remove_moving_post, reset_current_post,
    spec_default_pos, Checked, Current, SketchMode,
};
use crate::store::{
    despawn_post, dot_at, dot_entry, entry_at, flush_post, is_dot, is_line, line_at, live,
    resolvable_dot, wf, DotMode, Entry, Shape, Store,
};

verus! {

/// The plain input facts a tick consumes, gathered by the windowing and
/// picking collaborators: an optional cursor world position (absent when
/// the cursor is outside the window or the ray misses the plane), the
/// ray-cast hit, and the tick's button and key edges.
#[derive(Clone, Copy, Debug, PartialEq, Eq, Structural)]
pub struct FrameInput {
    pub cursor_sample: Option<Vec3i>,
    pub hover_hit: Option<usize>,
    pub left_just_pressed: bool,
    pub left_held: bool,
    pub right_just_pressed: bool,
    pub escape_pressed: bool,
    pub dot_key_pressed: bool,
    pub line_key_pressed: bool,
    pub delete_key_pressed: bool,
    pub chain_select_held: bool,
}

/// The mathematical state of a session: the arena and the controller
/// resources, with collections abstracted to sequences.
#[verifier::ext_equal]
pub ghost struct SessionView {
    pub store: Seq<Option<Entry>>,
    pub cursor: Cursor,
    pub picking: Picking,
    pub dots: Seq<usize>,
    pub lines: Seq<usize>,
    pub scratch: Seq<Vec3i>,
    pub checked: Seq<Option<usize>>,
    pub mode: SketchMode,
}

/// A sketch session: the geometry arena plus every controller resource the
/// passes share. Exactly one chain may be in progress at a time.
pub struct SketchSession {
    pub store: Store,
    pub cursor: Cursor,
    pub picking: Picking,
    pub current: Current,
    pub checked: Checked,
    pub mode: SketchMode,
}

impl View for SketchSession {
    type V = SessionView;

    open spec fn view(&self) -> SessionView {
        SessionView {
            store: self.store@,
            cursor: self.cursor,
            picking: self.picking,
            dots: self.current.dots@,
            lines: self.current.lines@,
            scratch: self.current.position@,
            checked: self.checked.lines@,
            mode: self.mode,
        }
    }
}

/// The scratch array of a chain at rest: all three slots unset.
pub open spec fn default_scratch() -> Seq<Vec3i> {
    seq![spec_default_pos(), spec_default_pos(), spec_default_pos()]
}

/// The invariant every tick preserves: a well-formed arena, bounded cursor
/// positions, and chain references that stay inside the arena, name dot
/// slots only, and keep a preview line pending whenever a chain dot is.
pub open spec fn session_inv(v: SessionView) -> bool {
    &&& wf(v.store)
    &&& cursor_wf(v.cursor)
    &&& forall|i: int|
        0 <= i < v.dots.len() ==> #[trigger] v.dots[i] < v.store.len() && !is_line(
            v.store,
            v.dots[i] as int,
        )
    &&& forall|i: int| 0 <= i < v.lines.len() ==> #[trigger] v.lines[i] < v.store.len()
    &&& v.dots.len() > 0 ==> v.lines.len() > 0
}

/// The hover signal as the chaining engine reads it: only a hovered dot
/// counts as hovered geometry, since a line's references must name dots;
/// anything else reads as empty space.
pub open spec fn chain_hover(s: Seq<Option<Entry>>, hit: Option<usize>) -> Option<usize> {
    match hit {
        Some(h) => if resolvable_dot(s, h as int) {
            Some(h)
        } else {
            None
        },
        None => None,
    }
}

/// The input group: take the tick's cursor sample and ray-cast hit, mark
/// hover transitions for a visual refresh, and update the selection on a
/// left click (toggling only while no tool is active).
pub open spec fn input_passes_post(v: SessionView, input: FrameInput) -> SessionView {
    let cursor1 = Cursor {
        position: match input.cursor_sample {
            Some(p) => p,
            None => v.cursor.position,
        },
        prev_position: v.cursor.position,
    };
    let picking1 = Picking { hovered: input.hover_hit, prev_hovered: v.picking.hovered };
    let s1 = mark_hovered_post(v.store, picking1);
    let s2 = if input.left_just_pressed && v.mode == SketchMode::Idle {
        toggle_select_post(s1, picking1)
    } else {
        s1
    };
    let s3 = if input.left_just_pressed {
        deselect_others_post(s2, picking1, input.chain_select_held)
    } else {
        s2
    };
    SessionView {
        store: s3,
        cursor: cursor1,
        picking: picking1,
        dots: v.dots,
        lines: v.lines,
        scratch: v.scratch,
        checked: v.checked,
        mode: v.mode,
    }
}

/// The mode group: shortcut keys switch the tool (escape first, then the
/// dot key, then the line key), and a right click abandons the chain
/// without changing the tool; every switch abandons the chain too.
pub open spec fn mode_passes_post(v: SessionView, input: FrameInput) -> SessionView {
    let switched = input.escape_pressed || input.dot_key_pressed || input.line_key_pressed;
    let mode1 = if input.escape_pressed {
        SketchMode::Idle
    } else if input.dot_key_pressed {
        SketchMode::Dot
    } else if input.line_key_pressed {
        SketchMode::Line
    } else {
        v.mode
    };
    let s4 = if switched {
        reset_current_post(v.store, v.dots, v.lines)
    } else {
        v.store
    };
    let dots1 = if switched {
        Seq::<usize>::empty()
    } else {
        v.dots
    };
    let lines1 = if switched {
        Seq::<usize>::empty()
    } else {
        v.lines
    };
    let scratch1 = if switched {
        default_scratch()
    } else {
        v.scratch
    };
    let s5 = if input.right_just_pressed {
        reset_current_post(s4, dots1, lines1)
    } else {
        s4
    };
    SessionView {
        store: s5,
        cursor: v.cursor,
        picking: v.picking,
        dots: if input.right_just_pressed {
            Seq::<usize>::empty()
        } else {
            dots1
        },
        lines: if input.right_just_pressed {
            Seq::<usize>::empty()
        } else {
            lines1
        },
        scratch: if input.right_just_pressed {
            default_scratch()
        } else {
            scratch1
        },
        checked: v.checked,
        mode: mode1,
    }
}

/// The tool group: on a left click in line mode the chain advances — dots
/// are finalized when nothing is hovered, the preview line is finalized,
/// the four-way chain step runs, and the queued line is checked for
/// redundancy; a left click in dot mode places a committed dot; and in
/// line mode the pending end dot follows the cursor as a live preview.
pub open spec fn tool_passes_post(v: SessionView, input: FrameInput) -> SessionView {
    let line_click = v.mode == SketchMode::Line && input.left_just_pressed;
    let ch = chain_hover(v.store, v.picking.hovered);
    let s6 = if line_click && ch is None {
        finalize_dots_post(v.store, v.dots)
    } else {
        v.store
    };
    let s7 = if line_click {
        finalize_lines_post(s6, v.lines)
    } else {
        s6
    };
    let clicked = if line_click {
        handle_sketch_line_post(s7, v.cursor.position, v.dots, v.lines, ch)
    } else {
        (s7, v.dots, v.lines, v.checked)
    };
    let rc = if line_click {
        clear_redundant_post(clicked.0, clicked.3)
    } else {
        (clicked.0, clicked.3)
    };
    let s10 = if v.mode == SketchMode::Dot && input.left_just_pressed {
        rc.0.push(Some(dot_entry(v.cursor.position, DotMode::Final)))
    } else {
        rc.0
    };
    let s11 = if v.mode == SketchMode::Line {
        move_preview_post(s10, v.cursor.position, clicked.1)
    } else {
        s10
    };
    SessionView {
        store: s11,
        cursor: v.cursor,
        picking: v.picking,
        dots: clicked.1,
        lines: clicked.2,
        scratch: v.scratch,
        checked: rc.1,
        mode: v.mode,
    }
}

/// The drag group: while dragging, the selection and its one-hop
/// neighbours get the moving tag and everything marked moves by the
/// tick's cursor delta; line placements are refreshed whenever the cursor
/// moved, and the moving tags are swept once it rests.
pub open spec fn drag_passes_post(v: SessionView, input: FrameInput) -> SessionView {
    let cursor_moving = v.cursor.position != v.cursor.prev_position;
    let dragging = input.left_held && cursor_moving;
    let s13 = if dragging {
        mark_moving_lines_post(mark_moving_dots_post(v.store))
    } else {
        v.store
    };
    let delta = v.cursor.position.spec_sub(v.cursor.prev_position);
    let s14 = if dragging && delta_applicable(s13, delta) {
        apply_delta_post(s13, delta)
    } else {
        s13
    };
    let s15 = if cursor_moving {
        refresh_frames_post(s14)
    } else {
        remove_moving_post(s14)
    };
    SessionView {
        store: s15,
        cursor: v.cursor,
        picking: v.picking,
        dots: v.dots,
        lines: v.lines,
        scratch: v.scratch,
        checked: v.checked,
        mode: v.mode,
    }
}

/// The cleanup group: a delete-key press runs the two-pass deletion
/// cascade, and the end-of-tick flush vacates every doomed slot.
pub open spec fn cleanup_passes_post(v: SessionView, input: FrameInput) -> SessionView {
    let s16 = if input.delete_key_pressed {
        delete_dependent_post(delete_selected_post(v.store))
    } else {
        v.store
    };
    SessionView {
        store: flush_post(s16),
        cursor: v.cursor,
        picking: v.picking,
        dots: v.dots,
        lines: v.lines,
        scratch: v.scratch,
        checked: v.checked,
        mode: v.mode,
    }
}

/// The motion group: dragging and mesh upkeep, then deletion and the
/// end-of-tick flush.
pub open spec fn motion_passes_post(v: SessionView, input: FrameInput) -> SessionView {
    cleanup_passes_post(drag_passes_post(v, input), input)
}

/// Everything one tick does, as a function of the state and the tick's
/// input: the four pass groups in their fixed order.
pub open spec fn tick_post(v: SessionView, input: FrameInput) -> SessionView {
    motion_passes_post(
        tool_passes_post(mode_passes_post(input_passes_post(v, input), input), input),
        input,
    )
}

/// Slot `b` keeps the kind of slot `a`, and a line's references: the pass
/// may change tags, destruction flags, a dot's position or lifecycle mode,
/// or a line's placement, and nothing else.
pub open spec fn slot_kind_kept(a: Option<Entry>, b: Option<Entry>) -> bool {
    match (a, b) {
        (Some(x), Some(y)) => {
            &&& (x.shape is Line <==> y.shape is Line)
            &&& x.shape is Line ==> x.shape->Line_0.start == y.shape->Line_0.start
                && x.shape->Line_0.end == y.shape->Line_0.end
        },
        (None, None) => true,
        (Some(x), None) => true,
        (None, Some(y)) => false,
    }
}

/// A pass whose every slot keeps its kind and line references, and whose
/// dots all stay bounded, preserves well-formedness; and it never turns a
/// non-line slot into a line.
proof fn lemma_kept_pass(s: Seq<Option<Entry>>, t: Seq<Option<Entry>>)
    requires
        wf(s),
        t.len() == s.len(),
        forall|i: int| 0 <= i < s.len() ==> slot_kind_kept(s[i], #[trigger] t[i]),
        forall|i: int| #[trigger] is_dot(t, i) ==> in_bounds(dot_at(t, i).position),
    ensures
        wf(t),
        forall|i: int| #[trigger] is_line(t, i) ==> is_line(s, i),
{
    assert forall|i: int| #[trigger] is_line(t, i) implies is_line(s, i) by {
        assert(slot_kind_kept(s[i], t[i]));
    }
    assert forall|i: int|
        #[trigger] is_line(t, i) implies is_line(s, i) && line_at(t, i).start == line_at(
        s,
        i,
    ).start && line_at(t, i).end == line_at(s, i).end by {
        assert(slot_kind_kept(s[i], t[i]));
    }
    crate::store::lemma_wf_pointwise(s, t);
}

/// Dooming a list of identities keeps every slot's kind, references and
/// dot positions.
proof fn lemma_doom_ids_kept(s: Seq<Option<Entry>>, ids: Seq<usize>)
    ensures
        doom_ids(s, ids).len() == s.len(),
        forall|i: int| 0 <= i < s.len() ==> slot_kind_kept(s[i], #[trigger] doom_ids(s, ids)[i]),
        forall|i: int|
            #[trigger] is_dot(doom_ids(s, ids), i) ==> is_dot(s, i) && dot_at(doom_ids(s, ids), i)
                == dot_at(s, i),
    decreases ids.len(),
{
    if ids.len() > 0 {
        let rest = ids.drop_last();
        lemma_doom_ids_kept(s, rest);
        let d = doom_ids(s, rest);
        let last = ids.last() as int;
        assert forall|i: int| 0 <= i < s.len() implies slot_kind_kept(
            s[i],
            #[trigger] doom_ids(s, ids)[i],
        ) by {
            assert(slot_kind_kept(s[i], d[i]));
        }
        assert forall|i: int| #[trigger] is_dot(doom_ids(s, ids), i) implies is_dot(s, i)
            && dot_at(doom_ids(s, ids), i) == dot_at(s, i) by {
            assert(is_dot(d, i) && dot_at(d, i) == dot_at(s, i));
        }
    }
}

/// A chain reset preserves well-formedness and slot kinds.
proof fn lemma_reset_kept(s: Seq<Option<Entry>>, dots: Seq<usize>, lines: Seq<usize>)
    requires
        wf(s),
    ensures
        reset_current_post(s, dots, lines).len() == s.len(),
        wf(reset_current_post(s, dots, lines)),
        forall|i: int| #[trigger] is_line(reset_current_post(s, dots, lines), i) ==> is_line(s, i),
        forall|i: int|
            #[trigger] is_dot(reset_current_post(s, dots, lines), i) ==> in_bounds(
                dot_at(reset_current_post(s, dots, lines), i).position,
            ),
{
    let d1 = doom_ids(s, lines);
    let d2 = doom_ids(d1, dots);
    lemma_doom_ids_kept(s, lines);
    lemma_doom_ids_kept(d1, dots);
    assert forall|i: int| #[trigger] is_dot(d2, i) implies in_bounds(dot_at(d2, i).position) by {
        assert(is_dot(d1, i) && dot_at(d1, i) == dot_at(d2, i));
        assert(is_dot(s, i) && dot_at(s, i) == dot_at(d1, i));
    }
    assert forall|i: int| 0 <= i < s.len() implies slot_kind_kept(s[i], #[trigger] d2[i]) by {
        assert(slot_kind_kept(s[i], d1[i]));
        assert(slot_kind_kept(d1[i], d2[i]));
    }
    lemma_kept_pass(s, d2);
}

/// Finalizing a list of dots preserves slot kinds and dot positions.
proof fn lemma_finalize_dots_kept(s: Seq<Option<Entry>>, ids: Seq<usize>)
    ensures
        finalize_dots_post(s, ids).len() == s.len(),
        forall|i: int|
            0 <= i < s.len() ==> slot_kind_kept(s[i], #[trigger] finalize_dots_post(s, ids)[i]),
        forall|i: int|
            #[trigger] is_dot(finalize_dots_post(s, ids), i) ==> is_dot(s, i) && dot_at(
                finalize_dots_post(s, ids),
                i,
            ).position == dot_at(s, i).position,
        forall|i: int| #[trigger] is_dot(s, i) ==> is_dot(finalize_dots_post(s, ids), i),
    decreases ids.len(),
{
    if ids.len() > 0 {
        let rest = ids.drop_last();
        lemma_finalize_dots_kept(s, rest);
        let d = finalize_dots_post(s, rest);
        assert forall|i: int| 0 <= i < s.len() implies slot_kind_kept(
            s[i],
            #[trigger] finalize_dots_post(s, ids)[i],
        ) by {
            assert(slot_kind_kept(s[i], d[i]));
        }
        assert forall|i: int| #[trigger] is_dot(finalize_dots_post(s, ids), i) implies is_dot(s, i)
            && dot_at(finalize_dots_post(s, ids), i).position == dot_at(s, i).position by {
            assert(is_dot(d, i) && dot_at(d, i).position == dot_at(s, i).position);
        }
        assert forall|i: int| #[trigger] is_dot(s, i) implies is_dot(
            finalize_dots_post(s, ids),
            i,
        ) by {
            assert(is_dot(d, i));
        }
    }
}

/// Finalizing a list of lines preserves well-formedness, slot kinds and
/// dot records.
proof fn lemma_finalize_lines_kept(s: Seq<Option<Entry>>, ids: Seq<usize>)
    requires
        wf(s),
    ensures
        finalize_lines_post(s, ids).len() == s.len(),
        wf(finalize_lines_post(s, ids)),
        forall|i: int| #[trigger] is_line(finalize_lines_post(s, ids), i) ==> is_line(s, i),
        forall|i: int|
            #[trigger] is_dot(finalize_lines_post(s, ids), i) ==> is_dot(s, i) && dot_at(
                finalize_lines_post(s, ids),
                i,
            ) == dot_at(s, i),
        forall|i: int| #[trigger] is_dot(s, i) ==> is_dot(finalize_lines_post(s, ids), i),
    decreases ids.len(),
{
    if ids.len() > 0 {
        let rest = ids.drop_last();
        lemma_finalize_lines_kept(s, rest);
        let d = finalize_lines_post(s, rest);
        lemma_finalize_line_preserves_wf(d, ids.last() as int);
        let t = finalize_lines_post(s, ids);
        assert forall|i: int| #[trigger] is_line(t, i) implies is_line(s, i) by {
            assert(is_line(d, i));
        }
        assert forall|i: int| #[trigger] is_dot(t, i) implies is_dot(s, i) && dot_at(t, i)
            == dot_at(s, i) by {
            assert(is_dot(d, i) && dot_at(d, i) == dot_at(s, i));
        }
        assert forall|i: int| #[trigger] is_dot(s, i) implies is_dot(t, i) by {
            assert(is_dot(d, i));
        }
    }
}

/// A committed chain click keeps the arena well-formed and leaves the new
/// chain references valid: in range, dots only, and one preview line.
proof fn lemma_handle_kept(
    s: Seq<Option<Entry>>,
    pos: Vec3i,
    dots: Seq<usize>,
    lines: Seq<usize>,
    hovered: Option<usize>,
)
    requires
        wf(s),
        s.len() + 2 <= usize::MAX,
        in_bounds(pos),
        hovered matches Some(h) ==> is_dot(s, h as int),
        forall|i: int|
            0 <= i < dots.len() ==> #[trigger] dots[i] < s.len() && !is_line(s, dots[i] as int),
        dots.len() > 0 ==> lines.len() > 0,
    ensures
        ({
            let post = handle_sketch_line_post(s, pos, dots, lines, hovered);
            &&& post.0.len() >= s.len()
            &&& wf(post.0)
            &&& forall|i: int|
                0 <= i < post.1.len() ==> #[trigger] post.1[i] < post.0.len() && !is_line(
                    post.0,
                    post.1[i] as int,
                )
            &&& forall|i: int| 0 <= i < post.2.len() ==> #[trigger] post.2[i] < post.0.len()
            &&& forall|i: int| #[trigger] is_line(post.0, i) ==> i >= s.len() || is_line(s, i)
        }),
{
    let post = handle_sketch_line_post(s, pos, dots, lines, hovered);
    let t = post.0;
    if dots.len() == 0 && hovered is None {
        assert forall|i: int| #[trigger] is_line(t, i) implies {
            &&& line_at(t, i).start < t.len()
            &&& line_at(t, i).end < t.len()
            &&& !is_line(t, line_at(t, i).start as int)
            &&& !is_line(t, line_at(t, i).end as int)
        } by {
            if i < s.len() {
                assert(is_line(s, i));
                assert(!is_line(s, line_at(s, i).start as int));
                assert(!is_line(s, line_at(s, i).end as int));
            }
        }
        assert forall|i: int| #[trigger] is_dot(t, i) implies in_bounds(dot_at(t, i).position) by {
            if i < s.len() {
                assert(is_dot(s, i));
            }
        }
    } else {
        let start: usize = if hovered is Some {
            hovered->0
        } else {
            dots.last()
        };
        let li = if lines.len() > 0 {
            lines[0] as int
        } else {
            -1
        };
        let swapped = if hovered is Some && dots.len() > 0 && lines.len() > 0
            && crate::store::resolvable_line(s, li) {
            s.update(li, Some(crate::line::line_with_end(entry_at(s, li), start)))
        } else {
            s
        };
        let s1 = if hovered is Some && dots.len() > 0 {
            let orphan = if lines.len() > 0 && crate::store::resolvable_line(s, li) {
                line_at(s, li).end as int
            } else {
                dots.last() as int
            };
            despawn_post(swapped, orphan)
        } else {
            s
        };
        assert(s1.len() == s.len());
        assert(!is_line(s, start as int));
        assert forall|i: int| #[trigger] is_line(t, i) implies {
            &&& line_at(t, i).start < t.len()
            &&& line_at(t, i).end < t.len()
            &&& !is_line(t, line_at(t, i).start as int)
            &&& !is_line(t, line_at(t, i).end as int)
        } by {
            if i < s.len() {
                assert(is_line(s1, i) ==> is_line(s, i) && line_at(s1, i).start == line_at(
                    s,
                    i,
                ).start);
                assert(is_line(s, i));
                assert(!is_line(s, line_at(s, i).start as int));
                assert(!is_line(s, line_at(s, i).end as int));
                if is_line(t, line_at(t, i).start as int) {
                    assert(is_line(s, line_at(t, i).start as int));
                }
                if is_line(t, line_at(t, i).end as int) {
                    assert(is_line(s, line_at(t, i).end as int));
                }
            }
        }
        assert forall|i: int| #[trigger] is_dot(t, i) implies in_bounds(dot_at(t, i).position) by {
            if i < s.len() {
                assert(is_dot(s, i));
            }
        }
    }
}

/// Chain invariant at the tick level: a tick whose left click commits a
/// chain step (line mode after this tick's mode switching) always leaves
/// exactly one pending preview line, and exactly one pending end dot —
/// two when the click opened a fresh chain over empty space.
pub proof fn lemma_tick_chain_invariant(v: SessionView, input: FrameInput)
    requires
        input.left_just_pressed,
        (if input.escape_pressed {
            SketchMode::Idle
        } else if input.dot_key_pressed {
            SketchMode::Dot
        } else if input.line_key_pressed {
            SketchMode::Line
        } else {
            v.mode
        }) == SketchMode::Line,
    ensures
        tick_post(v, input).lines.len() == 1,
        tick_post(v, input).dots.len() == 1 || tick_post(v, input).dots.len() == 2,
{
    let v2 = mode_passes_post(input_passes_post(v, input), input);
    let ch = chain_hover(v2.store, v2.picking.hovered);
    let s6 = if ch is None {
        finalize_dots_post(v2.store, v2.dots)
    } else {
        v2.store
    };
    let s7 = finalize_lines_post(s6, v2.lines);
    crate::line::lemma_chain_invariant(s7, v2.cursor.position, v2.dots, v2.lines, ch);
}

/// Deletion cascade closure at the tick level: after a tick in which the
/// delete key was pressed, every line still present in the arena refers to
/// two present dots.
pub proof fn lemma_tick_deletion_closure(v: SessionView, input: FrameInput)
    requires
        input.delete_key_pressed,
    ensures
        ({
            let after = tick_post(v, input).store;
            forall|i: int|
                #[trigger] is_line(after, i) ==> is_dot(after, line_at(after, i).start as int)
                    && is_dot(after, line_at(after, i).end as int)
        }),
{
    let v3 = tool_passes_post(mode_passes_post(input_passes_post(v, input), input), input);
    let v4 = drag_passes_post(v3, input);
    crate::line::lemma_deletion_cascade_closure(v4.store);
}

impl SketchSession {
    /// A fresh session: empty arena, cursor at the origin, nothing hovered,
    /// no chain in progress, no queued check, no active tool.
    pub fn new() -> (s: SketchSession)
        ensures
            session_inv(s@),
            s@.store == Seq::<Option<Entry>>::empty(),
            s@.cursor == (Cursor { position: Vec3i::spec_zero(), prev_position: Vec3i::spec_zero() }),
            s@.picking == (Picking { hovered: None, prev_hovered: None }),
            s@.dots.len() == 0,
            s@.lines.len() == 0,
            s@.checked.len() == 0,
            s@.mode == SketchMode::Idle,
    {
        SketchSession {
            store: Store::new(),
            cursor: Cursor::default(),
            picking: Picking::default(),
            current: Current::default(),
            checked: Checked::default(),
            mode: SketchMode::Idle,
        }
    }

    /// Input group: picking adapter, hover-transition marks, selection.
    fn run_input_passes(&mut self, input: FrameInput)
        requires
            session_inv(old(self)@),
            input.cursor_sample matches Some(p) ==> in_bounds(p),
        ensures
            final(self)@ == input_passes_post(old(self)@, input),
            session_inv(final(self)@),
    {
        let ghost v0 = self@;
        crate::cursor::update_cursor(&mut self.cursor, input.cursor_sample);
        crate::cursor::hover_entity(&mut self.picking, input.hover_hit);
        crate::cursor::mark_hovered_changing_material(&mut self.store, &self.picking);
        proof {
            let picking1 = Picking { hovered: input.hover_hit, prev_hovered: v0.picking.hovered };
            assert(self.picking == picking1);
            let s1 = mark_hovered_post(v0.store, picking1);
            assert forall|i: int| 0 <= i < v0.store.len() implies slot_kind_kept(
                v0.store[i],
                #[trigger] s1[i],
            ) by {}
            assert forall|i: int| #[trigger] is_dot(s1, i) implies in_bounds(
                dot_at(s1, i).position,
            ) by {
                assert(is_dot(v0.store, i) && dot_at(s1, i) == dot_at(v0.store, i));
            }
            lemma_kept_pass(v0.store, s1);
        }
        if input.left_just_pressed {
            if self.mode == SketchMode::Idle {
                crate::selection::toggle_select_entity(&mut self.store, &self.picking);
            }
            crate::selection::deselect_other_entities(
                &mut self.store,
                &self.picking,
                input.chain_select_held,
            );
        }
        proof {
            let picking1 = self.picking;
            let s1 = mark_hovered_post(v0.store, picking1);
            let s2 = if input.left_just_pressed && v0.mode == SketchMode::Idle {
                toggle_select_post(s1, picking1)
            } else {
                s1
            };
            let s3 = self.store@;
            assert(s3 == (if input.left_just_pressed {
                deselect_others_post(s2, picking1, input.chain_select_held)
            } else {
                s2
            }));
            assert forall|i: int| 0 <= i < s1.len() implies slot_kind_kept(
                s1[i],
                #[trigger] s2[i],
            ) by {}
            assert forall|i: int| #[trigger] is_dot(s2, i) implies in_bounds(
                dot_at(s2, i).position,
            ) by {
                assert(is_dot(s1, i) && dot_at(s2, i) == dot_at(s1, i));
            }
            lemma_kept_pass(s1, s2);
            assert forall|i: int| 0 <= i < s2.len() implies slot_kind_kept(
                s2[i],
                #[trigger] s3[i],
            ) by {}
            assert forall|i: int| #[trigger] is_dot(s3, i) implies in_bounds(
                dot_at(s3, i).position,
            ) by {
                assert(is_dot(s2, i) && dot_at(s3, i) == dot_at(s2, i));
            }
            lemma_kept_pass(s2, s3);
            assert forall|i: int|
                0 <= i < v0.dots.len() implies #[trigger] v0.dots[i] < s3.len() && !is_line(
                s3,
                v0.dots[i] as int,
            ) by {
                if is_line(s3, v0.dots[i] as int) {
                    assert(is_line(s2, v0.dots[i] as int));
                    assert(is_line(s1, v0.dots[i] as int));
                    assert(is_line(v0.store, v0.dots[i] as int));
                }
            }
            assert(self@ =~= input_passes_post(v0, input));
        }
    }

    /// Mode group: shortcut keys switch the tool; a right click abandons
    /// the chain in progress without changing the tool.
    fn run_mode_passes(&mut self, input: FrameInput)
        requires
            session_inv(old(self)@),
        ensures
            final(self)@ == mode_passes_post(old(self)@, input),
            session_inv(final(self)@),
    {
        let ghost v0 = self@;
        crate::sketch::change_sketch_mode(
            &mut self.store,
            &mut self.current,
            &mut self.mode,
            input.escape_pressed,
            input.dot_key_pressed,
            input.line_key_pressed,
        );
        proof {
            lemma_reset_kept(v0.store, v0.dots, v0.lines);
        }
        if input.right_just_pressed {
            crate::sketch::reset_current(&mut self.store, &mut self.current);
        }
        proof {
            let switched = input.escape_pressed || input.dot_key_pressed
                || input.line_key_pressed;
            let s4 = if switched {
                reset_current_post(v0.store, v0.dots, v0.lines)
            } else {
                v0.store
            };
            let dots1 = if switched {
                Seq::<usize>::empty()
            } else {
                v0.dots
            };
            let lines1 = if switched {
                Seq::<usize>::empty()
            } else {
                v0.lines
            };
            lemma_reset_kept(s4, dots1, lines1);
            let s5 = self.store@;
            assert(wf(s5));
            assert forall|i: int|
                0 <= i < self.current.dots@.len() implies #[trigger] self.current.dots@[i]
                < s5.len() && !is_line(s5, self.current.dots@[i] as int) by {
                assert(self.current.dots@[i] == v0.dots[i]);
                assert(v0.dots[i] < v0.store.len());
                if is_line(s5, v0.dots[i] as int) {
                    assert(is_line(s4, v0.dots[i] as int));
                    assert(is_line(v0.store, v0.dots[i] as int));
                }
            }
            assert(self@ =~= mode_passes_post(v0, input));
        }
    }

    /// Tool group: the chaining engine with its redundancy check on a left
    /// click in line mode, the dot tool on a left click in dot mode, and
    /// the live preview in line mode. Only a hovered dot counts as hovered
    /// geometry for the chain: a line's references must name dots.
    fn run_tool_passes(&mut self, input: FrameInput)
        requires
            session_inv(old(self)@),
        ensures
            final(self)@ == tool_passes_post(old(self)@, input),
            session_inv(final(self)@),
    {
        let ghost v0 = self@;
        let ghost s5 = v0.store;
        let ghost dots2 = v0.dots;
        let ghost lines2 = v0.lines;
        let line_click = match self.mode {
            SketchMode::Line => input.left_just_pressed,
            _ => false,
        };
        if line_click {
            let chain_picking = Picking {
                hovered: match self.picking.hovered {
                    Some(h) => {
                        match self.store.get(h) {
                            Some(e) => {
                                let hovered_dot = match e.shape {
                                    Shape::Dot(_) => true,
                                    Shape::Line(_) => false,
                                };
                                if !e.doomed && hovered_dot {
                                    Some(h)
                                } else {
                                    None
                                }
                            },
                            None => None,
                        }
                    },
                    None => None,
                },
                prev_hovered: self.picking.prev_hovered,
            };
            proof {
                assert(chain_picking.hovered == chain_hover(s5, v0.picking.hovered));
            }
            let hover_empty = match chain_picking.hovered {
                Some(_) => false,
                None => true,
            };
            if hover_empty {
                crate::dot::finalize_dots(&mut self.store, &self.current);
            }
            proof {
                let s6 = self.store@;
                lemma_finalize_dots_kept(s5, dots2);
                assert forall|i: int| 0 <= i < s5.len() implies slot_kind_kept(
                    s5[i],
                    #[trigger] s6[i],
                ) by {
                    if s6 != s5 {
                        assert(slot_kind_kept(s5[i], finalize_dots_post(s5, dots2)[i]));
                    }
                }
                assert forall|i: int| #[trigger] is_dot(s6, i) implies in_bounds(
                    dot_at(s6, i).position,
                ) by {
                    if s6 != s5 {
                        assert(is_dot(s5, i) && dot_at(s6, i).position == dot_at(
                            s5,
                            i,
                        ).position);
                    }
                }
                lemma_kept_pass(s5, s6);
            }
            let ghost s6 = self.store@;
            crate::line::finalize_lines(&mut self.store, &self.current);
            let ghost s7 = self.store@;
            proof {
                lemma_finalize_lines_kept(s6, lines2);
                assert forall|i: int|
                    0 <= i < dots2.len() implies #[trigger] dots2[i] < s7.len() && !is_line(
                    s7,
                    dots2[i] as int,
                ) by {
                    if is_line(s7, dots2[i] as int) {
                        assert(is_line(s6, dots2[i] as int));
                        assert(is_line(s5, dots2[i] as int));
                    }
                }
                match chain_picking.hovered {
                    Some(h) => {
                        assert(resolvable_dot(s5, h as int));
                        assert(is_dot(s5, h as int));
                        assert(is_dot(s6, h as int)) by {
                            if s6 != s5 {
                                lemma_finalize_dots_kept(s5, dots2);
                            }
                        }
                        assert(is_dot(s7, h as int));
                    },
                    None => {},
                }
            }
            crate::line::handle_sketch_line(
                &mut self.store,
                &self.cursor,
                &mut self.current,
                &chain_picking,
                &mut self.checked,
            );
            // Reading the arena length here bounds the identities the click
            // handed out, which the well-formedness argument below needs.
            let _arena_len = self.store.len();
            proof {
                assert(s7.len() + 2 <= usize::MAX);
                lemma_handle_kept(s7, self.cursor.position, dots2, lines2, chain_picking.hovered);
            }
            crate::line::clear_redundant(&mut self.store, &mut self.checked);
            proof {
                let post = handle_sketch_line_post(
                    s7,
                    self.cursor.position,
                    dots2,
                    lines2,
                    chain_hover(s5, v0.picking.hovered),
                );
                let rc = clear_redundant_post(post.0, post.3);
                assert(self.store@ == rc.0);
                assert forall|i: int| 0 <= i < post.0.len() implies slot_kind_kept(
                    post.0[i],
                    #[trigger] rc.0[i],
                ) by {}
                assert forall|i: int| #[trigger] is_dot(rc.0, i) implies in_bounds(
                    dot_at(rc.0, i).position,
                ) by {
                    assert(is_dot(post.0, i) && dot_at(rc.0, i) == dot_at(post.0, i));
                }
                lemma_kept_pass(post.0, rc.0);
                assert forall|i: int|
                    0 <= i < self.current.dots@.len() implies #[trigger] self.current.dots@[i]
                    < self.store@.len() && !is_line(self.store@, self.current.dots@[i] as int) by {
                    if is_line(rc.0, self.current.dots@[i] as int) {
                        assert(is_line(post.0, self.current.dots@[i] as int));
                    }
                }
            }
        }
        let ghost s9 = self.store@;
        let ghost dots3 = self.current.dots@;

        let dot_click = match self.mode {
            SketchMode::Dot => input.left_just_pressed,
            _ => false,
        };
        if dot_click {
            crate::dot::spawn_dot(&mut self.store, &self.cursor);
        }
        let ghost s10 = self.store@;
        proof {
            if dot_click {
                assert forall|i: int| #[trigger] is_line(s10, i) implies {
                    &&& line_at(s10, i).start < s10.len()
                    &&& line_at(s10, i).end < s10.len()
                    &&& !is_line(s10, line_at(s10, i).start as int)
                    &&& !is_line(s10, line_at(s10, i).end as int)
                } by {
                    assert(i < s9.len());
                    assert(is_line(s9, i));
                    assert(!is_line(s9, line_at(s9, i).start as int));
                    assert(!is_line(s9, line_at(s9, i).end as int));
                }
                assert forall|i: int| #[trigger] is_dot(s10, i) implies in_bounds(
                    dot_at(s10, i).position,
                ) by {
                    if i < s9.len() {
                        assert(is_dot(s9, i));
                    }
                }
                assert(wf(s10));
                assert forall|i: int|
                    0 <= i < dots3.len() implies #[trigger] dots3[i] < s10.len() && !is_line(
                    s10,
                    dots3[i] as int,
                ) by {
                    if is_line(s10, dots3[i] as int) {
                        assert(is_line(s9, dots3[i] as int));
                    }
                }
            }
        }

        let in_line_mode = match self.mode {
            SketchMode::Line => true,
            _ => false,
        };
        if in_line_mode {
            crate::line::handle_move_current_line(&mut self.store, &self.cursor, &self.current);
        }
        proof {
            let s11 = self.store@;
            assert forall|i: int| 0 <= i < s10.len() implies slot_kind_kept(
                s10[i],
                #[trigger] s11[i],
            ) by {}
            assert forall|i: int| #[trigger] is_dot(s11, i) implies in_bounds(
                dot_at(s11, i).position,
            ) by {
                if dot_at(s11, i) != dot_at(s10, i) {
                    assert(dot_at(s11, i).position == self.cursor.position);
                } else {
                    assert(is_dot(s10, i));
                }
            }
            lemma_kept_pass(s10, s11);
            assert forall|i: int|
                0 <= i < dots3.len() implies #[trigger] dots3[i] < s11.len() && !is_line(
                s11,
                dots3[i] as int,
            ) by {
                if is_line(s11, dots3[i] as int) {
                    assert(is_line(s10, dots3[i] as int));
                }
            }
            assert(self@ =~= tool_passes_post(v0, input));
        }
    }

    /// Drag group: drag propagation, then mesh refresh or drag sweep.
    #[verifier::rlimit(50)]
    fn run_drag_passes(&mut self, input: FrameInput)
        requires
            session_inv(old(self)@),
        ensures
            final(self)@ == drag_passes_post(old(self)@, input),
            session_inv(final(self)@),
    {
        let ghost v0 = self@;
        let ghost s11 = v0.store;
        let ghost dots3 = v0.dots;
        let dragging = crate::sketch::is_dragging(input.left_held, &self.cursor);
        if dragging {
            crate::dot::mark_moving_dots(&mut self.store);
            crate::line::mark_moving_lines(&mut self.store);
            let delta = self.cursor.position.sub(self.cursor.prev_position);
            if crate::sketch::can_apply_delta(&self.store, delta) {
                crate::sketch::update_moving_transforms(&mut self.store, delta);
            }
        }
        let ghost s14 = self.store@;
        proof {
            let s12 = mark_moving_dots_post(s11);
            let s13 = mark_moving_lines_post(s12);
            if dragging {
                assert forall|i: int| 0 <= i < s11.len() implies slot_kind_kept(
                    s11[i],
                    #[trigger] s12[i],
                ) by {}
                assert forall|i: int| #[trigger] is_dot(s12, i) implies in_bounds(
                    dot_at(s12, i).position,
                ) by {
                    assert(is_dot(s11, i) && dot_at(s12, i).position == dot_at(
                        s11,
                        i,
                    ).position);
                }
                lemma_kept_pass(s11, s12);
                assert forall|i: int| 0 <= i < s12.len() implies slot_kind_kept(
                    s12[i],
                    #[trigger] s13[i],
                ) by {}
                assert forall|i: int| #[trigger] is_dot(s13, i) implies in_bounds(
                    dot_at(s13, i).position,
                ) by {
                    assert(is_dot(s12, i) && dot_at(s13, i).position == dot_at(
                        s12,
                        i,
                    ).position);
                }
                lemma_kept_pass(s12, s13);
                let delta = self.cursor.position.spec_sub(self.cursor.prev_position);
                if delta_applicable(s13, delta) {
                    crate::sketch::lemma_apply_delta_preserves_wf(s13, delta);
                    assert forall|i: int| 0 <= i < s13.len() implies slot_kind_kept(
                        s13[i],
                        #[trigger] s14[i],
                    ) by {}
                    assert forall|i: int| #[trigger] is_line(s14, i) implies is_line(s13, i) by {
                        assert(slot_kind_kept(s13[i], s14[i]));
                    }
                }
            }
            assert(wf(s14));
            assert forall|i: int|
                0 <= i < dots3.len() implies #[trigger] dots3[i] < s14.len() && !is_line(
                s14,
                dots3[i] as int,
            ) by {
                if dragging {
                    if is_line(s14, dots3[i] as int) {
                        assert(is_line(s13, dots3[i] as int));
                        assert(is_line(s12, dots3[i] as int));
                        assert(is_line(s11, dots3[i] as int));
                    }
                } else {
                    if is_line(s14, dots3[i] as int) {
                        assert(is_line(s11, dots3[i] as int));
                    }
                }
            }
        }

        if crate::cursor::is_cursor_moving(&self.cursor) {
            crate::line::update_line_mesh_transforms(&mut self.store);
        } else {
            crate::sketch::remove_moving(&mut self.store);
        }
        let ghost s15 = self.store@;
        proof {
            assert forall|i: int| 0 <= i < s14.len() implies slot_kind_kept(
                s14[i],
                #[trigger] s15[i],
            ) by {}
            assert forall|i: int| #[trigger] is_dot(s15, i) implies in_bounds(
                dot_at(s15, i).position,
            ) by {
                assert(is_dot(s14, i) && dot_at(s15, i).position == dot_at(s14, i).position);
            }
            lemma_kept_pass(s14, s15);
            assert forall|i: int|
                0 <= i < dots3.len() implies #[trigger] dots3[i] < s15.len() && !is_line(
                s15,
                dots3[i] as int,
            ) by {
                if is_line(s15, dots3[i] as int) {
                    assert(is_line(s14, dots3[i] as int));
                }
            }
            assert(self@ =~= drag_passes_post(v0, input));
        }
    }

    /// Cleanup group: the deletion cascade and the end-of-tick flush.
    fn run_cleanup_passes(&mut self, input: FrameInput)
        requires
            session_inv(old(self)@),
        ensures
            final(self)@ == cleanup_passes_post(old(self)@, input),
            session_inv(final(self)@),
    {
        let ghost v0 = self@;
        let ghost s15 = v0.store;
        let ghost dots3 = v0.dots;
        if input.delete_key_pressed {
            crate::line::delete_selected_entities(&mut self.store);
            crate::line::delete_dependent_lines(&mut self.store);
        }
        let ghost s16 = self.store@;
        proof {
            if input.delete_key_pressed {
                let sd = delete_selected_post(s15);
                assert forall|i: int| 0 <= i < s15.len() implies slot_kind_kept(
                    s15[i],
                    #[trigger] sd[i],
                ) by {}
                assert forall|i: int| #[trigger] is_dot(sd, i) implies in_bounds(
                    dot_at(sd, i).position,
                ) by {
                    assert(is_dot(s15, i) && dot_at(sd, i).position == dot_at(s15, i).position);
                }
                lemma_kept_pass(s15, sd);
                assert forall|i: int| 0 <= i < sd.len() implies slot_kind_kept(
                    sd[i],
                    #[trigger] s16[i],
                ) by {}
                assert forall|i: int| #[trigger] is_dot(s16, i) implies in_bounds(
                    dot_at(s16, i).position,
                ) by {
                    assert(is_dot(sd, i) && dot_at(s16, i).position == dot_at(sd, i).position);
                }
                lemma_kept_pass(sd, s16);
            }
        }

        self.store.flush();
        proof {
            crate::store::lemma_flush_preserves_wf(s16);
            let s17 = self.store@;
            assert forall|i: int|
                0 <= i < dots3.len() implies #[trigger] dots3[i] < s17.len() && !is_line(
                s17,
                dots3[i] as int,
            ) by {
                if is_line(s17, dots3[i] as int) {
                    assert(is_line(s16, dots3[i] as int));
                    if input.delete_key_pressed {
                        assert(is_line(delete_selected_post(s15), dots3[i] as int));
                    }
                    assert(is_line(s15, dots3[i] as int));
                }
            }
            assert(self@ =~= cleanup_passes_post(v0, input));
        }
    }

    /// Runs one tick of the session over the given input facts: the four
    /// pass groups in their fixed order, ending with the end-of-tick
    /// flush.
    pub fn tick(&mut self, input: FrameInput)
        requires
            session_inv(old(self)@),
            input.cursor_sample matches Some(p) ==> in_bounds(p),
        ensures
            final(self)@ == tick_post(old(self)@, input),
            session_inv(final(self)@),
    {
        self.run_input_passes(input);
        self.run_mode_passes(input);
        self.run_tool_passes(input);
        self.run_drag_passes(input);
        self.run_cleanup_passes(input);
    }
}

} // verus!
