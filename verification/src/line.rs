//! The line-chaining engine, redundancy checker, drag mark phase, mesh
//! placement refresh, and the deletion cascade.
//!
//! A chain click advances the polyline in progress by a four-way case split
//! on (chain dots pending?, something hovered?): start fresh with a new dot,
//! continue from the previous segment's end, start from hovered geometry, or
//! redirect the preview segment onto hovered geometry. Every committed
//! segment is queued once for the redundancy check of the same tick, which
//! removes it again if it is degenerate or repeats an existing segment's
//! endpoint pair.

use vstd::prelude::*;

use crate::cursor::{Cursor, Picking};
use crate::geom::{in_bounds, Vec3i};
use crate::sketch::{current_wf, Checked, Current};
use crate::store::{
    despawn_post, dot_at, dot_entry, entry_at, is_dot, is_line, line_at, line_entry, live,
    resolvable, resolvable_dot, resolvable_line, with_doomed, with_moving, DotMode, Entry, Line,
    LineFrame, Shape, Store,
};

verus! {

/// The placement a line mesh gets from endpoint positions `start` and
/// `end`: twice the midpoint (so the midpoint stays exact in integers) and
/// the axis from start to end. Orientation and scale follow from the axis
/// and are derived by the rendering collaborator.
pub open spec fn spec_line_frame(start: Vec3i, end: Vec3i) -> LineFrame {
    LineFrame { center_doubled: start.spec_add(end), axis: end.spec_sub(start) }
}

/// Computes the exact integer placement of a line mesh from its endpoint
/// positions.
pub fn get_line_mesh_transform(start: Vec3i, end: Vec3i) -> (r: LineFrame)
    requires
        in_bounds(start),
        in_bounds(end),
    ensures
        r == spec_line_frame(start, end),
        r.center_doubled.x == start.x + end.x,
        r.center_doubled.y == start.y + end.y,
        r.center_doubled.z == start.z + end.z,
        r.axis.x == end.x - start.x,
        r.axis.y == end.y - start.y,
        r.axis.z == end.z - start.z,
{
    LineFrame { center_doubled: start.add(end), axis: end.sub(start) }
}

/// What the mesh passes read as the endpoints of line `i`: the two dot
/// positions, or resting defaults when the line or either endpoint no
/// longer resolves.
pub open spec fn spec_line_ending_positions(s: Seq<Option<Entry>>, i: int) -> (Vec3i, Vec3i) {
    if resolvable_line(s, i) && resolvable_dot(s, line_at(s, i).start as int) && resolvable_dot(
        s,
        line_at(s, i).end as int,
    ) {
        (dot_at(s, line_at(s, i).start as int).position, dot_at(s, line_at(s, i).end as int).position)
    } else {
        (Vec3i::spec_zero(), Vec3i::spec_zero())
    }
}

/// Reads the endpoint positions of line `line_id`; an identity that no
/// longer fully resolves yields resting default positions.
pub fn get_line_ending_positions(store: &Store, line_id: usize) -> (r: (Vec3i, Vec3i))
    ensures
        r == spec_line_ending_positions(store@, line_id as int),
{
    let fallback = (Vec3i::zero(), Vec3i::zero());
    match store.get(line_id) {
        Some(e) => {
            if e.doomed {
                return fallback;
            }
            match e.shape {
                Shape::Line(l) => {
                    let start = match store.get(l.start) {
                        Some(se) => {
                            if se.doomed {
                                return fallback;
                            }
                            match se.shape {
                                Shape::Dot(d) => d.position,
                                Shape::Line(_) => {
                                    return fallback;
                                },
                            }
                        },
                        None => {
                            return fallback;
                        },
                    };
                    let end = match store.get(l.end) {
                        Some(ee) => {
                            if ee.doomed {
                                return fallback;
                            }
                            match ee.shape {
                                Shape::Dot(d) => d.position,
                                Shape::Line(_) => {
                                    return fallback;
                                },
                            }
                        },
                        None => {
                            return fallback;
                        },
                    };
                    (start, end)
                },
                Shape::Dot(_) => fallback,
            }
        },
        None => fallback,
    }
}

/// Line `i` rewritten to carry its permanent mesh and the given placement.
pub open spec fn finalized_line(e: Entry, frame: LineFrame) -> Entry
    recommends
        e.shape is Line,
{
    Entry {
        shape: Shape::Line(Line {
            start: e.shape->Line_0.start,
            end: e.shape->Line_0.end,
            finalized: true,
            frame: frame,
        }),
        selected: e.selected,
        moving: e.moving,
        changing: e.changing,
        doomed: e.doomed,
    }
}

/// The arena after finalizing line `i`: a resolvable line gets its mesh and
/// the placement computed from what its endpoints currently read as;
/// anything else is left alone.
pub open spec fn finalize_line_post(s: Seq<Option<Entry>>, i: int) -> Seq<Option<Entry>> {
    if resolvable_line(s, i) {
        let p = spec_line_ending_positions(s, i);
        s.update(i, Some(finalized_line(entry_at(s, i), spec_line_frame(p.0, p.1))))
    } else {
        s
    }
}

/// Attaches the permanent mesh to a committed segment: the line's placement
/// is computed from its endpoint positions and it stops being temporary.
pub fn finalize_line(store: &mut Store, line_id: usize)
    requires
        crate::store::wf(old(store)@),
    ensures
        final(store)@ == finalize_line_post(old(store)@, line_id as int),
{
    let p = get_line_ending_positions(store, line_id);
    match store.get(line_id) {
        Some(e) => {
            if !e.doomed {
                match e.shape {
                    Shape::Line(l) => {
                        proof {
                            if resolvable_dot(store@, l.start as int) && resolvable_dot(
                                store@,
                                l.end as int,
                            ) {
                                assert(is_dot(store@, l.start as int));
                                assert(is_dot(store@, l.end as int));
                            }
                        }
                        let frame = get_line_mesh_transform(p.0, p.1);
                        let mut done = e;
                        done.shape = Shape::Line(Line {
                            start: l.start,
                            end: l.end,
                            finalized: true,
                            frame: frame,
                        });
                        store.put(line_id, done);
                    },
                    Shape::Dot(_) => {},
                }
            }
        },
        None => {},
    }
}

/// The arena after finalizing each line in `ids`, in order.
pub open spec fn finalize_lines_post(s: Seq<Option<Entry>>, ids: Seq<usize>) -> Seq<Option<Entry>>
    decreases ids.len(),
{
    if ids.len() == 0 {
        s
    } else {
        finalize_line_post(finalize_lines_post(s, ids.drop_last()), ids.last() as int)
    }
}

/// Finalizing a line keeps the arena well-formed.
pub proof fn lemma_finalize_line_preserves_wf(s: Seq<Option<Entry>>, i: int)
    requires
        crate::store::wf(s),
    ensures
        crate::store::wf(finalize_line_post(s, i)),
{
    let post = finalize_line_post(s, i);
    assert forall|k: int| #[trigger] is_line(post, k) implies {
        &&& line_at(post, k).start < post.len()
        &&& line_at(post, k).end < post.len()
        &&& !is_line(post, line_at(post, k).start as int)
        &&& !is_line(post, line_at(post, k).end as int)
    } by {
        assert(is_line(s, k));
        assert(line_at(post, k).start == line_at(s, k).start);
        assert(line_at(post, k).end == line_at(s, k).end);
        assert(!is_line(s, line_at(s, k).start as int));
        assert(!is_line(s, line_at(s, k).end as int));
    }
    assert forall|k: int| #[trigger] is_dot(post, k) implies in_bounds(dot_at(post, k).position) by {
        assert(is_dot(s, k));
        assert(dot_at(post, k) == dot_at(s, k));
    }
}

/// Finalizes every line the chain in progress still refers to; run as a
/// chain click commits, before the click spawns the next preview segment.
pub fn finalize_lines(store: &mut Store, current: &Current)
    requires
        crate::store::wf(old(store)@),
    ensures
        final(store)@ == finalize_lines_post(old(store)@, current.lines@),
{
    let ghost s0 = store@;
    let ghost ids = current.lines@;
    let n = current.lines.len();
    let mut i: usize = 0;
    while i < n
        invariant
            n == ids.len(),
            current.lines@ == ids,
            i <= n,
            store@ == finalize_lines_post(s0, ids.take(i as int)),
            crate::store::wf(store@),
        decreases n - i,
    {
        proof {
            lemma_finalize_line_preserves_wf(store@, ids[i as int] as int);
        }
        finalize_line(store, current.lines[i]);
        proof {
            assert(ids.take(i + 1).drop_last() =~= ids.take(i as int));
            assert(ids.take(i + 1).last() == ids[i as int]);
        }
        i = i + 1;
    }
    proof {
        assert(ids.take(n as int) =~= ids);
    }
}

/// The arena after the mesh refresh pass: every finalized line whose
/// endpoints both resolve gets the placement recomputed from their current
/// positions; everything else is untouched.
pub open spec fn refresh_frames_post(s: Seq<Option<Entry>>) -> Seq<Option<Entry>> {
    Seq::new(
        s.len(),
        |i: int| if resolvable_line(s, i) && line_at(s, i).finalized && resolvable_dot(
            s,
            line_at(s, i).start as int,
        ) && resolvable_dot(s, line_at(s, i).end as int) {
            Some(finalized_line(
                entry_at(s, i),
                spec_line_frame(
                    dot_at(s, line_at(s, i).start as int).position,
                    dot_at(s, line_at(s, i).end as int).position,
                ),
            ))
        } else {
            s[i]
        },
    )
}

/// Slot `b` holds the same record as slot `a`, allowing at most a change
/// of a line's placement fields; dot records are identical.
pub open spec fn same_up_to_frame(a: Option<Entry>, b: Option<Entry>) -> bool {
    match (a, b) {
        (Some(x), Some(y)) => {
            &&& x.selected == y.selected
            &&& x.moving == y.moving
            &&& x.changing == y.changing
            &&& x.doomed == y.doomed
            &&& (x.shape is Dot <==> y.shape is Dot)
            &&& (x.shape is Dot ==> x.shape == y.shape)
        },
        (None, None) => true,
        _ => false,
    }
}

/// Mesh refresh pass, run whenever the cursor moved: recomputes the
/// rendered placement of every finalized line from its endpoint dots'
/// current positions.
pub fn update_line_mesh_transforms(store: &mut Store)
    requires
        crate::store::wf(old(store)@),
    ensures
        final(store)@ == refresh_frames_post(old(store)@),
{
    let ghost s0 = store@;
    let n = store.len();
    let mut i: usize = 0;
    while i < n
        invariant
            store@.len() == n,
            i <= n,
            forall|j: int| 0 <= j < i ==> store@[j] == refresh_frames_post(s0)[j],
            forall|j: int| i <= j < n ==> store@[j] == s0[j],
            forall|j: int| 0 <= j < n ==> same_up_to_frame(s0[j], #[trigger] store@[j]),
        decreases n - i,
    {
        match store.get(i) {
            Some(e) => {
                if !e.doomed {
                    match e.shape {
                        Shape::Line(l) => {
                            if l.finalized {
                                proof {
                                    assert(store@[i as int] == s0[i as int]);
                                    assert(resolvable_line(s0, i as int));
                                    assert(l == line_at(s0, i as int));
                                }
                                let sd = store.get(l.start);
                                let ed = store.get(l.end);
                                match (sd, ed) {
                                    (Some(se), Some(ee)) => {
                                        if !se.doomed && !ee.doomed {
                                            match (se.shape, ee.shape) {
                                                (Shape::Dot(a), Shape::Dot(b)) => {
                                                    proof {
                                                        assert(same_up_to_frame(
                                                            s0[l.start as int],
                                                            store@[l.start as int],
                                                        ));
                                                        assert(same_up_to_frame(
                                                            s0[l.end as int],
                                                            store@[l.end as int],
                                                        ));
                                                        assert(resolvable_dot(s0, l.start as int));
                                                        assert(resolvable_dot(s0, l.end as int));
                                                        assert(dot_at(s0, l.start as int).position
                                                            == a.position);
                                                        assert(dot_at(s0, l.end as int).position
                                                            == b.position);
                                                    }
                                                    let frame = get_line_mesh_transform(
                                                        a.position,
                                                        b.position,
                                                    );
                                                    let mut refreshed = e;
                                                    refreshed.shape = Shape::Line(Line {
                                                        start: l.start,
                                                        end: l.end,
                                                        finalized: true,
                                                        frame: frame,
                                                    });
                                                    store.put(i, refreshed);
                                                },
                                                _ => {},
                                            }
                                        }
                                    },
                                    _ => {},
                                }
                            }
                        },
                        Shape::Dot(_) => {},
                    }
                }
            },
            None => {},
        }
        i = i + 1;
    }
    assert(store@ =~= refresh_frames_post(s0));
}

/// Entry `e`, a line, with its end reference redirected to `next`.
pub open spec fn line_with_end(e: Entry, next: usize) -> Entry
    recommends
        e.shape is Line,
{
    Entry {
        shape: Shape::Line(Line {
            start: e.shape->Line_0.start,
            end: next,
            finalized: e.shape->Line_0.finalized,
            frame: e.shape->Line_0.frame,
        }),
        selected: e.selected,
        moving: e.moving,
        changing: e.changing,
        doomed: e.doomed,
    }
}

/// Redirects the preview segment onto `next`: the in-progress line's end
/// reference is rewritten to `next`, and the identity of the now orphaned
/// previous end dot is returned so the caller can despawn it. When the
/// preview line no longer resolves, nothing is rewritten and the chain's
/// last pending dot is returned instead.
pub fn swap_line_end(store: &mut Store, next: usize, current: &Current) -> (prev: usize)
    requires
        current.dots@.len() > 0,
        current.lines@.len() > 0,
    ensures
        ({
            let li = current.lines@[0] as int;
            &&& resolvable_line(old(store)@, li) ==> {
                &&& final(store)@ == old(store)@.update(
                    li,
                    Some(line_with_end(entry_at(old(store)@, li), next)),
                )
                &&& prev == line_at(old(store)@, li).end
            }
            &&& !resolvable_line(old(store)@, li) ==> {
                &&& final(store)@ == old(store)@
                &&& prev == current.dots@.last()
            }
        }),
{
    let mut prev: usize = current.dots[current.dots.len() - 1];
    let li = current.lines[0];
    match store.get(li) {
        Some(e) => {
            if !e.doomed {
                match e.shape {
                    Shape::Line(l) => {
                        prev = l.end;
                        let mut redirected = e;
                        redirected.shape = Shape::Line(Line {
                            start: l.start,
                            end: next,
                            finalized: l.finalized,
                            frame: l.frame,
                        });
                        store.put(li, redirected);
                    },
                    Shape::Dot(_) => {},
                }
            }
        },
        None => {},
    }
    prev
}

/// The arena after the live-preview step: the chain's pending end dot is
/// moved to the cursor position; with no chain in progress nothing changes.
pub open spec fn move_preview_post(
    s: Seq<Option<Entry>>,
    pos: Vec3i,
    dots: Seq<usize>,
) -> Seq<Option<Entry>> {
    if dots.len() == 0 {
        s
    } else {
        let d = dots.last() as int;
        if resolvable_dot(s, d) {
            let e = entry_at(s, d);
            s.update(
                d,
                Some(Entry {
                    shape: Shape::Dot(crate::store::Dot {
                        position: pos,
                        mode: dot_at(s, d).mode,
                    }),
                    selected: e.selected,
                    moving: e.moving,
                    changing: e.changing,
                    doomed: e.doomed,
                }),
            )
        } else {
            s
        }
    }
}

/// Live-preview step, run every tick in line mode: keeps the chain's
/// pending end dot under the cursor, giving a rubber-band preview of the
/// segment being drawn.
pub fn handle_move_current_line(store: &mut Store, cursor: &Cursor, current: &Current)
    requires
        in_bounds(cursor.position),
    ensures
        final(store)@ == move_preview_post(old(store)@, cursor.position, current.dots@),
{
    if current.dots.len() == 0 {
        return ;
    }
    let d = current.dots[current.dots.len() - 1];
    match store.get(d) {
        Some(e) => {
            if !e.doomed {
                match e.shape {
                    Shape::Dot(old_dot) => {
                        let mut moved = e;
                        moved.shape = Shape::Dot(crate::store::Dot {
                            position: cursor.position,
                            mode: old_dot.mode,
                        });
                        store.put(d, moved);
                    },
                    Shape::Line(_) => {},
                }
            }
        },
        None => {},
    }
}

/// The chain identities `current` may reference: every pending dot identity
/// points at a dot slot (never a line), as the data model demands.
pub open spec fn current_refs_dots(c: Current, s: Seq<Option<Entry>>) -> bool {
    forall|i: int| 0 <= i < c.dots@.len() ==> !is_line(s, #[trigger] c.dots@[i] as int)
}

/// Everything a committed chain click changes, as a function of the state
/// it read: the arena with the spawned temporary geometry (and, on a
/// redirect, the rewritten preview line and the doomed orphan dot), the new
/// pending dot list, the new pending line list, and the queued redundancy
/// check. The four cases follow the (chain pending?, hover present?) split.
pub open spec fn handle_sketch_line_post(
    s: Seq<Option<Entry>>,
    pos: Vec3i,
    dots: Seq<usize>,
    lines: Seq<usize>,
    hovered: Option<usize>,
) -> (Seq<Option<Entry>>, Seq<usize>, Seq<usize>, Seq<Option<usize>>) {
    let prev: Option<usize> = if lines.len() > 0 {
        Some(lines[0])
    } else {
        None
    };
    let checked = seq![prev];
    if dots.len() == 0 && hovered is None {
        // New chain starting with a new dot.
        let start = s.len() as usize;
        let end = (s.len() + 1) as usize;
        let line = (s.len() + 2) as usize;
        let s3 = s.push(Some(dot_entry(pos, DotMode::Temporary))).push(
            Some(dot_entry(pos, DotMode::Temporary)),
        ).push(Some(line_entry(start, end)));
        (s3, seq![start, end], seq![line], checked)
    } else if dots.len() > 0 && hovered is None {
        // Continue the chain with a new dot.
        let start = dots.last();
        let end = s.len() as usize;
        let line = (s.len() + 1) as usize;
        let s2 = s.push(Some(dot_entry(pos, DotMode::Temporary))).push(
            Some(line_entry(start, end)),
        );
        (s2, seq![end], seq![line], checked)
    } else if dots.len() == 0 {
        // New chain starting with the hovered dot.
        let start = hovered->0;
        let end = s.len() as usize;
        let line = (s.len() + 1) as usize;
        let s2 = s.push(Some(dot_entry(pos, DotMode::Temporary))).push(
            Some(line_entry(start, end)),
        );
        (s2, seq![end], seq![line], checked)
    } else {
        // Redirect: continue the chain with the hovered dot.
        let start = hovered->0;
        let li = lines[0] as int;
        let swapped = if lines.len() > 0 && resolvable_line(s, li) {
            s.update(li, Some(line_with_end(entry_at(s, li), start)))
        } else {
            s
        };
        let orphan = if lines.len() > 0 && resolvable_line(s, li) {
            line_at(s, li).end as int
        } else {
            dots.last() as int
        };
        let s1 = despawn_post(swapped, orphan);
        let end = s.len() as usize;
        let line = (s.len() + 1) as usize;
        let s2 = s1.push(Some(dot_entry(pos, DotMode::Temporary))).push(
            Some(line_entry(start, end)),
        );
        (s2, seq![end], seq![line], checked)
    }
}

/// A committed chain click. In order: determines the segment's start dot by
/// the four-way case split (spawning a fresh start dot, reusing the
/// previous end, or snapping onto the hovered dot, despawning the orphaned
/// preview end on a redirect), spawns the new temporary end dot at the
/// cursor, creates the new preview line from start to end, and queues the
/// previous preview line (or the absent marker on a chain's first segment)
/// for the redundancy check.
pub fn handle_sketch_line(
    store: &mut Store,
    cursor: &Cursor,
    current: &mut Current,
    picking: &Picking,
    checked: &mut Checked,
)
    requires
        in_bounds(cursor.position),
        current_wf(*old(current), old(store)@.len() as int),
        picking.hovered matches Some(h) ==> h < old(store)@.len(),
    ensures
        ({
            let post = handle_sketch_line_post(
                old(store)@,
                cursor.position,
                old(current).dots@,
                old(current).lines@,
                picking.hovered,
            );
            &&& final(store)@ == post.0
            &&& final(current).dots@ == post.1
            &&& final(current).lines@ == post.2
            &&& final(checked).lines@ == post.3
            &&& final(current).position == old(current).position
        }),
{
    let ghost s0 = store@;
    let prev: Option<usize> = if current.lines.len() > 0 {
        Some(current.lines[0])
    } else {
        None
    };

    let current_empty = current.dots.len() == 0;
    let hover_empty = match picking.hovered {
        Some(_) => false,
        None => true,
    };

    let start_dot: usize;
    if current_empty && hover_empty {
        // New chain starting with a new dot.
        start_dot = crate::dot::spawn_temporary_dot(store, cursor.position);
        current.dots.push(start_dot);
    } else if !current_empty && hover_empty {
        // Continue the chain with a new dot.
        start_dot = current.dots[current.dots.len() - 1];
        current.dots.clear();
    } else if current_empty {
        // New chain starting with the hovered dot.
        start_dot = match picking.hovered {
            Some(h) => h,
            None => 0,
        };
        current.dots.clear();
    } else {
        // Redirect: continue the chain with the hovered dot.
        let next = match picking.hovered {
            Some(h) => h,
            None => 0,
        };
        let temp_dot = swap_line_end(store, next, current);
        start_dot = next;
        current.dots.clear();
        store.despawn(temp_dot);
    }

    let end_dot = crate::dot::spawn_temporary_dot(store, cursor.position);
    current.dots.push(end_dot);

    current.lines.clear();
    let entry = Entry {
        shape: Shape::Line(Line {
            start: start_dot,
            end: end_dot,
            finalized: false,
            frame: LineFrame { center_doubled: Vec3i::zero(), axis: Vec3i::zero() },
        }),
        selected: false,
        moving: false,
        changing: false,
        doomed: false,
    };
    let line = store.spawn(entry);
    current.lines.push(line);
    checked.lines.clear();
    checked.lines.push(prev);

    proof {
        let post = handle_sketch_line_post(
            s0,
            cursor.position,
            old(current).dots@,
            old(current).lines@,
            picking.hovered,
        );
        assert(store@ =~= post.0);
        assert(current.dots@ =~= post.1);
        assert(current.lines@ =~= post.2);
        assert(checked.lines@ =~= post.3);
    }
}

/// Chain invariant: any committed chain click leaves exactly one pending
/// preview line, and exactly one pending end dot — except the click that
/// opens a fresh chain over empty space, which also keeps the freshly
/// spawned start dot pending (two pending dots).
pub proof fn lemma_chain_invariant(
    s: Seq<Option<Entry>>,
    pos: Vec3i,
    dots: Seq<usize>,
    lines: Seq<usize>,
    hovered: Option<usize>,
)
    ensures
        handle_sketch_line_post(s, pos, dots, lines, hovered).2.len() == 1,
        !(dots.len() == 0 && hovered is None) ==> handle_sketch_line_post(
            s,
            pos,
            dots,
            lines,
            hovered,
        ).1.len() == 1,
        (dots.len() == 0 && hovered is None) ==> handle_sketch_line_post(
            s,
            pos,
            dots,
            lines,
            hovered,
        ).1.len() == 2,
{
}

/// Two lines repeat the same segment: equal unordered endpoint pairs.
pub open spec fn same_endpoints(a: Line, b: Line) -> bool {
    ||| (a.start == b.start && a.end == b.end)
    ||| (a.start == b.end && a.end == b.start)
}

/// Some other resolvable line repeats line `i`'s endpoint pair.
pub open spec fn duplicate_exists(s: Seq<Option<Entry>>, i: int) -> bool {
    exists|j: int|
        #[trigger] resolvable_line(s, j) && j != i && same_endpoints(line_at(s, j), line_at(s, i))
}

/// The queued line must go: it is degenerate (both references name the same
/// dot) or some other line already covers its endpoint pair.
pub open spec fn redundant(s: Seq<Option<Entry>>, i: int) -> bool {
    line_at(s, i).start == line_at(s, i).end || duplicate_exists(s, i)
}

/// The arena and queue after the redundancy pass: with nothing queued, an
/// absent marker queued (a chain's first segment), or a queued line that no
/// longer resolves, nothing changes; a redundant queued line is despawned
/// and the queue cleared; a sound queued line stays and remains queued.
pub open spec fn clear_redundant_post(
    s: Seq<Option<Entry>>,
    c: Seq<Option<usize>>,
) -> (Seq<Option<Entry>>, Seq<Option<usize>>) {
    if c.len() == 0 || c[0] is None {
        (s, c)
    } else {
        let l = c[0]->0 as int;
        if !resolvable_line(s, l) {
            (s, c)
        } else if redundant(s, l) {
            (despawn_post(s, l), Seq::empty())
        } else {
            (s, c)
        }
    }
}

/// Redundancy pass, run right after a chain click commits: despawns the
/// queued just-committed line if it is degenerate or repeats another line's
/// unordered endpoint pair (first match wins), then clears the queue. A
/// queued line that no longer resolves is skipped silently.
pub fn clear_redundant(store: &mut Store, checked: &mut Checked)
    ensures
        ({
            let post = clear_redundant_post(old(store)@, old(checked).lines@);
            &&& final(store)@ == post.0
            &&& final(checked).lines@ == post.1
        }),
{
    let ghost s0 = store@;
    if checked.lines.len() == 0 {
        return ;
    }
    let target = checked.lines[0];
    let l = match target {
        Some(l) => l,
        None => {
            return ;
        },
    };
    let checked_line = match store.get(l) {
        Some(e) => {
            if e.doomed {
                return ;
            }
            match e.shape {
                Shape::Line(cl) => cl,
                Shape::Dot(_) => {
                    return ;
                },
            }
        },
        None => {
            return ;
        },
    };
    if checked_line.start == checked_line.end {
        // Degenerate: both references name the same dot.
        checked.lines.clear();
        store.despawn(l);
        return ;
    }
    let n = store.len();
    let mut j: usize = 0;
    while j < n
        invariant
            n == s0.len(),
            store@ == s0,
            checked.lines@ == old(checked).lines@,
            j <= n,
            resolvable_line(s0, l as int),
            checked_line == line_at(s0, l as int),
            forall|k: int|
                0 <= k < j && #[trigger] resolvable_line(s0, k) && k != l as int
                    ==> !same_endpoints(line_at(s0, k), line_at(s0, l as int)),
        decreases n - j,
    {
        if j != l {
            match store.get(j) {
                Some(e) => {
                    if !e.doomed {
                        match e.shape {
                            Shape::Line(other) => {
                                let same = other.start == checked_line.start && other.end
                                    == checked_line.end;
                                let same_reversed = other.start == checked_line.end && other.end
                                    == checked_line.start;
                                if same || same_reversed {
                                    proof {
                                        assert(resolvable_line(s0, j as int));
                                        assert(same_endpoints(
                                            line_at(s0, j as int),
                                            line_at(s0, l as int),
                                        ));
                                        assert(duplicate_exists(s0, l as int));
                                    }
                                    checked.lines.clear();
                                    store.despawn(l);
                                    return ;
                                }
                            },
                            Shape::Dot(_) => {},
                        }
                    }
                },
                None => {},
            }
        }
        j = j + 1;
    }
    proof {
        assert(!duplicate_exists(s0, l as int)) by {
            if duplicate_exists(s0, l as int) {
                let k = choose|k: int|
                    #[trigger] resolvable_line(s0, k) && k != l as int && same_endpoints(
                        line_at(s0, k),
                        line_at(s0, l as int),
                    );
                assert(0 <= k < n);
            }
        }
        assert(!redundant(s0, l as int));
    }
}

/// No self-loop survives a completed redundancy pass: if every resolvable
/// line other than the queued one already keeps distinct endpoint
/// references, then after the pass every line that still resolves does. (A
/// degenerate line that is not the queued one is outside the pass's reach
/// and would survive it.)
pub proof fn lemma_no_self_loop_after_check(s: Seq<Option<Entry>>, c: Seq<Option<usize>>)
    requires
        forall|i: int|
            #[trigger] resolvable_line(s, i) && !(c.len() > 0 && c[0] == Some(i as usize))
                ==> line_at(s, i).start != line_at(s, i).end,
        s.len() <= usize::MAX,
    ensures
        forall|i: int|
            #[trigger] resolvable_line(clear_redundant_post(s, c).0, i) ==> line_at(
                clear_redundant_post(s, c).0,
                i,
            ).start != line_at(clear_redundant_post(s, c).0, i).end,
{
    let post = clear_redundant_post(s, c).0;
    assert forall|i: int| #[trigger] resolvable_line(post, i) implies line_at(post, i).start
        != line_at(post, i).end by {
        assert(resolvable_line(s, i));
        assert(line_at(post, i) == line_at(s, i));
        if c.len() > 0 && c[0] == Some(i as usize) {
            let l = c[0]->0 as int;
            assert(l == i);
            if resolvable_line(s, l) && redundant(s, l) {
                assert(!resolvable(post, i));
            }
        }
    }
}

/// No duplicate survives when checked: a queued line whose unordered
/// endpoint pair some other resolvable line repeats does not survive the
/// redundancy pass.
pub proof fn lemma_duplicate_removed(s: Seq<Option<Entry>>, c: Seq<Option<usize>>, l: usize)
    requires
        c.len() > 0,
        c[0] == Some(l),
        resolvable_line(s, l as int),
        duplicate_exists(s, l as int),
    ensures
        !resolvable(clear_redundant_post(s, c).0, l as int),
        clear_redundant_post(s, c).1 == Seq::<Option<usize>>::empty(),
{
}

/// An endpoint reference that carries the user's selection into the drag.
pub open spec fn endpoint_selected(s: Seq<Option<Entry>>, k: int) -> bool {
    resolvable_dot(s, k) && entry_at(s, k).selected
}

/// Line `i` takes part in the drag: it resolves and at least one of its
/// endpoint dots is selected.
pub open spec fn line_drags(s: Seq<Option<Entry>>, i: int) -> bool {
    resolvable_line(s, i) && (endpoint_selected(s, line_at(s, i).start as int)
        || endpoint_selected(s, line_at(s, i).end as int))
}

/// Dot `j` is an endpoint of some dragging line among the first `n` slots.
pub open spec fn dot_dragged_upto(s: Seq<Option<Entry>>, j: int, n: int) -> bool {
    exists|i: int|
        0 <= i < n && #[trigger] line_drags(s, i) && (line_at(s, i).start == j || line_at(
            s,
            i,
        ).end == j)
}

/// Dot `j` is an endpoint of some dragging line.
pub open spec fn dot_dragged(s: Seq<Option<Entry>>, j: int) -> bool {
    dot_dragged_upto(s, j, s.len() as int)
}

/// Slot `b` holds the same record as slot `a`, allowing at most a change
/// of the moving tag.
pub open spec fn same_but_moving(a: Option<Entry>, b: Option<Entry>) -> bool {
    match (a, b) {
        (Some(x), Some(y)) => {
            &&& x.shape == y.shape
            &&& x.selected == y.selected
            &&& x.changing == y.changing
            &&& x.doomed == y.doomed
        },
        (None, None) => true,
        _ => false,
    }
}

/// The arena after the drag mark phase over lines: both endpoint dots of
/// every line with a selected endpoint carry the moving tag.
pub open spec fn mark_moving_lines_post(s: Seq<Option<Entry>>) -> Seq<Option<Entry>> {
    Seq::new(
        s.len(),
        |j: int| if resolvable_dot(s, j) && dot_dragged(s, j) {
            Some(with_moving(entry_at(s, j), true))
        } else {
            s[j]
        },
    )
}

/// Drag mark phase over lines: every line with at least one selected
/// endpoint dot propagates the moving tag onto both its endpoint dots, so
/// dragging a dot carries its directly connected dots along (one hop per
/// tick; continued dragging accumulates further hops).
pub fn mark_moving_lines(store: &mut Store)
    ensures
        final(store)@ == mark_moving_lines_post(old(store)@),
{
    let ghost s0 = store@;
    let n = store.len();
    let mut i: usize = 0;
    while i < n
        invariant
            store@.len() == n,
            i <= n,
            forall|j: int|
                0 <= j < n ==> #[trigger] store@[j] == (if resolvable_dot(s0, j)
                    && dot_dragged_upto(s0, j, i as int) {
                    Some(with_moving(entry_at(s0, j), true))
                } else {
                    s0[j]
                }),
            forall|j: int| 0 <= j < n ==> same_but_moving(s0[j], #[trigger] store@[j]),
        decreases n - i,
    {
        let line = match store.get(i) {
            Some(e) => {
                if !e.doomed {
                    match e.shape {
                        Shape::Line(l) => Some(l),
                        Shape::Dot(_) => None,
                    }
                } else {
                    None
                }
            },
            None => None,
        };
        match line {
            Some(l) => {
                proof {
                    assert(same_but_moving(s0[i as int], store@[i as int]));
                    assert(resolvable_line(s0, i as int));
                    assert(l == line_at(s0, i as int));
                }
                let start_selected = match store.get(l.start) {
                    Some(se) => {
                        let is_dot_slot = match se.shape {
                            Shape::Dot(_) => true,
                            Shape::Line(_) => false,
                        };
                        !se.doomed && is_dot_slot && se.selected
                    },
                    None => false,
                };
                let end_selected = match store.get(l.end) {
                    Some(ee) => {
                        let is_dot_slot = match ee.shape {
                            Shape::Dot(_) => true,
                            Shape::Line(_) => false,
                        };
                        !ee.doomed && is_dot_slot && ee.selected
                    },
                    None => false,
                };
                proof {
                    assert(endpoint_selected(s0, l.start as int) == start_selected);
                    assert(endpoint_selected(s0, l.end as int) == end_selected);
                }
                if start_selected || end_selected {
                    proof {
                        assert(line_drags(s0, i as int));
                    }
                    match store.get(l.start) {
                        Some(se) => {
                            let is_dot_slot = match se.shape {
                                Shape::Dot(_) => true,
                                Shape::Line(_) => false,
                            };
                            if !se.doomed && is_dot_slot {
                                let mut tagged = se;
                                tagged.moving = true;
                                store.put(l.start, tagged);
                            }
                        },
                        None => {},
                    }
                    match store.get(l.end) {
                        Some(ee) => {
                            let is_dot_slot = match ee.shape {
                                Shape::Dot(_) => true,
                                Shape::Line(_) => false,
                            };
                            if !ee.doomed && is_dot_slot {
                                let mut tagged = ee;
                                tagged.moving = true;
                                store.put(l.end, tagged);
                            }
                        },
                        None => {},
                    }
                }
            },
            None => {},
        }
        proof {
            assert forall|j: int| 0 <= j < n implies store@[j] == (if resolvable_dot(s0, j)
                && dot_dragged_upto(s0, j, i + 1) {
                Some(with_moving(entry_at(s0, j), true))
            } else {
                s0[j]
            }) by {
                if dot_dragged_upto(s0, j, i + 1) && !dot_dragged_upto(s0, j, i as int) {
                    let w = choose|w: int|
                        0 <= w < i + 1 && #[trigger] line_drags(s0, w) && (line_at(s0, w).start
                            == j || line_at(s0, w).end == j);
                    assert(w == i);
                }
                if dot_dragged_upto(s0, j, i as int) {
                    let w = choose|w: int|
                        0 <= w < i && #[trigger] line_drags(s0, w) && (line_at(s0, w).start == j
                            || line_at(s0, w).end == j);
                    assert(0 <= w < i + 1);
                    assert(dot_dragged_upto(s0, j, i + 1));
                }
            }
        }
        i = i + 1;
    }
    proof {
        assert forall|j: int| 0 <= j < n implies store@[j] == mark_moving_lines_post(s0)[j] by {
            assert(dot_dragged_upto(s0, j, n as int) == dot_dragged(s0, j));
        }
        assert(store@ =~= mark_moving_lines_post(s0));
    }
}

/// The arena after the first deletion pass: everything the user selected is
/// requested for destruction, dots and lines indiscriminately.
pub open spec fn delete_selected_post(s: Seq<Option<Entry>>) -> Seq<Option<Entry>> {
    Seq::new(
        s.len(),
        |i: int| if resolvable(s, i) && entry_at(s, i).selected {
            Some(with_doomed(entry_at(s, i)))
        } else {
            s[i]
        },
    )
}

/// First deletion pass: despawns every entity carrying the selection tag.
pub fn delete_selected_entities(store: &mut Store)
    ensures
        final(store)@ == delete_selected_post(old(store)@),
{
    let ghost s0 = store@;
    let n = store.len();
    let mut i: usize = 0;
    while i < n
        invariant
            n == s0.len(),
            store@.len() == n,
            i <= n,
            forall|j: int| 0 <= j < i ==> store@[j] == delete_selected_post(s0)[j],
            forall|j: int| i <= j < n ==> store@[j] == s0[j],
        decreases n - i,
    {
        match store.get(i) {
            Some(e) => {
                if !e.doomed && e.selected {
                    let mut doomed = e;
                    doomed.doomed = true;
                    store.put(i, doomed);
                }
            },
            None => {},
        }
        i = i + 1;
    }
    assert(store@ =~= delete_selected_post(s0));
}

/// Slot `b` holds the same record as slot `a`, allowing at most a change
/// of the destruction flag.
pub open spec fn same_but_doomed(a: Option<Entry>, b: Option<Entry>) -> bool {
    match (a, b) {
        (Some(x), Some(y)) => {
            &&& x.shape == y.shape
            &&& x.selected == y.selected
            &&& x.changing == y.changing
            &&& x.moving == y.moving
        },
        (None, None) => true,
        _ => false,
    }
}

/// The arena after the second deletion pass: every line one of whose dot
/// references no longer resolves is requested for destruction too.
pub open spec fn delete_dependent_post(s: Seq<Option<Entry>>) -> Seq<Option<Entry>> {
    Seq::new(
        s.len(),
        |i: int| if resolvable_line(s, i) && (!resolvable_dot(s, line_at(s, i).start as int)
            || !resolvable_dot(s, line_at(s, i).end as int)) {
            Some(with_doomed(entry_at(s, i)))
        } else {
            s[i]
        },
    )
}

/// Second deletion pass, run strictly after the first within the same
/// logical step: despawns every remaining line whose start or end dot no
/// longer resolves — including lines orphaned by the first pass this tick.
pub fn delete_dependent_lines(store: &mut Store)
    ensures
        final(store)@ == delete_dependent_post(old(store)@),
{
    let ghost s0 = store@;
    let n = store.len();
    let mut i: usize = 0;
    while i < n
        invariant
            store@.len() == n,
            i <= n,
            forall|j: int| 0 <= j < i ==> store@[j] == delete_dependent_post(s0)[j],
            forall|j: int| i <= j < n ==> store@[j] == s0[j],
            forall|j: int| 0 <= j < n ==> same_but_doomed(s0[j], #[trigger] store@[j]),
            forall|j: int| 0 <= j < n && !is_line(s0, j) ==> s0[j] == #[trigger] store@[j],
        decreases n - i,
    {
        let line = match store.get(i) {
            Some(e) => {
                if !e.doomed {
                    match e.shape {
                        Shape::Line(l) => Some((e, l)),
                        Shape::Dot(_) => None,
                    }
                } else {
                    None
                }
            },
            None => None,
        };
        match line {
            Some((e, l)) => {
                proof {
                    assert(store@[i as int] == s0[i as int]);
                    assert(resolvable_line(s0, i as int));
                    assert(l == line_at(s0, i as int));
                }
                let start_ok = match store.get(l.start) {
                    Some(se) => {
                        let is_dot_slot = match se.shape {
                            Shape::Dot(_) => true,
                            Shape::Line(_) => false,
                        };
                        !se.doomed && is_dot_slot
                    },
                    None => false,
                };
                let end_ok = match store.get(l.end) {
                    Some(ee) => {
                        let is_dot_slot = match ee.shape {
                            Shape::Dot(_) => true,
                            Shape::Line(_) => false,
                        };
                        !ee.doomed && is_dot_slot
                    },
                    None => false,
                };
                proof {
                    assert(start_ok == resolvable_dot(s0, l.start as int));
                    assert(end_ok == resolvable_dot(s0, l.end as int));
                }
                if !start_ok || !end_ok {
                    let mut doomed = e;
                    doomed.doomed = true;
                    store.put(i, doomed);
                }
            },
            None => {},
        }
        i = i + 1;
    }
    assert(store@ =~= delete_dependent_post(s0));
}

/// Deletion cascade closure: after deleting the selection, deleting the
/// lines it orphaned, and flushing, every line still present refers to two
/// present dots.
pub proof fn lemma_deletion_cascade_closure(s: Seq<Option<Entry>>)
    ensures
        ({
            let after = crate::store::flush_post(
                delete_dependent_post(delete_selected_post(s)),
            );
            forall|i: int|
                #[trigger] is_line(after, i) ==> is_dot(after, line_at(after, i).start as int)
                    && is_dot(after, line_at(after, i).end as int)
        }),
{
    let s1 = delete_selected_post(s);
    let s2 = delete_dependent_post(s1);
    let after = crate::store::flush_post(s2);
    assert forall|i: int| #[trigger] is_line(after, i) implies is_dot(
        after,
        line_at(after, i).start as int,
    ) && is_dot(after, line_at(after, i).end as int) by {
        assert(resolvable(s2, i));
        assert(is_line(s2, i));
        assert(is_line(s1, i));
        assert(is_line(s, i));
        let a = line_at(after, i).start as int;
        let b = line_at(after, i).end as int;
        assert(line_at(s1, i) == line_at(s, i));
        assert(line_at(s2, i) == line_at(s1, i));
        assert(line_at(after, i) == line_at(s2, i));
        // The second pass left line i alone, so both references resolved
        // after the first pass; the second pass never dooms dots, so they
        // still resolve at the flush and survive it.
        assert(resolvable_line(s1, i));
        assert(resolvable_dot(s1, a) && resolvable_dot(s1, b));
        assert(s2[a] == s1[a] && s2[b] == s1[b]);
        assert(resolvable(s2, a) && resolvable(s2, b));
        assert(after[a] == s2[a] && after[b] == s2[b]);
    }
}

} // verus!
