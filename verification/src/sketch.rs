//! Top-level sketch mode, the chain-in-progress state, and the per-tick
//! drag passes.
//!
//! `SketchMode` gates which tool handles the tick's input. `Current` is the
//! single chain in progress: the temporary dots and the temporary preview
//! line still "in flight". `Checked` queues the most recently committed line
//! for the redundancy pass. The drag passes move every entity tagged
//! `moving` by the tick's cursor delta and sweep the tag once the cursor
//! rests.

use vstd::prelude::*;

use crate::cursor::Cursor;
use crate::geom::{Vec3i, COORD_LIMIT};
use crate::store::{
    despawn_post, dot_at, entry_at, live, resolvable, resolvable_dot, with_moving, Dot, Entry,
    Shape, Store,
};

verus! {

/// The active tool. Escape leaves every tool; the dot and line tools are
/// driven by their shortcut keys. The remaining shapes are reserved and have
/// no handler yet.
#[derive(Clone, Copy, Debug, PartialEq, Eq, Structural)]
pub enum SketchMode {
    Idle,
    Dot,
    Line,
    Rectangle,
    Circle,
    Arc,
}

/// The scratch value marking a position slot as unset.
pub open spec fn spec_default_pos() -> Vec3i {
    Vec3i { x: i64::MIN, y: i64::MIN, z: i64::MIN }
}

/// The scratch value marking a position slot as unset.
pub fn default_pos() -> (r: Vec3i)
    ensures
        r == spec_default_pos(),
{
    Vec3i { x: i64::MIN, y: i64::MIN, z: i64::MIN }
}

/// True when a scratch position has been set to a real value.
pub fn is_defined(value: Vec3i) -> (r: bool)
    ensures
        r == (value != spec_default_pos()),
{
    let d = default_pos();
    value != d
}

/// The chain in progress: the most recent temporary dots (at most two), the
/// temporary preview line (at most one), and a scratch position array
/// reserved for position-only drafting. A session holds exactly one.
pub struct Current {
    pub position: [Vec3i; 3],
    pub dots: Vec<usize>,
    pub lines: Vec<usize>,
}

/// All scratch slots unset.
pub open spec fn scratch_cleared(a: [Vec3i; 3]) -> bool {
    forall|i: int| 0 <= i < 3 ==> a@[i] == spec_default_pos()
}

/// `Current` equal to its default: no dots, no lines, scratch unset.
pub open spec fn current_is_default(c: Current) -> bool {
    &&& c.dots@.len() == 0
    &&& c.lines@.len() == 0
    &&& scratch_cleared(c.position)
}

/// The identities `Current` may hold against an arena of `n` slots: all in
/// range, and a pending dot implies a pending preview line.
pub open spec fn current_wf(c: Current, n: int) -> bool {
    &&& forall|i: int| 0 <= i < c.dots@.len() ==> #[trigger] c.dots@[i] < n
    &&& forall|i: int| 0 <= i < c.lines@.len() ==> #[trigger] c.lines@[i] < n
    &&& c.dots@.len() > 0 ==> c.lines@.len() > 0
}

impl Default for Current {
    /// An empty chain.
    fn default() -> (r: Current)
        ensures
            current_is_default(r),
    {
        let d = default_pos();
        Current { position: [d, d, d], dots: Vec::new(), lines: Vec::new() }
    }
}

/// The line queued for the next redundancy check; the entry is absent for
/// the first segment of a chain, which has no prior line to compare.
pub struct Checked {
    pub lines: Vec<Option<usize>>,
}

impl Default for Checked {
    /// Nothing queued.
    fn default() -> (r: Checked)
        ensures
            r.lines@.len() == 0,
    {
        Checked { lines: Vec::new() }
    }
}

/// The arena after destruction requests for each identity in `ids`, in
/// order.
pub open spec fn doom_ids(s: Seq<Option<Entry>>, ids: Seq<usize>) -> Seq<Option<Entry>>
    decreases ids.len(),
{
    if ids.len() == 0 {
        s
    } else {
        despawn_post(doom_ids(s, ids.drop_last()), ids.last() as int)
    }
}

/// The arena after a chain reset: every pending temporary line and dot of
/// the chain is requested for destruction.
pub open spec fn reset_current_post(
    s: Seq<Option<Entry>>,
    dots: Seq<usize>,
    lines: Seq<usize>,
) -> Seq<Option<Entry>> {
    doom_ids(doom_ids(s, lines), dots)
}

/// Abandons the chain in progress: despawns its temporary lines and dots and
/// returns `Current` to its default.
pub fn reset_current(store: &mut Store, current: &mut Current)
    ensures
        final(store)@ == reset_current_post(
            old(store)@,
            old(current).dots@,
            old(current).lines@,
        ),
        current_is_default(*final(current)),
{
    let ghost s0 = store@;
    let ghost lines0 = current.lines@;
    let mut i: usize = 0;
    let n = current.lines.len();
    while i < n
        invariant
            n == lines0.len(),
            current.lines@ == lines0,
            i <= n,
            store@ == doom_ids(s0, lines0.take(i as int)),
        decreases n - i,
    {
        store.despawn(current.lines[i]);
        proof {
            assert(lines0.take(i + 1).drop_last() =~= lines0.take(i as int));
            assert(lines0.take(i + 1).last() == lines0[i as int]);
        }
        i = i + 1;
    }
    proof {
        assert(lines0.take(n as int) =~= lines0);
    }
    let ghost s1 = store@;
    let ghost dots0 = current.dots@;
    let mut i: usize = 0;
    let n = current.dots.len();
    while i < n
        invariant
            n == dots0.len(),
            current.dots@ == dots0,
            i <= n,
            store@ == doom_ids(s1, dots0.take(i as int)),
        decreases n - i,
    {
        store.despawn(current.dots[i]);
        proof {
            assert(dots0.take(i + 1).drop_last() =~= dots0.take(i as int));
            assert(dots0.take(i + 1).last() == dots0[i as int]);
        }
        i = i + 1;
    }
    proof {
        assert(dots0.take(n as int) =~= dots0);
    }
    *current = Current::default();
}

/// Dooming a list of identities leaves each of them unresolvable, and
/// never revives anything.
proof fn lemma_doom_ids_dooms(s: Seq<Option<Entry>>, ids: Seq<usize>)
    ensures
        forall|k: int|
            0 <= k < ids.len() ==> !resolvable(doom_ids(s, ids), #[trigger] ids[k] as int),
        forall|j: int| !resolvable(s, j) ==> !(#[trigger] resolvable(doom_ids(s, ids), j)),
    decreases ids.len(),
{
    if ids.len() > 0 {
        let rest = ids.drop_last();
        lemma_doom_ids_dooms(s, rest);
        let d = doom_ids(s, rest);
        assert forall|k: int| 0 <= k < ids.len() implies !resolvable(
            doom_ids(s, ids),
            #[trigger] ids[k] as int,
        ) by {
            if k < ids.len() - 1 {
                assert(rest[k] == ids[k]);
                assert(!resolvable(d, ids[k] as int));
            }
        }
        assert forall|j: int| !resolvable(s, j) implies !(#[trigger] resolvable(
            doom_ids(s, ids),
            j,
        )) by {
            assert(!resolvable(d, j));
        }
    }
}

/// A destruction request for an identity that is already unresolvable
/// changes nothing.
proof fn lemma_doom_ids_absorbed(s: Seq<Option<Entry>>, ids: Seq<usize>)
    requires
        forall|k: int| 0 <= k < ids.len() ==> !resolvable(s, #[trigger] ids[k] as int),
    ensures
        doom_ids(s, ids) == s,
    decreases ids.len(),
{
    if ids.len() > 0 {
        let rest = ids.drop_last();
        assert forall|k: int| 0 <= k < rest.len() implies !resolvable(
            s,
            #[trigger] rest[k] as int,
        ) by {
            assert(rest[k] == ids[k]);
        }
        lemma_doom_ids_absorbed(s, rest);
        let last = ids.last() as int;
        assert(!resolvable(s, last));
        if live(s, last) {
            assert(entry_at(s, last).doomed);
            assert(crate::store::with_doomed(entry_at(s, last)) == entry_at(s, last));
            assert(s.update(last, Some(crate::store::with_doomed(entry_at(s, last)))) =~= s);
        }
    }
}

/// Resetting the chain is idempotent: the first reset empties `Current`, so
/// a second reset despawns nothing; and even re-issuing the same destruction
/// requests would leave the arena exactly as the first reset left it — a
/// double despawn has no effect.
pub proof fn lemma_reset_current_idempotent(
    s: Seq<Option<Entry>>,
    dots: Seq<usize>,
    lines: Seq<usize>,
)
    ensures
        reset_current_post(
            reset_current_post(s, dots, lines),
            Seq::<usize>::empty(),
            Seq::<usize>::empty(),
        ) == reset_current_post(s, dots, lines),
        reset_current_post(reset_current_post(s, dots, lines), dots, lines)
            == reset_current_post(s, dots, lines),
{
    let d1 = doom_ids(s, lines);
    let done = doom_ids(d1, dots);
    lemma_doom_ids_dooms(s, lines);
    lemma_doom_ids_dooms(d1, dots);
    assert forall|k: int| 0 <= k < lines.len() implies !resolvable(
        done,
        #[trigger] lines[k] as int,
    ) by {
        assert(!resolvable(d1, lines[k] as int));
    }
    lemma_doom_ids_absorbed(done, lines);
    lemma_doom_ids_absorbed(done, dots);
}

/// Switches the active tool on a shortcut edge. Escape wins over the dot
/// key, which wins over the line key; every switch first abandons the chain
/// in progress. Without a pressed shortcut nothing changes.
pub fn change_sketch_mode(
    store: &mut Store,
    current: &mut Current,
    mode: &mut SketchMode,
    escape_pressed: bool,
    dot_key_pressed: bool,
    line_key_pressed: bool,
)
    ensures
        ({
            let switched = escape_pressed || dot_key_pressed || line_key_pressed;
            &&& switched ==> {
                &&& final(store)@ == reset_current_post(
                    old(store)@,
                    old(current).dots@,
                    old(current).lines@,
                )
                &&& current_is_default(*final(current))
            }
            &&& !switched ==> {
                &&& final(store)@ == old(store)@
                &&& *final(current) == *old(current)
                &&& *final(mode) == *old(mode)
            }
            &&& *final(mode) == (if escape_pressed {
                SketchMode::Idle
            } else if dot_key_pressed {
                SketchMode::Dot
            } else if line_key_pressed {
                SketchMode::Line
            } else {
                *old(mode)
            })
        }),
{
    if escape_pressed {
        reset_current(store, current);
        *mode = SketchMode::Idle;
    } else if dot_key_pressed {
        reset_current(store, current);
        *mode = SketchMode::Dot;
    } else if line_key_pressed {
        reset_current(store, current);
        *mode = SketchMode::Line;
    }
}

/// A dot that the drag apply phase will move this tick.
pub open spec fn moving_dot(s: Seq<Option<Entry>>, i: int) -> bool {
    resolvable_dot(s, i) && entry_at(s, i).moving
}

/// The tick's cursor delta can be added to every moving dot without leaving
/// the coordinate bound.
pub open spec fn delta_applicable(s: Seq<Option<Entry>>, delta: Vec3i) -> bool {
    forall|i: int| #[trigger] moving_dot(s, i) ==> {
        let p = dot_at(s, i).position;
        &&& -COORD_LIMIT <= p.x + delta.x <= COORD_LIMIT
        &&& -COORD_LIMIT <= p.y + delta.y <= COORD_LIMIT
        &&& -COORD_LIMIT <= p.z + delta.z <= COORD_LIMIT
    }
}

/// The arena after the drag apply phase: every moving dot is translated by
/// exactly the delta, and nothing else changes.
pub open spec fn apply_delta_post(s: Seq<Option<Entry>>, delta: Vec3i) -> Seq<Option<Entry>> {
    Seq::new(
        s.len(),
        |i: int| if moving_dot(s, i) {
            let e = entry_at(s, i);
            let d = dot_at(s, i);
            Some(Entry {
                shape: Shape::Dot(Dot { position: d.position.spec_add(delta), mode: d.mode }),
                selected: e.selected,
                moving: e.moving,
                changing: e.changing,
                doomed: e.doomed,
            })
        } else {
            s[i]
        },
    )
}

/// Decides whether the apply phase may run: true when no moving dot would be
/// pushed past the coordinate bound by `delta`.
pub fn can_apply_delta(store: &Store, delta: Vec3i) -> (r: bool)
    ensures
        r == delta_applicable(store@, delta),
{
    let n = store.len();
    let mut i: usize = 0;
    while i < n
        invariant
            n == store@.len(),
            i <= n,
            forall|j: int| 0 <= j < i && #[trigger] moving_dot(store@, j) ==> {
                let p = dot_at(store@, j).position;
                &&& -COORD_LIMIT <= p.x + delta.x <= COORD_LIMIT
                &&& -COORD_LIMIT <= p.y + delta.y <= COORD_LIMIT
                &&& -COORD_LIMIT <= p.z + delta.z <= COORD_LIMIT
            },
        decreases n - i,
    {
        match store.get(i) {
            Some(e) => {
                if !e.doomed && e.moving {
                    match e.shape {
                        Shape::Dot(d) => {
                            let limit = COORD_LIMIT as i128;
                            let sx = d.position.x as i128 + delta.x as i128;
                            let sy = d.position.y as i128 + delta.y as i128;
                            let sz = d.position.z as i128 + delta.z as i128;
                            if sx < -limit || sx > limit || sy < -limit || sy > limit || sz < -limit
                                || sz > limit {
                                proof {
                                    assert(moving_dot(store@, i as int));
                                    assert(dot_at(store@, i as int) == d);
                                }
                                return false;
                            }
                        },
                        Shape::Line(_) => {},
                    }
                }
            },
            None => {},
        }
        i = i + 1;
    }
    true
}

/// Drag apply phase: adds the tick's cursor delta to the translation of
/// every entity tagged moving — exactly the delta, no scaling, no clamping.
pub fn update_moving_transforms(store: &mut Store, delta: Vec3i)
    requires
        delta_applicable(old(store)@, delta),
    ensures
        final(store)@ == apply_delta_post(old(store)@, delta),
{
    let ghost s0 = store@;
    let n = store.len();
    let mut i: usize = 0;
    while i < n
        invariant
            n == s0.len(),
            store@.len() == n,
            i <= n,
            delta_applicable(s0, delta),
            forall|j: int| 0 <= j < i ==> store@[j] == apply_delta_post(s0, delta)[j],
            forall|j: int| i <= j < n ==> store@[j] == s0[j],
        decreases n - i,
    {
        match store.get(i) {
            Some(e) => {
                if !e.doomed && e.moving {
                    match e.shape {
                        Shape::Dot(d) => {
                            proof {
                                assert(moving_dot(s0, i as int));
                            }
                            let moved = Dot { position: d.position.add(delta), mode: d.mode };
                            let mut updated = e;
                            updated.shape = Shape::Dot(moved);
                            store.put(i, updated);
                        },
                        Shape::Line(_) => {},
                    }
                }
            },
            None => {},
        }
        i = i + 1;
    }
    assert(store@ =~= apply_delta_post(s0, delta));
}

/// Drag delta conservation: after the apply phase, a moving dot sits at its
/// old position plus exactly the tick's delta.
pub proof fn lemma_drag_delta_conservation(s: Seq<Option<Entry>>, delta: Vec3i, i: int)
    requires
        delta_applicable(s, delta),
        moving_dot(s, i),
    ensures
        dot_at(apply_delta_post(s, delta), i).position.x == dot_at(s, i).position.x + delta.x,
        dot_at(apply_delta_post(s, delta), i).position.y == dot_at(s, i).position.y + delta.y,
        dot_at(apply_delta_post(s, delta), i).position.z == dot_at(s, i).position.z + delta.z,
{
    assert(-COORD_LIMIT <= dot_at(s, i).position.x + delta.x <= COORD_LIMIT);
}

/// The apply phase keeps the arena well-formed: line references are
/// untouched and every translated dot stays within the coordinate bound.
pub proof fn lemma_apply_delta_preserves_wf(s: Seq<Option<Entry>>, delta: Vec3i)
    requires
        crate::store::wf(s),
        delta_applicable(s, delta),
    ensures
        crate::store::wf(apply_delta_post(s, delta)),
{
    let post = apply_delta_post(s, delta);
    assert forall|i: int| #[trigger] crate::store::is_line(post, i) implies {
        &&& crate::store::line_at(post, i).start < post.len()
        &&& crate::store::line_at(post, i).end < post.len()
        &&& !crate::store::is_line(post, crate::store::line_at(post, i).start as int)
        &&& !crate::store::is_line(post, crate::store::line_at(post, i).end as int)
    } by {
        assert(crate::store::is_line(s, i));
        assert(crate::store::line_at(post, i) == crate::store::line_at(s, i));
        assert(!crate::store::is_line(s, crate::store::line_at(s, i).start as int));
        assert(!crate::store::is_line(s, crate::store::line_at(s, i).end as int));
    }
    assert forall|i: int| #[trigger] crate::store::is_dot(post, i) implies crate::geom::in_bounds(
        dot_at(post, i).position,
    ) by {
        assert(crate::store::is_dot(s, i));
        if moving_dot(s, i) {
            assert(-COORD_LIMIT <= dot_at(s, i).position.x + delta.x <= COORD_LIMIT);
        }
    }
}

/// The arena after the drag sweep: the moving tag is removed from every
/// entity still carrying it.
pub open spec fn remove_moving_post(s: Seq<Option<Entry>>) -> Seq<Option<Entry>> {
    Seq::new(
        s.len(),
        |i: int| if resolvable(s, i) {
            Some(with_moving(entry_at(s, i), false))
        } else {
            s[i]
        },
    )
}

/// Drag sweep phase, run when the cursor is at rest: clears the moving tag
/// everywhere, ending the drag.
pub fn remove_moving(store: &mut Store)
    ensures
        final(store)@ == remove_moving_post(old(store)@),
{
    let ghost s0 = store@;
    let n = store.len();
    let mut i: usize = 0;
    while i < n
        invariant
            n == s0.len(),
            store@.len() == n,
            i <= n,
            forall|j: int| 0 <= j < i ==> store@[j] == remove_moving_post(s0)[j],
            forall|j: int| i <= j < n ==> store@[j] == s0[j],
        decreases n - i,
    {
        match store.get(i) {
            Some(e) => {
                if !e.doomed {
                    let mut cleared = e;
                    cleared.moving = false;
                    store.put(i, cleared);
                }
            },
            None => {},
        }
        i = i + 1;
    }
    assert(store@ =~= remove_moving_post(s0));
}

/// True when a drag is in progress: the left button is held and the cursor
/// moved since the previous tick.
pub fn is_dragging(left_held: bool, cursor: &Cursor) -> (r: bool)
    ensures
        r == (left_held && cursor.position != cursor.prev_position),
{
    left_held && cursor.position != cursor.prev_position
}

} // verus!
