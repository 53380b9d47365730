//! Cursor and picking state: the per-tick signals from the windowing and
//! ray-casting collaborators.
//!
//! Each tick the picking adapter projects the window cursor onto the fixed
//! interaction plane and ray-casts the scene. The session only consumes the
//! results: an optional world position (absent when the cursor is outside the
//! window or the ray misses the plane) and an optional hovered identity.
//! Both are kept together with their previous-tick values, so later passes
//! can detect movement and hover transitions without an event queue.

use vstd::prelude::*;

use crate::geom::{in_bounds, Vec3i};
use crate::store::{entry_at, resolvable, with_changing, Entry, Store};

verus! {

/// The cursor's world position on the interaction plane, current and
/// previous.
#[derive(Clone, Copy, Debug, PartialEq, Eq, Structural)]
pub struct Cursor {
    pub position: Vec3i,
    pub prev_position: Vec3i,
}

impl Default for Cursor {
    /// Cursor resting at the origin.
    fn default() -> (r: Cursor)
        ensures
            r == (Cursor { position: Vec3i::spec_zero(), prev_position: Vec3i::spec_zero() }),
    {
        Cursor { position: Vec3i { x: 0, y: 0, z: 0 }, prev_position: Vec3i { x: 0, y: 0, z: 0 } }
    }
}

/// The cursor positions a session may hold: bounded, so spawned dots keep the
/// arena well-formed.
pub open spec fn cursor_wf(c: Cursor) -> bool {
    in_bounds(c.position) && in_bounds(c.prev_position)
}

/// The hovered entity under the cursor ray, current and previous tick;
/// absent when the ray hits nothing pickable.
#[derive(Clone, Copy, Debug, PartialEq, Eq, Structural)]
pub struct Picking {
    pub hovered: Option<usize>,
    pub prev_hovered: Option<usize>,
}

impl Default for Picking {
    /// Nothing hovered, this tick or the previous one.
    fn default() -> (r: Picking)
        ensures
            r == (Picking { hovered: None, prev_hovered: None }),
    {
        Picking { hovered: None, prev_hovered: None }
    }
}

/// Takes this tick's cursor sample. The previous position always becomes the
/// old current one; with no new information (`None`) the current position is
/// retained, which also reads as "not moving" downstream.
pub fn update_cursor(cursor: &mut Cursor, sample: Option<Vec3i>)
    requires
        sample matches Some(p) ==> in_bounds(p),
        cursor_wf(*old(cursor)),
    ensures
        final(cursor).prev_position == old(cursor).position,
        final(cursor).position == (match sample {
            Some(p) => p,
            None => old(cursor).position,
        }),
        cursor_wf(*final(cursor)),
{
    cursor.prev_position = cursor.position;
    match sample {
        Some(p) => {
            cursor.position = p;
        },
        None => {},
    }
}

/// True when the cursor moved since the previous tick.
pub fn is_cursor_moving(cursor: &Cursor) -> (r: bool)
    ensures
        r == (cursor.position != cursor.prev_position),
{
    cursor.position != cursor.prev_position
}

/// Compares two optional identities.
pub fn same_id(a: Option<usize>, b: Option<usize>) -> (r: bool)
    ensures
        r == (a == b),
{
    match (a, b) {
        (Some(x), Some(y)) => x == y,
        (None, None) => true,
        _ => false,
    }
}

/// Takes this tick's ray-cast result: the old hover becomes the previous
/// one, the hit (or nothing) becomes the current one.
pub fn hover_entity(picking: &mut Picking, hit: Option<usize>)
    ensures
        final(picking).prev_hovered == old(picking).hovered,
        final(picking).hovered == hit,
{
    picking.prev_hovered = picking.hovered;
    picking.hovered = hit;
}

/// The optional identity `o` names slot `i`.
pub open spec fn names_slot(o: Option<usize>, i: int) -> bool {
    o matches Some(h) && h == i
}

/// The arena after the hover-transition pass: on a hover change, both the
/// entity newly under the cursor and the one just left are marked for a
/// visual refresh; entities pending destruction are skipped.
pub open spec fn mark_hovered_post(s: Seq<Option<Entry>>, p: Picking) -> Seq<Option<Entry>> {
    Seq::new(
        s.len(),
        |i: int| if resolvable(s, i) && p.hovered != p.prev_hovered
            && (names_slot(p.hovered, i) || names_slot(p.prev_hovered, i)) {
            Some(with_changing(entry_at(s, i)))
        } else {
            s[i]
        },
    )
}

/// Marks hover transitions: when the hovered entity changed since the
/// previous tick, both sides of the transition need a visual refresh.
pub fn mark_hovered_changing_material(store: &mut Store, picking: &Picking)
    ensures
        final(store)@ == mark_hovered_post(old(store)@, *picking),
{
    let ghost s0 = store@;
    if !same_id(picking.hovered, picking.prev_hovered) {
        match picking.hovered {
            Some(h) => {
                match store.get(h) {
                    Some(e) => {
                        if !e.doomed {
                            let mut marked = e;
                            marked.changing = true;
                            store.put(h, marked);
                        }
                    },
                    None => {},
                }
            },
            None => {},
        }
        match picking.prev_hovered {
            Some(h) => {
                match store.get(h) {
                    Some(e) => {
                        if !e.doomed {
                            let mut marked = e;
                            marked.changing = true;
                            store.put(h, marked);
                        }
                    },
                    None => {},
                }
            },
            None => {},
        }
    }
    assert(store@ =~= mark_hovered_post(s0, *picking));
}

/// Forgets all picking state.
pub fn reset_picking(picking: &mut Picking)
    ensures
        final(picking).hovered is None,
        final(picking).prev_hovered is None,
{
    picking.hovered = None;
    picking.prev_hovered = None;
}

} // verus!
