//! Dot lifecycle: spawning committed dots with the dot tool, spawning
//! temporary chain dots, and promoting temporary dots to committed ones.

use vstd::prelude::*;

use crate::cursor::Cursor;
use crate::geom::{in_bounds, Vec3i};
use crate::sketch::Current;
use crate::store::{
    dot_at, dot_entry, entry_at, resolvable_dot, with_moving, Dot, DotMode, Entry, Shape, Store,
};

verus! {

/// Dot tool click: spawns a committed, rendered dot at the cursor position.
pub fn spawn_dot(store: &mut Store, cursor: &Cursor)
    requires
        in_bounds(cursor.position),
    ensures
        final(store)@ == old(store)@.push(Some(dot_entry(cursor.position, DotMode::Final))),
{
    let entry = Entry {
        shape: Shape::Dot(Dot { position: cursor.position, mode: DotMode::Final }),
        selected: false,
        moving: false,
        changing: false,
        doomed: false,
    };
    store.spawn(entry);
}

/// Spawns a draft dot at `position` for the chain in progress and returns
/// its identity; the dot has no permanent visual until finalized.
pub fn spawn_temporary_dot(store: &mut Store, position: Vec3i) -> (id: usize)
    requires
        in_bounds(position),
    ensures
        final(store)@ == old(store)@.push(Some(dot_entry(position, DotMode::Temporary))),
        id == old(store)@.len(),
{
    let entry = Entry {
        shape: Shape::Dot(Dot { position: position, mode: DotMode::Temporary }),
        selected: false,
        moving: false,
        changing: false,
        doomed: false,
    };
    store.spawn(entry)
}

/// The arena after finalizing dot `i`: a resolvable dot becomes committed;
/// anything else is left alone.
pub open spec fn finalize_dot_post(s: Seq<Option<Entry>>, i: int) -> Seq<Option<Entry>> {
    if resolvable_dot(s, i) {
        let e = entry_at(s, i);
        s.update(
            i,
            Some(Entry {
                shape: Shape::Dot(Dot { position: dot_at(s, i).position, mode: DotMode::Final }),
                selected: e.selected,
                moving: e.moving,
                changing: e.changing,
                doomed: e.doomed,
            }),
        )
    } else {
        s
    }
}

/// Promotes a temporary dot to a committed one, giving it its permanent
/// visual; an already committed dot, or an identity that no longer resolves
/// to a dot, is left alone. Returns the identity it was given.
pub fn finalize_dot(store: &mut Store, dot_id: usize) -> (r: usize)
    ensures
        final(store)@ == finalize_dot_post(old(store)@, dot_id as int),
        r == dot_id,
{
    match store.get(dot_id) {
        Some(e) => {
            if !e.doomed {
                match e.shape {
                    Shape::Dot(d) => {
                        let mut promoted = e;
                        promoted.shape = Shape::Dot(Dot { position: d.position, mode: DotMode::Final });
                        store.put(dot_id, promoted);
                    },
                    Shape::Line(_) => {},
                }
            }
        },
        None => {},
    }
    dot_id
}

/// The arena after the drag mark phase over dots: every selected dot
/// carries the moving tag.
pub open spec fn mark_moving_dots_post(s: Seq<Option<Entry>>) -> Seq<Option<Entry>> {
    Seq::new(
        s.len(),
        |i: int| if resolvable_dot(s, i) && entry_at(s, i).selected {
            Some(with_moving(entry_at(s, i), true))
        } else {
            s[i]
        },
    )
}

/// Drag mark phase over dots: tags every selected dot as moving, so the
/// apply phase gives it the tick's cursor delta.
pub fn mark_moving_dots(store: &mut Store)
    ensures
        final(store)@ == mark_moving_dots_post(old(store)@),
{
    let ghost s0 = store@;
    let n = store.len();
    let mut i: usize = 0;
    while i < n
        invariant
            store@.len() == n,
            i <= n,
            forall|j: int| 0 <= j < i ==> store@[j] == mark_moving_dots_post(s0)[j],
            forall|j: int| i <= j < n ==> store@[j] == s0[j],
        decreases n - i,
    {
        match store.get(i) {
            Some(e) => {
                if !e.doomed && e.selected {
                    match e.shape {
                        Shape::Dot(_) => {
                            let mut tagged = e;
                            tagged.moving = true;
                            store.put(i, tagged);
                        },
                        Shape::Line(_) => {},
                    }
                }
            },
            None => {},
        }
        i = i + 1;
    }
    assert(store@ =~= mark_moving_dots_post(s0));
}

/// The arena after finalizing each dot in `ids`, in order.
pub open spec fn finalize_dots_post(s: Seq<Option<Entry>>, ids: Seq<usize>) -> Seq<Option<Entry>>
    decreases ids.len(),
{
    if ids.len() == 0 {
        s
    } else {
        finalize_dot_post(finalize_dots_post(s, ids.drop_last()), ids.last() as int)
    }
}

/// Finalizes every dot the chain in progress still refers to; run when a
/// chain click commits without hovering existing geometry.
pub fn finalize_dots(store: &mut Store, current: &Current)
    ensures
        final(store)@ == finalize_dots_post(old(store)@, current.dots@),
{
    let ghost s0 = store@;
    let ghost ids = current.dots@;
    let n = current.dots.len();
    let mut i: usize = 0;
    while i < n
        invariant
            n == ids.len(),
            current.dots@ == ids,
            i <= n,
            store@ == finalize_dots_post(s0, ids.take(i as int)),
        decreases n - i,
    {
        finalize_dot(store, current.dots[i]);
        proof {
            assert(ids.take(i + 1).drop_last() =~= ids.take(i as int));
            assert(ids.take(i + 1).last() == ids[i as int]);
        }
        i = i + 1;
    }
    proof {
        assert(ids.take(n as int) =~= ids);
    }
}

} // verus!
