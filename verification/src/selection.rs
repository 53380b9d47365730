//! The selection manager: click-to-toggle selection with
//! click-elsewhere-clears semantics, extended by a chain-select modifier.

use vstd::prelude::*;

use crate::cursor::Picking;
use crate::store::{entry_at, resolvable, with_selected, Entry, Store};

verus! {

/// The arena after a selection toggle on the hovered entity: with nothing
/// hovered (or the hovered record pending destruction) nothing changes;
/// otherwise the hovered entity's selection tag flips and the entity is
/// marked for a visual refresh.
pub open spec fn toggle_select_post(s: Seq<Option<Entry>>, p: Picking) -> Seq<Option<Entry>> {
    match p.hovered {
        Some(h) => {
            if resolvable(s, h as int) {
                s.update(
                    h as int,
                    Some(with_selected(entry_at(s, h as int), !entry_at(s, h as int).selected)),
                )
            } else {
                s
            }
        },
        None => s,
    }
}

/// Toggles the selection tag of the hovered entity, marking it for a visual
/// refresh; a click on empty space toggles nothing.
pub fn toggle_select_entity(store: &mut Store, picking: &Picking)
    ensures
        final(store)@ == toggle_select_post(old(store)@, *picking),
{
    match picking.hovered {
        Some(h) => {
            match store.get(h) {
                Some(e) => {
                    if !e.doomed {
                        let mut toggled = e;
                        toggled.selected = !e.selected;
                        toggled.changing = true;
                        store.put(h, toggled);
                    }
                },
                None => {},
            }
        },
        None => {},
    }
}

/// The arena after the deselect-others pass: with the chain-select modifier
/// held nothing changes; otherwise every selected entity except the hovered
/// one loses its selection tag and is marked for a visual refresh.
pub open spec fn deselect_others_post(
    s: Seq<Option<Entry>>,
    p: Picking,
    chain_select: bool,
) -> Seq<Option<Entry>> {
    if chain_select {
        s
    } else {
        Seq::new(
            s.len(),
            |i: int| if resolvable(s, i) && entry_at(s, i).selected && p.hovered != Some(i as usize) {
                Some(with_selected(entry_at(s, i), false))
            } else {
                s[i]
            },
        )
    }
}

/// Runs on every left click, after selection toggling: unless a chain-select
/// modifier is held, clears the selection tag from everything but the
/// hovered entity, so a plain click selects exactly one entity and a click
/// on empty space clears the selection.
pub fn deselect_other_entities(store: &mut Store, picking: &Picking, chain_select: bool)
    ensures
        final(store)@ == deselect_others_post(old(store)@, *picking, chain_select),
{
    if chain_select {
        return ;
    }
    let ghost s0 = store@;
    let n = store.len();
    let mut i: usize = 0;
    while i < n
        invariant
            n == s0.len(),
            store@.len() == n,
            i <= n,
            forall|j: int| 0 <= j < i ==> store@[j] == deselect_others_post(s0, *picking, false)[j],
            forall|j: int| i <= j < n ==> store@[j] == s0[j],
        decreases n - i,
    {
        let hovered_here = match picking.hovered {
            Some(h) => h == i,
            None => false,
        };
        match store.get(i) {
            Some(e) => {
                if !e.doomed && e.selected && !hovered_here {
                    let mut cleared = e;
                    cleared.selected = false;
                    cleared.changing = true;
                    store.put(i, cleared);
                }
            },
            None => {},
        }
        i = i + 1;
    }
    assert(store@ =~= deselect_others_post(s0, *picking, false));
}

} // verus!
