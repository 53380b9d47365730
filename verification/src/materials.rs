//! The visual-state dispatch: which material an entity should show, from
//! its kind, its selection tag and the hover signal.
//!
//! The rendering collaborator owns the material assets themselves; the
//! session only decides, for an entity marked as needing a visual refresh,
//! which of the fixed visual states applies. Selection wins over hover,
//! and an entity both selected and hovered gets the combined state;
//! otherwise an entity falls back to its kind's base state.

use vstd::prelude::*;

use crate::cursor::Picking;
use crate::store::{entry_at, is_line, resolvable, Entry, Shape, Store};

verus! {

/// The visual states an entity can show.
#[derive(Clone, Copy, Debug, PartialEq, Eq, Structural)]
pub enum Visual {
    DotBase,
    LineBase,
    Hovered,
    Selected,
    SelectedAndHovered,
}

/// The visual state for an entity of the given kind and tags.
pub open spec fn spec_visual_for(line_kind: bool, selected: bool, hovered: bool) -> Visual {
    if selected && hovered {
        Visual::SelectedAndHovered
    } else if selected {
        Visual::Selected
    } else if hovered {
        Visual::Hovered
    } else if line_kind {
        Visual::LineBase
    } else {
        Visual::DotBase
    }
}

/// Decides the visual state of an entity: a selected and hovered entity
/// shows the combined state, selection wins over plain hover, hover wins
/// over the base state, and the base state follows the entity's kind.
pub fn get_ui_material(line_kind: bool, selected: bool, hovered: bool) -> (v: Visual)
    ensures
        v == spec_visual_for(line_kind, selected, hovered),
{
    if selected && hovered {
        Visual::SelectedAndHovered
    } else if selected {
        Visual::Selected
    } else if hovered {
        Visual::Hovered
    } else if line_kind {
        Visual::LineBase
    } else {
        Visual::DotBase
    }
}

/// The visual state entity `i` of the arena should show under picking
/// state `p`.
pub open spec fn spec_visual_of(s: Seq<Option<Entry>>, p: Picking, i: int) -> Visual
    recommends
        resolvable(s, i),
{
    spec_visual_for(
        is_line(s, i),
        entry_at(s, i).selected,
        p.hovered == Some(i as usize),
    )
}

/// Reads the visual state an entity should show, and acknowledges the
/// refresh by clearing its refresh mark; an identity that no longer
/// resolves yields nothing and changes nothing.
pub fn update_material_on(store: &mut Store, picking: &Picking, id: usize) -> (v: Option<Visual>)
    ensures
        ({
            let s = old(store)@;
            &&& resolvable(s, id as int) ==> {
                &&& v == Some(spec_visual_of(s, *picking, id as int))
                &&& final(store)@ == s.update(
                    id as int,
                    Some(Entry {
                        shape: entry_at(s, id as int).shape,
                        selected: entry_at(s, id as int).selected,
                        moving: entry_at(s, id as int).moving,
                        changing: false,
                        doomed: entry_at(s, id as int).doomed,
                    }),
                )
            }
            &&& !resolvable(s, id as int) ==> v is None && final(store)@ == s
        }),
{
    match store.get(id) {
        Some(e) => {
            if e.doomed {
                return None;
            }
            let line_kind = match e.shape {
                Shape::Line(_) => true,
                Shape::Dot(_) => false,
            };
            let hovered = match picking.hovered {
                Some(h) => h == id,
                None => false,
            };
            let mut acknowledged = e;
            acknowledged.changing = false;
            store.put(id, acknowledged);
            Some(get_ui_material(line_kind, e.selected, hovered))
        },
        None => None,
    }
}

} // verus!
