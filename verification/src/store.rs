//! The geometry store: a sparse arena of dot and line records.
//!
//! Every scene entity the session owns lives in one growable arena. An
//! identity is an index into the arena; identities are stable and never
//! reused (a removed entity leaves a vacant slot behind). Destruction is
//! deferred: a pass requests it by setting the `doomed` flag, every later
//! pass in the same tick still sees the record but skips acting on it, and a
//! single `flush` at the end of the tick vacates all doomed slots. The
//! `selected`, `moving` and `changing` flags are the tag sets of the session:
//! user selection, the per-frame drag tag, and the "needs a visual refresh"
//! signal read by the rendering collaborator.

use vstd::prelude::*;

use crate::geom::{in_bounds, Vec3i};

verus! {

/// Lifecycle state of a dot: a draft placeholder or a committed, rendered dot.
#[derive(Clone, Copy, Debug, PartialEq, Eq, Structural)]
pub enum DotMode {
    Temporary,
    Final,
}

/// A point marker.
#[derive(Clone, Copy, Debug, PartialEq, Eq, Structural)]
pub struct Dot {
    pub position: Vec3i,
    pub mode: DotMode,
}

/// The exact integer part of a line's rendered placement: twice the midpoint
/// of the endpoints, and their difference. Orientation and scale are derived
/// from `axis` by the rendering collaborator.
#[derive(Clone, Copy, Debug, PartialEq, Eq, Structural)]
pub struct LineFrame {
    pub center_doubled: Vec3i,
    pub axis: Vec3i,
}

/// A straight segment between two dots, referred to by identity. A line does
/// not own its dots: both references may stop resolving, and the deletion
/// cascade removes such lines. `finalized` records whether the segment has
/// been given its permanent mesh; `frame` is the placement computed from the
/// endpoint positions when the mesh was last refreshed.
#[derive(Clone, Copy, Debug, PartialEq, Eq, Structural)]
pub struct Line {
    pub start: usize,
    pub end: usize,
    pub finalized: bool,
    pub frame: LineFrame,
}

/// What a slot of the arena holds.
#[derive(Clone, Copy, Debug, PartialEq, Eq, Structural)]
pub enum Shape {
    Dot(Dot),
    Line(Line),
}

/// One arena record: a shape plus the session's tag flags.
#[derive(Clone, Copy, Debug, PartialEq, Eq, Structural)]
pub struct Entry {
    pub shape: Shape,
    pub selected: bool,
    pub moving: bool,
    pub changing: bool,
    pub doomed: bool,
}

/// The arena. Slot `i` holds entity `i`, or nothing once entity `i` has been
/// flushed away.
pub struct Store {
    pub entries: Vec<Option<Entry>>,
}

impl View for Store {
    type V = Seq<Option<Entry>>;

    open spec fn view(&self) -> Seq<Option<Entry>> {
        self.entries@
    }
}

/// Slot `i` exists and holds a record (doomed or not).
pub open spec fn live(s: Seq<Option<Entry>>, i: int) -> bool {
    0 <= i < s.len() && s[i] is Some
}

/// The record in slot `i`.
pub open spec fn entry_at(s: Seq<Option<Entry>>, i: int) -> Entry
    recommends
        live(s, i),
{
    s[i]->0
}

/// Slot `i` holds a record that is not pending destruction.
pub open spec fn resolvable(s: Seq<Option<Entry>>, i: int) -> bool {
    live(s, i) && !entry_at(s, i).doomed
}

/// Slot `i` holds a dot.
pub open spec fn is_dot(s: Seq<Option<Entry>>, i: int) -> bool {
    live(s, i) && entry_at(s, i).shape is Dot
}

/// Slot `i` holds a line.
pub open spec fn is_line(s: Seq<Option<Entry>>, i: int) -> bool {
    live(s, i) && entry_at(s, i).shape is Line
}

/// The dot in slot `i`.
pub open spec fn dot_at(s: Seq<Option<Entry>>, i: int) -> Dot
    recommends
        is_dot(s, i),
{
    entry_at(s, i).shape->Dot_0
}

/// The line in slot `i`.
pub open spec fn line_at(s: Seq<Option<Entry>>, i: int) -> Line
    recommends
        is_line(s, i),
{
    entry_at(s, i).shape->Line_0
}

/// Slot `i` holds a dot that is not pending destruction.
pub open spec fn resolvable_dot(s: Seq<Option<Entry>>, i: int) -> bool {
    is_dot(s, i) && !entry_at(s, i).doomed
}

/// Slot `i` holds a line that is not pending destruction.
pub open spec fn resolvable_line(s: Seq<Option<Entry>>, i: int) -> bool {
    is_line(s, i) && !entry_at(s, i).doomed
}

/// Well-formedness of the arena: a line's references stay inside the arena
/// and never point at a line slot (they are dot references that may at worst
/// have gone vacant), and every stored dot position is bounded.
pub open spec fn wf(s: Seq<Option<Entry>>) -> bool {
    &&& forall|i: int|
        #[trigger] is_line(s, i) ==> {
            &&& line_at(s, i).start < s.len()
            &&& line_at(s, i).end < s.len()
            &&& !is_line(s, line_at(s, i).start as int)
            &&& !is_line(s, line_at(s, i).end as int)
        }
    &&& forall|i: int| #[trigger] is_dot(s, i) ==> in_bounds(dot_at(s, i).position)
}

/// `e` with its destruction flag set.
pub open spec fn with_doomed(e: Entry) -> Entry {
    Entry { shape: e.shape, selected: e.selected, moving: e.moving, changing: e.changing, doomed: true }
}

/// `e` with its drag tag set to `m`.
pub open spec fn with_moving(e: Entry, m: bool) -> Entry {
    Entry { shape: e.shape, selected: e.selected, moving: m, changing: e.changing, doomed: e.doomed }
}

/// `e` with its selection tag set to `sel` and marked for a visual refresh.
pub open spec fn with_selected(e: Entry, sel: bool) -> Entry {
    Entry { shape: e.shape, selected: sel, moving: e.moving, changing: true, doomed: e.doomed }
}

/// `e` marked for a visual refresh.
pub open spec fn with_changing(e: Entry) -> Entry {
    Entry { shape: e.shape, selected: e.selected, moving: e.moving, changing: true, doomed: e.doomed }
}

/// A fresh, untagged record around `shape`.
pub open spec fn fresh_entry(shape: Shape) -> Entry {
    Entry { shape: shape, selected: false, moving: false, changing: false, doomed: false }
}

/// A fresh dot record.
pub open spec fn dot_entry(position: Vec3i, mode: DotMode) -> Entry {
    fresh_entry(Shape::Dot(Dot { position: position, mode: mode }))
}

/// A fresh, not yet finalized line record from `start` to `end`.
pub open spec fn line_entry(start: usize, end: usize) -> Entry {
    fresh_entry(Shape::Line(Line {
        start: start,
        end: end,
        finalized: false,
        frame: LineFrame { center_doubled: Vec3i::spec_zero(), axis: Vec3i::spec_zero() },
    }))
}

/// The arena after a destruction request for `i`: the record, if any, is
/// marked doomed; an out-of-range or vacant identity changes nothing.
pub open spec fn despawn_post(s: Seq<Option<Entry>>, i: int) -> Seq<Option<Entry>> {
    if live(s, i) {
        s.update(i, Some(with_doomed(entry_at(s, i))))
    } else {
        s
    }
}

/// The arena after the end-of-tick flush: every doomed slot goes vacant,
/// everything else is kept.
pub open spec fn flush_post(s: Seq<Option<Entry>>) -> Seq<Option<Entry>> {
    Seq::new(s.len(), |i: int| if resolvable(s, i) { s[i] } else { None })
}

impl Store {
    /// An empty arena.
    pub fn new() -> (r: Store)
        ensures
            r@ == Seq::<Option<Entry>>::empty(),
    {
        Store { entries: Vec::new() }
    }

    /// How many identities have been handed out.
    pub fn len(&self) -> (n: usize)
        ensures
            n == self@.len(),
    {
        self.entries.len()
    }

    /// The record with identity `id`, if the slot exists and is occupied.
    pub fn get(&self, id: usize) -> (r: Option<Entry>)
        ensures
            r == (if live(self@, id as int) {
                Some(entry_at(self@, id as int))
            } else {
                Option::<Entry>::None
            }),
    {
        if id < self.entries.len() {
            self.entries[id]
        } else {
            None
        }
    }

    /// True when `id` names a record not pending destruction.
    pub fn is_resolvable(&self, id: usize) -> (r: bool)
        ensures
            r == resolvable(self@, id as int),
    {
        match self.get(id) {
            Some(e) => !e.doomed,
            None => false,
        }
    }

    /// Appends a record and returns its new, never before used identity.
    pub fn spawn(&mut self, e: Entry) -> (id: usize)
        ensures
            final(self)@ == old(self)@.push(Some(e)),
            id == old(self)@.len(),
    {
        let id = self.entries.len();
        self.entries.push(Some(e));
        id
    }

    /// Overwrites the record with identity `id`.
    pub fn put(&mut self, id: usize, e: Entry)
        requires
            live(old(self)@, id as int),
        ensures
            final(self)@ == old(self)@.update(id as int, Some(e)),
    {
        self.entries.set(id, Some(e));
    }

    /// Requests destruction of entity `id`; the record stays visible until
    /// the end-of-tick flush.
    pub fn despawn(&mut self, id: usize)
        ensures
            final(self)@ == despawn_post(old(self)@, id as int),
    {
        if id < self.entries.len() {
            match self.entries[id] {
                Some(e) => {
                    let mut marked = e;
                    marked.doomed = true;
                    self.entries.set(id, Some(marked));
                },
                None => {},
            }
        }
    }

    /// End-of-tick synchronization point: vacates every doomed slot.
    pub fn flush(&mut self)
        ensures
            final(self)@ == flush_post(old(self)@),
    {
        let ghost s0 = self@;
        let n = self.entries.len();
        let mut i: usize = 0;
        while i < n
            invariant
                n == s0.len(),
                self.entries@.len() == n,
                i <= n,
                forall|j: int| 0 <= j < i ==> self.entries@[j] == flush_post(s0)[j],
                forall|j: int| i <= j < n ==> self.entries@[j] == s0[j],
            decreases n - i,
        {
            match self.entries[i] {
                Some(e) => {
                    if e.doomed {
                        self.entries.set(i, None);
                    }
                },
                None => {},
            }
            i = i + 1;
        }
        assert(self.entries@ =~= flush_post(s0));
    }
}

/// A pass that never turns a slot into a line, never rewrites a line's
/// references, and keeps every dot position bounded preserves
/// well-formedness. This covers every pass that only touches tags,
/// destruction flags, dot lifecycle modes, line placements, or moves dots
/// within the coordinate bound.
pub proof fn lemma_wf_pointwise(s: Seq<Option<Entry>>, t: Seq<Option<Entry>>)
    requires
        wf(s),
        t.len() == s.len(),
        forall|i: int|
            #[trigger] is_line(t, i) ==> is_line(s, i) && line_at(t, i).start == line_at(
                s,
                i,
            ).start && line_at(t, i).end == line_at(s, i).end,
        forall|i: int| #[trigger] is_dot(t, i) ==> in_bounds(dot_at(t, i).position),
    ensures
        wf(t),
{
    assert forall|i: int| #[trigger] is_line(t, i) implies {
        &&& line_at(t, i).start < t.len()
        &&& line_at(t, i).end < t.len()
        &&& !is_line(t, line_at(t, i).start as int)
        &&& !is_line(t, line_at(t, i).end as int)
    } by {
        assert(is_line(s, i));
        assert(!is_line(s, line_at(s, i).start as int));
        assert(!is_line(s, line_at(s, i).end as int));
        if is_line(t, line_at(t, i).start as int) {
            assert(is_line(s, line_at(s, i).start as int));
        }
        if is_line(t, line_at(t, i).end as int) {
            assert(is_line(s, line_at(s, i).end as int));
        }
    }
}

/// Flushing preserves well-formedness: vacating slots never turns a dot
/// reference into a line reference.
pub proof fn lemma_flush_preserves_wf(s: Seq<Option<Entry>>)
    requires
        wf(s),
    ensures
        wf(flush_post(s)),
{
    let f = flush_post(s);
    assert forall|i: int| #[trigger] is_line(f, i) implies {
        &&& line_at(f, i).start < f.len()
        &&& line_at(f, i).end < f.len()
        &&& !is_line(f, line_at(f, i).start as int)
        &&& !is_line(f, line_at(f, i).end as int)
    } by {
        assert(is_line(s, i));
    }
    assert forall|i: int| #[trigger] is_dot(f, i) implies in_bounds(dot_at(f, i).position) by {
        assert(is_dot(s, i));
    }
}

} // verus!
