//! The memo table of the dynamic-programming solvers: a dense array over the
//! discretised coordinates of a crafting state, one slot for each point.
//!
//! The array is `micro_ndarray::Array`, which lays its cells out in one
//! contiguous buffer and finds a cell by a single offset computed from the
//! coordinates. This module gives it a model, a map from coordinates to
//! slots, and states over that model what its constructor, its read and its
//! write do. These statements are not proved here.

use crate::craft::Action;
use vstd::prelude::*;

verus! {

/// A point of the table, or, read as sizes, the extent of the table along
/// each axis.
#[derive(Clone, Copy, Debug, PartialEq, Eq, Structural)]
pub struct MemoKey {
    pub observed: usize,
    pub veneration: usize,
    pub inner_quiet: usize,
    pub innovation: usize,
    pub great_strides: usize,
    pub manipulation: usize,
    pub waste_not: usize,
    pub touch_combo: usize,
    pub perfection: usize,
    pub quick_innovation: usize,
    pub durability: usize,
    pub craft_points: usize,
}

/// One cached result: the best value that can still be added from a point,
/// the number of steps of the continuation that adds it, and the action that
/// the continuation starts with, if any is worth taking. `is_some` tells a
/// computed slot from one that was never filled.
#[derive(Clone, Copy, Debug, PartialEq, Eq, Structural)]
pub struct Slot {
    pub value: u32,
    pub step: u16,
    pub action: Option<Action>,
    pub is_some: bool,
}

impl Slot {
    /// The slot that was never filled.
    pub open spec fn absent() -> Slot {
        Slot { value: 0, step: 0, action: None, is_some: false }
    }

    /// The computed slot of a point from which nothing is gained.
    pub open spec fn barren() -> Slot {
        Slot { value: 0, step: 0, action: None, is_some: true }
    }
}

impl MemoKey {
    /// Whether each coordinate lies below the extent `shape` along its axis.
    pub open spec fn within(self, shape: MemoKey) -> bool {
        &&& self.observed < shape.observed
        &&& self.veneration < shape.veneration
        &&& self.inner_quiet < shape.inner_quiet
        &&& self.innovation < shape.innovation
        &&& self.great_strides < shape.great_strides
        &&& self.manipulation < shape.manipulation
        &&& self.waste_not < shape.waste_not
        &&& self.touch_combo < shape.touch_combo
        &&& self.perfection < shape.perfection
        &&& self.quick_innovation < shape.quick_innovation
        &&& self.durability < shape.durability
        &&& self.craft_points < shape.craft_points
    }

    /// The number of points of a table of this extent.
    pub open spec fn volume(self) -> int {
        self.observed * self.veneration * self.inner_quiet * self.innovation * self.great_strides
            * self.manipulation * self.waste_not * self.touch_combo * self.perfection
            * self.quick_innovation * self.durability * self.craft_points
    }

    /// Whether every axis has at least one point.
    pub open spec fn inhabited(self) -> bool {
        &&& self.observed >= 1
        &&& self.veneration >= 1
        &&& self.inner_quiet >= 1
        &&& self.innovation >= 1
        &&& self.great_strides >= 1
        &&& self.manipulation >= 1
        &&& self.waste_not >= 1
        &&& self.touch_combo >= 1
        &&& self.perfection >= 1
        &&& self.quick_innovation >= 1
        &&& self.durability >= 1
        &&& self.craft_points >= 1
    }

    /// Whether a table of this extent can be allotted: every axis has a point,
    /// and thirty-two bytes for each point are within what can be addressed.
    pub open spec fn allottable(self) -> bool {
        self.inhabited() && self.volume() * 32 <= usize::MAX
    }
}

/// Multiplies the running product `p` of a table's sizes by the next size
/// `d`, as long as the product stays within the machine's word. `full` is the
/// product without that limit.
fn widen(p: usize, ok: bool, d: usize, Ghost(full): Ghost<int>) -> (r: (usize, bool))
    requires
        d >= 1,
        ok ==> p == full,
        !ok ==> full > usize::MAX,
        full >= 0,
    ensures
        r.1 ==> r.0 == full * d,
        !r.1 ==> full * d > usize::MAX,
        full * d >= 0,
{
    assert(full * d >= full) by (nonlinear_arith)
        requires
            full >= 0,
            d >= 1,
    ;
    if !ok {
        return (p, false);
    }
    match p.checked_mul(d) {
        Some(q) => (q, true),
        None => (p, false),
    }
}

impl MemoKey {
    /// Decides [`Self::allottable`].
    pub fn is_allottable(&self) -> (ok: bool)
        ensures
            ok == self.allottable(),
    {
        if self.observed < 1 || self.veneration < 1 || self.inner_quiet < 1 || self.innovation < 1
            || self.great_strides < 1 || self.manipulation < 1 || self.waste_not < 1
            || self.touch_combo < 1 || self.perfection < 1 || self.quick_innovation < 1
            || self.durability < 1 || self.craft_points < 1 {
            return false;
        }
        let ghost f1: int = self.observed as int;
        let ghost f2: int = f1 * self.veneration;
        let ghost f3: int = f2 * self.inner_quiet;
        let ghost f4: int = f3 * self.innovation;
        let ghost f5: int = f4 * self.great_strides;
        let ghost f6: int = f5 * self.manipulation;
        let ghost f7: int = f6 * self.waste_not;
        let ghost f8: int = f7 * self.touch_combo;
        let ghost f9: int = f8 * self.perfection;
        let ghost f10: int = f9 * self.quick_innovation;
        let ghost f11: int = f10 * self.durability;
        let ghost f12: int = f11 * self.craft_points;
        let (p, ok) = widen(self.observed, true, self.veneration, Ghost(f1));
        let (p, ok) = widen(p, ok, self.inner_quiet, Ghost(f2));
        let (p, ok) = widen(p, ok, self.innovation, Ghost(f3));
        let (p, ok) = widen(p, ok, self.great_strides, Ghost(f4));
        let (p, ok) = widen(p, ok, self.manipulation, Ghost(f5));
        let (p, ok) = widen(p, ok, self.waste_not, Ghost(f6));
        let (p, ok) = widen(p, ok, self.touch_combo, Ghost(f7));
        let (p, ok) = widen(p, ok, self.perfection, Ghost(f8));
        let (p, ok) = widen(p, ok, self.quick_innovation, Ghost(f9));
        let (p, ok) = widen(p, ok, self.durability, Ghost(f10));
        let (p, ok) = widen(p, ok, self.craft_points, Ghost(f11));
        assert(f12 == self.volume());
        ok && p <= usize::MAX / 32
    }
}

/// The table in which nothing is computed: every point holds the slot that
/// was never filled. As a model it is total; beyond the extent of a table
/// the slots of the model stand for nothing and stay as they are.
pub open spec fn blank_memo() -> Map<MemoKey, Slot> {
    Map::new(|k: MemoKey| true, |k: MemoKey| Slot::absent())
}

/// A dense table of slots.
#[verifier::external_body]
pub struct MemoTable {
    cells: micro_ndarray::Array<Slot, 12>,
}

/// The extent that a table was made with.
pub uninterp spec fn memo_shape(t: MemoTable) -> MemoKey;

/// What a table holds: the slot at each point.
pub uninterp spec fn memo_cells(t: MemoTable) -> Map<MemoKey, Slot>;

impl MemoTable {
    /// The extent of the table.
    pub open spec fn shape(self) -> MemoKey {
        memo_shape(self)
    }

    /// The slot at each point of the table.
    pub open spec fn cells(self) -> Map<MemoKey, Slot> {
        memo_cells(self)
    }
}

/// Calls `micro_ndarray::Array::new_with` with the never-filled slot.
///
/// The array multiplies the sizes up, one axis after the other, in the
/// machine's word, and allots a buffer of that many copies of the slot. With
/// no axis empty each partial product is at most the whole, which `requires`
/// keeps, with the size of a slot, within what a buffer can hold.
#[verifier::external_body]
pub(crate) fn table_new(shape: &MemoKey) -> (t: MemoTable)
    requires
        shape.allottable(),
    ensures
        memo_shape(t) == *shape,
        memo_cells(t) == blank_memo(),
{
    let size = [shape.observed, shape.veneration, shape.inner_quiet, shape.innovation,
        shape.great_strides, shape.manipulation, shape.waste_not, shape.touch_combo,
        shape.perfection, shape.quick_innovation, shape.durability, shape.craft_points];
    let blank = Slot { value: 0, step: 0, action: None, is_some: false };
    MemoTable { cells: micro_ndarray::Array::new_with(size, blank) }
}

/// Calls `micro_ndarray::Array::get`, which hands out the cell at a point
/// whose every coordinate lies below the size of its axis, and nothing for
/// any other point.
#[verifier::external_body]
pub(crate) fn table_get(t: &MemoTable, k: &MemoKey) -> (r: Option<Slot>)
    ensures
        r == if k.within(memo_shape(*t)) {
            Some(memo_cells(*t)[*k])
        } else {
            None
        },
{
    let loc = [k.observed, k.veneration, k.inner_quiet, k.innovation, k.great_strides,
        k.manipulation, k.waste_not, k.touch_combo, k.perfection, k.quick_innovation,
        k.durability, k.craft_points];
    t.cells.get(loc).copied()
}

/// Calls `micro_ndarray::Array::get_mut` and writes `slot` into the cell that
/// it hands out: the cell at the point, where every coordinate lies below the
/// size of its axis. For any other point nothing is handed out and nothing
/// written. Distinct points have distinct cells, so no other slot changes.
#[verifier::external_body]
pub(crate) fn table_set(t: &mut MemoTable, k: &MemoKey, slot: Slot) -> (written: bool)
    ensures
        memo_shape(*final(t)) == memo_shape(*old(t)),
        written == k.within(memo_shape(*old(t))),
        memo_cells(*final(t)) == if written {
            memo_cells(*old(t)).insert(*k, slot)
        } else {
            memo_cells(*old(t))
        },
{
    let loc = [k.observed, k.veneration, k.inner_quiet, k.innovation, k.great_strides,
        k.manipulation, k.waste_not, k.touch_combo, k.perfection, k.quick_innovation,
        k.durability, k.craft_points];
    t.cells.get_mut(loc).map(|cell| *cell = slot).is_some()
}

} // verus!
