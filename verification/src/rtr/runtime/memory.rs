//! The arena of reference-counted cells.
//!
//! A cell is released when it is freed without a reference left; the
//! places that its value holds then lose one reference each and are
//! released in turn.

use crate::rtr::runtime::value::{Value, ValueModel};
use vstd::prelude::*;

verus! {

/// The number of a cell.
#[derive(Clone, Copy, Debug, PartialEq, Eq, Structural)]
pub struct MemId(pub usize);

/// The place of a value: the number of its cell.
#[derive(Clone, Copy, Debug, PartialEq, Eq, Structural)]
pub struct MemPointer {
    pub id: MemId,
}

/// A cell of the arena: a value and the number of references to it.
#[derive(Debug)]
pub struct MemCell {
    pub val: Value,
    pub id: MemId,
    pub refs: usize,
}

/// The mathematical value of a [`MemCell`].
pub struct CellModel {
    pub val: ValueModel,
    pub id: MemId,
    pub refs: usize,
}

impl View for MemCell {
    type V = CellModel;

    open spec fn view(&self) -> CellModel {
        CellModel { val: self.val@, id: self.id, refs: self.refs }
    }
}

/// The arena: a table of cells, each live or free. It owns every value of a
/// running script.
#[derive(Debug)]
pub struct Memory {
    pub cells: Vec<Option<MemCell>>,
}

/// The model of one slot of the table.
pub open spec fn slot_model(slot: Option<MemCell>) -> Option<CellModel> {
    match slot {
        Some(cell) => Some(cell@),
        None => None,
    }
}

impl View for Memory {
    type V = Seq<Option<CellModel>>;

    open spec fn view(&self) -> Seq<Option<CellModel>> {
        Seq::new(self.cells@.len(), |i: int| slot_model(self.cells@[i]))
    }
}

/// True when `ptr` is the place of a live cell.
pub open spec fn live(cells: Seq<Option<CellModel>>, ptr: MemPointer) -> bool {
    ptr.id.0 < cells.len() && cells[ptr.id.0 as int] is Some
}

/// The cell at `ptr`.
pub open spec fn cell_at(cells: Seq<Option<CellModel>>, ptr: MemPointer) -> CellModel
    recommends
        live(cells, ptr),
{
    cells[ptr.id.0 as int]->0
}

/// True when `i` is the lowest free slot of the table, or the table's
/// length where every slot is live.
pub open spec fn is_first_free(cells: Seq<Option<CellModel>>, i: int) -> bool {
    &&& 0 <= i <= cells.len()
    &&& i < cells.len() ==> cells[i] is None
    &&& forall|j: int| 0 <= j < i ==> (#[trigger] cells[j]) is Some
}

/// The slot that the next value goes to.
pub open spec fn first_free(cells: Seq<Option<CellModel>>) -> int {
    choose|i: int| is_first_free(cells, i)
}

/// The slot that the next value goes to is the only one that
/// [`is_first_free`].
pub proof fn lemma_first_free(cells: Seq<Option<CellModel>>, i: int)
    requires
        is_first_free(cells, i),
    ensures
        first_free(cells) == i,
{
    let j = first_free(cells);
    if j < i {
        assert(cells[j] is Some);
    } else if i < j {
        assert(cells[i] is Some);
    }
}

/// Every table has a lowest free slot.
pub proof fn lemma_first_free_exists(cells: Seq<Option<CellModel>>)
    ensures
        is_first_free(cells, first_free(cells)),
{
    lemma_first_free_from(cells, 0);
}

proof fn lemma_first_free_from(cells: Seq<Option<CellModel>>, i: int)
    requires
        0 <= i <= cells.len(),
        forall|j: int| 0 <= j < i ==> (#[trigger] cells[j]) is Some,
    ensures
        exists|k: int| is_first_free(cells, k),
    decreases cells.len() - i,
{
    if i == cells.len() || cells[i] is None {
        assert(is_first_free(cells, i));
    } else {
        lemma_first_free_from(cells, i + 1);
    }
}

/// The table with its lowest free slot found: where every slot is live, a
/// free slot is added at the end.
pub open spec fn spec_get_open(cells: Seq<Option<CellModel>>) -> Seq<Option<CellModel>> {
    if first_free(cells) == cells.len() {
        cells.push(None)
    } else {
        cells
    }
}

/// The table after `val` is stored: it takes the lowest free slot, with no
/// reference to it yet.
pub open spec fn spec_alloc(cells: Seq<Option<CellModel>>, val: ValueModel) -> Seq<
    Option<CellModel>,
> {
    let i = first_free(cells);
    let cell = Some(CellModel { val, id: MemId(i as usize), refs: 0 });
    if i == cells.len() {
        cells.push(cell)
    } else {
        cells.update(i, cell)
    }
}

/// The place that [`spec_alloc`] stores to.
pub open spec fn spec_alloc_ptr(cells: Seq<Option<CellModel>>) -> MemPointer {
    MemPointer { id: MemId(first_free(cells) as usize) }
}

/// The table with the count of the cell at `ptr` set to `refs`.
pub open spec fn with_refs(cells: Seq<Option<CellModel>>, ptr: MemPointer, refs: usize) -> Seq<
    Option<CellModel>,
> {
    let c = cell_at(cells, ptr);
    cells.update(ptr.id.0 as int, Some(CellModel { val: c.val, id: c.id, refs }))
}

/// The table after a reference to the live cell at `ptr` is added.
pub open spec fn spec_add_ref(cells: Seq<Option<CellModel>>, ptr: MemPointer) -> Seq<
    Option<CellModel>,
> {
    with_refs(cells, ptr, (cell_at(cells, ptr).refs + 1) as usize)
}

/// The table after a reference to the cell at `ptr` is dropped: nothing
/// changes where the cell is free or without references.
pub open spec fn spec_rm_ref(cells: Seq<Option<CellModel>>, ptr: MemPointer) -> Seq<
    Option<CellModel>,
> {
    if live(cells, ptr) && cell_at(cells, ptr).refs > 0 {
        with_refs(cells, ptr, (cell_at(cells, ptr).refs - 1) as usize)
    } else {
        cells
    }
}

/// The number of live cells.
pub open spec fn live_count(cells: Seq<Option<CellModel>>) -> nat
    decreases cells.len(),
{
    if cells.len() == 0 {
        0
    } else {
        live_count(cells.drop_last()) + if cells.last() is Some {
            1nat
        } else {
            0nat
        }
    }
}

/// The table after the cell at `ptr` is released. Nothing changes where the
/// cell is free or still referenced. Otherwise the slot becomes free, and
/// each place that the cell's value holds loses one reference and is
/// released in turn.
///
/// The two inner tests always hold ([`lemma_release_shrinks`]); they are
/// written out so that the definition is seen to end.
pub open spec fn spec_free(cells: Seq<Option<CellModel>>, ptr: MemPointer) -> Seq<
    Option<CellModel>,
>
    decreases live_count(cells), 0nat, 0nat,
{
    if live(cells, ptr) && cell_at(cells, ptr).refs == 0 {
        let cleared = cells.update(ptr.id.0 as int, None);
        if live_count(cleared) < live_count(cells) {
            spec_release(cleared, cell_at(cells, ptr).val.children())
        } else {
            cleared
        }
    } else {
        cells
    }
}

/// The table after each of `ptrs`, in order, loses one reference and is
/// released.
pub open spec fn spec_release(cells: Seq<Option<CellModel>>, ptrs: Seq<MemPointer>) -> Seq<
    Option<CellModel>,
>
    decreases live_count(cells), 1nat, ptrs.len(),
{
    if ptrs.len() == 0 {
        cells
    } else {
        let dropped = spec_rm_ref(cells, ptrs[0]);
        if live_count(dropped) == live_count(cells) {
            let freed = spec_free(dropped, ptrs[0]);
            if live_count(freed) <= live_count(cells) {
                spec_release(freed, ptrs.drop_first())
            } else {
                freed
            }
        } else {
            dropped
        }
    }
}

/// Freeing a live slot leaves one live cell fewer; writing a cell to a live
/// slot leaves as many.
pub proof fn lemma_live_count_update(
    cells: Seq<Option<CellModel>>,
    i: int,
    slot: Option<CellModel>,
)
    requires
        0 <= i < cells.len(),
    ensures
        live_count(cells.update(i, slot)) + (if cells[i] is Some {
            1nat
        } else {
            0nat
        }) == live_count(cells) + (if slot is Some {
            1nat
        } else {
            0nat
        }),
    decreases cells.len(),
{
    let out = cells.update(i, slot);
    if i == cells.len() - 1 {
        assert(out.drop_last() =~= cells.drop_last());
    } else {
        lemma_live_count_update(cells.drop_last(), i, slot);
        assert(out.drop_last() =~= cells.drop_last().update(i, slot));
    }
}

/// Adding a slot at the end adds one live cell where the slot holds one.
pub proof fn lemma_live_count_push(cells: Seq<Option<CellModel>>, slot: Option<CellModel>)
    ensures
        live_count(cells.push(slot)) == live_count(cells) + (if slot is Some {
            1nat
        } else {
            0nat
        }),
{
    assert(cells.push(slot).drop_last() =~= cells);
}

/// Dropping a reference frees nothing.
pub proof fn lemma_rm_ref_count(cells: Seq<Option<CellModel>>, ptr: MemPointer)
    ensures
        live_count(spec_rm_ref(cells, ptr)) == live_count(cells),
        spec_rm_ref(cells, ptr).len() == cells.len(),
{
    if live(cells, ptr) && cell_at(cells, ptr).refs > 0 {
        lemma_live_count_update(
            cells,
            ptr.id.0 as int,
            spec_rm_ref(cells, ptr)[ptr.id.0 as int],
        );
    }
}

/// Releasing never adds a live cell and never changes the size of the
/// table.
pub proof fn lemma_free_shrinks(cells: Seq<Option<CellModel>>, ptr: MemPointer)
    ensures
        live_count(spec_free(cells, ptr)) <= live_count(cells),
        spec_free(cells, ptr).len() == cells.len(),
    decreases live_count(cells), 0nat, 0nat,
{
    if live(cells, ptr) && cell_at(cells, ptr).refs == 0 {
        let cleared = cells.update(ptr.id.0 as int, None);
        lemma_live_count_update(cells, ptr.id.0 as int, None);
        lemma_release_shrinks(cleared, cell_at(cells, ptr).val.children());
    }
}

/// Releasing never adds a live cell and never changes the size of the
/// table.
pub proof fn lemma_release_shrinks(cells: Seq<Option<CellModel>>, ptrs: Seq<MemPointer>)
    ensures
        live_count(spec_release(cells, ptrs)) <= live_count(cells),
        spec_release(cells, ptrs).len() == cells.len(),
    decreases live_count(cells), 1nat, ptrs.len(),
{
    if ptrs.len() > 0 {
        let dropped = spec_rm_ref(cells, ptrs[0]);
        lemma_rm_ref_count(cells, ptrs[0]);
        lemma_free_shrinks(dropped, ptrs[0]);
        let freed = spec_free(dropped, ptrs[0]);
        lemma_release_shrinks(freed, ptrs.drop_first());
    }
}

/// What releasing does, without the tests that only serve to show that the
/// definition ends.
pub proof fn lemma_free_unfold(cells: Seq<Option<CellModel>>, ptr: MemPointer)
    ensures
        live(cells, ptr) && cell_at(cells, ptr).refs == 0 ==> spec_free(cells, ptr)
            == spec_release(
            cells.update(ptr.id.0 as int, None),
            cell_at(cells, ptr).val.children(),
        ),
        !(live(cells, ptr) && cell_at(cells, ptr).refs == 0) ==> spec_free(cells, ptr) == cells,
{
    if live(cells, ptr) && cell_at(cells, ptr).refs == 0 {
        lemma_live_count_update(cells, ptr.id.0 as int, None);
    }
}

/// What releasing several places does, without the tests that only serve
/// to show that the definition ends.
pub proof fn lemma_release_unfold(cells: Seq<Option<CellModel>>, ptrs: Seq<MemPointer>)
    ensures
        ptrs.len() == 0 ==> spec_release(cells, ptrs) == cells,
        ptrs.len() > 0 ==> spec_release(cells, ptrs) == spec_release(
            spec_free(spec_rm_ref(cells, ptrs[0]), ptrs[0]),
            ptrs.drop_first(),
        ),
{
    if ptrs.len() > 0 {
        lemma_rm_ref_count(cells, ptrs[0]);
        lemma_free_shrinks(spec_rm_ref(cells, ptrs[0]), ptrs[0]);
    }
}

/// True when `after` can come from `before` by releasing cells: no slot
/// is added, no free slot is live again, and a cell that is still live
/// holds the same value, with as many references as before, or with fewer
/// but not none. So no cell is left behind live and without a reference
/// that was not so before.
pub open spec fn decays(before: Seq<Option<CellModel>>, after: Seq<Option<CellModel>>) -> bool {
    &&& after.len() == before.len()
    &&& forall|i: int|
        0 <= i < before.len() ==> ((#[trigger] after[i]) is Some ==> before[i] is Some
            && after[i]->0.val == before[i]->0.val && after[i]->0.id == before[i]->0.id && (
        after[i]->0.refs == before[i]->0.refs || 0 < after[i]->0.refs < before[i]->0.refs))
}

/// A decay of a decay is a decay.
pub proof fn lemma_decays_twice(
    a: Seq<Option<CellModel>>,
    b: Seq<Option<CellModel>>,
    c: Seq<Option<CellModel>>,
)
    requires
        decays(a, b),
        decays(b, c),
    ensures
        decays(a, c),
{
    assert forall|i: int| 0 <= i < a.len() && (#[trigger] c[i]) is Some implies a[i] is Some
        && c[i]->0.val == a[i]->0.val && c[i]->0.id == a[i]->0.id && (c[i]->0.refs
        == a[i]->0.refs || 0 < c[i]->0.refs < a[i]->0.refs) by {
        assert(b[i] is Some);
    }
}

/// Releasing a cell is a decay, and a cell without a reference is not live
/// after it is released.
pub proof fn lemma_free_decays(cells: Seq<Option<CellModel>>, ptr: MemPointer)
    ensures
        decays(cells, spec_free(cells, ptr)),
        live(cells, ptr) && cell_at(cells, ptr).refs == 0 ==> !live(spec_free(cells, ptr), ptr),
    decreases live_count(cells), 0nat, 0nat,
{
    lemma_free_unfold(cells, ptr);
    if live(cells, ptr) && cell_at(cells, ptr).refs == 0 {
        let cleared = cells.update(ptr.id.0 as int, None);
        lemma_live_count_update(cells, ptr.id.0 as int, None);
        lemma_release_decays(cleared, cell_at(cells, ptr).val.children());
        assert(decays(cells, cleared));
        lemma_decays_twice(cells, cleared, spec_free(cells, ptr));
    }
}

/// Dropping a reference to a cell and releasing the cell is a decay.
pub proof fn lemma_drop_decays(cells: Seq<Option<CellModel>>, ptr: MemPointer)
    ensures
        decays(cells, spec_free(spec_rm_ref(cells, ptr), ptr)),
    decreases live_count(cells), 0nat, 1nat,
{
    let dropped = spec_rm_ref(cells, ptr);
    let freed = spec_free(dropped, ptr);
    lemma_rm_ref_count(cells, ptr);
    lemma_free_decays(dropped, ptr);
    lemma_free_unfold(dropped, ptr);
    assert forall|i: int| 0 <= i < cells.len() && (#[trigger] freed[i]) is Some implies cells[i] is Some
        && freed[i]->0.val == cells[i]->0.val && freed[i]->0.id == cells[i]->0.id && (
    freed[i]->0.refs == cells[i]->0.refs || 0 < freed[i]->0.refs < cells[i]->0.refs) by {
        assert(dropped[i] is Some);
    }
}

/// Releasing several cells is a decay.
pub proof fn lemma_release_decays(cells: Seq<Option<CellModel>>, ptrs: Seq<MemPointer>)
    ensures
        decays(cells, spec_release(cells, ptrs)),
    decreases live_count(cells), 1nat, ptrs.len(),
{
    lemma_release_unfold(cells, ptrs);
    if ptrs.len() > 0 {
        let dropped = spec_rm_ref(cells, ptrs[0]);
        lemma_rm_ref_count(cells, ptrs[0]);
        lemma_drop_decays(cells, ptrs[0]);
        let freed = spec_free(dropped, ptrs[0]);
        lemma_free_shrinks(dropped, ptrs[0]);
        lemma_release_decays(freed, ptrs.drop_first());
        lemma_decays_twice(cells, freed, spec_release(cells, ptrs));
    }
}

/// A reference that is added and dropped again leaves the table as it was.
pub proof fn lemma_add_then_rm_ref(cells: Seq<Option<CellModel>>, ptr: MemPointer)
    requires
        live(cells, ptr),
        cell_at(cells, ptr).refs < usize::MAX,
    ensures
        spec_rm_ref(spec_add_ref(cells, ptr), ptr) == cells,
{
    assert(spec_rm_ref(spec_add_ref(cells, ptr), ptr) =~= cells);
}

impl Memory {
    /// An arena without cells.
    pub fn new() -> (m: Memory)
        ensures
            m@ == Seq::<Option<CellModel>>::empty(),
    {
        let m = Memory { cells: Vec::new() };
        assert(m@ =~= Seq::<Option<CellModel>>::empty());
        m
    }

    /// True when `ptr` is the place of a live cell.
    pub fn has_cell(&self, ptr: MemPointer) -> (b: bool)
        ensures
            b == live(self@, ptr),
    {
        ptr.id.0 < self.cells.len() && self.cells[ptr.id.0].is_some()
    }

    /// The live cell at `ptr`.
    pub fn get_cell(&self, ptr: MemPointer) -> (cell: &MemCell)
        requires
            live(self@, ptr),
        ensures
            cell@ == cell_at(self@, ptr),
    {
        self.cells[ptr.id.0].as_ref().unwrap()
    }

    /// The value of the live cell at `ptr`.
    pub fn get(&self, ptr: MemPointer) -> (val: &Value)
        requires
            live(self@, ptr),
        ensures
            val@ == cell_at(self@, ptr).val,
    {
        &self.get_cell(ptr).val
    }

    /// The live cell at `ptr`, to be changed in place.
    pub fn get_cell_mut(&mut self, ptr: MemPointer) -> (cell: &mut MemCell)
        requires
            live(old(self)@, ptr),
        ensures
            cell@ == cell_at(old(self)@, ptr),
            final(self)@ == old(self)@.update(ptr.id.0 as int, Some(final(cell)@)),
    {
        let ghost before = self@;
        let cell = self.cells[ptr.id.0].as_mut().unwrap();
        proof {
            assert(after_borrow(self)@ =~= before.update(ptr.id.0 as int, Some(final(cell)@)));
        }
        cell
    }

    /// The value of the live cell at `ptr`, to be changed in place.
    pub fn get_mut(&mut self, ptr: MemPointer) -> (val: &mut Value)
        requires
            live(old(self)@, ptr),
        ensures
            val@ == cell_at(old(self)@, ptr).val,
            final(self)@ == old(self)@.update(
                ptr.id.0 as int,
                Some(
                    CellModel {
                        val: final(val)@,
                        id: cell_at(old(self)@, ptr).id,
                        refs: cell_at(old(self)@, ptr).refs,
                    },
                ),
            ),
    {
        let cell = self.get_cell_mut(ptr);
        &mut cell.val
    }

    /// Finds the lowest free slot; where every slot is live, a free slot is
    /// added at the end.
    pub fn get_open(&mut self) -> (i: usize)
        ensures
            i == first_free(old(self)@),
            is_first_free(old(self)@, i as int),
            final(self)@ == spec_get_open(old(self)@),
    {
        let mut i: usize = 0;
        while i < self.cells.len()
            invariant
                0 <= i <= self.cells@.len(),
                *self == *old(self),
                forall|j: int| 0 <= j < i ==> (#[trigger] self@[j]) is Some,
            decreases self.cells@.len() - i,
        {
            if self.cells[i].is_none() {
                proof {
                    lemma_first_free(self@, i as int);
                }
                return i;
            }
            i += 1;
        }
        proof {
            lemma_first_free(self@, i as int);
        }
        let ghost before = self@;
        self.cells.push(None);
        assert(self@ =~= before.push(None));
        i
    }

    /// The place of the lowest free slot, as [`Memory::get_open`] finds it.
    pub fn get_open_pointer(&mut self) -> (ptr: MemPointer)
        ensures
            ptr == spec_alloc_ptr(old(self)@),
            is_first_free(old(self)@, ptr.id.0 as int),
            final(self)@ == spec_get_open(old(self)@),
    {
        let i = self.get_open();
        MemPointer { id: MemId(i) }
    }

    /// Stores `val` in the lowest free slot, with no reference to it yet.
    pub fn allocate(&mut self, val: Value) -> (ptr: MemPointer)
        ensures
            ptr == spec_alloc_ptr(old(self)@),
            is_first_free(old(self)@, ptr.id.0 as int),
            final(self)@ == spec_alloc(old(self)@, val@),
            live(final(self)@, ptr),
            cell_at(final(self)@, ptr) == (CellModel { val: val@, id: ptr.id, refs: 0 }),
    {
        let ghost before = self@;
        let size = self.cells.len();
        let ptr = self.get_open_pointer();
        assert(is_first_free(before, first_free(before))) by {
            lemma_first_free_exists(before);
        }
        assert(self@.len() == self.cells@.len());
        let ghost mid = self@;
        let ghost cell = CellModel { val: val@, id: MemId(ptr.id.0), refs: 0 };
        self.cells[ptr.id.0] = Some(MemCell { val, id: MemId(ptr.id.0), refs: 0 });
        assert(self@ =~= mid.update(ptr.id.0 as int, Some(cell)));
        proof {
            let i = first_free(before);
            assert(0 <= i <= before.len());
            assert(before.len() == size);
            assert(i as usize as int == i);
            assert(ptr.id.0 as int == i);
            assert(mid == spec_get_open(before));
            if i == before.len() {
                assert(mid =~= before.push(None));
                assert(mid.update(i, Some(cell)) =~= before.push(Some(cell)));
            } else {
                assert(mid == before);
            }
            assert(cell.id == MemId(i as usize));
        }
        assert(mid.update(ptr.id.0 as int, Some(cell)) =~= spec_alloc(before, cell.val));
        ptr
    }

    /// Adds one reference to the live cell at `ptr`.
    pub fn add_ref(&mut self, ptr: MemPointer)
        requires
            live(old(self)@, ptr),
            cell_at(old(self)@, ptr).refs < usize::MAX,
        ensures
            final(self)@ == spec_add_ref(old(self)@, ptr),
    {
        let ghost before = self@;
        match &mut self.cells[ptr.id.0] {
            Some(cell) => {
                cell.refs = cell.refs + 1;
            },
            None => {},
        }
        assert(self@ =~= spec_add_ref(before, ptr));
    }
}

impl Memory {
    /// Drops one reference to the cell at `ptr`. Nothing happens where the
    /// cell is free or without references.
    pub fn rm_ref(&mut self, ptr: MemPointer)
        ensures
            final(self)@ == spec_rm_ref(old(self)@, ptr),
    {
        let ghost before = self@;
        if ptr.id.0 < self.cells.len() {
            match &mut self.cells[ptr.id.0] {
                Some(cell) => {
                    if cell.refs > 0 {
                        cell.refs = cell.refs - 1;
                    }
                },
                None => {},
            }
        }
        assert(self@ =~= spec_rm_ref(before, ptr));
    }

    /// Releases the cell at `ptr` where it is live and without references:
    /// the slot becomes free, and the places that the value held are
    /// released in turn.
    pub fn free(&mut self, ptr: MemPointer)
        ensures
            final(self)@ == spec_free(old(self)@, ptr),
        decreases live_count(old(self)@), 0nat,
    {
        if !self.has_cell(ptr) {
            return;
        }
        if self.get_cell(ptr).refs > 0 {
            return;
        }
        let ghost before = self@;
        proof {
            lemma_free_unfold(before, ptr);
            lemma_live_count_update(before, ptr.id.0 as int, None);
        }
        let slot = self.cells[ptr.id.0].take();
        assert(self@ =~= before.update(ptr.id.0 as int, None));
        match slot {
            Some(cell) => {
                cell.val.free(self);
            },
            None => {},
        }
    }
}

impl MemPointer {
    /// Releases the cell at this place, as [`Memory::free`] does.
    pub fn free(self, memory: &mut Memory)
        ensures
            final(memory)@ == spec_free(old(memory)@, self),
    {
        memory.free(self);
    }
}

impl Value {
    /// Releases what the value holds: each element of an array and each
    /// value of an object loses one reference and is released.
    pub fn free(&self, memory: &mut Memory)
        ensures
            final(memory)@ == spec_release(old(memory)@, self@.children()),
        decreases live_count(old(memory)@), 1nat,
    {
        let ghost start = memory@;
        proof {
            lemma_release_unfold(start, self@.children());
        }
        match self {
            Value::Arr { elems } => {
                let mut i: usize = 0;
                assert(elems@.skip(0) =~= elems@);
                while i < elems.len()
                    invariant
                        0 <= i <= elems@.len(),
                        start == old(memory)@,
                        live_count(memory@) <= live_count(start),
                        spec_release(memory@, elems@.skip(i as int)) == spec_release(
                            start,
                            elems@,
                        ),
                    decreases elems@.len() - i,
                {
                    proof {
                        let rest = elems@.skip(i as int);
                        lemma_release_unfold(memory@, rest);
                        lemma_rm_ref_count(memory@, rest[0]);
                        lemma_free_shrinks(spec_rm_ref(memory@, rest[0]), rest[0]);
                        assert(rest.drop_first() =~= elems@.skip(i + 1));
                    }
                    memory.rm_ref(elems[i]);
                    memory.free(elems[i]);
                    i += 1;
                }
                proof {
                    lemma_release_unfold(memory@, elems@.skip(i as int));
                }
            },
            Value::Obj { data } => {
                let ghost ptrs = self@.children();
                let mut i: usize = 0;
                assert(ptrs.skip(0) =~= ptrs);
                while i < data.len()
                    invariant
                        0 <= i <= data@.len(),
                        start == old(memory)@,
                        ptrs.len() == data@.len(),
                        forall|k: int| 0 <= k < ptrs.len() ==> ptrs[k] == (#[trigger] data@[k]).ptr,
                        live_count(memory@) <= live_count(start),
                        spec_release(memory@, ptrs.skip(i as int)) == spec_release(start, ptrs),
                    decreases data@.len() - i,
                {
                    proof {
                        let rest = ptrs.skip(i as int);
                        lemma_release_unfold(memory@, rest);
                        lemma_rm_ref_count(memory@, rest[0]);
                        lemma_free_shrinks(spec_rm_ref(memory@, rest[0]), rest[0]);
                        assert(rest.drop_first() =~= ptrs.skip(i + 1));
                    }
                    memory.rm_ref(data[i].ptr);
                    memory.free(data[i].ptr);
                    i += 1;
                }
                proof {
                    lemma_release_unfold(memory@, ptrs.skip(i as int));
                }
            },
            _ => {},
        }
    }
}

} // verus!
