use crate::rtr::runtime::memory::{
    cell_at, live, spec_add_ref, spec_free, spec_release, spec_rm_ref, CellModel, MemPointer,
    Memory,
};
use crate::rtr::runtime::value::{entry_models, Entry, EntryModel};
use crate::shared::text::same_text;
use vstd::prelude::*;

verus! {

/// The lowest of the numbers `0 .. n` for which `p` holds, or `n` where it
/// holds for none.
pub open spec fn first_index(n: int, p: spec_fn(int) -> bool) -> int {
    choose|k: int| is_first_index(n, p, k)
}

/// True when `k` is the lowest of the numbers `0 .. n` for which `p` holds,
/// or `n` where it holds for none.
pub open spec fn is_first_index(n: int, p: spec_fn(int) -> bool, k: int) -> bool {
    &&& 0 <= k <= n
    &&& k < n ==> p(k)
    &&& forall|j: int| 0 <= j < k ==> !#[trigger] p(j)
}

/// There is one lowest number for which `p` holds.
pub proof fn lemma_first_index(n: int, p: spec_fn(int) -> bool, k: int)
    requires
        is_first_index(n, p, k),
    ensures
        first_index(n, p) == k,
{
    let c = first_index(n, p);
    if c < k {
        assert(!p(c));
    } else if k < c {
        assert(!p(k));
    }
}

proof fn lemma_first_index_from(n: int, p: spec_fn(int) -> bool, i: int)
    requires
        0 <= i <= n,
        forall|j: int| 0 <= j < i ==> !#[trigger] p(j),
    ensures
        exists|k: int| is_first_index(n, p, k),
    decreases n - i,
{
    if i == n || p(i) {
        assert(is_first_index(n, p, i));
    } else {
        lemma_first_index_from(n, p, i + 1);
    }
}

/// The lowest number for which `p` holds is there, whatever `p` is.
pub proof fn lemma_first_index_exists(n: int, p: spec_fn(int) -> bool)
    requires
        0 <= n,
    ensures
        is_first_index(n, p, first_index(n, p)),
{
    lemma_first_index_from(n, p, 0);
}

/// One layer of a scope: names and the places they are bound to, in the
/// order in which the names were first bound. No name occurs twice in a
/// layer that is well formed ([`Layer::wf`]).
#[derive(Debug)]
pub struct Layer {
    pub entries: Vec<Entry>,
}

impl View for Layer {
    type V = Seq<EntryModel>;

    open spec fn view(&self) -> Seq<EntryModel> {
        entry_models(self.entries@)
    }
}

/// The index of the binding of `name` in `layer`, or the length of the
/// layer where the name is not bound.
pub open spec fn layer_index(layer: Seq<EntryModel>, name: Seq<char>) -> int {
    first_index(layer.len() as int, |k: int| layer[k].key == name)
}

/// True when `layer` binds `name`.
pub open spec fn layer_has(layer: Seq<EntryModel>, name: Seq<char>) -> bool {
    layer_index(layer, name) < layer.len()
}

/// The place that `layer` binds `name` to.
pub open spec fn layer_get(layer: Seq<EntryModel>, name: Seq<char>) -> MemPointer
    recommends
        layer_has(layer, name),
{
    layer[layer_index(layer, name)].ptr
}

/// The layer with `name` bound to `ptr`: a binding of the name is replaced
/// where it stands, a new one goes to the end.
pub open spec fn layer_insert(layer: Seq<EntryModel>, name: Seq<char>, ptr: MemPointer) -> Seq<
    EntryModel,
> {
    if layer_has(layer, name) {
        layer.update(layer_index(layer, name), EntryModel { key: name, ptr })
    } else {
        layer.push(EntryModel { key: name, ptr })
    }
}

/// True when no name occurs twice in the layer. A layer that is made by
/// [`Layer::new`] and filled by [`Layer::insert`] is so.
pub open spec fn distinct_names(layer: Seq<EntryModel>) -> bool {
    forall|i: int, j: int|
        0 <= i < j < layer.len() ==> (#[trigger] layer[i]).key != (#[trigger] layer[j]).key
}

/// Inserting a name into a layer in which no name occurs twice leaves it
/// so.
pub proof fn lemma_insert_keeps_distinct(layer: Seq<EntryModel>, name: Seq<char>, ptr: MemPointer)
    requires
        distinct_names(layer),
    ensures
        distinct_names(layer_insert(layer, name, ptr)),
{
    let p = |k: int| layer[k].key == name;
    lemma_first_index_exists(layer.len() as int, p);
    let k = layer_index(layer, name);
    let out = layer_insert(layer, name, ptr);
    assert forall|i: int, j: int| 0 <= i < j < out.len() implies (#[trigger] out[i]).key != (
    #[trigger] out[j]).key by {
        if k < layer.len() {
            assert(p(k));
            assert(out[i].key == layer[i].key);
            assert(out[j].key == layer[j].key);
        } else {
            if j < layer.len() {
                assert(out[i] == layer[i] && out[j] == layer[j]);
            } else {
                assert(!p(i));
                assert(out[i] == layer[i]);
            }
        }
    }
}

/// The places that a layer binds, in the order of its bindings.
pub open spec fn layer_pointers(layer: Seq<EntryModel>) -> Seq<MemPointer> {
    Seq::new(layer.len(), |k: int| layer[k].ptr)
}

impl Layer {
    /// True when no name occurs twice in the layer.
    pub open spec fn wf(&self) -> bool {
        distinct_names(self@)
    }

    /// A layer without bindings.
    pub fn new() -> (layer: Layer)
        ensures
            layer@ == Seq::<EntryModel>::empty(),
    {
        let layer = Layer { entries: Vec::new() };
        assert(layer@ =~= Seq::<EntryModel>::empty());
        layer
    }

    /// The index of the binding of `name`, or the number of bindings where
    /// the name is not bound.
    pub fn index_of(&self, name: &str) -> (k: usize)
        ensures
            k == layer_index(self@, name@),
            k <= self.entries@.len(),
    {
        let ghost p = |k: int| self@[k].key == name@;
        let mut k: usize = 0;
        while k < self.entries.len()
            invariant
                0 <= k <= self.entries@.len(),
                p == (|k: int| self@[k].key == name@),
                forall|j: int| 0 <= j < k ==> !#[trigger] p(j),
            decreases self.entries@.len() - k,
        {
            if same_text(self.entries[k].key.as_str(), name) {
                proof {
                    assert(p(k as int));
                    lemma_first_index(self@.len() as int, p, k as int);
                }
                return k;
            }
            assert(!p(k as int));
            k += 1;
        }
        proof {
            lemma_first_index(self@.len() as int, p, k as int);
        }
        k
    }

    /// The place that `name` is bound to, if it is bound.
    pub fn get(&self, name: &str) -> (out: Option<MemPointer>)
        ensures
            out == if layer_has(self@, name@) {
                Some(layer_get(self@, name@))
            } else {
                None
            },
    {
        let k = self.index_of(name);
        if k < self.entries.len() {
            Some(self.entries[k].ptr)
        } else {
            None
        }
    }

    /// Binds `name` to `ptr`.
    pub fn insert(&mut self, name: String, ptr: MemPointer)
        ensures
            final(self)@ == layer_insert(old(self)@, name@, ptr),
            old(self).wf() ==> final(self).wf(),
    {
        let ghost before = self@;
        proof {
            if distinct_names(before) {
                lemma_insert_keeps_distinct(before, name@, ptr);
            }
        }
        let k = self.index_of(name.as_str());
        proof {
            lemma_first_index_exists(before.len() as int, |k: int| before[k].key == name@);
        }
        if k < self.entries.len() {
            self.entries[k] = Entry { key: name, ptr };
            assert(self@ =~= before.update(k as int, EntryModel { key: name@, ptr }));
        } else {
            self.entries.push(Entry { key: name, ptr });
            assert(self@ =~= before.push(EntryModel { key: name@, ptr }));
        }
    }
}

/// The layers of names of a running script, the outermost one first. A
/// name stands for what the innermost layer that binds it says, and is set
/// in that layer.
#[derive(Debug)]
pub struct Scope {
    pub layers: Vec<Layer>,
}

impl View for Scope {
    type V = Seq<Seq<EntryModel>>;

    open spec fn view(&self) -> Seq<Seq<EntryModel>> {
        Seq::new(self.layers@.len(), |i: int| self.layers@[i]@)
    }
}

/// True when no name occurs twice in a layer of the scope.
pub open spec fn all_distinct(layers: Seq<Seq<EntryModel>>) -> bool {
    forall|k: int| 0 <= k < layers.len() ==> distinct_names(#[trigger] layers[k])
}

/// The distance from the innermost layer to the innermost layer that binds
/// `name` (0 for the innermost layer itself), or the number of layers where
/// none does.
pub open spec fn depth(layers: Seq<Seq<EntryModel>>, name: Seq<char>) -> int {
    first_index(layers.len() as int, |k: int| layer_has(layers[layers.len() - 1 - k], name))
}

/// True when some layer binds `name`.
pub open spec fn binds(layers: Seq<Seq<EntryModel>>, name: Seq<char>) -> bool {
    depth(layers, name) < layers.len()
}

/// The index of the innermost layer that binds `name`: the layer in which
/// a lookup finds the name.
pub open spec fn holder(layers: Seq<Seq<EntryModel>>, name: Seq<char>) -> int
    recommends
        binds(layers, name),
{
    layers.len() - 1 - depth(layers, name)
}

/// The place that `name` stands for: that of the innermost layer that binds
/// it.
pub open spec fn spec_get_var(layers: Seq<Seq<EntryModel>>, name: Seq<char>) -> Option<
    MemPointer,
> {
    if binds(layers, name) {
        Some(layer_get(layers[holder(layers, name)], name))
    } else {
        None
    }
}

/// The layers after `name` is bound to `ptr` in the innermost layer.
pub open spec fn spec_decl_var(layers: Seq<Seq<EntryModel>>, name: Seq<char>, ptr: MemPointer) -> Seq<
    Seq<EntryModel>,
>
    recommends
        layers.len() > 0,
{
    layers.update(layers.len() - 1, layer_insert(layers.last(), name, ptr))
}

/// The layers after `name` is set to `ptr`: the innermost layer that binds
/// the name, the one in which a lookup finds it, has its binding replaced;
/// where no layer binds the name, the innermost layer gets a new binding.
pub open spec fn spec_set_var(layers: Seq<Seq<EntryModel>>, name: Seq<char>, ptr: MemPointer) -> Seq<
    Seq<EntryModel>,
> {
    if binds(layers, name) {
        let h = holder(layers, name);
        layers.update(h, layer_insert(layers[h], name, ptr))
    } else {
        spec_decl_var(layers, name, ptr)
    }
}

/// The arena after `name` is set to `ptr` in `layers`: the new value gains
/// a reference; the value that the name stood for, if it stood for one,
/// loses a reference and is released.
pub open spec fn spec_set_var_memory(
    layers: Seq<Seq<EntryModel>>,
    cells: Seq<Option<CellModel>>,
    name: Seq<char>,
    ptr: MemPointer,
) -> Seq<Option<CellModel>> {
    let added = spec_add_ref(cells, ptr);
    match spec_get_var(layers, name) {
        Some(previous) => spec_free(spec_rm_ref(added, previous), previous),
        None => added,
    }
}

/// Declaring a name in a scope in whose layers no name occurs twice leaves
/// the scope so.
pub proof fn lemma_decl_var_keeps_distinct(
    layers: Seq<Seq<EntryModel>>,
    name: Seq<char>,
    ptr: MemPointer,
)
    requires
        layers.len() > 0,
        all_distinct(layers),
    ensures
        all_distinct(spec_decl_var(layers, name, ptr)),
{
    lemma_insert_keeps_distinct(layers.last(), name, ptr);
}

/// Setting a name in a scope in whose layers no name occurs twice leaves
/// the scope so.
pub proof fn lemma_set_var_keeps_distinct(
    layers: Seq<Seq<EntryModel>>,
    name: Seq<char>,
    ptr: MemPointer,
)
    requires
        layers.len() > 0,
        all_distinct(layers),
    ensures
        all_distinct(spec_set_var(layers, name, ptr)),
{
    lemma_depth_is(layers, name);
    if binds(layers, name) {
        lemma_insert_keeps_distinct(layers[holder(layers, name)], name, ptr);
    } else {
        lemma_insert_keeps_distinct(layers.last(), name, ptr);
    }
}

impl Scope {
    /// True when no name occurs twice in a layer of the scope. A scope
    /// that is made by [`Scope::new`] and changed by the functions of
    /// this type is so.
    pub open spec fn wf(&self) -> bool {
        all_distinct(self@)
    }

    /// A scope with one layer, which binds nothing.
    pub fn new() -> (scope: Scope)
        ensures
            scope@ == seq![Seq::<EntryModel>::empty()],
    {
        let mut layers: Vec<Layer> = Vec::new();
        layers.push(Layer::new());
        let scope = Scope { layers };
        assert(scope@ =~= seq![Seq::<EntryModel>::empty()]);
        scope
    }

    /// Opens a new innermost layer.
    pub fn new_layer(&mut self)
        ensures
            final(self)@ == old(self)@.push(Seq::<EntryModel>::empty()),
            old(self).wf() ==> final(self).wf(),
    {
        let ghost before = self@;
        self.layers.push(Layer::new());
        assert(self@ =~= before.push(Seq::<EntryModel>::empty()));
    }

    /// Closes the innermost layer and hands it out.
    pub fn pop_layer(&mut self) -> (layer: Layer)
        requires
            old(self)@.len() > 0,
        ensures
            final(self)@ == old(self)@.drop_last(),
            layer@ == old(self)@.last(),
            old(self).wf() ==> final(self).wf() && layer.wf(),
    {
        let ghost before = self@;
        let layer = self.layers.pop().unwrap();
        assert(self@ =~= before.drop_last());
        proof {
            if all_distinct(before) {
                assert(distinct_names(before[before.len() - 1]));
                assert forall|k: int| 0 <= k < self@.len() implies distinct_names(
                    #[trigger] self@[k],
                ) by {
                    assert(self@[k] == before[k]);
                }
            }
        }
        layer
    }

    /// Gives up the references that the bindings of `layer` hold: each
    /// bound value, in the order of the bindings, loses one reference and
    /// is released.
    pub fn free_scope(&mut self, memory: &mut Memory, layer: &Layer)
        ensures
            final(self)@ == old(self)@,
            final(memory)@ == spec_release(old(memory)@, layer_pointers(layer@)),
    {
        let ghost start = memory@;
        let ghost ptrs = layer_pointers(layer@);
        let mut i: usize = 0;
        assert(ptrs.skip(0) =~= ptrs);
        while i < layer.entries.len()
            invariant
                0 <= i <= layer.entries@.len(),
                ptrs == layer_pointers(layer@),
                spec_release(memory@, ptrs.skip(i as int)) == spec_release(start, ptrs),
            decreases layer.entries@.len() - i,
        {
            proof {
                let rest = ptrs.skip(i as int);
                crate::rtr::runtime::memory::lemma_release_unfold(memory@, rest);
                assert(rest.drop_first() =~= ptrs.skip(i + 1));
            }
            memory.rm_ref(layer.entries[i].ptr);
            memory.free(layer.entries[i].ptr);
            i += 1;
        }
        proof {
            crate::rtr::runtime::memory::lemma_release_unfold(memory@, ptrs.skip(i as int));
        }
    }

    /// Binds `name` to `value` in the innermost layer.
    pub fn decl_var(&mut self, name: String, value: MemPointer)
        requires
            old(self)@.len() > 0,
        ensures
            final(self)@ == spec_decl_var(old(self)@, name@, value),
            old(self).wf() ==> final(self).wf(),
    {
        let ghost before = self@;
        proof {
            if all_distinct(before) {
                lemma_decl_var_keeps_distinct(before, name@, value);
            }
        }
        let last = self.layers.len() - 1;
        self.layers[last].insert(name, value);
        assert(self@ =~= spec_decl_var(before, name@, value));
    }

    /// Sets `name` to `value`, which gains a reference. The innermost layer
    /// that binds the name has its binding replaced, and the value it stood
    /// for loses a reference and is released; where no layer binds the
    /// name, the innermost layer gets a new binding. A lookup of the name
    /// then finds `value`.
    pub fn set_var(&mut self, memory: &mut Memory, name: String, value: MemPointer)
        requires
            old(self)@.len() > 0,
            live(old(memory)@, value),
            cell_at(old(memory)@, value).refs < usize::MAX,
        ensures
            final(self)@ == spec_set_var(old(self)@, name@, value),
            final(memory)@ == spec_set_var_memory(old(self)@, old(memory)@, name@, value),
            spec_get_var(final(self)@, name@) == Some(value),
            old(self).wf() ==> final(self).wf(),
    {
        let ghost before = self@;
        let ghost p = |k: int| layer_has(before[before.len() - 1 - k], name@);
        let n = self.layers.len();
        memory.add_ref(value);
        let mut d: usize = 0;
        while d < n
            invariant
                n == self.layers@.len(),
                0 <= d <= n,
                self@ == before,
                before == old(self)@,
                before.len() > 0,
                p == (|k: int| layer_has(before[before.len() - 1 - k], name@)),
                forall|j: int| 0 <= j < d ==> !#[trigger] p(j),
                memory@ == spec_add_ref(old(memory)@, value),
            decreases n - d,
        {
            match self.layers[n - 1 - d].get(name.as_str()) {
                Some(previous) => {
                    proof {
                        assert(p(d as int));
                        lemma_first_index(before.len() as int, p, d as int);
                        lemma_set_var_found(before, name@, value);
                        if all_distinct(before) {
                            lemma_set_var_keeps_distinct(before, name@, value);
                        }
                    }
                    memory.rm_ref(previous);
                    memory.free(previous);
                    self.layers[n - 1 - d].insert(name, value);
                    assert(self@ =~= spec_set_var(before, name@, value));
                    return;
                },
                None => {
                    assert(!p(d as int));
                },
            }
            d += 1;
        }
        proof {
            lemma_first_index(before.len() as int, p, d as int);
            lemma_set_var_found(before, name@, value);
        }
        self.decl_var(name, value);
    }

    /// The place that `name` stands for: that of the innermost layer that
    /// binds it.
    pub fn get_var(&self, name: &str) -> (out: Option<MemPointer>)
        ensures
            out == spec_get_var(self@, name@),
    {
        let n = self.layers.len();
        let ghost p = |k: int| layer_has(self@[self@.len() - 1 - k], name@);
        let mut d: usize = 0;
        while d < n
            invariant
                n == self.layers@.len(),
                0 <= d <= n,
                p == (|k: int| layer_has(self@[self@.len() - 1 - k], name@)),
                forall|j: int| 0 <= j < d ==> !#[trigger] p(j),
            decreases n - d,
        {
            match self.layers[n - 1 - d].get(name) {
                Some(ptr) => {
                    proof {
                        assert(p(d as int));
                        lemma_first_index(n as int, p, d as int);
                    }
                    return Some(ptr);
                },
                None => {
                    assert(!p(d as int));
                },
            }
            d += 1;
        }
        proof {
            lemma_first_index(n as int, p, d as int);
        }
        None
    }
}

/// A layer binds a name to the place that was last inserted for it.
pub proof fn lemma_layer_insert(layer: Seq<EntryModel>, name: Seq<char>, ptr: MemPointer)
    ensures
        layer_has(layer_insert(layer, name, ptr), name),
        layer_get(layer_insert(layer, name, ptr), name) == ptr,
{
    let p = |k: int| layer[k].key == name;
    lemma_first_index_exists(layer.len() as int, p);
    let k = layer_index(layer, name);
    let out = layer_insert(layer, name, ptr);
    let q = |j: int| out[j].key == name;
    assert forall|j: int| 0 <= j < k implies !#[trigger] q(j) by {
        assert(!p(j));
    }
    assert(q(k));
    lemma_first_index(out.len() as int, q, k);
}

/// A lookup goes by the innermost layer that binds the name: where the
/// layer `d` places below the innermost one binds it and none above does,
/// that is the layer.
pub proof fn lemma_depth(layers: Seq<Seq<EntryModel>>, name: Seq<char>, d: int)
    requires
        0 <= d <= layers.len(),
        d < layers.len() ==> layer_has(layers[layers.len() - 1 - d], name),
        forall|j: int| 0 <= j < d ==> !layer_has(#[trigger] layers[layers.len() - 1 - j], name),
    ensures
        depth(layers, name) == d,
{
    let p = |k: int| layer_has(layers[layers.len() - 1 - k], name);
    assert forall|j: int| 0 <= j < d implies !#[trigger] p(j) by {
        assert(!layer_has(layers[layers.len() - 1 - j], name));
    }
    lemma_first_index(layers.len() as int, p, d);
}

/// What [`depth`] gives is the innermost layer that binds the name.
pub proof fn lemma_depth_is(layers: Seq<Seq<EntryModel>>, name: Seq<char>)
    ensures
        0 <= depth(layers, name) <= layers.len(),
        binds(layers, name) ==> layer_has(layers[holder(layers, name)], name),
        forall|i: int| holder(layers, name) < i < layers.len() ==> !layer_has(#[trigger] layers[i], name),
{
    let n = layers.len() as int;
    let p = |k: int| layer_has(layers[layers.len() - 1 - k], name);
    lemma_first_index_exists(n, p);
    let d = depth(layers, name);
    assert forall|i: int| holder(layers, name) < i < n implies !layer_has(
        #[trigger] layers[i],
        name,
    ) by {
        assert(!p(n - 1 - i));
    }
}

/// After a name is set, a lookup of it finds the value that it was set to.
pub proof fn lemma_set_var_found(layers: Seq<Seq<EntryModel>>, name: Seq<char>, ptr: MemPointer)
    requires
        layers.len() > 0,
    ensures
        spec_get_var(spec_set_var(layers, name, ptr), name) == Some(ptr),
        holder(spec_set_var(layers, name, ptr), name) == if binds(layers, name) {
            holder(layers, name)
        } else {
            layers.len() - 1
        },
        spec_set_var(layers, name, ptr).len() == layers.len(),
{
    let n = layers.len() as int;
    lemma_depth_is(layers, name);
    let out = spec_set_var(layers, name, ptr);
    let h = if binds(layers, name) {
        holder(layers, name)
    } else {
        n - 1
    };
    lemma_layer_insert(layers[h], name, ptr);
    assert(out == layers.update(h, layer_insert(layers[h], name, ptr)));
    assert forall|j: int| 0 <= j < n - 1 - h implies !layer_has(
        #[trigger] out[out.len() - 1 - j],
        name,
    ) by {
        assert(out[n - 1 - j] == layers[n - 1 - j]);
    }
    lemma_depth(out, name, n - 1 - h);
}

/// Inserting a name into a layer leaves the bindings of the other names as
/// they were.
pub proof fn lemma_layer_insert_other(
    layer: Seq<EntryModel>,
    name: Seq<char>,
    ptr: MemPointer,
    other: Seq<char>,
)
    requires
        other != name,
    ensures
        layer_has(layer_insert(layer, name, ptr), other) == layer_has(layer, other),
        layer_has(layer, other) ==> layer_get(layer_insert(layer, name, ptr), other) == layer_get(
            layer,
            other,
        ),
{
    let out = layer_insert(layer, name, ptr);
    let p = |k: int| layer[k].key == other;
    let q = |k: int| out[k].key == other;
    lemma_first_index_exists(layer.len() as int, p);
    lemma_first_index_exists(layer.len() as int, |k: int| layer[k].key == name);
    let k = layer_index(layer, other);
    assert forall|j: int| 0 <= j < k implies !#[trigger] q(j) by {
        assert(!p(j));
    }
    if k < layer.len() {
        assert(p(k));
        assert(q(k));
        lemma_first_index(out.len() as int, q, k);
    } else {
        assert forall|j: int| 0 <= j < out.len() implies !#[trigger] q(j) by {
            if j < layer.len() {
                assert(!p(j));
            }
        }
        lemma_first_index(out.len() as int, q, out.len() as int);
    }
}

/// Setting a name leaves what the other names stand for as it was.
pub proof fn lemma_set_var_other(
    layers: Seq<Seq<EntryModel>>,
    name: Seq<char>,
    ptr: MemPointer,
    other: Seq<char>,
)
    requires
        layers.len() > 0,
        other != name,
    ensures
        spec_get_var(spec_set_var(layers, name, ptr), other) == spec_get_var(layers, other),
{
    let n = layers.len() as int;
    lemma_depth_is(layers, name);
    lemma_depth_is(layers, other);
    let out = spec_set_var(layers, name, ptr);
    let h = if binds(layers, name) {
        holder(layers, name)
    } else {
        n - 1
    };
    lemma_layer_insert_other(layers[h], name, ptr, other);
    assert(out == layers.update(h, layer_insert(layers[h], name, ptr)));
    let d = depth(layers, other);
    assert forall|j: int| 0 <= j < n implies layer_has(#[trigger] out[j], other) == layer_has(
        layers[j],
        other,
    ) by {}
    assert forall|j: int| 0 <= j < d implies !layer_has(
        #[trigger] out[out.len() - 1 - j],
        other,
    ) by {
        assert(!layer_has(layers[n - 1 - j], other));
    }
    lemma_depth(out, other, d);
}

/// Declaring a name that no layer binds, and then declaring it again.
///
/// The first declaration binds the name in the innermost layer and gives
/// the value one reference. The second one rebinds it in that layer: the
/// new value gains one reference, the first value loses the one it got,
/// and is then released. Where both values are fresh, with no reference
/// before, and the first one holds no places, the first cell is free
/// afterwards and the new one holds exactly one reference.
pub proof fn lemma_redeclare(
    layers: Seq<Seq<EntryModel>>,
    cells: Seq<Option<CellModel>>,
    name: Seq<char>,
    first: MemPointer,
    second: MemPointer,
)
    requires
        layers.len() > 0,
        !binds(layers, name),
        live(cells, first),
        live(cells, second),
        first != second,
        cell_at(cells, first).refs < usize::MAX,
        cell_at(cells, second).refs < usize::MAX,
    ensures
        ({
            let declared = spec_set_var(layers, name, first);
            let held = spec_set_var_memory(layers, cells, name, first);
            let again = spec_set_var(declared, name, second);
            let after = spec_set_var_memory(declared, held, name, second);
            let counted = crate::rtr::runtime::memory::with_refs(
                cells,
                second,
                (cell_at(cells, second).refs + 1) as usize,
            );
            &&& spec_get_var(declared, name) == Some(first)
            &&& spec_get_var(again, name) == Some(second)
            &&& held == spec_add_ref(cells, first)
            &&& cell_at(held, first).refs == cell_at(cells, first).refs + 1
            &&& after == spec_free(counted, first)
            &&& cell_at(counted, first).refs == cell_at(cells, first).refs
            &&& cell_at(cells, first).refs == 0 && cell_at(cells, second).refs == 0 && cell_at(
                cells,
                first,
            ).val.children().len() == 0 ==> {
                &&& after == counted.update(first.id.0 as int, None)
                &&& !live(after, first)
                &&& live(after, second)
                &&& cell_at(after, second).refs == 1
            }
        }),
{
    let declared = spec_set_var(layers, name, first);
    lemma_set_var_found(layers, name, first);
    lemma_set_var_found(declared, name, second);
    let held = spec_add_ref(cells, first);
    let counted = crate::rtr::runtime::memory::with_refs(
        cells,
        second,
        (cell_at(cells, second).refs + 1) as usize,
    );
    assert(spec_rm_ref(spec_add_ref(held, second), first) =~= counted);
    crate::rtr::runtime::memory::lemma_free_unfold(counted, first);
    if cell_at(cells, first).refs == 0 && cell_at(cells, first).val.children().len() == 0 {
        crate::rtr::runtime::memory::lemma_release_unfold(
            counted.update(first.id.0 as int, None),
            cell_at(cells, first).val.children(),
        );
    }
}

} // verus!
