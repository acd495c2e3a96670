
use crate::rwl::ast::node::{AstHeader, AstHeaderItem, ItemModel};
use crate::rwl::error::{ErrPosition, Error, ErrorModel};
use crate::rwl::value::{Value, ValueModel};

use crate::shared::text::same_text;
use vstd::prelude::*;
use vstd::string::StringExecFns;

verus! {

/// The direction in which a frame lays out its children.
#[derive(Clone, Copy, Debug, PartialEq, Eq, Structural)]
pub enum FrameDirection {
    Horizontal,
    Vertical,
}

/// How a frame lays out its children.
#[derive(Clone, Copy, Debug, PartialEq, Eq, Structural)]
pub struct FrameData {
    pub dir: FrameDirection,
    pub flipped: bool,
}

/// How the lines of a text are aligned.
#[derive(Clone, Copy, Debug, PartialEq, Eq, Structural)]
pub enum Alignment {
    Left,
    Center,
    Right,
}

/// The side of an area that an element is anchored to, left to right.
#[derive(Clone, Copy, Debug, PartialEq, Eq, Structural)]
pub enum AnchorX {
    Left,
    Center,
    Right,
}

/// The side of an area that an element is anchored to, top to bottom.
#[derive(Clone, Copy, Debug, PartialEq, Eq, Structural)]
pub enum AnchorY {
    Top,
    Center,
    Bottom,
}

impl From<Alignment> for AnchorX {
    fn from(value: Alignment) -> (out: AnchorX) {
        match value {
            Alignment::Left => AnchorX::Left,
            Alignment::Center => AnchorX::Center,
            Alignment::Right => AnchorX::Right,
        }
    }
}

impl vstd::std_specs::convert::FromSpecImpl<Alignment> for AnchorX {
    open spec fn obeys_from_spec() -> bool {
        true
    }

    open spec fn from_spec(value: Alignment) -> AnchorX {
        match value {
            Alignment::Left => AnchorX::Left,
            Alignment::Center => AnchorX::Center,
            Alignment::Right => AnchorX::Right,
        }
    }
}

impl From<AnchorX> for Alignment {
    fn from(value: AnchorX) -> (out: Alignment) {
        match value {
            AnchorX::Left => Alignment::Left,
            AnchorX::Center => Alignment::Center,
            AnchorX::Right => Alignment::Right,
        }
    }
}

impl vstd::std_specs::convert::FromSpecImpl<AnchorX> for Alignment {
    open spec fn obeys_from_spec() -> bool {
        true
    }

    open spec fn from_spec(value: AnchorX) -> Alignment {
        match value {
            AnchorX::Left => Alignment::Left,
            AnchorX::Center => Alignment::Center,
            AnchorX::Right => Alignment::Right,
        }
    }
}

/// True when a pair of the given name sets the size of a child of a frame
/// of the given direction.
pub open spec fn spec_is_size_applicable(pair_name: Seq<char>, dir: FrameDirection) -> bool {
    pair_name == "size"@ || (pair_name == "width"@ && dir == FrameDirection::Horizontal) || (
    pair_name == "height"@ && dir == FrameDirection::Vertical)
}

/// True when a pair of the given name sets the size of a child of a frame
/// of the given direction.
pub fn is_size_applicable(pair_name: &str, dir: &FrameDirection) -> (b: bool)
    ensures
        b == spec_is_size_applicable(pair_name@, *dir),
{
    same_text(pair_name, "size") || (same_text(pair_name, "width") && *dir
        == FrameDirection::Horizontal) || (same_text(pair_name, "height") && *dir
        == FrameDirection::Vertical)
}

/// A name of a header with its value.
#[derive(Debug)]
pub struct Pair {
    pub name: String,
    pub value: Value,
}

/// The mathematical value of a [`Pair`].
pub struct PairModel {
    pub name: Seq<char>,
    pub value: ValueModel,
}

impl View for Pair {
    type V = PairModel;

    open spec fn view(&self) -> PairModel {
        PairModel { name: self.name@, value: self.value@ }
    }
}

/// The header of a block or an element: names with values, and names
/// alone, both in the order in which they were first written. No name has
/// two values in a header that is well formed ([`Header::wf`]).
#[derive(Debug)]
pub struct Header {
    pub pairs: Vec<Pair>,
    pub flags: Vec<String>,
}

/// The mathematical value of a [`Header`].
pub struct HeaderModel {
    pub pairs: Seq<PairModel>,
    pub flags: Seq<Seq<char>>,
}

/// The models of a sequence of pairs.
pub open spec fn pair_models(pairs: Seq<Pair>) -> Seq<PairModel> {
    Seq::new(pairs.len(), |i: int| pairs[i]@)
}

/// The texts of a sequence of strings.
pub open spec fn flag_models(flags: Seq<String>) -> Seq<Seq<char>> {
    Seq::new(flags.len(), |i: int| flags[i]@)
}

impl View for Header {
    type V = HeaderModel;

    open spec fn view(&self) -> HeaderModel {
        HeaderModel { pairs: pair_models(self.pairs@), flags: flag_models(self.flags@) }
    }
}

/// The index of the first pair of the given name, or the number of pairs
/// where there is none.
pub open spec fn pair_index(pairs: Seq<PairModel>, name: Seq<char>) -> int
    decreases pairs.len(),
{
    if pairs.len() == 0 {
        0
    } else if pairs[0].name == name {
        0
    } else {
        1 + pair_index(pairs.drop_first(), name)
    }
}

/// The index that [`pair_index`] gives is that of the first pair of the
/// name.
pub proof fn lemma_pair_index(pairs: Seq<PairModel>, name: Seq<char>)
    ensures
        0 <= pair_index(pairs, name) <= pairs.len(),
        pair_index(pairs, name) < pairs.len() ==> pairs[pair_index(pairs, name)].name == name,
        forall|j: int| 0 <= j < pair_index(pairs, name) ==> (#[trigger] pairs[j]).name != name,
    decreases pairs.len(),
{
    if pairs.len() > 0 && pairs[0].name != name {
        let rest = pairs.drop_first();
        lemma_pair_index(rest, name);
        assert forall|j: int| 0 <= j < pair_index(pairs, name) implies (#[trigger] pairs[j]).name
            != name by {
            if j > 0 {
                assert(pairs[j] == rest[j - 1]);
            }
        }
    }
}

/// True when no name occurs twice among the pairs. A header that is made
/// by [`Header::new`] and filled by [`Header::insert`] is so.
pub open spec fn distinct_pairs(pairs: Seq<PairModel>) -> bool {
    forall|i: int, j: int|
        0 <= i < j < pairs.len() ==> (#[trigger] pairs[i]).name != (#[trigger] pairs[j]).name
}

/// The flags `flags` without the flag `name`, in the same order.
pub open spec fn without(flags: Seq<Seq<char>>, name: Seq<char>) -> Seq<Seq<char>>
    decreases flags.len(),
{
    if flags.len() == 0 {
        Seq::empty()
    } else if flags.last() != name {
        without(flags.drop_last(), name).push(flags.last())
    } else {
        without(flags.drop_last(), name)
    }
}

impl HeaderModel {
    /// True when the header holds a pair of the given name.
    pub open spec fn has(self, name: Seq<char>) -> bool {
        pair_index(self.pairs, name) < self.pairs.len()
    }

    /// The value of the pair of the given name.
    pub open spec fn get(self, name: Seq<char>) -> ValueModel
        recommends
            self.has(name),
    {
        self.pairs[pair_index(self.pairs, name)].value
    }

    /// The header with the pair of the given name set to `value`: a pair
    /// of the name is replaced where it stands, a new one goes to the end.
    pub open spec fn insert(self, name: Seq<char>, value: ValueModel) -> HeaderModel {
        if self.has(name) {
            HeaderModel {
                pairs: self.pairs.update(
                    pair_index(self.pairs, name),
                    PairModel { name, value },
                ),
                flags: self.flags,
            }
        } else {
            HeaderModel { pairs: self.pairs.push(PairModel { name, value }), flags: self.flags }
        }
    }

    /// The header with one more entry of a document: a pair is inserted, a
    /// name alone is added to the flags.
    pub open spec fn with_item(self, item: ItemModel) -> HeaderModel {
        match item {
            ItemModel::Pair(name, value) => self.insert(name, value),
            ItemModel::Flag(name) => HeaderModel {
                pairs: self.pairs,
                flags: self.flags.push(name),
            },
        }
    }

    /// The header with the flag set or cleared: a flag that is set is
    /// added once, one that is cleared leaves the flags wherever it
    /// stands.
    pub open spec fn set_flag(self, name: Seq<char>, value: bool) -> HeaderModel {
        let present = self.flags.contains(name);
        if !present && value {
            HeaderModel { pairs: self.pairs, flags: self.flags.push(name) }
        } else if present && !value {
            HeaderModel { pairs: self.pairs, flags: without(self.flags, name) }
        } else {
            self
        }
    }
}

/// Setting a pair in a header in which no name occurs twice leaves it so.
pub proof fn lemma_insert_keeps_distinct(h: HeaderModel, name: Seq<char>, value: ValueModel)
    requires
        distinct_pairs(h.pairs),
    ensures
        distinct_pairs(h.insert(name, value).pairs),
{
    lemma_pair_index(h.pairs, name);
    let k = pair_index(h.pairs, name);
    let out = h.insert(name, value).pairs;
    assert forall|i: int, j: int| 0 <= i < j < out.len() implies (#[trigger] out[i]).name != (
    #[trigger] out[j]).name by {
        if k < h.pairs.len() {
            assert(out[i].name == h.pairs[i].name);
            assert(out[j].name == h.pairs[j].name);
        } else {
            if j < h.pairs.len() {
                assert(out[i] == h.pairs[i] && out[j] == h.pairs[j]);
            } else {
                assert(out[i] == h.pairs[i]);
                assert(h.pairs[i].name != name);
            }
        }
    }
}

/// The header that the entries of a document give holds no name twice,
/// where the header it is built on holds none twice.
pub proof fn lemma_instance_header_distinct(items: Seq<ItemModel>, acc: HeaderModel)
    requires
        distinct_pairs(acc.pairs),
    ensures
        distinct_pairs(spec_instance_header(items, acc).pairs),
    decreases items.len(),
{
    if items.len() > 0 {
        match items[0] {
            ItemModel::Pair(name, value) => {
                lemma_insert_keeps_distinct(acc, name, value);
            },
            ItemModel::Flag(_) => {},
        }
        lemma_instance_header_distinct(items.drop_first(), acc.with_item(items[0]));
    }
}

/// The header that the entries `items` of a document give, after `acc`.
pub open spec fn spec_instance_header(items: Seq<ItemModel>, acc: HeaderModel) -> HeaderModel
    decreases items.len(),
{
    if items.len() == 0 {
        acc
    } else {
        spec_instance_header(items.drop_first(), acc.with_item(items[0]))
    }
}

impl Header {
    /// True when no name occurs twice among the pairs of the header.
    pub open spec fn wf(&self) -> bool {
        distinct_pairs(self@.pairs)
    }

    /// A header without entries.
    pub fn new() -> (header: Header)
        ensures
            header@ == (HeaderModel { pairs: Seq::empty(), flags: Seq::empty() }),
    {
        let header = Header { pairs: Vec::new(), flags: Vec::new() };
        assert(header@.pairs =~= Seq::<PairModel>::empty());
        assert(header@.flags =~= Seq::<Seq<char>>::empty());
        header
    }

    fn index_of(&self, name: &str) -> (k: usize)
        ensures
            k == pair_index(self@.pairs, name@),
            k <= self.pairs@.len(),
    {
        let ghost all = self@.pairs;
        let mut k: usize = 0;
        assert(all.skip(0) =~= all);
        while k < self.pairs.len()
            invariant
                0 <= k <= self.pairs@.len(),
                all == self@.pairs,
                pair_index(all, name@) == k + pair_index(all.skip(k as int), name@),
            decreases self.pairs@.len() - k,
        {
            assert(all.skip(k as int)[0] == all[k as int]);
            if same_text(self.pairs[k].name.as_str(), name) {
                return k;
            }
            assert(all.skip(k as int).drop_first() =~= all.skip(k + 1));
            k += 1;
        }
        k
    }

    /// The value of the pair of the given name, if there is one.
    pub fn get(&self, name: &str) -> (out: Option<&Value>)
        ensures
            match out {
                Some(value) => self@.has(name@) && value@ == self@.get(name@),
                None => !self@.has(name@),
            },
    {
        let k = self.index_of(name);
        if k < self.pairs.len() {
            Some(&self.pairs[k].value)
        } else {
            None
        }
    }

    /// The value of the pair of the given name, which must be of the kind
    /// `type_name` where there is one.
    pub fn expect(&self, name: &str, kind: &str) -> (out: Result<Option<&Value>, Error>)
        ensures
            match out {
                Ok(Some(value)) => self@.has(name@) && value@ == self@.get(name@)
                    && value@.kind_name() == kind@,
                Ok(None) => !self@.has(name@),
                Err(e) => self@.has(name@) && self@.get(name@).kind_name() != kind@ && e@ == (
                ErrorModel::ValueTypeMismatch(kind@, self@.get(name@).kind_name())),
            },
    {
        match self.get(name) {
            Some(val) => {
                if !same_text(val.get_type(), kind) {
                    return Err(
                        Error::ValueTypeMismatch(
                            ErrPosition,
                            String::from_str(kind),
                            String::from_str(val.get_type()),
                        ),
                    );
                }
                Ok(Some(val))
            },
            None => Ok(None),
        }
    }

    /// Sets the pair of the given name to `value`.
    pub fn insert(&mut self, name: String, value: Value)
        ensures
            final(self)@ == old(self)@.insert(name@, value@),
            old(self).wf() ==> final(self).wf(),
    {
        let ghost before = self@;
        proof {
            if distinct_pairs(before.pairs) {
                lemma_insert_keeps_distinct(before, name@, value@);
            }
        }
        let k = self.index_of(name.as_str());
        if k < self.pairs.len() {
            self.pairs[k] = Pair { name, value };
            assert(self@.pairs =~= before.pairs.update(
                k as int,
                PairModel { name: name@, value: value@ },
            ));
        } else {
            self.pairs.push(Pair { name, value });
            assert(self@.pairs =~= before.pairs.push(PairModel { name: name@, value: value@ }));
        }
        assert(self@.flags =~= before.flags);
    }

    /// True when the flag is set.
    pub fn has_flag(&self, name: &str) -> (b: bool)
        ensures
            b == self@.flags.contains(name@),
    {
        let mut i: usize = 0;
        while i < self.flags.len()
            invariant
                0 <= i <= self.flags@.len(),
                forall|j: int| 0 <= j < i ==> (#[trigger] self@.flags[j]) != name@,
            decreases self.flags@.len() - i,
        {
            if same_text(self.flags[i].as_str(), name) {
                assert(self@.flags[i as int] == name@);
                return true;
            }
            i += 1;
        }
        false
    }

    /// Sets or clears the flag.
    pub fn set_flag(&mut self, name: &str, value: bool)
        ensures
            final(self)@ == old(self)@.set_flag(name@, value),
            old(self).wf() ==> final(self).wf(),
    {
        let ghost before = self@;
        let present = self.has_flag(name);
        if !present && value {
            self.flags.push(String::from_str(name));
            assert(self@.flags =~= before.flags.push(name@));
            assert(self@.pairs =~= before.pairs);
        } else if present && !value {
            let mut kept: Vec<String> = Vec::new();
            let mut i: usize = 0;
            assert(before.flags.take(0) =~= Seq::<Seq<char>>::empty());
            assert(flag_models(kept@) =~= Seq::<Seq<char>>::empty());
            while i < self.flags.len()
                invariant
                    0 <= i <= self.flags@.len(),
                    self@ == before,
                    flag_models(kept@) == without(before.flags.take(i as int), name@),
                decreases self.flags@.len() - i,
            {
                let ghost done = flag_models(kept@);
                proof {
                    let upto = before.flags.take(i + 1);
                    assert(upto.drop_last() =~= before.flags.take(i as int));
                    assert(upto.last() == before.flags[i as int]);
                }
                if !same_text(self.flags[i].as_str(), name) {
                    kept.push(self.flags[i].clone());
                    assert(flag_models(kept@) =~= done.push(before.flags[i as int]));
                }
                i += 1;
            }
            assert(before.flags.take(before.flags.len() as int) =~= before.flags);
            self.flags = kept;
            assert(self@.pairs =~= before.pairs);
        }
    }
}

/// The header that the header of a document gives: its pairs, a later
/// pair of a name taking the place of an earlier one, and its flags.
pub fn instance_header(header: &AstHeader) -> (out: Header)
    ensures
        out@ == spec_instance_header(
            header@,
            HeaderModel { pairs: Seq::empty(), flags: Seq::empty() },
        ),
        out.wf(),
{
    proof {
        lemma_instance_header_distinct(
            header@,
            HeaderModel { pairs: Seq::empty(), flags: Seq::empty() },
        );
    }
    let ghost items = header@;
    let mut out = Header::new();
    let mut i: usize = 0;
    assert(items.skip(0) =~= items);
    while i < header.attributes.len()
        invariant
            0 <= i <= header.attributes@.len(),
            items == header@,
            spec_instance_header(items.skip(i as int), out@) == spec_instance_header(
                items,
                HeaderModel { pairs: Seq::empty(), flags: Seq::empty() },
            ),
        decreases header.attributes@.len() - i,
    {
        proof {
            assert(items.skip(i as int).drop_first() =~= items.skip(i + 1));
            assert(items.skip(i as int)[0] == header.attributes@[i as int]@);
        }
        let ghost before = out@;
        match &header.attributes[i] {
            AstHeaderItem::Pair(name, value) => {
                out.insert(name.clone(), value.instance());
            },
            AstHeaderItem::Flag(name) => {
                out.flags.push(name.clone());
                assert(out@.flags =~= before.flags.push(name@));
                assert(out@.pairs =~= before.pairs);
            },
        }
        i += 1;
    }
    out
}

/// The frame data that the flags of a header give: `Horizontal` and
/// `Vertical` set the direction, the last of them standing; each `Flipped`
/// turns the order around.
pub open spec fn spec_frame_data(flags: Seq<Seq<char>>) -> FrameData
    decreases flags.len(),
{
    if flags.len() == 0 {
        FrameData { dir: FrameDirection::Horizontal, flipped: false }
    } else {
        let before = spec_frame_data(flags.drop_last());
        let flag = flags.last();
        if flag == "Horizontal"@ {
            FrameData { dir: FrameDirection::Horizontal, flipped: before.flipped }
        } else if flag == "Vertical"@ {
            FrameData { dir: FrameDirection::Vertical, flipped: before.flipped }
        } else if flag == "Flipped"@ {
            FrameData { dir: before.dir, flipped: !before.flipped }
        } else {
            before
        }
    }
}

/// How a frame with the given header lays out its children.
pub fn frame_data(header: &Header) -> (data: FrameData)
    ensures
        data == spec_frame_data(header@.flags),
{
    let ghost flags = header@.flags;
    let mut dir = FrameDirection::Horizontal;
    let mut flipped = false;
    let mut i: usize = 0;
    assert(flags.take(0) =~= Seq::<Seq<char>>::empty());
    while i < header.flags.len()
        invariant
            0 <= i <= header.flags@.len(),
            flags == header@.flags,
            (FrameData { dir, flipped }) == spec_frame_data(flags.take(i as int)),
        decreases header.flags@.len() - i,
    {
        proof {
            assert(flags.take(i + 1).drop_last() =~= flags.take(i as int));
            assert(flags.take(i + 1).last() == header.flags@[i as int]@);
        }
        let flag = header.flags[i].as_str();
        if same_text(flag, "Horizontal") {
            dir = FrameDirection::Horizontal;
        } else if same_text(flag, "Vertical") {
            dir = FrameDirection::Vertical;
        } else if same_text(flag, "Flipped") {
            flipped = !flipped;
        }
        i += 1;
    }
    assert(flags.take(flags.len() as int) =~= flags);
    FrameData { dir, flipped }
}

} // verus!
