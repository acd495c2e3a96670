use crate::rtr::number::Number;
use crate::rtr::runtime::kernel::{apply_render, render_of, render_ok};
use crate::rwl::element::{
    Alignment, AnchorX, AnchorY, FrameDirection, Header, PairModel, is_size_applicable,
    spec_is_size_applicable,
};
use crate::rwl::error::{ErrPosition, Error, ErrorModel};
use crate::rwl::value::{Value, ValueModel};
use crate::shared::area::{Area, Vec2};
use crate::shared::text::{chars_of, same_text, string_of};
use vstd::prelude::*;
use vstd::string::StringExecFns;

verus! {

/// The pattern of 10.
pub const TEN_BITS: u32 = 0x4120_0000;

/// The four distances that the pairs of a header give for one name.
pub struct Sides {
    pub left: Number,
    pub right: Number,
    pub bottom: Number,
    pub top: Number,
}

/// The distances after one more pair is read. A number under the name
/// itself sets all four sides; under the name with `_x` the left and the
/// right, with `_y` the bottom and the top; with `_l` or `_left`, `_r` or
/// `_right`, `_b` or `_bottom`, `_t` or `_top` one side. A pair of another
/// name, or with a value that is no number, changes nothing.
pub open spec fn sides_step(s: Sides, pair: PairModel, name: Seq<char>) -> Sides {
    match pair.value {
        ValueModel::Num(v) => if pair.name == name {
            Sides { left: v, right: v, bottom: v, top: v }
        } else if pair.name == name + "_x"@ {
            Sides { left: v, right: v, bottom: s.bottom, top: s.top }
        } else if pair.name == name + "_y"@ {
            Sides { left: s.left, right: s.right, bottom: v, top: v }
        } else if pair.name == name + "_l"@ || pair.name == name + "_left"@ {
            Sides { left: v, right: s.right, bottom: s.bottom, top: s.top }
        } else if pair.name == name + "_r"@ || pair.name == name + "_right"@ {
            Sides { left: s.left, right: v, bottom: s.bottom, top: s.top }
        } else if pair.name == name + "_b"@ || pair.name == name + "_bottom"@ {
            Sides { left: s.left, right: s.right, bottom: v, top: s.top }
        } else if pair.name == name + "_t"@ || pair.name == name + "_top"@ {
            Sides { left: s.left, right: s.right, bottom: s.bottom, top: v }
        } else {
            s
        },
        _ => s,
    }
}

/// The distances that the pairs give, read in their order; every side
/// starts at zero.
pub open spec fn spec_sides(pairs: Seq<PairModel>, name: Seq<char>) -> Sides
    decreases pairs.len(),
{
    if pairs.len() == 0 {
        Sides {
            left: Number { bits: 0 },
            right: Number { bits: 0 },
            bottom: Number { bits: 0 },
            top: Number { bits: 0 },
        }
    } else {
        sides_step(spec_sides(pairs.drop_last(), name), pairs.last(), name)
    }
}

/// The distances as an area: the left and the top, the right and the
/// bottom.
pub open spec fn sides_area(s: Sides) -> Area {
    Area { a: Vec2(s.left, s.top), b: Vec2(s.right, s.bottom) }
}

fn is_joined(text: &str, name: &str, suffix: &str) -> (b: bool)
    ensures
        b == (text@ == name@ + suffix@),
{
    let mut joined = String::from_str(name);
    joined.append(suffix);
    same_text(text, joined.as_str())
}

impl Header {
    fn get_area_keys(&self, name: &str) -> (out: Area)
        ensures
            out == sides_area(spec_sides(self@.pairs, name@)),
    {
        let ghost pairs = self@.pairs;
        let zero = Number { bits: 0 };
        let mut left = zero;
        let mut right = zero;
        let mut bottom = zero;
        let mut top = zero;
        let mut i: usize = 0;
        assert(pairs.take(0) =~= Seq::<PairModel>::empty());
        while i < self.pairs.len()
            invariant
                0 <= i <= self.pairs@.len(),
                pairs == self@.pairs,
                (Sides { left, right, bottom, top }) == spec_sides(pairs.take(i as int), name@),
            decreases self.pairs@.len() - i,
        {
            proof {
                assert(pairs.take(i + 1).drop_last() =~= pairs.take(i as int));
                assert(pairs.take(i + 1).last() == self.pairs@[i as int]@);
            }
            let pair_name = self.pairs[i].name.as_str();
            match &self.pairs[i].value {
                Value::Num(num) => {
                    if same_text(pair_name, name) {
                        left = *num;
                        right = *num;
                        bottom = *num;
                        top = *num;
                    } else if is_joined(pair_name, name, "_x") {
                        left = *num;
                        right = *num;
                    } else if is_joined(pair_name, name, "_y") {
                        bottom = *num;
                        top = *num;
                    } else if is_joined(pair_name, name, "_l") || is_joined(
                        pair_name,
                        name,
                        "_left",
                    ) {
                        left = *num;
                    } else if is_joined(pair_name, name, "_r") || is_joined(
                        pair_name,
                        name,
                        "_right",
                    ) {
                        right = *num;
                    } else if is_joined(pair_name, name, "_b") || is_joined(
                        pair_name,
                        name,
                        "_bottom",
                    ) {
                        bottom = *num;
                    } else if is_joined(pair_name, name, "_t") || is_joined(
                        pair_name,
                        name,
                        "_top",
                    ) {
                        top = *num;
                    }
                },
                _ => {},
            }
            i += 1;
        }
        assert(pairs.take(pairs.len() as int) =~= pairs);
        Area { a: Vec2(left, top), b: Vec2(right, bottom) }
    }

    /// The distances between the sides of a node and its content.
    pub fn get_padding(&self) -> (out: Area)
        ensures
            out == sides_area(spec_sides(self@.pairs, "padding"@)),
    {
        self.get_area_keys("padding")
    }

    /// The distances between the sides of a node and its surroundings.
    pub fn get_margin(&self) -> (out: Area)
        ensures
            out == sides_area(spec_sides(self@.pairs, "margin"@)),
    {
        self.get_area_keys("margin")
    }
}

/// True when `s` ends with `suffix`.
pub open spec fn spec_ends_with(s: Seq<char>, suffix: Seq<char>) -> bool {
    s.len() >= suffix.len() && s.subrange(s.len() - suffix.len(), s.len() as int) == suffix
}

/// True when the last character of `s` is `c`.
pub open spec fn ends_in(s: Seq<char>, c: char) -> bool {
    s.len() > 0 && s.last() == c
}

/// True when the first character of `s` is `c`.
pub open spec fn starts_in(s: Seq<char>, c: char) -> bool {
    s.len() > 0 && s[0] == c
}

fn ends_with(chars: &Vec<char>, suffix: &str) -> (b: bool)
    ensures
        b == spec_ends_with(chars@, suffix@),
{
    let tail = chars_of(suffix);
    if chars.len() < tail.len() {
        return false;
    }
    let part = string_of(chars, chars.len() - tail.len(), chars.len());
    same_text(part.as_str(), suffix)
}

/// True for the names of the anchors.
pub open spec fn spec_valid_anchor(name: Seq<char>) -> bool {
    name == "tl"@ || name == "t"@ || name == "tr"@ || name == "l"@ || name == "c"@ || name == "r"@
        || name == "bl"@ || name == "b"@ || name == "br"@ || name == "top left"@ || name == "top"@
        || name == "top right"@ || name == "left"@ || name == "center"@ || name == "right"@ || name
        == "bottom"@ || name == "bottom right"@
}

/// True for the names of the alignments.
pub open spec fn spec_valid_alignment(name: Seq<char>) -> bool {
    name == "l"@ || name == "c"@ || name == "r"@ || name == "left"@ || name == "center"@ || name
        == "right"@
}

/// The horizontal side that a name sets, if it sets one: the right where
/// it ends in `r` or in `right`, else the left where it ends in `l` or in
/// `left`.
pub open spec fn side_x(name: Seq<char>) -> Option<AnchorX> {
    if ends_in(name, 'r') || spec_ends_with(name, "right"@) {
        Some(AnchorX::Right)
    } else if ends_in(name, 'l') || spec_ends_with(name, "left"@) {
        Some(AnchorX::Left)
    } else {
        None
    }
}

/// The vertical side that a name sets, if it sets one: the bottom where it
/// starts with `b` or ends in `bottom`, else the top where it starts with
/// `t` or ends in `top`.
pub open spec fn side_y(name: Seq<char>) -> Option<AnchorY> {
    if starts_in(name, 'b') || spec_ends_with(name, "bottom"@) {
        Some(AnchorY::Bottom)
    } else if starts_in(name, 't') || spec_ends_with(name, "top"@) {
        Some(AnchorY::Top)
    } else {
        None
    }
}

/// The anchor that the pairs give, read in their order: each pair named
/// `anchor` that holds a string must hold the name of an anchor, and sets
/// the sides that the name sets.
pub open spec fn spec_anchor(pairs: Seq<PairModel>) -> Result<
    (Option<AnchorX>, Option<AnchorY>),
    ErrorModel,
>
    decreases pairs.len(),
{
    if pairs.len() == 0 {
        Ok((None, None))
    } else {
        match spec_anchor(pairs.drop_last()) {
            Ok((x, y)) => {
                let pair = pairs.last();
                if pair.name == "anchor"@ && pair.value is Str {
                    let name = pair.value->Str_0;
                    if !spec_valid_anchor(name) {
                        Err(ErrorModel::InvalidAnchor(name))
                    } else {
                        Ok(
                            (
                                if side_x(name) is Some {
                                    side_x(name)
                                } else {
                                    x
                                },
                                if side_y(name) is Some {
                                    side_y(name)
                                } else {
                                    y
                                },
                            ),
                        )
                    }
                } else {
                    Ok((x, y))
                }
            },
            Err(e) => Err(e),
        }
    }
}

/// The alignment that the pairs give, read in their order, starting from
/// `default`: each pair named `alignment` that holds a string must hold the
/// name of an alignment, and sets the left or the right where the name
/// sets a side.
pub open spec fn spec_alignment(pairs: Seq<PairModel>, default: Alignment) -> Result<
    Alignment,
    ErrorModel,
>
    decreases pairs.len(),
{
    if pairs.len() == 0 {
        Ok(default)
    } else {
        match spec_alignment(pairs.drop_last(), default) {
            Ok(before) => {
                let pair = pairs.last();
                if pair.name == "alignment"@ && pair.value is Str {
                    let name = pair.value->Str_0;
                    if !spec_valid_alignment(name) {
                        Err(ErrorModel::InvalidAlignment(name))
                    } else {
                        match side_x(name) {
                            Some(AnchorX::Right) => Ok(Alignment::Right),
                            Some(AnchorX::Left) => Ok(Alignment::Left),
                            _ => Ok(before),
                        }
                    }
                } else {
                    Ok(before)
                }
            },
            Err(e) => Err(e),
        }
    }
}

fn valid_anchor(name: &str) -> (b: bool)
    ensures
        b == spec_valid_anchor(name@),
{
    same_text(name, "tl") || same_text(name, "t") || same_text(name, "tr") || same_text(name, "l")
        || same_text(name, "c") || same_text(name, "r") || same_text(name, "bl") || same_text(
        name,
        "b",
    ) || same_text(name, "br") || same_text(name, "top left") || same_text(name, "top")
        || same_text(name, "top right") || same_text(name, "left") || same_text(name, "center")
        || same_text(name, "right") || same_text(name, "bottom") || same_text(
        name,
        "bottom right",
    )
}

fn valid_alignment(name: &str) -> (b: bool)
    ensures
        b == spec_valid_alignment(name@),
{
    same_text(name, "l") || same_text(name, "c") || same_text(name, "r") || same_text(name, "left")
        || same_text(name, "center") || same_text(name, "right")
}

fn side_x_of(name: &str) -> (out: Option<AnchorX>)
    ensures
        out == side_x(name@),
{
    let chars = chars_of(name);
    let n = chars.len();
    if (n > 0 && chars[n - 1] == 'r') || ends_with(&chars, "right") {
        Some(AnchorX::Right)
    } else if (n > 0 && chars[n - 1] == 'l') || ends_with(&chars, "left") {
        Some(AnchorX::Left)
    } else {
        None
    }
}

fn side_y_of(name: &str) -> (out: Option<AnchorY>)
    ensures
        out == side_y(name@),
{
    let chars = chars_of(name);
    let n = chars.len();
    if (n > 0 && chars[0] == 'b') || ends_with(&chars, "bottom") {
        Some(AnchorY::Bottom)
    } else if (n > 0 && chars[0] == 't') || ends_with(&chars, "top") {
        Some(AnchorY::Top)
    } else {
        None
    }
}

/// The sides that the header anchors its element to.
pub fn get_anchor(header: &Header) -> (out: Result<(Option<AnchorX>, Option<AnchorY>), Error>)
    ensures
        match spec_anchor(header@.pairs) {
            Ok(anchor) => out == Ok::<(Option<AnchorX>, Option<AnchorY>), Error>(anchor),
            Err(e) => out is Err && out->Err_0@ == e,
        },
{
    let ghost pairs = header@.pairs;
    let mut anchor_x: Option<AnchorX> = None;
    let mut anchor_y: Option<AnchorY> = None;
    let mut i: usize = 0;
    assert(pairs.take(0) =~= Seq::<PairModel>::empty());
    while i < header.pairs.len()
        invariant
            0 <= i <= header.pairs@.len(),
            pairs == header@.pairs,
            spec_anchor(pairs.take(i as int)) == Ok::<
                (Option<AnchorX>, Option<AnchorY>),
                ErrorModel,
            >((anchor_x, anchor_y)),
        decreases header.pairs@.len() - i,
    {
        proof {
            assert(pairs.take(i + 1).drop_last() =~= pairs.take(i as int));
            assert(pairs.take(i + 1).last() == header.pairs@[i as int]@);
        }
        if same_text(header.pairs[i].name.as_str(), "anchor") {
            match &header.pairs[i].value {
                Value::Str(name) => {
                    if !valid_anchor(name.as_str()) {
                        proof {
                            lemma_anchor_prefix(pairs, i + 1);
                        }
                        return Err(Error::InvalidAnchor(ErrPosition, name.clone()));
                    }
                    match side_x_of(name.as_str()) {
                        Some(x) => {
                            anchor_x = Some(x);
                        },
                        None => {},
                    }
                    match side_y_of(name.as_str()) {
                        Some(y) => {
                            anchor_y = Some(y);
                        },
                        None => {},
                    }
                },
                _ => {},
            }
        }
        i += 1;
    }
    assert(pairs.take(pairs.len() as int) =~= pairs);
    Ok((anchor_x, anchor_y))
}

/// An error among the first pairs is the error of all.
pub proof fn lemma_anchor_prefix(pairs: Seq<PairModel>, i: int)
    requires
        0 <= i <= pairs.len(),
        spec_anchor(pairs.take(i)) is Err,
    ensures
        spec_anchor(pairs) == spec_anchor(pairs.take(i)),
    decreases pairs.len(),
{
    if i == pairs.len() {
        assert(pairs.take(i) =~= pairs);
    } else {
        assert(pairs.drop_last().take(i) =~= pairs.take(i));
        lemma_anchor_prefix(pairs.drop_last(), i);
    }
}

/// An error among the first pairs is the error of all.
pub proof fn lemma_alignment_prefix(pairs: Seq<PairModel>, default: Alignment, i: int)
    requires
        0 <= i <= pairs.len(),
        spec_alignment(pairs.take(i), default) is Err,
    ensures
        spec_alignment(pairs, default) == spec_alignment(pairs.take(i), default),
    decreases pairs.len(),
{
    if i == pairs.len() {
        assert(pairs.take(i) =~= pairs);
    } else {
        assert(pairs.drop_last().take(i) =~= pairs.take(i));
        lemma_alignment_prefix(pairs.drop_last(), default, i);
    }
}

/// The alignment that the header gives to the lines of its element.
pub fn get_alignment(header: &Header, default: Alignment) -> (out: Result<Alignment, Error>)
    ensures
        match spec_alignment(header@.pairs, default) {
            Ok(alignment) => out == Ok::<Alignment, Error>(alignment),
            Err(e) => out is Err && out->Err_0@ == e,
        },
{
    let ghost pairs = header@.pairs;
    let mut alignment = default;
    let mut i: usize = 0;
    assert(pairs.take(0) =~= Seq::<PairModel>::empty());
    while i < header.pairs.len()
        invariant
            0 <= i <= header.pairs@.len(),
            pairs == header@.pairs,
            spec_alignment(pairs.take(i as int), default) == Ok::<Alignment, ErrorModel>(alignment),
        decreases header.pairs@.len() - i,
    {
        proof {
            assert(pairs.take(i + 1).drop_last() =~= pairs.take(i as int));
            assert(pairs.take(i + 1).last() == header.pairs@[i as int]@);
        }
        if same_text(header.pairs[i].name.as_str(), "alignment") {
            match &header.pairs[i].value {
                Value::Str(name) => {
                    if !valid_alignment(name.as_str()) {
                        proof {
                            lemma_alignment_prefix(pairs, default, i + 1);
                        }
                        return Err(Error::InvalidAlignment(ErrPosition, name.clone()));
                    }
                    match side_x_of(name.as_str()) {
                        Some(AnchorX::Right) => {
                            alignment = Alignment::Right;
                        },
                        Some(AnchorX::Left) => {
                            alignment = Alignment::Left;
                        },
                        _ => {},
                    }
                },
                _ => {},
            }
        }
        i += 1;
    }
    assert(pairs.take(pairs.len() as int) =~= pairs);
    Ok(alignment)
}

/// The radii of the four corners of a block.
#[derive(Clone, Copy, Debug, PartialEq, Eq, Structural)]
pub struct Rounding {
    pub tl: Number,
    pub tr: Number,
    pub bl: Number,
    pub br: Number,
}

impl Rounding {
    /// The same radius at every corner.
    pub open spec fn spec_uniform(value: Number) -> Rounding {
        Rounding { tl: value, tr: value, bl: value, br: value }
    }

    /// The same radius at every corner.
    #[verifier::when_used_as_spec(spec_uniform)]
    pub fn uniform(value: Number) -> (out: Rounding)
        ensures
            out == Rounding::spec_uniform(value),
    {
        Rounding { tl: value, tr: value, bl: value, br: value }
    }
}

impl Default for Rounding {
    fn default() -> (out: Rounding)
        ensures
            out == Rounding::spec_uniform(Number { bits: 0 }),
    {
        Rounding::uniform(Number { bits: 0 })
    }
}

/// The number that the header sets under `name`, or `default` where it
/// sets none.
pub fn numeric_setting(header: &Header, name: &str, default: Number) -> (out: Result<Number, Error>)
    ensures
        match out {
            Ok(value) => if header@.has(name@) {
                header@.get(name@) == ValueModel::Num(value)
            } else {
                value == default
            },
            Err(e) => header@.has(name@) && !(header@.get(name@) is Num) && e@ == (
            ErrorModel::ValueTypeMismatch("num"@, header@.get(name@).kind_name())),
        },
{
    match header.expect(name, "num") {
        Ok(Some(value)) => {
            proof {
                lemma_kind_names();
            }
            match value {
                Value::Num(n) => Ok(*n),
                _ => Ok(default),
            }
        },
        Ok(None) => Ok(default),
        Err(e) => {
            proof {
                lemma_kind_names();
            }
            Err(e)
        },
    }
}

/// The names of the kinds of values differ from one another.
pub proof fn lemma_kind_names()
    ensures
        "num"@ != "str"@,
        "num"@ != "percentage"@,
        "num"@ != "color"@,
        "str"@ != "percentage"@,
        "str"@ != "color"@,
        "percentage"@ != "color"@,
{
    reveal_strlit("num");
    reveal_strlit("str");
    reveal_strlit("percentage");
    reveal_strlit("color");
    assert("num"@[0] == 'n');
    assert("str"@[0] == 's');
    assert("percentage"@[0] == 'p');
    assert("color"@[0] == 'c');
}

/// The radii that the header gives to the corners of its block: the number
/// under `rounding` at every corner, or none.
pub fn get_rounding(header: &Header) -> (out: Result<Rounding, Error>)
    ensures
        match out {
            Ok(rounding) => if header@.has("rounding"@) {
                header@.get("rounding"@) == ValueModel::Num(rounding.tl) && rounding
                    == Rounding::spec_uniform(rounding.tl)
            } else {
                rounding == Rounding::spec_uniform(Number { bits: 0 })
            },
            Err(e) => header@.has("rounding"@) && !(header@.get("rounding"@) is Num) && e@ == (
            ErrorModel::ValueTypeMismatch("num"@, header@.get("rounding"@).kind_name())),
        },
{
    match numeric_setting(header, "rounding", Number { bits: 0 }) {
        Ok(value) => Ok(Rounding::uniform(value)),
        Err(e) => Err(e),
    }
}

/// How much room a child of a frame takes.
#[derive(Clone, Copy, Debug, PartialEq, Eq, Structural)]
pub enum SizeRule {
    /// All the room that is left.
    Rest,
    /// This much.
    Fixed(Number),
    /// This many percent of the room that is left.
    Share(Number),
}

/// The room that the pairs of a child give it in a frame of the given
/// direction, read in their order after `before`: each pair that sets the
/// size must hold a number or a percentage, and the last one stands.
pub open spec fn spec_size_rule(pairs: Seq<PairModel>, dir: FrameDirection) -> Result<
    SizeRule,
    ErrorModel,
>
    decreases pairs.len(),
{
    if pairs.len() == 0 {
        Ok(SizeRule::Rest)
    } else {
        match spec_size_rule(pairs.drop_last(), dir) {
            Ok(before) => {
                let pair = pairs.last();
                if spec_is_size_applicable(pair.name, dir) {
                    match pair.value {
                        ValueModel::Num(v) => Ok(SizeRule::Fixed(v)),
                        ValueModel::Percentage(v) => Ok(SizeRule::Share(v)),
                        ValueModel::Str(_) => Err(
                            ErrorModel::ValueTypeMismatch("'num' or 'percentage'"@, "str"@),
                        ),
                        ValueModel::Color(_) => Err(
                            ErrorModel::ValueTypeMismatch("'num' or 'percentage'"@, "color"@),
                        ),
                        ValueModel::Property(_) => Err(
                            ErrorModel::ValueTypeMismatch("'num' or 'percentage'"@, "property"@),
                        ),
                    }
                } else {
                    Ok(before)
                }
            },
            Err(e) => Err(e),
        }
    }
}

/// An error among the first pairs is the error of all.
pub proof fn lemma_size_rule_prefix(pairs: Seq<PairModel>, dir: FrameDirection, i: int)
    requires
        0 <= i <= pairs.len(),
        spec_size_rule(pairs.take(i), dir) is Err,
    ensures
        spec_size_rule(pairs, dir) == spec_size_rule(pairs.take(i), dir),
    decreases pairs.len(),
{
    if i == pairs.len() {
        assert(pairs.take(i) =~= pairs);
    } else {
        assert(pairs.drop_last().take(i) =~= pairs.take(i));
        lemma_size_rule_prefix(pairs.drop_last(), dir, i);
    }
}

fn mismatch(got: &str) -> (e: Error)
    ensures
        e@ == ErrorModel::ValueTypeMismatch("'num' or 'percentage'"@, got@),
{
    Error::ValueTypeMismatch(
        ErrPosition,
        String::from_str("'num' or 'percentage'"),
        String::from_str(got),
    )
}

/// The room that a child with the given header takes in a frame of the
/// given direction.
pub fn frame_size_rule(header: &Header, dir: &FrameDirection) -> (out: Result<SizeRule, Error>)
    ensures
        match spec_size_rule(header@.pairs, *dir) {
            Ok(rule) => out == Ok::<SizeRule, Error>(rule),
            Err(e) => out is Err && out->Err_0@ == e,
        },
{
    let ghost pairs = header@.pairs;
    let mut rule = SizeRule::Rest;
    let mut i: usize = 0;
    assert(pairs.take(0) =~= Seq::<PairModel>::empty());
    while i < header.pairs.len()
        invariant
            0 <= i <= header.pairs@.len(),
            pairs == header@.pairs,
            spec_size_rule(pairs.take(i as int), *dir) == Ok::<SizeRule, ErrorModel>(rule),
        decreases header.pairs@.len() - i,
    {
        proof {
            assert(pairs.take(i + 1).drop_last() =~= pairs.take(i as int));
            assert(pairs.take(i + 1).last() == header.pairs@[i as int]@);
        }
        if is_size_applicable(header.pairs[i].name.as_str(), dir) {
            match &header.pairs[i].value {
                Value::Num(val) => {
                    rule = SizeRule::Fixed(*val);
                },
                Value::Percentage(val) => {
                    rule = SizeRule::Share(*val);
                },
                Value::Str(_) => {
                    proof {
                        lemma_size_rule_prefix(pairs, *dir, i + 1);
                    }
                    return Err(mismatch("str"));
                },
                Value::Color(_) => {
                    proof {
                        lemma_size_rule_prefix(pairs, *dir, i + 1);
                    }
                    return Err(mismatch("color"));
                },
                Value::Property(_) => {
                    proof {
                        lemma_size_rule_prefix(pairs, *dir, i + 1);
                    }
                    return Err(mismatch("property"));
                },
            }
        }
        i += 1;
    }
    assert(pairs.take(pairs.len() as int) =~= pairs);
    Ok(rule)
}

/// The text that an element shows: a string as it is, a number as
/// `render` writes it; a value of another kind cannot be an element.
pub fn element_text<R: Fn(Number) -> String>(value: &Value, render: &R) -> (out: Result<
    String,
    Error,
>)
    requires
        render_ok(render),
    ensures
        match value@ {
            ValueModel::Str(s) => out is Ok && out->Ok_0@ == s,
            ValueModel::Num(n) => out is Ok && out->Ok_0@ == render_of(render)(n),
            other => out is Err && out->Err_0@ == ErrorModel::InvalidElemType(other.kind_name()),
        },
{
    match value {
        Value::Str(str) => Ok(str.clone()),
        Value::Num(num) => Ok(apply_render(render, *num)),
        _ => Err(Error::InvalidElemType(ErrPosition, String::from_str(value.get_type()))),
    }
}

/// The parts of `text` between its newlines; one more than it has
/// newlines.
pub open spec fn spec_lines(text: Seq<char>) -> Seq<Seq<char>>
    decreases text.len(),
{
    if text.len() == 0 {
        seq![Seq::<char>::empty()]
    } else {
        let before = spec_lines(text.drop_last());
        if text.last() == '\n' {
            before.push(Seq::empty())
        } else {
            before.drop_last().push(before.last().push(text.last()))
        }
    }
}

/// There is always a line.
pub proof fn lemma_lines_some(text: Seq<char>)
    ensures
        spec_lines(text).len() >= 1,
    decreases text.len(),
{
    if text.len() > 0 {
        lemma_lines_some(text.drop_last());
    }
}

/// The lines of a text.
pub fn lines_of(text: &str) -> (lines: Vec<String>)
    ensures
        crate::rwl::element::flag_models(lines@) == spec_lines(text@),
{
    let chars = chars_of(text);
    let mut lines: Vec<String> = Vec::new();
    let mut from: usize = 0;
    let mut i: usize = 0;
    let ghost all = chars@;
    assert(all.take(0) =~= Seq::<char>::empty());
    assert(crate::rwl::element::flag_models(lines@).push(all.subrange(0, 0)) =~= spec_lines(
        all.take(0),
    ));
    while i < chars.len()
        invariant
            0 <= from <= i <= chars@.len(),
            all == chars@,
            all == text@,
            crate::rwl::element::flag_models(lines@).push(all.subrange(from as int, i as int))
                == spec_lines(all.take(i as int)),
        decreases chars@.len() - i,
    {
        let ghost done = crate::rwl::element::flag_models(lines@);
        proof {
            assert(all.take(i + 1).drop_last() =~= all.take(i as int));
            assert(all.take(i + 1).last() == all[i as int]);
            lemma_lines_some(all.take(i as int));
            assert(done.push(all.subrange(from as int, i as int)).drop_last() =~= done);
        }
        if chars[i] == '\n' {
            let ghost start = from as int;
            lines.push(string_of(&chars, from, i));
            from = i + 1;
            assert(crate::rwl::element::flag_models(lines@) =~= done.push(
                all.subrange(start, i as int),
            ));
            assert(all.subrange(from as int, i + 1) =~= Seq::<char>::empty());
        } else {
            assert(all.subrange(from as int, i + 1) =~= all.subrange(from as int, i as int).push(
                all[i as int],
            ));
        }
        i += 1;
    }
    let ghost done = crate::rwl::element::flag_models(lines@);
    lines.push(string_of(&chars, from, chars.len()));
    assert(crate::rwl::element::flag_models(lines@) =~= done.push(
        all.subrange(from as int, all.len() as int),
    ));
    assert(all.take(all.len() as int) =~= all);
    lines
}

} // verus!
