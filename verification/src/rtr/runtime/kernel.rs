//! The arithmetic that is left to the embedder.
//!
//! The engine holds a number as a bit pattern and does not compute with
//! floating-point values. The sum, difference, product, quotient, remainder
//! and power of two numbers, and the text of a number, are computed by two
//! functions that the embedder hands to the engine. The engine asks of them
//! that they can be called on every input and give one result for each;
//! its own results are then stated over the functions that they compute.

use crate::rtr::ast::node::BinaryOp;
use crate::rtr::number::Number;
use vstd::prelude::*;

verus! {

/// The arithmetic that the machine leaves to its embedder, as mathematical
/// functions: `arith` gives the result of an arithmetic operator on two
/// numbers, `render` the text of a number.
pub struct Kernel {
    pub arith: spec_fn(BinaryOp, Number, Number) -> Number,
    pub render: spec_fn(Number) -> Seq<char>,
}

/// True when `arith` can be called on every operator and pair of numbers
/// and gives one result for each.
pub open spec fn arith_ok<A: Fn(BinaryOp, Number, Number) -> Number>(arith: &A) -> bool {
    &&& forall|op: BinaryOp, l: Number, r: Number| #[trigger] arith.requires((op, l, r))
    &&& forall|op: BinaryOp, l: Number, r: Number, x: Number, y: Number|
        #[trigger] arith.ensures((op, l, r), x) && #[trigger] arith.ensures((op, l, r), y) ==> x
            == y
}

/// True when `render` can be called on every number and gives one text for
/// each.
pub open spec fn render_ok<R: Fn(Number) -> String>(render: &R) -> bool {
    &&& forall|n: Number| #[trigger] render.requires((n,))
    &&& forall|n: Number, s: String, t: String|
        #[trigger] render.ensures((n,), s) && #[trigger] render.ensures((n,), t) ==> s@ == t@
}

/// The function that `arith` computes.
pub open spec fn arith_of<A: Fn(BinaryOp, Number, Number) -> Number>(arith: &A) -> spec_fn(
    BinaryOp,
    Number,
    Number,
) -> Number {
    |op: BinaryOp, l: Number, r: Number| choose|x: Number| arith.ensures((op, l, r), x)
}

/// True when `render` can give the text `t` for `n`.
pub open spec fn renders_as<R: Fn(Number) -> String>(render: &R, n: Number, t: Seq<char>) -> bool {
    exists|s: String| #[trigger] render.ensures((n,), s) && s@ == t
}

/// The function that `render` computes.
pub open spec fn render_of<R: Fn(Number) -> String>(render: &R) -> spec_fn(Number) -> Seq<char> {
    |n: Number| choose|t: Seq<char>| renders_as(render, n, t)
}

/// The functions that a pair of closures computes.
pub open spec fn kernel_of<A: Fn(BinaryOp, Number, Number) -> Number, R: Fn(Number) -> String>(
    arith: &A,
    render: &R,
) -> Kernel {
    Kernel { arith: arith_of(arith), render: render_of(render) }
}

/// Calls `arith`.
pub fn apply_arith<A: Fn(BinaryOp, Number, Number) -> Number>(
    arith: &A,
    op: BinaryOp,
    l: Number,
    r: Number,
) -> (x: Number)
    requires
        arith_ok(arith),
    ensures
        x == arith_of(arith)(op, l, r),
{
    let x = arith(op, l, r);
    assert(arith.ensures((op, l, r), x));
    x
}

/// Calls `render`.
pub fn apply_render<R: Fn(Number) -> String>(render: &R, n: Number) -> (s: String)
    requires
        render_ok(render),
    ensures
        s@ == render_of(render)(n),
{
    let s = render(n);
    assert(render.ensures((n,), s));
    assert(renders_as(render, n, s@));
    s
}

} // verus!
