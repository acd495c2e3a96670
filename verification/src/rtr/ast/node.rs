use crate::rtr::number::Number;
use crate::shared::range::Range;
use crate::shared::text::same_text;
use vstd::prelude::*;

verus! {

/// The operators with one operand.
#[derive(Clone, Copy, Debug, PartialEq, Eq, Structural)]
pub enum UnaryOp {
    Minus,
    Number,
    Invert,
    Boolify,
}

/// The operators with two operands.
#[derive(Clone, Copy, Debug, PartialEq, Eq, Structural)]
pub enum BinaryOp {
    Add,
    Sub,
    Mul,
    Div,
    Mod,
    Pow,
    Eql,
    NotEql,
    Bigger,
    Smaller,
    BiggerEql,
    SmallerEql,
    NullishCoalescence,
}

/// A parameter of a function of the script language.
#[derive(Debug)]
pub struct Parameter {
    pub name: String,
}

impl View for Parameter {
    type V = Seq<char>;

    open spec fn view(&self) -> Seq<char> {
        self.name@
    }
}

impl Clone for Parameter {
    fn clone(&self) -> (p: Parameter)
        ensures
            p@ == self@,
    {
        Parameter { name: self.name.clone() }
    }
}

/// What a property-scoped event is attached to.
#[derive(Debug)]
pub enum Target {
    Any,
    Id(String),
    Element(String),
}

/// The mathematical value of a [`Target`].
pub enum TargetModel {
    Any,
    Id(Seq<char>),
    Element(Seq<char>),
}

impl View for Target {
    type V = TargetModel;

    open spec fn view(&self) -> TargetModel {
        match self {
            Target::Any => TargetModel::Any,
            Target::Id(s) => TargetModel::Id(s@),
            Target::Element(s) => TargetModel::Element(s@),
        }
    }
}

impl Target {
    /// True when both are the same target.
    pub fn same(&self, other: &Target) -> (b: bool)
        ensures
            b == (self@ == other@),
    {
        match (self, other) {
            (Target::Any, Target::Any) => true,
            (Target::Id(a), Target::Id(b)) => same_text(a.as_str(), b.as_str()),
            (Target::Element(a), Target::Element(b)) => same_text(a.as_str(), b.as_str()),
            _ => false,
        }
    }
}

/// The key by which handlers are chosen: a global event name, or an event
/// name on a target.
#[derive(Debug)]
pub enum EventTarget {
    Global { name: String },
    Property { target: Target, event_name: String },
}

/// The mathematical value of an [`EventTarget`].
pub enum EventTargetModel {
    Global { name: Seq<char> },
    Property { target: TargetModel, event_name: Seq<char> },
}

impl View for EventTarget {
    type V = EventTargetModel;

    open spec fn view(&self) -> EventTargetModel {
        match self {
            EventTarget::Global { name } => EventTargetModel::Global { name: name@ },
            EventTarget::Property { target, event_name } => EventTargetModel::Property {
                target: target@,
                event_name: event_name@,
            },
        }
    }
}

impl EventTarget {
    /// True when both are of the same kind and carry the same names.
    pub fn same(&self, other: &EventTarget) -> (b: bool)
        ensures
            b == (self@ == other@),
    {
        match (self, other) {
            (EventTarget::Global { name: a }, EventTarget::Global { name: b }) => same_text(
                a.as_str(),
                b.as_str(),
            ),
            (
                EventTarget::Property { target: ta, event_name: a },
                EventTarget::Property { target: tb, event_name: b },
            ) => ta.same(tb) && same_text(a.as_str(), b.as_str()),
            _ => false,
        }
    }
}

/// An expression of the script language, with the range it was read from.
#[derive(Debug)]
#[allow(inconsistent_fields)]
pub enum AstExpression {
    Call { args: Vec<AstExpression>, func: Box<AstExpression>, range: Range },
    Declare { name: String, value: Box<AstExpression>, range: Range },
    Unary { value: Box<AstExpression>, op: UnaryOp, range: Range },
    Binary { left: Box<AstExpression>, right: Box<AstExpression>, op: BinaryOp, range: Range },
    Variable { name: String, range: Range },
    String { content: String, range: Range },
    Number { content: Number, range: Range },
    Percentage { content: Number, range: Range },
}

/// The mathematical value of an [`AstExpression`].
#[allow(inconsistent_fields)]
pub enum ExprModel {
    Call { args: Seq<ExprModel>, func: Box<ExprModel>, range: Range },
    Declare { name: Seq<char>, value: Box<ExprModel>, range: Range },
    Unary { value: Box<ExprModel>, op: UnaryOp, range: Range },
    Binary { left: Box<ExprModel>, right: Box<ExprModel>, op: BinaryOp, range: Range },
    Variable { name: Seq<char>, range: Range },
    Text { content: Seq<char>, range: Range },
    Number { content: Number, range: Range },
    Percentage { content: Number, range: Range },
}

impl AstExpression {
    /// The mathematical value of the expression.
    pub open spec fn model(&self) -> ExprModel
        decreases self,
    {
        match self {
            AstExpression::Call { args, func, range } => ExprModel::Call {
                args: Seq::new(
                    args@.len(),
                    |i: int|
                        if 0 <= i < args@.len() {
                            args@[i].model()
                        } else {
                            arbitrary()
                        },
                ),
                func: Box::new(func.model()),
                range: *range,
            },
            AstExpression::Declare { name, value, range } => ExprModel::Declare {
                name: name@,
                value: Box::new(value.model()),
                range: *range,
            },
            AstExpression::Unary { value, op, range } => ExprModel::Unary {
                value: Box::new(value.model()),
                op: *op,
                range: *range,
            },
            AstExpression::Binary { left, right, op, range } => ExprModel::Binary {
                left: Box::new(left.model()),
                right: Box::new(right.model()),
                op: *op,
                range: *range,
            },
            AstExpression::Variable { name, range } => ExprModel::Variable {
                name: name@,
                range: *range,
            },
            AstExpression::String { content, range } => ExprModel::Text {
                content: content@,
                range: *range,
            },
            AstExpression::Number { content, range } => ExprModel::Number {
                content: *content,
                range: *range,
            },
            AstExpression::Percentage { content, range } => ExprModel::Percentage {
                content: *content,
                range: *range,
            },
        }
    }
}

impl ExprModel {
    /// The range that the expression was read from.
    pub open spec fn range(self) -> Range {
        match self {
            ExprModel::Call { range, .. } => range,
            ExprModel::Declare { range, .. } => range,
            ExprModel::Unary { range, .. } => range,
            ExprModel::Binary { range, .. } => range,
            ExprModel::Variable { range, .. } => range,
            ExprModel::Text { range, .. } => range,
            ExprModel::Number { range, .. } => range,
            ExprModel::Percentage { range, .. } => range,
        }
    }
}

impl AstExpression {
    /// The range that the expression was read from.
    pub fn range(&self) -> (r: Range)
        ensures
            r == self@.range(),
    {
        match self {
            AstExpression::Call { range, .. } => *range,
            AstExpression::Declare { range, .. } => *range,
            AstExpression::Unary { range, .. } => *range,
            AstExpression::Binary { range, .. } => *range,
            AstExpression::Variable { range, .. } => *range,
            AstExpression::String { range, .. } => *range,
            AstExpression::Number { range, .. } => *range,
            AstExpression::Percentage { range, .. } => *range,
        }
    }
}

impl View for AstExpression {
    type V = ExprModel;

    open spec fn view(&self) -> ExprModel {
        self.model()
    }
}

/// The models of a sequence of expressions.
pub open spec fn expr_models(exprs: Seq<AstExpression>) -> Seq<ExprModel> {
    Seq::new(exprs.len(), |i: int| exprs[i]@)
}

/// A statement: an expression whose value is dropped.
#[derive(Debug)]
pub enum AstStatement {
    Expression(AstExpression),
}

impl View for AstStatement {
    type V = ExprModel;

    open spec fn view(&self) -> ExprModel {
        match self {
            AstStatement::Expression(e) => e@,
        }
    }
}

/// The models of a sequence of statements.
pub open spec fn statement_models(statements: Seq<AstStatement>) -> Seq<ExprModel> {
    Seq::new(statements.len(), |i: int| statements[i]@)
}

/// A declaration at the top level of a script: a handler body bound to an
/// event target.
#[derive(Debug)]
pub enum AstTopLevelStatement {
    Event { body: Vec<AstStatement>, target: EventTarget },
}

/// The mathematical value of an [`AstTopLevelStatement`].
pub struct EventModel {
    pub body: Seq<ExprModel>,
    pub target: EventTargetModel,
}

impl View for AstTopLevelStatement {
    type V = EventModel;

    open spec fn view(&self) -> EventModel {
        match self {
            AstTopLevelStatement::Event { body, target } => EventModel {
                body: statement_models(body@),
                target: target@,
            },
        }
    }
}

/// A script: its event declarations in the order they were written.
#[derive(Debug)]
pub struct AstProgram {
    pub events: Vec<AstTopLevelStatement>,
}

impl View for AstProgram {
    type V = Seq<EventModel>;

    open spec fn view(&self) -> Seq<EventModel> {
        Seq::new(self.events@.len(), |i: int| self.events@[i]@)
    }
}

} // verus!
