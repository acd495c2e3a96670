use crate::rtr::ast::node::{BinaryOp, Parameter, UnaryOp};
use crate::rtr::number::Number;
use crate::shared::color::Color;
use vstd::prelude::*;

verus! {

/// One instruction of the stack machine.
///
/// The machine runs the literals `Str`, `Num` and `Percentage`, `Get`,
/// `Decl`, `Call`, `Unary`, `Binary` and `Pop`. The other instructions are
/// set aside for later: the machine reports each and passes it over.
#[derive(Debug)]
pub enum VmInstruction {
    Label(String),
    Jump(String),
    JumpIf(String),
    JumpNotIf(String),
    Call(usize),
    Unary(UnaryOp),
    Binary(BinaryOp),
    Prop,
    Len,
    Null,
    Str(String),
    Num(Number),
    Percentage(Number),
    Bool(bool),
    Func { body: Vec<VmInstruction>, args: Vec<Parameter> },
    Arr { len: usize },
    Obj { keys: Vec<String> },
    Color(Color),
    Get(String),
    Decl(String),
    NewScope,
    PopScope,
    AsiVar(String, BinaryOp),
    AsiProp(BinaryOp),
    Pop,
    Dupe(usize),
}

/// The mathematical value of a [`VmInstruction`].
pub enum InstrModel {
    Label(Seq<char>),
    Jump(Seq<char>),
    JumpIf(Seq<char>),
    JumpNotIf(Seq<char>),
    Call(usize),
    Unary(UnaryOp),
    Binary(BinaryOp),
    Prop,
    Len,
    Null,
    Str(Seq<char>),
    Num(Number),
    Percentage(Number),
    Bool(bool),
    Func { body: Seq<InstrModel>, args: Seq<Seq<char>> },
    Arr { len: usize },
    Obj { keys: Seq<Seq<char>> },
    Color(Color),
    Get(Seq<char>),
    Decl(Seq<char>),
    NewScope,
    PopScope,
    AsiVar(Seq<char>, BinaryOp),
    AsiProp(BinaryOp),
    Pop,
    Dupe(usize),
}

/// The texts of a sequence of strings.
pub open spec fn text_models(texts: Seq<String>) -> Seq<Seq<char>> {
    Seq::new(texts.len(), |i: int| texts[i]@)
}

/// The names of a sequence of parameters.
pub open spec fn parameter_models(params: Seq<Parameter>) -> Seq<Seq<char>> {
    Seq::new(params.len(), |i: int| params[i]@)
}

impl VmInstruction {
    /// The mathematical value of the instruction.
    pub open spec fn model(&self) -> InstrModel
        decreases self,
    {
        match self {
            VmInstruction::Label(s) => InstrModel::Label(s@),
            VmInstruction::Jump(s) => InstrModel::Jump(s@),
            VmInstruction::JumpIf(s) => InstrModel::JumpIf(s@),
            VmInstruction::JumpNotIf(s) => InstrModel::JumpNotIf(s@),
            VmInstruction::Call(n) => InstrModel::Call(*n),
            VmInstruction::Unary(op) => InstrModel::Unary(*op),
            VmInstruction::Binary(op) => InstrModel::Binary(*op),
            VmInstruction::Prop => InstrModel::Prop,
            VmInstruction::Len => InstrModel::Len,
            VmInstruction::Null => InstrModel::Null,
            VmInstruction::Str(s) => InstrModel::Str(s@),
            VmInstruction::Num(n) => InstrModel::Num(*n),
            VmInstruction::Percentage(n) => InstrModel::Percentage(*n),
            VmInstruction::Bool(b) => InstrModel::Bool(*b),
            VmInstruction::Func { body, args } => InstrModel::Func {
                body: Seq::new(
                    body@.len(),
                    |i: int|
                        if 0 <= i < body@.len() {
                            body@[i].model()
                        } else {
                            arbitrary()
                        },
                ),
                args: parameter_models(args@),
            },
            VmInstruction::Arr { len } => InstrModel::Arr { len: *len },
            VmInstruction::Obj { keys } => InstrModel::Obj { keys: text_models(keys@) },
            VmInstruction::Color(c) => InstrModel::Color(*c),
            VmInstruction::Get(s) => InstrModel::Get(s@),
            VmInstruction::Decl(s) => InstrModel::Decl(s@),
            VmInstruction::NewScope => InstrModel::NewScope,
            VmInstruction::PopScope => InstrModel::PopScope,
            VmInstruction::AsiVar(s, op) => InstrModel::AsiVar(s@, *op),
            VmInstruction::AsiProp(op) => InstrModel::AsiProp(*op),
            VmInstruction::Pop => InstrModel::Pop,
            VmInstruction::Dupe(n) => InstrModel::Dupe(*n),
        }
    }

    /// A copy of the instruction.
    pub fn copy(&self) -> (out: VmInstruction)
        ensures
            out@ == self@,
        decreases self,
    {
        match self {
            VmInstruction::Label(s) => VmInstruction::Label(s.clone()),
            VmInstruction::Jump(s) => VmInstruction::Jump(s.clone()),
            VmInstruction::JumpIf(s) => VmInstruction::JumpIf(s.clone()),
            VmInstruction::JumpNotIf(s) => VmInstruction::JumpNotIf(s.clone()),
            VmInstruction::Call(n) => VmInstruction::Call(*n),
            VmInstruction::Unary(op) => VmInstruction::Unary(*op),
            VmInstruction::Binary(op) => VmInstruction::Binary(*op),
            VmInstruction::Prop => VmInstruction::Prop,
            VmInstruction::Len => VmInstruction::Len,
            VmInstruction::Null => VmInstruction::Null,
            VmInstruction::Str(s) => VmInstruction::Str(s.clone()),
            VmInstruction::Num(n) => VmInstruction::Num(*n),
            VmInstruction::Percentage(n) => VmInstruction::Percentage(*n),
            VmInstruction::Bool(b) => VmInstruction::Bool(*b),
            VmInstruction::Func { body, args } => {
                let mut out_body: Vec<VmInstruction> = Vec::new();
                let mut i: usize = 0;
                while i < body.len()
                    invariant
                        0 <= i <= body@.len(),
                        out_body@.len() == i,
                        forall|k: int| 0 <= k < i ==> (#[trigger] out_body@[k])@ == body@[k]@,
                        self matches VmInstruction::Func { body: b, .. } && b == body,
                    decreases body@.len() - i,
                {
                    out_body.push(body[i].copy());
                    i += 1;
                }
                let out = VmInstruction::Func { body: out_body, args: copy_parameters(args) };
                assert(out@->Func_body =~= self@->Func_body);
                out
            },
            VmInstruction::Arr { len } => VmInstruction::Arr { len: *len },
            VmInstruction::Obj { keys } => VmInstruction::Obj { keys: copy_texts(keys) },
            VmInstruction::Color(c) => VmInstruction::Color(*c),
            VmInstruction::Get(s) => VmInstruction::Get(s.clone()),
            VmInstruction::Decl(s) => VmInstruction::Decl(s.clone()),
            VmInstruction::NewScope => VmInstruction::NewScope,
            VmInstruction::PopScope => VmInstruction::PopScope,
            VmInstruction::AsiVar(s, op) => VmInstruction::AsiVar(s.clone(), *op),
            VmInstruction::AsiProp(op) => VmInstruction::AsiProp(*op),
            VmInstruction::Pop => VmInstruction::Pop,
            VmInstruction::Dupe(n) => VmInstruction::Dupe(*n),
        }
    }

    /// The name of the instruction's kind.
    pub fn name(&self) -> (s: &'static str)
        ensures
            s@ == spec_instruction_name(self@),
    {
        match self {
            VmInstruction::Label(_) => "Label",
            VmInstruction::Jump(_) => "Jump",
            VmInstruction::JumpIf(_) => "JumpIf",
            VmInstruction::JumpNotIf(_) => "JumpNotIf",
            VmInstruction::Call(_) => "Call",
            VmInstruction::Unary(_) => "Unary",
            VmInstruction::Binary(_) => "Binary",
            VmInstruction::Prop => "Prop",
            VmInstruction::Len => "Len",
            VmInstruction::Null => "Null",
            VmInstruction::Str(_) => "Str",
            VmInstruction::Num(_) => "Num",
            VmInstruction::Percentage(_) => "Percentage",
            VmInstruction::Bool(_) => "Bool",
            VmInstruction::Func { .. } => "Func",
            VmInstruction::Arr { .. } => "Arr",
            VmInstruction::Obj { .. } => "Obj",
            VmInstruction::Color(_) => "Color",
            VmInstruction::Get(_) => "Get",
            VmInstruction::Decl(_) => "Decl",
            VmInstruction::NewScope => "NewScope",
            VmInstruction::PopScope => "PopScope",
            VmInstruction::AsiVar(_, _) => "AsiVar",
            VmInstruction::AsiProp(_) => "AsiProp",
            VmInstruction::Pop => "Pop",
            VmInstruction::Dupe(_) => "Dupe",
        }
    }
}

/// The name of the kind of an instruction.
pub open spec fn spec_instruction_name(ins: InstrModel) -> Seq<char> {
    match ins {
        InstrModel::Label(_) => "Label"@,
        InstrModel::Jump(_) => "Jump"@,
        InstrModel::JumpIf(_) => "JumpIf"@,
        InstrModel::JumpNotIf(_) => "JumpNotIf"@,
        InstrModel::Call(_) => "Call"@,
        InstrModel::Unary(_) => "Unary"@,
        InstrModel::Binary(_) => "Binary"@,
        InstrModel::Prop => "Prop"@,
        InstrModel::Len => "Len"@,
        InstrModel::Null => "Null"@,
        InstrModel::Str(_) => "Str"@,
        InstrModel::Num(_) => "Num"@,
        InstrModel::Percentage(_) => "Percentage"@,
        InstrModel::Bool(_) => "Bool"@,
        InstrModel::Func { .. } => "Func"@,
        InstrModel::Arr { .. } => "Arr"@,
        InstrModel::Obj { .. } => "Obj"@,
        InstrModel::Color(_) => "Color"@,
        InstrModel::Get(_) => "Get"@,
        InstrModel::Decl(_) => "Decl"@,
        InstrModel::NewScope => "NewScope"@,
        InstrModel::PopScope => "PopScope"@,
        InstrModel::AsiVar(_, _) => "AsiVar"@,
        InstrModel::AsiProp(_) => "AsiProp"@,
        InstrModel::Pop => "Pop"@,
        InstrModel::Dupe(_) => "Dupe"@,
    }
}

impl View for VmInstruction {
    type V = InstrModel;

    open spec fn view(&self) -> InstrModel {
        self.model()
    }
}

/// The models of a sequence of instructions.
pub open spec fn instruction_models(instructions: Seq<VmInstruction>) -> Seq<InstrModel> {
    Seq::new(instructions.len(), |i: int| instructions[i]@)
}

/// A copy of a list of instructions.
pub fn copy_instructions(instructions: &Vec<VmInstruction>) -> (out: Vec<VmInstruction>)
    ensures
        instruction_models(out@) == instruction_models(instructions@),
{
    let mut out: Vec<VmInstruction> = Vec::new();
    let mut i: usize = 0;
    while i < instructions.len()
        invariant
            0 <= i <= instructions@.len(),
            out@.len() == i,
            forall|k: int| 0 <= k < i ==> (#[trigger] out@[k])@ == instructions@[k]@,
        decreases instructions@.len() - i,
    {
        out.push(instructions[i].copy());
        i += 1;
    }
    assert(instruction_models(out@) =~= instruction_models(instructions@));
    out
}

/// A copy of a list of parameters.
pub fn copy_parameters(params: &Vec<Parameter>) -> (out: Vec<Parameter>)
    ensures
        parameter_models(out@) == parameter_models(params@),
{
    let mut out: Vec<Parameter> = Vec::new();
    let mut i: usize = 0;
    while i < params.len()
        invariant
            0 <= i <= params@.len(),
            out@.len() == i,
            forall|k: int| 0 <= k < i ==> (#[trigger] out@[k])@ == params@[k]@,
        decreases params@.len() - i,
    {
        out.push(params[i].clone());
        i += 1;
    }
    assert(parameter_models(out@) =~= parameter_models(params@));
    out
}

/// A copy of a list of strings.
pub fn copy_texts(texts: &Vec<String>) -> (out: Vec<String>)
    ensures
        text_models(out@) == text_models(texts@),
{
    let mut out: Vec<String> = Vec::new();
    let mut i: usize = 0;
    while i < texts.len()
        invariant
            0 <= i <= texts@.len(),
            out@.len() == i,
            forall|k: int| 0 <= k < i ==> (#[trigger] out@[k])@ == texts@[k]@,
        decreases texts@.len() - i,
    {
        out.push(texts[i].clone());
        i += 1;
    }
    assert(text_models(out@) =~= text_models(texts@));
    out
}

} // verus!
