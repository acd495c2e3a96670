//! The stack machine, as a mathematical function from states to states.
//!
//! A step is allowed in a state where the stack holds the operands of the
//! instruction and the places that the step reads are live. A run that
//! meets an instruction that is not allowed is at fault: the functions of
//! the engine that run without looking ask of their caller that this does
//! not happen, and those that look before each step stop there.

use crate::rtr::ast::node::{BinaryOp, UnaryOp};
use crate::rtr::error::ErrorModel;
use crate::rtr::number::Number;
use crate::rtr::runtime::instruction::{spec_instruction_name, InstrModel};
use crate::rtr::runtime::kernel::Kernel;
use crate::rtr::runtime::memory::{
    cell_at, live, spec_add_ref, spec_alloc, spec_alloc_ptr, spec_free, spec_rm_ref, CellModel,
    MemPointer,
};
use crate::rtr::runtime::scope::{
    spec_decl_var, spec_get_var, spec_set_var, spec_set_var_memory,
};
use crate::rtr::runtime::value::{BuiltinFunction, EntryModel, FunctionModel, ValueModel};
use crate::shared::logging::{LogKind, LogModel, LogSource};
use vstd::prelude::*;

verus! {

/// The state of the stack machine: the operand stack (its top is the last
/// element), the scope, the arena, and the records written so far.
pub struct MachineModel {
    pub stack: Seq<MemPointer>,
    pub scope: Seq<Seq<EntryModel>>,
    pub memory: Seq<Option<CellModel>>,
    pub output: Seq<LogModel>,
}

/// How a run, or a step of it, ends.
pub enum Outcome {
    /// It went through and left this state.
    Next(MachineModel),
    /// It was given up with this error, in this state.
    Abort(MachineModel, ErrorModel),
    /// It met an instruction that the state does not allow: the stack is
    /// too short, or a place that must be live is not.
    Fault,
}

/// How a run ends that looks at each instruction before it steps.
pub enum Checked {
    /// It went through and left this state.
    Through(MachineModel),
    /// It was given up with this error, in this state.
    Given(MachineModel, ErrorModel),
    /// It stopped in this state, before an instruction that the state does
    /// not allow.
    Stopped(MachineModel),
}

impl Checked {
    /// The outcome without the state that a stopped run is left in.
    pub open spec fn outcome(self) -> Outcome {
        match self {
            Checked::Through(m) => Outcome::Next(m),
            Checked::Given(m, e) => Outcome::Abort(m, e),
            Checked::Stopped(_) => Outcome::Fault,
        }
    }
}

/// The result of an operator with one operand.
pub open spec fn unary_value(op: UnaryOp, v: ValueModel) -> ValueModel {
    match op {
        UnaryOp::Minus => ValueModel::Num { data: v.to_number().spec_negate() },
        UnaryOp::Number => ValueModel::Num { data: v.to_number() },
        UnaryOp::Invert => ValueModel::Bool { data: !v.to_bool() },
        UnaryOp::Boolify => ValueModel::Bool { data: v.to_bool() },
    }
}

/// True when both values are numbers. A percentage is no number here.
pub open spec fn both_numbers(l: ValueModel, r: ValueModel) -> bool {
    l is Num && r is Num
}

/// The result of a comparison of two numbers.
pub open spec fn compare(op: BinaryOp, l: Number, r: Number) -> bool {
    match op {
        BinaryOp::Eql => l.spec_equals(r),
        BinaryOp::NotEql => !l.spec_equals(r),
        BinaryOp::Bigger => r.spec_less(l),
        BinaryOp::Smaller => l.spec_less(r),
        BinaryOp::BiggerEql => r.spec_less(l) || l.spec_equals(r),
        BinaryOp::SmallerEql => l.spec_less(r) || l.spec_equals(r),
        _ => false,
    }
}

/// True for the operators that the kernel computes.
pub open spec fn is_arithmetic(op: BinaryOp) -> bool {
    op == BinaryOp::Add || op == BinaryOp::Sub || op == BinaryOp::Mul || op == BinaryOp::Div || op
        == BinaryOp::Mod || op == BinaryOp::Pow
}

/// The result of an operator with two operands.
///
/// On two numbers an arithmetic operator gives what the kernel computes. On
/// any other pair the sum is the text of the left value followed by the
/// text of the right one, and the other arithmetic operators give the
/// not-a-number value. A comparison is true only of two numbers that
/// compare so. The last operator gives the right value where the left one
/// is null, and the left value otherwise.
pub open spec fn binary_value(k: Kernel, op: BinaryOp, l: ValueModel, r: ValueModel) -> ValueModel {
    if op == BinaryOp::NullishCoalescence {
        if l is Null {
            r
        } else {
            l
        }
    } else if is_arithmetic(op) {
        if both_numbers(l, r) {
            ValueModel::Num { data: (k.arith)(op, l->Num_data, r->Num_data) }
        } else if op == BinaryOp::Add {
            ValueModel::Str { data: l.to_text(k.render) + r.to_text(k.render) }
        } else {
            ValueModel::Num { data: Number::spec_nan() }
        }
    } else {
        ValueModel::Bool { data: both_numbers(l, r) && compare(op, l->Num_data, r->Num_data) }
    }
}

/// The texts `parts` with one space between each two.
pub open spec fn spec_join(parts: Seq<Seq<char>>) -> Seq<char>
    decreases parts.len(),
{
    if parts.len() == 0 {
        Seq::empty()
    } else if parts.len() == 1 {
        parts[0]
    } else {
        spec_join(parts.drop_last()) + " "@ + parts.last()
    }
}

/// The texts of the values at `args`.
pub open spec fn arg_texts(
    cells: Seq<Option<CellModel>>,
    args: Seq<MemPointer>,
    render: spec_fn(Number) -> Seq<char>,
) -> Seq<Seq<char>> {
    Seq::new(args.len(), |i: int| cell_at(cells, args[i]).val.to_text(render))
}

/// True when every place of `args` is live.
pub open spec fn all_live(cells: Seq<Option<CellModel>>, args: Seq<MemPointer>) -> bool {
    forall|i: int| 0 <= i < args.len() ==> live(cells, #[trigger] args[i])
}

/// The table after each of `ptrs`, in order, is released. No reference is
/// dropped first: a cell that is still referenced stays.
pub open spec fn spec_free_all(cells: Seq<Option<CellModel>>, ptrs: Seq<MemPointer>) -> Seq<
    Option<CellModel>,
>
    decreases ptrs.len(),
{
    if ptrs.len() == 0 {
        cells
    } else {
        spec_free_all(spec_free(cells, ptrs[0]), ptrs.drop_first())
    }
}

/// True when `v` is the function `log` of the host.
pub open spec fn is_log(v: ValueModel) -> bool {
    v == ValueModel::Function(FunctionModel::Builtin(BuiltinFunction::Log))
}

/// The record that `log` writes for `args`.
pub open spec fn log_record(
    cells: Seq<Option<CellModel>>,
    args: Seq<MemPointer>,
    render: spec_fn(Number) -> Seq<char>,
) -> LogModel {
    LogModel {
        kind: LogKind::Log,
        source: LogSource::Unset,
        text: spec_join(arg_texts(cells, args, render)),
    }
}

/// The record that is written for an instruction that is passed over.
pub open spec fn skip_record(ins: InstrModel) -> LogModel {
    LogModel {
        kind: LogKind::Warn,
        source: LogSource::Rtr,
        text: "couldnt run instruction '"@ + spec_instruction_name(ins) + "'"@,
    }
}

/// True for the instructions that the machine runs.
pub open spec fn is_run(ins: InstrModel) -> bool {
    ins is Call || ins is Unary || ins is Binary || ins is Str || ins is Num || ins is Percentage
        || ins is Get || ins is Decl || ins is Pop
}

impl MachineModel {
    /// The place `depth` below the top of the stack.
    pub open spec fn peek(self, depth: int) -> MemPointer
        recommends
            0 <= depth < self.stack.len(),
    {
        self.stack[self.stack.len() - 1 - depth]
    }

    /// The state with `val` stored in a new cell whose place is pushed.
    pub open spec fn push_value(self, val: ValueModel) -> MachineModel {
        MachineModel {
            stack: self.stack.push(spec_alloc_ptr(self.memory)),
            scope: self.scope,
            memory: spec_alloc(self.memory, val),
            output: self.output,
        }
    }

    /// True when the state allows the instruction: the stack holds the
    /// operands, and each place that is read or gains a reference is live,
    /// with room for the reference.
    pub open spec fn can_step(self, ins: InstrModel) -> bool {
        match ins {
            InstrModel::Call(argc) => {
                &&& self.stack.len() > argc
                &&& live(self.memory, self.peek(argc as int))
                &&& cell_at(self.memory, self.peek(argc as int)).refs < usize::MAX
                &&& is_log(cell_at(self.memory, self.peek(argc as int)).val) ==> all_live(
                    self.memory,
                    self.stack.subrange(self.stack.len() - argc, self.stack.len() as int),
                )
            },
            InstrModel::Unary(_) => self.stack.len() >= 1 && live(self.memory, self.peek(0)),
            InstrModel::Binary(_) => {
                &&& self.stack.len() >= 2
                &&& live(self.memory, self.peek(0))
                &&& live(self.memory, self.peek(1))
            },
            InstrModel::Decl(_) => {
                &&& self.stack.len() >= 1
                &&& self.scope.len() >= 1
                &&& live(self.memory, self.peek(0))
                &&& cell_at(self.memory, self.peek(0)).refs < usize::MAX
            },
            InstrModel::Pop => self.stack.len() >= 1,
            _ => true,
        }
    }

    /// The state after a call with `argc` arguments, and the error if the
    /// callee is no function of the host.
    ///
    /// The arguments are the top `argc` places, the callee lies below them;
    /// all leave the stack. The callee holds one more reference while it is
    /// called. `log` writes one record, the texts of its arguments with
    /// spaces between, and its result, null, is pushed. Then, whether the
    /// call went through or not, the callee loses that reference and is
    /// released, and each argument is released.
    pub open spec fn call(self, k: Kernel, argc: int) -> Outcome {
        let n = self.stack.len() as int;
        let args = self.stack.subrange(n - argc, n);
        let callee = self.peek(argc);
        let base = self.stack.take(n - argc - 1);
        let val = cell_at(self.memory, callee).val;
        let held = spec_add_ref(self.memory, callee);
        if is_log(val) {
            let stored = spec_alloc(held, ValueModel::Null);
            Outcome::Next(
                MachineModel {
                    stack: base.push(spec_alloc_ptr(held)),
                    scope: self.scope,
                    memory: spec_free_all(spec_free(spec_rm_ref(stored, callee), callee), args),
                    output: self.output.push(log_record(held, args, k.render)),
                },
            )
        } else {
            Outcome::Abort(
                MachineModel {
                    stack: base,
                    scope: self.scope,
                    memory: spec_free_all(spec_free(spec_rm_ref(held, callee), callee), args),
                    output: self.output,
                },
                ErrorModel::CannotCall { func: val.to_text(k.render) },
            )
        }
    }

    /// The state after one instruction that the state allows.
    ///
    /// A literal is stored in a new cell whose place is pushed. `Get`
    /// pushes the place that the name stands for, or that of a new null
    /// where it stands for none. `Decl` sets the name to the top value,
    /// which gains one reference, while the value that the name stood for
    /// loses one and is released; the place stays on the stack. `Pop` takes the
    /// top place and releases it. An operator takes its operands from the
    /// stack, stores its result in a new cell whose place is pushed, and
    /// releases the operands, the right one first. An instruction that the
    /// machine does not run writes a record and changes nothing else.
    pub open spec fn step(self, k: Kernel, ins: InstrModel) -> Outcome {
        let n = self.stack.len() as int;
        match ins {
            InstrModel::Str(s) => Outcome::Next(self.push_value(ValueModel::Str { data: s })),
            InstrModel::Num(x) => Outcome::Next(self.push_value(ValueModel::Num { data: x })),
            InstrModel::Percentage(x) => Outcome::Next(
                self.push_value(ValueModel::Percentage { data: x }),
            ),
            InstrModel::Get(name) => match spec_get_var(self.scope, name) {
                Some(ptr) => Outcome::Next(
                    MachineModel {
                        stack: self.stack.push(ptr),
                        scope: self.scope,
                        memory: self.memory,
                        output: self.output,
                    },
                ),
                None => Outcome::Next(self.push_value(ValueModel::Null)),
            },
            InstrModel::Decl(name) => Outcome::Next(
                MachineModel {
                    stack: self.stack,
                    scope: spec_set_var(self.scope, name, self.peek(0)),
                    memory: spec_set_var_memory(self.scope, self.memory, name, self.peek(0)),
                    output: self.output,
                },
            ),
            InstrModel::Pop => Outcome::Next(
                MachineModel {
                    stack: self.stack.drop_last(),
                    scope: self.scope,
                    memory: spec_free(self.memory, self.peek(0)),
                    output: self.output,
                },
            ),
            InstrModel::Unary(op) => {
                let result = unary_value(op, cell_at(self.memory, self.peek(0)).val);
                Outcome::Next(
                    MachineModel {
                        stack: self.stack.drop_last().push(spec_alloc_ptr(self.memory)),
                        scope: self.scope,
                        memory: spec_free(spec_alloc(self.memory, result), self.peek(0)),
                        output: self.output,
                    },
                )
            },
            InstrModel::Binary(op) => {
                let result = binary_value(
                    k,
                    op,
                    cell_at(self.memory, self.peek(1)).val,
                    cell_at(self.memory, self.peek(0)).val,
                );
                Outcome::Next(
                    MachineModel {
                        stack: self.stack.take(n - 2).push(spec_alloc_ptr(self.memory)),
                        scope: self.scope,
                        memory: spec_free(
                            spec_free(spec_alloc(self.memory, result), self.peek(0)),
                            self.peek(1),
                        ),
                        output: self.output,
                    },
                )
            },
            InstrModel::Call(argc) => self.call(k, argc as int),
            _ => Outcome::Next(
                MachineModel {
                    stack: self.stack,
                    scope: self.scope,
                    memory: self.memory,
                    output: self.output.push(skip_record(ins)),
                },
            ),
        }
    }

    /// How a run of `instructions` from this state ends: each instruction
    /// is stepped in turn; the run is given up at the first error, and is
    /// at fault at the first instruction that its state does not allow.
    pub open spec fn run(self, k: Kernel, instructions: Seq<InstrModel>) -> Outcome
        decreases instructions.len(),
    {
        if instructions.len() == 0 {
            Outcome::Next(self)
        } else {
            match self.run(k, instructions.drop_last()) {
                Outcome::Next(m) => if m.can_step(instructions.last()) {
                    m.step(k, instructions.last())
                } else {
                    Outcome::Fault
                },
                other => other,
            }
        }
    }

    /// How a run of `instructions` from this state ends when each
    /// instruction is looked at before it is stepped: the run stops before
    /// the first instruction that its state does not allow.
    pub open spec fn run_checked(self, k: Kernel, instructions: Seq<InstrModel>) -> Checked
        decreases instructions.len(),
    {
        if instructions.len() == 0 {
            Checked::Through(self)
        } else {
            match self.run_checked(k, instructions.drop_last()) {
                Checked::Through(m) => if m.can_step(instructions.last()) {
                    match m.step(k, instructions.last()) {
                        Outcome::Next(after) => Checked::Through(after),
                        Outcome::Abort(after, e) => Checked::Given(after, e),
                        Outcome::Fault => Checked::Stopped(m),
                    }
                } else {
                    Checked::Stopped(m)
                },
                other => other,
            }
        }
    }

    /// How running several handlers from this state, one after the other
    /// and each with a look at every instruction, ends. The first error and
    /// the first stop give up the rest.
    pub open spec fn run_all_checked(self, k: Kernel, handlers: Seq<Seq<InstrModel>>) -> Checked
        decreases handlers.len(),
    {
        if handlers.len() == 0 {
            Checked::Through(self)
        } else {
            match self.run_all_checked(k, handlers.drop_last()) {
                Checked::Through(m) => m.new_scope().run_checked(k, handlers.last()),
                other => other,
            }
        }
    }

    /// The state at the start of a handler: a new innermost layer is
    /// opened, and binds `log` to a new cell that holds the host's function
    /// of that name, with one reference.
    pub open spec fn new_scope(self) -> MachineModel {
        let opened = self.scope.push(Seq::empty());
        let stored = spec_alloc(
            self.memory,
            ValueModel::Function(FunctionModel::Builtin(BuiltinFunction::Log)),
        );
        let ptr = spec_alloc_ptr(self.memory);
        MachineModel {
            stack: self.stack,
            scope: spec_decl_var(opened, "log"@, ptr),
            memory: spec_add_ref(stored, ptr),
            output: self.output,
        }
    }

    /// How running a handler's instructions from this state ends.
    pub open spec fn run_instructions(self, k: Kernel, instructions: Seq<InstrModel>) -> Outcome {
        self.new_scope().run(k, instructions)
    }

    /// How running several handlers from this state, one after the other,
    /// ends. The first error gives up the rest.
    pub open spec fn run_all(self, k: Kernel, handlers: Seq<Seq<InstrModel>>) -> Outcome
        decreases handlers.len(),
    {
        if handlers.len() == 0 {
            Outcome::Next(self)
        } else {
            match self.run_all(k, handlers.drop_last()) {
                Outcome::Next(m) => m.run_instructions(k, handlers.last()),
                other => other,
            }
        }
    }
}

/// A run that did not go through ends as its first part that did not.
pub proof fn lemma_run_prefix(m: MachineModel, k: Kernel, instructions: Seq<InstrModel>, i: int)
    requires
        0 <= i <= instructions.len(),
        !(m.run(k, instructions.take(i)) is Next),
    ensures
        m.run(k, instructions) == m.run(k, instructions.take(i)),
    decreases instructions.len(),
{
    if i == instructions.len() {
        assert(instructions.take(i) =~= instructions);
    } else {
        assert(instructions.drop_last().take(i) =~= instructions.take(i));
        lemma_run_prefix(m, k, instructions.drop_last(), i);
    }
}

/// Several handlers that did not all go through end as the first of them
/// that did not.
pub proof fn lemma_run_all_prefix(
    m: MachineModel,
    k: Kernel,
    handlers: Seq<Seq<InstrModel>>,
    i: int,
)
    requires
        0 <= i <= handlers.len(),
        !(m.run_all(k, handlers.take(i)) is Next),
    ensures
        m.run_all(k, handlers) == m.run_all(k, handlers.take(i)),
    decreases handlers.len(),
{
    if i == handlers.len() {
        assert(handlers.take(i) =~= handlers);
    } else {
        assert(handlers.drop_last().take(i) =~= handlers.take(i));
        lemma_run_all_prefix(m, k, handlers.drop_last(), i);
    }
}

/// A run with a look at every instruction ends as the run without, but
/// for the state that it stops in.
pub proof fn lemma_checked_agrees(m: MachineModel, k: Kernel, instructions: Seq<InstrModel>)
    ensures
        m.run_checked(k, instructions).outcome() == m.run(k, instructions),
    decreases instructions.len(),
{
    if instructions.len() > 0 {
        lemma_checked_agrees(m, k, instructions.drop_last());
    }
}

/// The same for several handlers.
pub proof fn lemma_all_checked_agrees(m: MachineModel, k: Kernel, handlers: Seq<Seq<InstrModel>>)
    ensures
        m.run_all_checked(k, handlers).outcome() == m.run_all(k, handlers),
    decreases handlers.len(),
{
    if handlers.len() > 0 {
        lemma_all_checked_agrees(m, k, handlers.drop_last());
        match m.run_all_checked(k, handlers.drop_last()) {
            Checked::Through(mid) => {
                lemma_checked_agrees(mid.new_scope(), k, handlers.last());
            },
            _ => {},
        }
    }
}

/// A checked run that did not go through ends as its first part that did
/// not.
pub proof fn lemma_checked_prefix(
    m: MachineModel,
    k: Kernel,
    instructions: Seq<InstrModel>,
    i: int,
)
    requires
        0 <= i <= instructions.len(),
        !(m.run_checked(k, instructions.take(i)) is Through),
    ensures
        m.run_checked(k, instructions) == m.run_checked(k, instructions.take(i)),
    decreases instructions.len(),
{
    if i == instructions.len() {
        assert(instructions.take(i) =~= instructions);
    } else {
        assert(instructions.drop_last().take(i) =~= instructions.take(i));
        lemma_checked_prefix(m, k, instructions.drop_last(), i);
    }
}

/// The same for several handlers.
pub proof fn lemma_all_checked_prefix(
    m: MachineModel,
    k: Kernel,
    handlers: Seq<Seq<InstrModel>>,
    i: int,
)
    requires
        0 <= i <= handlers.len(),
        !(m.run_all_checked(k, handlers.take(i)) is Through),
    ensures
        m.run_all_checked(k, handlers) == m.run_all_checked(k, handlers.take(i)),
    decreases handlers.len(),
{
    if i == handlers.len() {
        assert(handlers.take(i) =~= handlers);
    } else {
        assert(handlers.drop_last().take(i) =~= handlers.take(i));
        lemma_all_checked_prefix(m, k, handlers.drop_last(), i);
    }
}

} // verus!
