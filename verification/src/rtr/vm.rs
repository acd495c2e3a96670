use crate::rtr::ast::node::{
    AstProgram, AstStatement, AstTopLevelStatement, BinaryOp, EventModel, EventTarget,
    EventTargetModel, UnaryOp,
};
use crate::rtr::ast::grammar::parse_program;
use crate::rtr::ast::lexer::{spec_tokenise, tokenise};
use crate::rtr::ast::parser::Parser;
use crate::rtr::runtime::compiler::{compile_statements, spec_compile_statements};
use crate::rtr::runtime::machine::{
    lemma_all_checked_prefix, lemma_checked_prefix, lemma_run_all_prefix, lemma_run_prefix, Checked,
};
use crate::rtr::error::{Error, ErrorModel};
use crate::rtr::number::Number;
use crate::rtr::runtime::instruction::{instruction_models, InstrModel, VmInstruction};
use crate::rtr::runtime::kernel::{apply_arith, arith_ok, kernel_of, render_of, render_ok, Kernel};
use crate::rtr::runtime::machine::{
    all_live, arg_texts, binary_value, both_numbers, is_log, log_record, skip_record,
    spec_free_all, spec_join, unary_value, MachineModel, Outcome,
};
use crate::rtr::runtime::memory::{
    cell_at, live, spec_alloc, spec_alloc_ptr, CellModel, MemPointer, Memory,
};
use crate::rtr::runtime::scope::Scope;
use crate::rtr::runtime::value::{BuiltinFunction, Function, Value, ValueModel};
use crate::shared::logging::{log_models, Log, LogKind, LogModel, LogSource};
use vstd::prelude::*;
use vstd::string::StringExecFns;

verus! {

/// The result of an operator with one operand.
pub fn run_unary_op(val: &Value, op: &UnaryOp) -> (out: Value)
    ensures
        out@ == unary_value(*op, val@),
{
    match op {
        UnaryOp::Minus => Value::Num { data: val.to_number().negate() },
        UnaryOp::Number => Value::Num { data: val.to_number() },
        UnaryOp::Invert => Value::Bool { data: !val.to_bool() },
        UnaryOp::Boolify => Value::Bool { data: val.to_bool() },
    }
}

fn get_num(left_val: &Value, right_val: &Value) -> (out: Option<(Number, Number)>)
    ensures
        out is Some == both_numbers(left_val@, right_val@),
        out matches Some(pair) ==> pair.0 == left_val@->Num_data && pair.1 == right_val@->Num_data,
{
    match (left_val, right_val) {
        (Value::Num { data: left }, Value::Num { data: right }) => Some((*left, *right)),
        _ => None,
    }
}

/// The result of an operator with two operands; `arith` computes the
/// arithmetic on two numbers and `render` the text of a number.
pub fn run_binary_op<A: Fn(BinaryOp, Number, Number) -> Number, R: Fn(Number) -> String>(
    left_val: &Value,
    right_val: &Value,
    op: &BinaryOp,
    arith: &A,
    render: &R,
) -> (out: Value)
    requires
        arith_ok(arith),
        render_ok(render),
    ensures
        out@ == binary_value(kernel_of(arith, render), *op, left_val@, right_val@),
{
    let nums = get_num(left_val, right_val);
    match op {
        BinaryOp::Add => match nums {
            Some((left, right)) => Value::Num { data: apply_arith(arith, *op, left, right) },
            None => {
                let mut text = left_val.to_text(render);
                let right = right_val.to_text(render);
                text.append(right.as_str());
                Value::Str { data: text }
            },
        },
        BinaryOp::Sub | BinaryOp::Mul | BinaryOp::Div | BinaryOp::Mod | BinaryOp::Pow => match nums {
            Some((left, right)) => Value::Num { data: apply_arith(arith, *op, left, right) },
            None => Value::Num { data: Number::nan() },
        },
        BinaryOp::NullishCoalescence => match left_val {
            Value::Null => right_val.copy(),
            _ => left_val.copy(),
        },
        BinaryOp::Eql => match nums {
            Some((left, right)) => Value::Bool { data: left.equals(right) },
            None => Value::Bool { data: false },
        },
        BinaryOp::NotEql => match nums {
            Some((left, right)) => Value::Bool { data: !left.equals(right) },
            None => Value::Bool { data: false },
        },
        BinaryOp::Bigger => match nums {
            Some((left, right)) => Value::Bool { data: right.less(left) },
            None => Value::Bool { data: false },
        },
        BinaryOp::Smaller => match nums {
            Some((left, right)) => Value::Bool { data: left.less(right) },
            None => Value::Bool { data: false },
        },
        BinaryOp::BiggerEql => match nums {
            Some((left, right)) => Value::Bool { data: right.less(left) || left.equals(right) },
            None => Value::Bool { data: false },
        },
        BinaryOp::SmallerEql => match nums {
            Some((left, right)) => Value::Bool { data: left.less(right) || left.equals(right) },
            None => Value::Bool { data: false },
        },
    }
}

/// Releases each of `ptrs`, in order.
pub fn free_all(memory: &mut Memory, ptrs: &Vec<MemPointer>)
    ensures
        final(memory)@ == spec_free_all(old(memory)@, ptrs@),
{
    let ghost start = memory@;
    let mut i: usize = 0;
    assert(ptrs@.skip(0) =~= ptrs@);
    while i < ptrs.len()
        invariant
            0 <= i <= ptrs@.len(),
            spec_free_all(memory@, ptrs@.skip(i as int)) == spec_free_all(start, ptrs@),
        decreases ptrs@.len() - i,
    {
        proof {
            assert(ptrs@.skip(i as int).drop_first() =~= ptrs@.skip(i + 1));
        }
        memory.free(ptrs[i]);
        i += 1;
    }
}

/// The line that `log` writes for `args`: the texts of their values with
/// one space between each two.
pub fn log_line<R: Fn(Number) -> String>(memory: &Memory, args: &Vec<MemPointer>, render: &R) -> (line:
    String)
    requires
        render_ok(render),
        all_live(memory@, args@),
    ensures
        line@ == spec_join(arg_texts(memory@, args@, render_of(render))),
{
    let ghost texts = arg_texts(memory@, args@, render_of(render));
    let mut line = String::new();
    let mut i: usize = 0;
    assert(texts.take(0) =~= Seq::<Seq<char>>::empty());
    while i < args.len()
        invariant
            0 <= i <= args@.len(),
            render_ok(render),
            all_live(memory@, args@),
            texts == arg_texts(memory@, args@, render_of(render)),
            line@ == spec_join(texts.take(i as int)),
        decreases args@.len() - i,
    {
        let text = memory.get(args[i]).to_text(render);
        proof {
            assert(texts.take(i + 1).drop_last() =~= texts.take(i as int));
            assert(texts.take(i + 1).last() == texts[i as int]);
            assert(text@ == texts[i as int]);
        }
        if i > 0 {
            line.append(" ");
        } else {
            assert(line@ =~= Seq::<char>::empty());
            assert(Seq::<char>::empty() + text@ =~= text@);
        }
        line.append(text.as_str());
        i += 1;
    }
    assert(texts.take(texts.len() as int) =~= texts);
    line
}

impl Value {
    /// Calls the value with the arguments at `args`. `log` writes a record
    /// to `output` and gives a new null; a value that is no function of the
    /// host cannot be called.
    pub fn call<R: Fn(Number) -> String>(
        &self,
        memory: &mut Memory,
        args: &Vec<MemPointer>,
        output: &mut Vec<Log>,
        render: &R,
    ) -> (out: Result<MemPointer, Error>)
        requires
            render_ok(render),
            is_log(self@) ==> all_live(old(memory)@, args@),
        ensures
            is_log(self@) ==> {
                &&& out == Ok::<MemPointer, Error>(spec_alloc_ptr(old(memory)@))
                &&& final(memory)@ == spec_alloc(old(memory)@, ValueModel::Null)
                &&& log_models(final(output)@) == log_models(old(output)@).push(
                    log_record(old(memory)@, args@, render_of(render)),
                )
            },
            !is_log(self@) ==> {
                &&& out is Err
                &&& out->Err_0@ == (ErrorModel::CannotCall {
                    func: self@.to_text(render_of(render)),
                })
                &&& final(memory)@ == old(memory)@
                &&& log_models(final(output)@) == log_models(old(output)@)
            },
    {
        match self {
            Value::Function(Function::Builtin(BuiltinFunction::Log)) => {
                let line = log_line(memory, args, render);
                let ghost before = log_models(output@);
                output.push(Log { kind: LogKind::Log, source: LogSource::Unset, text: line });
                assert(log_models(output@) =~= before.push(
                    log_record(old(memory)@, args@, render_of(render)),
                ));
                Ok(memory.allocate(Value::Null))
            },
            _ => Err(Error::CannotCall { func: self.to_text(render) }),
        }
    }
}

/// The indices of the events of a script that are bound to `target`, in
/// rising order.
pub open spec fn eligible(events: Seq<EventModel>, target: EventTargetModel) -> Seq<int>
    decreases events.len(),
{
    if events.len() == 0 {
        Seq::empty()
    } else if events.last().target == target {
        eligible(events.drop_last(), target).push(events.len() - 1)
    } else {
        eligible(events.drop_last(), target)
    }
}

/// The instructions of the handlers that `picked` names.
pub open spec fn handlers(events: Seq<EventModel>, picked: Seq<int>) -> Seq<Seq<InstrModel>> {
    Seq::new(picked.len(), |i: int| spec_compile_statements(events[picked[i]].body))
}

/// The events of a script, if one was read.
pub open spec fn events_of(ast: Option<AstProgram>) -> Seq<EventModel> {
    match ast {
        Some(program) => program@,
        None => Seq::empty(),
    }
}

/// Every index that [`eligible`] gives is one of an event.
pub proof fn lemma_eligible_bounds(events: Seq<EventModel>, target: EventTargetModel)
    ensures
        forall|i: int|
            0 <= i < eligible(events, target).len() ==> 0 <= #[trigger] eligible(events, target)[i]
                < events.len(),
    decreases events.len(),
{
    if events.len() > 0 {
        lemma_eligible_bounds(events.drop_last(), target);
        let rest = eligible(events.drop_last(), target);
        let all = eligible(events, target);
        assert forall|i: int| 0 <= i < all.len() implies 0 <= #[trigger] all[i] < events.len() by {
            if i < rest.len() {
                assert(all[i] == rest[i]);
            }
        }
    }
}

/// The engine: a parsed script, if one was read, and the state of the
/// stack machine that runs its handlers.
#[derive(Debug)]
pub struct RTRInstance {
    pub ast: Option<AstProgram>,
    pub stack: Vec<MemPointer>,
    pub scope: Scope,
    pub memory: Memory,
    /// The records that running handlers wrote, oldest first.
    pub output: Vec<Log>,
}

impl View for RTRInstance {
    type V = MachineModel;

    open spec fn view(&self) -> MachineModel {
        MachineModel {
            stack: self.stack@,
            scope: self.scope@,
            memory: self.memory@,
            output: log_models(self.output@),
        }
    }
}

impl RTRInstance {
    /// An engine without a script: nothing on the stack, one empty layer
    /// of names, no cell, no record.
    pub fn new() -> (inst: RTRInstance)
        ensures
            inst.ast is None,
            inst@.stack == Seq::<MemPointer>::empty(),
            inst@.scope == seq![Seq::<crate::rtr::runtime::value::EntryModel>::empty()],
            inst@.memory == Seq::<Option<CellModel>>::empty(),
            inst@.output == Seq::<LogModel>::empty(),
    {
        let inst = RTRInstance {
            ast: None,
            stack: Vec::new(),
            scope: Scope::new(),
            memory: Memory::new(),
            output: Vec::new(),
        };
        assert(inst@.output =~= Seq::<LogModel>::empty());
        inst
    }

    fn set_alloc(&mut self, name: &str, value: Value)
        requires
            old(self)@.scope.len() > 0,
        ensures
            final(self).ast == old(self).ast,
            final(self)@ == (MachineModel {
                stack: old(self)@.stack,
                scope: crate::rtr::runtime::scope::spec_decl_var(
                    old(self)@.scope,
                    name@,
                    spec_alloc_ptr(old(self)@.memory),
                ),
                memory: crate::rtr::runtime::memory::spec_add_ref(
                    spec_alloc(old(self)@.memory, value@),
                    spec_alloc_ptr(old(self)@.memory),
                ),
                output: old(self)@.output,
            }),
    {
        let ptr = self.memory.allocate(value);
        self.memory.add_ref(ptr);
        self.scope.decl_var(String::from_str(name), ptr);
    }

    /// Prepares the state for a handler: opens a new innermost layer and
    /// binds `log` in it to the host's function of that name.
    pub fn new_scope(&mut self)
        ensures
            final(self).ast == old(self).ast,
            final(self)@ == old(self)@.new_scope(),
    {
        self.scope.new_layer();
        self.set_alloc("log", Value::Function(Function::Builtin(BuiltinFunction::Log)));
    }

    fn pop_stack_raw(&mut self) -> (out: Option<MemPointer>)
        ensures
            final(self).ast == old(self).ast,
            old(self)@.stack.len() == 0 ==> out is None && final(self)@ == old(self)@,
            old(self)@.stack.len() > 0 ==> out == Some(old(self)@.peek(0)) && final(self)@ == (
            MachineModel { stack: old(self)@.stack.drop_last(), ..old(self)@ }),
    {
        self.stack.pop()
    }

    fn pop_stack_ptr(&mut self) -> (ptr: MemPointer)
        requires
            old(self)@.stack.len() > 0,
        ensures
            final(self).ast == old(self).ast,
            ptr == old(self)@.peek(0),
            final(self)@ == (MachineModel { stack: old(self)@.stack.drop_last(), ..old(self)@ }),
    {
        self.pop_stack_raw().unwrap()
    }

    fn pop_stack(&mut self) -> (out: (&Value, MemPointer))
        requires
            old(self)@.stack.len() > 0,
            live(old(self)@.memory, old(self)@.peek(0)),
        ensures
            final(self).ast == old(self).ast,
            out.1 == old(self)@.peek(0),
            out.0@ == cell_at(old(self)@.memory, old(self)@.peek(0)).val,
            final(self)@ == (MachineModel { stack: old(self)@.stack.drop_last(), ..old(self)@ }),
    {
        let ptr = self.pop_stack_ptr();
        (self.memory.get(ptr), ptr)
    }

    fn push_stack_ptr(&mut self, val: MemPointer)
        ensures
            final(self).ast == old(self).ast,
            final(self)@ == (MachineModel { stack: old(self)@.stack.push(val), ..old(self)@ }),
    {
        self.stack.push(val);
    }

    fn push_stack_alloc(&mut self, val: Value)
        ensures
            final(self).ast == old(self).ast,
            final(self)@ == old(self)@.push_value(val@),
    {
        let ptr = self.memory.allocate(val);
        self.push_stack_ptr(ptr);
    }

    /// True when the state allows the instruction.
    #[verifier::loop_isolation(false)]
    pub fn can_step(&self, ins: &VmInstruction) -> (b: bool)
        ensures
            b == self@.can_step(ins@),
    {
        let n = self.stack.len();
        match ins {
            VmInstruction::Call(argc) => {
                let argc = *argc;
                if n <= argc {
                    return false;
                }
                let callee = self.stack[n - 1 - argc];
                if !self.memory.has_cell(callee) {
                    return false;
                }
                if self.memory.get_cell(callee).refs == usize::MAX {
                    return false;
                }
                match self.memory.get(callee) {
                    Value::Function(Function::Builtin(BuiltinFunction::Log)) => {
                        let ghost args = self.stack@.subrange(n - argc, n as int);
                        let mut i: usize = n - argc;
                        while i < n
                            invariant
                                n - argc <= i <= n,
                                forall|j: int|
                                    0 <= j < i - (n - argc) ==> live(
                                        self.memory@,
                                        #[trigger] args[j],
                                    ),
                            decreases n - i,
                        {
                            if !self.memory.has_cell(self.stack[i]) {
                                assert(!live(self.memory@, args[i - (n - argc)]));
                                return false;
                            }
                            i += 1;
                        }
                        true
                    },
                    _ => true,
                }
            },
            VmInstruction::Unary(_) => n >= 1 && self.memory.has_cell(self.stack[n - 1]),
            VmInstruction::Binary(_) => n >= 2 && self.memory.has_cell(self.stack[n - 1])
                && self.memory.has_cell(self.stack[n - 2]),
            VmInstruction::Decl(_) => n >= 1 && self.scope.layers.len() >= 1
                && self.memory.has_cell(self.stack[n - 1]) && self.memory.get_cell(
                self.stack[n - 1],
            ).refs < usize::MAX,
            VmInstruction::Pop => n >= 1,
            _ => true,
        }
    }

    fn call_instruction<R: Fn(Number) -> String>(&mut self, argc: usize, render: &R) -> (out: Result<
        (),
        Error,
    >)
        requires
            render_ok(render),
            old(self)@.can_step(InstrModel::Call(argc)),
        ensures
            final(self).ast == old(self).ast,
            forall|k: Kernel|
                k.render == render_of(render) ==> match #[trigger] old(self)@.call(k, argc as int) {
                    Outcome::Next(m) => out is Ok && final(self)@ == m,
                    Outcome::Abort(m, e) => out is Err && out->Err_0@ == e && final(self)@ == m,
                    Outcome::Fault => false,
                },
    {
        let n = self.stack.len();
        let ghost before = self@;
        let args = self.stack.split_off(n - argc);
        assert(args@ =~= before.stack.subrange(n - argc, n as int));
        let func_ptr = self.pop_stack_ptr();
        assert(self@.stack =~= before.stack.take(n - argc - 1));
        self.memory.add_ref(func_ptr);
        let func_val = self.memory.get(func_ptr).copy();
        assert(func_val@ == cell_at(before.memory, func_ptr).val);
        assert(is_log(func_val@) ==> all_live(self.memory@, args@)) by {
            if is_log(func_val@) {
                assert forall|i: int| 0 <= i < args@.len() implies live(
                    self.memory@,
                    #[trigger] args@[i],
                ) by {
                    assert(live(before.memory, args@[i]));
                }
            }
        }
        let called = func_val.call(&mut self.memory, &args, &mut self.output, render);
        match called {
            Ok(out_ptr) => {
                self.stack.push(out_ptr);
                self.memory.rm_ref(func_ptr);
                self.memory.free(func_ptr);
                free_all(&mut self.memory, &args);
                Ok(())
            },
            Err(e) => {
                self.memory.rm_ref(func_ptr);
                self.memory.free(func_ptr);
                free_all(&mut self.memory, &args);
                Err(e)
            },
        }
    }

    fn unary_instruction(&mut self, op: &UnaryOp)
        requires
            old(self)@.can_step(InstrModel::Unary(*op)),
        ensures
            final(self).ast == old(self).ast,
            forall|k: Kernel|
                #[trigger] old(self)@.step(k, InstrModel::Unary(*op)) == Outcome::Next(final(self)@),
    {
        let (right_val, right_ptr) = self.pop_stack();
        let result = run_unary_op(right_val, op);
        self.push_stack_alloc(result);
        self.memory.free(right_ptr);
    }

    fn binary_instruction<A: Fn(BinaryOp, Number, Number) -> Number, R: Fn(Number) -> String>(
        &mut self,
        op: &BinaryOp,
        arith: &A,
        render: &R,
    )
        requires
            arith_ok(arith),
            render_ok(render),
            old(self)@.can_step(InstrModel::Binary(*op)),
        ensures
            final(self).ast == old(self).ast,
            old(self)@.step(kernel_of(arith, render), InstrModel::Binary(*op)) == Outcome::Next(
                final(self)@,
            ),
    {
        let ghost before = self@;
        let right_ptr = self.pop_stack_ptr();
        let left_ptr = self.pop_stack_ptr();
        assert(self@.stack =~= before.stack.take(before.stack.len() - 2));
        let result = run_binary_op(
            self.memory.get(left_ptr),
            self.memory.get(right_ptr),
            op,
            arith,
            render,
        );
        self.push_stack_alloc(result);
        self.memory.free(right_ptr);
        self.memory.free(left_ptr);
    }

    fn get_instruction(&mut self, name: &String)
        ensures
            final(self).ast == old(self).ast,
            forall|k: Kernel|
                #[trigger] old(self)@.step(k, InstrModel::Get(name@)) == Outcome::Next(final(self)@),
    {
        match self.scope.get_var(name.as_str()) {
            Some(ptr) => {
                self.push_stack_ptr(ptr);
            },
            None => {
                self.push_stack_alloc(Value::Null);
            },
        }
    }

    fn decl_instruction(&mut self, name: &String)
        requires
            old(self)@.can_step(InstrModel::Decl(name@)),
        ensures
            final(self).ast == old(self).ast,
            forall|k: Kernel|
                #[trigger] old(self)@.step(k, InstrModel::Decl(name@)) == Outcome::Next(final(self)@),
    {
        let ghost before = self@;
        let ptr = self.pop_stack_ptr();
        self.scope.set_var(&mut self.memory, name.clone(), ptr);
        self.push_stack_ptr(ptr);
        assert(self@.stack =~= before.stack);
    }

    fn pop_instruction(&mut self)
        requires
            old(self)@.can_step(InstrModel::Pop),
        ensures
            final(self).ast == old(self).ast,
            forall|k: Kernel| #[trigger] old(self)@.step(k, InstrModel::Pop) == Outcome::Next(final(self)@),
    {
        let ptr = self.pop_stack_ptr();
        self.memory.free(ptr);
    }

    fn skip_instruction(&mut self, ins: &VmInstruction)
        requires
            !crate::rtr::runtime::machine::is_run(ins@),
        ensures
            final(self).ast == old(self).ast,
            forall|k: Kernel| #[trigger] old(self)@.step(k, ins@) == Outcome::Next(final(self)@),
    {
        let mut text = String::from_str("couldnt run instruction '");
        text.append(ins.name());
        text.append("'");
        let ghost logged = log_models(self.output@);
        self.output.push(Log { kind: LogKind::Warn, source: LogSource::Rtr, text });
        assert(log_models(self.output@) =~= logged.push(skip_record(ins@)));
    }

    /// Runs one instruction.
    pub fn step<A: Fn(BinaryOp, Number, Number) -> Number, R: Fn(Number) -> String>(
        &mut self,
        ins: &VmInstruction,
        arith: &A,
        render: &R,
    ) -> (out: Result<(), Error>)
        requires
            arith_ok(arith),
            render_ok(render),
            old(self)@.can_step(ins@),
        ensures
            final(self).ast == old(self).ast,
            match old(self)@.step(kernel_of(arith, render), ins@) {
                Outcome::Next(m) => out is Ok && final(self)@ == m,
                Outcome::Abort(m, e) => out is Err && out->Err_0@ == e && final(self)@ == m,
                Outcome::Fault => false,
            },
    {
        let ghost k = kernel_of(arith, render);
        match ins {
            VmInstruction::Call(arg_count) => {
                assert(k.render == render_of(render));
                self.call_instruction(*arg_count, render)
            },
            VmInstruction::Unary(op) => {
                self.unary_instruction(op);
                Ok(())
            },
            VmInstruction::Binary(op) => {
                self.binary_instruction(op, arith, render);
                Ok(())
            },
            VmInstruction::Str(str) => {
                self.push_stack_alloc(Value::Str { data: str.clone() });
                Ok(())
            },
            VmInstruction::Num(num) => {
                self.push_stack_alloc(Value::Num { data: *num });
                Ok(())
            },
            VmInstruction::Percentage(num) => {
                self.push_stack_alloc(Value::Percentage { data: *num });
                Ok(())
            },
            VmInstruction::Get(name) => {
                self.get_instruction(name);
                Ok(())
            },
            VmInstruction::Decl(name) => {
                self.decl_instruction(name);
                Ok(())
            },
            VmInstruction::Pop => {
                self.pop_instruction();
                Ok(())
            },
            _ => {
                self.skip_instruction(ins);
                Ok(())
            },
        }
    }
}

impl RTRInstance {
    /// Runs the instructions of a handler: prepares the state with
    /// [`RTRInstance::new_scope`], then steps through the instructions. An
    /// error gives up the rest.
    pub fn run_instructions<A: Fn(BinaryOp, Number, Number) -> Number, R: Fn(Number) -> String>(
        &mut self,
        instructions: &[VmInstruction],
        arith: &A,
        render: &R,
    ) -> (out: Result<Option<Value>, Error>)
        requires
            arith_ok(arith),
            render_ok(render),
            !(old(self)@.run_instructions(
                kernel_of(arith, render),
                instruction_models(instructions@),
            ) is Fault),
        ensures
            final(self).ast == old(self).ast,
            match old(self)@.run_instructions(
                kernel_of(arith, render),
                instruction_models(instructions@),
            ) {
                Outcome::Next(m) => out is Ok && out->Ok_0 is None && final(self)@ == m,
                Outcome::Abort(m, e) => out is Err && out->Err_0@ == e && final(self)@ == m,
                Outcome::Fault => false,
            },
    {
        let ghost k = kernel_of(arith, render);
        let ghost all = instruction_models(instructions@);
        self.new_scope();
        let ghost start = self@;
        let mut i: usize = 0;
        assert(all.take(0) =~= Seq::<InstrModel>::empty());
        while i < instructions.len()
            invariant
                0 <= i <= instructions@.len(),
                arith_ok(arith),
                render_ok(render),
                k == kernel_of(arith, render),
                all == instruction_models(instructions@),
                self.ast == old(self).ast,
                start == old(self)@.new_scope(),
                !(start.run(k, all) is Fault),
                start.run(k, all.take(i as int)) == Outcome::Next(self@),
            decreases instructions@.len() - i,
        {
            proof {
                assert(all.take(i + 1).drop_last() =~= all.take(i as int));
                assert(all.take(i + 1).last() == instructions@[i as int]@);
                if !self@.can_step(instructions@[i as int]@) {
                    lemma_run_prefix(start, k, all, i + 1);
                }
            }
            match self.step(&instructions[i], arith, render) {
                Ok(()) => {},
                Err(e) => {
                    proof {
                        lemma_run_prefix(start, k, all, i + 1);
                    }
                    return Err(e);
                },
            }
            i += 1;
        }
        assert(all.take(all.len() as int) =~= all);
        Ok(None)
    }

    /// The indices of the events of the script that are bound to `target`,
    /// in rising order; none where no script was read.
    pub fn get_eligible(&self, target: &EventTarget) -> (picked: Vec<usize>)
        ensures
            picked@.len() == eligible(events_of(self.ast), target@).len(),
            forall|i: int|
                0 <= i < picked@.len() ==> (#[trigger] picked@[i]) as int == eligible(
                    events_of(self.ast),
                    target@,
                )[i],
            forall|i: int| 0 <= i < picked@.len() ==> (#[trigger] picked@[i]) < events_of(self.ast).len(),
    {
        let mut picked: Vec<usize> = Vec::new();
        match &self.ast {
            None => {},
            Some(program) => {
                let ghost events = program@;
                let mut i: usize = 0;
                assert(events.take(0) =~= Seq::<EventModel>::empty());
                while i < program.events.len()
                    invariant
                        0 <= i <= program.events@.len(),
                        events == program@,
                        picked@.len() == eligible(events.take(i as int), target@).len(),
                        forall|j: int|
                            0 <= j < picked@.len() ==> (#[trigger] picked@[j]) as int == eligible(
                                events.take(i as int),
                                target@,
                            )[j],
                    decreases program.events@.len() - i,
                {
                    proof {
                        assert(events.take(i + 1).drop_last() =~= events.take(i as int));
                        assert(events.take(i + 1).last() == events[i as int]);
                    }
                    match &program.events[i] {
                        AstTopLevelStatement::Event { target: ev_target, .. } => {
                            if ev_target.same(target) {
                                picked.push(i);
                            }
                        },
                    }
                    i += 1;
                }
                assert(events.take(events.len() as int) =~= events);
            },
        }
        proof {
            lemma_eligible_bounds(events_of(self.ast), target@);
        }
        picked
    }

    /// The instructions of a handler body.
    pub fn compile_event(&self, statement: &Vec<AstStatement>) -> (out: Result<
        Vec<VmInstruction>,
        Error,
    >)
        ensures
            out is Ok,
            instruction_models(out->Ok_0@) == spec_compile_statements(
                crate::rtr::ast::node::statement_models(statement@),
            ),
    {
        compile_statements(statement)
    }

    /// Compiles the handler of the event with the given index and runs it.
    pub fn run_event<A: Fn(BinaryOp, Number, Number) -> Number, R: Fn(Number) -> String>(
        &mut self,
        index: usize,
        arith: &A,
        render: &R,
    ) -> (out: Result<(), Error>)
        requires
            arith_ok(arith),
            render_ok(render),
            index < events_of(old(self).ast).len(),
            !(old(self)@.run_instructions(
                kernel_of(arith, render),
                spec_compile_statements(events_of(old(self).ast)[index as int].body),
            ) is Fault),
        ensures
            final(self).ast == old(self).ast,
            match old(self)@.run_instructions(
                kernel_of(arith, render),
                spec_compile_statements(events_of(old(self).ast)[index as int].body),
            ) {
                Outcome::Next(m) => out is Ok && final(self)@ == m,
                Outcome::Abort(m, e) => out is Err && out->Err_0@ == e && final(self)@ == m,
                Outcome::Fault => false,
            },
    {
        let compiled = match &self.ast {
            Some(program) => match &program.events[index] {
                AstTopLevelStatement::Event { body, .. } => self.compile_event(body),
            },
            None => Ok(Vec::new()),
        };
        let instructions = match compiled {
            Ok(instructions) => instructions,
            Err(e) => {
                return Err(e);
            },
        };
        match self.run_instructions(instructions.as_slice(), arith, render) {
            Ok(_) => Ok(()),
            Err(e) => Err(e),
        }
    }

    /// Runs every handler of the script that is bound to `target`, in the
    /// order in which the script declares them. The first error gives up
    /// the rest.
    pub fn run_event_target<A: Fn(BinaryOp, Number, Number) -> Number, R: Fn(Number) -> String>(
        &mut self,
        target: &EventTarget,
        arith: &A,
        render: &R,
    ) -> (out: Result<(), Error>)
        requires
            arith_ok(arith),
            render_ok(render),
            !(old(self)@.run_all(
                kernel_of(arith, render),
                handlers(
                    events_of(old(self).ast),
                    eligible(events_of(old(self).ast), target@),
                ),
            ) is Fault),
        ensures
            final(self).ast == old(self).ast,
            match old(self)@.run_all(
                kernel_of(arith, render),
                handlers(
                    events_of(old(self).ast),
                    eligible(events_of(old(self).ast), target@),
                ),
            ) {
                Outcome::Next(m) => out is Ok && final(self)@ == m,
                Outcome::Abort(m, e) => out is Err && out->Err_0@ == e && final(self)@ == m,
                Outcome::Fault => false,
            },
    {
        let ghost k = kernel_of(arith, render);
        let ghost events = events_of(self.ast);
        let ghost all = handlers(events, eligible(events, target@));
        let ghost start = self@;
        let picked = self.get_eligible(target);
        let mut i: usize = 0;
        assert(all.take(0) =~= Seq::<Seq<InstrModel>>::empty());
        while i < picked.len()
            invariant
                0 <= i <= picked@.len(),
                arith_ok(arith),
                render_ok(render),
                k == kernel_of(arith, render),
                self.ast == old(self).ast,
                events == events_of(self.ast),
                all == handlers(events, eligible(events, target@)),
                picked@.len() == all.len(),
                forall|j: int|
                    0 <= j < picked@.len() ==> (#[trigger] picked@[j]) as int == eligible(
                        events,
                        target@,
                    )[j],
                forall|j: int| 0 <= j < picked@.len() ==> (#[trigger] picked@[j]) < events.len(),
                start == old(self)@,
                !(start.run_all(k, all) is Fault),
                start.run_all(k, all.take(i as int)) == Outcome::Next(self@),
            decreases picked@.len() - i,
        {
            proof {
                assert(all.take(i + 1).drop_last() =~= all.take(i as int));
                assert(all.take(i + 1).last() == all[i as int]);
                if self@.run_instructions(k, all[i as int]) is Fault {
                    lemma_run_all_prefix(start, k, all, i + 1);
                }
            }
            match self.run_event(picked[i], arith, render) {
                Ok(()) => {},
                Err(e) => {
                    proof {
                        lemma_run_all_prefix(start, k, all, i + 1);
                    }
                    return Err(e);
                },
            }
            i += 1;
        }
        assert(all.take(all.len() as int) =~= all);
        Ok(())
    }
}

impl RTRInstance {
    /// Reads a script. Where it cannot be read the engine is left without
    /// a script, so that no handler is ever found, and the error is handed
    /// out. The state of the machine stays as it is.
    pub fn parse(&mut self, src: &str) -> (out: Result<(), Error>)
        ensures
            final(self)@ == old(self)@,
            match parse_program(spec_tokenise(src@)) {
                Ok(events) => out is Ok && final(self).ast is Some && final(self).ast->0@ == events,
                Err(e) => out is Err && out->Err_0@ == e && final(self).ast is None,
            },
    {
        let mut parser = Parser::new(tokenise(src));
        match parser.parse() {
            Ok(ast) => {
                self.ast = Some(ast);
                Ok(())
            },
            Err(err) => {
                self.ast = None;
                Err(err)
            },
        }
    }
}

/// True when `out` and the state `after` report the end `want` of a
/// checked run: `Ok(true)` where it went through, `Ok(false)` where it
/// stopped, the error where it was given up.
pub open spec fn reports(out: Result<bool, Error>, after: MachineModel, want: Checked) -> bool {
    match want {
        Checked::Through(m) => out == Ok::<bool, Error>(true) && after == m,
        Checked::Given(m, e) => out is Err && out->Err_0@ == e && after == m,
        Checked::Stopped(m) => out == Ok::<bool, Error>(false) && after == m,
    }
}

impl RTRInstance {
    /// Runs the instructions of a handler as
    /// [`RTRInstance::run_instructions`] does, but looks at each
    /// instruction first: before one that the state does not allow, the
    /// run stops, and `Ok(false)` is handed out.
    pub fn try_run_instructions<
        A: Fn(BinaryOp, Number, Number) -> Number,
        R: Fn(Number) -> String,
    >(&mut self, instructions: &[VmInstruction], arith: &A, render: &R) -> (out: Result<
        bool,
        Error,
    >)
        requires
            arith_ok(arith),
            render_ok(render),
        ensures
            final(self).ast == old(self).ast,
            reports(
                out,
                final(self)@,
                old(self)@.new_scope().run_checked(
                    kernel_of(arith, render),
                    instruction_models(instructions@),
                ),
            ),
    {
        let ghost k = kernel_of(arith, render);
        let ghost all = instruction_models(instructions@);
        self.new_scope();
        let ghost start = self@;
        let mut i: usize = 0;
        assert(all.take(0) =~= Seq::<InstrModel>::empty());
        while i < instructions.len()
            invariant
                0 <= i <= instructions@.len(),
                arith_ok(arith),
                render_ok(render),
                k == kernel_of(arith, render),
                all == instruction_models(instructions@),
                self.ast == old(self).ast,
                start == old(self)@.new_scope(),
                start.run_checked(k, all.take(i as int)) == Checked::Through(self@),
            decreases instructions@.len() - i,
        {
            proof {
                assert(all.take(i + 1).drop_last() =~= all.take(i as int));
                assert(all.take(i + 1).last() == instructions@[i as int]@);
            }
            if !self.can_step(&instructions[i]) {
                proof {
                    lemma_checked_prefix(start, k, all, i + 1);
                }
                return Ok(false);
            }
            match self.step(&instructions[i], arith, render) {
                Ok(()) => {},
                Err(e) => {
                    proof {
                        lemma_checked_prefix(start, k, all, i + 1);
                    }
                    return Err(e);
                },
            }
            i += 1;
        }
        assert(all.take(all.len() as int) =~= all);
        Ok(true)
    }

    /// Runs every handler of the script that is bound to `target` as
    /// [`RTRInstance::run_event_target`] does, but looks at each
    /// instruction first: before one that the state does not allow, the
    /// run stops, and `Ok(false)` is handed out.
    pub fn try_run_event_target<
        A: Fn(BinaryOp, Number, Number) -> Number,
        R: Fn(Number) -> String,
    >(&mut self, target: &EventTarget, arith: &A, render: &R) -> (out: Result<bool, Error>)
        requires
            arith_ok(arith),
            render_ok(render),
        ensures
            final(self).ast == old(self).ast,
            reports(
                out,
                final(self)@,
                old(self)@.run_all_checked(
                    kernel_of(arith, render),
                    handlers(
                        events_of(old(self).ast),
                        eligible(events_of(old(self).ast), target@),
                    ),
                ),
            ),
    {
        let ghost k = kernel_of(arith, render);
        let ghost events = events_of(self.ast);
        let ghost all = handlers(events, eligible(events, target@));
        let ghost start = self@;
        let picked = self.get_eligible(target);
        let mut i: usize = 0;
        assert(all.take(0) =~= Seq::<Seq<InstrModel>>::empty());
        while i < picked.len()
            invariant
                0 <= i <= picked@.len(),
                arith_ok(arith),
                render_ok(render),
                k == kernel_of(arith, render),
                self.ast == old(self).ast,
                events == events_of(self.ast),
                all == handlers(events, eligible(events, target@)),
                picked@.len() == all.len(),
                forall|j: int|
                    0 <= j < picked@.len() ==> (#[trigger] picked@[j]) as int == eligible(
                        events,
                        target@,
                    )[j],
                forall|j: int| 0 <= j < picked@.len() ==> (#[trigger] picked@[j]) < events.len(),
                start == old(self)@,
                start.run_all_checked(k, all.take(i as int)) == Checked::Through(self@),
            decreases picked@.len() - i,
        {
            proof {
                assert(all.take(i + 1).drop_last() =~= all.take(i as int));
                assert(all.take(i + 1).last() == all[i as int]);
            }
            let compiled = match &self.ast {
                Some(program) => match &program.events[picked[i]] {
                    AstTopLevelStatement::Event { body, .. } => self.compile_event(body),
                },
                None => Ok(Vec::new()),
            };
            let instructions = match compiled {
                Ok(instructions) => instructions,
                Err(e) => {
                    return Err(e);
                },
            };
            match self.try_run_instructions(instructions.as_slice(), arith, render) {
                Ok(true) => {},
                Ok(false) => {
                    proof {
                        lemma_all_checked_prefix(start, k, all, i + 1);
                    }
                    return Ok(false);
                },
                Err(e) => {
                    proof {
                        lemma_all_checked_prefix(start, k, all, i + 1);
                    }
                    return Err(e);
                },
            }
            i += 1;
        }
        assert(all.take(all.len() as int) =~= all);
        Ok(true)
    }
}

} // verus!
