use crate::rtr::ast::node::{
    AstExpression, BinaryOp, EventModel, EventTargetModel, ExprModel,
};
use crate::rtr::runtime::compiler::{
    spec_compile_expression, spec_compile_expressions, spec_compile_statement,
    spec_compile_statements,
};
use crate::rtr::error::ErrorModel;
use crate::rtr::number::Number;
use crate::rtr::runtime::instruction::InstrModel;
use crate::rtr::runtime::kernel::Kernel;
use crate::rtr::runtime::scope::{
    all_distinct, binds, distinct_names, lemma_decl_var_keeps_distinct, lemma_depth_is,
    lemma_set_var_found, lemma_set_var_keeps_distinct, spec_get_var, spec_set_var,
    spec_set_var_memory,
};
use crate::rtr::runtime::machine::{
    binary_value, both_numbers, is_arithmetic, is_log, spec_free_all, Checked, MachineModel,
    Outcome,
};
use crate::rtr::runtime::memory::{
    cell_at, decays, first_free, is_first_free, lemma_add_then_rm_ref, lemma_decays_twice,
    lemma_first_free, lemma_first_free_exists, lemma_free_decays, lemma_free_shrinks,
    lemma_free_unfold, lemma_live_count_push, lemma_live_count_update, lemma_release_unfold, live,
    live_count, spec_add_ref, spec_alloc, spec_alloc_ptr, spec_free, spec_rm_ref, CellModel,
    MemPointer,
};
use crate::rtr::runtime::value::ValueModel;
use crate::rtr::vm::{eligible, handlers};
use vstd::prelude::*;

verus! {

/// Where no event of a script is bound to a target, none is eligible for
/// it.
pub proof fn lemma_no_match_none_eligible(events: Seq<EventModel>, target: EventTargetModel)
    requires
        forall|i: int| 0 <= i < events.len() ==> (#[trigger] events[i]).target != target,
    ensures
        eligible(events, target).len() == 0,
    decreases events.len(),
{
    if events.len() > 0 {
        assert(events.last() == events[events.len() - 1]);
        lemma_no_match_none_eligible(events.drop_last(), target);
    }
}

/// Dispatching a target that no event is bound to goes through and
/// changes nothing: the stack, the scope, the arena and the records stay
/// as they were.
pub proof fn lemma_dispatch_without_match(
    m: MachineModel,
    k: Kernel,
    events: Seq<EventModel>,
    target: EventTargetModel,
)
    requires
        forall|i: int| 0 <= i < events.len() ==> (#[trigger] events[i]).target != target,
    ensures
        m.run_all(k, handlers(events, eligible(events, target))) == Outcome::Next(m),
{
    lemma_no_match_none_eligible(events, target);
}

/// A sum of two values that are not both numbers is the text of the left
/// one followed by the text of the right one; on two numbers it is the sum
/// that the kernel computes.
pub proof fn lemma_add_falls_back_to_text(k: Kernel, l: ValueModel, r: ValueModel)
    ensures
        !both_numbers(l, r) ==> binary_value(k, BinaryOp::Add, l, r) == (ValueModel::Str {
            data: l.to_text(k.render) + r.to_text(k.render),
        }),
        both_numbers(l, r) ==> binary_value(k, BinaryOp::Add, l, r) == (ValueModel::Num {
            data: (k.arith)(BinaryOp::Add, l->Num_data, r->Num_data),
        }),
{
}

/// A difference, product, quotient, remainder or power of two values that
/// are not both numbers is the not-a-number value, never a string.
pub proof fn lemma_arithmetic_needs_numbers(k: Kernel, op: BinaryOp, l: ValueModel, r: ValueModel)
    requires
        is_arithmetic(op),
        op != BinaryOp::Add,
        !both_numbers(l, r),
    ensures
        binary_value(k, op, l, r) == (ValueModel::Num { data: Number::spec_nan() }),
        binary_value(k, op, l, r)->Num_data.spec_is_nan(),
{
}

/// Releasing several cells is a decay.
pub proof fn lemma_free_all_decays(cells: Seq<Option<CellModel>>, ptrs: Seq<MemPointer>)
    ensures
        decays(cells, spec_free_all(cells, ptrs)),
        live_count(spec_free_all(cells, ptrs)) <= live_count(cells),
    decreases ptrs.len(),
{
    if ptrs.len() > 0 {
        lemma_free_decays(cells, ptrs[0]);
        lemma_free_shrinks(cells, ptrs[0]);
        lemma_free_all_decays(spec_free(cells, ptrs[0]), ptrs.drop_first());
        lemma_decays_twice(cells, spec_free(cells, ptrs[0]), spec_free_all(cells, ptrs));
    }
}

/// After several cells are released, none of them is live without a
/// reference.
pub proof fn lemma_free_all_releases(
    cells: Seq<Option<CellModel>>,
    ptrs: Seq<MemPointer>,
    i: int,
)
    requires
        0 <= i < ptrs.len(),
    ensures
        !(live(spec_free_all(cells, ptrs), ptrs[i]) && cell_at(
            spec_free_all(cells, ptrs),
            ptrs[i],
        ).refs == 0),
    decreases ptrs.len(),
{
    let first = spec_free(cells, ptrs[0]);
    let rest = ptrs.drop_first();
    lemma_free_decays(cells, ptrs[0]);
    if i == 0 {
        lemma_free_all_decays(first, rest);
        crate::rtr::runtime::memory::lemma_free_unfold(cells, ptrs[0]);
        let last = spec_free_all(first, rest);
        if live(last, ptrs[0]) {
            assert(last[ptrs[0].id.0 as int] is Some);
            assert(first[ptrs[0].id.0 as int] is Some);
        }
    } else {
        assert(rest[i - 1] == ptrs[i]);
        lemma_free_all_releases(first, rest, i - 1);
    }
}

/// Calling a value that is no function of the host is given up with the
/// error that names the value. The arguments and the callee have left the
/// stack; the scope and the records are as before; the arena has only
/// decayed, and no argument is left in it as a live cell without a
/// reference.
pub proof fn lemma_call_of_non_function(m: MachineModel, k: Kernel, argc: usize)
    requires
        m.can_step(InstrModel::Call(argc)),
        !is_log(cell_at(m.memory, m.peek(argc as int)).val),
    ensures
        m.step(k, InstrModel::Call(argc)) matches Outcome::Abort(after, e) && {
            &&& e == (ErrorModel::CannotCall {
                func: cell_at(m.memory, m.peek(argc as int)).val.to_text(k.render),
            })
            &&& after.stack == m.stack.take(m.stack.len() - argc - 1)
            &&& after.scope == m.scope
            &&& after.output == m.output
            &&& decays(m.memory, after.memory)
            &&& live_count(after.memory) <= live_count(m.memory)
            &&& forall|i: int|
                m.stack.len() - argc <= i < m.stack.len() ==> !(live(
                    after.memory,
                    #[trigger] m.stack[i],
                ) && cell_at(after.memory, m.stack[i]).refs == 0)
        },
{
    let n = m.stack.len() as int;
    let args = m.stack.subrange(n - argc, n);
    let callee = m.peek(argc as int);
    let held = spec_add_ref(m.memory, callee);
    lemma_add_then_rm_ref(m.memory, callee);
    let freed = spec_free(m.memory, callee);
    lemma_free_decays(m.memory, callee);
    lemma_free_shrinks(m.memory, callee);
    lemma_free_all_decays(freed, args);
    let after = spec_free_all(freed, args);
    lemma_decays_twice(m.memory, freed, after);
    assert forall|i: int| n - argc <= i < n implies !(live(after, #[trigger] m.stack[i])
        && cell_at(after, m.stack[i]).refs == 0) by {
        assert(args[i - (n - argc)] == m.stack[i]);
        lemma_free_all_releases(freed, args, i - (n - argc));
    }
}

/// The number of places that an instruction needs on the stack.
pub open spec fn stack_need(ins: InstrModel) -> int {
    match ins {
        InstrModel::Call(argc) => argc + 1,
        InstrModel::Unary(_) => 1,
        InstrModel::Binary(_) => 2,
        InstrModel::Decl(_) => 1,
        InstrModel::Pop => 1,
        _ => 0,
    }
}

/// The number of places by which the stack is deeper after an instruction
/// that went through.
pub open spec fn stack_gain(ins: InstrModel) -> int {
    match ins {
        InstrModel::Call(argc) => -argc,
        InstrModel::Binary(_) => -1,
        InstrModel::Pop => -1,
        InstrModel::Str(_) => 1,
        InstrModel::Num(_) => 1,
        InstrModel::Percentage(_) => 1,
        InstrModel::Get(_) => 1,
        _ => 0,
    }
}

/// The depth of the stack after `code` has run from the depth `d`, where
/// every call is of a function; `None` where some instruction finds the
/// stack too short.
pub open spec fn depth_after(code: Seq<InstrModel>, d: int) -> Option<int>
    decreases code.len(),
{
    if code.len() == 0 {
        Some(d)
    } else {
        match depth_after(code.drop_last(), d) {
            Some(x) => if x >= stack_need(code.last()) {
                Some(x + stack_gain(code.last()))
            } else {
                None
            },
            None => None,
        }
    }
}

/// True when no call in the expression has more arguments than the
/// machine can count. Every expression of the library is so.
pub open spec fn sized(e: ExprModel) -> bool
    decreases e,
{
    match e {
        ExprModel::Call { args, func, .. } => args.len() <= usize::MAX && sized(*func) && forall|
            i: int,
        |
            0 <= i < args.len() ==> sized(#[trigger] args[i]),
        ExprModel::Declare { value, .. } => sized(*value),
        ExprModel::Unary { value, .. } => sized(*value),
        ExprModel::Binary { left, right, .. } => sized(*left) && sized(*right),
        _ => true,
    }
}

/// Every expression of the library is [`sized`].
pub proof fn lemma_expression_sized(e: AstExpression)
    ensures
        sized(e@),
    decreases e,
{
    match e {
        AstExpression::Call { args, func, .. } => {
            lemma_expression_sized(*func);
            assert forall|i: int| 0 <= i < e@->Call_args.len() implies sized(
                #[trigger] e@->Call_args[i],
            ) by {
                lemma_expression_sized(args@[i]);
            }
            assert(args@.len() <= usize::MAX) by {
                vstd::std_specs::vec::axiom_spec_len(&args);
            }
        },
        AstExpression::Declare { value, .. } => {
            lemma_expression_sized(*value);
        },
        AstExpression::Unary { value, .. } => {
            lemma_expression_sized(*value);
        },
        AstExpression::Binary { left, right, .. } => {
            lemma_expression_sized(*left);
            lemma_expression_sized(*right);
        },
        _ => {},
    }
}

/// Running one piece of code after another: the depth after the first is
/// the depth that the second starts from.
pub proof fn lemma_depth_concat(a: Seq<InstrModel>, b: Seq<InstrModel>, d: int)
    ensures
        depth_after(a + b, d) == match depth_after(a, d) {
            Some(x) => depth_after(b, x),
            None => None,
        },
    decreases b.len(),
{
    if b.len() == 0 {
        assert(a + b =~= a);
    } else {
        assert((a + b).drop_last() =~= a + b.drop_last());
        assert((a + b).last() == b.last());
        lemma_depth_concat(a, b.drop_last(), d);
    }
}

/// The code of an expression finds the stack deep enough wherever it
/// starts, and leaves it one place deeper.
pub proof fn lemma_expression_depth(e: ExprModel, d: int)
    requires
        d >= 0,
        sized(e),
    ensures
        depth_after(spec_compile_expression(e), d) == Some(d + 1),
    decreases e, 0nat,
{
    match e {
        ExprModel::Call { args, func, .. } => {
            let callee = spec_compile_expression(*func);
            let rest = spec_compile_expressions(args);
            let call = seq![InstrModel::Call(args.len() as usize)];
            lemma_expression_depth(*func, d);
            lemma_expressions_depth(args, d + 1);
            lemma_depth_concat(callee, rest, d);
            lemma_depth_concat(callee + rest, call, d);
            lemma_depth_one(call[0], d + 1 + args.len());
        },
        ExprModel::Declare { name, value, .. } => {
            lemma_expression_depth(*value, d);
            lemma_depth_concat(spec_compile_expression(*value), seq![InstrModel::Decl(name)], d);
            lemma_depth_one(InstrModel::Decl(name), d + 1);
        },
        ExprModel::Unary { value, op, .. } => {
            lemma_expression_depth(*value, d);
            lemma_depth_concat(spec_compile_expression(*value), seq![InstrModel::Unary(op)], d);
            lemma_depth_one(InstrModel::Unary(op), d + 1);
        },
        ExprModel::Binary { left, right, op, .. } => {
            let first = spec_compile_expression(*left);
            let second = spec_compile_expression(*right);
            lemma_expression_depth(*left, d);
            lemma_expression_depth(*right, d + 1);
            lemma_depth_concat(first, second, d);
            lemma_depth_concat(first + second, seq![InstrModel::Binary(op)], d);
            lemma_depth_one(InstrModel::Binary(op), d + 2);
        },
        ExprModel::Variable { name, .. } => {
            lemma_depth_one(InstrModel::Get(name), d);
        },
        ExprModel::Text { content, .. } => {
            lemma_depth_one(InstrModel::Str(content), d);
        },
        ExprModel::Number { content, .. } => {
            lemma_depth_one(InstrModel::Num(content), d);
        },
        ExprModel::Percentage { content, .. } => {
            lemma_depth_one(InstrModel::Percentage(content), d);
        },
    }
}

/// The depth after a single instruction.
pub proof fn lemma_depth_one(ins: InstrModel, d: int)
    ensures
        depth_after(seq![ins], d) == if d >= stack_need(ins) {
            Some(d + stack_gain(ins))
        } else {
            None
        },
{
    assert(seq![ins].drop_last() =~= Seq::<InstrModel>::empty());
    assert(depth_after(seq![ins].drop_last(), d) == Some(d));
}

/// The code of several expressions leaves the stack one place deeper for
/// each.
pub proof fn lemma_expressions_depth(es: Seq<ExprModel>, d: int)
    requires
        d >= 0,
        forall|i: int| 0 <= i < es.len() ==> sized(#[trigger] es[i]),
    ensures
        depth_after(spec_compile_expressions(es), d) == Some(d + es.len()),
    decreases es, 1nat,
{
    if es.len() > 0 {
        let front = es.drop_last();
        assert forall|i: int| 0 <= i < front.len() implies sized(#[trigger] front[i]) by {
            assert(front[i] == es[i]);
        }
        lemma_expressions_depth(front, d);
        lemma_expression_depth(es.last(), d + front.len());
        lemma_depth_concat(
            spec_compile_expressions(front),
            spec_compile_expression(es.last()),
            d,
        );
    }
}

/// The code of a handler body finds the stack deep enough wherever it
/// starts, and leaves it as deep as it was.
pub proof fn lemma_statements_depth(ss: Seq<ExprModel>, d: int)
    requires
        d >= 0,
        forall|i: int| 0 <= i < ss.len() ==> sized(#[trigger] ss[i]),
    ensures
        depth_after(spec_compile_statements(ss), d) == Some(d),
    decreases ss.len(),
{
    if ss.len() > 0 {
        let front = ss.drop_last();
        assert forall|i: int| 0 <= i < front.len() implies sized(#[trigger] front[i]) by {
            assert(front[i] == ss[i]);
        }
        lemma_statements_depth(front, d);
        lemma_expression_depth(ss.last(), d);
        let code = spec_compile_expression(ss.last());
        lemma_depth_concat(code, seq![InstrModel::Pop], d);
        lemma_depth_one(InstrModel::Pop, d + 1);
        lemma_depth_concat(spec_compile_statements(front), spec_compile_statement(ss.last()), d);
    }
}

/// A step that the state allows finds the stack deep enough, and where it
/// goes through it changes the depth by the gain of its instruction.
pub proof fn lemma_step_depth(m: MachineModel, k: Kernel, ins: InstrModel)
    requires
        m.can_step(ins),
    ensures
        m.stack.len() >= stack_need(ins),
        m.step(k, ins) matches Outcome::Next(after) ==> after.stack.len() == m.stack.len()
            + stack_gain(ins),
        !(m.step(k, ins) is Fault),
{
}

/// A run that goes through leaves the stack at the depth that the
/// instructions give.
pub proof fn lemma_run_depth(m: MachineModel, k: Kernel, code: Seq<InstrModel>)
    ensures
        m.run(k, code) matches Outcome::Next(after) ==> depth_after(code, m.stack.len() as int)
            == Some(after.stack.len() as int),
    decreases code.len(),
{
    if code.len() > 0 {
        lemma_run_depth(m, k, code.drop_last());
        match m.run(k, code.drop_last()) {
            Outcome::Next(mid) => {
                if mid.can_step(code.last()) {
                    lemma_step_depth(mid, k, code.last());
                }
            },
            _ => {},
        }
    }
}

/// Running the code of a handler body, where it goes through, leaves the
/// operand stack as deep as it was: each statement drops its own value.
pub proof fn lemma_handler_leaves_stack(m: MachineModel, k: Kernel, body: Seq<ExprModel>)
    requires
        forall|i: int| 0 <= i < body.len() ==> sized(#[trigger] body[i]),
    ensures
        m.run_instructions(k, spec_compile_statements(body)) matches Outcome::Next(after)
            ==> after.stack.len() == m.stack.len(),
{
    let code = spec_compile_statements(body);
    lemma_run_depth(m.new_scope(), k, code);
    lemma_statements_depth(body, m.stack.len() as int);
}

/// A step leaves the layers of names without a name that occurs twice in
/// one layer, where they were so.
pub proof fn lemma_step_keeps_names(m: MachineModel, k: Kernel, ins: InstrModel)
    requires
        m.can_step(ins),
        all_distinct(m.scope),
    ensures
        m.step(k, ins) matches Outcome::Next(after) ==> all_distinct(after.scope),
        m.step(k, ins) matches Outcome::Abort(after, _) ==> all_distinct(after.scope),
{
    match ins {
        InstrModel::Decl(name) => {
            lemma_set_var_keeps_distinct(m.scope, name, m.peek(0));
        },
        _ => {},
    }
}

/// The start of a handler leaves the layers of names so, too.
pub proof fn lemma_new_scope_keeps_names(m: MachineModel)
    requires
        all_distinct(m.scope),
    ensures
        all_distinct(m.new_scope().scope),
{
    let opened = m.scope.push(Seq::empty());
    assert forall|i: int| 0 <= i < opened.len() implies distinct_names(#[trigger] opened[i]) by {
        if i < m.scope.len() {
            assert(opened[i] == m.scope[i]);
        }
    }
    lemma_decl_var_keeps_distinct(opened, "log"@, spec_alloc_ptr(m.memory));
}

/// A run of instructions leaves the layers of names so, however it ends.
pub proof fn lemma_run_keeps_names(m: MachineModel, k: Kernel, code: Seq<InstrModel>)
    requires
        all_distinct(m.scope),
    ensures
        match m.run_checked(k, code) {
            Checked::Through(after) => all_distinct(after.scope),
            Checked::Given(after, _) => all_distinct(after.scope),
            Checked::Stopped(after) => all_distinct(after.scope),
        },
    decreases code.len(),
{
    if code.len() > 0 {
        lemma_run_keeps_names(m, k, code.drop_last());
        match m.run_checked(k, code.drop_last()) {
            Checked::Through(mid) => {
                if mid.can_step(code.last()) {
                    lemma_step_keeps_names(mid, k, code.last());
                }
            },
            _ => {},
        }
    }
}

/// A declaration through the machine sets the name to the value on top of
/// the stack, which stays there: a lookup of the name then finds it. The
/// value gains exactly one reference; the value that the name stood for
/// before, if it stood for one, loses exactly one and is released.
pub proof fn lemma_declare_step(m: MachineModel, k: Kernel, name: Seq<char>)
    requires
        m.can_step(InstrModel::Decl(name)),
    ensures
        m.step(k, InstrModel::Decl(name)) matches Outcome::Next(after) && {
            let top = m.peek(0);
            let held = spec_add_ref(m.memory, top);
            &&& after.stack == m.stack
            &&& after.output == m.output
            &&& after.scope == spec_set_var(m.scope, name, top)
            &&& spec_get_var(after.scope, name) == Some(top)
            &&& cell_at(held, top).refs == cell_at(m.memory, top).refs + 1
            &&& after.memory == spec_set_var_memory(m.scope, m.memory, name, top)
            &&& after.memory == match spec_get_var(m.scope, name) {
                Some(previous) => spec_free(spec_rm_ref(held, previous), previous),
                None => held,
            }
        },
{
    lemma_set_var_found(m.scope, name, m.peek(0));
}

/// A run of some instructions and one more is the run of the first,
/// followed by a step of the last where its state allows it.
pub proof fn lemma_run_push(m: MachineModel, k: Kernel, code: Seq<InstrModel>, ins: InstrModel)
    ensures
        m.run(k, code.push(ins)) == match m.run(k, code) {
            Outcome::Next(mid) => if mid.can_step(ins) {
                mid.step(k, ins)
            } else {
                Outcome::Fault
            },
            other => other,
        },
{
    assert(code.push(ins).drop_last() =~= code);
    assert(code.push(ins).last() == ins);
}

/// Running one piece of code after another: the second starts in the state
/// that the first leaves; an error or a fault of the first ends the run.
pub proof fn lemma_run_concat(m: MachineModel, k: Kernel, a: Seq<InstrModel>, b: Seq<InstrModel>)
    ensures
        m.run(k, a + b) == match m.run(k, a) {
            Outcome::Next(mid) => mid.run(k, b),
            other => other,
        },
    decreases b.len(),
{
    if b.len() == 0 {
        assert(a + b =~= a);
    } else {
        assert((a + b).drop_last() =~= a + b.drop_last());
        assert((a + b).last() == b.last());
        lemma_run_concat(m, k, a, b.drop_last());
    }
}

/// The code of the statement `name = v` for a number `v`.
pub open spec fn declare_number(name: Seq<char>, v: Number) -> Seq<InstrModel> {
    seq![InstrModel::Num(v), InstrModel::Decl(name), InstrModel::Pop]
}

/// A literal number is stored in a new cell whose place is pushed.
pub proof fn lemma_step_number(m: MachineModel, k: Kernel, v: Number)
    ensures
        m.can_step(InstrModel::Num(v)),
        m.step(k, InstrModel::Num(v)) == Outcome::Next(
            m.push_value(ValueModel::Num { data: v }),
        ),
{
}

/// A pop takes the top place from the stack and releases it.
pub proof fn lemma_step_pop(m: MachineModel, k: Kernel)
    requires
        m.stack.len() > 0,
    ensures
        m.can_step(InstrModel::Pop),
        m.step(k, InstrModel::Pop) == Outcome::Next(
            MachineModel {
                stack: m.stack.drop_last(),
                scope: m.scope,
                memory: spec_free(m.memory, m.peek(0)),
                output: m.output,
            },
        ),
{
}

/// A value that was just stored can be declared: it is live and without a
/// reference.
pub proof fn lemma_stored_can_be_declared(m: MachineModel, value: ValueModel, name: Seq<char>)
    requires
        m.scope.len() > 0,
        m.memory.len() < usize::MAX,
    ensures
        m.push_value(value).peek(0) == spec_alloc_ptr(m.memory),
        m.push_value(value).can_step(InstrModel::Decl(name)),
        m.push_value(value).stack.drop_last() == m.stack,
{
    lemma_first_free_exists(m.memory);
    let after = m.push_value(value);
    let cell = spec_alloc_ptr(m.memory);
    assert(after.stack.last() == cell);
    assert(live(after.memory, cell));
    assert(cell_at(after.memory, cell).refs == 0);
    assert(after.stack.drop_last() =~= m.stack);
}

/// The statement `name = v` through the machine: the number is stored in
/// a new cell, the name is set to it, and the value of the statement is
/// dropped. The stack is left as it was.
pub proof fn lemma_declare_number(m: MachineModel, k: Kernel, name: Seq<char>, v: Number)
    requires
        m.scope.len() > 0,
        m.memory.len() < usize::MAX,
    ensures
        ({
            let cell = spec_alloc_ptr(m.memory);
            let stored = spec_alloc(m.memory, ValueModel::Num { data: v });
            m.run(k, declare_number(name, v)) == Outcome::Next(
                MachineModel {
                    stack: m.stack,
                    scope: spec_set_var(m.scope, name, cell),
                    memory: spec_free(spec_set_var_memory(m.scope, stored, name, cell), cell),
                    output: m.output,
                },
            )
        }),
{
    let value = ValueModel::Num { data: v };
    let cell = spec_alloc_ptr(m.memory);
    let s1 = m.push_value(value);
    let s2 = MachineModel {
        stack: s1.stack,
        scope: spec_set_var(m.scope, name, cell),
        memory: spec_set_var_memory(m.scope, s1.memory, name, cell),
        output: m.output,
    };
    let s3 = MachineModel {
        stack: m.stack,
        scope: s2.scope,
        memory: spec_free(s2.memory, cell),
        output: m.output,
    };
    let none = Seq::<InstrModel>::empty();
    let code1 = none.push(InstrModel::Num(v));
    let code2 = code1.push(InstrModel::Decl(name));
    let code3 = code2.push(InstrModel::Pop);
    assert(code3 =~= declare_number(name, v));
    assert(m.run(k, code1) == Outcome::Next(s1)) by {
        assert(m.run(k, none) == Outcome::Next(m));
        lemma_step_number(m, k, v);
        lemma_run_push(m, k, none, InstrModel::Num(v));
    }
    assert(m.run(k, code2) == Outcome::Next(s2)) by {
        lemma_stored_can_be_declared(m, value, name);
        lemma_declare_step(s1, k, name);
        lemma_run_push(m, k, code1, InstrModel::Decl(name));
    }
    assert(m.run(k, code3) == Outcome::Next(s3)) by {
        lemma_stored_can_be_declared(m, value, name);
        lemma_step_pop(s2, k);
        lemma_run_push(m, k, code2, InstrModel::Pop);
    }
}

/// Storing a value and giving it a reference: the value takes the lowest
/// free slot, every other slot stays as it is, and the arena holds one live
/// cell more. The cell is not released while the reference is held.
pub proof fn lemma_store_and_hold(cells: Seq<Option<CellModel>>, val: ValueModel)
    requires
        cells.len() < usize::MAX,
    ensures
        ({
            let cell = spec_alloc_ptr(cells);
            let held = spec_add_ref(spec_alloc(cells, val), cell);
            &&& is_first_free(cells, cell.id.0 as int)
            &&& spec_free(held, cell) == held
            &&& held.len() == if cell.id.0 == cells.len() {
                cells.len() + 1
            } else {
                cells.len()
            }
            &&& held[cell.id.0 as int] == Some(CellModel { val, id: cell.id, refs: 1 })
            &&& forall|j: int|
                0 <= j < cells.len() && j != cell.id.0 ==> #[trigger] held[j] == cells[j]
            &&& live_count(held) == live_count(cells) + 1
        }),
{
    lemma_first_free_exists(cells);
    let cell = spec_alloc_ptr(cells);
    let stored = spec_alloc(cells, val);
    let held = spec_add_ref(stored, cell);
    lemma_free_unfold(held, cell);
    lemma_live_count_alloc(cells, val);
    lemma_live_count_update(stored, cell.id.0 as int, held[cell.id.0 as int]);
}

/// Dropping the one reference to a cell whose value holds no places
/// releases it: its slot is free afterwards, and every other slot is as it
/// was. Another cell that is referenced stays when it is released.
pub proof fn lemma_drop_last_reference(
    cells: Seq<Option<CellModel>>,
    old_cell: MemPointer,
    kept: MemPointer,
)
    requires
        live(cells, old_cell),
        cell_at(cells, old_cell).refs == 1,
        cell_at(cells, old_cell).val.children().len() == 0,
        live(cells, kept),
        cell_at(cells, kept).refs > 0,
        kept != old_cell,
    ensures
        spec_free(spec_free(spec_rm_ref(cells, old_cell), old_cell), kept) == cells.update(
            old_cell.id.0 as int,
            None,
        ),
        live_count(cells.update(old_cell.id.0 as int, None)) + 1 == live_count(cells),
{
    let dropped = spec_rm_ref(cells, old_cell);
    lemma_free_unfold(dropped, old_cell);
    let cleared = dropped.update(old_cell.id.0 as int, None);
    lemma_release_unfold(cleared, cell_at(cells, old_cell).val.children());
    assert(cleared =~= cells.update(old_cell.id.0 as int, None));
    lemma_free_unfold(cleared, kept);
    lemma_live_count_update(cells, old_cell.id.0 as int, None);
}

/// The code of `name = a` followed by `name = b`, on two lines.
pub open spec fn declare_twice(name: Seq<char>, a: Number, b: Number) -> Seq<InstrModel> {
    declare_number(name, a) + declare_number(name, b)
}

/// Declaring a name that no layer binds and then declaring it again,
/// through the machine.
///
/// The run goes through and leaves the stack as it was. The name then
/// stands for a cell that holds the second number with exactly one
/// reference. The cell that held the first number is released: its slot is
/// free again. Every other slot that the arena had is as it was, so the
/// arena holds one live cell more than before.
pub proof fn lemma_declare_twice(m: MachineModel, k: Kernel, name: Seq<char>, a: Number, b: Number)
    requires
        m.scope.len() > 0,
        !binds(m.scope, name),
        m.memory.len() + 2 <= usize::MAX,
    ensures
        m.run(k, declare_twice(name, a, b)) matches Outcome::Next(after) && {
            let first = spec_alloc_ptr(m.memory);
            &&& after.stack == m.stack
            &&& after.output == m.output
            &&& spec_get_var(after.scope, name) matches Some(second) && {
                &&& second != first
                &&& live(after.memory, second)
                &&& cell_at(after.memory, second).val == (ValueModel::Num { data: b })
                &&& cell_at(after.memory, second).refs == 1
                &&& forall|j: int|
                    0 <= j < m.memory.len() && j != second.id.0 ==> #[trigger] after.memory[j]
                        == m.memory[j]
            }
            &&& !live(after.memory, first)
            &&& live_count(after.memory) == live_count(m.memory) + 1
        },
{
    let va = ValueModel::Num { data: a };
    let vb = ValueModel::Num { data: b };
    let first = spec_alloc_ptr(m.memory);
    // the first declaration
    lemma_declare_number(m, k, name, a);
    lemma_store_and_hold(m.memory, va);
    lemma_depth_is(m.scope, name);
    lemma_set_var_found(m.scope, name, first);
    let held = spec_add_ref(spec_alloc(m.memory, va), first);
    let mid = MachineModel {
        stack: m.stack,
        scope: spec_set_var(m.scope, name, first),
        memory: held,
        output: m.output,
    };
    assert(spec_get_var(m.scope, name) is None);
    assert(m.run(k, declare_number(name, a)) == Outcome::Next(mid));
    // the second declaration
    lemma_declare_number(mid, k, name, b);
    lemma_store_and_hold(held, vb);
    let second = spec_alloc_ptr(held);
    lemma_set_var_found(mid.scope, name, second);
    let both = spec_add_ref(spec_alloc(held, vb), second);
    assert(second != first) by {
        assert(held[first.id.0 as int] is Some);
    }
    assert(both[first.id.0 as int] == held[first.id.0 as int]);
    lemma_drop_last_reference(both, first, second);
    let last = both.update(first.id.0 as int, None);
    let end = MachineModel {
        stack: m.stack,
        scope: spec_set_var(mid.scope, name, second),
        memory: last,
        output: m.output,
    };
    assert(mid.run(k, declare_number(name, b)) == Outcome::Next(end));
    lemma_run_concat(m, k, declare_number(name, a), declare_number(name, b));
    assert forall|j: int| 0 <= j < m.memory.len() && j != second.id.0 implies #[trigger] last[j]
        == m.memory[j] by {
        if j != first.id.0 {
            assert(held[j] == m.memory[j]);
            assert(both[j] == held[j]);
        }
    }
}

/// The same in a handler: where the handler declares a name that no layer
/// binds at its start and then declares it again, the name stands for the
/// second number in a cell with exactly one reference, and the cell of the
/// first number is released.
pub proof fn lemma_handler_declares_twice(
    m: MachineModel,
    k: Kernel,
    name: Seq<char>,
    a: Number,
    b: Number,
)
    requires
        !binds(m.new_scope().scope, name),
        m.memory.len() + 3 <= usize::MAX,
    ensures
        m.run_instructions(k, declare_twice(name, a, b)) matches Outcome::Next(after) && {
            let first = spec_alloc_ptr(m.new_scope().memory);
            &&& after.stack == m.stack
            &&& spec_get_var(after.scope, name) matches Some(second) && {
                &&& second != first
                &&& live(after.memory, second)
                &&& cell_at(after.memory, second).val == (ValueModel::Num { data: b })
                &&& cell_at(after.memory, second).refs == 1
            }
            &&& !live(after.memory, first)
            &&& live_count(after.memory) == live_count(m.new_scope().memory) + 1
        },
{
    lemma_first_free_exists(m.memory);
    lemma_declare_twice(m.new_scope(), k, name, a, b);
}

/// Storing a value adds one live cell.
pub proof fn lemma_live_count_alloc(cells: Seq<Option<CellModel>>, val: ValueModel)
    ensures
        live_count(spec_alloc(cells, val)) == live_count(cells) + 1,
{
    lemma_first_free_exists(cells);
    let i = first_free(cells);
    if i == cells.len() {
        lemma_live_count_push(cells, spec_alloc(cells, val)[i]);
    } else {
        lemma_live_count_update(cells, i, spec_alloc(cells, val)[i]);
    }
}

} // verus!
