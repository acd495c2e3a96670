use crate::rtr::ast::node::{statement_models, AstExpression, AstStatement, ExprModel};
use crate::rtr::error::Error;
use crate::rtr::runtime::instruction::{instruction_models, InstrModel, VmInstruction};
use vstd::prelude::*;

verus! {

/// The instructions of an expression: they leave its value on the stack.
/// Operands come before their operator; a call has its callee first, then
/// its arguments from left to right, then the call itself. A declaration
/// evaluates its value, binds it and leaves it on the stack.
pub open spec fn spec_compile_expression(e: ExprModel) -> Seq<InstrModel>
    decreases e, 0nat,
{
    match e {
        ExprModel::Call { args, func, .. } => spec_compile_expression(*func)
            + spec_compile_expressions(args) + seq![InstrModel::Call(args.len() as usize)],
        ExprModel::Declare { name, value, .. } => spec_compile_expression(*value)
            + seq![InstrModel::Decl(name)],
        ExprModel::Unary { value, op, .. } => spec_compile_expression(*value)
            + seq![InstrModel::Unary(op)],
        ExprModel::Binary { left, right, op, .. } => spec_compile_expression(*left)
            + spec_compile_expression(*right) + seq![InstrModel::Binary(op)],
        ExprModel::Variable { name, .. } => seq![InstrModel::Get(name)],
        ExprModel::Text { content, .. } => seq![InstrModel::Str(content)],
        ExprModel::Number { content, .. } => seq![InstrModel::Num(content)],
        ExprModel::Percentage { content, .. } => seq![InstrModel::Percentage(content)],
    }
}

/// The instructions of several expressions, one after the other.
pub open spec fn spec_compile_expressions(es: Seq<ExprModel>) -> Seq<InstrModel>
    decreases es, es.len(),
{
    if es.len() == 0 {
        Seq::empty()
    } else {
        spec_compile_expressions(es.drop_last()) + spec_compile_expression(es.last())
    }
}

/// The instructions of a statement: those of its expression, then a pop
/// that drops the value.
pub open spec fn spec_compile_statement(s: ExprModel) -> Seq<InstrModel> {
    spec_compile_expression(s) + seq![InstrModel::Pop]
}

/// The instructions of several statements, one after the other.
pub open spec fn spec_compile_statements(ss: Seq<ExprModel>) -> Seq<InstrModel>
    decreases ss.len(),
{
    if ss.len() == 0 {
        Seq::empty()
    } else {
        spec_compile_statements(ss.drop_last()) + spec_compile_statement(ss.last())
    }
}

fn append(out: &mut Vec<VmInstruction>, more: Vec<VmInstruction>)
    ensures
        instruction_models(final(out)@) == instruction_models(old(out)@) + instruction_models(
            more@,
        ),
{
    let mut more = more;
    let ghost before = out@;
    let ghost added = more@;
    out.append(&mut more);
    assert(instruction_models(out@) =~= instruction_models(before) + instruction_models(added));
}

fn emit(out: &mut Vec<VmInstruction>, ins: VmInstruction)
    ensures
        instruction_models(final(out)@) == instruction_models(old(out)@) + seq![ins@],
{
    let ghost before = out@;
    out.push(ins);
    assert(instruction_models(out@) =~= instruction_models(before) + seq![ins@]);
}

/// The instructions of a handler body.
pub fn compile_statements(statements: &Vec<AstStatement>) -> (out: Result<Vec<VmInstruction>, Error>)
    ensures
        out is Ok,
        instruction_models(out->Ok_0@) == spec_compile_statements(statement_models(statements@)),
{
    let mut instructions: Vec<VmInstruction> = Vec::new();
    let mut i: usize = 0;
    assert(instruction_models(instructions@) =~= Seq::empty());
    while i < statements.len()
        invariant
            0 <= i <= statements@.len(),
            instruction_models(instructions@) == spec_compile_statements(
                statement_models(statements@).take(i as int),
            ),
        decreases statements@.len() - i,
    {
        let part = match compile_statement(&statements[i]) {
            Ok(part) => part,
            Err(e) => {
                return Err(e);
            },
        };
        proof {
            let all = statement_models(statements@);
            assert(all.take(i + 1).drop_last() == all.take(i as int));
        }
        append(&mut instructions, part);
        i += 1;
    }
    proof {
        let all = statement_models(statements@);
        assert(all.take(all.len() as int) == all);
    }
    Ok(instructions)
}

/// The instructions of a statement.
pub fn compile_statement(statement: &AstStatement) -> (out: Result<Vec<VmInstruction>, Error>)
    ensures
        out is Ok,
        instruction_models(out->Ok_0@) == spec_compile_statement(statement@),
{
    let mut instructions: Vec<VmInstruction> = Vec::new();
    assert(instruction_models(instructions@) =~= Seq::empty());
    match statement {
        AstStatement::Expression(expr) => {
            let part = match compile_expression(expr) {
                Ok(part) => part,
                Err(e) => {
                    return Err(e);
                },
            };
            append(&mut instructions, part);
            emit(&mut instructions, VmInstruction::Pop);
        },
    }
    Ok(instructions)
}

/// The instructions of several expressions, one after the other.
pub fn compile_expressions(expressions: &Vec<AstExpression>) -> (out: Result<
    Vec<VmInstruction>,
    Error,
>)
    ensures
        out is Ok,
        instruction_models(out->Ok_0@) == spec_compile_expressions(
            crate::rtr::ast::node::expr_models(expressions@),
        ),
    decreases expressions, 1nat,
{
    let mut instructions: Vec<VmInstruction> = Vec::new();
    let mut i: usize = 0;
    let ghost all = crate::rtr::ast::node::expr_models(expressions@);
    assert(instruction_models(instructions@) =~= Seq::empty());
    while i < expressions.len()
        invariant
            0 <= i <= expressions@.len(),
            all == crate::rtr::ast::node::expr_models(expressions@),
            instruction_models(instructions@) == spec_compile_expressions(all.take(i as int)),
        decreases expressions@.len() - i,
    {
        let part = match compile_expression(&expressions[i]) {
            Ok(part) => part,
            Err(e) => {
                return Err(e);
            },
        };
        proof {
            assert(all.take(i + 1).drop_last() == all.take(i as int));
        }
        append(&mut instructions, part);
        i += 1;
    }
    proof {
        assert(all.take(all.len() as int) == all);
    }
    Ok(instructions)
}

/// The instructions of an expression.
pub fn compile_expression(expression: &AstExpression) -> (out: Result<Vec<VmInstruction>, Error>)
    ensures
        out is Ok,
        instruction_models(out->Ok_0@) == spec_compile_expression(expression@),
    decreases expression, 0nat,
{
    let mut instructions: Vec<VmInstruction> = Vec::new();
    assert(instruction_models(instructions@) =~= Seq::empty());
    match expression {
        AstExpression::Call { args, func, .. } => {
            let len = args.len();
            let callee = match compile_expression(func) {
                Ok(part) => part,
                Err(e) => {
                    return Err(e);
                },
            };
            append(&mut instructions, callee);
            let rest = match compile_expressions(args) {
                Ok(part) => part,
                Err(e) => {
                    return Err(e);
                },
            };
            append(&mut instructions, rest);
            emit(&mut instructions, VmInstruction::Call(len));
            assert(expression@->Call_args =~= crate::rtr::ast::node::expr_models(args@));
        },
        AstExpression::Declare { name, value, .. } => {
            let part = match compile_expression(value) {
                Ok(part) => part,
                Err(e) => {
                    return Err(e);
                },
            };
            append(&mut instructions, part);
            emit(&mut instructions, VmInstruction::Decl(name.clone()));
        },
        AstExpression::Unary { value, op, .. } => {
            let part = match compile_expression(value) {
                Ok(part) => part,
                Err(e) => {
                    return Err(e);
                },
            };
            append(&mut instructions, part);
            emit(&mut instructions, VmInstruction::Unary(*op));
        },
        AstExpression::Binary { left, right, op, .. } => {
            let first = match compile_expression(left) {
                Ok(part) => part,
                Err(e) => {
                    return Err(e);
                },
            };
            append(&mut instructions, first);
            let second = match compile_expression(right) {
                Ok(part) => part,
                Err(e) => {
                    return Err(e);
                },
            };
            append(&mut instructions, second);
            emit(&mut instructions, VmInstruction::Binary(*op));
        },
        AstExpression::Variable { name, .. } => {
            emit(&mut instructions, VmInstruction::Get(name.clone()));
        },
        AstExpression::String { content, .. } => {
            emit(&mut instructions, VmInstruction::Str(content.clone()));
        },
        AstExpression::Number { content, .. } => {
            emit(&mut instructions, VmInstruction::Num(*content));
        },
        AstExpression::Percentage { content, .. } => {
            emit(&mut instructions, VmInstruction::Percentage(*content));
        },
    }
    Ok(instructions)
}

} // verus!
