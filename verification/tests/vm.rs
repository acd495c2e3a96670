use phosphorus::rtr::ast::node::{AstTopLevelStatement, BinaryOp, EventTarget, Target, UnaryOp};
use phosphorus::rtr::error::Error;
use phosphorus::rtr::number::Number;
use phosphorus::rtr::runtime::instruction::VmInstruction;
use phosphorus::rtr::runtime::memory::{MemId, MemPointer};
use phosphorus::rtr::runtime::value::{BuiltinFunction, Function, Value};
use phosphorus::rtr::vm::{free_all, log_line, run_binary_op, run_unary_op};
use phosphorus::rtr::RTRInstance;
use phosphorus::shared::logging::{LogKind, LogSource};

fn arith(op: BinaryOp, l: Number, r: Number) -> Number {
    let a = f32::from_bits(l.bits);
    let b = f32::from_bits(r.bits);
    let x = match op {
        BinaryOp::Add => a + b,
        BinaryOp::Sub => a - b,
        BinaryOp::Mul => a * b,
        BinaryOp::Div => a / b,
        BinaryOp::Mod => a % b,
        BinaryOp::Pow => a.powf(b),
        _ => f32::NAN,
    };
    Number { bits: x.to_bits() }
}

fn render(n: Number) -> String {
    format!("{}", f32::from_bits(n.bits))
}

fn num(x: f32) -> Value {
    Value::Num { data: Number { bits: x.to_bits() } }
}

fn text(s: &str) -> Value {
    Value::Str { data: String::from(s) }
}

fn onload() -> EventTarget {
    EventTarget::Global { name: String::from("onload") }
}

fn live(inst: &RTRInstance) -> usize {
    inst.memory.cells.iter().filter(|c| c.is_some()).count()
}

fn run_all_clean(inst: &mut RTRInstance, target: &EventTarget) -> Result<(), Error> {
    let picked = inst.get_eligible(target);
    for index in picked {
        let code = match &inst.ast.as_ref().unwrap().events[index] {
            AstTopLevelStatement::Event { body, .. } => inst.compile_event(body).unwrap(),
        };
        inst.new_scope();
        for ins in code.iter() {
            assert!(inst.can_step(ins), "the state does not allow {:?}", ins);
            inst.step(ins, &arith, &render)?;
        }
    }
    Ok(())
}

fn run(src: &str) -> (RTRInstance, Result<(), Error>) {
    let mut inst = RTRInstance::new();
    inst.parse(src).unwrap();
    let mut shadow = RTRInstance::new();
    shadow.parse(src).unwrap();
    let want = run_all_clean(&mut shadow, &onload());
    let out = inst.run_event_target(&onload(), &arith, &render);
    assert_eq!(format!("{:?}", out), format!("{:?}", want));
    let mut checked = RTRInstance::new();
    checked.parse(src).unwrap();
    let tried = checked.try_run_event_target(&onload(), &arith, &render);
    assert_eq!(format!("{:?}", tried.map(|through| assert!(through))), format!("{:?}", want));
    assert_eq!(format!("{:?}", checked.memory), format!("{:?}", shadow.memory));
    assert_eq!(format!("{:?}", checked.output), format!("{:?}", shadow.output));
    assert_eq!(format!("{:?}", inst.memory), format!("{:?}", shadow.memory));
    assert_eq!(format!("{:?}", inst.stack), format!("{:?}", shadow.stack));
    assert_eq!(format!("{:?}", inst.scope), format!("{:?}", shadow.scope));
    assert_eq!(format!("{:?}", inst.output), format!("{:?}", shadow.output));
    (inst, out)
}

fn var<'a>(inst: &'a RTRInstance, name: &str) -> &'a Value {
    inst.memory.get(inst.scope.get_var(name).unwrap())
}

fn as_f32(v: &Value) -> f32 {
    match v {
        Value::Num { data } => f32::from_bits(data.bits),
        other => panic!("{:?}", other),
    }
}

fn lines(inst: &RTRInstance) -> Vec<String> {
    inst.output.iter().map(|l| l.to_text()).collect()
}

#[test]
fn a_new_engine_is_empty() {
    let inst = RTRInstance::new();
    assert!(inst.ast.is_none());
    assert_eq!(inst.stack.len(), 0);
    assert_eq!(inst.scope.layers.len(), 1);
    assert_eq!(inst.memory.cells.len(), 0);
    assert_eq!(inst.output.len(), 0);
}

#[test]
fn declaring_a_sum_binds_it_and_leaves_the_stack_empty() {
    let (inst, out) = run("onload { x = 1 + 2 }");
    assert!(out.is_ok());
    assert_eq!(inst.stack.len(), 0);
    assert_eq!(as_f32(var(&inst, "x")), 3.0);
    assert_eq!(inst.scope.layers.len(), 2);
    assert_eq!(inst.scope.layers[1].get("x"), inst.scope.get_var("x"));
    assert_eq!(live(&inst), 2);
}

#[test]
fn dispatch_without_match_changes_nothing() {
    let mut inst = RTRInstance::new();
    inst.parse("onload { x = 1 }").unwrap();
    let other = EventTarget::Global { name: String::from("onclick") };
    assert!(inst.run_event_target(&other, &arith, &render).is_ok());
    assert_eq!(inst.memory.cells.len(), 0);
    assert_eq!(inst.stack.len(), 0);
    assert_eq!(inst.scope.layers.len(), 1);
    assert_eq!(inst.output.len(), 0);
    let property = EventTarget::Property { target: Target::Any, event_name: String::from("onload") };
    assert!(inst.run_event_target(&property, &arith, &render).is_ok());
    assert_eq!(inst.memory.cells.len(), 0);
}

#[test]
fn dispatch_without_a_script_changes_nothing() {
    let mut inst = RTRInstance::new();
    assert!(inst.run_event_target(&onload(), &arith, &render).is_ok());
    assert_eq!(inst.memory.cells.len(), 0);
    assert_eq!(inst.get_eligible(&onload()).len(), 0);
}

#[test]
fn every_matching_handler_runs_in_order() {
    let (inst, out) = run("onload { log(1) }\nonclick { log(2) }\nonload { log(3) }");
    assert!(out.is_ok());
    assert_eq!(lines(&inst), vec!["1", "3"]);
    assert_eq!(inst.get_eligible(&onload()), vec![0, 2]);
    assert_eq!(inst.scope.layers.len(), 3);
}

#[test]
fn property_targets_match_by_kind_and_names() {
    let mut inst = RTRInstance::new();
    inst.parse("#a:click { log(1) }\n*:click { log(2) }\na:click { log(3) }\n#a:hover { log(4) }")
        .unwrap();
    let target =
        EventTarget::Property { target: Target::Id(String::from("a")), event_name: String::from("click") };
    assert_eq!(inst.get_eligible(&target), vec![0]);
    assert!(inst.run_event_target(&target, &arith, &render).is_ok());
    assert_eq!(lines(&inst), vec!["1"]);
    let element = EventTarget::Property {
        target: Target::Element(String::from("a")),
        event_name: String::from("click"),
    };
    assert_eq!(inst.get_eligible(&element), vec![2]);
    let global = EventTarget::Global { name: String::from("click") };
    assert_eq!(inst.get_eligible(&global).len(), 0);
}

#[test]
fn calling_a_string_cannot_be_done_and_leaks_nothing() {
    let (inst, out) = run("onload { \"x\"(1, \"a\") }");
    match out {
        Err(Error::CannotCall { func }) => assert_eq!(func, "x"),
        other => panic!("{:?}", other),
    }
    assert_eq!(inst.stack.len(), 0);
    assert_eq!(live(&inst), 1);
    assert!(matches!(var(&inst, "log"), Value::Function(Function::Builtin(BuiltinFunction::Log))));
}

#[test]
fn calling_a_number_names_it_in_the_error() {
    let (_, out) = run("onload { x = 5\n x() }");
    match out {
        Err(Error::CannotCall { func }) => assert_eq!(func, "5"),
        other => panic!("{:?}", other),
    }
    let (_, out) = run("onload { nothing() }");
    match out {
        Err(Error::CannotCall { func }) => assert_eq!(func, "null"),
        other => panic!("{:?}", other),
    }
}

#[test]
fn an_error_gives_up_the_rest_of_the_handlers() {
    let (inst, out) = run("onload { log(1)\n 2()\n log(3) }\nonload { log(4) }");
    assert!(out.is_err());
    assert_eq!(lines(&inst), vec!["1"]);
}

#[test]
fn sum_falls_back_to_text() {
    let (inst, out) = run("onload {\n a = 1 + \"a\"\n b = 5 - \"a\"\n c = \"x\" + \"y\"\n d = 1 + 2 + \"z\"\n}");
    assert!(out.is_ok());
    match var(&inst, "a") {
        Value::Str { data } => assert_eq!(data, "1a"),
        other => panic!("{:?}", other),
    }
    assert!(as_f32(var(&inst, "b")).is_nan());
    match var(&inst, "c") {
        Value::Str { data } => assert_eq!(data, "xy"),
        other => panic!("{:?}", other),
    }
    match var(&inst, "d") {
        Value::Str { data } => assert_eq!(data, "3z"),
        other => panic!("{:?}", other),
    }
}

#[test]
fn arithmetic_on_numbers() {
    let (inst, out) = run(
        "onload {\n a = 7 - 2\n b = 3 * 4\n c = 7 / 2\n d = 7 % 4\n e = 2 ^ 10\n f = 1 / 0\n g = -3 + 1\n}",
    );
    assert!(out.is_ok());
    assert_eq!(as_f32(var(&inst, "a")), 5.0);
    assert_eq!(as_f32(var(&inst, "b")), 12.0);
    assert_eq!(as_f32(var(&inst, "c")), 3.5);
    assert_eq!(as_f32(var(&inst, "d")), 3.0);
    assert_eq!(as_f32(var(&inst, "e")), 1024.0);
    assert_eq!(as_f32(var(&inst, "f")), f32::INFINITY);
    assert_eq!(as_f32(var(&inst, "g")), -2.0);
}

#[test]
fn arithmetic_without_two_numbers_is_not_a_number() {
    for op in [BinaryOp::Sub, BinaryOp::Mul, BinaryOp::Div, BinaryOp::Mod, BinaryOp::Pow] {
        for (l, r) in [(num(5.0), text("a")), (text("a"), num(5.0)), (Value::Null, Value::Null)] {
            let out = run_binary_op(&l, &r, &op, &arith, &render);
            assert!(as_f32(&out).is_nan());
        }
        let pct = Value::Percentage { data: Number { bits: 5f32.to_bits() } };
        assert!(as_f32(&run_binary_op(&pct, &num(1.0), &op, &arith, &render)).is_nan());
    }
}

#[test]
fn sum_of_percentages_is_text() {
    let pct = Value::Percentage { data: Number { bits: 5f32.to_bits() } };
    match run_binary_op(&pct, &pct, &BinaryOp::Add, &arith, &render) {
        Value::Str { data } => assert_eq!(data, "5%5%"),
        other => panic!("{:?}", other),
    }
    match run_binary_op(&Value::Null, &Value::Bool { data: true }, &BinaryOp::Add, &arith, &render) {
        Value::Str { data } => assert_eq!(data, "nulltrue"),
        other => panic!("{:?}", other),
    }
    let log = Value::Function(Function::Builtin(BuiltinFunction::Log));
    match run_binary_op(&log, &Value::Arr { elems: vec![] }, &BinaryOp::Add, &arith, &render) {
        Value::Str { data } => assert_eq!(data, "<function><arr>"),
        other => panic!("{:?}", other),
    }
}

#[test]
fn comparisons_hold_only_of_numbers() {
    let truth = |l: &Value, r: &Value, op: BinaryOp| match run_binary_op(l, r, &op, &arith, &render) {
        Value::Bool { data } => data,
        other => panic!("{:?}", other),
    };
    let values = [0.0f32, -0.0, 1.0, -1.0, 2.5, f32::INFINITY, f32::NAN];
    for a in values {
        for b in values {
            assert_eq!(truth(&num(a), &num(b), BinaryOp::Eql), a == b);
            assert_eq!(truth(&num(a), &num(b), BinaryOp::NotEql), a != b);
            assert_eq!(truth(&num(a), &num(b), BinaryOp::Bigger), a > b);
            assert_eq!(truth(&num(a), &num(b), BinaryOp::Smaller), a < b);
            assert_eq!(truth(&num(a), &num(b), BinaryOp::BiggerEql), a >= b);
            assert_eq!(truth(&num(a), &num(b), BinaryOp::SmallerEql), a <= b);
        }
    }
    for op in [
        BinaryOp::Eql,
        BinaryOp::NotEql,
        BinaryOp::Bigger,
        BinaryOp::Smaller,
        BinaryOp::BiggerEql,
        BinaryOp::SmallerEql,
    ] {
        assert!(!truth(&text("a"), &text("a"), op));
        assert!(!truth(&num(1.0), &text("1"), op));
        assert!(!truth(&Value::Null, &Value::Null, op));
    }
}

#[test]
fn nullish_gives_the_right_value_for_null() {
    let out = run_binary_op(&Value::Null, &num(2.0), &BinaryOp::NullishCoalescence, &arith, &render);
    assert_eq!(as_f32(&out), 2.0);
    let out = run_binary_op(&num(1.0), &num(2.0), &BinaryOp::NullishCoalescence, &arith, &render);
    assert_eq!(as_f32(&out), 1.0);
    let out = run_binary_op(&text(""), &num(2.0), &BinaryOp::NullishCoalescence, &arith, &render);
    assert!(matches!(out, Value::Str { .. }));
    let (inst, _) = run("onload { a = missing ?? 4\n b = a ?? 5 }");
    assert_eq!(as_f32(var(&inst, "a")), 4.0);
    assert_eq!(as_f32(var(&inst, "b")), 4.0);
}

#[test]
fn unary_operator_values() {
    assert_eq!(as_f32(&run_unary_op(&num(2.0), &UnaryOp::Minus)), -2.0);
    assert_eq!(as_f32(&run_unary_op(&Value::Bool { data: true }, &UnaryOp::Minus)), -1.0);
    assert!(as_f32(&run_unary_op(&text("2"), &UnaryOp::Minus)).is_nan());
    assert_eq!(as_f32(&run_unary_op(&Value::Bool { data: true }, &UnaryOp::Number)), 1.0);
    assert!(as_f32(&run_unary_op(&Value::Null, &UnaryOp::Number)).is_nan());
    assert!(matches!(run_unary_op(&num(0.0), &UnaryOp::Invert), Value::Bool { data: true }));
    assert!(matches!(run_unary_op(&text("a"), &UnaryOp::Invert), Value::Bool { data: false }));
    assert!(matches!(run_unary_op(&text("a"), &UnaryOp::Boolify), Value::Bool { data: true }));
    assert!(matches!(run_unary_op(&Value::Null, &UnaryOp::Boolify), Value::Bool { data: false }));
    let (inst, _) = run("onload { a = -(1 + 2)\n b = !a\n c = !!\"x\"\n d = +c }");
    assert_eq!(as_f32(var(&inst, "a")), -3.0);
    assert!(matches!(var(&inst, "b"), Value::Bool { data: true }));
    assert!(matches!(var(&inst, "c"), Value::Bool { data: true }));
    assert_eq!(as_f32(var(&inst, "d")), 1.0);
}

#[test]
fn log_joins_the_texts_of_its_arguments() {
    let (inst, out) = run("onload { log(\"a\", 1 + 1, 50%, missing, log, !1)\n log()\n log(log(1)) }");
    assert!(out.is_ok());
    assert_eq!(lines(&inst), vec!["a 2 50% null <function> false", "", "1", "null"]);
    assert!(matches!(inst.output[0].kind, LogKind::Log));
    assert!(matches!(inst.output[0].source, LogSource::Unset));
    assert_eq!(inst.stack.len(), 0);
    assert_eq!(live(&inst), 1);
}

#[test]
fn statements_leave_no_cells_behind() {
    let (inst, out) = run("onload {\n 1 + 2 * 3\n \"a\" + \"b\"\n -4\n missing\n log\n}");
    assert!(out.is_ok());
    assert_eq!(inst.stack.len(), 0);
    assert_eq!(live(&inst), 1);
}

#[test]
fn a_declaration_is_an_expression() {
    let (inst, out) = run("onload { y = (x = 5) + 1 }");
    assert!(out.is_ok());
    assert_eq!(as_f32(var(&inst, "x")), 5.0);
    assert_eq!(as_f32(var(&inst, "y")), 6.0);
}

#[test]
fn variables_share_their_cell() {
    let (inst, out) = run("onload { x = 5\n y = x }");
    assert!(out.is_ok());
    assert_eq!(inst.scope.get_var("x"), inst.scope.get_var("y"));
    let p = inst.scope.get_var("x").unwrap();
    assert_eq!(inst.memory.get_cell(p).refs, 2);
}

#[test]
fn handlers_share_the_state() {
    let (inst, out) = run("onload { x = 1 }\nonload { y = x + 1 }");
    assert!(out.is_ok());
    assert_eq!(as_f32(var(&inst, "y")), 2.0);
}

#[test]
fn instructions_that_are_not_run_are_reported_and_passed_over() {
    let mut inst = RTRInstance::new();
    let code = vec![
        VmInstruction::NewScope,
        VmInstruction::Num(Number { bits: 1f32.to_bits() }),
        VmInstruction::Jump(String::from("l")),
        VmInstruction::Pop,
    ];
    let out = inst.run_instructions(&code, &arith, &render);
    assert!(matches!(out, Ok(None)));
    assert_eq!(inst.stack.len(), 0);
    assert_eq!(
        lines(&inst),
        vec!["[RTR] couldnt run instruction 'NewScope'", "[RTR] couldnt run instruction 'Jump'"]
    );
    assert!(matches!(inst.output[0].kind, LogKind::Warn));
}

#[test]
fn can_step_tells_what_the_state_allows() {
    let mut inst = RTRInstance::new();
    assert!(!inst.can_step(&VmInstruction::Pop));
    assert!(!inst.can_step(&VmInstruction::Unary(UnaryOp::Minus)));
    assert!(!inst.can_step(&VmInstruction::Binary(BinaryOp::Add)));
    assert!(!inst.can_step(&VmInstruction::Decl(String::from("x"))));
    assert!(!inst.can_step(&VmInstruction::Call(0)));
    assert!(inst.can_step(&VmInstruction::Get(String::from("x"))));
    assert!(inst.can_step(&VmInstruction::Label(String::from("x"))));
    inst.step(&VmInstruction::Num(Number { bits: 0 }), &arith, &render).unwrap();
    assert!(inst.can_step(&VmInstruction::Pop));
    assert!(inst.can_step(&VmInstruction::Unary(UnaryOp::Minus)));
    assert!(!inst.can_step(&VmInstruction::Binary(BinaryOp::Add)));
    assert!(inst.can_step(&VmInstruction::Decl(String::from("x"))));
    assert!(inst.can_step(&VmInstruction::Call(0)));
    assert!(!inst.can_step(&VmInstruction::Call(1)));
    inst.stack.push(MemPointer { id: MemId(9) });
    assert!(!inst.can_step(&VmInstruction::Unary(UnaryOp::Minus)));
    assert!(!inst.can_step(&VmInstruction::Binary(BinaryOp::Add)));
    assert!(inst.can_step(&VmInstruction::Call(1)));
    assert!(inst.can_step(&VmInstruction::Pop));
    inst.new_scope();
    inst.stack.push(inst.scope.get_var("log").unwrap());
    inst.stack.push(MemPointer { id: MemId(9) });
    assert!(!inst.can_step(&VmInstruction::Call(1)));
}

#[test]
fn rebinding_log_while_it_is_on_the_stack_is_not_allowed() {
    let mut inst = RTRInstance::new();
    inst.parse("onload { log(log = 1) }").unwrap();
    let code = match &inst.ast.as_ref().unwrap().events[0] {
        AstTopLevelStatement::Event { body, .. } => inst.compile_event(body).unwrap(),
    };
    inst.new_scope();
    let mut allowed = Vec::new();
    for ins in code.iter() {
        let ok = inst.can_step(ins);
        allowed.push(ok);
        if !ok {
            break;
        }
        inst.step(ins, &arith, &render).unwrap();
    }
    assert_eq!(allowed, vec![true, true, true, false]);
}

#[test]
fn parse_failure_leaves_the_engine_without_a_script() {
    let mut inst = RTRInstance::new();
    inst.parse("onload { x = 1 }").unwrap();
    assert!(inst.ast.is_some());
    let err = inst.parse("onload { ) }").unwrap_err();
    assert!(matches!(err, Error::UnexpectedToken { .. }));
    assert!(inst.ast.is_none());
    assert!(inst.run_event_target(&onload(), &arith, &render).is_ok());
    assert_eq!(inst.memory.cells.len(), 0);
}

#[test]
fn free_all_and_log_line() {
    let mut inst = RTRInstance::new();
    let a = inst.memory.allocate(text("a"));
    let b = inst.memory.allocate(num(1.5));
    inst.memory.add_ref(b);
    assert_eq!(log_line(&inst.memory, &vec![a, b, a], &render), "a 1.5 a");
    assert_eq!(log_line(&inst.memory, &vec![], &render), "");
    free_all(&mut inst.memory, &vec![a, b, a]);
    assert!(!inst.memory.has_cell(a));
    assert!(inst.memory.has_cell(b));
}

#[test]
fn call_of_a_value() {
    let mut inst = RTRInstance::new();
    let a = inst.memory.allocate(text("a"));
    let log = Value::Function(Function::Builtin(BuiltinFunction::Log));
    let out = log.call(&mut inst.memory, &vec![a], &mut inst.output, &render).unwrap();
    assert!(matches!(inst.memory.get(out), Value::Null));
    assert_eq!(lines(&inst), vec!["a"]);
    let f = Value::Function(Function::Vm { body: vec![], args: vec![] });
    match f.call(&mut inst.memory, &vec![a], &mut inst.output, &render) {
        Err(Error::CannotCall { func }) => assert_eq!(func, "<function>"),
        other => panic!("{:?}", other),
    }
    let pct = Value::Percentage { data: Number { bits: 5f32.to_bits() } };
    match pct.call(&mut inst.memory, &vec![], &mut inst.output, &render) {
        Err(Error::CannotCall { func }) => assert_eq!(func, "5%"),
        other => panic!("{:?}", other),
    }
    assert_eq!(inst.output.len(), 1);
}

#[test]
fn each_handler_starts_in_a_fresh_layer_that_binds_log() {
    let (inst, out) = run("onload { log = 1 }\nonload { log(2) }");
    assert!(out.is_ok());
    assert_eq!(lines(&inst), vec!["2"]);
    assert_eq!(inst.scope.layers.len(), 3);
    assert_eq!(inst.scope.layers[0].entries.len(), 0);
    assert_eq!(as_f32(inst.memory.get(inst.scope.layers[1].get("log").unwrap())), 1.0);
    let fresh = inst.scope.layers[2].get("log").unwrap();
    assert!(matches!(inst.memory.get(fresh), Value::Function(Function::Builtin(BuiltinFunction::Log))));
    assert_eq!(inst.memory.get_cell(fresh).refs, 1);
    assert_eq!(inst.scope.get_var("log"), Some(fresh));
}

#[test]
fn a_checked_run_stops_before_what_the_state_does_not_allow() {
    let mut inst = RTRInstance::new();
    inst.parse("onload { log(1)\n log(log = 1)\n log(2) }\nonload { log(3) }").unwrap();
    let out = inst.try_run_event_target(&onload(), &arith, &render);
    assert!(matches!(out, Ok(false)));
    assert_eq!(lines(&inst), vec!["1"]);
    assert_eq!(inst.stack.len(), 2);
    assert!(!inst.can_step(&VmInstruction::Call(1)));
    let mut other = RTRInstance::new();
    let code = vec![VmInstruction::Num(Number { bits: 0 }), VmInstruction::Pop, VmInstruction::Pop];
    assert!(matches!(other.try_run_instructions(&code, &arith, &render), Ok(false)));
    assert_eq!(other.stack.len(), 0);
    assert!(matches!(other.try_run_instructions(&code[..2], &arith, &render), Ok(true)));
    let bad = vec![VmInstruction::Num(Number { bits: 0 }), VmInstruction::Call(0), VmInstruction::Pop];
    assert!(matches!(
        other.try_run_instructions(&bad, &arith, &render),
        Err(Error::CannotCall { .. })
    ));
}

#[test]
fn redeclaring_through_the_machine_releases_the_old_value() {
    let mut vm = RTRInstance::new();
    let code = vec![
        VmInstruction::Num(Number { bits: 1f32.to_bits() }),
        VmInstruction::Decl(String::from("x")),
        VmInstruction::Pop,
        VmInstruction::Num(Number { bits: 2f32.to_bits() }),
        VmInstruction::Decl(String::from("x")),
        VmInstruction::Pop,
    ];
    assert!(matches!(vm.run_instructions(&code, &arith, &render), Ok(None)));
    assert_eq!(vm.stack.len(), 0);
    let x = vm.scope.get_var("x").unwrap();
    assert_eq!(as_f32(vm.memory.get(x)), 2.0);
    assert_eq!(vm.memory.get_cell(x).refs, 1);
    let log = vm.scope.get_var("log").unwrap();
    assert_eq!(vm.memory.get_cell(log).refs, 1);
    assert_eq!(live(&vm), 2);
    let first = MemPointer { id: MemId(1) };
    assert_ne!(x, first);
    assert!(!vm.memory.has_cell(first));
}

#[test]
fn a_declaration_is_seen_by_the_lookup_that_follows_it() {
    let (inst, out) = run("onload { x = 1 }\nonload { x = 2\n y = x }\nonload { log = 3\n z = log }");
    assert!(out.is_ok());
    assert_eq!(as_f32(var(&inst, "x")), 2.0);
    assert_eq!(as_f32(var(&inst, "y")), 2.0);
    assert_eq!(as_f32(var(&inst, "z")), 3.0);
    assert_eq!(as_f32(var(&inst, "log")), 3.0);
    assert_eq!(inst.scope.layers[1].get("x"), inst.scope.get_var("x"));
    assert_eq!(inst.scope.layers[2].get("x"), None);
    assert_eq!(live(&inst), 4);
}
