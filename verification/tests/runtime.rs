use phosphorus::rtr::ast::node::{
    AstExpression, AstStatement, AstTopLevelStatement, BinaryOp, Parameter, UnaryOp,
};
use phosphorus::rtr::ast::parser::Parser;
use phosphorus::rtr::ast::tokenise;
use phosphorus::rtr::number::Number;
use phosphorus::rtr::runtime::compiler::{
    compile_expression, compile_expressions, compile_statement, compile_statements,
};
use phosphorus::rtr::runtime::instruction::{copy_instructions, VmInstruction};
use phosphorus::rtr::runtime::memory::{MemId, MemPointer, Memory};
use phosphorus::rtr::runtime::scope::{Layer, Scope};
use phosphorus::rtr::runtime::value::{BuiltinFunction, Entry, Function, TypeValue, Value};
use phosphorus::shared::color::Color;

fn num(x: f32) -> Value {
    Value::Num { data: Number { bits: x.to_bits() } }
}

fn text(s: &str) -> Value {
    Value::Str { data: String::from(s) }
}

fn ptr(i: usize) -> MemPointer {
    MemPointer { id: MemId(i) }
}

fn refs(memory: &Memory, p: MemPointer) -> usize {
    memory.get_cell(p).refs
}

fn live(memory: &Memory) -> usize {
    memory.cells.iter().filter(|c| c.is_some()).count()
}

fn show(ins: &VmInstruction) -> String {
    match ins {
        VmInstruction::Num(n) => format!("Num({})", f32::from_bits(n.bits)),
        VmInstruction::Percentage(n) => format!("Percentage({})", f32::from_bits(n.bits)),
        other => format!("{:?}", other),
    }
}

fn compiled(src: &str) -> Vec<String> {
    let mut parser = Parser::new(tokenise(src));
    let e = parser.expression().unwrap();
    compile_expression(&e).unwrap().iter().map(show).collect()
}

#[test]
fn compile_declaration_of_a_sum() {
    let mut parser = Parser::new(tokenise("x = 1 + 2"));
    let e = parser.expression().unwrap();
    let code = compile_statement(&AstStatement::Expression(e)).unwrap();
    let shown: Vec<String> = code.iter().map(show).collect();
    assert_eq!(shown, vec!["Num(1)", "Num(2)", "Binary(Add)", "Decl(\"x\")", "Pop"]);
}

#[test]
fn compile_puts_operands_before_operators() {
    assert_eq!(compiled("-a"), vec!["Get(\"a\")", "Unary(Minus)"]);
    assert_eq!(
        compiled("a * (b - 1)"),
        vec!["Get(\"a\")", "Get(\"b\")", "Num(1)", "Binary(Sub)", "Binary(Mul)"]
    );
    assert_eq!(compiled("\"s\""), vec!["Str(\"s\")"]);
    assert_eq!(compiled("5%"), vec!["Percentage(5)"]);
}

#[test]
fn compile_call_puts_the_callee_first() {
    assert_eq!(
        compiled("f(1, g(), x)"),
        vec!["Get(\"f\")", "Num(1)", "Get(\"g\")", "Call(0)", "Get(\"x\")", "Call(3)"]
    );
}

#[test]
fn compile_statements_end_each_with_a_pop() {
    let program = Parser::new(tokenise("onload {\n a\n b = 1\n}")).parse().unwrap();
    let AstTopLevelStatement::Event { body, .. } = &program.events[0];
    let code = compile_statements(body).unwrap();
    let shown: Vec<String> = code.iter().map(show).collect();
    assert_eq!(shown, vec!["Get(\"a\")", "Pop", "Num(1)", "Decl(\"b\")", "Pop"]);
    assert_eq!(compile_statements(&Vec::new()).unwrap().len(), 0);
}

#[test]
fn compile_expressions_in_order() {
    let a = Parser::new(tokenise("a")).expression().unwrap();
    let b = Parser::new(tokenise("!b")).expression().unwrap();
    let code = compile_expressions(&vec![a, b]).unwrap();
    let shown: Vec<String> = code.iter().map(show).collect();
    assert_eq!(shown, vec!["Get(\"a\")", "Get(\"b\")", "Unary(Invert)"]);
}

#[test]
fn compiled_handlers_leave_the_stack_as_deep_as_it_was() {
    let src = "onload {\n x = f(1, 2)(3) + -y ^ 2\n log(\"a\", x ?? 1, !!z)\n}";
    let program = Parser::new(tokenise(src)).parse().unwrap();
    let AstTopLevelStatement::Event { body, .. } = &program.events[0];
    let mut depth: i64 = 0;
    for ins in compile_statements(body).unwrap().iter() {
        match ins {
            VmInstruction::Str(_) | VmInstruction::Num(_) | VmInstruction::Get(_) => depth += 1,
            VmInstruction::Unary(_) | VmInstruction::Decl(_) => assert!(depth >= 1),
            VmInstruction::Binary(_) => {
                assert!(depth >= 2);
                depth -= 1;
            }
            VmInstruction::Call(n) => {
                assert!(depth > *n as i64);
                depth -= *n as i64;
            }
            VmInstruction::Pop => {
                assert!(depth >= 1);
                depth -= 1;
            }
            other => panic!("{:?}", other),
        }
    }
    assert_eq!(depth, 0);
}

#[test]
fn instruction_copies_and_names() {
    let inner = VmInstruction::Func {
        body: vec![VmInstruction::Get(String::from("a")), VmInstruction::Pop],
        args: vec![Parameter { name: String::from("p") }],
    };
    let all = vec![
        inner,
        VmInstruction::Obj { keys: vec![String::from("k")] },
        VmInstruction::Color(Color::rgb(1, 2, 3)),
        VmInstruction::AsiVar(String::from("v"), BinaryOp::Add),
        VmInstruction::Unary(UnaryOp::Boolify),
        VmInstruction::Dupe(2),
    ];
    let copy = copy_instructions(&all);
    assert_eq!(format!("{:?}", copy), format!("{:?}", all));
    let names: Vec<&str> = all.iter().map(|i| i.name()).collect();
    assert_eq!(names, vec!["Func", "Obj", "Color", "AsiVar", "Unary", "Dupe"]);
    assert_eq!(VmInstruction::JumpNotIf(String::new()).name(), "JumpNotIf");
}

#[test]
fn allocate_takes_the_lowest_free_slot() {
    let mut memory = Memory::new();
    let a = memory.allocate(num(1.0));
    let b = memory.allocate(num(2.0));
    let c = memory.allocate(num(3.0));
    assert_eq!((a.id.0, b.id.0, c.id.0), (0, 1, 2));
    assert_eq!(refs(&memory, b), 0);
    assert_eq!(memory.get_cell(b).id, MemId(1));
    memory.free(b);
    memory.free(a);
    assert!(!memory.has_cell(a));
    assert!(!memory.has_cell(b));
    assert!(memory.has_cell(c));
    assert_eq!(memory.cells.len(), 3);
    let d = memory.allocate(text("d"));
    assert_eq!(d.id.0, 0);
    let e = memory.allocate(text("e"));
    assert_eq!(e.id.0, 1);
    let f = memory.allocate(text("f"));
    assert_eq!(f.id.0, 3);
    assert_eq!(memory.cells.len(), 4);
}

#[test]
fn get_open_adds_a_free_slot_where_none_is_free() {
    let mut memory = Memory::new();
    assert_eq!(memory.get_open(), 0);
    assert_eq!(memory.cells.len(), 1);
    assert_eq!(memory.get_open(), 0);
    assert_eq!(memory.cells.len(), 1);
    memory.allocate(Value::Null);
    assert_eq!(memory.get_open_pointer(), ptr(1));
    assert_eq!(memory.cells.len(), 2);
}

#[test]
fn free_waits_for_the_last_reference() {
    let mut memory = Memory::new();
    let a = memory.allocate(num(1.0));
    memory.add_ref(a);
    memory.add_ref(a);
    assert_eq!(refs(&memory, a), 2);
    memory.free(a);
    assert!(memory.has_cell(a));
    memory.rm_ref(a);
    memory.free(a);
    assert!(memory.has_cell(a));
    memory.rm_ref(a);
    assert_eq!(refs(&memory, a), 0);
    memory.rm_ref(a);
    assert_eq!(refs(&memory, a), 0);
    a.free(&mut memory);
    assert!(!memory.has_cell(a));
    memory.free(a);
    memory.rm_ref(a);
    assert!(!memory.has_cell(a));
}

#[test]
fn free_and_rm_ref_pass_over_places_outside_the_table() {
    let mut memory = Memory::new();
    memory.allocate(Value::Null);
    assert!(!memory.has_cell(ptr(7)));
    memory.free(ptr(7));
    memory.rm_ref(ptr(7));
    assert_eq!(memory.cells.len(), 1);
    assert_eq!(live(&memory), 1);
}

#[test]
fn get_and_get_mut_reach_the_value() {
    let mut memory = Memory::new();
    let a = memory.allocate(text("a"));
    match memory.get(a) {
        Value::Str { data } => assert_eq!(data, "a"),
        other => panic!("{:?}", other),
    }
    *memory.get_mut(a) = Value::Bool { data: true };
    assert!(matches!(memory.get(a), Value::Bool { data: true }));
    memory.get_cell_mut(a).refs = 5;
    assert_eq!(refs(&memory, a), 5);
}

#[test]
fn freeing_an_array_releases_its_elements() {
    let mut memory = Memory::new();
    let a = memory.allocate(num(1.0));
    let b = memory.allocate(text("b"));
    memory.add_ref(a);
    memory.add_ref(b);
    memory.add_ref(b);
    let arr = memory.allocate(Value::Arr { elems: vec![a, b] });
    memory.free(arr);
    assert!(!memory.has_cell(arr));
    assert!(!memory.has_cell(a));
    assert!(memory.has_cell(b));
    assert_eq!(refs(&memory, b), 1);
}

#[test]
fn freeing_nested_containers_releases_everything_once() {
    let mut memory = Memory::new();
    let leaf = memory.allocate(num(1.0));
    memory.add_ref(leaf);
    memory.add_ref(leaf);
    let inner = memory.allocate(Value::Arr { elems: vec![leaf] });
    memory.add_ref(inner);
    let outer = memory.allocate(Value::Obj {
        data: vec![
            Entry { key: String::from("in"), ptr: inner },
            Entry { key: String::from("leaf"), ptr: leaf },
        ],
    });
    assert_eq!(live(&memory), 3);
    memory.free(outer);
    assert_eq!(live(&memory), 0);
}

#[test]
fn a_container_that_holds_itself_is_released_once() {
    let mut memory = Memory::new();
    let own = memory.get_open_pointer();
    let a = memory.allocate(Value::Arr { elems: vec![own, own, ptr(9)] });
    assert_eq!(a, own);
    memory.free(a);
    assert_eq!(live(&memory), 0);
}

#[test]
fn value_free_releases_what_the_value_holds() {
    let mut memory = Memory::new();
    let a = memory.allocate(num(1.0));
    memory.add_ref(a);
    let holder = Value::Arr { elems: vec![a] };
    holder.free(&mut memory);
    assert!(!memory.has_cell(a));
    num(1.0).free(&mut memory);
    assert_eq!(live(&memory), 0);
}

#[test]
fn scope_starts_with_one_layer() {
    let scope = Scope::new();
    assert_eq!(scope.layers.len(), 1);
    assert_eq!(scope.layers[0].entries.len(), 0);
    assert_eq!(scope.get_var("x"), None);
}

#[test]
fn lookup_goes_from_the_innermost_layer_outward() {
    let mut scope = Scope::new();
    scope.decl_var(String::from("x"), ptr(1));
    scope.decl_var(String::from("y"), ptr(2));
    scope.new_layer();
    scope.decl_var(String::from("x"), ptr(3));
    assert_eq!(scope.get_var("x"), Some(ptr(3)));
    assert_eq!(scope.get_var("y"), Some(ptr(2)));
    assert_eq!(scope.get_var("z"), None);
    let layer = scope.pop_layer();
    assert_eq!(layer.get("x"), Some(ptr(3)));
    assert_eq!(layer.get("y"), None);
    assert_eq!(scope.get_var("x"), Some(ptr(1)));
    scope.decl_var(String::from("x"), ptr(4));
    assert_eq!(scope.get_var("x"), Some(ptr(4)));
    assert_eq!(scope.layers[0].entries.len(), 2);
}

#[test]
fn set_var_rebinds_the_layer_in_which_a_lookup_finds_the_name() {
    let mut memory = Memory::new();
    let a = memory.allocate(Value::Null);
    let b = memory.allocate(Value::Null);
    let c = memory.allocate(Value::Null);
    let mut scope = Scope::new();
    scope.set_var(&mut memory, String::from("x"), a);
    scope.new_layer();
    scope.decl_var(String::from("x"), b);
    scope.set_var(&mut memory, String::from("x"), c);
    assert_eq!(scope.get_var("x").unwrap().id.0, c.id.0);
    assert_eq!(scope.layers[1].get("x"), Some(c));
    assert_eq!(scope.layers[0].get("x"), Some(a));
    assert!(memory.has_cell(a));
    assert_eq!(refs(&memory, a), 1);
    assert!(!memory.has_cell(b));
    assert_eq!(refs(&memory, c), 1);
    scope.set_var(&mut memory, String::from("y"), c);
    assert_eq!(scope.layers[1].get("y"), Some(c));
    assert_eq!(scope.layers[0].get("y"), None);
    assert_eq!(refs(&memory, c), 2);
}

#[test]
fn set_var_falls_back_to_an_outer_layer_that_binds_the_name() {
    let mut memory = Memory::new();
    let a = memory.allocate(num(1.0));
    let b = memory.allocate(num(2.0));
    let mut scope = Scope::new();
    scope.set_var(&mut memory, String::from("x"), a);
    scope.new_layer();
    scope.new_layer();
    scope.set_var(&mut memory, String::from("x"), b);
    assert_eq!(scope.layers[0].get("x"), Some(b));
    assert_eq!(scope.layers[1].entries.len(), 0);
    assert_eq!(scope.layers[2].entries.len(), 0);
    assert_eq!(scope.get_var("x"), Some(b));
    assert!(!memory.has_cell(a));
    assert_eq!(refs(&memory, b), 1);
}

#[test]
fn no_name_occurs_twice_in_a_layer() {
    let mut memory = Memory::new();
    let mut scope = Scope::new();
    for round in 0..3 {
        for name in ["a", "b", "a", "c", "b"] {
            let p = memory.allocate(num(round as f32));
            scope.set_var(&mut memory, String::from(name), p);
        }
        scope.decl_var(String::from("a"), ptr(0));
    }
    let names: Vec<&str> = scope.layers[0].entries.iter().map(|e| e.key.as_str()).collect();
    assert_eq!(names, vec!["a", "b", "c"]);
}

#[test]
fn redeclaring_releases_one_reference_and_holds_one() {
    let mut memory = Memory::new();
    let first = memory.allocate(num(1.0));
    let second = memory.allocate(num(2.0));
    let mut scope = Scope::new();
    scope.set_var(&mut memory, String::from("x"), first);
    assert_eq!(refs(&memory, first), 1);
    assert_eq!(scope.get_var("x"), Some(first));
    scope.set_var(&mut memory, String::from("x"), second);
    assert_eq!(scope.get_var("x"), Some(second));
    assert!(!memory.has_cell(first));
    assert_eq!(refs(&memory, second), 1);
    assert_eq!(scope.layers[0].entries.len(), 1);
}

#[test]
fn redeclaring_a_value_that_is_held_elsewhere_keeps_it() {
    let mut memory = Memory::new();
    let first = memory.allocate(num(1.0));
    let second = memory.allocate(num(2.0));
    memory.add_ref(first);
    memory.add_ref(first);
    let mut scope = Scope::new();
    scope.set_var(&mut memory, String::from("x"), first);
    assert_eq!(refs(&memory, first), 3);
    scope.set_var(&mut memory, String::from("x"), second);
    assert_eq!(refs(&memory, first), 2);
    assert_eq!(refs(&memory, second), 1);
}

#[test]
fn setting_a_name_to_its_own_value_releases_it() {
    let mut memory = Memory::new();
    let a = memory.allocate(num(1.0));
    let mut scope = Scope::new();
    scope.set_var(&mut memory, String::from("x"), a);
    scope.set_var(&mut memory, String::from("x"), a);
    assert_eq!(refs(&memory, a), 1);
}

#[test]
fn free_scope_gives_up_the_references_of_a_layer() {
    let mut memory = Memory::new();
    let baseline = live(&memory);
    let a = memory.allocate(num(1.0));
    let b = memory.allocate(text("b"));
    let mut scope = Scope::new();
    scope.new_layer();
    scope.set_var(&mut memory, String::from("a"), a);
    scope.set_var(&mut memory, String::from("b"), b);
    scope.set_var(&mut memory, String::from("c"), b);
    assert_eq!(live(&memory), 2);
    let layer = scope.pop_layer();
    scope.free_scope(&mut memory, &layer);
    assert_eq!(live(&memory), baseline);
    assert_eq!(scope.layers.len(), 1);
}

#[test]
fn layer_insert_replaces_in_place() {
    let mut layer = Layer::new();
    layer.insert(String::from("a"), ptr(1));
    layer.insert(String::from("b"), ptr(2));
    layer.insert(String::from("a"), ptr(3));
    assert_eq!(layer.entries.len(), 2);
    assert_eq!(layer.index_of("a"), 0);
    assert_eq!(layer.index_of("b"), 1);
    assert_eq!(layer.index_of("c"), 2);
    assert_eq!(layer.get("a"), Some(ptr(3)));
}

#[test]
fn value_kinds_and_names() {
    let values = vec![
        (Value::Type { data: TypeValue::Num }, TypeValue::Type, "type"),
        (Value::Null, TypeValue::Null, "null"),
        (text("s"), TypeValue::Str, "str"),
        (num(1.0), TypeValue::Num, "num"),
        (Value::Percentage { data: Number { bits: 0 } }, TypeValue::Percentage, "percentage"),
        (Value::Bool { data: true }, TypeValue::Bool, "bool"),
        (Value::Function(Function::Builtin(BuiltinFunction::Log)), TypeValue::Function, "function"),
        (Value::Arr { elems: vec![] }, TypeValue::Arr, "arr"),
        (Value::Obj { data: vec![] }, TypeValue::Obj, "obj"),
        (Value::Color { data: Color::rgb(0, 0, 0) }, TypeValue::Color, "color"),
    ];
    for (v, kind, name) in values.iter() {
        assert_eq!(v.get_type(), *kind);
        assert_eq!(v.get_type().name(), *name);
        assert_eq!(format!("{:?}", v.copy()), format!("{:?}", v));
    }
}

#[test]
fn value_as_number() {
    let one = |v: &Value| f32::from_bits(v.to_number().bits);
    assert_eq!(one(&num(2.5)), 2.5);
    assert_eq!(one(&Value::Percentage { data: Number { bits: 50f32.to_bits() } }), 50.0);
    assert_eq!(one(&Value::Bool { data: true }), 1.0);
    assert_eq!(one(&Value::Bool { data: false }), 0.0);
    assert!(one(&Value::Null).is_nan());
    assert!(one(&text("12")).is_nan());
    assert!(one(&Value::Arr { elems: vec![] }).is_nan());
}

#[test]
fn value_as_truth_value() {
    assert!(!Value::Null.to_bool());
    assert!(!text("").to_bool());
    assert!(text("0").to_bool());
    assert!(num(0.5).to_bool());
    assert!(!num(0.0).to_bool());
    assert!(!num(-1.0).to_bool());
    assert!(!num(f32::NAN).to_bool());
    assert!(!Value::Percentage { data: Number { bits: 0 } }.to_bool());
    assert!(Value::Percentage { data: Number { bits: 1f32.to_bits() } }.to_bool());
    assert!(Value::Bool { data: true }.to_bool());
    assert!(!Value::Bool { data: false }.to_bool());
    assert!(Value::Arr { elems: vec![] }.to_bool());
    assert!(Value::Function(Function::Builtin(BuiltinFunction::Log)).to_bool());
    assert!(Value::Color { data: Color::rgb(0, 0, 0) }.to_bool());
}

#[test]
fn expression_without_a_subject_is_not_needed() {
    let e = Parser::new(tokenise("a")).expression().unwrap();
    assert!(matches!(e, AstExpression::Variable { .. }));
}
