use crate::rtr::ast::node::Parameter;
use crate::rtr::number::Number;
use crate::rtr::runtime::instruction::{
    copy_instructions, copy_parameters, instruction_models, parameter_models, InstrModel,
    VmInstruction,
};
use crate::rtr::runtime::kernel::{apply_render, render_of, render_ok};
use crate::rtr::runtime::memory::MemPointer;
use crate::shared::color::Color;
use vstd::prelude::*;
use vstd::string::StringExecFns;

verus! {

/// The kind of a value.
#[derive(Clone, Copy, Debug, PartialEq, Eq, Structural)]
pub enum TypeValue {
    Type,
    Null,
    Str,
    Num,
    Percentage,
    Bool,
    Function,
    Arr,
    Obj,
    Color,
}

impl TypeValue {
    /// The name of the kind.
    pub open spec fn spec_name(self) -> Seq<char> {
        match self {
            TypeValue::Type => "type"@,
            TypeValue::Null => "null"@,
            TypeValue::Str => "str"@,
            TypeValue::Num => "num"@,
            TypeValue::Percentage => "percentage"@,
            TypeValue::Bool => "bool"@,
            TypeValue::Function => "function"@,
            TypeValue::Arr => "arr"@,
            TypeValue::Obj => "obj"@,
            TypeValue::Color => "color"@,
        }
    }

    /// The name of the kind.
    pub fn name(self) -> (s: &'static str)
        ensures
            s@ == self.spec_name(),
    {
        match self {
            TypeValue::Type => "type",
            TypeValue::Null => "null",
            TypeValue::Str => "str",
            TypeValue::Num => "num",
            TypeValue::Percentage => "percentage",
            TypeValue::Bool => "bool",
            TypeValue::Function => "function",
            TypeValue::Arr => "arr",
            TypeValue::Obj => "obj",
            TypeValue::Color => "color",
        }
    }
}

/// The functions that the host provides.
#[derive(Clone, Copy, Debug, PartialEq, Eq, Structural)]
pub enum BuiltinFunction {
    Log,
}

/// A function value: one of the host, or one of the script with its body
/// and parameters.
#[derive(Debug)]
pub enum Function {
    Builtin(BuiltinFunction),
    Vm { body: Vec<VmInstruction>, args: Vec<Parameter> },
}

/// The mathematical value of a [`Function`].
pub enum FunctionModel {
    Builtin(BuiltinFunction),
    Vm { body: Seq<InstrModel>, args: Seq<Seq<char>> },
}

impl View for Function {
    type V = FunctionModel;

    open spec fn view(&self) -> FunctionModel {
        match self {
            Function::Builtin(b) => FunctionModel::Builtin(*b),
            Function::Vm { body, args } => FunctionModel::Vm {
                body: instruction_models(body@),
                args: parameter_models(args@),
            },
        }
    }
}

/// One entry of an object: a key and the place of its value.
#[derive(Debug)]
pub struct Entry {
    pub key: String,
    pub ptr: MemPointer,
}

/// The mathematical value of an [`Entry`].
pub struct EntryModel {
    pub key: Seq<char>,
    pub ptr: MemPointer,
}

impl View for Entry {
    type V = EntryModel;

    open spec fn view(&self) -> EntryModel {
        EntryModel { key: self.key@, ptr: self.ptr }
    }
}

/// The models of a sequence of entries.
pub open spec fn entry_models(entries: Seq<Entry>) -> Seq<EntryModel> {
    Seq::new(entries.len(), |i: int| entries[i]@)
}

/// A value of the script language. Arrays and objects hold the places of
/// their elements, not the elements.
#[derive(Debug)]
#[allow(inconsistent_fields)]
pub enum Value {
    Type { data: TypeValue },
    Null,
    Str { data: String },
    Num { data: Number },
    Percentage { data: Number },
    Bool { data: bool },
    Function(Function),
    Arr { elems: Vec<MemPointer> },
    Obj { data: Vec<Entry> },
    Color { data: Color },
}

/// The mathematical value of a [`Value`].
#[allow(inconsistent_fields)]
pub enum ValueModel {
    Type { data: TypeValue },
    Null,
    Str { data: Seq<char> },
    Num { data: Number },
    Percentage { data: Number },
    Bool { data: bool },
    Function(FunctionModel),
    Arr { elems: Seq<MemPointer> },
    Obj { data: Seq<EntryModel> },
    Color { data: Color },
}

impl View for Value {
    type V = ValueModel;

    open spec fn view(&self) -> ValueModel {
        match self {
            Value::Type { data } => ValueModel::Type { data: *data },
            Value::Null => ValueModel::Null,
            Value::Str { data } => ValueModel::Str { data: data@ },
            Value::Num { data } => ValueModel::Num { data: *data },
            Value::Percentage { data } => ValueModel::Percentage { data: *data },
            Value::Bool { data } => ValueModel::Bool { data: *data },
            Value::Function(f) => ValueModel::Function(f@),
            Value::Arr { elems } => ValueModel::Arr { elems: elems@ },
            Value::Obj { data } => ValueModel::Obj { data: entry_models(data@) },
            Value::Color { data } => ValueModel::Color { data: *data },
        }
    }
}

impl ValueModel {
    /// The kind of the value.
    pub open spec fn get_type(self) -> TypeValue {
        match self {
            ValueModel::Type { .. } => TypeValue::Type,
            ValueModel::Null => TypeValue::Null,
            ValueModel::Str { .. } => TypeValue::Str,
            ValueModel::Num { .. } => TypeValue::Num,
            ValueModel::Percentage { .. } => TypeValue::Percentage,
            ValueModel::Bool { .. } => TypeValue::Bool,
            ValueModel::Function(_) => TypeValue::Function,
            ValueModel::Arr { .. } => TypeValue::Arr,
            ValueModel::Obj { .. } => TypeValue::Obj,
            ValueModel::Color { .. } => TypeValue::Color,
        }
    }

    /// The value as a number: a number or a percentage is itself, `true` is
    /// 1 and `false` is 0, anything else is not a number.
    pub open spec fn to_number(self) -> Number {
        match self {
            ValueModel::Num { data } => data,
            ValueModel::Percentage { data } => data,
            ValueModel::Bool { data } => Number::spec_from_bool(data),
            _ => Number::spec_nan(),
        }
    }

    /// The value as a truth value: null, the empty string and a number or
    /// percentage that is not above zero are false; a truth value is
    /// itself; anything else is true.
    pub open spec fn to_bool(self) -> bool {
        match self {
            ValueModel::Null => false,
            ValueModel::Str { data } => data.len() > 0,
            ValueModel::Num { data } => data.spec_is_positive(),
            ValueModel::Percentage { data } => data.spec_is_positive(),
            ValueModel::Bool { data } => data,
            _ => true,
        }
    }

    /// The value as text, with `render` giving the text of a number: a
    /// string is its own text, a percentage is its number followed by a
    /// percent sign, and a value of another kind than null, string, number,
    /// percentage and truth value is the name of its kind in angle
    /// brackets.
    pub open spec fn to_text(self, render: spec_fn(Number) -> Seq<char>) -> Seq<char> {
        match self {
            ValueModel::Null => "null"@,
            ValueModel::Str { data } => data,
            ValueModel::Num { data } => render(data),
            ValueModel::Percentage { data } => render(data) + "%"@,
            ValueModel::Bool { data } => if data {
                "true"@
            } else {
                "false"@
            },
            _ => "<"@ + self.get_type().spec_name() + ">"@,
        }
    }

    /// The places that the value holds: the elements of an array, the
    /// values of an object's entries.
    pub open spec fn children(self) -> Seq<MemPointer> {
        match self {
            ValueModel::Arr { elems } => elems,
            ValueModel::Obj { data } => Seq::new(data.len(), |i: int| data[i].ptr),
            _ => Seq::empty(),
        }
    }
}

fn copy_entries(entries: &Vec<Entry>) -> (out: Vec<Entry>)
    ensures
        entry_models(out@) == entry_models(entries@),
{
    let mut out: Vec<Entry> = Vec::new();
    let mut i: usize = 0;
    while i < entries.len()
        invariant
            0 <= i <= entries@.len(),
            out@.len() == i,
            forall|k: int| 0 <= k < i ==> (#[trigger] out@[k])@ == entries@[k]@,
        decreases entries@.len() - i,
    {
        out.push(Entry { key: entries[i].key.clone(), ptr: entries[i].ptr });
        i += 1;
    }
    assert(entry_models(out@) =~= entry_models(entries@));
    out
}

fn copy_pointers(ptrs: &Vec<MemPointer>) -> (out: Vec<MemPointer>)
    ensures
        out@ == ptrs@,
{
    let mut out: Vec<MemPointer> = Vec::new();
    let mut i: usize = 0;
    while i < ptrs.len()
        invariant
            0 <= i <= ptrs@.len(),
            out@ == ptrs@.take(i as int),
        decreases ptrs@.len() - i,
    {
        out.push(ptrs[i]);
        i += 1;
        assert(ptrs@.take(i as int) == ptrs@.take(i - 1).push(ptrs@[i - 1]));
    }
    assert(ptrs@.take(ptrs@.len() as int) == ptrs@);
    out
}

impl Value {
    /// The kind of the value.
    pub fn get_type(&self) -> (t: TypeValue)
        ensures
            t == self@.get_type(),
    {
        match self {
            Value::Type { .. } => TypeValue::Type,
            Value::Null => TypeValue::Null,
            Value::Str { .. } => TypeValue::Str,
            Value::Num { .. } => TypeValue::Num,
            Value::Percentage { .. } => TypeValue::Percentage,
            Value::Bool { .. } => TypeValue::Bool,
            Value::Function(_) => TypeValue::Function,
            Value::Arr { .. } => TypeValue::Arr,
            Value::Obj { .. } => TypeValue::Obj,
            Value::Color { .. } => TypeValue::Color,
        }
    }

    /// A copy of the value. The copy of an array or an object holds the
    /// same places.
    pub fn copy(&self) -> (out: Value)
        ensures
            out@ == self@,
    {
        match self {
            Value::Type { data } => Value::Type { data: *data },
            Value::Null => Value::Null,
            Value::Str { data } => Value::Str { data: data.clone() },
            Value::Num { data } => Value::Num { data: *data },
            Value::Percentage { data } => Value::Percentage { data: *data },
            Value::Bool { data } => Value::Bool { data: *data },
            Value::Function(Function::Builtin(b)) => Value::Function(Function::Builtin(*b)),
            Value::Function(Function::Vm { body, args }) => Value::Function(
                Function::Vm { body: copy_instructions(body), args: copy_parameters(args) },
            ),
            Value::Arr { elems } => Value::Arr { elems: copy_pointers(elems) },
            Value::Obj { data } => Value::Obj { data: copy_entries(data) },
            Value::Color { data } => Value::Color { data: *data },
        }
    }

    /// The value as a number.
    pub fn to_number(&self) -> (n: Number)
        ensures
            n == self@.to_number(),
    {
        match self {
            Value::Num { data } => *data,
            Value::Percentage { data } => *data,
            Value::Bool { data } => Number::from_bool(*data),
            _ => Number::nan(),
        }
    }

    /// The value as a truth value.
    pub fn to_bool(&self) -> (b: bool)
        ensures
            b == self@.to_bool(),
    {
        match self {
            Value::Null => false,
            Value::Str { data } => !data.as_str().is_empty(),
            Value::Num { data } => data.is_positive(),
            Value::Percentage { data } => data.is_positive(),
            Value::Bool { data } => *data,
            _ => true,
        }
    }

    /// The value as text; `render` gives the text of a number.
    pub fn to_text<R: Fn(Number) -> String>(&self, render: &R) -> (s: String)
        requires
            render_ok(render),
        ensures
            s@ == self@.to_text(render_of(render)),
    {
        match self {
            Value::Null => String::from_str("null"),
            Value::Str { data } => data.clone(),
            Value::Num { data } => apply_render(render, *data),
            Value::Percentage { data } => {
                let mut s = apply_render(render, *data);
                s.append("%");
                s
            },
            Value::Bool { data } => if *data {
                String::from_str("true")
            } else {
                String::from_str("false")
            },
            _ => {
                let mut s = String::from_str("<");
                s.append(self.get_type().name());
                s.append(">");
                s
            },
        }
    }
}

} // verus!
