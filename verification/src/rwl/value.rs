use crate::rtr::number::Number;
use crate::shared::color::Color;
use crate::shared::theme::Theme;
use vstd::prelude::*;

verus! {

/// A color of the theme.
#[derive(Clone, Copy, Debug, PartialEq, Eq, Structural)]
pub enum ThemeProperty {
    Back,
    Prim,
    Seco,
    Tert,
    Text,
    Accent,
}

/// A value that is looked up when it is used.
#[derive(Clone, Copy, Debug, PartialEq, Eq, Structural)]
pub enum PropertyPath {
    Theme(ThemeProperty),
}

/// A value of the markup language.
#[derive(Debug)]
pub enum Value {
    Str(String),
    Num(Number),
    Percentage(Number),
    Color(Color),
    Property(PropertyPath),
}

/// The mathematical value of a [`Value`].
pub enum ValueModel {
    Str(Seq<char>),
    Num(Number),
    Percentage(Number),
    Color(Color),
    Property(PropertyPath),
}

impl View for Value {
    type V = ValueModel;

    open spec fn view(&self) -> ValueModel {
        match self {
            Value::Str(s) => ValueModel::Str(s@),
            Value::Num(n) => ValueModel::Num(*n),
            Value::Percentage(n) => ValueModel::Percentage(*n),
            Value::Color(c) => ValueModel::Color(*c),
            Value::Property(p) => ValueModel::Property(*p),
        }
    }
}

impl ThemeProperty {
    /// The color of the theme that the property names.
    pub open spec fn spec_pick(self, theme: Theme) -> Color {
        match self {
            ThemeProperty::Back => theme.background,
            ThemeProperty::Prim => theme.primary,
            ThemeProperty::Seco => theme.secondary,
            ThemeProperty::Tert => theme.tertiary,
            ThemeProperty::Text => theme.text,
            ThemeProperty::Accent => theme.accent,
        }
    }
}

impl ValueModel {
    /// The name of the kind of the value. A property of the theme counts
    /// as a color.
    pub open spec fn kind_name(self) -> Seq<char> {
        match self {
            ValueModel::Str(_) => "str"@,
            ValueModel::Num(_) => "num"@,
            ValueModel::Percentage(_) => "percentage"@,
            ValueModel::Color(_) => "color"@,
            ValueModel::Property(_) => "color"@,
        }
    }

    /// True when the value gives a color.
    pub open spec fn is_color(self) -> bool {
        self is Color || self is Property
    }

    /// The color that the value gives under `theme`.
    pub open spec fn color(self, theme: Theme) -> Color
        recommends
            self.is_color(),
    {
        match self {
            ValueModel::Property(PropertyPath::Theme(p)) => p.spec_pick(theme),
            ValueModel::Color(c) => c,
            _ => theme.text,
        }
    }
}

impl Value {
    /// A copy of the value.
    pub fn copy(&self) -> (out: Value)
        ensures
            out@ == self@,
    {
        match self {
            Value::Str(s) => Value::Str(s.clone()),
            Value::Num(n) => Value::Num(*n),
            Value::Percentage(n) => Value::Percentage(*n),
            Value::Color(c) => Value::Color(*c),
            Value::Property(p) => Value::Property(*p),
        }
    }

    /// The name of the kind of the value.
    pub fn get_type(&self) -> (name: &'static str)
        ensures
            name@ == self@.kind_name(),
    {
        match self {
            Value::Str(_) => "str",
            Value::Num(_) => "num",
            Value::Percentage(_) => "percentage",
            Value::Color(_) => "color",
            Value::Property(PropertyPath::Theme(_)) => "color",
        }
    }

    /// The text of a string.
    pub fn get_str(&self) -> (s: &String)
        requires
            self@ is Str,
        ensures
            s@ == self@->Str_0,
    {
        match self {
            Value::Str(s) => s,
            _ => vstd::pervasive::unreached(),
        }
    }

    /// The number of a number.
    pub fn get_num(&self) -> (n: Number)
        requires
            self@ is Num,
        ensures
            n == self@->Num_0,
    {
        match self {
            Value::Num(n) => *n,
            _ => vstd::pervasive::unreached(),
        }
    }

    /// The number of a percentage.
    pub fn get_percentage(&self) -> (n: Number)
        requires
            self@ is Percentage,
        ensures
            n == self@->Percentage_0,
    {
        match self {
            Value::Percentage(n) => *n,
            _ => vstd::pervasive::unreached(),
        }
    }

    /// The color that the value gives under `theme`.
    pub fn get_color(&self, theme: &Theme) -> (c: Color)
        requires
            self@.is_color(),
        ensures
            c == self@.color(*theme),
    {
        match self {
            Value::Color(color) => *color,
            Value::Property(PropertyPath::Theme(ThemeProperty::Back)) => theme.background,
            Value::Property(PropertyPath::Theme(ThemeProperty::Prim)) => theme.primary,
            Value::Property(PropertyPath::Theme(ThemeProperty::Seco)) => theme.secondary,
            Value::Property(PropertyPath::Theme(ThemeProperty::Tert)) => theme.tertiary,
            Value::Property(PropertyPath::Theme(ThemeProperty::Text)) => theme.text,
            Value::Property(PropertyPath::Theme(ThemeProperty::Accent)) => theme.accent,
            _ => vstd::pervasive::unreached(),
        }
    }
}

} // verus!
