use crate::shared::color::Color;
use vstd::prelude::*;

verus! {

/// The colors of a user interface.
#[derive(Clone, Copy, Debug, PartialEq, Eq, Structural)]
pub struct Theme {
    pub background: Color,
    pub primary: Color,
    pub secondary: Color,
    pub tertiary: Color,
    pub text: Color,
    pub accent: Color,
}

impl Theme {
    /// The dark theme that is used where none is chosen.
    pub open spec fn spec_default() -> Theme {
        Theme {
            background: Color { r: 0x09, g: 0x0a, b: 0x0b, a: 255 },
            primary: Color { r: 0x1a, g: 0x1d, b: 0x28, a: 255 },
            secondary: Color { r: 0x31, g: 0x3f, b: 0x4e, a: 255 },
            tertiary: Color { r: 0x4f, g: 0x61, b: 0x7d, a: 255 },
            text: Color { r: 0xb3, g: 0xcb, b: 0xf9, a: 255 },
            accent: Color { r: 0xa6, g: 0x00, b: 0xff, a: 255 },
        }
    }
}

impl Default for Theme {
    fn default() -> (theme: Theme)
        ensures
            theme == Theme::spec_default(),
    {
        Theme {
            background: Color::rgb(0x09, 0x0a, 0x0b),
            primary: Color::rgb(0x1a, 0x1d, 0x28),
            secondary: Color::rgb(0x31, 0x3f, 0x4e),
            tertiary: Color::rgb(0x4f, 0x61, 0x7d),
            text: Color::rgb(0xb3, 0xcb, 0xf9),
            accent: Color::rgb(0xa6, 0x00, 0xff),
        }
    }
}

} // verus!
