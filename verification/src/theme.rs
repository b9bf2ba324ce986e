//! Color themes for the surrounding terminal UI, chosen by name; the colors
//! themselves live with the rendering layer.

use crate::text::str_eq;
use vstd::prelude::*;

verus! {

/// The selectable UI themes.
#[derive(Clone, Copy, Debug, PartialEq, Eq, Structural)]
pub enum Theme {
    Dark,
    Light,
}

impl Theme {
    /// The theme a name selects: `"light"` picks the light theme and any
    /// other name the dark one.
    pub fn new(theme: &str) -> (r: Theme)
        ensures
            r == (if theme@ == "light"@ {
                Theme::Light
            } else {
                Theme::Dark
            }),
    {
        if str_eq(theme, "light") {
            Theme::Light
        } else {
            Theme::Dark
        }
    }
}

} // verus!
