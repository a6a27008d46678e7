//! Sprite source for Fluent icons.  Fetching is not implemented; the
//! specifier exists so configurations can already name it.

use vstd::prelude::*;

verus! {

#[derive(Debug, Clone, PartialEq, Eq)]
pub enum FluentStyle {
    Filled,
    Outlined,
}

impl Default for FluentStyle {
    fn default() -> (r: Self)
        ensures
            r == FluentStyle::Filled,
    {
        FluentStyle::Filled
    }
}

#[derive(Debug, Clone, PartialEq, Eq)]
pub struct FluentSource {
    pub icon: String,
    pub style: FluentStyle,
}

} // verus!
