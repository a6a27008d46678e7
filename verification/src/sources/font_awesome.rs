//! Sprite source for Font Awesome icons.  Fetching is not implemented; the
//! specifier exists so configurations can already name it.

use vstd::prelude::*;

verus! {

#[derive(Debug, Clone, PartialEq, Eq)]
pub enum FontAwesomeStyle {
    Solid,
    Regular,
    Light,
    Thin,
}

impl Default for FontAwesomeStyle {
    fn default() -> (r: Self)
        ensures
            r == FontAwesomeStyle::Solid,
    {
        FontAwesomeStyle::Solid
    }
}

#[derive(Debug, Clone, PartialEq, Eq)]
pub enum FontAwesomePack {
    Brand,
    Classic,
    Duotone,
    Sharp,
    SharpDuotone,
}

impl Default for FontAwesomePack {
    fn default() -> (r: Self)
        ensures
            r == FontAwesomePack::Classic,
    {
        FontAwesomePack::Classic
    }
}

#[derive(Debug, Clone, PartialEq, Eq)]
pub struct FontAwesomeSource {
    pub icon: String,
    pub style: FontAwesomeStyle,
    pub pack: FontAwesomePack,
}

} // verus!
