//! Descriptions of where sprites come from, and the resolved form the
//! layout engine works on.
//!
//! Fetching and decoding image data is the caller's job; the library only
//! needs to know, for each resolved sprite, which kind it is and its
//! intrinsic dimensions.

use vstd::prelude::*;

pub mod fluent;
pub mod font_awesome;
pub mod luicide;
pub mod material_symbols;
pub mod path;

verus! {

/// A configuration-level description of where to obtain one sprite.
#[derive(Debug, Clone, PartialEq, Eq)]
#[non_exhaustive]
pub enum SpriteSpecifier {
    Fluent(self::fluent::FluentSource),
    FontAwesome(self::font_awesome::FontAwesomeSource),
    Luicide(self::luicide::LuicideSource),
    MaterialSymbols(self::material_symbols::MaterialSymbolsSource),
    Path(self::path::PathSource),
}

/// A resolved sprite source as the layout engine sees it: either a raster
/// pixmap or a vector tree, each with its intrinsic dimensions in pixels.
/// The decoded image data itself stays with the caller, which composes the
/// pages from the placements the engine returns.
#[derive(Debug, Clone, PartialEq, Eq)]
pub enum SpriteSource {
    Pixmap { width: u32, height: u32 },
    Tree { width: u32, height: u32 },
}

impl SpriteSource {
    /// The intrinsic width of the source image.
    pub fn width(&self) -> (r: u32)
        ensures
            r == self.spec_width(),
    {
        match self {
            SpriteSource::Pixmap { width, .. } => *width,
            SpriteSource::Tree { width, .. } => *width,
        }
    }

    /// The intrinsic height of the source image.
    pub fn height(&self) -> (r: u32)
        ensures
            r == self.spec_height(),
    {
        match self {
            SpriteSource::Pixmap { height, .. } => *height,
            SpriteSource::Tree { height, .. } => *height,
        }
    }

    pub open spec fn spec_width(&self) -> u32 {
        match self {
            SpriteSource::Pixmap { width, .. } => *width,
            SpriteSource::Tree { width, .. } => *width,
        }
    }

    pub open spec fn spec_height(&self) -> u32 {
        match self {
            SpriteSource::Pixmap { height, .. } => *height,
            SpriteSource::Tree { height, .. } => *height,
        }
    }
}

} // verus!
