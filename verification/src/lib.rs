//! Springroll: a verified sprite-atlas layout engine.
//!
//! The library packs a name-keyed collection of sprites into one or more
//! fixed-size square spritesheet pages using row ("shelf") packing, and
//! records for every sprite the page it landed on and its placed rectangle.
//! Fetching image data and rasterizing it are left to the surrounding
//! application; the library decides, deterministically, where everything goes.

use vstd::prelude::*;

pub mod casings;
pub mod layout;
pub mod outputs;
pub mod sources;
pub mod text;

use crate::sources::SpriteSpecifier;
use crate::text::{spec_decimal, spec_replace};
use std::collections::HashMap;

pub use crate::layout::spritegen;

verus! {

/// Sizing and naming configuration for one spritesheet run.
#[derive(Debug, Clone)]
pub struct Spritegen {
    /// Side length, in pixels, of each (square) spritesheet page.
    pub spritesheet_size: u32,
    /// Number of sprite cells in each row (and column) of a page.
    pub sprites_per_row: u32,
    /// Template for page names; `$name` and `$index` are substituted.
    pub name_format: String,
}

/// Everything needed to generate one spritesheet: sizing, output targets,
/// and the named sprites to pack.
#[derive(Debug, Clone)]
pub struct SpritesheetSpecifier {
    pub spritegen: Spritegen,
    pub outputs: Vec<crate::outputs::OutputSpecifier>,
    pub sprites: HashMap<String, SpriteSpecifier>,
}

/// A full configuration: one specifier per named spritesheet.
#[derive(Debug, Clone)]
pub struct Config {
    pub spritesheets: HashMap<String, SpritesheetSpecifier>,
}

/// Where one sprite landed: its page and its placed rectangle.  `width` and
/// `height` are the source's intrinsic dimensions, not the cell size.
#[derive(Debug, Clone, PartialEq, Eq)]
pub struct Sprite {
    pub pixmap_key: String,
    pub x: u32,
    pub y: u32,
    pub width: u32,
    pub height: u32,
}

/// The mathematical value of a placement record.
#[verifier::ext_equal]
pub ghost struct SpriteV {
    pub pixmap_key: Seq<char>,
    pub x: nat,
    pub y: nat,
    pub width: nat,
    pub height: nat,
}

impl View for Sprite {
    type V = SpriteV;

    open spec fn view(&self) -> SpriteV {
        SpriteV {
            pixmap_key: self.pixmap_key@,
            x: self.x as nat,
            y: self.y as nat,
            width: self.width as nat,
            height: self.height as nat,
        }
    }
}

/// The result of one spritesheet run: the page names that were produced, in
/// order, and the placement record for every sprite that was packed.
/// The pixel content of each page is composed by the caller from these
/// placements; the library decides only where everything goes.
#[derive(Debug, Clone, PartialEq, Eq)]
pub struct Spritesheet {
    pub pixmap_keys: Vec<String>,
    pub sprites: Vec<(String, Sprite)>,
}

/// The default page-name template: the sheet name followed by the page index.
pub fn default_name_format() -> (r: String)
    ensures
        r@ == "$name$index"@,
{
    String::from_str("$name$index")
}

/// The page name obtained from a template by substituting the sheet name for
/// `$name` and the decimal page index for `$index`, in that order.
pub open spec fn spec_format_name(format: Seq<char>, name: Seq<char>, index: nat) -> Seq<char> {
    spec_replace(spec_replace(format, "$name"@, name), "$index"@, spec_decimal(index))
}

/// Resolve a page-name template: `$name` becomes the sheet name, and
/// after that `$index` becomes the decimal page index.
pub fn format_spritegen_name(format: &str, name: &str, index: &usize) -> (r: String)
    ensures
        r@ == spec_format_name(format@, name@, *index as nat),
{
    proof {
        reveal_strlit("$name");
        reveal_strlit("$index");
    }
    let with_name = crate::text::replace_all(format, "$name", name);
    let digits = crate::text::format_decimal(*index);
    crate::text::replace_all(with_name.as_str(), "$index", digits.as_str())
}

} // verus!
