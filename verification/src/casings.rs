//! Identifier casings for generated code, and the cased spellings of the
//! identifiers that the code generators emit.

use vstd::prelude::*;

verus! {

/// A naming convention for identifiers in generated code.
#[derive(Debug, Clone, PartialEq, Eq)]
#[non_exhaustive]
pub enum Casing {
    Snake,
    ScreamingSnake,
    Pascal,
    Camel,
    Lower,
    Upper,
}

impl Default for Casing {
    fn default() -> (r: Self)
        ensures
            r == Casing::Snake,
    {
        Casing::Snake
    }
}

/// The word `sprite` under each casing.
pub open spec fn spec_cased_sprite(c: Casing) -> Seq<char> {
    match c {
        Casing::Snake => "sprite"@,
        Casing::ScreamingSnake => "SPRITE"@,
        Casing::Pascal => "Sprite"@,
        Casing::Camel => "sprite"@,
        Casing::Lower => "sprite"@,
        Casing::Upper => "SPRITE"@,
    }
}

/// The word `spritesheet` under each casing.
pub open spec fn spec_cased_spritesheet(c: Casing) -> Seq<char> {
    match c {
        Casing::Snake => "spritesheet"@,
        Casing::ScreamingSnake => "SPRITESHEET"@,
        Casing::Pascal => "Spritesheet"@,
        Casing::Camel => "spritesheet"@,
        Casing::Lower => "spritesheet"@,
        Casing::Upper => "SPRITESHEET"@,
    }
}

/// The word `x` under each casing.
pub open spec fn spec_cased_x(c: Casing) -> Seq<char> {
    match c {
        Casing::Snake => "x"@,
        Casing::ScreamingSnake => "X"@,
        Casing::Pascal => "X"@,
        Casing::Camel => "x"@,
        Casing::Lower => "x"@,
        Casing::Upper => "X"@,
    }
}

/// The word `y` under each casing.
pub open spec fn spec_cased_y(c: Casing) -> Seq<char> {
    match c {
        Casing::Snake => "y"@,
        Casing::ScreamingSnake => "Y"@,
        Casing::Pascal => "Y"@,
        Casing::Camel => "y"@,
        Casing::Lower => "y"@,
        Casing::Upper => "Y"@,
    }
}

/// The word `width` under each casing.
pub open spec fn spec_cased_width(c: Casing) -> Seq<char> {
    match c {
        Casing::Snake => "width"@,
        Casing::ScreamingSnake => "WIDTH"@,
        Casing::Pascal => "Width"@,
        Casing::Camel => "width"@,
        Casing::Lower => "width"@,
        Casing::Upper => "WIDTH"@,
    }
}

/// The word `height` under each casing.
pub open spec fn spec_cased_height(c: Casing) -> Seq<char> {
    match c {
        Casing::Snake => "height"@,
        Casing::ScreamingSnake => "HEIGHT"@,
        Casing::Pascal => "Height"@,
        Casing::Camel => "height"@,
        Casing::Lower => "height"@,
        Casing::Upper => "HEIGHT"@,
    }
}

/// The word `sprite` cased as `c`.
pub fn cased_sprite(c: &Casing) -> (r: &'static str)
    ensures
        r@ == spec_cased_sprite(*c),
{
    match c {
        Casing::Snake => "sprite",
        Casing::ScreamingSnake => "SPRITE",
        Casing::Pascal => "Sprite",
        Casing::Camel => "sprite",
        Casing::Lower => "sprite",
        Casing::Upper => "SPRITE",
    }
}

/// The word `spritesheet` cased as `c`.
pub fn cased_spritesheet(c: &Casing) -> (r: &'static str)
    ensures
        r@ == spec_cased_spritesheet(*c),
{
    match c {
        Casing::Snake => "spritesheet",
        Casing::ScreamingSnake => "SPRITESHEET",
        Casing::Pascal => "Spritesheet",
        Casing::Camel => "spritesheet",
        Casing::Lower => "spritesheet",
        Casing::Upper => "SPRITESHEET",
    }
}

/// The word `x` cased as `c`.
pub fn cased_x(c: &Casing) -> (r: &'static str)
    ensures
        r@ == spec_cased_x(*c),
{
    match c {
        Casing::Snake => "x",
        Casing::ScreamingSnake => "X",
        Casing::Pascal => "X",
        Casing::Camel => "x",
        Casing::Lower => "x",
        Casing::Upper => "X",
    }
}

/// The word `y` cased as `c`.
pub fn cased_y(c: &Casing) -> (r: &'static str)
    ensures
        r@ == spec_cased_y(*c),
{
    match c {
        Casing::Snake => "y",
        Casing::ScreamingSnake => "Y",
        Casing::Pascal => "Y",
        Casing::Camel => "y",
        Casing::Lower => "y",
        Casing::Upper => "Y",
    }
}

/// The word `width` cased as `c`.
pub fn cased_width(c: &Casing) -> (r: &'static str)
    ensures
        r@ == spec_cased_width(*c),
{
    match c {
        Casing::Snake => "width",
        Casing::ScreamingSnake => "WIDTH",
        Casing::Pascal => "Width",
        Casing::Camel => "width",
        Casing::Lower => "width",
        Casing::Upper => "WIDTH",
    }
}

/// The word `height` cased as `c`.
pub fn cased_height(c: &Casing) -> (r: &'static str)
    ensures
        r@ == spec_cased_height(*c),
{
    match c {
        Casing::Snake => "height",
        Casing::ScreamingSnake => "HEIGHT",
        Casing::Pascal => "Height",
        Casing::Camel => "height",
        Casing::Lower => "height",
        Casing::Upper => "HEIGHT",
    }
}

} // verus!
