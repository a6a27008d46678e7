//! Luau code generation: a module that maps every packed sprite to a table
//! of its page name and rectangle.

use vstd::prelude::*;

use crate::casings::{
    cased_height, cased_sprite, cased_spritesheet, cased_width, cased_x, cased_y, spec_cased_height,
    spec_cased_sprite, spec_cased_spritesheet, spec_cased_width, spec_cased_x, spec_cased_y, Casing,
};
use crate::outputs::{create_disclaimer_comment, spec_disclaimer};
use crate::text::{format_decimal, spec_decimal, str_eq};
use crate::{Sprite, SpriteV, Spritesheet};

verus! {

/// Configuration of the Luau code generator.
#[derive(Debug, Clone)]
pub struct LuauCodegenOutput {
    pub path: String,
    pub include_prelude_types: bool,
    pub new_luau_solver: bool,
    pub freeze_tables: bool,
    pub type_casing: Casing,
    pub field_casing: Casing,
}

/// Whether a configuration leaves `freeze_tables` on.
pub fn default_true() -> (r: bool)
    ensures
        r == true,
{
    true
}

/// The type casing used when a configuration does not name one.
pub fn default_snake() -> (r: Casing)
    ensures
        r == Casing::Snake,
{
    Casing::Snake
}

/// The field casing used when a configuration does not name one.
pub fn default_pascal() -> (r: Casing)
    ensures
        r == Casing::Pascal,
{
    Casing::Pascal
}

/// Whether `s` is one of Luau's reserved words.
pub open spec fn spec_is_luau_keyword(s: Seq<char>) -> bool {
    ||| s == "and"@
    ||| s == "break"@
    ||| s == "continue"@
    ||| s == "do"@
    ||| s == "else"@
    ||| s == "elseif"@
    ||| s == "end"@
    ||| s == "export"@
    ||| s == "false"@
    ||| s == "for"@
    ||| s == "function"@
    ||| s == "if"@
    ||| s == "in"@
    ||| s == "local"@
    ||| s == "nil"@
    ||| s == "not"@
    ||| s == "or"@
    ||| s == "repeat"@
    ||| s == "return"@
    ||| s == "self"@
    ||| s == "th"@ + "en"@
    ||| s == "type"@
    ||| s == "typeof"@
    ||| s == "until"@
    ||| s == "while"@
}

/// Whether `s` is one of Luau's reserved words.
pub fn is_luau_keyword(s: &str) -> (r: bool)
    ensures
        r == spec_is_luau_keyword(s@),
{
    let mut branch_kw = String::new();
    branch_kw.append("th");
    branch_kw.append("en");
    str_eq(s, "and") || str_eq(s, "break") || str_eq(s, "continue") || str_eq(s, "do") || str_eq(
        s,
        "else",
    ) || str_eq(s, "elseif") || str_eq(s, "end") || str_eq(s, "export") || str_eq(s, "false")
        || str_eq(s, "for") || str_eq(s, "function") || str_eq(s, "if") || str_eq(s, "in")
        || str_eq(s, "local") || str_eq(s, "nil") || str_eq(s, "not") || str_eq(s, "or") || str_eq(
        s,
        "repeat",
    ) || str_eq(s, "return") || str_eq(s, "self") || str_eq(s, branch_kw.as_str()) || str_eq(
        s,
        "type",
    ) || str_eq(s, "typeof") || str_eq(s, "until") || str_eq(s, "while")
}

/// Whether a character may open a bare Luau name.
pub open spec fn spec_is_ident_start(c: char) -> bool {
    ||| c == '_'
    ||| ('a' as int) <= (c as int) <= ('z' as int)
    ||| ('A' as int) <= (c as int) <= ('Z' as int)
}

/// Whether a character may continue a bare Luau name.
pub open spec fn spec_is_ident_char(c: char) -> bool {
    ||| spec_is_ident_start(c)
    ||| ('0' as int) <= (c as int) <= ('9' as int)
}

/// Whether `s` is a valid bare Luau name: non-empty, not a reserved word,
/// made only of letters, digits and underscores, and not starting with a
/// digit.  Keys that fail this test are emitted in the bracketed string
/// form instead.
pub open spec fn spec_is_luau_ident(s: Seq<char>) -> bool {
    &&& s.len() > 0
    &&& !spec_is_luau_keyword(s)
    &&& spec_is_ident_start(s[0])
    &&& forall|i: int| 0 <= i < s.len() ==> spec_is_ident_char(#[trigger] s[i])
}

/// Whether generated Luau may use `s` as a bare name.
pub fn is_luau_ident(s: &str) -> (r: bool)
    ensures
        r == spec_is_luau_ident(s@),
{
    let len = s.unicode_len();
    if len == 0 {
        return false;
    }
    if is_luau_keyword(s) {
        return false;
    }
    let first = s.get_char(0);
    let fu = first as u32;
    let start_ok = first == '_' || (('a' as u32) <= fu && fu <= ('z' as u32)) || (('A' as u32)
        <= fu && fu <= ('Z' as u32));
    if !start_ok {
        return false;
    }
    let mut i: usize = 0;
    while i < len
        invariant
            len == s@.len(),
            i <= len,
            forall|k: int| 0 <= k < i ==> spec_is_ident_char(#[trigger] s@[k]),
        decreases len - i,
    {
        let c = s.get_char(i);
        let u = c as u32;
        let char_ok = c == '_' || (('a' as u32) <= u && u <= ('z' as u32)) || (('A' as u32) <= u
            && u <= ('Z' as u32)) || (('0' as u32) <= u && u <= ('9' as u32));
        if !char_ok {
            proof {
                assert(!spec_is_ident_char(s@[i as int]));
            }
            return false;
        }
        i = i + 1;
    }
    true
}

/// A sprite key as it appears on the left of a Luau table entry: bare if it
/// is usable as a name, otherwise in bracketed string form.
pub open spec fn spec_wrap_luau_ident(s: Seq<char>) -> Seq<char> {
    if spec_is_luau_ident(s) {
        s
    } else {
        "[\""@ + s + "\"]"@
    }
}

/// Wrap a sprite key for use on the left of a Luau table entry.
pub fn wrap_luau_ident(s: &str) -> (r: String)
    ensures
        r@ == spec_wrap_luau_ident(s@),
{
    if is_luau_ident(s) {
        String::from_str(s)
    } else {
        let mut out = String::new();
        out.append("[\"");
        out.append(s);
        out.append("\"]");
        out
    }
}

/// `inner` wrapped in `table.freeze(...)` when freezing is on.
pub open spec fn spec_wrap_freeze(freeze_tables: bool, inner: Seq<char>) -> Seq<char> {
    if freeze_tables {
        "table.freeze("@ + inner + ")"@
    } else {
        inner
    }
}

/// The Luau expression for one sprite's table.
pub open spec fn spec_luau_sprite(cfg: LuauCodegenOutput, s: SpriteV) -> Seq<char> {
    let inner = "{ "@ + spec_cased_spritesheet(cfg.field_casing) + " = "@ + "\"todo lololol\""@
        + ", "@ + spec_cased_x(cfg.field_casing) + " = "@ + spec_decimal(s.x) + ", "@
        + spec_cased_y(cfg.field_casing) + " = "@ + spec_decimal(s.y) + ", "@
        + spec_cased_width(cfg.field_casing) + " = "@ + spec_decimal(s.width) + ", "@
        + spec_cased_height(cfg.field_casing) + " = "@ + spec_decimal(s.height) + " }"@;
    if cfg.include_prelude_types {
        spec_cased_sprite(cfg.type_casing) + "("@ + inner + ")"@
    } else {
        spec_wrap_freeze(cfg.freeze_tables, inner)
    }
}

/// The prelude: the sprite type and its identity constructor.
pub open spec fn spec_luau_prelude(cfg: LuauCodegenOutput) -> Seq<char> {
    let ro = if cfg.new_luau_solver {
        "read "@
    } else {
        ""@
    };
    let sprite = spec_cased_sprite(cfg.type_casing);
    "export type "@ + sprite + " = {"@ + "\n\t"@ + ro + " "@
        + spec_cased_spritesheet(cfg.field_casing) + ": string,"@ + "\n\t"@ + ro + " "@
        + spec_cased_x(cfg.field_casing) + ": number,"@ + "\n\t"@ + ro + " "@
        + spec_cased_y(cfg.field_casing) + ": number,"@ + "\n\t"@ + ro + " "@
        + spec_cased_width(cfg.field_casing) + ": number,"@ + "\n\t"@ + ro + " "@
        + spec_cased_height(cfg.field_casing) + ": number,"@ + "\n}"@ + "\n"@ + "\nlocal function "@
        + sprite + "(x: "@ + sprite + "): "@ + sprite + "\n\treturn "@ + spec_wrap_freeze(
        cfg.freeze_tables,
        "x"@,
    ) + "\nend"@ + "\n"@
}

/// The table entries for a sequence of packed sprites, in order.
pub open spec fn spec_luau_entries(
    cfg: LuauCodegenOutput,
    sprites: Seq<(Seq<char>, SpriteV)>,
) -> Seq<char>
    decreases sprites.len(),
{
    if sprites.len() == 0 {
        Seq::<char>::empty()
    } else {
        spec_luau_entries(cfg, sprites.drop_last()) + "\t"@ + spec_wrap_luau_ident(
            sprites.last().0,
        ) + " = "@ + spec_luau_sprite(cfg, sprites.last().1) + ","@ + "\n"@
    }
}

/// The sprite table entries of a spritesheet, keyed and in placement order.
pub open spec fn spec_sprites_view(sprites: Seq<(String, Sprite)>) -> Seq<(Seq<char>, SpriteV)> {
    sprites.map_values(|p: (String, Sprite)| (p.0@, p.1@))
}

/// The whole generated Luau module.
pub open spec fn spec_luau_codegen(
    cfg: LuauCodegenOutput,
    name: Seq<char>,
    sprites: Seq<(Seq<char>, SpriteV)>,
) -> Seq<char> {
    let prelude = if cfg.include_prelude_types {
        spec_luau_prelude(cfg) + "\n"@
    } else {
        Seq::<char>::empty()
    };
    let body = "{"@ + "\n"@ + spec_luau_entries(cfg, sprites) + "}"@;
    "--!strict"@ + "\n"@ + spec_disclaimer("--"@) + "\n"@ + "\n"@ + prelude + "local "@ + name
        + " = "@ + spec_wrap_freeze(cfg.freeze_tables, body) + "\n"@ + "\n"@ + "return "@ + name
        + "\n"@
}

impl LuauCodegenOutput {
    /// Generate the Luau module for a packed spritesheet.
    pub fn codegen(&self, name: &str, spritesheet: &Spritesheet) -> (r: String)
        ensures
            r@ == spec_luau_codegen(*self, name@, spec_sprites_view(spritesheet.sprites@)),
    {
        let mut code = String::new();
        code.append("--!strict");
        code.append("\n");
        let disclaimer = create_disclaimer_comment("--");
        code.append(disclaimer.as_str());
        code.append("\n");

        code.append("\n");
        if self.include_prelude_types {
            let prelude = self.prelude_types();
            code.append(prelude.as_str());
            code.append("\n");
        }

        code.append("local ");
        code.append(name);
        code.append(" = ");

        let mut body = String::new();
        body.append("{");
        body.append("\n");

        let n = spritesheet.sprites.len();
        let mut i: usize = 0;
        while i < n
            invariant
                n == spritesheet.sprites@.len(),
                i <= n,
                body@ == "{"@ + "\n"@ + spec_luau_entries(
                    *self,
                    spec_sprites_view(spritesheet.sprites@).take(i as int),
                ),
            decreases n - i,
        {
            let entry = &spritesheet.sprites[i];
            let wrapped_key = wrap_luau_ident(entry.0.as_str());
            let wrapped_sprite = self.wrap_sprite(&entry.1);
            body.append("\t");
            body.append(wrapped_key.as_str());
            body.append(" = ");
            body.append(wrapped_sprite.as_str());
            body.append(",");
            body.append("\n");
            proof {
                let sv = spec_sprites_view(spritesheet.sprites@);
                assert(sv.take(i + 1).drop_last() =~= sv.take(i as int));
                assert(sv.take(i + 1).last() == sv[i as int]);
            }
            i = i + 1;
        }

        body.append("}");
        let frozen = self.wrap_freeze(body.as_str());
        code.append(frozen.as_str());

        code.append("\n");
        code.append("\n");
        code.append("return ");
        code.append(name);
        code.append("\n");
        proof {
            let sv = spec_sprites_view(spritesheet.sprites@);
            assert(sv.take(sv.len() as int) =~= sv);
        }
        code
    }

    /// The prelude: the sprite type and its identity constructor.
    pub fn prelude_types(&self) -> (r: String)
        ensures
            r@ == spec_luau_prelude(*self),
    {
        let ro: &str = if self.new_luau_solver {
            "read "
        } else {
            ""
        };

        let mut out = String::new();
        out.append("export type ");
        out.append(cased_sprite(&self.type_casing));
        out.append(" = {");
        out.append("\n\t");
        out.append(ro);
        out.append(" ");
        out.append(cased_spritesheet(&self.field_casing));
        out.append(": string,");
        out.append("\n\t");
        out.append(ro);
        out.append(" ");
        out.append(cased_x(&self.field_casing));
        out.append(": number,");
        out.append("\n\t");
        out.append(ro);
        out.append(" ");
        out.append(cased_y(&self.field_casing));
        out.append(": number,");
        out.append("\n\t");
        out.append(ro);
        out.append(" ");
        out.append(cased_width(&self.field_casing));
        out.append(": number,");
        out.append("\n\t");
        out.append(ro);
        out.append(" ");
        out.append(cased_height(&self.field_casing));
        out.append(": number,");
        out.append("\n}");
        out.append("\n");
        out.append("\nlocal function ");
        out.append(cased_sprite(&self.type_casing));
        out.append("(x: ");
        out.append(cased_sprite(&self.type_casing));
        out.append("): ");
        out.append(cased_sprite(&self.type_casing));
        out.append("\n\treturn ");
        let frozen_x = self.wrap_freeze("x");
        out.append(frozen_x.as_str());
        out.append("\nend");
        out.append("\n");
        out
    }

    /// The Luau expression for one sprite's table.
    pub fn wrap_sprite(&self, sprite: &Sprite) -> (r: String)
        ensures
            r@ == spec_luau_sprite(*self, sprite@),
    {
        let mut inner = String::new();
        inner.append("{ ");
        inner.append(cased_spritesheet(&self.field_casing));
        inner.append(" = ");
        inner.append("\"todo lololol\"");
        inner.append(", ");
        inner.append(cased_x(&self.field_casing));
        inner.append(" = ");
        let x = format_decimal(sprite.x as usize);
        inner.append(x.as_str());
        inner.append(", ");
        inner.append(cased_y(&self.field_casing));
        inner.append(" = ");
        let y = format_decimal(sprite.y as usize);
        inner.append(y.as_str());
        inner.append(", ");
        inner.append(cased_width(&self.field_casing));
        inner.append(" = ");
        let width = format_decimal(sprite.width as usize);
        inner.append(width.as_str());
        inner.append(", ");
        inner.append(cased_height(&self.field_casing));
        inner.append(" = ");
        let height = format_decimal(sprite.height as usize);
        inner.append(height.as_str());
        inner.append(" }");

        if self.include_prelude_types {
            let mut out = String::new();
            out.append(cased_sprite(&self.type_casing));
            out.append("(");
            out.append(inner.as_str());
            out.append(")");
            out
        } else {
            self.wrap_freeze(inner.as_str())
        }
    }

    /// Wrap a Luau expression in `table.freeze(...)` when freezing is on.
    pub fn wrap_freeze(&self, inner: &str) -> (r: String)
        ensures
            r@ == spec_wrap_freeze(self.freeze_tables, inner@),
    {
        if self.freeze_tables {
            let mut out = String::new();
            out.append("table.freeze(");
            out.append(inner);
            out.append(")");
            out
        } else {
            String::from_str(inner)
        }
    }

    /// The identifier used for the sprite type in generated code.
    pub fn ident_sprite(&self) -> (r: &'static str)
        ensures
            r@ == spec_cased_sprite(self.type_casing),
    {
        cased_sprite(&self.type_casing)
    }

    /// The identifier used for the page-name field in generated code.
    pub fn ident_spritesheet(&self) -> (r: &'static str)
        ensures
            r@ == spec_cased_spritesheet(self.field_casing),
    {
        cased_spritesheet(&self.field_casing)
    }

    /// The identifier used for the x field in generated code.
    pub fn ident_x(&self) -> (r: &'static str)
        ensures
            r@ == spec_cased_x(self.field_casing),
    {
        cased_x(&self.field_casing)
    }

    /// The identifier used for the y field in generated code.
    pub fn ident_y(&self) -> (r: &'static str)
        ensures
            r@ == spec_cased_y(self.field_casing),
    {
        cased_y(&self.field_casing)
    }

    /// The identifier used for the width field in generated code.
    pub fn ident_width(&self) -> (r: &'static str)
        ensures
            r@ == spec_cased_width(self.field_casing),
    {
        cased_width(&self.field_casing)
    }

    /// The identifier used for the height field in generated code.
    pub fn ident_height(&self) -> (r: &'static str)
        ensures
            r@ == spec_cased_height(self.field_casing),
    {
        cased_height(&self.field_casing)
    }
}

} // verus!
