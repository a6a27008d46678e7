//! TypeScript declaration-file generation: an ambient namespace declaring
//! one constant per packed sprite.

use vstd::prelude::*;

use crate::casings::{
    cased_height, cased_sprite, cased_spritesheet, cased_width, cased_x, cased_y, spec_cased_height,
    spec_cased_sprite, spec_cased_spritesheet, spec_cased_width, spec_cased_x, spec_cased_y, Casing,
};
use crate::outputs::{create_disclaimer_comment, spec_disclaimer};
use crate::text::{replace_all, spec_replace};
use crate::Spritesheet;

verus! {

/// Configuration of the TypeScript declarations generator.
#[derive(Debug, Clone)]
pub struct TypeScriptDeclarationsCodegenOutput {
    pub path: String,
    pub include_prelude_types: bool,
    pub type_casing: Casing,
    pub field_casing: Casing,
}

/// The type casing used when a configuration does not name one.
pub fn default_camel() -> (r: Casing)
    ensures
        r == Casing::Camel,
{
    Casing::Camel
}

/// The field casing used when a configuration does not name one.
pub fn default_pascal() -> (r: Casing)
    ensures
        r == Casing::Pascal,
{
    Casing::Pascal
}

/// The structural type of one sprite constant.
pub open spec fn spec_dts_sprite_type(cfg: TypeScriptDeclarationsCodegenOutput) -> Seq<char> {
    "{"@ + "\n\treadonly "@ + spec_cased_spritesheet(cfg.field_casing) + ": string,"@
        + "\n\treadonly "@ + spec_cased_x(cfg.field_casing) + ": number,"@ + "\n\treadonly "@
        + spec_cased_y(cfg.field_casing) + ": number,"@ + "\n\treadonly "@ + spec_cased_width(
        cfg.field_casing,
    ) + ": number,"@ + "\n\treadonly "@ + spec_cased_height(cfg.field_casing) + ": number,"@
        + "\n}"@
}

/// The prelude: an interface for the sprite type.
pub open spec fn spec_dts_prelude(cfg: TypeScriptDeclarationsCodegenOutput) -> Seq<char> {
    "export interface "@ + spec_cased_sprite(cfg.type_casing) + " "@ + spec_dts_sprite_type(cfg)
}

/// The type each declared constant is given: the interface name when the
/// prelude is included, otherwise the indented structural type.
pub open spec fn spec_dts_const_type(cfg: TypeScriptDeclarationsCodegenOutput) -> Seq<char> {
    if cfg.include_prelude_types {
        spec_cased_sprite(cfg.type_casing)
    } else {
        spec_replace(spec_dts_sprite_type(cfg), "\n"@, "\n\t"@)
    }
}

/// The declaration lines for a sequence of packed sprite keys, in order.
pub open spec fn spec_dts_decls(
    cfg: TypeScriptDeclarationsCodegenOutput,
    keys: Seq<Seq<char>>,
) -> Seq<char>
    decreases keys.len(),
{
    if keys.len() == 0 {
        Seq::<char>::empty()
    } else {
        spec_dts_decls(cfg, keys.drop_last()) + "\t"@ + "export const "@ + keys.last() + ": "@
            + spec_dts_const_type(cfg) + ";"@ + "\n"@
    }
}

/// The whole generated declaration file.
pub open spec fn spec_dts_codegen(
    cfg: TypeScriptDeclarationsCodegenOutput,
    name: Seq<char>,
    keys: Seq<Seq<char>>,
) -> Seq<char> {
    let prelude = if cfg.include_prelude_types {
        "\t"@ + spec_replace(spec_dts_prelude(cfg), "\n"@, "\n\t"@) + "\n"@
    } else {
        Seq::<char>::empty()
    };
    spec_disclaimer("//"@) + "\n"@ + "\n"@ + "declare namespace "@ + name + " {"@ + "\n"@ + prelude
        + spec_dts_decls(cfg, keys) + "}"@ + "\n"@ + "\n"@ + "export = "@ + name + ";"@ + "\n"@
        + "export as namespace "@ + name + ";"@ + "\n"@
}

/// The sprite keys of a spritesheet, in placement order.
pub open spec fn spec_keys_view(sprites: Seq<(String, crate::Sprite)>) -> Seq<Seq<char>> {
    sprites.map_values(|p: (String, crate::Sprite)| p.0@)
}

impl TypeScriptDeclarationsCodegenOutput {
    /// Generate the declaration file for a packed spritesheet.
    pub fn codegen(&self, name: &str, spritesheet: &Spritesheet) -> (r: String)
        ensures
            r@ == spec_dts_codegen(*self, name@, spec_keys_view(spritesheet.sprites@)),
    {
        let mut code = String::new();
        let disclaimer = create_disclaimer_comment("//");
        code.append(disclaimer.as_str());
        code.append("\n");
        code.append("\n");

        code.append("declare namespace ");
        code.append(name);
        code.append(" {");
        code.append("\n");

        proof {
            reveal_strlit("\n");
        }
        if self.include_prelude_types {
            code.append("\t");
            let prelude = self.prelude_types();
            let indented = replace_all(prelude.as_str(), "\n", "\n\t");
            code.append(indented.as_str());
            code.append("\n");
        }

        let const_type: String = if self.include_prelude_types {
            String::from_str(cased_sprite(&self.type_casing))
        } else {
            let ty = self.sprite_type();
            replace_all(ty.as_str(), "\n", "\n\t")
        };

        let ghost keys = spec_keys_view(spritesheet.sprites@);
        let ghost code_head = code@;
        let n = spritesheet.sprites.len();
        let mut i: usize = 0;
        proof {
            assert(code@ =~= code_head + spec_dts_decls(*self, keys.take(0)));
        }
        while i < n
            invariant
                n == spritesheet.sprites@.len(),
                i <= n,
                keys == spec_keys_view(spritesheet.sprites@),
                const_type@ == spec_dts_const_type(*self),
                code@ == code_head + spec_dts_decls(*self, keys.take(i as int)),
            decreases n - i,
        {
            let entry = &spritesheet.sprites[i];
            code.append("\t");
            code.append("export const ");
            code.append(entry.0.as_str());
            code.append(": ");
            code.append(const_type.as_str());
            code.append(";");
            code.append("\n");
            proof {
                assert(keys.take(i + 1).drop_last() =~= keys.take(i as int));
                assert(keys.take(i + 1).last() == keys[i as int]);
                assert(code@ =~= code_head + spec_dts_decls(*self, keys.take(i + 1)));
            }
            i = i + 1;
        }

        code.append("}");
        code.append("\n");
        code.append("\n");
        code.append("export = ");
        code.append(name);
        code.append(";");
        code.append("\n");
        code.append("export as namespace ");
        code.append(name);
        code.append(";");
        code.append("\n");
        proof {
            assert(keys.take(n as int) =~= keys);
            assert(code@ =~= spec_dts_codegen(*self, name@, keys));
        }
        code
    }

    /// The prelude: an interface for the sprite type.
    pub fn prelude_types(&self) -> (r: String)
        ensures
            r@ == spec_dts_prelude(*self),
    {
        let mut out = String::new();
        out.append("export interface ");
        out.append(cased_sprite(&self.type_casing));
        out.append(" ");
        let ty = self.sprite_type();
        out.append(ty.as_str());
        out
    }

    /// The structural type of one sprite constant.
    pub fn sprite_type(&self) -> (r: String)
        ensures
            r@ == spec_dts_sprite_type(*self),
    {
        let mut out = String::new();
        out.append("{");
        out.append("\n\treadonly ");
        out.append(cased_spritesheet(&self.field_casing));
        out.append(": string,");
        out.append("\n\treadonly ");
        out.append(cased_x(&self.field_casing));
        out.append(": number,");
        out.append("\n\treadonly ");
        out.append(cased_y(&self.field_casing));
        out.append(": number,");
        out.append("\n\treadonly ");
        out.append(cased_width(&self.field_casing));
        out.append(": number,");
        out.append("\n\treadonly ");
        out.append(cased_height(&self.field_casing));
        out.append(": number,");
        out.append("\n}");
        out
    }

    /// The identifier used for the sprite type in generated code.
    pub fn ident_sprite(&self) -> (r: &'static str)
        ensures
            r@ == spec_cased_sprite(self.type_casing),
    {
        cased_sprite(&self.type_casing)
    }

    /// The identifier used for the page-name field in generated code.
    pub fn ident_spritesheet(&self) -> (r: &'static str)
        ensures
            r@ == spec_cased_spritesheet(self.field_casing),
    {
        cased_spritesheet(&self.field_casing)
    }

    /// The identifier used for the x field in generated code.
    pub fn ident_x(&self) -> (r: &'static str)
        ensures
            r@ == spec_cased_x(self.field_casing),
    {
        cased_x(&self.field_casing)
    }

    /// The identifier used for the y field in generated code.
    pub fn ident_y(&self) -> (r: &'static str)
        ensures
            r@ == spec_cased_y(self.field_casing),
    {
        cased_y(&self.field_casing)
    }

    /// The identifier used for the width field in generated code.
    pub fn ident_width(&self) -> (r: &'static str)
        ensures
            r@ == spec_cased_width(self.field_casing),
    {
        cased_width(&self.field_casing)
    }

    /// The identifier used for the height field in generated code.
    pub fn ident_height(&self) -> (r: &'static str)
        ensures
            r@ == spec_cased_height(self.field_casing),
    {
        cased_height(&self.field_casing)
    }
}

} // verus!
