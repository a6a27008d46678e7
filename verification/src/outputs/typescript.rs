//! TypeScript code generation: a module of one exported constant per packed
//! sprite, optionally wrapped in a namespace.

use vstd::prelude::*;

use crate::casings::{
    cased_height, cased_sprite, cased_spritesheet, cased_width, cased_x, cased_y, spec_cased_height,
    spec_cased_sprite, spec_cased_spritesheet, spec_cased_width, spec_cased_x, spec_cased_y, Casing,
};
use crate::outputs::{create_disclaimer_comment, spec_disclaimer};
use crate::text::{format_decimal, replace_all, spec_decimal, spec_replace};
use crate::{SpriteV, Spritesheet};

verus! {

/// Configuration of the TypeScript code generator.
#[derive(Debug, Clone)]
pub struct TypeScriptCodegenOutput {
    pub path: String,
    pub export: TypeScriptExport,
    pub include_prelude_types: bool,
    pub type_casing: Casing,
    pub field_casing: Casing,
}

/// How the generated module exports its constants.
#[derive(Debug, Clone, PartialEq, Eq)]
pub enum TypeScriptExport {
    /// many of `export const ...`
    Consts,
    /// `export namespace ...`
    NamedNamespace,
    /// `export default namespace ...`
    DefaultNamespace,
    /// `namespace ...; export = ...`
    ExportNamespace,
}

impl Default for TypeScriptExport {
    fn default() -> (r: Self)
        ensures
            r == TypeScriptExport::Consts,
    {
        TypeScriptExport::Consts
    }
}

/// The type casing used when a configuration does not name one.
pub fn default_camel() -> (r: Casing)
    ensures
        r == Casing::Camel,
{
    Casing::Camel
}

/// The field casing used when a configuration does not name one.
pub fn default_pascal() -> (r: Casing)
    ensures
        r == Casing::Pascal,
{
    Casing::Pascal
}

/// What stands before `namespace` for each export style.
pub open spec fn spec_ts_ns_prefix(e: TypeScriptExport) -> Seq<char> {
    match e {
        TypeScriptExport::Consts => Seq::<char>::empty(),
        TypeScriptExport::DefaultNamespace => "export default "@,
        TypeScriptExport::ExportNamespace => Seq::<char>::empty(),
        TypeScriptExport::NamedNamespace => "export "@,
    }
}

/// The closing lines for each export style; the export-equals style closes
/// its namespace and assigns it to the module's export.
pub open spec fn spec_ts_footer(e: TypeScriptExport, name: Seq<char>) -> Seq<char> {
    match e {
        TypeScriptExport::Consts => Seq::<char>::empty(),
        TypeScriptExport::NamedNamespace => "}"@ + "\n"@,
        TypeScriptExport::DefaultNamespace => "}"@ + "\n"@,
        TypeScriptExport::ExportNamespace => "}"@ + "\n"@ + "export = "@ + name + ";"@,
    }
}

/// The indent applied inside a namespace.
pub open spec fn spec_ts_indent(e: TypeScriptExport) -> Seq<char> {
    match e {
        TypeScriptExport::Consts => Seq::<char>::empty(),
        _ => "\t"@,
    }
}

/// The structural type of one sprite constant.
pub open spec fn spec_ts_sprite_type(cfg: TypeScriptCodegenOutput) -> Seq<char> {
    "{"@ + "\n\treadonly "@ + spec_cased_spritesheet(cfg.field_casing) + ": string,"@
        + "\n\treadonly "@ + spec_cased_x(cfg.field_casing) + ": number,"@ + "\n\treadonly "@
        + spec_cased_y(cfg.field_casing) + ": number,"@ + "\n\treadonly "@ + spec_cased_width(
        cfg.field_casing,
    ) + ": number,"@ + "\n\treadonly "@ + spec_cased_height(cfg.field_casing) + ": number,"@
        + "\n}"@
}

/// The prelude: an interface for the sprite type.
pub open spec fn spec_ts_prelude(cfg: TypeScriptCodegenOutput) -> Seq<char> {
    "export interface "@ + spec_cased_sprite(cfg.type_casing) + " "@ + spec_ts_sprite_type(cfg)
}

/// One field line of a sprite constant.
pub open spec fn spec_ts_field(indent: Seq<char>, field: Seq<char>, value: Seq<char>) -> Seq<char> {
    indent + "\t"@ + field + ": "@ + value + ","@ + "\n"@
}

/// The block for one sprite constant.
pub open spec fn spec_ts_sprite_block(
    cfg: TypeScriptCodegenOutput,
    indent: Seq<char>,
    key: Seq<char>,
    s: SpriteV,
) -> Seq<char> {
    let annotation = if cfg.include_prelude_types {
        ": Sprite"@
    } else {
        Seq::<char>::empty()
    };
    indent + "export const "@ + key + annotation + " = {"@ + "\n"@ + spec_ts_field(
        indent,
        spec_cased_spritesheet(cfg.field_casing),
        "\"todo lolol\""@,
    ) + spec_ts_field(indent, spec_cased_x(cfg.field_casing), spec_decimal(s.x)) + spec_ts_field(
        indent,
        spec_cased_y(cfg.field_casing),
        spec_decimal(s.y),
    ) + spec_ts_field(indent, spec_cased_width(cfg.field_casing), spec_decimal(s.width))
        + spec_ts_field(indent, spec_cased_height(cfg.field_casing), spec_decimal(s.height))
        + indent + "}"@ + ";"@ + "\n"@
}

/// The blocks for a sequence of packed sprites, in order.
pub open spec fn spec_ts_blocks(
    cfg: TypeScriptCodegenOutput,
    indent: Seq<char>,
    sprites: Seq<(Seq<char>, SpriteV)>,
) -> Seq<char>
    decreases sprites.len(),
{
    if sprites.len() == 0 {
        Seq::<char>::empty()
    } else {
        spec_ts_blocks(cfg, indent, sprites.drop_last()) + spec_ts_sprite_block(
            cfg,
            indent,
            sprites.last().0,
            sprites.last().1,
        )
    }
}

/// The whole generated TypeScript module.
pub open spec fn spec_ts_codegen(
    cfg: TypeScriptCodegenOutput,
    name: Seq<char>,
    sprites: Seq<(Seq<char>, SpriteV)>,
) -> Seq<char> {
    let indent = spec_ts_indent(cfg.export);
    let header = match cfg.export {
        TypeScriptExport::Consts => Seq::<char>::empty(),
        _ => spec_ts_ns_prefix(cfg.export) + "namespace "@ + name + " {"@ + "\n"@,
    };
    let prelude = if cfg.include_prelude_types {
        indent + spec_replace(spec_ts_prelude(cfg), "\n"@, "\n"@ + indent) + "\n"@ + "\n"@
    } else {
        Seq::<char>::empty()
    };
    spec_disclaimer("//"@) + "\n"@ + "\n"@ + header + prelude + spec_ts_blocks(cfg, indent, sprites)
        + spec_ts_footer(cfg.export, name) + "\n"@
}

impl TypeScriptCodegenOutput {
    /// Generate the TypeScript module for a packed spritesheet.
    #[verifier::rlimit(60)]
    pub fn codegen(&self, name: &str, spritesheet: &Spritesheet) -> (r: String)
        ensures
            r@ == spec_ts_codegen(
                *self,
                name@,
                crate::outputs::luau::spec_sprites_view(spritesheet.sprites@),
            ),
    {
        let mut code = String::new();
        let disclaimer = create_disclaimer_comment("//");
        code.append(disclaimer.as_str());
        code.append("\n");
        code.append("\n");

        let mut indent = String::new();
        let mut footer = String::new();

        match &self.export {
            TypeScriptExport::Consts => {},
            namespace => {
                footer.append("}");
                footer.append("\n");
                match namespace {
                    TypeScriptExport::DefaultNamespace => {
                        code.append("export default ");
                    },
                    TypeScriptExport::ExportNamespace => {
                        footer.append("export = ");
                        footer.append(name);
                        footer.append(";");
                    },
                    TypeScriptExport::NamedNamespace => {
                        code.append("export ");
                    },
                    TypeScriptExport::Consts => {},
                }
                code.append("namespace ");
                code.append(name);
                code.append(" {");
                code.append("\n");
                indent.append("\t");
            },
        }
        proof {
            assert(indent@ =~= spec_ts_indent(self.export));
            assert(footer@ =~= spec_ts_footer(self.export, name@));
        }

        if self.include_prelude_types {
            code.append(indent.as_str());
            let prelude = self.prelude_types();
            let mut rep = String::new();
            rep.append("\n");
            rep.append(indent.as_str());
            proof {
                reveal_strlit("\n");
            }
            let indented = replace_all(prelude.as_str(), "\n", rep.as_str());
            code.append(indented.as_str());
            code.append("\n");
            code.append("\n");
        }

        let ghost sv = crate::outputs::luau::spec_sprites_view(spritesheet.sprites@);
        let ghost code_head = code@;
        let n = spritesheet.sprites.len();
        let mut i: usize = 0;
        proof {
            assert(code@ =~= code_head + spec_ts_blocks(*self, indent@, sv.take(0)));
        }
        while i < n
            invariant
                n == spritesheet.sprites@.len(),
                i <= n,
                sv == crate::outputs::luau::spec_sprites_view(spritesheet.sprites@),
                indent@ == spec_ts_indent(self.export),
                code@ == code_head + spec_ts_blocks(*self, indent@, sv.take(i as int)),
            decreases n - i,
        {
            let entry = &spritesheet.sprites[i];
            self.emit_sprite_block(&mut code, indent.as_str(), entry.0.as_str(), &entry.1);
            proof {
                assert(sv.take(i + 1).drop_last() =~= sv.take(i as int));
                assert(sv.take(i + 1).last() == sv[i as int]);
                assert(code@ =~= code_head + spec_ts_blocks(*self, indent@, sv.take(i + 1)));
            }
            i = i + 1;
        }

        code.append(footer.as_str());
        code.append("\n");
        proof {
            assert(sv.take(n as int) =~= sv);
            assert(code@ =~= spec_ts_codegen(*self, name@, sv));
        }
        code
    }

    /// Append one field line of a sprite constant to the code built so far.
    fn emit_field(&self, code: &mut String, indent: &str, field: &str, value: &str)
        ensures
            final(code)@ == old(code)@ + spec_ts_field(indent@, field@, value@),
    {
        code.append(indent);
        code.append("\t");
        code.append(field);
        code.append(": ");
        code.append(value);
        code.append(",");
        code.append("\n");
        proof {
            assert(code@ =~= old(code)@ + spec_ts_field(indent@, field@, value@));
        }
    }

    /// Append the block for one sprite constant to the code built so far.
    #[verifier::rlimit(50)]
    fn emit_sprite_block(&self, code: &mut String, indent: &str, key: &str, sprite: &crate::Sprite)
        ensures
            final(code)@ == old(code)@ + spec_ts_sprite_block(*self, indent@, key@, sprite@),
    {
        let annotation: &'static str = if self.include_prelude_types {
            ": Sprite"
        } else {
            ""
        };
        proof {
            reveal_strlit("");
        }

        code.append(indent);
        code.append("export const ");
        code.append(key);
        code.append(annotation);
        code.append(" = {");
        code.append("\n");

        self.emit_field(code, indent, cased_spritesheet(&self.field_casing), "\"todo lolol\"");
        let x = format_decimal(sprite.x as usize);
        self.emit_field(code, indent, cased_x(&self.field_casing), x.as_str());
        let y = format_decimal(sprite.y as usize);
        self.emit_field(code, indent, cased_y(&self.field_casing), y.as_str());
        let width = format_decimal(sprite.width as usize);
        self.emit_field(code, indent, cased_width(&self.field_casing), width.as_str());
        let height = format_decimal(sprite.height as usize);
        self.emit_field(code, indent, cased_height(&self.field_casing), height.as_str());

        code.append(indent);
        code.append("}");
        code.append(";");
        code.append("\n");
        proof {
            assert(code@ =~= old(code)@ + spec_ts_sprite_block(*self, indent@, key@, sprite@));
        }
    }

    /// The prelude: an interface for the sprite type.
    pub fn prelude_types(&self) -> (r: String)
        ensures
            r@ == spec_ts_prelude(*self),
    {
        let mut out = String::new();
        out.append("export interface ");
        out.append(cased_sprite(&self.type_casing));
        out.append(" ");
        let ty = self.sprite_type();
        out.append(ty.as_str());
        out
    }

    /// The structural type of one sprite constant.
    pub fn sprite_type(&self) -> (r: String)
        ensures
            r@ == spec_ts_sprite_type(*self),
    {
        let mut out = String::new();
        out.append("{");
        out.append("\n\treadonly ");
        out.append(cased_spritesheet(&self.field_casing));
        out.append(": string,");
        out.append("\n\treadonly ");
        out.append(cased_x(&self.field_casing));
        out.append(": number,");
        out.append("\n\treadonly ");
        out.append(cased_y(&self.field_casing));
        out.append(": number,");
        out.append("\n\treadonly ");
        out.append(cased_width(&self.field_casing));
        out.append(": number,");
        out.append("\n\treadonly ");
        out.append(cased_height(&self.field_casing));
        out.append(": number,");
        out.append("\n}");
        out
    }

    /// The identifier used for the sprite type in generated code.
    pub fn ident_sprite(&self) -> (r: &'static str)
        ensures
            r@ == spec_cased_sprite(self.type_casing),
    {
        cased_sprite(&self.type_casing)
    }

    /// The identifier used for the page-name field in generated code.
    pub fn ident_spritesheet(&self) -> (r: &'static str)
        ensures
            r@ == spec_cased_spritesheet(self.field_casing),
    {
        cased_spritesheet(&self.field_casing)
    }

    /// The identifier used for the x field in generated code.
    pub fn ident_x(&self) -> (r: &'static str)
        ensures
            r@ == spec_cased_x(self.field_casing),
    {
        cased_x(&self.field_casing)
    }

    /// The identifier used for the y field in generated code.
    pub fn ident_y(&self) -> (r: &'static str)
        ensures
            r@ == spec_cased_y(self.field_casing),
    {
        cased_y(&self.field_casing)
    }

    /// The identifier used for the width field in generated code.
    pub fn ident_width(&self) -> (r: &'static str)
        ensures
            r@ == spec_cased_width(self.field_casing),
    {
        cased_width(&self.field_casing)
    }

    /// The identifier used for the height field in generated code.
    pub fn ident_height(&self) -> (r: &'static str)
        ensures
            r@ == spec_cased_height(self.field_casing),
    {
        cased_height(&self.field_casing)
    }
}

} // verus!
