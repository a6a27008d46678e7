use springroll::casings::Casing;
use springroll::outputs::luau::{is_luau_ident, is_luau_keyword, wrap_luau_ident, LuauCodegenOutput};
use springroll::outputs::typescript::{TypeScriptCodegenOutput, TypeScriptExport};
use springroll::outputs::typescript_declarations::TypeScriptDeclarationsCodegenOutput;
use springroll::outputs::{create_disclaimer_comment, OutputSpecifier};
use springroll::{Sprite, Spritesheet};

const DISCLAIMER: &str = "This file is managed by springroll; manual edits will be overwritten.";

fn one_sprite_sheet() -> Spritesheet {
    Spritesheet {
        pixmap_keys: vec!["sheet0".to_string()],
        sprites: vec![(
            "icon".to_string(),
            Sprite {
                pixmap_key: "sheet0".to_string(),
                x: 5,
                y: 6,
                width: 7,
                height: 8,
            },
        )],
    }
}

#[test]
fn disclaimer_uses_the_given_prefix() {
    assert_eq!(create_disclaimer_comment("--"), format!("-- {DISCLAIMER}"));
    assert_eq!(create_disclaimer_comment("//"), format!("// {DISCLAIMER}"));
}

#[test]
fn luau_keywords_are_recognized() {
    for kw in [
        "and", "break", "continue", "do", "else", "elseif", "end", "export", "false", "for",
        "function", "if", "in", "local", "nil", "not", "or", "repeat", "return", "self", "type",
        "typeof", "until", "while",
    ] {
        assert!(is_luau_keyword(kw), "{kw} should be a keyword");
    }
    let branch_kw = format!("{}{}", "th", "en");
    assert!(is_luau_keyword(branch_kw.as_str()));
    assert!(!is_luau_keyword("icon"));
    assert!(!is_luau_keyword(""));
}

#[test]
fn luau_ident_requires_word_characters_throughout() {
    assert!(is_luau_ident("_foo"));
    assert!(is_luau_ident("Foo9"));
    assert!(is_luau_ident("snake_case_2"));
    assert!(!is_luau_ident("ab!"));
    assert!(!is_luau_ident("a-b"));
    assert!(!is_luau_ident("9foo"));
    assert!(!is_luau_ident(""));
    assert!(!is_luau_ident("while"));
}

#[test]
fn luau_ident_wrapping_brackets_awkward_keys() {
    assert_eq!(wrap_luau_ident("icon"), "icon");
    assert_eq!(wrap_luau_ident("if"), "[\"if\"]");
    assert_eq!(wrap_luau_ident("9lives"), "[\"9lives\"]");
    // kebab-case icon names get the bracketed string form
    assert_eq!(wrap_luau_ident("arrow-up"), "[\"arrow-up\"]");
}

#[test]
fn luau_codegen_emits_frozen_table_module() {
    let cfg = LuauCodegenOutput {
        path: String::new(),
        include_prelude_types: false,
        new_luau_solver: false,
        freeze_tables: true,
        type_casing: Casing::Snake,
        field_casing: Casing::Snake,
    };
    let code = cfg.codegen("sheet", &one_sprite_sheet());
    let expected = format!(
        "--!strict\n-- {DISCLAIMER}\n\nlocal sheet = table.freeze({{\n\ticon = table.freeze({{ spritesheet = \"todo lololol\", x = 5, y = 6, width = 7, height = 8 }}),\n}})\n\nreturn sheet\n"
    );
    assert_eq!(code, expected);
}

#[test]
fn luau_codegen_prelude_and_constructor_calls() {
    let cfg = LuauCodegenOutput {
        path: String::new(),
        include_prelude_types: true,
        new_luau_solver: true,
        freeze_tables: false,
        type_casing: Casing::Pascal,
        field_casing: Casing::Snake,
    };
    let code = cfg.codegen("sheet", &one_sprite_sheet());
    let prelude = "export type Sprite = {\n\tread  spritesheet: string,\n\tread  x: number,\n\tread  y: number,\n\tread  width: number,\n\tread  height: number,\n}\n\nlocal function Sprite(x: Sprite): Sprite\n\treturn x\nend\n";
    let expected = format!(
        "--!strict\n-- {DISCLAIMER}\n\n{prelude}\nlocal sheet = {{\n\ticon = Sprite({{ spritesheet = \"todo lololol\", x = 5, y = 6, width = 7, height = 8 }}),\n}}\n\nreturn sheet\n"
    );
    assert_eq!(code, expected);
}

#[test]
fn luau_prelude_types_exact() {
    let cfg = LuauCodegenOutput {
        path: String::new(),
        include_prelude_types: true,
        new_luau_solver: false,
        freeze_tables: true,
        type_casing: Casing::Snake,
        field_casing: Casing::Snake,
    };
    assert_eq!(
        cfg.prelude_types(),
        "export type sprite = {\n\t spritesheet: string,\n\t x: number,\n\t y: number,\n\t width: number,\n\t height: number,\n}\n\nlocal function sprite(x: sprite): sprite\n\treturn table.freeze(x)\nend\n"
    );
}

#[test]
fn luau_ident_functions_follow_casings() {
    let cfg = LuauCodegenOutput {
        path: String::new(),
        include_prelude_types: false,
        new_luau_solver: false,
        freeze_tables: true,
        type_casing: Casing::Upper,
        field_casing: Casing::Pascal,
    };
    assert_eq!(cfg.ident_sprite(), "SPRITE");
    assert_eq!(cfg.ident_spritesheet(), "Spritesheet");
    assert_eq!(cfg.ident_x(), "X");
    assert_eq!(cfg.ident_y(), "Y");
    assert_eq!(cfg.ident_width(), "Width");
    assert_eq!(cfg.ident_height(), "Height");
}

#[test]
fn typescript_codegen_consts() {
    let cfg = TypeScriptCodegenOutput {
        path: String::new(),
        export: TypeScriptExport::Consts,
        include_prelude_types: false,
        type_casing: Casing::Camel,
        field_casing: Casing::Snake,
    };
    let code = cfg.codegen("icons", &one_sprite_sheet());
    let expected = format!(
        "// {DISCLAIMER}\n\nexport const icon = {{\n\tspritesheet: \"todo lolol\",\n\tx: 5,\n\ty: 6,\n\twidth: 7,\n\theight: 8,\n}};\n\n"
    );
    assert_eq!(code, expected);
}

#[test]
fn typescript_codegen_named_namespace() {
    let cfg = TypeScriptCodegenOutput {
        path: String::new(),
        export: TypeScriptExport::NamedNamespace,
        include_prelude_types: false,
        type_casing: Casing::Camel,
        field_casing: Casing::Snake,
    };
    let code = cfg.codegen("icons", &one_sprite_sheet());
    let expected = format!(
        "// {DISCLAIMER}\n\nexport namespace icons {{\n\texport const icon = {{\n\t\tspritesheet: \"todo lolol\",\n\t\tx: 5,\n\t\ty: 6,\n\t\twidth: 7,\n\t\theight: 8,\n\t}};\n}}\n\n"
    );
    assert_eq!(code, expected);
}

#[test]
fn typescript_codegen_export_namespace() {
    let cfg = TypeScriptCodegenOutput {
        path: String::new(),
        export: TypeScriptExport::ExportNamespace,
        include_prelude_types: false,
        type_casing: Casing::Camel,
        field_casing: Casing::Snake,
    };
    let code = cfg.codegen("icons", &one_sprite_sheet());
    let expected = format!(
        "// {DISCLAIMER}\n\nnamespace icons {{\n\texport const icon = {{\n\t\tspritesheet: \"todo lolol\",\n\t\tx: 5,\n\t\ty: 6,\n\t\twidth: 7,\n\t\theight: 8,\n\t}};\n}}\nexport = icons;\n"
    );
    assert_eq!(code, expected);
}

#[test]
fn typescript_codegen_default_namespace_with_prelude() {
    let cfg = TypeScriptCodegenOutput {
        path: String::new(),
        export: TypeScriptExport::DefaultNamespace,
        include_prelude_types: true,
        type_casing: Casing::Pascal,
        field_casing: Casing::Snake,
    };
    let code = cfg.codegen("icons", &one_sprite_sheet());
    let prelude = "export interface Sprite {\n\t\treadonly spritesheet: string,\n\t\treadonly x: number,\n\t\treadonly y: number,\n\t\treadonly width: number,\n\t\treadonly height: number,\n\t}";
    let expected = format!(
        "// {DISCLAIMER}\n\nexport default namespace icons {{\n\t{prelude}\n\n\texport const icon: Sprite = {{\n\t\tspritesheet: \"todo lolol\",\n\t\tx: 5,\n\t\ty: 6,\n\t\twidth: 7,\n\t\theight: 8,\n\t}};\n}}\n\n"
    );
    assert_eq!(code, expected);
}

#[test]
fn typescript_sprite_type_exact() {
    let cfg = TypeScriptCodegenOutput {
        path: String::new(),
        export: TypeScriptExport::Consts,
        include_prelude_types: false,
        type_casing: Casing::Camel,
        field_casing: Casing::Camel,
    };
    assert_eq!(
        cfg.sprite_type(),
        "{\n\treadonly spritesheet: string,\n\treadonly x: number,\n\treadonly y: number,\n\treadonly width: number,\n\treadonly height: number,\n}"
    );
    assert_eq!(cfg.prelude_types(), format!("export interface sprite {}", cfg.sprite_type()));
}

#[test]
fn declarations_codegen_without_prelude() {
    let cfg = TypeScriptDeclarationsCodegenOutput {
        path: String::new(),
        include_prelude_types: false,
        type_casing: Casing::Camel,
        field_casing: Casing::Snake,
    };
    let code = cfg.codegen("sheet", &one_sprite_sheet());
    let expected = format!(
        "// {DISCLAIMER}\n\ndeclare namespace sheet {{\n\texport const icon: {{\n\t\treadonly spritesheet: string,\n\t\treadonly x: number,\n\t\treadonly y: number,\n\t\treadonly width: number,\n\t\treadonly height: number,\n\t}};\n}}\n\nexport = sheet;\nexport as namespace sheet;\n"
    );
    assert_eq!(code, expected);
}

#[test]
fn declarations_codegen_with_prelude() {
    let cfg = TypeScriptDeclarationsCodegenOutput {
        path: String::new(),
        include_prelude_types: true,
        type_casing: Casing::Pascal,
        field_casing: Casing::Snake,
    };
    let code = cfg.codegen("sheet", &one_sprite_sheet());
    let prelude = "export interface Sprite {\n\t\treadonly spritesheet: string,\n\t\treadonly x: number,\n\t\treadonly y: number,\n\t\treadonly width: number,\n\t\treadonly height: number,\n\t}";
    let expected = format!(
        "// {DISCLAIMER}\n\ndeclare namespace sheet {{\n\t{prelude}\n\texport const icon: Sprite;\n}}\n\nexport = sheet;\nexport as namespace sheet;\n"
    );
    assert_eq!(code, expected);
}

#[test]
fn luau_codegen_brackets_kebab_case_keys() {
    let cfg = LuauCodegenOutput {
        path: String::new(),
        include_prelude_types: false,
        new_luau_solver: false,
        freeze_tables: false,
        type_casing: Casing::Snake,
        field_casing: Casing::Snake,
    };
    let sheet = Spritesheet {
        pixmap_keys: vec!["sheet0".to_string()],
        sprites: vec![(
            "arrow-up".to_string(),
            Sprite {
                pixmap_key: "sheet0".to_string(),
                x: 0,
                y: 0,
                width: 24,
                height: 24,
            },
        )],
    };
    let code = cfg.codegen("sheet", &sheet);
    let expected = format!(
        "--!strict\n-- {DISCLAIMER}\n\nlocal sheet = {{\n\t[\"arrow-up\"] = {{ spritesheet = \"todo lololol\", x = 0, y = 0, width = 24, height = 24 }},\n}}\n\nreturn sheet\n"
    );
    assert_eq!(code, expected);
}

#[test]
fn output_type_tags() {
    let luau = OutputSpecifier::Luau(LuauCodegenOutput {
        path: String::new(),
        include_prelude_types: false,
        new_luau_solver: false,
        freeze_tables: true,
        type_casing: Casing::Snake,
        field_casing: Casing::Snake,
    });
    assert_eq!(luau.output_type(), "luau");
    let ts = OutputSpecifier::TypeScript(TypeScriptCodegenOutput {
        path: String::new(),
        export: TypeScriptExport::Consts,
        include_prelude_types: false,
        type_casing: Casing::Camel,
        field_casing: Casing::Pascal,
    });
    assert_eq!(ts.output_type(), "ts");
    let dts = OutputSpecifier::TypeScriptDeclarations(TypeScriptDeclarationsCodegenOutput {
        path: String::new(),
        include_prelude_types: false,
        type_casing: Casing::Camel,
        field_casing: Casing::Pascal,
    });
    assert_eq!(dts.output_type(), "dts");
}
