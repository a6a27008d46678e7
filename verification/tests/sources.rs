use springroll::outputs::dir::{default_file_extension, FileExtension};
use springroll::sources::luicide::{LuicideSource, LUICIDE_URL};
use springroll::sources::material_symbols::{
    MaterialSymbolsGrade, MaterialSymbolsSize, MaterialSymbolsSource, MaterialSymbolsStyle,
    MaterialSymbolsVariant, MaterialSymbolsWeight, MATERIAL_SYMBOLS_URL,
};
use springroll::sources::SpriteSource;

fn default_symbol(name: &str) -> MaterialSymbolsSource {
    MaterialSymbolsSource {
        symbol: name.to_string(),
        style: MaterialSymbolsStyle::default(),
        variant: MaterialSymbolsVariant::default(),
        weight: MaterialSymbolsWeight::default(),
        grade: MaterialSymbolsGrade::default(),
        size: MaterialSymbolsSize::default(),
    }
}

#[test]
fn default_segments_collapse_out_of_file_name() {
    let src = default_symbol("home");
    assert_eq!(src.file_name(), "home_48px.svg");
}

#[test]
fn non_default_segments_join_in_order() {
    let src = MaterialSymbolsSource {
        symbol: "home".to_string(),
        style: MaterialSymbolsStyle::Rounded,
        variant: MaterialSymbolsVariant::Filled,
        weight: MaterialSymbolsWeight::Weight100,
        grade: MaterialSymbolsGrade::Grade200,
        size: MaterialSymbolsSize::Size20px,
    };
    assert_eq!(src.file_name(), "home_wght100grad200fill1_20px.svg");
}

#[test]
fn negative_grade_segment() {
    let src = MaterialSymbolsSource {
        grade: MaterialSymbolsGrade::GradeNegative25,
        ..default_symbol("star")
    };
    assert_eq!(src.file_name(), "star_gradN25_48px.svg");
}

#[test]
fn url_joins_base_symbol_style_and_file() {
    let src = default_symbol("home");
    assert_eq!(
        src.url_string(),
        format!("{MATERIAL_SYMBOLS_URL}/home/materialsymbolsoutlined/home_48px.svg")
    );
}

#[test]
fn luicide_url_joins_base_icon_and_extension() {
    let src = LuicideSource { icon: "arrow-up".to_string() };
    assert_eq!(src.url_string(), format!("{LUICIDE_URL}/arrow-up.svg"));
}

#[test]
fn style_directory_names() {
    assert_eq!(MaterialSymbolsStyle::Outlined.as_dir_name(), "materialsymbolsoutlined");
    assert_eq!(MaterialSymbolsStyle::Rounded.as_dir_name(), "materialsymbolsrounded");
    assert_eq!(MaterialSymbolsStyle::Sharp.as_dir_name(), "materialsymbolssharp");
}

#[test]
fn weight_segments() {
    assert_eq!(MaterialSymbolsWeight::Weight400.as_file_name_segment(), "");
    assert_eq!(MaterialSymbolsWeight::Weight700.as_file_name_segment(), "wght700");
}

#[test]
fn size_segments() {
    assert_eq!(MaterialSymbolsSize::Size20px.as_file_name_segment(), "20px");
    assert_eq!(MaterialSymbolsSize::Size48px.as_file_name_segment(), "48px");
}

#[test]
fn sprite_source_reports_dimensions() {
    let raster = SpriteSource::Pixmap { width: 12, height: 34 };
    assert_eq!(raster.width(), 12);
    assert_eq!(raster.height(), 34);
    let vector = SpriteSource::Tree { width: 56, height: 78 };
    assert_eq!(vector.width(), 56);
    assert_eq!(vector.height(), 78);
}

#[test]
fn png_is_the_default_file_extension() {
    assert_eq!(FileExtension::Png.as_extension(), "png");
    assert_eq!(default_file_extension(), FileExtension::Png);
    assert_eq!(FileExtension::default(), FileExtension::Png);
}
