use std::collections::HashMap;

use springroll::layout::{sort_entries, ConfigError, SpriteEntry};
use springroll::sources::luicide::LuicideSource;
use springroll::sources::{SpriteSource, SpriteSpecifier};
use springroll::{spritegen, Config, Spritegen, Spritesheet, SpritesheetSpecifier};

fn config(size: u32, rows: u32) -> Spritegen {
    Spritegen {
        spritesheet_size: size,
        sprites_per_row: rows,
        name_format: "$name$index".to_string(),
    }
}

fn raster(key: &str, width: u32, height: u32) -> SpriteEntry {
    SpriteEntry {
        key: key.to_string(),
        source: Some(SpriteSource::Pixmap { width, height }),
    }
}

fn vector(key: &str, width: u32, height: u32) -> SpriteEntry {
    SpriteEntry {
        key: key.to_string(),
        source: Some(SpriteSource::Tree { width, height }),
    }
}

fn failed(key: &str) -> SpriteEntry {
    SpriteEntry { key: key.to_string(), source: None }
}

fn placement(sheet: &Spritesheet, key: &str) -> (String, u32, u32, u32, u32) {
    let (_, s) = sheet
        .sprites
        .iter()
        .find(|(k, _)| k == key)
        .unwrap_or_else(|| panic!("no placement for {key}"));
    (s.pixmap_key.clone(), s.x, s.y, s.width, s.height)
}

#[test]
fn three_sprites_one_page() {
    // cell size 32; "a" and "b" fill the first row, the row advances by the
    // tallest intrinsic height (32), and "c" starts the second row
    let entries = vec![raster("a", 16, 16), raster("b", 32, 32), raster("c", 8, 8)];
    let sheet = spritegen("sheet", &config(64, 2), entries).unwrap();

    assert_eq!(sheet.pixmap_keys, vec!["sheet0".to_string()]);
    assert_eq!(placement(&sheet, "a"), ("sheet0".to_string(), 0, 0, 16, 16));
    assert_eq!(placement(&sheet, "b"), ("sheet0".to_string(), 32, 0, 32, 32));
    assert_eq!(placement(&sheet, "c"), ("sheet0".to_string(), 0, 32, 8, 8));
    assert_eq!(sheet.sprites.len(), 3);
}

#[test]
fn five_uniform_sprites_two_pages() {
    // four 32x32 sprites fill page 0 as a 2x2 grid; the fifth opens page 1
    let entries = vec![
        raster("s1", 32, 32),
        raster("s2", 32, 32),
        raster("s3", 32, 32),
        raster("s4", 32, 32),
        raster("s5", 32, 32),
    ];
    let sheet = spritegen("n", &config(64, 2), entries).unwrap();

    assert_eq!(sheet.pixmap_keys, vec!["n0".to_string(), "n1".to_string()]);
    assert_eq!(placement(&sheet, "s1"), ("n0".to_string(), 0, 0, 32, 32));
    assert_eq!(placement(&sheet, "s2"), ("n0".to_string(), 32, 0, 32, 32));
    assert_eq!(placement(&sheet, "s3"), ("n0".to_string(), 0, 32, 32, 32));
    assert_eq!(placement(&sheet, "s4"), ("n0".to_string(), 32, 32, 32, 32));
    assert_eq!(placement(&sheet, "s5"), ("n1".to_string(), 0, 0, 32, 32));
}

#[test]
fn exactly_full_page_stays_single() {
    let entries = vec![
        raster("s1", 32, 32),
        raster("s2", 32, 32),
        raster("s3", 32, 32),
        raster("s4", 32, 32),
    ];
    let sheet = spritegen("n", &config(64, 2), entries).unwrap();
    assert_eq!(sheet.pixmap_keys, vec!["n0".to_string()]);
    assert_eq!(sheet.sprites.len(), 4);
}

#[test]
fn zero_sprites_yield_one_blank_page() {
    let sheet = spritegen("empty", &config(64, 2), vec![]).unwrap();
    assert_eq!(sheet.pixmap_keys, vec!["empty0".to_string()]);
    assert!(sheet.sprites.is_empty());
}

#[test]
fn all_failed_sources_yield_one_blank_page() {
    let entries = vec![failed("a"), failed("b")];
    let sheet = spritegen("empty", &config(64, 2), entries).unwrap();
    assert_eq!(sheet.pixmap_keys, vec!["empty0".to_string()]);
    assert!(sheet.sprites.is_empty());
}

#[test]
fn failed_source_is_skipped_without_consuming_a_cell() {
    // "b" fails to resolve: "c" takes the cell "b" would have occupied, and
    // "b" appears nowhere in the placement map
    let entries = vec![raster("a", 32, 32), failed("b"), raster("c", 32, 32)];
    let sheet = spritegen("n", &config(64, 2), entries).unwrap();

    assert_eq!(sheet.sprites.len(), 2);
    assert!(sheet.sprites.iter().all(|(k, _)| k != "b"));
    assert_eq!(placement(&sheet, "a"), ("n0".to_string(), 0, 0, 32, 32));
    assert_eq!(placement(&sheet, "c"), ("n0".to_string(), 32, 0, 32, 32));

    let without = vec![raster("a", 32, 32), raster("c", 32, 32)];
    let sheet_without = spritegen("n", &config(64, 2), without).unwrap();
    assert_eq!(sheet, sheet_without);
}

#[test]
fn placement_is_deterministic_across_input_orders() {
    let forward = vec![raster("a", 16, 16), vector("b", 40, 40), raster("c", 8, 8)];
    let backward = vec![raster("c", 8, 8), raster("a", 16, 16), vector("b", 40, 40)];
    let s1 = spritegen("sheet", &config(64, 2), forward).unwrap();
    let s2 = spritegen("sheet", &config(64, 2), backward).unwrap();
    assert_eq!(s1, s2);
}

#[test]
fn placement_orders_by_key_not_insertion() {
    let entries = vec![raster("zebra", 32, 32), raster("apple", 32, 32)];
    let sheet = spritegen("n", &config(64, 2), entries).unwrap();
    assert_eq!(sheet.sprites[0].0, "apple");
    assert_eq!(sheet.sprites[1].0, "zebra");
    assert_eq!(placement(&sheet, "apple"), ("n0".to_string(), 0, 0, 32, 32));
    assert_eq!(placement(&sheet, "zebra"), ("n0".to_string(), 32, 0, 32, 32));
}

#[test]
fn row_advances_by_tallest_intrinsic_height() {
    let entries = vec![raster("a", 16, 16), raster("b", 24, 40), raster("c", 32, 32)];
    let sheet = spritegen("n", &config(64, 2), entries).unwrap();
    // the first row holds "a" and "b"; its tallest intrinsic height is 40
    assert_eq!(placement(&sheet, "a"), ("n0".to_string(), 0, 0, 16, 16));
    assert_eq!(placement(&sheet, "b"), ("n0".to_string(), 32, 0, 24, 40));
    assert_eq!(placement(&sheet, "c"), ("n0".to_string(), 0, 40, 32, 32));
}

#[test]
fn uneven_cell_division_rounds_down() {
    // 100 / 3 = 33: cells of 33 pixels, and x positions 0, 33, 66, 99 all
    // fit before the row rolls over
    let entries = vec![
        raster("a", 33, 33),
        raster("b", 33, 33),
        raster("c", 33, 33),
        raster("d", 33, 33),
        raster("e", 33, 33),
    ];
    let sheet = spritegen("n", &config(100, 3), entries).unwrap();
    assert_eq!(placement(&sheet, "a"), ("n0".to_string(), 0, 0, 33, 33));
    assert_eq!(placement(&sheet, "b"), ("n0".to_string(), 33, 0, 33, 33));
    assert_eq!(placement(&sheet, "c"), ("n0".to_string(), 66, 0, 33, 33));
    assert_eq!(placement(&sheet, "d"), ("n0".to_string(), 99, 0, 33, 33));
    assert_eq!(placement(&sheet, "e"), ("n0".to_string(), 0, 33, 33, 33));
}

#[test]
fn zero_sprites_per_row_is_rejected() {
    let r = spritegen("n", &config(64, 0), vec![raster("a", 1, 1)]);
    assert_eq!(r.unwrap_err(), ConfigError::SpritesPerRowZero);
}

#[test]
fn zero_spritesheet_size_is_rejected() {
    let r = spritegen("n", &config(0, 1), vec![raster("a", 1, 1)]);
    assert_eq!(r.unwrap_err(), ConfigError::SpritesheetSizeZero);
}

#[test]
fn more_rows_than_pixels_is_rejected() {
    let r = spritegen("n", &config(2, 3), vec![raster("a", 1, 1)]);
    assert_eq!(r.unwrap_err(), ConfigError::CellSizeZero);
}

#[test]
fn sort_entries_orders_by_key() {
    let entries = vec![failed("pear"), failed("apple"), failed("orange")];
    let sorted = sort_entries(entries);
    let keys: Vec<&str> = sorted.iter().map(|e| e.key.as_str()).collect();
    assert_eq!(keys, vec!["apple", "orange", "pear"]);
}

#[test]
fn config_types_carry_specifiers() {
    let mut sprites = HashMap::new();
    sprites.insert(
        "arrow".to_string(),
        SpriteSpecifier::Luicide(LuicideSource { icon: "arrow-up".to_string() }),
    );
    let sheet_spec = SpritesheetSpecifier {
        spritegen: config(64, 2),
        outputs: vec![],
        sprites,
    };
    let mut spritesheets = HashMap::new();
    spritesheets.insert("ui".to_string(), sheet_spec);
    let cfg = Config { spritesheets };

    let sheet_spec = cfg.spritesheets.get("ui").unwrap();
    assert_eq!(sheet_spec.spritegen.spritesheet_size, 64);
    assert_eq!(sheet_spec.sprites.len(), 1);
    match sheet_spec.sprites.get("arrow").unwrap() {
        SpriteSpecifier::Luicide(src) => assert_eq!(src.icon, "arrow-up"),
        other => panic!("unexpected specifier: {other:?}"),
    }
}

#[test]
fn page_name_uses_template_for_each_index() {
    // template with both tokens in a custom arrangement
    let cfg = Spritegen {
        spritesheet_size: 32,
        sprites_per_row: 1,
        name_format: "atlas-$name-page$index".to_string(),
    };
    let entries = vec![raster("a", 32, 32), raster("b", 32, 32)];
    let sheet = spritegen("icons", &cfg, entries).unwrap();
    assert_eq!(
        sheet.pixmap_keys,
        vec![
            "atlas-icons-page0".to_string(),
            "atlas-icons-page1".to_string(),
        ]
    );
    assert_eq!(placement(&sheet, "a").0, "atlas-icons-page0");
    assert_eq!(placement(&sheet, "b").0, "atlas-icons-page1");
}
