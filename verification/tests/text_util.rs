use springroll::casings::{cased_height, cased_sprite, cased_width, cased_x, Casing};
use springroll::text::{format_decimal, replace_all, str_eq, str_lt};
use springroll::{default_name_format, format_spritegen_name};

#[test]
fn format_name_substitutes_both_tokens() {
    assert_eq!(format_spritegen_name("$name$index", "icons", &1), "icons1");
    assert_eq!(format_spritegen_name("$name$index", "icons", &0), "icons0");
    assert_eq!(
        format_spritegen_name("page_$index_of_$name", "ui", &12),
        "page_12_of_ui"
    );
}

#[test]
fn format_name_without_tokens_is_unchanged() {
    assert_eq!(format_spritegen_name("static", "icons", &3), "static");
}

#[test]
fn format_name_matches_std_replace() {
    for (fmt, name, idx) in [
        ("$name$index", "icons", 7usize),
        ("$index$name", "a", 0),
        ("x$namey$indexz", "mid", 10),
        ("$name$name", "dup", 2),
    ] {
        let expected = fmt
            .replace("$name", name)
            .replace("$index", idx.to_string().as_str());
        assert_eq!(format_spritegen_name(fmt, name, &idx), expected);
    }
}

#[test]
fn default_name_format_is_name_and_index() {
    assert_eq!(default_name_format(), "$name$index");
}

#[test]
fn replace_all_is_left_to_right_and_non_overlapping() {
    assert_eq!(replace_all("aaa", "aa", "b"), "ba");
    assert_eq!(replace_all("hello", "l", "LL"), "heLLLLo");
    assert_eq!(replace_all("abc", "x", "y"), "abc");
    assert_eq!(replace_all("", "x", "y"), "");
    // replaced text is not rescanned
    assert_eq!(replace_all("ab", "ab", "abab"), "abab");
}

#[test]
fn replace_all_matches_std_replace() {
    for (s, pat, rep) in [
        ("the cat sat", "at", "og"),
        ("aaaa", "aa", "a"),
        ("\n\n", "\n", "\n\t"),
        ("interface {}", "{}", "{ }"),
    ] {
        assert_eq!(replace_all(s, pat, rep), s.replace(pat, rep));
    }
}

#[test]
fn format_decimal_writes_exact_digits() {
    assert_eq!(format_decimal(0), "0");
    assert_eq!(format_decimal(7), "7");
    assert_eq!(format_decimal(10), "10");
    assert_eq!(format_decimal(12345), "12345");
    assert_eq!(format_decimal(4294967295), "4294967295");
}

#[test]
fn str_lt_is_lexicographic() {
    assert!(str_lt("a", "b"));
    assert!(str_lt("", "a"));
    assert!(str_lt("ab", "b"));
    assert!(str_lt("abc", "abd"));
    assert!(str_lt("ab", "abc"));
    assert!(!str_lt("b", "a"));
    assert!(!str_lt("a", "a"));
    assert!(!str_lt("abc", "ab"));
}

#[test]
fn str_eq_compares_contents() {
    assert!(str_eq("abc", "abc"));
    assert!(str_eq("", ""));
    assert!(!str_eq("abc", "abd"));
    assert!(!str_eq("abc", "ab"));
}

#[test]
fn casings_spell_each_word() {
    assert_eq!(cased_sprite(&Casing::Snake), "sprite");
    assert_eq!(cased_sprite(&Casing::ScreamingSnake), "SPRITE");
    assert_eq!(cased_sprite(&Casing::Pascal), "Sprite");
    assert_eq!(cased_sprite(&Casing::Camel), "sprite");
    assert_eq!(cased_sprite(&Casing::Lower), "sprite");
    assert_eq!(cased_sprite(&Casing::Upper), "SPRITE");
    assert_eq!(cased_width(&Casing::Pascal), "Width");
    assert_eq!(cased_height(&Casing::ScreamingSnake), "HEIGHT");
    assert_eq!(cased_x(&Casing::Upper), "X");
}

#[test]
fn default_casing_is_snake() {
    assert_eq!(Casing::default(), Casing::Snake);
}
