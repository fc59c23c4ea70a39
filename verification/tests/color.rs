use kintaro::color::helpers::{
    colorset_from_hex_strings, colorsets_from_vec_hex_strings, hex_to_color, hex_to_rbg,
    vec_hex_to_vec_color,
};
use kintaro::color::map::{color_map_from_named_colorsets, color_map_from_named_gen_color};
use kintaro::color::{Color, ColorSet, ColorSets};
use kintaro::config::{color_map, named_colorsets};

fn as_floats(rgb: (u8, u8, u8)) -> (f32, f32, f32) {
    (rgb.0 as f32, rgb.1 as f32, rgb.2 as f32)
}

#[test]
fn test_hex_to_rbg_success() {
    assert_eq!(as_floats(hex_to_rbg("#ffffff")), (255.0, 255.0, 255.0));
    assert_eq!(as_floats(hex_to_rbg("#000000")), (0.0, 0.0, 0.0));
    assert_eq!(as_floats(hex_to_rbg("#96B780")), (150.0, 183.0, 128.0));
}

#[test]
fn test_hex_to_color() {
    let c = hex_to_color("#96B780");
    assert_eq!(
        (c.r as f32 / 255.0, c.g as f32 / 255.0, c.b as f32 / 255.0),
        (150.0 / 255.0, 183.0 / 255.0, 128.0 / 255.0)
    );
    assert_eq!(c, Color { r: 150, g: 183, b: 128 });
}

#[test]
fn hex_to_rbg_reads_upper_and_lower_case() {
    assert_eq!(hex_to_rbg("#aBcDeF"), (0xab, 0xcd, 0xef));
    assert_eq!(hex_to_rbg("#0a0B0c"), (10, 11, 12));
}

#[test]
fn hex_to_rbg_ignores_digits_after_the_third_byte() {
    assert_eq!(hex_to_rbg("#10203040"), (0x10, 0x20, 0x30));
}

#[test]
fn hex_to_rbg_does_not_look_at_the_leading_character() {
    assert_eq!(hex_to_rbg("x112233"), (0x11, 0x22, 0x33));
}

#[test]
fn vec_hex_to_vec_color_keeps_order() {
    let colors = vec_hex_to_vec_color(vec!["#010203", "#ff0088"]);
    assert_eq!(colors, vec![Color { r: 1, g: 2, b: 3 }, Color { r: 255, g: 0, b: 136 }]);
    assert!(vec_hex_to_vec_color(vec![]).is_empty());
}

#[test]
fn colorset_from_hex_strings_holds_the_colors() {
    let set = colorset_from_hex_strings(vec!["#6655aa", "#222222"]);
    assert_eq!(set.colors, vec![Color { r: 0x66, g: 0x55, b: 0xaa }, Color { r: 0x22, g: 0x22, b: 0x22 }]);
    let same = ColorSet::init(vec!["#6655aa", "#222222"]);
    assert_eq!(same.colors, set.colors);
}

#[test]
fn colorset_gen_draws_from_the_palette() {
    let set = colorset_from_hex_strings(vec!["#6655aa", "#222222", "#010101"]);
    for _ in 0..50 {
        let c = set.gen(&vec![]);
        assert!(set.colors.contains(&c));
    }
}

#[test]
fn colorsets_start_at_the_first_and_cycle() {
    let mut sets = colorsets_from_vec_hex_strings(vec![vec!["#010101"], vec!["#020202"], vec!["#030303"]]);
    assert_eq!(sets.n, 0);
    assert_eq!(sets.gen(&vec![]), Color { r: 1, g: 1, b: 1 });
    sets.update();
    assert_eq!(sets.n, 1);
    assert_eq!(sets.gen(&vec![]), Color { r: 2, g: 2, b: 2 });
    sets.update();
    sets.update();
    assert_eq!(sets.n, 0);
    let init = ColorSets::init(vec![vec!["#010101"], vec!["#020202"]]);
    assert_eq!(init.colorsets.len(), 2);
}

#[test]
fn default_colorsets() {
    let sets = ColorSets::default();
    assert_eq!(sets.n, 0);
    assert_eq!(sets.colorsets.len(), 18);
    assert_eq!(sets.colorsets[0].colors, vec![Color { r: 0x66, g: 0x55, b: 0xaa }, Color { r: 0x22, g: 0x22, b: 0x22 }]);
    assert_eq!(sets.colorsets[2].colors.len(), 6);
    assert_eq!(sets.colorsets[17].colors[0], Color { r: 0xaa, g: 0x10, b: 0xe4 });
}

#[test]
fn named_colorsets_of_the_default_configuration() {
    let named = named_colorsets();
    assert_eq!(named.len(), 10);
    assert_eq!(named[0], ("a", vec!["#dd1133", "#030303"]));
    assert_eq!(named[9], ("j", vec!["#ee4499", "#3f2527"]));
}

#[test]
fn color_map_picks_the_palette_of_the_last_name() {
    let map = color_map();
    let c = map.gen(&vec!["x".to_string(), "b".to_string()]);
    assert!(c == Color { r: 0x23, g: 0x39, b: 0xe3 } || c == Color { r: 0x30, g: 0x30, b: 0x30 });
    let d = map.gen(&vec!["b".to_string(), "nothing".to_string()]);
    assert_eq!(d, Color { r: 0xff, g: 0x00, b: 0x88 });
    let e = map.gen(&vec![]);
    assert_eq!(e, Color { r: 0xff, g: 0x00, b: 0x88 });
}

#[test]
fn color_map_lists_the_default_names_from_the_last() {
    let map = color_map();
    let keys: Vec<&str> = map.colors.keys().map(|k| k.as_str()).collect();
    assert_eq!(keys, vec!["j", "i", "h", "g", "f", "e", "d", "c", "b", "a"]);
}

#[test]
fn color_map_from_named_colorsets_keeps_the_first_of_a_name() {
    let map = color_map_from_named_colorsets(vec![("a", vec!["#010101"]), ("a", vec!["#020202"]), ("b", vec!["#030303"])]);
    assert_eq!(map.colors.len(), 2);
    assert_eq!(map.gen(&vec!["a".to_string()]), Color { r: 1, g: 1, b: 1 });
    assert_eq!(map.gen(&vec!["b".to_string()]), Color { r: 3, g: 3, b: 3 });
}

#[test]
fn color_map_from_named_colorsets_orders_names_by_last_occurrence_reversed() {
    let map = color_map_from_named_colorsets(vec![
        ("a", vec!["#010101"]),
        ("b", vec!["#020202"]),
        ("a", vec!["#030303"]),
        ("c", vec!["#040404"]),
    ]);
    let keys: Vec<&str> = map.colors.keys().map(|k| k.as_str()).collect();
    assert_eq!(keys, vec!["c", "a", "b"]);
    let distinct = color_map_from_named_colorsets(vec![("x", vec!["#010101"]), ("y", vec!["#020202"])]);
    let keys: Vec<&str> = distinct.colors.keys().map(|k| k.as_str()).collect();
    assert_eq!(keys, vec!["y", "x"]);
}

#[test]
fn color_map_from_named_gen_color_keeps_the_last_of_a_name() {
    let map = color_map_from_named_gen_color(vec![
        ("a", colorset_from_hex_strings(vec!["#010101"])),
        ("a", colorset_from_hex_strings(vec!["#020202"])),
        ("b", colorset_from_hex_strings(vec!["#030303"])),
    ]);
    assert_eq!(map.colors.len(), 2);
    assert_eq!(map.gen(&vec!["a".to_string()]), Color { r: 2, g: 2, b: 2 });
    assert_eq!(map.gen(&vec!["b".to_string()]), Color { r: 3, g: 3, b: 3 });
    assert_eq!(map.gen(&vec!["c".to_string()]), Color { r: 255, g: 0, b: 136 });
    let keys: Vec<&str> = map.colors.keys().map(|k| k.as_str()).collect();
    assert_eq!(keys, vec!["a", "b"]);
}

#[test]
fn color_map_from_named_gen_color_orders_names_by_first_occurrence() {
    let map = color_map_from_named_gen_color(vec![
        ("b", colorset_from_hex_strings(vec!["#010101"])),
        ("a", colorset_from_hex_strings(vec!["#020202"])),
        ("b", colorset_from_hex_strings(vec!["#030303"])),
        ("c", colorset_from_hex_strings(vec!["#040404"])),
    ]);
    let keys: Vec<&str> = map.colors.keys().map(|k| k.as_str()).collect();
    assert_eq!(keys, vec!["b", "a", "c"]);
}
