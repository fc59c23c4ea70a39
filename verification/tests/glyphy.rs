use kintaro::glyphy::{
    hex_str_to_rgba, max_len_text_in_vec_text_renderable, named_colorset_legend, rgba_from_hex_match, SectionKind,
    TextSection,
};

#[test]
fn test_hex_str_to_rgba() {
    let hex_str = "#af4573";
    let rgba = hex_str_to_rgba(hex_str).unwrap();
    let rgba = [rgba[0] as f32, rgba[1] as f32, rgba[2] as f32, rgba[3] as f32];
    assert_eq!(rgba, [175.0, 69.0, 115.0, 255.0]);
}

#[test]
fn test_hex_str_to_normalized_rgba() {
    let hex_str = "#af4573";
    let rgba = hex_str_to_rgba(hex_str).unwrap();
    let normalized: Vec<f32> = rgba.iter().map(|v| *v as f32 / 255.0).collect();
    assert_eq!(normalized, [0.6862745, 0.27058825, 0.4509804, 1.0,])
}

#[test]
fn hex_str_to_rgba_reads_the_first_three_pairs() {
    assert_eq!(hex_str_to_rgba("#96B780"), Some([150, 183, 128, 255]));
    assert_eq!(hex_str_to_rgba("#ff2365aa"), Some([255, 35, 101, 255]));
}

#[test]
fn rgba_from_hex_match_follows_the_match() {
    assert_eq!(rgba_from_hex_match("#010203", true), Some([1, 2, 3, 255]));
    assert_eq!(rgba_from_hex_match("#010203", false), None);
}

#[test]
fn max_len_text_is_the_longest_name() {
    let v = vec![("ab", vec!["#000000"]), ("abcd", vec![]), ("a", vec![])];
    assert_eq!(max_len_text_in_vec_text_renderable(&v), 4);
    assert_eq!(max_len_text_in_vec_text_renderable(&v[2..]), 1);
}

#[test]
fn legend_lists_names_then_colours_from_the_last_palette() {
    let t = vec![("a", vec!["#010101", "#020202"]), ("bb", vec!["#030303"])];
    let sections = named_colorset_legend(&t);
    assert_eq!(
        sections,
        vec![
            TextSection { kind: SectionKind::Label, row: 0, text: "bb", color: "#dedede" },
            TextSection { kind: SectionKind::Label, row: 1, text: "a", color: "#dedede" },
            TextSection { kind: SectionKind::Swatch { column: 0 }, row: 0, text: "#030303", color: "#030303" },
            TextSection { kind: SectionKind::Swatch { column: 0 }, row: 1, text: "#010101", color: "#010101" },
            TextSection { kind: SectionKind::Swatch { column: 1 }, row: 1, text: "#020202", color: "#020202" },
        ]
    );
    assert!(named_colorset_legend(&vec![]).is_empty());
}
