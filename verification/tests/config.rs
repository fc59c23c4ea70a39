use kintaro::color::helpers::is_hex_color_str;
use kintaro::color::Color;
use kintaro::config::{color_map, event_stream_socool_paths, frame_passes, FramePass, RenderableConfig};
use kintaro::ui::frames_per_second;

#[test]
fn frame_passes_chain_three_frames() {
    let passes = frame_passes();
    let outputs: Vec<&str> = passes.iter().map(|p| p.output_frame).collect();
    assert_eq!(outputs, vec!["frame1", "frame2", "main"]);
    assert_eq!(passes[0].renderables.len(), 2);
    assert!(matches!(
        &passes[0].renderables[1],
        RenderableConfig::EventStreams { socool_path, n_vertices: 50, n_indices: 50, .. }
            if socool_path == "kintaro3.socool"
    ));
    assert!(matches!(
        &passes[1].renderables[1],
        RenderableConfig::Sampler { input_frame: "frame1", .. }
    ));
    assert!(matches!(
        &passes[2].renderables[1],
        RenderableConfig::Sampler { input_frame: "frame2", .. }
    ));
    match &passes[0].renderables[1] {
        RenderableConfig::EventStreams { color, .. } => {
            let keys: Vec<&str> = color.colors.keys().map(|k| k.as_str()).collect();
            assert_eq!(keys, vec!["j", "i", "h", "g", "f", "e", "d", "c", "b", "a"]);
            assert_eq!(color.gen(&vec!["unnamed".to_string()]), Color { r: 0xff, g: 0x00, b: 0x88 });
        }
        _ => panic!("the second renderable of the first pass streams events"),
    }
    match &passes[1].renderables[2] {
        RenderableConfig::Glyphy { text } => assert_eq!(text, &vec![("Cool", "#ff2365")]),
        _ => panic!("the caption of the second pass is text"),
    }
}

#[test]
fn event_stream_paths_of_the_default_passes() {
    let passes = frame_passes();
    assert_eq!(event_stream_socool_paths(&passes), vec!["kintaro3.socool".to_string()]);
}

#[test]
fn event_stream_paths_keep_the_order_of_passes_and_renderables() {
    let stream = |p: &str| RenderableConfig::EventStreams {
        socool_path: p.to_string(),
        shader_path: "s.wgsl",
        n_vertices: 3,
        n_indices: 3,
        color: color_map(),
    };
    let passes = vec![
        FramePass { output_frame: "a", renderables: vec![stream("one"), RenderableConfig::Toy { shader_path: "t" }, stream("two")] },
        FramePass { output_frame: "b", renderables: vec![] },
        FramePass { output_frame: "c", renderables: vec![RenderableConfig::Glyphy { text: vec![] }, stream("three")] },
    ];
    assert_eq!(
        event_stream_socool_paths(&passes),
        vec!["one".to_string(), "two".to_string(), "three".to_string()]
    );
    assert_eq!(event_stream_socool_paths(&vec![]), Vec::<String>::new());
}

#[test]
fn frames_per_second_counts_the_first_second() {
    assert_eq!(frames_per_second(0, 0), 0);
    assert_eq!(frames_per_second(59, 0), 59);
    assert_eq!(frames_per_second(120, 1), 60);
    assert_eq!(frames_per_second(100, 2), 33);
}

#[test]
fn is_hex_color_str_checks_the_shape() {
    assert!(is_hex_color_str("#ffffff"));
    assert!(is_hex_color_str("#96B780"));
    assert!(is_hex_color_str("#ff2365aa"));
    assert!(!is_hex_color_str("ffffff"));
    assert!(!is_hex_color_str("#fffff"));
    assert!(!is_hex_color_str("#ffffffa"));
    assert!(!is_hex_color_str("#gggggg"));
    assert!(!is_hex_color_str(""));
}
