//! The palettes that the default configuration colours events with.
use vstd::prelude::*;

use crate::color::helpers::{all_hex_colors, hex_color, hex_colors, is_hex_color};
use crate::color::map::{
    color_map_from_named_colorsets, default_palette_colors, has_key, keys_by_last_occurrence_descending, last_index_of,
    lemma_first_index_is, lemma_last_index_is, lemma_value_of, names_contain,
};
use crate::color::ColorMap;

verus! {

/// The named palettes of the default configuration, as colour strings.
pub open spec fn named_colorsets_spec() -> Seq<(Seq<char>, Seq<Seq<char>>)> {
    seq![
        ("a"@, seq!["#dd1133"@, "#030303"@]),
        ("b"@, seq!["#2339e3"@, "#303030"@]),
        ("c"@, seq!["#744253"@, "#ccddaa"@]),
        ("d"@, seq!["#887880"@, "#facba2"@]),
        ("e"@, seq!["#63474D"@, "#adc37a"@]),
        ("f"@, seq!["#683347"@, "#faed00"@]),
        ("g"@, seq!["#1A3A3A"@, "#fadf23"@]),
        ("h"@, seq!["#383F51"@, "#dadfea"@]),
        ("i"@, seq!["#cc2277"@, "#232423"@]),
        ("j"@, seq!["#ee4499"@, "#3f2527"@])
    ]
}

/// The named palettes of the default configuration.
pub fn named_colorsets<'a>() -> (colorsets: Vec<(&'a str, Vec<&'a str>)>)
    ensures
        colorsets@.len() == named_colorsets_spec().len(),
        forall|i: int| 0 <= i < colorsets@.len() ==> {
            &&& #[trigger] colorsets@[i].0@ == named_colorsets_spec()[i].0
            &&& colorsets@[i].1@.len() == named_colorsets_spec()[i].1.len()
            &&& forall|j: int| 0 <= j < colorsets@[i].1@.len() ==> #[trigger] colorsets@[i].1@[j]@ == named_colorsets_spec()[i].1[j]
        },
        forall|i: int| 0 <= i < colorsets@.len() ==> #[trigger] all_hex_colors(colorsets@[i].1@),
{
    proof {
        reveal_strlit("#dd1133");
        assert(is_hex_color("#dd1133"@));
        reveal_strlit("#030303");
        assert(is_hex_color("#030303"@));
        reveal_strlit("#2339e3");
        assert(is_hex_color("#2339e3"@));
        reveal_strlit("#303030");
        assert(is_hex_color("#303030"@));
        reveal_strlit("#744253");
        assert(is_hex_color("#744253"@));
        reveal_strlit("#ccddaa");
        assert(is_hex_color("#ccddaa"@));
        reveal_strlit("#887880");
        assert(is_hex_color("#887880"@));
        reveal_strlit("#facba2");
        assert(is_hex_color("#facba2"@));
        reveal_strlit("#63474D");
        assert(is_hex_color("#63474D"@));
        reveal_strlit("#adc37a");
        assert(is_hex_color("#adc37a"@));
        reveal_strlit("#683347");
        assert(is_hex_color("#683347"@));
        reveal_strlit("#faed00");
        assert(is_hex_color("#faed00"@));
        reveal_strlit("#1A3A3A");
        assert(is_hex_color("#1A3A3A"@));
        reveal_strlit("#fadf23");
        assert(is_hex_color("#fadf23"@));
        reveal_strlit("#383F51");
        assert(is_hex_color("#383F51"@));
        reveal_strlit("#dadfea");
        assert(is_hex_color("#dadfea"@));
        reveal_strlit("#cc2277");
        assert(is_hex_color("#cc2277"@));
        reveal_strlit("#232423");
        assert(is_hex_color("#232423"@));
        reveal_strlit("#ee4499");
        assert(is_hex_color("#ee4499"@));
        reveal_strlit("#3f2527");
        assert(is_hex_color("#3f2527"@));
    }
    let colorsets = vec![
        ("a", vec!["#dd1133", "#030303"]),
        ("b", vec!["#2339e3", "#303030"]),
        ("c", vec!["#744253", "#ccddaa"]),
        ("d", vec!["#887880", "#facba2"]),
        ("e", vec!["#63474D", "#adc37a"]),
        ("f", vec!["#683347", "#faed00"]),
        ("g", vec!["#1A3A3A", "#fadf23"]),
        ("h", vec!["#383F51", "#dadfea"]),
        ("i", vec!["#cc2277", "#232423"]),
        ("j", vec!["#ee4499", "#3f2527"])
    ];
    colorsets
}

/// Each default palette name is one letter, from `a` on.
proof fn lemma_named_colorsets_names()
    ensures
        forall|i: int|
            0 <= i < named_colorsets_spec().len() ==> #[trigger] named_colorsets_spec()[i].0.len() == 1
                && named_colorsets_spec()[i].0[0] as int == 97 + i,
{
    reveal_strlit("a");
    reveal_strlit("b");
    reveal_strlit("c");
    reveal_strlit("d");
    reveal_strlit("e");
    reveal_strlit("f");
    reveal_strlit("g");
    reveal_strlit("h");
    reveal_strlit("i");
    reveal_strlit("j");
    let spec = named_colorsets_spec();
    assert forall|i: int| 0 <= i < spec.len() implies #[trigger] spec[i].0.len() == 1 && spec[i].0[0] as int == 97 + i by {
        if i == 0 {
            assert(spec[0].0 =~= seq!['a']);
        } else if i == 1 {
            assert(spec[1].0 =~= seq!['b']);
        } else if i == 2 {
            assert(spec[2].0 =~= seq!['c']);
        } else if i == 3 {
            assert(spec[3].0 =~= seq!['d']);
        } else if i == 4 {
            assert(spec[4].0 =~= seq!['e']);
        } else if i == 5 {
            assert(spec[5].0 =~= seq!['f']);
        } else if i == 6 {
            assert(spec[6].0 =~= seq!['g']);
        } else if i == 7 {
            assert(spec[7].0 =~= seq!['h']);
        } else if i == 8 {
            assert(spec[8].0 =~= seq!['i']);
        } else if i == 9 {
            assert(spec[9].0 =~= seq!['j']);
        }
    }
}

/// Some element of the sequence is `v`.
spec fn takes_value(g: Seq<int>, v: int) -> bool {
    exists|m: int| 0 <= m < g.len() && #[trigger] g[m] == v
}

/// A strictly decreasing sequence of numbers below `n` that takes every value
/// below `n` counts down from `n - 1` to 0.
proof fn lemma_decreasing_onto(g: Seq<int>, n: int)
    requires
        0 <= n,
        forall|i: int, j: int| 0 <= i < j < g.len() ==> #[trigger] g[i] > #[trigger] g[j],
        forall|i: int| 0 <= i < g.len() ==> 0 <= #[trigger] g[i] < n,
        forall|v: int| 0 <= v < n ==> #[trigger] takes_value(g, v),
    ensures
        g.len() == n,
        forall|i: int| 0 <= i < g.len() ==> #[trigger] g[i] == n - 1 - i,
{
    if g.len() == 0 {
        if n > 0 {
            assert(takes_value(g, 0));
        }
    } else {
        assert(0 <= g[0] < n);
        lemma_decreasing_prefix(g, n, g.len() - 1);
        assert(g[g.len() - 1] == n - g.len());
        assert(takes_value(g, 0));
        let m = choose|m: int| 0 <= m < g.len() && #[trigger] g[m] == 0;
        assert(g[m] == n - 1 - m);
    }
}

proof fn lemma_decreasing_prefix(g: Seq<int>, n: int, i: int)
    requires
        0 <= i < g.len(),
        forall|a: int, b: int| 0 <= a < b < g.len() ==> #[trigger] g[a] > #[trigger] g[b],
        forall|a: int| 0 <= a < g.len() ==> 0 <= #[trigger] g[a] < n,
        forall|v: int| 0 <= v < n ==> #[trigger] takes_value(g, v),
    ensures
        forall|a: int| 0 <= a <= i ==> #[trigger] g[a] == n - 1 - a,
    decreases i,
{
    if i > 0 {
        lemma_decreasing_prefix(g, n, i - 1);
        assert(g[i] < g[i - 1]);
    }
    assert(g[i] <= n - 1 - i);
    let v = n - 1 - i;
    assert(takes_value(g, v));
    let m = choose|m: int| 0 <= m < g.len() && #[trigger] g[m] == v;
    if m < i {
        assert(g[m] == n - 1 - m);
    } else if m > i {
        assert(g[i] > g[m]);
    }
}

/// The names of the map of the default palettes come in the reverse order of
/// the list.
proof fn lemma_default_map_order(cs: Seq<(&str, Vec<&str>)>, map: ColorMap)
    requires
        cs.len() == named_colorsets_spec().len(),
        forall|i: int| 0 <= i < cs.len() ==> #[trigger] cs[i].0@ == named_colorsets_spec()[i].0,
        map.well_formed(),
        forall|name: Seq<char>| #[trigger] map.palette_named(name) is Some <==> names_contain(cs, name),
        keys_by_last_occurrence_descending(map.entries(), cs),
    ensures
        map.entries().len() == named_colorsets_spec().len(),
        forall|i: int|
            0 <= i < map.entries().len() ==> #[trigger] map.entries()[i].0 == named_colorsets_spec()[
                named_colorsets_spec().len() - 1 - i
            ].0,
{
    let spec = named_colorsets_spec();
    let e = map.entries();
    let n = spec.len() as int;
    lemma_named_colorsets_names();
    assert forall|j: int| 0 <= j < n implies #[trigger] last_index_of(cs, spec[j].0) == j by {
        assert forall|l: int| j < l < cs.len() implies #[trigger] cs[l].0@ != spec[j].0 by {
            assert(cs[l].0@ == spec[l].0);
            assert(spec[l].0.len() == 1 && spec[j].0.len() == 1);
            assert(spec[l].0[0] != spec[j].0[0]);
        }
        assert(cs[j].0@ == spec[j].0);
        lemma_last_index_is(cs, spec[j].0, j);
    }
    let g = Seq::new(e.len(), |i: int| last_index_of(cs, e[i].0));
    assert forall|i: int| 0 <= i < g.len() implies 0 <= #[trigger] g[i] < n && spec[g[i]].0 == e[i].0 by {
        assert(has_key(e, e[i].0));
        lemma_value_of(e, i);
        assert(map.palette_named(e[i].0) is Some);
        let j = choose|j: int| 0 <= j < cs.len() && #[trigger] cs[j].0@ == e[i].0;
        assert(spec[j].0 == e[i].0);
        assert(last_index_of(cs, spec[j].0) == j);
    }
    assert forall|i: int, j: int| 0 <= i < j < g.len() implies #[trigger] g[i] > #[trigger] g[j] by {
        assert(last_index_of(cs, e[i].0) > last_index_of(cs, e[j].0));
    }
    assert forall|v: int| 0 <= v < n implies #[trigger] takes_value(g, v) by {
        assert(cs[v].0@ == spec[v].0);
        assert(names_contain(cs, spec[v].0));
        assert(map.palette_named(spec[v].0) is Some);
        assert(has_key(e, spec[v].0));
        let m = choose|m: int| 0 <= m < e.len() && #[trigger] e[m].0 == spec[v].0;
        assert(last_index_of(cs, spec[v].0) == v);
        assert(g[m] == v);
    }
    lemma_decreasing_onto(g, n);
    assert forall|i: int| 0 <= i < e.len() implies #[trigger] e[i].0 == spec[n - 1 - i].0 by {
        assert(g[i] == n - 1 - i);
        assert(spec[g[i]].0 == e[i].0);
    }
}

/// What the map of the default named palettes is: well formed, with the
/// default palette for other names, each default name holding the colours of
/// its palette, no other name, and the names in the reverse order of the list.
pub open spec fn is_default_color_map(map: ColorMap) -> bool {
    &&& map.well_formed()
    &&& map.default.colors@ == default_palette_colors()
    &&& forall|i: int|
        0 <= i < named_colorsets_spec().len() ==> #[trigger] map.palette_named(named_colorsets_spec()[i].0) is Some
    &&& forall|i: int|
        0 <= i < named_colorsets_spec().len() ==> #[trigger] map.palette_named(named_colorsets_spec()[i].0)->0.colors@
            == named_colorsets_spec()[i].1.map_values(|h: Seq<char>| hex_color(h))
    &&& forall|name: Seq<char>|
        #[trigger] map.palette_named(name) is Some ==> exists|i: int|
            0 <= i < named_colorsets_spec().len() && named_colorsets_spec()[i].0 == name
    &&& map.entries().len() == named_colorsets_spec().len()
    &&& forall|i: int|
        0 <= i < map.entries().len() ==> #[trigger] map.entries()[i].0 == named_colorsets_spec()[
            named_colorsets_spec().len() - 1 - i
        ].0
}

/// The map of the default named palettes, the names in the reverse order of
/// the list.
#[verifier::rlimit(60)]
pub fn color_map() -> (map: ColorMap)
    ensures
        is_default_color_map(map),
{
    let colorsets = named_colorsets();
    let ghost cs = colorsets@;
    let map = color_map_from_named_colorsets(colorsets);
    proof {
        reveal_strlit("a");
        reveal_strlit("b");
        reveal_strlit("c");
        reveal_strlit("d");
        reveal_strlit("e");
        reveal_strlit("f");
        reveal_strlit("g");
        reveal_strlit("h");
        reveal_strlit("i");
        lemma_named_colorsets_names();
        let spec = named_colorsets_spec();
        assert forall|i: int| 0 <= i < spec.len() implies #[trigger] map.palette_named(spec[i].0)->0.colors@
            == spec[i].1.map_values(|h: Seq<char>| hex_color(h)) by {
            assert(cs[i].0@ == spec[i].0);
            assert forall|j: int| 0 <= j < i implies #[trigger] cs[j].0@ != spec[i].0 by {
                assert(cs[j].0@ == spec[j].0);
                assert(spec[j].0[0] != spec[i].0[0]);
            }
            lemma_first_index_is(cs, spec[i].0, i);
            assert(names_contain(cs, spec[i].0));
            assert(hex_colors(cs[i].1@) =~= spec[i].1.map_values(|h: Seq<char>| hex_color(h)));
        }
        assert forall|i: int| 0 <= i < spec.len() implies #[trigger] map.palette_named(spec[i].0) is Some by {
            assert(cs[i].0@ == spec[i].0);
            assert(names_contain(cs, spec[i].0));
        }
        assert forall|name: Seq<char>| #[trigger] map.palette_named(name) is Some implies exists|i: int|
            0 <= i < spec.len() && spec[i].0 == name by {
            let i = choose|i: int| 0 <= i < cs.len() && #[trigger] cs[i].0@ == name;
            assert(spec[i].0 == name);
        }
        lemma_default_map_order(cs, map);
    }
    map
}

/// How a renderable of a frame pass is configured, as far as the library
/// reads it: shader paths, the composition to stream events from, the pass
/// to sample, the text to draw. Placement and scale of text, and the
/// position and index generators of a shape, stay with the renderer.
pub enum RenderableConfig {
    Toy { shader_path: &'static str },
    /// Shapes drawn for the events of a composition: `n_vertices` random
    /// vertices, `n_indices` random indices, coloured from `color`.
    EventStreams { socool_path: String, shader_path: &'static str, n_vertices: usize, n_indices: usize, color: ColorMap },
    Sampler { shader_path: &'static str, input_frame: &'static str },
    Glyphy { text: Vec<(&'static str, &'static str)> },
}

/// The renderables drawn, in order, into one output frame.
pub struct FramePass {
    pub output_frame: &'static str,
    pub renderables: Vec<RenderableConfig>,
}

/// The shader of the toy renderables of the default passes.
pub open spec fn toy_shader() -> Seq<char> {
    "src/origami/shaders/toy3.wgsl"@
}

/// The shader of the samplers of the default passes.
pub open spec fn sampler_shader() -> Seq<char> {
    "./src/sampler/sampler_shader.wgsl"@
}

/// A toy renderable with the given shader.
pub open spec fn is_toy(r: RenderableConfig, shader: Seq<char>) -> bool {
    r matches RenderableConfig::Toy { shader_path } && shader_path@ == shader
}

/// A sampler of the given frame with the given shader.
pub open spec fn is_sampler(r: RenderableConfig, shader: Seq<char>, input: Seq<char>) -> bool {
    r matches RenderableConfig::Sampler { shader_path, input_frame } && shader_path@ == shader && input_frame@ == input
}

/// The passes of the default configuration: `frame1` draws the events of
/// `kintaro3.socool`, coloured by the default palettes, over a toy, `frame2`
/// samples `frame1` under a caption, and `main` samples `frame2`.
pub fn frame_passes() -> (passes: Vec<FramePass>)
    ensures
        passes@.len() == 3,
        passes@[0].output_frame@ == "frame1"@,
        passes@[0].renderables@.len() == 2,
        is_toy(passes@[0].renderables@[0], toy_shader()),
        passes@[0].renderables@[1] matches RenderableConfig::EventStreams { socool_path, shader_path, n_vertices, n_indices, color }
            && socool_path@ == "kintaro3.socool"@ && shader_path@ == "./src/shader.wgsl"@ && n_vertices == 50 && n_indices == 50
            && is_default_color_map(color),
        passes@[1].output_frame@ == "frame2"@,
        passes@[1].renderables@.len() == 3,
        is_toy(passes@[1].renderables@[0], toy_shader()),
        is_sampler(passes@[1].renderables@[1], sampler_shader(), "frame1"@),
        passes@[1].renderables@[2] matches RenderableConfig::Glyphy { text } && text@.len() == 1 && text@[0].0@ == "Cool"@
            && text@[0].1@ == "#ff2365"@,
        passes@[2].output_frame@ == "main"@,
        passes@[2].renderables@.len() == 2,
        is_toy(passes@[2].renderables@[0], toy_shader()),
        is_sampler(passes@[2].renderables@[1], sampler_shader(), "frame2"@),
{
    let socool = "kintaro3.socool";
    vec![
        FramePass {
            output_frame: "frame1",
            renderables: vec![
                RenderableConfig::Toy { shader_path: "src/origami/shaders/toy3.wgsl" },
                RenderableConfig::EventStreams {
                    socool_path: socool.to_owned(),
                    shader_path: "./src/shader.wgsl",
                    n_vertices: 50,
                    n_indices: 50,
                    color: color_map(),
                },
            ],
        },
        FramePass {
            output_frame: "frame2",
            renderables: vec![
                RenderableConfig::Toy { shader_path: "src/origami/shaders/toy3.wgsl" },
                RenderableConfig::Sampler { shader_path: "./src/sampler/sampler_shader.wgsl", input_frame: "frame1" },
                RenderableConfig::Glyphy { text: vec![("Cool", "#ff2365")] },
            ],
        },
        FramePass {
            output_frame: "main",
            renderables: vec![
                RenderableConfig::Toy { shader_path: "src/origami/shaders/toy3.wgsl" },
                RenderableConfig::Sampler { shader_path: "./src/sampler/sampler_shader.wgsl", input_frame: "frame2" },
            ],
        },
    ]
}

/// The compositions that the event-stream renderables of a list of
/// renderables play, in order.
pub open spec fn renderable_socool_paths(rs: Seq<RenderableConfig>) -> Seq<Seq<char>>
    decreases rs.len(),
{
    if rs.len() == 0 {
        seq![]
    } else {
        renderable_socool_paths(rs.drop_last()) + match rs.last() {
            RenderableConfig::EventStreams { socool_path, .. } => seq![socool_path@],
            _ => seq![],
        }
    }
}

/// The compositions that the event-stream renderables of the passes play,
/// pass by pass.
pub open spec fn pass_socool_paths(passes: Seq<FramePass>) -> Seq<Seq<char>>
    decreases passes.len(),
{
    if passes.len() == 0 {
        seq![]
    } else {
        pass_socool_paths(passes.drop_last()) + renderable_socool_paths(passes.last().renderables@)
    }
}

/// Every renderable of the passes, pass after pass, each pass's in order.
pub open spec fn all_renderables(passes: Seq<FramePass>) -> Seq<RenderableConfig> {
    passes.map_values(|p: FramePass| p.renderables@).flatten()
}

/// The composition that a renderable streams events from; empty for the
/// others.
pub open spec fn stream_path(r: RenderableConfig) -> Seq<char> {
    match r {
        RenderableConfig::EventStreams { socool_path, .. } => socool_path@,
        _ => seq![],
    }
}

/// The paths of the event streams among some renderables, in order.
pub open spec fn streams_among(rs: Seq<RenderableConfig>) -> Seq<Seq<char>> {
    rs.filter(|r: RenderableConfig| r is EventStreams).map_values(|r: RenderableConfig| stream_path(r))
}

proof fn lemma_streams_among_add(a: Seq<RenderableConfig>, b: Seq<RenderableConfig>)
    ensures
        streams_among(a + b) == streams_among(a) + streams_among(b),
{
    let pred = |r: RenderableConfig| r is EventStreams;
    Seq::filter_distributes_over_add(a, b, pred);
    let f = |r: RenderableConfig| stream_path(r);
    assert((a.filter(pred) + b.filter(pred)).map_values(f) =~= a.filter(pred).map_values(f) + b.filter(pred).map_values(
        f,
    ));
}

/// The paths that the renderables of one pass contribute are those of its
/// event streams, in order, whatever stands between them.
pub proof fn lemma_renderable_paths_are_the_streams(rs: Seq<RenderableConfig>)
    ensures
        renderable_socool_paths(rs) == streams_among(rs),
    decreases rs.len(),
{
    reveal(Seq::filter);
    if rs.len() > 0 {
        lemma_renderable_paths_are_the_streams(rs.drop_last());
        let pred = |r: RenderableConfig| r is EventStreams;
        let f = |r: RenderableConfig| stream_path(r);
        let sub = rs.drop_last().filter(pred);
        if rs.last() is EventStreams {
            assert(rs.filter(pred) == sub.push(rs.last()));
            assert(sub.push(rs.last()).map_values(f) =~= sub.map_values(f) + seq![stream_path(rs.last())]);
        } else {
            assert(rs.filter(pred) == sub);
        }
    }
}

/// The compositions rendered for a list of passes are exactly the paths of
/// every event-stream renderable of every pass, in order: no event stream is
/// left out, whatever renderable comes before it, and nothing else is added.
pub proof fn lemma_pass_paths_are_the_streams(passes: Seq<FramePass>)
    ensures
        pass_socool_paths(passes) == streams_among(all_renderables(passes)),
    decreases passes.len(),
{
    if passes.len() > 0 {
        let f = |p: FramePass| p.renderables@;
        lemma_pass_paths_are_the_streams(passes.drop_last());
        lemma_renderable_paths_are_the_streams(passes.last().renderables@);
        assert(passes.map_values(f) =~= passes.drop_last().map_values(f).push(passes.last().renderables@));
        passes.drop_last().map_values(f).lemma_flatten_push(passes.last().renderables@);
        lemma_streams_among_add(all_renderables(passes.drop_last()), passes.last().renderables@);
    } else {
        assert(all_renderables(passes) =~= Seq::<RenderableConfig>::empty());
        reveal(Seq::filter);
        assert(streams_among(all_renderables(passes)) =~= Seq::<Seq<char>>::empty());
    }
}

/// The compositions to render audio and visuals for: the path of every
/// event-stream renderable of every pass, in order.
pub fn event_stream_socool_paths(frame_passes: &Vec<FramePass>) -> (paths: Vec<String>)
    ensures
        paths@.map_values(|p: String| p@) == pass_socool_paths(frame_passes@),
        paths@.map_values(|p: String| p@) == all_renderables(frame_passes@).filter(
            |r: RenderableConfig| r is EventStreams,
        ).map_values(|r: RenderableConfig| stream_path(r)),
{
    let mut paths: Vec<String> = Vec::new();
    let mut i: usize = 0;
    while i < frame_passes.len()
        invariant
            i <= frame_passes@.len(),
            paths@.map_values(|p: String| p@) == pass_socool_paths(frame_passes@.take(i as int)),
        decreases frame_passes@.len() - i,
    {
        let renderables = &frame_passes[i].renderables;
        let ghost before = paths@.map_values(|p: String| p@);
        let mut j: usize = 0;
        while j < renderables.len()
            invariant
                j <= renderables@.len(),
                paths@.map_values(|p: String| p@) == before + renderable_socool_paths(renderables@.take(j as int)),
            decreases renderables@.len() - j,
        {
            let ghost mid = paths@;
            let ghost t = renderables@.take(j + 1);
            proof {
                assert(t.drop_last() =~= renderables@.take(j as int));
                assert(t.last() == renderables@[j as int]);
            }
            match &renderables[j] {
                RenderableConfig::EventStreams { socool_path, .. } => {
                    paths.push(socool_path.clone());
                    proof {
                        assert(renderable_socool_paths(t) =~= renderable_socool_paths(t.drop_last()) + seq![socool_path@]);
                        assert(paths@.map_values(|p: String| p@) =~= mid.map_values(|p: String| p@).push(socool_path@));
                    }
                },
                _ => {
                    proof {
                        assert(renderable_socool_paths(t) =~= renderable_socool_paths(t.drop_last()));
                    }
                },
            }
            proof {
                assert(paths@.map_values(|p: String| p@) =~= before + renderable_socool_paths(t));
            }
            j = j + 1;
        }
        proof {
            assert(renderables@.take(j as int) =~= renderables@);
            assert(frame_passes@.take(i + 1).drop_last() =~= frame_passes@.take(i as int));
        }
        i = i + 1;
    }
    proof {
        assert(frame_passes@.take(i as int) =~= frame_passes@);
        lemma_pass_paths_are_the_streams(frame_passes@);
    }
    paths
}

} // verus!
