//! Colours and layout figures for text overlays.
use vstd::prelude::*;

use vstd::string::StringSliceAdditionalSpecFns;

use crate::color::helpers::{hex_color, hex_rgb, hex_to_rbg, is_hex_char, is_hex_color};

verus! {

/// Declared so that a compiled pattern can be held between the two calls.
#[verifier::external_type_specification]
#[verifier::external_body]
pub struct ExRegex(regex::Regex);

/// Declared so that `Regex::new` can hand back its error.
#[verifier::external_type_specification]
#[verifier::external_body]
pub struct ExRegexError(regex::Error);

/// The pattern that a compiled regex was built from, which `Regex::as_str`
/// gives back.
pub uninterp spec fn regex_source(re: regex::Regex) -> Seq<char>;

/// Whether `Regex::new` compiles the pattern: it fails on a pattern that is
/// not a valid regular expression or that compiles beyond the default size
/// limits, which depends on the pattern alone.
pub uninterp spec fn regex_compiles(pattern: Seq<char>) -> bool;

/// Whether a regex of the given pattern matches anywhere in the haystack.
pub uninterp spec fn regex_finds(pattern: Seq<char>, haystack: Seq<char>) -> bool;

/// `regex::Regex::new`: compiles the pattern, or fails. Whether it compiles
/// is named, not stated in general; the hex colour pattern, a valid and small
/// expression, compiles. A compiled regex stands for the pattern it was given.
#[verifier::external_body]
fn regex_new(pattern: &str) -> (r: Result<regex::Regex, regex::Error>)
    ensures
        r is Ok <==> regex_compiles(pattern@),
        pattern@ == hex_color_pattern() ==> r is Ok,
        r matches Ok(re) ==> regex_source(re) == pattern@,
{
    regex::Regex::new(pattern)
}

/// `regex::Regex::is_match`: whether the regex matches anywhere in the
/// haystack. That is named in general; for the hex colour pattern it is
/// whether a `#` followed by six hex digits occurs somewhere.
#[verifier::external_body]
fn regex_is_match(re: &regex::Regex, haystack: &str) -> (b: bool)
    ensures
        b == regex_finds(regex_source(*re), haystack@),
        regex_source(*re) == hex_color_pattern() ==> (b <==> has_hex_color_at_some_place(haystack@)),
{
    re.is_match(haystack)
}

/// The pattern that a hex colour string must match somewhere.
pub open spec fn hex_color_pattern() -> Seq<char> {
    "#([a-fA-F0-9]{6})"@
}

/// A `#` followed by six hex digits starts at position `i` of the string.
pub open spec fn hex_color_at(s: Seq<char>, i: int) -> bool {
    &&& 0 <= i
    &&& i + 7 <= s.len()
    &&& s[i] == '#'
    &&& forall|k: int| 1 <= k < 7 ==> #[trigger] is_hex_char(s[i + k])
}

/// Somewhere in the string a `#` is followed by six hex digits: what the hex
/// colour pattern matches.
pub open spec fn has_hex_color_at_some_place(s: Seq<char>) -> bool {
    exists|i: int| #[trigger] hex_color_at(s, i)
}

/// The red, green, blue and alpha bytes of a colour string; alpha is full.
pub open spec fn hex_rgba(s: Seq<char>) -> Seq<u8> {
    seq![hex_rgb(s).0, hex_rgb(s).1, hex_rgb(s).2, 255u8]
}

/// A colour string names the same colour for text as for palettes: its red,
/// green and blue bytes, with alpha full for text.
pub proof fn lemma_text_and_palette_colors_agree(s: Seq<char>)
    ensures
        hex_rgba(s) == seq![hex_color(s).r, hex_color(s).g, hex_color(s).b, 255u8],
{
}

/// The colour of a colour string with full alpha, where the colour pattern
/// has matched it (`matched`); `None` where it has not.
pub fn rgba_from_hex_match(s: &str, matched: bool) -> (rgba: Option<[u8; 4]>)
    requires
        is_hex_color(s@),
    ensures
        matched ==> (rgba matches Some(v) && v@ == hex_rgba(s@)),
        !matched ==> rgba is None,
{
    if !matched {
        return None;
    }
    let (r, g, b) = hex_to_rbg(s);
    let v = [r, g, b, 255u8];
    proof {
        assert(v@ =~= hex_rgba(s@));
    }
    Some(v)
}

/// The colour of a hex colour string such as `#af4573` as red, green, blue
/// and alpha bytes, alpha full. The string starts with `#`, as the hex colour
/// pattern asks; the pattern is checked before the digits are decoded.
pub fn hex_str_to_rgba(s: &str) -> (rgba: Option<[u8; 4]>)
    requires
        is_hex_color(s@),
        s@[0] == '#',
    ensures
        rgba matches Some(v) && v@ == hex_rgba(s@),
{
    let pattern = "#([a-fA-F0-9]{6})";
    proof {
        assert(hex_color_at(s@, 0));
    }
    match regex_new(pattern) {
        Ok(re) => {
            let matched = regex_is_match(&re, s);
            rgba_from_hex_match(s, matched)
        },
        Err(_) => None,
    }
}

/// The greatest byte length among the names of a list of named values.
pub fn max_len_text_in_vec_text_renderable(v: &[(&str, Vec<&str>)]) -> (n: usize)
    requires
        v@.len() > 0,
    ensures
        exists|i: int| 0 <= i < v@.len() && n == #[trigger] v@[i].0.len(),
        forall|i: int| 0 <= i < v@.len() ==> #[trigger] v@[i].0.len() <= n,
{
    let mut best = v[0].0.len();
    let mut i: usize = 1;
    assert(best == v@[0].0.len());
    while i < v.len()
        invariant
            1 <= i <= v@.len(),
            exists|j: int| 0 <= j < i && best == #[trigger] v@[j].0.len(),
            forall|j: int| 0 <= j < i ==> #[trigger] v@[j].0.len() <= best,
        decreases v@.len() - i,
    {
        let l = v[i].0.len();
        assert(l == v@[i as int].0.len());
        let ghost w = choose|j: int| 0 <= j < i && best == #[trigger] v@[j].0.len();
        if l > best {
            best = l;
        }
        assert(best == v@[w].0.len() || best == v@[i as int].0.len());
        i = i + 1;
    }
    best
}

/// Which part of a legend of named palettes a text section is.
#[derive(Clone, Copy, Debug, PartialEq, Eq, Structural)]
pub enum SectionKind {
    /// A palette's name, drawn followed by a colon.
    Label,
    /// One colour string of a palette, at the given column of its row.
    Swatch { column: usize },
}

/// One text of a legend of named palettes: its part, its row, its text and
/// the hex colour it is drawn in. Where on the screen it goes follows from the
/// row and the column, and is worked out by the renderer.
#[derive(Clone, Copy, Debug, PartialEq, Eq)]
pub struct TextSection<'a> {
    pub kind: SectionKind,
    pub row: usize,
    pub text: &'a str,
    pub color: &'a str,
}

/// The colour of the palette names in a legend.
pub open spec fn label_color() -> Seq<char> {
    "#dedede"@
}

/// The swatches of the rows before row `r` of the legend; row `r` shows the
/// palette `n - 1 - r`, the legend listing the palettes from the last.
pub open spec fn swatches_before(t: Seq<(&str, Vec<&str>)>, r: int) -> int
    decreases r,
{
    if r <= 0 {
        0
    } else {
        swatches_before(t, r - 1) + t[t.len() - r].1@.len()
    }
}

/// Where the swatch of column `c` of row `r` stands among the sections: after
/// every label and the swatches of the rows before.
pub open spec fn swatch_index(t: Seq<(&str, Vec<&str>)>, r: int, c: int) -> int {
    t.len() + swatches_before(t, r) + c
}

proof fn lemma_swatches_before_nonneg(t: Seq<(&str, Vec<&str>)>, r: int)
    ensures
        swatches_before(t, r) >= 0,
    decreases r,
{
    if r > 0 {
        lemma_swatches_before_nonneg(t, r - 1);
    }
}

proof fn lemma_swatches_before_grow(t: Seq<(&str, Vec<&str>)>, a: int, b: int)
    requires
        0 <= a < b <= t.len(),
    ensures
        swatches_before(t, a) + t[t.len() - 1 - a].1@.len() <= swatches_before(t, b),
    decreases b - a,
{
    if a + 1 < b {
        lemma_swatches_before_grow(t, a + 1, b);
    }
}

/// The sections of the legend of named palettes: first the names, one per
/// row, then the colour strings of each row from left to right, each drawn
/// in its own colour. The legend lists the palettes from the last to the
/// first, so row `r` shows palette `n - 1 - r`.
pub fn named_colorset_legend<'a>(t: &Vec<(&'a str, Vec<&'a str>)>) -> (sections: Vec<TextSection<'a>>)
    ensures
        sections@.len() == t@.len() + swatches_before(t@, t@.len() as int),
        forall|r: int|
            0 <= r < t@.len() ==> {
                &&& #[trigger] sections@[r].kind == SectionKind::Label
                &&& sections@[r].row == r
                &&& sections@[r].text@ == t@[t@.len() - 1 - r].0@
                &&& sections@[r].color@ == label_color()
            },
        forall|r: int, c: int|
            0 <= r < t@.len() && 0 <= c < t@[t@.len() - 1 - r].1@.len() ==> {
                let s = sections@[#[trigger] swatch_index(t@, r, c)];
                &&& s.kind == SectionKind::Swatch { column: c as usize }
                &&& s.row == r
                &&& s.text@ == t@[t@.len() - 1 - r].1@[c]@
                &&& s.color@ == t@[t@.len() - 1 - r].1@[c]@
            },
{
    let n = t.len();
    let label = "#dedede";
    let mut sections: Vec<TextSection<'a>> = Vec::new();
    let mut r: usize = 0;
    while r < n
        invariant
            n == t@.len(),
            r <= n,
            label@ == label_color(),
            sections@.len() == r,
            forall|q: int|
                0 <= q < r ==> {
                    &&& #[trigger] sections@[q].kind == SectionKind::Label
                    &&& sections@[q].row == q
                    &&& sections@[q].text@ == t@[n - 1 - q].0@
                    &&& sections@[q].color@ == label_color()
                },
        decreases n - r,
    {
        sections.push(TextSection { kind: SectionKind::Label, row: r, text: t[n - 1 - r].0, color: label });
        r = r + 1;
    }
    let mut r: usize = 0;
    while r < n
        invariant
            n == t@.len(),
            r <= n,
            sections@.len() == n + swatches_before(t@, r as int),
            forall|q: int|
                0 <= q < n ==> {
                    &&& #[trigger] sections@[q].kind == SectionKind::Label
                    &&& sections@[q].row == q
                    &&& sections@[q].text@ == t@[n - 1 - q].0@
                    &&& sections@[q].color@ == label_color()
                },
            forall|q: int, c: int|
                0 <= q < r && 0 <= c < t@[n - 1 - q].1@.len() ==> {
                    let s = sections@[#[trigger] swatch_index(t@, q, c)];
                    &&& s.kind == SectionKind::Swatch { column: c as usize }
                    &&& s.row == q
                    &&& s.text@ == t@[n - 1 - q].1@[c]@
                    &&& s.color@ == t@[n - 1 - q].1@[c]@
                },
        decreases n - r,
    {
        let colors = &t[n - 1 - r].1;
        let ghost start = sections@.len();
        let mut c: usize = 0;
        while c < colors.len()
            invariant
                n == t@.len(),
                r < n,
                colors@ == t@[n - 1 - r].1@,
                start == n + swatches_before(t@, r as int),
                c <= colors@.len(),
                sections@.len() == start + c,
                forall|q: int|
                    0 <= q < n ==> {
                        &&& #[trigger] sections@[q].kind == SectionKind::Label
                        &&& sections@[q].row == q
                        &&& sections@[q].text@ == t@[n - 1 - q].0@
                        &&& sections@[q].color@ == label_color()
                    },
                forall|q: int, d: int|
                    0 <= q < r && 0 <= d < t@[n - 1 - q].1@.len() ==> {
                        let s = sections@[#[trigger] swatch_index(t@, q, d)];
                        &&& s.kind == SectionKind::Swatch { column: d as usize }
                        &&& s.row == q
                        &&& s.text@ == t@[n - 1 - q].1@[d]@
                        &&& s.color@ == t@[n - 1 - q].1@[d]@
                    },
                forall|d: int|
                    0 <= d < c ==> {
                        let s = sections@[#[trigger] swatch_index(t@, r as int, d)];
                        &&& s.kind == SectionKind::Swatch { column: d as usize }
                        &&& s.row == r
                        &&& s.text@ == t@[n - 1 - r].1@[d]@
                        &&& s.color@ == t@[n - 1 - r].1@[d]@
                    },
            decreases colors@.len() - c,
        {
            let ghost before = sections@;
            sections.push(TextSection { kind: SectionKind::Swatch { column: c }, row: r, text: colors[c], color: colors[c] });
            proof {
                lemma_swatches_before_nonneg(t@, r as int);
                assert forall|q: int| 0 <= q < n implies #[trigger] sections@[q] == before[q] by {}
                assert forall|q: int, d: int| 0 <= q < r && 0 <= d < t@[n - 1 - q].1@.len() implies
                    sections@[#[trigger] swatch_index(t@, q, d)] == before[swatch_index(t@, q, d)] by {
                    lemma_swatches_before_grow(t@, q, r as int);
                    lemma_swatches_before_nonneg(t@, q);
                }
                assert forall|d: int| 0 <= d < c implies sections@[#[trigger] swatch_index(t@, r as int, d)]
                    == before[swatch_index(t@, r as int, d)] by {}
                assert(swatch_index(t@, r as int, c as int) == before.len());
            }
            c = c + 1;
        }
        proof {
            assert(swatches_before(t@, r + 1) == swatches_before(t@, r as int) + t@[n - 1 - r].1@.len());
        }
        r = r + 1;
    }
    sections
}

} // verus!
