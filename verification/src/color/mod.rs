//! Colours and colour palettes.
use vstd::prelude::*;

pub mod helpers;
pub mod map;

pub use map::ColorMap;

use crate::random::{choose_one, thread_rng};

verus! {

/// A colour as written in a hex colour string: red, green and blue as bytes.
#[derive(Clone, Copy, Debug, PartialEq, Eq, Structural)]
pub struct Color {
    pub r: u8,
    pub g: u8,
    pub b: u8,
}

/// A palette from which colours are drawn.
#[derive(Clone, Debug)]
pub struct ColorSet {
    pub colors: Vec<Color>,
}

/// A list of palettes of which one, at index `n`, is selected.
#[derive(Clone, Debug)]
pub struct ColorSets {
    pub n: usize,
    pub colorsets: Vec<ColorSet>,
}

impl ColorSet {
    /// The palette of the colours of a list of colour strings.
    pub fn init(hex_strings: Vec<&str>) -> (set: ColorSet)
        requires
            helpers::all_hex_colors(hex_strings@),
        ensures
            set.colors@ == helpers::hex_colors(hex_strings@),
    {
        ColorSet { colors: helpers::vec_hex_to_vec_color(hex_strings) }
    }

    /// Draw one colour of the palette at random.
    pub fn gen(&self, _names: &Vec<String>) -> (color: Color)
        requires
            self.colors@.len() > 0,
        ensures
            exists|i: int| 0 <= i < self.colors@.len() && self.colors@[i] == color,
    {
        let mut rng = thread_rng();
        match choose_one(self.colors.as_slice(), &mut rng) {
            Some(c) => *c,
            None => {
                proof {
                    assert(false);
                }
                Color { r: 0, g: 0, b: 0 }
            },
        }
    }

    /// A palette keeps no state between draws.
    pub fn update(&mut self)
        ensures
            *final(self) == *old(self),
    {
    }
}

/// What the selected palette index becomes after `k` calls of
/// `ColorSets::update` from `n`, with `len` palettes.
pub open spec fn index_after_updates(n: int, len: int, k: nat) -> int
    decreases k,
{
    if k == 0 {
        n
    } else {
        (index_after_updates(n, len, (k - 1) as nat) + 1) % len
    }
}

/// After `k` updates the selection has moved `k` palettes on, wrapping around.
pub proof fn lemma_index_after_updates(n: int, len: int, k: nat)
    requires
        0 <= n < len,
    ensures
        index_after_updates(n, len, k) == (n + k) % len,
    decreases k,
{
    if k > 0 {
        let j = (k - 1) as nat;
        lemma_index_after_updates(n, len, j);
        let prev = index_after_updates(n, len, j);
        assert(prev == (n + j) % len);
        assert(index_after_updates(n, len, k) == (prev + 1) % len);
        vstd::arithmetic::div_mod::lemma_add_mod_noop_right(1, n + j, len);
        assert((1 + (n + j) % len) % len == (1 + (n + j)) % len);
        assert(1 + (n + j) == n + k);
    } else {
        vstd::arithmetic::div_mod::lemma_small_mod(n as nat, len as nat);
    }
}

/// Cycling through the palettes: after as many updates as there are palettes,
/// the same palette is selected again.
pub proof fn lemma_palettes_cycle(n: int, len: int)
    requires
        0 <= n < len,
    ensures
        index_after_updates(n, len, len as nat) == n,
{
    lemma_index_after_updates(n, len, len as nat);
    vstd::arithmetic::div_mod::lemma_mod_add_multiples_vanish(n, len);
    vstd::arithmetic::div_mod::lemma_small_mod(n as nat, len as nat);
}

impl ColorSets {
    /// The selection points at a palette that exists.
    pub open spec fn well_formed(&self) -> bool {
        self.n < self.colorsets@.len() || (self.n == 0 && self.colorsets@.len() == 0)
    }

    /// One palette per list of colour strings, the first one selected.
    pub fn init(vec_hex_strings: Vec<Vec<&str>>) -> (sets: ColorSets)
        requires
            helpers::all_hex_color_lists(vec_hex_strings@),
        ensures
            sets.well_formed(),
            sets.n == 0,
            sets.colorsets@.len() == vec_hex_strings@.len(),
            forall|i: int|
                0 <= i < vec_hex_strings@.len() ==> #[trigger] sets.colorsets@[i].colors@
                    == helpers::hex_colors(vec_hex_strings@[i]@),
    {
        helpers::colorsets_from_vec_hex_strings(vec_hex_strings)
    }

    /// Draw a colour from the selected palette.
    pub fn gen(&self, names: &Vec<String>) -> (color: Color)
        requires
            self.n < self.colorsets@.len(),
            self.colorsets@[self.n as int].colors@.len() > 0,
        ensures
            exists|i: int|
                0 <= i < self.colorsets@[self.n as int].colors@.len()
                    && self.colorsets@[self.n as int].colors@[i] == color,
    {
        self.colorsets[self.n].gen(names)
    }

    /// Select the next palette, wrapping around after the last.
    pub fn update(&mut self)
        requires
            old(self).colorsets@.len() > 0,
            old(self).well_formed(),
        ensures
            final(self).colorsets@ == old(self).colorsets@,
            final(self).n == (old(self).n + 1) % (old(self).colorsets@.len() as int),
            final(self).n == index_after_updates(old(self).n as int, old(self).colorsets@.len() as int, 1),
            final(self).well_formed(),
    {
        let len = self.colorsets.len();
        self.n = (self.n + 1) % len;
        proof {
            assert(index_after_updates(old(self).n as int, len as int, 0) == old(self).n);
        }
    }
}

/// The palettes that `ColorSets::default` holds, as colour strings.
pub open spec fn default_colorsets_spec() -> Seq<Seq<Seq<char>>> {
    seq![
        seq!["#6655aa"@, "#222222"@],
        seq!["#eeaC88"@, "#121312"@, "#333333"@],
        seq!["#213CFB"@, "#310CFA"@, "#6688aa"@, "#111111"@, "#121212"@, "#101010"@],
        seq!["#660000"@, "#100101"@, "#300002"@],
        seq!["#473859"@, "#222222"@],
        seq!["#300300"@, "#333333"@],
        seq!["#001931"@, "#000000"@, "#222200"@],
        seq!["#a000a0"@, "#000000"@, "#2303aa"@, "#333333"@],
        seq!["#473859"@, "#222222"@],
        seq!["#348348"@, "#112312"@],
        seq!["#0000ee"@, "#0e000e"@],
        seq!["#333333"@, "#111111"@, "#777777"@],
        seq!["#660000"@, "#100101"@, "#300002"@, "#100001"@, "#010210"@],
        seq!["#473850"@, "#222222"@, "#001001"@],
        seq!["#112112"@, "#000033"@],
        seq!["#ff00ff"@, "#000000"@],
        seq!["#38881a"@, "#333333"@],
        seq!["#aa10e4"@, "#333333"@]
    ]
}

impl Default for ColorSets {
    /// The built-in list of palettes, the first one selected.
    #[verifier::rlimit(60)]
    fn default() -> (sets: Self)
        ensures
            sets.well_formed(),
            sets.n == 0,
            sets.colorsets@.len() == default_colorsets_spec().len(),
            forall|i: int|
                0 <= i < sets.colorsets@.len() ==> #[trigger] sets.colorsets@[i].colors@
                    == default_colorsets_spec()[i].map_values(|h: Seq<char>| helpers::hex_color(h)),
    {
        proof {
            reveal_strlit("#000000");
            assert(helpers::is_hex_color("#000000"@));
            reveal_strlit("#000033");
            assert(helpers::is_hex_color("#000033"@));
            reveal_strlit("#0000ee");
            assert(helpers::is_hex_color("#0000ee"@));
            reveal_strlit("#001001");
            assert(helpers::is_hex_color("#001001"@));
            reveal_strlit("#001931");
            assert(helpers::is_hex_color("#001931"@));
            reveal_strlit("#010210");
            assert(helpers::is_hex_color("#010210"@));
            reveal_strlit("#0e000e");
            assert(helpers::is_hex_color("#0e000e"@));
            reveal_strlit("#100001");
            assert(helpers::is_hex_color("#100001"@));
            reveal_strlit("#100101");
            assert(helpers::is_hex_color("#100101"@));
            reveal_strlit("#101010");
            assert(helpers::is_hex_color("#101010"@));
            reveal_strlit("#111111");
            assert(helpers::is_hex_color("#111111"@));
            reveal_strlit("#112112");
            assert(helpers::is_hex_color("#112112"@));
            reveal_strlit("#112312");
            assert(helpers::is_hex_color("#112312"@));
            reveal_strlit("#121212");
            assert(helpers::is_hex_color("#121212"@));
            reveal_strlit("#121312");
            assert(helpers::is_hex_color("#121312"@));
            reveal_strlit("#213CFB");
            assert(helpers::is_hex_color("#213CFB"@));
            reveal_strlit("#222200");
            assert(helpers::is_hex_color("#222200"@));
            reveal_strlit("#222222");
            assert(helpers::is_hex_color("#222222"@));
            reveal_strlit("#2303aa");
            assert(helpers::is_hex_color("#2303aa"@));
            reveal_strlit("#300002");
            assert(helpers::is_hex_color("#300002"@));
            reveal_strlit("#300300");
            assert(helpers::is_hex_color("#300300"@));
            reveal_strlit("#310CFA");
            assert(helpers::is_hex_color("#310CFA"@));
            reveal_strlit("#333333");
            assert(helpers::is_hex_color("#333333"@));
            reveal_strlit("#348348");
            assert(helpers::is_hex_color("#348348"@));
            reveal_strlit("#38881a");
            assert(helpers::is_hex_color("#38881a"@));
            reveal_strlit("#473850");
            assert(helpers::is_hex_color("#473850"@));
            reveal_strlit("#473859");
            assert(helpers::is_hex_color("#473859"@));
            reveal_strlit("#660000");
            assert(helpers::is_hex_color("#660000"@));
            reveal_strlit("#6655aa");
            assert(helpers::is_hex_color("#6655aa"@));
            reveal_strlit("#6688aa");
            assert(helpers::is_hex_color("#6688aa"@));
            reveal_strlit("#777777");
            assert(helpers::is_hex_color("#777777"@));
            reveal_strlit("#a000a0");
            assert(helpers::is_hex_color("#a000a0"@));
            reveal_strlit("#aa10e4");
            assert(helpers::is_hex_color("#aa10e4"@));
            reveal_strlit("#eeaC88");
            assert(helpers::is_hex_color("#eeaC88"@));
            reveal_strlit("#ff00ff");
            assert(helpers::is_hex_color("#ff00ff"@));
        }
        let lists = vec![
            vec!["#6655aa", "#222222"],
            vec!["#eeaC88", "#121312", "#333333"],
            vec!["#213CFB", "#310CFA", "#6688aa", "#111111", "#121212", "#101010"],
            vec!["#660000", "#100101", "#300002"],
            vec!["#473859", "#222222"],
            vec!["#300300", "#333333"],
            vec!["#001931", "#000000", "#222200"],
            vec!["#a000a0", "#000000", "#2303aa", "#333333"],
            vec!["#473859", "#222222"],
            vec!["#348348", "#112312"],
            vec!["#0000ee", "#0e000e"],
            vec!["#333333", "#111111", "#777777"],
            vec!["#660000", "#100101", "#300002", "#100001", "#010210"],
            vec!["#473850", "#222222", "#001001"],
            vec!["#112112", "#000033"],
            vec!["#ff00ff", "#000000"],
            vec!["#38881a", "#333333"],
            vec!["#aa10e4", "#333333"]
        ];
        proof {
            let spec = default_colorsets_spec();
            assert(lists@.len() == spec.len());
            assert forall|i: int| 0 <= i < lists@.len() implies #[trigger] lists@[i]@.len() == spec[i].len() && lists@[i]@.map_values(|h: &str| h@) == spec[i] by {
                assert(lists@[i]@.map_values(|h: &str| h@) =~= spec[i]);
            }
        }
        let sets = helpers::colorsets_from_vec_hex_strings(lists);
        proof {
            let spec = default_colorsets_spec();
            assert forall|i: int| 0 <= i < sets.colorsets@.len() implies #[trigger] sets.colorsets@[i].colors@
                == spec[i].map_values(|h: Seq<char>| helpers::hex_color(h)) by {
                assert(lists@[i]@.map_values(|h: &str| h@) == spec[i]);
                assert(helpers::hex_colors(lists@[i]@) =~= spec[i].map_values(|h: Seq<char>| helpers::hex_color(h)));
            }
        }
        sets
    }
}

} // verus!
