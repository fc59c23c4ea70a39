//! Palettes looked up by name, in an `indexmap::IndexMap`.
use vstd::prelude::*;

use indexmap::IndexMap;

use super::helpers::{all_hex_color_lists, colorset_from_hex_strings, hex_colors};
use super::{Color, ColorSet};

verus! {

/// Declared so that the map of palette names can be held in a `ColorMap`.
#[verifier::external_type_specification]
#[verifier::external_body]
#[verifier::reject_recursive_types(K)]
#[verifier::reject_recursive_types(V)]
#[verifier::reject_recursive_types(S)]
pub struct ExIndexMap<K, V, S>(IndexMap<K, V, S>);

/// The entries of a map from palette names to palette indices, as
/// (name, index) pairs in the map's order.
pub uninterp spec fn index_map_entries(m: IndexMap<String, usize>) -> Seq<(Seq<char>, usize)>;

/// `IndexMap::new`: a map with no entries.
#[verifier::external_body]
fn index_map_new() -> (m: IndexMap<String, usize>)
    ensures
        index_map_entries(m) == Seq::<(Seq<char>, usize)>::empty(),
{
    IndexMap::new()
}

/// `IndexMap::insert`. As the crate documents and its source shows: where an
/// equal key is present, its entry keeps its place, takes the new value and
/// the old value is returned; otherwise the entry is appended last and `None`
/// is returned.
#[verifier::external_body]
fn index_map_insert(m: &mut IndexMap<String, usize>, key: String, value: usize) -> (r: Option<usize>)
    ensures
        (exists|i: int| 0 <= i < index_map_entries(*old(m)).len() && #[trigger] index_map_entries(*old(m))[i].0 == key@) ==> (exists|i: int|
            0 <= i < index_map_entries(*old(m)).len() && #[trigger] index_map_entries(*old(m))[i].0 == key@
                && index_map_entries(*final(m)) == index_map_entries(*old(m)).update(i, (key@, value))
                && r == Some(index_map_entries(*old(m))[i].1)),
        !(exists|i: int| 0 <= i < index_map_entries(*old(m)).len() && #[trigger] index_map_entries(*old(m))[i].0 == key@) ==> (index_map_entries(*final(m)) == index_map_entries(*old(m)).push((key@, value))
            && r is None),
{
    m.insert(key, value)
}

/// `IndexMap::get` by a name: the value of the entry with that key, or `None`
/// where no entry has it.
#[verifier::external_body]
fn index_map_get(m: &IndexMap<String, usize>, key: &str) -> (r: Option<usize>)
    ensures
        r is None <==> (forall|i: int| 0 <= i < index_map_entries(*m).len() ==> #[trigger] index_map_entries(*m)[i].0 != key@),
        r matches Some(v) ==> exists|i: int| 0 <= i < index_map_entries(*m).len() && #[trigger] index_map_entries(*m)[i] == (key@, v),
{
    m.get(key).copied()
}

/// No two entries share a key.
pub open spec fn keys_distinct(entries: Seq<(Seq<char>, usize)>) -> bool {
    forall|i: int, j: int| 0 <= i < j < entries.len() ==> #[trigger] entries[i].0 != #[trigger] entries[j].0
}

/// Some entry has the key.
pub open spec fn has_key(entries: Seq<(Seq<char>, usize)>, name: Seq<char>) -> bool {
    exists|i: int| 0 <= i < entries.len() && #[trigger] entries[i].0 == name
}

/// The value of the entry with the key, if any.
pub open spec fn value_of(entries: Seq<(Seq<char>, usize)>, name: Seq<char>) -> Option<usize> {
    if has_key(entries, name) {
        Some(entries[choose|i: int| 0 <= i < entries.len() && #[trigger] entries[i].0 == name].1)
    } else {
        None
    }
}

pub(crate) proof fn lemma_value_of(entries: Seq<(Seq<char>, usize)>, i: int)
    requires
        keys_distinct(entries),
        0 <= i < entries.len(),
    ensures
        value_of(entries, entries[i].0) == Some(entries[i].1),
{
    let name = entries[i].0;
    assert(has_key(entries, name));
    let j = choose|j: int| 0 <= j < entries.len() && #[trigger] entries[j].0 == name;
    if j != i {
        if j < i {
            assert(entries[j].0 != entries[i].0);
        } else {
            assert(entries[i].0 != entries[j].0);
        }
    }
}


/// What an insertion does to the entries, as `index_map_insert` states it.
pub open spec fn inserted(before: Seq<(Seq<char>, usize)>, after: Seq<(Seq<char>, usize)>, name: Seq<char>, value: usize) -> bool {
    &&& has_key(before, name) ==> (exists|i: int|
        0 <= i < before.len() && #[trigger] before[i].0 == name && after == before.update(i, (name, value)))
    &&& !has_key(before, name) ==> after == before.push((name, value))
}

proof fn lemma_insert_effect(before: Seq<(Seq<char>, usize)>, after: Seq<(Seq<char>, usize)>, name: Seq<char>, value: usize, bound: int)
    requires
        keys_distinct(before),
        inserted(before, after, name, value),
        forall|i: int| 0 <= i < before.len() ==> #[trigger] before[i].1 < bound,
        value < bound,
    ensures
        keys_distinct(after),
        forall|i: int| 0 <= i < after.len() ==> #[trigger] after[i].1 < bound,
        forall|n: Seq<char>| #[trigger] has_key(after, n) <==> (has_key(before, n) || n == name),
        value_of(after, name) == Some(value),
        forall|n: Seq<char>| n != name && has_key(before, n) ==> #[trigger] value_of(after, n) == value_of(before, n),
{
    if has_key(before, name) {
        let p = choose|i: int| 0 <= i < before.len() && #[trigger] before[i].0 == name && after == before.update(i, (name, value));
        assert forall|i: int, j: int| 0 <= i < j < after.len() implies #[trigger] after[i].0 != #[trigger] after[j].0 by {
            assert(after[i].0 == before[i].0);
            assert(after[j].0 == before[j].0);
        }
        assert forall|n: Seq<char>| #[trigger] has_key(after, n) <==> (has_key(before, n) || n == name) by {
            if has_key(before, n) {
                let q = choose|q: int| 0 <= q < before.len() && #[trigger] before[q].0 == n;
                assert(after[q].0 == n);
            }
            if has_key(after, n) {
                let q = choose|q: int| 0 <= q < after.len() && #[trigger] after[q].0 == n;
                assert(before[q].0 == n);
            }
            if n == name {
                assert(after[p].0 == n);
            }
        }
        lemma_value_of(after, p);
        assert forall|n: Seq<char>| n != name && has_key(before, n) implies #[trigger] value_of(after, n) == value_of(before, n) by {
            let q = choose|q: int| 0 <= q < before.len() && #[trigger] before[q].0 == n;
            lemma_value_of(before, q);
            assert(q != p);
            assert(after[q] == before[q]);
            lemma_value_of(after, q);
        }
    } else {
        assert(after == before.push((name, value)));
        assert forall|i: int, j: int| 0 <= i < j < after.len() implies #[trigger] after[i].0 != #[trigger] after[j].0 by {
            if j == before.len() {
                assert(after[i].0 == before[i].0);
                if before[i].0 == name {
                    assert(has_key(before, name));
                }
            }
        }
        assert forall|n: Seq<char>| #[trigger] has_key(after, n) <==> (has_key(before, n) || n == name) by {
            if has_key(before, n) {
                let q = choose|q: int| 0 <= q < before.len() && #[trigger] before[q].0 == n;
                assert(after[q].0 == n);
            }
            if has_key(after, n) {
                let q = choose|q: int| 0 <= q < after.len() && #[trigger] after[q].0 == n;
                if q < before.len() {
                    assert(before[q].0 == n);
                }
            }
            if n == name {
                assert(after[before.len() as int].0 == n);
            }
        }
        lemma_value_of(after, before.len() as int);
        assert forall|n: Seq<char>| n != name && has_key(before, n) implies #[trigger] value_of(after, n) == value_of(before, n) by {
            let q = choose|q: int| 0 <= q < before.len() && #[trigger] before[q].0 == n;
            lemma_value_of(before, q);
            assert(after[q] == before[q]);
            lemma_value_of(after, q);
        }
    }
}

/// Where the name occurs at `i` and nowhere before, `i` is its first occurrence.
pub(crate) proof fn lemma_first_index_is<T>(cs: Seq<(&str, T)>, name: Seq<char>, i: int)
    requires
        0 <= i < cs.len(),
        cs[i].0@ == name,
        forall|j: int| 0 <= j < i ==> #[trigger] cs[j].0@ != name,
    ensures
        first_index_of(cs, name) == i,
{
    let f = first_index_of(cs, name);
    assert(0 <= f < cs.len() && cs[f].0@ == name && forall|j: int| 0 <= j < f ==> #[trigger] cs[j].0@ != name);
    if f < i {
        assert(cs[f].0@ != name);
    } else if f > i {
        assert(cs[i].0@ != name);
    }
}

/// A name that occurs has a first occurrence.
proof fn lemma_first_exists<T>(cs: Seq<(&str, T)>, name: Seq<char>, i: int)
    requires
        0 <= i < cs.len(),
        cs[i].0@ == name,
    ensures
        exists|f: int| 0 <= f < cs.len() && cs[f].0@ == name && forall|j: int| 0 <= j < f ==> #[trigger] cs[j].0@ != name,
    decreases i,
{
    if exists|j: int| 0 <= j < i && #[trigger] cs[j].0@ == name {
        let j = choose|j: int| 0 <= j < i && #[trigger] cs[j].0@ == name;
        lemma_first_exists(cs, name, j);
    } else {
        assert(forall|j: int| 0 <= j < i ==> #[trigger] cs[j].0@ != name);
    }
}

/// Where the name occurs at `i` and nowhere after, `i` is its last occurrence.
pub(crate) proof fn lemma_last_index_is<T>(cs: Seq<(&str, T)>, name: Seq<char>, i: int)
    requires
        0 <= i < cs.len(),
        cs[i].0@ == name,
        forall|j: int| i < j < cs.len() ==> #[trigger] cs[j].0@ != name,
    ensures
        last_index_of(cs, name) == i,
{
    let f = last_index_of(cs, name);
    assert(0 <= f < cs.len() && cs[f].0@ == name && forall|j: int| f < j < cs.len() ==> #[trigger] cs[j].0@ != name);
    if f < i {
        assert(cs[i].0@ != name);
    } else if f > i {
        assert(cs[f].0@ != name);
    }
}

/// Walking a list of named values from the back: the first occurrences in
/// the suffix from `k` are those of the suffix from `k + 1`, except for the
/// name at `k`, which now occurs first at `k`.
proof fn lemma_suffix_step<T>(cs: Seq<(&str, T)>, k: int, name: Seq<char>)
    requires
        0 <= k < cs.len(),
    ensures
        names_contain(cs.skip(k), name) <==> (cs[k].0@ == name || names_contain(cs.skip(k + 1), name)),
        cs[k].0@ == name ==> k + first_index_of(cs.skip(k), name) == k,
        cs[k].0@ != name && names_contain(cs.skip(k + 1), name) ==> k + first_index_of(cs.skip(k), name)
            == k + 1 + first_index_of(cs.skip(k + 1), name),
{
    let a = cs.skip(k);
    let b = cs.skip(k + 1);
    assert forall|j: int| 0 <= j < b.len() implies #[trigger] b[j] == a[j + 1] by {}
    if names_contain(b, name) {
        let j = choose|j: int| 0 <= j < b.len() && #[trigger] b[j].0@ == name;
        assert(a[j + 1].0@ == name);
    }
    if names_contain(a, name) {
        let j = choose|j: int| 0 <= j < a.len() && #[trigger] a[j].0@ == name;
        if j > 0 {
            assert(b[j - 1].0@ == name);
        }
    }
    if cs[k].0@ == name {
        assert(a[0].0@ == name);
        lemma_first_index_is(a, name, 0);
    } else if names_contain(b, name) {
        let j = choose|j: int| 0 <= j < b.len() && #[trigger] b[j].0@ == name;
        lemma_first_exists(b, name, j);
        let f = first_index_of(b, name);
        assert(0 <= f < b.len() && b[f].0@ == name && forall|i: int| 0 <= i < f ==> #[trigger] b[i].0@ != name);
        assert forall|i: int| 0 <= i < f + 1 implies #[trigger] a[i].0@ != name by {
            if i > 0 {
                assert(a[i] == b[i - 1]);
            }
        }
        lemma_first_index_is(a, name, f + 1);
    }
}

/// Walking a list of named values from the front: the last occurrences in
/// the prefix up to `k + 1` are those of the prefix up to `k`, except for the
/// name at `k`, which now occurs last at `k`.
proof fn lemma_prefix_step<T>(cs: Seq<(&str, T)>, k: int, name: Seq<char>)
    requires
        0 <= k < cs.len(),
    ensures
        names_contain(cs.take(k + 1), name) <==> (cs[k].0@ == name || names_contain(cs.take(k), name)),
        cs[k].0@ == name ==> last_index_of(cs.take(k + 1), name) == k,
        cs[k].0@ != name && names_contain(cs.take(k), name) ==> last_index_of(cs.take(k + 1), name)
            == last_index_of(cs.take(k), name),
{
    let a = cs.take(k + 1);
    let b = cs.take(k);
    if names_contain(b, name) {
        let j = choose|j: int| 0 <= j < b.len() && #[trigger] b[j].0@ == name;
        assert(a[j].0@ == name);
    }
    if names_contain(a, name) {
        let j = choose|j: int| 0 <= j < a.len() && #[trigger] a[j].0@ == name;
        if j < k {
            assert(b[j].0@ == name);
        }
    }
    if cs[k].0@ == name {
        assert(a[k].0@ == name);
        lemma_last_index_is(a, name, k);
    } else if names_contain(b, name) {
        let j = choose|j: int| 0 <= j < b.len() && #[trigger] b[j].0@ == name;
        lemma_last_exists(b, name, j);
        let f = last_index_of(b, name);
        assert(0 <= f < b.len() && b[f].0@ == name && forall|i: int| f < i < b.len() ==> #[trigger] b[i].0@ != name);
        assert forall|i: int| f < i < a.len() implies #[trigger] a[i].0@ != name by {
            if i < k {
                assert(a[i] == b[i]);
            }
        }
        assert(a[f] == b[f]);
        lemma_last_index_is(a, name, f);
    }
}

/// A name that occurs has a last occurrence.
proof fn lemma_last_exists<T>(cs: Seq<(&str, T)>, name: Seq<char>, i: int)
    requires
        0 <= i < cs.len(),
        cs[i].0@ == name,
    ensures
        exists|f: int| 0 <= f < cs.len() && cs[f].0@ == name && forall|j: int| f < j < cs.len() ==> #[trigger] cs[j].0@ != name,
    decreases cs.len() - i,
{
    if exists|j: int| i < j < cs.len() && #[trigger] cs[j].0@ == name {
        let j = choose|j: int| i < j < cs.len() && #[trigger] cs[j].0@ == name;
        lemma_last_exists(cs, name, j);
    } else {
        assert(forall|j: int| i < j < cs.len() ==> #[trigger] cs[j].0@ != name);
    }
}

/// Palettes by name, with a palette for names that have none.
pub struct ColorMap {
    pub colors: IndexMap<String, usize>,
    pub palettes: Vec<ColorSet>,
    pub default: ColorSet,
}

impl ColorMap {
    /// The (name, palette index) entries, in the map's order.
    pub open spec fn entries(&self) -> Seq<(Seq<char>, usize)> {
        index_map_entries(self.colors)
    }

    /// Names are unique and each points at a palette.
    pub open spec fn well_formed(&self) -> bool {
        &&& keys_distinct(self.entries())
        &&& forall|i: int| 0 <= i < self.entries().len() ==> #[trigger] self.entries()[i].1 < self.palettes@.len()
    }

    /// The palette stored under a name.
    pub open spec fn palette_named(&self, name: Seq<char>) -> Option<ColorSet> {
        match value_of(self.entries(), name) {
            Some(i) => Some(self.palettes@[i as int]),
            None => None,
        }
    }

    /// The palette that colours an event with the given names: the one stored
    /// under the last name, or the default one.
    pub open spec fn selected(&self, names: Seq<String>) -> ColorSet {
        if names.len() > 0 && self.palette_named(names.last()@) is Some {
            self.palette_named(names.last()@)->0
        } else {
            self.default
        }
    }

    /// Draw a colour for an event with the given names from the palette
    /// stored under its last name, or else from the default palette.
    pub fn gen(&self, names: &Vec<String>) -> (color: Color)
        requires
            self.well_formed(),
            self.selected(names@).colors@.len() > 0,
        ensures
            exists|i: int|
                0 <= i < self.selected(names@).colors@.len() && self.selected(names@).colors@[i] == color,
    {
        if names.len() > 0 {
            let found = index_map_get(&self.colors, names[names.len() - 1].as_str());
            if let Some(i) = found {
                proof {
                    let e = self.entries();
                    let k = choose|k: int| 0 <= k < e.len() && #[trigger] e[k] == (names@.last()@, i);
                    assert(e[k].0 == names@.last()@);
                    lemma_value_of(e, k);
                }
                return self.palettes[i].gen(names);
            }
            proof {
                assert(!has_key(self.entries(), names@.last()@));
            }
        }
        self.default.gen(names)
    }

    /// A map of palettes keeps no state between draws.
    pub fn update(&mut self)
        ensures
            final(self).colors == old(self).colors,
            final(self).palettes@ == old(self).palettes@,
            final(self).default == old(self).default,
    {
    }
}

/// The palette for names without one of their own: `#ff0088` alone.
pub open spec fn default_palette_colors() -> Seq<Color> {
    seq![Color { r: 0xff, g: 0x00, b: 0x88 }]
}

fn default_palette() -> (set: ColorSet)
    ensures
        set.colors@ == default_palette_colors(),
{
    let s = "#ff0088";
    proof {
        reveal_strlit("#ff0088");
        assert(super::helpers::is_hex_color(s@));
    }
    let strings = vec![s];
    proof {
        assert(super::helpers::all_hex_colors(strings@));
    }
    let set = colorset_from_hex_strings(strings);
    proof {
        assert(hex_colors(strings@) =~= default_palette_colors());
    }
    set
}

/// The index of the first occurrence of the name in a list of named values.
pub open spec fn first_index_of<T>(colors: Seq<(&str, T)>, name: Seq<char>) -> int {
    choose|i: int| 0 <= i < colors.len() && colors[i].0@ == name && forall|j: int| 0 <= j < i ==> #[trigger] colors[j].0@ != name
}

/// The index of the last occurrence of the name in a list of named values.
pub open spec fn last_index_of<T>(colors: Seq<(&str, T)>, name: Seq<char>) -> int {
    choose|i: int| 0 <= i < colors.len() && colors[i].0@ == name && forall|j: int| i < j < colors.len() ==> #[trigger] colors[j].0@ != name
}

/// The name occurs in the list of named values.
pub open spec fn names_contain<T>(colors: Seq<(&str, T)>, name: Seq<char>) -> bool {
    exists|i: int| 0 <= i < colors.len() && #[trigger] colors[i].0@ == name
}

/// The names of the entries come in the reverse order of their last
/// occurrences in the list of named values.
pub open spec fn keys_by_last_occurrence_descending<T>(entries: Seq<(Seq<char>, usize)>, colors: Seq<(&str, T)>) -> bool {
    forall|i: int, j: int|
        0 <= i < j < entries.len() ==> last_index_of(colors, #[trigger] entries[i].0) > last_index_of(
            colors,
            #[trigger] entries[j].0,
        )
}

/// An occurrence of a name is at or before its last occurrence.
proof fn lemma_last_at_least<T>(cs: Seq<(&str, T)>, name: Seq<char>, i: int)
    requires
        0 <= i < cs.len(),
        cs[i].0@ == name,
    ensures
        i <= last_index_of(cs, name) < cs.len(),
        cs[last_index_of(cs, name)].0@ == name,
{
    lemma_last_exists(cs, name, i);
    let f = last_index_of(cs, name);
    assert(0 <= f < cs.len() && cs[f].0@ == name && forall|j: int| f < j < cs.len() ==> #[trigger] cs[j].0@ != name);
    if f < i {
        assert(cs[i].0@ != name);
    }
}

/// Walking a list of named palettes from the back and inserting the name at
/// `k` with a new palette: the map holds the names of the suffix from `k`,
/// each with the palette of its first occurrence there.
proof fn lemma_backward_step(
    cs: Seq<(&str, Vec<&str>)>,
    k: int,
    before: Seq<(Seq<char>, usize)>,
    after: Seq<(Seq<char>, usize)>,
    idx: usize,
    old_palettes: Seq<ColorSet>,
    palettes: Seq<ColorSet>,
)
    requires
        0 <= k < cs.len(),
        idx == old_palettes.len(),
        palettes.len() == old_palettes.len() + 1,
        forall|j: int| 0 <= j < old_palettes.len() ==> #[trigger] palettes[j] == old_palettes[j],
        palettes[idx as int].colors@ == hex_colors(cs[k].1@),
        keys_distinct(before),
        forall|i: int| 0 <= i < before.len() ==> #[trigger] before[i].1 < old_palettes.len(),
        forall|n: Seq<char>| #[trigger] has_key(before, n) <==> names_contain(cs.skip(k + 1), n),
        forall|n: Seq<char>| #[trigger] has_key(before, n) ==>
            old_palettes[value_of(before, n)->0 as int].colors@ == hex_colors(cs[k + 1 + first_index_of(cs.skip(k + 1), n)].1@),
        inserted(before, after, cs[k].0@, idx),
    ensures
        keys_distinct(after),
        forall|i: int| 0 <= i < after.len() ==> #[trigger] after[i].1 < palettes.len(),
        forall|n: Seq<char>| #[trigger] has_key(after, n) <==> names_contain(cs.skip(k), n),
        forall|n: Seq<char>| #[trigger] has_key(after, n) ==>
            palettes[value_of(after, n)->0 as int].colors@ == hex_colors(cs[k + first_index_of(cs.skip(k), n)].1@),
{
    let name = cs[k].0@;
    lemma_insert_effect(before, after, name, idx, palettes.len() as int);
    assert forall|n: Seq<char>| #[trigger] has_key(after, n) <==> names_contain(cs.skip(k), n) by {
        lemma_suffix_step(cs, k, n);
    }
    assert forall|n: Seq<char>| #[trigger] has_key(after, n) implies
        palettes[value_of(after, n)->0 as int].colors@ == hex_colors(cs[k + first_index_of(cs.skip(k), n)].1@) by {
        lemma_suffix_step(cs, k, n);
        if n != name {
            assert(has_key(before, n));
            assert(value_of(before, n)->0 < old_palettes.len());
        }
    }
}

/// Walking a list of named values from the back and inserting the name at
/// `k`: the names in the map stay in the reverse order of their last
/// occurrences, and each of them last occurs at `k` or later.
proof fn lemma_order_step<T>(
    colors: Seq<(&str, T)>,
    k: int,
    before: Seq<(Seq<char>, usize)>,
    after: Seq<(Seq<char>, usize)>,
    name: Seq<char>,
    idx: usize,
)
    requires
        0 <= k < colors.len(),
        colors[k].0@ == name,
        inserted(before, after, name, idx),
        forall|n: Seq<char>| #[trigger] has_key(before, n) <==> names_contain(colors.skip(k + 1), n),
        forall|n: Seq<char>| #[trigger] has_key(before, n) ==> last_index_of(colors, n) >= k + 1,
        keys_by_last_occurrence_descending(before, colors),
    ensures
        forall|n: Seq<char>| #[trigger] has_key(after, n) ==> last_index_of(colors, n) >= k,
        keys_by_last_occurrence_descending(after, colors),
{
    lemma_last_at_least(colors, name, k);
    if has_key(before, name) {
        let p = choose|i: int| 0 <= i < before.len() && #[trigger] before[i].0 == name && after == before.update(i, (name, idx));
        assert forall|i: int| 0 <= i < after.len() implies #[trigger] after[i].0 == before[i].0 by {}
        assert forall|n: Seq<char>| #[trigger] has_key(after, n) implies last_index_of(colors, n) >= k by {
            let q = choose|q: int| 0 <= q < after.len() && #[trigger] after[q].0 == n;
            assert(before[q].0 == n);
            assert(has_key(before, n));
        }
        assert forall|i: int, j: int| 0 <= i < j < after.len() implies last_index_of(colors, #[trigger] after[i].0)
            > last_index_of(colors, #[trigger] after[j].0) by {
            assert(after[i].0 == before[i].0);
            assert(after[j].0 == before[j].0);
        }
    } else {
        assert(after == before.push((name, idx)));
        assert forall|j: int| k < j < colors.len() implies #[trigger] colors[j].0@ != name by {
            if colors[j].0@ == name {
                assert(colors.skip(k + 1)[j - k - 1].0@ == name);
            }
        }
        lemma_last_index_is(colors, name, k);
        assert forall|n: Seq<char>| #[trigger] has_key(after, n) implies last_index_of(colors, n) >= k by {
            let q = choose|q: int| 0 <= q < after.len() && #[trigger] after[q].0 == n;
            if q < before.len() {
                assert(before[q].0 == n);
                assert(has_key(before, n));
            }
        }
        assert forall|i: int, j: int| 0 <= i < j < after.len() implies last_index_of(colors, #[trigger] after[i].0)
            > last_index_of(colors, #[trigger] after[j].0) by {
            assert(after[i] == before[i]);
            assert(has_key(before, before[i].0));
            if j < before.len() {
                assert(after[j] == before[j]);
            }
        }
    }
}

/// Palettes by name from lists of colour strings. A name that occurs more
/// than once gets the palette of its first occurrence; the names are kept in
/// the reverse order of their last occurrences (the list is walked from its
/// end, and a name keeps the place it was first given).
pub fn color_map_from_named_colorsets(colors: Vec<(&str, Vec<&str>)>) -> (map: ColorMap)
    requires
        forall|i: int| 0 <= i < colors@.len() ==> #[trigger] super::helpers::all_hex_colors(colors@[i].1@),
    ensures
        map.well_formed(),
        map.default.colors@ == default_palette_colors(),
        forall|name: Seq<char>| #[trigger] map.palette_named(name) is Some <==> names_contain(colors@, name),
        forall|name: Seq<char>|
            #[trigger] names_contain(colors@, name) ==> map.palette_named(name)->0.colors@ == hex_colors(
                colors@[first_index_of(colors@, name)].1@,
            ),
        keys_by_last_occurrence_descending(map.entries(), colors@),
{
    let mut map = index_map_new();
    let mut palettes: Vec<ColorSet> = Vec::new();
    let mut k: usize = colors.len();
    while k > 0
        invariant
            k <= colors@.len(),
            forall|i: int| 0 <= i < colors@.len() ==> #[trigger] super::helpers::all_hex_colors(colors@[i].1@),
            keys_distinct(index_map_entries(map)),
            forall|i: int| 0 <= i < index_map_entries(map).len() ==> #[trigger] index_map_entries(map)[i].1 < palettes@.len(),
            forall|name: Seq<char>| #[trigger] has_key(index_map_entries(map), name) <==> names_contain(colors@.skip(k as int), name),
            forall|name: Seq<char>| #[trigger] has_key(index_map_entries(map), name) ==>
                palettes@[value_of(index_map_entries(map), name)->0 as int].colors@ == hex_colors(
                    colors@[k + first_index_of(colors@.skip(k as int), name)].1@,
                ),
            forall|name: Seq<char>| #[trigger] has_key(index_map_entries(map), name) ==> last_index_of(colors@, name) >= k,
            keys_by_last_occurrence_descending(index_map_entries(map), colors@),
        decreases k,
    {
        k = k - 1;
        let name = colors[k].0;
        let strings = colors[k].1.clone();
        let ghost old_palettes = palettes@;
        palettes.push(colorset_from_hex_strings(strings));
        let idx = palettes.len() - 1;
        let ghost before = index_map_entries(map);
        let key = name.to_owned();
        index_map_insert(&mut map, key, idx);
        proof {
            let after = index_map_entries(map);
            lemma_backward_step(colors@, k as int, before, after, idx, old_palettes, palettes@);
            lemma_order_step(colors@, k as int, before, after, name@, idx);
        }
    }
    proof {
        assert(colors@.skip(0) =~= colors@);
    }
    ColorMap { colors: map, palettes, default: default_palette() }
}

/// The names of the entries come in the order of their first occurrences in
/// the list of named values.
pub open spec fn keys_by_first_occurrence_ascending<T>(entries: Seq<(Seq<char>, usize)>, colors: Seq<(&str, T)>) -> bool {
    forall|i: int, j: int|
        0 <= i < j < entries.len() ==> first_index_of(colors, #[trigger] entries[i].0) < first_index_of(
            colors,
            #[trigger] entries[j].0,
        )
}

/// An occurrence of a name is at or after its first occurrence.
proof fn lemma_first_at_most<T>(cs: Seq<(&str, T)>, name: Seq<char>, i: int)
    requires
        0 <= i < cs.len(),
        cs[i].0@ == name,
    ensures
        0 <= first_index_of(cs, name) <= i,
        cs[first_index_of(cs, name)].0@ == name,
{
    lemma_first_exists(cs, name, i);
    let f = first_index_of(cs, name);
    assert(0 <= f < cs.len() && cs[f].0@ == name && forall|j: int| 0 <= j < f ==> #[trigger] cs[j].0@ != name);
    if f > i {
        assert(cs[i].0@ != name);
    }
}

/// Walking a list of named values from the front and inserting the name at
/// `k`: the names in the map stay in the order of their first occurrences,
/// and each of them first occurs before `k + 1`.
#[verifier::rlimit(40)]
proof fn lemma_first_order_step<T>(
    colors: Seq<(&str, T)>,
    k: int,
    before: Seq<(Seq<char>, usize)>,
    after: Seq<(Seq<char>, usize)>,
    name: Seq<char>,
    idx: usize,
)
    requires
        0 <= k < colors.len(),
        colors[k].0@ == name,
        inserted(before, after, name, idx),
        forall|n: Seq<char>| #[trigger] has_key(before, n) <==> names_contain(colors.take(k), n),
        forall|n: Seq<char>| #[trigger] has_key(before, n) ==> first_index_of(colors, n) < k,
        keys_by_first_occurrence_ascending(before, colors),
    ensures
        forall|n: Seq<char>| #[trigger] has_key(after, n) ==> first_index_of(colors, n) < k + 1,
        keys_by_first_occurrence_ascending(after, colors),
{
    lemma_first_at_most(colors, name, k);
    if has_key(before, name) {
        let p = choose|i: int| 0 <= i < before.len() && #[trigger] before[i].0 == name && after == before.update(i, (name, idx));
        assert forall|i: int| 0 <= i < after.len() implies #[trigger] after[i].0 == before[i].0 by {}
        assert forall|n: Seq<char>| #[trigger] has_key(after, n) implies first_index_of(colors, n) < k + 1 by {
            let q = choose|q: int| 0 <= q < after.len() && #[trigger] after[q].0 == n;
            assert(before[q].0 == n);
            assert(has_key(before, n));
        }
        assert forall|i: int, j: int| 0 <= i < j < after.len() implies first_index_of(colors, #[trigger] after[i].0)
            < first_index_of(colors, #[trigger] after[j].0) by {
            assert(after[i].0 == before[i].0);
            assert(after[j].0 == before[j].0);
        }
    } else {
        assert(after == before.push((name, idx)));
        assert forall|j: int| 0 <= j < k implies #[trigger] colors[j].0@ != name by {
            if colors[j].0@ == name {
                assert(colors.take(k)[j].0@ == name);
            }
        }
        lemma_first_index_is(colors, name, k);
        assert forall|n: Seq<char>| #[trigger] has_key(after, n) implies first_index_of(colors, n) < k + 1 by {
            let q = choose|q: int| 0 <= q < after.len() && #[trigger] after[q].0 == n;
            if q < before.len() {
                assert(before[q].0 == n);
                assert(has_key(before, n));
            }
        }
        assert forall|i: int, j: int| 0 <= i < j < after.len() implies first_index_of(colors, #[trigger] after[i].0)
            < first_index_of(colors, #[trigger] after[j].0) by {
            assert(after[i] == before[i]);
            assert(has_key(before, before[i].0));
            if j < before.len() {
                assert(after[j] == before[j]);
            }
        }
    }
}

/// Palettes by name from named palettes. A name that occurs more than once
/// gets the palette of its last occurrence; the names are kept in the order
/// of their first occurrences (a name keeps the place it was first given).
pub fn color_map_from_named_gen_color(colors: Vec<(&str, ColorSet)>) -> (map: ColorMap)
    ensures
        map.well_formed(),
        map.default.colors@ == default_palette_colors(),
        forall|name: Seq<char>| #[trigger] map.palette_named(name) is Some <==> names_contain(colors@, name),
        forall|name: Seq<char>|
            #[trigger] names_contain(colors@, name) ==> map.palette_named(name)->0.colors@
                == colors@[last_index_of(colors@, name)].1.colors@,
        keys_by_first_occurrence_ascending(map.entries(), colors@),
{
    let ghost original = colors@;
    let len = colors.len();
    let mut rest = colors;
    let mut names: Vec<&str> = Vec::new();
    let mut palettes: Vec<ColorSet> = Vec::new();
    while rest.len() > 0
        invariant
            len == original.len(),
            rest@ == original.take(rest@.len() as int),
            names@.len() == palettes@.len(),
            rest@.len() + names@.len() == len,
            forall|j: int| 0 <= j < names@.len() ==> #[trigger] names@[j] == original[len - 1 - j].0,
            forall|j: int| 0 <= j < palettes@.len() ==> #[trigger] palettes@[j] == original[len - 1 - j].1,
        decreases rest.len(),
    {
        let ghost r0 = rest@;
        let entry = rest.pop().unwrap();
        proof {
            assert(entry == original[r0.len() - 1]);
            assert(rest@ =~= original.take(rest@.len() as int));
        }
        let (name, set) = entry;
        names.push(name);
        palettes.push(set);
    }
    let mut map = index_map_new();
    let mut k: usize = 0;
    while k < len
        invariant
            len == original.len(),
            names@.len() == len,
            palettes@.len() == len,
            k <= len,
            forall|j: int| 0 <= j < len ==> #[trigger] names@[j] == original[len - 1 - j].0,
            forall|j: int| 0 <= j < len ==> #[trigger] palettes@[j] == original[len - 1 - j].1,
            keys_distinct(index_map_entries(map)),
            forall|i: int| 0 <= i < index_map_entries(map).len() ==> #[trigger] index_map_entries(map)[i].1 < len,
            forall|name: Seq<char>| #[trigger] has_key(index_map_entries(map), name) <==> names_contain(original.take(k as int), name),
            forall|name: Seq<char>| #[trigger] has_key(index_map_entries(map), name) ==>
                value_of(index_map_entries(map), name)->0 == len - 1 - last_index_of(original.take(k as int), name),
            forall|name: Seq<char>| #[trigger] has_key(index_map_entries(map), name) ==> first_index_of(original, name) < k,
            keys_by_first_occurrence_ascending(index_map_entries(map), original),
        decreases len - k,
    {
        let idx = len - 1 - k;
        let name = names[idx];
        let ghost before = index_map_entries(map);
        let key = name.to_owned();
        index_map_insert(&mut map, key, idx);
        proof {
            assert(name == original[k as int].0);
            lemma_forward_step(original, k as int, before, index_map_entries(map), idx);
            lemma_first_order_step(original, k as int, before, index_map_entries(map), name@, idx);
        }
        k = k + 1;
    }
    proof {
        assert(original.take(k as int) =~= original);
        assert forall|name: Seq<char>| #[trigger] names_contain(original, name) implies
            palettes@[value_of(index_map_entries(map), name)->0 as int].colors@ == original[last_index_of(original, name)].1.colors@ by {
            let j = choose|j: int| 0 <= j < original.len() && #[trigger] original[j].0@ == name;
            lemma_last_exists(original, name, j);
        }
    }
    ColorMap { colors: map, palettes, default: default_palette() }
}

proof fn lemma_forward_step<T>(
    cs: Seq<(&str, T)>,
    k: int,
    before: Seq<(Seq<char>, usize)>,
    after: Seq<(Seq<char>, usize)>,
    idx: usize,
)
    requires
        0 <= k < cs.len(),
        idx == cs.len() - 1 - k,
        keys_distinct(before),
        forall|i: int| 0 <= i < before.len() ==> #[trigger] before[i].1 < cs.len(),
        forall|name: Seq<char>| #[trigger] has_key(before, name) <==> names_contain(cs.take(k), name),
        forall|name: Seq<char>| #[trigger] has_key(before, name) ==>
            value_of(before, name)->0 == cs.len() - 1 - last_index_of(cs.take(k), name),
        inserted(before, after, cs[k].0@, idx),
    ensures
        keys_distinct(after),
        forall|i: int| 0 <= i < after.len() ==> #[trigger] after[i].1 < cs.len(),
        forall|name: Seq<char>| #[trigger] has_key(after, name) <==> names_contain(cs.take(k + 1), name),
        forall|name: Seq<char>| #[trigger] has_key(after, name) ==>
            value_of(after, name)->0 == cs.len() - 1 - last_index_of(cs.take(k + 1), name),
{
    lemma_insert_effect(before, after, cs[k].0@, idx, cs.len() as int);
    assert forall|n: Seq<char>| #[trigger] has_key(after, n) <==> names_contain(cs.take(k + 1), n) by {
        lemma_prefix_step(cs, k, n);
    }
    assert forall|n: Seq<char>| #[trigger] has_key(after, n) implies
        value_of(after, n)->0 == cs.len() - 1 - last_index_of(cs.take(k + 1), n) by {
        lemma_prefix_step(cs, k, n);
        if n != cs[k].0@ {
            assert(has_key(before, n));
        }
    }
}

} // verus!
