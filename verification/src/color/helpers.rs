//! Parsing of `#rrggbb` hex colour strings.
use vstd::prelude::*;

use super::{Color, ColorSet, ColorSets};
use vstd::string::{StrSliceExecFns, StringSliceAdditionalSpecFns};

verus! {

/// Declared so that `hex::decode` can hand back its error.
#[verifier::external_type_specification]
#[verifier::external_body]
pub struct ExFromHexError(hex::FromHexError);

/// A byte that `hex` accepts as a digit: `0-9`, `a-f` or `A-F`.
pub open spec fn is_hex_byte(b: u8) -> bool {
    (48 <= b <= 57) || (97 <= b <= 102) || (65 <= b <= 70)
}

/// The value of a hex digit byte.
pub open spec fn hex_byte_value(b: u8) -> int {
    if 48 <= b <= 57 {
        b - 48
    } else if 97 <= b <= 102 {
        b - 87
    } else {
        b - 55
    }
}

/// The bytes that a sequence of hex digit pairs stands for.
pub open spec fn hex_pairs_value(bytes: Seq<u8>) -> Seq<u8> {
    Seq::new(
        (bytes.len() / 2) as nat,
        |k: int| (16 * hex_byte_value(bytes[2 * k]) + hex_byte_value(bytes[2 * k + 1])) as u8,
    )
}

/// `hex::decode` on the UTF-8 bytes of `data`. As the crate's source shows,
/// it fails on an odd number of bytes or on any byte that is no hex digit,
/// and otherwise turns each pair of digits, high digit first, into one byte.
#[verifier::external_body]
fn hex_decode(data: &str) -> (r: Result<Vec<u8>, hex::FromHexError>)
    ensures
        r is Ok <==> (data.spec_bytes().len() % 2 == 0 && forall|i: int|
            0 <= i < data.spec_bytes().len() ==> #[trigger] is_hex_byte(data.spec_bytes()[i])),
        r matches Ok(v) ==> v@ == hex_pairs_value(data.spec_bytes()),
{
    hex::decode(data)
}

/// A hex digit character.
pub open spec fn is_hex_char(c: char) -> bool {
    ('0' <= c <= '9') || ('a' <= c <= 'f') || ('A' <= c <= 'F')
}

/// The value of a hex digit character.
pub open spec fn hex_char_value(c: char) -> int {
    if '0' <= c <= '9' {
        (c as int) - 48
    } else if 'a' <= c <= 'f' {
        (c as int) - 87
    } else {
        (c as int) - 55
    }
}

/// A colour string as the parser takes it: one leading one-byte character
/// (normally `#`) followed by an even number, at least six, of hex digits.
pub open spec fn is_hex_color(s: Seq<char>) -> bool {
    &&& s.len() >= 7
    &&& (s.len() - 1) % 2 == 0
    &&& '\0' <= s[0] <= '\u{7f}'
    &&& forall|i: int| 1 <= i < s.len() ==> #[trigger] is_hex_char(s[i])
}

/// The `k`-th byte written in a colour string: the pair of digits after the
/// leading character at positions `1 + 2k` and `2 + 2k`.
pub open spec fn hex_channel(s: Seq<char>, k: int) -> u8 {
    (16 * hex_char_value(s[1 + 2 * k]) + hex_char_value(s[2 + 2 * k])) as u8
}

/// The red, green and blue bytes of a colour string.
pub open spec fn hex_rgb(s: Seq<char>) -> (u8, u8, u8) {
    (hex_channel(s, 0), hex_channel(s, 1), hex_channel(s, 2))
}

/// The colour that a colour string stands for.
pub open spec fn hex_color(s: Seq<char>) -> Color {
    Color { r: hex_channel(s, 0), g: hex_channel(s, 1), b: hex_channel(s, 2) }
}

/// The hex digits, as the original's colour strings may write them: `0-9`,
/// then `a-f`, then `A-F`.
pub open spec fn hex_digits() -> Seq<char> {
    seq!['0', '1', '2', '3', '4', '5', '6', '7', '8', '9', 'a', 'b', 'c', 'd', 'e', 'f', 'A', 'B', 'C', 'D', 'E', 'F']
}

/// Every listed hex digit, lower or upper case, is taken for one, with its
/// value: `0-9` are 0 to 9, `a-f` and `A-F` are both 10 to 15.
pub proof fn lemma_hex_digits_are_read()
    ensures
        forall|i: int| 0 <= i < 22 ==> #[trigger] is_hex_char(hex_digits()[i]),
        forall|i: int| 0 <= i < 16 ==> #[trigger] hex_char_value(hex_digits()[i]) == i,
        forall|i: int| 16 <= i < 22 ==> #[trigger] hex_char_value(hex_digits()[i]) == i - 6,
{
    assert forall|i: int| 0 <= i < 22 implies #[trigger] is_hex_char(hex_digits()[i]) && hex_char_value(hex_digits()[i]) == (if i < 16 { i } else { i - 6 }) by {
        if i == 0 {
            assert(hex_digits()[0] == '0');
        }
        if i == 1 {
            assert(hex_digits()[1] == '1');
        }
        if i == 2 {
            assert(hex_digits()[2] == '2');
        }
        if i == 3 {
            assert(hex_digits()[3] == '3');
        }
        if i == 4 {
            assert(hex_digits()[4] == '4');
        }
        if i == 5 {
            assert(hex_digits()[5] == '5');
        }
        if i == 6 {
            assert(hex_digits()[6] == '6');
        }
        if i == 7 {
            assert(hex_digits()[7] == '7');
        }
        if i == 8 {
            assert(hex_digits()[8] == '8');
        }
        if i == 9 {
            assert(hex_digits()[9] == '9');
        }
        if i == 10 {
            assert(hex_digits()[10] == 'a');
        }
        if i == 11 {
            assert(hex_digits()[11] == 'b');
        }
        if i == 12 {
            assert(hex_digits()[12] == 'c');
        }
        if i == 13 {
            assert(hex_digits()[13] == 'd');
        }
        if i == 14 {
            assert(hex_digits()[14] == 'e');
        }
        if i == 15 {
            assert(hex_digits()[15] == 'f');
        }
        if i == 16 {
            assert(hex_digits()[16] == 'A');
        }
        if i == 17 {
            assert(hex_digits()[17] == 'B');
        }
        if i == 18 {
            assert(hex_digits()[18] == 'C');
        }
        if i == 19 {
            assert(hex_digits()[19] == 'D');
        }
        if i == 20 {
            assert(hex_digits()[20] == 'E');
        }
        if i == 21 {
            assert(hex_digits()[21] == 'F');
        }
    }
}

/// Every character taken for a hex digit is one of the listed ones.
pub proof fn lemma_only_hex_digits_are_read(c: char)
    requires
        is_hex_char(c),
    ensures
        exists|i: int| 0 <= i < 22 && #[trigger] hex_digits()[i] == c,
{
    let i: int = if '0' <= c <= '9' {
        c as int - 48
    } else if 'a' <= c <= 'f' {
        c as int - 87
    } else {
        c as int - 49
    };
    assert(0 <= i < 22);
    lemma_hex_digits_are_read();
    assert(hex_digits()[i] == c) by {
        if i == 0 {
            assert(hex_digits()[0] == '0');
        }
        if i == 1 {
            assert(hex_digits()[1] == '1');
        }
        if i == 2 {
            assert(hex_digits()[2] == '2');
        }
        if i == 3 {
            assert(hex_digits()[3] == '3');
        }
        if i == 4 {
            assert(hex_digits()[4] == '4');
        }
        if i == 5 {
            assert(hex_digits()[5] == '5');
        }
        if i == 6 {
            assert(hex_digits()[6] == '6');
        }
        if i == 7 {
            assert(hex_digits()[7] == '7');
        }
        if i == 8 {
            assert(hex_digits()[8] == '8');
        }
        if i == 9 {
            assert(hex_digits()[9] == '9');
        }
        if i == 10 {
            assert(hex_digits()[10] == 'a');
        }
        if i == 11 {
            assert(hex_digits()[11] == 'b');
        }
        if i == 12 {
            assert(hex_digits()[12] == 'c');
        }
        if i == 13 {
            assert(hex_digits()[13] == 'd');
        }
        if i == 14 {
            assert(hex_digits()[14] == 'e');
        }
        if i == 15 {
            assert(hex_digits()[15] == 'f');
        }
        if i == 16 {
            assert(hex_digits()[16] == 'A');
        }
        if i == 17 {
            assert(hex_digits()[17] == 'B');
        }
        if i == 18 {
            assert(hex_digits()[18] == 'C');
        }
        if i == 19 {
            assert(hex_digits()[19] == 'D');
        }
        if i == 20 {
            assert(hex_digits()[20] == 'E');
        }
        if i == 21 {
            assert(hex_digits()[21] == 'F');
        }
    }
}

/// A `#` followed by six listed hex digits is a colour string.
pub proof fn lemma_hash_and_six_digits_is_a_color(s: Seq<char>)
    requires
        s.len() == 7,
        s[0] == '#',
        forall|k: int| 1 <= k < 7 ==> #[trigger] hex_digits().contains(s[k]),
    ensures
        is_hex_color(s),
{
    lemma_hex_digits_are_read();
    assert forall|k: int| 1 <= k < s.len() implies #[trigger] is_hex_char(s[k]) by {
        assert(hex_digits().contains(s[k]));
        let i = choose|i: int| 0 <= i < hex_digits().len() && hex_digits()[i] == s[k];
        assert(is_hex_char(hex_digits()[i]));
    }
}

proof fn lemma_hex_char_byte(c: char)
    requires
        is_hex_char(c),
    ensures
        is_hex_byte(c as u8),
        hex_byte_value(c as u8) == hex_char_value(c),
        0 <= hex_char_value(c) < 16,
{
}

/// Decode one chunk of two hex digits, as the crate does it.
fn decode_pair(chunk: &str) -> (byte: u8)
    requires
        chunk@.len() == 2,
        is_hex_char(chunk@[0]),
        is_hex_char(chunk@[1]),
    ensures
        byte == (16 * hex_char_value(chunk@[0]) + hex_char_value(chunk@[1])) as u8,
{
    proof {
        broadcast use vstd::string::is_ascii_spec_bytes;
        lemma_hex_char_byte(chunk@[0]);
        lemma_hex_char_byte(chunk@[1]);
        assert(vstd::string::is_ascii(chunk));
        assert(chunk.spec_bytes() =~= Seq::new(2, |i: int| chunk@[i] as u8));
    }
    match hex_decode(chunk) {
        Ok(bytes) => {
            proof {
                assert(bytes@ == hex_pairs_value(chunk.spec_bytes()));
                assert(bytes@.len() == 1);
            }
            bytes[0]
        },
        Err(_) => {
            proof {
                assert(is_hex_byte(chunk.spec_bytes()[0]));
                assert(is_hex_byte(chunk.spec_bytes()[1]));
            }
            0
        },
    }
}

/// The red, green and blue bytes of a colour string such as `#96B780`.
/// Every digit pair after the leading character is decoded; the first three
/// give the channels.
pub fn hex_to_rbg(hex_string: &str) -> (rgb: (u8, u8, u8))
    requires
        is_hex_color(hex_string@),
    ensures
        rgb == hex_rgb(hex_string@),
{
    let ghost s = hex_string@;
    let n = hex_string.unicode_len();
    let digits = hex_string.substring_char(1, n);
    let m = n - 1;
    let mut decoded: Vec<u8> = Vec::new();
    let mut i: usize = 0;
    while i < m
        invariant
            s == hex_string@,
            is_hex_color(s),
            m == s.len() - 1,
            digits@ == s.subrange(1, s.len() as int),
            i <= m,
            i % 2 == 0,
            decoded@.len() == i / 2,
            forall|k: int| 0 <= k < decoded@.len() ==> #[trigger] decoded@[k] == hex_channel(s, k),
        decreases m - i,
    {
        let end = if m - i >= 2 {
            i + 2
        } else {
            m
        };
        let chunk = digits.substring_char(i, end);
        proof {
            assert(end == i + 2);
            assert(chunk@[0] == s[1 + i]);
            assert(chunk@[1] == s[2 + i]);
        }
        let byte = decode_pair(chunk);
        decoded.push(byte);
        proof {
            assert(decoded@[(i / 2) as int] == hex_channel(s, (i / 2) as int));
        }
        i = end;
    }
    (decoded[0], decoded[1], decoded[2])
}

/// The colour written in a hex string.
pub fn hex_to_color(hex_string: &str) -> (color: Color)
    requires
        is_hex_color(hex_string@),
    ensures
        color == hex_color(hex_string@),
{
    let decoded = hex_to_rbg(hex_string);
    Color { r: decoded.0, g: decoded.1, b: decoded.2 }
}

/// Every string of the list is a colour string.
pub open spec fn all_hex_colors(hex_strings: Seq<&str>) -> bool {
    forall|i: int| 0 <= i < hex_strings.len() ==> #[trigger] is_hex_color(hex_strings[i]@)
}

/// The colours of a list of colour strings.
pub open spec fn hex_colors(hex_strings: Seq<&str>) -> Seq<Color> {
    Seq::new(hex_strings.len(), |i: int| hex_color(hex_strings[i]@))
}

/// The colours of a list of colour strings, in order.
pub fn vec_hex_to_vec_color(hex_strings: Vec<&str>) -> (colors: Vec<Color>)
    requires
        all_hex_colors(hex_strings@),
    ensures
        colors@ == hex_colors(hex_strings@),
{
    let mut colors: Vec<Color> = Vec::new();
    let mut i: usize = 0;
    while i < hex_strings.len()
        invariant
            all_hex_colors(hex_strings@),
            i <= hex_strings@.len(),
            colors@ =~= hex_colors(hex_strings@.take(i as int)),
        decreases hex_strings@.len() - i,
    {
        let c = hex_to_color(hex_strings[i]);
        colors.push(c);
        i = i + 1;
    }
    proof {
        assert(hex_strings@.take(i as int) =~= hex_strings@);
    }
    colors
}

/// A palette of the colours of a list of colour strings.
pub fn colorset_from_hex_strings(hex_strings: Vec<&str>) -> (set: ColorSet)
    requires
        all_hex_colors(hex_strings@),
    ensures
        set.colors@ == hex_colors(hex_strings@),
{
    ColorSet { colors: vec_hex_to_vec_color(hex_strings) }
}

/// Every list of the lists holds colour strings only.
pub open spec fn all_hex_color_lists(lists: Seq<Vec<&str>>) -> bool {
    forall|i: int| 0 <= i < lists.len() ==> #[trigger] all_hex_colors(lists[i]@)
}

/// One palette per list of colour strings, the first one selected.
pub fn colorsets_from_vec_hex_strings(vec_hex_strings: Vec<Vec<&str>>) -> (sets: ColorSets)
    requires
        all_hex_color_lists(vec_hex_strings@),
    ensures
        sets.n == 0,
        sets.colorsets@.len() == vec_hex_strings@.len(),
        forall|i: int|
            0 <= i < vec_hex_strings@.len() ==> #[trigger] sets.colorsets@[i].colors@ == hex_colors(
                vec_hex_strings@[i]@,
            ),
{
    let mut colorsets: Vec<ColorSet> = Vec::new();
    let mut i: usize = 0;
    while i < vec_hex_strings.len()
        invariant
            all_hex_color_lists(vec_hex_strings@),
            i <= vec_hex_strings@.len(),
            colorsets@.len() == i,
            forall|k: int| 0 <= k < i ==> #[trigger] colorsets@[k].colors@ == hex_colors(
                vec_hex_strings@[k]@,
            ),
        decreases vec_hex_strings@.len() - i,
    {
        let strings = vec_hex_strings[i].clone();
        assert(strings@ == vec_hex_strings@[i as int]@);
        colorsets.push(colorset_from_hex_strings(strings));
        i = i + 1;
    }
    ColorSets { n: 0, colorsets }
}

/// Whether a character is a hex digit.
pub fn is_hex_char_exec(c: char) -> (digit: bool)
    ensures
        digit == is_hex_char(c),
        digit <==> (('0' <= c && c <= '9') || ('a' <= c && c <= 'f') || ('A' <= c && c <= 'F')),
{
    ('0' <= c && c <= '9') || ('a' <= c && c <= 'f') || ('A' <= c && c <= 'F')
}

/// Whether a string is a colour string that the parser takes.
pub fn is_hex_color_str(s: &str) -> (ok: bool)
    ensures
        ok == is_hex_color(s@),
{
    let n = s.unicode_len();
    if n < 7 || (n - 1) % 2 != 0 {
        return false;
    }
    let first = s.get_char(0);
    if !('\0' <= first && first <= '\u{7f}') {
        return false;
    }
    let mut i: usize = 1;
    while i < n
        invariant
            n == s@.len(),
            1 <= i <= n,
            forall|j: int| 1 <= j < i ==> #[trigger] is_hex_char(s@[j]),
        decreases n - i,
    {
        if !is_hex_char_exec(s.get_char(i)) {
            return false;
        }
        i = i + 1;
    }
    true
}

} // verus!
