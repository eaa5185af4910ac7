//! Colours: the `Rgb` triple and the default palette.

use crate::text::{
    chars_of, digit_str, digit_value, lemma_trim_idempotent, spec_ascii_lower, spec_digit_value,
    spec_hex_digit, spec_is_whitespace, spec_trim, spec_trim_end, spec_trim_start, trim_range,
};
use vstd::prelude::*;

verus! {

/// An RGB colour, one byte per channel.
pub type Rgb = (u8, u8, u8);

/// The ten preset colours behind the keys 0 to 9.
pub open spec fn spec_default_palette() -> [Rgb; 10] {
    [
        (0, 0, 0),
        (255, 255, 255),
        (255, 0, 0),
        (0, 255, 0),
        (0, 0, 255),
        (255, 255, 0),
        (255, 0, 255),
        (0, 255, 255),
        (255, 128, 0),
        (128, 0, 255),
    ]
}

/// The default palette: black, white, red, green, blue, yellow, magenta,
/// cyan, orange and purple, in that order.
pub fn default_palette() -> (p: [Rgb; 10])
    ensures
        p@ == spec_default_palette()@,
{
    [
        (0, 0, 0),
        (255, 255, 255),
        (255, 0, 0),
        (0, 255, 0),
        (0, 0, 255),
        (255, 255, 0),
        (255, 0, 255),
        (0, 255, 255),
        (255, 128, 0),
        (128, 0, 255),
    ]
}

/// Whether `s` is a colour written `#RRGGBB`: `#` and six hex digits
/// (either case).
pub open spec fn spec_is_hex_color(s: Seq<char>) -> bool {
    &&& s.len() == 7
    &&& s[0] == '#'
    &&& forall|i: int| 1 <= i < 7 ==> #[trigger] spec_digit_value(s[i], 16) is Some
}

/// The byte written by the hex digits `hi` and `lo`.
pub open spec fn spec_hex_byte(hi: char, lo: char) -> u8 {
    (spec_digit_value(hi, 16)->0 * 16 + spec_digit_value(lo, 16)->0) as u8
}

/// The colour that `input` denotes: once trimmed, `#` and six hex digits,
/// two per channel; `None` for any other text.
pub open spec fn spec_parse_hex(input: Seq<char>) -> Option<Rgb> {
    let s = spec_trim(input);
    if spec_is_hex_color(s) {
        Some((spec_hex_byte(s[1], s[2]), spec_hex_byte(s[3], s[4]), spec_hex_byte(s[5], s[6])))
    } else {
        None
    }
}

/// The byte written by the hex digits at `v[i]` and `v[i + 1]`, if both
/// are hex digits.
fn hex_byte_at(v: &Vec<char>, i: usize) -> (r: Option<u8>)
    requires
        i + 1 < v.len(),
    ensures
        r is Some <==> (spec_digit_value(v@[i as int], 16) is Some && spec_digit_value(
            v@[i + 1],
            16,
        ) is Some),
        r is Some ==> r->0 == spec_hex_byte(v@[i as int], v@[i + 1]),
{
    match (digit_value(v[i], 16), digit_value(v[i + 1], 16)) {
        (Some(h), Some(l)) => Some((h * 16 + l) as u8),
        _ => None,
    }
}

/// Reads the colour written in `v[start..end]`, as `spec_parse_hex` says.
pub fn scan_hex(v: &Vec<char>, start: usize, end: usize) -> (r: Option<Rgb>)
    requires
        start <= end <= v.len(),
    ensures
        r == spec_parse_hex(v@.subrange(start as int, end as int)),
{
    let (a, b) = trim_range(v, start, end);
    let ghost s = v@.subrange(a as int, b as int);
    if b - a != 7 || v[a] != '#' {
        proof {
            if b - a == 7 {
                assert(s[0] == v@[a as int]);
            }
        }
        return None;
    }
    assert(forall|i: int| 0 <= i < 7 ==> #[trigger] s[i] == v@[a + i]);
    let r = hex_byte_at(v, a + 1);
    let g = hex_byte_at(v, a + 3);
    let bl = hex_byte_at(v, a + 5);
    match (r, g, bl) {
        (Some(r), Some(g), Some(bl)) => {
            assert(spec_is_hex_color(s)) by {
                assert forall|i: int| 1 <= i < 7 implies #[trigger] spec_digit_value(s[i], 16) is Some by {
                    assert(s[i] == v@[a + i]);
                }
            }
            Some((r, g, bl))
        },
        _ => {
            proof {
                if spec_is_hex_color(s) {
                    assert(spec_digit_value(s[1], 16) is Some);
                    assert(spec_digit_value(s[2], 16) is Some);
                    assert(spec_digit_value(s[3], 16) is Some);
                    assert(spec_digit_value(s[4], 16) is Some);
                    assert(spec_digit_value(s[5], 16) is Some);
                    assert(spec_digit_value(s[6], 16) is Some);
                }
            }
            None
        },
    }
}

/// Reads a colour written `#RRGGBB` (surrounding whitespace allowed, hex
/// digits in either case); `None` when the text is not such a colour.
pub fn parse_hex(input: &str) -> (r: Option<Rgb>)
    ensures
        r == spec_parse_hex(input@),
{
    let v = chars_of(input);
    assert(v@.subrange(0, v@.len() as int) =~= input@);
    scan_hex(&v, 0, v.len())
}

/// The two upper-case hex digits of a byte.
pub open spec fn spec_byte_hex(b: u8) -> Seq<char> {
    seq![spec_hex_digit((b / 16) as nat), spec_hex_digit((b % 16) as nat)]
}

/// `#RRGGBB` in upper-case hex.
pub open spec fn spec_rgb_to_hex(c: Rgb) -> Seq<char> {
    seq!['#'] + spec_byte_hex(c.0) + spec_byte_hex(c.1) + spec_byte_hex(c.2)
}

/// Appends the two hex digits of `b` to `s`.
fn push_byte_hex(s: &mut String, b: u8)
    ensures
        final(s)@ == old(s)@ + spec_byte_hex(b),
{
    s.append(digit_str((b / 16) as u32));
    s.append(digit_str((b % 16) as u32));
    assert(s@ =~= old(s)@ + spec_byte_hex(b));
}

/// Writes a colour as `#RRGGBB` with upper-case digits.
pub fn rgb_to_hex(color: Rgb) -> (r: String)
    ensures
        r@ == spec_rgb_to_hex(color),
{
    proof {
        reveal_strlit("#");
    }
    let mut s = "#".to_owned();
    push_byte_hex(&mut s, color.0);
    push_byte_hex(&mut s, color.1);
    push_byte_hex(&mut s, color.2);
    assert(s@ =~= spec_rgb_to_hex(color));
    s
}

/// Whitespace around a colour changes nothing.
pub proof fn law_hex_ignores_surrounding_whitespace(input: Seq<char>)
    ensures
        spec_parse_hex(input) == spec_parse_hex(spec_trim(input)),
{
    lemma_trim_idempotent(input);
}

/// A digit written by `spec_hex_digit` reads back as its value, also when
/// lower-cased.
pub proof fn lemma_hex_digit_value(d: nat)
    requires
        d < 16,
    ensures
        spec_digit_value(spec_hex_digit(d), 16) == Some(d),
        spec_digit_value(spec_ascii_lower(spec_hex_digit(d)), 16) == Some(d),
        !spec_is_whitespace(spec_hex_digit(d)),
        !spec_is_whitespace(spec_ascii_lower(spec_hex_digit(d))),
{
}

/// `s` with its ASCII letters in lower case.
pub open spec fn spec_lower_text(s: Seq<char>) -> Seq<char> {
    s.map_values(|c: char| spec_ascii_lower(c))
}

/// Writing a colour as `#RRGGBB` and reading it back gives the colour, and
/// so does reading the text in lower case.
pub proof fn law_parse_hex_inverts_rgb_to_hex(c: Rgb)
    ensures
        spec_parse_hex(spec_rgb_to_hex(c)) == Some(c),
        spec_parse_hex(spec_lower_text(spec_rgb_to_hex(c))) == Some(c),
{
    let s = spec_rgb_to_hex(c);
    let l = spec_lower_text(s);
    lemma_hex_digit_value((c.0 / 16) as nat);
    lemma_hex_digit_value((c.0 % 16) as nat);
    lemma_hex_digit_value((c.1 / 16) as nat);
    lemma_hex_digit_value((c.1 % 16) as nat);
    lemma_hex_digit_value((c.2 / 16) as nat);
    lemma_hex_digit_value((c.2 % 16) as nat);
    assert(s.len() == 7);
    assert(s[0] == '#');
    assert(s[1] == spec_hex_digit((c.0 / 16) as nat) && s[2] == spec_hex_digit((c.0 % 16) as nat));
    assert(s[3] == spec_hex_digit((c.1 / 16) as nat) && s[4] == spec_hex_digit((c.1 % 16) as nat));
    assert(s[5] == spec_hex_digit((c.2 / 16) as nat) && s[6] == spec_hex_digit((c.2 % 16) as nat));
    assert(spec_trim_start(s) == s);
    assert(spec_trim_end(s) == s);
    assert(spec_is_hex_color(s));
    assert(l.len() == 7);
    assert(l[0] == '#');
    assert(forall|i: int| 0 <= i < 7 ==> #[trigger] l[i] == spec_ascii_lower(s[i]));
    assert(spec_trim_start(l) == l);
    assert(spec_trim_end(l) == l);
    assert(spec_is_hex_color(l));
}

} // verus!
