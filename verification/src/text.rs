//! Text primitives shared by the colour and command parsers: whitespace
//! trimming, ASCII lower case, digits and unsigned number parsing, stated
//! over the characters of a string.

use vstd::prelude::*;

verus! {

/// Unicode `White_Space`, the set that `str::trim` strips.
pub open spec fn spec_is_whitespace(c: char) -> bool {
    let u = c as u32;
    (0x9 <= u <= 0xD) || u == 0x20 || u == 0x85 || u == 0xA0 || u == 0x1680 || (0x2000 <= u
        <= 0x200A) || u == 0x2028 || u == 0x2029 || u == 0x202F || u == 0x205F || u == 0x3000
}

/// `s` without its leading whitespace.
pub open spec fn spec_trim_start(s: Seq<char>) -> Seq<char>
    decreases s.len(),
{
    if s.len() > 0 && spec_is_whitespace(s[0]) {
        spec_trim_start(s.drop_first())
    } else {
        s
    }
}

/// `s` without its trailing whitespace.
pub open spec fn spec_trim_end(s: Seq<char>) -> Seq<char>
    decreases s.len(),
{
    if s.len() > 0 && spec_is_whitespace(s.last()) {
        spec_trim_end(s.drop_last())
    } else {
        s
    }
}

/// `s` without leading and trailing whitespace.
pub open spec fn spec_trim(s: Seq<char>) -> Seq<char> {
    spec_trim_end(spec_trim_start(s))
}

/// Trimming the end keeps a prefix whose last character, if any, is not
/// whitespace; a prefix of a text keeps its first character.
pub proof fn lemma_trim_end_prefix(s: Seq<char>)
    ensures
        spec_trim_end(s).len() <= s.len(),
        spec_trim_end(s) == s.take(spec_trim_end(s).len() as int),
        spec_trim_end(s).len() > 0 ==> !spec_is_whitespace(spec_trim_end(s).last()),
    decreases s.len(),
{
    if s.len() > 0 && spec_is_whitespace(s.last()) {
        lemma_trim_end_prefix(s.drop_last());
        let k = spec_trim_end(s).len() as int;
        assert(s.drop_last().take(k) =~= s.take(k));
    } else {
        assert(s.take(s.len() as int) =~= s);
    }
}

/// Trimming the start keeps a text whose first character, if any, is not
/// whitespace.
pub proof fn lemma_trim_start_first(s: Seq<char>)
    ensures
        spec_trim_start(s).len() > 0 ==> !spec_is_whitespace(spec_trim_start(s)[0]),
    decreases s.len(),
{
    if s.len() > 0 && spec_is_whitespace(s[0]) {
        lemma_trim_start_first(s.drop_first());
    }
}

/// Trimming a trimmed text changes nothing.
pub proof fn lemma_trim_idempotent(s: Seq<char>)
    ensures
        spec_trim(spec_trim(s)) == spec_trim(s),
{
    let a = spec_trim_start(s);
    lemma_trim_start_first(s);
    lemma_trim_end_prefix(a);
    let t = spec_trim_end(a);
    if t.len() > 0 {
        assert(t[0] == a[0]);
        assert(spec_trim_start(t) == t);
        lemma_trim_end_prefix(t);
        assert(spec_trim_end(t) == t);
    } else {
        assert(spec_trim_start(t) == t);
        assert(spec_trim_end(t) == t);
    }
}

/// The value of `c` as a digit in `radix` (10 or 16), if it is one.
pub open spec fn spec_digit_value(c: char, radix: nat) -> Option<nat> {
    let u = c as u32;
    if '0' <= c <= '9' && (u - 48) < radix {
        Some((u - 48) as nat)
    } else if radix == 16 && 'a' <= c <= 'f' {
        Some((u - 87) as nat)
    } else if radix == 16 && 'A' <= c <= 'F' {
        Some((u - 55) as nat)
    } else {
        None
    }
}

/// Whether every character of `s` is a digit in `radix`.
pub open spec fn spec_all_digits(s: Seq<char>, radix: nat) -> bool {
    forall|i: int| 0 <= i < s.len() ==> #[trigger] spec_digit_value(s[i], radix) is Some
}

/// The number that the digits `s` denote in `radix`.
pub open spec fn spec_digits_value(s: Seq<char>, radix: nat) -> nat
    decreases s.len(),
{
    if s.len() == 0 {
        0
    } else {
        spec_digits_value(s.drop_last(), radix) * radix + spec_digit_value(s.last(), radix)->0
    }
}

/// How Rust parses an unsigned integer from `s` in `radix` (as `from_str`
/// and `from_str_radix` do): an optional `+`, then at least one digit, and
/// a value of at most `max`.
pub open spec fn spec_parse_unsigned(s: Seq<char>, radix: nat, max: nat) -> Option<nat> {
    let ds = if s.len() > 0 && s[0] == '+' {
        s.drop_first()
    } else {
        s
    };
    if ds.len() > 0 && spec_all_digits(ds, radix) && spec_digits_value(ds, radix) <= max {
        Some(spec_digits_value(ds, radix))
    } else {
        None
    }
}

/// `u16::from_str` on `s`.
pub open spec fn spec_parse_u16(s: Seq<char>) -> Option<u16> {
    match spec_parse_unsigned(s, 10, 65535) {
        Some(v) => Some(v as u16),
        None => None,
    }
}

/// The characters of `s`, in order.
pub fn chars_of(s: &str) -> (v: Vec<char>)
    ensures
        v@ == s@,
{
    let mut v: Vec<char> = Vec::new();
    for c in it: s.chars()
        invariant
            v@ == it.seq().take(it.index()),
            it.seq() == s@,
    {
        v.push(c);
        assert(v@ =~= it.seq().take(it.index() + 1));
    }
    assert(v@ =~= s@);
    v
}

/// Whether `c` is Unicode whitespace.
pub fn is_whitespace(c: char) -> (r: bool)
    ensures
        r == spec_is_whitespace(c),
{
    let u = c as u32;
    (0x9 <= u && u <= 0xD) || u == 0x20 || u == 0x85 || u == 0xA0 || u == 0x1680 || (0x2000 <= u
        && u <= 0x200A) || u == 0x2028 || u == 0x2029 || u == 0x202F || u == 0x205F || u == 0x3000
}

/// The bounds `(a, b)` such that `v[a..b]` is `v[start..end]` trimmed.
pub fn trim_range(v: &Vec<char>, start: usize, end: usize) -> (r: (usize, usize))
    requires
        start <= end <= v.len(),
    ensures
        start <= r.0 <= r.1 <= end,
        v@.subrange(r.0 as int, r.1 as int) == spec_trim(v@.subrange(start as int, end as int)),
{
    let ghost s = v@.subrange(start as int, end as int);
    let mut a: usize = start;
    while a < end && is_whitespace(v[a])
        invariant
            start <= a <= end <= v.len(),
            s == v@.subrange(start as int, end as int),
            spec_trim_start(s) == spec_trim_start(v@.subrange(a as int, end as int)),
        decreases end - a,
    {
        assert(v@.subrange(a as int, end as int).drop_first() =~= v@.subrange(a + 1, end as int));
        a = a + 1;
    }
    assert(spec_trim_start(s) == v@.subrange(a as int, end as int));
    let mut b: usize = end;
    while b > a && is_whitespace(v[b - 1])
        invariant
            start <= a <= b <= end <= v.len(),
            spec_trim(s) == spec_trim_end(v@.subrange(a as int, b as int)),
        decreases b - a,
    {
        assert(v@.subrange(a as int, b as int).drop_last() =~= v@.subrange(a as int, b - 1));
        b = b - 1;
    }
    (a, b)
}

/// A prefix of a digit string denotes no larger a number than the whole.
pub proof fn lemma_digits_value_prefix(s: Seq<char>, radix: nat, k: int)
    requires
        0 <= k <= s.len(),
        radix >= 1,
    ensures
        spec_digits_value(s.take(k), radix) <= spec_digits_value(s, radix),
    decreases s.len(),
{
    if k < s.len() {
        assert(s.drop_last().take(k) =~= s.take(k));
        lemma_digits_value_prefix(s.drop_last(), radix, k);
        let p = spec_digits_value(s.drop_last(), radix);
        assert(p * radix >= p) by (nonlinear_arith)
            requires
                radix >= 1,
        ;
    } else {
        assert(s.take(k) =~= s);
    }
}

/// The value of `c` as a digit in `radix` (10 or 16).
pub fn digit_value(c: char, radix: u32) -> (r: Option<u32>)
    requires
        radix == 10 || radix == 16,
    ensures
        match spec_digit_value(c, radix as nat) {
            Some(d) => r == Some(d as u32),
            None => r is None,
        },
{
    let u = c as u32;
    if '0' <= c && c <= '9' && (u - 48) < radix {
        Some(u - 48)
    } else if radix == 16 && 'a' <= c && c <= 'f' {
        Some(u - 87)
    } else if radix == 16 && 'A' <= c && c <= 'F' {
        Some(u - 55)
    } else {
        None
    }
}

/// Parses `v[start..end]` as an unsigned number in `radix` no larger than
/// `max`, as Rust's integer parsing does.
pub fn parse_unsigned(v: &Vec<char>, start: usize, end: usize, radix: u32, max: u32) -> (r: Option<
    u32,
>)
    requires
        start <= end <= v.len(),
        radix == 10 || radix == 16,
        max <= 65535,
    ensures
        match spec_parse_unsigned(v@.subrange(start as int, end as int), radix as nat, max as nat) {
            Some(n) => r == Some(n as u32),
            None => r is None,
        },
{
    let ghost s = v@.subrange(start as int, end as int);
    let mut ds: usize = start;
    if start < end && v[start] == '+' {
        ds = start + 1;
    }
    let ghost d = v@.subrange(ds as int, end as int);
    assert(d == (if s.len() > 0 && s[0] == '+' {
        s.drop_first()
    } else {
        s
    }));
    if ds == end {
        return None;
    }
    let mut acc: u32 = 0;
    let mut i: usize = ds;
    while i < end
        invariant
            ds <= i <= end <= v.len(),
            radix == 10 || radix == 16,
            max <= 65535,
            d == v@.subrange(ds as int, end as int),
            d.len() > 0,
            spec_parse_unsigned(v@.subrange(start as int, end as int), radix as nat, max as nat) == (
            if spec_all_digits(d, radix as nat) && spec_digits_value(d, radix as nat) <= max {
                Some(spec_digits_value(d, radix as nat))
            } else {
                None
            }),
            acc <= max,
            acc == spec_digits_value(d.take(i - ds), radix as nat),
            spec_all_digits(d.take(i - ds), radix as nat),
        decreases end - i,
    {
        let dv = digit_value(v[i], radix);
        match dv {
            None => {
                assert(spec_digit_value(d[i - ds], radix as nat) is None);
                assert(!spec_all_digits(d, radix as nat));
                return None;
            },
            Some(dig) => {
                assert(d.take(i - ds + 1).drop_last() =~= d.take(i - ds));
                assert(d.take(i - ds + 1).last() == d[i - ds]);
                assert(acc * radix + dig <= 65535 * 16 + 15) by (nonlinear_arith)
                    requires
                        acc <= 65535,
                        radix <= 16,
                        dig < 16,
                ;
                let next: u32 = acc * radix + dig;
                assert(spec_digits_value(d.take(i - ds + 1), radix as nat) == next);
                if next > max {
                    proof {
                        if spec_all_digits(d, radix as nat) {
                            lemma_digits_value_prefix(d, radix as nat, i - ds + 1);
                        }
                    }
                    return None;
                }
                acc = next;
                i = i + 1;
                assert forall|j: int| 0 <= j < d.take(i - ds).len() implies #[trigger] spec_digit_value(d.take(i - ds)[j], radix as nat) is Some by {
                    if j < i - ds - 1 {
                        assert(d.take(i - ds)[j] == d.take(i - ds - 1)[j]);
                    }
                }
            },
        }
    }
    assert(d.take(i - ds) =~= d);
    Some(acc)
}

/// `u16::from_str` on `v[start..end]`.
pub fn parse_u16(v: &Vec<char>, start: usize, end: usize) -> (r: Option<u16>)
    requires
        start <= end <= v.len(),
    ensures
        r == spec_parse_u16(v@.subrange(start as int, end as int)),
{
    match parse_unsigned(v, start, end, 10, 65535) {
        Some(n) => Some(n as u16),
        None => None,
    }
}

/// The upper-case hexadecimal digit for `d` (`0`-`9`, `A`-`F`).
pub open spec fn spec_hex_digit(d: nat) -> char {
    if d < 10 {
        ((d + 48) as u32) as char
    } else {
        ((d + 55) as u32) as char
    }
}

/// The decimal digits of `n`, without leading zeros.
pub open spec fn spec_decimal(n: nat) -> Seq<char>
    decreases n,
{
    if n < 10 {
        seq![spec_hex_digit(n)]
    } else {
        spec_decimal(n / 10) + seq![spec_hex_digit(n % 10)]
    }
}

/// The one-character text of the digit `d`, upper case above nine.
pub fn digit_str(d: u32) -> (r: &'static str)
    requires
        d < 16,
    ensures
        r@ == seq![spec_hex_digit(d as nat)],
{
    let r = match d {
        0 => {
            proof {
                reveal_strlit("0");
            }
            "0"
        },
        1 => {
            proof {
                reveal_strlit("1");
            }
            "1"
        },
        2 => {
            proof {
                reveal_strlit("2");
            }
            "2"
        },
        3 => {
            proof {
                reveal_strlit("3");
            }
            "3"
        },
        4 => {
            proof {
                reveal_strlit("4");
            }
            "4"
        },
        5 => {
            proof {
                reveal_strlit("5");
            }
            "5"
        },
        6 => {
            proof {
                reveal_strlit("6");
            }
            "6"
        },
        7 => {
            proof {
                reveal_strlit("7");
            }
            "7"
        },
        8 => {
            proof {
                reveal_strlit("8");
            }
            "8"
        },
        9 => {
            proof {
                reveal_strlit("9");
            }
            "9"
        },
        10 => {
            proof {
                reveal_strlit("A");
            }
            "A"
        },
        11 => {
            proof {
                reveal_strlit("B");
            }
            "B"
        },
        12 => {
            proof {
                reveal_strlit("C");
            }
            "C"
        },
        13 => {
            proof {
                reveal_strlit("D");
            }
            "D"
        },
        14 => {
            proof {
                reveal_strlit("E");
            }
            "E"
        },
        _ => {
            proof {
                reveal_strlit("F");
            }
            "F"
        },
    };
    assert(r@ =~= seq![spec_hex_digit(d as nat)]);
    r
}

/// The decimal text of `n`.
pub fn decimal_string(n: u32) -> (r: String)
    ensures
        r@ == spec_decimal(n as nat),
    decreases n,
{
    if n < 10 {
        digit_str(n).to_owned()
    } else {
        let mut s = decimal_string(n / 10);
        s.append(digit_str(n % 10));
        s
    }
}

/// ASCII lower case of `c` (other characters unchanged).
pub open spec fn spec_ascii_lower(c: char) -> char {
    if 'A' <= c <= 'Z' {
        ((c as u32) + 32) as char
    } else {
        c
    }
}

} // verus!
