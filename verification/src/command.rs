//! The command language typed after `:` in command mode.

use crate::color::{scan_hex, spec_lower_text, spec_parse_hex, Rgb};
use crate::text::{
    chars_of, lemma_trim_idempotent, parse_u16, spec_ascii_lower, spec_parse_u16, spec_trim, trim_range,
};
use vstd::prelude::*;

verus! {

/// A parsed command.
#[derive(Debug, PartialEq)]
pub enum Command {
    /// Show the help panel.
    Help,
    /// Save the canvas (file name optional, `canvas.json` by default).
    Save(Option<String>),
    /// Load a canvas (file name optional, `canvas.json` by default).
    Load(Option<String>),
    /// Export the canvas as a PNG image (file name optional, `canvas.png`
    /// by default).
    Export(Option<String>),
    /// Import a PNG image as the canvas (file name required).
    Import(String),
    /// Leave the program.
    Quit,
    /// Paint the pixel `(x, y)` with a colour.
    Paint(u16, u16, Rgb),
    /// Undo the last operation.
    Undo,
    /// Redo the last undone operation.
    Redo,
    /// Report the colour at `(x, y)`.
    Color(u16, u16),
    /// Erase the whole canvas.
    Clear,
    /// Make a colour the brush colour.
    SetBrushColor(Rgb),
}

/// A command with its file names taken as character sequences.
pub enum CommandView {
    Help,
    Save(Option<Seq<char>>),
    Load(Option<Seq<char>>),
    Export(Option<Seq<char>>),
    Import(Seq<char>),
    Quit,
    Paint(u16, u16, Rgb),
    Undo,
    Redo,
    Color(u16, u16),
    Clear,
    SetBrushColor(Rgb),
}

/// The view of an optional file name.
pub open spec fn spec_name_view(n: Option<String>) -> Option<Seq<char>> {
    match n {
        Some(s) => Some(s@),
        None => None,
    }
}

impl View for Command {
    type V = CommandView;

    open spec fn view(&self) -> CommandView {
        match self {
            Command::Help => CommandView::Help,
            Command::Save(n) => CommandView::Save(spec_name_view(*n)),
            Command::Load(n) => CommandView::Load(spec_name_view(*n)),
            Command::Export(n) => CommandView::Export(spec_name_view(*n)),
            Command::Import(n) => CommandView::Import(n@),
            Command::Quit => CommandView::Quit,
            Command::Paint(x, y, c) => CommandView::Paint(*x, *y, *c),
            Command::Undo => CommandView::Undo,
            Command::Redo => CommandView::Redo,
            Command::Color(x, y) => CommandView::Color(*x, *y),
            Command::Clear => CommandView::Clear,
            Command::SetBrushColor(c) => CommandView::SetBrushColor(*c),
        }
    }
}

/// The index of the first space in `s` (its length when there is none).
pub open spec fn spec_first_space(s: Seq<char>) -> nat
    decreases s.len(),
{
    if s.len() == 0 || s[0] == ' ' {
        0
    } else {
        1 + spec_first_space(s.drop_first())
    }
}

/// `s.splitn(n, ' ')`: at most `n` pieces cut at single spaces, the last
/// piece keeping the rest of the text.
pub open spec fn spec_split_space(s: Seq<char>, n: nat) -> Seq<Seq<char>>
    decreases n,
{
    let i = spec_first_space(s) as int;
    if n <= 1 || i == s.len() {
        seq![s]
    } else {
        seq![s.take(i)] + spec_split_space(s.skip(i + 1), (n - 1) as nat)
    }
}

/// Whether `s` in lower case is the (lower-case ASCII) keyword `kw`.
///
/// For the keywords of this language this is what `to_lowercase() == kw`
/// decides: the only non-ASCII character that lower-cases into ASCII is the
/// Kelvin sign (to `k`), and no keyword holds a `k`.
pub open spec fn spec_is_keyword(s: Seq<char>, kw: Seq<char>) -> bool {
    s.len() == kw.len() && forall|i: int| 0 <= i < s.len() ==> #[trigger] spec_ascii_lower(s[i]) == kw[i]
}

/// The command that a colour reading gives: `f` of the colour, if any.
pub open spec fn spec_color_command(o: Option<Rgb>, f: spec_fn(Rgb) -> CommandView) -> Option<
    CommandView,
> {
    match o {
        None => None,
        Some(c) => Some(f(c)),
    }
}

/// The command read from `input`, if any. The text is trimmed; a line
/// starting with `#` is a brush colour; otherwise the line is cut at single
/// spaces into at most four pieces, the first (in any case) naming the
/// command and the others its arguments.
pub open spec fn spec_parse_command(input: Seq<char>) -> Option<CommandView> {
    let t = spec_trim(input);
    if t.len() == 0 {
        None
    } else if t[0] == '#' {
        spec_color_command(spec_parse_hex(t), |c: Rgb| CommandView::SetBrushColor(c))
    } else {
        let parts = spec_split_space(t, 4);
        let name = parts[0];
        let arg = |i: int|
            if parts.len() > i {
                Some(parts[i])
            } else {
                None
            };
        if spec_is_keyword(name, seq!['h', 'e', 'l', 'p']) {
            Some(CommandView::Help)
        } else if spec_is_keyword(name, seq!['s', 'a', 'v', 'e']) {
            Some(CommandView::Save(arg(1)))
        } else if spec_is_keyword(name, seq!['l', 'o', 'a', 'd']) {
            Some(CommandView::Load(arg(1)))
        } else if spec_is_keyword(name, seq!['e', 'x', 'p', 'o', 'r', 't']) {
            Some(CommandView::Export(arg(1)))
        } else if spec_is_keyword(name, seq!['i', 'm', 'p', 'o', 'r', 't']) {
            if parts.len() < 2 {
                None
            } else {
                Some(CommandView::Import(parts[1]))
            }
        } else if spec_is_keyword(name, seq!['q', 'u', 'i', 't']) || spec_is_keyword(
            name,
            seq!['q'],
        ) {
            Some(CommandView::Quit)
        } else if spec_is_keyword(name, seq!['p', 'a', 'i', 'n', 't']) {
            if parts.len() < 4 {
                None
            } else {
                match (spec_parse_u16(parts[1]), spec_parse_u16(parts[2])) {
                    (Some(x), Some(y)) => spec_color_command(
                        spec_parse_hex(parts[3]),
                        |c: Rgb| CommandView::Paint(x, y, c),
                    ),
                    _ => None,
                }
            }
        } else if spec_is_keyword(name, seq!['u', 'n', 'd', 'o']) {
            Some(CommandView::Undo)
        } else if spec_is_keyword(name, seq!['r', 'e', 'd', 'o']) {
            Some(CommandView::Redo)
        } else if spec_is_keyword(name, seq!['c', 'o', 'l', 'o', 'r']) {
            if parts.len() < 3 {
                None
            } else {
                match (spec_parse_u16(parts[1]), spec_parse_u16(parts[2])) {
                    (Some(x), Some(y)) => Some(CommandView::Color(x, y)),
                    _ => None,
                }
            }
        } else if spec_is_keyword(name, seq!['c', 'l', 'e', 'a', 'r']) {
            Some(CommandView::Clear)
        } else {
            None
        }
    }
}

/// Whitespace around a command line changes nothing: the line is read as
/// its trimmed text.
pub proof fn law_command_ignores_surrounding_whitespace(input: Seq<char>)
    ensures
        spec_parse_command(input) == spec_parse_command(spec_trim(input)),
{
    lemma_trim_idempotent(input);
}

/// A line that starts with `#` (once trimmed) sets the brush colour that it
/// denotes, and is no command when it denotes none.
pub proof fn law_colour_line_sets_brush(input: Seq<char>)
    requires
        spec_trim(input).len() > 0,
        spec_trim(input)[0] == '#',
    ensures
        spec_parse_command(input) == match spec_parse_hex(spec_trim(input)) {
            Some(c) => Some(CommandView::SetBrushColor(c)),
            None => None,
        },
{
}

/// Two words that agree once lower-cased are the same keyword.
proof fn lemma_keyword_any_case(a: Seq<char>, b: Seq<char>, kw: Seq<char>)
    requires
        spec_lower_text(a) == spec_lower_text(b),
    ensures
        spec_is_keyword(a, kw) == spec_is_keyword(b, kw),
{
    assert(a.len() == spec_lower_text(a).len());
    assert(b.len() == spec_lower_text(b).len());
    assert forall|i: int| 0 <= i < a.len() implies spec_ascii_lower(a[i]) == spec_ascii_lower(b[i]) by {
        assert(spec_lower_text(a)[i] == spec_lower_text(b)[i]);
        assert(spec_lower_text(a)[i] == spec_ascii_lower(a[i]));
        assert(spec_lower_text(b)[i] == spec_ascii_lower(b[i]));
    }
}

/// The command word matches in any case while the arguments keep theirs:
/// two lines cut into the same pieces, except for a command word that
/// differs only in the case of its ASCII letters, read the same (neither
/// starting with `#`).
pub proof fn law_command_word_any_case(s1: Seq<char>, s2: Seq<char>)
    requires
        spec_trim(s1).len() > 0 && spec_trim(s1)[0] != '#',
        spec_trim(s2).len() > 0 && spec_trim(s2)[0] != '#',
        spec_split_space(spec_trim(s1), 4).len() == spec_split_space(spec_trim(s2), 4).len(),
        spec_lower_text(spec_split_space(spec_trim(s1), 4)[0]) == spec_lower_text(
            spec_split_space(spec_trim(s2), 4)[0],
        ),
        forall|i: int|
            1 <= i < spec_split_space(spec_trim(s1), 4).len() ==> #[trigger] spec_split_space(
                spec_trim(s1),
                4,
            )[i] == spec_split_space(spec_trim(s2), 4)[i],
    ensures
        spec_parse_command(s1) == spec_parse_command(s2),
{
    let n1 = spec_split_space(spec_trim(s1), 4)[0];
    let n2 = spec_split_space(spec_trim(s2), 4)[0];
    lemma_keyword_any_case(n1, n2, seq!['h', 'e', 'l', 'p']);
    lemma_keyword_any_case(n1, n2, seq!['s', 'a', 'v', 'e']);
    lemma_keyword_any_case(n1, n2, seq!['l', 'o', 'a', 'd']);
    lemma_keyword_any_case(n1, n2, seq!['e', 'x', 'p', 'o', 'r', 't']);
    lemma_keyword_any_case(n1, n2, seq!['i', 'm', 'p', 'o', 'r', 't']);
    lemma_keyword_any_case(n1, n2, seq!['q', 'u', 'i', 't']);
    lemma_keyword_any_case(n1, n2, seq!['q']);
    lemma_keyword_any_case(n1, n2, seq!['p', 'a', 'i', 'n', 't']);
    lemma_keyword_any_case(n1, n2, seq!['u', 'n', 'd', 'o']);
    lemma_keyword_any_case(n1, n2, seq!['r', 'e', 'd', 'o']);
    lemma_keyword_any_case(n1, n2, seq!['c', 'o', 'l', 'o', 'r']);
    lemma_keyword_any_case(n1, n2, seq!['c', 'l', 'e', 'a', 'r']);
    let p1 = spec_split_space(spec_trim(s1), 4);
    let p2 = spec_split_space(spec_trim(s2), 4);
    if p1.len() > 1 {
        assert(p1[1] == p2[1]);
    }
    if p1.len() > 2 {
        assert(p1[2] == p2[2]);
    }
    if p1.len() > 3 {
        assert(p1[3] == p2[3]);
    }
}

/// The index of the first space in `v[start..end]`, or `end`.
fn first_space(v: &Vec<char>, start: usize, end: usize) -> (j: usize)
    requires
        start <= end <= v.len(),
    ensures
        start <= j <= end,
        j - start == spec_first_space(v@.subrange(start as int, end as int)),
{
    let mut j: usize = start;
    while j < end && v[j] != ' '
        invariant
            start <= j <= end <= v.len(),
            spec_first_space(v@.subrange(start as int, end as int)) == (j - start)
                + spec_first_space(v@.subrange(j as int, end as int)),
        decreases end - j,
    {
        assert(v@.subrange(j as int, end as int).drop_first() =~= v@.subrange(j + 1, end as int));
        j = j + 1;
    }
    j
}

/// The pieces of `v[start..end].splitn(4, ' ')`, as index ranges.
fn split_parts(v: &Vec<char>, start: usize, end: usize) -> (r: Vec<(usize, usize)>)
    requires
        start <= end <= v.len(),
    ensures
        r.len() == spec_split_space(v@.subrange(start as int, end as int), 4).len(),
        forall|i: int|
            0 <= i < r.len() ==> start <= #[trigger] r[i].0 <= r[i].1 <= end && v@.subrange(
                r[i].0 as int,
                r[i].1 as int,
            ) == spec_split_space(v@.subrange(start as int, end as int), 4)[i],
{
    let ghost whole = spec_split_space(v@.subrange(start as int, end as int), 4);
    let mut parts: Vec<(usize, usize)> = Vec::new();
    let mut cur: usize = start;
    let mut n: usize = 4;
    loop
        invariant_except_break
            1 <= n <= 4,
            parts.len() == 4 - n,
            start <= cur <= end <= v.len(),
            whole == Seq::new(
                parts.len() as nat,
                |i: int| v@.subrange(parts[i].0 as int, parts[i].1 as int),
            ) + spec_split_space(v@.subrange(cur as int, end as int), n as nat),
            forall|i: int| 0 <= i < parts.len() ==> start <= #[trigger] parts[i].0 <= parts[i].1 <= end,
        ensures
            whole == Seq::new(
                parts.len() as nat,
                |i: int| v@.subrange(parts[i].0 as int, parts[i].1 as int),
            ),
            forall|i: int| 0 <= i < parts.len() ==> start <= #[trigger] parts[i].0 <= parts[i].1 <= end,
        decreases n,
    {
        let ghost before = parts@;
        let ghost sub = v@.subrange(cur as int, end as int);
        let j = if n == 1 {
            end
        } else {
            first_space(v, cur, end)
        };
        if j == end {
            parts.push((cur, end));
            proof {
                assert(spec_split_space(sub, n as nat) == seq![sub]);
                assert(whole =~= Seq::new(
                    parts.len() as nat,
                    |i: int| v@.subrange(parts[i].0 as int, parts[i].1 as int),
                ));
            }
            break ;
        }
        parts.push((cur, j));
        proof {
            assert(sub.take(j - cur) =~= v@.subrange(cur as int, j as int));
            assert(sub.skip(j - cur + 1) =~= v@.subrange(j + 1, end as int));
            assert(spec_split_space(sub, n as nat) == seq![sub.take(j - cur)] + spec_split_space(
                sub.skip(j - cur + 1),
                (n - 1) as nat,
            ));
        }
        cur = j + 1;
        n = n - 1;
        proof {
            assert(whole =~= Seq::new(
                parts.len() as nat,
                |i: int| v@.subrange(parts[i].0 as int, parts[i].1 as int),
            ) + spec_split_space(v@.subrange(cur as int, end as int), n as nat));
        }
    }
    parts
}

/// Whether `v[start..end]` in lower case is the keyword `kw`.
pub(crate) fn is_keyword(v: &Vec<char>, start: usize, end: usize, kw: &[char]) -> (r: bool)
    requires
        start <= end <= v.len(),
    ensures
        r == spec_is_keyword(v@.subrange(start as int, end as int), kw@),
{
    let ghost s = v@.subrange(start as int, end as int);
    if end - start != kw.len() {
        return false;
    }
    let mut i: usize = 0;
    while i < kw.len()
        invariant
            start <= end <= v.len(),
            end - start == kw@.len(),
            s == v@.subrange(start as int, end as int),
            i <= kw@.len(),
            forall|j: int| 0 <= j < i ==> #[trigger] spec_ascii_lower(s[j]) == kw@[j],
        decreases kw.len() - i,
    {
        let c = v[start + i];
        assert(s[i as int] == c);
        let lower = if 'A' <= c && c <= 'Z' {
            ((c as u32) + 32) as u8 as char
        } else {
            c
        };
        assert(lower == spec_ascii_lower(c)) by {
            if 'A' <= c && c <= 'Z' {
                assert(((c as u32) + 32) as u8 as char == ((c as u32) + 32) as char);
            }
        }
        if lower != kw[i] {
            return false;
        }
        i = i + 1;
    }
    true
}

/// The view of an optional command.
pub open spec fn spec_command_opt_view(c: Option<Command>) -> Option<CommandView> {
    match c {
        Some(cmd) => Some(cmd@),
        None => None,
    }
}

/// The text of `input` between the character indices `from` and `to`.
fn piece(input: &str, from: usize, to: usize) -> (r: String)
    requires
        from <= to <= input@.len(),
    ensures
        r@ == input@.subrange(from as int, to as int),
{
    input.substring_char(from, to).to_owned()
}

/// The argument piece `i` of a split line, as text, if there is one.
fn arg_piece(input: &str, parts: &Vec<(usize, usize)>, i: usize) -> (r: Option<String>)
    requires
        forall|j: int| 0 <= j < parts.len() ==> #[trigger] parts[j].0 <= parts[j].1 <= input@.len(),
    ensures
        r is Some <==> parts.len() > i,
        r matches Some(s) ==> s@ == input@.subrange(parts[i as int].0 as int, parts[i as int].1 as int),
{
    if parts.len() > i {
        Some(piece(input, parts[i].0, parts[i].1))
    } else {
        None
    }
}

/// Reads a command line (without the leading `:`). Surrounding whitespace
/// is ignored; a line starting with `#` sets the brush colour; otherwise the
/// first word (any case) names the command and the following words, split
/// at single spaces, are its arguments. `None` for anything else.
pub fn parse_command(input: &str) -> (r: Option<Command>)
    ensures
        spec_command_opt_view(r) == spec_parse_command(input@),
{
    let v = chars_of(input);
    let len = v.len();
    assert(v@.subrange(0, len as int) =~= input@);
    let (a, b) = trim_range(&v, 0, len);
    let ghost t = v@.subrange(a as int, b as int);
    if a == b {
        return None;
    }
    assert(t[0] == v[a as int]);
    if v[a] == '#' {
        return match scan_hex(&v, a, b) {
            None => None,
            Some(rgb) => Some(Command::SetBrushColor(rgb)),
        };
    }
    let parts = split_parts(&v, a, b);
    let ghost sp = spec_split_space(t, 4);
    assert(sp.len() >= 1);
    assert(v@ == input@);
    let n0 = parts[0].0;
    let n1 = parts[0].1;
    if is_keyword(&v, n0, n1, &['h', 'e', 'l', 'p']) {
        return Some(Command::Help);
    }
    if is_keyword(&v, n0, n1, &['s', 'a', 'v', 'e']) {
        return Some(Command::Save(arg_piece(input, &parts, 1)));
    }
    if is_keyword(&v, n0, n1, &['l', 'o', 'a', 'd']) {
        return Some(Command::Load(arg_piece(input, &parts, 1)));
    }
    if is_keyword(&v, n0, n1, &['e', 'x', 'p', 'o', 'r', 't']) {
        return Some(Command::Export(arg_piece(input, &parts, 1)));
    }
    if is_keyword(&v, n0, n1, &['i', 'm', 'p', 'o', 'r', 't']) {
        return match arg_piece(input, &parts, 1) {
            Some(name) => Some(Command::Import(name)),
            None => None,
        };
    }
    if is_keyword(&v, n0, n1, &['q', 'u', 'i', 't']) || is_keyword(&v, n0, n1, &['q']) {
        return Some(Command::Quit);
    }
    if is_keyword(&v, n0, n1, &['p', 'a', 'i', 'n', 't']) {
        if parts.len() < 4 {
            return None;
        }
        let x = parse_u16(&v, parts[1].0, parts[1].1);
        let y = parse_u16(&v, parts[2].0, parts[2].1);
        return match (x, y) {
            (Some(x), Some(y)) => match scan_hex(&v, parts[3].0, parts[3].1) {
                None => None,
                Some(rgb) => Some(Command::Paint(x, y, rgb)),
            },
            _ => None,
        };
    }
    if is_keyword(&v, n0, n1, &['u', 'n', 'd', 'o']) {
        return Some(Command::Undo);
    }
    if is_keyword(&v, n0, n1, &['r', 'e', 'd', 'o']) {
        return Some(Command::Redo);
    }
    if is_keyword(&v, n0, n1, &['c', 'o', 'l', 'o', 'r']) {
        if parts.len() < 3 {
            return None;
        }
        let x = parse_u16(&v, parts[1].0, parts[1].1);
        let y = parse_u16(&v, parts[2].0, parts[2].1);
        return match (x, y) {
            (Some(x), Some(y)) => Some(Command::Color(x, y)),
            _ => None,
        };
    }
    if is_keyword(&v, n0, n1, &['c', 'l', 'e', 'a', 'r']) {
        return Some(Command::Clear);
    }
    None
}

} // verus!
