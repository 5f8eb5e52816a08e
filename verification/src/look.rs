//! Styled text: colours, spans of text with a look, JSON highlighting, and how a
//! selection and the cursor are drawn over styled lines.
use vstd::prelude::*;
use crate::text::{chars_of, string_of, lines_spec, split_lines, views, char_count};
use crate::panels::{Selection, ordered};

verus! {

/// The colours of the interface: the palette's own colours and a few terminal colours.
#[derive(Debug, Clone, Copy, PartialEq, Eq, Structural)]
pub enum Paint {
    Panel,
    SelectedBg,
    Border,
    Text,
    Muted,
    Accent,
    Green,
    Yellow,
    Red,
    Blue,
    TermWhite,
    TermGreen,
    TermYellow,
    TermRed,
    TermLightBlue,
    TermDarkGray,
    TermMagenta,
}

/// The red, green and blue of a palette colour; terminal colours have none.
pub open spec fn paint_rgb_spec(p: Paint) -> Option<(u8, u8, u8)> {
    match p {
        Paint::Panel => Some((30, 30, 35)),
        Paint::SelectedBg => Some((55, 60, 75)),
        Paint::Border => Some((62, 68, 82)),
        Paint::Text => Some((242, 244, 247)),
        Paint::Muted => Some((152, 162, 179)),
        Paint::Accent => Some((255, 138, 95)),
        Paint::Green => Some((47, 209, 124)),
        Paint::Yellow => Some((245, 184, 75)),
        Paint::Red => Some((255, 123, 114)),
        Paint::Blue => Some((96, 165, 250)),
        _ => None,
    }
}

/// The red, green and blue of a palette colour (see `paint_rgb_spec`).
pub fn paint_rgb(p: Paint) -> (r: Option<(u8, u8, u8)>)
    ensures
        r == paint_rgb_spec(p),
{
    match p {
        Paint::Panel => Some((30, 30, 35)),
        Paint::SelectedBg => Some((55, 60, 75)),
        Paint::Border => Some((62, 68, 82)),
        Paint::Text => Some((242, 244, 247)),
        Paint::Muted => Some((152, 162, 179)),
        Paint::Accent => Some((255, 138, 95)),
        Paint::Green => Some((47, 209, 124)),
        Paint::Yellow => Some((245, 184, 75)),
        Paint::Red => Some((255, 123, 114)),
        Paint::Blue => Some((96, 165, 250)),
        _ => None,
    }
}

/// How a span of text is drawn: its colours and whether it is bold or reversed.
#[derive(Debug, Clone, Copy, PartialEq, Eq, Structural)]
pub struct Look {
    pub fg: Option<Paint>,
    pub bg: Option<Paint>,
    pub bold: bool,
    pub reversed: bool,
}

/// A span of text with its look.
#[derive(Debug)]
pub struct Span {
    pub text: String,
    pub look: Look,
}

/// The abstract value of a span: its characters and its look.
pub open spec fn span_view(s: Span) -> (Seq<char>, Look) {
    (s.text@, s.look)
}

pub open spec fn spans_view(v: Seq<Span>) -> Seq<(Seq<char>, Look)> {
    v.map_values(|s: Span| span_view(s))
}

pub open spec fn lines_view(v: Seq<Vec<Span>>) -> Seq<Seq<(Seq<char>, Look)>> {
    v.map_values(|l: Vec<Span>| spans_view(l@))
}

pub open spec fn plain() -> Look {
    Look { fg: None, bg: None, bold: false, reversed: false }
}

pub open spec fn fg(p: Paint) -> Look {
    Look { fg: Some(p), ..plain() }
}

/// The look a plain span starts with.
pub fn plain_look() -> (r: Look)
    ensures
        r == plain(),
{
    Look { fg: None, bg: None, bold: false, reversed: false }
}

/// A span of text.
pub fn span(text: String, look: Look) -> (r: Span)
    ensures
        span_view(r) == (text@, look),
{
    Span { text, look }
}

pub(crate) fn push_span(out: &mut Vec<Span>, s: Span)
    ensures
        spans_view(final(out)@) == spans_view(old(out)@).push(span_view(s)),
{
    let ghost before = spans_view(out@);
    out.push(s);
    assert(spans_view(out@) =~= before.push(span_view(s)));
}

// ---------------------------------------------------------------------------
// JSON highlighting
// ---------------------------------------------------------------------------

/// The characters that end a bare JSON token.
pub open spec fn is_delim(c: char) -> bool {
    c == ' ' || c == '\t' || c == '\r' || c == '\n' || c == '{' || c == '}' || c == '[' || c == ']' || c == ',' || c == ':'
}

/// The characters of a number.
pub open spec fn is_number_char(c: char) -> bool {
    ('0' <= c && c <= '9') || c == '.' || c == '-' || c == 'e' || c == 'E' || c == '+'
}

/// The look of a bare token: booleans yellow, `null` dark grey, numbers magenta, anything
/// else plain.
pub open spec fn token_look(t: Seq<char>) -> Look {
    if t == seq!['t', 'r', 'u', 'e'] || t == seq!['f', 'a', 'l', 's', 'e'] {
        fg(Paint::TermYellow)
    } else if t == seq!['n', 'u', 'l', 'l'] {
        fg(Paint::TermDarkGray)
    } else if forall|i: int| 0 <= i < t.len() ==> is_number_char(#[trigger] t[i]) {
        fg(Paint::TermMagenta)
    } else {
        plain()
    }
}

/// The spans of text outside strings from position `i`, `cur` being the token read so
/// far: each delimiter is a plain span of its own, each token between them takes the
/// token's look.
pub open spec fn bare_spans(t: Seq<char>, i: int, cur: Seq<char>) -> Seq<(Seq<char>, Look)>
    decreases t.len() - i,
{
    if i >= t.len() || i < 0 {
        if cur.len() > 0 { seq![(cur, token_look(cur))] } else { seq![] }
    } else if is_delim(t[i]) {
        (if cur.len() > 0 { seq![(cur, token_look(cur))] } else { seq![] }) + seq![(seq![t[i]], plain())]
            + bare_spans(t, i + 1, seq![])
    } else {
        bare_spans(t, i + 1, cur.push(t[i]))
    }
}

/// Whether the first character after position `j` that is not a space is a colon.
pub open spec fn colon_follows(line: Seq<char>, j: int) -> bool
    decreases line.len() - j,
{
    if j >= line.len() || j < 0 {
        false
    } else if line[j] == ' ' {
        colon_follows(line, j + 1)
    } else {
        line[j] == ':'
    }
}

/// The spans of a line of JSON from position `i`: strings (with their quotes) are green,
/// or light blue when a colon follows them (keys); a backslash escapes the next
/// character; text outside strings is split as `bare_spans` says; a string left open
/// at the end of the line is green.
pub open spec fn json_line(line: Seq<char>, i: int, in_str: bool, esc: bool, cur: Seq<char>) -> Seq<(Seq<char>, Look)>
    decreases line.len() - i,
{
    if i >= line.len() || i < 0 {
        if cur.len() == 0 { seq![] } else if in_str { seq![(cur, fg(Paint::TermGreen))] } else { bare_spans(cur, 0, seq![]) }
    } else if in_str {
        let c = line[i];
        if c == '\\' && !esc {
            json_line(line, i + 1, true, true, cur.push(c))
        } else if c == '"' && !esc {
            seq![(cur.push(c), if colon_follows(line, i + 1) { fg(Paint::TermLightBlue) } else { fg(Paint::TermGreen) })]
                + json_line(line, i + 1, false, false, seq![])
        } else {
            json_line(line, i + 1, true, false, cur.push(c))
        }
    } else if line[i] == '"' {
        (if cur.len() > 0 { bare_spans(cur, 0, seq![]) } else { seq![] }) + json_line(line, i + 1, true, esc, seq![line[i]])
    } else {
        json_line(line, i + 1, false, esc, cur.push(line[i]))
    }
}

/// The highlighted lines of a JSON text.
pub open spec fn json_text(json: Seq<char>) -> Seq<Seq<(Seq<char>, Look)>> {
    lines_spec(json).map_values(|l: Seq<char>| json_line(l, 0, false, false, seq![]))
}

fn is_delim_exec(c: char) -> (r: bool)
    ensures
        r == is_delim(c),
{
    c == ' ' || c == '\t' || c == '\r' || c == '\n' || c == '{' || c == '}' || c == '[' || c == ']' || c == ',' || c == ':'
}

fn token_look_exec(t: &Vec<char>) -> (r: Look)
    ensures
        r == token_look(t@),
{
    let is_true = t.len() == 4 && t[0] == 't' && t[1] == 'r' && t[2] == 'u' && t[3] == 'e';
    let is_false = t.len() == 5 && t[0] == 'f' && t[1] == 'a' && t[2] == 'l' && t[3] == 's' && t[4] == 'e';
    let is_null = t.len() == 4 && t[0] == 'n' && t[1] == 'u' && t[2] == 'l' && t[3] == 'l';
    proof {
        if t@.len() == 4 {
            assert(is_true == (t@ == seq!['t', 'r', 'u', 'e'])) by {
                if t@ == seq!['t', 'r', 'u', 'e'] {} else if is_true { assert(t@ =~= seq!['t', 'r', 'u', 'e']); }
            }
            assert(is_null == (t@ == seq!['n', 'u', 'l', 'l'])) by {
                if t@ == seq!['n', 'u', 'l', 'l'] {} else if is_null { assert(t@ =~= seq!['n', 'u', 'l', 'l']); }
            }
        } else {
            assert(t@ != seq!['t', 'r', 'u', 'e']);
            assert(t@ != seq!['n', 'u', 'l', 'l']);
        }
        if t@.len() == 5 {
            assert(is_false == (t@ == seq!['f', 'a', 'l', 's', 'e'])) by {
                if t@ == seq!['f', 'a', 'l', 's', 'e'] {} else if is_false { assert(t@ =~= seq!['f', 'a', 'l', 's', 'e']); }
            }
        } else {
            assert(t@ != seq!['f', 'a', 'l', 's', 'e']);
        }
    }
    if is_true || is_false {
        return Look { fg: Some(Paint::TermYellow), bg: None, bold: false, reversed: false };
    }
    if is_null {
        return Look { fg: Some(Paint::TermDarkGray), bg: None, bold: false, reversed: false };
    }
    let mut i: usize = 0;
    while i < t.len()
        invariant
            i <= t.len(),
            forall|k: int| 0 <= k < i ==> is_number_char(#[trigger] t@[k]),
            t@ != seq!['t', 'r', 'u', 'e'],
            t@ != seq!['f', 'a', 'l', 's', 'e'],
            t@ != seq!['n', 'u', 'l', 'l'],
        decreases t.len() - i,
    {
        let c = t[i];
        if !(('0' <= c && c <= '9') || c == '.' || c == '-' || c == 'e' || c == 'E' || c == '+') {
            assert(!is_number_char(t@[i as int]));
            return Look { fg: None, bg: None, bold: false, reversed: false };
        }
        i += 1;
    }
    Look { fg: Some(Paint::TermMagenta), bg: None, bold: false, reversed: false }
}

fn bare_into(out: &mut Vec<Span>, t: &Vec<char>)
    ensures
        spans_view(final(out)@) == spans_view(old(out)@) + bare_spans(t@, 0, seq![]),
{
    let ghost start = spans_view(out@);
    let mut cur: Vec<char> = Vec::new();
    let mut i: usize = 0;
    while i < t.len()
        invariant
            i <= t.len(),
            start + bare_spans(t@, 0, seq![]) == spans_view(out@) + bare_spans(t@, i as int, cur@),
        decreases t.len() - i,
    {
        let c = t[i];
        if is_delim_exec(c) {
            if cur.len() > 0 {
                let look = token_look_exec(&cur);
                push_span(out, Span { text: string_of(cur.as_slice()), look });
            }
            let mut one = String::new();
            crate::text::push_char(&mut one, c);
            assert(one@ =~= seq![c]);
            push_span(out, Span { text: one, look: Look { fg: None, bg: None, bold: false, reversed: false } });
            proof {
                let before = if cur@.len() > 0 { seq![(cur@, token_look(cur@))] } else { Seq::<(Seq<char>, Look)>::empty() };
                assert(bare_spans(t@, i as int, cur@) == before + seq![(seq![c], plain())] + bare_spans(t@, i + 1, seq![]));
            }
            cur = Vec::new();
            assert(cur@ =~= Seq::<char>::empty());
        } else {
            cur.push(c);
        }
        i += 1;
    }
    if cur.len() > 0 {
        let look = token_look_exec(&cur);
        push_span(out, Span { text: string_of(cur.as_slice()), look });
    }
}

/// The spans of text outside strings (see `bare_spans`).
pub fn highlight_non_string(text: &str) -> (r: Vec<Span>)
    ensures
        spans_view(r@) == bare_spans(text@, 0, seq![]),
{
    let mut out: Vec<Span> = Vec::new();
    let t = chars_of(text);
    bare_into(&mut out, &t);
    assert(spans_view(out@) =~= bare_spans(text@, 0, seq![]));
    out
}

fn colon_follows_exec(line: &Vec<char>, j: usize) -> (r: bool)
    ensures
        r == colon_follows(line@, j as int),
{
    let mut k = j;
    while k < line.len() && line[k] == ' '
        invariant
            j <= k,
            colon_follows(line@, j as int) == colon_follows(line@, k as int),
        decreases line.len() - k,
    {
        k += 1;
    }
    k < line.len() && line[k] == ':'
}

fn json_line_spans(line: &Vec<char>) -> (r: Vec<Span>)
    ensures
        spans_view(r@) == json_line(line@, 0, false, false, seq![]),
{
    let mut out: Vec<Span> = Vec::new();
    let mut cur: Vec<char> = Vec::new();
    let mut in_str = false;
    let mut esc = false;
    let mut i: usize = 0;
    assert(spans_view(out@) + json_line(line@, 0, false, false, seq![]) =~= json_line(line@, 0, false, false, seq![]));
    while i < line.len()
        invariant
            i <= line.len(),
            spans_view(out@) + json_line(line@, i as int, in_str, esc, cur@) == json_line(line@, 0, false, false, seq![]),
        decreases line.len() - i,
    {
        let c = line[i];
        let ghost before = spans_view(out@);
        let ghost cur0 = cur@;
        let ghost esc0 = esc;
        if in_str {
            cur.push(c);
            if c == '\\' && !esc {
                esc = true;
            } else if c == '"' && !esc {
                in_str = false;
                let key = colon_follows_exec(line, i + 1);
                let look = if key {
                    Look { fg: Some(Paint::TermLightBlue), bg: None, bold: false, reversed: false }
                } else {
                    Look { fg: Some(Paint::TermGreen), bg: None, bold: false, reversed: false }
                };
                push_span(&mut out, Span { text: string_of(cur.as_slice()), look });
                assert(cur@ == cur0.push(c));
                assert(json_line(line@, i as int, true, esc0, cur0) == seq![(cur0.push(c), look)] + json_line(line@, i + 1, false, false, seq![]));
                assert(spans_view(out@) == before.push((cur0.push(c), look)));
                assert(spans_view(out@) + json_line(line@, i + 1, false, false, seq![])
                    =~= before + json_line(line@, i as int, true, esc0, cur0));
                cur = Vec::new();
                assert(cur@ =~= Seq::<char>::empty());
            } else {
                esc = false;
            }
        } else if c == '"' {
            if cur.len() > 0 {
                bare_into(&mut out, &cur);
            }
            proof {
                let b = if cur@.len() > 0 { bare_spans(cur@, 0, seq![]) } else { Seq::<(Seq<char>, Look)>::empty() };
                assert(spans_view(out@) =~= before + b);
                assert(spans_view(out@) + json_line(line@, i + 1, true, esc, seq![c]) =~= before + (b + json_line(line@, i + 1, true, esc, seq![c])));
            }
            in_str = true;
            cur = Vec::new();
            cur.push(c);
            assert(cur@ =~= seq![c]);
        } else {
            cur.push(c);
        }
        i += 1;
    }
    let ghost before = spans_view(out@);
    if cur.len() > 0 {
        if in_str {
            push_span(&mut out, Span { text: string_of(cur.as_slice()), look: Look { fg: Some(Paint::TermGreen), bg: None, bold: false, reversed: false } });
        } else {
            bare_into(&mut out, &cur);
        }
    }
    assert(spans_view(out@) =~= before + json_line(line@, i as int, in_str, esc, cur@));
    out
}

/// Highlights a JSON text line by line (see `json_text`).
pub fn highlight_json(json: &str) -> (r: Vec<Vec<Span>>)
    ensures
        lines_view(r@) == json_text(json@),
{
    let v = chars_of(json);
    let ls = split_lines(v.as_slice());
    let ghost lv = views(ls@);
    let mut out: Vec<Vec<Span>> = Vec::new();
    let mut i: usize = 0;
    while i < ls.len()
        invariant
            i <= ls.len(),
            lv == views(ls@),
            lv == lines_spec(json@),
            lines_view(out@) =~= lv.take(i as int).map_values(|l: Seq<char>| json_line(l, 0, false, false, seq![])),
        decreases ls.len() - i,
    {
        let spans = json_line_spans(&ls[i]);
        let ghost before = lines_view(out@);
        out.push(spans);
        assert(lines_view(out@) =~= before.push(spans_view(spans@)));
        assert(lv[i as int] == ls@[i as int]@);
        assert(lv.take(i + 1).map_values(|l: Seq<char>| json_line(l, 0, false, false, seq![]))
            =~= lv.take(i as int).map_values(|l: Seq<char>| json_line(l, 0, false, false, seq![])).push(json_line(lv[i as int], 0, false, false, seq![])));
        i += 1;
    }
    assert(lv.take(ls.len() as int) =~= lv);
    out
}


// ---------------------------------------------------------------------------
// Selections and the cursor over styled lines
// ---------------------------------------------------------------------------

pub open spec fn reversed(l: Look) -> Look {
    Look { reversed: true, ..l }
}

pub open spec fn clamp_int(v: int, lo: int, hi: int) -> int {
    if v < lo { lo } else if v > hi { hi } else { v }
}

/// A span cut at `a` and `b`: the part before `a` and the part from `b` keep the span's
/// look, the part between them is reversed; empty parts are left out.
pub open spec fn split_span(sp: (Seq<char>, Look), a: int, b: int) -> Seq<(Seq<char>, Look)> {
    let t = sp.0;
    (if a > 0 { seq![(t.take(a), sp.1)] } else { seq![] })
        + (if b > a { seq![(t.subrange(a, b), reversed(sp.1))] } else { seq![] })
        + (if b < t.len() { seq![(t.skip(b), sp.1)] } else { seq![] })
}

/// The spans of a line with the columns `lo..=hi` reversed, the first span starting at
/// column `col`: a span outside the columns is kept, a span inside them is reversed
/// whole, and a span across their ends is cut (see `split_span`).
pub open spec fn select_spans(spans: Seq<(Seq<char>, Look)>, col: int, lo: int, hi: int) -> Seq<(Seq<char>, Look)>
    decreases spans.len(),
{
    if spans.len() == 0 {
        seq![]
    } else {
        let sp = spans[0];
        let n = sp.0.len() as int;
        let e = col + n;
        let here = if e <= lo || col > hi {
            seq![sp]
        } else if col >= lo && e <= hi + 1 {
            seq![(sp.0, reversed(sp.1))]
        } else {
            split_span(sp, clamp_int(lo - col, 0, n), clamp_int(hi + 1 - col, 0, n))
        };
        here + select_spans(spans.drop_first(), e, lo, hi)
    }
}

/// The number of characters of a line of spans.
pub open spec fn width_of(spans: Seq<(Seq<char>, Look)>) -> nat
    decreases spans.len(),
{
    if spans.len() == 0 { 0 } else { spans[0].0.len() + width_of(spans.drop_first()) }
}

/// Styled lines with a selection shown reversed: on the first selected line from the
/// start column, on the last up to and including the end column, whole lines between.
pub open spec fn select_lines(lines: Seq<Seq<(Seq<char>, Look)>>, sel: Option<Selection>) -> Seq<Seq<(Seq<char>, Look)>> {
    match sel {
        None => lines,
        Some(s) => {
            let st = ordered(s).0;
            let en = ordered(s).1;
            Seq::new(lines.len(), |i: int| if i < st.0 || i > en.0 {
                lines[i]
            } else {
                select_spans(lines[i], 0, if i == st.0 { st.1 as int } else { 0 }, if i == en.0 { en.1 as int } else { usize::MAX as int })
            })
        },
    }
}

pub(crate) fn take_chars(v: &Vec<char>, from: usize, to: usize) -> (r: String)
    requires
        from <= to <= v.len(),
    ensures
        r@ == v@.subrange(from as int, to as int),
{
    string_of(&v.as_slice()[from..to])
}

fn select_line(line: Vec<Span>, lo: usize, hi: usize) -> (r: Vec<Span>)
    requires
        width_of(spans_view(line@)) <= usize::MAX,
    ensures
        spans_view(r@) == select_spans(spans_view(line@), 0, lo as int, hi as int),
{
    let ghost lv = spans_view(line@);
    let mut out: Vec<Span> = Vec::new();
    let mut col: usize = 0;
    let mut i: usize = 0;
    let n_spans = line.len();
    assert(lv.skip(0) =~= lv);
    while i < n_spans
        invariant
            n_spans == line.len(),
            i <= n_spans,
            lv == spans_view(line@),
            spans_view(out@) + select_spans(lv.skip(i as int), col as int, lo as int, hi as int) == select_spans(lv, 0, lo as int, hi as int),
            col + width_of(lv.skip(i as int)) == width_of(lv),
            width_of(lv) <= usize::MAX,
        decreases n_spans - i,
    {
        let ghost rest = lv.skip(i as int);
        assert(rest[0] == span_view(line@[i as int]));
        assert(rest.drop_first() =~= lv.skip(i + 1));
        let sp = &line[i];
        let t = chars_of(sp.text.as_str());
        let n = t.len();
        let ghost before = spans_view(out@);
        assert(t@ == rest[0].0);
        let e = col + n;
        if e <= lo || col > hi {
            push_span(&mut out, Span { text: sp.text.clone(), look: sp.look });
        } else if col >= lo && (hi == usize::MAX || e <= hi + 1) {
            push_span(&mut out, Span { text: sp.text.clone(), look: Look { reversed: true, ..sp.look } });
        } else {
            let a = if lo > col { lo - col } else { 0 };
            let b = if hi - col >= n { n } else { hi - col + 1 };
            if a > 0 {
                push_span(&mut out, Span { text: take_chars(&t, 0, a), look: sp.look });
            }
            if b > a {
                push_span(&mut out, Span { text: take_chars(&t, a, b), look: Look { reversed: true, ..sp.look } });
            }
            if b < n {
                push_span(&mut out, Span { text: take_chars(&t, b, n), look: sp.look });
            }
            proof {
                let spv = span_view(line@[i as int]);
                assert(t@.take(a as int) =~= t@.subrange(0, a as int));
                assert(t@.skip(b as int) =~= t@.subrange(b as int, n as int));
                assert(spans_view(out@) =~= before + split_span(spv, clamp_int(lo - col, 0, n as int), clamp_int(hi + 1 - col, 0, n as int)));
            }
        }
        col = e;
        i += 1;
    }
    assert(lv.skip(n_spans as int) =~= Seq::<(Seq<char>, Look)>::empty());
    assert(spans_view(out@) + Seq::<(Seq<char>, Look)>::empty() =~= spans_view(out@));
    out
}

/// Shows a selection over styled lines (see `select_lines`).
pub fn apply_selection(lines: Vec<Vec<Span>>, sel: Option<Selection>) -> (r: Vec<Vec<Span>>)
    requires
        forall|k: int| 0 <= k < lines@.len() ==> width_of(#[trigger] lines_view(lines@)[k]) <= usize::MAX,
    ensures
        lines_view(r@) == select_lines(lines_view(lines@), sel),
{
    let s = match sel {
        Some(s) => s,
        None => return lines,
    };
    let (st, en) = if s.start.0 > s.end.0 || (s.start.0 == s.end.0 && s.start.1 > s.end.1) { (s.end, s.start) } else { (s.start, s.end) };
    let ghost lv = lines_view(lines@);
    let mut out: Vec<Vec<Span>> = Vec::new();
    let mut rest = lines;
    let mut i: usize = 0;
    let total = rest.len();
    assert(lines_view(rest@) =~= lv.skip(0));
    while rest.len() > 0
        invariant
            i + rest@.len() == total,
            total == lv.len(),
            lines_view(rest@) == lv.skip(i as int),
            lines_view(out@) =~= select_lines(lv, sel).take(i as int),
            (st, en) == ordered(s),
            sel == Some(s),
            forall|k: int| 0 <= k < lv.len() ==> width_of(#[trigger] lv[k]) <= usize::MAX,
        decreases rest.len(),
    {
        let ghost rv = lines_view(rest@);
        let line = rest.remove(0);
        assert(rv[0] == spans_view(line@));
        assert(lines_view(rest@) =~= rv.drop_first());
        assert(spans_view(line@) == lv[i as int]);
        let lo = if i == st.0 { st.1 } else { 0 };
        let hi = if i == en.0 { en.1 } else { usize::MAX };
        let new_line = if i < st.0 || i > en.0 { line } else { select_line(line, lo, hi) };
        let ghost before = lines_view(out@);
        out.push(new_line);
        assert(lines_view(out@) =~= before.push(spans_view(new_line@)));
        assert(select_lines(lv, sel).take(i + 1) =~= select_lines(lv, sel).take(i as int).push(select_lines(lv, sel)[i as int]));
        i += 1;
    }
    assert(select_lines(lv, sel).take(total as int) =~= select_lines(lv, sel));
    out
}


/// Whether position `a` comes before position `b` or is it, line first.
pub open spec fn pos_le(a: (int, int), b: (int, int)) -> bool {
    a.0 < b.0 || (a.0 == b.0 && a.1 <= b.1)
}

/// Whether a position lies in a selection, its ends included.
pub open spec fn in_selection(sel: Option<Selection>, pos: (int, int)) -> bool {
    match sel {
        Some(s) => {
            let a = ordered(s).0;
            let b = ordered(s).1;
            pos_le((a.0 as int, a.1 as int), pos) && pos_le(pos, (b.0 as int, b.1 as int))
        },
        None => false,
    }
}

/// The block drawn for the cursor after the last character of a line.
pub open spec fn cursor_block() -> (Seq<char>, Look) {
    (seq![' '], reversed(plain()))
}

/// A line of spans with the cursor drawn on the character at text position `cursor`,
/// `count` being the text position of the line's next span and `col` its column: the
/// span holding it is cut around that character, which is reversed (or shown without
/// reversal inside a selection). Gives the spans, the text position after the line's
/// spans, and whether the cursor was drawn.
pub open spec fn cursor_in_line(spans: Seq<(Seq<char>, Look)>, line: int, count: int, col: int, cursor: int, sel: Option<Selection>)
    -> (Seq<(Seq<char>, Look)>, int, bool)
    decreases spans.len(),
{
    if spans.len() == 0 {
        (seq![], count, false)
    } else {
        let sp = spans[0];
        let n = sp.0.len() as int;
        if count <= cursor && cursor < count + n {
            let k = cursor - count;
            let look = Look { reversed: !in_selection(sel, (line, col + k)), ..sp.1 };
            let pieces = (if k > 0 { seq![(sp.0.take(k), sp.1)] } else { seq![] }) + seq![(seq![sp.0[k]], look)]
                + (if k + 1 < n { seq![(sp.0.skip(k + 1), sp.1)] } else { seq![] });
            (pieces + spans.drop_first(), count + n, true)
        } else {
            let r = cursor_in_line(spans.drop_first(), line, count + n, col + n, cursor, sel);
            (seq![sp] + r.0, r.1, r.2)
        }
    }
}

/// The lines from index `i` with the cursor drawn, `count` being the text position of
/// line `i` (each line is followed by one newline): a cursor at the end of a line is a
/// reversed block after it. Gives the lines and whether the cursor was drawn.
pub open spec fn cursor_lines(lines: Seq<Seq<(Seq<char>, Look)>>, i: int, count: int, cursor: int, sel: Option<Selection>)
    -> (Seq<Seq<(Seq<char>, Look)>>, bool)
    decreases lines.len() - i,
{
    if i >= lines.len() || i < 0 {
        (seq![], false)
    } else {
        let r = cursor_in_line(lines[i], i, count, 0, cursor, sel);
        if r.2 {
            (seq![r.0] + lines.skip(i + 1), true)
        } else if r.1 == cursor {
            (seq![r.0.push(cursor_block())] + lines.skip(i + 1), true)
        } else {
            let rest = cursor_lines(lines, i + 1, r.1 + 1, cursor, sel);
            (seq![r.0] + rest.0, rest.1)
        }
    }
}

/// Styled lines with the cursor drawn at a text position (see `cursor_lines`); a cursor
/// past the text is a block after the last line, or a line of its own when there is none.
pub open spec fn cursor_text(lines: Seq<Seq<(Seq<char>, Look)>>, cursor: int, sel: Option<Selection>) -> Seq<Seq<(Seq<char>, Look)>> {
    let r = cursor_lines(lines, 0, 0, cursor, sel);
    if r.1 {
        r.0
    } else if r.0.len() > 0 {
        r.0.update(r.0.len() - 1, r.0.last().push(cursor_block()))
    } else {
        seq![seq![cursor_block()]]
    }
}

fn in_selection_exec(sel: Option<Selection>, pos: (usize, usize)) -> (r: bool)
    ensures
        r == in_selection(sel, (pos.0 as int, pos.1 as int)),
{
    match sel {
        Some(s) => {
            let (a, b) = if s.start.0 > s.end.0 || (s.start.0 == s.end.0 && s.start.1 > s.end.1) { (s.end, s.start) } else { (s.start, s.end) };
            (a.0 < pos.0 || (a.0 == pos.0 && a.1 <= pos.1)) && (pos.0 < b.0 || (pos.0 == b.0 && pos.1 <= b.1))
        },
        None => false,
    }
}

/// Draws the cursor in one line; gives the text position after the line's spans and
/// whether the cursor was drawn.
fn cursor_line(line: Vec<Span>, li: usize, count: usize, cursor: usize, sel: Option<Selection>) -> (r: (Vec<Span>, usize, bool))
    requires
        count <= cursor,
    ensures
        spans_view(r.0@) == cursor_in_line(spans_view(line@), li as int, count as int, 0, cursor as int, sel).0,
        r.2 == cursor_in_line(spans_view(line@), li as int, count as int, 0, cursor as int, sel).2,
        !r.2 ==> r.1 as int == cursor_in_line(spans_view(line@), li as int, count as int, 0, cursor as int, sel).1 && r.1 <= cursor,
{
    let ghost lv = spans_view(line@);
    let mut out: Vec<Span> = Vec::new();
    let mut rest = line;
    let mut c = count;
    let mut col: usize = 0;
    let ghost mut i: int = 0;
    assert(spans_view(rest@) =~= lv.skip(0));
    assert(spans_view(out@) + cursor_in_line(lv, li as int, count as int, 0, cursor as int, sel).0
        =~= cursor_in_line(lv, li as int, count as int, 0, cursor as int, sel).0);
    while rest.len() > 0
        invariant
            0 <= i <= lv.len(),
            lv == spans_view(line@),
            spans_view(rest@) == lv.skip(i),
            count <= c <= cursor,
            col as int == c - count,
            ({
                let r = cursor_in_line(lv.skip(i), li as int, c as int, col as int, cursor as int, sel);
                let whole = cursor_in_line(lv, li as int, count as int, 0, cursor as int, sel);
                &&& spans_view(out@) + r.0 == whole.0
                &&& r.1 == whole.1
                &&& r.2 == whole.2
            }),
        decreases rest.len(),
    {
        let ghost rv = spans_view(rest@);
        let sp = rest.remove(0);
        assert(rv[0] == span_view(sp));
        assert(spans_view(rest@) =~= rv.drop_first());
        assert(lv.skip(i).drop_first() =~= lv.skip(i + 1));
        let t = chars_of(sp.text.as_str());
        let n = t.len();
        if cursor - c < n {
            let k = cursor - c;
            let selected = in_selection_exec(sel, (li, col + k));
            let ghost out0 = spans_view(out@);
            let ghost spv = rv[0];
            let ghost look_c = Look { reversed: !in_selection(sel, (li as int, col + k)), ..spv.1 };
            let ghost pieces = (if k > 0 { seq![(spv.0.take(k as int), spv.1)] } else { Seq::<(Seq<char>, Look)>::empty() })
                + seq![(seq![spv.0[k as int]], look_c)]
                + (if k + 1 < n { seq![(spv.0.skip(k + 1), spv.1)] } else { Seq::<(Seq<char>, Look)>::empty() });
            if k > 0 {
                push_span(&mut out, Span { text: take_chars(&t, 0, k), look: sp.look });
            }
            let mut one = String::new();
            crate::text::push_char(&mut one, t[k]);
            assert(one@ =~= seq![t@[k as int]]);
            push_span(&mut out, Span { text: one, look: Look { reversed: !selected, ..sp.look } });
            if k + 1 < n {
                push_span(&mut out, Span { text: take_chars(&t, k + 1, n), look: sp.look });
            }
            let ghost mid = spans_view(out@);
            proof {
                assert(t@.take(k as int) =~= t@.subrange(0, k as int));
                assert(t@.skip(k + 1) =~= t@.subrange(k + 1, n as int));
                assert(t@ == spv.0);
                assert(mid =~= out0 + pieces);
                assert(cursor_in_line(rv, li as int, c as int, col as int, cursor as int, sel).0 == pieces + rv.drop_first());
                assert(cursor_in_line(rv, li as int, c as int, col as int, cursor as int, sel).2);
                assert(out0 + (pieces + rv.drop_first()) =~= mid + rv.drop_first());
            }
            let ghost whole = cursor_in_line(lv, li as int, count as int, 0, cursor as int, sel);
            assert(mid + rv.drop_first() == whole.0);
            assert(whole.2);
            while rest.len() > 0
                invariant
                    spans_view(out@) + spans_view(rest@) == mid + rv.drop_first(),
                    mid + rv.drop_first() == whole.0,
                    whole.2,
                    whole == cursor_in_line(lv, li as int, count as int, 0, cursor as int, sel),
                    lv == spans_view(line@),
                decreases rest.len(),
            {
                let ghost rv2 = spans_view(rest@);
                let s2 = rest.remove(0);
                assert(rv2[0] == span_view(s2));
                assert(spans_view(rest@) =~= rv2.drop_first());
                let ghost b2 = spans_view(out@);
                push_span(&mut out, s2);
                assert(b2.push(span_view(s2)) + rv2.drop_first() =~= b2 + rv2);
            }
            assert(spans_view(rest@) =~= Seq::<(Seq<char>, Look)>::empty());
            assert(spans_view(out@) =~= mid + rv.drop_first());
            return (out, cursor, true);
        }
        let ghost before = spans_view(out@);
        push_span(&mut out, sp);
        assert(before.push(rv[0]) + cursor_in_line(lv.skip(i + 1), li as int, (c + n) as int, (col + n) as int, cursor as int, sel).0
            =~= before + (seq![rv[0]] + cursor_in_line(lv.skip(i + 1), li as int, (c + n) as int, (col + n) as int, cursor as int, sel).0));
        c = c + n;
        col = col + n;
        proof {
            i = i + 1;
        }
    }
    assert(lv.skip(i).len() == 0);
    assert(spans_view(out@) + Seq::<(Seq<char>, Look)>::empty() =~= spans_view(out@));
    (out, c, false)
}

/// Draws the cursor over styled lines (see `cursor_text`).
pub fn apply_cursor_to_text(lines: Vec<Vec<Span>>, cursor: usize, sel: Option<Selection>) -> (r: Vec<Vec<Span>>)
    ensures
        lines_view(r@) == cursor_text(lines_view(lines@), cursor as int, sel),
{
    let ghost lv = lines_view(lines@);
    let mut out: Vec<Vec<Span>> = Vec::new();
    let mut rest = lines;
    let mut count: usize = 0;
    let mut applied = false;
    let ghost mut i: int = 0;
    let mut li: usize = 0;
    let total = rest.len();
    assert(lines_view(rest@) =~= lv.skip(0));
    assert(lines_view(out@) + cursor_lines(lv, 0, 0, cursor as int, sel).0 =~= cursor_lines(lv, 0, 0, cursor as int, sel).0);
    while rest.len() > 0
        invariant
            0 <= i <= lv.len(),
            li as int == i,
            total == lv.len(),
            lines_view(rest@) == lv.skip(i),
            !applied ==> count <= cursor,
            !applied ==> ({
                let r = cursor_lines(lv, i, count as int, cursor as int, sel);
                let whole = cursor_lines(lv, 0, 0, cursor as int, sel);
                &&& lines_view(out@) + r.0 == whole.0
                &&& r.1 == whole.1
            }),
            applied ==> lines_view(out@) + lv.skip(i) == cursor_lines(lv, 0, 0, cursor as int, sel).0
                && cursor_lines(lv, 0, 0, cursor as int, sel).1,
        decreases rest.len(),
    {
        let ghost rv = lines_view(rest@);
        let line = rest.remove(0);
        assert(rv[0] == spans_view(line@));
        assert(lines_view(rest@) =~= rv.drop_first());
        assert(lv.skip(i).drop_first() =~= lv.skip(i + 1));
        assert(lv.skip(i)[0] == lv[i]);
        let ghost before = lines_view(out@);
        if applied {
            out.push(line);
            assert(lines_view(out@) =~= before.push(rv[0]));
            assert(before.push(rv[0]) + lv.skip(i + 1) =~= before + lv.skip(i));
        } else {
            let (new_line, c2, done) = cursor_line(line, li, count, cursor, sel);
            proof {
                assert(i < lv.len());
            }
            if done {
                out.push(new_line);
                assert(lines_view(out@) =~= before.push(spans_view(new_line@)));
                assert(before.push(spans_view(new_line@)) + lv.skip(i + 1) =~= before + (seq![spans_view(new_line@)] + lv.skip(i + 1)));
                applied = true;
            } else if c2 == cursor {
                let mut nl = new_line;
                let ghost nv = spans_view(nl@);
                push_span(&mut nl, Span { text: String::from_str(" "), look: Look { fg: None, bg: None, bold: false, reversed: true } });
                proof {
                    reveal_strlit(" ");
                    assert(" "@ =~= seq![' ']);
                    assert(spans_view(nl@) =~= nv.push(cursor_block()));
                }
                out.push(nl);
                assert(lines_view(out@) =~= before.push(spans_view(nl@)));
                assert(before.push(spans_view(nl@)) + lv.skip(i + 1) =~= before + (seq![spans_view(nl@)] + lv.skip(i + 1)));
                applied = true;
            } else {
                out.push(new_line);
                assert(lines_view(out@) =~= before.push(spans_view(new_line@)));
                let ghost r2 = cursor_lines(lv, i + 1, c2 + 1, cursor as int, sel);
                assert(before.push(spans_view(new_line@)) + r2.0 =~= before + (seq![spans_view(new_line@)] + r2.0));
                count = c2 + 1;
            }
        }
        proof {
            i = i + 1;
        }
        li = li + 1;
    }
    assert(lv.skip(i) =~= Seq::<Seq<(Seq<char>, Look)>>::empty());
    assert(lines_view(out@) + Seq::<Seq<(Seq<char>, Look)>>::empty() =~= lines_view(out@));
    if applied {
        return out;
    }
    let block = Span { text: String::from_str(" "), look: Look { fg: None, bg: None, bold: false, reversed: true } };
    proof {
        reveal_strlit(" ");
        assert(" "@ =~= seq![' ']);
        assert(span_view(block) == cursor_block());
    }
    let n = out.len();
    if n > 0 {
        let mut last = out.pop().unwrap();
        let ghost lastv = spans_view(last@);
        let ghost before = lines_view(out@);
        push_span(&mut last, block);
        out.push(last);
        assert(lines_view(out@) =~= before.push(lastv.push(cursor_block())));
        assert(lines_view(out@) =~= cursor_text(lv, cursor as int, sel));
        out
    } else {
        let mut only: Vec<Span> = Vec::new();
        push_span(&mut only, block);
        assert(spans_view(only@) =~= seq![cursor_block()]);
        let mut v: Vec<Vec<Span>> = Vec::new();
        v.push(only);
        assert(lines_view(v@) =~= seq![spans_view(only@)]);
        assert(lines_view(v@) =~= seq![seq![cursor_block()]]);
        v
    }
}

/// The spans of a text with the cursor drawn at a position (clamped to the end): the
/// character there reversed, or a reversed block after the text; no cursor leaves the
/// text whole.
pub open spec fn cursor_spans_spec(s: Seq<char>, cursor: Option<usize>, base: Look) -> Seq<(Seq<char>, Look)> {
    match cursor {
        None => seq![(s, base)],
        Some(c) => if c >= s.len() {
            seq![(s, base), (seq![' '], reversed(base))]
        } else {
            seq![(s.take(c as int), base), (seq![s[c as int]], reversed(base)), (s.skip(c + 1), base)]
        },
    }
}

/// The spans of a text with the cursor drawn (see `cursor_spans_spec`).
pub fn render_with_cursor_spans(s: &str, cursor: Option<usize>, base: Look) -> (r: Vec<Span>)
    ensures
        spans_view(r@) == cursor_spans_spec(s@, cursor, base),
{
    let mut out: Vec<Span> = Vec::new();
    match cursor {
        None => {
            push_span(&mut out, Span { text: String::from_str(s), look: base });
        },
        Some(c) => {
            let t = chars_of(s);
            if c >= t.len() {
                proof {
                    reveal_strlit(" ");
                    assert(" "@ =~= seq![' ']);
                }
                push_span(&mut out, Span { text: String::from_str(s), look: base });
                push_span(&mut out, Span { text: String::from_str(" "), look: Look { reversed: true, ..base } });
            } else {
                push_span(&mut out, Span { text: take_chars(&t, 0, c), look: base });
                let mut one = String::new();
                crate::text::push_char(&mut one, t[c]);
                assert(one@ =~= seq![t@[c as int]]);
                push_span(&mut out, Span { text: one, look: Look { reversed: true, ..base } });
                push_span(&mut out, Span { text: take_chars(&t, c + 1, t.len()), look: base });
                assert(t@.take(c as int) =~= t@.subrange(0, c as int));
                assert(t@.skip(c + 1) =~= t@.subrange(c + 1, t@.len() as int));
            }
        },
    }
    assert(spans_view(out@) =~= cursor_spans_spec(s@, cursor, base));
    out
}

/// The lines of a text, each one plain span.
pub fn plain_lines(text: &str) -> (r: Vec<Vec<Span>>)
    ensures
        lines_view(r@) == lines_spec(text@).map_values(|l: Seq<char>| seq![(l, plain())]),
{
    let v = chars_of(text);
    let ls = split_lines(v.as_slice());
    let ghost lv = views(ls@);
    let mut out: Vec<Vec<Span>> = Vec::new();
    let mut i: usize = 0;
    while i < ls.len()
        invariant
            i <= ls.len(),
            lv == views(ls@),
            lv == lines_spec(text@),
            lines_view(out@) =~= lv.take(i as int).map_values(|l: Seq<char>| seq![(l, plain())]),
        decreases ls.len() - i,
    {
        let mut line: Vec<Span> = Vec::new();
        push_span(&mut line, Span { text: string_of(ls[i].as_slice()), look: Look { fg: None, bg: None, bold: false, reversed: false } });
        let ghost before = lines_view(out@);
        out.push(line);
        assert(lines_view(out@) =~= before.push(spans_view(line@)));
        assert(lv[i as int] == ls@[i as int]@);
        assert(spans_view(line@) =~= seq![(lv[i as int], plain())]);
        assert(lv.take(i + 1).map_values(|l: Seq<char>| seq![(l, plain())])
            =~= lv.take(i as int).map_values(|l: Seq<char>| seq![(l, plain())]).push(seq![(lv[i as int], plain())]));
        i += 1;
    }
    assert(lv.take(ls.len() as int) =~= lv);
    out
}


// ---------------------------------------------------------------------------
// Laws
// ---------------------------------------------------------------------------

/// The text of a line of spans: their texts one after the other.
pub open spec fn line_text(spans: Seq<(Seq<char>, Look)>) -> Seq<char>
    decreases spans.len(),
{
    if spans.len() == 0 { seq![] } else { spans[0].0 + line_text(spans.drop_first()) }
}

proof fn lemma_line_text_one(x: Seq<char>, l: Look)
    ensures
        line_text(seq![(x, l)]) == x,
{
    let one = seq![(x, l)];
    assert(one.drop_first() =~= Seq::<(Seq<char>, Look)>::empty());
    assert(line_text(one.drop_first()) =~= Seq::<char>::empty());
    assert(x + Seq::<char>::empty() =~= x);
}

proof fn lemma_line_text_append(a: Seq<(Seq<char>, Look)>, b: Seq<(Seq<char>, Look)>)
    ensures
        line_text(a + b) == line_text(a) + line_text(b),
    decreases a.len(),
{
    if a.len() == 0 {
        assert(a + b =~= b);
        assert(line_text(a) + line_text(b) =~= line_text(b));
    } else {
        lemma_line_text_append(a.drop_first(), b);
        assert((a + b).drop_first() =~= a.drop_first() + b);
        assert((a + b)[0] == a[0]);
        assert(line_text(a + b) =~= a[0].0 + (line_text(a.drop_first()) + line_text(b)));
    }
}

proof fn lemma_bare_text(t: Seq<char>, i: int, cur: Seq<char>)
    requires
        0 <= i <= t.len(),
    ensures
        line_text(bare_spans(t, i, cur)) == cur + t.skip(i),
    decreases t.len() - i,
{
    if i >= t.len() {
        assert(t.skip(i) =~= Seq::<char>::empty());
        if cur.len() > 0 {
            lemma_line_text_one(cur, token_look(cur));
        }
        assert(cur + t.skip(i) =~= cur);
    } else if is_delim(t[i]) {
        lemma_bare_text(t, i + 1, seq![]);
        let head = if cur.len() > 0 { seq![(cur, token_look(cur))] } else { Seq::<(Seq<char>, Look)>::empty() };
        lemma_line_text_append(head + seq![(seq![t[i]], plain())], bare_spans(t, i + 1, seq![]));
        lemma_line_text_append(head, seq![(seq![t[i]], plain())]);
        lemma_line_text_one(seq![t[i]], plain());
        if cur.len() > 0 {
            lemma_line_text_one(cur, token_look(cur));
        }
        assert(line_text(head) =~= cur);
        assert(t.skip(i) =~= seq![t[i]] + t.skip(i + 1));
        assert(cur + t.skip(i) =~= cur + seq![t[i]] + (Seq::<char>::empty() + t.skip(i + 1)));
    } else {
        lemma_bare_text(t, i + 1, cur.push(t[i]));
        assert(t.skip(i) =~= seq![t[i]] + t.skip(i + 1));
        assert(cur.push(t[i]) + t.skip(i + 1) =~= cur + t.skip(i));
    }
}

proof fn lemma_json_line_text(line: Seq<char>, i: int, in_str: bool, esc: bool, cur: Seq<char>)
    requires
        0 <= i <= line.len(),
    ensures
        line_text(json_line(line, i, in_str, esc, cur)) == cur + line.skip(i),
    decreases line.len() - i,
{
    assert(line.skip(i) =~= if i < line.len() { seq![line[i]] + line.skip(i + 1) } else { Seq::<char>::empty() });
    if i >= line.len() {
        if cur.len() == 0 {
        } else if in_str {
            lemma_line_text_one(cur, fg(Paint::TermGreen));
        } else {
            lemma_bare_text(cur, 0, seq![]);
            assert(cur.skip(0) =~= cur);
        }
        assert(cur + line.skip(i) =~= cur);
    } else if in_str {
        let c = line[i];
        if c == '\\' && !esc {
            lemma_json_line_text(line, i + 1, true, true, cur.push(c));
            assert(cur.push(c) + line.skip(i + 1) =~= cur + line.skip(i));
        } else if c == '"' && !esc {
            let look = if colon_follows(line, i + 1) { fg(Paint::TermLightBlue) } else { fg(Paint::TermGreen) };
            lemma_json_line_text(line, i + 1, false, false, seq![]);
            lemma_line_text_append(seq![(cur.push(c), look)], json_line(line, i + 1, false, false, seq![]));
            lemma_line_text_one(cur.push(c), look);
            assert(cur.push(c) + (Seq::<char>::empty() + line.skip(i + 1)) =~= cur + line.skip(i));
        } else {
            lemma_json_line_text(line, i + 1, true, false, cur.push(c));
            assert(cur.push(c) + line.skip(i + 1) =~= cur + line.skip(i));
        }
    } else if line[i] == '"' {
        lemma_json_line_text(line, i + 1, true, esc, seq![line[i]]);
        let head = if cur.len() > 0 { bare_spans(cur, 0, seq![]) } else { Seq::<(Seq<char>, Look)>::empty() };
        lemma_line_text_append(head, json_line(line, i + 1, true, esc, seq![line[i]]));
        if cur.len() > 0 {
            lemma_bare_text(cur, 0, seq![]);
            assert(cur.skip(0) =~= cur);
        }
        assert(line_text(head) =~= cur);
        assert(cur + (seq![line[i]] + line.skip(i + 1)) =~= cur + line.skip(i));
    } else {
        lemma_json_line_text(line, i + 1, false, esc, cur.push(line[i]));
        assert(cur.push(line[i]) + line.skip(i + 1) =~= cur + line.skip(i));
    }
}

/// Highlighting never changes the text: each highlighted line reads as the line it came
/// from.
pub proof fn law_highlight_keeps_text(json: Seq<char>)
    ensures
        json_text(json).len() == lines_spec(json).len(),
        forall|i: int| 0 <= i < json_text(json).len() ==> line_text(#[trigger] json_text(json)[i]) == lines_spec(json)[i],
{
    assert forall|i: int| 0 <= i < json_text(json).len() implies line_text(#[trigger] json_text(json)[i]) == lines_spec(json)[i] by {
        let l = lines_spec(json)[i];
        lemma_json_line_text(l, 0, false, false, seq![]);
        assert(l.skip(0) =~= l);
        assert(Seq::<char>::empty() + l =~= l);
    }
}

proof fn lemma_select_text(spans: Seq<(Seq<char>, Look)>, col: int, lo: int, hi: int)
    requires
        lo <= hi + 1,
    ensures
        line_text(select_spans(spans, col, lo, hi)) == line_text(spans),
    decreases spans.len(),
{
    if spans.len() > 0 {
        let sp = spans[0];
        let n = sp.0.len() as int;
        let e = col + n;
        lemma_select_text(spans.drop_first(), e, lo, hi);
        let here = if e <= lo || col > hi {
            seq![sp]
        } else if col >= lo && e <= hi + 1 {
            seq![(sp.0, reversed(sp.1))]
        } else {
            split_span(sp, clamp_int(lo - col, 0, n), clamp_int(hi + 1 - col, 0, n))
        };
        lemma_line_text_append(here, select_spans(spans.drop_first(), e, lo, hi));
        if e <= lo || col > hi || (col >= lo && e <= hi + 1) {
            if e <= lo || col > hi {
                lemma_line_text_one(sp.0, sp.1);
            } else {
                lemma_line_text_one(sp.0, reversed(sp.1));
            }
        } else {
            let a = clamp_int(lo - col, 0, n);
            let b = clamp_int(hi + 1 - col, 0, n);
            let p1 = if a > 0 { seq![(sp.0.take(a), sp.1)] } else { Seq::<(Seq<char>, Look)>::empty() };
            let p2 = if b > a { seq![(sp.0.subrange(a, b), reversed(sp.1))] } else { Seq::<(Seq<char>, Look)>::empty() };
            let p3 = if b < n { seq![(sp.0.skip(b), sp.1)] } else { Seq::<(Seq<char>, Look)>::empty() };
            lemma_line_text_append(p1 + p2, p3);
            lemma_line_text_append(p1, p2);
            if a > 0 { lemma_line_text_one(sp.0.take(a), sp.1); }
            if b > a { lemma_line_text_one(sp.0.subrange(a, b), reversed(sp.1)); }
            if b < n { lemma_line_text_one(sp.0.skip(b), sp.1); }
            assert(line_text(p1) =~= sp.0.subrange(0, a));
            assert(line_text(p2) =~= sp.0.subrange(a, if b > a { b } else { a }));
            assert(a <= b);
            assert(line_text(p3) =~= sp.0.subrange(if b > a { b } else { a }, n));
            assert(line_text(here) =~= sp.0);
        }
        assert(line_text(spans) == sp.0 + line_text(spans.drop_first()));
    }
}

/// Showing a selection never changes the text: each line reads as it did.
pub proof fn law_selection_keeps_text(lines: Seq<Seq<(Seq<char>, Look)>>, sel: Option<Selection>)
    ensures
        select_lines(lines, sel).len() == lines.len(),
        forall|i: int| 0 <= i < lines.len() ==> line_text(#[trigger] select_lines(lines, sel)[i]) == line_text(lines[i]),
{
    assert forall|i: int| 0 <= i < lines.len() implies line_text(#[trigger] select_lines(lines, sel)[i]) == line_text(lines[i]) by {
        match sel {
            Some(s) => {
                let st = ordered(s).0;
                let en = ordered(s).1;
                if st.0 <= i <= en.0 {
                    lemma_select_text(lines[i], 0, if i == st.0 { st.1 as int } else { 0 }, if i == en.0 { en.1 as int } else { usize::MAX as int });
                }
            },
            None => {},
        }
    }
}

} // verus!
