//! The texts that the panels show: header lists, cookie lists, and the text of a selection.
use vstd::prelude::*;
use crate::text::{chars_of, string_of, lines_spec, split_lines, views};
use crate::template::table_view;

verus! {

/// Lines joined with newlines between them.
pub open spec fn join_lines(ls: Seq<Seq<char>>) -> Seq<char>
    decreases ls.len(),
{
    if ls.len() == 0 {
        seq![]
    } else if ls.len() == 1 {
        ls[0]
    } else {
        join_lines(ls.drop_last()) + seq!['\n'] + ls.last()
    }
}

/// "name: value" for a pair.
pub open spec fn pair_line(p: (Seq<char>, Seq<char>)) -> Seq<char> {
    p.0 + seq![':', ' '] + p.1
}

/// Pairs shown one per line as "name: value", or `empty` when there are none.
pub open spec fn format_pairs_spec(pairs: Seq<(Seq<char>, Seq<char>)>, empty: Seq<char>) -> Seq<char> {
    if pairs.len() == 0 {
        empty
    } else {
        join_lines(pairs.map_values(|p: (Seq<char>, Seq<char>)| pair_line(p)))
    }
}

fn push_str(out: &mut String, s: &str)
    ensures
        final(out)@ == old(out)@ + s@,
{
    out.append(s);
}

/// Joins texts with newlines between them.
pub fn join_with_newlines(items: &[String]) -> (r: String)
    ensures
        r@ == join_lines(items@.map_values(|s: String| s@)),
{
    let ghost iv = items@.map_values(|s: String| s@);
    let mut out = String::new();
    let mut i: usize = 0;
    while i < items.len()
        invariant
            i <= items.len(),
            iv == items@.map_values(|s: String| s@),
            out@ == join_lines(iv.take(i as int)),
        decreases items.len() - i,
    {
        assert(iv.take(i + 1).drop_last() == iv.take(i as int));
        assert(iv.take(i + 1).last() == items@[i as int]@);
        if i > 0 {
            crate::text::push_char(&mut out, '\n');
        } else {
            assert(iv.take(1) == seq![iv[0]]);
        }
        push_str(&mut out, items[i].as_str());
        i += 1;
    }
    assert(iv.take(items.len() as int) == iv);
    out
}

/// Shows pairs one per line as "name: value", or `empty` when there are none.
pub fn format_pairs(pairs: &[(String, String)], empty: &str) -> (r: String)
    ensures
        r@ == format_pairs_spec(table_view(pairs@), empty@),
{
    if pairs.len() == 0 {
        return String::from_str(empty);
    }
    let mut lines: Vec<String> = Vec::new();
    let mut i: usize = 0;
    while i < pairs.len()
        invariant
            i <= pairs.len(),
            lines@.map_values(|s: String| s@) == table_view(pairs@).take(i as int).map_values(|p: (Seq<char>, Seq<char>)| pair_line(p)),
        decreases pairs.len() - i,
    {
        let mut l = pairs[i].0.clone();
        l.append(": ");
        l.append(pairs[i].1.as_str());
        proof {
            reveal_strlit(": ");
            assert(": "@ =~= seq![':', ' ']);
        }
        let ghost old_lines = lines@;
        let ghost tv = table_view(pairs@);
        assert(tv[i as int] == (pairs@[i as int].0@, pairs@[i as int].1@));
        assert(l@ == pair_line(tv[i as int]));
        assert(tv.take(i + 1) =~= tv.take(i as int).push(tv[i as int]));
        lines.push(l);
        assert(lines@ == old_lines.push(l));
        assert(lines@.map_values(|s: String| s@) =~= old_lines.map_values(|s: String| s@).push(l@));
        assert(tv.take(i + 1).map_values(|p: (Seq<char>, Seq<char>)| pair_line(p)) =~= tv.take(i as int).map_values(|p: (Seq<char>, Seq<char>)| pair_line(p)).push(pair_line(tv[i as int])));
        i += 1;
    }
    assert(table_view(pairs@).take(pairs.len() as int) == table_view(pairs@));
    join_with_newlines(lines.as_slice())
}

/// A selection between two (line, column) positions; either end may come first.
#[derive(Debug, Clone, Copy, PartialEq, Eq)]
pub struct Selection {
    pub start: (usize, usize),
    pub end: (usize, usize),
}

/// Whether position `a` comes after position `b`.
pub open spec fn pos_after(a: (usize, usize), b: (usize, usize)) -> bool {
    a.0 > b.0 || (a.0 == b.0 && a.1 > b.1)
}

/// The ends of a selection in text order.
pub open spec fn ordered(sel: Selection) -> ((usize, usize), (usize, usize)) {
    if pos_after(sel.start, sel.end) { (sel.end, sel.start) } else { (sel.start, sel.end) }
}

/// The characters of a line whose columns lie in `lo..=hi`.
pub open spec fn columns(line: Seq<char>, lo: int, hi: int) -> Seq<char> {
    let a = if lo < line.len() { lo } else { line.len() as int };
    let b = if hi + 1 < line.len() { hi + 1 } else { line.len() as int };
    if a < b { line.subrange(a, b) } else { seq![] }
}

/// The selected text of the lines from index `k` on: on the first selected line from the
/// start column, on the last up to and including the end column, whole lines between,
/// with a newline after every selected line but the last selected one.
pub open spec fn selected_from(ls: Seq<Seq<char>>, k: int, start: (usize, usize), end: (usize, usize)) -> Seq<char>
    decreases ls.len() - k,
{
    if k >= ls.len() || k < 0 {
        seq![]
    } else {
        let piece = if start.0 <= k && k <= end.0 {
            let lo = if k == start.0 { start.1 as int } else { 0 };
            let hi = if k == end.0 { end.1 as int } else { usize::MAX as int };
            columns(ls[k], lo, hi) + if k < end.0 { seq!['\n'] } else { seq![] }
        } else {
            seq![]
        };
        piece + selected_from(ls, k + 1, start, end)
    }
}

/// The text of a selection.
pub open spec fn selection_text(text: Seq<char>, sel: Selection) -> Seq<char> {
    selected_from(lines_spec(text), 0, ordered(sel).0, ordered(sel).1)
}

/// The text of a selection (see `selection_text`).
pub fn extract_text_selection(text: &str, sel: Selection) -> (r: String)
    ensures
        r@ == selection_text(text@, sel),
{
    let (start, end) = if sel.start.0 > sel.end.0 || (sel.start.0 == sel.end.0 && sel.start.1 > sel.end.1) {
        (sel.end, sel.start)
    } else {
        (sel.start, sel.end)
    };
    let chars = chars_of(text);
    let lines = split_lines(chars.as_slice());
    let ghost ls = views(lines@);
    let mut out: Vec<char> = Vec::new();
    let mut k: usize = 0;
    while k < lines.len()
        invariant
            ls == views(lines@),
            ls == lines_spec(text@),
            (start, end) == ordered(sel),
            k <= lines.len(),
            out@ + selected_from(ls, k as int, start, end) == selected_from(ls, 0, start, end),
        decreases lines.len() - k,
    {
        let line = &lines[k];
        assert(ls[k as int] == line@);
        let ghost out0 = out@;
        if k >= start.0 && k <= end.0 {
            let lo = if k == start.0 { start.1 } else { 0 };
            let a = if lo < line.len() { lo } else { line.len() };
            let mut j = a;
            if k == end.0 {
                while j < line.len() && j <= end.1
                    invariant
                        a <= j <= line.len(),
                        j > a ==> j - 1 <= end.1,
                        out@ == out0 + line@.subrange(a as int, j as int),
                    decreases line.len() - j,
                {
                    out.push(line[j]);
                    assert(line@.subrange(a as int, j + 1) == line@.subrange(a as int, j as int).push(line@[j as int]));
                    j += 1;
                }
            } else {
                while j < line.len()
                    invariant
                        a <= j <= line.len(),
                        out@ == out0 + line@.subrange(a as int, j as int),
                    decreases line.len() - j,
                {
                    out.push(line[j]);
                    assert(line@.subrange(a as int, j + 1) == line@.subrange(a as int, j as int).push(line@[j as int]));
                    j += 1;
                }
            }
            let ghost hi = if k == end.0 { end.1 as int } else { usize::MAX as int };
            assert(line@.subrange(a as int, j as int) == columns(line@, lo as int, hi));
            if k < end.0 {
                out.push('\n');
            }
        }
        k += 1;
    }
    string_of(out.as_slice())
}

} // verus!
