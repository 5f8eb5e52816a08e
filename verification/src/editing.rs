//! Editing text at a cursor: inserting and deleting characters and moving the cursor
//! between and within lines. Cursors count characters.
use vstd::prelude::*;
use crate::text::{chars_of, string_of};

verus! {

/// Whether a character is white space in the sense of `char::is_whitespace`
/// (the Unicode `White_Space` property).
pub open spec fn is_ws(c: char) -> bool {
    ('\u{9}' <= c && c <= '\u{d}') || c == ' ' || c == '\u{85}' || c == '\u{a0}' || c == '\u{1680}'
        || ('\u{2000}' <= c && c <= '\u{200a}') || c == '\u{2028}' || c == '\u{2029}' || c == '\u{202f}'
        || c == '\u{205f}' || c == '\u{3000}'
}

/// Whether a character is white space (see `is_ws`).
pub fn is_whitespace(c: char) -> (r: bool)
    ensures
        r == is_ws(c),
{
    ('\u{9}' <= c && c <= '\u{d}') || c == ' ' || c == '\u{85}' || c == '\u{a0}' || c == '\u{1680}'
        || ('\u{2000}' <= c && c <= '\u{200a}') || c == '\u{2028}' || c == '\u{2029}' || c == '\u{202f}'
        || c == '\u{205f}' || c == '\u{3000}'
}

pub open spec fn min_nat(a: int, b: int) -> int {
    if a <= b { a } else { b }
}

/// Inserts `ch` before the character at `idx`, or at the end when `idx` is past it.
pub fn insert_char_at(s: &mut String, idx: usize, ch: char)
    ensures
        final(s)@ == old(s)@.insert(min_nat(idx as int, old(s)@.len() as int), ch),
{
    let mut v = chars_of(s.as_str());
    let i = if idx < v.len() { idx } else { v.len() };
    v.insert(i, ch);
    *s = string_of(&v);
}

/// Deletes the character before `idx` (the last one when `idx` is past the end); nothing
/// happens at the start or in an empty text.
pub fn remove_char_at(s: &mut String, idx: usize)
    ensures
        final(s)@ == (if old(s)@.len() == 0 || idx == 0 {
            old(s)@
        } else {
            old(s)@.remove(min_nat(idx as int, old(s)@.len() as int) - 1)
        }),
{
    let mut v = chars_of(s.as_str());
    if v.len() == 0 || idx == 0 {
        return;
    }
    let i = if idx < v.len() { idx } else { v.len() };
    v.remove(i - 1);
    *s = string_of(&v);
}

/// The start of the line that holds position `c`: just after the last newline before `c`.
pub open spec fn line_start_spec(s: Seq<char>, c: int) -> int
    decreases c,
{
    if c <= 0 {
        0
    } else if c - 1 < s.len() && s[c - 1] == '\n' {
        c
    } else {
        line_start_spec(s, c - 1)
    }
}

/// The end of the line that holds position `c`: the first newline at or after `c`, or
/// the end of the text.
pub open spec fn line_end_spec(s: Seq<char>, c: int) -> int
    decreases s.len() - c,
{
    if c >= s.len() {
        s.len() as int
    } else if c >= 0 && s[c] == '\n' {
        c
    } else {
        line_end_spec(s, c + 1)
    }
}

proof fn lemma_line_start(s: Seq<char>, c: int)
    requires
        0 <= c <= s.len(),
    ensures
        0 <= line_start_spec(s, c) <= c,
        line_start_spec(s, c) == 0 || s[line_start_spec(s, c) - 1] == '\n',
        forall|k: int| line_start_spec(s, c) <= k < c ==> s[k] != '\n',
    decreases c,
{
    if c > 0 && s[c - 1] != '\n' {
        lemma_line_start(s, c - 1);
    }
}

proof fn lemma_line_end(s: Seq<char>, c: int)
    requires
        0 <= c <= s.len(),
    ensures
        c <= line_end_spec(s, c) <= s.len(),
        line_end_spec(s, c) == s.len() || s[line_end_spec(s, c)] == '\n',
        forall|k: int| c <= k < line_end_spec(s, c) ==> s[k] != '\n',
    decreases s.len() - c,
{
    if c < s.len() && s[c] != '\n' {
        lemma_line_end(s, c + 1);
    }
}

fn line_start_of(v: &Vec<char>, c: usize) -> (r: usize)
    requires
        c <= v.len(),
    ensures
        r == line_start_spec(v@, c as int),
{
    let mut i = c;
    while i > 0 && v[i - 1] != '\n'
        invariant
            i <= c,
            c <= v.len(),
            line_start_spec(v@, c as int) == line_start_spec(v@, i as int),
        decreases i,
    {
        i -= 1;
    }
    i
}

fn line_end_of(v: &Vec<char>, c: usize) -> (r: usize)
    requires
        c <= v.len(),
    ensures
        r == line_end_spec(v@, c as int),
{
    let mut i = c;
    while i < v.len() && v[i] != '\n'
        invariant
            c <= i <= v.len(),
            line_end_spec(v@, c as int) == line_end_spec(v@, i as int),
        decreases v.len() - i,
    {
        i += 1;
    }
    i
}

/// The bounds of the line that holds the cursor (clamped to the text): its start and
/// the position of its newline, or the end of the text.
pub fn current_line_bounds(s: &str, cursor: usize) -> (r: (usize, usize))
    ensures
        r.0 == line_start_spec(s@, min_nat(cursor as int, s@.len() as int)),
        r.1 == line_end_spec(s@, min_nat(cursor as int, s@.len() as int)),
{
    let v = chars_of(s);
    let c = if cursor < v.len() { cursor } else { v.len() };
    (line_start_of(&v, c), line_end_of(&v, c))
}

/// Position just after the last character in `lo..hi` that is not white space, or `lo`
/// when there is none.
pub open spec fn text_end_spec(s: Seq<char>, lo: int, hi: int) -> int
    decreases hi - lo,
{
    if hi <= lo {
        lo
    } else if !is_ws(s[hi - 1]) {
        hi
    } else {
        text_end_spec(s, lo, hi - 1)
    }
}

/// Position of the first character in `lo..hi` that is not white space, or `hi` when
/// there is none.
pub open spec fn text_start_spec(s: Seq<char>, lo: int, hi: int) -> int
    decreases hi - lo,
{
    if hi <= lo {
        hi
    } else if !is_ws(s[lo]) {
        lo
    } else {
        text_start_spec(s, lo + 1, hi)
    }
}

/// Where the End key puts the cursor: after the last character of its line that is not
/// white space, or at the end of the line when the line is blank.
pub open spec fn line_end_target(s: Seq<char>, cursor: int) -> int {
    let c = min_nat(cursor, s.len() as int);
    let ls = line_start_spec(s, c);
    let le = line_end_spec(s, c);
    let te = text_end_spec(s, ls, le);
    if te == ls { le } else { te }
}

/// Where the Home key puts the cursor: on the first character of its line that is not
/// white space, or at the start of the line when the line is blank.
pub open spec fn line_start_target(s: Seq<char>, cursor: int) -> int {
    let c = min_nat(cursor, s.len() as int);
    let ls = line_start_spec(s, c);
    let le = line_end_spec(s, c);
    let ts = text_start_spec(s, ls, le);
    if ts < le { ts } else { ls }
}

/// Where the Up key puts the cursor: the same column on the previous line, or the end of
/// that line when it is shorter; position 0 on the first line.
pub open spec fn cursor_up_target(s: Seq<char>, cursor: int) -> int {
    let c = min_nat(cursor, s.len() as int);
    let ls = line_start_spec(s, c);
    if ls == 0 {
        0
    } else {
        let col = c - ls;
        let pls = line_start_spec(s, ls - 1);
        pls + min_nat(col, ls - 1 - pls)
    }
}

/// Where the Down key puts the cursor: the same column on the next line, or the end of
/// that line when it is shorter; the end of the text on the last line.
pub open spec fn cursor_down_target(s: Seq<char>, cursor: int) -> int {
    let c = min_nat(cursor, s.len() as int);
    let ls = line_start_spec(s, c);
    let col = c - ls;
    let le = line_end_spec(s, c);
    let nls = if le < s.len() { le + 1 } else { s.len() as int };
    if nls == s.len() {
        s.len() as int
    } else {
        nls + min_nat(col, line_end_spec(s, nls) - nls)
    }
}

fn text_end_of(v: &Vec<char>, lo: usize, hi: usize) -> (r: usize)
    requires
        lo <= hi <= v.len(),
    ensures
        r == text_end_spec(v@, lo as int, hi as int),
{
    let mut h = hi;
    while h > lo && is_whitespace(v[h - 1])
        invariant
            lo <= h <= hi,
            hi <= v.len(),
            text_end_spec(v@, lo as int, hi as int) == text_end_spec(v@, lo as int, h as int),
        decreases h,
    {
        h -= 1;
    }
    h
}

fn text_start_of(v: &Vec<char>, lo: usize, hi: usize) -> (r: usize)
    requires
        lo <= hi <= v.len(),
    ensures
        r == text_start_spec(v@, lo as int, hi as int),
{
    let mut l = lo;
    while l < hi && is_whitespace(v[l])
        invariant
            lo <= l <= hi,
            hi <= v.len(),
            text_start_spec(v@, lo as int, hi as int) == text_start_spec(v@, l as int, hi as int),
        decreases hi - l,
    {
        l += 1;
    }
    l
}

/// Moves the cursor for the End key (see `line_end_target`).
pub fn move_cursor_to_line_end(s: &str, cursor: usize) -> (r: usize)
    ensures
        r == line_end_target(s@, cursor as int),
{
    let v = chars_of(s);
    let c = if cursor < v.len() { cursor } else { v.len() };
    let ls = line_start_of(&v, c);
    let le = line_end_of(&v, c);
    proof {
        lemma_line_start(v@, c as int);
        lemma_line_end(v@, c as int);
    }
    let te = text_end_of(&v, ls, le);
    if te == ls { le } else { te }
}

/// Moves the cursor for the Home key (see `line_start_target`).
pub fn move_cursor_to_line_start(s: &str, cursor: usize) -> (r: usize)
    ensures
        r == line_start_target(s@, cursor as int),
{
    let v = chars_of(s);
    let c = if cursor < v.len() { cursor } else { v.len() };
    let ls = line_start_of(&v, c);
    let le = line_end_of(&v, c);
    proof {
        lemma_line_start(v@, c as int);
        lemma_line_end(v@, c as int);
    }
    let ts = text_start_of(&v, ls, le);
    if ts < le { ts } else { ls }
}

/// Moves the cursor for the Up key (see `cursor_up_target`).
pub fn move_cursor_up(s: &str, cursor: usize) -> (r: usize)
    ensures
        r == cursor_up_target(s@, cursor as int),
{
    let v = chars_of(s);
    let c = if cursor < v.len() { cursor } else { v.len() };
    let ls = line_start_of(&v, c);
    proof {
        lemma_line_start(v@, c as int);
    }
    if ls == 0 {
        return 0;
    }
    let col = c - ls;
    let pls = line_start_of(&v, ls - 1);
    proof {
        lemma_line_start(v@, ls - 1);
    }
    let prev_len = ls - 1 - pls;
    pls + if col < prev_len { col } else { prev_len }
}

/// Moves the cursor for the Down key (see `cursor_down_target`).
pub fn move_cursor_down(s: &str, cursor: usize) -> (r: usize)
    ensures
        r == cursor_down_target(s@, cursor as int),
{
    let v = chars_of(s);
    let n = v.len();
    let c = if cursor < n { cursor } else { n };
    let ls = line_start_of(&v, c);
    proof {
        lemma_line_start(v@, c as int);
        lemma_line_end(v@, c as int);
    }
    let col = c - ls;
    let le = line_end_of(&v, c);
    let nls = if le < n { le + 1 } else { n };
    if nls == n {
        return n;
    }
    let nle = line_end_of(&v, nls);
    proof {
        lemma_line_end(v@, nls as int);
    }
    let next_len = nle - nls;
    nls + if col < next_len { col } else { next_len }
}


/// Deleting the character before the cursor right after inserting one at the cursor
/// gives back the text as it was: Backspace undoes a typed character.
pub proof fn law_backspace_undoes_insert(s: Seq<char>, idx: int, ch: char)
    requires
        idx >= 0,
    ensures
        ({
            let k = min_nat(idx, s.len() as int);
            let t = s.insert(k, ch);
            t.remove(min_nat(k + 1, t.len() as int) - 1) == s
        }),
{
    let k = min_nat(idx, s.len() as int);
    let t = s.insert(k, ch);
    assert(t.remove(k) =~= s);
}

/// Home and End keep the cursor on its line, and every cursor key leaves it within the text.
pub proof fn law_cursor_keys_stay_in_text(s: Seq<char>, cursor: int)
    requires
        cursor >= 0,
    ensures
        line_start_spec(s, min_nat(cursor, s.len() as int)) <= line_start_target(s, cursor)
            <= line_end_spec(s, min_nat(cursor, s.len() as int)),
        line_start_spec(s, min_nat(cursor, s.len() as int)) <= line_end_target(s, cursor)
            <= line_end_spec(s, min_nat(cursor, s.len() as int)),
        0 <= cursor_up_target(s, cursor) <= min_nat(cursor, s.len() as int),
        min_nat(cursor, s.len() as int) <= cursor_down_target(s, cursor) <= s.len(),
{
    let c = min_nat(cursor, s.len() as int);
    lemma_line_start(s, c);
    lemma_line_end(s, c);
    let ls = line_start_spec(s, c);
    let le = line_end_spec(s, c);
    lemma_text_bounds(s, ls, le);
    if ls > 0 {
        lemma_line_start(s, ls - 1);
    }
    if le < s.len() && le + 1 < s.len() {
        lemma_line_end(s, le + 1);
    }
}

proof fn lemma_text_bounds(s: Seq<char>, lo: int, hi: int)
    requires
        lo <= hi,
    ensures
        lo <= text_end_spec(s, lo, hi) <= hi,
        lo <= text_start_spec(s, lo, hi) <= hi,
    decreases hi - lo,
{
    if hi > lo {
        lemma_text_bounds(s, lo, hi - 1);
        lemma_text_bounds(s, lo + 1, hi);
    }
}

proof fn lemma_line_start_at(s: Seq<char>, x: int, b: int)
    requires
        0 <= b <= x <= s.len(),
        b == 0 || s[b - 1] == '\n',
        forall|k: int| b <= k < x ==> s[k] != '\n',
    ensures
        line_start_spec(s, x) == b,
    decreases x,
{
    if x > b {
        lemma_line_start_at(s, x - 1, b);
    }
}

/// Up undoes Down: from a position with a line after its own that is at least as long
/// as the position's column, Down then Up comes back to it. And Up on the first line
/// goes to the start of the text.
pub proof fn law_up_undoes_down(s: Seq<char>, c: int)
    requires
        0 <= c <= s.len(),
        line_end_spec(s, c) < s.len(),
        c - line_start_spec(s, c) <= line_end_spec(s, line_end_spec(s, c) + 1) - (line_end_spec(s, c) + 1),
    ensures
        cursor_up_target(s, cursor_down_target(s, c)) == c,
        forall|x: int| 0 <= x && (forall|k: int| 0 <= k < min_nat(x, s.len() as int) ==> s[k] != '\n')
            ==> #[trigger] cursor_up_target(s, x) == 0,
{
    lemma_line_start(s, c);
    lemma_line_end(s, c);
    let ls = line_start_spec(s, c);
    let le = line_end_spec(s, c);
    let col = c - ls;
    let nls = le + 1;
    lemma_line_end(s, nls);
    let nle = line_end_spec(s, nls);
    lemma_line_start_at(s, le, ls);
    let d = cursor_down_target(s, c);
    if nls == s.len() {
        assert(d == s.len());
        lemma_line_start_at(s, d, nls);
    } else {
        assert(d == nls + col);
        lemma_line_start_at(s, d, nls);
    }
    assert forall|x: int| 0 <= x && (forall|k: int| 0 <= k < min_nat(x, s.len() as int) ==> s[k] != '\n')
        implies #[trigger] cursor_up_target(s, x) == 0 by {
        lemma_line_start_at(s, min_nat(x, s.len() as int), 0);
    }
}

} // verus!
