//! Laying text out in a panel: how many rows it takes when long lines are wrapped at
//! word boundaries, which character sits at a row and column, and the line and column
//! of a character.
use vstd::prelude::*;
use crate::editing::{is_ws, is_whitespace, min_nat};
use crate::text::{lines_spec, split_lines, chars_of, views, char_count, first_index, strip_cr, lemma_first_index_bound};

verus! {

/// The number of characters at the start of `s` that are not white space.
pub open spec fn word_len(s: Seq<char>) -> nat
    decreases s.len(),
{
    if s.len() == 0 || is_ws(s[0]) {
        0
    } else {
        1 + word_len(s.drop_first())
    }
}

/// The number of white-space characters at the start of `s`.
pub open spec fn space_len(s: Seq<char>) -> nat
    decreases s.len(),
{
    if s.len() == 0 || !is_ws(s[0]) {
        0
    } else {
        1 + space_len(s.drop_first())
    }
}

pub proof fn lemma_word_len(s: Seq<char>)
    ensures
        word_len(s) <= s.len(),
        forall|k: int| 0 <= k < word_len(s) ==> !is_ws(s[k]),
        word_len(s) < s.len() ==> is_ws(s[word_len(s) as int]),
    decreases s.len(),
{
    if s.len() > 0 && !is_ws(s[0]) {
        lemma_word_len(s.drop_first());
        assert forall|k: int| 0 <= k < word_len(s) implies !is_ws(s[k]) by {
            if k > 0 {
                assert(s[k] == s.drop_first()[k - 1]);
            }
        }
    }
}

pub proof fn lemma_space_len(s: Seq<char>)
    ensures
        space_len(s) <= s.len(),
        forall|k: int| 0 <= k < space_len(s) ==> is_ws(s[k]),
        space_len(s) < s.len() ==> !is_ws(s[space_len(s) as int]),
    decreases s.len(),
{
    if s.len() > 0 && is_ws(s[0]) {
        lemma_space_len(s.drop_first());
        assert forall|k: int| 0 <= k < space_len(s) implies is_ws(s[k]) by {
            if k > 0 {
                assert(s[k] == s.drop_first()[k - 1]);
            }
        }
    }
}

proof fn lemma_word_len_at(s: Seq<char>, i: int)
    requires
        0 <= i <= s.len(),
        forall|k: int| 0 <= k < i ==> !is_ws(s[k]),
        i == s.len() || is_ws(s[i]),
    ensures
        word_len(s) == i,
    decreases i,
{
    if i > 0 {
        lemma_word_len_at(s.drop_first(), i - 1);
    }
}

proof fn lemma_space_len_at(s: Seq<char>, i: int)
    requires
        0 <= i <= s.len(),
        forall|k: int| 0 <= k < i ==> is_ws(s[k]),
        i == s.len() || !is_ws(s[i]),
    ensures
        space_len(s) == i,
    decreases i,
{
    if i > 0 {
        lemma_space_len_at(s.drop_first(), i - 1);
    }
}

/// A line cut into chunks: a word (possibly empty at the start of the line) and the
/// white space after it; each chunk is given by the two lengths.
pub open spec fn chunks(s: Seq<char>) -> Seq<(nat, nat)>
    decreases s.len(),
{
    if s.len() == 0 {
        seq![]
    } else {
        let a = word_len(s);
        let b = space_len(s.subrange(a as int, s.len() as int));
        proof {
            lemma_word_len(s);
            lemma_space_len(s.subrange(a as int, s.len() as int));
        }
        if a + b == 0 {
            seq![]
        } else {
            seq![(a, b)] + chunks(s.subrange((a + b) as int, s.len() as int))
        }
    }
}

/// The state of wrapping a line: the rows done so far (start and length of each), the
/// start of the current row, how many characters it holds, and the next position.
pub struct WrapState {
    pub rows: Seq<(nat, nat)>,
    pub start: nat,
    pub filled: nat,
    pub pos: nat,
}

/// Puts `n` more characters of one word or one run of white space on the rows: what
/// does not fit on the current row is continued on new rows of `width` characters.
pub open spec fn fill(st: WrapState, n: nat, width: nat) -> WrapState
    decreases n, st.filled,
{
    if width == 0 || st.filled + n <= width {
        WrapState { rows: st.rows, start: st.start, filled: st.filled + n, pos: st.pos + n }
    } else {
        let fit: nat = if st.filled < width { (width - st.filled) as nat } else { 0 };
        fill(
            WrapState {
                rows: st.rows.push((st.start, st.filled + fit)),
                start: st.pos + fit,
                filled: 0,
                pos: st.pos + fit,
            },
            (n - fit) as nat,
            width,
        )
    }
}

/// Lays out one chunk: a word that does not fit on a row already holding something
/// starts a new row; then the word and its white space are put on the rows.
pub open spec fn place_chunk(st: WrapState, a: nat, b: nat, width: nat) -> WrapState {
    let st1 = if st.filled + a > width && st.filled > 0 {
        WrapState { rows: st.rows.push((st.start, st.filled)), start: st.pos, filled: 0, pos: st.pos }
    } else {
        st
    };
    fill(fill(st1, a, width), b, width)
}

/// Lays out a list of chunks.
pub open spec fn place_chunks(st: WrapState, cs: Seq<(nat, nat)>, width: nat) -> WrapState
    decreases cs.len(),
{
    if cs.len() == 0 {
        st
    } else {
        place_chunks(place_chunk(st, cs[0].0, cs[0].1, width), cs.drop_first(), width)
    }
}

pub open spec fn empty_state() -> WrapState {
    WrapState { rows: seq![], start: 0, filled: 0, pos: 0 }
}

/// The rows of one line wrapped at `width` characters, each as the start (within the
/// line) and the length of its text: words are kept whole on a row when they fit, longer
/// words and runs of white space are cut at the row's end.
pub open spec fn wrapped_rows(line: Seq<char>, width: nat) -> Seq<(nat, nat)> {
    let st = place_chunks(empty_state(), chunks(line), width);
    st.rows.push((st.start, st.filled))
}

/// The rows of a line: the wrapped rows, or the whole line as one row when wrapping is
/// off or the width is zero.
pub open spec fn line_rows(line: Seq<char>, width: nat, wrap: bool) -> Seq<(nat, nat)> {
    if !wrap || width == 0 {
        seq![(0nat, line.len())]
    } else {
        wrapped_rows(line, width)
    }
}

/// The number of rows that the lines of a text take.
pub open spec fn rows_of_lines(lines: Seq<Seq<char>>, width: nat, wrap: bool) -> nat
    decreases lines.len(),
{
    if lines.len() == 0 {
        0
    } else {
        line_rows(lines[0], width, wrap).len() + rows_of_lines(lines.drop_first(), width, wrap)
    }
}

/// The number of rows a text takes in a panel `width` characters wide (see `line_rows`).
pub open spec fn visual_lines_spec(text: Seq<char>, width: nat, wrap: bool) -> nat {
    rows_of_lines(lines_spec(text), width, wrap)
}


pub open spec fn rows_view(v: Seq<(usize, usize)>) -> Seq<(nat, nat)> {
    v.map_values(|r: (usize, usize)| (r.0 as nat, r.1 as nat))
}

proof fn lemma_chunk_at(line: Seq<char>, idx: int, word_end: int, ws_end: int)
    requires
        0 <= idx <= word_end <= ws_end <= line.len(),
        idx < line.len(),
        forall|k: int| idx <= k < word_end ==> !is_ws(line[k]),
        word_end == line.len() || is_ws(line[word_end]),
        forall|k: int| word_end <= k < ws_end ==> is_ws(line[k]),
        ws_end == line.len() || !is_ws(line[ws_end]),
    ensures
        chunks(line.subrange(idx, line.len() as int)).len() > 0,
        chunks(line.subrange(idx, line.len() as int))[0] == ((word_end - idx) as nat, (ws_end - word_end) as nat),
        chunks(line.subrange(idx, line.len() as int)).drop_first() == chunks(line.subrange(ws_end, line.len() as int)),
{
    let rest = line.subrange(idx, line.len() as int);
    let a = word_end - idx;
    let b = ws_end - word_end;
    lemma_word_len_at(rest, a);
    let rest2 = rest.subrange(a, rest.len() as int);
    assert(rest2 == line.subrange(word_end, line.len() as int));
    lemma_space_len_at(rest2, b);
    if a == 0 {
        assert(is_ws(rest[0]));
        assert(rest2[0] == rest[0]);
    }
    assert(a + b > 0);
    assert(rest.subrange(a + b, rest.len() as int) == line.subrange(ws_end, line.len() as int));
    assert(chunks(rest) == seq![(a as nat, b as nat)] + chunks(line.subrange(ws_end, line.len() as int)));
    assert((seq![(a as nat, b as nat)] + chunks(line.subrange(ws_end, line.len() as int))).drop_first()
        =~= chunks(line.subrange(ws_end, line.len() as int)));
}

struct Wrapper {
    rows: Vec<(usize, usize)>,
    start: usize,
    filled: usize,
    pos: usize,
}

impl Wrapper {
    spec fn state(&self) -> WrapState {
        WrapState { rows: rows_view(self.rows@), start: self.start as nat, filled: self.filled as nat, pos: self.pos as nat }
    }

    /// Every row lies before the current position, the current row ends there, and
    /// there are no more rows (counting a non-empty current row) than positions.
    spec fn sane(&self) -> bool {
        &&& self.start + self.filled == self.pos
        &&& forall|k: int| 0 <= k < self.rows@.len() ==> #[trigger] self.rows@[k].0 + self.rows@[k].1 <= self.pos
        &&& self.rows@.len() + (if self.filled > 0 { 1int } else { 0int }) <= self.pos
        &&& self.rows@.len() == 0 ==> self.start == 0
        &&& self.rows@.len() > 0 ==> self.rows@[0].0 == 0
    }

    fn fill(&mut self, n: usize, width: usize)
        requires
            width > 0,
            old(self).filled <= width,
            old(self).start <= old(self).pos,
            old(self).pos + n <= usize::MAX,
            old(self).sane(),
        ensures
            final(self).sane(),
            final(self).state() == fill(old(self).state(), n as nat, width as nat),
            final(self).filled <= width,
            final(self).pos == old(self).pos + n,
            final(self).start <= final(self).pos,
    {
        let mut rem = n;
        let ghost target = fill(self.state(), n as nat, width as nat);
        while rem > width - self.filled
            invariant
                width > 0,
                self.filled <= width,
                self.start <= self.pos,
                self.pos + rem == old(self).pos + n,
                old(self).pos + n <= usize::MAX,
                fill(self.state(), rem as nat, width as nat) == target,
                self.sane(),
            decreases rem, self.filled,
        {
            let fit = width - self.filled;
            let ghost st = self.state();
            self.rows.push((self.start, self.filled + fit));
            self.pos = self.pos + fit;
            self.start = self.pos;
            self.filled = 0;
            rem = rem - fit;
            assert(self.state().rows =~= st.rows.push((st.start, st.filled + fit as nat)));
        }
        self.filled = self.filled + rem;
        self.pos = self.pos + rem;
    }

    fn place_chunk(&mut self, a: usize, b: usize, width: usize)
        requires
            width > 0,
            old(self).filled <= width,
            old(self).start <= old(self).pos,
            old(self).pos + a + b <= usize::MAX,
            old(self).sane(),
        ensures
            final(self).sane(),
            final(self).state() == place_chunk(old(self).state(), a as nat, b as nat, width as nat),
            final(self).filled <= width,
            final(self).pos == old(self).pos + a + b,
            final(self).start <= final(self).pos,
    {
        if a > width - self.filled && self.filled > 0 {
            let ghost st = self.state();
            self.rows.push((self.start, self.filled));
            self.start = self.pos;
            self.filled = 0;
            assert(self.state().rows =~= st.rows.push((st.start, st.filled)));
        }
        self.fill(a, width);
        self.fill(b, width);
    }
}

/// The wrapped rows of a line (see `wrapped_rows`), each as its start and length.
pub fn wrap_line(line: &[char], width: usize) -> (r: Vec<(usize, usize)>)
    requires
        width > 0,
    ensures
        rows_view(r@) == wrapped_rows(line@, width as nat),
        r@.len() <= line@.len() + 1,
        r@.len() >= 1,
        r@[0].0 == 0,
        forall|k: int| 0 <= k < r@.len() ==> #[trigger] r@[k].0 + r@[k].1 <= line@.len(),
{
    let mut w = Wrapper { rows: Vec::new(), start: 0, filled: 0, pos: 0 };
    assert(w.sane());
    assert(w.state().rows =~= Seq::<(nat, nat)>::empty());
    assert(line@.subrange(0, line@.len() as int) == line@);
    while w.pos < line.len()
        invariant
            width > 0,
            w.pos <= line.len(),
            w.filled <= width,
            w.start <= w.pos,
            w.sane(),
            place_chunks(empty_state(), chunks(line@), width as nat)
                == place_chunks(w.state(), chunks(line@.subrange(w.pos as int, line@.len() as int)), width as nat),
        decreases line.len() - w.pos,
    {
        let idx = w.pos;
        let ghost rest = line@.subrange(idx as int, line@.len() as int);
        let mut word_end = idx;
        while word_end < line.len() && !is_whitespace(line[word_end])
            invariant
                idx <= word_end <= line.len(),
                forall|k: int| idx <= k < word_end ==> !is_ws(line@[k]),
            decreases line.len() - word_end,
        {
            word_end += 1;
        }
        let mut ws_end = word_end;
        while ws_end < line.len() && is_whitespace(line[ws_end])
            invariant
                word_end <= ws_end <= line.len(),
                forall|k: int| word_end <= k < ws_end ==> is_ws(line@[k]),
            decreases line.len() - ws_end,
        {
            ws_end += 1;
        }
        let a = word_end - idx;
        let b = ws_end - word_end;
        proof {
            lemma_chunk_at(line@, idx as int, word_end as int, ws_end as int);
        }
        w.place_chunk(a, b, width);
    }
    assert(line@.subrange(line@.len() as int, line@.len() as int) =~= Seq::<char>::empty());
    let ghost st = w.state();
    let mut rows = w.rows;
    rows.push((w.start, w.filled));
    assert(rows_view(rows@) =~= st.rows.push((st.start, st.filled)));
    assert(forall|k: int| 0 <= k < rows@.len() ==> #[trigger] rows@[k].0 + rows@[k].1 <= line@.len()) by {
        assert forall|k: int| 0 <= k < rows@.len() implies #[trigger] rows@[k].0 + rows@[k].1 <= line@.len() by {
            if k < rows@.len() - 1 {
                assert(rows@[k] == w.rows@[k]);
            }
        }
    }
    rows
}


/// The characters of a list of lines, each counted with one separator.
pub open spec fn lines_weight(ls: Seq<Seq<char>>) -> nat
    decreases ls.len(),
{
    if ls.len() == 0 {
        0
    } else {
        ls[0].len() + 1 + lines_weight(ls.drop_first())
    }
}

proof fn lemma_lines_weight(s: Seq<char>)
    ensures
        lines_weight(lines_spec(s)) <= s.len() + 1,
    decreases s.len(),
{
    if s.len() > 0 {
        let i = first_index(s, '\n');
        lemma_first_index_bound(s, '\n');
        if i < s.len() {
            let rest = s.subrange((i + 1) as int, s.len() as int);
            lemma_lines_weight(rest);
            let ls = lines_spec(s);
            assert(ls == seq![strip_cr(s.subrange(0, i as int))] + lines_spec(rest));
            assert(ls.drop_first() == lines_spec(rest));
            assert(ls[0].len() <= i);
            assert(lines_weight(ls) == ls[0].len() + 1 + lines_weight(ls.drop_first()));
        } else {
            assert(lines_spec(s) == seq![s]);
            assert(lines_spec(s).drop_first() =~= Seq::<Seq<char>>::empty());
            assert(lines_weight(lines_spec(s)) == s.len() + 1 + lines_weight(lines_spec(s).drop_first()));
        }
    }
}

/// The rows of a line as the layout code computes them (see `line_rows`).
fn rows_for(line: &Vec<char>, width: usize, wrap: bool) -> (r: Vec<(usize, usize)>)
    ensures
        rows_view(r@) == line_rows(line@, width as nat, wrap),
        r@.len() <= line@.len() + 1,
        r@.len() >= 1,
        r@[0].0 == 0,
        forall|k: int| 0 <= k < r@.len() ==> #[trigger] r@[k].0 + r@[k].1 <= line@.len(),
{
    if !wrap || width == 0 {
        let mut v = Vec::new();
        v.push((0, line.len()));
        assert(rows_view(v@) =~= seq![(0nat, line@.len())]);
        v
    } else {
        wrap_line(line.as_slice(), width)
    }
}

/// The number of rows a text takes in a panel `width` characters wide: with wrapping on
/// and a non-zero width, long lines are wrapped at word boundaries; otherwise one row per line.
pub fn count_visual_lines(text: &str, width: usize, wrap: bool) -> (r: usize)
    ensures
        r == visual_lines_spec(text@, width as nat, wrap),
        lines_spec(text@).len() <= r <= text@.len() + 1,
{
    let n = char_count(text);
    let chars = chars_of(text);
    let lines = split_lines(chars.as_slice());
    let ghost ls = views(lines@);
    proof {
        lemma_lines_weight(text@);
    }
    let mut total: usize = 0;
    let mut i: usize = 0;
    assert(ls.subrange(0, ls.len() as int) == ls);
    while i < lines.len()
        invariant
            ls == views(lines@),
            ls == lines_spec(text@),
            n == text@.len(),
            n <= isize::MAX,
            lines_weight(ls) <= n + 1,
            i <= lines.len(),
            total + rows_of_lines(ls.subrange(i as int, ls.len() as int), width as nat, wrap)
                == rows_of_lines(ls, width as nat, wrap),
            total <= lines_weight(ls) - lines_weight(ls.subrange(i as int, ls.len() as int)),
            i <= total,
        decreases lines.len() - i,
    {
        let ghost rest = ls.subrange(i as int, ls.len() as int);
        assert(rest[0] == lines@[i as int]@);
        assert(rest.drop_first() == ls.subrange(i + 1, ls.len() as int));
        let rows = rows_for(&lines[i], width, wrap);
        total = total + rows.len();
        i += 1;
    }
    total
}

/// The character at a row and column of the laid-out lines: `offset` is the position
/// of the first line in the text, `total` the number of characters of the text, which
/// is the answer when the row is past the last one. Each line is counted with one
/// separator.
pub open spec fn char_at_row(lines: Seq<Seq<char>>, row: int, col: int, width: nat, wrap: bool, offset: int, total: int) -> int
    decreases lines.len(),
{
    if lines.len() == 0 {
        total
    } else {
        let rs = line_rows(lines[0], width, wrap);
        if row < rs.len() {
            offset + rs[row].0 + min_nat(col, rs[row].1 as int)
        } else {
            char_at_row(lines.drop_first(), row - rs.len(), col, width, wrap, offset + lines[0].len() + 1, total)
        }
    }
}

/// The position in a text of the character shown at a row and column of the panel (see
/// `char_at_row`); a column past the end of its row gives the end of the row.
pub open spec fn visual_to_char_spec(text: Seq<char>, row: int, col: int, width: nat, wrap: bool) -> int {
    char_at_row(lines_spec(text), row, col, width, wrap, 0, text.len() as int)
}

/// The position of the character shown at a row and column (see `visual_to_char_spec`).
pub fn visual_to_char_index(text: &str, target_v_line: usize, target_v_col: usize, width: usize, wrap: bool) -> (r: usize)
    ensures
        r == visual_to_char_spec(text@, target_v_line as int, target_v_col as int, width as nat, wrap),
        r <= text@.len(),
        target_v_line == 0 && target_v_col == 0 ==> r == 0,
{
    let n = char_count(text);
    let chars = chars_of(text);
    let lines = split_lines(chars.as_slice());
    let ghost ls = views(lines@);
    proof {
        lemma_lines_weight(text@);
    }
    let mut row = target_v_line;
    let mut offset: usize = 0;
    let mut i: usize = 0;
    assert(ls.subrange(0, ls.len() as int) == ls);
    while i < lines.len()
        invariant
            ls == views(lines@),
            ls == lines_spec(text@),
            n == text@.len(),
            n <= isize::MAX,
            lines_weight(ls) <= n + 1,
            i <= lines.len(),
            offset + lines_weight(ls.subrange(i as int, ls.len() as int)) == lines_weight(ls),
            visual_to_char_spec(text@, target_v_line as int, target_v_col as int, width as nat, wrap)
                == char_at_row(ls.subrange(i as int, ls.len() as int), row as int, target_v_col as int, width as nat, wrap, offset as int, n as int),
            target_v_line == 0 ==> i == 0 && row == 0 && offset == 0,
        decreases lines.len() - i,
    {
        let ghost rest = ls.subrange(i as int, ls.len() as int);
        assert(rest[0] == lines@[i as int]@);
        assert(rest.drop_first() == ls.subrange(i + 1, ls.len() as int));
        assert(lines_weight(rest) == rest[0].len() + 1 + lines_weight(rest.drop_first()));
        let rows = rows_for(&lines[i], width, wrap);
        if row < rows.len() {
            let (start, len) = rows[row];
            assert(rows_view(rows@)[row as int] == (start as nat, len as nat));
            assert(start + len <= lines@[i as int]@.len());
            let c = if target_v_col < len { target_v_col } else { len };
            return offset + start + c;
        }
        row = row - rows.len();
        offset = offset + lines[i].len() + 1;
        i += 1;
    }
    proof {
        if n > 0 {
            assert(lines_spec(text@).len() > 0);
        }
    }
    n
}

/// The line and column of a character position: the first line (counting each line with
/// one separator) that reaches the position; past the end, the last line (line 0 for a
/// text without lines) and column `usize::MAX`.
pub open spec fn logical_pos(lines: Seq<Seq<char>>, target: int, index: int, k: int) -> (int, int)
    decreases lines.len() - k,
{
    if k >= lines.len() || k < 0 {
        (if lines.len() > 0 { lines.len() - 1 } else { 0 }, usize::MAX as int)
    } else if index + lines[k].len() >= target {
        (k, target - index)
    } else {
        logical_pos(lines, target, index + lines[k].len() + 1, k + 1)
    }
}

/// The line and column of a character position (see `logical_pos`).
pub fn char_index_to_logical(text: &str, target_index: usize) -> (r: (usize, usize))
    ensures
        (r.0 as int, r.1 as int) == logical_pos(lines_spec(text@), target_index as int, 0, 0),
{
    let n = char_count(text);
    let chars = chars_of(text);
    let lines = split_lines(chars.as_slice());
    let ghost ls = views(lines@);
    proof {
        lemma_lines_weight(text@);
    }
    let mut index: usize = 0;
    let mut k: usize = 0;
    assert(ls.subrange(0, ls.len() as int) == ls);
    while k < lines.len()
        invariant
            ls == views(lines@),
            ls == lines_spec(text@),
            n <= isize::MAX,
            lines_weight(ls) <= n + 1,
            k <= lines.len(),
            index <= target_index,
            index + lines_weight(ls.subrange(k as int, ls.len() as int)) == lines_weight(ls),
            logical_pos(ls, target_index as int, 0, 0) == logical_pos(ls, target_index as int, index as int, k as int),
        decreases lines.len() - k,
    {
        let ghost rest = ls.subrange(k as int, ls.len() as int);
        assert(rest[0] == lines@[k as int]@);
        assert(rest.drop_first() == ls.subrange(k + 1, ls.len() as int));
        let len = lines[k].len();
        if index + len >= target_index {
            return (k, target_index - index);
        }
        index = index + len + 1;
        k += 1;
    }
    (if lines.len() > 0 { lines.len() - 1 } else { 0 }, usize::MAX)
}


/// The number of rows a text takes, as a 16-bit count (wrapping past 65535 as `as u16` does).
pub fn count_display_lines(text: &str, wrap: bool, width: usize) -> (r: u16)
    ensures
        r as int == visual_lines_spec(text@, width as nat, wrap) % 65536,
{
    let n = count_visual_lines(text, width, wrap);
    assert(n as u16 == n % 65536) by (bit_vector);
    n as u16
}

proof fn lemma_char_at_row_past_end(lines: Seq<Seq<char>>, row: int, col: int, width: nat, wrap: bool, offset: int, total: int)
    requires
        row >= rows_of_lines(lines, width, wrap),
    ensures
        char_at_row(lines, row, col, width, wrap, offset, total) == total,
    decreases lines.len(),
{
    if lines.len() > 0 {
        lemma_char_at_row_past_end(lines.drop_first(), row - line_rows(lines[0], width, wrap).len(), col, width, wrap,
            offset + lines[0].len() + 1, total);
    }
}

/// A row past the last row of the laid-out text stands for the end of the text: the rows
/// that `count_visual_lines` counts are exactly those that `visual_to_char_index` maps
/// into the text.
pub proof fn law_rows_past_the_end(text: Seq<char>, row: int, col: int, width: nat, wrap: bool)
    requires
        row >= visual_lines_spec(text, width, wrap),
    ensures
        visual_to_char_spec(text, row, col, width, wrap) == text.len(),
{
    lemma_char_at_row_past_end(lines_spec(text), row, col, width, wrap, 0, text.len() as int);
}

proof fn lemma_unwrapped_round_trip(lines: Seq<Seq<char>>, j: int, l: int, c: int, width: nat, wrap: bool, off: int, total: int)
    requires
        !wrap || width == 0,
        0 <= j <= l < lines.len(),
        c >= 0,
    ensures
        char_at_row(lines.skip(j), l - j, c, width, wrap, off, total) >= off,
        logical_pos(lines, char_at_row(lines.skip(j), l - j, c, width, wrap, off, total), off, j)
            == (l, min_nat(c, lines[l].len() as int)),
    decreases l - j,
{
    let sk = lines.skip(j);
    assert(sk[0] == lines[j]);
    if j < l {
        assert(sk.drop_first() =~= lines.skip(j + 1));
        lemma_unwrapped_round_trip(lines, j + 1, l, c, width, wrap, off + lines[j].len() + 1, total);
    }
}

/// On text that is not wrapped, the position of a clicked line and column maps back to
/// that line, the column cut to the line's length: `char_index_to_logical` undoes
/// `visual_to_char_index`.
pub proof fn law_unwrapped_click_round_trip(text: Seq<char>, l: int, c: int, width: nat, wrap: bool)
    requires
        !wrap || width == 0,
        0 <= l < lines_spec(text).len(),
        c >= 0,
    ensures
        logical_pos(lines_spec(text), visual_to_char_spec(text, l, c, width, wrap), 0, 0)
            == (l, min_nat(c, lines_spec(text)[l].len() as int)),
{
    let ls = lines_spec(text);
    assert(ls.skip(0) =~= ls);
    lemma_unwrapped_round_trip(ls, 0, l, c, width, wrap, 0, text.len() as int);
}

} // verus!
