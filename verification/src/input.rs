//! The multiline prompt editor: a text buffer with a cursor, soft wrapping, and
//! undo.

use crate::text::{
    byte_len, bytes_in, cat, copies, from_chars, from_range, join, joined, lemma_byte_len_mono, to_chars,
};
use std::time::{Duration, Instant};
use vstd::prelude::*;
use vstd::string::*;

verus! {

// ---------------------------------------------------------------------------
// Display width
// ---------------------------------------------------------------------------

/// The display columns of a character; none for a control character.
pub uninterp spec fn char_cells(c: char) -> Option<usize>;

/// The display columns of a text.
pub uninterp spec fn str_cells(s: Seq<char>) -> usize;

/// Whether `c` is a printable ASCII character.
pub open spec fn is_printable(c: char) -> bool {
    ' ' <= c <= '~'
}

/// Whether a text is made of printable ASCII characters.
pub open spec fn is_plain(s: Seq<char>) -> bool {
    forall|i: int| 0 <= i < s.len() ==> is_printable(#[trigger] s[i])
}

/// `unicode_width::UnicodeWidthChar::width`: the display columns of a
/// character, at most three, or nothing for a control character. A printable
/// ASCII character takes one.
#[verifier::external_body]
pub(crate) fn char_width(c: char) -> (r: Option<usize>)
    ensures
        r == char_cells(c),
        r matches Some(w) ==> w <= 3,
        is_printable(c) ==> r == Some(1usize),
{
    unicode_width::UnicodeWidthChar::width(c)
}

/// `unicode_width::UnicodeWidthStr::width`: the display columns of a text. One
/// of printable ASCII characters takes a column for each.
#[verifier::external_body]
pub(crate) fn str_width(s: &str) -> (r: usize)
    ensures
        r == str_cells(s@),
        is_plain(s@) ==> r == s@.len(),
{
    unicode_width::UnicodeWidthStr::width(s)
}

/// The columns that a character takes by itself: none for a control character.
pub open spec fn cells(c: char) -> nat {
    if is_printable(c) {
        1
    } else {
        match char_cells(c) {
            Some(w) => w as nat,
            None => 0,
        }
    }
}

/// The columns that a text takes.
pub open spec fn columns(s: Seq<char>) -> nat {
    if is_plain(s) {
        s.len()
    } else {
        str_cells(s) as nat
    }
}

/// The columns that characters take one by one.
pub open spec fn run_cells(cs: Seq<char>) -> nat
    decreases cs.len(),
{
    if cs.len() == 0 {
        0
    } else {
        run_cells(cs.drop_last()) + cells(cs.last())
    }
}

/// The low 16 bits of a count.
pub open spec fn low16(n: int) -> u16 {
    (n % 0x1_0000) as u16
}

/// The low 16 bits of a count.
pub(crate) fn low_half(n: usize) -> (r: u16)
    ensures
        r == low16(n as int),
{
    (n % 0x1_0000) as u16
}

// ---------------------------------------------------------------------------
// Soft wrapping
// ---------------------------------------------------------------------------

/// Pieces of text, one behind the other.
pub open spec fn run_together(pieces: Seq<Seq<char>>) -> Seq<char>
    decreases pieces.len(),
{
    if pieces.len() == 0 {
        Seq::empty()
    } else {
        run_together(pieces.drop_last()) + pieces.last()
    }
}

/// Whether the pieces are the text `s` cut up, with none of them empty.
pub open spec fn is_cut(pieces: Seq<Seq<char>>, s: Seq<char>) -> bool {
    run_together(pieces) == s && forall|i: int|
        0 <= i < pieces.len() ==> (#[trigger] pieces[i]).len() > 0
}

/// The characters of a text as pieces of their own.
pub open spec fn singles(s: Seq<char>) -> Seq<Seq<char>> {
    Seq::new(s.len(), |i: int| seq![s[i]])
}

/// The extended grapheme clusters that the segmentation of `s` gives.
pub uninterp spec fn clusters(s: Seq<char>) -> Seq<Seq<char>>;

/// `unicode_segmentation::UnicodeSegmentation::graphemes` with extended
/// clusters: the text cut into its clusters, none of them empty. Each printable
/// ASCII character of a text that holds no others is a cluster.
#[verifier::external_body]
fn segments(s: &str) -> (r: Vec<String>)
    ensures
        r.deep_view() == clusters(s@),
        is_cut(r.deep_view(), s@),
        is_plain(s@) ==> r.deep_view() == singles(s@),
{
    unicode_segmentation::UnicodeSegmentation::graphemes(s, true).map(String::from).collect()
}

/// What the user sees as the characters of a text: its grapheme clusters.
pub open spec fn graphemes(s: Seq<char>) -> Seq<Seq<char>> {
    if !is_plain(s) && is_cut(clusters(s), s) {
        clusters(s)
    } else {
        singles(s)
    }
}

proof fn lemma_singles(s: Seq<char>)
    ensures
        is_cut(singles(s), s),
    decreases s.len(),
{
    if s.len() > 0 {
        lemma_singles(s.drop_last());
        assert(singles(s).drop_last() =~= singles(s.drop_last()));
        assert(s.drop_last() + seq![s.last()] =~= s);
    } else {
        assert(s =~= Seq::empty());
    }
}

/// The grapheme clusters of a text are that text cut up.
pub proof fn law_graphemes_make_up_the_text(s: Seq<char>)
    ensures
        is_cut(graphemes(s), s),
{
    lemma_singles(s);
}

/// The columns that a grapheme cluster takes when a line is wrapped.
pub open spec fn grapheme_cells(g: Seq<char>) -> nat {
    if g.len() == 1 {
        cells(g[0])
    } else {
        columns(g)
    }
}

/// The columns that a run of grapheme clusters takes when a line is wrapped.
pub open spec fn graphemes_cells(gs: Seq<Seq<char>>) -> nat
    decreases gs.len(),
{
    if gs.len() == 0 {
        0
    } else {
        graphemes_cells(gs.drop_last()) + grapheme_cells(gs.last())
    }
}

/// How many characters the first `n` pieces hold.
pub open spec fn chars_in(gs: Seq<Seq<char>>, n: int) -> nat {
    run_together(gs.take(n)).len()
}

/// One visual row produced by soft-wrapping a logical line: the line it came
/// from and the range `[start, end)` within that line. An empty line yields a
/// single row with `start == end == 0`.
#[derive(Debug, Clone, Copy, PartialEq, Eq)]
pub struct WrapRow {
    pub logical_row: usize,
    pub start: usize,
    pub end: usize,
}

/// Where the row that starts at the cluster `start` ends, given that the ones up
/// to `i` are on it and take `used` columns: before the first cluster that would
/// overflow the width, but never before the first one.
pub open spec fn row_end(gs: Seq<Seq<char>>, start: int, i: int, used: nat, width: nat) -> int
    decreases gs.len() - i,
{
    if i >= gs.len() {
        gs.len() as int
    } else if used + grapheme_cells(gs[i]) > width && i > start {
        i
    } else {
        row_end(gs, start, i + 1, used + grapheme_cells(gs[i]), width)
    }
}

/// The rows of the line of clusters `gs` from the one at `start` on, in
/// characters.
pub open spec fn line_rows(line: nat, gs: Seq<Seq<char>>, start: int, width: nat) -> Seq<WrapRow>
    decreases gs.len() - start,
{
    let end = row_end(gs, start, start, 0, width);
    let row = WrapRow {
        logical_row: line as usize,
        start: chars_in(gs, start) as usize,
        end: chars_in(gs, end) as usize,
    };
    if start < end < gs.len() {
        seq![row] + line_rows(line, gs, end, width)
    } else {
        seq![row]
    }
}

/// The rows of all lines, in characters.
pub open spec fn char_rows_of(lines: Seq<Seq<char>>, width: nat) -> Seq<WrapRow>
    decreases lines.len(),
{
    if lines.len() == 0 {
        Seq::empty()
    } else {
        char_rows_of(lines.drop_last(), width) + line_rows(
            (lines.len() - 1) as nat,
            graphemes(lines.last()),
            0,
            width,
        )
    }
}

/// A row with its range in bytes instead of characters.
pub open spec fn in_bytes(lines: Seq<Seq<char>>, r: WrapRow) -> WrapRow {
    WrapRow {
        logical_row: r.logical_row,
        start: byte_len(lines[r.logical_row as int].take(r.start as int)) as usize,
        end: byte_len(lines[r.logical_row as int].take(r.end as int)) as usize,
    }
}

/// A width of zero counts as one column.
pub open spec fn at_least_one(width: u16) -> nat {
    if width == 0 {
        1
    } else {
        width as nat
    }
}

/// The rows of all lines at a terminal width, in characters.
pub open spec fn visual_rows(lines: Seq<Seq<char>>, width: u16) -> Seq<WrapRow> {
    char_rows_of(lines, at_least_one(width))
}

proof fn lemma_row_end(gs: Seq<Seq<char>>, start: int, i: int, used: nat, width: nat)
    requires
        0 <= start <= i <= gs.len(),
        used == graphemes_cells(gs.subrange(start, i)),
        i > start + 1 ==> used <= width,
    ensures
        i <= row_end(gs, start, i, used, width) <= gs.len(),
        ({
            let e = row_end(gs, start, i, used, width);
            &&& start < gs.len() ==> start < e
            &&& e > start + 1 ==> graphemes_cells(gs.subrange(start, e)) <= width
            &&& e < gs.len() ==> graphemes_cells(gs.subrange(start, e + 1)) > width
        }),
    decreases gs.len() - i,
{
    if i < gs.len() {
        assert(gs.subrange(start, i + 1).drop_last() =~= gs.subrange(start, i));
        assert(gs.subrange(start, i + 1).last() == gs[i]);
        if used + grapheme_cells(gs[i]) > width && i > start {
        } else {
            lemma_row_end(gs, start, i + 1, used + grapheme_cells(gs[i]), width);
        }
    }
}

proof fn lemma_chars_in(gs: Seq<Seq<char>>, a: int, b: int)
    requires
        0 <= a <= b <= gs.len(),
        forall|i: int| 0 <= i < gs.len() ==> (#[trigger] gs[i]).len() > 0,
    ensures
        chars_in(gs, a) <= chars_in(gs, b),
        a < b ==> chars_in(gs, a) < chars_in(gs, b),
        chars_in(gs, 0) == 0,
        chars_in(gs, gs.len() as int) == run_together(gs).len(),
    decreases b - a,
{
    assert(gs.take(gs.len() as int) =~= gs);
    if a < b {
        lemma_chars_in(gs, a, b - 1);
        assert(gs.take(b).drop_last() =~= gs.take(b - 1));
        assert(gs.take(b).last() == gs[b - 1]);
    }
}

/// Whether the row `k` holds the clusters `a..b`: as many as fit `width`, or a
/// single one. Where more rows follow, one more cluster would not fit.
pub open spec fn holds(
    gs: Seq<Seq<char>>,
    rows: Seq<WrapRow>,
    k: int,
    a: int,
    b: int,
    width: nat,
) -> bool {
    &&& 0 <= a <= b <= gs.len()
    &&& rows[k].start == chars_in(gs, a)
    &&& rows[k].end == chars_in(gs, b)
    &&& b > a + 1 ==> graphemes_cells(gs.subrange(a, b)) <= width
    &&& k + 1 < rows.len() ==> b < gs.len() && graphemes_cells(gs.subrange(a, b + 1)) > width
}

/// Whether `r` is a range within its line.
pub open spec fn row_in(lines: Seq<Seq<char>>, r: WrapRow) -> bool {
    &&& r.logical_row < lines.len()
    &&& r.start <= r.end <= lines[r.logical_row as int].len()
    &&& lines[r.logical_row as int].len() > 0 ==> r.start < r.end
}

/// The rows of a line follow one another from the cluster at `start` to its end.
/// No cluster is split; each row but the last is full, and none is overfull
/// unless a single cluster is too wide.
pub proof fn law_line_rows_tile(line: nat, gs: Seq<Seq<char>>, start: int, width: nat)
    requires
        0 <= start <= gs.len(),
        start == gs.len() ==> start == 0,
        forall|i: int| 0 <= i < gs.len() ==> (#[trigger] gs[i]).len() > 0,
        run_together(gs).len() <= usize::MAX,
        line <= usize::MAX,
    ensures
        ({
            let rows = line_rows(line, gs, start, width);
            &&& rows.len() >= 1
            &&& rows[0].start == chars_in(gs, start)
            &&& rows.last().end == run_together(gs).len()
            &&& forall|k: int|
                0 <= k < rows.len() ==> {
                    let r = #[trigger] rows[k];
                    &&& r.logical_row == line
                    &&& chars_in(gs, start) <= r.start <= r.end <= run_together(gs).len()
                    &&& gs.len() > 0 ==> r.start < r.end
                    &&& exists|a: int, b: int| #[trigger] holds(gs, rows, k, a, b, width)
                }
            &&& forall|k: int|
                0 <= k && k + 1 < rows.len() ==> (#[trigger] rows[k]).end == rows[k + 1].start
        }),
    decreases gs.len() - start,
{
    let rows = line_rows(line, gs, start, width);
    let end = row_end(gs, start, start, 0, width);
    assert(gs.subrange(start, start) =~= Seq::<Seq<char>>::empty());
    lemma_row_end(gs, start, start, 0, width);
    lemma_chars_in(gs, start, end);
    lemma_chars_in(gs, end, gs.len() as int);
    if start < end < gs.len() {
        let rest = line_rows(line, gs, end, width);
        law_line_rows_tile(line, gs, end, width);
        assert forall|k: int| 0 <= k < rows.len() implies {
            let r = #[trigger] rows[k];
            &&& r.logical_row == line
            &&& chars_in(gs, start) <= r.start <= r.end <= run_together(gs).len()
            &&& gs.len() > 0 ==> r.start < r.end
            &&& exists|a: int, b: int| #[trigger] holds(gs, rows, k, a, b, width)
        } by {
            if k > 0 {
                assert(rows[k] == rest[k - 1]);
                let (a, b) = choose|a: int, b: int| #[trigger] holds(gs, rest, k - 1, a, b, width);
                assert(holds(gs, rows, k, a, b, width));
            } else {
                assert(holds(gs, rows, 0, start, end, width));
            }
        }
        assert forall|k: int| 0 <= k && k + 1 < rows.len() implies (#[trigger] rows[k]).end == rows[k
            + 1].start by {
            if k > 0 {
                assert(rows[k] == rest[k - 1]);
                assert(rows[k + 1] == rest[k]);
            } else {
                assert(rows[1] == rest[0]);
            }
        }
        assert(rows.last() == rest.last());
    } else {
        assert(holds(gs, rows, 0, start, end, width));
    }
}

/// Whether the lines and their lengths can be counted with `usize`.
pub open spec fn addressable(lines: Seq<Seq<char>>) -> bool {
    lines.len() <= usize::MAX && forall|i: int|
        0 <= i < lines.len() ==> (#[trigger] lines[i]).len() <= usize::MAX
}

/// Every row of a wrapped text is a range within its line, and there is a row
/// for each line.
pub proof fn law_rows_in_lines(lines: Seq<Seq<char>>, width: nat)
    requires
        addressable(lines),
    ensures
        char_rows_of(lines, width).len() >= lines.len(),
        forall|k: int|
            0 <= k < char_rows_of(lines, width).len() ==> row_in(
                lines,
                #[trigger] char_rows_of(lines, width)[k],
            ),
    decreases lines.len(),
{
    if lines.len() > 0 {
        let before = lines.drop_last();
        let n = (lines.len() - 1) as nat;
        assert forall|i: int| 0 <= i < before.len() implies (#[trigger] before[i]).len()
            <= usize::MAX by {
            assert(before[i] == lines[i]);
        }
        law_rows_in_lines(before, width);
        let gs = graphemes(lines.last());
        law_graphemes_make_up_the_text(lines.last());
        lemma_chars_in(gs, 0, gs.len() as int);
        law_line_rows_tile(n, gs, 0, width);
        let a = char_rows_of(before, width);
        let b = line_rows(n, gs, 0, width);
        assert forall|k: int| 0 <= k < char_rows_of(lines, width).len() implies row_in(
            lines,
            #[trigger] char_rows_of(lines, width)[k],
        ) by {
            if k < a.len() {
                assert(char_rows_of(lines, width)[k] == a[k]);
                assert(row_in(before, a[k]));
            } else {
                assert(char_rows_of(lines, width)[k] == b[k - a.len()]);
            }
        }
    }
}

/// The characters and the columns of a grapheme cluster.
fn measure(g: &str) -> (r: (usize, usize))
    ensures
        r.0 == g@.len(),
        r.1 == grapheme_cells(g@),
{
    let cs = to_chars(g);
    if cs.len() == 1 {
        match char_width(cs[0]) {
            Some(w) => (1, w),
            None => (1, 0),
        }
    } else {
        (cs.len(), str_width(g))
    }
}

/// Appends the rows of one line, in characters.
fn wrap_line(out: &mut Vec<WrapRow>, line: usize, text: &str, width: usize)
    requires
        1 <= width <= 0xffff,
        text@.len() <= usize::MAX,
    ensures
        final(out)@ == old(out)@ + line_rows(line as nat, graphemes(text@), 0, width as nat),
{
    let segs = segments(text);
    let ghost gs = graphemes(text@);
    let ghost before = out@;
    let ghost all = line_rows(line as nat, gs, 0, width as nat);
    proof {
        law_graphemes_make_up_the_text(text@);
        lemma_chars_in(gs, 0, 0);
    }
    let mut start: usize = 0;
    let mut from: usize = 0;
    let mut used: usize = 0;
    let mut at: usize = 0;
    let mut i: usize = 0;
    while i < segs.len()
        invariant
            1 <= width <= 0xffff,
            segs.deep_view() == gs,
            is_cut(gs, text@),
            text@.len() <= usize::MAX,
            start <= i <= gs.len(),
            gs.len() == segs@.len(),
            from == chars_in(gs, start as int),
            at == chars_in(gs, i as int),
            i == start ==> used == 0,
            i > start + 1 ==> used <= width,
            out@ + line_rows(line as nat, gs, start as int, width as nat) == before + all,
            row_end(gs, start as int, i as int, used as nat, width as nat) == row_end(
                gs,
                start as int,
                start as int,
                0,
                width as nat,
            ),
        decreases gs.len() - i,
    {
        assert(gs[i as int] == segs@[i as int]@);
        let (n, cw) = measure(segs[i].as_str());
        proof {
            lemma_chars_in(gs, i + 1, gs.len() as int);
            assert(gs.take(i + 1).drop_last() =~= gs.take(i as int));
            assert(gs.take(i + 1).last() == gs[i as int]);
        }
        if i > start && (used > width || cw > width - used) {
            proof {
                let row = WrapRow { logical_row: line, start: from, end: at };
                let rest = line_rows(line as nat, gs, i as int, width as nat);
                assert(line_rows(line as nat, gs, start as int, width as nat) == seq![row] + rest);
                assert(out@ + (seq![row] + rest) =~= out@.push(row) + rest);
            }
            out.push(WrapRow { logical_row: line, start: from, end: at });
            start = i;
            from = at;
            used = 0;
            proof {
                assert(row_end(gs, i as int, i as int, 0, width as nat) == row_end(
                    gs,
                    i as int,
                    i + 1,
                    grapheme_cells(gs[i as int]),
                    width as nat,
                ));
            }
        }
        used = used + cw;
        at = at + n;
        i += 1;
    }
    proof {
        let row = WrapRow { logical_row: line, start: from, end: at };
        assert(line_rows(line as nat, gs, start as int, width as nat) =~= seq![row]);
        assert(out@ + seq![row] =~= out@.push(row));
    }
    out.push(WrapRow { logical_row: line, start: from, end: at });
}

/// The rows of all lines, in characters.
pub(crate) fn char_rows(lines: &[String], width: u16) -> (r: Vec<WrapRow>)
    ensures
        r@ == visual_rows(lines.deep_view(), width),
        addressable(lines.deep_view()),
{
    let w: usize = if width == 0 {
        1
    } else {
        width as usize
    };
    let ghost all = lines.deep_view();
    let mut out: Vec<WrapRow> = Vec::new();
    let mut i: usize = 0;
    while i < lines.len()
        invariant
            i <= lines@.len(),
            1 <= w <= 0xffff,
            all == lines.deep_view(),
            out@ == char_rows_of(all.take(i as int), w as nat),
            forall|k: int| 0 <= k < i ==> (#[trigger] all[k]).len() <= usize::MAX,
        decreases lines@.len() - i,
    {
        let text = lines[i].as_str();
        let n: usize = to_chars(text).len();
        proof {
            assert(all[i as int].len() == n);
            assert(all.take(i + 1).drop_last() =~= all.take(i as int));
            assert(all.take(i + 1).last() == text@);
        }
        wrap_line(&mut out, i, text, w);
        i += 1;
    }
    assert(all.take(i as int) =~= all);
    out
}

/// How many bytes the first `n` characters of `line` take.
fn byte_offset(line: &str, n: usize) -> (r: usize)
    requires
        n <= line@.len(),
    ensures
        r == byte_len(line@.take(n as int)),
{
    assert(line@.subrange(0, n as int) =~= line@.take(n as int));
    bytes_in(line.substring_char(0, n))
}

/// Breaks each logical line into visual rows that each fit within `width`
/// display columns. A grapheme cluster is never split: one that would overflow
/// starts the next row instead. A `width` of zero is treated as one. The ranges are in
/// bytes.
#[must_use]
pub fn wrap_rows(lines: &[String], width: u16) -> (r: Vec<WrapRow>)
    ensures
        r@ == visual_rows(lines.deep_view(), width).map_values(
            |row: WrapRow| in_bytes(lines.deep_view(), row),
        ),
{
    let rows = char_rows(lines, width);
    let ghost all = lines.deep_view();
    let ghost f = |row: WrapRow| in_bytes(all, row);
    proof {
        law_rows_in_lines(all, at_least_one(width));
    }
    let mut out: Vec<WrapRow> = Vec::new();
    let mut i: usize = 0;
    while i < rows.len()
        invariant
            i <= rows@.len(),
            all == lines.deep_view(),
            f == (|row: WrapRow| in_bytes(all, row)),
            forall|k: int| 0 <= k < rows@.len() ==> row_in(all, #[trigger] rows@[k]),
            out@ == rows@.take(i as int).map_values(f),
        decreases rows@.len() - i,
    {
        let r = rows[i];
        assert(row_in(all, r));
        assert(all[r.logical_row as int] == lines@[r.logical_row as int]@);
        let line = lines[r.logical_row].as_str();
        let b = WrapRow {
            logical_row: r.logical_row,
            start: byte_offset(line, r.start),
            end: byte_offset(line, r.end),
        };
        out.push(b);
        proof {
            assert(b == f(r));
            assert(rows@.take(i + 1).map_values(f) =~= rows@.take(i as int).map_values(f).push(b));
        }
        i += 1;
    }
    assert(rows@.take(i as int) =~= rows@);
    out
}

// ---------------------------------------------------------------------------
// The buffer
// ---------------------------------------------------------------------------

/// Consecutive edits of one kind within this many milliseconds merge into one
/// undo step, so undo does not take one keystroke per keystroke.
pub const UNDO_MERGE_MILLIS: u128 = 1000;

/// The oldest undo steps are dropped past this depth.
pub const UNDO_MAX_DEPTH: usize = 100;

/// What kind of edit happened: it decides whether an edit merges with the
/// previous undo step or starts a new one.
#[derive(Debug, Clone, Copy, PartialEq, Eq, Structural)]
pub enum MutationKind {
    /// Typing and line breaks: merged.
    Insert,
    /// Backspace: merged.
    Delete,
    /// Replacing a token: always a step of its own.
    Replace,
}

/// A full snapshot of the buffer and the cursor.
#[derive(Debug)]
pub struct UndoEntry {
    lines: Vec<String>,
    row: usize,
    col: usize,
}

/// The buffer and the cursor at one moment. The column counts characters.
#[verifier::ext_equal]
pub struct Snapshot {
    pub lines: Seq<Seq<char>>,
    pub row: int,
    pub col: int,
}

impl Snapshot {
    /// Whether the cursor stands on a line of the buffer, at most at its end.
    pub open spec fn wf(self) -> bool {
        0 <= self.row < self.lines.len() && 0 <= self.col <= self.lines[self.row].len()
    }
}

impl DeepView for UndoEntry {
    type V = Snapshot;

    closed spec fn deep_view(&self) -> Snapshot {
        Snapshot { lines: self.lines.deep_view(), row: self.row as int, col: self.col as int }
    }
}

/// The value of an [`Editor`].
#[verifier::ext_equal]
pub struct EditorModel {
    /// The buffer and the cursor.
    pub at: Snapshot,
    /// The column that vertical moves aim for.
    pub preferred: Option<u16>,
    /// What undo goes back to, the latest last.
    pub undo: Seq<Snapshot>,
    /// What redo goes forward to, the next last.
    pub redo: Seq<Snapshot>,
    /// The kind of the edit that a further one may merge with.
    pub last_kind: Option<MutationKind>,
    /// When the last edit was made, where there was one.
    pub edited: Option<Instant>,
}

/// A stack without its oldest entry, where it is deeper than the limit.
pub open spec fn capped(stack: Seq<Snapshot>) -> Seq<Snapshot> {
    if stack.len() > UNDO_MAX_DEPTH {
        stack.skip(1)
    } else {
        stack
    }
}

impl EditorModel {
    /// An empty buffer.
    pub open spec fn blank() -> EditorModel {
        EditorModel {
            at: Snapshot { lines: seq![Seq::<char>::empty()], row: 0, col: 0 },
            preferred: None,
            undo: Seq::empty(),
            redo: Seq::empty(),
            last_kind: None,
            edited: None,
        }
    }

    /// Whether the cursor, now and in every undo and redo step, stands on a line
    /// of the buffer, the steps are within the depth limit, and nothing can be
    /// done again after an edit.
    pub open spec fn wf(self) -> bool {
        &&& self.at.wf()
        &&& forall|i: int| 0 <= i < self.undo.len() ==> (#[trigger] self.undo[i]).wf()
        &&& forall|i: int| 0 <= i < self.redo.len() ==> (#[trigger] self.redo[i]).wf()
        &&& self.undo.len() + self.redo.len() <= UNDO_MAX_DEPTH
        &&& self.last_kind is Some ==> self.redo.len() == 0
    }

    /// The line under the cursor.
    pub open spec fn line(self) -> Seq<char> {
        self.at.lines[self.at.row]
    }

    /// Whether an edit of `kind` extends the current undo step, given whether
    /// the last edit was recent.
    pub open spec fn merges(self, kind: MutationKind, time: EditTime) -> bool {
        kind != MutationKind::Replace && self.last_kind == Some(kind) && self.edited is Some && time.recent
    }

    /// With the current state checkpointed for an edit of `kind`: a new step
    /// goes on the undo stack and makes redo void.
    pub open spec fn recorded(self, kind: MutationKind, time: EditTime) -> EditorModel {
        let merge = self.merges(kind, time);
        EditorModel {
            undo: if merge {
                self.undo
            } else {
                capped(self.undo.push(self.at))
            },
            redo: if merge {
                self.redo
            } else {
                Seq::empty()
            },
            last_kind: Some(kind),
            edited: Some(time.now),
            preferred: None,
            ..self
        }
    }

    /// With `c` inserted before the cursor.
    pub open spec fn inserted(self, c: char, time: EditTime) -> EditorModel {
        EditorModel {
            at: Snapshot {
                lines: self.at.lines.update(self.at.row, self.line().insert(self.at.col, c)),
                row: self.at.row,
                col: self.at.col + 1,
            },
            ..self.recorded(MutationKind::Insert, time)
        }
    }

    /// With the line broken at the cursor.
    pub open spec fn broken(self, time: EditTime) -> EditorModel {
        EditorModel {
            at: Snapshot {
                lines: self.at.lines.update(self.at.row, self.line().take(self.at.col)).insert(
                    self.at.row + 1,
                    self.line().skip(self.at.col),
                ),
                row: self.at.row + 1,
                col: 0,
            },
            ..self.recorded(MutationKind::Insert, time)
        }
    }

    /// With the character before the cursor removed, or the line joined to the
    /// previous one where the cursor is at its start.
    pub open spec fn backspaced(self, time: EditTime) -> EditorModel {
        let base = self.recorded(MutationKind::Delete, time);
        if self.at.col > 0 {
            EditorModel {
                at: Snapshot {
                    lines: self.at.lines.update(self.at.row, self.line().remove(self.at.col - 1)),
                    row: self.at.row,
                    col: self.at.col - 1,
                },
                ..base
            }
        } else if self.at.row > 0 {
            let above = self.at.lines[self.at.row - 1];
            EditorModel {
                at: Snapshot {
                    lines: self.at.lines.remove(self.at.row).update(
                        self.at.row - 1,
                        above + self.line(),
                    ),
                    row: self.at.row - 1,
                    col: above.len() as int,
                },
                ..base
            }
        } else {
            base
        }
    }

    /// With the characters `from..to` of line `row` replaced by `text`, and the
    /// cursor behind it.
    pub open spec fn replaced(
        self,
        row: int,
        from: int,
        to: int,
        text: Seq<char>,
        time: EditTime,
    ) -> EditorModel {
        let line = self.at.lines[row];
        EditorModel {
            at: Snapshot {
                lines: self.at.lines.update(row, line.take(from) + text + line.skip(to)),
                row,
                col: from + text.len(),
            },
            ..self.recorded(MutationKind::Replace, time)
        }
    }

    /// With the cursor at `row` and `col`, and no column aimed for.
    pub open spec fn moved(self, row: int, col: int) -> EditorModel {
        EditorModel { at: Snapshot { row, col, ..self.at }, preferred: None, ..self }
    }

    /// With the cursor one character back, across the line start.
    pub open spec fn left(self) -> EditorModel {
        if self.at.col > 0 {
            self.moved(self.at.row, self.at.col - 1)
        } else if self.at.row > 0 {
            self.moved(self.at.row - 1, self.at.lines[self.at.row - 1].len() as int)
        } else {
            self.moved(self.at.row, self.at.col)
        }
    }

    /// With the cursor one character on, across the line end.
    pub open spec fn right(self) -> EditorModel {
        if self.at.col < self.line().len() {
            self.moved(self.at.row, self.at.col + 1)
        } else if self.at.row + 1 < self.at.lines.len() {
            self.moved(self.at.row + 1, 0)
        } else {
            self.moved(self.at.row, self.at.col)
        }
    }

    /// With the cursor at the start of its line.
    pub open spec fn home(self) -> EditorModel {
        self.moved(self.at.row, 0)
    }

    /// With the cursor at the end of its line.
    pub open spec fn end(self) -> EditorModel {
        self.moved(self.at.row, self.line().len() as int)
    }

    /// With the last undo step taken back.
    pub open spec fn undone(self) -> EditorModel {
        if self.undo.len() == 0 {
            self
        } else {
            EditorModel {
                at: self.undo.last(),
                undo: self.undo.drop_last(),
                redo: self.redo.push(self.at),
                last_kind: None,
                preferred: None,
                ..self
            }
        }
    }

    /// With the last step that was taken back done again.
    pub open spec fn redone(self) -> EditorModel {
        if self.redo.len() == 0 {
            self
        } else {
            EditorModel {
                at: self.redo.last(),
                redo: self.redo.drop_last(),
                undo: self.undo.push(self.at),
                last_kind: None,
                preferred: None,
                ..self
            }
        }
    }

    /// The whole text.
    pub open spec fn text(self) -> Seq<char> {
        joined(self.at.lines, "\n"@)
    }

    /// Whether nothing has been typed.
    pub open spec fn is_empty(self) -> bool {
        self.at.lines.len() == 1 && self.at.lines[0].len() == 0
    }

    /// The character before the cursor on its line.
    pub open spec fn prev_char(self) -> Option<char> {
        if self.at.col > 0 {
            Some(self.line()[self.at.col - 1])
        } else {
            None
        }
    }
}

/// When an edit happens: the clock, and whether the editor's last edit was
/// recent by it.
#[derive(Debug, Clone, Copy)]
pub struct EditTime {
    pub now: Instant,
    pub recent: bool,
}

#[verifier::external_type_specification]
#[verifier::external_body]
pub struct ExInstant(Instant);

/// `std::time::Instant::now`: the clock. Nothing is claimed of the reading.
pub assume_specification[ Instant::now ]() -> (r: Instant);

/// The time from `earlier` to `later`.
pub uninterp spec fn time_between(later: Instant, earlier: Instant) -> Duration;

/// The whole milliseconds of a span of time.
pub uninterp spec fn whole_millis(d: Duration) -> u128;

/// `std::time::Instant::duration_since`: the time from `earlier` to `later`, which
/// depends on the two readings alone.
pub assume_specification[ Instant::duration_since ](later: &Instant, earlier: Instant) -> (r:
    Duration)
    ensures
        r == time_between(*later, earlier),
;

/// `std::time::Duration::as_millis`: the whole milliseconds, which depend on the
/// span alone.
pub assume_specification[ Duration::as_millis ](d: &Duration) -> (r: u128)
    ensures
        r == whole_millis(*d),
;

/// Whether an edit at `now` follows the edit at `last` closely enough to extend its
/// undo step. None does where there was no edit.
pub open spec fn within_window(last: Option<Instant>, now: Instant) -> bool {
    match last {
        Some(t) => whole_millis(time_between(now, t)) < UNDO_MERGE_MILLIS,
        None => false,
    }
}

/// Whether an edit so many milliseconds ago is recent.
pub fn is_recent(millis: u128) -> (r: bool)
    ensures
        r == (millis < UNDO_MERGE_MILLIS),
{
    millis < UNDO_MERGE_MILLIS
}

/// A multiline text buffer with a cursor and undo. The cursor's column counts
/// characters; [`Editor::cursor`] gives it in bytes.
#[derive(Debug)]
pub struct Editor {
    lines: Vec<String>,
    row: usize,
    col: usize,
    preferred_col: Option<u16>,
    undo: Vec<UndoEntry>,
    redo: Vec<UndoEntry>,
    last_kind: Option<MutationKind>,
    last_edit_at: Option<Instant>,
}

impl DeepView for Editor {
    type V = EditorModel;

    closed spec fn deep_view(&self) -> EditorModel {
        EditorModel {
            at: Snapshot {
                lines: self.lines.deep_view(),
                row: self.row as int,
                col: self.col as int,
            },
            preferred: self.preferred_col,
            undo: self.undo.deep_view(),
            redo: self.redo.deep_view(),
            last_kind: self.last_kind,
            edited: self.last_edit_at,
        }
    }
}

/// The strings of `v` with `s` in place of the one at `i`.
proof fn lemma_set_view(v: Vec<String>, w: Vec<String>, i: int, s: String)
    requires
        0 <= i < v@.len(),
        w@ == v@.update(i, s),
    ensures
        w.deep_view() == v.deep_view().update(i, s@),
{
    assert(w.deep_view() =~= v.deep_view().update(i, s@));
}

impl Editor {
    /// Whether the cursor, now and in every undo and redo step, stands on a line
    /// of the buffer.
    pub open spec fn wf(&self) -> bool {
        self.deep_view().wf()
    }

    #[must_use]
    pub fn new() -> (r: Self)
        ensures
            r.deep_view() == EditorModel::blank(),
            r.wf(),
    {
        let mut lines: Vec<String> = Vec::new();
        lines.push(String::new());
        let r = Editor {
            lines,
            row: 0,
            col: 0,
            preferred_col: None,
            undo: Vec::new(),
            redo: Vec::new(),
            last_kind: None,
            last_edit_at: None,
        };
        assert(r.deep_view() =~= EditorModel::blank());
        r
    }

    /// Reads the clock for the next edit, and tells whether the last one was recent by
    /// it. Before any edit, none is recent.
    pub fn edit_time(&self) -> (r: EditTime)
        ensures
            self.deep_view().timely(r),
    {
        let now = Instant::now();
        let recent: bool = match self.last_edit_at {
            Some(t) => is_recent(now.duration_since(t).as_millis()),
            None => false,
        };
        EditTime { now, recent }
    }

    /// The buffer and the cursor as they are now.
    fn snapshot(&self) -> (r: UndoEntry)
        ensures
            r.deep_view() == self.deep_view().at,
    {
        UndoEntry { lines: copies(&self.lines), row: self.row, col: self.col }
    }

    /// Checkpoints the state before an edit of `kind`.
    fn record_undo(&mut self, kind: MutationKind, time: EditTime)
        requires
            old(self).wf(),
        ensures
            final(self).deep_view() == old(self).deep_view().recorded(kind, time),
            final(self).wf(),
            final(self).lines == old(self).lines,
            final(self).row == old(self).row,
            final(self).col == old(self).col,
    {
        let merge: bool = kind != MutationKind::Replace && self.last_kind == Some(kind)
            && self.last_edit_at.is_some() && time.recent;
        if !merge {
            let ghost u = self.undo.deep_view();
            let snap = self.snapshot();
            let ghost at = snap.deep_view();
            self.undo.push(snap);
            assert(self.undo.deep_view() =~= u.push(at));
            if self.undo.len() > UNDO_MAX_DEPTH {
                let ghost full = self.undo.deep_view();
                self.undo.remove(0);
                assert(self.undo.deep_view() =~= full.skip(1));
            }
            self.redo = Vec::new();
            assert(self.redo.deep_view() =~= Seq::<Snapshot>::empty());
        }
        self.last_kind = Some(kind);
        self.last_edit_at = Some(time.now);
        self.preferred_col = None;
        assert(self.deep_view() =~= old(self).deep_view().recorded(kind, time));
    }

    /// Puts `line` in place of the line at `i`.
    fn set_line(&mut self, i: usize, line: String)
        requires
            i < old(self).lines@.len(),
        ensures
            final(self).lines.deep_view() == old(self).lines.deep_view().update(i as int, line@),
            *final(self) == (Editor { lines: final(self).lines, ..*old(self) }),
    {
        let ghost v = self.lines;
        self.lines.set(i, line);
        proof {
            lemma_set_view(v, self.lines, i as int, line);
        }
    }

    /// Inserts `c` before the cursor.
    pub fn insert(&mut self, c: char)
        requires
            old(self).wf(),
        ensures
            final(self).wf(),
            exists|time: EditTime|
                #[trigger] old(self).deep_view().timely(time) && final(self).deep_view() == old(
                    self,
                ).deep_view().inserted(c, time),
    {
        let time = self.edit_time();
        self.insert_at(c, time);
    }

    /// Inserts `c` before the cursor, at a given time.
    pub fn insert_at(&mut self, c: char, time: EditTime)
        requires
            old(self).wf(),
        ensures
            final(self).wf(),
            final(self).deep_view() == old(self).deep_view().inserted(c, time),
    {
        self.record_undo(MutationKind::Insert, time);
        let ghost line = self.lines@[self.row as int]@;
        let mut cs = to_chars(self.lines[self.row].as_str());
        cs.insert(self.col, c);
        let n: usize = cs.len();
        assert(self.col + 1 <= n);
        let s = from_chars(&cs);
        assert(s@ =~= line.insert(self.col as int, c));
        let r: usize = self.row;
        self.set_line(r, s);
        self.col = self.col + 1;
        proof {
            assert(self.deep_view() =~= old(self).deep_view().inserted(c, time));
        }
    }

    /// Breaks the line at the cursor.
    pub fn newline(&mut self)
        requires
            old(self).wf(),
        ensures
            final(self).wf(),
            exists|time: EditTime|
                #[trigger] old(self).deep_view().timely(time) && final(self).deep_view() == old(
                    self,
                ).deep_view().broken(time),
    {
        let time = self.edit_time();
        self.newline_at(time);
    }

    /// Breaks the line at the cursor, at a given time.
    pub fn newline_at(&mut self, time: EditTime)
        requires
            old(self).wf(),
        ensures
            final(self).wf(),
            final(self).deep_view() == old(self).deep_view().broken(time),
    {
        self.record_undo(MutationKind::Insert, time);
        let cs = to_chars(self.lines[self.row].as_str());
        let head = from_range(&cs, 0, self.col);
        let rest = from_range(&cs, self.col, cs.len());
        let r: usize = self.row;
        let n: usize = self.lines.len();
        assert(r + 1 <= n);
        let ghost line = cs@;
        proof {
            assert(head@ =~= line.take(self.col as int));
            assert(rest@ =~= line.skip(self.col as int));
        }
        self.set_line(r, head);
        let ghost v = self.lines.deep_view();
        self.lines.insert(r + 1, rest);
        assert(self.lines.deep_view() =~= v.insert(r + 1, rest@));
        self.row = r + 1;
        self.col = 0;
        proof {
            let m = old(self).deep_view().broken(time);
            assert(self.deep_view() =~= m);
            assert(m.at.lines[m.at.row] == rest@);
        }
    }

    /// Removes the character before the cursor; at the start of a line joins it
    /// to the previous one.
    pub fn backspace(&mut self)
        requires
            old(self).wf(),
        ensures
            final(self).wf(),
            exists|time: EditTime|
                #[trigger] old(self).deep_view().timely(time) && final(self).deep_view() == old(
                    self,
                ).deep_view().backspaced(time),
    {
        let time = self.edit_time();
        self.backspace_at(time);
    }

    /// Removes the character before the cursor, at a given time.
    pub fn backspace_at(&mut self, time: EditTime)
        requires
            old(self).wf(),
        ensures
            final(self).wf(),
            final(self).deep_view() == old(self).deep_view().backspaced(time),
    {
        self.record_undo(MutationKind::Delete, time);
        let r: usize = self.row;
        if self.col > 0 {
            let mut cs = to_chars(self.lines[r].as_str());
            let ghost line = cs@;
            cs.remove(self.col - 1);
            let s = from_chars(&cs);
            assert(s@ =~= line.remove(self.col - 1));
            self.set_line(r, s);
            self.col = self.col - 1;
            assert(self.deep_view() =~= old(self).deep_view().backspaced(time));
        } else if r > 0 {
            let above: usize = to_chars(self.lines[r - 1].as_str()).len();
            let merged = cat(self.lines[r - 1].as_str(), self.lines[r].as_str());
            let ghost v = self.lines.deep_view();
            self.lines.remove(r);
            assert(self.lines.deep_view() =~= v.remove(r as int));
            self.set_line(r - 1, merged);
            self.row = r - 1;
            self.col = above;
            assert(self.deep_view() =~= old(self).deep_view().backspaced(time));
        } else {
            assert(self.deep_view() =~= old(self).deep_view().backspaced(time));
        }
    }

    /// Moves the cursor back one character, crossing to the end of the previous
    /// line at column zero. Does nothing at the start of the buffer.
    pub fn move_left(&mut self)
        requires
            old(self).wf(),
        ensures
            final(self).wf(),
            final(self).deep_view() == old(self).deep_view().left(),
    {
        self.preferred_col = None;
        if self.col > 0 {
            self.col = self.col - 1;
        } else if self.row > 0 {
            self.row = self.row - 1;
            self.col = to_chars(self.lines[self.row].as_str()).len();
        }
        assert(self.deep_view() =~= old(self).deep_view().left());
    }

    /// Moves the cursor on one character, crossing to the start of the next line
    /// at the line's end. Does nothing at the end of the buffer.
    pub fn move_right(&mut self)
        requires
            old(self).wf(),
        ensures
            final(self).wf(),
            final(self).deep_view() == old(self).deep_view().right(),
    {
        self.preferred_col = None;
        let n: usize = self.lines.len();
        assert(self.row + 1 <= n);
        if self.col < to_chars(self.lines[self.row].as_str()).len() {
            self.col = self.col + 1;
        } else if self.row + 1 < n {
            self.row = self.row + 1;
            self.col = 0;
        }
        assert(self.deep_view() =~= old(self).deep_view().right());
    }

    /// Moves the cursor to the start of its line.
    pub fn move_home(&mut self)
        requires
            old(self).wf(),
        ensures
            final(self).wf(),
            final(self).deep_view() == old(self).deep_view().home(),
    {
        self.preferred_col = None;
        self.col = 0;
    }

    /// Moves the cursor to the end of its line.
    pub fn move_end(&mut self)
        requires
            old(self).wf(),
        ensures
            final(self).wf(),
            final(self).deep_view() == old(self).deep_view().end(),
    {
        self.preferred_col = None;
        self.col = to_chars(self.lines[self.row].as_str()).len();
    }

    /// Undoes the last edit, or merged run of edits. Does nothing where there is
    /// nothing to undo.
    pub fn undo(&mut self)
        requires
            old(self).wf(),
        ensures
            final(self).wf(),
            final(self).deep_view() == old(self).deep_view().undone(),
    {
        let ghost u = self.undo.deep_view();
        let ghost r = self.redo.deep_view();
        let snap = self.snapshot();
        let ghost at = snap.deep_view();
        if let Some(prev) = self.undo.pop() {
            proof {
                assert(self.undo.deep_view() =~= u.drop_last());
                assert(prev.deep_view() == u.last());
            }
            self.redo.push(snap);
            assert(self.redo.deep_view() =~= r.push(at));
            self.lines = prev.lines;
            self.row = prev.row;
            self.col = prev.col;
            self.last_kind = None;
            self.preferred_col = None;
            assert(self.deep_view() =~= old(self).deep_view().undone());
        }
    }

    /// Does the last undone edit again. Does nothing where there is none.
    pub fn redo(&mut self)
        requires
            old(self).wf(),
        ensures
            final(self).wf(),
            final(self).deep_view() == old(self).deep_view().redone(),
    {
        let ghost u = self.undo.deep_view();
        let ghost r = self.redo.deep_view();
        let snap = self.snapshot();
        let ghost at = snap.deep_view();
        if let Some(next) = self.redo.pop() {
            proof {
                assert(self.redo.deep_view() =~= r.drop_last());
                assert(next.deep_view() == r.last());
            }
            self.undo.push(snap);
            assert(self.undo.deep_view() =~= u.push(at));
            self.lines = next.lines;
            self.row = next.row;
            self.col = next.col;
            self.last_kind = None;
            self.preferred_col = None;
            assert(self.deep_view() =~= old(self).deep_view().redone());
        }
    }

    /// The character before the cursor on its line, if any.
    #[must_use]
    pub fn prev_char(&self) -> (r: Option<char>)
        requires
            self.wf(),
        ensures
            r == self.deep_view().prev_char(),
    {
        if self.col > 0 {
            let cs = to_chars(self.lines[self.row].as_str());
            Some(cs[self.col - 1])
        } else {
            None
        }
    }

    /// The lines joined by line feeds.
    #[must_use]
    pub fn text(&self) -> (r: String)
        ensures
            r@ == self.deep_view().text(),
    {
        join(&self.lines, "\n")
    }

    /// The text; the editor starts over.
    pub fn take(&mut self) -> (r: String)
        ensures
            r@ == old(self).deep_view().text(),
            final(self).deep_view() == EditorModel::blank(),
            final(self).wf(),
    {
        let t = self.text();
        *self = Editor::new();
        t
    }

    /// Whether nothing has been typed.
    #[must_use]
    pub fn is_empty(&self) -> (r: bool)
        ensures
            r == self.deep_view().is_empty(),
    {
        self.lines.len() == 1 && self.lines[0].as_str().is_empty()
    }

    /// The lines of the buffer.
    #[must_use]
    pub fn lines(&self) -> (r: &[String])
        ensures
            r.deep_view() == self.deep_view().at.lines,
    {
        let r = self.lines.as_slice();
        assert(r.deep_view() =~= self.lines.deep_view());
        r
    }

    /// The cursor's row, and its column in characters.
    #[must_use]
    pub fn position(&self) -> (r: (usize, usize))
        ensures
            r.0 == self.deep_view().at.row,
            r.1 == self.deep_view().at.col,
    {
        (self.row, self.col)
    }

    /// The cursor's row, and its column in bytes.
    #[must_use]
    pub fn cursor(&self) -> (r: (usize, usize))
        requires
            self.wf(),
        ensures
            r.0 == self.deep_view().at.row,
            r.1 == byte_len(self.deep_view().line().take(self.deep_view().at.col)),
    {
        (self.row, byte_offset(self.lines[self.row].as_str(), self.col))
    }
}

impl Default for Editor {
    fn default() -> (r: Self)
        ensures
            r.deep_view() == EditorModel::blank(),
            r.wf(),
    {
        Editor::new()
    }
}

// ---------------------------------------------------------------------------
// The cursor among visual rows
// ---------------------------------------------------------------------------

/// Whether the row at `k` is the last one of its line.
pub open spec fn last_fragment(rows: Seq<WrapRow>, k: int) -> bool {
    k + 1 >= rows.len() || rows[k + 1].logical_row != rows[k].logical_row
}

/// Whether the position `col` of line `row` shows on the visual row `k`. The
/// end of a row shows there only where no further row of the line follows.
pub open spec fn shows_on(rows: Seq<WrapRow>, k: int, row: int, col: int) -> bool {
    &&& rows[k].logical_row == row
    &&& rows[k].start <= col
    &&& col < rows[k].end || (col == rows[k].end && last_fragment(rows, k))
}

/// The first visual row at or after `k` that the position shows on.
pub open spec fn visual_row(rows: Seq<WrapRow>, k: int, row: int, col: int) -> Option<int>
    decreases rows.len() - k,
{
    if k >= rows.len() {
        None
    } else if shows_on(rows, k, row, col) {
        Some(k)
    } else {
        visual_row(rows, k + 1, row, col)
    }
}

/// How far into `text` the column `target` is, given that the characters up to
/// `i` take `used` columns; nothing where the text ends before it.
pub open spec fn column_hit(text: Seq<char>, i: int, used: int, target: int) -> Option<int>
    decreases text.len() - i,
{
    if i >= text.len() {
        None
    } else {
        let w = low16(columns(seq![text[i]]) as int) as int;
        if used + w > target {
            Some(i)
        } else {
            column_hit(text, i + 1, used + w, target)
        }
    }
}

/// Where in a visual row's text a vertical move to the column `target` lands:
/// at the end of the text where it is too short, but on a row that continues
/// below not past its last character.
pub open spec fn landing(text: Seq<char>, target: int, last: bool) -> int {
    match column_hit(text, 0, 0, target) {
        Some(i) => i,
        None => if last {
            text.len() as int
        } else if text.len() > 0 {
            text.len() - 1
        } else {
            0
        },
    }
}

impl EditorModel {
    /// The cursor's visual row and display column when lines wrap at `width`.
    pub open spec fn visual(self, width: u16) -> (u16, u16) {
        let rows = visual_rows(self.at.lines, width);
        match visual_row(rows, 0, self.at.row, self.at.col) {
            Some(k) => (
                low16(k),
                low16(columns(self.line().subrange(rows[k].start as int, self.at.col)) as int),
            ),
            None => (
                low16(
                    if rows.len() > 0 {
                        rows.len() - 1
                    } else {
                        0
                    },
                ),
                0,
            ),
        }
    }

    /// The column that a vertical move aims for.
    pub open spec fn aim(self, width: u16) -> u16 {
        match self.preferred {
            Some(c) => c,
            None => self.visual(width).1,
        }
    }

    /// With the cursor `delta` visual rows down, in the column aimed for.
    pub open spec fn vertical(self, width: u16, delta: int) -> EditorModel {
        let rows = visual_rows(self.at.lines, width);
        let k = self.visual(width).0 + delta;
        if k < 0 || k >= rows.len() {
            self
        } else {
            let t = rows[k];
            let text = self.at.lines[t.logical_row as int].subrange(t.start as int, t.end as int);
            EditorModel {
                at: Snapshot {
                    row: t.logical_row as int,
                    col: t.start + landing(text, self.aim(width) as int, last_fragment(rows, k)),
                    ..self.at
                },
                preferred: Some(self.aim(width)),
                ..self
            }
        }
    }
}

proof fn lemma_column_hit(text: Seq<char>, i: int, used: int, target: int)
    requires
        0 <= i <= text.len(),
    ensures
        column_hit(text, i, used, target) matches Some(k) ==> i <= k < text.len(),
    decreases text.len() - i,
{
    if i < text.len() {
        lemma_column_hit(
            text,
            i + 1,
            used + low16(columns(seq![text[i]]) as int) as int,
            target,
        );
    }
}

/// Where in a visual row's text a vertical move lands.
fn land(text: &[char], target: u16, last: bool) -> (r: usize)
    ensures
        r == landing(text@, target as int, last),
        r <= text@.len(),
{
    let mut i: usize = 0;
    let mut used: u32 = 0;
    while i < text.len()
        invariant
            i <= text@.len(),
            used <= target,
            column_hit(text@, i as int, used as int, target as int) == column_hit(
                text@,
                0,
                0,
                target as int,
            ),
        decreases text@.len() - i,
    {
        let one = from_range(text, i, i + 1);
        assert(one@ =~= seq![text@[i as int]]);
        let w: u32 = low_half(str_width(one.as_str())) as u32;
        if used + w > target as u32 {
            return i;
        }
        used = used + w;
        i += 1;
    }
    if last {
        text.len()
    } else if text.len() > 0 {
        text.len() - 1
    } else {
        0
    }
}

/// Whether `b` bytes are a whole number of characters of `line`.
pub open spec fn is_offset(line: Seq<char>, b: nat) -> bool {
    exists|k: int| 0 <= k <= line.len() && byte_len(#[trigger] line.take(k)) == b
}

/// How many characters of `line` the first `b` bytes are.
pub open spec fn chars_before(line: Seq<char>, b: nat) -> int {
    choose|k: int| 0 <= k <= line.len() && byte_len(#[trigger] line.take(k)) == b
}

proof fn lemma_offset_unique(line: Seq<char>, i: int, j: int)
    requires
        0 <= i <= line.len(),
        0 <= j <= line.len(),
        byte_len(line.take(i)) == byte_len(line.take(j)),
    ensures
        i == j,
{
    if i < j {
        lemma_byte_len_mono(line, i, j);
    } else if j < i {
        lemma_byte_len_mono(line, j, i);
    }
}

/// How many characters of `line` the first `b` bytes are.
fn char_offset(line: &str, b: usize) -> (r: usize)
    requires
        is_offset(line@, b as nat),
    ensures
        r == chars_before(line@, b as nat),
        r <= line@.len(),
        byte_len(line@.take(r as int)) == b,
{
    let n: usize = to_chars(line).len();
    let ghost k = chars_before(line@, b as nat);
    let mut i: usize = 0;
    while i < n
        invariant
            n == line@.len(),
            i <= k <= n,
            k == chars_before(line@, b as nat),
            byte_len(line@.take(k)) == b,
        decreases n - i,
    {
        if byte_offset(line, i) == b {
            proof {
                lemma_offset_unique(line@, i as int, k);
            }
            return i;
        }
        i += 1;
    }
    i
}

impl Editor {
    /// The cursor's row, and its column in display cells.
    #[must_use]
    pub fn cursor_display(&self) -> (r: (usize, u16))
        requires
            self.wf(),
        ensures
            r.0 == self.deep_view().at.row,
            r.1 == low16(
                columns(self.deep_view().line().take(self.deep_view().at.col)) as int,
            ),
    {
        let line = self.lines[self.row].as_str();
        assert(line@.subrange(0, self.col as int) =~= line@.take(self.col as int));
        (self.row, low_half(str_width(line.substring_char(0, self.col))))
    }

    /// The cursor's visual row and display column when lines wrap at `width`:
    /// the wrapping of [`wrap_rows`]. A cursor at the end of a row that the line
    /// continues on shows at the start of the next row.
    #[must_use]
    pub fn cursor_visual(&self, width: u16) -> (r: (u16, u16))
        requires
            self.wf(),
        ensures
            r == self.deep_view().visual(width),
    {
        let rows = char_rows(self.lines(), width);
        let line = self.lines[self.row].as_str();
        let mut k: usize = 0;
        while k < rows.len()
            invariant
                k <= rows@.len(),
                self.wf(),
                line@ == self.deep_view().line(),
                rows@ == visual_rows(self.deep_view().at.lines, width),
                visual_row(
                    rows@,
                    k as int,
                    self.deep_view().at.row,
                    self.deep_view().at.col,
                ) == visual_row(rows@, 0, self.deep_view().at.row, self.deep_view().at.col),
            decreases rows@.len() - k,
        {
            let w = rows[k];
            let last: bool = k + 1 >= rows.len() || rows[k + 1].logical_row != w.logical_row;
            if w.logical_row == self.row && w.start <= self.col && (self.col < w.end || (self.col
                == w.end && last)) {
                let part = line.substring_char(w.start, self.col);
                return (low_half(k), low_half(str_width(part)));
            }
            k += 1;
        }
        let n: usize = if rows.len() > 0 {
            rows.len() - 1
        } else {
            0
        };
        (low_half(n), 0)
    }

    /// Moves the cursor up one visual row at display `width`, across lines as
    /// needed. Does nothing on the first visual row. Aims for the column of the
    /// first of a run of vertical moves.
    pub fn move_up(&mut self, width: u16)
        requires
            old(self).wf(),
        ensures
            final(self).wf(),
            final(self).deep_view() == old(self).deep_view().vertical(width, -1),
    {
        self.move_vertical(width, -1);
    }

    /// Moves the cursor down one visual row at display `width`. Does nothing on
    /// the last visual row.
    pub fn move_down(&mut self, width: u16)
        requires
            old(self).wf(),
        ensures
            final(self).wf(),
            final(self).deep_view() == old(self).deep_view().vertical(width, 1),
    {
        self.move_vertical(width, 1);
    }

    /// Moves the cursor `delta` visual rows down.
    fn move_vertical(&mut self, width: u16, delta: i32)
        requires
            old(self).wf(),
            -1 <= delta <= 1,
        ensures
            final(self).wf(),
            final(self).deep_view() == old(self).deep_view().vertical(width, delta as int),
    {
        let rows = char_rows(self.lines(), width);
        let ghost lines = self.lines.deep_view();
        proof {
            law_rows_in_lines(lines, at_least_one(width));
        }
        let (cur_row, cur_col) = self.cursor_visual(width);
        let target_col: u16 = match self.preferred_col {
            Some(c) => c,
            None => cur_col,
        };
        let target: i32 = cur_row as i32 + delta;
        if target < 0 || target as usize >= rows.len() {
            return;
        }
        let k: usize = target as usize;
        let t = rows[k];
        assert(row_in(lines, t));
        assert(lines[t.logical_row as int] == self.lines@[t.logical_row as int]@);
        let last: bool = k + 1 >= rows.len() || rows[k + 1].logical_row != t.logical_row;
        let text = to_chars(self.lines[t.logical_row].as_str().substring_char(t.start, t.end));
        let off: usize = land(&text, target_col, last);
        self.row = t.logical_row;
        self.col = t.start + off;
        self.preferred_col = Some(target_col);
        assert(self.deep_view() =~= old(self).deep_view().vertical(width, delta as int));
    }

    /// Replaces the characters `from..to` of line `row` by `text` and puts the
    /// cursor behind it.
    fn replace_span(&mut self, row: usize, from: usize, to: usize, text: &str, time: EditTime)
        requires
            old(self).wf(),
            row < old(self).deep_view().at.lines.len(),
            from <= to <= old(self).deep_view().at.lines[row as int].len(),
        ensures
            final(self).wf(),
            final(self).deep_view() == old(self).deep_view().replaced(
                row as int,
                from as int,
                to as int,
                text@,
                time,
            ),
    {
        self.record_undo(MutationKind::Replace, time);
        let cs = to_chars(self.lines[row].as_str());
        let mut s = from_range(&cs, 0, from);
        s.append(text);
        let col: usize = to_chars(s.as_str()).len();
        let tail = from_range(&cs, to, cs.len());
        s.append(tail.as_str());
        proof {
            assert(cs@.subrange(0, from as int) =~= cs@.take(from as int));
            assert(cs@.subrange(to as int, cs@.len() as int) =~= cs@.skip(to as int));
        }
        self.set_line(row, s);
        self.row = row;
        self.col = col;
        assert(self.deep_view() =~= old(self).deep_view().replaced(
            row as int,
            from as int,
            to as int,
            text@,
            time,
        ));
    }

    /// Replaces the bytes from `start_col` to the cursor's column on `row` by
    /// `text` and puts the cursor behind it: swaps a partial token for the
    /// accepted one. Both ends must be whole numbers of characters of that row.
    pub fn replace_to_cursor(&mut self, row: usize, start_col: usize, text: &str)
        requires
            old(self).wf(),
            row < old(self).deep_view().at.lines.len(),
            is_offset(old(self).deep_view().at.lines[row as int], start_col as nat),
            is_offset(old(self).deep_view().at.lines[row as int], old(self).deep_view().byte_col()),
            start_col <= old(self).deep_view().byte_col(),
        ensures
            final(self).wf(),
            exists|time: EditTime|
                #[trigger] old(self).deep_view().timely(time) && final(self).deep_view() == old(
                    self,
                ).deep_view().replaced_to_cursor(row as int, start_col as nat, text@, time),
    {
        let time = self.edit_time();
        self.replace_to_cursor_at(row, start_col, text, time);
    }

    /// Replaces the bytes from `start_col` to the cursor's column on `row` by
    /// `text`, at a given time.
    pub fn replace_to_cursor_at(&mut self, row: usize, start_col: usize, text: &str, time: EditTime)
        requires
            old(self).wf(),
            row < old(self).deep_view().at.lines.len(),
            is_offset(old(self).deep_view().at.lines[row as int], start_col as nat),
            is_offset(old(self).deep_view().at.lines[row as int], old(self).deep_view().byte_col()),
            start_col <= old(self).deep_view().byte_col(),
        ensures
            final(self).wf(),
            final(self).deep_view() == old(self).deep_view().replaced_to_cursor(
                row as int,
                start_col as nat,
                text@,
                time,
            ),
    {
        let (_, col) = self.cursor();
        let ghost line = self.deep_view().at.lines[row as int];
        assert(line == self.lines@[row as int]@);
        let from: usize = char_offset(self.lines[row].as_str(), start_col);
        let to: usize = char_offset(self.lines[row].as_str(), col);
        proof {
            if to < from {
                lemma_byte_len_mono(line, to as int, from as int);
            }
        }
        self.replace_span(row, from, to, text, time);
    }

    /// Replaces the characters from `from` to the cursor on its line by `text`, at a
    /// given time.
    pub fn replace_token(&mut self, from: usize, text: &str, time: EditTime)
        requires
            old(self).wf(),
            from <= old(self).deep_view().at.col,
        ensures
            final(self).wf(),
            final(self).deep_view() == old(self).deep_view().replaced(
                old(self).deep_view().at.row,
                from as int,
                old(self).deep_view().at.col,
                text@,
                time,
            ),
    {
        let (row, col) = self.position();
        self.replace_span(row, from, col, text, time);
    }
}

impl EditorModel {
    /// Whether a time tells truly whether the last edit is recent by it.
    pub open spec fn timely(self, time: EditTime) -> bool {
        time.recent == within_window(self.edited, time.now)
    }

    /// With the bytes from `start` to the cursor's column on line `row` replaced by
    /// `text`.
    pub open spec fn replaced_to_cursor(
        self,
        row: int,
        start: nat,
        text: Seq<char>,
        time: EditTime,
    ) -> EditorModel {
        let line = self.at.lines[row];
        self.replaced(
            row,
            chars_before(line, start),
            chars_before(line, self.byte_col()),
            text,
            time,
        )
    }

    /// The cursor's column in bytes.
    pub open spec fn byte_col(self) -> nat {
        byte_len(self.line().take(self.at.col))
    }
}

// ---------------------------------------------------------------------------
// Laws of editing
// ---------------------------------------------------------------------------

/// An edit.
pub enum Edit {
    Insert(char),
    Newline,
    Backspace,
    /// The characters of the cursor's line from the given column to the cursor become
    /// the text.
    Replace(int, Seq<char>),
}

impl Edit {
    /// The kind of an edit.
    pub open spec fn kind(self) -> MutationKind {
        match self {
            Edit::Insert(_) | Edit::Newline => MutationKind::Insert,
            Edit::Backspace => MutationKind::Delete,
            Edit::Replace(_, _) => MutationKind::Replace,
        }
    }
}

impl EditorModel {
    /// After an edit.
    pub open spec fn made(self, edit: Edit, time: EditTime) -> EditorModel {
        match edit {
            Edit::Insert(c) => self.inserted(c, time),
            Edit::Newline => self.broken(time),
            Edit::Backspace => self.backspaced(time),
            Edit::Replace(from, text) => self.replaced(
                self.at.row,
                from,
                self.at.col,
                text,
                time,
            ),
        }
    }

    /// After several edits.
    pub open spec fn made_all(self, edits: Seq<(Edit, EditTime)>) -> EditorModel
        decreases edits.len(),
    {
        if edits.len() == 0 {
            self
        } else {
            self.made_all(edits.drop_last()).made(edits.last().0, edits.last().1)
        }
    }
}

/// Undo takes back any edit that began a step of its own: buffer and cursor are as
/// they were. An edit begins one where it is of another kind than the last one, where
/// it replaces, or where the last one was too long ago.
pub proof fn law_undo_reverts_an_edit(e: EditorModel, edit: Edit, time: EditTime)
    requires
        e.timely(time),
    ensures
        e.last_kind != Some(edit.kind()) || edit.kind() == MutationKind::Replace || !within_window(
            e.edited,
            time.now,
        ) ==> e.made(edit, time).undone().at == e.at,
{
    let pushed = e.undo.push(e.at);
    assert(capped(pushed).last() == e.at);
}

proof fn lemma_run(e: EditorModel, run: Seq<(Edit, EditTime)>, kind: MutationKind)
    requires
        run.len() > 0,
        kind != MutationKind::Replace,
        forall|i: int| 0 <= i < run.len() ==> (#[trigger] run[i]).0.kind() == kind,
        !e.merges(kind, run[0].1),
        forall|i: int| 0 < i < run.len() ==> (#[trigger] run[i]).1.recent,
    ensures
        e.made_all(run).undo == capped(e.undo.push(e.at)),
        e.made_all(run).last_kind == Some(kind),
        e.made_all(run).edited is Some,
    decreases run.len(),
{
    let front = run.drop_last();
    assert(run.last() == run[run.len() - 1]);
    if front.len() > 0 {
        assert forall|i: int| 0 <= i < front.len() implies (#[trigger] front[i]).0.kind()
            == kind by {
            assert(front[i] == run[i]);
        }
        assert forall|i: int| 0 < i < front.len() implies (#[trigger] front[i]).1.recent by {
            assert(front[i] == run[i]);
        }
        assert(front[0] == run[0]);
        lemma_run(e, front, kind);
        assert(run[run.len() - 1].1.recent);
    } else {
        assert(e.made_all(front) == e);
    }
}

/// Edits of one kind that follow one another closely are one step: however many they
/// are, undo takes all of them back, to the state before the first.
pub proof fn law_undo_takes_back_a_run(e: EditorModel, run: Seq<(Edit, EditTime)>, kind: MutationKind)
    requires
        run.len() > 0,
        kind != MutationKind::Replace,
        forall|i: int| 0 <= i < run.len() ==> (#[trigger] run[i]).0.kind() == kind,
        forall|i: int|
            0 <= i < run.len() ==> e.made_all(run.take(i)).timely((#[trigger] run[i]).1),
        !e.merges(kind, run[0].1),
        forall|i: int|
            0 < i < run.len() ==> within_window(
                e.made_all(run.take(i)).edited,
                (#[trigger] run[i]).1.now,
            ),
    ensures
        e.made_all(run).undone().at == e.at,
{
    assert forall|i: int| 0 < i < run.len() implies (#[trigger] run[i]).1.recent by {
        assert(e.made_all(run.take(i)).timely(run[i].1));
    }
    lemma_run(e, run, kind);
    let pushed = e.undo.push(e.at);
    assert(capped(pushed).last() == e.at);
}

/// Redo restores what undo took back, the step stacks included; undo then
/// takes it back again.
pub proof fn law_redo_reverts_undo(e: EditorModel)
    requires
        e.wf(),
        e.undo.len() > 0,
    ensures
        e.undone().redone().at == e.at,
        e.undone().redone().undo == e.undo,
        e.undone().redone().redo == e.redo,
        e.undone().redone().undone() == e.undone(),
{
    assert(e.undo.drop_last().push(e.undo.last()) =~= e.undo);
    assert(e.redo.push(e.at).drop_last() =~= e.redo);
    assert(e.undone().redone().undone() =~= e.undone());
}

/// Any edit makes redo void, whether or not it begins a step: redo then changes
/// nothing.
pub proof fn law_an_edit_voids_redo(e: EditorModel, edit: Edit, time: EditTime)
    requires
        e.wf(),
    ensures
        e.made(edit, time).redo.len() == 0,
        e.made(edit, time).redone() == e.made(edit, time),
{
}

/// Backspace takes back a typed character or a line break.
pub proof fn law_backspace_reverts_typing(e: EditorModel, c: char, first: EditTime, second: EditTime)
    requires
        e.wf(),
    ensures
        e.inserted(c, first).backspaced(second).at == e.at,
        e.broken(first).backspaced(second).at == e.at,
{
    let line = e.line();
    let i = e.inserted(c, first);
    assert(line.insert(e.at.col, c).remove(e.at.col) =~= line);
    assert(i.backspaced(second).at.lines =~= e.at.lines);
    let b = e.broken(first);
    assert(b.at.lines[b.at.row - 1] == line.take(e.at.col));
    assert(line.take(e.at.col) + line.skip(e.at.col) =~= line);
    assert(b.backspaced(second).at.lines =~= e.at.lines);
}

/// A step to the left and one to the right return to the same place, except
/// from the start of the buffer.
pub proof fn law_right_reverts_left(e: EditorModel)
    requires
        e.wf(),
        e.at.row > 0 || e.at.col > 0,
    ensures
        e.left().right().at == e.at,
{
}

/// Moving the cursor changes neither the text nor the undo and redo steps, and
/// keeps the cursor within the text.
pub proof fn law_moves_keep_the_text(e: EditorModel, width: u16, delta: int)
    requires
        e.wf(),
        addressable(e.at.lines),
    ensures
        forall|m: EditorModel|
            (m == e.left() || m == e.right() || m == e.home() || m == e.end() || m == e.vertical(
                width,
                delta,
            )) ==> (#[trigger] m.wf()) && m.at.lines == e.at.lines && m.undo == e.undo && m.redo
                == e.redo,
{
    law_rows_in_lines(e.at.lines, at_least_one(width));
    let rows = visual_rows(e.at.lines, width);
    let k = e.visual(width).0 + delta;
    if 0 <= k < rows.len() {
        let t = rows[k];
        assert(row_in(e.at.lines, t));
        let text = e.at.lines[t.logical_row as int].subrange(t.start as int, t.end as int);
        lemma_column_hit(text, 0, 0, e.aim(width) as int);
    }
    assert(e.vertical(width, delta).wf());
    assert(e.left().wf() && e.right().wf() && e.home().wf() && e.end().wf());
}

/// A run of vertical moves keeps aiming for the column it began in.
pub proof fn law_vertical_moves_keep_the_aim(e: EditorModel, width: u16, first: int, second: int)
    ensures
        e.vertical(width, first) != e ==> e.vertical(width, first).aim(width) == e.aim(width),
        e.vertical(width, first) != e ==> e.vertical(width, first).vertical(width, second).aim(width)
            == e.aim(width),
{
}

/// Every edit, undo and redo keeps the cursor within the text and the steps within
/// the depth limit.
pub proof fn law_edits_keep_the_cursor_in_the_text(
    e: EditorModel,
    c: char,
    text: Seq<char>,
    from: int,
    time: EditTime,
)
    requires
        e.wf(),
        0 <= from <= e.at.col,
    ensures
        e.inserted(c, time).wf(),
        e.broken(time).wf(),
        e.backspaced(time).wf(),
        e.replaced(e.at.row, from, e.at.col, text, time).wf(),
        e.undone().wf(),
        e.redone().wf(),
{
    assert forall|kind: MutationKind| (#[trigger] e.recorded(kind, time)).wf() by {
        let pushed = e.undo.push(e.at);
        assert forall|i: int| 0 <= i < capped(pushed).len() implies (#[trigger] capped(
            pushed,
        )[i]).wf() by {
            if pushed.len() > UNDO_MAX_DEPTH {
                assert(capped(pushed)[i] == pushed[i + 1]);
            }
        }
    }
    assert(e.recorded(MutationKind::Insert, time).wf());
    assert(e.recorded(MutationKind::Delete, time).wf());
    assert(e.recorded(MutationKind::Replace, time).wf());
    if e.at.col == 0 && e.at.row > 0 {
        let above = e.at.lines[e.at.row - 1];
        assert(e.backspaced(time).at.lines[e.at.row - 1] == above + e.line());
    }
    assert(e.broken(time).at.lines[e.at.row + 1] == e.line().skip(e.at.col));
}

proof fn lemma_tile_order(rows: Seq<WrapRow>, j: int, k: int)
    requires
        0 <= j < k < rows.len(),
        forall|i: int| 0 <= i < rows.len() ==> (#[trigger] rows[i]).start <= rows[i].end,
        forall|i: int| 0 <= i && i + 1 < rows.len() ==> (#[trigger] rows[i]).end == rows[i + 1].start,
    ensures
        rows[j].end <= rows[k].start,
    decreases k - j,
{
    if j + 1 < k {
        lemma_tile_order(rows, j, k - 1);
        assert(rows[k - 1].end == rows[(k - 1) + 1].start);
    } else {
        assert(rows[j].end == rows[j + 1].start);
    }
}

/// Whether visual rows follow one another through the lines.
spec fn in_order(rows: Seq<WrapRow>) -> bool {
    forall|j: int, k: int|
        0 <= j < k < rows.len() ==> {
            let a = #[trigger] rows[j];
            let b = #[trigger] rows[k];
            a.logical_row < b.logical_row || (a.logical_row == b.logical_row && a.start < a.end
                && a.end <= b.start)
        }
}

proof fn lemma_in_order(lines: Seq<Seq<char>>, width: nat)
    requires
        addressable(lines),
    ensures
        in_order(char_rows_of(lines, width)),
    decreases lines.len(),
{
    if lines.len() > 0 {
        let before = lines.drop_last();
        let n = (lines.len() - 1) as nat;
        assert(addressable(before)) by {
            assert forall|i: int| 0 <= i < before.len() implies (#[trigger] before[i]).len()
                <= usize::MAX by {
                assert(before[i] == lines[i]);
            }
        }
        lemma_in_order(before, width);
        law_rows_in_lines(before, width);
        let gs = graphemes(lines.last());
        law_graphemes_make_up_the_text(lines.last());
        law_line_rows_tile(n, gs, 0, width);
        let a = char_rows_of(before, width);
        let b = line_rows(n, gs, 0, width);
        let rows = char_rows_of(lines, width);
        assert forall|j: int, k: int| 0 <= j < k < rows.len() implies {
            let x = #[trigger] rows[j];
            let y = #[trigger] rows[k];
            x.logical_row < y.logical_row || (x.logical_row == y.logical_row && x.start < x.end
                && x.end <= y.start)
        } by {
            if k < a.len() {
                assert(rows[j] == a[j] && rows[k] == a[k]);
            } else if j < a.len() {
                assert(rows[j] == a[j] && rows[k] == b[k - a.len()]);
                assert(row_in(before, a[j]));
            } else {
                assert(rows[j] == b[j - a.len()] && rows[k] == b[k - a.len()]);
                lemma_tile_order(b, j - a.len(), k - a.len());
                if gs.len() == 0 {
                    assert(b.len() == 1);
                }
            }
        }
    }
}

proof fn lemma_only_row(rows: Seq<WrapRow>, i: int, k: int, row: int, col: int)
    requires
        0 <= i <= k < rows.len(),
        in_order(rows),
        shows_on(rows, k, row, col),
    ensures
        visual_row(rows, i, row, col) == Some(k),
    decreases k - i,
{
    if i < k {
        assert(rows[i].logical_row <= rows[k].logical_row);
        if shows_on(rows, i, row, col) {
            if i + 1 < k {
                assert(rows[i].logical_row <= rows[i + 1].logical_row);
                assert(rows[i + 1].logical_row <= rows[k].logical_row);
            }
        }
        lemma_only_row(rows, i + 1, k, row, col);
    }
}

/// The row of a line that the position `col` shows on.
proof fn lemma_tile_shown(rows: Seq<WrapRow>, i: int, col: int) -> (k: int)
    requires
        0 <= i < rows.len(),
        rows[i].start <= col <= rows.last().end,
        forall|i: int| 0 <= i && i + 1 < rows.len() ==> (#[trigger] rows[i]).end == rows[i + 1].start,
    ensures
        i <= k < rows.len(),
        rows[k].start <= col,
        col < rows[k].end || (col == rows[k].end && k + 1 == rows.len()),
    decreases rows.len() - i,
{
    if col < rows[i].end || i + 1 == rows.len() {
        i
    } else {
        assert(rows[i].end == rows[i + 1].start);
        lemma_tile_shown(rows, i + 1, col)
    }
}

proof fn lemma_shown(lines: Seq<Seq<char>>, width: nat, row: int, col: int) -> (k: int)
    requires
        addressable(lines),
        0 <= row < lines.len(),
        0 <= col <= lines[row].len(),
    ensures
        0 <= k < char_rows_of(lines, width).len(),
        shows_on(char_rows_of(lines, width), k, row, col),
    decreases lines.len(),
{
    let before = lines.drop_last();
    let n = (lines.len() - 1) as nat;
    assert(addressable(before)) by {
        assert forall|i: int| 0 <= i < before.len() implies (#[trigger] before[i]).len()
            <= usize::MAX by {
            assert(before[i] == lines[i]);
        }
    }
    let gs = graphemes(lines.last());
    law_graphemes_make_up_the_text(lines.last());
    lemma_chars_in(gs, 0, gs.len() as int);
    law_line_rows_tile(n, gs, 0, width);
    let a = char_rows_of(before, width);
    let b = line_rows(n, gs, 0, width);
    let rows = char_rows_of(lines, width);
    if row == n {
        let k = lemma_tile_shown(b, 0, col);
        assert(rows[a.len() + k] == b[k]);
        a.len() + k
    } else {
        assert(before[row] == lines[row]);
        let k = lemma_shown(before, width, row, col);
        assert(rows[k] == a[k]);
        if k + 1 < a.len() {
            assert(rows[k + 1] == a[k + 1]);
        } else {
            assert(rows[k + 1] == b[0]);
        }
        k
    }
}

proof fn lemma_singles_measure(s: Seq<char>, a: int, b: int)
    requires
        is_plain(s),
        0 <= a <= b <= s.len(),
    ensures
        chars_in(singles(s), b) == b,
        graphemes_cells(singles(s).subrange(a, b)) == b - a,
    decreases b,
{
    let gs = singles(s);
    if b > 0 {
        assert(gs.take(b).drop_last() =~= gs.take(b - 1));
        if a < b {
            lemma_singles_measure(s, a, b - 1);
            assert(gs.subrange(a, b).drop_last() =~= gs.subrange(a, b - 1));
            assert(gs.subrange(a, b).last() == seq![s[b - 1]]);
            assert(is_printable(s[b - 1]));
        } else {
            lemma_singles_measure(s, a - 1, b - 1);
        }
    }
}

/// Whether every line is made of printable ASCII characters.
pub open spec fn all_plain(lines: Seq<Seq<char>>) -> bool {
    forall|i: int| 0 <= i < lines.len() ==> is_plain(#[trigger] lines[i])
}

proof fn lemma_narrow(lines: Seq<Seq<char>>, width: nat)
    requires
        addressable(lines),
        all_plain(lines),
        width >= 1,
    ensures
        forall|k: int|
            0 <= k < char_rows_of(lines, width).len() ==> (#[trigger] char_rows_of(lines, width)[k]).end
                - char_rows_of(lines, width)[k].start <= width,
    decreases lines.len(),
{
    if lines.len() > 0 {
        let before = lines.drop_last();
        let n = (lines.len() - 1) as nat;
        assert(addressable(before) && all_plain(before)) by {
            assert forall|i: int| 0 <= i < before.len() implies (#[trigger] before[i]).len()
                <= usize::MAX && is_plain(before[i]) by {
                assert(before[i] == lines[i]);
            }
        }
        lemma_narrow(before, width);
        let line = lines[n as int];
        assert(is_plain(line));
        let gs = singles(line);
        lemma_singles(line);
        law_line_rows_tile(n, gs, 0, width);
        let a = char_rows_of(before, width);
        let b = line_rows(n, gs, 0, width);
        let rows = char_rows_of(lines, width);
        assert forall|k: int| 0 <= k < rows.len() implies (#[trigger] rows[k]).end - rows[k].start
            <= width by {
            if k < a.len() {
                assert(rows[k] == a[k]);
            } else {
                assert(rows[k] == b[k - a.len()]);
                let (x, y) = choose|x: int, y: int|
                    #[trigger] holds(gs, b, k - a.len(), x, y, width);
                lemma_singles_measure(line, x, y);
                lemma_singles_measure(line, x, x);
            }
        }
    }
}

proof fn lemma_plain_hit(text: Seq<char>, i: int, target: int)
    requires
        is_plain(text),
        0 <= i <= text.len(),
        i <= target,
    ensures
        column_hit(text, i, i, target) == if target < text.len() {
            Some(target)
        } else {
            None
        },
    decreases text.len() - i,
{
    if i < text.len() {
        assert(is_printable(text[i]));
        assert(is_plain(seq![text[i]]));
        assert(columns(seq![text[i]]) == 1);
        if i + 1 <= target {
            lemma_plain_hit(text, i + 1, target);
        }
    }
}

proof fn lemma_seen_on(e: EditorModel, width: u16, k: int)
    requires
        addressable(e.at.lines),
        0 <= k < visual_rows(e.at.lines, width).len() <= 0x1_0000,
        shows_on(visual_rows(e.at.lines, width), k, e.at.row, e.at.col),
    ensures
        e.visual(width).0 == k,
        e.visual(width).1 == low16(
            columns(
                e.line().subrange(visual_rows(e.at.lines, width)[k].start as int, e.at.col),
            ) as int,
        ),
{
    lemma_in_order(e.at.lines, at_least_one(width));
    lemma_only_row(visual_rows(e.at.lines, width), 0, k, e.at.row, e.at.col);
}

proof fn lemma_plain_part(line: Seq<char>, from: int, to: int)
    requires
        is_plain(line),
        0 <= from <= to <= line.len(),
    ensures
        is_plain(line.subrange(from, to)),
        columns(line.subrange(from, to)) == to - from,
{
    assert forall|i: int| 0 <= i < to - from implies is_printable(
        #[trigger] line.subrange(from, to)[i],
    ) by {
        assert(is_printable(line[from + i]));
    }
}

proof fn lemma_lands(lines: Seq<Seq<char>>, width: u16, k: int, target: int)
    requires
        addressable(lines),
        all_plain(lines),
        0 <= k < visual_rows(lines, width).len(),
        0 <= target,
    ensures
        ({
            let rows = visual_rows(lines, width);
            let t = rows[k];
            let text = lines[t.logical_row as int].subrange(t.start as int, t.end as int);
            let col = t.start + landing(text, target, last_fragment(rows, k));
            &&& row_in(lines, t)
            &&& shows_on(rows, k, t.logical_row as int, col)
            &&& target < t.end - t.start ==> col == t.start + target
            &&& target >= t.end - t.start && last_fragment(rows, k) ==> col == t.end
        }),
{
    let w = at_least_one(width);
    let rows = visual_rows(lines, width);
    law_rows_in_lines(lines, w);
    let t = rows[k];
    assert(row_in(lines, t));
    let line = lines[t.logical_row as int];
    assert(is_plain(line));
    lemma_plain_part(line, t.start as int, t.end as int);
    let text = line.subrange(t.start as int, t.end as int);
    lemma_plain_hit(text, 0, target);
    if t.start == t.end && !last_fragment(rows, k) {
        lemma_in_order(lines, w);
        assert(rows[k].logical_row == rows[k + 1].logical_row);
    }
}

/// In lines of printable ASCII characters, moving up and then down leads back to
/// where the cursor was, also over a shorter row. The number of visual rows must
/// fit 16 bits, as the row that the cursor shows on is counted with them.
pub proof fn law_down_reverts_up(e: EditorModel, width: u16)
    requires
        e.wf(),
        addressable(e.at.lines),
        all_plain(e.at.lines),
        e.preferred is None,
        e.visual(width).0 > 0,
        visual_rows(e.at.lines, width).len() <= 0x1_0000,
    ensures
        e.vertical(width, -1).vertical(width, 1).at == e.at,
{
    let lines = e.at.lines;
    let w = at_least_one(width);
    let rows = visual_rows(lines, width);
    let k = lemma_shown(lines, w, e.at.row, e.at.col);
    lemma_seen_on(e, width, k);
    let aim = e.at.col - rows[k].start;
    assert(is_plain(lines[e.at.row]));
    lemma_plain_part(e.line(), rows[k].start as int, e.at.col);
    assert(rows[k].end - rows[k].start <= w) by {
        lemma_narrow(lines, w);
    }
    lemma_lands(lines, width, k - 1, aim);
    lemma_lands(lines, width, k, aim);
    let up = e.vertical(width, -1);
    assert(e.aim(width) == aim);
    lemma_seen_on(up, width, k - 1);
    assert(up.vertical(width, 1).at =~= e.at);
}

// ---------------------------------------------------------------------------
// Laws: the text around the cursor
// ---------------------------------------------------------------------------

impl EditorModel {
    /// The text before the cursor.
    pub open spec fn before_cursor(self) -> Seq<char> {
        joined(self.at.lines.take(self.at.row).push(self.line().take(self.at.col)), "\n"@)
    }

    /// The text behind the cursor.
    pub open spec fn behind_cursor(self) -> Seq<char> {
        joined(seq![self.line().skip(self.at.col)] + self.at.lines.skip(self.at.row + 1), "\n"@)
    }
}

proof fn lemma_joined_push(a: Seq<Seq<char>>, x: Seq<char>, sep: Seq<char>)
    ensures
        a.len() == 0 ==> joined(a.push(x), sep) == x,
        a.len() > 0 ==> joined(a.push(x), sep) == joined(a, sep) + sep + x,
{
    assert(a.push(x).drop_last() =~= a);
}

proof fn lemma_joined_parts(
    a: Seq<Seq<char>>,
    x: Seq<char>,
    y: Seq<char>,
    b: Seq<Seq<char>>,
    sep: Seq<char>,
)
    ensures
        joined(a.push(x + y) + b, sep) == joined(a.push(x), sep) + joined(seq![y] + b, sep),
    decreases b.len(),
{
    let all = a.push(x + y) + b;
    if b.len() == 0 {
        assert(all =~= a.push(x + y));
        assert(seq![y] + b =~= seq![y]);
        assert(joined(seq![y], sep) == y);
        lemma_joined_push(a, x + y, sep);
        lemma_joined_push(a, x, sep);
        assert(joined(all, sep) =~= joined(a.push(x), sep) + y);
    } else {
        let front = b.drop_last();
        lemma_joined_parts(a, x, y, front, sep);
        assert(all =~= (a.push(x + y) + front).push(b.last()));
        lemma_joined_push(a.push(x + y) + front, b.last(), sep);
        let tail = seq![y] + front;
        assert(seq![y] + b =~= tail.push(b.last()));
        lemma_joined_push(tail, b.last(), sep);
        assert(joined(all, sep) =~= joined(a.push(x), sep) + (joined(tail, sep) + sep + b.last()));
    }
}

/// The cursor parts the text in two. A letter goes between the two, and so does a line break;
/// taking one back takes the last of what is before the cursor; and a move to the left moves
/// that one behind it. What is behind the cursor else stays as it is.
pub proof fn law_the_cursor_parts_the_text(e: EditorModel, c: char, time: EditTime)
    requires
        e.wf(),
    ensures
        e.text() == e.before_cursor() + e.behind_cursor(),
        e.inserted(c, time).before_cursor() == e.before_cursor().push(c),
        e.inserted(c, time).behind_cursor() == e.behind_cursor(),
        e.broken(time).before_cursor() == e.before_cursor().push('\n'),
        e.broken(time).behind_cursor() == e.behind_cursor(),
        e.before_cursor().len() > 0 ==> e.backspaced(time).before_cursor()
            == e.before_cursor().drop_last(),
        e.before_cursor().len() == 0 ==> e.backspaced(time).before_cursor() == e.before_cursor(),
        e.backspaced(time).behind_cursor() == e.behind_cursor(),
        e.before_cursor().len() > 0 ==> e.left().before_cursor() == e.before_cursor().drop_last(),
{
    let lines = e.at.lines;
    let row = e.at.row;
    let col = e.at.col;
    let line = lines[row];
    let a = lines.take(row);
    let b = lines.skip(row + 1);
    reveal_strlit("\n");
    let nl = "\n"@;
    assert(nl =~= seq!['\n']);
    assert(line =~= line.take(col) + line.skip(col));
    assert(lines =~= a.push(line) + b);
    lemma_joined_parts(a, line.take(col), line.skip(col), b, nl);
    lemma_joined_push(a, line.take(col), nl);
    // A letter.
    let i = e.inserted(c, time);
    let grown = line.insert(col, c);
    assert(i.at.lines.take(row) =~= a);
    assert(i.at.lines[row] == grown);
    assert(grown.take(col + 1) =~= line.take(col).push(c));
    assert(grown.skip(col + 1) =~= line.skip(col));
    assert(i.at.lines.skip(row + 1) =~= b);
    lemma_joined_push(a, line.take(col).push(c), nl);
    assert(i.before_cursor() =~= e.before_cursor().push(c));
    // A line break.
    let k = e.broken(time);
    assert(k.at.lines.take(row + 1) =~= a.push(line.take(col)));
    assert(k.at.lines[row + 1] == line.skip(col));
    assert(line.skip(col).take(0) =~= Seq::<char>::empty());
    assert(line.skip(col).skip(0) =~= line.skip(col));
    assert(k.at.lines.skip(row + 2) =~= b);
    lemma_joined_push(a.push(line.take(col)), Seq::empty(), nl);
    assert(k.before_cursor() =~= e.before_cursor().push('\n'));
    // Taking back, and a move to the left.
    let d = e.backspaced(time);
    let l = e.left();
    if col > 0 {
        let less = line.remove(col - 1);
        assert(d.at.lines.take(row) =~= a);
        assert(d.at.lines[row] == less);
        assert(less.take(col - 1) =~= line.take(col - 1));
        assert(less.skip(col - 1) =~= line.skip(col));
        assert(d.at.lines.skip(row + 1) =~= b);
        lemma_joined_push(a, line.take(col - 1), nl);
        assert(line.take(col).drop_last() =~= line.take(col - 1));
        assert(d.before_cursor() =~= e.before_cursor().drop_last());
        assert(l.before_cursor() =~= e.before_cursor().drop_last());
    } else if row > 0 {
        let above = lines[row - 1];
        assert(line.take(0) =~= Seq::<char>::empty());
        assert(line.skip(0) =~= line);
        let upper = lines.take(row - 1);
        assert(a =~= upper.push(above));
        assert(e.before_cursor() =~= joined(a, nl) + nl);
        assert(e.before_cursor().drop_last() =~= joined(a, nl));
        assert(d.at.lines.take(row - 1) =~= upper);
        assert(d.at.lines[row - 1] == above + line);
        assert((above + line).take(above.len() as int) =~= above);
        assert((above + line).skip(above.len() as int) =~= line);
        assert(d.at.lines.skip(row) =~= b);
        assert(l.line().take(above.len() as int) =~= above);
    } else {
        assert(line.take(0) =~= Seq::<char>::empty());
        assert(a =~= Seq::<Seq<char>>::empty());
    }
}

/// The start of a line is where nothing of it is before the cursor, and its end where nothing
/// is behind; neither move leaves the line.
pub proof fn law_home_and_end_stay_on_the_line(e: EditorModel)
    requires
        e.wf(),
    ensures
        e.home().at.row == e.at.row && e.end().at.row == e.at.row,
        e.home().line().take(e.home().at.col).len() == 0,
        e.end().line().skip(e.end().at.col).len() == 0,
        e.home().text() == e.text() && e.end().text() == e.text(),
{
}

} // verus!
