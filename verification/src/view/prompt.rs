//! The input box, and the search bar in its place.

use super::input_inner_width;
use crate::input::{char_rows, row_in, visual_rows, Editor, EditorModel, WrapRow};
use crate::render::{add_line, Line, LineModel, Span, SpanModel};
use crate::text::{cat, decimal, number};
use crate::theme::Theme;
use vstd::prelude::*;
use vstd::string::*;

verus! {

/// The most rows that the input box takes, with its borders.
pub const INPUT_CAP: u16 = 10;

/// The rows of the input box: those of the wrapped text and two borders, at least
/// three and at most [`INPUT_CAP`].
pub open spec fn box_height(rows: nat) -> u16 {
    if rows + 2 < 3 {
        3
    } else if rows + 2 > INPUT_CAP {
        INPUT_CAP
    } else {
        (rows + 2) as u16
    }
}

/// The rows of the input box.
pub fn input_height(input: &Editor, inner_width: u16) -> (r: u16)
    ensures
        r == box_height(visual_rows(input.deep_view().at.lines, inner_width).len()),
{
    let n: usize = char_rows(input.lines(), inner_width).len();
    if n < 1 {
        3
    } else if n > (INPUT_CAP - 2) as usize {
        INPUT_CAP
    } else {
        n as u16 + 2
    }
}

/// The first row that shows, so that the cursor's row is among `visible` rows.
pub open spec fn first_row(cursor_row: u16, visible: u16) -> u16 {
    if visible == 0 {
        cursor_row
    } else if cursor_row < visible {
        0
    } else {
        (cursor_row - (visible - 1)) as u16
    }
}

/// The first row that shows, so that the cursor's row is among `visible` rows: the
/// smallest such.
pub fn input_scroll(cursor_row: u16, visible: u16) -> (r: u16)
    ensures
        r == first_row(cursor_row, visible),
{
    cursor_row.saturating_sub(visible.saturating_sub(1))
}

/// The cursor's row shows, and it does not from any smaller first row.
pub proof fn law_the_cursor_shows(cursor_row: u16, visible: u16)
    requires
        visible > 0,
    ensures
        first_row(cursor_row, visible) <= cursor_row < first_row(cursor_row, visible) + visible,
        forall|first: int|
            0 <= first < first_row(cursor_row, visible) ==> !(first <= cursor_row < #[trigger] (first
                + visible)),
{
}

/// A row of the input: the prompt before the first one that shows, blanks before
/// the others.
pub open spec fn input_row(lines: Seq<Seq<char>>, row: WrapRow, first: bool, theme: Theme) -> LineModel {
    LineModel {
        spans: seq![
            if first {
                SpanModel { text: "▌ "@, style: theme.accent }
            } else {
                SpanModel { text: "  "@, style: theme.text }
            },
            SpanModel {
                text: lines[row.logical_row as int].subrange(row.start as int, row.end as int),
                style: theme.text,
            },
        ],
    }
}

/// How many of `n` rows show from `first` on.
pub open spec fn shown_rows(n: nat, first: u16, visible: u16) -> nat {
    if first >= n {
        0
    } else if n - first < visible {
        (n - first) as nat
    } else {
        visible as nat
    }
}

/// The rows of the input that show.
pub open spec fn input_rows(e: EditorModel, width: u16, visible: u16, theme: Theme) -> Seq<LineModel> {
    let rows = visual_rows(e.at.lines, width);
    let first = first_row(e.visual(width).0, visible);
    Seq::new(
        shown_rows(rows.len(), first, visible),
        |i: int| input_row(e.at.lines, rows[first + i], i == 0, theme),
    )
}

/// The rows of the input that show in `visible` rows of `width` columns.
pub fn input_lines(input: &Editor, width: u16, visible: u16, theme: &Theme) -> (r: Vec<Line>)
    requires
        input.wf(),
    ensures
        r.deep_view() == input_rows(input.deep_view(), width, visible, *theme),
{
    let ghost e = input.deep_view();
    let ghost want = input_rows(e, width, visible, *theme);
    let lines = input.lines();
    let rows = char_rows(lines, width);
    let (row, _) = input.cursor_visual(width);
    let first: usize = input_scroll(row, visible) as usize;
    proof {
        crate::input::law_rows_in_lines(lines.deep_view(), crate::input::at_least_one(width));
    }
    let mut out: Vec<Line> = Vec::new();
    let mut i: usize = 0;
    assert(out.deep_view() =~= want.take(0));
    while i < visible as usize && first < rows.len() && i < rows.len() - first
        invariant
            lines.deep_view() == e.at.lines,
            rows@ == visual_rows(e.at.lines, width),
            first == first_row(e.visual(width).0, visible),
            forall|k: int| 0 <= k < rows@.len() ==> row_in(e.at.lines, #[trigger] rows@[k]),
            want == input_rows(e, width, visible, *theme),
            i <= want.len(),
            out.deep_view() == want.take(i as int),
        decreases visible - i,
    {
        let w = rows[first + i];
        proof {
            assert(row_in(e.at.lines, rows@[first + i]));
            assert(lines@[w.logical_row as int]@ == e.at.lines[w.logical_row as int]);
            assert(want.take(i + 1) =~= want.take(i as int).push(want[i as int]));
        }
        let text = lines[w.logical_row].as_str().substring_char(w.start, w.end).to_owned();
        let prefix = if i == 0 {
            Span::styled("▌ ".to_owned(), theme.accent)
        } else {
            Span::styled("  ".to_owned(), theme.text)
        };
        let line = Line::pair(prefix, Span::styled(text, theme.text));
        assert(line.deep_view() =~= want[i as int]);
        add_line(&mut out, line);
        i += 1;
    }
    assert(want.take(i as int) =~= want);
    out
}

/// A position on the screen, as far as 16 bits go.
pub open spec fn clip16(n: int) -> u16 {
    if n > u16::MAX {
        u16::MAX
    } else {
        n as u16
    }
}

/// Where the cursor stands on the screen, in a box at `x` and `y`: after the border
/// and the prompt, and never on the border.
pub open spec fn cursor_at(
    e: EditorModel,
    x: u16,
    y: u16,
    width: u16,
    height: u16,
) -> (u16, u16) {
    let at = e.visual(super::inner_width(width));
    let visible = if height < 2 {
        0
    } else {
        height - 2
    };
    let last_col = x + if width < 2 {
        0
    } else {
        width - 2
    };
    let last_row = if height < 3 {
        0
    } else {
        height - 3
    };
    let col = x + 3 + at.1;
    let row = at.0 - first_row(at.0, visible as u16);
    (
        clip16(
            if col < last_col {
                col
            } else {
                last_col
            },
        ),
        clip16(
            y + 1 + if row < last_row {
                row
            } else {
                last_row
            },
        ),
    )
}

/// Where the cursor stands on the screen.
pub fn cursor_position(input: &Editor, x: u16, y: u16, width: u16, height: u16) -> (r: (u16, u16))
    requires
        input.wf(),
    ensures
        r == cursor_at(input.deep_view(), x, y, width, height),
{
    let (vr, vc) = input.cursor_visual(input_inner_width(width));
    let visible: u16 = height.saturating_sub(2);
    let row: u16 = vr - input_scroll(vr, visible);
    let last_col: u16 = x.saturating_add(width.saturating_sub(2));
    let last_row: u16 = height.saturating_sub(3);
    let col: u16 = x.saturating_add(3).saturating_add(vc);
    let shown: u16 = if row < last_row {
        row
    } else {
        last_row
    };
    (
        if col < last_col {
            col
        } else {
            last_col
        },
        y.saturating_add(1).saturating_add(shown),
    )
}

/// The search bar: the query, and which of how many matches is the current one.
pub open spec fn search_bar(query: Seq<char>, current: usize, found: nat, theme: Theme) -> LineModel {
    let at = if found == 0 {
        0
    } else if current < found {
        (current + 1) as nat
    } else {
        found
    };
    LineModel {
        spans: seq![
            SpanModel { text: "▌ /"@, style: theme.accent },
            SpanModel { text: query, style: theme.text },
            SpanModel {
                text: "    "@ + decimal(at) + "/"@ + decimal(found),
                style: theme.text_muted,
            },
        ],
    }
}

/// The search bar: the query, and which of how many matches is the current one.
pub fn search_bar_line(query: &str, current: usize, found: usize, theme: &Theme) -> (r: Line)
    ensures
        r.deep_view() == search_bar(query@, current, found as nat, *theme),
{
    let at: usize = if found == 0 {
        0
    } else if current < found {
        current + 1
    } else {
        found
    };
    let mut count = cat("    ", number(at as u64).as_str());
    count.append("/");
    count.append(number(found as u64).as_str());
    Line::triple(
        Span::styled("▌ /".to_owned(), theme.accent),
        Span::styled(query.to_owned(), theme.text),
        Span::styled(count, theme.text_muted),
    )
}

} // verus!
