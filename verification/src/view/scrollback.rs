//! The transcript pane: its lines, how they wrap, and which of them show.

use super::search::{highlight_search, matching, search_marked, search_matches};
use crate::overlay::{Overlay, OverlayModel};
use crate::render::highlight::{Highlighter, Inks};
use crate::render::markdown::{markdown_lines, render_markdown};
use crate::render::tool::{render_tool, tool_lines};
use crate::render::{add_line, add_lines, copy_lines, copy_spans, Line, LineModel, Span, SpanModel};
use crate::text::{after_prefix, cat, strip};
use crate::theme::Theme;
use crate::transcript::{TranscriptItem, TranscriptItemModel};
use vstd::prelude::*;
use vstd::string::*;

verus! {

// ---------------------------------------------------------------------------
// Lines
// ---------------------------------------------------------------------------

/// The lines of one item.
pub open spec fn item_lines(inks: Inks, item: TranscriptItemModel, theme: Theme) -> Seq<LineModel> {
    match item {
        TranscriptItemModel::User(text) => seq![
            LineModel {
                spans: seq![
                    SpanModel { text: "› "@, style: theme.accent },
                    SpanModel { text, style: theme.text },
                ],
            },
        ],
        TranscriptItemModel::Assistant(text) => markdown_lines(inks, text),
        TranscriptItemModel::Reasoning(text) => seq![
            LineModel::of("("@ + text + ")"@, theme.reasoning),
        ],
        TranscriptItemModel::Error(text) => seq![
            LineModel {
                spans: seq![
                    SpanModel { text: "✖ error: "@, style: theme.status_err },
                    SpanModel { text, style: theme.status_err },
                ],
            },
        ],
        TranscriptItemModel::Workflow(text) => seq![LineModel::of(text, theme.text_muted)],
        TranscriptItemModel::Tool { name, status, title, input, output, expanded } => tool_lines(
            name,
            status,
            title,
            input,
            output,
            expanded,
            false,
            theme,
        ),
    }
}

/// The lines of all items.
pub open spec fn all_lines(inks: Inks, items: Seq<TranscriptItemModel>, theme: Theme) -> Seq<
    LineModel,
>
    decreases items.len(),
{
    if items.len() == 0 {
        Seq::empty()
    } else {
        all_lines(inks, items.drop_last(), theme) + item_lines(inks, items.last(), theme)
    }
}

/// Where each item's lines start.
pub open spec fn item_starts(inks: Inks, items: Seq<TranscriptItemModel>, theme: Theme) -> Seq<
    usize,
> {
    Seq::new(items.len(), |i: int| all_lines(inks, items.take(i), theme).len() as usize)
}

/// The lines of one item.
fn lines_of_item(h: &mut Highlighter, item: &TranscriptItem, theme: &Theme) -> (r: Vec<Line>)
    requires
        old(h).wf(),
    ensures
        final(h).wf(),
        final(h).inks() == old(h).inks(),
        r.deep_view() == item_lines(old(h).inks(), item.deep_view(), *theme),
{
    let ghost want = item_lines(h.inks(), item.deep_view(), *theme);
    let line = match item {
        TranscriptItem::Assistant(text) => {
            return render_markdown(h, text.as_str());
        },
        TranscriptItem::Tool { name, status, title, input, output, expanded } => {
            return render_tool(
                name.as_str(),
                *status,
                title.as_str(),
                input,
                output,
                *expanded,
                false,
                theme,
            );
        },
        TranscriptItem::User(text) => Line::pair(
            Span::styled("› ".to_owned(), theme.accent),
            Span::styled(text.clone(), theme.text),
        ),
        TranscriptItem::Reasoning(text) => {
            let mut s = cat("(", text.as_str());
            s.append(")");
            Line::of(s, theme.reasoning)
        },
        TranscriptItem::Error(text) => Line::pair(
            Span::styled("✖ error: ".to_owned(), theme.status_err),
            Span::styled(text.clone(), theme.status_err),
        ),
        TranscriptItem::Workflow(text) => Line::of(text.clone(), theme.text_muted),
    };
    let mut out: Vec<Line> = Vec::new();
    add_line(&mut out, line);
    assert(out.deep_view() =~= want);
    out
}

/// The lines of the transcript, and where each item's lines start.
pub fn transcript_lines_with_starts(
    h: &mut Highlighter,
    items: &[TranscriptItem],
    theme: &Theme,
) -> (r: (Vec<Line>, Vec<usize>))
    requires
        old(h).wf(),
    ensures
        final(h).wf(),
        final(h).inks() == old(h).inks(),
        r.0.deep_view() == all_lines(old(h).inks(), items.deep_view(), *theme),
        r.1@ == item_starts(old(h).inks(), items.deep_view(), *theme),
{
    let ghost inks = h.inks();
    let ghost all = items.deep_view();
    let mut lines: Vec<Line> = Vec::new();
    let mut starts: Vec<usize> = Vec::new();
    let mut i: usize = 0;
    while i < items.len()
        invariant
            i <= items@.len(),
            all == items.deep_view(),
            h.wf(),
            h.inks() == inks,
            lines.deep_view() == all_lines(inks, all.take(i as int), *theme),
            starts@ == item_starts(inks, all, *theme).take(i as int),
        decreases items@.len() - i,
    {
        proof {
            assert(all.take(i + 1).drop_last() =~= all.take(i as int));
            assert(all.take(i + 1).last() == items@[i as int].deep_view());
            let s = item_starts(inks, all, *theme);
            assert(s.take(i + 1) =~= s.take(i as int).push(s[i as int]));
            assert(lines@.len() == lines.deep_view().len());
        }
        starts.push(lines.len());
        let more = lines_of_item(h, &items[i], theme);
        add_lines(&mut lines, more);
        i += 1;
    }
    proof {
        assert(all.take(i as int) =~= all);
        let s = item_starts(inks, all, *theme);
        assert(s.take(i as int) =~= s);
    }
    (lines, starts)
}

/// The lines of the transcript.
pub fn transcript_lines(h: &mut Highlighter, items: &[TranscriptItem], theme: &Theme) -> (r: Vec<Line>)
    requires
        old(h).wf(),
    ensures
        final(h).wf(),
        final(h).inks() == old(h).inks(),
        r.deep_view() == all_lines(old(h).inks(), items.deep_view(), *theme),
{
    transcript_lines_with_starts(h, items, theme).0
}

proof fn lemma_prefix_len(inks: Inks, items: Seq<TranscriptItemModel>, theme: Theme, i: int)
    requires
        0 <= i <= items.len(),
    ensures
        all_lines(inks, items.take(i), theme).len() <= all_lines(inks, items, theme).len(),
    decreases items.len(),
{
    if i < items.len() {
        lemma_prefix_len(inks, items.drop_last(), theme, i);
        assert(items.drop_last().take(i) =~= items.take(i));
    } else {
        assert(items.take(i) =~= items);
    }
}

/// Every item's lines stand where its start says, one item after the other.
pub proof fn law_starts_find_the_items(inks: Inks, items: Seq<TranscriptItemModel>, theme: Theme, i: int)
    requires
        0 <= i < items.len(),
        all_lines(inks, items, theme).len() <= usize::MAX,
    ensures
        item_starts(inks, items, theme)[i] + item_lines(inks, items[i], theme).len() <= all_lines(
            inks,
            items,
            theme,
        ).len(),
        all_lines(inks, items, theme).subrange(
            item_starts(inks, items, theme)[i] as int,
            item_starts(inks, items, theme)[i] + item_lines(inks, items[i], theme).len(),
        ) == item_lines(inks, items[i], theme),
        i + 1 < items.len() ==> item_starts(inks, items, theme)[i + 1] == item_starts(
            inks,
            items,
            theme,
        )[i] + item_lines(inks, items[i], theme).len(),
    decreases items.len(),
{
    let all = all_lines(inks, items, theme);
    let front = items.drop_last();
    let before = all_lines(inks, items.take(i), theme);
    let own = item_lines(inks, items[i], theme);
    assert(items.take(i + 1).drop_last() =~= items.take(i));
    assert(items.take(i + 1).last() == items[i]);
    assert(all_lines(inks, items.take(i + 1), theme) == before + own);
    lemma_prefix_len(inks, items, theme, i);
    lemma_prefix_len(inks, items, theme, i + 1);
    if i == items.len() - 1 {
        assert(items.take(i + 1) =~= items);
        assert(all.subrange(before.len() as int, (before.len() + own.len()) as int) =~= own);
    } else {
        assert(all == all_lines(inks, front, theme) + item_lines(inks, items.last(), theme));
        law_starts_find_the_items(inks, front, theme, i);
        assert(front.take(i) =~= items.take(i));
        assert(front[i] == items[i]);
        assert(all.subrange(before.len() as int, (before.len() + own.len()) as int) =~= all_lines(
            inks,
            front,
            theme,
        ).subrange(before.len() as int, (before.len() + own.len()) as int));
        if i + 1 < items.len() - 1 {
            assert(front.take(i + 1) =~= items.take(i + 1));
        } else {
            assert(front =~= items.take(i + 1));
        }
    }
}

// ---------------------------------------------------------------------------
// Wrapping
// ---------------------------------------------------------------------------

/// The rows that the runs of a line take when they wrap at a width.
pub uninterp spec fn row_count(texts: Seq<Seq<char>>, width: u16) -> usize;

/// The texts of a line's runs.
pub open spec fn run_texts(line: LineModel) -> Seq<Seq<char>> {
    line.spans.map_values(|s: SpanModel| s.text)
}

/// The widest that lines are wrapped at. The wrapping adds up to four widths in 16
/// bits.
pub const MAX_WRAP: u16 = 0x3fff;

/// The width that lines are wrapped at where `width` columns are there.
pub open spec fn wrap_width(width: u16) -> u16 {
    if width <= MAX_WRAP {
        width
    } else {
        MAX_WRAP
    }
}

/// `ratatui::widgets::Paragraph::line_count` of a single line that wraps at words
/// and keeps leading blanks: the rows it takes at a width. At a greater width the
/// sums of widths within it could overflow.
#[verifier::external_body]
fn count_rows(line: &Line, width: u16) -> (r: usize)
    requires
        width <= MAX_WRAP,
    ensures
        r == row_count(run_texts(line.deep_view()), width),
{
    let runs = line.spans.iter().map(|s| ratatui::text::Span::raw(s.text.as_str()));
    let text = ratatui::text::Line::from(runs.collect::<Vec<_>>());
    let wrap = ratatui::widgets::Wrap { trim: false };
    ratatui::widgets::Paragraph::new(text).wrap(wrap).line_count(width)
}

/// The rows of the first `n` lines where `width` columns are there.
pub open spec fn rows_before(lines: Seq<LineModel>, n: int, width: u16) -> nat
    decreases n,
{
    if n <= 0 {
        0
    } else {
        rows_before(lines, n - 1, width) + row_count(
            run_texts(lines[n - 1]),
            wrap_width(width),
        ) as nat
    }
}

/// A count of rows, as far as 32 bits go.
pub open spec fn clipped(n: nat) -> u32 {
    if n > u32::MAX {
        u32::MAX
    } else {
        n as u32
    }
}

/// The assembled lines of the transcript at a width, kept between frames.
#[derive(Debug)]
pub struct LineCache {
    /// The generation of the transcript that the lines are of.
    pub generation: u64,
    pub width: u16,
    pub lines: Vec<Line>,
    /// The rows of all lines at the width.
    pub wrap_total: u32,
    /// Where each transcript item's lines start.
    pub item_line_starts: Vec<usize>,
    /// The row at which each line starts.
    pub line_wrap_starts: Vec<u32>,
}

/// The value of a [`LineCache`].
#[verifier::ext_equal]
pub struct LineCacheModel {
    pub generation: u64,
    pub width: u16,
    pub lines: Seq<LineModel>,
    pub wrap_total: u32,
    pub item_line_starts: Seq<usize>,
    pub line_wrap_starts: Seq<u32>,
}

impl DeepView for LineCache {
    type V = LineCacheModel;

    open spec fn deep_view(&self) -> LineCacheModel {
        LineCacheModel {
            generation: self.generation,
            width: self.width,
            lines: self.lines.deep_view(),
            wrap_total: self.wrap_total,
            item_line_starts: self.item_line_starts@,
            line_wrap_starts: self.line_wrap_starts@,
        }
    }
}

/// The lines of a transcript assembled at a width.
pub open spec fn assembled(
    inks: Inks,
    items: Seq<TranscriptItemModel>,
    theme: Theme,
    generation: u64,
    width: u16,
) -> LineCacheModel {
    let lines = all_lines(inks, items, theme);
    LineCacheModel {
        generation,
        width,
        lines,
        wrap_total: clipped(rows_before(lines, lines.len() as int, width)),
        item_line_starts: item_starts(inks, items, theme),
        line_wrap_starts: Seq::new(lines.len(), |i: int| clipped(rows_before(lines, i, width))),
    }
}

/// What is kept after a frame: what was kept already, where it is of the same
/// generation and width; else the lines assembled anew.
pub open spec fn refreshed(
    kept: Option<LineCacheModel>,
    inks: Inks,
    items: Seq<TranscriptItemModel>,
    theme: Theme,
    generation: u64,
    width: u16,
) -> LineCacheModel {
    match kept {
        Some(c) => if c.generation == generation && c.width == width {
            c
        } else {
            assembled(inks, items, theme, generation, width)
        },
        None => assembled(inks, items, theme, generation, width),
    }
}

/// Assembles the lines of a transcript at a width.
pub fn assemble(
    h: &mut Highlighter,
    items: &[TranscriptItem],
    theme: &Theme,
    generation: u64,
    width: u16,
) -> (r: LineCache)
    requires
        old(h).wf(),
    ensures
        final(h).wf(),
        final(h).inks() == old(h).inks(),
        r.deep_view() == assembled(old(h).inks(), items.deep_view(), *theme, generation, width),
{
    let ghost want = assembled(h.inks(), items.deep_view(), *theme, generation, width);
    let (lines, item_line_starts) = transcript_lines_with_starts(h, items, theme);
    let ghost all = lines.deep_view();
    let columns: u16 = if width <= MAX_WRAP {
        width
    } else {
        MAX_WRAP
    };
    let mut starts: Vec<u32> = Vec::new();
    let mut total: u32 = 0;
    let mut i: usize = 0;
    while i < lines.len()
        invariant
            i <= lines@.len(),
            columns == wrap_width(width),
            all == lines.deep_view(),
            want.lines == all,
            want.line_wrap_starts == Seq::new(
                all.len(),
                |i: int| clipped(rows_before(all, i, width)),
            ),
            total == clipped(rows_before(all, i as int, width)),
            starts@ == want.line_wrap_starts.take(i as int),
        decreases lines@.len() - i,
    {
        starts.push(total);
        proof {
            let w = want.line_wrap_starts;
            assert(w.take(i + 1) =~= w.take(i as int).push(w[i as int]));
            assert(all[i as int] == lines@[i as int].deep_view());
        }
        let n: usize = count_rows(&lines[i], columns);
        total = if n > (u32::MAX - total) as usize {
            u32::MAX
        } else {
            total + n as u32
        };
        i += 1;
    }
    proof {
        let w = want.line_wrap_starts;
        assert(w.take(i as int) =~= w);
    }
    LineCache {
        generation,
        width,
        lines,
        wrap_total: total,
        item_line_starts,
        line_wrap_starts: starts,
    }
}

/// Draws frames: highlights code and keeps the assembled lines between frames.
pub struct Renderer {
    pub highlighter: Highlighter,
    pub cache: Option<LineCache>,
}

impl Renderer {
    /// The invariant.
    pub open spec fn wf(&self) -> bool {
        self.highlighter.wf()
    }

    /// The renderer for a configured theme.
    pub fn new(preset: Option<&str>) -> (r: Self)
        ensures
            r.wf(),
            r.cache is None,
            r.highlighter.inks().theme == crate::render::highlight::syntax_theme(
                crate::client::opt_text(preset),
            ),
    {
        let mut highlighter = Highlighter::new();
        crate::render::highlight::select_syntect_theme(&mut highlighter, preset);
        Renderer { highlighter, cache: None }
    }

    /// Assembles the lines of a transcript, unless those that are kept are of the
    /// same generation and width.
    pub fn refresh(&mut self, items: &[TranscriptItem], theme: &Theme, generation: u64, width: u16)
        requires
            old(self).wf(),
        ensures
            final(self).wf(),
            final(self).highlighter.inks() == old(self).highlighter.inks(),
            final(self).cache is Some,
            final(self).cache->0.deep_view() == refreshed(
                old(self).cache.deep_view(),
                old(self).highlighter.inks(),
                items.deep_view(),
                *theme,
                generation,
                width,
            ),
    {
        let stale = match &self.cache {
            Some(c) => c.generation != generation || c.width != width,
            None => true,
        };
        if stale {
            self.cache = Some(assemble(&mut self.highlighter, items, theme, generation, width));
        }
    }
}

// ---------------------------------------------------------------------------
// Scrolling
// ---------------------------------------------------------------------------

/// The first row that shows when the end of `total` rows is at the bottom of a
/// view of `height` rows.
pub open spec fn last_offset(total: u32, height: u16) -> u32 {
    if total > height {
        (total - height) as u32
    } else {
        0
    }
}

/// The first row that shows when the end of `total` rows is at the bottom of a
/// view of `height` rows.
pub fn scroll_max(total: u32, height: u16) -> (r: u32)
    ensures
        r == last_offset(total, height),
{
    total.saturating_sub(height as u32)
}

/// The smaller of two row numbers.
pub open spec fn lesser(a: u32, b: u32) -> u32 {
    if a < b {
        a
    } else {
        b
    }
}

/// The first row that shows, `scroll` rows off the bottom, and `scroll` as far as
/// there is anything to scroll to.
pub fn scroll_offset(scroll: u32, total: u32, height: u16) -> (r: (u32, u32))
    ensures
        r.1 == lesser(scroll, last_offset(total, height)),
        r.0 == last_offset(total, height) - r.1,
{
    let max: u32 = scroll_max(total, height);
    let clamped: u32 = if scroll < max {
        scroll
    } else {
        max
    };
    (max - clamped, clamped)
}

/// The first row that shows when row `at` is in the middle of the view, as far as
/// there are rows.
pub open spec fn centered_offset(at: u32, total: u32, height: u16) -> u32 {
    lesser(
        if at > height / 2 {
            (at - height / 2) as u32
        } else {
            0
        },
        last_offset(total, height),
    )
}

/// The first row that shows when row `at` is in the middle of the view.
pub fn search_offset(at: u32, total: u32, height: u16) -> (r: u32)
    ensures
        r == centered_offset(at, total, height),
{
    let max: u32 = scroll_max(total, height);
    let top: u32 = at.saturating_sub((height / 2) as u32);
    if top < max {
        top
    } else {
        max
    }
}

/// A row that is brought to the middle shows.
pub proof fn law_a_centered_row_shows(at: u32, total: u32, height: u16)
    requires
        at < total,
        height > 0,
    ensures
        centered_offset(at, total, height) <= at < centered_offset(at, total, height) + height,
{
}

/// No scroll position shows rows past the last one, and without scrolling the last
/// row shows.
pub proof fn law_scrolling_stays_within_the_rows(scroll: u32, total: u32, height: u16)
    requires
        height > 0,
        total > 0,
    ensures
        last_offset(total, height) - lesser(scroll, last_offset(total, height)) < total,
        last_offset(total, height) <= total - 1 < last_offset(total, height) + height,
{
}

// ---------------------------------------------------------------------------
// The pane
// ---------------------------------------------------------------------------

/// A line of the selected tool row: the blank margin becomes a bar.
pub open spec fn barred(line: LineModel, theme: Theme) -> LineModel {
    if line.spans.len() > 0 {
        match after_prefix(line.spans[0].text, "  "@) {
            Some(rest) => LineModel {
                spans: line.spans.update(
                    0,
                    SpanModel { text: "▌ "@ + rest, style: theme.accent },
                ),
            },
            None => line,
        }
    } else {
        line
    }
}

/// The lines with those from `start` to `end` barred.
pub open spec fn bar_lines(lines: Seq<LineModel>, start: int, end: int, theme: Theme) -> Seq<
    LineModel,
> {
    Seq::new(
        lines.len(),
        |i: int|
            if start <= i < end {
                barred(lines[i], theme)
            } else {
                lines[i]
            },
    )
}

/// What the transcript pane shows: the lines, the first row, and whether there is
/// more below.
#[verifier::ext_equal]
pub struct PlanModel {
    pub lines: Seq<LineModel>,
    pub offset: u32,
    pub more: bool,
}

/// What the transcript pane shows.
#[derive(Debug)]
pub struct Plan {
    pub lines: Vec<Line>,
    pub offset: u32,
    pub more: bool,
}

impl DeepView for Plan {
    type V = PlanModel;

    open spec fn deep_view(&self) -> PlanModel {
        PlanModel { lines: self.lines.deep_view(), offset: self.offset, more: self.more }
    }
}

impl LineCacheModel {
    /// The row at which a line starts; past the lines, the row after the last one.
    pub open spec fn row_of(self, line: int) -> u32 {
        if 0 <= line < self.line_wrap_starts.len() {
            self.line_wrap_starts[line]
        } else {
            self.wrap_total
        }
    }

    /// The line of the current match of a search.
    pub open spec fn current_match(self, query: Seq<char>, current: usize) -> Option<usize> {
        let found = matching(self.lines, query);
        if found.len() == 0 {
            None
        } else if current < found.len() {
            Some(found[current as int])
        } else {
            Some(found.last())
        }
    }

    /// Where the lines of an item end.
    pub open spec fn item_end(self, item: int) -> int {
        if item + 1 < self.item_line_starts.len() {
            self.item_line_starts[item + 1] as int
        } else {
            self.lines.len() as int
        }
    }

    /// What shows of a search's current match.
    pub open spec fn search_plan(
        self,
        query: Seq<char>,
        at: usize,
        theme: Theme,
        height: u16,
    ) -> PlanModel {
        PlanModel {
            lines: search_marked(self.lines, query, Some(at), theme),
            offset: centered_offset(self.row_of(at as int), self.wrap_total, height),
            more: false,
        }
    }

    /// What shows around a selected item.
    pub open spec fn item_plan(self, item: int, theme: Theme, height: u16) -> PlanModel {
        let start = self.item_line_starts[item] as int;
        let offset = centered_offset(self.row_of(start), self.wrap_total, height);
        PlanModel {
            lines: bar_lines(self.lines, start, self.item_end(item), theme),
            offset,
            more: offset < last_offset(self.wrap_total, height),
        }
    }

    /// What shows at a scroll position.
    pub open spec fn scroll_plan(self, scroll: u32, height: u16) -> PlanModel {
        let max = last_offset(self.wrap_total, height);
        PlanModel {
            lines: self.lines,
            offset: (max - lesser(scroll, max)) as u32,
            more: lesser(scroll, max) > 0,
        }
    }

    /// What shows: the current match of a search, else the selected tool row, else
    /// what the scroll position says.
    pub open spec fn plan(
        self,
        overlay: OverlayModel,
        tool_cursor: Option<usize>,
        scroll: u32,
        theme: Theme,
        height: u16,
    ) -> PlanModel {
        let found = match overlay {
            OverlayModel::Search(s) => self.current_match(s.query, s.current),
            _ => None,
        };
        match found {
            Some(at) => self.search_plan(overlay->Search_0.query, at, theme, height),
            None => match tool_cursor {
                Some(t) => if t < self.item_line_starts.len() {
                    self.item_plan(t as int, theme, height)
                } else {
                    self.scroll_plan(scroll, height)
                },
                None => self.scroll_plan(scroll, height),
            },
        }
    }
}

/// A line of the selected tool row: the blank margin becomes a bar.
fn bar_line(line: &Line, theme: &Theme) -> (r: Line)
    ensures
        r.deep_view() == barred(line.deep_view(), *theme),
{
    let ghost m = line.deep_view();
    if line.spans.len() > 0 {
        if let Some(rest) = strip(line.spans[0].text.as_str(), "  ") {
            let first = Span::styled(cat("▌ ", rest.as_str()), theme.accent);
            let ghost f = first.deep_view();
            let s = line.spans.as_slice();
            assert(s.deep_view() =~= m.spans);
            let mut spans = copy_spans(s);
            proof {
                assert(spans.deep_view().len() == spans@.len());
            }
            let ghost before = spans.deep_view();
            spans.set(0, first);
            let r = Line { spans };
            assert(r.deep_view().spans =~= before.update(0, f));
            return r;
        }
    }
    line.clone()
}

/// The lines with those from `start` to `end` barred.
fn bar_all(lines: &[Line], start: usize, end: usize, theme: &Theme) -> (r: Vec<Line>)
    ensures
        r.deep_view() == bar_lines(lines.deep_view(), start as int, end as int, *theme),
{
    let ghost all = lines.deep_view();
    let ghost want = bar_lines(all, start as int, end as int, *theme);
    let mut out: Vec<Line> = Vec::new();
    let mut i: usize = 0;
    assert(out.deep_view() =~= want.take(0));
    while i < lines.len()
        invariant
            i <= lines@.len(),
            all == lines.deep_view(),
            want == bar_lines(all, start as int, end as int, *theme),
            out.deep_view() == want.take(i as int),
        decreases lines@.len() - i,
    {
        proof {
            assert(all[i as int] == lines@[i as int].deep_view());
            assert(want.take(i + 1) =~= want.take(i as int).push(want[i as int]));
        }
        let line = if start <= i && i < end {
            bar_line(&lines[i], theme)
        } else {
            lines[i].clone()
        };
        add_line(&mut out, line);
        i += 1;
    }
    assert(want.take(i as int) =~= want);
    out
}

impl LineCache {
    fn row_of(&self, line: usize) -> (r: u32)
        ensures
            r == self.deep_view().row_of(line as int),
    {
        if line < self.line_wrap_starts.len() {
            self.line_wrap_starts[line]
        } else {
            self.wrap_total
        }
    }

    /// The line of the current match of a search.
    fn current_match(&self, query: &str, current: usize) -> (r: Option<usize>)
        ensures
            r == self.deep_view().current_match(query@, current),
    {
        let ls = self.lines.as_slice();
        assert(ls.deep_view() =~= self.lines.deep_view());
        let found = search_matches(ls, query);
        let n: usize = found.len();
        if n == 0 {
            None
        } else if current < n {
            Some(found[current])
        } else {
            Some(found[n - 1])
        }
    }

    /// What shows: the current match of a search, else the selected tool row, else
    /// what the scroll position says.
    pub fn plan(
        &self,
        overlay: &Overlay,
        tool_cursor: Option<usize>,
        scroll: u32,
        theme: &Theme,
        height: u16,
    ) -> (r: Plan)
        ensures
            r.deep_view() == self.deep_view().plan(
                overlay.deep_view(),
                tool_cursor,
                scroll,
                *theme,
                height,
            ),
    {
        let ls = self.lines.as_slice();
        assert(ls.deep_view() =~= self.lines.deep_view());
        if let Overlay::Search(s) = overlay {
            if let Some(at) = self.current_match(s.query.as_str(), s.current) {
                return Plan {
                    lines: highlight_search(ls, s.query.as_str(), Some(at), theme),
                    offset: search_offset(self.row_of(at), self.wrap_total, height),
                    more: false,
                };
            }
        }
        if let Some(t) = tool_cursor {
            let n: usize = self.item_line_starts.len();
            if t < n {
                let start: usize = self.item_line_starts[t];
                let end: usize = if t < n - 1 {
                    self.item_line_starts[t + 1]
                } else {
                    self.lines.len()
                };
                let offset: u32 = search_offset(self.row_of(start), self.wrap_total, height);
                return Plan {
                    lines: bar_all(ls, start, end, theme),
                    offset,
                    more: offset < scroll_max(self.wrap_total, height),
                };
            }
        }
        let (offset, clamped) = scroll_offset(scroll, self.wrap_total, height);
        Plan { lines: copy_lines(ls), offset, more: clamped > 0 }
    }
}

// ---------------------------------------------------------------------------
// The window
// ---------------------------------------------------------------------------

/// The last of the lines that start at or above a row.
pub open spec fn line_at(starts: Seq<u32>, row: u32) -> nat
    decreases starts.len(),
{
    if starts.len() <= 1 || starts.last() <= row {
        if starts.len() == 0 {
            0
        } else {
            (starts.len() - 1) as nat
        }
    } else {
        line_at(starts.drop_last(), row)
    }
}

/// A row within a line, as far as 16 bits go.
pub open spec fn row_within(starts: Seq<u32>, row: u32) -> u16 {
    let k = line_at(starts, row);
    if k >= starts.len() || row < starts[k as int] {
        0
    } else if row - starts[k as int] > u16::MAX {
        u16::MAX
    } else {
        (row - starts[k as int]) as u16
    }
}

/// The line that a row belongs to, and the row within it: what is drawn starts
/// with that line, so that the rows to skip stay few.
pub fn window(starts: &[u32], row: u32) -> (r: (usize, u16))
    ensures
        r.0 == line_at(starts@, row),
        r.1 == row_within(starts@, row),
{
    let mut n: usize = starts.len();
    assert(starts@.take(n as int) =~= starts@);
    while n > 1 && starts[n - 1] > row
        invariant
            n <= starts@.len(),
            n == 0 ==> starts@.len() == 0,
            line_at(starts@, row) == line_at(starts@.take(n as int), row),
        decreases n,
    {
        proof {
            assert(starts@.take(n as int).last() == starts@[n - 1]);
            assert(starts@.take(n as int).drop_last() =~= starts@.take(n - 1));
        }
        n -= 1;
    }
    if n == 0 {
        return (0, 0);
    }
    assert(starts@.take(n as int).last() == starts@[n - 1]);
    let k: usize = n - 1;
    let at: u32 = starts[k];
    if row < at {
        (k, 0)
    } else if row - at > u16::MAX as u32 {
        (k, u16::MAX)
    } else {
        (k, (row - at) as u16)
    }
}

proof fn lemma_line_at(starts: Seq<u32>, row: u32)
    requires
        starts.len() > 0,
        starts[0] <= row,
    ensures
        line_at(starts, row) < starts.len(),
        starts[line_at(starts, row) as int] <= row,
        forall|j: int| line_at(starts, row) < j < starts.len() ==> starts[j] > row,
    decreases starts.len(),
{
    if starts.len() > 1 && starts.last() > row {
        let front = starts.drop_last();
        lemma_line_at(front, row);
        assert forall|j: int| line_at(starts, row) < j < starts.len() implies starts[j] > row by {
            if j < front.len() {
                assert(front[j] == starts[j]);
            }
        }
    }
}

/// The line that the window starts with holds the row that was asked for: it starts
/// at or above it, the next one starts below it, and skipping the row within it
/// leads to that row.
pub proof fn law_the_window_starts_at_the_row(lines: Seq<LineModel>, width: u16, row: u32)
    requires
        lines.len() > 0,
    ensures
        ({
            let starts = Seq::new(lines.len(), |i: int| clipped(rows_before(lines, i, width)));
            let k = line_at(starts, row);
            &&& k < lines.len()
            &&& starts[k as int] <= row
            &&& k + 1 < lines.len() ==> row < starts[(k + 1) as int]
            &&& row - starts[k as int] <= u16::MAX ==> starts[k as int] + row_within(starts, row)
                == row
        }),
{
    let starts = Seq::new(lines.len(), |i: int| clipped(rows_before(lines, i, width)));
    assert(starts[0] == 0);
    lemma_line_at(starts, row);
}

} // verus!
