//! What is drawn: the panes of the screen, each with its place and its lines.

pub mod footer;
pub mod header;
pub mod looks;
pub mod popups;
pub mod prompt;
pub mod scrollback;
pub mod search;

use self::footer::{attachment_chip, chip, todo_height, todo_lines, todos_lines};
use self::popups::{
    box_rows, boxed, file_rows, files_count, files_len, files_lines, list_lines, list_rows,
    palette_count, palette_len, palette_lines, palette_rows, permission_question, permission_text,
    plain_lines, text_input_lines, text_input_rows, text_lines, workflow_lines, workflow_rows, HELP_FULL,
};
use self::prompt::{
    box_height, clip16, cursor_at, cursor_position, input_height, input_lines, input_rows, search_bar,
    search_bar_line,
};
use self::scrollback::{
    all_lines, last_offset, line_at, refreshed, row_within, scroll_max, transcript_lines, window,
    LineCacheModel, Renderer,
};
use self::search::{matching, search_matches};
use crate::client::{AgentInfo, AgentInfoModel, ModelChoice, ModelChoiceModel, SessionInfo, SessionInfoModel};
use crate::input::visual_rows;
use crate::overlay::{Overlay, OverlayModel};
use crate::render::highlight::{Highlighter, Inks};
use crate::render::{add_line, copy_lines, Line, LineModel};
use crate::splash::{banner_of, fitting, portrait_of, rows, sections, splash_lines, splash_variant, widest, SplashVariant, ART};
use crate::state::{completed, waits, App, AppModel};
use crate::text::{cat, decimal, number};
use crate::theme::{Style, Theme};
use ratatui::layout::{Constraint, Layout};
use vstd::prelude::*;
use vstd::string::*;

verus! {

/// The columns that the input's prompt takes.
pub const PROMPT_W: u16 = 2;

/// The smallest screen that is laid out.
pub const MIN_COLS: u16 = 60;

pub const MIN_ROWS: u16 = 10;

/// The columns that the input's text has at a terminal width: what the borders
/// and the prompt leave.
pub open spec fn inner_width(width: u16) -> u16 {
    if width < 4 {
        0
    } else {
        (width - 4) as u16
    }
}

/// The columns that the input's text has at a terminal width.
pub fn input_inner_width(width: u16) -> (r: u16)
    ensures
        r == inner_width(width),
{
    width.saturating_sub(2 + PROMPT_W)
}

// ---------------------------------------------------------------------------
// Panes
// ---------------------------------------------------------------------------

/// A part of the screen.
#[derive(Debug, Clone, Copy, PartialEq, Eq, Structural)]
pub struct Rect {
    pub x: u16,
    pub y: u16,
    pub width: u16,
    pub height: u16,
}

/// How lines that are too long show.
#[derive(Debug, Clone, Copy, PartialEq, Eq, Structural)]
pub enum Folding {
    /// They are cut.
    Cut,
    /// They wrap at words.
    Wrap,
    /// They wrap at words, without blanks at the start of a row.
    WrapTrimmed,
}

/// A border with its title.
#[derive(Debug, PartialEq)]
pub struct Border {
    pub title: String,
    pub style: Style,
}

/// The value of a [`Border`].
#[verifier::ext_equal]
pub struct BorderModel {
    pub title: Seq<char>,
    pub style: Style,
}

impl DeepView for Border {
    type V = BorderModel;

    open spec fn deep_view(&self) -> BorderModel {
        BorderModel { title: self.title.deep_view(), style: self.style }
    }
}

/// Lines in a part of the screen.
#[derive(Debug, PartialEq)]
pub struct Pane {
    pub area: Rect,
    /// Whether what is below is wiped first.
    pub wipes: bool,
    pub border: Option<Border>,
    pub lines: Vec<Line>,
    /// The style under that of the lines.
    pub style: Style,
    pub centered: bool,
    pub folding: Folding,
    /// Rows of the lines that are skipped.
    pub scroll: u16,
}

/// The value of a [`Pane`].
#[verifier::ext_equal]
pub struct PaneModel {
    pub area: Rect,
    pub wipes: bool,
    pub border: Option<BorderModel>,
    pub lines: Seq<LineModel>,
    pub style: Style,
    pub centered: bool,
    pub folding: Folding,
    pub scroll: u16,
}

impl DeepView for Pane {
    type V = PaneModel;

    open spec fn deep_view(&self) -> PaneModel {
        PaneModel {
            area: self.area,
            wipes: self.wipes,
            border: self.border.deep_view(),
            lines: self.lines.deep_view(),
            style: self.style,
            centered: self.centered,
            folding: self.folding,
            scroll: self.scroll,
        }
    }
}

/// The whole screen: its panes, the lowest first, and where the cursor stands.
#[derive(Debug, PartialEq)]
pub struct Screen {
    pub panes: Vec<Pane>,
    pub cursor: Option<(u16, u16)>,
}

/// The value of a [`Screen`].
#[verifier::ext_equal]
pub struct ScreenModel {
    pub panes: Seq<PaneModel>,
    pub cursor: Option<(u16, u16)>,
}

impl DeepView for Screen {
    type V = ScreenModel;

    open spec fn deep_view(&self) -> ScreenModel {
        ScreenModel { panes: self.panes.deep_view(), cursor: self.cursor }
    }
}

impl PaneModel {
    /// Lines without a border, cut at the edge.
    pub open spec fn bare(area: Rect, lines: Seq<LineModel>) -> PaneModel {
        PaneModel {
            area,
            wipes: false,
            border: None,
            lines,
            style: Style::spec_plain(),
            centered: false,
            folding: Folding::Cut,
            scroll: 0,
        }
    }

    /// Lines in a border, cut at the edge.
    pub open spec fn framed(area: Rect, title: Seq<char>, style: Style, lines: Seq<LineModel>) -> PaneModel {
        PaneModel {
            border: Some(BorderModel { title, style }),
            ..PaneModel::bare(area, lines)
        }
    }

    /// Lines in a border over what is below.
    pub open spec fn popup(area: Rect, title: Seq<char>, theme: Theme, lines: Seq<LineModel>) -> PaneModel {
        PaneModel { wipes: true, ..PaneModel::framed(area, title, theme.border_focus, lines) }
    }

    /// A message in the middle.
    pub open spec fn message(area: Rect, text: Seq<char>, style: Style) -> PaneModel {
        PaneModel {
            style,
            centered: true,
            folding: Folding::WrapTrimmed,
            ..PaneModel::bare(area, plain_lines(text))
        }
    }
}

impl Pane {
    /// Lines without a border, cut at the edge.
    pub fn bare(area: Rect, lines: Vec<Line>) -> (r: Pane)
        ensures
            r.deep_view() == PaneModel::bare(area, lines.deep_view()),
    {
        Pane {
            area,
            wipes: false,
            border: None,
            lines,
            style: Style::plain(),
            centered: false,
            folding: Folding::Cut,
            scroll: 0,
        }
    }

    /// One line without a border.
    pub fn one_line(area: Rect, line: Line) -> (r: Pane)
        ensures
            r.deep_view() == PaneModel::bare(area, seq![line.deep_view()]),
    {
        let ghost m = line.deep_view();
        let mut lines: Vec<Line> = Vec::new();
        add_line(&mut lines, line);
        assert(lines.deep_view() =~= seq![m]);
        Pane::bare(area, lines)
    }

    /// Lines in a border, cut at the edge.
    pub fn framed(area: Rect, title: String, style: Style, lines: Vec<Line>) -> (r: Pane)
        ensures
            r.deep_view() == PaneModel::framed(area, title@, style, lines.deep_view()),
    {
        let mut r = Pane::bare(area, lines);
        r.border = Some(Border { title, style });
        r
    }

    /// Lines in a border over what is below.
    pub fn popup(area: Rect, title: String, theme: &Theme, lines: Vec<Line>) -> (r: Pane)
        ensures
            r.deep_view() == PaneModel::popup(area, title@, *theme, lines.deep_view()),
    {
        let mut r = Pane::framed(area, title, theme.border_focus, lines);
        r.wipes = true;
        r
    }

    /// A message in the middle.
    pub fn message(area: Rect, text: &str, style: Style) -> (r: Pane)
        ensures
            r.deep_view() == PaneModel::message(area, text@, style),
    {
        let mut r = Pane::bare(area, text_lines(text));
        r.style = style;
        r.centered = true;
        r.folding = Folding::WrapTrimmed;
        r
    }
}

/// Appends one pane.
fn add_pane(out: &mut Vec<Pane>, pane: Pane)
    ensures
        final(out).deep_view() == old(out).deep_view().push(pane.deep_view()),
{
    let ghost before = out.deep_view();
    let ghost m = pane.deep_view();
    out.push(pane);
    assert(out.deep_view() =~= before.push(m));
}

// ---------------------------------------------------------------------------
// Layout
// ---------------------------------------------------------------------------

/// The smaller of two sizes.
pub open spec fn min16(a: u16, b: u16) -> u16 {
    if a < b {
        a
    } else {
        b
    }
}

/// `w` by `h` in the middle of `area`, within it.
pub open spec fn middle(area: Rect, w: u16, h: u16) -> Rect {
    let width = min16(w, area.width);
    let height = min16(h, area.height);
    Rect {
        x: clip16(area.x + (area.width - width) / 2),
        y: clip16(area.y + (area.height - height) / 2),
        width,
        height,
    }
}

/// `w` by `h` in the middle of `area`, within it.
pub fn centered(area: Rect, w: u16, h: u16) -> (r: Rect)
    ensures
        r == middle(area, w, h),
{
    let width: u16 = if w < area.width {
        w
    } else {
        area.width
    };
    let height: u16 = if h < area.height {
        h
    } else {
        area.height
    };
    Rect {
        x: area.x.saturating_add((area.width - width) / 2),
        y: area.y.saturating_add((area.height - height) / 2),
        width,
        height,
    }
}

/// What is centered lies within the area, as near to the middle as cells allow.
pub proof fn law_centering_stays_within(area: Rect, w: u16, h: u16)
    requires
        area.x + area.width <= u16::MAX,
        area.y + area.height <= u16::MAX,
    ensures
        ({
            let r = middle(area, w, h);
            let left = r.x - area.x;
            let right = area.x + area.width - (r.x + r.width);
            let above = r.y - area.y;
            let below = area.y + area.height - (r.y + r.height);
            &&& 0 <= left <= right <= left + 1
            &&& 0 <= above <= below <= above + 1
        }),
{
}

/// The columns within a border.
pub open spec fn within(size: u16) -> u16 {
    if size < 2 {
        0
    } else {
        (size - 2) as u16
    }
}

/// The fixed heights among `heights`, added up.
pub open spec fn fixed_height(heights: Seq<Option<u16>>) -> nat
    decreases heights.len(),
{
    if heights.len() == 0 {
        0
    } else {
        fixed_height(heights.drop_last()) + match heights.last() {
            Some(h) => h as nat,
            None => 0,
        }
    }
}

/// Whether exactly one row has no fixed height.
pub open spec fn one_is_open(heights: Seq<Option<u16>>) -> bool {
    exists|m: int|
        0 <= m < heights.len() && (#[trigger] heights[m]) is None && forall|j: int|
            0 <= j < heights.len() && j != m ==> (#[trigger] heights[j]) is Some
}

/// Whether the fixed heights leave at least `least` lines of the area to the one
/// row that has none.
pub open spec fn fits(area: Rect, heights: Seq<Option<u16>>, least: u16) -> bool {
    &&& one_is_open(heights)
    &&& fixed_height(heights) + least <= area.height
    &&& area.y + area.height <= u16::MAX
}

/// The line behind an area, as far as 16 bits go.
pub open spec fn bottom(area: Rect) -> int {
    if area.y + area.height <= u16::MAX {
        area.y + area.height
    } else {
        u16::MAX as int
    }
}

/// Whether `rows` cut the area up: each is as wide as the area, and they follow one
/// another from its top to its bottom.
pub open spec fn stacked(area: Rect, rows: Seq<Rect>) -> bool {
    &&& forall|i: int|
        0 <= i < rows.len() ==> {
            let r = #[trigger] rows[i];
            &&& r.x == area.x && r.width == area.width
            &&& area.y <= r.y && r.y + r.height <= bottom(area)
        }
    &&& rows[0].y == area.y
    &&& rows.last().y + rows.last().height == bottom(area)
    &&& forall|i: int|
        0 <= i && i + 1 < rows.len() ==> rows[i + 1].y == (#[trigger] rows[i]).y + rows[i].height
}

/// Whether `rows` have the heights fixed for them, and the one without takes what is
/// left. Where they do not fit, a row with a fixed height has no more than that, and
/// the one without keeps `least` lines, or all there are.
pub open spec fn sized(area: Rect, heights: Seq<Option<u16>>, least: u16, rows: Seq<Rect>) -> bool {
    forall|i: int|
        0 <= i < rows.len() ==> {
            let h = (#[trigger] rows[i]).height;
            match heights[i] {
                Some(n) => if fits(area, heights, least) {
                    h == n
                } else {
                    h <= n
                },
                None => if fits(area, heights, least) {
                    h == area.height - fixed_height(heights)
                } else {
                    h >= least || h == bottom(area) - area.y
                },
            }
        }
}

/// `ratatui::layout::Layout::vertical(..).split` for up to [`ROWS`] rows, one of which
/// has no fixed height but is to have at least `least` lines. The rows cut up the
/// area: the solver weighs a gap or an overlap more than any height. Next it weighs
/// the least height of the open row, then the fixed heights, and last that the open
/// row takes what is left. Where the fixed heights do not fit, which rows give way is
/// not said: the solver may choose differently in another run.
#[verifier::external_body]
fn split_rows(area: Rect, heights: &[Option<u16>], least: u16) -> (r: Vec<Rect>)
    requires
        heights@.len() <= ROWS,
        one_is_open(heights@),
        least <= i16::MAX,
    ensures
        r@.len() == heights@.len(),
        stacked(area, r@),
        sized(area, heights@, least, r@),
{
    let row = |h: &Option<u16>| match h {
        Some(n) => Constraint::Length(*n),
        None => Constraint::Min(least),
    };
    let whole = ratatui::layout::Rect { x: area.x, y: area.y, width: area.width, height: area.height };
    let own = |a: &ratatui::layout::Rect| Rect { x: a.x, y: a.y, width: a.width, height: a.height };
    Layout::vertical(heights.iter().map(row)).split(whole).iter().map(own).collect()
}

/// The fewest lines that the transcript gets.
pub const MIN_TRANSCRIPT: u16 = 1;

/// How many rows the screen is cut into.
pub const ROWS: usize = 7;

impl AppModel {
    /// The heights of the screen's rows: header, transcript, todos, attachments,
    /// activity, input, hints.
    pub open spec fn row_heights(self, area: Rect) -> Seq<Option<u16>> {
        seq![
            Some(1u16),
            None,
            Some(todo_height(self.todos, self.todos_collapsed, area.height)),
            Some(
                if self.attachments.len() > 0 {
                    1u16
                } else {
                    0u16
                },
            ),
            Some(
                if waits(self.status) {
                    1u16
                } else {
                    0u16
                },
            ),
            Some(box_height(visual_rows(self.input.at.lines, inner_width(area.width)).len())),
            Some(2u16),
        ]
    }
}

impl App {
    /// The heights of the screen's rows: header, transcript, todos, attachments,
    /// activity, input, hints.
    #[must_use]
    pub fn row_heights(&self, area: Rect) -> (r: Vec<Option<u16>>)
        ensures
            r@ == self.deep_view().row_heights(area),
    {
        let todos: u16 = self.todos_row_height(area.height);
        reveal(<App as DeepView>::deep_view);
        let chip: u16 = if self.attachments.len() > 0 {
            1
        } else {
            0
        };
        let busy: u16 = if self.is_busy() {
            1
        } else {
            0
        };
        let input: u16 = input_height(&self.input, input_inner_width(area.width));
        let mut out: Vec<Option<u16>> = Vec::new();
        out.push(Some(1));
        out.push(None);
        out.push(Some(todos));
        out.push(Some(chip));
        out.push(Some(busy));
        out.push(Some(input));
        out.push(Some(2));
        assert(out@ =~= self.deep_view().row_heights(area));
        out
    }
}

// ---------------------------------------------------------------------------
// The panes of the screen
// ---------------------------------------------------------------------------

/// What stands in an empty transcript.
pub const PLACEHOLDER: &'static str = "type a message · ctrl+k for commands";

/// What stands on a screen that is too small.
pub const TOO_SMALL: &'static str = "terminal too small — need at least 60×10";

/// Whether a screen is too small to be laid out.
pub open spec fn too_small(area: Rect) -> bool {
    area.width < MIN_COLS || area.height < MIN_ROWS
}

/// The pane of the splash.
pub open spec fn splash_pane(area: Rect, variant: SplashVariant, theme: Theme) -> PaneModel {
    let lines = splash_lines(ART@, variant, theme);
    let banner = widest(banner_of(ART@));
    let portrait = widest(portrait_of(ART@));
    let w = if variant == SplashVariant::Full && portrait > banner {
        portrait
    } else {
        banner
    };
    PaneModel {
        wipes: true,
        ..PaneModel::bare(middle(area, clip16(w as int), clip16(lines.len() as int)), lines)
    }
}

/// A count within 16 bits.
fn small(n: usize) -> (r: u16)
    ensures
        r == clip16(n as int),
{
    if n > u16::MAX as usize {
        u16::MAX
    } else {
        n as u16
    }
}

/// The pane of the splash.
fn draw_splash(area: Rect, variant: SplashVariant, theme: &Theme) -> (r: Pane)
    requires
        variant != SplashVariant::Hidden,
    ensures
        r.deep_view() == splash_pane(area, variant, *theme),
{
    let (banner, portrait) = sections(ART);
    let bs = banner.as_slice();
    let ps = portrait.as_slice();
    proof {
        assert(bs.deep_view() =~= banner.deep_view());
        assert(ps.deep_view() =~= portrait.deep_view());
    }
    let a: usize = crate::splash::max_width(bs);
    let b: usize = crate::splash::max_width(ps);
    let w: usize = if variant == SplashVariant::Full && b > a {
        b
    } else {
        a
    };
    let lines = rows(ART, variant, theme);
    assert(lines@.len() == lines.deep_view().len());
    let place = centered(area, small(w), small(lines.len()));
    let mut pane = Pane::bare(place, lines);
    pane.wipes = true;
    pane
}

impl AppModel {
    /// The collapsed or open todo panel.
    pub open spec fn todo_pane(self, area: Rect) -> PaneModel {
        let theme = self.themes[0];
        let count = decimal(completed(self.todos)) + "/"@ + decimal(self.todos.len());
        if self.todos_collapsed {
            PaneModel::bare(area, seq![LineModel::raw("▸ Todos "@ + count)])
        } else {
            PaneModel::framed(
                area,
                " Todos "@ + count + " "@,
                theme.border,
                todo_lines(self.todos, within(area.height), within(area.width), theme),
            )
        }
    }

    /// The attachment chip.
    pub open spec fn chip_pane(self, area: Rect) -> PaneModel {
        PaneModel {
            style: self.themes[0].text_muted,
            ..PaneModel::bare(area, plain_lines(chip(self.attachments)))
        }
    }

    /// The hints.
    pub open spec fn hint_pane(self, area: Rect, more: bool, usage: Option<Seq<char>>, pct: Option<u8>) -> PaneModel {
        PaneModel {
            folding: Folding::WrapTrimmed,
            ..PaneModel::bare(area, seq![self.hints(more, usage, pct)])
        }
    }

    /// The search bar, in the input's place.
    pub open spec fn search_pane(self, inks: Inks, area: Rect) -> PaneModel {
        let theme = self.themes[0];
        let s = self.overlay->Search_0;
        let found = matching(all_lines(inks, self.transcript, theme), s.query).len();
        PaneModel::framed(
            area,
            Seq::empty(),
            theme.border_focus,
            seq![search_bar(s.query, s.current, found, theme)],
        )
    }

    /// The input box.
    pub open spec fn input_pane(self, area: Rect) -> PaneModel {
        let theme = self.themes[0];
        PaneModel::framed(
            area,
            Seq::empty(),
            if self.overlay is Closed {
                theme.border_focus
            } else {
                theme.border
            },
            input_rows(self.input, inner_width(area.width), within(area.height), theme),
        )
    }

    /// Where the cursor stands: in the input, unless something is open over it.
    pub open spec fn cursor(self, area: Rect) -> Option<(u16, u16)> {
        if self.overlay is Closed {
            Some(cursor_at(self.input, area.x, area.y, area.width, area.height))
        } else {
            None
        }
    }

    /// The transcript, given its assembled lines; and whether there is more below.
    pub open spec fn transcript_pane(self, cache: LineCacheModel, area: Rect) -> (PaneModel, bool) {
        if self.transcript.len() == 0 {
            (PaneModel::message(area, PLACEHOLDER@, self.themes[0].text_muted), false)
        } else {
            let plan = cache.plan(
                self.overlay,
                self.tool_cursor,
                self.scroll,
                self.themes[0],
                area.height,
            );
            let first = line_at(cache.line_wrap_starts, plan.offset) as int;
            (
                PaneModel {
                    folding: Folding::Wrap,
                    scroll: row_within(cache.line_wrap_starts, plan.offset),
                    ..PaneModel::bare(
                        area,
                        if first <= plan.lines.len() {
                            plan.lines.skip(first)
                        } else {
                            Seq::empty()
                        },
                    )
                },
                plan.more,
            )
        }
    }

    /// How far a rendering of the transcript can scroll.
    pub open spec fn scroll_room(self, cache: LineCacheModel, height: u16) -> u32 {
        if self.transcript.len() == 0 {
            0
        } else {
            last_offset(cache.wrap_total, height)
        }
    }
}

impl App {
    /// The collapsed or open todo panel.
    fn todo_pane(&self, area: Rect, theme: &Theme) -> (r: Pane)
        requires
            *theme == self.deep_view().themes[0],
        ensures
            r.deep_view() == self.deep_view().todo_pane(area),
    {
        let (done, total) = self.todos_done_total();
        reveal(<App as DeepView>::deep_view);
        let mut count = number(done as u64);
        count.append("/");
        count.append(number(total as u64).as_str());
        if self.todos_collapsed {
            return Pane::one_line(area, Line::raw(cat("▸ Todos ", count.as_str()).as_str()));
        }
        let mut title = cat(" Todos ", count.as_str());
        title.append(" ");
        let ts = self.todos.as_slice();
        assert(ts.deep_view() =~= self.todos.deep_view());
        let lines = todos_lines(ts, area.height.saturating_sub(2), area.width.saturating_sub(2), theme);
        Pane::framed(area, title, theme.border, lines)
    }

    /// The attachment chip.
    fn chip_pane(&self, area: Rect, theme: &Theme) -> (r: Pane)
        requires
            *theme == self.deep_view().themes[0],
        ensures
            r.deep_view() == self.deep_view().chip_pane(area),
    {
        reveal(<App as DeepView>::deep_view);
        let s = self.attachments.as_slice();
        assert(s.deep_view() =~= self.attachments.deep_view());
        let mut pane = Pane::bare(area, text_lines(attachment_chip(s).as_str()));
        pane.style = theme.text_muted;
        pane
    }

    /// The hints.
    fn hint_pane(&self, area: Rect, more: bool, usage: &Option<String>, pct: Option<u8>) -> (r: Pane)
        ensures
            r.deep_view() == self.deep_view().hint_pane(area, more, usage.deep_view(), pct),
    {
        let mut pane = Pane::one_line(area, self.hints_line(more, usage, pct));
        pane.folding = Folding::WrapTrimmed;
        pane
    }

    /// The search bar, in the input's place.
    fn search_pane(&self, h: &mut Highlighter, area: Rect, theme: &Theme) -> (r: Option<Pane>)
        requires
            old(h).wf(),
            *theme == self.deep_view().themes[0],
        ensures
            final(h).wf(),
            final(h).inks() == old(h).inks(),
            r is Some == self.deep_view().overlay is Search,
            r matches Some(p) ==> p.deep_view() == self.deep_view().search_pane(
                old(h).inks(),
                area,
            ),
    {
        reveal(<App as DeepView>::deep_view);
        if let Overlay::Search(s) = &self.overlay {
            let items = self.transcript.as_slice();
            assert(items.deep_view() =~= self.transcript.deep_view());
            let lines = transcript_lines(h, items, theme);
            let ls = lines.as_slice();
            assert(ls.deep_view() =~= lines.deep_view());
            let found: usize = search_matches(ls, s.query.as_str()).len();
            let line = search_bar_line(s.query.as_str(), s.current, found, theme);
            let ghost m = line.deep_view();
            let mut out: Vec<Line> = Vec::new();
            add_line(&mut out, line);
            let title = String::new();
            proof {
                assert(out.deep_view() =~= seq![m]);
                assert(title@ =~= Seq::<char>::empty());
            }
            Some(Pane::framed(area, title, theme.border_focus, out))
        } else {
            None
        }
    }

    /// The input box.
    fn input_pane(&self, area: Rect, theme: &Theme) -> (r: Pane)
        requires
            self.input.wf(),
            *theme == self.deep_view().themes[0],
        ensures
            r.deep_view() == self.deep_view().input_pane(area),
    {
        reveal(<App as DeepView>::deep_view);
        let style = if matches!(self.overlay, Overlay::Closed) {
            theme.border_focus
        } else {
            theme.border
        };
        let lines = input_lines(
            &self.input,
            input_inner_width(area.width),
            area.height.saturating_sub(2),
            theme,
        );
        let title = String::new();
        assert(title@ =~= Seq::<char>::empty());
        Pane::framed(area, title, style, lines)
    }

    /// Where the cursor stands: in the input, unless something is open over it.
    fn cursor_in(&self, area: Rect) -> (r: Option<(u16, u16)>)
        requires
            self.input.wf(),
        ensures
            r == self.deep_view().cursor(area),
    {
        reveal(<App as DeepView>::deep_view);
        if matches!(self.overlay, Overlay::Closed) {
            Some(cursor_position(&self.input, area.x, area.y, area.width, area.height))
        } else {
            None
        }
    }
}

// ---------------------------------------------------------------------------
// The box over the screen
// ---------------------------------------------------------------------------

/// What a session goes by: its title, else its id.
pub open spec fn session_name(s: SessionInfoModel) -> Seq<char> {
    match s.title {
        Some(t) => t,
        None => s.id,
    }
}

/// A box of text.
pub open spec fn text_popup(area: Rect, title: Seq<char>, text: Seq<char>, theme: Theme) -> PaneModel {
    PaneModel {
        folding: Folding::WrapTrimmed,
        ..PaneModel::popup(middle(area, 50, 6), title, theme, plain_lines(text))
    }
}

/// A box with a list.
pub open spec fn list_popup(
    area: Rect,
    title: Seq<char>,
    items: Seq<Seq<char>>,
    selected: usize,
    theme: Theme,
) -> PaneModel {
    let n = if items.len() == 0 {
        1
    } else {
        items.len()
    };
    PaneModel::popup(
        middle(area, 50, boxed(n, 2, area.height)),
        title,
        theme,
        list_rows(items, selected, theme),
    )
}

impl AppModel {
    /// The box that is open over the screen, if one is.
    pub open spec fn popup(self, area: Rect) -> Option<PaneModel> {
        let theme = self.themes[0];
        match self.overlay {
            OverlayModel::Help => Some(text_popup(area, " Help "@, HELP_FULL@, theme)),
            OverlayModel::Permission(p) => Some(
                text_popup(
                    area,
                    " Permission "@,
                    permission_question(p.permission, p.patterns),
                    theme,
                ),
            ),
            OverlayModel::Sessions => Some(
                list_popup(
                    area,
                    " Sessions "@,
                    self.sessions.map_values(|s: SessionInfoModel| session_name(s)),
                    self.selected,
                    theme,
                ),
            ),
            OverlayModel::Models => Some(
                list_popup(
                    area,
                    " Model "@,
                    self.models.map_values(|m: ModelChoiceModel| m.id()),
                    self.selected,
                    theme,
                ),
            ),
            OverlayModel::Agents => Some(
                list_popup(
                    area,
                    " Agent "@,
                    self.agents.map_values(|a: AgentInfoModel| a.name),
                    self.selected,
                    theme,
                ),
            ),
            OverlayModel::Palette(p) => Some(
                PaneModel::popup(
                    middle(area, 50, boxed(palette_len(p.query), 3, area.height)),
                    " Commands "@,
                    theme,
                    palette_rows(p, within(min16(50, area.width)), theme),
                ),
            ),
            OverlayModel::TextInput(t) => Some(
                PaneModel::popup(
                    middle(area, 60, min16(4, area.height)),
                    " "@ + t.title + " "@,
                    theme,
                    text_input_rows(t, theme),
                ),
            ),
            OverlayModel::Files(f) => Some(
                PaneModel::popup(
                    middle(area, 60, boxed(files_len(f.results, f.query), 4, area.height)),
                    " Attach File "@,
                    theme,
                    file_rows(f, self.attachments, theme),
                ),
            ),
            OverlayModel::WorkflowStatus => match self.workflow {
                Some(w) => Some(
                    PaneModel::popup(
                        middle(area, 60, boxed(w.tasks.len(), 4, area.height)),
                        " Workflow status "@,
                        theme,
                        workflow_rows(w, within(min16(60, area.width)), theme),
                    ),
                ),
                None => None,
            },
            _ => None,
        }
    }
}

/// A box of text.
fn text_box(area: Rect, title: &str, text: &str, theme: &Theme) -> (r: Pane)
    ensures
        r.deep_view() == text_popup(area, title@, text@, *theme),
{
    let mut pane = Pane::popup(centered(area, 50, 6), title.to_owned(), theme, text_lines(text));
    pane.folding = Folding::WrapTrimmed;
    pane
}

/// A box with a list.
fn list_box(area: Rect, title: &str, items: &Vec<String>, selected: usize, theme: &Theme) -> (r: Pane)
    ensures
        r.deep_view() == list_popup(area, title@, items.deep_view(), selected, *theme),
{
    let s = items.as_slice();
    assert(s.deep_view() =~= items.deep_view());
    let n: usize = if items.len() == 0 {
        1
    } else {
        items.len()
    };
    let place = centered(area, 50, box_rows(n, 2, area.height));
    Pane::popup(place, title.to_owned(), theme, list_lines(s, selected, theme))
}

/// What the sessions go by.
fn session_names(all: &Vec<SessionInfo>) -> (r: Vec<String>)
    ensures
        r.deep_view() == all.deep_view().map_values(|s: SessionInfoModel| session_name(s)),
{
    let ghost m = all.deep_view();
    let ghost f = |s: SessionInfoModel| session_name(s);
    let mut out: Vec<String> = Vec::new();
    let mut i: usize = 0;
    assert(out.deep_view() =~= m.take(0).map_values(f));
    while i < all.len()
        invariant
            i <= all@.len(),
            m == all.deep_view(),
            f == (|s: SessionInfoModel| session_name(s)),
            out.deep_view() == m.take(i as int).map_values(f),
        decreases all@.len() - i,
    {
        let name: String = match &all[i].title {
            Some(t) => t.clone(),
            None => all[i].id.clone(),
        };
        let ghost before = out.deep_view();
        let ghost n = name@;
        out.push(name);
        proof {
            assert(m[i as int] == all@[i as int].deep_view());
            assert(out.deep_view() =~= before.push(n));
            assert(m.take(i + 1).map_values(f) =~= before.push(n));
        }
        i += 1;
    }
    assert(m.take(i as int) =~= m);
    out
}

/// The ids of the models.
fn model_names(all: &Vec<ModelChoice>) -> (r: Vec<String>)
    ensures
        r.deep_view() == all.deep_view().map_values(|m: ModelChoiceModel| m.id()),
{
    let ghost m = all.deep_view();
    let ghost f = |m: ModelChoiceModel| m.id();
    let mut out: Vec<String> = Vec::new();
    let mut i: usize = 0;
    assert(out.deep_view() =~= m.take(0).map_values(f));
    while i < all.len()
        invariant
            i <= all@.len(),
            m == all.deep_view(),
            f == (|m: ModelChoiceModel| m.id()),
            out.deep_view() == m.take(i as int).map_values(f),
        decreases all@.len() - i,
    {
        let name = all[i].id();
        let ghost before = out.deep_view();
        let ghost n = name@;
        out.push(name);
        proof {
            assert(m[i as int] == all@[i as int].deep_view());
            assert(out.deep_view() =~= before.push(n));
            assert(m.take(i + 1).map_values(f) =~= before.push(n));
        }
        i += 1;
    }
    assert(m.take(i as int) =~= m);
    out
}

/// The names of the agents.
fn agent_names(all: &Vec<AgentInfo>) -> (r: Vec<String>)
    ensures
        r.deep_view() == all.deep_view().map_values(|a: AgentInfoModel| a.name),
{
    let ghost m = all.deep_view();
    let ghost f = |a: AgentInfoModel| a.name;
    let mut out: Vec<String> = Vec::new();
    let mut i: usize = 0;
    assert(out.deep_view() =~= m.take(0).map_values(f));
    while i < all.len()
        invariant
            i <= all@.len(),
            m == all.deep_view(),
            f == (|a: AgentInfoModel| a.name),
            out.deep_view() == m.take(i as int).map_values(f),
        decreases all@.len() - i,
    {
        let name = all[i].name.clone();
        let ghost before = out.deep_view();
        let ghost n = name@;
        out.push(name);
        proof {
            assert(m[i as int] == all@[i as int].deep_view());
            assert(out.deep_view() =~= before.push(n));
            assert(m.take(i + 1).map_values(f) =~= before.push(n));
        }
        i += 1;
    }
    assert(m.take(i as int) =~= m);
    out
}

impl App {
    /// The box that is open over the screen, if one is.
    #[must_use]
    pub fn popup(&self, area: Rect) -> (r: Option<Pane>)
        ensures
            r.deep_view() == self.deep_view().popup(area),
    {
        reveal(<App as DeepView>::deep_view);
        let theme = self.themes.active();
        let t = &theme;
        match &self.overlay {
            Overlay::Help => Some(text_box(area, " Help ", HELP_FULL, t)),
            Overlay::Permission(p) => {
                let ps = p.patterns.as_slice();
                assert(ps.deep_view() =~= p.patterns.deep_view());
                let text = permission_text(p.permission.as_str(), ps);
                Some(text_box(area, " Permission ", text.as_str(), t))
            },
            Overlay::Sessions => {
                let names = session_names(&self.sessions);
                Some(list_box(area, " Sessions ", &names, self.selected, t))
            },
            Overlay::Models => {
                let names = model_names(&self.models);
                Some(list_box(area, " Model ", &names, self.selected, t))
            },
            Overlay::Agents => {
                let names = agent_names(&self.agents);
                Some(list_box(area, " Agent ", &names, self.selected, t))
            },
            Overlay::Palette(p) => {
                let n: usize = palette_count(p.query.as_str());
                let place = centered(area, 50, box_rows(n, 3, area.height));
                let lines = palette_lines(p, place.width.saturating_sub(2), t);
                Some(Pane::popup(place, " Commands ".to_owned(), t, lines))
            },
            Overlay::TextInput(s) => {
                let h: u16 = if 4 < area.height {
                    4
                } else {
                    area.height
                };
                let mut title = cat(" ", s.title.as_str());
                title.append(" ");
                Some(Pane::popup(centered(area, 60, h), title, t, text_input_lines(s, t)))
            },
            Overlay::Files(s) => {
                let rs = s.results.as_slice();
                let chosen = self.attachments.as_slice();
                proof {
                    assert(rs.deep_view() =~= s.results.deep_view());
                    assert(chosen.deep_view() =~= self.attachments.deep_view());
                }
                let n: usize = files_count(rs, s.query.as_str());
                let place = centered(area, 60, box_rows(n, 4, area.height));
                Some(Pane::popup(place, " Attach File ".to_owned(), t, files_lines(s, chosen, t)))
            },
            Overlay::WorkflowStatus => match &self.workflow {
                Some(w) => {
                    let place = centered(area, 60, box_rows(w.task_count(), 4, area.height));
                    let lines = workflow_lines(w, place.width.saturating_sub(2), t);
                    Some(Pane::popup(place, " Workflow status ".to_owned(), t, lines))
                },
                None => None,
            },
            _ => None,
        }
    }
}

// ---------------------------------------------------------------------------
// The screen
// ---------------------------------------------------------------------------

impl AppModel {
    /// The screen, given the areas of its rows and the transcript's lines.
    pub open spec fn laid_out(
        self,
        inks: Inks,
        cache: LineCacheModel,
        area: Rect,
        rows: Seq<Rect>,
        usage: Option<Seq<char>>,
        pct: Option<u8>,
    ) -> ScreenModel {
        let shown = self.transcript_pane(cache, rows[1]);
        let top = seq![PaneModel::bare(rows[0], seq![self.header(rows[0].width)]), shown.0];
        let todos = if todo_height(self.todos, self.todos_collapsed, area.height) > 0 {
            top.push(self.todo_pane(rows[2]))
        } else {
            top
        };
        let chips = if self.attachments.len() > 0 {
            todos.push(self.chip_pane(rows[3]))
        } else {
            todos
        };
        let acts = if waits(self.status) {
            chips.push(PaneModel::bare(rows[4], seq![self.activity(rows[4].width)]))
        } else {
            chips
        };
        let boxes = acts.push(
            if self.overlay is Search {
                self.search_pane(inks, rows[5])
            } else {
                self.input_pane(rows[5])
            },
        ).push(self.hint_pane(rows[6], shown.1, usage, pct));
        ScreenModel {
            panes: match self.popup(area) {
                Some(p) => boxes.push(p),
                None => boxes,
            },
            cursor: self.cursor(rows[5]),
        }
    }

    /// The splash, while it is up and fits.
    pub open spec fn splash_shown(self, area: Rect) -> Option<SplashVariant> {
        if self.splash is Some && fitting(ART@, area.width, area.height) != SplashVariant::Hidden {
            Some(fitting(ART@, area.width, area.height))
        } else {
            None
        }
    }

    /// Whether the screen is laid out in rows: not where it is too small, nor under
    /// the splash.
    pub open spec fn is_laid_out(self, area: Rect) -> bool {
        !too_small(area) && self.splash_shown(area) is None
    }

    /// The transcript's lines that a frame is drawn from.
    pub open spec fn frame_lines(
        self,
        kept: Option<LineCacheModel>,
        inks: Inks,
        width: u16,
    ) -> LineCacheModel {
        refreshed(kept, inks, self.transcript, self.themes[0], self.render_gen, width)
    }

    /// The screen.
    pub open spec fn screen(
        self,
        kept: Option<LineCacheModel>,
        inks: Inks,
        area: Rect,
        rows: Seq<Rect>,
        usage: Option<Seq<char>>,
        pct: Option<u8>,
    ) -> ScreenModel {
        if too_small(area) {
            ScreenModel {
                panes: seq![PaneModel::message(area, TOO_SMALL@, self.themes[0].text_muted)],
                cursor: None,
            }
        } else {
            match self.splash_shown(area) {
                Some(v) => ScreenModel {
                    panes: seq![splash_pane(area, v, self.themes[0])],
                    cursor: None,
                },
                None => self.laid_out(
                    inks,
                    self.frame_lines(kept, inks, rows[1].width),
                    area,
                    rows,
                    usage,
                    pct,
                ),
            }
        }
    }

    /// The lines that are kept after a frame.
    pub open spec fn kept_after_frame(
        self,
        kept: Option<LineCacheModel>,
        inks: Inks,
        area: Rect,
        rows: Seq<Rect>,
    ) -> Option<LineCacheModel> {
        if self.is_laid_out(area) && self.transcript.len() > 0 {
            Some(self.frame_lines(kept, inks, rows[1].width))
        } else {
            kept
        }
    }

    /// The state after a frame: it knows how far the transcript can scroll.
    pub open spec fn after_frame(
        self,
        kept: Option<LineCacheModel>,
        inks: Inks,
        area: Rect,
        rows: Seq<Rect>,
    ) -> AppModel {
        if self.is_laid_out(area) {
            AppModel {
                last_scroll_max: self.scroll_room(
                    self.frame_lines(kept, inks, rows[1].width),
                    rows[1].height,
                ),
                ..self
            }
        } else {
            self
        }
    }
}

/// The lines from the `k`th on.
fn lines_from(lines: &Vec<Line>, k: usize) -> (r: Vec<Line>)
    ensures
        r.deep_view() == if k <= lines.deep_view().len() {
            lines.deep_view().skip(k as int)
        } else {
            Seq::empty()
        },
{
    if k > lines.len() {
        let r: Vec<Line> = Vec::new();
        assert(r.deep_view() =~= Seq::<LineModel>::empty());
        return r;
    }
    let rest = vstd::slice::slice_subrange(lines.as_slice(), k, lines.len());
    assert(rest.deep_view() =~= lines.deep_view().skip(k as int));
    copy_lines(rest)
}

/// A frame's transcript: the pane, whether there is more below, and how far it can
/// scroll.
struct Shown {
    pane: Pane,
    more: bool,
    room: u32,
}

impl App {
    /// The transcript.
    fn transcript_pane(&self, renderer: &mut Renderer, area: Rect, theme: &Theme) -> (r: Shown)
        requires
            old(renderer).wf(),
            *theme == self.deep_view().themes[0],
        ensures
            final(renderer).wf(),
            final(renderer).highlighter.inks() == old(renderer).highlighter.inks(),
            ({
                let m = self.deep_view();
                let lines = m.frame_lines(
                    old(renderer).cache.deep_view(),
                    old(renderer).highlighter.inks(),
                    area.width,
                );
                &&& r.pane.deep_view() == m.transcript_pane(lines, area).0
                &&& r.more == m.transcript_pane(lines, area).1
                &&& r.room == m.scroll_room(lines, area.height)
                &&& final(renderer).cache.deep_view() == if m.transcript.len() > 0 {
                    Some(lines)
                } else {
                    old(renderer).cache.deep_view()
                }
            }),
    {
        reveal(<App as DeepView>::deep_view);
        let items = self.transcript.as_slice();
        assert(items.deep_view() =~= self.transcript.deep_view());
        if items.len() == 0 {
            return Shown {
                pane: Pane::message(area, PLACEHOLDER, theme.text_muted),
                more: false,
                room: 0,
            };
        }
        renderer.refresh(items, theme, self.render_gen, area.width);
        let cache = renderer.cache.as_ref().unwrap();
        let plan = cache.plan(&self.overlay, self.tool_cursor, self.scroll, theme, area.height);
        let starts = cache.line_wrap_starts.as_slice();
        let (first, scroll) = window(starts, plan.offset);
        let mut pane = Pane::bare(area, lines_from(&plan.lines, first));
        pane.folding = Folding::Wrap;
        pane.scroll = scroll;
        Shown { pane, more: plan.more, room: scroll_max(cache.wrap_total, area.height) }
    }

    /// The rows of the screen.
    #[verifier::rlimit(30)]
    fn draw_rows(
        &self,
        renderer: &mut Renderer,
        area: Rect,
        rows: &[Rect],
        usage: &Option<String>,
        pct: Option<u8>,
    ) -> (r: (Screen, u32))
        requires
            self.input.wf(),
            old(renderer).wf(),
            rows@.len() == ROWS,
        ensures
            final(renderer).wf(),
            final(renderer).highlighter.inks() == old(renderer).highlighter.inks(),
            ({
                let m = self.deep_view();
                let inks = old(renderer).highlighter.inks();
                let lines = m.frame_lines(old(renderer).cache.deep_view(), inks, rows@[1].width);
                &&& r.0.deep_view() == m.laid_out(inks, lines, area, rows@, usage.deep_view(), pct)
                &&& r.1 == m.scroll_room(lines, rows@[1].height)
                &&& final(renderer).cache.deep_view() == if m.transcript.len() > 0 {
                    Some(lines)
                } else {
                    old(renderer).cache.deep_view()
                }
            }),
    {
        let theme = self.active_theme();
        let shown = self.transcript_pane(renderer, rows[1], &theme);
        let mut panes: Vec<Pane> = Vec::new();
        add_pane(&mut panes, Pane::one_line(rows[0], self.header_line(rows[0].width)));
        add_pane(&mut panes, shown.pane);
        assert(panes.deep_view() =~= seq![panes.deep_view()[0], panes.deep_view()[1]]);
        if self.todos_row_height(area.height) > 0 {
            add_pane(&mut panes, self.todo_pane(rows[2], &theme));
        }
        if self.has_attachments() {
            add_pane(&mut panes, self.chip_pane(rows[3], &theme));
        }
        if self.shows_activity() {
            add_pane(&mut panes, Pane::one_line(rows[4], self.activity_line(rows[4].width)));
        }
        match self.search_pane(&mut renderer.highlighter, rows[5], &theme) {
            Some(p) => add_pane(&mut panes, p),
            None => add_pane(&mut panes, self.input_pane(rows[5], &theme)),
        }
        add_pane(&mut panes, self.hint_pane(rows[6], shown.more, usage, pct));
        match self.popup(area) {
            Some(p) => add_pane(&mut panes, p),
            None => {},
        }
        (Screen { panes, cursor: self.cursor_in(rows[5]) }, shown.room)
    }

    /// The active theme.
    fn active_theme(&self) -> (r: Theme)
        ensures
            r == self.deep_view().themes[0],
    {
        reveal(<App as DeepView>::deep_view);
        self.themes.active()
    }

    fn has_attachments(&self) -> (r: bool)
        ensures
            r == (self.deep_view().attachments.len() > 0),
    {
        reveal(<App as DeepView>::deep_view);
        self.attachments.len() > 0
    }

    fn shows_activity(&self) -> (r: bool)
        ensures
            r == waits(self.deep_view().status),
    {
        reveal(<App as DeepView>::deep_view);
        self.is_busy()
    }

    /// The splash, while it is up and fits.
    fn splash_in(&self, area: Rect) -> (r: Option<SplashVariant>)
        ensures
            r == self.deep_view().splash_shown(area),
    {
        reveal(<App as DeepView>::deep_view);
        let v = splash_variant(area.width, area.height);
        if self.splash.is_some() && v != SplashVariant::Hidden {
            Some(v)
        } else {
            None
        }
    }

    fn set_scroll_max(&mut self, n: u32)
        ensures
            final(self).deep_view() == (AppModel { last_scroll_max: n, ..old(self).deep_view() }),
            final(self).input == old(self).input,
    {
        reveal(<App as DeepView>::deep_view);
        self.last_scroll_max = n;
    }
}

/// A screen of one pane.
fn only(pane: Pane) -> (r: Screen)
    ensures
        r.deep_view() == (ScreenModel { panes: seq![pane.deep_view()], cursor: None }),
{
    let ghost m = pane.deep_view();
    let mut panes: Vec<Pane> = Vec::new();
    add_pane(&mut panes, pane);
    assert(panes.deep_view() =~= seq![m]);
    Screen { panes, cursor: None }
}

/// The screen, given the areas of its rows. The usage text and the context share
/// are shown where they are known.
pub fn view_in(
    app: &mut App,
    renderer: &mut Renderer,
    area: Rect,
    rows: &[Rect],
    usage: &Option<String>,
    pct: Option<u8>,
) -> (r: Screen)
    requires
        old(app).input.wf(),
        old(renderer).wf(),
        rows@.len() == ROWS,
    ensures
        final(renderer).wf(),
        final(renderer).highlighter.inks() == old(renderer).highlighter.inks(),
        final(app).input == old(app).input,
        ({
            let m = old(app).deep_view();
            let kept = old(renderer).cache.deep_view();
            let inks = old(renderer).highlighter.inks();
            &&& r.deep_view() == m.screen(kept, inks, area, rows@, usage.deep_view(), pct)
            &&& final(app).deep_view() == m.after_frame(kept, inks, area, rows@)
            &&& final(renderer).cache.deep_view() == m.kept_after_frame(kept, inks, area, rows@)
        }),
{
    if area.width < MIN_COLS || area.height < MIN_ROWS {
        let theme = app.active_theme();
        return only(Pane::message(area, TOO_SMALL, theme.text_muted));
    }
    if let Some(v) = app.splash_in(area) {
        let theme = app.active_theme();
        return only(draw_splash(area, v, &theme));
    }
    let (screen, room) = app.draw_rows(renderer, area, rows, usage, pct);
    app.set_scroll_max(room);
    screen
}

/// Whether `rows` cut the screen up for rows of the given heights, with what is left
/// for the transcript.
pub open spec fn cuts(area: Rect, heights: Seq<Option<u16>>, rows: Seq<Rect>) -> bool {
    &&& rows.len() == ROWS
    &&& stacked(area, rows)
    &&& sized(area, heights, MIN_TRANSCRIPT, rows)
}

/// The transcript is the one row of the screen without a fixed height.
proof fn lemma_transcript_is_open(s: AppModel, area: Rect)
    ensures
        s.row_heights(area).len() == ROWS,
        one_is_open(s.row_heights(area)),
{
    assert(s.row_heights(area)[1] is None);
}

/// However little room there is, the transcript keeps a line of it.
pub proof fn law_the_transcript_keeps_a_line(s: AppModel, area: Rect, rows: Seq<Rect>)
    requires
        cuts(area, s.row_heights(area), rows),
        area.height > 0,
        area.y < u16::MAX,
    ensures
        rows[1].height >= 1,
{
    assert(s.row_heights(area)[1] is None);
}

/// The screen.
pub fn view(
    app: &mut App,
    renderer: &mut Renderer,
    area: Rect,
    usage: &Option<String>,
    pct: Option<u8>,
) -> (r: Screen)
    requires
        old(app).input.wf(),
        old(renderer).wf(),
    ensures
        final(renderer).wf(),
        final(renderer).highlighter.inks() == old(renderer).highlighter.inks(),
        final(app).input == old(app).input,
        exists|rows: Seq<Rect>| #[trigger]
            cuts(area, old(app).deep_view().row_heights(area), rows) && {
                &&& r.deep_view() == old(app).deep_view().screen(
                    old(renderer).cache.deep_view(),
                    old(renderer).highlighter.inks(),
                    area,
                    rows,
                    usage.deep_view(),
                    pct,
                )
                &&& final(app).deep_view() == old(app).deep_view().after_frame(
                    old(renderer).cache.deep_view(),
                    old(renderer).highlighter.inks(),
                    area,
                    rows,
                )
                &&& final(renderer).cache.deep_view() == old(app).deep_view().kept_after_frame(
                    old(renderer).cache.deep_view(),
                    old(renderer).highlighter.inks(),
                    area,
                    rows,
                )
            },
{
    let heights = app.row_heights(area);
    proof {
        lemma_transcript_is_open(app.deep_view(), area);
    }
    let rows = split_rows(area, heights.as_slice(), MIN_TRANSCRIPT);
    assert(cuts(area, heights@, rows@));
    view_in(app, renderer, area, rows.as_slice(), usage, pct)
}

} // verus!
