//! The header line and the activity line.

use crate::input::{cells, char_width, run_cells, str_cells, str_width};
use crate::narration::{activity, narration_word, scrambled, tool_action, word, WORD_COUNT};
use crate::render::{add_span, Line, LineModel, Span, SpanModel};
use crate::state::{running_call, waits, App, AppModel, FlashKind, FlashModel, TICKS_PER_SEC};
use crate::text::{begins_with, cat, decimal, number, push_char, to_chars, trim, trimmed};
use crate::theme::Theme;
use vstd::prelude::*;
use vstd::string::*;

verus! {

/// Ticks between two playful words: about five seconds.
pub const ROTATE_TICKS: u32 = 40;

/// The spinner's glyph in a frame.
pub open spec fn spinner(frame: usize) -> Seq<char> {
    if frame % 4 == 0 {
        "⠋"@
    } else if frame % 4 == 1 {
        "⠙"@
    } else if frame % 4 == 2 {
        "⠹"@
    } else {
        "⠸"@
    }
}

/// The spinner's glyph in a frame.
pub fn spin(frame: usize) -> (r: &'static str)
    ensures
        r@ == spinner(frame),
{
    let phase: usize = frame % 4;
    if phase == 0 {
        "⠋"
    } else if phase == 1 {
        "⠙"
    } else if phase == 2 {
        "⠹"
    } else {
        "⠸"
    }
}

/// A number with at least two digits.
pub open spec fn two_digits(n: nat) -> Seq<char> {
    if n < 10 {
        "0"@ + decimal(n)
    } else {
        decimal(n)
    }
}

/// Elapsed seconds: `45s` under a minute, `1m 05s` from there on.
pub open spec fn elapsed(secs: nat) -> Seq<char> {
    if secs < 60 {
        decimal(secs) + "s"@
    } else {
        decimal(secs / 60) + "m "@ + two_digits(secs % 60) + "s"@
    }
}

/// Elapsed seconds: `45s` under a minute, `1m 05s` from there on.
pub fn fmt_elapsed(secs: u32) -> (r: String)
    ensures
        r@ == elapsed(secs as nat),
{
    if secs < 60 {
        let mut out = number(secs as u64);
        out.append("s");
        out
    } else {
        let mut out = number((secs / 60) as u64);
        out.append("m ");
        let rest: u32 = secs % 60;
        if rest < 10 {
            out.append("0");
            out.append(number(rest as u64).as_str());
            proof {
                let a = decimal((secs / 60) as nat) + "m "@;
                assert(a + "0"@ + decimal(rest as nat) =~= a + two_digits(rest as nat));
            }
        } else {
            out.append(number(rest as u64).as_str());
        }
        out.append("s");
        out
    }
}

/// As many characters of `s`, from the `i`th on, as fit `budget` columns.
pub open spec fn fitting(s: Seq<char>, i: int, used: nat, budget: nat) -> int
    decreases s.len() - i,
{
    if i < 0 || i >= s.len() || used + cells(s[i]) > budget {
        i
    } else {
        fitting(s, i + 1, used + cells(s[i]), budget)
    }
}

/// `s` cut to `cols` columns. One that was cut ends in an ellipsis.
pub open spec fn truncated(s: Seq<char>, cols: nat) -> Seq<char> {
    if str_cells(s) <= cols {
        s
    } else {
        s.take(
            fitting(
                s,
                0,
                0,
                if cols == 0 {
                    0
                } else {
                    (cols - 1) as nat
                },
            ),
        ) + "…"@
    }
}

/// `s` cut to `cols` columns. One that was cut ends in an ellipsis.
pub fn truncate_cols(s: &str, cols: usize) -> (r: String)
    ensures
        r@ == truncated(s@, cols as nat),
{
    if str_width(s) <= cols {
        return s.to_owned();
    }
    let budget: usize = cols.saturating_sub(1);
    let cs = to_chars(s);
    let mut out = String::new();
    let mut used: usize = 0;
    let mut i: usize = 0;
    let mut more = true;
    while more && i < cs.len()
        invariant
            cs@ == s@,
            i <= cs@.len(),
            used <= budget,
            out@ == s@.take(i as int),
            more ==> fitting(s@, 0, 0, budget as nat) == fitting(
                s@,
                i as int,
                used as nat,
                budget as nat,
            ),
            !more ==> fitting(s@, 0, 0, budget as nat) == i,
        decreases
            cs@.len() - i + if more {
                1int
            } else {
                0int
            },
    {
        let c = cs[i];
        let w: usize = match char_width(c) {
            Some(w) => w,
            None => 0,
        };
        if w > budget - used {
            more = false;
        } else {
            push_char(&mut out, c);
            assert(s@.take(i + 1) =~= s@.take(i as int).push(c));
            used += w;
            i += 1;
        }
    }
    out.append("…");
    out
}

proof fn lemma_fitting(s: Seq<char>, i: int, budget: nat)
    requires
        0 <= i <= s.len(),
        run_cells(s.take(i)) <= budget,
    ensures
        i <= fitting(s, i, run_cells(s.take(i)), budget) <= s.len(),
        run_cells(s.take(fitting(s, i, run_cells(s.take(i)), budget))) <= budget,
    decreases s.len() - i,
{
    let used = run_cells(s.take(i));
    if i < s.len() && used + cells(s[i]) <= budget {
        assert(s.take(i + 1).drop_last() =~= s.take(i));
        lemma_fitting(s, i + 1, budget);
    }
}

/// What is left of a text that was cut, without the ellipsis, leaves a column free
/// for it.
pub proof fn law_cutting_leaves_a_column(s: Seq<char>, cols: nat)
    requires
        cols > 0,
        str_cells(s) > cols,
    ensures
        exists|n: int|
            0 <= n <= s.len() && truncated(s, cols) == #[trigger] s.take(n) + "…"@ && run_cells(
                s.take(n),
            ) < cols,
{
    assert(s.take(0) =~= Seq::<char>::empty());
    lemma_fitting(s, 0, (cols - 1) as nat);
    let n = fitting(s, 0, 0, (cols - 1) as nat);
    assert(truncated(s, cols) == s.take(n) + "…"@);
}

/// What is going on: the running tool's action, else a playful word that changes
/// now and then.
pub open spec fn doing(call: Option<(Seq<char>, Seq<char>)>, ticks: u32) -> Seq<char> {
    match call {
        Some((name, title)) => activity(name, title),
        None => word(scrambled(ticks / ROTATE_TICKS) as int % WORD_COUNT as int),
    }
}

/// The activity line: the spinner, what is going on and for how long, cut to the
/// width.
pub open spec fn activity_line(
    call: Option<(Seq<char>, Seq<char>)>,
    frame: usize,
    ticks: u32,
    width: u16,
    theme: Theme,
) -> LineModel {
    let text = spinner(frame) + " "@ + doing(call, ticks) + "… ("@ + elapsed(
        (ticks / TICKS_PER_SEC) as nat,
    ) + ")"@;
    LineModel::of(truncated(text, width as nat), theme.accent)
}

/// The status at the right of the header, with its style: a failure first, then
/// what is waited for, then a passing message, then the plain status.
pub open spec fn header_status(
    status: Seq<char>,
    frame: usize,
    ticks: u32,
    flash: Option<FlashModel>,
    theme: Theme,
) -> SpanModel {
    let word = trimmed(status);
    if "error"@.is_prefix_of(word) {
        SpanModel { text: "● "@ + word + " "@, style: theme.status_err }
    } else if waits(status) {
        SpanModel {
            text: spinner(frame) + " ● "@ + word + " "@ + elapsed((ticks / TICKS_PER_SEC) as nat)
                + " "@,
            style: theme.status_warn,
        }
    } else {
        match flash {
            Some(f) => match f.kind {
                FlashKind::Success => SpanModel {
                    text: "✓ "@ + f.msg + " "@,
                    style: theme.accent,
                },
                FlashKind::Warning => SpanModel {
                    text: "⚠ "@ + f.msg + " "@,
                    style: theme.status_warn,
                },
            },
            None => SpanModel { text: "● "@ + word + " "@, style: theme.status_ok },
        }
    }
}

/// The columns of two texts side by side.
pub open spec fn both_cells(a: Seq<char>, b: Seq<char>) -> nat {
    (str_cells(a) + str_cells(b)) as nat
}

/// What the header can say beside the brand, the fullest first.
pub open spec fn header_meta(
    session: Seq<char>,
    agent: Seq<char>,
    model: Seq<char>,
    mode: Seq<char>,
) -> Seq<Seq<char>> {
    seq![
        " otto · "@ + session + " · "@ + agent + " · "@ + model + " · mode:"@ + mode + " "@,
        " otto · "@ + session + " · "@ + agent + " · "@ + model + " "@,
        " otto · "@ + session + " · "@ + agent + " "@,
        " otto · "@ + session + " "@,
        " otto "@,
    ]
}

/// The first of `all` that leaves room for the status; the last where none does.
pub open spec fn first_fitting(all: Seq<Seq<char>>, right: Seq<char>, width: nat) -> Seq<char>
    recommends
        all.len() > 0,
    decreases all.len(),
{
    if all.len() <= 1 || both_cells(all[0], right) <= width {
        all[0]
    } else {
        first_fitting(all.drop_first(), right, width)
    }
}

/// Where the brand leaves room for the status, whatever is chosen to stand beside
/// it does so too.
pub proof fn law_the_status_has_room(all: Seq<Seq<char>>, right: Seq<char>, width: nat)
    requires
        all.len() > 0,
        both_cells(all.last(), right) <= width,
    ensures
        both_cells(first_fitting(all, right, width), right) <= width,
        all.contains(first_fitting(all, right, width)),
    decreases all.len(),
{
    if all.len() > 1 && both_cells(all[0], right) > width {
        let rest = all.drop_first();
        assert(rest.last() == all.last());
        law_the_status_has_room(rest, right, width);
        let i = choose|i: int| 0 <= i < rest.len() && rest[i] == first_fitting(rest, right, width);
        assert(all[i + 1] == first_fitting(all, right, width));
    } else {
        assert(all[0] == first_fitting(all, right, width));
    }
}

/// `n` spaces.
pub open spec fn blanks(n: nat) -> Seq<char> {
    Seq::new(n, |i: int| ' ')
}

/// `n` spaces.
pub fn spaces(n: usize) -> (r: String)
    ensures
        r@ == blanks(n as nat),
{
    let mut out = String::new();
    let mut i: usize = 0;
    assert(out@ =~= blanks(0));
    while i < n
        invariant
            i <= n,
            out@ == blanks(i as nat),
        decreases n - i,
    {
        push_char(&mut out, ' ');
        i += 1;
        assert(out@ =~= blanks(i as nat));
    }
    out
}

/// The header: the brand and as much beside it as leaves room for the status,
/// which stands at the right.
pub open spec fn header_of(left: Seq<char>, right: SpanModel, width: u16, theme: Theme) -> LineModel {
    let used = both_cells(left, right.text);
    LineModel {
        spans: seq![
            SpanModel { text: left.take(5), style: theme.accent },
            SpanModel { text: left.skip(5), style: theme.text_muted },
            SpanModel::raw(
                blanks(
                    if used > width {
                        0
                    } else {
                        (width - used) as nat
                    },
                ),
            ),
            right,
        ],
    }
}

/// A text, or one that stands for it where there is none.
pub open spec fn or_text(s: Option<Seq<char>>, default: Seq<char>) -> Seq<char> {
    match s {
        Some(t) => t,
        None => default,
    }
}

impl AppModel {
    /// The header line.
    pub open spec fn header(self, width: u16) -> LineModel {
        let theme = self.themes[0];
        let right = header_status(
            self.status,
            self.spinner_frame,
            self.busy_ticks,
            self.flash,
            theme,
        );
        let left = first_fitting(
            header_meta(
                or_text(self.session_id, "(no session)"@),
                or_text(self.agent, "build"@),
                or_text(self.model, "default"@),
                self.permission_mode,
            ),
            right.text,
            width as nat,
        );
        header_of(left, right, width, theme)
    }

    /// The activity line.
    pub open spec fn activity(self, width: u16) -> LineModel {
        activity_line(
            running_call(self.transcript),
            self.spinner_frame,
            self.busy_ticks,
            width,
            self.themes[0],
        )
    }
}

/// A text, or one that stands for it where there is none.
fn or_else(s: &Option<String>, default: &str) -> (r: String)
    ensures
        r@ == or_text(s.deep_view(), default@),
{
    match s {
        Some(t) => t.clone(),
        None => default.to_owned(),
    }
}

/// Whether two texts fit a width side by side.
fn fits(left: &str, right: &str, width: usize) -> (r: bool)
    ensures
        r == (both_cells(left@, right@) <= width),
{
    let a: usize = str_width(left);
    let b: usize = str_width(right);
    a <= width && b <= width - a
}

/// The header's left part.
fn left_part(session: &str, agent: &str, model: &str, mode: &str, right: &str, width: usize) -> (r: String)
    ensures
        r@ == first_fitting(
            header_meta(session@, agent@, model@, mode@),
            right@,
            width as nat,
        ),
        r@.len() >= 5,
{
    let ghost all = header_meta(session@, agent@, model@, mode@);
    reveal_with_fuel(first_fitting, 5);
    proof {
        reveal_strlit(" otto · ");
        reveal_strlit(" otto ");
        assert(all.drop_first()[0] == all[1]);
        assert(all.drop_first().drop_first()[0] == all[2]);
        assert(all.drop_first().drop_first().drop_first()[0] == all[3]);
        assert(all.drop_first().drop_first().drop_first().drop_first()[0] == all[4]);
    }
    let mut s = cat(" otto · ", session);
    let with_session = cat(s.as_str(), " ");
    s.append(" · ");
    s.append(agent);
    let with_agent = cat(s.as_str(), " ");
    s.append(" · ");
    s.append(model);
    let with_model = cat(s.as_str(), " ");
    s.append(" · mode:");
    s.append(mode);
    s.append(" ");
    if fits(s.as_str(), right, width) {
        s
    } else if fits(with_model.as_str(), right, width) {
        with_model
    } else if fits(with_agent.as_str(), right, width) {
        with_agent
    } else if fits(with_session.as_str(), right, width) {
        with_session
    } else {
        " otto ".to_owned()
    }
}

/// The parts put together.
fn put_header(left: &str, right: Span, width: u16, theme: &Theme) -> (r: Line)
    requires
        left@.len() >= 5,
    ensures
        r.deep_view() == header_of(left@, right.deep_view(), width, *theme),
{
    let ghost want = header_of(left@, right.deep_view(), width, *theme);
    let a: usize = str_width(left);
    let b: usize = str_width(right.text.as_str());
    let w: usize = width as usize;
    let pad: usize = if a > w || b > w - a {
        0
    } else {
        w - a - b
    };
    let cs = to_chars(left);
    let brand = crate::text::from_range(cs.as_slice(), 0, 5);
    let meta = crate::text::from_range(cs.as_slice(), 5, cs.len());
    proof {
        assert(left@.subrange(0, 5) =~= left@.take(5));
        assert(left@.subrange(5, left@.len() as int) =~= left@.skip(5));
    }
    let mut spans: Vec<Span> = Vec::new();
    add_span(&mut spans, Span::styled(brand, theme.accent));
    add_span(&mut spans, Span::styled(meta, theme.text_muted));
    add_span(&mut spans, Span::raw(spaces(pad)));
    add_span(&mut spans, right);
    let r = Line { spans };
    assert(r.deep_view().spans =~= want.spans);
    r
}

/// `a`, `b` and `c` side by side.
fn three(a: &str, b: &str, c: &str) -> (r: String)
    ensures
        r@ == a@ + b@ + c@,
{
    let mut out = cat(a, b);
    out.append(c);
    out
}

impl App {
    /// The status at the right of the header.
    fn status_span(&self, theme: &Theme) -> (r: Span)
        ensures
            r.deep_view() == header_status(
                self.deep_view().status,
                self.deep_view().spinner_frame,
                self.deep_view().busy_ticks,
                self.deep_view().flash,
                *theme,
            ),
    {
        reveal(<App as DeepView>::deep_view);
        let word = trim(self.status.as_str());
        if begins_with(word.as_str(), "error") {
            Span::styled(three("● ", word.as_str(), " "), theme.status_err)
        } else if self.is_busy() {
            let mut text = cat(spin(self.spinner_frame), " ● ");
            text.append(word.as_str());
            text.append(" ");
            text.append(fmt_elapsed(self.busy_ticks / TICKS_PER_SEC).as_str());
            text.append(" ");
            Span::styled(text, theme.status_warn)
        } else {
            match &self.flash {
                Some(f) => match f.kind {
                    FlashKind::Success => Span::styled(
                        three("✓ ", f.msg.as_str(), " "),
                        theme.accent,
                    ),
                    FlashKind::Warning => Span::styled(
                        three("⚠ ", f.msg.as_str(), " "),
                        theme.status_warn,
                    ),
                },
                None => Span::styled(three("● ", word.as_str(), " "), theme.status_ok),
            }
        }
    }

    /// The header line: the brand, session, agent, model and permission mode, as
    /// many of them as leave room for the status, which stands at the right.
    #[must_use]
    pub fn header_line(&self, width: u16) -> (r: Line)
        ensures
            r.deep_view() == self.deep_view().header(width),
    {
        let theme = self.themes.active();
        let right = self.status_span(&theme);
        let session = or_else(&self.session_id, "(no session)");
        let agent = or_else(&self.agent, "build");
        let model = or_else(&self.model, "default");
        let left = left_part(
            session.as_str(),
            agent.as_str(),
            model.as_str(),
            self.permission_mode.as_str(),
            right.text.as_str(),
            width as usize,
        );
        reveal(<App as DeepView>::deep_view);
        put_header(left.as_str(), right, width, &theme)
    }

    /// The line that tells what is going on: the spinner, the running tool's
    /// action or a playful word, and the time it took.
    #[must_use]
    pub fn activity_line(&self, width: u16) -> (r: Line)
        ensures
            r.deep_view() == self.deep_view().activity(width),
    {
        reveal(<App as DeepView>::deep_view);
        let theme = self.themes.active();
        let body: String = match self.running_tool() {
            Some((name, title)) => tool_action(name, title),
            None => narration_word(self.busy_ticks / ROTATE_TICKS).to_owned(),
        };
        let mut text = three(spin(self.spinner_frame), " ", body.as_str());
        text.append("… (");
        text.append(fmt_elapsed(self.busy_ticks / TICKS_PER_SEC).as_str());
        text.append(")");
        Line::of(truncate_cols(text.as_str(), width as usize), theme.accent)
    }
}

} // verus!
