//! The todo panel, the attachment chip and the hints.

use super::header::{truncate_cols, truncated};
use crate::render::{add_line, Line, LineModel, Span, SpanModel};
use crate::state::{any_unfinished, used_tokens, App, AppModel};
use crate::text::{cat, decimal, from_range, join, joined, number, to_chars};
use crate::theme::{Style, Theme};
use crate::transcript::{TodoItem, TodoItemModel, TodoStatus};
use vstd::prelude::*;
use vstd::string::*;

verus! {

// ---------------------------------------------------------------------------
// Attachments
// ---------------------------------------------------------------------------

/// What follows the last slash of a path.
pub open spec fn base_name(path: Seq<char>) -> Seq<char>
    decreases path.len(),
{
    if path.len() == 0 || path.last() == '/' {
        Seq::empty()
    } else {
        base_name(path.drop_last()).push(path.last())
    }
}

/// The chip that names the attached files.
pub open spec fn chip(attachments: Seq<Seq<char>>) -> Seq<char> {
    "📎 "@ + joined(attachments.map_values(|p: Seq<char>| base_name(p)), ", "@) + " ("@ + decimal(
        attachments.len(),
    ) + ")"@
}

proof fn lemma_base_name(path: Seq<char>, i: int)
    requires
        0 <= i <= path.len(),
        i == 0 || path[i - 1] == '/',
        forall|j: int| i <= j < path.len() ==> path[j] != '/',
    ensures
        base_name(path) == path.skip(i),
    decreases path.len(),
{
    if i < path.len() {
        lemma_base_name(path.drop_last(), i);
        assert(path.drop_last().skip(i).push(path.last()) =~= path.skip(i));
    } else {
        assert(path.skip(i) =~= Seq::<char>::empty());
        if path.len() > 0 {
            assert(path.last() == path[i - 1]);
        }
    }
}

/// What follows the last slash of a path.
fn after_slash(path: &str) -> (r: String)
    ensures
        r@ == base_name(path@),
{
    let cs = to_chars(path);
    let n: usize = cs.len();
    let mut i: usize = n;
    while i > 0 && cs[i - 1] != '/'
        invariant
            i <= n == cs@.len(),
            cs@ == path@,
            forall|j: int| i <= j < n ==> cs@[j] != '/',
        decreases i,
    {
        i -= 1;
    }
    proof {
        lemma_base_name(path@, i as int);
        assert(path@.subrange(i as int, n as int) =~= path@.skip(i as int));
    }
    from_range(cs.as_slice(), i, n)
}

/// The chip that names the attached files.
pub fn attachment_chip(attachments: &[String]) -> (r: String)
    ensures
        r@ == chip(attachments.deep_view()),
{
    let ghost all = attachments.deep_view();
    let ghost f = |p: Seq<char>| base_name(p);
    let mut names: Vec<String> = Vec::new();
    let mut i: usize = 0;
    assert(names.deep_view() =~= all.take(0).map_values(f));
    while i < attachments.len()
        invariant
            i <= attachments@.len(),
            all == attachments.deep_view(),
            f == (|p: Seq<char>| base_name(p)),
            names.deep_view() == all.take(i as int).map_values(f),
        decreases attachments@.len() - i,
    {
        let ghost before = names.deep_view();
        let name = after_slash(attachments[i].as_str());
        let ghost m = name@;
        names.push(name);
        proof {
            assert(all[i as int] == attachments@[i as int]@);
            assert(names.deep_view() =~= before.push(m));
            assert(all.take(i + 1).map_values(f) =~= before.push(m));
        }
        i += 1;
    }
    assert(all.take(i as int) =~= all);
    let ns = names.as_slice();
    assert(ns.deep_view() =~= names.deep_view());
    let mut out = cat("📎 ", join(ns, ", ").as_str());
    out.append(" (");
    out.append(number(attachments.len() as u64).as_str());
    out.append(")");
    out
}

// ---------------------------------------------------------------------------
// Todos
// ---------------------------------------------------------------------------

/// The rows that the todo panel takes: none without work left, one where it is
/// collapsed, else its items and two borders, up to a third of the screen.
pub open spec fn todo_height(todos: Seq<TodoItemModel>, collapsed: bool, height: u16) -> u16 {
    if !any_unfinished(todos) {
        0
    } else if collapsed {
        1
    } else {
        let cap = if height / 3 < 3 {
            3
        } else {
            height / 3
        };
        if todos.len() + 2 < cap {
            (todos.len() + 2) as u16
        } else {
            cap
        }
    }
}

/// How a todo's status shows.
pub open spec fn todo_look(status: TodoStatus, theme: Theme) -> (Seq<char>, Style) {
    match status {
        TodoStatus::Completed => ("✓ "@, theme.text_muted),
        TodoStatus::InProgress => ("• "@, theme.status_warn),
        TodoStatus::Pending => ("  "@, theme.text),
        TodoStatus::Cancelled => ("✗ "@, theme.text_muted),
    }
}

/// A todo's line.
pub open spec fn todo_line(t: TodoItemModel, width: u16, theme: Theme) -> LineModel {
    let look = todo_look(t.status, theme);
    let room = if width < 2 {
        0nat
    } else {
        (width - 2) as nat
    };
    LineModel::of(look.0 + truncated(t.content, room), look.1)
}

/// How many todos show in `rows` rows: all, or as many as leave a row to say how
/// many more there are.
pub open spec fn todos_shown(n: nat, rows: u16) -> nat {
    if n <= rows {
        n
    } else if rows == 0 {
        0
    } else {
        (rows - 1) as nat
    }
}

/// The lines of the todo panel.
pub open spec fn todo_lines(todos: Seq<TodoItemModel>, rows: u16, width: u16, theme: Theme) -> Seq<
    LineModel,
> {
    let shown = todos_shown(todos.len(), rows);
    let items = todos.take(shown as int).map_values(
        |t: TodoItemModel| todo_line(t, width, theme),
    );
    if todos.len() > rows {
        items.push(
            LineModel::of(
                "  +"@ + decimal((todos.len() - shown) as nat) + " more"@,
                theme.text_muted,
            ),
        )
    } else {
        items
    }
}

/// A todo's line.
fn line_of_todo(t: &TodoItem, width: u16, theme: &Theme) -> (r: Line)
    ensures
        r.deep_view() == todo_line(t.deep_view(), width, *theme),
{
    let content = truncate_cols(t.content.as_str(), width.saturating_sub(2) as usize);
    match t.status {
        TodoStatus::Completed => Line::of(cat("✓ ", content.as_str()), theme.text_muted),
        TodoStatus::InProgress => Line::of(cat("• ", content.as_str()), theme.status_warn),
        TodoStatus::Pending => Line::of(cat("  ", content.as_str()), theme.text),
        TodoStatus::Cancelled => Line::of(cat("✗ ", content.as_str()), theme.text_muted),
    }
}

/// The lines of the todo panel, in `rows` rows of `width` columns.
pub fn todos_lines(todos: &[TodoItem], rows: u16, width: u16, theme: &Theme) -> (r: Vec<Line>)
    ensures
        r.deep_view() == todo_lines(todos.deep_view(), rows, width, *theme),
{
    let ghost all = todos.deep_view();
    let ghost f = |t: TodoItemModel| todo_line(t, width, *theme);
    let n: usize = todos.len();
    let room: usize = rows as usize;
    let visible: usize = if n > room {
        room.saturating_sub(1)
    } else {
        n
    };
    let mut out: Vec<Line> = Vec::new();
    let mut i: usize = 0;
    assert(out.deep_view() =~= all.take(0).map_values(f));
    while i < visible
        invariant
            i <= visible <= n == todos@.len(),
            all == todos.deep_view(),
            f == (|t: TodoItemModel| todo_line(t, width, *theme)),
            out.deep_view() == all.take(i as int).map_values(f),
        decreases visible - i,
    {
        proof {
            assert(all[i as int] == todos@[i as int].deep_view());
            assert(all.take(i + 1).map_values(f) =~= all.take(i as int).map_values(f).push(
                f(all[i as int]),
            ));
        }
        add_line(&mut out, line_of_todo(&todos[i], width, theme));
        i += 1;
    }
    if n > room {
        let mut text = cat("  +", number((n - visible) as u64).as_str());
        text.append(" more");
        add_line(&mut out, Line::of(text, theme.text_muted));
    }
    out
}

/// The panel never shows more lines than it has rows, and tells every todo that it
/// leaves out.
pub proof fn law_the_todo_panel_fits(todos: Seq<TodoItemModel>, rows: u16, width: u16, theme: Theme)
    requires
        rows > 0,
    ensures
        todo_lines(todos, rows, width, theme).len() <= rows,
        todo_lines(todos, rows, width, theme).len() <= todos.len(),
        todos.len() <= rows ==> todo_lines(todos, rows, width, theme).len() == todos.len(),
{
}

// ---------------------------------------------------------------------------
// Hints
// ---------------------------------------------------------------------------

/// The hints while nothing is typed.
pub const HINTS_EMPTY: &'static str =
    "enter send · ↑↓ select · enter expand · / search · ? help · q quit";

/// The hints while something is typed.
pub const HINTS_TYPING: &'static str = "enter send · shift+enter newline · ctrl+k cmds";

/// The text of the hints: what keys do, and how much has been used.
pub open spec fn hint_text(
    empty: bool,
    more_below: bool,
    workflow_runs: bool,
    usage: Option<Seq<char>>,
) -> Seq<char> {
    let keys = if empty {
        HINTS_EMPTY@
    } else {
        HINTS_TYPING@
    };
    let scrolled = if more_below {
        "▼ more · "@ + keys
    } else {
        keys
    };
    let chords = if workflow_runs {
        scrolled + " · ctrl+x cancel · ctrl+w status"@
    } else {
        scrolled
    };
    match usage {
        Some(u) => chords + "  ·  "@ + u,
        None => chords,
    }
}

/// The style of the context share: it warns from 70 and alarms above 90 percent.
pub open spec fn share_style(pct: u8, theme: Theme) -> Style {
    if pct > 90 {
        theme.status_err
    } else if pct >= 70 {
        theme.status_warn
    } else {
        theme.text_muted
    }
}

/// The line of hints.
pub open spec fn hint_line(text: Seq<char>, pct: Option<u8>, theme: Theme) -> LineModel {
    let first = SpanModel { text, style: theme.text_muted };
    match pct {
        Some(p) => LineModel {
            spans: seq![
                first,
                SpanModel {
                    text: "  ·  "@ + decimal(p as nat) + "% ctx"@,
                    style: share_style(p, theme),
                },
            ],
        },
        None => LineModel { spans: seq![first] },
    }
}

impl AppModel {
    /// Whether a workflow run is in flight.
    pub open spec fn workflow_runs(self) -> bool {
        self.workflow is Some && self.workflow->0.done is None
    }

    /// The line of hints.
    pub open spec fn hints(self, more_below: bool, usage: Option<Seq<char>>, pct: Option<u8>) -> LineModel {
        hint_line(
            hint_text(self.input.is_empty(), more_below, self.workflow_runs(), usage),
            pct,
            self.themes[0],
        )
    }
}

/// The text of the hints.
fn hints_text(empty: bool, more_below: bool, workflow_runs: bool, usage: &Option<String>) -> (r: String)
    ensures
        r@ == hint_text(empty, more_below, workflow_runs, usage.deep_view()),
{
    let keys: &str = if empty {
        HINTS_EMPTY
    } else {
        HINTS_TYPING
    };
    let mut out = if more_below {
        cat("▼ more · ", keys)
    } else {
        keys.to_owned()
    };
    if workflow_runs {
        out.append(" · ctrl+x cancel · ctrl+w status");
    }
    if let Some(u) = usage {
        out.append("  ·  ");
        out.append(u.as_str());
    }
    out
}

/// The line of hints.
fn put_hints(text: String, pct: Option<u8>, theme: &Theme) -> (r: Line)
    ensures
        r.deep_view() == hint_line(text@, pct, *theme),
{
    let ghost want = hint_line(text@, pct, *theme);
    match pct {
        Some(p) => {
            let style = if p > 90 {
                theme.status_err
            } else if p >= 70 {
                theme.status_warn
            } else {
                theme.text_muted
            };
            let mut share = cat("  ·  ", number(p as u64).as_str());
            share.append("% ctx");
            Line::pair(Span::styled(text, theme.text_muted), Span::styled(share, style))
        },
        None => {
            let r = Line::of(text, theme.text_muted);
            assert(r.deep_view().spans =~= want.spans);
            r
        },
    }
}

// ---------------------------------------------------------------------------
// Usage
// ---------------------------------------------------------------------------

/// The usage text: the message's tokens, its cost where it is known, and the
/// session's tokens where there are any.
pub open spec fn usage_text(
    tokens: Seq<char>,
    cost: Option<Seq<char>>,
    session: Option<Seq<char>>,
) -> Seq<char> {
    let first = seq![tokens + " tok"@];
    let second = match cost {
        Some(c) => first.push("$"@ + c),
        None => first,
    };
    joined(
        match session {
            Some(s) => second.push("Σ "@ + s),
            None => second,
        },
        " · "@,
    )
}

/// The usage text: the message's tokens, its cost where it is known, and the
/// session's tokens where there are any.
fn put_usage(tokens: &str, cost: Option<&str>, session: Option<&str>) -> (r: String)
    ensures
        r@ == usage_text(tokens@, crate::client::opt_text(cost), crate::client::opt_text(session)),
{
    let mut parts: Vec<String> = Vec::new();
    let first = cat(tokens, " tok");
    let ghost a = first@;
    parts.push(first);
    assert(parts.deep_view() =~= seq![a]);
    if let Some(c) = cost {
        let s = cat("$", c);
        let ghost before = parts.deep_view();
        let ghost m = s@;
        parts.push(s);
        assert(parts.deep_view() =~= before.push(m));
    }
    if let Some(t) = session {
        let s = cat("Σ ", t);
        let ghost before = parts.deep_view();
        let ghost m = s@;
        parts.push(s);
        assert(parts.deep_view() =~= before.push(m));
    }
    let ps = parts.as_slice();
    assert(ps.deep_view() =~= parts.deep_view());
    join(ps, " · ")
}

impl AppModel {
    /// The tokens of the last usage reading, where it tells them.
    pub open spec fn message_total(self) -> Option<int> {
        match self.usage {
            Some(u) => used_tokens(u),
            None => None,
        }
    }

    /// The tokens of the session.
    pub open spec fn session_total(self) -> int {
        self.session_tokens.0 + self.session_tokens.1
    }

    /// The usage text, given its numbers written out; nothing without a reading.
    pub open spec fn usage_line(
        self,
        tokens: Seq<char>,
        cost: Option<Seq<char>>,
        session: Seq<char>,
    ) -> Option<Seq<char>> {
        if self.message_total() is Some {
            Some(
                usage_text(
                    tokens,
                    cost,
                    if self.session_total() > 0 {
                        Some(session)
                    } else {
                        None
                    },
                ),
            )
        } else {
            None
        }
    }
}

impl App {
    /// The rows that the todo panel takes on a screen of `height` rows.
    #[must_use]
    pub fn todos_row_height(&self, height: u16) -> (r: u16)
        ensures
            r == todo_height(self.deep_view().todos, self.deep_view().todos_collapsed, height),
    {
        let active = self.todos_active();
        reveal(<App as DeepView>::deep_view);
        if !active {
            return 0;
        }
        if self.todos_collapsed {
            return 1;
        }
        let third: u16 = height / 3;
        let cap: u16 = if third < 3 {
            3
        } else {
            third
        };
        let n: usize = self.todos.len();
        if n < (cap - 2) as usize {
            n as u16 + 2
        } else {
            cap
        }
    }

    /// The line of hints. `usage` is the usage text and `pct` the context share,
    /// where they are known.
    #[must_use]
    pub fn hints_line(&self, more_below: bool, usage: &Option<String>, pct: Option<u8>) -> (r: Line)
        ensures
            r.deep_view() == self.deep_view().hints(more_below, usage.deep_view(), pct),
    {
        reveal(<App as DeepView>::deep_view);
        let runs = match &self.workflow {
            Some(w) => w.done.is_none(),
            None => false,
        };
        let text = hints_text(self.input.is_empty(), more_below, runs, usage);
        put_hints(text, pct, &self.themes.active())
    }

    /// The tokens of the last usage reading: its total, else its input and output
    /// together.
    #[must_use]
    pub fn message_tokens(&self) -> (r: Option<u64>)
        requires
            self.deep_view().message_total() matches Some(n) ==> n <= u64::MAX,
        ensures
            r is Some == self.deep_view().message_total() is Some,
            r matches Some(n) ==> n == self.deep_view().message_total()->0,
    {
        reveal(<App as DeepView>::deep_view);
        match &self.usage {
            Some(u) => match u.total_tokens {
                Some(n) => Some(n),
                None => match (u.input_tokens, u.output_tokens) {
                    (Some(i), Some(o)) => Some(i + o),
                    _ => None,
                },
            },
            None => None,
        }
    }

    /// The usage text: the message's tokens, its cost where that is known, and the
    /// session's tokens where there are any. The numbers come written out.
    #[must_use]
    pub fn usage_line(&self, tokens: &str, cost: Option<&str>, session: &str) -> (r: Option<String>)
        ensures
            r.deep_view() == self.deep_view().usage_line(
                tokens@,
                crate::client::opt_text(cost),
                session@,
            ),
    {
        reveal(<App as DeepView>::deep_view);
        let known = match &self.usage {
            Some(u) => u.total_tokens.is_some() || (u.input_tokens.is_some()
                && u.output_tokens.is_some()),
            None => false,
        };
        if !known {
            return None;
        }
        if self.session_tokens.0 > 0 || self.session_tokens.1 > 0 {
            Some(put_usage(tokens, cost, Some(session)))
        } else {
            Some(put_usage(tokens, cost, None))
        }
    }
}

} // verus!
