//! The boxes that open over the screen.

use super::header::{blanks, spaces, truncate_cols, truncated};
use crate::input::{str_cells, str_width};
use crate::overlay::{
    FilePickerState, FilePickerStateModel, PaletteState, PaletteStateModel, TextInputState,
    TextInputStateModel,
};
use crate::palette::{
    commands, file_matches, hint_at, label_at, labels, matching, palette_matches, COMMAND_COUNT,
};
use crate::render::{add_line, Line, LineModel, Span, SpanModel};
use crate::text::{
    cat, decimal, join, joined, lines, lines_of, listed, lowered, number, push_char, same, to_lower, trim, trimmed,
};
use crate::theme::{Style, Theme};
use crate::transcript::{ascends, law_tasks_have_one_order, task_order, WorkflowView, WorkflowViewModel};
use vstd::prelude::*;
use vstd::std_specs::btree::increasing_seq;
use vstd::std_specs::cmp::OrdSpec;
use vstd::std_specs::iter::IteratorSpec;
use vstd::string::*;

verus! {

/// Every key binding, for the help box.
pub const HELP_FULL: &'static str =
    "enter send · shift+enter newline · ctrl+n new · m model · g agent · s sessions · ↑↓ select tool · enter/t expand · / search · y yank · ? help · q quit · ctrl+k cmds · ctrl+f attach · o todos · shift+tab mode";

/// A text as plain lines.
pub open spec fn plain_lines(text: Seq<char>) -> Seq<LineModel> {
    lines_of(text).map_values(|l: Seq<char>| LineModel::raw(l))
}

/// A text as plain lines.
pub fn text_lines(text: &str) -> (r: Vec<Line>)
    ensures
        r.deep_view() == plain_lines(text@),
{
    let ls = lines(text);
    let ghost all = ls.deep_view();
    let ghost f = |l: Seq<char>| LineModel::raw(l);
    let mut out: Vec<Line> = Vec::new();
    let mut i: usize = 0;
    assert(out.deep_view() =~= all.take(0).map_values(f));
    while i < ls.len()
        invariant
            i <= ls@.len(),
            all == ls.deep_view(),
            f == (|l: Seq<char>| LineModel::raw(l)),
            out.deep_view() == all.take(i as int).map_values(f),
        decreases ls@.len() - i,
    {
        proof {
            assert(all[i as int] == ls@[i as int]@);
            assert(all.take(i + 1).map_values(f) =~= all.take(i as int).map_values(f).push(
                f(all[i as int]),
            ));
        }
        add_line(&mut out, Line::raw(ls[i].as_str()));
        i += 1;
    }
    assert(all.take(i as int) =~= all);
    out
}

/// What the permission box asks.
pub open spec fn permission_question(permission: Seq<char>, patterns: Seq<Seq<char>>) -> Seq<char> {
    "allow `"@ + permission + "`? "@ + joined(patterns, ", "@)
        + "\n\ny once · a always · n reject"@
}

/// What the permission box asks.
pub fn permission_text(permission: &str, patterns: &[String]) -> (r: String)
    ensures
        r@ == permission_question(permission@, patterns.deep_view()),
{
    let mut out = cat("allow `", permission);
    out.append("`? ");
    out.append(join(patterns, ", ").as_str());
    out.append("\n\ny once · a always · n reject");
    out
}

/// The height of a box: `rows` and `extra`, within the screen.
pub open spec fn boxed(rows: nat, extra: nat, height: u16) -> u16 {
    if rows + extra < height {
        (rows + extra) as u16
    } else {
        height
    }
}

/// The height of a box: `rows` and `extra`, within the screen.
pub fn box_rows(rows: usize, extra: u16, height: u16) -> (r: u16)
    ensures
        r == boxed(rows as nat, extra as nat, height),
{
    if extra < height && rows < (height - extra) as usize {
        rows as u16 + extra
    } else {
        height
    }
}

/// The row for an item of a list: marked where it is selected.
pub open spec fn list_row(text: Seq<char>, selected: bool, theme: Theme) -> LineModel {
    if selected {
        LineModel::of("> "@ + text, theme.selection)
    } else {
        LineModel::raw("  "@ + text)
    }
}

/// The row for an item of a list.
fn row_line(text: &str, selected: bool, theme: &Theme) -> (r: Line)
    ensures
        r.deep_view() == list_row(text@, selected, *theme),
{
    if selected {
        Line::of(cat("> ", text), theme.selection)
    } else {
        Line::raw(cat("  ", text).as_str())
    }
}

/// The lines of a list.
pub open spec fn list_rows(items: Seq<Seq<char>>, selected: usize, theme: Theme) -> Seq<LineModel> {
    if items.len() == 0 {
        seq![LineModel::of("(none)"@, theme.text_muted)]
    } else {
        Seq::new(items.len(), |i: int| list_row(items[i], i == selected, theme))
    }
}

/// The lines of a list, the selected one marked.
pub fn list_lines(items: &[String], selected: usize, theme: &Theme) -> (r: Vec<Line>)
    ensures
        r.deep_view() == list_rows(items.deep_view(), selected, *theme),
{
    let ghost all = items.deep_view();
    let ghost want = list_rows(all, selected, *theme);
    let mut out: Vec<Line> = Vec::new();
    if items.len() == 0 {
        add_line(&mut out, Line::of("(none)".to_owned(), theme.text_muted));
        assert(out.deep_view() =~= want);
        return out;
    }
    let mut i: usize = 0;
    assert(out.deep_view() =~= want.take(0));
    while i < items.len()
        invariant
            i <= items@.len(),
            items@.len() > 0,
            all == items.deep_view(),
            want == list_rows(all, selected, *theme),
            out.deep_view() == want.take(i as int),
        decreases items@.len() - i,
    {
        proof {
            assert(all[i as int] == items@[i as int]@);
            assert(want.take(i + 1) =~= want.take(i as int).push(want[i as int]));
        }
        add_line(&mut out, row_line(items[i].as_str(), i == selected, theme));
        i += 1;
    }
    assert(want.take(i as int) =~= want);
    out
}

// ---------------------------------------------------------------------------
// The command palette
// ---------------------------------------------------------------------------

/// The blanks between a command's label and its hint.
pub open spec fn hint_gap(label: Seq<char>, hint: Seq<char>, width: u16) -> nat {
    let used = 3 + str_cells(label) + str_cells(hint);
    if used < width {
        (width - used) as nat
    } else {
        0
    }
}

/// A command's row.
pub open spec fn command_row(
    label: Seq<char>,
    hint: Seq<char>,
    selected: bool,
    width: u16,
    theme: Theme,
) -> LineModel {
    let gap = blanks(hint_gap(label, hint, width));
    if selected {
        LineModel {
            spans: seq![
                SpanModel { text: "> "@ + label, style: theme.selection },
                SpanModel { text: gap, style: theme.selection },
                SpanModel { text: hint + " "@, style: theme.selection },
            ],
        }
    } else {
        LineModel {
            spans: seq![
                SpanModel::raw("  "@ + label),
                SpanModel::raw(gap),
                SpanModel { text: hint + " "@, style: theme.text_muted },
            ],
        }
    }
}

/// A command's row.
fn command_line(label: &str, hint: &str, selected: bool, width: u16, theme: &Theme) -> (r: Line)
    ensures
        r.deep_view() == command_row(label@, hint@, selected, width, *theme),
{
    let a: usize = str_width(label);
    let b: usize = str_width(hint);
    let w: usize = width as usize;
    let pad: usize = if w > 3 && a < w - 3 && b < w - 3 - a {
        w - 3 - a - b
    } else {
        0
    };
    let gap = spaces(pad);
    let tail = cat(hint, " ");
    if selected {
        Line::triple(
            Span::styled(cat("> ", label), theme.selection),
            Span::styled(gap, theme.selection),
            Span::styled(tail, theme.selection),
        )
    } else {
        Line::triple(
            Span::raw(cat("  ", label)),
            Span::raw(gap),
            Span::styled(tail, theme.text_muted),
        )
    }
}

/// The lines of the command palette: the query, then the commands that match.
pub open spec fn palette_rows(p: PaletteStateModel, width: u16, theme: Theme) -> Seq<LineModel> {
    let found = matching(labels(), p.query, None);
    let query = seq![LineModel::raw("> "@ + p.query)];
    query + if found.len() == 0 {
        seq![LineModel::of("(no match)"@, theme.text_muted)]
    } else {
        Seq::new(
            found.len(),
            |k: int|
                command_row(
                    label_at(found[k] as int),
                    hint_at(found[k] as int),
                    k == p.selected,
                    width,
                    theme,
                ),
        )
    }
}

/// The lines of the command palette: the query, then the commands that match.
pub fn palette_lines(p: &PaletteState, width: u16, theme: &Theme) -> (r: Vec<Line>)
    ensures
        r.deep_view() == palette_rows(p.deep_view(), width, *theme),
{
    let ghost m = p.deep_view();
    let ghost want = palette_rows(m, width, *theme);
    let found = palette_matches(p.query.as_str());
    let entries = commands();
    let mut out: Vec<Line> = Vec::new();
    add_line(&mut out, Line::raw(cat("> ", p.query.as_str()).as_str()));
    if found.len() == 0 {
        add_line(&mut out, Line::of("(no match)".to_owned(), theme.text_muted));
        assert(out.deep_view() =~= want);
        return out;
    }
    let mut k: usize = 0;
    assert(out.deep_view() =~= want.take(1));
    while k < found.len()
        invariant
            k <= found@.len(),
            found@.len() > 0,
            found@ == matching(labels(), m.query, None),
            forall|i: int| 0 <= i < found@.len() ==> (#[trigger] found@[i]) < COMMAND_COUNT,
            entries@.len() == COMMAND_COUNT,
            forall|i: int|
                0 <= i < COMMAND_COUNT ==> (#[trigger] entries@[i]).label@ == label_at(i)
                    && entries@[i].hint@ == hint_at(i),
            p.selected == m.selected,
            want == palette_rows(m, width, *theme),
            out.deep_view() == want.take(k + 1),
        decreases found@.len() - k,
    {
        let i: usize = found[k];
        let line = command_line(entries[i].label, entries[i].hint, k == p.selected, width, theme);
        proof {
            assert(want[k + 1] == line.deep_view());
            assert(want.take(k + 2) =~= want.take(k + 1).push(want[k + 1]));
        }
        add_line(&mut out, line);
        k += 1;
    }
    assert(want.take(k + 1) =~= want);
    out
}

/// How many rows the palette lists: at least one.
pub open spec fn palette_len(query: Seq<char>) -> nat {
    let n = matching(labels(), query, None).len();
    if n == 0 {
        1
    } else {
        n
    }
}

/// How many rows the palette lists: at least one.
pub fn palette_count(query: &str) -> (r: usize)
    ensures
        r == palette_len(query@),
{
    let n: usize = palette_matches(query).len();
    if n == 0 {
        1
    } else {
        n
    }
}

// ---------------------------------------------------------------------------
// The text box
// ---------------------------------------------------------------------------

/// The lines of the text box.
pub open spec fn text_input_rows(s: TextInputStateModel, theme: Theme) -> Seq<LineModel> {
    seq![
        LineModel {
            spans: seq![
                SpanModel::raw("> "@ + s.query),
                SpanModel { text: "▌"@, style: theme.text_muted },
            ],
        },
        LineModel::of("enter start · esc cancel"@, theme.text_muted),
    ]
}

/// The lines of the text box.
pub fn text_input_lines(s: &TextInputState, theme: &Theme) -> (r: Vec<Line>)
    ensures
        r.deep_view() == text_input_rows(s.deep_view(), *theme),
{
    let ghost want = text_input_rows(s.deep_view(), *theme);
    let mut out: Vec<Line> = Vec::new();
    add_line(
        &mut out,
        Line::pair(
            Span::raw(cat("> ", s.query.as_str())),
            Span::styled("▌".to_owned(), theme.text_muted),
        ),
    );
    add_line(&mut out, Line::of("enter start · esc cancel".to_owned(), theme.text_muted));
    assert(out.deep_view() =~= want);
    out
}

// ---------------------------------------------------------------------------
// The file picker
// ---------------------------------------------------------------------------

/// A file's row: ticked where it is attached.
pub open spec fn file_row(path: Seq<char>, attached: bool, selected: bool, theme: Theme) -> LineModel {
    list_row(
        if attached {
            "✓ "@ + path
        } else {
            "  "@ + path
        },
        selected,
        theme,
    )
}

/// The lines of the file picker: the query, then the files that match.
pub open spec fn file_rows(s: FilePickerStateModel, attachments: Seq<Seq<char>>, theme: Theme) -> Seq<
    LineModel,
> {
    let found = matching(s.results, s.query, None);
    let query = seq![LineModel::raw("> "@ + s.query)];
    if s.loading {
        query.push(LineModel::of("loading…"@, theme.text_muted))
    } else if found.len() == 0 {
        query.push(
            LineModel::of(
                if s.results.len() == 0 {
                    "(no files)"@
                } else {
                    "(no match)"@
                },
                theme.text_muted,
            ),
        )
    } else {
        let files = query + Seq::new(
            found.len(),
            |k: int|
                file_row(
                    s.results[found[k] as int],
                    attachments.contains(s.results[found[k] as int]),
                    k == s.selected,
                    theme,
                ),
        );
        if s.truncated {
            files.push(LineModel::of("  … list truncated"@, theme.text_muted))
        } else {
            files
        }
    }
}

/// A file's row: ticked where it is attached.
fn file_line(path: &str, attached: bool, selected: bool, theme: &Theme) -> (r: Line)
    ensures
        r.deep_view() == file_row(path@, attached, selected, *theme),
{
    let label = if attached {
        cat("✓ ", path)
    } else {
        cat("  ", path)
    };
    row_line(label.as_str(), selected, theme)
}

/// The lines of the file picker: the query, then the files that match.
pub fn files_lines(s: &FilePickerState, attachments: &[String], theme: &Theme) -> (r: Vec<Line>)
    ensures
        r.deep_view() == file_rows(s.deep_view(), attachments.deep_view(), *theme),
{
    let ghost m = s.deep_view();
    let ghost chosen = attachments.deep_view();
    let ghost want = file_rows(m, chosen, *theme);
    let mut out: Vec<Line> = Vec::new();
    add_line(&mut out, Line::raw(cat("> ", s.query.as_str()).as_str()));
    if s.loading {
        add_line(&mut out, Line::of("loading…".to_owned(), theme.text_muted));
        assert(out.deep_view() =~= want);
        return out;
    }
    let rs = s.results.as_slice();
    assert(rs.deep_view() =~= m.results);
    let found = file_matches(rs, s.query.as_str());
    if found.len() == 0 {
        let none: &str = if s.results.len() == 0 {
            "(no files)"
        } else {
            "(no match)"
        };
        add_line(&mut out, Line::of(none.to_owned(), theme.text_muted));
        assert(out.deep_view() =~= want);
        return out;
    }
    let mut k: usize = 0;
    assert(out.deep_view() =~= want.take(1));
    while k < found.len()
        invariant
            k <= found@.len(),
            found@.len() > 0,
            !m.loading,
            found@ == matching(m.results, m.query, None),
            forall|i: int| 0 <= i < found@.len() ==> (#[trigger] found@[i]) < rs@.len(),
            rs.deep_view() == m.results,
            s.selected == m.selected,
            chosen == attachments.deep_view(),
            want == file_rows(m, chosen, *theme),
            out.deep_view() == want.take(k + 1),
        decreases found@.len() - k,
    {
        let path = rs[found[k]].as_str();
        proof {
            assert(m.results[found@[k as int] as int] == path@);
        }
        let line = file_line(path, listed(attachments, path), k == s.selected, theme);
        proof {
            assert(want[k + 1] == line.deep_view());
            assert(want.take(k + 2) =~= want.take(k + 1).push(want[k + 1]));
        }
        add_line(&mut out, line);
        k += 1;
    }
    if s.truncated {
        add_line(&mut out, Line::of("  … list truncated".to_owned(), theme.text_muted));
    }
    assert(out.deep_view() =~= want);
    out
}

/// How many rows the file picker lists: at least one.
pub open spec fn files_len(results: Seq<Seq<char>>, query: Seq<char>) -> nat {
    let n = matching(results, query, None).len();
    if n == 0 {
        1
    } else {
        n
    }
}

/// How many rows the file picker lists: at least one.
pub fn files_count(results: &[String], query: &str) -> (r: usize)
    ensures
        r == files_len(results.deep_view(), query@),
{
    let n: usize = file_matches(results, query).len();
    if n == 0 {
        1
    } else {
        n
    }
}

// ---------------------------------------------------------------------------
// The workflow panel
// ---------------------------------------------------------------------------

/// How a workflow task's status shows, without regard to ASCII case.
pub open spec fn task_look(status: Seq<char>, theme: Theme) -> (char, Style) {
    let s = lowered(trimmed(status));
    if s == "done"@ || s == "verified"@ {
        ('✔', theme.status_ok)
    } else if s == "failed"@ || s == "blocked"@ || s == "needs_context"@ {
        ('✖', theme.status_err)
    } else if s == "done_with_concerns"@ {
        ('✔', theme.status_warn)
    } else if s == "pending"@ || s.len() == 0 {
        ('·', theme.text_muted)
    } else {
        ('⟳', theme.status_warn)
    }
}

/// How a workflow task's status shows: done, failed, done with concerns, pending,
/// and anything else in progress.
pub fn workflow_task_glyph(status: &str, theme: &Theme) -> (r: (char, Style))
    ensures
        r == task_look(status@, *theme),
{
    let lower = to_lower(trim(status).as_str());
    let s = lower.as_str();
    if same(s, "done") || same(s, "verified") {
        ('✔', theme.status_ok)
    } else if same(s, "failed") || same(s, "blocked") || same(s, "needs_context") {
        ('✖', theme.status_err)
    } else if same(s, "done_with_concerns") {
        ('✔', theme.status_warn)
    } else if same(s, "pending") || s.is_empty() {
        ('·', theme.text_muted)
    } else {
        ('⟳', theme.status_warn)
    }
}

/// A task's line.
pub open spec fn task_line(
    index: u32,
    status: Seq<char>,
    notes: Seq<char>,
    width: u16,
    theme: Theme,
) -> LineModel {
    let look = task_look(status, theme);
    let text = " task "@ + decimal(index as nat) + "  "@.push(look.0) + " "@ + status;
    let noted = if trimmed(notes).len() == 0 {
        text
    } else {
        text + " ("@ + notes + ")"@
    };
    LineModel::of(truncated(noted, width as nat), look.1)
}

/// A task's line.
fn line_of_task(index: u32, status: &str, notes: &str, width: u16, theme: &Theme) -> (r: Line)
    ensures
        r.deep_view() == task_line(index, status@, notes@, width, *theme),
{
    let (glyph, style) = workflow_task_glyph(status, theme);
    let mut text = cat(" task ", number(index as u64).as_str());
    text.append("  ");
    let ghost before = text@;
    push_char(&mut text, glyph);
    assert(before.push(glyph) =~= (" task "@ + decimal(index as nat)) + "  "@.push(glyph));
    text.append(" ");
    text.append(status);
    if !trim(notes).as_str().is_empty() {
        text.append(" (");
        text.append(notes);
        text.append(")");
    }
    Line::of(truncate_cols(text.as_str(), width as usize), style)
}

/// The lines of the workflow panel: the run, its tasks, and how to close it.
pub open spec fn workflow_rows(w: WorkflowViewModel, width: u16, theme: Theme) -> Seq<LineModel> {
    let state = match w.done {
        None => "running"@,
        Some(ok) => if ok {
            "done"@
        } else {
            "failed"@
        },
    };
    (seq![LineModel::of(w.kind + " · "@ + w.arg + " · "@ + state, theme.text)]
        + task_order(w.tasks).map_values(
        |i: u32| task_line(i, w.tasks[i].0, w.tasks[i].1, width, theme),
    )).push(
        LineModel::of("[esc close]"@, theme.text_muted),
    )
}

/// The lines of the workflow panel: the run, its tasks, and how to close it.
pub fn workflow_lines(w: &WorkflowView, width: u16, theme: &Theme) -> (r: Vec<Line>)
    ensures
        r.deep_view() == workflow_rows(w.deep_view(), width, *theme),
{
    let ghost m = w.deep_view();
    let ghost want = workflow_rows(m, width, *theme);
    let state: &str = match w.done {
        None => "running",
        Some(ok) => if ok {
            "done"
        } else {
            "failed"
        },
    };
    let mut title = cat(w.kind.as_str(), " · ");
    title.append(w.arg.as_str());
    title.append(" · ");
    title.append(state);
    let mut out: Vec<Line> = Vec::new();
    add_line(&mut out, Line::of(title, theme.text));
    let tasks = w.tasks.iter();
    let ghost pairs = tasks.remaining();
    let ghost keys = pairs.map_values(|kv: (&u32, &(String, String))| *kv.0);
    proof {
        assert forall|k: u32| m.tasks.dom().contains(k) <==> #[trigger] keys.contains(k) by {
            if w.tasks@.contains_key(k) {
                assert(pairs.contains((&k, &w.tasks@[k])));
                let i = choose|i: int| 0 <= i < pairs.len() && pairs[i] == (&k, &w.tasks@[k]);
                assert(keys[i] == k);
            }
            if keys.contains(k) {
                let i = choose|i: int| 0 <= i < keys.len() && keys[i] == k;
                assert(w.tasks@.contains_key(*pairs[i].0));
            }
        }
        assert(increasing_seq(keys));
        assert forall|i: int, j: int| 0 <= i < j < keys.len() implies #[trigger] keys[i]
            < #[trigger] keys[j] by {
            assert(keys[i].cmp_spec(&keys[j]) is Less);
        }
        assert(ascends(keys, m.tasks.dom()));
        law_tasks_have_one_order(keys, m.tasks);
    }
    assert(out.deep_view() =~= want.take(1));
    for task in it: tasks
        invariant
            it.seq() == pairs,
            keys == pairs.map_values(|kv: (&u32, &(String, String))| *kv.0),
            m == w.deep_view(),
            keys == task_order(m.tasks),
            forall|i: int|
                0 <= i < pairs.len() ==> w.tasks@.contains_key(*pairs[i].0) && w.tasks@[*pairs[i].0]
                    == *(#[trigger] pairs[i]).1,
            want == workflow_rows(m, width, *theme),
            out.deep_view() == want.take(it.index() + 1),
    {
        proof {
            let i = it.index();
            assert(keys[i] == *task.0);
            assert(want[i + 1] == task_line(*task.0, task.1.0@, task.1.1@, width, *theme));
            assert(want.take(i + 2) =~= want.take(i + 1).push(want[i + 1]));
        }
        add_line(
            &mut out,
            line_of_task(*task.0, task.1.0.as_str(), task.1.1.as_str(), width, theme),
        );
    }
    add_line(&mut out, Line::of("[esc close]".to_owned(), theme.text_muted));
    assert(out.deep_view() =~= want);
    out
}

} // verus!
