//! What the screen tells.

use super::footer::{base_name, chip, hint_text, share_style, todo_height, todo_lines, todos_shown, usage_text};
use super::header::{
    activity_line, both_cells, elapsed, first_fitting, header_meta, header_of, header_status, spinner,
};
use super::popups::{
    command_row, file_row, file_rows, list_rows, palette_rows, permission_question, task_line,
    task_look, text_input_rows, workflow_rows,
};
use super::prompt::{
    box_height, cursor_at, first_row, input_rows, search_bar, INPUT_CAP,
};
use super::scrollback::{barred, item_lines, refreshed, LineCacheModel};
use super::Rect;
use crate::overlay::{
    FilePickerStateModel, OverlayModel, PaletteStateModel, TextInputStateModel,
};
use crate::palette::{hint_at, label_at, labels, matching};
use crate::reactions::{lemma_tells_end, lemma_tells_two, tells};
use crate::render::highlight::Inks;
use crate::render::LineModel;
use crate::state::{waits, AppModel, FlashKind, FlashModel};
use crate::text::{decimal, joined, law_a_line_ends_at_its_feed, lowered, trimmed};
use crate::theme::Theme;
use crate::transcript::{
    task_order, TodoItemModel, TodoStatus, TranscriptItemModel, WorkflowViewModel,
};
use vstd::prelude::*;

verus! {

/// A line tells what stands in it.
proof fn lemma_tells_one(line: Seq<char>, a: Seq<char>, x: Seq<char>, b: Seq<char>)
    requires
        line == a + x + b,
    ensures
        tells(line, seq![x]),
{
    let k = a.len() as int;
    assert(line.subrange(k, k + x.len()) =~= x);
    assert(tells(line.take(k), Seq::<Seq<char>>::empty()));
    assert(seq![x].last() == x);
    assert(seq![x].drop_last() =~= Seq::<Seq<char>>::empty());
}

// ---------------------------------------------------------------------------
// The transcript
// ---------------------------------------------------------------------------

/// Each kind of row shows its text in a look of its own: a prompt behind a mark, reasoning in
/// brackets and in its style, an error as one, and a note as it is, muted.
pub proof fn law_rows_show_their_text(inks: Inks, text: Seq<char>, theme: Theme)
    ensures
        ({
            let user = item_lines(inks, TranscriptItemModel::User(text), theme);
            let thought = item_lines(inks, TranscriptItemModel::Reasoning(text), theme);
            let error = item_lines(inks, TranscriptItemModel::Error(text), theme);
            let note = item_lines(inks, TranscriptItemModel::Workflow(text), theme);
            &&& user.len() == 1 && user[0].spans.len() == 2 && user[0].spans[0].text == "› "@
                && user[0].spans[1].text == text && user[0].spans[1].style == theme.text
            &&& thought.len() == 1 && thought[0].spans.len() == 1 && tells(
                thought[0].spans[0].text,
                seq![text],
            ) && thought[0].spans[0].style == theme.reasoning
            &&& error.len() == 1 && error[0].spans.len() == 2 && error[0].spans[1].text == text
                && error[0].spans[0].style == theme.status_err && error[0].spans[1].style
                == theme.status_err
            &&& note.len() == 1 && note[0].spans.len() == 1 && note[0].spans[0].text == text
                && note[0].spans[0].style == theme.text_muted
        }),
{
    lemma_tells_one("("@ + text + ")"@, "("@, text, ")"@);
}

/// What is kept of the lines is used as long as the transcript and the width are the ones it
/// was made for; else the lines are made anew, for those.
pub proof fn law_stale_lines_are_not_shown(
    kept: LineCacheModel,
    inks: Inks,
    items: Seq<TranscriptItemModel>,
    theme: Theme,
    generation: u64,
    width: u16,
)
    ensures
        ({
            let fresh = refreshed(None, inks, items, theme, generation, width);
            let after = refreshed(Some(kept), inks, items, theme, generation, width);
            &&& fresh.generation == generation && fresh.width == width
            &&& kept.generation != generation || kept.width != width ==> after == fresh
            &&& kept.generation == generation && kept.width == width ==> after == kept
            &&& refreshed(Some(after), inks, items, theme, generation, width) == after
        }),
{
}

/// The end of the transcript is shown unless it is scrolled away from; scrolling up by a row
/// shows what is a row further up, and the top stays on top. There is more below exactly
/// where it is scrolled up.
pub proof fn law_scrolling_shows_what_is_further_up(
    c: LineCacheModel,
    theme: Theme,
    height: u16,
    scroll: u32,
)
    requires
        height > 0,
        scroll < u32::MAX,
    ensures
        ({
            let at = |n: u32| c.plan(OverlayModel::Closed, None, n, theme, height);
            &&& at(0).offset + height >= c.wrap_total
            &&& c.wrap_total >= height ==> at(0).offset + height == c.wrap_total
            &&& !at(0).more
            &&& at(scroll).offset > 0 ==> at((scroll + 1) as u32).offset == at(scroll).offset - 1
                && at((scroll + 1) as u32).more
            &&& at(scroll).offset == 0 ==> at((scroll + 1) as u32).offset == 0
            &&& at(scroll).lines == c.lines
            &&& at(scroll).more <==> at(scroll).offset < at(0).offset
        }),
{
}

/// A search shows the current match: its row is among those that are shown, and its lines
/// keep their text. Without a match the transcript is shown as without a search.
pub proof fn law_a_search_shows_its_match(
    c: LineCacheModel,
    query: Seq<char>,
    current: usize,
    theme: Theme,
    height: u16,
    scroll: u32,
)
    requires
        height > 0,
        query.len() > 0,
        c.lines.len() <= usize::MAX,
        c.line_wrap_starts.len() == c.lines.len(),
        forall|i: int|
            0 <= i < c.line_wrap_starts.len() ==> (#[trigger] c.line_wrap_starts[i]) < c.wrap_total,
    ensures
        ({
            let found = super::search::matching(c.lines, query);
            let search = OverlayModel::Search(crate::overlay::SearchStateModel { query, current });
            let plan = c.plan(search, None, scroll, theme, height);
            &&& found.len() == 0 ==> plan == c.plan(
                OverlayModel::Closed,
                None,
                scroll,
                theme,
                height,
            )
            &&& found.len() > 0 ==> {
                let k = if current < found.len() {
                    current as int
                } else {
                    found.len() - 1
                };
                let row = c.line_wrap_starts[found[k] as int];
                &&& plan.offset <= row < plan.offset + height
                &&& plan.lines.len() == c.lines.len()
                &&& forall|i: int|
                    0 <= i < c.lines.len() ==> (#[trigger] plan.lines[i]).text()
                        == c.lines[i].text()
            }
        }),
{
    let found = super::search::matching(c.lines, query);
    super::search::law_matches_are_the_lines_that_hold_it(c.lines, query);
    if found.len() > 0 {
        let k = if current < found.len() {
            current as int
        } else {
            found.len() - 1
        };
        assert(found[k] < c.lines.len());
        let row = c.line_wrap_starts[found[k] as int];
        super::scrollback::law_a_centered_row_shows(row, c.wrap_total, height);
        super::search::law_marking_keeps_the_text(c.lines, query, Some(found[k]), theme);
    }
}

/// The tool row in focus is marked in place of its margin: nothing moves, and nothing else of
/// its text changes.
pub proof fn law_the_focused_row_does_not_move(line: LineModel, rest: Seq<char>, theme: Theme)
    requires
        line.spans.len() > 0,
        line.spans[0].text == "  "@ + rest,
    ensures
        ({
            let b = barred(line, theme);
            &&& b.spans.len() == line.spans.len()
            &&& b.spans[0].text.len() == line.spans[0].text.len()
            &&& b.spans[0].text.skip(2) == rest
            &&& b.spans[0].style == theme.accent
            &&& forall|k: int|
                0 < k < line.spans.len() ==> #[trigger] b.spans[k] == line.spans[k]
            &&& b.spans[0].text != line.spans[0].text
        }),
{
    reveal_strlit("  ");
    reveal_strlit("▌ ");
    let t = "  "@ + rest;
    assert(t.subrange(0, 2) =~= "  "@);
    assert(t.skip(2) =~= rest);
    assert("▌ "@.len() == 2);
    let u = "▌ "@ + rest;
    assert(u.skip(2) =~= rest);
    assert(u[0] == '▌' && t[0] == ' ');
}

// ---------------------------------------------------------------------------
// Popups
// ---------------------------------------------------------------------------

/// A list shows each of its rows in order, the selected one marked and no other; an empty
/// list says so.
pub proof fn law_lists_show_their_rows(items: Seq<Seq<char>>, selected: usize, theme: Theme, i: int)
    requires
        0 <= i < items.len(),
        forall|k: int| 0 <= k < items[i].len() ==> (#[trigger] items[i][k]) != '\n',
    ensures
        list_rows(items, selected, theme).len() == items.len(),
        ({
            let row = list_rows(items, selected, theme)[i];
            &&& row.spans.len() == 1
            &&& row.spans[0].text.len() == items[i].len() + 2
            &&& row.spans[0].text.skip(2) == items[i]
            &&& i == selected <==> row.spans[0].text[0] == '>'
            &&& i == selected ==> row.spans[0].style == theme.selection
            &&& i != selected ==> row.spans[0].style == crate::theme::Style::spec_plain()
        }),
        list_rows(Seq::empty(), selected, theme).len() == 1,
{
    reveal_strlit("  ");
    reveal_strlit("> ");
    let a = "> "@ + items[i];
    let b = "  "@ + items[i];
    assert("> "@.len() == 2 && "  "@.len() == 2);
    assert(a.skip(2) =~= items[i]);
    assert(b.skip(2) =~= items[i]);
    assert(a[0] == '>' && b[0] == ' ');
    assert forall|k: int| 0 <= k < b.len() implies (#[trigger] b[k]) != '\n' by {
        if k >= 2 {
            assert(b[k] == items[i][k - 2]);
        }
    }
    assert(!b.contains('\n'));
    law_a_line_ends_at_its_feed(b, Seq::empty());
}

/// The palette shows what is typed and below it the entries that match, best first, each with
/// its label and its hint, the selected one marked as a whole.
pub proof fn law_the_palette_shows_its_matches(p: PaletteStateModel, width: u16, theme: Theme, k: int)
    requires
        0 <= k < matching(labels(), p.query, None).len(),
    ensures
        ({
            let found = matching(labels(), p.query, None);
            let rows = palette_rows(p, width, theme);
            let row = rows[k + 1];
            &&& rows.len() == found.len() + 1
            &&& row.spans.len() == 3
            &&& row.spans[0].text.skip(2) == label_at(found[k] as int)
            &&& tells(row.spans[2].text, seq![hint_at(found[k] as int)])
            &&& k == p.selected <==> row.spans[0].text[0] == '>'
            &&& k == p.selected ==> forall|j: int|
                0 <= j < 3 ==> (#[trigger] row.spans[j]).style == theme.selection
            &&& forall|j: int|
                0 <= j < row.spans[1].text.len() ==> (#[trigger] row.spans[1].text[j]) == ' '
        }),
{
    reveal_strlit("  ");
    reveal_strlit("> ");
    let found = matching(labels(), p.query, None);
    let label = label_at(found[k] as int);
    let hint = hint_at(found[k] as int);
    let a = "> "@ + label;
    let b = "  "@ + label;
    assert("> "@.len() == 2 && "  "@.len() == 2);
    assert(a.skip(2) =~= label);
    assert(b.skip(2) =~= label);
    assert(a[0] == '>' && b[0] == ' ');
    let h = hint + " "@;
    assert(h =~= Seq::<char>::empty() + hint + " "@);
    lemma_tells_one(h, Seq::empty(), hint, " "@);
    let rows = palette_rows(p, width, theme);
    assert(rows[k + 1] == command_row(label, hint, k == p.selected, width, theme));
}

/// The file picker shows the files that match, best first, the attached ones ticked, and the
/// selected one marked; it says when there is nothing to show, and when there is more.
pub proof fn law_the_file_picker_shows_its_matches(
    s: FilePickerStateModel,
    attachments: Seq<Seq<char>>,
    theme: Theme,
    k: int,
)
    requires
        !s.loading,
        0 <= k < matching(s.results, s.query, None).len(),
    ensures
        ({
            let found = matching(s.results, s.query, None);
            let path = s.results[found[k] as int];
            let rows = file_rows(s, attachments, theme);
            &&& rows.len() == found.len() + 1 + (if s.truncated {
                1int
            } else {
                0
            })
            &&& rows[k + 1] == file_row(path, attachments.contains(path), k == s.selected, theme)
            &&& k == s.selected ==> rows[k + 1].spans.len() == 1 && rows[k + 1].spans[0].style
                == theme.selection && rows[k + 1].spans[0].text.skip(4) == path
                && (rows[k + 1].spans[0].text[2] == '✓' <==> attachments.contains(path))
        }),
{
    reveal_strlit("> ");
    reveal_strlit("  ");
    reveal_strlit("✓ ");
    let found = matching(s.results, s.query, None);
    let path = s.results[found[k] as int];
    let a = "> "@ + ("✓ "@ + path);
    let b = "> "@ + ("  "@ + path);
    assert(a.skip(4) =~= path);
    assert(b.skip(4) =~= path);
    assert(a[2] == '✓' && b[2] == ' ');
}

/// A permission ask tells what is asked for and for what, and the keys that answer it.
pub proof fn law_a_permission_ask_tells_what_for(permission: Seq<char>, patterns: Seq<Seq<char>>)
    ensures
        tells(
            permission_question(permission, patterns),
            seq![permission, joined(patterns, ", "@)],
        ),
        tells(permission_question(permission, patterns), seq!["y once · a always · n reject"@]),
{
    let q = permission_question(permission, patterns);
    let keys = "\n\ny once · a always · n reject"@;
    lemma_tells_two(q, "allow `"@, permission, "`? "@, joined(patterns, ", "@), keys);
    reveal_strlit("\n\ny once · a always · n reject");
    reveal_strlit("y once · a always · n reject");
    let short = "y once · a always · n reject"@;
    assert(keys =~= keys.take(2) + short);
    let front = "allow `"@ + permission + "`? "@ + joined(patterns, ", "@) + keys.take(2);
    assert(q =~= front + short);
    lemma_tells_end(q, front, short);
}

/// A workflow's popup says what runs, on what and how it stands, and then a line for each task,
/// in the order of their numbers.
pub proof fn law_a_workflow_shows_its_tasks(w: WorkflowViewModel, width: u16, theme: Theme)
    ensures
        ({
            let rows = workflow_rows(w, width, theme);
            let state = if w.done is None {
                "running"@
            } else if w.done == Some(true) {
                "done"@
            } else {
                "failed"@
            };
            &&& rows.len() == task_order(w.tasks).len() + 2
            &&& rows[0].spans.len() == 1
            &&& tells(rows[0].spans[0].text, seq![w.kind, w.arg])
            &&& tells(rows[0].spans[0].text, seq![state])
            &&& forall|k: int|
                0 <= k < task_order(w.tasks).len() ==> {
                    let row = #[trigger] rows[k + 1];
                    let task = w.tasks[task_order(w.tasks)[k]];
                    &&& row.spans.len() == 1
                    &&& row.spans[0].style == task_look(task.0, theme).1
                }
        }),
{
    let rows = workflow_rows(w, width, theme);
    let state = match w.done {
        None => "running"@,
        Some(ok) => if ok {
            "done"@
        } else {
            "failed"@
        },
    };
    let head = w.kind + " · "@ + w.arg + " · "@ + state;
    assert(rows[0] == LineModel::of(head, theme.text));
    assert(head =~= Seq::<char>::empty() + w.kind + " · "@ + w.arg + (" · "@ + state));
    lemma_tells_two(head, Seq::empty(), w.kind, " · "@, w.arg, " · "@ + state);
    assert(head =~= (w.kind + " · "@ + w.arg + " · "@) + state);
    lemma_tells_end(head, w.kind + " · "@ + w.arg + " · "@, state);
}

/// A task that is done shows a tick, one that failed a cross, one that waits a dot, and any
/// other one that it is under way; white space and case do not matter. Concerns are told by
/// the style alone.
pub proof fn law_tasks_show_how_they_stand(status: Seq<char>, theme: Theme)
    ensures
        ({
            let s = lowered(trimmed(status));
            let look = task_look(status, theme);
            let over = s == "done"@ || s == "verified"@;
            let stuck = s == "failed"@ || s == "blocked"@ || s == "needs_context"@;
            &&& over ==> look.0 == '✔' && look.1 == theme.status_ok
            &&& stuck ==> look.0 == '✖' && look.1 == theme.status_err
            &&& s == "done_with_concerns"@ ==> look.0 == '✔' && look.1 == theme.status_warn
            &&& s == "pending"@ || s.len() == 0 ==> look.0 == '·' && look.1 == theme.text_muted
            &&& !over && !stuck && s != "done_with_concerns"@ && s != "pending"@ && s.len() > 0
                ==> look.0 == '⟳' && look.1 == theme.status_warn
        }),
{
    reveal_strlit("done");
    reveal_strlit("verified");
    reveal_strlit("failed");
    reveal_strlit("blocked");
    reveal_strlit("needs_context");
    reveal_strlit("done_with_concerns");
    reveal_strlit("pending");
    assert("done"@.len() == 4 && "verified"@.len() == 8 && "failed"@.len() == 6);
    assert("blocked"@.len() == 7 && "needs_context"@.len() == 13 && "done_with_concerns"@.len()
        == 18 && "pending"@.len() == 7);
    assert("blocked"@[0] != "pending"@[0]);
}

// ---------------------------------------------------------------------------
// Header and footer
// ---------------------------------------------------------------------------

/// A time is shown in minutes and seconds that add up to it, the minutes left out where there
/// are none, and the seconds with two digits behind minutes.
pub proof fn law_times_add_up(secs: nat) -> (r: (nat, nat))
    ensures
        secs == 60 * r.0 + r.1,
        r.1 < 60,
        r.0 == 0 ==> elapsed(secs) == decimal(r.1) + "s"@,
        r.0 > 0 && r.1 >= 10 ==> elapsed(secs) == decimal(r.0) + "m "@ + decimal(r.1) + "s"@,
        r.0 > 0 && r.1 < 10 ==> elapsed(secs) == decimal(r.0) + "m "@ + ("0"@ + decimal(r.1)) + "s"@,
{
    (secs / 60, secs % 60)
}

/// The spinner shows a frame that differs from the one before, and comes round after four.
pub proof fn law_the_spinner_spins(frame: usize)
    requires
        frame + 4 <= usize::MAX,
    ensures
        spinner((frame + 1) as usize) != spinner(frame),
        spinner((frame + 2) as usize) != spinner(frame),
        spinner((frame + 3) as usize) != spinner(frame),
        spinner((frame + 4) as usize) == spinner(frame),
{
    reveal_strlit("⠋");
    reveal_strlit("⠙");
    reveal_strlit("⠹");
    reveal_strlit("⠸");
    assert("⠋"@[0] == '⠋' && "⠙"@[0] == '⠙' && "⠹"@[0] == '⠹' && "⠸"@[0] == '⠸');
}

/// The status says what it is, in the style of an error where it is one, and as a wait with a
/// spinner and the time where something is waited for. A transient message takes its place
/// only where neither is.
pub proof fn law_the_status_is_told(
    status: Seq<char>,
    frame: usize,
    ticks: u32,
    flash: Option<FlashModel>,
    theme: Theme,
)
    ensures
        ({
            let shown = header_status(status, frame, ticks, flash, theme);
            let failed = "error"@.is_prefix_of(trimmed(status));
            &&& failed ==> shown.style == theme.status_err && tells(
                shown.text,
                seq![trimmed(status)],
            )
            &&& !failed && waits(status) ==> shown.style == theme.status_warn && tells(
                shown.text,
                seq![spinner(frame), trimmed(status)],
            ) && tells(
                shown.text,
                seq![trimmed(status), elapsed((ticks / crate::state::TICKS_PER_SEC) as nat)],
            )
            &&& !failed && !waits(status) && flash is None ==> shown.style == theme.status_ok
                && tells(shown.text, seq![trimmed(status)])
            &&& !failed && !waits(status) && flash is Some ==> tells(
                shown.text,
                seq![flash->0.msg],
            ) && (flash->0.kind == FlashKind::Warning ==> shown.style == theme.status_warn) && (
            flash->0.kind == FlashKind::Success ==> shown.style == theme.accent)
        }),
{
    let w = trimmed(status);
    let e = elapsed((ticks / crate::state::TICKS_PER_SEC) as nat);
    let sp = spinner(frame);
    lemma_tells_one("● "@ + w + " "@, "● "@, w, " "@);
    let line = sp + " ● "@ + w + " "@ + e + " "@;
    assert(line =~= Seq::<char>::empty() + sp + " ● "@ + w + (" "@ + e + " "@));
    lemma_tells_two(line, Seq::empty(), sp, " ● "@, w, " "@ + e + " "@);
    assert(line =~= (sp + " ● "@) + w + " "@ + e + " "@);
    lemma_tells_two(line, sp + " ● "@, w, " "@, e, " "@);
    if flash is Some {
        let m = flash->0.msg;
        lemma_tells_one("✓ "@ + m + " "@, "✓ "@, m, " "@);
        lemma_tells_one("⚠ "@ + m + " "@, "⚠ "@, m, " "@);
    }
}

/// The header tells the session, the agent, the model and the permission mode, in this order,
/// and leaves out from the end only what does not fit; the rest of the line is blank, and the
/// status stands at its end.
pub proof fn law_the_header_leaves_out_what_does_not_fit(
    session: Seq<char>,
    agent: Seq<char>,
    model: Seq<char>,
    mode: Seq<char>,
    right: crate::render::SpanModel,
    width: u16,
    theme: Theme,
)
    ensures
        ({
            let all = header_meta(session, agent, model, mode);
            let left = first_fitting(all, right.text, width as nat);
            let line = header_of(left, right, width, theme);
            &&& tells(all[0], seq![session, agent]) && tells(all[0], seq![model, mode])
            &&& tells(all[1], seq![agent, model])
            &&& tells(all[2], seq![session, agent])
            &&& tells(all[3], seq![session])
            &&& both_cells(all[0], right.text) <= width ==> left == all[0]
            &&& forall|k: int|
                0 <= k < all.len() && left == all[k] && (forall|j: int|
                    0 <= j < k ==> (#[trigger] all[j]) != left) ==> forall|j: int|
                    0 <= j < k ==> both_cells(#[trigger] all[j], right.text) > width
            &&& all.contains(left)
            &&& line.spans.len() == 4
            &&& line.spans[3] == right
            &&& left.len() >= 5 ==> line.spans[0].text + line.spans[1].text == left
            &&& both_cells(left, right.text) <= width ==> line.spans[2].text.len() + both_cells(
                left,
                right.text,
            ) == width
            &&& forall|k: int|
                0 <= k < line.spans[2].text.len() ==> (#[trigger] line.spans[2].text[k]) == ' '
        }),
{
    let all = header_meta(session, agent, model, mode);
    let left = first_fitting(all, right.text, width as nat);
    let tail = " · "@ + model + " · mode:"@ + mode + " "@;
    assert(all[0] =~= " otto · "@ + session + " · "@ + agent + tail);
    lemma_tells_two(all[0], " otto · "@, session, " · "@, agent, tail);
    let head = " otto · "@ + session + " · "@ + agent + " · "@;
    assert(all[0] =~= head + model + " · mode:"@ + mode + " "@);
    lemma_tells_two(all[0], head, model, " · mode:"@, mode, " "@);
    assert(all[1] =~= (" otto · "@ + session + " · "@) + agent + " · "@ + model + " "@);
    lemma_tells_two(all[1], " otto · "@ + session + " · "@, agent, " · "@, model, " "@);
    lemma_tells_two(all[2], " otto · "@, session, " · "@, agent, " "@);
    lemma_tells_one(all[3], " otto · "@, session, " "@);
    reveal_with_fuel(first_fitting, 6);
    let a1 = all.drop_first();
    let a2 = a1.drop_first();
    let a3 = a2.drop_first();
    let a4 = a3.drop_first();
    assert(a1[0] == all[1] && a2[0] == all[2] && a3[0] == all[3] && a4[0] == all[4]);
    if left.len() >= 5 {
        assert(left.take(5) + left.skip(5) =~= left);
    }
}

proof fn lemma_base_name(dir: Seq<char>, name: Seq<char>)
    requires
        forall|i: int| 0 <= i < name.len() ==> (#[trigger] name[i]) != '/',
        dir.len() == 0 || dir.last() == '/',
    ensures
        base_name(dir + name) == name,
    decreases name.len(),
{
    if name.len() == 0 {
        assert(dir + name =~= dir);
    } else {
        let front = name.drop_last();
        assert forall|i: int| 0 <= i < front.len() implies (#[trigger] front[i]) != '/' by {
            assert(front[i] == name[i]);
        }
        lemma_base_name(dir, front);
        assert((dir + name).drop_last() =~= dir + front);
        assert((dir + name).last() == name[name.len() - 1]);
        assert(front.push(name.last()) =~= name);
    }
}

/// An attachment is shown by its name, without the folders that it is in, and the chip says
/// how many there are.
pub proof fn law_attachments_show_their_names(dirs: Seq<Seq<char>>, names: Seq<Seq<char>>)
    requires
        dirs.len() == names.len(),
        forall|i: int|
            0 <= i < dirs.len() ==> (#[trigger] dirs[i]).len() == 0 || dirs[i].last() == '/',
        forall|i: int, k: int|
            0 <= i < names.len() && 0 <= k < names[i].len() ==> (#[trigger] names[i][k]) != '/',
    ensures
        tells(
            chip(Seq::new(dirs.len(), |i: int| dirs[i] + names[i])),
            seq![joined(names, ", "@), decimal(names.len())],
        ),
{
    let paths = Seq::new(dirs.len(), |i: int| dirs[i] + names[i]);
    let bases = paths.map_values(|p: Seq<char>| base_name(p));
    assert forall|i: int| 0 <= i < names.len() implies #[trigger] bases[i] == names[i] by {
        let d = dirs[i];
        lemma_base_name(d, names[i]);
    }
    assert(bases =~= names);
    let text = chip(paths);
    lemma_tells_two(text, "📎 "@, joined(names, ", "@), " ("@, decimal(names.len()), ")"@);
}

/// The todo panel shows the todos from the first on, each with the sign of how it stands; what
/// does not fit is counted in the last line, and nothing is counted where all fit.
pub proof fn law_todos_show_how_they_stand(
    todos: Seq<TodoItemModel>,
    rows: u16,
    width: u16,
    theme: Theme,
    i: int,
)
    requires
        rows > 0,
        0 <= i < todos.len(),
    ensures
        ({
            let lines = todo_lines(todos, rows, width, theme);
            let shown = if todos.len() <= rows {
                todos.len() as int
            } else {
                rows - 1
            };
            &&& lines.len() == shown + (if todos.len() > rows {
                1int
            } else {
                0
            })
            &&& todos.len() > rows ==> tells(
                lines[shown].spans[0].text,
                seq![decimal((todos.len() - shown) as nat)],
            )
            &&& i < shown ==> {
                let text = lines[i].spans[0].text;
                let status = todos[i].status;
                &&& lines[i].spans.len() == 1
                &&& text.len() >= 2
                &&& status == TodoStatus::Completed <==> text[0] == '✓'
                &&& status == TodoStatus::InProgress <==> text[0] == '•'
                &&& status == TodoStatus::Cancelled <==> text[0] == '✗'
                &&& status == TodoStatus::Pending <==> text[0] == ' '
                &&& crate::input::str_cells(todos[i].content) + 2 <= width ==> text.skip(2)
                    == todos[i].content
            }
        }),
{
    reveal_strlit("✓ ");
    reveal_strlit("• ");
    reveal_strlit("  ");
    reveal_strlit("✗ ");
    assert("✓ "@.len() == 2 && "• "@.len() == 2 && "  "@.len() == 2 && "✗ "@.len() == 2);
    let lines = todo_lines(todos, rows, width, theme);
    let shown = todos_shown(todos.len(), rows) as int;
    if todos.len() > rows {
        let n = decimal((todos.len() - shown) as nat);
        lemma_tells_one("  +"@ + n + " more"@, "  +"@, n, " more"@);
    }
    if i < shown {
        let text = lines[i].spans[0].text;
        let look = super::footer::todo_look(todos[i].status, theme);
        let room = if width < 2 {
            0nat
        } else {
            (width - 2) as nat
        };
        let body = super::header::truncated(todos[i].content, room);
        assert(todos.take(shown)[i] == todos[i]);
        assert(text == look.0 + body);
        assert(text[0] == look.0[0]);
        assert(text.skip(2) =~= body);
    }
}

/// The share of the context is muted while there is room, warns when it runs low and alarms
/// when it is nearly gone.
pub proof fn law_a_full_context_alarms(pct: u8, theme: Theme)
    ensures
        pct < 70 ==> share_style(pct, theme) == theme.text_muted,
        70 <= pct <= 90 ==> share_style(pct, theme) == theme.status_warn,
        pct > 90 ==> share_style(pct, theme) == theme.status_err,
{
}

/// The usage tells the tokens of the message, then the cost, then the tokens of the session,
/// each where it is known.
pub proof fn law_usage_is_told_in_order(tokens: Seq<char>, cost: Seq<char>, session: Seq<char>)
    ensures
        tells(usage_text(tokens, Some(cost), Some(session)), seq![tokens, cost]),
        tells(usage_text(tokens, Some(cost), Some(session)), seq![cost, session]),
        tells(usage_text(tokens, None, Some(session)), seq![tokens, session]),
        tells(usage_text(tokens, Some(cost), None), seq![tokens, cost]),
        usage_text(tokens, None, None) == tokens + " tok"@,
{
    reveal_with_fuel(joined, 4);
    let first = tokens + " tok"@;
    let dot = " · "@;
    let one = seq![first];
    assert(joined(one, dot) =~= first);
    let two = one.push("$"@ + cost);
    assert(two.drop_last() =~= one);
    assert(joined(two, dot) =~= first + dot + ("$"@ + cost));
    let three = two.push("Σ "@ + session);
    assert(three.drop_last() =~= two);
    let full = joined(three, dot);
    assert(full =~= first + dot + ("$"@ + cost) + dot + ("Σ "@ + session));
    let e = Seq::<char>::empty();
    assert(full =~= e + tokens + (" tok"@ + dot + "$"@) + cost + (dot + "Σ "@ + session));
    lemma_tells_two(full, e, tokens, " tok"@ + dot + "$"@, cost, dot + "Σ "@ + session);
    assert(full =~= (first + dot + "$"@) + cost + (dot + "Σ "@) + session + e);
    lemma_tells_two(full, first + dot + "$"@, cost, dot + "Σ "@, session, e);
    let other = one.push("Σ "@ + session);
    assert(other.drop_last() =~= one);
    let brief = joined(other, dot);
    assert(brief =~= e + tokens + (" tok"@ + dot + "Σ "@) + session + e);
    lemma_tells_two(brief, e, tokens, " tok"@ + dot + "Σ "@, session, e);
    let priced = joined(two, dot);
    assert(priced =~= e + tokens + (" tok"@ + dot + "$"@) + cost + e);
    lemma_tells_two(priced, e, tokens, " tok"@ + dot + "$"@, cost, e);
}

/// The search bar tells what is searched for and which match of how many is shown, counted
/// from one; with none found both are zero.
pub proof fn law_the_search_bar_counts_from_one(
    query: Seq<char>,
    current: usize,
    found: nat,
    theme: Theme,
) -> (at: nat)
    ensures
        ({
            let line = search_bar(query, current, found, theme);
            &&& line.spans.len() == 3
            &&& line.spans[1].text == query
            &&& tells(line.spans[2].text, seq![decimal(at), decimal(found)])
            &&& found == 0 ==> at == 0
            &&& found > 0 ==> 1 <= at <= found
            &&& current < found ==> at == current + 1
        }),
{
    let at = if found == 0 {
        0
    } else if current < found {
        (current + 1) as nat
    } else {
        found
    };
    let text = "    "@ + decimal(at) + "/"@ + decimal(found);
    assert(text =~= "    "@ + decimal(at) + "/"@ + decimal(found) + Seq::empty());
    lemma_tells_two(text, "    "@, decimal(at), "/"@, decimal(found), Seq::empty());
    at
}

// ---------------------------------------------------------------------------
// The screen
// ---------------------------------------------------------------------------

/// What is open has its popup, on top of everything and within the screen; the editor has the
/// cursor only where nothing is open.
pub proof fn law_what_is_open_is_on_top(s: AppModel, area: Rect, row: Rect)
    requires
        area.x + area.width <= u16::MAX,
        area.y + area.height <= u16::MAX,
    ensures
        s.popup(area) is Some <==> s.overlay is Help || s.overlay is Permission
            || s.overlay is Sessions || s.overlay is Models || s.overlay is Agents
            || s.overlay is Palette || s.overlay is TextInput || s.overlay is Files || (
        s.overlay is WorkflowStatus && s.workflow is Some),
        s.popup(area) matches Some(p) ==> p.wipes && p.border is Some && area.x <= p.area.x
            && p.area.x + p.area.width <= area.x + area.width && area.y <= p.area.y && p.area.y
            + p.area.height <= area.y + area.height,
        s.cursor(row) is Some <==> s.overlay is Closed,
{
}

/// The popup of a list lists what it is a list of: sessions by their titles, or by their names
/// where they have none, models and agents by their names, in order.
pub proof fn law_popups_list_what_they_name(s: AppModel, area: Rect)
    ensures
        s.overlay is Sessions ==> {
            let names = Seq::new(
                s.sessions.len(),
                |i: int|
                    if s.sessions[i].title is Some {
                        s.sessions[i].title->0
                    } else {
                        s.sessions[i].id
                    },
            );
            s.popup(area)->0.lines == list_rows(names, s.selected, s.themes[0])
        },
        s.overlay is Agents ==> s.popup(area)->0.lines == list_rows(
            Seq::new(s.agents.len(), |i: int| s.agents[i].name),
            s.selected,
            s.themes[0],
        ),
        s.overlay is Models ==> s.popup(area)->0.lines == list_rows(
            Seq::new(s.models.len(), |i: int| s.models[i].id()),
            s.selected,
            s.themes[0],
        ),
        s.overlay matches OverlayModel::Palette(p) ==> exists|w: u16|
            s.popup(area)->0.lines == #[trigger] palette_rows(p, w, s.themes[0]),
        s.overlay matches OverlayModel::Files(f) ==> s.popup(area)->0.lines == file_rows(
            f,
            s.attachments,
            s.themes[0],
        ),
{
    if s.overlay is Sessions {
        let names = Seq::new(
            s.sessions.len(),
            |i: int|
                if s.sessions[i].title is Some {
                    s.sessions[i].title->0
                } else {
                    s.sessions[i].id
                },
        );
        assert(s.sessions.map_values(
            |x: crate::client::SessionInfoModel| super::session_name(x),
        ) =~= names);
    }
    if s.overlay is Agents {
        assert(s.agents.map_values(|a: crate::client::AgentInfoModel| a.name) =~= Seq::new(
            s.agents.len(),
            |i: int| s.agents[i].name,
        ));
    }
    if s.overlay is Models {
        assert(s.models.map_values(|m: crate::client::ModelChoiceModel| m.id()) =~= Seq::new(
            s.models.len(),
            |i: int| s.models[i].id(),
        ));
    }
    if let OverlayModel::Palette(p) = s.overlay {
        let w = super::within(super::min16(50, area.width));
        assert(s.popup(area)->0.lines == palette_rows(p, w, s.themes[0]));
    }
}

/// The todo panel's title counts what is done of how many.
pub proof fn law_the_todo_panel_counts(s: AppModel, area: Rect)
    ensures
        s.todos_collapsed ==> s.todo_pane(area).border is None,
        !s.todos_collapsed ==> s.todo_pane(area).border is Some && tells(
            s.todo_pane(area).border->0.title,
            seq![decimal(crate::state::completed(s.todos)), decimal(s.todos.len())],
        ),
{
    let done = decimal(crate::state::completed(s.todos));
    let all = decimal(s.todos.len());
    let title = " Todos "@ + (done + "/"@ + all) + " "@;
    assert(title =~= " Todos "@ + done + "/"@ + all + " "@);
    lemma_tells_two(title, " Todos "@, done, "/"@, all, " "@);
}

/// The hints say that there is more below where there is, offer the keys of a workflow while
/// one runs, and end with the usage where it is known.
pub proof fn law_hints_say_what_can_be_done(
    empty: bool,
    more: bool,
    runs: bool,
    usage: Seq<char>,
)
    ensures
        hint_text(empty, true, runs, None) == "▼ more · "@ + hint_text(empty, false, runs, None),
        hint_text(empty, more, true, None) == hint_text(empty, more, false, None)
            + " · ctrl+x cancel · ctrl+w status"@,
        hint_text(empty, more, runs, Some(usage)) == hint_text(empty, more, runs, None) + "  ·  "@
            + usage,
        hint_text(true, false, false, None) == super::footer::HINTS_EMPTY@,
        hint_text(false, false, false, None) == super::footer::HINTS_TYPING@,
{
    let keys = if empty {
        super::footer::HINTS_EMPTY@
    } else {
        super::footer::HINTS_TYPING@
    };
    let chords = " · ctrl+x cancel · ctrl+w status"@;
    assert(("▼ more · "@ + keys) + chords =~= "▼ more · "@ + (keys + chords));
}

/// A task's line tells its number, its sign, its state and what was noted, where there is room
/// for it.
pub proof fn law_a_task_is_told(
    index: u32,
    status: Seq<char>,
    notes: Seq<char>,
    width: u16,
    theme: Theme,
)
    requires
        trimmed(notes).len() > 0,
    ensures
        ({
            let line = task_line(index, status, notes, width, theme);
            let text = " task "@ + decimal(index as nat) + "  "@.push(task_look(status, theme).0)
                + " "@ + status + " ("@ + notes + ")"@;
            &&& line.spans.len() == 1
            &&& crate::input::str_cells(text) <= width ==> tells(
                line.spans[0].text,
                seq![decimal(index as nat), status],
            ) && tells(line.spans[0].text, seq![status, notes])
        }),
{
    let sign = "  "@.push(task_look(status, theme).0);
    let n = decimal(index as nat);
    let text = " task "@ + n + sign + " "@ + status + " ("@ + notes + ")"@;
    assert(text =~= " task "@ + n + (sign + " "@) + status + (" ("@ + notes + ")"@));
    lemma_tells_two(text, " task "@, n, sign + " "@, status, " ("@ + notes + ")"@);
    assert(text =~= (" task "@ + n + sign + " "@) + status + " ("@ + notes + ")"@);
    lemma_tells_two(text, " task "@ + n + sign + " "@, status, " ("@, notes, ")"@);
}

/// The line of what goes on tells what the running call does, and for how long the server has
/// been waited for, where there is room for it.
pub proof fn law_what_goes_on_is_told(
    name: Seq<char>,
    title: Seq<char>,
    frame: usize,
    ticks: u32,
    width: u16,
    theme: Theme,
)
    ensures
        ({
            let line = activity_line(Some((name, title)), frame, ticks, width, theme);
            let time = elapsed((ticks / crate::state::TICKS_PER_SEC) as nat);
            let what = crate::narration::activity(name, title);
            let text = spinner(frame) + " "@ + what + "… ("@ + time + ")"@;
            &&& line.spans.len() == 1 && line.spans[0].style == theme.accent
            &&& crate::input::str_cells(text) <= width ==> tells(
                line.spans[0].text,
                seq![what, time],
            )
        }),
{
    let time = elapsed((ticks / crate::state::TICKS_PER_SEC) as nat);
    let what = crate::narration::activity(name, title);
    let text = spinner(frame) + " "@ + what + "… ("@ + time + ")"@;
    assert(text =~= (spinner(frame) + " "@) + what + "… ("@ + time + ")"@);
    lemma_tells_two(text, spinner(frame) + " "@, what, "… ("@, time, ")"@);
}

/// The screen shows the header on top, the transcript below it, then the todos, the
/// attachments and what goes on, each where there is any, then the editor or the search, and
/// the hints at the bottom.
pub proof fn law_the_screen_has_its_order(
    s: AppModel,
    inks: Inks,
    cache: LineCacheModel,
    area: Rect,
    rows: Seq<Rect>,
    usage: Option<Seq<char>>,
    pct: Option<u8>,
)
    requires
        rows.len() == 7,
    ensures
        ({
            let panes = s.laid_out(inks, cache, area, rows, usage, pct).panes;
            let todos = super::footer::todo_height(s.todos, s.todos_collapsed, area.height) > 0;
            let chips = s.attachments.len() > 0;
            let busy = waits(s.status);
            let n = 2 + (if todos {
                1int
            } else {
                0
            }) + (if chips {
                1int
            } else {
                0
            }) + (if busy {
                1int
            } else {
                0
            });
            &&& panes.len() == n + 2 + (if s.popup(area) is Some {
                1int
            } else {
                0
            })
            &&& panes[0].area == rows[0] && panes[0].lines == seq![s.header(rows[0].width)]
            &&& panes[1].area == rows[1]
            &&& todos ==> panes[2].area == rows[2]
            &&& chips ==> panes[if todos {
                3int
            } else {
                2
            }].area == rows[3]
            &&& busy ==> panes[n - 1].area == rows[4] && panes[n - 1].lines == seq![
                s.activity(rows[4].width),
            ]
            &&& panes[n].area == rows[5] && panes[n].border is Some
            &&& panes[n + 1].area == rows[6]
            &&& s.popup(area) is Some ==> panes.last() == s.popup(area)->0
        }),
{
}

/// The editor's box holds all rows of the text and its border, at least one row, and no more
/// than it may take.
pub proof fn law_the_box_holds_the_text(rows: nat)
    ensures
        3 <= box_height(rows) <= INPUT_CAP,
        1 <= rows && rows + 2 <= INPUT_CAP ==> box_height(rows) == rows + 2,
        rows + 2 > INPUT_CAP ==> box_height(rows) == INPUT_CAP,
{
}

/// The cursor stands within the box, behind the margin, on the row and at the column where the
/// text goes on.
pub proof fn law_the_cursor_is_in_the_box(
    e: crate::input::EditorModel,
    x: u16,
    y: u16,
    width: u16,
    height: u16,
)
    requires
        width >= 6,
        height >= 3,
        x + width <= u16::MAX,
        y + height <= u16::MAX,
    ensures
        ({
            let r = cursor_at(e, x, y, width, height);
            let at = e.visual(super::inner_width(width));
            let first = first_row(at.0, (height - 2) as u16);
            &&& x < r.0 < x + width - 1
            &&& y < r.1 < y + height - 1
            &&& r.1 == y + 1 + at.0 - first
            &&& 3 + at.1 <= width - 2 ==> r.0 == x + 3 + at.1
        }),
{
}

/// The editor shows the rows around the cursor, each with the text that it holds; the first one
/// shown has the prompt's mark.
pub proof fn law_the_editor_shows_its_rows(
    e: crate::input::EditorModel,
    width: u16,
    visible: u16,
    theme: Theme,
    i: int,
)
    requires
        0 <= i < input_rows(e, width, visible, theme).len(),
    ensures
        ({
            let rows = crate::input::visual_rows(e.at.lines, width);
            let first = first_row(e.visual(width).0, visible);
            let shown = input_rows(e, width, visible, theme);
            let row = rows[first + i];
            &&& shown.len() <= visible
            &&& first + shown.len() <= rows.len()
            &&& first + shown.len() == rows.len() || shown.len() == visible
            &&& shown[i].spans.len() == 2
            &&& shown[i].spans[1].text == e.at.lines[row.logical_row as int].subrange(
                row.start as int,
                row.end as int,
            )
            &&& i == 0 <==> shown[i].spans[0].text == "▌ "@
        }),
{
    reveal_strlit("▌ ");
    reveal_strlit("  ");
    assert("▌ "@[0] != "  "@[0]);
}

/// The todos take no room where nothing is left to do, a row where they are folded, and else as
/// much as they need with their border, up to a third of the screen.
pub proof fn law_todos_take_the_room_they_need(
    todos: Seq<TodoItemModel>,
    collapsed: bool,
    height: u16,
)
    ensures
        ({
            let h = todo_height(todos, collapsed, height);
            let open = exists|i: int|
                0 <= i < todos.len() && ((#[trigger] todos[i]).status == TodoStatus::Pending
                    || todos[i].status == TodoStatus::InProgress);
            &&& !open <==> h == 0
            &&& open && collapsed ==> h == 1
            &&& open && !collapsed ==> h <= todos.len() + 2 && (h == todos.len() + 2 || 3 * (h + 1)
                > height) && (h > 3 ==> 3 * h <= height)
        }),
{
    if exists|i: int|
        0 <= i < todos.len() && ((#[trigger] todos[i]).status == TodoStatus::Pending
            || todos[i].status == TodoStatus::InProgress) {
        let i = choose|i: int|
            0 <= i < todos.len() && ((#[trigger] todos[i]).status == TodoStatus::Pending
                || todos[i].status == TodoStatus::InProgress);
        assert(crate::state::unfinished(todos[i]));
    }
}

/// The line that asks for a text shows what was typed, with a cursor behind it.
pub proof fn law_a_typed_text_shows(t: TextInputStateModel, theme: Theme)
    ensures
        ({
            let rows = text_input_rows(t, theme);
            &&& rows.len() == 2
            &&& rows[0].spans.len() == 2
            &&& rows[0].spans[0].text == "> "@ + t.query
            &&& rows[0].spans[1].text == "▌"@
        }),
{
}

/// On a screen that is too small nothing but that is said; a splash that fits stands alone.
/// Neither has a cursor.
pub proof fn law_small_screens_say_so(
    s: AppModel,
    kept: Option<LineCacheModel>,
    inks: Inks,
    area: Rect,
    rows: Seq<Rect>,
    usage: Option<Seq<char>>,
    pct: Option<u8>,
)
    ensures
        ({
            let screen = s.screen(kept, inks, area, rows, usage, pct);
            let small = area.width < super::MIN_COLS || area.height < super::MIN_ROWS;
            let splashes = s.splash is Some && crate::splash::fitting(
                crate::splash::ART@,
                area.width,
                area.height,
            ) != crate::splash::SplashVariant::Hidden;
            &&& small || splashes ==> screen.panes.len() == 1 && screen.cursor is None
            &&& small ==> screen.panes[0].area == area && screen.panes[0].centered
            &&& !small && splashes ==> screen.panes[0].wipes && screen.panes[0].lines
                == crate::splash::splash_lines(
                crate::splash::ART@,
                crate::splash::fitting(crate::splash::ART@, area.width, area.height),
                s.themes[0],
            )
            &&& !small && !splashes ==> screen.panes.len() >= 4
        }),
{
}

/// A tool row in focus is shown and marked: its first row is among those that are shown, its
/// lines are marked and no others, and there is more below exactly where the end is not shown.
pub proof fn law_the_focused_row_shows(
    c: LineCacheModel,
    item: usize,
    scroll: u32,
    theme: Theme,
    height: u16,
)
    requires
        height > 0,
        item < c.item_line_starts.len(),
        c.item_line_starts[item as int] < c.lines.len(),
        c.line_wrap_starts.len() == c.lines.len(),
        forall|i: int|
            0 <= i < c.line_wrap_starts.len() ==> (#[trigger] c.line_wrap_starts[i]) < c.wrap_total,
    ensures
        ({
            let plan = c.plan(OverlayModel::Closed, Some(item), scroll, theme, height);
            let start = c.item_line_starts[item as int] as int;
            let end = if item + 1 < c.item_line_starts.len() {
                c.item_line_starts[item + 1] as int
            } else {
                c.lines.len() as int
            };
            let row = c.line_wrap_starts[start];
            &&& plan.offset <= row < plan.offset + height
            &&& plan.lines.len() == c.lines.len()
            &&& forall|i: int|
                0 <= i < c.lines.len() && start <= i < end ==> #[trigger] plan.lines[i] == barred(
                    c.lines[i],
                    theme,
                )
            &&& forall|i: int|
                0 <= i < c.lines.len() && !(start <= i < end) ==> #[trigger] plan.lines[i]
                    == c.lines[i]
            &&& plan.more <==> plan.offset + height < c.wrap_total
        }),
{
    let start = c.item_line_starts[item as int] as int;
    super::scrollback::law_a_centered_row_shows(c.line_wrap_starts[start], c.wrap_total, height);
}

/// The transcript is drawn from the row that is to be on top: the lines from the one that this
/// row is in, without the rows of it that are further up. Where there is no transcript, the
/// screen says so.
pub proof fn law_the_transcript_is_drawn_from_its_row(
    s: AppModel,
    c: LineCacheModel,
    area: Rect,
    width: u16,
)
    requires
        c.lines.len() > 0,
        c.line_wrap_starts == Seq::new(
            c.lines.len(),
            |i: int| super::scrollback::clipped(super::scrollback::rows_before(c.lines, i, width)),
        ),
        s.overlay is Closed,
        s.tool_cursor is None,
    ensures
        s.transcript.len() == 0 ==> s.transcript_pane(c, area).0.lines == super::popups::plain_lines(
            super::PLACEHOLDER@,
        ) && s.transcript_pane(c, area).0.centered && !s.transcript_pane(c, area).1,
        s.transcript.len() > 0 ==> {
            let pane = s.transcript_pane(c, area).0;
            let plan = c.plan(s.overlay, s.tool_cursor, s.scroll, s.themes[0], area.height);
            &&& pane.area == area
            &&& exists|k: int|
                0 <= k < c.lines.len() && pane.lines == #[trigger] c.lines.skip(k)
                    && c.line_wrap_starts[k] <= plan.offset && (plan.offset - c.line_wrap_starts[k]
                    <= u16::MAX ==> c.line_wrap_starts[k] + pane.scroll == plan.offset)
            &&& s.transcript_pane(c, area).1 == plan.more
        },
{
    if s.transcript.len() > 0 {
        let pane = s.transcript_pane(c, area).0;
        let plan = c.plan(s.overlay, s.tool_cursor, s.scroll, s.themes[0], area.height);
        super::scrollback::law_the_window_starts_at_the_row(c.lines, width, plan.offset);
        let k = super::scrollback::line_at(c.line_wrap_starts, plan.offset) as int;
        assert(pane.lines == c.lines.skip(k));
    }
}

/// The usage is told where the message's tokens are known, with the session's tokens once there
/// are any.
pub proof fn law_the_usage_is_told(
    s: AppModel,
    tokens: Seq<char>,
    cost: Option<Seq<char>>,
    session: Seq<char>,
)
    ensures
        s.usage is None ==> s.usage_line(tokens, cost, session) is None,
        s.usage matches Some(u) ==> {
            let known = u.total_tokens is Some || (u.input_tokens is Some
                && u.output_tokens is Some);
            &&& s.usage_line(tokens, cost, session) is Some <==> known
            &&& known && s.session_tokens == (0u64, 0u64) ==> s.usage_line(tokens, cost, session)
                == Some(usage_text(tokens, cost, None))
            &&& known && s.session_tokens.0 + s.session_tokens.1 > 0 ==> s.usage_line(
                tokens,
                cost,
                session,
            ) == Some(usage_text(tokens, cost, Some(session)))
            &&& u.total_tokens matches Some(t) ==> s.message_total() == Some(t as int)
            &&& u.total_tokens is None && u.input_tokens is Some && u.output_tokens is Some
                ==> s.message_total() == Some(u.input_tokens->0 + u.output_tokens->0)
        },
{
}

/// A box is as high as its rows and what is around them, as far as the screen is.
pub proof fn law_boxes_hold_their_rows(rows: usize, around: u16, height: u16, r: u16)
    requires
        call_ensures(super::popups::box_rows, (rows, around, height), r),
    ensures
        r <= height,
        rows + around <= height ==> r == rows + around,
        rows + around > height ==> r == height,
{
}

/// While no call runs, one of the words tells that something goes on, and the same one for as
/// long as a word stays.
pub proof fn law_a_word_stays_a_while(a: u32, b: u32, r: &str)
    requires
        a / super::header::ROTATE_TICKS == b / super::header::ROTATE_TICKS,
        call_ensures(
            crate::narration::narration_word,
            ((a / super::header::ROTATE_TICKS) as u32,),
            r,
        ),
    ensures
        super::header::doing(None, a) == super::header::doing(None, b),
        super::header::doing(None, a) == r@,
        exists|i: int|
            0 <= i < crate::narration::WORD_COUNT && r@ == #[trigger] crate::narration::word(i),
{
    let n = crate::narration::WORD_COUNT as int;
    let i = crate::narration::scrambled((a / super::header::ROTATE_TICKS) as u32) as int % n;
    assert(0 <= i < n);
    assert(r@ == crate::narration::word(i));
}

/// The help popup holds the help, and a permission ask its question.
pub proof fn law_text_popups_hold_their_text(s: AppModel, area: Rect)
    ensures
        s.overlay is Help ==> s.popup(area)->0.lines == super::popups::plain_lines(
            super::HELP_FULL@,
        ),
        s.overlay matches OverlayModel::Permission(p) ==> s.popup(area)->0.lines
            == super::popups::plain_lines(permission_question(p.permission, p.patterns)),
        s.overlay matches OverlayModel::TextInput(t) ==> s.popup(area)->0.lines
            == text_input_rows(t, s.themes[0]) && tells(
            s.popup(area)->0.border->0.title,
            seq![t.title],
        ),
        s.overlay is WorkflowStatus && s.workflow is Some ==> exists|w: u16|
            s.popup(area)->0.lines == #[trigger] workflow_rows(s.workflow->0, w, s.themes[0]),
{
    if let OverlayModel::TextInput(t) = s.overlay {
        lemma_tells_one(" "@ + t.title + " "@, " "@, t.title, " "@);
    }
    if s.overlay is WorkflowStatus && s.workflow is Some {
        let w = super::within(super::min16(60, area.width));
        assert(s.popup(area)->0.lines == workflow_rows(s.workflow->0, w, s.themes[0]));
    }
}

} // verus!
