//! A tool call's transcript rows: one line, or with its arguments, output or diff.

use super::diff::{colored_diff, compute_diff, diff_style, render_diff, unified_diff};
use super::{add_line, add_lines, Line, LineModel, Span, SpanModel};
use crate::json::{contents, contents_opt, member_string, rendered, to_text, Json};
use crate::text::{begins_with, cat, contains, has, lines, lines_of, same};
use crate::theme::{Style, Theme};
use crate::transcript::ToolStatus;
use vstd::prelude::*;
use vstd::string::*;

verus! {

/// How many lines of output an expanded row shows.
pub const OUTPUT_LINES: usize = 40;

/// Six columns.
pub open spec fn margin() -> Seq<char> {
    "      "@
}

/// The sign of a status.
pub open spec fn status_sign(status: ToolStatus) -> Seq<char> {
    match status {
        ToolStatus::Running => "⋯"@,
        ToolStatus::Success => "✓"@,
        ToolStatus::Error => "✗"@,
    }
}

/// The style of a status.
pub open spec fn status_style(status: ToolStatus, theme: Theme) -> Style {
    match status {
        ToolStatus::Running => theme.status_warn,
        ToolStatus::Success => theme.status_ok,
        ToolStatus::Error => theme.status_err,
    }
}

/// The first line of a tool row: a caret that tells whether the detail shows, the
/// sign of the status, and the title.
pub open spec fn head_line(
    status: ToolStatus,
    title: Seq<char>,
    expanded: bool,
    selected: bool,
    theme: Theme,
) -> LineModel {
    let caret = if expanded {
        "▾ "@
    } else {
        "▸ "@
    };
    LineModel {
        spans: seq![
            if selected {
                SpanModel { text: "▌ "@ + caret, style: theme.accent }
            } else {
                SpanModel { text: "  "@ + caret, style: theme.text }
            },
            SpanModel { text: status_sign(status), style: status_style(status, theme) },
            SpanModel { text: " "@ + title, style: theme.text },
        ],
    }
}

/// The diff of a tool call: that of an edit's old and new text, or an output that
/// looks like a diff.
pub open spec fn diff_of(name: Seq<char>, input: Option<Json>, output: Option<Seq<char>>) -> Option<
    Seq<char>,
> {
    if name == "edit"@ && input is Some && input->0.text_member("oldString"@) is Some
        && input->0.text_member("newString"@) is Some {
        Some(
            unified_diff(
                input->0.text_member("oldString"@)->0,
                input->0.text_member("newString"@)->0,
                "old"@,
                "new"@,
            ),
        )
    } else {
        match output {
            Some(o) => if has(o, "@@"@) || "---"@.is_prefix_of(o) {
                Some(o)
            } else {
                None
            },
            None => None,
        }
    }
}

/// A line moved to the right.
pub open spec fn indented(l: LineModel) -> LineModel {
    LineModel { spans: seq![SpanModel::raw(margin())] + l.spans }
}

/// The first lines of an output, moved to the right.
pub open spec fn output_lines(output: Seq<char>, theme: Theme) -> Seq<LineModel> {
    let all = lines_of(output);
    let n = if all.len() < OUTPUT_LINES {
        all.len()
    } else {
        OUTPUT_LINES as nat
    };
    Seq::new(n, |i: int| LineModel::of(margin() + all[i], theme.text_muted))
}

/// Whether a tool changes files.
pub open spec fn changes_files(name: Seq<char>) -> bool {
    name == "edit"@ || name == "write"@ || name == "apply_patch"@
}

/// The detail of a tool row: the diff of a tool that changes files, else the
/// output, else the arguments.
pub open spec fn detail(
    name: Seq<char>,
    input: Option<Json>,
    output: Option<Seq<char>>,
    theme: Theme,
) -> Seq<LineModel> {
    if changes_files(name) && diff_of(name, input, output) is Some {
        colored_diff(diff_of(name, input, output)->0, theme).map_values(|l: LineModel| indented(l))
    } else {
        match output {
            Some(o) => output_lines(o, theme),
            None => match input {
                Some(i) => seq![LineModel::of(margin() + rendered(i), theme.text_muted)],
                None => Seq::empty(),
            },
        }
    }
}

/// The lines of a tool row.
pub open spec fn tool_lines(
    name: Seq<char>,
    status: ToolStatus,
    title: Seq<char>,
    input: Option<Json>,
    output: Option<Seq<char>>,
    expanded: bool,
    selected: bool,
    theme: Theme,
) -> Seq<LineModel> {
    let head = seq![head_line(status, title, expanded, selected, theme)];
    if expanded {
        head + detail(name, input, output, theme)
    } else {
        head
    }
}

/// Builds the first line of a tool row.
fn head(status: ToolStatus, title: &str, expanded: bool, selected: bool, theme: &Theme) -> (r: Line)
    ensures
        r.deep_view() == head_line(status, title@, expanded, selected, *theme),
{
    let caret: &str = if expanded {
        "▾ "
    } else {
        "▸ "
    };
    let prefix = if selected {
        Span::styled(cat("▌ ", caret), theme.accent)
    } else {
        Span::styled(cat("  ", caret), theme.text)
    };
    let sign = match status {
        ToolStatus::Running => Span::styled("⋯".to_owned(), theme.status_warn),
        ToolStatus::Success => Span::styled("✓".to_owned(), theme.status_ok),
        ToolStatus::Error => Span::styled("✗".to_owned(), theme.status_err),
    };
    let r = Line::triple(prefix, sign, Span::styled(cat(" ", title), theme.text));
    assert(r.deep_view().spans =~= head_line(status, title@, expanded, selected, *theme).spans);
    r
}

/// The diff of a tool call, if it has one.
fn diff_for(name: &str, input: &Option<serde_json::Value>, output: &Option<String>) -> (r: Option<
    String,
>)
    ensures
        r.deep_view() == diff_of(name@, contents_opt(*input), output.deep_view()),
{
    if same(name, "edit") {
        if let Some(i) = input {
            if let Some(o) = member_string(i, "oldString") {
                if let Some(n) = member_string(i, "newString") {
                    return Some(compute_diff(o.as_str(), n.as_str()));
                }
            }
        }
    }
    match output {
        Some(o) => {
            if contains(o.as_str(), "@@") || begins_with(o.as_str(), "---") {
                Some(o.clone())
            } else {
                None
            }
        },
        None => None,
    }
}

/// Moves a line to the right.
fn indent(line: Line) -> (r: Line)
    ensures
        r.deep_view() == indented(line.deep_view()),
{
    let ghost before = line.deep_view().spans;
    let mut spans: Vec<Span> = Vec::new();
    spans.push(Span::raw("      ".to_owned()));
    let mut rest = line.spans;
    spans.append(&mut rest);
    let r = Line { spans };
    assert(r.deep_view().spans =~= seq![SpanModel::raw(margin())] + before);
    r
}

/// Moves lines to the right.
fn indent_all(ls: Vec<Line>) -> (r: Vec<Line>)
    ensures
        r.deep_view() == ls.deep_view().map_values(|l: LineModel| indented(l)),
{
    let ghost all = ls.deep_view();
    let ghost f = |l: LineModel| indented(l);
    let mut out: Vec<Line> = Vec::new();
    let mut i: usize = 0;
    assert(out.deep_view() =~= all.take(0).map_values(f));
    while i < ls.len()
        invariant
            i <= ls@.len(),
            all == ls.deep_view(),
            f == (|l: LineModel| indented(l)),
            out.deep_view() == all.take(i as int).map_values(f),
        decreases ls@.len() - i,
    {
        proof {
            assert(all[i as int] == ls@[i as int].deep_view());
            assert(all.take(i + 1).map_values(f) =~= all.take(i as int).map_values(f).push(
                f(all[i as int]),
            ));
        }
        add_line(&mut out, indent(ls[i].clone()));
        i += 1;
    }
    assert(all.take(i as int) =~= all);
    out
}

/// The first lines of an output.
fn first_lines(output: &str, theme: &Theme) -> (r: Vec<Line>)
    ensures
        r.deep_view() == output_lines(output@, *theme),
{
    let ls = lines(output);
    let ghost all = lines_of(output@);
    let n: usize = if ls.len() < OUTPUT_LINES {
        ls.len()
    } else {
        OUTPUT_LINES
    };
    let mut out: Vec<Line> = Vec::new();
    let mut i: usize = 0;
    while i < n
        invariant
            i <= n <= ls@.len(),
            all == ls.deep_view(),
            out.deep_view() == Seq::new(
                i as nat,
                |k: int| LineModel::of(margin() + all[k], theme.text_muted),
            ),
        decreases n - i,
    {
        let ghost before = out.deep_view();
        add_line(&mut out, Line::of(cat("      ", ls[i].as_str()), theme.text_muted));
        proof {
            assert(all[i as int] == ls@[i as int]@);
            assert(out.deep_view() =~= Seq::new(
                (i + 1) as nat,
                |k: int| LineModel::of(margin() + all[k], theme.text_muted),
            ));
        }
        i += 1;
    }
    assert(out.deep_view() =~= output_lines(output@, *theme));
    out
}

/// The detail of a tool row.
fn detail_lines(
    name: &str,
    input: &Option<serde_json::Value>,
    output: &Option<String>,
    theme: &Theme,
) -> (r: Vec<Line>)
    ensures
        r.deep_view() == detail(name@, contents_opt(*input), output.deep_view(), *theme),
{
    if same(name, "edit") || same(name, "write") || same(name, "apply_patch") {
        if let Some(d) = diff_for(name, input, output) {
            return indent_all(render_diff(d.as_str(), theme));
        }
    }
    let mut out: Vec<Line> = Vec::new();
    assert(out.deep_view() =~= Seq::<LineModel>::empty());
    match output {
        Some(o) => {
            return first_lines(o.as_str(), theme);
        },
        None => {
            if let Some(i) = input {
                add_line(&mut out, Line::of(cat("      ", to_text(i).as_str()), theme.text_muted));
                assert(out.deep_view() =~= seq![
                    LineModel::of(margin() + rendered(contents(*i)), theme.text_muted),
                ]);
            }
        },
    }
    out
}

/// Renders a tool call: one line, or, where it is expanded, with its diff, output
/// or arguments below.
#[must_use]
pub fn render_tool(
    name: &str,
    status: ToolStatus,
    title: &str,
    input: &Option<serde_json::Value>,
    output: &Option<String>,
    expanded: bool,
    selected: bool,
    theme: &Theme,
) -> (r: Vec<Line>)
    ensures
        r.deep_view() == tool_lines(
            name@,
            status,
            title@,
            contents_opt(*input),
            output.deep_view(),
            expanded,
            selected,
            *theme,
        ),
{
    let mut out: Vec<Line> = Vec::new();
    add_line(&mut out, head(status, title, expanded, selected, theme));
    let ghost h = seq![head_line(status, title@, expanded, selected, *theme)];
    assert(out.deep_view() =~= h);
    if expanded {
        add_lines(&mut out, detail_lines(name, input, output, theme));
    }
    out
}

// ---------------------------------------------------------------------------
// Laws of tool rows
// ---------------------------------------------------------------------------

/// Whether an output reads as a diff.
pub open spec fn reads_as_diff(output: Seq<char>) -> bool {
    has(output, "@@"@) || "---"@.is_prefix_of(output)
}

/// A tool row begins with its title, marked with what the call came to and whether its
/// detail shows. A folded row is that line alone.
pub proof fn law_a_tool_row_is_headed_by_its_title(
    name: &str,
    status: ToolStatus,
    title: &str,
    input: &Option<serde_json::Value>,
    output: &Option<String>,
    expanded: bool,
    selected: bool,
    theme: &Theme,
    r: Vec<Line>,
)
    requires
        call_ensures(
            render_tool,
            (name, status, title, input, output, expanded, selected, theme),
            r,
        ),
    ensures
        r@.len() >= 1,
        !expanded ==> r@.len() == 1,
        ({
            let spans = r@[0].deep_view().spans;
            &&& spans.len() == 3
            &&& spans[0].text == (if selected {
                "▌ "@
            } else {
                "  "@
            }) + (if expanded {
                "▾ "@
            } else {
                "▸ "@
            })
            &&& spans[0].style == if selected {
                theme.accent
            } else {
                theme.text
            }
            &&& status == ToolStatus::Running ==> spans[1].text == "⋯"@ && spans[1].style
                == theme.status_warn
            &&& status == ToolStatus::Success ==> spans[1].text == "✓"@ && spans[1].style
                == theme.status_ok
            &&& status == ToolStatus::Error ==> spans[1].text == "✗"@ && spans[1].style
                == theme.status_err
            &&& spans[2].text == " "@ + title@
            &&& spans[2].style == theme.text
        }),
{
    let all = r.deep_view();
    assert(all.len() == r@.len());
    assert(all[0] == head_line(status, title@, expanded, selected, *theme));
    assert(all[0] == r@[0].deep_view());
}

/// An unfolded row shows the first lines of the output, at most forty, each on a line of
/// its own behind six columns, in the order of the output. A tool that changes files shows
/// an output that is no diff so too.
pub proof fn law_output_shows_line_by_line(
    name: &str,
    status: ToolStatus,
    title: &str,
    input: &Option<serde_json::Value>,
    output: &Option<String>,
    selected: bool,
    theme: &Theme,
    text: String,
    r: Vec<Line>,
)
    requires
        call_ensures(
            render_tool,
            (name, status, title, input, output, true, selected, theme),
            r,
        ),
        *output == Some(text),
        name@ == "edit"@ ==> (match contents_opt(*input) {
            Some(i) => !(i.member("oldString"@) matches Some(Json::Text(_))),
            None => true,
        }),
        (name@ == "edit"@ || name@ == "write"@ || name@ == "apply_patch"@) ==> !reads_as_diff(
            text@,
        ),
    ensures
        r@.len() == 1 + (if lines_of(text@).len() < 40 {
            lines_of(text@).len()
        } else {
            40
        }),
        forall|i: int|
            0 <= i && i + 1 < r@.len() ==> {
                let spans = (#[trigger] r@[i + 1]).deep_view().spans;
                &&& spans.len() == 1
                &&& spans[0].text == "      "@ + lines_of(text@)[i]
                &&& spans[0].style == theme.text_muted
            },
{
    let all = r.deep_view();
    assert(all.len() == r@.len());
    assert forall|i: int| 0 <= i && i + 1 < r@.len() implies {
        let spans = (#[trigger] r@[i + 1]).deep_view().spans;
        &&& spans.len() == 1
        &&& spans[0].text == "      "@ + lines_of(text@)[i]
        &&& spans[0].style == theme.text_muted
    } by {
        assert(all[i + 1] == r@[i + 1].deep_view());
        assert(all[i + 1] == output_lines(text@, *theme)[i]);
    }
}

/// An unfolded row of a call that has no output yet shows its arguments as JSON; without
/// those it is the head alone.
pub proof fn law_arguments_show_until_there_is_output(
    name: &str,
    status: ToolStatus,
    title: &str,
    input: &Option<serde_json::Value>,
    selected: bool,
    theme: &Theme,
    r: Vec<Line>,
)
    requires
        call_ensures(
            render_tool,
            (name, status, title, input, &None::<String>, true, selected, theme),
            r,
        ),
        name@ != "edit"@,
    ensures
        input is None ==> r@.len() == 1,
        input is Some ==> r@.len() == 2 && r@[1].deep_view().spans.len() == 1
            && r@[1].deep_view().spans[0].text == "      "@ + rendered(contents(input->0)),
{
    let all = r.deep_view();
    assert(all.len() == r@.len());
    if input is Some {
        assert(all[1] == r@[1].deep_view());
    }
}

/// Whether `line` shows the line `l` of a diff behind six columns.
pub open spec fn shows_diff_line(line: LineModel, l: Seq<char>, theme: Theme) -> bool {
    &&& line.spans.len() == 2
    &&& line.spans[0].text == "      "@
    &&& line.spans[1].text == l
    &&& l.len() > 0 && l[0] == '+' ==> line.spans[1].style == theme.diff_add
    &&& l.len() > 0 && l[0] == '-' ==> line.spans[1].style == theme.diff_del
    &&& l.len() > 1 && l[0] == '@' && l[1] == '@' ==> line.spans[1].style == theme.diff_hunk
    &&& l.len() == 0 || l[0] == ' ' ==> line.spans[1].style == theme.diff_ctx
}

/// An unfolded edit shows the diff from its old text to its new one; another tool that
/// changes files shows an output that reads as a diff. All its lines show, in order, in the
/// colors of what was added and removed.
pub proof fn law_changes_show_as_a_diff(
    name: &str,
    status: ToolStatus,
    title: &str,
    input: &Option<serde_json::Value>,
    output: &Option<String>,
    selected: bool,
    theme: &Theme,
    diff: Seq<char>,
    r: Vec<Line>,
)
    requires
        call_ensures(
            render_tool,
            (name, status, title, input, output, true, selected, theme),
            r,
        ),
        ({
            let old_text = contents_opt(*input)->0.member("oldString"@);
            let new_text = contents_opt(*input)->0.member("newString"@);
            ||| name@ == "edit"@ && input is Some && old_text is Some && old_text->0 is Text
                && new_text is Some && new_text->0 is Text && diff == unified_diff(
                old_text->0->Text_0,
                new_text->0->Text_0,
                "old"@,
                "new"@,
            )
            ||| (name@ == "write"@ || name@ == "apply_patch"@) && output is Some && diff
                == output->0@ && reads_as_diff(diff)
        }),
    ensures
        r@.len() == 1 + lines_of(diff).len(),
        forall|i: int|
            0 <= i && i + 1 < r@.len() ==> shows_diff_line(
                (#[trigger] r@[i + 1]).deep_view(),
                lines_of(diff)[i],
                *theme,
            ),
{
    assert("edit"@ != "write"@ && "edit"@ != "apply_patch"@) by {
        reveal_strlit("edit");
        reveal_strlit("write");
        reveal_strlit("apply_patch");
        assert("edit"@.len() == 4 && "write"@.len() == 5 && "apply_patch"@.len() == 11);
    }
    let all = r.deep_view();
    assert(all.len() == r@.len());
    assert(diff_of(name@, contents_opt(*input), output.deep_view()) == Some(diff));
    let shown = colored_diff(diff, *theme).map_values(|l: LineModel| indented(l));
    reveal_strlit("+");
    reveal_strlit("-");
    reveal_strlit("@@");
    assert forall|i: int| 0 <= i && i + 1 < r@.len() implies shows_diff_line(
        (#[trigger] r@[i + 1]).deep_view(),
        lines_of(diff)[i],
        *theme,
    ) by {
        let l = lines_of(diff)[i];
        assert(all[i + 1] == r@[i + 1].deep_view());
        assert(all[i + 1] == shown[i]);
        assert(shown[i] == indented(LineModel::of(l, diff_style(l, *theme))));
        assert("+"@.is_prefix_of(l) ==> l[0] == '+') by {
            assert("+"@[0] == '+');
        }
        assert("-"@.is_prefix_of(l) ==> l[0] == '-') by {
            assert("-"@[0] == '-');
        }
        assert("@@"@.is_prefix_of(l) ==> l[0] == '@') by {
            assert("@@"@[0] == '@');
        }
        if l.len() > 0 && l[0] == '+' {
            assert("+"@.is_prefix_of(l));
        }
        if l.len() > 0 && l[0] == '-' {
            assert("-"@.is_prefix_of(l));
        }
        if l.len() > 1 && l[0] == '@' && l[1] == '@' {
            assert("@@"@.is_prefix_of(l));
        }
    }
}

} // verus!
