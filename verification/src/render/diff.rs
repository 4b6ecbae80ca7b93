//! Unified diffs: computing them, and coloring them.

use super::{add_line, Line, LineModel};
use crate::text::{begins_with, lines, lines_of};
use crate::theme::{Style, Theme};
use vstd::prelude::*;

verus! {

/// The style of a line of a unified diff: added, removed, the head of a hunk, or
/// context.
pub open spec fn diff_style(line: Seq<char>, theme: Theme) -> Style {
    if "+"@.is_prefix_of(line) {
        theme.diff_add
    } else if "-"@.is_prefix_of(line) {
        theme.diff_del
    } else if "@@"@.is_prefix_of(line) {
        theme.diff_hunk
    } else {
        theme.diff_ctx
    }
}

/// The lines of a unified diff, colored.
pub open spec fn colored_diff(diff: Seq<char>, theme: Theme) -> Seq<LineModel> {
    lines_of(diff).map_values(|l: Seq<char>| LineModel::of(l, diff_style(l, theme)))
}

/// Colors a unified diff: one run per line.
#[must_use]
pub fn render_diff(diff: &str, theme: &Theme) -> (r: Vec<Line>)
    ensures
        r.deep_view() == colored_diff(diff@, *theme),
{
    let ls = lines(diff);
    let ghost all = lines_of(diff@);
    let ghost f = |l: Seq<char>| LineModel::of(l, diff_style(l, *theme));
    let mut out: Vec<Line> = Vec::new();
    let mut i: usize = 0;
    assert(out.deep_view() =~= all.take(0).map_values(f));
    while i < ls.len()
        invariant
            i <= ls@.len(),
            all == ls.deep_view(),
            f == (|l: Seq<char>| LineModel::of(l, diff_style(l, *theme))),
            out.deep_view() == all.take(i as int).map_values(f),
        decreases ls@.len() - i,
    {
        let l = ls[i].as_str();
        let style = if begins_with(l, "+") {
            theme.diff_add
        } else if begins_with(l, "-") {
            theme.diff_del
        } else if begins_with(l, "@@") {
            theme.diff_hunk
        } else {
            theme.diff_ctx
        };
        proof {
            assert(all[i as int] == l@);
            assert(all.take(i + 1).map_values(f) =~= all.take(i as int).map_values(f).push(f(l@)));
        }
        add_line(&mut out, Line::of(ls[i].clone(), style));
        i += 1;
    }
    assert(all.take(i as int) =~= all);
    out
}

/// The unified diff that leads from one text to another, line by line, under
/// their names.
pub uninterp spec fn unified_diff(
    old_text: Seq<char>,
    new_text: Seq<char>,
    old_name: Seq<char>,
    new_name: Seq<char>,
) -> Seq<char>;

/// `similar::TextDiff::from_lines` and its unified form with the two names as the
/// header: a text that depends on the texts and the names alone.
#[verifier::external_body]
fn line_diff(old_text: &str, new_text: &str, old_name: &str, new_name: &str) -> (r: String)
    ensures
        r@ == unified_diff(old_text@, new_text@, old_name@, new_name@),
{
    let diff = similar::TextDiff::from_lines(old_text, new_text);
    let text = diff.unified_diff().header(old_name, new_name).to_string();
    text
}

/// The diff from one text to another, under the names `old` and `new`.
#[must_use]
pub fn compute_diff(old_text: &str, new_text: &str) -> (r: String)
    ensures
        r@ == unified_diff(old_text@, new_text@, "old"@, "new"@),
{
    line_diff(old_text, new_text, "old", "new")
}

/// A diff is shown line by line, each line whole and in the style of what it tells: an
/// addition, a removal, the head of a hunk, or neither.
pub proof fn law_a_diff_is_shown_line_by_line(diff: &str, theme: &Theme, r: Vec<Line>)
    requires
        call_ensures(render_diff, (diff, theme), r),
    ensures
        r@.len() == lines_of(diff@).len(),
        forall|i: int|
            0 <= i < r@.len() ==> {
                let line = lines_of(diff@)[i];
                let shown = (#[trigger] r@[i]).deep_view();
                &&& shown.spans.len() == 1
                &&& shown.spans[0].text == line
                &&& line.len() > 0 && line[0] == '+' ==> shown.spans[0].style == theme.diff_add
                &&& line.len() > 0 && line[0] == '-' ==> shown.spans[0].style == theme.diff_del
                &&& line.len() > 1 && line[0] == '@' && line[1] == '@' ==> shown.spans[0].style
                    == theme.diff_hunk
                &&& line.len() == 0 || (line[0] != '+' && line[0] != '-' && line[0] != '@')
                    ==> shown.spans[0].style == theme.diff_ctx
                &&& line.len() == 1 && line[0] == '@' ==> shown.spans[0].style == theme.diff_ctx
            },
{
    reveal_strlit("+");
    reveal_strlit("-");
    reveal_strlit("@@");
    let all = r.deep_view();
    assert(all.len() == r@.len());
    assert forall|i: int| 0 <= i < r@.len() implies {
        let line = lines_of(diff@)[i];
        let shown = (#[trigger] r@[i]).deep_view();
        &&& shown.spans.len() == 1
        &&& shown.spans[0].text == line
        &&& line.len() > 0 && line[0] == '+' ==> shown.spans[0].style == theme.diff_add
        &&& line.len() > 0 && line[0] == '-' ==> shown.spans[0].style == theme.diff_del
        &&& line.len() > 1 && line[0] == '@' && line[1] == '@' ==> shown.spans[0].style
            == theme.diff_hunk
        &&& line.len() == 0 || (line[0] != '+' && line[0] != '-' && line[0] != '@')
            ==> shown.spans[0].style == theme.diff_ctx
        &&& line.len() == 1 && line[0] == '@' ==> shown.spans[0].style == theme.diff_ctx
    } by {
        let line = lines_of(diff@)[i];
        assert(all[i] == r@[i].deep_view());
        lemma_begins(line, "+"@, '+');
        lemma_begins(line, "-"@, '-');
        if line.len() > 1 {
            if line[0] == '@' && line[1] == '@' {
                assert(line.subrange(0, 2) =~= "@@"@);
            }
        }
        if "@@"@.is_prefix_of(line) {
            assert(line.subrange(0, 2)[0] == '@');
            assert(line.subrange(0, 2)[0] == line[0]);
        }
    }
}

proof fn lemma_begins(line: Seq<char>, p: Seq<char>, c: char)
    requires
        p.len() == 1,
        p[0] == c,
    ensures
        p.is_prefix_of(line) <==> line.len() > 0 && line[0] == c,
{
    if line.len() > 0 {
        assert(line.subrange(0, 1)[0] == line[0]);
        if line[0] == c {
            assert(line.subrange(0, 1) =~= p);
        }
    }
}

} // verus!
