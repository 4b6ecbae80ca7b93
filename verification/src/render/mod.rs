//! Renderers: texts and values in, styled lines out.

pub mod diff;
pub mod highlight;
pub mod markdown;
pub mod tool;

use crate::text::{lines, lines_of};
use crate::theme::Style;
use vstd::prelude::*;
use vstd::string::*;

verus! {

/// A run of text in one style.
#[derive(Debug, PartialEq)]
pub struct Span {
    pub text: String,
    pub style: Style,
}

/// The value of a [`Span`].
#[verifier::ext_equal]
pub struct SpanModel {
    pub text: Seq<char>,
    pub style: Style,
}

impl DeepView for Span {
    type V = SpanModel;

    open spec fn deep_view(&self) -> SpanModel {
        SpanModel {
            text: self.text.deep_view(),
            style: self.style,
        }
    }
}

impl Clone for Span {
    fn clone(&self) -> (r: Self)
        ensures
            r.deep_view() == self.deep_view(),
    {
        Span {
            text: self.text.clone(),
            style: self.style,
        }
    }
}

/// Copies of the items of `v`.
pub fn copy_spans(v: &[Span]) -> (r: Vec<Span>)
    ensures
        r.deep_view() == v.deep_view(),
{
    let mut out: Vec<Span> = Vec::new();
    let mut i: usize = 0;
    while i < v.len()
        invariant
            i <= v@.len(),
            out.deep_view() == v.deep_view().take(i as int),
        decreases v@.len() - i,
    {
        let ghost before = out.deep_view();
        out.push(v[i].clone());
        assert(out.deep_view() =~= before.push(v@[i as int].deep_view()));
        assert(v.deep_view().take(i + 1) =~= before.push(v@[i as int].deep_view()));
        i += 1;
    }
    assert(v.deep_view().take(i as int) =~= v.deep_view());
    out
}

/// A line of styled text.
#[derive(Debug, PartialEq)]
pub struct Line {
    pub spans: Vec<Span>,
}

/// The value of a [`Line`].
#[verifier::ext_equal]
pub struct LineModel {
    pub spans: Seq<SpanModel>,
}

impl DeepView for Line {
    type V = LineModel;

    open spec fn deep_view(&self) -> LineModel {
        LineModel {
            spans: self.spans.deep_view(),
        }
    }
}

impl Clone for Line {
    fn clone(&self) -> (r: Self)
        ensures
            r.deep_view() == self.deep_view(),
    {
        Line {
            spans: copy_spans(&self.spans),
        }
    }
}

/// Copies of the items of `v`.
pub fn copy_lines(v: &[Line]) -> (r: Vec<Line>)
    ensures
        r.deep_view() == v.deep_view(),
{
    let mut out: Vec<Line> = Vec::new();
    let mut i: usize = 0;
    while i < v.len()
        invariant
            i <= v@.len(),
            out.deep_view() == v.deep_view().take(i as int),
        decreases v@.len() - i,
    {
        let ghost before = out.deep_view();
        out.push(v[i].clone());
        assert(out.deep_view() =~= before.push(v@[i as int].deep_view()));
        assert(v.deep_view().take(i + 1) =~= before.push(v@[i as int].deep_view()));
        i += 1;
    }
    assert(v.deep_view().take(i as int) =~= v.deep_view());
    out
}

impl SpanModel {
    /// Text in the style that changes nothing.
    pub open spec fn raw(text: Seq<char>) -> SpanModel {
        SpanModel { text, style: Style::spec_plain() }
    }
}

impl LineModel {
    /// A line of one run.
    pub open spec fn of(text: Seq<char>, style: Style) -> LineModel {
        LineModel { spans: seq![SpanModel { text, style }] }
    }

    /// A line of text in the style that changes nothing: a run for each line that
    /// the text has, none where it is empty.
    pub open spec fn raw(text: Seq<char>) -> LineModel {
        LineModel { spans: lines_of(text).map_values(|l: Seq<char>| SpanModel::raw(l)) }
    }

    /// The text of a line, without styles.
    pub open spec fn text(self) -> Seq<char>
        decreases self.spans.len(),
    {
        if self.spans.len() == 0 {
            Seq::empty()
        } else {
            (LineModel { spans: self.spans.drop_last() }).text() + self.spans.last().text
        }
    }
}

impl Span {
    pub fn styled(text: String, style: Style) -> (r: Span)
        ensures
            r.deep_view() == (SpanModel { text: text@, style }),
    {
        Span { text, style }
    }

    /// Text in the style that changes nothing.
    pub fn raw(text: String) -> (r: Span)
        ensures
            r.deep_view() == SpanModel::raw(text@),
    {
        Span { text, style: Style::plain() }
    }
}

impl Line {
    /// A line of one run.
    pub fn of(text: String, style: Style) -> (r: Line)
        ensures
            r.deep_view() == LineModel::of(text@, style),
    {
        let mut spans: Vec<Span> = Vec::new();
        spans.push(Span { text, style });
        let r = Line { spans };
        assert(r.deep_view().spans =~= LineModel::of(text@, style).spans);
        r
    }

    /// A line of text in the style that changes nothing: a run for each line that
    /// the text has, none where it is empty.
    pub fn raw(text: &str) -> (r: Line)
        ensures
            r.deep_view() == LineModel::raw(text@),
    {
        let ls = lines(text);
        let ghost all = ls.deep_view();
        let ghost f = |l: Seq<char>| SpanModel::raw(l);
        let mut spans: Vec<Span> = Vec::new();
        let mut i: usize = 0;
        assert(spans.deep_view() =~= all.take(0).map_values(f));
        while i < ls.len()
            invariant
                i <= ls@.len(),
                all == ls.deep_view(),
                f == (|l: Seq<char>| SpanModel::raw(l)),
                spans.deep_view() == all.take(i as int).map_values(f),
            decreases ls@.len() - i,
        {
            proof {
                assert(all[i as int] == ls@[i as int]@);
                assert(all.take(i + 1).map_values(f) =~= all.take(i as int).map_values(f).push(
                    f(all[i as int]),
                ));
            }
            add_span(&mut spans, Span::raw(ls[i].clone()));
            i += 1;
        }
        assert(all.take(i as int) =~= all);
        Line { spans }
    }

    /// A line of two runs.
    pub fn pair(a: Span, b: Span) -> (r: Line)
        ensures
            r.deep_view() == (LineModel { spans: seq![a.deep_view(), b.deep_view()] }),
    {
        let mut spans: Vec<Span> = Vec::new();
        spans.push(a);
        spans.push(b);
        let r = Line { spans };
        assert(r.deep_view().spans =~= seq![a.deep_view(), b.deep_view()]);
        r
    }

    /// A line of three runs.
    pub fn triple(a: Span, b: Span, c: Span) -> (r: Line)
        ensures
            r.deep_view() == (LineModel {
                spans: seq![a.deep_view(), b.deep_view(), c.deep_view()],
            }),
    {
        let mut spans: Vec<Span> = Vec::new();
        spans.push(a);
        spans.push(b);
        spans.push(c);
        let r = Line { spans };
        assert(r.deep_view().spans =~= seq![a.deep_view(), b.deep_view(), c.deep_view()]);
        r
    }

    /// The text of a line, without styles.
    pub fn text(&self) -> (r: String)
        ensures
            r@ == self.deep_view().text(),
    {
        let ghost all = self.deep_view().spans;
        let mut out = String::new();
        let mut i: usize = 0;
        while i < self.spans.len()
            invariant
                i <= self.spans@.len(),
                all == self.deep_view().spans,
                out@ == (LineModel { spans: all.take(i as int) }).text(),
            decreases self.spans@.len() - i,
        {
            proof {
                assert(all.take(i + 1).drop_last() =~= all.take(i as int));
                assert(all.take(i + 1).last() == self.spans@[i as int].deep_view());
            }
            out.append(self.spans[i].text.as_str());
            i += 1;
        }
        assert(all.take(i as int) =~= all);
        out
    }
}

/// Appends one run.
pub(crate) fn add_span(out: &mut Vec<Span>, span: Span)
    ensures
        final(out).deep_view() == old(out).deep_view().push(span.deep_view()),
{
    let ghost before = out.deep_view();
    let ghost m = span.deep_view();
    out.push(span);
    assert(out.deep_view() =~= before.push(m));
}

/// Appends one line.
pub(crate) fn add_line(out: &mut Vec<Line>, line: Line)
    ensures
        final(out).deep_view() == old(out).deep_view().push(line.deep_view()),
{
    let ghost before = out.deep_view();
    let ghost m = line.deep_view();
    out.push(line);
    assert(out.deep_view() =~= before.push(m));
}

/// Appends lines.
pub(crate) fn add_lines(out: &mut Vec<Line>, mut more: Vec<Line>)
    ensures
        final(out).deep_view() == old(out).deep_view() + more.deep_view(),
{
    let ghost a = out.deep_view();
    let ghost b = more.deep_view();
    out.append(&mut more);
    assert(out.deep_view() =~= a + b);
}

} // verus!
