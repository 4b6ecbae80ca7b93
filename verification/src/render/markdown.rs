//! Markdown as styled lines.

use super::highlight::{highlight, highlighted, Highlighter, Inks};
use super::{add_line, Line, LineModel, Span, SpanModel};
use crate::theme::Style;
use pulldown_cmark::{CodeBlockKind, Event, Options, Parser, Tag, TagEnd};
use vstd::prelude::*;
use vstd::string::*;

verus! {

#[verifier::external_type_specification]
#[verifier::external_body]
pub struct ExTagEnd(TagEnd);

/// The elements of a markdown text that are told apart.
#[derive(Clone, Copy, Debug, PartialEq, Eq, Structural)]
pub enum MdTag {
    Heading,
    Paragraph,
    Emphasis,
    Strong,
    List,
    Item,
    Quote,
    Code,
    Other,
}

/// The parts of a markdown text.
#[derive(Debug, PartialEq)]
pub enum MdEvent {
    Start(MdTag),
    /// A fenced code block starts, with its language; empty where it names none.
    Fence(String),
    End(MdTag),
    Text(String),
    /// Code within a line.
    Code(String),
    Break,
    Other,
}

/// The value of an [`MdEvent`].
#[verifier::ext_equal]
pub enum MdEventModel {
    Start(MdTag),
    Fence(Seq<char>),
    End(MdTag),
    Text(Seq<char>),
    Code(Seq<char>),
    Break,
    Other,
}

impl DeepView for MdEvent {
    type V = MdEventModel;

    open spec fn deep_view(&self) -> MdEventModel {
        match self {
            MdEvent::Start(t) => MdEventModel::Start(*t),
            MdEvent::Fence(l) => MdEventModel::Fence(l.deep_view()),
            MdEvent::End(t) => MdEventModel::End(*t),
            MdEvent::Text(t) => MdEventModel::Text(t.deep_view()),
            MdEvent::Code(t) => MdEventModel::Code(t.deep_view()),
            MdEvent::Break => MdEventModel::Break,
            MdEvent::Other => MdEventModel::Other,
        }
    }
}

/// A part as the parser hands it out, its element not told yet.
enum Parsed {
    Start(TagEnd),
    Fence(String),
    End(TagEnd),
    Text(String),
    Code(String),
    SoftBreak,
    HardBreak,
    Other,
}

/// The value of a [`Parsed`].
pub enum ParsedModel {
    Start(TagEnd),
    Fence(Seq<char>),
    End(TagEnd),
    Text(Seq<char>),
    Code(Seq<char>),
    SoftBreak,
    HardBreak,
    Other,
}

impl DeepView for Parsed {
    type V = ParsedModel;

    closed spec fn deep_view(&self) -> ParsedModel {
        match self {
            Parsed::Start(t) => ParsedModel::Start(*t),
            Parsed::Fence(l) => ParsedModel::Fence(l.deep_view()),
            Parsed::End(t) => ParsedModel::End(*t),
            Parsed::Text(t) => ParsedModel::Text(t.deep_view()),
            Parsed::Code(t) => ParsedModel::Code(t.deep_view()),
            Parsed::SoftBreak => ParsedModel::SoftBreak,
            Parsed::HardBreak => ParsedModel::HardBreak,
            Parsed::Other => ParsedModel::Other,
        }
    }
}

/// The parts of a markdown text, in order.
pub uninterp spec fn markdown_parts(src: Seq<char>) -> Seq<ParsedModel>;

/// `pulldown_cmark::Parser` without extensions: the parts of a text, a function of
/// the text alone.
#[verifier::external_body]
fn parse_markdown(src: &str) -> (r: Vec<Parsed>)
    ensures
        r.deep_view() == markdown_parts(src@),
{
    let part = |e| match e {
        Event::Start(Tag::CodeBlock(CodeBlockKind::Fenced(l))) => Parsed::Fence(l.to_string()),
        Event::Start(t) => Parsed::Start(t.to_end()),
        Event::End(t) => Parsed::End(t),
        Event::Text(t) => Parsed::Text(t.to_string()),
        Event::Code(t) => Parsed::Code(t.to_string()),
        Event::SoftBreak => Parsed::SoftBreak,
        Event::HardBreak => Parsed::HardBreak,
        _ => Parsed::Other,
    };
    Parser::new_ext(src, Options::empty()).map(part).collect()
}

/// Which element a tag is of.
pub uninterp spec fn tag_kind(t: TagEnd) -> MdTag;

/// The variant of a `pulldown_cmark::TagEnd`.
#[verifier::external_body]
fn tag_of(t: &TagEnd) -> (r: MdTag)
    ensures
        r == tag_kind(*t),
{
    match t {
        TagEnd::Heading(_) => MdTag::Heading,
        TagEnd::Paragraph => MdTag::Paragraph,
        TagEnd::Emphasis => MdTag::Emphasis,
        TagEnd::Strong => MdTag::Strong,
        TagEnd::List(_) => MdTag::List,
        TagEnd::Item => MdTag::Item,
        TagEnd::BlockQuote(_) => MdTag::Quote,
        TagEnd::CodeBlock => MdTag::Code,
        _ => MdTag::Other,
    }
}

impl ParsedModel {
    /// The part with its element told.
    pub open spec fn told(self) -> MdEventModel {
        match self {
            ParsedModel::Start(t) => MdEventModel::Start(tag_kind(t)),
            ParsedModel::Fence(l) => MdEventModel::Fence(l),
            ParsedModel::End(t) => MdEventModel::End(tag_kind(t)),
            ParsedModel::Text(t) => MdEventModel::Text(t),
            ParsedModel::Code(t) => MdEventModel::Code(t),
            ParsedModel::SoftBreak => MdEventModel::Break,
            ParsedModel::HardBreak => MdEventModel::Break,
            ParsedModel::Other => MdEventModel::Other,
        }
    }
}

/// The parts of a markdown text, in order.
pub open spec fn markdown_events(src: Seq<char>) -> Seq<MdEventModel> {
    markdown_parts(src).map_values(|p: ParsedModel| p.told())
}

/// The part with its element told.
fn tell(p: &Parsed) -> (r: MdEvent)
    ensures
        r.deep_view() == p.deep_view().told(),
{
    match p {
        Parsed::Start(t) => MdEvent::Start(tag_of(t)),
        Parsed::Fence(l) => MdEvent::Fence(l.clone()),
        Parsed::End(t) => MdEvent::End(tag_of(t)),
        Parsed::Text(t) => MdEvent::Text(t.clone()),
        Parsed::Code(t) => MdEvent::Code(t.clone()),
        Parsed::SoftBreak => MdEvent::Break,
        Parsed::HardBreak => MdEvent::Break,
        Parsed::Other => MdEvent::Other,
    }
}

/// The parts of a markdown text, in order.
pub fn parse_events(src: &str) -> (r: Vec<MdEvent>)
    ensures
        r.deep_view() == markdown_events(src@),
{
    let parts = parse_markdown(src);
    let ghost all = parts.deep_view();
    let ghost f = |p: ParsedModel| p.told();
    let mut out: Vec<MdEvent> = Vec::new();
    let mut i: usize = 0;
    assert(out.deep_view() =~= all.take(0).map_values(f));
    while i < parts.len()
        invariant
            i <= parts@.len(),
            all == parts.deep_view(),
            f == (|p: ParsedModel| p.told()),
            out.deep_view() == all.take(i as int).map_values(f),
        decreases parts@.len() - i,
    {
        let ghost before = out.deep_view();
        let e = tell(&parts[i]);
        let ghost m = e.deep_view();
        out.push(e);
        proof {
            assert(all[i as int] == parts@[i as int].deep_view());
            assert(out.deep_view() =~= before.push(m));
            assert(all.take(i + 1).map_values(f) =~= before.push(m));
        }
        i += 1;
    }
    assert(all.take(i as int) =~= all);
    out
}

/// A code block: highlighted, two columns to the right.
pub open spec fn code_block(inks: Inks, code: Seq<char>, lang: Option<Seq<char>>) -> Seq<LineModel> {
    highlighted(inks, code, lang).map_values(
        |l: LineModel| LineModel { spans: seq![SpanModel::raw("  "@)] + l.spans },
    )
}

/// `n` pairs of spaces.
pub open spec fn pairs(n: nat) -> Seq<char>
    decreases n,
{
    if n == 0 {
        Seq::empty()
    } else {
        pairs((n - 1) as nat) + "  "@
    }
}

/// The state of rendering: the lines done, the runs of the line in progress, the
/// style that text has, how deep in lists, and the code block in progress.
#[verifier::ext_equal]
pub struct MdState {
    pub lines: Seq<LineModel>,
    pub runs: Seq<SpanModel>,
    pub style: Style,
    pub depth: nat,
    pub in_code: bool,
    pub code: Seq<char>,
    pub lang: Option<Seq<char>>,
}

impl MdState {
    pub open spec fn blank() -> MdState {
        MdState {
            lines: Seq::empty(),
            runs: Seq::empty(),
            style: Style::spec_plain(),
            depth: 0,
            in_code: false,
            code: Seq::empty(),
            lang: None,
        }
    }

    /// With the line in progress done, where it has anything.
    pub open spec fn flushed(self) -> MdState {
        if self.runs.len() == 0 {
            self
        } else {
            MdState {
                lines: self.lines.push(LineModel { spans: self.runs }),
                runs: Seq::empty(),
                ..self
            }
        }
    }

    /// With one more run.
    pub open spec fn with_run(self, text: Seq<char>, style: Style) -> MdState {
        MdState { runs: self.runs.push(SpanModel { text, style }), ..self }
    }

    /// With an empty line.
    pub open spec fn spaced(self) -> MdState {
        MdState { lines: self.lines.push(LineModel { spans: Seq::empty() }), ..self }
    }

    /// With one more part.
    pub open spec fn step(self, inks: Inks, e: MdEventModel) -> MdState {
        match e {
            MdEventModel::Start(tag) => self.opened(tag),
            MdEventModel::Fence(l) => self.fenced(
                if l.len() == 0 {
                    None
                } else {
                    Some(l)
                },
            ),
            MdEventModel::End(tag) => self.ended(inks, tag),
            MdEventModel::Text(t) => if self.in_code {
                MdState { code: self.code + t, ..self }
            } else {
                self.with_run(t, self.style)
            },
            MdEventModel::Code(t) => self.with_run(t, Style::spec_plain().spec_reversed()),
            MdEventModel::Break => self.flushed(),
            MdEventModel::Other => self,
        }
    }

    /// One list less deep.
    pub open spec fn outer_depth(self) -> nat {
        if self.depth == 0 {
            0
        } else {
            (self.depth - 1) as nat
        }
    }

    /// With a code block started.
    pub open spec fn fenced(self, lang: Option<Seq<char>>) -> MdState {
        MdState { in_code: true, code: Seq::empty(), lang, ..self.flushed() }
    }

    /// With an element started.
    pub open spec fn opened(self, tag: MdTag) -> MdState {
        match tag {
            MdTag::Heading | MdTag::Strong => MdState { style: self.style.spec_bold(), ..self },
            MdTag::Emphasis => MdState { style: self.style.spec_italic(), ..self },
            MdTag::List => MdState { depth: self.depth + 1, ..self },
            MdTag::Item => self.flushed().with_run(
                pairs(self.outer_depth()) + "• "@,
                Style::spec_plain(),
            ),
            MdTag::Quote => self.with_run("▏ "@, Style::spec_plain().spec_dim()),
            MdTag::Code => self.fenced(None),
            MdTag::Paragraph | MdTag::Other => self,
        }
    }

    /// With an element ended.
    pub open spec fn ended(self, inks: Inks, tag: MdTag) -> MdState {
        match tag {
            MdTag::Heading => (MdState { style: Style::spec_plain(), ..self.flushed() }).spaced(),
            MdTag::Paragraph => self.flushed().spaced(),
            MdTag::Emphasis => MdState { style: self.style.spec_not_italic(), ..self },
            MdTag::Strong => MdState { style: self.style.spec_not_bold(), ..self },
            MdTag::List => MdState { depth: self.outer_depth(), ..self },
            MdTag::Item => self.flushed(),
            MdTag::Code => MdState {
                lines: self.lines + code_block(inks, self.code, self.lang),
                in_code: false,
                lang: None,
                ..self
            },
            MdTag::Quote | MdTag::Other => self,
        }
    }

    /// After all parts of `events`.
    pub open spec fn after(inks: Inks, events: Seq<MdEventModel>) -> MdState
        decreases events.len(),
    {
        if events.len() == 0 {
            MdState::blank()
        } else {
            MdState::after(inks, events.drop_last()).step(inks, events.last())
        }
    }

    /// The lines at the end. A code block that was never closed shows what it has.
    pub open spec fn finished(self, inks: Inks) -> Seq<LineModel> {
        let closed = if self.in_code && self.code.len() > 0 {
            MdState { lines: self.lines + code_block(inks, self.code, self.lang), ..self }
        } else {
            self
        };
        closed.flushed().lines
    }
}

/// The rendering in progress.
struct Writer {
    lines: Vec<Line>,
    runs: Vec<Span>,
    style: Style,
    depth: usize,
    in_code: bool,
    code: String,
    lang: Option<String>,
}

impl DeepView for Writer {
    type V = MdState;

    closed spec fn deep_view(&self) -> MdState {
        MdState {
            lines: self.lines.deep_view(),
            runs: self.runs.deep_view(),
            style: self.style,
            depth: self.depth as nat,
            in_code: self.in_code,
            code: self.code@,
            lang: self.lang.deep_view(),
        }
    }
}

/// Two columns of margin before a line.
fn with_margin(line: Line) -> (r: Line)
    ensures
        r.deep_view() == (LineModel {
            spans: seq![SpanModel::raw("  "@)] + line.deep_view().spans,
        }),
{
    let ghost before = line.deep_view().spans;
    let mut spans: Vec<Span> = Vec::new();
    spans.push(Span::raw("  ".to_owned()));
    let mut rest = line.spans;
    spans.append(&mut rest);
    let r = Line { spans };
    assert(r.deep_view().spans =~= seq![SpanModel::raw("  "@)] + before);
    r
}

/// `n` pairs of spaces.
fn pairs_of_spaces(n: usize) -> (r: String)
    ensures
        r@ == pairs(n as nat),
{
    let mut out = String::new();
    let mut i: usize = 0;
    while i < n
        invariant
            i <= n,
            out@ == pairs(i as nat),
        decreases n - i,
    {
        out.append("  ");
        i += 1;
    }
    out
}

impl Writer {
    fn new() -> (r: Self)
        ensures
            r.deep_view() == MdState::blank(),
    {
        let r = Writer {
            lines: Vec::new(),
            runs: Vec::new(),
            style: Style::plain(),
            depth: 0,
            in_code: false,
            code: String::new(),
            lang: None,
        };
        assert(r.deep_view() =~= MdState::blank());
        r
    }

    fn flush(&mut self)
        ensures
            final(self).deep_view() == old(self).deep_view().flushed(),
            final(self).depth == old(self).depth,
    {
        if self.runs.len() > 0 {
            let mut spans: Vec<Span> = Vec::new();
            std::mem::swap(&mut spans, &mut self.runs);
            add_line(&mut self.lines, Line { spans });
            assert(self.runs.deep_view() =~= Seq::<SpanModel>::empty());
        }
    }

    fn run(&mut self, text: String, style: Style)
        ensures
            final(self).deep_view() == old(self).deep_view().with_run(text@, style),
            final(self).depth == old(self).depth,
    {
        let ghost before = self.runs.deep_view();
        self.runs.push(Span::styled(text, style));
        assert(self.runs.deep_view() =~= before.push(SpanModel { text: text@, style }));
    }

    fn space(&mut self)
        ensures
            final(self).deep_view() == old(self).deep_view().spaced(),
            final(self).depth == old(self).depth,
    {
        let blank = Line { spans: Vec::new() };
        assert(blank.deep_view().spans =~= Seq::<SpanModel>::empty());
        add_line(&mut self.lines, blank);
    }

    /// Puts the code block in progress among the lines.
    fn put_code(&mut self, h: &mut Highlighter)
        requires
            old(h).wf(),
        ensures
            final(h).wf(),
            final(self).deep_view() == (MdState {
                lines: old(self).deep_view().lines + code_block(
                    old(h).inks(),
                    old(self).deep_view().code,
                    old(self).deep_view().lang,
                ),
                ..old(self).deep_view()
            }),
            final(self).depth == old(self).depth,
            final(h).inks() == old(h).inks(),
    {
        let lang: Option<&str> = match &self.lang {
            Some(l) => Some(l.as_str()),
            None => None,
        };
        let code = highlight(h, self.code.as_str(), lang);
        let ghost all = code.deep_view();
        let ghost f = |l: LineModel| LineModel { spans: seq![SpanModel::raw("  "@)] + l.spans };
        let ghost start = self.lines.deep_view();
        let mut lines: Vec<Line> = Vec::new();
        std::mem::swap(&mut lines, &mut self.lines);
        let mut i: usize = 0;
        assert(start + all.take(0).map_values(f) =~= start);
        while i < code.len()
            invariant
                i <= code@.len(),
                all == code.deep_view(),
                f == (|l: LineModel| LineModel {
                    spans: seq![SpanModel::raw("  "@)] + l.spans,
                }),
                lines.deep_view() == start + all.take(i as int).map_values(f),
            decreases code@.len() - i,
        {
            let line = with_margin(code[i].clone());
            let ghost m = line.deep_view();
            proof {
                assert(all[i as int] == code@[i as int].deep_view());
                assert(m == f(all[i as int]));
                assert(all.take(i + 1).map_values(f) =~= all.take(i as int).map_values(f).push(m));
                assert((start + all.take(i as int).map_values(f)).push(m) =~= start + all.take(
                    i as int,
                ).map_values(f).push(m));
            }
            add_line(&mut lines, line);
            i += 1;
        }
        assert(all.take(i as int) =~= all);
        self.lines = lines;
    }

    fn fence(&mut self, lang: Option<String>)
        ensures
            final(self).deep_view() == old(self).deep_view().fenced(lang.deep_view()),
            final(self).depth == old(self).depth,
    {
        self.flush();
        self.in_code = true;
        self.code = String::new();
        self.lang = lang;
    }

    fn open(&mut self, tag: MdTag)
        requires
            old(self).depth < usize::MAX,
        ensures
            final(self).deep_view() == old(self).deep_view().opened(tag),
            final(self).depth <= old(self).depth + 1,
    {
        match tag {
            MdTag::Heading | MdTag::Strong => {
                self.style = self.style.bold();
            },
            MdTag::Emphasis => {
                self.style = self.style.italic();
            },
            MdTag::List => {
                self.depth = self.depth + 1;
            },
            MdTag::Item => {
                self.flush();
                let mut mark = pairs_of_spaces(self.depth.saturating_sub(1));
                mark.append("• ");
                self.run(mark, Style::plain());
            },
            MdTag::Quote => self.run("▏ ".to_owned(), Style::plain().dim()),
            MdTag::Code => self.fence(None),
            MdTag::Paragraph | MdTag::Other => {},
        }
    }

    fn end(&mut self, h: &mut Highlighter, tag: MdTag)
        requires
            old(h).wf(),
        ensures
            final(h).wf(),
            final(self).deep_view() == old(self).deep_view().ended(old(h).inks(), tag),
            final(self).depth <= old(self).depth,
            final(h).inks() == old(h).inks(),
    {
        match tag {
            MdTag::Heading => {
                self.flush();
                self.style = Style::plain();
                self.space();
            },
            MdTag::Paragraph => {
                self.flush();
                self.space();
            },
            MdTag::Emphasis => {
                self.style = self.style.not_italic();
            },
            MdTag::Strong => {
                self.style = self.style.not_bold();
            },
            MdTag::List => {
                self.depth = self.depth.saturating_sub(1);
            },
            MdTag::Item => self.flush(),
            MdTag::Code => {
                self.put_code(h);
                self.in_code = false;
                self.lang = None;
            },
            MdTag::Quote | MdTag::Other => {},
        }
    }

    fn take(&mut self, h: &mut Highlighter, e: &MdEvent)
        requires
            old(h).wf(),
            old(self).depth < usize::MAX,
        ensures
            final(h).wf(),
            final(self).deep_view() == old(self).deep_view().step(old(h).inks(), e.deep_view()),
            final(self).depth <= old(self).depth + 1,
            final(h).inks() == old(h).inks(),
    {
        match e {
            MdEvent::Start(tag) => self.open(*tag),
            MdEvent::Fence(l) => {
                let lang: Option<String> = if l.as_str().is_empty() {
                    None
                } else {
                    Some(l.clone())
                };
                self.fence(lang);
            },
            MdEvent::End(tag) => self.end(h, *tag),
            MdEvent::Text(t) => {
                if self.in_code {
                    self.code.append(t.as_str());
                } else {
                    let style = self.style;
                    self.run(t.clone(), style);
                }
            },
            MdEvent::Code(t) => self.run(t.clone(), Style::plain().reversed()),
            MdEvent::Break => self.flush(),
            MdEvent::Other => {},
        }
    }

    fn finish(&mut self, h: &mut Highlighter) -> (r: Vec<Line>)
        requires
            old(h).wf(),
        ensures
            final(h).wf(),
            r.deep_view() == old(self).deep_view().finished(old(h).inks()),
            final(h).inks() == old(h).inks(),
    {
        if self.in_code && !self.code.as_str().is_empty() {
            self.put_code(h);
        }
        self.flush();
        let mut lines: Vec<Line> = Vec::new();
        std::mem::swap(&mut lines, &mut self.lines);
        lines
    }
}

/// The lines of a markdown text, given its parts.
pub fn render_events(h: &mut Highlighter, events: &[MdEvent]) -> (r: Vec<Line>)
    requires
        old(h).wf(),
    ensures
        final(h).wf(),
        r.deep_view() == MdState::after(old(h).inks(), events.deep_view()).finished(
            old(h).inks(),
        ),
        final(h).inks() == old(h).inks(),
{
    let ghost inks = h.inks();
    let ghost all = events.deep_view();
    let mut w = Writer::new();
    let n: usize = events.len();
    let mut i: usize = 0;
    while i < n
        invariant
            i <= n == events@.len(),
            all == events.deep_view(),
            h.wf(),
            inks == h.inks(),
            w.depth <= i,
            w.deep_view() == MdState::after(inks, all.take(i as int)),
        decreases n - i,
    {
        proof {
            assert(all.take(i + 1).drop_last() =~= all.take(i as int));
            assert(all.take(i + 1).last() == events@[i as int].deep_view());
        }
        w.take(h, &events[i]);
        i += 1;
    }
    assert(all.take(i as int) =~= all);
    w.finish(h)
}

/// The lines of a markdown text.
pub open spec fn markdown_lines(inks: Inks, src: Seq<char>) -> Seq<LineModel> {
    MdState::after(inks, markdown_events(src)).finished(inks)
}

/// Renders markdown as terminal lines. What is not told apart (tables, images)
/// shows as its text.
#[must_use]
pub fn render_markdown(h: &mut Highlighter, src: &str) -> (r: Vec<Line>)
    requires
        old(h).wf(),
    ensures
        final(h).wf(),
        r.deep_view() == markdown_lines(old(h).inks(), src@),
        final(h).inks() == old(h).inks(),
{
    let events = parse_events(src);
    let es = events.as_slice();
    assert(es.deep_view() =~= events.deep_view());
    render_events(h, es)
}

// ---------------------------------------------------------------------------
// Laws: documents
// ---------------------------------------------------------------------------

/// A piece of a row of prose.
pub enum MdPiece {
    Text(Seq<char>),
    Code(Seq<char>),
    Strong(Seq<char>),
    Emphasis(Seq<char>),
}

impl MdPiece {
    /// The parts that a piece is written with.
    pub open spec fn parts(self) -> Seq<MdEventModel> {
        match self {
            MdPiece::Text(t) => seq![MdEventModel::Text(t)],
            MdPiece::Code(t) => seq![MdEventModel::Code(t)],
            MdPiece::Strong(t) => seq![
                MdEventModel::Start(MdTag::Strong),
                MdEventModel::Text(t),
                MdEventModel::End(MdTag::Strong),
            ],
            MdPiece::Emphasis(t) => seq![
                MdEventModel::Start(MdTag::Emphasis),
                MdEventModel::Text(t),
                MdEventModel::End(MdTag::Emphasis),
            ],
        }
    }

    /// Whether a run shows the piece: its text, strong text bold, emphasis in italics,
    /// code reversed, and all of it bold in a heading. No run is colored.
    pub open spec fn shows(self, run: SpanModel, heading: bool) -> bool {
        let add = run.style.add_modifier;
        &&& run.style.fg is None && run.style.bg is None && !add.dim && !add.underlined
        &&& match self {
            MdPiece::Text(t) => run.text == t && add.bold == heading && !add.italic && !add.reversed,
            MdPiece::Code(t) => run.text == t && !add.bold && !add.italic && add.reversed,
            MdPiece::Strong(t) => run.text == t && add.bold && !add.italic && !add.reversed,
            MdPiece::Emphasis(t) => run.text == t && add.bold == heading && add.italic
                && !add.reversed,
        }
    }
}

/// The parts of a row of prose.
pub open spec fn row_parts(row: Seq<MdPiece>) -> Seq<MdEventModel>
    decreases row.len(),
{
    if row.len() == 0 {
        Seq::empty()
    } else {
        row_parts(row.drop_last()) + row.last().parts()
    }
}

/// The parts of rows with breaks between them.
pub open spec fn rows_parts(rows: Seq<Seq<MdPiece>>) -> Seq<MdEventModel>
    decreases rows.len(),
{
    if rows.len() == 0 {
        Seq::empty()
    } else if rows.len() == 1 {
        row_parts(rows[0])
    } else {
        rows_parts(rows.drop_last()) + seq![MdEventModel::Break] + row_parts(rows.last())
    }
}

/// The parts of list items of one row each.
pub open spec fn items_parts(rows: Seq<Seq<MdPiece>>) -> Seq<MdEventModel>
    decreases rows.len(),
{
    if rows.len() == 0 {
        Seq::empty()
    } else {
        items_parts(rows.drop_last()) + (seq![MdEventModel::Start(MdTag::Item)] + row_parts(
            rows.last(),
        ) + seq![MdEventModel::End(MdTag::Item)])
    }
}

/// The parts of texts.
pub open spec fn texts_parts(texts: Seq<Seq<char>>) -> Seq<MdEventModel> {
    texts.map_values(|t: Seq<char>| MdEventModel::Text(t))
}

/// Texts, one behind the other.
pub open spec fn run_on(texts: Seq<Seq<char>>) -> Seq<char>
    decreases texts.len(),
{
    if texts.len() == 0 {
        Seq::empty()
    } else {
        run_on(texts.drop_last()) + texts.last()
    }
}

/// A block of a document.
pub enum MdBlock {
    Paragraph(Seq<Seq<MdPiece>>),
    Heading(Seq<MdPiece>),
    /// A code block in a language, or in none, as pieces of text.
    Code(Option<Seq<char>>, Seq<Seq<char>>),
    List(Seq<Seq<MdPiece>>),
    Quote(Seq<MdPiece>),
}

/// Whether the runs of `line` from `from` on show the pieces of `row`, in order.
pub open spec fn row_shows(row: Seq<MdPiece>, line: LineModel, from: int, heading: bool) -> bool {
    &&& line.spans.len() == from + row.len()
    &&& forall|i: int| 0 <= i < row.len() ==> (#[trigger] row[i]).shows(line.spans[from + i], heading)
}

/// Whether a line shows a list item: a bullet, and the pieces of its row.
pub open spec fn item_shows(row: Seq<MdPiece>, line: LineModel) -> bool {
    row_shows(row, line, 1, false) && line.spans[0].text == "• "@
}

impl MdBlock {
    /// Whether a block can be written down: no row of it is empty, a heading has no
    /// strong text, and a language has a name.
    pub open spec fn is_written(self) -> bool {
        match self {
            MdBlock::Paragraph(rows) => rows.len() > 0 && forall|i: int|
                0 <= i < rows.len() ==> (#[trigger] rows[i]).len() > 0,
            MdBlock::Heading(row) => row.len() > 0 && forall|i: int|
                0 <= i < row.len() ==> !((#[trigger] row[i]) is Strong),
            MdBlock::Code(lang, _) => lang matches Some(l) ==> l.len() > 0,
            MdBlock::List(rows) => true,
            MdBlock::Quote(row) => true,
        }
    }

    /// The parts that a block is written with.
    pub open spec fn parts(self) -> Seq<MdEventModel> {
        match self {
            MdBlock::Paragraph(rows) => seq![MdEventModel::Start(MdTag::Paragraph)] + rows_parts(
                rows,
            ) + seq![MdEventModel::End(MdTag::Paragraph)],
            MdBlock::Heading(row) => seq![MdEventModel::Start(MdTag::Heading)] + row_parts(row)
                + seq![MdEventModel::End(MdTag::Heading)],
            MdBlock::Code(lang, texts) => seq![
                match lang {
                    Some(l) => MdEventModel::Fence(l),
                    None => MdEventModel::Start(MdTag::Code),
                },
            ] + texts_parts(texts) + seq![MdEventModel::End(MdTag::Code)],
            MdBlock::List(rows) => seq![MdEventModel::Start(MdTag::List)] + items_parts(rows)
                + seq![MdEventModel::End(MdTag::List)],
            MdBlock::Quote(row) => seq![
                MdEventModel::Start(MdTag::Quote),
                MdEventModel::Start(MdTag::Paragraph),
            ] + row_parts(row) + seq![
                MdEventModel::End(MdTag::Paragraph),
                MdEventModel::End(MdTag::Quote),
            ],
        }
    }

    /// Whether `lines` show the block: a paragraph by a line for each row and an empty one
    /// behind; a heading in bold, with an empty line behind; code line by line, two columns
    /// to the right; list items each behind a bullet; and a quote behind a bar.
    pub open spec fn shows(self, inks: Inks, lines: Seq<LineModel>) -> bool {
        match self {
            MdBlock::Paragraph(rows) => {
                &&& lines.len() == rows.len() + 1
                &&& forall|i: int|
                    0 <= i < rows.len() ==> row_shows(#[trigger] rows[i], lines[i], 0, false)
                &&& lines.last().spans.len() == 0
            },
            MdBlock::Heading(row) => {
                &&& lines.len() == 2
                &&& row_shows(row, lines[0], 0, true)
                &&& lines[1].spans.len() == 0
            },
            MdBlock::Code(lang, texts) => {
                let code = highlighted(inks, run_on(texts), lang);
                &&& lines.len() == code.len()
                &&& forall|i: int|
                    0 <= i < lines.len() ==> {
                        let l = #[trigger] lines[i];
                        &&& l.spans.len() == code[i].spans.len() + 1
                        &&& l.spans[0].text == "  "@
                        &&& l.spans.skip(1) == code[i].spans
                    }
            },
            MdBlock::List(rows) => {
                &&& lines.len() == rows.len()
                &&& forall|i: int|
                    0 <= i < rows.len() ==> item_shows(#[trigger] rows[i], lines[i])
            },
            MdBlock::Quote(row) => {
                &&& lines.len() == 2
                &&& row_shows(row, lines[0], 1, false)
                &&& lines[0].spans[0].text == "▏ "@
                &&& lines[0].spans[0].style.add_modifier.dim
                &&& lines[1].spans.len() == 0
            },
        }
    }
}

/// The parts of a document.
pub open spec fn document_parts(doc: Seq<MdBlock>) -> Seq<MdEventModel>
    decreases doc.len(),
{
    if doc.len() == 0 {
        Seq::empty()
    } else {
        document_parts(doc.drop_last()) + doc.last().parts()
    }
}

/// Lines of blocks, one block below the other.
pub open spec fn below(blocks: Seq<Seq<LineModel>>) -> Seq<LineModel>
    decreases blocks.len(),
{
    if blocks.len() == 0 {
        Seq::empty()
    } else {
        below(blocks.drop_last()) + blocks.last()
    }
}

impl MdState {
    /// After more parts.
    spec fn steps(self, inks: Inks, events: Seq<MdEventModel>) -> MdState
        decreases events.len(),
    {
        if events.len() == 0 {
            self
        } else {
            self.steps(inks, events.drop_last()).step(inks, events.last())
        }
    }

    /// Whether nothing is in progress.
    spec fn rests(self) -> bool {
        self.runs.len() == 0 && self.depth == 0 && !self.in_code && unlit(self.style)
    }
}

/// Whether a style lights nothing up.
spec fn unlit(style: Style) -> bool {
    style.fg is None && style.bg is None && style.add_modifier == crate::theme::Modifier::spec_none()
}

proof fn lemma_steps(s: MdState, inks: Inks, a: Seq<MdEventModel>, b: Seq<MdEventModel>)
    ensures
        s.steps(inks, a + b) == s.steps(inks, a).steps(inks, b),
    decreases b.len(),
{
    if b.len() == 0 {
        assert(a + b =~= a);
    } else {
        lemma_steps(s, inks, a, b.drop_last());
        assert((a + b).drop_last() =~= a + b.drop_last());
        assert((a + b).last() == b.last());
    }
}

proof fn lemma_one_step(s: MdState, inks: Inks, e: MdEventModel)
    ensures
        s.steps(inks, seq![e]) == s.step(inks, e),
{
    assert(seq![e].drop_last() =~= Seq::<MdEventModel>::empty());
    assert(s.steps(inks, seq![e].drop_last()) == s);
}

proof fn lemma_after_is_steps(inks: Inks, events: Seq<MdEventModel>)
    ensures
        MdState::after(inks, events) == MdState::blank().steps(inks, events),
    decreases events.len(),
{
    if events.len() > 0 {
        lemma_after_is_steps(inks, events.drop_last());
    }
}

/// Whether text in `style` shows as prose does, in a heading or not.
spec fn prose_style(style: Style, heading: bool) -> bool {
    let add = style.add_modifier;
    style.fg is None && style.bg is None && add.bold == heading && !add.dim && !add.italic
        && !add.underlined && !add.reversed
}

proof fn lemma_piece(s: MdState, inks: Inks, p: MdPiece, heading: bool) -> (run: SpanModel)
    requires
        !s.in_code,
        prose_style(s.style, heading),
        heading ==> !(p is Strong),
    ensures
        p.shows(run, heading),
        ({
            let t = s.steps(inks, p.parts());
            &&& t.lines == s.lines && t.runs == s.runs.push(run) && t.depth == s.depth && !t.in_code
            &&& prose_style(t.style, heading)
        }),
{
    match p {
        MdPiece::Text(t) => {
            lemma_one_step(s, inks, MdEventModel::Text(t));
            SpanModel { text: t, style: s.style }
        },
        MdPiece::Code(t) => {
            lemma_one_step(s, inks, MdEventModel::Code(t));
            SpanModel { text: t, style: Style::spec_plain().spec_reversed() }
        },
        MdPiece::Strong(t) => {
            let a = seq![MdEventModel::Start(MdTag::Strong)];
            let b = seq![MdEventModel::Text(t)];
            let c = seq![MdEventModel::End(MdTag::Strong)];
            assert(p.parts() =~= a + b + c);
            lemma_steps(s, inks, a + b, c);
            lemma_steps(s, inks, a, b);
            lemma_one_step(s, inks, a[0]);
            lemma_one_step(s.step(inks, a[0]), inks, b[0]);
            lemma_one_step(s.step(inks, a[0]).step(inks, b[0]), inks, c[0]);
            SpanModel { text: t, style: s.style.spec_bold() }
        },
        MdPiece::Emphasis(t) => {
            let a = seq![MdEventModel::Start(MdTag::Emphasis)];
            let b = seq![MdEventModel::Text(t)];
            let c = seq![MdEventModel::End(MdTag::Emphasis)];
            assert(p.parts() =~= a + b + c);
            lemma_steps(s, inks, a + b, c);
            lemma_steps(s, inks, a, b);
            lemma_one_step(s, inks, a[0]);
            lemma_one_step(s.step(inks, a[0]), inks, b[0]);
            lemma_one_step(s.step(inks, a[0]).step(inks, b[0]), inks, c[0]);
            SpanModel { text: t, style: s.style.spec_italic() }
        },
    }
}

proof fn lemma_row(s: MdState, inks: Inks, row: Seq<MdPiece>, heading: bool) -> (runs: Seq<SpanModel>)
    requires
        !s.in_code,
        prose_style(s.style, heading),
        heading ==> forall|i: int| 0 <= i < row.len() ==> !((#[trigger] row[i]) is Strong),
    ensures
        runs.len() == row.len(),
        forall|i: int| 0 <= i < row.len() ==> (#[trigger] row[i]).shows(runs[i], heading),
        ({
            let t = s.steps(inks, row_parts(row));
            &&& t.lines == s.lines && t.runs == s.runs + runs && t.depth == s.depth && !t.in_code
            &&& prose_style(t.style, heading)
        }),
    decreases row.len(),
{
    if row.len() == 0 {
        assert(s.runs + Seq::<SpanModel>::empty() =~= s.runs);
        Seq::empty()
    } else {
        let front = row.drop_last();
        assert forall|i: int| heading && 0 <= i < front.len() implies !((#[trigger] front[i]) is Strong) by {
            assert(front[i] == row[i]);
        }
        let before = lemma_row(s, inks, front, heading);
        let mid = s.steps(inks, row_parts(front));
        assert(heading ==> !(row[row.len() - 1] is Strong));
        let run = lemma_piece(mid, inks, row.last(), heading);
        lemma_steps(s, inks, row_parts(front), row.last().parts());
        let runs = before.push(run);
        assert(s.runs + runs =~= (s.runs + before).push(run));
        assert forall|i: int| 0 <= i < row.len() implies (#[trigger] row[i]).shows(
            runs[i],
            heading,
        ) by {
            if i < front.len() {
                assert(front[i] == row[i]);
            }
        }
        runs
    }
}

/// The rows but the last one are lines, and the last one is in progress.
proof fn lemma_rows(s: MdState, inks: Inks, rows: Seq<Seq<MdPiece>>) -> (lines: Seq<LineModel>)
    requires
        s.runs.len() == 0,
        !s.in_code,
        prose_style(s.style, false),
        rows.len() > 0,
        forall|i: int| 0 <= i < rows.len() ==> (#[trigger] rows[i]).len() > 0,
    ensures
        lines.len() == rows.len(),
        forall|i: int| 0 <= i < rows.len() ==> row_shows(#[trigger] rows[i], lines[i], 0, false),
        ({
            let t = s.steps(inks, rows_parts(rows));
            &&& t.lines == s.lines + lines.drop_last() && t.runs == lines.last().spans
            &&& t.depth == s.depth && !t.in_code && prose_style(t.style, false)
        }),
    decreases rows.len(),
{
    if rows.len() == 1 {
        let runs = lemma_row(s, inks, rows[0], false);
        let lines = seq![LineModel { spans: runs }];
        assert(s.runs + runs =~= runs);
        assert(s.lines + lines.drop_last() =~= s.lines);
        lines
    } else {
        let front = rows.drop_last();
        assert forall|i: int| 0 <= i < front.len() implies (#[trigger] front[i]).len() > 0 by {
            assert(front[i] == rows[i]);
        }
        let before = lemma_rows(s, inks, front);
        let mid = s.steps(inks, rows_parts(front));
        let brk = seq![MdEventModel::Break];
        lemma_one_step(mid, inks, MdEventModel::Break);
        lemma_steps(s, inks, rows_parts(front), brk);
        let broken = mid.step(inks, MdEventModel::Break);
        assert(row_shows(front[front.len() - 1], before.last(), 0, false));
        assert(rows[rows.len() - 2].len() > 0);
        assert(mid.runs.len() > 0);
        let runs = lemma_row(broken, inks, rows.last(), false);
        lemma_steps(s, inks, rows_parts(front) + brk, row_parts(rows.last()));
        let lines = before.push(LineModel { spans: runs });
        assert(broken.runs + runs =~= runs);
        assert(LineModel { spans: mid.runs } =~= before.last());
        assert(s.lines + lines.drop_last() =~= (s.lines + before.drop_last()).push(before.last()));
        assert forall|i: int| 0 <= i < rows.len() implies row_shows(
            #[trigger] rows[i],
            lines[i],
            0,
            false,
        ) by {
            if i < front.len() {
                assert(front[i] == rows[i]);
            }
        }
        lines
    }
}

proof fn lemma_items(s: MdState, inks: Inks, rows: Seq<Seq<MdPiece>>) -> (lines: Seq<LineModel>)
    requires
        s.runs.len() == 0,
        !s.in_code,
        s.depth == 1,
        prose_style(s.style, false),
    ensures
        lines.len() == rows.len(),
        forall|i: int|
            0 <= i < rows.len() ==> item_shows(#[trigger] rows[i], lines[i]),
        ({
            let t = s.steps(inks, items_parts(rows));
            &&& t.lines == s.lines + lines && t.runs.len() == 0 && t.depth == 1 && !t.in_code
            &&& prose_style(t.style, false)
        }),
    decreases rows.len(),
{
    if rows.len() == 0 {
        assert(s.lines + Seq::<LineModel>::empty() =~= s.lines);
        Seq::empty()
    } else {
        let front = rows.drop_last();
        let before = lemma_items(s, inks, front);
        let mid = s.steps(inks, items_parts(front));
        let a = seq![MdEventModel::Start(MdTag::Item)];
        let b = row_parts(rows.last());
        let c = seq![MdEventModel::End(MdTag::Item)];
        lemma_steps(s, inks, items_parts(front), a + b + c);
        lemma_steps(mid, inks, a + b, c);
        lemma_steps(mid, inks, a, b);
        lemma_one_step(mid, inks, a[0]);
        let open = mid.step(inks, a[0]);
        assert(pairs(0) + "• "@ =~= "• "@);
        let bullet = SpanModel { text: "• "@, style: Style::spec_plain() };
        assert(open.runs =~= seq![bullet]);
        let runs = lemma_row(open, inks, rows.last(), false);
        let full = open.steps(inks, b);
        lemma_one_step(full, inks, c[0]);
        let line = LineModel { spans: seq![bullet] + runs };
        assert forall|i: int| 0 <= i < rows.last().len() implies (#[trigger] rows.last()[i]).shows(
            line.spans[1 + i],
            false,
        ) by {
            assert(line.spans[1 + i] == runs[i]);
        }
        assert(row_shows(rows.last(), line, 1, false));
        let lines = before.push(line);
        assert(s.lines + lines =~= (s.lines + before).push(line));
        assert(item_shows(rows.last(), line));
        assert forall|i: int| 0 <= i < rows.len() implies item_shows(
            #[trigger] rows[i],
            lines[i],
        ) by {
            if i < front.len() {
                assert(front[i] == rows[i]);
            }
        }
        lines
    }
}

proof fn lemma_code_texts(s: MdState, inks: Inks, texts: Seq<Seq<char>>)
    requires
        s.in_code,
    ensures
        s.steps(inks, texts_parts(texts)) == (MdState { code: s.code + run_on(texts), ..s }),
    decreases texts.len(),
{
    if texts.len() == 0 {
        assert(s.code + run_on(texts) =~= s.code);
    } else {
        let front = texts.drop_last();
        lemma_code_texts(s, inks, front);
        assert(texts_parts(texts).drop_last() =~= texts_parts(front));
        assert(s.code + run_on(front) + texts.last() =~= s.code + run_on(texts));
    }
}

proof fn lemma_paragraph_block(s: MdState, inks: Inks, rows: Seq<Seq<MdPiece>>) -> (lines: Seq<LineModel>)
    requires
        s.rests(),
        MdBlock::Paragraph(rows).is_written(),
    ensures
        MdBlock::Paragraph(rows).shows(inks, lines),
        s.steps(inks, MdBlock::Paragraph(rows).parts()).rests(),
        s.steps(inks, MdBlock::Paragraph(rows).parts()).lines == s.lines + lines,
{
    let a = seq![MdEventModel::Start(MdTag::Paragraph)];
    let c = seq![MdEventModel::End(MdTag::Paragraph)];
    lemma_steps(s, inks, a + rows_parts(rows), c);
    lemma_steps(s, inks, a, rows_parts(rows));
    lemma_one_step(s, inks, a[0]);
    let shown = lemma_rows(s, inks, rows);
    let full = s.steps(inks, rows_parts(rows));
    lemma_one_step(full, inks, c[0]);
    assert(row_shows(rows[rows.len() - 1], shown.last(), 0, false));
    assert(rows[rows.len() - 1].len() > 0);
    let lines = shown.push(LineModel { spans: Seq::empty() });
    assert(LineModel { spans: full.runs } =~= shown.last());
    assert(full.step(inks, c[0]).lines =~= s.lines + lines);
    assert forall|i: int| 0 <= i < rows.len() implies row_shows(
        #[trigger] rows[i],
        lines[i],
        0,
        false,
    ) by {
        assert(lines[i] == shown[i]);
    }
    lines
}

proof fn lemma_heading_block(s: MdState, inks: Inks, row: Seq<MdPiece>) -> (lines: Seq<LineModel>)
    requires
        s.rests(),
        MdBlock::Heading(row).is_written(),
    ensures
        MdBlock::Heading(row).shows(inks, lines),
        s.steps(inks, MdBlock::Heading(row).parts()).rests(),
        s.steps(inks, MdBlock::Heading(row).parts()).lines == s.lines + lines,
{
    let a = seq![MdEventModel::Start(MdTag::Heading)];
    let c = seq![MdEventModel::End(MdTag::Heading)];
    lemma_steps(s, inks, a + row_parts(row), c);
    lemma_steps(s, inks, a, row_parts(row));
    lemma_one_step(s, inks, a[0]);
    let open = s.step(inks, a[0]);
    let runs = lemma_row(open, inks, row, true);
    assert(open.runs + runs =~= runs);
    let full = open.steps(inks, row_parts(row));
    lemma_one_step(full, inks, c[0]);
    let lines = seq![LineModel { spans: runs }, LineModel { spans: Seq::empty() }];
    assert(full.step(inks, c[0]).lines =~= s.lines + lines);
    assert(row_shows(row, lines[0], 0, true));
    lines
}

proof fn lemma_code_block(s: MdState, inks: Inks, lang: Option<Seq<char>>, texts: Seq<Seq<char>>) -> (lines: Seq<LineModel>)
    requires
        s.rests(),
        MdBlock::Code(lang, texts).is_written(),
    ensures
        MdBlock::Code(lang, texts).shows(inks, lines),
        s.steps(inks, MdBlock::Code(lang, texts).parts()).rests(),
        s.steps(inks, MdBlock::Code(lang, texts).parts()).lines == s.lines + lines,
{
    let a = seq![
        match lang {
            Some(l) => MdEventModel::Fence(l),
            None => MdEventModel::Start(MdTag::Code),
        },
    ];
    let c = seq![MdEventModel::End(MdTag::Code)];
    lemma_steps(s, inks, a + texts_parts(texts), c);
    lemma_steps(s, inks, a, texts_parts(texts));
    lemma_one_step(s, inks, a[0]);
    let open = s.step(inks, a[0]);
    lemma_code_texts(open, inks, texts);
    let full = open.steps(inks, texts_parts(texts));
    assert(full.code =~= run_on(texts));
    lemma_one_step(full, inks, c[0]);
    let lines = code_block(inks, run_on(texts), lang);
    let code = highlighted(inks, run_on(texts), lang);
    assert forall|i: int| 0 <= i < lines.len() implies {
        let l = #[trigger] lines[i];
        &&& l.spans.len() == code[i].spans.len() + 1
        &&& l.spans[0].text == "  "@
        &&& l.spans.skip(1) == code[i].spans
    } by {
        assert(lines[i].spans.skip(1) =~= code[i].spans);
    }
    lines
}

proof fn lemma_list_block(s: MdState, inks: Inks, rows: Seq<Seq<MdPiece>>) -> (lines: Seq<LineModel>)
    requires
        s.rests(),
        MdBlock::List(rows).is_written(),
    ensures
        MdBlock::List(rows).shows(inks, lines),
        s.steps(inks, MdBlock::List(rows).parts()).rests(),
        s.steps(inks, MdBlock::List(rows).parts()).lines == s.lines + lines,
{
    let a = seq![MdEventModel::Start(MdTag::List)];
    let c = seq![MdEventModel::End(MdTag::List)];
    lemma_steps(s, inks, a + items_parts(rows), c);
    lemma_steps(s, inks, a, items_parts(rows));
    lemma_one_step(s, inks, a[0]);
    let open = s.step(inks, a[0]);
    let lines = lemma_items(open, inks, rows);
    let full = open.steps(inks, items_parts(rows));
    lemma_one_step(full, inks, c[0]);
    lines
}

proof fn lemma_quote_block(s: MdState, inks: Inks, row: Seq<MdPiece>) -> (lines: Seq<LineModel>)
    requires
        s.rests(),
        MdBlock::Quote(row).is_written(),
    ensures
        MdBlock::Quote(row).shows(inks, lines),
        s.steps(inks, MdBlock::Quote(row).parts()).rests(),
        s.steps(inks, MdBlock::Quote(row).parts()).lines == s.lines + lines,
{
    let a = seq![
        MdEventModel::Start(MdTag::Quote),
        MdEventModel::Start(MdTag::Paragraph),
    ];
    let c = seq![MdEventModel::End(MdTag::Paragraph), MdEventModel::End(MdTag::Quote)];
    lemma_steps(s, inks, a + row_parts(row), c);
    lemma_steps(s, inks, a, row_parts(row));
    assert(a =~= seq![a[0]] + seq![a[1]]);
    lemma_steps(s, inks, seq![a[0]], seq![a[1]]);
    lemma_one_step(s, inks, a[0]);
    lemma_one_step(s.step(inks, a[0]), inks, a[1]);
    let open = s.step(inks, a[0]).step(inks, a[1]);
    let bar = SpanModel { text: "▏ "@, style: Style::spec_plain().spec_dim() };
    assert(open.runs =~= seq![bar]);
    let runs = lemma_row(open, inks, row, false);
    let full = open.steps(inks, row_parts(row));
    assert(c =~= seq![c[0]] + seq![c[1]]);
    lemma_steps(full, inks, seq![c[0]], seq![c[1]]);
    lemma_one_step(full, inks, c[0]);
    lemma_one_step(full.step(inks, c[0]), inks, c[1]);
    let line = LineModel { spans: seq![bar] + runs };
    assert forall|i: int| 0 <= i < row.len() implies (#[trigger] row[i]).shows(
        line.spans[1 + i],
        false,
    ) by {
        assert(line.spans[1 + i] == runs[i]);
    }
    assert(row_shows(row, line, 1, false));
    let lines = seq![line, LineModel { spans: Seq::empty() }];
    assert(full.step(inks, c[0]).lines =~= s.lines + lines);
    lines
}

proof fn lemma_block(s: MdState, inks: Inks, block: MdBlock) -> (lines: Seq<LineModel>)
    requires
        s.rests(),
        block.is_written(),
    ensures
        block.shows(inks, lines),
        s.steps(inks, block.parts()).rests(),
        s.steps(inks, block.parts()).lines == s.lines + lines,
{
    match block {
        MdBlock::Paragraph(rows) => lemma_paragraph_block(s, inks, rows),
        MdBlock::Heading(row) => lemma_heading_block(s, inks, row),
        MdBlock::Code(lang, texts) => lemma_code_block(s, inks, lang, texts),
        MdBlock::List(rows) => lemma_list_block(s, inks, rows),
        MdBlock::Quote(row) => lemma_quote_block(s, inks, row),
    }
}

proof fn lemma_document(inks: Inks, doc: Seq<MdBlock>) -> (blocks: Seq<Seq<LineModel>>)
    requires
        forall|i: int| 0 <= i < doc.len() ==> (#[trigger] doc[i]).is_written(),
    ensures
        blocks.len() == doc.len(),
        forall|i: int| 0 <= i < doc.len() ==> (#[trigger] doc[i]).shows(inks, blocks[i]),
        MdState::blank().steps(inks, document_parts(doc)).rests(),
        MdState::blank().steps(inks, document_parts(doc)).lines == below(blocks),
    decreases doc.len(),
{
    if doc.len() == 0 {
        Seq::empty()
    } else {
        let front = doc.drop_last();
        assert forall|i: int| 0 <= i < front.len() implies (#[trigger] front[i]).is_written() by {
            assert(front[i] == doc[i]);
        }
        let before = lemma_document(inks, front);
        let mid = MdState::blank().steps(inks, document_parts(front));
        assert(doc[doc.len() - 1].is_written());
        let lines = lemma_block(mid, inks, doc.last());
        lemma_steps(MdState::blank(), inks, document_parts(front), doc.last().parts());
        let blocks = before.push(lines);
        assert(blocks.drop_last() =~= before);
        assert forall|i: int| 0 <= i < doc.len() implies (#[trigger] doc[i]).shows(
            inks,
            blocks[i],
        ) by {
            if i < front.len() {
                assert(front[i] == doc[i]);
            }
        }
        blocks
    }
}

/// A document is drawn block by block: its lines are the lines of its blocks, one block
/// below the other, and each block's lines show what it says, whatever stands before it.
pub proof fn law_a_document_is_drawn_block_by_block(inks: Inks, doc: Seq<MdBlock>) -> (blocks: Seq<
    Seq<LineModel>,
>)
    requires
        forall|i: int| 0 <= i < doc.len() ==> (#[trigger] doc[i]).is_written(),
    ensures
        blocks.len() == doc.len(),
        forall|i: int| 0 <= i < doc.len() ==> (#[trigger] doc[i]).shows(inks, blocks[i]),
        MdState::after(inks, document_parts(doc)).finished(inks) == below(blocks),
{
    let blocks = lemma_document(inks, doc);
    lemma_after_is_steps(inks, document_parts(doc));
    blocks
}

/// A code block that is never closed shows as it would if it were.
pub proof fn law_an_open_code_block_shows(
    inks: Inks,
    doc: Seq<MdBlock>,
    lang: Option<Seq<char>>,
    texts: Seq<Seq<char>>,
)
    requires
        forall|i: int| 0 <= i < doc.len() ==> (#[trigger] doc[i]).is_written(),
        lang matches Some(l) ==> l.len() > 0,
        run_on(texts).len() > 0,
    ensures
        ({
            let open = document_parts(doc) + seq![
                match lang {
                    Some(l) => MdEventModel::Fence(l),
                    None => MdEventModel::Start(MdTag::Code),
                },
            ] + texts_parts(texts);
            MdState::after(inks, open).finished(inks) == MdState::after(
                inks,
                open.push(MdEventModel::End(MdTag::Code)),
            ).finished(inks)
        }),
{
    let start = seq![
        match lang {
            Some(l) => MdEventModel::Fence(l),
            None => MdEventModel::Start(MdTag::Code),
        },
    ];
    let open = document_parts(doc) + start + texts_parts(texts);
    let all = open.push(MdEventModel::End(MdTag::Code));
    let b = MdState::blank();
    lemma_after_is_steps(inks, open);
    let blocks = lemma_document(inks, doc);
    lemma_steps(b, inks, document_parts(doc) + start, texts_parts(texts));
    lemma_steps(b, inks, document_parts(doc), start);
    let mid = b.steps(inks, document_parts(doc));
    lemma_one_step(mid, inks, start[0]);
    lemma_code_texts(mid.step(inks, start[0]), inks, texts);
    assert(all.drop_last() =~= open);
    let s = MdState::after(inks, open);
    assert(s.code =~= run_on(texts));
    assert(s.runs.len() == 0);
}

// ---------------------------------------------------------------------------
// Laws: every list of parts
// ---------------------------------------------------------------------------

/// Whether the parts end within a code block.
pub open spec fn ends_in_code(events: Seq<MdEventModel>) -> bool
    decreases events.len(),
{
    if events.len() == 0 {
        false
    } else {
        match events.last() {
            MdEventModel::Fence(_) => true,
            MdEventModel::Start(tag) => tag == MdTag::Code || ends_in_code(events.drop_last()),
            MdEventModel::End(tag) => tag != MdTag::Code && ends_in_code(events.drop_last()),
            _ => ends_in_code(events.drop_last()),
        }
    }
}

/// Whether code blocks hold text alone and are closed once each.
pub open spec fn closes_code(events: Seq<MdEventModel>) -> bool {
    &&& !ends_in_code(events)
    &&& forall|i: int|
        0 <= i < events.len() ==> if ends_in_code(events.take(i)) {
            (#[trigger] events[i]) is Text || events[i] == MdEventModel::End(MdTag::Code)
        } else {
            events[i] != MdEventModel::End(MdTag::Code)
        }
}

/// The texts of the prose among the parts, in order: what stands outside code blocks, and
/// code within a line.
pub open spec fn prose(events: Seq<MdEventModel>) -> Seq<Seq<char>>
    decreases events.len(),
{
    if events.len() == 0 {
        Seq::empty()
    } else {
        let before = prose(events.drop_last());
        match events.last() {
            MdEventModel::Text(t) => if ends_in_code(events.drop_last()) {
                before
            } else {
                before.push(t)
            },
            MdEventModel::Code(t) => before.push(t),
            _ => before,
        }
    }
}

/// The texts of runs.
pub open spec fn run_texts(runs: Seq<SpanModel>) -> Seq<Seq<char>> {
    runs.map_values(|r: SpanModel| r.text)
}

/// The texts of the runs of lines, in order.
pub open spec fn line_texts(lines: Seq<LineModel>) -> Seq<Seq<char>>
    decreases lines.len(),
{
    if lines.len() == 0 {
        Seq::empty()
    } else {
        line_texts(lines.drop_last()) + run_texts(lines.last().spans)
    }
}

/// Whether `part` is `whole` with some of it left out.
pub open spec fn is_among(part: Seq<Seq<char>>, whole: Seq<Seq<char>>) -> bool
    decreases whole.len(),
{
    if part.len() == 0 {
        true
    } else if whole.len() == 0 {
        false
    } else {
        (part.last() == whole.last() && is_among(part.drop_last(), whole.drop_last())) || is_among(
            part,
            whole.drop_last(),
        )
    }
}

proof fn lemma_among_more(part: Seq<Seq<char>>, whole: Seq<Seq<char>>, more: Seq<Seq<char>>)
    requires
        is_among(part, whole),
    ensures
        is_among(part, whole + more),
    decreases more.len(),
{
    if more.len() == 0 {
        assert(whole + more =~= whole);
    } else {
        lemma_among_more(part, whole, more.drop_last());
        assert((whole + more).drop_last() =~= whole + more.drop_last());
    }
}

proof fn lemma_among_push(part: Seq<Seq<char>>, whole: Seq<Seq<char>>, t: Seq<char>)
    requires
        is_among(part, whole),
    ensures
        is_among(part.push(t), whole.push(t)),
{
    assert(part.push(t).drop_last() =~= part);
    assert(whole.push(t).drop_last() =~= whole);
}

proof fn lemma_line_texts_add(a: Seq<LineModel>, b: Seq<LineModel>)
    ensures
        line_texts(a + b) == line_texts(a) + line_texts(b),
    decreases b.len(),
{
    if b.len() == 0 {
        assert(a + b =~= a);
        assert(line_texts(a) + line_texts(b) =~= line_texts(a));
    } else {
        lemma_line_texts_add(a, b.drop_last());
        assert((a + b).drop_last() =~= a + b.drop_last());
        assert(line_texts(a + b) =~= line_texts(a) + line_texts(b));
    }
}

impl MdState {
    /// The texts of all runs so far.
    spec fn said(self) -> Seq<Seq<char>> {
        line_texts(self.lines) + run_texts(self.runs)
    }
}

proof fn lemma_flushed_says_the_same(s: MdState)
    ensures
        s.flushed().said() == s.said(),
        s.spaced().runs.len() == 0 ==> s.spaced().said() == s.said(),
{
    if s.runs.len() > 0 {
        let l = LineModel { spans: s.runs };
        assert(s.lines.push(l).drop_last() =~= s.lines);
        assert(s.flushed().said() =~= s.said());
    }
    let e = LineModel { spans: Seq::<SpanModel>::empty() };
    assert(s.lines.push(e).drop_last() =~= s.lines);
    assert(line_texts(s.lines.push(e)) =~= line_texts(s.lines));
}

proof fn lemma_prose_is_said(inks: Inks, events: Seq<MdEventModel>)
    requires
        forall|i: int|
            0 <= i < events.len() ==> if ends_in_code(events.take(i)) {
                (#[trigger] events[i]) is Text || events[i] == MdEventModel::End(MdTag::Code)
            } else {
                events[i] != MdEventModel::End(MdTag::Code)
            },
    ensures
        MdState::after(inks, events).in_code == ends_in_code(events),
        ends_in_code(events) ==> MdState::after(inks, events).runs.len() == 0,
        is_among(prose(events), MdState::after(inks, events).said()),
    decreases events.len(),
{
    if events.len() > 0 {
        let front = events.drop_last();
        let n = events.len() - 1;
        assert forall|i: int| 0 <= i < front.len() implies if ends_in_code(front.take(i)) {
            (#[trigger] front[i]) is Text || front[i] == MdEventModel::End(MdTag::Code)
        } else {
            front[i] != MdEventModel::End(MdTag::Code)
        } by {
            assert(front.take(i) =~= events.take(i));
            assert(front[i] == events[i]);
        }
        lemma_prose_is_said(inks, front);
        assert(events.take(n) =~= front);
        let e = events[n];
        let s = MdState::after(inks, front);
        let t = s.step(inks, e);
        lemma_flushed_says_the_same(s);
        let f = s.flushed();
        lemma_flushed_says_the_same(f);
        lemma_flushed_says_the_same(MdState { style: Style::spec_plain(), ..f });
        match e {
            MdEventModel::Text(x) => {
                if !s.in_code {
                    assert(t.said() =~= s.said().push(x));
                    lemma_among_push(prose(front), s.said(), x);
                }
            },
            MdEventModel::Code(x) => {
                assert(t.said() =~= s.said().push(x));
                lemma_among_push(prose(front), s.said(), x);
            },
            MdEventModel::Start(tag) => {
                if tag == MdTag::Item {
                    let mark = pairs(s.outer_depth()) + "• "@;
                    assert(t.said() =~= s.said() + seq![mark]);
                    lemma_among_more(prose(front), s.said(), seq![mark]);
                } else if tag == MdTag::Quote {
                    assert(t.said() =~= s.said() + seq!["▏ "@]);
                    lemma_among_more(prose(front), s.said(), seq!["▏ "@]);
                } else {
                    assert(t.said() == s.said());
                }
            },
            MdEventModel::End(tag) => {
                if tag == MdTag::Code {
                    let code = code_block(inks, s.code, s.lang);
                    lemma_line_texts_add(s.lines, code);
                    assert(t.said() =~= s.said() + line_texts(code));
                    lemma_among_more(prose(front), s.said(), line_texts(code));
                } else {
                    assert(t.said() == s.said());
                }
            },
            _ => {
                assert(t.said() == s.said());
            },
        }
    }
}

/// No prose is lost: whatever the parts are, as long as code blocks are closed, every text
/// that stands outside a code block is a run of the lines, in order.
pub proof fn law_prose_is_never_lost(inks: Inks, events: Seq<MdEventModel>)
    requires
        closes_code(events),
    ensures
        is_among(prose(events), line_texts(MdState::after(inks, events).finished(inks))),
{
    lemma_prose_is_said(inks, events);
    let s = MdState::after(inks, events);
    lemma_flushed_says_the_same(s);
    assert(s.flushed().said() =~= line_texts(s.flushed().lines));
}

/// List items stand two columns further to the right for each list that theirs is in.
pub proof fn law_inner_items_stand_further_right(inks: Inks, depth: nat, row: Seq<MdPiece>) -> (
    line: LineModel)
    requires
        depth > 0,
    ensures
        ({
            let parts = Seq::new(depth, |i: int| MdEventModel::Start(MdTag::List)) + (seq![
                MdEventModel::Start(MdTag::Item),
            ] + row_parts(row) + seq![MdEventModel::End(MdTag::Item)]);
            MdState::after(inks, parts).finished(inks) == seq![line]
        }),
        row_shows(row, line, 1, false),
        line.spans[0].text.len() == 2 * depth,
        forall|i: int| 0 <= i < 2 * depth - 2 ==> (#[trigger] line.spans[0].text[i]) == ' ',
        line.spans[0].text.skip(2 * depth - 2) == "• "@,
{
    let opens = Seq::new(depth, |i: int| MdEventModel::Start(MdTag::List));
    let a = seq![MdEventModel::Start(MdTag::Item)];
    let b = row_parts(row);
    let c = seq![MdEventModel::End(MdTag::Item)];
    let blank = MdState::blank();
    lemma_after_is_steps(inks, opens + (a + b + c));
    lemma_steps(blank, inks, opens, a + b + c);
    lemma_opens(inks, depth);
    let deep = blank.steps(inks, opens);
    lemma_steps(deep, inks, a + b, c);
    lemma_steps(deep, inks, a, b);
    lemma_one_step(deep, inks, a[0]);
    let open = deep.step(inks, a[0]);
    let mark = pairs((depth - 1) as nat) + "• "@;
    let bullet = SpanModel { text: mark, style: Style::spec_plain() };
    assert(open.runs =~= seq![bullet]);
    let runs = lemma_row(open, inks, row, false);
    let full = open.steps(inks, b);
    lemma_one_step(full, inks, c[0]);
    let line = LineModel { spans: seq![bullet] + runs };
    assert forall|i: int| 0 <= i < row.len() implies (#[trigger] row[i]).shows(
        line.spans[1 + i],
        false,
    ) by {
        assert(line.spans[1 + i] == runs[i]);
    }
    assert(full.step(inks, c[0]).lines =~= seq![line]);
    lemma_pairs((depth - 1) as nat);
    reveal_strlit("• ");
    assert("• "@.len() == 2);
    assert(mark.skip(2 * depth - 2) =~= "• "@);
    line
}

proof fn lemma_opens(inks: Inks, depth: nat)
    ensures
        MdState::blank().steps(inks, Seq::new(depth, |i: int| MdEventModel::Start(MdTag::List))) == (
        MdState { depth, ..MdState::blank() }),
    decreases depth,
{
    let opens = Seq::new(depth, |i: int| MdEventModel::Start(MdTag::List));
    if depth > 0 {
        lemma_opens(inks, (depth - 1) as nat);
        assert(opens.drop_last() =~= Seq::new(
            (depth - 1) as nat,
            |i: int| MdEventModel::Start(MdTag::List),
        ));
    }
}

proof fn lemma_pairs(n: nat)
    ensures
        pairs(n).len() == 2 * n,
        forall|i: int| 0 <= i < 2 * n ==> (#[trigger] pairs(n)[i]) == ' ',
    decreases n,
{
    reveal_strlit("  ");
    if n > 0 {
        lemma_pairs((n - 1) as nat);
        assert("  "@.len() == 2 && "  "@[0] == ' ' && "  "@[1] == ' ');
    }
}

/// Whether `s` is where `t` is, but for lines that stand above.
spec fn goes_on_below(s: MdState, t: MdState, above: Seq<LineModel>) -> bool {
    &&& s.lines == above + t.lines
    &&& s.runs == t.runs && s.style == t.style && s.depth == t.depth && s.in_code == t.in_code
    &&& s.in_code ==> s.code == t.code && s.lang == t.lang
}

proof fn lemma_flushed_goes_on(s: MdState, t: MdState, above: Seq<LineModel>)
    requires
        goes_on_below(s, t, above),
    ensures
        goes_on_below(s.flushed(), t.flushed(), above),
{
    let line = LineModel { spans: t.runs };
    assert((above + t.lines).push(line) =~= above + t.lines.push(line));
}

proof fn lemma_spaced_goes_on(s: MdState, t: MdState, above: Seq<LineModel>)
    requires
        goes_on_below(s, t, above),
    ensures
        goes_on_below(s.spaced(), t.spaced(), above),
{
    let blank = LineModel { spans: Seq::<SpanModel>::empty() };
    assert((above + t.lines).push(blank) =~= above + t.lines.push(blank));
}

proof fn lemma_end_goes_on(s: MdState, t: MdState, above: Seq<LineModel>, inks: Inks, tag: MdTag)
    requires
        goes_on_below(s, t, above),
        !t.in_code ==> tag != MdTag::Code,
    ensures
        goes_on_below(s.ended(inks, tag), t.ended(inks, tag), above),
{
    match tag {
        MdTag::Heading => {
            lemma_flushed_goes_on(s, t, above);
            lemma_spaced_goes_on(
                MdState { style: Style::spec_plain(), ..s.flushed() },
                MdState { style: Style::spec_plain(), ..t.flushed() },
                above,
            );
        },
        MdTag::Paragraph => {
            lemma_flushed_goes_on(s, t, above);
            lemma_spaced_goes_on(s.flushed(), t.flushed(), above);
        },
        MdTag::Item => lemma_flushed_goes_on(s, t, above),
        MdTag::Code => {
            let block = code_block(inks, t.code, t.lang);
            assert((above + t.lines) + block =~= above + (t.lines + block));
        },
        _ => {},
    }
}

proof fn lemma_goes_on(
    s: MdState,
    t: MdState,
    above: Seq<LineModel>,
    inks: Inks,
    e: MdEventModel,
)
    requires
        goes_on_below(s, t, above),
        !t.in_code ==> e != MdEventModel::End(MdTag::Code),
    ensures
        goes_on_below(s.step(inks, e), t.step(inks, e), above),
{
    match e {
        MdEventModel::End(tag) => lemma_end_goes_on(s, t, above, inks, tag),
        _ => lemma_flushed_goes_on(s, t, above),
    }
}

/// Whether no code block is closed that is not open.
pub open spec fn closes_what_is_open(events: Seq<MdEventModel>) -> bool {
    forall|i: int|
        0 <= i < events.len() && !(ends_in_code(events.take(i))) ==> (#[trigger] events[i])
            != MdEventModel::End(MdTag::Code)
}

proof fn lemma_in_code(inks: Inks, events: Seq<MdEventModel>)
    ensures
        MdState::after(inks, events).in_code == ends_in_code(events),
    decreases events.len(),
{
    if events.len() > 0 {
        lemma_in_code(inks, events.drop_last());
    }
}

proof fn lemma_all_go_on(
    s: MdState,
    above: Seq<LineModel>,
    inks: Inks,
    events: Seq<MdEventModel>,
)
    requires
        goes_on_below(s, MdState::blank(), above),
        closes_what_is_open(events),
    ensures
        goes_on_below(s.steps(inks, events), MdState::after(inks, events), above),
    decreases events.len(),
{
    if events.len() > 0 {
        let front = events.drop_last();
        let n = events.len() - 1;
        assert forall|i: int|
            0 <= i < front.len() && !(ends_in_code(front.take(i))) implies (#[trigger] front[i])
            != MdEventModel::End(MdTag::Code) by {
            assert(front.take(i) =~= events.take(i));
            assert(front[i] == events[i]);
        }
        lemma_all_go_on(s, above, inks, front);
        lemma_in_code(inks, front);
        assert(events.take(n) =~= front);
        assert(!ends_in_code(front) ==> events[n] != MdEventModel::End(MdTag::Code));
        lemma_goes_on(s.steps(inks, front), MdState::after(inks, front), above, inks, events.last());
    }
}

/// What comes behind a closed code block is drawn as it is on its own, below the code,
/// whatever it is.
pub proof fn law_a_closed_code_block_leaves_no_trace(
    inks: Inks,
    lang: Option<Seq<char>>,
    texts: Seq<Seq<char>>,
    rest: Seq<MdEventModel>,
)
    requires
        lang matches Some(l) ==> l.len() > 0,
        closes_what_is_open(rest),
    ensures
        ({
            let code = MdBlock::Code(lang, texts).parts();
            MdState::after(inks, code + rest).finished(inks) == MdState::after(
                inks,
                code,
            ).finished(inks) + MdState::after(inks, rest).finished(inks)
        }),
        MdBlock::Code(lang, texts).shows(
            inks,
            MdState::after(inks, MdBlock::Code(lang, texts).parts()).finished(inks),
        ),
{
    let block = MdBlock::Code(lang, texts);
    let code = block.parts();
    let b = MdState::blank();
    lemma_after_is_steps(inks, code);
    lemma_after_is_steps(inks, code + rest);
    lemma_steps(b, inks, code, rest);
    let lines = lemma_block(b, inks, block);
    let s = MdState::after(inks, code);
    assert(s.lines =~= lines);
    assert(s.runs =~= b.runs);
    lemma_code_style(inks, lang, texts);
    assert(lines + b.lines =~= lines);
    lemma_all_go_on(s, lines, inks, rest);
    let t = MdState::after(inks, rest);
    let u = s.steps(inks, rest);
    let line = LineModel { spans: t.runs };
    let shut = code_block(inks, t.code, t.lang);
    assert((lines + t.lines).push(line) =~= lines + t.lines.push(line));
    assert((lines + t.lines) + shut =~= lines + (t.lines + shut));
    assert((lines + (t.lines + shut)).push(line) =~= lines + (t.lines + shut).push(line));
    assert(u.finished(inks) =~= lines + t.finished(inks));
    assert(s.finished(inks) =~= lines);
}

proof fn lemma_code_style(inks: Inks, lang: Option<Seq<char>>, texts: Seq<Seq<char>>)
    requires
        lang matches Some(l) ==> l.len() > 0,
    ensures
        MdState::after(inks, MdBlock::Code(lang, texts).parts()).style == Style::spec_plain(),
{
    let block = MdBlock::Code(lang, texts);
    let a = seq![
        match lang {
            Some(l) => MdEventModel::Fence(l),
            None => MdEventModel::Start(MdTag::Code),
        },
    ];
    let c = seq![MdEventModel::End(MdTag::Code)];
    let b = MdState::blank();
    lemma_after_is_steps(inks, block.parts());
    lemma_steps(b, inks, a + texts_parts(texts), c);
    lemma_steps(b, inks, a, texts_parts(texts));
    lemma_one_step(b, inks, a[0]);
    let open = b.step(inks, a[0]);
    lemma_code_texts(open, inks, texts);
    let full = open.steps(inks, texts_parts(texts));
    lemma_one_step(full, inks, c[0]);
}

} // verus!
