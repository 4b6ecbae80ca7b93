//! Syntax highlighting of code blocks.

use super::{add_line, copy_lines, Line, LineModel, Span, SpanModel};
use crate::client::opt_text;
use crate::text::{from_range, lines, lines_of, lowered, same, to_chars, to_lower};
use crate::theme::{Color, Style};
use syntect::highlighting::ThemeSet;
use syntect::parsing::{SyntaxReference, SyntaxSet};
use vstd::prelude::*;
use vstd::string::*;

verus! {

#[verifier::external_type_specification]
#[verifier::external_body]
pub struct ExSyntaxSet(SyntaxSet);

#[verifier::external_type_specification]
#[verifier::external_body]
pub struct ExSyntaxReference(SyntaxReference);

#[verifier::external_type_specification]
#[verifier::external_body]
pub struct ExThemeSet(ThemeSet);

/// `syntect::parsing::SyntaxSet::load_defaults_newlines`. Nothing is claimed of
/// the set.
#[verifier::external_body]
fn default_syntaxes() -> SyntaxSet {
    SyntaxSet::load_defaults_newlines()
}

/// `syntect::highlighting::ThemeSet::load_defaults`. Nothing is claimed of the set.
#[verifier::external_body]
fn default_themes() -> ThemeSet {
    ThemeSet::load_defaults()
}

/// A run of a highlighted line, in its color.
#[derive(Debug)]
pub struct Ink {
    pub r: u8,
    pub g: u8,
    pub b: u8,
    pub text: String,
}

/// The value of an [`Ink`].
#[verifier::ext_equal]
pub struct InkModel {
    pub r: u8,
    pub g: u8,
    pub b: u8,
    pub text: Seq<char>,
}

impl DeepView for Ink {
    type V = InkModel;

    open spec fn deep_view(&self) -> InkModel {
        InkModel { r: self.r, g: self.g, b: self.b, text: self.text.deep_view() }
    }
}

/// The syntax of a set that goes by a language's name or file extension.
pub uninterp spec fn token_syntax(set: SyntaxSet, token: Seq<char>) -> Option<SyntaxReference>;

/// The syntax of a set that a text's first line calls for.
pub uninterp spec fn first_line_syntax(set: SyntaxSet, code: Seq<char>) -> Option<SyntaxReference>;

/// The runs of each line of a text under a syntax and a named theme; nothing where
/// the theme is not in the set or the text cannot be parsed.
pub uninterp spec fn inked(
    set: SyntaxSet,
    syntax: SyntaxReference,
    themes: ThemeSet,
    theme: Seq<char>,
    code: Seq<char>,
) -> Option<Seq<Seq<InkModel>>>;

/// `syntect::parsing::SyntaxSet::find_syntax_by_token`.
#[verifier::external_body]
fn syntax_by_token<'a>(set: &'a SyntaxSet, token: &str) -> (r: Option<&'a SyntaxReference>)
    ensures
        r is Some == token_syntax(*set, token@) is Some,
        r matches Some(s) ==> *s == token_syntax(*set, token@)->0,
{
    set.find_syntax_by_token(token)
}

/// `syntect::parsing::SyntaxSet::find_syntax_by_first_line`.
#[verifier::external_body]
fn syntax_by_first_line<'a>(set: &'a SyntaxSet, code: &str) -> (r: Option<&'a SyntaxReference>)
    ensures
        r is Some == first_line_syntax(*set, code@) is Some,
        r matches Some(s) ==> *s == first_line_syntax(*set, code@)->0,
{
    set.find_syntax_by_first_line(code)
}

/// Whether a syntax was found in a set. A syntax refers to the rest of its set by
/// position, so it can be used with no other one.
pub open spec fn found_in(syntax: SyntaxReference, set: SyntaxSet) -> bool {
    ||| exists|token: Seq<char>| #[trigger] token_syntax(set, token) == Some(syntax)
    ||| exists|code: Seq<char>| #[trigger] first_line_syntax(set, code) == Some(syntax)
}

/// `syntect::easy::HighlightLines` over the lines that
/// `syntect::util::LinesWithEndings` yields: the colored runs of each, or nothing
/// where the theme is missing or a line cannot be parsed. The outcome depends on
/// the syntaxes, the themes, the theme's name and the text alone. With a syntax of
/// another set the parser may panic.
#[verifier::external_body]
fn ink_lines(
    set: &SyntaxSet,
    syntax: &SyntaxReference,
    themes: &ThemeSet,
    theme: &str,
    code: &str,
) -> (r: Option<Vec<Vec<Ink>>>)
    requires
        found_in(*syntax, *set),
    ensures
        r.deep_view() == inked(*set, *syntax, *themes, theme@, code@),
{
    let mut h = syntect::easy::HighlightLines::new(syntax, themes.themes.get(theme)?);
    let mut ink = |l| {
        let runs = h.highlight_line(l, set).ok()?;
        let ink = |(s, t): (syntect::highlighting::Style, &str)| {
            let c = s.foreground;
            Ink { r: c.r, g: c.g, b: c.b, text: t.to_string() }
        };
        Some(runs.into_iter().map(ink).collect())
    };
    syntect::util::LinesWithEndings::from(code).map(|l| ink(l)).collect()
}

/// The `syntect` theme for a configured theme, without regard to ASCII case.
pub open spec fn syntax_theme(preset: Option<Seq<char>>) -> Seq<char> {
    if preset is Some && lowered(preset->0) == "gruvbox"@ {
        "base16-eighties.dark"@
    } else if preset is Some && lowered(preset->0) == "catppuccin"@ {
        "base16-mocha.dark"@
    } else {
        "base16-ocean.dark"@
    }
}

/// The `syntect` theme for a configured theme.
pub fn syntect_theme_name(preset: Option<&str>) -> (r: &'static str)
    ensures
        r@ == syntax_theme(opt_text(preset)),
{
    match preset {
        Some(p) => {
            let name = to_lower(p);
            if same(name.as_str(), "gruvbox") {
                "base16-eighties.dark"
            } else if same(name.as_str(), "catppuccin") {
                "base16-mocha.dark"
            } else {
                "base16-ocean.dark"
            }
        },
        None => "base16-ocean.dark",
    }
}

/// `s` without line feeds at its end.
pub open spec fn without_feeds(s: Seq<char>) -> Seq<char>
    decreases s.len(),
{
    if s.len() > 0 && s.last() == '\n' {
        without_feeds(s.drop_last())
    } else {
        s
    }
}

/// A run as a span.
pub open spec fn ink_span(i: InkModel) -> SpanModel {
    SpanModel {
        text: without_feeds(i.text),
        style: Style::spec_plain().spec_fg(Color::Rgb(i.r, i.g, i.b)),
    }
}

/// A highlighted line.
pub open spec fn ink_line(runs: Seq<InkModel>) -> LineModel {
    LineModel { spans: runs.map_values(|i: InkModel| ink_span(i)) }
}

/// The lines of a text, dim.
pub open spec fn dim_lines(code: Seq<char>) -> Seq<LineModel> {
    lines_of(code).map_values(|l: Seq<char>| LineModel::of(l, Style::spec_plain().spec_dim()))
}

/// The syntax of a text: that of the given language, or, without one that is
/// known, the one that its first line calls for.
pub open spec fn syntax_of(set: SyntaxSet, code: Seq<char>, lang: Option<Seq<char>>) -> Option<
    SyntaxReference,
> {
    if lang is Some && token_syntax(set, lang->0) is Some {
        token_syntax(set, lang->0)
    } else {
        first_line_syntax(set, code)
    }
}

/// What highlighting works with: syntaxes, themes and the name of the theme in use.
pub struct Inks {
    pub set: SyntaxSet,
    pub themes: ThemeSet,
    pub theme: Seq<char>,
}

/// A highlighted text; dim where its syntax is not known or highlighting fails.
pub open spec fn highlighted(inks: Inks, code: Seq<char>, lang: Option<Seq<char>>) -> Seq<
    LineModel,
> {
    match syntax_of(inks.set, code, lang) {
        Some(syntax) => colored_or_dim(
            inked(inks.set, syntax, inks.themes, inks.theme, code),
            code,
        ),
        None => dim_lines(code),
    }
}

/// The lines of colored runs; where there are none, the text's lines, dim.
pub open spec fn colored_or_dim(ink: Option<Seq<Seq<InkModel>>>, code: Seq<char>) -> Seq<LineModel> {
    match ink {
        Some(runs) => runs.map_values(|r: Seq<InkModel>| ink_line(r)),
        None => dim_lines(code),
    }
}

/// `s` without line feeds at its end.
fn trim_feeds(s: &str) -> (r: String)
    ensures
        r@ == without_feeds(s@),
{
    let cs = to_chars(s);
    let mut n: usize = cs.len();
    assert(s@.take(n as int) =~= s@);
    while n > 0 && cs[n - 1] == '\n'
        invariant
            n <= cs@.len(),
            cs@ == s@,
            without_feeds(s@) == without_feeds(s@.take(n as int)),
        decreases n,
    {
        assert(s@.take(n as int).drop_last() =~= s@.take(n - 1));
        assert(s@.take(n as int).last() == cs@[n - 1]);
        n -= 1;
    }
    proof {
        if n > 0 {
            assert(s@.take(n as int).last() == cs@[n - 1]);
        }
        assert(s@.subrange(0, n as int) =~= s@.take(n as int));
    }
    from_range(&cs, 0, n)
}

/// A highlighted line.
fn line_of(runs: &Vec<Ink>) -> (r: Line)
    ensures
        r.deep_view() == ink_line(runs.deep_view()),
{
    let ghost all = runs.deep_view();
    let ghost f = |i: InkModel| ink_span(i);
    let mut spans: Vec<Span> = Vec::new();
    let mut i: usize = 0;
    while i < runs.len()
        invariant
            i <= runs@.len(),
            all == runs.deep_view(),
            f == (|i: InkModel| ink_span(i)),
            spans.deep_view() == all.take(i as int).map_values(f),
        decreases runs@.len() - i,
    {
        let ghost before = spans.deep_view();
        let ink = &runs[i];
        let style = Style::plain().fg(Color::Rgb(ink.r, ink.g, ink.b));
        let span = Span::styled(trim_feeds(ink.text.as_str()), style);
        let ghost m = span.deep_view();
        spans.push(span);
        proof {
            assert(all[i as int] == ink.deep_view());
            assert(m == f(all[i as int]));
            assert(spans.deep_view() =~= before.push(m));
            assert(all.take(i + 1).map_values(f) =~= before.push(m));
        }
        i += 1;
    }
    assert(all.take(i as int) =~= all);
    let r = Line { spans };
    assert(r.deep_view().spans =~= ink_line(all).spans);
    r
}

/// The lines of a text, dim.
fn plain(code: &str) -> (r: Vec<Line>)
    ensures
        r.deep_view() == dim_lines(code@),
{
    let ls = lines(code);
    let ghost all = lines_of(code@);
    let ghost f = |l: Seq<char>| LineModel::of(l, Style::spec_plain().spec_dim());
    let mut out: Vec<Line> = Vec::new();
    let mut i: usize = 0;
    assert(out.deep_view() =~= all.take(0).map_values(f));
    while i < ls.len()
        invariant
            i <= ls@.len(),
            all == ls.deep_view(),
            f == (|l: Seq<char>| LineModel::of(l, Style::spec_plain().spec_dim())),
            out.deep_view() == all.take(i as int).map_values(f),
        decreases ls@.len() - i,
    {
        proof {
            assert(all[i as int] == ls@[i as int]@);
            assert(all.take(i + 1).map_values(f) =~= all.take(i as int).map_values(f).push(
                f(all[i as int]),
            ));
        }
        add_line(&mut out, Line::of(ls[i].clone(), Style::plain().dim()));
        i += 1;
    }
    assert(all.take(i as int) =~= all);
    out
}

/// The lines of colored runs; where there are none, the text's lines, dim.
pub fn lines_of_ink(ink: &Option<Vec<Vec<Ink>>>, code: &str) -> (r: Vec<Line>)
    ensures
        r.deep_view() == colored_or_dim(ink.deep_view(), code@),
{
    match ink {
        Some(runs) => {
            let ghost all = runs.deep_view();
            let ghost f = |r: Seq<InkModel>| ink_line(r);
            let mut out: Vec<Line> = Vec::new();
            let mut i: usize = 0;
            assert(out.deep_view() =~= all.take(0).map_values(f));
            while i < runs.len()
                invariant
                    i <= runs@.len(),
                    all == runs.deep_view(),
                    f == (|r: Seq<InkModel>| ink_line(r)),
                    out.deep_view() == all.take(i as int).map_values(f),
                decreases runs@.len() - i,
            {
                proof {
                    assert(all[i as int] == runs@[i as int].deep_view());
                    assert(all.take(i + 1).map_values(f) =~= all.take(i as int).map_values(f).push(
                        f(all[i as int]),
                    ));
                }
                add_line(&mut out, line_of(&runs[i]));
                i += 1;
            }
            assert(all.take(i as int) =~= all);
            out
        },
        None => plain(code),
    }
}

/// Highlights `code` in `lang`. A language that is not known leaves it to the
/// first line to tell; without a syntax the lines are dim.
fn highlight_uncached(
    syntaxes: &SyntaxSet,
    themes: &ThemeSet,
    theme: &str,
    code: &str,
    lang: Option<&str>,
) -> (r: Vec<Line>)
    ensures
        r.deep_view() == highlighted(
            Inks { set: *syntaxes, themes: *themes, theme: theme@ },
            code@,
            opt_text(lang),
        ),
{
    let by_token = match lang {
        Some(l) => syntax_by_token(syntaxes, l),
        None => None,
    };
    let syntax = match by_token {
        Some(s) => Some(s),
        None => syntax_by_first_line(syntaxes, code),
    };
    match syntax {
        Some(s) => {
            let ink = ink_lines(syntaxes, s, themes, theme, code);
            lines_of_ink(&ink, code)
        },
        None => plain(code),
    }
}

/// How many results a [`Highlighter`] keeps.
pub const CACHE_CAP: usize = 512;

/// A result that is kept.
struct Kept {
    code: String,
    lang: Option<String>,
    lines: Vec<Line>,
}

impl Kept {
    /// Whether this is what highlighting gives.
    spec fn holds(&self, inks: Inks) -> bool {
        self.lines.deep_view() == highlighted(inks, self.code@, self.lang.deep_view())
    }
}

/// Highlights code blocks under one theme. The same blocks come again with every
/// frame, so results are kept: up to [`CACHE_CAP`] of them, then all are dropped.
pub struct Highlighter {
    syntaxes: SyntaxSet,
    themes: ThemeSet,
    theme: String,
    kept: Vec<Kept>,
}

/// A text and its language.
pub type Block = (Seq<char>, Option<Seq<char>>);

/// The kept blocks after `block` was asked for.
pub open spec fn kept_after(kept: Seq<Block>, block: Block) -> Seq<Block> {
    if kept.contains(block) {
        kept
    } else if kept.len() >= CACHE_CAP {
        seq![block]
    } else {
        kept.push(block)
    }
}

/// The kept results stay within bounds, the block that was asked for is among them,
/// and asking for it again changes nothing.
pub proof fn law_results_are_kept(kept: Seq<Block>, block: Block)
    requires
        kept.len() <= CACHE_CAP,
    ensures
        kept_after(kept, block).len() <= CACHE_CAP,
        kept_after(kept, block).contains(block),
        kept_after(kept_after(kept, block), block) == kept_after(kept, block),
{
    if !kept.contains(block) {
        let after = kept_after(kept, block);
        assert(after[after.len() - 1] == block);
    }
}

/// Whether a kept result is that of a block.
fn is_block(k: &Kept, code: &str, lang: Option<&str>) -> (r: bool)
    ensures
        r == (k.code@ == code@ && k.lang.deep_view() == opt_text(lang)),
{
    if !same(k.code.as_str(), code) {
        return false;
    }
    match (&k.lang, lang) {
        (Some(a), Some(b)) => same(a.as_str(), b),
        (None, None) => true,
        _ => false,
    }
}

impl Highlighter {
    /// Every kept result is what highlighting gives.
    pub closed spec fn wf(&self) -> bool {
        &&& self.kept@.len() <= CACHE_CAP
        &&& forall|i: int| 0 <= i < self.kept@.len() ==> (#[trigger] self.kept@[i]).holds(
            self.inks(),
        )
    }

    /// The syntaxes, the themes and the theme in use.
    pub closed spec fn inks(&self) -> Inks {
        Inks { set: self.syntaxes, themes: self.themes, theme: self.theme@ }
    }

    /// The blocks whose results are kept, the oldest first.
    pub closed spec fn kept(&self) -> Seq<Block> {
        self.kept@.map_values(|k: Kept| (k.code@, k.lang.deep_view()))
    }

    /// The syntaxes and themes that come with `syntect`, and the theme for no
    /// configured one.
    pub fn new() -> (r: Self)
        ensures
            r.wf(),
            r.inks().theme == syntax_theme(None),
            r.kept() == Seq::<Block>::empty(),
    {
        let r = Highlighter {
            syntaxes: default_syntaxes(),
            themes: default_themes(),
            theme: syntect_theme_name(None).to_owned(),
            kept: Vec::new(),
        };
        assert(r.kept() =~= Seq::<Block>::empty());
        r
    }

    /// How many results are kept.
    pub fn kept_len(&self) -> (r: usize)
        requires
            self.wf(),
        ensures
            r == self.kept().len(),
            r <= CACHE_CAP,
    {
        self.kept.len()
    }

    /// The kept result for a block.
    fn lookup(&self, code: &str, lang: Option<&str>) -> (r: Option<Vec<Line>>)
        requires
            self.wf(),
        ensures
            r is Some == self.kept().contains((code@, opt_text(lang))),
            r matches Some(lines) ==> lines.deep_view() == highlighted(
                self.inks(),
                code@,
                opt_text(lang),
            ),
    {
        let ghost block = (code@, opt_text(lang));
        let n: usize = self.kept.len();
        let mut i: usize = 0;
        while i < n
            invariant
                i <= n == self.kept@.len(),
                block == (code@, opt_text(lang)),
                forall|j: int| 0 <= j < self.kept@.len() ==> (#[trigger] self.kept@[j]).holds(
                    self.inks(),
                ),
                forall|j: int| 0 <= j < i ==> #[trigger] self.kept()[j] != block,
            decreases n - i,
        {
            if is_block(&self.kept[i], code, lang) {
                proof {
                    assert(self.kept()[i as int] == block);
                    assert(self.kept@[i as int].holds(self.inks()));
                }
                let ls = self.kept[i].lines.as_slice();
                assert(ls.deep_view() =~= self.kept@[i as int].lines.deep_view());
                return Some(copy_lines(ls));
            }
            i += 1;
        }
        assert(!self.kept().contains(block));
        None
    }

    /// Keeps one more result.
    fn keep(&mut self, entry: Kept)
        requires
            old(self).wf(),
            entry.holds(old(self).inks()),
        ensures
            final(self).wf(),
            final(self).inks() == old(self).inks(),
            final(self).kept() == if old(self).kept().len() >= CACHE_CAP {
                seq![(entry.code@, entry.lang.deep_view())]
            } else {
                old(self).kept().push((entry.code@, entry.lang.deep_view()))
            },
    {
        let ghost before = self.kept();
        let ghost block = (entry.code@, entry.lang.deep_view());
        if self.kept.len() >= CACHE_CAP {
            self.kept = vec![entry];
            assert(self.kept() =~= seq![block]);
        } else {
            self.kept.push(entry);
            assert(self.kept() =~= before.push(block));
        }
    }
}

/// Selects the code-block theme that matches the configured theme.
pub fn select_syntect_theme(h: &mut Highlighter, preset: Option<&str>)
    ensures
        final(h).wf(),
        final(h).inks() == (Inks { theme: syntax_theme(opt_text(preset)), ..old(h).inks() }),
        final(h).kept() == Seq::<Block>::empty(),
{
    h.kept = Vec::new();
    h.theme = syntect_theme_name(preset).to_owned();
    assert(h.kept() =~= Seq::<Block>::empty());
}

/// Highlights `code` in `lang`. A language that is not known leaves it to the
/// first line to tell; without a syntax the lines are dim.
#[must_use]
pub fn highlight(h: &mut Highlighter, code: &str, lang: Option<&str>) -> (r: Vec<Line>)
    requires
        old(h).wf(),
    ensures
        final(h).wf(),
        r.deep_view() == highlighted(old(h).inks(), code@, opt_text(lang)),
        final(h).inks() == old(h).inks(),
        final(h).kept() == kept_after(old(h).kept(), (code@, opt_text(lang))),
{
    let ghost block = (code@, opt_text(lang));
    if let Some(lines) = h.lookup(code, lang) {
        return lines;
    }
    let ghost kept = h.kept();
    let lines = highlight_uncached(&h.syntaxes, &h.themes, h.theme.as_str(), code, lang);
    let ls = lines.as_slice();
    assert(ls.deep_view() =~= lines.deep_view());
    let lang: Option<String> = match lang {
        Some(l) => Some(l.to_owned()),
        None => None,
    };
    let entry = Kept { code: code.to_owned(), lang, lines: copy_lines(ls) };
    h.keep(entry);
    assert(!kept.contains(block));
    lines
}

/// Line feeds at the end of a run are not drawn, and nothing else is left out.
pub proof fn law_only_feeds_are_left_out(s: Seq<char>)
    ensures
        without_feeds(s).len() <= s.len(),
        s.take(without_feeds(s).len() as int) == without_feeds(s),
        forall|i: int| without_feeds(s).len() <= i < s.len() ==> (#[trigger] s[i]) == '\n',
        without_feeds(s).len() > 0 ==> without_feeds(s).last() != '\n',
    decreases s.len(),
{
    if s.len() > 0 && s.last() == '\n' {
        let front = s.drop_last();
        law_only_feeds_are_left_out(front);
        let n = without_feeds(s).len() as int;
        assert(front.take(n) =~= s.take(n));
        assert forall|i: int| n <= i < s.len() implies (#[trigger] s[i]) == '\n' by {
            if i < front.len() {
                assert(front[i] == s[i]);
            }
        }
    } else {
        assert(s.take(s.len() as int) =~= s);
    }
}

/// Highlighted code is drawn run by run: each run of each line in its color, with its text
/// but for the feeds at its end. Code that nothing highlights is drawn dim, line by line.
pub proof fn law_code_is_drawn_run_by_run(ink: &Option<Vec<Vec<Ink>>>, code: &str, r: Vec<Line>)
    requires
        call_ensures(lines_of_ink, (ink, code), r),
    ensures
        ink.deep_view() matches Some(runs) ==> r@.len() == runs.len() && forall|i: int, j: int|
            0 <= i < runs.len() && 0 <= j < runs[i].len() ==> {
                let shown = r.deep_view()[i].spans;
                let run = #[trigger] runs[i][j];
                &&& shown.len() == runs[i].len()
                &&& shown[j].style.fg == Some(Color::Rgb(run.r, run.g, run.b))
                &&& shown[j].style.bg is None
                &&& shown[j].text == run.text.take(shown[j].text.len() as int)
                &&& forall|k: int|
                    shown[j].text.len() <= k < run.text.len() ==> (#[trigger] run.text[k]) == '\n'
                &&& shown[j].text.len() > 0 ==> shown[j].text.last() != '\n'
            },
        ink.deep_view() is None ==> r@.len() == lines_of(code@).len() && forall|i: int|
            0 <= i < r@.len() ==> {
                let shown = (#[trigger] r.deep_view()[i]).spans;
                &&& shown.len() == 1
                &&& shown[0].text == lines_of(code@)[i]
                &&& shown[0].style.add_modifier.dim && shown[0].style.fg is None
            },
{
    assert(r.deep_view().len() == r@.len());
    if ink.deep_view() is Some {
        let runs = ink.deep_view()->0;
        assert forall|i: int, j: int| 0 <= i < runs.len() && 0 <= j < runs[i].len() implies {
            let shown = r.deep_view()[i].spans;
            let run = #[trigger] runs[i][j];
            &&& shown.len() == runs[i].len()
            &&& shown[j].style.fg == Some(Color::Rgb(run.r, run.g, run.b))
            &&& shown[j].style.bg is None
            &&& shown[j].text == run.text.take(shown[j].text.len() as int)
            &&& forall|k: int|
                shown[j].text.len() <= k < run.text.len() ==> (#[trigger] run.text[k]) == '\n'
            &&& shown[j].text.len() > 0 ==> shown[j].text.last() != '\n'
        } by {
            law_only_feeds_are_left_out(runs[i][j].text);
        }
    }
}

/// A language that is known by its name is taken, whatever the code looks like; without one
/// the first line tells.
pub proof fn law_the_named_language_is_taken(inks: Inks, a: Seq<char>, b: Seq<char>, lang: Seq<char>)
    ensures
        token_syntax(inks.set, lang) is Some ==> syntax_of(inks.set, a, Some(lang)) == token_syntax(
            inks.set,
            lang,
        ) && syntax_of(inks.set, a, Some(lang)) == syntax_of(inks.set, b, Some(lang)),
        token_syntax(inks.set, lang) is None ==> syntax_of(inks.set, a, Some(lang)) == syntax_of(
            inks.set,
            a,
            None,
        ),
        syntax_of(inks.set, a, None) == first_line_syntax(inks.set, a),
{
}

/// Each preset is highlighted in a theme of its own kind, whatever the case of its name, and
/// an unknown one as none is.
pub proof fn law_presets_have_their_colors(name: Seq<char>)
    ensures
        lowered(name) == "gruvbox"@ ==> syntax_theme(Some(name)) == "base16-eighties.dark"@,
        lowered(name) == "catppuccin"@ ==> syntax_theme(Some(name)) == "base16-mocha.dark"@,
        lowered(name) != "gruvbox"@ && lowered(name) != "catppuccin"@ ==> syntax_theme(Some(name))
            == "base16-ocean.dark"@,
        syntax_theme(None) == "base16-ocean.dark"@,
{
    reveal_strlit("gruvbox");
    reveal_strlit("catppuccin");
    assert("gruvbox"@.len() != "catppuccin"@.len());
}

} // verus!
