//! The startup splash: a wordmark with its tagline, and a llama portrait below it.
//!
//! All sizes are measured from the art, so the art can be redrawn freely.

use crate::render::{add_line, Line, LineModel};
use crate::text::{contains, copies, has, lines, lines_of, to_chars, trim, trimmed};
use crate::theme::Theme;
use vstd::prelude::*;
use vstd::string::*;

verus! {

/// The art: the banner, then the portrait, which its `@` fill tells apart.
pub const ART: &'static str = "         __  __
  ____  / /_/ /_____
 / __ \\/ __/ __/ __ \\
/ /_/ / /_/ /_/ /_/ /
\\____/\\__/\\__/\\____/
the llama that codes

      @@  @@
      @@  @@
      @@@@@@
     @@@@@@@@
     @  @@  @
     @@@@@@@@
      @@--@@
       @@@@
       @@@@
       @@@@@@@@@@@@@@
       @@@@@@@@@@@@@@@
       @@@@@@@@@@@@@@@
       @@@@      @@@@
       @@ @@     @@ @@
       @@ @@     @@ @@
";

/// Rows left free above and below the art, in all.
pub const VERT_MARGIN: u16 = 2;

/// Ticks the splash stays up: about three seconds.
pub const SPLASH_TICKS: u16 = 24;

/// How many of `all` come before the first line with an `@`.
pub open spec fn banner_len(all: Seq<Seq<char>>) -> nat
    decreases all.len(),
{
    if all.len() == 0 || has(all[0], "@"@) {
        0
    } else {
        1 + banner_len(all.drop_first())
    }
}

/// `all` without blank lines at the end.
pub open spec fn without_blank_end(all: Seq<Seq<char>>) -> Seq<Seq<char>>
    decreases all.len(),
{
    if all.len() > 0 && trimmed(all.last()).len() == 0 {
        without_blank_end(all.drop_last())
    } else {
        all
    }
}

/// The lines of an art's banner.
pub open spec fn banner_of(art: Seq<char>) -> Seq<Seq<char>> {
    without_blank_end(lines_of(art).take(banner_len(lines_of(art)) as int))
}

/// The lines of an art's portrait.
pub open spec fn portrait_of(art: Seq<char>) -> Seq<Seq<char>> {
    without_blank_end(lines_of(art).skip(banner_len(lines_of(art)) as int))
}

/// The characters of the longest line.
pub open spec fn widest(all: Seq<Seq<char>>) -> nat
    decreases all.len(),
{
    if all.len() == 0 {
        0
    } else if all.last().len() > widest(all.drop_last()) {
        all.last().len()
    } else {
        widest(all.drop_last())
    }
}

proof fn lemma_banner_len(all: Seq<Seq<char>>, n: int)
    requires
        0 <= n <= all.len(),
        forall|i: int| 0 <= i < n ==> !(has(#[trigger] all[i], "@"@)),
        n == all.len() || has(all[n], "@"@),
    ensures
        banner_len(all) == n,
    decreases n,
{
    if n > 0 {
        assert(!(has(all[0], "@"@)));
        let rest = all.drop_first();
        assert forall|i: int| 0 <= i < n - 1 implies !(has(#[trigger] rest[i], "@"@)) by {
            assert(rest[i] == all[i + 1]);
        }
        if n < all.len() {
            assert(rest[n - 1] == all[n]);
        }
        lemma_banner_len(rest, n - 1);
    }
}

/// `all` without blank lines at the end.
fn trim_trailing_blank(all: &[String]) -> (r: Vec<String>)
    ensures
        r.deep_view() == without_blank_end(all.deep_view()),
{
    let ghost m = all.deep_view();
    let mut end: usize = all.len();
    assert(m.take(end as int) =~= m);
    while end > 0 && trim(all[end - 1].as_str()).as_str().is_empty()
        invariant
            end <= all@.len(),
            m == all.deep_view(),
            without_blank_end(m) == without_blank_end(m.take(end as int)),
        decreases end,
    {
        proof {
            assert(m.take(end as int).last() == all@[end - 1]@);
            assert(m.take(end as int).drop_last() =~= m.take(end - 1));
        }
        end -= 1;
    }
    proof {
        if end > 0 {
            assert(m.take(end as int).last() == all@[end - 1]@);
        }
        assert(m.take(end as int) =~= all@.subrange(0, end as int).map_values(
            |s: String| s.deep_view(),
        ));
    }
    let kept = vstd::slice::slice_subrange(all, 0, end);
    assert(kept.deep_view() =~= m.take(end as int));
    copies(kept)
}

/// The banner and the portrait of an art.
pub fn sections(art: &str) -> (r: (Vec<String>, Vec<String>))
    ensures
        r.0.deep_view() == banner_of(art@),
        r.1.deep_view() == portrait_of(art@),
{
    let all = lines(art);
    let ghost m = all.deep_view();
    let mut split: usize = 0;
    while split < all.len() && !contains(all[split].as_str(), "@")
        invariant
            split <= all@.len(),
            m == all.deep_view(),
            forall|i: int| 0 <= i < split ==> !(has(#[trigger] m[i], "@"@)),
        decreases all@.len() - split,
    {
        assert(m[split as int] == all@[split as int]@);
        split += 1;
    }
    proof {
        if split < all@.len() {
            assert(m[split as int] == all@[split as int]@);
        }
        lemma_banner_len(m, split as int);
    }
    let s = all.as_slice();
    let top = vstd::slice::slice_subrange(s, 0, split);
    let rest = vstd::slice::slice_subrange(s, split, all.len());
    proof {
        assert(top.deep_view() =~= m.take(split as int));
        assert(rest.deep_view() =~= m.skip(split as int));
    }
    (trim_trailing_blank(top), trim_trailing_blank(rest))
}

/// The characters of the longest line.
pub fn max_width(all: &[String]) -> (r: usize)
    ensures
        r == widest(all.deep_view()),
{
    let ghost m = all.deep_view();
    let mut best: usize = 0;
    let mut i: usize = 0;
    while i < all.len()
        invariant
            i <= all@.len(),
            m == all.deep_view(),
            best == widest(m.take(i as int)),
        decreases all@.len() - i,
    {
        proof {
            assert(m.take(i + 1).last() == all@[i as int]@);
            assert(m.take(i + 1).drop_last() =~= m.take(i as int));
        }
        let n: usize = to_chars(all[i].as_str()).len();
        if n > best {
            best = n;
        }
        i += 1;
    }
    assert(m.take(i as int) =~= m);
    best
}

/// Which splash fits a terminal.
#[derive(Debug, Clone, Copy, PartialEq, Eq, Structural)]
pub enum SplashVariant {
    /// Too small even for the banner: nothing is shown.
    Hidden,
    /// The banner alone.
    Banner,
    /// The banner and the portrait.
    Full,
}

/// The largest splash of an art that fits a terminal. The full one is as wide as the
/// wider part, and has a free row between the parts.
pub open spec fn fitting(art: Seq<char>, width: u16, height: u16) -> SplashVariant {
    let banner = banner_of(art);
    let portrait = portrait_of(art);
    if width >= widest(banner) && width >= widest(portrait) && height >= banner.len() + 1
        + portrait.len() + VERT_MARGIN {
        SplashVariant::Full
    } else if width >= widest(banner) && height >= banner.len() + VERT_MARGIN {
        SplashVariant::Banner
    } else {
        SplashVariant::Hidden
    }
}

/// The largest splash of an art that fits a terminal.
pub fn variant_of(art: &str, width: u16, height: u16) -> (r: SplashVariant)
    ensures
        r == fitting(art@, width, height),
{
    let (banner, portrait) = sections(art);
    let bs = banner.as_slice();
    let ps = portrait.as_slice();
    proof {
        assert(bs.deep_view() =~= banner.deep_view());
        assert(ps.deep_view() =~= portrait.deep_view());
    }
    let w: usize = width as usize;
    let h: u128 = height as u128;
    let banner_w: usize = max_width(bs);
    let portrait_w: usize = max_width(ps);
    let banner_h: u128 = banner.len() as u128;
    let full_h: u128 = banner_h + 1 + portrait.len() as u128;
    if w >= banner_w && w >= portrait_w && h >= full_h + VERT_MARGIN as u128 {
        SplashVariant::Full
    } else if w >= banner_w && h >= banner_h + VERT_MARGIN as u128 {
        SplashVariant::Banner
    } else {
        SplashVariant::Hidden
    }
}

/// The largest splash that fits a terminal.
#[must_use]
pub fn splash_variant(width: u16, height: u16) -> (r: SplashVariant)
    ensures
        r == fitting(ART@, width, height),
{
    variant_of(ART, width, height)
}

/// Whether the splash shows at all: not where a flag or the environment turns it
/// off, nor without a terminal.
#[must_use]
pub fn should_show_splash(no_splash_flag: bool, no_splash_env: bool, is_tty: bool) -> (r: bool)
    ensures
        r == (!no_splash_flag && !no_splash_env && is_tty),
{
    !no_splash_flag && !no_splash_env && is_tty
}

/// The splash at startup: its ticks, where it shows and something of it fits.
#[must_use]
pub fn initial_splash(
    no_splash_flag: bool,
    no_splash_env: bool,
    is_tty: bool,
    width: u16,
    height: u16,
) -> (r: Option<u16>)
    ensures
        r == if !no_splash_flag && !no_splash_env && is_tty && fitting(ART@, width, height)
            != SplashVariant::Hidden {
            Some(SPLASH_TICKS)
        } else {
            None
        },
{
    if should_show_splash(no_splash_flag, no_splash_env, is_tty) && splash_variant(width, height)
        != SplashVariant::Hidden {
        Some(SPLASH_TICKS)
    } else {
        None
    }
}

/// The lines of a splash: the banner in the accent, and in a full one a free row
/// and the portrait below it.
pub open spec fn splash_lines(art: Seq<char>, variant: SplashVariant, theme: Theme) -> Seq<
    LineModel,
> {
    let banner = banner_of(art).map_values(|l: Seq<char>| LineModel::of(l, theme.accent));
    match variant {
        SplashVariant::Hidden => Seq::empty(),
        SplashVariant::Banner => banner,
        SplashVariant::Full => banner.push(LineModel::of(Seq::empty(), theme.text))
            + portrait_of(art).map_values(|l: Seq<char>| LineModel::of(l, theme.text)),
    }
}

/// Lines of one style.
fn styled_lines(all: &[String], style: crate::theme::Style) -> (r: Vec<Line>)
    ensures
        r.deep_view() == all.deep_view().map_values(|l: Seq<char>| LineModel::of(l, style)),
{
    let ghost m = all.deep_view();
    let ghost f = |l: Seq<char>| LineModel::of(l, style);
    let mut out: Vec<Line> = Vec::new();
    let mut i: usize = 0;
    assert(out.deep_view() =~= m.take(0).map_values(f));
    while i < all.len()
        invariant
            i <= all@.len(),
            m == all.deep_view(),
            f == (|l: Seq<char>| LineModel::of(l, style)),
            out.deep_view() == m.take(i as int).map_values(f),
        decreases all@.len() - i,
    {
        proof {
            assert(m[i as int] == all@[i as int]@);
            assert(m.take(i + 1).map_values(f) =~= m.take(i as int).map_values(f).push(
                f(m[i as int]),
            ));
        }
        add_line(&mut out, Line::of(all[i].clone(), style));
        i += 1;
    }
    assert(m.take(i as int) =~= m);
    out
}

/// The lines of a splash.
pub fn rows(art: &str, variant: SplashVariant, theme: &Theme) -> (r: Vec<Line>)
    ensures
        r.deep_view() == splash_lines(art@, variant, *theme),
{
    if variant == SplashVariant::Hidden {
        let r: Vec<Line> = Vec::new();
        assert(r.deep_view() =~= splash_lines(art@, variant, *theme));
        return r;
    }
    let (banner, portrait) = sections(art);
    let bs = banner.as_slice();
    let ps = portrait.as_slice();
    proof {
        assert(bs.deep_view() =~= banner.deep_view());
        assert(ps.deep_view() =~= portrait.deep_view());
    }
    let mut out = styled_lines(bs, theme.accent);
    if variant == SplashVariant::Full {
        add_line(&mut out, Line::of(String::new(), theme.text));
        crate::render::add_lines(&mut out, styled_lines(ps, theme.text));
    }
    out
}

/// A terminal that fits a splash fits it at any larger size too.
pub proof fn law_larger_terminals_keep_the_splash(
    art: Seq<char>,
    width: u16,
    height: u16,
    wider: u16,
    higher: u16,
)
    requires
        wider >= width,
        higher >= height,
    ensures
        fitting(art, width, height) == SplashVariant::Full ==> fitting(art, wider, higher)
            == SplashVariant::Full,
        fitting(art, width, height) != SplashVariant::Hidden ==> fitting(art, wider, higher)
            != SplashVariant::Hidden,
{
}

proof fn lemma_widest(all: Seq<Seq<char>>)
    ensures
        forall|i: int| 0 <= i < all.len() ==> (#[trigger] all[i]).len() <= widest(all),
        all.len() > 0 ==> exists|i: int| 0 <= i < all.len() && (#[trigger] all[i]).len() == widest(all),
    decreases all.len(),
{
    if all.len() > 0 {
        let front = all.drop_last();
        lemma_widest(front);
        assert forall|i: int| 0 <= i < all.len() implies (#[trigger] all[i]).len() <= widest(all) by {
            if i < front.len() {
                assert(front[i] == all[i]);
            }
        }
        if all.last().len() > widest(front) || front.len() == 0 {
            assert(all[all.len() - 1].len() == widest(all));
        } else {
            let i = choose|i: int| 0 <= i < front.len() && (#[trigger] front[i]).len() == widest(front);
            assert(all[i] == front[i]);
        }
    }
}

proof fn lemma_banner_ends(all: Seq<Seq<char>>)
    ensures
        banner_len(all) <= all.len(),
        forall|i: int| 0 <= i < banner_len(all) ==> !(has(#[trigger] all[i], "@"@)),
        banner_len(all) < all.len() ==> has(all[banner_len(all) as int], "@"@),
    decreases all.len(),
{
    if all.len() > 0 && !(has(all[0], "@"@)) {
        let rest = all.drop_first();
        lemma_banner_ends(rest);
        assert forall|i: int| 0 <= i < banner_len(all) implies !(has(#[trigger] all[i], "@"@)) by {
            if i > 0 {
                assert(rest[i - 1] == all[i]);
            }
        }
    }
}

proof fn lemma_blank_end(all: Seq<Seq<char>>)
    ensures
        without_blank_end(all).len() <= all.len(),
        without_blank_end(all) == all.take(without_blank_end(all).len() as int),
        without_blank_end(all).len() > 0 ==> trimmed(without_blank_end(all).last()).len() > 0,
        forall|i: int|
            without_blank_end(all).len() <= i < all.len() ==> trimmed(#[trigger] all[i]).len() == 0,
    decreases all.len(),
{
    if all.len() > 0 && trimmed(all.last()).len() == 0 {
        let front = all.drop_last();
        lemma_blank_end(front);
        let n = without_blank_end(all).len() as int;
        assert(front.take(n) =~= all.take(n));
        assert forall|i: int| n <= i < all.len() implies trimmed(#[trigger] all[i]).len() == 0 by {
            if i < front.len() {
                assert(front[i] == all[i]);
            }
        }
    } else {
        assert(all.take(all.len() as int) =~= all);
    }
}

/// The art is its banner and its portrait: the banner is the lines before the first one with
/// an at sign, the portrait begins with that line, and only blank lines are left out behind
/// either.
pub proof fn law_the_art_is_banner_and_portrait(art: Seq<char>) -> (n: int)
    ensures
        ({
            let all = lines_of(art);
            let banner = banner_of(art);
            let portrait = portrait_of(art);
            &&& 0 <= n <= all.len()
            &&& forall|i: int| 0 <= i < n ==> !(has(#[trigger] all[i], "@"@))
            &&& n < all.len() ==> has(all[n], "@"@)
            &&& banner.len() <= n && banner == all.take(banner.len() as int)
            &&& portrait.len() <= all.len() - n && portrait == all.subrange(
                n,
                n + portrait.len(),
            )
            &&& forall|i: int| banner.len() <= i < n ==> trimmed(#[trigger] all[i]).len() == 0
            &&& forall|i: int|
                n + portrait.len() <= i < all.len() ==> trimmed(#[trigger] all[i]).len() == 0
            &&& banner.len() > 0 ==> trimmed(banner.last()).len() > 0
            &&& portrait.len() > 0 ==> trimmed(portrait.last()).len() > 0
        }),
{
    let all = lines_of(art);
    let n = banner_len(all) as int;
    lemma_banner_ends(all);
    let a = all.take(n);
    let b = all.skip(n);
    lemma_blank_end(a);
    lemma_blank_end(b);
    let banner = banner_of(art);
    let portrait = portrait_of(art);
    assert(banner =~= all.take(banner.len() as int));
    assert(portrait =~= all.subrange(n, n + portrait.len()));
    assert forall|i: int| banner.len() <= i < n implies trimmed(#[trigger] all[i]).len() == 0 by {
        assert(a[i] == all[i]);
    }
    assert forall|i: int| n + portrait.len() <= i < all.len() implies trimmed(
        #[trigger] all[i],
    ).len() == 0 by {
        assert(b[i - n] == all[i]);
    }
    n
}

/// A splash fits into its terminal with the margin left, each of its lines whole; a smaller
/// one is shown only where the larger one does not fit, and none only where neither does.
pub proof fn law_a_splash_fits(art: Seq<char>, width: u16, height: u16, theme: Theme)
    ensures
        ({
            let banner = banner_of(art);
            let portrait = portrait_of(art);
            let variant = fitting(art, width, height);
            let lines = splash_lines(art, variant, theme);
            let narrow = |ls: Seq<Seq<char>>|
                forall|i: int| 0 <= i < ls.len() ==> (#[trigger] ls[i]).len() <= width;
            &&& lines.len() > 0 ==> lines.len() + VERT_MARGIN <= height
            &&& forall|k: int|
                0 <= k < lines.len() ==> (#[trigger] lines[k]).spans.len() == 1
                    && lines[k].spans[0].text.len() <= width
            &&& variant == SplashVariant::Full <==> narrow(banner) && narrow(portrait)
                && banner.len() + 1 + portrait.len() + VERT_MARGIN <= height
            &&& variant == SplashVariant::Hidden <==> !(narrow(banner) && banner.len()
                + VERT_MARGIN <= height)
            &&& variant == SplashVariant::Banner ==> lines.len() == banner.len() && forall|i: int|
                0 <= i < banner.len() ==> (#[trigger] lines[i]).spans[0].text == banner[i]
            &&& variant == SplashVariant::Full ==> lines.len() == banner.len() + 1 + portrait.len()
                && (forall|i: int|
                0 <= i < banner.len() ==> (#[trigger] lines[i]).spans[0].text == banner[i])
                && lines[banner.len() as int].spans[0].text.len() == 0 && (forall|i: int|
                banner.len() < i < lines.len() ==> (#[trigger] lines[i]).spans[0].text
                    == portrait[i - banner.len() - 1])
        }),
{
    lemma_widest(banner_of(art));
    lemma_widest(portrait_of(art));
    lemma_widest_least(banner_of(art), width as nat);
    lemma_widest_least(portrait_of(art), width as nat);
}

proof fn lemma_widest_least(all: Seq<Seq<char>>, n: nat)
    ensures
        widest(all) <= n <==> forall|i: int| 0 <= i < all.len() ==> (#[trigger] all[i]).len() <= n,
{
    lemma_widest(all);
    if all.len() > 0 {
        let i = choose|i: int| 0 <= i < all.len() && (#[trigger] all[i]).len() == widest(all);
        assert(all[i].len() == widest(all));
    }
}

} // verus!
