//! Terminal appearance: light or dark, and how many colors.

pub mod os_theme;

use crate::client::opt_text;
use crate::text::{contains, has, lowered, same_ignoring_case};
use crate::theme::{Color, Style, Theme};
use vstd::prelude::*;

verus! {

/// The operating system's light or dark setting.
#[derive(Debug, Clone, Copy, PartialEq, Eq, Structural)]
pub enum ThemeMode {
    Light,
    Dark,
}

/// How many colors the terminal has, from most to fewest.
#[derive(Debug, Clone, Copy, PartialEq, Eq, Structural)]
pub enum ColorDepth {
    TrueColor,
    Ansi256,
    Ansi16,
}

/// The color depth that `COLORTERM` and `TERM` announce.
pub open spec fn announced_depth(colorterm: Option<Seq<char>>, term: Option<Seq<char>>) -> ColorDepth {
    if colorterm is Some && (lowered(colorterm->0) == lowered("truecolor"@) || lowered(
        colorterm->0,
    ) == lowered("24bit"@)) {
        ColorDepth::TrueColor
    } else if term is Some && has(term->0, "256color"@) {
        ColorDepth::Ansi256
    } else {
        ColorDepth::Ansi16
    }
}

/// Detects the color depth from the values of `COLORTERM` and `TERM`. What is
/// not recognized counts as sixteen colors, the safest assumption.
pub fn detect_color_depth_from(colorterm: Option<&str>, term: Option<&str>) -> (r: ColorDepth)
    ensures
        r == announced_depth(opt_text(colorterm), opt_text(term)),
{
    let truecolor: bool = match colorterm {
        Some(v) => same_ignoring_case(v, "truecolor") || same_ignoring_case(v, "24bit"),
        None => false,
    };
    if truecolor {
        return ColorDepth::TrueColor;
    }
    let many: bool = match term {
        Some(t) => contains(t, "256color"),
        None => false,
    };
    if many {
        ColorDepth::Ansi256
    } else {
        ColorDepth::Ansi16
    }
}

/// The level `i` of a channel of the 6x6x6 color cube.
pub open spec fn cube_level(i: int) -> int {
    if i <= 0 {
        0
    } else {
        55 + 40 * i
    }
}

/// The cube level nearest to `v`, the lower one where two are as near.
pub open spec fn nearest_level(v: u8) -> u8 {
    if v < 48 {
        0
    } else if v <= 115 {
        1
    } else if v <= 155 {
        2
    } else if v <= 195 {
        3
    } else if v <= 235 {
        4
    } else {
        5
    }
}

/// How far apart two channel values are.
pub open spec fn distance(a: int, b: int) -> int {
    if a < b {
        b - a
    } else {
        a - b
    }
}

/// No cube level is nearer to a channel value than the chosen one, and no lower
/// one is as near.
pub proof fn law_nearest_level_is_nearest(v: u8, i: int)
    requires
        0 <= i < 6,
    ensures
        nearest_level(v) < 6,
        distance(cube_level(nearest_level(v) as int), v as int) <= distance(cube_level(i), v as int),
        i < nearest_level(v) ==> distance(cube_level(nearest_level(v) as int), v as int) < distance(
            cube_level(i),
            v as int,
        ),
{
}

/// The index of the cube color nearest to an RGB triple, channel by channel.
pub open spec fn cube_index(r: u8, g: u8, b: u8) -> u8 {
    (16 + 36 * nearest_level(r) + 6 * nearest_level(g) + nearest_level(b)) as u8
}

/// The cube level nearest to `v`.
fn to_cube(v: u8) -> (r: u8)
    ensures
        r == nearest_level(v),
        r <= 5,
{
    if v < 48 {
        0
    } else if v <= 115 {
        1
    } else if v <= 155 {
        2
    } else if v <= 195 {
        3
    } else if v <= 235 {
        4
    } else {
        5
    }
}

/// Maps an RGB triple to the nearest color of the 6x6x6 cube. The gray ramp is
/// not considered.
pub fn rgb_to_256(r: u8, g: u8, b: u8) -> (i: u8)
    ensures
        i == cube_index(r, g, b),
        16 <= i <= 231,
{
    16 + 36 * to_cube(r) + 6 * to_cube(g) + to_cube(b)
}

/// How many basic colors there are.
pub const BASIC_COLORS: usize = 16;

/// The basic color `i` and its RGB triple.
pub open spec fn basic_color(i: int) -> (Color, int, int, int) {
    if i <= 0 {
        (Color::Black, 0, 0, 0)
    } else if i == 1 {
        (Color::Red, 205, 0, 0)
    } else if i == 2 {
        (Color::Green, 0, 205, 0)
    } else if i == 3 {
        (Color::Yellow, 205, 205, 0)
    } else if i == 4 {
        (Color::Blue, 0, 0, 238)
    } else if i == 5 {
        (Color::Magenta, 205, 0, 205)
    } else if i == 6 {
        (Color::Cyan, 0, 205, 205)
    } else if i == 7 {
        (Color::Gray, 229, 229, 229)
    } else if i == 8 {
        (Color::DarkGray, 127, 127, 127)
    } else if i == 9 {
        (Color::LightRed, 255, 0, 0)
    } else if i == 10 {
        (Color::LightGreen, 0, 255, 0)
    } else if i == 11 {
        (Color::LightYellow, 255, 255, 0)
    } else if i == 12 {
        (Color::LightBlue, 92, 92, 255)
    } else if i == 13 {
        (Color::LightMagenta, 255, 0, 255)
    } else if i == 14 {
        (Color::LightCyan, 0, 255, 255)
    } else {
        (Color::White, 255, 255, 255)
    }
}

/// The squared distance between an RGB triple and the basic color `i`.
pub open spec fn color_distance(i: int, r: int, g: int, b: int) -> int {
    let c = basic_color(i);
    (c.1 - r) * (c.1 - r) + (c.2 - g) * (c.2 - g) + (c.3 - b) * (c.3 - b)
}

/// The first of the first `n` basic colors that is nearest to an RGB triple.
pub open spec fn nearest_basic(n: int, r: int, g: int, b: int) -> int
    decreases n,
{
    if n <= 1 {
        0
    } else {
        let best = nearest_basic(n - 1, r, g, b);
        if color_distance(n - 1, r, g, b) < color_distance(best, r, g, b) {
            n - 1
        } else {
            best
        }
    }
}

/// No basic color is nearer than the chosen one, and none before it is as near.
pub proof fn law_nearest_basic_is_nearest(n: int, r: int, g: int, b: int, i: int)
    requires
        0 <= i < n,
    ensures
        0 <= nearest_basic(n, r, g, b) < n,
        color_distance(nearest_basic(n, r, g, b), r, g, b) <= color_distance(i, r, g, b),
        i < nearest_basic(n, r, g, b) ==> color_distance(nearest_basic(n, r, g, b), r, g, b)
            < color_distance(i, r, g, b),
    decreases n,
{
    if n > 1 {
        law_nearest_basic_is_nearest(n - 1, r, g, b, 0);
        if i < n - 1 {
            law_nearest_basic_is_nearest(n - 1, r, g, b, i);
        }
    }
}

/// The basic color `i` and its RGB triple.
fn basic(i: usize) -> (r: (Color, i32, i32, i32))
    ensures
        r.0 == basic_color(i as int).0,
        r.1 == basic_color(i as int).1,
        r.2 == basic_color(i as int).2,
        r.3 == basic_color(i as int).3,
        0 <= r.1 <= 255 && 0 <= r.2 <= 255 && 0 <= r.3 <= 255,
{
    match i {
        0 => (Color::Black, 0, 0, 0),
        1 => (Color::Red, 205, 0, 0),
        2 => (Color::Green, 0, 205, 0),
        3 => (Color::Yellow, 205, 205, 0),
        4 => (Color::Blue, 0, 0, 238),
        5 => (Color::Magenta, 205, 0, 205),
        6 => (Color::Cyan, 0, 205, 205),
        7 => (Color::Gray, 229, 229, 229),
        8 => (Color::DarkGray, 127, 127, 127),
        9 => (Color::LightRed, 255, 0, 0),
        10 => (Color::LightGreen, 0, 255, 0),
        11 => (Color::LightYellow, 255, 255, 0),
        12 => (Color::LightBlue, 92, 92, 255),
        13 => (Color::LightMagenta, 255, 0, 255),
        14 => (Color::LightCyan, 0, 255, 255),
        _ => (Color::White, 255, 255, 255),
    }
}

/// The square of a difference of channel values.
fn square(a: i32, b: u8) -> (r: i32)
    requires
        0 <= a <= 255,
    ensures
        r == (a - b) * (a - b),
        0 <= r <= 65025,
{
    let d: i32 = a - b as i32;
    assert(0 <= d * d <= 65025) by (nonlinear_arith)
        requires
            -255 <= d <= 255,
    ;
    d * d
}

/// Maps an RGB triple to the nearest of the sixteen basic colors.
pub fn rgb_to_16(r: u8, g: u8, b: u8) -> (c: Color)
    ensures
        c == basic_color(nearest_basic(BASIC_COLORS as int, r as int, g as int, b as int)).0,
{
    let (first, fr, fg, fb) = basic(0);
    let mut best: usize = 0;
    let mut color: Color = first;
    let mut least: i32 = square(fr, r) + square(fg, g) + square(fb, b);
    let mut i: usize = 1;
    while i < BASIC_COLORS
        invariant
            1 <= i <= BASIC_COLORS,
            best == nearest_basic(i as int, r as int, g as int, b as int),
            color == basic_color(best as int).0,
            least == color_distance(best as int, r as int, g as int, b as int),
        decreases BASIC_COLORS - i,
    {
        let (c, cr, cg, cb) = basic(i);
        let d: i32 = square(cr, r) + square(cg, g) + square(cb, b);
        if d < least {
            best = i;
            color = c;
            least = d;
        }
        i += 1;
    }
    color
}

/// A color as a terminal of the given depth can show it: an RGB triple becomes
/// the nearest color there is, anything else stays.
pub open spec fn quantized_color(c: Color, depth: ColorDepth) -> Color {
    match c {
        Color::Rgb(r, g, b) => match depth {
            ColorDepth::TrueColor => c,
            ColorDepth::Ansi256 => Color::Indexed(cube_index(r, g, b)),
            ColorDepth::Ansi16 => basic_color(
                nearest_basic(BASIC_COLORS as int, r as int, g as int, b as int),
            ).0,
        },
        _ => c,
    }
}

/// A color that may not be set.
pub open spec fn quantized_opt(c: Option<Color>, depth: ColorDepth) -> Option<Color> {
    match c {
        Some(x) => Some(quantized_color(x, depth)),
        None => None,
    }
}

/// A style with its colors quantized.
pub open spec fn quantized_style(s: Style, depth: ColorDepth) -> Style {
    Style { fg: quantized_opt(s.fg, depth), bg: quantized_opt(s.bg, depth), ..s }
}

/// A theme as a terminal of the given depth can show it.
pub open spec fn quantized(theme: Theme, depth: ColorDepth) -> Theme {
    if depth == ColorDepth::TrueColor {
        theme
    } else {
        Theme {
            text: quantized_style(theme.text, depth),
            text_muted: quantized_style(theme.text_muted, depth),
            accent: quantized_style(theme.accent, depth),
            accent_dim: quantized_style(theme.accent_dim, depth),
            status_ok: quantized_style(theme.status_ok, depth),
            status_warn: quantized_style(theme.status_warn, depth),
            status_err: quantized_style(theme.status_err, depth),
            border: quantized_style(theme.border, depth),
            border_focus: quantized_style(theme.border_focus, depth),
            selection: quantized_style(theme.selection, depth),
            search_match: quantized_style(theme.search_match, depth),
            reasoning: quantized_style(theme.reasoning, depth),
            diff_add: quantized_style(theme.diff_add, depth),
            diff_del: quantized_style(theme.diff_del, depth),
            diff_hunk: quantized_style(theme.diff_hunk, depth),
            diff_ctx: quantized_style(theme.diff_ctx, depth),
        }
    }
}

fn quantize_color(color: Color, depth: ColorDepth) -> (r: Color)
    ensures
        r == quantized_color(color, depth),
{
    match color {
        Color::Rgb(r, g, b) => match depth {
            ColorDepth::TrueColor => color,
            ColorDepth::Ansi256 => Color::Indexed(rgb_to_256(r, g, b)),
            ColorDepth::Ansi16 => rgb_to_16(r, g, b),
        },
        _ => color,
    }
}

fn quantize_opt(color: Option<Color>, depth: ColorDepth) -> (r: Option<Color>)
    ensures
        r == quantized_opt(color, depth),
{
    match color {
        Some(c) => Some(quantize_color(c, depth)),
        None => None,
    }
}

fn quantize_style(style: Style, depth: ColorDepth) -> (r: Style)
    ensures
        r == quantized_style(style, depth),
{
    Style {
        fg: quantize_opt(style.fg, depth),
        bg: quantize_opt(style.bg, depth),
        add_modifier: style.add_modifier,
        sub_modifier: style.sub_modifier,
    }
}

/// Downgrades every RGB color of `theme` to `depth`. Named colors pass through,
/// and so does everything on a terminal with full color.
#[must_use]
pub fn quantize(theme: &Theme, depth: ColorDepth) -> (r: Theme)
    ensures
        r == quantized(*theme, depth),
{
    if depth == ColorDepth::TrueColor {
        return *theme;
    }
    Theme {
        text: quantize_style(theme.text, depth),
        text_muted: quantize_style(theme.text_muted, depth),
        accent: quantize_style(theme.accent, depth),
        accent_dim: quantize_style(theme.accent_dim, depth),
        status_ok: quantize_style(theme.status_ok, depth),
        status_warn: quantize_style(theme.status_warn, depth),
        status_err: quantize_style(theme.status_err, depth),
        border: quantize_style(theme.border, depth),
        border_focus: quantize_style(theme.border_focus, depth),
        selection: quantize_style(theme.selection, depth),
        search_match: quantize_style(theme.search_match, depth),
        reasoning: quantize_style(theme.reasoning, depth),
        diff_add: quantize_style(theme.diff_add, depth),
        diff_del: quantize_style(theme.diff_del, depth),
        diff_hunk: quantize_style(theme.diff_hunk, depth),
        diff_ctx: quantize_style(theme.diff_ctx, depth),
    }
}

/// What quantizing gives can be shown as it is: doing it again changes nothing.
pub proof fn law_quantizing_settles(theme: Theme, depth: ColorDepth)
    ensures
        quantized(quantized(theme, depth), depth) == quantized(theme, depth),
{
    assert forall|c: Color| quantized_color(#[trigger] quantized_color(c, depth), depth)
        == quantized_color(c, depth) by {
        lemma_basic_is_named(nearest_of(c));
    }
}

/// The nearest basic color to an RGB color.
spec fn nearest_of(c: Color) -> int {
    match c {
        Color::Rgb(r, g, b) => nearest_basic(BASIC_COLORS as int, r as int, g as int, b as int),
        _ => 0,
    }
}

proof fn lemma_basic_is_named(i: int)
    ensures
        !(basic_color(i).0 is Rgb),
{
}

/// On a terminal without full color no RGB color is left in a quantized style,
/// and the attributes are as they were.
pub proof fn law_quantized_style_has_no_rgb(s: Style, depth: ColorDepth)
    requires
        depth != ColorDepth::TrueColor,
    ensures
        !(quantized_style(s, depth).fg matches Some(Color::Rgb(_, _, _))),
        !(quantized_style(s, depth).bg matches Some(Color::Rgb(_, _, _))),
        quantized_style(s, depth).add_modifier == s.add_modifier,
        quantized_style(s, depth).sub_modifier == s.sub_modifier,
{
}

/// The themes that follow the operating system's setting.
#[derive(Debug, Clone, Copy, PartialEq, Eq, Structural)]
pub struct AutoThemes {
    pub dark: Theme,
    pub light: Theme,
}

impl AutoThemes {
    /// The theme for a mode.
    pub open spec fn spec_pick(self, mode: ThemeMode) -> Theme {
        match mode {
            ThemeMode::Light => self.light,
            ThemeMode::Dark => self.dark,
        }
    }

    /// The theme for a mode.
    #[verifier::when_used_as_spec(spec_pick)]
    pub fn pick(self, mode: ThemeMode) -> (r: Theme)
        ensures
            r == self.spec_pick(mode),
    {
        match mode {
            ThemeMode::Light => self.light,
            ThemeMode::Dark => self.dark,
        }
    }
}

/// Whether the configured theme follows the operating system.
pub open spec fn is_auto(cfg_theme: Option<Seq<char>>) -> bool {
    cfg_theme is Some && lowered(cfg_theme->0) == lowered("auto"@)
}

/// Whether the theme follows the operating system's light or dark setting: where
/// it is configured as `auto` and color is allowed.
pub fn follows_os(cfg_theme: Option<&str>, no_color: bool) -> (r: bool)
    ensures
        r == (is_auto(opt_text(cfg_theme)) && !no_color),
{
    let auto: bool = match cfg_theme {
        Some(t) => same_ignoring_case(t, "auto"),
        None => false,
    };
    auto && !no_color
}

/// Whether to keep asking the operating system for its setting: only where the
/// theme follows it and the answer did not come from the one-shot terminal
/// query, which would compete with reading the keyboard.
pub fn should_poll_os_theme(cfg_theme: Option<&str>, no_color: bool, ssh_detected: bool) -> (r: bool)
    ensures
        r == (is_auto(opt_text(cfg_theme)) && !no_color && !ssh_detected),
{
    follows_os(cfg_theme, no_color) && !ssh_detected
}

/// The two themes that follow the operating system, for a terminal of the given
/// depth.
pub fn auto_themes(depth: ColorDepth) -> (r: AutoThemes)
    ensures
        r.dark == quantized(crate::theme::dark_theme(), depth),
        r.light == quantized(crate::theme::preset_theme("light"@), depth),
{
    AutoThemes {
        dark: quantize(&Theme::dark(), depth),
        light: quantize(&Theme::preset("light"), depth),
    }
}

/// The theme for a configuration that does not follow the operating system.
pub fn fixed_theme(no_color: bool, cfg_theme: Option<&str>, depth: ColorDepth) -> (r: Theme)
    ensures
        r == quantized(crate::theme::startup_theme(no_color, opt_text(cfg_theme)), depth),
{
    quantize(&Theme::select_with(no_color, cfg_theme), depth)
}

/// A color of the cube is known by its number: its levels of red, green and blue are the
/// nearest ones to the color it stands for.
pub proof fn law_a_cube_color_is_near(r: u8, g: u8, b: u8, i: u8, k: int)
    requires
        call_ensures(rgb_to_256, (r, g, b), i),
        0 <= k < 6,
    ensures
        ({
            let n = i - 16;
            &&& 0 <= n < 216
            &&& distance(cube_level(n / 36), r as int) <= distance(cube_level(k), r as int)
            &&& distance(cube_level(n / 6 % 6), g as int) <= distance(cube_level(k), g as int)
            &&& distance(cube_level(n % 6), b as int) <= distance(cube_level(k), b as int)
        }),
{
    law_nearest_level_is_nearest(r, k);
    law_nearest_level_is_nearest(g, k);
    law_nearest_level_is_nearest(b, k);
    let n = i - 16;
    assert(n == 36 * nearest_level(r) + 6 * nearest_level(g) + nearest_level(b));
    assert(n / 36 == nearest_level(r));
    assert(n / 6 == 6 * nearest_level(r) + nearest_level(g));
    assert(n % 6 == nearest_level(b));
}

/// A terminal that announces all colors gets them, whatever its name; one whose name says so
/// gets the larger palette, and any other one the basic colors.
pub proof fn law_the_terminal_gets_what_it_announces(
    colorterm: Option<Seq<char>>,
    term: Seq<char>,
)
    ensures
        announced_depth(Some("truecolor"@), Some(term)) == ColorDepth::TrueColor,
        announced_depth(Some("24bit"@), None) == ColorDepth::TrueColor,
        has(term, "256color"@) ==> announced_depth(None, Some(term)) == ColorDepth::Ansi256,
        !(has(term, "256color"@)) ==> announced_depth(None, Some(term)) == ColorDepth::Ansi16,
        announced_depth(None, None) == ColorDepth::Ansi16,
        announced_depth(colorterm, Some(term)) == ColorDepth::TrueColor ==> announced_depth(
            colorterm,
            None,
        ) == ColorDepth::TrueColor,
{
}

} // verus!
