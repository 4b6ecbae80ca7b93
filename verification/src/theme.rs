//! Semantic style tokens: every color and modifier comes from here.

use crate::text::{lowered, push_char, same, to_lower};
use vstd::prelude::*;

verus! {

/// A terminal color.
#[derive(Debug, Clone, Copy, PartialEq, Eq, Structural)]
pub enum Color {
    Black,
    Red,
    Green,
    Yellow,
    Blue,
    Magenta,
    Cyan,
    Gray,
    DarkGray,
    LightRed,
    LightGreen,
    LightYellow,
    LightBlue,
    LightMagenta,
    LightCyan,
    White,
    Rgb(u8, u8, u8),
    Indexed(u8),
}

/// Text attributes.
#[derive(Debug, Clone, Copy, PartialEq, Eq, Structural)]
pub struct Modifier {
    pub bold: bool,
    pub dim: bool,
    pub italic: bool,
    pub underlined: bool,
    pub reversed: bool,
}

impl Modifier {
    /// No attribute.
    pub open spec fn spec_none() -> Modifier {
        Modifier { bold: false, dim: false, italic: false, underlined: false, reversed: false }
    }

    /// No attribute.
    #[verifier::when_used_as_spec(spec_none)]
    pub fn none() -> (r: Modifier)
        ensures
            r == Modifier::spec_none(),
    {
        Modifier { bold: false, dim: false, italic: false, underlined: false, reversed: false }
    }
}

impl Modifier {
    /// The attributes of both.
    pub open spec fn spec_with(self, m: Modifier) -> Modifier {
        Modifier {
            bold: self.bold || m.bold,
            dim: self.dim || m.dim,
            italic: self.italic || m.italic,
            underlined: self.underlined || m.underlined,
            reversed: self.reversed || m.reversed,
        }
    }

    /// The attributes of both.
    #[verifier::when_used_as_spec(spec_with)]
    pub fn with(self, m: Modifier) -> (r: Modifier)
        ensures
            r == self.spec_with(m),
    {
        Modifier {
            bold: self.bold || m.bold,
            dim: self.dim || m.dim,
            italic: self.italic || m.italic,
            underlined: self.underlined || m.underlined,
            reversed: self.reversed || m.reversed,
        }
    }

    /// These attributes but for those of `m`.
    pub open spec fn spec_without(self, m: Modifier) -> Modifier {
        Modifier {
            bold: self.bold && !m.bold,
            dim: self.dim && !m.dim,
            italic: self.italic && !m.italic,
            underlined: self.underlined && !m.underlined,
            reversed: self.reversed && !m.reversed,
        }
    }

    /// These attributes but for those of `m`.
    #[verifier::when_used_as_spec(spec_without)]
    pub fn without(self, m: Modifier) -> (r: Modifier)
        ensures
            r == self.spec_without(m),
    {
        Modifier {
            bold: self.bold && !m.bold,
            dim: self.dim && !m.dim,
            italic: self.italic && !m.italic,
            underlined: self.underlined && !m.underlined,
            reversed: self.reversed && !m.reversed,
        }
    }
}

/// A style: colors where they are set, attributes to add, and attributes to
/// take away.
#[derive(Debug, Clone, Copy, PartialEq, Eq, Structural)]
pub struct Style {
    pub fg: Option<Color>,
    pub bg: Option<Color>,
    pub add_modifier: Modifier,
    pub sub_modifier: Modifier,
}

impl Style {
    /// The style that changes nothing.
    pub open spec fn spec_plain() -> Style {
        Style {
            fg: None,
            bg: None,
            add_modifier: Modifier::spec_none(),
            sub_modifier: Modifier::spec_none(),
        }
    }

    /// The style that changes nothing.
    #[verifier::when_used_as_spec(spec_plain)]
    pub fn plain() -> (r: Style)
        ensures
            r == Style::spec_plain(),
    {
        Style {
            fg: None,
            bg: None,
            add_modifier: Modifier::none(),
            sub_modifier: Modifier::none(),
        }
    }

    /// With the foreground color `c`.
    pub open spec fn spec_fg(self, c: Color) -> Style {
        Style { fg: Some(c), ..self }
    }

    /// With the foreground color `c`.
    #[verifier::when_used_as_spec(spec_fg)]
    pub fn fg(self, c: Color) -> (r: Style)
        ensures
            r == self.spec_fg(c),
    {
        Style { fg: Some(c), bg: self.bg, add_modifier: self.add_modifier, sub_modifier: self.sub_modifier }
    }

    /// With the `bold` attribute.
    pub open spec fn spec_bold(self) -> Style {
        Style {
            add_modifier: Modifier { bold: true, ..self.add_modifier },
            sub_modifier: Modifier { bold: false, ..self.sub_modifier },
            ..self
        }
    }

    /// With the `bold` attribute.
    #[verifier::when_used_as_spec(spec_bold)]
    pub fn bold(self) -> (r: Style)
        ensures
            r == self.spec_bold(),
    {
        let mut r = self;
        r.add_modifier.bold = true;
        r.sub_modifier.bold = false;
        r
    }

    /// With the `dim` attribute.
    pub open spec fn spec_dim(self) -> Style {
        Style {
            add_modifier: Modifier { dim: true, ..self.add_modifier },
            sub_modifier: Modifier { dim: false, ..self.sub_modifier },
            ..self
        }
    }

    /// With the `dim` attribute.
    #[verifier::when_used_as_spec(spec_dim)]
    pub fn dim(self) -> (r: Style)
        ensures
            r == self.spec_dim(),
    {
        let mut r = self;
        r.add_modifier.dim = true;
        r.sub_modifier.dim = false;
        r
    }

    /// With the `italic` attribute.
    pub open spec fn spec_italic(self) -> Style {
        Style {
            add_modifier: Modifier { italic: true, ..self.add_modifier },
            sub_modifier: Modifier { italic: false, ..self.sub_modifier },
            ..self
        }
    }

    /// With the `italic` attribute.
    #[verifier::when_used_as_spec(spec_italic)]
    pub fn italic(self) -> (r: Style)
        ensures
            r == self.spec_italic(),
    {
        let mut r = self;
        r.add_modifier.italic = true;
        r.sub_modifier.italic = false;
        r
    }

    /// With the `underlined` attribute.
    pub open spec fn spec_underlined(self) -> Style {
        Style {
            add_modifier: Modifier { underlined: true, ..self.add_modifier },
            sub_modifier: Modifier { underlined: false, ..self.sub_modifier },
            ..self
        }
    }

    /// With the `underlined` attribute.
    #[verifier::when_used_as_spec(spec_underlined)]
    pub fn underlined(self) -> (r: Style)
        ensures
            r == self.spec_underlined(),
    {
        let mut r = self;
        r.add_modifier.underlined = true;
        r.sub_modifier.underlined = false;
        r
    }

    /// With the `reversed` attribute.
    pub open spec fn spec_reversed(self) -> Style {
        Style {
            add_modifier: Modifier { reversed: true, ..self.add_modifier },
            sub_modifier: Modifier { reversed: false, ..self.sub_modifier },
            ..self
        }
    }

    /// With the `reversed` attribute.
    #[verifier::when_used_as_spec(spec_reversed)]
    pub fn reversed(self) -> (r: Style)
        ensures
            r == self.spec_reversed(),
    {
        let mut r = self;
        r.add_modifier.reversed = true;
        r.sub_modifier.reversed = false;
        r
    }

    /// Without the `bold` attribute.
    pub open spec fn spec_not_bold(self) -> Style {
        Style {
            add_modifier: Modifier { bold: false, ..self.add_modifier },
            sub_modifier: Modifier { bold: true, ..self.sub_modifier },
            ..self
        }
    }

    /// Without the `bold` attribute.
    #[verifier::when_used_as_spec(spec_not_bold)]
    pub fn not_bold(self) -> (r: Style)
        ensures
            r == self.spec_not_bold(),
    {
        let mut r = self;
        r.add_modifier.bold = false;
        r.sub_modifier.bold = true;
        r
    }

    /// Without the `italic` attribute.
    pub open spec fn spec_not_italic(self) -> Style {
        Style {
            add_modifier: Modifier { italic: false, ..self.add_modifier },
            sub_modifier: Modifier { italic: true, ..self.sub_modifier },
            ..self
        }
    }

    /// Without the `italic` attribute.
    #[verifier::when_used_as_spec(spec_not_italic)]
    pub fn not_italic(self) -> (r: Style)
        ensures
            r == self.spec_not_italic(),
    {
        let mut r = self;
        r.add_modifier.italic = false;
        r.sub_modifier.italic = true;
        r
    }

    /// This style with another one over it: the other's colors where it has them,
    /// its attributes added, and those that it takes away taken away.
    pub open spec fn spec_patch(self, over: Style) -> Style {
        Style {
            fg: if over.fg is Some {
                over.fg
            } else {
                self.fg
            },
            bg: if over.bg is Some {
                over.bg
            } else {
                self.bg
            },
            add_modifier: self.add_modifier.spec_without(over.sub_modifier).spec_with(
                over.add_modifier,
            ),
            sub_modifier: self.sub_modifier.spec_without(over.add_modifier).spec_with(
                over.sub_modifier,
            ),
        }
    }

    /// This style with another one over it.
    #[verifier::when_used_as_spec(spec_patch)]
    pub fn patch(self, over: Style) -> (r: Style)
        ensures
            r == self.spec_patch(over),
    {
        Style {
            fg: if over.fg.is_some() {
                over.fg
            } else {
                self.fg
            },
            bg: if over.bg.is_some() {
                over.bg
            } else {
                self.bg
            },
            add_modifier: self.add_modifier.without(over.sub_modifier).with(over.add_modifier),
            sub_modifier: self.sub_modifier.without(over.add_modifier).with(over.sub_modifier),
        }
    }

    /// Only the attributes, without colors.
    pub open spec fn spec_stripped(self) -> Style {
        Style { add_modifier: self.add_modifier, ..Style::spec_plain() }
    }

    /// Only the attributes, without colors.
    #[verifier::when_used_as_spec(spec_stripped)]
    pub fn stripped(self) -> (r: Style)
        ensures
            r == self.spec_stripped(),
    {
        Style { fg: None, bg: None, add_modifier: self.add_modifier, sub_modifier: Modifier::none() }
    }
}

/// Named style tokens.
#[derive(Debug, Clone, Copy, PartialEq, Eq, Structural)]
pub struct Theme {
    pub text: Style,
    pub text_muted: Style,
    pub accent: Style,
    pub accent_dim: Style,
    pub status_ok: Style,
    pub status_warn: Style,
    pub status_err: Style,
    pub border: Style,
    pub border_focus: Style,
    pub selection: Style,
    pub search_match: Style,
    pub reasoning: Style,
    pub diff_add: Style,
    pub diff_del: Style,
    pub diff_hunk: Style,
    pub diff_ctx: Style,
}

/// Six source colors, expanded into a theme by [`from_palette`].
#[derive(Debug, Clone, Copy, PartialEq, Eq, Structural)]
pub struct Palette {
    pub text: Color,
    pub muted: Color,
    pub accent: Color,
    pub ok: Color,
    pub warn: Color,
    pub err: Color,
}

/// The default colored theme.
pub open spec fn dark_theme() -> Theme {
    Theme {
        text: Style::plain(),
        text_muted: Style::plain().dim(),
        accent: Style::plain().fg(Color::Cyan),
        accent_dim: Style::plain().fg(Color::Cyan).dim(),
        status_ok: Style::plain().fg(Color::Green),
        status_warn: Style::plain().fg(Color::Yellow),
        status_err: Style::plain().fg(Color::Red).bold(),
        border: Style::plain(),
        border_focus: Style::plain().fg(Color::Cyan),
        selection: Style::plain().reversed(),
        search_match: Style::plain().fg(Color::Yellow).underlined(),
        reasoning: Style::plain().dim().italic(),
        diff_add: Style::plain().fg(Color::Green),
        diff_del: Style::plain().fg(Color::Red),
        diff_hunk: Style::plain().fg(Color::Cyan),
        diff_ctx: Style::plain(),
    }
}

/// The default theme with every color stripped and the attributes kept.
pub open spec fn mono_theme() -> Theme {
    let d = dark_theme();
    Theme {
        text: d.text.stripped(),
        text_muted: d.text_muted.stripped(),
        accent: d.accent.stripped(),
        accent_dim: d.accent_dim.stripped(),
        status_ok: d.status_ok.stripped(),
        status_warn: d.status_warn.stripped(),
        status_err: d.status_err.stripped(),
        border: d.border.stripped(),
        border_focus: d.border_focus.stripped(),
        selection: d.selection.stripped(),
        search_match: d.search_match.stripped(),
        reasoning: d.reasoning.stripped(),
        diff_add: d.diff_add.stripped(),
        diff_del: d.diff_del.stripped(),
        diff_hunk: d.diff_hunk.stripped(),
        diff_ctx: d.diff_ctx.stripped(),
    }
}

/// The theme of six source colors, with the attributes of the default theme.
pub open spec fn palette_theme(p: Palette) -> Theme {
    Theme {
        text: Style::plain().fg(p.text),
        text_muted: Style::plain().fg(p.muted).dim(),
        accent: Style::plain().fg(p.accent),
        accent_dim: Style::plain().fg(p.accent).dim(),
        status_ok: Style::plain().fg(p.ok),
        status_warn: Style::plain().fg(p.warn),
        status_err: Style::plain().fg(p.err).bold(),
        border: Style::plain().fg(p.muted),
        border_focus: Style::plain().fg(p.accent),
        selection: Style::plain().reversed(),
        search_match: Style::plain().fg(p.warn).underlined(),
        reasoning: Style::plain().dim().italic(),
        diff_add: Style::plain().fg(p.ok),
        diff_del: Style::plain().fg(p.err),
        diff_hunk: Style::plain().fg(p.accent),
        diff_ctx: Style::plain().fg(p.text),
    }
}

/// The source colors of a named preset (the name in lower case).
pub open spec fn preset_palette(name: Seq<char>) -> Option<Palette> {
    if name == "nord"@ {
        Some(Palette {
            text: Color::Rgb(0xD8, 0xDE, 0xE9),
            muted: Color::Rgb(0x4C, 0x56, 0x6A),
            accent: Color::Rgb(0x88, 0xC0, 0xD0),
            ok: Color::Rgb(0xA3, 0xBE, 0x8C),
            warn: Color::Rgb(0xEB, 0xCB, 0x8B),
            err: Color::Rgb(0xBF, 0x61, 0x6A),
        })
    } else if name == "catppuccin"@ {
        Some(Palette {
            text: Color::Rgb(0xCD, 0xD6, 0xF4),
            muted: Color::Rgb(0x6C, 0x70, 0x86),
            accent: Color::Rgb(0x89, 0xB4, 0xFA),
            ok: Color::Rgb(0xA6, 0xE3, 0xA1),
            warn: Color::Rgb(0xF9, 0xE2, 0xAF),
            err: Color::Rgb(0xF3, 0x8B, 0xA8),
        })
    } else if name == "gruvbox"@ {
        Some(Palette {
            text: Color::Rgb(0xEB, 0xDB, 0xB2),
            muted: Color::Rgb(0x92, 0x83, 0x74),
            accent: Color::Rgb(0x83, 0xA5, 0x98),
            ok: Color::Rgb(0xB8, 0xBB, 0x26),
            warn: Color::Rgb(0xFA, 0xBD, 0x2F),
            err: Color::Rgb(0xFB, 0x49, 0x34),
        })
    } else if name == "base16"@ {
        Some(Palette {
            text: Color::Rgb(0xC0, 0xC5, 0xCE),
            muted: Color::Rgb(0x65, 0x73, 0x7E),
            accent: Color::Rgb(0x8F, 0xA1, 0xB3),
            ok: Color::Rgb(0xA3, 0xBE, 0x8C),
            warn: Color::Rgb(0xEB, 0xCB, 0x8B),
            err: Color::Rgb(0xBF, 0x61, 0x6A),
        })
    } else if name == "light"@ {
        Some(Palette {
            text: Color::Rgb(0x24, 0x29, 0x2E),
            muted: Color::Rgb(0x6E, 0x77, 0x81),
            accent: Color::Rgb(0x03, 0x66, 0xD6),
            ok: Color::Rgb(0x22, 0x86, 0x3A),
            warn: Color::Rgb(0xB0, 0x80, 0x00),
            err: Color::Rgb(0xD7, 0x3A, 0x49),
        })
    } else {
        None
    }
}

/// The theme of a named preset, without regard to ASCII case; the default theme
/// for any other name.
pub open spec fn preset_theme(name: Seq<char>) -> Theme {
    match preset_palette(lowered(name)) {
        Some(p) => palette_theme(p),
        None => dark_theme(),
    }
}

/// The startup theme: no color wins over a named preset, which wins over the
/// default.
pub open spec fn startup_theme(no_color: bool, name: Option<Seq<char>>) -> Theme {
    if no_color {
        mono_theme()
    } else {
        match name {
            Some(n) => preset_theme(n),
            None => dark_theme(),
        }
    }
}

/// The hexadecimal digit `d`, in upper case.
pub open spec fn hex_digit(d: int) -> char {
    if d < 10 {
        (48 + d) as u8 as char
    } else {
        (55 + d) as u8 as char
    }
}

/// A byte as two hexadecimal digits.
pub open spec fn hex_byte(b: u8) -> Seq<char> {
    seq![hex_digit(b as int / 16), hex_digit(b as int % 16)]
}

/// Appends a byte as two hexadecimal digits.
fn push_hex(s: &mut String, b: u8)
    ensures
        final(s)@ == old(s)@ + hex_byte(b),
{
    let hi: u8 = b / 16;
    let lo: u8 = b % 16;
    let a: char = if hi < 10 {
        (48 + hi) as char
    } else {
        (55 + hi) as char
    };
    let z: char = if lo < 10 {
        (48 + lo) as char
    } else {
        (55 + lo) as char
    };
    push_char(s, a);
    push_char(s, z);
    assert(final(s)@ =~= old(s)@ + hex_byte(b));
}

/// Expands six source colors into the full theme, with the attributes of the
/// default theme.
pub fn from_palette(p: Palette) -> (r: Theme)
    ensures
        r == palette_theme(p),
{
    Theme {
        text: Style::plain().fg(p.text),
        text_muted: Style::plain().fg(p.muted).dim(),
        accent: Style::plain().fg(p.accent),
        accent_dim: Style::plain().fg(p.accent).dim(),
        status_ok: Style::plain().fg(p.ok),
        status_warn: Style::plain().fg(p.warn),
        status_err: Style::plain().fg(p.err).bold(),
        border: Style::plain().fg(p.muted),
        border_focus: Style::plain().fg(p.accent),
        selection: Style::plain().reversed(),
        search_match: Style::plain().fg(p.warn).underlined(),
        reasoning: Style::plain().dim().italic(),
        diff_add: Style::plain().fg(p.ok),
        diff_del: Style::plain().fg(p.err),
        diff_hunk: Style::plain().fg(p.accent),
        diff_ctx: Style::plain().fg(p.text),
    }
}

impl Theme {
    /// The default colored theme: cyan accent, green, yellow and red for states.
    #[must_use]
    pub fn dark() -> (r: Self)
        ensures
            r == dark_theme(),
    {
        Theme {
            text: Style::plain(),
            text_muted: Style::plain().dim(),
            accent: Style::plain().fg(Color::Cyan),
            accent_dim: Style::plain().fg(Color::Cyan).dim(),
            status_ok: Style::plain().fg(Color::Green),
            status_warn: Style::plain().fg(Color::Yellow),
            status_err: Style::plain().fg(Color::Red).bold(),
            border: Style::plain(),
            border_focus: Style::plain().fg(Color::Cyan),
            selection: Style::plain().reversed(),
            search_match: Style::plain().fg(Color::Yellow).underlined(),
            reasoning: Style::plain().dim().italic(),
            diff_add: Style::plain().fg(Color::Green),
            diff_del: Style::plain().fg(Color::Red),
            diff_hunk: Style::plain().fg(Color::Cyan),
            diff_ctx: Style::plain(),
        }
    }

    /// The default theme with every color stripped and the attributes kept.
    #[must_use]
    pub fn mono() -> (r: Self)
        ensures
            r == mono_theme(),
    {
        let d = Theme::dark();
        Theme {
            text: d.text.stripped(),
            text_muted: d.text_muted.stripped(),
            accent: d.accent.stripped(),
            accent_dim: d.accent_dim.stripped(),
            status_ok: d.status_ok.stripped(),
            status_warn: d.status_warn.stripped(),
            status_err: d.status_err.stripped(),
            border: d.border.stripped(),
            border_focus: d.border_focus.stripped(),
            selection: d.selection.stripped(),
            search_match: d.search_match.stripped(),
            reasoning: d.reasoning.stripped(),
            diff_add: d.diff_add.stripped(),
            diff_del: d.diff_del.stripped(),
            diff_hunk: d.diff_hunk.stripped(),
            diff_ctx: d.diff_ctx.stripped(),
        }
    }

    /// The theme for a `NO_COLOR` setting.
    #[must_use]
    pub fn select(no_color: bool) -> (r: Self)
        ensures
            r == startup_theme(no_color, None),
    {
        if no_color {
            Theme::mono()
        } else {
            Theme::dark()
        }
    }

    /// A named color preset, without regard to case. Unknown names give
    /// [`Theme::dark`].
    #[must_use]
    pub fn preset(name: &str) -> (r: Self)
        ensures
            r == preset_theme(name@),
    {
        let n = to_lower(name);
        if same(n.as_str(), "nord") {
            from_palette(Palette {
                text: Color::Rgb(0xD8, 0xDE, 0xE9),
                muted: Color::Rgb(0x4C, 0x56, 0x6A),
                accent: Color::Rgb(0x88, 0xC0, 0xD0),
                ok: Color::Rgb(0xA3, 0xBE, 0x8C),
                warn: Color::Rgb(0xEB, 0xCB, 0x8B),
                err: Color::Rgb(0xBF, 0x61, 0x6A),
            })
        } else if same(n.as_str(), "catppuccin") {
            from_palette(Palette {
                text: Color::Rgb(0xCD, 0xD6, 0xF4),
                muted: Color::Rgb(0x6C, 0x70, 0x86),
                accent: Color::Rgb(0x89, 0xB4, 0xFA),
                ok: Color::Rgb(0xA6, 0xE3, 0xA1),
                warn: Color::Rgb(0xF9, 0xE2, 0xAF),
                err: Color::Rgb(0xF3, 0x8B, 0xA8),
            })
        } else if same(n.as_str(), "gruvbox") {
            from_palette(Palette {
                text: Color::Rgb(0xEB, 0xDB, 0xB2),
                muted: Color::Rgb(0x92, 0x83, 0x74),
                accent: Color::Rgb(0x83, 0xA5, 0x98),
                ok: Color::Rgb(0xB8, 0xBB, 0x26),
                warn: Color::Rgb(0xFA, 0xBD, 0x2F),
                err: Color::Rgb(0xFB, 0x49, 0x34),
            })
        } else if same(n.as_str(), "base16") {
            from_palette(Palette {
                text: Color::Rgb(0xC0, 0xC5, 0xCE),
                muted: Color::Rgb(0x65, 0x73, 0x7E),
                accent: Color::Rgb(0x8F, 0xA1, 0xB3),
                ok: Color::Rgb(0xA3, 0xBE, 0x8C),
                warn: Color::Rgb(0xEB, 0xCB, 0x8B),
                err: Color::Rgb(0xBF, 0x61, 0x6A),
            })
        } else if same(n.as_str(), "light") {
            from_palette(Palette {
                text: Color::Rgb(0x24, 0x29, 0x2E),
                muted: Color::Rgb(0x6E, 0x77, 0x81),
                accent: Color::Rgb(0x03, 0x66, 0xD6),
                ok: Color::Rgb(0x22, 0x86, 0x3A),
                warn: Color::Rgb(0xB0, 0x80, 0x00),
                err: Color::Rgb(0xD7, 0x3A, 0x49),
            })
        } else {
            Theme::dark()
        }
    }

    /// The startup theme: no color wins over a named preset, which wins over the
    /// default.
    #[must_use]
    pub fn select_with(no_color: bool, theme_name: Option<&str>) -> (r: Self)
        ensures
            r == startup_theme(no_color, crate::client::opt_text(theme_name)),
    {
        if no_color {
            Theme::mono()
        } else {
            match theme_name {
                Some(name) => Theme::preset(name),
                None => Theme::dark(),
            }
        }
    }

    /// The accent color as six upper-case hexadecimal digits, for coloring the
    /// terminal's cursor. Nothing where the accent is not given as RGB.
    #[must_use]
    pub fn accent_hex(&self) -> (r: Option<String>)
        ensures
            r.deep_view() == (match self.accent.fg {
                Some(Color::Rgb(r, g, b)) => Some(hex_byte(r) + hex_byte(g) + hex_byte(b)),
                _ => None,
            }),
    {
        match self.accent.fg {
            Some(Color::Rgb(r, g, b)) => {
                let mut s = String::new();
                push_hex(&mut s, r);
                assert(s@ =~= hex_byte(r));
                push_hex(&mut s, g);
                push_hex(&mut s, b);
                Some(s)
            },
            _ => None,
        }
    }
}

impl Default for Theme {
    fn default() -> (r: Self)
        ensures
            r == dark_theme(),
    {
        Theme::dark()
    }
}

/// The monochrome theme has no color, and every attribute of the default theme.
pub proof fn law_mono_strips_color_only()
    ensures
        mono_theme().text.fg is None && mono_theme().text.bg is None && mono_theme().text.add_modifier
            == dark_theme().text.add_modifier,
        mono_theme().text_muted.fg is None && mono_theme().text_muted.bg is None && mono_theme().text_muted.add_modifier
            == dark_theme().text_muted.add_modifier,
        mono_theme().accent.fg is None && mono_theme().accent.bg is None && mono_theme().accent.add_modifier
            == dark_theme().accent.add_modifier,
        mono_theme().accent_dim.fg is None && mono_theme().accent_dim.bg is None && mono_theme().accent_dim.add_modifier
            == dark_theme().accent_dim.add_modifier,
        mono_theme().status_ok.fg is None && mono_theme().status_ok.bg is None && mono_theme().status_ok.add_modifier
            == dark_theme().status_ok.add_modifier,
        mono_theme().status_warn.fg is None && mono_theme().status_warn.bg is None && mono_theme().status_warn.add_modifier
            == dark_theme().status_warn.add_modifier,
        mono_theme().status_err.fg is None && mono_theme().status_err.bg is None && mono_theme().status_err.add_modifier
            == dark_theme().status_err.add_modifier,
        mono_theme().border.fg is None && mono_theme().border.bg is None && mono_theme().border.add_modifier
            == dark_theme().border.add_modifier,
        mono_theme().border_focus.fg is None && mono_theme().border_focus.bg is None && mono_theme().border_focus.add_modifier
            == dark_theme().border_focus.add_modifier,
        mono_theme().selection.fg is None && mono_theme().selection.bg is None && mono_theme().selection.add_modifier
            == dark_theme().selection.add_modifier,
        mono_theme().search_match.fg is None && mono_theme().search_match.bg is None && mono_theme().search_match.add_modifier
            == dark_theme().search_match.add_modifier,
        mono_theme().reasoning.fg is None && mono_theme().reasoning.bg is None && mono_theme().reasoning.add_modifier
            == dark_theme().reasoning.add_modifier,
        mono_theme().diff_add.fg is None && mono_theme().diff_add.bg is None && mono_theme().diff_add.add_modifier
            == dark_theme().diff_add.add_modifier,
        mono_theme().diff_del.fg is None && mono_theme().diff_del.bg is None && mono_theme().diff_del.add_modifier
            == dark_theme().diff_del.add_modifier,
        mono_theme().diff_hunk.fg is None && mono_theme().diff_hunk.bg is None && mono_theme().diff_hunk.add_modifier
            == dark_theme().diff_hunk.add_modifier,
        mono_theme().diff_ctx.fg is None && mono_theme().diff_ctx.bg is None && mono_theme().diff_ctx.add_modifier
            == dark_theme().diff_ctx.add_modifier,
{
}

/// No color wins over any preset; an unset name gives the default theme.
pub proof fn law_no_color_wins(name: Option<Seq<char>>)
    ensures
        startup_theme(true, name) == mono_theme(),
        startup_theme(false, None) == dark_theme(),
{
}

/// The themes at hand: the active one, then the ones for a dark and for a light
/// system.
#[derive(Debug)]
pub struct Themes {
    list: Vec<Theme>,
}

impl DeepView for Themes {
    type V = Seq<Theme>;

    closed spec fn deep_view(&self) -> Seq<Theme> {
        self.list@
    }
}

impl Themes {
    #[verifier::type_invariant]
    spec fn inv(self) -> bool {
        self.list@.len() == 3
    }

    /// The default theme throughout.
    pub open spec fn default_themes() -> Seq<Theme> {
        seq![dark_theme(), dark_theme(), dark_theme()]
    }

    /// The default theme throughout.
    pub fn new() -> (r: Self)
        ensures
            r.deep_view() == Themes::default_themes(),
    {
        Themes::with(Theme::dark(), Theme::dark(), Theme::dark())
    }

    /// The given active theme, and the ones for a dark and for a light system.
    pub fn with(active: Theme, dark: Theme, light: Theme) -> (r: Self)
        ensures
            r.deep_view() == seq![active, dark, light],
    {
        let mut list: Vec<Theme> = Vec::new();
        list.push(active);
        list.push(dark);
        list.push(light);
        let r = Themes { list };
        assert(r.deep_view() =~= seq![active, dark, light]);
        r
    }

    /// The active theme.
    pub fn active(&self) -> (r: Theme)
        ensures
            r == self.deep_view()[0],
    {
        proof {
            use_type_invariant(self);
        }
        self.list[0]
    }

    /// The theme for a dark system.
    pub fn dark(&self) -> (r: Theme)
        ensures
            r == self.deep_view()[1],
    {
        proof {
            use_type_invariant(self);
        }
        self.list[1]
    }

    /// The theme for a light system.
    pub fn light(&self) -> (r: Theme)
        ensures
            r == self.deep_view()[2],
    {
        proof {
            use_type_invariant(self);
        }
        self.list[2]
    }

    /// Makes the theme for a dark or for a light system the active one.
    pub fn follow(&mut self, light: bool)
        ensures
            final(self).deep_view() == old(self).deep_view().update(
                0,
                if light {
                    old(self).deep_view()[2]
                } else {
                    old(self).deep_view()[1]
                },
            ),
    {
        proof {
            use_type_invariant(&*self);
        }
        let t = if light {
            self.light()
        } else {
            self.dark()
        };
        *self = Themes::with(t, self.dark(), self.light());
        assert(self.deep_view() =~= old(self).deep_view().update(0, t));
    }
}

/// Laying a style over another keeps what the upper one leaves open and takes what it sets:
/// its colors, what it adds and what it takes away. A style that sets nothing changes nothing.
pub proof fn law_the_upper_style_wins(lower: Style, upper: Style)
    ensures
        ({
            let r = lower.spec_patch(upper);
            &&& upper.fg is Some ==> r.fg == upper.fg
            &&& upper.fg is None ==> r.fg == lower.fg
            &&& upper.bg is Some ==> r.bg == upper.bg
            &&& upper.bg is None ==> r.bg == lower.bg
            &&& upper.add_modifier.bold ==> r.add_modifier.bold
            &&& !upper.add_modifier.bold && upper.sub_modifier.bold ==> !r.add_modifier.bold
            &&& !upper.add_modifier.bold && !upper.sub_modifier.bold ==> r.add_modifier.bold
                == lower.add_modifier.bold
            &&& upper.add_modifier.reversed ==> r.add_modifier.reversed
            &&& !upper.add_modifier.reversed && !upper.sub_modifier.reversed
                ==> r.add_modifier.reversed == lower.add_modifier.reversed
            &&& upper.add_modifier.underlined ==> r.add_modifier.underlined
            &&& !upper.add_modifier.underlined && !upper.sub_modifier.underlined
                ==> r.add_modifier.underlined == lower.add_modifier.underlined
            &&& upper.add_modifier.dim ==> r.add_modifier.dim
            &&& upper.add_modifier.italic ==> r.add_modifier.italic
        }),
        lower.spec_patch(Style::spec_plain()) == lower,
        lower.spec_patch(upper).spec_patch(upper) == lower.spec_patch(upper),
{
}

/// Bold and italics are put on and taken off, and nothing else of a style changes.
pub proof fn law_emphasis_goes_on_and_off(s: Style, c: Color)
    ensures
        s.spec_bold().add_modifier == (Modifier { bold: true, ..s.add_modifier }),
        s.spec_bold().spec_not_bold().add_modifier == (Modifier { bold: false, ..s.add_modifier }),
        s.spec_italic().add_modifier == (Modifier { italic: true, ..s.add_modifier }),
        s.spec_italic().spec_not_italic().add_modifier == (Modifier {
            italic: false,
            ..s.add_modifier
        }),
        s.spec_dim().add_modifier == (Modifier { dim: true, ..s.add_modifier }),
        s.spec_underlined().add_modifier == (Modifier { underlined: true, ..s.add_modifier }),
        s.spec_reversed().add_modifier == (Modifier { reversed: true, ..s.add_modifier }),
        s.spec_bold().fg == s.fg && s.spec_bold().bg == s.bg,
        s.spec_fg(c).fg == Some(c) && s.spec_fg(c).add_modifier == s.add_modifier,
{
}

/// A theme made of a palette takes its colors for what they are for: what is well and what is
/// added in one color, what failed and what is removed in another, what is selected or found
/// stands out, and what matters less is dim.
pub proof fn law_a_palette_colors_the_theme(p: Palette)
    ensures
        ({
            let t = palette_theme(p);
            &&& t.status_ok.fg == Some(p.ok) && t.diff_add.fg == t.status_ok.fg
            &&& t.status_err.fg == Some(p.err) && t.diff_del.fg == t.status_err.fg
            &&& t.status_warn.fg == Some(p.warn) && t.search_match.fg == t.status_warn.fg
            &&& t.accent.fg == Some(p.accent) && t.border_focus.fg == t.accent.fg && t.diff_hunk.fg
                == t.accent.fg && t.accent_dim.fg == t.accent.fg
            &&& t.text.fg == Some(p.text) && t.diff_ctx.fg == t.text.fg
            &&& t.text_muted.fg == Some(p.muted) && t.border.fg == t.text_muted.fg
            &&& t.status_err.add_modifier.bold && !t.status_ok.add_modifier.bold
            &&& t.text_muted.add_modifier.dim && t.accent_dim.add_modifier.dim
                && !t.text.add_modifier.dim && !t.accent.add_modifier.dim
            &&& t.selection.add_modifier.reversed && t.search_match.add_modifier.underlined
            &&& t.reasoning.add_modifier.italic
        }),
        ({
            let t = dark_theme();
            &&& t.diff_add.fg == t.status_ok.fg && t.diff_del.fg == t.status_err.fg
            &&& t.status_ok.fg != t.status_err.fg && t.status_ok.fg != t.status_warn.fg
                && t.status_warn.fg != t.status_err.fg
            &&& t.border_focus.fg == t.accent.fg && t.border_focus.fg != t.border.fg
            &&& t.selection.add_modifier.reversed && t.search_match.add_modifier.underlined
            &&& t.text_muted.add_modifier.dim && !t.text.add_modifier.dim
            &&& t.reasoning.add_modifier.italic && t.status_err.add_modifier.bold
        }),
{
}

/// Whether a preset goes by a name.
pub open spec fn is_preset(name: Seq<char>) -> bool {
    preset_palette(lowered(name)) is Some
}

/// Presets go by their names, whatever the case; a name that none goes by is the dark theme. A
/// preset is all in colors of its own.
pub proof fn law_presets_go_by_their_names(a: Seq<char>, b: Seq<char>)
    ensures
        lowered(a) == lowered(b) ==> preset_theme(a) == preset_theme(b),
        !is_preset(a) ==> preset_theme(a) == dark_theme(),
        is_preset(a) ==> preset_theme(a).accent.fg matches Some(Color::Rgb(..)),
        is_preset(a) ==> preset_theme(a).text.fg matches Some(Color::Rgb(..)),
        is_preset(a) ==> preset_theme(a).status_ok.fg != preset_theme(a).status_err.fg,
        is_preset(a) ==> preset_theme(a).status_warn.fg != preset_theme(a).status_err.fg,
        is_preset(a) && is_preset(b) && lowered(a) != lowered(b) ==> preset_theme(a).accent.fg
            != preset_theme(b).accent.fg,
{
}

} // verus!
