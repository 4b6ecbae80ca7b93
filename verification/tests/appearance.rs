//! Color depth and quantizing.

use otto_tui::appearance::{detect_color_depth_from, quantize, ColorDepth};
use otto_tui::theme::{Color, Style, Theme};

#[test]
fn detect_color_depth_from_truecolor_colorterm() {
    assert_eq!(
        detect_color_depth_from(Some("truecolor"), Some("xterm")),
        ColorDepth::TrueColor
    );
    assert_eq!(
        detect_color_depth_from(Some("24bit"), None),
        ColorDepth::TrueColor
    );
    assert_eq!(
        detect_color_depth_from(Some("TrueColor"), None),
        ColorDepth::TrueColor,
        "case-insensitive"
    );
}

#[test]
fn detect_color_depth_from_256color_term() {
    assert_eq!(
        detect_color_depth_from(None, Some("xterm-256color")),
        ColorDepth::Ansi256
    );
}

#[test]
fn detect_color_depth_from_neither_is_16() {
    assert_eq!(detect_color_depth_from(None, None), ColorDepth::Ansi16);
    assert_eq!(
        detect_color_depth_from(None, Some("xterm")),
        ColorDepth::Ansi16
    );
}

#[test]
fn quantize_truecolor_is_identity() {
    let dark = Theme::dark();
    let q = quantize(&dark, ColorDepth::TrueColor);
    assert_eq!(q.accent.fg, dark.accent.fg);
}

#[test]
fn quantize_named_color_passes_through() {
    let dark = Theme::dark();
    for depth in [
        ColorDepth::TrueColor,
        ColorDepth::Ansi256,
        ColorDepth::Ansi16,
    ] {
        assert_eq!(quantize(&dark, depth).accent.fg, Some(Color::Cyan));
    }
}

#[test]
fn quantize_rgb_to_256_maps_to_indexed() {
    let nord = Theme::preset("nord");
    let q = quantize(&nord, ColorDepth::Ansi256);
    assert!(matches!(q.accent.fg, Some(Color::Indexed(_))));
}

#[test]
fn quantize_rgb_to_16_returns_a_named_color() {
    let nord = Theme::preset("nord");
    let q = quantize(&nord, ColorDepth::Ansi16);
    assert!(!matches!(
        q.accent.fg,
        Some(Color::Rgb(..)) | Some(Color::Indexed(_))
    ));
}

#[test]
fn quantize_rgb_to_16_maps_pure_red_to_light_red() {
    let mut theme = Theme::dark();
    theme.accent = Style::plain().fg(Color::Rgb(255, 0, 0));
    let q = quantize(&theme, ColorDepth::Ansi16);
    assert_eq!(q.accent.fg, Some(Color::LightRed));
}

#[test]
fn quantize_preserves_modifier_only_tokens() {
    let nord = Theme::preset("nord");
    for depth in [ColorDepth::Ansi256, ColorDepth::Ansi16] {
        let q = quantize(&nord, depth);
        assert_eq!(q.selection.add_modifier, nord.selection.add_modifier);
        assert_eq!(q.reasoning.add_modifier, nord.reasoning.add_modifier);
    }
}
