//! Themes.

use otto_tui::theme::{Color, Theme};

#[test]
fn select_picks_mono_under_no_color() {
    assert_eq!(Theme::select(false).accent.fg, Some(Color::Cyan));
    assert_eq!(Theme::select(true).accent.fg, None);
}

#[test]
fn mono_strips_color_keeps_modifiers() {
    let m = Theme::mono();
    for s in [
        m.text,
        m.text_muted,
        m.accent,
        m.accent_dim,
        m.status_ok,
        m.status_warn,
        m.status_err,
        m.border,
        m.border_focus,
        m.selection,
        m.search_match,
        m.reasoning,
        m.diff_add,
        m.diff_del,
        m.diff_hunk,
        m.diff_ctx,
    ] {
        assert_eq!(s.fg, None, "mono token has no fg");
        assert_eq!(s.bg, None, "mono token has no bg");
    }
    assert!(m.text_muted.add_modifier.dim);
    assert!(m.status_err.add_modifier.bold);
    assert!(m.selection.add_modifier.reversed);
    assert!(m.search_match.add_modifier.underlined);
    assert!(
        m.reasoning
            .add_modifier
            .dim && m.reasoning.add_modifier.italic
    );
}

#[test]
fn search_match_distinct_from_selection() {
    for theme in [Theme::dark(), Theme::mono()] {
        assert_ne!(
            theme.selection.add_modifier, theme.search_match.add_modifier,
            "current vs other match modifiers must differ"
        );
    }
}

#[test]
fn preset_nord_is_distinct_and_colored() {
    let n = Theme::preset("nord");
    assert!(n.accent.fg.is_some());
    assert_ne!(n.accent.fg, Theme::dark().accent.fg);
}

#[test]
fn preset_is_case_insensitive() {
    assert_eq!(
        Theme::preset("NORD").accent.fg,
        Theme::preset("nord").accent.fg
    );
}

#[test]
fn preset_unknown_falls_back_to_dark() {
    assert_eq!(Theme::preset("bogus").accent.fg, Theme::dark().accent.fg);
}

#[test]
fn select_with_no_color_wins_over_preset() {
    assert_eq!(Theme::select_with(true, Some("nord")).accent.fg, None);
}

#[test]
fn select_with_applies_named_preset() {
    assert_eq!(
        Theme::select_with(false, Some("gruvbox")).accent.fg,
        Theme::preset("gruvbox").accent.fg
    );
}

#[test]
fn select_with_none_is_dark() {
    assert_eq!(
        Theme::select_with(false, None).accent.fg,
        Theme::dark().accent.fg
    );
}

#[test]
fn preset_light_is_distinct_and_colored() {
    let l = Theme::preset("light");
    assert!(l.accent.fg.is_some());
    assert_ne!(l.accent.fg, Theme::dark().accent.fg);
}

#[test]
fn accent_hex_for_rgb_preset() {
    assert_eq!(
        Theme::preset("nord").accent_hex(),
        Some("88C0D0".to_string())
    );
}

#[test]
fn accent_hex_none_for_named_color() {
    assert_eq!(Theme::dark().accent_hex(), None);
}

#[test]
fn accent_hex_none_for_mono() {
    assert_eq!(Theme::mono().accent_hex(), None);
}
