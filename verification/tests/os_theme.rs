//! The system's appearance, read from what its tools print.

use otto_tui::appearance::os_theme::{
    parse_defaults_output, parse_gsettings_output, parse_osc11_channels, parse_reg_output, Channel,
};
use otto_tui::appearance::ThemeMode;

/// Classifies a background color by its luminance.
fn parse_osc11_reply(reply: &[u8]) -> Option<ThemeMode> {
    let (r, g, b) = parse_osc11_channels(reply)?;
    let part = |c: Channel| f64::from(c.value) / f64::from(c.max) * 255.0;
    let luminance = 0.299 * part(r) + 0.587 * part(g) + 0.114 * part(b);
    Some(if luminance < 128.0 {
        ThemeMode::Dark
    } else {
        ThemeMode::Light
    })
}

#[test]
fn parse_defaults_dark() {
    assert_eq!(parse_defaults_output(true, "Dark\n"), ThemeMode::Dark);
}

#[test]
fn parse_defaults_light_when_key_unset() {
    assert_eq!(parse_defaults_output(false, ""), ThemeMode::Light);
}

#[test]
fn parse_defaults_light_on_unexpected_output() {
    assert_eq!(parse_defaults_output(true, "Light\n"), ThemeMode::Light);
}

#[test]
fn parse_gsettings_dark() {
    assert_eq!(
        parse_gsettings_output("'prefer-dark'\n"),
        Some(ThemeMode::Dark)
    );
}

#[test]
fn parse_gsettings_default_is_light() {
    assert_eq!(
        parse_gsettings_output("'default'\n"),
        Some(ThemeMode::Light)
    );
}

#[test]
fn parse_gsettings_prefer_light_is_light() {
    assert_eq!(
        parse_gsettings_output("'prefer-light'\n"),
        Some(ThemeMode::Light)
    );
}

#[test]
fn parse_gsettings_unparseable_is_none() {
    assert_eq!(parse_gsettings_output("garbage\n"), None);
}

#[test]
fn parse_reg_dark() {
    assert_eq!(
        parse_reg_output("    AppsUseLightTheme    REG_DWORD    0x0\n"),
        Some(ThemeMode::Dark)
    );
}

#[test]
fn parse_reg_light() {
    assert_eq!(
        parse_reg_output("    AppsUseLightTheme    REG_DWORD    0x1\n"),
        Some(ThemeMode::Light)
    );
}

#[test]
fn parse_reg_garbage_is_none() {
    assert_eq!(parse_reg_output("ERROR: key not found\n"), None);
}

#[test]
fn parse_osc11_reply_dark() {
    let reply = b"\x1b]11;rgb:0000/0000/0000\x1b\\";
    assert_eq!(parse_osc11_reply(reply), Some(ThemeMode::Dark));
}

#[test]
fn parse_osc11_reply_light() {
    let reply = b"\x1b]11;rgb:ffff/ffff/ffff\x07";
    assert_eq!(parse_osc11_reply(reply), Some(ThemeMode::Light));
}

#[test]
fn parse_osc11_reply_garbage_is_none() {
    assert_eq!(parse_osc11_reply(b"not an osc11 reply"), None);
}

#[test]
fn parse_osc11_reply_handles_8bit_hex_channels() {
    let reply = b"\x1b]11;rgb:ff/ff/ff\x07";
    assert_eq!(parse_osc11_reply(reply), Some(ThemeMode::Light));
}
