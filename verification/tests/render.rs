//! Renderers: diffs, tool rows, code and markdown.

use otto_tui::render::diff::{compute_diff, render_diff};
use otto_tui::render::highlight::{highlight, select_syntect_theme, syntect_theme_name, Highlighter};
use otto_tui::render::markdown::render_markdown;
use otto_tui::render::tool::render_tool;
use otto_tui::render::Line;
use otto_tui::theme::{Color, Theme};
use otto_tui::transcript::ToolStatus;
use syntect::highlighting::ThemeSet;

fn js(text: &str) -> serde_json::Value {
    serde_json::from_str(text).unwrap()
}

fn texts(lines: &[Line]) -> Vec<String> {
    lines
        .iter()
        .map(|l| l.spans.iter().map(|s| s.text.as_str()).collect())
        .collect()
}

#[test]
fn colorizes_add_remove_context() {
    let theme = Theme::dark();
    let diff = "@@ -1,2 +1,2 @@\n ctx\n-old\n+new\n";
    let out = render_diff(diff, &theme);
    assert_eq!(texts(&out), vec!["@@ -1,2 +1,2 @@", " ctx", "-old", "+new"]);
    assert_eq!(out[2].spans[0].style.fg, Some(Color::Red));
    assert_eq!(out[3].spans[0].style.fg, Some(Color::Green));
}

#[test]
fn compute_diff_produces_unified() {
    let d = compute_diff("a\nb\n", "a\nc\n");
    assert!(d.contains("-b"), "diff: {d}");
    assert!(d.contains("+c"), "diff: {d}");
}

#[test]
fn collapsed_shows_marker_and_title() {
    let theme = Theme::dark();
    let out = render_tool(
        "read",
        ToolStatus::Success,
        "read a.rs",
        &None,
        &None,
        false,
        false,
        &theme,
    );
    let text = joined(&out);
    assert!(text.contains("read a.rs"));
    assert!(text.contains('▸'), "collapsed marker: {text:?}");
    assert_eq!(out.len(), 1, "collapsed is one line");
}

#[test]
fn ok_glyph_is_green_error_glyph_is_red() {
    let theme = Theme::dark();
    let ok = render_tool(
        "read",
        ToolStatus::Success,
        "t",
        &None,
        &None,
        false,
        false,
        &theme,
    );
    let err = render_tool(
        "read",
        ToolStatus::Error,
        "t",
        &None,
        &None,
        false,
        false,
        &theme,
    );
    let glyph = |ls: &[Line]| {
        ls[0]
            .spans
            .iter()
            .find(|s| s.text == "✓" || s.text == "✗")
            .map(|s| s.style.fg)
            .unwrap()
    };
    assert_eq!(glyph(&ok), Some(Color::Green));
    assert_eq!(glyph(&err), Some(Color::Red));
}

#[test]
fn expanded_edit_shows_diff() {
    let theme = Theme::dark();
    let input =
        js(r#"{"filePath": "a.rs", "oldString": "a\nb\n", "newString": "a\nc\n"}"#);
    let out = render_tool(
        "edit",
        ToolStatus::Success,
        "edit a.rs",
        &Some(input),
        &None,
        true,
        false,
        &theme,
    );
    let text = joined(&out);
    assert!(text.contains('▾'), "expanded marker");
    assert!(
        text.contains("-b") && text.contains("+c"),
        "shows a diff: {text}"
    );
}

#[test]
fn expanded_generic_shows_output() {
    let theme = Theme::dark();
    let out = render_tool(
        "bash",
        ToolStatus::Success,
        "bash ls",
        &None,
        &Some("file1\nfile2".into()),
        true,
        false,
        &theme,
    );
    assert!(joined(&out).contains("file1"));
}

#[test]
fn selected_row_shows_accent_bar() {
    let theme = Theme::dark();
    let out = render_tool(
        "read",
        ToolStatus::Success,
        "read a.rs",
        &None,
        &None,
        false,
        true,
        &theme,
    );
    let first = &out[0].spans[0];
    assert!(
        first.text.starts_with('▌'),
        "selected marker: {:?}",
        first.text
    );
    assert_eq!(first.style.fg, Some(Color::Cyan));
    let plain = render_tool(
        "read",
        ToolStatus::Success,
        "read a.rs",
        &None,
        &None,
        false,
        false,
        &theme,
    );
    assert_eq!(plain[0].spans[0].text.as_str(), "  ▸ ");
}

fn joined(lines: &[Line]) -> String {
    lines
        .iter()
        .map(|l| {
            l.spans
                .iter()
                .map(|s| s.text.as_str())
                .collect::<String>()
        })
        .collect::<Vec<_>>()
        .join("\n")
}

#[test]
fn highlight_is_memoized() {
    let mut h = Highlighter::new();
    let first = highlight(&mut h, "fn main() {}", Some("rust"));
    let second = highlight(&mut h, "fn main() {}", Some("rust"));
    assert_eq!(first, second);
}

#[test]
fn highlights_rust_preserving_text() {
    let mut h = Highlighter::new();
    let out = highlight(&mut h, "fn main() {}", Some("rust"));
    assert_eq!(joined(&out).trim_end(), "fn main() {}");
    assert!(
        out.iter()
            .flat_map(|l| &l.spans)
            .any(|s| s.style.fg.is_some())
    );
}

#[test]
fn unknown_language_falls_back_to_plain() {
    let mut h = Highlighter::new();
    let out = highlight(&mut h, "random text", Some("not-a-lang"));
    assert!(joined(&out).contains("random text"));
}

#[test]
fn no_language_does_not_panic() {
    let mut h = Highlighter::new();
    let _ = highlight(&mut h, "x = 1", None);
}

#[test]
fn syntect_theme_name_maps_presets_to_valid_keys() {
    let themes = ThemeSet::load_defaults();
    for preset in [
        Some("nord"),
        Some("catppuccin"),
        Some("gruvbox"),
        Some("base16"),
        None,
        Some("bogus"),
    ] {
        let name = syntect_theme_name(preset);
        assert!(
            themes.themes.contains_key(name),
            "syntect theme {name:?} (preset {preset:?}) not in load_defaults"
        );
    }
}

#[test]
fn select_syntect_theme_is_used_by_highlighter() {
    let mut h = Highlighter::new();
    select_syntect_theme(&mut h, Some("gruvbox"));
    let out = highlight(&mut h, "fn main() {}", Some("rust"));
    assert!(
        out.iter()
            .flat_map(|l| &l.spans)
            .any(|s| s.style.fg.is_some())
    );
}

fn joined_lines(lines: &[Line]) -> Vec<String> {
    lines
        .iter()
        .map(|l| l.spans.iter().map(|s| s.text.as_str()).collect())
        .collect()
}

#[test]
fn heading_and_paragraph() {
    let out = render_markdown(&mut Highlighter::new(), "# Title\n\nhello world");
    let text = joined_lines(&out);
    assert!(text.iter().any(|l| l.contains("Title")));
    assert!(text.iter().any(|l| l.contains("hello world")));
    let h = out
        .iter()
        .find(|l| l.spans.iter().any(|s| s.text.contains("Title")))
        .unwrap();
    assert!(
        h.spans
            .iter()
            .any(|s| s.style.add_modifier.bold)
    );
}

#[test]
fn bullet_list_and_inline_code() {
    let out = render_markdown(&mut Highlighter::new(), "- one\n- two\n\nuse `cargo test` now");
    let text = joined_lines(&out).join("\n");
    assert!(text.contains("one") && text.contains("two"));
    assert!(text.contains("cargo test"));
}

#[test]
fn incomplete_code_fence_does_not_panic() {
    let out = render_markdown(&mut Highlighter::new(), "text before\n```rust\nlet x = 1;");
    assert!(joined_lines(&out).join("\n").contains("let x = 1;"));
}
