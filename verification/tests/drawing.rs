//! Exact lines of what is drawn.

use otto_tui::appearance::os_theme::parse_osc11_channels;
use otto_tui::dashboard::PinSet;
use otto_tui::keys::{KeyCode, KeyEvent, KeyModifiers};
use otto_tui::overlay::{Overlay, TextInputState};
use otto_tui::render::diff::compute_diff;
use otto_tui::render::highlight::{highlight, lines_of_ink, Highlighter, Ink, CACHE_CAP};
use otto_tui::render::markdown::{parse_events, render_events, render_markdown, MdEvent, MdTag};
use otto_tui::render::{Line, Span};
use otto_tui::narration::{strip_name_prefix, title_case};
use otto_tui::splash::{initial_splash, variant_of, SplashVariant, SPLASH_TICKS};
use otto_tui::state::App;
use otto_tui::theme::{Color, Style, Theme};
use otto_tui::transcript::{TodoItem, TodoStatus, TranscriptItem};
use otto_tui::view::footer::{attachment_chip, todos_lines};
use otto_tui::view::header::truncate_cols;
use otto_tui::view::prompt::{input_lines, search_bar_line};
use otto_tui::view::scrollback::{scroll_max, window, Renderer};
use otto_tui::view::search::search_matches;
use otto_tui::view::{centered, view, view_in, Rect, ROWS};

fn texts(lines: &[Line]) -> Vec<String> {
    lines.iter().map(Line::text).collect()
}

fn area(width: u16, height: u16) -> Rect {
    Rect { x: 0, y: 0, width, height }
}

#[test]
fn markdown_keeps_its_shape() {
    let mut h = Highlighter::new();
    let src = "# T\n\n- a\n  - b\n\n> q\n\n*i* **b** `c`\nnext\n\n```\nx = 1\n```\n";
    let out = render_markdown(&mut h, src);
    assert_eq!(
        texts(&out),
        ["T", "", "• a", "  • b", "▏ q", "", "i b c", "next", "", "  x = 1"]
    );
    let mixed = &out[6].spans;
    assert!(mixed[0].style.add_modifier.italic);
    assert!(mixed[2].style.add_modifier.bold && mixed[2].style.sub_modifier.italic);
    assert!(mixed[4].style.add_modifier.reversed);
    assert!(out[0].spans[0].style.add_modifier.bold);
    assert!(out[4].spans[0].style.add_modifier.dim);
}

#[test]
fn markdown_parts_are_told_apart() {
    assert_eq!(
        parse_events("a\n\n```rs\nb\n```"),
        [
            MdEvent::Start(MdTag::Paragraph),
            MdEvent::Text("a".into()),
            MdEvent::End(MdTag::Paragraph),
            MdEvent::Fence("rs".into()),
            MdEvent::Text("b\n".into()),
            MdEvent::End(MdTag::Code),
        ]
    );
}

#[test]
fn an_open_fence_shows_what_it_has() {
    let mut h = Highlighter::new();
    let events = [MdEvent::Text("a".into()), MdEvent::Fence(String::new()), MdEvent::Text("code".into())];
    assert_eq!(texts(&render_events(&mut h, &events)), ["a", "  code"]);
    let closed = [MdEvent::Start(MdTag::Code), MdEvent::End(MdTag::Code), MdEvent::Break, MdEvent::Other];
    assert!(render_events(&mut h, &closed).is_empty());
}

#[test]
fn code_is_colored_by_its_runs() {
    let ink = Ink { r: 1, g: 2, b: 3, text: "let\n".into() };
    let out = lines_of_ink(&Some(vec![vec![ink]]), "let\n");
    assert_eq!(out, [Line::of("let".into(), Style::plain().fg(Color::Rgb(1, 2, 3)))]);
    let out = lines_of_ink(&None, "a\nb");
    assert_eq!(out, [Line::of("a".into(), Style::plain().dim()), Line::of("b".into(), Style::plain().dim())]);
}

#[test]
fn the_first_line_tells_the_language() {
    let mut h = Highlighter::new();
    let shebang = highlight(&mut h, "#!/bin/bash\necho 1\n", None);
    assert!(shebang.iter().flat_map(|l| &l.spans).any(|s| s.style.fg.is_some()));
    let unknown = highlight(&mut h, "plain words", Some("nothing-known"));
    assert_eq!(unknown, [Line::of("plain words".into(), Style::plain().dim())]);
}

#[test]
fn highlighted_blocks_are_kept() {
    let mut h = Highlighter::new();
    let first = highlight(&mut h, "x", Some("nothing-known"));
    assert_eq!(h.kept_len(), 1);
    assert_eq!(highlight(&mut h, "x", Some("nothing-known")), first);
    assert_eq!(h.kept_len(), 1);
    for i in 1..CACHE_CAP {
        let _ = highlight(&mut h, &format!("x{i}"), None);
    }
    assert_eq!(h.kept_len(), CACHE_CAP);
    let _ = highlight(&mut h, "one more", None);
    assert_eq!(h.kept_len(), 1, "all are dropped together");
}

#[test]
fn diffs_are_unified() {
    assert_eq!(
        compute_diff("a\nb\n", "a\nc\n"),
        "--- old\n+++ new\n@@ -1,2 +1,2 @@\n a\n-b\n+c\n"
    );
    assert_eq!(compute_diff("a\n", "a\n"), "");
}

#[test]
fn titles_and_arguments_are_split() {
    assert_eq!(title_case("ßa"), "SSa");
    assert_eq!(title_case(""), "");
    assert_eq!(strip_name_prefix("bash", "bash  ls"), "ls");
    assert_eq!(strip_name_prefix("bash", "other"), "other");
}

#[test]
fn cut_texts_end_in_an_ellipsis() {
    assert_eq!(truncate_cols("abc", 3), "abc");
    assert_eq!(truncate_cols("abcd", 3), "ab…");
    assert_eq!(truncate_cols("世界", 3), "世…");
    assert_eq!(truncate_cols("ab", 0), "…");
}

#[test]
fn chips_and_todos_fit_their_rows() {
    assert_eq!(attachment_chip(&["src/a.rs".into(), "b".into(), "c/".into()]), "📎 a.rs, b,  (3)");
    let todo = |s: &str, status| TodoItem { content: s.into(), status };
    let todos = [
        todo("one", TodoStatus::Completed),
        todo("two", TodoStatus::InProgress),
        todo("three", TodoStatus::Cancelled),
    ];
    let theme = Theme::dark();
    assert_eq!(texts(&todos_lines(&todos, 3, 20, &theme)), ["✓ one", "• two", "✗ three"]);
    assert_eq!(texts(&todos_lines(&todos, 2, 20, &theme)), ["✓ one", "  +2 more"]);
    assert_eq!(texts(&todos_lines(&todos, 3, 5, &theme)), ["✓ one", "• two", "✗ th…"]);
}

#[test]
fn the_input_shows_the_rows_around_the_cursor() {
    let mut app = App::new();
    for c in "abcdef".chars() {
        app.input.insert(c);
    }
    let theme = Theme::dark();
    assert_eq!(texts(&input_lines(&app.input, 4, 2, &theme)), ["▌ abcd", "  ef"]);
    assert_eq!(texts(&input_lines(&app.input, 4, 1, &theme)), ["▌ ef"]);
    assert_eq!(search_bar_line("q", 7, 2, &theme).text(), "▌ /q    2/2");
    assert_eq!(search_bar_line("q", 0, 0, &theme).text(), "▌ /q    0/0");
}

#[test]
fn windows_start_with_the_line_of_the_row() {
    assert_eq!(window(&[0, 3, 4], 2), (0, 2));
    assert_eq!(window(&[0, 3, 4], 3), (1, 0));
    assert_eq!(window(&[0, 3, 4], 9), (2, 5));
    assert_eq!(window(&[], 9), (0, 0));
    assert_eq!(window(&[0], 100_000), (0, u16::MAX));
    assert_eq!(scroll_max(70_000, 10), 69_990);
}

#[test]
fn long_lines_take_several_rows() {
    let mut app = App::new();
    app.transcript.push(TranscriptItem::User("word ".repeat(40)));
    app.transcript.push(TranscriptItem::User("last".into()));
    let mut renderer = Renderer::new(None);
    renderer.refresh(&app.transcript, &app.themes.active(), 0, 60);
    let cache = renderer.cache.as_ref().unwrap();
    assert_eq!(cache.lines.len(), 2);
    assert!(cache.wrap_total >= 5, "{}", cache.wrap_total);
    assert_eq!(cache.line_wrap_starts, [0, cache.wrap_total - 1]);
}

#[test]
fn a_frame_tells_how_far_it_can_scroll() {
    let mut app = App::new();
    app.status = "ready".into();
    for i in 0..100 {
        app.transcript.push(TranscriptItem::User(format!("row {i}")));
    }
    let mut renderer = Renderer::new(None);
    let screen = view(&mut app, &mut renderer, area(80, 24), &Some("9 tok".into()), None);
    assert_eq!(app.last_scroll_max, 82, "a hundred rows, eighteen of them shown");
    let transcript = &screen.panes[1];
    assert_eq!(transcript.area.height, 18);
    assert_eq!(transcript.lines[0].text(), "› row 82");
    assert!(screen.panes.last().unwrap().lines[0].text().ends_with("9 tok"));
    assert_eq!(screen.cursor, Some((3, 20)));
}

#[test]
fn given_rows_are_used_as_they_are() {
    let mut app = App::new();
    let mut renderer = Renderer::new(None);
    let rows = [area(60, 1); ROWS];
    let screen = view_in(&mut app, &mut renderer, area(60, 10), &rows, &None, Some(95));
    assert!(screen.panes.iter().all(|p| p.area == area(60, 1)));
    let hints = screen.panes.last().unwrap();
    assert_eq!(hints.lines[0].spans[1].text, "  ·  95% ctx");
    assert_eq!(hints.lines[0].spans[1].style, Theme::dark().status_err);
    assert!(renderer.cache.is_none(), "an empty transcript is not assembled");
}

#[test]
fn boxes_stand_in_the_middle() {
    assert_eq!(centered(area(100, 21), 50, 6), Rect { x: 25, y: 7, width: 50, height: 6 });
    assert_eq!(centered(area(10, 2), 50, 6), area(10, 2));
    let mut app = App::new();
    app.overlay = Overlay::TextInput(TextInputState {
        title: "SDD plan file".into(),
        query: "p".into(),
        kind: "sdd".into(),
        mention: None,
    });
    let pane = app.popup(area(100, 20)).unwrap();
    assert_eq!(pane.border.unwrap().title, " SDD plan file ");
    assert_eq!(texts(&pane.lines), ["> p▌", "enter start · esc cancel"]);
    app.overlay = Overlay::Dashboard;
    assert!(app.popup(area(100, 20)).is_none());
}

#[test]
fn matches_in_split_lines_are_found() {
    let lines = [Line::pair(Span::raw("ab".into()), Span::raw("CD".into())), Line::raw("")];
    assert_eq!(search_matches(&lines, "bc"), [0]);
}

#[test]
fn splash_sizes_come_from_the_art() {
    let art = "ab\n\n@@@\n@\n";
    assert_eq!(variant_of(art, 3, 6), SplashVariant::Full);
    assert_eq!(variant_of(art, 3, 5), SplashVariant::Banner);
    assert_eq!(variant_of(art, 2, 9), SplashVariant::Banner);
    assert_eq!(variant_of(art, 1, 9), SplashVariant::Hidden);
    assert_eq!(initial_splash(false, false, true, 200, 60), Some(SPLASH_TICKS));
    assert_eq!(initial_splash(false, false, true, 5, 5), None);
    assert_eq!(initial_splash(true, false, true, 200, 60), None);
}

#[test]
fn background_colors_are_read_by_channel() {
    let (r, g, b) = parse_osc11_channels(b"\x1b]11;rgb:8/80/8000\x07").unwrap();
    assert_eq!((r.value, r.max), (8, 15));
    assert_eq!((g.value, g.max), (0x80, 0xff));
    assert_eq!((b.value, b.max), (0x8000, 0xffff));
    assert!(parse_osc11_channels(b"\xff\xfe").is_none());
    assert!(parse_osc11_channels(b"rgb:1/2").is_none());
    assert!(parse_osc11_channels(b"rgb:1/2/x").is_none());
}

#[test]
fn pins_come_and_go() {
    let mut pins = PinSet::new();
    assert!(pins.is_empty());
    pins.insert("a".into());
    pins.insert("a".into());
    assert!(pins.contains("a") && !pins.is_empty());
    assert!(pins.remove("a"));
    assert!(!pins.remove("a"));
    assert!(pins.is_empty());
}

#[test]
fn typing_over_text_only_types() {
    let mut app = App::new();
    app.input.insert('x');
    for c in ['?', '/', 'q'] {
        assert!(app.on_key(KeyEvent::new(KeyCode::Char(c), KeyModifiers::none())).is_none());
    }
    assert_eq!(app.input.text(), "x?/q");
    assert!(matches!(app.overlay, Overlay::Closed));
}
