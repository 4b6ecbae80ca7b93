//! Fine points of single operations, on concrete values.

use otto_tui::appearance::{quantize, ColorDepth};
use otto_tui::client::{workflow_body, SessionInfo};
use otto_tui::dashboard::{
    apply_pin_and_filter, DashboardPeek, DashboardRow, DashboardStatus, PinSet,
};
use otto_tui::events::LLMEvent;
use otto_tui::input::{wrap_rows, EditTime, Editor, WrapRow};
use otto_tui::keys::{KeyCode, KeyEvent, KeyModifiers};
use otto_tui::narration::tool_action;
use otto_tui::overlay::QuestionSession;
use otto_tui::render::highlight::Highlighter;
use otto_tui::sse::{
    FrameDecoder, FrameStream, QuestionAsked, QuestionOptionView, QuestionPromptView, ServerEvent,
};
use otto_tui::state::{App, Msg};
use otto_tui::theme::{Color, Style, Theme};
use otto_tui::transcript::{latest_message_text, TranscriptItem};
use otto_tui::view::scrollback::{assemble, Renderer, MAX_WRAP};
use otto_tui::view::{view, Rect};
use std::time::{Duration, Instant};

const FAMILY: &str = "\u{1F468}\u{200D}\u{1F469}\u{200D}\u{1F467}";

fn js(text: &str) -> serde_json::Value {
    serde_json::from_str(text).unwrap()
}

fn row(id: &str, indent: bool) -> DashboardRow {
    DashboardRow {
        session: SessionInfo { id: id.into(), ..SessionInfo::default() },
        status: DashboardStatus::Idle,
        indent,
    }
}

fn typed(text: &str) -> Editor {
    let mut e = Editor::new();
    for c in text.chars() {
        if c == '\n' {
            e.newline();
        } else {
            e.insert(c);
        }
    }
    e
}

#[test]
fn a_grapheme_is_never_split() {
    assert_eq!(
        wrap_rows(&[FAMILY.to_string()], 2),
        [WrapRow { logical_row: 0, start: 0, end: 18 }]
    );
    let line = format!("a{FAMILY}b");
    assert_eq!(
        wrap_rows(&[line], 2),
        [
            WrapRow { logical_row: 0, start: 0, end: 1 },
            WrapRow { logical_row: 0, start: 1, end: 19 },
            WrapRow { logical_row: 0, start: 19, end: 20 },
        ]
    );
    assert_eq!(
        wrap_rows(&["e\u{301}e\u{301}".to_string()], 1),
        [WrapRow { logical_row: 0, start: 0, end: 3 }, WrapRow { logical_row: 0, start: 3, end: 6 }],
        "a mark stays on its letter"
    );
}

#[test]
fn a_character_may_span_two_chunks() {
    let mut d = FrameDecoder::new();
    assert!(d.push(b"data: \xc3").is_empty());
    assert_eq!(d.push(b"\xa9\n\n"), ["é"]);
    let mut s = FrameStream::new();
    assert!(s.chunk(b"data: \xe4\xb8").is_empty());
    assert!(s.chunk(b"\x96").is_empty());
    assert_eq!(s.end().as_deref(), Some("世"));
}

#[test]
fn every_style_is_brought_to_the_depth() {
    let mut theme = Theme::dark();
    theme.selection = Style::plain().fg(Color::Rgb(255, 0, 0));
    theme.reasoning = Style::plain().fg(Color::Rgb(255, 0, 0));
    let q = quantize(&theme, ColorDepth::Ansi16);
    assert_eq!(q.selection.fg, Some(Color::LightRed));
    assert_eq!(q.reasoning.fg, Some(Color::LightRed));
    assert_eq!(quantize(&theme, ColorDepth::Ansi256).selection.fg, Some(Color::Indexed(196)));
}

#[test]
fn a_push_for_a_child_row_changes_nothing() {
    let mut app = App::new();
    app.dashboard.rows = vec![row("a", false), row("child", true)];
    app.dashboard.peek = DashboardPeek::Message("m".into());
    for id in ["child", "unknown"] {
        app.update(Msg::Event(ServerEvent::SessionBusy { session_id: id.into() }));
        assert!(app.dashboard.rows.iter().all(|r| matches!(r.status, DashboardStatus::Idle)));
        assert_eq!(app.dashboard.selected, 0);
        assert_eq!(app.dashboard.peek, DashboardPeek::Message("m".into()));
    }
    app.update(Msg::Event(ServerEvent::SessionBusy { session_id: "a".into() }));
    assert!(matches!(app.dashboard.rows[0].status, DashboardStatus::Busy));
}

#[test]
fn the_latest_text_is_found_across_rows() {
    let rows = [
        js(r#"{"info":{"role":"assistant"},"parts":[{"type":"text","text":"hello"}]}"#),
        js(r#"{"info":{"role":"assistant"},"parts":[{"type":"tool"}]}"#),
    ];
    assert_eq!(latest_message_text(&rows), "hello");
}

#[test]
fn a_mention_counts_as_a_whole_token() {
    let mut app = App::new();
    app.mention_paths = vec!["src/a.rs".into(), "src/a.rs.bak".into()];
    assert_eq!(app.take_files_for_submit("see @src/a.rs.bak"), ["src/a.rs.bak"]);
    assert!(app.attachments.is_empty() && app.mention_paths.is_empty());
    app.mention_paths = vec!["a.rs".into()];
    assert!(app.take_files_for_submit("mail me@a.rs").is_empty());
    app.mention_paths = vec!["a.rs".into()];
    assert_eq!(app.take_files_for_submit("@a.rs\nplease"), ["a.rs"]);
}

#[test]
fn only_a_leading_name_is_left_out_of_a_title() {
    assert_eq!(tool_action("read", "readme.md"), "Reading readme.md");
    assert_eq!(tool_action("read", "read me.md"), "Reading me.md");
}

#[test]
fn arranging_twice_is_arranging_once() {
    let mut pinned = PinSet::new();
    pinned.insert("b".to_string());
    let rows = vec![row("a", false), row("a1", true), row("b", false), row("b1", true)];
    let once = apply_pin_and_filter(rows, &pinned, "");
    let ids = |rs: &[DashboardRow]| rs.iter().map(|r| r.session.id.clone()).collect::<Vec<_>>();
    assert_eq!(ids(&once), ["b", "b1", "a", "a1"]);
    let first = ids(&once);
    assert_eq!(ids(&apply_pin_and_filter(once, &pinned, "")), first);
}

#[test]
fn down_leads_back_from_up() {
    for text in ["abcdef\nxy\nlonger line", "ab\nabcdefgh", "abcdefghij"] {
        for width in [3u16, 4, 80] {
            let mut e = typed(text);
            let at = e.cursor();
            if e.cursor_visual(width).0 == 0 {
                continue;
            }
            e.move_up(width);
            assert_ne!(e.cursor(), at);
            e.move_down(width);
            assert_eq!(e.cursor(), at, "{text:?} at {width}");
        }
    }
}

#[test]
fn undo_takes_back_a_run_of_edits() {
    let start = Instant::now();
    let at = |ms: u64, recent: bool| EditTime { now: start + Duration::from_millis(ms), recent };
    let mut e = Editor::new();
    e.insert_at('a', at(0, false));
    e.insert_at('b', at(100, true));
    e.newline_at(at(200, true));
    e.insert_at('c', at(2000, false));
    e.insert_at('d', at(2100, true));
    e.undo();
    assert_eq!(e.text(), "ab\n", "the later run");
    e.undo();
    assert_eq!(e.text(), "", "the earlier run");
    e.redo();
    assert_eq!(e.text(), "ab\n");
}

#[test]
fn text_after_a_retry_is_an_item_of_its_own() {
    for salvaged in [false, true] {
        let mut app = App::new();
        app.update(Msg::Submitted("q".into()));
        app.fold_event(LLMEvent::TextStart);
        app.fold_event(LLMEvent::TextDelta { text: "part".into() });
        let streamed = app.transcript.len();
        app.fold_event(LLMEvent::Retry {
            attempt: 1,
            max: 3,
            delay_ms: 0,
            message: "reset".into(),
            salvaged,
        });
        let kept = if salvaged { streamed } else { streamed - 1 };
        assert_eq!(app.transcript.len(), kept);
        app.fold_event(LLMEvent::TextDelta { text: "again".into() });
        assert_eq!(app.transcript.len(), kept + 1);
        assert!(matches!(app.transcript.last(), Some(TranscriptItem::Assistant(t)) if t == "again"));
    }
}

#[test]
fn the_rows_of_the_screen_stand_one_below_the_other() {
    let mut app = App::new();
    app.session_id = Some("ses_1".into());
    app.transcript.push(TranscriptItem::User("hello".into()));
    let area = Rect { x: 3, y: 2, width: 80, height: 24 };
    let heights = app.row_heights(area);
    let fixed: u16 = heights.iter().flatten().sum();
    let screen = view(&mut app, &mut Renderer::new(None), area, &None, None);
    let mut top = area.y;
    let mut tops = Vec::new();
    for h in &heights {
        let h = h.unwrap_or(area.height - fixed);
        if h > 0 {
            tops.push((top, h));
        }
        top += h;
    }
    assert_eq!(top, area.y + area.height);
    let drawn: Vec<(u16, u16)> = screen.panes.iter().map(|p| (p.area.y, p.area.height)).collect();
    for place in &tops {
        assert!(drawn.contains(place), "{place:?} of {drawn:?}");
    }
    assert!(screen.panes.iter().all(|p| p.area.x == 3 && p.area.width == 80));
}

#[test]
fn a_workflow_names_the_session_it_starts_from() {
    assert_eq!(workflow_body("go", None), js(r#"{"arg":"go"}"#));
    assert_eq!(workflow_body("go", Some("ses_1")), js(r#"{"arg":"go","parent":"ses_1"}"#));
}

#[test]
fn a_chosen_path_takes_the_place_of_its_token() {
    let mut app = App::new();
    app.on_key(KeyEvent::new(KeyCode::Char('@'), KeyModifiers::none()));
    app.files_loaded(vec!["src/main.rs".into()], false);
    app.mention_accept();
    assert_eq!(app.input.text(), "@src/main.rs ");
    assert_eq!(app.mention_paths, ["src/main.rs"]);
    app.input.undo();
    assert_eq!(app.input.text(), "@", "the replacement is a step of its own");
}

#[test]
fn every_edit_voids_redo() {
    let now = Instant::now();
    let edits: [fn(&mut Editor, EditTime); 4] = [
        |e, t| e.insert_at('x', t),
        |e, t| e.newline_at(t),
        |e, t| e.backspace_at(t),
        |e, t| e.replace_to_cursor_at(0, 0, "y", t),
    ];
    for edit in edits {
        for recent in [false, true] {
            let time = EditTime { now, recent };
            let mut e = Editor::new();
            e.insert_at('a', time);
            e.undo();
            edit(&mut e, time);
            edit(&mut e, time);
            let (text, at) = (e.text(), e.cursor());
            e.redo();
            assert_eq!((e.text(), e.cursor()), (text, at));
        }
    }
}

#[test]
fn a_completed_ask_has_an_answer_for_each_question() {
    let prompt = |multiple| QuestionPromptView {
        question: "?".into(),
        header: String::new(),
        options: vec![
            QuestionOptionView { label: "A".into(), description: String::new() },
            QuestionOptionView { label: "B".into(), description: String::new() },
        ],
        multiple,
    };
    let mut q = QuestionSession::new(QuestionAsked {
        id: "q".into(),
        session_id: "s".into(),
        questions: vec![prompt(false), prompt(true)],
    });
    assert!(!q.confirm_current(), "nothing is chosen");
    assert!(q.answers.is_empty());
    q.toggle(1);
    assert!(!q.confirm_current());
    assert_eq!((q.current, q.answers.clone()), (1, vec![vec![1]]));
    q.toggle(1);
    q.toggle(0);
    assert!(q.confirm_current());
    assert_eq!(q.answers, [vec![1], vec![1, 0]]);
}

#[test]
fn very_wide_screens_count_rows_too() {
    let items = [TranscriptItem::Assistant("x".repeat(70_000))];
    let mut h = Highlighter::new();
    let cache = assemble(&mut h, &items, &Theme::dark(), 0, u16::MAX);
    assert_eq!(cache.wrap_total as usize, 70_000_usize.div_ceil(MAX_WRAP as usize) + cache.lines.len() - 1);
}

#[test]
fn rows_that_do_not_fit_still_cut_the_screen_up() {
    for height in 10..=24 {
        let mut app = App::new();
        app.session_id = Some("ses_1".into());
        app.transcript.push(TranscriptItem::User("hello".into()));
        app.attachments.push("a.rs".into());
        for _ in 0..12 {
            app.input.newline();
        }
        let area = Rect { x: 0, y: 4, width: 80, height };
        let screen = view(&mut app, &mut Renderer::new(None), area, &None, None);
        let mut places: Vec<(u16, u16)> = screen
            .panes
            .iter()
            .map(|p| (p.area.y, p.area.height))
            .filter(|p| p.1 > 0)
            .collect();
        places.sort();
        assert_eq!(places[0].0, 4);
        for pair in places.windows(2) {
            assert_eq!(pair[1].0, pair[0].0 + pair[0].1, "{places:?}");
        }
        let last = places[places.len() - 1];
        assert_eq!(last.0 + last.1, 4 + height, "{places:?}");
    }
}
