//! Properties that span several operations, on concrete values.

use otto_tui::appearance::{quantize, rgb_to_16, rgb_to_256, ColorDepth};
use otto_tui::dashboard::{apply_pin_and_filter, DashboardRow, DashboardStatus, PinSet};
use otto_tui::client::SessionInfo;
use otto_tui::events::{FinishReason, LLMEvent, Usage};
use otto_tui::input::{wrap_rows, Editor};
use otto_tui::keys::{KeyCode, KeyEvent, KeyModifiers};
use otto_tui::overlay::{Overlay, QuestionSession};
use otto_tui::palette::{fuzzy_subsequence, ranked_matches};
use otto_tui::sse::{
    decode_event, FrameDecoder, FrameStream, PermissionAsked, QuestionAsked, QuestionOptionView, QuestionPromptView, ServerEvent,
};
use otto_tui::state::{App, FlashKind, Msg, FLASH_TICKS};
use otto_tui::theme::{Color, Theme};
use otto_tui::view::popups::workflow_lines;
use otto_tui::transcript::{
    fold_history, is_rate_limit, latest_message_text, tool_title, ToolStatus, TranscriptItem, WorkflowView,
};
use std::collections::BTreeMap;

fn js(text: &str) -> serde_json::Value {
    serde_json::from_str(text).unwrap()
}

fn key(code: KeyCode) -> KeyEvent {
    KeyEvent::new(code, KeyModifiers::none())
}

fn text(t: &str) -> LLMEvent {
    LLMEvent::TextDelta { text: t.into() }
}

#[test]
fn frames_do_not_depend_on_how_the_stream_is_cut() {
    let stream = "data: {\"a\":1}\n\n: note\n\ndata: é\n\ndata: rest";
    let mut whole = FrameDecoder::new();
    let expected = whole.push(stream.as_bytes());
    assert_eq!(expected, ["{\"a\":1}", "é"]);
    for size in [1, 2, 3, 7] {
        let mut d = FrameDecoder::new();
        let mut out = Vec::new();
        for chunk in stream.as_bytes().chunks(size) {
            out.extend(d.push(chunk));
        }
        assert_eq!(out, expected);
        assert_eq!(d.flush().as_deref(), Some("rest"));
    }
}

#[test]
fn broken_bytes_become_replacement_characters() {
    let mut d = FrameDecoder::new();
    assert_eq!(d.push(b"data: a\xffb\n\n"), ["a\u{fffd}b"]);
}

#[test]
fn frames_that_are_no_events_are_ignored() {
    for frame in ["", "not json", "[]", "{}", "{\"type\": 1}", "{\"type\": \"permission.asked\"}"] {
        assert_eq!(decode_event(frame), ServerEvent::Other, "{frame}");
    }
}

#[test]
fn a_retry_takes_back_everything_that_was_streamed() {
    let mut app = App::new();
    app.update(Msg::Submitted("q".into()));
    for ev in [
        LLMEvent::ReasoningStart,
        LLMEvent::ReasoningDelta { text: "hm".into() },
        LLMEvent::ReasoningEnd,
        LLMEvent::TextStart,
        text("part"),
        LLMEvent::ToolCall { id: "c".into(), name: "read".into(), input: js("{}") },
    ] {
        app.fold_event(ev);
    }
    assert_eq!(app.transcript.len(), 4);
    app.fold_event(LLMEvent::Retry {
        attempt: 1,
        max: 5,
        delay_ms: 1500,
        message: "reset".into(),
        salvaged: false,
    });
    assert_eq!(app.transcript.len(), 1);
    assert!(app.running_tools.is_empty());
    assert_eq!(app.status, "retrying 1/5 (2s)", "seconds are rounded up");
}

#[test]
fn salvaged_work_stays() {
    let mut app = App::new();
    app.fold_event(text("kept"));
    app.fold_event(LLMEvent::Retry {
        attempt: 1,
        max: 5,
        delay_ms: 0,
        message: "reset".into(),
        salvaged: true,
    });
    assert_eq!(app.transcript.len(), 1);
    app.fold_event(text("new"));
    assert_eq!(app.transcript.len(), 2, "what follows is a new item");
}

#[test]
fn usage_readings_of_a_message_replace_each_other() {
    let usage = |i, o| Some(Usage { input_tokens: Some(i), output_tokens: Some(o), total_tokens: None });
    let mut app = App::new();
    app.fold_event(LLMEvent::StepFinish { usage: usage(5, 5) });
    app.fold_event(LLMEvent::StepFinish { usage: usage(10, 20) });
    app.fold_event(LLMEvent::Finish { reason: FinishReason::Stop, usage: None });
    assert_eq!(app.session_tokens, (10, 20));
    assert_eq!(app.message_tokens(), Some(30));
}

#[test]
fn warnings_and_tool_errors_show() {
    let mut app = App::new();
    app.fold_event(LLMEvent::Warning { message: "low".into() });
    assert!(matches!(&app.transcript[0], TranscriptItem::Workflow(l) if l == "⚠ low"));
    app.fold_event(LLMEvent::ToolCall { id: "c".into(), name: "bash".into(), input: js(r#"{"command": "ls"}"#) });
    app.fold_event(LLMEvent::ToolError { id: "c".into(), message: "denied".into() });
    match &app.transcript[1] {
        TranscriptItem::Tool { status, title, output, .. } => {
            assert_eq!(*status, ToolStatus::Error);
            assert_eq!(title, "bash ls");
            assert_eq!(output.as_deref(), Some("denied"));
        }
        other => panic!("unexpected {other:?}"),
    }
    app.fold_event(LLMEvent::Other);
    assert_eq!(app.transcript.len(), 2);
}

#[test]
fn loading_history_twice_changes_nothing() {
    let rows = || {
        vec![
            js(r#"{"info": {"role": "user"}, "parts": [{"type": "text", "text": "q"}]}"#),
            js(r#"{"info": {"role": "assistant"}, "parts": [{"type": "reasoning", "text": "r"}, {"type": "text", "text": "a"}]}"#),
        ]
    };
    let mut app = App::new();
    app.update(Msg::HistoryLoaded(rows()));
    let first = format!("{:?}", app.transcript);
    app.update(Msg::HistoryLoaded(rows()));
    assert_eq!(format!("{:?}", app.transcript), first);
    assert_eq!(app.transcript.len(), 3);
    assert_eq!(latest_message_text(&rows()), "a");
    let (items, todos) = fold_history(&[]);
    assert!(items.is_empty() && todos.is_empty());
}

#[test]
fn a_workflow_task_has_one_row() {
    let mut tasks = BTreeMap::new();
    for (index, status) in [(2u32, "a"), (1, "b"), (2, "c")] {
        tasks.insert(index, (status.to_string(), String::new()));
    }
    let run = WorkflowView { kind: "k".into(), arg: "x".into(), session: "s".into(), tasks, done: None };
    let lines = workflow_lines(&run, 40, &Theme::dark());
    assert_eq!(lines.len(), 4);
    assert!(lines[1].spans[0].text.contains("task 1") && lines[1].spans[0].text.contains('b'));
    assert!(lines[2].spans[0].text.contains("task 2") && lines[2].spans[0].text.contains('c'));
}

#[test]
fn rate_limits_are_told_by_their_words() {
    assert!(is_rate_limit("status 429"));
    assert!(is_rate_limit("Rate limit exceeded"));
    assert!(!is_rate_limit("connection reset"));
}

#[test]
fn tool_titles_name_the_main_argument() {
    assert_eq!(tool_title("read", &js(r#"{"filePath": "a.rs"}"#)), "read a.rs");
    assert_eq!(tool_title("read", &js("{}")), "read");
}

#[test]
fn foreign_asks_leave_the_screen_alone() {
    let mut app = App::new();
    app.session_id = Some("mine".into());
    app.overlay = Overlay::Help;
    app.update(Msg::Event(ServerEvent::PermissionAsked(PermissionAsked {
        id: "p".into(),
        session_id: "other".into(),
        permission: "edit".into(),
        patterns: vec![],
    })));
    assert!(matches!(app.overlay, Overlay::Help));
}

#[test]
fn permission_keys_answer_and_close() {
    for (c, word) in [('y', "once"), ('a', "always"), ('n', "reject")] {
        let mut app = App::new();
        app.session_id = Some("s".into());
        app.update(Msg::Event(ServerEvent::PermissionAsked(PermissionAsked {
            id: "p".into(),
            session_id: "s".into(),
            permission: "edit".into(),
            patterns: vec![],
        })));
        let msg = app.on_key(key(KeyCode::Char(c)));
        assert!(matches!(msg, Some(Msg::PermissionReply { id, reply }) if id == "p" && reply == word));
        assert!(matches!(app.overlay, Overlay::Closed));
    }
}

#[test]
fn the_splash_and_flashes_end_by_themselves() {
    let mut app = App::new();
    app.status = "ready".into();
    app.splash = Some(2);
    app.flash_warning("careful");
    assert_eq!(app.flash.as_ref().map(|f| f.kind), Some(FlashKind::Warning));
    app.update(Msg::Tick);
    assert_eq!(app.splash, Some(1));
    app.update(Msg::Tick);
    assert_eq!(app.splash, None);
    for _ in 2..FLASH_TICKS - 1 {
        app.update(Msg::Tick);
    }
    assert!(app.flash.is_some());
    app.update(Msg::Tick);
    assert!(app.flash.is_none());
}

#[test]
fn tool_detail_toggles_back() {
    let mut app = App::new();
    app.fold_event(LLMEvent::ToolCall { id: "c".into(), name: "read".into(), input: js("{}") });
    let before = format!("{:?}", app.transcript);
    app.update(Msg::ToggleTool);
    assert_ne!(format!("{:?}", app.transcript), before);
    app.update(Msg::ToggleTool);
    assert_eq!(format!("{:?}", app.transcript), before);
}

#[test]
fn scrolling_up_and_down_returns() {
    let mut app = App::new();
    app.last_scroll_max = 10;
    app.scroll_up(4);
    app.scroll_up(4);
    app.scroll_down(4);
    assert_eq!(app.scroll, 4);
    app.scroll_up(u32::MAX);
    assert_eq!(app.scroll, 10);
}

#[test]
fn undo_and_redo_walk_the_same_steps() {
    let mut e = Editor::new();
    e.insert('a');
    e.newline();
    e.backspace();
    e.undo();
    assert_eq!(e.text(), "a\n");
    e.redo();
    assert_eq!(e.text(), "a");
    e.undo();
    e.undo();
    assert_eq!(e.text(), "");
    assert_eq!(e.position(), (0, 0));
}

#[test]
fn wrapped_rows_tile_the_line() {
    let line = "a世b界c".to_string();
    for width in 1..8 {
        let rows = wrap_rows(std::slice::from_ref(&line), width);
        let joined: String = rows.iter().map(|r| &line[r.start..r.end]).collect();
        assert_eq!(joined, line);
        assert_eq!(rows[0].start, 0);
    }
    assert_eq!(wrap_rows(&["世".to_string()], 1).len(), 1, "a wide character is not split");
}

#[test]
fn ranking_puts_the_better_match_first() {
    assert_eq!(fuzzy_subsequence("ab", "xaxb"), Some(2));
    assert_eq!(fuzzy_subsequence("ba", "ab"), None);
    let results = ["xaxb".to_string(), "ab".to_string(), "none".to_string()];
    assert_eq!(ranked_matches(&results, "ab", None), [1, 0]);
}

#[test]
fn questions_collect_one_answer_each() {
    let option = |l: &str| QuestionOptionView { label: l.into(), description: String::new() };
    let mut q = QuestionSession::new(QuestionAsked {
        id: "q".into(),
        session_id: "s".into(),
        questions: vec![QuestionPromptView {
            question: "?".into(),
            header: "h".into(),
            options: vec![option("A"), option("B"), option("C")],
            multiple: true,
        }],
    });
    assert_eq!(q.current_question().options.len(), 3);
    assert!(q.current_question_is_multiple());
    q.move_highlight(-1);
    assert_eq!(q.highlight, 2, "round the list");
    q.toggle(1);
    q.toggle(1);
    assert!(q.cursor.is_empty(), "twice is as before");
    q.toggle(2);
    assert!(q.confirm_current());
    assert_eq!(q.answers, [[2]]);
}

#[test]
fn without_pins_and_filter_the_rows_stay() {
    let row = |id: &str| DashboardRow {
        session: SessionInfo { id: id.into(), title: Some(format!("Ä {id}")), ..Default::default() },
        status: DashboardStatus::Idle,
        indent: false,
    };
    let ids = |rows: Vec<DashboardRow>| rows.into_iter().map(|r| r.session.id).collect::<Vec<_>>();
    assert_eq!(ids(apply_pin_and_filter(vec![row("b"), row("a")], &PinSet::new(), "")), ["b", "a"]);
    assert_eq!(
        ids(apply_pin_and_filter(vec![row("b"), row("a")], &PinSet::new(), "ä A")),
        ["a"],
        "the filter ignores case beyond ASCII"
    );
}

#[test]
fn quantizing_is_exact_on_the_palette() {
    assert_eq!(rgb_to_256(255, 0, 0), 196);
    assert_eq!(rgb_to_256(0, 0, 0), 16);
    assert_eq!(rgb_to_16(0, 0, 0), Color::Black);
    assert_eq!(rgb_to_16(255, 255, 255), Color::White);
    let nord = Theme::preset("nord");
    let once = quantize(&nord, ColorDepth::Ansi256);
    assert_eq!(quantize(&once, ColorDepth::Ansi256), once);
    assert_eq!(quantize(&nord, ColorDepth::TrueColor), nord);
}

#[test]
fn nothing_comes_after_the_end_of_a_response() {
    let mut s = FrameStream::new();
    assert_eq!(s.chunk(b"data: a\n\ndata: b"), ["a"]);
    assert!(!s.is_over());
    assert_eq!(s.end().as_deref(), Some("b"));
    assert!(s.is_over());
    assert!(s.chunk(b"data: c\n\n").is_empty());
    assert_eq!(s.end(), None);
}
