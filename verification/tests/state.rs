//! The state under messages and keys.

use otto_tui::appearance::ThemeMode;
use otto_tui::client::{AgentInfo, ModelChoice, SessionInfo};
use otto_tui::events::{FinishReason, LLMEvent, ToolResultValue, Usage};
use otto_tui::keys::{KeyCode, KeyEvent, KeyModifiers};
use otto_tui::overlay::{Overlay, QuestionSession, TextInputState};
use otto_tui::palette::{
    commands, file_matches, fuzzy_subsequence, palette_matches, ranked_matches, Command, COMMAND_COUNT,
};
use otto_tui::sse::{
    PermissionAsked, QuestionAsked, QuestionOptionView, QuestionPromptView, ServerEvent, SubagentMsg, WfPhase,
    WorkflowMsg,
};
use otto_tui::state::{App, LoopAction, Msg, FLASH_TICKS};
use otto_tui::theme::{Theme, Themes};
use otto_tui::transcript::{parse_todos, TodoItem, TodoStatus, ToolStatus, TranscriptItem, WorkflowView};
use std::collections::BTreeMap;

fn js(text: &str) -> serde_json::Value {
    serde_json::from_str(text).unwrap()
}

/// Dollars per million input and output tokens.
const PRICE: Option<(f64, f64)> = Some((3.0, 15.0));

fn fmt_tokens(n: u64) -> String {
    if n >= 1000 {
        format!("{:.1}k", n as f64 / 1000.0)
    } else {
        n.to_string()
    }
}

/// The usage text with its numbers written out.
fn usage_line(app: &App, price: Option<(f64, f64)>) -> Option<String> {
    let total = app.message_tokens()?;
    let usage = app.usage.as_ref()?;
    let cost = match (price, usage.input_tokens, usage.output_tokens) {
        (Some((ci, co)), Some(i), Some(o)) => {
            let dollars = i as f64 / 1_000_000.0 * ci + o as f64 / 1_000_000.0 * co;
            if dollars >= 0.0005 {
                Some(format!("{dollars:.3}"))
            } else {
                None
            }
        }
        _ => None,
    };
    let session = fmt_tokens(app.session_tokens.0 + app.session_tokens.1);
    app.usage_line(&fmt_tokens(total), cost.as_deref(), &session)
}

fn key(code: KeyCode) -> KeyEvent {
    KeyEvent::new(code, KeyModifiers::none())
}

fn ctrl_key(code: KeyCode) -> KeyEvent {
    KeyEvent::new(code, KeyModifiers::control())
}

#[test]
fn enter_submits_and_clears_input() {
    let mut app = App::new();
    app.session_id = Some("ses_1".into());
    for c in "hello".chars() {
        app.input.insert(c);
    }
    let msg = app.on_key(key(KeyCode::Enter));
    assert!(matches!(msg, Some(Msg::Submitted(s)) if s == "hello"));
    assert!(app.input.is_empty());
}

#[test]
fn question_mark_opens_help_when_input_empty() {
    let mut app = App::new();
    let msg = app.on_key(key(KeyCode::Char('?')));
    assert!(msg.is_none());
    assert!(matches!(app.overlay, Overlay::Help));
}

#[test]
fn esc_closes_overlay() {
    let mut app = App::new();
    app.overlay = Overlay::Help;
    app.on_key(key(KeyCode::Esc));
    assert!(matches!(app.overlay, Overlay::Closed));
}

#[test]
fn ctrl_n_starts_new_session() {
    let mut app = App::new();
    app.input.insert('h');
    let msg = app.on_key(KeyEvent::new(KeyCode::Char('n'), KeyModifiers::control()));
    assert!(matches!(msg, Some(Msg::NewSession)));
}

#[test]
fn ctrl_k_opens_palette_when_no_overlay() {
    let mut app = App::new();
    app.on_key(ctrl_key(KeyCode::Char('k')));
    assert!(matches!(app.overlay, Overlay::Palette(_)));
}

#[test]
fn ctrl_k_ignored_while_overlay_open() {
    let mut app = App::new();
    app.overlay = Overlay::Help;
    app.on_key(ctrl_key(KeyCode::Char('k')));
    assert!(
        matches!(app.overlay, Overlay::Help),
        "must not hijack open overlay"
    );
}

#[test]
fn ctrl_f_opens_file_picker_when_idle() {
    let mut app = App::new();
    app.on_key(ctrl_key(KeyCode::Char('f')));
    assert!(matches!(app.overlay, Overlay::Files(_)));
}

#[test]
fn ctrl_f_ignored_while_overlay_open() {
    let mut app = App::new();
    app.overlay = Overlay::Help;
    app.on_key(ctrl_key(KeyCode::Char('f')));
    assert!(matches!(app.overlay, Overlay::Help));
}

fn running_workflow() -> WorkflowView {
    WorkflowView {
        kind: "sdd".into(),
        arg: "p.md".into(),
        session: "ses_9".into(),
        tasks: BTreeMap::new(),
        done: None,
    }
}

#[test]
fn ctrl_x_cancels_active_workflow() {
    let mut app = App::new();
    app.workflow = Some(running_workflow());
    let msg = app.on_key(ctrl_key(KeyCode::Char('x')));
    assert!(matches!(msg, Some(Msg::CancelWorkflow(s)) if s == "ses_9"));
}

#[test]
fn ctrl_x_noop_when_no_active_workflow() {
    let mut app = App::new();
    app.workflow = None;
    let msg = app.on_key(ctrl_key(KeyCode::Char('x')));
    assert!(!matches!(msg, Some(Msg::CancelWorkflow(_))));
    let mut done = running_workflow();
    done.done = Some(true);
    app.workflow = Some(done);
    let msg = app.on_key(ctrl_key(KeyCode::Char('x')));
    assert!(!matches!(msg, Some(Msg::CancelWorkflow(_))));
}

#[test]
fn toggle_opens_workflow_status_overlay() {
    let mut app = App::new();
    app.workflow = Some(running_workflow());
    app.toggle_workflow_status();
    assert!(matches!(app.overlay, Overlay::WorkflowStatus));
    app.toggle_workflow_status();
    assert!(matches!(app.overlay, Overlay::Closed));
}

#[test]
fn toggle_workflow_status_noop_without_workflow() {
    let mut app = App::new();
    app.workflow = None;
    app.toggle_workflow_status();
    assert!(matches!(app.overlay, Overlay::Closed));
}

#[test]
fn permission_mode_changed_sets_permission_mode() {
    let mut app = App::new();
    assert_eq!(app.permission_mode, "approve-each");
    app.update(Msg::PermissionModeChanged("full-auto".into()));
    assert_eq!(app.permission_mode, "full-auto");
}

#[test]
fn focus_changed_updates_focused_flag() {
    let mut app = App::new();
    assert!(app.focused, "starts focused");
    app.update(Msg::FocusChanged(false));
    assert!(!app.focused);
    app.update(Msg::FocusChanged(true));
    assert!(app.focused);
}

#[test]
fn focus_gained_resets_active_title() {
    let mut app = App::new();
    app.focused = false;
    app.title_active = true;
    app.update(Msg::FocusChanged(true));
    assert!(!app.title_active);
    assert_eq!(app.pending_action, Some(LoopAction::ResetTitle));
}

#[test]
fn focus_gained_is_a_noop_when_no_title_is_active() {
    let mut app = App::new();
    app.focused = false;
    app.update(Msg::FocusChanged(true));
    assert_eq!(app.pending_action, None);
}

#[test]
fn finish_while_unfocused_sets_notify_action() {
    let mut app = App::new();
    app.session_id = Some("ses_1".into());
    app.focused = false;
    app.fold_event(LLMEvent::Finish { reason: FinishReason::Stop, usage: None });
    assert_eq!(app.pending_action, Some(LoopAction::Notify));
    assert!(app.title_active);
}

#[test]
fn finish_while_focused_does_not_notify() {
    let mut app = App::new();
    app.session_id = Some("ses_1".into());
    app.focused = true;
    app.fold_event(LLMEvent::Finish { reason: FinishReason::Stop, usage: None });
    assert_eq!(app.pending_action, None);
    assert!(!app.title_active);
}

#[test]
fn tool_calls_finish_does_not_notify_even_when_unfocused() {
    let mut app = App::new();
    app.session_id = Some("ses_1".into());
    app.focused = false;
    app.fold_event(LLMEvent::Finish { reason: FinishReason::ToolCalls, usage: None });
    assert_eq!(app.pending_action, None);
}

#[test]
fn os_theme_changed_swaps_theme_and_dedupes() {
    let mut app = App::new();
    app.themes = Themes::with(Theme::dark(), Theme::dark(), Theme::preset("light"));
    let gen_before = app.render_gen;

    app.update(Msg::OsThemeChanged(Some(
        ThemeMode::Light,
    )));
    assert_eq!(app.theme_mode, Some(ThemeMode::Light));
    assert_eq!(app.themes.active().accent.fg, app.themes.light().accent.fg);
    assert_eq!(app.pending_action, Some(LoopAction::CursorColor));
    assert!(
        app.render_gen > gen_before,
        "theme swap must bump render_gen"
    );

    app.pending_action = None;
    let gen_after_first = app.render_gen;
    app.update(Msg::OsThemeChanged(Some(
        ThemeMode::Light,
    )));
    assert_eq!(app.pending_action, None, "no change — no action");
    assert_eq!(app.render_gen, gen_after_first);
}

#[test]
fn os_theme_changed_none_is_a_noop() {
    let mut app = App::new();
    let gen_before = app.render_gen;
    app.update(Msg::OsThemeChanged(None));
    assert_eq!(app.theme_mode, None);
    assert_eq!(app.pending_action, None);
    assert_eq!(app.render_gen, gen_before);
}

#[test]
fn file_picker_type_toggle_and_esc() {
    let mut app = App::new();
    app.on_key(ctrl_key(KeyCode::Char('f')));
    app.files_loaded(vec!["Cargo.toml".into(), "src.rs".into()], false);
    for c in "car".chars() {
        app.on_key(key(KeyCode::Char(c)));
    }
    app.on_key(key(KeyCode::Enter));
    assert_eq!(app.attachments, vec!["Cargo.toml".to_string()]);
    app.on_key(key(KeyCode::Esc));
    assert!(matches!(app.overlay, Overlay::Closed));
}

#[test]
fn palette_type_and_enter_dispatches() {
    let mut app = App::new();
    app.on_key(ctrl_key(KeyCode::Char('k')));
    app.on_key(key(KeyCode::Char('n')));
    app.on_key(key(KeyCode::Char('e')));
    app.on_key(key(KeyCode::Char('w')));
    let msg = app.on_key(key(KeyCode::Enter));
    assert!(matches!(msg, Some(Msg::NewSession)));
}

#[test]
fn palette_esc_closes() {
    let mut app = App::new();
    app.open_palette();
    app.on_key(key(KeyCode::Esc));
    assert!(matches!(app.overlay, Overlay::Closed));
}

#[test]
fn palette_backspace_removes_last_char() {
    let mut app = App::new();
    app.on_key(ctrl_key(KeyCode::Char('k')));
    app.on_key(key(KeyCode::Char('n')));
    app.on_key(key(KeyCode::Char('e')));
    app.on_key(key(KeyCode::Backspace));
    match &app.overlay {
        Overlay::Palette(ps) => assert_eq!(ps.query, "n", "backspace drops last char"),
        other => panic!("expected palette overlay, got {other:?}"),
    }
}

#[test]
fn open_search_sets_overlay_and_close_overlay_clears_it() {
    let mut app = App::new();
    app.open_search();
    assert!(matches!(app.overlay, Overlay::Search(_)));
    app.close_overlay();
    assert!(matches!(app.overlay, Overlay::Closed));
}

#[test]
fn search_input_and_backspace_mutate_query_and_reset_current() {
    let mut app = App::new();
    app.open_search();
    app.search_input('h');
    app.search_input('i');
    app.search_move(3);
    match &app.overlay {
        Overlay::Search(s) => assert_eq!(s.current, 3),
        other => panic!("expected search overlay, got {other:?}"),
    }
    app.search_input('!');
    match &app.overlay {
        Overlay::Search(s) => {
            assert_eq!(s.query, "hi!");
            assert_eq!(s.current, 0, "typing resets the match ordinal");
        }
        other => panic!("expected search overlay, got {other:?}"),
    }
    app.search_move(2);
    app.search_backspace();
    match &app.overlay {
        Overlay::Search(s) => {
            assert_eq!(s.query, "hi");
            assert_eq!(s.current, 0, "backspace resets the match ordinal");
        }
        other => panic!("expected search overlay, got {other:?}"),
    }
}

#[test]
fn search_move_saturates_at_zero() {
    let mut app = App::new();
    app.open_search();
    app.search_move(-5);
    match &app.overlay {
        Overlay::Search(s) => assert_eq!(s.current, 0),
        other => panic!("expected search overlay, got {other:?}"),
    }
    app.search_move(4);
    match &app.overlay {
        Overlay::Search(s) => assert_eq!(s.current, 4),
        other => panic!("expected search overlay, got {other:?}"),
    }
    app.search_move(-2);
    match &app.overlay {
        Overlay::Search(s) => assert_eq!(s.current, 2),
        other => panic!("expected search overlay, got {other:?}"),
    }
}

#[test]
fn search_methods_are_noops_outside_search_overlay() {
    let mut app = App::new();
    app.overlay = Overlay::Help;
    app.search_input('x');
    app.search_backspace();
    app.search_move(1);
    assert!(
        matches!(app.overlay, Overlay::Help),
        "must not hijack open overlay"
    );
}

fn td(text: &str) -> LLMEvent {
    LLMEvent::TextDelta { text: text.into() }
}

#[test]
fn transcript_mutation_bumps_render_gen() {
    let mut app = App::new();
    let g0 = app.render_gen;
    app.update(Msg::Server(td("hi")));
    assert_ne!(app.render_gen, g0, "assembling content changed");
}

#[test]
fn history_reload_resets_open_stream_blocks() {
    let mut app = App::new();
    app.update(Msg::Server(td("streamed before reconcile")));
    assert!(matches!(
        app.transcript.last(),
        Some(TranscriptItem::Assistant(_))
    ));

    let rows = vec![
        js(r#"{"info": {"role": "user"}, "parts": [{"type": "text", "text": "old user msg"}]}"#),
        js(r#"{"info": {"role": "assistant"}, "parts": [{"type": "text", "text": "old answer"}]}"#),
    ];
    app.update(Msg::HistoryLoaded(rows));
    let len_after_reload = app.transcript.len();

    app.update(Msg::Server(td("fresh delta")));
    assert_eq!(app.transcript.len(), len_after_reload + 1);
    match app.transcript.last() {
        Some(TranscriptItem::Assistant(s)) => assert_eq!(s, "fresh delta"),
        other => panic!("expected a fresh assistant item, got {other:?}"),
    }
    match &app.transcript[len_after_reload - 1] {
        TranscriptItem::Assistant(s) => {
            assert_eq!(s, "old answer", "historical item untouched");
        }
        other => panic!("unexpected reloaded item {other:?}"),
    }
}

#[test]
fn enter_mid_turn_keeps_input_and_flashes() {
    let mut app = App::new();
    app.session_id = Some("ses_1".into());
    app.status = "thinking".into();
    for c in "queued while busy".chars() {
        app.input.insert(c);
    }
    let msg = app.on_key(key(KeyCode::Enter));
    assert!(msg.is_none(), "no second concurrent prompt stream");
    assert!(
        !app.input.is_empty(),
        "typed text stays in the editor for after the turn"
    );
    assert!(app.flash.is_some(), "the user is told why nothing happened");

    app.status = "ready".into();
    let msg = app.on_key(key(KeyCode::Enter));
    assert!(matches!(msg, Some(Msg::Submitted(_))));
}

#[test]
fn workflow_events_fold_into_transcript() {
    let mut app = App::new();
    app.update(Msg::Event(ServerEvent::Workflow(WorkflowMsg {
        phase: WfPhase::Started,
        session: "s".into(),
        kind: "sdd".into(),
        arg: Some("p.md".into()),
        task_index: None,
        status: None,
        notes: String::new(),
        ok: None,
        summary: None,
        error: None,
    })));
    app.update(Msg::Event(ServerEvent::Workflow(WorkflowMsg {
        phase: WfPhase::Progress,
        session: "s".into(),
        kind: "sdd".into(),
        arg: None,
        task_index: Some(1),
        status: Some("DONE".into()),
        notes: "review clean".into(),
        ok: None,
        summary: None,
        error: None,
    })));
    app.update(Msg::Event(ServerEvent::Workflow(WorkflowMsg {
        phase: WfPhase::Done,
        session: "s".into(),
        kind: "sdd".into(),
        arg: None,
        task_index: None,
        status: None,
        notes: String::new(),
        ok: Some(true),
        summary: Some("2 task(s) processed".into()),
        error: None,
    })));
    let lines: Vec<&String> = app
        .transcript
        .iter()
        .filter_map(|it| match it {
            TranscriptItem::Workflow(s) => Some(s),
            _ => None,
        })
        .collect();
    assert!(
        lines
            .iter()
            .any(|l| l.contains("sdd") && l.contains("started"))
    );
    assert!(
        lines
            .iter()
            .any(|l| l.contains("task 1") && l.contains("DONE"))
    );
    assert!(
        lines
            .iter()
            .any(|l| l.contains("complete") && l.contains("2 task"))
    );
}

#[test]
fn subagent_activity_folds_task_prefixed_line() {
    let mut app = App::new();
    app.update(Msg::Event(ServerEvent::Workflow(WorkflowMsg {
        phase: WfPhase::Started,
        session: "s".into(),
        kind: "sdd".into(),
        arg: None,
        task_index: None,
        status: None,
        notes: String::new(),
        ok: None,
        summary: None,
        error: None,
    })));
    app.update(Msg::Event(ServerEvent::Subagent(SubagentMsg {
        session: "s".into(),
        task_index: 2,
        verb: "bash".into(),
        detail: "cargo test".into(),
    })));
    let has = app.transcript.iter().any(|it| {
        matches!(it, TranscriptItem::Workflow(s)
            if s.contains("task 2") && s.contains("bash") && s.contains("cargo test"))
    });
    assert!(has);
    app.update(Msg::Event(ServerEvent::Subagent(SubagentMsg {
        session: "OTHER".into(),
        task_index: 9,
        verb: "x".into(),
        detail: "y".into(),
    })));
    assert!(
        !app.transcript
            .iter()
            .any(|it| matches!(it, TranscriptItem::Workflow(s) if s.contains("task 9")))
    );
}

#[test]
fn workflow_view_tracks_task_states() {
    let mut app = App::new();
    app.update(Msg::Event(ServerEvent::Workflow(WorkflowMsg {
        phase: WfPhase::Started,
        session: "s".into(),
        kind: "sdd".into(),
        arg: Some("p.md".into()),
        task_index: None,
        status: None,
        notes: String::new(),
        ok: None,
        summary: None,
        error: None,
    })));
    assert!(
        app.workflow
            .as_ref()
            .is_some_and(|w| w.done.is_none() && w.kind == "sdd")
    );
    app.update(Msg::Event(ServerEvent::Workflow(WorkflowMsg {
        phase: WfPhase::Progress,
        session: "s".into(),
        kind: "sdd".into(),
        arg: None,
        task_index: Some(1),
        status: Some("REVIEWING".into()),
        notes: String::new(),
        ok: None,
        summary: None,
        error: None,
    })));
    assert_eq!(
        app.workflow
            .as_ref()
            .unwrap()
            .tasks
            .get(&1)
            .map(|t| t.0.as_str()),
        Some("REVIEWING")
    );
    app.update(Msg::Event(ServerEvent::Workflow(WorkflowMsg {
        phase: WfPhase::Done,
        session: "s".into(),
        kind: "sdd".into(),
        arg: None,
        task_index: None,
        status: None,
        notes: String::new(),
        ok: Some(true),
        summary: Some("2".into()),
        error: None,
    })));
    assert_eq!(app.workflow.as_ref().unwrap().done, Some(true));
}

#[test]
fn workflow_progress_from_stale_session_is_ignored() {
    let mut app = App::new();
    app.update(Msg::Event(ServerEvent::Workflow(WorkflowMsg {
        phase: WfPhase::Started,
        session: "b".into(),
        kind: "sdd".into(),
        arg: None,
        task_index: None,
        status: None,
        notes: String::new(),
        ok: None,
        summary: None,
        error: None,
    })));
    app.update(Msg::Event(ServerEvent::Workflow(WorkflowMsg {
        phase: WfPhase::Progress,
        session: "a".into(),
        kind: "sdd".into(),
        arg: None,
        task_index: Some(7),
        status: Some("STALE".into()),
        notes: String::new(),
        ok: None,
        summary: None,
        error: None,
    })));
    assert!(app.workflow.as_ref().unwrap().tasks.is_empty());
    app.update(Msg::Event(ServerEvent::Workflow(WorkflowMsg {
        phase: WfPhase::Done,
        session: "a".into(),
        kind: "sdd".into(),
        arg: None,
        task_index: None,
        status: None,
        notes: String::new(),
        ok: Some(false),
        summary: None,
        error: None,
    })));
    assert_eq!(app.workflow.as_ref().unwrap().done, None);
}

#[test]
fn scroll_and_tick_do_not_bump_render_gen() {
    let mut app = App::new();
    app.transcript.push(TranscriptItem::Assistant("x".into()));
    let g = app.render_gen;
    app.update(Msg::ScrollUp);
    app.update(Msg::Tick);
    assert_eq!(app.render_gen, g, "view-only messages must not invalidate");
}

#[test]
fn text_deltas_accumulate_into_one_assistant_item() {
    let mut app = App::new();
    app.fold_event(LLMEvent::TextStart);
    app.fold_event(td("hel"));
    app.fold_event(td("lo"));
    app.fold_event(LLMEvent::TextEnd);
    assert_eq!(app.transcript.len(), 1);
    assert!(matches!(&app.transcript[0], TranscriptItem::Assistant(s) if s == "hello"));
}

#[test]
fn tool_call_then_result_transitions_status() {
    let mut app = App::new();
    app.fold_event(LLMEvent::ToolCall { id: "c1".into(), name: "read".into(), input: js(r#"{"path": "a.rs"}"#) });
    assert!(matches!(
        &app.transcript[0],
        TranscriptItem::Tool {
            status: ToolStatus::Running,
            ..
        }
    ));
    app.fold_event(LLMEvent::ToolResult { id: "c1".into(),
        result: ToolResultValue::Text {
            value: js(r#""ok""#),
        }, output: None });
    assert!(matches!(
        &app.transcript[0],
        TranscriptItem::Tool {
            status: ToolStatus::Success,
            ..
        }
    ));
}

#[test]
fn tool_call_captures_input_and_result_captures_output() {
    let mut app = App::new();
    app.fold_event(LLMEvent::ToolCall { id: "c1".into(), name: "edit".into(), input: js(r#"{"filePath": "a.rs"}"#) });
    match app.transcript.last().unwrap() {
        TranscriptItem::Tool {
            input, expanded, ..
        } => {
            assert_eq!(input.as_ref().unwrap()["filePath"], "a.rs");
            assert!(!expanded, "tools start collapsed");
        }
        _ => panic!("expected a tool item"),
    }
    app.fold_event(LLMEvent::ToolResult { id: "c1".into(), result: ToolResultValue::Text {
            value: js(r#""patched a.rs""#),
        }, output: None });
    match app.transcript.last().unwrap() {
        TranscriptItem::Tool { output, status, .. } => {
            assert_eq!(*status, ToolStatus::Success);
            assert_eq!(output.as_deref(), Some("patched a.rs"));
        }
        _ => panic!("expected a tool item"),
    }
}

#[test]
fn parse_todos_reads_content_and_status() {
    let v = js(r#"{"todos": [{"content": "a", "status": "completed"}, {"content": "b", "status": "in_progress"}, {"content": "c", "status": "pending"}, {"content": "d", "status": "cancelled"}]}"#);
    let todos = parse_todos(&v);
    assert_eq!(todos.len(), 4);
    assert_eq!(todos[0].content, "a");
    assert_eq!(todos[0].status, TodoStatus::Completed);
    assert_eq!(todos[1].status, TodoStatus::InProgress);
    assert_eq!(todos[2].status, TodoStatus::Pending);
    assert_eq!(todos[3].status, TodoStatus::Cancelled);
}

#[test]
fn parse_todos_is_defensive() {
    assert!(parse_todos(&js("{}")).is_empty());
    assert!(parse_todos(&js(r#"{"todos": "nope"}"#)).is_empty());
    let v = js(r#"{"todos": [{"status": "weird"}]}"#);
    let todos = parse_todos(&v);
    assert_eq!(todos[0].content, "");
    assert_eq!(todos[0].status, TodoStatus::Pending);
}

#[test]
fn todowrite_toolcall_populates_todos_and_empty_clears() {
    let mut app = App::new();
    app.fold_event(LLMEvent::ToolCall { id: "t1".into(), name: "todowrite".into(), input: js(r#"{"todos": [{"content": "x", "status": "pending"}]}"#) });
    assert_eq!(app.todos.len(), 1);
    app.fold_event(LLMEvent::ToolCall { id: "t2".into(), name: "todowrite".into(), input: js(r#"{"todos": []}"#) });
    assert!(app.todos.is_empty());
}

#[test]
fn non_todowrite_toolcall_leaves_todos() {
    let mut app = App::new();
    app.todos = vec![TodoItem {
        content: "keep".into(),
        status: TodoStatus::Pending,
    }];
    app.fold_event(LLMEvent::ToolCall { id: "r1".into(), name: "read".into(), input: js(r#"{"filePath": "a.rs"}"#) });
    assert_eq!(app.todos.len(), 1, "unrelated tool must not touch todos");
}

#[test]
fn todos_active_and_counts() {
    let mut app = App::new();
    assert!(!app.todos_active());
    app.todos = vec![
        TodoItem {
            content: "a".into(),
            status: TodoStatus::Completed,
        },
        TodoItem {
            content: "b".into(),
            status: TodoStatus::InProgress,
        },
    ];
    assert!(app.todos_active());
    assert_eq!(app.todos_done_total(), (1, 2));
    app.todos[1].status = TodoStatus::Completed;
    assert!(!app.todos_active(), "all done -> not active");
}

#[test]
fn last_assistant_text_picks_newest() {
    let mut app = App::new();
    assert_eq!(app.last_assistant_text(), None);
    app.transcript
        .push(TranscriptItem::Assistant("first".into()));
    app.transcript.push(TranscriptItem::User("hi".into()));
    app.transcript
        .push(TranscriptItem::Assistant("second".into()));
    assert_eq!(app.last_assistant_text(), Some("second"));
    app.transcript.push(TranscriptItem::Tool {
        name: "read".into(),
        status: ToolStatus::Success,
        title: "read a.rs".into(),
        input: None,
        output: None,
        expanded: false,
    });
    assert_eq!(app.last_assistant_text(), Some("second"));
}

#[test]
fn toggle_todos_flips_collapsed() {
    let mut app = App::new();
    assert!(!app.todos_collapsed);
    app.update(Msg::ToggleTodos);
    assert!(app.todos_collapsed);
    app.update(Msg::ToggleTodos);
    assert!(!app.todos_collapsed);
}

#[test]
fn provider_error_sets_status() {
    let mut app = App::new();
    app.fold_event(LLMEvent::TextStart);
    app.fold_event(LLMEvent::ProviderError { message: "missing API key".into() });
    assert!(
        app.status.starts_with("error:"),
        "status should surface the provider error: {}",
        app.status
    );
    assert!(app.status.contains("missing API key"));
    assert!(app.open_text.is_none());
    assert!(app.open_reasoning.is_none());
    assert!(
        matches!(app.transcript.last(), Some(TranscriptItem::Error(m)) if m == "missing API key"),
        "provider error recorded in transcript: {:?}",
        app.transcript.last()
    );
}

#[test]
fn msg_error_records_transcript_row_and_status() {
    let mut app = App::new();
    app.update(Msg::Error(
        "lost connection to otto server: timed out".into(),
    ));
    assert!(app.status.starts_with("error:"));
    assert!(matches!(
        app.transcript.last(),
        Some(TranscriptItem::Error(m)) if m.contains("lost connection")
    ));
}

#[test]
fn prompt_ended_unsticks_retrying_spinner() {
    let mut app = App::new();
    app.status = "retrying 1/5 (2s)".into();
    assert!(app.is_busy(), "retrying is a busy status");
    app.update(Msg::PromptEnded);
    assert_eq!(app.status, "ready");
}

#[test]
fn prompt_ended_unsticks_thinking() {
    let mut app = App::new();
    app.status = "…thinking".into();
    app.update(Msg::PromptEnded);
    assert_eq!(
        app.status, "ready",
        "a silent stream close must clear thinking"
    );
}

#[test]
fn prompt_ended_does_not_clobber_error() {
    let mut app = App::new();
    app.status = "error: boom".into();
    app.update(Msg::PromptEnded);
    assert_eq!(app.status, "error: boom", "a resolved error status wins");
}

#[test]
fn permission_event_opens_and_reply_intent_closes_overlay() {
    let mut app = App::new();
    app.session_id = Some("s".into());
    let asked = PermissionAsked {
        id: "p1".into(),
        session_id: "s".into(),
        permission: "edit".into(),
        patterns: vec![],
    };
    app.update(Msg::Event(ServerEvent::PermissionAsked(asked)));
    assert!(matches!(app.overlay, Overlay::Permission(_)));
    app.close_overlay();
    assert!(matches!(app.overlay, Overlay::Closed));
}

#[test]
fn permission_asked_for_other_session_does_not_hijack_overlay() {
    let mut app = App::new();
    app.session_id = Some("ses_attached".into());
    app.overlay = Overlay::Sessions;
    app.update(Msg::Event(ServerEvent::PermissionAsked(PermissionAsked {
        id: "perm_1".into(),
        session_id: "ses_other".into(),
        permission: "edit".into(),
        patterns: vec![],
    })));
    assert!(
        matches!(app.overlay, Overlay::Sessions),
        "overlay hijacked by a foreign-session permission ask: {:?}",
        app.overlay
    );
}

#[test]
fn submitted_prompt_appends_user_item() {
    let mut app = App::new();
    app.update(Msg::Submitted("hi there".into()));
    assert!(
        matches!(&app.transcript.last().unwrap(), TranscriptItem::User(s) if s == "hi there")
    );
}

#[test]
fn model_picker_confirm_sets_model() {
    let mut app = App::new();
    app.models = vec![
        ModelChoice {
            provider: "anthropic".into(),
            model: "sonnet-3".into(),
        },
        ModelChoice {
            provider: "openai".into(),
            model: "gpt-4".into(),
        },
    ];
    app.open_picker(Overlay::Models);
    assert_eq!(app.selected, 0);
    app.picker_move(1);
    assert_eq!(app.selected, 1);
    assert!(app.picker_confirm().is_none());
    assert_eq!(app.model.as_deref(), Some("openai/gpt-4"));
    assert!(matches!(app.overlay, Overlay::Closed));
}

#[test]
fn agent_picker_confirm_sets_agent() {
    let mut app = App::new();
    app.agents = vec![
        AgentInfo {
            name: "build".into(),
        },
        AgentInfo {
            name: "plan".into(),
        },
    ];
    app.open_picker(Overlay::Agents);
    app.picker_move(1);
    app.picker_confirm();
    assert_eq!(app.agent.as_deref(), Some("plan"));
}

#[test]
fn session_picker_confirm_emits_switch() {
    let mut app = App::new();
    app.sessions = vec![SessionInfo {
        id: "ses_a".into(),
        title: None,
        ..Default::default()
    }];
    app.open_picker(Overlay::Sessions);
    let msg = app.picker_confirm();
    assert!(matches!(msg, Some(Msg::SwitchSession(id)) if id == "ses_a"));
}

#[test]
fn picker_move_clamps_at_bounds() {
    let mut app = App::new();
    app.models = vec![ModelChoice {
        provider: "p".into(),
        model: "m".into(),
    }];
    app.open_picker(Overlay::Models);
    app.picker_move(-1);
    assert_eq!(app.selected, 0);
    app.picker_move(5);
    assert_eq!(app.selected, 0);
}

#[test]
fn toggle_tool_flips_last_tool_expanded() {
    let mut app = App::new();
    app.transcript.push(TranscriptItem::Tool {
        name: "read".into(),
        status: ToolStatus::Success,
        title: "read a.rs".into(),
        input: None,
        output: None,
        expanded: false,
    });
    app.toggle_last_tool();
    assert!(matches!(
        app.transcript.last().unwrap(),
        TranscriptItem::Tool { expanded: true, .. }
    ));
}

#[test]
fn model_picker_arrows_navigate_and_select() {
    let mut app = App::new();
    app.models = vec![
        ModelChoice {
            provider: "a".into(),
            model: "x".into(),
        },
        ModelChoice {
            provider: "b".into(),
            model: "y".into(),
        },
    ];
    app.open_picker(Overlay::Models);
    assert!(matches!(app.overlay, Overlay::Models));
    app.on_key(key(KeyCode::Down));
    assert_eq!(app.selected, 1);
    let msg = app.on_key(key(KeyCode::Enter));
    assert!(msg.is_none());
    assert_eq!(app.model.as_deref(), Some("b/y"));
}

#[test]
fn scroll_up_moves_away_from_bottom() {
    let mut app = App::new();
    app.last_scroll_max = 100;
    assert!(app.is_following());
    app.scroll_up(3);
    assert_eq!(app.scroll, 3);
    assert!(!app.is_following());
}

#[test]
fn scroll_down_returns_to_follow() {
    let mut app = App::new();
    app.last_scroll_max = 100;
    app.scroll_up(5);
    app.scroll_down(2);
    assert_eq!(app.scroll, 3);
    app.scroll_down(10);
    assert_eq!(app.scroll, 0);
    assert!(app.is_following());
}

#[test]
fn scroll_up_clamps_to_last_rendered_max() {
    let mut app = App::new();
    app.last_scroll_max = 7;
    for _ in 0..10 {
        app.scroll_up(3);
    }
    assert_eq!(app.scroll, 7, "clamped at the rendered max");
    app.scroll_down(3);
    assert_eq!(app.scroll, 4, "PageDown moves immediately");
}

#[test]
fn scroll_up_with_no_render_yet_is_inert() {
    let mut app = App::new();
    app.scroll_up(3);
    assert_eq!(app.scroll, 0);
    assert!(app.is_following());
}

#[test]
fn scroll_to_bottom_follows() {
    let mut app = App::new();
    app.last_scroll_max = 100;
    app.scroll_up(4);
    app.scroll_to_bottom();
    assert_eq!(app.scroll, 0);
    assert!(app.is_following());
}

#[test]
fn is_busy_tracks_thinking_status() {
    let mut app = App::new();
    app.status = "…thinking".into();
    assert!(app.is_busy());
    app.status = "ready".into();
    assert!(!app.is_busy());
    app.status = "connecting…".into();
    assert!(app.is_busy());
}

#[test]
fn running_tool_returns_newest_running() {
    let mut app = App::new();
    app.transcript.push(TranscriptItem::Tool {
        name: "read".into(),
        status: ToolStatus::Success,
        title: "read a.rs".into(),
        input: None,
        output: None,
        expanded: false,
    });
    assert_eq!(app.running_tool(), None);
    app.transcript.push(TranscriptItem::Tool {
        name: "bash".into(),
        status: ToolStatus::Running,
        title: "bash ls -F".into(),
        input: None,
        output: None,
        expanded: false,
    });
    assert_eq!(app.running_tool(), Some(("bash", "bash ls -F")));
}

#[test]
fn tick_advances_spinner_only_when_busy() {
    let mut app = App::new();
    app.status = "…thinking".into();
    app.update(Msg::Tick);
    assert_eq!(app.spinner_frame, 1);
    assert_eq!(app.busy_ticks, 1);
    app.status = "ready".into();
    app.update(Msg::Tick);
    assert_eq!(app.spinner_frame, 1);
}

#[test]
fn finish_with_toolcalls_stays_busy() {
    let mut app = App::new();
    app.status = "…thinking".into();
    app.fold_event(LLMEvent::Finish { reason: FinishReason::ToolCalls, usage: None });
    assert!(
        app.is_busy(),
        "tool-call step finish must stay busy, got status {:?}",
        app.status
    );
    assert_ne!(app.status, "ready");
}

#[test]
fn finish_with_stop_returns_to_ready() {
    let mut app = App::new();
    app.status = "…thinking".into();
    app.fold_event(LLMEvent::Finish { reason: FinishReason::Stop, usage: None });
    assert_eq!(app.status, "ready");
}

#[test]
fn finish_captures_usage() {
    let mut app = App::new();
    app.fold_event(LLMEvent::Finish { reason: FinishReason::Stop, usage: Some(Usage {
            total_tokens: Some(1234),
            ..Default::default()
        }) });
    assert_eq!(app.usage.as_ref().and_then(|u| u.total_tokens), Some(1234));
    let line = usage_line(&app, PRICE).unwrap();
    assert!(line.contains("tok"), "usage line: {line}");
}

#[test]
fn usage_line_shows_cost_for_large_usage() {
    let mut app = App::new();
    app.model = Some("anthropic/sonnet-4-5".into());
    app.fold_event(LLMEvent::Finish { reason: FinishReason::Stop, usage: Some(Usage {
            input_tokens: Some(1_000_000),
            output_tokens: Some(1_000_000),
            total_tokens: Some(2_000_000),
            ..Default::default()
        }) });
    let line = usage_line(&app, PRICE).unwrap();
    assert!(line.contains('$'), "usage line: {line}");
    assert!(!line.contains("$0.000"), "usage line: {line}");
}

#[test]
fn context_pct_reports_percent_for_known_model() {
    let mut app = App::new();
    app.model = Some("anthropic/sonnet-4-5".into());
    app.fold_event(LLMEvent::Finish { reason: FinishReason::Stop, usage: Some(Usage {
            input_tokens: Some(100_000),
            output_tokens: Some(0),
            total_tokens: Some(100_000),
            ..Default::default()
        }) });
    assert_eq!(app.context_pct(Some(200_000)), Some(50));
}

#[test]
fn context_pct_none_without_usage_or_model() {
    assert_eq!(App::new().context_pct(Some(200_000)), None);
    let mut app = App::new();
    app.usage = Some(Usage { total_tokens: Some(10), ..Default::default() });
    assert_eq!(app.context_pct(None), None);
}

#[test]
fn usage_line_omits_negligible_cost() {
    let mut app = App::new();
    app.model = Some("anthropic/sonnet-4-5".into());
    app.fold_event(LLMEvent::Finish { reason: FinishReason::Stop, usage: Some(Usage {
            input_tokens: Some(1),
            output_tokens: Some(1),
            total_tokens: Some(2),
            ..Default::default()
        }) });
    let line = usage_line(&app, PRICE).unwrap();
    assert!(line.contains("tok"), "usage line: {line}");
    assert!(!line.contains("$0.000"), "usage line: {line}");
}

#[test]
fn session_tokens_accumulate_per_message_not_per_event() {
    let mut app = App::new();
    app.fold_event(LLMEvent::StepFinish { usage: Some(Usage {
            input_tokens: Some(100),
            output_tokens: Some(50),
            total_tokens: Some(150),
            ..Default::default()
        }) });
    app.fold_event(LLMEvent::Finish { reason: FinishReason::ToolCalls, usage: Some(Usage {
            input_tokens: Some(100),
            output_tokens: Some(50),
            total_tokens: Some(150),
            ..Default::default()
        }) });
    assert_eq!(app.session_tokens, (100, 50), "one message, counted once");

    app.fold_event(LLMEvent::Finish { reason: FinishReason::Stop, usage: Some(Usage {
            input_tokens: Some(200),
            output_tokens: Some(80),
            total_tokens: Some(280),
            ..Default::default()
        }) });
    assert_eq!(
        app.session_tokens,
        (300, 130),
        "totals accumulate across messages"
    );
}

#[test]
fn usage_free_finish_does_not_recount_previous_message() {
    let mut app = App::new();
    app.fold_event(LLMEvent::Finish { reason: FinishReason::Stop, usage: Some(Usage {
            input_tokens: Some(100),
            output_tokens: Some(50),
            total_tokens: Some(150),
            ..Default::default()
        }) });
    app.fold_event(LLMEvent::Finish { reason: FinishReason::Stop, usage: None });
    assert_eq!(app.session_tokens, (100, 50));
}

#[test]
fn usage_line_includes_session_total() {
    let mut app = App::new();
    for _ in 0..2 {
        app.fold_event(LLMEvent::Finish { reason: FinishReason::Stop, usage: Some(Usage {
                input_tokens: Some(600),
                output_tokens: Some(400),
                total_tokens: Some(1000),
                ..Default::default()
            }) });
    }
    let line = usage_line(&app, PRICE).unwrap();
    assert!(
        line.contains("Σ 2.0k"),
        "session total rendered, got {line:?}"
    );
}

#[test]
fn leaving_busy_resets_elapsed() {
    let mut app = App::new();
    app.status = "…thinking".into();
    app.update(Msg::Tick);
    app.update(Msg::Tick);
    assert_eq!(app.busy_ticks, 2);
    app.status = "ready".into();
    app.update(Msg::Tick);
    assert_eq!(app.busy_ticks, 0);
}

#[test]
fn fuzzy_matches_subsequence_case_insensitive() {
    assert!(fuzzy_subsequence("cm", "Change model…").is_some());
    assert!(fuzzy_subsequence("CM", "Change model…").is_some());
    assert!(fuzzy_subsequence("xyz", "Change model…").is_none());
    assert_eq!(fuzzy_subsequence("", "anything"), Some(0));
}

#[test]
fn fuzzy_scores_word_starts_and_runs_higher() {
    let strong = fuzzy_subsequence("cm", "Change model…").unwrap();
    let weak = fuzzy_subsequence("cm", "Toggle tool detailcm-noword").unwrap_or(0);
    assert!(strong > weak, "word-start match should score higher");
    assert!(
        fuzzy_subsequence("new", "New session").unwrap()
            > fuzzy_subsequence("nsn", "New session").unwrap()
    );
}

#[test]
fn palette_matches_empty_returns_all_in_order() {
    let all = palette_matches("");
    assert_eq!(all.len(), COMMAND_COUNT);
    assert_eq!(all, (0..COMMAND_COUNT).collect::<Vec<_>>());
}

#[test]
fn palette_matches_ranks_change_model_first_for_cm() {
    let m = palette_matches("cm");
    assert!(!m.is_empty());
    assert_eq!(commands()[m[0]].command, Command::ChangeModel);
}

#[test]
fn palette_matches_filters_out_non_matches() {
    let m = palette_matches("zzzz");
    assert!(m.is_empty());
}

#[test]
fn open_palette_sets_overlay_and_empty_query() {
    let mut app = App::new();
    app.open_palette();
    match &app.overlay {
        Overlay::Palette(ps) => {
            assert_eq!(ps.query, "");
            assert_eq!(ps.selected, 0);
        }
        _ => panic!("expected palette overlay"),
    }
}

#[test]
fn palette_typing_filters_and_resets_selection() {
    let mut app = App::new();
    app.open_palette();
    app.palette_move(1);
    app.palette_input('n');
    app.palette_input('e');
    app.palette_input('w');
    match &app.overlay {
        Overlay::Palette(ps) => {
            assert_eq!(ps.query, "new");
            assert_eq!(ps.selected, 0, "typing resets selection");
        }
        _ => panic!("expected palette overlay"),
    }
    assert!(
        palette_matches("new")
            .iter()
            .any(|&i| commands()[i].command == Command::NewSession)
    );
}

#[test]
fn palette_confirm_new_session_returns_msg() {
    let mut app = App::new();
    app.open_palette();
    for c in "new".chars() {
        app.palette_input(c);
    }
    let msg = app.palette_confirm();
    assert!(matches!(msg, Some(Msg::NewSession)));
    assert!(matches!(app.overlay, Overlay::Closed), "palette closed");
}

#[test]
fn palette_confirm_change_model_opens_model_picker() {
    let mut app = App::new();
    app.open_palette();
    for c in "cm".chars() {
        app.palette_input(c);
    }
    let msg = app.palette_confirm();
    assert!(msg.is_none());
    assert!(
        matches!(app.overlay, Overlay::Models),
        "opened model picker"
    );
}

#[test]
fn palette_attach_file_command_opens_picker() {
    let mut app = App::new();
    app.open_palette();
    for c in "attach".chars() {
        app.palette_input(c);
    }
    let msg = app.palette_confirm();
    assert!(msg.is_none());
    assert!(matches!(app.overlay, Overlay::Files(_)));
}

#[test]
fn palette_move_clamps_to_match_count() {
    let mut app = App::new();
    app.open_palette();
    app.palette_move(-1);
    if let Overlay::Palette(ps) = &app.overlay {
        assert_eq!(ps.selected, 0);
    }
    app.palette_move(1000);
    if let Overlay::Palette(ps) = &app.overlay {
        assert_eq!(ps.selected, COMMAND_COUNT - 1);
    }
}

#[test]
fn open_file_picker_sets_loading_overlay() {
    let mut app = App::new();
    app.open_file_picker();
    match &app.overlay {
        Overlay::Files(s) => {
            assert!(s.loading);
            assert!(s.results.is_empty());
        }
        _ => panic!("expected files overlay"),
    }
}

#[test]
fn files_loaded_populates_and_clears_loading() {
    let mut app = App::new();
    app.open_file_picker();
    app.files_loaded(vec!["a.rs".into(), "b.txt".into()], false);
    match &app.overlay {
        Overlay::Files(s) => {
            assert!(!s.loading);
            assert_eq!(s.results.len(), 2);
        }
        _ => panic!("expected files overlay"),
    }
}

#[test]
fn palette_workflow_sdd_opens_text_input() {
    let mut app = App::new();
    app.open_palette();
    for c in "workflow sdd".chars() {
        app.palette_input(c);
    }
    let msg = app.palette_confirm();
    assert!(
        matches!(app.overlay, Overlay::TextInput(ref s) if s.kind == "sdd"),
        "expected sdd text-input overlay, got {:?}",
        app.overlay
    );
    assert!(msg.is_none(), "opening the overlay emits no Msg");
}

#[test]
fn text_input_enter_emits_start_workflow() {
    let mut app = App::new();
    app.overlay = Overlay::TextInput(TextInputState {
        title: "SDD plan file".into(),
        query: "docs/plan.md".into(),
        kind: "sdd".into(),
        mention: None,
    });
    let msg = app.text_input_confirm();
    assert!(
        matches!(
            msg,
            Some(Msg::StartWorkflow { ref kind, ref arg })
                if kind == "sdd" && arg == "docs/plan.md"
        ),
        "expected StartWorkflow{{sdd, docs/plan.md}}, got {msg:?}"
    );
    assert!(matches!(app.overlay, Overlay::Closed), "overlay closed");
}

#[test]
fn text_input_empty_confirm_is_noop() {
    let mut app = App::new();
    app.overlay = Overlay::TextInput(TextInputState {
        title: "SDD plan file".into(),
        query: "   ".into(),
        kind: "sdd".into(),
        mention: None,
    });
    let msg = app.text_input_confirm();
    assert!(msg.is_none(), "empty/whitespace arg emits no Msg");
    assert!(matches!(app.overlay, Overlay::Closed), "overlay still closed");
}

#[test]
fn text_input_char_and_backspace_edit_query() {
    let mut app = App::new();
    app.open_text_input("TDD feature", "tdd");
    app.text_input_char('h');
    app.text_input_char('i');
    app.text_input_backspace();
    match &app.overlay {
        Overlay::TextInput(s) => {
            assert_eq!(s.query, "h");
            assert_eq!(s.kind, "tdd");
            assert_eq!(s.title, "TDD feature");
        }
        _ => panic!("expected text-input overlay"),
    }
}

#[test]
fn file_matches_fuzzy_filters() {
    let results = vec!["src/main.rs".to_string(), "Cargo.toml".to_string()];
    let m = file_matches(&results, "cargo");
    assert_eq!(m.len(), 1);
    assert_eq!(results[m[0]], "Cargo.toml");
    assert_eq!(file_matches(&results, "").len(), 2, "empty query = all");
}

#[test]
fn file_toggle_adds_then_removes_path() {
    let mut app = App::new();
    app.open_file_picker();
    app.files_loaded(vec!["a.rs".into(), "b.txt".into()], false);
    app.file_toggle();
    assert_eq!(app.attachments, vec!["a.rs".to_string()]);
    assert!(matches!(app.overlay, Overlay::Files(_)), "stays open");
    app.file_toggle();
    assert!(app.attachments.is_empty());
}

#[test]
fn attaching_a_file_flashes() {
    let mut app = App::new();
    app.open_file_picker();
    app.files_loaded(vec!["src/main.rs".into()], false);
    app.file_toggle();
    assert!(app.attachments.iter().any(|p| p == "src/main.rs"));
    assert_eq!(app.flash.as_ref().map(|f| f.msg.as_str()), Some("attached"));
}

#[test]
fn file_move_clamps_to_filtered_len() {
    let mut app = App::new();
    app.open_file_picker();
    app.files_loaded(vec!["a.rs".into(), "b.txt".into(), "c.md".into()], false);
    app.file_move(-1);
    if let Overlay::Files(s) = &app.overlay {
        assert_eq!(s.selected, 0);
    }
    app.file_move(100);
    if let Overlay::Files(s) = &app.overlay {
        assert_eq!(s.selected, 2);
    }
}

#[test]
fn load_history_hydrates_todos_from_last_todowrite() {
    let mut app = App::new();
    let rows = vec![js(r#"{"info": {"role": "assistant"}, "parts": [{"type": "tool", "state": {"status": "completed", "input": {"todos": [{"content": "one", "status": "completed"}, {"content": "two", "status": "in_progress"}]}, "title": "todowrite"}, "tool": "todowrite"}]}"#)];
    app.load_history(rows);
    assert_eq!(app.todos.len(), 2);
    assert_eq!(app.todos[1].status, TodoStatus::InProgress);
}

#[test]
fn load_history_clears_stale_todos() {
    let mut app = App::new();
    app.todos = vec![TodoItem {
        content: "stale".into(),
        status: TodoStatus::Pending,
    }];
    app.todos_collapsed = true;
    app.load_history(vec![]);
    assert!(app.todos.is_empty(), "stale todos cleared on load");
    assert!(!app.todos_collapsed, "collapse state reset on load");
}

#[test]
fn todowrite_expands_panel_on_inactive_to_active_transition() {
    let mut app = App::new();
    app.todos = vec![TodoItem {
        content: "done".into(),
        status: TodoStatus::Completed,
    }];
    app.todos_collapsed = true;
    app.fold_event(LLMEvent::ToolCall { id: "t1".into(), name: "todowrite".into(), input: js(r#"{"todos": [{"content": "done", "status": "completed"}, {"content": "new", "status": "pending"}]}"#) });
    assert!(
        !app.todos_collapsed,
        "a fresh active list must re-expand a collapsed panel"
    );
}

#[test]
fn todowrite_does_not_reexpand_while_already_active() {
    let mut app = App::new();
    app.todos = vec![TodoItem {
        content: "a".into(),
        status: TodoStatus::InProgress,
    }];
    app.todos_collapsed = true;
    app.fold_event(LLMEvent::ToolCall { id: "t1".into(), name: "todowrite".into(), input: js(r#"{"todos": [{"content": "a", "status": "completed"}, {"content": "b", "status": "in_progress"}]}"#) });
    assert!(
        app.todos_collapsed,
        "an active -> active update must not fight a deliberate user collapse"
    );
}

#[test]
fn ctrl_o_toggles_todos() {
    let mut app = App::new();
    let msg = app.on_key(ctrl_key(KeyCode::Char('o')));
    assert!(matches!(msg, Some(Msg::ToggleTodos)));
}

#[test]
fn o_inserts_char_when_input_nonempty() {
    let mut app = App::new();
    app.input.insert('x');
    let msg = app.on_key(key(KeyCode::Char('o')));
    assert!(msg.is_none());
    assert!(
        app.input.text().contains("xo"),
        "o typed into non-empty input"
    );
}

#[test]
fn retry_event_sets_rate_limited_status() {
    let mut app = App::new();
    app.fold_event(LLMEvent::Retry { attempt: 2, max: 5, delay_ms: 8000, salvaged: false, message: "http error: status 429: rate limit".into() });
    assert_eq!(app.status, "rate-limited — retrying 2/5 (8s)");
    assert!(app.is_busy(), "retry status keeps the spinner animating");
}

#[test]
fn retry_event_non_rate_limit_uses_plain_label() {
    let mut app = App::new();
    app.fold_event(LLMEvent::Retry { attempt: 1, max: 5, delay_ms: 2000, salvaged: false, message: "transport error: connection reset".into() });
    assert_eq!(app.status, "retrying 1/5 (2s)");
    assert!(
        !app.status.starts_with("error"),
        "must not render as a fatal error"
    );
}

#[test]
fn parallel_tools_finish_by_id_not_position() {
    let mut app = App::new();
    app.fold_event(LLMEvent::ToolCall { id: "call_1".into(), name: "read".into(), input: js("{}") });
    app.fold_event(LLMEvent::ToolCall { id: "call_2".into(), name: "edit".into(), input: js("{}") });
    app.fold_event(LLMEvent::ToolResult { id: "call_1".into(), result: ToolResultValue::Text {
            value: js(r#""done""#),
        }, output: None });
    let tools: Vec<(&str, &ToolStatus)> = app
        .transcript
        .iter()
        .filter_map(|i| match i {
            TranscriptItem::Tool { name, status, .. } => Some((name.as_str(), status)),
            _ => None,
        })
        .collect();
    assert_eq!(tools.len(), 2);
    assert_eq!(
        tools[0],
        ("read", &ToolStatus::Success),
        "call_1 (read) finished"
    );
    assert_eq!(
        tools[1],
        ("edit", &ToolStatus::Running),
        "call_2 (edit) still running"
    );
}

#[test]
fn reasoning_delta_without_start_opens_block() {
    let mut app = App::new();
    app.fold_event(LLMEvent::ReasoningDelta { text: "thinking…".into() });
    let reasoning = app.transcript.iter().find_map(|i| match i {
        TranscriptItem::Reasoning(s) => Some(s.clone()),
        _ => None,
    });
    assert_eq!(reasoning.as_deref(), Some("thinking…"));
}

#[test]
fn retry_rolls_back_partial_attempt_no_duplicate_blocks() {
    let mut app = App::new();
    app.fold_event(LLMEvent::TextStart);
    app.fold_event(LLMEvent::TextDelta { text: "partial answer".into() });
    app.fold_event(LLMEvent::Retry { attempt: 1, max: 5, delay_ms: 2000, salvaged: false, message: "connection reset".into() });
    app.fold_event(LLMEvent::TextStart);
    app.fold_event(LLMEvent::TextDelta { text: "full answer".into() });
    app.fold_event(LLMEvent::TextEnd);

    let assistants: Vec<&str> = app
        .transcript
        .iter()
        .filter_map(|i| match i {
            TranscriptItem::Assistant(s) => Some(s.as_str()),
            _ => None,
        })
        .collect();
    assert_eq!(
        assistants,
        vec!["full answer"],
        "attempt-1 partial text must not remain as an orphaned duplicate"
    );
}

#[test]
fn retry_countdown_ticks_down_live() {
    let mut app = App::new();
    app.fold_event(LLMEvent::Retry { attempt: 1, max: 5, delay_ms: 4000, salvaged: false, message: "http error: status 429: rate limit".into() });
    assert!(app.status.ends_with("(4s)"), "initial: {}", app.status);
    for _ in 0..8 {
        app.update(Msg::Tick);
    }
    assert!(
        app.status.ends_with("(3s)"),
        "status must count down live, got {:?}",
        app.status
    );
    for _ in 0..40 {
        app.update(Msg::Tick);
    }
    assert!(
        app.status.ends_with("(now +2s)"),
        "overdue countdown counts up, got {:?}",
        app.status
    );
    assert!(app.is_busy(), "overdue retry still animates the spinner");
    for _ in 0..8 {
        app.update(Msg::Tick);
    }
    assert!(
        app.status.ends_with("(now +3s)"),
        "keeps counting up, got {:?}",
        app.status
    );
}

#[test]
fn retry_countdown_cleared_when_prompt_ends() {
    let mut app = App::new();
    app.fold_event(LLMEvent::Retry { attempt: 1, max: 5, delay_ms: 8000, salvaged: false, message: "overloaded".into() });
    app.update(Msg::PromptEnded);
    assert_eq!(app.status, "ready");
    for _ in 0..8 {
        app.update(Msg::Tick);
    }
    assert_eq!(
        app.status, "ready",
        "a stale countdown must not resurrect the retrying status"
    );
}

#[test]
fn retry_countdown_cleared_by_next_stream_event() {
    let mut app = App::new();
    app.fold_event(LLMEvent::Retry { attempt: 1, max: 5, delay_ms: 4000, salvaged: false, message: "overloaded".into() });
    app.fold_event(LLMEvent::TextStart);
    app.status = "…thinking".into();
    for _ in 0..8 {
        app.update(Msg::Tick);
    }
    assert_eq!(
        app.status, "…thinking",
        "a stale countdown must not clobber the live status"
    );
}

#[test]
fn every_command_has_a_key_hint() {
    for entry in commands() {
        let (label, key) = (entry.label, entry.hint);
        let palette_only = matches!(label, "Switch session…" | "Dashboard…" | "Change model…");
        assert_eq!(
            key.is_empty(),
            palette_only,
            "command {label:?} has unexpected key_hint {key:?}"
        );
    }
}

#[test]
fn palette_matches_still_filters_after_tuple_widen() {
    let idx = palette_matches("quit");
    assert!(idx.iter().any(|&i| commands()[i].command == Command::Quit));
}

#[test]
fn flash_sets_message_with_expiry() {
    let mut app = App::new();
    app.flash("copied");
    let f = app.flash.as_ref().expect("flash set");
    assert_eq!(f.msg, "copied");
    assert_eq!(f.expires_tick, app.tick + FLASH_TICKS);
}

#[test]
fn flash_clears_after_expiry_ticks() {
    let mut app = App::new();
    app.status = "ready".into();
    app.flash("sent");
    for _ in 0..FLASH_TICKS {
        app.update(Msg::Tick);
    }
    assert!(
        app.flash.is_none(),
        "flash should clear once tick >= expires_tick"
    );
}

#[test]
fn tick_counter_advances_even_when_idle() {
    let mut app = App::new();
    app.status = "ready".into();
    let before = app.tick;
    app.update(Msg::Tick);
    assert_eq!(app.tick, before + 1);
}

#[test]
fn splash_counts_down_over_ticks_then_clears() {
    let mut app = App::new();
    app.splash = Some(3);
    app.update(Msg::Tick);
    assert_eq!(app.splash, Some(2));
    app.update(Msg::Tick);
    assert_eq!(app.splash, Some(1));
    app.update(Msg::Tick);
    assert_eq!(app.splash, None, "auto-dismissed at zero");
    app.update(Msg::Tick);
    assert_eq!(app.splash, None);
}

#[test]
fn no_splash_by_default() {
    assert_eq!(App::new().splash, None);
}

#[test]
fn sessions_loaded_replaces_list_for_refreshed_titles() {
    let mut app = App::new();
    app.sessions = vec![SessionInfo {
        id: "s1".into(),
        title: Some("New session".into()),
        ..Default::default()
    }];
    app.update(Msg::SessionsLoaded(vec![SessionInfo {
        id: "s1".into(),
        title: Some("Streaming client retry logic".into()),
        ..Default::default()
    }]));
    assert_eq!(app.sessions.len(), 1);
    assert_eq!(
        app.sessions[0].title.as_deref(),
        Some("Streaming client retry logic")
    );
}

fn push_tool(app: &mut App, title: &str) {
    app.transcript.push(TranscriptItem::Tool {
        name: "read".into(),
        status: ToolStatus::Success,
        title: title.into(),
        input: None,
        output: None,
        expanded: false,
    });
}

#[test]
fn toggling_selected_tool_bumps_render_gen() {
    let mut app = App::new();
    push_tool(&mut app, "a");
    app.tool_cursor = Some(0);
    let before = app.render_gen;
    app.toggle_selected_or_last_tool();
    assert!(
        app.render_gen > before,
        "toggling a selected tool must bump render_gen so the cache reassembles"
    );
}

#[test]
fn tool_nav_selects_tool_items_only() {
    let mut app = App::new();
    app.transcript.push(TranscriptItem::User("hi".into()));
    push_tool(&mut app, "a");
    app.transcript.push(TranscriptItem::Assistant("ok".into()));
    push_tool(&mut app, "b");
    assert_eq!(app.tool_cursor, None);
    app.select_prev_tool();
    assert_eq!(app.tool_cursor, Some(3));
    app.select_prev_tool();
    assert_eq!(app.tool_cursor, Some(1));
    app.select_next_tool();
    assert_eq!(app.tool_cursor, Some(3));
    app.select_next_tool();
    assert_eq!(app.tool_cursor, None);
}

#[test]
fn toggle_selected_or_last_flips_selected() {
    let mut app = App::new();
    push_tool(&mut app, "a");
    push_tool(&mut app, "b");
    app.tool_cursor = Some(0);
    app.toggle_selected_or_last_tool();
    let expanded0 = matches!(
        app.transcript[0],
        TranscriptItem::Tool { expanded: true, .. }
    );
    assert!(expanded0, "selected (index 0) toggled");
    let expanded1 = matches!(
        app.transcript[1],
        TranscriptItem::Tool { expanded: true, .. }
    );
    assert!(!expanded1, "unselected untouched");
}

#[test]
fn toggle_selected_or_last_falls_back_to_last() {
    let mut app = App::new();
    push_tool(&mut app, "a");
    push_tool(&mut app, "b");
    app.tool_cursor = None;
    app.toggle_selected_or_last_tool();
    assert!(matches!(
        app.transcript[1],
        TranscriptItem::Tool { expanded: true, .. }
    ));
}

#[test]
fn load_history_clears_tool_cursor() {
    let mut app = App::new();
    push_tool(&mut app, "a");
    app.tool_cursor = Some(0);
    app.load_history(Vec::new());
    assert_eq!(
        app.tool_cursor, None,
        "history reload must clear stale selection"
    );
}

#[test]
fn ranked_matches_boost_prefers_prefix() {
    let results = vec!["zzz/plan.md".to_string(), ".otto/plans/x.md".to_string()];
    let ranked = ranked_matches(&results, "plan", Some(".otto/plans/"));
    assert_eq!(results[ranked[0]], ".otto/plans/x.md");
    assert_eq!(ranked_matches(&results, "plan", None).len(), 2);
}

#[test]
fn open_mention_captures_anchor_and_loads() {
    let mut app = App::new();
    app.on_key(key(KeyCode::Char('@')));
    match &app.overlay {
        Overlay::Mention(m) => {
            assert_eq!((m.anchor_row, m.anchor_col), (0, 0));
            assert!(m.loading, "opens in loading state to trigger the fetch");
        }
        other => panic!("expected mention overlay, got {other:?}"),
    }
    assert_eq!(app.input.text(), "@", "the '@' is inserted into the buffer");
}

#[test]
fn mention_query_derives_from_buffer() {
    let mut app = App::new();
    for c in "é ".chars() {
        app.on_key(key(KeyCode::Char(c)));
    }
    app.on_key(key(KeyCode::Char('@')));
    assert!(matches!(app.overlay, Overlay::Mention(_)));
    assert_eq!(app.mention_query().as_deref(), Some(""), "empty at the '@'");
    for c in "wörld".chars() {
        app.on_key(key(KeyCode::Char(c)));
    }
    assert_eq!(app.mention_query().as_deref(), Some("wörld"));
    assert_eq!(app.input.text(), "é @wörld");
}

#[test]
fn files_loaded_folds_into_mention_and_textinput_mention() {
    let mut app = App::new();
    app.on_key(key(KeyCode::Char('@')));
    app.files_loaded(vec!["a.rs".into(), "src/".into()], true);
    match &app.overlay {
        Overlay::Mention(m) => {
            assert_eq!(m.results, vec!["a.rs".to_string(), "src/".to_string()]);
            assert!(m.truncated);
            assert!(!m.loading);
        }
        other => panic!("expected mention overlay, got {other:?}"),
    }
    let mut app = App::new();
    app.open_text_input("SDD plan file", "sdd");
    app.text_input_char('@');
    app.files_loaded(vec![".otto/plans/p.md".into()], false);
    match &app.overlay {
        Overlay::TextInput(s) => {
            let m = s.mention.as_ref().expect("mention still active");
            assert_eq!(m.results, vec![".otto/plans/p.md".to_string()]);
            assert!(!m.loading);
        }
        other => panic!("expected text-input overlay, got {other:?}"),
    }
}

#[test]
fn files_loaded_filters_dirs_from_ctrl_f_picker() {
    let mut app = App::new();
    app.open_file_picker();
    app.files_loaded(vec!["a.rs".into(), "src/".into(), "b.rs".into()], false);
    match &app.overlay {
        Overlay::Files(s) => assert_eq!(
            s.results,
            vec!["a.rs".to_string(), "b.rs".to_string()],
            "ctrl+f picker drops directory entries"
        ),
        other => panic!("expected files overlay, got {other:?}"),
    }
}

#[test]
fn mention_accept_file_replaces_token_appends_space_and_records_path() {
    let mut app = App::new();
    app.on_key(key(KeyCode::Char('@')));
    app.files_loaded(vec!["src/main.rs".into(), "src/".into()], false);
    for c in "main".chars() {
        app.on_key(key(KeyCode::Char(c)));
    }
    app.on_key(key(KeyCode::Enter));
    assert_eq!(app.input.text(), "@src/main.rs ", "token swapped + space");
    assert_eq!(app.mention_paths, vec!["src/main.rs".to_string()]);
    assert!(
        matches!(app.overlay, Overlay::Closed),
        "overlay closed on file"
    );
}

#[test]
fn mention_accept_dir_inserts_trailing_slash_keeps_overlay_no_attach() {
    let mut app = App::new();
    app.on_key(key(KeyCode::Char('@')));
    app.files_loaded(vec!["src/".into(), "src/main.rs".into()], false);
    for c in "src".chars() {
        app.on_key(key(KeyCode::Char(c)));
    }
    app.on_key(key(KeyCode::Enter));
    assert_eq!(app.input.text(), "@src/", "dir keeps its trailing slash");
    assert!(
        matches!(app.overlay, Overlay::Mention(_)),
        "dir accept keeps the dropdown open for drill-down"
    );
    assert!(app.mention_paths.is_empty(), "dirs are not attachable");
    assert_eq!(app.mention_query().as_deref(), Some("src/"));
}

#[test]
fn mention_backspace_past_at_dismisses() {
    let mut app = App::new();
    app.on_key(key(KeyCode::Char('@')));
    for c in "sr".chars() {
        app.on_key(key(KeyCode::Char(c)));
    }
    app.on_key(key(KeyCode::Backspace));
    app.on_key(key(KeyCode::Backspace));
    assert!(
        matches!(app.overlay, Overlay::Mention(_)),
        "still open at empty query"
    );
    app.on_key(key(KeyCode::Backspace));
    assert!(
        matches!(app.overlay, Overlay::Closed),
        "dismissed with the '@'"
    );
    assert_eq!(app.input.text(), "");
}

#[test]
fn take_files_for_submit_drops_deleted_mentions_keeps_ctrl_f_attachments_and_dedups() {
    let mut app = App::new();
    app.attachments = vec!["ctrlf.rs".into()];
    app.mention_paths = vec!["kept.rs".into(), "gone.rs".into(), "kept.rs".into()];
    let files = app.take_files_for_submit("see @kept.rs please");
    assert_eq!(files, vec!["ctrlf.rs".to_string(), "kept.rs".to_string()]);
    assert!(app.attachments.is_empty(), "attachments drained");
    assert!(app.mention_paths.is_empty(), "mention paths drained");
}

#[test]
fn text_input_at_opens_biased_mention() {
    let mut app = App::new();
    app.open_text_input("SDD plan file", "sdd");
    app.text_input_char('@');
    match &app.overlay {
        Overlay::TextInput(s) => {
            let m = s.mention.as_ref().expect("mention opened");
            assert_eq!(m.anchor, 0);
            assert!(m.loading);
        }
        other => panic!("expected text-input overlay, got {other:?}"),
    }
    app.files_loaded(vec!["src/plan.rs".into(), ".otto/plans/p.md".into()], false);
    let m = match &app.overlay {
        Overlay::TextInput(s) => s.mention.as_ref().unwrap(),
        other => panic!("expected text-input overlay, got {other:?}"),
    };
    let ranked = ranked_matches(&m.results, "", Some(".otto/plans/"));
    assert_eq!(m.results[ranked[0]], ".otto/plans/p.md");
}

#[test]
fn text_input_mention_accept_inserts_bare_path() {
    let mut app = App::new();
    app.open_text_input("SDD plan file", "sdd");
    app.text_input_char('@');
    app.files_loaded(vec![".otto/plans/p.md".into()], false);
    app.text_input_mention_accept();
    match &app.overlay {
        Overlay::TextInput(s) => {
            assert_eq!(s.query, ".otto/plans/p.md", "bare path, no '@'");
            assert!(s.mention.is_none(), "file accept clears the mention");
        }
        other => panic!("expected text-input overlay, got {other:?}"),
    }
}

#[test]
fn text_input_confirm_after_accept_starts_workflow_with_path() {
    let mut app = App::new();
    app.open_text_input("SDD plan file", "sdd");
    app.text_input_char('@');
    app.files_loaded(vec![".otto/plans/p.md".into()], false);
    app.text_input_mention_accept();
    let msg = app.text_input_confirm();
    assert!(
        matches!(msg, Some(Msg::StartWorkflow { ref kind, ref arg })
            if kind == "sdd" && arg == ".otto/plans/p.md"),
        "confirm feeds the accepted path to the workflow, got {msg:?}"
    );
}

#[test]
fn text_input_confirm_strips_leftover_at_from_dismissed_mention() {
    let mut app = App::new();
    app.open_text_input("SDD plan file", "sdd");
    app.text_input_char('@');
    app.files_loaded(vec![".otto/plans/".into()], false);
    app.text_input_mention_accept();
    match &app.overlay {
        Overlay::TextInput(s) => assert_eq!(s.query, "@.otto/plans/"),
        other => panic!("expected text-input overlay, got {other:?}"),
    }
    app.text_input_clear_mention();
    let msg = app.text_input_confirm();
    assert!(
        matches!(msg, Some(Msg::StartWorkflow { ref kind, ref arg })
            if kind == "sdd" && arg == ".otto/plans/"),
        "leading '@' must be stripped before starting the workflow, got {msg:?}"
    );
}

fn sample_question_asked() -> QuestionAsked {
    QuestionAsked {
        id: "que_1".into(),
        session_id: "ses_1".into(),
        questions: vec![
            QuestionPromptView {
                question: "First?".into(),
                header: "q1".into(),
                options: vec![
                    QuestionOptionView {
                        label: "A".into(),
                        description: "a".into(),
                    },
                    QuestionOptionView {
                        label: "B".into(),
                        description: "b".into(),
                    },
                ],
                multiple: false,
            },
            QuestionPromptView {
                question: "Second?".into(),
                header: "q2".into(),
                options: vec![
                    QuestionOptionView {
                        label: "X".into(),
                        description: "x".into(),
                    },
                    QuestionOptionView {
                        label: "Y".into(),
                        description: "y".into(),
                    },
                ],
                multiple: true,
            },
        ],
    }
}

#[test]
fn question_asked_opens_the_overlay() {
    let mut app = App::new();
    app.session_id = Some("ses_1".into());
    app.update(Msg::Event(ServerEvent::QuestionAsked(
        sample_question_asked(),
    )));
    assert!(matches!(app.overlay, Overlay::Question(_)));
}

#[test]
fn question_asked_for_other_session_does_not_hijack_overlay() {
    let mut app = App::new();
    app.session_id = Some("ses_attached".into());
    app.overlay = Overlay::Sessions;
    app.update(Msg::Event(ServerEvent::QuestionAsked(
        QuestionAsked {
            id: "que_1".into(),
            session_id: "ses_other".into(),
            questions: vec![QuestionPromptView {
                question: "Pick one".into(),
                header: "choice".into(),
                options: vec![QuestionOptionView {
                    label: "A".into(),
                    description: "a".into(),
                }],
                multiple: false,
            }],
        },
    )));
    assert!(
        matches!(app.overlay, Overlay::Sessions),
        "overlay hijacked by a foreign-session question ask: {:?}",
        app.overlay
    );
}

#[test]
fn question_session_toggle_and_advance_single_select() {
    let mut qs = QuestionSession::new(sample_question_asked());
    assert_eq!(qs.current, 0);
    qs.toggle(1);
    assert_eq!(qs.cursor, vec![1]);
    let done = qs.confirm_current();
    assert!(!done, "one more question remains");
    assert_eq!(qs.current, 1);
    assert_eq!(qs.answers, vec![vec![1]]);
    assert!(qs.cursor.is_empty(), "cursor resets for the next question");
}

#[test]
fn question_session_multi_select_accumulates_and_requires_nonempty() {
    let mut qs = QuestionSession::new(sample_question_asked());
    qs.toggle(0);
    qs.confirm_current();
    assert_eq!(qs.current, 1);
    let advanced_empty = qs.confirm_current();
    assert!(
        !advanced_empty,
        "empty multi-select cursor must not confirm"
    );
    qs.toggle(0);
    qs.toggle(1);
    assert_eq!(qs.cursor, vec![0, 1]);
    let done = qs.confirm_current();
    assert!(done, "last question confirmed");
    assert_eq!(qs.answers, vec![vec![0], vec![0, 1]]);
}
