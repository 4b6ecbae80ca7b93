//! What messages and keys ask of the server.

use otto_tui::appearance::{quantize, ColorDepth, ThemeMode};
use otto_tui::client::{
    build_prompt_body, listed_files, permission_reply_body, started_session, text_object, was_cancelled,
    SessionInfo,
};
use otto_tui::dashboard::{DashboardPeek, DashboardRow, DashboardStatus};
use otto_tui::effects::{after_stream, dashboard_message, message_for, needs_redraw, Effect};
use otto_tui::events::{FinishReason, LLMEvent, Usage};
use otto_tui::keys::{KeyCode, KeyEvent, KeyModifiers};
use otto_tui::overlay::Overlay;
use otto_tui::sse::{QuestionAsked, ServerEvent};
use otto_tui::state::{App, LoopAction, Msg, QuestionReplyKind};
use otto_tui::theme::{Theme, Themes};
use otto_tui::transcript::TranscriptItem;
use otto_tui::{drive, route_message};

fn key(code: KeyCode) -> Msg {
    Msg::Key(KeyEvent::new(code, KeyModifiers::none()))
}

fn ctrl(c: char) -> Msg {
    Msg::Key(KeyEvent::new(KeyCode::Char(c), KeyModifiers::control()))
}

fn js(text: &str) -> serde_json::Value {
    serde_json::from_str(text).unwrap()
}

#[test]
fn switching_adopts_the_session_and_loads_its_history() {
    let mut app = App::new();
    app.transcript.push(TranscriptItem::User("old".into()));
    app.session_tokens = (3, 4);
    let effects = route_message(&mut app, Msg::SwitchSession("ses_2".into()));
    assert_eq!(effects, vec![Effect::LoadHistory("ses_2".into())]);
    assert_eq!(app.session_id.as_deref(), Some("ses_2"));
    assert!(app.status.contains("loading"));
    assert!(app.transcript.is_empty());
    assert_eq!(app.session_tokens, (0, 0));
}

#[test]
fn a_new_session_is_created_on_the_server() {
    let mut app = App::new();
    let effects = route_message(&mut app, ctrl('n'));
    assert_eq!(effects, vec![Effect::CreateSession("New session".into())]);
    assert_eq!(app.status, "new session…");
}

#[test]
fn enter_sends_the_prompt_with_its_files() {
    let mut app = App::new();
    app.session_id = Some("ses_1".into());
    app.status = "ready".into();
    app.agent = Some("plan".into());
    app.attachments = vec!["a.rs".into()];
    app.mention_paths = vec!["b.rs".into(), "gone.rs".into()];
    for c in "see @b.rs".chars() {
        app.input.insert(c);
    }
    let effects = route_message(&mut app, key(KeyCode::Enter));
    assert_eq!(
        effects,
        vec![Effect::Prompt {
            session: "ses_1".into(),
            text: "see @b.rs".into(),
            agent: Some("plan".into()),
            model: None,
            files: vec!["a.rs".into(), "b.rs".into()],
        }]
    );
    assert_eq!(app.status, "…thinking");
    assert!(app.input.is_empty());
    assert!(app.attachments.is_empty());
}

#[test]
fn without_a_session_nothing_is_sent() {
    let mut app = App::new();
    let effects = route_message(&mut app, Msg::Submitted("hi".into()));
    assert!(effects.is_empty());
    assert!(matches!(&app.transcript[0], TranscriptItem::User(s) if s == "hi"));
}

#[test]
fn a_failed_turn_reloads_the_history() {
    let mut app = App::new();
    app.session_id = Some("ses_1".into());
    app.status = "error: boom".into();
    assert_eq!(route_message(&mut app, Msg::PromptEnded), vec![Effect::LoadHistory("ses_1".into())]);
    app.status = "ready".into();
    assert!(route_message(&mut app, Msg::PromptEnded).is_empty());
}

#[test]
fn replies_go_out_under_their_id() {
    let mut app = App::new();
    assert_eq!(
        route_message(&mut app, Msg::PermissionReply { id: "p".into(), reply: "once".into() }),
        vec![Effect::ReplyPermission { id: "p".into(), reply: "once".into() }]
    );
    let reply = QuestionReplyKind::Answered(vec![vec![1]]);
    assert_eq!(
        route_message(&mut app, Msg::QuestionReply { id: "q".into(), reply }),
        vec![Effect::ReplyQuestion { id: "q".into(), reply: QuestionReplyKind::Answered(vec![vec![1]]) }]
    );
}

#[test]
fn permission_modes_go_round() {
    let mut app = App::new();
    app.session_id = Some("s".into());
    let mut seen = Vec::new();
    for _ in 0..3 {
        let effects = route_message(&mut app, key(KeyCode::BackTab));
        assert_eq!(
            effects,
            vec![Effect::SetPermissionMode { session: "s".into(), mode: app.permission_mode.clone() }]
        );
        seen.push(app.permission_mode.clone());
    }
    assert_eq!(seen, ["accept-edits", "full-auto", "approve-each"]);
}

#[test]
fn workflows_start_stop_and_turns_are_interrupted() {
    let mut app = App::new();
    app.session_id = Some("s".into());
    assert_eq!(
        route_message(&mut app, Msg::StartWorkflow { kind: "sdd".into(), arg: "p.md".into() }),
        vec![Effect::StartWorkflow { kind: "sdd".into(), arg: "p.md".into(), parent: Some("s".into()) }]
    );
    assert!(matches!(app.transcript.last(), Some(TranscriptItem::Workflow(l)) if l.contains("launching sdd")));
    assert_eq!(
        route_message(&mut app, Msg::CancelWorkflow("w".into())),
        vec![Effect::CancelWorkflow("w".into())]
    );
    app.status = "…thinking".into();
    assert_eq!(route_message(&mut app, key(KeyCode::Esc)), vec![Effect::CancelRun("s".into())]);
}

#[test]
fn opening_a_picker_fetches_what_it_lists() {
    let mut app = App::new();
    assert_eq!(route_message(&mut app, ctrl('f')), vec![Effect::ListFiles]);
    assert!(route_message(&mut app, key(KeyCode::Char('a'))).is_empty(), "only when it opens");
}

#[test]
fn the_open_dashboard_polls_and_asks_for_previews() {
    let mut app = App::new();
    app.overlay = Overlay::Dashboard;
    app.tick = 16;
    assert_eq!(route_message(&mut app, Msg::Tick), vec![Effect::FetchDashboard]);
    assert!(route_message(&mut app, Msg::Tick).is_empty(), "not on the next tick");
    app.dashboard.needs_refetch = true;
    assert_eq!(route_message(&mut app, Msg::Tick), vec![Effect::FetchDashboard], "known to be stale");
    let row = |id: &str| DashboardRow {
        session: SessionInfo { id: id.into(), ..Default::default() },
        status: DashboardStatus::Idle,
        indent: false,
    };
    app.dashboard.needs_refetch = false;
    app.dashboard.rows = vec![row("a"), row("b")];
    app.dashboard.peek = DashboardPeek::Message("seen".into());
    assert_eq!(route_message(&mut app, key(KeyCode::Down)), vec![Effect::LoadPeek("b".into())]);
    assert_eq!(
        route_message(&mut app, Msg::CreateDashboardSession("t".into())),
        vec![Effect::CreateDashboardSession("t".into())]
    );
}

#[test]
fn a_confirmed_mode_has_its_own_message() {
    let ev = ServerEvent::PermissionModeChanged { session_id: "s".into(), mode: "full-auto".into() };
    assert!(matches!(message_for(ev), Msg::PermissionModeChanged(m) if m == "full-auto"));
    assert!(matches!(message_for(ServerEvent::Connected), Msg::Event(ServerEvent::Connected)));
}

#[test]
fn idle_ticks_are_not_drawn() {
    assert!(!needs_redraw(true, false, false, false, false, false));
    assert!(needs_redraw(false, false, false, false, false, false), "anything but a tick");
    assert!(needs_redraw(true, true, false, false, false, false), "the spinner turns");
    assert!(needs_redraw(true, false, false, true, false, false), "a message has faded");
    assert!(needs_redraw(true, false, false, false, false, true), "the splash has ended");
}

#[test]
fn numbers_that_overflow_cannot_be_routed() {
    let mut app = App::new();
    app.session_tokens = (u64::MAX, 0);
    let usage = Some(Usage { input_tokens: Some(1), ..Default::default() });
    assert!(!app.can_route(&Msg::Server(LLMEvent::Finish { reason: FinishReason::Stop, usage })));
    assert!(app.can_route(&Msg::Server(LLMEvent::Finish { reason: FinishReason::Stop, usage: None })));
    let long = LLMEvent::Retry { attempt: 1, max: 2, delay_ms: u64::MAX, message: "m".into(), salvaged: false };
    assert!(!app.can_route(&Msg::Server(long)));
}

#[test]
fn an_ask_without_questions_can_be_left() {
    let mut app = App::new();
    app.session_id = Some("s".into());
    let empty = QuestionAsked { id: "q".into(), session_id: "s".into(), questions: vec![] };
    app.update(Msg::Event(ServerEvent::QuestionAsked(empty)));
    for code in [KeyCode::Up, KeyCode::Down, KeyCode::Char(' '), KeyCode::Enter] {
        assert!(!app.can_route(&key(code)), "{code:?} reads the question");
    }
    assert!(app.can_route(&Msg::Tick));
    route_message(&mut app, Msg::Tick);
    assert!(app.can_route(&ctrl('c')) && app.can_route(&key(KeyCode::Char('x'))));
    assert!(app.can_route(&key(KeyCode::Esc)));
    let asked = route_message(&mut app, key(KeyCode::Esc));
    assert!(matches!(app.overlay, Overlay::Closed));
    assert_eq!(
        asked,
        [Effect::ReplyQuestion { id: "q".into(), reply: QuestionReplyKind::Cancelled }]
    );
}

#[test]
fn messages_are_taken_in_order() {
    let mut app = App::new();
    drive(&mut app, vec![Msg::Submitted("a".into()), Msg::ToggleTodos, Msg::Submitted("b".into())]);
    assert_eq!(app.transcript.len(), 2);
    assert!(matches!(&app.transcript[1], TranscriptItem::User(s) if s == "b"));
    assert!(app.todos_collapsed);
}

#[test]
fn side_effects_write_their_sequences() {
    let mut app = App::new();
    assert_eq!(app.action_sequence(LoopAction::Yank), None, "nothing to copy");
    app.transcript.push(TranscriptItem::Assistant("foo".into()));
    assert_eq!(app.action_sequence(LoopAction::Yank).as_deref(), Some("\x1b]52;c;Zm9v\x07"));
    assert_eq!(app.action_sequence(LoopAction::Suspend), None);
    assert_eq!(
        app.action_sequence(LoopAction::Notify).as_deref(),
        Some("\x1b]9;otto: turn finished\x07\x1b]0;otto — done\x07")
    );
    assert_eq!(app.action_sequence(LoopAction::ResetTitle).as_deref(), Some("\x1b]0;otto\x07"));
    assert_eq!(app.action_sequence(LoopAction::CursorColor).as_deref(), Some("\x1b]112\x07"));
    let nord = Theme::preset("nord");
    app.themes = Themes::with(nord, nord, nord);
    assert_eq!(app.action_sequence(LoopAction::CursorColor).as_deref(), Some("\x1b]12;#88C0D0\x07"));
}

#[test]
fn request_bodies_hold_what_is_given() {
    let body = build_prompt_body("hi", Some("plan"), Some("openai/gpt-4o"), &[]);
    assert_eq!(body, js(r#"{"prompt": "hi", "agent": "plan", "model": "openai/gpt-4o"}"#));
    assert_eq!(permission_reply_body("once", None), js(r#"{"reply": "once"}"#));
    assert_eq!(permission_reply_body("reject", Some("no")), js(r#"{"reply": "reject", "message": "no"}"#));
    assert_eq!(text_object("title", "T"), js(r#"{"title": "T"}"#));
}

#[test]
fn replies_of_the_server_are_read_tolerantly() {
    assert_eq!(started_session(&js(r#"{"session": "s"}"#)), "s");
    assert_eq!(started_session(&js("{}")), "");
    assert!(was_cancelled(&js(r#"{"cancelled": true}"#)));
    assert!(!was_cancelled(&js(r#"{"cancelled": "yes"}"#)));
    let (files, truncated) = listed_files(&js(r#"{"files": ["a", 1, "b"], "truncated": true}"#));
    assert_eq!(files, ["a", "b"]);
    assert!(truncated);
    assert_eq!(listed_files(&js("[]")), (vec![], false));
}

#[test]
fn startup_themes_follow_the_system_or_the_configuration() {
    let light = quantize(&Theme::preset("light"), ColorDepth::Ansi256);
    let dark = quantize(&Theme::dark(), ColorDepth::Ansi256);
    let mut app = App::new();
    app.color_depth = ColorDepth::Ansi256;
    app.dress(Some("Auto"), false, Some(ThemeMode::Light));
    assert_eq!(app.theme_mode, Some(ThemeMode::Light));
    assert_eq!((app.themes.active(), app.themes.dark(), app.themes.light()), (light, dark, light));
    app.dress(Some("auto"), false, None);
    assert_eq!(app.theme_mode, Some(ThemeMode::Dark), "dark where nothing was detected");
    assert_eq!(app.themes.active(), dark);
    let mut app = App::new();
    app.dress(Some("nord"), false, Some(ThemeMode::Light));
    assert_eq!(app.theme_mode, None);
    assert_eq!(app.themes.active(), Theme::preset("nord"));
    app.dress(Some("auto"), true, Some(ThemeMode::Light));
    assert_eq!(app.themes.active(), Theme::mono(), "no color wins");
}

#[test]
fn a_copy_is_confirmed_once_it_is_written() {
    let mut app = App::new();
    app.action_written(LoopAction::Yank, false);
    app.action_written(LoopAction::Notify, true);
    assert!(app.flash.is_none());
    app.action_written(LoopAction::Yank, true);
    assert_eq!(app.flash.as_ref().map(|f| f.msg.as_str()), Some("copied"));
}

#[test]
fn failed_requests_become_errors_or_nothing() {
    let error = |effect: Effect| match effect.failure("boom") {
        Some(Msg::Error(e)) => Some(e),
        Some(other) => panic!("unexpected {other:?}"),
        None => None,
    };
    assert_eq!(error(Effect::CreateSession("t".into())).as_deref(), Some("boom"));
    assert_eq!(error(Effect::CreateDashboardSession("t".into())).as_deref(), Some("boom"));
    assert_eq!(
        error(Effect::StartWorkflow { kind: "sdd".into(), arg: "p".into(), parent: None }).as_deref(),
        Some("workflow sdd failed to start: boom")
    );
    assert_eq!(error(Effect::CancelWorkflow("w".into())).as_deref(), Some("cancel failed: boom"));
    assert_eq!(error(Effect::CancelRun("s".into())).as_deref(), Some("interrupt failed: boom"));
    assert_eq!(error(Effect::LoadHistory("s".into())), None);
    assert_eq!(error(Effect::FetchDashboard), None);
}

#[test]
fn a_failed_poll_is_dropped_whole() {
    assert!(dashboard_message(Some(vec![]), None, Some(vec![])).is_none());
    assert!(matches!(
        dashboard_message(Some(vec![]), Some(vec![]), Some(vec![])),
        Some(Msg::DashboardLoaded { .. })
    ));
}

#[test]
fn ctrl_y_asks_for_a_copy_through_routing() {
    let mut app = App::new();
    app.session_id = Some("ses_1".into());
    app.transcript.push(TranscriptItem::Assistant("hello world".into()));
    assert!(route_message(&mut app, ctrl('y')).is_empty());
    assert_eq!(app.pending_action, Some(LoopAction::Yank));
}

#[test]
fn y_key_sets_pending_yank_through_routing() {
    let mut app = App::new();
    app.session_id = Some("ses_1".into());
    app.transcript.push(TranscriptItem::Assistant("hello world".into()));
    // The input is empty.
    route_message(&mut app, Msg::Key(KeyEvent::new(KeyCode::Char('y'), KeyModifiers::none())));
    assert_eq!(app.pending_action, Some(LoopAction::Yank));
}

#[test]
fn y_is_a_letter_once_something_is_typed() {
    let mut app = App::new();
    app.session_id = Some("ses_1".into());
    for c in ['a', 'y'] {
        route_message(&mut app, Msg::Key(KeyEvent::new(KeyCode::Char(c), KeyModifiers::none())));
    }
    assert_eq!(app.input.text(), "ay");
    assert_eq!(app.pending_action, None);
}

#[test]
fn an_opened_stream_starts_the_count_of_attempts_over() {
    assert_eq!(after_stream(0, false), (1, 1));
    assert_eq!(after_stream(1, false), (2, 2));
    assert_eq!(after_stream(3, false), (4, 8));
    assert_eq!(after_stream(9, false), (10, 15));
    assert_eq!(after_stream(9, true), (1, 1));
    assert_eq!(after_stream(u32::MAX, false), (u32::MAX, 15));
}
