//! What the event loop decides, and what it writes to the terminal.

use otto_tui::appearance::should_poll_os_theme;
use otto_tui::effects::{dashboard_poll_due, event_reconnect_delay, should_reconcile_history};
use otto_tui::keys::{KeyCode, KeyEvent, KeyModifiers};
use otto_tui::overlay::Overlay;
use otto_tui::sse::PermissionAsked;
use otto_tui::state::{App, Msg};
use otto_tui::terminal::{
    cursor_color_sequence, notify_sequence, osc52_sequence, title_sequence, KeyboardGate, CURSOR_COLOR_RESET_SEQUENCE,
};

#[test]
fn event_reconnect_delay_backs_off_and_caps() {
    assert_eq!(event_reconnect_delay(1), 1);
    assert_eq!(event_reconnect_delay(2), 2);
    assert_eq!(event_reconnect_delay(3), 4);
    assert_eq!(event_reconnect_delay(5), 15, "capped");
    assert_eq!(
        event_reconnect_delay(50),
        15,
        "still capped"
    );
}

#[test]
fn reconcile_only_after_errored_turn() {
    let mut app = App::new();
    app.session_id = Some("ses_1".into());
    app.status = "ready".into();
    assert!(
        !should_reconcile_history(&app),
        "clean turn end needs no history refetch"
    );
    app.status = "error: lost connection to otto server: timed out".into();
    assert!(
        should_reconcile_history(&app),
        "errored turn may have dropped persisted deltas — refetch"
    );
    app.session_id = None;
    assert!(
        !should_reconcile_history(&app),
        "no session — nothing to refetch"
    );
}

#[test]
fn osc52_sequence_encodes_rfc4648_vectors() {
    assert_eq!(osc52_sequence(""), "\x1b]52;c;\x07");
    assert_eq!(osc52_sequence("f"), "\x1b]52;c;Zg==\x07");
    assert_eq!(osc52_sequence("fo"), "\x1b]52;c;Zm8=\x07");
    assert_eq!(osc52_sequence("foo"), "\x1b]52;c;Zm9v\x07");
    assert_eq!(osc52_sequence("foob"), "\x1b]52;c;Zm9vYg==\x07");
}

#[test]
fn osc52_sequence_format_is_escape_bracket_52_c_payload_bell() {
    let seq = osc52_sequence("hello");
    assert!(seq.starts_with("\x1b]52;c;"));
    assert!(seq.ends_with('\x07'));
}

#[test]
fn notify_sequence_is_osc9() {
    let seq = notify_sequence("otto: turn finished");
    assert_eq!(seq, "\x1b]9;otto: turn finished\x07");
}

#[test]
fn title_sequence_is_osc0() {
    let seq = title_sequence("otto — done");
    assert_eq!(seq, "\x1b]0;otto — done\x07");
}

#[test]
fn cursor_color_sequence_is_osc12() {
    assert_eq!(cursor_color_sequence("88C0D0"), "\x1b]12;#88C0D0\x07");
}

#[test]
fn cursor_color_reset_sequence_is_osc112() {
    assert_eq!(CURSOR_COLOR_RESET_SEQUENCE, "\x1b]112\x07");
}

#[test]
fn dashboard_poll_due_every_16_ticks() {
    assert!(dashboard_poll_due(0));
    assert!(!dashboard_poll_due(1));
    assert!(!dashboard_poll_due(15));
    assert!(dashboard_poll_due(16));
    assert!(dashboard_poll_due(32));
}

#[test]
fn should_poll_os_theme_only_when_auto_and_not_ssh_detected() {
    assert!(should_poll_os_theme(Some("auto"), false, false));
    assert!(
        !should_poll_os_theme(Some("auto"), false, true),
        "ssh one-shot only"
    );
    assert!(
        !should_poll_os_theme(Some("nord"), false, false),
        "not auto mode"
    );
    assert!(
        !should_poll_os_theme(Some("auto"), true, false),
        "NO_COLOR wins"
    );
    assert!(!should_poll_os_theme(None, false, false));
    assert!(
        should_poll_os_theme(Some("Auto"), false, false),
        "case-insensitive"
    );
}

#[test]
fn on_key_permission_reply_produces_msg() {
    let mut app = App::new();
    app.overlay = Overlay::Permission(PermissionAsked {
        id: "p1".into(),
        session_id: "s1".into(),
        permission: "danger".into(),
        patterns: vec![],
    });

    let msg = app.on_key(KeyEvent::new(KeyCode::Char('y'), KeyModifiers::none()));
    match msg {
        Some(Msg::PermissionReply { id, reply }) => {
            assert_eq!(id, "p1");
            assert_eq!(reply, "once");
        }
        other => panic!("expected Some(Msg::PermissionReply {{ .. }}), got {other:?}"),
    }
    assert!(
        matches!(app.overlay, Overlay::Closed),
        "overlay must close once the reply intent is produced"
    );
}

#[test]
fn kbd_gate_defaults_false_and_pop_is_noop() {
    let mut gate = KeyboardGate::new();
    assert!(!gate.should_pop_kbd());
    gate.store(false);
    assert!(!gate.should_pop_kbd());
}

#[test]
fn kbd_gate_true_after_set() {
    let mut gate = KeyboardGate::new();
    gate.store(true);
    assert!(gate.should_pop_kbd());
    gate.store(false);
    assert!(!gate.should_pop_kbd());
}
