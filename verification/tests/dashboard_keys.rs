//! The keys of the dashboard.

use otto_tui::client::SessionInfo;
use otto_tui::dashboard::{DashboardMode, DashboardPeek, DashboardRow, DashboardStatus};
use otto_tui::keys::{KeyCode, KeyEvent, KeyModifiers};
use otto_tui::overlay::Overlay;
use otto_tui::sse::{PermissionAsked, QuestionAsked, QuestionOptionView, QuestionPromptView};
use otto_tui::state::{App, Msg, QuestionReplyKind};

fn dash_perm(session_id: &str) -> PermissionAsked {
    PermissionAsked {
        id: format!("perm_{session_id}"),
        session_id: session_id.into(),
        permission: "edit".into(),
        patterns: vec!["*.rs".into()],
    }
}

fn dash_single_question(session_id: &str) -> QuestionAsked {
    QuestionAsked {
        id: format!("que_{session_id}"),
        session_id: session_id.into(),
        questions: vec![QuestionPromptView {
            question: "Pick one".into(),
            header: "choice".into(),
            options: vec![
                QuestionOptionView {
                    label: "A".into(),
                    description: "a".into(),
                },
                QuestionOptionView {
                    label: "B".into(),
                    description: "b".into(),
                },
            ],
            multiple: false,
        }],
    }
}

fn dash_session(id: &str) -> SessionInfo {
    SessionInfo {
        id: id.into(),
        ..Default::default()
    }
}

#[test]
fn dashboard_arrows_move_selection_and_reset_peek() {
    let mut app = App::new();
    app.overlay = Overlay::Dashboard;
    app.dashboard.rows = vec![
        DashboardRow {
            session: dash_session("a"),
            status: DashboardStatus::Idle,
            indent: false,
        },
        DashboardRow {
            session: dash_session("b"),
            status: DashboardStatus::Idle,
            indent: false,
        },
    ];
    app.dashboard.selected = 0;
    let out = app.on_key(KeyEvent::new(KeyCode::Down, KeyModifiers::none()));
    assert!(out.is_none());
    assert_eq!(app.dashboard.selected, 1);
    assert_eq!(app.dashboard.peek, DashboardPeek::Loading);
}

#[test]
fn dashboard_enter_opens_selected_session() {
    let mut app = App::new();
    app.overlay = Overlay::Dashboard;
    app.dashboard.rows = vec![DashboardRow {
        session: dash_session("target"),
        status: DashboardStatus::Idle,
        indent: false,
    }];
    let out = app.on_key(KeyEvent::new(KeyCode::Enter, KeyModifiers::none()));
    assert!(matches!(out, Some(Msg::SwitchSession(id)) if id == "target"));
    assert!(
        matches!(app.overlay, Overlay::Closed),
        "dashboard closes when opening a session"
    );
}

#[test]
fn dashboard_y_replies_once_to_pending_permission() {
    let mut app = App::new();
    app.overlay = Overlay::Dashboard;
    app.dashboard.rows = vec![DashboardRow {
        session: dash_session("s"),
        status: DashboardStatus::AwaitingPermission(dash_perm("s")),
        indent: false,
    }];
    app.dashboard.peek = DashboardPeek::Permission;
    let out = app.on_key(KeyEvent::new(KeyCode::Char('y'), KeyModifiers::none()));
    assert!(matches!(
        out,
        Some(Msg::PermissionReply { id, reply })
            if id == "perm_s" && reply == "once"
    ));
}

#[test]
fn dashboard_digit_replies_to_pending_question() {
    let mut app = App::new();
    app.overlay = Overlay::Dashboard;
    app.dashboard.rows = vec![DashboardRow {
        session: dash_session("s"),
        status: DashboardStatus::AwaitingQuestion(dash_single_question("s")),
        indent: false,
    }];
    app.dashboard.peek = DashboardPeek::Question { highlight: 0 };
    let out = app.on_key(KeyEvent::new(KeyCode::Char('2'), KeyModifiers::none()));
    assert!(matches!(
        out,
        Some(Msg::QuestionReply { id, reply: QuestionReplyKind::Answered(a) })
            if id == "que_s" && a == vec![vec![1]]
    ));
}

#[test]
fn dashboard_digit_out_of_range_is_ignored() {
    let mut app = App::new();
    app.overlay = Overlay::Dashboard;
    app.dashboard.rows = vec![DashboardRow {
        session: dash_session("s"),
        status: DashboardStatus::AwaitingQuestion(dash_single_question("s")),
        indent: false,
    }];
    app.dashboard.peek = DashboardPeek::Question { highlight: 0 };
    let out = app.on_key(KeyEvent::new(KeyCode::Char('9'), KeyModifiers::none()));
    assert!(out.is_none());
}

fn dash_session_titled(id: &str, title: &str) -> SessionInfo {
    SessionInfo {
        id: id.into(),
        title: Some(title.into()),
        ..Default::default()
    }
}

#[test]
fn dashboard_p_toggles_pin() {
    let mut app = App::new();
    app.overlay = Overlay::Dashboard;
    app.dashboard.rows = vec![DashboardRow {
        session: dash_session("s"),
        status: DashboardStatus::Idle,
        indent: false,
    }];
    let out = app.on_key(KeyEvent::new(KeyCode::Char('p'), KeyModifiers::none()));
    assert!(matches!(out, Some(Msg::DashboardTogglePin)));
    assert!(app.dashboard.pinned.is_empty());
}

#[test]
fn dashboard_slash_opens_filter_mode() {
    let mut app = App::new();
    app.overlay = Overlay::Dashboard;
    let out = app.on_key(KeyEvent::new(KeyCode::Char('/'), KeyModifiers::none()));
    assert!(out.is_none());
    assert_eq!(app.dashboard.mode, DashboardMode::Filter);
}

#[test]
fn dashboard_filter_typing_applies_live_and_backspace_reverts() {
    let mut app = App::new();
    app.overlay = Overlay::Dashboard;
    app.dashboard.rows = vec![
        DashboardRow {
            session: dash_session_titled("a", "fix login bug"),
            status: DashboardStatus::Idle,
            indent: false,
        },
        DashboardRow {
            session: dash_session_titled("b", "unrelated"),
            status: DashboardStatus::Idle,
            indent: false,
        },
    ];
    app.dashboard.all_rows = app.dashboard.rows.clone();
    app.dashboard.mode = DashboardMode::Filter;
    for c in "bug".chars() {
        let out = app.on_key(KeyEvent::new(KeyCode::Char(c), KeyModifiers::none()));
        assert!(out.is_none());
    }
    assert_eq!(app.dashboard.filter, "bug");
    assert_eq!(
        app.dashboard.rows.len(),
        1,
        "filter re-derives every keystroke"
    );
    assert_eq!(app.dashboard.rows[0].session.id, "a");
    assert!(matches!(app.dashboard.mode, DashboardMode::Filter));

    app.on_key(KeyEvent::new(KeyCode::Backspace, KeyModifiers::none()));
    assert_eq!(app.dashboard.filter, "bu");
    assert_eq!(
        app.dashboard.rows.len(),
        1,
        "backspace re-applies the shortened filter live too"
    );
}

#[test]
fn dashboard_filter_esc_clears_filter_and_exits_to_browsing() {
    let mut app = App::new();
    app.overlay = Overlay::Dashboard;
    app.dashboard.rows = vec![
        DashboardRow {
            session: dash_session_titled("a", "fix login bug"),
            status: DashboardStatus::Idle,
            indent: false,
        },
        DashboardRow {
            session: dash_session_titled("b", "unrelated"),
            status: DashboardStatus::Idle,
            indent: false,
        },
    ];
    app.dashboard.all_rows = app.dashboard.rows.clone();
    app.dashboard.mode = DashboardMode::Filter;
    for c in "bug".chars() {
        app.on_key(KeyEvent::new(KeyCode::Char(c), KeyModifiers::none()));
    }
    assert_eq!(app.dashboard.rows.len(), 1);
    let out = app.on_key(KeyEvent::new(KeyCode::Esc, KeyModifiers::none()));
    assert!(out.is_none());
    assert_eq!(app.dashboard.mode, DashboardMode::Browsing);
    assert!(app.dashboard.filter.is_empty(), "Esc clears the filter");
    assert_eq!(
        app.dashboard.rows.len(),
        2,
        "clearing the filter restores both rows"
    );
}

#[test]
fn dashboard_filter_enter_commits_filter_and_exits_to_browsing() {
    let mut app = App::new();
    app.overlay = Overlay::Dashboard;
    app.dashboard.rows = vec![
        DashboardRow {
            session: dash_session_titled("a", "fix login bug"),
            status: DashboardStatus::Idle,
            indent: false,
        },
        DashboardRow {
            session: dash_session_titled("b", "unrelated"),
            status: DashboardStatus::Idle,
            indent: false,
        },
    ];
    app.dashboard.all_rows = app.dashboard.rows.clone();
    app.dashboard.mode = DashboardMode::Filter;
    for c in "bug".chars() {
        app.on_key(KeyEvent::new(KeyCode::Char(c), KeyModifiers::none()));
    }
    let out = app.on_key(KeyEvent::new(KeyCode::Enter, KeyModifiers::none()));
    assert!(out.is_none());
    assert_eq!(app.dashboard.mode, DashboardMode::Browsing);
    assert_eq!(
        app.dashboard.filter, "bug",
        "Enter commits the filter rather than clearing it"
    );
    assert_eq!(app.dashboard.rows.len(), 1);
}

#[test]
fn dashboard_c_opens_new_session_mode() {
    let mut app = App::new();
    app.overlay = Overlay::Dashboard;
    let out = app.on_key(KeyEvent::new(KeyCode::Char('c'), KeyModifiers::none()));
    assert!(out.is_none());
    assert_eq!(app.dashboard.mode, DashboardMode::NewSession(String::new()));
}

#[test]
fn dashboard_new_session_typing_and_backspace_edit_the_title() {
    let mut app = App::new();
    app.overlay = Overlay::Dashboard;
    app.dashboard.mode = DashboardMode::NewSession(String::new());
    for c in "abc".chars() {
        app.on_key(KeyEvent::new(KeyCode::Char(c), KeyModifiers::none()));
    }
    assert_eq!(
        app.dashboard.mode,
        DashboardMode::NewSession("abc".to_string())
    );
    app.on_key(KeyEvent::new(KeyCode::Backspace, KeyModifiers::none()));
    assert_eq!(
        app.dashboard.mode,
        DashboardMode::NewSession("ab".to_string())
    );
}

#[test]
fn dashboard_new_session_enter_emits_create_msg_without_resetting_mode() {
    let mut app = App::new();
    app.overlay = Overlay::Dashboard;
    app.dashboard.mode = DashboardMode::NewSession("my title".to_string());
    let out = app.on_key(KeyEvent::new(KeyCode::Enter, KeyModifiers::none()));
    assert!(matches!(
        out,
        Some(Msg::CreateDashboardSession(t)) if t == "my title"
    ));
    assert_eq!(
        app.dashboard.mode,
        DashboardMode::NewSession("my title".to_string())
    );
}

#[test]
fn dashboard_new_session_enter_blank_title_is_noop() {
    let mut app = App::new();
    app.overlay = Overlay::Dashboard;
    app.dashboard.mode = DashboardMode::NewSession("   ".to_string());
    let out = app.on_key(KeyEvent::new(KeyCode::Enter, KeyModifiers::none()));
    assert!(out.is_none());
    assert_eq!(
        app.dashboard.mode,
        DashboardMode::NewSession("   ".to_string()),
        "blank title is not submitted, buffer left untouched"
    );
}

#[test]
fn dashboard_new_session_esc_discards_and_exits_to_browsing() {
    let mut app = App::new();
    app.overlay = Overlay::Dashboard;
    app.dashboard.mode = DashboardMode::NewSession("abc".to_string());
    let out = app.on_key(KeyEvent::new(KeyCode::Esc, KeyModifiers::none()));
    assert!(out.is_none());
    assert_eq!(app.dashboard.mode, DashboardMode::Browsing);
}

#[test]
fn dashboard_browsing_bindings_still_work_unchanged() {
    let mut app = App::new();
    app.overlay = Overlay::Dashboard;
    app.dashboard.rows = vec![
        DashboardRow {
            session: dash_session("a"),
            status: DashboardStatus::Idle,
            indent: false,
        },
        DashboardRow {
            session: dash_session("b"),
            status: DashboardStatus::Idle,
            indent: false,
        },
    ];
    assert!(matches!(app.dashboard.mode, DashboardMode::Browsing));
    app.on_key(KeyEvent::new(KeyCode::Down, KeyModifiers::none()));
    assert_eq!(app.dashboard.selected, 1);
    let out = app.on_key(KeyEvent::new(KeyCode::Enter, KeyModifiers::none()));
    assert!(matches!(out, Some(Msg::SwitchSession(id)) if id == "b"));
}
