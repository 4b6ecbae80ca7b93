//! The multi-session dashboard.

use otto_tui::client::SessionInfo;
use otto_tui::dashboard::{
    apply_pin_and_filter, build_dashboard_rows, DashboardMode, DashboardPeek, DashboardRow, DashboardState,
    DashboardStatus, PinSet,
};
use otto_tui::overlay::Overlay;
use otto_tui::sse::{
    PermissionAsked, QuestionAsked, QuestionOptionView, QuestionPromptView, ServerEvent, WfPhase, WorkflowMsg,
};
use otto_tui::state::{App, Msg, QuestionReplyKind};

fn dash_perm(session_id: &str) -> PermissionAsked {
    PermissionAsked {
        id: format!("perm_{session_id}"),
        session_id: session_id.into(),
        permission: "edit".into(),
        patterns: vec!["*.rs".into()],
    }
}

fn dash_single_question(session_id: &str) -> QuestionAsked {
    QuestionAsked {
        id: format!("que_{session_id}"),
        session_id: session_id.into(),
        questions: vec![QuestionPromptView {
            question: "Pick one".into(),
            header: "choice".into(),
            options: vec![
                QuestionOptionView {
                    label: "A".into(),
                    description: "a".into(),
                },
                QuestionOptionView {
                    label: "B".into(),
                    description: "b".into(),
                },
            ],
            multiple: false,
        }],
    }
}

fn dash_session(id: &str, updated: i64, busy: bool, parent: Option<&str>) -> SessionInfo {
    SessionInfo {
        id: id.into(),
        title: None,
        time_updated: updated,
        time_created: updated,
        busy,
        parent_id: parent.map(str::to_string),
        kind: None,
    }
}

fn dash_session_kind(id: &str, updated: i64, parent: Option<&str>, kind: &str) -> SessionInfo {
    SessionInfo {
        kind: Some(kind.into()),
        ..dash_session(id, updated, false, parent)
    }
}

fn dash_session_titled(
    id: &str,
    updated: i64,
    parent: Option<&str>,
    title: &str,
) -> SessionInfo {
    SessionInfo {
        title: Some(title.into()),
        ..dash_session(id, updated, false, parent)
    }
}

#[test]
fn build_dashboard_rows_excludes_attached_and_subagent_sessions() {
    let sessions = vec![
        dash_session("ses_attached", 10, false, None),
        dash_session("ses_child", 20, false, Some("ses_attached")),
        dash_session("ses_other", 30, false, None),
    ];
    let rows = build_dashboard_rows(&sessions, &[], &[], Some("ses_attached"));
    assert_eq!(rows.len(), 1);
    assert_eq!(rows[0].session.id, "ses_other");
}

#[test]
fn build_dashboard_rows_sorts_awaiting_before_busy_before_idle() {
    let sessions = vec![
        dash_session("ses_idle", 10, false, None),
        dash_session("ses_busy", 20, true, None),
        dash_session("ses_ask", 5, false, None),
    ];
    let rows = build_dashboard_rows(&sessions, &[dash_perm("ses_ask")], &[], None);
    let order: Vec<&str> = rows.iter().map(|r| r.session.id.as_str()).collect();
    assert_eq!(order, vec!["ses_ask", "ses_busy", "ses_idle"]);
}

#[test]
fn build_dashboard_rows_ties_break_by_recency() {
    let sessions = vec![
        dash_session("ses_a", 10, true, None),
        dash_session("ses_b", 20, true, None),
    ];
    let rows = build_dashboard_rows(&sessions, &[], &[], None);
    assert_eq!(rows[0].session.id, "ses_b");
}

#[test]
fn build_dashboard_rows_splices_workflow_tasks_after_their_root_indented() {
    let sessions = vec![
        dash_session_kind("root", 10, None, "workflow_root"),
        dash_session_kind("task2", 20, Some("root"), "workflow_task"),
        dash_session_kind("task1", 10, Some("root"), "workflow_task"),
        dash_session("other", 5, false, None),
    ];
    let rows = build_dashboard_rows(&sessions, &[], &[], None);
    let order: Vec<(&str, bool)> = rows
        .iter()
        .map(|r| (r.session.id.as_str(), r.indent))
        .collect();
    assert_eq!(
        order,
        vec![
            ("root", false),
            ("task1", true),
            ("task2", true),
            ("other", false),
        ]
    );
}

#[test]
fn build_dashboard_rows_drops_orphaned_workflow_task() {
    let sessions = vec![
        dash_session("other", 5, false, None),
        dash_session_kind("orphan", 20, Some("missing"), "workflow_task"),
    ];
    let rows = build_dashboard_rows(&sessions, &[], &[], None);
    assert_eq!(rows.len(), 1);
    assert_eq!(rows[0].session.id, "other");
}

#[test]
fn build_dashboard_rows_still_excludes_subagent_and_kindless_children() {
    let sessions = vec![
        dash_session("root", 10, false, None),
        dash_session_kind("sub", 20, Some("root"), "subagent"),
        dash_session("adhoc_child", 30, false, Some("root")),
    ];
    let rows = build_dashboard_rows(&sessions, &[], &[], None);
    assert_eq!(rows.len(), 1);
    assert_eq!(rows[0].session.id, "root");
}

#[test]
fn apply_pin_and_filter_floats_pinned_row_to_top_stably() {
    let rows = vec![
        DashboardRow {
            session: dash_session("a", 30, false, None),
            status: DashboardStatus::Idle,
            indent: false,
        },
        DashboardRow {
            session: dash_session("b", 20, false, None),
            status: DashboardStatus::Idle,
            indent: false,
        },
        DashboardRow {
            session: dash_session("c", 10, false, None),
            status: DashboardStatus::Idle,
            indent: false,
        },
    ];
    let mut pinned = PinSet::new();
    pinned.insert("c".to_string());
    let out = apply_pin_and_filter(rows, &pinned, "");
    let order: Vec<&str> = out.iter().map(|r| r.session.id.as_str()).collect();
    assert_eq!(order, vec!["c", "a", "b"]);
}

#[test]
fn apply_pin_and_filter_child_travels_with_its_pinned_or_unpinned_parent() {
    let rows = vec![
        DashboardRow {
            session: dash_session("root_a", 30, false, None),
            status: DashboardStatus::Idle,
            indent: false,
        },
        DashboardRow {
            session: dash_session("child_a", 25, false, Some("root_a")),
            status: DashboardStatus::Idle,
            indent: true,
        },
        DashboardRow {
            session: dash_session("root_b", 20, false, None),
            status: DashboardStatus::Idle,
            indent: false,
        },
        DashboardRow {
            session: dash_session("child_b", 15, false, Some("root_b")),
            status: DashboardStatus::Idle,
            indent: true,
        },
    ];
    let mut pinned = PinSet::new();
    pinned.insert("root_b".to_string());
    let out = apply_pin_and_filter(rows, &pinned, "");
    let order: Vec<&str> = out.iter().map(|r| r.session.id.as_str()).collect();
    assert_eq!(order, vec!["root_b", "child_b", "root_a", "child_a"]);
}

#[test]
fn apply_pin_and_filter_keeps_parent_whose_child_title_matches() {
    let rows = vec![
        DashboardRow {
            session: dash_session_titled("root", 20, None, "unrelated title"),
            status: DashboardStatus::Idle,
            indent: false,
        },
        DashboardRow {
            session: dash_session_titled("child", 10, Some("root"), "fix the bug"),
            status: DashboardStatus::Idle,
            indent: true,
        },
    ];
    let out = apply_pin_and_filter(rows, &PinSet::new(), "bug");
    let order: Vec<&str> = out.iter().map(|r| r.session.id.as_str()).collect();
    assert_eq!(
        order,
        vec!["root", "child"],
        "parent survives via matching child, even though its own title doesn't match"
    );
}

#[test]
fn apply_pin_and_filter_hides_non_matching_child_of_a_kept_parent() {
    let rows = vec![
        DashboardRow {
            session: dash_session_titled("root", 20, None, "fix the bug"),
            status: DashboardStatus::Idle,
            indent: false,
        },
        DashboardRow {
            session: dash_session_titled("child", 10, Some("root"), "unrelated title"),
            status: DashboardStatus::Idle,
            indent: true,
        },
    ];
    let out = apply_pin_and_filter(rows, &PinSet::new(), "bug");
    let order: Vec<&str> = out.iter().map(|r| r.session.id.as_str()).collect();
    assert_eq!(
        order,
        vec!["root"],
        "parent matches and is kept, but its non-matching child stays hidden"
    );
}

#[test]
fn apply_pin_and_filter_drops_filtered_out_parent_and_its_children() {
    let rows = vec![
        DashboardRow {
            session: dash_session_titled("root", 20, None, "nothing relevant"),
            status: DashboardStatus::Idle,
            indent: false,
        },
        DashboardRow {
            session: dash_session_titled("child", 10, Some("root"), "also nothing relevant"),
            status: DashboardStatus::Idle,
            indent: true,
        },
        DashboardRow {
            session: dash_session_titled("other", 5, None, "bug fix here"),
            status: DashboardStatus::Idle,
            indent: false,
        },
    ];
    let out = apply_pin_and_filter(rows, &PinSet::new(), "bug");
    let order: Vec<&str> = out.iter().map(|r| r.session.id.as_str()).collect();
    assert_eq!(order, vec!["other"]);
}

#[test]
fn derive_peek_permission_row() {
    let dash = DashboardState {
        rows: vec![DashboardRow {
            session: dash_session("s", 0, false, None),
            status: DashboardStatus::AwaitingPermission(dash_perm("s")),
            indent: false,
        }],
        selected: 0,
        peek: DashboardPeek::Loading,
        ..DashboardState::default()
    };
    assert_eq!(dash.derive_peek(), DashboardPeek::Permission);
}

#[test]
fn derive_peek_single_select_question_row() {
    let dash = DashboardState {
        rows: vec![DashboardRow {
            session: dash_session("s", 0, false, None),
            status: DashboardStatus::AwaitingQuestion(dash_single_question("s")),
            indent: false,
        }],
        selected: 0,
        peek: DashboardPeek::Loading,
        ..DashboardState::default()
    };
    assert_eq!(dash.derive_peek(), DashboardPeek::Question { highlight: 0 });
}

#[test]
fn derive_peek_multi_select_question_needs_full_session() {
    let mut q = dash_single_question("s");
    q.questions[0].multiple = true;
    let dash = DashboardState {
        rows: vec![DashboardRow {
            session: dash_session("s", 0, false, None),
            status: DashboardStatus::AwaitingQuestion(q),
            indent: false,
        }],
        selected: 0,
        peek: DashboardPeek::Loading,
        ..DashboardState::default()
    };
    assert_eq!(dash.derive_peek(), DashboardPeek::NeedsFullSession);
}

#[test]
fn dashboard_loaded_preserves_message_peek_when_status_kind_unchanged() {
    let mut app = App::new();
    app.dashboard.rows = vec![DashboardRow {
        session: dash_session("s", 0, false, None),
        status: DashboardStatus::Idle,
        indent: false,
    }];
    app.dashboard.selected = 0;
    app.dashboard.peek = DashboardPeek::Message("hi".into());
    app.update(Msg::DashboardLoaded {
        sessions: vec![dash_session("s", 5, false, None)],
        permissions: vec![],
        questions: vec![],
    });
    assert_eq!(
        app.dashboard.peek,
        DashboardPeek::Message("hi".into()),
        "still idle -> peek untouched"
    );
}

#[test]
fn dashboard_loaded_resets_peek_when_status_kind_changes() {
    let mut app = App::new();
    app.dashboard.rows = vec![DashboardRow {
        session: dash_session("s", 0, false, None),
        status: DashboardStatus::Idle,
        indent: false,
    }];
    app.dashboard.selected = 0;
    app.dashboard.peek = DashboardPeek::Message("hi".into());
    app.update(Msg::DashboardLoaded {
        sessions: vec![dash_session("s", 5, false, None)],
        permissions: vec![dash_perm("s")],
        questions: vec![],
    });
    assert_eq!(
        app.dashboard.peek,
        DashboardPeek::Permission,
        "status flipped -> peek re-derived"
    );
}

#[test]
fn derive_peek_idle_or_busy_row_is_loading() {
    let idle = DashboardState {
        rows: vec![DashboardRow {
            session: dash_session("s", 0, false, None),
            status: DashboardStatus::Idle,
            indent: false,
        }],
        selected: 0,
        peek: DashboardPeek::Loading,
        ..DashboardState::default()
    };
    assert_eq!(idle.derive_peek(), DashboardPeek::Loading);

    let busy = DashboardState {
        rows: vec![DashboardRow {
            session: dash_session("s", 0, true, None),
            status: DashboardStatus::Busy,
            indent: false,
        }],
        selected: 0,
        peek: DashboardPeek::Loading,
        ..DashboardState::default()
    };
    assert_eq!(busy.derive_peek(), DashboardPeek::Loading);
}

#[test]
fn dashboard_loaded_on_first_open_leaves_idle_row_peek_loading() {
    let mut app = App::new();
    app.update(Msg::DashboardLoaded {
        sessions: vec![dash_session("s", 0, false, None)],
        permissions: vec![],
        questions: vec![],
    });
    assert_eq!(app.dashboard.selected, 0);
    assert_eq!(app.dashboard.rows[0].status, DashboardStatus::Idle);
    assert_eq!(app.dashboard.peek, DashboardPeek::Loading);
}

#[test]
fn dashboard_peek_loaded_ignored_if_selection_moved() {
    let mut app = App::new();
    app.dashboard.rows = vec![
        DashboardRow {
            session: dash_session("a", 0, false, None),
            status: DashboardStatus::Idle,
            indent: false,
        },
        DashboardRow {
            session: dash_session("b", 0, false, None),
            status: DashboardStatus::Idle,
            indent: false,
        },
    ];
    app.dashboard.selected = 1;
    app.update(Msg::DashboardPeekLoaded {
        session_id: "a".into(),
        text: "stale".into(),
    });
    assert_ne!(app.dashboard.peek, DashboardPeek::Message("stale".into()));
}

#[test]
fn permission_reply_marks_matching_dashboard_row_idle() {
    let mut app = App::new();
    app.dashboard.rows = vec![DashboardRow {
        session: dash_session("s", 0, false, None),
        status: DashboardStatus::AwaitingPermission(dash_perm("s")),
        indent: false,
    }];
    app.update(Msg::PermissionReply {
        id: "perm_s".into(),
        reply: "once".into(),
    });
    assert!(matches!(
        app.dashboard.rows[0].status,
        DashboardStatus::Idle
    ));
}

#[test]
fn question_reply_marks_matching_dashboard_row_idle() {
    let mut app = App::new();
    app.dashboard.rows = vec![DashboardRow {
        session: dash_session("s", 0, false, None),
        status: DashboardStatus::AwaitingQuestion(dash_single_question("s")),
        indent: false,
    }];
    app.update(Msg::QuestionReply {
        id: "que_s".into(),
        reply: QuestionReplyKind::Answered(vec![vec![0]]),
    });
    assert!(matches!(
        app.dashboard.rows[0].status,
        DashboardStatus::Idle
    ));
}

#[test]
fn permission_reply_for_selected_row_resets_peek_to_loading() {
    let mut app = App::new();
    app.dashboard.rows = vec![DashboardRow {
        session: dash_session("s", 0, false, None),
        status: DashboardStatus::AwaitingPermission(dash_perm("s")),
        indent: false,
    }];
    app.dashboard.selected = 0;
    app.dashboard.peek = DashboardPeek::Permission;
    app.update(Msg::PermissionReply {
        id: "perm_s".into(),
        reply: "once".into(),
    });
    assert!(matches!(
        app.dashboard.rows[0].status,
        DashboardStatus::Idle
    ));
    assert_eq!(
        app.dashboard.peek,
        DashboardPeek::Loading,
        "replied-to selected row's stale Permission peek must be re-derived, \
         not left stale — Loading is what triggers the fetch"
    );
}

#[test]
fn permission_reply_for_unselected_row_leaves_peek_untouched() {
    let mut app = App::new();
    app.dashboard.rows = vec![
        DashboardRow {
            session: dash_session("a", 0, false, None),
            status: DashboardStatus::AwaitingPermission(dash_perm("a")),
            indent: false,
        },
        DashboardRow {
            session: dash_session("b", 0, false, None),
            status: DashboardStatus::AwaitingPermission(dash_perm("b")),
            indent: false,
        },
    ];
    app.dashboard.selected = 1;
    app.dashboard.peek = DashboardPeek::Permission;
    app.update(Msg::PermissionReply {
        id: "perm_a".into(),
        reply: "once".into(),
    });
    assert!(matches!(
        app.dashboard.rows[0].status,
        DashboardStatus::Idle
    ));
    assert!(matches!(
        app.dashboard.rows[1].status,
        DashboardStatus::AwaitingPermission(_)
    ));
    assert_eq!(
        app.dashboard.peek,
        DashboardPeek::Permission,
        "reply to a non-selected row must not touch the selected row's peek"
    );
}

#[test]
fn question_reply_for_selected_row_resets_peek_to_loading() {
    let mut app = App::new();
    app.dashboard.rows = vec![DashboardRow {
        session: dash_session("s", 0, false, None),
        status: DashboardStatus::AwaitingQuestion(dash_single_question("s")),
        indent: false,
    }];
    app.dashboard.selected = 0;
    app.dashboard.peek = DashboardPeek::Question { highlight: 0 };
    app.update(Msg::QuestionReply {
        id: "que_s".into(),
        reply: QuestionReplyKind::Answered(vec![vec![0]]),
    });
    assert!(matches!(
        app.dashboard.rows[0].status,
        DashboardStatus::Idle
    ));
    assert_eq!(
        app.dashboard.peek,
        DashboardPeek::Loading,
        "replied-to selected row's stale Question peek must be re-derived"
    );
}

#[test]
fn question_reply_for_unselected_row_leaves_peek_untouched() {
    let mut app = App::new();
    app.dashboard.rows = vec![
        DashboardRow {
            session: dash_session("a", 0, false, None),
            status: DashboardStatus::AwaitingQuestion(dash_single_question("a")),
            indent: false,
        },
        DashboardRow {
            session: dash_session("b", 0, false, None),
            status: DashboardStatus::AwaitingQuestion(dash_single_question("b")),
            indent: false,
        },
    ];
    app.dashboard.selected = 1;
    app.dashboard.peek = DashboardPeek::Question { highlight: 0 };
    app.update(Msg::QuestionReply {
        id: "que_a".into(),
        reply: QuestionReplyKind::Answered(vec![vec![0]]),
    });
    assert!(matches!(
        app.dashboard.rows[0].status,
        DashboardStatus::Idle
    ));
    assert!(matches!(
        app.dashboard.rows[1].status,
        DashboardStatus::AwaitingQuestion(_)
    ));
    assert_eq!(
        app.dashboard.peek,
        DashboardPeek::Question { highlight: 0 },
        "reply to a non-selected row must not touch the selected row's peek"
    );
}

#[test]
fn open_dashboard_resets_state_and_opens_overlay() {
    let mut app = App::new();
    app.dashboard.rows = vec![DashboardRow {
        session: dash_session("stale", 0, false, None),
        status: DashboardStatus::Idle,
        indent: false,
    }];
    app.open_dashboard();
    assert!(matches!(app.overlay, Overlay::Dashboard));
    assert!(app.dashboard.rows.is_empty(), "stale rows cleared on open");
}

#[test]
fn open_dashboard_preserves_pinned_but_resets_filter_and_mode() {
    let mut app = App::new();
    app.dashboard.pinned.insert("fav".to_string());
    app.dashboard.filter = "stale filter".to_string();
    app.dashboard.mode = DashboardMode::Filter;
    app.open_dashboard();
    assert!(app.dashboard.pinned.contains("fav"), "pins survive reopen");
    assert_eq!(app.dashboard.filter, "", "filter resets on reopen");
    assert_eq!(
        app.dashboard.mode,
        DashboardMode::Browsing,
        "mode resets on reopen"
    );
}

#[test]
fn session_busy_event_flips_matching_row_in_place() {
    let mut app = App::new();
    app.dashboard.rows = vec![
        DashboardRow {
            session: dash_session("a", 0, false, None),
            status: DashboardStatus::Idle,
            indent: false,
        },
        DashboardRow {
            session: dash_session("b", 0, false, None),
            status: DashboardStatus::Idle,
            indent: false,
        },
    ];
    app.dashboard.selected = 1;
    app.dashboard.peek = DashboardPeek::Message("b's message".into());
    app.update(Msg::Event(ServerEvent::SessionBusy {
        session_id: "a".into(),
    }));
    assert!(matches!(
        app.dashboard.rows[0].status,
        DashboardStatus::Busy
    ));
    assert_eq!(
        app.dashboard.selected, 1,
        "flipping a non-selected row must not move selection"
    );
    assert_eq!(
        app.dashboard.peek,
        DashboardPeek::Message("b's message".into()),
        "flipping a non-selected row must not touch the selected row's peek"
    );
}

#[test]
fn session_idle_event_for_selected_row_rederives_peek() {
    let mut app = App::new();
    app.dashboard.rows = vec![DashboardRow {
        session: dash_session("a", 0, true, None),
        status: DashboardStatus::Busy,
        indent: false,
    }];
    app.dashboard.selected = 0;
    app.dashboard.peek = DashboardPeek::Message("stale busy-row peek".into());
    app.update(Msg::Event(ServerEvent::SessionIdle {
        session_id: "a".into(),
    }));
    assert!(matches!(
        app.dashboard.rows[0].status,
        DashboardStatus::Idle
    ));
    assert_eq!(
        app.dashboard.peek,
        DashboardPeek::Loading,
        "flipping the selected row re-derives peek (Idle -> Loading, \
         which triggers the async re-fetch)"
    );
}

#[test]
fn session_busy_event_does_not_clobber_pending_ask() {
    let mut app = App::new();
    app.dashboard.rows = vec![DashboardRow {
        session: dash_session("a", 0, false, None),
        status: DashboardStatus::AwaitingPermission(dash_perm("a")),
        indent: false,
    }];
    app.dashboard.selected = 0;
    app.dashboard.peek = DashboardPeek::Permission;
    app.update(Msg::Event(ServerEvent::SessionBusy {
        session_id: "a".into(),
    }));
    assert!(
        matches!(
            app.dashboard.rows[0].status,
            DashboardStatus::AwaitingPermission(_)
        ),
        "a pending ask must take precedence over a bare busy push event"
    );
    assert_eq!(app.dashboard.peek, DashboardPeek::Permission);
}

#[test]
fn session_busy_event_for_unknown_session_is_a_no_op() {
    let mut app = App::new();
    app.dashboard.rows = vec![DashboardRow {
        session: dash_session("a", 0, false, None),
        status: DashboardStatus::Idle,
        indent: false,
    }];
    app.update(Msg::Event(ServerEvent::SessionBusy {
        session_id: "unrelated".into(),
    }));
    assert!(matches!(
        app.dashboard.rows[0].status,
        DashboardStatus::Idle
    ));
}

#[test]
fn session_created_event_flags_refetch_only_when_dashboard_open() {
    let mut app = App::new();
    app.overlay = Overlay::Dashboard;
    app.update(Msg::Event(ServerEvent::SessionCreated {
        session_id: "new".into(),
        title: None,
        parent_id: None,
    }));
    assert!(app.dashboard.needs_refetch);

    let mut app2 = App::new();
    app2.update(Msg::Event(ServerEvent::SessionCreated {
        session_id: "new".into(),
        title: None,
        parent_id: None,
    }));
    assert!(!app2.dashboard.needs_refetch);
}

#[test]
fn workflow_started_event_flags_refetch_only_when_dashboard_open() {
    let w = WorkflowMsg {
        phase: WfPhase::Started,
        session: "ses".into(),
        kind: "sdd".into(),
        arg: None,
        task_index: None,
        status: None,
        notes: String::new(),
        ok: None,
        summary: None,
        error: None,
    };
    let mut app = App::new();
    app.overlay = Overlay::Dashboard;
    app.update(Msg::Event(ServerEvent::Workflow(w.clone())));
    assert!(app.dashboard.needs_refetch);

    let mut app2 = App::new();
    app2.update(Msg::Event(ServerEvent::Workflow(w)));
    assert!(!app2.dashboard.needs_refetch);
}

#[test]
fn dashboard_loaded_clears_needs_refetch() {
    let mut app = App::new();
    app.dashboard.needs_refetch = true;
    app.update(Msg::DashboardLoaded {
        sessions: vec![],
        permissions: vec![],
        questions: vec![],
    });
    assert!(!app.dashboard.needs_refetch);
}

#[test]
fn dashboard_toggle_pin_moves_row_to_top_and_keeps_selection() {
    let mut app = App::new();
    app.dashboard.rows = vec![
        DashboardRow {
            session: dash_session("a", 30, false, None),
            status: DashboardStatus::Idle,
            indent: false,
        },
        DashboardRow {
            session: dash_session("b", 20, false, None),
            status: DashboardStatus::Idle,
            indent: false,
        },
    ];
    app.dashboard.selected = 1;
    app.update(Msg::DashboardTogglePin);
    assert!(app.dashboard.pinned.contains("b"));
    let order: Vec<&str> = app
        .dashboard
        .rows
        .iter()
        .map(|r| r.session.id.as_str())
        .collect();
    assert_eq!(order, vec!["b", "a"], "pinned row floats to top");
    assert_eq!(
        app.dashboard.rows[app.dashboard.selected].session.id, "b",
        "selection follows the toggled row, not its old index"
    );

    app.update(Msg::DashboardTogglePin);
    assert!(!app.dashboard.pinned.contains("b"));
}

#[test]
fn dashboard_filter_changed_applies_live_and_preserves_selection() {
    let mut app = App::new();
    app.dashboard.rows = vec![
        DashboardRow {
            session: dash_session_titled("alpha", 20, None, "fix login bug"),
            status: DashboardStatus::Idle,
            indent: false,
        },
        DashboardRow {
            session: dash_session_titled("beta", 10, None, "unrelated"),
            status: DashboardStatus::Idle,
            indent: false,
        },
    ];
    app.dashboard.selected = 0;
    app.dashboard.peek = DashboardPeek::Message("alpha's message".into());
    app.update(Msg::DashboardFilterChanged("bug".into()));
    assert_eq!(app.dashboard.filter, "bug");
    assert_eq!(app.dashboard.rows.len(), 1);
    assert_eq!(app.dashboard.rows[0].session.id, "alpha");
    assert_eq!(
        app.dashboard.selected, 0,
        "the still-visible previously-selected row stays selected"
    );
    assert_eq!(
        app.dashboard.peek,
        DashboardPeek::Message("alpha's message".into()),
        "same row still selected -> peek must not flicker back to Loading"
    );
}

#[test]
fn dashboard_session_created_inserts_row_and_selects_it() {
    let mut app = App::new();
    app.dashboard.rows = vec![DashboardRow {
        session: dash_session("existing", 10, false, None),
        status: DashboardStatus::Idle,
        indent: false,
    }];
    let new_session = dash_session("new", 20, false, None);
    app.update(Msg::DashboardSessionCreated(new_session));
    assert_eq!(app.dashboard.rows.len(), 2);
    assert_eq!(
        app.dashboard.rows[app.dashboard.selected].session.id, "new",
        "the newly created session is selected"
    );
}

#[test]
fn create_dashboard_session_resets_mode_to_browsing() {
    let mut app = App::new();
    app.dashboard.mode = DashboardMode::NewSession("my title".into());
    app.update(Msg::CreateDashboardSession("my title".into()));
    assert_eq!(app.dashboard.mode, DashboardMode::Browsing);
}

#[test]
fn palette_dashboard_command_opens_dashboard() {
    let mut app = App::new();
    app.open_palette();
    if let Overlay::Palette(ps) = &mut app.overlay {
        ps.query = "Dashboard".into();
    }
    let msg = app.palette_confirm();
    assert!(msg.is_none());
    assert!(matches!(app.overlay, Overlay::Dashboard));
}
