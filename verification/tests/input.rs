//! The prompt editor, and the keys that reach it.

use otto_tui::input::{wrap_rows, Editor, WrapRow};
use otto_tui::keys::{KeyCode, KeyEvent, KeyModifiers};
use otto_tui::overlay::{Overlay, QuestionSession};
use otto_tui::splash::SPLASH_TICKS;
use otto_tui::sse::{QuestionAsked, QuestionOptionView, QuestionPromptView};
use otto_tui::state::{App, LoopAction, Msg, QuestionReplyKind};
use otto_tui::transcript::{ToolStatus, TranscriptItem};

#[test]
fn insert_backspace_newline_and_take() {
    let mut e = Editor::new();
    for c in "hi".chars() {
        e.insert(c);
    }
    e.newline();
    for c in "yo".chars() {
        e.insert(c);
    }
    assert_eq!(e.text(), "hi\nyo");
    e.backspace();
    assert_eq!(e.text(), "hi\ny");
    let taken = e.take();
    assert_eq!(taken, "hi\ny");
    assert!(e.is_empty());
}

#[test]
fn backspace_at_line_start_joins_lines() {
    let mut e = Editor::new();
    for c in "ab".chars() {
        e.insert(c);
    }
    e.newline();
    e.backspace();
    assert_eq!(e.text(), "ab");
}

#[test]
fn move_left_right_step_by_char_not_byte() {
    let mut e = Editor::new();
    for c in "a世b".chars() {
        e.insert(c);
    }
    assert_eq!(e.cursor(), (0, 5));
    e.move_left();
    assert_eq!(e.cursor(), (0, 4));
    e.move_left();
    assert_eq!(e.cursor(), (0, 1));
    e.move_left();
    assert_eq!(e.cursor(), (0, 0));
    e.move_left();
    assert_eq!(e.cursor(), (0, 0));
    e.move_right();
    assert_eq!(e.cursor(), (0, 1));
}

#[test]
fn move_left_at_line_start_joins_to_previous_line_end() {
    let mut e = Editor::new();
    e.insert('a');
    e.newline();
    e.insert('b');
    assert_eq!(e.cursor(), (1, 1));
    e.move_left();
    assert_eq!(e.cursor(), (1, 0));
    e.move_left();
    assert_eq!(e.cursor(), (0, 1));
}

#[test]
fn move_right_at_line_end_advances_to_next_line_start() {
    let mut e = Editor::new();
    e.insert('a');
    e.newline();
    e.insert('b');
    e.move_home();
    e.move_left();
    e.move_right();
    assert_eq!(e.cursor(), (1, 0));
    e.move_right();
    assert_eq!(e.cursor(), (1, 1));
    e.move_right();
    assert_eq!(e.cursor(), (1, 1));
}

#[test]
fn ctrl_z_sets_pending_suspend() {
    let mut app = App::new();
    let out = app.on_key(KeyEvent::new(KeyCode::Char('z'), KeyModifiers::control()));
    assert!(out.is_none());
    assert_eq!(app.pending_action, Some(LoopAction::Suspend));
}

#[test]
fn ctrl_y_sets_pending_yank() {
    let mut app = App::new();
    let out = app.on_key(KeyEvent::new(KeyCode::Char('y'), KeyModifiers::control()));
    assert!(out.is_none());
    assert_eq!(app.pending_action, Some(LoopAction::Yank));
}

#[test]
fn esc_interrupts_turn_when_generating() {
    let mut app = App::new();
    app.session_id = Some("ses_1".into());
    app.status = "…thinking".into();
    let out = app.on_key(key(KeyCode::Esc));
    assert!(matches!(out, Some(Msg::InterruptTurn(s)) if s == "ses_1"));
}

#[test]
fn y_inserts_char_when_input_nonempty() {
    let mut app = App::new();
    app.input.insert('a');
    let msg = app.on_key(KeyEvent::new(KeyCode::Char('y'), KeyModifiers::none()));
    assert!(msg.is_none());
    assert_eq!(app.input.text(), "ay");
}

#[test]
fn y_types_when_input_nonempty() {
    let mut app = App::new();
    app.input.insert('x');
    let _ = app.on_key(KeyEvent::new(KeyCode::Char('y'), KeyModifiers::none()));
    assert_eq!(app.pending_action, None);
    assert_eq!(app.input.text(), "xy");
}

#[test]
fn backtab_cycles_permission_mode_when_no_overlay() {
    let mut app = App::new();
    let msg = app.on_key(KeyEvent::new(KeyCode::BackTab, KeyModifiers::none()));
    assert!(matches!(msg, Some(Msg::CyclePermissionMode)));
}

#[test]
fn slash_opens_search_when_input_empty() {
    let mut app = App::new();
    let msg = app.on_key(KeyEvent::new(KeyCode::Char('/'), KeyModifiers::none()));
    assert!(msg.is_none());
    assert!(matches!(app.overlay, Overlay::Search(_)));
}

#[test]
fn slash_inserts_char_when_input_nonempty() {
    let mut app = App::new();
    app.input.insert('a');
    let msg = app.on_key(KeyEvent::new(KeyCode::Char('/'), KeyModifiers::none()));
    assert!(msg.is_none());
    assert_eq!(app.input.text(), "a/");
    assert!(matches!(app.overlay, Overlay::Closed));
}

#[test]
fn search_overlay_esc_closes_and_enter_is_noop() {
    let mut app = App::new();
    app.open_search();
    let msg = app.on_key(KeyEvent::new(KeyCode::Enter, KeyModifiers::none()));
    assert!(msg.is_none());
    assert!(
        matches!(app.overlay, Overlay::Search(_)),
        "enter must not close search"
    );
    app.on_key(KeyEvent::new(KeyCode::Esc, KeyModifiers::none()));
    assert!(matches!(app.overlay, Overlay::Closed));
}

#[test]
fn search_overlay_types_query_and_backspaces() {
    let mut app = App::new();
    app.open_search();
    for c in "err".chars() {
        app.on_key(KeyEvent::new(KeyCode::Char(c), KeyModifiers::none()));
    }
    match &app.overlay {
        Overlay::Search(s) => assert_eq!(s.query, "err"),
        other => panic!("expected search overlay, got {other:?}"),
    }
    app.on_key(KeyEvent::new(KeyCode::Backspace, KeyModifiers::none()));
    match &app.overlay {
        Overlay::Search(s) => assert_eq!(s.query, "er"),
        other => panic!("expected search overlay, got {other:?}"),
    }
}

#[test]
fn search_overlay_n_and_shift_n_navigate_matches() {
    let mut app = App::new();
    app.open_search();
    let msg = app.on_key(KeyEvent::new(KeyCode::Char('n'), KeyModifiers::none()));
    assert!(msg.is_none());
    match &app.overlay {
        Overlay::Search(s) => assert_eq!(s.current, 1),
        other => panic!("expected search overlay, got {other:?}"),
    }
    let msg = app.on_key(KeyEvent::new(KeyCode::Char('N'), KeyModifiers::shift()));
    assert!(msg.is_none());
    match &app.overlay {
        Overlay::Search(s) => assert_eq!(s.current, 0),
        other => panic!("expected search overlay, got {other:?}"),
    }
    match &app.overlay {
        Overlay::Search(s) => assert!(s.query.is_empty()),
        other => panic!("expected search overlay, got {other:?}"),
    }
}

#[test]
fn handles_multibyte_chars_without_panic() {
    let mut e = Editor::new();
    for c in "héllo".chars() {
        e.insert(c);
    }
    e.insert('x');
    assert_eq!(e.text(), "héllox");
    e.backspace();
    e.backspace();
    assert_eq!(e.text(), "héll");
    e.newline();
    e.insert('界');
    assert_eq!(e.text(), "héll\n界");
}

#[test]
fn cursor_display_counts_display_width() {
    let mut e = Editor::new();
    assert_eq!(e.cursor_display(), (0, 0));
    e.insert('a');
    e.insert('b');
    assert_eq!(e.cursor_display(), (0, 2));
    e.insert('世');
    assert_eq!(e.cursor_display(), (0, 4));
    e.newline();
    assert_eq!(e.cursor_display(), (1, 0));
}

fn key(c: KeyCode) -> KeyEvent {
    KeyEvent::new(c, KeyModifiers::none())
}

fn app_with_two_tools() -> App {
    let mut app = App::new();
    for t in ["a", "b"] {
        app.transcript.push(TranscriptItem::Tool {
            name: "read".into(),
            status: ToolStatus::Success,
            title: t.into(),
            input: None,
            output: None,
            expanded: false,
        });
    }
    app
}

#[test]
fn splash_swallows_first_key_and_dismisses() {
    let mut app = App::new();
    app.splash = Some(SPLASH_TICKS);
    assert!(app.on_key(key(KeyCode::Enter)).is_none());
    assert!(app.splash.is_none(), "splash dismissed");
    let _ = app.on_key(key(KeyCode::Enter));
    assert!(app.splash.is_none());
}

#[test]
fn down_up_navigate_tools_when_empty() {
    let mut app = app_with_two_tools();
    assert!(app.on_key(key(KeyCode::Up)).is_none());
    assert_eq!(app.tool_cursor, Some(1));
    let _ = app.on_key(key(KeyCode::Up));
    assert_eq!(app.tool_cursor, Some(0));
}

#[test]
fn enter_toggles_selected_tool_but_still_submits_with_text() {
    let mut app = app_with_two_tools();
    app.tool_cursor = Some(0);
    assert!(app.on_key(key(KeyCode::Enter)).is_none());
    assert!(matches!(
        app.transcript[0],
        TranscriptItem::Tool { expanded: true, .. }
    ));
    app.input.insert('x');
    match app.on_key(key(KeyCode::Enter)) {
        Some(Msg::Submitted(t)) => assert_eq!(t, "x"),
        other => panic!("expected Submitted, got {other:?}"),
    }
}

#[test]
fn esc_clears_selection_when_empty() {
    let mut app = app_with_two_tools();
    app.tool_cursor = Some(1);
    assert!(app.on_key(key(KeyCode::Esc)).is_none());
    assert_eq!(app.tool_cursor, None);
}

#[test]
fn wrap_short_line_is_one_row() {
    let lines = vec!["hello".to_string()];
    let rows = wrap_rows(&lines, 10);
    assert_eq!(
        rows,
        vec![WrapRow {
            logical_row: 0,
            start: 0,
            end: 5
        }]
    );
}

#[test]
fn wrap_line_exactly_width_is_one_row() {
    let lines = vec!["abcde".to_string()];
    let rows = wrap_rows(&lines, 5);
    assert_eq!(
        rows,
        vec![WrapRow {
            logical_row: 0,
            start: 0,
            end: 5
        }]
    );
}

#[test]
fn wrap_line_over_width_splits() {
    let lines = vec!["abcdef".to_string()];
    let rows = wrap_rows(&lines, 5);
    assert_eq!(
        rows,
        vec![
            WrapRow {
                logical_row: 0,
                start: 0,
                end: 5
            },
            WrapRow {
                logical_row: 0,
                start: 5,
                end: 6
            },
        ]
    );
}

#[test]
fn wrap_empty_line_yields_one_empty_row() {
    let lines = vec![String::new()];
    let rows = wrap_rows(&lines, 5);
    assert_eq!(
        rows,
        vec![WrapRow {
            logical_row: 0,
            start: 0,
            end: 0
        }]
    );
}

#[test]
fn wrap_multiple_logical_lines() {
    let lines = vec!["ab".to_string(), "cd".to_string()];
    let rows = wrap_rows(&lines, 5);
    assert_eq!(
        rows,
        vec![
            WrapRow {
                logical_row: 0,
                start: 0,
                end: 2
            },
            WrapRow {
                logical_row: 1,
                start: 0,
                end: 2
            },
        ]
    );
}

#[test]
fn wrap_wide_grapheme_not_split_at_boundary() {
    let lines = vec!["世界".to_string()];
    let rows = wrap_rows(&lines, 3);
    assert_eq!(
        rows,
        vec![
            WrapRow {
                logical_row: 0,
                start: 0,
                end: 3
            },
            WrapRow {
                logical_row: 0,
                start: 3,
                end: 6
            },
        ]
    );
}

#[test]
fn wrap_zero_width_treated_as_one() {
    let lines = vec!["ab".to_string()];
    let rows = wrap_rows(&lines, 0);
    assert_eq!(
        rows,
        vec![
            WrapRow {
                logical_row: 0,
                start: 0,
                end: 1
            },
            WrapRow {
                logical_row: 0,
                start: 1,
                end: 2
            },
        ]
    );
}

#[test]
fn cursor_visual_start_of_empty() {
    let e = Editor::new();
    assert_eq!(e.cursor_visual(10), (0, 0));
}

#[test]
fn cursor_visual_after_typing() {
    let mut e = Editor::new();
    for c in "abc".chars() {
        e.insert(c);
    }
    assert_eq!(e.cursor_visual(10), (0, 3));
}

#[test]
fn cursor_visual_after_newline() {
    let mut e = Editor::new();
    e.insert('a');
    e.newline();
    e.insert('b');
    assert_eq!(e.cursor_visual(10), (1, 1));
}

#[test]
fn cursor_visual_wraps_to_next_row() {
    let mut e = Editor::new();
    for c in "abcdef".chars() {
        e.insert(c);
    }
    assert_eq!(e.cursor_visual(5), (1, 1));
}

#[test]
fn cursor_visual_at_wrap_boundary_is_next_row_col0() {
    let mut e = Editor::new();
    for c in "abcdef".chars() {
        e.insert(c);
    }
    e.move_left();
    assert_eq!(e.cursor_visual(5), (1, 0));
}

#[test]
fn cursor_visual_cjk_display_col() {
    let mut e = Editor::new();
    e.insert('世');
    assert_eq!(e.cursor_visual(10), (0, 2));
}

#[test]
fn move_down_up_crosses_soft_wrap_within_one_logical_line() {
    let mut e = Editor::new();
    for c in "abcdefgh".chars() {
        e.insert(c);
    }
    e.move_home();
    assert_eq!(e.cursor_visual(4), (0, 0));
    e.move_down(4);
    assert_eq!(e.cursor_visual(4), (1, 0));
    e.move_up(4);
    assert_eq!(e.cursor_visual(4), (0, 0));
}

#[test]
fn move_down_crosses_logical_line_boundary() {
    let mut e = Editor::new();
    e.insert('a');
    e.newline();
    e.insert('b');
    e.move_home();
    e.move_up(80);
    assert_eq!(e.cursor(), (0, 0));
    e.move_down(80);
    assert_eq!(e.cursor(), (1, 0));
}

#[test]
fn move_up_down_preferred_column_sticks_across_shorter_line() {
    let mut e = Editor::new();
    for c in "abcdef".chars() {
        e.insert(c);
    }
    e.newline();
    e.insert('x');
    e.newline();
    for c in "abcdef".chars() {
        e.insert(c);
    }
    e.move_up(80);
    assert_eq!(e.cursor(), (1, 1));
    e.move_up(80);
    assert_eq!(e.cursor(), (0, 6));
}

#[test]
fn move_up_at_first_row_and_down_at_last_row_are_no_ops() {
    let mut e = Editor::new();
    e.insert('a');
    e.move_up(80);
    assert_eq!(e.cursor(), (0, 1));
    e.move_down(80);
    assert_eq!(e.cursor(), (0, 1));
}

#[test]
fn move_up_from_natural_end_of_wrapped_line_lands_on_correct_visual_row() {
    let mut e = Editor::new();
    for c in "abcdefgh".chars() {
        e.insert(c);
    }
    assert_eq!(e.cursor_visual(4), (1, 4));
    e.move_up(4);
    assert_eq!(
        e.cursor_visual(4).0,
        0,
        "Up from the natural end of a wrapped line must land on visual row 0, not stay on row 1"
    );
}

#[test]
fn ctrl_j_inserts_newline() {
    let mut app = App::new();
    app.input.insert('a');
    let out = app.on_key(KeyEvent::new(KeyCode::Char('j'), KeyModifiers::control()));
    assert!(out.is_none());
    assert_eq!(app.input.text(), "a\n");
}

#[test]
fn at_opens_mention_when_empty() {
    let mut app = App::new();
    assert!(app.on_key(key(KeyCode::Char('@'))).is_none());
    assert!(matches!(app.overlay, Overlay::Mention(_)));
    assert_eq!(app.input.text(), "@");
}

#[test]
fn at_after_space_opens_mention() {
    let mut app = App::new();
    for c in "hi ".chars() {
        app.on_key(key(KeyCode::Char(c)));
    }
    app.on_key(key(KeyCode::Char('@')));
    assert!(matches!(app.overlay, Overlay::Mention(_)));
    assert_eq!(app.input.text(), "hi @");
}

#[test]
fn at_mid_word_is_literal() {
    let mut app = App::new();
    for c in "foo".chars() {
        app.on_key(key(KeyCode::Char(c)));
    }
    app.on_key(key(KeyCode::Char('@')));
    assert!(
        matches!(app.overlay, Overlay::Closed),
        "mid-word @ is literal"
    );
    assert_eq!(app.input.text(), "foo@");
}

#[test]
fn mention_enter_accepts_not_submits() {
    let mut app = App::new();
    app.session_id = Some("ses_1".into());
    app.on_key(key(KeyCode::Char('@')));
    app.files_loaded(vec!["a.rs".into()], false);
    let msg = app.on_key(key(KeyCode::Enter));
    assert!(msg.is_none(), "enter inside a mention never submits");
    assert_eq!(app.input.text(), "@a.rs ");
    assert!(matches!(app.overlay, Overlay::Closed));
}

#[test]
fn mention_tab_accepts() {
    let mut app = App::new();
    app.on_key(key(KeyCode::Char('@')));
    app.files_loaded(vec!["a.rs".into()], false);
    assert!(app.on_key(key(KeyCode::Tab)).is_none());
    assert_eq!(app.input.text(), "@a.rs ");
    assert!(matches!(app.overlay, Overlay::Closed));
}

#[test]
fn mention_esc_keeps_typed_text() {
    let mut app = App::new();
    app.on_key(key(KeyCode::Char('@')));
    for c in "src".chars() {
        app.on_key(key(KeyCode::Char(c)));
    }
    app.on_key(key(KeyCode::Esc));
    assert!(matches!(app.overlay, Overlay::Closed));
    assert_eq!(app.input.text(), "@src", "typed text survives dismissal");
}

#[test]
fn mention_space_dismisses() {
    let mut app = App::new();
    app.on_key(key(KeyCode::Char('@')));
    for c in "sr".chars() {
        app.on_key(key(KeyCode::Char(c)));
    }
    app.on_key(key(KeyCode::Char(' ')));
    assert!(
        matches!(app.overlay, Overlay::Closed),
        "space delimits the token"
    );
    assert_eq!(app.input.text(), "@sr ");
}

#[test]
fn mention_shift_enter_inserts_newline_and_dismisses() {
    let mut app = App::new();
    app.on_key(key(KeyCode::Char('@')));
    for c in "sr".chars() {
        app.on_key(key(KeyCode::Char(c)));
    }
    app.on_key(KeyEvent::new(KeyCode::Enter, KeyModifiers::shift()));
    assert!(matches!(app.overlay, Overlay::Closed));
    assert_eq!(app.input.text(), "@sr\n");
}

#[test]
fn ctrl_c_quits_while_mention_open() {
    let mut app = App::new();
    app.on_key(key(KeyCode::Char('@')));
    let msg = app.on_key(KeyEvent::new(KeyCode::Char('c'), KeyModifiers::control()));
    assert!(
        matches!(msg, Some(Msg::Quit)),
        "ctrl+c wins over the overlay"
    );
}

fn sample_question_asked() -> QuestionAsked {
    QuestionAsked {
        id: "que_1".into(),
        session_id: "ses_1".into(),
        questions: vec![QuestionPromptView {
            question: "Pick one".into(),
            header: "choice".into(),
            options: vec![
                QuestionOptionView {
                    label: "A".into(),
                    description: "a".into(),
                },
                QuestionOptionView {
                    label: "B".into(),
                    description: "b".into(),
                },
            ],
            multiple: false,
        }],
    }
}

#[test]
fn question_arrow_and_enter_answers_single_question() {
    let mut app = App::new();
    app.overlay = Overlay::Question(QuestionSession::new(sample_question_asked()));
    app.on_key(key(KeyCode::Down));
    let msg = app.on_key(key(KeyCode::Enter));
    match msg {
        Some(Msg::QuestionReply {
            id,
            reply: QuestionReplyKind::Answered(answers),
        }) => {
            assert_eq!(id, "que_1");
            assert_eq!(answers, vec![vec![1]]);
        }
        other => panic!("expected an Answered QuestionReply, got {other:?}"),
    }
    assert!(
        matches!(app.overlay, Overlay::Closed),
        "overlay closes on the final answer"
    );
}

#[test]
fn question_esc_cancels() {
    let mut app = App::new();
    app.overlay = Overlay::Question(QuestionSession::new(sample_question_asked()));
    let msg = app.on_key(key(KeyCode::Esc));
    match msg {
        Some(Msg::QuestionReply {
            id,
            reply: QuestionReplyKind::Cancelled,
        }) => assert_eq!(id, "que_1"),
        other => panic!("expected a Cancelled QuestionReply, got {other:?}"),
    }
    assert!(matches!(app.overlay, Overlay::Closed));
}

#[test]
fn arrow_keys_move_cursor_when_input_nonempty() {
    let mut app = App::new();
    app.width = 80;
    for c in "hi".chars() {
        app.input.insert(c);
    }
    assert_eq!(app.input.cursor(), (0, 2));
    let out = app.on_key(key(KeyCode::Left));
    assert!(out.is_none());
    assert_eq!(app.input.cursor(), (0, 1));
    app.on_key(key(KeyCode::Right));
    assert_eq!(app.input.cursor(), (0, 2));
    app.on_key(key(KeyCode::Home));
    assert_eq!(app.input.cursor(), (0, 0));
    app.on_key(key(KeyCode::End));
    assert_eq!(app.input.cursor(), (0, 2));
}

#[test]
fn up_down_still_cycle_tools_when_input_empty() {
    let mut app = app_with_two_tools();
    assert!(app.input.is_empty());
    let out = app.on_key(key(KeyCode::Up));
    assert!(out.is_none());
    assert!(app.tool_cursor.is_some(), "Up on empty input must still select a tool");
}

#[test]
fn end_still_scrolls_bottom_when_input_empty() {
    let mut app = App::new();
    assert!(app.input.is_empty());
    let out = app.on_key(key(KeyCode::End));
    assert!(matches!(out, Some(Msg::ScrollBottom)));
}

#[test]
fn up_down_wrap_aware_using_app_width() {
    let mut app = App::new();
    app.width = 6;
    for c in "abcdefghij".chars() {
        app.input.insert(c);
    }
    app.input.move_home();
    app.on_key(key(KeyCode::Down));
    let (row, col) = app.input.cursor();
    assert_eq!(row, 0);
    assert!(col > 0, "Down must have advanced the cursor into the wrapped tail");
}

#[test]
fn undo_redo_round_trips_a_single_edit() {
    let mut e = Editor::new();
    e.insert('a');
    e.undo();
    assert_eq!(e.text(), "");
    e.redo();
    assert_eq!(e.text(), "a");
}

#[test]
fn consecutive_typing_batches_into_one_undo_step() {
    let mut e = Editor::new();
    for c in "abc".chars() {
        e.insert(c);
    }
    assert_eq!(e.text(), "abc");
    e.undo();
    assert_eq!(e.text(), "", "a fast burst of typing must undo as one step");
}

#[test]
fn insert_then_delete_are_distinct_undo_steps() {
    let mut e = Editor::new();
    e.insert('a');
    e.insert('b');
    e.backspace();
    assert_eq!(e.text(), "a");
    e.undo();
    assert_eq!(e.text(), "ab");
    e.undo();
    assert_eq!(e.text(), "");
}

#[test]
fn replace_to_cursor_is_always_a_discrete_undo_step() {
    let mut e = Editor::new();
    for c in "@fo".chars() {
        e.insert(c);
    }
    e.replace_to_cursor(0, 0, "@foo.rs");
    assert_eq!(e.text(), "@foo.rs");
    e.undo();
    assert_eq!(e.text(), "@fo");
    e.undo();
    assert_eq!(e.text(), "");
}

#[test]
fn new_edit_after_undo_clears_redo() {
    let mut e = Editor::new();
    e.insert('a');
    e.undo();
    e.insert('b');
    e.redo();
    assert_eq!(e.text(), "b");
}

#[test]
fn undo_redo_are_no_ops_at_stack_boundaries() {
    let mut e = Editor::new();
    e.undo();
    assert_eq!(e.text(), "");
    e.insert('a');
    e.redo();
    assert_eq!(e.text(), "a");
}

#[test]
fn undo_depth_is_capped() {
    let mut e = Editor::new();
    for i in 0..150 {
        e.insert('a');
        e.replace_to_cursor(0, e.cursor().1, "");
        let _ = i;
    }
    for _ in 0..150 {
        e.undo();
    }
    assert!(!e.is_empty(), "undo stack cap must have evicted the oldest entries");
}

fn ctrl_underscore() -> KeyEvent {
    KeyEvent::new(KeyCode::Char('_'), KeyModifiers::control())
}

fn ctrl_shift_underscore() -> KeyEvent {
    KeyEvent::new(KeyCode::Char('_'), KeyModifiers { control: true, shift: true, alt: false })
}

#[test]
fn ctrl_underscore_undoes_last_edit() {
    let mut app = App::new();
    app.input.insert('a');
    let out = app.on_key(ctrl_underscore());
    assert!(out.is_none());
    assert!(app.input.is_empty());
}

#[test]
fn ctrl_shift_underscore_redoes() {
    let mut app = App::new();
    app.input.insert('a');
    app.on_key(ctrl_underscore());
    assert!(app.input.is_empty());
    let out = app.on_key(ctrl_shift_underscore());
    assert!(out.is_none());
    assert_eq!(app.input.text(), "a");
}

#[test]
fn ctrl_underscore_is_ignored_while_an_overlay_is_open() {
    let mut app = App::new();
    app.input.insert('a');
    app.open_palette();
    app.on_key(ctrl_underscore());
    assert_eq!(app.input.text(), "a");
}
