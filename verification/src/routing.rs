//! Key routing: what each key does in each overlay and in the editor.

use crate::dashboard::{
    DashboardMode, DashboardModeModel, DashboardPeek, DashboardState, DashboardStateModel,
    DashboardStatusModel,
};
use crate::input::{EditTime, EditorModel};
use crate::keys::{KeyCode, KeyEvent};
use crate::overlay::{
    FilePickerStateModel, Overlay, OverlayModel, PaletteStateModel, QuestionSession,
    QuestionSessionModel, SearchStateModel,
};
use crate::state::{
    runs_turn, stepped, App, AppModel, FlashKind, LoopAction, Msg, MsgModel, QuestionReplyKind,
    QuestionReplyKindModel,
};
use crate::text::{copied, is_space, pop_char, push_char, shortened, trim, trimmed, white_space};
use crate::view::{input_inner_width, inner_width};
use vstd::prelude::*;
use vstd::string::*;

verus! {

/// Whether a key is the given character with control held.
pub open spec fn is_ctrl(key: KeyEvent, c: char) -> bool {
    key.code == KeyCode::Char(c) && key.modifiers.control
}

/// Whether a key types a character: neither control nor alt is held.
pub open spec fn types(key: KeyEvent) -> bool {
    !key.modifiers.control && !key.modifiers.alt
}

/// Whether a key is one of the chords that work everywhere.
pub open spec fn is_chord(key: KeyEvent) -> bool {
    is_ctrl(key, 'c') || is_ctrl(key, 'n') || is_ctrl(key, 'z') || is_ctrl(key, 'k') || is_ctrl(
        key,
        'f',
    ) || is_ctrl(key, 'x') || is_ctrl(key, 'w') || is_ctrl(key, '_')
}

/// What is open, without its state.
#[derive(Debug, Clone, Copy, PartialEq, Eq, Structural)]
pub enum OverlayKind {
    Closed,
    Files,
    Palette,
    TextInput,
    Search,
    Mention,
    Permission,
    Question,
    Dashboard,
    List,
    Panel,
}

/// What is open, without its state.
pub open spec fn kind_of(o: OverlayModel) -> OverlayKind {
    match o {
        OverlayModel::Closed => OverlayKind::Closed,
        OverlayModel::Files(_) => OverlayKind::Files,
        OverlayModel::Palette(_) => OverlayKind::Palette,
        OverlayModel::TextInput(_) => OverlayKind::TextInput,
        OverlayModel::Search(_) => OverlayKind::Search,
        OverlayModel::Mention(_) => OverlayKind::Mention,
        OverlayModel::Permission(_) => OverlayKind::Permission,
        OverlayModel::Question(_) => OverlayKind::Question,
        OverlayModel::Dashboard => OverlayKind::Dashboard,
        OverlayModel::Sessions => OverlayKind::List,
        OverlayModel::Models => OverlayKind::List,
        OverlayModel::Agents => OverlayKind::List,
        OverlayModel::Help => OverlayKind::Panel,
        OverlayModel::WorkflowStatus => OverlayKind::Panel,
    }
}

/// The reply that a key stands for in a permission prompt.
pub open spec fn reply_word(key: KeyEvent) -> Option<Seq<char>> {
    if key.code == KeyCode::Char('y') {
        Some("once"@)
    } else if key.code == KeyCode::Char('a') {
        Some("always"@)
    } else if key.code == KeyCode::Char('n') {
        Some("reject"@)
    } else {
        None
    }
}

impl QuestionSessionModel {
    /// Whether the current selection can be confirmed: without one it is up to the
    /// question whether the highlighted option stands for it.
    pub open spec fn can_confirm(self) -> bool {
        self.cursor.len() > 0 || self.has_question()
    }

    /// Whether a key can be taken: one that reads the question needs one.
    pub open spec fn can_take(self, key: KeyEvent) -> bool {
        match key.code {
            KeyCode::Up | KeyCode::Down => self.has_question(),
            KeyCode::Char(c) => c == ' ' ==> self.has_question(),
            KeyCode::Enter => self.can_confirm(),
            _ => true,
        }
    }

    /// With the highlighted option chosen, where a single choice is due and none
    /// was made.
    pub open spec fn defaulted(self) -> QuestionSessionModel {
        if self.cursor.len() == 0 && !self.question().multiple {
            self.toggled(self.highlight)
        } else {
            self
        }
    }
}

impl DashboardStateModel {
    /// With `c` typed into the filter, which applies at once, or into the title.
    pub open spec fn mode_typed(self, c: char) -> DashboardStateModel {
        match self.mode {
            DashboardModeModel::Filter => self.filtered(self.filter.push(c)),
            DashboardModeModel::NewSession(t) => DashboardStateModel {
                mode: DashboardModeModel::NewSession(t.push(c)),
                ..self
            },
            DashboardModeModel::Browsing => self,
        }
    }

    /// With the last character of the filter or of the title removed.
    pub open spec fn mode_untyped(self) -> DashboardStateModel {
        match self.mode {
            DashboardModeModel::Filter => self.filtered(shortened(self.filter)),
            DashboardModeModel::NewSession(t) => DashboardStateModel {
                mode: DashboardModeModel::NewSession(shortened(t)),
                ..self
            },
            DashboardModeModel::Browsing => self,
        }
    }

    /// After Enter: the filter stays as it is. A title waits for the session to be
    /// created.
    pub open spec fn mode_confirmed(self) -> DashboardStateModel {
        if self.mode is Filter {
            DashboardStateModel { mode: DashboardModeModel::Browsing, ..self }
        } else {
            self
        }
    }

    /// What Enter asks of the loop: to create the session, where the title is not
    /// blank.
    pub open spec fn mode_wish(self) -> Option<MsgModel> {
        match self.mode {
            DashboardModeModel::NewSession(t) => if trimmed(t).len() == 0 {
                None
            } else {
                Some(MsgModel::CreateDashboardSession(trimmed(t)))
            },
            _ => None,
        }
    }

    /// After Esc: a filter is cleared, a title is given up.
    pub open spec fn mode_left(self) -> DashboardStateModel {
        DashboardStateModel {
            mode: DashboardModeModel::Browsing,
            ..if self.mode is Filter {
                self.filtered(Seq::empty())
            } else {
                self
            }
        }
    }

    /// After a key in the filter or title line.
    pub open spec fn after_mode_key(self, key: KeyEvent) -> DashboardStateModel {
        match key.code {
            KeyCode::Esc => self.mode_left(),
            KeyCode::Enter => self.mode_confirmed(),
            KeyCode::Backspace => self.mode_untyped(),
            KeyCode::Char(c) => if types(key) {
                self.mode_typed(c)
            } else {
                self
            },
            _ => self,
        }
    }

    /// What a key in the title line asks of the loop.
    pub open spec fn mode_request(self, key: KeyEvent) -> Option<MsgModel> {
        if key.code == KeyCode::Enter {
            self.mode_wish()
        } else {
            None
        }
    }
}

impl AppModel {
    /// With another editor state.
    pub open spec fn with_input(self, e: EditorModel) -> AppModel {
        AppModel { input: e, ..self }
    }

    /// With an ask in another state.
    pub open spec fn with_question(self, q: QuestionSessionModel) -> AppModel {
        self.showing(OverlayModel::Question(q))
    }

    /// After a chord that works everywhere.
    #[verifier::opaque]
    pub open spec fn chorded(self, key: KeyEvent) -> AppModel {
        if is_ctrl(key, 'z') {
            AppModel { pending_action: Some(LoopAction::Suspend), ..self }
        } else if is_ctrl(key, 'k') && self.overlay is Closed {
            self.with_palette(PaletteStateModel::blank())
        } else if is_ctrl(key, 'f') && self.overlay is Closed {
            self.with_files(FilePickerStateModel::loading())
        } else if is_ctrl(key, 'w') {
            self.workflow_toggled()
        } else if is_ctrl(key, '_') && self.overlay is Closed {
            self.with_input(
                if key.modifiers.shift {
                    self.input.redone()
                } else {
                    self.input.undone()
                },
            )
        } else {
            self
        }
    }

    /// What a chord that works everywhere asks of the loop.
    pub open spec fn chord_request(self, key: KeyEvent) -> Option<MsgModel> {
        if is_ctrl(key, 'c') {
            Some(MsgModel::Quit)
        } else if is_ctrl(key, 'n') {
            Some(MsgModel::NewSession)
        } else if is_ctrl(key, 'x') {
            match self.workflow {
                Some(w) => if w.done is None {
                    Some(MsgModel::CancelWorkflow(w.session))
                } else {
                    None
                },
                None => None,
            }
        } else {
            None
        }
    }

    /// After a key in the file picker.
    #[verifier::opaque]
    pub open spec fn in_files(self, key: KeyEvent) -> AppModel {
        match key.code {
            KeyCode::Esc => self.closed(),
            KeyCode::Enter => self.file_toggled(),
            KeyCode::Up => self.file_moved(-1),
            KeyCode::Down => self.file_moved(1),
            KeyCode::Backspace => self.file_untyped(),
            KeyCode::Char(c) => if types(key) {
                self.file_typed(c)
            } else {
                self
            },
            _ => self,
        }
    }

    /// After a key in the palette.
    #[verifier::opaque]
    pub open spec fn in_palette(self, key: KeyEvent) -> AppModel {
        match key.code {
            KeyCode::Esc => self.closed(),
            KeyCode::Enter => self.palette_taken(),
            KeyCode::Up => self.palette_moved(-1),
            KeyCode::Down => self.palette_moved(1),
            KeyCode::Backspace => self.palette_untyped(),
            KeyCode::Char(c) => if types(key) {
                self.palette_typed(c)
            } else {
                self
            },
            _ => self,
        }
    }

    /// Whether the text box completes.
    pub open spec fn completes(self) -> bool {
        self.overlay matches OverlayModel::TextInput(t) && t.mention is Some
    }

    /// After a key in the text box. While it completes, the arrows choose, Tab and
    /// Enter accept, and Esc ends the completion only.
    #[verifier::opaque]
    pub open spec fn in_text(self, key: KeyEvent) -> AppModel {
        match key.code {
            KeyCode::Up => if self.completes() {
                self.text_mention_moved(-1)
            } else {
                self
            },
            KeyCode::Down => if self.completes() {
                self.text_mention_moved(1)
            } else {
                self
            },
            KeyCode::Tab => if self.completes() {
                self.text_mention_accepted()
            } else {
                self
            },
            KeyCode::Enter => if self.completes() {
                self.text_mention_accepted()
            } else {
                self.text_taken()
            },
            KeyCode::Esc => if self.completes() {
                self.text_mention_cleared()
            } else {
                self.closed()
            },
            KeyCode::Backspace => self.text_untyped(),
            KeyCode::Char(c) => if types(key) {
                self.text_typed(c)
            } else {
                self
            },
            _ => self,
        }
    }

    /// After a key in transcript search. `n` and `N` go to the next and the
    /// previous match and cannot be typed.
    #[verifier::opaque]
    pub open spec fn in_search(self, key: KeyEvent) -> AppModel {
        match key.code {
            KeyCode::Esc => self.closed(),
            KeyCode::Backspace => self.search_untyped(),
            KeyCode::Char(c) => if !types(key) {
                self
            } else if c == 'n' {
                self.search_moved(1)
            } else if c == 'N' {
                self.search_moved(-1)
            } else {
                self.search_typed(c)
            },
            _ => self,
        }
    }

    /// After a key while the editor completes inline. Accepting never submits; a
    /// line break or a space ends the completion, and so does any other key.
    #[verifier::opaque]
    pub open spec fn in_mention(self, key: KeyEvent, time: EditTime) -> AppModel {
        match key.code {
            KeyCode::Up => self.mention_moved(-1),
            KeyCode::Down => self.mention_moved(1),
            KeyCode::Enter => if key.modifiers.shift {
                self.with_input(self.input.broken(time)).closed()
            } else {
                self.mention_accepted(time)
            },
            KeyCode::Tab => self.mention_accepted(time),
            KeyCode::Backspace => self.with_input(self.input.backspaced(time)).mention_edited(),
            KeyCode::Char(c) => if c == 'j' && key.modifiers.control {
                self.with_input(self.input.broken(time)).closed()
            } else if c == ' ' {
                self.with_input(self.input.inserted(' ', time)).closed()
            } else if types(key) {
                self.with_input(self.input.inserted(c, time)).mention_edited()
            } else {
                self.closed()
            },
            _ => self.closed(),
        }
    }

    /// After a key in a permission prompt.
    #[verifier::opaque]
    pub open spec fn in_permission(self, key: KeyEvent) -> AppModel {
        if key.code == KeyCode::Esc || reply_word(key) is Some {
            self.closed()
        } else {
            self
        }
    }

    /// What a key in a permission prompt asks of the loop.
    pub open spec fn permission_request(self, key: KeyEvent) -> Option<MsgModel> {
        match (self.overlay, reply_word(key)) {
            (OverlayModel::Permission(p), Some(reply)) => Some(
                MsgModel::PermissionReply { id: p.id, reply },
            ),
            _ => None,
        }
    }

    /// After a key in a question prompt. Enter chooses and confirms a single
    /// choice in one go.
    #[verifier::opaque]
    pub open spec fn in_question(self, key: KeyEvent) -> AppModel {
        match self.overlay {
            OverlayModel::Question(q) => match key.code {
                KeyCode::Esc => self.closed(),
                KeyCode::Up => self.with_question(q.highlighted(-1)),
                KeyCode::Down => self.with_question(q.highlighted(1)),
                KeyCode::Char(c) => if c == ' ' {
                    self.with_question(q.toggled(q.highlight))
                } else {
                    self
                },
                KeyCode::Enter => if q.defaulted().confirm_completes() {
                    self.closed()
                } else {
                    self.with_question(q.defaulted().confirmed())
                },
                _ => self,
            },
            _ => self,
        }
    }

    /// What a key in a question prompt asks of the loop.
    pub open spec fn question_request(self, key: KeyEvent) -> Option<MsgModel> {
        match self.overlay {
            OverlayModel::Question(q) => match key.code {
                KeyCode::Esc => Some(
                    MsgModel::QuestionReply { id: q.id, reply: QuestionReplyKindModel::Cancelled },
                ),
                KeyCode::Enter => if q.defaulted().confirm_completes() {
                    Some(
                        MsgModel::QuestionReply {
                            id: q.id,
                            reply: QuestionReplyKindModel::Answered(
                                q.defaulted().confirmed().answers,
                            ),
                        },
                    )
                } else {
                    None
                },
                _ => None,
            },
            _ => None,
        }
    }

    /// After a key in the dashboard's filter or title line.
    #[verifier::opaque]
    pub open spec fn in_dashboard_mode(self, key: KeyEvent) -> AppModel {
        self.with_dashboard(self.dashboard.after_mode_key(key))
    }

    /// What a key in the dashboard's title line asks of the loop.
    pub open spec fn dashboard_mode_request(self, key: KeyEvent) -> Option<MsgModel> {
        self.dashboard.mode_request(key)
    }

    /// With the dashboard's selection moved, and the peek of the row it is now on.
    pub open spec fn dashboard_moved(self, delta: int) -> AppModel {
        let d = self.dashboard;
        if d.rows.len() == 0 {
            self
        } else {
            let next = DashboardStateModel {
                selected: stepped(d.selected as int, delta, d.rows.len() as int) as usize,
                ..d
            };
            self.with_dashboard(DashboardStateModel { peek: next.first_peek(), ..next })
        }
    }

    /// After a key while browsing the dashboard.
    #[verifier::opaque]
    pub open spec fn in_dashboard(self, key: KeyEvent) -> AppModel {
        let d = self.dashboard;
        match key.code {
            KeyCode::Esc => self.closed(),
            KeyCode::Up => self.dashboard_moved(-1),
            KeyCode::Down => self.dashboard_moved(1),
            KeyCode::Enter => if d.selected_id() is Some {
                self.closed()
            } else {
                self
            },
            KeyCode::Char(c) => if c == '/' {
                self.with_dashboard(DashboardStateModel { mode: DashboardModeModel::Filter, ..d })
            } else if c == 'c' {
                self.with_dashboard(
                    DashboardStateModel { mode: DashboardModeModel::NewSession(Seq::empty()), ..d },
                )
            } else {
                self
            },
            _ => self,
        }
    }

    /// The reply to the selected row's permission ask.
    pub open spec fn dashboard_reply(self, reply: Seq<char>) -> Option<MsgModel> {
        let d = self.dashboard;
        if d.selected < d.rows.len() {
            match d.rows[d.selected as int].status {
                DashboardStatusModel::AwaitingPermission(p) => Some(
                    MsgModel::PermissionReply { id: p.id, reply },
                ),
                _ => None,
            }
        } else {
            None
        }
    }

    /// The answer `index` to the selected row's question, where it has such an
    /// option.
    pub open spec fn dashboard_answer(self, index: int) -> Option<MsgModel> {
        let d = self.dashboard;
        if d.selected < d.rows.len() {
            match d.rows[d.selected as int].status {
                DashboardStatusModel::AwaitingQuestion(q) => if q.questions.len() > 0 && index
                    < q.questions[0].options.len() {
                    Some(
                        MsgModel::QuestionReply {
                            id: q.id,
                            reply: QuestionReplyKindModel::Answered(seq![seq![index as usize]]),
                        },
                    )
                } else {
                    None
                },
                _ => None,
            }
        } else {
            None
        }
    }

    /// What a key while browsing the dashboard asks of the loop.
    pub open spec fn dashboard_request(self, key: KeyEvent) -> Option<MsgModel> {
        let d = self.dashboard;
        if reply_word(key) is Some && d.peek is Permission {
            self.dashboard_reply(reply_word(key)->0)
        } else {
            match key.code {
                KeyCode::Enter => match d.selected_id() {
                    Some(id) => Some(MsgModel::SwitchSession(id)),
                    None => None,
                },
                KeyCode::Char(c) => if '1' <= c <= '9' && d.peek is Question {
                    self.dashboard_answer(c as int - '1' as int)
                } else if c == 'p' {
                    Some(MsgModel::DashboardTogglePin)
                } else {
                    None
                },
                _ => None,
            }
        }
    }

    /// After a key in a list.
    #[verifier::opaque]
    pub open spec fn in_list(self, key: KeyEvent) -> AppModel {
        match key.code {
            KeyCode::Esc => self.closed(),
            KeyCode::Up => self.list_moved(-1),
            KeyCode::Down => self.list_moved(1),
            KeyCode::Enter => if self.list_len() > 0 {
                self.list_taken()
            } else {
                self
            },
            _ => self,
        }
    }

    /// What a key in a list asks of the loop.
    pub open spec fn in_list_request(self, key: KeyEvent) -> Option<MsgModel> {
        if key.code == KeyCode::Enter && self.list_len() > 0 {
            self.list_request()
        } else {
            None
        }
    }

    /// Whether an `@` typed now begins a token.
    pub open spec fn begins_token(self) -> bool {
        match self.input.prev_char() {
            Some(c) => is_space(c),
            None => true,
        }
    }

    /// After Enter in the editor: it submits, or, where nothing was typed, shows or
    /// hides the selected tool's detail. While a turn runs, nothing is submitted.
    #[verifier::opaque]
    pub open spec fn entered(self) -> AppModel {
        if self.input.is_empty() {
            if self.tool_cursor is Some {
                self.tool_unfolded()
            } else {
                self
            }
        } else if runs_turn(self.status) {
            self.flashed("turn in flight — Esc to interrupt it first"@, FlashKind::Warning)
        } else {
            self.with_input(EditorModel::blank())
        }
    }

    /// After a character in the editor.
    #[verifier::opaque]
    pub open spec fn typed(self, key: KeyEvent, c: char, time: EditTime) -> AppModel {
        let ctrl = key.modifiers.control;
        if c == 'j' && ctrl {
            self.with_input(self.input.broken(time))
        } else if c == '?' && self.input.is_empty() {
            self.showing(OverlayModel::Help)
        } else if c == '/' && self.input.is_empty() {
            self.with_search(SearchStateModel { query: Seq::empty(), current: 0 })
        } else if (c == 't' || c == 'o') && ctrl {
            self
        } else if c == 'g' && ctrl {
            self.picking(OverlayModel::Agents)
        } else if c == 'y' && (ctrl || (types(key) && self.input.is_empty())) {
            AppModel { pending_action: Some(LoopAction::Yank), ..self }
        } else if c == '@' && types(key) && self.begins_token() {
            self.with_input(self.input.inserted('@', time)).mention_opened()
        } else {
            self.with_input(self.input.inserted(c, time))
        }
    }

    /// After a key in the editor.
    #[verifier::opaque]
    pub open spec fn in_editor(self, key: KeyEvent, time: EditTime) -> AppModel {
        match key.code {
            KeyCode::Enter => if key.modifiers.shift {
                self.with_input(self.input.broken(time))
            } else {
                self.entered()
            },
            KeyCode::Esc => if !runs_turn(self.status) && self.input.is_empty()
                && self.tool_cursor is Some {
                AppModel { tool_cursor: None, scroll: 0, ..self }
            } else {
                self
            },
            KeyCode::Up => if self.input.is_empty() {
                self.prev_tool()
            } else {
                self.with_input(self.input.vertical(inner_width(self.width), -1))
            },
            KeyCode::Down => if self.input.is_empty() {
                self.next_tool()
            } else {
                self.with_input(self.input.vertical(inner_width(self.width), 1))
            },
            KeyCode::Backspace => self.with_input(self.input.backspaced(time)),
            KeyCode::Left => self.with_input(self.input.left()),
            KeyCode::Right => self.with_input(self.input.right()),
            KeyCode::Home => self.with_input(self.input.home()),
            KeyCode::End => if self.input.is_empty() {
                self
            } else {
                self.with_input(self.input.end())
            },
            KeyCode::Char(c) => self.typed(key, c, time),
            _ => self,
        }
    }

    /// What a key in the editor asks of the loop.
    pub open spec fn editor_request(self, key: KeyEvent) -> Option<MsgModel> {
        match key.code {
            KeyCode::Enter => if !key.modifiers.shift && !self.input.is_empty() && !runs_turn(
                self.status,
            ) {
                Some(MsgModel::Submitted(self.input.text()))
            } else {
                None
            },
            KeyCode::Esc => if runs_turn(self.status) {
                match self.session_id {
                    Some(id) => Some(MsgModel::InterruptTurn(id)),
                    None => None,
                }
            } else {
                None
            },
            KeyCode::BackTab => Some(MsgModel::CyclePermissionMode),
            KeyCode::PageUp => Some(MsgModel::ScrollUp),
            KeyCode::PageDown => Some(MsgModel::ScrollDown),
            KeyCode::End => if self.input.is_empty() {
                Some(MsgModel::ScrollBottom)
            } else {
                None
            },
            KeyCode::Char(c) => if c == 't' && key.modifiers.control {
                Some(MsgModel::ToggleTool)
            } else if c == 'o' && key.modifiers.control {
                Some(MsgModel::ToggleTodos)
            } else {
                None
            },
            _ => None,
        }
    }

    /// After a key, where neither the splash shows nor the key is a chord.
    pub open spec fn keyed_by_kind(self, kind: OverlayKind, key: KeyEvent, time: EditTime) -> AppModel {
        match kind {
            OverlayKind::Closed => self.in_editor(key, time),
            OverlayKind::Files => self.in_files(key),
            OverlayKind::Palette => self.in_palette(key),
            OverlayKind::TextInput => self.in_text(key),
            OverlayKind::Search => self.in_search(key),
            OverlayKind::Mention => self.in_mention(key, time),
            OverlayKind::Permission => self.in_permission(key),
            OverlayKind::Question => self.in_question(key),
            OverlayKind::Dashboard => if self.dashboard.mode is Browsing {
                self.in_dashboard(key)
            } else {
                self.in_dashboard_mode(key)
            },
            OverlayKind::List => self.in_list(key),
            OverlayKind::Panel => if key.code == KeyCode::Esc {
                self.closed()
            } else {
                self
            },
        }
    }

    /// What a key asks of the loop, where neither the splash shows nor the key is
    /// a chord.
    pub open spec fn request_by_kind(self, kind: OverlayKind, key: KeyEvent) -> Option<MsgModel> {
        match kind {
            OverlayKind::Closed => self.editor_request(key),
            OverlayKind::Palette => if key.code == KeyCode::Enter {
                self.palette_request()
            } else {
                None
            },
            OverlayKind::TextInput => if key.code == KeyCode::Enter && !self.completes() {
                self.text_request()
            } else {
                None
            },
            OverlayKind::Permission => self.permission_request(key),
            OverlayKind::Question => self.question_request(key),
            OverlayKind::Dashboard => if self.dashboard.mode is Browsing {
                self.dashboard_request(key)
            } else {
                self.dashboard_mode_request(key)
            },
            OverlayKind::List => self.in_list_request(key),
            _ => None,
        }
    }

    /// Whether a key finds a question, where it reads that of an open ask.
    pub open spec fn can_answer(self, key: KeyEvent) -> bool {
        if self.splash is Some || is_chord(key) {
            true
        } else {
            match self.overlay {
                OverlayModel::Question(q) => q.can_take(key),
                _ => true,
            }
        }
    }

    /// Whether a key can be taken now.
    pub open spec fn takes(self, key: KeyEvent) -> bool {
        self.wf() && self.can_answer(key)
    }

    /// After a key at a given time. The splash swallows
    /// the key that ends it.
    pub open spec fn keyed(self, key: KeyEvent, time: EditTime) -> AppModel {
        if self.splash is Some {
            AppModel { splash: None, ..self }
        } else if is_chord(key) {
            self.chorded(key)
        } else {
            self.keyed_by_kind(kind_of(self.overlay), key, time)
        }
    }

    /// What a key asks of the loop.
    pub open spec fn key_request(self, key: KeyEvent) -> Option<MsgModel> {
        if self.splash is Some {
            None
        } else if is_chord(key) {
            self.chord_request(key)
        } else {
            self.request_by_kind(kind_of(self.overlay), key)
        }
    }
}

/// Whether a key is the given character with control held.
fn ctrl(key: KeyEvent, c: char) -> (r: bool)
    ensures
        r == is_ctrl(key, c),
{
    key.code == KeyCode::Char(c) && key.modifiers.control
}

/// Whether a key types a character.
fn plain(key: KeyEvent) -> (r: bool)
    ensures
        r == types(key),
{
    !key.modifiers.control && !key.modifiers.alt
}

/// Whether a key is one of the chords that work everywhere.
fn chord(key: KeyEvent) -> (r: bool)
    ensures
        r == is_chord(key),
{
    ctrl(key, 'c') || ctrl(key, 'n') || ctrl(key, 'z') || ctrl(key, 'k') || ctrl(key, 'f') || ctrl(
        key,
        'x',
    ) || ctrl(key, 'w') || ctrl(key, '_')
}

/// The reply that a key stands for in a permission prompt.
fn reply_for(key: KeyEvent) -> (r: Option<&'static str>)
    ensures
        crate::client::opt_text(r) == reply_word(key),
{
    match key.code {
        KeyCode::Char('y') => Some("once"),
        KeyCode::Char('a') => Some("always"),
        KeyCode::Char('n') => Some("reject"),
        _ => None,
    }
}

impl QuestionSession {
    /// Chooses the highlighted option, where a single choice is due and none was
    /// made.
    fn choose_default(&mut self)
        requires
            old(self).deep_view().can_confirm(),
        ensures
            final(self).deep_view() == old(self).deep_view().defaulted(),
    {
        if self.cursor.len() == 0 && !self.current_question_is_multiple() {
            let i: usize = self.highlight;
            self.toggle(i);
        }
    }
}

impl DashboardState {
    /// A key in the filter or title line.
    fn mode_key(&mut self, key: KeyEvent) -> (r: Option<Msg>)
        ensures
            final(self).deep_view() == old(self).deep_view().after_mode_key(key),
            r.deep_view() == old(self).deep_view().mode_request(key),
    {
        match key.code {
            KeyCode::Esc => {
                if matches!(self.mode, DashboardMode::Filter) {
                    self.set_filter(String::new());
                }
                self.mode = DashboardMode::Browsing;
                None
            },
            KeyCode::Enter => self.confirm_mode(),
            KeyCode::Backspace => {
                self.mode_backspace();
                None
            },
            KeyCode::Char(c) => {
                if plain(key) {
                    self.mode_char(c);
                }
                None
            },
            _ => None,
        }
    }

    /// Types `c` into the filter or title line.
    fn mode_char(&mut self, c: char)
        ensures
            final(self).deep_view() == old(self).deep_view().mode_typed(c),
    {
        match &mut self.mode {
            DashboardMode::Filter => {
                let mut filter = self.filter.clone();
                push_char(&mut filter, c);
                self.set_filter(filter);
            },
            DashboardMode::NewSession(title) => {
                push_char(title, c);
            },
            DashboardMode::Browsing => {},
        }
    }

    /// Removes the last character of the filter or title line.
    fn mode_backspace(&mut self)
        ensures
            final(self).deep_view() == old(self).deep_view().mode_untyped(),
    {
        match &mut self.mode {
            DashboardMode::Filter => {
                let mut filter = self.filter.clone();
                pop_char(&mut filter);
                self.set_filter(filter);
            },
            DashboardMode::NewSession(title) => {
                pop_char(title);
            },
            DashboardMode::Browsing => {},
        }
    }

    /// Enter in the filter or title line. The filter applies already, so it just
    /// stays; a title that is not blank asks for the session.
    fn confirm_mode(&mut self) -> (r: Option<Msg>)
        ensures
            final(self).deep_view() == old(self).deep_view().mode_confirmed(),
            r.deep_view() == old(self).deep_view().mode_wish(),
    {
        let mut out: Option<Msg> = None;
        let mut filter: bool = false;
        match &self.mode {
            DashboardMode::Filter => {
                filter = true;
            },
            DashboardMode::NewSession(title) => {
                let t = trim(title.as_str());
                if !t.as_str().is_empty() {
                    out = Some(Msg::CreateDashboardSession(t));
                }
            },
            DashboardMode::Browsing => {},
        }
        if filter {
            self.mode = DashboardMode::Browsing;
        }
        out
    }
}

/// Copies of lists of numbers.
pub(crate) fn copy_answers(v: &Vec<Vec<usize>>) -> (r: Vec<Vec<usize>>)
    ensures
        r.deep_view() == v.deep_view(),
{
    let ghost all = v.deep_view();
    let mut out: Vec<Vec<usize>> = Vec::new();
    let mut i: usize = 0;
    while i < v.len()
        invariant
            i <= v@.len(),
            all == v.deep_view(),
            out.deep_view() == all.take(i as int),
        decreases v@.len() - i,
    {
        let ghost before = out.deep_view();
        let mut one: Vec<usize> = Vec::new();
        let mut k: usize = 0;
        while k < v[i].len()
            invariant
                i < v@.len(),
                k <= v@[i as int]@.len(),
                one@ == v@[i as int]@.take(k as int),
            decreases v@[i as int]@.len() - k,
        {
            one.push(v[i][k]);
            assert(v@[i as int]@.take(k + 1) =~= v@[i as int]@.take(k as int).push(
                v@[i as int]@[k as int],
            ));
            k += 1;
        }
        proof {
            assert(one@ =~= v@[i as int]@);
            assert(one.deep_view() =~= v@[i as int].deep_view());
        }
        out.push(one);
        proof {
            assert(out.deep_view() =~= before.push(v@[i as int].deep_view()));
            assert(all.take(i + 1) =~= before.push(v@[i as int].deep_view()));
        }
        i += 1;
    }
    assert(all.take(i as int) =~= all);
    out
}

impl App {
    /// What is open.
    fn overlay_kind(&self) -> (r: OverlayKind)
        ensures
            r == kind_of(self.deep_view().overlay),
    {
        reveal(<App as DeepView>::deep_view);
        match &self.overlay {
            Overlay::Closed => OverlayKind::Closed,
            Overlay::Files(_) => OverlayKind::Files,
            Overlay::Palette(_) => OverlayKind::Palette,
            Overlay::TextInput(_) => OverlayKind::TextInput,
            Overlay::Search(_) => OverlayKind::Search,
            Overlay::Mention(_) => OverlayKind::Mention,
            Overlay::Permission(_) => OverlayKind::Permission,
            Overlay::Question(_) => OverlayKind::Question,
            Overlay::Dashboard => OverlayKind::Dashboard,
            Overlay::Sessions => OverlayKind::List,
            Overlay::Models => OverlayKind::List,
            Overlay::Agents => OverlayKind::List,
            Overlay::Help => OverlayKind::Panel,
            Overlay::WorkflowStatus => OverlayKind::Panel,
        }
    }

    /// Leaves a side effect to the loop.
    fn leave_to_loop(&mut self, action: LoopAction)
        ensures
            final(self).deep_view() == (AppModel {
                pending_action: Some(action),
                ..old(self).deep_view()
            }),
    {
        reveal(<App as DeepView>::deep_view);
        self.pending_action = Some(action);
    }

    fn show_help(&mut self)
        ensures
            final(self).deep_view() == old(self).deep_view().showing(OverlayModel::Help),
    {
        reveal(<App as DeepView>::deep_view);
        self.overlay = Overlay::Help;
    }

    /// Undoes or redoes in the editor.
    fn step_history(&mut self, forward: bool)
        requires
            old(self).deep_view().input.wf(),
        ensures
            final(self).deep_view() == old(self).deep_view().with_input(
                if forward {
                    old(self).deep_view().input.redone()
                } else {
                    old(self).deep_view().input.undone()
                },
            ),
    {
        reveal(<App as DeepView>::deep_view);
        if forward {
            self.input.redo();
        } else {
            self.input.undo();
        }
    }

    /// The session of the workflow that still runs.
    fn running_workflow(&self) -> (r: Option<String>)
        ensures
            r.deep_view() == (match self.deep_view().workflow {
                Some(w) => if w.done is None {
                    Some(w.session)
                } else {
                    None
                },
                None => None,
            }),
    {
        reveal(<App as DeepView>::deep_view);
        match &self.workflow {
            Some(w) => {
                if w.done.is_none() {
                    Some(w.session.clone())
                } else {
                    None
                }
            },
            None => None,
        }
    }

    /// A chord that works everywhere.
    fn chord_key(&mut self, key: KeyEvent) -> (r: Option<Msg>)
        requires
            old(self).deep_view().input.wf(),
            is_chord(key),
        ensures
            final(self).deep_view() == old(self).deep_view().chorded(key),
            r.deep_view() == old(self).deep_view().chord_request(key),
    {
        reveal(AppModel::chorded);
        let closed: bool = self.overlay_kind() == OverlayKind::Closed;
        if ctrl(key, 'c') {
            Some(Msg::Quit)
        } else if ctrl(key, 'n') {
            Some(Msg::NewSession)
        } else if ctrl(key, 'z') {
            self.leave_to_loop(LoopAction::Suspend);
            None
        } else if ctrl(key, 'k') {
            if closed {
                self.open_palette();
            }
            None
        } else if ctrl(key, 'f') {
            if closed {
                self.open_file_picker();
            }
            None
        } else if ctrl(key, 'x') {
            match self.running_workflow() {
                Some(session) => Some(Msg::CancelWorkflow(session)),
                None => None,
            }
        } else if ctrl(key, 'w') {
            self.toggle_workflow_status();
            None
        } else {
            if closed {
                self.step_history(key.modifiers.shift);
            }
            None
        }
    }

    fn files_key(&mut self, key: KeyEvent)
        ensures
            final(self).deep_view() == old(self).deep_view().in_files(key),
    {
        reveal(AppModel::in_files);
        match key.code {
            KeyCode::Esc => self.close_overlay(),
            KeyCode::Enter => self.file_toggle(),
            KeyCode::Up => self.file_move(-1),
            KeyCode::Down => self.file_move(1),
            KeyCode::Backspace => self.file_backspace(),
            KeyCode::Char(c) => {
                if plain(key) {
                    self.file_input(c);
                }
            },
            _ => {},
        }
    }

    fn palette_key(&mut self, key: KeyEvent) -> (r: Option<Msg>)
        ensures
            final(self).deep_view() == old(self).deep_view().in_palette(key),
            r.deep_view() == (if key.code == KeyCode::Enter {
                old(self).deep_view().palette_request()
            } else {
                None
            }),
    {
        reveal(AppModel::in_palette);
        match key.code {
            KeyCode::Esc => self.close_overlay(),
            KeyCode::Enter => {
                return self.palette_confirm();
            },
            KeyCode::Up => self.palette_move(-1),
            KeyCode::Down => self.palette_move(1),
            KeyCode::Backspace => self.palette_backspace(),
            KeyCode::Char(c) => {
                if plain(key) {
                    self.palette_input(c);
                }
            },
            _ => {},
        }
        None
    }

    /// Whether the text box completes.
    fn text_completes(&self) -> (r: bool)
        ensures
            r == self.deep_view().completes(),
    {
        reveal(<App as DeepView>::deep_view);
        match &self.overlay {
            Overlay::TextInput(s) => s.mention.is_some(),
            _ => false,
        }
    }

    fn text_key(&mut self, key: KeyEvent) -> (r: Option<Msg>)
        requires
            old(self).deep_view().overlay_ok(),
        ensures
            final(self).deep_view() == old(self).deep_view().in_text(key),
            r.deep_view() == (if key.code == KeyCode::Enter && !old(self).deep_view().completes() {
                old(self).deep_view().text_request()
            } else {
                None
            }),
    {
        reveal(AppModel::in_text);
        let completes: bool = self.text_completes();
        match key.code {
            KeyCode::Up => {
                if completes {
                    self.text_input_mention_move(-1);
                }
            },
            KeyCode::Down => {
                if completes {
                    self.text_input_mention_move(1);
                }
            },
            KeyCode::Tab => {
                if completes {
                    self.text_input_mention_accept();
                }
            },
            KeyCode::Enter => {
                if completes {
                    self.text_input_mention_accept();
                } else {
                    return self.text_input_confirm();
                }
            },
            KeyCode::Esc => {
                if completes {
                    self.text_input_clear_mention();
                } else {
                    self.close_overlay();
                }
            },
            KeyCode::Backspace => self.text_input_backspace(),
            KeyCode::Char(c) => {
                if plain(key) {
                    self.text_input_char(c);
                }
            },
            _ => {},
        }
        None
    }

    fn search_key(&mut self, key: KeyEvent)
        ensures
            final(self).deep_view() == old(self).deep_view().in_search(key),
    {
        reveal(AppModel::in_search);
        match key.code {
            KeyCode::Esc => self.close_overlay(),
            KeyCode::Backspace => self.search_backspace(),
            KeyCode::Char(c) => {
                if plain(key) {
                    if c == 'n' {
                        self.search_move(1);
                    } else if c == 'N' {
                        self.search_move(-1);
                    } else {
                        self.search_input(c);
                    }
                }
            },
            _ => {},
        }
    }

    fn type_into_editor(&mut self, c: char, time: EditTime)
        requires
            old(self).deep_view().input.wf(),
        ensures
            final(self).deep_view() == old(self).deep_view().with_input(
                old(self).deep_view().input.inserted(c, time),
            ),
            final(self).deep_view().input.wf(),
            final(self).input.wf(),
    {
        reveal(<App as DeepView>::deep_view);
        self.input.insert_at(c, time);
    }

    fn break_editor_line(&mut self, time: EditTime)
        requires
            old(self).deep_view().input.wf(),
        ensures
            final(self).deep_view() == old(self).deep_view().with_input(
                old(self).deep_view().input.broken(time),
            ),
    {
        reveal(<App as DeepView>::deep_view);
        self.input.newline_at(time);
    }

    fn editor_backspace(&mut self, time: EditTime)
        requires
            old(self).deep_view().input.wf(),
        ensures
            final(self).deep_view() == old(self).deep_view().with_input(
                old(self).deep_view().input.backspaced(time),
            ),
            final(self).deep_view().input.wf(),
            final(self).input.wf(),
    {
        reveal(<App as DeepView>::deep_view);
        self.input.backspace_at(time);
    }

    /// The editor's own validity, from the state's.
    fn check_input(&self)
        requires
            self.deep_view().input.wf(),
        ensures
            self.input.wf(),
    {
        reveal(<App as DeepView>::deep_view);
    }

    fn mention_key(&mut self, key: KeyEvent, time: EditTime)
        requires
            old(self).deep_view().input.wf(),
        ensures
            final(self).deep_view() == old(self).deep_view().in_mention(key, time),
    {
        reveal(AppModel::in_mention);
        self.check_input();
        match key.code {
            KeyCode::Up => self.mention_move(-1),
            KeyCode::Down => self.mention_move(1),
            KeyCode::Enter => {
                if key.modifiers.shift {
                    self.break_editor_line(time);
                    self.close_overlay();
                } else {
                    self.mention_accept_at(time);
                }
            },
            KeyCode::Tab => self.mention_accept_at(time),
            KeyCode::Backspace => {
                self.editor_backspace(time);
                self.mention_after_edit();
            },
            KeyCode::Char(c) => {
                if c == 'j' && key.modifiers.control {
                    self.break_editor_line(time);
                    self.close_overlay();
                } else if c == ' ' {
                    self.type_into_editor(' ', time);
                    self.close_overlay();
                } else if plain(key) {
                    self.type_into_editor(c, time);
                    self.mention_after_edit();
                } else {
                    self.close_overlay();
                }
            },
            _ => self.close_overlay(),
        }
    }

    /// The id of the permission ask that is shown.
    fn shown_permission(&self) -> (r: Option<String>)
        ensures
            r.deep_view() == (match self.deep_view().overlay {
                OverlayModel::Permission(p) => Some(p.id),
                _ => None,
            }),
    {
        reveal(<App as DeepView>::deep_view);
        match &self.overlay {
            Overlay::Permission(p) => Some(p.id.clone()),
            _ => None,
        }
    }

    fn permission_key(&mut self, key: KeyEvent) -> (r: Option<Msg>)
        ensures
            final(self).deep_view() == old(self).deep_view().in_permission(key),
            r.deep_view() == old(self).deep_view().permission_request(key),
    {
        reveal(AppModel::in_permission);
        match reply_for(key) {
            Some(reply) => {
                let id = self.shown_permission();
                self.close_overlay();
                match id {
                    Some(id) => Some(Msg::PermissionReply { id, reply: reply.to_owned() }),
                    None => None,
                }
            },
            None => {
                if key.code == KeyCode::Esc {
                    self.close_overlay();
                }
                None
            },
        }
    }

    fn move_question(&mut self, delta: i32)
        requires
            old(self).deep_view().overlay matches OverlayModel::Question(q) ==> q.has_question(),
        ensures
            final(self).deep_view() == (match old(self).deep_view().overlay {
                OverlayModel::Question(q) => old(self).deep_view().with_question(
                    q.highlighted(delta as int),
                ),
                _ => old(self).deep_view(),
            }),
    {
        reveal(<App as DeepView>::deep_view);
        if let Overlay::Question(q) = &mut self.overlay {
            q.move_highlight(delta);
        }
    }

    fn toggle_question(&mut self)
        requires
            old(self).deep_view().overlay matches OverlayModel::Question(q) ==> q.has_question(),
        ensures
            final(self).deep_view() == (match old(self).deep_view().overlay {
                OverlayModel::Question(q) => old(self).deep_view().with_question(
                    q.toggled(q.highlight),
                ),
                _ => old(self).deep_view(),
            }),
    {
        reveal(<App as DeepView>::deep_view);
        if let Overlay::Question(q) = &mut self.overlay {
            let i: usize = q.highlight;
            q.toggle(i);
        }
    }

    /// Confirms the current question. Where that answers the last one, gives the
    /// ask's id and all answers.
    fn confirm_question(&mut self) -> (r: Option<(String, Vec<Vec<usize>>)>)
        requires
            old(self).deep_view().overlay matches OverlayModel::Question(q) ==> q.can_confirm(),
        ensures
            match old(self).deep_view().overlay {
                OverlayModel::Question(q) => {
                    let d = q.defaulted();
                    &&& final(self).deep_view() == old(self).deep_view().with_question(d.confirmed())
                    &&& r.deep_view() == (if d.confirm_completes() {
                        Some((q.id, d.confirmed().answers))
                    } else {
                        None
                    })
                },
                _ => final(self).deep_view() == old(self).deep_view() && r is None,
            },
    {
        reveal(<App as DeepView>::deep_view);
        if let Overlay::Question(q) = &mut self.overlay {
            q.choose_default();
            let done: bool = q.confirm_current();
            if done {
                return Some((q.id.clone(), copy_answers(&q.answers)));
            }
        }
        None
    }

    /// The id of the question ask that is shown.
    fn shown_question(&self) -> (r: Option<String>)
        ensures
            r.deep_view() == (match self.deep_view().overlay {
                OverlayModel::Question(q) => Some(q.id),
                _ => None,
            }),
    {
        reveal(<App as DeepView>::deep_view);
        match &self.overlay {
            Overlay::Question(q) => Some(q.id.clone()),
            _ => None,
        }
    }

    fn question_key(&mut self, key: KeyEvent) -> (r: Option<Msg>)
        requires
            old(self).deep_view().overlay matches OverlayModel::Question(q) ==> q.can_take(key),
            old(self).deep_view().overlay is Question,
        ensures
            final(self).deep_view() == old(self).deep_view().in_question(key),
            r.deep_view() == old(self).deep_view().question_request(key),
    {
        reveal(AppModel::in_question);
        match key.code {
            KeyCode::Esc => {
                let id = self.shown_question();
                self.close_overlay();
                match id {
                    Some(id) => Some(
                        Msg::QuestionReply { id, reply: QuestionReplyKind::Cancelled },
                    ),
                    None => None,
                }
            },
            KeyCode::Up => {
                self.move_question(-1);
                None
            },
            KeyCode::Down => {
                self.move_question(1);
                None
            },
            KeyCode::Char(c) => {
                if c == ' ' {
                    self.toggle_question();
                }
                None
            },
            KeyCode::Enter => {
                match self.confirm_question() {
                    Some((id, answers)) => {
                        self.close_overlay();
                        Some(
                            Msg::QuestionReply { id, reply: QuestionReplyKind::Answered(answers) },
                        )
                    },
                    None => None,
                }
            },
            _ => None,
        }
    }

    /// Whether the dashboard is being browsed.
    fn browses(&self) -> (r: bool)
        ensures
            r == self.deep_view().dashboard.mode is Browsing,
    {
        reveal(<App as DeepView>::deep_view);
        matches!(self.dashboard.mode, DashboardMode::Browsing)
    }

    fn dashboard_mode_key(&mut self, key: KeyEvent) -> (r: Option<Msg>)
        ensures
            final(self).deep_view() == old(self).deep_view().in_dashboard_mode(key),
            r.deep_view() == old(self).deep_view().dashboard_mode_request(key),
    {
        reveal(<App as DeepView>::deep_view);
        reveal(AppModel::in_dashboard_mode);
        self.dashboard.mode_key(key)
    }

    fn dashboard_key(&mut self, key: KeyEvent) -> (r: Option<Msg>)
        requires
            old(self).deep_view().dashboard.mode is Browsing,
        ensures
            final(self).deep_view() == old(self).deep_view().in_dashboard(key),
            r.deep_view() == old(self).deep_view().dashboard_request(key),
    {
        reveal(AppModel::in_dashboard);
        let request = self.dashboard_wish(key);
        match key.code {
            KeyCode::Esc => self.close_overlay(),
            KeyCode::Up => self.move_dashboard(-1),
            KeyCode::Down => self.move_dashboard(1),
            KeyCode::Enter => {
                if request.is_some() {
                    self.close_overlay();
                }
            },
            KeyCode::Char(c) => {
                if c == '/' {
                    self.set_dashboard_mode(DashboardMode::Filter);
                } else if c == 'c' {
                    self.set_dashboard_mode(DashboardMode::NewSession(String::new()));
                }
            },
            _ => {},
        }
        request
    }

    fn move_dashboard(&mut self, delta: i32)
        ensures
            final(self).deep_view() == old(self).deep_view().dashboard_moved(delta as int),
    {
        reveal(<App as DeepView>::deep_view);
        self.dashboard.move_selection(delta);
    }

    fn set_dashboard_mode(&mut self, mode: DashboardMode)
        ensures
            final(self).deep_view() == old(self).deep_view().with_dashboard(
                DashboardStateModel {
                    mode: mode.deep_view(),
                    ..old(self).deep_view().dashboard
                },
            ),
    {
        reveal(<App as DeepView>::deep_view);
        self.dashboard.mode = mode;
    }

    /// What a key while browsing the dashboard asks of the loop.
    fn dashboard_wish(&self, key: KeyEvent) -> (r: Option<Msg>)
        ensures
            r.deep_view() == self.deep_view().dashboard_request(key),
    {
        reveal(<App as DeepView>::deep_view);
        let asks: bool = matches!(self.dashboard.peek, DashboardPeek::Permission);
        if asks {
            if let Some(reply) = reply_for(key) {
                return self.dashboard.reply(reply);
            }
        }
        match key.code {
            KeyCode::Enter => match self.dashboard.selected_session() {
                Some(id) => Some(Msg::SwitchSession(id)),
                None => None,
            },
            KeyCode::Char(c) => {
                let answers: bool = matches!(self.dashboard.peek, DashboardPeek::Question { .. });
                if '1' <= c && c <= '9' && answers {
                    self.dashboard.answer((c as u32 - '1' as u32) as usize)
                } else if c == 'p' {
                    Some(Msg::DashboardTogglePin)
                } else {
                    None
                }
            },
            _ => None,
        }
    }

    fn list_key(&mut self, key: KeyEvent) -> (r: Option<Msg>)
        ensures
            final(self).deep_view() == old(self).deep_view().in_list(key),
            r.deep_view() == old(self).deep_view().in_list_request(key),
    {
        reveal(AppModel::in_list);
        match key.code {
            KeyCode::Esc => self.close_overlay(),
            KeyCode::Up => self.picker_move(-1),
            KeyCode::Down => self.picker_move(1),
            KeyCode::Enter => {
                if self.picker_len() > 0 {
                    return self.picker_confirm();
                }
            },
            _ => {},
        }
        None
    }

    fn panel_key(&mut self, key: KeyEvent)
        ensures
            final(self).deep_view() == (if key.code == KeyCode::Esc {
                old(self).deep_view().closed()
            } else {
                old(self).deep_view()
            }),
    {
        if key.code == KeyCode::Esc {
            self.close_overlay();
        }
    }

    /// Whether nothing has been typed.
    fn input_empty(&self) -> (r: bool)
        ensures
            r == self.deep_view().input.is_empty(),
    {
        reveal(<App as DeepView>::deep_view);
        self.input.is_empty()
    }

    /// Whether a tool row is selected.
    fn tool_selected(&self) -> (r: bool)
        ensures
            r == self.deep_view().tool_cursor is Some,
    {
        reveal(<App as DeepView>::deep_view);
        self.tool_cursor.is_some()
    }

    /// Whether a turn is running.
    fn turn_runs(&self) -> (r: bool)
        ensures
            r == runs_turn(self.deep_view().status),
    {
        reveal(<App as DeepView>::deep_view);
        self.turn_in_flight()
    }

    /// Takes what was typed.
    fn take_input(&mut self) -> (r: String)
        ensures
            r@ == old(self).deep_view().input.text(),
            final(self).deep_view() == old(self).deep_view().with_input(EditorModel::blank()),
    {
        reveal(<App as DeepView>::deep_view);
        self.input.take()
    }

    fn enter_key(&mut self) -> (r: Option<Msg>)
        ensures
            final(self).deep_view() == old(self).deep_view().entered(),
            r.deep_view() == (if !old(self).deep_view().input.is_empty() && !runs_turn(
                old(self).deep_view().status,
            ) {
                Some(MsgModel::Submitted(old(self).deep_view().input.text()))
            } else {
                None
            }),
    {
        reveal(AppModel::entered);
        if self.input_empty() {
            if self.tool_selected() {
                self.toggle_selected_or_last_tool();
            }
            None
        } else if self.turn_runs() {
            self.flash_warning("turn in flight — Esc to interrupt it first");
            None
        } else {
            let text = self.take_input();
            Some(Msg::Submitted(text))
        }
    }

    /// A copy of the attached session's id.
    fn attached(&self) -> (r: Option<String>)
        ensures
            r.deep_view() == self.deep_view().session_id,
    {
        reveal(<App as DeepView>::deep_view);
        copied(&self.session_id)
    }

    /// Lets go of the selected tool row and follows the newest content.
    fn deselect_tool(&mut self)
        ensures
            final(self).deep_view() == (AppModel {
                tool_cursor: None,
                scroll: 0,
                ..old(self).deep_view()
            }),
    {
        reveal(<App as DeepView>::deep_view);
        self.tool_cursor = None;
        self.scroll = 0;
    }

    fn escape_key(&mut self) -> (r: Option<Msg>)
        ensures
            final(self).deep_view() == (if !runs_turn(old(self).deep_view().status)
                && old(self).deep_view().input.is_empty()
                && old(self).deep_view().tool_cursor is Some {
                AppModel { tool_cursor: None, scroll: 0, ..old(self).deep_view() }
            } else {
                old(self).deep_view()
            }),
            r.deep_view() == (if runs_turn(old(self).deep_view().status) {
                match old(self).deep_view().session_id {
                    Some(id) => Some(MsgModel::InterruptTurn(id)),
                    None => None,
                }
            } else {
                None
            }),
    {
        if self.turn_runs() {
            return match self.attached() {
                Some(id) => Some(Msg::InterruptTurn(id)),
                None => None,
            };
        }
        if self.input_empty() && self.tool_selected() {
            self.deselect_tool();
        }
        None
    }

    /// Whether an `@` typed now begins a token.
    fn token_begins(&self) -> (r: bool)
        requires
            self.deep_view().input.wf(),
        ensures
            r == self.deep_view().begins_token(),
    {
        reveal(<App as DeepView>::deep_view);
        match self.input.prev_char() {
            Some(c) => white_space(c),
            None => true,
        }
    }

    fn typed_key(&mut self, key: KeyEvent, c: char, time: EditTime) -> (r: Option<Msg>)
        requires
            old(self).deep_view().input.wf(),
        ensures
            final(self).deep_view() == old(self).deep_view().typed(key, c, time),
            r.deep_view() == (if c == 't' && key.modifiers.control {
                Some(MsgModel::ToggleTool)
            } else if c == 'o' && key.modifiers.control {
                Some(MsgModel::ToggleTodos)
            } else {
                None
            }),
    {
        reveal(AppModel::typed);
        let held: bool = key.modifiers.control;
        if c == 'j' && held {
            self.break_editor_line(time);
        } else if c == '?' && self.input_empty() {
            self.show_help();
        } else if c == '/' && self.input_empty() {
            self.open_search();
        } else if c == 't' && held {
            return Some(Msg::ToggleTool);
        } else if c == 'o' && held {
            return Some(Msg::ToggleTodos);
        } else if c == 'g' && held {
            self.pick_agent();
        } else if c == 'y' && (held || (plain(key) && self.input_empty())) {
            self.leave_to_loop(LoopAction::Yank);
        } else if c == '@' && plain(key) && self.token_begins() {
            self.type_into_editor('@', time);
            self.open_mention();
        } else {
            self.type_into_editor(c, time);
        }
        None
    }

    fn pick_agent(&mut self)
        ensures
            final(self).deep_view() == old(self).deep_view().picking(OverlayModel::Agents),
    {
        self.open_picker(Overlay::Agents);
    }

    /// Moves the editor's cursor.
    fn move_cursor(&mut self, code: KeyCode)
        requires
            old(self).deep_view().input.wf(),
        ensures
            final(self).deep_view() == old(self).deep_view().with_input(
                {
                    let e = old(self).deep_view().input;
                    let w = inner_width(old(self).deep_view().width);
                    match code {
                        KeyCode::Up => e.vertical(w, -1),
                        KeyCode::Down => e.vertical(w, 1),
                        KeyCode::Left => e.left(),
                        KeyCode::Right => e.right(),
                        KeyCode::Home => e.home(),
                        KeyCode::End => e.end(),
                        _ => e,
                    }
                },
            ),
    {
        reveal(<App as DeepView>::deep_view);
        let w: u16 = input_inner_width(self.width);
        match code {
            KeyCode::Up => self.input.move_up(w),
            KeyCode::Down => self.input.move_down(w),
            KeyCode::Left => self.input.move_left(),
            KeyCode::Right => self.input.move_right(),
            KeyCode::Home => self.input.move_home(),
            KeyCode::End => self.input.move_end(),
            _ => {},
        }
    }

    fn editor_key(&mut self, key: KeyEvent, time: EditTime) -> (r: Option<Msg>)
        requires
            old(self).deep_view().input.wf(),
        ensures
            final(self).deep_view() == old(self).deep_view().in_editor(key, time),
            r.deep_view() == old(self).deep_view().editor_request(key),
    {
        reveal(AppModel::in_editor);
        match key.code {
            KeyCode::Enter => {
                if key.modifiers.shift {
                    self.break_editor_line(time);
                    None
                } else {
                    self.enter_key()
                }
            },
            KeyCode::Esc => self.escape_key(),
            KeyCode::Up => {
                if self.input_empty() {
                    self.select_prev_tool();
                } else {
                    self.move_cursor(key.code);
                }
                None
            },
            KeyCode::Down => {
                if self.input_empty() {
                    self.select_next_tool();
                } else {
                    self.move_cursor(key.code);
                }
                None
            },
            KeyCode::Backspace => {
                self.editor_backspace(time);
                None
            },
            KeyCode::BackTab => Some(Msg::CyclePermissionMode),
            KeyCode::PageUp => Some(Msg::ScrollUp),
            KeyCode::PageDown => Some(Msg::ScrollDown),
            KeyCode::Left => {
                self.move_cursor(key.code);
                None
            },
            KeyCode::Right => {
                self.move_cursor(key.code);
                None
            },
            KeyCode::Home => {
                self.move_cursor(key.code);
                None
            },
            KeyCode::End => {
                if self.input_empty() {
                    Some(Msg::ScrollBottom)
                } else {
                    self.move_cursor(key.code);
                    None
                }
            },
            KeyCode::Char(c) => self.typed_key(key, c, time),
            _ => None,
        }
    }

    /// Whether the splash shows.
    fn splash_shows(&self) -> (r: bool)
        ensures
            r == self.deep_view().splash is Some,
    {
        reveal(<App as DeepView>::deep_view);
        self.splash.is_some()
    }

    fn end_splash(&mut self)
        ensures
            final(self).deep_view() == (AppModel { splash: None, ..old(self).deep_view() }),
    {
        reveal(<App as DeepView>::deep_view);
        self.splash = None;
    }

    /// Whether a key finds a question, where it reads that of an open ask.
    pub(crate) fn can_answer(&self, key: KeyEvent) -> (r: bool)
        ensures
            r == self.deep_view().can_answer(key),
    {
        if self.splash_shows() || chord(key) {
            return true;
        }
        reveal(<App as DeepView>::deep_view);
        match &self.overlay {
            Overlay::Question(q) => {
                let asks: bool = q.current < q.questions.len();
                match key.code {
                    KeyCode::Up => asks,
                    KeyCode::Down => asks,
                    KeyCode::Char(c) => c != ' ' || asks,
                    KeyCode::Enter => q.cursor.len() > 0 || asks,
                    _ => true,
                }
            },
            _ => true,
        }
    }

    /// A key, where neither the splash shows nor the key is a chord.
    fn key_by_kind(&mut self, kind: OverlayKind, key: KeyEvent, time: EditTime) -> (r: Option<Msg>)
        requires
            old(self).deep_view().wf(),
            old(self).deep_view().overlay matches OverlayModel::Question(q) ==> q.can_take(key),
            kind == kind_of(old(self).deep_view().overlay),
        ensures
            final(self).deep_view() == old(self).deep_view().keyed_by_kind(kind, key, time),
            r.deep_view() == old(self).deep_view().request_by_kind(kind, key),
    {
        match kind {
            OverlayKind::Closed => self.editor_key(key, time),
            OverlayKind::Files => {
                self.files_key(key);
                None
            },
            OverlayKind::Palette => self.palette_key(key),
            OverlayKind::TextInput => self.text_key(key),
            OverlayKind::Search => {
                self.search_key(key);
                None
            },
            OverlayKind::Mention => {
                self.mention_key(key, time);
                None
            },
            OverlayKind::Permission => self.permission_key(key),
            OverlayKind::Question => self.question_key(key),
            OverlayKind::Dashboard => {
                if self.browses() {
                    self.dashboard_key(key)
                } else {
                    self.dashboard_mode_key(key)
                }
            },
            OverlayKind::List => self.list_key(key),
            OverlayKind::Panel => {
                self.panel_key(key);
                None
            },
        }
    }

    /// Routes a key at a given time: changes the state, and tells what the loop
    /// has to do, if anything.
    pub fn on_key_at(&mut self, key: KeyEvent, time: EditTime) -> (r: Option<Msg>)
        requires
            old(self).deep_view().takes(key),
        ensures
            final(self).deep_view() == old(self).deep_view().keyed(key, time),
            r.deep_view() == old(self).deep_view().key_request(key),
    {
        if self.splash_shows() {
            self.end_splash();
            return None;
        }
        if chord(key) {
            return self.chord_key(key);
        }
        let kind = self.overlay_kind();
        self.key_by_kind(kind, key, time)
    }

    /// Routes a key: changes the state, and tells what the loop has to do, if
    /// anything.
    pub fn on_key(&mut self, key: KeyEvent) -> (r: Option<Msg>)
        requires
            old(self).deep_view().takes(key),
        ensures
            exists|time: EditTime|
                #[trigger] old(self).deep_view().input.timely(time) && final(self).deep_view()
                    == old(self).deep_view().keyed(key, time),
            r.deep_view() == old(self).deep_view().key_request(key),
    {
        let time = self.key_time();
        self.on_key_at(key, time)
    }
}

} // verus!
