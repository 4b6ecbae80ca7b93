//! The reducer: how each message changes the state.

use crate::appearance::ThemeMode;
use crate::client::{AgentInfo, ModelChoice, SessionInfo};
use crate::dashboard::{
    DashboardMode, DashboardModeModel, DashboardStateModel, DashboardStatus, DashboardStatusModel,
    Poll,
};
use crate::fold::{ceil_div, div_up};
use crate::json::or_empty;
use crate::overlay::{Overlay, OverlayModel, QuestionSession, QuestionSessionModel};
use crate::sse::{
    PermissionAsked, QuestionAsked, ServerEvent, ServerEventModel, SubagentMsg, SubagentMsgModel,
    WfPhase, WorkflowMsg, WorkflowMsgModel,
};
use crate::state::{
    tick_plus, waits, App, AppModel, Flash, FlashModel, LoopAction, Msg, MsgModel, RetryCountdown,
    TICKS_PER_SEC,
};
use crate::text::{cat, decimal, is_text, number, same};
use crate::transcript::{
    TranscriptItem, TranscriptItemModel, WorkflowView,
    WorkflowViewModel,
};
use std::collections::BTreeMap;
use vstd::prelude::*;
use vstd::string::*;

verus! {

/// A text, or what stands for a missing one.
pub open spec fn text_or(s: Option<Seq<char>>, default: Seq<char>) -> Seq<char> {
    match s {
        Some(t) => t,
        None => default,
    }
}

/// The transcript line of a workflow event.
pub open spec fn workflow_line(w: WorkflowMsgModel) -> Seq<char> {
    match w.phase {
        WfPhase::Started => "▶ workflow "@ + w.kind + " started"@ + (match w.arg {
            Some(a) => " ("@ + a + ")"@,
            None => Seq::empty(),
        }),
        WfPhase::Progress => "  task "@ + decimal(
            match w.task_index {
                Some(i) => i as nat,
                None => 0,
            },
        ) + ": "@ + text_or(w.status, "?"@) + " — "@ + w.notes,
        WfPhase::Done => if w.ok == Some(true) {
            "✔ workflow "@ + w.kind + " complete: "@ + or_empty(w.summary)
        } else {
            "✖ workflow "@ + w.kind + " failed: "@ + text_or(w.error, "error"@)
        },
    }
}

/// The transcript line of a subagent's activity.
pub open spec fn subagent_line(m: SubagentMsgModel) -> Seq<char> {
    if m.verb == "text"@ {
        "task "@ + decimal(m.task_index as nat) + " · \""@ + m.detail + "\""@
    } else {
        "task "@ + decimal(m.task_index as nat) + " ▸ "@ + m.verb + ": "@ + m.detail
    }
}

impl WorkflowViewModel {
    /// A run that has just started.
    pub open spec fn begun(w: WorkflowMsgModel) -> WorkflowViewModel {
        WorkflowViewModel {
            kind: w.kind,
            arg: or_empty(w.arg),
            session: w.session,
            tasks: Map::empty(),
            done: None,
        }
    }

    /// After an event of a run. Events of another run change nothing.
    pub open spec fn after(self, w: WorkflowMsgModel) -> WorkflowViewModel {
        if self.session != w.session {
            self
        } else {
            match (w.phase, w.task_index) {
                (WfPhase::Progress, Some(i)) => WorkflowViewModel {
                    tasks: self.tasks.insert(i, (or_empty(w.status), w.notes)),
                    ..self
                },
                (WfPhase::Done, _) => WorkflowViewModel { done: Some(w.ok == Some(true)), ..self },
                _ => self,
            }
        }
    }
}

/// What the status line says while a retry is waited for: the seconds left, or,
/// once the wait is over, for how long.
pub open spec fn wait_status(prefix: Seq<char>, expires: u32, tick: u32) -> Seq<char> {
    if expires > tick {
        prefix + " ("@ + decimal(ceil_div(expires - tick, TICKS_PER_SEC as int) as nat) + "s)"@
    } else if expires == tick {
        prefix + " (now)"@
    } else {
        prefix + " (now +"@ + decimal(ceil_div(tick - expires, TICKS_PER_SEC as int) as nat) + "s)"@
    }
}

impl AppModel {
    /// With a dim system line in the transcript.
    #[verifier::opaque]
    pub open spec fn noted(self, line: Seq<char>) -> AppModel {
        self.with_item(TranscriptItemModel::Workflow(line)).bumped()
    }

    /// With the dashboard marked as out of date, where it is open.
    #[verifier::opaque]
    pub open spec fn outdated(self) -> AppModel {
        if self.overlay is Dashboard {
            AppModel {
                dashboard: DashboardStateModel { needs_refetch: true, ..self.dashboard },
                ..self
            }
        } else {
            self
        }
    }

    /// With the view of the workflow run after an event. A run that starts
    /// replaces what was there.
    #[verifier::opaque]
    pub open spec fn workflow_seen(self, w: WorkflowMsgModel) -> AppModel {
        if w.phase == WfPhase::Started {
            (AppModel { workflow: Some(WorkflowViewModel::begun(w)), ..self }).outdated()
        } else {
            AppModel {
                workflow: match self.workflow {
                    Some(v) => Some(v.after(w)),
                    None => None,
                },
                ..self
            }
        }
    }

    /// After a subagent's activity: shown where it belongs to the run in view.
    #[verifier::opaque]
    pub open spec fn subagent_seen(self, m: SubagentMsgModel) -> AppModel {
        if self.workflow matches Some(v) && v.session == m.session {
            self.noted(subagent_line(m))
        } else {
            self
        }
    }

    /// With another dashboard.
    pub open spec fn with_dashboard(self, d: DashboardStateModel) -> AppModel {
        AppModel { dashboard: d, ..self }
    }

    /// After an event of the server. An ask is shown only where it belongs to the
    /// attached session: the others are kept by the server, and the dashboard
    /// finds them.
    #[verifier::opaque]
    pub open spec fn heard(self, ev: ServerEventModel) -> AppModel {
        match ev {
            ServerEventModel::PermissionAsked(p) => if self.session_id == Some(p.session_id) {
                self.showing(OverlayModel::Permission(p))
            } else {
                self
            },
            ServerEventModel::QuestionAsked(q) => if self.session_id == Some(q.session_id) {
                self.showing(OverlayModel::Question(QuestionSessionModel::begun(q)))
            } else {
                self
            },
            ServerEventModel::Workflow(w) => self.workflow_seen(w).noted(workflow_line(w)),
            ServerEventModel::Subagent(m) => self.subagent_seen(m),
            ServerEventModel::SessionBusy { session_id } => self.with_dashboard(
                self.dashboard.flipped(session_id, DashboardStatusModel::Busy),
            ),
            ServerEventModel::SessionIdle { session_id } => self.with_dashboard(
                self.dashboard.flipped(session_id, DashboardStatusModel::Idle),
            ),
            ServerEventModel::SessionCreated { .. } => self.outdated(),
            _ => self,
        }
    }

    /// After a prompt was submitted.
    #[verifier::opaque]
    pub open spec fn submitted(self, text: Seq<char>) -> AppModel {
        (AppModel {
            tool_cursor: None,
            running_tools: Seq::empty(),
            msg_start: None,
            ..self.with_item(TranscriptItemModel::User(text)).streams_closed()
        }).bumped()
    }

    /// After the prompt's stream ended: a status that still waits is over.
    #[verifier::opaque]
    pub open spec fn prompt_ended(self) -> AppModel {
        AppModel {
            retry: None,
            status: if waits(self.status) {
                "ready"@
            } else {
                self.status
            },
            ..self
        }
    }

    /// One tick later.
    #[verifier::opaque]
    pub open spec fn ticked(self) -> AppModel {
        let tick = tick_plus(self.tick, 1);
        let busy = waits(self.status);
        AppModel {
            tick,
            splash: splash_left(self.splash),
            flash: flash_left(self.flash, tick),
            spinner_frame: if busy {
                next_frame(self.spinner_frame)
            } else {
                self.spinner_frame
            },
            busy_ticks: busy_count(self.busy_ticks, busy),
            status: match self.retry {
                Some(r) => wait_status(r.prefix, r.expires_tick, tick),
                None => self.status,
            },
            ..self
        }
    }

    /// After the terminal gained or lost the focus.
    #[verifier::opaque]
    pub open spec fn focus_changed(self, focused: bool) -> AppModel {
        if focused && self.title_active {
            AppModel {
                focused,
                title_active: false,
                pending_action: Some(LoopAction::ResetTitle),
                ..self
            }
        } else {
            AppModel { focused, ..self }
        }
    }

    /// After the system's appearance was asked for. What is in effect already, or
    /// could not be told, changes nothing.
    #[verifier::opaque]
    pub open spec fn os_theme_changed(self, mode: Option<ThemeMode>) -> AppModel {
        if mode is Some && self.theme_mode != mode {
            (AppModel {
                theme_mode: mode,
                themes: self.themes.update(
                    0,
                    if mode == Some(ThemeMode::Light) {
                        self.themes[2]
                    } else {
                        self.themes[1]
                    },
                ),
                pending_action: Some(LoopAction::CursorColor),
                ..self
            }).bumped()
        } else {
            self
        }
    }

    /// After a message about the dashboard.
    #[verifier::opaque]
    pub open spec fn dashboard_updated(self, m: MsgModel) -> AppModel {
        match m {
            MsgModel::DashboardLoaded { sessions, permissions, questions } => self.with_dashboard(
                self.dashboard.polled(
                    Poll { sessions, permissions, questions },
                    self.session_id,
                ),
            ),
            MsgModel::DashboardPeekLoaded { session_id, text } => self.with_dashboard(
                self.dashboard.peeked(session_id, text),
            ),
            MsgModel::PermissionReply { id, .. } => self.with_dashboard(
                self.dashboard.permission_settled(id),
            ),
            MsgModel::QuestionReply { id, .. } => self.with_dashboard(
                self.dashboard.question_settled(id),
            ),
            MsgModel::CreateDashboardSession(_) => self.with_dashboard(
                DashboardStateModel { mode: DashboardModeModel::Browsing, ..self.dashboard },
            ),
            MsgModel::DashboardSessionCreated(s) => self.with_dashboard(
                self.dashboard.session_added(s),
            ),
            MsgModel::DashboardTogglePin => self.with_dashboard(self.dashboard.pin_toggled()),
            MsgModel::DashboardFilterChanged(f) => self.with_dashboard(self.dashboard.filtered(f)),
            _ => self,
        }
    }

    /// After a message.
    pub open spec fn updated(self, m: MsgModel) -> AppModel {
        match m {
            MsgModel::Server(ev) => self.folded(ev),
            MsgModel::Event(ev) => self.heard(ev),
            MsgModel::SessionsLoaded(s) => AppModel { sessions: s, ..self },
            MsgModel::AgentsLoaded(a) => AppModel { agents: a, ..self },
            MsgModel::ModelsLoaded(l) => AppModel { models: l, ..self },
            MsgModel::HistoryLoaded(rows) => AppModel {
                status: "ready"@,
                ..self.history_loaded(rows)
            },
            MsgModel::Submitted(text) => self.submitted(text),
            MsgModel::Error(e) => self.failed(e),
            MsgModel::PromptEnded => self.prompt_ended(),
            MsgModel::Quit => AppModel { should_quit: true, ..self },
            MsgModel::ToggleTool => self.tool_unfolded(),
            MsgModel::ScrollUp => self.scrolled_up(3),
            MsgModel::ScrollDown => self.scrolled_down(3),
            MsgModel::ScrollBottom => AppModel { scroll: 0, ..self },
            MsgModel::Tick => self.ticked(),
            MsgModel::FilesLoaded(files, truncated) => self.files_listed(files, truncated),
            MsgModel::ToggleTodos => AppModel { todos_collapsed: !self.todos_collapsed, ..self },
            MsgModel::StartWorkflow { kind, .. } => self.noted(
                "… launching "@ + kind + " workflow"@,
            ),
            MsgModel::PermissionModeChanged(mode) => AppModel { permission_mode: mode, ..self },
            MsgModel::FocusChanged(focused) => self.focus_changed(focused),
            MsgModel::OsThemeChanged(mode) => self.os_theme_changed(mode),
            MsgModel::Key(_) => self,
            MsgModel::Resize => self,
            MsgModel::SwitchSession(_) => self,
            MsgModel::NewSession => self,
            MsgModel::CancelWorkflow(_) => self,
            MsgModel::InterruptTurn(_) => self,
            MsgModel::CyclePermissionMode => self,
            _ => self.dashboard_updated(m),
        }
    }

    /// Whether a message's numbers can be counted with.
    pub open spec fn fits(self, m: MsgModel) -> bool {
        match m {
            MsgModel::Server(ev) => self.event_fits(ev),
            _ => true,
        }
    }
}

/// The ticks that the splash stays, one tick later.
pub open spec fn splash_left(splash: Option<u16>) -> Option<u16> {
    match splash {
        Some(n) => if n > 1 {
            Some((n - 1) as u16)
        } else {
            None
        },
        None => None,
    }
}

/// A transient message, unless it has faded by `tick`.
pub open spec fn flash_left(flash: Option<FlashModel>, tick: u32) -> Option<FlashModel> {
    match flash {
        Some(f) => if tick >= f.expires_tick {
            None
        } else {
            Some(f)
        },
        None => None,
    }
}

/// For how many ticks the server has been waited for, one tick later.
pub open spec fn busy_count(ticks: u32, busy: bool) -> u32 {
    if !busy {
        0
    } else if ticks == u32::MAX {
        u32::MAX
    } else {
        (ticks + 1) as u32
    }
}

/// The next animation frame.
pub open spec fn next_frame(n: usize) -> usize {
    if n == usize::MAX {
        0
    } else {
        (n + 1) as usize
    }
}

/// The transcript line of a workflow event.
fn line_for(w: &WorkflowMsg) -> (r: String)
    ensures
        r@ == workflow_line(w.deep_view()),
{
    match w.phase {
        WfPhase::Started => {
            let mut s = cat("▶ workflow ", w.kind.as_str());
            s.append(" started");
            match &w.arg {
                Some(a) => {
                    s.append(" (");
                    s.append(a.as_str());
                    s.append(")");
                    assert(s@ =~= workflow_line(w.deep_view()));
                },
                None => {
                    assert(s@ =~= workflow_line(w.deep_view()));
                },
            }
            s
        },
        WfPhase::Progress => {
            let i: u64 = match w.task_index {
                Some(i) => i as u64,
                None => 0,
            };
            let mut s = cat("  task ", number(i).as_str());
            s.append(": ");
            match &w.status {
                Some(t) => s.append(t.as_str()),
                None => s.append("?"),
            }
            s.append(" — ");
            s.append(w.notes.as_str());
            s
        },
        WfPhase::Done => {
            if w.ok == Some(true) {
                let mut s = cat("✔ workflow ", w.kind.as_str());
                s.append(" complete: ");
                match &w.summary {
                    Some(t) => s.append(t.as_str()),
                    None => {
                        assert(s@ =~= s@ + Seq::<char>::empty());
                    },
                }
                s
            } else {
                let mut s = cat("✖ workflow ", w.kind.as_str());
                s.append(" failed: ");
                match &w.error {
                    Some(t) => s.append(t.as_str()),
                    None => s.append("error"),
                }
                s
            }
        },
    }
}

/// The transcript line of a subagent's activity.
fn activity_line(m: &SubagentMsg) -> (r: String)
    ensures
        r@ == subagent_line(m.deep_view()),
{
    let mut s = cat("task ", number(m.task_index as u64).as_str());
    if same(m.verb.as_str(), "text") {
        s.append(" · \"");
        s.append(m.detail.as_str());
        s.append("\"");
    } else {
        s.append(" ▸ ");
        s.append(m.verb.as_str());
        s.append(": ");
        s.append(m.detail.as_str());
    }
    s
}

/// What the status line says while a retry is waited for.
fn wait_text(prefix: &str, expires: u32, tick: u32) -> (r: String)
    ensures
        r@ == wait_status(prefix@, expires, tick),
{
    if expires > tick {
        let mut s = cat(prefix, " (");
        s.append(number(div_up((expires - tick) as u64, TICKS_PER_SEC as u64)).as_str());
        s.append("s)");
        s
    } else if expires == tick {
        cat(prefix, " (now)")
    } else {
        let mut s = cat(prefix, " (now +");
        s.append(number(div_up((tick - expires) as u64, TICKS_PER_SEC as u64)).as_str());
        s.append("s)");
        s
    }
}

/// The status line at a tick: that of a running wait, or the one it was.
fn status_at(retry: &Option<RetryCountdown>, tick: u32, status: &str) -> (r: String)
    ensures
        r@ == (match retry.deep_view() {
            Some(w) => wait_status(w.prefix, w.expires_tick, tick),
            None => status@,
        }),
{
    match retry {
        Some(w) => wait_text(w.prefix.as_str(), w.expires_tick, tick),
        None => status.to_owned(),
    }
}

/// The ticks that the splash stays, one tick later.
fn splash_after(splash: Option<u16>) -> (r: Option<u16>)
    ensures
        r == splash_left(splash),
{
    match splash {
        Some(n) => if n > 1 {
            Some(n - 1)
        } else {
            None
        },
        None => None,
    }
}

/// A transient message, unless it has faded by `tick`.
fn flash_at(flash: Option<Flash>, tick: u32) -> (r: Option<Flash>)
    ensures
        r.deep_view() == flash_left(flash.deep_view(), tick),
{
    match flash {
        Some(f) => if tick >= f.expires_tick {
            None
        } else {
            Some(f)
        },
        None => None,
    }
}

/// The animation frame, one tick later.
fn frame_after(frame: usize, busy: bool) -> (r: usize)
    ensures
        r == (if busy {
            next_frame(frame)
        } else {
            frame
        }),
{
    if !busy {
        frame
    } else if frame == usize::MAX {
        0
    } else {
        frame + 1
    }
}

/// For how many ticks the server has been waited for, one tick later.
fn busy_after(ticks: u32, busy: bool) -> (r: u32)
    ensures
        r == busy_count(ticks, busy),
{
    if busy {
        ticks.saturating_add(1)
    } else {
        0
    }
}

impl WorkflowView {
    /// Takes an event of the run.
    fn take_event(&mut self, w: &WorkflowMsg)
        ensures
            final(self).deep_view() == old(self).deep_view().after(w.deep_view()),
    {
        if !same(self.session.as_str(), w.session.as_str()) {
            return;
        }
        match w.phase {
            WfPhase::Started => {},
            WfPhase::Progress => {
                if let Some(i) = w.task_index {
                    let status: String = match &w.status {
                        Some(s) => s.clone(),
                        None => String::new(),
                    };
                    let ghost task = (status@, w.notes@);
                    self.tasks.insert(i, (status, w.notes.clone()));
                    assert(self.deep_view().tasks =~= old(self).deep_view().tasks.insert(i, task));
                }
            },
            WfPhase::Done => {
                self.done = Some(w.ok == Some(true));
            },
        }
    }
}

impl App {
    /// Puts a dim system line into the transcript.
    fn note(&mut self, line: String)
        ensures
            final(self).deep_view() == old(self).deep_view().noted(line@),
            final(self).input == old(self).input,
    {
        reveal(AppModel::noted);
        self.push_item(TranscriptItem::Workflow(line));
        self.bump_render();
    }

    /// Marks the dashboard as out of date, where it is open.
    fn mark_outdated(&mut self)
        ensures
            final(self).deep_view() == old(self).deep_view().outdated(),
            final(self).input == old(self).input,
    {
        reveal(AppModel::outdated);
        reveal(<App as DeepView>::deep_view);
        if matches!(self.overlay, Overlay::Dashboard) {
            self.dashboard.needs_refetch = true;
        }
    }

    fn see_workflow(&mut self, w: &WorkflowMsg)
        ensures
            final(self).deep_view() == old(self).deep_view().workflow_seen(w.deep_view()),
            final(self).input == old(self).input,
    {
        reveal(AppModel::workflow_seen);
        reveal(<App as DeepView>::deep_view);
        match w.phase {
            WfPhase::Started => {
                let arg: String = match &w.arg {
                    Some(a) => a.clone(),
                    None => String::new(),
                };
                let v = WorkflowView {
                    kind: w.kind.clone(),
                    arg,
                    session: w.session.clone(),
                    tasks: BTreeMap::new(),
                    done: None,
                };
                assert(v.deep_view() =~= WorkflowViewModel::begun(w.deep_view()));
                self.workflow = Some(v);
                self.mark_outdated();
            },
            _ => {
                match &mut self.workflow {
                    Some(v) => v.take_event(w),
                    None => {},
                }
            },
        }
    }

    fn see_subagent(&mut self, m: &SubagentMsg)
        ensures
            final(self).deep_view() == old(self).deep_view().subagent_seen(m.deep_view()),
            final(self).input == old(self).input,
    {
        reveal(AppModel::subagent_seen);
        reveal(<App as DeepView>::deep_view);
        let ours: bool = match &self.workflow {
            Some(v) => same(v.session.as_str(), m.session.as_str()),
            None => false,
        };
        if ours {
            self.note(activity_line(m));
        }
    }

    fn ask_permission(&mut self, p: PermissionAsked)
        ensures
            final(self).deep_view() == old(self).deep_view().heard(
                ServerEventModel::PermissionAsked(p.deep_view()),
            ),
            final(self).input == old(self).input,
    {
        reveal(AppModel::heard);
        reveal(<App as DeepView>::deep_view);
        if is_text(&self.session_id, p.session_id.as_str()) {
            self.overlay = Overlay::Permission(p);
        }
    }

    fn ask_question(&mut self, q: QuestionAsked)
        ensures
            final(self).deep_view() == old(self).deep_view().heard(
                ServerEventModel::QuestionAsked(q.deep_view()),
            ),
            final(self).input == old(self).input,
    {
        reveal(AppModel::heard);
        reveal(<App as DeepView>::deep_view);
        if is_text(&self.session_id, q.session_id.as_str()) {
            self.overlay = Overlay::Question(QuestionSession::new(q));
        }
    }

    fn flip_session(&mut self, session_id: &str, status: DashboardStatus)
        ensures
            final(self).deep_view() == old(self).deep_view().with_dashboard(
                old(self).deep_view().dashboard.flipped(session_id@, status.deep_view()),
            ),
            final(self).input == old(self).input,
    {
        reveal(<App as DeepView>::deep_view);
        self.dashboard.flip(session_id, status);
    }

    fn workflow_event(&mut self, w: &WorkflowMsg)
        ensures
            final(self).deep_view() == old(self).deep_view().workflow_seen(w.deep_view()).noted(
                workflow_line(w.deep_view()),
            ),
            final(self).input == old(self).input,
    {
        self.see_workflow(w);
        self.note(line_for(w));
    }

    /// Takes an event of the server.
    fn hear(&mut self, ev: ServerEvent)
        ensures
            final(self).deep_view() == old(self).deep_view().heard(ev.deep_view()),
            final(self).input == old(self).input,
    {
        reveal(AppModel::heard);
        match ev {
            ServerEvent::PermissionAsked(p) => self.ask_permission(p),
            ServerEvent::QuestionAsked(q) => self.ask_question(q),
            ServerEvent::Workflow(w) => self.workflow_event(&w),
            ServerEvent::Subagent(m) => self.see_subagent(&m),
            ServerEvent::SessionBusy { session_id } => {
                self.flip_session(session_id.as_str(), DashboardStatus::Busy)
            },
            ServerEvent::SessionIdle { session_id } => {
                self.flip_session(session_id.as_str(), DashboardStatus::Idle)
            },
            ServerEvent::SessionCreated { .. } => self.mark_outdated(),
            ServerEvent::Connected => {},
            ServerEvent::PermissionModeChanged { .. } => {},
            ServerEvent::Other => {},
        }
    }

    fn submit(&mut self, text: String)
        ensures
            final(self).deep_view() == old(self).deep_view().submitted(text@),
            final(self).input == old(self).input,
    {
        reveal(AppModel::submitted);
        reveal(<App as DeepView>::deep_view);
        self.push_item(TranscriptItem::User(text));
        self.open_text = None;
        self.open_reasoning = None;
        self.tool_cursor = None;
        self.running_tools = Vec::new();
        assert(self.running_tools.deep_view() =~= Seq::<(Seq<char>, usize)>::empty());
        self.msg_start = None;
        self.bump_render();
    }

    fn end_prompt(&mut self)
        ensures
            final(self).deep_view() == old(self).deep_view().prompt_ended(),
            final(self).input == old(self).input,
    {
        reveal(AppModel::prompt_ended);
        reveal(<App as DeepView>::deep_view);
        self.retry = None;
        if self.is_busy() {
            self.status = "ready".to_owned();
        }
    }

    fn tick_once(&mut self)
        ensures
            final(self).deep_view() == old(self).deep_view().ticked(),
            final(self).input == old(self).input,
    {
        reveal(AppModel::ticked);
        reveal(<App as DeepView>::deep_view);
        let busy: bool = self.is_busy();
        let tick: u32 = self.tick.wrapping_add(1);
        self.status = status_at(&self.retry, tick, self.status.as_str());
        self.tick = tick;
        self.splash = splash_after(self.splash);
        self.flash = flash_at(self.flash.take(), tick);
        self.spinner_frame = frame_after(self.spinner_frame, busy);
        self.busy_ticks = busy_after(self.busy_ticks, busy);
    }

    fn change_focus(&mut self, focused: bool)
        ensures
            final(self).deep_view() == old(self).deep_view().focus_changed(focused),
            final(self).input == old(self).input,
    {
        reveal(AppModel::focus_changed);
        reveal(<App as DeepView>::deep_view);
        self.focused = focused;
        if focused && self.title_active {
            self.title_active = false;
            self.pending_action = Some(LoopAction::ResetTitle);
        }
    }

    fn change_os_theme(&mut self, mode: Option<ThemeMode>)
        ensures
            final(self).deep_view() == old(self).deep_view().os_theme_changed(mode),
            final(self).input == old(self).input,
    {
        reveal(AppModel::os_theme_changed);
        reveal(<App as DeepView>::deep_view);
        if let Some(m) = mode {
            if self.theme_mode != Some(m) {
                self.theme_mode = Some(m);
                self.themes.follow(m == ThemeMode::Light);
                self.pending_action = Some(LoopAction::CursorColor);
                self.bump_render();
            }
        }
    }

    fn load_dashboard(
        &mut self,
        sessions: Vec<SessionInfo>,
        permissions: Vec<PermissionAsked>,
        questions: Vec<QuestionAsked>,
    )
        ensures
            final(self).deep_view() == old(self).deep_view().with_dashboard(
                old(self).deep_view().dashboard.polled(
                    Poll {
                        sessions: sessions.deep_view(),
                        permissions: permissions.deep_view(),
                        questions: questions.deep_view(),
                    },
                    old(self).deep_view().session_id,
                ),
            ),
            final(self).input == old(self).input,
    {
        reveal(<App as DeepView>::deep_view);
        let attached: Option<&str> = match &self.session_id {
            Some(s) => Some(s.as_str()),
            None => None,
        };
        let ss = sessions.as_slice();
        let ps = permissions.as_slice();
        let qs = questions.as_slice();
        proof {
            assert(ss.deep_view() =~= sessions.deep_view());
            assert(ps.deep_view() =~= permissions.deep_view());
            assert(qs.deep_view() =~= questions.deep_view());
        }
        self.dashboard.load(ss, ps, qs, attached);
    }

    fn load_peek(&mut self, session_id: &str, text: String)
        ensures
            final(self).deep_view() == old(self).deep_view().with_dashboard(
                old(self).deep_view().dashboard.peeked(session_id@, text@),
            ),
            final(self).input == old(self).input,
    {
        reveal(<App as DeepView>::deep_view);
        self.dashboard.load_peek(session_id, text);
    }

    fn settle_permission(&mut self, id: &str)
        ensures
            final(self).deep_view() == old(self).deep_view().with_dashboard(
                old(self).deep_view().dashboard.permission_settled(id@),
            ),
            final(self).input == old(self).input,
    {
        reveal(<App as DeepView>::deep_view);
        self.dashboard.settle_permission(id);
    }

    fn settle_question(&mut self, id: &str)
        ensures
            final(self).deep_view() == old(self).deep_view().with_dashboard(
                old(self).deep_view().dashboard.question_settled(id@),
            ),
            final(self).input == old(self).input,
    {
        reveal(<App as DeepView>::deep_view);
        self.dashboard.settle_question(id);
    }

    fn browse_dashboard(&mut self)
        ensures
            final(self).deep_view() == old(self).deep_view().with_dashboard(
                DashboardStateModel {
                    mode: DashboardModeModel::Browsing,
                    ..old(self).deep_view().dashboard
                },
            ),
            final(self).input == old(self).input,
    {
        reveal(<App as DeepView>::deep_view);
        self.dashboard.mode = DashboardMode::Browsing;
    }

    fn add_session(&mut self, session: SessionInfo)
        ensures
            final(self).deep_view() == old(self).deep_view().with_dashboard(
                old(self).deep_view().dashboard.session_added(session.deep_view()),
            ),
            final(self).input == old(self).input,
    {
        reveal(<App as DeepView>::deep_view);
        self.dashboard.add_session(session);
    }

    fn toggle_pin(&mut self)
        ensures
            final(self).deep_view() == old(self).deep_view().with_dashboard(
                old(self).deep_view().dashboard.pin_toggled(),
            ),
            final(self).input == old(self).input,
    {
        reveal(<App as DeepView>::deep_view);
        self.dashboard.toggle_pin();
    }

    fn filter_dashboard(&mut self, filter: String)
        ensures
            final(self).deep_view() == old(self).deep_view().with_dashboard(
                old(self).deep_view().dashboard.filtered(filter@),
            ),
            final(self).input == old(self).input,
    {
        reveal(<App as DeepView>::deep_view);
        self.dashboard.set_filter(filter);
    }

    /// Takes a message about the dashboard.
    fn update_dashboard(&mut self, msg: Msg)
        ensures
            final(self).deep_view() == old(self).deep_view().dashboard_updated(msg.deep_view()),
            final(self).input == old(self).input,
    {
        reveal(AppModel::dashboard_updated);
        match msg {
            Msg::DashboardLoaded { sessions, permissions, questions } => {
                self.load_dashboard(sessions, permissions, questions)
            },
            Msg::DashboardPeekLoaded { session_id, text } => {
                self.load_peek(session_id.as_str(), text)
            },
            Msg::PermissionReply { id, .. } => self.settle_permission(id.as_str()),
            Msg::QuestionReply { id, .. } => self.settle_question(id.as_str()),
            Msg::CreateDashboardSession(_) => self.browse_dashboard(),
            Msg::DashboardSessionCreated(session) => self.add_session(session),
            Msg::DashboardTogglePin => self.toggle_pin(),
            Msg::DashboardFilterChanged(filter) => self.filter_dashboard(filter),
            _ => {},
        }
    }

    fn set_sessions(&mut self, s: Vec<SessionInfo>)
        ensures
            final(self).deep_view() == (AppModel { sessions: s.deep_view(), ..old(self).deep_view() }),
            final(self).input == old(self).input,
    {
        reveal(<App as DeepView>::deep_view);
        self.sessions = s;
    }

    fn set_agents(&mut self, a: Vec<AgentInfo>)
        ensures
            final(self).deep_view() == (AppModel { agents: a.deep_view(), ..old(self).deep_view() }),
            final(self).input == old(self).input,
    {
        reveal(<App as DeepView>::deep_view);
        self.agents = a;
    }

    fn set_models(&mut self, m: Vec<ModelChoice>)
        ensures
            final(self).deep_view() == (AppModel { models: m.deep_view(), ..old(self).deep_view() }),
            final(self).input == old(self).input,
    {
        reveal(<App as DeepView>::deep_view);
        self.models = m;
    }

    fn set_ready(&mut self)
        ensures
            final(self).deep_view() == (AppModel { status: "ready"@, ..old(self).deep_view() }),
            final(self).input == old(self).input,
    {
        reveal(<App as DeepView>::deep_view);
        self.status = "ready".to_owned();
    }

    fn quit(&mut self)
        ensures
            final(self).deep_view() == (AppModel { should_quit: true, ..old(self).deep_view() }),
            final(self).input == old(self).input,
    {
        reveal(<App as DeepView>::deep_view);
        self.should_quit = true;
    }

    fn toggle_todos(&mut self)
        ensures
            final(self).deep_view() == (AppModel { todos_collapsed: !old(self).deep_view().todos_collapsed, ..old(self).deep_view() }),
            final(self).input == old(self).input,
    {
        reveal(<App as DeepView>::deep_view);
        self.todos_collapsed = !self.todos_collapsed;
    }

    fn set_permission_mode(&mut self, mode: String)
        ensures
            final(self).deep_view() == (AppModel { permission_mode: mode@, ..old(self).deep_view() }),
            final(self).input == old(self).input,
    {
        reveal(<App as DeepView>::deep_view);
        self.permission_mode = mode;
    }

    /// Takes a message. What needs the network or the terminal is the loop's part:
    /// here only the state changes.
    pub fn update(&mut self, msg: Msg)
        requires
            old(self).deep_view().fits(msg.deep_view()),
        ensures
            final(self).deep_view() == old(self).deep_view().updated(msg.deep_view()),
            final(self).input == old(self).input,
    {
        match msg {
            Msg::Server(ev) => self.fold_event(ev),
            Msg::Event(ev) => self.hear(ev),
            Msg::SessionsLoaded(s) => self.set_sessions(s),
            Msg::AgentsLoaded(a) => self.set_agents(a),
            Msg::ModelsLoaded(m) => self.set_models(m),
            Msg::HistoryLoaded(rows) => {
                self.load_history(rows);
                self.set_ready();
            },
            Msg::Submitted(text) => self.submit(text),
            Msg::Error(e) => self.record_error(e),
            Msg::PromptEnded => self.end_prompt(),
            Msg::Quit => self.quit(),
            Msg::ToggleTool => self.toggle_selected_or_last_tool(),
            Msg::ScrollUp => self.scroll_up(3),
            Msg::ScrollDown => self.scroll_down(3),
            Msg::ScrollBottom => self.scroll_to_bottom(),
            Msg::Tick => self.tick_once(),
            Msg::FilesLoaded(files, truncated) => self.files_loaded(files, truncated),
            Msg::ToggleTodos => self.toggle_todos(),
            Msg::StartWorkflow { kind, .. } => {
                let mut line = cat("… launching ", kind.as_str());
                line.append(" workflow");
                self.note(line);
            },
            Msg::PermissionModeChanged(mode) => self.set_permission_mode(mode),
            Msg::FocusChanged(focused) => self.change_focus(focused),
            Msg::OsThemeChanged(mode) => self.change_os_theme(mode),
            Msg::Key(_) => {},
            Msg::Resize => {},
            Msg::SwitchSession(_) => {},
            Msg::NewSession => {},
            Msg::CancelWorkflow(_) => {},
            Msg::InterruptTurn(_) => {},
            Msg::CyclePermissionMode => {},
            other => self.update_dashboard(other),
        }
    }
}

impl AppModel {
    /// The state after messages, one after the other.
    pub open spec fn driven(self, msgs: Seq<MsgModel>) -> AppModel
        decreases msgs.len(),
    {
        if msgs.len() == 0 {
            self
        } else {
            self.updated(msgs[0]).driven(msgs.drop_first())
        }
    }

    /// Whether each of the messages can be taken when its turn comes.
    pub open spec fn fits_all(self, msgs: Seq<MsgModel>) -> bool
        decreases msgs.len(),
    {
        msgs.len() > 0 ==> self.fits(msgs[0]) && self.updated(msgs[0]).fits_all(msgs.drop_first())
    }
}

/// Takes messages, one after the other.
pub fn drive(app: &mut App, msgs: Vec<Msg>)
    requires
        old(app).deep_view().fits_all(msgs.deep_view()),
    ensures
        final(app).deep_view() == old(app).deep_view().driven(msgs.deep_view()),
        final(app).input == old(app).input,
{
    let mut rest = msgs;
    let ghost all = app.deep_view().driven(rest.deep_view());
    while rest.len() > 0
        invariant
            app.deep_view().driven(rest.deep_view()) == all,
            app.deep_view().fits_all(rest.deep_view()),
            app.input == old(app).input,
        decreases rest@.len(),
    {
        let ghost before = rest.deep_view();
        let msg = rest.remove(0);
        proof {
            assert(before[0] == msg.deep_view());
            assert(rest.deep_view() =~= before.drop_first());
        }
        app.update(msg);
    }
}

} // verus!
