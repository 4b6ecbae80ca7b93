//! The application state and its `update` reducer.

use crate::appearance::{ColorDepth, ThemeMode};
use crate::client::{
    AgentInfo, AgentInfoModel, ModelChoice, ModelChoiceModel, SessionInfo, SessionInfoModel,
};
use crate::dashboard::{DashboardState, DashboardStateModel};
use crate::events::{LLMEvent, LLMEventModel, Usage};
use crate::input::{Editor, EditorModel};
use crate::json::{contents_all, Json};
use crate::keys::KeyEvent;
use crate::overlay::{first_at, Overlay, OverlayModel};
use crate::sse::{
    PermissionAsked, PermissionAskedModel, QuestionAsked, QuestionAskedModel, ServerEvent,
    ServerEventModel,
};
use crate::text::{contains, has};
use crate::theme::{Theme, Themes};
use crate::transcript::{
    TodoItem, TodoItemModel, TodoStatus, ToolStatus, TranscriptItem, TranscriptItemModel, WorkflowView,
    WorkflowViewModel,
};
use vstd::prelude::*;

verus! {

/// The reply to a question ask.
#[derive(Debug, PartialEq)]
pub enum QuestionReplyKind {
    Answered(Vec<Vec<usize>>),
    Cancelled,
}

/// The value of a [`QuestionReplyKind`].
#[verifier::ext_equal]
pub enum QuestionReplyKindModel {
    Answered(Seq<Seq<usize>>),
    Cancelled,
}

impl DeepView for QuestionReplyKind {
    type V = QuestionReplyKindModel;

    open spec fn deep_view(&self) -> QuestionReplyKindModel {
        match self {
            QuestionReplyKind::Answered(a) => QuestionReplyKindModel::Answered(a.deep_view()),
            QuestionReplyKind::Cancelled => QuestionReplyKindModel::Cancelled,
        }
    }
}

/// Everything the loop can hand to [`App::update`].
#[derive(Debug)]
#[allow(inconsistent_fields)]
pub enum Msg {
    Key(KeyEvent),
    Resize,
    SessionsLoaded(Vec<SessionInfo>),
    /// The dashboard's poll came back.
    DashboardLoaded { sessions: Vec<SessionInfo>, permissions: Vec<PermissionAsked>, questions: Vec<QuestionAsked> },
    /// The latest message of the peeked session came back.
    DashboardPeekLoaded { session_id: String, text: String },
    AgentsLoaded(Vec<AgentInfo>),
    ModelsLoaded(Vec<ModelChoice>),
    HistoryLoaded(Vec<serde_json::Value>),
    Server(LLMEvent),
    Event(ServerEvent),
    Submitted(String),
    Error(String),
    Quit,
    PermissionReply { id: String, reply: String },
    QuestionReply { id: String, reply: QuestionReplyKind },
    SwitchSession(String),
    /// Create a fresh session and switch to it.
    NewSession,
    /// The prompt stream ended.
    PromptEnded,
    ToggleTool,
    ScrollUp,
    ScrollDown,
    ScrollBottom,
    /// Eight times a second: drives the spinner and everything that fades.
    Tick,
    FilesLoaded(Vec<String>, bool),
    ToggleTodos,
    StartWorkflow { kind: String, arg: String },
    CancelWorkflow(String),
    /// Interrupt the running turn of a session without ending the session.
    InterruptTurn(String),
    CyclePermissionMode,
    PermissionModeChanged(String),
    FocusChanged(bool),
    /// The system's appearance was asked for again; nothing where it could not
    /// be told.
    OsThemeChanged(Option<ThemeMode>),
    CreateDashboardSession(String),
    DashboardSessionCreated(SessionInfo),
    DashboardTogglePin,
    DashboardFilterChanged(String),
}

/// The value of a [`Msg`].
#[verifier::ext_equal]
#[allow(inconsistent_fields)]
pub enum MsgModel {
    Key(KeyEvent),
    Resize,
    SessionsLoaded(Seq<SessionInfoModel>),
    DashboardLoaded { sessions: Seq<SessionInfoModel>, permissions: Seq<PermissionAskedModel>, questions: Seq<QuestionAskedModel> },
    DashboardPeekLoaded { session_id: Seq<char>, text: Seq<char> },
    AgentsLoaded(Seq<AgentInfoModel>),
    ModelsLoaded(Seq<ModelChoiceModel>),
    HistoryLoaded(Seq<Json>),
    Server(LLMEventModel),
    Event(ServerEventModel),
    Submitted(Seq<char>),
    Error(Seq<char>),
    Quit,
    PermissionReply { id: Seq<char>, reply: Seq<char> },
    QuestionReply { id: Seq<char>, reply: QuestionReplyKindModel },
    SwitchSession(Seq<char>),
    NewSession,
    PromptEnded,
    ToggleTool,
    ScrollUp,
    ScrollDown,
    ScrollBottom,
    Tick,
    FilesLoaded(Seq<Seq<char>>, bool),
    ToggleTodos,
    StartWorkflow { kind: Seq<char>, arg: Seq<char> },
    CancelWorkflow(Seq<char>),
    InterruptTurn(Seq<char>),
    CyclePermissionMode,
    PermissionModeChanged(Seq<char>),
    FocusChanged(bool),
    OsThemeChanged(Option<ThemeMode>),
    CreateDashboardSession(Seq<char>),
    DashboardSessionCreated(SessionInfoModel),
    DashboardTogglePin,
    DashboardFilterChanged(Seq<char>),
}

impl DeepView for Msg {
    type V = MsgModel;

    open spec fn deep_view(&self) -> MsgModel {
        match self {
            Msg::Key(a) => MsgModel::Key(*a),
            Msg::Resize => MsgModel::Resize,
            Msg::SessionsLoaded(a) => MsgModel::SessionsLoaded(a.deep_view()),
            Msg::DashboardLoaded { sessions, permissions, questions } => MsgModel::DashboardLoaded { sessions: sessions.deep_view(), permissions: permissions.deep_view(), questions: questions.deep_view() },
            Msg::DashboardPeekLoaded { session_id, text } => MsgModel::DashboardPeekLoaded { session_id: session_id.deep_view(), text: text.deep_view() },
            Msg::AgentsLoaded(a) => MsgModel::AgentsLoaded(a.deep_view()),
            Msg::ModelsLoaded(a) => MsgModel::ModelsLoaded(a.deep_view()),
            Msg::HistoryLoaded(a) => MsgModel::HistoryLoaded(contents_all(a@)),
            Msg::Server(a) => MsgModel::Server(a.deep_view()),
            Msg::Event(a) => MsgModel::Event(a.deep_view()),
            Msg::Submitted(a) => MsgModel::Submitted(a.deep_view()),
            Msg::Error(a) => MsgModel::Error(a.deep_view()),
            Msg::Quit => MsgModel::Quit,
            Msg::PermissionReply { id, reply } => MsgModel::PermissionReply { id: id.deep_view(), reply: reply.deep_view() },
            Msg::QuestionReply { id, reply } => MsgModel::QuestionReply { id: id.deep_view(), reply: reply.deep_view() },
            Msg::SwitchSession(a) => MsgModel::SwitchSession(a.deep_view()),
            Msg::NewSession => MsgModel::NewSession,
            Msg::PromptEnded => MsgModel::PromptEnded,
            Msg::ToggleTool => MsgModel::ToggleTool,
            Msg::ScrollUp => MsgModel::ScrollUp,
            Msg::ScrollDown => MsgModel::ScrollDown,
            Msg::ScrollBottom => MsgModel::ScrollBottom,
            Msg::Tick => MsgModel::Tick,
            Msg::FilesLoaded(a, b) => MsgModel::FilesLoaded(a.deep_view(), *b),
            Msg::ToggleTodos => MsgModel::ToggleTodos,
            Msg::StartWorkflow { kind, arg } => MsgModel::StartWorkflow { kind: kind.deep_view(), arg: arg.deep_view() },
            Msg::CancelWorkflow(a) => MsgModel::CancelWorkflow(a.deep_view()),
            Msg::InterruptTurn(a) => MsgModel::InterruptTurn(a.deep_view()),
            Msg::CyclePermissionMode => MsgModel::CyclePermissionMode,
            Msg::PermissionModeChanged(a) => MsgModel::PermissionModeChanged(a.deep_view()),
            Msg::FocusChanged(a) => MsgModel::FocusChanged(*a),
            Msg::OsThemeChanged(a) => MsgModel::OsThemeChanged(*a),
            Msg::CreateDashboardSession(a) => MsgModel::CreateDashboardSession(a.deep_view()),
            Msg::DashboardSessionCreated(a) => MsgModel::DashboardSessionCreated(a.deep_view()),
            Msg::DashboardTogglePin => MsgModel::DashboardTogglePin,
            Msg::DashboardFilterChanged(a) => MsgModel::DashboardFilterChanged(a.deep_view()),
        }
    }
}

/// A side effect that the event loop performs, since it needs the terminal.
#[derive(Debug, Clone, Copy, PartialEq, Eq, Structural)]
pub enum LoopAction {
    /// Copy the last assistant message to the clipboard.
    Yank,
    /// Suspend to the shell and come back.
    Suspend,
    /// Tell that a turn finished, and set the terminal title.
    Notify,
    /// Set the plain terminal title.
    ResetTitle,
    /// Color the cursor for the theme that is now active.
    CursorColor,
}

/// Whether a [`Flash`] confirms or warns.
#[derive(Debug, Clone, Copy, PartialEq, Eq, Structural)]
pub enum FlashKind {
    Success,
    Warning,
}

/// A transient status message that fades after some ticks.
#[derive(Debug)]
pub struct Flash {
    pub msg: String,
    pub kind: FlashKind,
    pub expires_tick: u32,
}

/// The value of a [`Flash`].
#[verifier::ext_equal]
pub struct FlashModel {
    pub msg: Seq<char>,
    pub kind: FlashKind,
    pub expires_tick: u32,
}

impl DeepView for Flash {
    type V = FlashModel;

    open spec fn deep_view(&self) -> FlashModel {
        FlashModel {
            msg: self.msg.deep_view(),
            kind: self.kind,
            expires_tick: self.expires_tick,
        }
    }
}

/// The running wait before a retry.
#[derive(Debug)]
pub struct RetryCountdown {
    /// What the status line begins with.
    pub prefix: String,
    /// The tick at which the wait is over.
    pub expires_tick: u32,
}

/// The value of a [`RetryCountdown`].
#[verifier::ext_equal]
pub struct RetryCountdownModel {
    pub prefix: Seq<char>,
    pub expires_tick: u32,
}

impl DeepView for RetryCountdown {
    type V = RetryCountdownModel;

    open spec fn deep_view(&self) -> RetryCountdownModel {
        RetryCountdownModel {
            prefix: self.prefix.deep_view(),
            expires_tick: self.expires_tick,
        }
    }
}

/// The whole state of the client.
#[derive(Debug)]
pub struct App {
    pub transcript: Vec<TranscriptItem>,
    pub overlay: Overlay,
    pub sessions: Vec<SessionInfo>,
    pub dashboard: DashboardState,
    pub session_id: Option<String>,
    pub agents: Vec<AgentInfo>,
    pub models: Vec<ModelChoice>,
    pub agent: Option<String>,
    pub model: Option<String>,
    pub status: String,
    pub should_quit: bool,
    /// Wrapped rows between the view and the newest content; zero follows it.
    pub scroll: u32,
    /// The selected tool row, as an index into the transcript.
    pub tool_cursor: Option<usize>,
    pub input: Editor,
    /// The terminal's width in columns.
    pub width: u16,
    /// A side effect for the event loop to perform.
    pub pending_action: Option<LoopAction>,
    pub focused: bool,
    /// Whether a "done" terminal title awaits its reset.
    pub title_active: bool,
    /// The assistant text that is being streamed.
    pub open_text: Option<usize>,
    /// The reasoning that is being streamed.
    pub open_reasoning: Option<usize>,
    /// The highlighted row of the open list.
    pub selected: usize,
    pub spinner_frame: usize,
    pub busy_ticks: u32,
    pub tick: u32,
    pub flash: Option<Flash>,
    pub usage: Option<Usage>,
    /// Paths attached to the next prompt by the file picker.
    pub attachments: Vec<String>,
    /// Paths accepted by inline completion; those whose token is still in the
    /// text are attached.
    pub mention_paths: Vec<String>,
    pub todos: Vec<TodoItem>,
    pub todos_collapsed: bool,
    /// The active theme, and those for a dark and a light system.
    pub themes: Themes,
    pub color_depth: ColorDepth,
    /// The system's appearance that is in effect, where the theme follows it.
    pub theme_mode: Option<ThemeMode>,
    /// Grows with every change of the transcript's lines.
    pub render_gen: u64,
    /// How far the last rendering could scroll.
    pub last_scroll_max: u32,
    /// Ticks until the startup splash goes away.
    pub splash: Option<u16>,
    pub workflow: Option<WorkflowView>,
    pub permission_mode: String,
    pub retry: Option<RetryCountdown>,
    /// Input and output tokens of the settled messages of the session.
    pub session_tokens: (u64, u64),
    /// The last usage reading of the message in flight.
    pub msg_usage: Option<(u64, u64)>,
    /// The running tool calls and their transcript rows.
    pub running_tools: Vec<(String, usize)>,
    /// Where the message in flight begins in the transcript.
    pub msg_start: Option<usize>,
}

/// The value of a [`App`].
#[verifier::ext_equal]
pub struct AppModel {
    pub transcript: Seq<TranscriptItemModel>,
    pub overlay: OverlayModel,
    pub sessions: Seq<SessionInfoModel>,
    pub dashboard: DashboardStateModel,
    pub session_id: Option<Seq<char>>,
    pub agents: Seq<AgentInfoModel>,
    pub models: Seq<ModelChoiceModel>,
    pub agent: Option<Seq<char>>,
    pub model: Option<Seq<char>>,
    pub status: Seq<char>,
    pub should_quit: bool,
    pub scroll: u32,
    pub tool_cursor: Option<usize>,
    pub input: EditorModel,
    pub width: u16,
    pub pending_action: Option<LoopAction>,
    pub focused: bool,
    pub title_active: bool,
    pub open_text: Option<usize>,
    pub open_reasoning: Option<usize>,
    pub selected: usize,
    pub spinner_frame: usize,
    pub busy_ticks: u32,
    pub tick: u32,
    pub flash: Option<FlashModel>,
    pub usage: Option<Usage>,
    pub attachments: Seq<Seq<char>>,
    pub mention_paths: Seq<Seq<char>>,
    pub todos: Seq<TodoItemModel>,
    pub todos_collapsed: bool,
    pub themes: Seq<Theme>,
    pub color_depth: ColorDepth,
    pub theme_mode: Option<ThemeMode>,
    pub render_gen: u64,
    pub last_scroll_max: u32,
    pub splash: Option<u16>,
    pub workflow: Option<WorkflowViewModel>,
    pub permission_mode: Seq<char>,
    pub retry: Option<RetryCountdownModel>,
    pub session_tokens: (u64, u64),
    pub msg_usage: Option<(u64, u64)>,
    pub running_tools: Seq<(Seq<char>, usize)>,
    pub msg_start: Option<usize>,
}

impl DeepView for App {
    type V = AppModel;

    #[verifier::opaque]
    open spec fn deep_view(&self) -> AppModel {
        AppModel {
            transcript: self.transcript.deep_view(),
            overlay: self.overlay.deep_view(),
            sessions: self.sessions.deep_view(),
            dashboard: self.dashboard.deep_view(),
            session_id: self.session_id.deep_view(),
            agents: self.agents.deep_view(),
            models: self.models.deep_view(),
            agent: self.agent.deep_view(),
            model: self.model.deep_view(),
            status: self.status.deep_view(),
            should_quit: self.should_quit,
            scroll: self.scroll,
            tool_cursor: self.tool_cursor,
            input: self.input.deep_view(),
            width: self.width,
            pending_action: self.pending_action,
            focused: self.focused,
            title_active: self.title_active,
            open_text: self.open_text,
            open_reasoning: self.open_reasoning,
            selected: self.selected,
            spinner_frame: self.spinner_frame,
            busy_ticks: self.busy_ticks,
            tick: self.tick,
            flash: self.flash.deep_view(),
            usage: self.usage,
            attachments: self.attachments.deep_view(),
            mention_paths: self.mention_paths.deep_view(),
            todos: self.todos.deep_view(),
            todos_collapsed: self.todos_collapsed,
            themes: self.themes.deep_view(),
            color_depth: self.color_depth,
            theme_mode: self.theme_mode,
            render_gen: self.render_gen,
            last_scroll_max: self.last_scroll_max,
            splash: self.splash,
            workflow: self.workflow.deep_view(),
            permission_mode: self.permission_mode.deep_view(),
            retry: self.retry.deep_view(),
            session_tokens: self.session_tokens,
            msg_usage: self.msg_usage,
            running_tools: self.running_tools.deep_view(),
            msg_start: self.msg_start,
        }
    }
}

/// Ticks a flash stays visible: about two seconds.
pub const FLASH_TICKS: u32 = 16;

/// Ticks per second.
pub const TICKS_PER_SEC: u32 = 8;

/// The next generation.
pub open spec fn next_gen(n: u64) -> u64 {
    if n == u64::MAX {
        0
    } else {
        (n + 1) as u64
    }
}

/// `a + b` within 32 bits.
pub open spec fn tick_plus(a: u32, b: u32) -> u32 {
    ((a + b) % 0x1_0000_0000) as u32
}

/// `at` moved by `delta`, kept within a list of `len` items.
pub open spec fn stepped(at: int, delta: int, len: int) -> int {
    if at + delta < 0 {
        0
    } else if at + delta > len - 1 {
        len - 1
    } else {
        at + delta
    }
}

/// `at` moved by `delta`, kept within a list of `len` items.
pub fn step(at: usize, delta: i32, len: usize) -> (r: usize)
    requires
        len > 0,
    ensures
        r == stepped(at as int, delta as int, len as int),
{
    let next: i128 = at as i128 + delta as i128;
    if next < 0 {
        0
    } else if next > (len - 1) as i128 {
        len - 1
    } else {
        next as usize
    }
}

/// Whether the status says that the server is being waited for.
pub open spec fn waits(status: Seq<char>) -> bool {
    has(status, "thinking"@) || has(status, "loading"@) || has(status, "new session"@) || has(
        status,
        "connecting"@,
    ) || has(status, "retrying"@)
}

/// Whether the status says that a turn is running.
pub open spec fn runs_turn(status: Seq<char>) -> bool {
    has(status, "thinking"@) || has(status, "retrying"@)
}

/// The last running tool call: its name and title.
pub open spec fn running_call(items: Seq<TranscriptItemModel>) -> Option<(Seq<char>, Seq<char>)>
    decreases items.len(),
{
    if items.len() == 0 {
        None
    } else {
        match items.last() {
            TranscriptItemModel::Tool { name, status: ToolStatus::Running, title, .. } => Some(
                (name, title),
            ),
            _ => running_call(items.drop_last()),
        }
    }
}

/// The last assistant text.
pub open spec fn last_answer(items: Seq<TranscriptItemModel>) -> Option<Seq<char>>
    decreases items.len(),
{
    if items.len() == 0 {
        None
    } else {
        match items.last() {
            TranscriptItemModel::Assistant(s) => Some(s),
            _ => last_answer(items.drop_last()),
        }
    }
}

/// The places of the tool rows, in order.
pub open spec fn tool_places(items: Seq<TranscriptItemModel>) -> Seq<usize>
    decreases items.len(),
{
    if items.len() == 0 {
        Seq::empty()
    } else {
        let before = tool_places(items.drop_last());
        if items.last() is Tool {
            before.push((items.len() - 1) as usize)
        } else {
            before
        }
    }
}

/// The item with its detail shown or hidden, where it is a tool row.
pub open spec fn unfolded(item: TranscriptItemModel) -> TranscriptItemModel {
    match item {
        TranscriptItemModel::Tool { name, status, title, input, output, expanded } =>
            TranscriptItemModel::Tool { name, status, title, input, output, expanded: !expanded },
        _ => item,
    }
}

/// How many todo items are completed.
pub open spec fn completed(todos: Seq<TodoItemModel>) -> nat
    decreases todos.len(),
{
    if todos.len() == 0 {
        0
    } else {
        completed(todos.drop_last()) + (if todos.last().status == TodoStatus::Completed {
            1nat
        } else {
            0
        })
    }
}

/// Whether a todo item is not done yet.
pub open spec fn unfinished(t: TodoItemModel) -> bool {
    t.status == TodoStatus::Pending || t.status == TodoStatus::InProgress
}

/// Whether some todo item is not done yet.
pub open spec fn any_unfinished(todos: Seq<TodoItemModel>) -> bool {
    exists|i: int| 0 <= i < todos.len() && unfinished(#[trigger] todos[i])
}

/// Whether some todo item is not done yet.
pub(crate) fn some_unfinished(todos: &Vec<TodoItem>) -> (r: bool)
    ensures
        r == any_unfinished(todos.deep_view()),
{
    let mut i: usize = 0;
    while i < todos.len()
        invariant
            i <= todos@.len(),
            forall|k: int| 0 <= k < i ==> !unfinished(#[trigger] todos.deep_view()[k]),
        decreases todos@.len() - i,
    {
        assert(todos.deep_view()[i as int] == todos@[i as int].deep_view());
        let s = todos[i].status;
        if s == TodoStatus::Pending || s == TodoStatus::InProgress {
            return true;
        }
        i += 1;
    }
    false
}

impl AppModel {
    /// The state at startup.
    pub open spec fn fresh() -> AppModel {
        AppModel {
            transcript: Seq::empty(),
            overlay: OverlayModel::Closed,
            sessions: Seq::empty(),
            dashboard: DashboardStateModel::fresh(Set::empty()),
            session_id: None,
            agents: Seq::empty(),
            models: Seq::empty(),
            agent: None,
            model: None,
            status: "connecting…"@,
            should_quit: false,
            scroll: 0,
            tool_cursor: None,
            input: EditorModel::blank(),
            width: 0,
            pending_action: None,
            focused: true,
            title_active: false,
            open_text: None,
            open_reasoning: None,
            selected: 0,
            spinner_frame: 0,
            busy_ticks: 0,
            tick: 0,
            flash: None,
            usage: None,
            attachments: Seq::empty(),
            mention_paths: Seq::empty(),
            todos: Seq::empty(),
            todos_collapsed: false,
            themes: Themes::default_themes(),
            color_depth: ColorDepth::TrueColor,
            theme_mode: None,
            render_gen: 0,
            last_scroll_max: 0,
            splash: None,
            workflow: None,
            permission_mode: "approve-each"@,
            retry: None,
            session_tokens: (0, 0),
            msg_usage: None,
            running_tools: Seq::empty(),
            msg_start: None,
        }
    }

    /// With the transcript's lines marked as changed.
    pub open spec fn bumped(self) -> AppModel {
        AppModel { render_gen: next_gen(self.render_gen), ..self }
    }

    /// With the start of the message in flight marked, unless it is already.
    pub open spec fn begun(self) -> AppModel {
        if self.msg_start is Some {
            self
        } else {
            AppModel { msg_start: Some(self.transcript.len() as usize), ..self }
        }
    }

    /// With one more transcript item.
    pub open spec fn with_item(self, item: TranscriptItemModel) -> AppModel {
        AppModel { transcript: self.transcript.push(item), ..self }
    }

    /// With a transient status message.
    pub open spec fn flashed(self, msg: Seq<char>, kind: FlashKind) -> AppModel {
        AppModel {
            flash: Some(FlashModel { msg, kind, expires_tick: tick_plus(self.tick, FLASH_TICKS) }),
            ..self
        }
    }

    /// With another overlay.
    pub open spec fn showing(self, overlay: OverlayModel) -> AppModel {
        AppModel { overlay, ..self }
    }

    /// With no overlay.
    pub open spec fn closed(self) -> AppModel {
        self.showing(OverlayModel::Closed)
    }

    /// With a list overlay open at its first row.
    pub open spec fn picking(self, overlay: OverlayModel) -> AppModel {
        AppModel { overlay, selected: 0, ..self }
    }

    /// With the dashboard open and empty; only the pins are kept.
    #[verifier::opaque]
    pub open spec fn dashboard_opened(self) -> AppModel {
        AppModel {
            dashboard: DashboardStateModel::fresh(self.dashboard.pinned),
            overlay: OverlayModel::Dashboard,
            ..self
        }
    }

    /// How many rows the open list has; zero where no list is open.
    pub open spec fn list_len(self) -> nat {
        match self.overlay {
            OverlayModel::Sessions => self.sessions.len(),
            OverlayModel::Models => self.models.len(),
            OverlayModel::Agents => self.agents.len(),
            _ => 0,
        }
    }

    /// With the list selection moved.
    #[verifier::opaque]
    pub open spec fn list_moved(self, delta: int) -> AppModel {
        if self.list_len() == 0 {
            self
        } else {
            AppModel {
                selected: stepped(self.selected as int, delta, self.list_len() as int) as usize,
                ..self
            }
        }
    }

    /// With the selected row of the open list taken, and the list closed.
    #[verifier::opaque]
    pub open spec fn list_taken(self) -> AppModel {
        match self.overlay {
            OverlayModel::Models => if self.selected < self.models.len() {
                (AppModel { model: Some(self.models[self.selected as int].id()), ..self }).closed()
            } else {
                self.closed()
            },
            OverlayModel::Agents => if self.selected < self.agents.len() {
                (AppModel { agent: Some(self.agents[self.selected as int].name), ..self }).closed()
            } else {
                self.closed()
            },
            _ => self.closed(),
        }
    }

    /// What taking the selected row asks of the loop: to switch to the session.
    pub open spec fn list_request(self) -> Option<MsgModel> {
        if self.overlay is Sessions && self.selected < self.sessions.len() {
            Some(MsgModel::SwitchSession(self.sessions[self.selected as int].id))
        } else {
            None
        }
    }

    /// With the workflow panel opened, or closed where it was open. Without a
    /// workflow it does not open.
    #[verifier::opaque]
    pub open spec fn workflow_toggled(self) -> AppModel {
        if self.overlay is WorkflowStatus {
            self.closed()
        } else if self.workflow is Some {
            self.showing(OverlayModel::WorkflowStatus)
        } else {
            self
        }
    }

    /// Scrolled toward older content, as far as there is any.
    #[verifier::opaque]
    pub open spec fn scrolled_up(self, n: u32) -> AppModel {
        let far = if self.scroll + n > u32::MAX {
            u32::MAX as int
        } else {
            self.scroll + n
        };
        AppModel {
            scroll: if far > self.last_scroll_max {
                self.last_scroll_max
            } else {
                far as u32
            },
            ..self
        }
    }

    /// Scrolled toward the newest content.
    #[verifier::opaque]
    pub open spec fn scrolled_down(self, n: u32) -> AppModel {
        AppModel {
            scroll: if self.scroll < n {
                0
            } else {
                (self.scroll - n) as u32
            },
            ..self
        }
    }

    /// With the detail of the row at `i` shown or hidden, where it is a tool row.
    pub open spec fn row_unfolded(self, i: int) -> AppModel {
        if 0 <= i < self.transcript.len() && self.transcript[i] is Tool {
            (AppModel {
                transcript: self.transcript.update(i, unfolded(self.transcript[i])),
                ..self
            }).bumped()
        } else {
            self
        }
    }

    /// With the detail of the newest tool row shown or hidden.
    pub open spec fn last_unfolded(self) -> AppModel {
        let tools = tool_places(self.transcript);
        if tools.len() == 0 {
            self
        } else {
            self.row_unfolded(tools.last() as int)
        }
    }

    /// With the detail of the selected tool row, or of the newest one where none
    /// is selected, shown or hidden.
    #[verifier::opaque]
    pub open spec fn tool_unfolded(self) -> AppModel {
        match self.tool_cursor {
            Some(i) => self.row_unfolded(i as int),
            None => self.last_unfolded(),
        }
    }

    /// With the previous tool row selected; from none, the newest.
    #[verifier::opaque]
    pub open spec fn prev_tool(self) -> AppModel {
        let tools = tool_places(self.transcript);
        if tools.len() == 0 {
            self
        } else {
            AppModel {
                tool_cursor: match self.tool_cursor {
                    None => Some(tools.last()),
                    Some(cur) => {
                        let pos = first_at(tools, cur);
                        if pos == 0 {
                            Some(tools[0])
                        } else {
                            Some(tools[pos - 1])
                        }
                    },
                },
                ..self
            }
        }
    }

    /// With the next tool row selected; past the newest, none.
    #[verifier::opaque]
    pub open spec fn next_tool(self) -> AppModel {
        let tools = tool_places(self.transcript);
        if tools.len() == 0 {
            self
        } else {
            AppModel {
                tool_cursor: match self.tool_cursor {
                    None => None,
                    Some(cur) => {
                        let pos = first_at(tools, cur);
                        if pos + 1 < tools.len() {
                            Some(tools[pos as int + 1])
                        } else {
                            None
                        }
                    },
                },
                ..self
            }
        }
    }

    /// With the counters of the session at zero.
    pub open spec fn counters_reset(self) -> AppModel {
        AppModel { session_tokens: (0, 0), msg_usage: None, usage: None, ..self }
    }
}

/// The tokens in use: the total, or the sum of input and output where only those
/// are known.
pub open spec fn used_tokens(u: Usage) -> Option<int> {
    match u.total_tokens {
        Some(t) => Some(t as int),
        None => match (u.input_tokens, u.output_tokens) {
            (Some(i), Some(o)) => Some(i + o),
            _ => None,
        },
    }
}

/// Input and output tokens, zero where they are not known.
pub open spec fn in_out(u: Usage) -> (u64, u64) {
    (
        match u.input_tokens {
            Some(n) => n,
            None => 0,
        },
        match u.output_tokens {
            Some(n) => n,
            None => 0,
        },
    )
}

/// Input and output tokens, zero where they are not known.
pub fn usage_in_out(u: &Usage) -> (r: (u64, u64))
    ensures
        r == in_out(*u),
{
    let i: u64 = match u.input_tokens {
        Some(n) => n,
        None => 0,
    };
    let o: u64 = match u.output_tokens {
        Some(n) => n,
        None => 0,
    };
    (i, o)
}

/// How much of a context window of `limit` tokens is used, in whole percent,
/// at most one hundred. Nothing where the use or the limit is not known.
pub open spec fn context_share(u: Option<Usage>, limit: Option<u64>) -> Option<u8> {
    match (u, limit) {
        (Some(u), Some(l)) => if used_tokens(u) is Some && l > 0 {
            let used = match u.input_tokens {
                Some(n) => n as int,
                None => used_tokens(u)->0,
            };
            let pct = used * 100 / l as int;
            Some(
                if pct > 100 {
                    100
                } else {
                    pct as u8
                },
            )
        } else {
            None
        },
        _ => None,
    }
}

impl App {
    #[must_use]
    pub fn new() -> (r: Self)
        ensures
            r.deep_view() == AppModel::fresh(),
            r.input.wf(),
    {
        reveal(<App as DeepView>::deep_view);
        let r = App {
            transcript: Vec::new(),
            overlay: Overlay::Closed,
            sessions: Vec::new(),
            dashboard: DashboardState::default(),
            session_id: None,
            agents: Vec::new(),
            models: Vec::new(),
            agent: None,
            model: None,
            status: "connecting…".to_owned(),
            should_quit: false,
            scroll: 0,
            tool_cursor: None,
            input: Editor::new(),
            width: 0,
            pending_action: None,
            focused: true,
            title_active: false,
            open_text: None,
            open_reasoning: None,
            selected: 0,
            spinner_frame: 0,
            busy_ticks: 0,
            tick: 0,
            flash: None,
            usage: None,
            attachments: Vec::new(),
            mention_paths: Vec::new(),
            todos: Vec::new(),
            todos_collapsed: false,
            themes: Themes::new(),
            color_depth: ColorDepth::TrueColor,
            theme_mode: None,
            render_gen: 0,
            last_scroll_max: 0,
            splash: None,
            workflow: None,
            permission_mode: "approve-each".to_owned(),
            retry: None,
            session_tokens: (0, 0),
            msg_usage: None,
            running_tools: Vec::new(),
            msg_start: None,
        };
        assert(r.deep_view() =~= AppModel::fresh());
        r
    }

    /// Marks the transcript's lines as changed.
    pub(crate) fn bump_render(&mut self)
        ensures
            final(self).deep_view() == old(self).deep_view().bumped(),
            final(self).input == old(self).input,
    {
        reveal(<App as DeepView>::deep_view);
        self.render_gen = if self.render_gen == u64::MAX {
            0
        } else {
            self.render_gen + 1
        };
    }

    /// Marks where the message in flight begins, unless it is marked already.
    pub(crate) fn mark_msg_start(&mut self)
        ensures
            final(self).deep_view() == old(self).deep_view().begun(),
            final(self).input == old(self).input,
    {
        reveal(<App as DeepView>::deep_view);
        if self.msg_start.is_none() {
            self.msg_start = Some(self.transcript.len());
        }
    }

    /// Appends an item to the transcript.
    pub(crate) fn push_item(&mut self, item: TranscriptItem)
        ensures
            final(self).deep_view() == old(self).deep_view().with_item(item.deep_view()),
            final(self).input == old(self).input,
    {
        reveal(<App as DeepView>::deep_view);
        let ghost before = self.transcript.deep_view();
        let ghost m = item.deep_view();
        self.transcript.push(item);
        assert(self.transcript.deep_view() =~= before.push(m));
    }

    /// Whether the server is being waited for: the spinner turns.
    #[must_use]
    pub fn is_busy(&self) -> (r: bool)
        ensures
            r == waits(self.status@),
    {
        let s = self.status.as_str();
        contains(s, "thinking") || contains(s, "loading") || contains(s, "new session")
            || contains(s, "connecting") || contains(s, "retrying")
    }

    /// Whether a turn is running that can be interrupted: not at startup, while
    /// loading, or while a session is created.
    #[must_use]
    pub fn turn_in_flight(&self) -> (r: bool)
        ensures
            r == runs_turn(self.status@),
    {
        contains(self.status.as_str(), "thinking") || contains(self.status.as_str(), "retrying")
    }

    /// Name and title of the newest tool that is still running, if any.
    #[must_use]
    pub fn running_tool(&self) -> (r: Option<(&str, &str)>)
        ensures
            match r {
                Some((n, t)) => running_call(self.deep_view().transcript) == Some((n@, t@)),
                None => running_call(self.deep_view().transcript) is None,
            },
    {
        reveal(<App as DeepView>::deep_view);
        let ghost all = self.transcript.deep_view();
        let mut n: usize = self.transcript.len();
        assert(all.take(n as int) =~= all);
        while n > 0
            invariant
                n <= self.transcript@.len(),
                all == self.transcript.deep_view(),
                all == self.deep_view().transcript,
                running_call(all) == running_call(all.take(n as int)),
            decreases n,
        {
            proof {
                assert(all.take(n as int).last() == self.transcript@[n - 1].deep_view());
                assert(all.take(n as int).drop_last() =~= all.take(n - 1));
            }
            match &self.transcript[n - 1] {
                TranscriptItem::Tool { name, status, title, .. } => {
                    if *status == ToolStatus::Running {
                        return Some((name.as_str(), title.as_str()));
                    }
                },
                _ => {},
            }
            n -= 1;
        }
        None
    }

    /// The text of the newest assistant message, if any.
    #[must_use]
    pub fn last_assistant_text(&self) -> (r: Option<&str>)
        ensures
            match r {
                Some(t) => last_answer(self.deep_view().transcript) == Some(t@),
                None => last_answer(self.deep_view().transcript) is None,
            },
    {
        reveal(<App as DeepView>::deep_view);
        let ghost all = self.transcript.deep_view();
        let mut n: usize = self.transcript.len();
        assert(all.take(n as int) =~= all);
        while n > 0
            invariant
                n <= self.transcript@.len(),
                all == self.transcript.deep_view(),
                all == self.deep_view().transcript,
                last_answer(all) == last_answer(all.take(n as int)),
            decreases n,
        {
            proof {
                assert(all.take(n as int).last() == self.transcript@[n - 1].deep_view());
                assert(all.take(n as int).drop_last() =~= all.take(n - 1));
            }
            match &self.transcript[n - 1] {
                TranscriptItem::Assistant(s) => {
                    return Some(s.as_str());
                },
                _ => {},
            }
            n -= 1;
        }
        None
    }

    /// Shows a transient confirmation.
    pub fn flash(&mut self, msg: &str)
        ensures
            final(self).deep_view() == old(self).deep_view().flashed(msg@, FlashKind::Success),
            final(self).input == old(self).input,
    {
        self.flash_with_kind(msg, FlashKind::Success);
    }

    /// Shows a transient warning.
    pub fn flash_warning(&mut self, msg: &str)
        ensures
            final(self).deep_view() == old(self).deep_view().flashed(msg@, FlashKind::Warning),
            final(self).input == old(self).input,
    {
        self.flash_with_kind(msg, FlashKind::Warning);
    }

    fn flash_with_kind(&mut self, msg: &str, kind: FlashKind)
        ensures
            final(self).deep_view() == old(self).deep_view().flashed(msg@, kind),
            final(self).input == old(self).input,
    {
        reveal(<App as DeepView>::deep_view);
        self.flash = Some(
            Flash { msg: msg.to_owned(), kind, expires_tick: self.tick.wrapping_add(FLASH_TICKS) },
        );
    }

    pub fn close_overlay(&mut self)
        ensures
            final(self).deep_view() == old(self).deep_view().closed(),
            final(self).input == old(self).input,
    {
        reveal(<App as DeepView>::deep_view);
        self.overlay = Overlay::Closed;
    }

    pub fn open_picker(&mut self, overlay: Overlay)
        ensures
            final(self).deep_view() == old(self).deep_view().picking(overlay.deep_view()),
            final(self).input == old(self).input,
    {
        reveal(<App as DeepView>::deep_view);
        self.selected = 0;
        self.overlay = overlay;
    }

    /// Opens the dashboard without what it showed before; the pins stay.
    pub fn open_dashboard(&mut self)
        ensures
            final(self).deep_view() == old(self).deep_view().dashboard_opened(),
            final(self).input == old(self).input,
    {
        reveal(AppModel::dashboard_opened);
        reveal(<App as DeepView>::deep_view);
        let mut fresh = DashboardState::default();
        std::mem::swap(&mut fresh.pinned, &mut self.dashboard.pinned);
        self.dashboard = fresh;
        self.overlay = Overlay::Dashboard;
    }

    /// How many rows the open list has.
    #[must_use]
    pub fn picker_len(&self) -> (r: usize)
        ensures
            r == self.deep_view().list_len(),
    {
        reveal(<App as DeepView>::deep_view);
        match &self.overlay {
            Overlay::Sessions => self.sessions.len(),
            Overlay::Models => self.models.len(),
            Overlay::Agents => self.agents.len(),
            _ => 0,
        }
    }

    /// Moves the list selection, within the list.
    pub fn picker_move(&mut self, delta: i32)
        ensures
            final(self).deep_view() == old(self).deep_view().list_moved(delta as int),
            final(self).input == old(self).input,
    {
        reveal(AppModel::list_moved);
        reveal(<App as DeepView>::deep_view);
        let len: usize = self.picker_len();
        if len == 0 {
            return;
        }
        self.selected = step(self.selected, delta, len);
    }

    /// Takes the selected row and closes the list. Taking a session asks the loop
    /// to switch to it.
    pub fn picker_confirm(&mut self) -> (r: Option<Msg>)
        ensures
            final(self).deep_view() == old(self).deep_view().list_taken(),
            r.deep_view() == old(self).deep_view().list_request(),
            final(self).input == old(self).input,
    {
        reveal(AppModel::list_taken);
        reveal(<App as DeepView>::deep_view);
        let ghost start = self.deep_view();
        let mut out: Option<Msg> = None;
        match &self.overlay {
            Overlay::Models => {
                if self.selected < self.models.len() {
                    assert(start.models[self.selected as int]
                        == self.models@[self.selected as int].deep_view());
                    self.model = Some(self.models[self.selected].id());
                }
            },
            Overlay::Agents => {
                if self.selected < self.agents.len() {
                    assert(start.agents[self.selected as int]
                        == self.agents@[self.selected as int].deep_view());
                    self.agent = Some(self.agents[self.selected].name.clone());
                }
            },
            Overlay::Sessions => {
                if self.selected < self.sessions.len() {
                    assert(start.sessions[self.selected as int]
                        == self.sessions@[self.selected as int].deep_view());
                    out = Some(Msg::SwitchSession(self.sessions[self.selected].id.clone()));
                }
            },
            _ => {},
        }
        self.close_overlay();
        out
    }

    /// Opens the workflow panel, or closes it where it is open. Without a
    /// workflow it does not open.
    pub fn toggle_workflow_status(&mut self)
        ensures
            final(self).deep_view() == old(self).deep_view().workflow_toggled(),
            final(self).input == old(self).input,
    {
        reveal(AppModel::workflow_toggled);
        reveal(<App as DeepView>::deep_view);
        if matches!(self.overlay, Overlay::WorkflowStatus) {
            self.overlay = Overlay::Closed;
        } else if self.workflow.is_some() {
            self.overlay = Overlay::WorkflowStatus;
        }
    }

    /// Scrolls `n` rows toward older content, as far as the last rendering could.
    pub fn scroll_up(&mut self, n: u32)
        ensures
            final(self).deep_view() == old(self).deep_view().scrolled_up(n),
            final(self).input == old(self).input,
    {
        reveal(AppModel::scrolled_up);
        reveal(<App as DeepView>::deep_view);
        let far: u32 = self.scroll.saturating_add(n);
        self.scroll = if far > self.last_scroll_max {
            self.last_scroll_max
        } else {
            far
        };
    }

    /// Scrolls `n` rows toward the newest content; zero follows it.
    pub fn scroll_down(&mut self, n: u32)
        ensures
            final(self).deep_view() == old(self).deep_view().scrolled_down(n),
            final(self).input == old(self).input,
    {
        reveal(AppModel::scrolled_down);
        reveal(<App as DeepView>::deep_view);
        self.scroll = self.scroll.saturating_sub(n);
    }

    pub fn scroll_to_bottom(&mut self)
        ensures
            final(self).deep_view() == (AppModel { scroll: 0, ..old(self).deep_view() }),
            final(self).input == old(self).input,
    {
        reveal(<App as DeepView>::deep_view);
        self.scroll = 0;
    }

    /// Whether the view follows the newest content.
    #[must_use]
    pub fn is_following(&self) -> (r: bool)
        ensures
            r == (self.scroll == 0),
    {
        self.scroll == 0
    }

    /// Whether some todo item is not done yet: the todo panel shows.
    #[must_use]
    pub fn todos_active(&self) -> (r: bool)
        ensures
            r == any_unfinished(self.deep_view().todos),
    {
        reveal(<App as DeepView>::deep_view);
        some_unfinished(&self.todos)
    }

    /// How many todo items are completed, and how many there are.
    #[must_use]
    pub fn todos_done_total(&self) -> (r: (usize, usize))
        ensures
            r.0 == completed(self.deep_view().todos),
            r.1 == self.deep_view().todos.len(),
    {
        reveal(<App as DeepView>::deep_view);
        let ghost all = self.todos.deep_view();
        let mut done: usize = 0;
        let mut i: usize = 0;
        while i < self.todos.len()
            invariant
                i <= self.todos@.len(),
                all == self.todos.deep_view(),
                done == completed(all.take(i as int)),
                done <= i,
            decreases self.todos@.len() - i,
        {
            proof {
                assert(all.take(i + 1).drop_last() =~= all.take(i as int));
                assert(all.take(i + 1).last() == self.todos@[i as int].deep_view());
            }
            if self.todos[i].status == TodoStatus::Completed {
                done += 1;
            }
            i += 1;
        }
        assert(all.take(i as int) =~= all);
        (done, self.todos.len())
    }

    /// The places of the tool rows, in order.
    fn tool_indices(&self) -> (r: Vec<usize>)
        ensures
            r@ == tool_places(self.deep_view().transcript),
    {
        reveal(<App as DeepView>::deep_view);
        let ghost all = self.transcript.deep_view();
        let mut out: Vec<usize> = Vec::new();
        let mut i: usize = 0;
        while i < self.transcript.len()
            invariant
                i <= self.transcript@.len(),
                all == self.transcript.deep_view(),
                out@ == tool_places(all.take(i as int)),
            decreases self.transcript@.len() - i,
        {
            proof {
                assert(all.take(i + 1).drop_last() =~= all.take(i as int));
                assert(all.take(i + 1).last() == self.transcript@[i as int].deep_view());
            }
            if matches!(self.transcript[i], TranscriptItem::Tool { .. }) {
                out.push(i);
            }
            i += 1;
        }
        assert(all.take(i as int) =~= all);
        out
    }

    /// Where `x` first stands in `v`; the length where it does not.
    fn place_of(v: &Vec<usize>, x: usize) -> (r: usize)
        ensures
            r == first_at(v@, x),
            r <= v@.len(),
    {
        let mut p: usize = 0;
        assert(v@.skip(0) =~= v@);
        while p < v.len() && v[p] != x
            invariant
                p <= v@.len(),
                first_at(v@, x) == p + first_at(v@.skip(p as int), x),
            decreases v@.len() - p,
        {
            assert(v@.skip(p as int).skip(1) =~= v@.skip(p + 1));
            p += 1;
        }
        p
    }

    /// Shows or hides the detail of the row at `i`, where it is a tool row.
    fn toggle_row(&mut self, i: usize)
        ensures
            final(self).deep_view() == old(self).deep_view().row_unfolded(i as int),
            final(self).input == old(self).input,
    {
        reveal(<App as DeepView>::deep_view);
        let ghost before = self.transcript.deep_view();
        let mut found: bool = false;
        if i < self.transcript.len() {
            assert(before[i as int] == self.transcript@[i as int].deep_view());
            match &mut self.transcript[i] {
                TranscriptItem::Tool { expanded, .. } => {
                    *expanded = !*expanded;
                    found = true;
                },
                _ => {},
            }
        }
        if found {
            assert(self.transcript.deep_view() =~= before.update(
                i as int,
                unfolded(before[i as int]),
            ));
            self.bump_render();
        } else {
            assert(self.transcript.deep_view() =~= before);
        }
    }

    /// Shows or hides the detail of the newest tool row, if any.
    pub fn toggle_last_tool(&mut self)
        ensures
            final(self).deep_view() == old(self).deep_view().last_unfolded(),
            final(self).input == old(self).input,
    {
        reveal(<App as DeepView>::deep_view);
        let tools = self.tool_indices();
        if tools.len() > 0 {
            self.toggle_row(tools[tools.len() - 1]);
        }
    }

    /// Shows or hides the detail of the selected tool row, or of the newest one
    /// where none is selected.
    pub fn toggle_selected_or_last_tool(&mut self)
        ensures
            final(self).deep_view() == old(self).deep_view().tool_unfolded(),
            final(self).input == old(self).input,
    {
        reveal(<App as DeepView>::deep_view);
        reveal(AppModel::tool_unfolded);
        match self.tool_cursor {
            Some(i) => self.toggle_row(i),
            None => self.toggle_last_tool(),
        }
    }

    /// Selects the previous tool row; from none, the newest. Does nothing without
    /// tool rows.
    pub fn select_prev_tool(&mut self)
        ensures
            final(self).deep_view() == old(self).deep_view().prev_tool(),
            final(self).input == old(self).input,
    {
        reveal(AppModel::prev_tool);
        reveal(<App as DeepView>::deep_view);
        let tools = self.tool_indices();
        if tools.len() == 0 {
            return;
        }
        self.tool_cursor = match self.tool_cursor {
            None => Some(tools[tools.len() - 1]),
            Some(cur) => {
                let pos: usize = App::place_of(&tools, cur);
                if pos == 0 {
                    Some(tools[0])
                } else {
                    Some(tools[pos - 1])
                }
            },
        };
    }

    /// Selects the next tool row; past the newest, none.
    pub fn select_next_tool(&mut self)
        ensures
            final(self).deep_view() == old(self).deep_view().next_tool(),
            final(self).input == old(self).input,
    {
        reveal(AppModel::next_tool);
        reveal(<App as DeepView>::deep_view);
        let tools = self.tool_indices();
        let n: usize = tools.len();
        if n == 0 {
            return;
        }
        self.tool_cursor = match self.tool_cursor {
            None => None,
            Some(cur) => {
                let pos: usize = App::place_of(&tools, cur);
                if pos < n - 1 {
                    Some(tools[pos + 1])
                } else {
                    None
                }
            },
        };
    }

    /// Starts the session's counters over, for another session.
    pub fn reset_session_counters(&mut self)
        ensures
            final(self).deep_view() == old(self).deep_view().counters_reset(),
            final(self).input == old(self).input,
    {
        reveal(<App as DeepView>::deep_view);
        self.session_tokens = (0, 0);
        self.msg_usage = None;
        self.usage = None;
    }

    /// How much of the model's context window is used, in whole percent, given
    /// the window's size.
    #[must_use]
    pub fn context_pct(&self, limit: Option<u64>) -> (r: Option<u8>)
        ensures
            r == context_share(self.usage, limit),
    {
        let u = match self.usage {
            Some(u) => u,
            None => {
                return None;
            },
        };
        let l: u128 = match limit {
            Some(l) => l as u128,
            None => {
                return None;
            },
        };
        if l == 0 {
            return None;
        }
        let total: u128 = match u.total_tokens {
            Some(t) => t as u128,
            None => match (u.input_tokens, u.output_tokens) {
                (Some(i), Some(o)) => i as u128 + o as u128,
                _ => {
                    return None;
                },
            },
        };
        let used: u128 = match u.input_tokens {
            Some(n) => n as u128,
            None => total,
        };
        let pct: u128 = used * 100 / l;
        if pct > 100 {
            Some(100)
        } else {
            Some(pct as u8)
        }
    }
}

impl Default for App {
    fn default() -> (r: Self)
        ensures
            r.deep_view() == AppModel::fresh(),
            r.input.wf(),
    {
        reveal(<App as DeepView>::deep_view);
        App::new()
    }
}

} // verus!
