//! Dispatch: what a message asks of the server besides changing the state.

use crate::appearance::{auto_themes, fixed_theme, follows_os, is_auto, quantized, ThemeMode};
use crate::client::{opt_text, SessionInfo};
use crate::dashboard::DashboardPeek;
use crate::input::EditTime;
use crate::json::Json;
use crate::keys::KeyEvent;
use crate::overlay::Overlay;
use crate::reactions::{lemma_tells_end, lemma_tells_two, tells};
use crate::sse::{PermissionAsked, QuestionAsked, ServerEvent, ServerEventModel};
use crate::state::{
    runs_turn, waits, App, AppModel, FlashKind, LoopAction, Msg, MsgModel, QuestionReplyKind,
    QuestionReplyKindModel,
};
use crate::text::{begins_with, cat, copied, occurs_at, same};
use crate::theme::{dark_theme, preset_theme, startup_theme, Themes};
use crate::transcript::{history_of, TranscriptItemModel};
use vstd::prelude::*;
use vstd::string::*;

verus! {

/// What the loop has to ask of the server, and what comes of the answer.
#[allow(inconsistent_fields)]
#[derive(Debug, PartialEq)]
pub enum Effect {
    /// Load a session's messages: `Msg::HistoryLoaded`.
    LoadHistory(String),
    /// Create a session with this title and switch to it: `Msg::SwitchSession`,
    /// or `Msg::Error`.
    CreateSession(String),
    /// Create a session with this title: `Msg::DashboardSessionCreated`, or
    /// `Msg::Error`.
    CreateDashboardSession(String),
    ReplyPermission { id: String, reply: String },
    ReplyQuestion { id: String, reply: QuestionReplyKind },
    SetPermissionMode { session: String, mode: String },
    /// Send a prompt: `Msg::Server` for each event, or `Msg::Error`, then
    /// `Msg::PromptEnded`.
    Prompt { session: String, text: String, agent: Option<String>, model: Option<String>, files: Vec<String> },
    StartWorkflow { kind: String, arg: String, parent: Option<String> },
    CancelWorkflow(String),
    CancelRun(String),
    /// Fetch sessions, permission asks and question asks: `Msg::DashboardLoaded`,
    /// or nothing where one of the three fails.
    FetchDashboard,
    /// List files: `Msg::FilesLoaded`.
    ListFiles,
    /// List sessions: `Msg::SessionsLoaded`.
    LoadSessions,
    /// Load a session's messages for its preview: `Msg::DashboardPeekLoaded`.
    LoadPeek(String),
}

/// The value of a [`Effect`].
#[allow(inconsistent_fields)]
#[verifier::ext_equal]
pub enum EffectModel {
    LoadHistory(Seq<char>),
    CreateSession(Seq<char>),
    CreateDashboardSession(Seq<char>),
    ReplyPermission { id: Seq<char>, reply: Seq<char> },
    ReplyQuestion { id: Seq<char>, reply: QuestionReplyKindModel },
    SetPermissionMode { session: Seq<char>, mode: Seq<char> },
    Prompt { session: Seq<char>, text: Seq<char>, agent: Option<Seq<char>>, model: Option<Seq<char>>, files: Seq<Seq<char>> },
    StartWorkflow { kind: Seq<char>, arg: Seq<char>, parent: Option<Seq<char>> },
    CancelWorkflow(Seq<char>),
    CancelRun(Seq<char>),
    FetchDashboard,
    ListFiles,
    LoadSessions,
    LoadPeek(Seq<char>),
}

impl DeepView for Effect {
    type V = EffectModel;

    open spec fn deep_view(&self) -> EffectModel {
        match self {
            Effect::LoadHistory(a) => EffectModel::LoadHistory(a.deep_view()),
            Effect::CreateSession(a) => EffectModel::CreateSession(a.deep_view()),
            Effect::CreateDashboardSession(a) => EffectModel::CreateDashboardSession(a.deep_view()),
            Effect::ReplyPermission { id, reply } => EffectModel::ReplyPermission { id: id.deep_view(), reply: reply.deep_view() },
            Effect::ReplyQuestion { id, reply } => EffectModel::ReplyQuestion { id: id.deep_view(), reply: reply.deep_view() },
            Effect::SetPermissionMode { session, mode } => EffectModel::SetPermissionMode { session: session.deep_view(), mode: mode.deep_view() },
            Effect::Prompt { session, text, agent, model, files } => EffectModel::Prompt { session: session.deep_view(), text: text.deep_view(), agent: agent.deep_view(), model: model.deep_view(), files: files.deep_view() },
            Effect::StartWorkflow { kind, arg, parent } => EffectModel::StartWorkflow { kind: kind.deep_view(), arg: arg.deep_view(), parent: parent.deep_view() },
            Effect::CancelWorkflow(a) => EffectModel::CancelWorkflow(a.deep_view()),
            Effect::CancelRun(a) => EffectModel::CancelRun(a.deep_view()),
            Effect::FetchDashboard => EffectModel::FetchDashboard,
            Effect::ListFiles => EffectModel::ListFiles,
            Effect::LoadSessions => EffectModel::LoadSessions,
            Effect::LoadPeek(a) => EffectModel::LoadPeek(a.deep_view()),
        }
    }
}

/// How many ticks pass between two polls of the open dashboard: two seconds.
pub const DASHBOARD_POLL_TICKS: u32 = 16;

/// How many paths a file list is asked for.
pub const FILE_LIST_LIMIT: usize = 1000;

/// Whether a dashboard poll is due on this tick.
pub fn dashboard_poll_due(tick: u32) -> (r: bool)
    ensures
        r == (tick as int % DASHBOARD_POLL_TICKS as int == 0),
{
    tick % DASHBOARD_POLL_TICKS == 0
}

/// How long to wait before the event stream is opened again, in seconds: twice as
/// long for each attempt, at most fifteen.
pub open spec fn backoff(attempt: u32) -> u64 {
    if attempt <= 1 {
        1
    } else if attempt == 2 {
        2
    } else if attempt == 3 {
        4
    } else if attempt == 4 {
        8
    } else {
        15
    }
}

/// How long to wait before attempt `attempt` (counted from one) to open the event
/// stream again, in seconds: 1, 2, 4, 8, then 15.
pub fn event_reconnect_delay(attempt: u32) -> (r: u64)
    ensures
        r == backoff(attempt),
{
    if attempt <= 1 {
        1
    } else if attempt == 2 {
        2
    } else if attempt == 3 {
        4
    } else if attempt == 4 {
        8
    } else {
        15
    }
}

/// The attempts that have failed in a row once the event stream has ended again,
/// and how long to wait before the next, in seconds. A stream that was opened
/// starts the count over.
pub fn after_stream(attempt: u32, opened: bool) -> (r: (u32, u64))
    ensures
        r.0 == if opened {
            1u32
        } else if attempt < u32::MAX {
            (attempt + 1) as u32
        } else {
            u32::MAX
        },
        r.1 == backoff(r.0),
{
    let count: u32 = if opened {
        1
    } else {
        attempt.saturating_add(1)
    };
    (count, event_reconnect_delay(count))
}

/// Each wait is twice the previous one, as long as that stays within fifteen
/// seconds, and never shorter.
pub proof fn law_backoff_doubles(attempt: u32)
    requires
        1 <= attempt < u32::MAX,
    ensures
        backoff((attempt + 1) as u32) == (if 2 * backoff(attempt) <= 15 {
            2 * backoff(attempt)
        } else {
            15
        }),
        backoff(attempt) <= backoff((attempt + 1) as u32) <= 15,
{
}

/// The permission mode that follows another in the cycle.
pub open spec fn next_mode(mode: Seq<char>) -> Seq<char> {
    if mode == "approve-each"@ {
        "accept-edits"@
    } else if mode == "accept-edits"@ {
        "full-auto"@
    } else {
        "approve-each"@
    }
}

/// The permission mode that follows another in the cycle.
fn mode_after(mode: &str) -> (r: String)
    ensures
        r@ == next_mode(mode@),
{
    if same(mode, "approve-each") {
        "accept-edits".to_owned()
    } else if same(mode, "accept-edits") {
        "full-auto".to_owned()
    } else {
        "approve-each".to_owned()
    }
}

/// The cycle has three modes, whichever it starts from.
pub proof fn law_modes_cycle(mode: Seq<char>)
    ensures
        next_mode(next_mode(next_mode(next_mode(mode)))) == next_mode(mode),
        next_mode(next_mode(mode)) != next_mode(mode),
{
    reveal_strlit("approve-each");
    reveal_strlit("accept-edits");
    reveal_strlit("full-auto");
    assert("approve-each"@[1] == 'p');
    assert("accept-edits"@[1] == 'c');
    assert("full-auto"@[1] == 'u');
}

impl AppModel {
    /// Whether a turn that has just ended calls for the stored history: after an
    /// error the server may have stored more than was received.
    pub open spec fn must_reconcile(self) -> bool {
        self.session_id is Some && "error:"@.is_prefix_of(self.status)
    }

    /// With another session adopted. Its history is still to come.
    pub open spec fn switched(self, id: Seq<char>) -> AppModel {
        AppModel {
            session_id: Some(id),
            transcript: Seq::empty(),
            status: "loading…"@,
            ..self.counters_reset()
        }
    }

    /// After a prompt was submitted, on its way to the server where a session is
    /// attached.
    pub open spec fn prompting(self, text: Seq<char>) -> AppModel {
        let sent = AppModel {
            attachments: Seq::empty(),
            mention_paths: Seq::empty(),
            ..self.updated(MsgModel::Submitted(text))
        };
        if self.session_id is Some {
            AppModel { status: "…thinking"@, ..sent }
        } else {
            sent
        }
    }

    /// The prompt that goes to the server.
    pub open spec fn prompt_effect(self, text: Seq<char>) -> Seq<EffectModel> {
        match self.session_id {
            Some(session) => seq![
                EffectModel::Prompt {
                    session,
                    text,
                    agent: self.agent,
                    model: self.model,
                    files: self.files_for(text),
                },
            ],
            None => Seq::empty(),
        }
    }

    /// Whether this tick polls the dashboard: where it is open, and it is due or
    /// known to be out of date.
    pub open spec fn polls(self) -> bool {
        self.overlay is Dashboard && (self.tick as int % DASHBOARD_POLL_TICKS as int == 0
            || self.dashboard.needs_refetch)
    }

    /// The state after a message was dispatched.
    pub open spec fn dispatched(self, m: MsgModel) -> AppModel {
        match m {
            MsgModel::SwitchSession(id) => self.switched(id),
            MsgModel::NewSession => AppModel { status: "new session…"@, ..self },
            MsgModel::CyclePermissionMode => AppModel {
                permission_mode: next_mode(self.permission_mode),
                ..self
            },
            MsgModel::Submitted(text) => self.prompting(text),
            MsgModel::CancelWorkflow(_) => self,
            MsgModel::InterruptTurn(_) => self,
            _ => self.updated(m),
        }
    }

    /// What a message asks of the server.
    pub open spec fn effects(self, m: MsgModel) -> Seq<EffectModel> {
        match m {
            MsgModel::SwitchSession(id) => seq![EffectModel::LoadHistory(id)],
            MsgModel::NewSession => seq![EffectModel::CreateSession("New session"@)],
            MsgModel::PermissionReply { id, reply } => seq![
                EffectModel::ReplyPermission { id, reply },
            ],
            MsgModel::QuestionReply { id, reply } => seq![EffectModel::ReplyQuestion { id, reply }],
            MsgModel::CyclePermissionMode => match self.session_id {
                Some(session) => seq![
                    EffectModel::SetPermissionMode {
                        session,
                        mode: next_mode(self.permission_mode),
                    },
                ],
                None => Seq::empty(),
            },
            MsgModel::Submitted(text) => self.prompt_effect(text),
            MsgModel::PromptEnded => if self.must_reconcile() {
                seq![EffectModel::LoadHistory(self.session_id->0)]
            } else {
                Seq::empty()
            },
            MsgModel::StartWorkflow { kind, arg } => seq![
                EffectModel::StartWorkflow { kind, arg, parent: self.session_id },
            ],
            MsgModel::CancelWorkflow(session) => seq![EffectModel::CancelWorkflow(session)],
            MsgModel::InterruptTurn(session) => seq![EffectModel::CancelRun(session)],
            MsgModel::CreateDashboardSession(title) => seq![
                EffectModel::CreateDashboardSession(title),
            ],
            MsgModel::Tick => if self.polls() {
                seq![EffectModel::FetchDashboard]
            } else {
                Seq::empty()
            },
            _ => Seq::empty(),
        }
    }

    /// What the state after a key asks of the server that the state before did not:
    /// a picker that waits for files, the session list, or the dashboard has just
    /// opened.
    pub open spec fn opening_effects(self, after: AppModel) -> Seq<EffectModel> {
        let files = if after.awaits_files() && !self.awaits_files() {
            seq![EffectModel::ListFiles]
        } else {
            Seq::empty()
        };
        let sessions = if after.overlay is Sessions && !(self.overlay is Sessions) {
            seq![EffectModel::LoadSessions]
        } else {
            Seq::empty()
        };
        let dashboard = if after.overlay is Dashboard && !(self.overlay is Dashboard) {
            seq![EffectModel::FetchDashboard]
        } else {
            Seq::empty()
        };
        files + sessions + dashboard
    }

    /// The session whose preview the dashboard waits for.
    pub open spec fn awaited_peek(self) -> Option<Seq<char>> {
        if self.overlay is Dashboard && self.dashboard.peek is Loading {
            self.dashboard.selected_id()
        } else {
            None
        }
    }

    /// The preview that the state after a message waits for and the state before
    /// did not.
    pub open spec fn peek_effects(self, after: AppModel) -> Seq<EffectModel> {
        match after.awaited_peek() {
            Some(id) => if self.awaited_peek() == Some(id) {
                Seq::empty()
            } else {
                seq![EffectModel::LoadPeek(id)]
            },
            None => Seq::empty(),
        }
    }

    /// The state after a message was routed. A key may turn into another message,
    /// which is then dispatched.
    pub open spec fn routed(self, m: MsgModel, time: EditTime) -> AppModel {
        match m {
            MsgModel::Key(key) => {
                let pressed = self.keyed(key, time);
                match self.key_request(key) {
                    Some(next) => pressed.dispatched(next),
                    None => pressed,
                }
            },
            _ => self.dispatched(m),
        }
    }

    /// What routing a message asks of the server.
    pub open spec fn route_effects(self, m: MsgModel, time: EditTime) -> Seq<EffectModel> {
        let direct = match m {
            MsgModel::Key(key) => {
                let pressed = self.keyed(key, time);
                self.opening_effects(pressed) + (match self.key_request(key) {
                    Some(next) => pressed.effects(next),
                    None => Seq::empty(),
                })
            },
            _ => self.effects(m),
        };
        direct + self.peek_effects(self.routed(m, time))
    }

    /// Whether a message can be routed: its numbers can be counted with, and a key
    /// that reads a question finds one.
    pub open spec fn routable(self, m: MsgModel) -> bool {
        self.wf() && self.fits(m) && (m matches MsgModel::Key(key) ==> self.takes(key))
    }
}

/// No effect.
fn nothing() -> (r: Vec<Effect>)
    ensures
        r.deep_view() == Seq::<EffectModel>::empty(),
{
    let r: Vec<Effect> = Vec::new();
    assert(r.deep_view() =~= Seq::<EffectModel>::empty());
    r
}

/// One effect.
fn just(e: Effect) -> (r: Vec<Effect>)
    ensures
        r.deep_view() == seq![e.deep_view()],
{
    let mut r: Vec<Effect> = Vec::new();
    r.push(e);
    assert(r.deep_view() =~= seq![e.deep_view()]);
    r
}

/// Appends effects.
fn join_effects(out: &mut Vec<Effect>, mut more: Vec<Effect>)
    ensures
        final(out).deep_view() == old(out).deep_view() + more.deep_view(),
{
    let ghost a = out.deep_view();
    let ghost b = more.deep_view();
    out.append(&mut more);
    assert(out.deep_view() =~= a + b);
}

/// A copy of a reply.
fn copy_reply(r: &QuestionReplyKind) -> (c: QuestionReplyKind)
    ensures
        c.deep_view() == r.deep_view(),
{
    match r {
        QuestionReplyKind::Answered(a) => QuestionReplyKind::Answered(
            crate::routing::copy_answers(a),
        ),
        QuestionReplyKind::Cancelled => QuestionReplyKind::Cancelled,
    }
}

/// Whether a turn that has just ended calls for the stored history: after an
/// error the server may have stored more than was received.
pub fn should_reconcile_history(app: &App) -> (r: bool)
    ensures
        r == app.deep_view().must_reconcile(),
{
    reveal(<App as DeepView>::deep_view);
    app.session_id.is_some() && begins_with(app.status.as_str(), "error:")
}

impl App {
    /// Adopts another session.
    fn switch_session(&mut self, id: String)
        ensures
            final(self).deep_view() == old(self).deep_view().switched(id@),
    {
        reveal(<App as DeepView>::deep_view);
        self.session_id = Some(id);
        self.transcript = Vec::new();
        assert(self.transcript.deep_view() =~= Seq::<TranscriptItemModel>::empty());
        self.reset_session_counters();
        self.status = "loading…".to_owned();
    }

    fn set_status(&mut self, status: &str)
        ensures
            final(self).deep_view() == (AppModel { status: status@, ..old(self).deep_view() }),
    {
        reveal(<App as DeepView>::deep_view);
        self.status = status.to_owned();
    }

    /// Goes on to the next permission mode. The server confirms it later.
    fn cycle_mode(&mut self) -> (r: Vec<Effect>)
        ensures
            final(self).deep_view() == old(self).deep_view().dispatched(
                MsgModel::CyclePermissionMode,
            ),
            r.deep_view() == old(self).deep_view().effects(MsgModel::CyclePermissionMode),
    {
        reveal(<App as DeepView>::deep_view);
        let next = mode_after(self.permission_mode.as_str());
        let session = copied(&self.session_id);
        self.permission_mode = next.clone();
        match session {
            Some(session) => just(Effect::SetPermissionMode { session, mode: next }),
            None => nothing(),
        }
    }

    /// Submits a prompt.
    fn send_prompt(&mut self, text: String) -> (r: Vec<Effect>)
        ensures
            final(self).deep_view() == old(self).deep_view().prompting(text@),
            r.deep_view() == old(self).deep_view().prompt_effect(text@),
    {
        self.update(Msg::Submitted(text.clone()));
        proof {
            reveal(AppModel::submitted);
        }
        let files = self.take_files_for_submit(text.as_str());
        let (session, agent, model) = self.prompt_target();
        match session {
            Some(session) => {
                self.set_status("…thinking");
                just(Effect::Prompt { session, text, agent, model, files })
            },
            None => nothing(),
        }
    }

    /// Where a prompt goes: session, agent and model.
    fn prompt_target(&self) -> (r: (Option<String>, Option<String>, Option<String>))
        ensures
            r.0.deep_view() == self.deep_view().session_id,
            r.1.deep_view() == self.deep_view().agent,
            r.2.deep_view() == self.deep_view().model,
    {
        reveal(<App as DeepView>::deep_view);
        (copied(&self.session_id), copied(&self.agent), copied(&self.model))
    }

    /// Whether this tick polls the dashboard.
    fn polls_now(&self) -> (r: bool)
        ensures
            r == self.deep_view().polls(),
    {
        reveal(<App as DeepView>::deep_view);
        matches!(self.overlay, Overlay::Dashboard) && (dashboard_poll_due(self.tick)
            || self.dashboard.needs_refetch)
    }

    /// Ends a prompt's stream.
    fn finish_prompt(&mut self) -> (r: Vec<Effect>)
        ensures
            final(self).deep_view() == old(self).deep_view().updated(MsgModel::PromptEnded),
            r.deep_view() == old(self).deep_view().effects(MsgModel::PromptEnded),
    {
        let out = if should_reconcile_history(self) {
            let (session, _, _) = self.prompt_target();
            match session {
                Some(id) => just(Effect::LoadHistory(id)),
                None => nothing(),
            }
        } else {
            nothing()
        };
        self.update(Msg::PromptEnded);
        out
    }

    fn tick_dispatch(&mut self) -> (r: Vec<Effect>)
        ensures
            final(self).deep_view() == old(self).deep_view().updated(MsgModel::Tick),
            r.deep_view() == old(self).deep_view().effects(MsgModel::Tick),
    {
        let out = if self.polls_now() {
            just(Effect::FetchDashboard)
        } else {
            nothing()
        };
        self.update(Msg::Tick);
        out
    }

    /// Takes a message: changes the state, and tells what to ask of the server.
    pub fn dispatch(&mut self, msg: Msg) -> (r: Vec<Effect>)
        requires
            old(self).deep_view().fits(msg.deep_view()),
        ensures
            final(self).deep_view() == old(self).deep_view().dispatched(msg.deep_view()),
            r.deep_view() == old(self).deep_view().effects(msg.deep_view()),
    {
        match msg {
            Msg::SwitchSession(id) => {
                self.switch_session(id.clone());
                just(Effect::LoadHistory(id))
            },
            Msg::NewSession => {
                self.set_status("new session…");
                just(Effect::CreateSession("New session".to_owned()))
            },
            Msg::PermissionReply { id, reply } => {
                self.update(Msg::PermissionReply { id: id.clone(), reply: reply.clone() });
                just(Effect::ReplyPermission { id, reply })
            },
            Msg::QuestionReply { id, reply } => {
                self.update(Msg::QuestionReply { id: id.clone(), reply: copy_reply(&reply) });
                just(Effect::ReplyQuestion { id, reply })
            },
            Msg::CyclePermissionMode => self.cycle_mode(),
            Msg::Submitted(text) => self.send_prompt(text),
            Msg::PromptEnded => self.finish_prompt(),
            Msg::StartWorkflow { kind, arg } => {
                let (parent, _, _) = self.prompt_target();
                self.update(Msg::StartWorkflow { kind: kind.clone(), arg: arg.clone() });
                just(Effect::StartWorkflow { kind, arg, parent })
            },
            Msg::CancelWorkflow(session) => just(Effect::CancelWorkflow(session)),
            Msg::InterruptTurn(session) => just(Effect::CancelRun(session)),
            Msg::CreateDashboardSession(title) => {
                self.update(Msg::CreateDashboardSession(title.clone()));
                just(Effect::CreateDashboardSession(title))
            },
            Msg::Tick => self.tick_dispatch(),
            other => {
                self.update(other);
                nothing()
            },
        }
    }

    /// What is open, as far as opening it asks something of the server.
    fn open_panels(&self) -> (r: (bool, bool, bool))
        ensures
            r.0 == self.deep_view().awaits_files(),
            r.1 == self.deep_view().overlay is Sessions,
            r.2 == self.deep_view().overlay is Dashboard,
    {
        let files: bool = self.file_fetch_pending();
        reveal(<App as DeepView>::deep_view);
        (
            files,
            matches!(self.overlay, Overlay::Sessions),
            matches!(self.overlay, Overlay::Dashboard),
        )
    }

    /// The session whose preview the dashboard waits for.
    fn waiting_peek(&self) -> (r: Option<String>)
        ensures
            r.deep_view() == self.deep_view().awaited_peek(),
    {
        reveal(<App as DeepView>::deep_view);
        if matches!(self.overlay, Overlay::Dashboard) && matches!(
            self.dashboard.peek,
            DashboardPeek::Loading
        ) {
            self.dashboard.selected_session()
        } else {
            None
        }
    }

    /// A key, and what it turns into.
    fn route_key(&mut self, key: KeyEvent, time: EditTime) -> (r: Vec<Effect>)
        requires
            old(self).deep_view().takes(key),
        ensures
            final(self).deep_view() == old(self).deep_view().routed(MsgModel::Key(key), time),
            r.deep_view() == ({
                let pressed = old(self).deep_view().keyed(key, time);
                old(self).deep_view().opening_effects(pressed) + (match old(
                    self,
                ).deep_view().key_request(key) {
                    Some(next) => pressed.effects(next),
                    None => Seq::empty(),
                })
            }),
    {
        let before = self.open_panels();
        let next = self.on_key_at(key, time);
        let after = self.open_panels();
        let mut out = if after.0 && !before.0 {
            just(Effect::ListFiles)
        } else {
            nothing()
        };
        join_effects(
            &mut out,
            if after.1 && !before.1 {
                just(Effect::LoadSessions)
            } else {
                nothing()
            },
        );
        join_effects(
            &mut out,
            if after.2 && !before.2 {
                just(Effect::FetchDashboard)
            } else {
                nothing()
            },
        );
        match next {
            Some(m) => {
                proof {
                    lemma_requests_fit(old(self).deep_view(), key, self.deep_view());
                }
                let more = self.dispatch(m);
                join_effects(&mut out, more);
            },
            None => {
                proof {
                    assert(out.deep_view() + Seq::<EffectModel>::empty() =~= out.deep_view());
                }
            },
        }
        out
    }

    /// Routes a message at a given time. Keys go through key routing; every other
    /// message is dispatched, also one that a running task has sent.
    pub fn route_message_at(&mut self, msg: Msg, time: EditTime) -> (r: Vec<Effect>)
        requires
            old(self).deep_view().routable(msg.deep_view()),
        ensures
            final(self).deep_view() == old(self).deep_view().routed(msg.deep_view(), time),
            r.deep_view() == old(self).deep_view().route_effects(msg.deep_view(), time),
    {
        let before = self.waiting_peek();
        let mut out = match msg {
            Msg::Key(key) => self.route_key(key, time),
            other => self.dispatch(other),
        };
        let after = self.waiting_peek();
        let more = match after {
            Some(id) => {
                let known: bool = match &before {
                    Some(b) => same(b.as_str(), id.as_str()),
                    None => false,
                };
                if known {
                    nothing()
                } else {
                    just(Effect::LoadPeek(id))
                }
            },
            None => nothing(),
        };
        join_effects(&mut out, more);
        out
    }

    /// Whether a message can be routed now: its numbers can be counted with, and a key
    /// that reads a question finds one.
    pub fn can_route(&self, msg: &Msg) -> (r: bool)
        requires
            self.deep_view().input.wf(),
        ensures
            r == self.deep_view().routable(msg.deep_view()),
    {
        let sound = self.overlay_sound();
        match msg {
            Msg::Server(ev) => sound && self.can_fold(ev),
            Msg::Key(key) => sound && self.can_answer(*key),
            _ => sound,
        }
    }
}

/// Routes a message: changes the state, and tells what to ask of the server. Keys
/// go through key routing; every other message is dispatched, also one that a
/// running task has sent.
pub fn route_message(app: &mut App, msg: Msg) -> (r: Vec<Effect>)
    requires
        old(app).deep_view().routable(msg.deep_view()),
    ensures
        exists|time: EditTime|
            #[trigger] old(app).deep_view().input.timely(time) && final(app).deep_view() == old(
                app,
            ).deep_view().routed(msg.deep_view(), time) && r.deep_view() == old(app).deep_view().route_effects(msg.deep_view(), time),
{
    let time = app.key_time();
    app.route_message_at(msg, time)
}

/// What a key asks of the loop carries no numbers that could fail to count.
proof fn lemma_requests_fit(s: AppModel, key: KeyEvent, after: AppModel)
    ensures
        s.key_request(key) matches Some(m) ==> after.fits(m),
{
}

/// The message that an event of the server becomes: a confirmed permission mode
/// has a message of its own.
pub open spec fn message_of(ev: ServerEventModel) -> MsgModel {
    match ev {
        ServerEventModel::PermissionModeChanged { mode, .. } => MsgModel::PermissionModeChanged(
            mode,
        ),
        _ => MsgModel::Event(ev),
    }
}

/// The message that an event of the server becomes.
pub fn message_for(ev: ServerEvent) -> (r: Msg)
    ensures
        r.deep_view() == message_of(ev.deep_view()),
{
    match ev {
        ServerEvent::PermissionModeChanged { mode, .. } => Msg::PermissionModeChanged(mode),
        other => Msg::Event(other),
    }
}

/// Whether the screen is drawn again after a message. An idle tick draws nothing
/// anew; a fading message and a splash that has just gone do.
pub fn needs_redraw(
    is_tick: bool,
    busy: bool,
    flash: bool,
    had_flash: bool,
    splash: bool,
    had_splash: bool,
) -> (r: bool)
    ensures
        r == (!is_tick || busy || flash || had_flash || (had_splash && !splash)),
{
    !is_tick || busy || flash || had_flash || (had_splash && !splash)
}

impl AppModel {
    /// The state at startup with its themes: those that follow the operating
    /// system, in the mode that was detected or else the dark one, or the
    /// configured one.
    pub open spec fn dressed(
        self,
        cfg_theme: Option<Seq<char>>,
        no_color: bool,
        detected: Option<ThemeMode>,
    ) -> AppModel {
        if is_auto(cfg_theme) && !no_color {
            let dark = quantized(dark_theme(), self.color_depth);
            let light = quantized(preset_theme("light"@), self.color_depth);
            let mode = match detected {
                Some(m) => m,
                None => ThemeMode::Dark,
            };
            AppModel {
                theme_mode: Some(mode),
                themes: seq![
                    if mode == ThemeMode::Light {
                        light
                    } else {
                        dark
                    },
                    dark,
                    light,
                ],
                ..self
            }
        } else {
            AppModel {
                themes: seq![
                    quantized(startup_theme(no_color, cfg_theme), self.color_depth),
                    self.themes[1],
                    self.themes[2],
                ],
                ..self
            }
        }
    }
}

impl App {
    /// Chooses the themes at startup, given the configured theme, whether colors are
    /// off, and the system's appearance where it was detected.
    pub fn dress(&mut self, cfg_theme: Option<&str>, no_color: bool, detected: Option<ThemeMode>)
        ensures
            final(self).deep_view() == old(self).deep_view().dressed(
                opt_text(cfg_theme),
                no_color,
                detected,
            ),
            final(self).input == old(self).input,
    {
        reveal(<App as DeepView>::deep_view);
        if follows_os(cfg_theme, no_color) {
            let auto = auto_themes(self.color_depth);
            let mode = match detected {
                Some(m) => m,
                None => ThemeMode::Dark,
            };
            self.theme_mode = Some(mode);
            self.themes = Themes::with(auto.pick(mode), auto.dark, auto.light);
        } else {
            let theme = fixed_theme(no_color, cfg_theme, self.color_depth);
            self.themes = Themes::with(theme, self.themes.dark(), self.themes.light());
        }
    }

    /// After the loop has written what a side effect calls for, or failed to: a copy
    /// is confirmed.
    pub fn action_written(&mut self, action: LoopAction, written: bool)
        ensures
            final(self).deep_view() == if action == LoopAction::Yank && written {
                old(self).deep_view().flashed("copied"@, FlashKind::Success)
            } else {
                old(self).deep_view()
            },
            final(self).input == old(self).input,
    {
        if action == LoopAction::Yank && written {
            self.flash("copied");
        }
    }
}

impl EffectModel {
    /// What the failure of a request becomes. Requests that only refresh something,
    /// and replies, fail in silence.
    pub open spec fn failure(self, error: Seq<char>) -> Option<MsgModel> {
        match self {
            EffectModel::CreateSession(_) => Some(MsgModel::Error(error)),
            EffectModel::CreateDashboardSession(_) => Some(MsgModel::Error(error)),
            EffectModel::Prompt { .. } => Some(MsgModel::Error(error)),
            EffectModel::StartWorkflow { kind, .. } => Some(
                MsgModel::Error("workflow "@ + kind + " failed to start: "@ + error),
            ),
            EffectModel::CancelWorkflow(_) => Some(MsgModel::Error("cancel failed: "@ + error)),
            EffectModel::CancelRun(_) => Some(MsgModel::Error("interrupt failed: "@ + error)),
            _ => None,
        }
    }
}

impl Effect {
    /// What the failure of a request becomes. Requests that only refresh something,
    /// and replies, fail in silence.
    #[must_use]
    pub fn failure(&self, error: &str) -> (r: Option<Msg>)
        ensures
            r.deep_view() == self.deep_view().failure(error@),
    {
        match self {
            Effect::CreateSession(_) => Some(Msg::Error(error.to_owned())),
            Effect::CreateDashboardSession(_) => Some(Msg::Error(error.to_owned())),
            Effect::Prompt { .. } => Some(Msg::Error(error.to_owned())),
            Effect::StartWorkflow { kind, .. } => {
                let mut text = cat("workflow ", kind.as_str());
                text.append(" failed to start: ");
                text.append(error);
                Some(Msg::Error(text))
            },
            Effect::CancelWorkflow(_) => Some(Msg::Error(cat("cancel failed: ", error))),
            Effect::CancelRun(_) => Some(Msg::Error(cat("interrupt failed: ", error))),
            _ => None,
        }
    }
}

/// What a poll of the dashboard becomes: nothing unless all three lists came back,
/// so that a failed poll leaves the dashboard as it is.
pub fn dashboard_message(
    sessions: Option<Vec<SessionInfo>>,
    permissions: Option<Vec<PermissionAsked>>,
    questions: Option<Vec<QuestionAsked>>,
) -> (r: Option<Msg>)
    ensures
        r.deep_view() == match (sessions.deep_view(), permissions.deep_view(), questions.deep_view()) {
            (Some(s), Some(p), Some(q)) => Some(
                MsgModel::DashboardLoaded { sessions: s, permissions: p, questions: q },
            ),
            _ => None,
        },
{
    match (sessions, permissions, questions) {
        (Some(sessions), Some(permissions), Some(questions)) => Some(
            Msg::DashboardLoaded { sessions, permissions, questions },
        ),
        _ => None,
    }
}

// ---------------------------------------------------------------------------
// Laws: what is asked of the server
// ---------------------------------------------------------------------------

proof fn lemma_loading()
    ensures
        waits("loading…"@),
        !"error:"@.is_prefix_of("loading…"@),
        !waits("ready"@),
        !"error:"@.is_prefix_of("ready"@),
        waits("…thinking"@),
        runs_turn("…thinking"@),
        waits("new session…"@),
{
    reveal_strlit("loading…");
    reveal_strlit("loading");
    reveal_strlit("error:");
    reveal_strlit("ready");
    reveal_strlit("…thinking");
    reveal_strlit("thinking");
    reveal_strlit("new session…");
    reveal_strlit("new session");
    reveal_strlit("connecting");
    reveal_strlit("retrying");
    assert("loading…"@.subrange(0, 7) =~= "loading"@);
    assert(occurs_at("loading…"@, "loading"@, 0));
    assert("loading…"@[0] != "error:"@[0]);
    assert("ready"@.len() == 5 && "error:"@.len() == 6);
    assert("thinking"@.len() > 5 && "loading"@.len() > 5 && "new session"@.len() > 5
        && "connecting"@.len() > 5 && "retrying"@.len() > 5);
    assert("…thinking"@.subrange(1, 9) =~= "thinking"@);
    assert(occurs_at("…thinking"@, "thinking"@, 1));
    assert("new session…"@.subrange(0, 11) =~= "new session"@);
    assert(occurs_at("new session…"@, "new session"@, 0));
}

/// Switching to a session asks for that session's messages, and until they come shows none
/// and waits; once they come, they are what is shown, and nothing is waited for. The
/// counters begin anew.
pub proof fn law_switching_shows_the_other_session(s: AppModel, id: Seq<char>, rows: Seq<Json>)
    ensures
        ({
            let m = MsgModel::SwitchSession(id);
            let away = s.dispatched(m);
            let there = away.dispatched(MsgModel::HistoryLoaded(rows));
            &&& s.effects(m) == seq![EffectModel::LoadHistory(id)]
            &&& away.session_id == Some(id)
            &&& away.transcript.len() == 0
            &&& waits(away.status)
            &&& away.session_tokens == (0u64, 0u64) && away.usage is None && away.msg_usage is None
            &&& there.session_id == Some(id)
            &&& there.transcript == history_of(rows).items
            &&& !waits(there.status)
            &&& there.session_tokens == (0u64, 0u64)
            &&& away.effects(MsgModel::HistoryLoaded(rows)).len() == 0
        }),
{
    lemma_loading();
    reveal(AppModel::history_loaded);
}

/// The mode that the server is told is the one that is shown, and the modes come in turn:
/// from asking for each to accepting edits to asking for nothing, and around.
pub proof fn law_the_mode_told_is_the_mode_shown(s: AppModel, session: Seq<char>)
    requires
        s.session_id == Some(session),
    ensures
        ({
            let m = MsgModel::CyclePermissionMode;
            let after = s.dispatched(m);
            &&& s.effects(m).len() == 1
            &&& s.effects(m)[0] == (EffectModel::SetPermissionMode {
                session,
                mode: after.permission_mode,
            })
            &&& after.permission_mode == "approve-each"@ || after.permission_mode
                == "accept-edits"@ || after.permission_mode == "full-auto"@
            &&& after.permission_mode != s.permission_mode
            &&& s.permission_mode == "approve-each"@ <==> after.permission_mode == "accept-edits"@
            &&& s.permission_mode == "accept-edits"@ <==> after.permission_mode == "full-auto"@
            &&& after.transcript == s.transcript && after.session_id == s.session_id
        }),
{
    law_modes_cycle(s.permission_mode);
    reveal_strlit("approve-each");
    reveal_strlit("accept-edits");
    reveal_strlit("full-auto");
    assert("approve-each"@[1] != "accept-edits"@[1]);
    assert("approve-each"@.len() != "full-auto"@.len());
    assert("accept-edits"@.len() != "full-auto"@.len());
}

/// Whether a message asks something of the server.
pub open spec fn asks_the_server(m: MsgModel) -> bool {
    m is SwitchSession || m is NewSession || m is PermissionReply || m is QuestionReply
        || m is CyclePermissionMode || m is Submitted || m is StartWorkflow || m is CancelWorkflow
        || m is InterruptTurn || m is CreateDashboardSession || m is PromptEnded || m is Tick
}

/// A request reaches the server once, with what it was made with; other messages ask
/// nothing of it. A workflow starts under the attached session.
pub proof fn law_requests_reach_the_server(
    s: AppModel,
    m: MsgModel,
    id: Seq<char>,
    text: Seq<char>,
    reply: QuestionReplyKindModel,
)
    ensures
        !asks_the_server(m) ==> s.effects(m).len() == 0,
        s.effects(m).len() <= 1,
        s.effects(MsgModel::PermissionReply { id, reply: text }) == seq![
            EffectModel::ReplyPermission { id, reply: text },
        ],
        s.effects(MsgModel::QuestionReply { id, reply }) == seq![
            EffectModel::ReplyQuestion { id, reply },
        ],
        s.effects(MsgModel::StartWorkflow { kind: id, arg: text }) == seq![
            EffectModel::StartWorkflow { kind: id, arg: text, parent: s.session_id },
        ],
        s.effects(MsgModel::CancelWorkflow(id)) == seq![EffectModel::CancelWorkflow(id)],
        s.effects(MsgModel::InterruptTurn(id)) == seq![EffectModel::CancelRun(id)],
        s.effects(MsgModel::CreateDashboardSession(text)) == seq![
            EffectModel::CreateDashboardSession(text),
        ],
        s.effects(MsgModel::NewSession).len() == 1 && s.effects(
            MsgModel::NewSession,
        )[0] is CreateSession && waits(s.dispatched(MsgModel::NewSession).status),
        s.dispatched(MsgModel::CancelWorkflow(id)) == s,
        s.dispatched(MsgModel::InterruptTurn(id)) == s,
{
    lemma_loading();
}

/// A prompt goes to the attached session and leaves no attachments behind; without a
/// session none is sent, but it is shown all the same.
pub proof fn law_a_prompt_goes_to_its_session(s: AppModel, text: Seq<char>)
    ensures
        ({
            let m = MsgModel::Submitted(text);
            let after = s.dispatched(m);
            &&& s.effects(m).len() == (if s.session_id is Some {
                1int
            } else {
                0
            })
            &&& s.session_id matches Some(session) ==> s.effects(m)[0] matches EffectModel::Prompt {
                session: to,
                text: said,
                agent,
                model,
                ..
            } && to == session && said == text && agent == s.agent && model == s.model
            &&& s.session_id is Some ==> waits(after.status) && runs_turn(after.status)
            &&& after.attachments.len() == 0 && after.mention_paths.len() == 0
            &&& after.transcript == s.transcript.push(
                TranscriptItemModel::User(text),
            )
        }),
{
    lemma_loading();
    reveal(AppModel::submitted);
}

/// A turn that ended in an error is read back from the server once its stream is over; one
/// that ended well is not.
pub proof fn law_a_failed_turn_is_read_back(
    s: AppModel,
    session: Seq<char>,
    message: Seq<char>,
    rows: Seq<Json>,
)
    requires
        s.session_id == Some(session),
    ensures
        ({
            let failed = s.dispatched(MsgModel::Error(message));
            let well = s.dispatched(MsgModel::HistoryLoaded(rows));
            &&& failed.effects(MsgModel::PromptEnded) == seq![EffectModel::LoadHistory(session)]
            &&& well.effects(MsgModel::PromptEnded).len() == 0
        }),
{
    reveal(AppModel::failed);
    reveal(AppModel::history_loaded);
    reveal_strlit("error:");
    reveal_strlit("error: ");
    lemma_loading();
    let line = "error: "@ + message;
    assert(line.subrange(0, 6) =~= "error:"@);
    assert("error:"@.is_prefix_of(line));
}

/// An open dashboard is fetched once in as many ticks as a period has, and at the next tick
/// where it is known to be out of date; a closed one never is.
pub proof fn law_the_dashboard_is_fetched_in_time(s: AppModel, t: u32, u: u32)
    requires
        t <= u,
        u - t < DASHBOARD_POLL_TICKS,
    ensures
        !(s.overlay is Dashboard) ==> s.effects(MsgModel::Tick).len() == 0,
        s.overlay is Dashboard && s.dashboard.needs_refetch ==> s.effects(MsgModel::Tick) == seq![
            EffectModel::FetchDashboard,
        ],
        s.overlay is Dashboard && (AppModel { tick: t, ..s }).effects(MsgModel::Tick).len() > 0
            && (AppModel { tick: u, ..s }).effects(MsgModel::Tick).len() > 0
            && !s.dashboard.needs_refetch ==> t == u,
        s.overlay is Dashboard && t + DASHBOARD_POLL_TICKS <= u32::MAX ==> exists|k: u32|
            t <= k < t + DASHBOARD_POLL_TICKS && (#[trigger] (AppModel { tick: k, ..s }).effects(
                MsgModel::Tick,
            )) == seq![EffectModel::FetchDashboard],
{
    let n = DASHBOARD_POLL_TICKS as int;
    if s.overlay is Dashboard && t + DASHBOARD_POLL_TICKS <= u32::MAX {
        let k = (if t as int % n == 0 {
            t as int
        } else {
            t + n - t as int % n
        }) as u32;
        assert(k as int % n == 0);
        assert((AppModel { tick: k, ..s }).effects(MsgModel::Tick) == seq![
            EffectModel::FetchDashboard,
        ]);
    }
}

/// A list that opens is loaded, once, and one that was open is not loaded again.
pub proof fn law_what_opens_is_loaded(s: AppModel, after: AppModel)
    ensures
        ({
            let effects = s.opening_effects(after);
            &&& effects.contains(EffectModel::LoadSessions) <==> after.overlay is Sessions && !(
            s.overlay is Sessions)
            &&& effects.contains(EffectModel::FetchDashboard) <==> after.overlay is Dashboard && !(
            s.overlay is Dashboard)
            &&& effects.contains(EffectModel::ListFiles) <==> after.awaits_files()
                && !s.awaits_files()
            &&& forall|k: int|
                0 <= k < effects.len() ==> (#[trigger] effects[k]) is LoadSessions
                    || effects[k] is FetchDashboard || effects[k] is ListFiles
            &&& effects.no_duplicates()
        }),
{
    let files = if after.awaits_files() && !s.awaits_files() {
        seq![EffectModel::ListFiles]
    } else {
        Seq::empty()
    };
    let sessions = if after.overlay is Sessions && !(s.overlay is Sessions) {
        seq![EffectModel::LoadSessions]
    } else {
        Seq::empty()
    };
    let dashboard = if after.overlay is Dashboard && !(s.overlay is Dashboard) {
        seq![EffectModel::FetchDashboard]
    } else {
        Seq::empty()
    };
    let effects = s.opening_effects(after);
    assert(effects == files + sessions + dashboard);
    if files.len() > 0 {
        assert(effects[0] == EffectModel::ListFiles);
    }
    if sessions.len() > 0 {
        assert(effects[files.len() as int] == EffectModel::LoadSessions);
    }
    if dashboard.len() > 0 {
        assert(effects[(files.len() + sessions.len()) as int] == EffectModel::FetchDashboard);
    }
}

/// The preview of the selected session is loaded when the dashboard comes to wait for it,
/// and not again while it waits for the same one.
pub proof fn law_a_preview_is_loaded_once(s: AppModel, after: AppModel)
    requires
        after.overlay is Dashboard,
        after.dashboard.peek is Loading,
        after.dashboard.selected < after.dashboard.rows.len(),
    ensures
        ({
            let id = after.dashboard.rows[after.dashboard.selected as int].session.id;
            &&& !(s.overlay is Dashboard) ==> s.peek_effects(after) == seq![
                EffectModel::LoadPeek(id),
            ]
            &&& !(s.dashboard.peek is Loading) ==> s.peek_effects(after) == seq![
                EffectModel::LoadPeek(id),
            ]
            &&& after.peek_effects(after).len() == 0
        }),
{
}

/// A request whose failure concerns the user is told of with what went wrong; the others
/// fail in silence.
pub proof fn law_failures_are_told(effect: EffectModel, error: Seq<char>)
    ensures
        effect.failure(error) is Some <==> effect is CreateSession
            || effect is CreateDashboardSession || effect is Prompt || effect is StartWorkflow
            || effect is CancelWorkflow || effect is CancelRun,
        effect.failure(error) matches Some(m) ==> m is Error && tells(m->Error_0, seq![error]),
        effect matches EffectModel::StartWorkflow { kind, .. } ==> tells(
            effect.failure(error)->0->Error_0,
            seq![kind, error],
        ),
{
    match effect {
        EffectModel::StartWorkflow { kind, .. } => {
            let line = "workflow "@ + kind + " failed to start: "@ + error;
            assert(line =~= "workflow "@ + kind + " failed to start: "@ + error + Seq::empty());
            lemma_tells_two(line, "workflow "@, kind, " failed to start: "@, error, Seq::empty());
            lemma_tells_end(line, "workflow "@ + kind + " failed to start: "@, error);
        },
        EffectModel::CancelWorkflow(_) => {
            lemma_tells_end("cancel failed: "@ + error, "cancel failed: "@, error);
        },
        EffectModel::CancelRun(_) => {
            lemma_tells_end("interrupt failed: "@ + error, "interrupt failed: "@, error);
        },
        _ => {
            lemma_tells_end(error, Seq::empty(), error);
        },
    }
}

/// A change of the permission mode changes the mode; every other event of the server is
/// handed on as it is.
pub proof fn law_events_are_handed_on(s: AppModel, ev: ServerEventModel)
    ensures
        ev matches ServerEventModel::PermissionModeChanged { mode, .. } ==> s.updated(
            message_of(ev),
        ) == (AppModel { permission_mode: mode, ..s }),
        !(ev is PermissionModeChanged) ==> s.updated(message_of(ev)) == s.updated(
            MsgModel::Event(ev),
        ),
{
}

/// Whatever happens is drawn; a tick only where it shows: while something is waited for,
/// while or just after a message flashes, and when the splash has gone.
pub proof fn law_a_quiet_tick_draws_nothing(
    is_tick: bool,
    busy: bool,
    flash: bool,
    had_flash: bool,
    splash: bool,
    had_splash: bool,
    r: bool,
)
    requires
        call_ensures(needs_redraw, (is_tick, busy, flash, had_flash, splash, had_splash), r),
    ensures
        !is_tick ==> r,
        busy ==> r,
        flash || had_flash ==> r,
        had_splash && !splash ==> r,
        is_tick && !busy && !flash && !had_flash && !had_splash ==> !r,
        is_tick && !busy && !flash && !had_flash && splash ==> !r,
{
}

/// A failed stream is opened again later and later; one that had opened, after one second.
pub proof fn law_reconnecting_backs_off(attempt: u32, r: (u32, u64), q: (u32, u64))
    requires
        call_ensures(after_stream, (attempt, false), r),
        call_ensures(after_stream, (attempt, true), q),
    ensures
        q.1 == 1,
        attempt < u32::MAX ==> r.0 == attempt + 1,
        1 <= r.1 <= 15,
        r.1 >= q.1,
        1 <= attempt < 4 ==> r.1 == 2 * backoff(attempt),
        backoff(1) == 1,
{
}

/// With a theme that follows the system, what was told at the start is what is shown, dark
/// where nothing could be told; and a later change shows the other one of the same two.
pub proof fn law_the_first_theme_follows_the_system(
    s: AppModel,
    detected: Option<ThemeMode>,
    mode: ThemeMode,
)
    ensures
        ({
            let after = s.dressed(Some("auto"@), false, detected);
            let later = after.updated(MsgModel::OsThemeChanged(Some(mode)));
            &&& after.themes.len() == 3
            &&& detected == Some(ThemeMode::Light) ==> after.themes[0] == after.themes[2]
            &&& detected != Some(ThemeMode::Light) ==> after.themes[0] == after.themes[1]
            &&& later.themes[0] == s.dressed(Some("auto"@), false, Some(mode)).themes[0]
        }),
{
    reveal(AppModel::os_theme_changed);
}

} // verus!
