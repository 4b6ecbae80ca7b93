//! Folding a turn's events and stored history into the state.

use crate::events::{FinishReason, LLMEvent, LLMEventModel, Usage};
use crate::json::{contents, contents_all, get, Json};
use crate::state::{
    any_unfinished, in_out, some_unfinished, tick_plus, usage_in_out, App, AppModel, LoopAction,
    RetryCountdown, RetryCountdownModel, TICKS_PER_SEC,
};
use crate::text::{cat, decimal, number, same};
use crate::transcript::{
    fold_history, history_of, is_rate_limit, output_text, parse_todos, rate_limited, titled,
    todos_of, tool_output_text, tool_title, ToolStatus, TranscriptItem, TranscriptItemModel,
};
use vstd::prelude::*;
use vstd::string::*;

verus! {

/// `a / b`, rounded up.
pub open spec fn ceil_div(a: int, b: int) -> int {
    (a + b - 1) / b
}

/// `items` with `text` at the end of the assistant text at `i`.
pub open spec fn text_grown(items: Seq<TranscriptItemModel>, i: int, text: Seq<char>) -> Seq<
    TranscriptItemModel,
> {
    if 0 <= i < items.len() {
        match items[i] {
            TranscriptItemModel::Assistant(s) => items.update(
                i,
                TranscriptItemModel::Assistant(s + text),
            ),
            _ => items,
        }
    } else {
        items
    }
}

/// `items` with `text` at the end of the reasoning at `i`.
pub open spec fn reasoning_grown(items: Seq<TranscriptItemModel>, i: int, text: Seq<char>) -> Seq<
    TranscriptItemModel,
> {
    if 0 <= i < items.len() {
        match items[i] {
            TranscriptItemModel::Reasoning(s) => items.update(
                i,
                TranscriptItemModel::Reasoning(s + text),
            ),
            _ => items,
        }
    } else {
        items
    }
}

/// Where the call `id` stands among the running tools; the length where it does
/// not.
pub open spec fn call_place(calls: Seq<(Seq<char>, usize)>, id: Seq<char>) -> nat
    decreases calls.len(),
{
    if calls.len() == 0 || calls[0].0 == id {
        0
    } else {
        1 + call_place(calls.skip(1), id)
    }
}

/// The place of the last tool row that is still running; the length where there
/// is none.
pub open spec fn last_running(items: Seq<TranscriptItemModel>, n: int) -> Option<int>
    decreases n,
{
    if n <= 0 {
        None
    } else if is_running(items[n - 1]) {
        Some(n - 1)
    } else {
        last_running(items, n - 1)
    }
}

/// Whether an item is a tool row that is still running.
pub open spec fn is_running(item: TranscriptItemModel) -> bool {
    item matches TranscriptItemModel::Tool { status, .. } && status == ToolStatus::Running
}

/// A tool row with its outcome. An output that is already there stays.
pub open spec fn settled(
    item: TranscriptItemModel,
    outcome: ToolStatus,
    text: Option<Seq<char>>,
) -> TranscriptItemModel {
    match item {
        TranscriptItemModel::Tool { name, status, title, input, output, expanded } =>
            TranscriptItemModel::Tool {
                name,
                status: outcome,
                title,
                input,
                output: match output {
                    Some(o) => Some(o),
                    None => text,
                },
                expanded,
            },
        _ => item,
    }
}

/// The calls whose rows come before `n`.
pub open spec fn calls_before(calls: Seq<(Seq<char>, usize)>, n: usize) -> Seq<(Seq<char>, usize)>
    decreases calls.len(),
{
    if calls.len() == 0 {
        Seq::empty()
    } else {
        let before = calls_before(calls.drop_last(), n);
        if calls.last().1 < n {
            before.push(calls.last())
        } else {
            before
        }
    }
}

/// What the status line says of a retry.
pub open spec fn retry_prefix(attempt: u32, max: u32, message: Seq<char>) -> Seq<char> {
    (if rate_limited(message) {
        "rate-limited — retrying"@
    } else {
        "retrying"@
    }) + " "@ + decimal(attempt as nat) + "/"@ + decimal(max as nat)
}

impl AppModel {
    /// Without streaming text and reasoning.
    pub open spec fn streams_closed(self) -> AppModel {
        AppModel { open_text: None, open_reasoning: None, ..self }
    }

    /// With a new assistant text open.
    #[verifier::opaque]
    pub open spec fn text_opened(self) -> AppModel {
        AppModel {
            open_text: Some(self.transcript.len() as usize),
            ..self.begun().with_item(TranscriptItemModel::Assistant(Seq::empty()))
        }
    }

    /// With a new reasoning open.
    #[verifier::opaque]
    pub open spec fn reasoning_opened(self) -> AppModel {
        AppModel {
            open_reasoning: Some(self.transcript.len() as usize),
            ..self.begun().with_item(TranscriptItemModel::Reasoning(Seq::empty()))
        }
    }

    #[verifier::opaque]
    pub open spec fn text_closed(self) -> AppModel {
        (AppModel { open_text: None, ..self }).bumped()
    }

    #[verifier::opaque]
    pub open spec fn reasoning_closed(self) -> AppModel {
        (AppModel { open_reasoning: None, ..self }).bumped()
    }

    /// With a warning in the transcript.
    #[verifier::opaque]
    pub open spec fn warned(self, message: Seq<char>) -> AppModel {
        self.with_item(TranscriptItemModel::Workflow("⚠ "@ + message)).bumped()
    }

    /// With more of the assistant's text. A text that was never opened opens now.
    #[verifier::opaque]
    pub open spec fn text_added(self, text: Seq<char>) -> AppModel {
        let open = if self.open_text is Some {
            self
        } else {
            self.text_opened()
        };
        (AppModel {
            transcript: text_grown(open.transcript, open.open_text->0 as int, text),
            ..open
        }).bumped()
    }

    /// With more of the reasoning. A reasoning that was never opened opens now.
    #[verifier::opaque]
    pub open spec fn reasoning_added(self, text: Seq<char>) -> AppModel {
        let open = if self.open_reasoning is Some {
            self
        } else {
            self.reasoning_opened()
        };
        (AppModel {
            transcript: reasoning_grown(open.transcript, open.open_reasoning->0 as int, text),
            ..open
        }).bumped()
    }

    /// With the todo list of a tool call, where it carries one. A list that
    /// becomes active is shown.
    #[verifier::opaque]
    pub open spec fn todos_taken(self, name: Seq<char>, input: Json) -> AppModel {
        if name == "todowrite"@ && input.member("todos"@) is Some {
            let todos = todos_of(input);
            AppModel {
                todos,
                todos_collapsed: if !any_unfinished(self.todos) && any_unfinished(todos) {
                    false
                } else {
                    self.todos_collapsed
                },
                ..self
            }
        } else {
            self
        }
    }

    /// With a tool call running.
    #[verifier::opaque]
    pub open spec fn tool_called(self, id: Seq<char>, name: Seq<char>, input: Json) -> AppModel {
        let ready = self.todos_taken(name, input).begun();
        (AppModel {
            running_tools: self.running_tools.push((id, self.transcript.len() as usize)),
            ..ready.with_item(
                TranscriptItemModel::Tool {
                    name,
                    status: ToolStatus::Running,
                    title: titled(name, input),
                    input: Some(input),
                    output: None,
                    expanded: false,
                },
            )
        }).bumped()
    }

    /// The row that the outcome of the call `id` belongs to: the one it was
    /// started with, or, for a call that is not known, the last one that is still
    /// running.
    pub open spec fn outcome_row(self, id: Seq<char>) -> Option<int> {
        let p = call_place(self.running_tools, id);
        if p < self.running_tools.len() {
            let i = self.running_tools[p as int].1 as int;
            if i < self.transcript.len() && self.transcript[i] is Tool {
                Some(i)
            } else {
                None
            }
        } else {
            last_running(self.transcript, self.transcript.len() as int)
        }
    }

    /// With the outcome of the call `id`.
    #[verifier::opaque]
    pub open spec fn tool_finished(
        self,
        id: Seq<char>,
        outcome: ToolStatus,
        text: Option<Seq<char>>,
    ) -> AppModel {
        let p = call_place(self.running_tools, id);
        let next = AppModel {
            running_tools: if p < self.running_tools.len() {
                self.running_tools.remove(p as int)
            } else {
                self.running_tools
            },
            ..self
        };
        match self.outcome_row(id) {
            Some(i) => (AppModel {
                transcript: self.transcript.update(i, settled(self.transcript[i], outcome, text)),
                ..next
            }).bumped(),
            None => next,
        }
    }

    /// With the token usage of the message in flight, where it was given.
    pub open spec fn usage_taken(self, usage: Option<Usage>) -> AppModel {
        match usage {
            Some(u) => AppModel { usage: Some(u), msg_usage: Some(in_out(u)), ..self },
            None => self,
        }
    }

    /// With the usage of the message in flight added to the session's, once.
    pub open spec fn usage_settled(self) -> AppModel {
        match self.msg_usage {
            Some((i, o)) => AppModel {
                session_tokens: (
                    (self.session_tokens.0 + i) as u64,
                    (self.session_tokens.1 + o) as u64,
                ),
                msg_usage: None,
                ..self
            },
            None => self,
        }
    }

    /// Whether the session's tokens can be counted after a message of this usage
    /// settles.
    pub open spec fn usage_fits(self, usage: Option<Usage>) -> bool {
        match self.usage_taken(usage).msg_usage {
            Some((i, o)) => self.session_tokens.0 + i <= u64::MAX && self.session_tokens.1 + o
                <= u64::MAX,
            None => true,
        }
    }

    /// With the message in flight settled. Only the last call of a turn returns to
    /// idle: after a call for tools more steps follow.
    #[verifier::opaque]
    pub open spec fn finished(self, reason: FinishReason, usage: Option<Usage>) -> AppModel {
        let done = AppModel {
            msg_start: None,
            ..self.usage_taken(usage).usage_settled().streams_closed()
        };
        if reason == FinishReason::ToolCalls {
            done
        } else if self.focused {
            AppModel { status: "ready"@, ..done }
        } else {
            AppModel {
                status: "ready"@,
                title_active: true,
                pending_action: Some(LoopAction::Notify),
                ..done
            }
        }
    }

    /// With a turn-fatal error in the transcript and in the status line.
    #[verifier::opaque]
    pub open spec fn failed(self, message: Seq<char>) -> AppModel {
        (AppModel {
            status: "error: "@ + message,
            retry: None,
            msg_start: None,
            ..self.with_item(TranscriptItemModel::Error(message)).streams_closed()
        }).bumped()
    }

    /// With the wait before a retry running.
    #[verifier::opaque]
    pub open spec fn waiting(self, attempt: u32, max: u32, delay_ms: u64, message: Seq<char>) -> AppModel {
        let prefix = retry_prefix(attempt, max, message);
        AppModel {
            status: prefix + " ("@ + decimal(ceil_div(delay_ms as int, 1000) as nat) + "s)"@,
            retry: Some(
                RetryCountdownModel {
                    prefix,
                    expires_tick: tick_plus(
                        self.tick,
                        (ceil_div(delay_ms * TICKS_PER_SEC, 1000) % 0x1_0000_0000) as u32,
                    ),
                },
            ),
            ..self
        }
    }

    /// With the message in flight taken back: the server starts it over.
    #[verifier::opaque]
    pub open spec fn rolled_back(self) -> AppModel {
        match self.msg_start {
            Some(i) => (AppModel {
                transcript: if i < self.transcript.len() {
                    self.transcript.take(i as int)
                } else {
                    self.transcript
                },
                running_tools: calls_before(self.running_tools, i),
                msg_start: None,
                ..self.streams_closed()
            }).bumped(),
            None => self,
        }
    }

    /// After a retry was announced. Salvaged work stays; else the message in
    /// flight is taken back.
    #[verifier::opaque]
    pub open spec fn retried(
        self,
        attempt: u32,
        max: u32,
        delay_ms: u64,
        message: Seq<char>,
        salvaged: bool,
    ) -> AppModel {
        let waiting = self.waiting(attempt, max, delay_ms, message);
        if salvaged {
            AppModel { msg_start: None, ..waiting.streams_closed() }
        } else {
            waiting.rolled_back()
        }
    }

    /// After one event of a turn other than a retry.
    pub open spec fn folded_live(self, ev: LLMEventModel) -> AppModel {
        match ev {
            LLMEventModel::TextStart => self.text_opened().bumped(),
            LLMEventModel::TextDelta { text } => self.text_added(text),
            LLMEventModel::TextEnd => self.text_closed(),
            LLMEventModel::ReasoningStart => self.reasoning_opened().bumped(),
            LLMEventModel::ReasoningDelta { text } => self.reasoning_added(text),
            LLMEventModel::ReasoningEnd => self.reasoning_closed(),
            LLMEventModel::ToolCall { id, name, input } => self.tool_called(id, name, input),
            LLMEventModel::ToolResult { id, result, output } => self.tool_finished(
                id,
                ToolStatus::Success,
                output_text(result, output),
            ),
            LLMEventModel::ToolError { id, message } => self.tool_finished(
                id,
                ToolStatus::Error,
                Some(message),
            ),
            LLMEventModel::StepFinish { usage } => self.usage_taken(usage),
            LLMEventModel::Finish { reason, usage } => self.finished(reason, usage),
            LLMEventModel::ProviderError { message } => self.failed(message),
            LLMEventModel::Warning { message } => self.warned(message),
            LLMEventModel::Retry { .. } => self,
            LLMEventModel::Other => self,
        }
    }

    /// After one event of a turn. Any event but a retry shows that the turn is
    /// live again, and ends a running wait.
    #[verifier::opaque]
    pub open spec fn folded(self, ev: LLMEventModel) -> AppModel {
        match ev {
            LLMEventModel::Retry { attempt, max, delay_ms, message, salvaged } => self.retried(
                attempt,
                max,
                delay_ms,
                message,
                salvaged,
            ),
            _ => (AppModel { retry: None, ..self }).folded_live(ev),
        }
    }

    /// Whether an event's numbers can be counted with.
    pub open spec fn event_fits(self, ev: LLMEventModel) -> bool {
        match ev {
            LLMEventModel::Finish { usage, .. } => self.usage_fits(usage),
            LLMEventModel::Retry { delay_ms, .. } => delay_ms * TICKS_PER_SEC <= u64::MAX,
            _ => true,
        }
    }

    /// With the transcript and the todo list of stored history in place of what
    /// was there.
    #[verifier::opaque]
    pub open spec fn history_loaded(self, rows: Seq<Json>) -> AppModel {
        let h = history_of(rows);
        (AppModel {
            tool_cursor: None,
            transcript: h.items,
            running_tools: Seq::empty(),
            msg_start: None,
            todos: h.todos,
            todos_collapsed: false,
            ..self.streams_closed()
        }).bumped()
    }
}

/// Appends `text` to the assistant text at `i`.
fn grow_text(items: &mut Vec<TranscriptItem>, i: usize, text: &str)
    ensures
        final(items).deep_view() == text_grown(old(items).deep_view(), i as int, text@),
{
    let ghost before = items.deep_view();
    if i < items.len() {
        assert(before[i as int] == items@[i as int].deep_view());
        match &mut items[i] {
            TranscriptItem::Assistant(s) => {
                s.append(text);
            },
            _ => {},
        }
    }
    assert(items.deep_view() =~= text_grown(before, i as int, text@));
}

/// Appends `text` to the reasoning at `i`.
fn grow_reasoning(items: &mut Vec<TranscriptItem>, i: usize, text: &str)
    ensures
        final(items).deep_view() == reasoning_grown(old(items).deep_view(), i as int, text@),
{
    let ghost before = items.deep_view();
    if i < items.len() {
        assert(before[i as int] == items@[i as int].deep_view());
        match &mut items[i] {
            TranscriptItem::Reasoning(s) => {
                s.append(text);
            },
            _ => {},
        }
    }
    assert(items.deep_view() =~= reasoning_grown(before, i as int, text@));
}

/// Gives the tool row at `i` its outcome.
fn settle_row(items: &mut Vec<TranscriptItem>, i: usize, outcome: ToolStatus, text: Option<String>)
    requires
        i < old(items)@.len(),
    ensures
        final(items).deep_view() == old(items).deep_view().update(
            i as int,
            settled(old(items).deep_view()[i as int], outcome, text.deep_view()),
        ),
{
    let ghost before = items.deep_view();
    let ghost t = text.deep_view();
    assert(before[i as int] == items@[i as int].deep_view());
    match &mut items[i] {
        TranscriptItem::Tool { status, output, .. } => {
            *status = outcome;
            if output.is_none() {
                *output = text;
            }
        },
        _ => {},
    }
    assert(items.deep_view() =~= before.update(i as int, settled(before[i as int], outcome, t)));
}

/// Finds the call `id` among the running tools.
fn find_call(calls: &Vec<(String, usize)>, id: &str) -> (r: usize)
    ensures
        r == call_place(calls.deep_view(), id@),
        r <= calls@.len(),
{
    let ghost all = calls.deep_view();
    let mut i: usize = 0;
    assert(all.skip(0) =~= all);
    while i < calls.len() && !same(calls[i].0.as_str(), id)
        invariant
            i <= calls@.len(),
            all == calls.deep_view(),
            call_place(all, id@) == i + call_place(all.skip(i as int), id@),
        decreases calls@.len() - i,
    {
        proof {
            assert(all.skip(i as int)[0] == calls@[i as int].deep_view());
            assert(all.skip(i as int).skip(1) =~= all.skip(i + 1));
        }
        i += 1;
    }
    proof {
        if i < calls@.len() {
            assert(all.skip(i as int)[0] == calls@[i as int].deep_view());
        }
    }
    i
}

/// Finds the last tool row that is still running.
fn find_running(items: &Vec<TranscriptItem>) -> (r: Option<usize>)
    ensures
        match r {
            Some(i) => last_running(items.deep_view(), items@.len() as int) == Some(i as int) && i
                < items@.len(),
            None => last_running(items.deep_view(), items@.len() as int) is None,
        },
{
    let ghost all = items.deep_view();
    let mut n: usize = items.len();
    while n > 0
        invariant
            n <= items@.len(),
            all == items.deep_view(),
            last_running(all, items@.len() as int) == last_running(all, n as int),
        decreases n,
    {
        assert(all[n - 1] == items@[n - 1].deep_view());
        match &items[n - 1] {
            TranscriptItem::Tool { status, .. } => {
                if *status == ToolStatus::Running {
                    return Some(n - 1);
                }
            },
            _ => {},
        }
        n -= 1;
    }
    None
}

/// Whether the row at `i` is a tool row.
fn is_tool(items: &Vec<TranscriptItem>, i: usize) -> (r: bool)
    ensures
        r == (i < items@.len() && items.deep_view()[i as int] is Tool),
{
    if i < items.len() {
        assert(items.deep_view()[i as int] == items@[i as int].deep_view());
        matches!(items[i], TranscriptItem::Tool { .. })
    } else {
        false
    }
}

/// Drops the calls whose rows do not come before `n`.
fn keep_calls(calls: &Vec<(String, usize)>, n: usize) -> (r: Vec<(String, usize)>)
    ensures
        r.deep_view() == calls_before(calls.deep_view(), n),
{
    let ghost all = calls.deep_view();
    let mut out: Vec<(String, usize)> = Vec::new();
    let mut i: usize = 0;
    assert(out.deep_view() =~= Seq::<(Seq<char>, usize)>::empty());
    while i < calls.len()
        invariant
            i <= calls@.len(),
            all == calls.deep_view(),
            out.deep_view() == calls_before(all.take(i as int), n),
        decreases calls@.len() - i,
    {
        let ghost before = out.deep_view();
        proof {
            assert(all.take(i + 1).drop_last() =~= all.take(i as int));
            assert(all.take(i + 1).last() == calls@[i as int].deep_view());
        }
        if calls[i].1 < n {
            out.push((calls[i].0.clone(), calls[i].1));
            assert(out.deep_view() =~= before.push(calls@[i as int].deep_view()));
        }
        i += 1;
    }
    assert(all.take(i as int) =~= all);
    out
}

/// `a / b`, rounded up.
pub(crate) fn div_up(a: u64, b: u64) -> (r: u64)
    requires
        b > 0,
    ensures
        r == ceil_div(a as int, b as int),
{
    let r: u128 = (a as u128 + b as u128 - 1) / (b as u128);
    proof {
        assert(ceil_div(a as int, b as int) <= a) by (nonlinear_arith)
            requires
                ceil_div(a as int, b as int) == (a + b - 1) / (b as int),
                b > 0,
                a >= 0,
        ;
    }
    r as u64
}

impl App {
    /// Opens a new assistant text.
    fn open_text_item(&mut self)
        ensures
            final(self).deep_view() == old(self).deep_view().text_opened(),
            final(self).input == old(self).input,
    {
        reveal(AppModel::text_opened);
        reveal(<App as DeepView>::deep_view);
        let i: usize = self.transcript.len();
        self.mark_msg_start();
        self.push_item(TranscriptItem::Assistant(String::new()));
        self.open_text = Some(i);
    }

    /// Opens a new reasoning.
    fn open_reasoning_item(&mut self)
        ensures
            final(self).deep_view() == old(self).deep_view().reasoning_opened(),
            final(self).input == old(self).input,
    {
        reveal(AppModel::reasoning_opened);
        reveal(<App as DeepView>::deep_view);
        let i: usize = self.transcript.len();
        self.mark_msg_start();
        self.push_item(TranscriptItem::Reasoning(String::new()));
        self.open_reasoning = Some(i);
    }

    fn add_text(&mut self, text: &str)
        ensures
            final(self).deep_view() == old(self).deep_view().text_added(text@),
            final(self).input == old(self).input,
    {
        reveal(AppModel::text_added);
        reveal(AppModel::text_opened);
        reveal(<App as DeepView>::deep_view);
        if self.open_text.is_none() {
            self.open_text_item();
        }
        if let Some(i) = self.open_text {
            grow_text(&mut self.transcript, i, text);
        }
        self.bump_render();
    }

    fn add_reasoning(&mut self, text: &str)
        ensures
            final(self).deep_view() == old(self).deep_view().reasoning_added(text@),
            final(self).input == old(self).input,
    {
        reveal(AppModel::reasoning_added);
        reveal(AppModel::reasoning_opened);
        reveal(<App as DeepView>::deep_view);
        if self.open_reasoning.is_none() {
            self.open_reasoning_item();
        }
        if let Some(i) = self.open_reasoning {
            grow_reasoning(&mut self.transcript, i, text);
        }
        self.bump_render();
    }

    fn take_todos(&mut self, name: &str, input: &serde_json::Value)
        ensures
            final(self).deep_view() == old(self).deep_view().todos_taken(name@, contents(*input)),
            final(self).input == old(self).input,
            final(self).transcript == old(self).transcript,
            final(self).running_tools == old(self).running_tools,
    {
        reveal(AppModel::todos_taken);
        reveal(<App as DeepView>::deep_view);
        if same(name, "todowrite") && get(input, "todos").is_some() {
            let was_active: bool = some_unfinished(&self.todos);
            self.todos = parse_todos(input);
            if !was_active && some_unfinished(&self.todos) {
                self.todos_collapsed = false;
            }
        }
    }

    fn start_tool(&mut self, id: String, name: String, input: serde_json::Value)
        ensures
            final(self).deep_view() == old(self).deep_view().tool_called(
                id@,
                name@,
                contents(input),
            ),
            final(self).input == old(self).input,
    {
        reveal(AppModel::tool_called);
        reveal(<App as DeepView>::deep_view);
        self.take_todos(name.as_str(), &input);
        self.mark_msg_start();
        let i: usize = self.transcript.len();
        let title = tool_title(name.as_str(), &input);
        self.push_item(
            TranscriptItem::Tool {
                name,
                status: ToolStatus::Running,
                title,
                input: Some(input),
                output: None,
                expanded: false,
            },
        );
        let ghost before = self.running_tools.deep_view();
        self.running_tools.push((id, i));
        assert(self.running_tools.deep_view() =~= before.push((id@, i)));
        self.bump_render();
    }

    /// Gives the call `id` its outcome. The row is found by the call's id, since
    /// parallel tools finish in any order.
    pub fn finish_tool(&mut self, id: &str, status: ToolStatus, output: Option<String>)
        ensures
            final(self).deep_view() == old(self).deep_view().tool_finished(
                id@,
                status,
                output.deep_view(),
            ),
            final(self).input == old(self).input,
    {
        reveal(AppModel::tool_finished);
        reveal(<App as DeepView>::deep_view);
        let ghost start = self.deep_view();
        let p: usize = find_call(&self.running_tools, id);
        let row: Option<usize> = if p < self.running_tools.len() {
            let ghost before = self.running_tools.deep_view();
            assert(before[p as int] == self.running_tools@[p as int].deep_view());
            let i: usize = self.running_tools[p].1;
            self.running_tools.remove(p);
            assert(self.running_tools.deep_view() =~= before.remove(p as int));
            if is_tool(&self.transcript, i) {
                Some(i)
            } else {
                None
            }
        } else {
            find_running(&self.transcript)
        };
        if let Some(i) = row {
            settle_row(&mut self.transcript, i, status, output);
            self.bump_render();
        }
    }

    fn take_usage(&mut self, usage: Option<Usage>)
        ensures
            final(self).deep_view() == old(self).deep_view().usage_taken(usage),
            final(self).input == old(self).input,
    {
        reveal(<App as DeepView>::deep_view);
        if let Some(u) = usage {
            self.msg_usage = Some(usage_in_out(&u));
            self.usage = Some(u);
        }
    }

    fn settle_usage(&mut self)
        requires
            old(self).deep_view().usage_fits(None),
        ensures
            final(self).deep_view() == old(self).deep_view().usage_settled(),
            final(self).input == old(self).input,
    {
        reveal(<App as DeepView>::deep_view);
        if let Some((i, o)) = self.msg_usage {
            self.session_tokens = (self.session_tokens.0 + i, self.session_tokens.1 + o);
            self.msg_usage = None;
        }
    }

    fn finish(&mut self, reason: FinishReason, usage: Option<Usage>)
        requires
            old(self).deep_view().usage_fits(usage),
        ensures
            final(self).deep_view() == old(self).deep_view().finished(reason, usage),
            final(self).input == old(self).input,
    {
        reveal(AppModel::finished);
        reveal(<App as DeepView>::deep_view);
        self.take_usage(usage);
        self.settle_usage();
        self.msg_start = None;
        self.open_text = None;
        self.open_reasoning = None;
        if reason != FinishReason::ToolCalls {
            self.status = "ready".to_owned();
            if !self.focused {
                self.title_active = true;
                self.pending_action = Some(LoopAction::Notify);
            }
        }
    }

    /// Records a turn-fatal error, in the transcript and in the status line, and
    /// ends what was streaming.
    pub fn record_error(&mut self, message: String)
        ensures
            final(self).deep_view() == old(self).deep_view().failed(message@),
            final(self).input == old(self).input,
    {
        reveal(AppModel::failed);
        reveal(<App as DeepView>::deep_view);
        self.status = cat("error: ", message.as_str());
        self.push_item(TranscriptItem::Error(message));
        self.retry = None;
        self.msg_start = None;
        self.open_text = None;
        self.open_reasoning = None;
        self.bump_render();
    }

    fn start_wait(&mut self, attempt: u32, max: u32, delay_ms: u64, message: &str)
        requires
            delay_ms * TICKS_PER_SEC <= u64::MAX,
        ensures
            final(self).deep_view() == old(self).deep_view().waiting(
                attempt,
                max,
                delay_ms,
                message@,
            ),
            final(self).input == old(self).input,
    {
        reveal(AppModel::waiting);
        reveal(<App as DeepView>::deep_view);
        let mut prefix = if is_rate_limit(message) {
            "rate-limited — retrying".to_owned()
        } else {
            "retrying".to_owned()
        };
        prefix.append(" ");
        prefix.append(number(attempt as u64).as_str());
        prefix.append("/");
        prefix.append(number(max as u64).as_str());
        assert(prefix@ =~= retry_prefix(attempt, max, message@));
        let secs: u64 = div_up(delay_ms, 1000);
        let mut status = cat(prefix.as_str(), " (");
        status.append(number(secs).as_str());
        status.append("s)");
        let ticks: u64 = div_up(delay_ms * TICKS_PER_SEC as u64, 1000);
        let wait: u32 = (ticks % 0x1_0000_0000) as u32;
        self.status = status;
        self.retry = Some(
            RetryCountdown { prefix, expires_tick: self.tick.wrapping_add(wait) },
        );
    }

    fn roll_back(&mut self)
        ensures
            final(self).deep_view() == old(self).deep_view().rolled_back(),
            final(self).input == old(self).input,
    {
        reveal(AppModel::rolled_back);
        reveal(<App as DeepView>::deep_view);
        if let Some(i) = self.msg_start {
            let ghost before = self.transcript.deep_view();
            self.msg_start = None;
            self.transcript.truncate(i);
            proof {
                if i < before.len() {
                    assert(self.transcript.deep_view() =~= before.take(i as int));
                } else {
                    assert(self.transcript.deep_view() =~= before);
                }
            }
            self.running_tools = keep_calls(&self.running_tools, i);
            self.open_text = None;
            self.open_reasoning = None;
            self.bump_render();
        }
    }

    fn retry_event(&mut self, attempt: u32, max: u32, delay_ms: u64, message: &str, salvaged: bool)
        requires
            delay_ms * TICKS_PER_SEC <= u64::MAX,
        ensures
            final(self).deep_view() == old(self).deep_view().retried(
                attempt,
                max,
                delay_ms,
                message@,
                salvaged,
            ),
            final(self).input == old(self).input,
    {
        reveal(<App as DeepView>::deep_view);
        reveal(AppModel::retried);
        self.start_wait(attempt, max, delay_ms, message);
        if salvaged {
            self.msg_start = None;
            self.open_text = None;
            self.open_reasoning = None;
        } else {
            self.roll_back();
        }
    }

    fn start_text(&mut self)
        ensures
            final(self).deep_view() == old(self).deep_view().text_opened().bumped(),
            final(self).input == old(self).input,
    {
        reveal(AppModel::text_opened);
        self.open_text_item();
        self.bump_render();
    }

    fn start_reasoning(&mut self)
        ensures
            final(self).deep_view() == old(self).deep_view().reasoning_opened().bumped(),
            final(self).input == old(self).input,
    {
        reveal(AppModel::reasoning_opened);
        self.open_reasoning_item();
        self.bump_render();
    }

    fn end_text(&mut self)
        ensures
            final(self).deep_view() == old(self).deep_view().text_closed(),
            final(self).input == old(self).input,
    {
        reveal(AppModel::text_closed);
        reveal(<App as DeepView>::deep_view);
        self.open_text = None;
        self.bump_render();
    }

    fn end_reasoning(&mut self)
        ensures
            final(self).deep_view() == old(self).deep_view().reasoning_closed(),
            final(self).input == old(self).input,
    {
        reveal(AppModel::reasoning_closed);
        reveal(<App as DeepView>::deep_view);
        self.open_reasoning = None;
        self.bump_render();
    }

    fn warn(&mut self, message: &str)
        ensures
            final(self).deep_view() == old(self).deep_view().warned(message@),
            final(self).input == old(self).input,
    {
        reveal(AppModel::warned);
        let line = cat("⚠ ", message);
        self.push_item(TranscriptItem::Workflow(line));
        self.bump_render();
    }

    fn end_wait(&mut self)
        ensures
            final(self).deep_view() == (AppModel { retry: None, ..old(self).deep_view() }),
            final(self).input == old(self).input,
    {
        reveal(<App as DeepView>::deep_view);
        self.retry = None;
    }

    fn fold_live(&mut self, ev: LLMEvent)
        requires
            old(self).deep_view().event_fits(ev.deep_view()),
        ensures
            final(self).deep_view() == old(self).deep_view().folded_live(ev.deep_view()),
            final(self).input == old(self).input,
    {
        match ev {
            LLMEvent::TextStart => self.start_text(),
            LLMEvent::TextDelta { text } => self.add_text(text.as_str()),
            LLMEvent::TextEnd => self.end_text(),
            LLMEvent::ReasoningStart => self.start_reasoning(),
            LLMEvent::ReasoningDelta { text } => self.add_reasoning(text.as_str()),
            LLMEvent::ReasoningEnd => self.end_reasoning(),
            LLMEvent::ToolCall { id, name, input } => self.start_tool(id, name, input),
            LLMEvent::ToolResult { id, result, output } => {
                let text = tool_output_text(&result, &output);
                self.finish_tool(id.as_str(), ToolStatus::Success, text);
            },
            LLMEvent::ToolError { id, message } => {
                self.finish_tool(id.as_str(), ToolStatus::Error, Some(message));
            },
            LLMEvent::StepFinish { usage } => self.take_usage(usage),
            LLMEvent::Finish { reason, usage } => self.finish(reason, usage),
            LLMEvent::ProviderError { message } => self.record_error(message),
            LLMEvent::Warning { message } => self.warn(message.as_str()),
            LLMEvent::Retry { .. } => {},
            LLMEvent::Other => {},
        }
    }

    /// Folds one event of a turn into the state.
    pub fn fold_event(&mut self, ev: LLMEvent)
        requires
            old(self).deep_view().event_fits(ev.deep_view()),
        ensures
            final(self).deep_view() == old(self).deep_view().folded(ev.deep_view()),
            final(self).input == old(self).input,
    {
        reveal(AppModel::folded);
        match ev {
            LLMEvent::Retry { attempt, max, delay_ms, message, salvaged } => {
                self.retry_event(attempt, max, delay_ms, message.as_str(), salvaged);
            },
            other => {
                self.end_wait();
                self.fold_live(other);
            },
        }
    }

    /// Replaces the transcript and the todo list by what stored history amounts
    /// to. What was streaming ends: its places are no longer valid.
    pub fn load_history(&mut self, rows: Vec<serde_json::Value>)
        ensures
            final(self).deep_view() == old(self).deep_view().history_loaded(contents_all(rows@)),
            final(self).input == old(self).input,
    {
        reveal(AppModel::history_loaded);
        reveal(<App as DeepView>::deep_view);
        let (items, todos) = fold_history(&rows);
        self.tool_cursor = None;
        self.transcript = items;
        self.running_tools = Vec::new();
        assert(self.running_tools.deep_view() =~= Seq::<(Seq<char>, usize)>::empty());
        self.msg_start = None;
        self.open_text = None;
        self.open_reasoning = None;
        self.todos = todos;
        self.todos_collapsed = false;
        self.bump_render();
    }
}

/// Whether two counts add up within 64 bits.
fn adds_up(a: u64, b: u64) -> (r: bool)
    ensures
        r == (a + b <= u64::MAX),
{
    b <= u64::MAX - a
}

impl App {
    /// Whether an event's numbers can be counted with.
    pub fn can_fold(&self, ev: &LLMEvent) -> (r: bool)
        ensures
            r == self.deep_view().event_fits(ev.deep_view()),
    {
        reveal(<App as DeepView>::deep_view);
        match ev {
            LLMEvent::Finish { usage, .. } => {
                let reading: Option<(u64, u64)> = match usage {
                    Some(u) => Some(usage_in_out(u)),
                    None => self.msg_usage,
                };
                match reading {
                    Some((i, o)) => adds_up(self.session_tokens.0, i) && adds_up(
                        self.session_tokens.1,
                        o,
                    ),
                    None => true,
                }
            },
            LLMEvent::Retry { delay_ms, .. } => *delay_ms <= u64::MAX / TICKS_PER_SEC as u64,
            _ => true,
        }
    }
}

} // verus!
