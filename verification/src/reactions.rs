//! How the state takes what the server, the clock and the user tell it.

use crate::appearance::ThemeMode;
use crate::client::{AgentInfoModel, ModelChoiceModel, SessionInfoModel};
use crate::events::{FinishReason, LLMEventModel, Usage};
use crate::fold::settled;
use crate::json::Json;
use crate::overlay::first_at;
use crate::sse::{ServerEventModel, SubagentMsgModel, WfPhase, WorkflowMsgModel};
use crate::state::{
    completed, context_share, last_answer, running_call, runs_turn, tool_places, waits, AppModel,
    LoopAction, MsgModel, TICKS_PER_SEC,
};
use crate::text::{decimal, has, lowered, occurs_at};
use crate::transcript::{
    is_todo, law_todos_read_back, TodoItemModel, TodoStatus, ToolStatus, TranscriptItemModel,
    WorkflowViewModel,
};
use vstd::prelude::*;

verus! {

// ---------------------------------------------------------------------------
// Workflows
// ---------------------------------------------------------------------------

/// The texts at the places where they stand in `line`, one behind the other, with anything
/// between.
pub open spec fn tells(line: Seq<char>, parts: Seq<Seq<char>>) -> bool
    decreases parts.len(),
{
    parts.len() == 0 || exists|k: int|
        0 <= k && k + parts.last().len() <= line.len() && #[trigger] line.subrange(
            k,
            k + parts.last().len(),
        ) == parts.last() && tells(line.take(k), parts.drop_last())
}

proof fn lemma_tells(line: Seq<char>, k: int, last: Seq<char>, parts: Seq<Seq<char>>)
    requires
        0 <= k,
        k + last.len() <= line.len(),
        line.subrange(k, k + last.len()) == last,
        tells(line.take(k), parts),
    ensures
        tells(line, parts.push(last)),
{
    assert(parts.push(last).drop_last() =~= parts);
    assert(parts.push(last).last() == last);
}

/// A line tells what stands at two places of it.
pub proof fn lemma_tells_two(line: Seq<char>, a: Seq<char>, x: Seq<char>, b: Seq<char>, y: Seq<char>, c: Seq<char>)
    requires
        line == a + x + b + y + c,
    ensures
        tells(line, seq![x, y]),
{
    let j = a.len() as int;
    let k = j + x.len() + b.len();
    assert(line.subrange(k, k + y.len()) =~= y);
    let front = line.take(k);
    assert(front.subrange(j, j + x.len()) =~= x);
    assert(tells(front.take(j), Seq::<Seq<char>>::empty()));
    lemma_tells(front, j, x, Seq::<Seq<char>>::empty());
    assert(Seq::<Seq<char>>::empty().push(x) =~= seq![x]);
    lemma_tells(line, k, y, seq![x]);
    assert(seq![x].push(y) =~= seq![x, y]);
}

/// A line tells what stands at its end.
pub proof fn lemma_tells_end(line: Seq<char>, a: Seq<char>, x: Seq<char>)
    requires
        line == a + x,
    ensures
        tells(line, seq![x]),
{
    let k = a.len() as int;
    assert(line.subrange(k, k + x.len()) =~= x);
    lemma_tells(line, k, x, Seq::empty());
    assert(Seq::<Seq<char>>::empty().push(x) =~= seq![x]);
}

/// What stands for a workflow that started, succeeded or failed.
pub open spec fn workflow_sign(w: WorkflowMsgModel) -> char {
    if w.phase == WfPhase::Started {
        '▶'
    } else if w.ok == Some(true) {
        '✔'
    } else {
        '✖'
    }
}

/// Every workflow event leaves one line: the start names the workflow and its argument,
/// success names it and its summary, failure names it and its error, and each begins with
/// its sign. Progress names the task and its state, and says what was noted.
pub proof fn law_workflow_events_are_told(s: AppModel, w: WorkflowMsgModel)
    ensures
        ({
            let after = s.updated(MsgModel::Event(ServerEventModel::Workflow(w))).transcript;
            &&& after.len() == s.transcript.len() + 1
            &&& after.drop_last() == s.transcript
            &&& after.last() is Workflow
            &&& w.phase != WfPhase::Progress ==> after.last()->Workflow_0.len() > 0
                && after.last()->Workflow_0[0] == workflow_sign(w)
            &&& w.phase == WfPhase::Started && w.arg is Some ==> tells(
                after.last()->Workflow_0,
                seq![w.kind, w.arg->0],
            )
            &&& w.phase == WfPhase::Done && w.ok == Some(true) && w.summary is Some ==> tells(
                after.last()->Workflow_0,
                seq![w.kind, w.summary->0],
            )
            &&& w.phase == WfPhase::Done && w.ok != Some(true) && w.error is Some ==> tells(
                after.last()->Workflow_0,
                seq![w.kind, w.error->0],
            )
            &&& w.phase == WfPhase::Progress && w.task_index is Some && w.status is Some ==> tells(
                after.last()->Workflow_0,
                seq![decimal(w.task_index->0 as nat), w.status->0],
            ) && tells(after.last()->Workflow_0, seq![w.status->0, w.notes])
        }),
{
    reveal(AppModel::heard);
    reveal(AppModel::workflow_seen);
    reveal(AppModel::outdated);
    reveal(AppModel::noted);
    let after = s.updated(MsgModel::Event(ServerEventModel::Workflow(w))).transcript;
    assert(after.drop_last() =~= s.transcript);
    let line = after.last()->Workflow_0;
    reveal_strlit("▶ workflow ");
    reveal_strlit("✔ workflow ");
    reveal_strlit("✖ workflow ");
    if w.phase == WfPhase::Started {
        if w.arg is Some {
            let a = w.arg->0;
            assert(line =~= "▶ workflow "@ + w.kind + (" started"@ + " ("@) + a + ")"@);
            lemma_tells_two(line, "▶ workflow "@, w.kind, " started"@ + " ("@, a, ")"@);
        }
    } else if w.phase == WfPhase::Done {
        if w.ok == Some(true) {
            if w.summary is Some {
                let a = w.summary->0;
                assert(line =~= "✔ workflow "@ + w.kind + " complete: "@ + a + Seq::empty());
                lemma_tells_two(line, "✔ workflow "@, w.kind, " complete: "@, a, Seq::empty());
            }
        } else if w.error is Some {
            let a = w.error->0;
            assert(line =~= "✖ workflow "@ + w.kind + " failed: "@ + a + Seq::empty());
            lemma_tells_two(line, "✖ workflow "@, w.kind, " failed: "@, a, Seq::empty());
        }
    } else if w.task_index is Some && w.status is Some {
        let d = decimal(w.task_index->0 as nat);
        let t = w.status->0;
        assert(line =~= "  task "@ + d + ": "@ + t + (" — "@ + w.notes));
        lemma_tells_two(line, "  task "@, d, ": "@, t, " — "@ + w.notes);
        assert(line =~= ("  task "@ + d + ": "@) + t + " — "@ + w.notes + Seq::empty());
        lemma_tells_two(line, "  task "@ + d + ": "@, t, " — "@, w.notes, Seq::empty());
    }
}

/// The state after the events of a workflow run.
pub open spec fn after_run(s: AppModel, ws: Seq<WorkflowMsgModel>) -> AppModel
    decreases ws.len(),
{
    if ws.len() == 0 {
        s
    } else {
        after_run(s, ws.drop_last()).updated(
            MsgModel::Event(ServerEventModel::Workflow(ws.last())),
        )
    }
}

proof fn lemma_run(s: AppModel, w: WorkflowMsgModel)
    ensures
        ({
            let after = s.updated(MsgModel::Event(ServerEventModel::Workflow(w))).workflow;
            &&& w.phase == WfPhase::Started ==> after == Some(WorkflowViewModel::begun(w))
            &&& w.phase != WfPhase::Started && s.workflow is None ==> after is None
            &&& w.phase != WfPhase::Started && s.workflow is Some ==> after == Some(
                s.workflow->0.after(w),
            )
        }),
{
    reveal(AppModel::heard);
    reveal(AppModel::workflow_seen);
    reveal(AppModel::outdated);
    reveal(AppModel::noted);
}

/// A workflow run is followed from its start to its end: it is the run that started, each
/// task stands as it was last reported, a task that was not reported is not there, and the
/// run is over once it is said to be done, with the success that was said.
pub proof fn law_a_run_is_followed(
    s: AppModel,
    start: WorkflowMsgModel,
    ws: Seq<WorkflowMsgModel>,
)
    requires
        start.phase == WfPhase::Started,
        forall|i: int|
            0 <= i < ws.len() ==> (#[trigger] ws[i]).session == start.session && ws[i].phase
                == WfPhase::Progress && ws[i].task_index is Some && ws[i].status is Some,
    ensures
        ({
            let began = s.updated(MsgModel::Event(ServerEventModel::Workflow(start)));
            let view = after_run(began, ws).workflow;
            &&& view is Some
            &&& view->0.session == start.session && view->0.kind == start.kind
            &&& start.arg is Some ==> view->0.arg == start.arg->0
            &&& view->0.done is None
            &&& forall|i: int|
                0 <= i < ws.len() && (forall|j: int|
                    i < j < ws.len() ==> (#[trigger] ws[j]).task_index != ws[i].task_index)
                    ==> view->0.tasks.contains_pair(
                    (#[trigger] ws[i]).task_index->0,
                    (ws[i].status->0, ws[i].notes),
                )
            &&& forall|t|
                view->0.tasks.contains_key(t) ==> exists|i: int|
                    0 <= i < ws.len() && (#[trigger] ws[i]).task_index == Some(t)
            &&& forall|end: WorkflowMsgModel|
                end.session == start.session && end.phase == WfPhase::Done ==> {
                    let over = (#[trigger] after_run(began, ws).updated(
                        MsgModel::Event(ServerEventModel::Workflow(end)),
                    )).workflow;
                    &&& over is Some
                    &&& over->0.done == Some(end.ok == Some(true))
                    &&& over->0.tasks == view->0.tasks
                }
        }),
    decreases ws.len(),
{
    let began = s.updated(MsgModel::Event(ServerEventModel::Workflow(start)));
    lemma_run(s, start);
    if ws.len() > 0 {
        let front = ws.drop_last();
        assert forall|i: int| 0 <= i < front.len() implies (#[trigger] front[i]).session
            == start.session && front[i].phase == WfPhase::Progress && front[i].task_index is Some
            && front[i].status is Some by {
            assert(front[i] == ws[i]);
        }
        law_a_run_is_followed(s, start, front);
        let before = after_run(began, front);
        lemma_run(before, ws.last());
        let old_view = before.workflow->0;
        let view = after_run(began, ws).workflow->0;
        let last = ws[ws.len() - 1];
        assert(view.tasks == old_view.tasks.insert(
            last.task_index->0,
            (last.status->0, last.notes),
        ));
        assert forall|i: int|
            0 <= i < ws.len() && (forall|j: int|
                i < j < ws.len() ==> (#[trigger] ws[j]).task_index != ws[i].task_index) implies view.tasks.contains_pair(
        (#[trigger] ws[i]).task_index->0, (ws[i].status->0, ws[i].notes)) by {
            if i < front.len() {
                assert(front[i] == ws[i]);
                assert forall|j: int| i < j < front.len() implies (#[trigger] front[j]).task_index
                    != front[i].task_index by {
                    assert(front[j] == ws[j]);
                }
                assert(ws[ws.len() - 1].task_index != ws[i].task_index);
            }
        }
        assert forall|t| view.tasks.contains_key(t) implies exists|i: int|
            0 <= i < ws.len() && (#[trigger] ws[i]).task_index == Some(t) by {
            if t == last.task_index->0 {
                assert(ws[ws.len() - 1].task_index == Some(t));
            } else {
                assert(old_view.tasks.contains_key(t));
                let i = choose|i: int|
                    0 <= i < front.len() && (#[trigger] front[i]).task_index == Some(t);
                assert(front[i] == ws[i]);
            }
        }
    }
    let full = after_run(began, ws);
    assert forall|end: WorkflowMsgModel|
        end.session == start.session && end.phase == WfPhase::Done implies {
        let over = (#[trigger] full.updated(
            MsgModel::Event(ServerEventModel::Workflow(end)),
        )).workflow;
        &&& over is Some
        &&& over->0.done == Some(end.ok == Some(true))
        &&& over->0.tasks == full.workflow->0.tasks
    } by {
        lemma_run(full, end);
    }
}

/// What a subagent does is told where its run is in view, with the task, what it does and
/// to what, and nowhere else.
pub proof fn law_subagents_are_told_of(s: AppModel, m: SubagentMsgModel)
    ensures
        ({
            let after = s.updated(MsgModel::Event(ServerEventModel::Subagent(m)));
            let shown = s.workflow is Some && s.workflow->0.session == m.session;
            &&& !shown ==> after == s
            &&& shown ==> after.transcript.len() == s.transcript.len() + 1
                && after.transcript.drop_last() == s.transcript && after.transcript.last() is Workflow
                && tells(
                after.transcript.last()->Workflow_0,
                seq![decimal(m.task_index as nat), m.detail],
            )
            &&& shown && m.verb != "text"@ ==> tells(
                after.transcript.last()->Workflow_0,
                seq![m.verb, m.detail],
            )
        }),
{
    reveal(AppModel::heard);
    reveal(AppModel::subagent_seen);
    reveal(AppModel::noted);
    let after = s.updated(MsgModel::Event(ServerEventModel::Subagent(m)));
    if s.workflow is Some && s.workflow->0.session == m.session {
        assert(after.transcript.drop_last() =~= s.transcript);
        let line = after.transcript.last()->Workflow_0;
        let d = decimal(m.task_index as nat);
        if m.verb == "text"@ {
            lemma_tells_two(line, "task "@, d, " · \""@, m.detail, "\""@);
        } else {
            let between = " ▸ "@ + m.verb + ": "@;
            assert(line =~= "task "@ + d + between + m.detail + Seq::empty());
            lemma_tells_two(line, "task "@, d, between, m.detail, Seq::empty());
            assert(line =~= ("task "@ + d + " ▸ "@) + m.verb + ": "@ + m.detail + Seq::empty());
            lemma_tells_two(line, "task "@ + d + " ▸ "@, m.verb, ": "@, m.detail, Seq::empty());
        }
    }
}

// ---------------------------------------------------------------------------
// The clock
// ---------------------------------------------------------------------------

/// Whether `n` units of `unit` ticks cover `ticks` and no fewer do.
pub open spec fn covers(n: nat, unit: int, ticks: int) -> bool {
    (n - 1) * unit < ticks <= n * unit
}

/// While a retry is waited for, the status says for how many seconds more, a begun second
/// counted as a whole one; then that it is due, and then for how long it has been.
pub proof fn law_a_wait_counts_down(s: AppModel)
    requires
        s.retry is Some,
        s.tick < u32::MAX,
    ensures
        ({
            let r = s.retry->0;
            let after = s.updated(MsgModel::Tick);
            let now = s.tick + 1;
            &&& after.tick == now
            &&& after.retry == s.retry
            &&& r.expires_tick > now ==> exists|n: nat|
                covers(n, TICKS_PER_SEC as int, r.expires_tick - now) && after.status
                    == #[trigger] (r.prefix + " ("@ + decimal(n) + "s)"@)
            &&& r.expires_tick == now ==> after.status == r.prefix + " (now)"@
            &&& r.expires_tick < now ==> exists|n: nat|
                covers(n, TICKS_PER_SEC as int, now - r.expires_tick) && after.status
                    == #[trigger] (r.prefix + " (now +"@ + decimal(n) + "s)"@)
        }),
{
    reveal(AppModel::ticked);
    let r = s.retry->0;
    let now = s.tick + 1;
    let unit = TICKS_PER_SEC as int;
    if r.expires_tick > now {
        let n = ((r.expires_tick - now + unit - 1) / unit) as nat;
        assert(covers(n, unit, r.expires_tick - now));
        assert(s.updated(MsgModel::Tick).status == r.prefix + " ("@ + decimal(n) + "s)"@);
    } else if r.expires_tick < now {
        let n = ((now - r.expires_tick + unit - 1) / unit) as nat;
        assert(covers(n, unit, now - r.expires_tick));
        assert(s.updated(MsgModel::Tick).status == r.prefix + " (now +"@ + decimal(n) + "s)"@);
    }
}

/// An announced retry is waited for: the status says which attempt of how many it is and
/// how many seconds are left, and what the next tick says counts on from there.
pub proof fn law_a_retry_is_announced(
    s: AppModel,
    attempt: u32,
    max: u32,
    delay_ms: u64,
    message: Seq<char>,
    salvaged: bool,
)
    requires
        s.tick + delay_ms * TICKS_PER_SEC / 1000 + 1 <= u32::MAX,
    ensures
        ({
            let after = s.updated(
                MsgModel::Server(
                    LLMEventModel::Retry { attempt, max, delay_ms, message, salvaged },
                ),
            );
            &&& after.retry is Some
            &&& tells(after.retry->0.prefix, seq![decimal(attempt as nat), decimal(max as nat)])
            &&& exists|n: nat|
                covers(n, 1000, delay_ms as int) && after.status == #[trigger] (
                after.retry->0.prefix + " ("@ + decimal(n) + "s)"@)
            &&& covers(
                (after.retry->0.expires_tick - s.tick) as nat,
                1000,
                delay_ms * TICKS_PER_SEC,
            )
        }),
{
    reveal(AppModel::folded);
    reveal(AppModel::retried);
    reveal(AppModel::waiting);
    reveal(AppModel::rolled_back);
    let after = s.updated(
        MsgModel::Server(LLMEventModel::Retry { attempt, max, delay_ms, message, salvaged }),
    );
    let n = ((delay_ms + 999) / 1000) as nat;
    assert(covers(n, 1000, delay_ms as int));
    assert(after.status == after.retry->0.prefix + " ("@ + decimal(n) + "s)"@);
    let word = if crate::transcript::rate_limited(message) {
        "rate-limited — retrying"@
    } else {
        "retrying"@
    };
    let p = after.retry->0.prefix;
    assert(p =~= (word + " "@) + decimal(attempt as nat) + "/"@ + decimal(max as nat)
        + Seq::empty());
    lemma_tells_two(
        p,
        word + " "@,
        decimal(attempt as nat),
        "/"@,
        decimal(max as nat),
        Seq::empty(),
    );
    let ticks = (delay_ms * TICKS_PER_SEC + 999) / 1000;
    assert(ticks <= delay_ms * TICKS_PER_SEC / 1000 + 1);
    assert(ticks % 0x1_0000_0000 == ticks) by (nonlinear_arith)
        requires
            0 <= ticks <= u32::MAX,
    ;
}

/// A tick moves the clock on. The spinner turns, and the wait is counted, only while the
/// server is waited for.
pub proof fn law_the_spinner_turns_while_waiting(s: AppModel)
    requires
        s.tick < u32::MAX,
        s.busy_ticks < u32::MAX,
        s.spinner_frame < usize::MAX,
    ensures
        ({
            let after = s.updated(MsgModel::Tick);
            &&& after.tick == s.tick + 1
            &&& waits(s.status) ==> after.spinner_frame == s.spinner_frame + 1 && after.busy_ticks
                == s.busy_ticks + 1
            &&& !waits(s.status) ==> after.spinner_frame == s.spinner_frame && after.busy_ticks
                == 0
            &&& s.retry is None ==> after.status == s.status
            &&& after.transcript == s.transcript && after.input == s.input && after.overlay
                == s.overlay
        }),
{
    reveal(AppModel::ticked);
}

// ---------------------------------------------------------------------------
// Turns
// ---------------------------------------------------------------------------

proof fn lemma_ready()
    ensures
        !waits("ready"@),
        !runs_turn("ready"@),
{
    reveal_strlit("ready");
    reveal_strlit("thinking");
    reveal_strlit("loading");
    reveal_strlit("new session");
    reveal_strlit("connecting");
    reveal_strlit("retrying");
    assert("ready"@.len() == 5);
    assert("thinking"@.len() > 5 && "loading"@.len() > 5 && "new session"@.len() > 5
        && "connecting"@.len() > 5 && "retrying"@.len() > 5);
}

/// A message that is not followed by tool calls ends the turn: nothing is waited for, and a
/// prompt can be sent again. A user who looks elsewhere is notified, once, and the title
/// goes back when they return.
pub proof fn law_the_last_message_ends_the_turn(
    s: AppModel,
    reason: FinishReason,
    usage: Option<Usage>,
)
    ensures
        ({
            let after = s.updated(MsgModel::Server(LLMEventModel::Finish { reason, usage }));
            let back = after.updated(MsgModel::FocusChanged(true));
            &&& after.transcript == s.transcript
            &&& after.open_text is None && after.open_reasoning is None && after.msg_start is None
            &&& reason == FinishReason::ToolCalls ==> after.status == s.status
                && after.pending_action == s.pending_action
            &&& reason != FinishReason::ToolCalls ==> !waits(after.status) && !runs_turn(
                after.status,
            )
            &&& reason != FinishReason::ToolCalls && !s.focused ==> after.pending_action == Some(
                LoopAction::Notify,
            ) && back.pending_action == Some(LoopAction::ResetTitle) && !back.title_active
            &&& s.focused ==> after.pending_action == s.pending_action && after.title_active
                == s.title_active
        }),
{
    reveal(AppModel::folded);
    reveal(AppModel::finished);
    reveal(AppModel::focus_changed);
    lemma_ready();
}

/// Looking away and coming back leaves everything as it was, unless the title was changed
/// meanwhile.
pub proof fn law_focus_alone_changes_nothing(s: AppModel)
    requires
        s.focused,
        !s.title_active,
    ensures
        !s.updated(MsgModel::FocusChanged(false)).focused,
        s.updated(MsgModel::FocusChanged(false)).updated(MsgModel::FocusChanged(true)) == s,
{
    reveal(AppModel::focus_changed);
}

/// When the prompt's stream ends, nothing is waited for any more.
pub proof fn law_the_stream_ends_the_wait(s: AppModel)
    ensures
        !waits(s.updated(MsgModel::PromptEnded).status),
        s.updated(MsgModel::PromptEnded).retry is None,
        !waits(s.status) ==> s.updated(MsgModel::PromptEnded).status == s.status,
        s.updated(MsgModel::PromptEnded).transcript == s.transcript,
{
    reveal(AppModel::prompt_ended);
    lemma_ready();
}

/// An error shows as the last row and in the status, and nothing streams into what was
/// there.
pub proof fn law_errors_show(s: AppModel, message: Seq<char>)
    ensures
        ({
            let a = s.updated(MsgModel::Error(message));
            let b = s.updated(MsgModel::Server(LLMEventModel::ProviderError { message }));
            &&& a.transcript == s.transcript.push(TranscriptItemModel::Error(message))
            &&& b.transcript == a.transcript && b.status == a.status
            &&& tells(a.status, seq![message])
            &&& a.open_text is None && a.open_reasoning is None && a.msg_start is None
            &&& a.retry is None && b.retry is None
        }),
{
    reveal(AppModel::folded);
    reveal(AppModel::failed);
    let line = "error: "@ + message;
    let k = "error: "@.len() as int;
    assert(line.subrange(k, k + message.len()) =~= message);
    lemma_tells(line, k, message, Seq::empty());
    assert(Seq::<Seq<char>>::empty().push(message) =~= seq![message]);
}

/// A warning shows as a row of its own and changes nothing else of the transcript.
pub proof fn law_warnings_show(s: AppModel, message: Seq<char>)
    ensures
        ({
            let after = s.updated(MsgModel::Server(LLMEventModel::Warning { message }));
            &&& after.transcript.len() == s.transcript.len() + 1
            &&& after.transcript.drop_last() == s.transcript
            &&& after.transcript.last() is Workflow
            &&& tells(after.transcript.last()->Workflow_0, seq![message])
            &&& after.open_text == s.open_text && after.status == s.status
        }),
{
    reveal(AppModel::folded);
    reveal(AppModel::warned);
    let after = s.updated(MsgModel::Server(LLMEventModel::Warning { message }));
    assert(after.transcript.drop_last() =~= s.transcript);
    let line = "⚠ "@ + message;
    let k = "⚠ "@.len() as int;
    assert(line.subrange(k, k + message.len()) =~= message);
    lemma_tells(line, k, message, Seq::empty());
    assert(Seq::<Seq<char>>::empty().push(message) =~= seq![message]);
}

/// The call that writes the todo list sets it to what it lists; every other call leaves it
/// alone. A list with something to do shows itself where there was nothing to do before,
/// and else stays folded or not.
pub proof fn law_the_todo_call_sets_the_list(
    s: AppModel,
    id: Seq<char>,
    name: Seq<char>,
    input: Json,
    todos: Seq<Json>,
)
    requires
        input.member("todos"@) == Some(Json::Array(todos)),
    ensures
        ({
            let after = s.updated(MsgModel::Server(LLMEventModel::ToolCall { id, name, input }));
            &&& name != "todowrite"@ ==> after.todos == s.todos && after.todos_collapsed
                == s.todos_collapsed
            &&& name == "todowrite"@ ==> after.todos.len() == todos.len() && forall|i: int|
                0 <= i < todos.len() ==> is_todo(#[trigger] todos[i], after.todos[i])
            &&& name == "todowrite"@ && (forall|i: int|
                0 <= i < s.todos.len() ==> (#[trigger] s.todos[i]).status == TodoStatus::Completed)
                && (exists|i: int|
                0 <= i < after.todos.len() && (#[trigger] after.todos[i]).status
                    == TodoStatus::Pending) ==> !after.todos_collapsed
            &&& (exists|i: int|
                0 <= i < s.todos.len() && (#[trigger] s.todos[i]).status == TodoStatus::Pending)
                ==> after.todos_collapsed == s.todos_collapsed
        }),
{
    reveal(AppModel::folded);
    reveal(AppModel::tool_called);
    reveal(AppModel::todos_taken);
    law_todos_read_back(input, todos);
}

// ---------------------------------------------------------------------------
// Themes
// ---------------------------------------------------------------------------

/// The theme follows the system: once the system says light, the light theme is active, and
/// once it says dark, the dark one. Saying the same again changes nothing, and neither does
/// an answer that could not be told.
pub proof fn law_the_theme_follows_the_system(s: AppModel, mode: ThemeMode)
    requires
        s.themes.len() == 3,
        s.theme_mode != Some(mode),
    ensures
        ({
            let m = MsgModel::OsThemeChanged(Some(mode));
            let after = s.updated(m);
            &&& mode == ThemeMode::Light ==> after.themes[0] == s.themes[2]
            &&& mode == ThemeMode::Dark ==> after.themes[0] == s.themes[1]
            &&& after.themes[1] == s.themes[1] && after.themes[2] == s.themes[2]
            &&& after.themes.len() == 3
            &&& after.theme_mode == Some(mode)
            &&& after.pending_action == Some(LoopAction::CursorColor)
            &&& after.updated(m) == after
            &&& s.updated(MsgModel::OsThemeChanged(None)) == s
        }),
{
    reveal(AppModel::os_theme_changed);
}

// ---------------------------------------------------------------------------
// Lists and places
// ---------------------------------------------------------------------------

/// What was loaded is what is held.
pub proof fn law_what_was_loaded_is_held(
    s: AppModel,
    sessions: Seq<SessionInfoModel>,
    agents: Seq<AgentInfoModel>,
    models: Seq<ModelChoiceModel>,
    mode: Seq<char>,
)
    ensures
        ({
            let after = s.updated(MsgModel::SessionsLoaded(sessions)).updated(
                MsgModel::AgentsLoaded(agents),
            ).updated(MsgModel::ModelsLoaded(models)).updated(
                MsgModel::PermissionModeChanged(mode),
            );
            &&& after.sessions == sessions
            &&& after.agents == agents
            &&& after.models == models
            &&& after.permission_mode == mode
            &&& after.transcript == s.transcript && after.overlay == s.overlay && after.session_id
                == s.session_id
            &&& !s.should_quit ==> !after.should_quit
            &&& after.updated(MsgModel::Quit).should_quit
            &&& after.updated(MsgModel::ScrollBottom).scroll == 0
        }),
{
}

/// The last answer is the text behind which no other answer stands.
pub proof fn law_the_last_answer_is_last(items: Seq<TranscriptItemModel>)
    ensures
        match last_answer(items) {
            Some(t) => exists|i: int|
                0 <= i < items.len() && #[trigger] items[i] == TranscriptItemModel::Assistant(t)
                    && forall|j: int| i < j < items.len() ==> !((#[trigger] items[j]) is Assistant),
            None => forall|j: int| 0 <= j < items.len() ==> !((#[trigger] items[j]) is Assistant),
        },
    decreases items.len(),
{
    if items.len() > 0 {
        let front = items.drop_last();
        law_the_last_answer_is_last(front);
        let n = items.len() - 1;
        if items[n] is Assistant {
            assert(items[n] == TranscriptItemModel::Assistant(last_answer(items)->0));
        } else if last_answer(items) is Some {
            let t = last_answer(items)->0;
            let i = choose|i: int|
                0 <= i < front.len() && #[trigger] front[i] == TranscriptItemModel::Assistant(t)
                    && forall|j: int| i < j < front.len() ==> !((#[trigger] front[j]) is Assistant);
            assert(items[i] == front[i]);
            assert forall|j: int| i < j < items.len() implies !((#[trigger] items[j]) is Assistant) by {
                if j < n {
                    assert(items[j] == front[j]);
                }
            }
        } else {
            assert forall|j: int| 0 <= j < items.len() implies !((
            #[trigger] items[j]) is Assistant) by {
                if j < n {
                    assert(items[j] == front[j]);
                }
            }
        }
    }
}

/// Whether an item is the row of a running call of this name and title.
pub open spec fn runs_call(item: TranscriptItemModel, name: Seq<char>, title: Seq<char>) -> bool {
    item matches TranscriptItemModel::Tool { name: n, status: ToolStatus::Running, title: t, .. }
        && n == name && t == title
}

/// The running call is the last one that is still running.
pub proof fn law_the_running_call_is_the_last(items: Seq<TranscriptItemModel>)
    ensures
        match running_call(items) {
            Some((name, title)) => exists|i: int|
                0 <= i < items.len() && runs_call(#[trigger] items[i], name, title) && forall|
                    j: int,
                    n: Seq<char>,
                    t: Seq<char>,
                |
                    i < j < items.len() ==> !(#[trigger] runs_call(items[j], n, t)),
            None => forall|j: int, n: Seq<char>, t: Seq<char>|
                0 <= j < items.len() ==> !(#[trigger] runs_call(items[j], n, t)),
        },
    decreases items.len(),
{
    if items.len() > 0 {
        let front = items.drop_last();
        law_the_running_call_is_the_last(front);
        let n = items.len() - 1;
        match running_call(items) {
            Some((name, title)) => {
                if runs_call(items[n], name, title) {
                } else {
                    let i = choose|i: int|
                        0 <= i < front.len() && runs_call(#[trigger] front[i], name, title)
                            && forall|j: int, n: Seq<char>, t: Seq<char>|
                            i < j < front.len() ==> !(#[trigger] runs_call(front[j], n, t));
                    assert(items[i] == front[i]);
                    assert forall|j: int, a: Seq<char>, t: Seq<char>|
                        i < j < items.len() implies !(#[trigger] runs_call(items[j], a, t)) by {
                        if j < n {
                            assert(items[j] == front[j]);
                            assert(!runs_call(front[j], a, t));
                        }
                    }
                }
            },
            None => {
                assert forall|j: int, a: Seq<char>, t: Seq<char>|
                    0 <= j < items.len() implies !(#[trigger] runs_call(items[j], a, t)) by {
                    if j < n {
                        assert(items[j] == front[j]);
                        assert(!runs_call(front[j], a, t));
                    }
                }
            },
        }
    }
}

/// The places of the tool rows are all of them, from the first to the last.
pub proof fn law_tool_places_are_the_tool_rows(items: Seq<TranscriptItemModel>)
    requires
        items.len() <= usize::MAX,
    ensures
        forall|k: int|
            0 <= k < tool_places(items).len() ==> (#[trigger] tool_places(items)[k]) < items.len()
                && items[tool_places(items)[k] as int] is Tool,
        forall|a: int, b: int|
            0 <= a < b < tool_places(items).len() ==> (#[trigger] tool_places(items)[a]) < (
            #[trigger] tool_places(items)[b]),
        forall|i: int|
            0 <= i < items.len() && (#[trigger] items[i]) is Tool ==> tool_places(items).contains(
                i as usize,
            ),
    decreases items.len(),
{
    if items.len() > 0 {
        let front = items.drop_last();
        law_tool_places_are_the_tool_rows(front);
        let before = tool_places(front);
        let all = tool_places(items);
        assert forall|k: int| 0 <= k < all.len() implies (#[trigger] all[k]) < items.len()
            && items[all[k] as int] is Tool by {
            if k < before.len() {
                assert(all[k] == before[k]);
                assert(front[before[k] as int] == items[before[k] as int]);
            }
        }
        assert forall|a: int, b: int| 0 <= a < b < all.len() implies (#[trigger] all[a]) < (
        #[trigger] all[b]) by {
            assert(all[a] == before[a]);
            if b < before.len() {
                assert(all[b] == before[b]);
            }
        }
        assert forall|i: int| 0 <= i < items.len() && (#[trigger] items[i]) is Tool implies all.contains(
        i as usize) by {
            if i < front.len() {
                assert(front[i] == items[i]);
                assert(before.contains(i as usize));
                let k = choose|k: int| 0 <= k < before.len() && before[k] == i as usize;
                assert(all[k] == i as usize);
            } else {
                assert(all[all.len() - 1] == i as usize);
            }
        }
    }
}

proof fn lemma_first_at(places: Seq<usize>, k: int)
    requires
        0 <= k < places.len(),
        forall|a: int, b: int|
            0 <= a < b < places.len() ==> (#[trigger] places[a]) < (#[trigger] places[b]),
    ensures
        first_at(places, places[k]) == k,
    decreases k,
{
    reveal_with_fuel(first_at, 2);
    if k > 0 {
        assert(places[0] < places[k]);
        let rest = places.skip(1);
        assert forall|a: int, b: int| 0 <= a < b < rest.len() implies (#[trigger] rest[a]) < (
        #[trigger] rest[b]) by {
            assert(places[a + 1] < places[b + 1]);
        }
        assert(rest[k - 1] == places[k]);
        lemma_first_at(rest, k - 1);
    }
}

/// Going from tool row to tool row goes from neighbour to neighbour: from nowhere back to
/// the last one, from each one back to the one before, from the first no further; and on to
/// the one behind, from the last one to nowhere.
pub proof fn law_tool_rows_are_walked_in_order(s: AppModel, k: int)
    requires
        s.transcript.len() <= usize::MAX,
        0 <= k < tool_places(s.transcript).len(),
    ensures
        ({
            let tools = tool_places(s.transcript);
            let on = AppModel { tool_cursor: Some(tools[k]), ..s };
            let off = AppModel { tool_cursor: None, ..s };
            &&& off.prev_tool() == (AppModel { tool_cursor: Some(tools.last()), ..s })
            &&& off.next_tool() == off
            &&& k > 0 ==> on.prev_tool() == (AppModel { tool_cursor: Some(tools[k - 1]), ..s })
            &&& k == 0 ==> on.prev_tool() == on
            &&& k + 1 < tools.len() ==> on.next_tool() == (AppModel {
                tool_cursor: Some(tools[k + 1]),
                ..s
            }) && on.next_tool().prev_tool() == on
            &&& k + 1 == tools.len() ==> on.next_tool() == off && off.prev_tool() == on
        }),
{
    reveal(AppModel::prev_tool);
    reveal(AppModel::next_tool);
    law_tool_places_are_the_tool_rows(s.transcript);
    let tools = tool_places(s.transcript);
    lemma_first_at(tools, k);
    if k + 1 < tools.len() {
        lemma_first_at(tools, k + 1);
    }
}

/// The number of completed todos grows by one for each one that is, and by nothing else.
pub proof fn law_completed_todos_are_counted(todos: Seq<TodoItemModel>, t: TodoItemModel)
    ensures
        completed(Seq::empty()) == 0,
        completed(todos.push(t)) == completed(todos) + (if t.status == TodoStatus::Completed {
            1int
        } else {
            0
        }),
        completed(todos) <= todos.len(),
    decreases todos.len(),
{
    assert(todos.push(t).drop_last() =~= todos);
    if todos.len() > 0 {
        law_completed_todos_are_counted(todos.drop_last(), t);
    }
}

/// The share of the context in use is the greatest whole percentage that the tokens read
/// come to, and never more than all of it.
pub proof fn law_the_context_share_is_a_percentage(input: u64, output: u64, limit: u64)
    requires
        limit > 0,
    ensures
        ({
            let read = Usage {
                input_tokens: Some(input),
                output_tokens: Some(output),
                total_tokens: None,
            };
            let total = Usage { input_tokens: None, output_tokens: None, total_tokens: Some(input) };
            let bare = Usage { input_tokens: None, output_tokens: None, total_tokens: None };
            let share = context_share(Some(read), Some(limit));
            &&& share is Some && share == context_share(Some(total), Some(limit))
            &&& input >= limit ==> share == Some(100u8)
            &&& input < limit ==> share->0 * limit <= input * 100 < (share->0 + 1) * limit
            &&& context_share(Some(bare), Some(limit)) is None
            &&& context_share(None, Some(limit)) is None
            &&& context_share(Some(read), None) is None
            &&& context_share(Some(read), Some(0)) is None
        }),
{
    let l = limit as int;
    let n = input * 100;
    let q = n / l;
    assert(q * l <= n < (q + 1) * l) by (nonlinear_arith)
        requires
            l > 0,
            n >= 0,
            q == n / l,
    ;
    if input >= limit {
        assert(q >= 100) by (nonlinear_arith)
            requires
                n >= 100 * l,
                n < (q + 1) * l,
                l > 0,
        ;
    } else {
        assert(q < 100) by (nonlinear_arith)
            requires
                n < 100 * l,
                q * l <= n,
                l > 0,
        ;
    }
}

/// A choice from a list takes the row that is selected: its model, its agent, or its
/// session. The list is closed either way.
pub proof fn law_the_selected_row_is_taken(s: AppModel)
    ensures
        s.list_taken().overlay is Closed,
        s.overlay is Models && s.selected < s.models.len() ==> s.list_taken().model == Some(
            s.models[s.selected as int].id(),
        ) && s.list_taken().agent == s.agent && s.list_request() is None,
        s.overlay is Agents && s.selected < s.agents.len() ==> s.list_taken().agent == Some(
            s.agents[s.selected as int].name,
        ) && s.list_taken().model == s.model && s.list_request() is None,
        s.overlay is Sessions && s.selected < s.sessions.len() ==> s.list_request() == Some(
            MsgModel::SwitchSession(s.sessions[s.selected as int].id),
        ) && s.list_taken().model == s.model && s.list_taken().agent == s.agent,
{
    reveal(AppModel::list_taken);
}

/// Moving in a list goes row by row and stops at its ends: down and up again leads back,
/// except from the last row, and up and down again, except from the first.
pub proof fn law_lists_end(s: AppModel)
    requires
        s.selected < s.list_len() <= usize::MAX,
    ensures
        s.selected + 1 < s.list_len() ==> s.list_moved(1).selected == s.selected + 1
            && s.list_moved(1).list_moved(-1) == s,
        s.selected + 1 == s.list_len() ==> s.list_moved(1) == s,
        s.selected > 0 ==> s.list_moved(-1).selected == s.selected - 1
            && s.list_moved(-1).list_moved(1) == s,
        s.selected == 0 ==> s.list_moved(-1) == s,
{
    reveal(AppModel::list_moved);
}

/// The tool row in focus unfolds, or the last one where none is in focus: that row alone, and
/// nothing of it but whether it is unfolded.
pub proof fn law_the_row_in_focus_unfolds(s: AppModel, i: int)
    requires
        0 <= i < s.transcript.len() <= usize::MAX,
        s.transcript[i] is Tool,
        s.tool_cursor == Some(i as usize) || (s.tool_cursor is None && forall|j: int|
            i < j < s.transcript.len() ==> !((#[trigger] s.transcript[j]) is Tool)),
    ensures
        ({
            let after = s.updated(MsgModel::ToggleTool).transcript;
            &&& after.len() == s.transcript.len()
            &&& forall|j: int|
                0 <= j < after.len() && j != i ==> #[trigger] after[j] == s.transcript[j]
            &&& after[i] is Tool
            &&& after[i]->expanded == !s.transcript[i]->expanded
            &&& after[i]->Tool_title == s.transcript[i]->Tool_title && after[i]->Tool_name
                == s.transcript[i]->Tool_name && after[i]->Tool_status
                == s.transcript[i]->Tool_status && after[i]->Tool_output
                == s.transcript[i]->Tool_output && after[i]->Tool_input
                == s.transcript[i]->Tool_input
        }),
{
    reveal(AppModel::tool_unfolded);
    law_tool_places_are_the_tool_rows(s.transcript);
    let tools = tool_places(s.transcript);
    if s.tool_cursor is None {
        assert(tools.contains(i as usize));
        let k = choose|k: int| 0 <= k < tools.len() && tools[k] == i as usize;
        let last = tools[tools.len() - 1];
        if k < tools.len() - 1 {
            assert(tools[k] < tools[tools.len() - 1]);
            assert(s.transcript[last as int] is Tool);
        }
    }
}

/// An error that tells of too many requests reads as a rate limit, whatever its case, and the
/// wait says so; any other one does not.
pub proof fn law_rate_limits_are_told(
    s: AppModel,
    message: Seq<char>,
    attempt: u32,
    max: u32,
    delay_ms: u64,
    salvaged: bool,
)
    ensures
        ({
            let m = lowered(message);
            let limited = has(m, "429"@) || has(m, "rate limit"@) || has(m, "too many requests"@)
                || has(m, "overloaded"@);
            let after = s.updated(
                MsgModel::Server(
                    LLMEventModel::Retry { attempt, max, delay_ms, message, salvaged },
                ),
            );
            &&& after.retry is Some
            &&& limited <==> "rate-limited"@.is_prefix_of(after.retry->0.prefix)
            &&& runs_turn(after.status) && waits(after.status)
        }),
{
    reveal(AppModel::folded);
    reveal(AppModel::retried);
    reveal(AppModel::waiting);
    reveal(AppModel::rolled_back);
    reveal_strlit("rate-limited");
    reveal_strlit("rate-limited — retrying");
    reveal_strlit("retrying");
    let after = s.updated(
        MsgModel::Server(LLMEventModel::Retry { attempt, max, delay_ms, message, salvaged }),
    );
    let p = after.retry->0.prefix;
    let full = after.status;
    let tail = " "@ + decimal(attempt as nat) + "/"@ + decimal(max as nat);
    if crate::transcript::rate_limited(message) {
        assert(p =~= "rate-limited — retrying"@ + tail);
        assert(p.subrange(0, 12) =~= "rate-limited"@);
        assert(full.subrange(15, 23) =~= "retrying"@);
        assert(occurs_at(full, "retrying"@, 15));
    } else {
        assert(p =~= "retrying"@ + tail);
        assert(full.subrange(0, 8) =~= "retrying"@);
        assert(occurs_at(full, "retrying"@, 0));
        assert(p[1] == 'e');
        if "rate-limited"@.is_prefix_of(p) {
            assert(p.subrange(0, 12)[1] == p[1]);
            assert("rate-limited"@[1] == 'a');
        }
    }
}

/// Messages that are taken one after the other lead to where all of them lead.
pub proof fn law_messages_are_taken_in_order(s: AppModel, a: Seq<MsgModel>, b: Seq<MsgModel>)
    ensures
        s.driven(a + b) == s.driven(a).driven(b),
        s.driven(Seq::empty()) == s,
    decreases a.len(),
{
    if a.len() == 0 {
        assert(a + b =~= b);
    } else {
        assert((a + b)[0] == a[0]);
        assert((a + b).drop_first() =~= a.drop_first() + b);
        law_messages_are_taken_in_order(s.updated(a[0]), a.drop_first(), b);
    }
}

/// A finished message adds what it read and what it wrote to the session's counts, each to its
/// own; a step before that adds nothing yet.
pub proof fn law_tokens_add_up(s: AppModel, read: u64, written: u64, reason: FinishReason)
    requires
        s.session_tokens.0 + read <= u64::MAX,
        s.session_tokens.1 + written <= u64::MAX,
    ensures
        ({
            let usage = Some(
                Usage {
                    input_tokens: Some(read),
                    output_tokens: Some(written),
                    total_tokens: None,
                },
            );
            let step = s.updated(MsgModel::Server(LLMEventModel::StepFinish { usage }));
            let after = s.updated(MsgModel::Server(LLMEventModel::Finish { reason, usage }));
            &&& step.session_tokens == s.session_tokens
            &&& step.usage == usage && after.usage == usage
            &&& after.session_tokens.0 == s.session_tokens.0 + read
            &&& after.session_tokens.1 == s.session_tokens.1 + written
            &&& after.msg_usage is None
        }),
{
    reveal(AppModel::folded);
    reveal(AppModel::finished);
}

/// A wheel turn scrolls three rows, and back again where it is not stopped at an end.
pub proof fn law_scrolling_goes_three_rows(s: AppModel)
    requires
        s.scroll + 3 <= s.last_scroll_max,
    ensures
        s.updated(MsgModel::ScrollUp).scroll == s.scroll + 3,
        s.updated(MsgModel::ScrollUp).updated(MsgModel::ScrollDown) == s,
        s.scroll >= 3 ==> s.updated(MsgModel::ScrollDown).scroll == s.scroll - 3,
        s.scroll < 3 ==> s.updated(MsgModel::ScrollDown).scroll == 0,
{
    reveal(AppModel::scrolled_up);
    reveal(AppModel::scrolled_down);
}

/// An outcome does not overwrite an output that is already there, and changes nothing of a row
/// but how it ended and what came out.
pub proof fn law_an_output_stays(
    name: Seq<char>,
    title: Seq<char>,
    input: Option<Json>,
    output: Option<Seq<char>>,
    expanded: bool,
    before: ToolStatus,
    outcome: ToolStatus,
    text: Option<Seq<char>>,
)
    ensures
        ({
            let row = TranscriptItemModel::Tool {
                name,
                status: before,
                title,
                input,
                output,
                expanded,
            };
            let after = settled(row, outcome, text);
            &&& after is Tool
            &&& after->Tool_status == outcome
            &&& output is Some ==> after->Tool_output == output
            &&& output is None ==> after->Tool_output == text
            &&& after->Tool_name == name && after->Tool_title == title && after->Tool_input
                == input && after->expanded == expanded
        }),
{
}

/// Pinned sessions stay pinned when the dashboard is opened again; it opens without a filter
/// and with nothing in the way.
pub proof fn law_pins_survive_reopening(s: AppModel)
    ensures
        ({
            let after = s.dashboard_opened();
            &&& after.overlay is Dashboard
            &&& after.dashboard.pinned == s.dashboard.pinned
            &&& after.dashboard.filter.len() == 0 && after.dashboard.mode is Browsing
            &&& after.dashboard.selected == 0
            &&& after.transcript == s.transcript
        }),
{
    reveal(AppModel::dashboard_opened);
}

/// The counts of a session begin anew where it is left.
pub proof fn law_counters_begin_anew(s: AppModel)
    ensures
        s.counters_reset().session_tokens == (0u64, 0u64),
        s.counters_reset().usage is None && s.counters_reset().msg_usage is None,
        s.counters_reset().transcript == s.transcript,
{
}

} // verus!
