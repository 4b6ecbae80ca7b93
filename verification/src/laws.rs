//! What holds of the state as a whole, whatever messages and keys come.

use crate::events::{FinishReason, LLMEventModel, Usage};
use crate::fold::{call_place, settled};
use crate::input::{
    addressable, law_edits_keep_the_cursor_in_the_text, law_moves_keep_the_text, EditTime,
};
use crate::json::Json;
use crate::keys::{KeyCode, KeyEvent};
use crate::overlay::{
    law_choosing_keeps_the_answers, law_confirming_adds_an_answer, OverlayModel,
};
use crate::panels::with_mentions;
use crate::render::highlight::Inks;
use crate::routing::reply_word;
use crate::sse::{PermissionAskedModel, QuestionAskedModel, ServerEventModel, WorkflowMsgModel};
use crate::state::{
    in_out, next_gen, tool_places, unfolded, AppModel, MsgModel, QuestionReplyKindModel,
};
use crate::text::has_token;
use crate::transcript::{ToolStatus, TranscriptItemModel, WorkflowViewModel};
use crate::view::inner_width;
use crate::view::scrollback::assembled;
use vstd::prelude::*;

verus! {

// ---------------------------------------------------------------------------
// Redrawing
// ---------------------------------------------------------------------------

/// Whether the lines that were assembled for `a` do for `b`: the transcript and the
/// theme are the same, or the generation tells that they are not.
pub open spec fn redraws(a: AppModel, b: AppModel) -> bool {
    (a.transcript == b.transcript && a.themes == b.themes && a.render_gen == b.render_gen)
        || b.render_gen == next_gen(a.render_gen)
}

#[verifier::rlimit(50)]
proof fn lemma_fold_redraws(s: AppModel, ev: LLMEventModel)
    ensures
        redraws(s, s.folded(ev)),
{
    reveal(AppModel::folded);
    reveal(AppModel::text_opened);
    reveal(AppModel::reasoning_opened);
    reveal(AppModel::text_added);
    reveal(AppModel::reasoning_added);
    reveal(AppModel::text_closed);
    reveal(AppModel::reasoning_closed);
    reveal(AppModel::warned);
    reveal(AppModel::tool_called);
    reveal(AppModel::todos_taken);
    reveal(AppModel::tool_finished);
    reveal(AppModel::finished);
    reveal(AppModel::failed);
    reveal(AppModel::retried);
    reveal(AppModel::waiting);
    reveal(AppModel::rolled_back);
}

proof fn lemma_event_redraws(s: AppModel, ev: ServerEventModel)
    ensures
        redraws(s, s.heard(ev)),
{
    reveal(AppModel::heard);
    reveal(AppModel::workflow_seen);
    reveal(AppModel::outdated);
    reveal(AppModel::noted);
    reveal(AppModel::subagent_seen);
}

#[verifier::rlimit(50)]
proof fn lemma_transcript_messages_redraw(s: AppModel, m: MsgModel)
    requires
        m is HistoryLoaded || m is Submitted || m is Error || m is ToggleTool || m is StartWorkflow
            || m is OsThemeChanged,
    ensures
        redraws(s, s.updated(m)),
{
    reveal(AppModel::history_loaded);
    reveal(AppModel::submitted);
    reveal(AppModel::failed);
    reveal(AppModel::tool_unfolded);
    reveal(AppModel::noted);
    reveal(AppModel::os_theme_changed);
}

#[verifier::rlimit(50)]
proof fn lemma_other_messages_keep_lines(s: AppModel, m: MsgModel)
    requires
        !(m is Server),
        !(m is Event),
        !(m is HistoryLoaded),
        !(m is Submitted),
        !(m is Error),
        !(m is ToggleTool),
        !(m is StartWorkflow),
        !(m is OsThemeChanged),
    ensures
        s.updated(m).transcript == s.transcript,
        s.updated(m).themes == s.themes,
        s.updated(m).render_gen == s.render_gen,
{
    reveal(AppModel::prompt_ended);
    reveal(AppModel::scrolled_up);
    reveal(AppModel::scrolled_down);
    reveal(AppModel::ticked);
    reveal(AppModel::files_listed);
    reveal(AppModel::focus_changed);
    reveal(AppModel::dashboard_updated);
}

/// A message that changes the transcript or the theme moves the generation on, so
/// that lines assembled before are not drawn again. No generation is its own next.
pub proof fn law_changed_lines_are_redrawn(s: AppModel, m: MsgModel)
    ensures
        redraws(s, s.updated(m)),
        next_gen(s.render_gen) != s.render_gen,
{
    match m {
        MsgModel::Server(ev) => lemma_fold_redraws(s, ev),
        MsgModel::Event(ev) => lemma_event_redraws(s, ev),
        MsgModel::HistoryLoaded(_) => lemma_transcript_messages_redraw(s, m),
        MsgModel::Submitted(_) => lemma_transcript_messages_redraw(s, m),
        MsgModel::Error(_) => lemma_transcript_messages_redraw(s, m),
        MsgModel::ToggleTool => lemma_transcript_messages_redraw(s, m),
        MsgModel::StartWorkflow { .. } => lemma_transcript_messages_redraw(s, m),
        MsgModel::OsThemeChanged(_) => lemma_transcript_messages_redraw(s, m),
        _ => lemma_other_messages_keep_lines(s, m),
    }
}

/// Lines kept from one state's frame are drawn in the next state's frame only where
/// they are its lines too: a frame always shows the transcript as it is.
pub proof fn law_frames_show_the_transcript(a: AppModel, b: AppModel, inks: Inks, width: u16)
    requires
        redraws(a, b),
    ensures
        b.frame_lines(
            Some(assembled(inks, a.transcript, a.themes[0], a.render_gen, width)),
            inks,
            width,
        ) == assembled(inks, b.transcript, b.themes[0], b.render_gen, width),
{
}

/// Whether a message is about the view only.
pub open spec fn is_view_only(m: MsgModel) -> bool {
    m is ScrollUp || m is ScrollDown || m is ScrollBottom || m is Tick || m is Resize
        || m is ToggleTodos || m is FilesLoaded || m is FocusChanged || m is DashboardLoaded
        || m is DashboardPeekLoaded || m is DashboardTogglePin || m is DashboardFilterChanged
}

/// Scrolling, ticks, panels and the dashboard leave the transcript and its
/// generation alone: nothing is assembled anew.
pub proof fn law_view_messages_keep_the_lines(s: AppModel, m: MsgModel)
    requires
        is_view_only(m),
    ensures
        s.updated(m).transcript == s.transcript,
        s.updated(m).render_gen == s.render_gen,
        s.updated(m).themes == s.themes,
{
    lemma_other_messages_keep_lines(s, m);
}

// ---------------------------------------------------------------------------
// Asks
// ---------------------------------------------------------------------------

/// An ask of another session changes nothing: it never covers what is open here.
pub proof fn law_foreign_asks_change_nothing(s: AppModel, p: PermissionAskedModel, q: QuestionAskedModel)
    ensures
        s.session_id != Some(p.session_id) ==> s.updated(
            MsgModel::Event(ServerEventModel::PermissionAsked(p)),
        ) == s,
        s.session_id != Some(q.session_id) ==> s.updated(
            MsgModel::Event(ServerEventModel::QuestionAsked(q)),
        ) == s,
{
    reveal(AppModel::heard);
}

/// A permission prompt of the attached session is answered by one key: the prompt
/// closes, and the reply goes out under the ask's id.
pub proof fn law_a_reply_answers_the_ask(s: AppModel, p: PermissionAskedModel, key: KeyEvent, time: EditTime)
    requires
        s.session_id == Some(p.session_id),
        s.splash is None,
        reply_word(key) is Some,
        !key.modifiers.control,
    ensures
        ({
            let asked = s.updated(MsgModel::Event(ServerEventModel::PermissionAsked(p)));
            &&& asked.overlay == OverlayModel::Permission(p)
            &&& asked.keyed(key, time).overlay is Closed
            &&& asked.key_request(key) == Some(
                MsgModel::PermissionReply { id: p.id, reply: reply_word(key)->0 },
            )
        }),
{
    reveal(AppModel::heard);
    reveal(AppModel::in_permission);
}

// ---------------------------------------------------------------------------
// Keys
// ---------------------------------------------------------------------------

/// While the splash shows, a key ends it and does nothing else.
pub proof fn law_the_splash_swallows_a_key(s: AppModel, key: KeyEvent, time: EditTime)
    requires
        s.splash is Some,
    ensures
        s.keyed(key, time) == (AppModel { splash: None, ..s }),
        s.key_request(key) is None,
{
}

/// Accepting a completion never sends anything.
pub proof fn law_accepting_never_submits(s: AppModel, key: KeyEvent)
    requires
        s.overlay is Mention || s.completes(),
        key.code == KeyCode::Enter || key.code == KeyCode::Tab,
    ensures
        s.key_request(key) is None,
{
}

/// While a turn runs, Enter sends nothing and keeps what was typed; Esc asks to
/// interrupt the turn.
pub proof fn law_a_running_turn_takes_no_prompt(s: AppModel, key: KeyEvent, time: EditTime)
    requires
        s.overlay is Closed,
        s.splash is None,
        crate::state::runs_turn(s.status),
        !key.modifiers.shift,
    ensures
        key.code == KeyCode::Enter ==> s.key_request(key) is None && s.keyed(key, time).input
            == s.input,
        key.code == KeyCode::Esc && s.session_id is Some ==> s.key_request(key) == Some(
            MsgModel::InterruptTurn(s.session_id->0),
        ),
{
    reveal(AppModel::in_editor);
    reveal(AppModel::entered);
    reveal(AppModel::tool_unfolded);
}

/// A plain character over typed text only goes into the text.
pub proof fn law_typing_only_types(s: AppModel, c: char, time: EditTime)
    requires
        s.overlay is Closed,
        s.splash is None,
        !s.input.is_empty(),
        c != '@',
    ensures
        ({
            let key = KeyEvent {
                code: KeyCode::Char(c),
                modifiers: crate::keys::KeyModifiers { control: false, shift: false, alt: false },
            };
            &&& s.keyed(key, time) == (AppModel { input: s.input.inserted(c, time), ..s })
            &&& s.key_request(key) is None
        }),
{
    reveal(AppModel::in_editor);
    reveal(AppModel::typed);
}

/// What is submitted goes to the server once, with the text, the attachments and the
/// chosen agent and model; the editor and the attachments are empty then.
pub proof fn law_enter_sends_the_prompt(s: AppModel, session: Seq<char>, time: EditTime)
    requires
        s.overlay is Closed,
        s.splash is None,
        s.session_id == Some(session),
        !s.input.is_empty(),
        !crate::state::runs_turn(s.status),
    ensures
        ({
            let key = MsgModel::Key(
                KeyEvent {
                    code: KeyCode::Enter,
                    modifiers: crate::keys::KeyModifiers { control: false, shift: false, alt: false },
                },
            );
            let after = s.routed(key, time);
            &&& s.route_effects(key, time) == seq![
                crate::effects::EffectModel::Prompt {
                    session,
                    text: s.input.text(),
                    agent: s.agent,
                    model: s.model,
                    files: s.files_for(s.input.text()),
                },
            ]
            &&& after.input.is_empty()
            &&& after.attachments.len() == 0
            &&& after.mention_paths.len() == 0
            &&& after.transcript == s.transcript.push(TranscriptItemModel::User(s.input.text()))
            &&& after.status == "…thinking"@
        }),
{
    reveal(AppModel::in_editor);
    reveal(AppModel::entered);
    reveal(AppModel::submitted);
    let key = KeyEvent {
        code: KeyCode::Enter,
        modifiers: crate::keys::KeyModifiers { control: false, shift: false, alt: false },
    };
    let pressed = s.keyed(key, time);
    assert(pressed.session_id == s.session_id);
    assert(pressed.files_for(s.input.text()) == s.files_for(s.input.text()));
    let want = seq![
        crate::effects::EffectModel::Prompt {
            session,
            text: s.input.text(),
            agent: s.agent,
            model: s.model,
            files: s.files_for(s.input.text()),
        },
    ];
    assert(s.route_effects(MsgModel::Key(key), time) =~= want);
}

// ---------------------------------------------------------------------------
// Toggles
// ---------------------------------------------------------------------------

/// Toggling the todo panel twice changes nothing.
pub proof fn law_todo_toggle_reverts(s: AppModel)
    ensures
        s.updated(MsgModel::ToggleTodos).updated(MsgModel::ToggleTodos) == s,
{
}

proof fn lemma_unfolding_keeps_places(items: Seq<TranscriptItemModel>, i: int)
    requires
        0 <= i < items.len(),
    ensures
        tool_places(items.update(i, unfolded(items[i]))) == tool_places(items),
    decreases items.len(),
{
    let after = items.update(i, unfolded(items[i]));
    if i == items.len() - 1 {
        assert(after.drop_last() =~= items.drop_last());
    } else {
        assert(after.drop_last() =~= items.drop_last().update(i, unfolded(items.drop_last()[i])));
        lemma_unfolding_keeps_places(items.drop_last(), i);
        assert(after.last() == items.last());
    }
}

/// Showing and hiding a tool's detail restores the transcript.
pub proof fn law_tool_toggle_reverts(s: AppModel)
    ensures
        s.updated(MsgModel::ToggleTool).updated(MsgModel::ToggleTool).transcript == s.transcript,
{
    reveal(AppModel::tool_unfolded);
    let tools = tool_places(s.transcript);
    let i = match s.tool_cursor {
        Some(i) => i as int,
        None => if tools.len() == 0 {
            -1
        } else {
            tools.last() as int
        },
    };
    let once = s.updated(MsgModel::ToggleTool);
    if 0 <= i < s.transcript.len() && s.transcript[i] is Tool {
        lemma_unfolding_keeps_places(s.transcript, i);
        assert(once.transcript[i] == unfolded(s.transcript[i]));
        assert(unfolded(unfolded(s.transcript[i])) == s.transcript[i]);
        assert(once.updated(MsgModel::ToggleTool).transcript =~= s.transcript);
    }
}

// ---------------------------------------------------------------------------
// Scrolling
// ---------------------------------------------------------------------------

/// Scrolling up stays within what the last rendering could show, and scrolling as
/// far down returns to the same place.
pub proof fn law_scrolling_is_bounded(s: AppModel, n: u32)
    ensures
        s.scrolled_up(n).scroll <= s.last_scroll_max,
        s.scroll + n <= s.last_scroll_max ==> s.scrolled_up(n).scrolled_down(n) == s,
        s.scrolled_down(n).scroll <= s.scroll,
{
    reveal(AppModel::scrolled_up);
    reveal(AppModel::scrolled_down);
}

// ---------------------------------------------------------------------------
// Ticks
// ---------------------------------------------------------------------------

/// The state after `n` ticks.
pub open spec fn after_ticks(s: AppModel, n: nat) -> AppModel
    decreases n,
{
    if n == 0 {
        s
    } else {
        after_ticks(s.updated(MsgModel::Tick), (n - 1) as nat)
    }
}

/// The splash ends by itself after its ticks, and not before.
pub proof fn law_the_splash_ends(s: AppModel, n: nat)
    requires
        s.splash is Some,
        s.splash->0 > 0,
    ensures
        after_ticks(s, n).splash is Some <==> n < s.splash->0,
    decreases n,
{
    reveal(AppModel::ticked);
    if n > 0 {
        let next = s.updated(MsgModel::Tick);
        if s.splash->0 > 1 {
            law_the_splash_ends(next, (n - 1) as nat);
        } else {
            lemma_no_splash_comes(next, (n - 1) as nat);
        }
    }
}

proof fn lemma_no_splash_comes(s: AppModel, n: nat)
    requires
        s.splash is None,
    ensures
        after_ticks(s, n).splash is None,
    decreases n,
{
    reveal(AppModel::ticked);
    if n > 0 {
        lemma_no_splash_comes(s.updated(MsgModel::Tick), (n - 1) as nat);
    }
}

/// A passing message fades after its ticks, and not before, as long as the tick
/// counter does not wrap around.
pub proof fn law_a_flash_fades(s: AppModel, msg: Seq<char>, kind: crate::state::FlashKind, n: nat)
    requires
        s.tick + crate::state::FLASH_TICKS <= u32::MAX,
    ensures
        after_ticks(s.flashed(msg, kind), n).flash is Some <==> n < crate::state::FLASH_TICKS,
{
    let f = s.flashed(msg, kind);
    lemma_flash_fades(f, f.flash->0.expires_tick, n);
}

proof fn lemma_flash_fades(s: AppModel, end: u32, n: nat)
    requires
        s.flash is Some,
        s.flash->0.expires_tick == end,
        s.tick < end,
    ensures
        after_ticks(s, n).flash is Some <==> n < end - s.tick,
    decreases n,
{
    reveal(AppModel::ticked);
    if n > 0 {
        let next = s.updated(MsgModel::Tick);
        if s.tick + 1 < end {
            lemma_flash_fades(next, end, (n - 1) as nat);
        } else {
            lemma_no_flash_comes(next, (n - 1) as nat);
        }
    }
}

proof fn lemma_no_flash_comes(s: AppModel, n: nat)
    requires
        s.flash is None,
    ensures
        after_ticks(s, n).flash is None,
    decreases n,
{
    reveal(AppModel::ticked);
    if n > 0 {
        lemma_no_flash_comes(s.updated(MsgModel::Tick), (n - 1) as nat);
    }
}

// ---------------------------------------------------------------------------
// Streaming
// ---------------------------------------------------------------------------

/// Where the message in flight begins, or would begin.
pub open spec fn message_start(s: AppModel) -> int {
    match s.msg_start {
        Some(i) => i as int,
        None => s.transcript.len() as int,
    }
}

/// Whether what is being streamed belongs to the message in flight.
pub open spec fn streams_in_message(s: AppModel) -> bool {
    &&& s.msg_start matches Some(i) ==> i <= s.transcript.len()
    &&& s.open_text matches Some(k) ==> s.msg_start is Some && s.msg_start->0 <= k
        < s.transcript.len()
    &&& s.open_reasoning matches Some(k) ==> s.msg_start is Some && s.msg_start->0 <= k
        < s.transcript.len()
}

/// Whether an event adds to the message in flight.
pub open spec fn streams(ev: LLMEventModel) -> bool {
    ev is TextStart || ev is TextDelta || ev is TextEnd || ev is ReasoningStart
        || ev is ReasoningDelta || ev is ReasoningEnd || ev is ToolCall || ev is StepFinish
}

/// What an event adds to the message in flight leaves everything before that
/// message alone.
#[verifier::rlimit(50)]
pub proof fn law_streaming_keeps_what_came_before(s: AppModel, ev: LLMEventModel)
    requires
        streams_in_message(s),
        streams(ev),
        s.transcript.len() < usize::MAX,
    ensures
        streams_in_message(s.folded(ev)),
        message_start(s) <= s.folded(ev).transcript.len() <= s.transcript.len() + 1,
        s.folded(ev).transcript.take(message_start(s)) == s.transcript.take(message_start(s)),
        s.folded(ev).msg_start is None ==> s.folded(ev).transcript == s.transcript,
        s.folded(ev).msg_start is Some ==> message_start(s.folded(ev)) == message_start(s),
        s.msg_start is Some ==> s.folded(ev).msg_start is Some,
{
    reveal(AppModel::folded);
    reveal(AppModel::text_opened);
    reveal(AppModel::reasoning_opened);
    reveal(AppModel::text_added);
    reveal(AppModel::reasoning_added);
    reveal(AppModel::text_closed);
    reveal(AppModel::reasoning_closed);
    reveal(AppModel::tool_called);
    reveal(AppModel::todos_taken);
    assert(s.folded(ev).transcript.take(message_start(s)) =~= s.transcript.take(message_start(s)));
}

/// Text that comes in two pieces is the text that comes as one.
pub proof fn law_text_pieces_add_up(s: AppModel, a: Seq<char>, b: Seq<char>)
    requires
        s.transcript.len() < usize::MAX,
    ensures
        s.text_added(a).text_added(b).transcript == s.text_added(a + b).transcript,
        s.text_added(a).text_added(b).open_text == s.text_added(a + b).open_text,
        s.reasoning_added(a).reasoning_added(b).transcript == s.reasoning_added(a + b).transcript,
{
    reveal(AppModel::text_added);
    reveal(AppModel::text_opened);
    reveal(AppModel::reasoning_added);
    reveal(AppModel::reasoning_opened);
    let t = if s.open_text is Some {
        s
    } else {
        s.text_opened()
    };
    let i = t.open_text->0 as int;
    if 0 <= i < t.transcript.len() {
        if let TranscriptItemModel::Assistant(x) = t.transcript[i] {
            assert(x + (a + b) =~= (x + a) + b);
        }
    }
    assert(s.text_added(a).text_added(b).transcript =~= s.text_added(a + b).transcript);
    let r = if s.open_reasoning is Some {
        s
    } else {
        s.reasoning_opened()
    };
    let k = r.open_reasoning->0 as int;
    if 0 <= k < r.transcript.len() {
        if let TranscriptItemModel::Reasoning(x) = r.transcript[k] {
            assert(x + (a + b) =~= (x + a) + b);
        }
    }
    assert(s.reasoning_added(a).reasoning_added(b).transcript =~= s.reasoning_added(
        a + b,
    ).transcript);
}

proof fn lemma_call_place(calls: Seq<(Seq<char>, usize)>, id: Seq<char>, n: int)
    requires
        0 <= n < calls.len(),
        calls[n].0 == id,
        forall|i: int| 0 <= i < n ==> (#[trigger] calls[i]).0 != id,
    ensures
        call_place(calls, id) == n,
    decreases n,
{
    if n > 0 {
        assert(calls[0].0 != id);
        let rest = calls.skip(1);
        assert forall|i: int| 0 <= i < n - 1 implies (#[trigger] rest[i]).0 != id by {
            assert(rest[i] == calls[i + 1]);
        }
        lemma_call_place(rest, id, n - 1);
    }
}

/// Outcomes find their own calls: with two calls under way, the outcome of the
/// first one settles its row and leaves the other one running, and the other way
/// round.
pub proof fn law_outcomes_find_their_calls(
    s: AppModel,
    first: Seq<char>,
    second: Seq<char>,
    name: Seq<char>,
    input: Json,
    outcome: ToolStatus,
    text: Option<Seq<char>>,
)
    requires
        first != second,
        forall|i: int|
            0 <= i < s.running_tools.len() ==> (#[trigger] s.running_tools[i]).0 != first
                && s.running_tools[i].0 != second,
        s.transcript.len() + 1 < usize::MAX,
    ensures
        ({
            let both = s.tool_called(first, name, input).tool_called(second, name, input);
            let n = s.transcript.len() as int;
            let a = both.tool_finished(first, outcome, text);
            let b = both.tool_finished(second, outcome, text);
            &&& both.transcript.len() == n + 2
            &&& a.transcript == both.transcript.update(
                n,
                settled(both.transcript[n], outcome, text),
            )
            &&& b.transcript == both.transcript.update(
                n + 1,
                settled(both.transcript[n + 1], outcome, text),
            )
        }),
{
    reveal(AppModel::tool_called);
    reveal(AppModel::todos_taken);
    reveal(AppModel::tool_finished);
    let both = s.tool_called(first, name, input).tool_called(second, name, input);
    let m = s.running_tools.len() as int;
    let calls = both.running_tools;
    assert(calls.len() == m + 2);
    assert(calls[m] == (first, s.transcript.len() as usize));
    assert(calls[m + 1] == (second, (s.transcript.len() + 1) as usize));
    assert forall|i: int| 0 <= i < m implies (#[trigger] calls[i]).0 != first && calls[i].0
        != second by {
        assert(calls[i] == s.running_tools[i]);
    }
    lemma_call_place(calls, first, m);
    lemma_call_place(calls, second, m + 1);
}

/// The state after several events of a turn.
pub open spec fn after_events(s: AppModel, evs: Seq<LLMEventModel>) -> AppModel
    decreases evs.len(),
{
    if evs.len() == 0 {
        s
    } else {
        after_events(s, evs.drop_last()).folded(evs.last())
    }
}

proof fn lemma_streaming(s: AppModel, evs: Seq<LLMEventModel>)
    requires
        streams_in_message(s),
        s.msg_start is None,
        forall|i: int| 0 <= i < evs.len() ==> streams(#[trigger] evs[i]),
        s.transcript.len() + evs.len() < usize::MAX,
    ensures
        ({
            let after = after_events(s, evs);
            let n = s.transcript.len() as int;
            &&& streams_in_message(after)
            &&& n <= after.transcript.len() <= n + evs.len()
            &&& after.transcript.take(n) == s.transcript
            &&& after.msg_start is None ==> after.transcript == s.transcript
            &&& after.msg_start matches Some(i) ==> i == n
        }),
    decreases evs.len(),
{
    let n = s.transcript.len() as int;
    assert(s.transcript.take(n) =~= s.transcript);
    if evs.len() > 0 {
        let front = evs.drop_last();
        assert forall|i: int| 0 <= i < front.len() implies streams(#[trigger] front[i]) by {
            assert(front[i] == evs[i]);
        }
        lemma_streaming(s, front);
        let before = after_events(s, front);
        assert(streams(evs[evs.len() - 1]));
        law_streaming_keeps_what_came_before(before, evs.last());
        assert(message_start(before) == n);
    }
}

/// A retry without salvaged work takes the whole message back: however much of it
/// was streamed, the transcript is what it was before. With salvaged work all of
/// it stays. Either way nothing more streams into it: the next text opens an item
/// of its own.
pub proof fn law_a_retry_takes_the_message_back(
    s: AppModel,
    evs: Seq<LLMEventModel>,
    attempt: u32,
    max: u32,
    delay_ms: u64,
    message: Seq<char>,
    salvaged: bool,
    text: Seq<char>,
)
    requires
        streams_in_message(s),
        s.msg_start is None,
        forall|i: int| 0 <= i < evs.len() ==> streams(#[trigger] evs[i]),
        s.transcript.len() + evs.len() < usize::MAX,
    ensures
        ({
            let streamed = after_events(s, evs);
            let retried = streamed.folded(
                LLMEventModel::Retry { attempt, max, delay_ms, message, salvaged },
            );
            let next = retried.folded(LLMEventModel::TextDelta { text });
            &&& !salvaged ==> retried.transcript == s.transcript
            &&& salvaged ==> retried.transcript == streamed.transcript
            &&& retried.msg_start is None
            &&& retried.open_text is None && retried.open_reasoning is None
            &&& streams_in_message(retried)
            &&& next.transcript == retried.transcript.push(TranscriptItemModel::Assistant(text))
        }),
{
    reveal(AppModel::folded);
    reveal(AppModel::retried);
    reveal(AppModel::waiting);
    reveal(AppModel::rolled_back);
    reveal(AppModel::text_added);
    reveal(AppModel::text_opened);
    lemma_streaming(s, evs);
    let after = after_events(s, evs);
    let n = s.transcript.len() as int;
    if n == after.transcript.len() {
        assert(after.transcript.take(n) =~= after.transcript);
    }
    let retried = after.folded(LLMEventModel::Retry { attempt, max, delay_ms, message, salvaged });
    let next = retried.folded(LLMEventModel::TextDelta { text });
    assert(Seq::<char>::empty() + text =~= text);
    assert(next.transcript =~= retried.transcript.push(TranscriptItemModel::Assistant(text)));
}

/// A finished message counts its last usage reading once, however many readings
/// came before it.
pub proof fn law_usage_counts_once(
    s: AppModel,
    early: Option<Usage>,
    last: Usage,
    reason: FinishReason,
)
    requires
        s.session_tokens.0 + in_out(last).0 <= u64::MAX,
        s.session_tokens.1 + in_out(last).1 <= u64::MAX,
    ensures
        ({
            let step = s.folded(LLMEventModel::StepFinish { usage: early });
            let again = step.folded(LLMEventModel::StepFinish { usage: Some(last) });
            let mirrored = again.folded(LLMEventModel::Finish { reason, usage: Some(last) });
            let bare = again.folded(LLMEventModel::Finish { reason, usage: None });
            &&& mirrored.session_tokens.0 == s.session_tokens.0 + in_out(last).0
            &&& mirrored.session_tokens.1 == s.session_tokens.1 + in_out(last).1
            &&& bare.session_tokens == mirrored.session_tokens
            &&& mirrored.msg_usage is None
            &&& bare.msg_usage is None
        }),
{
    reveal(AppModel::folded);
    reveal(AppModel::finished);
}

/// Loaded history replaces what was streamed: nothing streams into it, and loading
/// it again changes nothing that shows.
pub proof fn law_history_replaces_the_stream(s: AppModel, rows: Seq<Json>)
    ensures
        ({
            let once = s.updated(MsgModel::HistoryLoaded(rows));
            let twice = once.updated(MsgModel::HistoryLoaded(rows));
            &&& once.open_text is None && once.open_reasoning is None && once.msg_start is None
            &&& once.running_tools.len() == 0
            &&& once.tool_cursor is None
            &&& streams_in_message(once)
            &&& twice.transcript == once.transcript
            &&& twice.todos == once.todos
            &&& once.session_tokens == s.session_tokens
        }),
{
    reveal(AppModel::history_loaded);
}

// ---------------------------------------------------------------------------
// Workflows and files
// ---------------------------------------------------------------------------

/// Late events of another run leave the view of a workflow as it is.
pub proof fn law_stale_workflow_events_change_nothing(view: WorkflowViewModel, w: WorkflowMsgModel)
    requires
        view.session != w.session,
    ensures
        view.after(w) == view,
{
}

proof fn lemma_mentions(files: Seq<Seq<char>>, paths: Seq<Seq<char>>, text: Seq<char>)
    ensures
        ({
            let all = with_mentions(files, paths, text);
            &&& all.len() >= files.len()
            &&& all.take(files.len() as int) == files
            &&& forall|k: int|
                files.len() <= k < all.len() ==> paths.contains(#[trigger] all[k]) && has_token(
                    text,
                    "@"@ + all[k],
                ) && !all.take(k).contains(all[k])
            &&& forall|p: Seq<char>|
                paths.contains(p) && has_token(text, "@"@ + p) ==> #[trigger] all.contains(p)
        }),
    decreases paths.len(),
{
    let all = with_mentions(files, paths, text);
    if paths.len() == 0 {
        assert(all.take(files.len() as int) =~= files);
    } else {
        let front = paths.drop_last();
        let p = paths.last();
        let before = with_mentions(files, front, text);
        lemma_mentions(files, front, text);
        assert(all.take(files.len() as int) =~= before.take(files.len() as int));
        assert forall|k: int| files.len() <= k < all.len() implies paths.contains(
            #[trigger] all[k],
        ) && has_token(text, "@"@ + all[k]) && !all.take(k).contains(all[k]) by {
            if k < before.len() {
                assert(all[k] == before[k]);
                assert(all.take(k) =~= before.take(k));
                let i = front.index_of(before[k]);
                assert(paths[i] == before[k]);
            } else {
                assert(all.take(k) =~= before);
                assert(paths[paths.len() - 1] == p);
            }
        }
        assert forall|q: Seq<char>| paths.contains(q) && has_token(text, "@"@ + q) implies
            #[trigger] all.contains(q) by {
            let i = paths.index_of(q);
            if i < front.len() {
                assert(front[i] == q);
                assert(before.contains(q));
                let j = before.index_of(q);
                assert(all[j] == q);
            } else {
                assert(q == p);
                if before.contains(p) {
                    let j = before.index_of(p);
                    assert(all[j] == p);
                } else {
                    assert(all[all.len() - 1] == p);
                }
            }
        }
    }
}

/// A prompt carries every attachment, and of the completed paths exactly those whose
/// token is still in the text, none of them twice.
pub proof fn law_a_prompt_carries_its_files(s: AppModel, text: Seq<char>)
    ensures
        ({
            let all = s.files_for(text);
            let n = s.attachments.len();
            &&& all.len() >= n
            &&& all.take(n as int) == s.attachments
            &&& forall|k: int|
                n <= k < all.len() ==> s.mention_paths.contains(#[trigger] all[k]) && has_token(
                    text,
                    "@"@ + all[k],
                ) && !all.take(k).contains(all[k])
            &&& forall|p: Seq<char>|
                s.mention_paths.contains(p) && has_token(text, "@"@ + p) ==> #[trigger] all.contains(p)
        }),
{
    lemma_mentions(s.attachments, s.mention_paths, text);
}

// ---------------------------------------------------------------------------
// Well-formedness
// ---------------------------------------------------------------------------

#[verifier::rlimit(50)]
proof fn lemma_fold_keeps_input(s: AppModel, ev: LLMEventModel)
    ensures
        s.folded(ev).overlay == s.overlay,
        s.folded(ev).input == s.input,
{
    reveal(AppModel::folded);
    reveal(AppModel::text_opened);
    reveal(AppModel::reasoning_opened);
    reveal(AppModel::text_added);
    reveal(AppModel::reasoning_added);
    reveal(AppModel::text_closed);
    reveal(AppModel::reasoning_closed);
    reveal(AppModel::warned);
    reveal(AppModel::tool_called);
    reveal(AppModel::todos_taken);
    reveal(AppModel::tool_finished);
    reveal(AppModel::finished);
    reveal(AppModel::failed);
    reveal(AppModel::retried);
    reveal(AppModel::waiting);
    reveal(AppModel::rolled_back);
}

proof fn lemma_event_keeps_sound(s: AppModel, ev: ServerEventModel)
    requires
        s.sound(),
    ensures
        s.heard(ev).sound(),
{
    reveal(AppModel::heard);
    reveal(AppModel::workflow_seen);
    reveal(AppModel::outdated);
    reveal(AppModel::noted);
    reveal(AppModel::subagent_seen);
}

#[verifier::rlimit(50)]
proof fn lemma_other_messages_keep_input(s: AppModel, m: MsgModel)
    requires
        !(m is Server),
        !(m is Event),
        !(m is FilesLoaded),
    ensures
        s.updated(m).overlay == s.overlay,
        s.updated(m).input == s.input,
{
    reveal(AppModel::history_loaded);
    reveal(AppModel::submitted);
    reveal(AppModel::failed);
    reveal(AppModel::prompt_ended);
    reveal(AppModel::tool_unfolded);
    reveal(AppModel::scrolled_up);
    reveal(AppModel::scrolled_down);
    reveal(AppModel::ticked);
    reveal(AppModel::noted);
    reveal(AppModel::focus_changed);
    reveal(AppModel::os_theme_changed);
    reveal(AppModel::dashboard_updated);
}

/// Every message keeps the state sound.
pub proof fn law_messages_keep_the_state_sound(s: AppModel, m: MsgModel)
    requires
        s.sound(),
    ensures
        s.updated(m).sound(),
{
    match m {
        MsgModel::Server(ev) => lemma_fold_keeps_input(s, ev),
        MsgModel::Event(ev) => lemma_event_keeps_sound(s, ev),
        MsgModel::FilesLoaded(files, truncated) => {
            reveal(AppModel::files_listed);
        },
        _ => lemma_other_messages_keep_input(s, m),
    }
}

/// Whether the typed texts and the questions of an open ask fit in memory.
pub open spec fn in_memory(s: AppModel) -> bool {
    &&& addressable(s.input.at.lines)
    &&& s.overlay matches OverlayModel::TextInput(t) ==> t.query.len() <= usize::MAX
    &&& s.overlay matches OverlayModel::Question(q) ==> q.questions.len() <= usize::MAX
}

#[verifier::rlimit(50)]
proof fn lemma_editor_keys_keep_sound(s: AppModel, key: KeyEvent, time: EditTime)
    requires
        s.sound(),
        in_memory(s),
        s.overlay is Closed,
    ensures
        s.in_editor(key, time).sound(),
{
    reveal(AppModel::in_editor);
    reveal(AppModel::entered);
    reveal(AppModel::typed);
    reveal(AppModel::tool_unfolded);
    reveal(AppModel::prev_tool);
    reveal(AppModel::next_tool);
    reveal(AppModel::mention_opened);
    let w = inner_width(s.width);
    let c = match key.code {
        KeyCode::Char(c) => c,
        _ => ' ',
    };
    law_edits_keep_the_cursor_in_the_text(s.input, c, Seq::empty(), 0, time);
    law_moves_keep_the_text(s.input, w, -1);
    law_moves_keep_the_text(s.input, w, 1);
    assert(s.input.vertical(w, -1).wf());
    assert(s.input.vertical(w, 1).wf());
    assert(s.input.left().wf() && s.input.right().wf() && s.input.home().wf()
        && s.input.end().wf());
}

proof fn lemma_mention_keys_keep_sound(s: AppModel, key: KeyEvent, time: EditTime)
    requires
        s.sound(),
        in_memory(s),
        s.overlay is Mention,
    ensures
        s.in_mention(key, time).sound(),
{
    reveal(AppModel::in_mention);
    reveal(AppModel::mention_moved);
    reveal(AppModel::mention_edited);
    reveal(AppModel::mention_accepted);
    let c = match key.code {
        KeyCode::Char(c) => c,
        _ => ' ',
    };
    law_edits_keep_the_cursor_in_the_text(s.input, c, Seq::empty(), 0, time);
    let m = s.overlay->Mention_0;
    if s.mention_chosen() is Some {
        let path = s.mention_chosen()->0;
        law_edits_keep_the_cursor_in_the_text(
            s.input,
            c,
            "@"@ + path,
            m.anchor_col as int,
            time,
        );
        law_edits_keep_the_cursor_in_the_text(
            s.input,
            c,
            "@"@ + path + " "@,
            m.anchor_col as int,
            time,
        );
    }
}

#[verifier::rlimit(50)]
proof fn lemma_text_keys_keep_sound(s: AppModel, key: KeyEvent)
    requires
        s.sound(),
        in_memory(s),
        s.overlay is TextInput,
    ensures
        s.in_text(key).sound(),
{
    reveal(AppModel::in_text);
    reveal(AppModel::text_mention_moved);
    reveal(AppModel::text_mention_accepted);
    reveal(AppModel::text_mention_cleared);
    reveal(AppModel::text_taken);
    reveal(AppModel::text_typed);
    reveal(AppModel::text_untyped);
    reveal_strlit("@");
}

proof fn lemma_question_keys_keep_sound(s: AppModel, key: KeyEvent)
    requires
        s.sound(),
        in_memory(s),
        s.overlay is Question,
    ensures
        s.in_question(key).sound(),
{
    reveal(AppModel::in_question);
    let q = s.overlay->Question_0;
    law_choosing_keeps_the_answers(q, -1, q.highlight);
    law_choosing_keeps_the_answers(q, 1, q.highlight);
    if q.has_question() && q.defaulted().cursor.len() > 0 {
        law_confirming_adds_an_answer(q.defaulted());
    }
}

#[verifier::rlimit(50)]
proof fn lemma_panel_keys_keep_sound(s: AppModel, key: KeyEvent)
    requires
        s.sound(),
    ensures
        s.overlay is Files ==> s.in_files(key).sound(),
        s.overlay is Palette ==> s.in_palette(key).sound(),
        s.overlay is Search ==> s.in_search(key).sound(),
        s.overlay is Permission ==> s.in_permission(key).sound(),
        s.in_dashboard(key).sound(),
        s.in_dashboard_mode(key).sound(),
        s.in_list(key).sound(),
{
    reveal(AppModel::in_files);
    reveal(AppModel::file_toggled);
    reveal(AppModel::file_moved);
    reveal(AppModel::file_typed);
    reveal(AppModel::file_untyped);
    reveal(AppModel::in_palette);
    reveal(AppModel::palette_taken);
    reveal(AppModel::palette_moved);
    reveal(AppModel::palette_typed);
    reveal(AppModel::palette_untyped);
    reveal(AppModel::dashboard_opened);
    reveal(AppModel::in_search);
    reveal(AppModel::search_typed);
    reveal(AppModel::search_untyped);
    reveal(AppModel::search_moved);
    reveal(AppModel::in_permission);
    reveal(AppModel::in_dashboard);
    reveal(AppModel::in_dashboard_mode);
    reveal(AppModel::in_list);
    reveal(AppModel::list_moved);
    reveal(AppModel::list_taken);
    reveal(AppModel::tool_unfolded);
}

/// Every key keeps the state sound.
pub proof fn law_keys_keep_the_state_sound(s: AppModel, key: KeyEvent, time: EditTime)
    requires
        s.sound(),
        in_memory(s),
    ensures
        s.keyed(key, time).sound(),
{
    reveal(AppModel::chorded);
    reveal(AppModel::workflow_toggled);
    law_edits_keep_the_cursor_in_the_text(s.input, ' ', Seq::empty(), 0, time);
    lemma_panel_keys_keep_sound(s, key);
    match s.overlay {
        OverlayModel::Closed => lemma_editor_keys_keep_sound(s, key, time),
        OverlayModel::Mention(_) => lemma_mention_keys_keep_sound(s, key, time),
        OverlayModel::TextInput(_) => lemma_text_keys_keep_sound(s, key),
        OverlayModel::Question(_) => lemma_question_keys_keep_sound(s, key),
        _ => {},
    }
}

proof fn lemma_dispatch_keeps_sound(s: AppModel, m: MsgModel)
    requires
        s.sound(),
    ensures
        s.dispatched(m).sound(),
{
    law_messages_keep_the_state_sound(s, m);
}

/// Whatever is routed, key or message, the state stays sound.
pub proof fn law_routing_keeps_the_state_sound(s: AppModel, m: MsgModel, time: EditTime)
    requires
        s.sound(),
        in_memory(s),
    ensures
        s.routed(m, time).sound(),
{
    match m {
        MsgModel::Key(key) => {
            law_keys_keep_the_state_sound(s, key, time);
            if let Some(next) = s.key_request(key) {
                lemma_dispatch_keeps_sound(s.keyed(key, time), next);
            }
        },
        _ => lemma_dispatch_keeps_sound(s, m),
    }
}

/// A sound state takes every message whose numbers can be counted with. Only a key
/// that reads a question is not taken where the open ask has none.
pub proof fn law_sound_states_take_messages(s: AppModel, m: MsgModel)
    requires
        s.sound(),
        s.fits(m),
        m is Key && s.overlay is Question ==> s.overlay->Question_0.questions.len() > 0,
    ensures
        s.routable(m),
{
}

/// A reply to a question ask answers every question, each by at least one choice.
pub proof fn law_a_reply_answers_every_question(s: AppModel, key: KeyEvent)
    requires
        s.sound(),
        s.takes(key),
        s.overlay is Question,
        0 < s.overlay->Question_0.questions.len() <= usize::MAX,
    ensures
        s.key_request(key) matches Some(
            MsgModel::QuestionReply { id, reply: QuestionReplyKindModel::Answered(answers) },
        ) ==> {
            &&& id == s.overlay->Question_0.id
            &&& answers.len() == s.overlay->Question_0.questions.len()
            &&& forall|i: int| 0 <= i < answers.len() ==> (#[trigger] answers[i]).len() > 0
        },
{
    let q = s.overlay->Question_0;
    if q.defaulted().confirm_completes() {
        law_confirming_adds_an_answer(q.defaulted());
    }
}

#[verifier::rlimit(50)]
proof fn lemma_edit_keys_redraw(s: AppModel, key: KeyEvent, time: EditTime)
    ensures
        redraws(s, s.in_editor(key, time)),
        redraws(s, s.in_mention(key, time)),
        redraws(s, s.in_text(key)),
{
    reveal(AppModel::in_editor);
    reveal(AppModel::entered);
    reveal(AppModel::typed);
    reveal(AppModel::tool_unfolded);
    reveal(AppModel::prev_tool);
    reveal(AppModel::next_tool);
    reveal(AppModel::mention_opened);
    reveal(AppModel::in_mention);
    reveal(AppModel::mention_moved);
    reveal(AppModel::mention_edited);
    reveal(AppModel::mention_accepted);
    reveal(AppModel::in_text);
    reveal(AppModel::text_mention_moved);
    reveal(AppModel::text_mention_accepted);
    reveal(AppModel::text_mention_cleared);
    reveal(AppModel::text_taken);
    reveal(AppModel::text_typed);
    reveal(AppModel::text_untyped);
}

#[verifier::rlimit(50)]
proof fn lemma_panel_keys_redraw(s: AppModel, key: KeyEvent)
    ensures
        redraws(s, s.in_files(key)),
        redraws(s, s.in_palette(key)),
        redraws(s, s.in_search(key)),
        redraws(s, s.in_permission(key)),
        redraws(s, s.in_question(key)),
        redraws(s, s.in_dashboard(key)),
        redraws(s, s.in_dashboard_mode(key)),
        redraws(s, s.in_list(key)),
{
    reveal(AppModel::in_files);
    reveal(AppModel::file_toggled);
    reveal(AppModel::file_moved);
    reveal(AppModel::file_typed);
    reveal(AppModel::file_untyped);
    reveal(AppModel::in_palette);
    reveal(AppModel::palette_taken);
    reveal(AppModel::palette_moved);
    reveal(AppModel::palette_typed);
    reveal(AppModel::palette_untyped);
    reveal(AppModel::dashboard_opened);
    reveal(AppModel::in_search);
    reveal(AppModel::search_typed);
    reveal(AppModel::search_untyped);
    reveal(AppModel::search_moved);
    reveal(AppModel::in_permission);
    reveal(AppModel::in_question);
    reveal(AppModel::in_dashboard);
    reveal(AppModel::in_dashboard_mode);
    reveal(AppModel::in_list);
    reveal(AppModel::list_moved);
    reveal(AppModel::list_taken);
    reveal(AppModel::tool_unfolded);
}

/// A key that changes the transcript moves the generation on; any other key leaves
/// the assembled lines good.
pub proof fn law_keys_redraw_changed_lines(s: AppModel, key: KeyEvent, time: EditTime)
    ensures
        redraws(s, s.keyed(key, time)),
{
    reveal(AppModel::chorded);
    reveal(AppModel::workflow_toggled);
    lemma_edit_keys_redraw(s, key, time);
    lemma_panel_keys_redraw(s, key);
}

} // verus!
