//! What a turn leaves in the transcript, lived or read back.

use crate::events::{LLMEventModel, ToolResultValueModel};
use crate::fold::call_place;
use crate::json::Json;
use crate::laws::after_events;
use crate::render::markdown::run_on;
use crate::state::{AppModel, MsgModel};
use crate::transcript::{
    history_of, is_message, is_stored, law_a_title_names_the_call, law_stored_messages_read_back,
    names_call, ToolStatus, TranscriptItemModel,
};
use vstd::prelude::*;

verus! {

/// What is done in a turn.
pub enum Deed {
    /// Text that comes in pieces.
    Text(Seq<Seq<char>>),
    /// Reasoning that comes in pieces.
    Reasoning(Seq<Seq<char>>),
    /// A tool call and what it returned.
    Call { id: Seq<char>, name: Seq<char>, input: Json, title: Seq<char>, text: Seq<char> },
    /// A tool call that failed.
    Failure { id: Seq<char>, name: Seq<char>, input: Json, title: Seq<char>, message: Seq<char> },
}

impl Deed {
    /// Whether a call has the title that tells what it is for, and is none of those that
    /// still run in `s`.
    pub open spec fn is_new_to(self, s: AppModel) -> bool {
        match self {
            Deed::Call { id, name, input, title, .. } => names_call(name, input, title)
                && forall|i: int|
                0 <= i < s.running_tools.len() ==> (#[trigger] s.running_tools[i]).0 != id,
            Deed::Failure { id, name, input, title, .. } => names_call(name, input, title)
                && forall|i: int|
                0 <= i < s.running_tools.len() ==> (#[trigger] s.running_tools[i]).0 != id,
            _ => true,
        }
    }

    /// The events that tell of it.
    pub open spec fn events(self) -> Seq<LLMEventModel> {
        match self {
            Deed::Text(pieces) => seq![LLMEventModel::TextStart] + pieces.map_values(
                |t: Seq<char>| LLMEventModel::TextDelta { text: t },
            ) + seq![LLMEventModel::TextEnd],
            Deed::Reasoning(pieces) => seq![LLMEventModel::ReasoningStart] + pieces.map_values(
                |t: Seq<char>| LLMEventModel::ReasoningDelta { text: t },
            ) + seq![LLMEventModel::ReasoningEnd],
            Deed::Call { id, name, input, text, .. } => seq![
                LLMEventModel::ToolCall { id, name, input },
                LLMEventModel::ToolResult {
                    id,
                    result: ToolResultValueModel::Text { value: Json::Text(text) },
                    output: None,
                },
            ],
            Deed::Failure { id, name, input, message, .. } => seq![
                LLMEventModel::ToolCall { id, name, input },
                LLMEventModel::ToolError { id, message },
            ],
        }
    }

    /// The row that it leaves.
    pub open spec fn item(self) -> TranscriptItemModel {
        match self {
            Deed::Text(pieces) => TranscriptItemModel::Assistant(run_on(pieces)),
            Deed::Reasoning(pieces) => TranscriptItemModel::Reasoning(run_on(pieces)),
            Deed::Call { name, input, title, text, .. } => TranscriptItemModel::Tool {
                name,
                status: ToolStatus::Success,
                title,
                input: Some(input),
                output: Some(text),
                expanded: false,
            },
            Deed::Failure { name, input, title, message, .. } => TranscriptItemModel::Tool {
                name,
                status: ToolStatus::Error,
                title,
                input: Some(input),
                output: Some(message),
                expanded: false,
            },
        }
    }
}

/// The events of a turn.
pub open spec fn turn_events(deeds: Seq<Deed>) -> Seq<LLMEventModel>
    decreases deeds.len(),
{
    if deeds.len() == 0 {
        Seq::empty()
    } else {
        turn_events(deeds.drop_last()) + deeds.last().events()
    }
}

/// The rows of a turn.
pub open spec fn turn_items(deeds: Seq<Deed>) -> Seq<TranscriptItemModel> {
    deeds.map_values(|d: Deed| d.item())
}

proof fn lemma_events_add(s: AppModel, a: Seq<LLMEventModel>, b: Seq<LLMEventModel>)
    ensures
        after_events(s, a + b) == after_events(after_events(s, a), b),
    decreases b.len(),
{
    if b.len() == 0 {
        assert(a + b =~= a);
    } else {
        lemma_events_add(s, a, b.drop_last());
        assert((a + b).drop_last() =~= a + b.drop_last());
        assert((a + b).last() == b.last());
    }
}

proof fn lemma_one_event(s: AppModel, e: LLMEventModel)
    ensures
        after_events(s, seq![e]) == s.folded(e),
{
    assert(seq![e].drop_last() =~= Seq::<LLMEventModel>::empty());
    assert(after_events(s, seq![e].drop_last()) == s);
}

proof fn lemma_pieces(s: AppModel, pieces: Seq<Seq<char>>, at: int, start: Seq<char>)
    requires
        s.open_text == Some(at as usize),
        0 <= at < s.transcript.len() <= usize::MAX,
        s.transcript[at] == TranscriptItemModel::Assistant(start),
    ensures
        ({
            let t = after_events(
                s,
                pieces.map_values(|t: Seq<char>| LLMEventModel::TextDelta { text: t }),
            );
            &&& t.transcript == s.transcript.update(
                at,
                TranscriptItemModel::Assistant(start + run_on(pieces)),
            )
            &&& t.open_text == s.open_text
            &&& t.open_reasoning == s.open_reasoning
            &&& t.running_tools == s.running_tools
        }),
    decreases pieces.len(),
{
    let evs = pieces.map_values(|t: Seq<char>| LLMEventModel::TextDelta { text: t });
    if pieces.len() == 0 {
        assert(start + run_on(pieces) =~= start);
        assert(s.transcript.update(at, TranscriptItemModel::Assistant(start)) =~= s.transcript);
    } else {
        let front = pieces.drop_last();
        lemma_pieces(s, front, at, start);
        assert(evs.drop_last() =~= front.map_values(
            |t: Seq<char>| LLMEventModel::TextDelta { text: t },
        ));
        reveal(AppModel::folded);
        reveal(AppModel::text_added);
        assert(start + run_on(front) + pieces.last() =~= start + run_on(pieces));
        assert(after_events(s, evs).transcript =~= s.transcript.update(
            at,
            TranscriptItemModel::Assistant(start + run_on(pieces)),
        ));
    }
}

proof fn lemma_thoughts(s: AppModel, pieces: Seq<Seq<char>>, at: int, start: Seq<char>)
    requires
        s.open_reasoning == Some(at as usize),
        0 <= at < s.transcript.len() <= usize::MAX,
        s.transcript[at] == TranscriptItemModel::Reasoning(start),
    ensures
        ({
            let t = after_events(
                s,
                pieces.map_values(|t: Seq<char>| LLMEventModel::ReasoningDelta { text: t }),
            );
            &&& t.transcript == s.transcript.update(
                at,
                TranscriptItemModel::Reasoning(start + run_on(pieces)),
            )
            &&& t.open_text == s.open_text
            &&& t.open_reasoning == s.open_reasoning
            &&& t.running_tools == s.running_tools
        }),
    decreases pieces.len(),
{
    let evs = pieces.map_values(|t: Seq<char>| LLMEventModel::ReasoningDelta { text: t });
    if pieces.len() == 0 {
        assert(start + run_on(pieces) =~= start);
        assert(s.transcript.update(at, TranscriptItemModel::Reasoning(start)) =~= s.transcript);
    } else {
        let front = pieces.drop_last();
        lemma_thoughts(s, front, at, start);
        assert(evs.drop_last() =~= front.map_values(
            |t: Seq<char>| LLMEventModel::ReasoningDelta { text: t },
        ));
        reveal(AppModel::folded);
        reveal(AppModel::reasoning_added);
        assert(start + run_on(front) + pieces.last() =~= start + run_on(pieces));
        assert(after_events(s, evs).transcript =~= s.transcript.update(
            at,
            TranscriptItemModel::Reasoning(start + run_on(pieces)),
        ));
    }
}

proof fn lemma_new_call_place(calls: Seq<(Seq<char>, usize)>, id: Seq<char>, at: usize)
    requires
        forall|i: int| 0 <= i < calls.len() ==> (#[trigger] calls[i]).0 != id,
    ensures
        call_place(calls.push((id, at)), id) == calls.len(),
    decreases calls.len(),
{
    let all = calls.push((id, at));
    if calls.len() > 0 {
        assert(all[0] == calls[0]);
        let rest = calls.skip(1);
        assert forall|i: int| 0 <= i < rest.len() implies (#[trigger] rest[i]).0 != id by {
            assert(rest[i] == calls[i + 1]);
        }
        lemma_new_call_place(rest, id, at);
        assert(all.skip(1) =~= rest.push((id, at)));
    }
}

proof fn lemma_called(s: AppModel, id: Seq<char>, name: Seq<char>, input: Json, title: Seq<char>)
    requires
        names_call(name, input, title),
    ensures
        ({
            let t = s.folded(LLMEventModel::ToolCall { id, name, input });
            &&& t.transcript == s.transcript.push(
                TranscriptItemModel::Tool {
                    name,
                    status: ToolStatus::Running,
                    title,
                    input: Some(input),
                    output: None,
                    expanded: false,
                },
            )
            &&& t.running_tools == s.running_tools.push((id, s.transcript.len() as usize))
            &&& t.open_text == s.open_text
            &&& t.open_reasoning == s.open_reasoning
        }),
{
    law_a_title_names_the_call(name, input, title);
    reveal(AppModel::folded);
    reveal(AppModel::tool_called);
    reveal(AppModel::todos_taken);
}

proof fn lemma_settled(
    s: AppModel,
    id: Seq<char>,
    p: int,
    name: Seq<char>,
    title: Seq<char>,
    input: Option<Json>,
    status: ToolStatus,
    text: Seq<char>,
)
    requires
        0 <= p < s.running_tools.len(),
        call_place(s.running_tools, id) == p,
        s.running_tools[p].1 < s.transcript.len(),
        s.transcript[s.running_tools[p].1 as int] == (TranscriptItemModel::Tool {
            name,
            status: ToolStatus::Running,
            title,
            input,
            output: None,
            expanded: false,
        }),
    ensures
        ({
            let t = s.tool_finished(id, status, Some(text));
            &&& t.transcript == s.transcript.update(
                s.running_tools[p].1 as int,
                TranscriptItemModel::Tool {
                    name,
                    status,
                    title,
                    input,
                    output: Some(text),
                    expanded: false,
                },
            )
            &&& t.running_tools == s.running_tools.remove(p)
            &&& t.open_text == s.open_text
            &&& t.open_reasoning == s.open_reasoning
        }),
{
    reveal(AppModel::tool_finished);
}

proof fn lemma_outcome(s: AppModel, id: Seq<char>, text: Seq<char>)
    ensures
        ({
            let live = AppModel { retry: None, ..s };
            &&& s.folded(
                LLMEventModel::ToolResult {
                    id,
                    result: ToolResultValueModel::Text { value: Json::Text(text) },
                    output: None,
                },
            ) == live.tool_finished(id, ToolStatus::Success, Some(text))
            &&& s.folded(LLMEventModel::ToolError { id, message: text }) == live.tool_finished(
                id,
                ToolStatus::Error,
                Some(text),
            )
        }),
{
    reveal(AppModel::folded);
}

proof fn lemma_call(
    s: AppModel,
    id: Seq<char>,
    name: Seq<char>,
    input: Json,
    title: Seq<char>,
    end: LLMEventModel,
    status: ToolStatus,
    text: Seq<char>,
)
    requires
        s.transcript.len() < usize::MAX,
        names_call(name, input, title),
        forall|i: int| 0 <= i < s.running_tools.len() ==> (#[trigger] s.running_tools[i]).0 != id,
        (status == ToolStatus::Success && end == (LLMEventModel::ToolResult {
            id,
            result: ToolResultValueModel::Text { value: Json::Text(text) },
            output: None,
        })) || (status == ToolStatus::Error && end == (LLMEventModel::ToolError {
            id,
            message: text,
        })),
    ensures
        ({
            let t = after_events(s, seq![LLMEventModel::ToolCall { id, name, input }, end]);
            &&& t.transcript == s.transcript.push(
                TranscriptItemModel::Tool {
                    name,
                    status,
                    title,
                    input: Some(input),
                    output: Some(text),
                    expanded: false,
                },
            )
            &&& t.open_text == s.open_text
            &&& t.open_reasoning == s.open_reasoning
            &&& t.running_tools == s.running_tools
        }),
{
    let call = LLMEventModel::ToolCall { id, name, input };
    assert(seq![call, end] =~= seq![call] + seq![end]);
    lemma_events_add(s, seq![call], seq![end]);
    lemma_one_event(s, call);
    let mid = s.folded(call);
    lemma_one_event(mid, end);
    lemma_called(s, id, name, input, title);
    lemma_outcome(mid, id, text);
    let n = s.transcript.len();
    let p = s.running_tools.len() as int;
    lemma_new_call_place(s.running_tools, id, n as usize);
    assert(mid.running_tools[p] == (id, n as usize));
    let live = AppModel { retry: None, ..mid };
    lemma_settled(live, id, p, name, title, Some(input), status, text);
    assert(mid.running_tools.remove(p) =~= s.running_tools);
    let item = TranscriptItemModel::Tool {
        name,
        status,
        title,
        input: Some(input),
        output: Some(text),
        expanded: false,
    };
    assert(mid.transcript.update(n as int, item) =~= s.transcript.push(item));
}

proof fn lemma_text(s: AppModel, pieces: Seq<Seq<char>>)
    requires
        s.open_text is None,
        s.open_reasoning is None,
        s.transcript.len() < usize::MAX,
    ensures
        ({
            let t = after_events(s, Deed::Text(pieces).events());
            &&& t.transcript == s.transcript.push(TranscriptItemModel::Assistant(run_on(pieces)))
            &&& t.open_text is None && t.open_reasoning is None
            &&& t.running_tools == s.running_tools
        }),
{
    let n = s.transcript.len() as int;
    let a = seq![LLMEventModel::TextStart];
    let b = pieces.map_values(|t: Seq<char>| LLMEventModel::TextDelta { text: t });
    let c = seq![LLMEventModel::TextEnd];
    lemma_events_add(s, a + b, c);
    lemma_events_add(s, a, b);
    lemma_one_event(s, a[0]);
    let open = s.folded(a[0]);
    assert(open.transcript == s.transcript.push(TranscriptItemModel::Assistant(Seq::empty()))
        && open.open_text == Some(n as usize) && open.open_reasoning is None && open.running_tools
        == s.running_tools) by {
        reveal(AppModel::folded);
        reveal(AppModel::text_opened);
    }
    lemma_pieces(open, pieces, n, Seq::empty());
    let full = after_events(open, b);
    lemma_one_event(full, c[0]);
    let t = full.folded(c[0]);
    assert(t.transcript == full.transcript && t.open_text is None && t.open_reasoning
        == full.open_reasoning && t.running_tools == full.running_tools) by {
        reveal(AppModel::folded);
        reveal(AppModel::text_closed);
    }
    assert(Seq::<char>::empty() + run_on(pieces) =~= run_on(pieces));
    assert(full.transcript =~= s.transcript.push(TranscriptItemModel::Assistant(run_on(pieces))));
}

proof fn lemma_reasoning(s: AppModel, pieces: Seq<Seq<char>>)
    requires
        s.open_text is None,
        s.open_reasoning is None,
        s.transcript.len() < usize::MAX,
    ensures
        ({
            let t = after_events(s, Deed::Reasoning(pieces).events());
            &&& t.transcript == s.transcript.push(TranscriptItemModel::Reasoning(run_on(pieces)))
            &&& t.open_text is None && t.open_reasoning is None
            &&& t.running_tools == s.running_tools
        }),
{
    let n = s.transcript.len() as int;
    let a = seq![LLMEventModel::ReasoningStart];
    let b = pieces.map_values(|t: Seq<char>| LLMEventModel::ReasoningDelta { text: t });
    let c = seq![LLMEventModel::ReasoningEnd];
    lemma_events_add(s, a + b, c);
    lemma_events_add(s, a, b);
    lemma_one_event(s, a[0]);
    let open = s.folded(a[0]);
    assert(open.transcript == s.transcript.push(TranscriptItemModel::Reasoning(Seq::empty()))
        && open.open_reasoning == Some(n as usize) && open.open_text is None && open.running_tools
        == s.running_tools) by {
        reveal(AppModel::folded);
        reveal(AppModel::reasoning_opened);
    }
    lemma_thoughts(open, pieces, n, Seq::empty());
    let full = after_events(open, b);
    lemma_one_event(full, c[0]);
    let t = full.folded(c[0]);
    assert(t.transcript == full.transcript && t.open_reasoning is None && t.open_text
        == full.open_text && t.running_tools == full.running_tools) by {
        reveal(AppModel::folded);
        reveal(AppModel::reasoning_closed);
    }
    assert(Seq::<char>::empty() + run_on(pieces) =~= run_on(pieces));
    assert(full.transcript =~= s.transcript.push(TranscriptItemModel::Reasoning(run_on(pieces))));
}

proof fn lemma_deed(s: AppModel, deed: Deed)
    requires
        s.open_text is None,
        s.open_reasoning is None,
        s.transcript.len() < usize::MAX,
        deed.is_new_to(s),
    ensures
        ({
            let t = after_events(s, deed.events());
            &&& t.transcript == s.transcript.push(deed.item())
            &&& t.open_text is None && t.open_reasoning is None
            &&& t.running_tools == s.running_tools
        }),
{
    match deed {
        Deed::Text(pieces) => lemma_text(s, pieces),
        Deed::Reasoning(pieces) => lemma_reasoning(s, pieces),
        Deed::Call { id, name, input, title, text } => lemma_call(
            s,
            id,
            name,
            input,
            title,
            deed.events()[1],
            ToolStatus::Success,
            text,
        ),
        Deed::Failure { id, name, input, title, message } => lemma_call(
            s,
            id,
            name,
            input,
            title,
            deed.events()[1],
            ToolStatus::Error,
            message,
        ),
    }
}

proof fn lemma_turn(s: AppModel, deeds: Seq<Deed>)
    requires
        s.open_text is None,
        s.open_reasoning is None,
        s.transcript.len() + deeds.len() < usize::MAX,
        forall|i: int| 0 <= i < deeds.len() ==> (#[trigger] deeds[i]).is_new_to(s),
    ensures
        ({
            let t = after_events(s, turn_events(deeds));
            &&& t.transcript == s.transcript + turn_items(deeds)
            &&& t.open_text is None && t.open_reasoning is None
            &&& t.running_tools == s.running_tools
        }),
    decreases deeds.len(),
{
    if deeds.len() == 0 {
        assert(s.transcript + turn_items(deeds) =~= s.transcript);
    } else {
        let front = deeds.drop_last();
        assert forall|i: int| 0 <= i < front.len() implies (#[trigger] front[i]).is_new_to(s) by {
            assert(front[i] == deeds[i]);
        }
        lemma_turn(s, front);
        let mid = after_events(s, turn_events(front));
        assert(deeds[deeds.len() - 1].is_new_to(s));
        lemma_deed(mid, deeds.last());
        lemma_events_add(s, turn_events(front), deeds.last().events());
        assert(s.transcript + turn_items(deeds) =~= (s.transcript + turn_items(front)).push(
            deeds.last().item(),
        ));
    }
}

/// A turn leaves a row for each thing that was done, in order: the pieces of a text make one
/// text, the pieces of a reasoning one reasoning, and a call is shown with its title, its
/// arguments, whether it failed, and what it returned.
pub proof fn law_a_turn_shows_what_was_done(s: AppModel, deeds: Seq<Deed>)
    requires
        s.open_text is None,
        s.open_reasoning is None,
        s.transcript.len() + deeds.len() < usize::MAX,
        forall|i: int| 0 <= i < deeds.len() ==> (#[trigger] deeds[i]).is_new_to(s),
    ensures
        after_events(s, turn_events(deeds)).transcript == s.transcript + turn_items(deeds),
{
    lemma_turn(s, deeds);
}

/// Reloading a session shows what was lived: a prompt and its turn, stored as messages,
/// read back as the rows that submitting the prompt and streaming the turn left.
pub proof fn law_reloading_shows_what_was_lived(
    s: AppModel,
    other: AppModel,
    rows: Seq<Json>,
    text: Seq<char>,
    asked: Json,
    prompt: Json,
    deeds: Seq<Deed>,
    answered: Json,
    parts: Seq<Json>,
)
    requires
        history_of(rows).items == s.transcript,
        s.transcript.len() + deeds.len() + 1 < usize::MAX,
        is_message(asked, "user"@, seq![prompt]),
        prompt.member("type"@) == Some(Json::Text("text"@)),
        prompt.member("text"@) == Some(Json::Text(text)),
        is_message(answered, "assistant"@, parts),
        parts.len() == deeds.len(),
        forall|i: int|
            0 <= i < deeds.len() ==> is_stored("assistant"@, #[trigger] parts[i], deeds[i].item()),
        forall|i: int|
            0 <= i < deeds.len() ==> (#[trigger] deeds[i]).is_new_to(
                s.updated(MsgModel::Submitted(text)),
            ),
    ensures
        ({
            let asking = s.updated(MsgModel::Submitted(text));
            let lived = after_events(asking, turn_events(deeds));
            &&& asking.transcript == s.transcript.push(TranscriptItemModel::User(text))
            &&& other.updated(MsgModel::HistoryLoaded(rows.push(asked))).transcript
                == asking.transcript
            &&& other.updated(
                MsgModel::HistoryLoaded(rows.push(asked).push(answered)),
            ).transcript == lived.transcript
        }),
{
    let asking = s.updated(MsgModel::Submitted(text));
    assert(asking.transcript == s.transcript.push(TranscriptItemModel::User(text))
        && asking.open_text is None && asking.open_reasoning is None) by {
        reveal(AppModel::submitted);
    }
    let one = seq![TranscriptItemModel::User(text)];
    assert forall|i: int| 0 <= i < seq![prompt].len() implies is_stored(
        "user"@,
        #[trigger] seq![prompt][i],
        one[i],
    ) by {}
    law_stored_messages_read_back(rows, asked, "user"@, seq![prompt], one);
    assert(history_of(rows).items + one =~= asking.transcript);
    let items = turn_items(deeds);
    assert forall|i: int| 0 <= i < parts.len() implies is_stored(
        "assistant"@,
        #[trigger] parts[i],
        items[i],
    ) by {
        assert(items[i] == deeds[i].item());
    }
    law_stored_messages_read_back(rows.push(asked), answered, "assistant"@, parts, items);
    lemma_turn(asking, deeds);
    reveal(AppModel::history_loaded);
}

} // verus!
