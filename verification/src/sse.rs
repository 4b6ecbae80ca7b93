//! Server-sent events: frame splitting and the decoding of `/event` envelopes.

use crate::json::{
    as_array, as_str, contents, contents_all, get, member_array, member_bool, member_or_empty,
    member_string, member_u64, null_value, or_empty, parse, parsed, Json,
};
use crate::text::{
    after_prefix, copied, copies, join, joined, lines, lines_of, same, strip,
};
use vstd::prelude::*;
use vstd::slice::*;
use vstd::string::*;
use vstd::utf8::*;

verus! {

/// Which phase of a workflow run a [`WorkflowMsg`] carries.
#[derive(Debug, Clone, Copy, PartialEq, Eq, Structural)]
pub enum WfPhase {
    Started,
    Progress,
    Done,
}

impl DeepView for WfPhase {
    type V = WfPhase;

    open spec fn deep_view(&self) -> WfPhase {
        *self
    }
}

/// A pending permission ask (`permission.asked`).
#[derive(Debug, PartialEq)]
pub struct PermissionAsked {
    pub id: String,
    pub session_id: String,
    pub permission: String,
    pub patterns: Vec<String>,
}

/// The value of a [`PermissionAsked`].
#[verifier::ext_equal]
pub struct PermissionAskedModel {
    pub id: Seq<char>,
    pub session_id: Seq<char>,
    pub permission: Seq<char>,
    pub patterns: Seq<Seq<char>>,
}

impl DeepView for PermissionAsked {
    type V = PermissionAskedModel;

    open spec fn deep_view(&self) -> PermissionAskedModel {
        PermissionAskedModel {
            id: self.id.deep_view(),
            session_id: self.session_id.deep_view(),
            permission: self.permission.deep_view(),
            patterns: self.patterns.deep_view(),
        }
    }
}

impl Clone for PermissionAsked {
    fn clone(&self) -> (r: Self)
        ensures
            r.deep_view() == self.deep_view(),
    {
        PermissionAsked {
            id: self.id.clone(),
            session_id: self.session_id.clone(),
            permission: self.permission.clone(),
            patterns: copies(&self.patterns),
        }
    }
}

/// One selectable answer of a question.
#[derive(Debug, PartialEq)]
pub struct QuestionOptionView {
    pub label: String,
    pub description: String,
}

/// The value of a [`QuestionOptionView`].
#[verifier::ext_equal]
pub struct QuestionOptionViewModel {
    pub label: Seq<char>,
    pub description: Seq<char>,
}

impl DeepView for QuestionOptionView {
    type V = QuestionOptionViewModel;

    open spec fn deep_view(&self) -> QuestionOptionViewModel {
        QuestionOptionViewModel {
            label: self.label.deep_view(),
            description: self.description.deep_view(),
        }
    }
}

impl Clone for QuestionOptionView {
    fn clone(&self) -> (r: Self)
        ensures
            r.deep_view() == self.deep_view(),
    {
        QuestionOptionView {
            label: self.label.clone(),
            description: self.description.clone(),
        }
    }
}

/// Copies of the items of `v`.
pub fn copy_question_option_views(v: &[QuestionOptionView]) -> (r: Vec<QuestionOptionView>)
    ensures
        r.deep_view() == v.deep_view(),
{
    let mut out: Vec<QuestionOptionView> = Vec::new();
    let mut i: usize = 0;
    while i < v.len()
        invariant
            i <= v@.len(),
            out.deep_view() == v.deep_view().take(i as int),
        decreases v@.len() - i,
    {
        let ghost before = out.deep_view();
        out.push(v[i].clone());
        assert(out.deep_view() =~= before.push(v@[i as int].deep_view()));
        assert(v.deep_view().take(i + 1) =~= before.push(v@[i as int].deep_view()));
        i += 1;
    }
    assert(v.deep_view().take(i as int) =~= v.deep_view());
    out
}

/// One question of an ask, with the answers it offers.
#[derive(Debug, PartialEq)]
pub struct QuestionPromptView {
    pub question: String,
    pub header: String,
    pub options: Vec<QuestionOptionView>,
    /// Whether more than one answer may be chosen.
    pub multiple: bool,
}

/// The value of a [`QuestionPromptView`].
#[verifier::ext_equal]
pub struct QuestionPromptViewModel {
    pub question: Seq<char>,
    pub header: Seq<char>,
    pub options: Seq<QuestionOptionViewModel>,
    pub multiple: bool,
}

impl DeepView for QuestionPromptView {
    type V = QuestionPromptViewModel;

    open spec fn deep_view(&self) -> QuestionPromptViewModel {
        QuestionPromptViewModel {
            question: self.question.deep_view(),
            header: self.header.deep_view(),
            options: self.options.deep_view(),
            multiple: self.multiple,
        }
    }
}

impl Clone for QuestionPromptView {
    fn clone(&self) -> (r: Self)
        ensures
            r.deep_view() == self.deep_view(),
    {
        QuestionPromptView {
            question: self.question.clone(),
            header: self.header.clone(),
            options: copy_question_option_views(&self.options),
            multiple: self.multiple,
        }
    }
}

/// Copies of the items of `v`.
pub fn copy_question_prompt_views(v: &[QuestionPromptView]) -> (r: Vec<QuestionPromptView>)
    ensures
        r.deep_view() == v.deep_view(),
{
    let mut out: Vec<QuestionPromptView> = Vec::new();
    let mut i: usize = 0;
    while i < v.len()
        invariant
            i <= v@.len(),
            out.deep_view() == v.deep_view().take(i as int),
        decreases v@.len() - i,
    {
        let ghost before = out.deep_view();
        out.push(v[i].clone());
        assert(out.deep_view() =~= before.push(v@[i as int].deep_view()));
        assert(v.deep_view().take(i + 1) =~= before.push(v@[i as int].deep_view()));
        i += 1;
    }
    assert(v.deep_view().take(i as int) =~= v.deep_view());
    out
}

/// A pending question ask (`question.asked`).
#[derive(Debug, PartialEq)]
pub struct QuestionAsked {
    pub id: String,
    pub session_id: String,
    pub questions: Vec<QuestionPromptView>,
}

/// The value of a [`QuestionAsked`].
#[verifier::ext_equal]
pub struct QuestionAskedModel {
    pub id: Seq<char>,
    pub session_id: Seq<char>,
    pub questions: Seq<QuestionPromptViewModel>,
}

impl DeepView for QuestionAsked {
    type V = QuestionAskedModel;

    open spec fn deep_view(&self) -> QuestionAskedModel {
        QuestionAskedModel {
            id: self.id.deep_view(),
            session_id: self.session_id.deep_view(),
            questions: self.questions.deep_view(),
        }
    }
}

impl Clone for QuestionAsked {
    fn clone(&self) -> (r: Self)
        ensures
            r.deep_view() == self.deep_view(),
    {
        QuestionAsked {
            id: self.id.clone(),
            session_id: self.session_id.clone(),
            questions: copy_question_prompt_views(&self.questions),
        }
    }
}

/// A `workflow.subagent` event: one line of subagent activity.
#[derive(Debug, PartialEq)]
pub struct SubagentMsg {
    pub session: String,
    pub task_index: u32,
    pub verb: String,
    pub detail: String,
}

/// The value of a [`SubagentMsg`].
#[verifier::ext_equal]
pub struct SubagentMsgModel {
    pub session: Seq<char>,
    pub task_index: u32,
    pub verb: Seq<char>,
    pub detail: Seq<char>,
}

impl DeepView for SubagentMsg {
    type V = SubagentMsgModel;

    open spec fn deep_view(&self) -> SubagentMsgModel {
        SubagentMsgModel {
            session: self.session.deep_view(),
            task_index: self.task_index,
            verb: self.verb.deep_view(),
            detail: self.detail.deep_view(),
        }
    }
}

impl Clone for SubagentMsg {
    fn clone(&self) -> (r: Self)
        ensures
            r.deep_view() == self.deep_view(),
    {
        SubagentMsg {
            session: self.session.clone(),
            task_index: self.task_index,
            verb: self.verb.clone(),
            detail: self.detail.clone(),
        }
    }
}

/// A `workflow.*` event.
#[derive(Debug, PartialEq)]
pub struct WorkflowMsg {
    pub phase: WfPhase,
    /// The session that the run is bound to; a cancel request names it.
    pub session: String,
    pub kind: String,
    pub arg: Option<String>,
    pub task_index: Option<u32>,
    pub status: Option<String>,
    pub notes: String,
    pub ok: Option<bool>,
    pub summary: Option<String>,
    pub error: Option<String>,
}

/// The value of a [`WorkflowMsg`].
#[verifier::ext_equal]
pub struct WorkflowMsgModel {
    pub phase: WfPhase,
    pub session: Seq<char>,
    pub kind: Seq<char>,
    pub arg: Option<Seq<char>>,
    pub task_index: Option<u32>,
    pub status: Option<Seq<char>>,
    pub notes: Seq<char>,
    pub ok: Option<bool>,
    pub summary: Option<Seq<char>>,
    pub error: Option<Seq<char>>,
}

impl DeepView for WorkflowMsg {
    type V = WorkflowMsgModel;

    open spec fn deep_view(&self) -> WorkflowMsgModel {
        WorkflowMsgModel {
            phase: self.phase,
            session: self.session.deep_view(),
            kind: self.kind.deep_view(),
            arg: self.arg.deep_view(),
            task_index: self.task_index,
            status: self.status.deep_view(),
            notes: self.notes.deep_view(),
            ok: self.ok,
            summary: self.summary.deep_view(),
            error: self.error.deep_view(),
        }
    }
}

impl Clone for WorkflowMsg {
    fn clone(&self) -> (r: Self)
        ensures
            r.deep_view() == self.deep_view(),
    {
        WorkflowMsg {
            phase: self.phase,
            session: self.session.clone(),
            kind: self.kind.clone(),
            arg: copied(&self.arg),
            task_index: self.task_index,
            status: copied(&self.status),
            notes: self.notes.clone(),
            ok: self.ok,
            summary: copied(&self.summary),
            error: copied(&self.error),
        }
    }
}

/// A decoded `/event` envelope: the ones that are acted on.
#[derive(Debug, PartialEq)]
pub enum ServerEvent {
    Connected,
    PermissionAsked(PermissionAsked),
    QuestionAsked(QuestionAsked),
    Workflow(WorkflowMsg),
    Subagent(SubagentMsg),
    SessionBusy { session_id: String },
    SessionIdle { session_id: String },
    SessionCreated { session_id: String, title: Option<String>, parent_id: Option<String> },
    PermissionModeChanged { session_id: String, mode: String },
    Other,
}

/// The value of a [`ServerEvent`].
#[verifier::ext_equal]
pub enum ServerEventModel {
    Connected,
    PermissionAsked(PermissionAskedModel),
    QuestionAsked(QuestionAskedModel),
    Workflow(WorkflowMsgModel),
    Subagent(SubagentMsgModel),
    SessionBusy { session_id: Seq<char> },
    SessionIdle { session_id: Seq<char> },
    SessionCreated { session_id: Seq<char>, title: Option<Seq<char>>, parent_id: Option<Seq<char>> },
    PermissionModeChanged { session_id: Seq<char>, mode: Seq<char> },
    Other,
}

impl DeepView for ServerEvent {
    type V = ServerEventModel;

    open spec fn deep_view(&self) -> ServerEventModel {
        match self {
            ServerEvent::Connected => ServerEventModel::Connected,
            ServerEvent::PermissionAsked(a) => ServerEventModel::PermissionAsked(a.deep_view()),
            ServerEvent::QuestionAsked(a) => ServerEventModel::QuestionAsked(a.deep_view()),
            ServerEvent::Workflow(a) => ServerEventModel::Workflow(a.deep_view()),
            ServerEvent::Subagent(a) => ServerEventModel::Subagent(a.deep_view()),
            ServerEvent::SessionBusy { session_id } => ServerEventModel::SessionBusy { session_id: session_id.deep_view() },
            ServerEvent::SessionIdle { session_id } => ServerEventModel::SessionIdle { session_id: session_id.deep_view() },
            ServerEvent::SessionCreated { session_id, title, parent_id } => ServerEventModel::SessionCreated { session_id: session_id.deep_view(), title: title.deep_view(), parent_id: parent_id.deep_view() },
            ServerEvent::PermissionModeChanged { session_id, mode } => ServerEventModel::PermissionModeChanged { session_id: session_id.deep_view(), mode: mode.deep_view() },
            ServerEvent::Other => ServerEventModel::Other,
        }
    }
}

impl Clone for ServerEvent {
    fn clone(&self) -> (r: Self)
        ensures
            r.deep_view() == self.deep_view(),
    {
        match self {
            ServerEvent::Connected => ServerEvent::Connected,
            ServerEvent::PermissionAsked(a) => ServerEvent::PermissionAsked(a.clone()),
            ServerEvent::QuestionAsked(a) => ServerEvent::QuestionAsked(a.clone()),
            ServerEvent::Workflow(a) => ServerEvent::Workflow(a.clone()),
            ServerEvent::Subagent(a) => ServerEvent::Subagent(a.clone()),
            ServerEvent::SessionBusy { session_id } => ServerEvent::SessionBusy { session_id: session_id.clone() },
            ServerEvent::SessionIdle { session_id } => ServerEvent::SessionIdle { session_id: session_id.clone() },
            ServerEvent::SessionCreated { session_id, title, parent_id } => ServerEvent::SessionCreated { session_id: session_id.clone(), title: copied(title), parent_id: copied(parent_id) },
            ServerEvent::PermissionModeChanged { session_id, mode } => ServerEvent::PermissionModeChanged { session_id: session_id.clone(), mode: mode.clone() },
            ServerEvent::Other => ServerEvent::Other,
        }
    }
}

// ---------------------------------------------------------------------------
// Frames
// ---------------------------------------------------------------------------

/// The payload of one line of a frame: what follows `data:` and at most one
/// space. Other lines (comments, `event:`, `id:`) carry none.
pub open spec fn line_data(line: Seq<char>) -> Option<Seq<char>> {
    match after_prefix(line, "data:"@) {
        Some(d) => match after_prefix(d, " "@) {
            Some(e) => Some(e),
            None => Some(d),
        },
        None => None,
    }
}

/// The payloads of `lines`, in order.
pub open spec fn data_lines(lines: Seq<Seq<char>>) -> Seq<Seq<char>>
    decreases lines.len(),
{
    if lines.len() == 0 {
        Seq::empty()
    } else {
        let before = data_lines(lines.drop_last());
        match line_data(lines.last()) {
            Some(d) => before.push(d),
            None => before,
        }
    }
}

/// The payload of a frame: its `data:` lines joined by line feeds, where it
/// has any.
pub open spec fn frame_data(frame: Seq<char>) -> Option<Seq<char>> {
    let data = data_lines(lines_of(frame));
    if data.len() == 0 {
        None
    } else {
        Some(joined(data, "\n"@))
    }
}

/// The text of a frame's bytes: decoded where they are UTF-8, otherwise with
/// replacement characters for what is not.
pub open spec fn frame_text(bytes: Seq<u8>) -> Seq<char> {
    if valid_utf8(bytes) {
        decode_utf8(bytes)
    } else {
        lossy(bytes)
    }
}

/// Whether a pair of line feeds stands at `i`.
pub open spec fn is_gap(s: Seq<u8>, i: int) -> bool {
    0 <= i && i + 1 < s.len() && s[i] == 10 && s[i + 1] == 10
}

/// Where the first pair of line feeds stands; the length where there is none.
pub open spec fn first_gap(s: Seq<u8>) -> nat
    decreases s.len(),
{
    if s.len() == 0 || is_gap(s, 0) {
        0
    } else {
        1 + first_gap(s.skip(1))
    }
}

proof fn lemma_first_gap(s: Seq<u8>)
    ensures
        first_gap(s) <= s.len(),
        first_gap(s) < s.len() ==> is_gap(s, first_gap(s) as int),
        forall|j: int| 0 <= j < first_gap(s) ==> !(#[trigger] is_gap(s, j)),
    decreases s.len(),
{
    if s.len() == 0 || is_gap(s, 0) {
    } else {
        let t = s.skip(1);
        lemma_first_gap(t);
        assert(forall|k: int| 0 <= k < t.len() ==> t[k] == s[k + 1]);
        assert forall|j: int| 0 <= j < first_gap(s) implies !(#[trigger] is_gap(s, j)) by {
            if j > 0 {
                assert(!is_gap(t, j - 1));
            }
        }
    }
}

proof fn lemma_first_gap_is(s: Seq<u8>, i: int)
    requires
        0 <= i <= s.len(),
        forall|j: int| 0 <= j < i ==> !(#[trigger] is_gap(s, j)),
        i < s.len() ==> is_gap(s, i),
    ensures
        first_gap(s) == i,
{
    lemma_first_gap(s);
    if first_gap(s) < i {
        assert(is_gap(s, first_gap(s) as int));
    }
}

/// The payloads of the complete frames of `s`: a frame ends at a pair of line
/// feeds.
pub open spec fn payloads(s: Seq<u8>) -> Seq<Seq<char>>
    decreases s.len(),
{
    let g = first_gap(s);
    if g + 2 <= s.len() {
        let rest = payloads(s.skip(g as int + 2));
        match frame_data(frame_text(s.take(g as int))) {
            Some(d) => seq![d] + rest,
            None => rest,
        }
    } else {
        Seq::empty()
    }
}

/// What follows the last complete frame of `s`.
pub open spec fn unfinished(s: Seq<u8>) -> Seq<u8>
    decreases s.len(),
{
    let g = first_gap(s);
    if g + 2 <= s.len() {
        unfinished(s.skip(g as int + 2))
    } else {
        s
    }
}

/// Accumulates the raw bytes of server-sent events and yields each completed
/// payload. A frame is read as text only when all of it is there, so a character
/// may span two chunks.
#[derive(Debug)]
pub struct FrameDecoder {
    buf: Vec<u8>,
}

impl FrameDecoder {
    /// The bytes that no frame has completed yet.
    pub closed spec fn pending(&self) -> Seq<u8> {
        self.buf@
    }

    #[must_use]
    pub fn new() -> (r: Self)
        ensures
            r.pending() == Seq::<u8>::empty(),
    {
        FrameDecoder { buf: Vec::new() }
    }

    /// Takes a chunk of raw bytes and returns the payload of each frame that it
    /// completes.
    pub fn push(&mut self, chunk: &[u8]) -> (r: Vec<String>)
        ensures
            r.deep_view() == payloads(old(self).pending() + chunk@),
            final(self).pending() == unfinished(old(self).pending() + chunk@),
    {
        let ghost all = self.buf@ + chunk@;
        self.buf.extend_from_slice(chunk);
        assert(self.buf@ =~= all);
        let mut out: Vec<String> = Vec::new();
        let mut start: usize = 0;
        let mut i: usize = 0;
        assert(all.skip(0) =~= all);
        assert(out.deep_view() + payloads(all) =~= payloads(all));
        while i < self.buf.len()
            invariant
                start <= i <= self.buf@.len(),
                self.buf@ == all,
                forall|j: int| start <= j < i ==> !(#[trigger] is_gap(all, j)),
                out.deep_view() + payloads(all.skip(start as int)) == payloads(all),
                unfinished(all.skip(start as int)) == unfinished(all),
            decreases self.buf@.len() - i,
        {
            if i + 1 < self.buf.len() && self.buf[i] == 10 && self.buf[i + 1] == 10 {
                let ghost rest = all.skip(start as int);
                let frame = slice_subrange(self.buf.as_slice(), start, i);
                let data = payload(frame);
                let ghost before = out.deep_view();
                proof {
                    lemma_gap_is_next(all, start as int, i as int);
                    assert(rest.take(i - start) =~= frame@);
                    assert(rest.skip(i - start + 2) =~= all.skip(i + 2));
                }
                match data {
                    Some(d) => {
                        out.push(d);
                        proof {
                            assert(out.deep_view() =~= before.push(d@));
                            assert(before + (seq![d@] + payloads(all.skip(i + 2))) =~= before.push(d@)
                                + payloads(all.skip(i + 2)));
                        }
                    },
                    None => {},
                }
                start = i + 2;
                i = i + 2;
            } else {
                i += 1;
            }
        }
        let mut left: Vec<u8> = Vec::new();
        left.extend_from_slice(slice_subrange(self.buf.as_slice(), start, self.buf.len()));
        proof {
            let rest = all.skip(start as int);
            lemma_gap_is_next(all, start as int, all.len() as int);
            assert(payloads(rest) =~= Seq::<Seq<char>>::empty());
            assert(out.deep_view() + payloads(rest) =~= out.deep_view());
            assert(left@ =~= rest);
        }
        self.buf = left;
        out
    }

    /// Ends the stream: what no pair of line feeds has closed counts as one
    /// last frame.
    pub fn flush(&mut self) -> (r: Option<String>)
        ensures
            r.deep_view() == frame_data(frame_text(old(self).pending())),
            final(self).pending() == Seq::<u8>::empty(),
    {
        let r = payload(self.buf.as_slice());
        self.buf = Vec::new();
        r
    }
}

/// The first gap at or after `start` is the first one of what follows `start`.
proof fn lemma_gap_is_next(s: Seq<u8>, start: int, i: int)
    requires
        0 <= start <= i <= s.len(),
        forall|j: int| start <= j < i ==> !(#[trigger] is_gap(s, j)),
        i < s.len() ==> is_gap(s, i),
    ensures
        first_gap(s.skip(start)) == i - start,
{
    let rest = s.skip(start);
    assert(forall|j: int| 0 <= j < rest.len() ==> rest[j] == s[start + j]);
    assert forall|j: int| 0 <= j < i - start implies !(#[trigger] is_gap(rest, j)) by {
        assert(!is_gap(s, start + j));
    }
    lemma_first_gap_is(rest, i - start);
}

impl Default for FrameDecoder {
    fn default() -> (r: Self)
        ensures
            r.pending() == Seq::<u8>::empty(),
    {
        FrameDecoder::new()
    }
}

/// The frames of one response: chunks of it, until it ends or fails.
#[derive(Debug)]
pub struct FrameStream {
    decoder: FrameDecoder,
    ended: bool,
}

impl FrameStream {
    /// The bytes that no frame has completed yet.
    pub closed spec fn pending(&self) -> Seq<u8> {
        self.decoder.pending()
    }

    /// Whether the response has ended.
    pub closed spec fn has_ended(&self) -> bool {
        self.ended
    }

    #[must_use]
    pub fn new() -> (r: Self)
        ensures
            r.pending() == Seq::<u8>::empty(),
            !r.has_ended(),
    {
        FrameStream { decoder: FrameDecoder::new(), ended: false }
    }

    /// Takes a chunk and returns the payload of each frame that it completes.
    /// Nothing comes of a chunk after the end.
    pub fn chunk(&mut self, bytes: &[u8]) -> (r: Vec<String>)
        ensures
            final(self).has_ended() == old(self).has_ended(),
            old(self).has_ended() ==> r.deep_view() == Seq::<Seq<char>>::empty()
                && final(self).pending() == old(self).pending(),
            !old(self).has_ended() ==> r.deep_view() == payloads(old(self).pending() + bytes@) && final(self).pending() == unfinished(old(self).pending() + bytes@),
    {
        if self.ended {
            let r: Vec<String> = Vec::new();
            assert(r.deep_view() =~= Seq::<Seq<char>>::empty());
            return r;
        }
        self.decoder.push(bytes)
    }

    /// Ends the response, whether it is complete or has failed: a frame that was
    /// never closed counts, and nothing is left to come.
    pub fn end(&mut self) -> (r: Option<String>)
        ensures
            final(self).has_ended(),
            final(self).pending() == if old(self).has_ended() {
                old(self).pending()
            } else {
                Seq::<u8>::empty()
            },
            r.deep_view() == if old(self).has_ended() {
                None
            } else {
                frame_data(frame_text(old(self).pending()))
            },
    {
        if self.ended {
            return None;
        }
        self.ended = true;
        self.decoder.flush()
    }

    /// Whether the response has ended.
    #[must_use]
    pub fn is_over(&self) -> (r: bool)
        ensures
            r == self.has_ended(),
    {
        self.ended
    }
}

/// The payload of one frame's bytes, where it has one.
fn payload(bytes: &[u8]) -> (r: Option<String>)
    ensures
        r.deep_view() == frame_data(frame_text(bytes@)),
{
    let text = utf8_lossy(bytes);
    frame_payload(text.as_str())
}

/// The payload of one frame, where it has one.
fn frame_payload(frame: &str) -> (r: Option<String>)
    ensures
        r.deep_view() == frame_data(frame@),
{
    let ls = lines(frame);
    let ghost all = lines_of(frame@);
    let mut data: Vec<String> = Vec::new();
    let mut i: usize = 0;
    while i < ls.len()
        invariant
            i <= ls@.len(),
            ls.deep_view() == all,
            data.deep_view() == data_lines(all.take(i as int)),
        decreases ls@.len() - i,
    {
        let ghost before = data.deep_view();
        proof {
            assert(all.take(i + 1).drop_last() =~= all.take(i as int));
            assert(all[i as int] == ls@[i as int]@);
        }
        match strip(ls[i].as_str(), "data:") {
            Some(d) => {
                match strip(d.as_str(), " ") {
                    Some(e) => {
                        data.push(e);
                        assert(data.deep_view() =~= before.push(e@));
                    },
                    None => {
                        data.push(d);
                        assert(data.deep_view() =~= before.push(d@));
                    },
                }
            },
            None => {},
        }
        i += 1;
    }
    assert(all.take(i as int) =~= all);
    if data.len() == 0 {
        None
    } else {
        Some(join(&data, "\n"))
    }
}

/// The characters that `String::from_utf8_lossy` reads out of `bytes`.
pub uninterp spec fn lossy(bytes: Seq<u8>) -> Seq<char>;

/// `std::string::String::from_utf8_lossy`: the text of `bytes`, with
/// replacement characters for what is not UTF-8. Where all of it is, the text is
/// the decoded one.
#[verifier::external_body]
fn utf8_lossy(bytes: &[u8]) -> (r: String)
    ensures
        r@ == lossy(bytes@),
        valid_utf8(bytes@) ==> r@ == decode_utf8(bytes@),
{
    String::from_utf8_lossy(bytes).into_owned()
}

// ---------------------------------------------------------------------------
// Laws of framing
// ---------------------------------------------------------------------------

proof fn lemma_gap_extends(a: Seq<u8>, b: Seq<u8>)
    requires
        first_gap(a) < a.len(),
    ensures
        first_gap(a + b) == first_gap(a),
{
    lemma_first_gap(a);
    let g = first_gap(a) as int;
    assert forall|j: int| 0 <= j < g implies !(#[trigger] is_gap(a + b, j)) by {
        assert(!is_gap(a, j));
    }
    lemma_first_gap_is(a + b, g);
}

/// Where a stream is cut into chunks makes no difference, even inside a
/// character: `a` and then `b` give the payloads, and leave pending, what both
/// give as one.
pub proof fn law_chunks_give_the_frames_of_the_whole(a: Seq<u8>, b: Seq<u8>)
    ensures
        payloads(a + b) == payloads(a) + payloads(unfinished(a) + b),
        unfinished(a + b) == unfinished(unfinished(a) + b),
    decreases a.len(),
{
    let g = first_gap(a);
    lemma_first_gap(a);
    if g < a.len() {
        lemma_gap_extends(a, b);
        let rest = a.skip(g as int + 2);
        law_chunks_give_the_frames_of_the_whole(rest, b);
        assert((a + b).skip(g as int + 2) =~= rest + b);
        assert((a + b).take(g as int) =~= a.take(g as int));
        match frame_data(frame_text(a.take(g as int))) {
            Some(d) => {
                assert(seq![d] + (payloads(rest) + payloads(unfinished(rest) + b)) =~= (seq![d]
                    + payloads(rest)) + payloads(unfinished(rest) + b));
            },
            None => {},
        }
    } else {
        assert(payloads(a) + payloads(a + b) =~= payloads(a + b));
    }
}

/// What is pending never holds a complete frame.
pub proof fn law_pending_is_incomplete(s: Seq<u8>)
    ensures
        payloads(unfinished(s)) == Seq::<Seq<char>>::empty(),
        unfinished(unfinished(s)) == unfinished(s),
    decreases s.len(),
{
    let g = first_gap(s);
    lemma_first_gap(s);
    if g < s.len() {
        law_pending_is_incomplete(s.skip(g as int + 2));
    }
}

// ---------------------------------------------------------------------------
// Envelopes
// ---------------------------------------------------------------------------

/// The field of a record that is written as an object or, in field order, as
/// an array.
pub open spec fn record_field(v: Json, name: Seq<char>, index: int) -> Option<Json> {
    match v {
        Json::Array(a) => if index < a.len() {
            Some(a[index])
        } else {
            None
        },
        _ => v.member(name),
    }
}

/// The text of a record's field, where it is one.
pub open spec fn record_text(v: Json, name: Seq<char>, index: int) -> Option<Seq<char>> {
    match record_field(v, name, index) {
        Some(f) => f.text(),
        None => None,
    }
}

/// Whether `v` is written as a record of at most `fields` fields.
pub open spec fn is_record(v: Json, fields: nat) -> bool {
    match v {
        Json::Object(_) => true,
        Json::Array(a) => a.len() <= fields,
        _ => false,
    }
}

/// The texts of a list that holds nothing else.
pub open spec fn all_texts(items: Seq<Json>) -> Option<Seq<Seq<char>>> {
    if forall|i: int| 0 <= i < items.len() ==> (#[trigger] items[i]).text() is Some {
        Some(Seq::new(items.len(), |i: int| items[i].text()->0))
    } else {
        None
    }
}

/// The permission ask that an event's properties describe. The patterns may be
/// left out.
pub open spec fn permission_of(p: Json) -> Option<PermissionAskedModel> {
    let patterns = match record_field(p, "patterns"@, 3) {
        None => Some(Seq::<Seq<char>>::empty()),
        Some(v) => match v.items() {
            Some(items) => all_texts(items),
            None => None,
        },
    };
    if is_record(p, 4) && record_text(p, "id"@, 0) is Some && record_text(p, "sessionID"@, 1) is Some
        && record_text(p, "permission"@, 2) is Some && patterns is Some {
        Some(
            PermissionAskedModel {
                id: record_text(p, "id"@, 0)->0,
                session_id: record_text(p, "sessionID"@, 1)->0,
                permission: record_text(p, "permission"@, 2)->0,
                patterns: patterns->0,
            },
        )
    } else {
        None
    }
}

/// The low 32 bits of an integer.
pub open spec fn low_word(n: u64) -> u32 {
    (n % 0x1_0000_0000) as u32
}

/// The workflow event of phase `phase` with the properties `p`.
pub open spec fn workflow_of(phase: WfPhase, p: Json) -> WorkflowMsgModel {
    WorkflowMsgModel {
        phase,
        session: or_empty(p.text_member("session"@)),
        kind: or_empty(p.text_member("kind"@)),
        arg: p.text_member("arg"@),
        task_index: match p.unsigned_member("task_index"@) {
            Some(n) => Some(low_word(n)),
            None => None,
        },
        status: p.text_member("status"@),
        notes: or_empty(p.text_member("notes"@)),
        ok: p.bool_member("ok"@),
        summary: p.text_member("summary"@),
        error: p.text_member("error"@),
    }
}

/// The subagent event with the properties `p`.
pub open spec fn subagent_of(p: Json) -> SubagentMsgModel {
    SubagentMsgModel {
        session: or_empty(p.text_member("session"@)),
        task_index: match p.unsigned_member("task_index"@) {
            Some(n) => low_word(n),
            None => 0,
        },
        verb: or_empty(p.text_member("verb"@)),
        detail: or_empty(p.text_member("detail"@)),
    }
}

/// An answer that a question offers: a label and, where it is given, a
/// description.
pub open spec fn option_of(v: Json) -> Option<QuestionOptionViewModel> {
    match v.text_member("label"@) {
        Some(label) => Some(
            QuestionOptionViewModel { label, description: or_empty(v.text_member("description"@)) },
        ),
        None => None,
    }
}

/// The answers of a list that holds nothing else.
pub open spec fn options_of(items: Seq<Json>) -> Option<Seq<QuestionOptionViewModel>> {
    if forall|i: int| 0 <= i < items.len() ==> option_of(#[trigger] items[i]) is Some {
        Some(Seq::new(items.len(), |i: int| option_of(items[i])->0))
    } else {
        None
    }
}

/// A question with the answers that it offers. One answer may be chosen unless it
/// says otherwise.
pub open spec fn prompt_of(v: Json) -> Option<QuestionPromptViewModel> {
    match (v.text_member("question"@), v.items_member("options"@)) {
        (Some(question), Some(items)) => match options_of(items) {
            Some(options) => Some(
                QuestionPromptViewModel {
                    question,
                    header: or_empty(v.text_member("header"@)),
                    options,
                    multiple: v.bool_member("multiple"@) == Some(true),
                },
            ),
            None => None,
        },
        _ => None,
    }
}

/// The questions of a list that holds nothing else.
pub open spec fn prompts_of(items: Seq<Json>) -> Option<Seq<QuestionPromptViewModel>> {
    if forall|i: int| 0 <= i < items.len() ==> prompt_of(#[trigger] items[i]) is Some {
        Some(Seq::new(items.len(), |i: int| prompt_of(items[i])->0))
    } else {
        None
    }
}

/// The question ask that an event's properties describe.
pub open spec fn question_of(p: Json) -> Option<QuestionAskedModel> {
    match (p.text_member("id"@), p.text_member("sessionID"@), p.items_member("questions"@)) {
        (Some(id), Some(session_id), Some(items)) => match prompts_of(items) {
            Some(questions) => Some(QuestionAskedModel { id, session_id, questions }),
            None => None,
        },
        _ => None,
    }
}

/// What an envelope of type `kind` says of the session that its properties name.
pub open spec fn session_event(kind: Seq<char>, session_id: Seq<char>, p: Json) -> ServerEventModel {
    if kind == "session.busy"@ {
        ServerEventModel::SessionBusy { session_id }
    } else if kind == "session.idle"@ {
        ServerEventModel::SessionIdle { session_id }
    } else if kind == "session.created"@ {
        ServerEventModel::SessionCreated {
            session_id,
            title: p.text_member("title"@),
            parent_id: p.text_member("parentID"@),
        }
    } else if kind == "permission.mode_changed"@ {
        match p.text_member("mode"@) {
            Some(mode) => ServerEventModel::PermissionModeChanged { session_id, mode },
            None => ServerEventModel::Other,
        }
    } else {
        ServerEventModel::Other
    }
}

/// What an envelope with the type `kind` and the properties `p` says.
pub open spec fn event_named(kind: Seq<char>, p: Json) -> ServerEventModel {
    if kind == "server.connected"@ {
        ServerEventModel::Connected
    } else if kind == "permission.asked"@ {
        match permission_of(p) {
            Some(m) => ServerEventModel::PermissionAsked(m),
            None => ServerEventModel::Other,
        }
    } else if kind == "workflow.started"@ {
        ServerEventModel::Workflow(workflow_of(WfPhase::Started, p))
    } else if kind == "workflow.progress"@ {
        ServerEventModel::Workflow(workflow_of(WfPhase::Progress, p))
    } else if kind == "workflow.done"@ {
        ServerEventModel::Workflow(workflow_of(WfPhase::Done, p))
    } else if kind == "workflow.subagent"@ {
        ServerEventModel::Subagent(subagent_of(p))
    } else if kind == "question.asked"@ {
        match question_of(p) {
            Some(q) => ServerEventModel::QuestionAsked(q),
            None => ServerEventModel::Other,
        }
    } else {
        match p.text_member("sessionID"@) {
            Some(id) => session_event(kind, id, p),
            None => ServerEventModel::Other,
        }
    }
}

/// What the envelope `v` says: a record of a type and, where they are not left
/// out, properties. Anything else, and any other type, is [`ServerEvent::Other`].
pub open spec fn event_of(v: Json) -> ServerEventModel {
    match record_text(v, "type"@, 0) {
        Some(kind) => if is_record(v, 2) {
            event_named(
                kind,
                match record_field(v, "properties"@, 1) {
                    Some(p) => p,
                    None => Json::Null,
                },
            )
        } else {
            ServerEventModel::Other
        },
        None => ServerEventModel::Other,
    }
}

/// Reads the field of a record.
fn field<'a>(v: &'a serde_json::Value, name: &str, index: usize) -> (r: Option<
    &'a serde_json::Value,
>)
    ensures
        r is Some == record_field(contents(*v), name@, index as int) is Some,
        r matches Some(f) ==> contents(*f) == record_field(contents(*v), name@, index as int)->0,
{
    match as_array(v) {
        Some(a) => {
            assert(contents_all(a@).len() == a@.len());
            if index < a.len() {
                assert(contents_all(a@)[index as int] == contents(a@[index as int]));
                Some(&a[index])
            } else {
                None
            }
        },
        None => get(v, name),
    }
}

/// Reads the text of a record's field.
fn text_field(v: &serde_json::Value, name: &str, index: usize) -> (r: Option<String>)
    ensures
        r.deep_view() == record_text(contents(*v), name@, index as int),
{
    match field(v, name, index) {
        Some(f) => match as_str(f) {
            Some(s) => Some(s.to_owned()),
            None => None,
        },
        None => None,
    }
}

/// Whether `v` is written as a record of at most `fields` fields.
fn fits_record(v: &serde_json::Value, fields: usize) -> (r: bool)
    ensures
        r == is_record(contents(*v), fields as nat),
{
    match as_array(v) {
        Some(a) => {
            assert(contents_all(a@).len() == a@.len());
            a.len() <= fields
        },
        None => crate::json::object_keys(v).is_some(),
    }
}

/// Reads a list of texts, where it holds nothing else.
fn text_list(items: &[serde_json::Value]) -> (r: Option<Vec<String>>)
    ensures
        r.deep_view() == all_texts(contents_all(items@)),
{
    let ghost all = contents_all(items@);
    let mut out: Vec<String> = Vec::new();
    let mut i: usize = 0;
    while i < items.len()
        invariant
            i <= items@.len(),
            all == contents_all(items@),
            out@.len() == i,
            forall|j: int|
                0 <= j < i ==> (#[trigger] all[j]).text() is Some && out@[j]@ == all[j].text()->0,
        decreases items@.len() - i,
    {
        assert(all[i as int] == contents(items@[i as int]));
        match as_str(&items[i]) {
            Some(s) => {
                out.push(s.to_owned());
            },
            None => {
                return None;
            },
        }
        i += 1;
    }
    assert(out.deep_view() =~= all_texts(all)->0);
    Some(out)
}

/// Reads a permission ask.
fn read_permission(p: &serde_json::Value) -> (r: Option<PermissionAsked>)
    ensures
        r.deep_view() == permission_of(contents(*p)),
{
    if !fits_record(p, 4) {
        return None;
    }
    let patterns: Option<Vec<String>> = match field(p, "patterns", 3) {
        None => {
            let v: Vec<String> = Vec::new();
            assert(v.deep_view() =~= Seq::<Seq<char>>::empty());
            Some(v)
        },
        Some(v) => match as_array(v) {
            Some(items) => text_list(items),
            None => None,
        },
    };
    match (
        text_field(p, "id", 0),
        text_field(p, "sessionID", 1),
        text_field(p, "permission", 2),
        patterns,
    ) {
        (Some(id), Some(session_id), Some(permission), Some(patterns)) => Some(
            PermissionAsked { id, session_id, permission, patterns },
        ),
        _ => None,
    }
}

/// The low 32 bits of an integer.
fn low(n: u64) -> (r: u32)
    ensures
        r == low_word(n),
{
    (n % 0x1_0000_0000) as u32
}

/// Reads a workflow event of phase `phase`.
fn read_workflow(phase: WfPhase, p: &serde_json::Value) -> (r: WorkflowMsg)
    ensures
        r.deep_view() == workflow_of(phase, contents(*p)),
{
    WorkflowMsg {
        phase,
        session: member_or_empty(p, "session"),
        kind: member_or_empty(p, "kind"),
        arg: member_string(p, "arg"),
        task_index: match member_u64(p, "task_index") {
            Some(n) => Some(low(n)),
            None => None,
        },
        status: member_string(p, "status"),
        notes: member_or_empty(p, "notes"),
        ok: member_bool(p, "ok"),
        summary: member_string(p, "summary"),
        error: member_string(p, "error"),
    }
}

/// Reads a subagent event.
fn read_subagent(p: &serde_json::Value) -> (r: SubagentMsg)
    ensures
        r.deep_view() == subagent_of(contents(*p)),
{
    SubagentMsg {
        session: member_or_empty(p, "session"),
        task_index: match member_u64(p, "task_index") {
            Some(n) => low(n),
            None => 0,
        },
        verb: member_or_empty(p, "verb"),
        detail: member_or_empty(p, "detail"),
    }
}

/// Reads the answers that a question offers.
fn read_options(items: &[serde_json::Value]) -> (r: Option<Vec<QuestionOptionView>>)
    ensures
        r.deep_view() == options_of(contents_all(items@)),
{
    let ghost all = contents_all(items@);
    let mut out: Vec<QuestionOptionView> = Vec::new();
    let mut i: usize = 0;
    while i < items.len()
        invariant
            i <= items@.len(),
            all == contents_all(items@),
            out@.len() == i,
            forall|j: int|
                0 <= j < i ==> option_of(#[trigger] all[j]) is Some && out@[j].deep_view()
                    == option_of(all[j])->0,
        decreases items@.len() - i,
    {
        assert(all[i as int] == contents(items@[i as int]));
        match member_string(&items[i], "label") {
            Some(label) => {
                let description = member_or_empty(&items[i], "description");
                out.push(QuestionOptionView { label, description });
            },
            None => {
                return None;
            },
        }
        i += 1;
    }
    assert(out.deep_view() =~= options_of(all)->0);
    Some(out)
}

/// Reads a question.
fn read_prompt(v: &serde_json::Value) -> (r: Option<QuestionPromptView>)
    ensures
        r.deep_view() == prompt_of(contents(*v)),
{
    match (member_string(v, "question"), member_array(v, "options")) {
        (Some(question), Some(items)) => match read_options(items) {
            Some(options) => Some(
                QuestionPromptView {
                    question,
                    header: member_or_empty(v, "header"),
                    options,
                    multiple: member_bool(v, "multiple") == Some(true),
                },
            ),
            None => None,
        },
        _ => None,
    }
}

/// Reads the questions of an ask.
fn read_prompts(items: &[serde_json::Value]) -> (r: Option<Vec<QuestionPromptView>>)
    ensures
        r.deep_view() == prompts_of(contents_all(items@)),
{
    let ghost all = contents_all(items@);
    let mut out: Vec<QuestionPromptView> = Vec::new();
    let mut i: usize = 0;
    while i < items.len()
        invariant
            i <= items@.len(),
            all == contents_all(items@),
            out@.len() == i,
            forall|j: int|
                0 <= j < i ==> prompt_of(#[trigger] all[j]) is Some && out@[j].deep_view()
                    == prompt_of(all[j])->0,
        decreases items@.len() - i,
    {
        assert(all[i as int] == contents(items@[i as int]));
        match read_prompt(&items[i]) {
            Some(p) => {
                out.push(p);
            },
            None => {
                return None;
            },
        }
        i += 1;
    }
    assert(out.deep_view() =~= prompts_of(all)->0);
    Some(out)
}

/// Reads a question ask.
fn read_question(p: &serde_json::Value) -> (r: Option<QuestionAsked>)
    ensures
        r.deep_view() == question_of(contents(*p)),
{
    match (
        member_string(p, "id"),
        member_string(p, "sessionID"),
        member_array(p, "questions"),
    ) {
        (Some(id), Some(session_id), Some(items)) => match read_prompts(items) {
            Some(questions) => Some(QuestionAsked { id, session_id, questions }),
            None => None,
        },
        _ => None,
    }
}

/// What an envelope of type `kind` says of the session that its properties name.
fn read_session_event(kind: &str, session_id: String, p: &serde_json::Value) -> (r: ServerEvent)
    ensures
        r.deep_view() == session_event(kind@, session_id@, contents(*p)),
{
    if same(kind, "session.busy") {
        ServerEvent::SessionBusy { session_id }
    } else if same(kind, "session.idle") {
        ServerEvent::SessionIdle { session_id }
    } else if same(kind, "session.created") {
        ServerEvent::SessionCreated {
            session_id,
            title: member_string(p, "title"),
            parent_id: member_string(p, "parentID"),
        }
    } else if same(kind, "permission.mode_changed") {
        match member_string(p, "mode") {
            Some(mode) => ServerEvent::PermissionModeChanged { session_id, mode },
            None => ServerEvent::Other,
        }
    } else {
        ServerEvent::Other
    }
}

/// What an envelope with the type `kind` and the properties `p` says.
fn read_named(kind: &str, p: &serde_json::Value) -> (r: ServerEvent)
    ensures
        r.deep_view() == event_named(kind@, contents(*p)),
{
    if same(kind, "server.connected") {
        ServerEvent::Connected
    } else if same(kind, "permission.asked") {
        match read_permission(p) {
            Some(m) => ServerEvent::PermissionAsked(m),
            None => ServerEvent::Other,
        }
    } else if same(kind, "workflow.started") {
        ServerEvent::Workflow(read_workflow(WfPhase::Started, p))
    } else if same(kind, "workflow.progress") {
        ServerEvent::Workflow(read_workflow(WfPhase::Progress, p))
    } else if same(kind, "workflow.done") {
        ServerEvent::Workflow(read_workflow(WfPhase::Done, p))
    } else if same(kind, "workflow.subagent") {
        ServerEvent::Subagent(read_subagent(p))
    } else if same(kind, "question.asked") {
        match read_question(p) {
            Some(q) => ServerEvent::QuestionAsked(q),
            None => ServerEvent::Other,
        }
    } else {
        match member_string(p, "sessionID") {
            Some(id) => read_session_event(kind, id, p),
            None => ServerEvent::Other,
        }
    }
}

/// What the envelope `v` says.
pub fn event_from_value(v: &serde_json::Value) -> (r: ServerEvent)
    ensures
        r.deep_view() == event_of(contents(*v)),
{
    if !fits_record(v, 2) {
        return ServerEvent::Other;
    }
    match text_field(v, "type", 0) {
        Some(kind) => match field(v, "properties", 1) {
            Some(p) => read_named(kind.as_str(), p),
            None => {
                let nothing = null_value();
                read_named(kind.as_str(), &nothing)
            },
        },
        None => ServerEvent::Other,
    }
}

/// Parses a `/event` envelope frame. Unknown envelope types and malformed
/// frames give [`ServerEvent::Other`].
#[must_use]
pub fn decode_event(frame: &str) -> (r: ServerEvent)
    ensures
        r.deep_view() == (match parsed(frame@) {
            Some(v) => event_of(v),
            None => ServerEventModel::Other,
        }),
{
    match parse(frame) {
        Some(v) => event_from_value(&v),
        None => ServerEvent::Other,
    }
}

// ---------------------------------------------------------------------------
// Laws of envelopes
// ---------------------------------------------------------------------------

/// Whether `v` is the envelope of type `kind` with the properties `p`.
pub open spec fn is_envelope(v: Json, kind: Seq<char>, p: Json) -> bool {
    &&& v is Object
    &&& v.member("type"@) == Some(Json::Text(kind))
    &&& v.member("properties"@) == Some(p)
}

/// Whether an object holds a text, or does not mention it.
pub open spec fn says(p: Json, key: Seq<char>, text: Option<Seq<char>>) -> bool {
    p.member(key) == match text {
        Some(t) => Some(Json::Text(t)),
        None => None,
    }
}

/// Whether the properties `p` hold the fields of a workflow message.
pub open spec fn tells_workflow(p: Json, m: WorkflowMsgModel) -> bool {
    &&& says(p, "session"@, Some(m.session))
    &&& says(p, "kind"@, Some(m.kind))
    &&& says(p, "arg"@, m.arg)
    &&& p.member("task_index"@) == match m.task_index {
        Some(n) => Some(Json::Unsigned(n as u64)),
        None => None,
    }
    &&& says(p, "status"@, m.status)
    &&& says(p, "notes"@, Some(m.notes))
    &&& p.member("ok"@) == match m.ok {
        Some(b) => Some(Json::Bool(b)),
        None => None,
    }
    &&& says(p, "summary"@, m.summary)
    &&& says(p, "error"@, m.error)
}

proof fn lemma_kinds_differ()
    ensures
        "server.connected"@.len() == 16,
        "permission.asked"@.len() == 16,
        "permission.asked"@[0] == 'p',
        "server.connected"@[0] == 's',
        "workflow.started"@.len() == 16,
        "workflow.started"@[0] == 'w',
        "workflow.progress"@.len() == 17,
        "workflow.progress"@[9] == 'p',
        "workflow.done"@.len() == 13,
        "workflow.subagent"@.len() == 17,
        "workflow.subagent"@[9] == 's',
        "question.asked"@.len() == 14,
        "session.busy"@.len() == 12,
        "session.busy"@[8] == 'b',
        "session.idle"@.len() == 12,
        "session.idle"@[8] == 'i',
        "session.created"@.len() == 15,
        "permission.mode_changed"@.len() == 23,
{
    reveal_strlit("server.connected");
    reveal_strlit("permission.asked");
    reveal_strlit("workflow.started");
    reveal_strlit("workflow.progress");
    reveal_strlit("workflow.done");
    reveal_strlit("workflow.subagent");
    reveal_strlit("question.asked");
    reveal_strlit("session.busy");
    reveal_strlit("session.idle");
    reveal_strlit("session.created");
    reveal_strlit("permission.mode_changed");
}

/// Decoding reads back what was encoded: the envelope that holds a workflow message,
/// field by field, gives that message.
pub proof fn law_workflow_events_read_back(
    frame: &str,
    v: Json,
    p: Json,
    m: WorkflowMsgModel,
    r: ServerEvent,
)
    requires
        call_ensures(decode_event, (frame,), r),
        parsed(frame@) == Some(v),
        is_envelope(
            v,
            match m.phase {
                WfPhase::Started => "workflow.started"@,
                WfPhase::Progress => "workflow.progress"@,
                WfPhase::Done => "workflow.done"@,
            },
            p,
        ),
        tells_workflow(p, m),
    ensures
        r.deep_view() == ServerEventModel::Workflow(m),
{
    lemma_kinds_differ();
}

/// A line of subagent activity reads back.
pub proof fn law_subagent_events_read_back(
    frame: &str,
    v: Json,
    p: Json,
    m: SubagentMsgModel,
    r: ServerEvent,
)
    requires
        call_ensures(decode_event, (frame,), r),
        parsed(frame@) == Some(v),
        is_envelope(v, "workflow.subagent"@, p),
        says(p, "session"@, Some(m.session)),
        p.member("task_index"@) == Some(Json::Unsigned(m.task_index as u64)),
        says(p, "verb"@, Some(m.verb)),
        says(p, "detail"@, Some(m.detail)),
    ensures
        r.deep_view() == ServerEventModel::Subagent(m),
{
    lemma_kinds_differ();
}

/// A permission ask reads back, its patterns in order; they may be left out where there
/// are none.
pub proof fn law_permission_asks_read_back(
    frame: &str,
    v: Json,
    p: Json,
    m: PermissionAskedModel,
    r: ServerEvent,
)
    requires
        call_ensures(decode_event, (frame,), r),
        parsed(frame@) == Some(v),
        is_envelope(v, "permission.asked"@, p),
        p is Object,
        says(p, "id"@, Some(m.id)),
        says(p, "sessionID"@, Some(m.session_id)),
        says(p, "permission"@, Some(m.permission)),
        match p.member("patterns"@) {
            Some(Json::Array(items)) => items.len() == m.patterns.len() && forall|i: int|
                0 <= i < items.len() ==> (#[trigger] items[i]) == Json::Text(m.patterns[i]),
            Some(_) => false,
            None => m.patterns.len() == 0,
        },
    ensures
        r.deep_view() == ServerEventModel::PermissionAsked(m),
{
    lemma_kinds_differ();
    let got = permission_of(p);
    match p.member("patterns"@) {
        Some(Json::Array(items)) => {
            assert(all_texts(items) is Some);
            assert(all_texts(items)->0 =~= m.patterns);
        },
        _ => {
            assert(m.patterns =~= Seq::<Seq<char>>::empty());
        },
    }
    assert(got == Some(m));
}

/// Whether `v` holds an answer that a question offers.
pub open spec fn tells_option(v: Json, m: QuestionOptionViewModel) -> bool {
    says(v, "label"@, Some(m.label)) && says(v, "description"@, Some(m.description))
}

/// Whether `v` holds a question.
pub open spec fn tells_prompt(v: Json, m: QuestionPromptViewModel) -> bool {
    &&& says(v, "question"@, Some(m.question))
    &&& says(v, "header"@, Some(m.header))
    &&& v.member("multiple"@) == Some(Json::Bool(m.multiple))
    &&& v.member("options"@) matches Some(Json::Array(items)) && items.len() == m.options.len()
        && forall|i: int|
        0 <= i < items.len() ==> tells_option(#[trigger] items[i], m.options[i])
}

/// A question ask reads back, its questions and their answers in order.
pub proof fn law_question_asks_read_back(
    frame: &str,
    v: Json,
    p: Json,
    items: Seq<Json>,
    m: QuestionAskedModel,
    r: ServerEvent,
)
    requires
        call_ensures(decode_event, (frame,), r),
        parsed(frame@) == Some(v),
        is_envelope(v, "question.asked"@, p),
        says(p, "id"@, Some(m.id)),
        says(p, "sessionID"@, Some(m.session_id)),
        p.member("questions"@) == Some(Json::Array(items)),
        items.len() == m.questions.len(),
        forall|i: int| 0 <= i < items.len() ==> tells_prompt(#[trigger] items[i], m.questions[i]),
    ensures
        r.deep_view() == ServerEventModel::QuestionAsked(m),
{
    lemma_kinds_differ();
    assert forall|i: int| 0 <= i < items.len() implies prompt_of(#[trigger] items[i]) == Some(
        m.questions[i],
    ) by {
        let want = m.questions[i];
        assert(tells_prompt(items[i], want));
        let os = items[i].member("options"@)->0->Array_0;
        assert forall|k: int| 0 <= k < os.len() implies option_of(#[trigger] os[k]) == Some(
            want.options[k],
        ) by {
            assert(tells_option(os[k], want.options[k]));
        }
        assert(options_of(os)->0 =~= want.options);
    }
    assert(prompts_of(items)->0 =~= m.questions);
}

/// The pushes about a session read back: that it is busy, idle or new, and which
/// permission mode it has.
pub proof fn law_session_events_read_back(
    frame: &str,
    v: Json,
    p: Json,
    m: ServerEventModel,
    r: ServerEvent,
)
    requires
        call_ensures(decode_event, (frame,), r),
        parsed(frame@) == Some(v),
        match m {
            ServerEventModel::SessionBusy { session_id } => is_envelope(v, "session.busy"@, p)
                && says(p, "sessionID"@, Some(session_id)),
            ServerEventModel::SessionIdle { session_id } => is_envelope(v, "session.idle"@, p)
                && says(p, "sessionID"@, Some(session_id)),
            ServerEventModel::SessionCreated { session_id, title, parent_id } => is_envelope(
                v,
                "session.created"@,
                p,
            ) && says(p, "sessionID"@, Some(session_id)) && says(p, "title"@, title) && says(
                p,
                "parentID"@,
                parent_id,
            ),
            ServerEventModel::PermissionModeChanged { session_id, mode } => is_envelope(
                v,
                "permission.mode_changed"@,
                p,
            ) && says(p, "sessionID"@, Some(session_id)) && says(p, "mode"@, Some(mode)),
            ServerEventModel::Connected => is_envelope(v, "server.connected"@, p),
            _ => false,
        },
    ensures
        r.deep_view() == m,
{
    lemma_kinds_differ();
}

/// A frame that is no envelope, or one of a type that nothing is known of, says nothing
/// that is acted on.
pub proof fn law_unknown_events_say_nothing(frame: &str, r: ServerEvent)
    requires
        call_ensures(decode_event, (frame,), r),
        match parsed(frame@) {
            Some(v) => match v.member("type"@) {
                Some(Json::Text(kind)) => !(seq![
                    "server.connected"@,
                    "permission.asked"@,
                    "permission.mode_changed"@,
                    "question.asked"@,
                    "workflow.started"@,
                    "workflow.progress"@,
                    "workflow.done"@,
                    "workflow.subagent"@,
                    "session.busy"@,
                    "session.idle"@,
                    "session.created"@,
                ].contains(kind)),
                _ => !(v is Array),
            },
            None => true,
        },
    ensures
        r.deep_view() == ServerEventModel::Other,
{
    if let Some(v) = parsed(frame@) {
        if let Some(Json::Text(kind)) = v.member("type"@) {
            let known = seq![
                "server.connected"@,
                "permission.asked"@,
                "permission.mode_changed"@,
                "question.asked"@,
                "workflow.started"@,
                "workflow.progress"@,
                "workflow.done"@,
                "workflow.subagent"@,
                "session.busy"@,
                "session.idle"@,
                "session.created"@,
            ];
            assert forall|i: int| 0 <= i < known.len() implies #[trigger] known[i] != kind by {
                if known[i] == kind {
                    assert(known.contains(kind));
                }
            }
            assert(known[0] != kind && known[1] != kind && known[2] != kind && known[3] != kind
                && known[4] != kind && known[5] != kind && known[6] != kind && known[7] != kind
                && known[8] != kind && known[9] != kind && known[10] != kind);
        }
    }
}

proof fn lemma_data_lines(ls: Seq<Seq<char>>, data: Seq<Seq<char>>)
    requires
        ls.len() == data.len(),
        forall|i: int| 0 <= i < ls.len() ==> (#[trigger] ls[i]) == "data: "@ + data[i],
    ensures
        data_lines(ls) == data,
    decreases ls.len(),
{
    if ls.len() == 0 {
        assert(data =~= Seq::empty());
    } else {
        assert forall|i: int| 0 <= i < ls.drop_last().len() implies (#[trigger] ls.drop_last()[i])
            == "data: "@ + data.drop_last()[i] by {
            assert(ls.drop_last()[i] == ls[i]);
        }
        lemma_data_lines(ls.drop_last(), data.drop_last());
        assert(ls[ls.len() - 1] == "data: "@ + data.last());
        reveal_strlit("data: ");
        reveal_strlit("data:");
        reveal_strlit(" ");
        let l = ls.last();
        let d = data.last();
        assert("data:"@.is_prefix_of(l));
        assert(l.skip(5) =~= " "@ + d);
        assert((" "@ + d).skip(1) =~= d);
        assert(" "@.is_prefix_of(" "@ + d));
        assert(line_data(l) == Some(d));
        assert(data.drop_last().push(d) =~= data);
    }
}

/// A frame carries what stands on its `data:` lines, in order, and nothing else.
pub proof fn law_a_frame_carries_its_data(data: Seq<Seq<char>>, frame: Seq<char>)
    requires
        data.len() > 0,
        lines_of(frame).len() == data.len(),
        forall|i: int|
            0 <= i < data.len() ==> (#[trigger] lines_of(frame)[i]) == "data: "@ + data[i],
    ensures
        frame_data(frame) == Some(joined(data, "\n"@)),
{
    lemma_data_lines(lines_of(frame), data);
}

/// Lines that begin otherwise carry nothing: a frame of comments and ids yields none.
pub proof fn law_other_lines_carry_nothing(frame: Seq<char>)
    requires
        forall|i: int|
            0 <= i < lines_of(frame).len() ==> !"data:"@.is_prefix_of(
                #[trigger] lines_of(frame)[i],
            ),
    ensures
        frame_data(frame) is None,
{
    lemma_no_data(lines_of(frame));
}

proof fn lemma_no_data(ls: Seq<Seq<char>>)
    requires
        forall|i: int| 0 <= i < ls.len() ==> !"data:"@.is_prefix_of(#[trigger] ls[i]),
    ensures
        data_lines(ls).len() == 0,
    decreases ls.len(),
{
    if ls.len() > 0 {
        assert forall|i: int| 0 <= i < ls.drop_last().len() implies !"data:"@.is_prefix_of(
            #[trigger] ls.drop_last()[i],
        ) by {
            assert(ls.drop_last()[i] == ls[i]);
        }
        lemma_no_data(ls.drop_last());
        assert(!"data:"@.is_prefix_of(ls[ls.len() - 1]));
    }
}

/// A frame ends at the first pair of line feeds: what stands before it is yielded, what
/// follows is framed by itself, and bytes without such a pair wait.
pub proof fn law_a_frame_ends_at_a_pair_of_feeds(frame: Seq<u8>, rest: Seq<u8>)
    requires
        forall|i: int| 0 <= i && i + 1 < frame.len() ==> !((#[trigger] frame[i]) == 10 && frame[i + 1] == 10),
        frame.len() > 0 ==> frame.last() != 10,
    ensures
        payloads(frame).len() == 0 && unfinished(frame) == frame,
        payloads(frame + seq![10u8, 10u8] + rest) == (match frame_data(
            if valid_utf8(frame) {
                decode_utf8(frame)
            } else {
                lossy(frame)
            },
        ) {
            Some(d) => seq![d],
            None => Seq::empty(),
        }) + payloads(rest),
        unfinished(frame + seq![10u8, 10u8] + rest) == unfinished(rest),
{
    let n = frame.len() as int;
    let s = frame + seq![10u8, 10u8] + rest;
    assert(forall|i: int| 0 <= i < n ==> s[i] == frame[i]);
    assert(s[n] == 10 && s[n + 1] == 10);
    assert forall|j: int| 0 <= j < n implies !(#[trigger] is_gap(s, j)) by {
        if j + 1 < n {
            assert(!(frame[j] == 10 && frame[j + 1] == 10));
        } else {
            assert(frame.last() == frame[j]);
        }
    }
    lemma_first_gap_is(s, n);
    assert(s.take(n) =~= frame);
    assert(s.skip(n + 2) =~= rest);
    assert(Seq::<Seq<char>>::empty() + payloads(rest) =~= payloads(rest));
    assert forall|j: int| 0 <= j < n implies !(#[trigger] is_gap(frame, j)) by {
        if j + 1 < n {
            assert(!(frame[j] == 10 && frame[j + 1] == 10));
        }
    }
    lemma_first_gap_is(frame, n);
}

} // verus!
