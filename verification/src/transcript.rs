//! The transcript: what it holds, and how tool calls, todo lists and stored
//! history become its items.

use crate::events::{ToolOutput, ToolOutputModel, ToolResultValue, ToolResultValueModel};
use crate::json::{
    as_str, contents, contents_all, contents_opt, copy_value, get, member_array, member_or_empty,
    member_string, member_text, or_empty, rendered, to_text, Json,
};
use crate::text::{cat, contains, has, join, joined, lowered, same, to_lower};
use std::collections::BTreeMap;
use vstd::prelude::*;
use vstd::string::*;

verus! {

/// Lifecycle of a tool call as seen from the event stream.
#[derive(Debug, Clone, Copy, PartialEq, Eq, Structural)]
pub enum ToolStatus {
    Running,
    Success,
    Error,
}

/// Status of a todo item, as the `todowrite` tool reports it.
#[derive(Debug, Clone, Copy, PartialEq, Eq, Structural)]
pub enum TodoStatus {
    Pending,
    InProgress,
    Completed,
    Cancelled,
}

/// A todo item from the most recent `todowrite` tool call.
#[derive(Debug, PartialEq)]
pub struct TodoItem {
    pub content: String,
    pub status: TodoStatus,
}

/// The value of a [`TodoItem`].
#[verifier::ext_equal]
pub struct TodoItemModel {
    pub content: Seq<char>,
    pub status: TodoStatus,
}

impl DeepView for TodoItem {
    type V = TodoItemModel;

    open spec fn deep_view(&self) -> TodoItemModel {
        TodoItemModel {
            content: self.content.deep_view(),
            status: self.status,
        }
    }
}

/// One rendered group of lines in the transcript.
#[derive(Debug)]
pub enum TranscriptItem {
    User(String),
    Assistant(String),
    Reasoning(String),
    /// A turn-fatal error, kept in the scrollback so that the reason survives.
    Error(String),
    /// A workflow lifecycle line or another dim system line.
    Workflow(String),
    /// A tool call: its arguments and result, and whether its detail is shown.
    Tool { name: String, status: ToolStatus, title: String, input: Option<serde_json::Value>, output: Option<String>, expanded: bool },
}

/// The value of a [`TranscriptItem`].
#[verifier::ext_equal]
pub enum TranscriptItemModel {
    User(Seq<char>),
    Assistant(Seq<char>),
    Reasoning(Seq<char>),
    Error(Seq<char>),
    Workflow(Seq<char>),
    Tool { name: Seq<char>, status: ToolStatus, title: Seq<char>, input: Option<Json>, output: Option<Seq<char>>, expanded: bool },
}

impl DeepView for TranscriptItem {
    type V = TranscriptItemModel;

    open spec fn deep_view(&self) -> TranscriptItemModel {
        match self {
            TranscriptItem::User(a) => TranscriptItemModel::User(a.deep_view()),
            TranscriptItem::Assistant(a) => TranscriptItemModel::Assistant(a.deep_view()),
            TranscriptItem::Reasoning(a) => TranscriptItemModel::Reasoning(a.deep_view()),
            TranscriptItem::Error(a) => TranscriptItemModel::Error(a.deep_view()),
            TranscriptItem::Workflow(a) => TranscriptItemModel::Workflow(a.deep_view()),
            TranscriptItem::Tool { name, status, title, input, output, expanded } => TranscriptItemModel::Tool { name: name.deep_view(), status: *status, title: title.deep_view(), input: contents_opt(*input), output: output.deep_view(), expanded: *expanded },
        }
    }
}

/// Live view of a workflow run: the latest status and notes of each task, by its
/// index, and, once the run is done, whether it succeeded.
#[derive(Debug, PartialEq)]
pub struct WorkflowView {
    pub kind: String,
    pub arg: String,
    pub session: String,
    pub tasks: BTreeMap<u32, (String, String)>,
    pub done: Option<bool>,
}

/// The value of a [`WorkflowView`].
#[verifier::ext_equal]
pub struct WorkflowViewModel {
    pub kind: Seq<char>,
    pub arg: Seq<char>,
    pub session: Seq<char>,
    pub tasks: Map<u32, (Seq<char>, Seq<char>)>,
    pub done: Option<bool>,
}

/// What tasks say.
pub open spec fn task_texts(tasks: Map<u32, (String, String)>) -> Map<u32, (Seq<char>, Seq<char>)> {
    tasks.map_values(|t: (String, String)| (t.0@, t.1@))
}

impl DeepView for WorkflowView {
    type V = WorkflowViewModel;

    open spec fn deep_view(&self) -> WorkflowViewModel {
        WorkflowViewModel {
            kind: self.kind.deep_view(),
            arg: self.arg.deep_view(),
            session: self.session.deep_view(),
            tasks: task_texts(self.tasks@),
            done: self.done,
        }
    }
}

// ---------------------------------------------------------------------------
// Todo lists
// ---------------------------------------------------------------------------

/// The status that a status word stands for; pending where it is unknown.
pub open spec fn todo_status(s: Seq<char>) -> TodoStatus {
    if s == "in_progress"@ {
        TodoStatus::InProgress
    } else if s == "completed"@ {
        TodoStatus::Completed
    } else if s == "cancelled"@ {
        TodoStatus::Cancelled
    } else {
        TodoStatus::Pending
    }
}

impl TodoStatus {
    /// The status that a status word stands for; pending where it is unknown.
    pub fn from_status_str(s: &str) -> (r: Self)
        ensures
            r == todo_status(s@),
    {
        if same(s, "in_progress") {
            TodoStatus::InProgress
        } else if same(s, "completed") {
            TodoStatus::Completed
        } else if same(s, "cancelled") {
            TodoStatus::Cancelled
        } else {
            TodoStatus::Pending
        }
    }
}

/// A todo item as the tool's input gives it.
pub open spec fn todo_of(v: Json) -> TodoItemModel {
    TodoItemModel {
        content: or_empty(v.text_member("content"@)),
        status: todo_status(or_empty(v.text_member("status"@))),
    }
}

/// The todo list in a tool input; empty where it has none.
pub open spec fn todos_of(input: Json) -> Seq<TodoItemModel> {
    match input.items_member("todos"@) {
        Some(items) => items.map_values(|v: Json| todo_of(v)),
        None => Seq::empty(),
    }
}

/// Reads `input.todos` as a list; empty where it is missing or no list.
pub fn parse_todos(input: &serde_json::Value) -> (r: Vec<TodoItem>)
    ensures
        r.deep_view() == todos_of(contents(*input)),
{
    let mut out: Vec<TodoItem> = Vec::new();
    assert(out.deep_view() =~= Seq::<TodoItemModel>::empty());
    if let Some(items) = member_array(input, "todos") {
        let ghost all = contents_all(items@);
        let ghost f = |v: Json| todo_of(v);
        let mut i: usize = 0;
        assert(all.take(0).map_values(f) =~= Seq::<TodoItemModel>::empty());
        while i < items.len()
            invariant
                i <= items@.len(),
                all == contents_all(items@),
                f == (|v: Json| todo_of(v)),
                out.deep_view() == all.take(i as int).map_values(f),
            decreases items@.len() - i,
        {
            let ghost before = out.deep_view();
            let status = member_or_empty(&items[i], "status");
            let item = TodoItem {
                content: member_or_empty(&items[i], "content"),
                status: TodoStatus::from_status_str(status.as_str()),
            };
            let ghost m = item.deep_view();
            out.push(item);
            proof {
                assert(all[i as int] == contents(items@[i as int]));
                assert(m == f(all[i as int]));
                assert(out.deep_view() =~= before.push(m));
                assert(all.take(i + 1).map_values(f) =~= before.push(m));
            }
            i += 1;
        }
        assert(all.take(i as int) =~= all);
    }
    out
}

// ---------------------------------------------------------------------------
// Tool calls
// ---------------------------------------------------------------------------

/// The argument that names a tool call: the first of `path`, `filePath`,
/// `command` and `pattern` that is there.
pub open spec fn naming_argument(input: Json) -> Option<Json> {
    if input.member("path"@) is Some {
        input.member("path"@)
    } else if input.member("filePath"@) is Some {
        input.member("filePath"@)
    } else if input.member("command"@) is Some {
        input.member("command"@)
    } else {
        input.member("pattern"@)
    }
}

/// A tool call's title: its name and, where it is a text, the naming argument.
pub open spec fn titled(name: Seq<char>, input: Json) -> Seq<char> {
    match naming_argument(input) {
        Some(v) => match v.text() {
            Some(a) => name + " "@ + a,
            None => name,
        },
        None => name,
    }
}

/// A short title for a tool call, such as `read src/main.rs`.
pub fn tool_title(name: &str, input: &serde_json::Value) -> (r: String)
    ensures
        r@ == titled(name@, contents(*input)),
{
    let arg = match get(input, "path") {
        Some(v) => Some(v),
        None => match get(input, "filePath") {
            Some(v) => Some(v),
            None => match get(input, "command") {
                Some(v) => Some(v),
                None => get(input, "pattern"),
            },
        },
    };
    if let Some(v) = arg {
        if let Some(a) = as_str(v) {
            let mut out = cat(name, " ");
            out.append(a);
            return out;
        }
    }
    name.to_owned()
}

/// The texts of the blocks that have one.
pub open spec fn block_texts(blocks: Seq<Json>) -> Seq<Seq<char>>
    decreases blocks.len(),
{
    if blocks.len() == 0 {
        Seq::empty()
    } else {
        let before = block_texts(blocks.drop_last());
        match blocks.last().text_member("text"@) {
            Some(t) => before.push(t),
            None => before,
        }
    }
}

/// A value as display text: a text as it is, anything else as JSON.
pub open spec fn display_text(v: Json) -> Seq<char> {
    match v.text() {
        Some(s) => s,
        None => rendered(v),
    }
}

/// The display text of a structured output, unless it is null.
pub open spec fn structured_text(output: Option<ToolOutputModel>) -> Option<Seq<char>> {
    match output {
        Some(o) => if rendered(o.structured) == "null"@ {
            None
        } else {
            Some(rendered(o.structured))
        },
        None => None,
    }
}

/// The display text of a finished tool call: that of its result, or of its
/// structured output where the result has none.
pub open spec fn output_text(
    result: ToolResultValueModel,
    output: Option<ToolOutputModel>,
) -> Option<Seq<char>> {
    match result {
        ToolResultValueModel::Text { value } => Some(display_text(value)),
        ToolResultValueModel::Json { value } => Some(display_text(value)),
        ToolResultValueModel::Error { value } => Some(display_text(value)),
        ToolResultValueModel::Content { value } => {
            let text = joined(block_texts(value), "\n"@);
            if text.len() > 0 {
                Some(text)
            } else {
                structured_text(output)
            }
        },
    }
}

/// A value as display text.
fn value_text(v: &serde_json::Value) -> (r: String)
    ensures
        r@ == display_text(contents(*v)),
{
    match as_str(v) {
        Some(s) => s.to_owned(),
        None => to_text(v),
    }
}

/// The texts of the blocks that have one.
fn texts_of(blocks: &[serde_json::Value]) -> (r: Vec<String>)
    ensures
        r.deep_view() == block_texts(contents_all(blocks@)),
{
    let ghost all = contents_all(blocks@);
    let mut out: Vec<String> = Vec::new();
    let mut i: usize = 0;
    assert(out.deep_view() =~= Seq::<Seq<char>>::empty());
    while i < blocks.len()
        invariant
            i <= blocks@.len(),
            all == contents_all(blocks@),
            out.deep_view() == block_texts(all.take(i as int)),
        decreases blocks@.len() - i,
    {
        let ghost before = out.deep_view();
        proof {
            assert(all.take(i + 1).drop_last() =~= all.take(i as int));
            assert(all[i as int] == contents(blocks@[i as int]));
        }
        if let Some(t) = member_text(&blocks[i], "text") {
            out.push(t.to_owned());
            assert(out.deep_view() =~= before.push(t@));
        }
        i += 1;
    }
    assert(all.take(i as int) =~= all);
    out
}

/// The display text of a finished tool call.
pub fn tool_output_text(result: &ToolResultValue, output: &Option<ToolOutput>) -> (r: Option<String>)
    ensures
        r.deep_view() == output_text(result.deep_view(), output.deep_view()),
{
    match result {
        ToolResultValue::Text { value } => Some(value_text(value)),
        ToolResultValue::Json { value } => Some(value_text(value)),
        ToolResultValue::Error { value } => Some(value_text(value)),
        ToolResultValue::Content { value } => {
            let texts = texts_of(value);
            let text = join(&texts, "\n");
            if !text.as_str().is_empty() {
                return Some(text);
            }
            match output {
                Some(o) => {
                    let s = to_text(&o.structured);
                    if same(s.as_str(), "null") {
                        None
                    } else {
                        Some(s)
                    }
                },
                None => None,
            }
        },
    }
}

/// Whether an error message reads as a rate limit.
pub open spec fn rate_limited(message: Seq<char>) -> bool {
    let m = lowered(message);
    has(m, "429"@) || has(m, "rate limit"@) || has(m, "too many requests"@) || has(m, "overloaded"@)
}

/// Whether an error message reads as a rate limit, without regard to ASCII case.
pub fn is_rate_limit(message: &str) -> (r: bool)
    ensures
        r == rate_limited(message@),
{
    let m = to_lower(message);
    contains(m.as_str(), "429") || contains(m.as_str(), "rate limit") || contains(
        m.as_str(),
        "too many requests",
    ) || contains(m.as_str(), "overloaded")
}

// ---------------------------------------------------------------------------
// Workflow tasks
// ---------------------------------------------------------------------------

/// Whether `keys` are the numbers of `set`, each once, in ascending order.
pub open spec fn ascends(keys: Seq<u32>, set: Set<u32>) -> bool {
    &&& forall|k: u32| set.contains(k) <==> #[trigger] keys.contains(k)
    &&& forall|i: int, j: int| 0 <= i < j < keys.len() ==> #[trigger] keys[i] < #[trigger] keys[j]
}

/// The indices of tasks, in ascending order.
pub open spec fn task_order(tasks: Map<u32, (Seq<char>, Seq<char>)>) -> Seq<u32> {
    choose|keys: Seq<u32>| ascends(keys, tasks.dom())
}

proof fn lemma_ascends_at(a: Seq<u32>, b: Seq<u32>, set: Set<u32>, i: int)
    requires
        ascends(a, set),
        ascends(b, set),
        0 <= i < a.len(),
    ensures
        i < b.len(),
        a[i] == b[i],
    decreases i,
{
    assert forall|j: int| 0 <= j < i implies j < b.len() && a[j] == b[j] by {
        lemma_ascends_at(a, b, set, j);
    }
    assert(a.contains(a[i]));
    assert(b.contains(a[i]));
    let p = choose|p: int| 0 <= p < b.len() && b[p] == a[i];
    if p < i {
        assert(a[p] == b[p]);
    }
    if p > i {
        assert(b.contains(b[i]));
        assert(a.contains(b[i]));
        let q = choose|q: int| 0 <= q < a.len() && a[q] == b[i];
        if q < i {
            assert(a[q] == b[q]);
        }
    }
}

impl WorkflowView {
    /// How many tasks the run has shown.
    pub fn task_count(&self) -> (r: usize)
        ensures
            r == self.deep_view().tasks.len(),
    {
        assert(self.deep_view().tasks.dom() =~= self.tasks@.dom());
        self.tasks.len()
    }
}

/// There is one way to list tasks in ascending order of their indices.
pub proof fn law_tasks_have_one_order(
    keys: Seq<u32>,
    tasks: Map<u32, (Seq<char>, Seq<char>)>,
)
    requires
        ascends(keys, tasks.dom()),
    ensures
        task_order(tasks) == keys,
{
    let other = task_order(tasks);
    assert(ascends(other, tasks.dom()));
    assert forall|i: int| 0 <= i < keys.len() implies i < other.len() && keys[i] == other[i] by {
        lemma_ascends_at(keys, other, tasks.dom(), i);
    }
    if other.len() > keys.len() {
        lemma_ascends_at(other, keys, tasks.dom(), keys.len() as int);
    }
    if keys.len() > other.len() {
        lemma_ascends_at(keys, other, tasks.dom(), other.len() as int);
    }
    assert(keys =~= other);
}

// ---------------------------------------------------------------------------
// Stored history
// ---------------------------------------------------------------------------

/// The role of a stored message; empty where it has none.
pub open spec fn role_of(row: Json) -> Seq<char> {
    match row.member("info"@) {
        Some(i) => or_empty(i.text_member("role"@)),
        None => Seq::empty(),
    }
}

/// The status of a stored tool call.
pub open spec fn stored_status(state: Option<Json>) -> ToolStatus {
    match state {
        Some(s) => {
            let word = s.text_member("status"@);
            if word == Some("error"@) {
                ToolStatus::Error
            } else if word == Some("running"@) || word == Some("pending"@) {
                ToolStatus::Running
            } else {
                ToolStatus::Success
            }
        },
        None => ToolStatus::Success,
    }
}

/// The transcript item of a stored tool call.
pub open spec fn stored_tool(part: Json) -> TranscriptItemModel {
    let name = match part.text_member("tool"@) {
        Some(n) => n,
        None => "tool"@,
    };
    let state = part.member("state"@);
    let input = match state {
        Some(s) => s.member("input"@),
        None => None,
    };
    TranscriptItemModel::Tool {
        name,
        status: stored_status(state),
        title: match input {
            Some(i) => titled(name, i),
            None => name,
        },
        input,
        output: match state {
            Some(s) => match s.text_member("output"@) {
                Some(o) => Some(o),
                None => s.text_member("error"@),
            },
            None => None,
        },
        expanded: false,
    }
}

/// What stored history amounts to: transcript items, and the latest todo list.
#[verifier::ext_equal]
pub struct History {
    pub items: Seq<TranscriptItemModel>,
    pub todos: Seq<TodoItemModel>,
}

impl History {
    /// With one more part of a message.
    pub open spec fn with_part(self, role: Seq<char>, part: Json) -> History {
        let kind = or_empty(part.text_member("type"@));
        if kind == "text"@ {
            match part.text_member("text"@) {
                Some(t) => History {
                    items: self.items.push(
                        if role == "user"@ {
                            TranscriptItemModel::User(t)
                        } else {
                            TranscriptItemModel::Assistant(t)
                        },
                    ),
                    ..self
                },
                None => self,
            }
        } else if kind == "reasoning"@ {
            match part.text_member("text"@) {
                Some(t) => History {
                    items: self.items.push(TranscriptItemModel::Reasoning(t)),
                    ..self
                },
                None => self,
            }
        } else if kind == "tool"@ {
            let tool = stored_tool(part);
            History {
                items: self.items.push(tool),
                todos: if tool->name == "todowrite"@ && tool->input is Some && tool->input->0.member(
                    "todos"@,
                ) is Some {
                    todos_of(tool->input->0)
                } else {
                    self.todos
                },
            }
        } else {
            self
        }
    }

    /// With the parts of a message.
    pub open spec fn with_parts(self, role: Seq<char>, parts: Seq<Json>) -> History
        decreases parts.len(),
    {
        if parts.len() == 0 {
            self
        } else {
            self.with_parts(role, parts.drop_last()).with_part(role, parts.last())
        }
    }

    /// With one more message.
    pub open spec fn with_row(self, row: Json) -> History {
        match row.items_member("parts"@) {
            Some(parts) => self.with_parts(role_of(row), parts),
            None => self,
        }
    }
}

/// What the stored messages `rows` amount to.
pub open spec fn history_of(rows: Seq<Json>) -> History
    decreases rows.len(),
{
    if rows.len() == 0 {
        History { items: Seq::empty(), todos: Seq::empty() }
    } else {
        history_of(rows.drop_last()).with_row(rows.last())
    }
}

/// Reads the role of a stored message.
fn read_role(row: &serde_json::Value) -> (r: String)
    ensures
        r@ == role_of(contents(*row)),
{
    match get(row, "info") {
        Some(i) => member_or_empty(i, "role"),
        None => String::new(),
    }
}

/// Reads the status of a stored tool call.
fn read_status(state: Option<&serde_json::Value>) -> (r: ToolStatus)
    ensures
        r == stored_status(
            match state {
                Some(s) => Some(contents(*s)),
                None => None,
            },
        ),
{
    match state {
        Some(s) => match member_text(s, "status") {
            Some(w) => {
                if same(w, "error") {
                    ToolStatus::Error
                } else if same(w, "running") || same(w, "pending") {
                    ToolStatus::Running
                } else {
                    ToolStatus::Success
                }
            },
            None => ToolStatus::Success,
        },
        None => ToolStatus::Success,
    }
}

/// Appends one part of a stored message.
fn add_part(
    items: &mut Vec<TranscriptItem>,
    todos: &mut Vec<TodoItem>,
    role: &str,
    part: &serde_json::Value,
)
    ensures
        (History { items: final(items).deep_view(), todos: final(todos).deep_view() }) == (History {
            items: old(items).deep_view(),
            todos: old(todos).deep_view(),
        }).with_part(role@, contents(*part)),
{
    let ghost before = items.deep_view();
    let kind = member_or_empty(part, "type");
    if same(kind.as_str(), "text") {
        if let Some(t) = member_text(part, "text") {
            if same(role, "user") {
                items.push(TranscriptItem::User(t.to_owned()));
                assert(items.deep_view() =~= before.push(TranscriptItemModel::User(t@)));
            } else {
                items.push(TranscriptItem::Assistant(t.to_owned()));
                assert(items.deep_view() =~= before.push(TranscriptItemModel::Assistant(t@)));
            }
        }
    } else if same(kind.as_str(), "reasoning") {
        if let Some(t) = member_text(part, "text") {
            items.push(TranscriptItem::Reasoning(t.to_owned()));
            assert(items.deep_view() =~= before.push(TranscriptItemModel::Reasoning(t@)));
        }
    } else if same(kind.as_str(), "tool") {
        let name: String = match member_text(part, "tool") {
            Some(n) => n.to_owned(),
            None => "tool".to_owned(),
        };
        let state = get(part, "state");
        let status = read_status(state);
        let input: Option<serde_json::Value> = match state {
            Some(s) => match get(s, "input") {
                Some(i) => Some(copy_value(i)),
                None => None,
            },
            None => None,
        };
        let output: Option<String> = match state {
            Some(s) => match member_string(s, "output") {
                Some(o) => Some(o),
                None => member_string(s, "error"),
            },
            None => None,
        };
        let title: String = match &input {
            Some(i) => tool_title(name.as_str(), i),
            None => name.clone(),
        };
        if same(name.as_str(), "todowrite") {
            if let Some(i) = &input {
                if get(i, "todos").is_some() {
                    *todos = parse_todos(i);
                }
            }
        }
        let item = TranscriptItem::Tool { name, status, title, input, output, expanded: false };
        let ghost m = item.deep_view();
        assert(m == stored_tool(contents(*part)));
        items.push(item);
        assert(items.deep_view() =~= before.push(m));
    }
}

/// Folds stored messages into transcript items and the latest todo list.
pub fn fold_history(rows: &[serde_json::Value]) -> (r: (Vec<TranscriptItem>, Vec<TodoItem>))
    ensures
        (History { items: r.0.deep_view(), todos: r.1.deep_view() }) == history_of(
            contents_all(rows@),
        ),
{
    let ghost all = contents_all(rows@);
    let mut items: Vec<TranscriptItem> = Vec::new();
    let mut todos: Vec<TodoItem> = Vec::new();
    assert(items.deep_view() =~= Seq::<TranscriptItemModel>::empty());
    assert(todos.deep_view() =~= Seq::<TodoItemModel>::empty());
    let mut i: usize = 0;
    while i < rows.len()
        invariant
            i <= rows@.len(),
            all == contents_all(rows@),
            (History { items: items.deep_view(), todos: todos.deep_view() }) == history_of(
                all.take(i as int),
            ),
        decreases rows@.len() - i,
    {
        proof {
            assert(all.take(i + 1).drop_last() =~= all.take(i as int));
            assert(all[i as int] == contents(rows@[i as int]));
        }
        let role = read_role(&rows[i]);
        if let Some(parts) = member_array(&rows[i], "parts") {
            let ghost ps = contents_all(parts@);
            let ghost start = History { items: items.deep_view(), todos: todos.deep_view() };
            let mut k: usize = 0;
            assert(ps.take(0) =~= Seq::<Json>::empty());
            while k < parts.len()
                invariant
                    k <= parts@.len(),
                    ps == contents_all(parts@),
                    (History { items: items.deep_view(), todos: todos.deep_view() })
                        == start.with_parts(role@, ps.take(k as int)),
                decreases parts@.len() - k,
            {
                proof {
                    assert(ps.take(k + 1).drop_last() =~= ps.take(k as int));
                    assert(ps[k as int] == contents(parts@[k as int]));
                }
                add_part(&mut items, &mut todos, role.as_str(), &parts[k]);
                k += 1;
            }
            assert(ps.take(k as int) =~= ps);
        }
        i += 1;
    }
    assert(all.take(i as int) =~= all);
    (items, todos)
}

/// The text of a text part; nothing for any other part.
pub open spec fn part_text(part: Json) -> Option<Seq<char>> {
    if part.text_member("type"@) == Some("text"@) {
        part.text_member("text"@)
    } else {
        None
    }
}

/// The text of the last text part among `parts`.
pub open spec fn last_text(parts: Seq<Json>) -> Option<Seq<char>>
    decreases parts.len(),
{
    if parts.len() == 0 {
        None
    } else if part_text(parts.last()) is Some {
        part_text(parts.last())
    } else {
        last_text(parts.drop_last())
    }
}

/// The text of the last text part of a stored message that the assistant wrote.
pub open spec fn answer_text(row: Json) -> Option<Seq<char>> {
    if role_of(row) == "assistant"@ {
        match row.items_member("parts"@) {
            Some(parts) => last_text(parts),
            None => None,
        }
    } else {
        None
    }
}

/// The last text part of the assistant across `rows`.
pub open spec fn last_answer_text(rows: Seq<Json>) -> Option<Seq<char>>
    decreases rows.len(),
{
    if rows.len() == 0 {
        None
    } else if answer_text(rows.last()) is Some {
        answer_text(rows.last())
    } else {
        last_answer_text(rows.drop_last())
    }
}

/// The preview of a session: the last text part of the assistant across its
/// messages, or a note that there is none.
pub open spec fn preview(rows: Seq<Json>) -> Seq<char> {
    match last_answer_text(rows) {
        Some(t) => t,
        None => "(no response yet)"@,
    }
}

/// Reads the text of a text part.
fn read_part_text(p: &serde_json::Value) -> (r: Option<String>)
    ensures
        r.deep_view() == part_text(contents(*p)),
{
    let is_text: bool = match member_text(p, "type") {
        Some(k) => same(k, "text"),
        None => false,
    };
    if is_text {
        member_string(p, "text")
    } else {
        None
    }
}

/// Reads the text of the last text part among `parts`.
fn last_part_text(parts: &[serde_json::Value]) -> (r: Option<String>)
    ensures
        r.deep_view() == last_text(contents_all(parts@)),
{
    let ghost all = contents_all(parts@);
    let mut n: usize = parts.len();
    assert(all.take(n as int) =~= all);
    while n > 0
        invariant
            n <= parts@.len(),
            all == contents_all(parts@),
            last_text(all) == last_text(all.take(n as int)),
        decreases n,
    {
        proof {
            assert(all.take(n as int).last() == contents(parts@[n - 1]));
            assert(all.take(n as int).drop_last() =~= all.take(n - 1));
        }
        if let Some(t) = read_part_text(&parts[n - 1]) {
            return Some(t);
        }
        n -= 1;
    }
    None
}

/// Reads the text of the last text part of a message that the assistant wrote.
fn read_answer(row: &serde_json::Value) -> (r: Option<String>)
    ensures
        r.deep_view() == answer_text(contents(*row)),
{
    let role = read_role(row);
    if same(role.as_str(), "assistant") {
        if let Some(parts) = member_array(row, "parts") {
            return last_part_text(parts);
        }
    }
    None
}

/// The preview of a session from its stored messages: the last text part of the
/// assistant across them.
pub fn latest_message_text(rows: &[serde_json::Value]) -> (r: String)
    ensures
        r@ == preview(contents_all(rows@)),
{
    let ghost all = contents_all(rows@);
    let mut n: usize = rows.len();
    assert(all.take(n as int) =~= all);
    while n > 0
        invariant
            n <= rows@.len(),
            all == contents_all(rows@),
            last_answer_text(all) == last_answer_text(all.take(n as int)),
        decreases n,
    {
        proof {
            assert(all.take(n as int).last() == contents(rows@[n - 1]));
            assert(all.take(n as int).drop_last() =~= all.take(n - 1));
        }
        if let Some(t) = read_answer(&rows[n - 1]) {
            return t;
        }
        n -= 1;
    }
    "(no response yet)".to_owned()
}

// ---------------------------------------------------------------------------
// Laws of stored history
// ---------------------------------------------------------------------------

/// Whether `row` is a stored message of `role` with the given parts.
pub open spec fn is_message(row: Json, role: Seq<char>, parts: Seq<Json>) -> bool {
    &&& row.member("info"@) matches Some(info) && info.member("role"@) == Some(Json::Text(role))
    &&& row.member("parts"@) == Some(Json::Array(parts))
}

/// Whether a stored tool call has come to `status`.
pub open spec fn came_to(state: Json, status: ToolStatus) -> bool {
    let word = state.member("status"@);
    match status {
        ToolStatus::Error => word == Some(Json::Text("error"@)),
        ToolStatus::Running => word == Some(Json::Text("running"@)) || word == Some(
            Json::Text("pending"@),
        ),
        ToolStatus::Success => word == Some(Json::Text("completed"@)),
    }
}

/// Whether a part of a message of `role` is what is stored for `item`.
pub open spec fn is_stored(role: Seq<char>, part: Json, item: TranscriptItemModel) -> bool {
    let kind = part.member("type"@);
    match item {
        TranscriptItemModel::User(t) => role == "user"@ && kind == Some(Json::Text("text"@))
            && part.member("text"@) == Some(Json::Text(t)),
        TranscriptItemModel::Assistant(t) => role == "assistant"@ && kind == Some(
            Json::Text("text"@),
        ) && part.member("text"@) == Some(Json::Text(t)),
        TranscriptItemModel::Reasoning(t) => kind == Some(Json::Text("reasoning"@)) && part.member(
            "text"@,
        ) == Some(Json::Text(t)),
        TranscriptItemModel::Tool { name, status, title, input, output, expanded } => {
            &&& kind == Some(Json::Text("tool"@))
            &&& part.member("tool"@) == Some(Json::Text(name))
            &&& part.member("state"@) is Some
            &&& came_to(part.member("state"@)->0, status)
            &&& part.member("state"@)->0.member("input"@) == input
            &&& match input {
                Some(i) => names_call(name, i, title),
                None => title == name,
            }
            &&& match output {
                Some(o) => part.member("state"@)->0.member("output"@) == Some(Json::Text(o)) || (
                part.member("state"@)->0.member("output"@) is None && part.member(
                    "state"@,
                )->0.member("error"@) == Some(Json::Text(o))),
                None => part.member("state"@)->0.member("output"@) is None && part.member(
                    "state"@,
                )->0.member("error"@) is None,
            }
            &&& !expanded
        },
        _ => false,
    }
}

/// Whether `title` names a call of the tool `name`: by the path, the command or the
/// pattern that it is given, or by the tool alone where it is given none of them.
pub open spec fn names_call(name: Seq<char>, input: Json, title: Seq<char>) -> bool {
    let keys = seq!["path"@, "filePath"@, "command"@, "pattern"@];
    ||| exists|k: int, arg: Seq<char>|
        0 <= k < 4 && title == #[trigger] (name + " "@ + arg) && input.member(#[trigger] keys[k])
            == Some(Json::Text(arg)) && forall|j: int|
            0 <= j < k ==> input.member(#[trigger] keys[j]) is None
    ||| title == name && forall|j: int| 0 <= j < 4 ==> input.member(#[trigger] keys[j]) is None
}

/// A tool call's title is its name with the argument that tells most: the path, else the
/// command, else the pattern.
pub proof fn law_a_title_names_the_call(name: Seq<char>, input: Json, title: Seq<char>)
    requires
        names_call(name, input, title),
    ensures
        titled(name, input) == title,
{
    let keys = seq!["path"@, "filePath"@, "command"@, "pattern"@];
    if exists|k: int, arg: Seq<char>|
        0 <= k < 4 && title == #[trigger] (name + " "@ + arg) && input.member(#[trigger] keys[k])
            == Some(Json::Text(arg)) && forall|j: int|
            0 <= j < k ==> input.member(#[trigger] keys[j]) is None {
        let (k, arg) = choose|k: int, arg: Seq<char>|
            0 <= k < 4 && title == #[trigger] (name + " "@ + arg) && input.member(
                #[trigger] keys[k],
            ) == Some(Json::Text(arg)) && forall|j: int|
                0 <= j < k ==> input.member(#[trigger] keys[j]) is None;
        assert(0 < k ==> input.member(keys[0]) is None);
        assert(1 < k ==> input.member(keys[1]) is None);
        assert(2 < k ==> input.member(keys[2]) is None);
    } else {
        assert(input.member(keys[0]) is None && input.member(keys[1]) is None && input.member(
            keys[2],
        ) is None && input.member(keys[3]) is None);
    }
}

proof fn lemma_stored_words()
    ensures
        "text"@.len() == 4,
        "text"@[1] == 'e',
        "tool"@.len() == 4,
        "tool"@[1] == 'o',
        "reasoning"@.len() == 9,
        "user"@.len() == 4,
        "assistant"@.len() == 9,
        "error"@.len() == 5,
        "running"@.len() == 7,
        "running"@[0] == 'r',
        "pending"@.len() == 7,
        "pending"@[0] == 'p',
        "completed"@.len() == 9,
{
    reveal_strlit("text");
    reveal_strlit("tool");
    reveal_strlit("reasoning");
    reveal_strlit("user");
    reveal_strlit("assistant");
    reveal_strlit("error");
    reveal_strlit("running");
    reveal_strlit("pending");
    reveal_strlit("completed");
}

proof fn lemma_stored_part(h: History, role: Seq<char>, part: Json, item: TranscriptItemModel)
    requires
        is_stored(role, part, item),
    ensures
        h.with_part(role, part).items == h.items.push(item),
{
    lemma_stored_words();
    if let TranscriptItemModel::Tool { name, status, title, input, output, expanded } = item {
        if let Some(i) = input {
            law_a_title_names_the_call(name, i, title);
        }
        assert(stored_tool(part) =~= item);
    }
}

proof fn lemma_stored_parts(
    h: History,
    role: Seq<char>,
    parts: Seq<Json>,
    items: Seq<TranscriptItemModel>,
)
    requires
        items.len() == parts.len(),
        forall|i: int| 0 <= i < parts.len() ==> is_stored(role, #[trigger] parts[i], items[i]),
    ensures
        h.with_parts(role, parts).items == h.items + items,
    decreases parts.len(),
{
    if parts.len() == 0 {
        assert(h.items + items =~= h.items);
    } else {
        let front = parts.drop_last();
        assert forall|i: int| 0 <= i < front.len() implies is_stored(
            role,
            #[trigger] front[i],
            items.drop_last()[i],
        ) by {
            assert(front[i] == parts[i]);
        }
        lemma_stored_parts(h, role, front, items.drop_last());
        assert(is_stored(role, parts[parts.len() - 1], items.last()));
        lemma_stored_part(h.with_parts(role, front), role, parts.last(), items.last());
        assert((h.items + items.drop_last()).push(items.last()) =~= h.items + items);
    }
}

/// Reopening a session reads back what was stored: behind what the earlier messages give,
/// a message gives an item for each of its parts, in order. The user's texts come back as
/// the user's, the assistant's as the assistant's, and a tool call with what it was given
/// and what it came to.
pub proof fn law_stored_messages_read_back(
    rows: Seq<Json>,
    row: Json,
    role: Seq<char>,
    parts: Seq<Json>,
    items: Seq<TranscriptItemModel>,
)
    requires
        is_message(row, role, parts),
        items.len() == parts.len(),
        forall|i: int| 0 <= i < parts.len() ==> is_stored(role, #[trigger] parts[i], items[i]),
    ensures
        history_of(rows.push(row)).items == history_of(rows).items + items,
{
    assert(rows.push(row).drop_last() =~= rows);
    lemma_stored_parts(history_of(rows), role, parts, items);
}

/// Stored messages are read one behind the other: what the later ones give follows what
/// the earlier ones gave.
pub proof fn law_history_goes_in_order(a: Seq<Json>, b: Seq<Json>)
    ensures
        history_of(a + b).items == history_of(a).items + history_of(b).items,
        history_of(Seq::<Json>::empty()).items.len() == 0,
        history_of(Seq::<Json>::empty()).todos.len() == 0,
    decreases b.len(),
{
    if b.len() == 0 {
        assert(a + b =~= a);
        assert(history_of(a).items + history_of(b).items =~= history_of(a).items);
    } else {
        law_history_goes_in_order(a, b.drop_last());
        assert((a + b).drop_last() =~= a + b.drop_last());
        assert((a + b).last() == b.last());
        let x = history_of(a + b.drop_last());
        let y = history_of(b.drop_last());
        if let Some(parts) = b.last().items_member("parts"@) {
            lemma_parts_only_add(x, y, history_of(a).items, role_of(b.last()), parts);
        }
    }
}

proof fn lemma_parts_only_add(
    x: History,
    y: History,
    front: Seq<TranscriptItemModel>,
    role: Seq<char>,
    parts: Seq<Json>,
)
    requires
        x.items == front + y.items,
    ensures
        x.with_parts(role, parts).items == front + y.with_parts(role, parts).items,
    decreases parts.len(),
{
    if parts.len() > 0 {
        lemma_parts_only_add(x, y, front, role, parts.drop_last());
        let p = x.with_parts(role, parts.drop_last());
        let q = y.with_parts(role, parts.drop_last());
        assert(p.with_part(role, parts.last()).items =~= front + q.with_part(
            role,
            parts.last(),
        ).items);
    }
}

/// The latest todo list is the one that stands: a stored call of the todo tool replaces
/// the list by its own, and other parts leave it.
pub proof fn law_the_latest_todos_stand(h: History, role: Seq<char>, part: Json, todos: Seq<Json>)
    ensures
        part.member("type"@) == Some(Json::Text("tool"@)) && part.member("tool"@) == Some(
            Json::Text("todowrite"@),
        ) && (part.member("state"@) matches Some(state) && state.member("input"@) matches Some(
            input,
        ) && input.member("todos"@) == Some(Json::Array(todos))) ==> {
            let after = h.with_part(role, part).todos;
            &&& after.len() == todos.len()
            &&& forall|i: int|
                0 <= i < todos.len() ==> is_todo(#[trigger] todos[i], after[i])
        },
        part.member("tool"@) != Some(Json::Text("todowrite"@)) ==> h.with_part(role, part).todos
            == h.todos,
{
    lemma_stored_words();
    assert("tool"@ != "todowrite"@) by {
        reveal_strlit("todowrite");
        assert("todowrite"@.len() == 9);
    }
    if part.member("type"@) == Some(Json::Text("tool"@)) && part.member("tool"@) == Some(
        Json::Text("todowrite"@),
    ) && (part.member("state"@) matches Some(state) && state.member("input"@) matches Some(input)
        && input.member("todos"@) == Some(Json::Array(todos))) {
        let input = part.member("state"@)->0.member("input"@)->0;
        let after = h.with_part(role, part).todos;
        assert(after == todos_of(input));
        law_todos_read_back(input, todos);
    }
}

/// Whether `m` is what the todo `v` says. An unknown status is a pending one.
pub open spec fn is_todo(v: Json, m: TodoItemModel) -> bool {
    &&& match v.member("content"@) {
        Some(Json::Text(t)) => m.content == t,
        _ => m.content.len() == 0,
    }
    &&& match v.member("status"@) {
        Some(Json::Text(w)) => {
            &&& m.status == TodoStatus::InProgress <==> w == "in_progress"@
            &&& m.status == TodoStatus::Completed <==> w == "completed"@
            &&& m.status == TodoStatus::Cancelled <==> w == "cancelled"@
        },
        _ => m.status == TodoStatus::Pending,
    }
}

/// A todo list has an item for each that is given, in order, with its text and status.
pub proof fn law_todos_read_back(input: Json, todos: Seq<Json>)
    requires
        input.member("todos"@) == Some(Json::Array(todos)),
    ensures
        todos_of(input).len() == todos.len(),
        forall|i: int|
            0 <= i < todos.len() ==> is_todo(#[trigger] todos[i], todos_of(input)[i]),
{
    reveal_strlit("in_progress");
    reveal_strlit("completed");
    reveal_strlit("cancelled");
    reveal_strlit("");
    assert("in_progress"@.len() == 11 && "completed"@.len() == 9 && "cancelled"@.len() == 9);
    assert("completed"@[1] == 'o' && "cancelled"@[1] == 'a');
    assert forall|i: int| 0 <= i < todos.len() implies is_todo(
        #[trigger] todos[i],
        todos_of(input)[i],
    ) by {
        assert(todos_of(input)[i] == todo_of(todos[i]));
    }
}

/// The preview of a session is the last text that the assistant wrote: a message of the
/// user, or one without a text, behind it does not hide it.
pub proof fn law_the_preview_is_the_last_answer(
    rows: Seq<Json>,
    row: Json,
    role: Seq<char>,
    parts: Seq<Json>,
    k: int,
    text: Seq<char>,
)
    requires
        is_message(row, role, parts),
    ensures
        role == "assistant"@ && 0 <= k < parts.len() && parts[k].member("type"@) == Some(
            Json::Text("text"@),
        ) && parts[k].member("text"@) == Some(Json::Text(text)) && (forall|j: int|
            k < j < parts.len() ==> (#[trigger] parts[j]).member("type"@) != Some(
                Json::Text("text"@),
            )) ==> preview(rows.push(row)) == text,
        role != "assistant"@ || (forall|j: int|
            0 <= j < parts.len() ==> (#[trigger] parts[j]).member("type"@) != Some(
                Json::Text("text"@),
            )) ==> preview(rows.push(row)) == preview(rows),
        preview(Seq::<Json>::empty()) == "(no response yet)"@,
{
    assert(rows.push(row).drop_last() =~= rows);
    if 0 <= k < parts.len() && parts[k].member("type"@) == Some(Json::Text("text"@))
        && parts[k].member("text"@) == Some(Json::Text(text)) && (forall|j: int|
        k < j < parts.len() ==> (#[trigger] parts[j]).member("type"@) != Some(Json::Text("text"@))) {
        lemma_last_text(parts, k, text);
    }
    if forall|j: int|
        0 <= j < parts.len() ==> (#[trigger] parts[j]).member("type"@) != Some(Json::Text("text"@)) {
        lemma_no_text(parts);
    }
}

proof fn lemma_no_text(parts: Seq<Json>)
    requires
        forall|j: int|
            0 <= j < parts.len() ==> (#[trigger] parts[j]).member("type"@) != Some(
                Json::Text("text"@),
            ),
    ensures
        last_text(parts) is None,
    decreases parts.len(),
{
    if parts.len() > 0 {
        assert(parts[parts.len() - 1].member("type"@) != Some(Json::Text("text"@)));
        assert forall|j: int| 0 <= j < parts.drop_last().len() implies (
        #[trigger] parts.drop_last()[j]).member("type"@) != Some(Json::Text("text"@)) by {
            assert(parts.drop_last()[j] == parts[j]);
        }
        lemma_no_text(parts.drop_last());
    }
}

proof fn lemma_last_text(parts: Seq<Json>, k: int, text: Seq<char>)
    requires
        0 <= k < parts.len(),
        parts[k].member("type"@) == Some(Json::Text("text"@)),
        parts[k].member("text"@) == Some(Json::Text(text)),
        forall|j: int|
            k < j < parts.len() ==> (#[trigger] parts[j]).member("type"@) != Some(
                Json::Text("text"@),
            ),
    ensures
        last_text(parts) == Some(text),
    decreases parts.len(),
{
    let n = parts.len() - 1;
    if k < n {
        assert(parts[n].member("type"@) != Some(Json::Text("text"@)));
        assert forall|j: int| k < j < parts.drop_last().len() implies (
        #[trigger] parts.drop_last()[j]).member("type"@) != Some(Json::Text("text"@)) by {
            assert(parts.drop_last()[j] == parts[j]);
        }
        assert(parts.drop_last()[k] == parts[k]);
        lemma_last_text(parts.drop_last(), k, text);
    }
}

/// A finished call shows its result: a text as it is, blocks by their texts, one to a
/// line, and anything else as JSON.
pub proof fn law_a_result_shows(
    value: Json,
    blocks: Seq<Json>,
    texts: Seq<Seq<char>>,
    output: Option<ToolOutputModel>,
)
    requires
        texts.len() == blocks.len(),
        forall|i: int|
            0 <= i < blocks.len() ==> (#[trigger] blocks[i]).member("text"@) == Some(
                Json::Text(texts[i]),
            ),
    ensures
        ({
            let shown = if value is Text {
                value->Text_0
            } else {
                rendered(value)
            };
            &&& output_text(ToolResultValueModel::Text { value }, output) == Some(shown)
            &&& output_text(ToolResultValueModel::Json { value }, output) == Some(shown)
            &&& output_text(ToolResultValueModel::Error { value }, output) == Some(shown)
        }),
        joined(texts, "\n"@).len() > 0 ==> output_text(
            ToolResultValueModel::Content { value: blocks },
            output,
        ) == Some(joined(texts, "\n"@)),
        joined(texts, "\n"@).len() == 0 && output is None ==> output_text(
            ToolResultValueModel::Content { value: blocks },
            output,
        ) is None,
        joined(texts, "\n"@).len() == 0 && output is Some && rendered(output->0.structured)
            != "null"@ ==> output_text(ToolResultValueModel::Content { value: blocks }, output)
            == Some(rendered(output->0.structured)),
{
    lemma_block_texts(blocks, texts);
}

proof fn lemma_block_texts(blocks: Seq<Json>, texts: Seq<Seq<char>>)
    requires
        texts.len() == blocks.len(),
        forall|i: int|
            0 <= i < blocks.len() ==> (#[trigger] blocks[i]).member("text"@) == Some(
                Json::Text(texts[i]),
            ),
    ensures
        block_texts(blocks) == texts,
    decreases blocks.len(),
{
    if blocks.len() == 0 {
        assert(texts =~= Seq::empty());
    } else {
        assert forall|i: int| 0 <= i < blocks.drop_last().len() implies (
        #[trigger] blocks.drop_last()[i]).member("text"@) == Some(
            Json::Text(texts.drop_last()[i]),
        ) by {
            assert(blocks.drop_last()[i] == blocks[i]);
        }
        lemma_block_texts(blocks.drop_last(), texts.drop_last());
        assert(blocks[blocks.len() - 1].member("text"@) == Some(Json::Text(texts.last())));
        assert(texts.drop_last().push(texts.last()) =~= texts);
    }
}

/// What is stored of other kinds, or without a text where there should be one, leaves no row
/// and changes nothing; a text that the user did not say is the assistant's; and a tool that is
/// stored without a state ended well.
pub proof fn law_other_parts_leave_no_row(h: History, role: Seq<char>, part: Json, kind: Seq<char>)
    requires
        part.member("type"@) == Some(Json::Text(kind)),
    ensures
        kind != "text"@ && kind != "reasoning"@ && kind != "tool"@ ==> h.with_part(role, part) == h,
        (kind == "text"@ || kind == "reasoning"@) && part.member("text"@) is None ==> h.with_part(
            role,
            part,
        ) == h,
        kind == "text"@ && role != "user"@ ==> (part.member("text"@) matches Some(Json::Text(t))
            ==> h.with_part(role, part).items == h.items.push(TranscriptItemModel::Assistant(t))),
        kind == "tool"@ && part.member("state"@) is None ==> {
            let items = h.with_part(role, part).items;
            &&& items.len() == h.items.len() + 1
            &&& items.last() is Tool && items.last()->Tool_status == ToolStatus::Success
            &&& items.last()->Tool_output is None && items.last()->Tool_input is None
        },
        kind != "tool"@ ==> h.with_part(role, part).todos == h.todos,
{
    lemma_stored_words();
}

/// A message without parts adds nothing to what came before it.
pub proof fn law_a_message_without_parts_adds_nothing(rows: Seq<Json>, row: Json)
    requires
        row.member("parts"@) is None,
    ensures
        history_of(rows.push(row)) == history_of(rows),
{
    assert(rows.push(row).drop_last() =~= rows);
}

} // verus!
