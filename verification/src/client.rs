//! What the server's JSON answers hold, and the requests that are built for it.

use crate::json::{
    array_value, as_array, as_str, contents, contents_all, empty_object, get,
    law_member_names_are_listed, lists, member_array, member_bool, member_names, member_or_empty,
    member_text, object_keys, or_empty, set_member, text_value, Json,
};
use crate::text::{cat, copied};
use vstd::prelude::*;
use vstd::string::*;

verus! {

/// A session summary row from `GET /session`.
#[derive(Debug, PartialEq)]
pub struct SessionInfo {
    pub id: String,
    pub title: Option<String>,
    /// Last activity, in milliseconds since the epoch; 0 where the server gave none.
    pub time_updated: i64,
    /// Creation, in milliseconds since the epoch: the tie breaker of
    /// [`most_recent_session`].
    pub time_created: i64,
    /// Whether a turn is running in the session.
    pub busy: bool,
    /// The session that this one was started from.
    pub parent_id: Option<String>,
    /// What the session was started as (`workflow_root`, `workflow_task`, ...).
    pub kind: Option<String>,
}

/// The value of a [`SessionInfo`].
#[verifier::ext_equal]
pub struct SessionInfoModel {
    pub id: Seq<char>,
    pub title: Option<Seq<char>>,
    pub time_updated: i64,
    pub time_created: i64,
    pub busy: bool,
    pub parent_id: Option<Seq<char>>,
    pub kind: Option<Seq<char>>,
}

impl DeepView for SessionInfo {
    type V = SessionInfoModel;

    open spec fn deep_view(&self) -> SessionInfoModel {
        SessionInfoModel {
            id: self.id.deep_view(),
            title: self.title.deep_view(),
            time_updated: self.time_updated,
            time_created: self.time_created,
            busy: self.busy,
            parent_id: self.parent_id.deep_view(),
            kind: self.kind.deep_view(),
        }
    }
}

impl Clone for SessionInfo {
    fn clone(&self) -> (r: Self)
        ensures
            r.deep_view() == self.deep_view(),
    {
        SessionInfo {
            id: self.id.clone(),
            title: copied(&self.title),
            time_updated: self.time_updated,
            time_created: self.time_created,
            busy: self.busy,
            parent_id: copied(&self.parent_id),
            kind: copied(&self.kind),
        }
    }
}

/// An agent row from `GET /agent`.
#[derive(Debug, PartialEq)]
pub struct AgentInfo {
    pub name: String,
}

/// The value of a [`AgentInfo`].
#[verifier::ext_equal]
pub struct AgentInfoModel {
    pub name: Seq<char>,
}

impl DeepView for AgentInfo {
    type V = AgentInfoModel;

    open spec fn deep_view(&self) -> AgentInfoModel {
        AgentInfoModel {
            name: self.name.deep_view(),
        }
    }
}

impl Clone for AgentInfo {
    fn clone(&self) -> (r: Self)
        ensures
            r.deep_view() == self.deep_view(),
    {
        AgentInfo {
            name: self.name.clone(),
        }
    }
}

/// A selectable `provider/model` pair derived from `GET /provider`.
#[derive(Debug, PartialEq)]
pub struct ModelChoice {
    pub provider: String,
    pub model: String,
}

/// The value of a [`ModelChoice`].
#[verifier::ext_equal]
pub struct ModelChoiceModel {
    pub provider: Seq<char>,
    pub model: Seq<char>,
}

impl DeepView for ModelChoice {
    type V = ModelChoiceModel;

    open spec fn deep_view(&self) -> ModelChoiceModel {
        ModelChoiceModel {
            provider: self.provider.deep_view(),
            model: self.model.deep_view(),
        }
    }
}

impl Clone for ModelChoice {
    fn clone(&self) -> (r: Self)
        ensures
            r.deep_view() == self.deep_view(),
    {
        ModelChoice {
            provider: self.provider.clone(),
            model: self.model.clone(),
        }
    }
}

impl Default for SessionInfo {
    fn default() -> (r: Self)
        ensures
            r.deep_view() == (SessionInfoModel {
                id: Seq::empty(),
                title: None,
                time_updated: 0,
                time_created: 0,
                busy: false,
                parent_id: None,
                kind: None,
            }),
    {
        SessionInfo {
            id: String::new(),
            title: None,
            time_updated: 0,
            time_created: 0,
            busy: false,
            parent_id: None,
            kind: None,
        }
    }
}

impl ModelChoice {
    /// `provider/model`.
    #[must_use]
    pub fn id(&self) -> (r: String)
        ensures
            r@ == self.deep_view().id(),
    {
        let mut out = cat(self.provider.as_str(), "/");
        out.append(self.model.as_str());
        out
    }
}

impl ModelChoiceModel {
    /// `provider/model`.
    pub open spec fn id(self) -> Seq<char> {
        self.provider + "/"@ + self.model
    }
}

/// Whether `a` was active no later than `b`: by last activity, then by creation.
pub open spec fn no_later(a: SessionInfoModel, b: SessionInfoModel) -> bool {
    a.time_updated < b.time_updated || (a.time_updated == b.time_updated && a.time_created
        <= b.time_created)
}

/// Whether the session at `i` is the most recently active one, the last of
/// those that tie.
pub open spec fn is_most_recent(s: Seq<SessionInfoModel>, i: int) -> bool {
    &&& 0 <= i < s.len()
    &&& forall|j: int| 0 <= j < s.len() ==> no_later(#[trigger] s[j], s[i])
    &&& forall|j: int| i < j < s.len() ==> !no_later(s[i], #[trigger] s[j])
}

/// The session to reopen on startup: the most recently updated one, ties broken
/// by the most recently created, then by the last in the list (the list comes
/// oldest-created first).
#[must_use]
pub fn most_recent_session(sessions: &[SessionInfo]) -> (r: Option<&SessionInfo>)
    ensures
        r is None == (sessions@.len() == 0),
        r matches Some(s) ==> exists|i: int| #[trigger]
            is_most_recent(sessions.deep_view(), i) && *s == sessions@[i],
{
    if sessions.len() == 0 {
        return None;
    }
    let ghost all = sessions.deep_view();
    let mut best: usize = 0;
    let mut i: usize = 1;
    while i < sessions.len()
        invariant
            1 <= i <= sessions@.len(),
            best < i,
            all == sessions.deep_view(),
            forall|j: int| 0 <= j < i ==> no_later(#[trigger] all[j], all[best as int]),
            forall|j: int| best < j < i ==> !no_later(all[best as int], #[trigger] all[j]),
        decreases sessions@.len() - i,
    {
        let a = &sessions[best];
        let b = &sessions[i];
        assert(all[best as int] == a.deep_view() && all[i as int] == b.deep_view());
        if a.time_updated < b.time_updated || (a.time_updated == b.time_updated && a.time_created
            <= b.time_created) {
            best = i;
        }
        i += 1;
    }
    assert(is_most_recent(all, best as int));
    Some(&sessions[best])
}

// ---------------------------------------------------------------------------
// Model catalogue
// ---------------------------------------------------------------------------

/// What a provider or model is called: its `id`, or its `name` where it has no
/// `id`.
pub open spec fn label_of(v: Json) -> Option<Seq<char>> {
    match v.member("id"@) {
        Some(x) => x.text(),
        None => v.text_member("name"@),
    }
}

/// The choices of a provider whose models are listed by object.
pub open spec fn listed_models(provider: Seq<char>, models: Seq<Json>) -> Seq<ModelChoiceModel>
    decreases models.len(),
{
    if models.len() == 0 {
        Seq::empty()
    } else {
        let before = listed_models(provider, models.drop_last());
        match label_of(models.last()) {
            Some(model) => before.push(ModelChoiceModel { provider, model }),
            None => before,
        }
    }
}

/// The choices of one provider: its models come as a list of objects or as an
/// object keyed by model id. A provider without a label has none.
pub open spec fn provider_models(p: Json) -> Seq<ModelChoiceModel> {
    let provider = or_empty(label_of(p));
    if provider.len() == 0 {
        Seq::empty()
    } else {
        match p.member("models"@) {
            Some(Json::Array(list)) => listed_models(provider, list),
            Some(Json::Object(m)) => member_names(m).map_values(
                |model: Seq<char>| ModelChoiceModel { provider, model },
            ),
            _ => Seq::empty(),
        }
    }
}

/// The choices of `providers`, in order.
pub open spec fn all_models(providers: Seq<Json>) -> Seq<ModelChoiceModel>
    decreases providers.len(),
{
    if providers.len() == 0 {
        Seq::empty()
    } else {
        all_models(providers.drop_last()) + provider_models(providers.last())
    }
}

/// The choices of a `/provider` answer: an object with `providers`, or the bare
/// list of providers.
pub open spec fn catalogue(v: Json) -> Seq<ModelChoiceModel> {
    match v.items_member("providers"@) {
        Some(providers) => all_models(providers),
        None => match v.items() {
            Some(providers) => all_models(providers),
            None => Seq::empty(),
        },
    }
}

/// Reads what a provider or model is called.
fn label<'a>(v: &'a serde_json::Value) -> (r: Option<&'a str>)
    ensures
        r is Some == label_of(contents(*v)) is Some,
        r matches Some(s) ==> s@ == label_of(contents(*v))->0,
{
    match get(v, "id") {
        Some(x) => as_str(x),
        None => member_text(v, "name"),
    }
}

/// Appends the choices of a provider whose models are listed by object.
fn add_listed(out: &mut Vec<ModelChoice>, provider: &str, models: &[serde_json::Value])
    ensures
        final(out).deep_view() == old(out).deep_view() + listed_models(
            provider@,
            contents_all(models@),
        ),
{
    let ghost start = out.deep_view();
    let ghost all = contents_all(models@);
    let mut i: usize = 0;
    assert(start + listed_models(provider@, all.take(0)) =~= start);
    while i < models.len()
        invariant
            i <= models@.len(),
            all == contents_all(models@),
            out.deep_view() == start + listed_models(provider@, all.take(i as int)),
        decreases models@.len() - i,
    {
        let ghost before = out.deep_view();
        proof {
            assert(all.take(i + 1).drop_last() =~= all.take(i as int));
            assert(all[i as int] == contents(models@[i as int]));
        }
        if let Some(model) = label(&models[i]) {
            let c = ModelChoice { provider: provider.to_owned(), model: model.to_owned() };
            let ghost m = c.deep_view();
            out.push(c);
            proof {
                assert(out.deep_view() =~= before.push(m));
                assert((start + listed_models(provider@, all.take(i as int))).push(m) =~= start
                    + listed_models(provider@, all.take(i as int)).push(m));
            }
        }
        i += 1;
    }
    assert(all.take(i as int) =~= all);
}

/// Appends the choices of a provider whose models are keyed by id.
fn add_named(out: &mut Vec<ModelChoice>, provider: &str, models: &[String])
    ensures
        final(out).deep_view() == old(out).deep_view() + models.deep_view().map_values(
            |model: Seq<char>| ModelChoiceModel { provider: provider@, model },
        ),
{
    let ghost start = out.deep_view();
    let ghost f = |model: Seq<char>| ModelChoiceModel { provider: provider@, model };
    let ghost all = models.deep_view();
    let mut i: usize = 0;
    assert(start + all.take(0).map_values(f) =~= start);
    while i < models.len()
        invariant
            i <= models@.len(),
            all == models.deep_view(),
            f == (|model: Seq<char>| ModelChoiceModel { provider: provider@, model }),
            out.deep_view() == start + all.take(i as int).map_values(f),
        decreases models@.len() - i,
    {
        let ghost before = out.deep_view();
        let c = ModelChoice { provider: provider.to_owned(), model: models[i].clone() };
        let ghost m = c.deep_view();
        out.push(c);
        proof {
            assert(m == f(all[i as int]));
            assert(out.deep_view() =~= before.push(m));
            assert(all.take(i + 1).map_values(f) =~= all.take(i as int).map_values(f).push(m));
            assert((start + all.take(i as int).map_values(f)).push(m) =~= start + all.take(
                i as int,
            ).map_values(f).push(m));
        }
        i += 1;
    }
    assert(all.take(i as int) =~= all);
}

/// Appends the choices of one provider.
fn add_provider(out: &mut Vec<ModelChoice>, p: &serde_json::Value)
    ensures
        final(out).deep_view() == old(out).deep_view() + provider_models(contents(*p)),
{
    let ghost start = out.deep_view();
    proof {
        assert(start + Seq::<ModelChoiceModel>::empty() =~= start);
    }
    let provider: String = match label(p) {
        Some(s) => s.to_owned(),
        None => String::new(),
    };
    if provider.as_str().is_empty() {
        return;
    }
    if let Some(models) = get(p, "models") {
        if let Some(list) = as_array(models) {
            add_listed(out, provider.as_str(), list);
        } else if let Some(names) = object_keys(models) {
            add_named(out, provider.as_str(), &names);
        }
    }
}

/// Extracts `provider/model` pairs from a `/provider` answer.
pub fn flatten_models(v: &serde_json::Value) -> (r: Vec<ModelChoice>)
    ensures
        r.deep_view() == catalogue(contents(*v)),
{
    let mut out: Vec<ModelChoice> = Vec::new();
    assert(out.deep_view() =~= Seq::<ModelChoiceModel>::empty());
    let list = match member_array(v, "providers") {
        Some(a) => a,
        None => match as_array(v) {
            Some(a) => a,
            None => {
                return out;
            },
        },
    };
    let ghost all = contents_all(list@);
    let mut i: usize = 0;
    while i < list.len()
        invariant
            i <= list@.len(),
            all == contents_all(list@),
            out.deep_view() == all_models(all.take(i as int)),
        decreases list@.len() - i,
    {
        proof {
            assert(all.take(i + 1).drop_last() =~= all.take(i as int));
            assert(all[i as int] == contents(list@[i as int]));
        }
        add_provider(&mut out, &list[i]);
        i += 1;
    }
    assert(all.take(i as int) =~= all);
    out
}

// ---------------------------------------------------------------------------
// Requests and answers
// ---------------------------------------------------------------------------

/// The object with the members of `m`, and the text `value` under `key` where
/// there is one.
pub open spec fn with_text(
    m: Map<Seq<char>, Json>,
    key: Seq<char>,
    value: Option<Seq<char>>,
) -> Map<Seq<char>, Json> {
    match value {
        Some(s) => m.insert(key, Json::Text(s)),
        None => m,
    }
}

/// An object whose only member is the text `value` under `key`.
pub open spec fn single_text(key: Seq<char>, value: Seq<char>) -> Json {
    Json::Object(Map::empty().insert(key, Json::Text(value)))
}

/// The body of a prompt request. The files are left out where there are none.
pub open spec fn prompt_body(
    text: Seq<char>,
    agent: Option<Seq<char>>,
    model: Option<Seq<char>>,
    files: Seq<Seq<char>>,
) -> Json {
    let base = Map::empty().insert("prompt"@, Json::Text(text));
    let named = with_text(with_text(base, "agent"@, agent), "model"@, model);
    if files.len() == 0 {
        Json::Object(named)
    } else {
        Json::Object(
            named.insert(
                "files"@,
                Json::Array(files.map_values(|p: Seq<char>| single_text("path"@, p))),
            ),
        )
    }
}

/// What an optional borrowed text says.
pub open spec fn opt_text(s: Option<&str>) -> Option<Seq<char>> {
    match s {
        Some(t) => Some(t@),
        None => None,
    }
}

/// An object whose only member is the text `value` under `key`.
pub fn text_object(key: &str, value: &str) -> (r: serde_json::Value)
    ensures
        contents(r) == single_text(key@, value@),
{
    let mut body = empty_object();
    set_member(&mut body, key, text_value(value));
    body
}

/// Builds the JSON body of `POST /session/{id}/message`. `files` is written as
/// `[{"path": p}, ...]`, and only where there are any.
pub fn build_prompt_body(
    text: &str,
    agent: Option<&str>,
    model: Option<&str>,
    files: &[String],
) -> (r: serde_json::Value)
    ensures
        contents(r) == prompt_body(text@, opt_text(agent), opt_text(model), files.deep_view()),
{
    let mut body = text_object("prompt", text);
    if let Some(a) = agent {
        set_member(&mut body, "agent", text_value(a));
    }
    if let Some(m) = model {
        set_member(&mut body, "model", text_value(m));
    }
    if files.len() > 0 {
        let ghost f = |p: Seq<char>| single_text("path"@, p);
        let ghost all = files.deep_view();
        let mut list: Vec<serde_json::Value> = Vec::new();
        let mut i: usize = 0;
        assert(contents_all(list@) =~= all.take(0).map_values(f));
        while i < files.len()
            invariant
                i <= files@.len(),
                all == files.deep_view(),
                f == (|p: Seq<char>| single_text("path"@, p)),
                contents_all(list@) == all.take(i as int).map_values(f),
            decreases files@.len() - i,
        {
            let ghost before = contents_all(list@);
            let v = text_object("path", files[i].as_str());
            let ghost c = contents(v);
            list.push(v);
            proof {
                assert(c == f(all[i as int]));
                assert(contents_all(list@) =~= before.push(c));
                assert(all.take(i + 1).map_values(f) =~= before.push(c));
            }
            i += 1;
        }
        assert(all.take(i as int) =~= all);
        set_member(&mut body, "files", array_value(list));
    }
    body
}

/// The body of `POST /workflow/{kind}`: the argument, and the session that the
/// workflow is started from where there is one.
pub fn workflow_body(arg: &str, parent: Option<&str>) -> (r: serde_json::Value)
    ensures
        contents(r) == Json::Object(
            with_text(
                Map::empty().insert("arg"@, Json::Text(arg@)),
                "parent"@,
                opt_text(parent),
            ),
        ),
{
    let mut body = text_object("arg", arg);
    if let Some(p) = parent {
        set_member(&mut body, "parent", text_value(p));
    }
    body
}

/// The body of a permission reply: the reply, and a message where there is one.
pub fn permission_reply_body(reply: &str, message: Option<&str>) -> (r: serde_json::Value)
    ensures
        contents(r) == Json::Object(
            with_text(
                Map::empty().insert("reply"@, Json::Text(reply@)),
                "message"@,
                opt_text(message),
            ),
        ),
{
    let mut body = text_object("reply", reply);
    if let Some(m) = message {
        set_member(&mut body, "message", text_value(m));
    }
    body
}

/// The session id in the answer to a workflow start; empty where it has none.
pub fn started_session(v: &serde_json::Value) -> (r: String)
    ensures
        r@ == or_empty(contents(*v).text_member("session"@)),
{
    member_or_empty(v, "session")
}

/// Whether the answer to a cancel request says that something was cancelled.
pub fn was_cancelled(v: &serde_json::Value) -> (r: bool)
    ensures
        r == (contents(*v).bool_member("cancelled"@) == Some(true)),
{
    match member_bool(v, "cancelled") {
        Some(b) => b,
        None => false,
    }
}

/// The texts among `items`.
pub open spec fn texts_among(items: Seq<Json>) -> Seq<Seq<char>>
    decreases items.len(),
{
    if items.len() == 0 {
        Seq::empty()
    } else {
        match items.last().text() {
            Some(s) => texts_among(items.drop_last()).push(s),
            None => texts_among(items.drop_last()),
        }
    }
}

/// The paths in a `/file/list` answer, and whether the server cut the list
/// short.
pub fn listed_files(v: &serde_json::Value) -> (r: (Vec<String>, bool))
    ensures
        r.0.deep_view() == (match contents(*v).items_member("files"@) {
            Some(items) => texts_among(items),
            None => Seq::empty(),
        }),
        r.1 == (contents(*v).bool_member("truncated"@) == Some(true)),
{
    let truncated: bool = match member_bool(v, "truncated") {
        Some(b) => b,
        None => false,
    };
    let mut out: Vec<String> = Vec::new();
    assert(out.deep_view() =~= Seq::<Seq<char>>::empty());
    if let Some(items) = member_array(v, "files") {
        let ghost all = contents_all(items@);
        let mut i: usize = 0;
        while i < items.len()
            invariant
                i <= items@.len(),
                all == contents_all(items@),
                out.deep_view() == texts_among(all.take(i as int)),
            decreases items@.len() - i,
        {
            let ghost before = out.deep_view();
            proof {
                assert(all.take(i + 1).drop_last() =~= all.take(i as int));
                assert(all[i as int] == contents(items@[i as int]));
            }
            if let Some(s) = as_str(&items[i]) {
                out.push(s.to_owned());
                assert(out.deep_view() =~= before.push(s@));
            }
            i += 1;
        }
        assert(all.take(i as int) =~= all);
    }
    (out, truncated)
}

// ---------------------------------------------------------------------------
// Laws of requests and answers
// ---------------------------------------------------------------------------

/// A prompt's body says what was asked for and nothing else: the text under
/// `prompt`; the agent and the model where they are given; and an item for each
/// file, in order, that holds its path.
pub proof fn law_a_prompt_body_says_what_was_asked(
    text: &str,
    agent: Option<&str>,
    model: Option<&str>,
    files: &[String],
    r: serde_json::Value,
)
    requires
        call_ensures(build_prompt_body, (text, agent, model, files), r),
    ensures
        contents(r).text_member("prompt"@) == Some(text@),
        match agent {
            Some(a) => contents(r).text_member("agent"@) == Some(a@),
            None => contents(r).member("agent"@) is None,
        },
        match model {
            Some(m) => contents(r).text_member("model"@) == Some(m@),
            None => contents(r).member("model"@) is None,
        },
        files@.len() == 0 ==> contents(r).member("files"@) is None,
        files@.len() > 0 ==> {
            let items = contents(r).items_member("files"@);
            &&& items is Some
            &&& items->0.len() == files@.len()
            &&& forall|i: int|
                0 <= i < files@.len() ==> (#[trigger] items->0[i]).text_member("path"@) == Some(
                    files@[i]@,
                )
        },
        forall|key: Seq<char>|
            (#[trigger] contents(r).member(key)) is Some ==> key == "prompt"@ || key == "agent"@
                || key == "model"@ || key == "files"@,
{
    lemma_prompt_members_differ();
    let base = Map::<Seq<char>, Json>::empty().insert("prompt"@, Json::Text(text@));
    let named = with_text(with_text(base, "agent"@, opt_text(agent)), "model"@, opt_text(model));
    let ps = files.deep_view();
    assert(ps.len() == files@.len());
    if files@.len() > 0 {
        let list = ps.map_values(|p: Seq<char>| single_text("path"@, p));
        assert(contents(r) == Json::Object(named.insert("files"@, Json::Array(list))));
        assert forall|i: int| 0 <= i < files@.len() implies (#[trigger] list[i]).text_member(
            "path"@,
        ) == Some(files@[i]@) by {
            assert(ps[i] == files@[i]@);
        }
    } else {
        assert(contents(r) == Json::Object(named));
    }
}

proof fn lemma_prompt_members_differ()
    ensures
        "prompt"@ != "agent"@,
        "prompt"@ != "model"@,
        "prompt"@ != "files"@,
        "agent"@ != "model"@,
        "agent"@ != "files"@,
        "model"@ != "files"@,
{
    reveal_strlit("prompt");
    reveal_strlit("agent");
    reveal_strlit("model");
    reveal_strlit("files");
    assert("agent"@[0] == 'a' && "model"@[0] == 'm' && "files"@[0] == 'f');
}

/// A workflow's body holds the argument, and the parent where there is one; nothing
/// else.
pub proof fn law_a_workflow_body_says_what_was_asked(
    arg: &str,
    parent: Option<&str>,
    r: serde_json::Value,
)
    requires
        call_ensures(workflow_body, (arg, parent), r),
    ensures
        contents(r).text_member("arg"@) == Some(arg@),
        match parent {
            Some(p) => contents(r).text_member("parent"@) == Some(p@),
            None => contents(r).member("parent"@) is None,
        },
        forall|key: Seq<char>|
            (#[trigger] contents(r).member(key)) is Some ==> key == "arg"@ || key == "parent"@,
{
    assert("arg"@ != "parent"@) by {
        reveal_strlit("arg");
        reveal_strlit("parent");
        assert("arg"@.len() != "parent"@.len());
    }
}

/// A permission reply holds the reply, and the message where there is one; nothing
/// else.
pub proof fn law_a_permission_body_says_the_reply(
    reply: &str,
    message: Option<&str>,
    r: serde_json::Value,
)
    requires
        call_ensures(permission_reply_body, (reply, message), r),
    ensures
        contents(r).text_member("reply"@) == Some(reply@),
        match message {
            Some(m) => contents(r).text_member("message"@) == Some(m@),
            None => contents(r).member("message"@) is None,
        },
        forall|key: Seq<char>|
            (#[trigger] contents(r).member(key)) is Some ==> key == "reply"@ || key == "message"@,
{
    assert("reply"@ != "message"@) by {
        reveal_strlit("reply");
        reveal_strlit("message");
        assert("reply"@.len() != "message"@.len());
    }
}

/// An object of one text reads back as that text, and has no other member.
pub proof fn law_a_text_object_reads_back(key: &str, value: &str, r: serde_json::Value)
    requires
        call_ensures(text_object, (key, value), r),
    ensures
        contents(r).text_member(key@) == Some(value@),
        forall|other: Seq<char>| (#[trigger] contents(r).member(other)) is Some ==> other == key@,
{
}

/// The session of a started workflow, and whether a run was cancelled, are read from
/// where the server puts them.
pub proof fn law_answers_read_back(v: &serde_json::Value, session: String, cancelled: bool)
    requires
        call_ensures(started_session, (v,), session),
        call_ensures(was_cancelled, (v,), cancelled),
    ensures
        match contents(*v).member("session"@) {
            Some(Json::Text(id)) => session@ == id,
            _ => session@.len() == 0,
        },
        cancelled <==> contents(*v).member("cancelled"@) == Some(Json::Bool(true)),
{
}

proof fn lemma_texts_among(items: Seq<Json>)
    ensures
        texts_among(items).len() <= items.len(),
        (forall|i: int| 0 <= i < items.len() ==> (#[trigger] items[i]) is Text) ==> texts_among(
            items,
        ).len() == items.len() && forall|i: int|
            0 <= i < items.len() ==> (#[trigger] items[i]) == Json::Text(texts_among(items)[i]),
        forall|s: Seq<char>|
            (#[trigger] texts_among(items).contains(s)) <==> items.contains(Json::Text(s)),
    decreases items.len(),
{
    if items.len() > 0 {
        let front = items.drop_last();
        lemma_texts_among(front);
        assert(items =~= front.push(items.last()));
        assert forall|s: Seq<char>|
            (#[trigger] texts_among(items).contains(s)) <==> items.contains(Json::Text(s)) by {
            let all = texts_among(items);
            if all.contains(s) {
                let k = choose|k: int| 0 <= k < all.len() && all[k] == s;
                if k < texts_among(front).len() {
                    assert(texts_among(front)[k] == s);
                    assert(texts_among(front).contains(s));
                    assert(front.contains(Json::Text(s)));
                    let j = choose|j: int| 0 <= j < front.len() && front[j] == Json::Text(s);
                    assert(items[j] == Json::Text(s));
                } else {
                    assert(items[items.len() - 1] == Json::Text(s));
                }
            }
            if items.contains(Json::Text(s)) {
                let j = choose|j: int| 0 <= j < items.len() && items[j] == Json::Text(s);
                if j < front.len() {
                    assert(front[j] == Json::Text(s));
                    assert(texts_among(front).contains(s));
                    let k = choose|k: int|
                        0 <= k < texts_among(front).len() && texts_among(front)[k] == s;
                    assert(all[k] == s);
                } else {
                    assert(all[all.len() - 1] == s);
                }
            }
        }
        if forall|i: int| 0 <= i < items.len() ==> (#[trigger] items[i]) is Text {
            assert forall|i: int| 0 <= i < front.len() implies (#[trigger] front[i]) is Text by {
                assert(front[i] == items[i]);
            }
            assert(items[items.len() - 1] is Text);
            assert forall|i: int| 0 <= i < items.len() implies (#[trigger] items[i]) == Json::Text(
                texts_among(items)[i],
            ) by {
                if i < front.len() {
                    assert(front[i] == items[i]);
                }
            }
        }
    }
}

/// A file listing gives the listed paths, all of them and no others, in the order of
/// the server, and tells truthfully whether it was cut short.
pub proof fn law_listed_files_are_the_listed_ones(
    v: &serde_json::Value,
    items: Seq<Json>,
    r: (Vec<String>, bool),
)
    requires
        call_ensures(listed_files, (v,), r),
        contents(*v).member("files"@) == Some(Json::Array(items)),
    ensures
        r.1 <==> contents(*v).member("truncated"@) == Some(Json::Bool(true)),
        forall|s: Seq<char>|
            (#[trigger] r.0.deep_view().contains(s)) <==> items.contains(Json::Text(s)),
        (forall|i: int| 0 <= i < items.len() ==> (#[trigger] items[i]) is Text) ==> r.0@.len()
            == items.len() && forall|i: int|
            0 <= i < items.len() ==> (#[trigger] items[i]) == Json::Text(r.0@[i]@),
{
    lemma_texts_among(items);
    let all = r.0.deep_view();
    assert(all == texts_among(items));
    if forall|i: int| 0 <= i < items.len() ==> (#[trigger] items[i]) is Text {
        assert forall|i: int| 0 <= i < items.len() implies (#[trigger] items[i]) == Json::Text(
            r.0@[i]@,
        ) by {
            assert(all[i] == r.0@[i]@);
        }
    }
}

/// The session to reopen is in the list, and no other was updated later; of those that
/// were updated at the same time, none was created later.
pub proof fn law_the_latest_session_is_reopened(
    sessions: &[SessionInfo],
    r: Option<&SessionInfo>,
)
    requires
        call_ensures(most_recent_session, (sessions,), r),
    ensures
        sessions@.len() == 0 <==> r is None,
        r matches Some(s) ==> sessions@.contains(*s) && forall|j: int|
            0 <= j < sessions@.len() ==> {
                let other = #[trigger] sessions@[j];
                &&& other.time_updated <= s.time_updated
                &&& other.time_updated == s.time_updated ==> other.time_created <= s.time_created
            },
{
    if let Some(s) = r {
        let all = sessions.deep_view();
        let i = choose|i: int| #[trigger] is_most_recent(all, i) && *s == sessions@[i];
        assert forall|j: int| 0 <= j < sessions@.len() implies {
            let other = #[trigger] sessions@[j];
            &&& other.time_updated <= s.time_updated
            &&& other.time_updated == s.time_updated ==> other.time_created <= s.time_created
        } by {
            assert(all[j] == sessions@[j].deep_view());
            assert(all[i] == sessions@[i].deep_view());
            assert(no_later(all[j], all[i]));
        }
    }
}

/// What the server calls a model or a provider: the text of its `id`, or of its `name`.
pub open spec fn is_called(v: Json, name: Seq<char>) -> bool {
    v.member("id"@) == Some(Json::Text(name)) || (v.member("id"@) is None && v.member("name"@) == Some(
        Json::Text(name),
    ))
}

proof fn lemma_listed_models(provider: Seq<char>, models: Seq<Json>, names: Seq<Seq<char>>)
    requires
        names.len() == models.len(),
        forall|i: int| 0 <= i < models.len() ==> is_called(#[trigger] models[i], names[i]),
    ensures
        listed_models(provider, models).len() == names.len(),
        forall|i: int|
            0 <= i < names.len() ==> (#[trigger] listed_models(provider, models)[i])
                == (ModelChoiceModel { provider, model: names[i] }),
    decreases models.len(),
{
    if models.len() > 0 {
        let front = models.drop_last();
        assert forall|i: int| 0 <= i < front.len() implies is_called(
            #[trigger] front[i],
            names.drop_last()[i],
        ) by {
            assert(front[i] == models[i]);
        }
        lemma_listed_models(provider, front, names.drop_last());
        assert(is_called(models[models.len() - 1], names[names.len() - 1]));
        assert forall|i: int| 0 <= i < names.len() implies (#[trigger] listed_models(
            provider,
            models,
        )[i]) == (ModelChoiceModel { provider, model: names[i] }) by {
            if i < front.len() {
                assert(listed_models(provider, models)[i] == listed_models(provider, front)[i]);
            }
        }
    }
}

/// A provider offers each of its models, in order, under its own name: those of a list
/// by what they are called, those of an object by their keys, each once.
pub proof fn law_a_provider_offers_its_models(
    p: Json,
    provider: Seq<char>,
    names: Seq<Seq<char>>,
)
    requires
        is_called(p, provider),
        provider.len() > 0,
        match p.member("models"@) {
            Some(Json::Array(models)) => names.len() == models.len() && forall|i: int|
                0 <= i < models.len() ==> is_called(#[trigger] models[i], names[i]),
            Some(Json::Object(m)) => lists(names, m.dom()),
            _ => names.len() == 0,
        },
    ensures
        catalogue(Json::Array(seq![p])).len() == names.len(),
        forall|i: int|
            0 <= i < names.len() ==> (#[trigger] catalogue(Json::Array(seq![p]))[i]) == (
            ModelChoiceModel { provider, model: names[i] }),
{
    let all = catalogue(Json::Array(seq![p]));
    assert(seq![p].drop_last() =~= Seq::<Json>::empty());
    assert(seq![p].last() == p);
    assert(all_models(seq![p].drop_last()).len() == 0);
    assert(all =~= provider_models(p));
    match p.member("models"@) {
        Some(Json::Array(models)) => lemma_listed_models(provider, models, names),
        Some(Json::Object(m)) => {
            law_member_names_are_listed(names, m);
        },
        _ => {},
    }
}

/// The choices of several providers are those of each, one provider behind the other;
/// it makes no difference whether they come bare or under `providers`.
pub proof fn law_providers_add_up(a: Seq<Json>, b: Seq<Json>, v: Json)
    requires
        v.member("providers"@) == Some(Json::Array(a + b)),
    ensures
        catalogue(v) == catalogue(Json::Array(a)) + catalogue(Json::Array(b)),
        catalogue(Json::Array(a + b)) == catalogue(v),
    decreases b.len(),
{
    if b.len() == 0 {
        assert(a + b =~= a);
        assert(all_models(a) + Seq::<ModelChoiceModel>::empty() =~= all_models(a));
    } else {
        let w = Json::Object(
            Map::empty().insert("providers"@, Json::Array(a + b.drop_last())),
        );
        law_providers_add_up(a, b.drop_last(), w);
        assert((a + b).drop_last() =~= a + b.drop_last());
        assert((a + b).last() == b.last());
        assert(all_models(a + b) =~= all_models(a) + all_models(b));
    }
}

/// A model goes by its provider and its own name, so that two models go by one name only where
/// both are the same, as long as no provider has a slash in its name.
pub proof fn law_a_model_goes_by_its_provider(a: ModelChoiceModel, b: ModelChoiceModel)
    requires
        forall|i: int| 0 <= i < a.provider.len() ==> (#[trigger] a.provider[i]) != '/',
        forall|i: int| 0 <= i < b.provider.len() ==> (#[trigger] b.provider[i]) != '/',
        a.id() == b.id(),
    ensures
        a.provider == b.provider && a.model == b.model,
        a.id().len() == a.provider.len() + 1 + a.model.len(),
        a.id()[a.provider.len() as int] == '/',
        a.id().take(a.provider.len() as int) == a.provider,
{
    reveal_strlit("/");
    assert("/"@.len() == 1 && "/"@[0] == '/');
    let n = a.provider.len() as int;
    let m = b.provider.len() as int;
    assert(a.id()[n] == '/');
    assert(b.id()[m] == '/');
    if n < m {
        assert(b.id()[n] == b.provider[n]);
    } else if m < n {
        assert(a.id()[m] == a.provider[m]);
    }
    assert(a.id().take(n) =~= a.provider);
    assert(b.id().take(n) =~= b.provider);
    assert(a.id().skip(n + 1) =~= a.model);
    assert(b.id().skip(n + 1) =~= b.model);
}

} // verus!
