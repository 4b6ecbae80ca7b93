//! The multi-session dashboard: which sessions it lists, in which order, and
//! what it shows of the selected one.

use crate::client::{SessionInfo, SessionInfoModel};
use crate::sse::{PermissionAsked, PermissionAskedModel, QuestionAsked, QuestionAskedModel};
use crate::state::{step, stepped, Msg, MsgModel, QuestionReplyKind, QuestionReplyKindModel};
use crate::text::{contains, has, is_text, listed, same};
use vstd::prelude::*;

verus! {

/// A set of session ids.
#[derive(Debug)]
pub struct PinSet {
    ids: Vec<String>,
}

impl DeepView for PinSet {
    type V = Set<Seq<char>>;

    closed spec fn deep_view(&self) -> Set<Seq<char>> {
        self.ids.deep_view().to_set()
    }
}

impl PinSet {
    pub fn new() -> (r: Self)
        ensures
            r.deep_view() == Set::<Seq<char>>::empty(),
    {
        let r = PinSet { ids: Vec::new() };
        assert(r.deep_view() =~= Set::<Seq<char>>::empty());
        r
    }

    /// Whether `id` is in the set.
    pub fn contains(&self, id: &str) -> (r: bool)
        ensures
            r == self.deep_view().contains(id@),
    {
        let ids = self.ids.as_slice();
        assert(ids.deep_view() =~= self.ids.deep_view());
        listed(ids, id)
    }

    /// Whether nothing is in the set.
    pub fn is_empty(&self) -> (r: bool)
        ensures
            r == (self.deep_view() == Set::<Seq<char>>::empty()),
    {
        let n: usize = self.ids.len();
        proof {
            let ids = self.ids.deep_view();
            if n > 0 {
                assert(ids[0] == self.ids@[0]@);
                assert(self.deep_view().contains(ids[0]));
            } else {
                assert(self.deep_view() =~= Set::<Seq<char>>::empty());
            }
        }
        n == 0
    }

    /// Adds `id`.
    pub fn insert(&mut self, id: String)
        ensures
            final(self).deep_view() == old(self).deep_view().insert(id@),
    {
        let ghost before = self.ids.deep_view();
        self.ids.push(id);
        proof {
            assert(self.ids.deep_view() =~= before.push(id@));
            before.lemma_push_to_set_commute(id@);
        }
    }

    /// Removes `id`; tells whether it was there.
    pub fn remove(&mut self, id: &str) -> (r: bool)
        ensures
            r == old(self).deep_view().contains(id@),
            final(self).deep_view() == old(self).deep_view().remove(id@),
    {
        let ghost all = self.ids.deep_view();
        let mut kept: Vec<String> = Vec::new();
        let mut found: bool = false;
        let mut i: usize = 0;
        assert(kept.deep_view().to_set() =~= all.take(0).to_set().remove(id@));
        while i < self.ids.len()
            invariant
                i <= self.ids@.len(),
                all == self.ids.deep_view(),
                found == all.take(i as int).to_set().contains(id@),
                kept.deep_view().to_set() == all.take(i as int).to_set().remove(id@),
            decreases self.ids@.len() - i,
        {
            let ghost before = kept.deep_view();
            let ghost one = self.ids@[i as int]@;
            proof {
                assert(all.take(i + 1) =~= all.take(i as int).push(one));
                all.take(i as int).lemma_push_to_set_commute(one);
            }
            if same(self.ids[i].as_str(), id) {
                found = true;
                assert(all.take(i as int).to_set().insert(one).remove(one) =~= all.take(
                    i as int,
                ).to_set().remove(one));
            } else {
                kept.push(self.ids[i].clone());
                proof {
                    assert(kept.deep_view() =~= before.push(one));
                    before.lemma_push_to_set_commute(one);
                    assert(kept.deep_view().to_set() =~= all.take(i + 1).to_set().remove(id@));
                }
            }
            i += 1;
        }
        assert(all.take(i as int) =~= all);
        self.ids = kept;
        proof {
            assert(self.deep_view() =~= old(self).deep_view().remove(id@));
        }
        found
    }
}

impl Default for PinSet {
    fn default() -> (r: Self)
        ensures
            r.deep_view() == Set::<Seq<char>>::empty(),
    {
        PinSet::new()
    }
}

/// A dashboard row's derived status. Rows that await an answer come first, then
/// busy ones, then idle ones.
#[derive(Debug, PartialEq)]
pub enum DashboardStatus {
    /// A pending permission ask: all that an inline reply needs.
    AwaitingPermission(PermissionAsked),
    /// A pending question ask.
    AwaitingQuestion(QuestionAsked),
    Busy,
    Idle,
}

/// The value of a [`DashboardStatus`].
#[verifier::ext_equal]
pub enum DashboardStatusModel {
    AwaitingPermission(PermissionAskedModel),
    AwaitingQuestion(QuestionAskedModel),
    Busy,
    Idle,
}

impl DeepView for DashboardStatus {
    type V = DashboardStatusModel;

    open spec fn deep_view(&self) -> DashboardStatusModel {
        match self {
            DashboardStatus::AwaitingPermission(a) => DashboardStatusModel::AwaitingPermission(a.deep_view()),
            DashboardStatus::AwaitingQuestion(a) => DashboardStatusModel::AwaitingQuestion(a.deep_view()),
            DashboardStatus::Busy => DashboardStatusModel::Busy,
            DashboardStatus::Idle => DashboardStatusModel::Idle,
        }
    }
}

impl Clone for DashboardStatus {
    fn clone(&self) -> (r: Self)
        ensures
            r.deep_view() == self.deep_view(),
    {
        match self {
            DashboardStatus::AwaitingPermission(a) => DashboardStatus::AwaitingPermission(a.clone()),
            DashboardStatus::AwaitingQuestion(a) => DashboardStatus::AwaitingQuestion(a.clone()),
            DashboardStatus::Busy => DashboardStatus::Busy,
            DashboardStatus::Idle => DashboardStatus::Idle,
        }
    }
}

/// One session row of the dashboard.
#[derive(Debug, PartialEq)]
pub struct DashboardRow {
    pub session: SessionInfo,
    pub status: DashboardStatus,
    /// Whether this row is a workflow task that follows its workflow's row.
    pub indent: bool,
}

/// The value of a [`DashboardRow`].
#[verifier::ext_equal]
pub struct DashboardRowModel {
    pub session: SessionInfoModel,
    pub status: DashboardStatusModel,
    pub indent: bool,
}

impl DeepView for DashboardRow {
    type V = DashboardRowModel;

    open spec fn deep_view(&self) -> DashboardRowModel {
        DashboardRowModel {
            session: self.session.deep_view(),
            status: self.status.deep_view(),
            indent: self.indent,
        }
    }
}

impl Clone for DashboardRow {
    fn clone(&self) -> (r: Self)
        ensures
            r.deep_view() == self.deep_view(),
    {
        DashboardRow {
            session: self.session.clone(),
            status: self.status.clone(),
            indent: self.indent,
        }
    }
}

/// Copies of the items of `v`.
pub fn copy_dashboard_rows(v: &[DashboardRow]) -> (r: Vec<DashboardRow>)
    ensures
        r.deep_view() == v.deep_view(),
{
    let mut out: Vec<DashboardRow> = Vec::new();
    let mut i: usize = 0;
    while i < v.len()
        invariant
            i <= v@.len(),
            out.deep_view() == v.deep_view().take(i as int),
        decreases v@.len() - i,
    {
        let ghost before = out.deep_view();
        out.push(v[i].clone());
        assert(out.deep_view() =~= before.push(v@[i as int].deep_view()));
        assert(v.deep_view().take(i + 1) =~= before.push(v@[i as int].deep_view()));
        i += 1;
    }
    assert(v.deep_view().take(i as int) =~= v.deep_view());
    out
}

/// What the peek panel shows for the selected row.
#[derive(Debug, PartialEq)]
pub enum DashboardPeek {
    Loading,
    /// The latest response of an idle or busy session.
    Message(String),
    /// A pending permission ask, answered by a key.
    Permission,
    /// A pending single-choice question, answered by a digit.
    Question { highlight: usize },
    /// An ask that only the session itself can answer: several questions, or
    /// several choices.
    NeedsFullSession,
}

/// The value of a [`DashboardPeek`].
#[verifier::ext_equal]
pub enum DashboardPeekModel {
    Loading,
    Message(Seq<char>),
    Permission,
    Question { highlight: usize },
    NeedsFullSession,
}

impl DeepView for DashboardPeek {
    type V = DashboardPeekModel;

    open spec fn deep_view(&self) -> DashboardPeekModel {
        match self {
            DashboardPeek::Loading => DashboardPeekModel::Loading,
            DashboardPeek::Message(a) => DashboardPeekModel::Message(a.deep_view()),
            DashboardPeek::Permission => DashboardPeekModel::Permission,
            DashboardPeek::Question { highlight } => DashboardPeekModel::Question { highlight: *highlight },
            DashboardPeek::NeedsFullSession => DashboardPeekModel::NeedsFullSession,
        }
    }
}

impl Clone for DashboardPeek {
    fn clone(&self) -> (r: Self)
        ensures
            r.deep_view() == self.deep_view(),
    {
        match self {
            DashboardPeek::Loading => DashboardPeek::Loading,
            DashboardPeek::Message(a) => DashboardPeek::Message(a.clone()),
            DashboardPeek::Permission => DashboardPeek::Permission,
            DashboardPeek::Question { highlight } => DashboardPeek::Question { highlight: *highlight },
            DashboardPeek::NeedsFullSession => DashboardPeek::NeedsFullSession,
        }
    }
}

/// Which input mode the dashboard is in.
#[derive(Debug, PartialEq)]
pub enum DashboardMode {
    Browsing,
    /// Typing edits the filter, which applies at once.
    Filter,
    /// Typing edits the title of a session to create.
    NewSession(String),
}

/// The value of a [`DashboardMode`].
#[verifier::ext_equal]
pub enum DashboardModeModel {
    Browsing,
    Filter,
    NewSession(Seq<char>),
}

impl DeepView for DashboardMode {
    type V = DashboardModeModel;

    open spec fn deep_view(&self) -> DashboardModeModel {
        match self {
            DashboardMode::Browsing => DashboardModeModel::Browsing,
            DashboardMode::Filter => DashboardModeModel::Filter,
            DashboardMode::NewSession(a) => DashboardModeModel::NewSession(a.deep_view()),
        }
    }
}

impl Clone for DashboardMode {
    fn clone(&self) -> (r: Self)
        ensures
            r.deep_view() == self.deep_view(),
    {
        match self {
            DashboardMode::Browsing => DashboardMode::Browsing,
            DashboardMode::Filter => DashboardMode::Filter,
            DashboardMode::NewSession(a) => DashboardMode::NewSession(a.clone()),
        }
    }
}

/// The multi-session dashboard: sessions other than the attached one, with a
/// selection and the selected row's peek.
#[derive(Debug)]
pub struct DashboardState {
    /// The rows as shown.
    pub rows: Vec<DashboardRow>,
    /// Every row, before pins and filter; where it is empty the shown rows
    /// stand for it.
    pub all_rows: Vec<DashboardRow>,
    pub selected: usize,
    pub peek: DashboardPeek,
    /// Sessions pinned to the top. Survives reopening.
    pub pinned: PinSet,
    pub mode: DashboardMode,
    /// Shows only rows whose title holds this text, without regard to case.
    pub filter: String,
    /// Whether the rows are known to be out of date, so that the next tick
    /// should fetch.
    pub needs_refetch: bool,
}

/// The value of a [`DashboardState`].
#[verifier::ext_equal]
pub struct DashboardStateModel {
    pub rows: Seq<DashboardRowModel>,
    pub all_rows: Seq<DashboardRowModel>,
    pub selected: usize,
    pub peek: DashboardPeekModel,
    pub pinned: Set<Seq<char>>,
    pub mode: DashboardModeModel,
    pub filter: Seq<char>,
    pub needs_refetch: bool,
}

impl DeepView for DashboardState {
    type V = DashboardStateModel;

    open spec fn deep_view(&self) -> DashboardStateModel {
        DashboardStateModel {
            rows: self.rows.deep_view(),
            all_rows: self.all_rows.deep_view(),
            selected: self.selected,
            peek: self.peek.deep_view(),
            pinned: self.pinned.deep_view(),
            mode: self.mode.deep_view(),
            filter: self.filter.deep_view(),
            needs_refetch: self.needs_refetch,
        }
    }
}

// ---------------------------------------------------------------------------
// Status and peek
// ---------------------------------------------------------------------------

/// The first permission ask of session `id`.
pub open spec fn permission_for(asks: Seq<PermissionAskedModel>, id: Seq<char>) -> Option<
    PermissionAskedModel,
>
    decreases asks.len(),
{
    if asks.len() == 0 {
        None
    } else if asks[0].session_id == id {
        Some(asks[0])
    } else {
        permission_for(asks.skip(1), id)
    }
}

/// The first question ask of session `id`.
pub open spec fn question_for(asks: Seq<QuestionAskedModel>, id: Seq<char>) -> Option<
    QuestionAskedModel,
>
    decreases asks.len(),
{
    if asks.len() == 0 {
        None
    } else if asks[0].session_id == id {
        Some(asks[0])
    } else {
        question_for(asks.skip(1), id)
    }
}

/// What a poll tells of the sessions: the sessions and the pending asks.
#[verifier::ext_equal]
pub struct Poll {
    pub sessions: Seq<SessionInfoModel>,
    pub permissions: Seq<PermissionAskedModel>,
    pub questions: Seq<QuestionAskedModel>,
}

/// A session's status: a pending ask wins over the session's own busy flag.
pub open spec fn status_of(
    s: SessionInfoModel,
    permissions: Seq<PermissionAskedModel>,
    questions: Seq<QuestionAskedModel>,
) -> DashboardStatusModel {
    match permission_for(permissions, s.id) {
        Some(p) => DashboardStatusModel::AwaitingPermission(p),
        None => match question_for(questions, s.id) {
            Some(q) => DashboardStatusModel::AwaitingQuestion(q),
            None => if s.busy {
                DashboardStatusModel::Busy
            } else {
                DashboardStatusModel::Idle
            },
        },
    }
}

/// Derives a row's status from a poll's permission and question answers: a
/// pending ask always wins over the session's own `busy` flag.
pub fn derive_dashboard_status(
    s: &SessionInfo,
    permissions: &[PermissionAsked],
    questions: &[QuestionAsked],
) -> (r: DashboardStatus)
    ensures
        r.deep_view() == status_of(s.deep_view(), permissions.deep_view(), questions.deep_view()),
{
    let ghost ps = permissions.deep_view();
    let ghost qs = questions.deep_view();
    let mut i: usize = 0;
    assert(ps.skip(0) =~= ps);
    while i < permissions.len()
        invariant
            i <= permissions@.len(),
            ps == permissions.deep_view(),
            permission_for(ps, s.id@) == permission_for(ps.skip(i as int), s.id@),
        decreases permissions@.len() - i,
    {
        proof {
            assert(ps.skip(i as int)[0] == permissions@[i as int].deep_view());
            assert(ps.skip(i as int).skip(1) =~= ps.skip(i + 1));
        }
        if same(permissions[i].session_id.as_str(), s.id.as_str()) {
            return DashboardStatus::AwaitingPermission(permissions[i].clone());
        }
        i += 1;
    }
    i = 0;
    assert(qs.skip(0) =~= qs);
    while i < questions.len()
        invariant
            i <= questions@.len(),
            qs == questions.deep_view(),
            permission_for(permissions.deep_view(), s.id@) is None,
            question_for(qs, s.id@) == question_for(qs.skip(i as int), s.id@),
        decreases questions@.len() - i,
    {
        proof {
            assert(qs.skip(i as int)[0] == questions@[i as int].deep_view());
            assert(qs.skip(i as int).skip(1) =~= qs.skip(i + 1));
        }
        if same(questions[i].session_id.as_str(), s.id.as_str()) {
            return DashboardStatus::AwaitingQuestion(questions[i].clone());
        }
        i += 1;
    }
    if s.busy {
        DashboardStatus::Busy
    } else {
        DashboardStatus::Idle
    }
}

/// What the peek panel shows at first for a row of a given status.
pub open spec fn peek_for(status: DashboardStatusModel) -> DashboardPeekModel {
    match status {
        DashboardStatusModel::AwaitingPermission(_) => DashboardPeekModel::Permission,
        DashboardStatusModel::AwaitingQuestion(q) => if q.questions.len() == 1
            && !q.questions[0].multiple {
            DashboardPeekModel::Question { highlight: 0 }
        } else {
            DashboardPeekModel::NeedsFullSession
        },
        DashboardStatusModel::Busy => DashboardPeekModel::Loading,
        DashboardStatusModel::Idle => DashboardPeekModel::Loading,
    }
}

impl DashboardStatusModel {
    /// Whether the row awaits an answer.
    pub open spec fn awaits(self) -> bool {
        self is AwaitingPermission || self is AwaitingQuestion
    }
}

impl DashboardStateModel {
    /// What the peek panel shows at first for the selected row.
    pub open spec fn first_peek(self) -> DashboardPeekModel {
        if self.selected < self.rows.len() {
            peek_for(self.rows[self.selected as int].status)
        } else {
            DashboardPeekModel::Loading
        }
    }

    /// Every row, before pins and filter.
    pub open spec fn base(self) -> Seq<DashboardRowModel> {
        if self.all_rows.len() == 0 {
            self.rows
        } else {
            self.all_rows
        }
    }

    /// The dashboard as it opens, with the given pins.
    pub open spec fn fresh(pinned: Set<Seq<char>>) -> DashboardStateModel {
        DashboardStateModel {
            rows: Seq::empty(),
            all_rows: Seq::empty(),
            selected: 0,
            peek: DashboardPeekModel::Loading,
            pinned,
            mode: DashboardModeModel::Browsing,
            filter: Seq::empty(),
            needs_refetch: false,
        }
    }
}

impl DashboardState {
    /// Computes the peek state of the selected row from its status. Busy and idle
    /// rows start out loading; what an ask needs came with the poll.
    pub fn derive_peek(&self) -> (r: DashboardPeek)
        ensures
            r.deep_view() == self.deep_view().first_peek(),
    {
        if self.selected < self.rows.len() {
            let ghost m = self.deep_view();
            assert(m.rows[self.selected as int] == self.rows@[self.selected as int].deep_view());
            match &self.rows[self.selected].status {
                DashboardStatus::AwaitingPermission(_) => DashboardPeek::Permission,
                DashboardStatus::AwaitingQuestion(q) => {
                    if q.questions.len() == 1 && !q.questions[0].multiple {
                        assert(q.questions.deep_view()[0] == q.questions@[0].deep_view());
                        DashboardPeek::Question { highlight: 0 }
                    } else {
                        if q.questions.len() == 1 {
                            assert(q.questions.deep_view()[0] == q.questions@[0].deep_view());
                        }
                        DashboardPeek::NeedsFullSession
                    }
                },
                DashboardStatus::Busy => DashboardPeek::Loading,
                DashboardStatus::Idle => DashboardPeek::Loading,
            }
        } else {
            DashboardPeek::Loading
        }
    }
}

impl Default for DashboardState {
    fn default() -> (r: Self)
        ensures
            r.deep_view() == DashboardStateModel::fresh(Set::empty()),
    {
        let r = DashboardState {
            rows: Vec::new(),
            all_rows: Vec::new(),
            selected: 0,
            peek: DashboardPeek::Loading,
            pinned: PinSet::new(),
            mode: DashboardMode::Browsing,
            filter: String::new(),
            needs_refetch: false,
        };
        assert(r.deep_view() =~= DashboardStateModel::fresh(Set::empty()));
        r
    }
}

// ---------------------------------------------------------------------------
// Rows
// ---------------------------------------------------------------------------

/// The rank of a status: what needs an answer first, then busy, then idle.
pub open spec fn rank_of(s: DashboardStatusModel) -> int {
    match s {
        DashboardStatusModel::AwaitingPermission(_) => 0,
        DashboardStatusModel::AwaitingQuestion(_) => 0,
        DashboardStatusModel::Busy => 1,
        DashboardStatusModel::Idle => 2,
    }
}

/// Whether row `a` belongs strictly before row `b`: by rank, then by the most
/// recent activity.
pub open spec fn row_before(a: DashboardRowModel, b: DashboardRowModel) -> bool {
    rank_of(a.status) < rank_of(b.status) || (rank_of(a.status) == rank_of(b.status)
        && a.session.time_updated > b.session.time_updated)
}

/// How many leading rows of `rows` the row `r` does not belong strictly before.
pub open spec fn row_slot(rows: Seq<DashboardRowModel>, r: DashboardRowModel) -> nat
    decreases rows.len(),
{
    if rows.len() == 0 || row_before(r, rows[0]) {
        0
    } else {
        1 + row_slot(rows.skip(1), r)
    }
}

/// `rows` in order; rows that tie keep their places.
pub open spec fn sorted_rows(rows: Seq<DashboardRowModel>) -> Seq<DashboardRowModel>
    decreases rows.len(),
{
    if rows.len() == 0 {
        Seq::empty()
    } else {
        let before = sorted_rows(rows.drop_last());
        before.insert(row_slot(before, rows.last()) as int, rows.last())
    }
}

/// How many leading sessions of `ss` were active no later than `s`.
pub open spec fn task_slot(ss: Seq<SessionInfoModel>, s: SessionInfoModel) -> nat
    decreases ss.len(),
{
    if ss.len() == 0 || s.time_updated < ss[0].time_updated {
        0
    } else {
        1 + task_slot(ss.skip(1), s)
    }
}

/// Whether `s` has a dashboard row of its own: a top-level session or the root
/// of a workflow, other than the attached one.
pub open spec fn is_primary(s: SessionInfoModel, attached: Option<Seq<char>>) -> bool {
    (s.parent_id is None || s.kind == Some("workflow_root"@)) && Some(s.id) != attached
}

/// Whether `s` is a workflow task under `parent`.
pub open spec fn is_task_of(s: SessionInfoModel, parent: Seq<char>) -> bool {
    s.kind == Some("workflow_task"@) && s.parent_id == Some(parent)
}

impl Poll {
    /// The row of a session.
    pub open spec fn row(self, s: SessionInfoModel, indent: bool) -> DashboardRowModel {
        DashboardRowModel {
            session: s,
            status: status_of(s, self.permissions, self.questions),
            indent,
        }
    }

    /// The rows of the primary sessions among the first `n`, as they come.
    pub open spec fn primary(self, attached: Option<Seq<char>>, n: int) -> Seq<DashboardRowModel>
        decreases n,
    {
        if n <= 0 {
            Seq::empty()
        } else {
            let before = self.primary(attached, n - 1);
            if is_primary(self.sessions[n - 1], attached) {
                before.push(self.row(self.sessions[n - 1], false))
            } else {
                before
            }
        }
    }

    /// The workflow tasks under `parent` among the first `n` sessions, the least
    /// recently active first.
    pub open spec fn tasks(self, parent: Seq<char>, n: int) -> Seq<SessionInfoModel>
        decreases n,
    {
        if n <= 0 {
            Seq::empty()
        } else {
            let before = self.tasks(parent, n - 1);
            let s = self.sessions[n - 1];
            if is_task_of(s, parent) {
                before.insert(task_slot(before, s) as int, s)
            } else {
                before
            }
        }
    }

    /// The rows of `parent`'s workflow tasks.
    pub open spec fn task_rows(self, parent: Seq<char>) -> Seq<DashboardRowModel> {
        self.tasks(parent, self.sessions.len() as int).map_values(
            |s: SessionInfoModel| self.row(s, true),
        )
    }

    /// `rows`, each followed by the rows of its workflow tasks.
    pub open spec fn with_tasks(self, rows: Seq<DashboardRowModel>) -> Seq<DashboardRowModel>
        decreases rows.len(),
    {
        if rows.len() == 0 {
            Seq::empty()
        } else {
            self.with_tasks(rows.drop_last()).push(rows.last()) + self.task_rows(
                rows.last().session.id,
            )
        }
    }

    /// The dashboard rows: the primary sessions in order, each followed by its
    /// workflow tasks.
    pub open spec fn dashboard(self, attached: Option<Seq<char>>) -> Seq<DashboardRowModel> {
        self.with_tasks(sorted_rows(self.primary(attached, self.sessions.len() as int)))
    }
}

/// The rank of a status.
fn rank(s: &DashboardStatus) -> (r: u8)
    ensures
        r == rank_of(s.deep_view()),
{
    match s {
        DashboardStatus::AwaitingPermission(_) => 0,
        DashboardStatus::AwaitingQuestion(_) => 0,
        DashboardStatus::Busy => 1,
        DashboardStatus::Idle => 2,
    }
}

/// Whether row `a` belongs strictly before row `b`.
fn comes_before(a: &DashboardRow, b: &DashboardRow) -> (r: bool)
    ensures
        r == row_before(a.deep_view(), b.deep_view()),
{
    let x: u8 = rank(&a.status);
    let y: u8 = rank(&b.status);
    x < y || (x == y && a.session.time_updated > b.session.time_updated)
}

/// Puts `row` in its place among `rows`.
fn insert_row(rows: &mut Vec<DashboardRow>, row: DashboardRow)
    ensures
        final(rows).deep_view() == old(rows).deep_view().insert(
            row_slot(old(rows).deep_view(), row.deep_view()) as int,
            row.deep_view(),
        ),
{
    let ghost all = rows.deep_view();
    let ghost m = row.deep_view();
    let mut p: usize = 0;
    assert(all.skip(0) =~= all);
    while p < rows.len() && !comes_before(&row, &rows[p])
        invariant
            p <= rows@.len(),
            all == rows.deep_view(),
            m == row.deep_view(),
            row_slot(all, m) == p + row_slot(all.skip(p as int), m),
        decreases rows@.len() - p,
    {
        proof {
            assert(all.skip(p as int)[0] == rows@[p as int].deep_view());
            assert(all.skip(p as int).skip(1) =~= all.skip(p + 1));
        }
        p += 1;
    }
    proof {
        if p < rows@.len() {
            assert(all.skip(p as int)[0] == rows@[p as int].deep_view());
        }
        assert(row_slot(all, m) == p);
    }
    rows.insert(p, row);
    assert(rows.deep_view() =~= all.insert(p as int, m));
}

/// Puts `s` in its place among `tasks`.
fn insert_task(tasks: &mut Vec<SessionInfo>, s: SessionInfo)
    ensures
        final(tasks).deep_view() == old(tasks).deep_view().insert(
            task_slot(old(tasks).deep_view(), s.deep_view()) as int,
            s.deep_view(),
        ),
{
    let ghost all = tasks.deep_view();
    let ghost m = s.deep_view();
    let mut p: usize = 0;
    assert(all.skip(0) =~= all);
    while p < tasks.len() && !(s.time_updated < tasks[p].time_updated)
        invariant
            p <= tasks@.len(),
            all == tasks.deep_view(),
            m == s.deep_view(),
            task_slot(all, m) == p + task_slot(all.skip(p as int), m),
        decreases tasks@.len() - p,
    {
        proof {
            assert(all.skip(p as int)[0] == tasks@[p as int].deep_view());
            assert(all.skip(p as int).skip(1) =~= all.skip(p + 1));
        }
        p += 1;
    }
    proof {
        if p < tasks@.len() {
            assert(all.skip(p as int)[0] == tasks@[p as int].deep_view());
        }
        assert(task_slot(all, m) == p);
    }
    tasks.insert(p, s);
    assert(tasks.deep_view() =~= all.insert(p as int, m));
}

/// The workflow tasks under `parent`, the least recently active first.
fn tasks_of(sessions: &[SessionInfo], parent: &str, Ghost(poll): Ghost<Poll>) -> (r: Vec<
    SessionInfo,
>)
    requires
        poll.sessions == sessions.deep_view(),
    ensures
        r.deep_view() == poll.tasks(parent@, poll.sessions.len() as int),
{
    let mut out: Vec<SessionInfo> = Vec::new();
    let mut i: usize = 0;
    assert(out.deep_view() =~= Seq::<SessionInfoModel>::empty());
    while i < sessions.len()
        invariant
            i <= sessions@.len(),
            poll.sessions == sessions.deep_view(),
            out.deep_view() == poll.tasks(parent@, i as int),
        decreases sessions@.len() - i,
    {
        let s = &sessions[i];
        assert(poll.sessions[i as int] == s.deep_view());
        if is_text(&s.kind, "workflow_task") && is_text(&s.parent_id, parent) {
            insert_task(&mut out, s.clone());
        }
        i += 1;
    }
    out
}

/// Builds the dashboard rows from a poll's three answers.
///
/// Primary rows are the top-level sessions and the workflow roots, other than
/// the attached session: those that await an answer first, then busy ones, then
/// idle ones, each by the most recent activity. The workflow tasks of a row
/// follow it, indented, the least recently active first; a task whose root has
/// no row is left out, and so is every other session with a parent. Pins and
/// filter are not applied here (see [`apply_pin_and_filter`]).
pub fn build_dashboard_rows(
    sessions: &[SessionInfo],
    permissions: &[PermissionAsked],
    questions: &[QuestionAsked],
    attached: Option<&str>,
) -> (r: Vec<DashboardRow>)
    ensures
        r.deep_view() == (Poll {
            sessions: sessions.deep_view(),
            permissions: permissions.deep_view(),
            questions: questions.deep_view(),
        }).dashboard(crate::client::opt_text(attached)),
{
    let ghost poll = Poll {
        sessions: sessions.deep_view(),
        permissions: permissions.deep_view(),
        questions: questions.deep_view(),
    };
    let ghost at = crate::client::opt_text(attached);
    let mut rows: Vec<DashboardRow> = Vec::new();
    let mut i: usize = 0;
    assert(rows.deep_view() =~= Seq::<DashboardRowModel>::empty());
    while i < sessions.len()
        invariant
            i <= sessions@.len(),
            poll.sessions == sessions.deep_view(),
            poll.permissions == permissions.deep_view(),
            poll.questions == questions.deep_view(),
            at == crate::client::opt_text(attached),
            rows.deep_view() == sorted_rows(poll.primary(at, i as int)),
        decreases sessions@.len() - i,
    {
        let s = &sessions[i];
        assert(poll.sessions[i as int] == s.deep_view());
        let elsewhere: bool = match attached {
            Some(a) => !same(s.id.as_str(), a),
            None => true,
        };
        if (s.parent_id.is_none() || is_text(&s.kind, "workflow_root")) && elsewhere {
            let row = DashboardRow {
                session: s.clone(),
                status: derive_dashboard_status(s, permissions, questions),
                indent: false,
            };
            proof {
                let grown = poll.primary(at, i + 1);
                assert(row.deep_view() == poll.row(s.deep_view(), false));
                assert(grown.drop_last() =~= poll.primary(at, i as int));
                assert(grown.last() == row.deep_view());
            }
            insert_row(&mut rows, row);
        }
        i += 1;
    }
    let ghost order = rows.deep_view();
    let mut out: Vec<DashboardRow> = Vec::new();
    let mut k: usize = 0;
    assert(out.deep_view() =~= Seq::<DashboardRowModel>::empty());
    while k < rows.len()
        invariant
            k <= rows@.len(),
            order == rows.deep_view(),
            poll.sessions == sessions.deep_view(),
            poll.permissions == permissions.deep_view(),
            poll.questions == questions.deep_view(),
            out.deep_view() == poll.with_tasks(order.take(k as int)),
        decreases rows@.len() - k,
    {
        let ghost start = out.deep_view();
        let ghost row = rows@[k as int].deep_view();
        assert(order[k as int] == row);
        out.push(rows[k].clone());
        assert(out.deep_view() =~= start.push(row));
        let tasks = tasks_of(sessions, rows[k].session.id.as_str(), Ghost(poll));
        let ghost ts = tasks.deep_view();
        let ghost f = |s: SessionInfoModel| poll.row(s, true);
        let ghost pushed = out.deep_view();
        let mut j: usize = 0;
        assert(pushed + ts.take(0).map_values(f) =~= pushed);
        while j < tasks.len()
            invariant
                j <= tasks@.len(),
                ts == tasks.deep_view(),
                poll.permissions == permissions.deep_view(),
                poll.questions == questions.deep_view(),
                f == (|s: SessionInfoModel| poll.row(s, true)),
                out.deep_view() == pushed + ts.take(j as int).map_values(f),
            decreases tasks@.len() - j,
        {
            let ghost before = out.deep_view();
            let t = &tasks[j];
            let child = DashboardRow {
                session: t.clone(),
                status: derive_dashboard_status(t, permissions, questions),
                indent: true,
            };
            let ghost c = child.deep_view();
            out.push(child);
            proof {
                assert(ts[j as int] == t.deep_view());
                assert(c == f(ts[j as int]));
                assert(out.deep_view() =~= before.push(c));
                assert(ts.take(j + 1).map_values(f) =~= ts.take(j as int).map_values(f).push(c));
                assert((pushed + ts.take(j as int).map_values(f)).push(c) =~= pushed + ts.take(
                    j as int,
                ).map_values(f).push(c));
            }
            j += 1;
        }
        proof {
            assert(ts.take(j as int) =~= ts);
            assert(order.take(k + 1).drop_last() =~= order.take(k as int));
            assert(order.take(k + 1).last() == row);
        }
        k += 1;
    }
    assert(order.take(k as int) =~= order);
    out
}

// ---------------------------------------------------------------------------
// Pins and filter
// ---------------------------------------------------------------------------

/// The lower-case form of a text.
pub uninterp spec fn lowercase(s: Seq<char>) -> Seq<char>;

/// `str::to_lowercase`: the Unicode lower-case form.
#[verifier::external_body]
pub(crate) fn to_lowercase(s: &str) -> (r: String)
    ensures
        r@ == lowercase(s@),
{
    s.to_lowercase()
}

/// A primary row and the indented rows that follow it.
pub struct Group {
    pub parent: DashboardRowModel,
    pub children: Seq<DashboardRowModel>,
}

/// `rows` as groups. An indented row with no primary row before it belongs
/// nowhere and is left out.
pub open spec fn grouped(rows: Seq<DashboardRowModel>) -> Seq<Group>
    decreases rows.len(),
{
    if rows.len() == 0 {
        Seq::empty()
    } else {
        let before = grouped(rows.drop_last());
        let r = rows.last();
        if !r.indent {
            before.push(Group { parent: r, children: Seq::empty() })
        } else if before.len() == 0 {
            before
        } else {
            before.drop_last().push(
                Group {
                    parent: before.last().parent,
                    children: before.last().children.push(r),
                },
            )
        }
    }
}

/// The groups whose parent is pinned, or those whose parent is not, in order.
pub open spec fn pinned_part(groups: Seq<Group>, pinned: Set<Seq<char>>, want: bool) -> Seq<Group>
    decreases groups.len(),
{
    if groups.len() == 0 {
        Seq::empty()
    } else {
        let before = pinned_part(groups.drop_last(), pinned, want);
        if pinned.contains(groups.last().parent.session.id) == want {
            before.push(groups.last())
        } else {
            before
        }
    }
}

/// Whether a row's title holds the filter text, without regard to case. A row
/// without a title has an empty one; an empty filter lets everything through.
pub open spec fn title_matches(r: DashboardRowModel, filter: Seq<char>) -> bool {
    filter.len() == 0 || has(lowercase(crate::json::or_empty(r.session.title)), lowercase(filter))
}

/// The rows that match, in order.
pub open spec fn matching_rows(rows: Seq<DashboardRowModel>, filter: Seq<char>) -> Seq<
    DashboardRowModel,
>
    decreases rows.len(),
{
    if rows.len() == 0 {
        Seq::empty()
    } else {
        let before = matching_rows(rows.drop_last(), filter);
        if title_matches(rows.last(), filter) {
            before.push(rows.last())
        } else {
            before
        }
    }
}

/// What is shown of a group: nothing where neither the parent nor a child
/// matches; else the parent and the children that match.
pub open spec fn shown(g: Group, filter: Seq<char>) -> Seq<DashboardRowModel> {
    let children = matching_rows(g.children, filter);
    if !title_matches(g.parent, filter) && children.len() == 0 {
        Seq::empty()
    } else {
        seq![g.parent] + children
    }
}

/// What is shown of `groups`.
pub open spec fn shown_all(groups: Seq<Group>, filter: Seq<char>) -> Seq<DashboardRowModel>
    decreases groups.len(),
{
    if groups.len() == 0 {
        Seq::empty()
    } else {
        shown_all(groups.drop_last(), filter) + shown(groups.last(), filter)
    }
}

/// `rows` as the dashboard shows them: pinned groups first, and only what the
/// filter lets through.
pub open spec fn arranged(
    rows: Seq<DashboardRowModel>,
    pinned: Set<Seq<char>>,
    filter: Seq<char>,
) -> Seq<DashboardRowModel> {
    let groups = grouped(rows);
    shown_all(pinned_part(groups, pinned, true), filter) + shown_all(
        pinned_part(groups, pinned, false),
        filter,
    )
}

/// Whether a row's title holds the filter text.
fn matches_title(row: &DashboardRow, filter: &str, filter_lower: &str) -> (r: bool)
    requires
        filter_lower@ == lowercase(filter@),
    ensures
        r == title_matches(row.deep_view(), filter@),
{
    if filter.is_empty() {
        return true;
    }
    let title = match &row.session.title {
        Some(t) => to_lowercase(t.as_str()),
        None => to_lowercase(""),
    };
    proof {
        reveal_strlit("");
        assert(""@ =~= Seq::<char>::empty());
    }
    contains(title.as_str(), filter_lower)
}

/// Where the group that starts at `i` ends.
fn group_end(rows: &[DashboardRow], i: usize) -> (r: usize)
    requires
        i < rows@.len(),
    ensures
        i < r <= rows@.len(),
        forall|k: int| i < k < r ==> (#[trigger] rows@[k]).indent,
        r < rows@.len() ==> !rows@[r as int].indent,
{
    let n: usize = rows.len();
    assert(i + 1 <= n);
    let mut k: usize = i + 1;
    while k < rows.len() && rows[k].indent
        invariant
            i < k <= rows@.len(),
            forall|j: int| i < j < k ==> (#[trigger] rows@[j]).indent,
        decreases rows@.len() - k,
    {
        k += 1;
    }
    k
}

/// The indented rows that follow a primary row join its group.
proof fn lemma_group_grows(rows: Seq<DashboardRowModel>, i: int, k: int)
    requires
        0 <= i < k <= rows.len(),
        !rows[i].indent,
        forall|j: int| i < j < k ==> (#[trigger] rows[j]).indent,
    ensures
        grouped(rows.take(k)) == grouped(rows.take(i)).push(
            Group { parent: rows[i], children: rows.subrange(i + 1, k) },
        ),
    decreases k,
{
    let now = rows.take(k);
    assert(now.drop_last() =~= rows.take(k - 1));
    assert(now.last() == rows[k - 1]);
    if k == i + 1 {
        assert(rows.subrange(i + 1, k) =~= Seq::<DashboardRowModel>::empty());
    } else {
        lemma_group_grows(rows, i, k - 1);
        let before = grouped(rows.take(k - 1));
        assert(before.drop_last() =~= grouped(rows.take(i)));
        assert(rows.subrange(i + 1, k - 1).push(rows[k - 1]) =~= rows.subrange(i + 1, k));
    }
}

/// Indented rows before the first primary row are in no group.
proof fn lemma_no_group(rows: Seq<DashboardRowModel>, k: int)
    requires
        0 <= k <= rows.len(),
        forall|j: int| 0 <= j < k ==> (#[trigger] rows[j]).indent,
    ensures
        grouped(rows.take(k)) == Seq::<Group>::empty(),
    decreases k,
{
    if k > 0 {
        lemma_no_group(rows, k - 1);
        assert(rows.take(k).drop_last() =~= rows.take(k - 1));
        assert(rows.take(k).last() == rows[k - 1]);
    }
}

/// Appends what is shown of the group `rows[i..end]`.
fn show_group(
    out: &mut Vec<DashboardRow>,
    rows: &[DashboardRow],
    i: usize,
    end: usize,
    filter: &str,
    filter_lower: &str,
)
    requires
        i < end <= rows@.len(),
        filter_lower@ == lowercase(filter@),
    ensures
        final(out).deep_view() == old(out).deep_view() + shown(
            Group {
                parent: rows.deep_view()[i as int],
                children: rows.deep_view().subrange(i + 1, end as int),
            },
            filter@,
        ),
{
    let ghost all = rows.deep_view();
    let ghost children = all.subrange(i + 1, end as int);
    let ghost start = out.deep_view();
    let mut kept: Vec<DashboardRow> = Vec::new();
    let n: usize = rows.len();
    assert(i + 1 <= n);
    let mut k: usize = i + 1;
    assert(kept.deep_view() =~= Seq::<DashboardRowModel>::empty());
    assert(children.take(0) =~= Seq::<DashboardRowModel>::empty());
    while k < end
        invariant
            i < k <= end <= rows@.len(),
            all == rows.deep_view(),
            children == all.subrange(i + 1, end as int),
            filter_lower@ == lowercase(filter@),
            kept.deep_view() == matching_rows(children.take(k - i - 1), filter@),
        decreases end - k,
    {
        let ghost before = kept.deep_view();
        proof {
            let now = children.take(k - i);
            assert(now.drop_last() =~= children.take(k - i - 1));
            assert(now.last() == rows@[k as int].deep_view());
        }
        if matches_title(&rows[k], filter, filter_lower) {
            kept.push(rows[k].clone());
            assert(kept.deep_view() =~= before.push(rows@[k as int].deep_view()));
        }
        k += 1;
    }
    assert(children.take(end - i - 1) =~= children);
    assert(all[i as int] == rows@[i as int].deep_view());
    if matches_title(&rows[i], filter, filter_lower) || kept.len() > 0 {
        out.push(rows[i].clone());
        let ghost with_parent = out.deep_view();
        assert(with_parent =~= start.push(all[i as int]));
        let ghost tail = kept.deep_view();
        out.append(&mut kept);
        proof {
            assert(out.deep_view() =~= with_parent + tail);
            assert(start.push(all[i as int]) + tail =~= start + (seq![all[i as int]] + tail));
        }
    } else {
        assert(start + Seq::<DashboardRowModel>::empty() =~= start);
    }
}

/// Appends what is shown of the groups whose parent is pinned, or of those whose
/// parent is not.
fn show_part(
    out: &mut Vec<DashboardRow>,
    rows: &[DashboardRow],
    pinned: &PinSet,
    want: bool,
    filter: &str,
    filter_lower: &str,
)
    requires
        filter_lower@ == lowercase(filter@),
    ensures
        final(out).deep_view() == old(out).deep_view() + shown_all(
            pinned_part(grouped(rows.deep_view()), pinned.deep_view(), want),
            filter@,
        ),
{
    let ghost all = rows.deep_view();
    let ghost pins = pinned.deep_view();
    let ghost start = out.deep_view();
    let mut i: usize = 0;
    while i < rows.len() && rows[i].indent
        invariant
            i <= rows@.len(),
            all == rows.deep_view(),
            forall|j: int| 0 <= j < i ==> (#[trigger] all[j]).indent,
        decreases rows@.len() - i,
    {
        assert(all[i as int] == rows@[i as int].deep_view());
        i += 1;
    }
    proof {
        lemma_no_group(all, i as int);
        assert(start + Seq::<DashboardRowModel>::empty() =~= start);
    }
    while i < rows.len()
        invariant
            i <= rows@.len(),
            i < rows@.len() ==> !rows@[i as int].indent,
            all == rows.deep_view(),
            pins == pinned.deep_view(),
            filter_lower@ == lowercase(filter@),
            out.deep_view() == start + shown_all(
                pinned_part(grouped(all.take(i as int)), pins, want),
                filter@,
            ),
        decreases rows@.len() - i,
    {
        let end: usize = group_end(rows, i);
        let ghost g = Group {
            parent: all[i as int],
            children: all.subrange(i + 1, end as int),
        };
        let ghost before = grouped(all.take(i as int));
        let ghost part = pinned_part(before, pins, want);
        proof {
            assert(all[i as int] == rows@[i as int].deep_view());
            assert forall|j: int| i < j < end implies (#[trigger] all[j]).indent by {
                assert(all[j] == rows@[j].deep_view());
            }
            lemma_group_grows(all, i as int, end as int);
            assert(before.push(g).drop_last() =~= before);
        }
        if pinned.contains(rows[i].session.id.as_str()) == want {
            show_group(out, rows, i, end, filter, filter_lower);
            proof {
                assert(part.push(g).drop_last() =~= part);
                assert((start + shown_all(part, filter@)) + shown(g, filter@) =~= start + (
                shown_all(part, filter@) + shown(g, filter@)));
            }
        }
        i = end;
    }
    assert(all.take(i as int) =~= all);
}

/// Reorders `rows` so that pinned primary rows come first, and drops the rows
/// that the filter does not let through.
///
/// Primary rows keep their order among the pinned and among the others, and
/// their indented rows go with them. With a filter, a primary row stays where
/// its own title or that of one of its indented rows matches, and of its
/// indented rows those stay that match.
pub fn apply_pin_and_filter(rows: Vec<DashboardRow>, pinned: &PinSet, filter: &str) -> (r: Vec<
    DashboardRow,
>)
    ensures
        r.deep_view() == arranged(rows.deep_view(), pinned.deep_view(), filter@),
{
    let filter_lower = to_lowercase(filter);
    let all = rows.as_slice();
    assert(all.deep_view() =~= rows.deep_view());
    let mut out: Vec<DashboardRow> = Vec::new();
    assert(out.deep_view() =~= Seq::<DashboardRowModel>::empty());
    show_part(&mut out, all, pinned, true, filter, filter_lower.as_str());
    show_part(&mut out, all, pinned, false, filter, filter_lower.as_str());
    proof {
        let a = shown_all(pinned_part(grouped(all.deep_view()), pinned.deep_view(), true), filter@);
        assert(Seq::<DashboardRowModel>::empty() + a =~= a);
    }
    out
}

// ---------------------------------------------------------------------------
// Finding and changing rows
// ---------------------------------------------------------------------------

/// Where the first row of session `id` stands; the length where there is none.
pub open spec fn row_place(rows: Seq<DashboardRowModel>, id: Seq<char>) -> nat
    decreases rows.len(),
{
    if rows.len() == 0 || rows[0].session.id == id {
        0
    } else {
        1 + row_place(rows.skip(1), id)
    }
}

/// Whether a row awaits an answer to the permission ask `id`.
pub open spec fn awaits_permission(r: DashboardRowModel, id: Seq<char>) -> bool {
    r.status matches DashboardStatusModel::AwaitingPermission(p) && p.id == id
}

/// Whether a row awaits an answer to the question ask `id`.
pub open spec fn awaits_question(r: DashboardRowModel, id: Seq<char>) -> bool {
    r.status matches DashboardStatusModel::AwaitingQuestion(q) && q.id == id
}

/// Where the first row that awaits an answer to the permission ask `id` stands.
pub open spec fn permission_place(rows: Seq<DashboardRowModel>, id: Seq<char>) -> nat
    decreases rows.len(),
{
    if rows.len() == 0 || awaits_permission(rows[0], id) {
        0
    } else {
        1 + permission_place(rows.skip(1), id)
    }
}

/// Where the first row that awaits an answer to the question ask `id` stands.
pub open spec fn question_place(rows: Seq<DashboardRowModel>, id: Seq<char>) -> nat
    decreases rows.len(),
{
    if rows.len() == 0 || awaits_question(rows[0], id) {
        0
    } else {
        1 + question_place(rows.skip(1), id)
    }
}

/// `rows` with the row at `i`, where there is one, in the given status.
pub open spec fn with_status(
    rows: Seq<DashboardRowModel>,
    i: nat,
    status: DashboardStatusModel,
) -> Seq<DashboardRowModel> {
    if i < rows.len() {
        rows.update(i as int, DashboardRowModel { status, ..rows[i as int] })
    } else {
        rows
    }
}

/// Where the primary row of session `id` stands; the length where there is none.
pub open spec fn primary_place(rows: Seq<DashboardRowModel>, id: Seq<char>) -> nat
    decreases rows.len(),
{
    if rows.len() == 0 || (rows[0].session.id == id && !rows[0].indent) {
        0
    } else {
        1 + primary_place(rows.skip(1), id)
    }
}

/// `rows` with the first row of session `id` in the given status, unless it
/// awaits an answer.
pub open spec fn flipped_rows(
    rows: Seq<DashboardRowModel>,
    id: Seq<char>,
    status: DashboardStatusModel,
) -> Seq<DashboardRowModel> {
    let i = primary_place(rows, id);
    if i < rows.len() && !rows[i as int].status.awaits() {
        with_status(rows, i, status)
    } else {
        rows
    }
}

impl DashboardStateModel {
    /// With the peek of the selected row, where that is the row `i`.
    pub open spec fn repeeked(self, i: nat) -> DashboardStateModel {
        if i == self.selected {
            DashboardStateModel { peek: self.first_peek(), ..self }
        } else {
            self
        }
    }

    /// After a push event gave the status of session `id`. Only a primary row that is
    /// shown takes it: without one, nothing changes. A pending ask takes precedence
    /// and stays.
    pub open spec fn flipped(self, id: Seq<char>, status: DashboardStatusModel) -> DashboardStateModel {
        let i = primary_place(self.rows, id);
        if i < self.rows.len() && !self.rows[i as int].status.awaits() {
            (DashboardStateModel {
                rows: with_status(self.rows, i, status),
                all_rows: flipped_rows(self.all_rows, id, status),
                ..self
            }).repeeked(i)
        } else {
            self
        }
    }

    /// After the permission ask `id` was answered: its row is idle.
    pub open spec fn permission_settled(self, id: Seq<char>) -> DashboardStateModel {
        let i = permission_place(self.rows, id);
        let all_rows = with_status(
            self.all_rows,
            permission_place(self.all_rows, id),
            DashboardStatusModel::Idle,
        );
        if i < self.rows.len() {
            (DashboardStateModel {
                rows: with_status(self.rows, i, DashboardStatusModel::Idle),
                all_rows,
                ..self
            }).repeeked(i)
        } else {
            DashboardStateModel { all_rows, ..self }
        }
    }

    /// After the question ask `id` was answered: its row is idle.
    pub open spec fn question_settled(self, id: Seq<char>) -> DashboardStateModel {
        let i = question_place(self.rows, id);
        let all_rows = with_status(
            self.all_rows,
            question_place(self.all_rows, id),
            DashboardStatusModel::Idle,
        );
        if i < self.rows.len() {
            (DashboardStateModel {
                rows: with_status(self.rows, i, DashboardStatusModel::Idle),
                all_rows,
                ..self
            }).repeeked(i)
        } else {
            DashboardStateModel { all_rows, ..self }
        }
    }

    /// The id of the selected row's session.
    pub open spec fn selected_id(self) -> Option<Seq<char>> {
        if self.selected < self.rows.len() {
            Some(self.rows[self.selected as int].session.id)
        } else {
            None
        }
    }

    /// With the rows laid out anew from `base`, under the current pins and
    /// filter.
    pub open spec fn laid_out(self, base: Seq<DashboardRowModel>) -> DashboardStateModel {
        DashboardStateModel {
            all_rows: base,
            rows: arranged(base, self.pinned, self.filter),
            ..self
        }
    }

    /// Whether the row of session `id` is shown.
    pub open spec fn shows(self, id: Option<Seq<char>>) -> bool {
        id is Some && row_place(self.rows, id->0) < self.rows.len()
    }

    /// The last row that can be selected.
    pub open spec fn clamped(self) -> usize {
        if self.rows.len() == 0 {
            0
        } else if self.selected < self.rows.len() {
            self.selected
        } else {
            (self.rows.len() - 1) as usize
        }
    }

    /// After a poll came back. The selected session stays selected where it is
    /// still shown, and its peek stays unless the kind of its status changed.
    pub open spec fn polled(self, poll: Poll, attached: Option<Seq<char>>) -> DashboardStateModel {
        let id = self.selected_id();
        let laid = DashboardStateModel {
            needs_refetch: false,
            ..self.laid_out(poll.dashboard(attached))
        };
        if laid.shows(id) {
            let i = row_place(laid.rows, id->0);
            let next = DashboardStateModel { selected: i as usize, ..laid };
            if same_kind(self.rows[self.selected as int].status, laid.rows[i as int].status) {
                next
            } else {
                DashboardStateModel { peek: next.first_peek(), ..next }
            }
        } else {
            let next = DashboardStateModel { selected: laid.clamped(), ..laid };
            DashboardStateModel { peek: next.first_peek(), ..next }
        }
    }

    /// After the latest message of session `id` came back: shown where that
    /// session is still selected.
    pub open spec fn peeked(self, id: Seq<char>, text: Seq<char>) -> DashboardStateModel {
        if self.selected_id() == Some(id) {
            DashboardStateModel { peek: DashboardPeekModel::Message(text), ..self }
        } else {
            self
        }
    }

    /// After session `s` was created from the dashboard: it has a row, which is
    /// selected where it is shown.
    pub open spec fn session_added(self, s: SessionInfoModel) -> DashboardStateModel {
        let row = DashboardRowModel { session: s, status: DashboardStatusModel::Idle, indent: false };
        let laid = self.laid_out(self.base().push(row));
        let next = DashboardStateModel {
            selected: if laid.shows(Some(s.id)) {
                row_place(laid.rows, s.id) as usize
            } else {
                laid.clamped()
            },
            ..laid
        };
        DashboardStateModel { peek: next.first_peek(), ..next }
    }

    /// With the selected session pinned, or no longer pinned; it stays selected.
    pub open spec fn pin_toggled(self) -> DashboardStateModel {
        match self.selected_id() {
            Some(id) => {
                let pinned = if self.pinned.contains(id) {
                    self.pinned.remove(id)
                } else {
                    self.pinned.insert(id)
                };
                let laid = (DashboardStateModel { pinned, ..self }).laid_out(self.base());
                DashboardStateModel {
                    selected: if laid.shows(Some(id)) {
                        row_place(laid.rows, id) as usize
                    } else {
                        0
                    },
                    ..laid
                }
            },
            None => self,
        }
    }

    /// With another filter. The selected session stays selected, with its peek,
    /// where it is still shown; else the first row is selected.
    pub open spec fn filtered(self, filter: Seq<char>) -> DashboardStateModel {
        let id = self.selected_id();
        let laid = (DashboardStateModel { filter, ..self }).laid_out(self.base());
        if laid.shows(id) {
            DashboardStateModel { selected: row_place(laid.rows, id->0) as usize, ..laid }
        } else {
            let next = DashboardStateModel { selected: 0, ..laid };
            DashboardStateModel { peek: next.first_peek(), ..next }
        }
    }
}

/// Whether two statuses are of one kind.
pub open spec fn same_kind(a: DashboardStatusModel, b: DashboardStatusModel) -> bool {
    match a {
        DashboardStatusModel::AwaitingPermission(_) => b is AwaitingPermission,
        DashboardStatusModel::AwaitingQuestion(_) => b is AwaitingQuestion,
        DashboardStatusModel::Busy => b is Busy,
        DashboardStatusModel::Idle => b is Idle,
    }
}

/// The kind of a status.
fn kind_number(s: &DashboardStatus) -> (r: u8)
    ensures
        r == (match s.deep_view() {
            DashboardStatusModel::AwaitingPermission(_) => 0u8,
            DashboardStatusModel::AwaitingQuestion(_) => 1u8,
            DashboardStatusModel::Busy => 2u8,
            DashboardStatusModel::Idle => 3u8,
        }),
{
    match s {
        DashboardStatus::AwaitingPermission(_) => 0,
        DashboardStatus::AwaitingQuestion(_) => 1,
        DashboardStatus::Busy => 2,
        DashboardStatus::Idle => 3,
    }
}

/// Where the first row of session `id` stands.
pub fn find_row(rows: &Vec<DashboardRow>, id: &str) -> (r: usize)
    ensures
        r == row_place(rows.deep_view(), id@),
        r <= rows@.len(),
{
    let ghost all = rows.deep_view();
    let mut i: usize = 0;
    assert(all.skip(0) =~= all);
    while i < rows.len() && !same(rows[i].session.id.as_str(), id)
        invariant
            i <= rows@.len(),
            all == rows.deep_view(),
            row_place(all, id@) == i + row_place(all.skip(i as int), id@),
        decreases rows@.len() - i,
    {
        proof {
            assert(all.skip(i as int)[0] == rows@[i as int].deep_view());
            assert(all.skip(i as int).skip(1) =~= all.skip(i + 1));
        }
        i += 1;
    }
    proof {
        if i < rows@.len() {
            assert(all.skip(i as int)[0] == rows@[i as int].deep_view());
        }
    }
    i
}

/// Where the primary row of session `id` stands.
fn find_primary(rows: &Vec<DashboardRow>, id: &str) -> (r: usize)
    ensures
        r == primary_place(rows.deep_view(), id@),
        r <= rows@.len(),
{
    let ghost all = rows.deep_view();
    let mut i: usize = 0;
    assert(all.skip(0) =~= all);
    while i < rows.len() && (rows[i].indent || !same(rows[i].session.id.as_str(), id))
        invariant
            i <= rows@.len(),
            all == rows.deep_view(),
            primary_place(all, id@) == i + primary_place(all.skip(i as int), id@),
        decreases rows@.len() - i,
    {
        proof {
            assert(all.skip(i as int)[0] == rows@[i as int].deep_view());
            assert(all.skip(i as int).skip(1) =~= all.skip(i + 1));
        }
        i += 1;
    }
    proof {
        if i < rows@.len() {
            assert(all.skip(i as int)[0] == rows@[i as int].deep_view());
        }
    }
    i
}

/// Whether a row awaits an answer to the permission ask `id`.
fn is_permission_row(row: &DashboardRow, id: &str) -> (r: bool)
    ensures
        r == awaits_permission(row.deep_view(), id@),
{
    match &row.status {
        DashboardStatus::AwaitingPermission(p) => same(p.id.as_str(), id),
        _ => false,
    }
}

/// Whether a row awaits an answer to the question ask `id`.
fn is_question_row(row: &DashboardRow, id: &str) -> (r: bool)
    ensures
        r == awaits_question(row.deep_view(), id@),
{
    match &row.status {
        DashboardStatus::AwaitingQuestion(q) => same(q.id.as_str(), id),
        _ => false,
    }
}

/// Where the first row that awaits an answer to the permission ask `id` stands.
fn find_permission(rows: &Vec<DashboardRow>, id: &str) -> (r: usize)
    ensures
        r == permission_place(rows.deep_view(), id@),
        r <= rows@.len(),
{
    let ghost all = rows.deep_view();
    let mut i: usize = 0;
    assert(all.skip(0) =~= all);
    while i < rows.len() && !is_permission_row(&rows[i], id)
        invariant
            i <= rows@.len(),
            all == rows.deep_view(),
            permission_place(all, id@) == i + permission_place(all.skip(i as int), id@),
        decreases rows@.len() - i,
    {
        proof {
            assert(all.skip(i as int)[0] == rows@[i as int].deep_view());
            assert(all.skip(i as int).skip(1) =~= all.skip(i + 1));
        }
        i += 1;
    }
    proof {
        if i < rows@.len() {
            assert(all.skip(i as int)[0] == rows@[i as int].deep_view());
        }
    }
    i
}

/// Where the first row that awaits an answer to the question ask `id` stands.
fn find_question(rows: &Vec<DashboardRow>, id: &str) -> (r: usize)
    ensures
        r == question_place(rows.deep_view(), id@),
        r <= rows@.len(),
{
    let ghost all = rows.deep_view();
    let mut i: usize = 0;
    assert(all.skip(0) =~= all);
    while i < rows.len() && !is_question_row(&rows[i], id)
        invariant
            i <= rows@.len(),
            all == rows.deep_view(),
            question_place(all, id@) == i + question_place(all.skip(i as int), id@),
        decreases rows@.len() - i,
    {
        proof {
            assert(all.skip(i as int)[0] == rows@[i as int].deep_view());
            assert(all.skip(i as int).skip(1) =~= all.skip(i + 1));
        }
        i += 1;
    }
    proof {
        if i < rows@.len() {
            assert(all.skip(i as int)[0] == rows@[i as int].deep_view());
        }
    }
    i
}

/// Puts the row at `i`, where there is one, in the given status.
fn set_status(rows: &mut Vec<DashboardRow>, i: usize, status: DashboardStatus)
    ensures
        final(rows).deep_view() == with_status(
            old(rows).deep_view(),
            i as nat,
            status.deep_view(),
        ),
{
    let ghost all = rows.deep_view();
    let ghost m = status.deep_view();
    if i < rows.len() {
        rows[i].status = status;
    }
    assert(rows.deep_view() =~= with_status(all, i as nat, m));
}

/// Whether the row at `i` awaits an answer.
fn awaits_at(rows: &Vec<DashboardRow>, i: usize) -> (r: bool)
    requires
        i < rows@.len(),
    ensures
        r == rows.deep_view()[i as int].status.awaits(),
{
    match &rows[i].status {
        DashboardStatus::AwaitingPermission(_) => true,
        DashboardStatus::AwaitingQuestion(_) => true,
        _ => false,
    }
}

impl DashboardState {
    /// Gives the selected row its peek anew, where that is the row `i`.
    fn repeek(&mut self, i: usize)
        ensures
            final(self).deep_view() == old(self).deep_view().repeeked(i as nat),
    {
        if i == self.selected {
            self.peek = self.derive_peek();
        }
    }

    /// Takes the status of session `id` from a push event. A pending ask takes
    /// precedence and stays.
    pub fn flip(&mut self, id: &str, status: DashboardStatus)
        ensures
            final(self).deep_view() == old(self).deep_view().flipped(id@, status.deep_view()),
    {
        let i: usize = find_primary(&self.rows, id);
        if i < self.rows.len() && !awaits_at(&self.rows, i) {
            let a: usize = find_primary(&self.all_rows, id);
            if a < self.all_rows.len() && !awaits_at(&self.all_rows, a) {
                set_status(&mut self.all_rows, a, status.clone());
            }
            set_status(&mut self.rows, i, status);
            self.repeek(i);
        }
    }

    /// The permission ask `id` was answered: its row is idle.
    pub fn settle_permission(&mut self, id: &str)
        ensures
            final(self).deep_view() == old(self).deep_view().permission_settled(id@),
    {
        let a: usize = find_permission(&self.all_rows, id);
        set_status(&mut self.all_rows, a, DashboardStatus::Idle);
        let i: usize = find_permission(&self.rows, id);
        if i < self.rows.len() {
            set_status(&mut self.rows, i, DashboardStatus::Idle);
            self.repeek(i);
        }
    }

    /// The question ask `id` was answered: its row is idle.
    pub fn settle_question(&mut self, id: &str)
        ensures
            final(self).deep_view() == old(self).deep_view().question_settled(id@),
    {
        let a: usize = find_question(&self.all_rows, id);
        set_status(&mut self.all_rows, a, DashboardStatus::Idle);
        let i: usize = find_question(&self.rows, id);
        if i < self.rows.len() {
            set_status(&mut self.rows, i, DashboardStatus::Idle);
            self.repeek(i);
        }
    }

    /// A copy of the selected row's session id.
    pub fn selected_session(&self) -> (r: Option<String>)
        ensures
            r.deep_view() == self.deep_view().selected_id(),
    {
        if self.selected < self.rows.len() {
            Some(self.rows[self.selected].session.id.clone())
        } else {
            None
        }
    }

    /// Every row, before pins and filter.
    fn base_rows(&self) -> (r: Vec<DashboardRow>)
        ensures
            r.deep_view() == self.deep_view().base(),
    {
        if self.all_rows.len() == 0 {
            let rows = self.rows.as_slice();
            assert(rows.deep_view() =~= self.rows.deep_view());
            copy_dashboard_rows(rows)
        } else {
            let rows = self.all_rows.as_slice();
            assert(rows.deep_view() =~= self.all_rows.deep_view());
            copy_dashboard_rows(rows)
        }
    }

    /// Lays the rows out anew from `base`.
    fn lay_out(&mut self, base: Vec<DashboardRow>)
        ensures
            final(self).deep_view() == old(self).deep_view().laid_out(base.deep_view()),
    {
        let all = base.as_slice();
        assert(all.deep_view() =~= base.deep_view());
        let copy = copy_dashboard_rows(all);
        self.rows = apply_pin_and_filter(copy, &self.pinned, self.filter.as_str());
        self.all_rows = base;
    }

    /// The last row that can be selected.
    fn clamp(&self) -> (r: usize)
        ensures
            r == self.deep_view().clamped(),
    {
        if self.rows.len() == 0 {
            0
        } else if self.selected < self.rows.len() {
            self.selected
        } else {
            self.rows.len() - 1
        }
    }

    /// Takes a poll's three answers. The selected session stays selected where it
    /// is still shown, and its peek stays unless the kind of its status changed.
    pub fn load(
        &mut self,
        sessions: &[SessionInfo],
        permissions: &[PermissionAsked],
        questions: &[QuestionAsked],
        attached: Option<&str>,
    )
        ensures
            final(self).deep_view() == old(self).deep_view().polled(
                Poll {
                    sessions: sessions.deep_view(),
                    permissions: permissions.deep_view(),
                    questions: questions.deep_view(),
                },
                crate::client::opt_text(attached),
            ),
    {
        let ghost start = self.deep_view();
        let id = self.selected_session();
        let kind: u8 = if self.selected < self.rows.len() {
            assert(start.rows[self.selected as int] == self.rows@[self.selected as int].deep_view());
            kind_number(&self.rows[self.selected].status)
        } else {
            0
        };
        let rows = build_dashboard_rows(sessions, permissions, questions, attached);
        self.lay_out(rows);
        self.needs_refetch = false;
        let i: usize = match &id {
            Some(s) => find_row(&self.rows, s.as_str()),
            None => self.rows.len(),
        };
        if i < self.rows.len() {
            self.selected = i;
            assert(self.deep_view().rows[i as int] == self.rows@[i as int].deep_view());
            if kind_number(&self.rows[i].status) != kind {
                self.peek = self.derive_peek();
            }
        } else {
            self.selected = self.clamp();
            self.peek = self.derive_peek();
        }
    }

    /// Takes the latest message of session `id`, where it is still selected.
    pub fn load_peek(&mut self, id: &str, text: String)
        ensures
            final(self).deep_view() == old(self).deep_view().peeked(id@, text@),
    {
        if self.selected < self.rows.len() && same(
            self.rows[self.selected].session.id.as_str(),
            id,
        ) {
            self.peek = DashboardPeek::Message(text);
        }
    }

    /// Adds a session that was created from the dashboard, and selects it.
    pub fn add_session(&mut self, session: SessionInfo)
        ensures
            final(self).deep_view() == old(self).deep_view().session_added(session.deep_view()),
    {
        let id = session.id.clone();
        let mut base = self.base_rows();
        let ghost b = base.deep_view();
        let row = DashboardRow { session, status: DashboardStatus::Idle, indent: false };
        let ghost m = row.deep_view();
        base.push(row);
        assert(base.deep_view() =~= b.push(m));
        self.lay_out(base);
        let i: usize = find_row(&self.rows, id.as_str());
        self.selected = if i < self.rows.len() {
            i
        } else {
            self.clamp()
        };
        self.peek = self.derive_peek();
    }

    /// Pins the selected session, or unpins it; it stays selected.
    pub fn toggle_pin(&mut self)
        ensures
            final(self).deep_view() == old(self).deep_view().pin_toggled(),
    {
        if let Some(id) = self.selected_session() {
            let base = self.base_rows();
            if !self.pinned.remove(id.as_str()) {
                assert(old(self).pinned.deep_view().remove(id@) =~= old(self).pinned.deep_view());
                self.pinned.insert(id.clone());
            }
            self.lay_out(base);
            let i: usize = find_row(&self.rows, id.as_str());
            self.selected = if i < self.rows.len() {
                i
            } else {
                0
            };
        }
    }

    /// Changes the filter. The selected session stays selected, with its peek,
    /// where it is still shown; else the first row is selected.
    pub fn set_filter(&mut self, filter: String)
        ensures
            final(self).deep_view() == old(self).deep_view().filtered(filter@),
    {
        let id = self.selected_session();
        let base = self.base_rows();
        self.filter = filter;
        self.lay_out(base);
        let i: usize = match &id {
            Some(s) => find_row(&self.rows, s.as_str()),
            None => self.rows.len(),
        };
        if i < self.rows.len() {
            self.selected = i;
        } else {
            self.selected = 0;
            self.peek = self.derive_peek();
        }
    }
}

// ---------------------------------------------------------------------------
// Keys
// ---------------------------------------------------------------------------

impl DashboardState {
    /// Moves the selection, within the rows, and gives the row its peek.
    pub fn move_selection(&mut self, delta: i32)
        ensures
            final(self).deep_view() == ({
                let d = old(self).deep_view();
                if d.rows.len() == 0 {
                    d
                } else {
                    let next = DashboardStateModel {
                        selected: stepped(d.selected as int, delta as int, d.rows.len() as int)
                            as usize,
                        ..d
                    };
                    DashboardStateModel { peek: next.first_peek(), ..next }
                }
            }),
    {
        if self.rows.len() == 0 {
            return;
        }
        self.selected = step(self.selected, delta, self.rows.len());
        self.peek = self.derive_peek();
    }

    /// The reply to the selected row's permission ask.
    pub fn reply(&self, reply: &str) -> (r: Option<Msg>)
        ensures
            r.deep_view() == ({
                let d = self.deep_view();
                if d.selected < d.rows.len() {
                    match d.rows[d.selected as int].status {
                        DashboardStatusModel::AwaitingPermission(p) => Some(
                            MsgModel::PermissionReply { id: p.id, reply: reply@ },
                        ),
                        _ => None,
                    }
                } else {
                    None
                }
            }),
    {
        if self.selected < self.rows.len() {
            assert(self.deep_view().rows[self.selected as int]
                == self.rows@[self.selected as int].deep_view());
            match &self.rows[self.selected].status {
                DashboardStatus::AwaitingPermission(p) => Some(
                    Msg::PermissionReply { id: p.id.clone(), reply: reply.to_owned() },
                ),
                _ => None,
            }
        } else {
            None
        }
    }

    /// The answer `index` to the selected row's question, where it has such an
    /// option.
    pub fn answer(&self, index: usize) -> (r: Option<Msg>)
        ensures
            r.deep_view() == ({
                let d = self.deep_view();
                if d.selected < d.rows.len() {
                    match d.rows[d.selected as int].status {
                        DashboardStatusModel::AwaitingQuestion(q) => if q.questions.len() > 0
                            && index < q.questions[0].options.len() {
                            Some(
                                MsgModel::QuestionReply {
                                    id: q.id,
                                    reply: QuestionReplyKindModel::Answered(seq![seq![index]]),
                                },
                            )
                        } else {
                            None
                        },
                        _ => None,
                    }
                } else {
                    None
                }
            }),
    {
        if self.selected < self.rows.len() {
            assert(self.deep_view().rows[self.selected as int]
                == self.rows@[self.selected as int].deep_view());
            match &self.rows[self.selected].status {
                DashboardStatus::AwaitingQuestion(q) => {
                    if q.questions.len() > 0 {
                        assert(q.questions.deep_view()[0] == q.questions@[0].deep_view());
                        if index < q.questions[0].options.len() {
                            let mut one: Vec<usize> = Vec::new();
                            one.push(index);
                            let mut all: Vec<Vec<usize>> = Vec::new();
                            all.push(one);
                            proof {
                                assert(one.deep_view() =~= seq![index]);
                                assert(all.deep_view() =~= seq![seq![index]]);
                            }
                            return Some(
                                Msg::QuestionReply {
                                    id: q.id.clone(),
                                    reply: QuestionReplyKind::Answered(all),
                                },
                            );
                        }
                    }
                    None
                },
                _ => None,
            }
        } else {
            None
        }
    }
}

// ---------------------------------------------------------------------------
// Laws of the dashboard
// ---------------------------------------------------------------------------

proof fn lemma_row_slot(rows: Seq<DashboardRowModel>, r: DashboardRowModel)
    ensures
        row_slot(rows, r) <= rows.len(),
        forall|k: int| 0 <= k < row_slot(rows, r) ==> !row_before(r, #[trigger] rows[k]),
        row_slot(rows, r) < rows.len() ==> row_before(r, rows[row_slot(rows, r) as int]),
    decreases rows.len(),
{
    if rows.len() == 0 || row_before(r, rows[0]) {
    } else {
        let t = rows.skip(1);
        lemma_row_slot(t, r);
        assert forall|k: int| 0 <= k < row_slot(rows, r) implies !row_before(r, #[trigger] rows[k]) by {
            if k > 0 {
                assert(t[k - 1] == rows[k]);
            }
        }
    }
}

/// Whether no row belongs strictly before one that precedes it.
pub open spec fn in_row_order(rows: Seq<DashboardRowModel>) -> bool {
    forall|j: int, k: int|
        0 <= j < k < rows.len() ==> !row_before(#[trigger] rows[k], #[trigger] rows[j])
}

/// Ordering the rows loses none, invents none, and puts what awaits an answer
/// before what is busy, that before what is idle, and within each the most
/// recently active first.
pub proof fn law_rows_are_ordered(rows: Seq<DashboardRowModel>)
    ensures
        in_row_order(sorted_rows(rows)),
        sorted_rows(rows).to_multiset() == rows.to_multiset(),
    decreases rows.len(),
{
    if rows.len() == 0 {
        assert(rows =~= Seq::empty());
    } else {
        law_rows_are_ordered(rows.drop_last());
        let before = sorted_rows(rows.drop_last());
        let r = rows.last();
        let p = row_slot(before, r) as int;
        lemma_row_slot(before, r);
        let all = before.insert(p, r);
        assert forall|j: int, k: int| 0 <= j < k < all.len() implies !row_before(
            #[trigger] all[k],
            #[trigger] all[j],
        ) by {
            if k < p {
                assert(all[j] == before[j] && all[k] == before[k]);
            } else if k == p {
                assert(all[j] == before[j]);
            } else if j < p {
                assert(all[j] == before[j] && all[k] == before[k - 1]);
            } else if j == p {
                assert(all[k] == before[k - 1]);
                if k > p + 1 {
                    assert(!row_before(before[k - 1], before[p]));
                }
            } else {
                assert(all[j] == before[j - 1] && all[k] == before[k - 1]);
            }
        }
        vstd::seq_lib::to_multiset_insert(before, p, r);
        assert(rows =~= rows.drop_last().push(r));
        vstd::seq_lib::to_multiset_build(rows.drop_last(), r);
        assert(all.to_multiset() =~= rows.to_multiset());
    }
}

proof fn lemma_primary_rows(poll: Poll, attached: Option<Seq<char>>, n: int)
    requires
        0 <= n <= poll.sessions.len(),
    ensures
        forall|k: int|
            0 <= k < poll.primary(attached, n).len() ==> {
                let r = #[trigger] poll.primary(attached, n)[k];
                !r.indent && is_primary(r.session, attached)
            },
    decreases n,
{
    if n > 0 {
        lemma_primary_rows(poll, attached, n - 1);
    }
}

/// Every primary row is a top-level session or a workflow root, and the attached
/// session never has one.
pub proof fn law_attached_session_has_no_primary_row(poll: Poll, attached: Option<Seq<char>>)
    ensures
        ({
            let rows = sorted_rows(poll.primary(attached, poll.sessions.len() as int));
            forall|k: int|
                0 <= k < rows.len() ==> !(#[trigger] rows[k]).indent && Some(rows[k].session.id)
                    != attached && (rows[k].session.parent_id is None || rows[k].session.kind
                    == Some("workflow_root"@))
        }),
{
    let rows = poll.primary(attached, poll.sessions.len() as int);
    lemma_primary_rows(poll, attached, poll.sessions.len() as int);
    law_rows_are_ordered(rows);
    let sorted = sorted_rows(rows);
    assert forall|k: int| 0 <= k < sorted.len() implies !(#[trigger] sorted[k]).indent && Some(
        sorted[k].session.id,
    ) != attached && (sorted[k].session.parent_id is None || sorted[k].session.kind == Some(
        "workflow_root"@,
    )) by {
        vstd::seq_lib::to_multiset_contains(sorted, sorted[k]);
        vstd::seq_lib::to_multiset_contains(rows, sorted[k]);
        assert(rows.contains(sorted[k]));
    }
}

/// A group's rows in a line.
pub open spec fn flat(groups: Seq<Group>) -> Seq<DashboardRowModel>
    decreases groups.len(),
{
    if groups.len() == 0 {
        Seq::empty()
    } else {
        flat(groups.drop_last()).push(groups.last().parent) + groups.last().children
    }
}

proof fn lemma_grouped_flat(rows: Seq<DashboardRowModel>)
    requires
        rows.len() > 0 ==> !rows[0].indent,
    ensures
        flat(grouped(rows)) == rows,
        rows.len() > 0 ==> grouped(rows).len() > 0,
    decreases rows.len(),
{
    if rows.len() > 0 {
        let before = rows.drop_last();
        let r = rows.last();
        lemma_grouped_flat(before);
        let g = grouped(before);
        assert(rows =~= before.push(r));
        if !r.indent {
            let now = g.push(Group { parent: r, children: Seq::empty() });
            assert(now.drop_last() =~= g);
            assert(flat(now) =~= rows);
        } else {
            assert(before.len() > 0) by {
                if before.len() == 0 {
                    assert(rows[0] == r);
                }
            }
            assert(before[0] == rows[0]);
            let now = g.drop_last().push(
                Group { parent: g.last().parent, children: g.last().children.push(r) },
            );
            assert(now.drop_last() =~= g.drop_last());
            assert(flat(now) =~= flat(g).push(r));
        }
    } else {
        assert(flat(grouped(rows)) =~= rows);
    }
}

proof fn lemma_unpinned(groups: Seq<Group>)
    ensures
        pinned_part(groups, Set::empty(), false) == groups,
        pinned_part(groups, Set::empty(), true) == Seq::<Group>::empty(),
    decreases groups.len(),
{
    if groups.len() > 0 {
        lemma_unpinned(groups.drop_last());
        assert(groups.drop_last().push(groups.last()) =~= groups);
    } else {
        assert(groups =~= Seq::empty());
    }
}

proof fn lemma_unfiltered(rows: Seq<DashboardRowModel>)
    ensures
        matching_rows(rows, Seq::empty()) == rows,
    decreases rows.len(),
{
    if rows.len() > 0 {
        lemma_unfiltered(rows.drop_last());
        assert(rows.drop_last().push(rows.last()) =~= rows);
    } else {
        assert(rows =~= Seq::empty());
    }
}

proof fn lemma_all_shown(groups: Seq<Group>)
    ensures
        shown_all(groups, Seq::empty()) == flat(groups),
    decreases groups.len(),
{
    if groups.len() > 0 {
        lemma_all_shown(groups.drop_last());
        lemma_unfiltered(groups.last().children);
        assert(shown_all(groups, Seq::empty()) =~= flat(groups));
    }
}

/// Without pins and filter the dashboard shows the rows as they were built.
pub proof fn law_nothing_pinned_nothing_filtered(rows: Seq<DashboardRowModel>)
    requires
        rows.len() > 0 ==> !rows[0].indent,
    ensures
        arranged(rows, Set::empty(), Seq::empty()) == rows,
{
    lemma_grouped_flat(rows);
    lemma_unpinned(grouped(rows));
    lemma_all_shown(grouped(rows));
    assert(shown_all(Seq::<Group>::empty(), Seq::empty()) =~= Seq::<DashboardRowModel>::empty());
    assert(arranged(rows, Set::empty(), Seq::empty()) =~= rows);
}

/// Whether each group's parent stands in `rows`, and its children do.
spec fn drawn_from(groups: Seq<Group>, rows: Seq<DashboardRowModel>) -> bool {
    forall|k: int|
        0 <= k < groups.len() ==> {
            let g = #[trigger] groups[k];
            &&& rows.contains(g.parent)
            &&& !g.parent.indent
            &&& forall|j: int|
                0 <= j < g.children.len() ==> rows.contains(#[trigger] g.children[j])
                    && g.children[j].indent
        }
}

proof fn lemma_drawn(rows: Seq<DashboardRowModel>, n: int)
    requires
        0 <= n <= rows.len(),
    ensures
        drawn_from(grouped(rows.take(n)), rows),
    decreases n,
{
    if n > 0 {
        lemma_drawn(rows, n - 1);
        let now = rows.take(n);
        assert(now.drop_last() =~= rows.take(n - 1));
        let before = grouped(rows.take(n - 1));
        let r = rows[n - 1];
        assert(now.last() == r);
        assert(rows.contains(r));
        let after = grouped(now);
        assert forall|k: int| 0 <= k < after.len() implies {
            let g = #[trigger] after[k];
            &&& rows.contains(g.parent)
            &&& !g.parent.indent
            &&& forall|j: int|
                0 <= j < g.children.len() ==> rows.contains(#[trigger] g.children[j])
                    && g.children[j].indent
        } by {
            if k < before.len() {
                let old_group = before[k];
                if r.indent && k == before.len() - 1 {
                    assert(after[k].children == old_group.children.push(r));
                    assert forall|j: int| 0 <= j < after[k].children.len() implies rows.contains(
                        #[trigger] after[k].children[j],
                    ) && after[k].children[j].indent by {
                        if j < old_group.children.len() {
                            assert(after[k].children[j] == old_group.children[j]);
                        }
                    }
                } else {
                    assert(after[k] == old_group);
                }
            }
        }
    }
}

proof fn lemma_part_drawn(
    groups: Seq<Group>,
    rows: Seq<DashboardRowModel>,
    pinned: Set<Seq<char>>,
    want: bool,
)
    requires
        drawn_from(groups, rows),
    ensures
        drawn_from(pinned_part(groups, pinned, want), rows),
    decreases groups.len(),
{
    if groups.len() > 0 {
        assert forall|k: int| 0 <= k < groups.drop_last().len() implies groups.drop_last()[k]
            == #[trigger] groups[k] by {}
        assert(drawn_from(groups.drop_last(), rows)) by {
            assert forall|k: int| 0 <= k < groups.drop_last().len() implies {
                let g = #[trigger] groups.drop_last()[k];
                &&& rows.contains(g.parent)
                &&& !g.parent.indent
                &&& forall|j: int|
                    0 <= j < g.children.len() ==> rows.contains(#[trigger] g.children[j])
                        && g.children[j].indent
            } by {
                assert(groups.drop_last()[k] == groups[k]);
            }
        }
        lemma_part_drawn(groups.drop_last(), rows, pinned, want);
    }
}

proof fn lemma_matching_drawn(children: Seq<DashboardRowModel>, filter: Seq<char>)
    ensures
        forall|j: int|
            0 <= j < matching_rows(children, filter).len() ==> {
                let c = #[trigger] matching_rows(children, filter)[j];
                children.contains(c) && title_matches(c, filter)
            },
    decreases children.len(),
{
    if children.len() > 0 {
        let before = children.drop_last();
        lemma_matching_drawn(before, filter);
        assert forall|j: int| 0 <= j < matching_rows(children, filter).len() implies {
            let c = #[trigger] matching_rows(children, filter)[j];
            children.contains(c) && title_matches(c, filter)
        } by {
            let c = matching_rows(children, filter)[j];
            if j < matching_rows(before, filter).len() {
                assert(c == matching_rows(before, filter)[j]);
                let i = choose|i: int| 0 <= i < before.len() && before[i] == c;
                assert(children[i] == c);
            } else {
                assert(children[children.len() - 1] == c);
            }
        }
    }
}

proof fn lemma_shown_drawn(groups: Seq<Group>, rows: Seq<DashboardRowModel>, filter: Seq<char>)
    requires
        drawn_from(groups, rows),
    ensures
        forall|k: int|
            0 <= k < shown_all(groups, filter).len() ==> {
                let r = #[trigger] shown_all(groups, filter)[k];
                rows.contains(r) && (r.indent ==> title_matches(r, filter))
            },
        shown_all(groups, filter).len() > 0 ==> !shown_all(groups, filter)[0].indent,
    decreases groups.len(),
{
    if groups.len() > 0 {
        let init = groups.drop_last();
        assert(drawn_from(init, rows)) by {
            assert forall|k: int| 0 <= k < init.len() implies {
                let g = #[trigger] init[k];
                &&& rows.contains(g.parent)
                &&& !g.parent.indent
                &&& forall|j: int|
                    0 <= j < g.children.len() ==> rows.contains(#[trigger] g.children[j])
                        && g.children[j].indent
            } by {
                assert(init[k] == groups[k]);
            }
        }
        lemma_shown_drawn(init, rows, filter);
        let g = groups[groups.len() - 1];
        assert(g == groups.last());
        lemma_matching_drawn(g.children, filter);
        let a = shown_all(init, filter);
        let b = shown(g, filter);
        assert forall|k: int| 0 <= k < shown_all(groups, filter).len() implies {
            let r = #[trigger] shown_all(groups, filter)[k];
            rows.contains(r) && (r.indent ==> title_matches(r, filter))
        } by {
            let r = shown_all(groups, filter)[k];
            if k < a.len() {
                assert(r == a[k]);
            } else if k == a.len() {
                assert(r == b[0]);
                assert(r == g.parent);
            } else {
                let j = k - a.len() - 1;
                assert(r == matching_rows(g.children, filter)[j]);
                let i = choose|i: int| 0 <= i < g.children.len() && g.children[i] == r;
                assert(rows.contains(g.children[i]));
            }
        }
    }
}

/// What the dashboard shows was in its rows; an indented row is shown only where
/// its title matches, and never before the first primary row.
pub proof fn law_shown_rows_come_from_the_list(
    rows: Seq<DashboardRowModel>,
    pinned: Set<Seq<char>>,
    filter: Seq<char>,
)
    ensures
        forall|k: int|
            0 <= k < arranged(rows, pinned, filter).len() ==> {
                let r = #[trigger] arranged(rows, pinned, filter)[k];
                rows.contains(r) && (r.indent ==> title_matches(r, filter))
            },
        arranged(rows, pinned, filter).len() > 0 ==> !arranged(rows, pinned, filter)[0].indent,
{
    lemma_drawn(rows, rows.len() as int);
    assert(rows.take(rows.len() as int) =~= rows);
    let groups = grouped(rows);
    lemma_part_drawn(groups, rows, pinned, true);
    lemma_part_drawn(groups, rows, pinned, false);
    lemma_shown_drawn(pinned_part(groups, pinned, true), rows, filter);
    lemma_shown_drawn(pinned_part(groups, pinned, false), rows, filter);
    let a = shown_all(pinned_part(groups, pinned, true), filter);
    let b = shown_all(pinned_part(groups, pinned, false), filter);
    assert forall|k: int| 0 <= k < arranged(rows, pinned, filter).len() implies {
        let r = #[trigger] arranged(rows, pinned, filter)[k];
        rows.contains(r) && (r.indent ==> title_matches(r, filter))
    } by {
        if k < a.len() {
            assert(arranged(rows, pinned, filter)[k] == a[k]);
        } else {
            assert(arranged(rows, pinned, filter)[k] == b[k - a.len()]);
        }
    }
}

/// A filter replaces the one before it: filters do not add up, and an empty one
/// shows every row again.
pub proof fn law_filters_do_not_add_up(d: DashboardStateModel, first: Seq<char>, second: Seq<char>)
    requires
        d.base().len() > 0,
    ensures
        d.filtered(first).filtered(second).rows == d.filtered(second).rows,
        d.filtered(first).base() == d.base(),
{
}

/// Pinning the selected session twice leaves the pins as they were.
pub proof fn law_pinning_twice_restores_the_pins(d: DashboardStateModel)
    requires
        d.selected_id() is Some,
        d.pin_toggled().selected_id() == d.selected_id(),
    ensures
        d.pin_toggled().pin_toggled().pinned == d.pinned,
{
    let id = d.selected_id()->0;
    if d.pinned.contains(id) {
        assert(d.pinned.remove(id).insert(id) =~= d.pinned);
    } else {
        assert(d.pinned.insert(id).remove(id) =~= d.pinned);
    }
}

/// What the server tells of a session being busy or idle never hides an ask that is
/// still open: such rows stay as they are.
pub proof fn law_pushes_keep_open_asks(
    d: DashboardStateModel,
    id: Seq<char>,
    status: DashboardStatusModel,
)
    ensures
        d.flipped(id, status).rows.len() == d.rows.len(),
        forall|k: int|
            0 <= k < d.rows.len() && d.rows[k].status.awaits() ==> d.flipped(id, status).rows[k]
                == #[trigger] d.rows[k],
{
}

/// Whether each group is a primary row with indented ones.
spec fn is_grouping(groups: Seq<Group>) -> bool {
    forall|k: int|
        0 <= k < groups.len() ==> {
            let g = #[trigger] groups[k];
            &&& !g.parent.indent
            &&& forall|j: int| 0 <= j < g.children.len() ==> (#[trigger] g.children[j]).indent
        }
}

/// The groups of which something is shown, with the children that are.
spec fn kept_groups(groups: Seq<Group>, filter: Seq<char>) -> Seq<Group>
    decreases groups.len(),
{
    if groups.len() == 0 {
        Seq::empty()
    } else {
        let before = kept_groups(groups.drop_last(), filter);
        let g = groups.last();
        if shown(g, filter).len() == 0 {
            before
        } else {
            before.push(Group { parent: g.parent, children: matching_rows(g.children, filter) })
        }
    }
}

/// Whether the groups' parents are pinned, or none of them is.
spec fn all_pinned(groups: Seq<Group>, pinned: Set<Seq<char>>, want: bool) -> bool {
    forall|k: int|
        0 <= k < groups.len() ==> pinned.contains((#[trigger] groups[k]).parent.session.id) == want
}

proof fn lemma_init_grouping(groups: Seq<Group>)
    requires
        is_grouping(groups),
        groups.len() > 0,
    ensures
        is_grouping(groups.drop_last()),
        !groups.last().parent.indent,
        forall|j: int|
            0 <= j < groups.last().children.len() ==> (#[trigger] groups.last().children[j]).indent,
{
    assert forall|k: int| 0 <= k < groups.drop_last().len() implies {
        let g = #[trigger] groups.drop_last()[k];
        &&& !g.parent.indent
        &&& forall|j: int| 0 <= j < g.children.len() ==> (#[trigger] g.children[j]).indent
    } by {
        assert(groups.drop_last()[k] == groups[k]);
    }
    assert(groups.last() == groups[groups.len() - 1]);
}

proof fn lemma_grouped_children(rows: Seq<DashboardRowModel>, children: Seq<DashboardRowModel>)
    requires
        grouped(rows).len() > 0,
        forall|j: int| 0 <= j < children.len() ==> (#[trigger] children[j]).indent,
    ensures
        grouped(rows + children) == grouped(rows).drop_last().push(
            Group {
                parent: grouped(rows).last().parent,
                children: grouped(rows).last().children + children,
            },
        ),
    decreases children.len(),
{
    let g = grouped(rows);
    if children.len() == 0 {
        assert(rows + children =~= rows);
        assert(g.last().children + children =~= g.last().children);
        assert(g.drop_last().push(g.last()) =~= g);
    } else {
        let front = children.drop_last();
        let r = children[children.len() - 1];
        assert forall|j: int| 0 <= j < front.len() implies (#[trigger] front[j]).indent by {
            assert(front[j] == children[j]);
        }
        lemma_grouped_children(rows, front);
        assert((rows + children).drop_last() =~= rows + front);
        assert((rows + children).last() == r);
        assert(r.indent);
        let now = grouped(rows + front);
        assert(now.drop_last() =~= g.drop_last());
        assert((g.last().children + front).push(r) =~= g.last().children + children);
    }
}

proof fn lemma_flat_grouped(groups: Seq<Group>)
    requires
        is_grouping(groups),
    ensures
        grouped(flat(groups)) == groups,
    decreases groups.len(),
{
    if groups.len() == 0 {
        assert(groups =~= Seq::empty());
    } else {
        let init = groups.drop_last();
        let g = groups.last();
        lemma_init_grouping(groups);
        lemma_flat_grouped(init);
        let top = flat(init).push(g.parent);
        assert(top.drop_last() =~= flat(init));
        assert(grouped(top) == init.push(Group { parent: g.parent, children: Seq::empty() }));
        lemma_grouped_children(top, g.children);
        assert(grouped(top).drop_last() =~= init);
        assert(Seq::<DashboardRowModel>::empty() + g.children =~= g.children);
        assert(init.push(g) =~= groups);
    }
}

proof fn lemma_flat_append(a: Seq<Group>, b: Seq<Group>)
    ensures
        flat(a + b) == flat(a) + flat(b),
    decreases b.len(),
{
    if b.len() == 0 {
        assert(a + b =~= a);
        assert(flat(a) + flat(b) =~= flat(a));
    } else {
        lemma_flat_append(a, b.drop_last());
        assert((a + b).drop_last() =~= a + b.drop_last());
        assert((a + b).last() == b.last());
        assert(flat(a + b) =~= flat(a) + flat(b));
    }
}

proof fn lemma_matching_again(rows: Seq<DashboardRowModel>, filter: Seq<char>)
    ensures
        matching_rows(matching_rows(rows, filter), filter) == matching_rows(rows, filter),
        (forall|j: int| 0 <= j < rows.len() ==> (#[trigger] rows[j]).indent) ==> (forall|j: int|
            0 <= j < matching_rows(rows, filter).len() ==> (#[trigger] matching_rows(
                rows,
                filter,
            )[j]).indent),
    decreases rows.len(),
{
    if rows.len() > 0 {
        let front = rows.drop_last();
        lemma_matching_again(front, filter);
        let m = matching_rows(rows, filter);
        if title_matches(rows.last(), filter) {
            assert(m.drop_last() =~= matching_rows(front, filter));
        }
        if forall|j: int| 0 <= j < rows.len() ==> (#[trigger] rows[j]).indent {
            assert forall|j: int| 0 <= j < front.len() implies (#[trigger] front[j]).indent by {
                assert(front[j] == rows[j]);
            }
            assert(rows[rows.len() - 1].indent);
        }
    }
}

proof fn lemma_kept(groups: Seq<Group>, filter: Seq<char>, pinned: Set<Seq<char>>, want: bool)
    requires
        is_grouping(groups),
        all_pinned(groups, pinned, want),
    ensures
        shown_all(groups, filter) == flat(kept_groups(groups, filter)),
        is_grouping(kept_groups(groups, filter)),
        kept_groups(kept_groups(groups, filter), filter) == kept_groups(groups, filter),
        all_pinned(kept_groups(groups, filter), pinned, want),
    decreases groups.len(),
{
    if groups.len() > 0 {
        let init = groups.drop_last();
        let g = groups.last();
        lemma_init_grouping(groups);
        assert(all_pinned(init, pinned, want)) by {
            assert forall|k: int| 0 <= k < init.len() implies pinned.contains(
                (#[trigger] init[k]).parent.session.id,
            ) == want by {
                assert(init[k] == groups[k]);
            }
        }
        lemma_kept(init, filter, pinned, want);
        let before = kept_groups(init, filter);
        let children = matching_rows(g.children, filter);
        lemma_matching_again(g.children, filter);
        let one = Group { parent: g.parent, children };
        let all = kept_groups(groups, filter);
        if shown(g, filter).len() == 0 {
            assert(shown_all(init, filter) + shown(g, filter) =~= shown_all(init, filter));
        } else {
            assert(pinned.contains(groups[groups.len() - 1].parent.session.id) == want);
            assert(all == before.push(one));
            assert(all.drop_last() =~= before);
            assert(flat(all) =~= flat(before) + shown(g, filter));
            assert(shown(one, filter) == shown(g, filter));
        }
    } else {
        assert(kept_groups(groups, filter) =~= Seq::<Group>::empty());
    }
}

proof fn lemma_part_of(groups: Seq<Group>, pinned: Set<Seq<char>>, want: bool)
    requires
        is_grouping(groups),
    ensures
        is_grouping(pinned_part(groups, pinned, want)),
        all_pinned(pinned_part(groups, pinned, want), pinned, want),
    decreases groups.len(),
{
    if groups.len() > 0 {
        lemma_init_grouping(groups);
        lemma_part_of(groups.drop_last(), pinned, want);
    }
}

proof fn lemma_part_of_uniform(groups: Seq<Group>, pinned: Set<Seq<char>>, want: bool)
    requires
        all_pinned(groups, pinned, want),
    ensures
        pinned_part(groups, pinned, want) == groups,
        pinned_part(groups, pinned, !want) == Seq::<Group>::empty(),
    decreases groups.len(),
{
    if groups.len() > 0 {
        let init = groups.drop_last();
        assert(all_pinned(init, pinned, want)) by {
            assert forall|k: int| 0 <= k < init.len() implies pinned.contains(
                (#[trigger] init[k]).parent.session.id,
            ) == want by {
                assert(init[k] == groups[k]);
            }
        }
        assert(pinned.contains(groups[groups.len() - 1].parent.session.id) == want);
        lemma_part_of_uniform(init, pinned, want);
        assert(init.push(groups.last()) =~= groups);
    } else {
        assert(groups =~= Seq::empty());
    }
}

proof fn lemma_part_append(a: Seq<Group>, b: Seq<Group>, pinned: Set<Seq<char>>, want: bool)
    ensures
        pinned_part(a + b, pinned, want) == pinned_part(a, pinned, want) + pinned_part(
            b,
            pinned,
            want,
        ),
    decreases b.len(),
{
    if b.len() == 0 {
        assert(a + b =~= a);
        assert(pinned_part(a, pinned, want) + Seq::<Group>::empty() =~= pinned_part(
            a,
            pinned,
            want,
        ));
    } else {
        lemma_part_append(a, b.drop_last(), pinned, want);
        assert((a + b).drop_last() =~= a + b.drop_last());
        assert((a + b).last() == b.last());
        assert(pinned_part(a + b, pinned, want) =~= pinned_part(a, pinned, want) + pinned_part(
            b,
            pinned,
            want,
        ));
    }
}

/// Pinning and filtering settle at once: doing both again changes nothing.
pub proof fn law_arranging_settles(
    rows: Seq<DashboardRowModel>,
    pinned: Set<Seq<char>>,
    filter: Seq<char>,
)
    ensures
        arranged(arranged(rows, pinned, filter), pinned, filter) == arranged(rows, pinned, filter),
{
    lemma_drawn(rows, rows.len() as int);
    assert(rows.take(rows.len() as int) =~= rows);
    let groups = grouped(rows);
    assert(is_grouping(groups)) by {
        assert forall|k: int| 0 <= k < groups.len() implies {
            let g = #[trigger] groups[k];
            &&& !g.parent.indent
            &&& forall|j: int| 0 <= j < g.children.len() ==> (#[trigger] g.children[j]).indent
        } by {
            let g = groups[k];
            assert forall|j: int| 0 <= j < g.children.len() implies (
            #[trigger] g.children[j]).indent by {
                assert(rows.contains(g.children[j]) && g.children[j].indent);
            }
        }
    }
    lemma_part_of(groups, pinned, true);
    lemma_part_of(groups, pinned, false);
    let p = pinned_part(groups, pinned, true);
    let u = pinned_part(groups, pinned, false);
    lemma_kept(p, filter, pinned, true);
    lemma_kept(u, filter, pinned, false);
    let a = kept_groups(p, filter);
    let b = kept_groups(u, filter);
    lemma_flat_append(a, b);
    assert(is_grouping(a + b)) by {
        assert forall|k: int| 0 <= k < (a + b).len() implies {
            let g = #[trigger] (a + b)[k];
            &&& !g.parent.indent
            &&& forall|j: int| 0 <= j < g.children.len() ==> (#[trigger] g.children[j]).indent
        } by {
            if k < a.len() {
                assert((a + b)[k] == a[k]);
            } else {
                assert((a + b)[k] == b[k - a.len()]);
            }
        }
    }
    lemma_flat_grouped(a + b);
    lemma_part_append(a, b, pinned, true);
    lemma_part_append(a, b, pinned, false);
    lemma_part_of_uniform(a, pinned, true);
    lemma_part_of_uniform(b, pinned, false);
    assert(a + Seq::<Group>::empty() =~= a);
    assert(Seq::<Group>::empty() + b =~= b);
    lemma_kept(a, filter, pinned, true);
    lemma_kept(b, filter, pinned, false);
}

// ---------------------------------------------------------------------------
// Laws: what the rows tell
// ---------------------------------------------------------------------------

proof fn lemma_permission_for(asks: Seq<PermissionAskedModel>, id: Seq<char>)
    ensures
        match permission_for(asks, id) {
            Some(p) => p.session_id == id && asks.contains(p),
            None => forall|i: int| 0 <= i < asks.len() ==> (#[trigger] asks[i]).session_id != id,
        },
    decreases asks.len(),
{
    if asks.len() > 0 && asks[0].session_id != id {
        let rest = asks.skip(1);
        lemma_permission_for(rest, id);
        match permission_for(asks, id) {
            Some(p) => {
                let i = choose|i: int| 0 <= i < rest.len() && rest[i] == p;
                assert(asks[i + 1] == p);
            },
            None => {
                assert forall|i: int| 0 <= i < asks.len() implies (#[trigger] asks[i]).session_id
                    != id by {
                    if i > 0 {
                        assert(rest[i - 1] == asks[i]);
                    }
                }
            },
        }
    } else if asks.len() > 0 {
        assert(asks.contains(asks[0]));
    }
}

proof fn lemma_question_for(asks: Seq<QuestionAskedModel>, id: Seq<char>)
    ensures
        match question_for(asks, id) {
            Some(p) => p.session_id == id && asks.contains(p),
            None => forall|i: int| 0 <= i < asks.len() ==> (#[trigger] asks[i]).session_id != id,
        },
    decreases asks.len(),
{
    if asks.len() > 0 && asks[0].session_id != id {
        let rest = asks.skip(1);
        lemma_question_for(rest, id);
        match question_for(asks, id) {
            Some(p) => {
                let i = choose|i: int| 0 <= i < rest.len() && rest[i] == p;
                assert(asks[i + 1] == p);
            },
            None => {
                assert forall|i: int| 0 <= i < asks.len() implies (#[trigger] asks[i]).session_id
                    != id by {
                    if i > 0 {
                        assert(rest[i - 1] == asks[i]);
                    }
                }
            },
        }
    } else if asks.len() > 0 {
        assert(asks.contains(asks[0]));
    }
}

/// A session's status is the ask that it waits for, a permission before a question; without
/// one it is whether the session is busy. The ask is one of the session's own.
pub proof fn law_a_status_tells_what_is_open(poll: Poll, s: SessionInfoModel, indent: bool)
    ensures
        ({
            let status = poll.row(s, indent).status;
            let permitted = exists|i: int|
                0 <= i < poll.permissions.len() && (#[trigger] poll.permissions[i]).session_id
                    == s.id;
            let asked = exists|i: int|
                0 <= i < poll.questions.len() && (#[trigger] poll.questions[i]).session_id == s.id;
            &&& status is AwaitingPermission <==> permitted
            &&& status is AwaitingQuestion <==> asked && !permitted
            &&& status is Busy <==> s.busy && !asked && !permitted
            &&& status is Idle <==> !s.busy && !asked && !permitted
            &&& status matches DashboardStatusModel::AwaitingPermission(p) ==> p.session_id == s.id
                && poll.permissions.contains(p)
            &&& status matches DashboardStatusModel::AwaitingQuestion(q) ==> q.session_id == s.id
                && poll.questions.contains(q)
        }),
{
    lemma_permission_for(poll.permissions, s.id);
    lemma_question_for(poll.questions, s.id);
}

/// The rows of sessions come with those that wait for the user first, the busy ones behind
/// them and the idle ones last; among those, the ones that changed last come first.
pub proof fn law_what_waits_comes_first(rows: Seq<DashboardRowModel>, j: int, k: int)
    requires
        0 <= j < k < sorted_rows(rows).len(),
    ensures
        ({
            let a = sorted_rows(rows)[j];
            let b = sorted_rows(rows)[k];
            let awaits = |r: DashboardRowModel|
                r.status is AwaitingPermission || r.status is AwaitingQuestion;
            &&& awaits(b) ==> awaits(a)
            &&& b.status is Busy ==> awaits(a) || a.status is Busy
            &&& awaits(a) && awaits(b) || a.status is Busy && b.status is Busy || a.status is Idle
                && b.status is Idle ==> a.session.time_updated >= b.session.time_updated
        }),
{
    law_rows_are_ordered(rows);
    assert(!row_before(sorted_rows(rows)[k], sorted_rows(rows)[j]));
}

proof fn lemma_primary_all(poll: Poll, attached: Option<Seq<char>>, n: int, i: int)
    requires
        0 <= i < n <= poll.sessions.len(),
        is_primary(poll.sessions[i], attached),
    ensures
        poll.primary(attached, n).contains(poll.row(poll.sessions[i], false)),
    decreases n,
{
    let r = poll.row(poll.sessions[i], false);
    let all = poll.primary(attached, n);
    if i == n - 1 {
        assert(all[all.len() - 1] == r);
    } else {
        lemma_primary_all(poll, attached, n - 1, i);
        let before = poll.primary(attached, n - 1);
        let k = choose|k: int| 0 <= k < before.len() && before[k] == r;
        assert(all[k] == r);
    }
}

proof fn lemma_task_slot(ss: Seq<SessionInfoModel>, s: SessionInfoModel)
    ensures
        task_slot(ss, s) <= ss.len(),
        forall|k: int|
            0 <= k < task_slot(ss, s) ==> (#[trigger] ss[k]).time_updated <= s.time_updated,
        task_slot(ss, s) < ss.len() ==> s.time_updated < ss[task_slot(
            ss,
            s,
        ) as int].time_updated,
    decreases ss.len(),
{
    if ss.len() > 0 && !(s.time_updated < ss[0].time_updated) {
        let rest = ss.skip(1);
        lemma_task_slot(rest, s);
        assert forall|k: int| 0 <= k < task_slot(ss, s) implies (#[trigger] ss[k]).time_updated
            <= s.time_updated by {
            if k > 0 {
                assert(rest[k - 1] == ss[k]);
            }
        }
        if task_slot(ss, s) < ss.len() {
            assert(rest[task_slot(rest, s) as int] == ss[task_slot(ss, s) as int]);
        }
    }
}

proof fn lemma_tasks(poll: Poll, parent: Seq<char>, n: int)
    requires
        0 <= n <= poll.sessions.len(),
    ensures
        forall|i: int|
            0 <= i < n && is_task_of(#[trigger] poll.sessions[i], parent) ==> poll.tasks(
                parent,
                n,
            ).contains(poll.sessions[i]),
        forall|k: int|
            0 <= k < poll.tasks(parent, n).len() ==> is_task_of(
                #[trigger] poll.tasks(parent, n)[k],
                parent,
            ) && poll.sessions.contains(poll.tasks(parent, n)[k]),
        forall|j: int, k: int|
            0 <= j < k < poll.tasks(parent, n).len() ==> (#[trigger] poll.tasks(
                parent,
                n,
            )[j]).time_updated <= (#[trigger] poll.tasks(parent, n)[k]).time_updated,
    decreases n,
{
    if n > 0 {
        lemma_tasks(poll, parent, n - 1);
        let before = poll.tasks(parent, n - 1);
        let all = poll.tasks(parent, n);
        let s = poll.sessions[n - 1];
        if is_task_of(s, parent) {
            lemma_task_slot(before, s);
            let p = task_slot(before, s) as int;
            assert(all == before.insert(p, s));
            assert(all[p] == s);
            assert forall|i: int|
                0 <= i < n && is_task_of(
                    #[trigger] poll.sessions[i],
                    parent,
                ) implies all.contains(poll.sessions[i]) by {
                if i < n - 1 {
                    assert(before.contains(poll.sessions[i]));
                    let k = choose|k: int| 0 <= k < before.len() && before[k] == poll.sessions[i];
                    assert(all[if k < p {
                        k
                    } else {
                        k + 1
                    }] == poll.sessions[i]);
                }
            }
            assert forall|k: int| 0 <= k < all.len() implies is_task_of(#[trigger] all[k], parent)
                && poll.sessions.contains(all[k]) by {
                if k < p {
                    assert(all[k] == before[k]);
                } else if k > p {
                    assert(all[k] == before[k - 1]);
                }
            }
            assert forall|j: int, k: int| 0 <= j < k < all.len() implies (
            #[trigger] all[j]).time_updated <= (#[trigger] all[k]).time_updated by {
                if k < p {
                    assert(all[j] == before[j] && all[k] == before[k]);
                } else if k == p {
                    assert(all[j] == before[j]);
                } else if j < p {
                    assert(all[j] == before[j] && all[k] == before[k - 1]);
                } else if j == p {
                    assert(all[k] == before[k - 1]);
                    if k > p + 1 {
                        assert(before[p].time_updated <= before[k - 1].time_updated);
                    }
                } else {
                    assert(all[j] == before[j - 1] && all[k] == before[k - 1]);
                }
            }
        }
    }
}

/// Whether rows `from` to `to` of `rows` are the tasks of the session `parent`: all of them
/// and no others, indented, the longest unchanged first.
pub open spec fn lists_tasks(
    poll: Poll,
    rows: Seq<DashboardRowModel>,
    from: int,
    to: int,
    parent: Seq<char>,
) -> bool {
    &&& 0 <= from <= to <= rows.len()
    &&& forall|k: int|
        from <= k < to ==> (#[trigger] rows[k]).indent && rows[k].session.kind == Some(
            "workflow_task"@,
        ) && rows[k].session.parent_id == Some(parent)
    &&& forall|j: int, k: int|
        from <= j < k < to ==> (#[trigger] rows[j]).session.time_updated <= (
        #[trigger] rows[k]).session.time_updated
    &&& forall|i: int|
        0 <= i < poll.sessions.len() && (#[trigger] poll.sessions[i]).kind == Some(
            "workflow_task"@,
        ) && poll.sessions[i].parent_id == Some(parent) ==> exists|k: int|
            from <= k < to && (#[trigger] rows[k]).session == poll.sessions[i]
}

/// Whether row `a` of `rows` is that of the session `s`, with its tasks right behind it.
pub open spec fn heads_tasks(
    poll: Poll,
    rows: Seq<DashboardRowModel>,
    a: int,
    s: SessionInfoModel,
) -> bool {
    &&& 0 <= a < rows.len()
    &&& rows[a].session == s && !rows[a].indent
    &&& exists|to: int| #[trigger] lists_tasks(poll, rows, a + 1, to, s.id)
}

proof fn lemma_with_tasks(poll: Poll, rows: Seq<DashboardRowModel>, k: int) -> (a: int)
    requires
        0 <= k < rows.len(),
        !rows[k].indent,
    ensures
        heads_tasks(poll, poll.with_tasks(rows), a, rows[k].session),
    decreases rows.len(),
{
    let front = poll.with_tasks(rows.drop_last());
    let tasks = poll.task_rows(rows.last().session.id);
    let all = poll.with_tasks(rows);
    assert(all == front.push(rows.last()) + tasks);
    if k == rows.len() - 1 {
        let a = front.len() as int;
        let parent = rows.last().session.id;
        let n = poll.sessions.len() as int;
        let ts = poll.tasks(parent, n);
        lemma_tasks(poll, parent, n);
        let to = all.len() as int;
        assert forall|j: int| a + 1 <= j < to implies (#[trigger] all[j]) == poll.row(
            ts[j - a - 1],
            true,
        ) by {
            assert(all[j] == tasks[j - a - 1]);
        }
        assert forall|i: int|
            0 <= i < poll.sessions.len() && (#[trigger] poll.sessions[i]).kind == Some(
                "workflow_task"@,
            ) && poll.sessions[i].parent_id == Some(parent) implies exists|j: int|
            a + 1 <= j < to && (#[trigger] all[j]).session == poll.sessions[i] by {
            assert(is_task_of(poll.sessions[i], parent));
            assert(ts.contains(poll.sessions[i]));
            let j = choose|j: int| 0 <= j < ts.len() && ts[j] == poll.sessions[i];
            assert(all[a + 1 + j] == poll.row(ts[j], true));
        }
        assert(lists_tasks(poll, all, a + 1, to, parent));
        a
    } else {
        assert(rows.drop_last()[k] == rows[k]);
        let a = lemma_with_tasks(poll, rows.drop_last(), k);
        let s = rows[k].session;
        let to = choose|to: int| #[trigger] lists_tasks(poll, front, a + 1, to, s.id);
        assert forall|j: int| 0 <= j < front.len() implies (#[trigger] all[j]) == front[j] by {}
        assert forall|i: int|
            0 <= i < poll.sessions.len() && (#[trigger] poll.sessions[i]).kind == Some(
                "workflow_task"@,
            ) && poll.sessions[i].parent_id == Some(s.id) implies exists|j: int|
            a + 1 <= j < to && (#[trigger] all[j]).session == poll.sessions[i] by {
            let j = choose|j: int|
                a + 1 <= j < to && (#[trigger] front[j]).session == poll.sessions[i];
            assert(all[j].session == poll.sessions[i]);
        }
        assert(lists_tasks(poll, all, a + 1, to, s.id));
        a
    }
}

/// Every session has its row: a session of its own or the root of a workflow, unless it is
/// the attached one, has a row that is not indented, and the workflow's tasks stand right
/// behind it, all of them.
pub proof fn law_every_session_has_its_row(poll: Poll, attached: Option<Seq<char>>, i: int) -> (a:
    int)
    requires
        0 <= i < poll.sessions.len(),
        poll.sessions[i].parent_id is None || poll.sessions[i].kind == Some("workflow_root"@),
        Some(poll.sessions[i].id) != attached,
    ensures
        heads_tasks(poll, poll.dashboard(attached), a, poll.sessions[i]),
{
    let n = poll.sessions.len() as int;
    let rows = poll.primary(attached, n);
    let r = poll.row(poll.sessions[i], false);
    lemma_primary_all(poll, attached, n, i);
    law_rows_are_ordered(rows);
    vstd::seq_lib::to_multiset_contains(rows, r);
    vstd::seq_lib::to_multiset_contains(sorted_rows(rows), r);
    let sorted = sorted_rows(rows);
    assert(sorted.contains(r));
    let k = choose|k: int| 0 <= k < sorted.len() && sorted[k] == r;
    lemma_with_tasks(poll, sorted, k)
}

// ---------------------------------------------------------------------------
// Laws: pins, filters and the selection
// ---------------------------------------------------------------------------

proof fn lemma_in_group(rows: Seq<DashboardRowModel>, n: int, i: int)
    requires
        0 <= i < n <= rows.len(),
        !rows[0].indent,
    ensures
        exists|g: int|
            0 <= g < grouped(rows.take(n)).len() && ((#[trigger] grouped(rows.take(n))[g]).parent
                == rows[i] || grouped(rows.take(n))[g].children.contains(rows[i])),
    decreases n,
{
    let all = grouped(rows.take(n));
    let before = grouped(rows.take(n - 1));
    let r = rows[n - 1];
    assert(rows.take(n).drop_last() =~= rows.take(n - 1));
    assert(rows.take(n).last() == r);
    if i == n - 1 {
        if !r.indent {
            assert(all[all.len() - 1].parent == r);
        } else {
            lemma_in_group(rows, n - 1, 0);
            let last = all[all.len() - 1];
            assert(last.children == before.last().children.push(r));
            assert(last.children[last.children.len() - 1] == r);
            assert(last.children.contains(r));
        }
    } else {
        lemma_in_group(rows, n - 1, i);
        let g = choose|g: int|
            0 <= g < before.len() && ((#[trigger] before[g]).parent == rows[i]
                || before[g].children.contains(rows[i]));
        if g < before.len() - 1 || !r.indent {
            assert(all[g] == before[g]);
        } else {
            let last = all[all.len() - 1];
            assert(last.parent == before[g].parent);
            assert(last.children == before[g].children.push(r));
            if before[g].children.contains(rows[i]) {
                let c = choose|c: int|
                    0 <= c < before[g].children.len() && before[g].children[c] == rows[i];
                assert(last.children[c] == rows[i]);
                assert(last.children.contains(rows[i]));
            }
            assert(all[g] == last);
        }
    }
}

proof fn lemma_in_part(groups: Seq<Group>, pinned: Set<Seq<char>>, g: int)
    requires
        0 <= g < groups.len(),
    ensures
        pinned_part(
            groups,
            pinned,
            pinned.contains(groups[g].parent.session.id),
        ).contains(groups[g]),
    decreases groups.len(),
{
    let want = pinned.contains(groups[g].parent.session.id);
    let part = pinned_part(groups, pinned, want);
    if g == groups.len() - 1 {
        assert(part[part.len() - 1] == groups[g]);
    } else {
        assert(groups.drop_last()[g] == groups[g]);
        lemma_in_part(groups.drop_last(), pinned, g);
        let before = pinned_part(groups.drop_last(), pinned, want);
        let k = choose|k: int| 0 <= k < before.len() && before[k] == groups[g];
        assert(part[k] == groups[g]);
    }
}

proof fn lemma_matching_all(rows: Seq<DashboardRowModel>, filter: Seq<char>, i: int)
    requires
        0 <= i < rows.len(),
        title_matches(rows[i], filter),
    ensures
        matching_rows(rows, filter).contains(rows[i]),
    decreases rows.len(),
{
    let all = matching_rows(rows, filter);
    if i == rows.len() - 1 {
        assert(all[all.len() - 1] == rows[i]);
    } else {
        assert(rows.drop_last()[i] == rows[i]);
        lemma_matching_all(rows.drop_last(), filter, i);
        let before = matching_rows(rows.drop_last(), filter);
        let k = choose|k: int| 0 <= k < before.len() && before[k] == rows[i];
        assert(all[k] == rows[i]);
    }
}

proof fn lemma_shown_has(groups: Seq<Group>, filter: Seq<char>, g: int, r: DashboardRowModel)
    requires
        0 <= g < groups.len(),
        shown(groups[g], filter).contains(r),
    ensures
        shown_all(groups, filter).contains(r),
    decreases groups.len(),
{
    let all = shown_all(groups, filter);
    let before = shown_all(groups.drop_last(), filter);
    if g == groups.len() - 1 {
        let one = shown(groups[g], filter);
        let k = choose|k: int| 0 <= k < one.len() && one[k] == r;
        assert(all[before.len() + k] == r);
    } else {
        assert(groups.drop_last()[g] == groups[g]);
        lemma_shown_has(groups.drop_last(), filter, g, r);
        let k = choose|k: int| 0 <= k < before.len() && before[k] == r;
        assert(all[k] == r);
    }
}

/// A filter hides nothing that it should show: every row whose title holds the text, without
/// regard to case, is shown, and without a filter every row is.
pub proof fn law_filters_show_what_matches(
    rows: Seq<DashboardRowModel>,
    pinned: Set<Seq<char>>,
    filter: Seq<char>,
    i: int,
)
    requires
        0 <= i < rows.len(),
        !rows[0].indent,
        filter.len() == 0 || (rows[i].session.title is Some && has(
            lowercase(rows[i].session.title->0),
            lowercase(filter),
        )),
    ensures
        arranged(rows, pinned, filter).contains(rows[i]),
{
    let r = rows[i];
    let n = rows.len() as int;
    lemma_in_group(rows, n, i);
    assert(rows.take(n) =~= rows);
    let groups = grouped(rows);
    let g = choose|g: int|
        0 <= g < groups.len() && ((#[trigger] groups[g]).parent == r
            || groups[g].children.contains(r));
    let group = groups[g];
    let one = shown(group, filter);
    let children = matching_rows(group.children, filter);
    if group.parent == r {
        assert(one[0] == r);
    } else {
        let c = choose|c: int| 0 <= c < group.children.len() && group.children[c] == r;
        lemma_matching_all(group.children, filter, c);
        let k = choose|k: int| 0 <= k < children.len() && children[k] == r;
        assert(one[k + 1] == r);
    }
    assert(one.contains(r));
    let want = pinned.contains(group.parent.session.id);
    lemma_in_part(groups, pinned, g);
    let part = pinned_part(groups, pinned, want);
    let k = choose|k: int| 0 <= k < part.len() && part[k] == group;
    lemma_shown_has(part, filter, k, r);
    let a = shown_all(pinned_part(groups, pinned, true), filter);
    let b = shown_all(pinned_part(groups, pinned, false), filter);
    let all = arranged(rows, pinned, filter);
    if want {
        let j = choose|j: int| 0 <= j < a.len() && a[j] == r;
        assert(all[j] == r);
    } else {
        let j = choose|j: int| 0 <= j < b.len() && b[j] == r;
        assert(all[a.len() + j] == r);
    }
}

proof fn lemma_part_parents(groups: Seq<Group>, pinned: Set<Seq<char>>, want: bool, filter: Seq<char>)
    requires
        forall|g: int| 0 <= g < groups.len() ==> !(#[trigger] groups[g]).parent.indent,
        forall|g: int, c: int|
            0 <= g < groups.len() && 0 <= c < groups[g].children.len() ==> (
            #[trigger] groups[g].children[c]).indent,
    ensures
        forall|k: int|
            0 <= k < shown_all(pinned_part(groups, pinned, want), filter).len() && !(
            #[trigger] shown_all(pinned_part(groups, pinned, want), filter)[k]).indent
                ==> pinned.contains(
                shown_all(pinned_part(groups, pinned, want), filter)[k].session.id,
            ) == want,
    decreases groups.len(),
{
    if groups.len() > 0 {
        let front = groups.drop_last();
        assert forall|g: int| 0 <= g < front.len() implies !(#[trigger] front[g]).parent.indent by {
            assert(front[g] == groups[g]);
        }
        assert forall|g: int, c: int|
            0 <= g < front.len() && 0 <= c < front[g].children.len() implies (
        #[trigger] front[g].children[c]).indent by {
            assert(groups[g].children[c].indent);
        }
        lemma_part_parents(front, pinned, want, filter);
        let before = pinned_part(front, pinned, want);
        let part = pinned_part(groups, pinned, want);
        let last = groups[groups.len() - 1];
        if pinned.contains(last.parent.session.id) == want {
            assert(part.drop_last() =~= before);
            let one = shown(last, filter);
            let old_rows = shown_all(before, filter);
            let all = shown_all(part, filter);
            assert(all == old_rows + one);
            lemma_matching_from(last.children, filter);
            assert forall|k: int| 0 <= k < all.len() && !(
            #[trigger] all[k]).indent implies pinned.contains(all[k].session.id) == want by {
                if k < old_rows.len() {
                    assert(all[k] == old_rows[k]);
                } else {
                    let j = k - old_rows.len();
                    assert(all[k] == one[j]);
                    if j > 0 {
                        let children = matching_rows(last.children, filter);
                        assert(one[j] == children[j - 1]);
                        assert(last.children.contains(children[j - 1]));
                        let c = choose|c: int|
                            0 <= c < last.children.len() && last.children[c] == children[j - 1];
                        assert(groups[groups.len() - 1].children[c].indent);
                    }
                }
            }
        }
    }
}

proof fn lemma_matching_from(rows: Seq<DashboardRowModel>, filter: Seq<char>)
    ensures
        forall|k: int|
            0 <= k < matching_rows(rows, filter).len() ==> rows.contains(
                #[trigger] matching_rows(rows, filter)[k],
            ),
    decreases rows.len(),
{
    if rows.len() > 0 {
        let front = rows.drop_last();
        lemma_matching_from(front, filter);
        let before = matching_rows(front, filter);
        let all = matching_rows(rows, filter);
        assert forall|k: int| 0 <= k < all.len() implies rows.contains(#[trigger] all[k]) by {
            if k < before.len() {
                assert(all[k] == before[k]);
                assert(front.contains(before[k]));
                let c = choose|c: int| 0 <= c < front.len() && front[c] == before[k];
                assert(rows[c] == all[k]);
            } else {
                assert(rows[rows.len() - 1] == all[k]);
            }
        }
    }
}

proof fn lemma_group_shape(rows: Seq<DashboardRowModel>)
    ensures
        forall|g: int| 0 <= g < grouped(rows).len() ==> !(#[trigger] grouped(rows)[g]).parent.indent,
        forall|g: int, c: int|
            0 <= g < grouped(rows).len() && 0 <= c < grouped(rows)[g].children.len() ==> (
            #[trigger] grouped(rows)[g].children[c]).indent,
    decreases rows.len(),
{
    if rows.len() > 0 {
        lemma_group_shape(rows.drop_last());
        let before = grouped(rows.drop_last());
        let all = grouped(rows);
        let r = rows.last();
        assert forall|g: int| 0 <= g < all.len() implies !(#[trigger] all[g]).parent.indent by {
            if g < before.len() {
                assert(all[g].parent == before[g].parent);
            }
        }
        assert forall|g: int, c: int|
            0 <= g < all.len() && 0 <= c < all[g].children.len() implies (
        #[trigger] all[g].children[c]).indent by {
            if g < before.len() && c < before[g].children.len() {
                assert(all[g].children[c] == before[g].children[c]);
            }
        }
    }
}

/// Pinned sessions stand above all others.
pub proof fn law_pinned_sessions_stand_on_top(
    rows: Seq<DashboardRowModel>,
    pinned: Set<Seq<char>>,
    filter: Seq<char>,
    j: int,
    k: int,
)
    requires
        0 <= j < k < arranged(rows, pinned, filter).len(),
        !arranged(rows, pinned, filter)[j].indent,
        !arranged(rows, pinned, filter)[k].indent,
        pinned.contains(arranged(rows, pinned, filter)[k].session.id),
    ensures
        pinned.contains(arranged(rows, pinned, filter)[j].session.id),
{
    lemma_group_shape(rows);
    let groups = grouped(rows);
    lemma_part_parents(groups, pinned, true, filter);
    lemma_part_parents(groups, pinned, false, filter);
    let a = shown_all(pinned_part(groups, pinned, true), filter);
    let b = shown_all(pinned_part(groups, pinned, false), filter);
    let all = arranged(rows, pinned, filter);
    if k >= a.len() {
        assert(all[k] == b[k - a.len()]);
    } else {
        assert(all[j] == a[j]);
    }
}

proof fn lemma_row_place(rows: Seq<DashboardRowModel>, id: Seq<char>)
    ensures
        row_place(rows, id) < rows.len() ==> rows[row_place(rows, id) as int].session.id == id,
        row_place(rows, id) == rows.len() ==> forall|k: int|
            0 <= k < rows.len() ==> (#[trigger] rows[k]).session.id != id,
        row_place(rows, id) <= rows.len(),
    decreases rows.len(),
{
    if rows.len() > 0 && rows[0].session.id != id {
        let rest = rows.skip(1);
        lemma_row_place(rest, id);
        if row_place(rows, id) == rows.len() {
            assert forall|k: int| 0 <= k < rows.len() implies (#[trigger] rows[k]).session.id
                != id by {
                if k > 0 {
                    assert(rest[k - 1] == rows[k]);
                }
            }
        }
    }
}

/// Whether the dashboard `after` still has the session selected that `before` has, as far as
/// it shows that session.
pub open spec fn keeps_the_selection(before: DashboardStateModel, after: DashboardStateModel) -> bool {
    before.selected < before.rows.len() ==> {
        let id = before.rows[before.selected as int].session.id;
        (exists|k: int| 0 <= k < after.rows.len() && (#[trigger] after.rows[k]).session.id == id)
            ==> after.selected < after.rows.len()
            && after.rows[after.selected as int].session.id == id
    }
}

/// The selection follows its session: whatever is polled, pinned or filtered, the session
/// that is selected stays so as long as it is shown. A session that was just created is
/// selected where it is shown. A preview is kept for the session it was made for only.
pub proof fn law_the_selection_follows_its_session(
    d: DashboardStateModel,
    poll: Poll,
    attached: Option<Seq<char>>,
    filter: Seq<char>,
    s: SessionInfoModel,
    id: Seq<char>,
    text: Seq<char>,
)
    requires
        d.polled(poll, attached).rows.len() <= usize::MAX,
        d.filtered(filter).rows.len() <= usize::MAX,
        d.pin_toggled().rows.len() <= usize::MAX,
        d.session_added(s).rows.len() <= usize::MAX,
    ensures
        keeps_the_selection(d, d.polled(poll, attached)),
        keeps_the_selection(d, d.filtered(filter)),
        keeps_the_selection(d, d.pin_toggled()),
        ({
            let e = d.session_added(s);
            (exists|k: int| 0 <= k < e.rows.len() && (#[trigger] e.rows[k]).session.id == s.id)
                ==> e.selected < e.rows.len() && e.rows[e.selected as int].session.id == s.id
        }),
        d.selected < d.rows.len() && d.rows[d.selected as int].session.id == id ==> d.peeked(
            id,
            text,
        ).peek == DashboardPeekModel::Message(text),
        !(d.selected < d.rows.len() && d.rows[d.selected as int].session.id == id) ==> d.peeked(
            id,
            text,
        ) == d,
        !d.polled(poll, attached).needs_refetch,
        d.filtered(filter).filter == filter,
{
    let a = d.polled(poll, attached);
    let b = d.filtered(filter);
    let c = d.pin_toggled();
    let e = d.session_added(s);
    if d.selected < d.rows.len() {
        let x = d.rows[d.selected as int].session.id;
        lemma_row_place(a.rows, x);
        lemma_row_place(b.rows, x);
        lemma_row_place(c.rows, x);
    }
    lemma_row_place(e.rows, s.id);
}

/// A push from the server reaches the session's own row: where it waits for nothing, it
/// takes the new status, and every other row stays as it is.
pub proof fn law_pushes_reach_their_row(
    d: DashboardStateModel,
    k: int,
    status: DashboardStatusModel,
)
    requires
        0 <= k < d.rows.len(),
        !d.rows[k].indent,
        !(d.rows[k].status is AwaitingPermission),
        !(d.rows[k].status is AwaitingQuestion),
        forall|j: int|
            0 <= j < d.rows.len() && j != k ==> (#[trigger] d.rows[j]).session.id
                != d.rows[k].session.id || d.rows[j].indent,
    ensures
        ({
            let after = d.flipped(d.rows[k].session.id, status);
            &&& after.rows.len() == d.rows.len()
            &&& after.rows[k].status == status && after.rows[k].session == d.rows[k].session
            &&& forall|j: int|
                0 <= j < d.rows.len() && j != k ==> #[trigger] after.rows[j] == d.rows[j]
            &&& after.selected == d.selected
        }),
{
    lemma_primary_place_is(d.rows, d.rows[k].session.id, k);
}

proof fn lemma_primary_place_is(rows: Seq<DashboardRowModel>, id: Seq<char>, k: int)
    requires
        0 <= k < rows.len(),
        rows[k].session.id == id,
        !rows[k].indent,
        forall|j: int|
            0 <= j < k ==> (#[trigger] rows[j]).session.id != id || rows[j].indent,
    ensures
        primary_place(rows, id) == k,
    decreases k,
{
    if k > 0 {
        assert(rows[0].session.id != id || rows[0].indent);
        let rest = rows.skip(1);
        assert forall|j: int| 0 <= j < k - 1 implies (#[trigger] rest[j]).session.id != id
            || rest[j].indent by {
            assert(rest[j] == rows[j + 1]);
        }
        lemma_primary_place_is(rest, id, k - 1);
    }
}

proof fn lemma_permission_place(rows: Seq<DashboardRowModel>, id: Seq<char>)
    ensures
        permission_place(rows, id) <= rows.len(),
        permission_place(rows, id) < rows.len() ==> awaits_permission(
            rows[permission_place(rows, id) as int],
            id,
        ),
        forall|j: int|
            0 <= j < permission_place(rows, id) ==> !awaits_permission(#[trigger] rows[j], id),
    decreases rows.len(),
{
    if rows.len() > 0 && !awaits_permission(rows[0], id) {
        let rest = rows.skip(1);
        lemma_permission_place(rest, id);
        assert forall|j: int| 0 <= j < permission_place(rows, id) implies !awaits_permission(
            #[trigger] rows[j],
            id,
        ) by {
            if j > 0 {
                assert(rest[j - 1] == rows[j]);
            }
        }
    }
}

proof fn lemma_question_place(rows: Seq<DashboardRowModel>, id: Seq<char>)
    ensures
        question_place(rows, id) <= rows.len(),
        question_place(rows, id) < rows.len() ==> awaits_question(
            rows[question_place(rows, id) as int],
            id,
        ),
        forall|j: int|
            0 <= j < question_place(rows, id) ==> !awaits_question(#[trigger] rows[j], id),
    decreases rows.len(),
{
    if rows.len() > 0 && !awaits_question(rows[0], id) {
        let rest = rows.skip(1);
        lemma_question_place(rest, id);
        assert forall|j: int| 0 <= j < question_place(rows, id) implies !awaits_question(
            #[trigger] rows[j],
            id,
        ) by {
            if j > 0 {
                assert(rest[j - 1] == rows[j]);
            }
        }
    }
}

/// An answered ask is gone from the dashboard: the row that waited for it is idle, and every
/// other row stays as it is.
pub proof fn law_answered_asks_are_gone(
    d: DashboardStateModel,
    k: int,
    p: PermissionAskedModel,
    q: QuestionAskedModel,
)
    requires
        0 <= k < d.rows.len(),
    ensures
        d.rows[k].status == DashboardStatusModel::AwaitingPermission(p) && (forall|j: int|
            0 <= j < d.rows.len() && j != k ==> !((
            #[trigger] d.rows[j]).status matches DashboardStatusModel::AwaitingPermission(o)
                && o.id == p.id)) ==> d.permission_settled(p.id).rows == d.rows.update(
            k,
            DashboardRowModel { status: DashboardStatusModel::Idle, ..d.rows[k] },
        ),
        d.rows[k].status == DashboardStatusModel::AwaitingQuestion(q) && (forall|j: int|
            0 <= j < d.rows.len() && j != k ==> !((
            #[trigger] d.rows[j]).status matches DashboardStatusModel::AwaitingQuestion(o) && o.id
                == q.id)) ==> d.question_settled(q.id).rows == d.rows.update(
            k,
            DashboardRowModel { status: DashboardStatusModel::Idle, ..d.rows[k] },
        ),
        (forall|j: int|
            0 <= j < d.rows.len() ==> !((
            #[trigger] d.rows[j]).status matches DashboardStatusModel::AwaitingPermission(o)
                && o.id == p.id)) ==> d.permission_settled(p.id).rows == d.rows,
        (forall|j: int|
            0 <= j < d.rows.len() ==> !((
            #[trigger] d.rows[j]).status matches DashboardStatusModel::AwaitingQuestion(o) && o.id
                == q.id)) ==> d.question_settled(q.id).rows == d.rows,
{
    lemma_permission_place(d.rows, p.id);
    lemma_question_place(d.rows, q.id);
}

/// What a row's peek offers: a key for a permission, a digit for one question with one
/// choice, the session itself for any other ask, and the latest answer where nothing waits.
pub proof fn law_a_peek_offers_what_can_be_answered(d: DashboardStateModel)
    requires
        d.selected < d.rows.len(),
    ensures
        ({
            let status = d.rows[d.selected as int].status;
            let peek = d.first_peek();
            &&& status is AwaitingPermission <==> peek is Permission
            &&& peek is Question || peek is NeedsFullSession <==> status is AwaitingQuestion
            &&& status is AwaitingQuestion ==> (peek is Question
                <==> status->AwaitingQuestion_0.questions.len() == 1
                && !status->AwaitingQuestion_0.questions[0].multiple)
            &&& status is Busy || status is Idle <==> peek is Loading
            &&& peek matches DashboardPeekModel::Question { highlight } ==> highlight == 0
        }),
{
}

/// Pinning changes whether the selected session is pinned, and no other.
pub proof fn law_a_pin_is_for_the_selected_session(d: DashboardStateModel, other: Seq<char>)
    requires
        d.selected < d.rows.len(),
    ensures
        ({
            let id = d.rows[d.selected as int].session.id;
            let after = d.pin_toggled();
            &&& after.pinned.contains(id) == !d.pinned.contains(id)
            &&& other != id ==> after.pinned.contains(other) == d.pinned.contains(other)
            &&& after.filter == d.filter
        }),
{
}

/// Polling keeps what is being looked at: as long as the selected session waits for the same
/// kind of thing, its peek stays; where that changed, the peek is made for what it waits for
/// now.
pub proof fn law_polling_keeps_the_peek(
    d: DashboardStateModel,
    poll: Poll,
    attached: Option<Seq<char>>,
    k: int,
)
    requires
        d.selected < d.rows.len(),
        d.polled(poll, attached).rows.len() <= usize::MAX,
        0 <= k < d.polled(poll, attached).rows.len(),
        d.polled(poll, attached).rows[k].session.id == d.rows[d.selected as int].session.id,
    ensures
        ({
            let before = d.rows[d.selected as int].status;
            let e = d.polled(poll, attached);
            let now = e.rows[e.selected as int].status;
            let kept = (before is AwaitingPermission && now is AwaitingPermission) || (
            before is AwaitingQuestion && now is AwaitingQuestion) || (before is Busy
                && now is Busy) || (before is Idle && now is Idle);
            &&& kept ==> e.peek == d.peek
            &&& !kept && now is AwaitingPermission ==> e.peek is Permission
            &&& !kept && (now is Busy || now is Idle) ==> e.peek is Loading
            &&& e.pinned == d.pinned && e.filter == d.filter && e.mode == d.mode
        }),
{
    let id = d.rows[d.selected as int].session.id;
    let e = d.polled(poll, attached);
    lemma_row_place(e.rows, id);
}

} // verus!
