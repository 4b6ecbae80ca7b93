//! The modal overlays and their state.

use crate::sse::{
    PermissionAsked, PermissionAskedModel, QuestionAsked, QuestionAskedModel, QuestionPromptView,
    QuestionPromptViewModel,
};
use vstd::arithmetic::div_mod::{lemma_mod_add_multiples_vanish, lemma_sub_mod_noop};
use vstd::prelude::*;

verus! {

/// An ask in progress: one question at a time. `answers` collects what was
/// confirmed, `cursor` is the selection for the current question, `highlight` the
/// option under the cursor.
#[derive(Debug)]
pub struct QuestionSession {
    pub id: String,
    pub session_id: String,
    pub questions: Vec<QuestionPromptView>,
    pub current: usize,
    pub answers: Vec<Vec<usize>>,
    pub cursor: Vec<usize>,
    pub highlight: usize,
}

/// The value of a [`QuestionSession`].
#[verifier::ext_equal]
pub struct QuestionSessionModel {
    pub id: Seq<char>,
    pub session_id: Seq<char>,
    pub questions: Seq<QuestionPromptViewModel>,
    pub current: usize,
    pub answers: Seq<Seq<usize>>,
    pub cursor: Seq<usize>,
    pub highlight: usize,
}

impl DeepView for QuestionSession {
    type V = QuestionSessionModel;

    open spec fn deep_view(&self) -> QuestionSessionModel {
        QuestionSessionModel {
            id: self.id.deep_view(),
            session_id: self.session_id.deep_view(),
            questions: self.questions.deep_view(),
            current: self.current,
            answers: self.answers.deep_view(),
            cursor: self.cursor.deep_view(),
            highlight: self.highlight,
        }
    }
}

/// Inline `@`-completion in a text box. The `@` stands at the character
/// `anchor`; what follows it is the query.
#[derive(Debug)]
pub struct TextMentionState {
    pub anchor: usize,
    pub selected: usize,
    pub results: Vec<String>,
    pub truncated: bool,
    pub loading: bool,
}

/// The value of a [`TextMentionState`].
#[verifier::ext_equal]
pub struct TextMentionStateModel {
    pub anchor: usize,
    pub selected: usize,
    pub results: Seq<Seq<char>>,
    pub truncated: bool,
    pub loading: bool,
}

impl DeepView for TextMentionState {
    type V = TextMentionStateModel;

    open spec fn deep_view(&self) -> TextMentionStateModel {
        TextMentionStateModel {
            anchor: self.anchor,
            selected: self.selected,
            results: self.results.deep_view(),
            truncated: self.truncated,
            loading: self.loading,
        }
    }
}

/// The free-text input box: its title, what was typed, and the workflow kind it
/// is for.
#[derive(Debug)]
pub struct TextInputState {
    pub title: String,
    pub query: String,
    pub kind: String,
    pub mention: Option<TextMentionState>,
}

/// The value of a [`TextInputState`].
#[verifier::ext_equal]
pub struct TextInputStateModel {
    pub title: Seq<char>,
    pub query: Seq<char>,
    pub kind: Seq<char>,
    pub mention: Option<TextMentionStateModel>,
}

impl DeepView for TextInputState {
    type V = TextInputStateModel;

    open spec fn deep_view(&self) -> TextInputStateModel {
        TextInputStateModel {
            title: self.title.deep_view(),
            query: self.query.deep_view(),
            kind: self.kind.deep_view(),
            mention: self.mention.deep_view(),
        }
    }
}

/// Inline `@`-completion in the prompt editor. The `@` stands at the character
/// `anchor_col` of line `anchor_row`; the query is what the editor holds from
/// there to the cursor.
#[derive(Debug)]
pub struct MentionState {
    pub anchor_row: usize,
    pub anchor_col: usize,
    pub selected: usize,
    pub results: Vec<String>,
    pub truncated: bool,
    pub loading: bool,
}

/// The value of a [`MentionState`].
#[verifier::ext_equal]
pub struct MentionStateModel {
    pub anchor_row: usize,
    pub anchor_col: usize,
    pub selected: usize,
    pub results: Seq<Seq<char>>,
    pub truncated: bool,
    pub loading: bool,
}

impl DeepView for MentionState {
    type V = MentionStateModel;

    open spec fn deep_view(&self) -> MentionStateModel {
        MentionStateModel {
            anchor_row: self.anchor_row,
            anchor_col: self.anchor_col,
            selected: self.selected,
            results: self.results.deep_view(),
            truncated: self.truncated,
            loading: self.loading,
        }
    }
}

/// The file picker: the query, the selection among its matches, and the paths
/// that the server listed.
#[derive(Debug)]
pub struct FilePickerState {
    pub query: String,
    pub selected: usize,
    pub results: Vec<String>,
    pub truncated: bool,
    pub loading: bool,
}

/// The value of a [`FilePickerState`].
#[verifier::ext_equal]
pub struct FilePickerStateModel {
    pub query: Seq<char>,
    pub selected: usize,
    pub results: Seq<Seq<char>>,
    pub truncated: bool,
    pub loading: bool,
}

impl DeepView for FilePickerState {
    type V = FilePickerStateModel;

    open spec fn deep_view(&self) -> FilePickerStateModel {
        FilePickerStateModel {
            query: self.query.deep_view(),
            selected: self.selected,
            results: self.results.deep_view(),
            truncated: self.truncated,
            loading: self.loading,
        }
    }
}

/// The command palette: the query and the selection among its matches.
#[derive(Debug)]
pub struct PaletteState {
    pub query: String,
    pub selected: usize,
}

/// The value of a [`PaletteState`].
#[verifier::ext_equal]
pub struct PaletteStateModel {
    pub query: Seq<char>,
    pub selected: usize,
}

impl DeepView for PaletteState {
    type V = PaletteStateModel;

    open spec fn deep_view(&self) -> PaletteStateModel {
        PaletteStateModel {
            query: self.query.deep_view(),
            selected: self.selected,
        }
    }
}

/// Transcript search: the query and the ordinal of the current match.
#[derive(Debug)]
pub struct SearchState {
    pub query: String,
    pub current: usize,
}

/// The value of a [`SearchState`].
#[verifier::ext_equal]
pub struct SearchStateModel {
    pub query: Seq<char>,
    pub current: usize,
}

impl DeepView for SearchState {
    type V = SearchStateModel;

    open spec fn deep_view(&self) -> SearchStateModel {
        SearchStateModel {
            query: self.query.deep_view(),
            current: self.current,
        }
    }
}

/// The single active modal overlay, if any.
#[derive(Debug)]
pub enum Overlay {
    Closed,
    Help,
    Permission(PermissionAsked),
    Question(QuestionSession),
    Sessions,
    /// The multi-session dashboard; its state is kept apart.
    Dashboard,
    Models,
    Agents,
    Palette(PaletteState),
    Files(FilePickerState),
    Search(SearchState),
    /// A free-text box for a workflow's argument.
    TextInput(TextInputState),
    /// Inline completion in the prompt editor, which keeps the cursor.
    Mention(MentionState),
    /// The progress of the workflow run; opened only while there is one.
    WorkflowStatus,
}

/// The value of a [`Overlay`].
#[verifier::ext_equal]
pub enum OverlayModel {
    Closed,
    Help,
    Permission(PermissionAskedModel),
    Question(QuestionSessionModel),
    Sessions,
    Dashboard,
    Models,
    Agents,
    Palette(PaletteStateModel),
    Files(FilePickerStateModel),
    Search(SearchStateModel),
    TextInput(TextInputStateModel),
    Mention(MentionStateModel),
    WorkflowStatus,
}

impl DeepView for Overlay {
    type V = OverlayModel;

    open spec fn deep_view(&self) -> OverlayModel {
        match self {
            Overlay::Closed => OverlayModel::Closed,
            Overlay::Help => OverlayModel::Help,
            Overlay::Permission(a) => OverlayModel::Permission(a.deep_view()),
            Overlay::Question(a) => OverlayModel::Question(a.deep_view()),
            Overlay::Sessions => OverlayModel::Sessions,
            Overlay::Dashboard => OverlayModel::Dashboard,
            Overlay::Models => OverlayModel::Models,
            Overlay::Agents => OverlayModel::Agents,
            Overlay::Palette(a) => OverlayModel::Palette(a.deep_view()),
            Overlay::Files(a) => OverlayModel::Files(a.deep_view()),
            Overlay::Search(a) => OverlayModel::Search(a.deep_view()),
            Overlay::TextInput(a) => OverlayModel::TextInput(a.deep_view()),
            Overlay::Mention(a) => OverlayModel::Mention(a.deep_view()),
            Overlay::WorkflowStatus => OverlayModel::WorkflowStatus,
        }
    }
}

// ---------------------------------------------------------------------------
// Questions
// ---------------------------------------------------------------------------

/// Where `x` first stands in `s`; the length where it does not.
pub open spec fn first_at(s: Seq<usize>, x: usize) -> nat
    decreases s.len(),
{
    if s.len() == 0 || s[0] == x {
        0
    } else {
        1 + first_at(s.skip(1), x)
    }
}

/// `s` without the first `x`, or with `x` at its end where it is not in it.
pub open spec fn flipped(s: Seq<usize>, x: usize) -> Seq<usize> {
    if first_at(s, x) < s.len() {
        s.remove(first_at(s, x) as int)
    } else {
        s.push(x)
    }
}

proof fn lemma_first_at(s: Seq<usize>, x: usize)
    ensures
        first_at(s, x) <= s.len(),
        first_at(s, x) < s.len() ==> s[first_at(s, x) as int] == x,
        forall|k: int| 0 <= k < first_at(s, x) ==> #[trigger] s[k] != x,
    decreases s.len(),
{
    if s.len() == 0 || s[0] == x {
    } else {
        let t = s.skip(1);
        lemma_first_at(t, x);
        assert forall|k: int| 0 <= k < first_at(s, x) implies #[trigger] s[k] != x by {
            if k > 0 {
                assert(t[k - 1] == s[k]);
            }
        }
    }
}

impl QuestionSessionModel {
    /// An ask before its first answer.
    pub open spec fn begun(asked: QuestionAskedModel) -> QuestionSessionModel {
        QuestionSessionModel {
            id: asked.id,
            session_id: asked.session_id,
            questions: asked.questions,
            current: 0,
            answers: Seq::empty(),
            cursor: Seq::empty(),
            highlight: 0,
        }
    }

    /// Whether there is a current question.
    pub open spec fn has_question(self) -> bool {
        self.current < self.questions.len()
    }

    /// Whether the questions before the current one are answered, each by at least
    /// one choice, and the answers stop there. Only an ask without questions has
    /// no current one.
    pub open spec fn wf(self) -> bool {
        &&& self.questions.len() > 0 ==> self.has_question()
        &&& self.answers.len() == self.current
        &&& forall|i: int| 0 <= i < self.answers.len() ==> (#[trigger] self.answers[i]).len() > 0
    }

    /// The current question.
    pub open spec fn question(self) -> QuestionPromptViewModel {
        self.questions[self.current as int]
    }

    /// With the highlight `delta` options further, round the list. Without
    /// options nothing moves.
    pub open spec fn highlighted(self, delta: int) -> QuestionSessionModel {
        let n = self.question().options.len();
        if n == 0 {
            self
        } else {
            QuestionSessionModel {
                highlight: ((self.highlight + delta) % (n as int)) as usize,
                ..self
            }
        }
    }

    /// With the option `index` chosen: as the only one, or, where several may be
    /// chosen, turned on or off.
    pub open spec fn toggled(self, index: usize) -> QuestionSessionModel {
        QuestionSessionModel {
            cursor: if self.question().multiple {
                flipped(self.cursor, index)
            } else {
                seq![index]
            },
            ..self
        }
    }

    /// With the current selection confirmed; an empty one changes nothing.
    pub open spec fn confirmed(self) -> QuestionSessionModel {
        if self.cursor.len() == 0 {
            self
        } else {
            QuestionSessionModel {
                answers: self.answers.push(self.cursor),
                cursor: Seq::empty(),
                highlight: 0,
                current: if self.current + 1 < self.questions.len() {
                    (self.current + 1) as usize
                } else {
                    self.current
                },
                ..self
            }
        }
    }

    /// Whether confirming the current selection answers the last question.
    pub open spec fn confirm_completes(self) -> bool {
        self.cursor.len() > 0 && self.current + 1 >= self.questions.len()
    }
}

impl QuestionSession {
    #[must_use]
    pub fn new(asked: QuestionAsked) -> (r: Self)
        ensures
            r.deep_view() == QuestionSessionModel::begun(asked.deep_view()),
    {
        let r = QuestionSession {
            id: asked.id,
            session_id: asked.session_id,
            questions: asked.questions,
            current: 0,
            answers: Vec::new(),
            cursor: Vec::new(),
            highlight: 0,
        };
        assert(r.deep_view() =~= QuestionSessionModel::begun(asked.deep_view()));
        r
    }

    /// The current question.
    pub fn current_question(&self) -> (r: &QuestionPromptView)
        requires
            self.deep_view().has_question(),
        ensures
            r.deep_view() == self.deep_view().question(),
    {
        &self.questions[self.current]
    }

    /// Whether the current question allows several choices.
    #[must_use]
    pub fn current_question_is_multiple(&self) -> (r: bool)
        requires
            self.deep_view().has_question(),
        ensures
            r == self.deep_view().question().multiple,
    {
        self.current_question().multiple
    }

    /// Moves the highlight by `delta`, round the list of options.
    pub fn move_highlight(&mut self, delta: i32)
        requires
            old(self).deep_view().has_question(),
        ensures
            final(self).deep_view() == old(self).deep_view().highlighted(delta as int),
    {
        let len: usize = self.current_question().options.len();
        if len == 0 {
            return;
        }
        let h: u128 = self.highlight as u128;
        let n: u128 = len as u128;
        let next: u128 = if delta >= 0 {
            (h + delta as u128) % n
        } else {
            let back: u128 = (-(delta as i64)) as u128;
            let m: u128 = back % n;
            proof {
                let x = h as int;
                let y = back as int;
                let k = n as int;
                lemma_sub_mod_noop(x, y, k);
                lemma_mod_add_multiples_vanish((x % k) - (y % k), k);
                assert(((x % k) + (k - y % k)) == k + ((x % k) - (y % k)));
            }
            (h % n + (n - m)) % n
        };
        self.highlight = next as usize;
    }

    /// Chooses the option `index`: as the only one, or, where several may be
    /// chosen, turned on or off.
    pub fn toggle(&mut self, index: usize)
        requires
            old(self).deep_view().has_question(),
        ensures
            final(self).deep_view() == old(self).deep_view().toggled(index),
    {
        if self.current_question_is_multiple() {
            let ghost c = self.cursor@;
            assert(self.cursor.deep_view() =~= c);
            let mut p: usize = 0;
            assert(c.skip(0) =~= c);
            while p < self.cursor.len() && self.cursor[p] != index
                invariant
                    p <= self.cursor@.len(),
                    c == self.cursor@,
                    first_at(c, index) == p + first_at(c.skip(p as int), index),
                decreases self.cursor@.len() - p,
            {
                assert(c.skip(p as int).skip(1) =~= c.skip(p + 1));
                p += 1;
            }
            assert(first_at(c, index) == p);
            if p < self.cursor.len() {
                self.cursor.remove(p);
            } else {
                self.cursor.push(index);
            }
            assert(self.cursor.deep_view() =~= flipped(c, index));
        } else {
            let mut one: Vec<usize> = Vec::new();
            one.push(index);
            self.cursor = one;
            assert(self.cursor.deep_view() =~= seq![index]);
        }
        assert(self.deep_view() =~= old(self).deep_view().toggled(index));
    }

    /// Confirms the current selection and goes on to the next question. Tells
    /// whether that was the last one; an empty selection changes nothing.
    pub fn confirm_current(&mut self) -> (r: bool)
        ensures
            final(self).deep_view() == old(self).deep_view().confirmed(),
            r == old(self).deep_view().confirm_completes(),
    {
        if self.cursor.len() == 0 {
            return false;
        }
        let ghost before = self.answers.deep_view();
        let ghost cur = self.cursor.deep_view();
        let mut taken: Vec<usize> = Vec::new();
        std::mem::swap(&mut self.cursor, &mut taken);
        self.answers.push(taken);
        assert(self.answers.deep_view() =~= before.push(cur));
        assert(self.cursor.deep_view() =~= Seq::<usize>::empty());
        self.highlight = 0;
        let n: usize = self.questions.len();
        let done: bool = if n > 0 && self.current < n - 1 {
            self.current = self.current + 1;
            false
        } else {
            true
        };
        assert(self.deep_view() =~= old(self).deep_view().confirmed());
        done
    }
}

/// Choosing an option that is not chosen, twice, leaves the selection as it was
/// where several may be chosen.
pub proof fn law_toggling_twice_restores(q: QuestionSessionModel, index: usize)
    requires
        q.question().multiple,
        !q.cursor.contains(index),
    ensures
        q.toggled(index).toggled(index) == q,
{
    lemma_first_at(q.cursor, index);
    let once = q.cursor.push(index);
    lemma_first_at(once, index);
    assert(q.toggled(index).cursor == once);
    if first_at(once, index) < q.cursor.len() {
        assert(once[first_at(once, index) as int] == q.cursor[first_at(once, index) as int]);
    }
    assert(once[q.cursor.len() as int] == index);
    assert(first_at(once, index) == q.cursor.len());
    assert(once.remove(q.cursor.len() as int) =~= q.cursor);
    assert(q.toggled(index).toggled(index) =~= q);
}

/// The highlight stays on the list, and moving it back returns it.
pub proof fn law_highlight_goes_round(q: QuestionSessionModel, delta: int)
    requires
        q.has_question(),
        0 < q.question().options.len() <= usize::MAX,
        q.highlight < q.question().options.len(),
    ensures
        q.highlighted(delta).highlight < q.question().options.len(),
        q.highlighted(delta).highlighted(-delta) == q,
{
    let n = q.question().options.len() as int;
    let h = q.highlight as int;
    let a = (h + delta) % n;
    vstd::arithmetic::div_mod::lemma_mod_bound(h + delta, n);
    lemma_sub_mod_noop(h + delta, delta, n);
    vstd::arithmetic::div_mod::lemma_mod_twice(h + delta, n);
    lemma_sub_mod_noop(a, delta, n);
    vstd::arithmetic::div_mod::lemma_small_mod(h as nat, n as nat);
    assert(q.highlighted(delta).highlighted(-delta) =~= q);
}

/// Choosing leaves the answers alone.
pub proof fn law_choosing_keeps_the_answers(q: QuestionSessionModel, delta: int, index: usize)
    requires
        q.wf(),
    ensures
        q.highlighted(delta).wf() && q.highlighted(delta).answers == q.answers,
        q.toggled(index).wf() && q.toggled(index).answers == q.answers,
{
}

/// Confirming answers the questions one by one: each confirmation adds one answer,
/// and answers given stay. Once the last one is confirmed there is an answer for
/// every question, and none of them is empty.
pub proof fn law_confirming_adds_an_answer(q: QuestionSessionModel)
    requires
        q.wf(),
        q.has_question(),
        q.cursor.len() > 0,
        q.questions.len() <= usize::MAX,
    ensures
        q.confirmed().answers == q.answers.push(q.cursor),
        q.confirmed().cursor.len() == 0,
        !q.confirm_completes() ==> q.confirmed().wf() && q.confirmed().current == q.current + 1,
        q.confirm_completes() ==> q.confirmed().answers.len() == q.questions.len(),
        forall|i: int|
            0 <= i < q.confirmed().answers.len() ==> (#[trigger] q.confirmed().answers[i]).len() > 0,
{
}

/// An ask begins with its first question and no answers.
pub proof fn law_asks_begin_unanswered(asked: QuestionAskedModel)
    ensures
        QuestionSessionModel::begun(asked).wf(),
        QuestionSessionModel::begun(asked).has_question() == (asked.questions.len() > 0),
{
}

} // verus!
