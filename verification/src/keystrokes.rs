//! What keys do, whatever is open.

use crate::dashboard::{DashboardModeModel, DashboardStatusModel};
use crate::input::EditTime;
use crate::keys::{KeyCode, KeyEvent, KeyModifiers};
use crate::overlay::{OverlayModel, QuestionSessionModel, TextInputStateModel};
use crate::palette::{command_at, hint_at, label_at, labels, matching, Command, COMMAND_COUNT};
use crate::sse::{PermissionAskedModel, QuestionAskedModel, ServerEventModel};
use crate::state::{runs_turn, waits, AppModel, LoopAction, MsgModel, QuestionReplyKindModel};
use crate::text::{is_space, occurs_at, trimmed};
use vstd::prelude::*;

verus! {

/// A key without modifiers.
pub open spec fn bare(code: KeyCode) -> KeyEvent {
    KeyEvent { code, modifiers: KeyModifiers { control: false, shift: false, alt: false } }
}

/// A letter with the control key.
pub open spec fn with_control(c: char) -> KeyEvent {
    KeyEvent {
        code: KeyCode::Char(c),
        modifiers: KeyModifiers { control: true, shift: false, alt: false },
    }
}

/// What has been typed into what is open.
pub open spec fn query_of(s: AppModel) -> Option<Seq<char>> {
    match s.overlay {
        OverlayModel::Palette(p) => Some(p.query),
        OverlayModel::Files(f) => Some(f.query),
        OverlayModel::Search(q) => Some(q.query),
        OverlayModel::TextInput(t) => Some(t.query),
        OverlayModel::Dashboard => match s.dashboard.mode {
            DashboardModeModel::Filter => Some(s.dashboard.filter),
            DashboardModeModel::NewSession(t) => Some(t),
            DashboardModeModel::Browsing => None,
        },
        _ => None,
    }
}

/// A letter goes to the end of what is typed, and the key that takes one back takes that
/// one; neither asks for anything or touches the editor. In a search the letters that walk
/// through the matches are not typed.
pub proof fn law_letters_are_typed(s: AppModel, c: char, time: EditTime)
    requires
        s.splash is None,
        query_of(s) is Some,
        s.overlay is Search ==> c != 'n' && c != 'N',
    ensures
        ({
            let letter = bare(KeyCode::Char(c));
            let back = bare(KeyCode::Backspace);
            let typed = s.keyed(letter, time);
            &&& query_of(typed) == Some(query_of(s)->0.push(c))
            &&& query_of(typed.keyed(back, time)) == query_of(s)
            &&& query_of(s)->0.len() > 0 ==> query_of(s.keyed(back, time)) == Some(
                query_of(s)->0.drop_last(),
            )
            &&& query_of(s)->0.len() == 0 ==> query_of(s.keyed(back, time)) == query_of(s)
            &&& s.key_request(letter) is None && s.key_request(back) is None
            &&& typed.input == s.input && typed.transcript == s.transcript
        }),
{
    reveal(AppModel::in_palette);
    reveal(AppModel::in_files);
    reveal(AppModel::in_search);
    reveal(AppModel::in_text);
    reveal(AppModel::in_dashboard_mode);
    reveal(AppModel::palette_typed);
    reveal(AppModel::palette_untyped);
    reveal(AppModel::file_typed);
    reveal(AppModel::file_untyped);
    reveal(AppModel::search_typed);
    reveal(AppModel::search_untyped);
    reveal(AppModel::text_typed);
    reveal(AppModel::text_untyped);
    let q = query_of(s)->0;
    assert(q.push(c).drop_last() =~= q);
}

/// Escape closes what is open, without asking for anything; a question is told that it was
/// given up. It first ends what is typed on the dashboard, and a list of files that
/// completes what is typed.
pub proof fn law_escape_closes(s: AppModel, time: EditTime)
    requires
        s.splash is None,
        !(s.overlay is Closed),
    ensures
        ({
            let esc = bare(KeyCode::Esc);
            let after = s.keyed(esc, time);
            let completing = s.overlay is TextInput && s.overlay->TextInput_0.mention is Some;
            let naming = s.overlay is Dashboard && !(s.dashboard.mode is Browsing);
            &&& !completing && !naming ==> after.overlay is Closed
            &&& completing ==> after.overlay is TextInput && after.overlay->TextInput_0.query
                == s.overlay->TextInput_0.query && after.keyed(esc, time).overlay is Closed
            &&& naming ==> after.overlay is Dashboard && after.dashboard.mode is Browsing
                && after.keyed(esc, time).overlay is Closed
            &&& naming && s.dashboard.mode is Filter ==> after.dashboard.filter.len() == 0
            &&& !(s.overlay is Question) ==> s.key_request(esc) is None
            &&& s.overlay matches OverlayModel::Question(q) ==> s.key_request(esc) == Some(
                MsgModel::QuestionReply { id: q.id, reply: QuestionReplyKindModel::Cancelled },
            )
            &&& after.transcript == s.transcript && after.input == s.input
        }),
{
    reveal(AppModel::in_palette);
    reveal(AppModel::in_files);
    reveal(AppModel::in_search);
    reveal(AppModel::in_text);
    reveal(AppModel::in_mention);
    reveal(AppModel::in_permission);
    reveal(AppModel::in_question);
    reveal(AppModel::in_dashboard);
    reveal(AppModel::in_dashboard_mode);
    reveal(AppModel::in_list);
    reveal(AppModel::text_mention_cleared);
}

/// A permission is given once, given always or refused by a key of its own, in the popup and
/// on the dashboard alike, to the ask that is shown.
pub proof fn law_reply_keys(s: AppModel, p: PermissionAskedModel)
    requires
        s.splash is None,
        s.overlay == OverlayModel::Permission(p) || (s.overlay is Dashboard
            && s.dashboard.mode is Browsing && s.dashboard.peek is Permission
            && s.dashboard.selected < s.dashboard.rows.len()
            && s.dashboard.rows[s.dashboard.selected as int].status
            == DashboardStatusModel::AwaitingPermission(p)),
    ensures
        s.key_request(bare(KeyCode::Char('y'))) == Some(
            MsgModel::PermissionReply { id: p.id, reply: "once"@ },
        ),
        s.key_request(bare(KeyCode::Char('a'))) == Some(
            MsgModel::PermissionReply { id: p.id, reply: "always"@ },
        ),
        s.key_request(bare(KeyCode::Char('n'))) == Some(
            MsgModel::PermissionReply { id: p.id, reply: "reject"@ },
        ),
        forall|code: KeyCode|
            s.key_request(#[trigger] bare(code)) matches Some(m) ==> (m is PermissionReply ==> code
                == KeyCode::Char('y') || code == KeyCode::Char('a') || code == KeyCode::Char('n')),
{
}

/// On the dashboard a digit answers the shown question with the choice of that number,
/// counted from one, where there is such a choice.
pub proof fn law_digits_answer(s: AppModel, q: QuestionAskedModel, c: char)
    requires
        s.splash is None,
        s.overlay is Dashboard,
        s.dashboard.mode is Browsing,
        s.dashboard.peek is Question,
        s.dashboard.selected < s.dashboard.rows.len(),
        s.dashboard.rows[s.dashboard.selected as int].status
            == DashboardStatusModel::AwaitingQuestion(q),
        q.questions.len() == 1,
        '1' <= c <= '9',
    ensures
        ({
            let n = c as int - '0' as int;
            let m = s.key_request(bare(KeyCode::Char(c)));
            &&& 1 <= n <= 9
            &&& n <= q.questions[0].options.len() ==> m == Some(
                MsgModel::QuestionReply {
                    id: q.id,
                    reply: QuestionReplyKindModel::Answered(seq![seq![(n - 1) as usize]]),
                },
            )
            &&& n > q.questions[0].options.len() ==> m is None
        }),
{
}

/// The dashboard is walked row by row to its ends, its selected session is opened and
/// pinned by a key, and a filter or a title is begun by one. A title that is confirmed asks
/// for a session of that title, without the white space around it.
pub proof fn law_dashboard_keys(s: AppModel, title: Seq<char>, time: EditTime)
    requires
        s.splash is None,
        s.overlay is Dashboard,
        s.dashboard.mode is Browsing,
        s.dashboard.selected < s.dashboard.rows.len() <= usize::MAX,
    ensures
        ({
            let n = s.dashboard.rows.len();
            let up = s.keyed(bare(KeyCode::Up), time).dashboard;
            let down = s.keyed(bare(KeyCode::Down), time).dashboard;
            let at = s.dashboard.selected;
            &&& at > 0 ==> up.selected == at - 1
            &&& at == 0 ==> up.selected == 0
            &&& at + 1 < n ==> down.selected == at + 1
            &&& at + 1 == n ==> down.selected == at
            &&& up.rows == s.dashboard.rows && down.rows == s.dashboard.rows
            &&& s.key_request(bare(KeyCode::Up)) is None && s.key_request(
                bare(KeyCode::Down),
            ) is None
            &&& s.key_request(bare(KeyCode::Enter)) == Some(
                MsgModel::SwitchSession(s.dashboard.rows[at as int].session.id),
            )
            &&& s.keyed(bare(KeyCode::Enter), time).overlay is Closed
            &&& s.key_request(bare(KeyCode::Char('p'))) == Some(MsgModel::DashboardTogglePin)
            &&& s.keyed(bare(KeyCode::Char('/')), time).dashboard.mode is Filter
            &&& s.keyed(bare(KeyCode::Char('c')), time).dashboard.mode
                == DashboardModeModel::NewSession(Seq::empty())
        }),
        ({
            let naming = AppModel {
                dashboard: crate::dashboard::DashboardStateModel {
                    mode: DashboardModeModel::NewSession(title),
                    ..s.dashboard
                },
                ..s
            };
            let m = naming.key_request(bare(KeyCode::Enter));
            &&& trimmed(title).len() == 0 ==> m is None
            &&& trimmed(title).len() > 0 ==> m == Some(
                MsgModel::CreateDashboardSession(trimmed(title)),
            )
            &&& naming.updated(
                MsgModel::CreateDashboardSession(trimmed(title)),
            ).dashboard.mode is Browsing
        }),
{
    reveal(AppModel::in_dashboard);
    reveal(AppModel::dashboard_updated);
}

/// Moving the selection of a dashboard previews the row that it comes to.
pub proof fn law_moving_previews_the_row(s: AppModel, code: KeyCode, time: EditTime)
    requires
        s.splash is None,
        s.overlay is Dashboard,
        s.dashboard.mode is Browsing,
        s.dashboard.selected < s.dashboard.rows.len() <= usize::MAX,
        code == KeyCode::Up || code == KeyCode::Down,
    ensures
        ({
            let d = s.keyed(bare(code), time).dashboard;
            let status = d.rows[d.selected as int].status;
            &&& d.selected < d.rows.len()
            &&& status is AwaitingPermission ==> d.peek is Permission
            &&& status is Busy || status is Idle ==> d.peek is Loading
            &&& d.peek is Message ==> false
        }),
{
    reveal(AppModel::in_dashboard);
}

/// The keys of the editor: escape interrupts a running turn, and other keys cycle the
/// permission mode, scroll, go to the end, unfold a tool row and fold the todo list. Enter
/// in an empty editor sends nothing.
pub proof fn law_editor_keys(s: AppModel, session: Seq<char>, time: EditTime)
    requires
        s.splash is None,
        s.overlay is Closed,
        s.session_id == Some(session),
    ensures
        s.key_request(bare(KeyCode::Esc)) == (if runs_turn(s.status) {
            Some(MsgModel::InterruptTurn(session))
        } else {
            None
        }),
        s.key_request(bare(KeyCode::BackTab)) == Some(MsgModel::CyclePermissionMode),
        s.key_request(bare(KeyCode::PageUp)) == Some(MsgModel::ScrollUp),
        s.key_request(bare(KeyCode::PageDown)) == Some(MsgModel::ScrollDown),
        s.input.is_empty() ==> s.key_request(bare(KeyCode::End)) == Some(MsgModel::ScrollBottom),
        !s.input.is_empty() ==> s.key_request(bare(KeyCode::End)) is None,
        s.key_request(with_control('t')) == Some(MsgModel::ToggleTool),
        s.key_request(with_control('o')) == Some(MsgModel::ToggleTodos),
        s.key_request(with_control('c')) == Some(MsgModel::Quit),
        s.key_request(with_control('n')) == Some(MsgModel::NewSession),
        s.input.is_empty() ==> s.key_request(bare(KeyCode::Enter)) is None,
        s.keyed(with_control('g'), time).overlay is Agents,
        s.keyed(with_control('k'), time).overlay is Palette,
        s.keyed(with_control('f'), time).overlay is Files,
        s.keyed(with_control('f'), time).awaits_files(),
        s.keyed(with_control('y'), time).pending_action == Some(LoopAction::Yank),
        s.keyed(with_control('z'), time).pending_action == Some(LoopAction::Suspend),
        s.input.is_empty() ==> s.keyed(bare(KeyCode::Char('?')), time).overlay is Help
            && s.keyed(bare(KeyCode::Char('/')), time).overlay is Search && s.keyed(
            bare(KeyCode::Char('y')),
            time,
        ).pending_action == Some(LoopAction::Yank),
        !s.input.is_empty() ==> s.keyed(bare(KeyCode::Char('?')), time).input == s.input.inserted(
            '?',
            time,
        ) && s.keyed(bare(KeyCode::Char('/')), time).input == s.input.inserted('/', time),
{
    reveal(AppModel::in_editor);
    reveal(AppModel::typed);
    reveal(AppModel::chorded);
}

/// Quitting, suspending and a new session are to be had whatever is open; a running
/// workflow is cancelled, and none that is over.
pub proof fn law_chords_always_work(s: AppModel, time: EditTime)
    requires
        s.splash is None,
    ensures
        s.key_request(with_control('c')) == Some(MsgModel::Quit),
        s.key_request(with_control('n')) == Some(MsgModel::NewSession),
        s.keyed(with_control('z'), time).pending_action == Some(LoopAction::Suspend),
        s.keyed(with_control('c'), time) == s,
        s.workflow matches Some(w) ==> s.key_request(with_control('x')) == (if w.done is None {
            Some(MsgModel::CancelWorkflow(w.session))
        } else {
            None
        }),
        s.workflow is None ==> s.key_request(with_control('x')) is None,
        s.workflow is Some && !(s.overlay is WorkflowStatus) ==> s.keyed(
            with_control('w'),
            time,
        ).overlay is WorkflowStatus && s.keyed(with_control('w'), time).keyed(
            with_control('w'),
            time,
        ).overlay is Closed,
        s.workflow is None && !(s.overlay is WorkflowStatus) ==> s.keyed(with_control('w'), time)
            == s,
{
    reveal(AppModel::chorded);
    reveal(AppModel::workflow_toggled);
}

/// Undo and redo have a key in the editor, and take back and bring back as the editor does.
pub proof fn law_undo_has_a_key(s: AppModel, time: EditTime)
    requires
        s.splash is None,
        s.overlay is Closed,
    ensures
        ({
            let undo = with_control('_');
            let redo = KeyEvent {
                code: KeyCode::Char('_'),
                modifiers: KeyModifiers { control: true, shift: true, alt: false },
            };
            &&& s.keyed(undo, time).input == s.input.undone()
            &&& s.keyed(redo, time).input == s.input.redone()
            &&& s.key_request(undo) is None && s.key_request(redo) is None
        }),
{
    reveal(AppModel::chorded);
}

/// What is chosen in the palette is done: the entry in the selected place of the matches
/// opens its list, its panel or its prompt, or asks for what it says.
pub proof fn law_the_palette_does_what_it_says(s: AppModel, i: int, time: EditTime)
    requires
        s.splash is None,
        s.overlay matches OverlayModel::Palette(p) && p.selected < matching(
            labels(),
            p.query,
            None,
        ).len() && matching(labels(), p.query, None)[p.selected as int] == i,
        0 <= i < COMMAND_COUNT,
    ensures
        ({
            let enter = bare(KeyCode::Enter);
            let after = s.keyed(enter, time);
            let asked = s.key_request(enter);
            let asks = |m: MsgModel| asked == Some(m) && !(after.overlay is TextInput);
            let opens = asked is None;
            ||| label_at(i) == "New session"@ && asks(MsgModel::NewSession)
                && after.overlay is Closed
            ||| label_at(i) == "Switch session…"@ && opens && after.overlay is Sessions
                && after.selected == 0
            ||| label_at(i) == "Dashboard…"@ && opens && after.overlay is Dashboard
            ||| label_at(i) == "Change model…"@ && opens && after.overlay is Models
                && after.selected == 0
            ||| label_at(i) == "Change agent…"@ && opens && after.overlay is Agents
                && after.selected == 0
            ||| label_at(i) == "Toggle tool detail"@ && asks(MsgModel::ToggleTool)
                && after.overlay is Closed
            ||| label_at(i) == "Help"@ && opens && after.overlay is Help
            ||| label_at(i) == "Quit"@ && asks(MsgModel::Quit)
            ||| label_at(i) == "Attach file…"@ && opens && after.overlay is Files
                && after.awaits_files()
            ||| label_at(i) == "Workflow: SDD…"@ && opens && after.overlay is TextInput
                && after.overlay->TextInput_0.kind == "sdd"@
                && after.overlay->TextInput_0.query.len() == 0
            ||| label_at(i) == "Workflow: Plan…"@ && opens && after.overlay is TextInput
                && after.overlay->TextInput_0.kind == "plan"@
                && after.overlay->TextInput_0.query.len() == 0
            ||| label_at(i) == "Workflow: TDD…"@ && opens && after.overlay is TextInput
                && after.overlay->TextInput_0.kind == "tdd"@
                && after.overlay->TextInput_0.query.len() == 0
        }),
{
    reveal(AppModel::in_palette);
    reveal(AppModel::palette_taken);
    reveal(AppModel::dashboard_opened);
}

/// The state after letters were typed.
pub open spec fn after_typing(s: AppModel, text: Seq<char>, time: EditTime) -> AppModel
    decreases text.len(),
{
    if text.len() == 0 {
        s
    } else {
        after_typing(s, text.drop_last(), time).keyed(bare(KeyCode::Char(text.last())), time)
    }
}

proof fn lemma_typing(s: AppModel, text: Seq<char>, time: EditTime)
    requires
        s.splash is None,
        s.overlay is TextInput,
        s.overlay->TextInput_0.mention is None,
        forall|k: int| 0 <= k < text.len() ==> (#[trigger] text[k]) != '@',
    ensures
        after_typing(s, text, time) == s.showing(
            OverlayModel::TextInput(
                TextInputStateModel {
                    query: s.overlay->TextInput_0.query + text,
                    ..s.overlay->TextInput_0
                },
            ),
        ),
    decreases text.len(),
{
    let t = s.overlay->TextInput_0;
    if text.len() == 0 {
        assert(t.query + text =~= t.query);
    } else {
        let front = text.drop_last();
        assert forall|k: int| 0 <= k < front.len() implies (#[trigger] front[k]) != '@' by {
            assert(front[k] == text[k]);
        }
        lemma_typing(s, front, time);
        assert(text[text.len() - 1] != '@');
        reveal(AppModel::in_text);
        reveal(AppModel::text_typed);
        assert((t.query + front).push(text.last()) =~= t.query + text);
    }
}

/// A workflow is started with what was typed for it, without the white space around it, and
/// with nothing typed none is.
pub proof fn law_a_workflow_starts_with_what_was_typed(
    s: AppModel,
    title: Seq<char>,
    kind: Seq<char>,
    text: Seq<char>,
    time: EditTime,
)
    requires
        s.splash is None,
        forall|k: int| 0 <= k < text.len() ==> (#[trigger] text[k]) != '@',
    ensures
        ({
            let full = after_typing(s.asking(title, kind), text, time);
            let enter = bare(KeyCode::Enter);
            &&& full.keyed(enter, time).overlay is Closed
            &&& trimmed(text).len() == 0 ==> full.key_request(enter) is None
            &&& trimmed(text).len() > 0 ==> full.key_request(enter) == Some(
                MsgModel::StartWorkflow { kind, arg: trimmed(text) },
            )
        }),
{
    lemma_typing(s.asking(title, kind), text, time);
    assert(Seq::<char>::empty() + text =~= text);
    let full = after_typing(s.asking(title, kind), text, time);
    reveal(AppModel::in_text);
    reveal(AppModel::text_taken);
    lemma_trimmed_inside(text);
    let t = trimmed(text);
    reveal_strlit("@");
    if t.len() > 0 && "@"@.is_prefix_of(t) {
        assert(t[0] == '@') by {
            assert(t.subrange(0, 1) == "@"@);
            assert(t.subrange(0, 1)[0] == t[0]);
        }
        assert(text.contains(t[0]));
        let k = choose|k: int| 0 <= k < text.len() && text[k] == t[0];
        assert(text[k] != '@');
    }
}

proof fn lemma_trimmed_start_inside(text: Seq<char>)
    ensures
        forall|k: int|
            0 <= k < crate::text::trimmed_start(text).len() ==> text.contains(
                #[trigger] crate::text::trimmed_start(text)[k],
            ),
    decreases text.len(),
{
    let t = crate::text::trimmed_start(text);
    if text.len() > 0 && is_space(text[0]) {
        let rest = text.skip(1);
        lemma_trimmed_start_inside(rest);
        assert(t == crate::text::trimmed_start(rest));
        assert forall|k: int| 0 <= k < t.len() implies text.contains(#[trigger] t[k]) by {
            assert(rest.contains(crate::text::trimmed_start(rest)[k]));
            let j = choose|j: int| 0 <= j < rest.len() && rest[j] == t[k];
            assert(text[j + 1] == t[k]);
        }
    }
}

proof fn lemma_trimmed_end_inside(text: Seq<char>)
    ensures
        forall|k: int|
            0 <= k < crate::text::trimmed_end(text).len() ==> text.contains(
                #[trigger] crate::text::trimmed_end(text)[k],
            ),
    decreases text.len(),
{
    let t = crate::text::trimmed_end(text);
    if text.len() > 0 && is_space(text.last()) {
        let rest = text.drop_last();
        lemma_trimmed_end_inside(rest);
        assert(t == crate::text::trimmed_end(rest));
        assert forall|k: int| 0 <= k < t.len() implies text.contains(#[trigger] t[k]) by {
            assert(rest.contains(crate::text::trimmed_end(rest)[k]));
            let j = choose|j: int| 0 <= j < rest.len() && rest[j] == t[k];
            assert(text[j] == t[k]);
        }
    }
}

proof fn lemma_trimmed_inside(text: Seq<char>)
    ensures
        forall|k: int| 0 <= k < trimmed(text).len() ==> text.contains(#[trigger] trimmed(text)[k]),
{
    let a = crate::text::trimmed_start(text);
    let t = trimmed(text);
    lemma_trimmed_start_inside(text);
    lemma_trimmed_end_inside(a);
    assert forall|k: int| 0 <= k < t.len() implies text.contains(#[trigger] t[k]) by {
        assert(a.contains(t[k]));
        let j = choose|j: int| 0 <= j < a.len() && a[j] == t[k];
        assert(text.contains(a[j]));
    }
}

/// Enter in the file picker attaches the file that is selected among the matches, and
/// again takes it off; everything else that is attached stays.
pub proof fn law_attaching_twice_restores(s: AppModel, path: Seq<char>, time: EditTime)
    requires
        s.splash is None,
        s.overlay matches OverlayModel::Files(f) && f.selected < matching(
            f.results,
            f.query,
            None,
        ).len() && f.results[matching(f.results, f.query, None)[f.selected as int] as int] == path,
        !s.attachments.contains(path),
    ensures
        ({
            let enter = bare(KeyCode::Enter);
            let once = s.keyed(enter, time);
            &&& once.attachments == s.attachments.push(path)
            &&& once.overlay == s.overlay
            &&& once.keyed(enter, time).attachments == s.attachments
            &&& s.key_request(enter) is None
        }),
{
    reveal(AppModel::in_files);
    reveal(AppModel::file_toggled);
    let once = s.keyed(bare(KeyCode::Enter), time);
    assert(once.attachments[s.attachments.len() as int] == path);
    lemma_text_place(s.attachments, path);
    assert(s.attachments.push(path).remove(s.attachments.len() as int) =~= s.attachments);
}

proof fn lemma_text_place(v: Seq<Seq<char>>, x: Seq<char>)
    requires
        !v.contains(x),
    ensures
        crate::panels::text_place(v.push(x), x) == v.len(),
    decreases v.len(),
{
    if v.len() > 0 {
        assert(v[0] != x) by {
            assert(v.contains(v[0]));
        }
        assert(v.push(x)[0] == v[0]);
        let rest = v.skip(1);
        assert(v.push(x).skip(1) =~= rest.push(x));
        assert(!rest.contains(x)) by {
            if rest.contains(x) {
                let j = choose|j: int| 0 <= j < rest.len() && rest[j] == x;
                assert(v[j + 1] == x);
                assert(v.contains(x));
            }
        }
        lemma_text_place(rest, x);
    }
}

/// The files that are offered are those that were listed, without the folders; a completion
/// is offered the folders too. Listed files end the wait for them.
pub proof fn law_listed_files_are_offered(s: AppModel, files: Seq<Seq<char>>, truncated: bool)
    ensures
        ({
            let after = s.updated(MsgModel::FilesLoaded(files, truncated));
            &&& !after.awaits_files()
            &&& after.overlay matches OverlayModel::Files(f) ==> (forall|p: Seq<char>|
                #[trigger] f.results.contains(p) <==> files.contains(p) && !(p.len() > 0 && p.last()
                    == '/')) && f.truncated == truncated && f.selected == 0
            &&& after.overlay matches OverlayModel::Mention(m) ==> m.results == files && m.truncated
                == truncated
            &&& after.overlay matches OverlayModel::TextInput(t) ==> (t.mention is Some
                ==> t.mention->0.results == files && t.mention->0.truncated == truncated)
        }),
{
    reveal(AppModel::files_listed);
    lemma_files_only(files);
}

proof fn lemma_files_only(files: Seq<Seq<char>>)
    ensures
        forall|p: Seq<char>|
            #[trigger] crate::panels::files_only(files).contains(p) <==> files.contains(p) && !(
            p.len() > 0 && p.last() == '/'),
    decreases files.len(),
{
    let all = crate::panels::files_only(files);
    if files.len() > 0 {
        let front = files.drop_last();
        lemma_files_only(front);
        let before = crate::panels::files_only(front);
        let x = files.last();
        assert forall|p: Seq<char>| #[trigger] all.contains(p) <==> files.contains(p) && !(p.len()
            > 0 && p.last() == '/') by {
            if all.contains(p) {
                let k = choose|k: int| 0 <= k < all.len() && all[k] == p;
                if k < before.len() {
                    assert(before[k] == p);
                    assert(before.contains(p));
                    let j = choose|j: int| 0 <= j < front.len() && front[j] == p;
                    assert(files[j] == p);
                } else {
                    assert(files[files.len() - 1] == p);
                }
            }
            if files.contains(p) && !(p.len() > 0 && p.last() == '/') {
                let k = choose|k: int| 0 <= k < files.len() && files[k] == p;
                if k < front.len() {
                    assert(front[k] == p);
                    assert(front.contains(p));
                    assert(before.contains(p));
                    let j = choose|j: int| 0 <= j < before.len() && before[j] == p;
                    assert(all[j] == p);
                } else {
                    assert(all[all.len() - 1] == p);
                }
            }
        }
    }
}

/// Walking through the matches of a search goes one on and one back.
pub proof fn law_search_keys_walk(s: AppModel, time: EditTime)
    requires
        s.splash is None,
        s.overlay matches OverlayModel::Search(q) && q.current < usize::MAX,
    ensures
        ({
            let on = s.keyed(bare(KeyCode::Char('n')), time);
            let back = bare(KeyCode::Char('N'));
            let at = s.overlay->Search_0.current;
            &&& on.overlay is Search && on.overlay->Search_0.query == s.overlay->Search_0.query
            &&& on.overlay->Search_0.current == at + 1
            &&& on.keyed(back, time) == s
            &&& at == 0 ==> s.keyed(back, time) == s
        }),
{
    reveal(AppModel::in_search);
    reveal(AppModel::search_moved);
}

// ---------------------------------------------------------------------------
// Mentions
// ---------------------------------------------------------------------------

/// An at sign at the start of a word offers files, all of them at first; each letter behind
/// it narrows them down to what is typed since, and taking the letters back widens them
/// again. Taking back the at sign itself ends it.
pub proof fn law_a_mention_is_what_follows_the_at(s: AppModel, c: char, time: EditTime)
    requires
        s.splash is None,
        s.input.wf(),
        !is_space(c),
        c != ' ',
        s.input.at.col < usize::MAX,
        s.input.at.row <= usize::MAX,
    ensures
        s.overlay is Closed && (s.input.at.col == 0 || is_space(
            s.input.at.lines[s.input.at.row][s.input.at.col - 1],
        )) ==> {
            let opened = s.keyed(bare(KeyCode::Char('@')), time);
            &&& opened.overlay is Mention
            &&& opened.awaits_files()
            &&& opened.mention_query() == Some(Seq::<char>::empty())
            &&& opened.keyed(bare(KeyCode::Backspace), time).overlay is Closed
        },
        s.mention_query() matches Some(q) ==> {
            let typed = s.keyed(bare(KeyCode::Char(c)), time);
            &&& typed.mention_query() == Some(q.push(c))
            &&& typed.keyed(bare(KeyCode::Backspace), time).mention_query() == Some(q)
        },
{
    reveal(AppModel::in_editor);
    reveal(AppModel::typed);
    reveal(AppModel::mention_opened);
    reveal(AppModel::in_mention);
    reveal(AppModel::mention_edited);
    let at = s.input.at;
    let line = at.lines[at.row];
    if s.overlay is Closed && (at.col == 0 || is_space(line[at.col - 1])) {
        let opened = s.keyed(bare(KeyCode::Char('@')), time);
        assert(opened.input.at.lines[at.row] == line.insert(at.col, '@'));
        assert(opened.mention_query()->0 =~= Seq::<char>::empty());
        let back = opened.input.backspaced(time);
        assert(back.at.col == at.col);
    }
    if s.mention_query() is Some {
        let q = s.mention_query()->0;
        let m = s.overlay->Mention_0;
        let typed = s.keyed(bare(KeyCode::Char(c)), time);
        let grown = line.insert(at.col, c);
        assert(s.input.inserted(c, time).at.lines[at.row] == grown);
        assert(grown.subrange(m.anchor_col + 1, at.col + 1) =~= q.push(c));
        assert(typed.input == s.input.inserted(c, time));
        assert(typed.mention_query() == Some(q.push(c)));
        let back = typed.keyed(bare(KeyCode::Backspace), time);
        assert(grown.remove(at.col) =~= line);
        assert(back.input.at.lines[at.row] == line);
        assert(back.input == typed.input.backspaced(time));
    }
}

/// A file that is chosen for a mention stands in the line in place of what was typed, behind
/// an at sign and with a space behind, and is remembered; the list is closed. What stood
/// before and behind stays. A folder stands there too, and the list stays open for what is
/// in it.
pub proof fn law_a_mention_writes_the_path(s: AppModel, path: Seq<char>, time: EditTime)
    requires
        s.splash is None,
        s.input.wf(),
        s.mention_query() is Some,
        ({
            let m = s.overlay->Mention_0;
            let r = matching(m.results, s.mention_query()->0, None);
            m.selected < r.len() && m.results[r[m.selected as int] as int] == path
        }),
    ensures
        ({
            let m = s.overlay->Mention_0;
            let line = s.input.at.lines[s.input.at.row];
            let after = s.keyed(bare(KeyCode::Enter), time);
            let folder = path.len() > 0 && path.last() == '/';
            let token = if folder {
                seq!['@'] + path
            } else {
                seq!['@'] + path + seq![' ']
            };
            let got = after.input.at.lines[s.input.at.row];
            &&& got == line.take(m.anchor_col as int) + token + line.skip(s.input.at.col)
            &&& after.input.at.row == s.input.at.row
            &&& after.input.at.col == m.anchor_col + token.len()
            &&& after.input.at.lines.len() == s.input.at.lines.len()
            &&& folder <==> after.overlay is Mention
            &&& !folder ==> after.overlay is Closed && after.mention_paths.contains(path)
            &&& folder ==> after.mention_query() == Some(path)
            &&& forall|p: Seq<char>|
                s.mention_paths.contains(p) ==> #[trigger] after.mention_paths.contains(p)
            &&& s.key_request(bare(KeyCode::Enter)) is None
            &&& s.keyed(bare(KeyCode::Tab), time) == after
        }),
{
    reveal(AppModel::in_mention);
    reveal(AppModel::mention_accepted);
    let m = s.overlay->Mention_0;
    let row = s.input.at.row;
    let line = s.input.at.lines[row];
    let after = s.keyed(bare(KeyCode::Enter), time);
    reveal_strlit("@");
    reveal_strlit(" ");
    assert("@"@ =~= seq!['@']);
    assert(" "@ =~= seq![' ']);
    let folder = path.len() > 0 && path.last() == '/';
    if !folder {
        if !s.mention_paths.contains(path) {
            assert(after.mention_paths[s.mention_paths.len() as int] == path);
        }
        assert forall|p: Seq<char>|
            s.mention_paths.contains(p) implies #[trigger] after.mention_paths.contains(p) by {
            let k = choose|k: int| 0 <= k < s.mention_paths.len() && s.mention_paths[k] == p;
            assert(after.mention_paths[k] == p);
        }
    } else {
        let got = line.take(m.anchor_col as int) + (seq!['@'] + path) + line.skip(s.input.at.col);
        let a = m.anchor_col as int;
        assert(got.subrange(a + 1, a + 1 + path.len()) =~= path);
        assert(after.input.at.lines[row] == got);
        if path.len() > 0 {
            assert(after.mention_query() == Some(path));
        }
    }
}

/// In a list, among the matches of the palette and among those of the file picker, the arrow
/// keys go row by row and stop at the ends; in a list the selected row is taken.
pub proof fn law_arrows_go_row_by_row(s: AppModel, time: EditTime)
    requires
        s.splash is None,
    ensures
        ({
            let up = s.keyed(bare(KeyCode::Up), time);
            let down = s.keyed(bare(KeyCode::Down), time);
            &&& s.overlay is Sessions || s.overlay is Models || s.overlay is Agents ==> up
                == s.list_moved(-1) && down == s.list_moved(1) && s.key_request(
                bare(KeyCode::Enter),
            ) == (if s.list_len() > 0 {
                s.list_request()
            } else {
                None
            }) && (s.list_len() > 0 ==> s.keyed(bare(KeyCode::Enter), time) == s.list_taken())
            &&& s.overlay matches OverlayModel::Palette(p) ==> {
                let n = matching(labels(), p.query, None).len();
                let at = p.selected;
                at < n <= usize::MAX ==> {
                    &&& down.overlay is Palette && up.overlay is Palette
                    &&& down.overlay->Palette_0.selected == (if at + 1 < n {
                        at + 1
                    } else {
                        at as int
                    })
                    &&& up.overlay->Palette_0.selected == (if at > 0 {
                        at - 1
                    } else {
                        0
                    })
                    &&& down.overlay->Palette_0.query == p.query
                }
            }
            &&& s.overlay matches OverlayModel::Files(f) ==> {
                let n = matching(f.results, f.query, None).len();
                let at = f.selected;
                at < n <= usize::MAX ==> {
                    &&& down.overlay is Files && up.overlay is Files
                    &&& down.overlay->Files_0.selected == (if at + 1 < n {
                        at + 1
                    } else {
                        at as int
                    })
                    &&& up.overlay->Files_0.selected == (if at > 0 {
                        at - 1
                    } else {
                        0
                    })
                    &&& down.overlay->Files_0.query == f.query && down.overlay->Files_0.results
                        == f.results
                }
            }
        }),
{
    reveal(AppModel::in_list);
    reveal(AppModel::in_palette);
    reveal(AppModel::in_files);
    reveal(AppModel::palette_moved);
    reveal(AppModel::file_moved);
}

/// A path is completed where it is asked for: an at sign at the start of a word offers files,
/// and the file that is chosen takes the place of the at sign and of what was typed behind
/// it. A folder keeps the at sign, so that what is in it is offered next.
pub proof fn law_a_path_is_completed(t: TextInputStateModel, path: Seq<char>)
    requires
        t.wf(),
        t.query.len() <= usize::MAX,
    ensures
        t.query.len() == 0 || is_space(t.query.last()) ==> {
            let open = t.typed('@');
            &&& open.mention is Some
            &&& open.mention->0.loading
            &&& open.mention_query().len() == 0
            &&& open.query == t.query.push('@')
        },
        t.mention is Some && t.mention_chosen() == Some(path) ==> {
            let head = t.query.take(t.mention->0.anchor as int);
            let after = t.mention_accepted();
            let folder = path.len() > 0 && path.last() == '/';
            &&& !folder ==> after.query == head + path && after.mention is None
            &&& folder ==> after.query == head + (seq!['@'] + path) && after.mention is Some
                && after.mention_query() == path
        },
{
    reveal_strlit("@");
    assert("@"@ =~= seq!['@']);
    if t.mention is Some && t.mention_chosen() == Some(path) {
        let a = t.mention->0.anchor as int;
        let head = t.query.take(a);
        let q = head + (seq!['@'] + path);
        assert(q.skip(a + 1) =~= path);
    }
}

/// The palette's hints name the keys: where an entry's hint is a key of the editor, that key
/// does what the entry does.
pub proof fn law_hints_name_the_keys(s: AppModel, i: int, time: EditTime)
    requires
        s.splash is None,
        s.overlay is Closed,
        s.input.is_empty(),
        0 <= i < COMMAND_COUNT,
    ensures
        command_at(i) == Command::NewSession ==> hint_at(i) == "ctrl+n"@ && s.key_request(
            with_control('n'),
        ) == Some(MsgModel::NewSession),
        command_at(i) == Command::ChangeAgent ==> hint_at(i) == "ctrl+g"@ && s.keyed(
            with_control('g'),
            time,
        ) == s.commanded(Command::ChangeAgent),
        command_at(i) == Command::ToggleTool ==> hint_at(i) == "ctrl+t"@ && s.key_request(
            with_control('t'),
        ) == Some(MsgModel::ToggleTool),
        command_at(i) == Command::Help ==> hint_at(i) == "?"@ && s.keyed(
            bare(KeyCode::Char('?')),
            time,
        ) == s.commanded(Command::Help),
        command_at(i) == Command::Quit ==> hint_at(i) == "ctrl+c"@ && s.key_request(
            with_control('c'),
        ) == Some(MsgModel::Quit),
        command_at(i) == Command::AttachFile ==> hint_at(i) == "ctrl+f"@ && s.keyed(
            with_control('f'),
            time,
        ) == s.commanded(Command::AttachFile),
{
    reveal(AppModel::in_editor);
    reveal(AppModel::typed);
    reveal(AppModel::chorded);
}

/// In a question the arrow keys go from choice to choice and around, and the space bar takes
/// the highlighted one: alone where one is asked for, and besides the others, or off again,
/// where several are.
pub proof fn law_choices_are_taken(s: AppModel, q: QuestionSessionModel, time: EditTime)
    requires
        s.splash is None,
        s.overlay == OverlayModel::Question(q),
        q.has_question(),
        q.highlight < q.question().options.len() <= usize::MAX,
    ensures
        ({
            let n = q.question().options.len();
            let up = s.keyed(bare(KeyCode::Up), time).overlay;
            let down = s.keyed(bare(KeyCode::Down), time).overlay;
            let space = s.keyed(bare(KeyCode::Char(' ')), time).overlay;
            &&& up is Question && down is Question && space is Question
            &&& q.highlight + 1 < n ==> down->Question_0.highlight == q.highlight + 1
            &&& q.highlight + 1 == n ==> down->Question_0.highlight == 0
            &&& q.highlight > 0 ==> up->Question_0.highlight == q.highlight - 1
            &&& q.highlight == 0 ==> up->Question_0.highlight == n - 1
            &&& !q.question().multiple ==> space->Question_0.cursor == seq![q.highlight]
            &&& q.question().multiple && !q.cursor.contains(q.highlight)
                ==> space->Question_0.cursor == q.cursor.push(q.highlight)
            &&& space->Question_0.answers == q.answers && space->Question_0.current == q.current
            &&& s.key_request(bare(KeyCode::Char(' '))) is None
        }),
{
    reveal(AppModel::in_question);
    let n = q.question().options.len() as int;
    if q.highlight + 1 == n {
        assert((q.highlight + 1) % n == 0) by (nonlinear_arith)
            requires
                q.highlight + 1 == n,
                n > 0,
        ;
    } else {
        assert((q.highlight + 1) % n == q.highlight + 1) by (nonlinear_arith)
            requires
                0 <= q.highlight + 1 < n,
        ;
    }
    if q.highlight == 0 {
        assert((q.highlight - 1) % n == n - 1) by (nonlinear_arith)
            requires
                q.highlight == 0,
                n > 0,
        ;
    } else {
        assert((q.highlight - 1) % n == q.highlight - 1) by (nonlinear_arith)
            requires
                0 <= q.highlight - 1 < n,
        ;
    }
    if !q.cursor.contains(q.highlight) {
        lemma_absent(q.cursor, q.highlight);
    }
}

proof fn lemma_absent(v: Seq<usize>, x: usize)
    requires
        !v.contains(x),
    ensures
        crate::overlay::first_at(v, x) == v.len(),
    decreases v.len(),
{
    if v.len() > 0 {
        assert(v.contains(v[0]));
        let rest = v.skip(1);
        assert(!rest.contains(x)) by {
            if rest.contains(x) {
                let k = choose|k: int| 0 <= k < rest.len() && rest[k] == x;
                assert(v[k + 1] == x);
            }
        }
        lemma_absent(rest, x);
    }
}

/// An ask of the attached session opens what was asked, from its first question on and with
/// nothing chosen; a permission ask opens as it is.
pub proof fn law_asks_open(s: AppModel, p: PermissionAskedModel, q: QuestionAskedModel)
    ensures
        s.session_id == Some(p.session_id) ==> s.updated(
            MsgModel::Event(ServerEventModel::PermissionAsked(p)),
        ).overlay == OverlayModel::Permission(p),
        s.session_id == Some(q.session_id) ==> {
            let o = s.updated(MsgModel::Event(ServerEventModel::QuestionAsked(q))).overlay;
            &&& o is Question
            &&& o->Question_0.id == q.id && o->Question_0.questions == q.questions
            &&& o->Question_0.current == 0 && o->Question_0.highlight == 0
            &&& o->Question_0.answers.len() == 0 && o->Question_0.cursor.len() == 0
        },
{
    reveal(AppModel::heard);
}

/// At the start nothing is shown or typed, nothing is attached, something is waited for, every
/// permission is asked for, and nothing is open.
pub proof fn law_a_new_app_is_blank()
    ensures
        ({
            let s = AppModel::fresh();
            &&& s.transcript.len() == 0 && s.input.is_empty() && s.input.text().len() == 0
            &&& s.attachments.len() == 0 && s.mention_paths.len() == 0 && s.todos.len() == 0
            &&& s.overlay is Closed && s.splash is None && s.flash is None && s.workflow is None
            &&& s.session_id is None && s.agent is None && s.model is None
            &&& waits(s.status) && !runs_turn(s.status)
            &&& s.permission_mode == "approve-each"@
            &&& s.focused && !s.should_quit && s.pending_action is None && s.retry is None
            &&& s.session_tokens == (0u64, 0u64) && s.usage is None
        }),
{
    let s = AppModel::fresh();
    reveal_strlit("connecting…");
    reveal_strlit("connecting");
    reveal_strlit("thinking");
    reveal_strlit("retrying");
    assert("connecting…"@.subrange(0, 10) =~= "connecting"@);
    assert(occurs_at("connecting…"@, "connecting"@, 0));
    assert forall|i: int| !occurs_at("connecting…"@, "thinking"@, i) by {
        if occurs_at("connecting…"@, "thinking"@, i) {
            assert("connecting…"@.subrange(i, i + 8)[1] == "connecting…"@[i + 1]);
            assert("thinking"@[1] == 'h');
        }
    }
    assert forall|i: int| !occurs_at("connecting…"@, "retrying"@, i) by {
        if occurs_at("connecting…"@, "retrying"@, i) {
            assert("connecting…"@.subrange(i, i + 8)[0] == "connecting…"@[i]);
            assert("retrying"@[0] == 'r');
        }
    }
}

/// The argument of a workflow is what was typed, without the white space around it and without
/// an at sign in front.
pub proof fn law_an_argument_is_bare(t: TextInputStateModel)
    ensures
        ({
            let typed = trimmed(t.query);
            &&& typed.len() > 0 && typed[0] == '@' ==> t.argument() == typed.skip(1)
            &&& typed.len() == 0 || typed[0] != '@' ==> t.argument() == typed
        }),
{
    let typed = trimmed(t.query);
    reveal_strlit("@");
    assert("@"@.len() == 1 && "@"@[0] == '@');
    if typed.len() > 0 {
        assert(typed.subrange(0, 1)[0] == typed[0]);
        if typed[0] == '@' {
            assert(typed.subrange(0, 1) =~= "@"@);
        }
    }
}

/// Escape leaves a tool row that is in focus and goes back to the end, where nothing runs and
/// nothing is typed; it takes nothing of what is typed.
pub proof fn law_escape_leaves_the_tool_row(s: AppModel, time: EditTime)
    requires
        s.splash is None,
        s.overlay is Closed,
    ensures
        ({
            let after = s.keyed(bare(KeyCode::Esc), time);
            &&& !runs_turn(s.status) && s.input.is_empty() && s.tool_cursor is Some
                ==> after.tool_cursor is None && after.scroll == 0
            &&& runs_turn(s.status) || !s.input.is_empty() || s.tool_cursor is None ==> after == s
            &&& after.input == s.input && after.transcript == s.transcript
        }),
{
    reveal(AppModel::in_editor);
}

} // verus!
