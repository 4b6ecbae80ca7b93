//! The palette, the text box, search, the file picker and inline completion.

use crate::input::EditTime;
use crate::overlay::{
    FilePickerState, FilePickerStateModel, MentionState, MentionStateModel, Overlay, OverlayModel,
    PaletteState, PaletteStateModel, SearchState, SearchStateModel, TextInputState,
    TextInputStateModel, TextMentionState, TextMentionStateModel,
};
use crate::palette::{
    command_at, commands, file_matches, labels, matching, palette_matches, ranked_matches, Command,
};
use crate::state::{step, stepped, App, AppModel, FlashKind, Msg, MsgModel};
use crate::text::{
    after_prefix, cat, contains_token, from_range, has_token, is_space, last_char, listed, pop_char, push_char,
    same, shortened, strip, to_chars, trim, trimmed, white_space,
};
use vstd::prelude::*;
use vstd::string::*;

verus! {

/// Where the boosted results of a workflow argument lie.
pub open spec fn plans_folder() -> Option<Seq<char>> {
    Some(".otto/plans/"@)
}

/// `selected` moved by `delta` among `len` matches; zero where there are none.
pub open spec fn among(selected: usize, delta: int, len: nat) -> usize {
    if len == 0 {
        0
    } else {
        stepped(selected as int, delta, len as int) as usize
    }
}

/// `selected` moved by `delta` among `len` matches; zero where there are none.
fn move_among(selected: usize, delta: i32, len: usize) -> (r: usize)
    ensures
        r == among(selected, delta as int, len as nat),
{
    if len == 0 {
        0
    } else {
        step(selected, delta, len)
    }
}

/// Whether a path names a directory.
pub open spec fn is_dir(path: Seq<char>) -> bool {
    path.len() > 0 && path.last() == '/'
}

/// Whether a path names a directory.
pub fn names_dir(path: &str) -> (r: bool)
    ensures
        r == is_dir(path@),
{
    match last_char(path) {
        Some(c) => c == '/',
        None => false,
    }
}

/// The paths that name no directory.
pub open spec fn files_only(paths: Seq<Seq<char>>) -> Seq<Seq<char>>
    decreases paths.len(),
{
    if paths.len() == 0 {
        Seq::empty()
    } else {
        let before = files_only(paths.drop_last());
        if is_dir(paths.last()) {
            before
        } else {
            before.push(paths.last())
        }
    }
}

/// The paths that name no directory.
fn drop_dirs(paths: &Vec<String>) -> (r: Vec<String>)
    ensures
        r.deep_view() == files_only(paths.deep_view()),
{
    let ghost all = paths.deep_view();
    let mut out: Vec<String> = Vec::new();
    let mut i: usize = 0;
    assert(out.deep_view() =~= Seq::<Seq<char>>::empty());
    while i < paths.len()
        invariant
            i <= paths@.len(),
            all == paths.deep_view(),
            out.deep_view() == files_only(all.take(i as int)),
        decreases paths@.len() - i,
    {
        let ghost before = out.deep_view();
        proof {
            assert(all.take(i + 1).drop_last() =~= all.take(i as int));
            assert(all.take(i + 1).last() == paths@[i as int]@);
        }
        if !names_dir(paths[i].as_str()) {
            out.push(paths[i].clone());
            assert(out.deep_view() =~= before.push(paths@[i as int]@));
        }
        i += 1;
    }
    assert(all.take(i as int) =~= all);
    out
}

// ---------------------------------------------------------------------------
// States of the panels
// ---------------------------------------------------------------------------

impl PaletteStateModel {
    pub open spec fn blank() -> PaletteStateModel {
        PaletteStateModel { query: Seq::empty(), selected: 0 }
    }

    /// The command under the selection.
    pub open spec fn chosen(self) -> Option<Command> {
        let m = matching(labels(), self.query, None);
        if self.selected < m.len() {
            Some(command_at(m[self.selected as int] as int))
        } else {
            None
        }
    }
}

impl FilePickerStateModel {
    pub open spec fn loading() -> FilePickerStateModel {
        FilePickerStateModel {
            query: Seq::empty(),
            selected: 0,
            results: Seq::empty(),
            truncated: false,
            loading: true,
        }
    }

    /// The path under the selection.
    pub open spec fn chosen(self) -> Option<Seq<char>> {
        let m = matching(self.results, self.query, None);
        if self.selected < m.len() {
            Some(self.results[m[self.selected as int] as int])
        } else {
            None
        }
    }
}

impl TextMentionStateModel {
    pub open spec fn at(anchor: usize) -> TextMentionStateModel {
        TextMentionStateModel {
            anchor,
            selected: 0,
            results: Seq::empty(),
            truncated: false,
            loading: true,
        }
    }
}

impl TextInputStateModel {
    /// Whether the completion's `@` lies within what was typed.
    pub open spec fn wf(self) -> bool {
        self.mention matches Some(m) ==> m.anchor < self.query.len()
    }

    /// Whether a word may begin at the end of what was typed.
    pub open spec fn at_boundary(self) -> bool {
        self.query.len() == 0 || is_space(self.query.last())
    }

    /// With the completion's selection at the top.
    pub open spec fn at_top(self) -> TextInputStateModel {
        TextInputStateModel {
            mention: match self.mention {
                Some(m) => Some(TextMentionStateModel { selected: 0, ..m }),
                None => None,
            },
            ..self
        }
    }

    /// With `c` typed: an `@` where a word may begin opens a completion.
    pub open spec fn typed(self, c: char) -> TextInputStateModel {
        let next = TextInputStateModel { query: self.query.push(c), ..self };
        if c == '@' && self.at_boundary() {
            TextInputStateModel {
                mention: Some(TextMentionStateModel::at(self.query.len() as usize)),
                ..next
            }
        } else {
            next.at_top()
        }
    }

    /// With the last character removed. Removing the `@` ends the completion.
    pub open spec fn untyped(self) -> TextInputStateModel {
        let next = TextInputStateModel { query: shortened(self.query), ..self };
        if self.mention is Some && next.query.len() <= self.mention->0.anchor {
            TextInputStateModel { mention: None, ..next }
        } else {
            next.at_top()
        }
    }

    /// What is completed: what follows the `@`.
    pub open spec fn mention_query(self) -> Seq<char> {
        self.query.skip(self.mention->0.anchor + 1)
    }

    /// The places of the completion's matches, those of plan files first.
    pub open spec fn mention_matches(self) -> Seq<usize> {
        matching(self.mention->0.results, self.mention_query(), plans_folder())
    }

    /// With the completion's selection moved.
    pub open spec fn mention_moved(self, delta: int) -> TextInputStateModel {
        match self.mention {
            Some(m) => TextInputStateModel {
                mention: Some(
                    TextMentionStateModel {
                        selected: among(m.selected, delta, self.mention_matches().len()),
                        ..m
                    },
                ),
                ..self
            },
            None => self,
        }
    }

    /// The path under the completion's selection.
    pub open spec fn mention_chosen(self) -> Option<Seq<char>> {
        let r = self.mention_matches();
        if self.mention is Some && self.mention->0.selected < r.len() {
            Some(self.mention->0.results[r[self.mention->0.selected as int] as int])
        } else {
            None
        }
    }

    /// With the chosen path in place of the token: a file without the `@`, which
    /// ends the completion; a directory with it, so that completion goes on.
    pub open spec fn mention_accepted(self) -> TextInputStateModel {
        match self.mention_chosen() {
            Some(path) => {
                let head = self.query.take(self.mention->0.anchor as int);
                if is_dir(path) {
                    (TextInputStateModel { query: head + ("@"@ + path), ..self }).at_top()
                } else {
                    TextInputStateModel { query: head + path, mention: None, ..self }
                }
            },
            None => self,
        }
    }

    /// The workflow argument that was typed: without white space around it and
    /// without a leading `@`.
    pub open spec fn argument(self) -> Seq<char> {
        let t = trimmed(self.query);
        match after_prefix(t, "@"@) {
            Some(rest) => rest,
            None => t,
        }
    }
}

impl TextInputState {
    fn type_char(&mut self, c: char)
        requires
            old(self).deep_view().wf(),
        ensures
            final(self).deep_view() == old(self).deep_view().typed(c),
            final(self).deep_view().wf(),
    {
        let boundary: bool = match last_char(self.query.as_str()) {
            Some(l) => white_space(l),
            None => true,
        };
        let n: usize = to_chars(self.query.as_str()).len();
        push_char(&mut self.query, c);
        if c == '@' && boundary {
            let m = TextMentionState {
                anchor: n,
                selected: 0,
                results: Vec::new(),
                truncated: false,
                loading: true,
            };
            assert(m.deep_view() =~= TextMentionStateModel::at(n));
            self.mention = Some(m);
        } else {
            self.to_top();
        }
    }

    /// Puts the completion's selection at the top.
    fn to_top(&mut self)
        ensures
            final(self).deep_view() == old(self).deep_view().at_top(),
    {
        match &mut self.mention {
            Some(m) => {
                m.selected = 0;
            },
            None => {},
        }
    }

    fn backspace(&mut self)
        requires
            old(self).deep_view().wf(),
        ensures
            final(self).deep_view() == old(self).deep_view().untyped(),
            final(self).deep_view().wf(),
    {
        pop_char(&mut self.query);
        let n: usize = to_chars(self.query.as_str()).len();
        let gone: bool = match &self.mention {
            Some(m) => n <= m.anchor,
            None => false,
        };
        if gone {
            self.mention = None;
        } else {
            self.to_top();
        }
    }

    /// The places of the completion's matches.
    fn ranked(&self) -> (r: Vec<usize>)
        requires
            self.mention is Some,
            self.deep_view().wf(),
        ensures
            r@ == self.deep_view().mention_matches(),
            forall|k: int|
                0 <= k < r@.len() ==> (#[trigger] r@[k]) < self.mention->0.results@.len(),
    {
        match &self.mention {
            Some(m) => {
                let cs = to_chars(self.query.as_str());
                let n: usize = cs.len();
                let query = from_range(&cs, m.anchor + 1, n);
                assert(query@ =~= self.deep_view().mention_query());
                let results = m.results.as_slice();
                assert(results.deep_view() =~= m.results.deep_view());
                ranked_matches(results, query.as_str(), Some(".otto/plans/"))
            },
            None => Vec::new(),
        }
    }

    fn move_mention(&mut self, delta: i32)
        requires
            old(self).deep_view().wf(),
        ensures
            final(self).deep_view() == old(self).deep_view().mention_moved(delta as int),
            final(self).deep_view().wf(),
    {
        if self.mention.is_some() {
            let len: usize = self.ranked().len();
            match &mut self.mention {
                Some(m) => {
                    m.selected = move_among(m.selected, delta, len);
                },
                None => {},
            }
        }
    }

    fn accept_mention(&mut self)
        requires
            old(self).deep_view().wf(),
        ensures
            final(self).deep_view() == old(self).deep_view().mention_accepted(),
            final(self).deep_view().wf(),
    {
        let ghost start = self.deep_view();
        if self.mention.is_none() {
            return;
        }
        let ranked = self.ranked();
        let mut path: String = String::new();
        let mut anchor: usize = 0;
        let mut found: bool = false;
        match &self.mention {
            Some(m) => {
                if m.selected < ranked.len() {
                    let i: usize = ranked[m.selected];
                    path = m.results[i].clone();
                    anchor = m.anchor;
                    found = true;
                    assert(m.results.deep_view()[i as int] == path@);
                }
            },
            None => {},
        }
        if !found {
            return;
        }
        assert(start.mention_chosen() == Some(path@));
        let cs = to_chars(self.query.as_str());
        let mut query = from_range(&cs, 0, anchor);
        assert(query@ =~= start.query.take(anchor as int));
        if names_dir(path.as_str()) {
            let token = cat("@", path.as_str());
            query.append(token.as_str());
            proof {
                reveal_strlit("@");
            }
            self.query = query;
            self.to_top();
        } else {
            query.append(path.as_str());
            self.query = query;
            self.mention = None;
        }
    }

    /// The workflow argument that was typed.
    fn argument(&self) -> (r: String)
        ensures
            r@ == self.deep_view().argument(),
    {
        let t = trim(self.query.as_str());
        match strip(t.as_str(), "@") {
            Some(rest) => rest,
            None => t,
        }
    }
}

// ---------------------------------------------------------------------------
// The panels as part of the state
// ---------------------------------------------------------------------------

impl AppModel {
    /// Whether the overlay's completion lies within what was typed.
    pub open spec fn overlay_ok(self) -> bool {
        match self.overlay {
            OverlayModel::TextInput(t) => t.wf(),
            _ => true,
        }
    }

    /// Whether keys can be taken: the editor's cursor lies in its text, and a
    /// completion within what was typed.
    pub open spec fn wf(self) -> bool {
        self.input.wf() && self.overlay_ok()
    }

    /// Whether the state makes sense: keys can be taken, and an ask that is open is
    /// answered up to its current question.
    pub open spec fn sound(self) -> bool {
        self.wf() && (self.overlay matches OverlayModel::Question(q) ==> q.wf())
    }

    pub open spec fn with_palette(self, p: PaletteStateModel) -> AppModel {
        self.showing(OverlayModel::Palette(p))
    }

    pub open spec fn with_text_input(self, t: TextInputStateModel) -> AppModel {
        self.showing(OverlayModel::TextInput(t))
    }

    pub open spec fn with_search(self, s: SearchStateModel) -> AppModel {
        self.showing(OverlayModel::Search(s))
    }

    pub open spec fn with_files(self, f: FilePickerStateModel) -> AppModel {
        self.showing(OverlayModel::Files(f))
    }

    pub open spec fn with_mention(self, m: MentionStateModel) -> AppModel {
        self.showing(OverlayModel::Mention(m))
    }

    #[verifier::opaque]
    pub open spec fn palette_typed(self, c: char) -> AppModel {
        match self.overlay {
            OverlayModel::Palette(p) => self.with_palette(
                PaletteStateModel { query: p.query.push(c), selected: 0 },
            ),
            _ => self,
        }
    }

    #[verifier::opaque]
    pub open spec fn palette_untyped(self) -> AppModel {
        match self.overlay {
            OverlayModel::Palette(p) => self.with_palette(
                PaletteStateModel { query: shortened(p.query), selected: 0 },
            ),
            _ => self,
        }
    }

    #[verifier::opaque]
    pub open spec fn palette_moved(self, delta: int) -> AppModel {
        match self.overlay {
            OverlayModel::Palette(p) => self.with_palette(
                PaletteStateModel {
                    selected: among(p.selected, delta, matching(labels(), p.query, None).len()),
                    ..p
                },
            ),
            _ => self,
        }
    }

    /// The command under the palette's selection.
    pub open spec fn palette_choice(self) -> Option<Command> {
        match self.overlay {
            OverlayModel::Palette(p) => p.chosen(),
            _ => None,
        }
    }

    pub open spec fn asking(self, title: Seq<char>, kind: Seq<char>) -> AppModel {
        self.with_text_input(
            TextInputStateModel { title, query: Seq::empty(), kind, mention: None },
        )
    }

    /// After a palette command.
    pub open spec fn commanded(self, c: Command) -> AppModel {
        match c {
            Command::NewSession => self.closed(),
            Command::ToggleTool => self.closed(),
            Command::Quit => self,
            Command::SwitchSession => self.picking(OverlayModel::Sessions),
            Command::Dashboard => self.dashboard_opened(),
            Command::ChangeModel => self.picking(OverlayModel::Models),
            Command::ChangeAgent => self.picking(OverlayModel::Agents),
            Command::Help => self.showing(OverlayModel::Help),
            Command::AttachFile => self.with_files(FilePickerStateModel::loading()),
            Command::WorkflowSdd => self.asking("SDD plan file (path)"@, "sdd"@),
            Command::WorkflowPlan => self.asking("Plan file (path)"@, "plan"@),
            Command::WorkflowTdd => self.asking("TDD feature (describe it)"@, "tdd"@),
        }
    }

    /// After Enter in the palette.
    #[verifier::opaque]
    pub open spec fn palette_taken(self) -> AppModel {
        match self.palette_choice() {
            Some(c) => self.commanded(c),
            None => self,
        }
    }

    /// What Enter in the palette asks of the loop.
    pub open spec fn palette_request(self) -> Option<MsgModel> {
        match self.palette_choice() {
            Some(Command::NewSession) => Some(MsgModel::NewSession),
            Some(Command::ToggleTool) => Some(MsgModel::ToggleTool),
            Some(Command::Quit) => Some(MsgModel::Quit),
            _ => None,
        }
    }

    #[verifier::opaque]
    pub open spec fn text_typed(self, c: char) -> AppModel {
        match self.overlay {
            OverlayModel::TextInput(t) => self.with_text_input(t.typed(c)),
            _ => self,
        }
    }

    #[verifier::opaque]
    pub open spec fn text_untyped(self) -> AppModel {
        match self.overlay {
            OverlayModel::TextInput(t) => self.with_text_input(t.untyped()),
            _ => self,
        }
    }

    #[verifier::opaque]
    pub open spec fn text_mention_moved(self, delta: int) -> AppModel {
        match self.overlay {
            OverlayModel::TextInput(t) => self.with_text_input(t.mention_moved(delta)),
            _ => self,
        }
    }

    #[verifier::opaque]
    pub open spec fn text_mention_cleared(self) -> AppModel {
        match self.overlay {
            OverlayModel::TextInput(t) => self.with_text_input(
                TextInputStateModel { mention: None, ..t },
            ),
            _ => self,
        }
    }

    #[verifier::opaque]
    pub open spec fn text_mention_accepted(self) -> AppModel {
        match self.overlay {
            OverlayModel::TextInput(t) => self.with_text_input(t.mention_accepted()),
            _ => self,
        }
    }

    /// What Enter in the text box asks of the loop: to start the workflow, where
    /// an argument was typed.
    pub open spec fn text_request(self) -> Option<MsgModel> {
        match self.overlay {
            OverlayModel::TextInput(t) => if t.argument().len() == 0 {
                None
            } else {
                Some(MsgModel::StartWorkflow { kind: t.kind, arg: t.argument() })
            },
            _ => None,
        }
    }

    /// After Enter in the text box.
    #[verifier::opaque]
    pub open spec fn text_taken(self) -> AppModel {
        if self.overlay is TextInput {
            self.closed()
        } else {
            self
        }
    }

    #[verifier::opaque]
    pub open spec fn search_typed(self, c: char) -> AppModel {
        match self.overlay {
            OverlayModel::Search(s) => self.with_search(
                SearchStateModel { query: s.query.push(c), current: 0 },
            ),
            _ => self,
        }
    }

    #[verifier::opaque]
    pub open spec fn search_untyped(self) -> AppModel {
        match self.overlay {
            OverlayModel::Search(s) => self.with_search(
                SearchStateModel { query: shortened(s.query), current: 0 },
            ),
            _ => self,
        }
    }

    /// With another match as the current one. How many there are is known only
    /// when the transcript is rendered.
    #[verifier::opaque]
    pub open spec fn search_moved(self, delta: int) -> AppModel {
        match self.overlay {
            OverlayModel::Search(s) => self.with_search(
                SearchStateModel {
                    current: stepped(s.current as int, delta, usize::MAX as int + 1) as usize,
                    ..s
                },
            ),
            _ => self,
        }
    }

    /// After a file list came back: it goes to whichever picker is open. The file
    /// picker leaves directories out.
    #[verifier::opaque]
    pub open spec fn files_listed(self, files: Seq<Seq<char>>, truncated: bool) -> AppModel {
        match self.overlay {
            OverlayModel::Files(f) => self.with_files(
                FilePickerStateModel {
                    results: files_only(files),
                    truncated,
                    loading: false,
                    selected: 0,
                    ..f
                },
            ),
            OverlayModel::Mention(m) => self.with_mention(
                MentionStateModel { results: files, truncated, loading: false, selected: 0, ..m },
            ),
            OverlayModel::TextInput(t) => match t.mention {
                Some(m) => self.with_text_input(
                    TextInputStateModel {
                        mention: Some(
                            TextMentionStateModel {
                                results: files,
                                truncated,
                                loading: false,
                                selected: 0,
                                ..m
                            },
                        ),
                        ..t
                    },
                ),
                None => self,
            },
            _ => self,
        }
    }

    /// Whether a picker waits for a file list.
    pub open spec fn awaits_files(self) -> bool {
        match self.overlay {
            OverlayModel::Files(f) => f.loading,
            OverlayModel::Mention(m) => m.loading,
            OverlayModel::TextInput(t) => t.mention matches Some(m) && m.loading,
            _ => false,
        }
    }

    #[verifier::opaque]
    pub open spec fn file_typed(self, c: char) -> AppModel {
        match self.overlay {
            OverlayModel::Files(f) => self.with_files(
                FilePickerStateModel { query: f.query.push(c), selected: 0, ..f },
            ),
            _ => self,
        }
    }

    #[verifier::opaque]
    pub open spec fn file_untyped(self) -> AppModel {
        match self.overlay {
            OverlayModel::Files(f) => self.with_files(
                FilePickerStateModel { query: shortened(f.query), selected: 0, ..f },
            ),
            _ => self,
        }
    }

    #[verifier::opaque]
    pub open spec fn file_moved(self, delta: int) -> AppModel {
        match self.overlay {
            OverlayModel::Files(f) => self.with_files(
                FilePickerStateModel {
                    selected: among(f.selected, delta, matching(f.results, f.query, None).len()),
                    ..f
                },
            ),
            _ => self,
        }
    }

    /// With the chosen path attached, or no longer attached.
    #[verifier::opaque]
    pub open spec fn file_toggled(self) -> AppModel {
        match self.overlay {
            OverlayModel::Files(f) => match f.chosen() {
                Some(path) => if self.attachments.contains(path) {
                    AppModel {
                        attachments: self.attachments.remove(
                            text_place(self.attachments, path) as int,
                        ),
                        ..self
                    }
                } else {
                    (AppModel { attachments: self.attachments.push(path), ..self }).flashed(
                        "attached"@,
                        FlashKind::Success,
                    )
                },
                None => self,
            },
            _ => self,
        }
    }

    /// What inline completion completes: what the editor holds between the `@`
    /// and the cursor. Nothing where the cursor has left the token.
    pub open spec fn mention_query(self) -> Option<Seq<char>> {
        match self.overlay {
            OverlayModel::Mention(m) => if self.input.at.row == m.anchor_row && self.input.at.col
                > m.anchor_col {
                Some(self.input.line().subrange(m.anchor_col + 1, self.input.at.col))
            } else {
                None
            },
            _ => None,
        }
    }

    /// With inline completion open for the `@` before the cursor.
    #[verifier::opaque]
    pub open spec fn mention_opened(self) -> AppModel {
        self.with_mention(
            MentionStateModel {
                anchor_row: self.input.at.row as usize,
                anchor_col: (if self.input.at.col > 0 {
                    self.input.at.col - 1
                } else {
                    0
                }) as usize,
                selected: 0,
                results: Seq::empty(),
                truncated: false,
                loading: true,
            },
        )
    }

    #[verifier::opaque]
    pub open spec fn mention_moved(self, delta: int) -> AppModel {
        match self.overlay {
            OverlayModel::Mention(m) => self.with_mention(
                MentionStateModel {
                    selected: among(
                        m.selected,
                        delta,
                        match self.mention_query() {
                            Some(q) => matching(m.results, q, None).len(),
                            None => 0,
                        },
                    ),
                    ..m
                },
            ),
            _ => self,
        }
    }

    /// After an edit under an open completion: closed where the cursor has left
    /// the token, else with the selection at the top.
    #[verifier::opaque]
    pub open spec fn mention_edited(self) -> AppModel {
        match self.mention_query() {
            None => self.closed(),
            Some(_) => match self.overlay {
                OverlayModel::Mention(m) => self.with_mention(MentionStateModel { selected: 0, ..m }),
                _ => self,
            },
        }
    }

    /// The path under the completion's selection.
    pub open spec fn mention_chosen(self) -> Option<Seq<char>> {
        match (self.overlay, self.mention_query()) {
            (OverlayModel::Mention(m), Some(q)) => {
                let r = matching(m.results, q, None);
                if m.selected < r.len() {
                    Some(m.results[r[m.selected as int] as int])
                } else {
                    None
                }
            },
            _ => None,
        }
    }

    /// With the chosen path in place of the token. A file gets a space behind it,
    /// is remembered, and ends the completion; a directory lets it go on. Without
    /// a match the completion just ends.
    #[verifier::opaque]
    pub open spec fn mention_accepted(self, time: EditTime) -> AppModel {
        match (self.overlay, self.mention_chosen()) {
            (OverlayModel::Mention(m), Some(path)) => {
                let token = if is_dir(path) {
                    "@"@ + path
                } else {
                    "@"@ + path + " "@
                };
                let edited = AppModel {
                    input: self.input.replaced(
                        self.input.at.row,
                        m.anchor_col as int,
                        self.input.at.col,
                        token,
                        time,
                    ),
                    ..self
                };
                if is_dir(path) {
                    edited.with_mention(MentionStateModel { selected: 0, ..m })
                } else if self.mention_paths.contains(path) {
                    edited.closed()
                } else {
                    (AppModel { mention_paths: self.mention_paths.push(path), ..edited }).closed()
                }
            },
            _ => self.closed(),
        }
    }

    /// The files to attach to a prompt with the given text.
    pub open spec fn files_for(self, text: Seq<char>) -> Seq<Seq<char>> {
        with_mentions(self.attachments, self.mention_paths, text)
    }
}

/// Where `s` first stands in `v`.
pub open spec fn text_place(v: Seq<Seq<char>>, s: Seq<char>) -> nat
    decreases v.len(),
{
    if v.len() == 0 || v[0] == s {
        0
    } else {
        1 + text_place(v.skip(1), s)
    }
}

/// `files`, then those of `paths` whose `@`-token is in `text`, each once.
pub open spec fn with_mentions(files: Seq<Seq<char>>, paths: Seq<Seq<char>>, text: Seq<char>) -> Seq<
    Seq<char>,
>
    decreases paths.len(),
{
    if paths.len() == 0 {
        files
    } else {
        let before = with_mentions(files, paths.drop_last(), text);
        let p = paths.last();
        if has_token(text, "@"@ + p) && !before.contains(p) {
            before.push(p)
        } else {
            before
        }
    }
}

impl App {
    pub fn open_palette(&mut self)
        ensures
            final(self).deep_view() == old(self).deep_view().with_palette(
                PaletteStateModel::blank(),
            ),
    {
        reveal(<App as DeepView>::deep_view);
        self.overlay = Overlay::Palette(PaletteState { query: String::new(), selected: 0 });
    }

    pub fn palette_input(&mut self, c: char)
        ensures
            final(self).deep_view() == old(self).deep_view().palette_typed(c),
    {
        reveal(AppModel::palette_typed);
        reveal(<App as DeepView>::deep_view);
        if let Overlay::Palette(ps) = &mut self.overlay {
            push_char(&mut ps.query, c);
            ps.selected = 0;
        }
    }

    pub fn palette_backspace(&mut self)
        ensures
            final(self).deep_view() == old(self).deep_view().palette_untyped(),
    {
        reveal(AppModel::palette_untyped);
        reveal(<App as DeepView>::deep_view);
        if let Overlay::Palette(ps) = &mut self.overlay {
            pop_char(&mut ps.query);
            ps.selected = 0;
        }
    }

    pub fn palette_move(&mut self, delta: i32)
        ensures
            final(self).deep_view() == old(self).deep_view().palette_moved(delta as int),
    {
        reveal(AppModel::palette_moved);
        reveal(<App as DeepView>::deep_view);
        if let Overlay::Palette(ps) = &mut self.overlay {
            let len: usize = palette_matches(ps.query.as_str()).len();
            ps.selected = move_among(ps.selected, delta, len);
        }
    }

    /// The command under the palette's selection.
    fn palette_command(&self) -> (r: Option<Command>)
        ensures
            r == self.deep_view().palette_choice(),
    {
        reveal(<App as DeepView>::deep_view);
        match &self.overlay {
            Overlay::Palette(ps) => {
                let m = palette_matches(ps.query.as_str());
                if ps.selected < m.len() {
                    let i: usize = m[ps.selected];
                    Some(commands()[i].command)
                } else {
                    None
                }
            },
            _ => None,
        }
    }

    /// Enter in the palette: does what the selected entry says. Without a match
    /// nothing happens.
    pub fn palette_confirm(&mut self) -> (r: Option<Msg>)
        ensures
            final(self).deep_view() == old(self).deep_view().palette_taken(),
            r.deep_view() == old(self).deep_view().palette_request(),
    {
        reveal(AppModel::palette_taken);
        reveal(<App as DeepView>::deep_view);
        match self.palette_command() {
            None => None,
            Some(Command::NewSession) => {
                self.close_overlay();
                Some(Msg::NewSession)
            },
            Some(Command::ToggleTool) => {
                self.close_overlay();
                Some(Msg::ToggleTool)
            },
            Some(Command::Quit) => Some(Msg::Quit),
            Some(Command::SwitchSession) => {
                self.open_picker(Overlay::Sessions);
                None
            },
            Some(Command::Dashboard) => {
                self.open_dashboard();
                None
            },
            Some(Command::ChangeModel) => {
                self.open_picker(Overlay::Models);
                None
            },
            Some(Command::ChangeAgent) => {
                self.open_picker(Overlay::Agents);
                None
            },
            Some(Command::Help) => {
                self.overlay = Overlay::Help;
                None
            },
            Some(Command::AttachFile) => {
                self.open_file_picker();
                None
            },
            Some(Command::WorkflowSdd) => {
                self.open_text_input("SDD plan file (path)", "sdd");
                None
            },
            Some(Command::WorkflowPlan) => {
                self.open_text_input("Plan file (path)", "plan");
                None
            },
            Some(Command::WorkflowTdd) => {
                self.open_text_input("TDD feature (describe it)", "tdd");
                None
            },
        }
    }

    /// Opens the free-text box for a workflow of the given kind.
    pub fn open_text_input(&mut self, title: &str, kind: &str)
        ensures
            final(self).deep_view() == old(self).deep_view().asking(title@, kind@),
    {
        reveal(<App as DeepView>::deep_view);
        self.overlay = Overlay::TextInput(
            TextInputState {
                title: title.to_owned(),
                query: String::new(),
                kind: kind.to_owned(),
                mention: None,
            },
        );
    }

    /// Types `c` into the text box. An `@` where a word may begin opens a
    /// completion; other characters put its selection at the top.
    pub fn text_input_char(&mut self, c: char)
        requires
            old(self).deep_view().overlay_ok(),
        ensures
            final(self).deep_view() == old(self).deep_view().text_typed(c),
            final(self).deep_view().overlay_ok(),
    {
        reveal(AppModel::text_typed);
        reveal(<App as DeepView>::deep_view);
        if let Overlay::TextInput(s) = &mut self.overlay {
            s.type_char(c);
        }
    }

    /// Removes the last character of the text box. Removing the `@` ends the
    /// completion.
    pub fn text_input_backspace(&mut self)
        requires
            old(self).deep_view().overlay_ok(),
        ensures
            final(self).deep_view() == old(self).deep_view().text_untyped(),
            final(self).deep_view().overlay_ok(),
    {
        reveal(AppModel::text_untyped);
        reveal(<App as DeepView>::deep_view);
        if let Overlay::TextInput(s) = &mut self.overlay {
            s.backspace();
        }
    }

    /// Moves the selection of the text box's completion.
    pub fn text_input_mention_move(&mut self, delta: i32)
        requires
            old(self).deep_view().overlay_ok(),
        ensures
            final(self).deep_view() == old(self).deep_view().text_mention_moved(delta as int),
            final(self).deep_view().overlay_ok(),
    {
        reveal(AppModel::text_mention_moved);
        reveal(<App as DeepView>::deep_view);
        if let Overlay::TextInput(s) = &mut self.overlay {
            s.move_mention(delta);
        }
    }

    /// Ends the text box's completion; what was typed stays.
    pub fn text_input_clear_mention(&mut self)
        ensures
            final(self).deep_view() == old(self).deep_view().text_mention_cleared(),
    {
        reveal(AppModel::text_mention_cleared);
        reveal(<App as DeepView>::deep_view);
        if let Overlay::TextInput(s) = &mut self.overlay {
            s.mention = None;
        }
    }

    /// Accepts the selected path of the text box's completion: a file without the
    /// `@`, which ends the completion; a directory with it. Without a match
    /// nothing happens.
    pub fn text_input_mention_accept(&mut self)
        requires
            old(self).deep_view().overlay_ok(),
        ensures
            final(self).deep_view() == old(self).deep_view().text_mention_accepted(),
            final(self).deep_view().overlay_ok(),
    {
        reveal(AppModel::text_mention_accepted);
        reveal(<App as DeepView>::deep_view);
        if let Overlay::TextInput(s) = &mut self.overlay {
            s.accept_mention();
        }
    }

    /// Enter in the text box: closes it and, where an argument was typed, asks to
    /// start the workflow.
    pub fn text_input_confirm(&mut self) -> (r: Option<Msg>)
        ensures
            final(self).deep_view() == old(self).deep_view().text_taken(),
            r.deep_view() == old(self).deep_view().text_request(),
    {
        reveal(AppModel::text_taken);
        reveal(<App as DeepView>::deep_view);
        let mut out: Option<Msg> = None;
        let mut open: bool = false;
        match &self.overlay {
            Overlay::TextInput(s) => {
                open = true;
                let arg = s.argument();
                if !arg.as_str().is_empty() {
                    out = Some(Msg::StartWorkflow { kind: s.kind.clone(), arg });
                }
            },
            _ => {},
        }
        if open {
            self.close_overlay();
        }
        out
    }

    /// Opens transcript search with an empty query.
    pub fn open_search(&mut self)
        ensures
            final(self).deep_view() == old(self).deep_view().with_search(
                SearchStateModel { query: Seq::empty(), current: 0 },
            ),
    {
        reveal(<App as DeepView>::deep_view);
        self.overlay = Overlay::Search(SearchState { query: String::new(), current: 0 });
    }

    /// Types `c` into the search query; the first match is the current one.
    pub fn search_input(&mut self, c: char)
        ensures
            final(self).deep_view() == old(self).deep_view().search_typed(c),
    {
        reveal(AppModel::search_typed);
        reveal(<App as DeepView>::deep_view);
        if let Overlay::Search(s) = &mut self.overlay {
            push_char(&mut s.query, c);
            s.current = 0;
        }
    }

    /// Removes the last character of the search query.
    pub fn search_backspace(&mut self)
        ensures
            final(self).deep_view() == old(self).deep_view().search_untyped(),
    {
        reveal(AppModel::search_untyped);
        reveal(<App as DeepView>::deep_view);
        if let Overlay::Search(s) = &mut self.overlay {
            pop_char(&mut s.query);
            s.current = 0;
        }
    }

    /// Makes another match the current one, not before the first.
    pub fn search_move(&mut self, delta: i32)
        ensures
            final(self).deep_view() == old(self).deep_view().search_moved(delta as int),
    {
        reveal(AppModel::search_moved);
        reveal(<App as DeepView>::deep_view);
        if let Overlay::Search(s) = &mut self.overlay {
            let next: i128 = s.current as i128 + delta as i128;
            s.current = if next < 0 {
                0
            } else if next > usize::MAX as i128 {
                usize::MAX
            } else {
                next as usize
            };
        }
    }

    /// Opens the file picker, which waits for a file list.
    pub fn open_file_picker(&mut self)
        ensures
            final(self).deep_view() == old(self).deep_view().with_files(
                FilePickerStateModel::loading(),
            ),
    {
        reveal(<App as DeepView>::deep_view);
        let f = FilePickerState {
            query: String::new(),
            selected: 0,
            results: Vec::new(),
            truncated: false,
            loading: true,
        };
        assert(f.deep_view() =~= FilePickerStateModel::loading());
        self.overlay = Overlay::Files(f);
    }

    /// Gives a file list to whichever picker is open. The file picker leaves
    /// directories out; completion keeps them.
    pub fn files_loaded(&mut self, files: Vec<String>, truncated: bool)
        ensures
            final(self).deep_view() == old(self).deep_view().files_listed(
                files.deep_view(),
                truncated,
            ),
            final(self).input == old(self).input,
    {
        reveal(AppModel::files_listed);
        reveal(<App as DeepView>::deep_view);
        match &mut self.overlay {
            Overlay::Files(s) => {
                s.results = drop_dirs(&files);
                s.truncated = truncated;
                s.loading = false;
                s.selected = 0;
            },
            Overlay::Mention(m) => {
                m.results = files;
                m.truncated = truncated;
                m.loading = false;
                m.selected = 0;
            },
            Overlay::TextInput(t) => {
                match &mut t.mention {
                    Some(m) => {
                        m.results = files;
                        m.truncated = truncated;
                        m.loading = false;
                        m.selected = 0;
                    },
                    None => {},
                }
            },
            _ => {},
        }
    }

    /// Whether a picker waits for a file list.
    #[must_use]
    pub fn file_fetch_pending(&self) -> (r: bool)
        ensures
            r == self.deep_view().awaits_files(),
    {
        reveal(<App as DeepView>::deep_view);
        match &self.overlay {
            Overlay::Files(s) => s.loading,
            Overlay::Mention(m) => m.loading,
            Overlay::TextInput(t) => match &t.mention {
                Some(m) => m.loading,
                None => false,
            },
            _ => false,
        }
    }

    pub fn file_input(&mut self, c: char)
        ensures
            final(self).deep_view() == old(self).deep_view().file_typed(c),
    {
        reveal(AppModel::file_typed);
        reveal(<App as DeepView>::deep_view);
        if let Overlay::Files(s) = &mut self.overlay {
            push_char(&mut s.query, c);
            s.selected = 0;
        }
    }

    pub fn file_backspace(&mut self)
        ensures
            final(self).deep_view() == old(self).deep_view().file_untyped(),
    {
        reveal(AppModel::file_untyped);
        reveal(<App as DeepView>::deep_view);
        if let Overlay::Files(s) = &mut self.overlay {
            pop_char(&mut s.query);
            s.selected = 0;
        }
    }

    pub fn file_move(&mut self, delta: i32)
        ensures
            final(self).deep_view() == old(self).deep_view().file_moved(delta as int),
    {
        reveal(AppModel::file_moved);
        reveal(<App as DeepView>::deep_view);
        if let Overlay::Files(s) = &mut self.overlay {
            let results = s.results.as_slice();
            assert(results.deep_view() =~= s.results.deep_view());
            let len: usize = file_matches(results, s.query.as_str()).len();
            s.selected = move_among(s.selected, delta, len);
        }
    }

    /// The path under the file picker's selection.
    fn chosen_file(&self) -> (r: Option<String>)
        ensures
            r.deep_view() == (match self.deep_view().overlay {
                OverlayModel::Files(f) => f.chosen(),
                _ => None,
            }),
    {
        reveal(<App as DeepView>::deep_view);
        match &self.overlay {
            Overlay::Files(s) => {
                let results = s.results.as_slice();
                assert(results.deep_view() =~= s.results.deep_view());
                let m = file_matches(results, s.query.as_str());
                if s.selected < m.len() {
                    let i: usize = m[s.selected];
                    assert(s.results.deep_view()[i as int] == s.results@[i as int]@);
                    Some(s.results[i].clone())
                } else {
                    None
                }
            },
            _ => None,
        }
    }

    /// Attaches the selected path, or detaches it. The picker stays open, so that
    /// several files can be attached in one go.
    pub fn file_toggle(&mut self)
        ensures
            final(self).deep_view() == old(self).deep_view().file_toggled(),
    {
        reveal(AppModel::file_toggled);
        reveal(<App as DeepView>::deep_view);
        if let Some(path) = self.chosen_file() {
            let ghost before = self.attachments.deep_view();
            let pos: usize = place_in(&self.attachments, path.as_str());
            if pos < self.attachments.len() {
                self.attachments.remove(pos);
                assert(self.attachments.deep_view() =~= before.remove(pos as int));
            } else {
                self.attachments.push(path);
                assert(self.attachments.deep_view() =~= before.push(path@));
                self.flash("attached");
            }
        }
    }

    /// What inline completion completes, where the cursor is in the token.
    #[must_use]
    pub fn mention_query(&self) -> (r: Option<String>)
        requires
            self.input.wf(),
        ensures
            r.deep_view() == self.deep_view().mention_query(),
    {
        reveal(<App as DeepView>::deep_view);
        match &self.overlay {
            Overlay::Mention(m) => {
                let (row, col) = self.input.position();
                if row == m.anchor_row && col > m.anchor_col {
                    let lines = self.input.lines();
                    let ghost line = self.input.deep_view().line();
                    assert(lines.deep_view()[row as int] == lines@[row as int]@);
                    let cs = to_chars(lines[row].as_str());
                    Some(from_range(&cs, m.anchor_col + 1, col))
                } else {
                    None
                }
            },
            _ => None,
        }
    }

    /// Opens inline completion for the `@` that was just typed.
    pub fn open_mention(&mut self)
        ensures
            final(self).deep_view() == old(self).deep_view().mention_opened(),
    {
        reveal(AppModel::mention_opened);
        reveal(<App as DeepView>::deep_view);
        let (row, col) = self.input.position();
        let m = MentionState {
            anchor_row: row,
            anchor_col: if col > 0 {
                col - 1
            } else {
                0
            },
            selected: 0,
            results: Vec::new(),
            truncated: false,
            loading: true,
        };
        assert(m.results.deep_view() =~= Seq::<Seq<char>>::empty());
        self.overlay = Overlay::Mention(m);
    }

    /// Moves the selection of inline completion.
    pub fn mention_move(&mut self, delta: i32)
        requires
            old(self).input.wf(),
        ensures
            final(self).deep_view() == old(self).deep_view().mention_moved(delta as int),
    {
        reveal(AppModel::mention_moved);
        reveal(<App as DeepView>::deep_view);
        let query = self.mention_query();
        if let Overlay::Mention(m) = &mut self.overlay {
            let len: usize = match &query {
                Some(q) => {
                    let results = m.results.as_slice();
                    assert(results.deep_view() =~= m.results.deep_view());
                    ranked_matches(results, q.as_str(), None).len()
                },
                None => 0,
            };
            m.selected = move_among(m.selected, delta, len);
        }
    }

    /// After an edit under an open completion.
    pub fn mention_after_edit(&mut self)
        requires
            old(self).input.wf(),
        ensures
            final(self).deep_view() == old(self).deep_view().mention_edited(),
    {
        reveal(AppModel::mention_edited);
        reveal(<App as DeepView>::deep_view);
        let inside: bool = self.mention_query().is_some();
        if !inside {
            self.close_overlay();
        } else if let Overlay::Mention(m) = &mut self.overlay {
            m.selected = 0;
        }
    }

    /// The path under the selection of inline completion, and where its token
    /// begins.
    fn chosen_mention(&self) -> (r: Option<(String, usize)>)
        requires
            self.input.wf(),
        ensures
            match r {
                Some((p, a)) => self.deep_view().mention_chosen() == Some(p@)
                    && self.deep_view().overlay is Mention && a
                    == self.deep_view().overlay->Mention_0.anchor_col && a
                    < self.deep_view().input.at.col,
                None => self.deep_view().mention_chosen() is None,
            },
    {
        reveal(<App as DeepView>::deep_view);
        let query = match self.mention_query() {
            Some(q) => q,
            None => {
                return None;
            },
        };
        match &self.overlay {
            Overlay::Mention(m) => {
                let results = m.results.as_slice();
                assert(results.deep_view() =~= m.results.deep_view());
                let r = ranked_matches(results, query.as_str(), None);
                if m.selected < r.len() {
                    let i: usize = r[m.selected];
                    assert(m.results.deep_view()[i as int] == m.results@[i as int]@);
                    Some((m.results[i].clone(), m.anchor_col))
                } else {
                    None
                }
            },
            _ => None,
        }
    }

    /// Accepts the selected path of inline completion. A file gets a space behind
    /// it, is remembered, and ends the completion; a directory lets it go on.
    /// Without a match the completion just ends.
    pub fn mention_accept(&mut self)
        requires
            old(self).input.wf(),
        ensures
            exists|time: EditTime|
                #[trigger] old(self).deep_view().input.timely(time) && final(self).deep_view()
                    == old(self).deep_view().mention_accepted(time),
            final(self).input.wf(),
    {
        let time = self.key_time();
        self.mention_accept_at(time);
    }

    /// Reads the clock for the next edit.
    pub(crate) fn key_time(&self) -> (r: EditTime)
        ensures
            self.deep_view().input.timely(r),
    {
        reveal(<App as DeepView>::deep_view);
        self.input.edit_time()
    }

    /// Accepts the selected path of inline completion at a given time.
    pub fn mention_accept_at(&mut self, time: EditTime)
        requires
            old(self).input.wf(),
        ensures
            final(self).deep_view() == old(self).deep_view().mention_accepted(time),
            final(self).input.wf(),
    {
        reveal(AppModel::mention_accepted);
        reveal(<App as DeepView>::deep_view);
        let ghost start = self.deep_view();
        match self.chosen_mention() {
            None => {
                self.close_overlay();
            },
            Some((path, anchor)) => {
                let dir: bool = names_dir(path.as_str());
                let mut token = cat("@", path.as_str());
                if !dir {
                    token.append(" ");
                }
                self.input.replace_token(anchor, token.as_str(), time);
                if dir {
                    self.mention_to_top();
                } else {
                    let paths = self.mention_paths.as_slice();
                    assert(paths.deep_view() =~= self.mention_paths.deep_view());
                    if !listed(paths, path.as_str()) {
                        let ghost before = self.mention_paths.deep_view();
                        self.mention_paths.push(path);
                        assert(self.mention_paths.deep_view() =~= before.push(path@));
                    }
                    self.close_overlay();
                }
            },
        }
    }

    /// Puts the selection of inline completion at the top.
    fn mention_to_top(&mut self)
        ensures
            final(self).deep_view() == (match old(self).deep_view().overlay {
                OverlayModel::Mention(m) => old(self).deep_view().with_mention(
                    MentionStateModel { selected: 0, ..m },
                ),
                _ => old(self).deep_view(),
            }),
            final(self).input == old(self).input,
    {
        reveal(<App as DeepView>::deep_view);
        if let Overlay::Mention(m) = &mut self.overlay {
            m.selected = 0;
        }
    }

    /// Takes the files to attach to a prompt: what the file picker attached, and
    /// the completed paths whose token is still in the text, each once. Both lists
    /// start over.
    pub fn take_files_for_submit(&mut self, text: &str) -> (r: Vec<String>)
        ensures
            r.deep_view() == old(self).deep_view().files_for(text@),
            final(self).deep_view() == (AppModel {
                attachments: Seq::empty(),
                mention_paths: Seq::empty(),
                ..old(self).deep_view()
            }),
            final(self).input == old(self).input,
    {
        reveal(<App as DeepView>::deep_view);
        let mut out: Vec<String> = Vec::new();
        std::mem::swap(&mut out, &mut self.attachments);
        let mut paths: Vec<String> = Vec::new();
        std::mem::swap(&mut paths, &mut self.mention_paths);
        proof {
            assert(self.attachments.deep_view() =~= Seq::<Seq<char>>::empty());
            assert(self.mention_paths.deep_view() =~= Seq::<Seq<char>>::empty());
        }
        let ghost files = out.deep_view();
        let ghost all = paths.deep_view();
        let mut i: usize = 0;
        while i < paths.len()
            invariant
                i <= paths@.len(),
                all == paths.deep_view(),
                out.deep_view() == with_mentions(files, all.take(i as int), text@),
            decreases paths@.len() - i,
        {
            let ghost before = out.deep_view();
            proof {
                assert(all.take(i + 1).drop_last() =~= all.take(i as int));
                assert(all.take(i + 1).last() == paths@[i as int]@);
            }
            let token = cat("@", paths[i].as_str());
            let have = out.as_slice();
            assert(have.deep_view() =~= out.deep_view());
            if contains_token(text, token.as_str()) && !listed(have, paths[i].as_str()) {
                out.push(paths[i].clone());
                assert(out.deep_view() =~= before.push(paths@[i as int]@));
            }
            i += 1;
        }
        assert(all.take(i as int) =~= all);
        out
    }
}

/// Where `s` first stands in `v`; the length where it does not.
fn place_in(v: &Vec<String>, s: &str) -> (r: usize)
    ensures
        r == text_place(v.deep_view(), s@),
        r <= v@.len(),
        (r < v@.len()) == v.deep_view().contains(s@),
{
    let ghost all = v.deep_view();
    let mut i: usize = 0;
    assert(all.skip(0) =~= all);
    while i < v.len() && !same(v[i].as_str(), s)
        invariant
            i <= v@.len(),
            all == v.deep_view(),
            text_place(all, s@) == i + text_place(all.skip(i as int), s@),
            forall|k: int| 0 <= k < i ==> all[k] != s@,
        decreases v@.len() - i,
    {
        reveal(<App as DeepView>::deep_view);
        proof {
            assert(all.skip(i as int)[0] == v@[i as int]@);
            assert(all.skip(i as int).skip(1) =~= all.skip(i + 1));
        }
        i += 1;
    }
    proof {
        if i < v@.len() {
            assert(all.skip(i as int)[0] == v@[i as int]@);
            assert(all[i as int] == s@);
        }
    }
    i
}

impl App {
    /// Whether the overlay's completion lies within what was typed.
    pub fn overlay_sound(&self) -> (r: bool)
        ensures
            r == self.deep_view().overlay_ok(),
    {
        reveal(<App as DeepView>::deep_view);
        match &self.overlay {
            Overlay::TextInput(t) => match &t.mention {
                Some(m) => m.anchor < to_chars(t.query.as_str()).len(),
                None => true,
            },
            _ => true,
        }
    }
}

} // verus!
