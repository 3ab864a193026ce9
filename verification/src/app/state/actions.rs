//! The update function: what each action does to the state.

use vstd::prelude::*;

use crate::app::composer::{line_end, line_start, word_end, word_start, ComposerModel};
use crate::app::keymap::{Action, Mode};
use crate::app::palette::{step_down, step_up, stepped_down, stepped_up, Palette, PaletteModel};
use crate::agent::store::PendingModel as Prompt;
use crate::app::state::badges::lemma_refreshing_keeps_the_focus;
use crate::app::state::transcript::{answer_emoji, prompt_event};
use crate::app::state::{App, AppModel, Hit, MentionPickerModel, Modal, ModalModel};
use crate::matrix::model::{Command, CommandModel};
use crate::seqs::{first_where, lemma_first, lemma_no_first};

verus! {

/// Whether an action can have changed the composer's text or caret.
///
/// The mention picker is recomputed after exactly these: deriving it again from an unchanged
/// buffer would reopen a picker the user had just dismissed.
#[verifier::opaque]
pub open spec fn touching(action: Action) -> bool {
    match action {
        Action::Insert(_)
        | Action::Backspace
        | Action::Delete
        | Action::DeleteWord
        | Action::DeleteToLineStart
        | Action::Newline
        | Action::CaretLeft
        | Action::CaretRight
        | Action::CaretWordLeft
        | Action::CaretWordRight
        | Action::CaretHome
        | Action::CaretEnd
        | Action::CaretUp
        | Action::CaretDown => true,
        _ => false,
    }
}

/// Whether an action can have changed the composer's text or caret.
pub fn touches_composer(action: Action) -> (r: bool)
    ensures
        r == touching(action),
{
    proof {
        reveal(touching);
    }
    match action {
        Action::Insert(_)
        | Action::Backspace
        | Action::Delete
        | Action::DeleteWord
        | Action::DeleteToLineStart
        | Action::Newline
        | Action::CaretLeft
        | Action::CaretRight
        | Action::CaretWordLeft
        | Action::CaretWordRight
        | Action::CaretHome
        | Action::CaretEnd
        | Action::CaretUp
        | Action::CaretDown => true,
        _ => false,
    }
}

/// The test for a cell that holds a column.
pub open spec fn under(column: u16) -> spec_fn(Hit) -> bool {
    |h: Hit| h.covers(column)
}

/// What a click on a column of a bar means.
pub open spec fn hit_index(hits: Seq<Hit>, column: u16) -> Option<usize> {
    match first_where(hits, under(column)) {
        Some(i) => Some(hits[i].index),
        None => None,
    }
}

impl AppModel {
    // ---------------------------------------------------------------------- composing

    /// An action on the text of the composer. The room will hear of the typing.
    #[verifier::opaque]
    pub open spec fn edit_action(self, action: Action) -> AppModel {
        match action {
            Action::Insert(c) => self.edited(|m: ComposerModel| m.insert(c)).note_typing(),
            Action::Backspace => self.edited(|m: ComposerModel| m.backspace()).note_typing(),
            Action::Delete => self.edited(|m: ComposerModel| m.delete()).note_typing(),
            Action::DeleteWord => self.edited(|m: ComposerModel| m.delete_word()).note_typing(),
            Action::DeleteToLineStart => self.edited(|m: ComposerModel| m.delete_to_line_start()).note_typing(),
            Action::Newline => self.edited(|m: ComposerModel| m.insert('\n')).note_typing(),
            _ => self,
        }
    }

    /// An action on the caret of the composer.
    #[verifier::opaque]
    pub open spec fn caret_action(self, action: Action) -> AppModel {
        match action {
            Action::CaretLeft => self.edited(|m: ComposerModel| m.left()),
            Action::CaretRight => self.edited(|m: ComposerModel| m.right()),
            Action::CaretWordLeft => self.edited(|m: ComposerModel| m.at(word_start(m.text, m.cursor))),
            Action::CaretWordRight => self.edited(|m: ComposerModel| m.at(word_end(m.text, m.cursor))),
            Action::CaretHome => self.edited(|m: ComposerModel| m.at(line_start(m.text, m.cursor))),
            Action::CaretEnd => self.edited(|m: ComposerModel| m.at(line_end(m.text, m.cursor))),
            Action::CaretUp => self.composer_up(),
            Action::CaretDown => self.composer_down(),
            _ => self,
        }
    }

    // ------------------------------------------------------------------------ reading

    /// An action on the transcript, or on the message selected in it.
    #[verifier::opaque]
    pub open spec fn read_action(self, action: Action) -> AppModel {
        match action {
            Action::SelectOlder => self.select_by(-1),
            Action::SelectNewer => self.select_by(1),
            Action::Reply => self.begin_reply(),
            Action::EditMessage => self.begin_edit(),
            Action::RedactMessage => self.redact_selected(),
            Action::ScrollUp(n) => self.scroll_by(-n),
            Action::ScrollDown(n) => self.scroll_by(n as int),
            Action::ScrollTop => self.set_scroll(u16::MAX as int),
            Action::ScrollBottom => self.set_scroll(0),
            Action::ToggleCard => self.toggle_card(),
            Action::Approve => self.resolve_prompt(true),
            Action::Deny => self.resolve_prompt(false),
            _ => self,
        }
    }

    // ---------------------------------------------------------------------- arranging

    /// An action on panes, tabs and workspaces.
    #[verifier::opaque]
    pub open spec fn pane_action(self, action: Action) -> AppModel {
        match action {
            Action::Split(dir) => self.split(dir),
            Action::ClosePane => self.close_pane(),
            Action::FocusPane(dir) => self.focus_pane(dir),
            Action::ResizePane(dir) => self.resize_pane(dir),
            Action::ZoomPane => self.zoom_pane(),
            Action::NewThread => self.start_thread(),
            Action::Accept => self.accept_selection(),
            Action::NextTab => self.next_tab(),
            Action::PrevTab => self.prev_tab(),
            Action::NextWorkspace => self.next_workspace(),
            Action::PrevWorkspace => self.prev_workspace(),
            _ => self,
        }
    }

    // ------------------------------------------------------------------------ opening

    /// The other devices asked to verify this one, unless it is verified.
    pub open spec fn start_verification(self) -> AppModel {
        if self.device_verified == Some(true) {
            self.says("this device is already verified"@)
        } else {
            self.says("asking your other devices to verify this one…"@).queue(CommandModel::StartVerification)
        }
    }

    /// An action that opens something, or asks for it.
    #[verifier::opaque]
    pub open spec fn open_action(self, action: Action) -> AppModel {
        match action {
            Action::OpenThreads => self.open_thread_picker(),
            Action::EmojiIntoComposer => self.open_emoji_for_composer(),
            Action::ReactToSelected => self.open_emoji_for_reaction(),
            Action::OpenRecovery => self.open_recovery(),
            Action::StartVerification => self.start_verification(),
            Action::ToggleHelp => self.open_modal(ModalModel::Help),
            Action::CommandPalette => AppModel {
                mode: Mode::Insert,
                ..self.open_modal(ModalModel::Palette(PaletteModel::fresh()))
            },
            Action::FuzzyJump => self.says("fuzzy jump is not implemented yet"@),
            _ => self,
        }
    }

    /// Whatever is pending abandoned: an overlay, a reply or an edit, and the typing.
    pub open spec fn cancel(self) -> AppModel {
        AppModel { mode: Mode::Normal, ..self.close_modal().cancel_pending().stop_typing() }
    }

    /// An action with no overlay and no completion in its way.
    pub open spec fn perform(self, action: Action) -> AppModel {
        match action {
            Action::Quit => AppModel { should_quit: true, ..self.stop_typing() },
            Action::EnterInsert => AppModel { mode: Mode::Insert, ..self },
            Action::Cancel => self.cancel(),
            Action::Redraw => AppModel { needs_redraw: true, ..self },
            Action::Submit => self.submit(),
            Action::Insert(_) | Action::Backspace | Action::Delete | Action::DeleteWord | Action::DeleteToLineStart
            | Action::Newline => self.edit_action(action),
            Action::CaretLeft | Action::CaretRight | Action::CaretWordLeft | Action::CaretWordRight | Action::CaretHome
            | Action::CaretEnd | Action::CaretUp | Action::CaretDown => self.caret_action(action),
            Action::SelectOlder | Action::SelectNewer | Action::Reply | Action::EditMessage | Action::RedactMessage
            | Action::ScrollUp(_) | Action::ScrollDown(_) | Action::ScrollTop | Action::ScrollBottom
            | Action::ToggleCard | Action::Approve | Action::Deny => self.read_action(action),
            Action::Split(_) | Action::ClosePane | Action::FocusPane(_) | Action::ResizePane(_) | Action::ZoomPane
            | Action::NewThread | Action::Accept | Action::NextTab | Action::PrevTab | Action::NextWorkspace
            | Action::PrevWorkspace => self.pane_action(action),
            _ => self.open_action(action),
        }
    }

    // --------------------------------------------------------------------- completion

    /// Whether the mention picker has something to show. One that has not must not swallow
    /// the return key.
    pub open spec fn offering(self) -> bool {
        self.mentions is Some && self.mentions->0.matches.len() > 0
    }

    /// The client with another mention picker, to be drawn.
    pub open spec fn with_picker(self, picker: Option<MentionPickerModel>) -> AppModel {
        AppModel { mentions: picker, needs_redraw: true, ..self }
    }

    /// What the mention picker does with an action; none where it has no use for it.
    #[verifier::opaque]
    pub open spec fn mention_action(self, action: Action) -> Option<AppModel> {
        let picker = self.mentions->0;
        match action {
            Action::CaretUp => Some(
                self.with_picker(Some(MentionPickerModel { selected: stepped_up(picker.selected), ..picker })),
            ),
            Action::CaretDown => Some(
                self.with_picker(
                    Some(
                        MentionPickerModel {
                            selected: stepped_down(picker.selected, picker.matches.len()),
                            ..picker
                        },
                    ),
                ),
            ),
            Action::Submit | Action::Complete => Some(self.accept_mention()),
            Action::Cancel => Some(AppModel { mode: Mode::Insert, ..self.with_picker(None) }),
            _ => None,
        }
    }

    /// An action with no overlay in its way. The mention picker takes the keys that mean
    /// something to a list, and follows the buffer after every other.
    pub open spec fn act(self, action: Action) -> AppModel {
        if self.offering() && self.mention_action(action) is Some {
            self.mention_action(action)->0
        } else if touching(action) {
            self.perform(action).refilter_mentions()
        } else {
            self.perform(action)
        }
    }

    // ----------------------------------------------------------------------- overlays

    /// The highlighted command run, the palette closed first: a command that met the open
    /// palette would be fed straight back into it.
    pub open spec fn run_chosen_command(self, palette: PaletteModel) -> AppModel {
        match palette.chosen() {
            Some(command) => self.close_overlay().act(command.action),
            None => self.says("no command selected"@).close_overlay(),
        }
    }

    /// A key for the command palette.
    #[verifier::opaque]
    pub open spec fn palette_action(self, palette: PaletteModel, action: Action) -> AppModel {
        match action {
            Action::Insert(c) => self.open_modal(ModalModel::Palette(palette.asked(palette.query.push(c)))),
            Action::Backspace => self.open_modal(ModalModel::Palette(palette.pop())),
            Action::CaretUp | Action::ScrollUp(_) => self.open_modal(
                ModalModel::Palette(PaletteModel { selected: stepped_up(palette.selected), ..palette }),
            ),
            Action::CaretDown | Action::ScrollDown(_) => self.open_modal(
                ModalModel::Palette(
                    PaletteModel { selected: stepped_down(palette.selected, palette.matches.len()), ..palette },
                ),
            ),
            Action::Cancel | Action::CommandPalette => self.close_overlay(),
            Action::Submit | Action::Accept => self.run_chosen_command(palette),
            _ => self,
        }
    }

    /// A key for the key overlay.
    pub open spec fn help_action(self, action: Action) -> AppModel {
        match action {
            Action::Cancel | Action::ToggleHelp => self.close_modal(),
            _ => self,
        }
    }

    /// A key for the overlay that is open. Each of them consumes it.
    pub open spec fn modal_action(self, modal: ModalModel, action: Action) -> AppModel {
        match modal {
            ModalModel::Verification(state) => self.verification_action(state, action),
            ModalModel::Recovery(panel) => self.recovery_action(panel, action),
            ModalModel::Emoji(picker) => self.emoji_action(picker, action),
            ModalModel::Palette(palette) => self.palette_action(palette, action),
            ModalModel::Threads(picker) => self.threads_action(picker, action),
            ModalModel::Help => self.help_action(action),
        }
    }

    /// An action. An open overlay owns it.
    pub open spec fn apply_action(self, action: Action) -> AppModel {
        let meant = meaning(action);
        match self.modal {
            Some(modal) => self.modal_action(modal, meant),
            None => self.act(meant),
        }
    }

    /// A left click on the workspace or tab bar, and whether it landed on one.
    pub open spec fn click_bar(self, column: u16, row: u16) -> (AppModel, bool) {
        if row == self.bars.workspace_row && self.bars.workspaces.len() > 0 {
            match hit_index(self.bars.workspaces, column) {
                Some(index) => (self.show_workspace(index), true),
                None => (self, true),
            }
        } else if row == self.bars.tab_row {
            (self.click_tabs(column), true)
        } else {
            (self, false)
        }
    }

    /// A left click on the tab bar: the `+` starts a thread, and a tab is shown.
    #[verifier::opaque]
    pub open spec fn click_tabs(self, column: u16) -> AppModel {
        if self.bars.new_tab is Some && (self.bars.new_tab->0).0 <= column < (self.bars.new_tab->0).1 {
            self.apply_action(Action::NewThread)
        } else {
            match hit_index(self.bars.tabs, column) {
                Some(index) => self.show_tab(index),
                None => self,
            }
        }
    }
}

/// What an action means to the state: leaving a mode steps back from whatever is open.
pub open spec fn meaning(action: Action) -> Action {
    if action is EnterNormal {
        Action::Cancel
    } else {
        action
    }
}

fn find_hit(hits: &Vec<Hit>, column: u16) -> (r: Option<usize>)
    ensures
        r == hit_index(hits.deep_view(), column),
{
    let ghost all = hits.deep_view();
    let mut i: usize = 0;
    while i < hits.len()
        invariant
            i <= hits.len(),
            all == hits.deep_view(),
            forall|j: int| 0 <= j < i ==> !under(column)(#[trigger] all[j]),
        decreases hits.len() - i,
    {
        assert(all[i as int] == hits@[i as int]);
        if hits[i].contains(column) {
            proof {
                assert(under(column)(all[i as int]));
                lemma_first(all, under(column), i as int);
            }
            return Some(hits[i].index);
        }
        i += 1;
    }
    proof {
        lemma_no_first(all, under(column));
    }
    None
}

impl App {
    fn edit_action(&mut self, action: Action)
        ensures
            final(self)@ == old(self)@.edit_action(action),
            final(self)@.workspaces == old(self)@.workspaces,
    {
        proof {
            reveal(AppModel::edit_action);
        }
        match action {
            Action::Insert(_) | Action::Backspace | Action::Delete | Action::DeleteWord | Action::DeleteToLineStart
            | Action::Newline => {},
            _ => {
                return ;
            },
        }
        if let Some(composer) = self.composer_mut() {
            match action {
                Action::Insert(c) => composer.insert(c),
                Action::Backspace => composer.backspace(),
                Action::Delete => composer.delete(),
                Action::DeleteWord => composer.delete_word(),
                Action::DeleteToLineStart => composer.delete_to_line_start(),
                Action::Newline => composer.insert_newline(),
                _ => {},
            }
        }
        self.note_typing();
    }

    fn caret_action(&mut self, action: Action)
        ensures
            final(self)@ == old(self)@.caret_action(action),
            final(self)@.workspaces == old(self)@.workspaces,
    {
        proof {
            reveal(AppModel::caret_action);
        }
        match action {
            Action::CaretUp => {
                self.composer_up();
                return ;
            },
            Action::CaretDown => {
                self.composer_down();
                return ;
            },
            Action::CaretLeft | Action::CaretRight | Action::CaretWordLeft | Action::CaretWordRight | Action::CaretHome
            | Action::CaretEnd => {},
            _ => {
                return ;
            },
        }
        if let Some(composer) = self.composer_mut() {
            match action {
                Action::CaretLeft => composer.left(),
                Action::CaretRight => composer.right(),
                Action::CaretWordLeft => composer.word_left(),
                Action::CaretWordRight => composer.word_right(),
                Action::CaretHome => composer.home(),
                Action::CaretEnd => composer.end(),
                _ => {},
            }
        }
    }

    fn read_action(&mut self, action: Action)
        ensures
            final(self)@ == old(self)@.read_action(action),
            old(self)@.wf() ==> final(self)@.wf(),
    {
        proof {
            reveal(AppModel::read_action);
            lemma_reading_keeps(self@, action);
        }
        match action {
            Action::SelectOlder => self.select_by(-1),
            Action::SelectNewer => self.select_by(1),
            Action::Reply => self.begin_reply(),
            Action::EditMessage => self.begin_edit(),
            Action::RedactMessage => self.redact_selected(),
            Action::ScrollUp(n) => self.scroll_by(-(n as i32)),
            Action::ScrollDown(n) => self.scroll_by(n as i32),
            Action::ScrollTop => self.set_scroll(u16::MAX),
            Action::ScrollBottom => self.set_scroll(0),
            Action::ToggleCard => self.toggle_card(),
            Action::Approve => self.resolve_prompt(true),
            Action::Deny => self.resolve_prompt(false),
            _ => {},
        }
    }

    fn pane_action(&mut self, action: Action)
        ensures
            final(self)@ == old(self)@.pane_action(action),
            old(self)@.wf() ==> final(self)@.wf(),
    {
        proof {
            reveal(AppModel::pane_action);
        }
        match action {
            Action::Split(dir) => self.split(dir),
            Action::ClosePane => self.close_pane(),
            Action::FocusPane(dir) => self.focus_pane(dir),
            Action::ResizePane(dir) => self.resize_pane(dir),
            Action::ZoomPane => self.zoom_pane(),
            Action::NewThread => self.start_thread(),
            Action::Accept => self.accept_selection(),
            Action::NextTab => self.next_tab(),
            Action::PrevTab => self.prev_tab(),
            Action::NextWorkspace => self.next_workspace(),
            Action::PrevWorkspace => self.prev_workspace(),
            _ => {},
        }
    }

    fn start_verification(&mut self)
        ensures
            final(self)@ == old(self)@.start_verification(),
    {
        let verified = match self.device_verified {
            Some(verified) => verified,
            None => false,
        };
        if verified {
            self.say("this device is already verified");
        } else {
            self.say("asking your other devices to verify this one…");
            self.queue(Command::StartVerification);
        }
    }

    fn open_action(&mut self, action: Action)
        ensures
            final(self)@ == old(self)@.open_action(action),
            final(self)@.workspaces == old(self)@.workspaces,
    {
        proof {
            reveal(AppModel::open_action);
        }
        match action {
            Action::OpenThreads => self.open_thread_picker(),
            Action::EmojiIntoComposer => self.open_emoji_for_composer(),
            Action::ReactToSelected => self.open_emoji_for_reaction(),
            Action::OpenRecovery => self.open_recovery(),
            Action::StartVerification => self.start_verification(),
            Action::ToggleHelp => self.open_modal(Modal::Help),
            Action::CommandPalette => {
                // A search box, so keys have to arrive as characters rather than as the
                // commands they mean in normal mode.
                self.open_modal(Modal::Palette(Palette::new()));
                self.mode = Mode::Insert;
            },
            Action::FuzzyJump => self.say("fuzzy jump is not implemented yet"),
            _ => {},
        }
    }

    fn cancel(&mut self)
        ensures
            final(self)@ == old(self)@.cancel(),
            final(self)@.workspaces == old(self)@.workspaces,
    {
        self.close_modal();
        self.cancel_pending();
        self.stop_typing();
        self.mode = Mode::Normal;
    }

    fn perform(&mut self, action: Action)
        ensures
            final(self)@ == old(self)@.perform(action),
            old(self)@.wf() ==> final(self)@.wf(),
    {
        match action {
            Action::Quit => {
                // Quitting without this leaves the room showing a typing indicator until the
                // server expires it.
                self.stop_typing();
                self.should_quit = true;
            },
            Action::EnterInsert => {
                self.mode = Mode::Insert;
            },
            Action::Cancel => self.cancel(),
            Action::Redraw => {
                self.needs_redraw = true;
            },
            Action::Submit => self.submit(),
            Action::Insert(_) | Action::Backspace | Action::Delete | Action::DeleteWord | Action::DeleteToLineStart
            | Action::Newline => self.edit_action(action),
            Action::CaretLeft | Action::CaretRight | Action::CaretWordLeft | Action::CaretWordRight | Action::CaretHome
            | Action::CaretEnd | Action::CaretUp | Action::CaretDown => self.caret_action(action),
            Action::SelectOlder | Action::SelectNewer | Action::Reply | Action::EditMessage | Action::RedactMessage
            | Action::ScrollUp(_) | Action::ScrollDown(_) | Action::ScrollTop | Action::ScrollBottom
            | Action::ToggleCard | Action::Approve | Action::Deny => self.read_action(action),
            Action::Split(_) | Action::ClosePane | Action::FocusPane(_) | Action::ResizePane(_) | Action::ZoomPane
            | Action::NewThread | Action::Accept | Action::NextTab | Action::PrevTab | Action::NextWorkspace
            | Action::PrevWorkspace => self.pane_action(action),
            _ => self.open_action(action),
        }
    }

    /// What the mention picker does with an action, and whether it had a use for it.
    ///
    /// It is a filter on the composer, not a replacement for it, so it takes only the keys
    /// that mean something to a list. Enter completes rather than sends; stepping back closes
    /// only the popup.
    fn mention_action(&mut self, action: Action) -> (r: bool)
        requires
            old(self)@.offering(),
        ensures
            r == old(self)@.mention_action(action) is Some,
            final(self)@ == (match old(self)@.mention_action(action) {
                Some(after) => after,
                None => old(self)@,
            }),
            final(self)@.workspaces == old(self)@.workspaces,
    {
        proof {
            reveal(AppModel::mention_action);
        }
        match action {
            Action::CaretUp => {
                if let Some(picker) = &mut self.mentions {
                    picker.selected = step_up(picker.selected);
                }
                self.needs_redraw = true;
                true
            },
            Action::CaretDown => {
                if let Some(picker) = &mut self.mentions {
                    picker.selected = step_down(picker.selected, picker.matches.len());
                }
                self.needs_redraw = true;
                true
            },
            Action::Submit | Action::Complete => {
                self.accept_mention();
                true
            },
            Action::Cancel => {
                self.mentions = None;
                self.mode = Mode::Insert;
                self.needs_redraw = true;
                true
            },
            _ => false,
        }
    }

    fn act(&mut self, action: Action)
        ensures
            final(self)@ == old(self)@.act(action),
            old(self)@.wf() ==> final(self)@.wf(),
    {
        // Only while it has something to show: a popup nobody can see must not swallow the
        // return key.
        let offering = match &self.mentions {
            Some(picker) => picker.matches.len() > 0,
            None => false,
        };
        if offering {
            if self.mention_action(action) {
                return ;
            }
        }
        self.perform(action);
        if touches_composer(action) {
            proof {
                lemma_refilter_keeps(self@);
            }
            self.refilter_mentions();
        }
    }

    fn palette_action(&mut self, action: Action)
        requires
            old(self)@.modal is Some,
            old(self)@.modal->0 is Palette,
        ensures
            final(self)@ == old(self)@.palette_action(old(self)@.modal->0->Palette_0, action),
            old(self)@.wf() ==> final(self)@.wf(),
    {
        proof {
            reveal(AppModel::palette_action);
        }
        match action {
            Action::Cancel | Action::CommandPalette => self.close_overlay(),
            Action::Submit | Action::Accept => {
                let chosen = match &self.modal {
                    Some(Modal::Palette(palette)) => palette.chosen(),
                    _ => None,
                };
                match chosen {
                    Some(command) => {
                        self.close_overlay();
                        self.act(command.action);
                    },
                    None => {
                        self.say("no command selected");
                        self.close_overlay();
                    },
                }
            },
            _ => {
                if let Some(Modal::Palette(palette)) = &mut self.modal {
                    match action {
                        Action::Insert(c) => palette.push(c),
                        Action::Backspace => palette.pop(),
                        // Arrows come through as caret movement, because the palette is typed
                        // into from insert mode.
                        Action::CaretUp | Action::ScrollUp(_) => palette.up(),
                        Action::CaretDown | Action::ScrollDown(_) => palette.down(),
                        _ => {},
                    }
                }
            },
        }
    }

    /// Route a key to whichever overlay is open. Each of them consumes it: an overlay that
    /// let one through is how a picker ends up splitting a pane behind itself.
    fn modal_action(&mut self, action: Action)
        requires
            old(self)@.modal is Some,
        ensures
            final(self)@ == old(self)@.modal_action(old(self)@.modal->0, action),
            old(self)@.wf() ==> final(self)@.wf(),
    {
        match &self.modal {
            Some(Modal::Verification(_)) => self.verification_action(action),
            Some(Modal::Recovery(_)) => self.recovery_action(action),
            Some(Modal::Emoji(_)) => self.emoji_action(action),
            Some(Modal::Palette(_)) => self.palette_action(action),
            Some(Modal::Threads(_)) => self.threads_action(action),
            Some(Modal::Help) => match action {
                Action::Cancel | Action::ToggleHelp => self.close_modal(),
                _ => {},
            },
            None => {},
        }
    }

    /// Carry out an action. An open overlay owns every key.
    pub fn apply_action(&mut self, action: Action)
        ensures
            final(self)@ == old(self)@.apply_action(action),
            old(self)@.wf() ==> final(self)@.wf(),
    {
        let meant = match action {
            Action::EnterNormal => Action::Cancel,
            _ => action,
        };
        if self.modal.is_some() {
            self.modal_action(meant);
        } else {
            self.act(meant);
        }
    }

    /// Route a left click on the workspace or tab bar.
    ///
    /// Returns `true` when the click landed on a bar, so the caller does not also hit-test
    /// the panes. Clicks anywhere on a bar are swallowed, including the gaps between cells:
    /// falling through to the tiling would focus a pane the user did not aim at.
    pub fn click_bar(&mut self, column: u16, row: u16) -> (r: bool)
        ensures
            (final(self)@, r) == old(self)@.click_bar(column, row),
            old(self)@.wf() ==> final(self)@.wf(),
    {
        if row == self.bars.workspace_row && self.bars.workspaces.len() > 0 {
            if let Some(index) = find_hit(&self.bars.workspaces, column) {
                self.show_workspace(index);
            }
            return true;
        }
        if row == self.bars.tab_row {
            self.click_tabs(column);
            return true;
        }
        false
    }

    fn click_tabs(&mut self, column: u16)
        ensures
            final(self)@ == old(self)@.click_tabs(column),
            old(self)@.wf() ==> final(self)@.wf(),
    {
        proof {
            reveal(AppModel::click_tabs);
        }
        if let Some((x0, x1)) = self.bars.new_tab {
            if column >= x0 && column < x1 {
                self.apply_action(Action::NewThread);
                return ;
            }
        }
        if let Some(index) = find_hit(&self.bars.tabs, column) {
            self.show_tab(index);
        }
    }
}

// --------------------------------------------------------------------- what is left alone

proof fn lemma_refilter_keeps(app: AppModel)
    ensures
        app.refilter_mentions().workspaces == app.workspaces,
{
}

/// Reading changes no focus, and no pane's place or content.
proof fn lemma_reading_keeps(app: AppModel, action: Action)
    ensures
        app.wf() ==> app.read_action(action).wf(),
{
    reveal(AppModel::read_action);
    match action {
        Action::Approve => lemma_resolving_keeps(app, true),
        Action::Deny => lemma_resolving_keeps(app, false),
        _ => {},
    }
}

proof fn lemma_resolving_keeps(app: AppModel, approve: bool)
    ensures
        app.wf() ==> app.resolve_prompt(approve).wf(),
{
    if let Some(Prompt::Approval(approval)) = app.focused_prompt() {
        let view = app.focused_view()->0;
        if let Some(event_id) = prompt_event(app.entries_of(view), approval.id) {
            lemma_refreshing_keeps_the_focus(
                app.queue(
                    CommandModel::ToggleReaction { view, event_id, key: answer_emoji(approval.reactions, approve) },
                ).without_prompt(view.thread_root->0, approval.id),
            );
        }
    }
}

} // verus!
