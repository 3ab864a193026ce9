//! Overlays: what each of them does with a key. An overlay swallows every key it has no
//! use for.

use vstd::prelude::*;

use crate::app::composer::{Composer, ComposerModel};
use crate::app::emoji;
use crate::app::keymap::{Action, Mode};
use crate::app::palette::{step_down, step_up, stepped_down, stepped_up};
use crate::app::state::{
    App, AppModel, Modal, ModalModel, RecoveryPanel, RecoveryPanelModel, ThreadPicker, ThreadPickerModel,
};
use crate::matrix::model::{Command, CommandModel, RecoveryState, Verification, VerificationModel};
use crate::text::{chars_of, trim, trimmed};

verus! {

/// A composer after a text was typed into it.
pub open spec fn typed(c: ComposerModel, text: Seq<char>) -> ComposerModel
    decreases text.len(),
{
    if text.len() == 0 {
        c
    } else {
        typed(c, text.drop_last()).insert(text.last())
    }
}

fn type_all(composer: &mut Composer, text: &str)
    ensures
        final(composer)@ == typed(old(composer)@, text@),
{
    let ghost before = composer@;
    let chars = chars_of(text);
    let mut i: usize = 0;
    while i < chars.len()
        invariant
            i <= chars.len(),
            composer@ == typed(before, chars@.take(i as int)),
        decreases chars.len() - i,
    {
        assert(chars@.take(i + 1).drop_last() =~= chars@.take(i as int));
        composer.insert(chars[i]);
        i += 1;
    }
    assert(chars@.take(chars.len() as int) =~= chars@);
}

impl AppModel {
    /// The overlay closed, and the keyboard given back to the transcript.
    pub open spec fn close_overlay(self) -> AppModel {
        AppModel { modal: None, mode: Mode::Normal, ..self }
    }

    // --------------------------------------------------------------------------- emoji

    /// The emoji picker opened, to put an emoji in the composer.
    pub open spec fn open_emoji_for_composer(self) -> AppModel {
        AppModel {
            modal: Some(ModalModel::Emoji(emoji::PickerModel::fresh(emoji::TargetModel::Composer))),
            mode: Mode::Insert,
            ..self
        }
    }

    /// The emoji picker opened, to react to the selected message.
    pub open spec fn open_emoji_for_reaction(self) -> AppModel {
        match self.selected_event() {
            Some(event_id) => AppModel {
                modal: Some(
                    ModalModel::Emoji(emoji::PickerModel::fresh(emoji::TargetModel::Reaction { event_id })),
                ),
                mode: Mode::Insert,
                ..self
            },
            None => self.says("select a message to react to"@),
        }
    }

    /// The highlighted emoji used. One for the composer leads straight back to typing.
    pub open spec fn accept_emoji(self, picker: emoji::PickerModel) -> AppModel {
        match picker.chosen() {
            Some(text) => match picker.target {
                emoji::TargetModel::Composer => AppModel {
                    modal: None,
                    mode: Mode::Insert,
                    ..self.edited(|c: ComposerModel| typed(c, text))
                },
                emoji::TargetModel::Reaction { event_id } => match self.focused_view() {
                    Some(view) => self.queue(
                        CommandModel::ToggleReaction { view, event_id, key: text },
                    ).close_overlay(),
                    None => self.close_overlay(),
                },
            },
            None => self.says("no emoji matches that"@),
        }
    }

    /// A key for the emoji picker.
    #[verifier::opaque]
    pub open spec fn emoji_action(self, picker: emoji::PickerModel, action: Action) -> AppModel {
        match action {
            Action::Cancel => self.close_overlay(),
            Action::Insert(c) => self.open_modal(ModalModel::Emoji(picker.asked(picker.query.push(c)))),
            Action::Backspace => self.open_modal(ModalModel::Emoji(picker.pop())),
            Action::CaretUp | Action::ScrollUp(_) | Action::SelectOlder => self.open_modal(
                ModalModel::Emoji(picker.up()),
            ),
            Action::CaretDown | Action::ScrollDown(_) | Action::SelectNewer => self.open_modal(
                ModalModel::Emoji(picker.down()),
            ),
            Action::Submit | Action::Accept => self.accept_emoji(picker),
            _ => self,
        }
    }

    // -------------------------------------------------------------------- verification

    /// A key for the verification overlay: only the keys that mean something are honoured.
    #[verifier::opaque]
    pub open spec fn verification_action(self, state: VerificationModel, action: Action) -> AppModel {
        match (state, action) {
            (VerificationModel::Requested { .. }, Action::Approve | Action::Accept) => self.queue(
                CommandModel::AcceptVerification,
            ),
            (VerificationModel::Compare { .. }, Action::Approve | Action::Accept) => self.queue(
                CommandModel::ConfirmVerification,
            ),
            (VerificationModel::Compare { .. }, Action::Deny) => self.says(
                "reported a mismatch: those keys are not trusted"@,
            ).queue(CommandModel::MismatchVerification),
            (_, Action::Deny | Action::Cancel) => self.queue(CommandModel::CancelVerification),
            (_, Action::Redraw) => AppModel { needs_redraw: true, ..self },
            _ => self,
        }
    }

    // ------------------------------------------------------------------------ recovery

    /// The recovery panel opened. What it asks depends on where the account stands.
    pub open spec fn open_recovery(self) -> AppModel {
        AppModel {
            modal: Some(
                ModalModel::Recovery(
                    match self.recovery {
                        RecoveryState::Disabled => RecoveryPanelModel::OfferEnable,
                        RecoveryState::Enabled => RecoveryPanelModel::ConfirmReset,
                        _ => RecoveryPanelModel::AskKey { key: Seq::empty(), submitted: false, error: None },
                    },
                ),
            ),
            mode: Mode::Insert,
            ..self
        }
    }

    /// A key for the panel that asks for the recovery key.
    pub open spec fn ask_key_action(
        self,
        key: Seq<char>,
        submitted: bool,
        error: Option<Seq<char>>,
        action: Action,
    ) -> AppModel {
        match action {
            Action::Cancel => self.close_overlay(),
            Action::Insert(c) => if submitted {
                self
            } else {
                self.open_modal(
                    ModalModel::Recovery(RecoveryPanelModel::AskKey { key: key.push(c), submitted, error }),
                )
            },
            Action::Backspace => if submitted || key.len() == 0 {
                self
            } else {
                self.open_modal(
                    ModalModel::Recovery(RecoveryPanelModel::AskKey { key: key.drop_last(), submitted, error }),
                )
            },
            Action::Submit | Action::Accept => if submitted {
                self
            } else if trim(key).len() == 0 {
                self.says("no recovery key entered"@).close_overlay()
            } else {
                self.open_modal(
                    ModalModel::Recovery(RecoveryPanelModel::AskKey { key: Seq::empty(), submitted: true, error }),
                ).says("unlocking secret storage…"@).queue(CommandModel::RecoverWithKey(key))
            },
            _ => self,
        }
    }

    /// A key for the recovery panel. Replacing a working key takes an explicit yes; waiting
    /// on the server takes no key; a new key is put away by an acknowledgement alone.
    #[verifier::opaque]
    pub open spec fn recovery_action(self, panel: RecoveryPanelModel, action: Action) -> AppModel {
        match panel {
            RecoveryPanelModel::AskKey { key, submitted, error } => self.ask_key_action(key, submitted, error, action),
            RecoveryPanelModel::OfferEnable => match action {
                Action::Approve | Action::Accept | Action::Submit => self.open_modal(
                    ModalModel::Recovery(RecoveryPanelModel::Busy("setting up recovery…"@)),
                ).queue(CommandModel::EnableRecovery),
                Action::Deny | Action::Cancel => self.close_overlay(),
                _ => self,
            },
            RecoveryPanelModel::ConfirmReset => match action {
                Action::Approve => self.open_modal(
                    ModalModel::Recovery(RecoveryPanelModel::Busy("creating a new recovery key…"@)),
                ).queue(CommandModel::ResetRecoveryKey),
                Action::Deny | Action::Cancel => self.close_overlay(),
                _ => self,
            },
            RecoveryPanelModel::Busy(_) => self,
            RecoveryPanelModel::ShowKey { .. } => match action {
                Action::Submit | Action::Accept | Action::Approve | Action::Cancel => self.close_overlay(),
                _ => self,
            },
        }
    }

    // ------------------------------------------------------------------- thread picker

    /// The thread picker opened for the focused room, and the worker asked to fill it.
    pub open spec fn open_thread_picker(self) -> AppModel {
        match self.focused_room() {
            Some(room_id) => self.open_modal(
                ModalModel::Threads(
                    ThreadPickerModel { room_id, threads: Seq::empty(), selected: 0, loading: true },
                ),
            ).queue(CommandModel::ListThreads { room_id }),
            None => self,
        }
    }

    /// The highlighted thread opened as a pane.
    pub open spec fn open_selected_thread(self, picker: ThreadPickerModel) -> AppModel {
        match picker.chosen() {
            Some(thread) => self.close_modal().open_thread_pane(
                thread.root_event_id,
                if thread.preview.len() == 0 {
                    thread.sender_display
                } else {
                    thread.preview
                },
            ),
            None => self.says("no thread selected"@),
        }
    }

    /// A key for the thread picker.
    #[verifier::opaque]
    pub open spec fn threads_action(self, picker: ThreadPickerModel, action: Action) -> AppModel {
        match action {
            Action::ScrollUp(_) | Action::SelectOlder => self.open_modal(
                ModalModel::Threads(ThreadPickerModel { selected: stepped_up(picker.selected), ..picker }),
            ),
            Action::ScrollDown(_) | Action::SelectNewer => self.open_modal(
                ModalModel::Threads(
                    ThreadPickerModel { selected: stepped_down(picker.selected, picker.threads.len()), ..picker },
                ),
            ),
            Action::Accept => self.open_selected_thread(picker),
            Action::Cancel | Action::OpenThreads => self.close_modal(),
            _ => self,
        }
    }
}

impl App {
    /// Close the overlay and give the keyboard back to the transcript.
    pub fn close_overlay(&mut self)
        ensures
            final(self)@ == old(self)@.close_overlay(),
    {
        self.modal = None;
        self.mode = Mode::Normal;
    }

    // --------------------------------------------------------------------------- emoji

    /// Open the emoji picker to put an emoji in the composer.
    ///
    /// The picker is a search box, so typing has to reach it: insert mode is what turns a
    /// keypress into a character rather than a command.
    pub fn open_emoji_for_composer(&mut self)
        ensures
            final(self)@ == old(self)@.open_emoji_for_composer(),
    {
        self.open_modal(Modal::Emoji(emoji::Picker::new(emoji::Target::Composer)));
        self.mode = Mode::Insert;
    }

    /// Open the emoji picker to react to the selected message.
    pub fn open_emoji_for_reaction(&mut self)
        ensures
            final(self)@ == old(self)@.open_emoji_for_reaction(),
    {
        match self.selected_id() {
            Some(event_id) => {
                self.open_modal(Modal::Emoji(emoji::Picker::new(emoji::Target::Reaction { event_id })));
                self.mode = Mode::Insert;
            },
            None => self.say("select a message to react to"),
        }
    }

    /// Apply the highlighted emoji and close the picker.
    fn accept_emoji(&mut self)
        requires
            old(self)@.modal is Some,
            old(self)@.modal->0 is Emoji,
        ensures
            final(self)@ == old(self)@.accept_emoji(old(self)@.modal->0->Emoji_0),
    {
        let (text, target) = match &self.modal {
            Some(Modal::Emoji(picker)) => match picker.chosen() {
                Some(text) => (text.to_owned(), picker.target.clone()),
                None => {
                    self.say("no emoji matches that");
                    return ;
                },
            },
            _ => {
                return ;
            },
        };
        match target {
            emoji::Target::Composer => {
                if let Some(composer) = self.composer_mut() {
                    type_all(composer, text.as_str());
                }
                self.close_modal();
                self.mode = Mode::Insert;
            },
            emoji::Target::Reaction { event_id } => {
                if let Some(view) = self.focused_view() {
                    self.queue(Command::ToggleReaction { view, event_id, key: text });
                }
                self.close_overlay();
            },
        }
    }

    /// Route a key to the open emoji picker.
    pub(crate) fn emoji_action(&mut self, action: Action)
        requires
            old(self)@.modal is Some,
            old(self)@.modal->0 is Emoji,
        ensures
            final(self)@ == old(self)@.emoji_action(old(self)@.modal->0->Emoji_0, action),
            final(self)@.workspaces == old(self)@.workspaces,
    {
        proof {
            reveal(AppModel::emoji_action);
        }
        match action {
            Action::Cancel => self.close_overlay(),
            Action::Submit | Action::Accept => self.accept_emoji(),
            _ => {
                if let Some(Modal::Emoji(picker)) = &mut self.modal {
                    match action {
                        Action::Insert(c) => picker.push(c),
                        Action::Backspace => picker.pop(),
                        // Both pairs move the highlight: arrows are what the composer's own
                        // bindings send here, the others what someone arriving from the
                        // transcript will press.
                        Action::CaretUp | Action::ScrollUp(_) | Action::SelectOlder => picker.up(),
                        Action::CaretDown | Action::ScrollDown(_) | Action::SelectNewer => picker.down(),
                        _ => {},
                    }
                }
            },
        }
    }

    // -------------------------------------------------------------------- verification

    /// Route a key to the verification overlay.
    ///
    /// Accepting a request is not yet a judgement about keys: it only agrees to start
    /// comparing them. A denial of the comparison reports a mismatch rather than a
    /// withdrawal, because a user pressing "they do not match" is reporting an attack.
    pub(crate) fn verification_action(&mut self, action: Action)
        requires
            old(self)@.modal is Some,
            old(self)@.modal->0 is Verification,
        ensures
            final(self)@ == old(self)@.verification_action(old(self)@.modal->0->Verification_0, action),
            final(self)@.workspaces == old(self)@.workspaces,
    {
        proof {
            reveal(AppModel::verification_action);
        }
        let (requested, comparing) = match &self.modal {
            Some(Modal::Verification(state)) => (
                matches!(state, Verification::Requested { .. }),
                matches!(state, Verification::Compare { .. }),
            ),
            _ => (false, false),
        };
        match action {
            Action::Approve | Action::Accept => {
                if requested {
                    self.queue(Command::AcceptVerification);
                } else if comparing {
                    self.queue(Command::ConfirmVerification);
                }
            },
            Action::Deny => {
                if comparing {
                    self.say("reported a mismatch: those keys are not trusted");
                    self.queue(Command::MismatchVerification);
                } else {
                    self.queue(Command::CancelVerification);
                }
            },
            Action::Cancel => self.queue(Command::CancelVerification),
            Action::Redraw => {
                self.needs_redraw = true;
            },
            _ => {},
        }
    }

    // ------------------------------------------------------------------------ recovery

    /// Open the recovery panel. Offering the wrong question is worse than offering nothing:
    /// asking for a key that was never created, or quietly replacing one that works.
    pub fn open_recovery(&mut self)
        ensures
            final(self)@ == old(self)@.open_recovery(),
    {
        let panel = match self.recovery {
            RecoveryState::Disabled => RecoveryPanel::OfferEnable,
            RecoveryState::Enabled => RecoveryPanel::ConfirmReset,
            _ => RecoveryPanel::AskKey { key: String::new(), submitted: false, error: None },
        };
        self.open_modal(Modal::Recovery(panel));
        self.mode = Mode::Insert;
    }

    fn ask_key_action(&mut self, action: Action)
        requires
            old(self)@.modal is Some,
            old(self)@.modal->0 is Recovery,
            old(self)@.modal->0->Recovery_0 is AskKey,
        ensures
            final(self)@ == (match old(self)@.modal->0->Recovery_0 {
                RecoveryPanelModel::AskKey { key, submitted, error } => old(self)@.ask_key_action(
                    key,
                    submitted,
                    error,
                    action,
                ),
                _ => old(self)@,
            }),
    {
        let mut entered: Option<String> = None;
        match &mut self.modal {
            Some(Modal::Recovery(RecoveryPanel::AskKey { key, submitted, .. })) => {
                if !*submitted {
                    match action {
                        Action::Insert(c) => key.push(c),
                        Action::Backspace => {
                            if key.as_str().unicode_len() > 0 {
                                *key = key.as_str().substring_char(0, key.as_str().unicode_len() - 1).to_owned();
                            }
                        },
                        Action::Submit | Action::Accept => {
                            let mut taken = String::new();
                            std::mem::swap(key, &mut taken);
                            *submitted = true;
                            entered = Some(taken);
                        },
                        _ => {},
                    }
                }
            },
            _ => {},
        }
        match entered {
            Some(entered) => {
                if trimmed(&chars_of(entered.as_str())).len() == 0 {
                    self.say("no recovery key entered");
                    self.close_overlay();
                } else {
                    self.say("unlocking secret storage…");
                    self.queue(Command::RecoverWithKey(entered));
                }
            },
            None => {
                if let Action::Cancel = action {
                    self.close_overlay();
                }
            },
        }
    }

    /// Route a key to the recovery panel.
    ///
    /// This panel can hold a secret mid-typing, destroy a working recovery key, or be showing
    /// the only copy of a new one, and none of those are places for a stray binding to reach
    /// past.
    pub(crate) fn recovery_action(&mut self, action: Action)
        requires
            old(self)@.modal is Some,
            old(self)@.modal->0 is Recovery,
        ensures
            final(self)@ == old(self)@.recovery_action(old(self)@.modal->0->Recovery_0, action),
            final(self)@.workspaces == old(self)@.workspaces,
    {
        proof {
            reveal(AppModel::recovery_action);
        }
        match &self.modal {
            Some(Modal::Recovery(RecoveryPanel::AskKey { .. })) => self.ask_key_action(action),
            Some(Modal::Recovery(RecoveryPanel::OfferEnable)) => match action {
                Action::Approve | Action::Accept | Action::Submit => {
                    self.open_modal(Modal::Recovery(RecoveryPanel::Busy("setting up recovery…")));
                    self.queue(Command::EnableRecovery);
                },
                Action::Deny | Action::Cancel => self.close_overlay(),
                _ => {},
            },
            Some(Modal::Recovery(RecoveryPanel::ConfirmReset)) => match action {
                // Resetting leaves every other device holding a key that no longer opens
                // anything, so it is not something to fall into by pressing enter.
                Action::Approve => {
                    self.open_modal(Modal::Recovery(RecoveryPanel::Busy("creating a new recovery key…")));
                    self.queue(Command::ResetRecoveryKey);
                },
                Action::Deny | Action::Cancel => self.close_overlay(),
                _ => {},
            },
            Some(Modal::Recovery(RecoveryPanel::ShowKey { .. })) => match action {
                Action::Submit | Action::Accept | Action::Approve | Action::Cancel => self.close_overlay(),
                _ => {},
            },
            _ => {},
        }
    }

    // ------------------------------------------------------------------- thread picker

    /// Open the thread picker for the focused room and ask the worker to fill it.
    pub fn open_thread_picker(&mut self)
        ensures
            final(self)@ == old(self)@.open_thread_picker(),
    {
        if let Some(room_id) = self.focused_room() {
            let picker = ThreadPicker { room_id: room_id.clone(), threads: Vec::new(), selected: 0, loading: true };
            assert(picker@.threads =~= Seq::empty());
            self.open_modal(Modal::Threads(picker));
            self.queue(Command::ListThreads { room_id });
        }
    }

    /// Open the highlighted thread as a pane beside the current one.
    fn open_selected_thread(&mut self)
        requires
            old(self)@.modal is Some,
            old(self)@.modal->0 is Threads,
        ensures
            final(self)@ == old(self)@.open_selected_thread(old(self)@.modal->0->Threads_0),
            old(self)@.wf() ==> final(self)@.wf(),
    {
        let found = match &self.modal {
            Some(Modal::Threads(picker)) => match picker.selected() {
                Some(thread) => {
                    let title = if thread.preview.as_str().is_empty() {
                        thread.sender_display.clone()
                    } else {
                        thread.preview.clone()
                    };
                    Some((thread.root_event_id.clone(), title))
                },
                None => None,
            },
            _ => None,
        };
        match found {
            Some((root, title)) => {
                self.close_modal();
                self.open_thread_pane(root, title);
            },
            None => self.say("no thread selected"),
        }
    }

    /// Route a key to the thread picker. It owns navigation while it is open.
    pub(crate) fn threads_action(&mut self, action: Action)
        requires
            old(self)@.modal is Some,
            old(self)@.modal->0 is Threads,
        ensures
            final(self)@ == old(self)@.threads_action(old(self)@.modal->0->Threads_0, action),
            old(self)@.wf() ==> final(self)@.wf(),
    {
        proof {
            reveal(AppModel::threads_action);
        }
        match action {
            Action::Accept => self.open_selected_thread(),
            Action::Cancel | Action::OpenThreads => self.close_modal(),
            _ => {
                if let Some(Modal::Threads(picker)) = &mut self.modal {
                    match action {
                        Action::ScrollUp(_) | Action::SelectOlder => {
                            picker.selected = step_up(picker.selected);
                        },
                        Action::ScrollDown(_) | Action::SelectNewer => {
                            picker.selected = step_down(picker.selected, picker.threads.len());
                        },
                        _ => {},
                    }
                }
            },
        }
    }
}

} // verus!
