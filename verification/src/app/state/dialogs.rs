//! What a key press comes to while an overlay is open, and which overlay a key opens.

use vstd::prelude::*;

use crate::app::composer::ComposerModel;
use crate::app::config::ConfigModel;
use crate::app::emoji;
use crate::app::keymap::{mapped, Action, KeyEvent, Prefix};
use crate::app::palette::{stepped_down, stepped_up, PaletteModel};
use crate::app::state::actions::{hit_index, touching};
use crate::app::state::outcomes::{at_large, law_scrolling_goes_its_way};
use crate::app::state::overlays::typed;
use crate::app::state::{AppModel, Hit, ModalModel, RecoveryPanelModel, ThreadPickerModel};
use crate::layout::persist::LayoutModel;
use crate::matrix::model::{CommandModel, VerificationModel, ViewModel};
use crate::seqs::{first_where, lemma_first_where};
use crate::text::trim;

verus! {

// -------------------------------------------------------------------------- opening

/// Each key opens its own overlay.
#[verifier::rlimit(50)]
pub proof fn law_each_key_opens_its_overlay(app: AppModel)
    requires
        at_large(app),
    ensures
        app.apply_action(Action::ToggleHelp).modal == Some(ModalModel::Help),
        app.apply_action(Action::CommandPalette).modal is Some,
        app.apply_action(Action::CommandPalette).modal->0 is Palette,
        app.apply_action(Action::CommandPalette).modal->0->Palette_0.query.len() == 0,
        app.apply_action(Action::CommandPalette).modal->0->Palette_0.selected == 0,
        app.apply_action(Action::CommandPalette).mode is Insert,
{
    reveal(AppModel::open_action);
    reveal(touching);
}

/// An emoji is picked for the composer, or for the selected message.
#[verifier::rlimit(50)]
pub proof fn law_an_emoji_is_picked_for_its_target(app: AppModel, view: ViewModel)
    requires
        at_large(app),
        app.focused_view() == Some(view),
    ensures
        ({
            let into = app.apply_action(Action::EmojiIntoComposer);
            let onto = app.apply_action(Action::ReactToSelected);
            &&& into.modal is Some && into.modal->0 is Emoji
            &&& into.modal->0->Emoji_0.target is Composer
            &&& into.mode is Insert
            &&& app.selected.contains_key(view) ==> onto.modal is Some && onto.modal->0 is Emoji
            &&& app.selected.contains_key(view) ==> onto.modal->0->Emoji_0.target == (emoji::TargetModel::Reaction {
                event_id: app.selected[view],
            })
            &&& app.selected.contains_key(view) ==> onto.mode is Insert
            &&& !app.selected.contains_key(view) ==> onto.modal is None
        }),
{
    reveal(AppModel::open_action);
    reveal(touching);
}

/// What is offered about recovery is what its state calls for: to set it up where there is none, to
/// replace the key where it is complete, and to enter the key otherwise.
pub proof fn law_recovery_offers_what_is_called_for(app: AppModel)
    requires
        at_large(app),
    ensures
        ({
            let after = app.apply_action(Action::OpenRecovery);
            &&& after.modal is Some && after.modal->0 is Recovery
            &&& app.recovery is Disabled <==> after.modal->0->Recovery_0 is OfferEnable
            &&& app.recovery is Enabled <==> after.modal->0->Recovery_0 is ConfirmReset
            &&& (app.recovery is Unknown || app.recovery is Incomplete) <==> after.modal->0->Recovery_0 is AskKey
            &&& after.modal->0->Recovery_0 is AskKey ==> after.modal->0->Recovery_0->AskKey_key.len() == 0
                && !after.modal->0->Recovery_0->AskKey_submitted
                && after.modal->0->Recovery_0->AskKey_error is None
            &&& after.mode is Insert
            &&& after.pending == app.pending
        }),
{
    reveal(AppModel::open_action);
    reveal(touching);
}

/// A verification is asked for where the device is not verified, and there alone.
pub proof fn law_a_verification_is_asked_for(app: AppModel)
    requires
        at_large(app),
    ensures
        app.device_verified == Some(true) ==> app.apply_action(Action::StartVerification).pending == app.pending,
        app.device_verified != Some(true) ==> app.apply_action(Action::StartVerification).pending == app.pending.push(
            CommandModel::StartVerification,
        ),
        app.apply_action(Action::StartVerification).modal is None,
{
    reveal(AppModel::open_action);
    reveal(touching);
}

/// The thread picker is opened on the focused room, and its threads are asked for.
pub proof fn law_threads_are_listed_for_the_focused_room(app: AppModel, room_id: Seq<char>)
    requires
        at_large(app),
        app.focused_room() == Some(room_id),
    ensures
        ({
            let after = app.apply_action(Action::OpenThreads);
            &&& after.modal is Some && after.modal->0 is Threads
            &&& after.modal->0->Threads_0.room_id == room_id
            &&& after.modal->0->Threads_0.loading
            &&& after.modal->0->Threads_0.threads.len() == 0
            &&& after.pending == app.pending.push(CommandModel::ListThreads { room_id })
        }),
{
    reveal(AppModel::open_action);
    reveal(touching);
}

// -------------------------------------------------------------------------- lists

/// Going up in a list takes the row above, going down the row below; the first and the last row
/// stay.
pub proof fn law_lists_are_walked_row_by_row(selected: usize, len: nat)
    requires
        selected < len,
        len <= usize::MAX,
    ensures
        selected > 0 ==> stepped_up(selected) == selected - 1,
        selected == 0 ==> stepped_up(selected) == 0,
        selected + 1 < len ==> stepped_down(selected, len) == selected + 1,
        selected + 1 == len ==> stepped_down(selected, len) == selected,
{
}

/// The keys of the palette: letters are asked for, the arrows choose, and leaving closes it.
#[verifier::rlimit(50)]
pub proof fn law_the_keys_of_the_palette(app: AppModel, p: PaletteModel, c: char, n: u16)
    requires
        app.modal == Some(ModalModel::Palette(p)),
        p.selected < p.matches.len() <= usize::MAX,
    ensures
        app.apply_action(Action::Insert(c)).modal->0->Palette_0.query == p.query.push(c),
        p.query.len() > 0 ==> app.apply_action(Action::Backspace).modal->0->Palette_0.query == p.query.drop_last(),
        p.query.len() == 0 ==> app.apply_action(Action::Backspace).modal->0->Palette_0.query == p.query,
        app.apply_action(Action::CaretUp) == app.apply_action(Action::ScrollUp(n)),
        app.apply_action(Action::CaretDown) == app.apply_action(Action::ScrollDown(n)),
        p.selected > 0 ==> app.apply_action(Action::CaretUp).modal->0->Palette_0 == (PaletteModel {
            selected: (p.selected - 1) as usize,
            ..p
        }),
        p.selected + 1 < p.matches.len() ==> app.apply_action(Action::CaretDown).modal->0->Palette_0 == (PaletteModel {
            selected: (p.selected + 1) as usize,
            ..p
        }),
        app.apply_action(Action::Cancel).modal is None,
        app.apply_action(Action::Cancel).mode is Normal,
        app.apply_action(Action::CommandPalette).modal is None,
        app.apply_action(Action::Cancel).pending == app.pending,
{
    reveal(AppModel::palette_action);
}

/// The keys of the emoji picker.
#[verifier::rlimit(50)]
pub proof fn law_the_keys_of_the_emoji_picker(app: AppModel, p: emoji::PickerModel, c: char)
    requires
        app.modal == Some(ModalModel::Emoji(p)),
        p.selected < p.matches.len() <= usize::MAX,
    ensures
        app.apply_action(Action::Insert(c)).modal->0->Emoji_0.query == p.query.push(c),
        app.apply_action(Action::Insert(c)).modal->0->Emoji_0.target == p.target,
        p.query.len() > 0 ==> app.apply_action(Action::Backspace).modal->0->Emoji_0.query == p.query.drop_last(),
        p.selected > 0 ==> app.apply_action(Action::CaretUp).modal->0->Emoji_0 == (emoji::PickerModel {
            selected: (p.selected - 1) as usize,
            ..p
        }),
        p.selected + 1 < p.matches.len() ==> app.apply_action(Action::CaretDown).modal->0->Emoji_0 == (emoji::PickerModel {
            selected: (p.selected + 1) as usize,
            ..p
        }),
        app.apply_action(Action::Cancel).modal is None,
        app.apply_action(Action::Cancel).mode is Normal,
        app.apply_action(Action::Cancel).pending == app.pending,
        app.apply_action(Action::Cancel).composers == app.composers,
{
    reveal(AppModel::emoji_action);
}

proof fn lemma_typed(c: ComposerModel, text: Seq<char>)
    requires
        0 <= c.cursor <= c.text.len(),
    ensures
        typed(c, text).text == c.text.take(c.cursor) + text + c.text.skip(c.cursor),
        typed(c, text).cursor == c.cursor + text.len(),
    decreases text.len(),
{
    if text.len() == 0 {
        assert(c.text.take(c.cursor) + text + c.text.skip(c.cursor) =~= c.text);
    } else {
        let before = typed(c, text.drop_last());
        lemma_typed(c, text.drop_last());
        assert(before.text.take(before.cursor) =~= c.text.take(c.cursor) + text.drop_last());
        assert(before.text.skip(before.cursor) =~= c.text.skip(c.cursor));
        assert(typed(c, text).text =~= c.text.take(c.cursor) + text + c.text.skip(c.cursor));
    }
}

/// The highlighted emoji is written where the caret is, or sent as a reaction to the message it was
/// picked for.
#[verifier::rlimit(50)]
pub proof fn law_the_highlighted_emoji_is_used(app: AppModel, p: emoji::PickerModel, view: ViewModel)
    requires
        app.modal == Some(ModalModel::Emoji(p)),
        p.selected < p.matches.len(),
        app.focused_view() == Some(view),
        0 <= app.composer_of(view).cursor <= app.composer_of(view).text.len(),
    ensures
        ({
            let after = app.apply_action(Action::Submit);
            let text = p.matches[p.selected as int].text;
            let before = app.composer_of(view);
            &&& after.modal is None
            &&& app.apply_action(Action::Accept) == after
            &&& p.target is Composer ==> after.composer_of(view).text == before.text.take(before.cursor) + text
                + before.text.skip(before.cursor)
            &&& p.target is Composer ==> after.composer_of(view).cursor == before.cursor + text.len()
            &&& p.target is Composer ==> after.pending == app.pending && after.mode is Insert
            &&& p.target is Reaction ==> after.pending == app.pending.push(
                CommandModel::ToggleReaction { view, event_id: p.target->Reaction_event_id, key: text },
            )
            &&& p.target is Reaction ==> after.composers == app.composers && after.mode is Normal
        }),
{
    reveal(AppModel::emoji_action);
    lemma_typed(app.composer_of(view), p.matches[p.selected as int].text);
}

/// The keys of the thread picker: up and down choose, and the chosen thread is opened.
#[verifier::rlimit(50)]
pub proof fn law_the_keys_of_the_thread_picker(app: AppModel, p: ThreadPickerModel, n: u16)
    requires
        app.modal == Some(ModalModel::Threads(p)),
        p.selected < p.threads.len() <= usize::MAX,
    ensures
        app.apply_action(Action::ScrollUp(n)) == app.apply_action(Action::SelectOlder),
        app.apply_action(Action::ScrollDown(n)) == app.apply_action(Action::SelectNewer),
        p.selected > 0 ==> app.apply_action(Action::SelectOlder).modal->0->Threads_0 == (ThreadPickerModel {
            selected: (p.selected - 1) as usize,
            ..p
        }),
        p.selected + 1 < p.threads.len() ==> app.apply_action(Action::SelectNewer).modal->0->Threads_0 == (
        ThreadPickerModel { selected: (p.selected + 1) as usize, ..p }),
        app.apply_action(Action::Cancel).modal is None,
        app.apply_action(Action::OpenThreads).modal is None,
        app.apply_action(Action::Cancel).pending == app.pending,
{
    reveal(AppModel::threads_action);
}

/// The chosen thread is the one that is opened, titled by its first words or else by who began it.
pub proof fn law_the_chosen_thread_is_opened(app: AppModel, p: ThreadPickerModel)
    requires
        app.modal == Some(ModalModel::Threads(p)),
    ensures
        p.selected < p.threads.len() ==> app.apply_action(Action::Accept) == (AppModel {
            modal: None,
            ..app
        }).open_thread_pane(
            p.threads[p.selected as int].root_event_id,
            if p.threads[p.selected as int].preview.len() > 0 {
                p.threads[p.selected as int].preview
            } else {
                p.threads[p.selected as int].sender_display
            },
        ),
        p.selected >= p.threads.len() ==> app.apply_action(Action::Accept).modal == app.modal
            && app.apply_action(Action::Accept).pending == app.pending,
{
    reveal(AppModel::threads_action);
}

// -------------------------------------------------------------------------- answers

/// A verification is answered by what the user said: a request is accepted or cancelled, a match
/// confirmed and a mismatch reported, and whatever is under way can be given up.
#[verifier::rlimit(50)]
pub proof fn law_a_verification_hears_the_answer(app: AppModel, state: VerificationModel)
    requires
        app.modal == Some(ModalModel::Verification(state)),
    ensures
        state is Requested ==> app.apply_action(Action::Approve).pending == app.pending.push(
            CommandModel::AcceptVerification,
        ),
        state is Compare ==> app.apply_action(Action::Approve).pending == app.pending.push(
            CommandModel::ConfirmVerification,
        ),
        state is Compare ==> app.apply_action(Action::Deny).pending == app.pending.push(
            CommandModel::MismatchVerification,
        ),
        !(state is Requested) && !(state is Compare) ==> app.apply_action(Action::Approve).pending == app.pending,
        !(state is Compare) ==> app.apply_action(Action::Deny).pending == app.pending.push(
            CommandModel::CancelVerification,
        ),
        app.apply_action(Action::Cancel).pending == app.pending.push(CommandModel::CancelVerification),
        app.apply_action(Action::Accept) == app.apply_action(Action::Approve),
        app.apply_action(Action::Approve).modal == app.modal,
        app.apply_action(Action::Deny).modal == app.modal,
{
    reveal(AppModel::verification_action);
}

/// The recovery key is typed into its panel, and sent as it was typed.
#[verifier::rlimit(50)]
pub proof fn law_the_recovery_key_is_sent_as_typed(app: AppModel, key: Seq<char>, error: Option<Seq<char>>, c: char)
    requires
        app.modal == Some(ModalModel::Recovery(RecoveryPanelModel::AskKey { key, submitted: false, error })),
    ensures
        app.apply_action(Action::Insert(c)).modal->0->Recovery_0->AskKey_key == key.push(c),
        key.len() > 0 ==> app.apply_action(Action::Backspace).modal->0->Recovery_0->AskKey_key == key.drop_last(),
        app.apply_action(Action::Insert(c)).pending == app.pending,
        trim(key).len() > 0 ==> app.apply_action(Action::Submit).pending == app.pending.push(
            CommandModel::RecoverWithKey(key),
        ),
        trim(key).len() > 0 ==> app.apply_action(Action::Submit).modal->0->Recovery_0->AskKey_submitted
            && app.apply_action(Action::Submit).modal->0->Recovery_0->AskKey_key.len() == 0,
        trim(key).len() == 0 ==> app.apply_action(Action::Submit).pending == app.pending && app.apply_action(
            Action::Submit,
        ).modal is None,
        app.apply_action(Action::Accept) == app.apply_action(Action::Submit),
        app.apply_action(Action::Cancel).modal is None,
        app.apply_action(Action::Cancel).pending == app.pending,
{
    reveal(AppModel::recovery_action);
}

/// Recovery is set up after a yes, and its key replaced after a yes; a no does neither.
#[verifier::rlimit(50)]
pub proof fn law_recovery_is_set_up_after_a_yes(app: AppModel)
    requires
        app.modal is Some,
        app.modal->0 is Recovery,
    ensures
        app.modal->0->Recovery_0 is OfferEnable ==> app.apply_action(Action::Approve).pending == app.pending.push(
            CommandModel::EnableRecovery,
        ),
        app.modal->0->Recovery_0 is OfferEnable ==> app.apply_action(Action::Accept) == app.apply_action(
            Action::Approve,
        ) && app.apply_action(Action::Submit) == app.apply_action(Action::Approve),
        app.modal->0->Recovery_0 is ConfirmReset ==> app.apply_action(Action::Approve).pending == app.pending.push(
            CommandModel::ResetRecoveryKey,
        ),
        app.modal->0->Recovery_0 is OfferEnable || app.modal->0->Recovery_0 is ConfirmReset ==> {
            &&& app.apply_action(Action::Approve).modal is Some
            &&& app.apply_action(Action::Approve).modal->0 is Recovery
            &&& app.apply_action(Action::Approve).modal->0->Recovery_0 is Busy
            &&& app.apply_action(Action::Deny).modal is None
            &&& app.apply_action(Action::Deny).pending == app.pending
            &&& app.apply_action(Action::Cancel).modal is None
            &&& app.apply_action(Action::Cancel).pending == app.pending
        },
{
    reveal(AppModel::recovery_action);
}

/// The help is put away by its key and by leaving, and by nothing else.
pub proof fn law_the_help_is_put_away(app: AppModel, action: Action)
    requires
        app.modal == Some(ModalModel::Help),
    ensures
        action is Cancel || action is ToggleHelp || action is EnterNormal ==> app.apply_action(action).modal is None,
        !(action is Cancel || action is ToggleHelp || action is EnterNormal) ==> app.apply_action(action) == app,
{
}

// -------------------------------------------------------------------------- the bars

/// A click takes the item whose columns hold it, and none where there is none.
pub proof fn law_a_click_takes_what_is_under_it(hits: Seq<Hit>, column: u16)
    ensures
        hit_index(hits, column) is Some ==> exists|i: int|
            0 <= i < hits.len() && (#[trigger] hits[i]).x0 <= column && column < hits[i].x1 && hit_index(hits, column) == Some(
                hits[i].index,
            ),
        hit_index(hits, column) is None ==> forall|i: int|
            0 <= i < hits.len() ==> !((#[trigger] hits[i]).x0 <= column && column < hits[i].x1),
{
    let test = crate::app::state::actions::under(column);
    lemma_first_where(hits, test);
    match first_where(hits, test) {
        Some(i) => {
            assert(hits[i].x0 <= column && column < hits[i].x1);
        },
        None => {
            assert forall|i: int| 0 <= i < hits.len() implies !((#[trigger] hits[i]).x0 <= column && column < hits[i].x1) by {
                assert(!test(hits[i]));
            }
        },
    }
}

/// A click on the row of workspaces shows the workspace under it, one on the row of tabs the tab
/// under it; one elsewhere is not for the bars.
pub proof fn law_a_click_on_a_bar_shows_what_is_there(app: AppModel, column: u16, row: u16)
    requires
        app.bars.workspace_row != app.bars.tab_row,
    ensures
        row == app.bars.workspace_row && app.bars.workspaces.len() > 0 ==> app.click_bar(column, row).1,
        row == app.bars.workspace_row && app.bars.workspaces.len() > 0 && hit_index(app.bars.workspaces, column) is Some
            ==> app.click_bar(column, row).0 == app.show_workspace(hit_index(app.bars.workspaces, column)->0),
        row == app.bars.workspace_row && app.bars.workspaces.len() > 0 && hit_index(app.bars.workspaces, column) is None
            ==> app.click_bar(column, row).0 == app,
        row == app.bars.tab_row ==> app.click_bar(column, row).1,
        row == app.bars.tab_row && app.bars.new_tab is None && hit_index(app.bars.tabs, column) is Some
            ==> app.click_bar(column, row).0 == app.show_tab(hit_index(app.bars.tabs, column)->0),
        row == app.bars.tab_row && app.bars.new_tab is Some && (app.bars.new_tab->0).0 <= column && column < (
        app.bars.new_tab->0).1 ==> app.click_bar(column, row).0 == app.apply_action(Action::NewThread),
        row != app.bars.workspace_row && row != app.bars.tab_row ==> app.click_bar(column, row) == (app, false),
{
    reveal(AppModel::click_tabs);
}

// -------------------------------------------------------------------------- keys and the wheel

/// A key does what it means in the mode it is pressed in.
pub proof fn law_a_key_does_what_it_means(app: AppModel, key: KeyEvent)
    ensures
        app.key(key) == (AppModel { mode: mapped(key, app.mode, app.prefix).1, ..app }).apply_action(
            mapped(key, app.mode, app.prefix).0,
        ),
{
}

/// The wheel scrolls the way it is turned, by three lines; while a border is dragged it does nothing.
pub proof fn law_the_wheel_scrolls_its_way(app: AppModel, view: ViewModel)
    requires
        at_large(app),
        app.focused_view() == Some(view),
        app.scroll_of(view) + 3 <= app.max_scroll(),
        app.scroll_of(view) >= 3,
    ensures
        app.dragging is Some ==> app.wheeled(true) == app && app.wheeled(false) == app,
        app.dragging is None ==> app.wheeled(true).scroll_of(view) == app.scroll_of(view) + 3,
        app.dragging is None ==> app.wheeled(false).scroll_of(view) == app.scroll_of(view) - 3,
{
    law_scrolling_goes_its_way(app, view, 3);
}

/// At first nothing is on show, nothing is asked for, and the keys move.
pub proof fn law_nothing_is_on_show_at_first(config: ConfigModel, saved: LayoutModel, prefix: Prefix)
    ensures
        ({
            let app = AppModel::fresh(config, saved, prefix);
            &&& app.mode is Normal
            &&& app.modal is None
            &&& app.pending.len() == 0
            &&& app.workspaces.items.len() == 0
            &&& app.timelines.dom().is_empty()
            &&& app.composers.dom().is_empty()
            &&& !app.should_quit
            &&& app.status is None
            &&& app.device_verified is None
            &&& app.recovery is Unknown
            &&& app.prefix == prefix
            &&& app.config == config
            &&& app.saved_layout == saved
            &&& app.restoring_focus <==> saved.workspace is Some || !saved.tabs.dom().is_empty()
            &&& app.render_options.auto_expand == config.agent.auto_expand()
            &&& app.render_options.show_commentary == config.agent.show_commentary
        }),
{
}

} // verus!
