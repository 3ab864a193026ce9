//! What holds of the client whatever is pressed and whatever arrives.

use vstd::prelude::*;

use crate::agent::store::{AgentState, SessionModel};
use crate::app::composer::ComposerModel;
use crate::app::keymap::{Action, Mode};
use crate::app::state::actions::meaning;
use crate::app::state::events::{agent_among, roots_in, suspect_room, suspect_view, with_spaces, with_typing};
use crate::app::state::focus::{lemma_focus_moved_keeps, lemma_open_focused_keeps};
use crate::app::state::{AppModel, ModalModel, RecoveryPanelModel, TYPING_IDLE_MS};
use crate::matrix::model::{CommandModel, RoomSummaryModel, VerificationModel, ViewModel, WorkerEventModel};
use crate::text::trim;

verus! {

/// Whether two states show the same panes with the same content, and would send the same.
pub open spec fn same_scene(a: AppModel, b: AppModel) -> bool {
    &&& a.workspaces == b.workspaces
    &&& a.tilings == b.tilings
    &&& a.timelines == b.timelines
    &&& a.agents == b.agents
    &&& a.scroll == b.scroll
    &&& a.selected == b.selected
    &&& a.composing == b.composing
    &&& a.confirm_redact == b.confirm_redact
    &&& a.mentions == b.mentions
    &&& a.overrides == b.overrides
    &&& a.should_quit == b.should_quit
}

/// Nothing acts beneath an overlay: while a question, a search for an emoji or the key list
/// is open, no key moves a pane, a selection or a scroll, and none arms or abandons anything.
pub proof fn law_nothing_acts_beneath_an_overlay(app: AppModel, action: Action)
    requires
        app.modal is Some,
        app.modal->0 is Verification || app.modal->0 is Recovery || app.modal->0 is Emoji || app.modal->0 is Help,
    ensures
        same_scene(app.apply_action(action), app),
{
    reveal(AppModel::verification_action);
    reveal(AppModel::recovery_action);
    reveal(AppModel::emoji_action);
}

/// The thread picker owns every key too; only taking a thread acts on what is beneath it.
pub proof fn law_the_thread_picker_owns_its_keys(app: AppModel, action: Action)
    requires
        app.modal is Some,
        app.modal->0 is Threads,
        !(action is Accept),
    ensures
        same_scene(app.apply_action(action), app),
        app.apply_action(action).pending == app.pending,
{
    reveal(AppModel::threads_action);
}

/// The palette owns every key too; only running a command acts on what is beneath it.
pub proof fn law_the_palette_owns_its_keys(app: AppModel, action: Action)
    requires
        app.modal is Some,
        app.modal->0 is Palette,
        !(action is Accept),
        !(action is Submit),
    ensures
        same_scene(app.apply_action(action), app),
        app.apply_action(action).pending == app.pending,
{
    reveal(AppModel::palette_action);
}

/// A command of the palette is what its key would have been with the palette closed.
pub proof fn law_the_palette_runs_what_is_chosen(app: AppModel, command: crate::app::palette::Command)
    requires
        app.modal is Some,
        app.modal->0 is Palette,
        (app.modal->0->Palette_0).chosen() == Some(command),
    ensures
        app.apply_action(Action::Submit) == app.close_overlay().act(command.action),
        app.close_overlay().modal is None,
{
    reveal(AppModel::palette_action);
}

/// A key of the verification overlay does nothing but answer it.
pub proof fn law_a_verification_is_only_answered(app: AppModel, action: Action)
    requires
        app.modal is Some,
        app.modal->0 is Verification,
    ensures
        app.apply_action(action).modal == app.modal,
        app.apply_action(action).composers == app.composers,
        ({
            let pending = app.apply_action(action).pending;
            ||| pending == app.pending
            ||| pending == app.pending.push(CommandModel::AcceptVerification)
            ||| pending == app.pending.push(CommandModel::ConfirmVerification)
            ||| pending == app.pending.push(CommandModel::MismatchVerification)
            ||| pending == app.pending.push(CommandModel::CancelVerification)
        }),
{
    reveal(AppModel::verification_action);
}

/// Keys are trusted only by a yes to the comparison that is on the screen.
pub proof fn law_only_a_comparison_is_confirmed(app: AppModel, action: Action)
    requires
        app.modal is Some,
        app.modal->0 is Verification,
        app.apply_action(action).pending == app.pending.push(CommandModel::ConfirmVerification),
    ensures
        app.modal->0->Verification_0 is Compare,
        action is Approve || action is Accept,
{
    reveal(AppModel::verification_action);
    let pending = app.apply_action(action).pending;
    assert(pending.last() == CommandModel::ConfirmVerification);
    assert(app.pending.push(CommandModel::AcceptVerification).last() == CommandModel::AcceptVerification);
    assert(app.pending.push(CommandModel::MismatchVerification).last() == CommandModel::MismatchVerification);
    assert(app.pending.push(CommandModel::CancelVerification).last() == CommandModel::CancelVerification);
    assert(pending.len() == app.pending.len() + 1);
}

/// A recovery key that is being typed goes to the worker, and nowhere else: not into a
/// composer, and not into the status line.
pub proof fn law_a_secret_stays_in_its_panel(
    app: AppModel,
    key: Seq<char>,
    submitted: bool,
    error: Option<Seq<char>>,
    action: Action,
)
    requires
        app.modal == Some(ModalModel::Recovery(RecoveryPanelModel::AskKey { key, submitted, error })),
    ensures
        app.apply_action(action).composers == app.composers,
        app.apply_action(action).pending == app.pending || app.apply_action(action).pending == app.pending.push(
            CommandModel::RecoverWithKey(key),
        ),
        app.apply_action(action).status == app.status || app.apply_action(action).status == Some(
            "no recovery key entered"@,
        ) || app.apply_action(action).status == Some("unlocking secret storage…"@),
{
    reveal(AppModel::recovery_action);
}

/// A recovery key that is sent leaves the panel, and none is sent again while an answer to it
/// is awaited.
pub proof fn law_a_key_is_sent_once(
    app: AppModel,
    key: Seq<char>,
    submitted: bool,
    error: Option<Seq<char>>,
    action: Action,
)
    requires
        app.modal == Some(ModalModel::Recovery(RecoveryPanelModel::AskKey { key, submitted, error })),
    ensures
        submitted ==> app.apply_action(action).pending == app.pending,
        app.apply_action(action).pending != app.pending ==> app.apply_action(action).modal == Some(
            ModalModel::Recovery(RecoveryPanelModel::AskKey { key: Seq::empty(), submitted: true, error }),
        ),
{
    reveal(AppModel::recovery_action);
}

/// A working recovery key is replaced only by an explicit yes.
pub proof fn law_replacing_a_key_takes_a_yes(app: AppModel, action: Action)
    requires
        app.modal == Some(ModalModel::Recovery(RecoveryPanelModel::ConfirmReset)),
        !(action is Approve),
    ensures
        app.apply_action(action).pending == app.pending,
{
    reveal(AppModel::recovery_action);
}

/// A newly created key stays on the screen until it is acknowledged.
pub proof fn law_a_new_key_is_put_away_on_purpose(app: AppModel, key: Seq<char>, action: Action)
    requires
        app.modal == Some(ModalModel::Recovery(RecoveryPanelModel::ShowKey { key })),
        app.apply_action(action).modal != app.modal,
    ensures
        meaning(action) is Submit || meaning(action) is Accept || meaning(action) is Approve || meaning(
            action,
        ) is Cancel,
{
    reveal(AppModel::recovery_action);
}

/// Deleting takes two presses on the same message, and sends one redaction.
pub proof fn law_deleting_takes_two_presses(app: AppModel, id: Seq<char>)
    requires
        app.selected_event() == Some(id),
        app.confirm_redact != Some(id),
    ensures
        app.redact_selected().pending == app.pending,
        app.redact_selected().redact_selected().pending == app.pending.push(
            CommandModel::Redact { view: app.focused_view()->0, event_id: id },
        ),
        app.redact_selected().redact_selected().confirm_redact is None,
{
    let armed = app.redact_selected();
    assert(armed.focused_view() == app.focused_view());
    assert(armed.selected_event() == app.selected_event());
}

/// While the user goes on typing, the room is not told again before the notice is due.
pub proof fn law_typing_is_not_told_twice(app: AppModel, now: u64, later: u64)
    requires
        app.typing is Some,
        app.typing->0.dirty,
        now <= later,
        later - now < TYPING_IDLE_MS,
    ensures
        app.tick_typing(now).tick_typing(later) == app.tick_typing(now),
{
}

/// A keypress, and then a pause: the room is told that the user types, and then that they
/// stopped.
pub proof fn law_a_pause_is_told(app: AppModel, now: u64, later: u64)
    requires
        app.typing is Some,
        app.typing->0.dirty,
        !app.typing->0.active,
        later - now >= TYPING_IDLE_MS,
    ensures
        app.tick_typing(now).pending == app.pending.push(
            CommandModel::SendTyping { room_id: app.typing->0.room_id, typing: true },
        ),
        app.tick_typing(now).tick_typing(later).typing is None,
        app.tick_typing(now).tick_typing(later).pending == app.tick_typing(now).pending.push(
            CommandModel::SendTyping { room_id: app.typing->0.room_id, typing: false },
        ),
{
}

/// Whatever ends the typing leaves no room believing that it goes on.
pub proof fn law_typing_ends(app: AppModel)
    ensures
        app.stop_typing().typing is None,
        app.submit().typing is None,
        app.cancel().typing is None,
        app.perform(Action::Quit).typing is None,
        app.typing is Some && app.typing->0.active ==> app.stop_typing().pending == app.pending.push(
            CommandModel::SendTyping { room_id: app.typing->0.room_id, typing: false },
        ),
{
}

/// While an agent types in a room, each thread on show there reads as working, or waits for
/// an answer, whether or not anything of its session has arrived.
pub proof fn law_a_typing_agent_is_at_work(app: AppModel, room_id: Seq<char>, users: Seq<Seq<char>>, root: Seq<char>)
    requires
        agent_among(app.config.agent, users),
        roots_in(app.workspaces.items, room_id).contains(root),
    ensures
        app.typing_arrived(room_id, users).agents.contains_key(root),
        ({
            let state = app.typing_arrived(room_id, users).agents[root].state();
            state is Working || state is Blocked
        }),
{
    reveal(AppModel::typing_arrived);
    lemma_typing_reaches(app.agents, roots_in(app.workspaces.items, room_id), root);
}

proof fn lemma_typing_reaches(agents: Map<Seq<char>, SessionModel>, ids: Seq<Seq<char>>, id: Seq<char>)
    requires
        ids.contains(id),
    ensures
        with_typing(agents, ids, true).contains_key(id),
        with_typing(agents, ids, true)[id].typing,
    decreases ids.len(),
{
    if ids.last() != id {
        let i = choose|i: int| 0 <= i < ids.len() && ids[i] == id;
        assert(ids.drop_last()[i] == id);
        lemma_typing_reaches(agents, ids.drop_last(), id);
    }
}

/// Older messages are not asked for while an answer is awaited.
pub proof fn law_older_messages_are_not_asked_for_twice(app: AppModel, view: ViewModel, scroll: int)
    requires
        app.paginating.contains(view),
    ensures
        app.paginate_if_near_top(view, scroll) == app,
{
}

/// At the start of a room nothing older is asked for.
pub proof fn law_nothing_is_asked_for_before_the_start(app: AppModel, view: ViewModel, scroll: int)
    requires
        app.at_start(view),
    ensures
        app.paginate_if_near_top(view, scroll) == app,
{
}

/// A snapshot of a view, whatever it holds, lets its older messages be asked for again.
pub proof fn law_an_answer_clears_the_request(
    app: AppModel,
    view: ViewModel,
    entries: Seq<crate::matrix::model::EntryModel>,
)
    ensures
        !app.timeline_arrived(view, entries).paginating.contains(view),
        app.timeline_arrived(view, entries).timelines[view] == entries,
{
    reveal(AppModel::timeline_arrived);
}

/// Whether the rooms that are held suspect are exactly those of which some loaded timeline
/// holds a message that cannot be vouched for.
pub open spec fn suspicion_is_right(app: AppModel) -> bool {
    forall|room_id: Seq<char>| #[trigger] app.unverified_rooms.contains(room_id) <==> suspect_room(app.timelines, room_id)
}

/// A room is as suspect as what is loaded of it, whatever arrives.
pub proof fn law_a_room_is_as_suspect_as_its_history(app: AppModel, event: WorkerEventModel)
    requires
        suspicion_is_right(app),
    ensures
        suspicion_is_right(app.apply_worker_event(event)),
{
    match event {
        WorkerEventModel::Rooms(rooms) => {
            reveal(AppModel::apply_rooms);
            lemma_rooms_keep_history(AppModel { workspaces: with_spaces(app.workspaces, rooms), ..app }, rooms, rooms.len());
            lemma_open_focused_keeps(app.apply_rooms(rooms));
        },
        WorkerEventModel::Timeline { view, entries } => {
            reveal(AppModel::timeline_arrived);
            let after = app.timeline_arrived(view, entries);
            assert forall|room_id: Seq<char>|
                room_id != view.room_id implies suspect_room(after.timelines, room_id) == suspect_room(
                app.timelines,
                room_id,
            ) by {
                assert forall|v: ViewModel| suspect_view(after.timelines, room_id, v) == suspect_view(
                    app.timelines,
                    room_id,
                    v,
                ) by {}
                if suspect_room(after.timelines, room_id) {
                    let v = choose|v: ViewModel| suspect_view(after.timelines, room_id, v);
                    assert(suspect_view(app.timelines, room_id, v));
                }
                if suspect_room(app.timelines, room_id) {
                    let v = choose|v: ViewModel| suspect_view(app.timelines, room_id, v);
                    assert(suspect_view(after.timelines, room_id, v));
                }
            }
        },
        WorkerEventModel::Typing { .. } => {
            reveal(AppModel::typing_arrived);
        },
        WorkerEventModel::Threads { .. } => {
            reveal(AppModel::threads_arrived);
        },
        WorkerEventModel::Members { .. } => {
            reveal(AppModel::members_arrived);
        },
        _ => {
            reveal(AppModel::account_event);
            reveal(AppModel::verification_arrived);
            reveal(AppModel::recovery_arrived);
            reveal(AppModel::recovery_failed);
        },
    }
}

proof fn lemma_rooms_keep_history(app: AppModel, rooms: Seq<RoomSummaryModel>, n: nat)
    requires
        n <= rooms.len(),
    ensures
        app.rooms_arrived(rooms, n).timelines == app.timelines,
        app.rooms_arrived(rooms, n).unverified_rooms == app.unverified_rooms,
    decreases n,
{
    if n > 0 {
        lemma_rooms_keep_history(app, rooms, (n - 1) as nat);
    }
}

/// A room's members are asked for once.
pub proof fn law_a_roster_is_asked_for_once(app: AppModel)
    ensures
        app.ask_for_members().ask_for_members() == app.ask_for_members(),
{
    let asked = app.ask_for_members();
    assert(asked.focused_room() == app.focused_room());
}

/// A view that is streamed already is not opened again.
pub proof fn law_a_view_is_opened_once(app: AppModel, view: ViewModel)
    requires
        app.timelines.contains_key(view),
    ensures
        app.open_view(view) == app,
{
}

/// A message that is sent leaves an empty composer and no reply or edit behind, and is the
/// last thing the worker is asked for.
pub proof fn law_a_message_is_sent_once(app: AppModel, view: ViewModel)
    requires
        app.focused_view() == Some(view),
        trim(app.composer_of(view).text).len() > 0,
    ensures
        app.submit().pending.last() == app.sending(view, trim(app.composer_of(view).text)),
        app.submit().composing is None,
        app.submit().composer_of(view).text.len() == 0,
        app.submit().submit().pending == app.submit().pending,
{
    let sent = app.submit();
    assert(sent.focused_view() == app.focused_view());
    assert(sent.composer_of(view).text.len() == 0);
    assert(trim(sent.composer_of(view).text).len() == 0);
}

/// A blank message is not sent.
pub proof fn law_a_blank_message_is_not_sent(app: AppModel, view: ViewModel)
    requires
        app.focused_view() == Some(view),
        trim(app.composer_of(view).text).len() == 0,
    ensures
        app.submit().pending == app.stop_typing().pending,
        app.submit().composing == app.composing,
{
}

/// A draft survives leaving its view, and typing elsewhere.
pub proof fn law_a_draft_survives(app: AppModel, view: ViewModel, edit: spec_fn(ComposerModel) -> ComposerModel)
    requires
        app.focused_view() != Some(view),
    ensures
        app.edited(edit).composer_of(view) == app.composer_of(view),
        app.focus_moved().composers == app.composers,
{
    lemma_focus_moved_keeps(app);
}

/// Scrolling stays inside the transcript.
pub proof fn law_scrolling_stays_in_the_transcript(app: AppModel, view: ViewModel, delta: int)
    requires
        app.focused_view() == Some(view),
    ensures
        app.scroll_by(delta).scroll_of(view) <= app.max_scroll(),
{
}

/// Scrolling up and back down by as much ends where it began, if the top was not met.
pub proof fn law_scrolling_back_returns(app: AppModel, view: ViewModel, lines: int)
    requires
        app.focused_view() == Some(view),
        0 <= lines,
        app.scroll_of(view) + lines <= app.max_scroll(),
    ensures
        app.scroll_by(-lines).scroll_by(lines).scroll_of(view) == app.scroll_of(view),
{
    let up = app.scroll_by(-lines);
    assert(up.focused_view() == app.focused_view());
    assert(up.max_scroll() == app.max_scroll());
    assert(up.scroll_of(view) == app.scroll_of(view) + lines);
}

/// A thread that is open already is focused rather than opened again.
pub proof fn law_a_thread_is_opened_once(app: AppModel, root: Seq<char>, title: Seq<char>)
    requires
        app.focused_tab() is Some,
        app.focused_tab()->0.pane_for_thread(root) is Some,
    ensures
        app.open_thread_pane(root, title) == app.focus_pane_id(app.focused_tab()->0.pane_for_thread(root)->0.id),
{
    reveal(AppModel::open_thread_pane);
}

/// Once the user has moved the focus, arriving rooms no longer move it for them.
pub proof fn law_the_user_ends_the_restore(app: AppModel)
    ensures
        !app.focus_moved().restoring_focus,
        app.focus_moved().restore_focus() == app.focus_moved(),
{
    reveal(AppModel::focus_moved);
    let moved = AppModel {
        mentions: None,
        needs_redraw: true,
        restoring_focus: false,
        layout_dirty: true,
        ..app.stop_typing()
    };
    lemma_seen_keeps_restoring(moved);
    lemma_open_keeps_restoring(moved.mark_focused_seen());
}

proof fn lemma_seen_keeps_restoring(app: AppModel)
    ensures
        app.mark_focused_seen().restoring_focus == app.restoring_focus,
{
}

proof fn lemma_open_keeps_restoring(app: AppModel)
    ensures
        app.open_focused_view().restoring_focus == app.restoring_focus,
{
    let views = match app.focused_tab() {
        Some(tab) => tab.panes.map_values(
            |p: crate::layout::model::PaneModel| crate::app::state::focus::pane_view(p),
        ),
        None => Seq::empty(),
    };
    crate::app::state::focus::lemma_open_views_keeps(app, views);
}

/// Looking at a finished session settles it: its badge is no longer `Done`.
pub proof fn law_looking_settles_a_session(app: AppModel, root: Seq<char>)
    requires
        app.focused_view() is Some,
        app.focused_view()->0.thread_root == Some(root),
        app.agents.contains_key(root),
    ensures
        app.mark_focused_seen().agents[root].seen,
        app.mark_focused_seen().agents[root].state() != AgentState::Done,
{
}

/// A request to verify takes over whatever was on the screen.
pub proof fn law_a_verification_takes_over(app: AppModel, state: VerificationModel)
    requires
        !(state is Done),
        !(state is Cancelled),
    ensures
        app.verification_arrived(state).modal == Some(ModalModel::Verification(state)),
{
    reveal(AppModel::verification_arrived);
}

/// A mention picker with nobody to offer swallows no key: the message is sent.
pub proof fn law_an_empty_picker_swallows_nothing(app: AppModel)
    requires
        app.modal is None,
        !app.offering(),
    ensures
        app.apply_action(Action::Submit) == app.submit(),
{
    reveal(crate::app::state::actions::touching);
}

/// Stepping back from a mention picker leaves the composer as it was, and the user in it.
pub proof fn law_stepping_back_closes_only_the_picker(app: AppModel)
    requires
        app.modal is None,
        app.offering(),
    ensures
        app.apply_action(Action::Cancel).mentions is None,
        app.apply_action(Action::Cancel).mode == Mode::Insert,
        app.apply_action(Action::Cancel).composers == app.composers,
        app.apply_action(Action::Cancel).composing == app.composing,
{
    reveal(AppModel::mention_action);
}

} // verus!
