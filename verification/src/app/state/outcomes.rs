//! What each key press comes to, told by what is on the screen and what the worker is asked for.

use vstd::prelude::*;

use crate::agent::protocol::{ApprovalModel, ToolModel};
use crate::agent::store::{has_prompt, without_prompt, PendingModel as PromptModel};
use crate::app::keymap::Action;
use crate::app::state::actions::touching;
use crate::app::state::transcript::{answer_emoji, message_ids, newest_card, prompt_event};
use crate::app::state::{AppModel, PendingModel, PAGINATE_MARGIN};
use crate::matrix::model::{CommandModel, EntryModel, ViewModel};
use crate::seqs::{first_where, lemma_first_where};
use crate::text::{headline, trim};

verus! {

/// Whether the keys go to the panes: no overlay is open, and no name is being offered.
pub open spec fn at_large(app: AppModel) -> bool {
    app.modal is None && (app.mentions is None || app.mentions->0.matches.len() == 0)
}

// -------------------------------------------------------------------------- answering

/// Whether an entry is the request for an approval.
pub open spec fn requests(entry: EntryModel, id: Seq<char>) -> bool {
    &&& entry.event_id is Some
    &&& entry.kind is Message
    &&& entry.kind->Message_0.agent is Structured
    &&& entry.kind->Message_0.agent->Structured_event.approval is Some
    &&& entry.kind->Message_0.agent->Structured_event.approval->0.id == id
}

/// Whether an emoji is one that an agent advertised for a choice.
pub open spec fn advertised(reactions: Seq<(Seq<char>, Seq<char>)>, emoji: Seq<char>, choice: Seq<char>) -> bool {
    exists|i: int| 0 <= i < reactions.len() && #[trigger] reactions[i] == (emoji, choice)
}

/// Whether an agent advertised some emoji for a choice.
pub open spec fn offers(reactions: Seq<(Seq<char>, Seq<char>)>, choice: Seq<char>) -> bool {
    exists|i: int| 0 <= i < reactions.len() && (#[trigger] reactions[i]).1 == choice
}

/// The word for an answer.
pub open spec fn choice_of(approve: bool) -> Seq<char> {
    if approve {
        "approve"@
    } else {
        "deny"@
    }
}

proof fn lemma_answer(reactions: Seq<(Seq<char>, Seq<char>)>, approve: bool)
    ensures
        offers(reactions, choice_of(approve)) ==> advertised(
            reactions,
            answer_emoji(reactions, approve),
            choice_of(approve),
        ),
        !offers(reactions, choice_of(approve)) ==> answer_emoji(reactions, approve) == (if approve {
            "✅"@
        } else {
            "❌"@
        }),
{
    let wanted = choice_of(approve);
    let test = crate::app::state::transcript::stands_for(wanted);
    lemma_first_where(reactions, test);
    match first_where(reactions, test) {
        Some(i) => {
            assert(reactions[i] == (answer_emoji(reactions, approve), wanted));
        },
        None => {
            if offers(reactions, wanted) {
                let i = choose|i: int| 0 <= i < reactions.len() && (#[trigger] reactions[i]).1 == wanted;
                assert(test(reactions[i]));
            }
        },
    }
}

proof fn lemma_prompt_event(entries: Seq<EntryModel>, id: Seq<char>, k: int)
    requires
        0 <= k < entries.len(),
        requests(entries[k], id),
        forall|j: int| k < j < entries.len() ==> !requests(#[trigger] entries[j], id),
    ensures
        prompt_event(entries, id) == entries[k].event_id,
    decreases entries.len(),
{
    let n = entries.len() - 1;
    if k < n {
        assert(!requests(entries[n], id));
        let rest = entries.drop_last();
        assert forall|j: int| k < j < rest.len() implies !requests(#[trigger] rest[j], id) by {
            assert(rest[j] == entries[j]);
        }
        lemma_prompt_event(rest, id, k);
    }
}

/// A key answers the oldest approval that the focused thread waits on, by a reaction to the event
/// that last asked for it. The reaction is one that the agent takes for that answer: never one for
/// the other. Where the agent named none, it is the customary one.
pub proof fn law_an_approval_is_answered(
    app: AppModel,
    approve: bool,
    view: ViewModel,
    root: Seq<char>,
    approval: ApprovalModel,
    k: int,
)
    requires
        at_large(app),
        app.focused_view() == Some(view),
        view.thread_root == Some(root),
        app.agents.contains_key(root),
        app.agents[root].pending.len() > 0,
        app.agents[root].pending[0] == PromptModel::Approval(approval),
        app.timelines.contains_key(view),
        0 <= k < app.timelines[view].len(),
        requests(app.timelines[view][k], approval.id),
        forall|j: int| k < j < app.timelines[view].len() ==> !requests(#[trigger] app.timelines[view][j], approval.id),
    ensures
        ({
            let after = app.apply_action(if approve {
                Action::Approve
            } else {
                Action::Deny
            });
            let choice = if approve {
                "approve"@
            } else {
                "deny"@
            };
            &&& after.pending.len() == app.pending.len() + 1
            &&& after.pending.drop_last() == app.pending
            &&& after.pending.last() is ToggleReaction
            &&& after.pending.last()->ToggleReaction_view == view
            &&& app.timelines[view][k].event_id == Some(after.pending.last()->ToggleReaction_event_id)
            &&& offers(approval.reactions, choice) ==> advertised(
                approval.reactions,
                after.pending.last()->ToggleReaction_key,
                choice,
            )
            &&& !offers(approval.reactions, choice) ==> after.pending.last()->ToggleReaction_key == (if approve {
                "✅"@
            } else {
                "❌"@
            })
            &&& after.agents.contains_key(root)
            &&& !has_prompt(after.agents[root].pending, approval.id)
        }),
{
    reveal(AppModel::read_action);
    reveal(touching);
    lemma_prompt_event(app.timelines[view], approval.id, k);
    lemma_answer(approval.reactions, approve);
    let after = app.resolve_prompt(approve);
    assert(after.pending.drop_last() =~= app.pending);
    lemma_gone(app.agents[root].pending, approval.id);
}

proof fn lemma_gone(pending: Seq<PromptModel>, id: Seq<char>)
    ensures
        !has_prompt(without_prompt(pending, id), id),
{
    let keep = |p: PromptModel| p.id() != id;
    let left = pending.filter(keep);
    if has_prompt(left, id) {
        let i = choose|i: int| 0 <= i < left.len() && (#[trigger] left[i]).id() == id;
        pending.lemma_filter_pred(keep, i);
    }
}

/// Where both answers are advertised, and no emoji stands for both, the two keys send different
/// reactions; so they do where neither is.
pub proof fn law_yes_is_not_no(reactions: Seq<(Seq<char>, Seq<char>)>)
    requires
        offers(reactions, "approve"@) <==> offers(reactions, "deny"@),
        forall|emoji: Seq<char>|
            !(#[trigger] advertised(reactions, emoji, "approve"@) && advertised(reactions, emoji, "deny"@)),
    ensures
        answer_emoji(reactions, true) != answer_emoji(reactions, false),
{
    reveal_strlit("✅");
    reveal_strlit("❌");
    assert("✅"@[0] != "❌"@[0]);
    lemma_answer(reactions, true);
    lemma_answer(reactions, false);
}

/// A prompt that cannot be answered so is not: nothing is sent where nothing waits, where a model
/// is to be chosen, or where the request is not shown.
pub proof fn law_nothing_else_is_answered(app: AppModel, approve: bool)
    ensures
        app.focused_view() is None ==> app.resolve_prompt(approve) == app,
        app.focused_view() is Some && app.focused_view()->0.thread_root is None ==> app.resolve_prompt(approve) == app,
        app.focused_prompt() is None ==> app.resolve_prompt(approve).pending == app.pending,
        (app.focused_prompt() matches Some(PromptModel::Picker(_)) ==> app.resolve_prompt(approve).pending == app.pending),
        app.resolve_prompt(approve).timelines == app.timelines,
        app.resolve_prompt(approve).composers == app.composers,
        app.resolve_prompt(approve).modal == app.modal,
{
}

// -------------------------------------------------------------------------- scrolling

/// Scrolling up goes back in the transcript by as many lines, and no further than its top;
/// scrolling down comes forward by as many, and no further than its end.
#[verifier::rlimit(50)]
pub proof fn law_scrolling_goes_its_way(app: AppModel, view: ViewModel, n: u16)
    requires
        at_large(app),
        app.focused_view() == Some(view),
        app.scroll_of(view) <= app.max_scroll(),
    ensures
        ({
            let from = app.scroll_of(view);
            let up = app.apply_action(Action::ScrollUp(n)).scroll_of(view);
            let down = app.apply_action(Action::ScrollDown(n)).scroll_of(view);
            &&& from + n <= app.max_scroll() ==> up == from + n
            &&& from + n > app.max_scroll() ==> up == app.max_scroll()
            &&& n <= from ==> down == from - n
            &&& n > from ==> down == 0
        }),
        app.apply_action(Action::ScrollTop).scroll_of(view) == app.max_scroll(),
        app.apply_action(Action::ScrollBottom).scroll_of(view) == 0,
        app.rendered_lines >= app.viewport_height ==> app.max_scroll() == app.rendered_lines - app.viewport_height,
        app.rendered_lines < app.viewport_height ==> app.max_scroll() == 0,
{
    reveal(AppModel::read_action);
    reveal(touching);
}

/// Older messages are asked for at the top.
pub proof fn law_the_top_asks_for_more(app: AppModel, view: ViewModel)
    requires
        at_large(app),
        app.focused_view() == Some(view),
        !app.paginating.contains(view),
        !(app.timelines.contains_key(view) && app.timelines[view].len() > 0
            && app.timelines[view][0].kind is TimelineStart),
    ensures
        app.apply_action(Action::ScrollTop).pending == app.pending.push(CommandModel::Paginate { view, count: 0 }),
        app.apply_action(Action::ScrollTop).paginating.contains(view),
{
    reveal(AppModel::read_action);
    reveal(touching);
}

/// They are asked for on the way up once the top is near, and not before.
pub proof fn law_nearing_the_top_asks_for_more(app: AppModel, view: ViewModel, n: u16)
    requires
        at_large(app),
        app.focused_view() == Some(view),
        !app.paginating.contains(view),
        !(app.timelines.contains_key(view) && app.timelines[view].len() > 0
            && app.timelines[view][0].kind is TimelineStart),
        n > 0,
    ensures
        ({
            let after = app.apply_action(Action::ScrollUp(n));
            if after.scroll_of(view) + PAGINATE_MARGIN >= app.max_scroll() {
                after.pending == app.pending.push(CommandModel::Paginate { view, count: 0 })
            } else {
                after.pending == app.pending
            }
        }),
{
    reveal(AppModel::read_action);
    reveal(touching);
}

/// Nothing is asked for on the way down, nor at the end of a transcript that is not short.
pub proof fn law_scrolling_down_asks_for_nothing(app: AppModel, view: ViewModel, n: u16)
    requires
        at_large(app),
        app.focused_view() == Some(view),
    ensures
        app.apply_action(Action::ScrollDown(n)).pending == app.pending,
        app.apply_action(Action::ScrollDown(n)).selected == app.selected,
{
    reveal(AppModel::read_action);
    reveal(touching);
}

// -------------------------------------------------------------------------- selecting

/// Only messages can be selected, and every message that has arrived can, in their order.
pub proof fn law_messages_can_be_selected(entries: Seq<EntryModel>, id: Seq<char>)
    ensures
        message_ids(entries).contains(id) <==> exists|i: int|
            0 <= i < entries.len() && (#[trigger] entries[i]).kind is Message && entries[i].event_id == Some(id),
    decreases entries.len(),
{
    if entries.len() > 0 {
        let rest = entries.drop_last();
        let n = entries.len() - 1;
        let ids = message_ids(entries);
        let before = message_ids(rest);
        law_messages_can_be_selected(rest, id);
        if ids.contains(id) {
            let k = ids.index_of(id);
            if k < before.len() {
                assert(before[k] == id);
                let i = choose|i: int|
                    0 <= i < rest.len() && (#[trigger] rest[i]).kind is Message && rest[i].event_id == Some(id);
                assert(entries[i] == rest[i]);
            } else {
                assert(entries[n].event_id == Some(id));
            }
        }
        if exists|i: int|
            0 <= i < entries.len() && (#[trigger] entries[i]).kind is Message && entries[i].event_id == Some(id) {
            let i = choose|i: int|
                0 <= i < entries.len() && (#[trigger] entries[i]).kind is Message && entries[i].event_id == Some(id);
            if i < n {
                assert(rest[i] == entries[i]);
                let k = before.index_of(id);
                assert(ids[k] == id);
            } else {
                assert(ids[ids.len() - 1] == id);
            }
        }
    }
}

/// What can be selected keeps the order of the transcript.
pub proof fn law_messages_are_selected_in_order(a: Seq<EntryModel>, b: Seq<EntryModel>)
    ensures
        message_ids(a + b) == message_ids(a) + message_ids(b),
    decreases b.len(),
{
    if b.len() == 0 {
        assert(a + b =~= a);
        assert(message_ids(a) + message_ids(b) =~= message_ids(a));
    } else {
        assert((a + b).drop_last() =~= a + b.drop_last());
        assert((a + b).last() == b.last());
        law_messages_are_selected_in_order(a, b.drop_last());
        assert(message_ids(a + b) =~= message_ids(a) + message_ids(b));
    }
}

/// What can be selected is what the focused view shows.
pub proof fn law_the_focused_view_is_selected_in(app: AppModel, view: ViewModel)
    requires
        app.focused_view() == Some(view),
    ensures
        app.timelines.contains_key(view) ==> app.selectable() == message_ids(app.timelines[view]),
        !app.timelines.contains_key(view) ==> app.selectable().len() == 0,
{
}

/// The focused view is of the focused pane, in the focused tab of the focused workspace.
pub proof fn law_the_focus_is_on_a_pane(app: AppModel)
    requires
        app.workspaces.focused < app.workspaces.items.len(),
        ({
            let w = app.workspaces.items[app.workspaces.focused as int];
            w.focused < w.tabs.len()
        }),
    ensures
        ({
            let w = app.workspaces.items[app.workspaces.focused as int];
            let tab = w.tabs[w.focused as int];
            &&& app.focused_tab() == Some(tab)
            &&& app.focused_room() == Some(tab.room_id)
            &&& tab.focused < tab.panes.len() ==> app.focused_view() is Some && app.focused_view()->0.room_id == tab.room_id
            &&& tab.focused < tab.panes.len() && tab.panes[tab.focused as int].kind is Room
                ==> app.focused_view()->0.thread_root is None
            &&& tab.focused < tab.panes.len() && tab.panes[tab.focused as int].kind is Thread
                ==> app.focused_view()->0.thread_root == Some(tab.panes[tab.focused as int].kind->Thread_root)
        }),
{
}

/// Moving the selection goes one message older, or one newer, and stops at the ends; with nothing
/// selected it begins at the newest.
#[verifier::rlimit(50)]
pub proof fn law_the_selection_moves_by_one(app: AppModel, view: ViewModel, i: int)
    requires
        at_large(app),
        app.focused_view() == Some(view),
        0 <= i < app.selectable().len(),
        app.selected.contains_key(view),
        app.selected[view] == app.selectable()[i],
        forall|j: int| 0 <= j < i ==> #[trigger] app.selectable()[j] != app.selectable()[i],
    ensures
        ({
            let ids = app.selectable();
            let older = app.apply_action(Action::SelectOlder).selected[view];
            let newer = app.apply_action(Action::SelectNewer).selected[view];
            &&& i > 0 ==> older == ids[i - 1]
            &&& i == 0 ==> older == ids[0]
            &&& i + 1 < ids.len() ==> newer == ids[i + 1]
            &&& i + 1 == ids.len() ==> newer == ids[i]
        }),
{
    reveal(AppModel::read_action);
    reveal(touching);
    let ids = app.selectable();
    let test = crate::app::state::transcript::being(app.selected[view]);
    assert(test(ids[i]));
    lemma_first_where(ids, test);
    let k = first_where(ids, test)->0;
    assert(k == i) by {
        if k < i {
            assert(ids[k] == ids[i]);
        }
        if i < k {
            assert(!test(ids[i]));
        }
    }
}

/// With nothing selected, either key selects the newest message and shows it.
#[verifier::rlimit(50)]
pub proof fn law_selecting_begins_at_the_newest(app: AppModel, view: ViewModel)
    requires
        at_large(app),
        app.focused_view() == Some(view),
        app.selectable().len() > 0,
        !app.selected.contains_key(view),
    ensures
        app.apply_action(Action::SelectOlder).selected[view] == app.selectable().last(),
        app.apply_action(Action::SelectNewer).selected[view] == app.selectable().last(),
        app.apply_action(Action::SelectOlder).scroll_of(view) == 0,
{
    reveal(AppModel::read_action);
    reveal(touching);
}

// ------------------------------------------------------------- replying, editing, deleting

/// A reply is to the selected message, and is written next; without one, nothing is begun.
pub proof fn law_a_reply_is_to_the_selection(app: AppModel, view: ViewModel)
    requires
        at_large(app),
        app.focused_view() == Some(view),
    ensures
        app.selected.contains_key(view) ==> app.apply_action(Action::Reply).composing == Some(
            PendingModel::Reply(app.selected[view]),
        ) && app.apply_action(Action::Reply).mode is Insert,
        !app.selected.contains_key(view) ==> app.apply_action(Action::Reply).composing == app.composing
            && app.apply_action(Action::Reply).mode == app.mode,
        app.apply_action(Action::Reply).pending == app.pending,
        app.apply_action(Action::Reply).composers == app.composers,
{
    reveal(AppModel::read_action);
    reveal(touching);
}

/// Only an own message is edited: its text is loaded into the composer, and what is written next
/// replaces it.
pub proof fn law_an_own_message_is_edited(app: AppModel, view: ViewModel, i: int)
    requires
        at_large(app),
        app.focused_view() == Some(view),
        app.selected.contains_key(view),
        app.timelines.contains_key(view),
        0 <= i < app.timelines[view].len(),
        app.timelines[view][i].event_id == Some(app.selected[view]),
        app.timelines[view][i].kind is Message,
        forall|j: int| 0 <= j < i ==> (#[trigger] app.timelines[view][j]).event_id != Some(app.selected[view]),
    ensures
        ({
            let message = app.timelines[view][i].kind->Message_0;
            let after = app.apply_action(Action::EditMessage);
            &&& message.is_own ==> after.composing == Some(PendingModel::Edit(app.selected[view]))
            &&& message.is_own ==> after.composer_of(view).text == message.body
            &&& message.is_own ==> after.mode is Insert
            &&& !message.is_own ==> after.composing == app.composing && after.composers == app.composers && after.mode
                == app.mode
            &&& after.pending == app.pending
        }),
{
    reveal(AppModel::read_action);
    reveal(touching);
    let entries = app.timelines[view];
    let test = crate::app::state::transcript::of_event(app.selected[view]);
    lemma_first_where(entries, test);
    assert(test(entries[i]));
    let k = first_where(entries, test)->0;
    assert(k == i) by {
        if k < i {
            assert(entries[k].event_id == Some(app.selected[view]));
        }
        if i < k {
            assert(!test(entries[i]));
        }
    }
}

/// What is deleted is the selected message, at the second key.
pub proof fn law_the_selection_is_deleted(app: AppModel, view: ViewModel)
    requires
        at_large(app),
        app.focused_view() == Some(view),
        app.selected.contains_key(view),
    ensures
        ({
            let id = app.selected[view];
            let once = app.apply_action(Action::RedactMessage);
            &&& app.confirm_redact == Some(id) ==> once.pending == app.pending.push(
                CommandModel::Redact { view, event_id: id },
            ) && once.confirm_redact is None
            &&& app.confirm_redact != Some(id) ==> once.pending == app.pending && once.confirm_redact == Some(id)
        }),
{
    reveal(AppModel::read_action);
    reveal(touching);
}

/// A message is sent as what it was begun as: a reply to its message, a replacement of its
/// message, or a message of its own; into the view it was written in, with the people it names.
pub proof fn law_a_message_is_sent_as_it_was_begun(app: AppModel, view: ViewModel)
    requires
        at_large(app),
        app.focused_view() == Some(view),
        trim(app.composer_of(view).text).len() > 0,
    ensures
        ({
            let sent = app.apply_action(Action::Submit).pending.last();
            let body = trim(app.composer_of(view).text);
            let named = crate::app::mentions::mentioned(app.members_of(view.room_id), body);
            &&& app.composing is None ==> sent == (CommandModel::SendMessage { view, body, mentions: named })
            &&& app.composing matches Some(PendingModel::Reply(id)) ==> sent == (CommandModel::SendReply {
                view,
                in_reply_to: id,
                body,
                mentions: named,
            })
            &&& app.composing matches Some(PendingModel::Edit(id)) ==> sent == (CommandModel::Edit {
                view,
                event_id: id,
                body,
                mentions: named,
            })
        }),
{
    reveal(touching);
}

/// A message that is sent leaves the composer empty, and what it was begun as is over.
pub proof fn law_sending_clears_the_composer(app: AppModel, view: ViewModel)
    requires
        at_large(app),
        app.focused_view() == Some(view),
    ensures
        app.apply_action(Action::Submit).composer_of(view).text.len() == 0,
        app.apply_action(Action::Submit).composer_of(view).cursor == 0,
        trim(app.composer_of(view).text).len() > 0 ==> app.apply_action(Action::Submit).composing is None,
        trim(app.composer_of(view).text).len() == 0 ==> app.apply_action(Action::Submit).composing == app.composing,
        app.apply_action(Action::Submit).typing is None,
        app.apply_action(Action::Submit).mode == app.mode,
        forall|other: ViewModel|
            other != view ==> #[trigger] app.apply_action(Action::Submit).composer_of(other) == app.composer_of(other),
{
    reveal(touching);
}

// -------------------------------------------------------------------------- cards

/// A card is opened where it is closed and closed where it is open: it is the newest one that the
/// focused view shows, and no other changes.
pub proof fn law_the_newest_card_is_toggled(app: AppModel, view: ViewModel, k: int, tool: ToolModel)
    requires
        at_large(app),
        app.focused_view() == Some(view),
        app.timelines.contains_key(view),
        0 <= k < app.timelines[view].len(),
        carries(app.timelines[view][k], tool),
        forall|j: int, other: ToolModel| k < j < app.timelines[view].len() ==> !(#[trigger] carries(app.timelines[view][j], other)),
    ensures
        ({
            let key = (app.timelines[view][k].event_id->0, tool.index);
            let after = app.apply_action(Action::ToggleCard).overrides;
            let open = if app.overrides.contains_key(key) {
                app.overrides[key]
            } else {
                app.render_options.auto_expand is Always || (app.render_options.auto_expand is Running
                    && tool.status is Running)
            };
            &&& after == app.overrides.insert(key, after[key])
            &&& after[key] != open
        }),
{
    reveal(AppModel::read_action);
    reveal(touching);
    lemma_newest_card(app.timelines[view], k, tool);
}

/// Whether an entry is a message that carries a card.
pub open spec fn carries(entry: EntryModel, tool: ToolModel) -> bool {
    &&& entry.event_id is Some
    &&& entry.kind is Message
    &&& entry.kind->Message_0.agent is Structured
    &&& entry.kind->Message_0.agent->Structured_event.tool == Some(tool)
}

proof fn lemma_newest_card(entries: Seq<EntryModel>, k: int, tool: ToolModel)
    requires
        0 <= k < entries.len(),
        carries(entries[k], tool),
        forall|j: int, other: ToolModel| k < j < entries.len() ==> !(#[trigger] carries(entries[j], other)),
    ensures
        newest_card(entries) == Some((entries[k].event_id->0, tool)),
    decreases entries.len(),
{
    let n = entries.len() - 1;
    if k < n {
        if crate::app::state::transcript::card_of(entries[n]) is Some {
            assert(carries(entries[n], entries[n].kind->Message_0.agent->Structured_event.tool->0));
        }
        let rest = entries.drop_last();
        assert forall|j: int, other: ToolModel| k < j < rest.len() implies !(#[trigger] carries(rest[j], other)) by {
            assert(rest[j] == entries[j]);
        }
        lemma_newest_card(rest, k, tool);
    }
}

/// The thread of a selected message is the one it began, or else the one it is in; it is titled by
/// the message.
pub proof fn law_a_message_leads_to_its_thread(app: AppModel)
    requires
        app.selected_message() is Some,
    ensures
        ({
            let message = app.selected_message()->0;
            &&& message.thread_replies is None && message.thread_root is None ==> app.selected_thread() is None
            &&& message.thread_replies is Some ==> app.selected_thread() is Some && app.selected_event() == Some(
                (app.selected_thread()->0).0,
            )
            &&& message.thread_replies is None && message.thread_root is Some ==> app.selected_thread() is Some
                && message.thread_root == Some((app.selected_thread()->0).0)
            &&& app.selected_thread() is Some ==> (app.selected_thread()->0).1 == headline(message.body)
        }),
{
}

// -------------------------------------------------------------------------- the rest

/// Leaving what one is at comes back to the keys that move: nothing is begun or armed any longer,
/// and the room is told that the user has stopped.
#[verifier::rlimit(50)]
pub proof fn law_cancelling_goes_back(app: AppModel)
    requires
        at_large(app),
    ensures
        app.apply_action(Action::Cancel).mode is Normal,
        app.apply_action(Action::Cancel).composing is None,
        app.apply_action(Action::Cancel).confirm_redact is None,
        app.apply_action(Action::Cancel).typing is None,
        app.apply_action(Action::Cancel).should_quit == app.should_quit,
        app.composing is None ==> app.apply_action(Action::Cancel).composers == app.composers,
        app.apply_action(Action::EnterNormal) == app.apply_action(Action::Cancel),
{
    reveal(touching);
}

/// A begun reply or edit that is left leaves its text too.
pub proof fn law_cancelling_drops_what_was_begun(app: AppModel, view: ViewModel)
    requires
        at_large(app),
        app.composing is Some,
        app.focused_view() == Some(view),
    ensures
        app.apply_action(Action::Cancel).composer_of(view).text.len() == 0,
{
    reveal(touching);
}

/// Quitting quits, and only it does; writing begins where it is asked for.
#[verifier::rlimit(50)]
pub proof fn law_quitting_quits(app: AppModel)
    requires
        at_large(app),
    ensures
        app.apply_action(Action::Quit).should_quit,
        app.apply_action(Action::Quit).typing is None,
        app.apply_action(Action::EnterInsert).mode is Insert,
        app.apply_action(Action::EnterInsert).should_quit == app.should_quit,
        app.apply_action(Action::EnterInsert).pending == app.pending,
        app.apply_action(Action::Redraw).needs_redraw,
        app.apply_action(Action::Redraw).mode == app.mode,
{
    reveal(touching);
}

/// Someone who was being told of is told when the user stops; nobody is who was not.
pub proof fn law_stopping_is_told(app: AppModel)
    ensures
        app.typing is None ==> app.stop_typing() == app,
        app.typing is Some && app.typing->0.active ==> app.stop_typing().pending == app.pending.push(
            CommandModel::SendTyping { room_id: app.typing->0.room_id, typing: false },
        ),
        app.typing is Some && !app.typing->0.active ==> app.stop_typing().pending == app.pending,
        app.stop_typing().typing is None,
{
}

/// A stroke is told once it is heard: the room that it was made in hears that the user is typing.
pub proof fn law_typing_is_told(app: AppModel, now: u64)
    requires
        app.typing is Some,
        app.typing->0.dirty,
        !app.typing->0.active,
    ensures
        app.tick_typing(now).pending == app.pending.push(
            CommandModel::SendTyping { room_id: app.typing->0.room_id, typing: true },
        ),
        app.tick_typing(now).typing is Some,
        app.tick_typing(now).typing->0.active,
        !app.tick_typing(now).typing->0.dirty,
        app.tick_typing(now).typing->0.room_id == app.typing->0.room_id,
        app.tick_typing(now).typing->0.last_input_ms == now,
        app.tick_typing(now).typing->0.last_sent_ms == now,
{
}

/// What is selected is brought into view: where its row is on show nothing moves, and otherwise the
/// transcript is scrolled until it is.
pub proof fn law_the_selection_is_brought_into_view(app: AppModel, view: ViewModel, row: int)
    requires
        0 <= row < app.rendered_lines,
        app.viewport_height > 0,
        app.scroll_of(view) <= app.max_scroll(),
    ensures
        ({
            let scroll = match app.scroll_showing(view, row) {
                Some(to) => to,
                None => app.scroll_of(view),
            };
            let top = app.max_scroll() - scroll;
            &&& 0 <= scroll <= app.max_scroll()
            &&& top <= row < top + app.viewport_height
        }),
        ({
            let top = app.max_scroll() - app.scroll_of(view);
            top <= row < top + app.viewport_height ==> app.scroll_showing(view, row) is None
        }),
{
}

/// The row of the selection is the one that was drawn for its event.
pub proof fn law_the_row_of_the_selection_is_its_own(app: AppModel, view: ViewModel, i: int)
    requires
        app.focused_view() == Some(view),
        app.selected.contains_key(view),
        0 <= i < app.anchors.len(),
        app.anchors[i].event_id == app.selected[view],
        forall|j: int| 0 <= j < i ==> (#[trigger] app.anchors[j]).event_id != app.selected[view],
    ensures
        ({
            let after = app.scroll_to_selection();
            match app.scroll_showing(view, app.anchors[i].row as int) {
                Some(to) => after == (AppModel { scroll: app.scroll.insert(view, to as u16), ..app }),
                None => after == app,
            }
        }),
{
    let test = crate::app::state::transcript::anchors_event(app.selected[view]);
    lemma_first_where(app.anchors, test);
    assert(test(app.anchors[i]));
    let k = first_where(app.anchors, test)->0;
    if k < i {
        assert(test(app.anchors[k]));
    }
    if i < k {
        assert(!test(app.anchors[i]));
    }
}

/// At the newest message the end is shown; at the oldest the beginning, and what is before it is asked
/// for.
#[verifier::rlimit(50)]
pub proof fn law_the_ends_of_the_selection_are_shown(app: AppModel, view: ViewModel, i: int)
    requires
        at_large(app),
        app.focused_view() == Some(view),
        0 <= i < app.selectable().len(),
        app.selected.contains_key(view),
        app.selected[view] == app.selectable()[i],
        forall|j: int| 0 <= j < i ==> #[trigger] app.selectable()[j] != app.selectable()[i],
    ensures
        i + 2 >= app.selectable().len() ==> app.apply_action(Action::SelectNewer).scroll_of(view) == 0,
        i <= 1 && app.selectable().len() > 1 ==> app.apply_action(Action::SelectOlder).scroll_of(view)
            == app.max_scroll(),
{
    reveal(AppModel::read_action);
    reveal(touching);
    let ids = app.selectable();
    let test = crate::app::state::transcript::being(app.selected[view]);
    assert(test(ids[i]));
    lemma_first_where(ids, test);
    let k = first_where(ids, test)->0;
    assert(k == i) by {
        if k < i {
            assert(ids[k] == ids[i]);
        }
        if i < k {
            assert(!test(ids[i]));
        }
    }
}

/// With nothing to select the keys scroll by a line.
pub proof fn law_without_messages_selecting_scrolls(app: AppModel, view: ViewModel)
    requires
        app.focused_view() == Some(view),
        app.selectable().len() == 0,
        app.scroll_of(view) <= app.max_scroll(),
    ensures
        app.scroll_of(view) < app.max_scroll() ==> app.select_by(-1).scroll_of(view) == app.scroll_of(view) + 1,
        app.scroll_of(view) > 0 ==> app.select_by(1).scroll_of(view) == app.scroll_of(view) - 1,
        app.select_by(1).selected == app.selected,
        app.select_by(-1).selected == app.selected,
{
}

} // verus!
