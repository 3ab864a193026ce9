//! What holds of the worker's decisions, command by command and row by row.

use vstd::prelude::*;

use crate::agent::adapter::{Adapters, Ingest};
use crate::agent::protocol::AgentEvent;
use crate::json::{parsed_json, Json};
use crate::matrix::model::{
    AgentPayloadModel, CommandModel, EntryKindModel, EntryModel, MemberSummaryModel, RoomSummaryModel,
    VerificationModel, ViewModel, WorkerEventModel,
};
use crate::matrix::worker::{
    after_page, agent_in, belongs, by_display_name, by_name, classified, compared, converts, driven, label_of,
    newest_nameable, parents_of, payload_of, sessions_for, spaces_of, summary_of, target_problem, type_in,
    Forwarding, IncomingModel, ItemKindModel, ItemModel, JobModel, RefusalModel, RequestStateModel, RoomSourceModel,
    SasStateModel, ShownEventModel, SpaceChildModel, WorkerModel, PAGINATE_BATCH,
};
use crate::seqs::{in_order, law_sorting_orders, orders, sorted};
use crate::text::{lemma_text_less_not, lemma_text_less_one_way, lowercase, text_less};

verus! {

// ------------------------------------------------------------------------- commands

/// A message goes into the view it was written in, with its text and its mentions, and answers
/// nothing.
pub proof fn law_a_message_is_sent_where_it_was_written(
    w: WorkerModel,
    view: ViewModel,
    body: Seq<char>,
    mentions: Seq<Seq<char>>,
)
    requires
        w.views.contains(view),
    ensures
        match w.job_for(CommandModel::SendMessage { view, body, mentions }) {
            Ok(JobModel::Send { view: at, body: text, mentions: named }) => at == view && text == body && named
                == mentions,
            _ => false,
        },
{
}

/// A reply is sent as a reply to the event it answers, in the view it was written in.
pub proof fn law_a_reply_answers_its_event(
    w: WorkerModel,
    view: ViewModel,
    in_reply_to: Seq<char>,
    body: Seq<char>,
    mentions: Seq<Seq<char>>,
)
    requires
        w.views.contains(view),
    ensures
        match w.job_for(CommandModel::SendReply { view, in_reply_to, body, mentions }) {
            Ok(JobModel::Reply { view: at, in_reply_to: event, body: text, mentions: named }) => at == view && event
                == in_reply_to && text == body && named == mentions,
            _ => false,
        },
{
}

/// An edit replaces the event it was made of with the new text.
pub proof fn law_an_edit_replaces_its_event(
    w: WorkerModel,
    view: ViewModel,
    event_id: Seq<char>,
    body: Seq<char>,
    mentions: Seq<Seq<char>>,
)
    requires
        w.views.contains(view),
    ensures
        match w.job_for(CommandModel::Edit { view, event_id, body, mentions }) {
            Ok(JobModel::Edit { view: at, event_id: event, body: text, mentions: named }) => at == view && event
                == event_id && text == body && named == mentions,
            _ => false,
        },
{
}

/// Deleting and reacting act on the event that was named, a reaction with the key that was
/// chosen, and a receipt is for the view that was read.
pub proof fn law_an_event_is_acted_on_by_name(
    w: WorkerModel,
    view: ViewModel,
    event_id: Seq<char>,
    key: Seq<char>,
)
    requires
        w.views.contains(view),
    ensures
        match w.job_for(CommandModel::Redact { view, event_id }) {
            Ok(JobModel::Redact { view: at, event_id: event }) => at == view && event == event_id,
            _ => false,
        },
        match w.job_for(CommandModel::ToggleReaction { view, event_id, key }) {
            Ok(JobModel::ToggleReaction { view: at, event_id: event, key: emoji }) => at == view && event == event_id
                && emoji == key,
            _ => false,
        },
        (w.job_for(CommandModel::MarkRead { view }) matches Ok(JobModel::MarkRead(at)) && at == view),
{
}

/// As many older events are loaded as were asked for; where nothing was said, a page.
pub proof fn law_as_much_is_loaded_as_was_asked_for(w: WorkerModel, view: ViewModel, count: u16)
    requires
        w.views.contains(view),
    ensures
        match w.job_for(CommandModel::Paginate { view, count }) {
            Ok(JobModel::Paginate { view: at, count: n }) => at == view && n > 0 && (count > 0 ==> n == count) && (count
                == 0 ==> n == PAGINATE_BATCH),
            _ => false,
        },
        PAGINATE_BATCH == 40,
{
}

/// What acts on a view that is not open is refused, with the view named.
pub proof fn law_a_closed_view_is_refused(w: WorkerModel, command: CommandModel, view: ViewModel)
    requires
        !w.views.contains(view),
        match command {
            CommandModel::SendMessage { view: at, .. } => at == view,
            CommandModel::SendReply { view: at, .. } => at == view,
            CommandModel::Edit { view: at, .. } => at == view,
            CommandModel::Redact { view: at, .. } => at == view,
            CommandModel::ToggleReaction { view: at, .. } => at == view,
            CommandModel::MarkRead { view: at } => at == view,
            CommandModel::Paginate { view: at, .. } => at == view,
            _ => false,
        },
    ensures
        (w.job_for(command) matches Err(RefusalModel::NotOpen(at)) && at == view),
        w.after_command(command) == w,
{
}

/// A view is opened once: one that is open stays open, and nothing is done. A view that was
/// closed can be opened again.
pub proof fn law_a_view_is_streamed_once(w: WorkerModel, view: ViewModel)
    ensures
        w.views.contains(view) ==> ((((w.job_for(CommandModel::OpenView(view)) matches Ok(JobModel::Nothing))))),
        !w.views.contains(view) ==> ((((w.job_for(CommandModel::OpenView(view)) matches Ok(JobModel::Open(at)) && at == view)))),
        (w.job_for(CommandModel::CloseView(view)) matches Ok(JobModel::Close(at)) && at == view),
        !w.after_command(CommandModel::CloseView(view)).views.contains(view),
        (w.after_command(CommandModel::CloseView(view)).job_for(CommandModel::OpenView(view)) matches Ok(
            JobModel::Open(at),
        ) && at == view),
        forall|other: ViewModel|
            other != view ==> (#[trigger] w.after_command(CommandModel::CloseView(view)).views.contains(other) <==> w.views.contains(
                other,
            )),
{
}

/// What is asked about a room is asked about that room.
pub proof fn law_a_room_is_asked_about_by_name(w: WorkerModel, room_id: Seq<char>, typing: bool)
    ensures
        (w.job_for(CommandModel::ListThreads { room_id }) matches Ok(JobModel::ListThreads(room)) && room == room_id),
        (w.job_for(CommandModel::ListMembers { room_id }) matches Ok(JobModel::ListMembers(room)) && room == room_id),
        (w.job_for(CommandModel::SendTyping { room_id, typing }) matches Ok(
            JobModel::SendTyping { room_id: room, typing: told },
        ) && room == room_id && told == typing),
{
}

/// A verification can be started at any time. It is accepted, confirmed or reported as a
/// mismatch only while there is one, each for what it is: a mismatch is never taken for a
/// confirmation, nor the other way round.
pub proof fn law_a_verification_is_answered_as_it_was_meant(w: WorkerModel)
    ensures
        (w.job_for(CommandModel::StartVerification) matches Ok(JobModel::StartVerification)),
        w.verifying ==> ((((w.job_for(CommandModel::AcceptVerification) matches Ok(JobModel::AcceptVerification))))),
        w.verifying ==> ((((w.job_for(CommandModel::ConfirmVerification) matches Ok(JobModel::ConfirmVerification))))),
        w.verifying ==> ((((w.job_for(CommandModel::MismatchVerification) matches Ok(JobModel::MismatchVerification))))),
        !w.verifying ==> ((((w.job_for(CommandModel::AcceptVerification) matches Err(RefusalModel::NothingToAccept))))),
        !w.verifying ==> ((((w.job_for(CommandModel::ConfirmVerification) matches Err(RefusalModel::NothingInProgress))))),
        !w.verifying ==> ((((w.job_for(CommandModel::MismatchVerification) matches Err(RefusalModel::NothingInProgress))))),
        (w.job_for(CommandModel::CancelVerification) matches Ok(JobModel::CancelVerification { in_progress })
            && in_progress == w.verifying),
        !w.after_command(CommandModel::CancelVerification).verifying,
        w.after_hearing(IncomingModel::VerificationRequested).verifying,
        w.after_command(CommandModel::AcceptVerification) == w,
        w.after_command(CommandModel::ConfirmVerification) == w,
        w.after_command(CommandModel::MismatchVerification) == w,
{
}

/// A recovery key is tried as it was given, but for blanks around it; where nothing else was
/// given, there is nothing to try. Setting recovery up and replacing its key are two things.
pub proof fn law_a_recovery_key_is_tried_as_given(w: WorkerModel, key: Seq<char>)
    ensures
        match w.job_for(CommandModel::RecoverWithKey(key)) {
            Ok(JobModel::Recover(tried)) => tried == crate::text::trim(key) && tried.len() > 0,
            Err(RefusalModel::NoKeyGiven) => crate::text::trim(key).len() == 0,
            _ => false,
        },
        (w.job_for(CommandModel::EnableRecovery) matches Ok(JobModel::EnableRecovery)),
        (w.job_for(CommandModel::ResetRecoveryKey) matches Ok(JobModel::ResetRecoveryKey)),
{
}

/// A command leaves the worker as it was, but for closing a view, and for withdrawing from a
/// verification.
pub proof fn law_a_command_changes_nothing_else(w: WorkerModel, command: CommandModel)
    ensures
        !(command is CloseView) ==> w.after_command(command).views == w.views,
        !(command is CancelVerification) ==> w.after_command(command).verifying == w.verifying,
{
}

/// The worker stops when it is told to, or when nobody is left to tell it; a verification that
/// another device asks for is followed; a change of the rooms has them listed; a change of the
/// connection is told as it is; and keys that were lost are a warning.
pub proof fn law_the_worker_hears_the_world(w: WorkerModel, command: CommandModel, state: crate::matrix::model::SyncState)
    ensures
        (w.job_on(IncomingModel::Closed) matches Ok(JobModel::Stop)),
        (w.job_on(IncomingModel::Command(CommandModel::Shutdown)) matches Ok(JobModel::Stop)),
        !(command is Shutdown) ==> w.job_on(IncomingModel::Command(command)) == w.job_for(command),
        w.after_hearing(IncomingModel::Command(command)) == w.after_command(command),
        (w.job_on(IncomingModel::VerificationRequested) matches Ok(JobModel::FollowVerification)),
        w.after_hearing(IncomingModel::VerificationRequested).views == w.views,
        (w.job_on(IncomingModel::RoomsChanged) matches Ok(JobModel::ListRooms)),
        (w.job_on(IncomingModel::Sync(state)) matches Ok(JobModel::Tell(WorkerEventModel::SyncState(told))) && told
            == state),
        (w.job_on(IncomingModel::KeysLost) matches Ok(JobModel::Tell(WorkerEventModel::Warning(_)))),
        w.after_hearing(IncomingModel::Closed) == w,
        w.after_hearing(IncomingModel::KeysLost) == w,
        w.after_hearing(IncomingModel::RoomsChanged) == w,
        w.after_hearing(IncomingModel::Sync(state)) == w,
{
}

/// Each reason to refuse a command is told in its own words.
pub proof fn law_refusals_are_told_apart(a: RefusalModel, b: RefusalModel)
    requires
        a.message() == b.message(),
    ensures
        a is NotOpen <==> b is NotOpen,
        a is NothingToAccept <==> b is NothingToAccept,
        a is NothingInProgress <==> b is NothingInProgress,
        a is NoKeyGiven <==> b is NoKeyGiven,
{
    reveal_strlit("view is not open");
    reveal_strlit("no verification to accept");
    reveal_strlit("no verification in progress");
    reveal_strlit("no recovery key given");
    assert("view is not open"@.len() == 16);
    assert("no verification to accept"@.len() == 25);
    assert("no verification in progress"@.len() == 27);
    assert("no recovery key given"@.len() == 21);
}

// ------------------------------------------------------------------------- room keys

/// The keys that are retried in a room are those that arrived for it, and all of them.
pub proof fn law_keys_are_retried_in_their_room(keys: Seq<(Seq<char>, Seq<char>)>, room_id: Seq<char>, id: Seq<char>)
    ensures
        sessions_for(keys, room_id).contains(id) <==> keys.contains((room_id, id)),
    decreases keys.len(),
{
    if keys.len() > 0 {
        let rest = keys.drop_last();
        let found = sessions_for(keys, room_id);
        let before = sessions_for(rest, room_id);
        law_keys_are_retried_in_their_room(rest, room_id, id);
        if keys.contains((room_id, id)) {
            let i = keys.index_of((room_id, id));
            if i < rest.len() {
                assert(rest[i] == (room_id, id));
                let k = before.index_of(id);
                assert(found[k] == id);
            } else {
                assert(found[found.len() - 1] == id);
            }
        }
        if found.contains(id) {
            let k = found.index_of(id);
            if k < before.len() {
                assert(before[k] == id);
                let i = rest.index_of((room_id, id));
                assert(keys[i] == (room_id, id));
            } else {
                assert(keys[keys.len() - 1] == (room_id, id));
            }
        }
    }
}

// ------------------------------------------------------------------------- snapshots

/// A snapshot with something in it is shown, and so is any where nothing was shown before. An
/// empty one in place of something is never shown: older events are asked for in its place,
/// once, until something arrives.
pub proof fn law_an_empty_snapshot_is_refilled_once(f: Forwarding, snapshot: usize)
    ensures
        snapshot > 0 || f.showing == 0 ==> classified(snapshot, f.showing, f.refilling) is Show,
        snapshot > 0 || f.showing == 0 ==> f.after(snapshot).showing == snapshot && !f.after(snapshot).refilling,
        snapshot == 0 && f.showing > 0 && !f.refilling ==> classified(snapshot, f.showing, f.refilling) is Refill,
        snapshot == 0 && f.showing > 0 && f.refilling ==> classified(snapshot, f.showing, f.refilling) is Wait,
        snapshot == 0 && f.showing > 0 ==> f.after(snapshot).refilling && f.after(snapshot).showing == f.showing,
{
}

/// A receipt for a view names the newest event that may carry it: no later one may.
pub proof fn law_a_receipt_names_the_newest(view: ViewModel, items: Seq<ShownEventModel>)
    ensures
        match newest_nameable(view, items) {
            Some(id) => exists|i: int| #[trigger] receipt_at(view, items, id, i),
            None => forall|j: int| 0 <= j < items.len() ==> !carries(view, #[trigger] items[j]),
        },
    decreases items.len(),
{
    if items.len() > 0 {
        let n = items.len() - 1;
        let last = items[n];
        let rest = items.drop_last();
        if carries(view, last) {
            assert(receipt_at(view, items, last.event_id->0, n));
        } else {
            law_a_receipt_names_the_newest(view, rest);
            if let Some(id) = newest_nameable(view, rest) {
                let i = choose|i: int| #[trigger] receipt_at(view, rest, id, i);
                assert forall|j: int| i < j < items.len() implies !carries(view, #[trigger] items[j]) by {
                    if j < n {
                        assert(rest[j] == items[j]);
                    }
                }
                assert(items[i] == rest[i]);
                assert(receipt_at(view, items, id, i));
            } else {
                assert forall|j: int| 0 <= j < items.len() implies !carries(view, #[trigger] items[j]) by {
                    if j < n {
                        assert(rest[j] == items[j]);
                    }
                }
            }
        }
    }
}

/// Whether an event may carry the receipt of a view: in a room, one that is in no thread; in a
/// thread, one of it, or its root.
pub open spec fn carries(view: ViewModel, item: ShownEventModel) -> bool {
    &&& item.event_id is Some
    &&& view.thread_root is None ==> item.thread_root is None
    &&& view.thread_root is Some ==> item.thread_root == view.thread_root || item.event_id == view.thread_root
}

/// Whether the event at a place is the newest that may carry the receipt of a view.
pub open spec fn receipt_at(view: ViewModel, items: Seq<ShownEventModel>, id: Seq<char>, i: int) -> bool {
    &&& 0 <= i < items.len()
    &&& items[i].event_id == Some(id)
    &&& carries(view, items[i])
    &&& forall|j: int| i < j < items.len() ==> !carries(view, #[trigger] items[j])
}

/// An event may carry the receipt of the room's own view, or that of one thread, and of no
/// other: but for a root, which belongs to both.
pub proof fn law_an_event_belongs_to_one_view(event_id: Seq<char>, root: Option<Seq<char>>, a: Seq<char>, b: Seq<char>)
    requires
        a != b,
        event_id != a,
        event_id != b,
    ensures
        !(belongs(Some(a), event_id, root) && belongs(Some(b), event_id, root)),
        !(belongs(None, event_id, root) && belongs(Some(a), event_id, root)),
        belongs(None, event_id, None),
        belongs(Some(a), event_id, Some(a)),
        belongs(Some(event_id), event_id, root),
{
}

// --------------------------------------------------------------------- rooms, members

/// A room belongs to the spaces that list it, and to no other.
pub proof fn law_a_space_decides_what_it_holds(children: Seq<SpaceChildModel>, room_id: Seq<char>, space_id: Seq<char>)
    ensures
        spaces_of(parents_of(children), room_id).contains(space_id) <==> exists|i: int|
            0 <= i < children.len() && (#[trigger] children[i]).listed && children[i].room_id == room_id
                && children[i].space_id == space_id,
    decreases children.len(),
{
    if children.len() > 0 {
        let rest = children.drop_last();
        let n = children.len() - 1;
        let child = children[n];
        law_a_space_decides_what_it_holds(rest, room_id, space_id);
        let before = spaces_of(parents_of(rest), room_id);
        let after = spaces_of(parents_of(children), room_id);
        if child.listed && child.room_id == room_id {
            assert(after == before.push(child.space_id));
            assert(after[after.len() - 1] == child.space_id);
        }
        if before.contains(space_id) {
            let k = before.index_of(space_id);
            assert(after[k] == space_id);
        }
        if after.contains(space_id) {
            let k = after.index_of(space_id);
            if k < before.len() {
                assert(before[k] == space_id);
                let i = choose|i: int|
                    0 <= i < rest.len() && (#[trigger] rest[i]).listed && rest[i].room_id == room_id && rest[i].space_id
                        == space_id;
                assert(children[i] == rest[i]);
            } else {
                assert(children[n].space_id == space_id);
            }
        }
        if exists|i: int|
            0 <= i < children.len() && (#[trigger] children[i]).listed && children[i].room_id == room_id
                && children[i].space_id == space_id {
            let i = choose|i: int|
                0 <= i < children.len() && (#[trigger] children[i]).listed && children[i].room_id == room_id
                    && children[i].space_id == space_id;
            if i < n {
                assert(rest[i] == children[i]);
            }
        }
    } else {
        assert(spaces_of(parents_of(children), room_id) =~= Seq::<Seq<char>>::empty());
    }
}

/// A room is summed up by what it is: its name where it has one, else its id, and its counts and
/// flags each in their place.
pub proof fn law_a_room_is_summed_up_as_it_is(room: RoomSourceModel, parents: Map<Seq<char>, Seq<Seq<char>>>)
    ensures
        summary_of(room, parents).room_id == room.room_id,
        room.display_name is Some ==> summary_of(room, parents).display_name == room.display_name->0,
        room.display_name is None ==> summary_of(room, parents).display_name == room.room_id,
        summary_of(room, parents).is_space == room.is_space,
        summary_of(room, parents).is_direct == room.is_direct,
        summary_of(room, parents).is_encrypted == room.is_encrypted,
        summary_of(room, parents).notification_count == room.notification_count,
        summary_of(room, parents).highlight_count == room.highlight_count,
        summary_of(room, parents).parents == (if parents.contains_key(room.room_id) {
            parents[room.room_id]
        } else {
            Seq::empty()
        }),
{
}

/// Rooms are listed by name, all of them.
pub proof fn law_rooms_are_listed_by_name(rooms: Seq<RoomSummaryModel>, i: int, j: int)
    requires
        0 <= i < j < rooms.len(),
    ensures
        !text_less(
            sorted(rooms, by_display_name())[j].display_name,
            sorted(rooms, by_display_name())[i].display_name,
        ),
        sorted(rooms, by_display_name()).to_multiset() == rooms.to_multiset(),
{
    let less = by_display_name();
    assert(orders(less)) by {
        assert forall|a: RoomSummaryModel, b: RoomSummaryModel| #[trigger] less(a, b) implies !less(b, a) by {
            lemma_text_less_one_way(a.display_name, b.display_name);
        }
        assert forall|a: RoomSummaryModel, b: RoomSummaryModel, c: RoomSummaryModel| !#[trigger] less(a, b)
            && !#[trigger] less(b, c) implies !less(a, c) by {
            lemma_text_less_not(a.display_name, b.display_name, c.display_name);
        }
    }
    law_sorting_orders(rooms, less);
    assert(in_order(sorted(rooms, less), less));
    assert(!less(sorted(rooms, less)[j], sorted(rooms, less)[i]));
}

/// Members are listed by name whatever its case, and those of one name by their id, so that two
/// of them never swap places.
pub proof fn law_members_are_listed_by_name(members: Seq<MemberSummaryModel>, i: int, j: int)
    requires
        0 <= i < j < members.len(),
    ensures
        ({
            let a = sorted(members, by_name())[i];
            let b = sorted(members, by_name())[j];
            &&& !text_less(lowercase(b.display_name), lowercase(a.display_name))
            &&& lowercase(a.display_name) == lowercase(b.display_name) ==> !text_less(b.user_id, a.user_id)
        }),
        sorted(members, by_name()).to_multiset() == members.to_multiset(),
{
    let less = by_name();
    assert(orders(less)) by {
        assert forall|a: MemberSummaryModel, b: MemberSummaryModel| #[trigger] less(a, b) implies !less(b, a) by {
            lemma_text_less_one_way(lowercase(a.display_name), lowercase(b.display_name));
            lemma_text_less_one_way(a.user_id, b.user_id);
        }
        assert forall|a: MemberSummaryModel, b: MemberSummaryModel, c: MemberSummaryModel| !#[trigger] less(a, b)
            && !#[trigger] less(b, c) implies !less(a, c) by {
            let (x, y, z) = (lowercase(a.display_name), lowercase(b.display_name), lowercase(c.display_name));
            lemma_text_less_not(x, y, z);
            if x == z {
                lemma_text_less_total(x, y);
                lemma_text_less_not(a.user_id, b.user_id, c.user_id);
            }
        }
    }
    law_sorting_orders(members, less);
    assert(!less(sorted(members, less)[j], sorted(members, less)[i]));
}

/// Two texts of which neither comes first are the same.
pub proof fn lemma_text_less_total(a: Seq<char>, b: Seq<char>)
    requires
        !text_less(a, b),
        !text_less(b, a),
    ensures
        a == b,
    decreases a.len(),
{
    if a.len() > 0 && b.len() > 0 {
        lemma_text_less_total(a.skip(1), b.skip(1));
        assert(a =~= seq![a[0]] + a.skip(1));
        assert(b =~= seq![b[0]] + b.skip(1));
    } else {
        assert(a =~= b);
    }
}

// ---------------------------------------------------------------------- verification

/// What is told of a verification names the other device, or passes on the reason it ended for.
/// A request of another device is shown as one; one made here is negotiated; the comparison is
/// started by us once both sides are ready.
pub proof fn law_a_verification_is_told_as_it_stands(other: Seq<char>, reason: Seq<char>)
    ensures
        (driven(RequestStateModel::Requested, other).0 matches Some(VerificationModel::Requested { other_device })
            && other_device == other),
        driven(RequestStateModel::Requested, other).1 is Wait,
        (driven(RequestStateModel::Created, other).0 matches Some(VerificationModel::Negotiating { other_device })
            && other_device == other),
        driven(RequestStateModel::Created, other).1 is Wait,
        (driven(RequestStateModel::Ready, other).0 matches Some(VerificationModel::Negotiating { other_device })
            && other_device == other),
        driven(RequestStateModel::Ready, other).1 is StartComparison,
        driven(RequestStateModel::Comparing, other).1 is FollowComparison,
        (driven(RequestStateModel::Unsupported, other).0 matches Some(VerificationModel::Cancelled { .. })),
        driven(RequestStateModel::Unsupported, other).1 is Withdraw,
        (driven(RequestStateModel::Done, other).0 matches Some(VerificationModel::Done)),
        driven(RequestStateModel::Done, other).1 is End,
        (driven(RequestStateModel::Cancelled(reason), other).0 matches Some(VerificationModel::Cancelled { reason: r })
            && r == reason),
        driven(RequestStateModel::Cancelled(reason), other).1 is End,
{
}

/// The comparison is told as it stands: the emoji that both sides derived, in their order; that
/// the other side has not answered yet; that it is done; or why it ended. Without emoji there is
/// nothing to compare, and we withdraw.
pub proof fn law_a_comparison_is_told_as_it_stands(
    other: Seq<char>,
    reason: Seq<char>,
    emoji: Seq<(Seq<char>, Seq<char>)>,
)
    ensures
        (compared(SasStateModel::Negotiating, other).0 matches VerificationModel::Negotiating { other_device }
            && other_device == other),
        (compared(SasStateModel::KeysExchanged(Some(emoji)), other).0 matches VerificationModel::Compare {
            other_device,
            emoji: shown,
        } && other_device == other && shown == emoji),
        compared(SasStateModel::KeysExchanged(Some(emoji)), other).1 is Wait,
        compared(SasStateModel::KeysExchanged(None), other).0 is Cancelled,
        compared(SasStateModel::KeysExchanged(None), other).1 is Withdraw,
        (compared(SasStateModel::Confirmed, other).0 matches VerificationModel::WaitingForOther { other_device }
            && other_device == other),
        compared(SasStateModel::Confirmed, other).1 is Wait,
        compared(SasStateModel::Negotiating, other).1 is Wait,
        compared(SasStateModel::Done, other).0 is Done,
        compared(SasStateModel::Done, other).1 is End,
        (compared(SasStateModel::Cancelled(reason), other).0 matches VerificationModel::Cancelled { reason: r } && r
            == reason),
        compared(SasStateModel::Cancelled(reason), other).1 is End,
{
}

/// An event that is shown can be acted on, and edited where it is editable; one that is not
/// shown cannot.
pub proof fn law_only_what_is_shown_is_acted_on(event_id: Seq<char>, editable: bool, editing: bool)
    ensures
        target_problem(event_id, None, editing) is Some,
        target_problem(event_id, Some(true), editing) is None,
        target_problem(event_id, Some(editable), false) is None,
        target_problem(event_id, Some(false), true) is Some,
{
}

// ------------------------------------------------------------------------------ rows

/// A message row shows who sent it, by the name they go by where that is known and by the first
/// part of their id where it is not; and what they wrote, when, and how it stands, each in its
/// place. The agent structure is what was made of this message.
pub proof fn law_a_message_row_shows_its_message<F: Fn(&Json) -> Option<AgentEvent>>(
    item: ItemModel,
    agents: Adapters,
    parse: F,
    r: EntryModel,
)
    requires
        converts(item, agents, parse, r),
        item.kind is Event,
        item.kind->Event_0.content is Message,
    ensures
        ({
            let event = item.kind->Event_0;
            let message = event.content->Message_0;
            &&& r.id == item.id
            &&& r.event_id == event.event_id
            &&& r.kind is Message
            &&& r.kind->Message_0.sender == event.sender
            &&& event.display_name is Some ==> r.kind->Message_0.sender_display == event.display_name->0
            &&& event.display_name is None ==> r.kind->Message_0.sender_display == event.localpart
            &&& r.kind->Message_0.body == message.body
            &&& r.kind->Message_0.timestamp == event.timestamp
            &&& r.kind->Message_0.is_own == event.is_own
            &&& r.kind->Message_0.is_edited == message.is_edited
            &&& r.kind->Message_0.thread_root == message.thread_root
            &&& r.kind->Message_0.thread_replies == message.thread_replies
            &&& r.kind->Message_0.reactions == message.reactions
            &&& r.kind->Message_0.shield == event.shield
            &&& agent_in(agents, event.raw, message.body, parse, r.kind->Message_0.agent)
        }),
{
}

/// A row that is no message is none: what cannot be read says so, what was deleted and what is
/// not rendered is a notice, and the marks between events keep their place without an event of
/// their own.
pub proof fn law_a_row_is_what_it_stands_for<F: Fn(&Json) -> Option<AgentEvent>>(
    item: ItemModel,
    agents: Adapters,
    parse: F,
    r: EntryModel,
)
    requires
        converts(item, agents, parse, r),
    ensures
        r.id == item.id,
        !(item.kind is Event) ==> r.event_id is None,
        item.kind is Event ==> r.event_id == item.kind->Event_0.event_id,
        (item.kind matches ItemKindModel::DateDivider(day) ==> r.kind matches EntryKindModel::DateDivider(shown) && shown
            == day),
        item.kind is ReadMarker ==> r.kind is ReadMarker,
        item.kind is TimelineStart ==> r.kind is TimelineStart,
        item.kind is Nothing ==> ((((r.kind matches EntryKindModel::Notice(text) && text.len() == 0)))),
        (item.kind matches ItemKindModel::Event(event) ==> {
            &&& event.content is Message <==> r.kind is Message
            &&& event.content is Undecryptable <==> r.kind is UnableToDecrypt
            &&& event.content is Redacted ==> r.kind is Notice
            &&& event.content is Redacted ==> r.kind->Notice_0 == "message deleted"@
            &&& event.content is Other ==> r.kind is Notice
            &&& event.content is Other ==> r.kind->Notice_0 == "· "@ + type_in(event.raw)
        }),
{
}

/// What an event is called is what its JSON says it is, where that says it in words.
pub proof fn law_an_event_is_called_by_its_type(raw: Option<Seq<char>>)
    ensures
        raw is None ==> type_in(raw) == "unknown event"@,
        raw is Some && parsed_json(raw->0) is Err ==> type_in(raw) == "unknown event"@,
        raw is Some && parsed_json(raw->0) is Ok ==> {
            let kind = parsed_json(raw->0)->Ok_0.member("type"@);
            &&& kind is Some && kind->0.as_text() is Some ==> type_in(raw) == kind->0.as_text()->0
            &&& kind is None || kind->0.as_text() is None ==> type_in(raw) == "unknown event"@
        },
{
}

/// What an agent sent keeps the name of the agent that understood it, and is never taken for
/// more, or less, than it was.
pub proof fn law_a_payload_keeps_its_agent(found: Ingest)
    ensures
        match found {
            Ingest::Structured { adapter, event } => payload_of(found) matches AgentPayloadModel::Structured {
                adapter: name,
                event: kept,
            } && name == adapter@ && kept == event@,
            Ingest::Degraded { adapter, parsed } => payload_of(found) matches AgentPayloadModel::Degraded {
                adapter: name,
                parsed: kept,
            } && name == adapter@ && kept == parsed@,
            Ingest::Plain => payload_of(found) is Plain,
        },
{
}

/// An event without JSON, with JSON that cannot be read, or without content, holds no agent
/// structure.
pub proof fn law_no_content_no_agent<F: Fn(&Json) -> Option<AgentEvent>>(
    agents: Adapters,
    raw: Option<Seq<char>>,
    body: Seq<char>,
    parse: F,
    r: AgentPayloadModel,
)
    requires
        agent_in(agents, raw, body, parse, r),
        raw is None || parsed_json(raw->0) is Err || parsed_json(raw->0)->Ok_0.member("content"@) is None,
    ensures
        r is Plain,
{
}

/// A page that shows nothing and is not the first is asked for again, five times at most; one that
/// failed is reported.
pub proof fn law_an_empty_page_is_asked_for_again(attempt: u8, shown: usize)
    ensures
        after_page(attempt, Err(()), shown) is TellThenFail,
        after_page(attempt, Ok(true), shown) is Tell,
        shown > 0 ==> after_page(attempt, Ok(false), shown) is Tell,
        shown == 0 && attempt < 5 ==> after_page(attempt, Ok(false), shown) is Again,
        shown == 0 && attempt >= 5 ==> after_page(attempt, Ok(false), shown) is Tell,
{
}

/// A device is called by the name it was given, or else by its id; without a device it is the user.
pub proof fn law_a_device_is_called_by_its_name(name: Option<Seq<char>>, id: Option<Seq<char>>, user_id: Seq<char>)
    ensures
        id is Some && name is Some ==> label_of(name, id, user_id) == name->0,
        id is Some && name is None ==> label_of(name, id, user_id) == id->0,
        id is None ==> label_of(name, id, user_id) == user_id,
{
}

} // verus!
