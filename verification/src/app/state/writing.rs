//! What the keys do to the text that is being written.

use vstd::prelude::*;

use crate::app::composer::{line_end, line_start, word_end, word_start, ComposerModel};
use crate::app::keymap::Action;
use crate::app::mentions::{mention, ranked};
use crate::app::state::AppModel;
use crate::app::state::actions::touching;
use crate::app::state::outcomes::at_large;
use crate::matrix::model::{CommandModel, ViewModel};

verus! {

/// A typed character stands before the caret, in the view that has the focus and in no other; the
/// room is to be told of it.
pub proof fn law_a_typed_character_is_written(app: AppModel, view: ViewModel, c: char)
    requires
        at_large(app),
        app.focused_view() == Some(view),
        0 <= app.composer_of(view).cursor <= app.composer_of(view).text.len(),
    ensures
        ({
            let before = app.composer_of(view);
            let after = app.apply_action(Action::Insert(c));
            &&& after.composer_of(view).text == before.text.take(before.cursor).push(c) + before.text.skip(before.cursor)
            &&& after.composer_of(view).cursor == before.cursor + 1
            &&& after.composers == app.composers.insert(view, after.composers[view])
            &&& after.typing is Some
            &&& after.typing->0.room_id == view.room_id
            &&& after.typing->0.dirty
            &&& after.mode == app.mode
        }),
{
    reveal(AppModel::edit_action);
    reveal(touching);
    let before = app.composer_of(view);
    assert(before.insert(c).text =~= before.text.take(before.cursor).push(c) + before.text.skip(before.cursor));
}

/// A line break is a character like any other.
#[verifier::rlimit(50)]
pub proof fn law_a_line_break_is_written(app: AppModel)
    requires
        at_large(app),
    ensures
        app.apply_action(Action::Newline) == app.apply_action(Action::Insert('\n')),
{
    reveal(AppModel::edit_action);
    reveal(touching);
}

/// Removing backwards takes what stands right before the caret.
pub proof fn law_what_is_before_the_caret_is_removed(app: AppModel, view: ViewModel)
    requires
        at_large(app),
        app.focused_view() == Some(view),
    ensures
        ({
            let after = app.apply_action(Action::Backspace);
            &&& after.composer_of(view) == app.composer_of(view).backspace()
            &&& after.typing is Some
            &&& after.typing->0.dirty
            &&& after.typing->0.room_id == view.room_id
        }),
{
    reveal(AppModel::edit_action);
    reveal(touching);
}

/// Removing forwards takes what stands right behind the caret.
pub proof fn law_what_is_behind_the_caret_is_removed(app: AppModel, view: ViewModel)
    requires
        at_large(app),
        app.focused_view() == Some(view),
    ensures
        ({
            let after = app.apply_action(Action::Delete);
            &&& after.composer_of(view) == app.composer_of(view).delete()
            &&& after.typing is Some
            &&& after.typing->0.dirty
            &&& after.typing->0.room_id == view.room_id
        }),
{
    reveal(AppModel::edit_action);
    reveal(touching);
}

/// Removing a word takes what lies between its start and the caret.
pub proof fn law_a_word_is_removed(app: AppModel, view: ViewModel)
    requires
        at_large(app),
        app.focused_view() == Some(view),
    ensures
        ({
            let before = app.composer_of(view);
            let after = app.apply_action(Action::DeleteWord).composer_of(view);
            let from = word_start(before.text, before.cursor);
            &&& after.text == before.text.take(from) + before.text.skip(before.cursor)
            &&& after.cursor == from
        }),
{
    reveal(AppModel::edit_action);
    reveal(touching);
    let before = app.composer_of(view);
    assert(app.apply_action(Action::DeleteWord).composer_of(view) == before.delete_word());
    let from = word_start(before.text, before.cursor);
    assert(before.text.take(from) + Seq::<char>::empty() =~= before.text.take(from));
}

/// Removing back to the start of the line takes what lies between there and the caret.
pub proof fn law_a_line_is_removed_up_to_the_caret(app: AppModel, view: ViewModel)
    requires
        at_large(app),
        app.focused_view() == Some(view),
    ensures
        ({
            let before = app.composer_of(view);
            let after = app.apply_action(Action::DeleteToLineStart).composer_of(view);
            let from = line_start(before.text, before.cursor);
            &&& after.text == before.text.take(from) + before.text.skip(before.cursor)
            &&& after.cursor == from
        }),
{
    reveal(AppModel::edit_action);
    reveal(touching);
    let before = app.composer_of(view);
    assert(app.apply_action(Action::DeleteToLineStart).composer_of(view) == before.delete_to_line_start());
    let from = line_start(before.text, before.cursor);
    assert(before.text.take(from) + Seq::<char>::empty() =~= before.text.take(from));
}

/// Moving the caret moves it where the key says, and writes nothing.
#[verifier::rlimit(50)]
pub proof fn law_the_caret_goes_where_it_is_sent(app: AppModel, view: ViewModel)
    requires
        at_large(app),
        app.focused_view() == Some(view),
    ensures
        ({
            let c = app.composer_of(view);
            &&& app.apply_action(Action::CaretLeft).composer_of(view) == c.left()
            &&& app.apply_action(Action::CaretRight).composer_of(view) == c.right()
            &&& app.apply_action(Action::CaretWordLeft).composer_of(view) == (ComposerModel {
                cursor: word_start(c.text, c.cursor),
                ..c
            })
            &&& app.apply_action(Action::CaretWordRight).composer_of(view) == (ComposerModel {
                cursor: word_end(c.text, c.cursor),
                ..c
            })
        }),
{
    reveal(AppModel::caret_action);
    reveal(touching);
}

/// The ends of the line.
#[verifier::rlimit(50)]
pub proof fn law_the_caret_goes_to_the_ends_of_its_line(app: AppModel, view: ViewModel)
    requires
        at_large(app),
        app.focused_view() == Some(view),
    ensures
        ({
            let c = app.composer_of(view);
            let home = app.apply_action(Action::CaretHome);
            let end = app.apply_action(Action::CaretEnd);
            &&& home.composer_of(view) == (ComposerModel { cursor: line_start(c.text, c.cursor), ..c })
            &&& end.composer_of(view) == (ComposerModel { cursor: line_end(c.text, c.cursor), ..c })
            &&& home.pending == app.pending && end.pending == app.pending
            &&& home.typing == app.typing && end.typing == app.typing
        }),
{
    reveal(AppModel::caret_action);
    reveal(touching);
}

/// Up and down walk the lines of the text, and past its first and last line the messages sent
/// before.
#[verifier::rlimit(50)]
pub proof fn law_the_caret_goes_up_and_down(app: AppModel, view: ViewModel)
    requires
        at_large(app),
        app.focused_view() == Some(view),
        0 <= app.composer_of(view).cursor <= app.composer_of(view).text.len(),
    ensures
        ({
            let c = app.composer_of(view);
            let up = app.apply_action(Action::CaretUp).composer_of(view);
            let down = app.apply_action(Action::CaretDown).composer_of(view);
            &&& line_start(c.text, c.cursor) > 0 ==> up == c.up()
            &&& line_start(c.text, c.cursor) == 0 ==> up == c.history_prev()
            &&& line_end(c.text, c.cursor) < c.text.len() ==> down == c.down()
            &&& line_end(c.text, c.cursor) >= c.text.len() ==> down == c.history_next()
        }),
{
    reveal(AppModel::caret_action);
    reveal(touching);
    crate::app::caret::law_a_line_begins_behind_a_break(app.composer_of(view).text, app.composer_of(view).cursor);
}

// -------------------------------------------------------------------------- offered names

/// Whether names are offered over the panes.
pub open spec fn offered_at(app: AppModel, view: ViewModel) -> bool {
    &&& app.modal is None
    &&& app.mentions is Some
    &&& app.mentions->0.matches.len() > 0
    &&& app.focused_view() == Some(view)
}

/// While names are offered, up and down choose among them, and the text stays.
#[verifier::rlimit(50)]
pub proof fn law_offered_names_are_walked(app: AppModel, view: ViewModel)
    requires
        offered_at(app, view),
        app.mentions->0.selected < app.mentions->0.matches.len() <= usize::MAX,
    ensures
        ({
            let p = app.mentions->0;
            let up = app.apply_action(Action::CaretUp);
            let down = app.apply_action(Action::CaretDown);
            &&& up.mentions is Some && down.mentions is Some
            &&& p.selected > 0 ==> up.mentions->0.selected == p.selected - 1
            &&& p.selected == 0 ==> up.mentions->0.selected == 0
            &&& p.selected + 1 < p.matches.len() ==> down.mentions->0.selected == p.selected + 1
            &&& p.selected + 1 == p.matches.len() ==> down.mentions->0.selected == p.selected
            &&& up.mentions->0.matches == p.matches && down.mentions->0.matches == p.matches
            &&& up.composers == app.composers && down.composers == app.composers
        }),
{
    reveal(AppModel::mention_action);
}

/// Accepting writes the highlighted name over what was typed of it, followed by a space; nothing
/// is sent.
#[verifier::rlimit(50)]
pub proof fn law_the_highlighted_name_is_written(app: AppModel, view: ViewModel)
    requires
        offered_at(app, view),
        app.composers.contains_key(view),
        app.members.contains_key(view.room_id),
        app.mentions->0.selected < app.mentions->0.matches.len(),
        app.mentions->0.matches[app.mentions->0.selected as int] < app.members[view.room_id].len(),
    ensures
        ({
            let p = app.mentions->0;
            let room = app.members[view.room_id];
            let member = room[p.matches[p.selected as int] as int];
            let after = app.apply_action(Action::Submit);
            &&& after == app.apply_action(Action::Complete)
            &&& after.composers[view] == app.composers[view].replace_mention(p.start as int, mention(member, room) + " "@)
            &&& after.mentions is None
            &&& after.pending == app.pending
            &&& after.mode == app.mode
        }),
{
    reveal(AppModel::mention_action);
}

/// Names are offered while one is being typed: those of the room that fit what is typed of it.
pub proof fn law_names_are_offered_while_one_is_typed(app: AppModel, view: ViewModel)
    requires
        app.focused_view() == Some(view),
        app.composers.contains_key(view),
    ensures
        ({
            let after = app.refilter_mentions();
            let query = app.composers[view].mention_query();
            &&& query is None ==> after.mentions is None
            &&& query is Some ==> after.mentions is Some
            &&& query is Some && app.members.contains_key(view.room_id) ==> after.mentions->0.matches == ranked(
                app.members[view.room_id],
                (query->0).1,
            )
            &&& query is Some && 0 <= (query->0).0 <= usize::MAX ==> after.mentions->0.start == (query->0).0
            &&& query is Some && app.mentions is None ==> after.mentions->0.selected == 0
            &&& after.composers == app.composers
            &&& after.pending == app.pending
        }),
{
}

/// The name that was highlighted stays so while the same names are offered at the same place, and the
/// first is where they are others.
pub proof fn law_the_highlight_stays_on_its_name(app: AppModel, view: ViewModel)
    requires
        app.focused_view() == Some(view),
        app.mentions is Some,
        app.picker_for(view) is Some,
    ensures
        ({
            let was = app.mentions->0;
            let now = app.picker_for(view)->0;
            let start = (app.composers[view].mention_query()->0).0;
            &&& was.start == start && was.matches == now.matches && was.selected < now.matches.len()
                ==> now.selected == was.selected
            &&& was.start != start || was.matches != now.matches ==> now.selected == 0
        }),
{
}

/// Typing in another room ends the typing in the one before, which is told so.
pub proof fn law_typing_elsewhere_ends_it(app: AppModel, view: ViewModel)
    requires
        app.focused_view() == Some(view),
    ensures
        ({
            let after = app.note_typing();
            &&& after.typing is Some
            &&& after.typing->0.dirty
            &&& after.typing->0.room_id == view.room_id
            &&& app.typing is None ==> !after.typing->0.active && after.pending == app.pending
            &&& app.typing is Some && app.typing->0.room_id == view.room_id ==> after.typing->0.active
                == app.typing->0.active && after.typing->0.last_sent_ms == app.typing->0.last_sent_ms && after.pending
                == app.pending
            &&& app.typing is Some && app.typing->0.room_id != view.room_id ==> !after.typing->0.active
            &&& app.typing is Some && app.typing->0.room_id != view.room_id && app.typing->0.active
                ==> after.pending == app.pending.push(
                CommandModel::SendTyping { room_id: app.typing->0.room_id, typing: false },
            )
        }),
{
}

} // verus!
