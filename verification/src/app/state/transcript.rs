//! Reading: which message is selected, how far the transcript is scrolled, when older
//! messages are asked for, and what a message can be made to do.

use vstd::prelude::*;

use crate::agent::protocol::{ApprovalChoice, Tool, ToolModel};
use crate::agent::store::{answered, Pending as Prompt, PendingModel as PromptModel};
use crate::app::composer::ComposerModel;
use crate::app::config::{expanded, is_expanded};
use crate::app::keymap::Mode;
use crate::app::state::{AnchorModel, App, AppModel, Pending, PendingModel, PAGINATE_MARGIN};
use crate::matrix::model as matrix;
use crate::matrix::model::{
    AgentPayload, AgentPayloadModel, Command, CommandModel, Entry, EntryKind, EntryKindModel, EntryModel, Message,
    MessageModel, ViewModel,
};
use crate::seqs::{first_where, lemma_first, lemma_no_first};
use crate::table::lemma_deep;
use crate::text::{headline, same, title_of};

verus! {

// --------------------------------------------------------------------------- entries

/// The event id of an entry that can be selected: a message that has one.
pub open spec fn selectable_id(entry: EntryModel) -> Option<Seq<char>> {
    if entry.kind is Message {
        entry.event_id
    } else {
        None
    }
}

/// The event ids of the messages among these entries, oldest first.
pub open spec fn message_ids(entries: Seq<EntryModel>) -> Seq<Seq<char>>
    decreases entries.len(),
{
    if entries.len() == 0 {
        Seq::empty()
    } else {
        match selectable_id(entries.last()) {
            Some(id) => message_ids(entries.drop_last()).push(id),
            None => message_ids(entries.drop_last()),
        }
    }
}

/// The test for an entry's event id.
pub open spec fn of_event(id: Seq<char>) -> spec_fn(EntryModel) -> bool {
    |e: EntryModel| e.event_id == Some(id)
}

/// The test for an anchor's event id.
pub open spec fn anchors_event(id: Seq<char>) -> spec_fn(AnchorModel) -> bool {
    |a: AnchorModel| a.event_id == id
}

/// The test for being a text.
pub open spec fn being(text: Seq<char>) -> spec_fn(Seq<char>) -> bool {
    |t: Seq<char>| t == text
}

/// The tool card of an entry, with the event it stands in.
pub open spec fn card_of(entry: EntryModel) -> Option<(Seq<char>, ToolModel)> {
    match (entry.kind, entry.event_id) {
        (EntryKindModel::Message(message), Some(id)) => match message.agent {
            AgentPayloadModel::Structured { event, .. } => match event.tool {
                Some(tool) => Some((id, tool)),
                None => None,
            },
            _ => None,
        },
        _ => None,
    }
}

/// The newest tool card among these entries.
pub open spec fn newest_card(entries: Seq<EntryModel>) -> Option<(Seq<char>, ToolModel)>
    decreases entries.len(),
{
    if entries.len() == 0 {
        None
    } else if card_of(entries.last()) is Some {
        card_of(entries.last())
    } else {
        newest_card(entries.drop_last())
    }
}

/// The event of an entry that asks for an approval.
pub open spec fn asks_for(entry: EntryModel, approval_id: Seq<char>) -> Option<Seq<char>> {
    match entry.kind {
        EntryKindModel::Message(message) => match message.agent {
            AgentPayloadModel::Structured { event, .. } => match event.approval {
                Some(approval) => if approval.id == approval_id {
                    entry.event_id
                } else {
                    None
                },
                None => None,
            },
            _ => None,
        },
        _ => None,
    }
}

/// The newest event among these entries that asks for an approval.
pub open spec fn prompt_event(entries: Seq<EntryModel>, approval_id: Seq<char>) -> Option<Seq<char>>
    decreases entries.len(),
{
    if entries.len() == 0 {
        None
    } else if asks_for(entries.last(), approval_id) is Some {
        asks_for(entries.last(), approval_id)
    } else {
        prompt_event(entries.drop_last(), approval_id)
    }
}

/// The test for a reaction that stands for a choice.
pub open spec fn stands_for(choice: Seq<char>) -> spec_fn((Seq<char>, Seq<char>)) -> bool {
    |p: (Seq<char>, Seq<char>)| p.1 == choice
}

/// The emoji that answers an approval: the one the agent advertised, else the customary one.
pub open spec fn answer_emoji(reactions: Seq<(Seq<char>, Seq<char>)>, approve: bool) -> Seq<char> {
    let wanted = if approve {
        "approve"@
    } else {
        "deny"@
    };
    match first_where(reactions, stands_for(wanted)) {
        Some(i) => reactions[i].0,
        None => if approve {
            "✅"@
        } else {
            "❌"@
        },
    }
}

/// A number kept between two bounds.
pub open spec fn clamp(n: int, low: int, high: int) -> int {
    if n < low {
        low
    } else if n > high {
        high
    } else {
        n
    }
}

/// One number less another, stopping at zero.
pub open spec fn less(a: int, b: int) -> int {
    if a > b {
        a - b
    } else {
        0
    }
}

impl AppModel {
    // ---------------------------------------------------------------------- selection

    /// The entries of a view, as far as they are loaded.
    pub open spec fn entries_of(self, view: ViewModel) -> Seq<EntryModel> {
        if self.timelines.contains_key(view) {
            self.timelines[view]
        } else {
            Seq::empty()
        }
    }

    /// The event ids of the selectable messages in the focused view, oldest first.
    pub open spec fn selectable(self) -> Seq<Seq<char>> {
        match self.focused_view() {
            Some(view) => message_ids(self.entries_of(view)),
            None => Seq::empty(),
        }
    }

    /// The selected event in the focused view.
    pub open spec fn selected_event(self) -> Option<Seq<char>> {
        match self.focused_view() {
            Some(view) => if self.selected.contains_key(view) {
                Some(self.selected[view])
            } else {
                None
            },
            None => None,
        }
    }

    /// The selected message in the focused view, where it is loaded.
    pub open spec fn selected_message(self) -> Option<MessageModel> {
        match (self.focused_view(), self.selected_event()) {
            (Some(view), Some(id)) => match first_where(self.entries_of(view), of_event(id)) {
                Some(i) => match self.entries_of(view)[i].kind {
                    EntryKindModel::Message(message) => Some(message),
                    _ => None,
                },
                None => None,
            },
            _ => None,
        }
    }

    /// The thread reachable from the selected message: its root and a title. A message
    /// either roots a thread or sits inside one; both are a way in.
    pub open spec fn selected_thread(self) -> Option<(Seq<char>, Seq<char>)> {
        match self.selected_message() {
            Some(message) => if message.thread_replies is Some {
                Some((self.selected_event()->0, headline(message.body)))
            } else {
                match message.thread_root {
                    Some(root) => Some((root, headline(message.body))),
                    None => None,
                }
            },
            None => None,
        }
    }

    // ---------------------------------------------------------------------- scrolling

    /// The largest meaningful scroll offset: one screen short of the oldest line.
    pub open spec fn max_scroll(self) -> int {
        less(self.rendered_lines as int, self.viewport_height as int)
    }

    /// How far a view is scrolled up from the bottom.
    pub open spec fn scroll_of(self, view: ViewModel) -> int {
        if self.scroll.contains_key(view) {
            self.scroll[view] as int
        } else {
            0
        }
    }

    /// The client with a view scrolled.
    pub open spec fn scrolled(self, view: ViewModel, to: int) -> AppModel {
        AppModel { scroll: self.scroll.insert(view, to as u16), ..self }
    }

    /// Whether there is nothing older than what is loaded.
    pub open spec fn at_start(self, view: ViewModel) -> bool {
        self.entries_of(view).len() > 0 && self.entries_of(view)[0].kind is TimelineStart
    }

    /// Older events asked for, once the user is near the top. Not asked for twice at once,
    /// and not where there are none.
    pub open spec fn paginate_if_near_top(self, view: ViewModel, scroll: int) -> AppModel {
        if self.at_start(view) || scroll + PAGINATE_MARGIN < self.max_scroll() || self.paginating.contains(view) {
            self
        } else {
            AppModel { paginating: self.paginating.insert(view), ..self }.queue(
                CommandModel::Paginate { view, count: 0 },
            )
        }
    }

    /// The transcript scrolled: down for a positive number of lines, up for a negative one.
    pub open spec fn scroll_by(self, delta: int) -> AppModel {
        match self.focused_view() {
            Some(view) => {
                let next = clamp(self.scroll_of(view) - delta, 0, self.max_scroll());
                let moved = self.scrolled(view, next);
                if delta < 0 {
                    moved.paginate_if_near_top(view, next)
                } else {
                    moved
                }
            },
            None => self,
        }
    }

    /// The transcript scrolled to a place, no further than the top.
    pub open spec fn set_scroll(self, value: int) -> AppModel {
        match self.focused_view() {
            Some(view) => {
                let to = clamp(value, 0, self.max_scroll());
                self.scrolled(view, to).paginate_if_near_top(view, to)
            },
            None => self,
        }
    }

    /// The scroll offset that puts a row on screen, where it is not there already. The
    /// offset counts from the bottom and the row from the top.
    pub open spec fn scroll_showing(self, view: ViewModel, row: int) -> Option<int> {
        let height = if self.viewport_height == 0 {
            1
        } else {
            self.viewport_height as int
        };
        let top = less(self.max_scroll(), self.scroll_of(view));
        if row < top {
            Some(less(self.max_scroll(), row))
        } else if row >= top + height {
            Some(less(self.max_scroll(), less(row, height - 1)))
        } else {
            None
        }
    }

    /// The transcript scrolled so that the selected message is on screen.
    pub open spec fn scroll_to_selection(self) -> AppModel {
        match (self.focused_view(), self.selected_event()) {
            (Some(view), Some(id)) => match first_where(self.anchors, anchors_event(id)) {
                Some(i) => match self.scroll_showing(view, self.anchors[i].row as int) {
                    Some(to) => self.scrolled(view, to),
                    None => self,
                },
                None => self,
            },
            _ => self,
        }
    }

    /// The message that a move selects. With nothing selected it is the newest.
    pub open spec fn moved_selection(self, view: ViewModel, delta: int) -> int {
        let ids = self.selectable();
        let current = if self.selected.contains_key(view) {
            first_where(ids, being(self.selected[view]))
        } else {
            None
        };
        match current {
            Some(i) => clamp(i + delta, 0, ids.len() - 1),
            None => ids.len() - 1,
        }
    }

    /// The selection moved by some messages; towards older for a negative number. A view
    /// with nothing to select is scrolled. The newest message takes the transcript to the
    /// bottom, and the oldest loaded one to the top, where more is asked for.
    pub open spec fn select_by(self, delta: int) -> AppModel {
        let ids = self.selectable();
        if ids.len() == 0 {
            self.scroll_by(delta)
        } else {
            let view = self.focused_view()->0;
            let next = self.moved_selection(view, delta);
            let chosen = AppModel { selected: self.selected.insert(view, ids[next]), ..self }.scroll_to_selection();
            if next + 1 == ids.len() {
                chosen.scrolled(view, 0)
            } else if next == 0 {
                chosen.scrolled(view, self.max_scroll()).paginate_if_near_top(view, self.max_scroll())
            } else {
                chosen
            }
        }
    }

    // ------------------------------------------------------------ acting on a message

    /// A reply to the selected message begun.
    pub open spec fn begin_reply(self) -> AppModel {
        match self.selected_event() {
            Some(id) => AppModel { composing: Some(PendingModel::Reply(id)), mode: Mode::Insert, ..self },
            None => self.says("select a message first"@),
        }
    }

    /// The selected message taken into the composer to be edited. Only own messages can be.
    pub open spec fn begin_edit(self) -> AppModel {
        match self.selected_event() {
            Some(id) => match self.selected_message() {
                Some(message) => if message.is_own {
                    AppModel {
                        composing: Some(PendingModel::Edit(id)),
                        mode: Mode::Insert,
                        ..self.edited(|c: ComposerModel| c.set_text(message.body))
                    }
                } else {
                    self.says("you can only edit your own messages"@)
                },
                None => self.says("that is not an editable message"@),
            },
            None => self.says("select a message first"@),
        }
    }

    /// The selected message deleted. The first press arms, the second confirms.
    pub open spec fn redact_selected(self) -> AppModel {
        match self.selected_event() {
            Some(id) => if self.confirm_redact == Some(id) {
                AppModel { confirm_redact: None, ..self }.queue(
                    CommandModel::Redact { view: self.focused_view()->0, event_id: id },
                ).says("deleted"@)
            } else {
                AppModel { confirm_redact: Some(id), ..self }.says("press D again to delete"@)
            },
            None => self.says("select a message first"@),
        }
    }

    /// The newest tool card in the focused view opened if it is closed, and closed if it is
    /// open.
    pub open spec fn toggle_card(self) -> AppModel {
        match self.focused_view() {
            Some(view) => match newest_card(self.entries_of(view)) {
                Some((id, tool)) => {
                    let key = (id, tool.index);
                    let chosen = if self.overrides.contains_key(key) {
                        Some(self.overrides[key])
                    } else {
                        None
                    };
                    AppModel {
                        overrides: self.overrides.insert(
                            key,
                            !expanded(tool, self.render_options.auto_expand, chosen),
                        ),
                        ..self
                    }
                },
                None => self,
            },
            None => self,
        }
    }

    /// The oldest prompt of the focused thread.
    pub open spec fn focused_prompt(self) -> Option<PromptModel> {
        match self.focused_view() {
            Some(view) => match view.thread_root {
                Some(root) => if self.agents.contains_key(root) && self.agents[root].pending.len() > 0 {
                    Some(self.agents[root].pending[0])
                } else {
                    None
                },
                None => None,
            },
            None => None,
        }
    }

    /// A session without one of its prompts.
    pub open spec fn without_prompt(self, root: Seq<char>, id: Seq<char>) -> AppModel {
        AppModel {
            agents: self.agents.insert(
                root,
                answered(self.agents[root], id),
            ),
            ..self
        }
    }

    /// The focused pane's prompt answered by the matching reaction to the event that asks.
    pub open spec fn resolve_prompt(self, approve: bool) -> AppModel {
        match self.focused_prompt() {
            Some(PromptModel::Approval(approval)) => {
                let view = self.focused_view()->0;
                match prompt_event(self.entries_of(view), approval.id) {
                    Some(event_id) => self.queue(
                        CommandModel::ToggleReaction { view, event_id, key: answer_emoji(approval.reactions, approve) },
                    ).without_prompt(view.thread_root->0, approval.id).refresh_pane_states(),
                    None => self.says("cannot locate the approval event"@),
                }
            },
            Some(PromptModel::Picker(_)) => self.says("use the picker overlay to choose a model"@),
            None => self,
        }
    }
}

// ---------------------------------------------------------------------- carrying it out

fn ids_of(entries: &Vec<Entry>) -> (r: Vec<String>)
    ensures
        r.deep_view() == message_ids(entries.deep_view()),
{
    let ghost all = entries.deep_view();
    let mut out: Vec<String> = Vec::new();
    let mut i: usize = 0;
    assert(out.deep_view() =~= message_ids(all.take(0)));
    while i < entries.len()
        invariant
            i <= entries.len(),
            all == entries.deep_view(),
            out.deep_view() == message_ids(all.take(i as int)),
        decreases entries.len() - i,
    {
        let ghost so_far = out.deep_view();
        proof {
            assert(all.take(i + 1).drop_last() =~= all.take(i as int));
            assert(all.take(i + 1).last() == entries@[i as int]@);
        }
        if let EntryKind::Message(_) = &entries[i].kind {
            if let Some(id) = &entries[i].event_id {
                out.push(id.clone());
                assert(out.deep_view() =~= so_far.push(id@));
            }
        }
        i += 1;
    }
    assert(all.take(all.len() as int) =~= all);
    out
}

fn find_entry<'a>(entries: &'a Vec<Entry>, id: &str) -> (r: Option<&'a Entry>)
    ensures
        match r {
            Some(e) => {
                &&& first_where(entries.deep_view(), of_event(id@)) is Some
                &&& e@ == entries.deep_view()[first_where(entries.deep_view(), of_event(id@))->0]
            },
            None => first_where(entries.deep_view(), of_event(id@)) is None,
        },
{
    let ghost all = entries.deep_view();
    let mut i: usize = 0;
    while i < entries.len()
        invariant
            i <= entries.len(),
            all == entries.deep_view(),
            forall|j: int| 0 <= j < i ==> !of_event(id@)(#[trigger] all[j]),
        decreases entries.len() - i,
    {
        assert(all[i as int] == entries@[i as int]@);
        if let Some(event_id) = &entries[i].event_id {
            if same(event_id.as_str(), id) {
                proof {
                    assert(of_event(id@)(all[i as int]));
                    lemma_first(all, of_event(id@), i as int);
                }
                return Some(&entries[i]);
            }
        }
        i += 1;
    }
    proof {
        lemma_no_first(all, of_event(id@));
    }
    None
}

fn find_id(ids: &Vec<String>, id: &str) -> (r: Option<usize>)
    ensures
        match r {
            Some(i) => first_where(ids.deep_view(), being(id@)) == Some(i as int) && i < ids.len(),
            None => first_where(ids.deep_view(), being(id@)) is None,
        },
{
    let ghost all = ids.deep_view();
    let mut i: usize = 0;
    while i < ids.len()
        invariant
            i <= ids.len(),
            all == ids.deep_view(),
            forall|j: int| 0 <= j < i ==> !being(id@)(#[trigger] all[j]),
        decreases ids.len() - i,
    {
        assert(all[i as int] == ids@[i as int]@);
        if same(ids[i].as_str(), id) {
            proof {
                assert(being(id@)(all[i as int]));
                lemma_first(all, being(id@), i as int);
            }
            return Some(i);
        }
        i += 1;
    }
    proof {
        lemma_no_first(all, being(id@));
    }
    None
}

fn card_in(entry: &Entry) -> (r: Option<(&String, &Tool)>)
    ensures
        match r {
            Some((id, tool)) => card_of(entry@) == Some((id@, tool@)),
            None => card_of(entry@) is None,
        },
{
    match (&entry.kind, &entry.event_id) {
        (EntryKind::Message(message), Some(id)) => match &message.agent {
            AgentPayload::Structured { event, .. } => match &event.tool {
                Some(tool) => Some((id, tool)),
                None => None,
            },
            _ => None,
        },
        _ => None,
    }
}

fn find_card(entries: &Vec<Entry>) -> (r: Option<(&String, &Tool)>)
    ensures
        match r {
            Some((id, tool)) => newest_card(entries.deep_view()) == Some((id@, tool@)),
            None => newest_card(entries.deep_view()) is None,
        },
{
    let ghost all = entries.deep_view();
    let mut n = entries.len();
    assert(all.take(n as int) =~= all);
    while n > 0
        invariant
            n <= entries.len(),
            all == entries.deep_view(),
            newest_card(all.take(n as int)) == newest_card(all),
        decreases n,
    {
        proof {
            assert(all.take(n as int).drop_last() =~= all.take(n - 1));
            assert(all.take(n as int).last() == entries@[n - 1]@);
        }
        n -= 1;
        if let Some(found) = card_in(&entries[n]) {
            return Some(found);
        }
    }
    None
}

fn prompt_in<'a>(entry: &'a Entry, approval_id: &str) -> (r: Option<&'a String>)
    ensures
        match r {
            Some(id) => asks_for(entry@, approval_id@) == Some(id@),
            None => asks_for(entry@, approval_id@) is None,
        },
{
    match &entry.kind {
        EntryKind::Message(message) => match &message.agent {
            AgentPayload::Structured { event, .. } => match &event.approval {
                Some(approval) => if same(approval.id.as_str(), approval_id) {
                    entry.event_id.as_ref()
                } else {
                    None
                },
                None => None,
            },
            _ => None,
        },
        _ => None,
    }
}

fn find_prompt(entries: &Vec<Entry>, approval_id: &str) -> (r: Option<String>)
    ensures
        r.deep_view() == prompt_event(entries.deep_view(), approval_id@),
{
    let ghost all = entries.deep_view();
    let mut n = entries.len();
    assert(all.take(n as int) =~= all);
    while n > 0
        invariant
            n <= entries.len(),
            all == entries.deep_view(),
            prompt_event(all.take(n as int), approval_id@) == prompt_event(all, approval_id@),
        decreases n,
    {
        proof {
            assert(all.take(n as int).drop_last() =~= all.take(n - 1));
            assert(all.take(n as int).last() == entries@[n - 1]@);
        }
        n -= 1;
        if let Some(id) = prompt_in(&entries[n], approval_id) {
            return Some(id.clone());
        }
    }
    None
}

fn answer(reactions: &Vec<(String, String)>, approve: bool) -> (r: String)
    ensures
        r@ == answer_emoji(reactions.deep_view(), approve),
{
    let wanted = if approve {
        "approve"
    } else {
        "deny"
    };
    let ghost all = reactions.deep_view();
    let mut i: usize = 0;
    while i < reactions.len()
        invariant
            i <= reactions.len(),
            all == reactions.deep_view(),
            wanted@ == (if approve {
                "approve"@
            } else {
                "deny"@
            }),
            forall|j: int| 0 <= j < i ==> !stands_for(wanted@)(#[trigger] all[j]),
        decreases reactions.len() - i,
    {
        assert(all[i as int] == (reactions@[i as int].0@, reactions@[i as int].1@));
        if same(reactions[i].1.as_str(), wanted) {
            proof {
                assert(stands_for(wanted@)(all[i as int]));
                lemma_first(all, stands_for(wanted@), i as int);
            }
            return reactions[i].0.clone();
        }
        i += 1;
    }
    proof {
        lemma_no_first(all, stands_for(wanted@));
    }
    if approve {
        "✅".to_owned()
    } else {
        "❌".to_owned()
    }
}

impl App {
    /// Event ids of the selectable messages in the focused view, oldest first.
    ///
    /// Messages only. Every action reachable from the selection needs a message, and notices
    /// cluster at the end of a transcript, so walking down would appear to run past the last
    /// message onto rows nothing can be done with.
    pub fn selectable(&self) -> (r: Vec<String>)
        ensures
            r.deep_view() == self@.selectable(),
    {
        if let Some(view) = self.focused_view() {
            if let Some(entries) = self.timelines.get(&view) {
                return ids_of(entries);
            }
        }
        let none: Vec<String> = Vec::new();
        assert(none.deep_view() =~= Seq::<Seq<char>>::empty());
        none
    }

    /// The selected event in the focused view.
    pub fn selected_event(&self) -> (r: Option<&str>)
        ensures
            match r {
                Some(id) => self@.selected_event() == Some(id@),
                None => self@.selected_event() is None,
            },
    {
        match self.focused_view() {
            Some(view) => match self.selected.get(&view) {
                Some(id) => Some(id.as_str()),
                None => None,
            },
            None => None,
        }
    }

    /// The selected event in the focused view, to keep.
    pub(crate) fn selected_id(&self) -> (r: Option<String>)
        ensures
            r.deep_view() == self@.selected_event(),
    {
        match self.selected_event() {
            Some(id) => Some(id.to_owned()),
            None => None,
        }
    }

    /// The selected message in the focused view, where it is loaded.
    pub fn selected_message(&self) -> (r: Option<&Message>)
        ensures
            match r {
                Some(m) => self@.selected_message() == Some(m@),
                None => self@.selected_message() is None,
            },
    {
        let view = match self.focused_view() {
            Some(view) => view,
            None => {
                return None;
            },
        };
        let id = match self.selected.get(&view) {
            Some(id) => id,
            None => {
                return None;
            },
        };
        match self.timelines.get(&view) {
            Some(entries) => match find_entry(entries, id.as_str()) {
                Some(entry) => match &entry.kind {
                    EntryKind::Message(message) => Some(message),
                    _ => None,
                },
                None => None,
            },
            None => {
                proof {
                    lemma_no_first(Seq::<EntryModel>::empty(), of_event(id@));
                }
                None
            },
        }
    }

    /// The thread reachable from the selected message, as (root, title).
    pub fn selected_thread(&self) -> (r: Option<(String, String)>)
        ensures
            r.deep_view() == self@.selected_thread(),
    {
        match self.selected_message() {
            Some(message) => {
                let title = title_of(message.body.as_str());
                if message.thread_replies.is_some() {
                    match self.selected_id() {
                        Some(id) => Some((id, title)),
                        None => None,
                    }
                } else {
                    match &message.thread_root {
                        Some(root) => Some((root.clone(), title)),
                        None => None,
                    }
                }
            },
            None => None,
        }
    }

    /// The largest meaningful scroll offset: one screen short of the oldest line.
    ///
    /// Derived from the geometry the renderer recorded, since wrapping depends on the pane
    /// width.
    pub fn max_scroll(&self) -> (r: u16)
        ensures
            r == self@.max_scroll(),
    {
        self.rendered_lines.saturating_sub(self.viewport_height)
    }

    fn scroll_of(&self, view: &matrix::View) -> (r: u16)
        ensures
            r == self@.scroll_of(view@),
    {
        match self.scroll.get(view) {
            Some(n) => *n,
            None => 0,
        }
    }

    fn scroll_view(&mut self, view: &matrix::View, to: u16)
        ensures
            final(self)@ == old(self)@.scrolled(view@, to as int),
    {
        self.scroll.insert(view.clone(), to);
    }

    /// Scroll the focused transcript: down for a positive number of lines, up for a negative
    /// one.
    ///
    /// Clamping at the top is what makes scrolling back down work. Unclamped, every keypress
    /// past the oldest line would have no visible effect, and scrolling down would then have
    /// to unwind all of them.
    pub fn scroll_by(&mut self, delta: i32)
        ensures
            final(self)@ == old(self)@.scroll_by(delta as int),
    {
        let view = match self.focused_view() {
            Some(view) => view,
            None => {
                return ;
            },
        };
        let wanted: i64 = self.scroll_of(&view) as i64 - delta as i64;
        let max = self.max_scroll();
        let next: u16 = if wanted < 0 {
            0
        } else if wanted > max as i64 {
            max
        } else {
            wanted as u16
        };
        self.scroll_view(&view, next);
        if delta < 0 {
            self.paginate_if_near_top(&view, next);
        }
    }

    /// Request older events once the user is within [`PAGINATE_MARGIN`] of the top.
    pub fn paginate_if_near_top(&mut self, view: &matrix::View, scroll: u16)
        ensures
            final(self)@ == old(self)@.paginate_if_near_top(view@, scroll as int),
    {
        // At the start of the room there is nothing older to fetch, and asking anyway would
        // ask again on every keypress.
        let at_start = match self.timelines.get(view) {
            Some(entries) => {
                proof {
                    if entries@.len() > 0 {
                        assert(entries.deep_view()[0] == entries@[0]@);
                    }
                }
                entries.len() > 0 && matches!(entries[0].kind, EntryKind::TimelineStart)
            },
            None => false,
        };
        let near = scroll as u32 + PAGINATE_MARGIN as u32 >= self.max_scroll() as u32;
        if at_start || !near || self.paginating.contains_key(view) {
            return ;
        }
        self.paginating.insert(view.clone(), ());
        self.queue(Command::Paginate { view: view.clone(), count: 0 });
    }

    /// Scroll the focused transcript to a place, no further than the top.
    pub fn set_scroll(&mut self, value: u16)
        ensures
            final(self)@ == old(self)@.set_scroll(value as int),
    {
        let max = self.max_scroll();
        let to = if value > max {
            max
        } else {
            value
        };
        let view = match self.focused_view() {
            Some(view) => view,
            None => {
                return ;
            },
        };
        self.scroll_view(&view, to);
        // Jumping to the top is as much a reason to load more as scrolling there.
        self.paginate_if_near_top(&view, to);
    }

    /// Scroll so the selected message is on screen.
    ///
    /// Uses the anchors the renderer recorded last frame; only it knows which row an event
    /// landed on.
    pub fn scroll_to_selection(&mut self)
        ensures
            final(self)@ == old(self)@.scroll_to_selection(),
    {
        let view = match self.focused_view() {
            Some(view) => view,
            None => {
                return ;
            },
        };
        let id = match self.selected_id() {
            Some(id) => id,
            None => {
                return ;
            },
        };
        let row = match self.anchor_row(id.as_str()) {
            Some(row) => row,
            None => {
                return ;
            },
        };
        let height: u16 = if self.viewport_height == 0 {
            1
        } else {
            self.viewport_height
        };
        let max = self.max_scroll();
        let top = max.saturating_sub(self.scroll_of(&view));
        if row < top {
            self.scroll_view(&view, max.saturating_sub(row));
        } else if row as u32 >= top as u32 + height as u32 {
            self.scroll_view(&view, max.saturating_sub(row.saturating_sub(height - 1)));
        }
    }

    fn anchor_row(&self, id: &str) -> (r: Option<u16>)
        ensures
            r == (match first_where(self@.anchors, anchors_event(id@)) {
                Some(i) => Some(self@.anchors[i].row),
                None => None,
            }),
    {
        let mut i: usize = 0;
        while i < self.anchors.len()
            invariant
                i <= self.anchors.len(),
                forall|j: int| 0 <= j < i ==> !anchors_event(id@)(#[trigger] self@.anchors[j]),
            decreases self.anchors.len() - i,
        {
            assert(self@.anchors[i as int] == self.anchors@[i as int]@);
            if same(self.anchors[i].event_id.as_str(), id) {
                proof {
                    assert(anchors_event(id@)(self@.anchors[i as int]));
                    lemma_first(self@.anchors, anchors_event(id@), i as int);
                }
                return Some(self.anchors[i].row);
            }
            i += 1;
        }
        proof {
            lemma_no_first(self@.anchors, anchors_event(id@));
        }
        None
    }

    fn next_selection(&self, ids: &Vec<String>, view: &matrix::View, delta: i32) -> (r: usize)
        requires
            ids.deep_view() == self@.selectable(),
            ids.len() > 0,
        ensures
            r == self@.moved_selection(view@, delta as int),
            r < ids.len(),
    {
        let n = ids.len();
        let current = match self.selected.get(view) {
            Some(id) => find_id(ids, id.as_str()),
            None => None,
        };
        match current {
            Some(i) => {
                let wanted: i128 = i as i128 + delta as i128;
                if wanted < 0 {
                    0
                } else if wanted > (n - 1) as i128 {
                    n - 1
                } else {
                    wanted as usize
                }
            },
            None => n - 1,
        }
    }

    fn select(&mut self, view: &matrix::View, id: &str)
        ensures
            final(self)@ == (AppModel { selected: old(self)@.selected.insert(view@, id@), ..old(self)@ }),
    {
        proof {
            lemma_deep(self.selected@, view@);
        }
        self.selected.insert(view.clone(), id.to_owned());
    }

    /// Move the selection. `delta` is in messages; negative is towards older.
    ///
    /// With nothing selected, the first move selects the newest message. At the ends,
    /// keeping the selection on screen is not enough: the newest message is usually followed
    /// by notices, and the oldest loaded one is the point at which more history is wanted.
    pub fn select_by(&mut self, delta: i32)
        ensures
            final(self)@ == old(self)@.select_by(delta as int),
    {
        let ghost before = self@;
        let ids = self.selectable();
        let n = ids.len();
        if n == 0 {
            self.scroll_by(delta);
            return ;
        }
        let view = match self.focused_view() {
            Some(view) => view,
            None => {
                return ;
            },
        };
        let next = self.next_selection(&ids, &view, delta);
        assert(ids.deep_view()[next as int] == ids@[next as int]@);
        self.select(&view, ids[next].as_str());
        self.scroll_to_selection();
        if next + 1 == n {
            self.scroll_view(&view, 0);
        } else if next == 0 {
            let top = self.max_scroll();
            self.scroll_view(&view, top);
            self.paginate_if_near_top(&view, top);
        }
    }

    /// Begin a reply to the selected message.
    pub fn begin_reply(&mut self)
        ensures
            final(self)@ == old(self)@.begin_reply(),
    {
        match self.selected_id() {
            Some(id) => {
                self.composing = Some(Pending::Reply(id));
                self.mode = Mode::Insert;
            },
            None => self.say("select a message first"),
        }
    }

    /// Begin editing the selected message, loading it into the composer.
    ///
    /// The server would refuse an edit of someone else's message anyway; saying so now is
    /// cheaper and clearer.
    pub fn begin_edit(&mut self)
        ensures
            final(self)@ == old(self)@.begin_edit(),
    {
        let id = match self.selected_id() {
            Some(id) => id,
            None => {
                self.say("select a message first");
                return ;
            },
        };
        let (body, is_own) = match self.selected_message() {
            Some(message) => (message.body.clone(), message.is_own),
            None => {
                self.say("that is not an editable message");
                return ;
            },
        };
        if !is_own {
            self.say("you can only edit your own messages");
            return ;
        }
        if let Some(composer) = self.composer_mut() {
            composer.set_text(body.as_str());
        }
        self.composing = Some(Pending::Edit(id));
        self.mode = Mode::Insert;
    }

    /// Redact the selected message. The first press arms, the second confirms: redaction
    /// cannot be undone, so it does not get to be one keypress.
    pub fn redact_selected(&mut self)
        ensures
            final(self)@ == old(self)@.redact_selected(),
    {
        let id = match self.selected_id() {
            Some(id) => id,
            None => {
                self.say("select a message first");
                return ;
            },
        };
        let view = match self.focused_view() {
            Some(view) => view,
            None => {
                return ;
            },
        };
        let armed = match &self.confirm_redact {
            Some(armed) => same(armed.as_str(), id.as_str()),
            None => false,
        };
        if armed {
            self.confirm_redact = None;
            self.queue(Command::Redact { view, event_id: id });
            self.say("deleted");
        } else {
            self.confirm_redact = Some(id);
            self.say("press D again to delete");
        }
    }

    /// Toggle the newest tool card in the focused view.
    pub fn toggle_card(&mut self)
        ensures
            final(self)@ == old(self)@.toggle_card(),
    {
        let view = match self.focused_view() {
            Some(view) => view,
            None => {
                return ;
            },
        };
        let entries = match self.timelines.get(&view) {
            Some(entries) => entries,
            None => {
                return ;
            },
        };
        let (key, open) = match find_card(entries) {
            Some((id, tool)) => {
                let key: (String, u32) = (id.clone(), tool.index);
                let chosen = match self.overrides.get(&key) {
                    Some(open) => Some(*open),
                    None => None,
                };
                let open = is_expanded(tool, self.render_options.auto_expand, chosen);
                (key, open)
            },
            None => {
                return ;
            },
        };
        self.overrides.insert(key, !open);
    }

    /// Resolve the focused pane's pending prompt by sending the matching reaction.
    ///
    /// The emoji the agent advertised is preferred; the customary pair stands in for it, so
    /// an older gateway still works.
    pub fn resolve_prompt(&mut self, approve: bool)
        ensures
            final(self)@ == old(self)@.resolve_prompt(approve),
    {
        let view = match self.focused_view() {
            Some(view) => view,
            None => {
                return ;
            },
        };
        let root = match &view.thread_root {
            Some(root) => root.clone(),
            None => {
                return ;
            },
        };
        let (id, emoji) = match self.agents.get(root.as_str()) {
            Some(session) => {
                if session.pending.len() == 0 {
                    return ;
                }
                assert(session.pending.deep_view()[0] == session.pending@[0]@);
                match &session.pending[0] {
                    Prompt::Approval(approval) => (approval.id.clone(), answer(&approval.reactions, approve)),
                    Prompt::Picker(_) => {
                        self.say("use the picker overlay to choose a model");
                        return ;
                    },
                }
            },
            None => {
                return ;
            },
        };
        let found = match self.timelines.get(&view) {
            Some(entries) => find_prompt(entries, id.as_str()),
            None => None,
        };
        match found {
            Some(event_id) => {
                self.queue(Command::ToggleReaction { view, event_id, key: emoji });
                let choice = if approve {
                    ApprovalChoice::Approve
                } else {
                    ApprovalChoice::Deny
                };
                self.agents.resolve_pending(root.as_str(), id.as_str(), choice);
                self.refresh_pane_states();
            },
            None => self.say("cannot locate the approval event"),
        }
    }
}

} // verus!
