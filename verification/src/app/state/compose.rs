//! Writing: the composer of each view, what a message answers or replaces, whom it mentions,
//! and what the room is told about the typing.

use vstd::prelude::*;
use vstd::string::*;

use crate::app::composer::{Composer, ComposerModel};

use crate::app::mentions::{mention, mention_text, mentioned, mentions_of, rank_members, ranked};
use crate::app::state::{
    App, AppModel, MentionPicker, MentionPickerModel, Pending, PendingModel, Typing, TypingModel, TYPING_IDLE_MS,
    TYPING_REFRESH_MS,
};
use crate::matrix::model as matrix;
use crate::matrix::model::{Command, CommandModel, MemberSummary, MemberSummaryModel, ViewModel};
use crate::table::lemma_deep;
use crate::text::{same, trim};

verus! {

impl AppModel {
    // --------------------------------------------------------------------- composers

    /// A view's composer. One that was never typed into is empty.
    pub open spec fn composer_of(self, view: ViewModel) -> ComposerModel {
        if self.composers.contains_key(view) {
            self.composers[view]
        } else {
            ComposerModel::empty()
        }
    }

    /// The client with another composer for a view.
    pub open spec fn with_composer(self, view: ViewModel, composer: ComposerModel) -> AppModel {
        AppModel { composers: self.composers.insert(view, composer), ..self }
    }

    /// The client with the composer in focus edited.
    pub open spec fn edited(self, edit: spec_fn(ComposerModel) -> ComposerModel) -> AppModel {
        match self.focused_view() {
            Some(view) => self.with_composer(view, edit(self.composer_of(view))),
            None => self,
        }
    }

    /// The caret one line up, or the message sent before.
    pub open spec fn composer_up(self) -> AppModel {
        self.edited(
            |c: ComposerModel|
                if c.can_go_up() {
                    c.up()
                } else {
                    c.history_prev()
                },
        )
    }

    /// The caret one line down, or the message sent after.
    pub open spec fn composer_down(self) -> AppModel {
        self.edited(
            |c: ComposerModel|
                if c.can_go_down() {
                    c.down()
                } else {
                    c.history_next()
                },
        )
    }

    // ------------------------------------------------------------------------- typing

    /// The room told that the user has stopped, if it believes otherwise.
    pub open spec fn stop_typing(self) -> AppModel {
        match self.typing {
            Some(t) => {
                let quiet = AppModel { typing: None, ..self };
                if t.active {
                    quiet.queue(CommandModel::SendTyping { room_id: t.room_id, typing: false })
                } else {
                    quiet
                }
            },
            None => self,
        }
    }

    /// The composer was edited. Typing in another room than the one last told ends the
    /// typing there first.
    pub open spec fn note_typing(self) -> AppModel {
        match self.focused_view() {
            Some(view) => {
                let fresh = Some(
                    TypingModel {
                        room_id: view.room_id,
                        dirty: true,
                        active: false,
                        last_input_ms: 0,
                        last_sent_ms: 0,
                    },
                );
                match self.typing {
                    Some(t) => if t.room_id == view.room_id {
                        AppModel { typing: Some(TypingModel { dirty: true, ..t }), ..self }
                    } else {
                        AppModel { typing: fresh, ..self.stop_typing() }
                    },
                    None => AppModel { typing: fresh, ..self },
                }
            },
            None => self,
        }
    }

    /// A moment passed. After a keypress the room is told that the user types, unless it
    /// was told lately; after a pause it is told that they stopped.
    pub open spec fn tick_typing(self, now_ms: u64) -> AppModel {
        match self.typing {
            Some(t) => if t.dirty {
                let heard = TypingModel { dirty: false, last_input_ms: now_ms, ..t };
                if !t.active || now_ms - t.last_sent_ms >= TYPING_REFRESH_MS {
                    AppModel {
                        typing: Some(TypingModel { active: true, last_sent_ms: now_ms, ..heard }),
                        ..self
                    }.queue(CommandModel::SendTyping { room_id: t.room_id, typing: true })
                } else {
                    AppModel { typing: Some(heard), ..self }
                }
            } else if t.active && now_ms - t.last_input_ms >= TYPING_IDLE_MS {
                self.stop_typing()
            } else {
                self
            },
            None => self,
        }
    }

    // ----------------------------------------------------------------------- mentions

    /// The members of a room, as far as they are known.
    pub open spec fn members_of(self, room_id: Seq<char>) -> Seq<MemberSummaryModel> {
        if self.members.contains_key(room_id) {
            self.members[room_id]
        } else {
            Seq::empty()
        }
    }

    /// The mention picker that the composer in focus calls for.
    pub open spec fn picker_for(self, view: ViewModel) -> Option<MentionPickerModel> {
        let query = if self.composers.contains_key(view) {
            self.composers[view].mention_query()
        } else {
            None
        };
        match query {
            Some((start, text)) => {
                let matches = ranked(self.members_of(view.room_id), text);
                let last = if matches.len() > 0 {
                    matches.len() - 1
                } else {
                    0
                };
                let selected = match self.mentions {
                    Some(open) => if open.start == start && open.matches == matches {
                        if open.selected < last {
                            open.selected as int
                        } else {
                            last
                        }
                    } else {
                        0
                    },
                    None => 0,
                };
                Some(MentionPickerModel { start: start as usize, matches, selected: selected as usize })
            },
            None => None,
        }
    }

    /// The mention picker recomputed from the composer. The highlight stays where the user
    /// put it while the query is unchanged.
    pub open spec fn refilter_mentions(self) -> AppModel {
        match self.focused_view() {
            Some(view) => match self.picker_for(view) {
                Some(picker) => AppModel { mentions: Some(picker), needs_redraw: true, ..self },
                None => AppModel { mentions: None, ..self },
            },
            None => AppModel { mentions: None, ..self },
        }
    }

    /// The member that the mention picker highlights.
    pub open spec fn highlighted(self, picker: MentionPickerModel, view: ViewModel) -> Option<MemberSummaryModel> {
        let room = self.members_of(view.room_id);
        if picker.selected < picker.matches.len() && picker.matches[picker.selected as int] < room.len() {
            Some(room[picker.matches[picker.selected as int] as int])
        } else {
            None
        }
    }

    /// The highlighted member put into the composer in place of what was typed.
    pub open spec fn accept_mention(self) -> AppModel {
        match self.mentions {
            Some(picker) => {
                let taken = AppModel { mentions: None, ..self };
                match self.focused_view() {
                    Some(view) => match self.highlighted(picker, view) {
                        Some(member) => {
                            let text = mention(member, self.members_of(view.room_id)) + " "@;
                            let written = if self.composers.contains_key(view) {
                                taken.with_composer(
                                    view,
                                    self.composers[view].replace_mention(picker.start as int, text),
                                )
                            } else {
                                taken
                            };
                            AppModel { needs_redraw: true, ..written }
                        },
                        None => taken,
                    },
                    None => taken,
                }
            },
            None => self,
        }
    }

    // ------------------------------------------------------------------------- sending

    /// The command that sends a message: an answer, a replacement, or a new one.
    pub open spec fn sending(self, view: ViewModel, body: Seq<char>) -> CommandModel {
        let mentions = mentioned(self.members_of(view.room_id), body);
        match self.composing {
            Some(PendingModel::Reply(in_reply_to)) => CommandModel::SendReply { view, in_reply_to, body, mentions },
            Some(PendingModel::Edit(event_id)) => CommandModel::Edit { view, event_id, body, mentions },
            None => CommandModel::SendMessage { view, body, mentions },
        }
    }

    /// The message in the composer sent. Sending ends the typing; a blank message is
    /// cleared and not sent.
    pub open spec fn submit(self) -> AppModel {
        let quiet = self.stop_typing();
        match self.focused_view() {
            Some(view) => {
                let composer = self.composer_of(view);
                let body = trim(composer.text);
                let cleared = quiet.with_composer(view, composer.taken());
                if body.len() == 0 {
                    cleared
                } else {
                    AppModel { composing: None, ..cleared }.queue(self.sending(view, body))
                }
            },
            None => quiet.says("no pane focused"@),
        }
    }

    /// A reply, an edit or an armed redaction abandoned.
    pub open spec fn cancel_pending(self) -> AppModel {
        let disarmed = AppModel { confirm_redact: None, ..self };
        if self.composing is Some {
            AppModel { composing: None, ..disarmed }.edited(|c: ComposerModel| c.set_text(Seq::empty()))
        } else {
            disarmed
        }
    }
}

impl App {
    /// The focused view's composer, for drawing. None when nothing is focused or nothing
    /// has been typed there.
    pub fn composer(&self) -> (r: Option<&Composer>)
        ensures
            match r {
                Some(c) => {
                    &&& self@.focused_view() is Some
                    &&& self@.composers.contains_key(self@.focused_view()->0)
                    &&& c@ == self@.composers[self@.focused_view()->0]
                },
                None => self@.focused_view() is None || !self@.composers.contains_key(self@.focused_view()->0),
            },
    {
        match self.focused_view() {
            Some(view) => self.composers.get(&view),
            None => None,
        }
    }

    /// A view's composer, created on first keystroke.
    fn composer_at(&mut self, view: &matrix::View) -> (r: &mut Composer)
        ensures
            r@ == old(self)@.composer_of(view@),
            final(self)@ == old(self)@.with_composer(view@, final(r)@),
    {
        let ghost before = self@;
        if !self.composers.contains_key(view) {
            proof {
                lemma_deep(self.composers@, view@);
            }
            self.composers.insert(view.clone(), Composer::new());
        }
        proof {
            lemma_deep(self.composers@, view@);
            assert forall|c: ComposerModel| #[trigger]
                self@.composers.insert(view@, c) == before.composers.insert(view@, c) by {
                assert(self@.composers.insert(view@, c) =~= before.composers.insert(view@, c));
            }
        }
        let r = self.composers.get_mut(view);
        r.unwrap()
    }

    /// The focused view's composer, created on first keystroke.
    pub fn composer_mut(&mut self) -> (r: Option<&mut Composer>)
        ensures
            match r {
                Some(c) => {
                    &&& old(self)@.focused_view() is Some
                    &&& c@ == old(self)@.composer_of(old(self)@.focused_view()->0)
                    &&& final(self)@ == old(self)@.with_composer(old(self)@.focused_view()->0, final(c)@)
                },
                None => old(self)@.focused_view() is None && final(self)@ == old(self)@,
            },
    {
        match self.focused_view() {
            Some(view) => Some(self.composer_at(&view)),
            None => None,
        }
    }

    /// Move the caret up, falling back to recalling an older sent message.
    ///
    /// Up is "the line above" when there is one and "the thing I said before" when there is
    /// not.
    pub fn composer_up(&mut self)
        ensures
            final(self)@ == old(self)@.composer_up(),
    {
        if let Some(composer) = self.composer_mut() {
            if !composer.up() {
                composer.history_prev();
            }
        }
    }

    /// Move the caret down, falling back to a newer sent message.
    pub fn composer_down(&mut self)
        ensures
            final(self)@ == old(self)@.composer_down(),
    {
        if let Some(composer) = self.composer_mut() {
            if !composer.down() {
                composer.history_next();
            }
        }
    }

    // ------------------------------------------------------------------------- typing

    /// Record that the composer was edited.
    ///
    /// Does no clock work and queues nothing: a notice per keystroke would be one request
    /// per character. The tick decides what the room needs to hear.
    pub fn note_typing(&mut self)
        ensures
            final(self)@ == old(self)@.note_typing(),
    {
        let room_id = match self.focused_view() {
            Some(view) => view.room_id,
            None => {
                return ;
            },
        };
        let here = match &self.typing {
            Some(typing) => same(typing.room_id.as_str(), room_id.as_str()),
            None => false,
        };
        if here {
            if let Some(typing) = &mut self.typing {
                typing.dirty = true;
            }
        } else {
            self.stop_typing();
            self.typing = Some(Typing { room_id, dirty: true, active: false, last_input_ms: 0, last_sent_ms: 0 });
        }
    }

    /// Drive outbound typing notices. Called from the event loop's tick.
    pub fn tick_typing(&mut self, now_ms: u64)
        ensures
            final(self)@ == old(self)@.tick_typing(now_ms),
    {
        let mut send: Option<String> = None;
        let mut stop = false;
        if let Some(typing) = &mut self.typing {
            if typing.dirty {
                typing.dirty = false;
                typing.last_input_ms = now_ms;
                // Asserted again on a timer rather than per keystroke: the notice has a
                // lifetime, so it needs refreshing while a long message is written.
                let stale = now_ms.saturating_sub(typing.last_sent_ms) >= TYPING_REFRESH_MS;
                if !typing.active || stale {
                    typing.active = true;
                    typing.last_sent_ms = now_ms;
                    send = Some(typing.room_id.clone());
                }
            } else if typing.active && now_ms.saturating_sub(typing.last_input_ms) >= TYPING_IDLE_MS {
                stop = true;
            }
        }
        if stop {
            self.stop_typing();
        } else if let Some(room_id) = send {
            self.queue(Command::SendTyping { room_id, typing: true });
        }
    }

    /// Tell the room the user has stopped, if it currently believes otherwise.
    pub fn stop_typing(&mut self)
        ensures
            final(self)@ == old(self)@.stop_typing(),
    {
        let mut typing: Option<Typing> = None;
        std::mem::swap(&mut self.typing, &mut typing);
        if let Some(typing) = typing {
            if typing.active {
                self.queue(Command::SendTyping { room_id: typing.room_id, typing: false });
            }
        }
    }

    // ----------------------------------------------------------------------- mentions

    /// Recompute the mention picker from the composer, opening or closing it as needed.
    ///
    /// Called after every composer edit rather than driven by its own keystrokes: the buffer
    /// is the truth about what is being typed, and deriving the query from it is what makes
    /// the popup survive a backspace, a caret move, or a pasted line. An armed `@` with
    /// nothing behind it stays armed: the next character may well match.
    pub fn refilter_mentions(&mut self)
        ensures
            final(self)@ == old(self)@.refilter_mentions(),
    {
        let ghost before = self@;
        let view = match self.focused_view() {
            Some(view) => view,
            None => {
                self.mentions = None;
                return ;
            },
        };
        proof {
            lemma_deep(self.composers@, view@);
            lemma_deep(self.members@, view@.room_id);
        }
        let found = match self.composers.get(&view) {
            Some(composer) => match composer.mention_query() {
                Some((start, query)) => {
                    let matches = match self.members.get(view.room_id.as_str()) {
                        Some(members) => rank_members(members, query),
                        None => {
                            let nobody: Vec<MemberSummary> = Vec::new();
                            assert(nobody.deep_view() =~= Seq::<MemberSummaryModel>::empty());
                            rank_members(&nobody, query)
                        },
                    };
                    Some((start, matches))
                },
                None => None,
            },
            None => None,
        };
        let (start, matches) = match found {
            Some(found) => found,
            None => {
                self.mentions = None;
                return ;
            },
        };
        let selected: usize = match &self.mentions {
            Some(open) => if open.start == start && same_places(&open.matches, &matches) {
                let last: usize = if matches.len() > 0 {
                    matches.len() - 1
                } else {
                    0
                };
                if open.selected < last {
                    open.selected
                } else {
                    last
                }
            } else {
                0
            },
            None => 0,
        };
        assert(matches.deep_view() =~= matches@);
        proof {
            if self.mentions is Some {
                assert(self.mentions->0.matches.deep_view() =~= self.mentions->0.matches@);
            }
        }
        self.mentions = Some(MentionPicker { start, matches, selected });
        self.needs_redraw = true;
    }

    /// Members of a room whose name is written in `body`, as user IDs.
    pub fn mentioned_in(&self, room_id: &str, body: &str) -> (r: Vec<String>)
        ensures
            r.deep_view() == mentioned(self@.members_of(room_id@), body@),
    {
        match self.members.get(room_id) {
            Some(members) => mentions_of(members, body),
            None => {
                let nobody: Vec<MemberSummary> = Vec::new();
                assert(nobody.deep_view() =~= Seq::<MemberSummaryModel>::empty());
                mentions_of(&nobody, body)
            },
        }
    }

    /// Put the highlighted member into the composer, replacing what was typed.
    pub fn accept_mention(&mut self)
        ensures
            final(self)@ == old(self)@.accept_mention(),
    {
        let ghost before = self@;
        let mut open: Option<MentionPicker> = None;
        std::mem::swap(&mut self.mentions, &mut open);
        let picker = match open {
            Some(picker) => picker,
            None => {
                return ;
            },
        };
        let view = match self.focused_view() {
            Some(view) => view,
            None => {
                return ;
            },
        };
        proof {
            assert(picker.matches.deep_view() =~= picker.matches@);
            lemma_deep(self.composers@, view@);
            lemma_deep(self.members@, view@.room_id);
        }
        let text = match self.members.get(view.room_id.as_str()) {
            Some(members) => {
                if picker.selected >= picker.matches.len() || picker.matches[picker.selected] >= members.len() {
                    return ;
                }
                let member = &members[picker.matches[picker.selected]];
                assert(members.deep_view()[picker.matches@[picker.selected as int] as int] == member@);
                let mut text = mention_text(member, members);
                text.append(" ");
                text
            },
            None => {
                return ;
            },
        };
        if let Some(composer) = self.composers.get_mut(&view) {
            composer.replace_mention(picker.start, text.as_str());
        }
        self.needs_redraw = true;
    }

    /// The members the open picker is offering, in match order.
    pub fn mention_matches(&self) -> (r: Vec<&MemberSummary>)
        ensures
            r.deep_view() == (match (self@.mentions, self@.focused_view()) {
                (Some(picker), Some(view)) => offered(self@.members_of(view.room_id), picker.matches),
                _ => Seq::empty(),
            }),
    {
        let mut out: Vec<&MemberSummary> = Vec::new();
        assert(out.deep_view() =~= Seq::<MemberSummaryModel>::empty());
        let picker = match &self.mentions {
            Some(picker) => picker,
            None => {
                return out;
            },
        };
        let view = match self.focused_view() {
            Some(view) => view,
            None => {
                return out;
            },
        };
        let ghost places = picker.matches@;
        let ghost room = self@.members_of(view@.room_id);
        proof {
            assert(picker.matches.deep_view() =~= places);
        }
        match self.members.get(view.room_id.as_str()) {
            Some(members) => {
                let mut i: usize = 0;
                while i < picker.matches.len()
                    invariant
                        i <= picker.matches.len(),
                        places == picker.matches@,
                        room == members.deep_view(),
                        out.deep_view() == offered(room, places.take(i as int)),
                    decreases picker.matches.len() - i,
                {
                    let ghost so_far = out.deep_view();
                    assert(places.take(i + 1).drop_last() =~= places.take(i as int));
                    let k = picker.matches[i];
                    if k < members.len() {
                        out.push(&members[k]);
                        assert(out.deep_view() =~= so_far.push(room[k as int]));
                    }
                    i += 1;
                }
                assert(places.take(places.len() as int) =~= places);
            },
            None => {
                proof {
                    lemma_nobody_offered(places);
                }
            },
        }
        out
    }

    // ------------------------------------------------------------------------- sending

    /// Send what is in the composer.
    ///
    /// Sending is the clearest possible "finished typing", and does not wait for the idle
    /// timer. Whom the message mentions is read off the finished text, so a name typed out
    /// in full mentions its owner exactly like one picked from the list, and one deleted
    /// afterwards mentions nobody.
    pub fn submit(&mut self)
        ensures
            final(self)@ == old(self)@.submit(),
    {
        let ghost before = self@;
        self.stop_typing();
        let view = match self.focused_view() {
            Some(view) => view,
            None => {
                self.say("no pane focused");
                return ;
            },
        };
        let body = match self.composer_at(&view).take() {
            Some(body) => body,
            None => {
                return ;
            },
        };
        let mentions = self.mentioned_in(view.room_id.as_str(), body.as_str());
        let mut composing: Option<Pending> = None;
        std::mem::swap(&mut self.composing, &mut composing);
        let command = match composing {
            Some(Pending::Reply(in_reply_to)) => Command::SendReply { view, in_reply_to, body, mentions },
            Some(Pending::Edit(event_id)) => Command::Edit { view, event_id, body, mentions },
            None => Command::SendMessage { view, body, mentions },
        };
        assert(command@ == before.sending(view@, body@));
        self.queue(command);
    }

    /// Abandon a reply, edit or arming redaction.
    pub fn cancel_pending(&mut self)
        ensures
            final(self)@ == old(self)@.cancel_pending(),
    {
        let mut composing: Option<Pending> = None;
        std::mem::swap(&mut self.composing, &mut composing);
        if composing.is_some() {
            if let Some(composer) = self.composer_mut() {
                composer.set_text("");
                proof {
                    reveal_strlit("");
                    assert(""@ =~= Seq::<char>::empty());
                }
            }
        }
        self.confirm_redact = None;
    }
}

/// The members at these places, of those that are there.
pub open spec fn offered(room: Seq<MemberSummaryModel>, places: Seq<usize>) -> Seq<MemberSummaryModel>
    decreases places.len(),
{
    if places.len() == 0 {
        Seq::empty()
    } else {
        let rest = offered(room, places.drop_last());
        if places.last() < room.len() {
            rest.push(room[places.last() as int])
        } else {
            rest
        }
    }
}

proof fn lemma_nobody_offered(places: Seq<usize>)
    ensures
        offered(Seq::empty(), places).len() == 0,
        offered(Seq::empty(), places) == Seq::<MemberSummaryModel>::empty(),
    decreases places.len(),
{
    if places.len() > 0 {
        lemma_nobody_offered(places.drop_last());
    }
}

fn same_places(a: &Vec<usize>, b: &Vec<usize>) -> (r: bool)
    ensures
        r == (a@ == b@),
{
    if a.len() != b.len() {
        return false;
    }
    let mut i: usize = 0;
    while i < a.len()
        invariant
            i <= a.len() == b.len(),
            forall|j: int| 0 <= j < i ==> a@[j] == b@[j],
        decreases a.len() - i,
    {
        if a[i] != b[i] {
            return false;
        }
        i += 1;
    }
    assert(a@ =~= b@);
    true
}

} // verus!
