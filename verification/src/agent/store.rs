//! Turn assembly and derived agent state.
//!
//! Matrix delivers agent events out of order, duplicated (edits replay) and interleaved
//! across sessions. This module folds that stream into per-session [`Turn`]s and derives
//! the [`AgentState`] that drives pane, tab and workspace badges.
//!
//! State is always derived, never read off the wire, so a client that joins mid-turn or
//! reconnects converges on the same answer as one that saw every event.

use vstd::prelude::*;
use vstd::string::*;

use crate::agent::protocol::{
    AgentEvent, AgentEventModel, AgentInfo, AgentInfoModel, Approval, ApprovalChoice, ApprovalModel, Kind, Picker,
    PickerModel, Tool, ToolModel, ToolStatus, Usage,
};
use crate::table::{lemma_deep, Table};
use crate::text::{same, starts_with};

verus! {

/// Lifecycle of an agent session, in badge priority order.
///
/// When child states roll up to a tab or workspace badge, `Blocked` outranks `Working`
/// outranks `Done` outranks `Idle`.
#[derive(Debug, Clone, Copy, PartialEq, Eq, Structural, PartialOrd, Ord)]
pub enum AgentState {
    /// Nothing in flight, or the user has seen the result.
    Idle,
    /// Finished, and the pane has not been focused since.
    Done,
    /// Actively producing output or running a tool.
    Working,
    /// Waiting on a human: an approval or a model choice.
    Blocked,
}

/// One user-turn: everything the agent emitted in response to a single prompt.
#[derive(Debug, PartialEq, Eq)]
pub struct Turn {
    pub turn_id: String,
    pub agent: Option<AgentInfo>,
    /// Assistant prose, accumulated from message deltas.
    pub text: String,
    /// Reasoning blocks, accumulated from commentary.
    pub commentary: String,
    /// Tool calls in the order they were invoked, one for each wire index, so a result
    /// updates its call in place rather than appending a duplicate card.
    pub cards: Vec<Tool>,
    pub usage: Option<Usage>,
    /// Set once a final stop arrives.
    pub complete: bool,
    /// Highest `seq` folded in. Used for gap detection and to reject replays.
    pub high_seq: u64,
    /// `seq` values that never arrived. Non-empty means the transcript may be partial.
    pub gaps: Vec<u64>,
}

/// The mathematical content of a [`Turn`].
#[verifier::ext_equal]
pub struct TurnModel {
    pub turn_id: Seq<char>,
    pub agent: Option<AgentInfoModel>,
    pub text: Seq<char>,
    pub commentary: Seq<char>,
    pub cards: Seq<ToolModel>,
    pub usage: Option<Usage>,
    pub complete: bool,
    pub high_seq: u64,
    pub gaps: Seq<u64>,
}

impl View for Turn {
    type V = TurnModel;

    open spec fn view(&self) -> TurnModel {
        TurnModel {
            turn_id: self.turn_id@,
            agent: self.agent.deep_view(),
            text: self.text@,
            commentary: self.commentary@,
            cards: self.cards.deep_view(),
            usage: self.usage,
            complete: self.complete,
            high_seq: self.high_seq,
            gaps: self.gaps.deep_view(),
        }
    }
}

impl DeepView for Turn {
    type V = TurnModel;

    open spec fn deep_view(&self) -> TurnModel {
        self@
    }
}

impl Clone for Turn {
    fn clone(&self) -> (r: Self)
        ensures
            r@ == self@,
    {
        let r = Turn {
            turn_id: self.turn_id.clone(),
            agent: match &self.agent { Some(x) => Some(x.clone()), None => None },
            text: self.text.clone(),
            commentary: self.commentary.clone(),
            cards: self.cards.clone(),
            usage: self.usage,
            complete: self.complete,
            high_seq: self.high_seq,
            gaps: self.gaps.clone(),
        };
        assert(r.agent.deep_view() =~= self.agent.deep_view());
        assert(r.cards.deep_view() =~= self.cards.deep_view());
        assert(r.gaps.deep_view() =~= self.gaps.deep_view());
        r
    }
}

/// A pending human-in-the-loop prompt.
#[derive(Debug, PartialEq, Eq)]
pub enum Pending {
    Approval(Approval),
    Picker(Picker),
}

/// The mathematical content of a [`Pending`].
#[verifier::ext_equal]
pub enum PendingModel {
    Approval(ApprovalModel),
    Picker(PickerModel),
}

impl View for Pending {
    type V = PendingModel;

    open spec fn view(&self) -> PendingModel {
        match self {
            Pending::Approval(a) => PendingModel::Approval(a@),
            Pending::Picker(a) => PendingModel::Picker(a@),
        }
    }
}

impl DeepView for Pending {
    type V = PendingModel;

    open spec fn deep_view(&self) -> PendingModel {
        self@
    }
}

impl Clone for Pending {
    fn clone(&self) -> (r: Self)
        ensures
            r@ == self@,
    {
        let r = match self {
            Pending::Approval(a) => Pending::Approval(a.clone()),
            Pending::Picker(a) => Pending::Picker(a.clone()),
        };
        assert(r@ =~~= self@);
        r
    }
}

/// That a prompt was heard of in a turn, at a number.
#[derive(Debug, PartialEq, Eq)]
pub struct Mark {
    pub id: String,
    pub turn_id: String,
    pub seq: u64,
}

/// The mathematical content of a [`Mark`].
#[verifier::ext_equal]
pub struct MarkModel {
    pub id: Seq<char>,
    pub turn_id: Seq<char>,
    pub seq: u64,
}

impl View for Mark {
    type V = MarkModel;

    open spec fn view(&self) -> MarkModel {
        MarkModel { id: self.id@, turn_id: self.turn_id@, seq: self.seq }
    }
}

impl DeepView for Mark {
    type V = MarkModel;

    open spec fn deep_view(&self) -> MarkModel {
        self@
    }
}

impl Clone for Mark {
    fn clone(&self) -> (r: Self)
        ensures
            r@ == self@,
    {
        Mark { id: self.id.clone(), turn_id: self.turn_id.clone(), seq: self.seq }
    }
}

/// Everything known about one agent session: one Matrix thread, one pane.
#[derive(Debug, PartialEq, Eq)]
pub struct Session {
    pub session_id: String,
    /// Turns in arrival order, oldest first.
    pub turns: Vec<Turn>,
    /// Unresolved approvals and pickers. Any entry here forces [`AgentState::Blocked`].
    pub pending: Vec<Pending>,
    /// Where prompts were asked.
    pub asked: Vec<Mark>,
    /// Up to where prompts were settled: resolved, answered here, or run out. A request from
    /// before that, come again or come late, asks nothing.
    pub settled: Vec<Mark>,
    /// Set when the session is fed by the fallback parser rather than by structured events.
    pub degraded: bool,
    /// Whether the user has looked at this session since it last finished.
    pub seen: bool,
    /// Set by the transport when the agent is typing.
    pub typing: bool,
}

/// The mathematical content of a [`Session`].
#[verifier::ext_equal]
pub struct SessionModel {
    pub session_id: Seq<char>,
    pub turns: Seq<TurnModel>,
    pub pending: Seq<PendingModel>,
    pub asked: Seq<MarkModel>,
    pub settled: Seq<MarkModel>,
    pub degraded: bool,
    pub seen: bool,
    pub typing: bool,
}

impl View for Session {
    type V = SessionModel;

    open spec fn view(&self) -> SessionModel {
        SessionModel {
            session_id: self.session_id@,
            turns: self.turns.deep_view(),
            pending: self.pending.deep_view(),
            asked: self.asked.deep_view(),
            settled: self.settled.deep_view(),
            degraded: self.degraded,
            seen: self.seen,
            typing: self.typing,
        }
    }
}

impl DeepView for Session {
    type V = SessionModel;

    open spec fn deep_view(&self) -> SessionModel {
        self@
    }
}

impl Clone for Session {
    fn clone(&self) -> (r: Self)
        ensures
            r@ == self@,
    {
        let r = Session {
            session_id: self.session_id.clone(),
            turns: self.turns.clone(),
            pending: self.pending.clone(),
            asked: self.asked.clone(),
            settled: self.settled.clone(),
            degraded: self.degraded,
            seen: self.seen,
            typing: self.typing,
        };
        assert(r.turns.deep_view() =~= self.turns.deep_view());
        assert(r.pending.deep_view() =~= self.pending.deep_view());
        assert(r.asked.deep_view() =~= self.asked.deep_view());
        assert(r.settled.deep_view() =~= self.settled.deep_view());
        r
    }
}

impl Default for AgentState {
    fn default() -> (r: Self)
        ensures
            r == AgentState::Idle,
    {
        AgentState::Idle
    }
}

impl AgentState {
    /// Place in the badge priority order.
    pub open spec fn rank(self) -> int {
        match self {
            AgentState::Idle => 0,
            AgentState::Done => 1,
            AgentState::Working => 2,
            AgentState::Blocked => 3,
        }
    }

    /// The glyph shown in badges: a text-presentation shape laid out at one cell.
    pub open spec fn spec_glyph(self) -> Seq<char> {
        match self {
            AgentState::Idle => "·"@,
            AgentState::Done => "✓"@,
            AgentState::Working => "●"@,
            AgentState::Blocked => "▲"@,
        }
    }

    /// The glyph shown in badges.
    ///
    /// All four are text-presentation geometric shapes laid out at one cell. The usual
    /// warning sign is unusable for `Blocked`: terminals promote it to a two-cell emoji.
    pub fn glyph(self) -> (r: &'static str)
        ensures
            r@ == self.spec_glyph(),
    {
        match self {
            AgentState::Idle => "·",
            AgentState::Done => "✓",
            AgentState::Working => "●",
            AgentState::Blocked => "▲",
        }
    }

    /// Whether the state is worth interrupting for.
    pub fn is_notable(self) -> (r: bool)
        ensures
            r == (self is Blocked || self is Done),
    {
        matches!(self, AgentState::Blocked | AgentState::Done)
    }

    /// The more urgent of two states.
    pub open spec fn spec_urgent(self, other: AgentState) -> AgentState {
        if self.rank() < other.rank() {
            other
        } else {
            self
        }
    }

    /// The more urgent of two states.
    pub fn urgent(self, other: AgentState) -> (r: AgentState)
        ensures
            r == self.spec_urgent(other),
    {
        match (self, other) {
            (AgentState::Blocked, _) => self,
            (_, AgentState::Blocked) => other,
            (AgentState::Working, _) => self,
            (_, AgentState::Working) => other,
            (AgentState::Done, _) => self,
            (_, AgentState::Done) => other,
            _ => self,
        }
    }
}

/// The most urgent of a list of states; `Idle` for an empty list.
pub open spec fn most_urgent(states: Seq<AgentState>) -> AgentState
    decreases states.len(),
{
    if states.len() == 0 {
        AgentState::Idle
    } else {
        most_urgent(states.drop_last()).spec_urgent(states.last())
    }
}

/// A roll-up is as urgent as its most urgent member, and no more.
pub proof fn lemma_most_urgent(states: Seq<AgentState>)
    ensures
        forall|i: int| 0 <= i < states.len() ==> (#[trigger] states[i]).rank() <= most_urgent(states).rank(),
        states.len() > 0 ==> states.contains(most_urgent(states)),
        states.len() == 0 ==> most_urgent(states) is Idle,
    decreases states.len(),
{
    if states.len() > 0 {
        let rest = states.drop_last();
        lemma_most_urgent(rest);
        assert forall|i: int| 0 <= i < states.len() implies (#[trigger] states[i]).rank() <= most_urgent(states).rank() by {
            if i < rest.len() {
                assert(states[i] == rest[i]);
            }
        }
        if most_urgent(states) == states.last() {
            assert(states[states.len() - 1] == most_urgent(states));
        } else {
            if rest.len() > 0 {
                let j = rest.index_of(most_urgent(rest));
                assert(states[j] == most_urgent(states));
            }
        }
    }
}

// ------------------------------------------------------------------------- prompts

impl PendingModel {
    /// The prompt's id.
    pub open spec fn id(self) -> Seq<char> {
        match self {
            PendingModel::Approval(a) => a.id,
            PendingModel::Picker(p) => p.id,
        }
    }

    /// Unix seconds at which this prompt expires, if it does.
    pub open spec fn expires_at(self) -> Option<u64> {
        match self {
            PendingModel::Approval(a) => a.expires_at,
            PendingModel::Picker(p) => p.expires_at,
        }
    }
}

impl Pending {
    pub fn id(&self) -> (r: &str)
        ensures
            r@ == self@.id(),
    {
        match self {
            Pending::Approval(a) => a.id.as_str(),
            Pending::Picker(p) => p.id.as_str(),
        }
    }

    /// Unix seconds at which this prompt expires, if it does.
    pub fn expires_at(&self) -> (r: Option<u64>)
        ensures
            r == self@.expires_at(),
    {
        match self {
            Pending::Approval(a) => a.expires_at,
            Pending::Picker(p) => p.expires_at,
        }
    }
}

/// Whether some prompt has this id.
pub open spec fn has_prompt(pending: Seq<PendingModel>, id: Seq<char>) -> bool {
    exists|i: int| 0 <= i < pending.len() && (#[trigger] pending[i]).id() == id
}

/// The prompts but those with this id.
pub open spec fn without_prompt(pending: Seq<PendingModel>, id: Seq<char>) -> Seq<PendingModel> {
    pending.filter(|p: PendingModel| p.id() != id)
}

/// The prompts that have not run out by `now`.
pub open spec fn unexpired(pending: Seq<PendingModel>, now: u64) -> Seq<PendingModel> {
    pending.filter(
        |p: PendingModel|
            match p.expires_at() {
                Some(e) => e > now,
                None => true,
            },
    )
}

/// The ids of the prompts that have run out by `now`.
pub open spec fn expired_ids(pending: Seq<PendingModel>, now: u64) -> Seq<Seq<char>>
    decreases pending.len(),
{
    if pending.len() == 0 {
        Seq::empty()
    } else {
        let rest = expired_ids(pending.drop_last(), now);
        match pending.last().expires_at() {
            Some(e) => if e > now {
                rest
            } else {
                rest.push(pending.last().id())
            },
            None => rest,
        }
    }
}

/// Those of some marks that are about prompts with one of these ids, but for one turn.
pub open spec fn marks_of(marks: Seq<MarkModel>, ids: Seq<Seq<char>>, but: Option<Seq<char>>) -> Seq<MarkModel> {
    marks.filter(|m: MarkModel| ids.contains(m.id) && but != Some(m.turn_id))
}

proof fn lemma_mark_push(marks: Seq<MarkModel>, m: MarkModel, ids: Seq<Seq<char>>, but: Option<Seq<char>>)
    ensures
        marks_of(marks.push(m), ids, but) == (if ids.contains(m.id) && but != Some(m.turn_id) {
            marks_of(marks, ids, but).push(m)
        } else {
            marks_of(marks, ids, but)
        }),
{
    broadcast use Seq::lemma_filter_push;

}

fn has_id(ids: &Vec<String>, id: &str) -> (r: bool)
    ensures
        r == ids.deep_view().contains(id@),
{
    let mut i: usize = 0;
    while i < ids.len()
        invariant
            i <= ids.len(),
            forall|j: int| 0 <= j < i ==> ids.deep_view()[j] != id@,
        decreases ids.len() - i,
    {
        if same(ids[i].as_str(), id) {
            assert(ids.deep_view()[i as int] == id@);
            return true;
        }
        i += 1;
    }
    false
}

fn only(id: &str) -> (r: Vec<String>)
    ensures
        r.deep_view() == seq![id@],
{
    let mut ids: Vec<String> = Vec::new();
    ids.push(id.to_owned());
    assert(ids.deep_view() =~= seq![id@]);
    ids
}

/// Settle prompts wherever they were asked, but for one turn.
fn settle_asked(settled: &mut Vec<Mark>, asked: &Vec<Mark>, ids: &Vec<String>, but: Option<&str>)
    ensures
        final(settled).deep_view() == old(settled).deep_view() + marks_of(
            asked.deep_view(),
            ids.deep_view(),
            turn_of(but),
        ),
{
    let ghost known = settled.deep_view();
    let ghost all = asked.deep_view();
    let ghost wanted = ids.deep_view();
    let ghost turn = turn_of(but);
    let mut i: usize = 0;
    proof {
        broadcast use Seq::lemma_filter_len;

        assert(all.take(0) =~= Seq::<MarkModel>::empty());
        assert(known + marks_of(all.take(0), wanted, turn) =~= known);
    }
    while i < asked.len()
        invariant
            i <= asked.len(),
            all == asked.deep_view(),
            wanted == ids.deep_view(),
            turn == turn_of(but),
            settled.deep_view() == known + marks_of(all.take(i as int), wanted, turn),
        decreases asked.len() - i,
    {
        let ghost before = settled.deep_view();
        let m = &asked[i];
        proof {
            assert(m@ == all[i as int]);
            assert(all.take(i + 1) =~= all.take(i as int).push(all[i as int]));
            lemma_mark_push(all.take(i as int), all[i as int], wanted, turn);
        }
        let skipped = match but {
            Some(turn_id) => same(m.turn_id.as_str(), turn_id),
            None => false,
        };
        if has_id(ids, m.id.as_str()) && !skipped {
            settled.push(m.clone());
            assert(settled.deep_view() =~= before.push(all[i as int]));
            assert(settled.deep_view() =~= known + marks_of(all.take(i + 1), wanted, turn));
        }
        i += 1;
    }
    assert(all.take(all.len() as int) =~= all);
}

spec fn turn_of(turn: Option<&str>) -> Option<Seq<char>> {
    match turn {
        Some(turn_id) => Some(turn_id@),
        None => None,
    }
}

/// Whether a prompt was heard of in a turn at this number, or at a larger one.
pub open spec fn marked(marks: Seq<MarkModel>, id: Seq<char>, ev: AgentEventModel) -> bool {
    exists|i: int| 0 <= i < marks.len() && (#[trigger] marks[i]).covers(id, ev)
}

/// These marks, and that a prompt was heard of in an event.
pub open spec fn with_mark(marks: Seq<MarkModel>, id: Seq<char>, ev: AgentEventModel) -> Seq<MarkModel> {
    if marked(marks, id, ev) {
        marks
    } else {
        marks.push(MarkModel { id, turn_id: ev.turn_id, seq: ev.seq })
    }
}

impl MarkModel {
    /// Whether this says that a prompt was heard of no earlier than in an event.
    pub open spec fn covers(self, id: Seq<char>, ev: AgentEventModel) -> bool {
        self.id == id && self.turn_id == ev.turn_id && ev.seq <= self.seq
    }
}

fn is_marked(marks: &Vec<Mark>, id: &str, ev: &AgentEvent) -> (r: bool)
    ensures
        r == marked(marks.deep_view(), id@, ev@),
{
    let mut i: usize = 0;
    while i < marks.len()
        invariant
            i <= marks.len(),
            forall|j: int| 0 <= j < i ==> !(#[trigger] marks.deep_view()[j]).covers(id@, ev@),
        decreases marks.len() - i,
    {
        let m = &marks[i];
        assert(marks.deep_view()[i as int] == m@);
        if same(m.id.as_str(), id) && same(m.turn_id.as_str(), ev.turn_id.as_str()) && ev.seq <= m.seq {
            assert(marks.deep_view()[i as int].covers(id@, ev@));
            return true;
        }
        i += 1;
    }
    false
}

fn add_mark(marks: &mut Vec<Mark>, id: &str, ev: &AgentEvent)
    ensures
        final(marks).deep_view() == with_mark(old(marks).deep_view(), id@, ev@),
{
    if !is_marked(marks, id, ev) {
        let ghost before = marks.deep_view();
        let mark = Mark { id: id.to_owned(), turn_id: ev.turn_id.clone(), seq: ev.seq };
        marks.push(mark);
        assert(marks.deep_view() =~= before.push(mark@));
    }
}

proof fn lemma_prompt_push(pending: Seq<PendingModel>, p: PendingModel, id: Seq<char>, now: u64)
    ensures
        without_prompt(pending.push(p), id) == (if p.id() != id {
            without_prompt(pending, id).push(p)
        } else {
            without_prompt(pending, id)
        }),
        unexpired(pending.push(p), now) == (if p.expires_at() is None || p.expires_at()->0 > now {
            unexpired(pending, now).push(p)
        } else {
            unexpired(pending, now)
        }),
{
    broadcast use Seq::lemma_filter_push;

}

fn find_prompt(pending: &Vec<Pending>, id: &str) -> (r: bool)
    ensures
        r == has_prompt(pending.deep_view(), id@),
{
    let mut i: usize = 0;
    while i < pending.len()
        invariant
            i <= pending.len(),
            forall|j: int| 0 <= j < i ==> (#[trigger] pending.deep_view()[j]).id() != id@,
        decreases pending.len() - i,
    {
        if same(pending[i].id(), id) {
            assert(pending.deep_view()[i as int].id() == id@);
            return true;
        }
        i += 1;
    }
    false
}

fn drop_prompt(pending: &mut Vec<Pending>, id: &str)
    ensures
        final(pending).deep_view() == without_prompt(old(pending).deep_view(), id@),
{
    let mut kept: Vec<Pending> = Vec::new();
    let mut i: usize = 0;
    let ghost all = pending.deep_view();
    while i < pending.len()
        invariant
            i <= pending.len(),
            pending.deep_view() == all,
            kept.deep_view() == without_prompt(all.take(i as int), id@),
        decreases pending.len() - i,
    {
        assert(all.take(i + 1) =~= all.take(i as int).push(all[i as int]));
        proof {
            lemma_prompt_push(all.take(i as int), all[i as int], id@, 0);
        }
        if !same(pending[i].id(), id) {
            let ghost before = kept.deep_view();
            kept.push(pending[i].clone());
            assert(kept.deep_view() =~= before.push(all[i as int]));
        }
        i += 1;
    }
    assert(all.take(all.len() as int) =~= all);
    *pending = kept;
}

fn drop_expired(pending: &mut Vec<Pending>, now: u64) -> (gone: Vec<String>)
    ensures
        final(pending).deep_view() == unexpired(old(pending).deep_view(), now),
        final(pending).len() <= old(pending).len(),
        gone.deep_view() == expired_ids(old(pending).deep_view(), now),
{
    let mut kept: Vec<Pending> = Vec::new();
    let mut gone: Vec<String> = Vec::new();
    let mut i: usize = 0;
    let ghost all = pending.deep_view();
    assert(gone.deep_view() =~= expired_ids(all.take(0), now));
    while i < pending.len()
        invariant
            i <= pending.len(),
            pending.deep_view() == all,
            kept.len() <= i,
            kept.deep_view() == unexpired(all.take(i as int), now),
            gone.deep_view() == expired_ids(all.take(i as int), now),
        decreases pending.len() - i,
    {
        assert(all.take(i + 1) =~= all.take(i as int).push(all[i as int]));
        proof {
            assert(all.take(i + 1).drop_last() =~= all.take(i as int));
            lemma_prompt_push(all.take(i as int), all[i as int], Seq::empty(), now);
        }
        let keep = match pending[i].expires_at() {
            Some(e) => e > now,
            None => true,
        };
        if keep {
            let ghost before = kept.deep_view();
            kept.push(pending[i].clone());
            assert(kept.deep_view() =~= before.push(all[i as int]));
        } else {
            let ghost before = gone.deep_view();
            gone.push(pending[i].id().to_owned());
            assert(gone.deep_view() =~= before.push(all[i as int].id()));
        }
        i += 1;
    }
    assert(all.take(all.len() as int) =~= all);
    *pending = kept;
    gone
}

// --------------------------------------------------------------------------- turns

/// The numbers from `from` up to, not including, `to`.
pub open spec fn span(from: int, to: int) -> Seq<u64> {
    Seq::new((if from < to { to - from } else { 0 }) as nat, |i: int| (from + i) as u64)
}

/// The gaps but one.
pub open spec fn without_gap(gaps: Seq<u64>, seq: u64) -> Seq<u64> {
    gaps.filter(|g: u64| g != seq)
}

proof fn lemma_gap_push(gaps: Seq<u64>, g: u64, seq: u64)
    ensures
        without_gap(gaps.push(g), seq) == (if g != seq {
            without_gap(gaps, seq).push(g)
        } else {
            without_gap(gaps, seq)
        }),
{
    broadcast use Seq::lemma_filter_push;

}

/// A running text after one more frame: a frame that repeats what is there replaces it,
/// any other frame goes on the end.
pub open spec fn accumulate(text: Seq<char>, frame: Seq<char>) -> Seq<char> {
    if text.is_prefix_of(frame) {
        frame
    } else {
        text + frame
    }
}

/// Where the card of a wire index stands.
pub open spec fn card_at(cards: Seq<ToolModel>, index: u32, i: int) -> bool {
    &&& 0 <= i < cards.len()
    &&& cards[i].index == index
    &&& forall|j: int| 0 <= j < i ==> (#[trigger] cards[j]).index != index
}

impl ToolModel {
    /// A card after another event for it: what the event carries replaces what the card
    /// holds, what it leaves out stays.
    pub open spec fn merge(self, new: ToolModel) -> ToolModel {
        ToolModel {
            name: self.name,
            index: self.index,
            args: if new.args is Some { new.args } else { self.args },
            preview: if new.preview is Some { new.preview } else { self.preview },
            status: new.status,
            duration_ms: if new.duration_ms is Some { new.duration_ms } else { self.duration_ms },
            mime: if new.mime is Some { new.mime } else { self.mime },
            body: if new.body is Some { new.body } else { self.body },
            truncated: self.truncated || new.truncated,
        }
    }
}

/// The cards after an event that carries a tool: its card updated in place, or a new
/// card at the end.
pub open spec fn with_tool(cards: Seq<ToolModel>, tool: ToolModel) -> Seq<ToolModel> {
    if exists|i: int| card_at(cards, tool.index, i) {
        let i = choose|i: int| card_at(cards, tool.index, i);
        cards.update(i, cards[i].merge(tool))
    } else {
        cards.push(tool)
    }
}

proof fn lemma_with_tool(cards: Seq<ToolModel>, tool: ToolModel, i: int)
    requires
        card_at(cards, tool.index, i),
    ensures
        with_tool(cards, tool) == cards.update(i, cards[i].merge(tool)),
{
    let c = choose|i: int| card_at(cards, tool.index, i);
    assert(card_at(cards, tool.index, c));
    if c < i {
        assert(cards[c].index != tool.index);
    }
    if i < c {
        assert(cards[i].index != tool.index);
    }
}

fn merge_tool(card: &mut Tool, new: &Tool)
    ensures
        final(card)@ == old(card)@.merge(new@),
{
    card.status = new.status;
    if new.duration_ms.is_some() {
        card.duration_ms = new.duration_ms;
    }
    if let Some(mime) = &new.mime {
        card.mime = Some(mime.clone());
    }
    if let Some(body) = &new.body {
        card.body = Some(body.clone());
    }
    if let Some(args) = &new.args {
        card.args = Some(args.clone());
    }
    if let Some(preview) = &new.preview {
        card.preview = Some(preview.clone());
    }
    card.truncated = card.truncated || new.truncated;
}

fn add_tool(cards: &mut Vec<Tool>, tool: &Tool)
    ensures
        final(cards).deep_view() == with_tool(old(cards).deep_view(), tool@),
{
    let mut i: usize = 0;
    let ghost before = cards.deep_view();
    while i < cards.len()
        invariant
            i <= cards.len(),
            cards.deep_view() == before,
            before == old(cards).deep_view(),
            forall|j: int| 0 <= j < i ==> (#[trigger] before[j]).index != tool@.index,
        decreases cards.len() - i,
    {
        if cards[i].index == tool.index {
            assert(before[i as int].index == tool@.index);
            proof {
                lemma_with_tool(before, tool@, i as int);
            }
            merge_tool(&mut cards[i], tool);
            assert(cards.deep_view() =~= before.update(i as int, before[i as int].merge(tool@)));
            return;
        }
        i += 1;
    }
    cards.push(tool.clone());
    assert(cards.deep_view() =~= before.push(tool@));
}

impl TurnModel {
    /// A turn of which nothing has arrived.
    pub open spec fn start(turn_id: Seq<char>) -> TurnModel {
        TurnModel {
            turn_id,
            agent: None,
            text: Seq::empty(),
            commentary: Seq::empty(),
            cards: Seq::empty(),
            usage: None,
            complete: false,
            high_seq: 0,
            gaps: Seq::empty(),
        }
    }

    /// Whether nothing that arrived has left a trace in this turn.
    pub open spec fn untouched(self) -> bool {
        self == TurnModel::start(self.turn_id)
    }

    /// Whether a text delta carries the text so far and goes on from it, as the frames of a
    /// cumulative stream do.
    pub open spec fn extended_by(self, ev: AgentEventModel) -> bool {
        ev.kind == Kind::MessageDelta && ev.text is Some && self.text.is_prefix_of(ev.text->0) && self.text.len()
            < ev.text->0.len()
    }

    /// Whether an event is one that this turn already holds. The first event of a turn is
    /// not, an event that fills a known gap is late rather than a duplicate, and a frame that
    /// extends the text is newer than the one it repeats the number of.
    pub open spec fn replayed(self, ev: AgentEventModel) -> bool {
        &&& ev.seq <= self.high_seq
        &&& !self.untouched()
        &&& !self.gaps.contains(ev.seq)
        &&& !self.extended_by(ev)
    }

    /// The gaps once an event has arrived: those it jumped over are new, its own is
    /// filled.
    pub open spec fn gaps_after(self, seq: u64) -> Seq<u64> {
        let widened = if seq > self.high_seq + 1 && self.high_seq > 0 {
            self.gaps + span(self.high_seq + 1, seq as int)
        } else {
            self.gaps
        };
        without_gap(widened, seq)
    }

    /// The turn with an event's sequence number counted in.
    pub open spec fn counted(self, ev: AgentEventModel) -> TurnModel {
        TurnModel {
            high_seq: if ev.seq > self.high_seq { ev.seq } else { self.high_seq },
            gaps: self.gaps_after(ev.seq),
            agent: if self.agent is None { ev.agent } else { self.agent },
            ..self
        }
    }

    /// The turn with an event's payload folded in.
    pub open spec fn filled(self, ev: AgentEventModel) -> TurnModel {
        match ev.kind {
            Kind::MessageDelta => match ev.text {
                Some(frame) => TurnModel { text: accumulate(self.text, frame), ..self },
                None => self,
            },
            Kind::Commentary => match ev.text {
                Some(frame) => TurnModel { commentary: accumulate(self.commentary, frame), ..self },
                None => self,
            },
            Kind::MessageStop => if ev.final_ == Some(true) {
                TurnModel { complete: true, ..self }
            } else {
                self
            },
            Kind::ToolCall | Kind::ToolResult => match ev.tool {
                Some(tool) => TurnModel { cards: with_tool(self.cards, tool), ..self },
                None => self,
            },
            Kind::Usage => TurnModel { usage: ev.usage, ..self },
            _ => self,
        }
    }

    /// The turn after an event: unchanged by a replay, else counted and filled.
    pub open spec fn fold(self, ev: AgentEventModel) -> TurnModel {
        if self.replayed(ev) {
            self
        } else {
            self.counted(ev).filled(ev)
        }
    }

    /// Whether any tool is still running.
    pub open spec fn running(self) -> bool {
        exists|i: int| 0 <= i < self.cards.len() && (#[trigger] self.cards[i]).status is Running
    }
}

impl Turn {
    fn start(turn_id: &str) -> (r: Turn)
        ensures
            r@ == TurnModel::start(turn_id@),
    {
        let r = Turn {
            turn_id: turn_id.to_owned(),
            agent: None,
            text: String::new(),
            commentary: String::new(),
            cards: Vec::new(),
            usage: None,
            complete: false,
            high_seq: 0,
            gaps: Vec::new(),
        };
        assert(r@ =~= TurnModel::start(turn_id@));
        r
    }

    /// Tool cards in invocation order.
    pub fn tools(&self) -> (r: &Vec<Tool>)
        ensures
            r.deep_view() == self@.cards,
    {
        &self.cards
    }

    /// Whether any tool is still running.
    pub fn has_running_tool(&self) -> (r: bool)
        ensures
            r == self@.running(),
    {
        let mut i: usize = 0;
        while i < self.cards.len()
            invariant
                i <= self.cards.len(),
                forall|j: int| 0 <= j < i ==> !((#[trigger] self@.cards[j]).status is Running),
            decreases self.cards.len() - i,
        {
            if !self.cards[i].status.is_terminal() {
                assert(self@.cards[i as int].status is Running);
                return true;
            }
            i += 1;
        }
        false
    }

    /// Whether any tool failed. Failed cards open by themselves.
    pub fn has_failed_tool(&self) -> (r: bool)
        ensures
            r == exists|i: int| 0 <= i < self@.cards.len() && (#[trigger] self@.cards[i]).status is Error,
    {
        let mut i: usize = 0;
        while i < self.cards.len()
            invariant
                i <= self.cards.len(),
                forall|j: int| 0 <= j < i ==> !((#[trigger] self@.cards[j]).status is Error),
            decreases self.cards.len() - i,
        {
            if self.cards[i].status == ToolStatus::Error {
                assert(self@.cards[i as int].status is Error);
                return true;
            }
            i += 1;
        }
        false
    }

    fn has_gap(&self, seq: u64) -> (r: bool)
        ensures
            r == self@.gaps.contains(seq),
    {
        let mut i: usize = 0;
        while i < self.gaps.len()
            invariant
                i <= self.gaps.len(),
                forall|j: int| 0 <= j < i ==> self@.gaps[j] != seq,
            decreases self.gaps.len() - i,
        {
            if self.gaps[i] == seq {
                assert(self@.gaps[i as int] == seq);
                return true;
            }
            i += 1;
        }
        false
    }

    /// Record what an event jumped over, and fill its own gap.
    fn count_gaps(&mut self, seq: u64)
        ensures
            final(self)@ == (TurnModel { gaps: old(self)@.gaps_after(seq), ..old(self)@ }),
    {
            let ghost before = self@;
        if self.high_seq > 0 && seq > self.high_seq && seq - self.high_seq > 1 {
            let mut n: u64 = self.high_seq + 1;
            while n < seq
                invariant
                    self.high_seq == before.high_seq,
                    before.high_seq < n <= seq,
                    self@ == (TurnModel { gaps: before.gaps + span(before.high_seq + 1, n as int), ..before }),
                decreases seq - n,
            {
                let ghost prior = self.gaps.deep_view();
                self.gaps.push(n);
                assert(self.gaps.deep_view() =~= prior.push(n));
                assert(prior.push(n) =~= before.gaps + span(before.high_seq + 1, n + 1));
                n += 1;
            }
        }
        let ghost widened = self.gaps.deep_view();
        let mut kept: Vec<u64> = Vec::new();
        let mut i: usize = 0;
        while i < self.gaps.len()
            invariant
                i <= self.gaps.len(),
                self.gaps.deep_view() == widened,
                kept.deep_view() == without_gap(widened.take(i as int), seq),
            decreases self.gaps.len() - i,
        {
            assert(widened.take(i + 1) =~= widened.take(i as int).push(widened[i as int]));
            proof {
                lemma_gap_push(widened.take(i as int), widened[i as int], seq);
            }
            if self.gaps[i] != seq {
                let ghost prior = kept.deep_view();
                kept.push(self.gaps[i]);
                assert(kept.deep_view() =~= prior.push(widened[i as int]));
            }
            i += 1;
        }
        assert(widened.take(widened.len() as int) =~= widened);
        self.gaps = kept;
    }

    fn is_untouched(&self) -> (r: bool)
        ensures
            r == self@.untouched(),
    {
        let r = self.agent.is_none() && self.text.as_str().is_empty() && self.commentary.as_str().is_empty()
            && self.cards.len() == 0 && self.usage.is_none() && !self.complete && self.high_seq == 0 && self.gaps.len()
            == 0;
        proof {
            let start = TurnModel::start(self@.turn_id);
            if r {
                assert(self@ =~= start);
            } else if self@ == start {
                assert(self@.agent is None && self.agent is None);
                assert(self@.text.len() == 0 && self.text@.len() == 0);
                assert(self@.commentary.len() == 0 && self.commentary@.len() == 0);
                assert(self@.cards.len() == 0 && self.cards@.len() == 0);
                assert(self@.usage is None && self.usage is None);
                assert(!self@.complete && !self.complete);
                assert(self@.high_seq == 0 && self.high_seq == 0);
                assert(self@.gaps.len() == 0 && self.gaps@.len() == 0);
                assert(false);
            }
        }
        r
    }

    fn is_extended_by(&self, ev: &AgentEvent) -> (r: bool)
        ensures
            r == self@.extended_by(ev@),
    {
        if ev.kind != Kind::MessageDelta {
            return false;
        }
        match &ev.text {
            Some(frame) => starts_with(frame.as_str(), self.text.as_str()) && self.text.as_str().unicode_len()
                < frame.as_str().unicode_len(),
            None => false,
        }
    }

    /// Fold one event into the turn, and say whether that changed it.
    pub fn fold(&mut self, ev: &AgentEvent) -> (r: bool)
        ensures
            final(self)@ == old(self)@.fold(ev@),
            r == (final(self)@ != old(self)@),
    {
        let newer = ev.seq > self.high_seq;
        let late = self.has_gap(ev.seq);
        let longer = self.is_extended_by(ev);
        if !newer && !late && !longer && !self.is_untouched() {
            return false;
        }
        proof {
            law_folding_counts_the_event(self@, ev@);
        }
        self.count_gaps(ev.seq);
        if ev.seq > self.high_seq {
            self.high_seq = ev.seq;
        }
        if self.agent.is_none() {
            self.agent = match &ev.agent {
                Some(agent) => Some(agent.clone()),
                None => None,
            };
        }
        assert(self@ =~= old(self)@.counted(ev@));
        match ev.kind {
            Kind::MessageDelta => {
                if let Some(frame) = &ev.text {
                    accumulate_into(&mut self.text, frame);
                }
            },
            Kind::Commentary => {
                if let Some(frame) = &ev.text {
                    accumulate_into(&mut self.commentary, frame);
                }
            },
            Kind::MessageStop => {
                // A stop that is not final is only a segment break.
                if let Some(last) = ev.final_ {
                    if last {
                        self.complete = true;
                    }
                }
            },
            Kind::ToolCall | Kind::ToolResult => {
                if let Some(tool) = &ev.tool {
                    add_tool(&mut self.cards, tool);
                }
            },
            Kind::Usage => {
                self.usage = ev.usage;
            },
            _ => {},
        }
        assert(self@ =~= old(self)@.fold(ev@));
        newer || late || longer || !self.is_untouched()
    }
}

fn accumulate_into(text: &mut String, frame: &String)
    ensures
        final(text)@ == accumulate(old(text)@, frame@),
{
    if starts_with(frame.as_str(), text.as_str()) {
        *text = frame.clone();
    } else {
        text.append(frame.as_str());
    }
}

// ------------------------------------------------------------------------- sessions

/// Whether `i` is where the turn with this id stands.
pub open spec fn turn_at(turns: Seq<TurnModel>, id: Seq<char>, i: int) -> bool {
    &&& 0 <= i < turns.len()
    &&& turns[i].turn_id == id
    &&& forall|j: int| 0 <= j < i ==> (#[trigger] turns[j]).turn_id != id
}

/// The turns after an event: its turn folded, or a new turn at the end.
pub open spec fn fold_turns(turns: Seq<TurnModel>, ev: AgentEventModel) -> Seq<TurnModel> {
    if exists|i: int| turn_at(turns, ev.turn_id, i) {
        let i = choose|i: int| turn_at(turns, ev.turn_id, i);
        turns.update(i, turns[i].fold(ev))
    } else {
        turns.push(TurnModel::start(ev.turn_id).fold(ev))
    }
}

proof fn lemma_fold_turns(turns: Seq<TurnModel>, ev: AgentEventModel, i: int)
    requires
        turn_at(turns, ev.turn_id, i),
    ensures
        fold_turns(turns, ev) == turns.update(i, turns[i].fold(ev)),
{
    let c = choose|i: int| turn_at(turns, ev.turn_id, i);
    assert(turn_at(turns, ev.turn_id, c));
    if c < i {
        assert(turns[c].turn_id != ev.turn_id);
    }
    if i < c {
        assert(turns[i].turn_id != ev.turn_id);
    }
}

/// The prompts after an event: a resolution takes its prompt away, a request that is not
/// there yet is added, unless its prompt was settled no earlier than in that event.
pub open spec fn fold_pending(s: SessionModel, ev: AgentEventModel) -> Seq<PendingModel> {
    match ev.kind {
        Kind::ApprovalResolved => match ev.approval {
            Some(a) => without_prompt(s.pending, a.id),
            None => s.pending,
        },
        Kind::ApprovalRequest => match ev.approval {
            Some(a) => if has_prompt(s.pending, a.id) || marked(s.settled, a.id, ev) {
                s.pending
            } else {
                s.pending.push(PendingModel::Approval(a))
            },
            None => s.pending,
        },
        Kind::ModelPicker => match ev.picker {
            Some(p) => if has_prompt(s.pending, p.id) || marked(s.settled, p.id, ev) {
                s.pending
            } else {
                s.pending.push(PendingModel::Picker(p))
            },
            None => s.pending,
        },
        _ => s.pending,
    }
}

/// Where prompts were asked, after an event.
pub open spec fn fold_asked(asked: Seq<MarkModel>, ev: AgentEventModel) -> Seq<MarkModel> {
    match ev.kind {
        Kind::ApprovalRequest => match ev.approval {
            Some(a) => with_mark(asked, a.id, ev),
            None => asked,
        },
        Kind::ModelPicker => match ev.picker {
            Some(p) => with_mark(asked, p.id, ev),
            None => asked,
        },
        _ => asked,
    }
}

/// Up to where prompts were settled, after an event: a resolution that is news settles its
/// prompt up to its own number in its turn, and wherever it was asked in another.
pub open spec fn fold_settled(s: SessionModel, ev: AgentEventModel) -> Seq<MarkModel> {
    match ev.kind {
        Kind::ApprovalResolved => match ev.approval {
            Some(a) => if marked(s.settled, a.id, ev) {
                s.settled
            } else {
                with_mark(s.settled, a.id, ev) + marks_of(s.asked, seq![a.id], Some(ev.turn_id))
            },
            None => s.settled,
        },
        _ => s.settled,
    }
}

/// A session in which a prompt has been answered: it is settled wherever it was asked.
pub open spec fn answered(s: SessionModel, id: Seq<char>) -> SessionModel {
    SessionModel {
        pending: without_prompt(s.pending, id),
        settled: s.settled + marks_of(s.asked, seq![id], None),
        ..s
    }
}

impl SessionModel {
    /// A session of which nothing is known but its id.
    pub open spec fn start(session_id: Seq<char>) -> SessionModel {
        SessionModel {
            session_id,
            turns: Seq::empty(),
            pending: Seq::empty(),
            asked: Seq::empty(),
            settled: Seq::empty(),
            degraded: false,
            seen: false,
            typing: false,
        }
    }

    /// Whether a request was heard of, and its prompt is asked still, or settled.
    pub open spec fn holds_request(self, id: Seq<char>, ev: AgentEventModel) -> bool {
        marked(self.asked, id, ev) && (has_prompt(self.pending, id) || marked(self.settled, id, ev))
    }

    /// The session after an event. Any new activity means the user has not seen the
    /// outcome yet, and an event that changes nothing is none; prompts are settled even by
    /// an event whose turn already holds it.
    pub open spec fn fold(self, ev: AgentEventModel) -> SessionModel {
        let pending = fold_pending(self, ev);
        let turns = fold_turns(self.turns, ev);
        SessionModel {
            seen: self.seen && pending == self.pending && turns == self.turns,
            pending,
            asked: fold_asked(self.asked, ev),
            settled: fold_settled(self, ev),
            turns,
            ..self
        }
    }

    /// The derived state. A blocking prompt outranks a running tool: the human is the
    /// bottleneck.
    pub open spec fn state(self) -> AgentState {
        if self.pending.len() > 0 {
            AgentState::Blocked
        } else if self.typing {
            AgentState::Working
        } else if self.turns.len() == 0 {
            AgentState::Idle
        } else if !self.turns.last().complete || self.turns.last().running() {
            AgentState::Working
        } else if !self.seen {
            AgentState::Done
        } else {
            AgentState::Idle
        }
    }

    /// Whether the transcript is known to be missing events.
    pub open spec fn has_gaps(self) -> bool {
        exists|i: int| 0 <= i < self.turns.len() && (#[trigger] self.turns[i]).gaps.len() > 0
    }
}

impl Session {
    fn start(session_id: &str) -> (r: Session)
        ensures
            r@ == SessionModel::start(session_id@),
    {
        let r = Session {
            session_id: session_id.to_owned(),
            turns: Vec::new(),
            pending: Vec::new(),
            asked: Vec::new(),
            settled: Vec::new(),
            degraded: false,
            seen: false,
            typing: false,
        };
        assert(r@ =~= SessionModel::start(session_id@));
        r
    }

    fn fold_turns(&mut self, ev: &AgentEvent) -> (r: bool)
        ensures
            final(self)@ == (SessionModel { turns: fold_turns(old(self)@.turns, ev@), ..old(self)@ }),
            r == (final(self)@.turns != old(self)@.turns),
    {
        let ghost before = self@;
        let mut i: usize = 0;
        while i < self.turns.len()
            invariant
                i <= self.turns.len(),
                self@ == before,
                before == old(self)@,
                forall|j: int| 0 <= j < i ==> (#[trigger] before.turns[j]).turn_id != ev@.turn_id,
            decreases self.turns.len() - i,
        {
            if same(self.turns[i].turn_id.as_str(), ev.turn_id.as_str()) {
                proof {
                    assert(before.turns[i as int].turn_id == ev@.turn_id);
                    lemma_fold_turns(before.turns, ev@, i as int);
                }
                let changed = self.turns[i].fold(ev);
                proof {
                    let was = before.turns[i as int];
                    assert(self@.turns =~= before.turns.update(i as int, was.fold(ev@)));
                    assert(self@.turns[i as int] == was.fold(ev@));
                    if was.fold(ev@) == was {
                        assert(self@.turns =~= before.turns);
                    }
                }
                return changed;
            }
            i += 1;
        }
        let mut turn = Turn::start(ev.turn_id.as_str());
        turn.fold(ev);
        self.turns.push(turn);
        assert(self@.turns =~= before.turns.push(turn@));
        assert(self@.turns.len() == before.turns.len() + 1);
        true
    }

    /// Fold one event into the session.
    pub fn fold(&mut self, ev: &AgentEvent)
        ensures
            final(self)@ == old(self)@.fold(ev@),
    {
        let waiting = self.pending.len();
        // Prompts are settled before the turn looks at the sequence number: a resolution
        // may carry one already seen if the request was delivered again.
        match ev.kind {
            Kind::ApprovalResolved => {
                if let Some(a) = &ev.approval {
                    drop_prompt(&mut self.pending, a.id.as_str());
                    if !is_marked(&self.settled, a.id.as_str(), ev) {
                        add_mark(&mut self.settled, a.id.as_str(), ev);
                        settle_asked(
                            &mut self.settled,
                            &self.asked,
                            &only(a.id.as_str()),
                            Some(ev.turn_id.as_str()),
                        );
                    }
                }
            },
            Kind::ApprovalRequest => {
                if let Some(a) = &ev.approval {
                    if !find_prompt(&self.pending, a.id.as_str()) && !is_marked(&self.settled, a.id.as_str(), ev) {
                        let ghost before = self.pending.deep_view();
                        self.pending.push(Pending::Approval(a.clone()));
                        assert(self.pending.deep_view() =~= before.push(PendingModel::Approval(a@)));
                    }
                    add_mark(&mut self.asked, a.id.as_str(), ev);
                }
            },
            Kind::ModelPicker => {
                if let Some(p) = &ev.picker {
                    if !find_prompt(&self.pending, p.id.as_str()) && !is_marked(&self.settled, p.id.as_str(), ev) {
                        let ghost before = self.pending.deep_view();
                        self.pending.push(Pending::Picker(p.clone()));
                        assert(self.pending.deep_view() =~= before.push(PendingModel::Picker(p@)));
                    }
                    add_mark(&mut self.asked, p.id.as_str(), ev);
                }
            },
            _ => {},
        }
        proof {
            lemma_settling_shows(old(self)@, ev@);
            assert(self@.pending == fold_pending(old(self)@, ev@));
        }
        let settled = self.pending.len() != waiting;
        let moved = self.fold_turns(ev);
        if settled || moved {
            self.seen = false;
        }
        assert(self@ =~= old(self)@.fold(ev@));
    }

    /// The turn currently in flight, if any.
    pub fn active_turn(&self) -> (r: Option<&Turn>)
        ensures
            match r {
                Some(t) => self@.turns.len() > 0 && t@ == self@.turns.last() && !t@.complete,
                None => self@.turns.len() == 0 || self@.turns.last().complete,
            },
    {
        let n = self.turns.len();
        if n > 0 && !self.turns[n - 1].complete {
            Some(&self.turns[n - 1])
        } else {
            None
        }
    }

    /// The most recent turn, complete or not.
    pub fn latest_turn(&self) -> (r: Option<&Turn>)
        ensures
            match r {
                Some(t) => self@.turns.len() > 0 && t@ == self@.turns.last(),
                None => self@.turns.len() == 0,
            },
    {
        let n = self.turns.len();
        if n > 0 {
            Some(&self.turns[n - 1])
        } else {
            None
        }
    }

    /// Derive the session's state.
    ///
    /// A blocking prompt outranks a running tool: the human is the bottleneck.
    pub fn state(&self) -> (r: AgentState)
        ensures
            r == self@.state(),
    {
        if self.pending.len() > 0 {
            return AgentState::Blocked;
        }
        if self.typing {
            return AgentState::Working;
        }
        match self.latest_turn() {
            Some(t) => {
                if !t.complete || t.has_running_tool() {
                    AgentState::Working
                } else if !self.seen {
                    AgentState::Done
                } else {
                    AgentState::Idle
                }
            },
            None => AgentState::Idle,
        }
    }

    /// Mark the session as looked at, collapsing `Done` to `Idle`.
    pub fn mark_seen(&mut self)
        ensures
            final(self)@ == (SessionModel { seen: true, ..old(self)@ }),
    {
        self.seen = true;
    }

    pub fn set_typing(&mut self, typing: bool)
        ensures
            final(self)@ == (SessionModel { typing, ..old(self)@ }),
    {
        self.typing = typing;
    }

    /// Whether the transcript is known to be missing events.
    pub fn has_gaps(&self) -> (r: bool)
        ensures
            r == self@.has_gaps(),
    {
        let mut i: usize = 0;
        while i < self.turns.len()
            invariant
                i <= self.turns.len(),
                forall|j: int| 0 <= j < i ==> (#[trigger] self@.turns[j]).gaps.len() == 0,
            decreases self.turns.len() - i,
        {
            if self.turns[i].gaps.len() > 0 {
                assert(self@.turns[i as int].gaps.len() > 0);
                return true;
            }
            i += 1;
        }
        false
    }
}

// ---------------------------------------------------------------------------- store

/// Sessions keyed by `session_id`.
#[derive(Debug)]
pub struct AgentStore {
    sessions: Table<String, Session>,
}

impl View for AgentStore {
    type V = Map<Seq<char>, SessionModel>;

    closed spec fn view(&self) -> Map<Seq<char>, SessionModel> {
        self.sessions.deep_view()
    }
}

/// The session with this id, or a fresh one.
pub open spec fn session_or_start(store: Map<Seq<char>, SessionModel>, id: Seq<char>) -> SessionModel {
    if store.contains_key(id) {
        store[id]
    } else {
        SessionModel::start(id)
    }
}

/// The store after an event: the session of that event folded, all others as they were.
pub open spec fn fold_store(store: Map<Seq<char>, SessionModel>, ev: AgentEventModel) -> Map<Seq<char>, SessionModel> {
    store.insert(ev.session_id, session_or_start(store, ev.session_id).fold(ev))
}

/// A session with the prompts that ran out by `now` taken away.
pub open spec fn expire(s: SessionModel, now: u64) -> SessionModel {
    SessionModel {
        pending: unexpired(s.pending, now),
        settled: s.settled + marks_of(s.asked, expired_ids(s.pending, now), None),
        ..s
    }
}

/// How many prompts of these sessions have run out by `now`.
pub open spec fn expired_in(store: Map<Seq<char>, SessionModel>, ids: Seq<Seq<char>>, now: u64) -> int
    decreases ids.len(),
{
    if ids.len() == 0 {
        0
    } else {
        let s = store[ids.last()];
        expired_in(store, ids.drop_last(), now) + s.pending.len() - unexpired(s.pending, now).len()
    }
}

/// The smaller of two numbers.
pub open spec fn at_most(n: int, limit: int) -> int {
    if n < limit {
        n
    } else {
        limit
    }
}

/// The ids of the sessions in a state.
pub open spec fn ids_in(store: Map<Seq<char>, SessionModel>, state: AgentState) -> Set<Seq<char>> {
    store.dom().filter(|id: Seq<char>| store[id].state() == state)
}

impl Default for AgentStore {
    fn default() -> (r: Self)
        ensures
            r@ == Map::<Seq<char>, SessionModel>::empty(),
    {
        AgentStore::new()
    }
}

impl AgentStore {
    /// The session ids, in the order in which they were first heard of.
    pub closed spec fn ids(&self) -> Seq<Seq<char>> {
        self.sessions.order()
    }

    pub fn new() -> (r: Self)
        ensures
            r@ == Map::<Seq<char>, SessionModel>::empty(),
    {
        let r = AgentStore { sessions: Table::new() };
        assert(r@ =~= Map::<Seq<char>, SessionModel>::empty());
        r
    }

    pub fn get(&self, session_id: &str) -> (r: Option<&Session>)
        ensures
            match r {
                Some(s) => self@.contains_key(session_id@) && s@ == self@[session_id@],
                None => !self@.contains_key(session_id@),
            },
    {
        self.sessions.get(session_id)
    }

    pub fn get_mut(&mut self, session_id: &str) -> (r: Option<&mut Session>)
        ensures
            match r {
                Some(s) => {
                    &&& old(self)@.contains_key(session_id@)
                    &&& s@ == old(self)@[session_id@]
                    &&& final(self)@ == old(self)@.insert(session_id@, final(s)@)
                },
                None => !old(self)@.contains_key(session_id@) && final(self)@ == old(self)@,
            },
    {
        proof {
            lemma_deep(self.sessions@, session_id@);
        }
        self.sessions.get_mut(session_id)
    }

    /// The session with this id, made if it is not there.
    fn entry(&mut self, session_id: &str) -> (r: &mut Session)
        ensures
            r@ == session_or_start(old(self)@, session_id@),
            final(self)@ == old(self)@.insert(session_id@, final(r)@),
    {
        let ghost start = self@;
        if !self.sessions.contains_key(session_id) {
            proof {
                lemma_deep(self.sessions@, session_id@);
            }
            self.sessions.insert(session_id.to_owned(), Session::start(session_id));
            assert(self@ == start.insert(session_id@, SessionModel::start(session_id@)));
        }
        proof {
            lemma_deep(self.sessions@, session_id@);
            assert(forall|s: SessionModel|
                start.insert(session_id@, SessionModel::start(session_id@)).insert(session_id@, s)
                    =~= #[trigger] start.insert(session_id@, s));
        }
        self.sessions.get_mut(session_id).unwrap()
    }

    /// Every session, in the order in which they were first heard of.
    pub fn sessions(&self) -> (r: Vec<&Session>)
        ensures
            r.deep_view() == self.ids().map_values(|id: Seq<char>| self@[id]),
            self.ids().no_duplicates(),
            self.ids().to_set() == self@.dom(),
    {
        let n = self.sessions.len();
        let mut out: Vec<&Session> = Vec::new();
        let mut i: usize = 0;
        let ghost all = self.ids().map_values(|id: Seq<char>| self@[id]);
        while i < n
            invariant
                i <= n,
                n == self.sessions.order().len(),
                all == self.ids().map_values(|id: Seq<char>| self@[id]),
                self.sessions.order().to_set() == self.sessions@.dom(),
                out.deep_view() == all.take(i as int),
            decreases n - i,
        {
            let ghost before = out.deep_view();
            let (_, s) = self.sessions.at(i);
            out.push(s);
            proof {
                assert(self.sessions.order().to_set().contains(self.sessions.order()[i as int]));
                assert(out.deep_view() =~= before.push(all[i as int]));
                assert(all.take(i + 1) =~= all.take(i as int).push(all[i as int]));
            }
            i += 1;
        }
        assert(all.take(n as int) =~= all);
        assert(self.sessions@.dom() =~= self@.dom());
        out
    }

    /// Roll every session's state up to a single badge value, as used for a tab or
    /// workspace indicator.
    pub fn rollup(&self) -> (r: AgentState)
        ensures
            r == most_urgent(self.ids().map_values(|id: Seq<char>| self@[id].state())),
            self.ids().no_duplicates(),
            self.ids().to_set() == self@.dom(),
    {
        let n = self.sessions.len();
        let mut r = AgentState::Idle;
        let mut i: usize = 0;
        let ghost all = self.ids().map_values(|id: Seq<char>| self@[id].state());
        while i < n
            invariant
                i <= n,
                n == self.sessions.order().len(),
                all == self.ids().map_values(|id: Seq<char>| self@[id].state()),
                self.sessions.order().to_set() == self.sessions@.dom(),
                r == most_urgent(all.take(i as int)),
            decreases n - i,
        {
            let (_, s) = self.sessions.at(i);
            r = r.urgent(s.state());
            proof {
                assert(self.sessions.order().to_set().contains(self.sessions.order()[i as int]));
                assert(all.take(i + 1).drop_last() =~= all.take(i as int));
            }
            i += 1;
        }
        assert(all.take(n as int) =~= all);
        assert(self.sessions@.dom() =~= self@.dom());
        r
    }

    /// Number of sessions currently in `state`.
    pub fn count_in(&self, state: AgentState) -> (r: usize)
        ensures
            r == ids_in(self@, state).len(),
    {
        let n = self.sessions.len();
        let mut r: usize = 0;
        let mut i: usize = 0;
        let ghost ids = self.sessions.order();
        let ghost p = |id: Seq<char>| self@[id].state() == state;
        assert(ids.take(0).to_set().filter(p) =~= Set::empty());
        while i < n
            invariant
                i <= n,
                r <= i,
                n == ids.len(),
                ids == self.sessions.order(),
                ids.no_duplicates(),
                p == (|id: Seq<char>| self@[id].state() == state),
                ids.to_set() == self.sessions@.dom(),
                r == ids.take(i as int).to_set().filter(p).len(),
                ids.take(i as int).to_set().filter(p).finite(),
            decreases n - i,
        {
            let (_, s) = self.sessions.at(i);
            proof {
                let id = ids[i as int];
                let done = ids.take(i as int).to_set();
                assert(ids.to_set().contains(id));
                assert(!done.contains(id)) by {
                    if done.contains(id) {
                        let j = ids.take(i as int).index_of(id);
                        assert(ids[j] == id);
                    }
                }
                assert(ids.take(i + 1) =~= ids.take(i as int).push(id));
                assert(ids.take(i + 1).to_set() =~= done.insert(id)) by {
                    broadcast use Seq::lemma_push_to_set_commute;

                }
                if p(id) {
                    assert(done.insert(id).filter(p) =~= done.filter(p).insert(id));
                } else {
                    assert(done.insert(id).filter(p) =~= done.filter(p));
                }
            }
            if s.state() == state {
                r += 1;
            }
            i += 1;
        }
        proof {
            assert(ids.take(n as int) =~= ids);
            assert(self.sessions@.dom() =~= self@.dom());
            assert(ids_in(self@, state) =~= ids.to_set().filter(p));
        }
        r
    }

    /// Fold one decoded event into the store.
    ///
    /// Idempotent with respect to replays: an event whose `seq` has already been folded
    /// into its turn is ignored, which matters because Matrix edits deliver the whole
    /// content again on every progressive update.
    pub fn apply(&mut self, ev: &AgentEvent)
        ensures
            final(self)@ == fold_store(old(self)@, ev@),
    {
        let session = self.entry(ev.session_id.as_str());
        session.fold(ev);
    }

    /// Note that a session is fed by the fallback parser.
    pub fn mark_degraded(&mut self, session_id: &str)
        ensures
            final(self)@ == old(self)@.insert(
                session_id@,
                (SessionModel { degraded: true, ..session_or_start(old(self)@, session_id@) }),
            ),
    {
        let session = self.entry(session_id);
        session.degraded = true;
    }

    /// Record whether the agent for a session is typing.
    ///
    /// Setting the flag makes the session: the point is the window before the first
    /// event arrives, when there is nothing to look up yet. Clearing it on a session
    /// that is not known does nothing.
    pub fn set_typing(&mut self, session_id: &str, typing: bool)
        ensures
            final(self)@ == (if typing || old(self)@.contains_key(session_id@) {
                old(self)@.insert(
                    session_id@,
                    (SessionModel { typing, ..session_or_start(old(self)@, session_id@) }),
                )
            } else {
                old(self)@
            }),
    {
        if typing {
            let session = self.entry(session_id);
            session.set_typing(true);
        } else if let Some(session) = self.get_mut(session_id) {
            session.set_typing(false);
        }
    }

    /// Expire prompts whose deadline has passed, and say how many there were.
    ///
    /// Agents time approvals out on their side, but the resolution can be lost. Without
    /// this a pane would stay `Blocked` for ever.
    pub fn expire_pending(&mut self, now_unix: u64) -> (r: usize)
        ensures
            final(self)@ == old(self)@.map_values(|s: SessionModel| expire(s, now_unix)),
            r == at_most(expired_in(old(self)@, old(self).ids(), now_unix), usize::MAX as int),
            old(self).ids().no_duplicates(),
            old(self).ids().to_set() == old(self)@.dom(),
    {
        let ghost before = self@;
        let ghost ids = self.ids();
        let n = self.sessions.len();
        assert(self.sessions@.dom() =~= self@.dom());
        let mut expired: usize = 0;
        let mut i: usize = 0;
        while i < n
            invariant
                i <= n,
                n == ids.len(),
                ids == self.sessions.order(),
                ids.no_duplicates(),
                ids.to_set() == before.dom(),
                self@.dom() == before.dom(),
                forall|j: int| 0 <= j < i ==> self@[#[trigger] ids[j]] == expire(before[ids[j]], now_unix),
                forall|j: int| i <= j < n ==> self@[#[trigger] ids[j]] == before[ids[j]],
                expired == at_most(expired_in(before, ids.take(i as int), now_unix), usize::MAX as int),
            decreases n - i,
        {
            let ghost id = ids[i as int];
            let ghost prior = self@;
            proof {
                lemma_expired_some(before, ids.take(i as int), now_unix);
                assert(ids.take(i + 1).drop_last() =~= ids.take(i as int));
                assert(ids.to_set().contains(id));
                lemma_deep(self.sessions@, id);
            }
            let session = self.sessions.at_mut(i);
            let count = session.pending.len();
            let gone = drop_expired(&mut session.pending, now_unix);
            settle_asked(&mut session.settled, &session.asked, &gone, None);
            expired = expired.saturating_add(count - session.pending.len());
            proof {
                assert(self@ == prior.insert(id, expire(before[id], now_unix)));
            }
            i += 1;
        }
        proof {
            assert(ids.take(n as int) =~= ids);
            let goal = before.map_values(|s: SessionModel| expire(s, now_unix));
            assert forall|id: Seq<char>| before.contains_key(id) implies self@[id] == goal[id] by {
                assert(ids.to_set().contains(id));
                let j = ids.index_of(id);
                assert(ids[j] == id);
            }
            assert(self@ =~= goal);
        }
        expired
    }

    /// Resolve a prompt locally, having sent the reaction that makes this choice. Whatever was
    /// chosen, there is nothing left to answer.
    pub fn resolve_pending(&mut self, session_id: &str, id: &str, _choice: ApprovalChoice)
        ensures
            final(self)@ == (if old(self)@.contains_key(session_id@) {
                old(self)@.insert(session_id@, answered(old(self)@[session_id@], id@))
            } else {
                old(self)@
            }),
    {
        if let Some(session) = self.get_mut(session_id) {
            drop_prompt(&mut session.pending, id);
            settle_asked(&mut session.settled, &session.asked, &only(id), None);
        }
    }
}

proof fn lemma_expired_some(store: Map<Seq<char>, SessionModel>, ids: Seq<Seq<char>>, now: u64)
    ensures
        0 <= expired_in(store, ids, now),
    decreases ids.len(),
{
    if ids.len() > 0 {
        lemma_expired_some(store, ids.drop_last(), now);
        lemma_unexpired_len(store[ids.last()].pending, now);
    }
}

proof fn lemma_unexpired_len(pending: Seq<PendingModel>, now: u64)
    ensures
        unexpired(pending, now).len() <= pending.len(),
{
    broadcast use Seq::lemma_filter_len;

}

// ----------------------------------------------------------------------------- laws

/// A session is blocked exactly while a human has something to answer, whatever else is
/// going on in it.
pub proof fn law_blocked_while_prompted(s: SessionModel)
    ensures
        s.state() is Blocked <==> s.pending.len() > 0,
{
}

/// Looking at a session turns `Done` into `Idle` and leaves every other state as it was.
pub proof fn law_seeing_settles_done(s: SessionModel)
    ensures
        (SessionModel { seen: true, ..s }).state() == (if s.state() is Done {
            AgentState::Idle
        } else {
            s.state()
        }),
{
}

/// A resolution leaves no prompt with its id.
pub proof fn law_resolution_removes_the_prompt(s: SessionModel, ev: AgentEventModel)
    requires
        ev.kind is ApprovalResolved,
        ev.approval is Some,
    ensures
        !has_prompt(s.fold(ev).pending, ev.approval->0.id),
{
    lemma_without_prompt(s.pending, ev.approval->0.id);
}

proof fn lemma_without_prompt(pending: Seq<PendingModel>, id: Seq<char>)
    ensures
        !has_prompt(without_prompt(pending, id), id),
        !has_prompt(pending, id) ==> without_prompt(pending, id) == pending,
    decreases pending.len(),
{
    if pending.len() > 0 {
        let rest = pending.drop_last();
        let p = pending.last();
        lemma_without_prompt(rest, id);
        assert(pending =~= rest.push(p));
        lemma_prompt_push(rest, p, id, 0);
        assert(pending[pending.len() - 1] == p);
        if !has_prompt(pending, id) {
            assert forall|i: int| 0 <= i < rest.len() implies (#[trigger] rest[i]).id() != id by {
                assert(pending[i] == rest[i]);
            }
        }
        let kept = without_prompt(pending, id);
        if has_prompt(kept, id) {
            let i = choose|i: int| 0 <= i < kept.len() && (#[trigger] kept[i]).id() == id;
            if i < without_prompt(rest, id).len() {
                assert(kept[i] == without_prompt(rest, id)[i]);
            }
        }
    } else {
        assert(without_prompt(pending, id) =~= pending);
    }
}

/// Once an event has been folded in, its turn has counted its sequence number and no
/// longer waits for it.
pub proof fn law_folding_counts_the_event(t: TurnModel, ev: AgentEventModel)
    ensures
        t.fold(ev).high_seq >= ev.seq,
        t.fold(ev).high_seq >= t.high_seq,
        !t.fold(ev).gaps.contains(ev.seq),
{
    if !t.replayed(ev) {
        let widened = if ev.seq > t.high_seq + 1 && t.high_seq > 0 {
            t.gaps + span(t.high_seq + 1, ev.seq as int)
        } else {
            t.gaps
        };
        lemma_without_gap(widened, ev.seq);
    }
}

/// Whether the gaps of a turn are exactly what is missing of it: of the numbers between the
/// first and the highest that arrived, those that did not.
pub open spec fn missing_known(t: TurnModel, first: u64, arrived: Set<u64>) -> bool {
    if t.high_seq == 0 {
        t.gaps.len() == 0
    } else {
        &&& first <= t.high_seq
        &&& arrived.contains(t.high_seq)
        &&& forall|n: u64| #[trigger] arrived.contains(n) ==> n <= t.high_seq
        &&& forall|n: u64| #[trigger] t.gaps.contains(n) <==> first < n < t.high_seq && !arrived.contains(n)
    }
}

/// A turn knows what is missing of it, in whatever order its events arrive, and however
/// often.
pub proof fn law_gaps_are_what_is_missing(t: TurnModel, ev: AgentEventModel, first: u64, arrived: Set<u64>)
    requires
        missing_known(t, first, arrived),
        t.high_seq == 0 ==> forall|n: u64| #[trigger] arrived.contains(n) ==> n == 0,
    ensures
        missing_known(
            t.fold(ev),
            if t.high_seq == 0 {
                ev.seq
            } else {
                first
            },
            arrived.insert(ev.seq),
        ),
{
    let f = t.fold(ev);
    if t.replayed(ev) {
        assert(f == t);
        assert forall|n: u64| t.high_seq > 0 implies (#[trigger] t.gaps.contains(n) <==> first < n < t.high_seq
            && !arrived.insert(ev.seq).contains(n)) by {
            if n == ev.seq {
                assert(!t.gaps.contains(n));
            }
        }
    } else {
        let widened = if ev.seq > t.high_seq + 1 && t.high_seq > 0 {
            t.gaps + span(t.high_seq + 1, ev.seq as int)
        } else {
            t.gaps
        };
        assert(f.gaps == without_gap(widened, ev.seq));
        if t.high_seq == 0 {
            assert(widened.len() == 0);
            assert(without_gap(widened, ev.seq) =~= Seq::<u64>::empty()) by {
                reveal(Seq::filter);
            }
        } else {
            assert forall|n: u64| #[trigger] f.gaps.contains(n) <==> first < n < f.high_seq && !arrived.insert(
                ev.seq,
            ).contains(n) by {
                lemma_without_gap_keeps(widened, ev.seq, n);
                if ev.seq > t.high_seq + 1 {
                    lemma_span_holds(t.high_seq + 1, ev.seq as int, n);
                    lemma_either(t.gaps, span(t.high_seq + 1, ev.seq as int), n);
                }
                assert(t.gaps.contains(n) <==> first < n < t.high_seq && !arrived.contains(n));
                if arrived.contains(n) {
                    assert(n <= t.high_seq);
                }
            }
        }
    }
}

/// An event whose number has been folded into its turn is ignored, whatever came in between,
/// unless its frame extends the text.
pub proof fn law_a_folded_number_is_ignored(t: TurnModel, ev: AgentEventModel, first: u64, arrived: Set<u64>)
    requires
        missing_known(t, first, arrived),
        arrived.contains(ev.seq),
        ev.seq <= t.high_seq,
        !t.untouched(),
        !t.extended_by(ev),
    ensures
        t.fold(ev) == t,
{
    assert(!t.gaps.contains(ev.seq));
}

proof fn lemma_without_gap_keeps(gaps: Seq<u64>, seq: u64, n: u64)
    ensures
        without_gap(gaps, seq).contains(n) <==> gaps.contains(n) && n != seq,
    decreases gaps.len(),
{
    if gaps.len() > 0 {
        let rest = gaps.drop_last();
        let last = gaps.last();
        lemma_without_gap_keeps(rest, seq, n);
        assert(gaps =~= rest.push(last));
        lemma_gap_push(rest, last, seq);
        lemma_push_holds(rest, last, n);
        lemma_push_holds(without_gap(rest, seq), last, n);
    } else {
        assert(without_gap(gaps, seq) =~= Seq::<u64>::empty()) by {
            reveal(Seq::filter);
        }
    }
}

proof fn lemma_push_holds(s: Seq<u64>, x: u64, n: u64)
    ensures
        s.push(x).contains(n) <==> s.contains(n) || n == x,
{
    if s.contains(n) {
        let i = s.index_of(n);
        assert(s.push(x)[i] == n);
    }
    if n == x {
        assert(s.push(x)[s.len() as int] == n);
    }
    if s.push(x).contains(n) {
        let i = s.push(x).index_of(n);
        if i < s.len() {
            assert(s[i] == n);
        }
    }
}

proof fn lemma_either(a: Seq<u64>, b: Seq<u64>, n: u64)
    ensures
        (a + b).contains(n) <==> a.contains(n) || b.contains(n),
{
    if a.contains(n) {
        let i = a.index_of(n);
        assert((a + b)[i] == n);
    }
    if b.contains(n) {
        let i = b.index_of(n);
        assert((a + b)[a.len() + i] == n);
    }
    if (a + b).contains(n) {
        let i = (a + b).index_of(n);
        if i < a.len() {
            assert(a[i] == n);
        } else {
            assert(b[i - a.len()] == n);
        }
    }
}

proof fn lemma_span_holds(from: int, to: int, n: u64)
    requires
        0 <= from,
        to <= u64::MAX,
    ensures
        span(from, to).contains(n) <==> from <= n < to,
{
    if from <= n < to {
        assert(span(from, to)[n - from] == n);
    }
}

proof fn lemma_without_gap(gaps: Seq<u64>, seq: u64)
    ensures
        !without_gap(gaps, seq).contains(seq),
    decreases gaps.len(),
{
    if gaps.len() > 0 {
        let rest = gaps.drop_last();
        lemma_without_gap(rest, seq);
        assert(gaps =~= rest.push(gaps.last()));
        lemma_gap_push(rest, gaps.last(), seq);
        let kept = without_gap(gaps, seq);
        if kept.contains(seq) {
            let i = kept.index_of(seq);
            assert(kept[i] == seq);
            if i < without_gap(rest, seq).len() {
                assert(without_gap(rest, seq)[i] == seq);
            }
        }
    }
}

/// A turn that has folded an event is not changed by the same event again: Matrix edits
/// deliver the whole content on every progressive update.
pub proof fn law_replay_changes_no_turn(t: TurnModel, ev: AgentEventModel)
    ensures
        t.fold(ev).fold(ev) == t.fold(ev),
{
    let once = t.fold(ev);
    law_folding_counts_the_event(t, ev);
    if !t.replayed(ev) {
        if once.untouched() {
            lemma_without_absent_gap(once.gaps, ev.seq);
            assert(once.counted(ev) =~= once);
            if ev.kind is MessageDelta || ev.kind is Commentary {
                if let Some(frame) = ev.text {
                    assert(frame.len() == 0);
                    assert(accumulate(Seq::<char>::empty(), frame) =~= Seq::<char>::empty());
                }
            }
            assert(once.filled(ev) =~= once);
        } else {
            assert(!once.extended_by(ev));
        }
    }
}

proof fn lemma_without_absent_gap(gaps: Seq<u64>, seq: u64)
    requires
        !gaps.contains(seq),
    ensures
        without_gap(gaps, seq) == gaps,
    decreases gaps.len(),
{
    if gaps.len() > 0 {
        let rest = gaps.drop_last();
        assert(gaps[gaps.len() - 1] == gaps.last());
        assert forall|i: int| 0 <= i < rest.len() implies rest[i] != seq by {
            assert(gaps[i] == rest[i]);
        }
        lemma_without_absent_gap(rest, seq);
        assert(gaps =~= rest.push(gaps.last()));
        lemma_gap_push(rest, gaps.last(), seq);
    } else {
        assert(without_gap(gaps, seq) =~= gaps);
    }
}

/// Folding the same event twice into the store is folding it once.
pub proof fn law_replay_is_ignored(store: Map<Seq<char>, SessionModel>, ev: AgentEventModel)
    ensures
        fold_store(fold_store(store, ev), ev) == fold_store(store, ev),
{
    let s = session_or_start(store, ev.session_id);
    let once = s.fold(ev);
    lemma_replayed_pending(s, ev);
    lemma_replayed_turns(s.turns, ev);
    assert(once.fold(ev) =~= once);
    assert(fold_store(fold_store(store, ev), ev) =~= fold_store(store, ev));
}

/// A request asks something exactly where it is news: its prompt is not asked yet, and was not
/// settled at its number in its turn, or a larger one. One that comes again with a larger
/// number is asked again.
pub proof fn law_only_a_new_request_asks(s: SessionModel, ev: AgentEventModel)
    requires
        ev.kind is ApprovalRequest,
        ev.approval is Some,
        !has_prompt(s.pending, ev.approval->0.id),
    ensures
        has_prompt(s.fold(ev).pending, ev.approval->0.id) <==> !marked(s.settled, ev.approval->0.id, ev),
        marked(s.fold(ev).asked, ev.approval->0.id, ev),
{
    let after = s.fold(ev);
    if !marked(s.settled, ev.approval->0.id, ev) {
        assert(after.pending[after.pending.len() - 1].id() == ev.approval->0.id);
    }
    lemma_marking_marks(s.asked, ev.approval->0.id, ev);
}

/// What was settled stays settled, whatever comes.
pub proof fn law_what_was_settled_stays_settled(
    s: SessionModel,
    ev: AgentEventModel,
    id: Seq<char>,
    request: AgentEventModel,
)
    requires
        marked(s.settled, id, request),
    ensures
        marked(s.fold(ev).settled, id, request),
{
    let i = choose|i: int| 0 <= i < s.settled.len() && (#[trigger] s.settled[i]).covers(id, request);
    assert(s.fold(ev).settled[i] == s.settled[i]);
}

proof fn lemma_marking_marks(marks: Seq<MarkModel>, id: Seq<char>, ev: AgentEventModel)
    ensures
        marked(with_mark(marks, id, ev), id, ev),
{
    if !marked(marks, id, ev) {
        let then = with_mark(marks, id, ev);
        assert(then[then.len() - 1].covers(id, ev));
    }
}

proof fn lemma_resolving_marks(s: SessionModel, ev: AgentEventModel)
    requires
        ev.kind is ApprovalResolved,
        ev.approval is Some,
    ensures
        marked(s.fold(ev).settled, ev.approval->0.id, ev),
{
    let id = ev.approval->0.id;
    if !marked(s.settled, id, ev) {
        let own = with_mark(s.settled, id, ev);
        let then = s.fold(ev).settled;
        assert(then[own.len() - 1] == own[own.len() - 1]);
        assert(then[own.len() - 1].covers(id, ev));
    }
}

/// A prompt that was asked and then answered here is settled: its request, come again, asks
/// nothing.
pub proof fn law_an_answer_settles_its_request(s: SessionModel, request: AgentEventModel)
    requires
        request.kind is ApprovalRequest,
        request.approval is Some,
    ensures
        !has_prompt(answered(s.fold(request), request.approval->0.id).fold(request).pending, request.approval->0.id),
{
    let id = request.approval->0.id;
    let asked = s.fold(request);
    lemma_without_prompt(asked.pending, id);
    lemma_marking_marks(s.asked, id, request);
    assert(seq![id][0] == id);
    lemma_settling_asked(asked.settled, asked.asked, seq![id], None, id, request);
}

/// A prompt that was asked and then ran out is settled: its request, come again, asks
/// nothing.
pub proof fn law_running_out_settles_a_request(s: SessionModel, request: AgentEventModel, now: u64)
    requires
        marked(s.asked, request.approval->0.id, request),
        expired_ids(s.pending, now).contains(request.approval->0.id),
        request.kind is ApprovalRequest,
        request.approval is Some,
        !has_prompt(expire(s, now).pending, request.approval->0.id),
    ensures
        !has_prompt(expire(s, now).fold(request).pending, request.approval->0.id),
{
    let id = request.approval->0.id;
    lemma_settling_asked(s.settled, s.asked, expired_ids(s.pending, now), None, id, request);
}

proof fn lemma_settling_asked(
    settled: Seq<MarkModel>,
    asked: Seq<MarkModel>,
    ids: Seq<Seq<char>>,
    but: Option<Seq<char>>,
    id: Seq<char>,
    ev: AgentEventModel,
)
    requires
        marked(asked, id, ev),
        ids.contains(id),
        but != Some(ev.turn_id),
    ensures
        marked(settled + marks_of(asked, ids, but), id, ev),
{
    let i = choose|i: int| 0 <= i < asked.len() && (#[trigger] asked[i]).covers(id, ev);
    asked.lemma_filter_contains(|m: MarkModel| ids.contains(m.id) && but != Some(m.turn_id), i);
    let kept = marks_of(asked, ids, but);
    let k = choose|k: int| 0 <= k < kept.len() && kept[k] == asked[i];
    let then = settled + kept;
    assert(then[settled.len() + k] == asked[i]);
    assert(then[settled.len() + k].covers(id, ev));
}

/// A resolution settles its request, before it or behind it: the two may come in either
/// order, and the request may come again.
pub proof fn law_a_resolution_settles_its_request(s: SessionModel, request: AgentEventModel, resolved: AgentEventModel)
    requires
        request.kind is ApprovalRequest,
        request.approval is Some,
        resolved.kind is ApprovalResolved,
        resolved.approval is Some,
        resolved.approval->0.id == request.approval->0.id,
        resolved.turn_id == request.turn_id,
        request.seq <= resolved.seq,
    ensures
        !has_prompt(s.fold(request).fold(resolved).pending, request.approval->0.id),
        !has_prompt(s.fold(request).fold(resolved).fold(request).pending, request.approval->0.id),
        !has_prompt(s.fold(resolved).fold(request).pending, request.approval->0.id),
{
    lemma_settled_behind(s, request, resolved);
    lemma_settled_behind(s.fold(request), request, resolved);
    lemma_without_prompt(s.fold(request).pending, request.approval->0.id);
}

/// A resolution that is news settles a request of another turn too: that comes again for
/// nothing.
pub proof fn law_a_resolution_settles_other_turns(s: SessionModel, request: AgentEventModel, resolved: AgentEventModel)
    requires
        request.kind is ApprovalRequest,
        request.approval is Some,
        resolved.kind is ApprovalResolved,
        resolved.approval is Some,
        resolved.approval->0.id == request.approval->0.id,
        resolved.turn_id != request.turn_id,
        !marked(s.settled, resolved.approval->0.id, resolved),
    ensures
        !has_prompt(s.fold(request).fold(resolved).fold(request).pending, request.approval->0.id),
{
    let id = request.approval->0.id;
    let asked = s.fold(request);
    lemma_marking_marks(s.asked, id, request);
    lemma_without_prompt(asked.pending, id);
    assert(seq![id][0] == id);
    lemma_settling_asked(
        with_mark(asked.settled, id, resolved),
        asked.asked,
        seq![id],
        Some(resolved.turn_id),
        id,
        request,
    );
}

proof fn lemma_settled_behind(s: SessionModel, request: AgentEventModel, resolved: AgentEventModel)
    requires
        request.kind is ApprovalRequest,
        request.approval is Some,
        resolved.kind is ApprovalResolved,
        resolved.approval is Some,
        resolved.approval->0.id == request.approval->0.id,
        resolved.turn_id == request.turn_id,
        request.seq <= resolved.seq,
    ensures
        !has_prompt(s.fold(resolved).fold(request).pending, request.approval->0.id),
{
    let id = request.approval->0.id;
    let then = s.fold(resolved);
    lemma_without_prompt(s.pending, id);
    lemma_resolving_marks(s, resolved);
    let i = choose|i: int| 0 <= i < then.settled.len() && (#[trigger] then.settled[i]).covers(id, resolved);
    assert(then.settled[i].covers(id, request));
}

/// Whether a session holds all that an event says: its turn has folded it, and its prompt was
/// asked at its number already, or a larger one, and is so still, or is settled.
pub open spec fn holds(s: SessionModel, ev: AgentEventModel) -> bool {
    &&& exists|i: int| #[trigger] turn_at(s.turns, ev.turn_id, i) && s.turns[i].replayed(ev)
    &&& match ev.kind {
        Kind::ApprovalRequest => ev.approval is Some ==> s.holds_request(ev.approval->0.id, ev),
        Kind::ModelPicker => ev.picker is Some ==> s.holds_request(ev.picker->0.id, ev),
        Kind::ApprovalResolved => ev.approval is Some ==> !has_prompt(s.pending, ev.approval->0.id) && marked(
            s.settled,
            ev.approval->0.id,
            ev,
        ),
        _ => true,
    }
}

/// An event that a session holds already is ignored, whatever came in between.
pub proof fn law_what_is_held_is_ignored(s: SessionModel, ev: AgentEventModel)
    requires
        holds(s, ev),
    ensures
        s.fold(ev) == s,
{
    let i = choose|i: int| #[trigger] turn_at(s.turns, ev.turn_id, i) && s.turns[i].replayed(ev);
    lemma_fold_turns(s.turns, ev, i);
    assert(s.turns.update(i, s.turns[i]) =~= s.turns);
    if ev.kind is ApprovalResolved && ev.approval is Some {
        lemma_without_prompt(s.pending, ev.approval->0.id);
    }
}

/// An event that comes again once the user has looked leaves the session looked at.
pub proof fn law_a_replay_is_no_news(s: SessionModel, ev: AgentEventModel)
    ensures
        (SessionModel { seen: true, ..s.fold(ev) }).fold(ev) == (SessionModel { seen: true, ..s.fold(ev) }),
{
    lemma_replayed_pending(s, ev);
    lemma_replayed_turns(s.turns, ev);
}

/// Whether prompts were settled shows in how many are left.
proof fn lemma_settling_shows(s: SessionModel, ev: AgentEventModel)
    ensures
        fold_pending(s, ev) != s.pending ==> fold_pending(s, ev).len() != s.pending.len(),
{
    if ev.kind is ApprovalResolved && ev.approval is Some {
        lemma_fewer_prompts(s.pending, ev.approval->0.id);
    }
}

proof fn lemma_fewer_prompts(pending: Seq<PendingModel>, id: Seq<char>)
    ensures
        without_prompt(pending, id).len() <= pending.len(),
        without_prompt(pending, id) != pending ==> without_prompt(pending, id).len() < pending.len(),
    decreases pending.len(),
{
    if pending.len() > 0 {
        let rest = pending.drop_last();
        lemma_fewer_prompts(rest, id);
        assert(pending =~= rest.push(pending.last()));
        lemma_prompt_push(rest, pending.last(), id, 0);
    } else {
        assert(without_prompt(pending, id) =~= pending);
    }
}

proof fn lemma_replayed_pending(s: SessionModel, ev: AgentEventModel)
    ensures
        ({
            let once = s.fold(ev);
            &&& fold_pending(once, ev) == once.pending
            &&& fold_asked(once.asked, ev) == once.asked
            &&& fold_settled(once, ev) == once.settled
        }),
{
    let once = s.fold(ev);
    match ev.kind {
        Kind::ApprovalResolved => {
            if let Some(a) = ev.approval {
                lemma_without_prompt(s.pending, a.id);
                lemma_without_prompt(once.pending, a.id);
                lemma_resolving_marks(s, ev);
            }
        },
        Kind::ApprovalRequest => {
            if let Some(a) = ev.approval {
                if once.pending != s.pending {
                    assert(once.pending[once.pending.len() - 1].id() == a.id);
                }
                lemma_marking_marks(s.asked, a.id, ev);
            }
        },
        Kind::ModelPicker => {
            if let Some(p) = ev.picker {
                if once.pending != s.pending {
                    assert(once.pending[once.pending.len() - 1].id() == p.id);
                }
                lemma_marking_marks(s.asked, p.id, ev);
            }
        },
        _ => {},
    }
}

proof fn lemma_fold_keeps_id(t: TurnModel, ev: AgentEventModel)
    ensures
        t.fold(ev).turn_id == t.turn_id,
{
}

proof fn lemma_replayed_turns(turns: Seq<TurnModel>, ev: AgentEventModel)
    ensures
        fold_turns(fold_turns(turns, ev), ev) == fold_turns(turns, ev),
{
    let once = fold_turns(turns, ev);
    if exists|i: int| turn_at(turns, ev.turn_id, i) {
        let i = choose|i: int| turn_at(turns, ev.turn_id, i);
        lemma_fold_keeps_id(turns[i], ev);
        law_replay_changes_no_turn(turns[i], ev);
        assert forall|j: int| 0 <= j < i implies (#[trigger] once[j]).turn_id != ev.turn_id by {
            assert(turns[j].turn_id != ev.turn_id);
        }
        assert(turn_at(once, ev.turn_id, i));
        lemma_fold_turns(once, ev, i);
        assert(once.update(i, once[i].fold(ev)) =~= once);
    } else {
        let fresh = TurnModel::start(ev.turn_id);
        let i = turns.len() as int;
        lemma_fold_keeps_id(fresh, ev);
        law_replay_changes_no_turn(fresh, ev);
        assert forall|j: int| 0 <= j < i implies (#[trigger] once[j]).turn_id != ev.turn_id by {
            if turns[j].turn_id == ev.turn_id {
                lemma_first_turn(turns, ev.turn_id, j);
            }
        }
        assert(turn_at(once, ev.turn_id, i));
        lemma_fold_turns(once, ev, i);
        assert(once.update(i, once[i].fold(ev)) =~= once);
    }
}

proof fn lemma_first_turn(turns: Seq<TurnModel>, id: Seq<char>, j: int)
    requires
        0 <= j < turns.len(),
        turns[j].turn_id == id,
    ensures
        exists|i: int| turn_at(turns, id, i),
    decreases j,
{
    if exists|k: int| 0 <= k < j && (#[trigger] turns[k]).turn_id == id {
        let k = choose|k: int| 0 <= k < j && (#[trigger] turns[k]).turn_id == id;
        lemma_first_turn(turns, id, k);
    } else {
        assert(turn_at(turns, id, j));
    }
}

/// Sessions are interleaved on the wire: events of different sessions may come in either
/// order.
pub proof fn law_sessions_do_not_interfere(
    store: Map<Seq<char>, SessionModel>,
    a: AgentEventModel,
    b: AgentEventModel,
)
    requires
        a.session_id != b.session_id,
    ensures
        fold_store(fold_store(store, a), b) == fold_store(fold_store(store, b), a),
{
    assert(fold_store(fold_store(store, a), b) =~= fold_store(fold_store(store, b), a));
}

/// Every wire index has at most one card.
pub open spec fn one_card_each(cards: Seq<ToolModel>) -> bool {
    forall|i: int, j: int|
        0 <= i < j < cards.len() ==> (#[trigger] cards[i]).index != (#[trigger] cards[j]).index
}

/// Folding an event keeps at most one card for every wire index: a result updates the card of
/// its call rather than adding a duplicate.
pub proof fn law_one_card_each(t: TurnModel, ev: AgentEventModel)
    requires
        one_card_each(t.cards),
    ensures
        one_card_each(t.fold(ev).cards),
{
    if !t.replayed(ev) && (ev.kind is ToolCall || ev.kind is ToolResult) && ev.tool is Some {
        let tool = ev.tool->0;
        if exists|i: int| card_at(t.cards, tool.index, i) {
            let i = choose|i: int| card_at(t.cards, tool.index, i);
            lemma_with_tool(t.cards, tool, i);
        } else {
            assert forall|j: int| 0 <= j < t.cards.len() implies (#[trigger] t.cards[j]).index != tool.index by {
                if t.cards[j].index == tool.index {
                    assert(card_at(t.cards, tool.index, j));
                }
            }
        }
    }
}

} // verus!
