//! What holds of agent events: of the turns, cards and prompts that they fold into, of the words
//! that they are written in, and of what is recovered from plain text.

use vstd::prelude::*;

use crate::agent::adapter::{built_in, selected, under_key, ClaimModel, Registered};
use crate::agent::fallback::{
    blocks_of, call_form, ellipsis_form, preview_form, scan_line, scan_lines, tool_char, tool_line, tool_name,
    unquoted, Chrome, Scan,
};
use crate::agent::protocol::{
    decoded, decoded_under, kind_of_mime, payload_under, AgentEventModel, ArgModel, ArgsModel, DecodeErrorModel,
    Kind, ToolModel, ToolStatus, CONTENT_KEY, LEGACY_CONTENT_KEY, SCHEMA_VERSION,
};
use crate::agent::store::{
    answered, card_at, expire, expired_in, fold_store, has_prompt, ids_in, lemma_most_urgent, marked, most_urgent,
    one_card_each, turn_at, AgentState, PendingModel, SessionModel, TurnModel,
};
use crate::json::Json;
use crate::text::{first_at, join, lemma_first_at, lines, occurs_at, trim};

verus! {

// ----------------------------------------------------------------------------- turns

/// Whether an event is news to a turn by its number: it is larger than any that arrived, or one
/// that is waited for.
pub open spec fn is_news(t: TurnModel, ev: AgentEventModel) -> bool {
    ev.seq > t.high_seq || t.gaps.contains(ev.seq)
}

/// A number that is news counts, and the turn keeps its id and the agent that it first named.
pub proof fn law_news_is_counted(t: TurnModel, ev: AgentEventModel)
    requires
        is_news(t, ev),
    ensures
        t.fold(ev).turn_id == t.turn_id,
        t.fold(ev).high_seq >= ev.seq,
        t.fold(ev).high_seq == t.high_seq || t.fold(ev).high_seq == ev.seq,
        t.agent is Some ==> t.fold(ev).agent == t.agent,
        t.agent is None ==> t.fold(ev).agent == ev.agent,
{
}

/// The first event of a turn counts whatever its number.
pub proof fn law_the_first_event_counts(id: Seq<char>, ev: AgentEventModel)
    requires
        ev.kind is MessageDelta,
        ev.text is Some,
    ensures
        TurnModel::start(id).fold(ev).text == ev.text->0,
        TurnModel::start(id).fold(ev).high_seq == ev.seq,
        TurnModel::start(id).fold(ev).gaps.len() == 0,
        TurnModel::start(id).fold(ev).agent == ev.agent,
{
    broadcast use Seq::lemma_filter_len;

    assert(TurnModel::start(id).fold(ev).text =~= ev.text->0);
}

/// A text delta puts its text behind what there is, or in its place where it carries that text
/// already. It touches nothing else.
pub proof fn law_a_delta_is_text(t: TurnModel, ev: AgentEventModel)
    requires
        is_news(t, ev),
        ev.kind is MessageDelta,
        ev.text is Some,
    ensures
        t.text.is_prefix_of(t.fold(ev).text),
        t.text.is_prefix_of(ev.text->0) ==> t.fold(ev).text == ev.text->0,
        !t.text.is_prefix_of(ev.text->0) ==> t.fold(ev).text == t.text + ev.text->0,
        t.fold(ev).commentary == t.commentary,
        t.fold(ev).cards == t.cards,
        t.fold(ev).usage == t.usage,
        t.fold(ev).complete == t.complete,
{
}

/// Commentary gathers as text does, apart from it.
pub proof fn law_commentary_is_kept_apart(t: TurnModel, ev: AgentEventModel)
    requires
        is_news(t, ev),
        ev.kind is Commentary,
        ev.text is Some,
    ensures
        t.commentary.is_prefix_of(ev.text->0) ==> t.fold(ev).commentary == ev.text->0,
        !t.commentary.is_prefix_of(ev.text->0) ==> t.fold(ev).commentary == t.commentary + ev.text->0,
        t.fold(ev).text == t.text,
        t.fold(ev).cards == t.cards,
        t.fold(ev).usage == t.usage,
        t.fold(ev).complete == t.complete,
{
}

/// A final stop ends the turn; one that is not final is a break between segments. A turn that has
/// ended stays so.
pub proof fn law_only_a_final_stop_ends_a_turn(t: TurnModel, ev: AgentEventModel)
    ensures
        is_news(t, ev) && ev.kind is MessageStop && ev.final_ == Some(true) ==> t.fold(ev).complete,
        !(ev.kind is MessageStop && ev.final_ == Some(true)) ==> t.fold(ev).complete == t.complete,
        t.complete ==> t.fold(ev).complete,
        ev.kind is MessageStop ==> t.fold(ev).text == t.text && t.fold(ev).cards == t.cards,
{
}

/// What was used is what was last reported.
pub proof fn law_usage_is_what_was_reported(t: TurnModel, ev: AgentEventModel)
    ensures
        is_news(t, ev) && ev.kind is Usage ==> t.fold(ev).usage == ev.usage,
        !(ev.kind is Usage) ==> t.fold(ev).usage == t.usage,
        ev.kind is Usage ==> t.fold(ev).text == t.text && t.fold(ev).cards == t.cards && t.fold(ev).complete
            == t.complete,
{
}

/// Notices, prompts and kinds that are not known say nothing of the turn but that they came.
pub proof fn law_other_kinds_leave_the_turn(t: TurnModel, ev: AgentEventModel)
    requires
        ev.kind is Notice || ev.kind is ApprovalRequest || ev.kind is ApprovalResolved || ev.kind is ModelPicker
            || ev.kind is Unknown,
    ensures
        t.fold(ev).text == t.text,
        t.fold(ev).commentary == t.commentary,
        t.fold(ev).cards == t.cards,
        t.fold(ev).usage == t.usage,
        t.fold(ev).complete == t.complete,
{
}

// ----------------------------------------------------------------------------- cards

/// A call or a result is told on the card of its index: what it carries is on the card, and what
/// it leaves out is what the card had. A result keeps the arguments of its call, and a call the
/// name it was made under. Nothing that was cut off is taken for whole.
pub proof fn law_a_result_is_on_the_card_of_its_call(t: TurnModel, ev: AgentEventModel, i: int)
    requires
        is_news(t, ev),
        ev.kind is ToolCall || ev.kind is ToolResult,
        ev.tool is Some,
        one_card_each(t.cards),
        0 <= i < t.cards.len(),
        t.cards[i].index == ev.tool->0.index,
    ensures
        ({
            let was = t.cards[i];
            let now = t.fold(ev).cards[i];
            let told = ev.tool->0;
            &&& t.fold(ev).cards.len() == t.cards.len()
            &&& now.index == was.index
            &&& now.name == was.name
            &&& now.status == told.status
            &&& told.body is Some ==> now.body == told.body
            &&& told.body is None ==> now.body == was.body
            &&& told.args is Some ==> now.args == told.args
            &&& told.args is None ==> now.args == was.args
            &&& told.mime is Some ==> now.mime == told.mime
            &&& told.mime is None ==> now.mime == was.mime
            &&& told.preview is Some ==> now.preview == told.preview
            &&& told.preview is None ==> now.preview == was.preview
            &&& told.duration_ms is Some ==> now.duration_ms == told.duration_ms
            &&& told.duration_ms is None ==> now.duration_ms == was.duration_ms
            &&& now.truncated <==> was.truncated || told.truncated
        }),
        forall|j: int| 0 <= j < t.cards.len() && j != i ==> #[trigger] t.fold(ev).cards[j] == t.cards[j],
        t.fold(ev).text == t.text,
        t.fold(ev).complete == t.complete,
{
    assert forall|j: int| 0 <= j < i implies (#[trigger] t.cards[j]).index != ev.tool->0.index by {
        assert(t.cards[i].index == ev.tool->0.index);
    }
    assert(card_at(t.cards, ev.tool->0.index, i));
    let c = choose|c: int| card_at(t.cards, ev.tool->0.index, c);
    assert(card_at(t.cards, ev.tool->0.index, c));
    assert(c == i) by {
        if c < i {
            assert(t.cards[c].index == t.cards[i].index);
        }
        if i < c {
            assert(t.cards[i].index == t.cards[c].index);
        }
    }
}

/// A call of an index that is new is a new card behind the others, as it was told.
pub proof fn law_a_new_call_is_a_new_card(t: TurnModel, ev: AgentEventModel)
    requires
        is_news(t, ev),
        ev.kind is ToolCall || ev.kind is ToolResult,
        ev.tool is Some,
        forall|i: int| 0 <= i < t.cards.len() ==> (#[trigger] t.cards[i]).index != ev.tool->0.index,
    ensures
        t.fold(ev).cards == t.cards.push(ev.tool->0),
{
    if exists|c: int| card_at(t.cards, ev.tool->0.index, c) {
        let c = choose|c: int| card_at(t.cards, ev.tool->0.index, c);
        assert(t.cards[c].index == ev.tool->0.index);
    }
}

// -------------------------------------------------------------------------- sessions

/// An event is told in its own turn, which is made where there is none; the others are left
/// alone, in their order.
pub proof fn law_an_event_is_told_in_its_turn(s: SessionModel, ev: AgentEventModel, i: int)
    requires
        turn_at(s.turns, ev.turn_id, i),
    ensures
        s.fold(ev).turns.len() == s.turns.len(),
        s.fold(ev).turns[i] == s.turns[i].fold(ev),
        forall|j: int| 0 <= j < s.turns.len() && j != i ==> #[trigger] s.fold(ev).turns[j] == s.turns[j],
{
    let c = choose|c: int| turn_at(s.turns, ev.turn_id, c);
    assert(turn_at(s.turns, ev.turn_id, c));
    assert(c == i) by {
        if c < i {
            assert(s.turns[c].turn_id == ev.turn_id);
        }
        if i < c {
            assert(s.turns[i].turn_id == ev.turn_id);
        }
    }
}

/// An event of a turn that is new begins it, behind the others.
pub proof fn law_a_new_turn_comes_last(s: SessionModel, ev: AgentEventModel)
    requires
        forall|i: int| 0 <= i < s.turns.len() ==> (#[trigger] s.turns[i]).turn_id != ev.turn_id,
    ensures
        s.fold(ev).turns.len() == s.turns.len() + 1,
        s.fold(ev).turns.last().turn_id == ev.turn_id,
        s.fold(ev).turns.drop_last() == s.turns,
{
    if exists|c: int| turn_at(s.turns, ev.turn_id, c) {
        let c = choose|c: int| turn_at(s.turns, ev.turn_id, c);
        assert(s.turns[c].turn_id == ev.turn_id);
    }
    assert(s.fold(ev).turns.drop_last() =~= s.turns);
}

/// A session keeps its name, whether it is read from text, and whether its agent types, whatever
/// event comes. Only new activity makes it unseen, and nothing that comes makes it seen.
pub proof fn law_an_event_leaves_the_rest_of_its_session(s: SessionModel, ev: AgentEventModel)
    ensures
        s.fold(ev).session_id == s.session_id,
        s.fold(ev).degraded == s.degraded,
        s.fold(ev).typing == s.typing,
        !s.seen ==> !s.fold(ev).seen,
        s.fold(ev).turns != s.turns ==> !s.fold(ev).seen,
        s.fold(ev).pending != s.pending ==> !s.fold(ev).seen,
{
}

/// An event is folded into the session that it names, which is made where there is none, and
/// into no other.
pub proof fn law_an_event_reaches_its_session(store: Map<Seq<char>, SessionModel>, ev: AgentEventModel, id: Seq<char>)
    ensures
        fold_store(store, ev).contains_key(ev.session_id),
        store.contains_key(ev.session_id) ==> fold_store(store, ev)[ev.session_id] == store[ev.session_id].fold(ev),
        !store.contains_key(ev.session_id) ==> fold_store(store, ev)[ev.session_id].session_id == ev.session_id,
        !store.contains_key(ev.session_id) ==> fold_store(store, ev)[ev.session_id].turns.len() == 1,
        id != ev.session_id ==> (fold_store(store, ev).contains_key(id) <==> store.contains_key(id)),
        id != ev.session_id && store.contains_key(id) ==> fold_store(store, ev)[id] == store[id],
{
}

/// The state of a session: blocked while something is asked; else at work while its agent types,
/// its last turn goes on, or a tool of that runs; else done until it was looked at; and idle
/// where nothing ever came.
pub proof fn law_a_state_is_derived(s: SessionModel)
    ensures
        s.state() is Blocked <==> s.pending.len() > 0,
        s.pending.len() == 0 && s.typing ==> s.state() is Working,
        s.pending.len() == 0 && !s.typing && s.turns.len() == 0 ==> s.state() is Idle,
        s.pending.len() == 0 && !s.typing && s.turns.len() > 0 ==> {
            let last = s.turns[s.turns.len() - 1];
            let busy = exists|i: int| 0 <= i < last.cards.len() && (#[trigger] last.cards[i]).status is Running;
            &&& !last.complete || busy <==> s.state() is Working
            &&& last.complete && !busy && !s.seen <==> s.state() is Done
            &&& last.complete && !busy && s.seen <==> s.state() is Idle
        },
{
}

/// What waits for a human outranks what is at work, that what is done, and that what is idle;
/// each has a glyph of its own.
pub proof fn law_states_are_ranked(a: AgentState, b: AgentState)
    ensures
        AgentState::Blocked.rank() > AgentState::Working.rank() > AgentState::Done.rank() > AgentState::Idle.rank(),
        a.spec_glyph() == b.spec_glyph() ==> a == b,
        a.rank() == b.rank() ==> a == b,
        a.spec_urgent(b).rank() >= a.rank(),
        a.spec_urgent(b).rank() >= b.rank(),
        a.spec_urgent(b) == a || a.spec_urgent(b) == b,
        AgentState::Blocked.spec_glyph() == "▲"@,
        AgentState::Working.spec_glyph() == "●"@,
        AgentState::Done.spec_glyph() == "✓"@,
        AgentState::Idle.spec_glyph() == "·"@,
{
    reveal_strlit("·");
    reveal_strlit("✓");
    reveal_strlit("●");
    reveal_strlit("▲");
    assert("·"@[0] != "✓"@[0] && "·"@[0] != "●"@[0] && "·"@[0] != "▲"@[0]);
    assert("✓"@[0] != "●"@[0] && "✓"@[0] != "▲"@[0] && "●"@[0] != "▲"@[0]);
}

/// The badge over several states is one of them, and none of them outranks it; over none it is
/// idle.
pub proof fn law_a_badge_is_the_most_urgent(states: Seq<AgentState>, i: int)
    requires
        0 <= i < states.len(),
    ensures
        states[i].rank() <= most_urgent(states).rank(),
        states.contains(most_urgent(states)) || most_urgent(states) is Idle,
        most_urgent(Seq::empty()) is Idle,
{
    lemma_most_urgent(states);
}

// --------------------------------------------------------------------------- prompts

/// A request that is news is asked behind the others, as it was made: an approval as an approval,
/// a choice of model as one.
pub proof fn law_a_new_prompt_is_asked_last(s: SessionModel, ev: AgentEventModel)
    ensures
        ev.kind is ApprovalRequest && ev.approval is Some && !has_prompt(s.pending, ev.approval->0.id) && !marked(
            s.settled,
            ev.approval->0.id,
            ev,
        ) ==> s.fold(ev).pending == s.pending.push(PendingModel::Approval(ev.approval->0)),
        ev.kind is ModelPicker && ev.picker is Some && !has_prompt(s.pending, ev.picker->0.id) && !marked(
            s.settled,
            ev.picker->0.id,
            ev,
        ) ==> s.fold(ev).pending == s.pending.push(PendingModel::Picker(ev.picker->0)),
        !(ev.kind is ApprovalRequest || ev.kind is ModelPicker || ev.kind is ApprovalResolved) ==> s.fold(ev).pending
            == s.pending,
{
}

/// A resolution, and an answer given here, take away the prompt with that id and leave every
/// other.
pub proof fn law_only_the_answered_prompt_goes(s: SessionModel, ev: AgentEventModel, p: PendingModel)
    requires
        ev.kind is ApprovalResolved,
        ev.approval is Some,
        s.pending.contains(p),
    ensures
        p.id() != ev.approval->0.id <==> s.fold(ev).pending.contains(p),
        p.id() != ev.approval->0.id <==> answered(s, ev.approval->0.id).pending.contains(p),
{
    let id = ev.approval->0.id;
    let keep = |q: PendingModel| q.id() != id;
    let i = s.pending.index_of(p);
    if p.id() != id {
        s.pending.lemma_filter_contains(keep, i);
    }
    if s.pending.filter(keep).contains(p) {
        let k = s.pending.filter(keep).index_of(p);
        s.pending.lemma_filter_pred(keep, k);
    }
}

/// A prompt runs out when its time has come, not before; one without a time never does.
pub proof fn law_a_prompt_runs_out_in_time(s: SessionModel, now: u64, p: PendingModel)
    requires
        s.pending.contains(p),
    ensures
        expire(s, now).pending.contains(p) <==> (p.expires_at() is None || p.expires_at()->0 > now),
        expire(s, now).turns == s.turns,
        expire(s, now).seen == s.seen,
        expire(s, now).typing == s.typing,
        expire(s, now).degraded == s.degraded,
{
    let keep = |q: PendingModel|
        match q.expires_at() {
            Some(e) => e > now,
            None => true,
        };
    let i = s.pending.index_of(p);
    assert(expire(s, now).pending == s.pending.filter(keep));
    if keep(p) {
        s.pending.lemma_filter_contains(keep, i);
    }
    if s.pending.filter(keep).contains(p) {
        let k = s.pending.filter(keep).index_of(p);
        s.pending.lemma_filter_pred(keep, k);
    }
}

/// A prompt is known by the id of its approval, or of its choice, and runs out when that does.
pub proof fn law_a_prompt_is_what_it_asks(p: PendingModel)
    ensures
        match p {
            PendingModel::Approval(a) => p.id() == a.id && p.expires_at() == a.expires_at,
            PendingModel::Picker(c) => p.id() == c.id && p.expires_at() == c.expires_at,
        },
{
}

// --------------------------------------------------------------------- words, payloads

/// Each kind of event is named by a word of its own; any other word is a kind that is not known.
pub proof fn law_a_kind_is_named_by_its_word(word: Seq<char>)
    ensures
        word == "message.delta"@ <==> Kind::of_word(word) is MessageDelta,
        word == "message.stop"@ <==> Kind::of_word(word) is MessageStop,
        word == "commentary"@ <==> Kind::of_word(word) is Commentary,
        word == "tool.call"@ <==> Kind::of_word(word) is ToolCall,
        word == "tool.result"@ <==> Kind::of_word(word) is ToolResult,
        word == "notice"@ <==> Kind::of_word(word) is Notice,
        word == "approval.request"@ <==> Kind::of_word(word) is ApprovalRequest,
        word == "approval.resolved"@ <==> Kind::of_word(word) is ApprovalResolved,
        word == "model.picker"@ <==> Kind::of_word(word) is ModelPicker,
        word == "usage"@ <==> Kind::of_word(word) is Usage,
{
    reveal_strlit("message.delta");
    reveal_strlit("message.stop");
    reveal_strlit("commentary");
    reveal_strlit("tool.call");
    reveal_strlit("tool.result");
    reveal_strlit("notice");
    reveal_strlit("approval.request");
    reveal_strlit("approval.resolved");
    reveal_strlit("model.picker");
    reveal_strlit("usage");
    assert("message.delta"@.len() == 13 && "message.stop"@.len() == 12 && "commentary"@.len() == 10);
    assert("tool.call"@.len() == 9 && "tool.result"@.len() == 11 && "notice"@.len() == 6);
    assert("approval.request"@.len() == 16 && "approval.resolved"@.len() == 17);
    assert("model.picker"@.len() == 12 && "usage"@.len() == 5);
    assert("model.picker"@[1] == 'o' && "message.stop"@[1] == 'e');
}

/// How a result is rendered is what its type asks for; what is not known is plain.
pub proof fn law_a_result_is_rendered_by_its_type(mime: Option<Seq<char>>)
    ensures
        mime is None ==> kind_of_mime(mime) is Plain,
        kind_of_mime(mime) is Diff <==> mime == Some("text/x-diff"@) || mime == Some("text/x-patch"@) || mime == Some(
            "application/x-patch"@,
        ),
        kind_of_mime(mime) is Json <==> mime == Some("application/json"@) || mime == Some("text/json"@),
        kind_of_mime(mime) is Markdown <==> mime == Some("text/markdown"@) || mime == Some("text/x-markdown"@),
{
    reveal_strlit("text/x-diff");
    reveal_strlit("text/x-patch");
    reveal_strlit("application/x-patch");
    reveal_strlit("application/json");
    reveal_strlit("text/json");
    reveal_strlit("text/markdown");
    reveal_strlit("text/x-markdown");
    assert("text/x-diff"@.len() == 11 && "text/x-patch"@.len() == 12 && "application/x-patch"@.len() == 19);
    assert("application/json"@.len() == 16 && "text/json"@.len() == 9 && "text/markdown"@.len() == 13);
    assert("text/x-markdown"@.len() == 15);
}

/// A card is summed up by its preview where that says something, whatever its arguments; else by
/// the first of them that is a word or a number.
pub proof fn law_a_card_is_summed_up(t: ToolModel, args: Seq<(Seq<char>, ArgModel)>, n: int)
    requires
        t.args == Some(ArgsModel::Object(args)),
        0 <= n < args.len(),
        forall|i: int| 0 <= i < n ==> says_nothing((#[trigger] args[i]).1),
        !says_nothing(args[n].1),
    ensures
        t.preview is Some && t.preview->0.len() > 0 ==> t.summary() == t.preview->0,
        t.preview is None || t.preview->0.len() == 0 ==> match args[n].1 {
            ArgModel::Text(s) => t.summary() == s,
            ArgModel::Number(s) => t.summary() == s,
            ArgModel::Other(_) => false,
        },
{
    lemma_first_scalar(args, n);
}

/// Whether an argument is neither a number nor a word.
pub open spec fn says_nothing(a: ArgModel) -> bool {
    match a {
        ArgModel::Text(s) => s.len() == 0,
        ArgModel::Number(_) => false,
        ArgModel::Other(_) => true,
    }
}

proof fn lemma_first_scalar(args: Seq<(Seq<char>, ArgModel)>, n: int)
    requires
        0 <= n < args.len(),
        forall|i: int| 0 <= i < n ==> says_nothing((#[trigger] args[i]).1),
        !says_nothing(args[n].1),
    ensures
        args[n].1.scalar() == Some(crate::agent::protocol::first_scalar(args)),
    decreases n,
{
    if n > 0 {
        assert(says_nothing(args[0].1));
        let rest = args.skip(1);
        assert forall|i: int| 0 <= i < n - 1 implies says_nothing((#[trigger] rest[i]).1) by {
            assert(rest[i] == args[i + 1]);
        }
        assert(rest[n - 1] == args[n]);
        lemma_first_scalar(rest, n - 1);
    }
}

/// An event is read under the published key where there is one, and under the older key only
/// where there is not; under either, it must say its version, and one this build understands.
pub proof fn law_the_published_key_comes_first(content: Json)
    ensures
        payload_under(content, CONTENT_KEY@) is Some ==> decoded(content) == decoded_under(content, CONTENT_KEY@),
        payload_under(content, CONTENT_KEY@) is None ==> decoded(content) == decoded_under(content, LEGACY_CONTENT_KEY@),
        decoded(content) is Ok && payload_under(content, CONTENT_KEY@) is Some ==> decoded(content)->Ok_0 == payload_under(
            content,
            CONTENT_KEY@,
        )->0,
        decoded(content) is Ok ==> decoded(content)->Ok_0.member("v"@) == Some(Json::Unsigned(1u64)) || decoded(
            content,
        )->Ok_0.member("v"@) == Some(Json::Unsigned(0u64)),
        CONTENT_KEY@ == "dev.heddle.agent.v1"@,
        LEGACY_CONTENT_KEY@ == "dev.hermes.agent.v1"@,
        SCHEMA_VERSION == 1,
{
}

/// A payload without a version cannot be read, one of a newer schema is told by its version, and
/// neither is taken for no payload.
pub proof fn law_what_cannot_be_read_says_why(content: Json, key: Seq<char>)
    requires
        payload_under(content, key) is Some,
    ensures
        (!(decoded_under(content, key) matches Err(DecodeErrorModel::Absent))),
        payload_under(content, key)->0.member("v"@) is None ==> ((((decoded_under(content, key) matches Err(
            DecodeErrorModel::Malformed(_),
        ))))),
        (payload_under(content, key)->0.member("v"@) matches Some(Json::Unsigned(v)) ==> (1 < v <= u32::MAX ==> (
        decoded_under(content, key) matches Err(DecodeErrorModel::UnsupportedVersion { found }) && found == v))),
{
}

// ------------------------------------------------------------------------ plain text

/// A line is taken for a call only in a shape that the table has, and only under a name that a
/// tool could have; with an emoji required, only behind one.
pub proof fn law_a_call_has_a_shape_and_a_name(line: Seq<char>, chrome: Chrome)
    requires
        tool_line(line, chrome) is Some,
    ensures
        ({
            let call = tool_line(line, chrome)->0;
            &&& tool_name(call.name)
            &&& chrome.leading_emoji ==> trim(line).len() > 0 && crate::agent::fallback::emoji_like(trim(line)[0])
            &&& chrome.preview || chrome.call || chrome.ellipsis
            &&& call.status == ToolStatus::Success
            &&& call.args is None && call.body is None && call.duration_ms is None
            &&& call.preview is Some ==> chrome.preview && call.preview->0.len() > 0
        }),
{
    lemma_no_name_in_nothing();
}

proof fn lemma_no_name_in_nothing()
    ensures
        preview_form(Seq::empty()) is None,
        call_form(Seq::empty()) is None,
        ellipsis_form(Seq::empty()) is None,
{
    reveal_strlit(": ");
    reveal_strlit("(");
    let e = Seq::<char>::empty();
    assert forall|i: int| !first_at(e, ": "@, i) && !first_at(e, "("@, i) by {}
}

/// A name of a tool is short and made of letters, digits, and the three signs of identifiers: no
/// blank stands in it.
pub proof fn law_a_tool_name_is_an_identifier(s: Seq<char>, i: int)
    requires
        tool_name(s),
        0 <= i < s.len(),
    ensures
        s.len() <= 48,
        s[i] != ' ',
{
    assert(tool_char(s[i]));
}

/// A call is named by what stands before its parenthesis, its dots, or its colon, and previewed by
/// what stands between its quotes.
pub proof fn law_a_call_is_read_from_its_line(name: Seq<char>, shown: Seq<char>)
    requires
        tool_name(name),
        trim(seq!['"'] + shown + seq!['"']) == seq!['"'] + shown + seq!['"'],
    ensures
        ellipsis_form(name + "..."@) is Some,
        ellipsis_form(name + "..."@)->0.name == name,
        call_form(name + seq!['('] + shown + seq![')']) is Some,
        call_form(name + seq!['('] + shown + seq![')'])->0.name == name,
        preview_form(name + ": "@ + (seq!['"'] + shown + seq!['"'])) is Some,
        preview_form(name + ": "@ + (seq!['"'] + shown + seq!['"']))->0.name == name,
        shown.len() > 0 ==> preview_form(name + ": "@ + (seq!['"'] + shown + seq!['"']))->0.preview == Some(shown),
        shown.len() == 0 ==> preview_form(name + ": "@ + (seq!['"'] + shown + seq!['"']))->0.preview is None,
{
    reveal_strlit("...");
    reveal_strlit(": ");
    reveal_strlit("(");
    let n = name.len() as int;
    let dots = name + "..."@;
    assert(dots.take(n) =~= name);
    assert(dots.skip(n) =~= "..."@);
    let call = name + seq!['('] + shown + seq![')'];
    lemma_name_ends(name, call, "("@);
    assert(call.subrange(n, n + 1) =~= "("@);
    assert(occurs_at(call, "("@, n));
    lemma_first_at(call, "("@, n);
    assert(call.take(n) =~= name);
    assert(call.skip(n + 1).last() == ')');
    let quoted = seq!['"'] + shown + seq!['"'];
    let line = name + ": "@ + quoted;
    lemma_name_ends(name, line, ": "@);
    assert(line.subrange(n, n + 2) =~= ": "@);
    assert(occurs_at(line, ": "@, n));
    lemma_first_at(line, ": "@, n);
    assert(line.take(n) =~= name);
    assert(line.skip(n + 2) =~= quoted);
    assert(quoted.subrange(1, quoted.len() - 1) =~= shown);
    assert(unquoted(quoted) == Some(shown));
}

proof fn lemma_name_ends(name: Seq<char>, s: Seq<char>, pat: Seq<char>)
    requires
        tool_name(name),
        name.is_prefix_of(s),
        pat.len() > 0,
        !tool_char(pat[0]),
    ensures
        forall|j: int| 0 <= j < name.len() ==> !occurs_at(s, pat, j),
{
    assert forall|j: int| 0 <= j < name.len() implies !occurs_at(s, pat, j) by {
        if occurs_at(s, pat, j) {
            assert(s.subrange(j, j + pat.len())[0] == s[j]);
            assert(s[j] == name[j]);
            assert(tool_char(name[j]));
        }
    }
}

/// A fence opens a block where none is open. It is closed by a fence as long, with nothing behind
/// it, and by no shorter one. What stands between them is the block, line by line.
pub proof fn law_a_block_is_what_its_fences_enclose(st: Scan, line: Seq<char>)
    ensures
        st.open is Some && !(scan_line(st, line).open is None) ==> {
            &&& scan_line(st, line).blocks == st.blocks
            &&& scan_line(st, line).open->0.lines == st.open->0.lines.push(line)
            &&& scan_line(st, line).open->0.ticks == st.open->0.ticks
            &&& scan_line(st, line).open->0.lang == st.open->0.lang
        },
        st.open is Some && scan_line(st, line).open is None ==> {
            &&& crate::agent::fallback::leading_ticks(crate::text::trim_start(line)) >= st.open->0.ticks
            &&& scan_line(st, line).blocks.len() == st.blocks.len() + 1
            &&& scan_line(st, line).blocks.last().lang == st.open->0.lang
        },
        st.open is None ==> scan_line(st, line).blocks == st.blocks,
        st.open is None && scan_line(st, line).open is Some ==> {
            &&& crate::agent::fallback::leading_ticks(crate::text::trim_start(line)) >= 3
            &&& scan_line(st, line).open->0.lines.len() == 0
            &&& scan_line(st, line).outside == st.outside
        },
        st.open is None && scan_line(st, line).open is None ==> scan_line(st, line).outside == st.outside + line.push(
            '\n',
        ),
        crate::agent::fallback::leading_ticks(crate::text::trim_start(line)) < 3 ==> (scan_line(st, line).open is Some
            <==> st.open is Some),
{
}

// ----------------------------------------------------------------------------- adapters

/// The integrations that are built in go by their names, each with a key of its own; the older one
/// has its own signs too.
pub proof fn law_integrations_go_by_their_names(id: Seq<char>)
    ensures
        built_in("heddle"@) is Some,
        built_in("heddle"@)->0.key == Some(CONTENT_KEY),
        built_in("heddle"@)->0.id == "heddle",
        built_in("hermes"@) is Some,
        built_in("hermes"@)->0.key == Some(LEGACY_CONTENT_KEY),
        built_in("hermes"@)->0.id == "hermes",
        built_in("hermes"@)->0.chrome == Chrome::hermes(),
        built_in("heddle"@)->0.chrome == Chrome::none(),
        id != "heddle"@ && id != "hermes"@ ==> built_in(id) is None,
{
    reveal_strlit("heddle");
    reveal_strlit("hermes");
    assert("heddle"@[2] == 'd' && "hermes"@[2] == 'r');
}

/// Those that are named are selected, in the order in which they are named; names of none are passed
/// over.
pub proof fn law_integrations_are_selected_in_order(ids: Seq<Seq<char>>, id: Seq<char>)
    ensures
        selected(Seq::empty()).len() == 0,
        built_in(id) is Some ==> selected(ids.push(id)) == selected(ids).push(Registered::Known(built_in(id)->0)),
        built_in(id) is None ==> selected(ids.push(id)) == selected(ids),
{
    assert(ids.push(id).drop_last() =~= ids);
}

/// A payload under the key is claimed, none is where the key is absent, and one that cannot be
/// decoded is an error.
pub proof fn law_a_payload_is_claimed_under_its_key(content: Json, key: Seq<char>)
    ensures
        decoded_under(content, key) is Ok ==> under_key(content, key) is Ok && under_key(content, key)->Ok_0 == Some(
            ClaimModel::Payload(decoded_under(content, key)->Ok_0),
        ),
        decoded_under(content, key) is Err && decoded_under(content, key)->Err_0 is Absent ==> under_key(
            content,
            key,
        ) is Ok && under_key(content, key)->Ok_0 is None,
        decoded_under(content, key) is Err && !(decoded_under(content, key)->Err_0 is Absent) ==> under_key(
            content,
            key,
        ) is Err && under_key(content, key)->Err_0 == decoded_under(content, key)->Err_0,
{
}

/// Lines are scanned one by one, and a block that no fence closes ends with the text.
pub proof fn law_a_block_without_an_end_is_kept(ls: Seq<Seq<char>>, line: Seq<char>, body: Seq<char>)
    ensures
        scan_lines(ls.push(line)) == scan_line(scan_lines(ls), line),
        scan_lines(Seq::empty()).blocks.len() == 0,
        scan_lines(Seq::empty()).open is None,
        scan_lines(lines(body)).open is None ==> blocks_of(body) == scan_lines(lines(body)).blocks,
        scan_lines(lines(body)).open is Some ==> {
            let open = scan_lines(lines(body)).open->0;
            &&& blocks_of(body).drop_last() =~= scan_lines(lines(body)).blocks
            &&& blocks_of(body).last().lang == open.lang
            &&& blocks_of(body).last().body == join(open.lines, seq!['\n'])
        },
{
    assert(ls.push(line).drop_last() =~= ls);
}

/// The sessions in a state are those of the store that are in it.
pub proof fn law_sessions_are_found_by_their_state(
    store: Map<Seq<char>, SessionModel>,
    state: AgentState,
    id: Seq<char>,
)
    ensures
        ids_in(store, state).contains(id) <==> store.contains_key(id) && store[id].state() == state,
{
}

/// The prompts that have run out are counted over all sessions.
pub proof fn law_prompts_that_ran_out_are_counted(
    store: Map<Seq<char>, SessionModel>,
    ids: Seq<Seq<char>>,
    id: Seq<char>,
    now: u64,
)
    ensures
        expired_in(store, Seq::empty(), now) == 0,
        expired_in(store, ids.push(id), now) == expired_in(store, ids, now) + (store[id].pending.len() - expire(
            store[id],
            now,
        ).pending.len()),
{
    assert(ids.push(id).drop_last() =~= ids);
}

/// A transcript is missing events where one of its turns is.
pub proof fn law_a_gap_in_a_turn_is_a_gap(s: SessionModel, i: int)
    ensures
        0 <= i < s.turns.len() && s.turns[i].gaps.len() > 0 ==> s.has_gaps(),
        (forall|j: int| 0 <= j < s.turns.len() ==> (#[trigger] s.turns[j]).gaps.len() == 0) ==> !s.has_gaps(),
{
}

} // verus!
