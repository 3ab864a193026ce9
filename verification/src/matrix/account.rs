//! What is promised of the homeserver, the login and what is captured.

use vstd::prelude::*;

use crate::json::JsonModel;
use crate::matrix::capture::{tools_of, verdict_of};
use crate::matrix::homeserver::{capabilities_in, texts, without_slashes, CapabilitiesModel};
use crate::matrix::model::AgentPayloadModel;
use crate::matrix::session::{bootstrap_after, minted, Attempt, Bootstrap, CrossSigning, HeldKeys};

verus! {

/// Whether a homeserver says that it has a feature.
pub open spec fn says(body: JsonModel, name: Seq<char>) -> bool {
    &&& body.member("unstable_features"@) is Some
    &&& body.member("unstable_features"@)->0.member(name) == Some(JsonModel::Bool(true))
}

/// A homeserver can do what it says it can: each capability goes by its own feature.
pub proof fn law_capabilities_are_those_advertised(body: JsonModel)
    ensures
        capabilities_in(body).sliding_sync <==> says(body, "org.matrix.simplified_msc3575"@),
        capabilities_in(body).threads <==> says(body, "org.matrix.msc3440.stable"@),
        capabilities_in(body).cross_signing <==> says(body, "org.matrix.e2e_cross_signing"@),
        body.member("versions"@) is None ==> capabilities_in(body).versions.len() == 0,
        body.member("versions"@) is Some && body.member("versions"@)->0 is List ==> capabilities_in(body).versions
            == texts(body.member("versions"@)->0->List_0),
{
}

/// The texts of a list are its items that are texts, in their order.
pub proof fn law_the_texts_of_a_list(items: Seq<JsonModel>, item: JsonModel)
    ensures
        texts(Seq::empty()).len() == 0,
        item is Text ==> texts(items.push(item)) == texts(items).push(item->Text_0),
        !(item is Text) ==> texts(items.push(item)) == texts(items),
{
    assert(items.push(item).drop_last() =~= items);
}

/// Every capability that is missing is a problem, and nothing else is.
pub proof fn law_what_is_missing_is_a_problem(caps: CapabilitiesModel)
    ensures
        caps.problems().len() == (if caps.sliding_sync {
            0int
        } else {
            1
        }) + (if caps.threads {
            0int
        } else {
            1
        }) + (if caps.cross_signing {
            0int
        } else {
            1
        }),
        !caps.sliding_sync ==> caps.problems()[0]
            == "homeserver does not advertise org.matrix.simplified_msc3575 (MSC4186); heddle requires native sliding sync"@,
        !caps.cross_signing ==> caps.problems().last()
            == "homeserver does not advertise org.matrix.e2e_cross_signing; device verification will be unavailable"@,
        !caps.threads && caps.sliding_sync ==> caps.problems()[0]
            == "homeserver does not advertise org.matrix.msc3440.stable; thread-per-agent-session will be unavailable"@,
        !caps.threads && caps.cross_signing ==> caps.problems().last()
            == "homeserver does not advertise org.matrix.msc3440.stable; thread-per-agent-session will be unavailable"@,
{
}

/// Strokes at the end of an address are dropped, and nothing else.
pub proof fn law_strokes_at_the_end_are_dropped(s: Seq<char>)
    ensures
        without_slashes(s).len() <= s.len(),
        without_slashes(s) == s.take(without_slashes(s).len() as int),
        without_slashes(s).len() > 0 ==> without_slashes(s).last() != '/',
        forall|i: int| without_slashes(s).len() <= i < s.len() ==> #[trigger] s[i] == '/',
    decreases s.len(),
{
    if s.len() > 0 && s.last() == '/' {
        law_strokes_at_the_end_are_dropped(s.drop_last());
        let n = without_slashes(s).len() as int;
        assert(s.drop_last().take(n) =~= s.take(n));
        assert forall|i: int| n <= i < s.len() implies #[trigger] s[i] == '/' by {
            if i < s.len() - 1 {
                assert(s.drop_last()[i] == s[i]);
            }
        }
    } else {
        assert(s.take(s.len() as int) =~= s);
    }
}

/// Keys were made where all three are held, and had been there where one is missing.
pub proof fn law_keys_were_made_where_all_are_held(held: Option<HeldKeys>)
    ensures
        minted(held) is Created <==> held is Some && held->0.master && held->0.self_signing && held->0.user_signing,
        !(minted(held) is Created) ==> minted(held) is AlreadyPresent,
{
}

/// A challenge is answered once; a second is reported as one that only the user can meet. Accepted
/// keys are reported, and a failure fails.
pub proof fn law_a_challenge_is_answered_once(held: Option<HeldKeys>, answered: bool)
    ensures
        bootstrap_after(false, Attempt::Challenged, held) is Answer,
        bootstrap_after(true, Attempt::Challenged, held) == Bootstrap::Report(CrossSigning::NeedsInteractiveAuth),
        bootstrap_after(true, Attempt::Accepted, held) == Bootstrap::Report(CrossSigning::Created),
        bootstrap_after(false, Attempt::Accepted, held) == Bootstrap::Report(minted(held)),
        bootstrap_after(answered, Attempt::Failed, held) is Fail,
{
}

/// What is captured of a message: how it was read, and the tools it tells of.
pub proof fn law_a_message_is_captured_as_it_was_read(payload: AgentPayloadModel, i: int)
    ensures
        payload is Plain ==> tools_of(payload).len() == 0 && verdict_of(payload) == "plain"@,
        payload is Structured ==> verdict_of(payload) == "structured"@,
        payload is Structured && payload->Structured_event.tool is Some ==> tools_of(payload) == seq![
            payload->Structured_event.tool->0.name,
        ],
        payload is Structured && payload->Structured_event.tool is None ==> tools_of(payload).len() == 0,
        payload is Degraded ==> verdict_of(payload) == "degraded"@ && tools_of(payload).len()
            == payload->Degraded_parsed.tools.len(),
        payload is Degraded && 0 <= i < payload->Degraded_parsed.tools.len() ==> tools_of(payload)[i]
            == payload->Degraded_parsed.tools[i].name,
{
}

} // verus!
