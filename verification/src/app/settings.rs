//! What is promised of the settings, and of what is said about them.

use vstd::prelude::*;

use crate::agent::protocol::ToolModel;
use crate::app::config::{
    expanded, first_marked, is_section, is_setting, marked, profile_block, quoted, resolves, AgentModel, AutoExpand,
    ProfileModel, UiModel,
};
use crate::app::doctor::{
    device_in, disagreement, disagreements, files_finding, first_failure, no_more_than, octal, octal_mode,
    permission_finding, session_finding, size_finding, store_findings, terminal_findings, widths_found, FindingModel,
    Probe, StoreFacts,
};
use crate::json::JsonModel;
use crate::laws::read_digits;
use crate::text::{has_text, text_less};

verus! {

// -------------------------------------------------------------------------- agents and cards

/// A sender is an agent where it is named as one, and anyone is where nobody is named.
pub proof fn law_agents_are_those_named(config: AgentModel, user: Seq<char>)
    ensures
        config.ids.len() == 0 ==> config.is_agent(user),
        config.ids.len() > 0 ==> (config.is_agent(user) <==> config.ids.contains(user)),
{
}

/// Cards open by themselves as configured: never, always, or while their tool runs, which is what
/// any other word comes to. What the user chose goes before it.
pub proof fn law_cards_open_as_configured(config: AgentModel, tool: ToolModel, auto: AutoExpand, open: bool)
    ensures
        config.auto_expand == "never"@ ==> config.auto_expand() is Never,
        config.auto_expand == "always"@ ==> config.auto_expand() is Always,
        config.auto_expand != "never"@ && config.auto_expand != "always"@ ==> config.auto_expand() is Running,
        expanded(tool, auto, Some(open)) == open,
        !expanded(tool, AutoExpand::Never, None),
        expanded(tool, AutoExpand::Always, None),
        expanded(tool, AutoExpand::Running, None) <==> tool.status is Running,
{
    reveal_strlit("never");
    reveal_strlit("always");
    assert("never"@.len() != "always"@.len());
}

// -------------------------------------------------------------------------- profiles

/// A profile that is asked for is taken where it is there. With none asked for, the first of those
/// marked as default is taken, or the only one there is. Never are there two answers.
pub proof fn law_one_profile_is_meant(
    all: Map<Seq<char>, ProfileModel>,
    requested: Option<Seq<char>>,
    a: Seq<char>,
    b: Seq<char>,
)
    requires
        resolves(all, requested, a),
    ensures
        all.contains_key(a),
        requested is Some ==> a == requested->0,
        requested is None && all.contains_key(b) && all[b].default ==> all[a].default && !text_less(b, a),
        requested is None && !all[a].default ==> all.dom() == set![a],
        resolves(all, requested, b) ==> a == b,
{
    if requested is None {
        if !first_marked(all, a) {
            assert(set![a].contains(a));
        }
        if resolves(all, requested, b) {
            if first_marked(all, a) && first_marked(all, b) {
                assert(marked(all, a) && marked(all, b));
                crate::matrix::laws::lemma_text_less_total(a, b);
            } else if !first_marked(all, a) {
                assert(set![a].contains(b)) by {
                    if first_marked(all, b) {
                        assert(all.dom().contains(b));
                    } else {
                        assert(set![b].contains(b));
                        assert(all.dom().contains(b));
                    }
                }
            } else {
                assert(set![b].contains(a)) by {
                    assert(all.dom().contains(a));
                }
            }
        }
        if all.contains_key(b) && all[b].default {
            assert(marked(all, b));
            if !first_marked(all, a) {
                assert(set![a].contains(b)) by {
                    assert(all.dom().contains(b));
                }
            }
        }
    }
}

/// A profile that should be found is: the one asked for, or the only one.
pub proof fn law_a_lone_profile_is_meant(all: Map<Seq<char>, ProfileModel>, name: Seq<char>)
    requires
        all.contains_key(name),
    ensures
        resolves(all, Some(name), name),
        all.dom() == set![name] ==> resolves(all, None, name),
{
    if all.dom() == set![name] && marked(all, name) {
        assert forall|other: Seq<char>| #[trigger] marked(all, other) implies !text_less(other, name) by {
            assert(set![name].contains(other)) by {
                assert(all.dom().contains(other));
            }
            crate::text::lemma_text_less_one_way(name, name);
        }
    }
}

/// A new block names its profile, its user and its homeserver, says whether it is the default, and
/// stands apart from what is there.
pub proof fn law_a_block_names_its_profile(existing: Seq<char>, name: Seq<char>, profile: ProfileModel)
    ensures
        profile_block(Seq::empty(), name, profile, false) =~= "[profile."@ + name + "]\nuser_id = "@ + quoted(
            profile.user_id,
        ) + "\nhomeserver = "@ + quoted(profile.homeserver) + "\n"@,
        profile_block(existing, name, profile, true) =~= profile_block(existing, name, profile, false)
            + "default = true\n"@,
        existing.len() > 0 && existing.last() == '\n' ==> profile_block(existing, name, profile, false) =~= "\n"@
            + profile_block(Seq::empty(), name, profile, false),
        existing.len() > 0 && existing.last() != '\n' ==> profile_block(existing, name, profile, false) =~= "\n\n"@
            + profile_block(Seq::empty(), name, profile, false),
{
    reveal_strlit("");
    reveal_strlit("\n");
    reveal_strlit("\n\n");
    reveal_strlit("[profile.");
    reveal_strlit("]\n");
    reveal_strlit("user_id = ");
    reveal_strlit("homeserver = ");
    reveal_strlit("]\nuser_id = ");
    reveal_strlit("\nhomeserver = ");
    reveal_strlit("default = true\n");
}

/// The settings that are read, by their sections.
pub proof fn law_the_settings_that_are_read(name: Seq<char>, key: Seq<char>)
    ensures
        is_section(name) <==> name == "profile"@ || name == "agent"@ || name == "ui"@,
        is_setting("profile"@, key) <==> key == "user_id"@ || key == "homeserver"@ || key == "default"@,
        is_setting("agent"@, key) <==> key == "ids"@ || key == "adapters"@ || key == "auto_expand"@ || key
            == "fallback_parse"@ || key == "show_commentary"@,
        is_setting("ui"@, key) <==> key == "prefix"@ || key == "mouse"@,
        is_setting(name, key) ==> is_section(name),
{
    reveal_strlit("profile");
    reveal_strlit("agent");
    reveal_strlit("ui");
    assert("profile"@.len() == 7 && "agent"@.len() == 5 && "ui"@.len() == 2);
}

// -------------------------------------------------------------------------- findings

/// A terminal is large enough from sixty columns and sixteen rows on.
pub proof fn law_a_terminal_is_large_enough(w: u16, h: u16)
    ensures
        size_finding(Ok((w, h))).status is Good <==> w >= 60 && h >= 16,
        !(size_finding(Ok((w, h))).status is Fail),
{
}

/// What is found of the terminal, in order: whether it is one, what it is called, its colours, its
/// size.
pub proof fn law_the_terminal_is_looked_over(
    is_tty: bool,
    term: Option<Seq<char>>,
    colour: Seq<char>,
    size: Result<(u16, u16), Seq<char>>,
)
    ensures
        ({
            let r = terminal_findings(is_tty, term, colour, size);
            &&& r.len() == 4
            &&& r[0].status is Good <==> is_tty
            &&& r[1].status is Good
            &&& term is Some ==> r[1].detail == term
            &&& r[2].status is Good <==> has_text(colour, "truecolor"@) || has_text(colour, "24bit"@)
            &&& r[3] == size_finding(size)
            &&& size is Err ==> !(r[3].status is Good)
        }),
{
}

/// A mode is tight enough where it gives nobody else what the owner alone may have.
pub proof fn law_modes_keep_others_out(mode: u32)
    ensures
        no_more_than(mode, 0o600) <==> mode & 0o177 == 0,
        no_more_than(mode, 0o700) <==> mode & 0o077 == 0,
{
    assert((mode & 0o777 & !0o600u32 == 0) <==> (mode & 0o177 == 0)) by (bit_vector);
    assert((mode & 0o777 & !0o700u32 == 0) <==> (mode & 0o077 == 0)) by (bit_vector);
}

/// A file that is open to others is warned of, and one that is not is not.
pub proof fn law_open_files_are_warned_of(
    what: Seq<char>,
    path: Seq<char>,
    mode: Option<Result<u32, String>>,
    most: u32,
)
    ensures
        mode is None ==> permission_finding(what, path, mode, most).status is Good,
        mode is Some && mode->0 is Err ==> permission_finding(what, path, mode, most).status is Warn,
        mode is Some && mode->0 is Ok ==> (permission_finding(what, path, mode, most).status is Good <==> no_more_than(
            mode->0->Ok_0,
            most,
        )),
        permission_finding(what, path, mode, most).name == what,
        !(permission_finding(what, path, mode, most).status is Fail),
{
}

/// A mode in octal digits reads back as itself, in four digits or more.
pub proof fn law_a_mode_reads_back(n: nat)
    ensures
        read_digits(octal(n), 8) == n,
        octal(n).len() > 0,
        octal_mode(n).len() >= 4,
        octal(n).len() >= 4 ==> octal_mode(n) == octal(n),
    decreases n,
{
    reveal_with_fuel(read_digits, 2);
    if n < 8 {
        assert(octal(n).drop_last() =~= Seq::empty());
    } else {
        law_a_mode_reads_back(n / 8);
        assert(octal(n).drop_last() =~= octal(n / 8));
    }
    if octal(n).len() >= 4 {
        assert(octal_mode(n) =~= octal(n));
    }
}

/// The device of a session is named at its top, or else among its tokens.
pub proof fn law_a_session_names_its_device(session: JsonModel, id: Seq<char>)
    ensures
        session.member("device_id"@) == Some(JsonModel::Text(id)) ==> device_in(session) == Some(id),
        session.member("device_id"@) is None && session.member("tokens"@) is Some && session.member(
            "tokens"@,
        )->0.member("device_id"@) == Some(JsonModel::Text(id)) ==> device_in(session) == Some(id),
        session.member("device_id"@) is None && session.member("tokens"@) is None ==> device_in(session) is None,
{
}

/// A session that cannot be read or parsed fails; one without a device is warned of.
pub proof fn law_a_broken_session_fails(text: Seq<char>, why: Seq<char>)
    ensures
        session_finding(Err(why)).status is Fail,
        crate::json::parsed_json(text) is Err ==> session_finding(Ok(text)).status is Fail,
        crate::json::parsed_json(text) is Ok ==> (session_finding(Ok(text)).status is Good <==> device_in(
            crate::json::parsed_json(text)->Ok_0,
        ) is Some),
        crate::json::parsed_json(text) is Ok ==> !(session_finding(Ok(text)).status is Fail),
{
}

/// A store with files in it is good, an empty one is warned of, one that cannot be read fails.
pub proof fn law_an_empty_store_is_warned_of(dir: Seq<char>, n: usize, why: Seq<char>)
    ensures
        n > 0 ==> files_finding(dir, Ok(n)).status is Good,
        n == 0 ==> files_finding(dir, Ok(n)).status is Warn,
        files_finding(dir, Err(why)).status is Fail,
{
}

/// A glyph disagrees where it is painted at another width than it is laid out at.
pub proof fn law_a_glyph_of_another_width_disagrees(probes: Seq<Probe>, probe: Probe)
    ensures
        disagreements(Seq::empty()).len() == 0,
        probe.measured is Ok && probe.measured->Ok_0 != probe.expected ==> disagreements(probes.push(probe))
            == disagreements(probes).push(disagreement(probe, probe.measured->Ok_0)),
        probe.measured is Ok && probe.measured->Ok_0 == probe.expected ==> disagreements(probes.push(probe))
            == disagreements(probes),
        probe.measured is Err ==> disagreements(probes.push(probe)) == disagreements(probes),
{
    assert(probes.push(probe).drop_last() =~= probes);
}

/// What holds where nothing is configured.
pub proof fn law_what_holds_by_default()
    ensures
        AgentModel::standard().ids.len() == 0,
        AgentModel::standard().adapters == seq!["heddle"@, "hermes"@],
        AgentModel::standard().auto_expand() is Running,
        AgentModel::standard().fallback_parse,
        AgentModel::standard().show_commentary,
        UiModel::standard().prefix == "ctrl+a"@,
        UiModel::standard().mouse,
{
    reveal_strlit("never");
    reveal_strlit("always");
    reveal_strlit("running");
    assert("never"@.len() == 5 && "always"@.len() == 6 && "running"@.len() == 7);
}

/// What is found of a profile's store: its session, who may read it, who may enter the directory,
/// and its files; without a session there is nothing more to find.
pub proof fn law_the_store_is_looked_over(
    profile: Seq<char>,
    dir: Seq<char>,
    file: Seq<char>,
    facts: Option<StoreFacts>,
)
    ensures
        ({
            let r = store_findings(profile, dir, file, facts);
            &&& facts is None ==> r.len() == 1 && r[0].status is Fail
            &&& facts is Some ==> r.len() == 4
            &&& facts is Some && facts->0.session is Ok ==> r[0] == session_finding(Ok(facts->0.session->Ok_0@))
            &&& facts is Some && facts->0.session is Err ==> r[0].status is Fail
            &&& facts is Some ==> r[1] == permission_finding("session file"@, file, facts->0.session_mode, 0o600)
            &&& facts is Some ==> r[2] == permission_finding("store directory"@, dir, facts->0.store_mode, 0o700)
            &&& facts is Some && facts->0.files is Ok ==> r[3] == files_finding(dir, Ok(facts->0.files->Ok_0))
            &&& facts is Some && facts->0.files is Err ==> r[3].status is Fail
        }),
{
}

/// Glyph widths are good where every glyph was measured and painted as it is laid out.
pub proof fn law_glyph_widths_are_good_where_all_agree(probes: Seq<Probe>, r: FindingModel)
    requires
        widths_found(probes, r),
    ensures
        r.status is Good <==> (forall|i: int| 0 <= i < probes.len() ==> (#[trigger] probes[i]).measured is Ok)
            && disagreements(probes).len() == 0,
        !(r.status is Fail),
{
    if exists|i: int| first_failure(probes, i) {
        let i = choose|i: int| first_failure(probes, i);
        assert(probes[i].measured is Err);
    } else {
        assert forall|i: int| 0 <= i < probes.len() implies (#[trigger] probes[i]).measured is Ok by {
            if probes[i].measured is Err {
                lemma_some_failure(probes, i);
            }
        }
    }
}

proof fn lemma_some_failure(probes: Seq<Probe>, i: int)
    requires
        0 <= i < probes.len(),
        probes[i].measured is Err,
    ensures
        exists|k: int| first_failure(probes, k),
    decreases i,
{
    if exists|j: int| 0 <= j < i && (#[trigger] probes[j]).measured is Err {
        let j = choose|j: int| 0 <= j < i && (#[trigger] probes[j]).measured is Err;
        lemma_some_failure(probes, j);
    } else {
        assert(first_failure(probes, i));
    }
}

} // verus!
