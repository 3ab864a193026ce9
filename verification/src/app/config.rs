//! Configuration.
//!
//! Credentials never live here, only the homeserver and the user ID. The access token and
//! the encryption keys stay in the session store.

use vstd::prelude::*;
use vstd::string::*;

use crate::agent::adapter::{selected, Adapters};
use crate::agent::protocol::{Tool, ToolModel, ToolStatus};
use crate::paths::{join_path, joined};
use crate::table::Table;
use crate::text::{chars_of, comes_before, lemma_text_less_not, lemma_text_less_one_way, same, text_less};

verus! {

/// One account.
#[derive(Debug, PartialEq, Eq)]
pub struct Profile {
    pub user_id: String,
    pub homeserver: String,
    /// Used when no profile is asked for.
    pub default: bool,
}

/// The mathematical content of a [`Profile`].
#[verifier::ext_equal]
pub struct ProfileModel {
    pub user_id: Seq<char>,
    pub homeserver: Seq<char>,
    pub default: bool,
}

impl View for Profile {
    type V = ProfileModel;

    open spec fn view(&self) -> ProfileModel {
        ProfileModel {
            user_id: self.user_id@,
            homeserver: self.homeserver@,
            default: self.default,
        }
    }
}

impl DeepView for Profile {
    type V = ProfileModel;

    open spec fn deep_view(&self) -> ProfileModel {
        self@
    }
}

impl Clone for Profile {
    fn clone(&self) -> (r: Self)
        ensures
            r@ == self@,
    {
        let r = Profile {
            user_id: self.user_id.clone(),
            homeserver: self.homeserver.clone(),
            default: self.default,
        };
        r
    }
}

/// How agents are recognised and shown.
#[derive(Debug, PartialEq, Eq)]
pub struct Agent {
    /// Matrix user IDs treated as agents rather than humans.
    pub ids: Vec<String>,
    /// Agent integrations to consult, in order.
    ///
    /// `heddle` reads the published structured schema from any agent that emits it; `hermes`
    /// reads Hermes' legacy key and recovers its tool chrome from plain text.
    pub adapters: Vec<String>,
    /// When to auto-expand tool cards: `never`, `running` or `always`.
    pub auto_expand: String,
    /// Recover agent structure from human-readable chrome when no structured extension is
    /// present.
    pub fallback_parse: bool,
    /// Show reasoning and commentary blocks.
    pub show_commentary: bool,
}

/// The mathematical content of a [`Agent`].
#[verifier::ext_equal]
pub struct AgentModel {
    pub ids: Seq<Seq<char>>,
    pub adapters: Seq<Seq<char>>,
    pub auto_expand: Seq<char>,
    pub fallback_parse: bool,
    pub show_commentary: bool,
}

impl View for Agent {
    type V = AgentModel;

    open spec fn view(&self) -> AgentModel {
        AgentModel {
            ids: self.ids.deep_view(),
            adapters: self.adapters.deep_view(),
            auto_expand: self.auto_expand@,
            fallback_parse: self.fallback_parse,
            show_commentary: self.show_commentary,
        }
    }
}

impl DeepView for Agent {
    type V = AgentModel;

    open spec fn deep_view(&self) -> AgentModel {
        self@
    }
}

impl Clone for Agent {
    fn clone(&self) -> (r: Self)
        ensures
            r@ == self@,
    {
        let r = Agent {
            ids: self.ids.clone(),
            adapters: self.adapters.clone(),
            auto_expand: self.auto_expand.clone(),
            fallback_parse: self.fallback_parse,
            show_commentary: self.show_commentary,
        };
        assert(r.ids.deep_view() =~= self.ids.deep_view());
        assert(r.adapters.deep_view() =~= self.adapters.deep_view());
        r
    }
}

/// How the client behaves at the keyboard.
#[derive(Debug, PartialEq, Eq)]
pub struct Ui {
    /// Prefix key: the only one that can be rebound.
    pub prefix: String,
    pub mouse: bool,
}

/// The mathematical content of a [`Ui`].
#[verifier::ext_equal]
pub struct UiModel {
    pub prefix: Seq<char>,
    pub mouse: bool,
}

impl View for Ui {
    type V = UiModel;

    open spec fn view(&self) -> UiModel {
        UiModel {
            prefix: self.prefix@,
            mouse: self.mouse,
        }
    }
}

impl DeepView for Ui {
    type V = UiModel;

    open spec fn deep_view(&self) -> UiModel {
        self@
    }
}

impl Clone for Ui {
    fn clone(&self) -> (r: Self)
        ensures
            r@ == self@,
    {
        let r = Ui {
            prefix: self.prefix.clone(),
            mouse: self.mouse,
        };
        r
    }
}

/// Everything that can be configured.
#[derive(Debug)]
pub struct Config {
    pub profile: Table<String, Profile>,
    pub agent: Agent,
    pub ui: Ui,
}

/// The mathematical content of a [`Config`].
#[verifier::ext_equal]
pub struct ConfigModel {
    pub profile: Map<Seq<char>, ProfileModel>,
    pub agent: AgentModel,
    pub ui: UiModel,
}

impl View for Config {
    type V = ConfigModel;

    open spec fn view(&self) -> ConfigModel {
        ConfigModel { profile: self.profile.deep_view(), agent: self.agent@, ui: self.ui@ }
    }
}

impl AgentModel {
    /// What holds where nothing is configured.
    pub open spec fn standard() -> AgentModel {
        AgentModel {
            ids: Seq::empty(),
            adapters: seq!["heddle"@, "hermes"@],
            auto_expand: "running"@,
            fallback_parse: true,
            show_commentary: true,
        }
    }

    /// Whether a sender is rendered as an agent.
    pub open spec fn is_agent(self, user_id: Seq<char>) -> bool {
        self.ids.len() == 0 || self.ids.contains(user_id)
    }

    /// When tool cards expand by themselves.
    pub open spec fn auto_expand(self) -> AutoExpand {
        if self.auto_expand == "never"@ {
            AutoExpand::Never
        } else if self.auto_expand == "always"@ {
            AutoExpand::Always
        } else {
            AutoExpand::Running
        }
    }
}

impl UiModel {
    /// What holds where nothing is configured. `ctrl+a` rather than `ctrl+b`, so the client
    /// does not fight a multiplexer it is nested inside.
    pub open spec fn standard() -> UiModel {
        UiModel { prefix: "ctrl+a"@, mouse: true }
    }
}

impl Default for Agent {
    fn default() -> (r: Self)
        ensures
            r@ == AgentModel::standard(),
    {
        let r = Agent {
            ids: Vec::new(),
            adapters: vec!["heddle".to_owned(), "hermes".to_owned()],
            auto_expand: "running".to_owned(),
            fallback_parse: true,
            show_commentary: true,
        };
        assert(r@.ids =~= AgentModel::standard().ids);
        assert(r@.adapters =~= AgentModel::standard().adapters);
        r
    }
}

impl Default for Ui {
    fn default() -> (r: Self)
        ensures
            r@ == UiModel::standard(),
    {
        Ui { prefix: "ctrl+a".to_owned(), mouse: true }
    }
}

impl Default for Config {
    fn default() -> (r: Self)
        ensures
            r@ == (ConfigModel { profile: Map::empty(), agent: AgentModel::standard(), ui: UiModel::standard() }),
    {
        let r = Config { profile: Table::new(), agent: Agent::default(), ui: Ui::default() };
        assert(r@.profile =~= Map::<Seq<char>, ProfileModel>::empty());
        r
    }
}

/// When tool cards expand without being asked to.
#[derive(Debug, Clone, Copy, PartialEq, Eq, Structural)]
pub enum AutoExpand {
    Never,
    /// While the tool is running.
    Running,
    Always,
}

/// Whether a tool card is shown expanded: as the user left it, else as configured.
pub open spec fn expanded(tool: ToolModel, auto: AutoExpand, chosen: Option<bool>) -> bool {
    match chosen {
        Some(open) => open,
        None => match auto {
            AutoExpand::Never => false,
            AutoExpand::Running => tool.status is Running,
            AutoExpand::Always => true,
        },
    }
}

/// Whether a tool card is shown expanded.
pub fn is_expanded(tool: &Tool, auto: AutoExpand, chosen: Option<bool>) -> (r: bool)
    ensures
        r == expanded(tool@, auto, chosen),
{
    match chosen {
        Some(open) => open,
        None => match auto {
            AutoExpand::Never => false,
            AutoExpand::Running => matches!(tool.status, ToolStatus::Running),
            AutoExpand::Always => true,
        },
    }
}

impl Agent {
    /// The integrations configured, with the lossy text path on or off.
    pub fn adapters(&self) -> (r: Adapters)
        ensures
            r.adapters@ == selected(self@.adapters),
            r.textual_enabled == self@.fallback_parse,
    {
        Adapters::by_id(&self.adapters).textual(self.fallback_parse)
    }

    /// When tool cards expand by themselves. An unknown setting means `running`.
    pub fn auto_expand(&self) -> (r: AutoExpand)
        ensures
            r == self@.auto_expand(),
    {
        if same(self.auto_expand.as_str(), "never") {
            AutoExpand::Never
        } else if same(self.auto_expand.as_str(), "always") {
            AutoExpand::Always
        } else {
            AutoExpand::Running
        }
    }

    /// Whether a sender should be rendered as an agent.
    ///
    /// With no configured IDs every sender is a candidate, so that a freshly installed
    /// client still renders tool cards without being told about the bot first.
    pub fn is_agent(&self, user_id: &str) -> (r: bool)
        ensures
            r == self@.is_agent(user_id@),
    {
        if self.ids.len() == 0 {
            return true;
        }
        let mut i: usize = 0;
        while i < self.ids.len()
            invariant
                self@.ids.len() > 0,
                i <= self.ids.len(),
                forall|j: int| 0 <= j < i ==> self@.ids[j] != user_id@,
            decreases self.ids.len() - i,
        {
            if same(self.ids[i].as_str(), user_id) {
                assert(self@.ids[i as int] == user_id@);
                return true;
            }
            i += 1;
        }
        false
    }
}

// -------------------------------------------------------------------------- profiles

/// A profile marked as the default.
pub open spec fn marked(all: Map<Seq<char>, ProfileModel>, name: Seq<char>) -> bool {
    all.contains_key(name) && all[name].default
}

/// The first by name of the profiles marked as the default.
pub open spec fn first_marked(all: Map<Seq<char>, ProfileModel>, name: Seq<char>) -> bool {
    marked(all, name) && forall|other: Seq<char>| #[trigger] marked(all, other) ==> !text_less(other, name)
}

/// The profile to use: the one asked for; else the one marked; else the only one.
pub open spec fn resolves(all: Map<Seq<char>, ProfileModel>, requested: Option<Seq<char>>, name: Seq<char>) -> bool {
    match requested {
        Some(wanted) => name == wanted && all.contains_key(wanted),
        None => first_marked(all, name) || (all.dom() == set![name] && !marked(all, name)),
    }
}

impl Config {
    /// The profile to use, honouring one asked for by name.
    ///
    /// Several profiles of which none is marked resolve to nothing: guessing between
    /// accounts would be worse than asking.
    pub fn resolve_profile(&self, requested: Option<&str>) -> (r: Option<(String, Profile)>)
        ensures
            match r {
                Some((name, profile)) => resolves(self@.profile, (match requested {
                    Some(wanted) => Some(wanted@),
                    None => None,
                }), name@) && profile@ == self@.profile[name@],
                None => match requested {
                    Some(wanted) => !self@.profile.contains_key(wanted@),
                    None => self@.profile.dom().len() != 1 && forall|name: Seq<char>| !#[trigger] marked(
                        self@.profile,
                        name,
                    ),
                },
            },
    {
        if let Some(wanted) = requested {
            return match self.profile.get(wanted) {
                Some(profile) => Some((wanted.to_owned(), profile.clone())),
                None => None,
            };
        }
        let n = self.profile.len();
        let ghost order = self.profile.order();
        let ghost all = self@.profile;
        let mut best: Option<usize> = None;
        let mut i: usize = 0;
        while i < n
            invariant
                order == self.profile.order(),
                order.len() == n,
                order.to_set() == self.profile@.dom(),
                all == self@.profile,
                i <= n,
                match best {
                    Some(b) => b < i && all[order[b as int]].default && forall|j: int|
                        0 <= j < i && all[#[trigger] order[j]].default ==> !text_less(order[j], order[b as int]),
                    None => forall|j: int| 0 <= j < i ==> !all[#[trigger] order[j]].default,
                },
            decreases n - i,
        {
            let (name, profile) = self.profile.at(i);
            proof {
                assert(order.to_set().contains(order[i as int]));
                assert(all[order[i as int]] == profile@);
            }
            if profile.default {
                match best {
                    Some(b) => {
                        let (least, _) = self.profile.at(b);
                        if comes_before(name.as_str(), least.as_str()) {
                            proof {
                                let new = order[i as int];
                                lemma_text_less_one_way(new, order[b as int]);
                                lemma_text_less_one_way(new, new);
                                assert forall|j: int| 0 <= j <= i && all[#[trigger] order[j]].default implies !text_less(
                                    order[j],
                                    new,
                                ) by {
                                    if j < i {
                                        lemma_text_less_not(order[j], order[b as int], new);
                                    }
                                }
                            }
                            best = Some(i);
                        }
                    },
                    None => {
                        proof {
                            lemma_text_less_one_way(order[i as int], order[i as int]);
                        }
                        best = Some(i);
                    },
                }
            }
            i += 1;
        }
        proof {
            assert forall|name: Seq<char>| #[trigger] marked(all, name) implies exists|j: int|
                0 <= j < n && #[trigger] order[j] == name by {
                assert(order.to_set().contains(name));
            }
        }
        match best {
            Some(b) => {
                let (name, profile) = self.profile.at(b);
                proof {
                    assert(order.to_set().contains(order[b as int]));
                    assert(first_marked(all, name@));
                }
                Some((name.clone(), profile.clone()))
            },
            None => {
                if n == 1 {
                    let (name, profile) = self.profile.at(0);
                    proof {
                        assert(order.to_set().contains(order[0]));
                        assert(all.dom() =~= set![name@]);
                    }
                    Some((name.clone(), profile.clone()))
                } else {
                    assert(all.dom() =~= self.profile@.dom());
                    None
                }
            },
        }
    }

    pub fn has_profiles(&self) -> (r: bool)
        ensures
            r == (self@.profile.dom() != Set::<Seq<char>>::empty()),
    {
        let n = self.profile.len();
        proof {
            let order = self.profile.order();
            assert(self@.profile.dom() =~= self.profile@.dom());
            if n == 0 {
                assert(order.to_set() =~= Set::<Seq<char>>::empty());
            } else {
                assert(order.to_set().contains(order[0]));
            }
        }
        n > 0
    }
}

// --------------------------------------------------------------------------- quoting

/// Whether TOML allows no such character in a quoted string as it is: a control character
/// other than a tab.
pub open spec fn is_control(c: char) -> bool {
    (c as u32) < 0x20 && c != '\t' || c == '\u{7f}'
}

/// The digit that stands for a number below sixteen.
pub open spec fn hex_digit(n: int) -> char {
    if n == 0 {
        '0'
    } else if n == 1 {
        '1'
    } else if n == 2 {
        '2'
    } else if n == 3 {
        '3'
    } else if n == 4 {
        '4'
    } else if n == 5 {
        '5'
    } else if n == 6 {
        '6'
    } else if n == 7 {
        '7'
    } else if n == 8 {
        '8'
    } else if n == 9 {
        '9'
    } else if n == 10 {
        'A'
    } else if n == 11 {
        'B'
    } else if n == 12 {
        'C'
    } else if n == 13 {
        'D'
    } else if n == 14 {
        'E'
    } else {
        'F'
    }
}

/// The number that a hexadecimal digit stands for.
pub open spec fn hex_value(c: char) -> int {
    if '0' <= c && c <= '9' {
        c as u32 - '0' as u32
    } else {
        c as u32 - 'A' as u32 + 10
    }
}

fn hex_char(n: u32) -> (r: char)
    requires
        n < 16,
    ensures
        r == hex_digit(n as int),
{
    match n {
        0 => '0',
        1 => '1',
        2 => '2',
        3 => '3',
        4 => '4',
        5 => '5',
        6 => '6',
        7 => '7',
        8 => '8',
        9 => '9',
        10 => 'A',
        11 => 'B',
        12 => 'C',
        13 => 'D',
        14 => 'E',
        _ => 'F',
    }
}

/// A character's number fits thirty-two bits.
proof fn lemma_number(c: char)
    ensures
        c as u32 == c as int,
{
}

/// What stands for a character inside a quoted TOML string.
pub open spec fn escape(c: char) -> Seq<char> {
    if c == '\\' {
        seq!['\\', '\\']
    } else if c == '"' {
        seq!['\\', '"']
    } else if c == '\n' {
        seq!['\\', 'n']
    } else if is_control(c) {
        seq!['\\', 'u', '0', '0', hex_digit(c as int / 16), hex_digit(c as int % 16)]
    } else {
        seq![c]
    }
}

/// What stands for a text inside a quoted TOML string.
pub open spec fn escaped(s: Seq<char>) -> Seq<char>
    decreases s.len(),
{
    if s.len() == 0 {
        Seq::empty()
    } else {
        escape(s[0]) + escaped(s.skip(1))
    }
}

/// A text as a quoted TOML string.
pub open spec fn quoted(s: Seq<char>) -> Seq<char> {
    seq!['"'] + escaped(s) + seq!['"']
}

/// Quote a TOML basic string, escaping what the format requires.
pub fn quote(value: &str) -> (r: String)
    ensures
        r@ == quoted(value@),
{
    let chars = chars_of(value);
    let mut out = String::new();
    out.push('"');
    let mut i: usize = 0;
    assert(chars@.skip(0) =~= chars@);
    while i < chars.len()
        invariant
            i <= chars.len(),
            chars@ == value@,
            out@ + escaped(chars@.skip(i as int)) == seq!['"'] + escaped(value@),
        decreases chars.len() - i,
    {
        let c = chars[i];
        let ghost prior = out@;
        let ghost rest = chars@.skip(i as int);
        assert(rest[0] == c);
        assert(rest.skip(1) =~= chars@.skip(i + 1));
        if c == '\\' {
            out.push('\\');
            out.push('\\');
        } else if c == '"' {
            out.push('\\');
            out.push('"');
        } else if c == '\n' {
            out.push('\\');
            out.push('n');
        } else if (c as u32) < 0x20 && c != '\t' || c == '\u{7f}' {
            let n = c as u32;
            out.push('\\');
            out.push('u');
            out.push('0');
            out.push('0');
            out.push(hex_char(n / 16));
            out.push(hex_char(n % 16));
            proof {
                lemma_number(c);
            }
            assert(escape(c) == seq!['\\', 'u', '0', '0', hex_digit(n as int / 16), hex_digit(n as int % 16)]);
        } else {
            out.push(c);
        }
        assert(out@ =~= prior + escape(c));
        assert(out@ + escaped(rest.skip(1)) =~= prior + escaped(rest));
        i += 1;
    }
    assert(escaped(chars@.skip(i as int)) =~= Seq::<char>::empty());
    assert(out@ =~= seq!['"'] + escaped(value@));
    out.push('"');
    out
}

/// What the inside of a quoted TOML string stands for, where it was written by [`quote`].
pub open spec fn unescaped(s: Seq<char>) -> Seq<char>
    decreases s.len(),
{
    if s.len() == 0 {
        Seq::empty()
    } else if s[0] == '\\' && s.len() >= 6 && s[1] == 'u' {
        seq![
            (((hex_value(s[2]) * 16 + hex_value(s[3])) * 16 + hex_value(s[4])) * 16 + hex_value(s[5])) as u32 as char,
        ] + unescaped(s.skip(6))
    } else if s[0] == '\\' && s.len() >= 2 {
        seq![
            if s[1] == 'n' {
                '\n'
            } else {
                s[1]
            },
        ] + unescaped(s.skip(2))
    } else {
        seq![s[0]] + unescaped(s.skip(1))
    }
}

/// Whether a quotation mark that is not escaped stands in a text.
pub open spec fn breaks_out(s: Seq<char>) -> bool
    decreases s.len(),
{
    if s.len() == 0 {
        false
    } else if s[0] == '\\' && s.len() >= 2 {
        breaks_out(s.skip(2))
    } else {
        s[0] == '"' || breaks_out(s.skip(1))
    }
}

/// Quoting loses nothing: what stands between the marks reads back as the value, nothing in
/// it ends the string early, and nothing stands in it that TOML does not allow there.
pub proof fn law_a_quoted_value_reads_back(value: Seq<char>)
    ensures
        quoted(value).first() == '"',
        quoted(value).last() == '"',
        unescaped(quoted(value).subrange(1, quoted(value).len() - 1)) == value,
        !breaks_out(quoted(value).subrange(1, quoted(value).len() - 1)),
        forall|i: int| 0 <= i < quoted(value).len() ==> !is_control(#[trigger] quoted(value)[i]),
{
    let all = quoted(value);
    assert(all.subrange(1, all.len() - 1) =~= escaped(value));
    lemma_escaped(value);
    assert forall|i: int| 0 <= i < all.len() implies !is_control(#[trigger] all[i]) by {
        if 0 < i < all.len() - 1 {
            assert(all[i] == escaped(value)[i - 1]);
        }
    }
}

/// An ordinary value is only put between marks.
pub proof fn law_an_ordinary_value_is_quoted_as_it_is(value: Seq<char>)
    requires
        forall|i: int|
            0 <= i < value.len() ==> !is_control(#[trigger] value[i]) && value[i] != '"' && value[i] != '\\',
    ensures
        quoted(value) == seq!['"'] + value + seq!['"'],
{
    lemma_ordinary(value);
}

proof fn lemma_ordinary(value: Seq<char>)
    requires
        forall|i: int|
            0 <= i < value.len() ==> !is_control(#[trigger] value[i]) && value[i] != '"' && value[i] != '\\',
    ensures
        escaped(value) == value,
    decreases value.len(),
{
    if value.len() > 0 {
        let rest = value.skip(1);
        assert forall|i: int| 0 <= i < rest.len() implies !is_control(#[trigger] rest[i]) && rest[i] != '"' && rest[i]
            != '\\' by {
            assert(rest[i] == value[i + 1]);
        }
        lemma_ordinary(rest);
        assert(!is_control(value[0]));
        assert(escape(value[0]) =~= seq![value[0]]);
        assert(seq![value[0]] + rest =~= value);
    } else {
        assert(value =~= Seq::<char>::empty());
    }
}

/// What stands for a control character is its number.
proof fn lemma_hex(c: char)
    requires
        is_control(c),
    ensures
        ({
            let high = hex_digit(c as int / 16);
            let low = hex_digit(c as int % 16);
            &&& !is_control(high)
            &&& !is_control(low)
            &&& hex_value(high) * 16 + hex_value(low) == c as int
            &&& ((hex_value(high) * 16 + hex_value(low)) as u32 as char) == c
            &&& high != '"' && high != '\\'
            &&& low != '"' && low != '\\'
        }),
{
}

proof fn lemma_escaped(value: Seq<char>)
    ensures
        unescaped(escaped(value)) == value,
        !breaks_out(escaped(value)),
        forall|i: int| 0 <= i < escaped(value).len() ==> !is_control(#[trigger] escaped(value)[i]),
    decreases value.len(),
{
    if value.len() > 0 {
        let c = value[0];
        let rest = escaped(value.skip(1));
        let all = escaped(value);
        let own = escape(c);
        lemma_escaped(value.skip(1));
        assert(all == own + rest);
        assert forall|i: int| 0 <= i < all.len() implies !is_control(#[trigger] all[i]) by {
            if i < own.len() {
                if is_control(c) {
                    lemma_hex(c);
                }
            } else {
                assert(all[i] == rest[i - own.len()]);
            }
        }
        if c == '\\' || c == '"' || c == '\n' {
            assert(all[0] == '\\' && all[1] == own[1]);
            assert(all.skip(2) =~= rest);
        } else if is_control(c) {
            lemma_hex(c);
            assert(all[0] == '\\' && all[1] == 'u' && all[2] == '0' && all[3] == '0' && all[4] == own[4] && all[5]
                == own[5]);
            assert(all.skip(6) =~= rest);
            let a = all.skip(2);
            let b = a.skip(1);
            let d = b.skip(1);
            let e = d.skip(1);
            assert(a[0] == '0' && b[0] == '0' && d[0] == own[4] && e[0] == own[5]);
            assert(e.skip(1) =~= rest);
            assert(!breaks_out(e));
            assert(!breaks_out(d));
            assert(!breaks_out(b));
            assert(!breaks_out(a));
            assert(hex_value('0') == 0);
        } else {
            assert(all[0] == c);
            assert(all.skip(1) =~= rest);
        }
        assert(seq![c] + value.skip(1) =~= value);
    } else {
        assert(value =~= Seq::<char>::empty());
    }
}

/// The block that a new profile adds behind a configuration file.
pub open spec fn profile_block(existing: Seq<char>, name: Seq<char>, profile: ProfileModel, default: bool) -> Seq<char> {
    (if existing.len() > 0 && existing.last() != '\n' {
        "\n"@
    } else {
        ""@
    }) + (if existing.len() > 0 {
        "\n"@
    } else {
        ""@
    }) + "[profile."@ + name + "]\n"@ + "user_id = "@ + quoted(profile.user_id) + "\n"@ + "homeserver = "@ + quoted(
        profile.homeserver,
    ) + "\n"@ + (if default {
        "default = true\n"@
    } else {
        ""@
    })
}

/// The configuration file with a `[profile.<name>]` block added, or `None` where `parsed`,
/// which is what the file says, has that profile already.
///
/// Added as text: writing the parsed values back would discard every comment and any
/// ordering the user chose. The first profile becomes the default.
pub fn append_profile(existing: &str, parsed: &Config, name: &str, profile: &Profile) -> (r: Option<String>)
    ensures
        match r {
            Some(text) => !parsed@.profile.contains_key(name@) && text@ == existing@ + profile_block(
                existing@,
                name@,
                profile@,
                parsed@.profile.dom() == Set::<Seq<char>>::empty(),
            ),
            None => parsed@.profile.contains_key(name@),
        },
{
    if parsed.profile.contains_key(name) {
        return None;
    }
    let default = !parsed.has_profiles();
    let n = existing.unicode_len();
    let mut block = if n > 0 && existing.get_char(n - 1) != '\n' {
        "\n".to_owned()
    } else {
        "".to_owned()
    };
    block.append(if n > 0 {
        "\n"
    } else {
        ""
    });
    block.append("[profile.");
    block.append(name);
    block.append("]\n");
    block.append("user_id = ");
    block.append(quote(profile.user_id.as_str()).as_str());
    block.append("\n");
    block.append("homeserver = ");
    block.append(quote(profile.homeserver.as_str()).as_str());
    block.append("\n");
    block.append(if default {
        "default = true\n"
    } else {
        ""
    });
    assert(block@ == profile_block(existing@, name@, profile@, default));
    let mut text = existing.to_owned();
    text.append(block.as_str());
    Some(text)
}

/// Adding a profile leaves what was in the file as it was, and starts on a line of its own.
pub proof fn law_the_file_is_left_as_it_was(
    existing: Seq<char>,
    name: Seq<char>,
    profile: ProfileModel,
    default: bool,
)
    ensures
        existing.is_prefix_of(existing + profile_block(existing, name, profile, default)),
        existing.len() > 0 ==> profile_block(existing, name, profile, default)[0] == '\n',
{
    reveal_strlit("\n");
    reveal_strlit("");
}

/// Why no profile was found: the one asked for is not there; or there are several and none is
/// marked; or there are none.
pub open spec fn no_profile(requested: Option<Seq<char>>, any: bool, file: Seq<char>) -> Seq<char> {
    match requested {
        Some(name) => "no `[profile."@ + name + "]` in "@ + file + ". Log in with `heddle --profile "@ + name
            + " login` to create it, or add the block by hand"@,
        None => if any {
            "several profiles are configured and none is marked `default = true`. Pass --profile, or set the flag in "@
                + file
        } else {
            "no profiles configured. Run `heddle login` to create one, or add a block to "@ + file
        },
    }
}

/// Why no profile was found.
pub fn missing_profile(requested: Option<&str>, any: bool, file: &str) -> (r: String)
    ensures
        r@ == no_profile(
            match requested {
                Some(name) => Some(name@),
                None => None,
            },
            any,
            file@,
        ),
{
    match requested {
        Some(name) => {
            let mut s = "no `[profile.".to_owned();
            s.append(name);
            s.append("]` in ");
            s.append(file);
            s.append(". Log in with `heddle --profile ");
            s.append(name);
            s.append(" login` to create it, or add the block by hand");
            s
        },
        None => {
            let mut s = (if any {
                "several profiles are configured and none is marked `default = true`. Pass --profile, or set the flag in "
            } else {
                "no profiles configured. Run `heddle login` to create one, or add a block to "
            }).to_owned();
            s.append(file);
            s
        },
    }
}

// ---------------------------------------------------------------------- unknown keys

/// A key of a section, and what it holds where that is a table of its own.
#[derive(Debug, PartialEq, Eq)]
pub struct Setting {
    pub name: String,
    pub keys: Option<Vec<String>>,
}

/// The mathematical content of a [`Setting`].
#[verifier::ext_equal]
pub struct SettingModel {
    pub name: Seq<char>,
    pub keys: Option<Seq<Seq<char>>>,
}

impl View for Setting {
    type V = SettingModel;

    open spec fn view(&self) -> SettingModel {
        SettingModel {
            name: self.name@,
            keys: self.keys.deep_view(),
        }
    }
}

impl DeepView for Setting {
    type V = SettingModel;

    open spec fn deep_view(&self) -> SettingModel {
        self@
    }
}

/// A section of a configuration file, and its keys where it is a table.
#[derive(Debug, PartialEq, Eq)]
pub struct Section {
    pub name: String,
    pub settings: Option<Vec<Setting>>,
}

/// The mathematical content of a [`Section`].
#[verifier::ext_equal]
pub struct SectionModel {
    pub name: Seq<char>,
    pub settings: Option<Seq<SettingModel>>,
}

impl View for Section {
    type V = SectionModel;

    open spec fn view(&self) -> SectionModel {
        SectionModel {
            name: self.name@,
            settings: self.settings.deep_view(),
        }
    }
}

impl DeepView for Section {
    type V = SectionModel;

    open spec fn deep_view(&self) -> SectionModel {
        self@
    }
}

/// What [`toml::from_str`] makes of a document: its sections in the order in which the
/// table hands them out, or `None` where the text is not TOML.
pub uninterp spec fn toml_sections(text: Seq<char>) -> Option<Seq<SectionModel>>;

/// The sections of a document, as `toml::from_str` into a `toml::Table` finds them. What it
/// finds depends on the text alone, and is named rather than described.
#[verifier::external_body]
fn read_sections(text: &str) -> (r: Option<Vec<Section>>)
    ensures
        r.deep_view() == toml_sections(text@),
{
    let keys = |v: &toml::Value| v.as_table().map(|t| t.keys().cloned().collect());
    let setting = |(k, v): (&String, &toml::Value)| Setting { name: k.clone(), keys: keys(v) };
    let settings = |v: &toml::Value| v.as_table().map(|t| t.iter().map(setting).collect());
    let section = |(k, v): (&String, &toml::Value)| Section { name: k.clone(), settings: settings(v) };
    let root: toml::Table = toml::from_str(text).ok()?;
    Some(root.iter().map(section).collect())
}

/// Whether a section is one that is read.
pub open spec fn is_section(name: Seq<char>) -> bool {
    name == "profile"@ || name == "agent"@ || name == "ui"@
}

/// Whether a key of a section is one that is acted on.
pub open spec fn is_setting(section: Seq<char>, key: Seq<char>) -> bool {
    if section == "profile"@ {
        key == "user_id"@ || key == "homeserver"@ || key == "default"@
    } else if section == "agent"@ {
        key == "ids"@ || key == "adapters"@ || key == "auto_expand"@ || key == "fallback_parse"@ || key
            == "show_commentary"@
    } else {
        section == "ui"@ && (key == "prefix"@ || key == "mouse"@)
    }
}

fn reads_section(name: &str) -> (r: bool)
    ensures
        r == is_section(name@),
{
    same(name, "profile") || same(name, "agent") || same(name, "ui")
}

fn reads_setting(section: &str, key: &str) -> (r: bool)
    ensures
        r == is_setting(section@, key@),
{
    if same(section, "profile") {
        same(key, "user_id") || same(key, "homeserver") || same(key, "default")
    } else if same(section, "agent") {
        same(key, "ids") || same(key, "adapters") || same(key, "auto_expand") || same(key, "fallback_parse") || same(
            key,
            "show_commentary",
        )
    } else {
        same(section, "ui") && (same(key, "prefix") || same(key, "mouse"))
    }
}

/// The complaint about a section that is not read.
pub open spec fn strange_section(name: Seq<char>) -> Seq<char> {
    "["@ + name + "] is not a section heddle reads"@
}

/// The complaint about a key that is not acted on.
pub open spec fn strange_key(at: Seq<char>, key: Seq<char>) -> Seq<char> {
    "`"@ + at + "."@ + key + "` is not a setting heddle reads"@
}

/// The complaints about these keys of a section, which stand at a path in the file.
pub open spec fn key_complaints(section: Seq<char>, at: Seq<char>, keys: Seq<Seq<char>>) -> Seq<Seq<char>>
    decreases keys.len(),
{
    if keys.len() == 0 {
        Seq::empty()
    } else {
        let rest = key_complaints(section, at, keys.drop_last());
        if is_setting(section, keys.last()) {
            rest
        } else {
            rest.push(strange_key(at, keys.last()))
        }
    }
}

/// The complaints about these profiles, whose keys nest one level deeper.
pub open spec fn profile_complaints(profiles: Seq<SettingModel>) -> Seq<Seq<char>>
    decreases profiles.len(),
{
    if profiles.len() == 0 {
        Seq::empty()
    } else {
        profile_complaints(profiles.drop_last()) + (match profiles.last().keys {
            Some(keys) => key_complaints("profile"@, "profile."@ + profiles.last().name, keys),
            None => Seq::empty(),
        })
    }
}

/// The complaints about one section.
pub open spec fn section_complaints(section: SectionModel) -> Seq<Seq<char>> {
    if !is_section(section.name) {
        seq![strange_section(section.name)]
    } else {
        match section.settings {
            Some(settings) => if section.name == "profile"@ {
                profile_complaints(settings)
            } else {
                key_complaints(section.name, section.name, settings.map_values(|s: SettingModel| s.name))
            },
            None => Seq::empty(),
        }
    }
}

/// The complaints about these sections.
pub open spec fn all_complaints(sections: Seq<SectionModel>) -> Seq<Seq<char>>
    decreases sections.len(),
{
    if sections.len() == 0 {
        Seq::empty()
    } else {
        all_complaints(sections.drop_last()) + section_complaints(sections.last())
    }
}

fn complain_about(section: &str, at: &str, key: &str, out: &mut Vec<String>)
    ensures
        final(out).deep_view() == (if is_setting(section@, key@) {
            old(out).deep_view()
        } else {
            old(out).deep_view().push(strange_key(at@, key@))
        }),
{
    if !reads_setting(section, key) {
        let ghost before = out.deep_view();
        let mut s = "`".to_owned();
        s.append(at);
        s.append(".");
        s.append(key);
        s.append("` is not a setting heddle reads");
        out.push(s);
        assert(out.deep_view() =~= before.push(s@));
    }
}

fn complain_about_profiles(profiles: &Vec<Setting>, out: &mut Vec<String>)
    ensures
        final(out).deep_view() == old(out).deep_view() + profile_complaints(profiles.deep_view()),
{
    let ghost all = profiles.deep_view();
    let ghost before = out.deep_view();
    let mut i: usize = 0;
    assert(before + profile_complaints(all.take(0)) =~= before);
    while i < profiles.len()
        invariant
            i <= profiles.len(),
            all == profiles.deep_view(),
            out.deep_view() == before + profile_complaints(all.take(i as int)),
        decreases profiles.len() - i,
    {
        let ghost so_far = out.deep_view();
        let mut at = "profile.".to_owned();
        at.append(profiles[i].name.as_str());
        proof {
            assert(all.take(i + 1).drop_last() =~= all.take(i as int));
            assert(all.take(i + 1).last() == profiles@[i as int]@);
        }
        if let Some(keys) = &profiles[i].keys {
            let ghost ks = keys.deep_view();
            let mut k: usize = 0;
            assert(so_far + key_complaints("profile"@, at@, ks.take(0)) =~= so_far);
            while k < keys.len()
                invariant
                    k <= keys.len(),
                    ks == keys.deep_view(),
                    out.deep_view() == so_far + key_complaints("profile"@, at@, ks.take(k as int)),
                decreases keys.len() - k,
            {
                proof {
                    assert(ks.take(k + 1).drop_last() =~= ks.take(k as int));
                    assert(ks.take(k + 1).last() == keys@[k as int]@);
                }
                complain_about("profile", at.as_str(), keys[k].as_str(), out);
                assert(out.deep_view() =~= so_far + key_complaints("profile"@, at@, ks.take(k + 1)));
                k += 1;
            }
            assert(ks.take(ks.len() as int) =~= ks);
        }
        assert(out.deep_view() =~= before + profile_complaints(all.take(i + 1)));
        i += 1;
    }
    assert(all.take(all.len() as int) =~= all);
}

fn complain_about_section(section: &Section, out: &mut Vec<String>)
    ensures
        final(out).deep_view() == old(out).deep_view() + section_complaints(section@),
{
    let ghost before = out.deep_view();
    if !reads_section(section.name.as_str()) {
        let mut s = "[".to_owned();
        s.append(section.name.as_str());
        s.append("] is not a section heddle reads");
        out.push(s);
        assert(out.deep_view() =~= before + section_complaints(section@));
        return;
    }
    match &section.settings {
        Some(settings) => {
            if same(section.name.as_str(), "profile") {
                complain_about_profiles(settings, out);
            } else {
                let ghost ks = settings.deep_view().map_values(|s: SettingModel| s.name);
                let mut k: usize = 0;
                assert(before + key_complaints(section@.name, section@.name, ks.take(0)) =~= before);
                while k < settings.len()
                    invariant
                        k <= settings.len(),
                        ks == settings.deep_view().map_values(|s: SettingModel| s.name),
                        out.deep_view() == before + key_complaints(section@.name, section@.name, ks.take(k as int)),
                    decreases settings.len() - k,
                {
                    proof {
                        assert(ks.take(k + 1).drop_last() =~= ks.take(k as int));
                        assert(ks.take(k + 1).last() == settings@[k as int]@.name);
                    }
                    complain_about(section.name.as_str(), section.name.as_str(), settings[k].name.as_str(), out);
                    assert(out.deep_view() =~= before + key_complaints(section@.name, section@.name, ks.take(k + 1)));
                    k += 1;
                }
                assert(ks.take(ks.len() as int) =~= ks);
            }
        },
        None => {},
    }
    assert(out.deep_view() =~= before + section_complaints(section@));
}

/// Report the keys of these sections that nothing acts on.
///
/// A key read and ignored tells the user their preference was applied when it was not.
/// Complained about rather than rejected, so a stale key costs a log line rather than a
/// refusal to start.
pub fn complaints(sections: &Vec<Section>) -> (r: Vec<String>)
    ensures
        r.deep_view() == all_complaints(sections.deep_view()),
{
    let ghost all = sections.deep_view();
    let mut out: Vec<String> = Vec::new();
    let mut i: usize = 0;
    assert(out.deep_view() =~= all_complaints(all.take(0)));
    while i < sections.len()
        invariant
            i <= sections.len(),
            all == sections.deep_view(),
            out.deep_view() == all_complaints(all.take(i as int)),
        decreases sections.len() - i,
    {
        proof {
            assert(all.take(i + 1).drop_last() =~= all.take(i as int));
            assert(all.take(i + 1).last() == sections@[i as int]@);
        }
        complain_about_section(&sections[i], &mut out);
        i += 1;
    }
    assert(all.take(all.len() as int) =~= all);
    out
}

/// Report the keys of a configuration file that nothing acts on. A file that is not TOML
/// has none: reading it reports that with a better message.
pub fn unknown_keys(text: &str) -> (r: Vec<String>)
    ensures
        r.deep_view() == (match toml_sections(text@) {
            Some(sections) => all_complaints(sections),
            None => Seq::empty(),
        }),
{
    match read_sections(text) {
        Some(sections) => complaints(&sections),
        None => {
            let r: Vec<String> = Vec::new();
            assert(r.deep_view() =~= Seq::<Seq<char>>::empty());
            r
        },
    }
}

/// Whether a section and its keys are all known.
pub open spec fn is_known(section: SectionModel) -> bool {
    &&& is_section(section.name)
    &&& section.settings is Some ==> forall|i: int|
        0 <= i < section.settings->0.len() ==> if section.name == "profile"@ {
            is_known_profile(#[trigger] section.settings->0[i])
        } else {
            is_setting(section.name, section.settings->0[i].name)
        }
}

/// A file draws no complaint exactly if its sections and keys are all known.
pub proof fn law_only_what_is_strange_draws_complaints(sections: Seq<SectionModel>)
    ensures
        all_complaints(sections).len() == 0 <==> forall|i: int|
            0 <= i < sections.len() ==> is_known(#[trigger] sections[i]),
    decreases sections.len(),
{
    if sections.len() > 0 {
        let rest = sections.drop_last();
        law_only_what_is_strange_draws_complaints(rest);
        lemma_known_section(sections.last());
        assert(sections[sections.len() - 1] == sections.last());
        assert(forall|i: int| 0 <= i < rest.len() ==> #[trigger] sections[i] == rest[i]);
        if forall|i: int| 0 <= i < sections.len() ==> is_known(#[trigger] sections[i]) {
            assert forall|i: int| 0 <= i < rest.len() implies is_known(#[trigger] rest[i]) by {
                assert(sections[i] == rest[i]);
            }
        }
        if all_complaints(sections).len() == 0 {
            assert forall|i: int| 0 <= i < sections.len() implies is_known(#[trigger] sections[i]) by {
                if i < rest.len() {
                    assert(is_known(rest[i]));
                }
            }
        }
    }
}

proof fn lemma_known_section(section: SectionModel)
    ensures
        section_complaints(section).len() == 0 <==> is_known(section),
{
    if is_section(section.name) && section.settings is Some {
        let settings = section.settings->0;
        if section.name == "profile"@ {
            lemma_known_profiles(settings);
        } else {
            let keys = settings.map_values(|s: SettingModel| s.name);
            law_strange_keys_draw_complaints(section.name, section.name, keys);
            if section_complaints(section).len() == 0 {
                assert forall|i: int| 0 <= i < settings.len() implies is_setting(
                    section.name,
                    (#[trigger] settings[i]).name,
                ) by {
                    assert(is_setting(section.name, keys[i]));
                }
            }
            if is_known(section) {
                assert forall|i: int| 0 <= i < keys.len() implies is_setting(section.name, #[trigger] keys[i]) by {
                    assert(is_setting(section.name, settings[i].name));
                }
            }
        }
    }
}

/// Whether the keys of a profile are all known.
pub open spec fn is_known_profile(profile: SettingModel) -> bool {
    profile.keys is Some ==> forall|k: int|
        0 <= k < (profile.keys->0).len() ==> is_setting("profile"@, #[trigger] (profile.keys->0)[k])
}

proof fn lemma_known_profiles(profiles: Seq<SettingModel>)
    ensures
        profile_complaints(profiles).len() == 0 <==> forall|i: int|
            0 <= i < profiles.len() ==> is_known_profile(#[trigger] profiles[i]),
    decreases profiles.len(),
{
    if profiles.len() > 0 {
        let rest = profiles.drop_last();
        lemma_known_profiles(rest);
        assert(profiles[profiles.len() - 1] == profiles.last());
        if let Some(keys) = profiles.last().keys {
            law_strange_keys_draw_complaints("profile"@, "profile."@ + profiles.last().name, keys);
        }
        if forall|i: int| 0 <= i < profiles.len() ==> is_known_profile(#[trigger] profiles[i]) {
            assert forall|i: int| 0 <= i < rest.len() implies is_known_profile(#[trigger] rest[i]) by {
                assert(profiles[i] == rest[i]);
            }
            assert(is_known_profile(profiles[profiles.len() - 1]));
        }
        if profile_complaints(profiles).len() == 0 {
            assert forall|i: int| 0 <= i < profiles.len() implies is_known_profile(#[trigger] profiles[i]) by {
                if i < rest.len() {
                    assert(is_known_profile(rest[i]));
                }
            }
        }
    }
}

/// A key that nothing acts on draws a complaint that names it, and no other key does.
pub proof fn law_strange_keys_draw_complaints(section: Seq<char>, at: Seq<char>, keys: Seq<Seq<char>>)
    ensures
        key_complaints(section, at, keys).len() == 0 <==> forall|i: int|
            0 <= i < keys.len() ==> is_setting(section, #[trigger] keys[i]),
        forall|i: int|
            0 <= i < keys.len() && !is_setting(section, #[trigger] keys[i]) ==> key_complaints(section, at, keys).contains(
                strange_key(at, keys[i]),
            ),
    decreases keys.len(),
{
    if keys.len() > 0 {
        let rest = keys.drop_last();
        let some = key_complaints(section, at, rest);
        let all = key_complaints(section, at, keys);
        law_strange_keys_draw_complaints(section, at, rest);
        assert forall|i: int| 0 <= i < keys.len() && !is_setting(section, #[trigger] keys[i]) implies all.contains(
            strange_key(at, keys[i]),
        ) by {
            if i < rest.len() {
                assert(rest[i] == keys[i]);
                let j = some.index_of(strange_key(at, keys[i]));
                assert(some.contains(strange_key(at, rest[i])));
                assert(all[j] == some[j]);
            } else {
                assert(all[all.len() - 1] == strange_key(at, keys[i]));
            }
        }
        if all.len() == 0 {
            assert forall|i: int| 0 <= i < keys.len() implies is_setting(section, #[trigger] keys[i]) by {
                if i < rest.len() {
                    assert(rest[i] == keys[i]);
                }
            }
        }
        if forall|i: int| 0 <= i < keys.len() ==> is_setting(section, #[trigger] keys[i]) {
            assert(is_setting(section, keys[keys.len() - 1]));
            assert forall|i: int| 0 <= i < rest.len() implies is_setting(section, #[trigger] rest[i]) by {
                assert(rest[i] == keys[i]);
            }
        }
    }
}

// ------------------------------------------------------------------------- locations

/// Where things are kept.
#[derive(Debug, PartialEq, Eq)]
pub struct Dirs {
    pub config: String,
    pub data: String,
    pub state: String,
}

impl Dirs {
    pub fn config_file(&self) -> (r: String)
        ensures
            r@ == joined(self.config@, "config.toml"@),
    {
        join_path(self.config.as_str(), "config.toml")
    }

    /// Where a profile's pane arrangement is remembered.
    ///
    /// Discardable: everything in it is derived from what the user did last time. Per
    /// profile, since two accounts have different rooms.
    pub fn layout_file(&self, profile: &str) -> (r: String)
        ensures
            r@ == joined(joined(self.state@, "layout"@), profile@ + ".json"@),
    {
        let mut leaf = profile.to_owned();
        leaf.append(".json");
        join_path(join_path(self.state.as_str(), "layout").as_str(), leaf.as_str())
    }
}

} // verus!
