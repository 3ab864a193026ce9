//! The emoji picker.
//!
//! One overlay serving two jobs: reacting to a message, and putting an emoji in the
//! composer. They differ only in what happens on accept, so they share the searching and
//! the list.

use vstd::prelude::*;
use vstd::string::*;

use crate::app::palette::{step_down, step_up, stepped_down, stepped_up, without_last};
use crate::text::{chars_of, contains, has_text, lowercase, occurs_at, same};

verus! {

/// How many matches the overlay will show. A list longer than the screen is not a list
/// anyone reads.
pub const MAX_MATCHES: usize = 60;

/// An emoji, and what it is called.
#[derive(Debug, PartialEq, Eq)]
pub struct Emoji {
    pub text: String,
    pub name: String,
    pub shortcodes: Vec<String>,
}

/// The mathematical content of a [`Emoji`].
#[verifier::ext_equal]
pub struct EmojiModel {
    pub text: Seq<char>,
    pub name: Seq<char>,
    pub shortcodes: Seq<Seq<char>>,
}

impl View for Emoji {
    type V = EmojiModel;

    open spec fn view(&self) -> EmojiModel {
        EmojiModel {
            text: self.text@,
            name: self.name@,
            shortcodes: self.shortcodes.deep_view(),
        }
    }
}

impl DeepView for Emoji {
    type V = EmojiModel;

    open spec fn deep_view(&self) -> EmojiModel {
        self@
    }
}

impl Clone for Emoji {
    fn clone(&self) -> (r: Self)
        ensures
            r@ == self@,
    {
        let r = Emoji {
            text: self.text.clone(),
            name: self.name.clone(),
            shortcodes: self.shortcodes.clone(),
        };
        assert(r.shortcodes.deep_view() =~= self.shortcodes.deep_view());
        r
    }
}

/// What the picker will do with the emoji once one is chosen.
#[derive(Debug, PartialEq, Eq)]
pub enum Target {
    /// Insert it into the composer at the caret.
    Composer,
    /// React to this event.
    Reaction { event_id: String },
}

/// The mathematical content of a [`Target`].
#[verifier::ext_equal]
pub enum TargetModel {
    Composer,
    Reaction { event_id: Seq<char> },
}

impl View for Target {
    type V = TargetModel;

    open spec fn view(&self) -> TargetModel {
        match self {
            Target::Composer => TargetModel::Composer,
            Target::Reaction { event_id } => TargetModel::Reaction { event_id: event_id@ },
        }
    }
}

impl DeepView for Target {
    type V = TargetModel;

    open spec fn deep_view(&self) -> TargetModel {
        self@
    }
}

impl Clone for Target {
    fn clone(&self) -> (r: Self)
        ensures
            r@ == self@,
    {
        let r = match self {
            Target::Composer => Target::Composer,
            Target::Reaction { event_id } => Target::Reaction { event_id: event_id.clone() },
        };
        assert(r@ =~~= self@);
        r
    }
}

/// The state of the picker.
#[derive(Debug, PartialEq, Eq)]
pub struct Picker {
    pub target: Target,
    pub query: String,
    pub matches: Vec<Emoji>,
    pub selected: usize,
}

/// The mathematical content of a [`Picker`].
#[verifier::ext_equal]
pub struct PickerModel {
    pub target: TargetModel,
    pub query: Seq<char>,
    pub matches: Seq<EmojiModel>,
    pub selected: usize,
}

impl View for Picker {
    type V = PickerModel;

    open spec fn view(&self) -> PickerModel {
        PickerModel {
            target: self.target@,
            query: self.query@,
            matches: self.matches.deep_view(),
            selected: self.selected,
        }
    }
}

impl DeepView for Picker {
    type V = PickerModel;

    open spec fn deep_view(&self) -> PickerModel {
        self@
    }
}

impl Clone for Picker {
    fn clone(&self) -> (r: Self)
        ensures
            r@ == self@,
    {
        let r = Picker {
            target: self.target.clone(),
            query: self.query.clone(),
            matches: self.matches.clone(),
            selected: self.selected,
        };
        assert(r.matches.deep_view() =~= self.matches.deep_view());
        r
    }
}

/// The starting set, before anything is typed: what a chat about work actually uses.
pub open spec fn common_set() -> Seq<Seq<char>> {
    seq![
        "👍"@,
        "👎"@,
        "✅"@,
        "❌"@,
        "🎉"@,
        "🚀"@,
        "🔥"@,
        "👀"@,
        "🤔"@,
        "🙏"@,
        "💯"@,
        "😄"@,
        "😂"@,
        "😅"@,
        "🙌"@,
        "👏"@,
        "💡"@,
        "🐛"@,
        "✨"@,
        "📌"@,
        "⏳"@,
        "🧵"@,
        "🔧"@,
        "📝"@,
    ]
}

/// The starting set, before anything is typed.
pub fn common() -> (r: Vec<&'static str>)
    ensures
        r@.map_values(|s: &'static str| s@) == common_set(),
{
    let mut v: Vec<&'static str> = Vec::new();
    v.push("👍");
    v.push("👎");
    v.push("✅");
    v.push("❌");
    v.push("🎉");
    v.push("🚀");
    v.push("🔥");
    v.push("👀");
    v.push("🤔");
    v.push("🙏");
    v.push("💯");
    v.push("😄");
    v.push("😂");
    v.push("😅");
    v.push("🙌");
    v.push("👏");
    v.push("💡");
    v.push("🐛");
    v.push("✨");
    v.push("📌");
    v.push("⏳");
    v.push("🧵");
    v.push("🔧");
    v.push("📝");
    assert(v@.map_values(|s: &'static str| s@) =~= common_set());
    v
}

/// The first `n` emoji of the table, in its order.
pub uninterp spec fn emoji_list(n: usize) -> Seq<EmojiModel>;

/// The emoji that a text is.
pub uninterp spec fn emoji_named(text: Seq<char>) -> Option<EmojiModel>;

/// `emojis::iter`: the first `limit` emoji of its table, each with its text, its name and
/// its shortcodes. Which emoji there are is for Unicode to say.
#[verifier::external_body]
fn first_emoji(limit: usize) -> (r: Vec<Emoji>)
    ensures
        r.deep_view() == emoji_list(limit),
        r@.len() <= limit,
{
    emojis::iter()
        .take(limit)
        .map(|e| Emoji {
            text: e.as_str().to_owned(),
            name: e.name().to_owned(),
            shortcodes: e.shortcodes().map(str::to_owned).collect(),
        })
        .collect()
}

/// `emojis::get`: the emoji that a text is, if it is one.
#[verifier::external_body]
fn get_emoji(text: &str) -> (r: Option<Emoji>)
    ensures
        r.deep_view() == emoji_named(text@),
{
    emojis::get(text).map(|e| Emoji {
        text: e.as_str().to_owned(),
        name: e.name().to_owned(),
        shortcodes: e.shortcodes().map(str::to_owned).collect(),
    })
}

/// Whether some shortcode holds a text.
pub open spec fn shortcode_holds(codes: Seq<Seq<char>>, query: Seq<char>) -> bool {
    exists|i: int| 0 <= i < codes.len() && has_text(#[trigger] codes[i], query)
}

/// Whether a query in lower case finds an emoji: in a shortcode, or in the name whatever
/// its case.
pub open spec fn hit(e: EmojiModel, query: Seq<char>) -> bool {
    shortcode_holds(e.shortcodes, query) || has_text(lowercase(e.name), query)
}

/// Those of a table that have this very shortcode.
pub open spec fn exact_hits(table: Seq<EmojiModel>, query: Seq<char>) -> Seq<EmojiModel> {
    table.filter(|e: EmojiModel| hit(e, query) && e.shortcodes.contains(query))
}

/// Those of a table that a query finds otherwise.
pub open spec fn partial_hits(table: Seq<EmojiModel>, query: Seq<char>) -> Seq<EmojiModel> {
    table.filter(|e: EmojiModel| hit(e, query) && !e.shortcodes.contains(query))
}

/// As many of these as the overlay shows.
pub open spec fn shown_of(found: Seq<EmojiModel>) -> Seq<EmojiModel> {
    if found.len() > MAX_MATCHES {
        found.take(MAX_MATCHES as int)
    } else {
        found
    }
}

/// What a search of a table finds, in order: an exact shortcode is not beaten by a longer
/// name that merely holds it.
pub open spec fn search(table: Seq<EmojiModel>, query: Seq<char>) -> Seq<EmojiModel> {
    shown_of(exact_hits(table, query) + partial_hits(table, query))
}

/// Those of some texts that are emoji.
pub open spec fn resolved(texts: Seq<Seq<char>>) -> Seq<EmojiModel>
    decreases texts.len(),
{
    if texts.len() == 0 {
        Seq::empty()
    } else {
        match emoji_named(texts.last()) {
            Some(e) => resolved(texts.drop_last()).push(e),
            None => resolved(texts.drop_last()),
        }
    }
}

/// What to show for what has been typed.
pub open spec fn emoji_for(typed: Seq<char>) -> Seq<EmojiModel> {
    if typed.len() == 0 {
        resolved(common_set())
    } else {
        search(emoji_list(usize::MAX), lowercase(typed))
    }
}

fn has_shortcode(codes: &Vec<String>, query: &str) -> (r: bool)
    ensures
        r == codes.deep_view().contains(query@),
{
    let mut i: usize = 0;
    while i < codes.len()
        invariant
            i <= codes.len(),
            forall|j: int| 0 <= j < i ==> codes.deep_view()[j] != query@,
        decreases codes.len() - i,
    {
        if same(codes[i].as_str(), query) {
            assert(codes.deep_view()[i as int] == query@);
            return true;
        }
        i += 1;
    }
    false
}

fn is_hit(e: &Emoji, query: &Vec<char>) -> (r: bool)
    ensures
        r == hit(e@, query@),
{
    let mut i: usize = 0;
    while i < e.shortcodes.len()
        invariant
            i <= e.shortcodes.len(),
            forall|j: int| 0 <= j < i ==> !has_text(#[trigger] e@.shortcodes[j], query@),
        decreases e.shortcodes.len() - i,
    {
        if contains(&chars_of(e.shortcodes[i].as_str()), query) {
            assert(has_text(e@.shortcodes[i as int], query@));
            return true;
        }
        i += 1;
    }
    contains(&chars_of(e.name.as_str().to_lowercase().as_str()), query)
}

proof fn lemma_hits_push(table: Seq<EmojiModel>, e: EmojiModel, query: Seq<char>)
    ensures
        exact_hits(table.push(e), query) == (if hit(e, query) && e.shortcodes.contains(query) {
            exact_hits(table, query).push(e)
        } else {
            exact_hits(table, query)
        }),
        partial_hits(table.push(e), query) == (if hit(e, query) && !e.shortcodes.contains(query) {
            partial_hits(table, query).push(e)
        } else {
            partial_hits(table, query)
        }),
{
    broadcast use Seq::lemma_filter_push;

}

/// Search a table for a query in lower case.
///
/// Matching is a substring of the name or of any shortcode, which is what makes both
/// "thumb" and "+1" find the thumb. An exact shortcode comes first.
pub fn search_table(table: &Vec<Emoji>, query: &str) -> (r: Vec<Emoji>)
    ensures
        r.deep_view() == search(table.deep_view(), query@),
{
    let wanted = chars_of(query);
    let ghost all = table.deep_view();
    let mut exact: Vec<Emoji> = Vec::new();
    let mut partial: Vec<Emoji> = Vec::new();
    let mut i: usize = 0;
    proof {
        broadcast use Seq::lemma_filter_len;

        assert(all.take(0) =~= Seq::<EmojiModel>::empty());
        assert(exact.deep_view() =~= exact_hits(all.take(0), query@));
        assert(partial.deep_view() =~= partial_hits(all.take(0), query@));
    }
    while i < table.len()
        invariant
            i <= table.len(),
            all == table.deep_view(),
            wanted@ == query@,
            exact.deep_view() == exact_hits(all.take(i as int), query@),
            partial.deep_view() == partial_hits(all.take(i as int), query@),
        decreases table.len() - i,
    {
        let e = &table[i];
        let ghost had = exact.deep_view();
        let ghost other = partial.deep_view();
        proof {
            assert(all.take(i + 1) =~= all.take(i as int).push(e@));
            lemma_hits_push(all.take(i as int), e@, query@);
        }
        if is_hit(e, &wanted) {
            if has_shortcode(&e.shortcodes, query) {
                exact.push(e.clone());
                assert(exact.deep_view() =~= had.push(e@));
            } else {
                partial.push(e.clone());
                assert(partial.deep_view() =~= other.push(e@));
            }
        }
        i += 1;
    }
    assert(all.take(all.len() as int) =~= all);
    let ghost first = exact.deep_view();
    let ghost second = partial.deep_view();
    exact.append(&mut partial);
    assert(exact.deep_view() =~= first + second);
    if exact.len() > MAX_MATCHES {
        exact.truncate(MAX_MATCHES);
        assert(exact.deep_view() =~= (first + second).take(MAX_MATCHES as int));
    }
    exact
}

impl PickerModel {
    /// A picker with nothing typed.
    pub open spec fn fresh(target: TargetModel) -> PickerModel {
        PickerModel { target, query: Seq::empty(), matches: emoji_for(Seq::empty()), selected: 0 }
    }

    /// The picker for another query, the selection back at the top.
    pub open spec fn asked(self, query: Seq<char>) -> PickerModel {
        PickerModel { target: self.target, query, matches: emoji_for(query), selected: 0 }
    }

    /// The picker without the last character of its query.
    pub open spec fn pop(self) -> PickerModel {
        if self.query.len() == 0 {
            self.asked(self.query)
        } else {
            self.asked(self.query.drop_last())
        }
    }

    /// The picker with the selection one up.
    pub open spec fn up(self) -> PickerModel {
        PickerModel { selected: stepped_up(self.selected), ..self }
    }

    /// The picker with the selection one down.
    pub open spec fn down(self) -> PickerModel {
        PickerModel { selected: stepped_down(self.selected, self.matches.len()), ..self }
    }

    /// The highlighted emoji.
    pub open spec fn chosen(self) -> Option<Seq<char>> {
        if self.selected < self.matches.len() {
            Some(self.matches[self.selected as int].text)
        } else {
            None
        }
    }
}

impl Picker {
    pub fn new(target: Target) -> (r: Self)
        ensures
            r@ == PickerModel::fresh(target@),
    {
        let mut picker = Picker { target, query: String::new(), matches: Vec::new(), selected: 0 };
        picker.refilter();
        picker
    }

    /// Recompute the matches for the current query.
    pub fn refilter(&mut self)
        ensures
            final(self)@ == old(self)@.asked(old(self)@.query),
    {
        self.selected = 0;
        if self.query.as_str().is_empty() {
            let texts = common();
            let ghost all = common_set();
            let mut found: Vec<Emoji> = Vec::new();
            let mut i: usize = 0;
            assert(found.deep_view() =~= Seq::empty());
            while i < texts.len()
                invariant
                    i <= texts.len(),
                    texts@.map_values(|s: &'static str| s@) == all,
                    found.deep_view() == resolved(all.take(i as int)),
                decreases texts.len() - i,
            {
                let ghost had = found.deep_view();
                proof {
                    assert(all.take(i + 1).drop_last() =~= all.take(i as int));
                    assert(all.take(i + 1).last() == texts@[i as int]@);
                }
                if let Some(e) = get_emoji(texts[i]) {
                    found.push(e);
                    assert(found.deep_view() =~= had.push(e@));
                }
                i += 1;
            }
            assert(all.take(all.len() as int) =~= all);
            self.matches = found;
            assert(self@.query =~= Seq::empty());
        } else {
            let table = first_emoji(usize::MAX);
            self.matches = search_table(&table, self.query.as_str().to_lowercase().as_str());
        }
        assert(self@ =~= old(self)@.asked(old(self)@.query));
    }

    pub fn push(&mut self, c: char)
        ensures
            final(self)@ == old(self)@.asked(old(self)@.query.push(c)),
    {
        self.query.push(c);
        self.refilter();
    }

    pub fn pop(&mut self)
        ensures
            final(self)@ == old(self)@.pop(),
    {
        self.query = without_last(self.query.as_str());
        self.refilter();
    }

    pub fn up(&mut self)
        ensures
            final(self)@ == old(self)@.up(),
    {
        self.selected = step_up(self.selected);
    }

    pub fn down(&mut self)
        ensures
            final(self)@ == old(self)@.down(),
    {
        self.selected = step_down(self.selected, self.matches.len());
    }

    /// The highlighted emoji, if the query matched anything.
    pub fn chosen(&self) -> (r: Option<&str>)
        ensures
            match r {
                Some(text) => self@.chosen() == Some(text@),
                None => self@.chosen() is None,
            },
    {
        if self.selected < self.matches.len() {
            Some(self.matches[self.selected].text.as_str())
        } else {
            None
        }
    }
}

// ----------------------------------------------------------------------------- laws

/// A search finds no more than the overlay shows, and only what the query hits.
pub proof fn law_a_search_finds_only_hits(table: Seq<EmojiModel>, query: Seq<char>)
    ensures
        search(table, query).len() <= MAX_MATCHES,
        forall|i: int| 0 <= i < search(table, query).len() ==> hit(#[trigger] search(table, query)[i], query),
{
    broadcast use Seq::lemma_filter_pred;

    let (exact, partial) = (exact_hits(table, query), partial_hits(table, query));
    assert forall|i: int| 0 <= i < search(table, query).len() implies hit(#[trigger] search(table, query)[i], query) by {
        if i < exact.len() {
            assert(search(table, query)[i] == exact[i]);
        } else {
            assert(search(table, query)[i] == partial[i - exact.len()]);
        }
    }
}

/// Whatever has the query for a shortcode stands before whatever has not.
pub proof fn law_an_exact_shortcode_comes_first(table: Seq<EmojiModel>, query: Seq<char>, i: int, j: int)
    requires
        0 <= i < search(table, query).len(),
        0 <= j < search(table, query).len(),
        search(table, query)[i].shortcodes.contains(query),
        !search(table, query)[j].shortcodes.contains(query),
    ensures
        i < j,
{
    broadcast use Seq::lemma_filter_pred;

    let (exact, partial) = (exact_hits(table, query), partial_hits(table, query));
    if i >= exact.len() {
        assert(search(table, query)[i] == partial[i - exact.len()]);
    }
    if j < exact.len() {
        assert(search(table, query)[j] == exact[j]);
    }
}

/// However many names hold the query, an emoji that has it for a shortcode is found, short
/// of more of those than the overlay shows.
pub proof fn law_an_exact_shortcode_is_found(table: Seq<EmojiModel>, query: Seq<char>, i: int)
    requires
        0 <= i < table.len(),
        table[i].shortcodes.contains(query),
        exact_hits(table, query).len() <= MAX_MATCHES,
    ensures
        search(table, query).contains(table[i]),
{
    let e = table[i];
    let k = choose|k: int| 0 <= k < e.shortcodes.len() && e.shortcodes[k] == query;
    assert(query.subrange(0, query.len() as int) =~= query);
    assert(occurs_at(e.shortcodes[k], query, 0));
    assert(has_text(e.shortcodes[k], query));
    assert(hit(e, query));
    table.lemma_filter_contains(|e: EmojiModel| hit(e, query) && e.shortcodes.contains(query), i);
    let exact = exact_hits(table, query);
    assert(exact.contains(e));
    let n = choose|n: int| 0 <= n < exact.len() && exact[n] == e;
    assert(search(table, query)[n] == e);
}

} // verus!
