//! Mentions: naming a member in a message, and reading the name back.

use vstd::prelude::*;
use vstd::string::*;

use crate::app::keymap::{ascii_lowered, lowered};
use crate::app::palette::{by_penalty, is_lighter, lighter, penalty, rank};
use crate::matrix::model::{MemberSummary, MemberSummaryModel};
use crate::seqs::{sort, sorted};
use crate::text::{
    before, chars_of, is_space, lemma_before, lemma_before_is, lowercase, same, same_chars, slice, space, string_of,
};

verus! {

// ------------------------------------------------------------------------- user names

/// A user ID without its sigil.
pub open spec fn without_sigil(user_id: Seq<char>) -> Seq<char> {
    if user_id.len() > 0 && user_id[0] == '@' {
        user_id.skip(1)
    } else {
        user_id
    }
}

/// A user ID without any of the sigils it begins with.
pub open spec fn without_sigils(user_id: Seq<char>) -> Seq<char>
    decreases user_id.len(),
{
    if user_id.len() > 0 && user_id[0] == '@' {
        without_sigils(user_id.skip(1))
    } else {
        user_id
    }
}

/// The localpart of a user ID: between the sigil and the first colon.
pub open spec fn local(user_id: Seq<char>) -> Seq<char> {
    let s = without_sigil(user_id);
    s.take(before(s, ':') as int)
}

/// The localpart of a user ID, without its leading sigil.
pub fn localpart(user_id: &str) -> (r: String)
    ensures
        r@ == local(user_id@),
{
    let chars = chars_of(user_id);
    let from: usize = if chars.len() > 0 && chars[0] == '@' {
        1
    } else {
        0
    };
    let ghost s = without_sigil(user_id@);
    assert(s =~= chars@.skip(from as int));
    let mut to = from;
    while to < chars.len() && chars[to] != ':'
        invariant
            from <= to <= chars.len(),
            s == chars@.skip(from as int),
            forall|j: int| from <= j < to ==> chars@[j] != ':',
        decreases chars.len() - to,
    {
        to += 1;
    }
    proof {
        assert forall|j: int| 0 <= j < to - from implies s[j] != ':' by {
            assert(s[j] == chars@[from + j]);
        }
        if to < chars.len() {
            assert(s[to - from] == chars@[to as int]);
        }
        lemma_before_is(s, ':', to - from);
    }
    let part = slice(&chars, from, to);
    assert(part@ =~= s.take(to - from));
    string_of(&part)
}

fn bare_id(user_id: &str) -> (r: Vec<char>)
    ensures
        r@ == without_sigils(user_id@),
{
    let chars = chars_of(user_id);
    let mut from: usize = 0;
    assert(chars@.skip(0) =~= chars@);
    while from < chars.len() && chars[from] == '@'
        invariant
            from <= chars.len(),
            chars@ == user_id@,
            without_sigils(chars@.skip(from as int)) == without_sigils(user_id@),
        decreases chars.len() - from,
    {
        assert(chars@.skip(from as int)[0] == '@');
        assert(chars@.skip(from as int).skip(1) =~= chars@.skip(from + 1));
        from += 1;
    }
    proof {
        let rest = chars@.skip(from as int);
        if from < chars.len() {
            assert(rest[0] == chars@[from as int]);
        }
        assert(rest =~= chars@.subrange(from as int, chars@.len() as int));
    }
    slice(&chars, from, chars.len())
}

/// Whether two texts are the same but for ASCII case.
pub open spec fn alike(a: Seq<char>, b: Seq<char>) -> bool {
    ascii_lowered(a) == ascii_lowered(b)
}

fn are_alike(a: &Vec<char>, b: &Vec<char>) -> (r: bool)
    ensures
        r == alike(a@, b@),
{
    same_chars(&lowered(a), &lowered(b))
}

// ------------------------------------------------------------------------------ writing

/// How many members have this localpart.
pub open spec fn sharing(room: Seq<MemberSummaryModel>, part: Seq<char>) -> nat
    decreases room.len(),
{
    if room.len() == 0 {
        0
    } else {
        sharing(room.drop_last(), part) + if local(room.last().user_id) == part {
            1nat
        } else {
            0
        }
    }
}

/// The text written for a mention: the localpart where it is one member's alone, the
/// whole ID where it is shared.
pub open spec fn mention(member: MemberSummaryModel, room: Seq<MemberSummaryModel>) -> Seq<char> {
    if sharing(room, local(member.user_id)) > 1 {
        member.user_id
    } else {
        "@"@ + local(member.user_id)
    }
}

/// The text written into the message for a mention.
///
/// The localpart, not the display name. A display name may contain spaces, and a mention
/// that contains a space cannot be found again by [`mention_words`]; and two members can
/// show the same name, which would then name nobody in particular. So an unambiguous
/// member gets `@localpart` and everyone else gets their full ID.
pub fn mention_text(member: &MemberSummary, room: &Vec<MemberSummary>) -> (r: String)
    ensures
        r@ == mention(member@, room.deep_view()),
{
    let own = localpart(member.user_id.as_str());
    let ghost all = room.deep_view();
    let mut shared: usize = 0;
    let mut i: usize = 0;
    while i < room.len()
        invariant
            i <= room.len(),
            all == room.deep_view(),
            own@ == local(member@.user_id),
            shared <= i,
            shared == sharing(all.take(i as int), own@),
        decreases room.len() - i,
    {
        proof {
            assert(all.take(i + 1).drop_last() =~= all.take(i as int));
            assert(all.take(i + 1).last() == room@[i as int]@);
        }
        if same(localpart(room[i].user_id.as_str()).as_str(), own.as_str()) {
            shared += 1;
        }
        i += 1;
    }
    assert(all.take(all.len() as int) =~= all);
    if shared > 1 {
        // Already carries its own sigil.
        member.user_id.clone()
    } else {
        let mut text = "@".to_owned();
        text.append(own.as_str());
        text
    }
}

// ------------------------------------------------------------------------------ reading

/// The words of a text behind an unfinished one: runs without whitespace.
pub open spec fn words_after(word: Seq<char>, s: Seq<char>) -> Seq<Seq<char>>
    decreases s.len(),
{
    if s.len() == 0 {
        if word.len() == 0 {
            Seq::empty()
        } else {
            seq![word]
        }
    } else if is_space(s[0]) {
        if word.len() == 0 {
            words_after(word, s.skip(1))
        } else {
            seq![word] + words_after(Seq::empty(), s.skip(1))
        }
    } else {
        words_after(word.push(s[0]), s.skip(1))
    }
}

/// The words of a text.
pub open spec fn words(s: Seq<char>) -> Seq<Seq<char>> {
    words_after(Seq::empty(), s)
}

/// Whether a character may end a sentence behind a mention. Underscore and hyphen may
/// not: they are ordinary in a localpart.
pub open spec fn ends_sentence(c: char) -> bool {
    c != '_' && c != '-' && {
        ||| '!' <= c <= '/'
        ||| ':' <= c <= '@'
        ||| '[' <= c <= '`'
        ||| '{' <= c <= '~'
    }
}

/// A word without the punctuation that ends it.
pub open spec fn unpunctuated(s: Seq<char>) -> Seq<char>
    decreases s.len(),
{
    if s.len() > 0 && ends_sentence(s.last()) {
        unpunctuated(s.drop_last())
    } else {
        s
    }
}

/// The name that a word mentions, if it is a mention.
pub open spec fn mentioned_by(word: Seq<char>) -> Option<Seq<char>> {
    if word.len() > 0 && word[0] == '@' && unpunctuated(word.skip(1)).len() > 0 {
        Some(unpunctuated(word.skip(1)))
    } else {
        None
    }
}

/// The names that these words mention.
pub open spec fn names_in(all: Seq<Seq<char>>) -> Seq<Seq<char>>
    decreases all.len(),
{
    if all.len() == 0 {
        Seq::empty()
    } else {
        match mentioned_by(all.last()) {
            Some(name) => names_in(all.drop_last()).push(name),
            None => names_in(all.drop_last()),
        }
    }
}

fn split_words(s: &Vec<char>) -> (r: Vec<Vec<char>>)
    ensures
        r.deep_view() == words(s@),
{
    let mut out: Vec<Vec<char>> = Vec::new();
    let mut word: Vec<char> = Vec::new();
    let mut i: usize = 0;
    proof {
        assert(s@.skip(0) =~= s@);
        assert(word@ =~= Seq::<char>::empty());
        assert(out.deep_view() + words(s@) =~= words(s@));
    }
    while i < s.len()
        invariant
            i <= s.len(),
            out.deep_view() + words_after(word@, s@.skip(i as int)) == words(s@),
        decreases s.len() - i,
    {
        let ghost rest = s@.skip(i as int);
        let ghost so_far = out.deep_view();
        proof {
            assert(rest[0] == s@[i as int]);
            assert(rest.skip(1) =~= s@.skip(i + 1));
        }
        if space(s[i]) {
            if word.len() > 0 {
                let ghost w = word@;
                let mut done: Vec<char> = Vec::new();
                std::mem::swap(&mut done, &mut word);
                assert(done.deep_view() =~= w);
                out.push(done);
                proof {
                    assert(word@ =~= Seq::<char>::empty());
                    assert(out.deep_view() =~= so_far.push(w));
                    assert(so_far + (seq![w] + words_after(word@, rest.skip(1))) =~= out.deep_view() + words_after(
                        word@,
                        rest.skip(1),
                    ));
                }
            }
        } else {
            word.push(s[i]);
        }
        i += 1;
    }
    let ghost so_far = out.deep_view();
    assert(s@.skip(i as int).len() == 0);
    if word.len() > 0 {
        let ghost w = word@;
        assert(word.deep_view() =~= w);
        out.push(word);
        assert(out.deep_view() =~= so_far + seq![w]);
    } else {
        assert(so_far + Seq::<Seq<char>>::empty() =~= so_far);
    }
    out
}

fn may_end_sentence(c: char) -> (r: bool)
    ensures
        r == ends_sentence(c),
{
    c != '_' && c != '-' && (('!' <= c && c <= '/') || (':' <= c && c <= '@') || ('[' <= c && c <= '`') || ('{' <= c && c
        <= '~'))
}

fn name_of(word: &Vec<char>) -> (r: Option<Vec<char>>)
    ensures
        match r {
            Some(name) => mentioned_by(word@) == Some(name@),
            None => mentioned_by(word@) is None,
        },
{
    if word.len() == 0 || word[0] != '@' {
        return None;
    }
    let ghost rest = word@.skip(1);
    let mut to = word.len();
    assert(word@.subrange(1, to as int) =~= rest);
    while to > 1 && may_end_sentence(word[to - 1])
        invariant
            1 <= to <= word.len(),
            unpunctuated(word@.subrange(1, to as int)) == unpunctuated(rest),
        decreases to,
    {
        let ghost part = word@.subrange(1, to as int);
        assert(part.last() == word@[to - 1]);
        assert(part.drop_last() =~= word@.subrange(1, to - 1));
        to -= 1;
    }
    proof {
        let part = word@.subrange(1, to as int);
        if to > 1 {
            assert(part.last() == word@[to - 1]);
        }
        assert(unpunctuated(part) == part);
    }
    if to == 1 {
        None
    } else {
        Some(slice(word, 1, to))
    }
}

/// Every `@word` in a message, without its sigil.
///
/// A word starts at a word boundary and ends at whitespace, so that what the picker wrote
/// can be read back. Trailing punctuation is trimmed, because "thanks @bob!" mentions bob
/// and so does "ask @bob.", which also leaves a trailing dot off a homeserver name without
/// eating the dots inside it.
pub fn mention_words(body: &str) -> (r: Vec<String>)
    ensures
        r.deep_view() == names_in(words(body@)),
{
    let found = split_words(&chars_of(body));
    let ghost all = found.deep_view();
    let mut out: Vec<String> = Vec::new();
    let mut i: usize = 0;
    assert(out.deep_view() =~= names_in(all.take(0)));
    while i < found.len()
        invariant
            i <= found.len(),
            all == found.deep_view(),
            out.deep_view() == names_in(all.take(i as int)),
        decreases found.len() - i,
    {
        let ghost so_far = out.deep_view();
        proof {
            assert(all.take(i + 1).drop_last() =~= all.take(i as int));
            assert(found@[i as int].deep_view() =~= found@[i as int]@);
            assert(all.take(i + 1).last() == found@[i as int]@);
        }
        if let Some(name) = name_of(&found[i]) {
            out.push(string_of(&name));
            assert(out.deep_view() =~= so_far.push(name@));
        }
        i += 1;
    }
    assert(all.take(all.len() as int) =~= all);
    out
}

// ---------------------------------------------------------------------------- resolving

/// The place of the one element that passes a test, where exactly one does.
pub open spec fn is_sole<A>(s: Seq<A>, p: spec_fn(A) -> bool, i: int) -> bool {
    &&& 0 <= i < s.len()
    &&& p(s[i])
    &&& forall|j: int| 0 <= j < s.len() && p(#[trigger] s[j]) ==> j == i
}

/// The one element that passes a test, where exactly one does.
pub open spec fn sole<A>(s: Seq<A>, p: spec_fn(A) -> bool) -> Option<A> {
    if exists|i: int| is_sole(s, p, i) {
        Some(s[choose|i: int| is_sole(s, p, i)])
    } else {
        None
    }
}

proof fn lemma_sole<A>(s: Seq<A>, p: spec_fn(A) -> bool, i: int)
    requires
        is_sole(s, p, i),
    ensures
        sole(s, p) == Some(s[i]),
{
    let k = choose|k: int| is_sole(s, p, k);
    assert(is_sole(s, p, k));
    assert(k == i);
}

proof fn lemma_not_sole<A>(s: Seq<A>, p: spec_fn(A) -> bool, i: int, j: int)
    requires
        0 <= i < j < s.len(),
        p(s[i]),
        p(s[j]),
    ensures
        sole(s, p) is None,
{
    assert forall|k: int| !is_sole(s, p, k) by {
        if is_sole(s, p, k) {
            assert(p(s[i]) && p(s[j]));
        }
    }
}

/// The one member matching `f`, or `None` if none or several do.
fn only<F: Fn(&MemberSummary) -> bool>(
    members: &Vec<MemberSummary>,
    f: F,
    Ghost(p): Ghost<spec_fn(MemberSummaryModel) -> bool>,
) -> (r: Option<&MemberSummary>)
    requires
        forall|m: &MemberSummary| #[trigger] f.requires((m,)),
        forall|m: &MemberSummary, b: bool| #[trigger] f.ensures((m,), b) ==> b == p(m@),
    ensures
        match r {
            Some(m) => sole(members.deep_view(), p) == Some(m@),
            None => sole(members.deep_view(), p) is None,
        },
{
    let ghost all = members.deep_view();
    let mut hit: Option<usize> = None;
    let mut i: usize = 0;
    while i < members.len()
        invariant
            forall|m: &MemberSummary| #[trigger] f.requires((m,)),
            forall|m: &MemberSummary, b: bool| #[trigger] f.ensures((m,), b) ==> b == p(m@),
            all == members.deep_view(),
            i <= members.len(),
            match hit {
                Some(h) => h < i && p(all[h as int]) && forall|j: int|
                    0 <= j < i && p(#[trigger] all[j]) ==> j == h,
                None => forall|j: int| 0 <= j < i ==> !p(#[trigger] all[j]),
            },
        decreases members.len() - i,
    {
        assert(all[i as int] == members@[i as int]@);
        if f(&members[i]) {
            match hit {
                Some(h) => {
                    proof {
                        lemma_not_sole(all, p, h as int, i as int);
                    }
                    return None;
                },
                None => {
                    hit = Some(i);
                },
            }
        }
        i += 1;
    }
    match hit {
        Some(h) => {
            proof {
                lemma_sole(all, p, h as int);
            }
            Some(&members[h])
        },
        None => {
            assert forall|k: int| !is_sole(all, p, k) by {}
            None
        },
    }
}

/// The test for a member whose whole ID is a word.
pub open spec fn of_id(word: Seq<char>) -> spec_fn(MemberSummaryModel) -> bool {
    |m: MemberSummaryModel| alike(without_sigils(m.user_id), word)
}

/// The test for a member whose localpart is a word.
pub open spec fn of_localpart(word: Seq<char>) -> spec_fn(MemberSummaryModel) -> bool {
    |m: MemberSummaryModel| alike(local(m.user_id), word)
}

/// The test for a member who alone shows a word as their name.
pub open spec fn of_name(word: Seq<char>) -> spec_fn(MemberSummaryModel) -> bool {
    |m: MemberSummaryModel| !m.ambiguous && alike(m.display_name, word)
}

/// The member that a word names.
pub open spec fn named(members: Seq<MemberSummaryModel>, word: Seq<char>) -> Option<MemberSummaryModel> {
    if sole(members, of_id(word)) is Some {
        sole(members, of_id(word))
    } else if sole(members, of_localpart(word)) is Some {
        sole(members, of_localpart(word))
    } else {
        sole(members, of_name(word))
    }
}

/// Which member, if any, a written `@word` names.
///
/// Tried as a full user ID, then a localpart, then a display name. Each step only answers
/// when it names exactly one member: a name that names two people names neither, and the
/// message goes out mentioning nobody rather than mentioning the wrong person.
pub fn resolve_mention<'a>(members: &'a Vec<MemberSummary>, word: &str) -> (r: Option<&'a MemberSummary>)
    ensures
        match r {
            Some(m) => named(members.deep_view(), word@) == Some(m@),
            None => named(members.deep_view(), word@) is None,
        },
{
    let chars = chars_of(word);
    let by_id = |m: &MemberSummary| -> (b: bool)
        ensures
            b == of_id(word@)(m@),
        { are_alike(&bare_id(m.user_id.as_str()), &chars) };
    if let Some(m) = only(members, by_id, Ghost(of_id(word@))) {
        return Some(m);
    }
    let by_part = |m: &MemberSummary| -> (b: bool)
        ensures
            b == of_localpart(word@)(m@),
        { are_alike(&chars_of(localpart(m.user_id.as_str()).as_str()), &chars) };
    if let Some(m) = only(members, by_part, Ghost(of_localpart(word@))) {
        return Some(m);
    }
    let by_name = |m: &MemberSummary| -> (b: bool)
        ensures
            b == of_name(word@)(m@),
        { !m.ambiguous && are_alike(&chars_of(m.display_name.as_str()), &chars) };
    only(members, by_name, Ghost(of_name(word@)))
}

/// The members whose names are among these, as user IDs, each once.
pub open spec fn resolved_ids(members: Seq<MemberSummaryModel>, names: Seq<Seq<char>>) -> Seq<Seq<char>>
    decreases names.len(),
{
    if names.len() == 0 {
        Seq::empty()
    } else {
        let rest = resolved_ids(members, names.drop_last());
        match named(members, names.last()) {
            Some(m) => if rest.contains(m.user_id) {
                rest
            } else {
                rest.push(m.user_id)
            },
            None => rest,
        }
    }
}

/// The members whose name is written in a message, as user IDs.
pub open spec fn mentioned(members: Seq<MemberSummaryModel>, body: Seq<char>) -> Seq<Seq<char>> {
    resolved_ids(members, names_in(words(body)))
}

fn among(ids: &Vec<String>, id: &str) -> (r: bool)
    ensures
        r == ids.deep_view().contains(id@),
{
    let mut i: usize = 0;
    while i < ids.len()
        invariant
            i <= ids.len(),
            forall|j: int| 0 <= j < i ==> ids.deep_view()[j] != id@,
        decreases ids.len() - i,
    {
        if same(ids[i].as_str(), id) {
            assert(ids.deep_view()[i as int] == id@);
            return true;
        }
        i += 1;
    }
    false
}

/// The members whose name is written in a message, as user IDs.
///
/// Read off the finished message rather than remembered from the picker, so that a name
/// typed out in full counts and one deleted afterwards does not.
pub fn mentions_of(members: &Vec<MemberSummary>, body: &str) -> (r: Vec<String>)
    ensures
        r.deep_view() == mentioned(members.deep_view(), body@),
{
    let names = mention_words(body);
    let ghost all = names.deep_view();
    let ghost room = members.deep_view();
    let mut out: Vec<String> = Vec::new();
    let mut i: usize = 0;
    assert(out.deep_view() =~= resolved_ids(room, all.take(0)));
    while i < names.len()
        invariant
            i <= names.len(),
            all == names.deep_view(),
            room == members.deep_view(),
            out.deep_view() == resolved_ids(room, all.take(i as int)),
        decreases names.len() - i,
    {
        let ghost so_far = out.deep_view();
        proof {
            assert(all.take(i + 1).drop_last() =~= all.take(i as int));
            assert(all.take(i + 1).last() == names@[i as int]@);
        }
        if let Some(m) = resolve_mention(members, names[i].as_str()) {
            if !among(&out, m.user_id.as_str()) {
                out.push(m.user_id.clone());
                assert(out.deep_view() =~= so_far.push(m@.user_id));
            }
        }
        i += 1;
    }
    assert(all.take(all.len() as int) =~= all);
    out
}

// ------------------------------------------------------------------------------ ranking

/// How badly a member fits a query: by display name or by localpart, whichever is better.
pub open spec fn fit_of(member: MemberSummaryModel, query: Seq<char>) -> Option<(u16, u16, u16)> {
    let by_name = penalty(member.display_name, lowercase(query));
    let by_id = penalty(local(member.user_id), lowercase(query));
    match (by_name, by_id) {
        (Some(a), Some(b)) => Some(
            if lighter(b, a) {
                b
            } else {
                a
            },
        ),
        (Some(a), None) => Some(a),
        (None, b) => b,
    }
}

/// How badly each of these members fits, beside its place, of those that fit at all.
pub open spec fn fits(members: Seq<MemberSummaryModel>, query: Seq<char>) -> Seq<(u16, u16, u16, usize)>
    decreases members.len(),
{
    if members.len() == 0 {
        Seq::empty()
    } else {
        let rest = fits(members.drop_last(), query);
        match fit_of(members.last(), query) {
            Some(p) => rest.push((p.0, p.1, p.2, (members.len() - 1) as usize)),
            None => rest,
        }
    }
}

/// The places of the members that fit a query, best first.
pub open spec fn ranked(members: Seq<MemberSummaryModel>, query: Seq<char>) -> Seq<usize> {
    if query.len() == 0 {
        Seq::new(members.len(), |i: int| i as usize)
    } else {
        sorted(fits(members, query), by_penalty()).map_values(|s: (u16, u16, u16, usize)| s.3)
    }
}

fn fitness(member: &MemberSummary, query: &str) -> (r: Option<(u16, u16, u16)>)
    ensures
        r == fit_of(member@, query@),
{
    let by_name = rank(member.display_name.as_str(), query);
    let by_id = rank(localpart(member.user_id.as_str()).as_str(), query);
    match (by_name, by_id) {
        (Some(a), Some(b)) => {
            if b.0 < a.0 || (b.0 == a.0 && (b.1 < a.1 || (b.1 == a.1 && b.2 < a.2))) {
                Some(b)
            } else {
                Some(a)
            }
        },
        (Some(a), None) => Some(a),
        (None, b) => b,
    }
}

/// Members matching `query`, best first, as indices into `members`.
///
/// An empty query offers everyone, in the order the members are in. Otherwise both the
/// display name and the localpart are scored and the better of the two wins; members that
/// score the same keep their order.
pub fn rank_members(members: &Vec<MemberSummary>, query: &str) -> (r: Vec<usize>)
    ensures
        r@ == ranked(members.deep_view(), query@),
{
    let ghost all = members.deep_view();
    let mut out: Vec<usize> = Vec::new();
    if query.is_empty() {
        let mut i: usize = 0;
        while i < members.len()
            invariant
                i <= members.len(),
                out@.len() == i,
                forall|j: int| 0 <= j < i ==> out@[j] == j,
            decreases members.len() - i,
        {
            out.push(i);
            i += 1;
        }
        assert(out@ =~= ranked(all, query@));
        return out;
    }
    let mut found: Vec<(u16, u16, u16, usize)> = Vec::new();
    let mut i: usize = 0;
    assert(found@ =~= fits(all.take(0), query@));
    while i < members.len()
        invariant
            i <= members.len(),
            all == members.deep_view(),
            found@ == fits(all.take(i as int), query@),
        decreases members.len() - i,
    {
        proof {
            assert(all.take(i + 1).drop_last() =~= all.take(i as int));
            assert(all.take(i + 1).last() == members@[i as int]@);
        }
        if let Some((strays, gaps, start)) = fitness(&members[i], query) {
            found.push((strays, gaps, start, i));
        }
        i += 1;
    }
    assert(all.take(all.len() as int) =~= all);
    assert(found.deep_view() =~= found@);
    let ordered = sort(found, is_lighter, Ghost(by_penalty()));
    assert(ordered.deep_view() =~= ordered@);
    let mut k: usize = 0;
    while k < ordered.len()
        invariant
            k <= ordered.len(),
            query@.len() > 0,
            ordered@ == sorted(fits(all, query@), by_penalty()),
            out@ == ranked(all, query@).take(k as int),
        decreases ordered.len() - k,
    {
        out.push(ordered[k].3);
        assert(out@ =~= ranked(all, query@).take(k + 1));
        k += 1;
    }
    assert(ranked(all, query@).take(ordered.len() as int) =~= ranked(all, query@));
    out
}

// --------------------------------------------------------------------------------- laws

/// A text that ends in whitespace shares no word with what follows it.
proof fn lemma_words_apart(word: Seq<char>, a: Seq<char>, b: Seq<char>)
    requires
        a.len() > 0,
        is_space(a.last()),
    ensures
        words_after(word, a + b) == words_after(word, a) + words(b),
    decreases a.len(),
{
    let ab = a + b;
    assert(ab[0] == a[0]);
    assert(ab.skip(1) =~= a.skip(1) + b);
    if a.len() == 1 {
        assert(a.skip(1) + b =~= b);
        assert(a.skip(1).len() == 0);
        assert(words_after(Seq::empty(), a.skip(1)) =~= Seq::<Seq<char>>::empty());
        if word.len() == 0 {
            assert(word =~= Seq::<char>::empty());
            assert(words_after(word, a) + words(b) =~= words(b));
        } else {
            assert(words_after(word, a) =~= seq![word]);
        }
    } else {
        assert(a.skip(1).last() == a.last());
        if is_space(a[0]) {
            if word.len() == 0 {
                lemma_words_apart(word, a.skip(1), b);
            } else {
                lemma_words_apart(Seq::empty(), a.skip(1), b);
                assert(seq![word] + (words_after(Seq::empty(), a.skip(1)) + words(b)) =~= seq![word] + words_after(
                    Seq::empty(),
                    a.skip(1),
                ) + words(b));
            }
        } else {
            lemma_words_apart(word.push(a[0]), a.skip(1), b);
        }
    }
}

/// A run without whitespace, and a blank behind it, are one word.
proof fn lemma_one_word(word: Seq<char>, w: Seq<char>)
    requires
        word.len() + w.len() > 0,
        forall|i: int| 0 <= i < w.len() ==> !is_space(#[trigger] w[i]),
    ensures
        words_after(word, w + seq![' ']) == seq![word + w],
    decreases w.len(),
{
    let text = w + seq![' '];
    if w.len() == 0 {
        assert(text[0] == ' ');
        assert(text.skip(1) =~= Seq::<char>::empty());
        assert(words_after(Seq::empty(), text.skip(1)) =~= Seq::<Seq<char>>::empty());
        assert(word + w =~= word);
        assert(words_after(word, text) =~= seq![word]);
    } else {
        assert(text[0] == w[0]);
        assert(text.skip(1) =~= w.skip(1) + seq![' ']);
        lemma_one_word(word.push(w[0]), w.skip(1));
        assert(word.push(w[0]) + w.skip(1) =~= word + w);
    }
}

/// A word that mentions a name puts the name among the names.
proof fn lemma_name_among(all: Seq<Seq<char>>, i: int, name: Seq<char>)
    requires
        0 <= i < all.len(),
        mentioned_by(all[i]) == Some(name),
    ensures
        names_in(all).contains(name),
    decreases all.len(),
{
    let rest = all.drop_last();
    if i < rest.len() {
        assert(rest[i] == all[i]);
        lemma_name_among(rest, i, name);
        let k = names_in(rest).index_of(name);
        assert(names_in(all)[k] == name);
    } else {
        let n = names_in(all).len() as int;
        assert(names_in(all)[n - 1] == name);
    }
}

/// A name that names a member puts the member among the mentioned.
proof fn lemma_member_among(members: Seq<MemberSummaryModel>, names: Seq<Seq<char>>, name: Seq<char>)
    requires
        names.contains(name),
        named(members, name) is Some,
    ensures
        resolved_ids(members, names).contains(named(members, name)->0.user_id),
    decreases names.len(),
{
    let id = named(members, name)->0.user_id;
    let rest = names.drop_last();
    let some = resolved_ids(members, rest);
    let all = resolved_ids(members, names);
    if names.last() == name {
        if some.contains(id) {
            assert(all == some);
        } else {
            assert(all[all.len() - 1] == id);
        }
    } else {
        let k = names.index_of(name);
        assert(rest[k] == name);
        lemma_member_among(members, rest, name);
        let j = some.index_of(id);
        assert(all[j] == id);
    }
}

/// A user ID of the ordinary shape: one sigil, a localpart, a colon, and no whitespace.
pub open spec fn ordinary(user_id: Seq<char>) -> bool {
    &&& user_id.len() >= 2 && user_id[0] == '@' && user_id[1] != '@' && user_id[1] != ':'
    &&& user_id.contains(':')
    &&& forall|i: int| 0 <= i < user_id.len() ==> !is_space(#[trigger] user_id[i])
}

proof fn lemma_ordinary(user_id: Seq<char>)
    requires
        ordinary(user_id),
    ensures
        without_sigils(user_id) == user_id.skip(1),
        local(user_id).len() > 0,
        local(user_id).len() < user_id.len() - 1,
        forall|i: int| 0 <= i < local(user_id).len() ==> local(user_id)[i] != ':',
        forall|i: int| 0 <= i < local(user_id).len() ==> !is_space(#[trigger] local(user_id)[i]),
        user_id.skip(1).contains(':'),
{
    let s = user_id.skip(1);
    assert(s[0] == user_id[1]);
    assert(without_sigils(s) == s);
    let k = user_id.index_of(':');
    assert(user_id[k] == ':');
    assert(s[k - 1] == ':');
    lemma_before(s, ':');
    assert(local(user_id) =~= s.take(before(s, ':') as int));
    assert forall|i: int| 0 <= i < local(user_id).len() implies !is_space(#[trigger] local(user_id)[i]) by {
        assert(local(user_id)[i] == user_id[i + 1]);
    }
}

proof fn lemma_alike_colon(a: Seq<char>, b: Seq<char>)
    requires
        alike(a, b),
        a.contains(':'),
    ensures
        b.contains(':'),
{
    let k = a.index_of(':');
    assert(ascii_lowered(a).len() == ascii_lowered(b).len());
    assert(ascii_lowered(a)[k] == ':');
    assert(ascii_lowered(b)[k] == ':');
    assert(b[k] == ':');
}

proof fn lemma_sharing(room: Seq<MemberSummaryModel>, part: Seq<char>, i: int, j: int)
    requires
        0 <= i < room.len(),
        0 <= j < room.len(),
        i != j,
        local(room[i].user_id) == part,
        local(room[j].user_id) == part,
    ensures
        sharing(room, part) >= 2,
    decreases room.len(),
{
    let n = room.len() - 1;
    let rest = room.drop_last();
    if i < n && j < n {
        lemma_sharing(rest, part, i, j);
    } else {
        let k = if i < n {
            i
        } else {
            j
        };
        lemma_shared(rest, part, k);
    }
}

proof fn lemma_shared(room: Seq<MemberSummaryModel>, part: Seq<char>, i: int)
    requires
        0 <= i < room.len(),
        local(room[i].user_id) == part,
    ensures
        sharing(room, part) >= 1,
    decreases room.len(),
{
    if i < room.len() - 1 {
        lemma_shared(room.drop_last(), part, i);
    }
}

/// The name that is written for a member names that member, in a room where no two IDs or
/// localparts differ in case alone.
pub proof fn law_a_written_name_names_its_member(room: Seq<MemberSummaryModel>, i: int)
    requires
        0 <= i < room.len(),
        forall|j: int| 0 <= j < room.len() ==> ordinary((#[trigger] room[j]).user_id),
        forall|j: int| 0 <= j < room.len() && j != i ==> !alike((#[trigger] room[j]).user_id, room[i].user_id),
        forall|j: int|
            0 <= j < room.len() && alike(local((#[trigger] room[j]).user_id), local(room[i].user_id)) ==> local(
                room[j].user_id,
            ) == local(room[i].user_id),
    ensures
        named(room, mention(room[i], room).skip(1)) == Some(room[i]),
{
    reveal_strlit("@");
    let id = room[i].user_id;
    let part = local(id);
    lemma_ordinary(id);
    if sharing(room, part) > 1 {
        let word = id.skip(1);
        assert forall|j: int| 0 <= j < room.len() && of_id(word)(#[trigger] room[j]) implies j == i by {
            let other = room[j].user_id;
            lemma_ordinary(other);
            if j != i {
                assert(alike(other, id)) by {
                    assert(ascii_lowered(other) =~= ascii_lowered(id)) by {
                        assert(ascii_lowered(other.skip(1)).len() == ascii_lowered(id.skip(1)).len());
                        assert forall|k: int| 0 <= k < ascii_lowered(other).len() implies ascii_lowered(other)[k]
                            == ascii_lowered(id)[k] by {
                            if k > 0 {
                                assert(ascii_lowered(other.skip(1))[k - 1] == ascii_lowered(id.skip(1))[k - 1]);
                                assert(other.skip(1)[k - 1] == other[k]);
                                assert(id.skip(1)[k - 1] == id[k]);
                            }
                        }
                    }
                }
            }
        }
        assert(of_id(word)(room[i]));
        assert(is_sole(room, of_id(word), i));
        lemma_sole(room, of_id(word), i);
    } else {
        let word = mention(room[i], room).skip(1);
        assert(word =~= part);
        assert forall|k: int| !is_sole(room, of_id(word), k) by {
            if is_sole(room, of_id(word), k) {
                lemma_ordinary(room[k].user_id);
                lemma_alike_colon(room[k].user_id.skip(1), word);
                assert(!part.contains(':'));
            }
        }
        assert(sole(room, of_id(word)) is None);
        assert forall|j: int| 0 <= j < room.len() && of_localpart(word)(#[trigger] room[j]) implies j == i by {
            if j != i {
                lemma_sharing(room, part, i, j);
            }
        }
        assert(of_localpart(word)(room[i]));
        assert(is_sole(room, of_localpart(word), i));
        lemma_sole(room, of_localpart(word), i);
    }
}

/// What the picker writes is read back: a message in which it stands, with a blank behind
/// it, mentions that member. A name that ends in punctuation is not read back, and is left
/// out.
pub proof fn law_a_picked_mention_is_read_back(
    room: Seq<MemberSummaryModel>,
    i: int,
    lead: Seq<char>,
    rest: Seq<char>,
)
    requires
        0 <= i < room.len(),
        forall|j: int| 0 <= j < room.len() ==> ordinary((#[trigger] room[j]).user_id),
        forall|j: int| 0 <= j < room.len() && j != i ==> !alike((#[trigger] room[j]).user_id, room[i].user_id),
        forall|j: int|
            0 <= j < room.len() && alike(local((#[trigger] room[j]).user_id), local(room[i].user_id)) ==> local(
                room[j].user_id,
            ) == local(room[i].user_id),
        !ends_sentence(mention(room[i], room).last()),
        lead.len() > 0 ==> is_space(lead.last()),
    ensures
        mentioned(room, lead + mention(room[i], room) + " "@ + rest).contains(room[i].user_id),
{
    reveal_strlit(" ");
    reveal_strlit("@");
    let id = room[i].user_id;
    let w = mention(room[i], room);
    lemma_ordinary(id);
    law_a_written_name_names_its_member(room, i);
    let name = w.skip(1);
    assert(w[0] == '@');
    assert(w.len() >= 2);
    assert(name.last() == w.last());
    assert(unpunctuated(name) == name);
    assert(mentioned_by(w) == Some(name));
    assert forall|k: int| 0 <= k < w.len() implies !is_space(#[trigger] w[k]) by {
        if sharing(room, local(id)) <= 1 && k > 0 {
            assert(w[k] == local(id)[k - 1]);
        }
    }
    let blank = w + seq![' '];
    let body = lead + w + " "@ + rest;
    lemma_one_word(Seq::empty(), w);
    assert(Seq::<char>::empty() + w =~= w);
    lemma_words_apart(Seq::empty(), blank, rest);
    let tail = blank + rest;
    assert(words(tail) =~= seq![w] + words(rest));
    assert(words(tail)[0] == w);
    let all = words(body);
    if lead.len() == 0 {
        assert(body =~= tail);
        lemma_name_among(all, 0, name);
    } else {
        lemma_words_apart(Seq::empty(), lead, tail);
        assert(body =~= lead + tail);
        assert(all =~= words(lead) + words(tail));
        assert(all[words(lead).len() as int] == w);
        lemma_name_among(all, words(lead).len() as int, name);
    }
    lemma_member_among(room, names_in(all), name);
}

/// Nobody is mentioned twice.
pub proof fn law_nobody_is_mentioned_twice(members: Seq<MemberSummaryModel>, body: Seq<char>)
    ensures
        mentioned(members, body).no_duplicates(),
{
    lemma_each_once(members, names_in(words(body)));
}

proof fn lemma_each_once(members: Seq<MemberSummaryModel>, names: Seq<Seq<char>>)
    ensures
        resolved_ids(members, names).no_duplicates(),
    decreases names.len(),
{
    if names.len() > 0 {
        lemma_each_once(members, names.drop_last());
    }
}

} // verus!
