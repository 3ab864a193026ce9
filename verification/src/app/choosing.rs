//! What is offered for what is typed, and who is meant by it.

use vstd::prelude::*;

use crate::app::emoji::{common_set, emoji_list, emoji_named, hit, resolved, search, EmojiModel, PickerModel};
use crate::app::keymap::{ascii_lowered, Action, Prefix};
use crate::app::mentions::{
    alike, ends_sentence, fit_of, fits, is_sole, local, mention, mentioned_by, named, names_in, ranked, resolved_ids,
    sharing, sole, unpunctuated, without_sigils, words, words_after,
};
use crate::app::palette::{
    best, by_penalty, command_table, keys_written, lighter, match_all, match_char, next_at, penalty, scored, Command,
    Matching, PaletteModel, COMMAND_COUNT,
};
use crate::layout::tiling::Dir;
use crate::matrix::model::MemberSummaryModel;
use crate::seqs::{law_sorting_orders, orders, sorted};
use crate::text::{before, has_text, is_space, lemma_before, lemma_before_is, lowercase};

verus! {

// -------------------------------------------------------------------------- fitting

/// Whether the characters of a query stand in a name in that order, with anything between them.
pub open spec fn scattered(query: Seq<char>, name: Seq<char>) -> bool
    decreases query.len(),
{
    query.len() == 0 || exists|j: int|
        0 <= j < name.len() && #[trigger] name[j] == query.last() && scattered(query.drop_last(), name.take(j))
}

proof fn lemma_next_at(name: Seq<char>, from: int, c: char)
    requires
        0 <= from <= name.len(),
    ensures
        match next_at(name, from, c) {
            Some(i) => from <= i < name.len() && name[i] == c && forall|j: int| from <= j < i ==> #[trigger] name[j] != c,
            None => forall|j: int| from <= j < name.len() ==> #[trigger] name[j] != c,
        },
{
    let rest = name.skip(from);
    lemma_before(rest, c);
    assert forall|j: int| from <= j < from + before(rest, c) implies #[trigger] name[j] != c by {
        assert(rest[j - from] != c);
    }
}

proof fn lemma_scattered(query: Seq<char>, name: Seq<char>, k: int)
    requires
        0 <= k <= name.len(),
    ensures
        scattered(query, name.take(k)) <==> match_all(name, query) is Some && match_all(name, query)->0.cursor <= k,
        match_all(name, query) is Some ==> 0 <= match_all(name, query)->0.cursor <= name.len(),
    decreases query.len(),
{
    if query.len() > 0 {
        let shorter = query.drop_last();
        let c = query.last();
        let part = name.take(k);
        lemma_scattered(shorter, name, name.len() as int);
        if let Some(m) = match_all(name, shorter) {
            lemma_next_at(name, m.cursor, c);
        }
        if scattered(query, part) {
            let j = choose|j: int|
                0 <= j < part.len() && #[trigger] part[j] == c && scattered(shorter, part.take(j));
            assert(part.take(j) =~= name.take(j));
            lemma_scattered(shorter, name, j);
            assert(name[j] == c);
        }
        if match_all(name, query) is Some && match_all(name, query)->0.cursor <= k {
            let i = match_all(name, query)->0.cursor - 1;
            lemma_scattered(shorter, name, i);
            assert(part.take(i) =~= name.take(i));
            assert(part[i] == c);
        }
    }
}

/// A query fits a name if and only if its characters stand in it in that order, whatever their
/// case in the name.
pub proof fn law_a_query_fits_where_its_letters_stand(name: Seq<char>, query: Seq<char>)
    ensures
        penalty(name, query) is Some <==> scattered(query, ascii_lowered(name)),
{
    let lowered = ascii_lowered(name);
    lemma_scattered(query, lowered, lowered.len() as int);
    assert(lowered.take(lowered.len() as int) =~= lowered);
}

proof fn lemma_match_beginning(name: Seq<char>, n: int)
    requires
        0 <= n <= name.len(),
    ensures
        match_all(name, name.take(n)) is Some,
        ({
            let m = match_all(name, name.take(n))->0;
            &&& m.cursor == n
            &&& m.strays == 0
            &&& m.gaps == 0
            &&& n == 0 ==> m.start is None && m.previous is None
            &&& n > 0 ==> m.start == Some(0int) && m.previous == Some(n - 1)
        }),
    decreases n,
{
    if n > 0 {
        lemma_match_beginning(name, n - 1);
        assert(name.take(n).drop_last() =~= name.take(n - 1));
        lemma_next_at(name, n - 1, name[n - 1]);
    }
}

/// The beginning of a name fits it without a fault.
pub proof fn law_a_beginning_fits_best(name: Seq<char>, n: int)
    requires
        0 <= n <= name.len(),
    ensures
        penalty(name, ascii_lowered(name).take(n)) == Some((0u16, 0u16, 0u16)),
{
    lemma_match_beginning(ascii_lowered(name), n);
}

/// Each further character that fits costs a stray where it begins no word and follows no match, and
/// a gap where it follows none; the first costs no gap.
pub proof fn law_each_fault_counts_once(m: Matching, name: Seq<char>, c: char)
    requires
        0 <= m.cursor <= name.len(),
        match_char(m, name, c) is Some,
    ensures
        ({
            let next = match_char(m, name, c)->0;
            let i = next.cursor - 1;
            let follows = m.previous is Some && m.previous->0 == i - 1;
            let begins = i == 0 || name[i - 1] == ' ' || name[i - 1] == '-';
            &&& m.cursor <= i < name.len()
            &&& name[i] == c
            &&& follows || begins ==> next.strays == m.strays
            &&& !follows && !begins ==> next.strays == m.strays + 1
            &&& follows || m.start is None ==> next.gaps == m.gaps
            &&& !follows && m.start is Some ==> next.gaps == m.gaps + 1
            &&& m.start is None ==> next.start == Some(i)
            &&& m.start is Some ==> next.start == m.start
            &&& next.previous == Some(i)
        }),
{
    lemma_next_at(name, m.cursor, c);
}

/// Strays weigh more than gaps, and gaps more than where the match begins.
pub proof fn law_faults_are_weighed(a: (u16, u16, u16), b: (u16, u16, u16))
    ensures
        a.0 < b.0 ==> lighter(a, b),
        a.0 == b.0 && a.1 < b.1 ==> lighter(a, b),
        a.0 == b.0 && a.1 == b.1 && a.2 < b.2 ==> lighter(a, b),
        lighter(a, b) ==> !lighter(b, a),
        !lighter(a, b) && !lighter(b, a) ==> a == b,
{
}

proof fn lemma_penalty_orders()
    ensures
        orders(by_penalty()),
{
}

proof fn lemma_scored(query: Seq<char>, n: nat, s: (u16, u16, u16, usize))
    requires
        n <= COMMAND_COUNT,
    ensures
        scored(query, n).contains(s) <==> s.3 < n && penalty(command_table()[s.3 as int].name@, query) == Some(
            (s.0, s.1, s.2),
        ),
    decreases n,
{
    if n > 0 {
        let rest = scored(query, (n - 1) as nat);
        let all = scored(query, n);
        lemma_scored(query, (n - 1) as nat, s);
        if all.contains(s) {
            let i = all.index_of(s);
            if i < rest.len() {
                assert(rest[i] == s);
            }
        }
        if rest.contains(s) {
            let i = rest.index_of(s);
            assert(all[i] == s);
        }
        if s.3 == n - 1 && penalty(command_table()[s.3 as int].name@, query) == Some((s.0, s.1, s.2)) {
            assert(all[all.len() - 1] == s);
        }
    }
}

/// The commands offered are those that the query fits, and no others.
pub proof fn law_the_fitting_commands_are_offered(query: Seq<char>, i: usize)
    ensures
        best(query).contains(i) <==> i < COMMAND_COUNT && penalty(command_table()[i as int].name@, query) is Some,
{
    broadcast use vstd::seq_lib::group_to_multiset_ensures;

    let all = scored(query, COMMAND_COUNT as nat);
    let ordered = sorted(all, by_penalty());
    lemma_penalty_orders();
    law_sorting_orders(all, by_penalty());
    if best(query).contains(i) {
        let k = best(query).index_of(i);
        assert(ordered.contains(ordered[k]));
        assert(all.to_multiset().count(ordered[k]) > 0);
        assert(all.contains(ordered[k]));
        lemma_scored(query, COMMAND_COUNT as nat, ordered[k]);
    }
    if i < COMMAND_COUNT && penalty(command_table()[i as int].name@, query) is Some {
        let p = penalty(command_table()[i as int].name@, query)->0;
        let s = (p.0, p.1, p.2, i);
        lemma_scored(query, COMMAND_COUNT as nat, s);
        assert(all.to_multiset().count(s) > 0);
        assert(ordered.contains(s));
        let k = ordered.index_of(s);
        assert(best(query)[k] == i);
    }
}

/// They are offered in the order of how well they fit.
pub proof fn law_the_best_fit_is_offered_first(query: Seq<char>, i: int, j: int)
    requires
        0 <= i < j < best(query).len(),
    ensures
        ({
            let a = penalty(command_table()[best(query)[i] as int].name@, query);
            let b = penalty(command_table()[best(query)[j] as int].name@, query);
            &&& a is Some
            &&& b is Some
            &&& !lighter(b->0, a->0)
        }),
{
    broadcast use vstd::seq_lib::group_to_multiset_ensures;

    let all = scored(query, COMMAND_COUNT as nat);
    let ordered = sorted(all, by_penalty());
    lemma_penalty_orders();
    law_sorting_orders(all, by_penalty());
    assert(!by_penalty()(ordered[j], ordered[i]));
    assert(ordered.contains(ordered[i]) && ordered.contains(ordered[j]));
    assert(all.to_multiset().count(ordered[i]) > 0 && all.to_multiset().count(ordered[j]) > 0);
    lemma_scored(query, COMMAND_COUNT as nat, ordered[i]);
    lemma_scored(query, COMMAND_COUNT as nat, ordered[j]);
}

/// The chosen command is the one on the highlighted row.
pub proof fn law_the_highlighted_command_is_chosen(p: PaletteModel)
    ensures
        p.selected < p.matches.len() && p.matches[p.selected as int] < COMMAND_COUNT ==> p.chosen() == Some(
            command_table()[p.matches[p.selected as int] as int],
        ),
        p.selected >= p.matches.len() ==> p.chosen() is None,
{
}

/// A command's keys are written with the prefix where they need it.
pub proof fn law_keys_are_written_with_their_prefix(command: Command, prefix: Prefix)
    requires
        command.keys@.len() > 0,
    ensures
        command.prefixed ==> keys_written(command, prefix) == prefix.written() + " "@ + command.keys@,
        !command.prefixed ==> keys_written(command, prefix) == command.keys@,
{
}

/// Every command that goes to a side says so.
pub proof fn law_a_command_says_its_side(i: int)
    requires
        0 <= i < COMMAND_COUNT,
    ensures
        ({
            let c = command_table()[i];
            &&& c.action == Action::Split(Dir::Right) <==> c.name == "split right"
            &&& c.action == Action::Split(Dir::Down) <==> c.name == "split down"
            &&& c.action == Action::FocusPane(Dir::Left) <==> c.name == "focus pane left"
            &&& c.action == Action::FocusPane(Dir::Down) <==> c.name == "focus pane down"
            &&& c.action == Action::FocusPane(Dir::Up) <==> c.name == "focus pane up"
            &&& c.action == Action::FocusPane(Dir::Right) <==> c.name == "focus pane right"
        }),
{
    reveal_strlit("split right");
}

// -------------------------------------------------------------------------- names

/// The local part of an id is what stands between its sign and its server.
pub proof fn law_the_local_part_of_an_id(name: Seq<char>, server: Seq<char>)
    requires
        !name.contains(':'),
    ensures
        local(seq!['@'] + name + seq![':'] + server) == name,
{
    let id = seq!['@'] + name + seq![':'] + server;
    let rest = id.skip(1);
    assert(rest =~= name + seq![':'] + server);
    lemma_before_is(rest, ':', name.len() as int);
    assert(rest.take(name.len() as int) =~= name);
}

/// Texts are alike where they differ in the case of ASCII letters at most.
pub proof fn law_alike_is_whatever_the_case(a: Seq<char>, b: Seq<char>, c: Seq<char>)
    ensures
        alike(a, a),
        alike(a, b) <==> alike(b, a),
        alike(a, b) && alike(b, c) ==> alike(a, c),
        alike(a, b) ==> a.len() == b.len(),
        forall|i: int|
            alike(a, b) && 0 <= i < a.len() && !('A' <= a[i] <= 'Z') && !('A' <= b[i] <= 'Z') ==> #[trigger] a[i] == b[i],
{
    assert(ascii_lowered(a).len() == a.len());
    assert(ascii_lowered(b).len() == b.len());
    assert forall|i: int|
        alike(a, b) && 0 <= i < a.len() && !('A' <= a[i] <= 'Z') && !('A' <= b[i] <= 'Z') implies #[trigger] a[i]
        == b[i] by {
        assert(ascii_lowered(a)[i] == ascii_lowered(b)[i]);
    }
}

/// A mention names its member by the local part, unless another in the room shares it: then by
/// the whole id.
pub proof fn law_a_shared_name_is_written_in_full(room: Seq<MemberSummaryModel>, member: MemberSummaryModel)
    ensures
        sharing(room, local(member.user_id)) <= 1 ==> mention(member, room) == "@"@ + local(member.user_id),
        sharing(room, local(member.user_id)) >= 2 ==> mention(member, room) == member.user_id,
{
}

/// Those who share a local part are counted one by one.
pub proof fn law_sharers_are_counted(room: Seq<MemberSummaryModel>, member: MemberSummaryModel, part: Seq<char>)
    ensures
        sharing(Seq::empty(), part) == 0,
        local(member.user_id) == part ==> sharing(room.push(member), part) == sharing(room, part) + 1,
        local(member.user_id) != part ==> sharing(room.push(member), part) == sharing(room, part),
{
    assert(room.push(member).drop_last() =~= room);
}

proof fn lemma_words_split(word: Seq<char>, a: Seq<char>, space: char, b: Seq<char>)
    requires
        is_space(space),
    ensures
        words_after(word, a + seq![space] + b) == words_after(word, a) + words(b),
    decreases a.len(),
{
    let s = a + seq![space] + b;
    if a.len() == 0 {
        assert(s.skip(1) =~= b);
        assert(s[0] == space);
        assert(Seq::<Seq<char>>::empty() + words(b) =~= words(b));
        if word.len() == 0 {
            assert(word =~= Seq::empty());
        }
    } else {
        assert(s.skip(1) =~= a.skip(1) + seq![space] + b);
        assert(s[0] == a[0]);
        if is_space(a[0]) {
            if word.len() == 0 {
                lemma_words_split(word, a.skip(1), space, b);
            } else {
                lemma_words_split(Seq::empty(), a.skip(1), space, b);
                assert(seq![word] + (words_after(Seq::empty(), a.skip(1)) + words(b)) =~= (seq![word] + words_after(
                    Seq::empty(),
                    a.skip(1),
                )) + words(b));
            }
        } else {
            lemma_words_split(word.push(a[0]), a.skip(1), space, b);
        }
    }
}

/// White space parts words, and nothing else does.
pub proof fn law_words_are_parted_by_space(a: Seq<char>, space: char, b: Seq<char>)
    requires
        is_space(space),
    ensures
        words(a + seq![space] + b) == words(a) + words(b),
        words(Seq::empty()).len() == 0,
{
    lemma_words_split(Seq::empty(), a, space, b);
}

/// What holds no white space is one word.
pub proof fn law_what_is_unbroken_is_one_word(s: Seq<char>)
    requires
        s.len() > 0,
        forall|i: int| 0 <= i < s.len() ==> !is_space(#[trigger] s[i]),
    ensures
        words(s) == seq![s],
{
    lemma_unbroken(Seq::empty(), s);
    assert(Seq::<char>::empty() + s =~= s);
}

proof fn lemma_unbroken(word: Seq<char>, s: Seq<char>)
    requires
        word.len() + s.len() > 0,
        forall|i: int| 0 <= i < s.len() ==> !is_space(#[trigger] s[i]),
    ensures
        words_after(word, s) == seq![word + s],
    decreases s.len(),
{
    if s.len() == 0 {
        assert(word + s =~= word);
    } else {
        assert forall|i: int| 0 <= i < s.skip(1).len() implies !is_space(#[trigger] s.skip(1)[i]) by {
            assert(!is_space(s[i + 1]));
        }
        assert(!is_space(s[0]));
        lemma_unbroken(word.push(s[0]), s.skip(1));
        assert(word.push(s[0]) + s.skip(1) =~= word + s);
    }
}

/// Marks at the end of a word are no part of a name, but a dash or an underscore may be.
pub proof fn law_marks_at_the_end_are_no_name(s: Seq<char>)
    ensures
        ({
            let r = unpunctuated(s);
            &&& r.len() <= s.len()
            &&& r == s.take(r.len() as int)
            &&& r.len() > 0 ==> !ends_sentence(r.last())
            &&& forall|i: int| r.len() <= i < s.len() ==> ends_sentence(#[trigger] s[i])
        }),
    decreases s.len(),
{
    if s.len() > 0 && ends_sentence(s.last()) {
        law_marks_at_the_end_are_no_name(s.drop_last());
        let r = unpunctuated(s.drop_last());
        assert(s.drop_last().take(r.len() as int) =~= s.take(r.len() as int));
        assert forall|i: int| r.len() <= i < s.len() implies ends_sentence(#[trigger] s[i]) by {
            if i < s.len() - 1 {
                assert(s.drop_last()[i] == s[i]);
            }
        }
    } else {
        assert(s.take(s.len() as int) =~= s);
    }
}

/// A word names someone where it begins with the sign and a name is left behind it.
pub proof fn law_a_word_names_someone_by_its_sign(word: Seq<char>)
    ensures
        mentioned_by(word) is Some ==> word[0] == '@' && mentioned_by(word)->0 == unpunctuated(word.skip(1))
            && mentioned_by(word)->0.len() > 0,
        word.len() > 0 && word[0] == '@' && unpunctuated(word.skip(1)).len() > 0 ==> mentioned_by(word) is Some,
{
}

/// The names in a text are those of its words, in their order.
pub proof fn law_names_come_in_order(all: Seq<Seq<char>>, word: Seq<char>)
    ensures
        names_in(Seq::empty()).len() == 0,
        mentioned_by(word) is Some ==> names_in(all.push(word)) == names_in(all).push(mentioned_by(word)->0),
        mentioned_by(word) is None ==> names_in(all.push(word)) == names_in(all),
{
    assert(all.push(word).drop_last() =~= all);
}

/// Whether a member is the only one in the room of whom something holds.
pub open spec fn alone(members: Seq<MemberSummaryModel>, i: int, test: spec_fn(MemberSummaryModel) -> bool) -> bool {
    &&& 0 <= i < members.len()
    &&& test(members[i])
    &&& forall|j: int| 0 <= j < members.len() && test(#[trigger] members[j]) ==> j == i
}

proof fn lemma_alone(members: Seq<MemberSummaryModel>, test: spec_fn(MemberSummaryModel) -> bool)
    ensures
        forall|i: int| #[trigger] alone(members, i, test) ==> sole(members, test) == Some(members[i]),
        (forall|i: int| !#[trigger] alone(members, i, test)) ==> sole(members, test) is None,
{
    assert forall|i: int| #[trigger] alone(members, i, test) implies sole(members, test) == Some(members[i]) by {
        assert(is_sole(members, test, i));
        let k = choose|k: int| is_sole(members, test, k);
        assert(is_sole(members, test, k));
        assert(k == i);
    }
    if forall|i: int| !#[trigger] alone(members, i, test) {
        assert forall|i: int| !is_sole(members, test, i) by {
            assert(!alone(members, i, test));
        }
    }
}

/// A name means the one member who has it as id; failing that, the one who has it as local part;
/// failing that, the one who is shown under it and under no name that others share. A name that
/// fits several means nobody.
pub proof fn law_a_name_means_one_member(members: Seq<MemberSummaryModel>, word: Seq<char>, i: int)
    ensures
        ({
            let by_id = |m: MemberSummaryModel| alike(without_sigils(m.user_id), word);
            let by_part = |m: MemberSummaryModel| alike(local(m.user_id), word);
            let by_name = |m: MemberSummaryModel| !m.ambiguous && alike(m.display_name, word);
            &&& alone(members, i, by_id) ==> named(members, word) == Some(members[i])
            &&& (forall|j: int| !#[trigger] alone(members, j, by_id)) && alone(members, i, by_part) ==> named(
                members,
                word,
            ) == Some(members[i])
            &&& (forall|j: int| !#[trigger] alone(members, j, by_id)) && (forall|j: int|
                !#[trigger] alone(members, j, by_part)) && alone(members, i, by_name) ==> named(members, word) == Some(
                members[i],
            )
            &&& (forall|j: int| !#[trigger] alone(members, j, by_id)) && (forall|j: int|
                !#[trigger] alone(members, j, by_part)) && (forall|j: int| !#[trigger] alone(members, j, by_name))
                ==> named(members, word) is None
        }),
{
    let by_id = |m: MemberSummaryModel| alike(without_sigils(m.user_id), word);
    let by_part = |m: MemberSummaryModel| alike(local(m.user_id), word);
    let by_name = |m: MemberSummaryModel| !m.ambiguous && alike(m.display_name, word);
    assert(by_id =~= crate::app::mentions::of_id(word));
    assert(by_part =~= crate::app::mentions::of_localpart(word));
    assert(by_name =~= crate::app::mentions::of_name(word));
    lemma_alone(members, by_id);
    lemma_alone(members, by_part);
    lemma_alone(members, by_name);
}

/// Who is mentioned is who the names mean, each once, in the order in which they are first named.
pub proof fn law_the_named_are_mentioned(members: Seq<MemberSummaryModel>, names: Seq<Seq<char>>, name: Seq<char>)
    ensures
        resolved_ids(members, Seq::empty()).len() == 0,
        ({
            let before = resolved_ids(members, names);
            let after = resolved_ids(members, names.push(name));
            match named(members, name) {
                Some(m) => after == (if before.contains(m.user_id) {
                    before
                } else {
                    before.push(m.user_id)
                }),
                None => after == before,
            }
        }),
{
    assert(names.push(name).drop_last() =~= names);
}

/// A member fits by the name shown or by the local part, whichever fits better.
pub proof fn law_a_member_fits_by_either_name(member: MemberSummaryModel, query: Seq<char>)
    ensures
        ({
            let a = penalty(member.display_name, lowercase(query));
            let b = penalty(local(member.user_id), lowercase(query));
            let r = fit_of(member, query);
            &&& r is Some <==> a is Some || b is Some
            &&& r is Some ==> r == a || r == b
            &&& r is Some && a is Some ==> !lighter(a->0, r->0)
            &&& r is Some && b is Some ==> !lighter(b->0, r->0)
        }),
{
}

proof fn lemma_fits(members: Seq<MemberSummaryModel>, query: Seq<char>, s: (u16, u16, u16, usize))
    requires
        members.len() <= usize::MAX,
    ensures
        fits(members, query).contains(s) <==> s.3 < members.len() && fit_of(members[s.3 as int], query) == Some(
            (s.0, s.1, s.2),
        ),
    decreases members.len(),
{
    if members.len() > 0 {
        let rest = members.drop_last();
        let some = fits(rest, query);
        let all = fits(members, query);
        lemma_fits(rest, query, s);
        if all.contains(s) {
            let i = all.index_of(s);
            if i < some.len() {
                assert(some[i] == s);
            }
        }
        if some.contains(s) {
            let i = some.index_of(s);
            assert(all[i] == s);
        }
        if s.3 == members.len() - 1 && fit_of(members[s.3 as int], query) == Some((s.0, s.1, s.2)) {
            assert(all[all.len() - 1] == s);
        }
    }
}

/// The members offered are those who fit, those who fit best first; all of them in their order
/// where nothing is asked for.
pub proof fn law_the_fitting_members_are_offered(
    members: Seq<MemberSummaryModel>,
    query: Seq<char>,
    k: usize,
    i: int,
    j: int,
)
    requires
        members.len() <= usize::MAX,
        query.len() > 0,
    ensures
        ranked(members, query).contains(k) <==> k < members.len() && fit_of(members[k as int], query) is Some,
        0 <= i < j < ranked(members, query).len() ==> {
            let a = fit_of(members[ranked(members, query)[i] as int], query);
            let b = fit_of(members[ranked(members, query)[j] as int], query);
            a is Some && b is Some && !lighter(b->0, a->0)
        },
{
    broadcast use vstd::seq_lib::group_to_multiset_ensures;

    let all = fits(members, query);
    let ordered = sorted(all, by_penalty());
    lemma_penalty_orders();
    law_sorting_orders(all, by_penalty());
    if ranked(members, query).contains(k) {
        let n = ranked(members, query).index_of(k);
        assert(ordered.contains(ordered[n]));
        assert(all.to_multiset().count(ordered[n]) > 0);
        lemma_fits(members, query, ordered[n]);
    }
    if k < members.len() && fit_of(members[k as int], query) is Some {
        let p = fit_of(members[k as int], query)->0;
        let s = (p.0, p.1, p.2, k);
        lemma_fits(members, query, s);
        assert(all.to_multiset().count(s) > 0);
        assert(ordered.contains(s));
        let n = ordered.index_of(s);
        assert(ranked(members, query)[n] == k);
    }
    if 0 <= i < j < ranked(members, query).len() {
        assert(!by_penalty()(ordered[j], ordered[i]));
        assert(ordered.contains(ordered[i]) && ordered.contains(ordered[j]));
        assert(all.to_multiset().count(ordered[i]) > 0 && all.to_multiset().count(ordered[j]) > 0);
        lemma_fits(members, query, ordered[i]);
        lemma_fits(members, query, ordered[j]);
    }
}

/// Where nothing is asked for, every member is offered, in order.
pub proof fn law_everyone_is_offered_at_first(members: Seq<MemberSummaryModel>, i: int)
    requires
        0 <= i < members.len() <= usize::MAX,
    ensures
        ranked(members, Seq::empty()).len() == members.len(),
        ranked(members, Seq::empty())[i] == i,
{
}

// -------------------------------------------------------------------------- emoji

/// The highlighted emoji is the chosen one.
pub proof fn law_the_highlighted_emoji_is_chosen(p: PickerModel)
    ensures
        p.selected < p.matches.len() ==> p.chosen() == Some(p.matches[p.selected as int].text),
        p.selected >= p.matches.len() ==> p.chosen() is None,
{
}

/// No more are offered than can be shown, and none is left out where all can be.
pub proof fn law_as_many_emoji_as_can_be_shown(table: Seq<EmojiModel>, query: Seq<char>, i: int)
    requires
        0 <= i < table.len(),
        hit(table[i], query),
        search(table, query).len() < 60,
    ensures
        search(table, query).contains(table[i]),
{
    let exact = table.filter(|e: EmojiModel| hit(e, query) && e.shortcodes.contains(query));
    let partial = table.filter(|e: EmojiModel| hit(e, query) && !e.shortcodes.contains(query));
    let all = exact + partial;
    assert(all.len() <= 60);
    if table[i].shortcodes.contains(query) {
        table.lemma_filter_contains(|e: EmojiModel| hit(e, query) && e.shortcodes.contains(query), i);
        let k = exact.index_of(table[i]);
        assert(all[k] == table[i]);
    } else {
        table.lemma_filter_contains(|e: EmojiModel| hit(e, query) && !e.shortcodes.contains(query), i);
        let k = partial.index_of(table[i]);
        assert(all[exact.len() + k] == table[i]);
    }
}

/// The list is never longer than can be shown.
pub proof fn law_emoji_lists_are_bounded(table: Seq<EmojiModel>, query: Seq<char>)
    ensures
        search(table, query).len() <= 60,
{
}

/// With nothing typed, every command is offered in the order of the table; what is typed is asked for
/// whatever its case.
pub proof fn law_every_command_is_offered_at_first(p: PaletteModel, query: Seq<char>, i: int)
    ensures
        PaletteModel::fresh().matches.len() == COMMAND_COUNT,
        0 <= i < COMMAND_COUNT ==> PaletteModel::fresh().matches[i] == i,
        PaletteModel::fresh().selected == 0,
        query.len() > 0 ==> p.asked(query).matches == best(lowercase(query)),
        p.asked(query).query == query,
        p.asked(query).selected == 0,
{
}

/// With nothing typed, the common emoji are offered; what is typed is looked for in all of them.
pub proof fn law_the_common_emoji_are_offered_at_first(p: PickerModel, query: Seq<char>)
    ensures
        p.asked(Seq::empty()).matches == resolved(common_set()),
        query.len() > 0 ==> p.asked(query).matches == search(emoji_list(usize::MAX), lowercase(query)),
        p.asked(query).query == query,
        p.asked(query).selected == 0,
        p.asked(query).target == p.target,
{
}

/// Those of the common ones that are known are offered, in their order.
pub proof fn law_known_emoji_are_kept_in_order(texts: Seq<Seq<char>>, text: Seq<char>)
    ensures
        resolved(Seq::empty()).len() == 0,
        emoji_named(text) is Some ==> resolved(texts.push(text)) == resolved(texts).push(emoji_named(text)->0),
        emoji_named(text) is None ==> resolved(texts.push(text)) == resolved(texts),
{
    assert(texts.push(text).drop_last() =~= texts);
}

/// An emoji is found by a part of a shortcode or of its name.
pub proof fn law_an_emoji_is_found_by_its_words(e: EmojiModel, query: Seq<char>)
    ensures
        hit(e, query) <==> has_text(lowercase(e.name), query) || exists|i: int|
            0 <= i < e.shortcodes.len() && has_text(#[trigger] e.shortcodes[i], query),
{
}

} // verus!
