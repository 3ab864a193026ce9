//! What is promised of texts, values and paths.

use vstd::prelude::*;

use crate::json::{named_at, JsonModel};
use crate::paths::joined;
use crate::text::{
    before, decimal, first_at, has_text, headline, is_space, join, lemma_before_is, lines, occurs_at, split_once,
    strip_return, text_less, trim, trim_end, trim_start,
};

verus! {

// -------------------------------------------------------------------------- numbers

/// The number that digits stand for, to a base.
pub open spec fn read_digits(s: Seq<char>, base: nat) -> nat
    decreases s.len(),
{
    if s.len() == 0 {
        0
    } else {
        read_digits(s.drop_last(), base) * base + (s.last() as u32 - '0' as u32) as nat
    }
}

/// A number in digits reads back as itself, and begins with no zero but for zero itself.
pub proof fn law_a_number_reads_back(n: nat)
    ensures
        read_digits(decimal(n), 10) == n,
        decimal(n).len() > 0,
        n > 0 ==> decimal(n)[0] != '0',
        forall|i: int| 0 <= i < decimal(n).len() ==> '0' <= #[trigger] decimal(n)[i] <= '9',
    decreases n,
{
    reveal_with_fuel(read_digits, 2);
    if n < 10 {
        assert(decimal(n).drop_last() =~= Seq::empty());
    } else {
        law_a_number_reads_back(n / 10);
        assert(decimal(n).drop_last() =~= decimal(n / 10));
        assert(decimal(n)[0] == decimal(n / 10)[0]);
        assert forall|i: int| 0 <= i < decimal(n).len() implies '0' <= #[trigger] decimal(n)[i] <= '9' by {
            if i < decimal(n / 10).len() {
                assert(decimal(n)[i] == decimal(n / 10)[i]);
            }
        }
    }
}

// -------------------------------------------------------------------------- texts

/// Trimming takes the white space off both ends, and nothing else.
pub proof fn law_trimming_takes_the_space_off(s: Seq<char>)
    ensures
        exists|a: int,
 b: int|
            {
                &&& 0 <= a <= b <= s.len()
                &&& trim(s) == #[trigger] s.subrange(a, b)
                &&& forall|i: int| 0 <= i < a ==> is_space(#[trigger] s[i])
                &&& forall|i: int| b <= i < s.len() ==> is_space(#[trigger] s[i])
            },
        trim(s).len() > 0 ==> !is_space(trim(s)[0]) && !is_space(trim(s).last()),
{
    let (a, t) = lemma_trim_start(s);
    let b = lemma_trim_end(t);
    assert(t.take(b) =~= s.subrange(a, a + b));
    assert(trim(s) == s.subrange(a, a + b));
    assert forall|i: int| a + b <= i < s.len() implies is_space(#[trigger] s[i]) by {
        assert(t[i - a] == s[i]);
    }
}

proof fn lemma_trim_start(s: Seq<char>) -> (r: (int, Seq<char>))
    ensures
        0 <= r.0 <= s.len(),
        r.1 == s.skip(r.0),
        trim_start(s) == r.1,
        forall|i: int| 0 <= i < r.0 ==> is_space(#[trigger] s[i]),
        r.1.len() > 0 ==> !is_space(r.1[0]),
    decreases s.len(),
{
    if s.len() > 0 && is_space(s[0]) {
        let (a, t) = lemma_trim_start(s.skip(1));
        assert(s.skip(1).skip(a) =~= s.skip(a + 1));
        assert forall|i: int| 0 <= i < a + 1 implies is_space(#[trigger] s[i]) by {
            if i > 0 {
                assert(s.skip(1)[i - 1] == s[i]);
            }
        }
        (a + 1, t)
    } else {
        assert(s.skip(0) =~= s);
        (0, s)
    }
}

proof fn lemma_trim_end(s: Seq<char>) -> (b: int)
    ensures
        0 <= b <= s.len(),
        trim_end(s) == s.take(b),
        forall|i: int| b <= i < s.len() ==> is_space(#[trigger] s[i]),
        b > 0 ==> !is_space(s[b - 1]),
    decreases s.len(),
{
    if s.len() > 0 && is_space(s.last()) {
        let b = lemma_trim_end(s.drop_last());
        assert(s.drop_last().take(b) =~= s.take(b));
        assert forall|i: int| b <= i < s.len() implies is_space(#[trigger] s[i]) by {
            if i < s.len() - 1 {
                assert(s.drop_last()[i] == s[i]);
            }
        }
        b
    } else {
        assert(s.take(s.len() as int) =~= s);
        s.len() as int
    }
}

/// Lines are parted by breaks, each of which may have a carriage return before it.
pub proof fn law_lines_are_parted_by_breaks(a: Seq<char>, b: Seq<char>)
    requires
        !a.contains('\n'),
    ensures
        lines(a + seq!['\n'] + b) == seq![strip_return(a)] + lines(b),
        a.len() > 0 ==> lines(a) == seq![a],
        a.len() == 0 ==> lines(a).len() == 0,
{
    let s = a + seq!['\n'] + b;
    assert forall|i: int| 0 <= i < a.len() implies s[i] != '\n' by {
        assert(a.contains(a[i]));
    }
    lemma_before_is(s, '\n', a.len() as int);
    assert(s.take(a.len() as int) =~= a);
    assert(s.skip(a.len() as int + 1) =~= b);
    assert forall|i: int| 0 <= i < a.len() implies a[i] != '\n' by {
        assert(a.contains(a[i]));
    }
    lemma_before_is(a, '\n', a.len() as int);
}

/// The headline of a text is its first line without the space around it.
pub proof fn law_a_headline_is_the_first_line(first: Seq<char>, rest: Seq<char>)
    requires
        !first.contains('\n'),
        first.len() > 0,
        first.last() != '\r',
    ensures
        headline(first) == trim(first),
        headline(first + seq!['\n'] + rest) == trim(first),
{
    law_lines_are_parted_by_breaks(first, rest);
    assert((seq![strip_return(first)] + lines(rest))[0] == first);
}

/// Parts are joined with the separator between them.
pub proof fn law_parts_are_joined(parts: Seq<Seq<char>>, part: Seq<char>, sep: Seq<char>)
    ensures
        join(seq![part], sep) == part,
        parts.len() > 0 ==> join(parts.push(part), sep) == join(parts, sep) + sep + part,
        join(Seq::empty(), sep).len() == 0,
{
    assert(parts.push(part).drop_last() =~= parts);
}

proof fn lemma_some_first_at(s: Seq<char>, pat: Seq<char>, i: int)
    requires
        occurs_at(s, pat, i),
    ensures
        exists|k: int| first_at(s, pat, k),
    decreases i,
{
    if exists|j: int| 0 <= j < i && occurs_at(s, pat, j) {
        let j = choose|j: int| 0 <= j < i && occurs_at(s, pat, j);
        lemma_some_first_at(s, pat, j);
    } else {
        assert(first_at(s, pat, i));
    }
}

/// A text is split at the first place where the pattern stands, and nowhere only where it stands
/// nowhere.
pub proof fn law_a_text_is_split_at_the_first_place(s: Seq<char>, pat: Seq<char>)
    ensures
        match split_once(s, pat) {
            Some((a, b)) => s == a + pat + b && forall|j: int| 0 <= j < a.len() ==> !#[trigger] occurs_at(s, pat, j),
            None => forall|j: int| !#[trigger] occurs_at(s, pat, j),
        },
        split_once(s, pat) is Some <==> has_text(s, pat),
{
    if exists|i: int| first_at(s, pat, i) {
        let i = choose|i: int| first_at(s, pat, i);
        assert(occurs_at(s, pat, i));
        assert(s =~= s.take(i) + s.subrange(i, i + pat.len()) + s.skip(i + pat.len()));
    } else {
        assert forall|j: int| !#[trigger] occurs_at(s, pat, j) by {
            if occurs_at(s, pat, j) {
                lemma_some_first_at(s, pat, j);
            }
        }
    }
}

/// Of two texts, the first character in which they differ decides; a text comes before one that
/// goes on behind it.
pub proof fn law_the_first_difference_decides(same: Seq<char>, a: Seq<char>, b: Seq<char>)
    ensures
        text_less(same + a, same + b) <==> text_less(a, b),
        a.len() > 0 && b.len() > 0 && a[0] < b[0] ==> text_less(a, b),
        a.len() > 0 && b.len() > 0 && b[0] < a[0] ==> !text_less(a, b),
        a.len() == 0 && b.len() > 0 ==> text_less(a, b),
        b.len() == 0 ==> !text_less(a, b),
    decreases same.len(),
{
    if same.len() == 0 {
        assert(same + a =~= a);
        assert(same + b =~= b);
    } else {
        law_the_first_difference_decides(same.skip(1), a, b);
        assert((same + a).skip(1) =~= same.skip(1) + a);
        assert((same + b).skip(1) =~= same.skip(1) + b);
    }
}

// -------------------------------------------------------------------------- values and paths

/// A member is found by its name, the first of that name; what is no object has none.
pub proof fn law_a_member_is_found_by_name(members: Seq<(Seq<char>, JsonModel)>, name: Seq<char>, i: int, other: JsonModel)
    ensures
        0 <= i < members.len() && members[i].0 == name && (forall|j: int| 0 <= j < i ==> (#[trigger] members[j]).0 != name)
            ==> JsonModel::Object(members).member(name) == Some(members[i].1),
        (forall|j: int| 0 <= j < members.len() ==> (#[trigger] members[j]).0 != name) ==> JsonModel::Object(
            members,
        ).member(name) is None,
        !(other is Object) ==> other.member(name) is None,
        other is Text <==> other.as_text() is Some,
        other is Text ==> other.as_text() == Some(other->Text_0),
{
    if exists|k: int| named_at(members, name, k) {
        let k = choose|k: int| named_at(members, name, k);
        assert(named_at(members, name, k));
        assert(members[k].0 == name);
        if 0 <= i < members.len() && members[i].0 == name && (forall|j: int|
            0 <= j < i ==> (#[trigger] members[j]).0 != name) {
            if k < i {
                assert(members[k].0 != name);
            }
            if i < k {
                assert(members[i].0 != name);
            }
        }
    } else if 0 <= i < members.len() && members[i].0 == name && (forall|j: int|
        0 <= j < i ==> (#[trigger] members[j]).0 != name) {
        assert(named_at(members, name, i));
    }
}

/// A path goes on below its directory, with one stroke between, unless it begins anew.
pub proof fn law_a_path_goes_on_below(dir: Seq<char>, leaf: Seq<char>)
    ensures
        leaf.len() > 0 && leaf[0] == '/' ==> joined(dir, leaf) == leaf,
        !(leaf.len() > 0 && leaf[0] == '/') && dir.len() > 0 && dir.last() != '/' ==> joined(dir, leaf) == dir.push('/')
            + leaf,
        !(leaf.len() > 0 && leaf[0] == '/') && (dir.len() == 0 || dir.last() == '/') ==> joined(dir, leaf) == dir + leaf,
{
    assert(dir + seq!['/'] =~= dir.push('/'));
}

} // verus!
