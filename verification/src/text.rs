//! Text as sequences of characters.
//!
//! A `String` is opaque to the prover but for its view, so anything that looks inside a
//! piece of text works on the `Vec<char>` that [`chars_of`] gives and turns the result
//! back with [`string_of`].

use vstd::prelude::*;
use vstd::string::*;
use vstd::utf8::{encode_scalar, encode_utf8};

verus! {

/// What `String::push` does: the character goes on the end.
pub assume_specification[ String::push ](s: &mut String, c: char)
    ensures
        final(s)@ == old(s)@.push(c),
;

/// The Unicode lower case of a text.
pub uninterp spec fn lowercase(s: Seq<char>) -> Seq<char>;

/// What `str::to_lowercase` gives: the text in lower case, as Unicode has it.
pub assume_specification[ str::to_lowercase ](s: &str) -> (r: String)
    ensures
        r@ == lowercase(s@),
;

/// The characters of `s`, in order.
pub fn chars_of(s: &str) -> (r: Vec<char>)
    ensures
        r@ == s@,
{
    let mut out: Vec<char> = Vec::new();
    for c in it: s.chars()
        invariant
            out@ == it.seq().take(it.index() as int),
            it.seq() == s@,
    {
        out.push(c);
    }
    out
}

/// The string that holds exactly these characters.
pub fn string_of(chars: &Vec<char>) -> (r: String)
    ensures
        r@ == chars@,
{
    let mut out = String::new();
    let mut i: usize = 0;
    while i < chars.len()
        invariant
            i <= chars.len(),
            out@ == chars@.take(i as int),
        decreases chars.len() - i,
    {
        out.push(chars[i]);
        i += 1;
    }
    out
}

/// Whether two pieces of text hold the same characters.
pub fn same(a: &str, b: &str) -> (r: bool)
    ensures
        r == (a@ == b@),
{
    a.to_owned() == b.to_owned()
}

/// Whether `s` begins with `prefix`.
pub fn starts_with(s: &str, prefix: &str) -> (r: bool)
    ensures
        r == prefix@.is_prefix_of(s@),
{
    let a = chars_of(s);
    let b = chars_of(prefix);
    if b.len() > a.len() {
        return false;
    }
    let mut i: usize = 0;
    while i < b.len()
        invariant
            i <= b.len() <= a.len(),
            a@ == s@,
            b@ == prefix@,
            forall|j: int| 0 <= j < i ==> a[j] == b[j],
        decreases b.len() - i,
    {
        if a[i] != b[i] {
            assert(s@.subrange(0, prefix@.len() as int)[i as int] != prefix@[i as int]);
            return false;
        }
        i += 1;
    }
    assert(prefix@ =~= s@.subrange(0, prefix@.len() as int));
    true
}

/// The character of a decimal digit.
pub open spec fn digit(d: int) -> char {
    if d == 0 {
        '0'
    } else if d == 1 {
        '1'
    } else if d == 2 {
        '2'
    } else if d == 3 {
        '3'
    } else if d == 4 {
        '4'
    } else if d == 5 {
        '5'
    } else if d == 6 {
        '6'
    } else if d == 7 {
        '7'
    } else if d == 8 {
        '8'
    } else {
        '9'
    }
}

/// A number in decimal, without leading zeros.
pub open spec fn decimal(n: nat) -> Seq<char>
    decreases n,
{
    if n < 10 {
        seq![digit(n as int)]
    } else {
        decimal(n / 10).push(digit((n % 10) as int))
    }
}

fn digit_char(d: u64) -> (r: char)
    requires
        d < 10,
    ensures
        r == digit(d as int),
{
    match d {
        0 => '0',
        1 => '1',
        2 => '2',
        3 => '3',
        4 => '4',
        5 => '5',
        6 => '6',
        7 => '7',
        8 => '8',
        _ => '9',
    }
}

/// A number in decimal.
pub fn decimal_text(n: u64) -> (r: String)
    ensures
        r@ == decimal(n as nat),
    decreases n,
{
    if n < 10 {
        let mut s = String::new();
        s.push(digit_char(n));
        assert(s@ =~= seq![digit(n as int)]);
        s
    } else {
        let mut s = decimal_text(n / 10);
        s.push(digit_char(n % 10));
        s
    }
}

/// A copy of a list of pairs of strings.
pub fn clone_pairs(pairs: &Vec<(String, String)>) -> (r: Vec<(String, String)>)
    ensures
        r.deep_view() == pairs.deep_view(),
{
    let mut out: Vec<(String, String)> = Vec::new();
    let mut i: usize = 0;
    while i < pairs.len()
        invariant
            i <= pairs.len(),
            out.deep_view() == pairs.deep_view().take(i as int),
        decreases pairs.len() - i,
    {
        let ghost before = out.deep_view();
        out.push((pairs[i].0.clone(), pairs[i].1.clone()));
        assert(out.deep_view() =~= before.push(pairs.deep_view()[i as int]));
        i += 1;
    }
    assert(pairs.deep_view().take(pairs.len() as int) =~= pairs.deep_view());
    out
}

// ---------------------------------------------------------------------------- slices

/// The characters from `from` up to, not including, `to`.
pub fn slice(s: &Vec<char>, from: usize, to: usize) -> (r: Vec<char>)
    requires
        from <= to <= s.len(),
    ensures
        r@ == s@.subrange(from as int, to as int),
{
    let mut out: Vec<char> = Vec::new();
    let mut i: usize = from;
    while i < to
        invariant
            from <= i <= to <= s.len(),
            out@ == s@.subrange(from as int, i as int),
        decreases to - i,
    {
        out.push(s[i]);
        assert(s@.subrange(from as int, i + 1) =~= s@.subrange(from as int, i as int).push(s@[i as int]));
        i += 1;
    }
    out
}

/// Whether two lists of characters are the same.
pub fn same_chars(a: &Vec<char>, b: &Vec<char>) -> (r: bool)
    ensures
        r == (a@ == b@),
{
    if a.len() != b.len() {
        return false;
    }
    let mut i: usize = 0;
    while i < a.len()
        invariant
            i <= a.len() == b.len(),
            forall|j: int| 0 <= j < i ==> a[j] == b[j],
        decreases a.len() - i,
    {
        if a[i] != b[i] {
            return false;
        }
        i += 1;
    }
    assert(a@ =~= b@);
    true
}

/// Put the characters of `b` behind those of `a`.
pub fn extend(a: &mut Vec<char>, b: &Vec<char>)
    ensures
        final(a)@ == old(a)@ + b@,
{
    let mut i: usize = 0;
    while i < b.len()
        invariant
            i <= b.len(),
            a@ == old(a)@ + b@.take(i as int),
        decreases b.len() - i,
    {
        a.push(b[i]);
        assert(b@.take(i + 1) =~= b@.take(i as int).push(b@[i as int]));
        i += 1;
    }
    assert(b@.take(b@.len() as int) =~= b@);
}

// ------------------------------------------------------------------------ whitespace

/// Whether a character has the Unicode property `White_Space`.
pub open spec fn is_space(c: char) -> bool {
    ||| '\u{9}' <= c <= '\u{d}'
    ||| c == ' '
    ||| c == '\u{85}'
    ||| c == '\u{a0}'
    ||| c == '\u{1680}'
    ||| '\u{2000}' <= c <= '\u{200a}'
    ||| c == '\u{2028}'
    ||| c == '\u{2029}'
    ||| c == '\u{202f}'
    ||| c == '\u{205f}'
    ||| c == '\u{3000}'
}

/// Whether a character has the Unicode property `White_Space`.
pub fn space(c: char) -> (r: bool)
    ensures
        r == is_space(c),
{
    ('\u{9}' <= c && c <= '\u{d}') || c == ' ' || c == '\u{85}' || c == '\u{a0}' || c == '\u{1680}' || ('\u{2000}'
        <= c && c <= '\u{200a}') || c == '\u{2028}' || c == '\u{2029}' || c == '\u{202f}' || c == '\u{205f}' || c
        == '\u{3000}'
}

/// The text without the white space it begins with.
pub open spec fn trim_start(s: Seq<char>) -> Seq<char>
    decreases s.len(),
{
    if s.len() > 0 && is_space(s[0]) {
        trim_start(s.skip(1))
    } else {
        s
    }
}

/// The text without the white space it ends with.
pub open spec fn trim_end(s: Seq<char>) -> Seq<char>
    decreases s.len(),
{
    if s.len() > 0 && is_space(s.last()) {
        trim_end(s.drop_last())
    } else {
        s
    }
}

/// The text without the white space around it.
pub open spec fn trim(s: Seq<char>) -> Seq<char> {
    trim_end(trim_start(s))
}

/// The text without the white space it begins with.
pub fn trimmed_start(s: &Vec<char>) -> (r: Vec<char>)
    ensures
        r@ == trim_start(s@),
{
    let mut i: usize = 0;
    assert(s@.skip(0) =~= s@);
    while i < s.len() && space(s[i])
        invariant
            i <= s.len(),
            trim_start(s@.skip(i as int)) == trim_start(s@),
        decreases s.len() - i,
    {
        assert(s@.skip(i as int).skip(1) =~= s@.skip(i + 1));
        i += 1;
    }
    assert(s@.skip(i as int) =~= s@.subrange(i as int, s@.len() as int));
    slice(s, i, s.len())
}

/// The text without the white space it ends with.
pub fn trimmed_end(s: &Vec<char>) -> (r: Vec<char>)
    ensures
        r@ == trim_end(s@),
{
    let mut n: usize = s.len();
    assert(s@.take(n as int) =~= s@);
    while n > 0 && space(s[n - 1])
        invariant
            n <= s.len(),
            trim_end(s@.take(n as int)) == trim_end(s@),
        decreases n,
    {
        assert(s@.take(n as int).drop_last() =~= s@.take(n - 1));
        n -= 1;
    }
    assert(s@.take(n as int) =~= s@.subrange(0, n as int));
    slice(s, 0, n)
}

/// The text without the white space around it.
pub fn trimmed(s: &Vec<char>) -> (r: Vec<char>)
    ensures
        r@ == trim(s@),
{
    trimmed_end(&trimmed_start(s))
}

// ----------------------------------------------------------------------------- lines

/// How many characters stand before the first `c`; all of them where there is none.
pub open spec fn before(s: Seq<char>, c: char) -> nat
    decreases s.len(),
{
    if s.len() == 0 || s[0] == c {
        0
    } else {
        1 + before(s.skip(1), c)
    }
}

/// What [`before`] counts.
pub proof fn lemma_before(s: Seq<char>, c: char)
    ensures
        before(s, c) <= s.len(),
        before(s, c) < s.len() ==> s[before(s, c) as int] == c,
        forall|i: int| 0 <= i < before(s, c) ==> s[i] != c,
    decreases s.len(),
{
    if s.len() > 0 && s[0] != c {
        lemma_before(s.skip(1), c);
        assert forall|i: int| 0 <= i < before(s, c) implies s[i] != c by {
            if i > 0 {
                assert(s.skip(1)[i - 1] == s[i]);
            }
        }
    }
}

/// The count is known from what it counts.
pub proof fn lemma_before_is(s: Seq<char>, c: char, n: int)
    requires
        0 <= n <= s.len(),
        n < s.len() ==> s[n] == c,
        forall|i: int| 0 <= i < n ==> s[i] != c,
    ensures
        before(s, c) == n,
{
    lemma_before(s, c);
    let b = before(s, c) as int;
    if b < n {
        assert(s[b] != c);
    }
}

/// A line without the carriage return that stood before its line feed.
pub open spec fn strip_return(s: Seq<char>) -> Seq<char> {
    if s.len() > 0 && s.last() == '\r' {
        s.drop_last()
    } else {
        s
    }
}

/// The lines of a text. A line ends at a line feed, with any carriage return right
/// before it; the last line needs no ending.
pub open spec fn lines(s: Seq<char>) -> Seq<Seq<char>>
    decreases s.len(),
{
    if s.len() == 0 {
        Seq::empty()
    } else if before(s, '\n') >= s.len() {
        seq![s]
    } else {
        seq![strip_return(s.take(before(s, '\n') as int))] + lines(s.skip(before(s, '\n') as int + 1))
    }
}

/// No line holds a line feed.
pub proof fn lemma_lines_hold_no_feed(s: Seq<char>)
    ensures
        forall|i: int, j: int| 0 <= i < lines(s).len() && 0 <= j < lines(s)[i].len() ==> lines(s)[i][j] != '\n',
    decreases s.len(),
{
    lemma_before(s, '\n');
    let n = before(s, '\n') as int;
    if s.len() > 0 && n < s.len() {
        let rest = s.skip(n + 1);
        lemma_lines_hold_no_feed(rest);
        assert forall|i: int, j: int| 0 <= i < lines(s).len() && 0 <= j < lines(s)[i].len() implies lines(s)[i][j]
            != '\n' by {
            if i > 0 {
                assert(lines(s)[i] == lines(rest)[i - 1]);
            } else {
                assert(lines(s)[i][j] == s[j]);
            }
        }
    }
}

/// A text that begins behind a line feed is read by itself.
pub proof fn lemma_lines_append(a: Seq<char>, b: Seq<char>)
    requires
        a.len() == 0 || a.last() == '\n',
    ensures
        lines(a + b) == lines(a) + lines(b),
    decreases a.len(),
{
    if a.len() == 0 {
        assert(a + b =~= b);
        assert(lines(a) + lines(b) =~= lines(b));
    } else {
        lemma_before(a, '\n');
        let n = before(a, '\n') as int;
        assert(n < a.len());
        lemma_before_is(a + b, '\n', n);
        let rest = a.skip(n + 1);
        assert((a + b).take(n) =~= a.take(n));
        assert((a + b).skip(n + 1) =~= rest + b);
        if rest.len() > 0 {
            assert(rest.last() == a.last());
        }
        lemma_lines_append(rest, b);
        let first = seq![strip_return(a.take(n))];
        assert(first + (lines(rest) + lines(b)) =~= (first + lines(rest)) + lines(b));
    }
}

/// A text without a line feed, with one behind it, is one line.
pub proof fn lemma_one_line(l: Seq<char>)
    requires
        !l.contains('\n'),
    ensures
        lines(l.push('\n')) == seq![strip_return(l)],
{
    let s = l.push('\n');
    assert forall|i: int| 0 <= i < l.len() implies s[i] != '\n' by {
        assert(l.contains(l[i]));
    }
    lemma_before_is(s, '\n', l.len() as int);
    assert(s.take(l.len() as int) =~= l);
    assert(s.skip(l.len() as int + 1) =~= Seq::<char>::empty());
    assert(lines(s.skip(l.len() as int + 1)) =~= Seq::<Seq<char>>::empty());
    assert(lines(s) =~= seq![strip_return(l)]);
}

/// The lines of a text. See [`lines`].
pub fn split_lines(s: &Vec<char>) -> (r: Vec<Vec<char>>)
    ensures
        r.deep_view() == lines(s@),
{
    let mut out: Vec<Vec<char>> = Vec::new();
    let mut start: usize = 0;
    assert(s@.skip(0) =~= s@);
    assert(out.deep_view() + lines(s@) =~= lines(s@));
    while start < s.len()
        invariant
            start <= s.len(),
            out.deep_view() + lines(s@.skip(start as int)) == lines(s@),
        decreases s.len() - start,
    {
        let ghost rest = s@.skip(start as int);
        let mut end: usize = start;
        while end < s.len() && s[end] != '\n'
            invariant
                start <= end <= s.len(),
                forall|i: int| start <= i < end ==> s[i] != '\n',
            decreases s.len() - end,
        {
            end += 1;
        }
        proof {
            lemma_before_is(rest, '\n', end - start);
        }
        let ghost prior = out.deep_view();
        if end == s.len() {
            let line = slice(s, start, end);
            assert(line@ =~= rest);
            assert(line.deep_view() =~= line@);
            out.push(line);
            proof {
                assert(out.deep_view() =~= prior.push(rest));
                assert(prior + seq![rest] =~= prior.push(rest));
                assert(s@.skip(s@.len() as int) =~= Seq::<char>::empty());
                assert(out.deep_view() + Seq::<Seq<char>>::empty() =~= out.deep_view());
            }
            start = end;
        } else {
            let stop: usize = if end > start && s[end - 1] == '\r' {
                end - 1
            } else {
                end
            };
            let line = slice(s, start, stop);
            proof {
                let whole = rest.take(end - start);
                assert(whole =~= s@.subrange(start as int, end as int));
                if stop < end {
                    assert(whole.last() == '\r');
                    assert(whole.drop_last() =~= line@);
                } else if whole.len() > 0 {
                    assert(whole.last() == s@[end - 1]);
                }
                assert(line@ =~= strip_return(whole));
                assert(rest.skip(end - start + 1) =~= s@.skip(end + 1));
            }
            assert(line.deep_view() =~= line@);
            out.push(line);
            proof {
                assert(out.deep_view() =~= prior.push(line@));
                assert(prior + (seq![line@] + lines(s@.skip(end + 1))) =~= prior.push(line@) + lines(
                    s@.skip(end + 1),
                ));
            }
            start = end + 1;
        }
    }
    assert(s@.skip(s@.len() as int) =~= Seq::<char>::empty());
    assert(out.deep_view() + Seq::<Seq<char>>::empty() =~= out.deep_view());
    out
}

/// Lines put together with a separator between them.
pub open spec fn join(parts: Seq<Seq<char>>, sep: Seq<char>) -> Seq<char>
    decreases parts.len(),
{
    if parts.len() == 0 {
        Seq::empty()
    } else if parts.len() == 1 {
        parts[0]
    } else {
        join(parts.drop_last(), sep) + sep + parts.last()
    }
}

/// Lines put together with a line feed between them.
pub fn joined_lines(parts: &Vec<Vec<char>>) -> (r: Vec<char>)
    ensures
        r@ == join(parts.deep_view(), seq!['\n']),
{
    let mut out: Vec<char> = Vec::new();
    let ghost all = parts.deep_view();
    let mut i: usize = 0;
    while i < parts.len()
        invariant
            i <= parts.len(),
            all == parts.deep_view(),
            out@ == join(all.take(i as int), seq!['\n']),
        decreases parts.len() - i,
    {
        let ghost prior = out@;
        if i > 0 {
            out.push('\n');
        }
        extend(&mut out, &parts[i]);
        proof {
            assert(all.take(i + 1).drop_last() =~= all.take(i as int));
            assert(all.take(i + 1).last() == all[i as int]);
            assert(parts@[i as int].deep_view() == parts@[i as int]@) by {
                assert(parts@[i as int].deep_view() =~= parts@[i as int]@);
            }
            if i == 0 {
                assert(out@ =~= all[0]);
            } else {
                assert(out@ =~= prior + seq!['\n'] + all[i as int]);
            }
        }
        i += 1;
    }
    assert(all.take(all.len() as int) =~= all);
    out
}

// --------------------------------------------------------------------------- finding

/// Whether `pat` stands in `s` at `i`.
pub open spec fn occurs_at(s: Seq<char>, pat: Seq<char>, i: int) -> bool {
    0 <= i && i + pat.len() <= s.len() && s.subrange(i, i + pat.len()) == pat
}

/// Whether `i` is the first place at which `pat` stands in `s`.
pub open spec fn first_at(s: Seq<char>, pat: Seq<char>, i: int) -> bool {
    occurs_at(s, pat, i) && forall|j: int| 0 <= j < i ==> !occurs_at(s, pat, j)
}

/// What stands before and after the first `pat`.
pub open spec fn split_once(s: Seq<char>, pat: Seq<char>) -> Option<(Seq<char>, Seq<char>)> {
    if exists|i: int| first_at(s, pat, i) {
        let i = choose|i: int| first_at(s, pat, i);
        Some((s.take(i), s.skip(i + pat.len())))
    } else {
        None
    }
}

/// Whether `pat` stands anywhere in `s`.
pub open spec fn has_text(s: Seq<char>, pat: Seq<char>) -> bool {
    exists|i: int| occurs_at(s, pat, i)
}

/// There is only one first place.
pub proof fn lemma_first_at(s: Seq<char>, pat: Seq<char>, i: int)
    requires
        first_at(s, pat, i),
    ensures
        split_once(s, pat) == Some((s.take(i), s.skip(i + pat.len()))),
        forall|j: int| first_at(s, pat, j) ==> j == i,
{
    assert forall|j: int| first_at(s, pat, j) implies j == i by {
        if j < i {
            assert(!occurs_at(s, pat, j));
        }
        if i < j {
            assert(!occurs_at(s, pat, i));
        }
    }
}

/// Whether `pat` stands in `s` at `i`.
pub fn stands_at(s: &Vec<char>, pat: &Vec<char>, i: usize) -> (r: bool)
    requires
        i <= s.len(),
    ensures
        r == occurs_at(s@, pat@, i as int),
{
    if pat.len() > s.len() - i {
        return false;
    }
    let mut k: usize = 0;
    while k < pat.len()
        invariant
            k <= pat.len(),
            i + pat.len() <= s.len(),
            forall|j: int| 0 <= j < k ==> s[i + j] == pat[j],
        decreases pat.len() - k,
    {
        if s[i + k] != pat[k] {
            assert(s@.subrange(i as int, i + pat@.len())[k as int] != pat@[k as int]);
            return false;
        }
        k += 1;
    }
    assert(s@.subrange(i as int, i + pat@.len()) =~= pat@);
    true
}

/// The first place at which `pat` stands in `s`.
pub fn find(s: &Vec<char>, pat: &Vec<char>) -> (r: Option<usize>)
    ensures
        match r {
            Some(i) => first_at(s@, pat@, i as int) && i + pat@.len() <= s@.len(),
            None => !has_text(s@, pat@) && split_once(s@, pat@) is None,
        },
{
    let mut i: usize = 0;
    while i < s.len()
        invariant
            i <= s.len(),
            forall|j: int| 0 <= j < i ==> !occurs_at(s@, pat@, j),
        decreases s.len() - i,
    {
        if stands_at(s, pat, i) {
            return Some(i);
        }
        i += 1;
    }
    if stands_at(s, pat, i) {
        return Some(i);
    }
    assert forall|j: int| !occurs_at(s@, pat@, j) by {
        if j >= 0 && j < i {
            assert(!occurs_at(s@, pat@, j));
        }
    }
    None
}

/// Whether `pat` stands anywhere in `s`.
pub fn contains(s: &Vec<char>, pat: &Vec<char>) -> (r: bool)
    ensures
        r == has_text(s@, pat@),
{
    match find(s, pat) {
        Some(i) => {
            assert(occurs_at(s@, pat@, i as int));
            true
        },
        None => false,
    }
}

// -------------------------------------------------------------------------- ordering

/// Whether one text comes before another, character by character.
pub open spec fn text_less(a: Seq<char>, b: Seq<char>) -> bool
    decreases a.len(),
{
    if b.len() == 0 {
        false
    } else if a.len() == 0 {
        true
    } else if a[0] != b[0] {
        a[0] < b[0]
    } else {
        text_less(a.skip(1), b.skip(1))
    }
}

/// Of two texts at most one comes before the other.
pub proof fn lemma_text_less_one_way(a: Seq<char>, b: Seq<char>)
    ensures
        text_less(a, b) ==> !text_less(b, a),
    decreases a.len(),
{
    if a.len() > 0 && b.len() > 0 && a[0] == b[0] {
        lemma_text_less_one_way(a.skip(1), b.skip(1));
    }
}

/// Not coming before is passed on.
pub proof fn lemma_text_less_not(a: Seq<char>, b: Seq<char>, c: Seq<char>)
    requires
        !text_less(a, b),
        !text_less(b, c),
    ensures
        !text_less(a, c),
    decreases a.len(),
{
    if a.len() > 0 && b.len() > 0 && c.len() > 0 && a[0] == b[0] && b[0] == c[0] {
        lemma_text_less_not(a.skip(1), b.skip(1), c.skip(1));
    }
}

/// Whether one text comes before another, character by character.
pub fn comes_before(a: &str, b: &str) -> (r: bool)
    ensures
        r == text_less(a@, b@),
{
    let x = chars_of(a);
    let y = chars_of(b);
    let mut i: usize = 0;
    assert(a@.skip(0) =~= a@);
    assert(b@.skip(0) =~= b@);
    while i < x.len() && i < y.len()
        invariant
            i <= x.len(),
            i <= y.len(),
            x@ == a@,
            y@ == b@,
            text_less(a@.skip(i as int), b@.skip(i as int)) == text_less(a@, b@),
        decreases x.len() - i,
    {
        assert(a@.skip(i as int)[0] == x[i as int]);
        assert(b@.skip(i as int)[0] == y[i as int]);
        if x[i] != y[i] {
            return x[i] < y[i];
        }
        assert(a@.skip(i as int).skip(1) =~= a@.skip(i + 1));
        assert(b@.skip(i as int).skip(1) =~= b@.skip(i + 1));
        i += 1;
    }
    i < y.len()
}

/// The first line of a text, without the whitespace round it.
pub open spec fn headline(body: Seq<char>) -> Seq<char> {
    if lines(body).len() == 0 {
        Seq::empty()
    } else {
        trim(lines(body)[0])
    }
}

/// The first line of a text, without the whitespace round it.
pub fn title_of(body: &str) -> (r: String)
    ensures
        r@ == headline(body@),
{
    let found = split_lines(&chars_of(body));
    if found.len() == 0 {
        return String::new();
    }
    assert(found@[0].deep_view() =~= found@[0]@);
    assert(found.deep_view()[0] == found@[0]@);
    string_of(&trimmed(&found[0]))
}

// ------------------------------------------------------------------------------ bytes

/// How many bytes the first `n` characters of a text take in UTF-8.
pub open spec fn byte_at(s: Seq<char>, n: int) -> int {
    encode_utf8(s.take(n)).len() as int
}

/// Whether this is the character that begins at a byte of a text, or its end.
pub open spec fn begins_at(s: Seq<char>, byte: int, n: int) -> bool {
    0 <= n <= s.len() && byte_at(s, n) == byte
}

/// The character that begins at a byte of a text, or its end; none where the byte is inside a
/// character.
pub open spec fn char_of(s: Seq<char>, byte: int) -> Option<int> {
    if exists|n: int| begins_at(s, byte, n) {
        Some(choose|n: int| begins_at(s, byte, n))
    } else {
        None
    }
}

/// A character more takes at least a byte more.
pub proof fn lemma_byte_step(s: Seq<char>, n: int)
    requires
        0 <= n < s.len(),
    ensures
        byte_at(s, n + 1) == byte_at(s, n) + encode_scalar(s[n] as u32).len(),
        byte_at(s, n) < byte_at(s, n + 1),
    decreases n,
{
    let longer = s.take(n + 1);
    let shorter = s.take(n);
    let rest = s.drop_first();
    if n == 0 {
        assert(longer.drop_first() =~= Seq::<char>::empty());
        assert(encode_utf8(longer.drop_first()).len() == 0);
    } else {
        lemma_byte_step(rest, n - 1);
        assert(longer.drop_first() =~= rest.take(n));
        assert(shorter.drop_first() =~= rest.take(n - 1));
    }
}

/// What comes later in a text begins at a later byte.
pub proof fn lemma_byte_order(s: Seq<char>, m: int, n: int)
    requires
        0 <= m < n <= s.len(),
    ensures
        byte_at(s, m) < byte_at(s, n),
    decreases n - m,
{
    lemma_byte_step(s, n - 1);
    if m < n - 1 {
        lemma_byte_order(s, m, n - 1);
    }
}

/// Only one character begins at a byte.
pub proof fn lemma_char_of(s: Seq<char>, n: int)
    requires
        0 <= n <= s.len(),
    ensures
        char_of(s, byte_at(s, n)) == Some(n),
{
    assert(begins_at(s, byte_at(s, n), n));
    let c = choose|m: int| begins_at(s, byte_at(s, n), m);
    if c < n {
        lemma_byte_order(s, c, n);
    }
    if n < c {
        lemma_byte_order(s, n, c);
    }
}

/// How many bytes the first `n` characters of a text take.
pub fn bytes_before(s: &str, n: usize) -> (r: usize)
    requires
        n <= s@.len(),
    ensures
        r == byte_at(s@, n as int),
{
    let start = s.substring_char(0, n);
    assert(start@ =~= s@.take(n as int));
    start.as_bytes().len()
}

fn byte_width(c: char) -> (r: usize)
    ensures
        r == encode_scalar(c as u32).len(),
{
    let v = c as u32;
    if v <= 0x7f {
        1
    } else if v <= 0x7ff {
        2
    } else if v <= 0xffff && !(0xd800 <= v && v <= 0xdfff) {
        3
    } else {
        4
    }
}

/// The character that begins at a byte of a text, or its end; none where the byte is inside a
/// character or behind the text.
pub fn char_at_byte(s: &str, byte: usize) -> (r: Option<usize>)
    ensures
        match r {
            Some(n) => char_of(s@, byte as int) == Some(n as int) && n <= s@.len(),
            None => char_of(s@, byte as int) is None,
        },
{
    let total = s.as_bytes().len();
    let chars = chars_of(s);
    let mut n: usize = 0;
    let mut at: usize = 0;
    assert(s@.take(s@.len() as int) =~= s@);
    while n < chars.len() && at < byte
        invariant
            n <= chars.len(),
            chars@ == s@,
            at == byte_at(s@, n as int),
            total == byte_at(s@, s@.len() as int),
            forall|m: int| 0 <= m < n ==> byte_at(s@, m) < byte,
        decreases chars.len() - n,
    {
        proof {
            lemma_byte_step(s@, n as int);
            if n + 1 < s@.len() {
                lemma_byte_order(s@, n + 1, s@.len() as int);
            }
        }
        at = at + byte_width(chars[n]);
        n += 1;
    }
    if at == byte {
        proof {
            lemma_char_of(s@, n as int);
        }
        Some(n)
    } else {
        proof {
            assert forall|m: int| !begins_at(s@, byte as int, m) by {
                if n < m && m <= s@.len() {
                    lemma_byte_order(s@, n as int, m);
                }
            }
        }
        None
    }
}

} // verus!
