//! What a reader takes for one character, and how many cells text takes.

use unicode_segmentation::UnicodeSegmentation;
use unicode_width::UnicodeWidthStr;
use vstd::prelude::*;

verus! {

/// The grapheme clusters of a text, in order.
pub uninterp spec fn graphemes(text: Seq<char>) -> Seq<Seq<char>>;

/// How many terminal cells a text takes.
pub uninterp spec fn display_width(text: Seq<char>) -> usize;

/// How many terminal cells a text takes, as a function.
pub open spec fn cells() -> spec_fn(Seq<char>) -> nat {
    |s: Seq<char>| display_width(s) as nat
}

/// Pieces put together.
pub open spec fn concat(pieces: Seq<Seq<char>>) -> Seq<char>
    decreases pieces.len(),
{
    if pieces.len() == 0 {
        Seq::empty()
    } else {
        concat(pieces.drop_last()) + pieces.last()
    }
}

/// Whether no piece is empty.
pub open spec fn all_nonempty(pieces: Seq<Seq<char>>) -> bool {
    forall|i: int| 0 <= i < pieces.len() ==> (#[trigger] pieces[i]).len() > 0
}

/// Whether what is before one of the cuts between these pieces, and what is behind it, are each
/// cut as they are here.
pub open spec fn cuts_apart(pieces: Seq<Seq<char>>) -> bool {
    forall|n: int| #![trigger pieces.take(n)]
        #![trigger pieces.skip(n)]
        0 <= n <= pieces.len() ==> graphemes(concat(pieces.take(n))) == pieces.take(n) && graphemes(
            concat(pieces.skip(n)),
        ) == pieces.skip(n)
}

/// Whether these are the pieces of a text: none is empty, together they are the text, and they
/// stay what they are when the text is cut between them.
pub open spec fn pieces_of(pieces: Seq<Seq<char>>, text: Seq<char>) -> bool {
    &&& concat(pieces) == text
    &&& all_nonempty(pieces)
    &&& cuts_apart(pieces)
}

/// `UnicodeSegmentation::graphemes`, extended clusters: the text cut into pieces. None is
/// empty, and together they are the text. Where the cuts fall is for Unicode to say; whether
/// there is one depends on the character behind it and on what is before it in its own piece, so
/// that a text cut at one of them falls into the same pieces.
#[verifier::external_body]
pub(crate) fn split_graphemes(text: &str) -> (r: Vec<String>)
    ensures
        r.deep_view() == graphemes(text@),
        pieces_of(r.deep_view(), text@),
{
    text.graphemes(true).map(str::to_owned).collect()
}

/// `UnicodeWidthStr::width`: how many cells the text takes.
#[verifier::external_body]
pub(crate) fn text_width(text: &str) -> (r: usize)
    ensures
        r == display_width(text@),
{
    UnicodeWidthStr::width(text)
}

/// The first pieces are no longer than all of them.
pub proof fn lemma_concat_take(pieces: Seq<Seq<char>>, n: int)
    requires
        0 <= n <= pieces.len(),
    ensures
        concat(pieces.take(n)).len() <= concat(pieces).len(),
        n < pieces.len() ==> concat(pieces.take(n + 1)) == concat(pieces.take(n)) + pieces[n],
        concat(pieces.take(n)) == concat(pieces).take(concat(pieces.take(n)).len() as int),
    decreases pieces.len() - n,
{
    if n < pieces.len() {
        lemma_concat_take(pieces, n + 1);
        assert(pieces.take(n + 1).drop_last() =~= pieces.take(n));
        let a = concat(pieces.take(n));
        assert(a =~= (a + pieces[n]).take(a.len() as int));
        assert(concat(pieces).take(a.len() as int) =~= concat(pieces).take((a + pieces[n]).len() as int).take(
            a.len() as int,
        ));
    } else {
        assert(pieces.take(n) =~= pieces);
        assert(concat(pieces).take(concat(pieces).len() as int) =~= concat(pieces));
    }
}

/// The pieces behind the first ones are the text behind them.
pub proof fn lemma_concat_skip(pieces: Seq<Seq<char>>, n: int)
    requires
        0 <= n <= pieces.len(),
    ensures
        concat(pieces) == concat(pieces.take(n)) + concat(pieces.skip(n)),
    decreases pieces.len(),
{
    if n < pieces.len() {
        let front = pieces.drop_last();
        lemma_concat_skip(front, n);
        assert(front.take(n) =~= pieces.take(n));
        assert(pieces.skip(n).drop_last() =~= front.skip(n));
        assert(pieces.skip(n).last() == pieces.last());
        assert(concat(pieces) =~= concat(pieces.take(n)) + concat(pieces.skip(n)));
    } else {
        assert(pieces.take(n) =~= pieces);
        assert(concat(pieces.skip(n)) =~= Seq::<char>::empty());
    }
}

/// All pieces but the last leave the text without the last.
pub proof fn lemma_concat_last(pieces: Seq<Seq<char>>)
    requires
        pieces.len() > 0,
    ensures
        concat(pieces).len() >= pieces.last().len(),
        pieces.last() == concat(pieces).skip(concat(pieces).len() - pieces.last().len()),
{
    let a = concat(pieces.drop_last());
    assert((a + pieces.last()).skip(a.len() as int) =~= pieces.last());
}

/// The first piece is where the text begins.
pub proof fn lemma_concat_first(pieces: Seq<Seq<char>>)
    requires
        pieces.len() > 0,
    ensures
        concat(pieces).len() >= pieces[0].len(),
        pieces[0] == concat(pieces).take(pieces[0].len() as int),
{
    lemma_concat_take(pieces, 0);
    lemma_concat_take(pieces, 1);
    assert(pieces.take(0) =~= Seq::empty());
    assert(concat(pieces.take(1)) =~= pieces[0]);
}

} // verus!
