//! Where the caret goes, and what is written and removed there.

use vstd::prelude::*;

use crate::app::composer::{
    back_over_blanks, behind_space, caret_in, first_row_of, fitting, line_end, line_start, offset_for_column,
    over_blanks, run_end, run_start, shows, taken_by_row, word_end, word_start, ComposerModel, Row,
};
use crate::app::graphemes::{concat, display_width, graphemes, lemma_concat_first, lemma_concat_last, pieces_of};
use crate::seqs::{first_where, lemma_first_where};
use crate::text::is_space;

verus! {

// -------------------------------------------------------------------------- lines and words

/// The line of a place begins behind the nearest break before it.
pub proof fn law_a_line_begins_behind_a_break(text: Seq<char>, n: int)
    requires
        0 <= n <= text.len(),
    ensures
        0 <= line_start(text, n) <= n,
        line_start(text, n) == 0 || text[line_start(text, n) - 1] == '\n',
        forall|i: int| line_start(text, n) <= i < n ==> #[trigger] text[i] != '\n',
    decreases n,
{
    if n > 0 && text[n - 1] != '\n' {
        law_a_line_begins_behind_a_break(text, n - 1);
    }
}

/// It ends at the nearest break behind it.
pub proof fn law_a_line_ends_at_a_break(text: Seq<char>, n: int)
    requires
        0 <= n <= text.len(),
    ensures
        n <= line_end(text, n) <= text.len(),
        line_end(text, n) == text.len() || text[line_end(text, n)] == '\n',
        forall|i: int| n <= i < line_end(text, n) ==> #[trigger] text[i] != '\n',
    decreases text.len() - n,
{
    if n < text.len() && text[n] != '\n' {
        law_a_line_ends_at_a_break(text, n + 1);
    }
}

proof fn lemma_run_start(text: Seq<char>, n: int)
    requires
        0 <= n <= text.len(),
    ensures
        0 <= run_start(text, n) <= n,
        run_start(text, n) == 0 || is_space(text[run_start(text, n) - 1]),
        forall|i: int| run_start(text, n) <= i < n ==> !is_space(#[trigger] text[i]),
    decreases n,
{
    if n > 0 && !is_space(text[n - 1]) {
        lemma_run_start(text, n - 1);
    }
}

proof fn lemma_run_end(text: Seq<char>, n: int)
    requires
        0 <= n <= text.len(),
    ensures
        n <= run_end(text, n) <= text.len(),
        run_end(text, n) == text.len() || is_space(text[run_end(text, n)]),
        forall|i: int| n <= i < run_end(text, n) ==> !is_space(#[trigger] text[i]),
    decreases text.len() - n,
{
    if n < text.len() && !is_space(text[n]) {
        lemma_run_end(text, n + 1);
    }
}

proof fn lemma_back_over_blanks(text: Seq<char>, n: int)
    requires
        0 <= n <= text.len(),
    ensures
        ({
            let m = back_over_blanks(text, n);
            &&& 0 <= m <= n
            &&& m == 0 || !is_space(text[m - 1]) || text[m - 1] == '\n'
            &&& forall|i: int| m <= i < n ==> is_space(#[trigger] text[i]) && text[i] != '\n'
        }),
    decreases n,
{
    if n > 0 && is_space(text[n - 1]) && text[n - 1] != '\n' {
        lemma_back_over_blanks(text, n - 1);
    }
}

proof fn lemma_over_blanks(text: Seq<char>, n: int)
    requires
        0 <= n <= text.len(),
    ensures
        ({
            let m = over_blanks(text, n);
            &&& n <= m <= text.len()
            &&& m == text.len() || (text[m] != ' ' && text[m] != '\t')
            &&& forall|i: int| n <= i < m ==> #[trigger] text[i] == ' ' || text[i] == '\t'
        }),
    decreases text.len() - n,
{
    if n < text.len() && (text[n] == ' ' || text[n] == '\t') {
        lemma_over_blanks(text, n + 1);
    }
}

/// A word back from a place: past the blanks before it, which stay in the line, then to where the
/// word before them begins.
pub proof fn law_a_word_back(text: Seq<char>, n: int)
    requires
        0 <= n <= text.len(),
    ensures
        ({
            let w = word_start(text, n);
            &&& 0 <= w <= n
            &&& w == 0 || is_space(text[w - 1])
            &&& exists|m: int|
                {
                    &&& w <= m <= n
                    &&& #[trigger] unbroken(text, w, m)
                    &&& blank_between(text, m, n)
                    &&& w == m ==> w == 0 || text[w - 1] == '\n'
                }
        }),
{
    let m = back_over_blanks(text, n);
    lemma_back_over_blanks(text, n);
    lemma_run_start(text, m);
    assert(unbroken(text, word_start(text, n), m));
    if word_start(text, n) == m && m > 0 {
        assert(is_space(text[m - 1]));
    }
}

/// A word on from a place: past the blanks behind it, then to where the word behind them ends.
pub proof fn law_a_word_on(text: Seq<char>, n: int)
    requires
        0 <= n <= text.len(),
    ensures
        ({
            let w = word_end(text, n);
            &&& n <= w <= text.len()
            &&& w == text.len() || is_space(text[w])
            &&& exists|m: int|
                {
                    &&& n <= m <= w
                    &&& #[trigger] unbroken(text, m, w)
                    &&& forall|i: int| n <= i < m ==> #[trigger] text[i] == ' ' || text[i] == '\t'
                    &&& m == text.len() || (text[m] != ' ' && text[m] != '\t')
                }
        }),
{
    let m = over_blanks(text, n);
    lemma_over_blanks(text, n);
    lemma_run_end(text, m);
    assert(unbroken(text, m, word_end(text, n)));
}

/// Whether no white space stands between two places.
pub open spec fn unbroken(text: Seq<char>, from: int, to: int) -> bool {
    forall|i: int| from <= i < to ==> !is_space(#[trigger] text[i])
}

/// Whether nothing but white space in one line stands between two places.
pub open spec fn blank_between(text: Seq<char>, from: int, to: int) -> bool {
    forall|i: int| from <= i < to ==> is_space(#[trigger] text[i]) && text[i] != '\n'
}

// -------------------------------------------------------------------------- one step

/// A step left goes over the last cluster of what is before the caret, and a step right over the
/// first cluster of what is behind it.
pub proof fn law_a_step_is_one_cluster(c: ComposerModel)
    requires
        0 <= c.cursor <= c.text.len(),
        pieces_of(graphemes(c.text.take(c.cursor)), c.text.take(c.cursor)),
        pieces_of(graphemes(c.text.skip(c.cursor)), c.text.skip(c.cursor)),
    ensures
        c.cursor > 0 ==> 0 <= c.left().cursor < c.cursor && c.text.subrange(c.left().cursor, c.cursor) == graphemes(
            c.text.take(c.cursor),
        ).last(),
        c.cursor == 0 ==> c.left() == c,
        c.cursor < c.text.len() ==> c.cursor < c.right().cursor <= c.text.len() && c.text.subrange(
            c.cursor,
            c.right().cursor,
        ) == graphemes(c.text.skip(c.cursor))[0],
        c.cursor == c.text.len() ==> c.right() == c,
        c.left().text == c.text,
        c.right().text == c.text,
{
    let before = graphemes(c.text.take(c.cursor));
    let behind = graphemes(c.text.skip(c.cursor));
    assert(concat(before).len() == c.cursor);
    assert(concat(behind).len() == c.text.len() - c.cursor);
    if before.len() > 0 {
        lemma_concat_last(before);
        assert(before[before.len() - 1].len() > 0);
        assert(c.text.subrange(c.left().cursor, c.cursor) =~= before.last());
    }
    if behind.len() > 0 {
        lemma_concat_first(behind);
        assert(behind[0].len() > 0);
        assert(c.text.subrange(c.cursor, c.right().cursor) =~= behind[0]);
    }
}

/// Removing backwards takes what a step left goes over; removing forwards what a step right goes
/// over, and leaves the caret where it is.
pub proof fn law_removing_is_one_step(c: ComposerModel)
    requires
        0 <= c.cursor <= c.text.len(),
        pieces_of(graphemes(c.text.take(c.cursor)), c.text.take(c.cursor)),
        pieces_of(graphemes(c.text.skip(c.cursor)), c.text.skip(c.cursor)),
    ensures
        c.backspace().text == c.text.take(c.left().cursor) + c.text.skip(c.cursor),
        c.backspace().cursor == c.left().cursor,
        c.delete().text == c.text.take(c.cursor) + c.text.skip(c.right().cursor),
        c.delete().cursor == c.cursor,
        c.backspace().history == c.history,
        c.delete().history == c.history,
{
    law_a_step_is_one_cluster(c);
    assert(c.backspace().text =~= c.text.take(c.left().cursor) + c.text.skip(c.cursor));
    assert(c.delete().text =~= c.text.take(c.cursor) + c.text.skip(c.right().cursor));
}

// -------------------------------------------------------------------------- up and down

/// How many cells some pieces take.
pub open spec fn measured(pieces: Seq<Seq<char>>, measure: spec_fn(Seq<char>) -> nat) -> nat
    decreases pieces.len(),
{
    if pieces.len() == 0 {
        0
    } else {
        measured(pieces.drop_last(), measure) + measure(pieces.last())
    }
}

proof fn lemma_measured_first(pieces: Seq<Seq<char>>, measure: spec_fn(Seq<char>) -> nat)
    requires
        pieces.len() > 0,
    ensures
        measured(pieces, measure) == measure(pieces[0]) + measured(pieces.skip(1), measure),
    decreases pieces.len(),
{
    if pieces.len() > 1 {
        lemma_measured_first(pieces.drop_last(), measure);
        assert(pieces.drop_last().skip(1) =~= pieces.skip(1).drop_last());
        assert(pieces.skip(1).last() == pieces.last());
    } else {
        assert(pieces.drop_last() =~= Seq::empty());
        assert(pieces.skip(1) =~= Seq::empty());
    }
}

/// The place in a line for a column is behind as many whole clusters as stand before that column:
/// one more would reach past it.
pub proof fn law_a_column_is_kept(
    pieces: Seq<Seq<char>>,
    used: nat,
    column: nat,
    measure: spec_fn(Seq<char>) -> nat,
)
    ensures
        exists|k: int|
            {
                &&& 0 <= k <= pieces.len()
                &&& fitting(pieces, used, column, measure) == concat(#[trigger] pieces.take(k)).len()
                &&& k > 0 ==> used + measured(pieces.take(k), measure) <= column
                &&& k < pieces.len() ==> used + measured(pieces.take(k + 1), measure) > column
            },
    decreases pieces.len(),
{
    reveal_with_fuel(measured, 2);
    reveal_with_fuel(concat, 2);
    if pieces.len() == 0 {
        assert(pieces.take(0) =~= Seq::empty());
    } else if used + measure(pieces[0]) > column {
        assert(pieces.take(0) =~= Seq::empty());
        assert(pieces.take(1).drop_last() =~= Seq::empty());
        assert(measured(pieces.take(1), measure) == measure(pieces[0]));
    } else {
        let rest = pieces.skip(1);
        let on = used + measure(pieces[0]);
        law_a_column_is_kept(rest, on, column, measure);
        let k = choose|k: int|
            {
                &&& 0 <= k <= rest.len()
                &&& fitting(rest, on, column, measure) == concat(#[trigger] rest.take(k)).len()
                &&& k > 0 ==> on + measured(rest.take(k), measure) <= column
                &&& k < rest.len() ==> on + measured(rest.take(k + 1), measure) > column
            };
        let all = pieces.take(k + 1);
        assert(all.skip(1) =~= rest.take(k));
        lemma_measured_first(all, measure);
        crate::app::graphemes::lemma_concat_skip(all, 1);
        assert(all.take(1).drop_last() =~= Seq::empty());
        assert(concat(all.take(1)) =~= pieces[0]);
        assert(fitting(pieces, used, column, measure) == concat(pieces.take(k + 1)).len());
        if k == 0 {
            assert(rest.take(0) =~= Seq::empty());
        }
        if k < rest.len() {
            assert(pieces.take(k + 2).skip(1) =~= rest.take(k + 1));
            lemma_measured_first(pieces.take(k + 2), measure);
        }
    }
}

/// Up goes into the line above, and down into the line below, at the place for the column that the
/// caret is in. In the first line there is no way up, in the last none down.
pub proof fn law_up_and_down_go_by_lines(c: ComposerModel)
    requires
        0 <= c.cursor <= c.text.len(),
    ensures
        ({
            let a = line_start(c.text, c.cursor);
            let b = line_end(c.text, c.cursor);
            let column = display_width(c.text.subrange(a, c.cursor)) as nat;
            &&& a == 0 ==> c.up() == c
            &&& b == c.text.len() ==> c.down() == c
            &&& a > 0 ==> {
                let p = line_start(c.text, a - 1);
                c.up().cursor == p + offset_for_column(c.text.subrange(p, a - 1), column)
            }
            &&& b < c.text.len() ==> {
                let q = line_end(c.text, b + 1);
                c.down().cursor == b + 1 + offset_for_column(c.text.subrange(b + 1, q), column)
            }
            &&& c.up().text == c.text
            &&& c.down().text == c.text
        }),
{
    law_a_line_begins_behind_a_break(c.text, c.cursor);
    law_a_line_ends_at_a_break(c.text, c.cursor);
}

// -------------------------------------------------------------------------- history

/// Going back shows the message sent before, the last one first; going on shows the one sent
/// after, and behind the last what had been written.
pub proof fn law_history_is_walked_in_order(c: ComposerModel)
    requires
        c.ok(),
    ensures
        c.history.len() == 0 ==> c.history_prev() == c,
        c.history.len() > 0 && c.browsing is None ==> c.history_prev().text == c.history.last()
            && c.history_prev().stashed == Some(c.text),
        c.browsing is Some && c.browsing->0 > 0 ==> c.history_prev().text == c.history[c.browsing->0 - 1]
            && c.history_prev().browsing == Some(c.browsing->0 - 1) && c.history_prev().stashed == c.stashed,
        c.browsing is Some && c.browsing->0 == 0 ==> c.history_prev() == c,
        c.browsing is None ==> c.history_next() == c,
        c.browsing is Some && c.browsing->0 + 1 < c.history.len() ==> c.history_next().text
            == c.history[c.browsing->0 + 1] && c.history_next().browsing == Some(c.browsing->0 + 1),
        c.browsing is Some && c.browsing->0 + 1 == c.history.len() ==> c.history_next().browsing is None && (
        c.stashed is Some ==> c.history_next().text == c.stashed->0),
        c.history_prev() != c ==> c.history_prev().cursor == c.history_prev().text.len(),
        c.history_next() != c ==> c.history_next().cursor == c.history_next().text.len(),
        c.history_prev().history == c.history,
        c.history_next().history == c.history,
{
}

/// A text that is set replaces what was there, and the caret is at its end.
pub proof fn law_a_set_text_is_there(c: ComposerModel, text: Seq<char>)
    ensures
        c.set_text(text).text == text,
        c.set_text(text).cursor == text.len(),
        c.set_text(text).history == c.history,
        c.set_text(text).browsing is None,
{
}

// -------------------------------------------------------------------------- mentions

/// A mention is being typed where the word before the caret begins with its sign and holds no
/// other: it is asked for what follows the sign.
pub proof fn law_a_mention_is_typed(c: ComposerModel, start: int)
    requires
        0 <= start < c.cursor <= c.text.len(),
        start == 0 || is_space(c.text[start - 1]),
        unbroken(c.text, start, c.cursor),
    ensures
        c.text[start] == '@' && !c.text.subrange(start + 1, c.cursor).contains('@') <==> c.mention_typed() is Some,
        c.mention_typed() is Some ==> c.mention_typed() == Some((start, c.text.subrange(start + 1, c.cursor))),
{
    lemma_run_start(c.text, c.cursor);
    let s = run_start(c.text, c.cursor);
    assert(s == start) by {
        if s < start {
            assert(is_space(c.text[start - 1]));
        }
        if s > start {
            assert(!is_space(c.text[s - 1]));
        }
    }
    assert(c.text.subrange(start, c.cursor).skip(1) =~= c.text.subrange(start + 1, c.cursor));
}

// -------------------------------------------------------------------------- rows

proof fn lemma_taken_by_row(pieces: Seq<Seq<char>>, from: nat, width: nat, measure: spec_fn(Seq<char>) -> nat)
    requires
        from <= pieces.len(),
    ensures
        ({
            let n = taken_by_row(pieces, from, width, measure);
            &&& from <= n <= pieces.len()
            &&& from == 0 && pieces.len() > 0 ==> n > 0
            &&& forall|k: int| from < k <= n && k > 1 ==> measure(concat(#[trigger] pieces.take(k))) <= width
            &&& n < pieces.len() ==> measure(concat(pieces.take(n as int + 1))) > width
        }),
    decreases pieces.len() - from,
{
    if from < pieces.len() && (from == 0 || measure(concat(pieces.take(from as int + 1))) <= width) {
        lemma_taken_by_row(pieces, from + 1, width, measure);
    }
}

proof fn lemma_behind_space(pieces: Seq<Seq<char>>, n: nat)
    requires
        n <= pieces.len(),
    ensures
        behind_space(pieces, n) <= n,
        behind_space(pieces, n) > 0 ==> pieces[behind_space(pieces, n) - 1] == seq![' '],
        forall|i: int| behind_space(pieces, n) <= i < n ==> #[trigger] pieces[i] != seq![' '],
    decreases n,
{
    if n > 0 && pieces[n - 1] != seq![' '] {
        lemma_behind_space(pieces, (n - 1) as nat);
    }
}

/// A row holds as much of the line as fits, and at least one cluster. Where the line goes on, the
/// row ends behind its last space, or, having none, is full: the next cluster would not fit.
pub proof fn law_a_row_is_filled(pieces: Seq<Seq<char>>, width: nat, measure: spec_fn(Seq<char>) -> nat)
    requires
        pieces.len() > 0,
    ensures
        ({
            let n = first_row_of(pieces, width, measure);
            &&& 0 < n <= pieces.len()
            &&& n > 1 ==> measure(concat(pieces.take(n as int))) <= width
            &&& n < pieces.len() ==> exists|m: nat|
                {
                    &&& n <= m < pieces.len()
                    &&& measure(concat(#[trigger] pieces.take(m as int + 1))) > width
                    &&& n < m ==> pieces[n - 1] == seq![' ']
                    &&& forall|i: int| n <= i < m ==> #[trigger] pieces[i] != seq![' ']
                    &&& forall|k: int| 1 < k <= m ==> measure(concat(#[trigger] pieces.take(k))) <= width
                }
        }),
{
    let m = taken_by_row(pieces, 0, width, measure);
    lemma_taken_by_row(pieces, 0, width, measure);
    lemma_behind_space(pieces, m);
    let n = first_row_of(pieces, width, measure);
    if n < pieces.len() {
        assert(measure(concat(pieces.take(m as int + 1))) > width);
    }
}

/// The caret is drawn in the first row that shows its place, as many cells in as the text before
/// it in that row takes.
pub proof fn law_the_caret_is_drawn_where_it_is(rows: Seq<Row>, text: Seq<char>, cursor: int, i: int)
    requires
        0 <= i < rows.len() <= u16::MAX,
        rows[i].start <= cursor,
        cursor < rows[i].end || (cursor == rows[i].end && rows[i].last),
        forall|j: int| 0 <= j < i ==> !((#[trigger] rows[j]).start <= cursor && (cursor < rows[j].end || (cursor
            == rows[j].end && rows[j].last))),
        display_width(text.subrange(rows[i].start as int, cursor)) <= u16::MAX,
    ensures
        caret_in(rows, text, cursor).0 == i,
        caret_in(rows, text, cursor).1 == display_width(text.subrange(rows[i].start as int, cursor)),
{
    let test = shows(cursor);
    lemma_first_where(rows, test);
    assert(test(rows[i]));
    let k = first_where(rows, test)->0;
    if k < i {
        assert(test(rows[k]));
    }
    if i < k {
        assert(!test(rows[i]));
    }
}

} // verus!
