//! The message composer.
//!
//! A text buffer with a caret, per-instance history, and enough editing to hold a
//! conversation. One composer per view, so a half-written message survives switching
//! room and coming back.
//!
//! Editing is by grapheme rather than by character throughout. Taking the last character
//! off an emoji would delete its variation selector and leave a broken cluster on screen.
//! The caret is kept as a number of characters and told as a number of bytes.

use vstd::prelude::*;
use vstd::string::*;

use crate::app::graphemes::{
    all_nonempty, cells, concat, display_width, graphemes, lemma_concat_first, lemma_concat_last, lemma_concat_skip,
    lemma_concat_take, pieces_of, split_graphemes, text_width,
};
use crate::seqs::{first_where, lemma_first, lemma_no_first};
use crate::text::{
    before, byte_at, bytes_before, char_at_byte, char_of, chars_of, extend, is_space, lemma_char_of, slice, space,
    string_of, trim, trimmed,
};

verus! {

/// How many sent messages to remember per view.
pub const HISTORY_LIMIT: usize = 100;

/// A text buffer with a caret.
#[derive(Debug)]
pub struct Composer {
    text: String,
    /// Caret position, in characters.
    cursor: usize,
    /// Previously sent messages, oldest first.
    history: Vec<String>,
    /// Position while browsing history. `None` means editing live text.
    browsing: Option<usize>,
    /// Live text, parked while browsing history so it can be restored.
    stashed: Option<String>,
}

/// The mathematical content of a [`Composer`].
#[verifier::ext_equal]
pub struct ComposerModel {
    pub text: Seq<char>,
    pub cursor: int,
    pub history: Seq<Seq<char>>,
    pub browsing: Option<int>,
    pub stashed: Option<Seq<char>>,
}

impl View for Composer {
    type V = ComposerModel;

    closed spec fn view(&self) -> ComposerModel {
        ComposerModel {
            text: self.text@,
            cursor: self.cursor as int,
            history: self.history.deep_view(),
            browsing: match self.browsing {
                Some(i) => Some(i as int),
                None => None,
            },
            stashed: self.stashed.deep_view(),
        }
    }
}

impl DeepView for Composer {
    type V = ComposerModel;

    open spec fn deep_view(&self) -> ComposerModel {
        self@
    }
}

// ------------------------------------------------------------------------- positions

/// Where the line that holds place `n` begins.
pub open spec fn line_start(text: Seq<char>, n: int) -> int
    decreases n,
{
    if n <= 0 {
        0
    } else if text[n - 1] == '\n' {
        n
    } else {
        line_start(text, n - 1)
    }
}

/// Where the line that holds place `n` ends.
pub open spec fn line_end(text: Seq<char>, n: int) -> int
    decreases text.len() - n,
{
    if n >= text.len() {
        text.len() as int
    } else if text[n] == '\n' {
        n
    } else {
        line_end(text, n + 1)
    }
}

/// Where the run of characters that ends at `n` begins: right behind the last white
/// space.
pub open spec fn run_start(text: Seq<char>, n: int) -> int
    decreases n,
{
    if n <= 0 {
        0
    } else if is_space(text[n - 1]) {
        n
    } else {
        run_start(text, n - 1)
    }
}

/// Where the run of characters that begins at `n` ends: at the next white space.
pub open spec fn run_end(text: Seq<char>, n: int) -> int
    decreases text.len() - n,
{
    if n >= text.len() {
        text.len() as int
    } else if is_space(text[n]) {
        n
    } else {
        run_end(text, n + 1)
    }
}

/// Back over white space, but not over a line break.
pub open spec fn back_over_blanks(text: Seq<char>, n: int) -> int
    decreases n,
{
    if n > 0 && is_space(text[n - 1]) && text[n - 1] != '\n' {
        back_over_blanks(text, n - 1)
    } else {
        n
    }
}

/// On over spaces and tabs.
pub open spec fn over_blanks(text: Seq<char>, n: int) -> int
    decreases text.len() - n,
{
    if n < text.len() && (text[n] == ' ' || text[n] == '\t') {
        over_blanks(text, n + 1)
    } else {
        n
    }
}

/// Where the word before `n` begins.
pub open spec fn word_start(text: Seq<char>, n: int) -> int {
    run_start(text, back_over_blanks(text, n))
}

/// Where the next word from `n` ends.
pub open spec fn word_end(text: Seq<char>, n: int) -> int {
    run_end(text, over_blanks(text, n))
}

/// The place one grapheme before `n`.
pub open spec fn boundary_before(text: Seq<char>, n: int) -> Option<int> {
    last_piece(graphemes(text.take(n)), n)
}

/// The place one grapheme behind `n`.
pub open spec fn boundary_after(text: Seq<char>, n: int) -> Option<int> {
    first_piece(graphemes(text.skip(n)), n)
}

/// Whether a place is between two graphemes of a text, or at one of its ends.
pub open spec fn is_boundary(text: Seq<char>, n: int) -> bool {
    exists|k: int|
        0 <= k <= graphemes(text).len() && n == concat(#[trigger] graphemes(text).take(k)).len()
}

/// Where the last of these pieces, which end at `n`, begins.
pub open spec fn last_piece(pieces: Seq<Seq<char>>, n: int) -> Option<int> {
    if pieces.len() == 0 {
        None
    } else {
        Some(n - pieces.last().len())
    }
}

/// Where the first of these pieces, which begin at `n`, ends.
pub open spec fn first_piece(pieces: Seq<Seq<char>>, n: int) -> Option<int> {
    if pieces.len() == 0 {
        None
    } else {
        Some(n + pieces[0].len())
    }
}

/// How many characters of these pieces fit in `column` cells, `used` of which are taken.
pub open spec fn fitting(pieces: Seq<Seq<char>>, used: nat, column: nat, measure: spec_fn(Seq<char>) -> nat) -> nat
    decreases pieces.len(),
{
    if pieces.len() == 0 || used + measure(pieces[0]) > column {
        0
    } else {
        pieces[0].len() + fitting(pieces.skip(1), used + measure(pieces[0]), column, measure)
    }
}

/// The display column of a place within its line.
pub open spec fn column_of(text: Seq<char>, n: int) -> nat {
    display_width(text.subrange(line_start(text, n), n)) as nat
}

/// The place in a line closest to a column without exceeding it.
pub open spec fn offset_for_column(line: Seq<char>, column: nat) -> nat {
    fitting(graphemes(line), 0, column, cells())
}

/// A text with the part from `from` to `to` replaced.
pub open spec fn splice(text: Seq<char>, from: int, to: int, with: Seq<char>) -> Seq<char> {
    text.take(from) + with + text.skip(to)
}

proof fn lemma_places(text: Seq<char>, n: int)
    requires
        0 <= n <= text.len(),
    ensures
        0 <= line_start(text, n) <= n,
        n <= line_end(text, n) <= text.len(),
        0 <= run_start(text, n) <= n,
        n <= run_end(text, n) <= text.len(),
        0 <= back_over_blanks(text, n) <= n,
        n <= over_blanks(text, n) <= text.len(),
{
    lemma_places_back(text, n);
    lemma_places_on(text, n);
}

proof fn lemma_places_back(text: Seq<char>, n: int)
    requires
        0 <= n <= text.len(),
    ensures
        0 <= line_start(text, n) <= n,
        0 <= run_start(text, n) <= n,
        0 <= back_over_blanks(text, n) <= n,
    decreases n,
{
    if n > 0 {
        lemma_places_back(text, n - 1);
    }
}

proof fn lemma_places_on(text: Seq<char>, n: int)
    requires
        0 <= n <= text.len(),
    ensures
        n <= line_end(text, n) <= text.len(),
        n <= run_end(text, n) <= text.len(),
        n <= over_blanks(text, n) <= text.len(),
    decreases text.len() - n,
{
    if n < text.len() {
        lemma_places_on(text, n + 1);
    }
}

proof fn lemma_fitting(pieces: Seq<Seq<char>>, used: nat, column: nat, measure: spec_fn(Seq<char>) -> nat)
    ensures
        fitting(pieces, used, column, measure) <= concat(pieces).len(),
    decreases pieces.len(),
{
    if pieces.len() > 0 {
        lemma_fitting(pieces.skip(1), used + measure(pieces[0]), column, measure);
        lemma_concat_split(pieces);
    }
}

proof fn lemma_concat_split(pieces: Seq<Seq<char>>)
    requires
        pieces.len() > 0,
    ensures
        concat(pieces) == pieces[0] + concat(pieces.skip(1)),
    decreases pieces.len(),
{
    if pieces.len() == 1 {
        assert(pieces.drop_last() =~= Seq::empty());
        assert(pieces.skip(1) =~= Seq::empty());
        assert(concat(pieces) =~= pieces[0] + concat(pieces.skip(1)));
    } else {
        lemma_concat_split(pieces.drop_last());
        assert(pieces.drop_last().skip(1) =~= pieces.skip(1).drop_last());
        assert(concat(pieces) =~= pieces[0] + concat(pieces.skip(1)));
    }
}

fn find_line_start(text: &Vec<char>, from: usize) -> (r: usize)
    requires
        from <= text.len(),
    ensures
        r == line_start(text@, from as int),
        r <= from,
{
    let mut n = from;
    while n > 0 && text[n - 1] != '\n'
        invariant
            n <= from <= text.len(),
            line_start(text@, n as int) == line_start(text@, from as int),
        decreases n,
    {
        n -= 1;
    }
    n
}

fn find_line_end(text: &Vec<char>, from: usize) -> (r: usize)
    requires
        from <= text.len(),
    ensures
        r == line_end(text@, from as int),
        from <= r <= text.len(),
{
    let mut n = from;
    while n < text.len() && text[n] != '\n'
        invariant
            from <= n <= text.len(),
            line_end(text@, n as int) == line_end(text@, from as int),
        decreases text.len() - n,
    {
        n += 1;
    }
    n
}

fn find_run_start(text: &Vec<char>, from: usize) -> (r: usize)
    requires
        from <= text.len(),
    ensures
        r == run_start(text@, from as int),
        r <= from,
{
    let mut n = from;
    while n > 0 && !space(text[n - 1])
        invariant
            n <= from <= text.len(),
            run_start(text@, n as int) == run_start(text@, from as int),
        decreases n,
    {
        n -= 1;
    }
    n
}

fn find_word_start(text: &Vec<char>, from: usize) -> (r: usize)
    requires
        from <= text.len(),
    ensures
        r == word_start(text@, from as int),
        r <= from,
{
    let mut n = from;
    while n > 0 && space(text[n - 1]) && text[n - 1] != '\n'
        invariant
            n <= from <= text.len(),
            back_over_blanks(text@, n as int) == back_over_blanks(text@, from as int),
        decreases n,
    {
        n -= 1;
    }
    find_run_start(text, n)
}

fn find_word_end(text: &Vec<char>, from: usize) -> (r: usize)
    requires
        from <= text.len(),
    ensures
        r == word_end(text@, from as int),
        from <= r <= text.len(),
{
    let mut n = from;
    while n < text.len() && (text[n] == ' ' || text[n] == '\t')
        invariant
            from <= n <= text.len(),
            over_blanks(text@, n as int) == over_blanks(text@, from as int),
        decreases text.len() - n,
    {
        n += 1;
    }
    let ghost gap = n;
    while n < text.len() && !space(text[n])
        invariant
            from <= gap <= n <= text.len(),
            run_end(text@, n as int) == run_end(text@, gap as int),
        decreases text.len() - n,
    {
        n += 1;
    }
    n
}

/// How many characters of these graphemes fit in a number of cells. `measure` is told by
/// `cells_of`.
pub fn fit<W: Fn(&str) -> usize>(
    pieces: &Vec<String>,
    column: usize,
    measure: W,
    Ghost(cells_of): Ghost<spec_fn(Seq<char>) -> nat>,
) -> (r: usize)
    requires
        forall|s: &str| #[trigger] measure.requires((s,)),
        forall|s: &str, w: usize| #[trigger] measure.ensures((s,), w) ==> w == cells_of(s@),
        concat(pieces.deep_view()).len() <= usize::MAX,
    ensures
        r == fitting(pieces.deep_view(), 0, column as nat, cells_of),
        r <= concat(pieces.deep_view()).len(),
{
    let ghost all = pieces.deep_view();
    let mut i: usize = 0;
    let mut used: usize = 0;
    let mut offset: usize = 0;
    assert(all.skip(0) =~= all);
    assert(all.take(0) =~= Seq::empty());
    proof {
        lemma_fitting(all, 0, column as nat, cells_of);
    }
    while i < pieces.len()
        invariant
            forall|s: &str| #[trigger] measure.requires((s,)),
            forall|s: &str, w: usize| #[trigger] measure.ensures((s,), w) ==> w == cells_of(s@),
            i <= pieces.len(),
            all == pieces.deep_view(),
            concat(all).len() <= usize::MAX,
            offset == concat(all.take(i as int)).len(),
            offset + fitting(all.skip(i as int), used as nat, column as nat, cells_of) == fitting(
                all,
                0,
                column as nat,
                cells_of,
            ),
            fitting(all, 0, column as nat, cells_of) <= concat(all).len(),
        decreases pieces.len() - i,
    {
        let piece = pieces[i].as_str();
        proof {
            assert(all.skip(i as int)[0] == piece@);
            assert(all.skip(i as int).skip(1) =~= all.skip(i + 1));
            lemma_concat_take(all, i as int);
            lemma_concat_take(all, i + 1);
        }
        match used.checked_add(measure(piece)) {
            None => {
                return offset;
            },
            Some(next) => {
                if next > column {
                    return offset;
                }
                used = next;
            },
        }
        offset += piece.unicode_len();
        i += 1;
    }
    assert(all.skip(all.len() as int) =~= Seq::empty());
    offset
}

fn cells_wide(text: &str) -> (r: usize)
    ensures
        r == cells()(text@),
{
    text_width(text)
}

// --------------------------------------------------------------------------- editing

/// What holds of every history: it is no longer than the limit, and no message stands in it
/// twice in a row.
pub open spec fn well_kept(history: Seq<Seq<char>>) -> bool {
    &&& history.len() <= HISTORY_LIMIT
    &&& forall|i: int, j: int|
        0 <= i && j == i + 1 && j < history.len() ==> #[trigger] history[i] != #[trigger] history[j]
}

impl ComposerModel {
    /// What holds of every composer: the caret is in the text, and the message being
    /// browsed is one of those remembered.
    pub open spec fn ok(self) -> bool {
        &&& 0 <= self.cursor <= self.text.len()
        &&& self.browsing is Some ==> 0 <= self.browsing->0 < self.history.len()
        &&& well_kept(self.history)
    }

    /// A composer in which nothing has been written.
    pub open spec fn empty() -> ComposerModel {
        ComposerModel { text: Seq::empty(), cursor: 0, history: Seq::empty(), browsing: None, stashed: None }
    }

    /// The whole buffer replaced, the caret at the end.
    pub open spec fn set_text(self, text: Seq<char>) -> ComposerModel {
        ComposerModel { text, cursor: text.len() as int, browsing: None, stashed: None, ..self }
    }

    /// Editing a recalled message detaches it from the history entry.
    pub open spec fn stop_browsing(self) -> ComposerModel {
        if self.browsing is Some {
            ComposerModel { browsing: None, stashed: None, ..self }
        } else {
            self
        }
    }

    /// The part from `from` to the caret replaced, the caret behind what replaces it.
    pub open spec fn replace(self, from: int, with: Seq<char>) -> ComposerModel {
        ComposerModel {
            text: splice(self.text, from, self.cursor, with),
            cursor: from + with.len(),
            ..self.stop_browsing()
        }
    }

    /// One more character at the caret.
    pub open spec fn insert(self, c: char) -> ComposerModel {
        self.replace(self.cursor, seq![c])
    }

    /// The mention being typed at the caret: which character its `@` is, and what is behind
    /// it. The `@` has to begin a word, and a second one means that no name is being typed.
    pub open spec fn mention_typed(self) -> Option<(int, Seq<char>)> {
        let start = run_start(self.text, self.cursor);
        let run = self.text.subrange(start, self.cursor);
        if run.len() > 0 && run[0] == '@' && !run.skip(1).contains('@') {
            Some((start, run.skip(1)))
        } else {
            None
        }
    }

    /// The mention being typed at the caret: at which byte its `@` stands, and what is
    /// behind it.
    pub open spec fn mention_query(self) -> Option<(int, Seq<char>)> {
        match self.mention_typed() {
            Some((n, query)) => Some((byte_at(self.text, n), query)),
            None => None,
        }
    }

    /// The mention that begins at the byte `from` replaced; nothing where `from` is behind
    /// the caret, or inside a character.
    pub open spec fn replace_mention(self, from: int, with: Seq<char>) -> ComposerModel {
        match char_of(self.text, from) {
            Some(n) => if n <= self.cursor {
                self.replace(n, with)
            } else {
                self
            },
            None => self,
        }
    }

    /// The grapheme before the caret deleted.
    pub open spec fn backspace(self) -> ComposerModel {
        match boundary_before(self.text, self.cursor) {
            Some(start) => self.replace(start, Seq::empty()),
            None => self.stop_browsing(),
        }
    }

    /// The grapheme at the caret deleted.
    pub open spec fn delete(self) -> ComposerModel {
        match boundary_after(self.text, self.cursor) {
            Some(end) => ComposerModel {
                text: splice(self.text, self.cursor, end, Seq::empty()),
                ..self.stop_browsing()
            },
            None => self.stop_browsing(),
        }
    }

    /// The word before the caret deleted, and the white space attached to it.
    pub open spec fn delete_word(self) -> ComposerModel {
        self.replace(word_start(self.text, self.cursor), Seq::empty())
    }

    /// Everything from the start of the line to the caret deleted.
    pub open spec fn delete_to_line_start(self) -> ComposerModel {
        self.replace(line_start(self.text, self.cursor), Seq::empty())
    }

    /// What is remembered once a message has been sent: an immediate repeat is not
    /// recorded, and the oldest goes when there are too many.
    pub open spec fn remembered(self, body: Seq<char>) -> Seq<Seq<char>> {
        if self.history.len() > 0 && self.history.last() == body {
            self.history
        } else if self.history.len() + 1 > HISTORY_LIMIT {
            self.history.push(body).skip(1)
        } else {
            self.history.push(body)
        }
    }

    /// The composer once its text has been taken for sending.
    pub open spec fn taken(self) -> ComposerModel {
        let body = trim(self.text);
        ComposerModel {
            text: Seq::empty(),
            cursor: 0,
            history: if body.len() > 0 {
                self.remembered(body)
            } else {
                self.history
            },
            browsing: None,
            stashed: None,
        }
    }

    /// The caret at a place.
    pub open spec fn at(self, n: int) -> ComposerModel {
        ComposerModel { cursor: n, ..self }
    }

    /// The caret one grapheme to the left.
    pub open spec fn left(self) -> ComposerModel {
        match boundary_before(self.text, self.cursor) {
            Some(n) => self.at(n),
            None => self,
        }
    }

    /// The caret one grapheme to the right.
    pub open spec fn right(self) -> ComposerModel {
        match boundary_after(self.text, self.cursor) {
            Some(n) => self.at(n),
            None => self,
        }
    }

    /// Whether there is a line above the caret's.
    pub open spec fn can_go_up(self) -> bool {
        line_start(self.text, self.cursor) != 0
    }

    /// The caret a line up, in the same display column where possible.
    pub open spec fn up(self) -> ComposerModel {
        let start = line_start(self.text, self.cursor);
        if start == 0 {
            self
        } else {
            let previous = line_start(self.text, start - 1);
            self.at(
                previous + offset_for_column(
                    self.text.subrange(previous, start - 1),
                    column_of(self.text, self.cursor),
                ),
            )
        }
    }

    /// Whether there is a line below the caret's.
    pub open spec fn can_go_down(self) -> bool {
        line_end(self.text, self.cursor) < self.text.len()
    }

    /// The caret a line down, in the same display column where possible.
    pub open spec fn down(self) -> ComposerModel {
        let end = line_end(self.text, self.cursor);
        if end >= self.text.len() {
            self
        } else {
            let next = end + 1;
            self.at(
                next + offset_for_column(
                    self.text.subrange(next, line_end(self.text, next)),
                    column_of(self.text, self.cursor),
                ),
            )
        }
    }

    /// Whether there is an older message to recall.
    pub open spec fn can_go_back(self) -> bool {
        self.history.len() > 0 && self.browsing != Some(0int)
    }

    /// The next older message recalled; what was being written is parked.
    pub open spec fn history_prev(self) -> ComposerModel {
        if !self.can_go_back() {
            self
        } else {
            let n = match self.browsing {
                Some(i) => i - 1,
                None => self.history.len() - 1,
            };
            ComposerModel {
                text: self.history[n],
                cursor: self.history[n].len() as int,
                browsing: Some(n),
                stashed: if self.browsing is None {
                    Some(self.text)
                } else {
                    self.stashed
                },
                ..self
            }
        }
    }

    /// The next newer message recalled, and behind the newest what was parked.
    pub open spec fn history_next(self) -> ComposerModel {
        match self.browsing {
            None => self,
            Some(i) => if i + 1 < self.history.len() {
                ComposerModel {
                    text: self.history[i + 1],
                    cursor: self.history[i + 1].len() as int,
                    browsing: Some(i + 1),
                    ..self
                }
            } else {
                let text = match self.stashed {
                    Some(parked) => parked,
                    None => Seq::empty(),
                };
                ComposerModel { text, cursor: text.len() as int, browsing: None, stashed: None, ..self }
            },
        }
    }
}

impl Default for Composer {
    fn default() -> (r: Self)
        ensures
            r@ == ComposerModel::empty(),
    {
        Composer::new()
    }
}

impl Clone for Composer {
    fn clone(&self) -> (r: Self)
        ensures
            r@ == self@,
    {
        proof {
            use_type_invariant(self);
        }
        let history = self.history.clone();
        assert(history.deep_view() =~= self.history.deep_view());
        let stashed = match &self.stashed {
            Some(s) => Some(s.clone()),
            None => None,
        };
        Composer { text: self.text.clone(), cursor: self.cursor, history, browsing: self.browsing, stashed }
    }
}

impl Composer {
    #[verifier::type_invariant]
    spec fn sound(self) -> bool {
        &&& self.cursor <= self.text@.len()
        &&& self.browsing is Some ==> self.browsing->0 < self.history.len()
        &&& well_kept(self.history.deep_view())
    }

    /// A composer in which nothing has been written.
    pub fn new() -> (r: Self)
        ensures
            r@ == ComposerModel::empty(),
    {
        let r = Composer { text: String::new(), cursor: 0, history: Vec::new(), browsing: None, stashed: None };
        assert(r@ =~= ComposerModel::empty());
        r
    }

    pub fn text(&self) -> (r: &str)
        ensures
            r@ == self@.text,
            self@.ok(),
    {
        proof {
            use_type_invariant(self);
        }
        self.text.as_str()
    }

    /// The byte of the text at which the caret stands.
    pub fn cursor(&self) -> (r: usize)
        ensures
            r == byte_at(self@.text, self@.cursor),
            self@.ok(),
    {
        proof {
            use_type_invariant(self);
        }
        bytes_before(self.text.as_str(), self.cursor)
    }

    /// Replace the whole buffer, putting the caret at the end.
    ///
    /// Used when an edit loads an existing message in for revision.
    pub fn set_text(&mut self, text: &str)
        ensures
            final(self)@ == old(self)@.set_text(text@),
    {
        proof {
            use_type_invariant(&*self);
        }
        self.cursor = 0;
        self.text = text.to_owned();
        self.cursor = text.unicode_len();
        self.browsing = None;
        self.stashed = None;
        assert(self@ =~= old(self)@.set_text(text@));
    }

    /// Editing a recalled message detaches it from the history entry.
    fn stop_browsing(&mut self)
        ensures
            final(self)@ == old(self)@.stop_browsing(),
    {
        proof {
            use_type_invariant(&*self);
        }
        if self.browsing.is_some() {
            self.browsing = None;
            self.stashed = None;
        }
        assert(self@ =~= old(self)@.stop_browsing());
    }

    /// Replace the part from `from` to the caret.
    fn replace(&mut self, from: usize, with: &Vec<char>)
        requires
            from <= old(self)@.cursor,
        ensures
            final(self)@ == old(self)@.replace(from as int, with@),
    {
        proof {
            use_type_invariant(&*self);
        }
        self.stop_browsing();
        proof {
            use_type_invariant(&*self);
        }
        let chars = chars_of(self.text.as_str());
        let mut out = slice(&chars, 0, from);
        extend(&mut out, with);
        let place = out.len();
        extend(&mut out, &slice(&chars, self.cursor, chars.len()));
        assert(out@ =~= splice(old(self)@.text, from as int, old(self)@.cursor, with@));
        self.cursor = 0;
        self.text = string_of(&out);
        self.cursor = place;
        assert(self@ =~= old(self)@.replace(from as int, with@));
    }

    pub fn insert(&mut self, c: char)
        ensures
            final(self)@ == old(self)@.insert(c),
    {
        let mut with: Vec<char> = Vec::new();
        with.push(c);
        assert(with@ =~= seq![c]);
        let from = self.cursor;
        self.replace(from, &with);
    }

    /// The mention being typed at the caret, if there is one: the byte offset of its `@`, and
    /// the text between it and the caret.
    ///
    /// The `@` has to start a word. Without that rule an email address arms the picker
    /// halfway through being typed.
    pub fn mention_query(&self) -> (r: Option<(usize, &str)>)
        ensures
            match r {
                Some((at, query)) => self@.mention_query() == Some((at as int, query@)),
                None => self@.mention_query() is None,
            },
    {
        proof {
            use_type_invariant(self);
        }
        let chars = chars_of(self.text.as_str());
        let start = find_run_start(&chars, self.cursor);
        let ghost run = self@.text.subrange(start as int, self@.cursor);
        if start == self.cursor || chars[start] != '@' {
            return None;
        }
        let mut i: usize = start + 1;
        while i < self.cursor
            invariant
                start < i <= self.cursor <= chars.len(),
                chars@ == self@.text,
                run == self@.text.subrange(start as int, self.cursor as int),
                forall|j: int| start < j < i ==> chars[j] != '@',
                start == run_start(self@.text, self@.cursor),
                self@.cursor == self.cursor,
                run.len() > 0,
            decreases self.cursor - i,
        {
            if chars[i] == '@' {
                assert(run.skip(1)[i - start - 1] == '@');
                return None;
            }
            i += 1;
        }
        assert(!run.skip(1).contains('@')) by {
            if run.skip(1).contains('@') {
                let k = run.skip(1).index_of('@');
                assert(run.skip(1)[k] == '@');
                assert(chars[start + 1 + k] == '@');
            }
        }
        let rest = self.text.as_str().substring_char(start + 1, self.cursor);
        assert(rest@ =~= run.skip(1));
        Some((bytes_before(self.text.as_str(), start), rest))
    }

    /// Replace the mention starting at the byte `from` with `text`, and leave the caret after
    /// it.
    ///
    /// A trailing space is the caller's business: it is part of what gets inserted, so
    /// that accepting a completion and carrying on typing does not need a second key.
    pub fn replace_mention(&mut self, from: usize, text: &str)
        ensures
            final(self)@ == old(self)@.replace_mention(from as int, text@),
    {
        if let Some(n) = char_at_byte(self.text.as_str(), from) {
            if n <= self.cursor {
                self.replace(n, &chars_of(text));
            }
        }
    }

    pub fn insert_newline(&mut self)
        ensures
            final(self)@ == old(self)@.insert('\n'),
    {
        self.insert('\n');
    }

    /// Delete the grapheme before the caret.
    ///
    /// At a boundary this is stepping left and then deleting.
    pub fn backspace(&mut self)
        ensures
            final(self)@ == old(self)@.backspace(),
            old(self)@.cursor == 0 ==> final(self)@ == old(self)@.stop_browsing(),
            old(self)@.cursor > 0 && is_boundary(old(self)@.text, old(self)@.cursor) ==> final(self)@
                == old(self)@.left().delete(),
    {
        proof {
            use_type_invariant(&*self);
        }
        let whole = split_graphemes(self.text.as_str());
        proof {
            if self@.cursor > 0 && is_boundary(self@.text, self@.cursor) {
                assert(pieces_of(whole.deep_view(), self@.text));
                law_left_and_delete_is_backspace(self@);
            }
        }
        match self.prev_boundary() {
            Some(start) => {
                let nothing: Vec<char> = Vec::new();
                assert(nothing@ =~= Seq::empty());
                self.replace(start, &nothing);
            },
            None => {
                self.stop_browsing();
            },
        }
    }

    /// Delete the grapheme at the caret, which stays where it is.
    pub fn delete(&mut self)
        ensures
            final(self)@ == old(self)@.delete(),
            final(self)@.cursor == old(self)@.cursor,
            old(self)@.cursor == old(self)@.text.len() ==> final(self)@ == old(self)@.stop_browsing(),
    {
        proof {
            use_type_invariant(&*self);
        }
        let found = self.next_boundary();
        self.stop_browsing();
        match found {
            Some(end) => {
                let chars = chars_of(self.text.as_str());
                let mut out = slice(&chars, 0, self.cursor);
                extend(&mut out, &slice(&chars, end, chars.len()));
                assert(out@ =~= splice(old(self)@.text, old(self)@.cursor, end as int, Seq::empty()));
                let text = string_of(&out);
                self.text = text;
            },
            None => {},
        }
        assert(self@ =~= old(self)@.delete());
    }

    /// Delete the word before the caret, and any whitespace attached to it.
    pub fn delete_word(&mut self)
        ensures
            final(self)@ == old(self)@.delete_word(),
    {
        proof {
            use_type_invariant(&*self);
        }
        let start = find_word_start(&chars_of(self.text.as_str()), self.cursor);
        let nothing: Vec<char> = Vec::new();
        assert(nothing@ =~= Seq::empty());
        self.replace(start, &nothing);
    }

    /// Delete from the start of the current line to the caret.
    pub fn delete_to_line_start(&mut self)
        ensures
            final(self)@ == old(self)@.delete_to_line_start(),
    {
        proof {
            use_type_invariant(&*self);
        }
        let start = find_line_start(&chars_of(self.text.as_str()), self.cursor);
        let nothing: Vec<char> = Vec::new();
        assert(nothing@ =~= Seq::empty());
        self.replace(start, &nothing);
    }

    /// Take the text for sending, recording it in history and clearing the buffer.
    ///
    /// Returns `None` when there is nothing but whitespace to send.
    pub fn take(&mut self) -> (r: Option<String>)
        ensures
            final(self)@ == old(self)@.taken(),
            match r {
                Some(body) => body@ == trim(old(self)@.text) && body@.len() > 0,
                None => trim(old(self)@.text).len() == 0,
            },
    {
        proof {
            use_type_invariant(&*self);
        }
        let ghost before = self@;
        let body = string_of(&trimmed(&chars_of(self.text.as_str())));
        self.cursor = 0;
        self.text = String::new();
        self.stashed = None;
        self.browsing = None;
        if body.as_str().is_empty() {
            assert(self@ =~= before.taken());
            return None;
        }
        let repeat = self.history.len() > 0 && self.history[self.history.len() - 1] == body;
        if !repeat {
            let mut history: Vec<String> = Vec::new();
            std::mem::swap(&mut self.history, &mut history);
            let ghost held = history.deep_view();
            history.push(body.clone());
            assert(history.deep_view() =~= held.push(body@));
            if history.len() > HISTORY_LIMIT {
                history.remove(0);
                assert(history.deep_view() =~= held.push(body@).skip(1));
            }
            proof {
                law_immediate_repeats_are_not_recorded(before);
                assert(history.deep_view() =~= before.taken().history);
            }
            self.history = history;
        }
        assert(self@ =~= before.taken());
        Some(body)
    }

    // ------------------------------------------------------------------ movement

    pub fn left(&mut self)
        ensures
            final(self)@ == old(self)@.left(),
    {
        proof {
            use_type_invariant(&*self);
        }
        if let Some(n) = self.prev_boundary() {
            self.cursor = n;
        }
    }

    pub fn right(&mut self)
        ensures
            final(self)@ == old(self)@.right(),
    {
        proof {
            use_type_invariant(&*self);
        }
        if let Some(n) = self.next_boundary() {
            self.cursor = n;
        }
    }

    pub fn home(&mut self)
        ensures
            final(self)@ == old(self)@.at(line_start(old(self)@.text, old(self)@.cursor)),
    {
        proof {
            use_type_invariant(&*self);
        }
        let n = find_line_start(&chars_of(self.text.as_str()), self.cursor);
        self.cursor = n;
    }

    pub fn end(&mut self)
        ensures
            final(self)@ == old(self)@.at(line_end(old(self)@.text, old(self)@.cursor)),
    {
        proof {
            use_type_invariant(&*self);
        }
        let n = find_line_end(&chars_of(self.text.as_str()), self.cursor);
        self.cursor = n;
    }

    /// Move to the start of the previous word, stopping at the line start.
    pub fn word_left(&mut self)
        ensures
            final(self)@ == old(self)@.at(word_start(old(self)@.text, old(self)@.cursor)),
    {
        proof {
            use_type_invariant(&*self);
        }
        let n = find_word_start(&chars_of(self.text.as_str()), self.cursor);
        self.cursor = n;
    }

    /// Move past the end of the next word, stopping at the line end.
    pub fn word_right(&mut self)
        ensures
            final(self)@ == old(self)@.at(word_end(old(self)@.text, old(self)@.cursor)),
    {
        proof {
            use_type_invariant(&*self);
        }
        let n = find_word_end(&chars_of(self.text.as_str()), self.cursor);
        self.cursor = n;
    }

    /// Move up a line, keeping the display column where possible.
    ///
    /// Returns `false` when already on the first line, so the caller can treat the
    /// keypress as a history request instead.
    pub fn up(&mut self) -> (r: bool)
        ensures
            final(self)@ == old(self)@.up(),
            r == old(self)@.can_go_up(),
    {
        proof {
            use_type_invariant(&*self);
        }
        let chars = chars_of(self.text.as_str());
        let start = find_line_start(&chars, self.cursor);
        if start == 0 {
            return false;
        }
        let column = self.column();
        let previous = find_line_start(&chars, start - 1);
        let n = previous + place_in_line(&chars, previous, start - 1, column);
        self.cursor = n;
        assert(self@ =~= old(self)@.up());
        true
    }

    /// Move down a line, keeping the display column where possible.
    ///
    /// Returns `false` when already on the last line.
    pub fn down(&mut self) -> (r: bool)
        ensures
            final(self)@ == old(self)@.down(),
            r == old(self)@.can_go_down(),
    {
        proof {
            use_type_invariant(&*self);
        }
        let chars = chars_of(self.text.as_str());
        let end = find_line_end(&chars, self.cursor);
        if end == chars.len() {
            return false;
        }
        let column = self.column();
        let next = end + 1;
        let stop = find_line_end(&chars, next);
        let n = next + place_in_line(&chars, next, stop, column);
        self.cursor = n;
        assert(self@ =~= old(self)@.down());
        true
    }

    // ------------------------------------------------------------------- history

    /// Step back through sent messages. Returns `false` when there is no older entry.
    pub fn history_prev(&mut self) -> (r: bool)
        ensures
            final(self)@ == old(self)@.history_prev(),
            r == old(self)@.can_go_back(),
    {
        proof {
            use_type_invariant(&*self);
        }
        if self.history.len() == 0 {
            return false;
        }
        let next: usize = match self.browsing {
            None => {
                // Park whatever is being written so it comes back on the way down.
                let parked = self.text.clone();
                self.stashed = Some(parked);
                self.history.len() - 1
            },
            Some(i) => {
                if i == 0 {
                    return false;
                }
                i - 1
            },
        };
        self.browsing = Some(next);
        self.cursor = 0;
        let text = self.history[next].clone();
        self.text = text;
        let n = self.text.as_str().unicode_len();
        self.cursor = n;
        assert(self@ =~= old(self)@.history_prev());
        true
    }

    /// Step forward through sent messages, ending back at the parked draft.
    pub fn history_next(&mut self) -> (r: bool)
        ensures
            final(self)@ == old(self)@.history_next(),
            r == old(self)@.browsing is Some,
    {
        proof {
            use_type_invariant(&*self);
        }
        let i = match self.browsing {
            Some(i) => i,
            None => {
                return false;
            },
        };
        self.cursor = 0;
        if i + 1 < self.history.len() {
            self.browsing = Some(i + 1);
            let text = self.history[i + 1].clone();
            self.text = text;
        } else {
            self.browsing = None;
            let text = match &self.stashed {
                Some(parked) => parked.clone(),
                None => String::new(),
            };
            self.stashed = None;
            self.text = text;
        }
        let n = self.text.as_str().unicode_len();
        self.cursor = n;
        assert(self@ =~= old(self)@.history_next());
        true
    }

    // ----------------------------------------------------------------- internals

    /// Display column of the caret within its line.
    fn column(&self) -> (r: usize)
        ensures
            r == column_of(self@.text, self@.cursor),
    {
        proof {
            use_type_invariant(self);
        }
        let chars = chars_of(self.text.as_str());
        let start = find_line_start(&chars, self.cursor);
        text_width(string_of(&slice(&chars, start, self.cursor)).as_str())
    }

    fn prev_boundary(&self) -> (r: Option<usize>)
        ensures
            match r {
                Some(n) => boundary_before(self@.text, self@.cursor) == Some(n as int) && n <= self@.cursor,
                None => boundary_before(self@.text, self@.cursor) is None,
            },
            self@.cursor == 0 ==> r is None,
    {
        proof {
            use_type_invariant(self);
        }
        let chars = chars_of(self.text.as_str());
        let head = string_of(&slice(&chars, 0, self.cursor));
        assert(head@ =~= self@.text.take(self@.cursor));
        let pieces = split_graphemes(head.as_str());
        if pieces.len() == 0 {
            return None;
        }
        proof {
            lemma_concat_last(pieces.deep_view());
        }
        let last = pieces[pieces.len() - 1].as_str().unicode_len();
        Some(self.cursor - last)
    }

    fn next_boundary(&self) -> (r: Option<usize>)
        ensures
            match r {
                Some(n) => boundary_after(self@.text, self@.cursor) == Some(n as int) && self@.cursor <= n
                    <= self@.text.len(),
                None => boundary_after(self@.text, self@.cursor) is None,
            },
            self@.cursor == self@.text.len() ==> r is None,
    {
        proof {
            use_type_invariant(self);
        }
        let chars = chars_of(self.text.as_str());
        let tail = string_of(&slice(&chars, self.cursor, chars.len()));
        assert(tail@ =~= self@.text.skip(self@.cursor));
        let pieces = split_graphemes(tail.as_str());
        if pieces.len() == 0 {
            return None;
        }
        proof {
            lemma_concat_first(pieces.deep_view());
        }
        let first = pieces[0].as_str().unicode_len();
        Some(self.cursor + first)
    }
}

/// The place in a part of the text closest to a column without exceeding it.
fn place_in_line(text: &Vec<char>, from: usize, to: usize, column: usize) -> (r: usize)
    requires
        from <= to <= text.len(),
    ensures
        r == offset_for_column(text@.subrange(from as int, to as int), column as nat),
        from + r <= to,
{
    let line = string_of(&slice(text, from, to));
    let pieces = split_graphemes(line.as_str());
    fit(&pieces, column, cells_wide, Ghost(cells()))
}

// -------------------------------------------------------------------------- wrapping

/// How many pieces a row takes, `n` of them being in it already: as many as follow one
/// another without making it wider than `width`, and one in any case.
pub open spec fn taken_by_row(
    pieces: Seq<Seq<char>>,
    n: nat,
    width: nat,
    measure: spec_fn(Seq<char>) -> nat,
) -> nat
    decreases pieces.len() - n,
{
    if n < pieces.len() && (n == 0 || measure(concat(pieces.take(n as int + 1))) <= width) {
        taken_by_row(pieces, n + 1, width, measure)
    } else {
        n
    }
}

/// How many of the first `n` pieces stand up to and with the last space among them.
pub open spec fn behind_space(pieces: Seq<Seq<char>>, n: nat) -> nat
    decreases n,
{
    if n == 0 || pieces[n - 1] == seq![' '] {
        n
    } else {
        behind_space(pieces, (n - 1) as nat)
    }
}

/// How many pieces stand in the first row: all that fit, or, where not all of them do, those
/// up to the last space among the ones that fit.
pub open spec fn first_row_of(pieces: Seq<Seq<char>>, width: nat, measure: spec_fn(Seq<char>) -> nat) -> nat {
    let n = taken_by_row(pieces, 0, width, measure);
    if n < pieces.len() && behind_space(pieces, n) > 0 {
        behind_space(pieces, n)
    } else {
        n
    }
}

/// The rows of these pieces, the first of which begins at `base`.
pub open spec fn rows_from(
    pieces: Seq<Seq<char>>,
    base: int,
    width: nat,
    measure: spec_fn(Seq<char>) -> nat,
) -> Seq<(int, int)>
    decreases pieces.len(),
{
    let n = first_row_of(pieces, width, measure);
    if n == 0 || n > pieces.len() {
        Seq::empty()
    } else {
        let end = base + concat(pieces.take(n as int)).len();
        seq![(base, end)] + rows_from(pieces.skip(n as int), end, width, measure)
    }
}

/// One line cut into display rows no wider than `width`: broken behind a space where
/// there is one, and within a word only where the word alone is too wide. An empty line
/// is one empty row.
pub open spec fn rows_of(
    pieces: Seq<Seq<char>>,
    line: Seq<char>,
    width: nat,
    measure: spec_fn(Seq<char>) -> nat,
) -> Seq<(int, int)> {
    if line.len() == 0 {
        seq![(0int, 0int)]
    } else {
        rows_from(pieces, 0, width, measure)
    }
}

proof fn lemma_taken(pieces: Seq<Seq<char>>, n: nat, width: nat, measure: spec_fn(Seq<char>) -> nat)
    requires
        n <= pieces.len(),
    ensures
        n <= taken_by_row(pieces, n, width, measure) <= pieces.len(),
        n == 0 && pieces.len() > 0 ==> taken_by_row(pieces, n, width, measure) > 0,
        forall|m: int|
            n < m <= taken_by_row(pieces, n, width, measure) && 1 < m ==> measure(concat(#[trigger] pieces.take(m)))
                <= width,
    decreases pieces.len() - n,
{
    if n < pieces.len() && (n == 0 || measure(concat(pieces.take(n as int + 1))) <= width) {
        lemma_taken(pieces, n + 1, width, measure);
    }
}

proof fn lemma_behind_space(pieces: Seq<Seq<char>>, n: nat)
    requires
        n <= pieces.len(),
    ensures
        behind_space(pieces, n) <= n,
    decreases n,
{
    if n > 0 && pieces[n - 1] != seq![' '] {
        lemma_behind_space(pieces, (n - 1) as nat);
    }
}

/// The first row takes a piece at least, and is no wider than `width` where it takes more.
proof fn lemma_first_row(pieces: Seq<Seq<char>>, width: nat, measure: spec_fn(Seq<char>) -> nat)
    ensures
        first_row_of(pieces, width, measure) <= pieces.len(),
        pieces.len() > 0 ==> first_row_of(pieces, width, measure) > 0,
        first_row_of(pieces, width, measure) > 1 ==> measure(
            concat(pieces.take(first_row_of(pieces, width, measure) as int)),
        ) <= width,
{
    lemma_taken(pieces, 0, width, measure);
    lemma_behind_space(pieces, taken_by_row(pieces, 0, width, measure));
}

/// Whether these rows cover everything from one place to another, each beginning where the
/// one before it ends, and none of them empty.
pub open spec fn tiles_from(rows: Seq<(int, int)>, base: int, end: int) -> bool {
    &&& rows.len() == 0 ==> end == base
    &&& rows.len() > 0 ==> rows[0].0 == base && rows.last().1 == end
    &&& forall|i: int| 0 <= i < rows.len() ==> (#[trigger] rows[i]).0 < rows[i].1
    &&& forall|i: int, j: int|
        0 <= i && j == i + 1 && j < rows.len() ==> (#[trigger] rows[i]).1 == (#[trigger] rows[j]).0
}

/// Whether these rows cover everything from the beginning to `end`.
pub open spec fn tiles(rows: Seq<(int, int)>, end: int) -> bool {
    tiles_from(rows, 0, end)
}

/// Whether a row is no wider than `width`, or a single piece.
pub open spec fn row_fits(
    row: (int, int),
    pieces: Seq<Seq<char>>,
    line: Seq<char>,
    width: nat,
    measure: spec_fn(Seq<char>) -> nat,
) -> bool {
    measure(line.subrange(row.0, row.1)) <= width || pieces.contains(line.subrange(row.0, row.1))
}

proof fn lemma_rows_tile(
    pieces: Seq<Seq<char>>,
    lead: Seq<char>,
    width: nat,
    measure: spec_fn(Seq<char>) -> nat,
)
    requires
        all_nonempty(pieces),
    ensures
        ({
            let rows = rows_from(pieces, lead.len() as int, width, measure);
            let line = lead + concat(pieces);
            &&& tiles_from(rows, lead.len() as int, line.len() as int)
            &&& forall|i: int| 0 <= i < rows.len() ==> row_fits(#[trigger] rows[i], pieces, line, width, measure)
        }),
    decreases pieces.len(),
{
    let rows = rows_from(pieces, lead.len() as int, width, measure);
    let line = lead + concat(pieces);
    lemma_first_row(pieces, width, measure);
    if pieces.len() > 0 {
        let n = first_row_of(pieces, width, measure) as int;
        let head = concat(pieces.take(n));
        let rest = pieces.skip(n);
        let end = lead.len() + head.len();
        let later = rows_from(rest, end as int, width, measure);
        lemma_concat_skip(pieces, n);
        assert forall|i: int| 0 <= i < rest.len() implies (#[trigger] rest[i]).len() > 0 by {
            assert(pieces[n + i].len() > 0);
        }
        lemma_rows_tile(rest, lead + head, width, measure);
        assert((lead + head) + concat(rest) =~= line);
        lemma_concat_take(pieces, 0);
        lemma_concat_first(pieces.take(n));
        assert(pieces.take(n)[0] == pieces[0]);
        assert(pieces[0].len() > 0);
        assert(rows =~= seq![(lead.len() as int, end as int)] + later);
        assert(line.subrange(lead.len() as int, end as int) =~= head);
        if n == 1 {
            assert(pieces.take(1).drop_last() =~= Seq::<Seq<char>>::empty());
            assert(head =~= pieces[0]);
        }
        assert(row_fits(rows[0], pieces, line, width, measure));
        assert forall|i: int| 0 <= i < rows.len() implies row_fits(
            #[trigger] rows[i],
            pieces,
            line,
            width,
            measure,
        ) by {
            if i > 0 {
                assert(rows[i] == later[i - 1]);
                assert(row_fits(later[i - 1], rest, line, width, measure));
                let text = line.subrange(rows[i].0, rows[i].1);
                if rest.contains(text) {
                    let k = rest.index_of(text);
                    assert(pieces[n + k] == text);
                }
            }
        }
        assert forall|i: int| 0 <= i < rows.len() implies (#[trigger] rows[i]).0 < rows[i].1 by {
            if i > 0 {
                assert(rows[i] == later[i - 1]);
            }
        }
        assert forall|i: int, j: int| 0 <= i && j == i + 1 && j < rows.len() implies (#[trigger] rows[i]).1
            == (#[trigger] rows[j]).0 by {
            assert(rows[j] == later[j - 1]);
            if i > 0 {
                assert(rows[i] == later[i - 1]);
            }
        }
        if later.len() > 0 {
            assert(rows.last() == later.last());
        }
    }
}

/// Wrapping hides nothing: the rows of a line that is not empty cover it from end to end,
/// without overlaps.
pub proof fn law_rows_cover_the_line(
    pieces: Seq<Seq<char>>,
    line: Seq<char>,
    width: nat,
    measure: spec_fn(Seq<char>) -> nat,
)
    requires
        concat(pieces) == line,
        all_nonempty(pieces),
        line.len() > 0,
    ensures
        tiles(rows_of(pieces, line, width, measure), line.len() as int),
{
    lemma_rows_tile(pieces, Seq::empty(), width, measure);
    assert(Seq::<char>::empty() + concat(pieces) =~= line);
}

/// No row is wider than it may be, unless it is a single cluster that is.
pub proof fn law_rows_are_no_wider_than_asked(
    pieces: Seq<Seq<char>>,
    line: Seq<char>,
    width: nat,
    measure: spec_fn(Seq<char>) -> nat,
)
    requires
        concat(pieces) == line,
        all_nonempty(pieces),
        line.len() > 0,
    ensures
        forall|i: int|
            0 <= i < rows_of(pieces, line, width, measure).len() ==> row_fits(
                #[trigger] rows_of(pieces, line, width, measure)[i],
                pieces,
                line,
                width,
                measure,
            ),
{
    lemma_rows_tile(pieces, Seq::empty(), width, measure);
    assert(Seq::<char>::empty() + concat(pieces) =~= line);
}

fn is_space_alone(piece: &str) -> (r: bool)
    ensures
        r == (piece@ == seq![' ']),
{
    if piece.unicode_len() == 1 && piece.get_char(0) == ' ' {
        assert(piece@ =~= seq![' ']);
        true
    } else {
        assert(piece@ != seq![' ']) by {
            if piece@ == seq![' '] {
                assert(piece@[0] == ' ');
            }
        }
        false
    }
}

/// How many of the pieces from `from` on stand in one row, and how many characters they are.
fn take_row<W: Fn(&str) -> usize>(
    pieces: &Vec<String>,
    from: usize,
    width: usize,
    measure: &W,
    Ghost(cells_of): Ghost<spec_fn(Seq<char>) -> nat>,
) -> (r: (usize, usize))
    requires
        from < pieces.len(),
        forall|s: &str| #[trigger] measure.requires((s,)),
        forall|s: &str, w: usize| #[trigger] measure.ensures((s,), w) ==> w == cells_of(s@),
    ensures
        r.0 == first_row_of(pieces.deep_view().skip(from as int), width as nat, cells_of),
        0 < r.0 <= pieces.len() - from,
        r.1 == concat(pieces.deep_view().skip(from as int).take(r.0 as int)).len(),
{
    let ghost rest = pieces.deep_view().skip(from as int);
    let mut row = String::new();
    let mut n: usize = 0;
    let mut cut: usize = 0;
    let mut cut_len: usize = 0;
    let mut full = false;
    assert(rest.take(0) =~= Seq::<Seq<char>>::empty());
    assert(row@ =~= concat(rest.take(0)));
    while !full && n < pieces.len() - from
        invariant
            from < pieces.len(),
            n <= pieces.len() - from,
            rest == pieces.deep_view().skip(from as int),
            forall|s: &str| #[trigger] measure.requires((s,)),
            forall|s: &str, w: usize| #[trigger] measure.ensures((s,), w) ==> w == cells_of(s@),
            row@ == concat(rest.take(n as int)),
            cut == behind_space(rest, n as nat),
            cut_len == concat(rest.take(cut as int)).len(),
            cut <= n,
            taken_by_row(rest, 0, width as nat, cells_of) == taken_by_row(rest, n as nat, width as nat, cells_of),
            full ==> n == taken_by_row(rest, n as nat, width as nat, cells_of),
            full ==> n > 0,
        decreases pieces.len() - from - n + (if full { 0int } else { 1 }),
    {
        let piece = pieces[from + n].as_str();
        let mut longer = row.clone();
        longer.append(piece);
        proof {
            lemma_concat_take(rest, n as int);
            assert(rest[n as int] == piece@);
        }
        if n == 0 || measure(longer.as_str()) <= width {
            row = longer;
            n += 1;
            if is_space_alone(piece) {
                cut = n;
                cut_len = row.as_str().unicode_len();
            }
        } else {
            full = true;
        }
    }
    proof {
        lemma_first_row(rest, width as nat, cells_of);
        assert(n == taken_by_row(rest, n as nat, width as nat, cells_of));
    }
    if n < pieces.len() - from && cut > 0 {
        (cut, cut_len)
    } else {
        (n, row.as_str().unicode_len())
    }
}

/// Cut one line, given by its graphemes, into display rows no wider than `width`.
/// `measure` is told by `cells_of`.
pub fn wrap_graphemes<W: Fn(&str) -> usize>(
    pieces: &Vec<String>,
    line: &Vec<char>,
    width: usize,
    measure: W,
    Ghost(cells_of): Ghost<spec_fn(Seq<char>) -> nat>,
) -> (r: Vec<(usize, usize)>)
    requires
        forall|s: &str| #[trigger] measure.requires((s,)),
        forall|s: &str, w: usize| #[trigger] measure.ensures((s,), w) ==> w == cells_of(s@),
        concat(pieces.deep_view()) == line@,
        all_nonempty(pieces.deep_view()),
    ensures
        positions(r@) == rows_of(pieces.deep_view(), line@, width as nat, cells_of),
        forall|i: int| 0 <= i < r@.len() ==> (#[trigger] r@[i]).0 <= r@[i].1 <= line@.len(),
        r@.len() > 0,
        line@.len() > 0 ==> forall|i: int|
            0 <= i < r@.len() ==> row_fits(
                #[trigger] positions(r@)[i],
                pieces.deep_view(),
                line@,
                width as nat,
                cells_of,
            ),
{
    let mut out: Vec<(usize, usize)> = Vec::new();
    if line.len() == 0 {
        out.push((0, 0));
        assert(positions(out@) =~= seq![(0int, 0int)]);
        return out;
    }
    let ghost all = pieces.deep_view();
    let ghost goal = rows_from(all, 0, width as nat, cells_of);
    let mut k: usize = 0;
    let mut base: usize = 0;
    assert(all.skip(0) =~= all);
    assert(all.take(0) =~= Seq::<Seq<char>>::empty());
    assert(positions(out@) + rows_from(all.skip(0), 0, width as nat, cells_of) =~= goal);
    while k < pieces.len()
        invariant
            k <= pieces.len(),
            all == pieces.deep_view(),
            concat(all) == line@,
            forall|s: &str| #[trigger] measure.requires((s,)),
            forall|s: &str, w: usize| #[trigger] measure.ensures((s,), w) ==> w == cells_of(s@),
            base == concat(all.take(k as int)).len(),
            base <= line.len(),
            positions(out@) + rows_from(all.skip(k as int), base as int, width as nat, cells_of) == goal,
            forall|i: int| 0 <= i < out@.len() ==> (#[trigger] out@[i]).0 <= out@[i].1 <= line@.len(),
            k > 0 ==> out@.len() > 0,
        decreases pieces.len() - k,
    {
        let (n, len) = take_row(pieces, k, width, &measure, Ghost(cells_of));
        let ghost rest = all.skip(k as int);
        let ghost prior = out@;
        proof {
            lemma_concat_skip(all.take(k + n), k as int);
            assert(all.take(k + n).take(k as int) =~= all.take(k as int));
            assert(all.take(k + n).skip(k as int) =~= rest.take(n as int));
            lemma_concat_take(all, k + n);
            assert(rest.skip(n as int) =~= all.skip(k + n));
        }
        out.push((base, base + len));
        proof {
            let later = rows_from(all.skip(k + n), base + len, width as nat, cells_of);
            assert(rows_from(rest, base as int, width as nat, cells_of) == seq![(base as int, base + len)] + later);
            assert(positions(out@) =~= positions(prior).push((base as int, base + len)));
            assert(positions(out@) + later =~= positions(prior) + (seq![(base as int, base + len)] + later));
        }
        k += n;
        base += len;
    }
    proof {
        assert(all.skip(k as int).len() == 0);
        lemma_first_row(all.skip(k as int), width as nat, cells_of);
        assert(positions(out@) =~= goal);
        if pieces.len() == 0 {
            assert(concat(all).len() == 0);
        }
        law_rows_are_no_wider_than_asked(all, line@, width as nat, cells_of);
        assert forall|i: int| 0 <= i < out@.len() implies row_fits(
            #[trigger] positions(out@)[i],
            all,
            line@,
            width as nat,
            cells_of,
        ) by {
            assert(goal == rows_of(all, line@, width as nat, cells_of));
            assert(row_fits(rows_of(all, line@, width as nat, cells_of)[i], all, line@, width as nat, cells_of));
        }
    }
    out
}

/// The same pairs as mathematical numbers.
pub open spec fn positions(rows: Seq<(usize, usize)>) -> Seq<(int, int)> {
    Seq::new(rows.len(), |i: int| (rows[i].0 as int, rows[i].1 as int))
}

/// A display row: a part of the text, and whether it is the last of its line.
#[derive(Debug, Clone, Copy, PartialEq, Eq, Structural)]
pub struct Row {
    pub start: usize,
    pub end: usize,
    pub last: bool,
}

/// The rows of a line that begins at `base`.
pub open spec fn placed_rows(rows: Seq<(int, int)>, base: int) -> Seq<Row> {
    Seq::new(
        rows.len(),
        |i: int|
            Row { start: (base + rows[i].0) as usize, end: (base + rows[i].1) as usize, last: i == rows.len() - 1 },
    )
}

/// The rows of a text from `base` on: line by line.
pub open spec fn text_rows(text: Seq<char>, base: int, width: nat) -> Seq<Row>
    decreases text.len() - base,
{
    if base < 0 || base > text.len() {
        Seq::empty()
    } else {
        let end = line_end(text, base);
        let line = text.subrange(base, end);
        let rows = placed_rows(rows_of(graphemes(line), line, width, cells()), base);
        if end >= text.len() || end < base {
            rows
        } else {
            rows + text_rows(text, end + 1, width)
        }
    }
}

/// Whether a row of a text is no wider than `width`, or holds a single cluster of its line.
pub open spec fn row_within(text: Seq<char>, row: Row, width: nat) -> bool {
    let shown = text.subrange(row.start as int, row.end as int);
    ||| shown.len() == 0
    ||| display_width(shown) <= width
    ||| graphemes(
        text.subrange(line_start(text, row.start as int), line_end(text, row.start as int)),
    ).contains(shown)
}

/// Whether a row shows the caret: it stands in the row, or at the end of the last row of
/// its line. On a soft break it belongs at the start of the next row.
pub open spec fn shows(cursor: int) -> spec_fn(Row) -> bool {
    |r: Row| r.start <= cursor && (cursor < r.end || (cursor == r.end && r.last))
}

/// Where the caret stands among rows: display row and display column.
pub open spec fn caret_in(rows: Seq<Row>, text: Seq<char>, cursor: int) -> (u16, u16) {
    match first_where(rows, shows(cursor)) {
        Some(i) => (i as u16, display_width(text.subrange(rows[i].start as int, cursor)) as u16),
        None => (0, 0),
    }
}

/// What each of some rows shows of a text.
pub open spec fn row_texts(text: Seq<char>, rows: Seq<Row>) -> Seq<Seq<char>> {
    rows.map_values(|r: Row| text.subrange(r.start as int, r.end as int))
}

/// A text without its line breaks.
pub open spec fn without_breaks(text: Seq<char>) -> Seq<char> {
    text.filter(|c: char| c != '\n')
}

/// Whether a row shows a place.
pub open spec fn shown_in(rows: Seq<Row>, n: int, i: int) -> bool {
    0 <= i < rows.len() && shows(n)(rows[i])
}

/// Whether some row shows a place.
pub open spec fn is_shown(rows: Seq<Row>, n: int) -> bool {
    exists|i: int| #[trigger] shown_in(rows, n, i)
}

/// The buffer laid out at a given width.
#[derive(Debug, PartialEq, Eq)]
pub struct Wrapped<'a> {
    pub lines: Vec<&'a str>,
    /// Caret in wrapped coordinates: display row and display column.
    pub caret: (u16, u16),
}

/// A place of a line is in that line.
proof fn lemma_in_line(text: Seq<char>, base: int, n: int)
    requires
        base == 0 || text[base - 1] == '\n',
        0 <= base <= n <= line_end(text, base),
        base <= text.len(),
    ensures
        line_start(text, n) == base,
        line_end(text, n) == line_end(text, base),
        line_end(text, base) <= text.len(),
        n < line_end(text, base) ==> text[n] != '\n',
    decreases n - base,
{
    if n > base {
        lemma_in_line(text, base, n - 1);
    } else {
        lemma_line_end(text, base);
    }
    lemma_line_end(text, n);
}

proof fn lemma_at_line_end(text: Seq<char>, n: int)
    requires
        0 <= n <= text.len(),
        line_end(text, n) < text.len(),
    ensures
        text[line_end(text, n)] == '\n',
    decreases text.len() - n,
{
    if n < text.len() && text[n] != '\n' {
        lemma_at_line_end(text, n + 1);
    }
}

proof fn lemma_line_end(text: Seq<char>, n: int)
    requires
        0 <= n,
    ensures
        n <= text.len() ==> n <= line_end(text, n) <= text.len(),
    decreases text.len() - n,
{
    if n < text.len() && text[n] != '\n' {
        lemma_line_end(text, n + 1);
    }
}

proof fn lemma_no_break_in_line(text: Seq<char>, base: int)
    requires
        0 <= base <= text.len(),
    ensures
        forall|i: int| base <= i < line_end(text, base) ==> text[i] != '\n',
    decreases text.len() - base,
{
    if base < text.len() && text[base] != '\n' {
        lemma_no_break_in_line(text, base + 1);
    }
}

proof fn lemma_without_no_breaks(s: Seq<char>)
    requires
        forall|i: int| 0 <= i < s.len() ==> s[i] != '\n',
    ensures
        without_breaks(s) == s,
    decreases s.len(),
{
    broadcast use Seq::lemma_filter_push, Seq::lemma_filter_len;

    if s.len() > 0 {
        let rest = s.drop_last();
        lemma_without_no_breaks(rest);
        assert(rest.push(s.last()) =~= s);
    } else {
        assert(without_breaks(s) =~= s);
    }
}

proof fn lemma_break_is_left_out(s: Seq<char>)
    ensures
        without_breaks(s.push('\n')) == without_breaks(s),
{
    broadcast use Seq::lemma_filter_push;

}

/// The first rows of a line show its beginning.
proof fn lemma_rows_join(line: Seq<char>, rows: Seq<(int, int)>, n: int)
    requires
        tiles(rows, line.len() as int),
        0 < n <= rows.len(),
    ensures
        concat(rows.take(n).map_values(|r: (int, int)| line.subrange(r.0, r.1))) == line.take(rows[n - 1].1),
        n <= rows[n - 1].1 <= line.len(),
    decreases n,
{
    let texts = rows.take(n).map_values(|r: (int, int)| line.subrange(r.0, r.1));
    let before = rows.take(n - 1).map_values(|r: (int, int)| line.subrange(r.0, r.1));
    lemma_rows_within(rows, line.len() as int, n - 1);
    assert(texts.drop_last() =~= before);
    if n > 1 {
        lemma_rows_join(line, rows, n - 1);
        assert(rows[n - 2].1 == rows[n - 1].0);
        assert(rows[n - 1].0 < rows[n - 1].1);
        assert(line.take(rows[n - 1].0) + line.subrange(rows[n - 1].0, rows[n - 1].1) =~= line.take(rows[n - 1].1));
    } else {
        assert(before =~= Seq::<Seq<char>>::empty());
        assert(concat(before) =~= Seq::<char>::empty());
        assert(rows[0].0 < rows[0].1);
        assert(texts.last() == line.subrange(rows[0].0, rows[0].1));
        assert(line.subrange(0, rows[0].1) =~= line.take(rows[0].1));
        assert(concat(texts) =~= line.take(rows[0].1));
    }
}

/// The rows of a line show all of it, and there are not many more of them than characters.
proof fn lemma_line_shown(text: Seq<char>, base: int, end: int, width: nat)
    requires
        0 <= base <= end <= text.len(),
        text.len() <= usize::MAX,
        pieces_of(graphemes(text.subrange(base, end)), text.subrange(base, end)),
    ensures
        ({
            let line = text.subrange(base, end);
            let placed = placed_rows(rows_of(graphemes(line), line, width, cells()), base);
            &&& concat(row_texts(text, placed)) == line
            &&& placed.len() <= line.len() + 1
            &&& forall|n: int| base <= n <= end ==> #[trigger] is_shown(placed, n)
        }),
{
    let line = text.subrange(base, end);
    let pieces = graphemes(line);
    let rows = rows_of(pieces, line, width, cells());
    let placed = placed_rows(rows, base);
    let texts = row_texts(text, placed);
    if line.len() == 0 {
        assert(texts[0] =~= Seq::<char>::empty());
        assert(texts.drop_last() =~= Seq::<Seq<char>>::empty());
        assert(concat(texts.drop_last()) =~= Seq::<char>::empty());
        assert(concat(texts) =~= line);
    } else {
        law_rows_cover_the_line(pieces, line, width, cells());
        let own = rows.map_values(|r: (int, int)| line.subrange(r.0, r.1));
        assert(rows.take(rows.len() as int) =~= rows);
        lemma_rows_join(line, rows, rows.len() as int);
        assert(line.take(line.len() as int) =~= line);
        assert forall|i: int| 0 <= i < texts.len() implies texts[i] == own[i] by {
            lemma_rows_within(rows, line.len() as int, i);
            assert(texts[i] =~= own[i]);
        }
        assert(texts =~= own);
    }
    assert forall|n: int| base <= n <= end implies #[trigger] is_shown(placed, n) by {
        law_every_place_is_shown(pieces, line, width, cells(), base, n - base);
        crate::seqs::lemma_first_where(placed, shows(n));
        assert(shown_in(placed, n, first_where(placed, shows(n))->0));
    }
}

fn line_rows(text: &Vec<char>, base: usize, end: usize, width: usize) -> (r: Vec<(usize, usize)>)
    requires
        base <= end <= text.len(),
        base == 0 || text@[base - 1] == '\n',
        end == line_end(text@, base as int),
    ensures
        positions(r@) == rows_of(
            graphemes(text@.subrange(base as int, end as int)),
            text@.subrange(base as int, end as int),
            width as nat,
            cells(),
        ),
        forall|i: int| 0 <= i < r@.len() ==> (#[trigger] r@[i]).0 <= r@[i].1 <= end - base,
        r@.len() > 0,
        pieces_of(
            graphemes(text@.subrange(base as int, end as int)),
            text@.subrange(base as int, end as int),
        ),
        forall|i: int|
            0 <= i < r@.len() ==> row_within(
                text@,
                Row {
                    start: (base + (#[trigger] r@[i]).0) as usize,
                    end: (base + r@[i].1) as usize,
                    last: i == r@.len() - 1,
                },
                width as nat,
            ),
{
    let line = slice(text, base, end);
    let pieces = split_graphemes(string_of(&line).as_str());
    let rows = wrap_graphemes(&pieces, &line, width, cells_wide, Ghost(cells()));
    proof {
        assert forall|i: int| 0 <= i < rows@.len() implies row_within(
            text@,
            Row {
                start: (base + (#[trigger] rows@[i]).0) as usize,
                end: (base + rows@[i].1) as usize,
                last: i == rows@.len() - 1,
            },
            width as nat,
        ) by {
            let row = rows@[i];
            lemma_in_line(text@, base as int, base + row.0);
            assert(line@ =~= text@.subrange(base as int, end as int));
            assert(line@.subrange(row.0 as int, row.1 as int) =~= text@.subrange(base + row.0, base + row.1));
            if line@.len() > 0 {
                assert(row_fits(positions(rows@)[i], pieces.deep_view(), line@, width as nat, cells()));
            }
        }
    }
    rows
}

fn all_rows(text: &Vec<char>, width: usize) -> (r: Vec<Row>)
    ensures
        r@ == text_rows(text@, 0, width as nat),
        concat(row_texts(text@, r@)) == without_breaks(text@),
        r@.len() <= text@.len() + 1,
        forall|n: int| 0 <= n <= text@.len() ==> #[trigger] is_shown(r@, n),
        forall|i: int| 0 <= i < r@.len() ==> row_within(text@, #[trigger] r@[i], width as nat),
        forall|i: int| 0 <= i < r@.len() ==> (#[trigger] r@[i]).start <= r@[i].end <= text@.len(),
{
    let mut out: Vec<Row> = Vec::new();
    let mut base: usize = 0;
    let mut done = false;
    assert(out@ + text_rows(text@, 0, width as nat) =~= text_rows(text@, 0, width as nat));
    proof {
        broadcast use Seq::lemma_filter_len;

        assert(row_texts(text@, out@) =~= Seq::<Seq<char>>::empty());
        assert(without_breaks(text@.take(0)) =~= Seq::<char>::empty());
    }
    while !done
        invariant
            base <= text.len(),
            !done ==> concat(row_texts(text@, out@)) == without_breaks(text@.take(base as int)),
            !done ==> out@.len() <= base,
            !done ==> forall|n: int| 0 <= n < base ==> #[trigger] is_shown(out@, n),
            done ==> concat(row_texts(text@, out@)) == without_breaks(text@),
            done ==> out@.len() <= text@.len() + 1,
            done ==> forall|n: int| 0 <= n <= text@.len() ==> #[trigger] is_shown(out@, n),
            base == 0 || text@[base - 1] == '\n',
            forall|i: int| 0 <= i < out@.len() ==> row_within(text@, #[trigger] out@[i], width as nat),
            !done ==> out@ + text_rows(text@, base as int, width as nat) == text_rows(text@, 0, width as nat),
            done ==> out@ == text_rows(text@, 0, width as nat),
            forall|i: int| 0 <= i < out@.len() ==> (#[trigger] out@[i]).start <= out@[i].end <= text@.len(),
        decreases (text.len() - base) + (if done { 0int } else { 1 }),
    {
        let end = find_line_end(text, base);
        let rows = line_rows(text, base, end, width);
        let ghost line = text@.subrange(base as int, end as int);
        let ghost placed = placed_rows(rows_of(graphemes(line), line, width as nat, cells()), base as int);
        let ghost prior = out@;
        let mut k: usize = 0;
        while k < rows.len()
            invariant
                k <= rows.len(),
                base <= end <= text.len(),
                line == text@.subrange(base as int, end as int),
                positions(rows@) == rows_of(graphemes(line), line, width as nat, cells()),
                placed == placed_rows(rows_of(graphemes(line), line, width as nat, cells()), base as int),
                forall|i: int| 0 <= i < rows@.len() ==> (#[trigger] rows@[i]).0 <= rows@[i].1 <= end - base,
                forall|i: int|
                    0 <= i < rows@.len() ==> row_within(
                        text@,
                        Row {
                            start: (base + (#[trigger] rows@[i]).0) as usize,
                            end: (base + rows@[i].1) as usize,
                            last: i == rows@.len() - 1,
                        },
                        width as nat,
                    ),
                forall|i: int| 0 <= i < out@.len() ==> row_within(text@, #[trigger] out@[i], width as nat),
                out@ == prior + placed.take(k as int),
                forall|i: int| 0 <= i < out@.len() ==> (#[trigger] out@[i]).start <= out@[i].end <= text@.len(),
            decreases rows.len() - k,
        {
            let (from, to) = rows[k];
            assert(rows@[k as int].1 <= end - base);
            let row = Row { start: base + from, end: base + to, last: k == rows.len() - 1 };
            proof {
                assert(positions(rows@)[k as int] == (from as int, to as int));
                assert(placed[k as int] == row);
                assert(placed.take(k + 1) =~= placed.take(k as int).push(row));
            }
            out.push(row);
            assert(out@ =~= prior + placed.take(k + 1));
            k += 1;
        }
        proof {
            assert(placed.len() == rows.len());
            assert(placed.take(rows.len() as int) =~= placed);
            lemma_line_shown(text@, base as int, end as int, width as nat);
            lemma_texts_added(text@, prior, placed);
            lemma_line_added(text@, base as int, end as int);
            lemma_shown_added(prior, placed, base as int, end as int);
        }
        if end == text.len() {
            assert(text@.take(end as int) =~= text@);
            done = true;
        } else {
            proof {
                lemma_at_line_end(text@, base as int);
            }
            assert(out@ + text_rows(text@, end + 1, width as nat) =~= prior + (placed + text_rows(
                text@,
                end + 1,
                width as nat,
            )));
            base = end + 1;
        }
    }
    out
}

proof fn lemma_texts_added(text: Seq<char>, prior: Seq<Row>, placed: Seq<Row>)
    ensures
        concat(row_texts(text, prior + placed)) == concat(row_texts(text, prior)) + concat(row_texts(text, placed)),
{
    let all = row_texts(text, prior + placed);
    let n = prior.len() as int;
    lemma_concat_skip(all, n);
    assert(all.take(n) =~= row_texts(text, prior));
    assert(all.skip(n) =~= row_texts(text, placed));
}

proof fn lemma_line_added(text: Seq<char>, base: int, end: int)
    requires
        0 <= base <= end <= text.len(),
        end == line_end(text, base),
    ensures
        without_breaks(text.take(end)) == without_breaks(text.take(base)) + text.subrange(base, end),
        end < text.len() ==> without_breaks(text.take(end + 1)) == without_breaks(text.take(end)),
{
    let line = text.subrange(base, end);
    lemma_no_break_in_line(text, base);
    assert forall|i: int| 0 <= i < line.len() implies line[i] != '\n' by {
        assert(line[i] == text[base + i]);
    }
    lemma_without_no_breaks(line);
    assert(text.take(end) =~= text.take(base) + line);
    lemma_without_both(text.take(base), line);
    if end < text.len() {
        lemma_at_line_end(text, base);
        lemma_break_is_left_out(text.take(end));
        assert(text.take(end + 1) =~= text.take(end).push('\n'));
    }
}

proof fn lemma_without_both(a: Seq<char>, b: Seq<char>)
    ensures
        without_breaks(a + b) == without_breaks(a) + without_breaks(b),
{
    Seq::filter_distributes_over_add(a, b, |c: char| c != '\n');
}

/// What is shown before a line and what is shown of it is shown together.
proof fn lemma_shown_added(prior: Seq<Row>, placed: Seq<Row>, base: int, end: int)
    requires
        forall|n: int| 0 <= n < base ==> #[trigger] is_shown(prior, n),
        forall|n: int| base <= n <= end ==> #[trigger] is_shown(placed, n),
    ensures
        forall|n: int| 0 <= n <= end ==> #[trigger] is_shown(prior + placed, n),
{
    let rows = prior + placed;
    assert forall|n: int| 0 <= n <= end implies #[trigger] is_shown(rows, n) by {
        if n < base {
            assert(is_shown(prior, n));
            let i = choose|i: int| #[trigger] shown_in(prior, n, i);
            assert(rows[i] == prior[i]);
            assert(shown_in(rows, n, i));
        } else {
            assert(is_shown(placed, n));
            let i = choose|i: int| #[trigger] shown_in(placed, n, i);
            assert(rows[prior.len() + i] == placed[i]);
            assert(shown_in(rows, n, prior.len() + i));
        }
    }
}

impl Composer {
    /// Lay the buffer out at `width`, mapping the caret through the wrap.
    ///
    /// The caret has to be computed here rather than where it is drawn: only the wrap
    /// knows which display row its place in the buffer ended up on. The lines put together are
    /// the text without its line breaks, and the caret stands in one of them, short of more
    /// lines than can be told.
    pub fn wrapped(&self, width: u16) -> (r: Wrapped<'_>)
        ensures
            ({
                let wide: nat = if width == 0 {
                    1
                } else {
                    width as nat
                };
                let rows = text_rows(self@.text, 0, wide);
                &&& r.lines@.len() == rows.len()
                &&& forall|i: int|
                    0 <= i < rows.len() ==> (#[trigger] r.lines@[i])@ == self@.text.subrange(
                        rows[i].start as int,
                        rows[i].end as int,
                    )
                &&& r.caret == caret_in(rows, self@.text, self@.cursor)
                &&& forall|i: int| 0 <= i < rows.len() ==> row_within(self@.text, #[trigger] rows[i], wide)
            }),
            concat(r.lines@.map_values(|l: &str| l@)) == without_breaks(self@.text),
            self@.text.len() <= u16::MAX ==> r.caret.0 < r.lines@.len(),
    {
        proof {
            use_type_invariant(self);
        }
        let width: usize = if width == 0 {
            1
        } else {
            width as usize
        };
        let chars = chars_of(self.text.as_str());
        let rows = all_rows(&chars, width);
        let mut lines: Vec<&str> = Vec::new();
        let mut caret: (u16, u16) = (0, 0);
        let mut placed = false;
        let mut i: usize = 0;
        while i < rows.len()
            invariant
                i <= rows.len(),
                chars@ == self@.text,
                self.text@ == self@.text,
                self.cursor == self@.cursor,
                self.cursor <= chars.len(),
                rows@ == text_rows(self@.text, 0, width as nat),
                forall|j: int| 0 <= j < rows@.len() ==> (#[trigger] rows@[j]).start <= rows@[j].end <= chars@.len(),
                lines@.len() == i,
                forall|j: int|
                    0 <= j < i ==> (#[trigger] lines@[j])@ == self@.text.subrange(
                        rows@[j].start as int,
                        rows@[j].end as int,
                    ),
                !placed ==> forall|j: int| 0 <= j < i ==> !shows(self@.cursor)(#[trigger] rows@[j]),
                !placed ==> caret == (0u16, 0u16),
                placed ==> caret == caret_in(rows@, self@.text, self@.cursor),
            decreases rows.len() - i,
        {
            let row = rows[i];
            lines.push(self.text.as_str().substring_char(row.start, row.end));
            if !placed && row.start <= self.cursor && (self.cursor < row.end || (self.cursor == row.end && row.last)) {
                proof {
                    assert(shows(self@.cursor)(rows@[i as int]));
                    lemma_first(rows@, shows(self@.cursor), i as int);
                }
                let part = string_of(&slice(&chars, row.start, self.cursor));
                let column = text_width(part.as_str());
                caret = (#[verifier::truncate] (i as u16), #[verifier::truncate] (column as u16));
                placed = true;
            }
            i += 1;
        }
        proof {
            if !placed {
                lemma_no_first(rows@, shows(self@.cursor));
            }
            assert(is_shown(rows@, self@.cursor));
            let k = choose|k: int| #[trigger] shown_in(rows@, self@.cursor, k);
            assert(shows(self@.cursor)(rows@[k]));
            crate::seqs::lemma_first_where(rows@, shows(self@.cursor));
            assert(lines@.map_values(|l: &str| l@) =~= row_texts(self@.text, rows@));
        }
        Wrapped { lines, caret }
    }
}

// ----------------------------------------------------------------------------- laws

/// Every place of a line, its end among them, is shown by a row, so the caret is never
/// lost.
pub proof fn law_every_place_is_shown(
    pieces: Seq<Seq<char>>,
    line: Seq<char>,
    width: nat,
    measure: spec_fn(Seq<char>) -> nat,
    base: int,
    n: int,
)
    requires
        concat(pieces) == line,
        all_nonempty(pieces),
        0 <= n <= line.len(),
        0 <= base,
        base + line.len() <= usize::MAX,
    ensures
        first_where(placed_rows(rows_of(pieces, line, width, measure), base), shows(base + n)) is Some,
{
    let rows = rows_of(pieces, line, width, measure);
    let placed = placed_rows(rows, base);
    let p = shows(base + n);
    if line.len() == 0 {
        assert(p(placed[0]));
        crate::seqs::lemma_first_where(placed, p);
    } else {
        law_rows_cover_the_line(pieces, line, width, measure);
        lemma_rows_within(rows, line.len() as int, rows.len() - 1);
        lemma_some_row(rows, line.len() as int, n, rows.len() - 1);
        let i = choose|i: int|
            {
                &&& 0 <= i < rows.len()
                &&& (#[trigger] rows[i]).0 <= n
                &&& n < rows[i].1 || (n == rows[i].1 && i == rows.len() - 1)
            };
        lemma_rows_within(rows, line.len() as int, i);
        assert(p(placed[i]));
        crate::seqs::lemma_first_where(placed, p);
    }
}

proof fn lemma_rows_within(rows: Seq<(int, int)>, end: int, i: int)
    requires
        tiles(rows, end),
        0 <= i < rows.len(),
    ensures
        0 <= rows[i].0 <= rows[i].1 <= end,
{
    lemma_rows_from(rows, end, i);
    lemma_rows_to(rows, end, i);
}

proof fn lemma_rows_from(rows: Seq<(int, int)>, end: int, i: int)
    requires
        tiles(rows, end),
        0 <= i < rows.len(),
    ensures
        0 <= rows[i].0,
    decreases i,
{
    if i > 0 {
        lemma_rows_from(rows, end, i - 1);
        assert(rows[i - 1].0 < rows[i - 1].1);
        assert(rows[i - 1].1 == rows[i].0);
    }
}

proof fn lemma_rows_to(rows: Seq<(int, int)>, end: int, i: int)
    requires
        tiles(rows, end),
        0 <= i < rows.len(),
    ensures
        rows[i].1 <= end,
    decreases rows.len() - i,
{
    if i < rows.len() - 1 {
        lemma_rows_to(rows, end, i + 1);
        assert(rows[i].1 == rows[i + 1].0);
        assert(rows[i + 1].0 < rows[i + 1].1);
    }
}

proof fn lemma_some_row(rows: Seq<(int, int)>, end: int, n: int, i: int)
    requires
        tiles(rows, end),
        0 <= i < rows.len(),
        0 <= n,
        n < rows[i].1 || (n == rows[i].1 && i == rows.len() - 1),
    ensures
        exists|j: int|
            0 <= j < rows.len() && (#[trigger] rows[j]).0 <= n && (n < rows[j].1 || (n == rows[j].1 && j == rows.len()
                - 1)),
    decreases i,
{
    if rows[i].0 <= n {
    } else if i > 0 {
        assert(rows[i - 1].1 == rows[i].0);
        lemma_some_row(rows, end, n, i - 1);
    }
}

/// Sending clears the buffer and remembers what was sent as the newest message. A message
/// that was sent just before is not remembered again; any other goes behind what is
/// remembered, of which only the oldest is forgotten, and only at the limit.
pub proof fn law_sending_is_remembered(c: ComposerModel)
    requires
        c.ok(),
        trim(c.text).len() > 0,
    ensures
        c.taken().text.len() == 0,
        c.taken().history.len() > 0,
        c.taken().history.last() == trim(c.text),
        c.history.len() > 0 && c.history.last() == trim(c.text) ==> c.taken().history == c.history,
        !(c.history.len() > 0 && c.history.last() == trim(c.text)) ==> c.taken().history == (if c.history.len()
            < HISTORY_LIMIT {
            c.history.push(trim(c.text))
        } else {
            c.history.skip(1).push(trim(c.text))
        }),
{
    assert(c.history.len() > 0 ==> c.history.push(trim(c.text)).skip(1) =~= c.history.skip(1).push(trim(c.text)));
}

/// A blank message is not remembered.
pub proof fn law_a_blank_message_is_not_remembered(c: ComposerModel)
    requires
        trim(c.text).len() == 0,
    ensures
        c.taken().history == c.history,
{
}

/// No message is remembered twice in a row, and no more than the limit.
pub proof fn law_immediate_repeats_are_not_recorded(c: ComposerModel)
    requires
        well_kept(c.history),
    ensures
        well_kept(c.taken().history),
{
    let body = trim(c.text);
    let h = c.history;
    let t = c.taken().history;
    assert forall|i: int, j: int| 0 <= i && j == i + 1 && j < t.len() implies #[trigger] t[i] != #[trigger] t[j] by {
        if t != h {
            let pushed = h.push(body);
            let shift: int = if t.len() == pushed.len() {
                0
            } else {
                1
            };
            assert(t[i] == pushed[i + shift]);
            assert(t[j] == pushed[j + shift]);
            if j + shift < h.len() {
                assert(h[i + shift] != h[j + shift]);
            }
        }
    }
}

/// `k` steps back through the history.
pub open spec fn walk_back(c: ComposerModel, k: nat) -> ComposerModel
    decreases k,
{
    if k == 0 {
        c
    } else {
        walk_back(c, (k - 1) as nat).history_prev()
    }
}

/// `k` steps on through the history.
pub open spec fn walk_on(c: ComposerModel, k: nat) -> ComposerModel
    decreases k,
{
    if k == 0 {
        c
    } else {
        walk_on(c, (k - 1) as nat).history_next()
    }
}

proof fn lemma_walk_back(c: ComposerModel, k: nat)
    requires
        c.ok(),
        c.browsing is None,
        0 < k <= c.history.len(),
    ensures
        ({
            let n = c.history.len() - k;
            walk_back(c, k) == (ComposerModel {
                text: c.history[n],
                cursor: c.history[n].len() as int,
                browsing: Some(n),
                stashed: Some(c.text),
                ..c
            })
        }),
    decreases k,
{
    if k > 1 {
        lemma_walk_back(c, (k - 1) as nat);
    } else {
        reveal_with_fuel(walk_back, 2);
    }
}

proof fn lemma_walk_on(c: ComposerModel, k: nat)
    requires
        c.ok(),
        c.browsing is Some,
        0 < k < c.history.len() - c.browsing->0,
    ensures
        ({
            let n = c.browsing->0 + k;
            walk_on(c, k) == (ComposerModel {
                text: c.history[n],
                cursor: c.history[n].len() as int,
                browsing: Some(n),
                ..c
            })
        }),
    decreases k,
{
    if k > 1 {
        lemma_walk_on(c, (k - 1) as nat);
    } else {
        reveal_with_fuel(walk_on, 2);
    }
}

/// However far back through the history one walks, walking as far on again brings the
/// parked draft back, with the caret at its end.
pub proof fn law_the_parked_draft_comes_back(c: ComposerModel, k: nat)
    requires
        c.ok(),
        c.browsing is None,
        0 < k <= c.history.len(),
    ensures
        walk_on(walk_back(c, k), k) == (ComposerModel { cursor: c.text.len() as int, stashed: None, ..c }),
{
    lemma_walk_back(c, k);
    let back = walk_back(c, k);
    if k > 1 {
        lemma_walk_on(back, (k - 1) as nat);
    } else {
        reveal_with_fuel(walk_on, 2);
    }
    assert(walk_on(back, k) == walk_on(back, (k - 1) as nat).history_next());
}

/// Editing a recalled message detaches it: there is no way on from it.
pub proof fn law_editing_detaches(c: ComposerModel, ch: char)
    ensures
        c.insert(ch).browsing is None,
        c.insert(ch).history_next() == c.insert(ch),
        c.backspace().browsing is None,
        c.delete().browsing is None,
{
}

/// Typing a character puts it right before the caret and leaves the rest alone.
pub proof fn law_typing_inserts_at_the_caret(c: ComposerModel, ch: char)
    requires
        c.ok(),
    ensures
        c.insert(ch).text == c.text.take(c.cursor).push(ch) + c.text.skip(c.cursor),
        c.insert(ch).cursor == c.cursor + 1,
        c.insert(ch).history == c.history,
{
    assert(c.insert(ch).text =~= c.text.take(c.cursor).push(ch) + c.text.skip(c.cursor));
}

/// What steps over a boundary in a text that is cut like this: the piece that ends there going
/// left is the piece that begins where it does going right.
proof fn lemma_step(text: Seq<char>, n: int)
    requires
        pieces_of(graphemes(text), text),
        0 < n <= text.len(),
        is_boundary(text, n),
    ensures
        boundary_before(text, n) is Some,
        0 <= boundary_before(text, n)->0 < n,
        boundary_after(text, boundary_before(text, n)->0) == Some(n),
{
    let all = graphemes(text);
    let k = choose|k: int| 0 <= k <= all.len() && n == concat(#[trigger] all.take(k)).len();
    lemma_concat_take(all, k);
    assert(text.take(n) =~= concat(all.take(k)));
    if k == 0 {
        assert(all.take(0) =~= Seq::<Seq<char>>::empty());
    } else {
        let m = concat(all.take(k - 1)).len() as int;
        lemma_concat_take(all, k - 1);
        lemma_concat_skip(all, k - 1);
        assert(text.skip(m) =~= concat(all.skip(k - 1)));
        assert(all.take(k).last() == all[k - 1]);
        assert(all.skip(k - 1)[0] == all[k - 1]);
        assert(all[k - 1].len() > 0);
        assert(graphemes(text.take(n)) == all.take(k));
        assert(graphemes(text.skip(m)) == all.skip(k - 1));
    }
}

/// At a boundary, stepping left and deleting is what backspace does.
pub proof fn law_left_and_delete_is_backspace(c: ComposerModel)
    requires
        c.ok(),
        pieces_of(graphemes(c.text), c.text),
        c.cursor > 0,
        is_boundary(c.text, c.cursor),
    ensures
        c.left().delete() == c.backspace(),
{
    lemma_step(c.text, c.cursor);
    let m = boundary_before(c.text, c.cursor)->0;
    assert(splice(c.text, m, c.cursor, Seq::empty()) =~= c.left().delete().text);
    assert(c.left().delete() =~= c.backspace());
}

/// At a boundary, stepping left and right again ends where it began.
pub proof fn law_right_undoes_left(c: ComposerModel)
    requires
        c.ok(),
        pieces_of(graphemes(c.text), c.text),
        c.cursor > 0,
        is_boundary(c.text, c.cursor),
    ensures
        c.left().right() == c,
{
    lemma_step(c.text, c.cursor);
}

/// Accepting a completion replaces the mention being typed and nothing else.
pub proof fn law_a_completion_replaces_only_the_mention(c: ComposerModel, with: Seq<char>)
    requires
        c.ok(),
        c.mention_query() is Some,
    ensures
        ({
            let from = (c.mention_typed()->0).0;
            let r = c.replace_mention((c.mention_query()->0).0, with);
            &&& r.text == c.text.take(from) + with + c.text.skip(c.cursor)
            &&& r.cursor == from + with.len()
            &&& c.text.subrange(from, c.cursor) == seq!['@'] + (c.mention_query()->0).1
        }),
{
    lemma_places(c.text, c.cursor);
    let from = (c.mention_typed()->0).0;
    let run = c.text.subrange(from, c.cursor);
    assert(run =~= seq!['@'] + run.skip(1));
    lemma_char_of(c.text, from);
}

} // verus!
