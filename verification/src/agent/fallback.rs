//! Best-effort recovery of agent structure from human-readable text.
//!
//! This is the compatibility path for agents that carry no structured events. It reads
//! the tool-progress chrome an agent prints for humans, which is the only structure on
//! the wire when there is no extension.
//!
//! The shapes are a [`Chrome`] table rather than a fixed parser, because every agent
//! prints slightly differently and the difference is nearly always which of a handful of
//! forms it uses:
//!
//! ```text
//! {emoji} {tool}: "{preview}"
//! {emoji} {tool}...
//! {emoji} {tool}({keys})
//! ```
//!
//! This path is lossy: there is no tool result, exit code or duration to recover. Panes
//! fed by it are marked `~`, so the degradation is visible rather than silent.

use vstd::prelude::*;

use crate::agent::protocol::{Tool, ToolModel, ToolStatus};
use crate::text::{
    chars_of, extend, find, first_at, is_space, join, joined_lines, lemma_first_at, lemma_lines_append,
    lemma_lines_hold_no_feed, lemma_one_line, lines, occurs_at, slice, split_lines, split_once, string_of,
    strip_return, trim, trim_end, trim_start, trimmed, trimmed_start,
};

verus! {

/// Which shapes of tool-progress line an agent produces.
///
/// Every flag costs false positives when it is wrong, and a false positive silently eats
/// a line of the reply. Enable only what an agent actually emits.
#[derive(Debug, Clone, Copy, PartialEq, Eq, Structural)]
pub struct Chrome {
    /// Require a leading emoji before the tool name: the only cheap signal that separates
    /// chrome from prose.
    pub leading_emoji: bool,
    /// Recognise `name: "preview"`.
    pub preview: bool,
    /// Recognise `name...`.
    pub ellipsis: bool,
    /// Recognise `name(args)`.
    pub call: bool,
}

/// A fenced code block lifted out of a message body.
#[derive(Debug, PartialEq, Eq)]
pub struct CodeBlock {
    /// The info string after the opening fence, if any.
    pub lang: Option<String>,
    pub body: String,
}

/// The mathematical content of a [`CodeBlock`].
#[verifier::ext_equal]
pub struct CodeBlockModel {
    pub lang: Option<Seq<char>>,
    pub body: Seq<char>,
}

impl View for CodeBlock {
    type V = CodeBlockModel;

    open spec fn view(&self) -> CodeBlockModel {
        CodeBlockModel {
            lang: self.lang.deep_view(),
            body: self.body@,
        }
    }
}

impl DeepView for CodeBlock {
    type V = CodeBlockModel;

    open spec fn deep_view(&self) -> CodeBlockModel {
        self@
    }
}

impl Clone for CodeBlock {
    fn clone(&self) -> (r: Self)
        ensures
            r@ == self@,
    {
        let r = CodeBlock {
            lang: match &self.lang { Some(x) => Some(x.clone()), None => None },
            body: self.body.clone(),
        };
        assert(r.lang.deep_view() =~= self.lang.deep_view());
        r
    }
}

/// What could be made of one message body.
#[derive(Debug, PartialEq, Eq)]
pub struct Parsed {
    /// Tool calls recovered from progress chrome.
    pub tools: Vec<Tool>,
    /// Fenced blocks, in order of appearance.
    pub blocks: Vec<CodeBlock>,
    /// The body with chrome lines and fenced blocks removed.
    pub prose: String,
}

/// The mathematical content of a [`Parsed`].
#[verifier::ext_equal]
pub struct ParsedModel {
    pub tools: Seq<ToolModel>,
    pub blocks: Seq<CodeBlockModel>,
    pub prose: Seq<char>,
}

impl View for Parsed {
    type V = ParsedModel;

    open spec fn view(&self) -> ParsedModel {
        ParsedModel {
            tools: self.tools.deep_view(),
            blocks: self.blocks.deep_view(),
            prose: self.prose@,
        }
    }
}

impl DeepView for Parsed {
    type V = ParsedModel;

    open spec fn deep_view(&self) -> ParsedModel {
        self@
    }
}

impl Clone for Parsed {
    fn clone(&self) -> (r: Self)
        ensures
            r@ == self@,
    {
        let r = Parsed {
            tools: self.tools.clone(),
            blocks: self.blocks.clone(),
            prose: self.prose.clone(),
        };
        assert(r.tools.deep_view() =~= self.tools.deep_view());
        assert(r.blocks.deep_view() =~= self.blocks.deep_view());
        r
    }
}

impl Chrome {
    /// Everything Hermes emits, which is also the most permissive useful setting.
    #[verifier::allow_in_spec]
    pub fn hermes() -> (r: Chrome)
        returns
            (Chrome { leading_emoji: true, preview: true, ellipsis: true, call: true }),
    {
        Chrome { leading_emoji: true, preview: true, ellipsis: true, call: true }
    }

    /// Recognise nothing. For an agent that speaks only the structured extension.
    #[verifier::allow_in_spec]
    pub fn none() -> (r: Chrome)
        returns
            (Chrome { leading_emoji: true, preview: false, ellipsis: false, call: false }),
    {
        Chrome { leading_emoji: true, preview: false, ellipsis: false, call: false }
    }

    /// Whether this table can recognise nothing at all.
    pub fn is_off(self) -> (r: bool)
        ensures
            r == self.off(),
    {
        !self.preview && !self.ellipsis && !self.call
    }

    /// Whether this table can recognise nothing at all.
    pub open spec fn off(self) -> bool {
        !self.preview && !self.ellipsis && !self.call
    }
}

impl Default for Chrome {
    fn default() -> (r: Self)
        ensures
            r == Chrome::hermes(),
    {
        Chrome::hermes()
    }
}

impl Default for Parsed {
    fn default() -> (r: Self)
        ensures
            r@ == ParsedModel::nothing(),
    {
        let r = Parsed { tools: Vec::new(), blocks: Vec::new(), prose: String::new() };
        assert(r@ =~= ParsedModel::nothing());
        r
    }
}

impl Parsed {
    /// Whether nothing agent-shaped was recovered.
    ///
    /// Tool chrome only. A fenced code block is no evidence of an agent, because humans
    /// post code too.
    pub fn is_empty(&self) -> (r: bool)
        ensures
            r == (self@.tools.len() == 0),
    {
        self.tools.len() == 0
    }
}

impl ParsedModel {
    /// Nothing at all.
    pub open spec fn nothing() -> ParsedModel {
        ParsedModel { tools: Seq::empty(), blocks: Seq::empty(), prose: Seq::empty() }
    }
}

// ----------------------------------------------------------------------- tool lines

/// Whether a character can stand in a tool name.
pub open spec fn tool_char(c: char) -> bool {
    ||| 'a' <= c <= 'z'
    ||| 'A' <= c <= 'Z'
    ||| '0' <= c <= '9'
    ||| c == '_'
    ||| c == '-'
    ||| c == '.'
}

/// Whether a text has the shape of a tool name.
pub open spec fn tool_name(s: Seq<char>) -> bool {
    0 < s.len() <= 48 && forall|i: int| 0 <= i < s.len() ==> tool_char(#[trigger] s[i])
}

/// Whether a text has the shape of a tool name: an identifier of at most 48 characters,
/// and nothing else.
///
/// White space is not in the set, so callers must not trim before asking: the space in
/// `Shipped (finally)` is the evidence that it is prose.
pub fn is_tool_name(s: &str) -> (r: bool)
    ensures
        r == tool_name(s@),
{
    names_tool(&chars_of(s))
}

fn names_tool(s: &Vec<char>) -> (r: bool)
    ensures
        r == tool_name(s@),
{
    if s.len() == 0 || s.len() > 48 {
        return false;
    }
    let mut i: usize = 0;
    while i < s.len()
        invariant
            i <= s.len(),
            forall|j: int| 0 <= j < i ==> tool_char(#[trigger] s@[j]),
        decreases s.len() - i,
    {
        let c = s[i];
        let fits = ('a' <= c && c <= 'z') || ('A' <= c && c <= 'Z') || ('0' <= c && c <= '9') || c == '_' || c == '-'
            || c == '.';
        if !fits {
            assert(!tool_char(s@[i as int]));
            return false;
        }
        i += 1;
    }
    true
}

/// Whether a character is plausibly a leading emoji: arrows, technical symbols, symbols
/// and dingbats, and the pictograph blocks.
pub open spec fn emoji_like(c: char) -> bool {
    ||| '\u{2190}' <= c <= '\u{21ff}'
    ||| '\u{2300}' <= c <= '\u{23ff}'
    ||| '\u{2600}' <= c <= '\u{27bf}'
    ||| '\u{2b00}' <= c <= '\u{2bff}'
    ||| '\u{1f300}' <= c <= '\u{1f5ff}'
    ||| '\u{1f600}' <= c <= '\u{1f64f}'
    ||| '\u{1f680}' <= c <= '\u{1f6ff}'
    ||| '\u{1f7e0}' <= c <= '\u{1f7eb}'
    ||| '\u{1f900}' <= c <= '\u{1f9ff}'
    ||| '\u{1fa00}' <= c <= '\u{1faff}'
}

/// Whether a character is plausibly a leading emoji.
pub fn is_emoji_like(c: char) -> (r: bool)
    ensures
        r == emoji_like(c),
{
    ('\u{2190}' <= c && c <= '\u{21ff}') || ('\u{2300}' <= c && c <= '\u{23ff}') || ('\u{2600}' <= c && c
        <= '\u{27bf}') || ('\u{2b00}' <= c && c <= '\u{2bff}') || ('\u{1f300}' <= c && c <= '\u{1f5ff}') || (
    '\u{1f600}' <= c && c <= '\u{1f64f}') || ('\u{1f680}' <= c && c <= '\u{1f6ff}') || ('\u{1f7e0}' <= c && c
        <= '\u{1f7eb}') || ('\u{1f900}' <= c && c <= '\u{1f9ff}') || ('\u{1fa00}' <= c && c <= '\u{1faff}')
}

/// Whether a character belongs to a leading emoji sequence: an emoji, or what joins and
/// varies them.
pub open spec fn emoji_part(c: char) -> bool {
    emoji_like(c) || c == '\u{fe0f}' || c == '\u{200d}'
}

/// The text without the emoji it begins with.
pub open spec fn skip_emoji(s: Seq<char>) -> Seq<char>
    decreases s.len(),
{
    if s.len() > 0 && emoji_part(s[0]) {
        skip_emoji(s.skip(1))
    } else {
        s
    }
}

fn without_emoji(s: &Vec<char>) -> (r: Vec<char>)
    ensures
        r@ == skip_emoji(s@),
{
    let mut i: usize = 0;
    assert(s@.skip(0) =~= s@);
    while i < s.len() && (is_emoji_like(s[i]) || s[i] == '\u{fe0f}' || s[i] == '\u{200d}')
        invariant
            i <= s.len(),
            skip_emoji(s@.skip(i as int)) == skip_emoji(s@),
        decreases s.len() - i,
    {
        assert(s@.skip(i as int).skip(1) =~= s@.skip(i + 1));
        i += 1;
    }
    assert(s@.skip(i as int) =~= s@.subrange(i as int, s@.len() as int));
    slice(s, i, s.len())
}

/// The contents of one pair of double quotes around a text.
pub open spec fn unquoted(s: Seq<char>) -> Option<Seq<char>> {
    if s.len() >= 2 && s[0] == '"' && s.last() == '"' {
        Some(s.subrange(1, s.len() - 1))
    } else {
        None
    }
}

/// The contents of a `"..."` pair, or `None` if the text is not so wrapped.
///
/// One pair, not all of them: a preview may itself begin and end with a quote.
fn quoted(text: &Vec<char>) -> (r: Option<Vec<char>>)
    ensures
        match r {
            Some(inner) => unquoted(text@) == Some(inner@),
            None => unquoted(text@) is None,
        },
{
    let n = text.len();
    if n >= 2 && text[0] == '"' && text[n - 1] == '"' {
        Some(slice(text, 1, n - 1))
    } else {
        None
    }
}

/// The card of a call recovered from text. The wire carries no completion signal here;
/// a call that ran for ever would leave its pane working, so it counts as finished.
pub open spec fn recovered(name: Seq<char>, preview: Option<Seq<char>>) -> ToolModel {
    ToolModel {
        name,
        index: 0,
        args: None,
        preview: if preview is Some && preview->0.len() > 0 {
            preview
        } else {
            None
        },
        status: ToolStatus::Success,
        duration_ms: None,
        mime: None,
        body: None,
        truncated: false,
    }
}

fn tool(name: &Vec<char>, preview: Option<Vec<char>>) -> (r: Tool)
    ensures
        r@ == recovered(
            name@,
            match preview {
                Some(p) => Some(p@),
                None => None,
            },
        ),
{
    let shown = match preview {
        Some(p) => if p.len() > 0 {
            Some(string_of(&p))
        } else {
            None
        },
        None => None,
    };
    Tool {
        name: string_of(name),
        index: 0,
        args: None,
        preview: shown,
        status: ToolStatus::Success,
        duration_ms: None,
        mime: None,
        body: None,
        truncated: false,
    }
}

/// What a line says behind its emoji, where it has what the table asks of a beginning.
pub open spec fn chrome_text(line: Seq<char>, chrome: Chrome) -> Seq<char> {
    let line = trim(line);
    if chrome.leading_emoji {
        if line.len() > 0 && emoji_like(line[0]) {
            trim_start(skip_emoji(line))
        } else {
            Seq::empty()
        }
    } else {
        line
    }
}

/// `name: "preview"`. The quotes are required: without them every sentence with a colon
/// in it would match.
pub open spec fn preview_form(text: Seq<char>) -> Option<ToolModel> {
    match split_once(text, ": "@) {
        Some((name, preview)) => if tool_name(name) && unquoted(trim(preview)) is Some {
            Some(recovered(name, unquoted(trim(preview))))
        } else {
            None
        },
        None => None,
    }
}

/// `name(args)`. The name is not trimmed, so a parenthetical after a space is prose.
pub open spec fn call_form(text: Seq<char>) -> Option<ToolModel> {
    match split_once(text, "("@) {
        Some((name, args)) => if tool_name(name) && args.len() > 0 && args.last() == ')' {
            Some(recovered(name, None))
        } else {
            None
        },
        None => None,
    }
}

/// `name...`
pub open spec fn ellipsis_form(text: Seq<char>) -> Option<ToolModel> {
    if text.len() >= 3 && text.skip(text.len() - 3) == "..."@ && tool_name(text.take(text.len() - 3)) {
        Some(recovered(text.take(text.len() - 3), None))
    } else {
        None
    }
}

/// The call that a line of progress chrome stands for; nothing for prose. A form counts
/// only where the table has it, the preview before the call before the ellipsis.
pub open spec fn tool_line(line: Seq<char>, chrome: Chrome) -> Option<ToolModel> {
    let text = chrome_text(line, chrome);
    if chrome.preview && preview_form(text) is Some {
        preview_form(text)
    } else if chrome.call && call_form(text) is Some {
        call_form(text)
    } else if chrome.ellipsis {
        ellipsis_form(text)
    } else {
        None
    }
}

proof fn lemma_empty_is_no_tool()
    ensures
        preview_form(Seq::empty()) is None,
        call_form(Seq::empty()) is None,
        ellipsis_form(Seq::empty()) is None,
{
    reveal_strlit(": ");
    reveal_strlit("(");
    let e = Seq::<char>::empty();
    assert forall|i: int| !first_at(e, ": "@, i) && !first_at(e, "("@, i) by {}
}

fn find_preview(text: &Vec<char>) -> (r: Option<Tool>)
    ensures
        match r {
            Some(t) => preview_form(text@) == Some(t@),
            None => preview_form(text@) is None,
        },
{
    let sep = chars_of(": ");
    let n = text.len();
    match find(text, &sep) {
        Some(i) => {
            proof {
                lemma_first_at(text@, sep@, i as int);
            }
            let name = slice(text, 0, i);
            let rest = slice(text, i + sep.len(), n);
            assert(name@ =~= text@.take(i as int));
            assert(rest@ =~= text@.skip(i + sep@.len()));
            if names_tool(&name) {
                match quoted(&trimmed(&rest)) {
                    Some(inner) => Some(tool(&name, Some(inner))),
                    None => None,
                }
            } else {
                None
            }
        },
        None => None,
    }
}

fn find_call(text: &Vec<char>) -> (r: Option<Tool>)
    ensures
        match r {
            Some(t) => call_form(text@) == Some(t@),
            None => call_form(text@) is None,
        },
{
    let sep = chars_of("(");
    let n = text.len();
    match find(text, &sep) {
        Some(i) => {
            proof {
                lemma_first_at(text@, sep@, i as int);
            }
            let name = slice(text, 0, i);
            let args = slice(text, i + sep.len(), n);
            assert(name@ =~= text@.take(i as int));
            assert(args@ =~= text@.skip(i + sep@.len()));
            if names_tool(&name) && args.len() > 0 && args[args.len() - 1] == ')' {
                Some(tool(&name, None))
            } else {
                None
            }
        },
        None => None,
    }
}

fn find_ellipsis(text: &Vec<char>) -> (r: Option<Tool>)
    ensures
        match r {
            Some(t) => ellipsis_form(text@) == Some(t@),
            None => ellipsis_form(text@) is None,
        },
{
    let n = text.len();
    proof {
        reveal_strlit("...");
    }
    if n < 3 {
        return None;
    }
    if text[n - 3] == '.' && text[n - 2] == '.' && text[n - 1] == '.' {
        assert(text@.skip(n - 3) =~= "..."@);
        let name = slice(text, 0, n - 3);
        assert(name@ =~= text@.take(n - 3));
        if names_tool(&name) {
            return Some(tool(&name, None));
        }
    } else {
        assert(text@.skip(n - 3)[0] == text@[n - 3]);
        assert(text@.skip(n - 3)[1] == text@[n - 2]);
        assert(text@.skip(n - 3)[2] == text@[n - 1]);
    }
    None
}

/// Recognise a single tool-progress line; nothing for ordinary prose.
///
/// Deliberately conservative: a false positive silently eats a line of the reply, which
/// is worse than missing a card.
fn parse_tool_line(line: &Vec<char>, chrome: Chrome) -> (r: Option<Tool>)
    ensures
        match r {
            Some(t) => tool_line(line@, chrome) == Some(t@),
            None => tool_line(line@, chrome) is None,
        },
{
    proof {
        lemma_empty_is_no_tool();
    }
    if chrome.is_off() {
        return None;
    }
    let text = trimmed(line);
    if text.len() == 0 {
        assert(text@ =~= Seq::<char>::empty());
        return None;
    }
    let rest = if chrome.leading_emoji {
        if !is_emoji_like(text[0]) {
            return None;
        }
        trimmed_start(&without_emoji(&text))
    } else {
        text
    };
    if chrome.preview {
        if let Some(t) = find_preview(&rest) {
            return Some(t);
        }
    }
    if chrome.call {
        if let Some(t) = find_call(&rest) {
            return Some(t);
        }
    }
    if chrome.ellipsis {
        return find_ellipsis(&rest);
    }
    None
}

// ---------------------------------------------------------------------- code blocks

/// A block that has been opened and not closed: the length of its fence, its info string
/// and its lines so far.
pub struct OpenBlock {
    pub ticks: nat,
    pub lang: Option<Seq<char>>,
    pub lines: Seq<Seq<char>>,
}

/// Blocks closed so far, text outside blocks so far, and the block that is open.
pub struct Scan {
    pub blocks: Seq<CodeBlockModel>,
    pub outside: Seq<char>,
    pub open: Option<OpenBlock>,
}

/// How many backticks a text begins with.
pub open spec fn leading_ticks(s: Seq<char>) -> nat
    decreases s.len(),
{
    if s.len() > 0 && s[0] == '`' {
        1 + leading_ticks(s.skip(1))
    } else {
        0
    }
}

/// The block that an open one becomes when it ends.
pub open spec fn closed_block(b: OpenBlock) -> CodeBlockModel {
    CodeBlockModel { lang: b.lang, body: join(b.lines, seq!['\n']) }
}

/// One more line. A fence opens a block where none is open; a fence at least as long as
/// the opening one, with nothing behind it, closes the block; anything else is content
/// of the block, or text outside blocks.
pub open spec fn scan_line(st: Scan, line: Seq<char>) -> Scan {
    let fence = trim_start(line);
    let ticks = leading_ticks(fence);
    let info = trim(fence.skip(ticks as int));
    match st.open {
        Some(b) => if ticks >= 3 && ticks >= b.ticks && info.len() == 0 {
            Scan { blocks: st.blocks.push(closed_block(b)), open: None, ..st }
        } else {
            Scan { open: Some(OpenBlock { lines: b.lines.push(line), ..b }), ..st }
        },
        None => if ticks >= 3 {
            Scan {
                open: Some(
                    OpenBlock {
                        ticks,
                        lang: if info.len() > 0 {
                            Some(info)
                        } else {
                            None
                        },
                        lines: Seq::empty(),
                    },
                ),
                ..st
            }
        } else {
            Scan { outside: st.outside + line.push('\n'), ..st }
        },
    }
}

/// The scan of these lines.
pub open spec fn scan_lines(ls: Seq<Seq<char>>) -> Scan
    decreases ls.len(),
{
    if ls.len() == 0 {
        Scan { blocks: Seq::empty(), outside: Seq::empty(), open: None }
    } else {
        scan_line(scan_lines(ls.drop_last()), ls.last())
    }
}

/// The blocks of a body, one that is never closed among them.
pub open spec fn blocks_of(body: Seq<char>) -> Seq<CodeBlockModel> {
    let st = scan_lines(lines(body));
    match st.open {
        Some(b) => st.blocks.push(closed_block(b)),
        None => st.blocks,
    }
}

/// The body without its blocks, each line with a line feed behind it.
pub open spec fn outside_blocks(body: Seq<char>) -> Seq<char> {
    scan_lines(lines(body)).outside
}

proof fn lemma_leading_ticks(s: Seq<char>, n: int)
    requires
        0 <= n <= s.len(),
        forall|i: int| 0 <= i < n ==> s[i] == '`',
        n < s.len() ==> s[n] != '`',
    ensures
        leading_ticks(s) == n,
    decreases s.len(),
{
    if n > 0 {
        assert forall|i: int| 0 <= i < n - 1 implies s.skip(1)[i] == '`' by {
            assert(s.skip(1)[i] == s[i + 1]);
        }
        if n < s.len() {
            assert(s.skip(1)[n - 1] == s[n]);
        }
        lemma_leading_ticks(s.skip(1), n - 1);
    }
}

fn count_ticks(s: &Vec<char>) -> (r: usize)
    ensures
        r == leading_ticks(s@),
        r <= s@.len(),
{
    let mut i: usize = 0;
    while i < s.len() && s[i] == '`'
        invariant
            i <= s.len(),
            forall|j: int| 0 <= j < i ==> s@[j] == '`',
        decreases s.len() - i,
    {
        i += 1;
    }
    proof {
        lemma_leading_ticks(s@, i as int);
    }
    i
}

/// A block that is being read.
struct Reading {
    ticks: usize,
    lang: Option<Vec<char>>,
    lines: Vec<Vec<char>>,
}

impl Reading {
    spec fn model(self) -> OpenBlock {
        OpenBlock {
            ticks: self.ticks as nat,
            lang: match self.lang {
                Some(l) => Some(l@),
                None => None,
            },
            lines: self.lines.deep_view(),
        }
    }
}

spec fn reading_model(r: Option<Reading>) -> Option<OpenBlock> {
    match r {
        Some(b) => Some(b.model()),
        None => None,
    }
}

fn finish(b: Reading) -> (r: CodeBlock)
    ensures
        r@ == closed_block(b.model()),
{
    CodeBlock {
        lang: match &b.lang {
            Some(l) => Some(string_of(l)),
            None => None,
        },
        body: string_of(&joined_lines(&b.lines)),
    }
}

/// Split fenced code blocks out of a body, giving the blocks and the remaining text.
///
/// Fence length is tracked: a block is closed only by a run of at least as many
/// backticks as opened it, so a shorter fence inside it is content. A fence that is
/// never closed keeps what it holds.
pub fn extract_code_blocks(body: &str) -> (r: (Vec<CodeBlock>, String))
    ensures
        r.0.deep_view() == blocks_of(body@),
        r.1@ == outside_blocks(body@),
{
    let source = split_lines(&chars_of(body));
    let ghost all = source.deep_view();
    let mut blocks: Vec<CodeBlock> = Vec::new();
    let mut outside: Vec<char> = Vec::new();
    let mut open: Option<Reading> = None;
    let mut i: usize = 0;
    assert(blocks.deep_view() =~= Seq::<CodeBlockModel>::empty());
    assert(outside@ =~= Seq::<char>::empty());
    while i < source.len()
        invariant
            i <= source.len(),
            all == source.deep_view(),
            blocks.deep_view() == scan_lines(all.take(i as int)).blocks,
            outside@ == scan_lines(all.take(i as int)).outside,
            reading_model(open) == scan_lines(all.take(i as int)).open,
        decreases source.len() - i,
    {
        let line = &source[i];
        let ghost st = scan_lines(all.take(i as int));
        proof {
            assert(line.deep_view() =~= line@);
            assert(all.take(i + 1).drop_last() =~= all.take(i as int));
            assert(all.take(i + 1).last() == line@);
        }
        let fence = trimmed_start(line);
        let ticks = count_ticks(&fence);
        let tail = slice(&fence, ticks, fence.len());
        assert(tail@ =~= fence@.skip(ticks as int));
        let info = trimmed(&tail);
        let ghost prior = blocks.deep_view();
        let current = open;
        match current {
            Some(mut b) => {
                if ticks >= 3 && ticks >= b.ticks && info.len() == 0 {
                    blocks.push(finish(b));
                    open = None;
                    assert(blocks.deep_view() =~= prior.push(closed_block(st.open->0)));
                } else {
                    let ghost held = b.lines.deep_view();
                    let ghost was = b.model();
                    let copy = slice(line, 0, line.len());
                    assert(copy@ =~= line@);
                    assert(copy.deep_view() =~= line@);
                    b.lines.push(copy);
                    assert(b.lines.deep_view() =~= held.push(line@));
                    open = Some(b);
                }
            },
            None => {
                if ticks >= 3 {
                    let fresh = Reading {
                        ticks,
                        lang: if info.len() > 0 {
                            Some(info)
                        } else {
                            None
                        },
                        lines: Vec::new(),
                    };
                    assert(fresh.lines.deep_view() =~= Seq::<Seq<char>>::empty());
                    open = Some(fresh);
                } else {
                    let ghost held = outside@;
                    extend(&mut outside, line);
                    outside.push('\n');
                    assert(outside@ =~= held + line@.push('\n'));
                    open = None;
                }
            },
        }
        i += 1;
    }
    assert(all.take(all.len() as int) =~= all);
    let ghost prior = blocks.deep_view();
    if let Some(b) = open {
        blocks.push(finish(b));
        assert(blocks.deep_view() =~= prior.push(closed_block(scan_lines(all).open->0)));
    }
    (blocks, string_of(&outside))
}

// -------------------------------------------------------------------------- parsing

/// The calls that these lines stand for, numbered in order.
pub open spec fn tools_of(ls: Seq<Seq<char>>, chrome: Chrome) -> Seq<ToolModel>
    decreases ls.len(),
{
    if ls.len() == 0 {
        Seq::empty()
    } else {
        let rest = tools_of(ls.drop_last(), chrome);
        match tool_line(ls.last(), chrome) {
            Some(t) => rest.push(ToolModel { index: rest.len() as u32, ..t }),
            None => rest,
        }
    }
}

/// The lines that stand for no call.
pub open spec fn prose_of(ls: Seq<Seq<char>>, chrome: Chrome) -> Seq<Seq<char>>
    decreases ls.len(),
{
    if ls.len() == 0 {
        Seq::empty()
    } else {
        let rest = prose_of(ls.drop_last(), chrome);
        match tool_line(ls.last(), chrome) {
            Some(_) => rest,
            None => rest.push(ls.last()),
        }
    }
}

/// What a body parses to: its blocks, the calls on the lines outside them, and what is
/// left of those lines.
pub open spec fn parsed(body: Seq<char>, chrome: Chrome) -> ParsedModel {
    let ls = lines(outside_blocks(body));
    ParsedModel {
        tools: tools_of(ls, chrome),
        blocks: blocks_of(body),
        prose: trim(join(prose_of(ls, chrome), seq!['\n'])),
    }
}

/// Parse a plain message body with the chrome that Hermes emits.
pub fn parse(body: &str) -> (r: Parsed)
    ensures
        r@ == parsed(body@, Chrome::hermes()),
{
    parse_with(body, Chrome::hermes())
}

/// Parse a plain message body into tool cards, code blocks and remaining prose.
pub fn parse_with(body: &str, chrome: Chrome) -> (r: Parsed)
    ensures
        r@ == parsed(body@, chrome),
{
    let (blocks, outside) = extract_code_blocks(body);
    let source = split_lines(&chars_of(outside.as_str()));
    let ghost all = source.deep_view();
    let mut tools: Vec<Tool> = Vec::new();
    let mut prose: Vec<Vec<char>> = Vec::new();
    let mut i: usize = 0;
    assert(tools.deep_view() =~= Seq::<ToolModel>::empty());
    assert(prose.deep_view() =~= Seq::<Seq<char>>::empty());
    while i < source.len()
        invariant
            i <= source.len(),
            all == source.deep_view(),
            tools.deep_view() == tools_of(all.take(i as int), chrome),
            prose.deep_view() == prose_of(all.take(i as int), chrome),
        decreases source.len() - i,
    {
        let line = &source[i];
        let ghost had = tools.deep_view();
        let ghost kept = prose.deep_view();
        proof {
            assert(line.deep_view() =~= line@);
            assert(all.take(i + 1).drop_last() =~= all.take(i as int));
            assert(all.take(i + 1).last() == line@);
        }
        match parse_tool_line(line, chrome) {
            Some(mut t) => {
                t.index = #[verifier::truncate] (tools.len() as u32);
                tools.push(t);
                assert(tools.deep_view() =~= had.push(t@));
            },
            None => {
                let copy = slice(line, 0, line.len());
                assert(copy@ =~= line@);
                assert(copy.deep_view() =~= line@);
                prose.push(copy);
                assert(prose.deep_view() =~= kept.push(line@));
            },
        }
        i += 1;
    }
    assert(all.take(all.len() as int) =~= all);
    Parsed { tools, blocks, prose: string_of(&trimmed(&joined_lines(&prose))) }
}

// ----------------------------------------------------------------------------- laws

/// A table that recognises nothing recovers no call, whatever the body.
pub proof fn law_nothing_is_recovered_when_off(body: Seq<char>, chrome: Chrome)
    requires
        chrome.off(),
    ensures
        parsed(body, chrome).tools.len() == 0,
{
    lemma_off(lines(outside_blocks(body)), chrome);
}

proof fn lemma_off(ls: Seq<Seq<char>>, chrome: Chrome)
    requires
        chrome.off(),
    ensures
        tools_of(ls, chrome).len() == 0,
    decreases ls.len(),
{
    if ls.len() > 0 {
        lemma_off(ls.drop_last(), chrome);
    }
}

/// Every line outside the blocks is either a call or prose: none is dropped, none counts
/// as both.
pub proof fn law_no_line_is_eaten(ls: Seq<Seq<char>>, chrome: Chrome)
    ensures
        tools_of(ls, chrome).len() + prose_of(ls, chrome).len() == ls.len(),
    decreases ls.len(),
{
    if ls.len() > 0 {
        law_no_line_is_eaten(ls.drop_last(), chrome);
    }
}

/// Calls are numbered by their position, since the wire gives no numbers.
pub proof fn law_calls_are_numbered(ls: Seq<Seq<char>>, chrome: Chrome, i: int)
    requires
        0 <= i < tools_of(ls, chrome).len(),
    ensures
        tools_of(ls, chrome)[i].index == i as u32,
    decreases ls.len(),
{
    let rest = tools_of(ls.drop_last(), chrome);
    if i < rest.len() {
        law_calls_are_numbered(ls.drop_last(), chrome, i);
    }
}

/// With an emoji required, a line that does not begin with one is prose, so chrome-like
/// text in a sentence is left alone.
pub proof fn law_prose_without_an_emoji_is_left_alone(line: Seq<char>, chrome: Chrome)
    requires
        chrome.leading_emoji,
        trim(line).len() == 0 || !emoji_like(trim(line)[0]),
    ensures
        tool_line(line, chrome) is None,
{
    lemma_empty_is_no_tool();
}

/// While a block is open, a line adds nothing to the text outside blocks: chrome inside
/// a code block is a sample, not a call.
pub proof fn law_a_block_keeps_its_lines(st: Scan, line: Seq<char>)
    requires
        st.open is Some,
    ensures
        scan_line(st, line).outside == st.outside,
{
}

/// Whether a line feed of this text stands behind a carriage return.
pub open spec fn has_return_before_feed(s: Seq<char>) -> bool {
    exists|i: int| 0 < i < s.len() && #[trigger] s[i] == '\n' && s[i - 1] == '\r'
}

/// What is left outside the blocks of a body holds no block, and extracting from it
/// again leaves it as it is. Where a line of it ends in a carriage return of its own,
/// reading it again takes that for a part of the line's ending; nothing else changes.
pub proof fn law_extracting_again_finds_nothing(body: Seq<char>)
    ensures
        blocks_of(outside_blocks(body)).len() == 0,
        !has_return_before_feed(outside_blocks(body)) ==> outside_blocks(outside_blocks(body)) == outside_blocks(body),
{
    lemma_lines_hold_no_feed(body);
    lemma_outside_again(lines(body));
}

proof fn lemma_outside_again(ls: Seq<Seq<char>>)
    requires
        forall|i: int, j: int| 0 <= i < ls.len() && 0 <= j < ls[i].len() ==> ls[i][j] != '\n',
    ensures
        ({
            let outside = scan_lines(ls).outside;
            let again = scan_lines(lines(outside));
            &&& outside.len() == 0 || outside.last() == '\n'
            &&& again.blocks.len() == 0
            &&& again.open is None
            &&& !has_return_before_feed(outside) ==> again.outside == outside
        }),
    decreases ls.len(),
{
    if ls.len() > 0 {
        let most = ls.drop_last();
        let l = ls.last();
        lemma_outside_again(most);
        let was = scan_lines(most).outside;
        let outside = scan_lines(ls).outside;
        if scan_lines(most).open is None && leading_ticks(trim_start(l)) < 3 {
            assert(!l.contains('\n'));
            lemma_lines_append(was, l.push('\n'));
            lemma_one_line(l);
            let kept = strip_return(l);
            assert(outside == was + l.push('\n'));
            assert(lines(outside) =~= lines(was).push(kept));
            assert(lines(outside).drop_last() =~= lines(was));
            assert(scan_lines(lines(outside)) == scan_line(scan_lines(lines(was)), kept));
            lemma_ticks_without_return(l);
            if !has_return_before_feed(outside) {
                assert forall|i: int| 0 < i < was.len() && #[trigger] was[i] == '\n' implies was[i - 1] != '\r' by {
                    assert(outside[i] == was[i] && outside[i - 1] == was[i - 1]);
                }
                if l.len() > 0 {
                    let end = outside.len() - 1;
                    assert(outside[end] == '\n' && outside[end - 1] == l.last());
                }
                assert(kept == l);
            }
        }
    } else {
        assert(lines(Seq::<char>::empty()) =~= Seq::<Seq<char>>::empty());
    }
}

proof fn lemma_ticks_without_return(l: Seq<char>)
    ensures
        leading_ticks(trim_start(strip_return(l))) <= leading_ticks(trim_start(l)),
    decreases l.len(),
{
    if l.len() > 0 && l.last() == '\r' {
        let kept = l.drop_last();
        if is_space(l[0]) {
            if l.len() > 1 {
                assert(l.skip(1).last() == '\r');
                assert(l.skip(1).drop_last() =~= kept.skip(1));
                lemma_ticks_without_return(l.skip(1));
            }
        } else {
            lemma_ticks_of_a_prefix(kept, l);
        }
    }
}

proof fn lemma_ticks_of_a_prefix(a: Seq<char>, b: Seq<char>)
    requires
        a.is_prefix_of(b),
    ensures
        leading_ticks(a) <= leading_ticks(b),
    decreases a.len(),
{
    if a.len() > 0 && a[0] == '`' {
        assert(b[0] == a[0]);
        assert(a.skip(1).is_prefix_of(b.skip(1)));
        lemma_ticks_of_a_prefix(a.skip(1), b.skip(1));
    }
}

/// A table is off exactly where no body at all yields a call.
pub proof fn law_a_table_is_off_when_it_recognises_nothing(chrome: Chrome)
    ensures
        chrome.off() <==> forall|body: Seq<char>| (#[trigger] parsed(body, chrome)).tools.len() == 0,
{
    if chrome.off() {
        assert forall|body: Seq<char>| (#[trigger] parsed(body, chrome)).tools.len() == 0 by {
            lemma_off(lines(outside_blocks(body)), chrome);
        }
    } else {
        let text = if chrome.preview {
            seq!['a', ':', ' ', '"', '"']
        } else if chrome.call {
            seq!['a', '(', ')']
        } else {
            seq!['a', '.', '.', '.']
        };
        let line = if chrome.leading_emoji {
            seq!['\u{2699}', ' '] + text
        } else {
            text
        };
        lemma_a_call_of_each_form(text, chrome);
        lemma_text_of_a_line(line, text, chrome);
        assert(!line.contains('\n'));
        assert(line.last() != '\r');
        lemma_one_line(line);
        let body = line.push('\n');
        assert(lines(body) == seq![line]);
        assert(trim_start(line) == line);
        assert(leading_ticks(line) == 0);
        assert(seq![line].drop_last() =~= Seq::<Seq<char>>::empty());
        assert(scan_lines(seq![line]) == scan_line(scan_lines(Seq::empty()), line));
        assert(outside_blocks(body) =~= body);
        assert(tools_of(seq![line].drop_last(), chrome).len() == 0);
        assert(parsed(body, chrome).tools.len() == 1);
    }
}

proof fn lemma_a_call_of_each_form(text: Seq<char>, chrome: Chrome)
    requires
        !chrome.off(),
        text == if chrome.preview {
            seq!['a', ':', ' ', '"', '"']
        } else if chrome.call {
            seq!['a', '(', ')']
        } else {
            seq!['a', '.', '.', '.']
        },
    ensures
        chrome.preview ==> preview_form(text) is Some,
        !chrome.preview && chrome.call ==> call_form(text) is Some,
        !chrome.preview && !chrome.call ==> ellipsis_form(text) is Some,
{
    let name = seq!['a'];
    assert(tool_name(name));
    reveal_strlit(": ");
    reveal_strlit("(");
    reveal_strlit("...");
    if chrome.preview {
        assert(text.subrange(1, 3) =~= ": "@);
        assert(occurs_at(text, ": "@, 1));
        assert(text.subrange(0, 2)[0] == 'a');
        assert(first_at(text, ": "@, 1));
        lemma_first_at(text, ": "@, 1);
        assert(text.take(1) =~= name);
        assert(text.skip(3) =~= seq!['"', '"']);
        assert(trim_start(text.skip(3)) == text.skip(3));
        assert(trim(text.skip(3)) == text.skip(3));
    } else if chrome.call {
        assert(text.subrange(1, 2) =~= "("@);
        assert(occurs_at(text, "("@, 1));
        assert(text.subrange(0, 1)[0] == 'a');
        assert(first_at(text, "("@, 1));
        lemma_first_at(text, "("@, 1);
        assert(text.take(1) =~= name);
        assert(text.skip(2) =~= seq![')']);
    } else {
        assert(text.skip(1) =~= "..."@);
        assert(text.take(1) =~= name);
    }
}

proof fn lemma_text_of_a_line(line: Seq<char>, text: Seq<char>, chrome: Chrome)
    requires
        text.len() > 0,
        text[0] == 'a',
        !is_space(text.last()),
        line == if chrome.leading_emoji {
            seq!['\u{2699}', ' '] + text
        } else {
            text
        },
    ensures
        chrome_text(line, chrome) == text,
{
    assert(line.last() == text.last());
    assert(trim_start(line) == line);
    assert(trim(line) == line);
    if chrome.leading_emoji {
        assert(emoji_part(line[0]));
        assert(line.skip(1)[0] == ' ');
        assert(skip_emoji(line.skip(1)) == line.skip(1));
        assert(skip_emoji(line) == line.skip(1));
        assert(line.skip(1).skip(1) =~= text);
        assert(trim_start(text) == text);
        assert(trim_start(line.skip(1)) == text);
    }
}

} // verus!
