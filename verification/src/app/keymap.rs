//! Modal input.
//!
//! Three modes, following the usual multiplexers so that muscle memory transfers:
//!
//! * **Normal**: motions and single-key actions.
//! * **Prefix**: entered with the prefix key; the next key is one action.
//! * **Insert**: keys go to the composer.

use vstd::prelude::*;
use vstd::string::*;

use crate::app::glyphs::{ALT_SIGN, SHIFT_SIGN};
use crate::layout::tiling::Dir;
use crate::text::{before, chars_of, decimal, decimal_text, lemma_before_is, same_chars, slice, trim, trimmed};

verus! {

#[derive(Debug, Clone, Copy, PartialEq, Eq, Structural)]
pub enum Mode {
    Normal,
    /// The prefix key was pressed; awaiting one action key.
    Prefix,
    Insert,
}

impl Default for Mode {
    fn default() -> (r: Self)
        ensures
            r == Mode::Normal,
    {
        Mode::Normal
    }
}

/// Everything the client can be asked to do.
#[derive(Debug, Clone, Copy, PartialEq, Eq, Structural)]
pub enum Action {
    // Modes
    EnterInsert,
    EnterNormal,
    /// Step back from whatever is open.
    Cancel,
    /// Take whatever is highlighted.
    Accept,
    // Panes
    Split(Dir),
    FocusPane(Dir),
    ResizePane(Dir),
    ZoomPane,
    ClosePane,
    NewThread,
    OpenThreads,
    // Tabs and workspaces
    NextTab,
    PrevTab,
    NextWorkspace,
    PrevWorkspace,
    WorkspaceSwitcher,
    FuzzyJump,
    CommandPalette,
    JoinRoom,
    LeaveRoom,
    // Transcript
    ScrollUp(u16),
    ScrollDown(u16),
    ScrollTop,
    ScrollBottom,
    SelectOlder,
    SelectNewer,
    ToggleCard,
    Reply,
    EditMessage,
    RedactMessage,
    ReactToSelected,
    // Prompts
    Approve,
    Deny,
    StartVerification,
    OpenRecovery,
    // Composer
    Insert(char),
    Backspace,
    Delete,
    DeleteWord,
    DeleteToLineStart,
    Submit,
    Newline,
    Complete,
    EmojiIntoComposer,
    CaretLeft,
    CaretRight,
    CaretWordLeft,
    CaretWordRight,
    CaretHome,
    CaretEnd,
    CaretUp,
    CaretDown,
    // The rest
    ToggleHelp,
    Redraw,
    Quit,
    /// A key that means nothing in this mode. Swallowed.
    Ignore,
}

/// A key.
#[derive(Debug, Clone, Copy, PartialEq, Eq, Structural)]
pub enum KeyCode {
    Char(char),
    F(u8),
    Esc,
    Tab,
    Enter,
    Backspace,
    Delete,
    Left,
    Right,
    Up,
    Down,
    Home,
    End,
    PageUp,
    PageDown,
    /// Any other key.
    Other,
}

/// The modifiers that count. Terminals set others inconsistently, so those are not kept.
#[derive(Debug, Clone, Copy, PartialEq, Eq, Structural)]
pub struct KeyModifiers {
    pub control: bool,
    pub alt: bool,
    pub shift: bool,
}

impl KeyModifiers {
    #[verifier::allow_in_spec]
    pub fn none() -> (r: KeyModifiers)
        returns
            (KeyModifiers { control: false, alt: false, shift: false }),
    {
        KeyModifiers { control: false, alt: false, shift: false }
    }

    #[verifier::allow_in_spec]
    pub fn control() -> (r: KeyModifiers)
        returns
            (KeyModifiers { control: true, alt: false, shift: false }),
    {
        KeyModifiers { control: true, alt: false, shift: false }
    }

    #[verifier::allow_in_spec]
    pub fn alt() -> (r: KeyModifiers)
        returns
            (KeyModifiers { control: false, alt: true, shift: false }),
    {
        KeyModifiers { control: false, alt: true, shift: false }
    }

    #[verifier::allow_in_spec]
    pub fn shift() -> (r: KeyModifiers)
        returns
            (KeyModifiers { control: false, alt: false, shift: true }),
    {
        KeyModifiers { control: false, alt: false, shift: true }
    }
}

/// A key press.
#[derive(Debug, Clone, Copy, PartialEq, Eq, Structural)]
pub struct KeyEvent {
    pub code: KeyCode,
    pub modifiers: KeyModifiers,
}

impl KeyEvent {
    pub fn new(code: KeyCode, modifiers: KeyModifiers) -> (r: Self)
        ensures
            r == (KeyEvent { code, modifiers }),
    {
        KeyEvent { code, modifiers }
    }
}

/// A parsed prefix key, e.g. `ctrl+a`.
#[derive(Debug, Clone, Copy, PartialEq, Eq, Structural)]
pub struct Prefix {
    pub code: KeyCode,
    pub modifiers: KeyModifiers,
}

impl Default for Prefix {
    fn default() -> (r: Self)
        ensures
            r == (Prefix { code: KeyCode::Char('a'), modifiers: KeyModifiers::control() }),
    {
        Prefix { code: KeyCode::Char('a'), modifiers: KeyModifiers::control() }
    }
}

/// The ASCII lower case of a character.
pub open spec fn ascii_lower(c: char) -> char {
    if 'A' <= c <= 'Z' {
        ((c as u32) + 32) as char
    } else {
        c
    }
}

/// The ASCII lower case of a text.
pub open spec fn ascii_lowered(s: Seq<char>) -> Seq<char> {
    s.map_values(|c: char| ascii_lower(c))
}

/// The ASCII lower case of a character.
pub fn lower(c: char) -> (r: char)
    ensures
        r == ascii_lower(c),
{
    match c {
        'A' => 'a',
        'B' => 'b',
        'C' => 'c',
        'D' => 'd',
        'E' => 'e',
        'F' => 'f',
        'G' => 'g',
        'H' => 'h',
        'I' => 'i',
        'J' => 'j',
        'K' => 'k',
        'L' => 'l',
        'M' => 'm',
        'N' => 'n',
        'O' => 'o',
        'P' => 'p',
        'Q' => 'q',
        'R' => 'r',
        'S' => 's',
        'T' => 't',
        'U' => 'u',
        'V' => 'v',
        'W' => 'w',
        'X' => 'x',
        'Y' => 'y',
        'Z' => 'z',
        _ => c,
    }
}

/// The ASCII lower case of a text.
pub fn lowered(s: &Vec<char>) -> (r: Vec<char>)
    ensures
        r@ == ascii_lowered(s@),
{
    let mut out: Vec<char> = Vec::new();
    let mut i: usize = 0;
    while i < s.len()
        invariant
            i <= s.len(),
            out@ == ascii_lowered(s@).take(i as int),
        decreases s.len() - i,
    {
        out.push(lower(s[i]));
        assert(out@ =~= ascii_lowered(s@).take(i + 1));
        i += 1;
    }
    assert(ascii_lowered(s@).take(s.len() as int) =~= ascii_lowered(s@));
    out
}

/// The value of a decimal digit.
pub open spec fn digit_value(c: char) -> Option<nat> {
    if '0' <= c <= '9' {
        Some(((c as int) - ('0' as int)) as nat)
    } else {
        None
    }
}

/// The number that digits stand for; nothing where there are none, or anything else.
pub open spec fn number(s: Seq<char>) -> Option<nat>
    decreases s.len(),
{
    if s.len() == 0 {
        None
    } else if s.len() == 1 {
        digit_value(s[0])
    } else {
        match (number(s.drop_last()), digit_value(s.last())) {
            (Some(n), Some(d)) => Some(n * 10 + d),
            _ => None,
        }
    }
}

/// The key that a name stands for.
pub open spec fn key_named(s: Seq<char>) -> Option<KeyCode> {
    if s == "esc"@ || s == "escape"@ {
        Some(KeyCode::Esc)
    } else if s == "tab"@ {
        Some(KeyCode::Tab)
    } else if s == "space"@ {
        Some(KeyCode::Char(' '))
    } else if s == "enter"@ || s == "return"@ {
        Some(KeyCode::Enter)
    } else if s.len() > 0 && s[0] == 'f' && number(s.skip(1)) is Some && number(s.skip(1))->0 <= 255 {
        Some(KeyCode::F(number(s.skip(1))->0 as u8))
    } else if s.len() == 1 {
        Some(KeyCode::Char(s[0]))
    } else {
        None
    }
}

/// A modifier put to others, by its name.
pub open spec fn with_modifier(m: KeyModifiers, name: Seq<char>) -> Option<KeyModifiers> {
    if name == "ctrl"@ || name == "control"@ {
        Some(KeyModifiers { control: true, ..m })
    } else if name == "alt"@ || name == "meta"@ {
        Some(KeyModifiers { alt: true, ..m })
    } else if name == "shift"@ {
        Some(KeyModifiers { shift: true, ..m })
    } else {
        None
    }
}

/// What a binding stands for: names of modifiers, each with a `+` behind it, and the name
/// of a key.
pub open spec fn binding(s: Seq<char>, m: KeyModifiers) -> Option<Prefix>
    decreases s.len(),
{
    let n = before(s, '+') as int;
    if n >= s.len() {
        match key_named(s) {
            Some(code) => Some(Prefix { code, modifiers: m }),
            None => None,
        }
    } else {
        match with_modifier(m, s.take(n)) {
            Some(more) => binding(s.skip(n + 1), more),
            None => None,
        }
    }
}

fn is_text(s: &Vec<char>, t: &str) -> (r: bool)
    ensures
        r == (s@ == t@),
{
    same_chars(s, &chars_of(t))
}

fn read_digit(c: char) -> (r: Option<u32>)
    ensures
        match r {
            Some(d) => digit_value(c) == Some(d as nat) && d < 10,
            None => digit_value(c) is None,
        },
{
    match c {
        '0' => Some(0),
        '1' => Some(1),
        '2' => Some(2),
        '3' => Some(3),
        '4' => Some(4),
        '5' => Some(5),
        '6' => Some(6),
        '7' => Some(7),
        '8' => Some(8),
        '9' => Some(9),
        _ => None,
    }
}

proof fn lemma_number_prefix(s: Seq<char>, n: int)
    requires
        0 < n <= s.len(),
    ensures
        number(s) is Some ==> number(s.take(n)) is Some && number(s.take(n))->0 <= number(s)->0,
    decreases s.len(),
{
    if n == s.len() {
        assert(s.take(n) =~= s);
    } else {
        lemma_number_prefix(s.drop_last(), n);
        assert(s.drop_last().take(n) =~= s.take(n));
    }
}

/// Read the number that the characters behind the first stand for, up to 255.
fn read_small(s: &Vec<char>) -> (r: Option<u8>)
    requires
        s.len() > 0,
    ensures
        match r {
            Some(n) => number(s@.skip(1)) == Some(n as nat),
            None => number(s@.skip(1)) is None || number(s@.skip(1))->0 > 255,
        },
{
    let ghost digits = s@.skip(1);
    if s.len() == 1 {
        assert(digits.len() == 0);
        return None;
    }
    let mut value: u32 = 0;
    let mut i: usize = 1;
    while i < s.len()
        invariant
            1 <= i <= s.len(),
            s.len() > 1,
            digits == s@.skip(1),
            value <= 255,
            i == 1 ==> value == 0,
            i > 1 ==> number(digits.take(i - 1)) == Some(value as nat),
        decreases s.len() - i,
    {
        proof {
            assert(digits[i - 1] == s@[i as int]);
            assert(digits.take(i as int).drop_last() =~= digits.take(i - 1));
            assert(digits.take(i as int).last() == digits[i - 1]);
            lemma_number_prefix(digits, i as int);
        }
        match read_digit(s[i]) {
            Some(d) => {
                value = value * 10 + d;
                assert(number(digits.take(i as int)) == Some(value as nat));
                if value > 255 {
                    return None;
                }
            },
            None => {
                assert(number(digits.take(i as int)) is None);
                return None;
            },
        }
        i += 1;
    }
    assert(digits.take(digits.len() as int) =~= digits);
    Some(value as u8)
}

fn find_key(s: &Vec<char>) -> (r: Option<KeyCode>)
    ensures
        r == key_named(s@),
{
    if is_text(s, "esc") || is_text(s, "escape") {
        return Some(KeyCode::Esc);
    }
    if is_text(s, "tab") {
        return Some(KeyCode::Tab);
    }
    if is_text(s, "space") {
        return Some(KeyCode::Char(' '));
    }
    if is_text(s, "enter") || is_text(s, "return") {
        return Some(KeyCode::Enter);
    }
    if s.len() > 0 && s[0] == 'f' {
        if let Some(n) = read_small(s) {
            return Some(KeyCode::F(n));
        }
    }
    if s.len() == 1 {
        Some(KeyCode::Char(s[0]))
    } else {
        None
    }
}

impl Prefix {
    /// Parse a binding such as `ctrl+a`, `alt+x` or `f1`.
    ///
    /// Returns `None` for anything that cannot be parsed, so the caller can warn and fall
    /// back rather than silently binding the wrong key.
    pub fn parse(spec: &str) -> (r: Option<Self>)
        ensures
            r == binding(ascii_lowered(trim(spec@)), KeyModifiers::none()),
    {
        let mut rest = lowered(&trimmed(&chars_of(spec)));
        let mut modifiers = KeyModifiers::none();
        let ghost whole = rest@;
        loop
            invariant
                binding(rest@, modifiers) == binding(whole, KeyModifiers::none()),
                whole == ascii_lowered(trim(spec@)),
            decreases rest.len(),
        {
            let mut n: usize = 0;
            while n < rest.len() && rest[n] != '+'
                invariant
                    n <= rest.len(),
                    forall|i: int| 0 <= i < n ==> rest@[i] != '+',
                decreases rest.len() - n,
            {
                n += 1;
            }
            proof {
                lemma_before_is(rest@, '+', n as int);
            }
            if n == rest.len() {
                return match find_key(&rest) {
                    Some(code) => Some(Prefix { code, modifiers }),
                    None => None,
                };
            }
            let head = slice(&rest, 0, n);
            assert(head@ =~= rest@.take(n as int));
            if is_text(&head, "ctrl") || is_text(&head, "control") {
                modifiers.control = true;
            } else if is_text(&head, "alt") || is_text(&head, "meta") {
                modifiers.alt = true;
            } else if is_text(&head, "shift") {
                modifiers.shift = true;
            } else {
                return None;
            }
            let tail = slice(&rest, n + 1, rest.len());
            assert(tail@ =~= rest@.skip(n + 1));
            rest = tail;
        }
    }

    /// Whether a key press is this key.
    pub fn matches(&self, key: &KeyEvent) -> (r: bool)
        ensures
            r == self.is_pressed(*key),
    {
        key.code == self.code && key.modifiers == self.modifiers
    }

    /// Whether a key press is this key.
    pub open spec fn is_pressed(self, key: KeyEvent) -> bool {
        key.code == self.code && key.modifiers == self.modifiers
    }

    /// The key as it is written: a sign for each modifier and the name of the key.
    pub open spec fn written(self) -> Seq<char> {
        (if self.modifiers.control {
            "^"@
        } else {
            ""@
        }) + (if self.modifiers.alt {
            ALT_SIGN@
        } else {
            ""@
        }) + (if self.modifiers.shift {
            SHIFT_SIGN@
        } else {
            ""@
        }) + (match self.code {
            KeyCode::Char(c) => if c == ' ' {
                "space"@
            } else {
                seq![c]
            },
            KeyCode::F(n) => "f"@ + decimal(n as nat),
            KeyCode::Esc => "esc"@,
            KeyCode::Tab => "tab"@,
            KeyCode::Enter => "enter"@,
            _ => ""@,
        })
    }

    /// The key as it is written for the user.
    pub fn label(&self) -> (r: String)
        ensures
            r@ == self.written(),
    {
        let mut s = if self.modifiers.control {
            "^".to_owned()
        } else {
            "".to_owned()
        };
        s.append(if self.modifiers.alt {
            ALT_SIGN
        } else {
            ""
        });
        s.append(if self.modifiers.shift {
            SHIFT_SIGN
        } else {
            ""
        });
        let ghost signs = s@;
        match self.code {
            KeyCode::Char(c) => {
                if c == ' ' {
                    s.append("space");
                } else {
                    s.push(c);
                    assert(s@ =~= signs + seq![c]);
                }
            },
            KeyCode::F(n) => {
                s.append("f");
                s.append(decimal_text(n as u64).as_str());
                assert(s@ =~= signs + ("f"@ + decimal(n as nat)));
            },
            KeyCode::Esc => {
                s.append("esc");
            },
            KeyCode::Tab => {
                s.append("tab");
            },
            KeyCode::Enter => {
                s.append("enter");
            },
            _ => {
                s.append("");
            },
        }
        s
    }
}

/// What a key does behind the prefix.
pub open spec fn prefixed(code: KeyCode) -> Action {
    match code {
        KeyCode::Char(c) => if c == '|' || c == '\\' {
            Action::Split(Dir::Right)
        } else if c == '-' || c == '_' {
            Action::Split(Dir::Down)
        } else if c == 'h' {
            Action::FocusPane(Dir::Left)
        } else if c == 'j' {
            Action::FocusPane(Dir::Down)
        } else if c == 'k' {
            Action::FocusPane(Dir::Up)
        } else if c == 'l' {
            Action::FocusPane(Dir::Right)
        } else if c == 'H' {
            Action::ResizePane(Dir::Left)
        } else if c == 'J' {
            Action::ResizePane(Dir::Down)
        } else if c == 'K' {
            Action::ResizePane(Dir::Up)
        } else if c == 'L' {
            Action::ResizePane(Dir::Right)
        } else if c == 'z' {
            Action::ZoomPane
        } else if c == 'x' {
            Action::ClosePane
        } else if c == 'c' {
            Action::NewThread
        } else if c == 't' {
            Action::OpenThreads
        } else if c == 'n' {
            Action::NextTab
        } else if c == 'p' {
            Action::PrevTab
        } else if c == 'w' {
            Action::NextWorkspace
        } else if c == 'W' {
            Action::PrevWorkspace
        } else if c == 'f' {
            Action::FuzzyJump
        } else if c == 'r' {
            Action::ReactToSelected
        } else if c == 'e' {
            Action::EmojiIntoComposer
        } else if c == 'v' {
            Action::StartVerification
        } else if c == 'R' {
            Action::OpenRecovery
        } else if c == 'a' {
            Action::JoinRoom
        } else if c == 'X' {
            Action::LeaveRoom
        } else if c == '?' {
            Action::ToggleHelp
        } else if c == 'q' {
            Action::Quit
        } else {
            Action::Ignore
        },
        _ => Action::Ignore,
    }
}

fn map_prefix(code: KeyCode) -> (r: Action)
    ensures
        r == prefixed(code),
{
    match code {
        KeyCode::Char('|') => Action::Split(Dir::Right),
        KeyCode::Char('\\') => Action::Split(Dir::Right),
        KeyCode::Char('-') => Action::Split(Dir::Down),
        KeyCode::Char('_') => Action::Split(Dir::Down),
        KeyCode::Char('h') => Action::FocusPane(Dir::Left),
        KeyCode::Char('j') => Action::FocusPane(Dir::Down),
        KeyCode::Char('k') => Action::FocusPane(Dir::Up),
        KeyCode::Char('l') => Action::FocusPane(Dir::Right),
        KeyCode::Char('H') => Action::ResizePane(Dir::Left),
        KeyCode::Char('J') => Action::ResizePane(Dir::Down),
        KeyCode::Char('K') => Action::ResizePane(Dir::Up),
        KeyCode::Char('L') => Action::ResizePane(Dir::Right),
        KeyCode::Char('z') => Action::ZoomPane,
        KeyCode::Char('x') => Action::ClosePane,
        KeyCode::Char('c') => Action::NewThread,
        KeyCode::Char('t') => Action::OpenThreads,
        KeyCode::Char('n') => Action::NextTab,
        KeyCode::Char('p') => Action::PrevTab,
        KeyCode::Char('w') => Action::NextWorkspace,
        KeyCode::Char('W') => Action::PrevWorkspace,
        KeyCode::Char('f') => Action::FuzzyJump,
        KeyCode::Char('r') => Action::ReactToSelected,
        KeyCode::Char('e') => Action::EmojiIntoComposer,
        KeyCode::Char('v') => Action::StartVerification,
        KeyCode::Char('R') => Action::OpenRecovery,
        KeyCode::Char('a') => Action::JoinRoom,
        KeyCode::Char('X') => Action::LeaveRoom,
        KeyCode::Char('?') => Action::ToggleHelp,
        KeyCode::Char('q') => Action::Quit,
        _ => Action::Ignore,
    }
}

/// What a key does outside the composer.
pub open spec fn normal(key: KeyEvent) -> (Action, Mode) {
    match key.code {
        KeyCode::Char(c) => if c == 'i' {
            (Action::EnterInsert, Mode::Insert)
        } else if c == ':' {
            (Action::CommandPalette, Mode::Normal)
        } else if c == 'y' {
            (Action::Approve, Mode::Normal)
        } else if c == 'n' {
            (Action::Deny, Mode::Normal)
        } else if c == 'r' {
            (Action::Reply, Mode::Normal)
        } else if c == 'e' {
            (Action::EditMessage, Mode::Normal)
        } else if c == 'D' {
            (Action::RedactMessage, Mode::Normal)
        } else if c == 'u' && key.modifiers.control {
            (Action::ScrollUp(10), Mode::Normal)
        } else if c == 'd' && key.modifiers.control {
            (Action::ScrollDown(10), Mode::Normal)
        } else if c == 'k' {
            (Action::ScrollUp(1), Mode::Normal)
        } else if c == 'j' {
            (Action::ScrollDown(1), Mode::Normal)
        } else if c == 'g' {
            (Action::ScrollTop, Mode::Normal)
        } else if c == 'G' {
            (Action::ScrollBottom, Mode::Normal)
        } else if c == 'q' {
            (Action::Quit, Mode::Normal)
        } else {
            (Action::Ignore, Mode::Normal)
        },
        KeyCode::Tab => (Action::ToggleCard, Mode::Normal),
        KeyCode::Up => (Action::ScrollUp(1), Mode::Normal),
        KeyCode::Down => (Action::ScrollDown(1), Mode::Normal),
        KeyCode::PageUp => (Action::ScrollUp(20), Mode::Normal),
        KeyCode::PageDown => (Action::ScrollDown(20), Mode::Normal),
        _ => (Action::Ignore, Mode::Normal),
    }
}

fn map_normal(key: KeyEvent) -> (r: (Action, Mode))
    ensures
        r == normal(key),
{
    let ctrl = key.modifiers.control;
    match key.code {
        KeyCode::Char('i') => (Action::EnterInsert, Mode::Insert),
        KeyCode::Char(':') => (Action::CommandPalette, Mode::Normal),
        KeyCode::Char('y') => (Action::Approve, Mode::Normal),
        KeyCode::Char('n') => (Action::Deny, Mode::Normal),
        KeyCode::Char('r') => (Action::Reply, Mode::Normal),
        KeyCode::Char('e') => (Action::EditMessage, Mode::Normal),
        KeyCode::Char('D') => (Action::RedactMessage, Mode::Normal),
        KeyCode::Tab => (Action::ToggleCard, Mode::Normal),
        KeyCode::Char('u') if ctrl => (Action::ScrollUp(10), Mode::Normal),
        KeyCode::Char('d') if ctrl => (Action::ScrollDown(10), Mode::Normal),
        KeyCode::Char('k') => (Action::ScrollUp(1), Mode::Normal),
        KeyCode::Up => (Action::ScrollUp(1), Mode::Normal),
        KeyCode::Char('j') => (Action::ScrollDown(1), Mode::Normal),
        KeyCode::Down => (Action::ScrollDown(1), Mode::Normal),
        KeyCode::PageUp => (Action::ScrollUp(20), Mode::Normal),
        KeyCode::PageDown => (Action::ScrollDown(20), Mode::Normal),
        KeyCode::Char('g') => (Action::ScrollTop, Mode::Normal),
        KeyCode::Char('G') => (Action::ScrollBottom, Mode::Normal),
        KeyCode::Char('q') => (Action::Quit, Mode::Normal),
        _ => (Action::Ignore, Mode::Normal),
    }
}

/// What a key does in the composer. Shift and enter break the line; enter alone sends.
pub open spec fn inserted(key: KeyEvent) -> (Action, Mode) {
    match key.code {
        KeyCode::Esc => (Action::EnterNormal, Mode::Normal),
        KeyCode::Backspace => (Action::Backspace, Mode::Insert),
        KeyCode::Enter => if key.modifiers.shift {
            (Action::Newline, Mode::Insert)
        } else {
            (Action::Submit, Mode::Insert)
        },
        KeyCode::Char(c) => if key.modifiers.control {
            (Action::Ignore, Mode::Insert)
        } else {
            (Action::Insert(c), Mode::Insert)
        },
        _ => (Action::Ignore, Mode::Insert),
    }
}

fn map_insert(key: KeyEvent) -> (r: (Action, Mode))
    ensures
        r == inserted(key),
{
    match key.code {
        KeyCode::Esc => (Action::EnterNormal, Mode::Normal),
        KeyCode::Backspace => (Action::Backspace, Mode::Insert),
        KeyCode::Enter => {
            if key.modifiers.shift {
                (Action::Newline, Mode::Insert)
            } else {
                (Action::Submit, Mode::Insert)
            }
        },
        KeyCode::Char(c) => {
            if key.modifiers.control {
                (Action::Ignore, Mode::Insert)
            } else {
                (Action::Insert(c), Mode::Insert)
            }
        },
        _ => (Action::Ignore, Mode::Insert),
    }
}

/// What a key press does, and the mode to switch to.
pub open spec fn mapped(key: KeyEvent, mode: Mode, prefix: Prefix) -> (Action, Mode) {
    if mode != Mode::Prefix && prefix.is_pressed(key) {
        (Action::Ignore, Mode::Prefix)
    } else {
        match mode {
            Mode::Prefix => (prefixed(key.code), Mode::Normal),
            Mode::Normal => normal(key),
            Mode::Insert => inserted(key),
        }
    }
}

/// Translate a key press into an [`Action`], given the current mode.
///
/// Returns the action and the mode to switch to. The prefix key is live in Normal and
/// Insert alike; otherwise there would be no way to split a pane without first leaving
/// the composer.
pub fn map(key: KeyEvent, mode: Mode, prefix: Prefix) -> (r: (Action, Mode))
    ensures
        r == mapped(key, mode, prefix),
{
    if mode != Mode::Prefix && prefix.matches(&key) {
        return (Action::Ignore, Mode::Prefix);
    }
    match mode {
        Mode::Prefix => (map_prefix(key.code), Mode::Normal),
        Mode::Normal => map_normal(key),
        Mode::Insert => map_insert(key),
    }
}

// ----------------------------------------------------------------------------- laws

/// The prefix is single-shot: whatever is pressed behind it, the next key is an ordinary
/// one again.
pub proof fn law_the_prefix_is_single_shot(key: KeyEvent, prefix: Prefix)
    ensures
        mapped(key, Mode::Prefix, prefix).1 == Mode::Normal,
{
}

/// The prefix key is live everywhere but behind itself.
pub proof fn law_the_prefix_works_everywhere(key: KeyEvent, mode: Mode, prefix: Prefix)
    requires
        mode != Mode::Prefix,
        prefix.is_pressed(key),
    ensures
        mapped(key, mode, prefix) == (Action::Ignore, Mode::Prefix),
{
}

/// In the composer a character is typed, whatever it means elsewhere.
pub proof fn law_typing_is_not_commanding(c: char, m: KeyModifiers, prefix: Prefix)
    requires
        !m.control,
        !prefix.is_pressed(KeyEvent { code: KeyCode::Char(c), modifiers: m }),
    ensures
        mapped(KeyEvent { code: KeyCode::Char(c), modifiers: m }, Mode::Insert, prefix) == (
            Action::Insert(c),
            Mode::Insert,
        ),
{
}

} // verus!
